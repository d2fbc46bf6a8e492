//! Double-precision numbers, held as their IEEE-754 binary64 bit patterns.
//!
//! All arithmetic is carried out by `rustc_apfloat`, a software implementation
//! of IEEE-754, in round-to-nearest-ties-to-even mode: the results are those
//! of Rust's `f64` operators (NaN payloads aside). Comparison is written
//! here, on the bit patterns.
use vstd::prelude::*;
use rustc_apfloat::Float;

verus! {

/// The rounded IEEE-754 sum of two binary64 values.
pub uninterp spec fn float_sum(a: u64, b: u64) -> u64;

/// The rounded IEEE-754 difference of two binary64 values.
pub uninterp spec fn float_difference(a: u64, b: u64) -> u64;

/// The rounded IEEE-754 product of two binary64 values.
pub uninterp spec fn float_product(a: u64, b: u64) -> u64;

/// The rounded IEEE-754 quotient of two binary64 values.
pub uninterp spec fn float_quotient(a: u64, b: u64) -> u64;

/// The remainder of truncating division (C's `fmod`, Rust's `%` on `f64`).
pub uninterp spec fn float_remainder(a: u64, b: u64) -> u64;

/// Whether a binary64 value is a NaN: all exponent bits set and a
/// nonzero fraction.
pub open spec fn float_is_nan(b: u64) -> bool {
    b % 0x8000_0000_0000_0000 > 0x7FF0_0000_0000_0000
}

/// A key that orders non-NaN binary64 values as the reals they stand for:
/// the magnitude bits, negated for a set sign bit (both zeros give 0).
pub open spec fn float_key(b: u64) -> int {
    if b < 0x8000_0000_0000_0000 {
        b as int
    } else {
        -((b - 0x8000_0000_0000_0000) as int)
    }
}

/// How two binary64 values compare, as IEEE-754 orders them: `None` when
/// either is a NaN.
pub open spec fn float_order(a: u64, b: u64) -> Option<std::cmp::Ordering> {
    if float_is_nan(a) || float_is_nan(b) {
        None
    } else if float_key(a) < float_key(b) {
        Some(std::cmp::Ordering::Less)
    } else if float_key(a) == float_key(b) {
        Some(std::cmp::Ordering::Equal)
    } else {
        Some(std::cmp::Ordering::Greater)
    }
}

/// The binary64 value that rustc_apfloat reads from a numeral (decimal,
/// possibly signed, with a fraction and an exponent; also its `inf`, `nan`
/// and hexadecimal forms), rounded to nearest; `None` where it reads none.
pub uninterp spec fn float_of_decimal(text: Seq<char>) -> Option<u64>;

/// The binary64 value nearest to an integer.
pub uninterp spec fn float_of_int(i: int) -> u64;

/// Relies on `<Double as Add>::add` of rustc_apfloat (round to nearest, ties to even).
#[verifier::external_body]
fn apfloat_add(a: u64, b: u64) -> (r: u64)
    ensures
        r == float_sum(a, b),
{
    let x = rustc_apfloat::ieee::Double::from_bits(a as u128);
    let y = rustc_apfloat::ieee::Double::from_bits(b as u128);
    (x + y).value.to_bits() as u64
}

/// Relies on `<Double as Sub>::sub` of rustc_apfloat (round to nearest, ties to even).
#[verifier::external_body]
fn apfloat_sub(a: u64, b: u64) -> (r: u64)
    ensures
        r == float_difference(a, b),
{
    let x = rustc_apfloat::ieee::Double::from_bits(a as u128);
    let y = rustc_apfloat::ieee::Double::from_bits(b as u128);
    (x - y).value.to_bits() as u64
}

/// Relies on `<Double as Mul>::mul` of rustc_apfloat (round to nearest, ties to even).
#[verifier::external_body]
fn apfloat_mul(a: u64, b: u64) -> (r: u64)
    ensures
        r == float_product(a, b),
{
    let x = rustc_apfloat::ieee::Double::from_bits(a as u128);
    let y = rustc_apfloat::ieee::Double::from_bits(b as u128);
    (x * y).value.to_bits() as u64
}

/// Relies on `<Double as Div>::div` of rustc_apfloat (round to nearest, ties to even).
#[verifier::external_body]
fn apfloat_div(a: u64, b: u64) -> (r: u64)
    ensures
        r == float_quotient(a, b),
{
    let x = rustc_apfloat::ieee::Double::from_bits(a as u128);
    let y = rustc_apfloat::ieee::Double::from_bits(b as u128);
    (x / y).value.to_bits() as u64
}

/// Relies on `<Double as Rem>::rem` of rustc_apfloat, which is `c_fmod`.
#[verifier::external_body]
fn apfloat_rem(a: u64, b: u64) -> (r: u64)
    ensures
        r == float_remainder(a, b),
{
    let x = rustc_apfloat::ieee::Double::from_bits(a as u128);
    let y = rustc_apfloat::ieee::Double::from_bits(b as u128);
    (x % y).value.to_bits() as u64
}

/// IEEE-754 comparison of two binary64 values, as `float_order` states it.
fn compare_bits(a: u64, b: u64) -> (r: Option<std::cmp::Ordering>)
    ensures
        r == float_order(a, b),
{
    let ma = if a >= 0x8000_0000_0000_0000 { a - 0x8000_0000_0000_0000 } else { a };
    let mb = if b >= 0x8000_0000_0000_0000 { b - 0x8000_0000_0000_0000 } else { b };
    if ma > 0x7FF0_0000_0000_0000 || mb > 0x7FF0_0000_0000_0000 {
        return None;
    }
    let a_negative = a >= 0x8000_0000_0000_0000;
    let b_negative = b >= 0x8000_0000_0000_0000;
    if ma == 0 && mb == 0 {
        return Some(std::cmp::Ordering::Equal);
    }
    if a_negative != b_negative {
        if a_negative {
            Some(std::cmp::Ordering::Less)
        } else {
            Some(std::cmp::Ordering::Greater)
        }
    } else if ma == mb {
        Some(std::cmp::Ordering::Equal)
    } else if (ma < mb) != a_negative {
        Some(std::cmp::Ordering::Less)
    } else {
        Some(std::cmp::Ordering::Greater)
    }
}

/// Relies on `<Double as FromStr>::from_str` of rustc_apfloat (correctly
/// rounded decimal conversion, ties to even).
#[verifier::external_body]
fn apfloat_from_str(text: &str) -> (r: Option<u64>)
    ensures
        r == float_of_decimal(text@),
{
    text.parse::<rustc_apfloat::ieee::Double>().ok().map(|x| x.to_bits() as u64)
}

/// Relies on `Float::from_i128` of rustc_apfloat (round to nearest, ties to even).
#[verifier::external_body]
fn apfloat_from_i64(i: i64) -> (r: u64)
    ensures
        r == float_of_int(i as int),
{
    rustc_apfloat::ieee::Double::from_i128(i as i128).value.to_bits() as u64
}

/// A double-precision number, stored as its IEEE-754 binary64 bit pattern.
#[derive(Clone, Copy, Debug)]
pub struct Number {
    pub bits: u64,
}

impl Number {
    /// The number whose binary64 encoding is `bits` (as `f64::from_bits`).
    pub fn from_bits(bits: u64) -> (r: Number)
        ensures
            r.bits == bits,
    {
        Number { bits }
    }

    /// The binary64 encoding of this number (as `f64::to_bits`).
    pub fn to_bits(&self) -> (r: u64)
        ensures
            r == self.bits,
    {
        self.bits
    }

    /// The number nearest to the integer `i` (as `i as f64`).
    pub fn from_i64(i: i64) -> (r: Number)
        ensures
            r.bits == float_of_int(i as int),
    {
        Number { bits: apfloat_from_i64(i) }
    }

    /// The number nearest to the integer `i` (as `i as f64`).
    pub fn from_i32(i: i32) -> (r: Number)
        ensures
            r.bits == float_of_int(i as int),
    {
        Number { bits: apfloat_from_i64(i as i64) }
    }

    /// The number that rustc_apfloat reads from `text`: a decimal numeral
    /// such as `12`, `0.25` or `-1e3`, rounded to nearest, and also `inf`,
    /// `nan` and hexadecimal forms; `None` where it reads none.
    pub fn from_decimal(text: &str) -> (r: Option<Number>)
        ensures
            r matches Some(n) ==> float_of_decimal(text@) == Some(n.bits),
            r is None <==> float_of_decimal(text@) is None,
    {
        match apfloat_from_str(text) {
            Some(bits) => Some(Number { bits }),
            None => None,
        }
    }

    /// The rounded sum (`+`).
    pub fn add(&self, other: &Number) -> (r: Number)
        ensures
            r.bits == float_sum(self.bits, other.bits),
    {
        Number { bits: apfloat_add(self.bits, other.bits) }
    }

    /// The rounded difference (`-`).
    pub fn sub(&self, other: &Number) -> (r: Number)
        ensures
            r.bits == float_difference(self.bits, other.bits),
    {
        Number { bits: apfloat_sub(self.bits, other.bits) }
    }

    /// The rounded product (`*`).
    pub fn mul(&self, other: &Number) -> (r: Number)
        ensures
            r.bits == float_product(self.bits, other.bits),
    {
        Number { bits: apfloat_mul(self.bits, other.bits) }
    }

    /// The rounded quotient (`/`).
    pub fn div(&self, other: &Number) -> (r: Number)
        ensures
            r.bits == float_quotient(self.bits, other.bits),
    {
        Number { bits: apfloat_div(self.bits, other.bits) }
    }

    /// The remainder of truncating division (`%`).
    pub fn rem(&self, other: &Number) -> (r: Number)
        ensures
            r.bits == float_remainder(self.bits, other.bits),
    {
        Number { bits: apfloat_rem(self.bits, other.bits) }
    }

    /// IEEE comparison: `None` when either operand is a NaN.
    pub fn compare(&self, other: &Number) -> (r: Option<std::cmp::Ordering>)
        ensures
            r == float_order(self.bits, other.bits),
    {
        compare_bits(self.bits, other.bits)
    }
}

/// IEEE equality: NaN equals nothing, and `0.0 == -0.0`.
pub open spec fn float_eq(a: u64, b: u64) -> bool {
    float_order(a, b) == Some(std::cmp::Ordering::Equal)
}

impl PartialEq for Number {
    fn eq(&self, other: &Number) -> (r: bool) {
        match compare_bits(self.bits, other.bits) {
            Some(std::cmp::Ordering::Equal) => true,
            _ => false,
        }
    }
}

impl vstd::std_specs::cmp::PartialEqSpecImpl for Number {
    open spec fn obeys_eq_spec() -> bool {
        true
    }

    open spec fn eq_spec(&self, other: &Number) -> bool {
        float_eq(self.bits, other.bits)
    }
}

} // verus!
