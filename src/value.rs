//! The values that flow through parsing and evaluation.
use vstd::prelude::*;
use vstd::std_specs::vec::axiom_vec_index_decreases;
use crate::number::{Number, float_eq, float_of_int};

verus! {

/// A value of the language: a boolean, a double-precision number, a string,
/// or an array of values (of any kinds, mixed).
#[derive(Debug)]
pub enum Value {
    Bool(bool),
    Number(Number),
    String(String),
    Array(Vec<Value>),
}

/// The mathematical content of a `Value`: numbers by their bit pattern,
/// strings by their characters.
pub enum ValueModel {
    Bool(bool),
    Number(u64),
    Str(Seq<char>),
    Array(Seq<ValueModel>),
}

impl Value {
    pub open spec fn model(self) -> ValueModel
        decreases self,
    {
        match self {
            Value::Bool(b) => ValueModel::Bool(b),
            Value::Number(n) => ValueModel::Number(n.bits),
            Value::String(s) => ValueModel::Str(s@),
            Value::Array(a) => ValueModel::Array(models_of(a@)),
        }
    }
}

/// The models of a sequence of values, element by element.
pub open spec fn models_of(s: Seq<Value>) -> Seq<ValueModel>
    decreases s,
{
    if s.len() == 0 {
        Seq::empty()
    } else {
        models_of(s.drop_last()).push(s.last().model())
    }
}

/// `models_of` keeps the length and maps each element to its model.
pub proof fn lemma_models_of(s: Seq<Value>)
    ensures
        models_of(s).len() == s.len(),
        forall|i: int| 0 <= i < s.len() ==> #[trigger] models_of(s)[i] == s[i].model(),
    decreases s.len(),
{
    if s.len() > 0 {
        lemma_models_of(s.drop_last());
    }
}

/// Two values are equal when they are of the same kind and hold the same
/// content; numbers compare as IEEE doubles (so NaN equals nothing).
pub open spec fn model_eq(a: ValueModel, b: ValueModel) -> bool
    decreases a,
{
    match (a, b) {
        (ValueModel::Bool(x), ValueModel::Bool(y)) => x == y,
        (ValueModel::Number(x), ValueModel::Number(y)) => float_eq(x, y),
        (ValueModel::Str(x), ValueModel::Str(y)) => x == y,
        (ValueModel::Array(x), ValueModel::Array(y)) => {
            &&& x.len() == y.len()
            &&& forall|i: int| 0 <= i < x.len() ==> model_eq(#[trigger] x[i], y[i])
        },
        _ => false,
    }
}

impl Value {
    /// A string value holding the characters of `s`.
    pub fn from_str_slice(s: &str) -> (r: Value)
        ensures
            r.model() == ValueModel::Str(s@),
    {
        Value::String(s.to_string())
    }

    /// A copy of this value, element by element.
    pub fn duplicate(&self) -> (r: Value)
        ensures
            r.model() == self.model(),
        decreases self,
    {
        match self {
            Value::Bool(b) => Value::Bool(*b),
            Value::Number(n) => Value::Number(*n),
            Value::String(s) => Value::String(s.clone()),
            Value::Array(a) => {
                let mut out: Vec<Value> = Vec::new();
                let mut i: usize = 0;
                while i < a.len()
                    invariant
                        *self == Value::Array(*a),
                        self.model() == ValueModel::Array(models_of(a@)),
                        i <= a.len(),
                        out@.len() == i,
                        forall|k: int| 0 <= k < i ==> #[trigger] out@[k].model() == a@[k].model(),
                    decreases a.len() - i,
                {
                    proof {
                        axiom_vec_index_decreases(*a, i as int);
                    }
                    let item = a[i].duplicate();
                    out.push(item);
                    i = i + 1;
                }
                proof {
                    lemma_models_of(out@);
                    lemma_models_of(a@);
                    assert(models_of(out@) =~= models_of(a@));
                }
                Value::Array(out)
            },
        }
    }

    /// Structural equality, as `model_eq` states it.
    pub fn equals(&self, other: &Value) -> (r: bool)
        ensures
            r == model_eq(self.model(), other.model()),
        decreases self,
    {
        match self {
            Value::Bool(x) => match other {
                Value::Bool(y) => *x == *y,
                _ => false,
            },
            Value::Number(x) => match other {
                Value::Number(y) => x.eq(y),
                _ => false,
            },
            Value::String(x) => match other {
                Value::String(y) => x.eq(y),
                _ => false,
            },
            Value::Array(x) => match other {
                Value::Array(y) => {
                    proof {
                        lemma_models_of(x@);
                        lemma_models_of(y@);
                    }
                    if x.len() != y.len() {
                        return false;
                    }
                    let mut i: usize = 0;
                    while i < x.len()
                        invariant
                            *self == Value::Array(*x),
                            i <= x.len(),
                            x.len() == y.len(),
                            self.model() == ValueModel::Array(models_of(x@)),
                            other.model() == ValueModel::Array(models_of(y@)),
                            models_of(x@).len() == x@.len(),
                            models_of(y@).len() == y@.len(),
                            forall|k: int| 0 <= k < x@.len() ==> #[trigger] models_of(x@)[k] == x@[k].model(),
                            forall|k: int| 0 <= k < y@.len() ==> #[trigger] models_of(y@)[k] == y@[k].model(),
                            forall|k: int| 0 <= k < i ==> model_eq(#[trigger] models_of(x@)[k], models_of(y@)[k]),
                        decreases x.len() - i,
                    {
                        proof {
                            axiom_vec_index_decreases(*x, i as int);
                        }
                        if !x[i].equals(&y[i]) {
                            assert(!model_eq(models_of(x@)[i as int], models_of(y@)[i as int]));
                            return false;
                        }
                        i = i + 1;
                    }
                    true
                },
                _ => false,
            },
        }
    }
}

impl Clone for Value {
    fn clone(&self) -> (r: Value)
        ensures
            r.model() == self.model(),
    {
        self.duplicate()
    }
}

impl PartialEq for Value {
    fn eq(&self, other: &Value) -> (r: bool) {
        self.equals(other)
    }
}

impl vstd::std_specs::cmp::PartialEqSpecImpl for Value {
    open spec fn obeys_eq_spec() -> bool {
        true
    }

    open spec fn eq_spec(&self, other: &Value) -> bool {
        model_eq(self.model(), other.model())
    }
}

impl From<bool> for Value {
    fn from(b: bool) -> (r: Value) {
        Value::Bool(b)
    }
}

impl vstd::std_specs::convert::FromSpecImpl<bool> for Value {
    open spec fn obeys_from_spec() -> bool {
        true
    }

    open spec fn from_spec(b: bool) -> Value {
        Value::Bool(b)
    }
}

impl From<Number> for Value {
    fn from(n: Number) -> (r: Value) {
        Value::Number(n)
    }
}

impl vstd::std_specs::convert::FromSpecImpl<Number> for Value {
    open spec fn obeys_from_spec() -> bool {
        true
    }

    open spec fn from_spec(n: Number) -> Value {
        Value::Number(n)
    }
}

impl From<i64> for Value {
    fn from(i: i64) -> (r: Value) {
        Value::Number(Number::from_i64(i))
    }
}

impl vstd::std_specs::convert::FromSpecImpl<i64> for Value {
    open spec fn obeys_from_spec() -> bool {
        true
    }

    open spec fn from_spec(i: i64) -> Value {
        Value::Number(Number { bits: float_of_int(i as int) })
    }
}

impl From<i32> for Value {
    fn from(i: i32) -> (r: Value) {
        Value::Number(Number::from_i32(i))
    }
}

impl vstd::std_specs::convert::FromSpecImpl<i32> for Value {
    open spec fn obeys_from_spec() -> bool {
        true
    }

    open spec fn from_spec(i: i32) -> Value {
        Value::Number(Number { bits: float_of_int(i as int) })
    }
}

impl From<String> for Value {
    fn from(s: String) -> (r: Value) {
        Value::String(s)
    }
}

impl vstd::std_specs::convert::FromSpecImpl<String> for Value {
    open spec fn obeys_from_spec() -> bool {
        true
    }

    open spec fn from_spec(s: String) -> Value {
        Value::String(s)
    }
}

impl From<&str> for Value {
    /// See `Value::from_str_slice`, which states the result.
    fn from(s: &str) -> (r: Value)
        ensures
            r.model() == ValueModel::Str(s@),
    {
        Value::from_str_slice(s)
    }
}

impl vstd::std_specs::convert::FromSpecImpl<&str> for Value {
    /// Strings are not determined by their characters alone, so the result is
    /// stated by `Value::from_str_slice` instead.
    open spec fn obeys_from_spec() -> bool {
        false
    }

    open spec fn from_spec(s: &str) -> Value {
        choose|v: Value| v.model() == ValueModel::Str(s@)
    }
}

} // verus!
