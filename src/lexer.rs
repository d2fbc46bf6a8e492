//! Splitting source text into tokens.
//!
//! Positions are character indices into the source text. Whitespace between
//! tokens is skipped; at each position the longest token that fits is taken.
use vstd::prelude::*;
use crate::number::{Number, float_of_decimal};
use crate::op::{Op, LogicalOp, EqualityOp, RelationalOp, AdditiveOp, MultiplicativeOp};

verus! {

broadcast use vstd::std_specs::vec::group_vec_axioms;

/// What a token is. Identifier and string tokens keep their text in the
/// source, between `start` and `end` of the `Token`.
#[derive(Clone, Copy, Debug, PartialEq, Eq, Structural)]
pub enum TokenKind {
    /// `{name}`, braces included.
    Identifier,
    /// `12` or `1.5`, already converted to a double.
    Number(u64),
    /// `'text'`, quotes included.
    Str,
    True,
    False,
    Op(Op),
    LParen,
    RParen,
    LBracket,
    RBracket,
    Comma,
}

/// A token and the span of source characters, `start..end`, that it covers.
#[derive(Clone, Copy, Debug, PartialEq, Eq, Structural)]
pub struct Token {
    pub kind: TokenKind,
    pub start: usize,
    pub end: usize,
}

pub open spec fn is_digit(c: char) -> bool {
    '0' <= c && c <= '9'
}

pub open spec fn is_name_start(c: char) -> bool {
    'a' <= c && c <= 'z'
}

pub open spec fn is_name_char(c: char) -> bool {
    is_name_start(c) || is_digit(c) || c == '_'
}

/// The whitespace that may stand between tokens: the characters of
/// Unicode's `White_Space` property.
pub open spec fn is_space(c: char) -> bool {
    c == ' ' || ('\t' <= c && c <= '\r') || c == '\u{85}' || c == '\u{A0}' || c == '\u{1680}'
        || ('\u{2000}' <= c && c <= '\u{200A}') || c == '\u{2028}' || c == '\u{2029}' || c == '\u{202F}'
        || c == '\u{205F}' || c == '\u{3000}'
}

/// The first position at or after `i` that does not hold whitespace.
pub open spec fn skip_spaces(s: Seq<char>, i: int) -> int
    decreases s.len() - i,
{
    if 0 <= i < s.len() && is_space(s[i]) {
        skip_spaces(s, i + 1)
    } else {
        i
    }
}

/// The first position at or after `i` that does not hold a digit.
pub open spec fn digits_end(s: Seq<char>, i: int) -> int
    decreases s.len() - i,
{
    if 0 <= i < s.len() && is_digit(s[i]) {
        digits_end(s, i + 1)
    } else {
        i
    }
}

/// The first position at or after `i` that does not hold a name character.
pub open spec fn name_end(s: Seq<char>, i: int) -> int
    decreases s.len() - i,
{
    if 0 <= i < s.len() && is_name_char(s[i]) {
        name_end(s, i + 1)
    } else {
        i
    }
}

/// The first position at or after `i` that holds a quote, or the end of `s`.
pub open spec fn quote_end(s: Seq<char>, i: int) -> int
    decreases s.len() - i,
{
    if 0 <= i < s.len() && s[i] != '\'' {
        quote_end(s, i + 1)
    } else {
        i
    }
}

/// Whether `word` stands in `s` at position `i`.
pub open spec fn stands_at(s: Seq<char>, i: int, word: Seq<char>) -> bool {
    &&& 0 <= i
    &&& i + word.len() <= s.len()
    &&& s.subrange(i, i + word.len()) == word
}

/// A numeral covering `i..e`, converted to a double.
pub open spec fn numeral(s: Seq<char>, i: int, e: int) -> Option<(TokenKind, int)> {
    match float_of_decimal(s.subrange(i, e)) {
        Some(bits) => Some((TokenKind::Number(bits), e)),
        None => None,
    }
}

/// The operator or punctuation symbol at `i`, and where it ends.
pub open spec fn symbol_at(s: Seq<char>, i: int) -> Option<(TokenKind, int)> {
    let c = s[i];
    let next = if i + 1 < s.len() { s[i + 1] } else { ' ' };
    if c == '&' && next == '&' {
        Some((TokenKind::Op(Op::Logical(LogicalOp::And)), i + 2))
    } else if c == '|' && next == '|' {
        Some((TokenKind::Op(Op::Logical(LogicalOp::Or)), i + 2))
    } else if c == '=' && next == '=' {
        Some((TokenKind::Op(Op::Equality(EqualityOp::Eq)), i + 2))
    } else if c == '!' && next == '=' {
        Some((TokenKind::Op(Op::Equality(EqualityOp::Neq)), i + 2))
    } else if c == '>' && next == '=' {
        Some((TokenKind::Op(Op::Relational(RelationalOp::Gte)), i + 2))
    } else if c == '<' && next == '=' {
        Some((TokenKind::Op(Op::Relational(RelationalOp::Lte)), i + 2))
    } else if c == '>' {
        Some((TokenKind::Op(Op::Relational(RelationalOp::Gt)), i + 1))
    } else if c == '<' {
        Some((TokenKind::Op(Op::Relational(RelationalOp::Lt)), i + 1))
    } else if c == '+' {
        Some((TokenKind::Op(Op::Additive(AdditiveOp::Add)), i + 1))
    } else if c == '-' {
        Some((TokenKind::Op(Op::Additive(AdditiveOp::Sub)), i + 1))
    } else if c == '*' {
        Some((TokenKind::Op(Op::Multiplicative(MultiplicativeOp::Mul)), i + 1))
    } else if c == '/' {
        Some((TokenKind::Op(Op::Multiplicative(MultiplicativeOp::Div)), i + 1))
    } else if c == '%' {
        Some((TokenKind::Op(Op::Multiplicative(MultiplicativeOp::Mod)), i + 1))
    } else if c == '(' {
        Some((TokenKind::LParen, i + 1))
    } else if c == ')' {
        Some((TokenKind::RParen, i + 1))
    } else if c == '[' {
        Some((TokenKind::LBracket, i + 1))
    } else if c == ']' {
        Some((TokenKind::RBracket, i + 1))
    } else if c == ',' {
        Some((TokenKind::Comma, i + 1))
    } else {
        None
    }
}

/// The longest token that starts at position `i` (which holds no
/// whitespace), and the position where it ends; `None` where no token starts
/// there.
pub open spec fn scan_token(s: Seq<char>, i: int) -> Option<(TokenKind, int)> {
    if !(0 <= i < s.len()) {
        None
    } else if s[i] == '{' {
        if i + 1 < s.len() && is_name_start(s[i + 1]) {
            let e = name_end(s, i + 2);
            if e < s.len() && s[e] == '}' {
                Some((TokenKind::Identifier, e + 1))
            } else {
                None
            }
        } else {
            None
        }
    } else if is_digit(s[i]) {
        let e = digits_end(s, i + 1);
        if e + 1 < s.len() && s[e] == '.' && is_digit(s[e + 1]) {
            numeral(s, i, digits_end(s, e + 2))
        } else {
            numeral(s, i, e)
        }
    } else if s[i] == '\'' {
        let e = quote_end(s, i + 1);
        if e < s.len() {
            Some((TokenKind::Str, e + 1))
        } else {
            None
        }
    } else if stands_at(s, i, seq!['t', 'r', 'u', 'e']) {
        Some((TokenKind::True, i + 4))
    } else if stands_at(s, i, seq!['f', 'a', 'l', 's', 'e']) {
        Some((TokenKind::False, i + 5))
    } else if stands_at(s, i, seq!['i', 'n']) {
        Some((TokenKind::Op(Op::Equality(EqualityOp::In)), i + 2))
    } else {
        symbol_at(s, i)
    }
}

pub proof fn lemma_scan_ends(s: Seq<char>, i: int)
    requires
        0 <= i <= s.len(),
    ensures
        i <= digits_end(s, i) <= s.len(),
        i <= name_end(s, i) <= s.len(),
        i <= quote_end(s, i) <= s.len(),
        i <= skip_spaces(s, i) <= s.len(),
    decreases s.len() - i,
{
    if i < s.len() {
        lemma_scan_ends(s, i + 1);
    }
}

/// A token, where one starts, ends after its start and within the text;
/// an identifier or a string covers at least its two delimiters.
pub proof fn lemma_scan_token_bounds(s: Seq<char>, i: int)
    requires
        0 <= i < s.len(),
    ensures
        scan_token(s, i) matches Some((k, e)) ==> {
            &&& i < e <= s.len()
            &&& (k is Identifier || k is Str) ==> i + 2 <= e
            &&& k is Number ==> float_of_decimal(s.subrange(i, e)) == Some(k->Number_0)
        },
{
    lemma_scan_ends(s, i + 1);
    if i + 2 <= s.len() {
        lemma_scan_ends(s, i + 2);
    }
    let e = digits_end(s, i + 1);
    if e + 2 <= s.len() {
        lemma_scan_ends(s, e + 2);
    }
}

/// The tokens of `s` from position `i` on, or, where some position holds no
/// token, the first such position.
pub open spec fn lex_from(s: Seq<char>, i: int) -> Result<Seq<Token>, int>
    decreases s.len() - i,
{
    let j = skip_spaces(s, i);
    if !(0 <= i <= j < s.len()) {
        Ok(Seq::empty())
    } else {
        match scan_token(s, j) {
            None => Err(j),
            Some((kind, e)) => if j < e <= s.len() && e <= usize::MAX {
                match lex_from(s, e) {
                    Ok(rest) => Ok(seq![Token { kind, start: j as usize, end: e as usize }] + rest),
                    Err(p) => Err(p),
                }
            } else {
                Err(j)
            },
        }
    }
}

/// A token lies within the text, an identifier or a string token covers
/// at least its two delimiters, and a number token holds the double nearest
/// to the numeral it covers.
pub open spec fn token_fits(s: Seq<char>, tok: Token) -> bool {
    &&& tok.start < tok.end <= s.len()
    &&& (tok.kind is Identifier || tok.kind is Str) ==> tok.start + 2 <= tok.end
    &&& tok.kind is Number ==> float_of_decimal(s.subrange(tok.start as int, tok.end as int)) == Some(tok.kind->Number_0)
}

/// Every token that lexing yields fits the text.
pub proof fn lemma_lex_from_fits(s: Seq<char>, i: int)
    requires
        0 <= i,
    ensures
        lex_from(s, i) matches Ok(t) ==> forall|k: int| 0 <= k < t.len() ==> token_fits(s, #[trigger] t[k]),
    decreases s.len() - i,
{
    let j = skip_spaces(s, i);
    if 0 <= i <= j < s.len() {
        lemma_scan_token_bounds(s, j);
        match scan_token(s, j) {
            None => {},
            Some((kind, e)) => {
                if j < e <= s.len() && e <= usize::MAX {
                    lemma_lex_from_fits(s, e);
                    match lex_from(s, e) {
                        Ok(rest) => {
                            let tok = Token { kind, start: j as usize, end: e as usize };
                            let t = seq![tok] + rest;
                            assert forall|k: int| 0 <= k < t.len() implies token_fits(s, #[trigger] t[k]) by {
                                if k > 0 {
                                    assert(t[k] == rest[k - 1]);
                                }
                            }
                        },
                        Err(_) => {},
                    }
                }
            },
        }
    }
}

/// The tokens of the whole text `s`, or the first position that holds no token.
pub open spec fn lex(s: Seq<char>) -> Result<Seq<Token>, int> {
    lex_from(s, 0)
}

/// The characters of `s`, one by one.
pub fn chars_of(s: &str) -> (r: Vec<char>)
    ensures
        r@ == s@,
{
    let n = s.unicode_len();
    let mut out: Vec<char> = Vec::new();
    let mut i: usize = 0;
    while i < n
        invariant
            n == s@.len(),
            i <= n,
            out@ == s@.subrange(0, i as int),
        decreases n - i,
    {
        out.push(s.get_char(i));
        i = i + 1;
        assert(out@ =~= s@.subrange(0, i as int));
    }
    assert(out@ =~= s@);
    out
}

fn is_space_char(c: char) -> (r: bool)
    ensures
        r == is_space(c),
{
    c == ' ' || ('\t' <= c && c <= '\r') || c == '\u{85}' || c == '\u{A0}' || c == '\u{1680}'
        || ('\u{2000}' <= c && c <= '\u{200A}') || c == '\u{2028}' || c == '\u{2029}' || c == '\u{202F}'
        || c == '\u{205F}' || c == '\u{3000}'
}

fn is_digit_char(c: char) -> (r: bool)
    ensures
        r == is_digit(c),
{
    '0' <= c && c <= '9'
}

fn is_name_start_char(c: char) -> (r: bool)
    ensures
        r == is_name_start(c),
{
    'a' <= c && c <= 'z'
}

fn is_name_char_exec(c: char) -> (r: bool)
    ensures
        r == is_name_char(c),
{
    is_name_start_char(c) || is_digit_char(c) || c == '_'
}

fn skip_spaces_exec(s: &Vec<char>, i: usize) -> (r: usize)
    requires
        i <= s@.len(),
    ensures
        r as int == skip_spaces(s@, i as int),
        i <= r <= s.len(),
{
    let mut j = i;
    while j < s.len() && is_space_char(s[j])
        invariant
            i <= j <= s@.len(),
            skip_spaces(s@, i as int) == skip_spaces(s@, j as int),
        decreases s@.len() - j,
    {
        j = j + 1;
    }
    j
}

fn digits_end_exec(s: &Vec<char>, i: usize) -> (r: usize)
    requires
        i <= s@.len(),
    ensures
        r as int == digits_end(s@, i as int),
        i <= r <= s.len(),
{
    let mut j = i;
    while j < s.len() && is_digit_char(s[j])
        invariant
            i <= j <= s@.len(),
            digits_end(s@, i as int) == digits_end(s@, j as int),
        decreases s@.len() - j,
    {
        j = j + 1;
    }
    j
}

fn name_end_exec(s: &Vec<char>, i: usize) -> (r: usize)
    requires
        i <= s@.len(),
    ensures
        r as int == name_end(s@, i as int),
        i <= r <= s.len(),
{
    let mut j = i;
    while j < s.len() && is_name_char_exec(s[j])
        invariant
            i <= j <= s@.len(),
            name_end(s@, i as int) == name_end(s@, j as int),
        decreases s@.len() - j,
    {
        j = j + 1;
    }
    j
}

fn quote_end_exec(s: &Vec<char>, i: usize) -> (r: usize)
    requires
        i <= s@.len(),
    ensures
        r as int == quote_end(s@, i as int),
        i <= r <= s.len(),
{
    let mut j = i;
    while j < s.len() && s[j] != '\''
        invariant
            i <= j <= s@.len(),
            quote_end(s@, i as int) == quote_end(s@, j as int),
        decreases s@.len() - j,
    {
        j = j + 1;
    }
    j
}

/// Whether the characters of `word` stand in `s` at position `i`.
fn stands_at_exec(s: &Vec<char>, i: usize, word: &[char]) -> (r: bool)
    requires
        i <= s.len(),
    ensures
        r == stands_at(s@, i as int, word@),
{
    if word.len() > s.len() - i {
        return false;
    }
    let mut k: usize = 0;
    while k < word.len()
        invariant
            i + word@.len() <= s.len(),
            k <= word@.len(),
            forall|m: int| 0 <= m < k ==> s@[i + m] == word@[m],
        decreases word@.len() - k,
    {
        if s[i + k] != word[k] {
            assert(s@.subrange(i as int, i + word@.len())[k as int] != word@[k as int]);
            return false;
        }
        k = k + 1;
    }
    assert(s@.subrange(i as int, i + word@.len()) =~= word@);
    true
}

/// The numeral covering `i..e` of `text`, converted to a double.
fn numeral_exec(text: &str, i: usize, e: usize) -> (r: Option<(TokenKind, usize)>)
    requires
        i <= e <= text@.len(),
    ensures
        r is None <==> numeral(text@, i as int, e as int) is None,
        r matches Some((k, end)) ==> numeral(text@, i as int, e as int) == Some((k, end as int)),
{
    match Number::from_decimal(text.substring_char(i, e)) {
        Some(n) => Some((TokenKind::Number(n.bits), e)),
        None => None,
    }
}

fn symbol_at_exec(s: &Vec<char>, i: usize) -> (r: Option<(TokenKind, usize)>)
    requires
        i < s.len(),
    ensures
        r is None <==> symbol_at(s@, i as int) is None,
        r matches Some((k, e)) ==> symbol_at(s@, i as int) == Some((k, e as int)),
{
    let c = s[i];
    let next = if i + 1 < s.len() { s[i + 1] } else { ' ' };
    if c == '&' && next == '&' {
        Some((TokenKind::Op(Op::Logical(LogicalOp::And)), i + 2))
    } else if c == '|' && next == '|' {
        Some((TokenKind::Op(Op::Logical(LogicalOp::Or)), i + 2))
    } else if c == '=' && next == '=' {
        Some((TokenKind::Op(Op::Equality(EqualityOp::Eq)), i + 2))
    } else if c == '!' && next == '=' {
        Some((TokenKind::Op(Op::Equality(EqualityOp::Neq)), i + 2))
    } else if c == '>' && next == '=' {
        Some((TokenKind::Op(Op::Relational(RelationalOp::Gte)), i + 2))
    } else if c == '<' && next == '=' {
        Some((TokenKind::Op(Op::Relational(RelationalOp::Lte)), i + 2))
    } else if c == '>' {
        Some((TokenKind::Op(Op::Relational(RelationalOp::Gt)), i + 1))
    } else if c == '<' {
        Some((TokenKind::Op(Op::Relational(RelationalOp::Lt)), i + 1))
    } else if c == '+' {
        Some((TokenKind::Op(Op::Additive(AdditiveOp::Add)), i + 1))
    } else if c == '-' {
        Some((TokenKind::Op(Op::Additive(AdditiveOp::Sub)), i + 1))
    } else if c == '*' {
        Some((TokenKind::Op(Op::Multiplicative(MultiplicativeOp::Mul)), i + 1))
    } else if c == '/' {
        Some((TokenKind::Op(Op::Multiplicative(MultiplicativeOp::Div)), i + 1))
    } else if c == '%' {
        Some((TokenKind::Op(Op::Multiplicative(MultiplicativeOp::Mod)), i + 1))
    } else if c == '(' {
        Some((TokenKind::LParen, i + 1))
    } else if c == ')' {
        Some((TokenKind::RParen, i + 1))
    } else if c == '[' {
        Some((TokenKind::LBracket, i + 1))
    } else if c == ']' {
        Some((TokenKind::RBracket, i + 1))
    } else if c == ',' {
        Some((TokenKind::Comma, i + 1))
    } else {
        None
    }
}

/// The longest token that starts at position `i` of `text`, as `scan_token`
/// states it.
fn scan_token_exec(s: &Vec<char>, text: &str, i: usize) -> (r: Option<(TokenKind, usize)>)
    requires
        s@ == text@,
        i < s.len(),
    ensures
        r is None <==> scan_token(s@, i as int) is None,
        r matches Some((k, e)) ==> scan_token(s@, i as int) == Some((k, e as int)),
{
    let c = s[i];
    if c == '{' {
        if i + 1 < s.len() && is_name_start_char(s[i + 1]) {
            let e = name_end_exec(s, i + 2);
            if e < s.len() && s[e] == '}' {
                Some((TokenKind::Identifier, e + 1))
            } else {
                None
            }
        } else {
            None
        }
    } else if is_digit_char(c) {
        let e = digits_end_exec(s, i + 1);
        if e < s.len() && e + 1 < s.len() && s[e] == '.' && is_digit_char(s[e + 1]) {
            let f = digits_end_exec(s, e + 2);
            numeral_exec(text, i, f)
        } else {
            numeral_exec(text, i, e)
        }
    } else if c == '\'' {
        let e = quote_end_exec(s, i + 1);
        if e < s.len() {
            Some((TokenKind::Str, e + 1))
        } else {
            None
        }
    } else if stands_at_exec(s, i, &['t', 'r', 'u', 'e']) {
        Some((TokenKind::True, i + 4))
    } else if stands_at_exec(s, i, &['f', 'a', 'l', 's', 'e']) {
        Some((TokenKind::False, i + 5))
    } else if stands_at_exec(s, i, &['i', 'n']) {
        Some((TokenKind::Op(Op::Equality(EqualityOp::In)), i + 2))
    } else {
        symbol_at_exec(s, i)
    }
}

/// The tokens of `text`, or the first character position that starts no token.
pub fn tokenize(text: &str) -> (r: Result<Vec<Token>, usize>)
    ensures
        match lex(text@) {
            Ok(toks) => r matches Ok(v) && v@ == toks,
            Err(p) => r matches Err(q) && q as int == p,
        },
{
    let s = chars_of(text);
    let mut toks: Vec<Token> = Vec::new();
    let mut i: usize = 0;
    loop
        invariant
            s@ == text@,
            i <= s@.len(),
            lex(text@) == match lex_from(s@, i as int) {
                Ok(rest) => Ok(toks@ + rest),
                Err(p) => Err(p),
            },
        decreases s@.len() - i,
    {
        let j = skip_spaces_exec(&s, i);
        if j >= s.len() {
            assert(toks@ + Seq::<Token>::empty() =~= toks@);
            return Ok(toks);
        }
        match scan_token_exec(&s, text, j) {
            None => {
                return Err(j);
            },
            Some((kind, e)) => {
                if !(j < e && e <= s.len()) {
                    return Err(j);
                }
                proof {
                    lemma_scan_token_bounds(s@, j as int);
                    let tok = Token { kind, start: j, end: e };
                    assert(lex_from(s@, i as int) == match lex_from(s@, e as int) {
                        Ok(rest) => Ok(seq![tok] + rest),
                        Err(p) => Err(p),
                    });
                    match lex_from(s@, e as int) {
                        Ok(rest) => {
                            assert(toks@.push(tok) + rest =~= toks@ + (seq![tok] + rest));
                        },
                        Err(_) => {},
                    }
                }
                toks.push(Token { kind, start: j, end: e });
                i = e;
            },
        }
    }
}

} // verus!
