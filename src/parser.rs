//! The textual grammar: a precedence-climbing parser over the tokens of
//! `lexer`.
//!
//! Levels, loosest first, each folding left to right:
//!
//! ```text
//! Expr           := Expr LogicalOp RelationalExpr | RelationalExpr
//! RelationalExpr := RelationalExpr (EqualityOp | RelationalOp) AdditiveExpr | AdditiveExpr
//! AdditiveExpr   := AdditiveExpr AdditiveOp MultiplicativeExpr | MultiplicativeExpr
//! MultiplicativeExpr := MultiplicativeExpr MultiplicativeOp Term | Term
//! Term           := Value | Array | Identifier | "(" Expr ")"
//! Array          := "[" (Value ",")* Value? "]"
//! ```
//!
//! Nesting depth is not limited: parsing recurses once per parenthesis.
use vstd::prelude::*;
use crate::expr::{Expr, ExprModel};
use crate::lexer::{Token, TokenKind, lex, tokenize, token_fits, lemma_lex_from_fits};
use crate::number::Number;
use crate::op::Op;
use crate::text::{decimal_digits, decimal_string, parse_parameter_name, strip_ends};
use crate::value::{Value, ValueModel, models_of, lemma_models_of};
use vstd::string::*;

verus! {

/// Why parsing failed.
#[derive(Debug, PartialEq)]
pub enum ParserError {
    /// The text does not follow the grammar; the message says where.
    InvalidExpr(String),
    /// A JSON leaf of a kind the language has no value for.
    InvalidValue(String),
    /// A JSON `op` that is not an operator symbol.
    InvalidOp(String),
    /// A JSON rule lacks one of the keys `lhs`, `op`, `rhs`.
    MissingValue(&'static str),
}

/// The mathematical content of a `ParserError`.
pub enum ParserErrorModel {
    InvalidExpr(Seq<char>),
    InvalidValue(Seq<char>),
    InvalidOp(Seq<char>),
    MissingValue(Seq<char>),
}

impl ParserError {
    pub open spec fn model(self) -> ParserErrorModel {
        match self {
            ParserError::InvalidExpr(m) => ParserErrorModel::InvalidExpr(m@),
            ParserError::InvalidValue(m) => ParserErrorModel::InvalidValue(m@),
            ParserError::InvalidOp(m) => ParserErrorModel::InvalidOp(m@),
            ParserError::MissingValue(m) => ParserErrorModel::MissingValue(m@),
        }
    }
}

/// The level at which an operator binds: 0 for logical operators (loosest),
/// 1 for equality and relational ones, 2 for additive, 3 for multiplicative.
pub open spec fn op_level(op: Op) -> int {
    match op {
        Op::Logical(_) => 0,
        Op::Equality(_) => 1,
        Op::Relational(_) => 1,
        Op::Additive(_) => 2,
        Op::Multiplicative(_) => 3,
    }
}

/// The value that a literal token writes.
pub open spec fn literal_of(text: Seq<char>, tok: Token) -> Option<ValueModel> {
    match tok.kind {
        TokenKind::Number(bits) => Some(ValueModel::Number(bits)),
        TokenKind::Str => Some(ValueModel::Str(strip_ends(text.subrange(tok.start as int, tok.end as int)))),
        TokenKind::True => Some(ValueModel::Bool(true)),
        TokenKind::False => Some(ValueModel::Bool(false)),
        _ => None,
    }
}

/// The rest of an array literal from token `i` on, `acc` holding the
/// elements read so far: the array and the position after its `]`, or the
/// index of the first token that does not fit.
pub open spec fn parse_array(text: Seq<char>, t: Seq<Token>, i: int, acc: Seq<ValueModel>) -> Result<(ExprModel, int), int>
    decreases t.len() - i,
{
    if !(0 <= i < t.len()) {
        Err(i)
    } else if t[i].kind is RBracket {
        Ok((ExprModel::Value(ValueModel::Array(acc)), i + 1))
    } else {
        match literal_of(text, t[i]) {
            None => Err(i),
            Some(v) => if i + 1 < t.len() && t[i + 1].kind is Comma {
                parse_array(text, t, i + 2, acc.push(v))
            } else if i + 1 < t.len() && t[i + 1].kind is RBracket {
                Ok((ExprModel::Value(ValueModel::Array(acc.push(v))), i + 2))
            } else {
                Err(i + 1)
            },
        }
    }
}

/// A term at token `i` and the position after it, or the index of the first
/// token that does not fit.
pub open spec fn parse_term(text: Seq<char>, t: Seq<Token>, i: int) -> Result<(ExprModel, int), int>
    decreases t.len() - i, 0int,
{
    if !(0 <= i < t.len()) {
        Err(i)
    } else {
        let tok = t[i];
        match tok.kind {
            TokenKind::Identifier => Ok((
                ExprModel::Identifier(strip_ends(text.subrange(tok.start as int, tok.end as int))),
                i + 1,
            )),
            TokenKind::LBracket => parse_array(text, t, i + 1, Seq::empty()),
            TokenKind::LParen => match parse_level(text, t, i + 1, 0) {
                Ok((e, j)) => if i + 1 < j < t.len() && t[j].kind is RParen {
                    Ok((e, j + 1))
                } else if j <= t.len() {
                    Err(j)
                } else {
                    Err(t.len() as int)
                },
                Err(k) => Err(k),
            },
            _ => match literal_of(text, tok) {
                Some(v) => Ok((ExprModel::Value(v), i + 1)),
                None => Err(i),
            },
        }
    }
}

/// An expression of binding level `level` (4: a term) at token `i` and the
/// position after it, or the index of the first token that does not fit.
pub open spec fn parse_level(text: Seq<char>, t: Seq<Token>, i: int, level: int) -> Result<(ExprModel, int), int>
    decreases t.len() - i, if level < 4 { 5 - level } else { 1 },
{
    if level >= 4 {
        parse_term(text, t, i)
    } else {
        match parse_level(text, t, i, level + 1) {
            Err(k) => Err(k),
            Ok((lhs, j)) => if i < j <= t.len() {
                fold_level(text, t, j, level, lhs)
            } else {
                Err(i)
            },
        }
    }
}

/// Operators of `level` and their right operands from token `i` on, folded
/// onto `acc` from the left; or the index of the first token that does not
/// fit.
pub open spec fn fold_level(text: Seq<char>, t: Seq<Token>, i: int, level: int, acc: ExprModel) -> Result<(ExprModel, int), int>
    decreases t.len() - i, 0int,
{
    if 0 <= i < t.len() && t[i].kind is Op && op_level(t[i].kind->Op_0) == level && level < 4 {
        match parse_level(text, t, i + 1, level + 1) {
            Err(k) => Err(k),
            Ok((rhs, j)) => if i + 1 < j <= t.len() {
                fold_level(text, t, j, level, ExprModel::Op(Box::new(acc), t[i].kind->Op_0, Box::new(rhs)))
            } else {
                Err(i + 1)
            },
        }
    } else {
        Ok((acc, i))
    }
}

/// A successful parse: the expression and the position after it.
pub open spec fn parsed(e: ExprModel, j: int) -> Result<(ExprModel, int), int> {
    Ok((e, j))
}

/// A failed parse: the index of the first token that does not fit.
pub open spec fn failed(k: int) -> Result<(ExprModel, int), int> {
    Err(k)
}

/// The expression of binding level `level` that the whole of `text` writes.
pub open spec fn parse_text(text: Seq<char>, level: int) -> Option<ExprModel> {
    match lex(text) {
        Err(_) => None,
        Ok(t) => match parse_level(text, t, 0, level) {
            Ok((e, j)) => if j == t.len() {
                Some(e)
            } else {
                None
            },
            Err(_) => None,
        },
    }
}

/// The message for token `k` of `t` where the grammar does not allow it:
/// the token's text and its span, or, past the last token, the end of the
/// text.
pub open spec fn unexpected_message(text: Seq<char>, t: Seq<Token>, k: int) -> Seq<char> {
    if 0 <= k < t.len() {
        "Unrecognized token `"@ + text.subrange(t[k].start as int, t[k].end as int) + "` found at "@
            + decimal_digits(t[k].start as nat) + ":"@ + decimal_digits(t[k].end as nat)
    } else {
        "Unrecognized EOF found at "@ + decimal_digits(text.len())
    }
}

/// The message of the error for a `text` that does not parse at `level`:
/// the first position that holds no token, or else the first token that the
/// grammar does not allow where it stands (past the last token: the end).
pub open spec fn syntax_error_message(text: Seq<char>, level: int) -> Seq<char> {
    match lex(text) {
        Err(p) => invalid_token_message(p as nat),
        Ok(t) => match parse_level(text, t, 0, level) {
            Ok((_, j)) => unexpected_message(text, t, if j < t.len() { j } else { t.len() as int }),
            Err(k) => unexpected_message(text, t, k),
        },
    }
}

/// The message for text that holds no token at character position `p`.
pub open spec fn invalid_token_message(p: nat) -> Seq<char> {
    "Invalid token at "@ + decimal_digits(p)
}

/// Every token lies within the text.
pub open spec fn tokens_fit(text: Seq<char>, t: Seq<Token>) -> bool {
    forall|k: int| 0 <= k < t.len() ==> token_fits(text, #[trigger] t[k])
}

/// The value that the literal token `tok` writes, as `literal_of` states it.
fn literal_exec(text: &str, tok: Token) -> (r: Option<Value>)
    requires
        token_fits(text@, tok),
    ensures
        r is None <==> literal_of(text@, tok) is None,
        r matches Some(v) ==> literal_of(text@, tok) == Some(v.model()),
{
    match tok.kind {
        TokenKind::Number(bits) => Some(Value::Number(Number::from_bits(bits))),
        TokenKind::Str => {
            let quoted = text.substring_char(tok.start, tok.end);
            Some(Value::String(parse_parameter_name(quoted)))
        },
        TokenKind::True => Some(Value::Bool(true)),
        TokenKind::False => Some(Value::Bool(false)),
        _ => None,
    }
}

/// The rest of an array literal from token `i` on, as `parse_array` states
/// it; on failure, the index of the offending token.
fn parse_array_exec(text: &str, t: &Vec<Token>, start: usize) -> (r: Result<(Expr, usize), usize>)
    requires
        tokens_fit(text@, t@),
        start <= t.len(),
    ensures
        match r {
            Ok((e, j)) => parse_array(text@, t@, start as int, Seq::empty()) == parsed(e.model(), j as int),
            Err(k) => parse_array(text@, t@, start as int, Seq::empty()) == failed(k as int) && k <= t.len(),
        },
{
    let mut acc: Vec<Value> = Vec::new();
    let mut i = start;
    proof {
        lemma_models_of(acc@);
        assert(models_of(acc@) =~= Seq::<ValueModel>::empty());
    }
    loop
        invariant
            tokens_fit(text@, t@),
            i <= t.len(),
            parse_array(text@, t@, start as int, Seq::empty()) == parse_array(text@, t@, i as int, models_of(acc@)),
        decreases t.len() - i,
    {
        if i >= t.len() {
            return Err(i);
        }
        if t[i].kind == TokenKind::RBracket {
            return Ok((Expr::Value(Value::Array(acc)), i + 1));
        }
        match literal_exec(text, t[i]) {
            None => {
                return Err(i);
            },
            Some(v) => {
                proof {
                    lemma_models_of(acc@);
                    lemma_models_of(acc@.push(v));
                    assert(models_of(acc@.push(v)) =~= models_of(acc@).push(v.model()));
                }
                if i + 1 < t.len() && t[i + 1].kind == TokenKind::Comma {
                    acc.push(v);
                    i = i + 2;
                } else if i + 1 < t.len() && t[i + 1].kind == TokenKind::RBracket {
                    acc.push(v);
                    return Ok((Expr::Value(Value::Array(acc)), i + 2));
                } else {
                    return Err(i + 1);
                }
            },
        }
    }
}

/// A term at token `i`, as `parse_term` states it; on failure, the index of
/// the offending token.
fn parse_term_exec(text: &str, t: &Vec<Token>, i: usize) -> (r: Result<(Expr, usize), usize>)
    requires
        tokens_fit(text@, t@),
        i <= t.len(),
    ensures
        match r {
            Ok((e, j)) => parse_term(text@, t@, i as int) == parsed(e.model(), j as int),
            Err(k) => parse_term(text@, t@, i as int) == failed(k as int) && k <= t.len(),
        },
    decreases t.len() - i, 0int,
{
    if i >= t.len() {
        return Err(i);
    }
    let tok = t[i];
    match tok.kind {
        TokenKind::Identifier => {
            let name = parse_parameter_name(text.substring_char(tok.start, tok.end));
            Ok((Expr::Identifier(name), i + 1))
        },
        TokenKind::LBracket => parse_array_exec(text, t, i + 1),
        TokenKind::LParen => match parse_level_exec(text, t, i + 1, 0) {
            Ok((e, j)) => {
                if i + 1 < j && j < t.len() && t[j].kind == TokenKind::RParen {
                    Ok((e, j + 1))
                } else if j <= t.len() {
                    Err(j)
                } else {
                    Err(t.len())
                }
            },
            Err(k) => Err(k),
        },
        _ => match literal_exec(text, tok) {
            Some(v) => Ok((Expr::Value(v), i + 1)),
            None => Err(i),
        },
    }
}

/// The operator of token `tok` if it binds at `level`.
fn op_at_level(tok: Token, level: usize) -> (r: Option<Op>)
    ensures
        r matches Some(op) ==> tok.kind == TokenKind::Op(op) && op_level(op) == level,
        r is None ==> !(tok.kind is Op && op_level(tok.kind->Op_0) == level),
{
    match tok.kind {
        TokenKind::Op(op) => {
            let l: usize = match op {
                Op::Logical(_) => 0,
                Op::Equality(_) => 1,
                Op::Relational(_) => 1,
                Op::Additive(_) => 2,
                Op::Multiplicative(_) => 3,
            };
            if l == level {
                Some(op)
            } else {
                None
            }
        },
        _ => None,
    }
}

/// An expression of binding level `level` at token `i`, as `parse_level`
/// states it; on failure, the index of the offending token.
fn parse_level_exec(text: &str, t: &Vec<Token>, i: usize, level: usize) -> (r: Result<(Expr, usize), usize>)
    requires
        tokens_fit(text@, t@),
        i <= t.len(),
    ensures
        match r {
            Ok((e, j)) => parse_level(text@, t@, i as int, level as int) == parsed(e.model(), j as int),
            Err(k) => parse_level(text@, t@, i as int, level as int) == failed(k as int) && k <= t.len(),
        },
    decreases t.len() - i, if level < 4 { 5 - level } else { 1 },
{
    if level >= 4 {
        return parse_term_exec(text, t, i);
    }
    let (lhs, j) = match parse_level_exec(text, t, i, level + 1) {
        Ok(p) => p,
        Err(k) => {
            return Err(k);
        },
    };
    if !(i < j && j <= t.len()) {
        return Err(i);
    }
    let mut acc = lhs;
    let mut pos = j;
    loop
        invariant
            tokens_fit(text@, t@),
            i < pos <= t.len(),
            level < 4,
            parse_level(text@, t@, i as int, level as int) == fold_level(text@, t@, pos as int, level as int, acc.model()),
        decreases t.len() - pos,
    {
        if pos >= t.len() {
            return Ok((acc, pos));
        }
        match op_at_level(t[pos], level) {
            None => {
                return Ok((acc, pos));
            },
            Some(op) => {
                let (rhs, next) = match parse_level_exec(text, t, pos + 1, level + 1) {
                    Ok(p) => p,
                    Err(k) => {
                        return Err(k);
                    },
                };
                if !(pos + 1 < next && next <= t.len()) {
                    return Err(pos + 1);
                }
                acc = Expr::Op(Box::new(acc), op, Box::new(rhs));
                pos = next;
            },
        }
    }
}

/// The message for a token that the grammar does not allow where it stands,
/// or for text that ends too early (`k` past the last token).
fn unexpected_token_message(text: &str, t: &Vec<Token>, k: usize) -> (r: String)
    requires
        tokens_fit(text@, t@),
        k <= t.len(),
    ensures
        r@ == unexpected_message(text@, t@, k as int),
{
    if k < t.len() {
        let tok = t[k];
        let mut m = "Unrecognized token `".to_string();
        m.append(text.substring_char(tok.start, tok.end));
        m.append("` found at ");
        m.append(decimal_string(tok.start).as_str());
        m.append(":");
        m.append(decimal_string(tok.end).as_str());
        m
    } else {
        let mut m = "Unrecognized EOF found at ".to_string();
        m.append(decimal_string(text.unicode_len()).as_str());
        m
    }
}

/// Parses the whole of `text` as an expression of binding level `level`
/// (0: any expression; 1, 2, 3: one whose loosest operator is relational,
/// additive, multiplicative; 4: a term). Error messages give positions as
/// character indices into `text`.
pub fn parse_at_level(text: &str, level: usize) -> (r: Result<Box<Expr>, ParserError>)
    ensures
        match parse_text(text@, level as int) {
            Some(m) => r matches Ok(e) && e.model() == m,
            None => r matches Err(ParserError::InvalidExpr(msg)) && msg@ == syntax_error_message(text@, level as int),
        },
{
    let t = match tokenize(text) {
        Ok(t) => t,
        Err(p) => {
            let mut m = "Invalid token at ".to_string();
            m.append(decimal_string(p).as_str());
            proof { reveal_strlit("Invalid token at "); }
            return Err(ParserError::InvalidExpr(m));
        },
    };
    proof {
        lemma_lex_from_fits(text@, 0);
    }
    match parse_level_exec(text, &t, 0, level) {
        Ok((e, j)) => {
            if j == t.len() {
                Ok(Box::new(e))
            } else if j < t.len() {
                Err(ParserError::InvalidExpr(unexpected_token_message(text, &t, j)))
            } else {
                Err(ParserError::InvalidExpr(unexpected_token_message(text, &t, t.len())))
            }
        },
        Err(k) => Err(ParserError::InvalidExpr(unexpected_token_message(text, &t, k))),
    }
}

/// Parses an expression from its textual form, e.g. `{a} + 2 * 3`.
pub fn parse_expr_from_str(expr_str: &str) -> (r: Result<Box<Expr>, ParserError>)
    ensures
        match parse_text(expr_str@, 0) {
            Some(m) => r matches Ok(e) && e.model() == m,
            None => r matches Err(ParserError::InvalidExpr(msg)) && msg@ == syntax_error_message(expr_str@, 0),
        },
{
    parse_at_level(expr_str, 0)
}

/// Parses an expression from its textual form; the same as
/// `parse_expr_from_str`.
pub fn parse_expr(expr_str: &str) -> (r: Result<Box<Expr>, ParserError>)
    ensures
        match parse_text(expr_str@, 0) {
            Some(m) => r matches Ok(e) && e.model() == m,
            None => r matches Err(ParserError::InvalidExpr(msg)) && msg@ == syntax_error_message(expr_str@, 0),
        },
{
    parse_at_level(expr_str, 0)
}

/// A parser for whole expressions (`Expr` in the grammar).
pub struct ExprParser {
    level: usize,
}

/// A parser for expressions whose loosest operator is at most an equality or
/// relational one (`RelationalExpr`).
pub struct RelationalExprParser {
    level: usize,
}

/// A parser for expressions whose loosest operator is at most additive
/// (`AdditiveExpr`).
pub struct AdditiveExprParser {
    level: usize,
}

/// A parser for expressions whose loosest operator is at most
/// multiplicative (`MultiplicativeExpr`).
pub struct MultiplicativeExprParser {
    level: usize,
}

impl ExprParser {
    pub closed spec fn spec_level(&self) -> int {
        self.level as int
    }

    pub fn new() -> (r: ExprParser)
        ensures
            r.spec_level() == 0,
    {
        ExprParser { level: 0 }
    }

    pub fn parse(&self, input: &str) -> (r: Result<Box<Expr>, ParserError>)
        ensures
            match parse_text(input@, self.spec_level()) {
                Some(m) => r matches Ok(e) && e.model() == m,
                None => r matches Err(ParserError::InvalidExpr(msg)) && msg@ == syntax_error_message(input@, self.spec_level()),
            },
    {
        parse_at_level(input, self.level)
    }
}

impl RelationalExprParser {
    pub closed spec fn spec_level(&self) -> int {
        self.level as int
    }

    pub fn new() -> (r: RelationalExprParser)
        ensures
            r.spec_level() == 1,
    {
        RelationalExprParser { level: 1 }
    }

    pub fn parse(&self, input: &str) -> (r: Result<Box<Expr>, ParserError>)
        ensures
            match parse_text(input@, self.spec_level()) {
                Some(m) => r matches Ok(e) && e.model() == m,
                None => r matches Err(ParserError::InvalidExpr(msg)) && msg@ == syntax_error_message(input@, self.spec_level()),
            },
    {
        parse_at_level(input, self.level)
    }
}

impl AdditiveExprParser {
    pub closed spec fn spec_level(&self) -> int {
        self.level as int
    }

    pub fn new() -> (r: AdditiveExprParser)
        ensures
            r.spec_level() == 2,
    {
        AdditiveExprParser { level: 2 }
    }

    pub fn parse(&self, input: &str) -> (r: Result<Box<Expr>, ParserError>)
        ensures
            match parse_text(input@, self.spec_level()) {
                Some(m) => r matches Ok(e) && e.model() == m,
                None => r matches Err(ParserError::InvalidExpr(msg)) && msg@ == syntax_error_message(input@, self.spec_level()),
            },
    {
        parse_at_level(input, self.level)
    }
}

impl MultiplicativeExprParser {
    pub closed spec fn spec_level(&self) -> int {
        self.level as int
    }

    pub fn new() -> (r: MultiplicativeExprParser)
        ensures
            r.spec_level() == 3,
    {
        MultiplicativeExprParser { level: 3 }
    }

    pub fn parse(&self, input: &str) -> (r: Result<Box<Expr>, ParserError>)
        ensures
            match parse_text(input@, self.spec_level()) {
                Some(m) => r matches Ok(e) && e.model() == m,
                None => r matches Err(ParserError::InvalidExpr(msg)) && msg@ == syntax_error_message(input@, self.spec_level()),
            },
    {
        parse_at_level(input, self.level)
    }
}

} // verus!
