//! The JSON surface syntax: a rule is an object `{"lhs": .., "op": .., "rhs": ..}`
//! whose operands are rules again, or leaves: `"{name}"` for a parameter,
//! other strings, numbers, booleans and arrays for literals.
use vstd::prelude::*;
use crate::expr::{Expr, ExprModel};
use crate::lexer::{Token, TokenKind, lex, tokenize, lemma_lex_from_fits};
use crate::number::{Number, float_of_decimal};
use crate::op::Op;
use crate::parser::{ParserError, ParserErrorModel};
use crate::text::{parse_parameter_name, strip_ends, str_eq};
use crate::value::{Value, ValueModel, models_of, lemma_models_of};
use vstd::std_specs::vec::axiom_vec_index_decreases;
use vstd::string::*;
use serde_json::Value as SerdeJsonValue;

verus! {

/// A JSON document, node for node. Numbers keep the numeral that writes
/// them; objects hold their members sorted by key, as `serde_json`'s map
/// holds them (a repeated key keeps its last value).
#[derive(Debug)]
pub enum JsonValue {
    Null,
    Bool(bool),
    Number(String),
    String(String),
    Array(Vec<JsonValue>),
    Object(Vec<(String, JsonValue)>),
}

/// The JSON document that `serde_json` reads from `text`, or its message
/// where the text is not JSON.
pub uninterp spec fn json_document(text: Seq<char>) -> Result<JsonValue, Seq<char>>;

/// Relies on `serde_json::from_str` into a `serde_json::Value`: reads JSON text,
/// or says why it is not JSON (`serde_json::Error`'s `Display`). The tree is
/// copied into `JsonValue` node for node by `json_value_of`.
#[verifier::external_body]
fn read_json(text: &str) -> (r: Result<JsonValue, String>)
    ensures
        r is Ok <==> json_document(text@) is Ok,
        r matches Ok(j) ==> json_document(text@)->Ok_0 == j,
        r matches Err(m) ==> json_document(text@)->Err_0 == m@,
{
    match serde_json::from_str::<SerdeJsonValue>(text) {
        Ok(v) => Ok(json_value_of(v)),
        Err(e) => Err(e.to_string()),
    }
}

#[verifier::external_type_specification]
#[verifier::external_body]
pub struct ExSerdeJsonValue(SerdeJsonValue);

/// Copies a `serde_json::Value` node for node: numbers by their `Display`
/// text (`serde_json::Number`), object members in the map's order. Used by
/// `read_json` alone, whose contract names what the copy stands for.
#[verifier::external_body]
fn json_value_of(v: SerdeJsonValue) -> JsonValue {
    match v {
        SerdeJsonValue::Null => JsonValue::Null,
        SerdeJsonValue::Bool(b) => JsonValue::Bool(b),
        SerdeJsonValue::Number(n) => JsonValue::Number(n.to_string()),
        SerdeJsonValue::String(s) => JsonValue::String(s),
        SerdeJsonValue::Array(a) => JsonValue::Array(a.into_iter().map(json_value_of).collect()),
        SerdeJsonValue::Object(m) => JsonValue::Object(m.into_iter().map(|(k, v)| (k, json_value_of(v))).collect()),
    }
}

/// The compact JSON text that `serde_json` writes for a document.
pub uninterp spec fn json_text(j: JsonValue) -> Seq<char>;

/// Relies on the `Display` of `serde_json::Value`, which writes compact JSON
/// text; the document is copied into a `serde_json::Value` node for node by
/// `serde_value_of`.
#[verifier::external_body]
fn render_json(j: &JsonValue) -> (r: String)
    ensures
        r@ == json_text(*j),
{
    serde_value_of(j).to_string()
}

/// Copies a `JsonValue` into a `serde_json::Value` node for node: numbers
/// read back by `serde_json::Number`'s `FromStr` (a numeral it cannot read
/// becomes `null`), object members in order. Used by `render_json` alone.
#[verifier::external_body]
fn serde_value_of(j: &JsonValue) -> SerdeJsonValue {
    match j {
        JsonValue::Null => SerdeJsonValue::Null,
        JsonValue::Bool(b) => SerdeJsonValue::Bool(*b),
        JsonValue::Number(n) => n.parse::<serde_json::Number>().map_or(SerdeJsonValue::Null, SerdeJsonValue::Number),
        JsonValue::String(s) => SerdeJsonValue::String(s.clone()),
        JsonValue::Array(a) => SerdeJsonValue::Array(a.iter().map(serde_value_of).collect()),
        JsonValue::Object(m) => SerdeJsonValue::Object(m.iter().map(|(k, v)| (k.clone(), serde_value_of(v))).collect()),
    }
}

/// The index of the first member named `key`, searching from `i` on.
pub open spec fn member_index(m: Seq<(String, JsonValue)>, key: Seq<char>, i: int) -> Option<int>
    decreases m.len() - i,
{
    if !(0 <= i < m.len()) {
        None
    } else if m[i].0@ == key {
        Some(i)
    } else {
        member_index(m, key, i + 1)
    }
}

/// The single token that the whole of `s` writes, if it writes exactly one.
pub open spec fn single_token(s: Seq<char>) -> Option<Token> {
    match lex(s) {
        Ok(t) => if t.len() == 1 { Some(t[0]) } else { None },
        Err(_) => None,
    }
}

/// The operator that a JSON `op` string writes, read as by the lexer.
pub open spec fn op_of_text(s: Seq<char>) -> Option<Op> {
    match single_token(s) {
        Some(tok) => match tok.kind {
            TokenKind::Op(op) => Some(op),
            _ => None,
        },
        None => None,
    }
}

/// A literal: numbers, strings, booleans, and arrays of literals.
pub open spec fn value_of_json(j: JsonValue) -> Result<ValueModel, ParserErrorModel>
    decreases j,
{
    match j {
        JsonValue::Bool(b) => Ok(ValueModel::Bool(b)),
        JsonValue::Number(n) => match float_of_decimal(n@) {
            Some(bits) => Ok(ValueModel::Number(bits)),
            None => Err(ParserErrorModel::InvalidValue(n@)),
        },
        JsonValue::String(s) => Ok(ValueModel::Str(s@)),
        JsonValue::Array(a) => match values_of_json(a@) {
            Ok(items) => Ok(ValueModel::Array(items)),
            Err(e) => Err(e),
        },
        _ => Err(ParserErrorModel::InvalidValue(json_text(j))),
    }
}

/// The literals of a sequence of JSON nodes, or the first one's error.
pub open spec fn values_of_json(s: Seq<JsonValue>) -> Result<Seq<ValueModel>, ParserErrorModel>
    decreases s,
{
    if s.len() == 0 {
        Ok(Seq::empty())
    } else {
        match values_of_json(s.drop_last()) {
            Err(e) => Err(e),
            Ok(init) => match value_of_json(s.last()) {
                Err(e) => Err(e),
                Ok(v) => Ok(init.push(v)),
            },
        }
    }
}

/// The expression that a JSON rule writes.
pub open spec fn expr_of_json(j: JsonValue) -> Result<ExprModel, ParserErrorModel>
    decreases j,
{
    match j {
        JsonValue::Object(m) => match member_index(m@, "lhs"@, 0) {
            None => Err(ParserErrorModel::MissingValue("lhs"@)),
            Some(li) => match member_index(m@, "op"@, 0) {
                None => Err(ParserErrorModel::MissingValue("op"@)),
                Some(oi) => match member_index(m@, "rhs"@, 0) {
                    None => Err(ParserErrorModel::MissingValue("rhs"@)),
                    Some(ri) => if 0 <= li < m.len() && 0 <= oi < m.len() && 0 <= ri < m.len() {
                        match m@[oi].1 {
                            JsonValue::String(sym) => match op_of_text(sym@) {
                                None => Err(ParserErrorModel::InvalidOp(sym@)),
                                Some(op) => match expr_of_json(m@[li].1) {
                                    Err(e) => Err(e),
                                    Ok(l) => match expr_of_json(m@[ri].1) {
                                        Err(e) => Err(e),
                                        Ok(r) => Ok(ExprModel::Op(Box::new(l), op, Box::new(r))),
                                    },
                                },
                            },
                            other => Err(ParserErrorModel::InvalidOp(json_text(other))),
                        }
                    } else {
                        Err(ParserErrorModel::MissingValue("rhs"@))
                    },
                },
            },
        },
        JsonValue::String(s) => match single_token(s@) {
            Some(tok) => if tok.kind is Identifier {
                Ok(ExprModel::Identifier(strip_ends(s@.subrange(tok.start as int, tok.end as int))))
            } else {
                Ok(ExprModel::Value(ValueModel::Str(s@)))
            },
            None => Ok(ExprModel::Value(ValueModel::Str(s@))),
        },
        JsonValue::Null => Err(ParserErrorModel::InvalidValue("null"@)),
        _ => match value_of_json(j) {
            Ok(v) => Ok(ExprModel::Value(v)),
            Err(e) => Err(e),
        },
    }
}

/// The error model of an error value, lifted to results.
pub open spec fn expr_result_model(r: Result<Box<Expr>, ParserError>) -> Result<ExprModel, ParserErrorModel> {
    match r {
        Ok(e) => Ok(e.model()),
        Err(e) => Err(e.model()),
    }
}

/// The index of the first member of `m` named `key`.
fn member_exec(m: &Vec<(String, JsonValue)>, key: &str) -> (r: Option<usize>)
    ensures
        r is None <==> member_index(m@, key@, 0) is None,
        r matches Some(i) ==> member_index(m@, key@, 0) == Some(i as int) && i < m@.len(),
{
    let mut i: usize = 0;
    while i < m.len()
        invariant
            i <= m@.len(),
            member_index(m@, key@, 0) == member_index(m@, key@, i as int),
        decreases m@.len() - i,
    {
        if str_eq(m[i].0.as_str(), key) {
            return Some(i);
        }
        i = i + 1;
    }
    None
}

/// The single token that the whole of `s` writes, if it writes exactly one.
fn single_token_exec(s: &str) -> (r: Option<Token>)
    ensures
        r == single_token(s@),
        r matches Some(tok) ==> tok.start < tok.end <= s@.len()
            && ((tok.kind is Identifier || tok.kind is Str) ==> tok.start + 2 <= tok.end),
{
    proof {
        lemma_lex_from_fits(s@, 0);
    }
    match tokenize(s) {
        Ok(t) => if t.len() == 1 {
            Some(t[0])
        } else {
            None
        },
        Err(_) => None,
    }
}

/// The literal that a JSON leaf writes, as `value_of_json` states it.
fn value_of_json_exec(j: &JsonValue) -> (r: Result<Value, ParserError>)
    ensures
        match r {
            Ok(v) => value_of_json(*j) == Ok::<ValueModel, ParserErrorModel>(v.model()),
            Err(e) => value_of_json(*j) == Err::<ValueModel, ParserErrorModel>(e.model()),
        },
    decreases j,
{
    match j {
        JsonValue::Bool(b) => Ok(Value::Bool(*b)),
        JsonValue::Number(n) => match Number::from_decimal(n.as_str()) {
            Some(x) => Ok(Value::Number(x)),
            None => Err(ParserError::InvalidValue(n.clone())),
        },
        JsonValue::String(s) => Ok(Value::String(s.clone())),
        JsonValue::Array(a) => {
            let mut items: Vec<Value> = Vec::new();
            let mut i: usize = 0;
            while i < a.len()
                invariant
                    *j == JsonValue::Array(*a),
                    i <= a@.len(),
                    values_of_json(a@.subrange(0, i as int)) == Ok::<Seq<ValueModel>, ParserErrorModel>(models_of(items@)),
                decreases a@.len() - i,
            {
                proof {
                    axiom_vec_index_decreases(*a, i as int);
                    assert(a@.subrange(0, i + 1).drop_last() =~= a@.subrange(0, i as int));
                }
                match value_of_json_exec(&a[i]) {
                    Ok(v) => {
                        proof {
                            lemma_models_of(items@);
                            lemma_models_of(items@.push(v));
                            assert(models_of(items@.push(v)) =~= models_of(items@).push(v.model()));
                        }
                        items.push(v);
                    },
                    Err(e) => {
                        proof {
                            lemma_values_of_json_prefix_error(a@, i as int + 1);
                        }
                        return Err(e);
                    },
                }
                i = i + 1;
            }
            assert(a@.subrange(0, a@.len() as int) =~= a@);
            Ok(Value::Array(items))
        },
        _ => Err(ParserError::InvalidValue(render_json(j))),
    }
}

/// An error among the first `n` elements is the error of the whole sequence.
proof fn lemma_values_of_json_prefix_error(s: Seq<JsonValue>, n: int)
    requires
        0 <= n <= s.len(),
        values_of_json(s.subrange(0, n)) is Err,
    ensures
        values_of_json(s) == values_of_json(s.subrange(0, n)),
    decreases s.len() - n,
{
    if n < s.len() {
        assert(s.subrange(0, n + 1).drop_last() =~= s.subrange(0, n));
        lemma_values_of_json_prefix_error(s, n + 1);
    } else {
        assert(s.subrange(0, n) =~= s);
    }
}

/// Translates a JSON rule into an expression, as `expr_of_json` states it.
pub fn parse_expr_from_json_value(expr_json: &JsonValue) -> (r: Result<Box<Expr>, ParserError>)
    ensures
        expr_result_model(r) == expr_of_json(*expr_json),
    decreases expr_json,
{
    match expr_json {
        JsonValue::Object(m) => {
            let li = match member_exec(m, "lhs") {
                Some(i) => i,
                None => {
                    return Err(ParserError::MissingValue("lhs"));
                },
            };
            let oi = match member_exec(m, "op") {
                Some(i) => i,
                None => {
                    return Err(ParserError::MissingValue("op"));
                },
            };
            let ri = match member_exec(m, "rhs") {
                Some(i) => i,
                None => {
                    return Err(ParserError::MissingValue("rhs"));
                },
            };
            let op = match &m[oi].1 {
                JsonValue::String(sym) => match single_token_exec(sym.as_str()) {
                    Some(tok) => match tok.kind {
                        TokenKind::Op(op) => op,
                        _ => {
                            return Err(ParserError::InvalidOp(sym.clone()));
                        },
                    },
                    None => {
                        return Err(ParserError::InvalidOp(sym.clone()));
                    },
                },
                other => {
                    return Err(ParserError::InvalidOp(render_json(other)));
                },
            };
            proof {
                axiom_vec_index_decreases(*m, li as int);
                axiom_vec_index_decreases(*m, ri as int);
            }
            let lhs = parse_expr_from_json_value(&m[li].1)?;
            let rhs = parse_expr_from_json_value(&m[ri].1)?;
            Ok(Box::new(Expr::Op(lhs, op, rhs)))
        },
        JsonValue::String(s) => match single_token_exec(s.as_str()) {
            Some(tok) => {
                if tok.kind == TokenKind::Identifier {
                    let name = parse_parameter_name(s.as_str().substring_char(tok.start, tok.end));
                    Ok(Box::new(Expr::Identifier(name)))
                } else {
                    Ok(Box::new(Expr::Value(Value::String(s.clone()))))
                }
            },
            None => Ok(Box::new(Expr::Value(Value::String(s.clone())))),
        },
        JsonValue::Null => Err(ParserError::InvalidValue("null".to_string())),
        _ => match value_of_json_exec(expr_json) {
            Ok(v) => Ok(Box::new(Expr::Value(v))),
            Err(e) => Err(e),
        },
    }
}

/// Parses an expression from its JSON form, e.g.
/// `{"lhs": "{a}", "op": "in", "rhs": [4, 5, 6]}`. Text that is not JSON
/// fails with `InvalidExpr` and `serde_json`'s message.
pub fn parse_expr_from_json(expr_str: &str) -> (r: Result<Box<Expr>, ParserError>)
    ensures
        match json_document(expr_str@) {
            Ok(j) => expr_result_model(r) == expr_of_json(j),
            Err(msg) => expr_result_model(r) == Err::<ExprModel, ParserErrorModel>(ParserErrorModel::InvalidExpr(msg)),
        },
{
    match read_json(expr_str) {
        Ok(j) => parse_expr_from_json_value(&j),
        Err(msg) => Err(ParserError::InvalidExpr(msg)),
    }
}

} // verus!
