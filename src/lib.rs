//! An embeddable predicate and expression language: rules such as
//! `{age} >= 18 && {country} in ['US', 'CA']` are parsed from text or from
//! JSON into an expression tree and evaluated against named parameters.
//!
//! Every function here is verified: its contract states the result over the
//! spec functions of its module (`parse_text`, `expr_of_json`, `eval`).
use vstd::prelude::*;

pub mod number;
pub mod op;
pub mod value;
pub mod expr;
pub mod lexer;
pub mod text;
pub mod parser;
pub mod parameters;
pub mod evaluator;
pub mod json;
pub mod laws;
pub mod concat;

pub use crate::evaluator::{evaluate, EvaluatorError};
pub use crate::expr::Expr;
pub use crate::json::{parse_expr_from_json, parse_expr_from_json_value, JsonValue};
pub use crate::number::Number;
pub use crate::op::{AdditiveOp, EqualityOp, LogicalOp, MultiplicativeOp, Op, RelationalOp};
pub use crate::parameters::Parameters;
pub use crate::parser::{
    parse_expr, parse_expr_from_str, AdditiveExprParser, ExprParser, MultiplicativeExprParser,
    ParserError, RelationalExprParser,
};
pub use crate::text::parse_parameter_name;
pub use crate::value::Value;

verus! {

} // verus!
