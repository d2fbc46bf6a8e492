//! Evaluation of an expression tree against a parameter binding.
//!
//! Both operands of every operator are evaluated, left first, before the
//! operator is applied: there is no short-circuit, so an error on the right
//! of `&&` or `||` is reported even where the left side decides the result.
//! Evaluation recurses once per tree level; depth is not limited beyond what
//! parsing produced.
use vstd::prelude::*;
use crate::expr::{Expr, ExprModel};
use crate::number::{Number, float_eq, float_order, float_sum, float_difference, float_product, float_quotient, float_remainder};
use crate::op::{Op, LogicalOp, EqualityOp, RelationalOp, AdditiveOp, MultiplicativeOp};
use crate::parameters::Parameters;
use crate::value::{Value, ValueModel, model_eq, models_of, lemma_models_of};

verus! {

/// Why evaluation failed.
#[derive(Debug, PartialEq)]
pub enum EvaluatorError {
    /// The expression names a parameter that the binding lacks.
    InvalidParameter(String),
    /// The operator does not accept operands of these kinds.
    InvalidOperation(Value, Op, Value),
}

/// The mathematical content of an `EvaluatorError`.
pub enum EvalErrorModel {
    InvalidParameter(Seq<char>),
    InvalidOperation(ValueModel, Op, ValueModel),
}

impl EvaluatorError {
    pub open spec fn model(self) -> EvalErrorModel {
        match self {
            EvaluatorError::InvalidParameter(name) => EvalErrorModel::InvalidParameter(name@),
            EvaluatorError::InvalidOperation(l, op, r) => EvalErrorModel::InvalidOperation(l.model(), op, r.model()),
        }
    }
}

/// The mathematical content of an evaluation result.
pub open spec fn result_model(r: Result<Value, EvaluatorError>) -> Result<ValueModel, EvalErrorModel> {
    match r {
        Ok(v) => Ok(v.model()),
        Err(e) => Err(e.model()),
    }
}

/// `false` orders before `true`.
pub open spec fn bool_rank(b: bool) -> int {
    if b { 1 } else { 0 }
}

/// Whether `x` is a boolean, a number or a string.
pub open spec fn is_scalar(x: ValueModel) -> bool {
    x is Bool || x is Number || x is Str
}

/// The result of applying `op` to the values `l` and `r`; any combination
/// of kinds that the operator does not accept fails with `InvalidOperation`.
pub open spec fn apply_op(l: ValueModel, op: Op, r: ValueModel) -> Result<ValueModel, EvalErrorModel> {
    let fail = Err(EvalErrorModel::InvalidOperation(l, op, r));
    match op {
        Op::Logical(o) => match (l, r) {
            (ValueModel::Bool(a), ValueModel::Bool(b)) => Ok(ValueModel::Bool(
                match o {
                    LogicalOp::And => a && b,
                    LogicalOp::Or => a || b,
                },
            )),
            _ => fail,
        },
        Op::Equality(EqualityOp::In) => match r {
            ValueModel::Array(items) => if is_scalar(l) {
                Ok(ValueModel::Bool(exists|i: int| 0 <= i < items.len() && model_eq(l, #[trigger] items[i])))
            } else {
                fail
            },
            _ => fail,
        },
        Op::Equality(o) => {
            let same = match (l, r) {
                (ValueModel::Bool(a), ValueModel::Bool(b)) => Some(a == b),
                (ValueModel::Number(a), ValueModel::Number(b)) => Some(float_eq(a, b)),
                (ValueModel::Str(a), ValueModel::Str(b)) => Some(a == b),
                _ => None,
            };
            match same {
                Some(eq) => Ok(ValueModel::Bool(if o is Eq { eq } else { !eq })),
                None => fail,
            }
        },
        Op::Relational(o) => {
            let order = match (l, r) {
                (ValueModel::Bool(a), ValueModel::Bool(b)) => Some(
                    if bool_rank(a) < bool_rank(b) {
                        Some(std::cmp::Ordering::Less)
                    } else if bool_rank(a) == bool_rank(b) {
                        Some(std::cmp::Ordering::Equal)
                    } else {
                        Some(std::cmp::Ordering::Greater)
                    },
                ),
                (ValueModel::Number(a), ValueModel::Number(b)) => Some(float_order(a, b)),
                _ => None,
            };
            match order {
                Some(ord) => Ok(ValueModel::Bool(
                    match o {
                        RelationalOp::Gt => ord == Some(std::cmp::Ordering::Greater),
                        RelationalOp::Lt => ord == Some(std::cmp::Ordering::Less),
                        RelationalOp::Gte => ord == Some(std::cmp::Ordering::Greater) || ord == Some(
                            std::cmp::Ordering::Equal,
                        ),
                        RelationalOp::Lte => ord == Some(std::cmp::Ordering::Less) || ord == Some(
                            std::cmp::Ordering::Equal,
                        ),
                    },
                )),
                None => fail,
            }
        },
        Op::Additive(o) => match (l, r) {
            (ValueModel::Number(a), ValueModel::Number(b)) => Ok(ValueModel::Number(
                match o {
                    AdditiveOp::Add => float_sum(a, b),
                    AdditiveOp::Sub => float_difference(a, b),
                },
            )),
            _ => fail,
        },
        Op::Multiplicative(o) => match (l, r) {
            (ValueModel::Number(a), ValueModel::Number(b)) => Ok(ValueModel::Number(
                match o {
                    MultiplicativeOp::Mul => float_product(a, b),
                    MultiplicativeOp::Div => float_quotient(a, b),
                    MultiplicativeOp::Mod => float_remainder(a, b),
                },
            )),
            _ => fail,
        },
    }
}

/// The value of expression `e` under the binding `params`: a parameter's
/// bound value, a literal itself, or the operator applied to both operands'
/// values, the left one's error first.
pub open spec fn eval(e: ExprModel, params: Map<Seq<char>, ValueModel>) -> Result<ValueModel, EvalErrorModel>
    decreases e,
{
    match e {
        ExprModel::Identifier(name) => if params.contains_key(name) {
            Ok(params[name])
        } else {
            Err(EvalErrorModel::InvalidParameter(name))
        },
        ExprModel::Value(v) => Ok(v),
        ExprModel::Op(l, op, r) => match eval(*l, params) {
            Err(err) => Err(err),
            Ok(lv) => match eval(*r, params) {
                Err(err) => Err(err),
                Ok(rv) => apply_op(lv, op, rv),
            },
        },
    }
}

fn invalid_operation(lhs: &Value, op: Op, rhs: &Value) -> (r: Result<Value, EvaluatorError>)
    ensures
        result_model(r) == Err::<ValueModel, EvalErrorModel>(EvalErrorModel::InvalidOperation(lhs.model(), op, rhs.model())),
{
    Err(EvaluatorError::InvalidOperation(lhs.duplicate(), op, rhs.duplicate()))
}

/// Evaluates `expr` against `parameters`.
pub fn evaluate(expr: &Expr, parameters: &Parameters) -> (r: Result<Value, EvaluatorError>)
    requires
        parameters.wf(),
    ensures
        result_model(r) == eval(expr.model(), parameters.view()),
    decreases expr,
{
    match expr {
        Expr::Identifier(name) => match parameters.get(name.as_str()) {
            Some(v) => Ok(v.duplicate()),
            None => Err(EvaluatorError::InvalidParameter(name.clone())),
        },
        Expr::Op(lhs, op, rhs) => {
            let lr = match evaluate(lhs, parameters) {
                Ok(v) => v,
                Err(e) => {
                    return Err(e);
                },
            };
            let rr = match evaluate(rhs, parameters) {
                Ok(v) => v,
                Err(e) => {
                    return Err(e);
                },
            };
            evaluate_op(&lr, *op, &rr)
        },
        Expr::Value(v) => Ok(v.duplicate()),
    }
}

/// Applies `op` to two operand values, by the operator's family.
pub fn evaluate_op(lhs: &Value, op: Op, rhs: &Value) -> (r: Result<Value, EvaluatorError>)
    ensures
        result_model(r) == apply_op(lhs.model(), op, rhs.model()),
{
    match op {
        Op::Logical(o) => evaluate_logical_expr(lhs, o, rhs),
        Op::Equality(o) => evaluate_equality_expr(lhs, o, rhs),
        Op::Relational(o) => evaluate_relational_expr(lhs, o, rhs),
        Op::Additive(o) => evaluate_additive_expr(lhs, o, rhs),
        Op::Multiplicative(o) => evaluate_multiplicative_expr(lhs, o, rhs),
    }
}

/// `&&` and `||` on two booleans.
pub fn evaluate_logical_expr(lhs: &Value, op: LogicalOp, rhs: &Value) -> (r: Result<Value, EvaluatorError>)
    ensures
        result_model(r) == apply_op(lhs.model(), Op::Logical(op), rhs.model()),
{
    match (lhs, rhs) {
        (Value::Bool(l), Value::Bool(r)) => match op {
            LogicalOp::And => Ok(Value::Bool(*l && *r)),
            LogicalOp::Or => Ok(Value::Bool(*l || *r)),
        },
        _ => invalid_operation(lhs, Op::Logical(op), rhs),
    }
}

/// Whether some element of `items` equals `x`.
fn array_contains(items: &Vec<Value>, x: &Value) -> (r: bool)
    ensures
        r == exists|i: int| 0 <= i < models_of(items@).len() && model_eq(x.model(), #[trigger] models_of(items@)[i]),
{
    proof {
        lemma_models_of(items@);
    }
    let mut i: usize = 0;
    while i < items.len()
        invariant
            i <= items@.len(),
            models_of(items@).len() == items@.len(),
            forall|k: int| 0 <= k < items@.len() ==> #[trigger] models_of(items@)[k] == items@[k].model(),
            forall|k: int| 0 <= k < i ==> !model_eq(x.model(), #[trigger] models_of(items@)[k]),
        decreases items@.len() - i,
    {
        if x.equals(&items[i]) {
            assert(model_eq(x.model(), models_of(items@)[i as int]));
            return true;
        }
        i = i + 1;
    }
    false
}

/// `==`, `!=` on two values of one scalar kind, and `in` of a scalar in an
/// array.
pub fn evaluate_equality_expr(lhs: &Value, op: EqualityOp, rhs: &Value) -> (r: Result<Value, EvaluatorError>)
    ensures
        result_model(r) == apply_op(lhs.model(), Op::Equality(op), rhs.model()),
{
    match op {
        EqualityOp::In => match rhs {
            Value::Array(items) => match lhs {
                Value::Array(_) => invalid_operation(lhs, Op::Equality(op), rhs),
                _ => {
                    let found = array_contains(items, lhs);
                    let ghost ms = models_of(items@);
                    let ghost l = lhs.model();
                    assert(apply_op(l, Op::Equality(op), ValueModel::Array(ms)) == Ok::<ValueModel, EvalErrorModel>(
                        ValueModel::Bool(exists|i: int| 0 <= i < ms.len() && model_eq(l, #[trigger] ms[i])),
                    ));
                    Ok(Value::Bool(found))
                },
            },
            _ => invalid_operation(lhs, Op::Equality(op), rhs),
        },
        EqualityOp::Eq | EqualityOp::Neq => {
            let same = match (lhs, rhs) {
                (Value::Bool(l), Value::Bool(r)) => Some(*l == *r),
                (Value::Number(l), Value::Number(r)) => Some(l.eq(r)),
                (Value::String(l), Value::String(r)) => Some(l.eq(r)),
                _ => None,
            };
            match same {
                Some(eq) => match op {
                    EqualityOp::Eq => Ok(Value::Bool(eq)),
                    _ => Ok(Value::Bool(!eq)),
                },
                None => invalid_operation(lhs, Op::Equality(op), rhs),
            }
        },
    }
}

/// The order of two booleans, `false` first.
fn compare_bools(a: bool, b: bool) -> (r: std::cmp::Ordering)
    ensures
        r == if bool_rank(a) < bool_rank(b) {
            std::cmp::Ordering::Less
        } else if bool_rank(a) == bool_rank(b) {
            std::cmp::Ordering::Equal
        } else {
            std::cmp::Ordering::Greater
        },
{
    if !a && b {
        std::cmp::Ordering::Less
    } else if a == b {
        std::cmp::Ordering::Equal
    } else {
        std::cmp::Ordering::Greater
    }
}

/// `>`, `<`, `>=`, `<=` on two booleans or two numbers.
pub fn evaluate_relational_expr(lhs: &Value, op: RelationalOp, rhs: &Value) -> (r: Result<Value, EvaluatorError>)
    ensures
        result_model(r) == apply_op(lhs.model(), Op::Relational(op), rhs.model()),
{
    let order = match (lhs, rhs) {
        (Value::Bool(l), Value::Bool(r)) => Some(Some(compare_bools(*l, *r))),
        (Value::Number(l), Value::Number(r)) => Some(l.compare(r)),
        _ => None,
    };
    match order {
        Some(ord) => {
            let b = match op {
                RelationalOp::Gt => matches!(ord, Some(std::cmp::Ordering::Greater)),
                RelationalOp::Lt => matches!(ord, Some(std::cmp::Ordering::Less)),
                RelationalOp::Gte => matches!(ord, Some(std::cmp::Ordering::Greater) | Some(std::cmp::Ordering::Equal)),
                RelationalOp::Lte => matches!(ord, Some(std::cmp::Ordering::Less) | Some(std::cmp::Ordering::Equal)),
            };
            Ok(Value::Bool(b))
        },
        None => invalid_operation(lhs, Op::Relational(op), rhs),
    }
}

/// `+` and `-` on two numbers.
pub fn evaluate_additive_expr(lhs: &Value, op: AdditiveOp, rhs: &Value) -> (r: Result<Value, EvaluatorError>)
    ensures
        result_model(r) == apply_op(lhs.model(), Op::Additive(op), rhs.model()),
{
    match (lhs, rhs) {
        (Value::Number(l), Value::Number(r)) => match op {
            AdditiveOp::Add => Ok(Value::Number(l.add(r))),
            AdditiveOp::Sub => Ok(Value::Number(l.sub(r))),
        },
        _ => invalid_operation(lhs, Op::Additive(op), rhs),
    }
}

/// `*`, `/` and `%` on two numbers.
pub fn evaluate_multiplicative_expr(lhs: &Value, op: MultiplicativeOp, rhs: &Value) -> (r: Result<Value, EvaluatorError>)
    ensures
        result_model(r) == apply_op(lhs.model(), Op::Multiplicative(op), rhs.model()),
{
    match (lhs, rhs) {
        (Value::Number(l), Value::Number(r)) => match op {
            MultiplicativeOp::Mul => Ok(Value::Number(l.mul(r))),
            MultiplicativeOp::Div => Ok(Value::Number(l.div(r))),
            MultiplicativeOp::Mod => Ok(Value::Number(l.rem(r))),
        },
        _ => invalid_operation(lhs, Op::Multiplicative(op), rhs),
    }
}

} // verus!
