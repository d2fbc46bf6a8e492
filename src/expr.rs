//! The expression tree.
use vstd::prelude::*;
use crate::op::Op;
use crate::value::{Value, ValueModel, model_eq};

verus! {

/// An expression: a reference to a named parameter, a literal, or a binary
/// operator applied to two subexpressions that the node owns.
#[derive(Debug)]
pub enum Expr {
    Identifier(String),
    Value(Value),
    Op(Box<Expr>, Op, Box<Expr>),
}

/// The mathematical content of an `Expr`.
pub enum ExprModel {
    Identifier(Seq<char>),
    Value(ValueModel),
    Op(Box<ExprModel>, Op, Box<ExprModel>),
}

impl Expr {
    pub open spec fn model(self) -> ExprModel
        decreases self,
    {
        match self {
            Expr::Identifier(name) => ExprModel::Identifier(name@),
            Expr::Value(v) => ExprModel::Value(v.model()),
            Expr::Op(l, op, r) => ExprModel::Op(Box::new(l.model()), op, Box::new(r.model())),
        }
    }

    /// A copy of this expression, node by node.
    pub fn duplicate(&self) -> (r: Expr)
        ensures
            r.model() == self.model(),
        decreases self,
    {
        match self {
            Expr::Identifier(name) => Expr::Identifier(name.clone()),
            Expr::Value(v) => Expr::Value(v.duplicate()),
            Expr::Op(l, op, r) => {
                let l2 = l.duplicate();
                let r2 = r.duplicate();
                Expr::Op(Box::new(l2), *op, Box::new(r2))
            },
        }
    }

    /// Structural equality; literal numbers compare as IEEE doubles.
    pub fn equals(&self, other: &Expr) -> (r: bool)
        ensures
            r == expr_model_eq(self.model(), other.model()),
        decreases self,
    {
        match self {
            Expr::Identifier(x) => match other {
                Expr::Identifier(y) => x.eq(y),
                _ => false,
            },
            Expr::Value(x) => match other {
                Expr::Value(y) => x.equals(y),
                _ => false,
            },
            Expr::Op(l1, op1, r1) => match other {
                Expr::Op(l2, op2, r2) => *op1 == *op2 && l1.equals(l2) && r1.equals(r2),
                _ => false,
            },
        }
    }
}

/// Structural equality of expression trees, with `model_eq` on literals.
pub open spec fn expr_model_eq(a: ExprModel, b: ExprModel) -> bool
    decreases a,
{
    match (a, b) {
        (ExprModel::Identifier(x), ExprModel::Identifier(y)) => x == y,
        (ExprModel::Value(x), ExprModel::Value(y)) => model_eq(x, y),
        (ExprModel::Op(l1, op1, r1), ExprModel::Op(l2, op2, r2)) => {
            &&& op1 == op2
            &&& expr_model_eq(*l1, *l2)
            &&& expr_model_eq(*r1, *r2)
        },
        _ => false,
    }
}

impl Clone for Expr {
    fn clone(&self) -> (r: Expr)
        ensures
            r.model() == self.model(),
    {
        self.duplicate()
    }
}

impl PartialEq for Expr {
    fn eq(&self, other: &Expr) -> (r: bool) {
        self.equals(other)
    }
}

impl vstd::std_specs::cmp::PartialEqSpecImpl for Expr {
    open spec fn obeys_eq_spec() -> bool {
        true
    }

    open spec fn eq_spec(&self, other: &Expr) -> bool {
        expr_model_eq(self.model(), other.model())
    }
}

} // verus!
