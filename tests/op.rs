use evaluator_rs::{AdditiveOp, EqualityOp, LogicalOp, MultiplicativeOp, Op, RelationalOp};

#[test]
fn op_test_display() {
    assert_eq!(Op::Logical(LogicalOp::And).to_string(), "&&");
    assert_eq!(Op::Logical(LogicalOp::Or).to_string(), "||");

    assert_eq!(Op::Multiplicative(MultiplicativeOp::Mul).to_string(), "*");
    assert_eq!(Op::Multiplicative(MultiplicativeOp::Div).to_string(), "/");
    assert_eq!(Op::Multiplicative(MultiplicativeOp::Mod).to_string(), "%");

    assert_eq!(Op::Additive(AdditiveOp::Add).to_string(), "+");
    assert_eq!(Op::Additive(AdditiveOp::Sub).to_string(), "-");

    assert_eq!(Op::Equality(EqualityOp::Eq).to_string(), "==");
    assert_eq!(Op::Equality(EqualityOp::Neq).to_string(), "!=");
    assert_eq!(Op::Equality(EqualityOp::In).to_string(), "in");

    assert_eq!(Op::Relational(RelationalOp::Lt).to_string(), "<");
    assert_eq!(Op::Relational(RelationalOp::Lte).to_string(), "<=");
    assert_eq!(Op::Relational(RelationalOp::Gt).to_string(), ">");
    assert_eq!(Op::Relational(RelationalOp::Gte).to_string(), ">=");
}

#[test]
fn test_convert_op() {
    assert_eq!(Op::Logical(LogicalOp::And), Op::from(LogicalOp::And));
    assert_eq!(Op::Additive(AdditiveOp::Add), Op::from(AdditiveOp::Add));
    assert_eq!(Op::Equality(EqualityOp::Eq), Op::from(EqualityOp::Eq));
    assert_eq!(Op::Relational(RelationalOp::Gt), Op::from(RelationalOp::Gt));
    assert_eq!(
        Op::Multiplicative(MultiplicativeOp::Mul),
        Op::from(MultiplicativeOp::Mul)
    );
}

#[test]
fn op_symbols_of_each_family() {
    assert_eq!(LogicalOp::Or.symbol(), "||");
    assert_eq!(EqualityOp::In.symbol(), "in");
    assert_eq!(RelationalOp::Lte.symbol(), "<=");
    assert_eq!(AdditiveOp::Sub.symbol(), "-");
    assert_eq!(MultiplicativeOp::Mod.symbol(), "%");
}
