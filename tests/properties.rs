use evaluator_rs::{
    evaluate, parse_expr_from_json, parse_expr_from_str, AdditiveOp, EqualityOp, EvaluatorError,
    LogicalOp, Number, Op, Parameters, RelationalOp, Value,
};

fn num(x: f64) -> Value {
    Value::Number(Number::from_bits(x.to_bits()))
}

fn with(name: &str, value: Value) -> Parameters {
    let mut p = Parameters::new();
    p.insert(name.to_string(), value);
    p
}

fn eval_str(text: &str, parameters: &Parameters) -> Result<Value, EvaluatorError> {
    evaluate(&parse_expr_from_str(text).unwrap(), parameters)
}

#[test]
fn sum_of_three_literals() {
    assert_eq!(eval_str("1 + 2 + 3", &Parameters::new()), Ok(num(6.0)));
}

#[test]
fn sum_with_parameter() {
    assert_eq!(eval_str("{a} + 2 + 3", &with("a", num(1.0))), Ok(num(6.0)));
}

#[test]
fn comparison_with_parameter() {
    assert_eq!(eval_str("{a} >= 1", &with("a", num(1.0))), Ok(Value::from(true)));
}

#[test]
fn membership_with_parameter() {
    assert_eq!(eval_str("{a} in [1, 2, 3]", &with("a", num(1.0))), Ok(Value::from(true)));
    assert_eq!(eval_str("{a} in [1, 2 , 3]", &with("a", num(4.0))), Ok(Value::from(false)));
}

#[test]
fn precedence_and_parentheses() {
    assert_eq!(eval_str("1 + 2 * 3", &Parameters::new()), Ok(num(7.0)));
    assert_eq!(eval_str("(1 + 2) * 3", &Parameters::new()), Ok(num(9.0)));
}

#[test]
fn json_membership_with_parameter() {
    let expr = parse_expr_from_json(r#"{"lhs":"{a}","op":"in","rhs":[4,5,6]}"#).unwrap();
    assert_eq!(evaluate(&expr, &with("a", num(4.0))), Ok(Value::from(true)));
}

#[test]
fn number_plus_bool_is_invalid() {
    assert_eq!(
        eval_str("1 + false", &Parameters::new()),
        Err(EvaluatorError::InvalidOperation(num(1.0), Op::Additive(AdditiveOp::Add), Value::from(false)))
    );
}

#[test]
fn missing_parameter_is_invalid() {
    assert_eq!(
        eval_str("{x}", &Parameters::new()),
        Err(EvaluatorError::InvalidParameter("x".to_string()))
    );
}

#[test]
fn evaluation_is_repeatable() {
    let expr = parse_expr_from_str("{a} * 2 > 3 && {b} in ['x', 'y']").unwrap();
    let mut p = with("a", num(2.5));
    p.insert("b".to_string(), Value::from("y"));
    let first = evaluate(&expr, &p);
    let second = evaluate(&expr, &p);
    assert_eq!(first, Ok(Value::from(true)));
    assert_eq!(first, second);
    let err1 = evaluate(&expr, &Parameters::new());
    let err2 = evaluate(&expr, &Parameters::new());
    assert_eq!(err1, Err(EvaluatorError::InvalidParameter("a".to_string())));
    assert_eq!(err1, err2);
}

#[test]
fn text_and_json_give_equal_trees() {
    assert_eq!(
        parse_expr_from_str("1 + 2").unwrap(),
        parse_expr_from_json(r#"{"lhs":1,"op":"+","rhs":2}"#).unwrap()
    );
    let text = parse_expr_from_str("({age} >= 18) && ({country} in ['US', 'CA'])").unwrap();
    let json = parse_expr_from_json(
        r#"{"lhs": {"lhs": "{age}", "op": ">=", "rhs": 18},
            "op": "&&",
            "rhs": {"lhs": "{country}", "op": "in", "rhs": ["US", "CA"]}}"#,
    )
    .unwrap();
    assert_eq!(text, json);
    let mut p = with("age", num(20.0));
    p.insert("country".to_string(), Value::from("CA"));
    assert_eq!(evaluate(&text, &p), evaluate(&json, &p));
    assert_eq!(evaluate(&text, &p), Ok(Value::from(true)));
}

#[test]
fn no_short_circuit() {
    assert_eq!(
        eval_str("false && {missing}", &Parameters::new()),
        Err(EvaluatorError::InvalidParameter("missing".to_string()))
    );
    assert_eq!(
        eval_str("true || {missing}", &Parameters::new()),
        Err(EvaluatorError::InvalidParameter("missing".to_string()))
    );
    assert_eq!(
        eval_str("{left} + {right}", &Parameters::new()),
        Err(EvaluatorError::InvalidParameter("left".to_string()))
    );
}

#[test]
fn invalid_operations_carry_operands() {
    assert_eq!(
        eval_str("'a' < 'b'", &Parameters::new()),
        Err(EvaluatorError::InvalidOperation(
            Value::from("a"),
            Op::Relational(RelationalOp::Lt),
            Value::from("b")
        ))
    );
    assert_eq!(
        eval_str("{xs} in [1]", &with("xs", Value::Array(vec![num(1.0)]))),
        Err(EvaluatorError::InvalidOperation(
            Value::Array(vec![num(1.0)]),
            Op::Equality(EqualityOp::In),
            Value::Array(vec![num(1.0)])
        ))
    );
    assert_eq!(
        eval_str("[1] == [1]", &Parameters::new()),
        Err(EvaluatorError::InvalidOperation(
            Value::Array(vec![num(1.0)]),
            Op::Equality(EqualityOp::Eq),
            Value::Array(vec![num(1.0)])
        ))
    );
    assert_eq!(
        eval_str("true && 'x'", &Parameters::new()),
        Err(EvaluatorError::InvalidOperation(
            Value::from(true),
            Op::Logical(LogicalOp::And),
            Value::from("x")
        ))
    );
}

#[test]
fn float_semantics() {
    assert_eq!(eval_str("0.1 + 0.2", &Parameters::new()), Ok(num(0.1 + 0.2)));
    assert_eq!(eval_str("0.1 + 0.2 == 0.3", &Parameters::new()), Ok(Value::from(false)));
    assert_eq!(eval_str("1 / 0", &Parameters::new()), Ok(num(f64::INFINITY)));
    assert_eq!(eval_str("7 % 2.5", &Parameters::new()), Ok(num(2.0)));
    assert_eq!(eval_str("2 - 3", &Parameters::new()), Ok(num(-1.0)));
}

#[test]
fn membership_rules() {
    assert_eq!(eval_str("'b' in ['a', 1, true, 'b']", &Parameters::new()), Ok(Value::from(true)));
    assert_eq!(eval_str("1 in ['1']", &Parameters::new()), Ok(Value::from(false)));
    assert_eq!(eval_str("false in []", &Parameters::new()), Ok(Value::from(false)));
    let nested = with("xs", Value::Array(vec![Value::Array(vec![num(1.0)]), num(2.0)]));
    assert_eq!(eval_str("2 in {xs}", &nested), Ok(Value::from(true)));
    assert_eq!(eval_str("1 in {xs}", &nested), Ok(Value::from(false)));
}

#[test]
fn parameters_replace_earlier_bindings() {
    let mut p = with("a", num(1.0));
    p.insert("a".to_string(), num(5.0));
    p.insert("b".to_string(), num(2.0));
    assert_eq!(p.get("a"), Some(&num(5.0)));
    assert_eq!(p.get("b"), Some(&num(2.0)));
    assert_eq!(p.get("c"), None);
    assert_eq!(eval_str("{a} - {b}", &p), Ok(num(3.0)));
}

#[test]
fn bracketed_text_matches_json_rule() {
    let json = parse_expr_from_json(
        r#"{"lhs": {"lhs": "{a}", "op": "*", "rhs": 2.5}, "op": "<=", "rhs": {"lhs": 1, "op": "-", "rhs": "{b}"}}"#,
    )
    .unwrap();
    let text = parse_expr_from_str("( ( {a} ) * ( 2.5 ) ) <= ( ( 1 ) - ( {b} ) )").unwrap();
    assert_eq!(text, json);
    let mut p = with("a", num(2.0));
    p.insert("b".to_string(), num(-4.0));
    assert_eq!(evaluate(&text, &p), Ok(Value::from(true)));
}
