use evaluator_rs::{
    evaluate, parse_expr, parse_expr_from_json, parse_expr_from_str, AdditiveOp, EqualityOp,
    EvaluatorError, LogicalOp, MultiplicativeOp, Number, Op, Parameters, RelationalOp, Value,
};

fn num(x: f64) -> Value {
    Value::Number(Number::from_bits(x.to_bits()))
}

fn params(name: &str, value: Value) -> Parameters {
    let mut p = Parameters::new();
    p.insert(name.to_string(), value);
    p
}

struct TestCase<'a> {
    expr: &'a str,
    want: Result<Value, EvaluatorError>,
}

struct TestCaseWithParameters<'a> {
    expr: &'a str,
    parameters: Parameters,
    want: Result<Value, EvaluatorError>,
}

#[test]
fn test_logical_expr() {
    let empty_parameters = Parameters::new();
    let test_cases: Vec<TestCase> = vec![
        TestCase {
            expr: "true && true",
            want: Ok(Value::from(true)),
        },
        TestCase {
            expr: "true && false",
            want: Ok(Value::from(false)),
        },
        TestCase {
            expr: "false && false",
            want: Ok(Value::from(false)),
        },
        TestCase {
            expr: "true || false",
            want: Ok(Value::from(true)),
        },
        TestCase {
            expr: "false || false",
            want: Ok(Value::from(false)),
        },
        TestCase {
            expr: "true || true",
            want: Ok(Value::from(true)),
        },
        TestCase {
            expr: "1 || true",
            want: Err(EvaluatorError::InvalidOperation(
                Value::from(1),
                Op::Logical(LogicalOp::Or),
                Value::from(true),
            )),
        },
        TestCase {
            expr: "1 && true",
            want: Err(EvaluatorError::InvalidOperation(
                Value::from(1),
                Op::Logical(LogicalOp::And),
                Value::from(true),
            )),
        },
    ];
    test_cases.iter().for_each(|case| {
        let expr = parse_expr(case.expr).unwrap();
        let output = evaluate(&expr, &empty_parameters);
        assert_eq!(case.want, output, "expr: {}", case.expr);
    });
}

#[test]
fn test_additive_expr() {
    let empty_parameters = Parameters::new();

    let test_cases: Vec<TestCase> = vec![
        TestCase {
            expr: "10 + 10",
            want: Ok(num(20.0)),
        },
        TestCase {
            expr: "10 - 10",
            want: Ok(num(0.0)),
        },
        TestCase {
            expr: "1.5 + 1.5",
            want: Ok(num(3.0)),
        },
        TestCase {
            expr: "1.5 + 1",
            want: Ok(num(2.5)),
        },
        TestCase {
            expr: "1 + 1.5",
            want: Ok(num(2.5)),
        },
        TestCase {
            expr: "3.5 - 1",
            want: Ok(num(2.5)),
        },
        TestCase {
            expr: "3 - 1.5",
            want: Ok(num(1.5)),
        },
        TestCase {
            expr: "3.5 - 1.5",
            want: Ok(num(2.0)),
        },
        TestCase {
            expr: "1 + false",
            want: Err(EvaluatorError::InvalidOperation(
                Value::from(1),
                Op::Additive(AdditiveOp::Add),
                Value::from(false),
            )),
        },
        TestCase {
            expr: "1 - false",
            want: Err(EvaluatorError::InvalidOperation(
                Value::from(1),
                Op::Additive(AdditiveOp::Sub),
                Value::from(false),
            )),
        },
    ];
    test_cases.iter().for_each(|case| {
        let expr = parse_expr(case.expr).unwrap();
        let output = evaluate(&expr, &empty_parameters);
        assert_eq!(case.want, output, "expr: {}", case.expr);
    });
}

#[test]
fn test_multiplicative_expr() {
    let empty_parameters = Parameters::new();

    let test_cases: Vec<TestCase> = vec![
        TestCase {
            expr: "10 * 10",
            want: Ok(num(100.0)),
        },
        TestCase {
            expr: "10 / 10",
            want: Ok(num(1.0)),
        },
        TestCase {
            expr: "1.1 * 2.0",
            want: Ok(num(2.2)),
        },
        TestCase {
            expr: "1.1 * 2",
            want: Ok(num(2.2)),
        },
        TestCase {
            expr: "2 * 1.1",
            want: Ok(num(2.2)),
        },
        TestCase {
            expr: "10 % 3",
            want: Ok(Value::from(1)),
        },
        TestCase {
            expr: "10 % 2.5",
            want: Ok(Value::from(0)),
        },
        TestCase {
            expr: "1 * true",
            want: Err(EvaluatorError::InvalidOperation(
                Value::from(1),
                Op::Multiplicative(MultiplicativeOp::Mul),
                Value::from(true),
            )),
        },
        TestCase {
            expr: "1 / true",
            want: Err(EvaluatorError::InvalidOperation(
                Value::from(1),
                Op::Multiplicative(MultiplicativeOp::Div),
                Value::from(true),
            )),
        },
        TestCase {
            expr: "1 % false",
            want: Err(EvaluatorError::InvalidOperation(
                Value::from(1),
                Op::Multiplicative(MultiplicativeOp::Mod),
                Value::from(false),
            )),
        },
    ];
    test_cases.iter().for_each(|case| {
        let expr = parse_expr(case.expr).unwrap();
        let output = evaluate(&expr, &empty_parameters);
        assert_eq!(case.want, output, "expr: {}", case.expr);
    });
}

#[test]
fn test_equality_expr() {
    let empty_parameters = Parameters::new();

    let test_cases: Vec<TestCase> = vec![
        TestCase {
            expr: "10 == 10",
            want: Ok(Value::from(true)),
        },
        TestCase {
            expr: "10 == 1",
            want: Ok(Value::from(false)),
        },
        TestCase {
            expr: "10 != 10",
            want: Ok(Value::from(false)),
        },
        TestCase {
            expr: "1 != 10",
            want: Ok(Value::from(true)),
        },
        TestCase {
            expr: "10.2 != 12.2",
            want: Ok(Value::from(true)),
        },
        TestCase {
            expr: "10.1 == 10.1",
            want: Ok(Value::from(true)),
        },
        TestCase {
            expr: "10 != 12.2",
            want: Ok(Value::from(true)),
        },
        TestCase {
            expr: "10 == 10.0",
            want: Ok(Value::from(true)),
        },
        TestCase {
            expr: "12.2 != 10",
            want: Ok(Value::from(true)),
        },
        TestCase {
            expr: "10.0 == 10",
            want: Ok(Value::from(true)),
        },
        TestCase {
            expr: "true == true",
            want: Ok(Value::from(true)),
        },
        TestCase {
            expr: "true != true",
            want: Ok(Value::from(false)),
        },
        TestCase {
            expr: "true == false",
            want: Ok(Value::from(false)),
        },
        TestCase {
            expr: "'hello' == 'hello'",
            want: Ok(Value::from(true)),
        },
        TestCase {
            expr: "'hello' == 'world'",
            want: Ok(Value::from(false)),
        },
        TestCase {
            expr: "'hello' != 'world'",
            want: Ok(Value::from(true)),
        },
        TestCase {
            expr: "1 == true",
            want: Err(EvaluatorError::InvalidOperation(
                Value::from(1),
                Op::Equality(EqualityOp::Eq),
                Value::from(true),
            )),
        },
        TestCase {
            expr: "1 != true",
            want: Err(EvaluatorError::InvalidOperation(
                Value::from(1),
                Op::Equality(EqualityOp::Neq),
                Value::from(true),
            )),
        },
        TestCase {
            expr: "1 in true",
            want: Err(EvaluatorError::InvalidOperation(
                Value::from(1),
                Op::Equality(EqualityOp::In),
                Value::from(true),
            )),
        },
    ];
    test_cases.iter().for_each(|case| {
        let expr = parse_expr(case.expr).unwrap();
        let output = evaluate(&expr, &empty_parameters);
        assert_eq!(case.want, output, "expr: {}", case.expr);
    });
}

#[test]
fn test_relational_expr() {
    let empty_parameters = Parameters::new();

    let test_cases: Vec<TestCase> = vec![
        TestCase {
            expr: "2 > 1",
            want: Ok(Value::from(true)),
        },
        TestCase {
            expr: "2 >= 1",
            want: Ok(Value::from(true)),
        },
        TestCase {
            expr: "2 >= 2",
            want: Ok(Value::from(true)),
        },
        TestCase {
            expr: "1 < 2",
            want: Ok(Value::from(true)),
        },
        TestCase {
            expr: "1 <= 1",
            want: Ok(Value::from(true)),
        },
        TestCase {
            expr: "1 <= 2",
            want: Ok(Value::from(true)),
        },
        TestCase {
            expr: "2.0 > 1",
            want: Ok(Value::from(true)),
        },
        TestCase {
            expr: "2.2 >= 1",
            want: Ok(Value::from(true)),
        },
        TestCase {
            expr: "2.0 >= 2",
            want: Ok(Value::from(true)),
        },
        TestCase {
            expr: "1.5 < 2",
            want: Ok(Value::from(true)),
        },
        TestCase {
            expr: "2.2 <= 3",
            want: Ok(Value::from(true)),
        },
        TestCase {
            expr: "2.0 <= 2",
            want: Ok(Value::from(true)),
        },
        TestCase {
            expr: "true >= true",
            want: Ok(Value::from(true)),
        },
        TestCase {
            expr: "true >= false",
            want: Ok(Value::from(true)),
        },
        TestCase {
            expr: "true > true",
            want: Ok(Value::from(false)),
        },
        TestCase {
            expr: "true > false",
            want: Ok(Value::from(true)),
        },
        TestCase {
            expr: "false < false",
            want: Ok(Value::from(false)),
        },
        TestCase {
            expr: "false <= false",
            want: Ok(Value::from(true)),
        },
        TestCase {
            expr: "false < true",
            want: Ok(Value::from(true)),
        },
        TestCase {
            expr: "false <= true",
            want: Ok(Value::from(true)),
        },
        TestCase {
            expr: "1 > true",
            want: Err(EvaluatorError::InvalidOperation(
                Value::from(1),
                Op::Relational(RelationalOp::Gt),
                Value::from(true),
            )),
        },
        TestCase {
            expr: "1 >= true",
            want: Err(EvaluatorError::InvalidOperation(
                Value::from(1),
                Op::Relational(RelationalOp::Gte),
                Value::from(true),
            )),
        },
        TestCase {
            expr: "1 < true",
            want: Err(EvaluatorError::InvalidOperation(
                Value::from(1),
                Op::Relational(RelationalOp::Lt),
                Value::from(true),
            )),
        },
        TestCase {
            expr: "1 <= true",
            want: Err(EvaluatorError::InvalidOperation(
                Value::from(1),
                Op::Relational(RelationalOp::Lte),
                Value::from(true),
            )),
        },
    ];
    test_cases.iter().for_each(|case| {
        let expr = parse_expr(case.expr).unwrap();
        let output = evaluate(&expr, &empty_parameters);
        assert_eq!(case.want, output, "expr: {}", case.expr);
    });
}

#[test]
fn test_in_array_expr() {
    let empty_parameters = Parameters::new();

    let test_cases: Vec<TestCase> = vec![
        TestCase {
            expr: "1 in [1, 2]",
            want: Ok(Value::from(true)),
        },
        TestCase {
            expr: "3 in [1, 2]",
            want: Ok(Value::from(false)),
        },
        TestCase {
            expr: "'one' in ['one', 'two']",
            want: Ok(Value::from(true)),
        },
        TestCase {
            expr: "'three' in ['one', 'two']",
            want: Ok(Value::from(false)),
        },
        TestCase {
            expr: "true in [true, false]",
            want: Ok(Value::from(true)),
        },
        TestCase {
            expr: "true in [false]",
            want: Ok(Value::from(false)),
        },
        TestCase {
            expr: "1 in []",
            want: Ok(Value::from(false)),
        },
    ];
    test_cases.iter().for_each(|case| {
        let expr = parse_expr(case.expr).unwrap();
        let output = evaluate(&expr, &empty_parameters);
        assert_eq!(case.want, output, "expr: {}", case.expr);
    });
}

#[test]
fn test_parameter_expr() {
    let test_cases: Vec<TestCaseWithParameters> = vec![
        TestCaseWithParameters {
            expr: "{name} > 1",
            parameters: params("name", Value::from(2)),
            want: Ok(Value::from(true)),
        },
        TestCaseWithParameters {
            expr: "{name} == 1",
            parameters: params("name", Value::from(1)),
            want: Ok(Value::from(true)),
        },
        TestCaseWithParameters {
            expr: "{name} < 1",
            parameters: params("name", Value::from(0)),
            want: Ok(Value::from(true)),
        },
        TestCaseWithParameters {
            expr: "{name} > 1",
            parameters: params("name", Value::from(0)),
            want: Ok(Value::from(false)),
        },
        TestCaseWithParameters {
            expr: "{name} == 1",
            parameters: params("name", Value::from(0)),
            want: Ok(Value::from(false)),
        },
        TestCaseWithParameters {
            expr: "{name} < 1",
            parameters: params("name", Value::from(2)),
            want: Ok(Value::from(false)),
        },
    ];

    test_cases.iter().for_each(|case| {
        let expr = parse_expr(case.expr).unwrap();
        let output = evaluate(&expr, &case.parameters);
        assert_eq!(case.want, output, "expr: {}", case.expr);
    });
}

#[test]
fn test_precedence_expr() {
    let empty_parameters = Parameters::new();

    let test_cases: Vec<TestCase> = vec![
        TestCase {
            expr: "(2 > 1) && (4 > 2)",
            want: Ok(Value::from(true)),
        },
        TestCase {
            expr: "2 > 1 && 4 > 2",
            want: Ok(Value::from(true)),
        },
        TestCase {
            expr: "1 + 2 * 3",
            want: Ok(Value::from(7)),
        },
        TestCase {
            expr: "(1 + 2) * 3",
            want: Ok(Value::from(9)),
        },
    ];
    test_cases.iter().for_each(|case| {
        let expr = parse_expr(case.expr).unwrap();
        let output = evaluate(&expr, &empty_parameters);
        assert_eq!(case.want, output, "expr: {}", case.expr);
    });
}
