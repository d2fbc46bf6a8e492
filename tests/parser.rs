use evaluator_rs::{
    parse_expr_from_json, parse_expr_from_str, parse_parameter_name, AdditiveExprParser, AdditiveOp,
    EqualityOp, Expr, ExprParser, LogicalOp, MultiplicativeExprParser, MultiplicativeOp, Number, Op,
    ParserError, RelationalExprParser, RelationalOp, Value,
};

fn num(x: f64) -> Value {
    Value::Number(Number::from_bits(x.to_bits()))
}

fn lit(v: Value) -> Box<Expr> {
    Box::new(Expr::Value(v))
}

fn op(l: Box<Expr>, o: Op, r: Box<Expr>) -> Box<Expr> {
    Box::new(Expr::Op(l, o, r))
}

fn ident(name: &str) -> Box<Expr> {
    Box::new(Expr::Identifier(name.to_owned()))
}

struct TestCase<'a> {
    expr: &'a str,
    want: Result<Box<Expr>, ParserError>,
}

#[test]
fn test_json_expr() {
    let test_cases: Vec<TestCase> = vec![
        TestCase {
            expr: r#"
                {
                    "lhs": true,
                    "op": "&&",
                    "rhs": false 
                }"#,
            want: Ok(Box::new(Expr::Op(
                Box::new(Expr::Value(Value::from(true))),
                Op::Logical(LogicalOp::And),
                Box::new(Expr::Value(Value::from(false))),
            ))),
        },
        TestCase {
            expr: r#"
                {
                    "lhs": 1,
                    "op": "+",
                    "rhs": 2 
                }"#,
            want: Ok(Box::new(Expr::Op(
                Box::new(Expr::Value(Value::from(1))),
                Op::Additive(AdditiveOp::Add),
                Box::new(Expr::Value(Value::from(2))),
            ))),
        },
        TestCase {
            expr: r#"
                {
                    "lhs": 3,
                    "op": "==",
                    "rhs": 4 
                }"#,
            want: Ok(Box::new(Expr::Op(
                Box::new(Expr::Value(Value::from(3))),
                Op::Equality(EqualityOp::Eq),
                Box::new(Expr::Value(Value::from(4))),
            ))),
        },
        TestCase {
            expr: r#"
                {
                    "lhs": "hello",
                    "op": "==",
                    "rhs": "hello" 
                }"#,
            want: Ok(Box::new(Expr::Op(
                Box::new(Expr::Value(Value::from("hello"))),
                Op::Equality(EqualityOp::Eq),
                Box::new(Expr::Value(Value::from("hello"))),
            ))),
        },
        TestCase {
            expr: r#"
                {
                    "lhs": 4,
                    "op": "in",
                    "rhs": [4, 5, 6] 
                }"#,
            want: Ok(Box::new(Expr::Op(
                Box::new(Expr::Value(Value::from(4))),
                Op::Equality(EqualityOp::In),
                Box::new(Expr::Value(Value::Array(vec![
                    Value::from(4),
                    Value::from(5),
                    Value::from(6),
                ]))),
            ))),
        },
        TestCase {
            expr: r#"
                {
                    "lhs": {
                        "lhs": 4,
                        "op": "-",
                        "rhs": {
                            "lhs": 2,
                            "op": "-",
                            "rhs": "{foo}"
                        }
                    },
                    "op": "==",
                    "rhs": {
                        "lhs": 1,
                        "op": "+",
                        "rhs": "{bar}"
                    }
                }"#,
            want: Ok(Box::new(Expr::Op(
                Box::new(Expr::Op(
                    Box::new(Expr::Value(Value::from(4))),
                    Op::Additive(AdditiveOp::Sub),
                    Box::new(Expr::Op(
                        Box::new(Expr::Value(Value::from(2))),
                        Op::Additive(AdditiveOp::Sub),
                        Box::new(Expr::Identifier("foo".to_owned())),
                    )),
                )),
                Op::Equality(EqualityOp::Eq),
                Box::new(Expr::Op(
                    Box::new(Expr::Value(Value::from(1))),
                    Op::Additive(AdditiveOp::Add),
                    Box::new(Expr::Identifier("bar".to_owned())),
                )),
            ))),
        },
        TestCase {
            expr: r#"
                {
                    "lhs": 3,
                }"#,
            want: Err(ParserError::InvalidExpr(
                "trailing comma at line 4 column 17".to_owned(),
            )),
        },
        TestCase {
            expr: r#"
                {
                    "lhs": 3,
                    "op": "add",
                    "rhs": 4 
                }"#,
            want: Err(ParserError::InvalidOp("add".to_owned())),
        },
    ];
    test_cases.iter().for_each(|case| {
        let expr = parse_expr_from_json(case.expr);
        assert_eq!(case.want, expr);
    });
}

#[test]
fn test_parse_expr() {
    assert_eq!(
        *parse_expr_from_str("1 + 2").unwrap(),
        Expr::Op(
            Box::new(Expr::Value(Value::from(1))),
            Op::Additive(AdditiveOp::Add),
            Box::new(Expr::Value(Value::from(2))),
        )
    );

    assert_eq!(
        parse_expr_from_str("a + 2").unwrap_err(),
        ParserError::InvalidExpr("Invalid token at 0".to_string()),
    );
}

#[test]
fn test_parse_parameter_name() {
    assert_eq!(parse_parameter_name("{a}"), "a".to_owned(),);
    assert_eq!(parse_parameter_name("{}"), "".to_owned(),);
}

#[test]
fn parse_parameter_name_of_short_text() {
    assert_eq!(parse_parameter_name(""), "".to_owned());
    assert_eq!(parse_parameter_name("x"), "".to_owned());
    assert_eq!(parse_parameter_name("{long_name_1}"), "long_name_1".to_owned());
}

#[test]
fn operators_fold_left_within_a_level() {
    let one = || lit(num(1.0));
    let two = || lit(num(2.0));
    let three = || lit(num(3.0));
    assert_eq!(
        parse_expr_from_str("1 - 2 - 3").unwrap(),
        op(op(one(), Op::Additive(AdditiveOp::Sub), two()), Op::Additive(AdditiveOp::Sub), three())
    );
    assert_eq!(
        parse_expr_from_str("1 == 2 > 3").unwrap(),
        op(op(one(), Op::Equality(EqualityOp::Eq), two()), Op::Relational(RelationalOp::Gt), three())
    );
    assert_eq!(
        parse_expr_from_str("1 + 2 * 3").unwrap(),
        op(one(), Op::Additive(AdditiveOp::Add), op(two(), Op::Multiplicative(MultiplicativeOp::Mul), three()))
    );
    assert_eq!(
        parse_expr_from_str("(1 + 2) * 3").unwrap(),
        op(op(one(), Op::Additive(AdditiveOp::Add), two()), Op::Multiplicative(MultiplicativeOp::Mul), three())
    );
    assert_eq!(
        parse_expr_from_str("true || false && true").unwrap(),
        op(
            op(lit(Value::from(true)), Op::Logical(LogicalOp::Or), lit(Value::from(false))),
            Op::Logical(LogicalOp::And),
            lit(Value::from(true))
        )
    );
}

#[test]
fn tokens_and_literals() {
    assert_eq!(parse_expr_from_str("{age_2}").unwrap(), ident("age_2"));
    assert_eq!(parse_expr_from_str("  'US'  ").unwrap(), lit(Value::from("US")));
    assert_eq!(parse_expr_from_str("''").unwrap(), lit(Value::from("")));
    assert_eq!(parse_expr_from_str("12.25").unwrap(), lit(num(12.25)));
    assert_eq!(parse_expr_from_str("\u{A0}1\u{3000}+\t2\u{2028}").unwrap(), op(lit(num(1.0)), Op::Additive(AdditiveOp::Add), lit(num(2.0))));
    assert_eq!(parse_expr_from_str("007").unwrap(), lit(num(7.0)));
    assert_eq!(parse_expr_from_str("[]").unwrap(), lit(Value::Array(vec![])));
    assert_eq!(
        parse_expr_from_str("[1, 'a', true,]").unwrap(),
        lit(Value::Array(vec![num(1.0), Value::from("a"), Value::from(true)]))
    );
    assert_eq!(
        parse_expr_from_str("1>=2").unwrap(),
        op(lit(num(1.0)), Op::Relational(RelationalOp::Gte), lit(num(2.0)))
    );
    assert_eq!(
        parse_expr_from_str("1 in[1]").unwrap(),
        op(lit(num(1.0)), Op::Equality(EqualityOp::In), lit(Value::Array(vec![num(1.0)])))
    );
}

#[test]
fn syntax_errors() {
    assert_eq!(
        parse_expr_from_str("1 + {A}").unwrap_err(),
        ParserError::InvalidExpr("Invalid token at 4".to_string())
    );
    assert_eq!(
        parse_expr_from_str("'open").unwrap_err(),
        ParserError::InvalidExpr("Invalid token at 0".to_string())
    );
    assert_eq!(
        parse_expr_from_str("1 = 2").unwrap_err(),
        ParserError::InvalidExpr("Invalid token at 2".to_string())
    );
    assert_eq!(
        parse_expr_from_str("1 +").unwrap_err(),
        ParserError::InvalidExpr("Unrecognized EOF found at 3".to_string())
    );
    assert_eq!(
        parse_expr_from_str("1 2").unwrap_err(),
        ParserError::InvalidExpr("Unrecognized token `2` found at 2:3".to_string())
    );
    assert!(matches!(parse_expr_from_str(""), Err(ParserError::InvalidExpr(_))));
    assert!(matches!(parse_expr_from_str("(1 + 2"), Err(ParserError::InvalidExpr(_))));
    assert!(matches!(parse_expr_from_str("[1 2]"), Err(ParserError::InvalidExpr(_))));
    assert!(matches!(parse_expr_from_str("[,]"), Err(ParserError::InvalidExpr(_))));
    assert!(matches!(parse_expr_from_str("[{a}]"), Err(ParserError::InvalidExpr(_))));
    assert!(matches!(parse_expr_from_str("[[1]]"), Err(ParserError::InvalidExpr(_))));
}

#[test]
fn parsers_for_each_level() {
    assert!(ExprParser::new().parse("1 && 2").is_ok());
    assert!(RelationalExprParser::new().parse("1 && 2").is_err());
    assert!(RelationalExprParser::new().parse("1 < 2 == true").is_ok());
    assert!(AdditiveExprParser::new().parse("1 < 2").is_err());
    assert_eq!(
        AdditiveExprParser::new().parse("1 + 2 * 3").unwrap(),
        parse_expr_from_str("1 + 2 * 3").unwrap()
    );
    assert!(MultiplicativeExprParser::new().parse("1 + 2").is_err());
    assert_eq!(
        MultiplicativeExprParser::new().parse("(1 + 2) % 3").unwrap(),
        parse_expr_from_str("(1 + 2) % 3").unwrap()
    );
}

#[test]
fn json_errors() {
    assert_eq!(
        parse_expr_from_json(r#"{"op": "+", "rhs": 1}"#).unwrap_err(),
        ParserError::MissingValue("lhs")
    );
    assert_eq!(
        parse_expr_from_json(r#"{"lhs": 1, "rhs": 1}"#).unwrap_err(),
        ParserError::MissingValue("op")
    );
    assert_eq!(
        parse_expr_from_json(r#"{"lhs": 1, "op": "+"}"#).unwrap_err(),
        ParserError::MissingValue("rhs")
    );
    assert_eq!(
        parse_expr_from_json(r#"{"lhs": 1, "op": 5, "rhs": 1}"#).unwrap_err(),
        ParserError::InvalidOp("5".to_string())
    );
    assert_eq!(parse_expr_from_json("null").unwrap_err(), ParserError::InvalidValue("null".to_string()));
    assert_eq!(
        parse_expr_from_json(r#"{"lhs": [1, null], "op": "in", "rhs": []}"#).unwrap_err(),
        ParserError::InvalidValue("null".to_string())
    );
    assert_eq!(
        parse_expr_from_json(r#"[{"a": 1}]"#).unwrap_err(),
        ParserError::InvalidValue("{\"a\":1}".to_string())
    );
    assert_eq!(
        parse_expr_from_json(r#"{"lhs": 1, "op": [1, 2], "rhs": 1}"#).unwrap_err(),
        ParserError::InvalidOp("[1,2]".to_string())
    );
    assert_eq!(
        parse_expr_from_json(r#"{"lhs": 1, "op": {"b": "x", "a": null}, "rhs": 1}"#).unwrap_err(),
        ParserError::InvalidOp("{\"a\":null,\"b\":\"x\"}".to_string())
    );
    assert_eq!(
        parse_expr_from_json(r#"{"lhs": 1, "op": true, "rhs": 1}"#).unwrap_err(),
        ParserError::InvalidOp("true".to_string())
    );
    assert!(matches!(parse_expr_from_json("{"), Err(ParserError::InvalidExpr(_))));
}

#[test]
fn json_leaves() {
    assert_eq!(parse_expr_from_json(r#""{a}""#).unwrap(), ident("a"));
    assert_eq!(parse_expr_from_json(r#"" {a} ""#).unwrap(), ident("a"));
    assert_eq!(parse_expr_from_json(r#""{a} b""#).unwrap(), lit(Value::from("{a} b")));
    assert_eq!(parse_expr_from_json(r#""US""#).unwrap(), lit(Value::from("US")));
    assert_eq!(parse_expr_from_json("2.5").unwrap(), lit(num(2.5)));
    assert_eq!(parse_expr_from_json("-3").unwrap(), lit(num(-3.0)));
    assert_eq!(parse_expr_from_json("1e2").unwrap(), lit(num(100.0)));
    assert_eq!(
        parse_expr_from_json("[[1], \"x\"]").unwrap(),
        lit(Value::Array(vec![Value::Array(vec![num(1.0)]), Value::from("x")]))
    );
    assert_eq!(
        parse_expr_from_json(r#"{"lhs": 1, "op": " >= ", "rhs": 2}"#).unwrap(),
        op(lit(num(1.0)), Op::Relational(RelationalOp::Gte), lit(num(2.0)))
    );
}
