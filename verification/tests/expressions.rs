use tera::parser::ast::{
    Expr, ExprKind, Filter, FunctionCall, Ident, Kwarg, LitKind, LogicExpr, LogicOperator,
    MacroCall, MathExpr, MathOperator, NotExpr, Span, Spanned, Test,
};
use tera::parser::errors::{ErrorKind, Expected, Failure};
use tera::parser::TeraParser;

fn spanned(node: ExprKind, start: usize, end: usize) -> Expr {
    Spanned { node, span: Span::new(start, end) }
}

fn lit(kind: LitKind, start: usize, end: usize) -> Expr {
    let span = Span::new(start, end);
    Spanned { node: ExprKind::Lit(Spanned { node: kind, span }), span }
}

fn num(value: i64, start: usize, end: usize) -> Expr {
    lit(LitKind::Int(value), start, end)
}

fn name(name: &str, start: usize) -> Expr {
    spanned(
        ExprKind::Ident(Ident { name: name.to_string(), filters: vec![] }),
        start,
        start + name.len(),
    )
}

fn math(operator: MathOperator, lhs: Expr, rhs: Expr) -> Expr {
    let span = Span::new(lhs.span.start(), rhs.span.end());
    Spanned {
        node: ExprKind::Math(MathExpr { lhs: Box::new(lhs), rhs: Box::new(rhs), operator }),
        span,
    }
}

fn logic(operator: LogicOperator, lhs: Expr, rhs: Expr) -> Expr {
    let span = Span::new(lhs.span.start(), rhs.span.end());
    Spanned {
        node: ExprKind::Logic(LogicExpr { lhs: Box::new(lhs), rhs: Box::new(rhs), operator }),
        span,
    }
}

fn kwarg(name: &str, value: Expr) -> Kwarg {
    Kwarg { name: name.to_string(), value }
}

fn parse(input: &str) -> Expr {
    TeraParser::parse_expression(input).unwrap()
}

fn failure(input: &str) -> Failure {
    TeraParser::parse_expression(input).unwrap_err()
}

#[test]
fn an_int_literal_is_its_value_with_the_span_of_the_whole_text() {
    let values: Vec<i64> = vec![
        0,
        1,
        -1,
        9,
        10,
        -10,
        42,
        250000,
        i64::MAX,
        i64::MIN,
        i64::MAX - 1,
        i64::MIN + 1,
        1_000_000_007,
    ];
    for n in values {
        let text = n.to_string();
        assert_eq!(parse(&text), num(n, 0, text.len()));
    }
}

#[test]
fn an_int_literal_may_start_with_zeros() {
    assert_eq!(parse("007"), num(7, 0, 3));
    assert_eq!(parse("-000"), num(0, 0, 4));
}

#[test]
fn an_int_literal_out_of_range_is_a_lexical_error() {
    let expected = |end: usize| Failure {
        kind: ErrorKind::LexicalError,
        span: Span::new(0, end),
        expected: Expected::IntegerInRange,
    };
    assert_eq!(failure("9223372036854775808"), expected(19));
    assert_eq!(failure("-9223372036854775809"), expected(20));
    assert_eq!(failure("100000000000000000000000000000000000000000"), expected(42));
}

#[test]
fn a_float_literal_keeps_its_text() {
    assert_eq!(parse("2.1"), lit(LitKind::Float("2.1".to_string()), 0, 3));
    assert_eq!(parse("-1.10"), lit(LitKind::Float("-1.10".to_string()), 0, 5));
    let parsed = parse("123.5");
    match parsed.node {
        ExprKind::Lit(l) => match l.node {
            LitKind::Float(text) => assert_eq!(text.parse::<f64>().unwrap(), 123.5),
            other => panic!("not a float: {:?}", other),
        },
        other => panic!("not a literal: {:?}", other),
    }
}

#[test]
fn string_and_bool_literals() {
    assert_eq!(parse("\"bob\""), lit(LitKind::String("bob".to_string()), 0, 5));
    assert_eq!(parse("\"\""), lit(LitKind::String(String::new()), 0, 2));
    assert_eq!(parse("\"h\u{e9}llo \u{4e16}\""), lit(LitKind::String("h\u{e9}llo \u{4e16}".to_string()), 0, 12));
    assert_eq!(parse("true"), lit(LitKind::Bool(true), 0, 4));
    assert_eq!(parse("false"), lit(LitKind::Bool(false), 0, 5));
    assert_eq!(parse("truest"), name("truest", 0));
}

#[test]
fn multiplication_binds_tighter_than_addition() {
    assert_eq!(
        parse("1 + 2 * 3"),
        math(MathOperator::Add, num(1, 0, 1), math(MathOperator::Mul, num(2, 4, 5), num(3, 8, 9)))
    );
    assert_eq!(
        parse("1 * 2 + 3"),
        math(MathOperator::Add, math(MathOperator::Mul, num(1, 0, 1), num(2, 4, 5)), num(3, 8, 9))
    );
}

#[test]
fn and_binds_tighter_than_or() {
    assert_eq!(
        parse("1 > 2 or 3 == 4 and admin"),
        logic(
            LogicOperator::Or,
            logic(LogicOperator::Gt, num(1, 0, 1), num(2, 4, 5)),
            logic(
                LogicOperator::And,
                logic(LogicOperator::Eq, num(3, 9, 10), num(4, 14, 15)),
                name("admin", 20),
            ),
        )
    );
    assert_eq!(
        parse("a or b and c"),
        logic(
            LogicOperator::Or,
            name("a", 0),
            logic(LogicOperator::And, name("b", 5), name("c", 11)),
        )
    );
}

#[test]
fn binary_operators_group_to_the_left() {
    assert_eq!(
        parse("1 - 2 - 3"),
        math(MathOperator::Sub, math(MathOperator::Sub, num(1, 0, 1), num(2, 4, 5)), num(3, 8, 9))
    );
    assert_eq!(
        parse("8/4/2"),
        math(MathOperator::Div, math(MathOperator::Div, num(8, 0, 1), num(4, 2, 3)), num(2, 4, 5))
    );
    assert_eq!(
        parse("a or b or c"),
        logic(
            LogicOperator::Or,
            logic(LogicOperator::Or, name("a", 0), name("b", 5)),
            name("c", 10),
        )
    );
    assert_eq!(
        parse("a and b and c"),
        logic(
            LogicOperator::And,
            logic(LogicOperator::And, name("a", 0), name("b", 6)),
            name("c", 12),
        )
    );
}

#[test]
fn every_comparison_operator() {
    let cases = vec![
        ("a > b", LogicOperator::Gt, 4),
        ("a >= b", LogicOperator::Gte, 5),
        ("a < b", LogicOperator::Lt, 4),
        ("a <= b", LogicOperator::Lte, 5),
        ("a == b", LogicOperator::Eq, 5),
        ("a != b", LogicOperator::NotEq, 5),
    ];
    for (input, operator, at) in cases {
        assert_eq!(parse(input), logic(operator, name("a", 0), name("b", at)));
    }
}

#[test]
fn a_minus_is_a_sign_before_a_number_and_an_operator_after_an_operand() {
    assert_eq!(parse("1 -2"), math(MathOperator::Sub, num(1, 0, 1), num(2, 3, 4)));
    assert_eq!(parse("1 - -2"), math(MathOperator::Sub, num(1, 0, 1), num(-2, 4, 6)));
    assert_eq!(parse("-2"), num(-2, 0, 2));
}

#[test]
fn parentheses_group_and_leave_no_node() {
    assert_eq!(
        parse("(1 + 2) * 3"),
        math(MathOperator::Mul, math(MathOperator::Add, num(1, 1, 2), num(2, 5, 6)), num(3, 10, 11))
    );
    assert_eq!(parse("( (a) )"), name("a", 3));
    assert_eq!(
        parse("(a or b) and c"),
        logic(
            LogicOperator::And,
            logic(LogicOperator::Or, name("a", 1), name("b", 6)),
            name("c", 13),
        )
    );
}

#[test]
fn a_test_and_a_comparison_on_either_side_of_or() {
    let test_first = parse("x is defined or x > 10");
    let test_last = parse("x > 10 or x is defined");
    let defined = |start: usize| {
        spanned(
            ExprKind::Test(Test {
                expr: Box::new(name("x", start)),
                name: "defined".to_string(),
                params: vec![],
            }),
            start,
            start + 12,
        )
    };
    assert_eq!(
        test_first,
        logic(
            LogicOperator::Or,
            defined(0),
            logic(LogicOperator::Gt, name("x", 16), num(10, 20, 22)),
        )
    );
    assert_eq!(
        test_last,
        logic(
            LogicOperator::Or,
            logic(LogicOperator::Gt, name("x", 0), num(10, 4, 6)),
            defined(10),
        )
    );
    assert_ne!(test_first, test_last);
}

#[test]
fn a_test_takes_the_operand_before_it_and_its_arguments() {
    assert_eq!(
        parse("x is defined and y > 1"),
        logic(
            LogicOperator::And,
            spanned(
                ExprKind::Test(Test {
                    expr: Box::new(name("x", 0)),
                    name: "defined".to_string(),
                    params: vec![],
                }),
                0,
                12,
            ),
            logic(LogicOperator::Gt, name("y", 17), num(1, 21, 22)),
        )
    );
    assert_eq!(
        parse("n is divisibleby(2, k)"),
        spanned(
            ExprKind::Test(Test {
                expr: Box::new(name("n", 0)),
                name: "divisibleby".to_string(),
                params: vec![num(2, 17, 18), name("k", 20)],
            }),
            0,
            22,
        )
    );
    assert_eq!(
        parse("a + b is odd()"),
        math(
            MathOperator::Add,
            name("a", 0),
            spanned(
                ExprKind::Test(Test {
                    expr: Box::new(name("b", 4)),
                    name: "odd".to_string(),
                    params: vec![],
                }),
                4,
                14,
            ),
        )
    );
}

#[test]
fn not_negates_the_comparison_after_it() {
    assert_eq!(
        parse("not show"),
        spanned(ExprKind::Not(NotExpr { expr: Box::new(name("show", 4)) }), 0, 8)
    );
    assert_eq!(
        parse("not user_count or true"),
        logic(
            LogicOperator::Or,
            spanned(ExprKind::Not(NotExpr { expr: Box::new(name("user_count", 4)) }), 0, 14),
            lit(LitKind::Bool(true), 18, 22),
        )
    );
    assert_eq!(
        parse("not a > 1 and b"),
        logic(
            LogicOperator::And,
            spanned(
                ExprKind::Not(NotExpr {
                    expr: Box::new(logic(LogicOperator::Gt, name("a", 4), num(1, 8, 9))),
                }),
                0,
                9,
            ),
            name("b", 14),
        )
    );
    assert_eq!(
        parse("not not a"),
        spanned(
            ExprKind::Not(NotExpr {
                expr: Box::new(spanned(
                    ExprKind::Not(NotExpr { expr: Box::new(name("a", 8)) }),
                    4,
                    9,
                )),
            }),
            0,
            9,
        )
    );
    assert_eq!(parse("notice"), name("notice", 0));
}

#[test]
fn an_identifier_with_its_filters_in_source_order() {
    let parsed = parse("hello|attr(key=1,more=true)|another|more(ok=1)");
    let expected = spanned(
        ExprKind::Ident(Ident {
            name: "hello".to_string(),
            filters: vec![
                Filter {
                    name: "attr".to_string(),
                    params: vec![
                        kwarg("key", num(1, 15, 16)),
                        kwarg("more", lit(LitKind::Bool(true), 22, 26)),
                    ],
                },
                Filter { name: "another".to_string(), params: vec![] },
                Filter { name: "more".to_string(), params: vec![kwarg("ok", num(1, 44, 45))] },
            ],
        }),
        0,
        46,
    );
    assert_eq!(parsed, expected);
}

#[test]
fn filters_bind_before_binary_operators() {
    assert_eq!(
        parse("a|f + b"),
        math(
            MathOperator::Add,
            spanned(
                ExprKind::Ident(Ident {
                    name: "a".to_string(),
                    filters: vec![Filter { name: "f".to_string(), params: vec![] }],
                }),
                0,
                3,
            ),
            name("b", 6),
        )
    );
    assert_eq!(
        parse("a | f()"),
        spanned(
            ExprKind::Ident(Ident {
                name: "a".to_string(),
                filters: vec![Filter { name: "f".to_string(), params: vec![] }],
            }),
            0,
            7,
        )
    );
}

#[test]
fn a_dotted_identifier_is_one_name() {
    assert_eq!(parse("hey.ho.hu"), name("hey.ho.hu", 0));
    assert_eq!(
        failure("hey.0"),
        Failure {
            kind: ErrorKind::SyntaxError,
            span: Span::new(3, 3),
            expected: Expected::EndOfInput
        }
    );
}

#[test]
fn calls_of_functions_and_macros() {
    assert_eq!(
        parse("range(end=5, start = 1)"),
        spanned(
            ExprKind::FunctionCall(FunctionCall {
                name: "range".to_string(),
                params: vec![kwarg("end", num(5, 10, 11)), kwarg("start", num(1, 21, 22))],
            }),
            0,
            23,
        )
    );
    assert_eq!(
        parse("macros::input(name=\"q\")"),
        spanned(
            ExprKind::MacroCall(MacroCall {
                namespace: "macros".to_string(),
                name: "input".to_string(),
                params: vec![kwarg("name", lit(LitKind::String("q".to_string()), 19, 22))],
            }),
            0,
            23,
        )
    );
    assert_eq!(
        parse("now( )"),
        spanned(
            ExprKind::FunctionCall(FunctionCall { name: "now".to_string(), params: vec![] }),
            0,
            6,
        )
    );
}

#[test]
fn an_argument_given_twice_keeps_its_last_value_in_its_first_place() {
    assert_eq!(
        parse("f(a=1, b=2, a=3)"),
        spanned(
            ExprKind::FunctionCall(FunctionCall {
                name: "f".to_string(),
                params: vec![kwarg("a", num(3, 14, 15)), kwarg("b", num(2, 9, 10))],
            }),
            0,
            16,
        )
    );
}

#[test]
fn white_space_around_an_expression_is_skipped() {
    assert_eq!(parse("  \t42\n"), num(42, 3, 5));
    assert_eq!(
        parse("1\n+\r\n2"),
        math(MathOperator::Add, num(1, 0, 1), num(2, 5, 6))
    );
}

#[test]
fn malformed_expressions_fail_where_they_go_wrong() {
    let syntax = |at: usize, expected: Expected| Failure {
        kind: ErrorKind::SyntaxError,
        span: Span::new(at, at),
        expected,
    };
    let lexical = |at: usize, expected: Expected| Failure {
        kind: ErrorKind::LexicalError,
        span: Span::new(at, at),
        expected,
    };
    assert_eq!(failure(""), syntax(0, Expected::Operand));
    assert_eq!(failure("1 +"), syntax(3, Expected::Operand));
    assert_eq!(failure("1 + * 2"), syntax(4, Expected::Operand));
    assert_eq!(failure("(1 + 2"), syntax(6, Expected::ParenClose));
    assert_eq!(failure("(1 + 2]"), lexical(6, Expected::ParenClose));
    assert_eq!(failure("1 2"), syntax(2, Expected::EndOfInput));
    assert_eq!(failure("a and"), syntax(5, Expected::Operand));
    assert_eq!(failure("a or or"), syntax(5, Expected::Operand));
    assert_eq!(failure("not"), syntax(3, Expected::Operand));
    assert_eq!(failure("\"open"), lexical(0, Expected::ClosingQuote));
    assert_eq!(failure("a | 1"), lexical(4, Expected::Identifier));
    assert_eq!(failure("a | "), syntax(4, Expected::Identifier));
    assert_eq!(failure("f(a)"), syntax(3, Expected::Assign));
    assert_eq!(failure("f(a=1 b=2)"), syntax(6, Expected::CommaOrParenClose));
    assert_eq!(failure("f(a=1,)"), syntax(6, Expected::Identifier));
    assert_eq!(failure("m::(a=1)"), syntax(3, Expected::Identifier));
    assert_eq!(failure("m::f"), syntax(4, Expected::ParenOpen));
    assert_eq!(failure("x is"), syntax(4, Expected::Identifier));
    assert_eq!(failure("x is odd(1"), syntax(10, Expected::CommaOrParenClose));
    assert_eq!(failure("@"), lexical(0, Expected::Operand));
    assert_eq!(failure("1 + \u{e9}"), lexical(4, Expected::Operand));
}

#[test]
fn keywords_are_whole_words() {
    assert_eq!(
        parse("android or order"),
        logic(LogicOperator::Or, name("android", 0), name("order", 11))
    );
    assert_eq!(
        parse("island and nothing"),
        logic(LogicOperator::And, name("island", 0), name("nothing", 11))
    );
    assert_eq!(
        failure("x isolated"),
        Failure {
            kind: ErrorKind::SyntaxError,
            span: Span::new(2, 2),
            expected: Expected::EndOfInput
        }
    );
    assert_eq!(
        failure("and"),
        Failure { kind: ErrorKind::SyntaxError, span: Span::new(0, 0), expected: Expected::Operand }
    );
    assert_eq!(
        failure("1 + in"),
        Failure { kind: ErrorKind::SyntaxError, span: Span::new(4, 4), expected: Expected::Operand }
    );
}

#[test]
fn operators_need_no_white_space() {
    assert_eq!(
        parse("a>=b"),
        logic(LogicOperator::Gte, name("a", 0), name("b", 3))
    );
    assert_eq!(
        parse("1+2*3-4/5"),
        math(
            MathOperator::Sub,
            math(
                MathOperator::Add,
                num(1, 0, 1),
                math(MathOperator::Mul, num(2, 2, 3), num(3, 4, 5)),
            ),
            math(MathOperator::Div, num(4, 6, 7), num(5, 8, 9)),
        )
    );
    assert_eq!(
        parse("(a)or(b)"),
        logic(LogicOperator::Or, name("a", 1), name("b", 6))
    );
    assert_eq!(
        parse("not(a)"),
        spanned(ExprKind::Not(NotExpr { expr: Box::new(name("a", 4)) }), 0, 5)
    );
}

#[test]
fn a_comparison_chain_groups_to_the_left() {
    assert_eq!(
        parse("a < b == c"),
        logic(
            LogicOperator::Eq,
            logic(LogicOperator::Lt, name("a", 0), name("b", 4)),
            name("c", 9),
        )
    );
}
