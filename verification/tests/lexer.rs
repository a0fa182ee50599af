use tera::parser::ast::Span;
use tera::parser::errors::{ErrorKind, Expected, Failure};
use tera::parser::expression::parse_macro_call;
use tera::parser::{Rule, TeraParser};

fn assert_lex_only(rule: Rule, input: &str, check_length: bool) {
    let res = TeraParser::parse_str(rule, input);
    println!("{:?}", input);
    println!("{:#?}", res);
    assert!(res.is_ok());
    if check_length {
        assert_eq!(res.unwrap().end(), input.len());
    }
}

#[test]
fn lex_int() {
    let inputs = vec!["-10", "0", "100", "250000"];
    for i in inputs {
        assert_lex_only(Rule::Int, i, true);
    }
}

#[test]
fn lex_float() {
    let inputs = vec!["123.5", "123.5", "0.1", "-1.1"];
    for i in inputs {
        assert_lex_only(Rule::Float, i, true);
    }
}

#[test]
fn lex_string() {
    let inputs = vec!["\"Blabla\"", "\"123\""];
    for i in inputs {
        assert_lex_only(Rule::String, i, true);
    }
}

#[test]
fn lex_ident() {
    let inputs = vec!["hello", "hello_", "hello_1", "HELLO", "_1"];
    for i in inputs {
        assert_lex_only(Rule::Ident, i, true);
    }

    assert!(TeraParser::parse_str(Rule::Ident, "909").is_err());
}

#[test]
fn lex_dotted_ident() {
    let inputs = vec![
        "hello", "hello_", "hello_1", "HELLO", "_1", "hey.ho", "h", "ho", "hey.ho.hu", "h.u",
    ];
    for i in inputs {
        assert_lex_only(Rule::DottedIdent, i, true);
    }

    let invalid_inputs = vec![".", "9.w"];
    for i in invalid_inputs {
        assert!(TeraParser::parse_str(Rule::DottedIdent, i).is_err());
    }
}

#[test]
fn lex_dotted_ident_stops_before_a_segment_that_starts_with_a_digit() {
    let res = TeraParser::parse_str(Rule::DottedIdent, "hey.0");
    assert_eq!(res.unwrap().end(), 3);
}

#[test]
fn lex_expression() {
    let inputs = vec![
        "1 + 1",
        "1 + 2 + 3 * 9/2 + 2.1",
        "index + 1 > 1",
        "show == false",
        "name == \"bob\"",
        "x is defined",
    ];

    for i in inputs {
        assert_lex_only(Rule::Expression, i, true);
    }
}

#[test]
fn lex_logic_expression() {
    let inputs = vec![
        // expressions still work
        "1 + 1",
        "1 + 2 + 3 * 9/2 + 2.1",
        "index + 1 > 1",
        "show == false",
        "name == \"bob\"",
        // but also logic one
        "not show",
        "1 > 2 or 3 == 4 and admin",
        "not user_count or true",
        "x > 10 or x is defined",
        "x is defined or x > 10",
    ];

    for i in inputs {
        assert_lex_only(Rule::LogicExpression, i, true);
    }
}

#[test]
fn lex_kwarg() {
    let inputs = vec![
        "hello=1",
        "hello=1+1",
        "hello1=true",
        "hello=name",
        "hello=name|filter",
        "hello=name|filter(with_arg=true)",
    ];
    for i in inputs {
        assert_lex_only(Rule::Kwarg, i, false);
    }
}

#[test]
fn lex_kwargs() {
    let inputs = vec![
        "hello=1",
        "hello=1+1,hey=1",
        "hello1=true,name=name,admin=true",
        "hello=name",
        "hello=name|filter,id=1",
        "hello=name|filter(with_arg=true),id=1",
    ];
    for i in inputs {
        assert_lex_only(Rule::Kwargs, i, false);
    }
}

#[test]
fn lex_fn_call() {
    let inputs = vec![
        "fn(hello=1)",
        "fn(hello=1+1,hey=1)",
        "fn(hello1=true,name=name,admin=true)",
        "fn(hello=name)",
        "fn(hello=name|filter,id=1)",
    ];
    for i in inputs {
        assert_lex_only(Rule::FnCall, i, false);
    }
}

#[test]
fn lex_filter() {
    let inputs = vec![
        "|attr",
        "|attr()",
        "|attr(key=1)",
        "|attr(key=1, more=true)",
        "|attr(key=1,more=true)",
    ];
    for i in inputs {
        assert_lex_only(Rule::Filter, i, false);
    }
}

#[test]
fn lex_context_ident() {
    let inputs = vec![
        "hello",
        "hello.hey",
        "hello | attr",
        "hello|attr",
        "hello|attr(key=1)",
        "hello|attr(key=1, more=true)",
        "hello|attr(key=1, more=true)|more",
        "hello|attr(key=1,more=true)|another|more(ok=1)",
    ];
    for i in inputs {
        assert_lex_only(Rule::ContextIdent, i, false);
    }
}

#[test]
fn lex_macro_definition() {
    let inputs = vec![
        "hello()",
        "hello(name, admin)",
        "hello(name, admin=1)",
        "hello(name=\"bob\", admin)",
        "hello(name=\"bob\",admin=true)",
    ];
    for i in inputs {
        assert_lex_only(Rule::MacroDefinition, i, false);
    }
}

#[test]
fn lex_test() {
    let inputs = vec!["is defined", "is defined()", "is divisibleby(2)"];
    for i in inputs {
        assert_lex_only(Rule::Test, i, false);
    }
}

#[test]
fn lex_include_tag() {
    assert!(TeraParser::parse_str(Rule::IncludeTag, "{% include \"index.html\" %}").is_ok());
}

#[test]
fn lex_import_macro_tag() {
    assert!(
        TeraParser::parse_str(Rule::ImportMacroTag, "{% import \"macros.html\" as macros %}")
            .is_ok()
    );
}

#[test]
fn lex_extends_tag() {
    assert!(TeraParser::parse_str(Rule::ExtendsTag, "{% extends \"index.html\" %}").is_ok());
}

#[test]
fn lex_comment_tag() {
    assert!(TeraParser::parse_str(Rule::CommentTag, "{# #comment# #}").is_ok());
}

#[test]
fn lex_block_tag() {
    let inputs = vec!["{% block tag %}", "{% block my_block %}"];
    for i in inputs {
        assert_lex_only(Rule::BlockTag, i, false);
    }
}

#[test]
fn lex_macro_tag() {
    let inputs = vec![
        "{%- macro tag() %}",
        "{% macro my_block(name) -%}",
        "{% macro my_block(name=42) %}",
    ];
    for i in inputs {
        assert_lex_only(Rule::MacroTag, i, false);
    }
}

#[test]
fn lex_if_tag() {
    let inputs = vec![
        "{%- if name %}",
        "{% if true -%}",
        "{% if admin or show %}",
        "{% if 1 + 2 == 2 and true %}",
        "{% if 1 + 2 == 2 and admin is defined %}",
    ];
    for i in inputs {
        assert_lex_only(Rule::IfTag, i, false);
    }
}

#[test]
fn lex_elif_tag() {
    let inputs = vec![
        "{%- elif name %}",
        "{% elif true -%}",
        "{% elif admin or show %}",
        "{% elif 1 + 2 == 2 and true %}",
        "{% elif 1 + 2 == 2 and admin is defined %}",
    ];
    for i in inputs {
        assert_lex_only(Rule::ElifTag, i, false);
    }
}

#[test]
fn lex_else_tag() {
    assert!(TeraParser::parse_str(Rule::ElseTag, "{% else %}").is_ok());
}

#[test]
fn lex_for_tag() {
    let inputs = vec![
        "{%- for a in array %}",
        "{% for a, b in object -%}",
        "{% for a, b in fn_call() %}",
        "{% for a in fn_call() %}",
        "{% for a,b in fn_call(with_args=true, name=name) %}",
    ];

    for i in inputs {
        assert_lex_only(Rule::ForTag, i, false);
    }
}

#[test]
fn lex_set_tag() {
    let inputs = vec![
        "{%- set a = true %}",
        "{% set a = object -%}",
        "{% set a = fn_call() %}",
        "{% set a = fn_call(with_args=true, name=name) %}",
        "{% set a = macros::fn_call(with_args=true, name=name) %}",
        "{% set a = var | caps %}",
        "{% set a = var +1 >= 2%}",
    ];

    for i in inputs {
        assert_lex_only(Rule::SetTag, i, false);
    }
}

#[test]
fn lex_variable_tag() {
    let inputs = vec![
        "{{ a }}",
        "{{ a | caps }}",
        "{{ fn_call() }}",
        "{{ macros::fn() }}",
        "{{ name + 42 }}",
        "{{ name is defined and name >= 42 }}",
    ];

    for i in inputs {
        assert_lex_only(Rule::VariableTag, i, false);
    }
}

#[test]
fn rules_match_the_whole_of_a_well_formed_tag() {
    let cases = vec![
        (Rule::Kwarg, "hello=name|filter(with_arg=true)"),
        (Rule::Kwargs, "hello=name|filter(with_arg=true),id=1"),
        (Rule::FnCall, "fn(hello=name|filter,id=1)"),
        (Rule::Filter, "|attr(key=1, more=true)"),
        (Rule::ContextIdent, "hello|attr(key=1,more=true)|another|more(ok=1)"),
        (Rule::MacroDefinition, "hello(name=\"bob\", admin)"),
        (Rule::Test, "is divisibleby(2)"),
        (Rule::CommentTag, "{# #comment# #}"),
        (Rule::IncludeTag, "{% include \"index.html\" %}"),
        (Rule::ImportMacroTag, "{% import \"macros.html\" as macros %}"),
        (Rule::ExtendsTag, "{% extends \"index.html\" %}"),
        (Rule::BlockTag, "{% block my_block %}"),
        (Rule::EndblockTag, "{% endblock my_block %}"),
        (Rule::MacroTag, "{% macro my_block(name) -%}"),
        (Rule::EndmacroTag, "{% endmacro %}"),
        (Rule::IfTag, "{% if 1 + 2 == 2 and admin is defined %}"),
        (Rule::ElifTag, "{% elif true -%}"),
        (Rule::ElseTag, "{% else %}"),
        (Rule::EndifTag, "{%- endif -%}"),
        (Rule::ForTag, "{% for a,b in fn_call(with_args=true, name=name) %}"),
        (Rule::EndforTag, "{% endfor %}"),
        (Rule::SetTag, "{% set a = var +1 >= 2%}"),
        (Rule::VariableTag, "{{ name is defined and name >= 42 }}"),
        (Rule::FilterTag, "{% filter upper %}"),
        (Rule::FilterTag, "{% filter truncate(length=3) %}"),
        (Rule::EndfilterTag, "{% endfilter %}"),
        (Rule::RawTag, "{% raw %}"),
        (Rule::EndrawTag, "{% endraw %}"),
    ];
    for (rule, input) in cases {
        assert_lex_only(rule, input, true);
    }
}

#[test]
fn a_rule_matches_a_prefix_and_leaves_the_rest() {
    assert_eq!(TeraParser::parse_str(Rule::Int, "123.5").unwrap().end(), 3);
    assert_eq!(TeraParser::parse_str(Rule::Int, "12ab").unwrap().end(), 2);
    assert_eq!(TeraParser::parse_str(Rule::Ident, "hello world").unwrap().end(), 5);
    assert_eq!(TeraParser::parse_str(Rule::DottedIdent, "a.b. c").unwrap().end(), 3);
    assert_eq!(TeraParser::parse_str(Rule::Expression, "1 + 1 and 2").unwrap().end(), 5);
    assert_eq!(TeraParser::parse_str(Rule::String, "\"a\"b\"").unwrap().end(), 3);
}

#[test]
fn a_rule_fails_on_what_another_rule_matches() {
    assert!(TeraParser::parse_str(Rule::Float, "123").is_err());
    assert!(TeraParser::parse_str(Rule::Float, "123.").is_err());
    assert!(TeraParser::parse_str(Rule::Int, "-").is_err());
    assert!(TeraParser::parse_str(Rule::Int, "").is_err());
    assert!(TeraParser::parse_str(Rule::String, "\"open").is_err());
    assert!(TeraParser::parse_str(Rule::Ident, "").is_err());
    assert!(TeraParser::parse_str(Rule::IfTag, "{% for a in b %}").is_err());
    assert!(TeraParser::parse_str(Rule::VariableTag, "{% if a %}").is_err());
    assert!(TeraParser::parse_str(Rule::IfTag, "{% if %}").is_err());
    assert!(TeraParser::parse_str(Rule::CommentTag, "{# open").is_err());
    assert!(TeraParser::parse_str(Rule::MacroTag, "{% macro hello(name=\"bob\", admin) %}").is_err());
}

#[test]
fn a_rule_that_fails_says_what_it_expected() {
    let syntax = |at: usize, expected: Expected| Failure {
        kind: ErrorKind::SyntaxError,
        span: Span::new(at, at),
        expected,
    };
    let lexical = |at: usize, expected: Expected| Failure {
        kind: ErrorKind::LexicalError,
        span: Span::new(at, at),
        expected,
    };
    let failure = |rule: Rule, input: &str| TeraParser::parse_str(rule, input).unwrap_err();
    assert_eq!(failure(Rule::Int, "x"), syntax(0, Expected::Integer));
    assert_eq!(failure(Rule::Int, "-"), syntax(0, Expected::Integer));
    assert_eq!(failure(Rule::Int, ""), syntax(0, Expected::Integer));
    assert_eq!(failure(Rule::Float, "123"), syntax(0, Expected::Float));
    assert_eq!(failure(Rule::Float, "~1.5"), lexical(0, Expected::Float));
    assert_eq!(failure(Rule::String, "abc"), syntax(0, Expected::StringLiteral));
    assert_eq!(failure(Rule::String, "\"abc"), lexical(0, Expected::ClosingQuote));
    assert_eq!(failure(Rule::Ident, "909"), lexical(0, Expected::Identifier));
    assert_eq!(failure(Rule::Ident, ".a"), syntax(0, Expected::Identifier));
    assert_eq!(failure(Rule::DottedIdent, "."), syntax(0, Expected::Identifier));
    assert_eq!(failure(Rule::DottedIdent, "9.w"), lexical(0, Expected::Identifier));
    assert_eq!(failure(Rule::Kwarg, "a:1"), syntax(1, Expected::Assign));
    assert_eq!(failure(Rule::FnCall, "f"), syntax(1, Expected::ParenOpen));
    assert_eq!(failure(Rule::FnCall, "f(a=1"), syntax(5, Expected::CommaOrParenClose));
    assert_eq!(failure(Rule::Filter, "attr"), syntax(0, Expected::Pipe));
    assert_eq!(failure(Rule::Test, "defined"), syntax(0, Expected::KeywordIs));
    assert_eq!(failure(Rule::Test, "island"), syntax(0, Expected::KeywordIs));
    assert_eq!(failure(Rule::MacroDefinition, "m"), syntax(1, Expected::ParenOpen));
    assert_eq!(failure(Rule::CommentTag, "x"), syntax(0, Expected::CommentOpen));
    assert_eq!(failure(Rule::CommentTag, "{# x"), lexical(0, Expected::CommentClose));
    assert_eq!(failure(Rule::IfTag, "if a"), syntax(0, Expected::TagOpen));
    assert_eq!(failure(Rule::IfTag, "{% for a in b %}"), syntax(0, Expected::TagKeyword));
    assert_eq!(failure(Rule::IfTag, "{% if a"), syntax(7, Expected::TagClose));
    assert_eq!(failure(Rule::VariableTag, "{{ a"), syntax(4, Expected::VariableClose));
    assert_eq!(failure(Rule::Expression, "(a"), syntax(2, Expected::ParenClose));
    assert_eq!(failure(Rule::Expression, "+"), syntax(0, Expected::Operand));
    assert_eq!(failure(Rule::ForTag, "{% for a of b %}"), syntax(9, Expected::KeywordIn));
    assert_eq!(
        failure(Rule::ImportMacroTag, "{% import \"a\" %}"),
        syntax(14, Expected::KeywordAs)
    );
    assert_eq!(parse_macro_call("macros.input()", 0).unwrap_err(), syntax(6, Expected::PathSeparator));
    assert_eq!(
        failure(Rule::MacroTag, "{% macro m(a=1, b) %}"),
        Failure {
            kind: ErrorKind::SyntaxError,
            span: Span::new(9, 18),
            expected: Expected::DefaultValue
        }
    );
}
