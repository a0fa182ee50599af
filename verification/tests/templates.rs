use tera::parser::ast::{
    Block, Branch, Expr, ExprKind, Filter, FilterSection, Forloop, FunctionCall, Ident, If, Kwarg,
    LitKind, LogicExpr, LogicOperator, MacroDefinition, MacroParam, Node, SetVariable, Span,
    Spanned,
};
use tera::parser::errors::{ErrorKind, Expected, Failure, ParseError};
use tera::parser::TeraParser;

fn var(name: &str, start: usize) -> Expr {
    Spanned {
        node: ExprKind::Ident(Ident { name: name.to_string(), filters: vec![] }),
        span: Span::new(start, start + name.len()),
    }
}

fn number(value: i64, start: usize, end: usize) -> Expr {
    let span = Span::new(start, end);
    Spanned { node: ExprKind::Lit(Spanned { node: LitKind::Int(value), span }), span }
}

fn text(s: &str) -> Node {
    Node::Text(s.to_string())
}

fn template(input: &str) -> Vec<Node> {
    match TeraParser::parse("test.html", input) {
        Ok(Node::Template(nodes)) => nodes,
        other => panic!("not a template: {:?}", other),
    }
}

fn error(input: &str) -> ParseError {
    TeraParser::parse("test.html", input).unwrap_err()
}

fn conditional(condition: Expr, body: Vec<Node>) -> Node {
    Node::If(If { branches: vec![Branch { condition, body }], otherwise: None })
}

fn structural(start: usize, end: usize, expected: Expected) -> Failure {
    Failure { kind: ErrorKind::StructuralError, span: Span::new(start, end), expected }
}

#[test]
fn plain_text_is_one_text_node() {
    assert_eq!(template("hello world"), vec![text("hello world")]);
    assert_eq!(template(""), vec![]);
    assert_eq!(template("a { b } c %} }}"), vec![text("a { b } c %} }}")]);
    assert_eq!(template("caf\u{e9} {"), vec![text("caf\u{e9} {")]);
}

#[test]
fn an_if_with_its_endif() {
    assert_eq!(template("{% if a %}{% endif %}"), vec![conditional(var("a", 6), vec![])]);
}

#[test]
fn an_if_without_endif_names_the_span_of_the_if() {
    let e = error("{% if a %}");
    assert_eq!(e.failure, structural(0, 10, Expected::ClosingTag));
    assert_eq!(e.template_name, "test.html");
    assert_eq!((e.line, e.column), (1, 1));
    assert_eq!(e.kind(), ErrorKind::StructuralError);
    assert_eq!(e.offset(), 0);

    let e = error("some text\n  {% if a %}body{% if b %}{% endif %}");
    assert_eq!(e.failure, structural(12, 22, Expected::ClosingTag));
    assert_eq!((e.line, e.column), (2, 3));
}

#[test]
fn trim_markers_strip_the_white_space_beside_them() {
    assert_eq!(
        template("{%- if x -%}\n  text\n{%- endif %}"),
        vec![conditional(var("x", 7), vec![text("text")])]
    );
    assert_eq!(
        template("a \n{%- if x -%}\n  te  xt\n{%- endif %}\n b"),
        vec![text("a"), conditional(var("x", 10), vec![text("te  xt")]), text("\n b")]
    );
    assert_eq!(
        template("a \n{% if x %}\n  text\n{% endif -%}\n b"),
        vec![text("a \n"), conditional(var("x", 9), vec![text("\n  text\n")]), text("b")]
    );
    assert_eq!(
        template("a {{- x -}} b {{ y }} c"),
        vec![
            text("a"),
            Node::VariableBlock(var("x", 6)),
            text("b "),
            Node::VariableBlock(var("y", 17)),
            text(" c"),
        ]
    );
    assert_eq!(
        template("{{ x -}}   \n\t {{- y }}"),
        vec![Node::VariableBlock(var("x", 3)), Node::VariableBlock(var("y", 18))]
    );
}

#[test]
fn extends_and_include_keep_the_file_name() {
    assert_eq!(
        template("{% extends \"base.html\" %}"),
        vec![Node::Extends("base.html".to_string())]
    );
    assert_eq!(template("{% include \"x.html\" %}"), vec![Node::Include("x.html".to_string())]);
    assert_eq!(
        template("{% import \"macros.html\" as macros %}"),
        vec![Node::ImportMacro("macros.html".to_string(), "macros".to_string())]
    );
}

#[test]
fn a_comment_leaves_no_node() {
    assert_eq!(template("a{# note #}b"), vec![text("a"), text("b")]);
    assert_eq!(template("{# {{ x }} {% if %} #}"), vec![]);
    assert_eq!(template("{##}"), vec![]);
    let e = error("a\n{# open");
    assert_eq!(
        e.failure,
        Failure {
            kind: ErrorKind::LexicalError,
            span: Span::new(2, 2),
            expected: Expected::CommentClose
        }
    );
    assert_eq!((e.line, e.column), (2, 1));
}

#[test]
fn a_raw_block_keeps_its_content_as_it_is() {
    assert_eq!(
        template("{% raw %}{{ x }} {% if %}{% endraw %}"),
        vec![Node::Raw("{{ x }} {% if %}".to_string())]
    );
    assert_eq!(
        template("a{% raw -%}  b  {%- endraw %}c"),
        vec![text("a"), Node::Raw("b".to_string()), text("c")]
    );
    assert_eq!(template("{% raw %}{% endraw %}"), vec![Node::Raw(String::new())]);
    assert_eq!(error("{% raw %} x").failure, structural(0, 9, Expected::ClosingTag));
    assert_eq!(error("{% endraw %}").failure, structural(0, 12, Expected::OpeningTag));
}

#[test]
fn a_variable_tag_holds_its_expression() {
    assert_eq!(template("{{ name }}"), vec![Node::VariableBlock(var("name", 3))]);
    assert_eq!(template("{{-1}}"), vec![Node::VariableBlock(number(1, 3, 4))]);
    assert_eq!(template("{{ -1 }}"), vec![Node::VariableBlock(number(-1, 3, 5))]);
    assert_eq!(template("{{ super() }}"), vec![Node::Super]);
    assert_eq!(
        template("{{ super(a=1) }}"),
        vec![Node::VariableBlock(Spanned {
            node: ExprKind::FunctionCall(FunctionCall {
                name: "super".to_string(),
                params: vec![Kwarg { name: "a".to_string(), value: number(1, 11, 12) }],
            }),
            span: Span::new(3, 13),
        })]
    );
}

#[test]
fn a_set_tag_holds_name_and_value() {
    assert_eq!(
        template("{% set a = 1 %}"),
        vec![Node::SetVariable(SetVariable { ident: "a".to_string(), value: number(1, 11, 12) })]
    );
}

#[test]
fn an_if_chain_with_elif_and_else() {
    assert_eq!(
        template("{% if a %}1{% elif b %}2{% elif c %}3{% else %}4{% endif %}5"),
        vec![
            Node::If(If {
                branches: vec![
                    Branch { condition: var("a", 6), body: vec![text("1")] },
                    Branch { condition: var("b", 19), body: vec![text("2")] },
                    Branch { condition: var("c", 32), body: vec![text("3")] },
                ],
                otherwise: Some(vec![text("4")]),
            }),
            text("5"),
        ]
    );
    assert_eq!(
        template("{% if a %}{% else %}{% endif %}"),
        vec![Node::If(If {
            branches: vec![Branch { condition: var("a", 6), body: vec![] }],
            otherwise: Some(vec![]),
        })]
    );
}

#[test]
fn a_closing_tag_closes_the_innermost_block() {
    assert_eq!(
        template("{% if a %}x{% if b %}y{% endif %}z{% endif %}w"),
        vec![
            conditional(
                var("a", 6),
                vec![text("x"), conditional(var("b", 17), vec![text("y")]), text("z")],
            ),
            text("w"),
        ]
    );
    assert_eq!(
        template("{% for i in items %}{% for j in i %}{{ j }}{% endfor %}{% endfor %}"),
        vec![Node::For(Forloop {
            key: None,
            value: "i".to_string(),
            container: var("items", 12),
            body: vec![Node::For(Forloop {
                key: None,
                value: "j".to_string(),
                container: var("i", 32),
                body: vec![Node::VariableBlock(var("j", 39))],
            })],
        })]
    );
}

#[test]
fn a_for_loop_with_one_or_two_names() {
    assert_eq!(
        template("{% for k, v in map %}{{ k }}{% endfor %}"),
        vec![Node::For(Forloop {
            key: Some("k".to_string()),
            value: "v".to_string(),
            container: var("map", 15),
            body: vec![Node::VariableBlock(var("k", 24))],
        })]
    );
}

#[test]
fn blocks_macros_and_filter_sections() {
    assert_eq!(
        template("{% block title %}Hi{% endblock title %}"),
        vec![Node::Block(Block { name: "title".to_string(), body: vec![text("Hi")] })]
    );
    assert_eq!(
        template("{% macro input(label, size=2) %}x{% endmacro input %}"),
        vec![Node::MacroDefinition(MacroDefinition {
            name: "input".to_string(),
            params: vec![
                MacroParam { name: "label".to_string(), default: None },
                MacroParam { name: "size".to_string(), default: Some(number(2, 27, 28)) },
            ],
            body: vec![text("x")],
        })]
    );
    assert_eq!(
        template("{% filter truncate(length=3) %}abcdef{% endfilter %}"),
        vec![Node::FilterSection(FilterSection {
            name: "truncate".to_string(),
            params: vec![Kwarg { name: "length".to_string(), value: number(3, 26, 27) }],
            body: vec![text("abcdef")],
        })]
    );
    assert_eq!(
        template("{% filter upper %}{% endfilter %}"),
        vec![Node::FilterSection(FilterSection {
            name: "upper".to_string(),
            params: vec![],
            body: vec![],
        })]
    );
}

#[test]
fn a_filtered_condition_in_a_tag() {
    assert_eq!(
        template("{% if user.name | length > 3 and admin %}{% endif %}"),
        vec![conditional(
            Spanned {
                node: ExprKind::Logic(LogicExpr {
                    lhs: Box::new(Spanned {
                        node: ExprKind::Logic(LogicExpr {
                            lhs: Box::new(Spanned {
                                node: ExprKind::Ident(Ident {
                                    name: "user.name".to_string(),
                                    filters: vec![Filter {
                                        name: "length".to_string(),
                                        params: vec![],
                                    }],
                                }),
                                span: Span::new(6, 24),
                            }),
                            rhs: Box::new(number(3, 27, 28)),
                            operator: LogicOperator::Gt,
                        }),
                        span: Span::new(6, 28),
                    }),
                    rhs: Box::new(var("admin", 33)),
                    operator: LogicOperator::And,
                }),
                span: Span::new(6, 38),
            },
            vec![],
        )]
    );
}

#[test]
fn a_macro_parameter_without_default_after_one_with_default_is_rejected() {
    let e = error("{% macro hello(name=\"bob\", admin) %}{% endmacro %}");
    assert_eq!(
        e.failure,
        Failure {
            kind: ErrorKind::SyntaxError,
            span: Span::new(9, 33),
            expected: Expected::DefaultValue
        }
    );
}

#[test]
fn tags_without_their_block_are_structural_errors() {
    assert_eq!(error("{% endif %}").failure, structural(0, 11, Expected::OpeningTag));
    assert_eq!(error("a{% else %}").failure, structural(1, 11, Expected::OpeningTag));
    assert_eq!(error("{% elif x %}").failure, structural(0, 12, Expected::OpeningTag));
    assert_eq!(error("{% endfor %}").failure, structural(0, 12, Expected::OpeningTag));
    assert_eq!(error("{% endblock %}").failure, structural(0, 14, Expected::OpeningTag));
    assert_eq!(error("{% endmacro %}").failure, structural(0, 14, Expected::OpeningTag));
    assert_eq!(error("{% endfilter %}").failure, structural(0, 15, Expected::OpeningTag));
    assert_eq!(
        error("{% if a %}{% endif %}{% endif %}").failure,
        structural(21, 32, Expected::OpeningTag)
    );
}

#[test]
fn a_block_closed_by_the_wrong_tag_is_unclosed() {
    assert_eq!(
        error("{% for a in b %}{% endif %}").failure,
        structural(0, 16, Expected::ClosingTag)
    );
    assert_eq!(
        error("{% if a %}{% for x in y %}{% endif %}{% endfor %}").failure,
        structural(10, 26, Expected::ClosingTag)
    );
    assert_eq!(
        error("{% if a %}{% else %}{% else %}{% endif %}").failure,
        structural(0, 10, Expected::ClosingTag)
    );
    assert_eq!(error("{% block a %}").failure, structural(0, 13, Expected::ClosingTag));
    assert_eq!(error("{% macro a() %}x").failure, structural(0, 15, Expected::ClosingTag));
    assert_eq!(error("{% filter a %}x").failure, structural(0, 14, Expected::ClosingTag));
    assert_eq!(
        error("{% if a %}{% elif b %}").failure,
        structural(0, 10, Expected::ClosingTag)
    );
}

#[test]
fn syntax_errors_in_tags() {
    let syntax = |at: usize, expected: Expected| Failure {
        kind: ErrorKind::SyntaxError,
        span: Span::new(at, at),
        expected,
    };
    assert_eq!(error("{% if %}").failure, syntax(6, Expected::Operand));
    assert_eq!(error("{% unknown %}").failure, syntax(3, Expected::TagKeyword));
    assert_eq!(error("{% %}").failure, syntax(3, Expected::TagKeyword));
    assert_eq!(error("{% if (a %}{% endif %}").failure, syntax(9, Expected::ParenClose));
    assert_eq!(error("{% if a }}").failure, syntax(8, Expected::TagClose));
    assert_eq!(error("{{ a %}").failure, syntax(5, Expected::VariableClose));
    assert_eq!(error("{{ a").failure, syntax(4, Expected::VariableClose));
    assert_eq!(error("{% for a b %}").failure, syntax(9, Expected::KeywordIn));
    assert_eq!(error("{% for a, in b %}").failure, syntax(13, Expected::KeywordIn));
    assert_eq!(error("{% set a 1 %}").failure, syntax(9, Expected::Assign));
    assert_eq!(error("{% import \"m\" macros %}").failure, syntax(14, Expected::KeywordAs));
    assert_eq!(error("{% extends base %}").failure, syntax(11, Expected::StringLiteral));
    assert_eq!(error("{% block %}").failure, syntax(9, Expected::Identifier));
    assert_eq!(error("{% macro a %}").failure, syntax(10, Expected::ParenOpen));
}

#[test]
fn lexical_errors_in_tags() {
    let lexical = |at: usize, expected: Expected| Failure {
        kind: ErrorKind::LexicalError,
        span: Span::new(at, at),
        expected,
    };
    assert_eq!(error("{% set 9a = 1 %}").failure, lexical(7, Expected::Identifier));
    assert_eq!(error("{% include \"open %}").failure, lexical(11, Expected::ClosingQuote));
    assert_eq!(error("{{ a ? b }}").failure, lexical(5, Expected::VariableClose));
    assert_eq!(error("{% if a $ %}").failure, lexical(8, Expected::TagClose));
}

#[test]
fn an_error_carries_line_and_column() {
    let e = error("line1\nline2 {{ @ }}");
    assert_eq!(e.offset(), 15);
    assert_eq!((e.line, e.column), (2, 10));
    assert_eq!(e.kind(), ErrorKind::LexicalError);

    let e = error("\u{e9}\n{{ \u{e9} }}");
    assert_eq!(e.offset(), 6);
    assert_eq!((e.line, e.column), (2, 4));

    let e = error("\u{e9}\u{e9}\u{e9} {{ ) }}");
    assert_eq!(e.offset(), 10);
    assert_eq!((e.line, e.column), (1, 8));

    let e = error("a\n\n\n{% if x %}\n");
    assert_eq!(e.offset(), 4);
    assert_eq!((e.line, e.column), (4, 1));

    let e = error("{{ a\n");
    assert_eq!(e.offset(), 5);
    assert_eq!((e.line, e.column), (2, 1));
}

#[test]
fn a_whole_page() {
    let nodes = template(
        "{% extends \"base.html\" %}\n{% block content -%}\n  <h1>{{ title | upper }}</h1>\n{%- endblock content %}\n",
    );
    assert_eq!(
        nodes,
        vec![
            Node::Extends("base.html".to_string()),
            text("\n"),
            Node::Block(Block {
                name: "content".to_string(),
                body: vec![
                    text("<h1>"),
                    Node::VariableBlock(Spanned {
                        node: ExprKind::Ident(Ident {
                            name: "title".to_string(),
                            filters: vec![Filter { name: "upper".to_string(), params: vec![] }],
                        }),
                        span: Span::new(56, 69),
                    }),
                    text("</h1>"),
                ],
            }),
            text("\n"),
        ]
    );
}

#[test]
fn tags_need_no_white_space_inside() {
    assert_eq!(
        template("{%if a%}x{%endif%}"),
        vec![conditional(var("a", 5), vec![text("x")])]
    );
    assert_eq!(
        template("{%-if a-%} x {%-endif-%}"),
        vec![conditional(var("a", 6), vec![text("x")])]
    );
    assert_eq!(template("{{a}}"), vec![Node::VariableBlock(var("a", 2))]);
    assert_eq!(template("{{-a-}}"), vec![Node::VariableBlock(var("a", 3))]);
}

#[test]
fn a_minus_before_a_closing_delimiter_is_a_trim_marker_only_when_it_touches_it() {
    let syntax = |at: usize, expected: Expected| Failure {
        kind: ErrorKind::SyntaxError,
        span: Span::new(at, at),
        expected,
    };
    assert_eq!(template("{{ a -}}"), vec![Node::VariableBlock(var("a", 3))]);
    assert_eq!(error("{{ a - }}").failure, syntax(7, Expected::Operand));
    assert_eq!(error("{% if a - %}{% endif %}").failure, syntax(10, Expected::Operand));
}

#[test]
fn text_that_is_not_ascii_is_cut_between_characters() {
    assert_eq!(
        template("\u{e9}t\u{e9} \u{4e16}\u{754c} {{- x }}\u{1f600}{# \u{e9} #}\u{e9}"),
        vec![
            text("\u{e9}t\u{e9} \u{4e16}\u{754c}"),
            Node::VariableBlock(var("x", 17)),
            text("\u{1f600}"),
            text("\u{e9}"),
        ]
    );
    assert_eq!(
        template("{% raw %}\u{e9}{% endraw %}"),
        vec![Node::Raw("\u{e9}".to_string())]
    );
    assert_eq!(
        template("{% include \"caf\u{e9}.html\" %}"),
        vec![Node::Include("caf\u{e9}.html".to_string())]
    );
}

#[test]
fn an_unknown_or_misplaced_keyword_in_a_tag() {
    let syntax = |at: usize, expected: Expected| Failure {
        kind: ErrorKind::SyntaxError,
        span: Span::new(at, at),
        expected,
    };
    assert_eq!(error("{% iffy %}").failure, syntax(3, Expected::TagKeyword));
    assert_eq!(error("{% if%}").failure, syntax(5, Expected::Operand));
    assert_eq!(error("a{{").failure, syntax(3, Expected::Operand));
    assert_eq!(error("{% endraw").failure, syntax(9, Expected::TagClose));
}

#[test]
fn a_long_template() {
    let unit = "{% if a %}x{{ b | f(c=1) }}{% endif %}\n";
    let input = unit.repeat(5000);
    let nodes = template(&input);
    assert_eq!(nodes.len(), 10000);
    assert_eq!(
        nodes[0],
        conditional(
            var("a", 6),
            vec![
                text("x"),
                Node::VariableBlock(Spanned {
                    node: ExprKind::Ident(Ident {
                        name: "b".to_string(),
                        filters: vec![Filter {
                            name: "f".to_string(),
                            params: vec![Kwarg { name: "c".to_string(), value: number(1, 22, 23) }],
                        }],
                    }),
                    span: Span::new(14, 24),
                }),
            ],
        )
    );
    assert_eq!(nodes[9999], text("\n"));

    let e = error(&(input + "{% if a %}"));
    assert_eq!(e.offset(), 5000 * unit.len());
    assert_eq!((e.line, e.column), (5001, 1));
}

#[test]
fn blocks_nested_a_hundred_deep() {
    let depth = 100;
    let mut input = String::new();
    for _ in 0..depth {
        input.push_str("{% for a in b %}{% if c %}");
    }
    input.push_str("x");
    for _ in 0..depth {
        input.push_str("{% endif %}{% endfor %}");
    }
    let mut nodes = template(&input);
    for _ in 0..depth {
        assert_eq!(nodes.len(), 1);
        let inner = match nodes.pop().unwrap() {
            Node::For(f) => f.body,
            other => panic!("not a for: {:?}", other),
        };
        nodes = inner;
        assert_eq!(nodes.len(), 1);
        let inner = match nodes.pop().unwrap() {
            Node::If(mut i) => i.branches.pop().unwrap().body,
            other => panic!("not an if: {:?}", other),
        };
        nodes = inner;
    }
    assert_eq!(nodes, vec![text("x")]);
}
