use tera::parser::ast::{ExprKind, Node};
use tera::parser::TeraParser;

#[test]
fn a_clone_of_a_tree_equals_the_tree() {
    let input = "{% extends \"base.html\" %}{% import \"m.html\" as m %}\
        {% macro input(label, size=2) %}{{ label | upper(a=1) }}{% endmacro %}\
        {% block body %}{% for k, v in items %}{% if v is odd(1) and not k %}{{ m::row(v=v) }}\
        {% elif k > 1.5 %}{% raw %}{{ x }}{% endraw %}{% else %}{{ super() }}{% endif %}\
        {% endfor %}{% filter trim(side=\"left\") %} text {% endfilter %}\
        {% set total = (1 + 2) * f(x=true) %}{% include \"x.html\" %}{% endblock %}";
    let tree = TeraParser::parse("page.html", input).unwrap();
    let copy = tree.clone();
    assert_eq!(copy, tree);
    match &tree {
        Node::Template(nodes) => {
            assert_eq!(nodes.len(), 4);
            for node in nodes {
                assert_eq!(&node.clone(), node);
            }
        }
        other => panic!("not a template: {:?}", other),
    }
}

#[test]
fn a_clone_of_an_expression_equals_the_expression() {
    let inputs = vec![
        "1 + 2 * 3",
        "a.b | f(x=1, y=\"s\") | g",
        "not x is divisibleby(2, 3) or m::f(a=-1.5) and true",
        "range(end=5)",
    ];
    for input in inputs {
        let parsed = TeraParser::parse_expression(input).unwrap();
        assert_eq!(parsed.clone(), parsed);
        let kind: ExprKind = parsed.node.clone();
        assert_eq!(kind, parsed.node);
    }
}
