use tera::parser::ast::{LogicOperator, MathOperator};

#[test]
fn math_operator_symbols() {
    assert_eq!(MathOperator::Add.to_string(), "+");
    assert_eq!(MathOperator::Sub.to_string(), "-");
    assert_eq!(MathOperator::Mul.to_string(), "*");
    assert_eq!(MathOperator::Div.to_string(), "/");
}

#[test]
fn logic_operator_symbols() {
    assert_eq!(LogicOperator::Gt.to_string(), ">");
    assert_eq!(LogicOperator::Gte.to_string(), ">=");
    assert_eq!(LogicOperator::Lt.to_string(), "<");
    assert_eq!(LogicOperator::Lte.to_string(), "<=");
    assert_eq!(LogicOperator::Eq.to_string(), "==");
    assert_eq!(LogicOperator::NotEq.to_string(), "!=");
    assert_eq!(LogicOperator::And.to_string(), "and");
    assert_eq!(LogicOperator::Or.to_string(), "or");
}
