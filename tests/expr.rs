use catalyst::expr::{binary, literal, unary, Expression, Literal};
use catalyst::types::DataType;

fn int_lit(v: i32) -> Expression {
    literal(Literal::Integer(Some(v)))
}

fn bool_lit(v: bool) -> Expression {
    literal(Literal::Boolean(Some(v)))
}

fn add(l: Expression, r: Expression) -> Expression {
    binary(String::from("ADD"), String::from("+"), l, r)
}

fn sub(l: Expression, r: Expression) -> Expression {
    binary(String::from("SUB"), String::from("-"), l, r)
}

fn mul(l: Expression, r: Expression) -> Expression {
    binary(String::from("MUL"), String::from("*"), l, r)
}

fn div(l: Expression, r: Expression) -> Expression {
    binary(String::from("DIV"), String::from("/"), l, r)
}

#[test]
fn test_arithmetic_expression_tree_resolve() {
    // Resolved expressions

    let t = add(int_lit(1), int_lit(2));
    assert!(t.resolved());

    let t = sub(int_lit(1), int_lit(2));
    assert!(t.resolved());

    let t = mul(int_lit(1), int_lit(2));
    assert!(t.resolved());

    let t = div(int_lit(1), int_lit(2));
    assert!(t.resolved());

    // Unresolved expressions

    let t = add(int_lit(1), bool_lit(true));
    assert!(!t.resolved());

    let t = sub(int_lit(1), bool_lit(true));
    assert!(!t.resolved());

    let t = mul(bool_lit(true), int_lit(2));
    assert!(!t.resolved());

    let t = div(bool_lit(true), int_lit(2));
    assert!(!t.resolved());
}

#[test]
fn expression_pretty_string() {
    let t = add(int_lit(1), sub(int_lit(-20), int_lit(3)));
    assert_eq!(t.pretty_string(), "(1 + (-20 - 3))");
    let t = unary(String::from("NOT"), String::from("!"), bool_lit(true));
    assert_eq!(t.pretty_string(), "(!true)");
    let t = literal(Literal::Text(Some(String::from("abc"))));
    assert_eq!(t.pretty_string(), "\"abc\"");
    let t = literal(Literal::Long(None));
    assert_eq!(t.pretty_string(), "null");
    let t = literal(Literal::Long(Some(i64::MIN)));
    assert_eq!(t.pretty_string(), "-9223372036854775808");
}

#[test]
fn expression_properties() {
    let t = add(int_lit(1), literal(Literal::Integer(None)));
    assert!(t.foldable());
    assert!(t.deterministic());
    assert!(t.nullable());
    assert!(!add(int_lit(1), int_lit(2)).nullable());
    let t = unary(String::from("NEG"), String::from("-"), literal(Literal::Short(None)));
    assert!(t.nullable());
    assert_eq!(t.data_type(), DataType::ShortType);
    assert_eq!(add(int_lit(1), int_lit(2)).data_type(), DataType::IntegerType);
    assert_eq!(t.children().len(), 1);
}

#[test]
fn literal_values() {
    assert_eq!(Literal::Boolean(Some(true)).is_null(), false);
    assert_eq!(Literal::Byte(None).is_null(), true);
    assert_eq!(Literal::Byte(Some(-7)).text(), "-7");
    assert_eq!(Literal::Short(Some(1)).text(), "1");
    assert_eq!(Literal::Boolean(Some(false)).text(), "false");
    assert_eq!(Literal::Text(None).text(), "null");
    assert_eq!(Literal::Integer(Some(1)).data_type(), DataType::IntegerType);
    assert_eq!(Literal::Text(None).data_type(), DataType::StringType);
}
