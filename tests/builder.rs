use inter::error::BuildError;
use inter::expr::{BinOp, Expr, Literal};
use inter::json::Json;
use inter::Program;

fn s(x: &str) -> Json {
    Json::String(x.to_string())
}

fn obj(members: Vec<(&str, Json)>) -> Json {
    Json::Object(members.into_iter().map(|(k, v)| (k.to_string(), v)).collect())
}

fn int_lit(n: i64) -> Json {
    obj(vec![("type", s("Literal")), ("value", Json::Int(n))])
}

fn ident(name: &str) -> Json {
    obj(vec![("type", s("Identifier")), ("name", s(name))])
}

fn build_err(j: &Json) -> Option<BuildError> {
    Expr::new(j).err()
}

#[test]
fn missing_or_unknown_type_is_refused() {
    assert_eq!(build_err(&obj(vec![("value", Json::Int(1))])), Some(BuildError::MissingType));
    assert_eq!(build_err(&obj(vec![("type", Json::Int(1))])), Some(BuildError::MissingType));
    assert_eq!(build_err(&obj(vec![("type", s("ArrayExpression"))])), Some(BuildError::UnknownType));
    assert_eq!(build_err(&Json::Null), Some(BuildError::MissingType));
}

#[test]
fn missing_fields_and_unknown_operators_are_refused() {
    let no_right = obj(vec![("type", s("BinaryExpression")), ("operator", s("+")), ("left", int_lit(1))]);
    assert_eq!(build_err(&no_right), Some(BuildError::MissingField));
    let power = obj(vec![("type", s("BinaryExpression")), ("operator", s("**")), ("left", int_lit(1)), ("right", int_lit(2))]);
    assert_eq!(build_err(&power), Some(BuildError::UnknownOperator));
    let typeof_ = obj(vec![("type", s("UnaryExpression")), ("operator", s("typeof")), ("argument", int_lit(1))]);
    assert_eq!(build_err(&typeof_), Some(BuildError::UnknownOperator));
    let no_alternate = obj(vec![("type", s("ConditionalExpression")), ("test", int_lit(1)), ("consequent", int_lit(2))]);
    assert_eq!(build_err(&no_alternate), Some(BuildError::MissingField));
    assert_eq!(build_err(&obj(vec![("type", s("Identifier"))])), Some(BuildError::MissingField));
}

#[test]
fn errors_come_in_document_order() {
    let bad_left = obj(vec![("type", s("Mystery"))]);
    let bad_right = obj(vec![("type", s("BinaryExpression")), ("operator", s("**")), ("left", int_lit(1)), ("right", int_lit(2))]);
    let j = obj(vec![("type", s("BinaryExpression")), ("operator", s("+")), ("left", bad_left), ("right", bad_right)]);
    assert_eq!(build_err(&j), Some(BuildError::UnknownType));
}

#[test]
fn unsupported_literals_are_refused() {
    let null = obj(vec![("type", s("Literal")), ("value", Json::Null)]);
    assert_eq!(build_err(&null), Some(BuildError::UnsupportedLiteral));
    let huge = obj(vec![("type", s("Literal")), ("value", Json::UInt(u64::MAX))]);
    assert_eq!(build_err(&huge), Some(BuildError::UnsupportedLiteral));
    assert_eq!(build_err(&obj(vec![("type", s("Literal"))])), Some(BuildError::MissingField));
}

#[test]
fn function_literals_take_exactly_one_parameter() {
    let two = obj(vec![
        ("type", s("FunctionExpression")),
        ("params", Json::Array(vec![ident("a"), ident("b")])),
        ("body", ident("a")),
    ]);
    assert_eq!(build_err(&two), Some(BuildError::UnsupportedParameters));
    let none = obj(vec![("type", s("FunctionExpression")), ("params", Json::Array(vec![])), ("body", ident("a"))]);
    assert_eq!(build_err(&none), Some(BuildError::UnsupportedParameters));
    let one = obj(vec![("type", s("FunctionExpression")), ("params", Json::Array(vec![ident("a")])), ("body", ident("a"))]);
    assert_eq!(Expr::new(&one).map(|e| e.render()), Ok("(fn (a) a)".to_string()));
}

#[test]
fn statement_lists() {
    let decl = obj(vec![
        ("type", s("VariableDeclaration")),
        ("declarations", Json::Array(vec![obj(vec![("id", ident("x")), ("init", int_lit(1))])])),
    ]);
    let lonely = Json::Array(vec![decl]);
    assert!(matches!(Program::new(&lonely), Err(BuildError::BindingWithoutBody)));
    let if_statement = Json::Array(vec![obj(vec![("type", s("IfStatement"))])]);
    assert!(matches!(Program::new(&if_statement), Err(BuildError::UnsupportedStatement)));
    let no_init = obj(vec![
        ("type", s("VariableDeclaration")),
        ("declarations", Json::Array(vec![obj(vec![("id", ident("x"))])])),
    ]);
    let body = obj(vec![("type", s("ExpressionStatement")), ("expression", ident("x"))]);
    assert!(matches!(Program::new(&Json::Array(vec![no_init, body])), Err(BuildError::MissingField)));
    let ret = obj(vec![("type", s("ReturnStatement")), ("argument", int_lit(5))]);
    let block = obj(vec![("type", s("BlockStatement")), ("body", Json::Array(vec![ret]))]);
    assert_eq!(Expr::new(&block).map(|e| e.render()), Ok("(number 5)".to_string()));
    let empty_block = obj(vec![("type", s("BlockStatement")), ("body", Json::Array(vec![]))]);
    assert!(matches!(Expr::new(&empty_block), Ok(Expr::Literal(Literal::Unit))));
}

#[test]
fn logical_nodes_build_binary_expressions() {
    let j = obj(vec![("type", s("LogicalExpression")), ("operator", s("||")), ("left", int_lit(1)), ("right", int_lit(2))]);
    match Expr::new(&j) {
        Ok(Expr::Binary(b)) => assert_eq!(b.op, BinOp::Or),
        _ => panic!("expected a binary expression"),
    }
}

#[test]
fn the_first_member_of_a_name_is_read() {
    let j = Json::Object(vec![
        ("type".to_string(), s("Identifier")),
        ("name".to_string(), s("first")),
        ("name".to_string(), s("second")),
    ]);
    assert_eq!(Expr::new(&j).map(|e| e.render()), Ok("first".to_string()));
}
