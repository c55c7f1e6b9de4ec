use inter::eval::FloatHost;
use inter::expr::{BinOp, Expr};
use inter::json::Json;
use inter::value::{Environ, Value};

struct Fpu;

impl FloatHost for Fpu {
    fn arith(&self, op: BinOp, a: u64, b: u64) -> u64 {
        let (x, y) = (f64::from_bits(a), f64::from_bits(b));
        match op {
            BinOp::Add => (x + y).to_bits(),
            BinOp::Sub => (x - y).to_bits(),
            BinOp::Mul => (x * y).to_bits(),
            _ => (x / y).to_bits(),
        }
    }

    fn text(&self, bits: u64) -> String {
        format!("{}", f64::from_bits(bits))
    }
}

fn s(x: &str) -> Json {
    Json::String(x.to_string())
}

fn obj(members: Vec<(&str, Json)>) -> Json {
    Json::Object(members.into_iter().map(|(k, v)| (k.to_string(), v)).collect())
}

fn literal(v: Json) -> Json {
    obj(vec![("type", s("Literal")), ("value", v)])
}

fn ident(name: &str) -> Json {
    obj(vec![("type", s("Identifier")), ("name", s(name))])
}

fn binary(kind: &str, op: &str, l: Json, r: Json) -> Json {
    obj(vec![("type", s(kind)), ("operator", s(op)), ("left", l), ("right", r)])
}

fn render(j: &Json) -> String {
    Expr::new(j).expect("node builds").render()
}

#[test]
fn integer_literal_round_trips() {
    let j = literal(Json::Int(3));
    assert_eq!(render(&j), "(number 3)");
    let e = Expr::new(&j).unwrap();
    let mut log = Vec::new();
    let v = e.eval(&Environ::empty(), &Fpu, &mut log).unwrap();
    assert_eq!(v.render(&Fpu), "(value (number 3))");
}

#[test]
fn non_digit_literals_print_as_boolean_form() {
    assert_eq!(render(&literal(Json::Bool(true))), "(boolean true)");
    assert_eq!(render(&literal(s("ab"))), "(boolean ab)");
    assert_eq!(render(&literal(s("42"))), "(number 42)");
    assert_eq!(render(&literal(Json::Float(1.5f64.to_bits(), "1.5".to_string()))), "(boolean 1.5)");
    assert_eq!(render(&literal(Json::Int(-3))), "(boolean -3)");
    assert_eq!(render(&literal(Json::Int(i64::MIN))), "(boolean -9223372036854775808)");
}

#[test]
fn operator_classes_and_symbols() {
    let j = binary("BinaryExpression", "+", literal(Json::Int(1)), ident("x"));
    assert_eq!(render(&j), "(arithmetic + (number 1) x)");
    let j = binary("BinaryExpression", "<=", ident("a"), ident("b"));
    assert_eq!(render(&j), "(relational <= a b)");
    let j = binary("LogicalExpression", "&&", ident("a"), ident("b"));
    assert_eq!(render(&j), "(logical && a b)");
    let j = binary("BinaryExpression", "<<", ident("a"), ident("b"));
    assert_eq!(render(&j), "(arithmetic << a b)");
    let j = binary("BinaryExpression", ">>", ident("a"), ident("b"));
    assert_eq!(render(&j), "(arithmetic >> a b)");
    let j = obj(vec![("type", s("UnaryExpression")), ("operator", s("-")), ("argument", ident("a"))]);
    assert_eq!(render(&j), "(unary - a)");
    let j = obj(vec![("type", s("ConditionalExpression")), ("test", ident("t")), ("consequent", ident("c")), ("alternate", ident("a"))]);
    assert_eq!(render(&j), "(conditional t c a)");
}

#[test]
fn values_render_by_variant() {
    assert_eq!(Value::Int(-12).render(&Fpu), "(value (number -12))");
    assert_eq!(Value::Float(0.5f64.to_bits()).render(&Fpu), "(value (number 0.5))");
    assert_eq!(Value::Bool(false).render(&Fpu), "(value (boolean false))");
    assert_eq!(Value::String("hi".to_string()).render(&Fpu), "(value (string hi))");
    assert_eq!(Value::Unit.render(&Fpu), "(value ())");
    assert_eq!(Value::Float(2.0f64.to_bits()).render_with("2.0"), "(value (number 2.0))");
}

#[test]
fn empty_function_body_prints_the_unit_literal() {
    let body = obj(vec![("type", s("BlockStatement")), ("body", Json::Array(vec![]))]);
    let f = obj(vec![("type", s("FunctionExpression")), ("params", Json::Array(vec![ident("x")])), ("body", body)]);
    assert_eq!(render(&f), "(fn (x) (boolean ()))");
}
