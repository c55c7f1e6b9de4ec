use inter::error::{BuildError, EvalError};
use inter::eval::FloatHost;
use inter::expr::{BinOp, Expr};
use inter::json::Json;
use inter::value::{Environ, Value};
use inter::Program;

struct Fpu;

impl FloatHost for Fpu {
    fn arith(&self, op: BinOp, a: u64, b: u64) -> u64 {
        let (x, y) = (f64::from_bits(a), f64::from_bits(b));
        let r = match op {
            BinOp::Add => x + y,
            BinOp::Sub => x - y,
            BinOp::Mul => x * y,
            _ => x / y,
        };
        r.to_bits()
    }

    fn text(&self, bits: u64) -> String {
        format!("{}", f64::from_bits(bits))
    }
}

fn s(x: &str) -> Json {
    Json::String(x.to_string())
}

fn obj(members: Vec<(&str, Json)>) -> Json {
    Json::Object(members.into_iter().map(|(k, v)| (k.to_string(), v)).collect())
}

fn int_lit(n: i64) -> Json {
    obj(vec![("type", s("Literal")), ("value", Json::Int(n))])
}

fn float(x: f64) -> Json {
    obj(vec![("type", s("Literal")), ("value", Json::Float(x.to_bits(), format!("{}", x)))])
}

fn boolean(b: bool) -> Json {
    obj(vec![("type", s("Literal")), ("value", Json::Bool(b))])
}

fn string(t: &str) -> Json {
    obj(vec![("type", s("Literal")), ("value", s(t))])
}

fn ident(name: &str) -> Json {
    obj(vec![("type", s("Identifier")), ("name", s(name))])
}

fn binary(op: &str, l: Json, r: Json) -> Json {
    obj(vec![("type", s("BinaryExpression")), ("operator", s(op)), ("left", l), ("right", r)])
}

fn logical(op: &str, l: Json, r: Json) -> Json {
    obj(vec![("type", s("LogicalExpression")), ("operator", s(op)), ("left", l), ("right", r)])
}

fn unary(op: &str, a: Json) -> Json {
    obj(vec![("type", s("UnaryExpression")), ("operator", s(op)), ("argument", a)])
}

fn cond(t: Json, c: Json, a: Json) -> Json {
    obj(vec![("type", s("ConditionalExpression")), ("test", t), ("consequent", c), ("alternate", a)])
}

fn declaration(binds: Vec<(&str, Json)>) -> Json {
    let ds = binds
        .into_iter()
        .map(|(n, init)| obj(vec![("type", s("VariableDeclarator")), ("id", ident(n)), ("init", init)]))
        .collect();
    obj(vec![("type", s("VariableDeclaration")), ("declarations", Json::Array(ds))])
}

fn statement(e: Json) -> Json {
    obj(vec![("type", s("ExpressionStatement")), ("expression", e)])
}

fn function(params: Vec<&str>, body: Json) -> Json {
    obj(vec![
        ("type", s("FunctionExpression")),
        ("params", Json::Array(params.into_iter().map(ident).collect())),
        ("body", body),
    ])
}

/// Builds and evaluates one node, rendering the value.
fn run(j: &Json) -> Result<String, EvalError> {
    let e = Expr::new(j).expect("node builds");
    let mut log = Vec::new();
    let v = e.eval(&Environ::empty(), &Fpu, &mut log)?;
    Ok(v.render(&Fpu))
}

#[test]
fn division_truncates_toward_zero() {
    assert_eq!(run(&binary("/", int_lit(7), int_lit(2))), Ok("(value (number 3))".to_string()));
    assert_eq!(run(&binary("/", int_lit(-7), int_lit(2))), Ok("(value (number -3))".to_string()));
    assert_eq!(run(&binary("/", int_lit(7), int_lit(-2))), Ok("(value (number -3))".to_string()));
    assert_eq!(run(&binary("/", int_lit(-7), int_lit(-2))), Ok("(value (number 3))".to_string()));
}

#[test]
fn division_by_zero_fails_for_integers_and_floats() {
    assert_eq!(run(&binary("/", int_lit(1), int_lit(0))), Err(EvalError::DivisionByZero));
    assert_eq!(run(&binary("/", float(1.0), float(0.0))), Err(EvalError::DivisionByZero));
    assert_eq!(run(&binary("/", float(1.0), float(-0.0))), Err(EvalError::DivisionByZero));
    assert_eq!(run(&binary("%", int_lit(7), int_lit(0))), Err(EvalError::DivisionByZero));
}

#[test]
fn logical_operators_short_circuit() {
    let failing = binary("==", binary("/", int_lit(1), int_lit(0)), int_lit(0));
    assert_eq!(run(&logical("&&", boolean(false), failing)), Ok("(value (boolean false))".to_string()));
    let failing = binary("==", binary("/", int_lit(1), int_lit(0)), int_lit(0));
    assert_eq!(run(&logical("||", boolean(true), failing)), Ok("(value (boolean true))".to_string()));
    let failing = binary("==", binary("/", int_lit(1), int_lit(0)), int_lit(0));
    assert_eq!(run(&logical("&&", boolean(true), failing)), Err(EvalError::DivisionByZero));
    assert_eq!(run(&logical("||", boolean(false), boolean(true))), Ok("(value (boolean true))".to_string()));
    assert_eq!(run(&logical("&&", int_lit(1), boolean(true))), Err(EvalError::BooleanOperands));
    assert_eq!(run(&logical("&&", boolean(true), int_lit(1))), Err(EvalError::BooleanOperands));
}

#[test]
fn conditional_evaluates_one_branch() {
    let j = cond(boolean(true), int_lit(1), binary("/", int_lit(1), int_lit(0)));
    assert_eq!(run(&j), Ok("(value (number 1))".to_string()));
    let j = cond(boolean(false), binary("/", int_lit(1), int_lit(0)), int_lit(2));
    assert_eq!(run(&j), Ok("(value (number 2))".to_string()));
    assert_eq!(run(&cond(int_lit(1), int_lit(2), int_lit(3))), Err(EvalError::NonBooleanTest));
}

#[test]
fn bindings_see_earlier_bindings_of_the_run() {
    let one_statement = Json::Array(vec![
        declaration(vec![("x", int_lit(1)), ("x", binary("+", ident("x"), int_lit(1)))]),
        statement(ident("x")),
    ]);
    let p = Program::new(&one_statement).expect("program builds");
    assert_eq!(p.run(&Fpu).map(|v| v.render(&Fpu)), Ok("(value (number 2))".to_string()));

    let two_statements = Json::Array(vec![
        declaration(vec![("x", int_lit(1))]),
        declaration(vec![("x", binary("+", ident("x"), int_lit(1)))]),
        statement(ident("x")),
    ]);
    let p = Program::new(&two_statements).expect("program builds");
    assert_eq!(p.run(&Fpu).map(|v| v.render(&Fpu)), Ok("(value (number 2))".to_string()));
    assert_eq!(p.render(), "(let x = (number 1), x = (arithmetic + x (number 1)), )");
}

#[test]
fn an_initializer_does_not_see_its_own_binding() {
    let program = Json::Array(vec![declaration(vec![("x", ident("x"))]), statement(ident("x"))]);
    let p = Program::new(&program).expect("program builds");
    assert!(matches!(p.run(&Fpu), Err(EvalError::UnboundIdentifier)));
}

#[test]
fn unbound_reference_fails() {
    assert_eq!(run(&ident("y")), Err(EvalError::UnboundIdentifier));
}

#[test]
fn equality_needs_matching_variants() {
    assert_eq!(run(&binary("==", int_lit(1), boolean(true))), Err(EvalError::ComparisonOperands));
    assert_eq!(run(&binary("==", string("ab"), string("ab"))), Ok("(value (boolean true))".to_string()));
    assert_eq!(run(&binary("!=", string("ab"), string("ac"))), Ok("(value (boolean true))".to_string()));
    assert_eq!(run(&binary("==", boolean(false), boolean(false))), Ok("(value (boolean true))".to_string()));
    assert_eq!(run(&binary("==", int_lit(2), int_lit(3))), Ok("(value (boolean false))".to_string()));
    assert_eq!(run(&binary("==", float(0.0), float(-0.0))), Ok("(value (boolean true))".to_string()));
    assert_eq!(run(&binary("<", string("a"), string("b"))), Err(EvalError::ComparisonOperands));
}

#[test]
fn relational_operators_on_numbers() {
    assert_eq!(run(&binary("<", int_lit(1), int_lit(2))), Ok("(value (boolean true))".to_string()));
    assert_eq!(run(&binary(">=", int_lit(1), int_lit(2))), Ok("(value (boolean false))".to_string()));
    assert_eq!(run(&binary("<=", float(-1.5), float(-1.5))), Ok("(value (boolean true))".to_string()));
    assert_eq!(run(&binary(">", float(-1.5), float(-2.5))), Ok("(value (boolean true))".to_string()));
    assert_eq!(run(&binary("<", int_lit(1), float(2.0))), Err(EvalError::ComparisonOperands));
}

#[test]
fn nan_compares_unequal_and_unordered() {
    let inf = binary("*", float(1e308), float(10.0));
    let nan = binary("-", inf, binary("*", float(1e308), float(10.0)));
    let nan2 = binary("-", binary("*", float(1e308), float(10.0)), binary("*", float(1e308), float(10.0)));
    assert_eq!(run(&binary("==", nan, nan2)), Ok("(value (boolean false))".to_string()));
    let nan = binary("-", binary("*", float(1e308), float(10.0)), binary("*", float(1e308), float(10.0)));
    assert_eq!(run(&binary("<", nan, float(1.0))), Ok("(value (boolean false))".to_string()));
}

#[test]
fn float_arithmetic_goes_through_the_host() {
    assert_eq!(run(&binary("+", float(1.5), float(2.25))), Ok("(value (number 3.75))".to_string()));
    assert_eq!(run(&binary("*", float(1.5), float(-2.0))), Ok("(value (number -3))".to_string()));
    let e = Expr::new(&binary("-", binary("/", float(1.0), float(4.0)), float(0.5))).unwrap();
    let mut log = Vec::new();
    let v = e.eval(&Environ::empty(), &Fpu, &mut log).unwrap();
    assert!(matches!(v, Value::Float(b) if f64::from_bits(b) == -0.25));
    assert_eq!(log, vec![0.25f64.to_bits(), (-0.25f64).to_bits()]);
}

#[test]
fn integer_arithmetic_and_overflow() {
    assert_eq!(run(&binary("+", int_lit(2), int_lit(3))), Ok("(value (number 5))".to_string()));
    assert_eq!(run(&binary("-", int_lit(2), int_lit(3))), Ok("(value (number -1))".to_string()));
    assert_eq!(run(&binary("*", int_lit(-4), int_lit(3))), Ok("(value (number -12))".to_string()));
    assert_eq!(run(&binary("+", int_lit(i64::MAX), int_lit(1))), Err(EvalError::IntegerOverflow));
    assert_eq!(run(&binary("/", int_lit(i64::MIN), int_lit(-1))), Err(EvalError::IntegerOverflow));
    assert_eq!(run(&binary("+", int_lit(1), float(1.0))), Err(EvalError::NumericOperands));
    assert_eq!(run(&binary("+", string("a"), string("b"))), Err(EvalError::NumericOperands));
}

#[test]
fn bit_operators() {
    assert_eq!(run(&binary("%", int_lit(-7), int_lit(2))), Ok("(value (number -1))".to_string()));
    assert_eq!(run(&binary("%", int_lit(i64::MIN), int_lit(-1))), Ok("(value (number 0))".to_string()));
    assert_eq!(run(&binary("&", int_lit(6), int_lit(3))), Ok("(value (number 2))".to_string()));
    assert_eq!(run(&binary("|", int_lit(6), int_lit(3))), Ok("(value (number 7))".to_string()));
    assert_eq!(run(&binary("^", int_lit(6), int_lit(3))), Ok("(value (number 5))".to_string()));
    assert_eq!(run(&binary("<<", int_lit(1), int_lit(3))), Ok("(value (number 8))".to_string()));
    assert_eq!(run(&binary(">>", int_lit(-8), int_lit(1))), Ok("(value (number -4))".to_string()));
    assert_eq!(run(&binary("<<", int_lit(1), int_lit(64))), Err(EvalError::ShiftOutOfRange));
    assert_eq!(run(&binary(">>", int_lit(1), int_lit(-1))), Err(EvalError::ShiftOutOfRange));
    assert_eq!(run(&binary("%", float(1.0), float(2.0))), Err(EvalError::IntegerOperands));
}

#[test]
fn unary_operators() {
    assert_eq!(run(&unary("+", int_lit(-5))), Ok("(value (number 5))".to_string()));
    assert_eq!(run(&unary("+", int_lit(5))), Ok("(value (number 5))".to_string()));
    assert_eq!(run(&unary("-", int_lit(5))), Ok("(value (number -5))".to_string()));
    assert_eq!(run(&unary("+", float(-2.5))), Ok("(value (number 2.5))".to_string()));
    assert_eq!(run(&unary("-", float(2.5))), Ok("(value (number -2.5))".to_string()));
    assert_eq!(run(&unary("!", boolean(true))), Ok("(value (boolean false))".to_string()));
    assert_eq!(run(&unary("~", int_lit(5))), Ok("(value (number -6))".to_string()));
    assert_eq!(run(&unary("-", int_lit(i64::MIN))), Err(EvalError::IntegerOverflow));
    assert_eq!(run(&unary("!", int_lit(1))), Err(EvalError::BooleanOperands));
    assert_eq!(run(&unary("~", boolean(true))), Err(EvalError::IntegerOperands));
    assert_eq!(run(&unary("-", string("a"))), Err(EvalError::NumericOperands));
}

#[test]
fn function_literal_captures_without_running() {
    let program = Json::Array(vec![
        declaration(vec![("y", int_lit(4))]),
        statement(function(vec!["x"], binary("/", ident("x"), int_lit(0)))),
    ]);
    let p = Program::new(&program).expect("program builds");
    let v = p.run(&Fpu).expect("a closure is a value");
    assert_eq!(v.render(&Fpu), "(value (function))");
    match v {
        Value::Fn(f) => {
            assert_eq!(f.arg, "x");
            assert!(matches!(f.env.lookup(&"y".to_string()), Some(Value::Int(4))));
        },
        _ => panic!("expected a closure"),
    }
}

#[test]
fn empty_program_is_unit() {
    let p = Program::new(&Json::Array(vec![])).expect("program builds");
    assert_eq!(p.run(&Fpu).map(|v| v.render(&Fpu)), Ok("(value ())".to_string()));
    assert!(matches!(Program::new(&obj(vec![])), Err(BuildError::MissingField)));
}

#[test]
fn environment_extension_shadows_and_keeps_the_receiver() {
    let empty = Environ::empty();
    let one = empty.extend("x".to_string(), Value::Int(1));
    let two = one.extend("x".to_string(), Value::Int(2));
    assert!(matches!(two.lookup(&"x".to_string()), Some(Value::Int(2))));
    assert!(matches!(one.lookup(&"x".to_string()), Some(Value::Int(1))));
    assert!(empty.lookup(&"x".to_string()).is_none());
    assert!(two.lookup(&"z".to_string()).is_none());
}

#[test]
fn error_reasons_are_readable() {
    assert_eq!(EvalError::DivisionByZero.message(), "division by zero");
    assert_eq!(EvalError::UnboundIdentifier.message(), "unbound identifier");
    assert_eq!(BuildError::BindingWithoutBody.message(), "binding with no body");
}
