//! The evaluator: reduces an expression and an environment to a value or an error.
//!
//! Floating-point arithmetic is done by a host (`FloatHost`). Its results enter
//! the semantics as a tape: `eval_spec` reads the result of each float `+ - * /`
//! from the front of the tape, in evaluation order, and returns what is left.
//!
//! Evaluation recurses once per level of the tree, so the stack it needs grows
//! with the depth of the expression; very deep trees can exhaust it.
use vstd::prelude::*;
use crate::error::EvalError;
use crate::expr::{BinOp, BindExpr, Expr, Literal, UnaryOp};
use crate::ieee;
use crate::value::{Environ, FnValue, Value};

verus! {

/// What the evaluator needs from a floating-point unit. Doubles are passed as
/// IEEE-754 bit patterns.
pub trait FloatHost {
    /// `a op b` for `op` one of `Add`, `Sub`, `Mul`, `Div`; a divisor is never zero.
    fn arith(&self, op: BinOp, a: u64, b: u64) -> u64;

    /// The decimal text of a double.
    fn text(&self, bits: u64) -> String;
}

/// The next float result on the tape, and the rest of it.
pub open spec fn next_float(t: Seq<u64>) -> (u64, Seq<u64>) {
    if t.len() > 0 {
        (t[0], t.drop_first())
    } else {
        (0, t)
    }
}

/// `x` as an `i64`, or an overflow error.
pub open spec fn in_range(x: int) -> Result<i64, EvalError> {
    if i64::MIN <= x <= i64::MAX {
        Ok(x as i64)
    } else {
        Err(EvalError::IntegerOverflow)
    }
}

pub open spec fn abs(x: int) -> int {
    if x < 0 {
        -x
    } else {
        x
    }
}

/// Integer division rounding toward zero.
pub open spec fn truncate_toward_zero(a: int, b: int) -> int {
    if (a < 0) == (b < 0) {
        abs(a) / abs(b)
    } else {
        -(abs(a) / abs(b))
    }
}

/// The remainder of `truncate_toward_zero`: the sign of `a`, the magnitude of `|a| mod |b|`.
pub open spec fn truncated_rem(a: int, b: int) -> int {
    if a < 0 {
        -(abs(a) % abs(b))
    } else {
        abs(a) % abs(b)
    }
}

/// `+ - * /` on two integers.
pub open spec fn int_arith(op: BinOp, l: i64, r: i64) -> Result<i64, EvalError> {
    match op {
        BinOp::Add => in_range(l + r),
        BinOp::Sub => in_range(l - r),
        BinOp::Mul => in_range(l * r),
        _ => if r == 0 {
            Err(EvalError::DivisionByZero)
        } else {
            in_range(truncate_toward_zero(l as int, r as int))
        },
    }
}

/// `% ^ & | << >>` on two integers. A shift count must lie in `0..64`; bits
/// shifted out of a left shift are lost, and `>>` keeps the sign.
pub open spec fn int_bits(op: BinOp, l: i64, r: i64) -> Result<i64, EvalError> {
    match op {
        BinOp::Rem => if r == 0 {
            Err(EvalError::DivisionByZero)
        } else {
            Ok(truncated_rem(l as int, r as int) as i64)
        },
        BinOp::BitXor => Ok(l ^ r),
        BinOp::BitAnd => Ok(l & r),
        BinOp::BitOr => Ok(l | r),
        _ => if r < 0 || r >= 64 {
            Err(EvalError::ShiftOutOfRange)
        } else if op == BinOp::Shl {
            Ok(l << (r as u32))
        } else {
            Ok(l >> (r as u32))
        },
    }
}

/// A relational operator on two ordered numbers, given `l < r` and `l == r`.
pub open spec fn relate(op: BinOp, lt: bool, eq: bool, gt: bool) -> bool {
    match op {
        BinOp::Lt => lt,
        BinOp::Le => lt || eq,
        BinOp::Gt => gt,
        BinOp::Ge => gt || eq,
        BinOp::Eq => eq,
        _ => !eq,
    }
}

/// `==` and `!=` on a pair of values of a variant without an order.
pub open spec fn equality(op: BinOp, eq: bool) -> Result<Value<'static>, EvalError> {
    match op {
        BinOp::Eq => Ok(Value::Bool(eq)),
        BinOp::Ne => Ok(Value::Bool(!eq)),
        _ => Err(EvalError::ComparisonOperands),
    }
}

/// A non-logical binary operator applied to two evaluated operands; float
/// arithmetic takes its result from the tape.
pub open spec fn apply_binary<'a>(op: BinOp, l: Value<'a>, r: Value<'a>, t: Seq<u64>) -> (Result<Value<'a>, EvalError>, Seq<u64>) {
    match op.class_spec() {
        crate::expr::OpClass::Arithmetic => match (l, r) {
            (Value::Int(a), Value::Int(b)) => (
                match int_arith(op, a, b) {
                    Ok(x) => Ok(Value::Int(x)),
                    Err(e) => Err(e),
                },
                t,
            ),
            (Value::Float(a), Value::Float(b)) => if op == BinOp::Div && ieee::is_zero(b) {
                (Err(EvalError::DivisionByZero), t)
            } else {
                (Ok(Value::Float(next_float(t).0)), next_float(t).1)
            },
            _ => (Err(EvalError::NumericOperands), t),
        },
        crate::expr::OpClass::Relational => (
            match (l, r) {
                (Value::Int(a), Value::Int(b)) => Ok(Value::Bool(relate(op, a < b, a == b, a > b))),
                (Value::Float(a), Value::Float(b)) => Ok(
                    Value::Bool(relate(op, ieee::less(a, b), ieee::same(a, b), ieee::less(b, a))),
                ),
                (Value::Bool(a), Value::Bool(b)) => equality(op, a == b),
                (Value::String(a), Value::String(b)) => equality(op, a@ == b@),
                _ => Err(EvalError::ComparisonOperands),
            },
            t,
        ),
        _ => (
            match (l, r) {
                (Value::Int(a), Value::Int(b)) => match int_bits(op, a, b) {
                    Ok(x) => Ok(Value::Int(x)),
                    Err(e) => Err(e),
                },
                _ => Err(EvalError::IntegerOperands),
            },
            t,
        ),
    }
}

/// A unary operator applied to an evaluated operand.
pub open spec fn apply_unary<'a>(op: UnaryOp, v: Value<'a>) -> Result<Value<'a>, EvalError> {
    match op {
        UnaryOp::Plus => match v {
            Value::Int(x) => if x < 0 {
                match in_range(-x) {
                    Ok(y) => Ok(Value::Int(y)),
                    Err(e) => Err(e),
                }
            } else {
                Ok(Value::Int(x))
            },
            Value::Float(x) => Ok(Value::Float(ieee::non_negative(x))),
            _ => Err(EvalError::NumericOperands),
        },
        UnaryOp::Minus => match v {
            Value::Int(x) => match in_range(-x) {
                Ok(y) => Ok(Value::Int(y)),
                Err(e) => Err(e),
            },
            Value::Float(x) => Ok(Value::Float(ieee::negated(x))),
            _ => Err(EvalError::NumericOperands),
        },
        UnaryOp::Not => match v {
            Value::Bool(b) => Ok(Value::Bool(!b)),
            _ => Err(EvalError::BooleanOperands),
        },
        UnaryOp::BitNot => match v {
            Value::Int(x) => Ok(Value::Int(!x)),
            _ => Err(EvalError::IntegerOperands),
        },
    }
}

/// The value that a literal stands for.
pub open spec fn literal_value<'a>(l: Literal) -> Value<'a> {
    match l {
        Literal::Int(i) => Value::Int(i),
        Literal::Float(f, _) => Value::Float(f),
        Literal::Bool(b) => Value::Bool(b),
        Literal::String(s) => Value::String(s),
        Literal::Unit => Value::Unit,
    }
}

/// The right operand of `&&` or `||`, once the left one did not decide.
pub open spec fn logical_rhs<'a>(r: (Result<Value<'a>, EvalError>, Seq<u64>)) -> (Result<Value<'a>, EvalError>, Seq<u64>) {
    match r.0 {
        Ok(Value::Bool(b)) => (Ok(Value::Bool(b)), r.1),
        Ok(_) => (Err(EvalError::BooleanOperands), r.1),
        Err(e) => (Err(e), r.1),
    }
}

/// Evaluation of `e` in `env`, reading float results from `t`; also returns
/// what is left of the tape.
pub open spec fn eval_spec<'a>(e: &'a Expr, env: Environ<'a>, t: Seq<u64>) -> (Result<Value<'a>, EvalError>, Seq<u64>)
    decreases e, 0nat,
{
    match e {
        Expr::Binary(b) => {
            let (l, t1) = eval_spec(&b.lhs, env, t);
            match l {
                Err(x) => (Err(x), t1),
                Ok(lv) => if b.op == BinOp::And {
                    match lv {
                        Value::Bool(false) => (Ok(Value::Bool(false)), t1),
                        Value::Bool(true) => logical_rhs(eval_spec(&b.rhs, env, t1)),
                        _ => (Err(EvalError::BooleanOperands), t1),
                    }
                } else if b.op == BinOp::Or {
                    match lv {
                        Value::Bool(true) => (Ok(Value::Bool(true)), t1),
                        Value::Bool(false) => logical_rhs(eval_spec(&b.rhs, env, t1)),
                        _ => (Err(EvalError::BooleanOperands), t1),
                    }
                } else {
                    let (r, t2) = eval_spec(&b.rhs, env, t1);
                    match r {
                        Err(x) => (Err(x), t2),
                        Ok(rv) => apply_binary(b.op, lv, rv, t2),
                    }
                },
            }
        },
        Expr::Unary(u) => {
            let (v, t1) = eval_spec(&u.expr, env, t);
            match v {
                Err(x) => (Err(x), t1),
                Ok(v) => (apply_unary(u.op, v), t1),
            }
        },
        Expr::Conditional(c) => {
            let (v, t1) = eval_spec(&c.test, env, t);
            match v {
                Err(x) => (Err(x), t1),
                Ok(Value::Bool(true)) => eval_spec(&c.cons, env, t1),
                Ok(Value::Bool(false)) => eval_spec(&c.altr, env, t1),
                Ok(_) => (Err(EvalError::NonBooleanTest), t1),
            }
        },
        Expr::Fn(f) => (Ok(Value::Fn(FnValue { arg: f.arg, body: &f.body, env: Box::new(env) })), t),
        Expr::Bind(b) => {
            let (r, t1) = binds_spec(&**b, 0, env, t);
            match r {
                Err(x) => (Err(x), t1),
                Ok(inner) => eval_spec(&b.body, inner, t1),
            }
        },
        Expr::Ref(name) => match env.lookup_spec(name@) {
            Some(v) => (Ok(v), t),
            None => (Err(EvalError::UnboundIdentifier), t),
        },
        Expr::Literal(l) => (Ok(literal_value(*l)), t),
    }
}

/// The bindings of `b` from the `i`-th on, each initializer evaluated in
/// `env` extended by the bindings before it; the environment they yield.
pub open spec fn binds_spec<'a>(b: &'a BindExpr, i: int, env: Environ<'a>, t: Seq<u64>) -> (Result<Environ<'a>, EvalError>, Seq<u64>)
    decreases b, b.binds@.len() - i,
    when 0 <= i <= b.binds@.len()
{
    if i == b.binds@.len() {
        (Ok(env), t)
    } else {
        let (v, t1) = eval_spec(&b.binds@[i].1, env, t);
        match v {
            Err(x) => (Err(x), t1),
            Ok(v) => binds_spec(b, i + 1, Environ::Extended(b.binds@[i].0, v, Box::new(env)), t1),
        }
    }
}

/// `after` begins with `before`.
pub open spec fn extends(before: Seq<u64>, after: Seq<u64>) -> bool {
    before.len() <= after.len() && after.subrange(0, before.len() as int) == before
}

/// What `after` holds beyond `before`.
pub open spec fn appended(before: Seq<u64>, after: Seq<u64>) -> Seq<u64> {
    after.subrange(before.len() as int, after.len() as int)
}

fn int_arith_exec(op: BinOp, l: i64, r: i64) -> (res: Result<i64, EvalError>)
    requires
        op.class_spec() == crate::expr::OpClass::Arithmetic,
    ensures
        res == int_arith(op, l, r),
{
    let checked = match op {
        BinOp::Add => l.checked_add(r),
        BinOp::Sub => l.checked_sub(r),
        BinOp::Mul => l.checked_mul(r),
        _ => {
            if r == 0 {
                return Err(EvalError::DivisionByZero);
            }
            l.checked_div(r)
        },
    };
    match checked {
        Some(x) => Ok(x),
        None => Err(EvalError::IntegerOverflow),
    }
}

fn int_bits_exec(op: BinOp, l: i64, r: i64) -> (res: Result<i64, EvalError>)
    requires
        op.class_spec() == crate::expr::OpClass::Integer,
    ensures
        res == int_bits(op, l, r),
{
    match op {
        BinOp::Rem => {
            if r == 0 {
                Err(EvalError::DivisionByZero)
            } else if r == -1 {
                assert(abs(l as int) % 1 == 0);
                Ok(0)
            } else {
                assert(0int % abs(r as int) == 0) by (nonlinear_arith)
                    requires
                        abs(r as int) > 0,
                ;
                match l.checked_rem(r) {
                    Some(x) => Ok(x),
                    None => Err(EvalError::IntegerOverflow),
                }
            }
        },
        BinOp::BitXor => Ok(l ^ r),
        BinOp::BitAnd => Ok(l & r),
        BinOp::BitOr => Ok(l | r),
        _ => {
            if r < 0 || r >= 64 {
                Err(EvalError::ShiftOutOfRange)
            } else if op == BinOp::Shl {
                Ok(l << (r as u32))
            } else {
                Ok(l >> (r as u32))
            }
        },
    }
}

fn unary_exec<'a>(op: UnaryOp, v: Value<'a>) -> (res: Result<Value<'a>, EvalError>)
    ensures
        res == apply_unary(op, v),
{
    match op {
        UnaryOp::Plus => match v {
            Value::Int(x) => {
                if x == i64::MIN {
                    Err(EvalError::IntegerOverflow)
                } else if x < 0 {
                    Ok(Value::Int(-x))
                } else {
                    Ok(Value::Int(x))
                }
            },
            Value::Float(x) => Ok(Value::Float(ieee::abs_like(x))),
            _ => Err(EvalError::NumericOperands),
        },
        UnaryOp::Minus => match v {
            Value::Int(x) => if x == i64::MIN {
                Err(EvalError::IntegerOverflow)
            } else {
                Ok(Value::Int(-x))
            },
            Value::Float(x) => Ok(Value::Float(ieee::neg(x))),
            _ => Err(EvalError::NumericOperands),
        },
        UnaryOp::Not => match v {
            Value::Bool(b) => Ok(Value::Bool(!b)),
            _ => Err(EvalError::BooleanOperands),
        },
        UnaryOp::BitNot => match v {
            Value::Int(x) => Ok(Value::Int(!x)),
            _ => Err(EvalError::IntegerOperands),
        },
    }
}

proof fn lemma_nothing_appended(t: Seq<u64>, rest: Seq<u64>)
    ensures
        extends(t, t),
        appended(t, t) + rest == rest,
{
    assert(t.subrange(0, t.len() as int) =~= t);
    assert(appended(t, t) + rest =~= rest);
}

proof fn lemma_split(t0: Seq<u64>, t1: Seq<u64>, t2: Seq<u64>, rest: Seq<u64>)
    requires
        extends(t0, t1),
        extends(t1, t2),
    ensures
        extends(t0, t2),
        appended(t0, t2) + rest == appended(t0, t1) + (appended(t1, t2) + rest),
{
    assert(t2.subrange(0, t0.len() as int) =~= t1.subrange(0, t0.len() as int));
    assert(appended(t0, t2) + rest =~= appended(t0, t1) + (appended(t1, t2) + rest));
}

proof fn lemma_pushed(t: Seq<u64>, x: u64, rest: Seq<u64>)
    ensures
        extends(t, t.push(x)),
        next_float(appended(t, t.push(x)) + rest) == (x, rest),
{
    assert(t.push(x).subrange(0, t.len() as int) =~= t);
    assert(appended(t, t.push(x)) + rest =~= seq![x] + rest);
    assert((seq![x] + rest).drop_first() =~= rest);
}

fn relational_exec<'a>(op: BinOp, l: Value<'a>, r: Value<'a>) -> (res: Result<Value<'a>, EvalError>)
    requires
        op.class_spec() == crate::expr::OpClass::Relational,
    ensures
        res == apply_binary(op, l, r, Seq::empty()).0,
{
    let (lt, eq, gt) = match (l, r) {
        (Value::Int(a), Value::Int(b)) => (a < b, a == b, a > b),
        (Value::Float(a), Value::Float(b)) => (ieee::lt(a, b), ieee::eq(a, b), ieee::lt(b, a)),
        (Value::Bool(a), Value::Bool(b)) => {
            return match op {
                BinOp::Eq => Ok(Value::Bool(a == b)),
                BinOp::Ne => Ok(Value::Bool(a != b)),
                _ => Err(EvalError::ComparisonOperands),
            };
        },
        (Value::String(a), Value::String(b)) => {
            let same = a == b;
            return match op {
                BinOp::Eq => Ok(Value::Bool(same)),
                BinOp::Ne => Ok(Value::Bool(!same)),
                _ => Err(EvalError::ComparisonOperands),
            };
        },
        _ => {
            return Err(EvalError::ComparisonOperands);
        },
    };
    let b = match op {
        BinOp::Lt => lt,
        BinOp::Le => lt || eq,
        BinOp::Gt => gt,
        BinOp::Ge => gt || eq,
        BinOp::Eq => eq,
        _ => !eq,
    };
    Ok(Value::Bool(b))
}

fn binary_exec<'a, H: FloatHost>(op: BinOp, l: Value<'a>, r: Value<'a>, host: &H, log: &mut Vec<u64>) -> (res: Result<Value<'a>, EvalError>)
    requires
        op.class_spec() != crate::expr::OpClass::Logical,
    ensures
        extends(old(log)@, final(log)@),
        forall|rest: Seq<u64>| #[trigger] apply_binary(op, l, r, appended(old(log)@, final(log)@) + rest) == (res, rest),
{
    let ghost before = log@;
    proof {
        assert forall|rest: Seq<u64>| appended(before, before) + rest == rest by {
            lemma_nothing_appended(before, rest);
        }
        lemma_nothing_appended(before, Seq::empty());
    }
    match op.class() {
        crate::expr::OpClass::Arithmetic => match (l, r) {
            (Value::Int(a), Value::Int(b)) => match int_arith_exec(op, a, b) {
                Ok(x) => Ok(Value::Int(x)),
                Err(e) => Err(e),
            },
            (Value::Float(a), Value::Float(b)) => {
                if op == BinOp::Div && ieee::zero(b) {
                    return Err(EvalError::DivisionByZero);
                }
                let x: u64 = host.arith(op, a, b);
                log.push(x);
                proof {
                    assert forall|rest: Seq<u64>| next_float(appended(before, log@) + rest) == (x, rest) by {
                        lemma_pushed(before, x, rest);
                    }
                    lemma_pushed(before, x, Seq::empty());
                }
                Ok(Value::Float(x))
            },
            _ => Err(EvalError::NumericOperands),
        },
        crate::expr::OpClass::Relational => relational_exec(op, l, r),
        _ => match (l, r) {
            (Value::Int(a), Value::Int(b)) => match int_bits_exec(op, a, b) {
                Ok(x) => Ok(Value::Int(x)),
                Err(e) => Err(e),
            },
            _ => Err(EvalError::IntegerOperands),
        },
    }
}

/// A copy of the value a literal stands for.
fn literal_exec<'a>(l: &Literal) -> (r: Value<'a>)
    ensures
        r == literal_value::<'a>(*l),
{
    match l {
        Literal::Int(i) => Value::Int(*i),
        Literal::Float(f, _) => Value::Float(*f),
        Literal::Bool(b) => Value::Bool(*b),
        Literal::String(s) => Value::String(s.clone()),
        Literal::Unit => Value::Unit,
    }
}

impl Expr {
    /// Evaluates the expression in `env`. Each float result the host computes
    /// is appended to `log`, in order; the result is what `eval_spec` gives on
    /// those results.
    pub fn eval<'a, H: FloatHost>(&'a self, env: &Environ<'a>, host: &H, log: &mut Vec<u64>) -> (r: Result<Value<'a>, EvalError>)
        ensures
            extends(old(log)@, final(log)@),
            forall|rest: Seq<u64>| #[trigger] eval_spec(self, *env, appended(old(log)@, final(log)@) + rest) == (r, rest),
        decreases self,
    {
        let ghost t0 = log@;
        proof {
            assert forall|rest: Seq<u64>| appended(t0, t0) + rest == rest by {
                lemma_nothing_appended(t0, rest);
            }
            lemma_nothing_appended(t0, Seq::empty());
        }
        match self {
            Expr::Binary(b) => {
                let lhs = b.lhs.eval(env, host, log);
                let ghost t1 = log@;
                let ghost lg = lhs;
                let lv = match lhs {
                    Err(x) => {
                        proof {
                            assert forall|rest: Seq<u64>| #[trigger] eval_spec(self, *env, appended(t0, log@) + rest) == (Err::<Value<'a>, EvalError>(x), rest) by {
                                assert(eval_spec(&b.lhs, *env, appended(t0, t1) + rest) == (lg, rest));
                            }
                        }
                        return Err(x);
                    },
                    Ok(v) => v,
                };
                if b.op == BinOp::And || b.op == BinOp::Or {
                    let decided = b.op == BinOp::Or;
                    let l = match lv.extract_bool() {
                        Err(x) => {
                            proof {
                                assert forall|rest: Seq<u64>| #[trigger] eval_spec(self, *env, appended(t0, log@) + rest) == (Err::<Value<'a>, EvalError>(x), rest) by {
                                    assert(eval_spec(&b.lhs, *env, appended(t0, t1) + rest) == (lg, rest));
                                }
                            }
                            return Err(x);
                        },
                        Ok(l) => l,
                    };
                    if l == decided {
                        proof {
                            assert forall|rest: Seq<u64>| #[trigger] eval_spec(self, *env, appended(t0, log@) + rest) == (Ok::<Value<'a>, EvalError>(Value::Bool(decided)), rest) by {
                                assert(eval_spec(&b.lhs, *env, appended(t0, t1) + rest) == (lg, rest));
                            }
                        }
                        return Ok(Value::Bool(decided));
                    }
                    let rhs = b.rhs.eval(env, host, log);
                    let ghost rg = rhs;
                    let res = match rhs {
                        Err(x) => Err(x),
                        Ok(rv) => match rv.extract_bool() {
                            Err(x) => Err(x),
                            Ok(r) => Ok(Value::Bool(r)),
                        },
                    };
                    proof {
                        lemma_split(t0, t1, log@, Seq::empty());
                        assert forall|rest: Seq<u64>| #[trigger] eval_spec(self, *env, appended(t0, log@) + rest) == (res, rest) by {
                            lemma_split(t0, t1, log@, rest);
                            assert(eval_spec(&b.lhs, *env, appended(t0, t1) + (appended(t1, log@) + rest)) == (lg, appended(t1, log@) + rest));
                            assert(eval_spec(&b.rhs, *env, appended(t1, log@) + rest) == (rg, rest));
                        }
                    }
                    res
                } else {
                    let rhs = b.rhs.eval(env, host, log);
                    let ghost t2 = log@;
                    let ghost rg = rhs;
                    let rv = match rhs {
                        Err(x) => {
                            proof {
                                lemma_split(t0, t1, log@, Seq::empty());
                                assert forall|rest: Seq<u64>| #[trigger] eval_spec(self, *env, appended(t0, log@) + rest) == (Err::<Value<'a>, EvalError>(x), rest) by {
                                    lemma_split(t0, t1, log@, rest);
                                    assert(eval_spec(&b.lhs, *env, appended(t0, t1) + (appended(t1, log@) + rest)) == (lg, appended(t1, log@) + rest));
                                    assert(eval_spec(&b.rhs, *env, appended(t1, log@) + rest) == (rg, rest));
                                }
                            }
                            return Err(x);
                        },
                        Ok(v) => v,
                    };
                    let ghost lv_g = lv;
                    let ghost rv_g = rv;
                    let res = binary_exec(b.op, lv, rv, host, log);
                    proof {
                        lemma_split(t0, t1, t2, Seq::empty());
                        lemma_split(t1, t2, log@, Seq::empty());
                        lemma_split(t0, t1, log@, Seq::empty());
                        assert forall|rest: Seq<u64>| #[trigger] eval_spec(self, *env, appended(t0, log@) + rest) == (res, rest) by {
                            lemma_split(t0, t1, log@, rest);
                            lemma_split(t1, t2, log@, rest);
                            let r2 = appended(t2, log@) + rest;
                            assert(eval_spec(&b.lhs, *env, appended(t0, t1) + (appended(t1, t2) + r2)) == (lg, appended(t1, t2) + r2));
                            assert(eval_spec(&b.rhs, *env, appended(t1, t2) + r2) == (rg, r2));
                            assert(apply_binary(b.op, lv_g, rv_g, appended(t2, log@) + rest) == (res, rest));
                        }
                    }
                    res
                }
            },
            Expr::Unary(u) => {
                let v = u.expr.eval(env, host, log);
                let ghost vg = v;
                let res = match v {
                    Err(x) => Err(x),
                    Ok(v) => unary_exec(u.op, v),
                };
                proof {
                    assert forall|rest: Seq<u64>| #[trigger] eval_spec(self, *env, appended(t0, log@) + rest) == (res, rest) by {
                        assert(eval_spec(&u.expr, *env, appended(t0, log@) + rest) == (vg, rest));
                    }
                }
                res
            },
            Expr::Conditional(c) => {
                let test = c.test.eval(env, host, log);
                let ghost t1 = log@;
                let ghost tg = test;
                let chosen = match test {
                    Err(x) => {
                        proof {
                            assert forall|rest: Seq<u64>| #[trigger] eval_spec(self, *env, appended(t0, log@) + rest) == (Err::<Value<'a>, EvalError>(x), rest) by {
                                assert(eval_spec(&c.test, *env, appended(t0, t1) + rest) == (tg, rest));
                            }
                        }
                        return Err(x);
                    },
                    Ok(Value::Bool(true)) => &c.cons,
                    Ok(Value::Bool(false)) => &c.altr,
                    Ok(_) => {
                        proof {
                            assert forall|rest: Seq<u64>| #[trigger] eval_spec(self, *env, appended(t0, log@) + rest) == (Err::<Value<'a>, EvalError>(EvalError::NonBooleanTest), rest) by {
                                assert(eval_spec(&c.test, *env, appended(t0, t1) + rest) == (tg, rest));
                            }
                        }
                        return Err(EvalError::NonBooleanTest);
                    },
                };
                let res = chosen.eval(env, host, log);
                proof {
                    lemma_split(t0, t1, log@, Seq::empty());
                    assert forall|rest: Seq<u64>| #[trigger] eval_spec(self, *env, appended(t0, log@) + rest) == (res, rest) by {
                        lemma_split(t0, t1, log@, rest);
                        assert(eval_spec(&c.test, *env, appended(t0, t1) + (appended(t1, log@) + rest)) == (tg, appended(t1, log@) + rest));
                        assert(eval_spec(chosen, *env, appended(t1, log@) + rest) == (res, rest));
                    }
                }
                res
            },
            Expr::Fn(f) => {
                let res = Ok(Value::Fn(FnValue { arg: f.arg.clone(), body: &f.body, env: Box::new(env.copy()) }));
                proof {
                    assert forall|rest: Seq<u64>| #[trigger] eval_spec(self, *env, appended(t0, log@) + rest) == (res, rest) by {
                        lemma_nothing_appended(t0, rest);
                    }
                }
                res
            },
            Expr::Bind(b) => {
                let mut cur = env.copy();
                let mut i: usize = 0;
                while i < b.binds.len()
                    invariant
                        *self == Expr::Bind(*b),
                        t0 == old(log)@,
                        0 <= i <= b.binds@.len(),
                        extends(t0, log@),
                        forall|rest: Seq<u64>| #[trigger] binds_spec(&**b, 0, *env, appended(t0, log@) + rest) == binds_spec(&**b, i as int, cur, rest),
                    decreases b.binds@.len() - i,
                {
                    let entry = &b.binds[i];
                    let ghost tb = log@;
                    let ghost prev = cur;
                    proof {
                        assert(decreases_to!(*self => (*self)->Bind_0));
                        assert((*self)->Bind_0 == *b);
                        assert(decreases_to!(*b => b.binds));
                        assert(decreases_to!(b.binds => b.binds@));
                        assert(decreases_to!(b.binds@ => b.binds@[i as int]));
                        assert(decreases_to!(b.binds@[i as int] => b.binds@[i as int].1));
                        assert(*entry == b.binds@[i as int]);
                        assert(decreases_to!(*self => entry.1));
                    }
                    let v = entry.1.eval(&cur, host, log);
                    let ghost vg = v;
                    proof {
                        assert forall|rest: Seq<u64>| appended(t0, log@) + rest == appended(t0, tb) + (appended(tb, log@) + rest) by {
                            lemma_split(t0, tb, log@, rest);
                        }
                        lemma_split(t0, tb, log@, Seq::empty());
                    }
                    match v {
                        Err(x) => {
                            proof {
                                lemma_split(t0, tb, log@, Seq::empty());
                                assert forall|rest: Seq<u64>| #[trigger] eval_spec(self, *env, appended(t0, log@) + rest) == (Err::<Value<'a>, EvalError>(x), rest) by {
                                    lemma_split(t0, tb, log@, rest);
                                    assert(binds_spec(&**b, 0, *env, appended(t0, tb) + (appended(tb, log@) + rest)) == binds_spec(&**b, i as int, cur, appended(tb, log@) + rest));
                                    assert(eval_spec(&b.binds@[i as int].1, prev, appended(tb, log@) + rest) == (vg, rest));
                                }
                            }
                            return Err(x);
                        },
                        Ok(v) => {
                            cur = cur.extend(entry.0.clone(), v);
                        },
                    }
                    i += 1;
                    proof {
                        assert forall|rest: Seq<u64>| #[trigger] binds_spec(&**b, 0, *env, appended(t0, log@) + rest) == binds_spec(&**b, i as int, cur, rest) by {
                            lemma_split(t0, tb, log@, rest);
                            assert(binds_spec(&**b, 0, *env, appended(t0, tb) + (appended(tb, log@) + rest)) == binds_spec(&**b, i - 1, prev, appended(tb, log@) + rest));
                            assert(eval_spec(&b.binds@[i - 1].1, prev, appended(tb, log@) + rest) == (vg, rest));
                        }
                    }
                }
                let ghost tb = log@;
                let res = b.body.eval(&cur, host, log);
                proof {
                    lemma_split(t0, tb, log@, Seq::empty());
                    assert forall|rest: Seq<u64>| #[trigger] eval_spec(self, *env, appended(t0, log@) + rest) == (res, rest) by {
                        lemma_split(t0, tb, log@, rest);
                        assert(binds_spec(&**b, 0, *env, appended(t0, tb) + (appended(tb, log@) + rest)) == binds_spec(&**b, b.binds@.len() as int, cur, appended(tb, log@) + rest));
                        assert(eval_spec(&b.body, cur, appended(tb, log@) + rest) == (res, rest));
                    }
                }
                res
            },
            Expr::Ref(name) => {
                let res = match env.lookup(name) {
                    Some(v) => Ok(v),
                    None => Err(EvalError::UnboundIdentifier),
                };
                proof {
                    assert forall|rest: Seq<u64>| #[trigger] eval_spec(self, *env, appended(t0, log@) + rest) == (res, rest) by {
                        lemma_nothing_appended(t0, rest);
                    }
                }
                res
            },
            Expr::Literal(l) => {
                let res = Ok(literal_exec(l));
                proof {
                    assert forall|rest: Seq<u64>| #[trigger] eval_spec(self, *env, appended(t0, log@) + rest) == (res, rest) by {
                        lemma_nothing_appended(t0, rest);
                    }
                }
                res
            },
        }
    }
}

} // verus!
