//! Properties of the language that hold for every input, stated over the
//! evaluator's and the printer's specifications.
use vstd::prelude::*;
use crate::builder::{builds_to, reveal_tags, tag};
use crate::error::EvalError;
use crate::eval::{abs, eval_spec, truncate_toward_zero};
use crate::expr::{BinOp, BinaryExpr, CondExpr, Expr, Literal};
use crate::ieee;
use crate::json::{get, Json};
use crate::print::{all_ascii_digits, decimal, digits, expr_text, value_text};
use crate::value::{Environ, Value};

verus! {

pub open spec fn binary_of(op: BinOp, lhs: Expr, rhs: Expr) -> Expr {
    Expr::Binary(Box::new(BinaryExpr { op, lhs, rhs }))
}

pub open spec fn bool_literal(b: bool) -> Expr {
    Expr::Literal(Literal::Bool(b))
}

pub open spec fn int_literal(i: i64) -> Expr {
    Expr::Literal(Literal::Int(i))
}

/// Integer, float, boolean and string values: the variants that `==` compares.
pub open spec fn comparable(v: Value) -> bool {
    v is Int || v is Float || v is Bool || v is String
}

pub open spec fn same_variant(l: Value, r: Value) -> bool {
    ||| l is Int && r is Int
    ||| l is Float && r is Float
    ||| l is Bool && r is Bool
    ||| l is String && r is String
}

/// Equality by value within a variant (IEEE equality for floats).
pub open spec fn value_equal(l: Value, r: Value) -> bool {
    match (l, r) {
        (Value::Int(a), Value::Int(b)) => a == b,
        (Value::Float(a), Value::Float(b)) => ieee::same(a, b),
        (Value::Bool(a), Value::Bool(b)) => a == b,
        (Value::String(a), Value::String(b)) => a@ == b@,
        _ => false,
    }
}

/// `a / b` on integers rounds toward zero, whenever `b` is nonzero and the
/// quotient fits in 64 bits (that is, unless `a` is the least integer and `b` is -1).
pub proof fn law_integer_division_truncates<'a>(e: &'a Expr, a: i64, b: i64, env: Environ<'a>, t: Seq<u64>)
    requires
        *e == binary_of(BinOp::Div, int_literal(a), int_literal(b)),
        b != 0,
        !(a == i64::MIN && b == -1),
    ensures
        eval_spec(e, env, t) == (Ok::<Value<'a>, EvalError>(Value::Int(truncate_toward_zero(a as int, b as int) as i64)), t),
        i64::MIN <= truncate_toward_zero(a as int, b as int) <= i64::MAX,
{
    let q: int = abs(a as int) / abs(b as int);
    assert(0 <= q <= abs(a as int)) by (nonlinear_arith)
        requires
            abs(b as int) >= 1,
            abs(a as int) >= 0,
            q == abs(a as int) / abs(b as int),
    ;
    if abs(b as int) >= 2 {
        assert(q <= abs(a as int) / 2) by (nonlinear_arith)
            requires
                abs(b as int) >= 2,
                abs(a as int) >= 0,
                q == abs(a as int) / abs(b as int),
        ;
    } else {
        assert(q == abs(a as int));
    }
    let node = (*e)->Binary_0;
    assert(eval_spec(&node.lhs, env, t) == (Ok::<Value<'a>, EvalError>(Value::Int(a)), t));
    assert(eval_spec(&node.rhs, env, t) == (Ok::<Value<'a>, EvalError>(Value::Int(b)), t));
}

/// Division by an integer zero, or by a float zero of either sign, fails,
/// whatever the dividend; the host is never asked.
pub proof fn law_division_by_zero<'a>(e: &'a Expr, lhs: &'a Expr, rhs: &'a Expr, env: Environ<'a>, t: Seq<u64>, t1: Seq<u64>, t2: Seq<u64>, l: Value<'a>, r: Value<'a>)
    requires
        *e == binary_of(BinOp::Div, *lhs, *rhs),
        eval_spec(lhs, env, t) == (Ok::<Value<'a>, EvalError>(l), t1),
        eval_spec(rhs, env, t1) == (Ok::<Value<'a>, EvalError>(r), t2),
        (l is Int && r == Value::<'a>::Int(0)) || (l is Float && r is Float && ieee::is_zero(r->Float_0)),
    ensures
        eval_spec(e, env, t) == (Err::<Value<'a>, EvalError>(EvalError::DivisionByZero), t2),
{
}

/// `false && x` is false and evaluates nothing of `x`, whatever `x` is.
pub proof fn law_and_short_circuits<'a>(e: &'a Expr, x: Expr, env: Environ<'a>, t: Seq<u64>)
    requires
        *e == binary_of(BinOp::And, bool_literal(false), x),
    ensures
        eval_spec(e, env, t) == (Ok::<Value<'a>, EvalError>(Value::Bool(false)), t),
{
    let node = (*e)->Binary_0;
    assert(eval_spec(&node.lhs, env, t) == (Ok::<Value<'a>, EvalError>(Value::Bool(false)), t));
}

/// `true || x` is true and evaluates nothing of `x`, whatever `x` is.
pub proof fn law_or_short_circuits<'a>(e: &'a Expr, x: Expr, env: Environ<'a>, t: Seq<u64>)
    requires
        *e == binary_of(BinOp::Or, bool_literal(true), x),
    ensures
        eval_spec(e, env, t) == (Ok::<Value<'a>, EvalError>(Value::Bool(true)), t),
{
    let node = (*e)->Binary_0;
    assert(eval_spec(&node.lhs, env, t) == (Ok::<Value<'a>, EvalError>(Value::Bool(true)), t));
}

/// A conditional evaluates exactly the branch its test picks: `true ? c : a`
/// is `c` and `false ? c : a` is `a`, whatever the other branch is.
pub proof fn law_conditional_is_lazy<'a>(e: &'a Expr, test: bool, cons: &'a Expr, altr: &'a Expr, env: Environ<'a>, t: Seq<u64>)
    requires
        *e == Expr::Conditional(Box::new(CondExpr { test: bool_literal(test), cons: *cons, altr: *altr })),
    ensures
        test ==> eval_spec(e, env, t) == eval_spec(cons, env, t),
        !test ==> eval_spec(e, env, t) == eval_spec(altr, env, t),
{
    let node = (*e)->Conditional_0;
    assert(eval_spec(&node.test, env, t) == (Ok::<Value<'a>, EvalError>(Value::Bool(test)), t));
}

/// A reference to a name that no enclosing binding introduces fails.
pub proof fn law_unbound_reference<'a>(e: &'a Expr, name: String, env: Environ<'a>, t: Seq<u64>)
    requires
        *e == Expr::Ref(name),
        env.lookup_spec(name@) is None,
    ensures
        eval_spec(e, env, t) == (Err::<Value<'a>, EvalError>(EvalError::UnboundIdentifier), t),
{
}

/// `==` on integers, floats, booleans and strings fails across variants and
/// is equality by value within one.
pub proof fn law_equality<'a>(e: &'a Expr, lhs: &'a Expr, rhs: &'a Expr, env: Environ<'a>, t: Seq<u64>, t1: Seq<u64>, t2: Seq<u64>, l: Value<'a>, r: Value<'a>)
    requires
        *e == binary_of(BinOp::Eq, *lhs, *rhs),
        eval_spec(lhs, env, t) == (Ok::<Value<'a>, EvalError>(l), t1),
        eval_spec(rhs, env, t1) == (Ok::<Value<'a>, EvalError>(r), t2),
        comparable(l),
        comparable(r),
    ensures
        same_variant(l, r) ==> eval_spec(e, env, t) == (Ok::<Value<'a>, EvalError>(Value::Bool(value_equal(l, r))), t2),
        !same_variant(l, r) ==> eval_spec(e, env, t) == (Err::<Value<'a>, EvalError>(EvalError::ComparisonOperands), t2),
{
}

proof fn lemma_digits_are_ascii(n: nat)
    ensures
        all_ascii_digits(digits(n)),
    decreases n,
{
    if n >= 10 {
        lemma_digits_are_ascii(n / 10);
    }
}

/// A literal node holding a non-negative integer `n` builds to an expression
/// that prints as `(number n)` and evaluates to the integer `n`, which prints
/// as `(value (number n))`.
pub proof fn law_integer_literal_round_trip<'a>(j: Json, e: &'a Expr, n: i64, env: Environ<'a>, t: Seq<u64>)
    requires
        tag(j) == Some("Literal"@),
        get(j, "value"@) == Some(Json::Int(n)),
        n >= 0,
        builds_to(j, *e),
    ensures
        expr_text(*e) == "(number "@ + decimal(n as int) + ")"@,
        eval_spec(e, env, t) == (Ok::<Value<'a>, EvalError>(Value::Int(n)), t),
        value_text(Value::Int(n), Seq::empty()) == "(value (number "@ + decimal(n as int) + "))"@,
{
    reveal_tags();
    lemma_digits_are_ascii(n as nat);
}

} // verus!
