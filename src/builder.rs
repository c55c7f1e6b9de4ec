//! Turns a syntax-tree document (ESTree-shaped JSON) into an expression.
//!
//! `build_error` gives the first problem met when building in document
//! order, or none; `builds_to` says which expression a successful build yields.
use vstd::prelude::*;
use crate::error::BuildError;
use crate::expr::{BinOp, BindExpr, BinaryExpr, CondExpr, Expr, FnExpr, Literal, UnaryExpr, UnaryOp};
use crate::json::{get, get_array, get_str, lemma_get_array_decreases, lemma_get_decreases, text_is, Json};

verus! {

pub open spec fn binop_of(s: Seq<char>) -> Option<BinOp> {
    if s == "+"@ { Some(BinOp::Add) }
    else if s == "-"@ { Some(BinOp::Sub) }
    else if s == "*"@ { Some(BinOp::Mul) }
    else if s == "/"@ { Some(BinOp::Div) }
    else if s == "%"@ { Some(BinOp::Rem) }
    else if s == "&&"@ { Some(BinOp::And) }
    else if s == "||"@ { Some(BinOp::Or) }
    else if s == "^"@ { Some(BinOp::BitXor) }
    else if s == "&"@ { Some(BinOp::BitAnd) }
    else if s == "|"@ { Some(BinOp::BitOr) }
    else if s == "<<"@ { Some(BinOp::Shl) }
    else if s == ">>"@ { Some(BinOp::Shr) }
    else if s == "=="@ { Some(BinOp::Eq) }
    else if s == "!="@ { Some(BinOp::Ne) }
    else if s == "<"@ { Some(BinOp::Lt) }
    else if s == "<="@ { Some(BinOp::Le) }
    else if s == ">"@ { Some(BinOp::Gt) }
    else if s == ">="@ { Some(BinOp::Ge) }
    else { None }
}

pub open spec fn unop_of(s: Seq<char>) -> Option<UnaryOp> {
    if s == "+"@ { Some(UnaryOp::Plus) }
    else if s == "-"@ { Some(UnaryOp::Minus) }
    else if s == "!"@ { Some(UnaryOp::Not) }
    else if s == "~"@ { Some(UnaryOp::BitNot) }
    else { None }
}

pub open spec fn first_of(a: Option<BuildError>, b: Option<BuildError>) -> Option<BuildError> {
    if a is Some {
        a
    } else {
        b
    }
}

pub open spec fn tag(j: Json) -> Option<Seq<char>> {
    get_str(j, "type"@)
}

pub open spec fn is_declaration(j: Json) -> bool {
    tag(j) == Some("VariableDeclaration"@)
}

/// The index of the first statement at or after `i` that is not a declaration.
pub open spec fn run_end(stmts: Seq<Json>, i: int) -> int
    decreases stmts.len() - i,
    when 0 <= i <= stmts.len()
{
    if i == stmts.len() || !is_declaration(stmts[i]) {
        i
    } else {
        run_end(stmts, i + 1)
    }
}

/// The literal a `value` member denotes.
pub open spec fn literal_of(v: Json) -> Option<Literal> {
    match v {
        Json::Int(i) => Some(Literal::Int(i)),
        Json::Float(b, t) => Some(Literal::Float(b, t)),
        Json::String(s) => Some(Literal::String(s)),
        Json::Bool(b) => Some(Literal::Bool(b)),
        _ => None,
    }
}

/// The first error met building node `j`, if any.
pub open spec fn build_error(j: Json) -> Option<BuildError>
    decreases j, 0int,
{
    proof {
        lemma_get_decreases(j, "left"@);
        lemma_get_decreases(j, "right"@);
        lemma_get_decreases(j, "body"@);
        lemma_get_array_decreases(j, "body"@);
        lemma_get_decreases(j, "argument"@);
        lemma_get_decreases(j, "test"@);
        lemma_get_decreases(j, "consequent"@);
        lemma_get_decreases(j, "alternate"@);
        lemma_get_decreases(j, "expression"@);
    }
    match tag(j) {
        None => Some(BuildError::MissingType),
        Some(t) => if t == "BinaryExpression"@ || t == "LogicalExpression"@ {
            match get_str(j, "operator"@) {
                None => Some(BuildError::MissingField),
                Some(op) => if binop_of(op) is None {
                    Some(BuildError::UnknownOperator)
                } else if get(j, "left"@) is None || get(j, "right"@) is None {
                    Some(BuildError::MissingField)
                } else {
                    first_of(build_error(get(j, "left"@)->0), build_error(get(j, "right"@)->0))
                },
            }
        } else if t == "BlockStatement"@ {
            match get_array(j, "body"@) {
                None => Some(BuildError::MissingField),
                Some(stmts) => statements_error(stmts),
            }
        } else if t == "FunctionExpression"@ {
            match get_array(j, "params"@) {
                None => Some(BuildError::MissingField),
                Some(ps) => if ps.len() != 1 {
                    Some(BuildError::UnsupportedParameters)
                } else if get_str(ps[0], "name"@) is None {
                    Some(BuildError::MissingField)
                } else {
                    match get(j, "body"@) {
                        None => Some(BuildError::MissingField),
                        Some(b) => build_error(b),
                    }
                },
            }
        } else if t == "UnaryExpression"@ {
            match get_str(j, "operator"@) {
                None => Some(BuildError::MissingField),
                Some(op) => if unop_of(op) is None {
                    Some(BuildError::UnknownOperator)
                } else {
                    match get(j, "argument"@) {
                        None => Some(BuildError::MissingField),
                        Some(a) => build_error(a),
                    }
                },
            }
        } else if t == "ConditionalExpression"@ {
            if get(j, "test"@) is None || get(j, "consequent"@) is None || get(j, "alternate"@) is None {
                Some(BuildError::MissingField)
            } else {
                first_of(
                    build_error(get(j, "test"@)->0),
                    first_of(build_error(get(j, "consequent"@)->0), build_error(get(j, "alternate"@)->0)),
                )
            }
        } else if t == "Literal"@ {
            match get(j, "value"@) {
                None => Some(BuildError::MissingField),
                Some(v) => if literal_of(v) is None {
                    Some(BuildError::UnsupportedLiteral)
                } else {
                    None
                },
            }
        } else if t == "Identifier"@ {
            if get_str(j, "name"@) is None {
                Some(BuildError::MissingField)
            } else {
                None
            }
        } else if t == "ExpressionStatement"@ {
            match get(j, "expression"@) {
                None => Some(BuildError::MissingField),
                Some(e) => build_error(e),
            }
        } else if t == "ReturnStatement"@ {
            match get(j, "argument"@) {
                None => Some(BuildError::MissingField),
                Some(a) => build_error(a),
            }
        } else {
            Some(BuildError::UnknownType)
        },
    }
}

pub proof fn lemma_run_end(stmts: Seq<Json>, i: int)
    requires
        0 <= i <= stmts.len(),
    ensures
        i <= run_end(stmts, i) <= stmts.len(),
        forall|k: int| i <= k < run_end(stmts, i) ==> is_declaration(#[trigger] stmts[k]),
        run_end(stmts, i) < stmts.len() ==> !is_declaration(stmts[run_end(stmts, i)]),
    decreases stmts.len() - i,
{
    if i < stmts.len() && is_declaration(stmts[i]) {
        lemma_run_end(stmts, i + 1);
    }
}

/// The first error met building a statement list: a run of declarations
/// followed by the statement they scope over, or one expression statement.
pub open spec fn statements_error(stmts: Seq<Json>) -> Option<BuildError>
    decreases stmts, stmts.len() + 1,
{
    proof {
        lemma_run_end(stmts, 0);
    }
    if stmts.len() == 0 {
        None
    } else {
        match tag(stmts[0]) {
            None => Some(BuildError::MissingType),
            Some(t) => if t == "VariableDeclaration"@ {
                let k: int = run_end(stmts, 0);
                first_of(
                    run_error(stmts, k),
                    if k < stmts.len() {
                        build_error(stmts[k])
                    } else {
                        Some(BuildError::BindingWithoutBody)
                    },
                )
            } else if t == "ExpressionStatement"@ || t == "ReturnStatement"@ {
                build_error(stmts[0])
            } else {
                Some(BuildError::UnsupportedStatement)
            },
        }
    }
}

/// The first error among the declaration statements `stmts[0..k]`.
pub open spec fn run_error(stmts: Seq<Json>, k: int) -> Option<BuildError>
    decreases stmts, k,
    when 0 <= k <= stmts.len()
{
    if k == 0 {
        None
    } else {
        first_of(run_error(stmts, k - 1), statement_decls_error(stmts[k - 1]))
    }
}

/// The first error among the declarators of one declaration statement.
pub open spec fn statement_decls_error(s: Json) -> Option<BuildError>
    decreases s, 0int,
{
    proof {
        lemma_get_array_decreases(s, "declarations"@);
    }
    match get_array(s, "declarations"@) {
        None => Some(BuildError::MissingField),
        Some(ds) => decls_error(ds, ds.len() as int),
    }
}

/// The first error among the declarators `ds[0..n]`.
pub open spec fn decls_error(ds: Seq<Json>, n: int) -> Option<BuildError>
    decreases ds, n,
    when 0 <= n <= ds.len()
{
    if n == 0 {
        None
    } else {
        first_of(decls_error(ds, n - 1), decl_error(ds[n - 1]))
    }
}

/// The error building one declarator `{id: {name}, init}`, if any.
pub open spec fn decl_error(d: Json) -> Option<BuildError>
    decreases d, 0int,
{
    proof {
        lemma_get_decreases(d, "init"@);
    }
    match get(d, "id"@) {
        None => Some(BuildError::MissingField),
        Some(id) => if get_str(id, "name"@) is None {
            Some(BuildError::MissingField)
        } else {
            match get(d, "init"@) {
                None => Some(BuildError::MissingField),
                Some(init) => build_error(init),
            }
        },
    }
}

pub open spec fn declarations_of(s: Json) -> Seq<Json> {
    match get_array(s, "declarations"@) {
        Some(ds) => ds,
        None => Seq::empty(),
    }
}

/// The declarators of the statements `stmts[0..k]`, in order.
pub open spec fn run_decls(stmts: Seq<Json>, k: int) -> Seq<Json>
    decreases k,
{
    if k <= 0 {
        Seq::empty()
    } else {
        run_decls(stmts, k - 1) + declarations_of(stmts[k - 1])
    }
}

pub open spec fn decl_name(d: Json) -> Seq<char> {
    get_str(get(d, "id"@)->0, "name"@)->0
}

pub open spec fn decl_init(d: Json) -> Json {
    get(d, "init"@)->0
}

/// `e` is what building node `j` yields, when it succeeds.
pub open spec fn builds_to(j: Json, e: Expr) -> bool
    decreases e, j,
{
    proof {
        lemma_get_array_decreases(j, "body"@);
        lemma_get_decreases(j, "expression"@);
        lemma_get_decreases(j, "argument"@);
    }
    match tag(j) {
        None => false,
        Some(t) => if t == "BinaryExpression"@ || t == "LogicalExpression"@ {
            match e {
                Expr::Binary(b) => Some(b.op) == binop_of(get_str(j, "operator"@)->0)
                    && builds_to(get(j, "left"@)->0, b.lhs) && builds_to(get(j, "right"@)->0, b.rhs),
                _ => false,
            }
        } else if t == "BlockStatement"@ {
            match get_array(j, "body"@) {
                Some(stmts) => statements_build(stmts, e),
                None => false,
            }
        } else if t == "FunctionExpression"@ {
            match e {
                Expr::Fn(f) => f.arg@ == get_str(get_array(j, "params"@)->0[0], "name"@)->0
                    && builds_to(get(j, "body"@)->0, f.body),
                _ => false,
            }
        } else if t == "UnaryExpression"@ {
            match e {
                Expr::Unary(u) => Some(u.op) == unop_of(get_str(j, "operator"@)->0)
                    && builds_to(get(j, "argument"@)->0, u.expr),
                _ => false,
            }
        } else if t == "ConditionalExpression"@ {
            match e {
                Expr::Conditional(c) => builds_to(get(j, "test"@)->0, c.test)
                    && builds_to(get(j, "consequent"@)->0, c.cons)
                    && builds_to(get(j, "alternate"@)->0, c.altr),
                _ => false,
            }
        } else if t == "Literal"@ {
            match e {
                Expr::Literal(l) => Some(l) == literal_of(get(j, "value"@)->0),
                _ => false,
            }
        } else if t == "Identifier"@ {
            match e {
                Expr::Ref(name) => Some(name@) == get_str(j, "name"@),
                _ => false,
            }
        } else if t == "ExpressionStatement"@ {
            match get(j, "expression"@) {
                Some(x) => builds_to(x, e),
                None => false,
            }
        } else if t == "ReturnStatement"@ {
            match get(j, "argument"@) {
                Some(x) => builds_to(x, e),
                None => false,
            }
        } else {
            false
        },
    }
}

/// `e` is what building the statement list `stmts` yields, when it succeeds;
/// an empty list yields the unit literal.
pub open spec fn statements_build(stmts: Seq<Json>, e: Expr) -> bool
    decreases e, stmts,
{
    if stmts.len() == 0 {
        e == Expr::Literal(Literal::Unit)
    } else if is_declaration(stmts[0]) {
        let k: int = run_end(stmts, 0);
        let ds = run_decls(stmts, k);
        match e {
            Expr::Bind(b) => {
                &&& b.binds@.len() == ds.len()
                &&& forall|i: int| 0 <= i < ds.len() ==> (#[trigger] b.binds@[i]).0@ == decl_name(ds[i])
                    && builds_to(decl_init(ds[i]), b.binds@[i].1)
                &&& 0 <= k < stmts.len()
                &&& builds_to(stmts[k], b.body)
            },
            _ => false,
        }
    } else {
        builds_to(stmts[0], e)
    }
}

/// `r` is the outcome of building node `j`.
pub open spec fn built(j: Json, r: Result<Expr, BuildError>) -> bool {
    match r {
        Ok(e) => build_error(j) is None && builds_to(j, e),
        Err(x) => build_error(j) == Some(x),
    }
}

/// `r` is the outcome of building the statement list `stmts`.
pub open spec fn statements_built(stmts: Seq<Json>, r: Result<Expr, BuildError>) -> bool {
    match r {
        Ok(e) => statements_error(stmts) is None && statements_build(stmts, e),
        Err(x) => statements_error(stmts) == Some(x),
    }
}

proof fn lemma_decls_error_sticks(ds: Seq<Json>, n: int, m: int)
    requires
        0 <= n <= m <= ds.len(),
        decls_error(ds, n) is Some,
    ensures
        decls_error(ds, m) == decls_error(ds, n),
    decreases m - n,
{
    if m > n {
        lemma_decls_error_sticks(ds, n, m - 1);
    }
}

proof fn lemma_run_error_sticks(stmts: Seq<Json>, n: int, m: int)
    requires
        0 <= n <= m <= stmts.len(),
        run_error(stmts, n) is Some,
    ensures
        run_error(stmts, m) == run_error(stmts, n),
    decreases m - n,
{
    if m > n {
        lemma_run_error_sticks(stmts, n, m - 1);
    }
}

/// The node kinds the builder knows are told apart by length and first letter.
pub proof fn reveal_tags()
    ensures
        "BinaryExpression"@.len() == 16 && "BinaryExpression"@[0] == 'B',
        "LogicalExpression"@.len() == 17 && "LogicalExpression"@[0] == 'L',
        "BlockStatement"@.len() == 14 && "BlockStatement"@[0] == 'B',
        "FunctionExpression"@.len() == 18 && "FunctionExpression"@[0] == 'F',
        "UnaryExpression"@.len() == 15 && "UnaryExpression"@[0] == 'U',
        "ConditionalExpression"@.len() == 21 && "ConditionalExpression"@[0] == 'C',
        "Literal"@.len() == 7 && "Literal"@[0] == 'L',
        "Identifier"@.len() == 10 && "Identifier"@[0] == 'I',
        "ExpressionStatement"@.len() == 19 && "ExpressionStatement"@[0] == 'E',
        "ReturnStatement"@.len() == 15 && "ReturnStatement"@[0] == 'R',
        "VariableDeclaration"@.len() == 19 && "VariableDeclaration"@[0] == 'V',
{
    reveal_strlit("BinaryExpression");
    reveal_strlit("LogicalExpression");
    reveal_strlit("BlockStatement");
    reveal_strlit("FunctionExpression");
    reveal_strlit("UnaryExpression");
    reveal_strlit("ConditionalExpression");
    reveal_strlit("Literal");
    reveal_strlit("Identifier");
    reveal_strlit("ExpressionStatement");
    reveal_strlit("ReturnStatement");
    reveal_strlit("VariableDeclaration");
}

fn parse_binop(s: &String) -> (r: Option<BinOp>)
    ensures
        r == binop_of(s@),
{
    if text_is(s, "+") { Some(BinOp::Add) }
    else if text_is(s, "-") { Some(BinOp::Sub) }
    else if text_is(s, "*") { Some(BinOp::Mul) }
    else if text_is(s, "/") { Some(BinOp::Div) }
    else if text_is(s, "%") { Some(BinOp::Rem) }
    else if text_is(s, "&&") { Some(BinOp::And) }
    else if text_is(s, "||") { Some(BinOp::Or) }
    else if text_is(s, "^") { Some(BinOp::BitXor) }
    else if text_is(s, "&") { Some(BinOp::BitAnd) }
    else if text_is(s, "|") { Some(BinOp::BitOr) }
    else if text_is(s, "<<") { Some(BinOp::Shl) }
    else if text_is(s, ">>") { Some(BinOp::Shr) }
    else if text_is(s, "==") { Some(BinOp::Eq) }
    else if text_is(s, "!=") { Some(BinOp::Ne) }
    else if text_is(s, "<") { Some(BinOp::Lt) }
    else if text_is(s, "<=") { Some(BinOp::Le) }
    else if text_is(s, ">") { Some(BinOp::Gt) }
    else if text_is(s, ">=") { Some(BinOp::Ge) }
    else { None }
}

fn parse_unop(s: &String) -> (r: Option<UnaryOp>)
    ensures
        r == unop_of(s@),
{
    if text_is(s, "+") { Some(UnaryOp::Plus) }
    else if text_is(s, "-") { Some(UnaryOp::Minus) }
    else if text_is(s, "!") { Some(UnaryOp::Not) }
    else if text_is(s, "~") { Some(UnaryOp::BitNot) }
    else { None }
}

fn is_declaration_exec(j: &Json) -> (r: bool)
    ensures
        r == is_declaration(*j),
{
    match j.get_str("type") {
        Some(t) => text_is(t, "VariableDeclaration"),
        None => false,
    }
}

fn build_binary(j: &Json) -> (r: Result<Expr, BuildError>)
    requires
        tag(*j) == Some("BinaryExpression"@) || tag(*j) == Some("LogicalExpression"@),
    ensures
        built(*j, r),
    decreases j, 1int,
{
    proof {
        reveal_tags();
    }
    let op = match j.get_str("operator") {
        None => {
            return Err(BuildError::MissingField);
        },
        Some(s) => s,
    };
    let op = match parse_binop(op) {
        None => {
            return Err(BuildError::UnknownOperator);
        },
        Some(o) => o,
    };
    let (l, r) = match (j.get("left"), j.get("right")) {
        (Some(l), Some(r)) => (l, r),
        _ => {
            return Err(BuildError::MissingField);
        },
    };
    proof {
        lemma_get_decreases(*j, "left"@);
        lemma_get_decreases(*j, "right"@);
    }
    let lhs = match Expr::new(l) {
        Err(x) => {
            return Err(x);
        },
        Ok(e) => e,
    };
    let rhs = match Expr::new(r) {
        Err(x) => {
            return Err(x);
        },
        Ok(e) => e,
    };
    Ok(Expr::Binary(Box::new(BinaryExpr { op, lhs, rhs })))
}

fn build_unary(j: &Json) -> (r: Result<Expr, BuildError>)
    requires
        tag(*j) == Some("UnaryExpression"@),
    ensures
        built(*j, r),
    decreases j, 1int,
{
    proof {
        reveal_tags();
    }
    let op = match j.get_str("operator") {
        None => {
            return Err(BuildError::MissingField);
        },
        Some(s) => s,
    };
    let op = match parse_unop(op) {
        None => {
            return Err(BuildError::UnknownOperator);
        },
        Some(o) => o,
    };
    let a = match j.get("argument") {
        None => {
            return Err(BuildError::MissingField);
        },
        Some(a) => a,
    };
    proof {
        lemma_get_decreases(*j, "argument"@);
    }
    match Expr::new(a) {
        Err(x) => Err(x),
        Ok(expr) => Ok(Expr::Unary(Box::new(UnaryExpr { op, expr }))),
    }
}

fn build_conditional(j: &Json) -> (r: Result<Expr, BuildError>)
    requires
        tag(*j) == Some("ConditionalExpression"@),
    ensures
        built(*j, r),
    decreases j, 1int,
{
    proof {
        reveal_tags();
    }
    let (t, c, a) = match (j.get("test"), j.get("consequent"), j.get("alternate")) {
        (Some(t), Some(c), Some(a)) => (t, c, a),
        _ => {
            return Err(BuildError::MissingField);
        },
    };
    proof {
        lemma_get_decreases(*j, "test"@);
        lemma_get_decreases(*j, "consequent"@);
        lemma_get_decreases(*j, "alternate"@);
    }
    let test = match Expr::new(t) {
        Err(x) => {
            return Err(x);
        },
        Ok(e) => e,
    };
    let cons = match Expr::new(c) {
        Err(x) => {
            return Err(x);
        },
        Ok(e) => e,
    };
    let altr = match Expr::new(a) {
        Err(x) => {
            return Err(x);
        },
        Ok(e) => e,
    };
    Ok(Expr::Conditional(Box::new(CondExpr { test, cons, altr })))
}

fn build_function(j: &Json) -> (r: Result<Expr, BuildError>)
    requires
        tag(*j) == Some("FunctionExpression"@),
    ensures
        built(*j, r),
    decreases j, 1int,
{
    proof {
        reveal_tags();
    }
    let ps = match j.get_array("params") {
        None => {
            return Err(BuildError::MissingField);
        },
        Some(ps) => ps,
    };
    if ps.len() != 1 {
        return Err(BuildError::UnsupportedParameters);
    }
    let arg = match ps[0].get_str("name") {
        None => {
            return Err(BuildError::MissingField);
        },
        Some(n) => n.clone(),
    };
    let b = match j.get("body") {
        None => {
            return Err(BuildError::MissingField);
        },
        Some(b) => b,
    };
    proof {
        lemma_get_decreases(*j, "body"@);
    }
    match Expr::new(b) {
        Err(x) => Err(x),
        Ok(body) => Ok(Expr::Fn(Box::new(FnExpr { arg, body }))),
    }
}

fn build_literal(j: &Json) -> (r: Result<Expr, BuildError>)
    requires
        tag(*j) == Some("Literal"@),
    ensures
        built(*j, r),
{
    proof {
        reveal_tags();
    }
    match j.get("value") {
        None => Err(BuildError::MissingField),
        Some(v) => match v {
            Json::Int(i) => Ok(Expr::Literal(Literal::Int(*i))),
            Json::Float(b, t) => Ok(Expr::Literal(Literal::Float(*b, t.clone()))),
            Json::String(s) => Ok(Expr::Literal(Literal::String(s.clone()))),
            Json::Bool(b) => Ok(Expr::Literal(Literal::Bool(*b))),
            _ => Err(BuildError::UnsupportedLiteral),
        },
    }
}

fn build_block(j: &Json) -> (r: Result<Expr, BuildError>)
    requires
        tag(*j) == Some("BlockStatement"@),
    ensures
        built(*j, r),
    decreases j, 1int,
{
    proof {
        reveal_tags();
    }
    match j.get_array("body") {
        None => Err(BuildError::MissingField),
        Some(stmts) => {
            proof {
                lemma_get_array_decreases(*j, "body"@);
            }
            Expr::from_body(stmts)
        },
    }
}

impl Expr {
    /// Builds the expression that syntax node `j` stands for.
    pub fn new(j: &Json) -> (r: Result<Expr, BuildError>)
        ensures
            built(*j, r),
        decreases j, 2int,
    {
        proof {
            reveal_tags();
        }
        let t = match j.get_str("type") {
            None => {
                return Err(BuildError::MissingType);
            },
            Some(t) => t,
        };
        if text_is(t, "BinaryExpression") || text_is(t, "LogicalExpression") {
            build_binary(j)
        } else if text_is(t, "BlockStatement") {
            build_block(j)
        } else if text_is(t, "FunctionExpression") {
            build_function(j)
        } else if text_is(t, "UnaryExpression") {
            build_unary(j)
        } else if text_is(t, "ConditionalExpression") {
            build_conditional(j)
        } else if text_is(t, "Literal") {
            build_literal(j)
        } else if text_is(t, "Identifier") {
            match j.get_str("name") {
                None => Err(BuildError::MissingField),
                Some(n) => Ok(Expr::Ref(n.clone())),
            }
        } else if text_is(t, "ExpressionStatement") {
            match j.get("expression") {
                None => Err(BuildError::MissingField),
                Some(x) => {
                    proof {
                        lemma_get_decreases(*j, "expression"@);
                    }
                    Expr::new(x)
                },
            }
        } else if text_is(t, "ReturnStatement") {
            match j.get("argument") {
                None => Err(BuildError::MissingField),
                Some(x) => {
                    proof {
                        lemma_get_decreases(*j, "argument"@);
                    }
                    Expr::new(x)
                },
            }
        } else {
            Err(BuildError::UnknownType)
        }
    }

    /// Builds the expression that a statement list stands for: a run of
    /// declarations scoping over the statement after it, or the first
    /// statement; an empty list stands for the unit literal.
    pub fn from_body(stmts: &Vec<Json>) -> (r: Result<Expr, BuildError>)
        ensures
            statements_built(stmts@, r),
        decreases stmts@, 1int,
    {
        proof {
            reveal_tags();
        }
        if stmts.len() == 0 {
            return Ok(Expr::Literal(Literal::Unit));
        }
        let first = &stmts[0];
        let t = match first.get_str("type") {
            None => {
                return Err(BuildError::MissingType);
            },
            Some(t) => t,
        };
        if text_is(t, "VariableDeclaration") {
            build_bindings(stmts)
        } else if text_is(t, "ExpressionStatement") || text_is(t, "ReturnStatement") {
            Expr::new(first)
        } else {
            Err(BuildError::UnsupportedStatement)
        }
    }
}

/// Whether `b` holds, in order, the bindings of the declarators `ds`.
pub open spec fn binds_match(b: Seq<(String, Expr)>, ds: Seq<Json>) -> bool {
    &&& b.len() == ds.len()
    &&& forall|i: int| 0 <= i < ds.len() ==> (#[trigger] b[i]).0@ == decl_name(ds[i]) && builds_to(decl_init(ds[i]), b[i].1)
}

/// Builds a run of declaration statements and the statement after it.
fn build_bindings(stmts: &Vec<Json>) -> (r: Result<Expr, BuildError>)
    requires
        stmts@.len() > 0,
        is_declaration(stmts@[0]),
    ensures
        statements_built(stmts@, r),
    decreases stmts@, 0int,
{
    proof {
        reveal_tags();
    }
    proof {
        lemma_run_end(stmts@, 0);
    }
    let mut binds: Vec<(String, Expr)> = Vec::new();
    let mut i: usize = 0;
    while i < stmts.len() && is_declaration_exec(&stmts[i])
        invariant
            stmts@.len() > 0,
            is_declaration(stmts@[0]),
            i <= stmts@.len(),
            run_end(stmts@, 0) == run_end(stmts@, i as int),
            run_error(stmts@, i as int) is None,
            binds_match(binds@, run_decls(stmts@, i as int)),
        decreases stmts@.len() - i,
    {
        let ghost before = binds@;
        let ghost flat = run_decls(stmts@, i as int);
        let ds = match stmts[i].get_array("declarations") {
            None => {
                proof {
                    assert(statement_decls_error(stmts@[i as int]) == Some(BuildError::MissingField));
                    assert(run_error(stmts@, i + 1) == Some(BuildError::MissingField));
                    lemma_run_end(stmts@, i as int);
                    lemma_run_error_sticks(stmts@, i + 1, run_end(stmts@, 0));
                }
                return Err(BuildError::MissingField);
            },
            Some(ds) => ds,
        };
        proof {
            lemma_get_array_decreases(stmts@[i as int], "declarations"@);
        }
        let mut n: usize = 0;
        while n < ds.len()
            invariant
                i < stmts@.len(),
                is_declaration(stmts@[i as int]),
                get_array(stmts@[i as int], "declarations"@) == Some(ds@),
                decreases_to!(stmts@ => ds@),
                stmts@.len() > 0,
                is_declaration(stmts@[0]),
                run_end(stmts@, 0) == run_end(stmts@, i as int),
                run_error(stmts@, i as int) is None,
                flat == run_decls(stmts@, i as int),
                n <= ds@.len(),
                decls_error(ds@, n as int) is None,
                binds_match(binds@, flat + ds@.take(n as int)),
            decreases ds@.len() - n,
        {
            let d = &ds[n];
            let name = match d.get("id") {
                None => {
                    proof {
                        assert(decl_error(*d) == Some(BuildError::MissingField));
                        assert(decls_error(ds@, n + 1) == Some(BuildError::MissingField));
                        lemma_decls_error_sticks(ds@, n + 1, ds@.len() as int);
                        assert(statement_decls_error(stmts@[i as int]) == decls_error(ds@, n + 1));
                        assert(run_error(stmts@, i + 1) == Some(BuildError::MissingField));
                        lemma_run_end(stmts@, i as int);
                        lemma_run_error_sticks(stmts@, i + 1, run_end(stmts@, 0));
                    }
                    return Err(BuildError::MissingField);
                },
                Some(id) => match id.get_str("name") {
                    None => {
                        proof {
                            assert(decl_error(*d) == Some(BuildError::MissingField));
                            assert(decls_error(ds@, n + 1) == Some(BuildError::MissingField));
                            lemma_decls_error_sticks(ds@, n + 1, ds@.len() as int);
                            assert(statement_decls_error(stmts@[i as int]) == decls_error(ds@, n + 1));
                            assert(run_error(stmts@, i + 1) == Some(BuildError::MissingField));
                            lemma_run_end(stmts@, i as int);
                            lemma_run_error_sticks(stmts@, i + 1, run_end(stmts@, 0));
                        }
                        return Err(BuildError::MissingField);
                    },
                    Some(nm) => nm,
                },
            };
            let init = match d.get("init") {
                None => {
                    proof {
                        assert(decl_error(*d) == Some(BuildError::MissingField));
                        assert(decls_error(ds@, n + 1) == Some(BuildError::MissingField));
                        lemma_decls_error_sticks(ds@, n + 1, ds@.len() as int);
                        assert(statement_decls_error(stmts@[i as int]) == decls_error(ds@, n + 1));
                        assert(run_error(stmts@, i + 1) == Some(BuildError::MissingField));
                        lemma_run_end(stmts@, i as int);
                        lemma_run_error_sticks(stmts@, i + 1, run_end(stmts@, 0));
                    }
                    return Err(BuildError::MissingField);
                },
                Some(x) => x,
            };
            proof {
                assert(decreases_to!(ds@ => ds@[n as int]));
                lemma_get_decreases(*d, "init"@);
            }
            let e = match Expr::new(init) {
                Err(x) => {
                    proof {
                        assert(decl_error(*d) == Some(x));
                        assert(decls_error(ds@, n + 1) == Some(x));
                        lemma_decls_error_sticks(ds@, n + 1, ds@.len() as int);
                        assert(statement_decls_error(stmts@[i as int]) == decls_error(ds@, n + 1));
                        assert(run_error(stmts@, i + 1) == Some(x));
                        lemma_run_end(stmts@, i as int);
                        lemma_run_error_sticks(stmts@, i + 1, run_end(stmts@, 0));
                    }
                    return Err(x);
                },
                Ok(e) => e,
            };
            let ghost prev = binds@;
            binds.push((name.clone(), e));
            n += 1;
            proof {
                assert(decl_error(*d) is None);
                assert((flat + ds@.take(n as int)) =~= (flat + ds@.take(n - 1)).push(ds@[n - 1]));
                assert(binds_match(binds@, flat + ds@.take(n as int)));
            }
        }
        proof {
            assert(ds@.take(n as int) =~= ds@);
            assert(declarations_of(stmts@[i as int]) == ds@);
            assert(run_decls(stmts@, i + 1) == flat + ds@);
            assert(statement_decls_error(stmts@[i as int]) is None);
            assert(run_error(stmts@, i + 1) is None);
            lemma_run_end(stmts@, i as int);
        }
        i += 1;
    }
    proof {
        lemma_run_end(stmts@, i as int);
    }
    if i >= stmts.len() {
        return Err(BuildError::BindingWithoutBody);
    }
    proof {
        assert(decreases_to!(stmts@ => stmts@[i as int]));
    }
    match Expr::new(&stmts[i]) {
        Err(x) => Err(x),
        Ok(body) => Ok(Expr::Bind(Box::new(BindExpr { binds, body }))),
    }
}

} // verus!
