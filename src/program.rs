//! A whole program: the expression a statement list stands for.
use vstd::prelude::*;
use crate::builder::statements_built;
use crate::error::{BuildError, EvalError};
use crate::eval::{appended, eval_spec, FloatHost};
use crate::expr::Expr;
use crate::json::Json;
use crate::print::expr_text;
use crate::value::{Environ, Value};

verus! {

#[derive(Debug)]
pub struct Program {
    pub statement: Expr,
}

impl Program {
    /// Builds a program from its top-level statement list; a document that is
    /// not a list has no statements to read.
    pub fn new(body: &Json) -> (r: Result<Program, BuildError>)
        ensures
            match body {
                Json::Array(stmts) => match r {
                    Ok(p) => statements_built(stmts@, Ok(p.statement)),
                    Err(x) => statements_built(stmts@, Err(x)),
                },
                _ => r == Err::<Program, BuildError>(BuildError::MissingField),
            },
    {
        match body {
            Json::Array(stmts) => match Expr::from_body(stmts) {
                Ok(statement) => Ok(Program { statement }),
                Err(x) => Err(x),
            },
            _ => Err(BuildError::MissingField),
        }
    }

    /// Evaluates the program in the empty environment. The result is what
    /// `eval_spec` gives for the float results the host produced.
    pub fn run<'a, H: FloatHost>(&'a self, host: &H) -> (r: Result<Value<'a>, EvalError>)
        ensures
            exists|t: Seq<u64>| eval_spec(&self.statement, Environ::Empty, t) == (r, Seq::<u64>::empty()),
    {
        let mut log: Vec<u64> = Vec::new();
        let env = Environ::empty();
        let r = self.statement.eval(&env, host, &mut log);
        proof {
            let t = appended(Seq::<u64>::empty(), log@);
            assert(t + Seq::<u64>::empty() =~= t);
            assert(eval_spec(&self.statement, env, t + Seq::<u64>::empty()) == (r, Seq::<u64>::empty()));
        }
        r
    }

    /// The canonical text of the program's expression.
    pub fn render(&self) -> (r: String)
        ensures
            r@ == expr_text(self.statement),
    {
        self.statement.render()
    }
}

} // verus!
