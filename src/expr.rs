//! The immutable expression tree and its operators.
use vstd::prelude::*;

verus! {

/// Prefix operators.
#[derive(PartialEq, Eq, Structural, Clone, Copy, Debug)]
pub enum UnaryOp {
    /// `+`: absolute value of a number.
    Plus,
    /// `-`: arithmetic negation.
    Minus,
    /// `!`: logical negation.
    Not,
    /// `~`: bitwise complement.
    BitNot,
}

/// Infix operators.
#[derive(PartialEq, Eq, Structural, Clone, Copy, Debug)]
pub enum BinOp {
    Add,
    Sub,
    Mul,
    Div,
    Rem,
    And,
    Or,
    BitXor,
    BitAnd,
    BitOr,
    Shl,
    Shr,
    Eq,
    Lt,
    Le,
    Ne,
    Ge,
    Gt,
}

/// The families that decide which operand variants an operator accepts.
#[derive(PartialEq, Eq, Structural, Clone, Copy, Debug)]
pub enum OpClass {
    /// `+ - * /`
    Arithmetic,
    /// `< <= > >= == !=`
    Relational,
    /// `% ^ & | << >>`
    Integer,
    /// `&& ||`
    Logical,
}

impl BinOp {
    pub open spec fn class_spec(self) -> OpClass {
        match self {
            BinOp::Add | BinOp::Sub | BinOp::Mul | BinOp::Div => OpClass::Arithmetic,
            BinOp::Eq | BinOp::Ne | BinOp::Lt | BinOp::Le | BinOp::Gt | BinOp::Ge => OpClass::Relational,
            BinOp::Rem | BinOp::BitXor | BinOp::BitAnd | BinOp::BitOr | BinOp::Shl | BinOp::Shr => OpClass::Integer,
            BinOp::And | BinOp::Or => OpClass::Logical,
        }
    }

    #[verifier::when_used_as_spec(class_spec)]
    pub fn class(self) -> (r: OpClass)
        ensures
            r == self.class_spec(),
    {
        match self {
            BinOp::Add | BinOp::Sub | BinOp::Mul | BinOp::Div => OpClass::Arithmetic,
            BinOp::Eq | BinOp::Ne | BinOp::Lt | BinOp::Le | BinOp::Gt | BinOp::Ge => OpClass::Relational,
            BinOp::Rem | BinOp::BitXor | BinOp::BitAnd | BinOp::BitOr | BinOp::Shl | BinOp::Shr => OpClass::Integer,
            BinOp::And | BinOp::Or => OpClass::Logical,
        }
    }
}

/// A constant written in the source.
#[derive(Debug)]
pub enum Literal {
    Int(i64),
    /// An IEEE-754 double as its bit pattern, with the text it was written as.
    Float(u64, String),
    Bool(bool),
    String(String),
    /// The value of an empty block.
    Unit,
}

#[derive(Debug)]
pub struct BinaryExpr {
    pub op: BinOp,
    pub lhs: Expr,
    pub rhs: Expr,
}

#[derive(Debug)]
pub struct UnaryExpr {
    pub op: UnaryOp,
    pub expr: Expr,
}

#[derive(Debug)]
pub struct CondExpr {
    pub test: Expr,
    pub cons: Expr,
    pub altr: Expr,
}

/// A run of bindings, each visible to those after it, and the body they scope over.
#[derive(Debug)]
pub struct BindExpr {
    pub binds: Vec<(String, Expr)>,
    pub body: Expr,
}

/// A single-parameter function literal.
#[derive(Debug)]
pub struct FnExpr {
    pub arg: String,
    pub body: Expr,
}

#[derive(Debug)]
pub enum Expr {
    Binary(Box<BinaryExpr>),
    Unary(Box<UnaryExpr>),
    Conditional(Box<CondExpr>),
    Fn(Box<FnExpr>),
    Bind(Box<BindExpr>),
    Ref(String),
    Literal(Literal),
}

} // verus!
