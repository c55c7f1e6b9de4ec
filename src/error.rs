//! The two failure kinds: a syntax tree that cannot be built, and an
//! expression that cannot be evaluated.
use vstd::prelude::*;

verus! {

/// Why a syntax tree could not be turned into an expression.
#[derive(PartialEq, Eq, Structural, Clone, Copy, Debug)]
pub enum BuildError {
    /// A node has no `type` tag, or it is not a string.
    MissingType,
    /// A node's `type` tag names no supported kind.
    UnknownType,
    /// A field that the node's kind requires is absent or of the wrong shape.
    MissingField,
    /// An operator that is not in the operator table.
    UnknownOperator,
    /// A literal whose value is not an integer, a float, a string or a boolean.
    UnsupportedLiteral,
    /// A function literal that does not have exactly one parameter.
    UnsupportedParameters,
    /// A statement list that holds a statement of an unsupported kind.
    UnsupportedStatement,
    /// A run of declarations with nothing after it.
    BindingWithoutBody,
}

/// Why an expression could not be evaluated.
#[derive(PartialEq, Eq, Structural, Clone, Copy, Debug)]
pub enum EvalError {
    /// `/` or `%` by zero.
    DivisionByZero,
    /// A reference to a name that no enclosing binding introduces.
    UnboundIdentifier,
    /// An integer result outside the 64-bit signed range.
    IntegerOverflow,
    /// A shift count outside `0..64`.
    ShiftOutOfRange,
    /// `+ - * /` or unary `+ -` on operands that are not two integers or two floats.
    NumericOperands,
    /// A comparison of operands of different variants, or an ordering of non-numbers.
    ComparisonOperands,
    /// `% ^ & | << >> ~` on a non-integer.
    IntegerOperands,
    /// `&& || !` on a non-boolean.
    BooleanOperands,
    /// A conditional whose test is not a boolean.
    NonBooleanTest,
}

impl EvalError {
    /// The text of `message`.
    pub open spec fn reason(self) -> Seq<char> {
        match self {
            EvalError::DivisionByZero => "division by zero"@,
            EvalError::UnboundIdentifier => "unbound identifier"@,
            EvalError::IntegerOverflow => "integer overflow"@,
            EvalError::ShiftOutOfRange => "shift count out of range"@,
            EvalError::NumericOperands => "arithmetic on non-numbers or mixed numbers"@,
            EvalError::ComparisonOperands => "comparison of mismatched or unordered values"@,
            EvalError::IntegerOperands => "bit operation on non-integers"@,
            EvalError::BooleanOperands => "logical operation on non-booleans"@,
            EvalError::NonBooleanTest => "conditional test is not a boolean"@,
        }
    }

    /// A human-readable reason.
    pub fn message(&self) -> (r: &'static str)
        ensures
            r@ == self.reason(),
    {
        match self {
            EvalError::DivisionByZero => "division by zero",
            EvalError::UnboundIdentifier => "unbound identifier",
            EvalError::IntegerOverflow => "integer overflow",
            EvalError::ShiftOutOfRange => "shift count out of range",
            EvalError::NumericOperands => "arithmetic on non-numbers or mixed numbers",
            EvalError::ComparisonOperands => "comparison of mismatched or unordered values",
            EvalError::IntegerOperands => "bit operation on non-integers",
            EvalError::BooleanOperands => "logical operation on non-booleans",
            EvalError::NonBooleanTest => "conditional test is not a boolean",
        }
    }
}

impl BuildError {
    /// The text of `message`.
    pub open spec fn reason(self) -> Seq<char> {
        match self {
            BuildError::MissingType => "node without a type tag"@,
            BuildError::UnknownType => "unsupported node type"@,
            BuildError::MissingField => "missing or malformed field"@,
            BuildError::UnknownOperator => "unknown operator"@,
            BuildError::UnsupportedLiteral => "unsupported literal value"@,
            BuildError::UnsupportedParameters => "function literal without exactly one parameter"@,
            BuildError::UnsupportedStatement => "unsupported statement"@,
            BuildError::BindingWithoutBody => "binding with no body"@,
        }
    }

    /// A human-readable reason.
    pub fn message(&self) -> (r: &'static str)
        ensures
            r@ == self.reason(),
    {
        match self {
            BuildError::MissingType => "node without a type tag",
            BuildError::UnknownType => "unsupported node type",
            BuildError::MissingField => "missing or malformed field",
            BuildError::UnknownOperator => "unknown operator",
            BuildError::UnsupportedLiteral => "unsupported literal value",
            BuildError::UnsupportedParameters => "function literal without exactly one parameter",
            BuildError::UnsupportedStatement => "unsupported statement",
            BuildError::BindingWithoutBody => "binding with no body",
        }
    }
}

} // verus!
