//! The canonical parenthesized text of expressions and values.
use vstd::prelude::*;
use vstd::string::StrSliceExecFns;
use crate::eval::FloatHost;
use crate::expr::{BinOp, BindExpr, Expr, Literal, OpClass, UnaryOp};
use crate::value::Value;

verus! {

pub open spec fn digit_char(d: int) -> char {
    if d == 0 { '0' }
    else if d == 1 { '1' }
    else if d == 2 { '2' }
    else if d == 3 { '3' }
    else if d == 4 { '4' }
    else if d == 5 { '5' }
    else if d == 6 { '6' }
    else if d == 7 { '7' }
    else if d == 8 { '8' }
    else { '9' }
}

/// The decimal digits of `n`, most significant first, without leading zeros.
pub open spec fn digits(n: nat) -> Seq<char>
    decreases n,
{
    if n < 10 {
        seq![digit_char(n as int)]
    } else {
        digits(n / 10).push(digit_char((n % 10) as int))
    }
}

/// `n` in decimal, with a leading `-` when negative.
pub open spec fn decimal(n: int) -> Seq<char> {
    if n < 0 {
        seq!['-'] + digits((-n) as nat)
    } else {
        digits(n as nat)
    }
}

pub open spec fn is_ascii_digit(c: char) -> bool {
    '0' <= c && c <= '9'
}

pub open spec fn all_ascii_digits(s: Seq<char>) -> bool {
    forall|i: int| 0 <= i < s.len() ==> is_ascii_digit(#[trigger] s[i])
}

pub open spec fn bool_text(b: bool) -> Seq<char> {
    if b {
        "true"@
    } else {
        "false"@
    }
}

pub open spec fn binary_symbol(op: BinOp) -> Seq<char> {
    match op {
        BinOp::Add => "+"@,
        BinOp::Sub => "-"@,
        BinOp::Mul => "*"@,
        BinOp::Div => "/"@,
        BinOp::Rem => "%"@,
        BinOp::And => "&&"@,
        BinOp::Or => "||"@,
        BinOp::BitXor => "^"@,
        BinOp::BitAnd => "&"@,
        BinOp::BitOr => "|"@,
        BinOp::Shl => "<<"@,
        BinOp::Shr => ">>"@,
        BinOp::Eq => "=="@,
        BinOp::Lt => "<"@,
        BinOp::Le => "<="@,
        BinOp::Ne => "!="@,
        BinOp::Ge => ">="@,
        BinOp::Gt => ">"@,
    }
}

/// The class word of a binary node; the integer operators print as arithmetic.
pub open spec fn class_word(op: BinOp) -> Seq<char> {
    match op.class_spec() {
        OpClass::Relational => "relational"@,
        OpClass::Logical => "logical"@,
        _ => "arithmetic"@,
    }
}

pub open spec fn unary_symbol(op: UnaryOp) -> Seq<char> {
    match op {
        UnaryOp::Plus => "+"@,
        UnaryOp::Minus => "-"@,
        UnaryOp::Not => "!"@,
        UnaryOp::BitNot => "~"@,
    }
}

/// The text a literal was written as.
pub open spec fn literal_source(l: Literal) -> Seq<char> {
    match l {
        Literal::Int(n) => decimal(n as int),
        Literal::Float(_, t) => t@,
        Literal::Bool(b) => bool_text(b),
        Literal::String(s) => s@,
        Literal::Unit => "()"@,
    }
}

/// `(number N)` when the literal's text is all ASCII digits, else `(boolean B)`.
pub open spec fn literal_text(l: Literal) -> Seq<char> {
    if all_ascii_digits(literal_source(l)) {
        "(number "@ + literal_source(l) + ")"@
    } else {
        "(boolean "@ + literal_source(l) + ")"@
    }
}

pub open spec fn expr_text(e: Expr) -> Seq<char>
    decreases e, 0nat,
{
    match e {
        Expr::Binary(b) => "("@ + class_word(b.op) + " "@ + binary_symbol(b.op) + " "@ + expr_text(b.lhs) + " "@
            + expr_text(b.rhs) + ")"@,
        Expr::Unary(u) => "(unary "@ + unary_symbol(u.op) + " "@ + expr_text(u.expr) + ")"@,
        Expr::Conditional(c) => "(conditional "@ + expr_text(c.test) + " "@ + expr_text(c.cons) + " "@
            + expr_text(c.altr) + ")"@,
        Expr::Fn(f) => "(fn ("@ + f.arg@ + ") "@ + expr_text(f.body) + ")"@,
        Expr::Bind(b) => "(let "@ + binds_text(*b, b.binds@.len() as int) + ")"@,
        Expr::Ref(name) => name@,
        Expr::Literal(l) => literal_text(l),
    }
}

/// `name = value, ` for each of the first `n` bindings.
pub open spec fn binds_text(b: BindExpr, n: int) -> Seq<char>
    decreases b, n,
    when 0 <= n <= b.binds@.len()
{
    if n == 0 {
        Seq::empty()
    } else {
        binds_text(b, n - 1) + b.binds@[n - 1].0@ + " = "@ + expr_text(b.binds@[n - 1].1) + ", "@
    }
}

/// The text of a value; `float_text` is what stands for the number of a float.
pub open spec fn value_text(v: Value, float_text: Seq<char>) -> Seq<char> {
    match v {
        Value::Int(n) => "(value (number "@ + decimal(n as int) + "))"@,
        Value::Float(_) => "(value (number "@ + float_text + "))"@,
        Value::Bool(b) => "(value (boolean "@ + bool_text(b) + "))"@,
        Value::String(s) => "(value (string "@ + s@ + "))"@,
        Value::Fn(_) => "(value (function))"@,
        Value::Unit => "(value ())"@,
    }
}

fn digit_str(d: u64) -> (r: &'static str)
    requires
        d < 10,
    ensures
        r@ == seq![digit_char(d as int)],
{
    proof {
        reveal_strlit("0");
        reveal_strlit("1");
        reveal_strlit("2");
        reveal_strlit("3");
        reveal_strlit("4");
        reveal_strlit("5");
        reveal_strlit("6");
        reveal_strlit("7");
        reveal_strlit("8");
        reveal_strlit("9");
    }
    let r = if d == 0 { "0" }
        else if d == 1 { "1" }
        else if d == 2 { "2" }
        else if d == 3 { "3" }
        else if d == 4 { "4" }
        else if d == 5 { "5" }
        else if d == 6 { "6" }
        else if d == 7 { "7" }
        else if d == 8 { "8" }
        else { "9" };
    assert(r@ =~= seq![digit_char(d as int)]);
    r
}

fn write_digits(out: &mut String, n: u64)
    ensures
        final(out)@ == old(out)@ + digits(n as nat),
    decreases n,
{
    if n >= 10 {
        write_digits(out, n / 10);
    }
    out.append(digit_str(n % 10));
    assert(out@ =~= old(out)@ + digits(n as nat));
}

fn write_decimal(out: &mut String, n: i64)
    ensures
        final(out)@ == old(out)@ + decimal(n as int),
{
    if n < 0 {
        proof {
            reveal_strlit("-");
        }
        out.append("-");
        let m: u64 = if n == i64::MIN {
            9223372036854775808u64
        } else {
            (-n) as u64
        };
        write_digits(out, m);
        assert(out@ =~= old(out)@ + decimal(n as int));
    } else {
        write_digits(out, n as u64);
    }
}

fn digits_only(s: &str) -> (r: bool)
    ensures
        r == all_ascii_digits(s@),
{
    let n: usize = s.unicode_len();
    let mut i: usize = 0;
    while i < n
        invariant
            n == s@.len(),
            i <= n,
            forall|j: int| 0 <= j < i ==> is_ascii_digit(#[trigger] s@[j]),
        decreases n - i,
    {
        let c = s.get_char(i);
        if !('0' <= c && c <= '9') {
            return false;
        }
        i += 1;
    }
    true
}

fn literal_source_exec(l: &Literal) -> (r: String)
    ensures
        r@ == literal_source(*l),
{
    match l {
        Literal::Int(n) => {
            let mut s = String::new();
            write_decimal(&mut s, *n);
            s
        },
        Literal::Float(_, t) => t.clone(),
        Literal::Bool(b) => String::from_str(if *b { "true" } else { "false" }),
        Literal::String(s) => s.clone(),
        Literal::Unit => String::from_str("()"),
    }
}

fn binary_symbol_exec(op: BinOp) -> (r: &'static str)
    ensures
        r@ == binary_symbol(op),
{
    match op {
        BinOp::Add => "+",
        BinOp::Sub => "-",
        BinOp::Mul => "*",
        BinOp::Div => "/",
        BinOp::Rem => "%",
        BinOp::And => "&&",
        BinOp::Or => "||",
        BinOp::BitXor => "^",
        BinOp::BitAnd => "&",
        BinOp::BitOr => "|",
        BinOp::Shl => "<<",
        BinOp::Shr => ">>",
        BinOp::Eq => "==",
        BinOp::Lt => "<",
        BinOp::Le => "<=",
        BinOp::Ne => "!=",
        BinOp::Ge => ">=",
        BinOp::Gt => ">",
    }
}

fn class_word_exec(op: BinOp) -> (r: &'static str)
    ensures
        r@ == class_word(op),
{
    match op.class() {
        OpClass::Relational => "relational",
        OpClass::Logical => "logical",
        _ => "arithmetic",
    }
}

fn unary_symbol_exec(op: UnaryOp) -> (r: &'static str)
    ensures
        r@ == unary_symbol(op),
{
    match op {
        UnaryOp::Plus => "+",
        UnaryOp::Minus => "-",
        UnaryOp::Not => "!",
        UnaryOp::BitNot => "~",
    }
}

fn write_literal(out: &mut String, l: &Literal)
    ensures
        final(out)@ == old(out)@ + literal_text(*l),
{
    let t = literal_source_exec(l);
    if digits_only(t.as_str()) {
        out.append("(number ");
    } else {
        out.append("(boolean ");
    }
    out.append(t.as_str());
    out.append(")");
    assert(out@ =~= old(out)@ + literal_text(*l));
}

impl Expr {
    /// Appends the canonical text of the expression.
    pub fn write_to(&self, out: &mut String)
        ensures
            final(out)@ == old(out)@ + expr_text(*self),
        decreases self,
    {
        match self {
            Expr::Binary(b) => {
                out.append("(");
                out.append(class_word_exec(b.op));
                out.append(" ");
                out.append(binary_symbol_exec(b.op));
                out.append(" ");
                b.lhs.write_to(out);
                out.append(" ");
                b.rhs.write_to(out);
                out.append(")");
            },
            Expr::Unary(u) => {
                out.append("(unary ");
                out.append(unary_symbol_exec(u.op));
                out.append(" ");
                u.expr.write_to(out);
                out.append(")");
            },
            Expr::Conditional(c) => {
                out.append("(conditional ");
                c.test.write_to(out);
                out.append(" ");
                c.cons.write_to(out);
                out.append(" ");
                c.altr.write_to(out);
                out.append(")");
            },
            Expr::Fn(f) => {
                out.append("(fn (");
                out.append(f.arg.as_str());
                out.append(") ");
                f.body.write_to(out);
                out.append(")");
            },
            Expr::Bind(b) => {
                out.append("(let ");
                let ghost start = out@;
                let mut i: usize = 0;
                while i < b.binds.len()
                    invariant
                        *self == Expr::Bind(*b),
                        0 <= i <= b.binds@.len(),
                        out@ == start + binds_text(**b, i as int),
                    decreases b.binds@.len() - i,
                {
                    let entry = &b.binds[i];
                    proof {
                        assert(decreases_to!(*self => (*self)->Bind_0));
                        assert(decreases_to!(*b => b.binds));
                        assert(decreases_to!(b.binds => b.binds@));
                        assert(decreases_to!(b.binds@ => b.binds@[i as int]));
                        assert(*entry == b.binds@[i as int]);
                    }
                    out.append(entry.0.as_str());
                    out.append(" = ");
                    entry.1.write_to(out);
                    out.append(", ");
                    i += 1;
                    assert(out@ =~= start + binds_text(**b, i as int));
                }
                out.append(")");
            },
            Expr::Ref(name) => {
                out.append(name.as_str());
            },
            Expr::Literal(l) => {
                write_literal(out, l);
            },
        }
        assert(out@ =~= old(out)@ + expr_text(*self));
    }

    /// The canonical text of the expression.
    pub fn render(&self) -> (r: String)
        ensures
            r@ == expr_text(*self),
    {
        let mut out = String::new();
        self.write_to(&mut out);
        assert(out@ =~= expr_text(*self));
        out
    }
}

impl<'a> Value<'a> {
    /// The text of the value, with `float_text` standing for the number of a float.
    pub fn render_with(&self, float_text: &str) -> (r: String)
        ensures
            r@ == value_text(*self, float_text@),
    {
        let mut out = String::new();
        match self {
            Value::Int(n) => {
                out.append("(value (number ");
                write_decimal(&mut out, *n);
                out.append("))");
            },
            Value::Float(_) => {
                out.append("(value (number ");
                out.append(float_text);
                out.append("))");
            },
            Value::Bool(b) => {
                out.append("(value (boolean ");
                out.append(if *b { "true" } else { "false" });
                out.append("))");
            },
            Value::String(s) => {
                out.append("(value (string ");
                out.append(s.as_str());
                out.append("))");
            },
            Value::Fn(_) => {
                out.append("(value (function))");
            },
            Value::Unit => {
                out.append("(value ())");
            },
        }
        assert(out@ =~= value_text(*self, float_text@));
        out
    }

    /// The text of the value; the host writes the number of a float.
    pub fn render<H: FloatHost>(&self, host: &H) -> (r: String)
        ensures
            !(*self is Float) ==> r@ == value_text(*self, Seq::empty()),
            *self is Float ==> exists|t: Seq<char>| r@ == value_text(*self, t),
    {
        match self {
            Value::Float(bits) => {
                let t = host.text(*bits);
                self.render_with(t.as_str())
            },
            _ => self.render_with(""),
        }
    }
}

} // verus!
