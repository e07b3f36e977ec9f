//! Tokens and literals of the Boogie intermediate verification language, as
//! they are printed.

use vstd::prelude::*;

use crate::text::push_str;

verus! {

/// The `return;` command.
#[derive(Clone, Copy, PartialEq, Eq, Structural, Debug)]
pub struct ReturnCmd;

impl ReturnCmd {
    /// `return;`.
    pub fn as_str(self) -> (r: &'static str)
        ensures
            r@ == "return;"@,
    {
        "return;"
    }
}

/// The `yield;` command.
#[derive(Clone, Copy, PartialEq, Eq, Structural, Debug)]
pub struct YieldCmd;

impl YieldCmd {
    /// `yield;`.
    pub fn as_str(self) -> (r: &'static str)
        ensures
            r@ == "yield;"@,
    {
        "yield;"
    }
}

/// Whether a procedure contract clause is a precondition or a postcondition.
#[derive(Clone, Copy, PartialEq, Eq, Structural, Debug, Hash)]
pub enum ContractKind {
    Requires,
    Ensures,
}

impl ContractKind {
    /// The Boogie text.
    pub open spec fn text(self) -> Seq<char> {
        match self {
            ContractKind::Requires => "requires"@,
            ContractKind::Ensures => "ensures"@,
        }
    }

    /// The Boogie text.
    pub fn as_str(self) -> (r: &'static str)
        ensures
            r@ == self.text(),
    {
        match self {
            ContractKind::Requires => "requires",
            ContractKind::Ensures => "ensures",
        }
    }
}

/// Whether a claim is checked or assumed.
#[derive(Clone, Copy, PartialEq, Eq, Structural, Debug, Hash)]
pub enum ClaimKind {
    Assert,
    Assume,
}

impl ClaimKind {
    /// The Boogie text.
    pub open spec fn text(self) -> Seq<char> {
        match self {
            ClaimKind::Assert => "assert"@,
            ClaimKind::Assume => "assume"@,
        }
    }

    /// The Boogie text.
    pub fn as_str(self) -> (r: &'static str)
        ensures
            r@ == self.text(),
    {
        match self {
            ClaimKind::Assert => "assert",
            ClaimKind::Assume => "assume",
        }
    }
}

/// Conjunction and disjunction.
#[derive(Clone, Copy, PartialEq, Eq, Structural, Debug, Hash)]
pub enum LogicalOp {
    And,
    Or,
}

impl LogicalOp {
    /// The Boogie text.
    pub open spec fn text(self) -> Seq<char> {
        match self {
            LogicalOp::And => "&&"@,
            LogicalOp::Or => "||"@,
        }
    }

    /// The Boogie text.
    pub fn as_str(self) -> (r: &'static str)
        ensures
            r@ == self.text(),
    {
        match self {
            LogicalOp::And => "&&",
            LogicalOp::Or => "||",
        }
    }
}

/// Relational operators.
#[derive(Clone, Copy, PartialEq, Eq, Structural, Debug, Hash)]
pub enum RelOp {
    Eq,
    Lt,
    Gt,
    Le,
    Ge,
    Neq,
    Subtype,
}

impl RelOp {
    /// The Boogie text.
    pub open spec fn text(self) -> Seq<char> {
        match self {
            RelOp::Eq => "=="@,
            RelOp::Lt => "<"@,
            RelOp::Gt => ">"@,
            RelOp::Le => "<="@,
            RelOp::Ge => ">="@,
            RelOp::Neq => "!="@,
            RelOp::Subtype => "<:"@,
        }
    }

    /// The Boogie text.
    pub fn as_str(self) -> (r: &'static str)
        ensures
            r@ == self.text(),
    {
        match self {
            RelOp::Eq => "==",
            RelOp::Lt => "<",
            RelOp::Gt => ">",
            RelOp::Le => "<=",
            RelOp::Ge => ">=",
            RelOp::Neq => "!=",
            RelOp::Subtype => "<:",
        }
    }
}

/// Additive operators.
#[derive(Clone, Copy, PartialEq, Eq, Structural, Debug, Hash)]
pub enum AddOp {
    Add,
    Sub,
}

impl AddOp {
    /// The Boogie text.
    pub open spec fn text(self) -> Seq<char> {
        match self {
            AddOp::Add => "+"@,
            AddOp::Sub => "-"@,
        }
    }

    /// The Boogie text.
    pub fn as_str(self) -> (r: &'static str)
        ensures
            r@ == self.text(),
    {
        match self {
            AddOp::Add => "+",
            AddOp::Sub => "-",
        }
    }
}

/// Multiplicative operators.
#[derive(Clone, Copy, PartialEq, Eq, Structural, Debug, Hash)]
pub enum MulOp {
    Mul,
    Div,
    Mod,
    RealDiv,
}

impl MulOp {
    /// The Boogie text.
    pub open spec fn text(self) -> Seq<char> {
        match self {
            MulOp::Mul => "*"@,
            MulOp::Div => "div"@,
            MulOp::Mod => "mod"@,
            MulOp::RealDiv => "/"@,
        }
    }

    /// The Boogie text.
    pub fn as_str(self) -> (r: &'static str)
        ensures
            r@ == self.text(),
    {
        match self {
            MulOp::Mul => "*",
            MulOp::Div => "div",
            MulOp::Mod => "mod",
            MulOp::RealDiv => "/",
        }
    }
}

/// Arithmetic and logical negation.
#[derive(Clone, Copy, PartialEq, Eq, Structural, Debug, Hash)]
pub enum NegOp {
    Arith,
    Logical,
}

impl NegOp {
    /// The Boogie text.
    pub open spec fn text(self) -> Seq<char> {
        match self {
            NegOp::Arith => "-"@,
            NegOp::Logical => "!"@,
        }
    }

    /// The Boogie text.
    pub fn as_str(self) -> (r: &'static str)
        ensures
            r@ == self.text(),
    {
        match self {
            NegOp::Arith => "-",
            NegOp::Logical => "!",
        }
    }
}

/// Coercions between integers and reals.
#[derive(Clone, Copy, PartialEq, Eq, Structural, Debug, Hash)]
pub enum ArithCoercionKind {
    Int,
    Real,
}

impl ArithCoercionKind {
    /// The Boogie text.
    pub open spec fn text(self) -> Seq<char> {
        match self {
            ArithCoercionKind::Int => "int"@,
            ArithCoercionKind::Real => "real"@,
        }
    }

    /// The Boogie text.
    pub fn as_str(self) -> (r: &'static str)
        ensures
            r@ == self.text(),
    {
        match self {
            ArithCoercionKind::Int => "int",
            ArithCoercionKind::Real => "real",
        }
    }
}

/// Quantifiers and lambda abstraction.
#[derive(Clone, Copy, PartialEq, Eq, Structural, Debug, Hash)]
pub enum QuantKind {
    ForAll,
    Exists,
    Lambda,
}

impl QuantKind {
    /// The Boogie text.
    pub open spec fn text(self) -> Seq<char> {
        match self {
            QuantKind::ForAll => "forall"@,
            QuantKind::Exists => "exists"@,
            QuantKind::Lambda => "lambda"@,
        }
    }

    /// The Boogie text.
    pub fn as_str(self) -> (r: &'static str)
        ensures
            r@ == self.text(),
    {
        match self {
            QuantKind::ForAll => "forall",
            QuantKind::Exists => "exists",
            QuantKind::Lambda => "lambda",
        }
    }
}

/// The exponent of a decimal or floating-point literal: `e`, an optional
/// `-`, and digits.
pub struct Exp {
    pub is_neg: bool,
    pub digits: String,
}

impl Exp {
    /// `e<digits>` or `e-<digits>`.
    pub open spec fn text(&self) -> Seq<char> {
        "e"@ + (if self.is_neg { "-"@ } else { Seq::empty() }) + self.digits@
    }

    /// Appends the text of the exponent.
    pub fn push_text(&self, s: &mut String)
        ensures
            final(s)@ == old(s)@ + self.text(),
    {
        let ghost s0 = s@;
        push_str(s, "e");
        if self.is_neg {
            push_str(s, "-");
        }
        push_str(s, self.digits.as_str());
        assert(s@ =~= s0 + self.text());
    }
}

/// A decimal literal: whole digits, optional fractional digits after a
/// `.`, and an optional exponent, with no space in between.
pub struct Dec {
    pub whole: String,
    pub fract: Option<String>,
    pub exp: Option<Exp>,
}

impl Dec {
    /// `<whole>[.<fract>][<exp>]`.
    pub open spec fn text(&self) -> Seq<char> {
        self.whole@ + match self.fract {
            Some(f) => "."@ + f@,
            None => Seq::empty(),
        } + match self.exp {
            Some(e) => e.text(),
            None => Seq::empty(),
        }
    }

    /// The text of the literal.
    pub fn to_string(&self) -> (r: String)
        ensures
            r@ == self.text(),
    {
        let mut s = String::new();
        push_str(&mut s, self.whole.as_str());
        if let Some(fract) = &self.fract {
            push_str(&mut s, ".");
            push_str(&mut s, fract.as_str());
        }
        if let Some(exp) = &self.exp {
            exp.push_text(&mut s);
        }
        assert(s@ =~= self.text());
        s
    }
}

/// A finite floating-point value in hexadecimal:
/// `[-]0x<whole>.<fract><exp>`.
pub struct PlainFloatValue {
    pub is_neg: bool,
    pub whole: String,
    pub fract: String,
    pub exp: Exp,
}

impl PlainFloatValue {
    /// `[-]0x<whole>.<fract><exp>`.
    pub open spec fn text(&self) -> Seq<char> {
        (if self.is_neg { "-"@ } else { Seq::empty() }) + "0x"@ + self.whole@ + "."@ + self.fract@
            + self.exp.text()
    }

    /// Appends the text of the value.
    pub fn push_text(&self, s: &mut String)
        ensures
            final(s)@ == old(s)@ + self.text(),
    {
        let ghost s0 = s@;
        if self.is_neg {
            push_str(s, "-");
        }
        push_str(s, "0x");
        push_str(s, self.whole.as_str());
        push_str(s, ".");
        push_str(s, self.fract.as_str());
        self.exp.push_text(s);
        assert(s@ =~= s0 + self.text());
    }
}

/// The value of a floating-point literal: finite, not a number, or an
/// infinity.
pub enum FloatValue {
    Plain(PlainFloatValue),
    NotANumber,
    PosInfinity,
    NegInfinity,
}

impl FloatValue {
    /// The text of the value.
    pub open spec fn text(&self) -> Seq<char> {
        match self {
            FloatValue::Plain(p) => p.text(),
            FloatValue::NotANumber => "0NaN"@,
            FloatValue::PosInfinity => "0+oo"@,
            FloatValue::NegInfinity => "0-oo"@,
        }
    }

    /// Appends the text of the value.
    pub fn push_text(&self, s: &mut String)
        ensures
            final(s)@ == old(s)@ + self.text(),
    {
        match self {
            FloatValue::Plain(p) => p.push_text(s),
            FloatValue::NotANumber => push_str(s, "0NaN"),
            FloatValue::PosInfinity => push_str(s, "0+oo"),
            FloatValue::NegInfinity => push_str(s, "0-oo"),
        }
    }
}

/// A floating-point literal: its value and the sizes of its significand
/// and exponent.
pub struct Float {
    pub value: FloatValue,
    pub sig_size: String,
    pub exp_size: String,
}

impl Float {
    /// `<value>[f]<sig size>e<exp size>`, with the `f` after finite values.
    pub open spec fn text(&self) -> Seq<char> {
        self.value.text() + (if self.value is Plain { "f"@ } else { Seq::empty() }) + self.sig_size@
            + "e"@ + self.exp_size@
    }

    /// The text of the literal.
    pub fn to_string(&self) -> (r: String)
        ensures
            r@ == self.text(),
    {
        let mut s = String::new();
        self.value.push_text(&mut s);
        if let FloatValue::Plain(_) = &self.value {
            push_str(&mut s, "f");
        }
        push_str(&mut s, self.sig_size.as_str());
        push_str(&mut s, "e");
        push_str(&mut s, self.exp_size.as_str());
        assert(s@ =~= self.text());
        s
    }
}

/// A bit-vector literal: `<n>bv<width>`.
pub struct BvLit {
    pub n: String,
    pub width: String,
}

impl BvLit {
    /// `<n>bv<width>`.
    pub open spec fn text(&self) -> Seq<char> {
        self.n@ + "bv"@ + self.width@
    }

    /// The text of the literal.
    pub fn to_string(&self) -> (r: String)
        ensures
            r@ == self.text(),
    {
        let mut s = String::new();
        push_str(&mut s, self.n.as_str());
        push_str(&mut s, "bv");
        push_str(&mut s, self.width.as_str());
        assert(s@ =~= self.text());
        s
    }
}

/// A string literal; `text` is the raw text between the quotes, with its
/// quotes already escaped.
pub struct StringLit {
    pub text: String,
}

impl StringLit {
    /// `"<text>"`.
    pub open spec fn spec_text(&self) -> Seq<char> {
        "\""@ + self.text@ + "\""@
    }

    /// The text of the literal.
    pub fn to_string(&self) -> (r: String)
        ensures
            r@ == self.spec_text(),
    {
        let mut s = String::new();
        push_str(&mut s, "\"");
        push_str(&mut s, self.text.as_str());
        push_str(&mut s, "\"");
        assert(s@ =~= self.spec_text());
        s
    }
}

} // verus!
