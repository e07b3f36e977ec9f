//! Types and expressions of Boogie programs, with the text that prints
//! them: each operand is put in parentheses exactly where the precedence
//! and associativity of Boogie's grammar require it.

use vstd::prelude::*;

use crate::boogie::{
    AddOp, ArithCoercionKind, BvLit, ClaimKind, Dec, Float, LogicalOp, MulOp, NegOp, QuantKind, RelOp,
    StringLit, YieldCmd,
};
use crate::ident::Ident;
use crate::indent::{indent_lines, indented};
use crate::span::RawSpan;
use crate::text::{bool_text, join, lemma_join_push, push_bool, push_str};

verus! {

/// A value with the byte range of the source text it was read from.
pub struct Spanned<T> {
    pub span: RawSpan,
    pub value: T,
}

/// The texts of spanned identifiers.
pub open spec fn ident_texts(idents: Seq<Spanned<Ident>>) -> Seq<Seq<char>> {
    idents.map_values(|i: Spanned<Ident>| i.value@)
}

/// A list of identifiers.
pub struct Idents {
    pub idents: Vec<Spanned<Ident>>,
}

impl Idents {
    /// The identifiers joined by `, `.
    pub open spec fn text(&self) -> Seq<char> {
        join(ident_texts(self.idents@), ", "@)
    }

    /// Appends the text of the list.
    pub fn push_text(&self, s: &mut String)
        ensures
            final(s)@ == old(s)@ + self.text(),
    {
        let ghost s0 = s@;
        let n = self.idents.len();
        let mut i: usize = 0;
        while i < n
            invariant
                n == self.idents@.len(),
                i <= n,
                s@ == s0 + join(ident_texts(self.idents@).take(i as int), ", "@),
            decreases n - i,
        {
            if i > 0 {
                push_str(s, ", ");
            }
            push_str(s, self.idents[i].value.as_str());
            proof {
                let t = ident_texts(self.idents@);
                lemma_join_push(t.take(i as int), ", "@, t[i as int]);
                assert(t.take(i as int).push(t[i as int]) =~= t.take(i + 1));
            }
            i += 1;
        }
        assert(ident_texts(self.idents@).take(n as int) =~= ident_texts(self.idents@));
    }
}

/// The type parameters of a declaration.
pub struct TypeParams {
    pub params: Idents,
}

impl TypeParams {
    /// Nothing where there are no parameters; otherwise `<` and the
    /// parameters joined by `, `, then `>`.
    pub open spec fn text(&self) -> Seq<char> {
        if self.params.idents@.len() == 0 {
            Seq::empty()
        } else {
            "<"@ + self.params.text() + ">"@
        }
    }

    /// Appends the text of the parameters.
    pub fn push_text(&self, s: &mut String)
        ensures
            final(s)@ == old(s)@ + self.text(),
    {
        if self.params.idents.len() > 0 {
            let ghost s0 = s@;
            push_str(s, "<");
            self.params.push_text(s);
            push_str(s, ">");
            assert(s@ =~= s0 + self.text());
        } else {
            assert(s@ =~= s@ + self.text());
        }
    }
}

/// A type.
pub enum Type {
    Atom(TypeAtom),
    App(TypeApp),
    MapType(MapType),
}

/// A named type applied to type arguments: `<name>[ <args>]`.
pub struct TypeApp {
    pub head: Ident,
    pub tail: Option<Box<TypeArgs>>,
}

/// A basic type applied to type arguments: `<atom>[ <args>]`.
pub struct AtomTypeApp {
    pub head: TypeAtom,
    pub tail: Option<Box<TypeArgs>>,
}

/// The arguments of a type application.
pub enum TypeArgs {
    AtomApp(AtomTypeApp),
    App(TypeApp),
    MapType(MapType),
}

/// A basic type: `int`, `real`, `bool`, or a type in parentheses.
pub enum TypeAtom {
    Int,
    Real,
    Bool,
    Paren(Box<Type>),
}

/// A map type: `<type params>[<key>, ..., <key>]<value>`.
pub struct MapType {
    pub type_params: TypeParams,
    pub keys: Vec<Type>,
    pub value: Box<Type>,
}

/// The text of a type.
pub open spec fn type_text(t: Type) -> Seq<char>
    decreases t,
{
    match t {
        Type::Atom(a) => type_atom_text(a),
        Type::App(a) => a.head@ + match a.tail {
            Some(tail) => " "@ + type_args_text(*tail),
            None => Seq::empty(),
        },
        Type::MapType(m) => map_type_text(m),
    }
}

/// The text of type arguments.
pub open spec fn type_args_text(a: TypeArgs) -> Seq<char>
    decreases a,
{
    match a {
        TypeArgs::AtomApp(x) => type_atom_text(x.head) + match x.tail {
            Some(tail) => " "@ + type_args_text(*tail),
            None => Seq::empty(),
        },
        TypeArgs::App(x) => x.head@ + match x.tail {
            Some(tail) => " "@ + type_args_text(*tail),
            None => Seq::empty(),
        },
        TypeArgs::MapType(m) => map_type_text(m),
    }
}

/// The text of a basic type.
pub open spec fn type_atom_text(a: TypeAtom) -> Seq<char>
    decreases a,
{
    match a {
        TypeAtom::Int => "int"@,
        TypeAtom::Real => "real"@,
        TypeAtom::Bool => "bool"@,
        TypeAtom::Paren(t) => "("@ + type_text(*t) + ")"@,
    }
}

/// The text of a map type.
pub open spec fn map_type_text(m: MapType) -> Seq<char>
    decreases m,
{
    m.type_params.text() + "["@ + types_text(m.keys@) + "]"@ + type_text(*m.value)
}

/// The texts of types, joined by `, `.
pub open spec fn types_text(ts: Seq<Type>) -> Seq<char>
    decreases ts,
{
    if ts.len() == 0 {
        Seq::empty()
    } else if ts.len() == 1 {
        type_text(ts[0])
    } else {
        types_text(ts.subrange(0, ts.len() - 1)) + ", "@ + type_text(ts[ts.len() - 1])
    }
}

/// Appends the text of a type.
pub fn push_type(t: &Type, s: &mut String)
    ensures
        final(s)@ == old(s)@ + type_text(*t),
    decreases t,
{
    let ghost s0 = s@;
    match t {
        Type::Atom(a) => {
            proof {
                assert(decreases_to!(*t => (*t)->Atom_0));
            }
            push_type_atom(a, s);
        },
        Type::App(a) => {
            push_str(s, a.head.as_str());
            if let Some(tail) = &a.tail {
                push_str(s, " ");
                proof {
                    assert(decreases_to!(*t => (*t)->App_0));
                }
                push_type_args(tail, s);
            }
        },
        Type::MapType(m) => {
            proof {
                assert(decreases_to!(*t => (*t)->MapType_0));
            }
            push_map_type(m, s);
        },
    }
    assert(s@ =~= s0 + type_text(*t));
}

/// Appends the text of type arguments.
pub fn push_type_args(a: &TypeArgs, s: &mut String)
    ensures
        final(s)@ == old(s)@ + type_args_text(*a),
    decreases a,
{
    let ghost s0 = s@;
    match a {
        TypeArgs::AtomApp(x) => {
            proof {
                assert(decreases_to!(*a => (*a)->AtomApp_0));
            }
            push_type_atom(&x.head, s);
            if let Some(tail) = &x.tail {
                push_str(s, " ");
                push_type_args(tail, s);
            }
        },
        TypeArgs::App(x) => {
            push_str(s, x.head.as_str());
            if let Some(tail) = &x.tail {
                push_str(s, " ");
                proof {
                    assert(decreases_to!(*a => (*a)->App_0));
                }
                push_type_args(tail, s);
            }
        },
        TypeArgs::MapType(m) => {
            proof {
                assert(decreases_to!(*a => (*a)->MapType_0));
            }
            push_map_type(m, s);
        },
    }
    assert(s@ =~= s0 + type_args_text(*a));
}

/// Appends the text of a basic type.
pub fn push_type_atom(a: &TypeAtom, s: &mut String)
    ensures
        final(s)@ == old(s)@ + type_atom_text(*a),
    decreases a,
{
    let ghost s0 = s@;
    match a {
        TypeAtom::Int => push_str(s, "int"),
        TypeAtom::Real => push_str(s, "real"),
        TypeAtom::Bool => push_str(s, "bool"),
        TypeAtom::Paren(t) => {
            push_str(s, "(");
            proof {
                assert(decreases_to!(*a => (*a)->Paren_0));
            }
            push_type(t, s);
            push_str(s, ")");
        },
    }
    assert(s@ =~= s0 + type_atom_text(*a));
}

/// Appends the text of a map type.
pub fn push_map_type(m: &MapType, s: &mut String)
    ensures
        final(s)@ == old(s)@ + map_type_text(*m),
    decreases m,
{
    let ghost s0 = s@;
    m.type_params.push_text(s);
    push_str(s, "[");
    let ghost s1 = s@;
    let n = m.keys.len();
    let mut i: usize = 0;
    while i < n
        invariant
            n == m.keys@.len(),
            i <= n,
            s@ == s1 + types_text(m.keys@.subrange(0, i as int)),
        decreases n - i,
    {
        if i > 0 {
            push_str(s, ", ");
        }
        proof {
            assert(decreases_to!(m.keys => m.keys@));
            assert(decreases_to!(m.keys@ => m.keys@[i as int]));
        }
        push_type(&m.keys[i], s);
        proof {
            let k = m.keys@.subrange(0, i + 1);
            assert(k.subrange(0, k.len() - 1) =~= m.keys@.subrange(0, i as int));
            assert(s@ =~= s1 + types_text(k));
        }
        i += 1;
    }
    assert(m.keys@.subrange(0, n as int) =~= m.keys@);
    push_str(s, "]");
    push_type(&m.value, s);
    assert(s@ =~= s0 + map_type_text(*m));
}

/// A list of expressions.
pub struct Exprs {
    pub exprs: Vec<Expr>,
}

/// An expression.
pub enum Expr {
    Equiv(Box<EquivExpr>),
    Implies(Box<ImpliesExpr>),
    Explies(Box<ExpliesExpr>),
    Logical(Box<LogicalExpr>),
    Rel(Box<RelExpr>),
    BvTerm(Box<BvTerm>),
    Term(Box<Term>),
    Factor(Box<Factor>),
    Power(Box<Power>),
    Neg(Box<NegExpr>),
    Coercion(Box<CoercionExpr>),
    Array(Box<ArrayExpr>),
    BoolLit(bool),
    Nat(String),
    Dec(Dec),
    Float(Float),
    BvLit(BvLit),
    Var(Ident),
    FuncCall(FuncCall),
    Old(Box<OldExpr>),
    ArithCoercion(Box<ArithCoercionExpr>),
    Quant(Box<QuantExpr>),
    IfThenElse(Box<IfThenElseExpr>),
    Code(Box<CodeExpr>),
}

/// `<lhs> <==> <rhs>`.
pub struct EquivExpr {
    pub lhs: Expr,
    pub rhs: Expr,
}

/// `<lhs> ==> <rhs>`.
pub struct ImpliesExpr {
    pub lhs: Expr,
    pub rhs: Expr,
}

/// `<lhs> <== <rhs>`.
pub struct ExpliesExpr {
    pub lhs: Expr,
    pub rhs: Expr,
}

/// `<lhs> && <rhs>` or `<lhs> || <rhs>`.
pub struct LogicalExpr {
    pub lhs: Expr,
    pub op: LogicalOp,
    pub rhs: Expr,
}

/// A comparison: `<lhs> <op> <rhs>`.
pub struct RelExpr {
    pub lhs: Expr,
    pub op: RelOp,
    pub rhs: Expr,
}

/// A bit-vector concatenation: `<lhs> ++ <rhs>`.
pub struct BvTerm {
    pub lhs: Expr,
    pub rhs: Expr,
}

/// `<lhs> + <rhs>` or `<lhs> - <rhs>`.
pub struct Term {
    pub lhs: Expr,
    pub op: AddOp,
    pub rhs: Expr,
}

/// A multiplication or division: `<lhs> <op> <rhs>`.
pub struct Factor {
    pub lhs: Expr,
    pub op: MulOp,
    pub rhs: Expr,
}

/// `<lhs> ** <rhs>`.
pub struct Power {
    pub lhs: Expr,
    pub rhs: Expr,
}

/// `-<expr>` or `!<expr>`.
pub struct NegExpr {
    pub op: NegOp,
    pub expr: Expr,
}

/// An expression with type or width annotations: `<expr> : <coercion>...`.
pub struct CoercionExpr {
    pub expr: Expr,
    pub coercions: Vec<Coercion>,
}

/// A type or a bit width that an expression is annotated with.
pub enum Coercion {
    Type(Type),
    Nat(String),
}

/// An expression with map lookups or updates: `<expr>[...]...`.
pub struct ArrayExpr {
    pub expr: Expr,
    pub subscripts: Vec<ArraySubscript>,
}

/// `[<keys>]`, `[<keys> := <value>]`, or `[:= <value>]`.
pub struct ArraySubscript {
    pub keys: Exprs,
    pub value: Option<Expr>,
}

/// A function call: `<target>(<args>)`.
pub struct FuncCall {
    pub target: Ident,
    pub args: Exprs,
}

/// `old (<expr>)`.
pub struct OldExpr {
    pub expr: Expr,
}

/// `int(<expr>)` or `real(<expr>)`.
pub struct ArithCoercionExpr {
    pub kind: ArithCoercionKind,
    pub expr: Expr,
}

/// `(<kind> <body>)`.
pub struct QuantExpr {
    pub kind: QuantKind,
    pub body: QuantBody,
}

/// The type parameters, bound variables, attributes and triggers, and
/// body of a quantifier.
pub struct QuantBody {
    pub type_params: TypeParams,
    pub bound_vars: AttrTypedIdentsWheres,
    pub attrs: Vec<AttrOrTrigger>,
    pub expr: Expr,
}

/// `if <cond> then <then> else <else>`.
pub struct IfThenElseExpr {
    pub cond: Expr,
    pub then_: Expr,
    pub else_: Expr,
}

/// A code expression: local variables and blocks between `|{` and `}|`.
pub struct CodeExpr {
    pub local_vars: Vec<LocalVars>,
    pub spec_blocks: Vec<SpecBlock>,
}

/// A labelled block of a code expression.
pub struct SpecBlock {
    pub label: Ident,
    pub cmds: Vec<LabelOrCmd>,
    pub transfer: SpecTransfer,
}

/// How a block of a code expression ends.
pub enum SpecTransfer {
    Goto(SpecGoto),
    Return(SpecReturn),
}

/// `goto <labels>`.
pub struct SpecGoto {
    pub labels: Idents,
}

/// `return <value>`.
pub struct SpecReturn {
    pub value: Expr,
}

/// Variables with attributes, types and `where` clauses.
pub struct AttrTypedIdentsWheres {
    pub items: Vec<Spanned<AttrTypedIdentsWhere>>,
}

/// Variables of one type with attributes and a `where` clause.
pub struct AttrTypedIdentsWhere {
    pub attrs: Vec<AttrOrTrigger>,
    pub typed_idents_where: TypedIdentsWhere,
}

/// Variables with types and `where` clauses.
pub struct TypedIdentsWheres {
    pub items: Vec<Spanned<TypedIdentsWhere>>,
}

/// Variables of one type with a `where` clause:
/// `<idents>: <type>[ where <expr>]`.
pub struct TypedIdentsWhere {
    pub typed_idents: TypedIdents,
    pub where_: Option<Expr>,
}

/// Variables of one type: `<idents>: <type>`.
pub struct TypedIdents {
    pub idents: Idents,
    pub type_: Type,
}

/// An attribute `{:<name> <params>}` or a trigger `{<exprs>}`.
pub enum AttrOrTrigger {
    Attr(AttrContent),
    Trigger(Exprs),
}

/// The name and parameters of an attribute.
pub struct AttrContent {
    pub ident: Ident,
    pub params: Vec<AttrParam>,
}

/// A parameter of an attribute: a string or an expression.
pub enum AttrParam {
    String(StringLit),
    Expr(Expr),
}

/// A declaration of local variables: `var [<attrs> ]<vars>;`.
pub struct LocalVars {
    pub attrs: Vec<AttrOrTrigger>,
    pub vars: TypedIdentsWheres,
}

/// A label or a simple command.
pub enum LabelOrCmd {
    Assign(AssignCmd),
    Call(CallCmd),
    Claim(ClaimCmd),
    Havoc(HavocCmd),
    Label(Label),
    ParCall(ParCallCmd),
    Yield(YieldCmd),
}

/// `<lhs>, ..., <lhs> := <rhs>;`.
pub struct AssignCmd {
    pub lhs: Vec<AssignLhs>,
    pub rhs: Exprs,
}

/// An assigned variable with map subscripts: `<ident>[<exprs>]...`.
pub struct AssignLhs {
    pub ident: Ident,
    pub subscripts: Vec<Exprs>,
}

/// `[async ][free ]call [<attrs> ]<call>;`.
pub struct CallCmd {
    pub attrs: Vec<AttrOrTrigger>,
    pub call_params: CallParams,
    pub is_async: bool,
    pub is_free: bool,
}

/// `[<returns> := ]<target>(<params>)`.
pub struct CallParams {
    pub returns: Idents,
    pub target: Ident,
    pub params: Exprs,
}

/// `assert [<attrs> ]<proposition>;` or `assume ...;`.
pub struct ClaimCmd {
    pub kind: ClaimKind,
    pub attrs: Vec<AttrOrTrigger>,
    pub proposition: Expr,
}

/// `havoc <vars>;`.
pub struct HavocCmd {
    pub vars: Idents,
}

/// `<ident>:`.
pub struct Label {
    pub ident: Ident,
}

/// `par [<attrs> ]<call> | ... | <call>;`.
pub struct ParCallCmd {
    pub attrs: Vec<AttrOrTrigger>,
    pub calls: Vec<CallParams>,
}

/// How tightly an operator binds its operands, from loosest to tightest;
/// expressions that are not operators delimit themselves.
pub open spec fn rank(e: Expr) -> int {
    match e {
        Expr::Equiv(_) => 1,
        Expr::Implies(_) => 2,
        Expr::Explies(_) => 3,
        Expr::Logical(_) => 4,
        Expr::Rel(_) => 5,
        Expr::BvTerm(_) => 6,
        Expr::Term(_) => 7,
        Expr::Factor(_) => 8,
        Expr::Power(_) => 9,
        Expr::Neg(_) => 10,
        Expr::Coercion(_) => 11,
        Expr::Array(_) => 12,
        _ => 13,
    }
}

/// Whether operand `index` (0 for the first) of `parent` is printed in
/// parentheses: a conditional expression always is; otherwise an operand
/// whose operator binds more loosely than the parent's is, and so is one
/// with the parent's own operator on the side that the operator does not
/// associate to (the right for `<==>`, `<==`, `&&`, `||`, `++`, `+`, `-`
/// and the multiplications, the left for `==>` and `**`). Comparisons do
/// not chain; `&&` and `||` mixed take parentheses.
pub open spec fn child_needs_parens(parent: Expr, child: Expr, index: int) -> bool {
    child is IfThenElse || match parent {
        Expr::Equiv(_) => child is Equiv && index == 1,
        Expr::Implies(_) => rank(child) <= 1 || ((child is Implies || child is Explies) && index
            == 0),
        Expr::Explies(_) => rank(child) <= 2 || (child is Explies && index == 1),
        Expr::Logical(p) => rank(child) <= 3 || match child {
            Expr::Logical(c) => p.op != c.op || index == 1,
            _ => false,
        },
        Expr::Rel(_) => rank(child) <= 5,
        Expr::BvTerm(_) => rank(child) <= 5 || (child is BvTerm && index == 1),
        Expr::Term(_) => rank(child) <= 6 || (child is Term && index == 1),
        Expr::Factor(_) => rank(child) <= 7 || (child is Factor && index == 1),
        Expr::Power(_) => rank(child) <= 8 || (child is Power && index == 0),
        Expr::Neg(_) => rank(child) <= 9,
        Expr::Coercion(_) => rank(child) <= 11,
        Expr::Array(_) => rank(child) <= 12,
        _ => false,
    }
}

/// `text` in parentheses when `parens` holds.
pub open spec fn paren_if(parens: bool, text: Seq<char>) -> Seq<char> {
    if parens {
        "("@ + text + ")"@
    } else {
        text
    }
}

/// The text of an operand of `parent`.
pub open spec fn child_text(parent: Expr, child: Expr, index: int, text: Seq<char>) -> Seq<char> {
    paren_if(child_needs_parens(parent, child, index), text)
}

/// `a` and `b` with `op` between them, each in parentheses where it needs
/// them.
pub open spec fn binary_text(parent: Expr, a: Expr, a_text: Seq<char>, op: Seq<char>, b: Expr, b_text: Seq<char>) -> Seq<char> {
    child_text(parent, a, 0, a_text) + " "@ + op + " "@ + child_text(parent, b, 1, b_text)
}

/// The indent of nested lines.
pub open spec fn indent_unit() -> Seq<char> {
    "  "@
}

/// The text of an expression.
pub open spec fn expr_text(e: Expr) -> Seq<char>
    decreases e,
{
    match e {
        Expr::Equiv(x) => binary_text(e, x.lhs, expr_text(x.lhs), "<==>"@, x.rhs, expr_text(x.rhs)),
        Expr::Implies(x) => binary_text(e, x.lhs, expr_text(x.lhs), "==>"@, x.rhs, expr_text(x.rhs)),
        Expr::Explies(x) => binary_text(e, x.lhs, expr_text(x.lhs), "<=="@, x.rhs, expr_text(x.rhs)),
        Expr::Logical(x) => binary_text(e, x.lhs, expr_text(x.lhs), x.op.text(), x.rhs, expr_text(x.rhs)),
        Expr::Rel(x) => binary_text(e, x.lhs, expr_text(x.lhs), x.op.text(), x.rhs, expr_text(x.rhs)),
        Expr::BvTerm(x) => binary_text(e, x.lhs, expr_text(x.lhs), "++"@, x.rhs, expr_text(x.rhs)),
        Expr::Term(x) => binary_text(e, x.lhs, expr_text(x.lhs), x.op.text(), x.rhs, expr_text(x.rhs)),
        Expr::Factor(x) => binary_text(e, x.lhs, expr_text(x.lhs), x.op.text(), x.rhs, expr_text(x.rhs)),
        Expr::Power(x) => binary_text(e, x.lhs, expr_text(x.lhs), "**"@, x.rhs, expr_text(x.rhs)),
        Expr::Neg(x) => x.op.text() + child_text(e, x.expr, 0, expr_text(x.expr)),
        Expr::Coercion(x) => child_text(e, x.expr, 0, expr_text(x.expr)) + coercions_text(x.coercions@),
        Expr::Array(x) => child_text(e, x.expr, 0, expr_text(x.expr)) + subscripts_text(x.subscripts@),
        Expr::BoolLit(b) => bool_text(b),
        Expr::Nat(n) => n@,
        Expr::Dec(d) => d.text(),
        Expr::Float(f) => f.text(),
        Expr::BvLit(b) => b.text(),
        Expr::Var(i) => i@,
        Expr::FuncCall(f) => f.target@ + "("@ + exprs_text(f.args.exprs@) + ")"@,
        Expr::Old(x) => "old ("@ + expr_text(x.expr) + ")"@,
        Expr::ArithCoercion(x) => x.kind.text() + "("@ + expr_text(x.expr) + ")"@,
        Expr::Quant(x) => {
            let b = x.body;
            let type_params = if b.type_params.params.idents@.len() == 0 {
                Seq::empty()
            } else {
                b.type_params.text() + " "@
            };
            let bound_vars = if b.bound_vars.items@.len() == 0 {
                Seq::empty()
            } else {
                attr_typed_wheres_text(b.bound_vars.items@) + " "@
            };
            "("@ + x.kind.text() + " "@ + type_params + bound_vars + ":: "@ + attrs_text(b.attrs@)
                + expr_text(b.expr) + ")"@
        },
        Expr::IfThenElse(x) => "if "@ + expr_text(x.cond) + " then "@ + expr_text(x.then_) + " else "@
            + expr_text(x.else_),
        Expr::Code(c) => {
            let between = if c.local_vars@.len() > 0 && c.spec_blocks@.len() > 0 {
                "\n\n"@
            } else {
                Seq::empty()
            };
            "|{\n"@ + indented(
                local_vars_list_text(c.local_vars@) + between + spec_blocks_text(c.spec_blocks@),
                indent_unit(),
                true,
            ) + "\n}|"@
        },
    }
}

/// The texts of expressions, joined by `, `.
pub open spec fn exprs_text(es: Seq<Expr>) -> Seq<char>
    decreases es,
{
    if es.len() == 0 {
        Seq::empty()
    } else if es.len() == 1 {
        expr_text(es[0])
    } else {
        exprs_text(es.subrange(0, es.len() - 1)) + ", "@ + expr_text(es[es.len() - 1])
    }
}

/// The text of a coercion.
pub open spec fn coercion_text(c: Coercion) -> Seq<char> {
    match c {
        Coercion::Type(t) => type_text(t),
        Coercion::Nat(n) => n@,
    }
}

/// Each coercion preceded by ` : `.
pub open spec fn coercions_text(cs: Seq<Coercion>) -> Seq<char>
    decreases cs.len(),
{
    if cs.len() == 0 {
        Seq::empty()
    } else {
        coercions_text(cs.drop_last()) + " : "@ + coercion_text(cs.last())
    }
}

/// The subscripts one after the other, each as `[<keys>]`,
/// `[<keys> := <value>]`, or `[:= <value>]` where there are no keys.
pub open spec fn subscripts_text(subs: Seq<ArraySubscript>) -> Seq<char>
    decreases subs,
{
    if subs.len() == 0 {
        Seq::empty()
    } else {
        let x = subs[subs.len() - 1];
        let value = match x.value {
            Some(v) => (if x.keys.exprs@.len() == 0 { Seq::empty() } else { " "@ }) + ":= "@
                + expr_text(v),
            None => Seq::empty(),
        };
        subscripts_text(subs.subrange(0, subs.len() - 1)) + "["@ + exprs_text(x.keys.exprs@) + value
            + "]"@
    }
}

/// Each attribute or trigger followed by a space: `{:<name>[ <params>]} `
/// or `{<exprs>} `.
pub open spec fn attrs_text(attrs: Seq<AttrOrTrigger>) -> Seq<char>
    decreases attrs,
{
    if attrs.len() == 0 {
        Seq::empty()
    } else {
        let inner = match attrs[attrs.len() - 1] {
            AttrOrTrigger::Attr(c) => ":"@ + c.ident@ + if c.params@.len() == 0 {
                Seq::empty()
            } else {
                " "@ + attr_params_text(c.params@)
            },
            AttrOrTrigger::Trigger(es) => exprs_text(es.exprs@),
        };
        attrs_text(attrs.subrange(0, attrs.len() - 1)) + "{"@ + inner + "}"@ + " "@
    }
}

/// The parameters of an attribute, joined by `, `.
pub open spec fn attr_params_text(ps: Seq<AttrParam>) -> Seq<char>
    decreases ps,
{
    if ps.len() == 0 {
        Seq::empty()
    } else {
        let last = match ps[ps.len() - 1] {
            AttrParam::String(l) => l.spec_text(),
            AttrParam::Expr(x) => expr_text(x),
        };
        if ps.len() == 1 {
            last
        } else {
            attr_params_text(ps.subrange(0, ps.len() - 1)) + ", "@ + last
        }
    }
}

/// `<idents>: <type>[ where <expr>]`.
pub open spec fn typed_where_text(t: TypedIdentsWhere) -> Seq<char>
    decreases t,
{
    t.typed_idents.idents.text() + ": "@ + type_text(t.typed_idents.type_) + match t.where_ {
        Some(w) => " where "@ + expr_text(w),
        None => Seq::empty(),
    }
}

/// Variables with types and `where` clauses, joined by `, `.
pub open spec fn typed_wheres_text(items: Seq<Spanned<TypedIdentsWhere>>) -> Seq<char>
    decreases items,
{
    if items.len() == 0 {
        Seq::empty()
    } else if items.len() == 1 {
        typed_where_text(items[0].value)
    } else {
        typed_wheres_text(items.subrange(0, items.len() - 1)) + ", "@ + typed_where_text(
            items[items.len() - 1].value,
        )
    }
}

/// Variables with attributes, types and `where` clauses, each preceded by
/// its attributes, joined by `, `.
pub open spec fn attr_typed_wheres_text(items: Seq<Spanned<AttrTypedIdentsWhere>>) -> Seq<char>
    decreases items,
{
    if items.len() == 0 {
        Seq::empty()
    } else {
        let x = items[items.len() - 1].value;
        let last = attrs_text(x.attrs@) + typed_where_text(x.typed_idents_where);
        if items.len() == 1 {
            last
        } else {
            attr_typed_wheres_text(items.subrange(0, items.len() - 1)) + ", "@ + last
        }
    }
}

/// Declarations of local variables, joined by newlines, each as
/// `var [<attrs> ]<vars>;`.
pub open spec fn local_vars_list_text(ls: Seq<LocalVars>) -> Seq<char>
    decreases ls,
{
    if ls.len() == 0 {
        Seq::empty()
    } else {
        let x = ls[ls.len() - 1];
        let last = "var "@ + attrs_text(x.attrs@) + typed_wheres_text(x.vars.items@) + ";"@;
        if ls.len() == 1 {
            last
        } else {
            local_vars_list_text(ls.subrange(0, ls.len() - 1)) + "\n"@ + last
        }
    }
}

/// The blocks of a code expression, joined by newlines; each is its label
/// and `:` on a line, then its commands and its transfer, indented, each on
/// a line of its own.
pub open spec fn spec_blocks_text(bs: Seq<SpecBlock>) -> Seq<char>
    decreases bs,
{
    if bs.len() == 0 {
        Seq::empty()
    } else {
        let b = bs[bs.len() - 1];
        let transfer = match b.transfer {
            SpecTransfer::Goto(g) => "goto "@ + g.labels.text(),
            SpecTransfer::Return(r) => "return "@ + expr_text(r.value),
        };
        let last = b.label@ + ":\n"@ + indented(cmd_lines_text(b.cmds@) + transfer + ";"@, indent_unit(), true);
        if bs.len() == 1 {
            last
        } else {
            spec_blocks_text(bs.subrange(0, bs.len() - 1)) + "\n"@ + last
        }
    }
}

/// Each command followed by a newline.
pub open spec fn cmd_lines_text(cs: Seq<LabelOrCmd>) -> Seq<char>
    decreases cs,
{
    if cs.len() == 0 {
        Seq::empty()
    } else {
        cmd_lines_text(cs.subrange(0, cs.len() - 1)) + cmd_text(cs[cs.len() - 1]) + "\n"@
    }
}

/// The text of a label or simple command.
pub open spec fn cmd_text(c: LabelOrCmd) -> Seq<char>
    decreases c,
{
    match c {
        LabelOrCmd::Assign(a) => assign_lhs_text(a.lhs@) + " := "@ + exprs_text(a.rhs.exprs@) + ";"@,
        LabelOrCmd::Call(x) => (if x.is_async { "async "@ } else { Seq::empty() }) + (if x.is_free {
            "free "@
        } else {
            Seq::empty()
        }) + "call "@ + attrs_text(x.attrs@) + call_params_text(x.call_params) + ";"@,
        LabelOrCmd::Claim(x) => x.kind.text() + " "@ + attrs_text(x.attrs@) + expr_text(x.proposition)
            + ";"@,
        LabelOrCmd::Havoc(x) => "havoc "@ + x.vars.text() + ";"@,
        LabelOrCmd::Label(x) => x.ident@ + ":"@,
        LabelOrCmd::ParCall(x) => "par "@ + attrs_text(x.attrs@) + calls_text(x.calls@) + ";"@,
        LabelOrCmd::Yield(_) => "yield;"@,
    }
}

/// The assigned variables, joined by `, `, each with its subscripts.
pub open spec fn assign_lhs_text(ls: Seq<AssignLhs>) -> Seq<char>
    decreases ls,
{
    if ls.len() == 0 {
        Seq::empty()
    } else {
        let x = ls[ls.len() - 1];
        let last = x.ident@ + subscript_lists_text(x.subscripts@);
        if ls.len() == 1 {
            last
        } else {
            assign_lhs_text(ls.subrange(0, ls.len() - 1)) + ", "@ + last
        }
    }
}

/// Each list of expressions in square brackets, one after the other.
pub open spec fn subscript_lists_text(ss: Seq<Exprs>) -> Seq<char>
    decreases ss,
{
    if ss.len() == 0 {
        Seq::empty()
    } else {
        subscript_lists_text(ss.subrange(0, ss.len() - 1)) + "["@ + exprs_text(ss[ss.len() - 1].exprs@)
            + "]"@
    }
}

/// `[<returns> := ]<target>(<params>)`.
pub open spec fn call_params_text(c: CallParams) -> Seq<char>
    decreases c,
{
    (if c.returns.idents@.len() == 0 {
        Seq::empty()
    } else {
        c.returns.text() + " := "@
    }) + c.target@ + "("@ + exprs_text(c.params.exprs@) + ")"@
}

/// Calls joined by ` | `.
pub open spec fn calls_text(cs: Seq<CallParams>) -> Seq<char>
    decreases cs,
{
    if cs.len() == 0 {
        Seq::empty()
    } else if cs.len() == 1 {
        call_params_text(cs[0])
    } else {
        calls_text(cs.subrange(0, cs.len() - 1)) + " | "@ + call_params_text(cs[cs.len() - 1])
    }
}

/// An expression whose outermost form is a conditional, `<==>`, `==>` or
/// `<==`.
pub open spec fn is_implication_or_looser(c: Expr) -> bool {
    c is IfThenElse || c is Equiv || c is Implies || c is Explies
}

/// An expression whose outermost form is at most as tight as `&&`/`||`.
pub open spec fn is_logical_or_looser(c: Expr) -> bool {
    is_implication_or_looser(c) || c is Logical
}

/// An expression whose outermost form is at most as tight as a comparison.
pub open spec fn is_rel_or_looser(c: Expr) -> bool {
    is_logical_or_looser(c) || c is Rel
}

/// An expression whose outermost form is at most as tight as `++`.
pub open spec fn is_concat_or_looser(c: Expr) -> bool {
    is_rel_or_looser(c) || c is BvTerm
}

/// An expression whose outermost form is at most as tight as `+`/`-`.
pub open spec fn is_sum_or_looser(c: Expr) -> bool {
    is_concat_or_looser(c) || c is Term
}

/// An expression whose outermost form is at most as tight as a
/// multiplication.
pub open spec fn is_product_or_looser(c: Expr) -> bool {
    is_sum_or_looser(c) || c is Factor
}

/// An expression whose outermost form is at most as tight as `**`.
pub open spec fn is_power_or_looser(c: Expr) -> bool {
    is_product_or_looser(c) || c is Power
}

/// The text of an operator expression is its operands' texts around the
/// operator, and an operand stands in parentheses exactly where Boogie's
/// grammar would otherwise read the text as another tree: where its own
/// operator binds more loosely than the parent's, on the right of `<==>`,
/// `<==`, `&&`, `||`, `++`, `+`/`-` and the multiplications when it has the
/// parent's operator (they group to the left, so `a div (b div c)` keeps its
/// parentheses while `a div b div c` is `(a div b) div c`), on the left of
/// `==>` and `**` when it has the parent's operator (they group to the
/// right), beside a comparison when it is a comparison (comparisons do not
/// chain), and beside `&&` or `||` when it is the other of the two. A
/// conditional expression is always in parentheses.
pub proof fn law_operands_parenthesized_by_grammar(e: Expr)
    ensures
        match e {
            Expr::Equiv(x) => expr_text(e) == paren_if(x.lhs is IfThenElse, expr_text(x.lhs))
                + " <==> "@ + paren_if(x.rhs is IfThenElse || x.rhs is Equiv, expr_text(x.rhs)),
            Expr::Implies(x) => expr_text(e) == paren_if(
                is_implication_or_looser(x.lhs),
                expr_text(x.lhs),
            ) + " ==> "@ + paren_if(x.rhs is IfThenElse || x.rhs is Equiv, expr_text(x.rhs)),
            Expr::Explies(x) => expr_text(e) == paren_if(
                x.lhs is IfThenElse || x.lhs is Equiv || x.lhs is Implies,
                expr_text(x.lhs),
            ) + " <== "@ + paren_if(is_implication_or_looser(x.rhs), expr_text(x.rhs)),
            Expr::Logical(x) => expr_text(e) == paren_if(
                is_implication_or_looser(x.lhs) || (x.lhs matches Expr::Logical(c) && c.op
                    != x.op),
                expr_text(x.lhs),
            ) + " "@ + x.op.text() + " "@ + paren_if(is_logical_or_looser(x.rhs), expr_text(x.rhs)),
            Expr::Rel(x) => expr_text(e) == paren_if(is_rel_or_looser(x.lhs), expr_text(x.lhs))
                + " "@ + x.op.text() + " "@ + paren_if(is_rel_or_looser(x.rhs), expr_text(x.rhs)),
            Expr::BvTerm(x) => expr_text(e) == paren_if(is_rel_or_looser(x.lhs), expr_text(x.lhs))
                + " ++ "@ + paren_if(is_concat_or_looser(x.rhs), expr_text(x.rhs)),
            Expr::Term(x) => expr_text(e) == paren_if(is_concat_or_looser(x.lhs), expr_text(x.lhs))
                + " "@ + x.op.text() + " "@ + paren_if(is_sum_or_looser(x.rhs), expr_text(x.rhs)),
            Expr::Factor(x) => expr_text(e) == paren_if(is_sum_or_looser(x.lhs), expr_text(x.lhs))
                + " "@ + x.op.text() + " "@ + paren_if(is_product_or_looser(x.rhs), expr_text(x.rhs)),
            Expr::Power(x) => expr_text(e) == paren_if(is_power_or_looser(x.lhs), expr_text(x.lhs))
                + " ** "@ + paren_if(is_product_or_looser(x.rhs), expr_text(x.rhs)),
            Expr::Neg(x) => expr_text(e) == x.op.text() + paren_if(
                is_power_or_looser(x.expr),
                expr_text(x.expr),
            ),
            Expr::Coercion(x) => expr_text(e) == paren_if(
                is_power_or_looser(x.expr) || x.expr is Neg || x.expr is Coercion,
                expr_text(x.expr),
            ) + coercions_text(x.coercions@),
            Expr::Array(x) => expr_text(e) == paren_if(
                is_power_or_looser(x.expr) || x.expr is Neg || x.expr is Coercion || x.expr is Array,
                expr_text(x.expr),
            ) + subscripts_text(x.subscripts@),
            _ => true,
        },
{
    reveal_strlit(" <==> ");
    reveal_strlit("<==>");
    reveal_strlit(" ==> ");
    reveal_strlit("==>");
    reveal_strlit(" <== ");
    reveal_strlit("<==");
    reveal_strlit(" ++ ");
    reveal_strlit("++");
    reveal_strlit(" ** ");
    reveal_strlit("**");
    reveal_strlit(" ");
    match e {
        Expr::Equiv(x) => {
            assert(" "@ + "<==>"@ + " "@ =~= " <==> "@);
        },
        Expr::Implies(x) => {
            assert(" "@ + "==>"@ + " "@ =~= " ==> "@);
        },
        Expr::Explies(x) => {
            assert(" "@ + "<=="@ + " "@ =~= " <== "@);
        },
        Expr::BvTerm(x) => {
            assert(" "@ + "++"@ + " "@ =~= " ++ "@);
        },
        Expr::Power(x) => {
            assert(" "@ + "**"@ + " "@ =~= " ** "@);
        },
        _ => {},
    }
}

fn rank_of(e: &Expr) -> (r: u8)
    ensures
        r == rank(*e),
{
    match e {
        Expr::Equiv(_) => 1,
        Expr::Implies(_) => 2,
        Expr::Explies(_) => 3,
        Expr::Logical(_) => 4,
        Expr::Rel(_) => 5,
        Expr::BvTerm(_) => 6,
        Expr::Term(_) => 7,
        Expr::Factor(_) => 8,
        Expr::Power(_) => 9,
        Expr::Neg(_) => 10,
        Expr::Coercion(_) => 11,
        Expr::Array(_) => 12,
        _ => 13,
    }
}

fn same_logical_op(a: LogicalOp, b: LogicalOp) -> (r: bool)
    ensures
        r == (a == b),
{
    match (a, b) {
        (LogicalOp::And, LogicalOp::And) => true,
        (LogicalOp::Or, LogicalOp::Or) => true,
        _ => false,
    }
}

/// Whether operand `index` of `parent` is printed in parentheses.
pub fn needs_parens(parent: &Expr, child: &Expr, index: usize) -> (r: bool)
    ensures
        r == child_needs_parens(*parent, *child, index as int),
{
    if let Expr::IfThenElse(_) = child {
        return true;
    }
    let c = rank_of(child);
    match parent {
        Expr::Equiv(_) => c == 1 && index == 1,
        Expr::Implies(_) => c <= 1 || ((c == 2 || c == 3) && index == 0),
        Expr::Explies(_) => c <= 2 || (c == 3 && index == 1),
        Expr::Logical(p) => c <= 3 || match child {
            Expr::Logical(x) => !same_logical_op(p.op, x.op) || index == 1,
            _ => false,
        },
        Expr::Rel(_) => c <= 5,
        Expr::BvTerm(_) => c <= 5 || (c == 6 && index == 1),
        Expr::Term(_) => c <= 6 || (c == 7 && index == 1),
        Expr::Factor(_) => c <= 7 || (c == 8 && index == 1),
        Expr::Power(_) => c <= 8 || (c == 9 && index == 0),
        Expr::Neg(_) => c <= 9,
        Expr::Coercion(_) => c <= 11,
        Expr::Array(_) => c <= 12,
        _ => false,
    }
}

/// Appends operand `index` of `parent`, in parentheses where it needs them.
fn push_child(parent: &Expr, child: &Expr, index: usize, s: &mut String)
    ensures
        final(s)@ == old(s)@ + child_text(*parent, *child, index as int, expr_text(*child)),
    decreases child, 3nat,
{
    let ghost s0 = s@;
    let p = needs_parens(parent, child, index);
    if p {
        push_str(s, "(");
    }
    push_expr(child, s);
    if p {
        push_str(s, ")");
    }
    assert(s@ =~= s0 + child_text(*parent, *child, index as int, expr_text(*child)));
}

/// Appends the operands of `parent` with `op` between them.
fn push_binary(parent: &Expr, lhs: &Expr, op: &str, rhs: &Expr, s: &mut String)
    requires
        decreases_to!(*parent => *lhs),
        decreases_to!(*parent => *rhs),
    ensures
        final(s)@ == old(s)@ + binary_text(*parent, *lhs, expr_text(*lhs), op@, *rhs, expr_text(*rhs)),
    decreases parent, 1nat,
{
    let ghost s0 = s@;
    push_child(parent, lhs, 0, s);
    push_str(s, " ");
    push_str(s, op);
    push_str(s, " ");
    push_child(parent, rhs, 1, s);
    assert(s@ =~= s0 + binary_text(*parent, *lhs, expr_text(*lhs), op@, *rhs, expr_text(*rhs)));
}

/// Appends the text of an expression.
#[verifier::rlimit(30)]
pub fn push_expr(e: &Expr, s: &mut String)
    ensures
        final(s)@ == old(s)@ + expr_text(*e),
    decreases e, 2nat,
{
    let ghost s0 = s@;
    match e {
        Expr::Equiv(x) => {
            proof { assert(decreases_to!(*e => (*e)->Equiv_0)); }
            push_binary(e, &x.lhs, "<==>", &x.rhs, s);
        },
        Expr::Implies(x) => {
            proof { assert(decreases_to!(*e => (*e)->Implies_0)); }
            push_binary(e, &x.lhs, "==>", &x.rhs, s);
        },
        Expr::Explies(x) => {
            proof { assert(decreases_to!(*e => (*e)->Explies_0)); }
            push_binary(e, &x.lhs, "<==", &x.rhs, s);
        },
        Expr::Logical(x) => {
            proof { assert(decreases_to!(*e => (*e)->Logical_0)); }
            push_binary(e, &x.lhs, x.op.as_str(), &x.rhs, s);
        },
        Expr::Rel(x) => {
            proof { assert(decreases_to!(*e => (*e)->Rel_0)); }
            push_binary(e, &x.lhs, x.op.as_str(), &x.rhs, s);
        },
        Expr::BvTerm(x) => {
            proof { assert(decreases_to!(*e => (*e)->BvTerm_0)); }
            push_binary(e, &x.lhs, "++", &x.rhs, s);
        },
        Expr::Term(x) => {
            proof { assert(decreases_to!(*e => (*e)->Term_0)); }
            push_binary(e, &x.lhs, x.op.as_str(), &x.rhs, s);
        },
        Expr::Factor(x) => {
            proof { assert(decreases_to!(*e => (*e)->Factor_0)); }
            push_binary(e, &x.lhs, x.op.as_str(), &x.rhs, s);
        },
        Expr::Power(x) => {
            proof { assert(decreases_to!(*e => (*e)->Power_0)); }
            push_binary(e, &x.lhs, "**", &x.rhs, s);
        },
        Expr::Neg(x) => {
            proof { assert(decreases_to!(*e => (*e)->Neg_0)); }
            push_str(s, x.op.as_str());
            push_child(e, &x.expr, 0, s);
            assert(s@ =~= s0 + expr_text(*e));
        },
        Expr::Coercion(x) => {
            proof { assert(decreases_to!(*e => (*e)->Coercion_0)); }
            push_child(e, &x.expr, 0, s);
            push_coercions(&x.coercions, s);
            assert(s@ =~= s0 + expr_text(*e));
        },
        Expr::Array(x) => {
            proof { assert(decreases_to!(*e => (*e)->Array_0)); }
            push_child(e, &x.expr, 0, s);
            push_subscripts(&x.subscripts, s);
            assert(s@ =~= s0 + expr_text(*e));
        },
        Expr::BoolLit(b) => push_bool(s, *b),
        Expr::Nat(n) => push_str(s, n.as_str()),
        Expr::Dec(d) => {
            let t = d.to_string();
            push_str(s, t.as_str());
        },
        Expr::Float(f) => {
            let t = f.to_string();
            push_str(s, t.as_str());
        },
        Expr::BvLit(b) => {
            let t = b.to_string();
            push_str(s, t.as_str());
        },
        Expr::Var(i) => push_str(s, i.as_str()),
        Expr::FuncCall(f) => {
            proof { assert(decreases_to!(*e => (*e)->FuncCall_0)); }
            push_str(s, f.target.as_str());
            push_str(s, "(");
            push_exprs(&f.args.exprs, s);
            push_str(s, ")");
            assert(s@ =~= s0 + expr_text(*e));
        },
        Expr::Old(x) => {
            proof { assert(decreases_to!(*e => (*e)->Old_0)); }
            push_str(s, "old (");
            push_expr(&x.expr, s);
            push_str(s, ")");
            assert(s@ =~= s0 + expr_text(*e));
        },
        Expr::ArithCoercion(x) => {
            proof { assert(decreases_to!(*e => (*e)->ArithCoercion_0)); }
            push_str(s, x.kind.as_str());
            push_str(s, "(");
            push_expr(&x.expr, s);
            push_str(s, ")");
            assert(s@ =~= s0 + expr_text(*e));
        },
        Expr::Quant(x) => {
            proof { assert(decreases_to!(*e => (*e)->Quant_0)); }
            push_quant(x, s);
        },
        Expr::IfThenElse(x) => {
            proof { assert(decreases_to!(*e => (*e)->IfThenElse_0)); }
            push_str(s, "if ");
            push_expr(&x.cond, s);
            push_str(s, " then ");
            push_expr(&x.then_, s);
            push_str(s, " else ");
            push_expr(&x.else_, s);
            assert(s@ =~= s0 + expr_text(*e));
        },
        Expr::Code(c) => {
            proof { assert(decreases_to!(*e => (*e)->Code_0)); }
            push_code(c, s);
        },
    }
}

/// Appends a quantified expression.
#[verifier::spinoff_prover]
#[verifier::rlimit(30)]
fn push_quant(x: &QuantExpr, s: &mut String)
    ensures
        final(s)@ == old(s)@ + expr_text(Expr::Quant(Box::new(*x))),
    decreases x, 0nat,
{
    let ghost s0 = s@;
    let b = &x.body;
    proof {
        assert(decreases_to!(*x => x.body));
        assert(decreases_to!(x.body => x.body.bound_vars));
        assert(decreases_to!(x.body.bound_vars => x.body.bound_vars.items));
        assert(decreases_to!(x.body => x.body.attrs));
        assert(decreases_to!(x.body => x.body.expr));
    }
    push_str(s, "(");
    push_str(s, x.kind.as_str());
    push_str(s, " ");
    let ghost s1 = s@;
    if b.type_params.params.idents.len() > 0 {
        b.type_params.push_text(s);
        push_str(s, " ");
    }
    let ghost s2 = s@;
    if b.bound_vars.items.len() > 0 {
        push_attr_typed_wheres(&b.bound_vars.items, s);
        push_str(s, " ");
    }
    let ghost s3 = s@;
    push_str(s, ":: ");
    push_attrs(&b.attrs, s);
    push_expr(&b.expr, s);
    push_str(s, ")");
    proof {
        let type_params = if b.type_params.params.idents@.len() == 0 {
            Seq::empty()
        } else {
            b.type_params.text() + " "@
        };
        let bound_vars = if b.bound_vars.items@.len() == 0 {
            Seq::empty()
        } else {
            attr_typed_wheres_text(b.bound_vars.items@) + " "@
        };
        assert(s2 =~= s1 + type_params);
        assert(s3 =~= s2 + bound_vars);
        assert(s@ =~= s0 + "("@ + x.kind.text() + " "@ + type_params + bound_vars + ":: "@
            + attrs_text(b.attrs@) + expr_text(b.expr) + ")"@);
    }
}

/// Appends a code expression.
fn push_code(c: &CodeExpr, s: &mut String)
    ensures
        final(s)@ == old(s)@ + expr_text(Expr::Code(Box::new(*c))),
    decreases c, 0nat,
{
    let ghost s0 = s@;
    let mut inner = String::new();
    push_local_vars_list(&c.local_vars, &mut inner);
    if c.local_vars.len() > 0 && c.spec_blocks.len() > 0 {
        push_str(&mut inner, "\n\n");
    }
    push_spec_blocks(&c.spec_blocks, &mut inner);
    push_str(s, "|{\n");
    let body = indent_lines("  ", inner.as_str());
    push_str(s, body.as_str());
    push_str(s, "\n}|");
    assert(s@ =~= s0 + expr_text(Expr::Code(Box::new(*c))));
}

/// Appends expressions joined by `, `.
pub fn push_exprs(es: &Vec<Expr>, s: &mut String)
    ensures
        final(s)@ == old(s)@ + exprs_text(es@),
    decreases es, 0nat,
{
    let ghost s0 = s@;
    let n = es.len();
    let mut i: usize = 0;
    while i < n
        invariant
            n == es@.len(),
            i <= n,
            s@ == s0 + exprs_text(es@.subrange(0, i as int)),
        decreases n - i,
    {
        if i > 0 {
            push_str(s, ", ");
        }
        proof {
            assert(decreases_to!(es => es@));
            assert(decreases_to!(es@ => es@[i as int]));
        }
        push_expr(&es[i], s);
        proof {
            let k = es@.subrange(0, i + 1);
            assert(k.subrange(0, k.len() - 1) =~= es@.subrange(0, i as int));
            assert(k[k.len() - 1] == es@[i as int]);
            assert(s@ =~= s0 + exprs_text(k));
        }
        i += 1;
    }
    assert(es@.subrange(0, n as int) =~= es@);
}

/// Appends each coercion preceded by ` : `.
fn push_coercions(cs: &Vec<Coercion>, s: &mut String)
    ensures
        final(s)@ == old(s)@ + coercions_text(cs@),
{
    let ghost s0 = s@;
    let n = cs.len();
    let mut i: usize = 0;
    while i < n
        invariant
            n == cs@.len(),
            i <= n,
            s@ == s0 + coercions_text(cs@.subrange(0, i as int)),
        decreases n - i,
    {
        push_str(s, " : ");
        match &cs[i] {
            Coercion::Type(t) => push_type(t, s),
            Coercion::Nat(n) => push_str(s, n.as_str()),
        }
        proof {
            let k = cs@.subrange(0, i + 1);
            assert(k.drop_last() =~= cs@.subrange(0, i as int));
            assert(s@ =~= s0 + coercions_text(k));
        }
        i += 1;
    }
    assert(cs@.subrange(0, n as int) =~= cs@);
}

/// Appends the subscripts one after the other.
fn push_subscripts(subs: &Vec<ArraySubscript>, s: &mut String)
    ensures
        final(s)@ == old(s)@ + subscripts_text(subs@),
    decreases subs, 0nat,
{
    let ghost s0 = s@;
    let n = subs.len();
    let mut i: usize = 0;
    while i < n
        invariant
            n == subs@.len(),
            i <= n,
            s@ == s0 + subscripts_text(subs@.subrange(0, i as int)),
        decreases n - i,
    {
        let x = &subs[i];
        proof {
            assert(decreases_to!(subs => subs@));
            assert(decreases_to!(subs@ => subs@[i as int]));
        }
        push_str(s, "[");
        push_exprs(&x.keys.exprs, s);
        if let Some(v) = &x.value {
            if x.keys.exprs.len() > 0 {
                push_str(s, " ");
            }
            push_str(s, ":= ");
            push_expr(v, s);
        }
        push_str(s, "]");
        proof {
            let k = subs@.subrange(0, i + 1);
            assert(k.subrange(0, k.len() - 1) =~= subs@.subrange(0, i as int));
            assert(k[k.len() - 1] == subs@[i as int]);
            assert(s@ =~= s0 + subscripts_text(k));
        }
        i += 1;
    }
    assert(subs@.subrange(0, n as int) =~= subs@);
}

/// Appends one attribute or trigger followed by a space.
pub fn push_attr(a: &AttrOrTrigger, s: &mut String)
    ensures
        final(s)@ == old(s)@ + attrs_text(seq![*a]),
    decreases a, 0nat,
{
    let ghost s0 = s@;
    push_str(s, "{");
    match a {
        AttrOrTrigger::Attr(c) => {
            proof { assert(decreases_to!(*a => (*a)->Attr_0)); }
            push_str(s, ":");
            push_str(s, c.ident.as_str());
            if c.params.len() > 0 {
                push_str(s, " ");
                push_attr_params(&c.params, s);
            }
        },
        AttrOrTrigger::Trigger(es) => {
            proof { assert(decreases_to!(*a => (*a)->Trigger_0)); }
            push_exprs(&es.exprs, s);
        },
    }
    push_str(s, "}");
    push_str(s, " ");
    proof {
        let k = seq![*a];
        assert(k.subrange(0, 0) =~= Seq::<AttrOrTrigger>::empty());
        assert(attrs_text(Seq::<AttrOrTrigger>::empty()) == Seq::<char>::empty());
        assert(k[k.len() - 1] == *a);
        assert(s@ =~= s0 + attrs_text(k));
    }
}

/// Appending one more attribute appends its text.
pub proof fn lemma_attrs_push(attrs: Seq<AttrOrTrigger>, a: AttrOrTrigger)
    ensures
        attrs_text(attrs.push(a)) == attrs_text(attrs) + attrs_text(seq![a]),
{
    let k = attrs.push(a);
    let one = seq![a];
    assert(k.subrange(0, k.len() - 1) =~= attrs);
    assert(one.subrange(0, 0) =~= Seq::<AttrOrTrigger>::empty());
    assert(attrs_text(Seq::<AttrOrTrigger>::empty()) == Seq::<char>::empty());
    assert(k[k.len() - 1] == a);
    assert(one[one.len() - 1] == a);
    assert(attrs_text(k) =~= attrs_text(attrs) + attrs_text(one));
}

/// Appends each attribute or trigger followed by a space.
pub fn push_attrs(attrs: &Vec<AttrOrTrigger>, s: &mut String)
    ensures
        final(s)@ == old(s)@ + attrs_text(attrs@),
    decreases attrs, 0nat,
{
    let ghost s0 = s@;
    let n = attrs.len();
    let mut i: usize = 0;
    while i < n
        invariant
            n == attrs@.len(),
            i <= n,
            s@ == s0 + attrs_text(attrs@.subrange(0, i as int)),
        decreases n - i,
    {
        proof {
            assert(decreases_to!(attrs => attrs@));
            assert(decreases_to!(attrs@ => attrs@[i as int]));
        }
        push_attr(&attrs[i], s);
        proof {
            lemma_attrs_push(attrs@.subrange(0, i as int), attrs@[i as int]);
            assert(attrs@.subrange(0, i as int).push(attrs@[i as int]) =~= attrs@.subrange(0, i + 1));
        }
        i += 1;
    }
    assert(attrs@.subrange(0, n as int) =~= attrs@);
}

/// Appends the parameters of an attribute, joined by `, `.
fn push_attr_params(ps: &Vec<AttrParam>, s: &mut String)
    ensures
        final(s)@ == old(s)@ + attr_params_text(ps@),
    decreases ps, 0nat,
{
    let ghost s0 = s@;
    let n = ps.len();
    let mut i: usize = 0;
    while i < n
        invariant
            n == ps@.len(),
            i <= n,
            s@ == s0 + attr_params_text(ps@.subrange(0, i as int)),
        decreases n - i,
    {
        proof {
            assert(decreases_to!(ps => ps@));
            assert(decreases_to!(ps@ => ps@[i as int]));
        }
        if i > 0 {
            push_str(s, ", ");
        }
        match &ps[i] {
            AttrParam::String(l) => {
                let t = l.to_string();
                push_str(s, t.as_str());
            },
            AttrParam::Expr(x) => push_expr(x, s),
        }
        proof {
            let k = ps@.subrange(0, i + 1);
            assert(k.subrange(0, k.len() - 1) =~= ps@.subrange(0, i as int));
            assert(k[k.len() - 1] == ps@[i as int]);
            assert(s@ =~= s0 + attr_params_text(k));
        }
        i += 1;
    }
    assert(ps@.subrange(0, n as int) =~= ps@);
}

/// Appends `<idents>: <type>[ where <expr>]`.
pub fn push_typed_where(t: &TypedIdentsWhere, s: &mut String)
    ensures
        final(s)@ == old(s)@ + typed_where_text(*t),
    decreases t, 0nat,
{
    let ghost s0 = s@;
    t.typed_idents.idents.push_text(s);
    push_str(s, ": ");
    push_type(&t.typed_idents.type_, s);
    if let Some(w) = &t.where_ {
        push_str(s, " where ");
        push_expr(w, s);
    }
    assert(s@ =~= s0 + typed_where_text(*t));
}

/// Appends variables with types and `where` clauses, joined by `, `.
pub fn push_typed_wheres(items: &Vec<Spanned<TypedIdentsWhere>>, s: &mut String)
    ensures
        final(s)@ == old(s)@ + typed_wheres_text(items@),
    decreases items, 0nat,
{
    let ghost s0 = s@;
    let n = items.len();
    let mut i: usize = 0;
    while i < n
        invariant
            n == items@.len(),
            i <= n,
            s@ == s0 + typed_wheres_text(items@.subrange(0, i as int)),
        decreases n - i,
    {
        proof {
            assert(decreases_to!(items => items@));
            assert(decreases_to!(items@ => items@[i as int]));
        }
        if i > 0 {
            push_str(s, ", ");
        }
        push_typed_where(&items[i].value, s);
        proof {
            let k = items@.subrange(0, i + 1);
            assert(k.subrange(0, k.len() - 1) =~= items@.subrange(0, i as int));
            assert(k[k.len() - 1] == items@[i as int]);
            assert(s@ =~= s0 + typed_wheres_text(k));
        }
        i += 1;
    }
    assert(items@.subrange(0, n as int) =~= items@);
}

/// Appends variables with attributes, types and `where` clauses, joined by
/// `, `.
pub fn push_attr_typed_wheres(items: &Vec<Spanned<AttrTypedIdentsWhere>>, s: &mut String)
    ensures
        final(s)@ == old(s)@ + attr_typed_wheres_text(items@),
    decreases items, 0nat,
{
    let ghost s0 = s@;
    let n = items.len();
    let mut i: usize = 0;
    while i < n
        invariant
            n == items@.len(),
            i <= n,
            s@ == s0 + attr_typed_wheres_text(items@.subrange(0, i as int)),
        decreases n - i,
    {
        proof {
            assert(decreases_to!(items => items@));
            assert(decreases_to!(items@ => items@[i as int]));
        }
        if i > 0 {
            push_str(s, ", ");
        }
        let x = &items[i].value;
        push_attrs(&x.attrs, s);
        push_typed_where(&x.typed_idents_where, s);
        proof {
            let k = items@.subrange(0, i + 1);
            assert(k.subrange(0, k.len() - 1) =~= items@.subrange(0, i as int));
            assert(k[k.len() - 1] == items@[i as int]);
            assert(s@ =~= s0 + attr_typed_wheres_text(k));
        }
        i += 1;
    }
    assert(items@.subrange(0, n as int) =~= items@);
}

/// Appends declarations of local variables, joined by newlines.
pub fn push_local_vars_list(ls: &Vec<LocalVars>, s: &mut String)
    ensures
        final(s)@ == old(s)@ + local_vars_list_text(ls@),
    decreases ls, 0nat,
{
    let ghost s0 = s@;
    let n = ls.len();
    let mut i: usize = 0;
    while i < n
        invariant
            n == ls@.len(),
            i <= n,
            s@ == s0 + local_vars_list_text(ls@.subrange(0, i as int)),
        decreases n - i,
    {
        proof {
            assert(decreases_to!(ls => ls@));
            assert(decreases_to!(ls@ => ls@[i as int]));
        }
        if i > 0 {
            push_str(s, "\n");
        }
        let x = &ls[i];
        push_str(s, "var ");
        push_attrs(&x.attrs, s);
        push_typed_wheres(&x.vars.items, s);
        push_str(s, ";");
        proof {
            let k = ls@.subrange(0, i + 1);
            assert(k.subrange(0, k.len() - 1) =~= ls@.subrange(0, i as int));
            assert(k[k.len() - 1] == ls@[i as int]);
            assert(s@ =~= s0 + local_vars_list_text(k));
        }
        i += 1;
    }
    assert(ls@.subrange(0, n as int) =~= ls@);
}

/// Appends the blocks of a code expression, joined by newlines.
fn push_spec_blocks(bs: &Vec<SpecBlock>, s: &mut String)
    ensures
        final(s)@ == old(s)@ + spec_blocks_text(bs@),
    decreases bs, 0nat,
{
    let ghost s0 = s@;
    let n = bs.len();
    let mut i: usize = 0;
    while i < n
        invariant
            n == bs@.len(),
            i <= n,
            s@ == s0 + spec_blocks_text(bs@.subrange(0, i as int)),
        decreases n - i,
    {
        proof {
            assert(decreases_to!(bs => bs@));
            assert(decreases_to!(bs@ => bs@[i as int]));
        }
        if i > 0 {
            push_str(s, "\n");
        }
        let b = &bs[i];
        push_str(s, b.label.as_str());
        push_str(s, ":\n");
        let mut inner = String::new();
        push_cmd_lines(&b.cmds, &mut inner);
        match &b.transfer {
            SpecTransfer::Goto(g) => {
                push_str(&mut inner, "goto ");
                g.labels.push_text(&mut inner);
            },
            SpecTransfer::Return(r) => {
                push_str(&mut inner, "return ");
                push_expr(&r.value, &mut inner);
            },
        }
        push_str(&mut inner, ";");
        let ghost transfer = match bs@[i as int].transfer {
            SpecTransfer::Goto(g) => "goto "@ + g.labels.text(),
            SpecTransfer::Return(r) => "return "@ + expr_text(r.value),
        };
        assert(inner@ =~= cmd_lines_text(b.cmds@) + transfer + ";"@);
        let body = indent_lines("  ", inner.as_str());
        push_str(s, body.as_str());
        proof {
            let k = bs@.subrange(0, i + 1);
            assert(k.subrange(0, k.len() - 1) =~= bs@.subrange(0, i as int));
            assert(k[k.len() - 1] == bs@[i as int]);
            assert(s@ =~= s0 + spec_blocks_text(k));
        }
        i += 1;
    }
    assert(bs@.subrange(0, n as int) =~= bs@);
}

/// Appends each command followed by a newline.
fn push_cmd_lines(cs: &Vec<LabelOrCmd>, s: &mut String)
    ensures
        final(s)@ == old(s)@ + cmd_lines_text(cs@),
    decreases cs, 0nat,
{
    let ghost s0 = s@;
    let n = cs.len();
    let mut i: usize = 0;
    while i < n
        invariant
            n == cs@.len(),
            i <= n,
            s@ == s0 + cmd_lines_text(cs@.subrange(0, i as int)),
        decreases n - i,
    {
        proof {
            assert(decreases_to!(cs => cs@));
            assert(decreases_to!(cs@ => cs@[i as int]));
        }
        push_cmd(&cs[i], s);
        push_str(s, "\n");
        proof {
            let k = cs@.subrange(0, i + 1);
            assert(k.subrange(0, k.len() - 1) =~= cs@.subrange(0, i as int));
            assert(k[k.len() - 1] == cs@[i as int]);
            assert(s@ =~= s0 + cmd_lines_text(k));
        }
        i += 1;
    }
    assert(cs@.subrange(0, n as int) =~= cs@);
}

/// Appends the text of a label or simple command.
pub fn push_cmd(c: &LabelOrCmd, s: &mut String)
    ensures
        final(s)@ == old(s)@ + cmd_text(*c),
    decreases c, 0nat,
{
    let ghost s0 = s@;
    match c {
        LabelOrCmd::Assign(a) => {
            proof { assert(decreases_to!(*c => (*c)->Assign_0)); }
            push_assign_cmd(a, s);
        },
        LabelOrCmd::Call(x) => {
            proof { assert(decreases_to!(*c => (*c)->Call_0)); }
            push_call_cmd(x, s);
        },
        LabelOrCmd::Claim(x) => {
            proof { assert(decreases_to!(*c => (*c)->Claim_0)); }
            push_claim_cmd(x, s);
        },
        LabelOrCmd::Havoc(x) => {
            push_str(s, "havoc ");
            x.vars.push_text(s);
            push_str(s, ";");
            assert(s@ =~= s0 + cmd_text(*c));
        },
        LabelOrCmd::Label(x) => {
            push_str(s, x.ident.as_str());
            push_str(s, ":");
            assert(s@ =~= s0 + cmd_text(*c));
        },
        LabelOrCmd::ParCall(x) => {
            proof { assert(decreases_to!(*c => (*c)->ParCall_0)); }
            push_par_call_cmd(x, s);
        },
        LabelOrCmd::Yield(_) => {
            push_str(s, "yield;");
        },
    }
}

#[verifier::spinoff_prover]
fn push_assign_cmd(a: &AssignCmd, s: &mut String)
    ensures
        final(s)@ == old(s)@ + cmd_text(LabelOrCmd::Assign(*a)),
    decreases a, 0nat,
{
    let ghost s0 = s@;
    push_assign_lhs(&a.lhs, s);
    push_str(s, " := ");
    push_exprs(&a.rhs.exprs, s);
    push_str(s, ";");
    assert(s@ =~= s0 + cmd_text(LabelOrCmd::Assign(*a)));
}

#[verifier::spinoff_prover]
#[verifier::rlimit(30)]
fn push_call_cmd(x: &CallCmd, s: &mut String)
    ensures
        final(s)@ == old(s)@ + cmd_text(LabelOrCmd::Call(*x)),
    decreases x, 0nat,
{
    let ghost s0 = s@;
    if x.is_async {
        push_str(s, "async ");
    }
    if x.is_free {
        push_str(s, "free ");
    }
    let ghost s1 = s@;
    let ghost flags = (if x.is_async { "async "@ } else { Seq::empty() }) + (if x.is_free {
        "free "@
    } else {
        Seq::empty()
    });
    assert(s1 =~= s0 + flags);
    push_str(s, "call ");
    push_attrs(&x.attrs, s);
    push_call_params(&x.call_params, s);
    push_str(s, ";");
    assert(s@ =~= s1 + "call "@ + attrs_text(x.attrs@) + call_params_text(x.call_params) + ";"@);
    assert(s@ =~= s0 + cmd_text(LabelOrCmd::Call(*x)));
}

#[verifier::spinoff_prover]
fn push_claim_cmd(x: &ClaimCmd, s: &mut String)
    ensures
        final(s)@ == old(s)@ + cmd_text(LabelOrCmd::Claim(*x)),
    decreases x, 0nat,
{
    let ghost s0 = s@;
    push_str(s, x.kind.as_str());
    push_str(s, " ");
    push_attrs(&x.attrs, s);
    push_expr(&x.proposition, s);
    push_str(s, ";");
    assert(s@ =~= s0 + cmd_text(LabelOrCmd::Claim(*x)));
}

#[verifier::spinoff_prover]
fn push_par_call_cmd(x: &ParCallCmd, s: &mut String)
    ensures
        final(s)@ == old(s)@ + cmd_text(LabelOrCmd::ParCall(*x)),
    decreases x, 0nat,
{
    let ghost s0 = s@;
    push_str(s, "par ");
    push_attrs(&x.attrs, s);
    push_calls(&x.calls, s);
    push_str(s, ";");
    assert(s@ =~= s0 + cmd_text(LabelOrCmd::ParCall(*x)));
}

/// Appends the assigned variables, joined by `, `.
fn push_assign_lhs(ls: &Vec<AssignLhs>, s: &mut String)
    ensures
        final(s)@ == old(s)@ + assign_lhs_text(ls@),
    decreases ls, 0nat,
{
    let ghost s0 = s@;
    let n = ls.len();
    let mut i: usize = 0;
    while i < n
        invariant
            n == ls@.len(),
            i <= n,
            s@ == s0 + assign_lhs_text(ls@.subrange(0, i as int)),
        decreases n - i,
    {
        proof {
            assert(decreases_to!(ls => ls@));
            assert(decreases_to!(ls@ => ls@[i as int]));
        }
        if i > 0 {
            push_str(s, ", ");
        }
        push_str(s, ls[i].ident.as_str());
        push_subscript_lists(&ls[i].subscripts, s);
        proof {
            let k = ls@.subrange(0, i + 1);
            assert(k.subrange(0, k.len() - 1) =~= ls@.subrange(0, i as int));
            assert(k[k.len() - 1] == ls@[i as int]);
            assert(s@ =~= s0 + assign_lhs_text(k));
        }
        i += 1;
    }
    assert(ls@.subrange(0, n as int) =~= ls@);
}

/// Appends each list of expressions in square brackets.
fn push_subscript_lists(ss: &Vec<Exprs>, s: &mut String)
    ensures
        final(s)@ == old(s)@ + subscript_lists_text(ss@),
    decreases ss, 0nat,
{
    let ghost s0 = s@;
    let n = ss.len();
    let mut i: usize = 0;
    while i < n
        invariant
            n == ss@.len(),
            i <= n,
            s@ == s0 + subscript_lists_text(ss@.subrange(0, i as int)),
        decreases n - i,
    {
        proof {
            assert(decreases_to!(ss => ss@));
            assert(decreases_to!(ss@ => ss@[i as int]));
        }
        push_str(s, "[");
        push_exprs(&ss[i].exprs, s);
        push_str(s, "]");
        proof {
            let k = ss@.subrange(0, i + 1);
            assert(k.subrange(0, k.len() - 1) =~= ss@.subrange(0, i as int));
            assert(k[k.len() - 1] == ss@[i as int]);
            assert(s@ =~= s0 + subscript_lists_text(k));
        }
        i += 1;
    }
    assert(ss@.subrange(0, n as int) =~= ss@);
}

/// Appends `[<returns> := ]<target>(<params>)`.
pub fn push_call_params(c: &CallParams, s: &mut String)
    ensures
        final(s)@ == old(s)@ + call_params_text(*c),
    decreases c, 0nat,
{
    let ghost s0 = s@;
    if c.returns.idents.len() > 0 {
        c.returns.push_text(s);
        push_str(s, " := ");
    }
    push_str(s, c.target.as_str());
    push_str(s, "(");
    push_exprs(&c.params.exprs, s);
    push_str(s, ")");
    assert(s@ =~= s0 + call_params_text(*c));
}

/// Appends calls joined by ` | `.
fn push_calls(cs: &Vec<CallParams>, s: &mut String)
    ensures
        final(s)@ == old(s)@ + calls_text(cs@),
    decreases cs, 0nat,
{
    let ghost s0 = s@;
    let n = cs.len();
    let mut i: usize = 0;
    while i < n
        invariant
            n == cs@.len(),
            i <= n,
            s@ == s0 + calls_text(cs@.subrange(0, i as int)),
        decreases n - i,
    {
        proof {
            assert(decreases_to!(cs => cs@));
            assert(decreases_to!(cs@ => cs@[i as int]));
        }
        if i > 0 {
            push_str(s, " | ");
        }
        push_call_params(&cs[i], s);
        proof {
            let k = cs@.subrange(0, i + 1);
            assert(k.subrange(0, k.len() - 1) =~= cs@.subrange(0, i as int));
            assert(k[k.len() - 1] == cs@[i as int]);
            assert(s@ =~= s0 + calls_text(k));
        }
        i += 1;
    }
    assert(cs@.subrange(0, n as int) =~= cs@);
}

impl Expr {
    /// The text of the expression.
    pub fn to_string(&self) -> (r: String)
        ensures
            r@ == expr_text(*self),
    {
        let mut s = String::new();
        push_expr(self, &mut s);
        s
    }
}

impl Type {
    /// The text of the type.
    pub fn to_string(&self) -> (r: String)
        ensures
            r@ == type_text(*self),
    {
        let mut s = String::new();
        push_type(self, &mut s);
        s
    }
}

impl LabelOrCmd {
    /// The text of the command.
    pub fn to_string(&self) -> (r: String)
        ensures
            r@ == cmd_text(*self),
    {
        let mut s = String::new();
        push_cmd(self, &mut s);
        s
    }
}

} // verus!
