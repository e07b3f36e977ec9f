//! Statements and declarations of Boogie programs, with the text that
//! prints them: nested blocks are indented by two spaces a level.

use vstd::prelude::*;

use crate::boogie::{ContractKind, ReturnCmd};
use crate::boogie_expr::{
    AttrOrTrigger, AttrTypedIdentsWheres, Expr, Idents, LabelOrCmd, LocalVars, Spanned, Type,
    TypeParams, TypedIdents, TypedIdentsWheres, attr_typed_wheres_text, attrs_text, cmd_text,
    expr_text, indent_unit, local_vars_list_text, push_attr, push_attr_typed_wheres, push_attrs,
    push_cmd, push_expr, push_local_vars_list, push_type, push_typed_wheres, type_text,
    typed_wheres_text, lemma_attrs_push,
};
use crate::ident::Ident;
use crate::indent::{indent_lines, indent_lines_after_first, indented};
use crate::text::{join, join_leading, lemma_join_push, push_str};

verus! {

/// A list of statements.
pub struct StmtList {
    pub stmts: Vec<Stmt>,
}

/// A statement: a label or simple command, a transfer of control, or a
/// structured command.
pub enum Stmt {
    LabelOrCmd(LabelOrCmd),
    TransferCmd(TransferCmd),
    StructuredCmd(StructuredCmd),
}

/// A transfer of control.
pub enum TransferCmd {
    Goto(GotoCmd),
    Return(ReturnCmd),
}

/// `goto <labels>;`.
pub struct GotoCmd {
    pub labels: Idents,
}

/// A structured command.
pub enum StructuredCmd {
    Break(BreakCmd),
    If(IfCmd),
    While(WhileCmd),
}

/// `break[ <label>];`.
pub struct BreakCmd {
    pub label: Option<Ident>,
}

/// `if <guard> {...}`, with an optional else clause.
pub struct IfCmd {
    pub guard: Guard,
    pub then_: StmtList,
    pub else_: Option<ElseClause>,
}

/// `else if ...` or `else {...}`.
pub enum ElseClause {
    ElseIf(Box<IfCmd>),
    Else(StmtList),
}

/// `while <guard>`, its invariants, and its body.
pub struct WhileCmd {
    pub guard: Guard,
    pub invariants: Vec<Invariant>,
    pub body: StmtList,
}

/// `[free ]invariant [<attrs> ]<expr>;`.
pub struct Invariant {
    pub attrs: Vec<AttrOrTrigger>,
    pub expr: Expr,
    pub is_free: bool,
}

/// The condition of an `if` or `while`: `(*)` for a nondeterministic
/// choice, or an expression in parentheses.
pub enum Guard {
    Asterisk,
    Expr(Expr),
}

/// `(*)` or `(<expr>)`.
pub open spec fn guard_text(g: Guard) -> Seq<char> {
    "("@ + match g {
        Guard::Asterisk => "*"@,
        Guard::Expr(e) => expr_text(e),
    } + ")"@
}

/// `{`, a newline, the statements indented, a newline where there are
/// any, and `}`.
pub open spec fn block_text(body: Seq<char>, is_empty: bool) -> Seq<char> {
    "{\n"@ + indented(body, indent_unit(), true) + (if is_empty { Seq::empty() } else { "\n"@ })
        + "}"@
}

/// `[free ]invariant [<attrs> ]<expr>;`.
pub open spec fn invariant_text(i: Invariant) -> Seq<char> {
    (if i.is_free { "free "@ } else { Seq::empty() }) + "invariant "@ + attrs_text(i.attrs@)
        + expr_text(i.expr) + ";"@
}

/// Each invariant preceded by a newline.
pub open spec fn invariant_lines_text(is: Seq<Invariant>) -> Seq<char>
    decreases is.len(),
{
    if is.len() == 0 {
        Seq::empty()
    } else {
        invariant_lines_text(is.drop_last()) + "\n"@ + invariant_text(is.last())
    }
}

/// The text of a statement.
pub open spec fn stmt_text(st: Stmt) -> Seq<char>
    decreases st,
{
    match st {
        Stmt::LabelOrCmd(c) => cmd_text(c),
        Stmt::TransferCmd(t) => match t {
            TransferCmd::Goto(g) => "goto "@ + g.labels.text() + ";"@,
            TransferCmd::Return(_) => "return;"@,
        },
        Stmt::StructuredCmd(c) => match c {
            StructuredCmd::Break(b) => "break"@ + match b.label {
                Some(l) => " "@ + l@,
                None => Seq::empty(),
            } + ";"@,
            StructuredCmd::If(i) => if_text(i),
            StructuredCmd::While(w) => "while "@ + guard_text(w.guard) + (if w.invariants@.len() == 0 {
                " "@
            } else {
                indented(invariant_lines_text(w.invariants@) + "\n"@, indent_unit(), true)
            }) + block_text(stmts_text(w.body.stmts@), w.body.stmts@.len() == 0),
        },
    }
}

/// `if <guard> {...}`, then ` else ...` where there is an else clause.
pub open spec fn if_text(i: IfCmd) -> Seq<char>
    decreases i,
{
    "if "@ + guard_text(i.guard) + " "@ + block_text(stmts_text(i.then_.stmts@), i.then_.stmts@.len() == 0)
        + match i.else_ {
        Some(ElseClause::ElseIf(e)) => " else "@ + if_text(*e),
        Some(ElseClause::Else(l)) => " else "@ + block_text(stmts_text(l.stmts@), l.stmts@.len() == 0),
        None => Seq::empty(),
    }
}

/// Statements joined by newlines.
pub open spec fn stmts_text(ss: Seq<Stmt>) -> Seq<char>
    decreases ss,
{
    if ss.len() == 0 {
        Seq::empty()
    } else if ss.len() == 1 {
        stmt_text(ss[0])
    } else {
        stmts_text(ss.subrange(0, ss.len() - 1)) + "\n"@ + stmt_text(ss[ss.len() - 1])
    }
}

fn push_guard(g: &Guard, s: &mut String)
    ensures
        final(s)@ == old(s)@ + guard_text(*g),
{
    let ghost s0 = s@;
    push_str(s, "(");
    match g {
        Guard::Asterisk => push_str(s, "*"),
        Guard::Expr(e) => push_expr(e, s),
    }
    push_str(s, ")");
    assert(s@ =~= s0 + guard_text(*g));
}

/// Appends `{`, the indented statements, and `}`.
fn push_block(l: &StmtList, s: &mut String)
    ensures
        final(s)@ == old(s)@ + block_text(stmts_text(l.stmts@), l.stmts@.len() == 0),
    decreases l, 0nat,
{
    let ghost s0 = s@;
    let mut inner = String::new();
    push_stmts(&l.stmts, &mut inner);
    push_str(s, "{\n");
    let body = indent_lines("  ", inner.as_str());
    push_str(s, body.as_str());
    if l.stmts.len() > 0 {
        push_str(s, "\n");
    }
    push_str(s, "}");
    assert(s@ =~= s0 + block_text(stmts_text(l.stmts@), l.stmts@.len() == 0));
}

/// Appends statements joined by newlines.
pub fn push_stmts(ss: &Vec<Stmt>, s: &mut String)
    ensures
        final(s)@ == old(s)@ + stmts_text(ss@),
    decreases ss, 0nat,
{
    let ghost s0 = s@;
    let n = ss.len();
    let mut i: usize = 0;
    while i < n
        invariant
            n == ss@.len(),
            i <= n,
            s@ == s0 + stmts_text(ss@.subrange(0, i as int)),
        decreases n - i,
    {
        proof {
            assert(decreases_to!(ss => ss@));
            assert(decreases_to!(ss@ => ss@[i as int]));
        }
        if i > 0 {
            push_str(s, "\n");
        }
        push_stmt(&ss[i], s);
        proof {
            let k = ss@.subrange(0, i + 1);
            assert(k.subrange(0, k.len() - 1) =~= ss@.subrange(0, i as int));
            assert(k[k.len() - 1] == ss@[i as int]);
            assert(s@ =~= s0 + stmts_text(k));
        }
        i += 1;
    }
    assert(ss@.subrange(0, n as int) =~= ss@);
}

/// Appends the text of a statement.
pub fn push_stmt(st: &Stmt, s: &mut String)
    ensures
        final(s)@ == old(s)@ + stmt_text(*st),
    decreases st, 0nat,
{
    let ghost s0 = s@;
    match st {
        Stmt::LabelOrCmd(c) => push_cmd(c, s),
        Stmt::TransferCmd(t) => {
            match t {
                TransferCmd::Goto(g) => {
                    push_str(s, "goto ");
                    g.labels.push_text(s);
                    push_str(s, ";");
                },
                TransferCmd::Return(r) => push_str(s, r.as_str()),
            }
            assert(s@ =~= s0 + stmt_text(*st));
        },
        Stmt::StructuredCmd(c) => {
            proof { assert(decreases_to!(*st => (*st)->StructuredCmd_0)); }
            match c {
                StructuredCmd::Break(b) => {
                    push_str(s, "break");
                    if let Some(l) = &b.label {
                        push_str(s, " ");
                        push_str(s, l.as_str());
                    }
                    push_str(s, ";");
                    assert(s@ =~= s0 + stmt_text(*st));
                },
                StructuredCmd::If(i) => {
                    proof { assert(decreases_to!(*c => (*c)->If_0)); }
                    push_if(i, s);
                },
                StructuredCmd::While(w) => {
                    proof { assert(decreases_to!(*c => (*c)->While_0)); }
                    push_while(w, s);
                    assert(s@ =~= s0 + stmt_text(*st));
                },
            }
        },
    }
}

/// Appends `if <guard> {...}` and its else clause.
pub fn push_if(i: &IfCmd, s: &mut String)
    ensures
        final(s)@ == old(s)@ + if_text(*i),
    decreases i, 0nat,
{
    let ghost s0 = s@;
    push_str(s, "if ");
    push_guard(&i.guard, s);
    push_str(s, " ");
    push_block(&i.then_, s);
    match &i.else_ {
        Some(ElseClause::ElseIf(e)) => {
            push_str(s, " else ");
            proof {
                assert(decreases_to!(*i => i.else_));
                assert(decreases_to!(i.else_ => i.else_->0));
            }
            push_if(e, s);
        },
        Some(ElseClause::Else(l)) => {
            push_str(s, " else ");
            proof {
                assert(decreases_to!(*i => i.else_));
                assert(decreases_to!(i.else_ => i.else_->0));
            }
            push_block(l, s);
        },
        None => {},
    }
    assert(s@ =~= s0 + if_text(*i));
}

/// Appends a `while` loop.
fn push_while(w: &WhileCmd, s: &mut String)
    ensures
        final(s)@ == old(s)@ + stmt_text(Stmt::StructuredCmd(StructuredCmd::While(*w))),
    decreases w, 0nat,
{
    let ghost s0 = s@;
    push_str(s, "while ");
    push_guard(&w.guard, s);
    if w.invariants.len() == 0 {
        push_str(s, " ");
    } else {
        let mut inner = String::new();
        let ghost i0 = inner@;
        let n = w.invariants.len();
        let mut k: usize = 0;
        while k < n
            invariant
                n == w.invariants@.len(),
                k <= n,
                inner@ == invariant_lines_text(w.invariants@.subrange(0, k as int)),
            decreases n - k,
        {
            let inv = &w.invariants[k];
            push_str(&mut inner, "\n");
            if inv.is_free {
                push_str(&mut inner, "free ");
            }
            push_str(&mut inner, "invariant ");
            push_attrs(&inv.attrs, &mut inner);
            push_expr(&inv.expr, &mut inner);
            push_str(&mut inner, ";");
            proof {
                let p = w.invariants@.subrange(0, k + 1);
                assert(p.drop_last() =~= w.invariants@.subrange(0, k as int));
                assert(p.last() == w.invariants@[k as int]);
            }
            k += 1;
        }
        assert(w.invariants@.subrange(0, n as int) =~= w.invariants@);
        push_str(&mut inner, "\n");
        let body = indent_lines("  ", inner.as_str());
        push_str(s, body.as_str());
    }
    proof {
        assert(decreases_to!(*w => w.body));
    }
    push_block(&w.body, s);
    assert(s@ =~= s0 + stmt_text(Stmt::StructuredCmd(StructuredCmd::While(*w))));
}

impl Stmt {
    /// The text of the statement.
    pub fn to_string(&self) -> (r: String)
        ensures
            r@ == stmt_text(*self),
    {
        let mut s = String::new();
        push_stmt(self, &mut s);
        s
    }
}

/// A Boogie program: its declarations in order.
pub struct BoogieProgram {
    pub decls: Vec<Spanned<Decl>>,
}

/// A top-level declaration.
pub enum Decl {
    Axiom(AxiomDecl),
    Const(ConstDecl),
    Func(FuncDecl),
    Impl(ImplDecl),
    Proc(ProcDecl),
    Type(TypeDecls),
    Var(VarDecl),
}

/// `axiom [<attrs> ]<proposition>;`.
pub struct AxiomDecl {
    pub attrs: Vec<AttrOrTrigger>,
    pub proposition: Expr,
}

/// `const [<attrs> ][unique ]<consts>[ <order spec>];`.
pub struct ConstDecl {
    pub attrs: Vec<AttrOrTrigger>,
    pub is_unique: bool,
    pub consts: TypedIdents,
    pub order_spec: Option<OrderSpec>,
}

/// `extends[ <parents>][ complete]`.
pub struct OrderSpec {
    pub parents: Vec<OrderSpecParent>,
    pub is_complete: bool,
}

/// `[unique ]<parent>`.
pub struct OrderSpecParent {
    pub parent: Ident,
    pub is_unique: bool,
}

/// A function declaration, with its body if it has one.
pub struct FuncDecl {
    pub attrs: Vec<AttrOrTrigger>,
    pub ident: Ident,
    pub type_params: TypeParams,
    pub var_params: Vec<VarOrType>,
    pub returns: VarOrType,
    pub body: Option<Expr>,
}

/// A parameter or result of a function: `[<attrs> ][<var>: ]<type>`.
pub struct VarOrType {
    pub attrs: Vec<AttrOrTrigger>,
    pub var: Option<Ident>,
    pub type_: Type,
}

/// `implementation <signature> <body>`.
pub struct ImplDecl {
    pub proc_sign: ProcSign,
    pub impl_body: ImplBody,
}

/// A procedure declaration: its signature, its specifications, and its
/// body if it has one.
pub struct ProcDecl {
    pub proc_sign: ProcSign,
    pub specs: Vec<Spec>,
    pub impl_body: Option<ImplBody>,
}

/// `[<attrs> ]<name><type params>(<params>)[ returns (<results>)]`.
pub struct ProcSign {
    pub attrs: Vec<Spanned<AttrOrTrigger>>,
    pub ident: Spanned<Ident>,
    pub type_params: TypeParams,
    pub var_params: AttrTypedIdentsWheres,
    pub returns: AttrTypedIdentsWheres,
}

/// The local variables and statements of a procedure body.
pub struct ImplBody {
    pub local_vars: Vec<LocalVars>,
    pub stmt_list: StmtList,
}

/// A specification of a procedure.
pub enum Spec {
    Modifies(ModifiesSpec),
    Contract(ContractSpec),
}

/// `modifies[ <vars>];`.
pub struct ModifiesSpec {
    pub vars: Idents,
}

/// `[free ]requires ...;` or `[free ]ensures ...;`.
pub struct ContractSpec {
    pub kind: ContractKind,
    pub attrs: Vec<AttrOrTrigger>,
    pub proposition: Expr,
    pub is_free: bool,
}

/// `type [<attrs> ]<decls>;`.
pub struct TypeDecls {
    pub attrs: Vec<AttrOrTrigger>,
    pub decls: Vec<Spanned<TypeDecl>>,
}

/// `<name>[ <param>...][ = <type>]`.
pub struct TypeDecl {
    pub ident: Ident,
    pub type_params: Vec<Ident>,
    pub type_: Option<Type>,
}

/// `var [<attrs> ]<vars>;`.
pub struct VarDecl {
    pub attrs: Vec<AttrOrTrigger>,
    pub vars: TypedIdentsWheres,
}

/// `<idents>: <type>`.
pub open spec fn typed_idents_text(t: TypedIdents) -> Seq<char> {
    t.idents.text() + ": "@ + type_text(t.type_)
}

/// `[unique ]<parent>`.
pub open spec fn order_parent_text(p: OrderSpecParent) -> Seq<char> {
    (if p.is_unique { "unique "@ } else { Seq::empty() }) + p.parent@
}

/// `extends[ <parents>][ complete]`.
pub open spec fn order_spec_text(o: OrderSpec) -> Seq<char> {
    "extends"@ + (if o.parents@.len() == 0 {
        Seq::empty()
    } else {
        " "@ + join(o.parents@.map_values(|p: OrderSpecParent| order_parent_text(p)), ", "@)
    }) + (if o.is_complete { " complete"@ } else { Seq::empty() })
}

/// `[<attrs> ][<var>: ]<type>`.
pub open spec fn var_or_type_text(v: VarOrType) -> Seq<char> {
    attrs_text(v.attrs@) + match v.var {
        Some(x) => x@ + ": "@,
        None => Seq::empty(),
    } + type_text(v.type_)
}

/// The attributes of a spanned list.
pub open spec fn spanned_attrs(attrs: Seq<Spanned<AttrOrTrigger>>) -> Seq<AttrOrTrigger> {
    attrs.map_values(|a: Spanned<AttrOrTrigger>| a.value)
}

/// `[<attrs> ]<name><type params>(<params>)[ returns (<results>)]`.
pub open spec fn proc_sign_text(p: ProcSign) -> Seq<char> {
    attrs_text(spanned_attrs(p.attrs@)) + p.ident.value@ + p.type_params.text() + "("@
        + attr_typed_wheres_text(p.var_params.items@) + ")"@ + if p.returns.items@.len() == 0 {
        Seq::empty()
    } else {
        " returns ("@ + attr_typed_wheres_text(p.returns.items@) + ")"@
    }
}

/// `{`, a newline, the indented local variables, an empty line, the
/// indented statements, a newline where there are statements, and `}`.
pub open spec fn impl_body_text(b: ImplBody) -> Seq<char> {
    let between = if b.local_vars@.len() > 0 && b.stmt_list.stmts@.len() > 0 {
        "\n\n"@
    } else {
        Seq::empty()
    };
    "{\n"@ + indented(
        local_vars_list_text(b.local_vars@) + between + stmts_text(b.stmt_list.stmts@),
        indent_unit(),
        true,
    ) + (if b.stmt_list.stmts@.len() == 0 { Seq::empty() } else { "\n"@ }) + "}"@
}

/// The text of a specification.
pub open spec fn spec_text(sp: Spec) -> Seq<char> {
    match sp {
        Spec::Modifies(m) => "modifies"@ + (if m.vars.idents@.len() == 0 {
            Seq::empty()
        } else {
            " "@ + m.vars.text()
        }) + ";"@,
        Spec::Contract(c) => (if c.is_free { "free "@ } else { Seq::empty() }) + c.kind.text() + " "@
            + attrs_text(c.attrs@) + expr_text(c.proposition) + ";"@,
    }
}

/// Each specification preceded by a newline.
pub open spec fn spec_lines_text(specs: Seq<Spec>) -> Seq<char>
    decreases specs.len(),
{
    if specs.len() == 0 {
        Seq::empty()
    } else {
        spec_lines_text(specs.drop_last()) + "\n"@ + spec_text(specs.last())
    }
}

/// `<name>[ <param>...][ = <type>]`.
pub open spec fn type_decl_text(t: TypeDecl) -> Seq<char> {
    t.ident@ + join_leading(t.type_params@.map_values(|p: Ident| p@), " "@) + match t.type_ {
        Some(ty) => " = "@ + type_text(ty),
        None => Seq::empty(),
    }
}

/// `function [<attrs> ]<name><type params>(<params>)`, then `: <type>` for a
/// plain result type or ` returns (<result>)`, then `;` or the body
/// indented between braces.
pub open spec fn func_decl_text(f: FuncDecl) -> Seq<char> {
    "function "@ + attrs_text(f.attrs@) + f.ident@ + f.type_params.text() + "("@
            + var_or_types_text(f.var_params@) + ")"@ + (if f.returns.attrs@.len() == 0
            && f.returns.var is None {
            ": "@ + type_text(f.returns.type_)
        } else {
            " returns ("@ + var_or_type_text(f.returns) + ")"@
        }) + match f.body {
            Some(b) => " {\n"@ + indented(expr_text(b), indent_unit(), true) + "\n}"@,
            None => ";"@,
        }
}

/// `procedure <signature>`, `;` where there is no body, the
/// specifications each on an indented line, and the body.
pub open spec fn proc_decl_text(p: ProcDecl) -> Seq<char> {
    "procedure "@ + proc_sign_text(p.proc_sign) + (if p.impl_body is None {
            ";"@
        } else {
            Seq::empty()
        }) + indented(spec_lines_text(p.specs@), indent_unit(), true) + match p.impl_body {
            Some(b) => (if p.specs@.len() == 0 { " "@ } else { "\n"@ }) + impl_body_text(b),
            None => Seq::empty(),
        }
}

/// `type [<attrs> ]`, then the one declaration and `;`, or the
/// declarations joined by `,` and a newline and indented after the first,
/// then `;`.
pub open spec fn type_decls_text(t: TypeDecls) -> Seq<char> {
    "type "@ + attrs_text(t.attrs@) + if t.decls@.len() == 1 {
            type_decl_text(t.decls@[0].value) + ";"@
        } else {
            indented(
                join(t.decls@.map_values(|d: Spanned<TypeDecl>| type_decl_text(d.value)), ",\n"@)
                    + ";"@,
                indent_unit(),
                false,
            )
        }
}

/// The text of a declaration.
pub open spec fn decl_text(d: Decl) -> Seq<char> {
    match d {
        Decl::Axiom(a) => "axiom "@ + attrs_text(a.attrs@) + expr_text(a.proposition) + ";"@,
        Decl::Const(c) => "const "@ + attrs_text(c.attrs@) + (if c.is_unique {
            "unique "@
        } else {
            Seq::empty()
        }) + typed_idents_text(c.consts) + match c.order_spec {
            Some(o) => " "@ + order_spec_text(o),
            None => Seq::empty(),
        } + ";"@,
        Decl::Func(f) => func_decl_text(f),
        Decl::Impl(i) => "implementation "@ + proc_sign_text(i.proc_sign) + " "@ + impl_body_text(
            i.impl_body,
        ),
        Decl::Proc(p) => proc_decl_text(p),
        Decl::Type(t) => type_decls_text(t),
        Decl::Var(v) => "var "@ + attrs_text(v.attrs@) + typed_wheres_text(v.vars.items@) + ";"@,
    }
}

/// The declarations of a program, separated by empty lines.
pub open spec fn program_text(p: BoogieProgram) -> Seq<char> {
    join(p.decls@.map_values(|d: Spanned<Decl>| decl_text(d.value)), "\n\n"@)
}

fn push_typed_idents(t: &TypedIdents, s: &mut String)
    ensures
        final(s)@ == old(s)@ + typed_idents_text(*t),
{
    let ghost s0 = s@;
    t.idents.push_text(s);
    push_str(s, ": ");
    push_type(&t.type_, s);
    assert(s@ =~= s0 + typed_idents_text(*t));
}

fn push_order_spec(o: &OrderSpec, s: &mut String)
    ensures
        final(s)@ == old(s)@ + order_spec_text(*o),
{
    let ghost s0 = s@;
    push_str(s, "extends");
    let ghost texts = o.parents@.map_values(|p: OrderSpecParent| order_parent_text(p));
    let n = o.parents.len();
    if n > 0 {
        push_str(s, " ");
        let ghost s1 = s@;
        let mut i: usize = 0;
        while i < n
            invariant
                n == o.parents@.len(),
                texts == o.parents@.map_values(|p: OrderSpecParent| order_parent_text(p)),
                i <= n,
                s@ == s1 + join(texts.take(i as int), ", "@),
            decreases n - i,
        {
            if i > 0 {
                push_str(s, ", ");
            }
            let ghost before = s@;
            if o.parents[i].is_unique {
                push_str(s, "unique ");
            }
            push_str(s, o.parents[i].parent.as_str());
            proof {
                assert(s@ =~= before + texts[i as int]);
                lemma_join_push(texts.take(i as int), ", "@, texts[i as int]);
                assert(texts.take(i as int).push(texts[i as int]) =~= texts.take(i + 1));
            }
            i += 1;
        }
        assert(texts.take(n as int) =~= texts);
    }
    if o.is_complete {
        push_str(s, " complete");
    }
    assert(s@ =~= s0 + order_spec_text(*o));
}

fn push_var_or_type(v: &VarOrType, s: &mut String)
    ensures
        final(s)@ == old(s)@ + var_or_type_text(*v),
{
    let ghost s0 = s@;
    push_attrs(&v.attrs, s);
    if let Some(x) = &v.var {
        push_str(s, x.as_str());
        push_str(s, ": ");
    }
    push_type(&v.type_, s);
    assert(s@ =~= s0 + var_or_type_text(*v));
}

/// Appends the signature of a procedure.
pub fn push_proc_sign(p: &ProcSign, s: &mut String)
    ensures
        final(s)@ == old(s)@ + proc_sign_text(*p),
{
    let ghost s0 = s@;
    let ghost attrs = spanned_attrs(p.attrs@);
    let n = p.attrs.len();
    let mut i: usize = 0;
    while i < n
        invariant
            n == p.attrs@.len(),
            attrs == spanned_attrs(p.attrs@),
            i <= n,
            s@ == s0 + attrs_text(attrs.take(i as int)),
        decreases n - i,
    {
        push_attr(&p.attrs[i].value, s);
        proof {
            lemma_attrs_push(attrs.take(i as int), attrs[i as int]);
            assert(attrs.take(i as int).push(attrs[i as int]) =~= attrs.take(i + 1));
        }
        i += 1;
    }
    assert(attrs.take(n as int) =~= attrs);
    push_str(s, p.ident.value.as_str());
    p.type_params.push_text(s);
    push_str(s, "(");
    push_attr_typed_wheres(&p.var_params.items, s);
    push_str(s, ")");
    if p.returns.items.len() > 0 {
        push_str(s, " returns (");
        push_attr_typed_wheres(&p.returns.items, s);
        push_str(s, ")");
    }
    assert(s@ =~= s0 + proc_sign_text(*p));
}

/// Appends the body of a procedure.
pub fn push_impl_body(b: &ImplBody, s: &mut String)
    ensures
        final(s)@ == old(s)@ + impl_body_text(*b),
{
    let ghost s0 = s@;
    let mut inner = String::new();
    push_local_vars_list(&b.local_vars, &mut inner);
    if b.local_vars.len() > 0 && b.stmt_list.stmts.len() > 0 {
        push_str(&mut inner, "\n\n");
    }
    push_stmts(&b.stmt_list.stmts, &mut inner);
    push_str(s, "{\n");
    let body = indent_lines("  ", inner.as_str());
    push_str(s, body.as_str());
    if b.stmt_list.stmts.len() > 0 {
        push_str(s, "\n");
    }
    push_str(s, "}");
    assert(s@ =~= s0 + impl_body_text(*b));
}

fn push_spec(sp: &Spec, s: &mut String)
    ensures
        final(s)@ == old(s)@ + spec_text(*sp),
{
    let ghost s0 = s@;
    match sp {
        Spec::Modifies(m) => {
            push_str(s, "modifies");
            if m.vars.idents.len() > 0 {
                push_str(s, " ");
                m.vars.push_text(s);
            }
            push_str(s, ";");
        },
        Spec::Contract(c) => {
            if c.is_free {
                push_str(s, "free ");
            }
            push_str(s, c.kind.as_str());
            push_str(s, " ");
            push_attrs(&c.attrs, s);
            push_expr(&c.proposition, s);
            push_str(s, ";");
        },
    }
    assert(s@ =~= s0 + spec_text(*sp));
}

fn push_type_decl(t: &TypeDecl, s: &mut String)
    ensures
        final(s)@ == old(s)@ + type_decl_text(*t),
{
    let ghost s0 = s@;
    push_str(s, t.ident.as_str());
    let ghost s1 = s@;
    let ghost texts = t.type_params@.map_values(|p: Ident| p@);
    let n = t.type_params.len();
    let mut i: usize = 0;
    while i < n
        invariant
            n == t.type_params@.len(),
            texts == t.type_params@.map_values(|p: Ident| p@),
            i <= n,
            s@ == s1 + join_leading(texts.take(i as int), " "@),
        decreases n - i,
    {
        push_str(s, " ");
        push_str(s, t.type_params[i].as_str());
        proof {
            lemma_join_push(texts.take(i as int), " "@, texts[i as int]);
            assert(texts.take(i as int).push(texts[i as int]) =~= texts.take(i + 1));
        }
        i += 1;
    }
    assert(texts.take(n as int) =~= texts);
    if let Some(ty) = &t.type_ {
        push_str(s, " = ");
        push_type(ty, s);
    }
    assert(s@ =~= s0 + type_decl_text(*t));
}

/// The parameters of a function, joined by `, `.
pub open spec fn var_or_types_text(vs: Seq<VarOrType>) -> Seq<char> {
    join(vs.map_values(|v: VarOrType| var_or_type_text(v)), ", "@)
}

fn push_var_or_types(vs: &Vec<VarOrType>, s: &mut String)
    ensures
        final(s)@ == old(s)@ + var_or_types_text(vs@),
{
    let ghost s1 = s@;
    let ghost texts = vs@.map_values(|v: VarOrType| var_or_type_text(v));
    let n = vs.len();
    let mut i: usize = 0;
    while i < n
        invariant
            n == vs@.len(),
            texts == vs@.map_values(|v: VarOrType| var_or_type_text(v)),
            i <= n,
            s@ == s1 + join(texts.take(i as int), ", "@),
        decreases n - i,
    {
        if i > 0 {
            push_str(s, ", ");
        }
        push_var_or_type(&vs[i], s);
        proof {
            lemma_join_push(texts.take(i as int), ", "@, texts[i as int]);
            assert(texts.take(i as int).push(texts[i as int]) =~= texts.take(i + 1));
        }
        i += 1;
    }
    assert(texts.take(n as int) =~= texts);
}

#[verifier::rlimit(30)]
fn push_func_decl(f: &FuncDecl, s: &mut String)
    ensures
        final(s)@ == old(s)@ + func_decl_text(*f),
{
    let ghost s0 = s@;
    push_str(s, "function ");
    push_attrs(&f.attrs, s);
    push_str(s, f.ident.as_str());
    f.type_params.push_text(s);
    push_str(s, "(");
    push_var_or_types(&f.var_params, s);
    push_str(s, ")");
    let ghost s2 = s@;
    let ghost head = "function "@ + attrs_text(f.attrs@) + f.ident@ + f.type_params.text() + "("@
        + var_or_types_text(f.var_params@) + ")"@;
    assert(s2 =~= s0 + head);
    if f.returns.attrs.len() == 0 && f.returns.var.is_none() {
        push_str(s, ": ");
        push_type(&f.returns.type_, s);
    } else {
        push_str(s, " returns (");
        push_var_or_type(&f.returns, s);
        push_str(s, ")");
    }
    let ghost s3 = s@;
    let ghost ret = if f.returns.attrs@.len() == 0 && f.returns.var is None {
        ": "@ + type_text(f.returns.type_)
    } else {
        " returns ("@ + var_or_type_text(f.returns) + ")"@
    };
    assert(s3 =~= s2 + ret);
    match &f.body {
        Some(b) => {
            let mut inner = String::new();
            push_expr(b, &mut inner);
            push_str(s, " {\n");
            let body = indent_lines("  ", inner.as_str());
            push_str(s, body.as_str());
            push_str(s, "\n}");
            assert(s@ =~= s3 + " {\n"@ + indented(expr_text(*b), indent_unit(), true) + "\n}"@);
        },
        None => push_str(s, ";"),
    }
    assert(s@ =~= s0 + func_decl_text(*f));
}

fn push_proc_decl(p: &ProcDecl, s: &mut String)
    ensures
        final(s)@ == old(s)@ + proc_decl_text(*p),
{
    let ghost s0 = s@;
    push_str(s, "procedure ");
    push_proc_sign(&p.proc_sign, s);
    if p.impl_body.is_none() {
        push_str(s, ";");
    }
    let mut inner = String::new();
    let n = p.specs.len();
    let mut i: usize = 0;
    while i < n
        invariant
            n == p.specs@.len(),
            i <= n,
            inner@ == spec_lines_text(p.specs@.subrange(0, i as int)),
        decreases n - i,
    {
        push_str(&mut inner, "\n");
        push_spec(&p.specs[i], &mut inner);
        proof {
            let k = p.specs@.subrange(0, i + 1);
            assert(k.drop_last() =~= p.specs@.subrange(0, i as int));
        }
        i += 1;
    }
    assert(p.specs@.subrange(0, n as int) =~= p.specs@);
    let specs = indent_lines("  ", inner.as_str());
    push_str(s, specs.as_str());
    if let Some(b) = &p.impl_body {
        if n == 0 {
            push_str(s, " ");
        } else {
            push_str(s, "\n");
        }
        push_impl_body(b, s);
    }
    assert(s@ =~= s0 + proc_decl_text(*p));
}

fn push_type_decls(t: &TypeDecls, s: &mut String)
    ensures
        final(s)@ == old(s)@ + type_decls_text(*t),
{
    let ghost s0 = s@;
    push_str(s, "type ");
    push_attrs(&t.attrs, s);
    let n = t.decls.len();
    if n == 1 {
        push_type_decl(&t.decls[0].value, s);
        push_str(s, ";");
    } else {
        let ghost texts = t.decls@.map_values(|d: Spanned<TypeDecl>| type_decl_text(d.value));
        let mut inner = String::new();
        let mut i: usize = 0;
        while i < n
            invariant
                n == t.decls@.len(),
                texts == t.decls@.map_values(|d: Spanned<TypeDecl>| type_decl_text(d.value)),
                i <= n,
                inner@ == join(texts.take(i as int), ",\n"@),
            decreases n - i,
        {
            if i > 0 {
                push_str(&mut inner, ",\n");
            }
            push_type_decl(&t.decls[i].value, &mut inner);
            proof {
                lemma_join_push(texts.take(i as int), ",\n"@, texts[i as int]);
                assert(texts.take(i as int).push(texts[i as int]) =~= texts.take(i + 1));
            }
            i += 1;
        }
        assert(texts.take(n as int) =~= texts);
        push_str(&mut inner, ";");
        let body = indent_lines_after_first("  ", inner.as_str());
        push_str(s, body.as_str());
    }
    assert(s@ =~= s0 + type_decls_text(*t));
}

/// Appends the text of a declaration.
pub fn push_decl(d: &Decl, s: &mut String)
    ensures
        final(s)@ == old(s)@ + decl_text(*d),
{
    let ghost s0 = s@;
    match d {
        Decl::Axiom(a) => {
            push_str(s, "axiom ");
            push_attrs(&a.attrs, s);
            push_expr(&a.proposition, s);
            push_str(s, ";");
            assert(s@ =~= s0 + decl_text(*d));
        },
        Decl::Const(c) => {
            push_str(s, "const ");
            push_attrs(&c.attrs, s);
            if c.is_unique {
                push_str(s, "unique ");
            }
            push_typed_idents(&c.consts, s);
            if let Some(o) = &c.order_spec {
                push_str(s, " ");
                push_order_spec(o, s);
            }
            push_str(s, ";");
            assert(s@ =~= s0 + decl_text(*d));
        },
        Decl::Func(f) => push_func_decl(f, s),
        Decl::Impl(i) => {
            push_str(s, "implementation ");
            push_proc_sign(&i.proc_sign, s);
            push_str(s, " ");
            push_impl_body(&i.impl_body, s);
            assert(s@ =~= s0 + decl_text(*d));
        },
        Decl::Proc(p) => push_proc_decl(p, s),
        Decl::Type(t) => push_type_decls(t, s),
        Decl::Var(v) => {
            push_str(s, "var ");
            push_attrs(&v.attrs, s);
            push_typed_wheres(&v.vars.items, s);
            push_str(s, ";");
            assert(s@ =~= s0 + decl_text(*d));
        },
    }
}

impl Decl {
    /// The text of the declaration.
    pub fn to_string(&self) -> (r: String)
        ensures
            r@ == decl_text(*self),
    {
        let mut s = String::new();
        push_decl(self, &mut s);
        s
    }
}

impl BoogieProgram {
    /// The text of the program: its declarations separated by empty lines.
    pub fn to_string(&self) -> (r: String)
        ensures
            r@ == program_text(*self),
    {
        let mut s = String::new();
        let ghost texts = self.decls@.map_values(|d: Spanned<Decl>| decl_text(d.value));
        let n = self.decls.len();
        let mut i: usize = 0;
        while i < n
            invariant
                n == self.decls@.len(),
                texts == self.decls@.map_values(|d: Spanned<Decl>| decl_text(d.value)),
                i <= n,
                s@ == join(texts.take(i as int), "\n\n"@),
            decreases n - i,
        {
            if i > 0 {
                push_str(&mut s, "\n\n");
            }
            push_decl(&self.decls[i].value, &mut s);
            proof {
                lemma_join_push(texts.take(i as int), "\n\n"@, texts[i as int]);
                assert(texts.take(i as int).push(texts[i as int]) =~= texts.take(i + 1));
            }
            i += 1;
        }
        assert(texts.take(n as int) =~= texts);
        s
    }
}

} // verus!
