//! Tree shaking of Boogie programs: which global identifiers each part of a
//! program refers to, in the order a walk over it meets them, and the
//! building of the program's reachability graph from them.

use vstd::prelude::*;

use crate::boogie_expr::{
    ArraySubscript, AssignLhs, AttrOrTrigger, AttrParam, AttrTypedIdentsWhere, CallParams,
    CodeExpr, Coercion, Expr, Exprs, LabelOrCmd, LocalVars, MapType, QuantBody, SpecBlock, SpecTransfer, Spanned, Type,
    TypeArgs, TypeAtom, TypedIdentsWhere,
};
use crate::boogie_decl::{ElseClause, Guard, IfCmd, Invariant, Stmt, StructuredCmd};
use crate::bpl_tools::Namespace;
use crate::ident::Ident;
use crate::reachability::{
    IdentKey, NamespacedIdent, ReachabilityGraph, apply_refs, clone_locals, declare_local_ident,
    lemma_apply_refs_concat, lemma_apply_refs_grows, local_keys, ref_of,
};

verus! {

/// The keys of identifiers declared in `namespace`.
pub open spec fn idents_keys(ids: Seq<Spanned<Ident>>, namespace: Namespace) -> Set<IdentKey> {
    ids.map_values(|i: Spanned<Ident>| (i.value@, namespace)).to_set()
}

/// References to each of the identifiers, in `namespace`, that are not
/// local.
pub open spec fn idents_refs(ids: Seq<Spanned<Ident>>, namespace: Namespace, locals: Set<IdentKey>) -> Seq<IdentKey>
    decreases ids.len(),
{
    if ids.len() == 0 {
        Seq::empty()
    } else {
        idents_refs(ids.drop_last(), namespace, locals) + ref_of((ids.last().value@, namespace), locals)
    }
}

/// The type names that a type refers to; a map type declares its type
/// parameters for its keys and value.
pub open spec fn type_refs(t: Type, locals: Set<IdentKey>) -> Seq<IdentKey>
    decreases t,
{
    match t {
        Type::Atom(a) => type_atom_refs(a, locals),
        Type::App(a) => ref_of((a.head@, Namespace::Type), locals) + match a.tail {
            Some(tail) => type_args_refs(*tail, locals),
            None => Seq::empty(),
        },
        Type::MapType(m) => map_type_refs(m, locals),
    }
}

/// The type names that type arguments refer to.
pub open spec fn type_args_refs(a: TypeArgs, locals: Set<IdentKey>) -> Seq<IdentKey>
    decreases a,
{
    match a {
        TypeArgs::AtomApp(x) => type_atom_refs(x.head, locals) + match x.tail {
            Some(tail) => type_args_refs(*tail, locals),
            None => Seq::empty(),
        },
        TypeArgs::App(x) => ref_of((x.head@, Namespace::Type), locals) + match x.tail {
            Some(tail) => type_args_refs(*tail, locals),
            None => Seq::empty(),
        },
        TypeArgs::MapType(m) => map_type_refs(m, locals),
    }
}

/// The type names that a basic type refers to.
pub open spec fn type_atom_refs(a: TypeAtom, locals: Set<IdentKey>) -> Seq<IdentKey>
    decreases a,
{
    match a {
        TypeAtom::Paren(t) => type_refs(*t, locals),
        _ => Seq::empty(),
    }
}

/// The type names that a map type refers to.
pub open spec fn map_type_refs(m: MapType, locals: Set<IdentKey>) -> Seq<IdentKey>
    decreases m,
{
    let inner = locals + idents_keys(m.type_params.params.idents@, Namespace::Type);
    types_refs(m.keys@, inner) + type_refs(*m.value, inner)
}

/// The type names that types refer to, one after the other.
pub open spec fn types_refs(ts: Seq<Type>, locals: Set<IdentKey>) -> Seq<IdentKey>
    decreases ts,
{
    if ts.len() == 0 {
        Seq::empty()
    } else {
        types_refs(ts.subrange(0, ts.len() - 1), locals) + type_refs(ts[ts.len() - 1], locals)
    }
}

/// The global identifiers an expression refers to: variables, functions
/// and type names. A quantifier declares its type parameters and bound
/// variables for what follows them, and a code expression its local
/// variables.
pub open spec fn expr_refs(e: Expr, locals: Set<IdentKey>) -> Seq<IdentKey>
    decreases e,
{
    match e {
        Expr::Equiv(x) => expr_refs(x.lhs, locals) + expr_refs(x.rhs, locals),
        Expr::Implies(x) => expr_refs(x.lhs, locals) + expr_refs(x.rhs, locals),
        Expr::Explies(x) => expr_refs(x.lhs, locals) + expr_refs(x.rhs, locals),
        Expr::Logical(x) => expr_refs(x.lhs, locals) + expr_refs(x.rhs, locals),
        Expr::Rel(x) => expr_refs(x.lhs, locals) + expr_refs(x.rhs, locals),
        Expr::BvTerm(x) => expr_refs(x.lhs, locals) + expr_refs(x.rhs, locals),
        Expr::Term(x) => expr_refs(x.lhs, locals) + expr_refs(x.rhs, locals),
        Expr::Factor(x) => expr_refs(x.lhs, locals) + expr_refs(x.rhs, locals),
        Expr::Power(x) => expr_refs(x.lhs, locals) + expr_refs(x.rhs, locals),
        Expr::Neg(x) => expr_refs(x.expr, locals),
        Expr::Coercion(x) => expr_refs(x.expr, locals) + coercions_refs(x.coercions@, locals),
        Expr::Array(x) => expr_refs(x.expr, locals) + subscripts_refs(x.subscripts@, locals),
        Expr::Var(i) => ref_of((i@, Namespace::Var), locals),
        Expr::FuncCall(f) => ref_of((f.target@, Namespace::Func), locals) + exprs_refs(f.args.exprs@, locals),
        Expr::Old(x) => expr_refs(x.expr, locals),
        Expr::ArithCoercion(x) => expr_refs(x.expr, locals),
        Expr::Quant(q) => quant_body_refs(q.body, locals),
        Expr::IfThenElse(x) => expr_refs(x.cond, locals) + expr_refs(x.then_, locals) + expr_refs(x.else_, locals),
        Expr::Code(c) => code_refs(*c, locals),
        _ => Seq::empty(),
    }
}

/// The references of a quantifier's body, in which its type parameters and
/// bound variables are local.
pub open spec fn quant_body_refs(b: QuantBody, locals: Set<IdentKey>) -> Seq<IdentKey>
    decreases b,
{
    let inner = locals + idents_keys(b.type_params.params.idents@, Namespace::Type);
    let bound = attr_typed_decls(b.bound_vars.items@, inner);
    bound.0 + attr_typed_wheres_refs(b.bound_vars.items@, bound.1) + attrs_refs(b.attrs@, bound.1)
        + expr_refs(b.expr, bound.1)
}

/// The references of a code expression, in which its local variables are
/// local.
pub open spec fn code_refs(c: CodeExpr, locals: Set<IdentKey>) -> Seq<IdentKey>
    decreases c,
{
    let vars = local_vars_decls(c.local_vars@, locals);
    vars.0 + local_vars_wheres_refs(c.local_vars@, vars.1) + spec_blocks_refs(c.spec_blocks@, vars.1)
}

/// The references of expressions, one after the other.
pub open spec fn exprs_refs(es: Seq<Expr>, locals: Set<IdentKey>) -> Seq<IdentKey>
    decreases es,
{
    if es.len() == 0 {
        Seq::empty()
    } else {
        exprs_refs(es.subrange(0, es.len() - 1), locals) + expr_refs(es[es.len() - 1], locals)
    }
}

/// The type names of the coercions to types.
pub open spec fn coercions_refs(cs: Seq<Coercion>, locals: Set<IdentKey>) -> Seq<IdentKey>
    decreases cs.len(),
{
    if cs.len() == 0 {
        Seq::empty()
    } else {
        coercions_refs(cs.subrange(0, cs.len() - 1), locals) + match cs[cs.len() - 1] {
            Coercion::Type(t) => type_refs(t, locals),
            Coercion::Nat(_) => Seq::empty(),
        }
    }
}

/// The references of map subscripts: keys, then the value.
pub open spec fn subscripts_refs(subs: Seq<ArraySubscript>, locals: Set<IdentKey>) -> Seq<IdentKey>
    decreases subs,
{
    if subs.len() == 0 {
        Seq::empty()
    } else {
        let x = subs[subs.len() - 1];
        subscripts_refs(subs.subrange(0, subs.len() - 1), locals) + exprs_refs(x.keys.exprs@, locals)
            + match x.value {
            Some(v) => expr_refs(v, locals),
            None => Seq::empty(),
        }
    }
}

/// The references of attributes and triggers: their expressions.
pub open spec fn attrs_refs(attrs: Seq<AttrOrTrigger>, locals: Set<IdentKey>) -> Seq<IdentKey>
    decreases attrs,
{
    if attrs.len() == 0 {
        Seq::empty()
    } else {
        attrs_refs(attrs.subrange(0, attrs.len() - 1), locals) + match attrs[attrs.len() - 1] {
            AttrOrTrigger::Attr(c) => attr_params_refs(c.params@, locals),
            AttrOrTrigger::Trigger(es) => exprs_refs(es.exprs@, locals),
        }
    }
}

/// The references of the expression parameters of an attribute.
pub open spec fn attr_params_refs(ps: Seq<AttrParam>, locals: Set<IdentKey>) -> Seq<IdentKey>
    decreases ps,
{
    if ps.len() == 0 {
        Seq::empty()
    } else {
        attr_params_refs(ps.subrange(0, ps.len() - 1), locals) + match ps[ps.len() - 1] {
            AttrParam::String(_) => Seq::empty(),
            AttrParam::Expr(x) => expr_refs(x, locals),
        }
    }
}

/// Declaring local variables with attributes, in order: each item declares
/// its variables, then its type and attributes refer to what they refer
/// to. The references, and the local identifiers afterwards.
pub open spec fn attr_typed_decls(items: Seq<Spanned<AttrTypedIdentsWhere>>, locals: Set<IdentKey>) -> (Seq<IdentKey>, Set<IdentKey>)
    decreases items,
{
    if items.len() == 0 {
        (Seq::empty(), locals)
    } else {
        let before = attr_typed_decls(items.subrange(0, items.len() - 1), locals);
        let x = items[items.len() - 1].value;
        let after = before.1 + idents_keys(x.typed_idents_where.typed_idents.idents.idents@, Namespace::Var);
        (before.0 + type_refs(x.typed_idents_where.typed_idents.type_, after) + attrs_refs(x.attrs@, after), after)
    }
}

/// The references of the `where` clauses of variables with attributes.
pub open spec fn attr_typed_wheres_refs(items: Seq<Spanned<AttrTypedIdentsWhere>>, locals: Set<IdentKey>) -> Seq<IdentKey>
    decreases items,
{
    if items.len() == 0 {
        Seq::empty()
    } else {
        attr_typed_wheres_refs(items.subrange(0, items.len() - 1), locals) + match items[items.len() - 1].value.typed_idents_where.where_ {
            Some(w) => expr_refs(w, locals),
            None => Seq::empty(),
        }
    }
}

/// Declaring variables without attributes, in order: each item declares
/// its variables, then its type refers to what it refers to.
pub open spec fn typed_decls(items: Seq<Spanned<TypedIdentsWhere>>, locals: Set<IdentKey>) -> (Seq<IdentKey>, Set<IdentKey>)
    decreases items,
{
    if items.len() == 0 {
        (Seq::empty(), locals)
    } else {
        let before = typed_decls(items.subrange(0, items.len() - 1), locals);
        let x = items[items.len() - 1].value;
        let after = before.1 + idents_keys(x.typed_idents.idents.idents@, Namespace::Var);
        (before.0 + type_refs(x.typed_idents.type_, after), after)
    }
}

/// The references of the `where` clauses of variables.
pub open spec fn typed_wheres_refs(items: Seq<Spanned<TypedIdentsWhere>>, locals: Set<IdentKey>) -> Seq<IdentKey>
    decreases items,
{
    if items.len() == 0 {
        Seq::empty()
    } else {
        typed_wheres_refs(items.subrange(0, items.len() - 1), locals) + match items[items.len() - 1].value.where_ {
            Some(w) => expr_refs(w, locals),
            None => Seq::empty(),
        }
    }
}

/// Declaring local variables, declaration after declaration: each declares
/// its variables, then its attributes refer to what they refer to.
pub open spec fn local_vars_decls(ls: Seq<LocalVars>, locals: Set<IdentKey>) -> (Seq<IdentKey>, Set<IdentKey>)
    decreases ls,
{
    if ls.len() == 0 {
        (Seq::empty(), locals)
    } else {
        let before = local_vars_decls(ls.subrange(0, ls.len() - 1), locals);
        let x = ls[ls.len() - 1];
        let vars = typed_decls(x.vars.items@, before.1);
        (before.0 + vars.0 + attrs_refs(x.attrs@, vars.1), vars.1)
    }
}

/// The references of the `where` clauses of local variables.
pub open spec fn local_vars_wheres_refs(ls: Seq<LocalVars>, locals: Set<IdentKey>) -> Seq<IdentKey>
    decreases ls,
{
    if ls.len() == 0 {
        Seq::empty()
    } else {
        local_vars_wheres_refs(ls.subrange(0, ls.len() - 1), locals) + typed_wheres_refs(ls[ls.len() - 1].vars.items@, locals)
    }
}

/// The references of the blocks of a code expression: their commands, and
/// the value of a `return`.
pub open spec fn spec_blocks_refs(bs: Seq<SpecBlock>, locals: Set<IdentKey>) -> Seq<IdentKey>
    decreases bs,
{
    if bs.len() == 0 {
        Seq::empty()
    } else {
        let b = bs[bs.len() - 1];
        spec_blocks_refs(bs.subrange(0, bs.len() - 1), locals) + cmds_refs(b.cmds@, locals) + match b.transfer {
            SpecTransfer::Goto(_) => Seq::empty(),
            SpecTransfer::Return(r) => expr_refs(r.value, locals),
        }
    }
}

/// The references of commands, one after the other.
pub open spec fn cmds_refs(cs: Seq<LabelOrCmd>, locals: Set<IdentKey>) -> Seq<IdentKey>
    decreases cs,
{
    if cs.len() == 0 {
        Seq::empty()
    } else {
        cmds_refs(cs.subrange(0, cs.len() - 1), locals) + cmd_refs(cs[cs.len() - 1], locals)
    }
}

/// The references of a command: assigned and havocked variables, called
/// procedures, and what its expressions refer to. Labels refer to
/// nothing.
pub open spec fn cmd_refs(c: LabelOrCmd, locals: Set<IdentKey>) -> Seq<IdentKey>
    decreases c,
{
    match c {
        LabelOrCmd::Assign(a) => assign_lhs_refs(a.lhs@, locals) + exprs_refs(a.rhs.exprs@, locals),
        LabelOrCmd::Call(x) => attrs_refs(x.attrs@, locals) + call_params_refs(x.call_params, locals),
        LabelOrCmd::Claim(x) => attrs_refs(x.attrs@, locals) + expr_refs(x.proposition, locals),
        LabelOrCmd::Havoc(x) => idents_refs(x.vars.idents@, Namespace::Var, locals),
        LabelOrCmd::ParCall(x) => attrs_refs(x.attrs@, locals) + calls_refs(x.calls@, locals),
        _ => Seq::empty(),
    }
}

/// The references of assigned variables and their subscripts.
pub open spec fn assign_lhs_refs(ls: Seq<AssignLhs>, locals: Set<IdentKey>) -> Seq<IdentKey>
    decreases ls,
{
    if ls.len() == 0 {
        Seq::empty()
    } else {
        let x = ls[ls.len() - 1];
        assign_lhs_refs(ls.subrange(0, ls.len() - 1), locals) + ref_of((x.ident@, Namespace::Var), locals)
            + subscript_lists_refs(x.subscripts@, locals)
    }
}

/// The references of lists of subscripts.
pub open spec fn subscript_lists_refs(ss: Seq<Exprs>, locals: Set<IdentKey>) -> Seq<IdentKey>
    decreases ss,
{
    if ss.len() == 0 {
        Seq::empty()
    } else {
        subscript_lists_refs(ss.subrange(0, ss.len() - 1), locals) + exprs_refs(ss[ss.len() - 1].exprs@, locals)
    }
}

/// The references of a call: the result variables, the procedure, and the
/// arguments.
pub open spec fn call_params_refs(c: CallParams, locals: Set<IdentKey>) -> Seq<IdentKey>
    decreases c,
{
    idents_refs(c.returns.idents@, Namespace::Var, locals) + ref_of((c.target@, Namespace::Proc), locals)
        + exprs_refs(c.params.exprs@, locals)
}

/// The references of calls, one after the other.
pub open spec fn calls_refs(cs: Seq<CallParams>, locals: Set<IdentKey>) -> Seq<IdentKey>
    decreases cs,
{
    if cs.len() == 0 {
        Seq::empty()
    } else {
        calls_refs(cs.subrange(0, cs.len() - 1), locals) + call_params_refs(cs[cs.len() - 1], locals)
    }
}

/// The references of a guard.
pub open spec fn guard_refs(g: Guard, locals: Set<IdentKey>) -> Seq<IdentKey> {
    match g {
        Guard::Asterisk => Seq::empty(),
        Guard::Expr(e) => expr_refs(e, locals),
    }
}

/// The references of loop invariants: attributes, then the expression.
pub open spec fn invariants_refs(invs: Seq<Invariant>, locals: Set<IdentKey>) -> Seq<IdentKey>
    decreases invs,
{
    if invs.len() == 0 {
        Seq::empty()
    } else {
        let x = invs[invs.len() - 1];
        invariants_refs(invs.subrange(0, invs.len() - 1), locals) + attrs_refs(x.attrs@, locals) + expr_refs(x.expr, locals)
    }
}

/// The references of a statement. Jumps refer to labels only.
pub open spec fn stmt_refs(s: Stmt, locals: Set<IdentKey>) -> Seq<IdentKey>
    decreases s,
{
    match s {
        Stmt::LabelOrCmd(c) => cmd_refs(c, locals),
        Stmt::TransferCmd(_) => Seq::empty(),
        Stmt::StructuredCmd(c) => match c {
            StructuredCmd::Break(_) => Seq::empty(),
            StructuredCmd::If(i) => if_refs(i, locals),
            StructuredCmd::While(w) => guard_refs(w.guard, locals) + invariants_refs(w.invariants@, locals)
                + stmts_refs(w.body.stmts@, locals),
        },
    }
}

/// The references of an `if`: the guard, the branch, then the rest.
pub open spec fn if_refs(i: IfCmd, locals: Set<IdentKey>) -> Seq<IdentKey>
    decreases i,
{
    guard_refs(i.guard, locals) + stmts_refs(i.then_.stmts@, locals) + match i.else_ {
        None => Seq::empty(),
        Some(ElseClause::ElseIf(b)) => if_refs(*b, locals),
        Some(ElseClause::Else(l)) => stmts_refs(l.stmts@, locals),
    }
}

/// The references of statements, one after the other.
pub open spec fn stmts_refs(ss: Seq<Stmt>, locals: Set<IdentKey>) -> Seq<IdentKey>
    decreases ss,
{
    if ss.len() == 0 {
        Seq::empty()
    } else {
        stmts_refs(ss.subrange(0, ss.len() - 1), locals) + stmt_refs(ss[ss.len() - 1], locals)
    }
}

/// Declares each of the identifiers, in `namespace`, as local.
pub(crate) fn declare_idents(locals: &mut Vec<NamespacedIdent>, ids: &Vec<Spanned<Ident>>, namespace: Namespace)
    ensures
        local_keys(final(locals)@) == local_keys(old(locals)@) + idents_keys(ids@, namespace),
{
    let ghost l0 = local_keys(locals@);
    let n = ids.len();
    let mut i: usize = 0;
    while i < n
        invariant
            n == ids@.len(),
            i <= n,
            local_keys(locals@) == l0 + idents_keys(ids@.take(i as int), namespace),
        decreases n - i,
    {
        declare_local_ident(locals, &ids[i].value, namespace);
        proof {
            let a = ids@.take(i as int);
            let b = ids@.take(i + 1);
            assert(b =~= a.push(ids@[i as int]));
            assert(idents_keys(b, namespace) =~= idents_keys(a, namespace).insert((ids@[i as int].value@, namespace))) by {
                let ma = a.map_values(|x: Spanned<Ident>| (x.value@, namespace));
                let mb = b.map_values(|x: Spanned<Ident>| (x.value@, namespace));
                assert(mb =~= ma.push((ids@[i as int].value@, namespace)));
                assert forall|k: IdentKey| mb.to_set().contains(k) implies ma.to_set().insert((ids@[i as int].value@, namespace)).contains(k) by {
                    let j = choose|j: int| 0 <= j < mb.len() && mb[j] == k;
                    if j < ma.len() {
                        assert(ma[j] == k);
                    }
                }
                assert forall|k: IdentKey| ma.to_set().insert((ids@[i as int].value@, namespace)).contains(k) implies mb.to_set().contains(k) by {
                    if k == (ids@[i as int].value@, namespace) {
                        assert(mb[mb.len() - 1] == k);
                    } else {
                        let j = choose|j: int| 0 <= j < ma.len() && ma[j] == k;
                        assert(mb[j] == k);
                    }
                }
            }
            assert(local_keys(locals@) =~= l0 + idents_keys(b, namespace));
        }
        i += 1;
    }
    assert(ids@.take(n as int) =~= ids@);
}

/// References to each of the identifiers, in `namespace`.
pub(crate) fn visit_idents_refs(g: &mut ReachabilityGraph, parent: usize, locals: &Vec<NamespacedIdent>, ids: &Vec<Spanned<Ident>>, namespace: Namespace)
    requires
        old(g).wf(),
        parent < old(g).nodes().len(),
    ensures
        final(g).wf(),
        final(g).view_of() == apply_refs(old(g).view_of(), parent, idents_refs(ids@, namespace, local_keys(locals@))),
{
    let ghost v0 = g.view_of();
    let ghost l = local_keys(locals@);
    let n = ids.len();
    let mut i: usize = 0;
    while i < n
        invariant
            n == ids@.len(),
            i <= n,
            l == local_keys(locals@),
            g.wf(),
            parent < g.nodes().len(),
            g.view_of() == apply_refs(v0, parent, idents_refs(ids@.take(i as int), namespace, l)),
        decreases n - i,
    {
        let ghost v1 = g.view_of();
        g.reference_ident(parent, locals, &ids[i].value, namespace);
        proof {
            let a = ids@.take(i as int);
            let b = ids@.take(i + 1);
            assert(b.drop_last() =~= a);
            lemma_apply_refs_concat(v0, parent, idents_refs(a, namespace, l), ref_of((ids@[i as int].value@, namespace), l));
            lemma_apply_refs_grows(v1, parent, ref_of((ids@[i as int].value@, namespace), l));
        }
        i += 1;
    }
    assert(ids@.take(n as int) =~= ids@);
}

/// The references of a type.
pub(crate) fn visit_type(g: &mut ReachabilityGraph, parent: usize, locals: &Vec<NamespacedIdent>, t: &Type)
    requires
        old(g).wf(),
        parent < old(g).nodes().len(),
    ensures
        final(g).wf(),
        final(g).view_of() == apply_refs(old(g).view_of(), parent, type_refs(*t, local_keys(locals@))),
    decreases t,
{
    let ghost v0 = g.view_of();
    let ghost l = local_keys(locals@);
    match t {
        Type::Atom(a) => {
            proof { assert(decreases_to!(*t => (*t)->Atom_0)); }
            visit_type_atom(g, parent, locals, a);
        },
        Type::App(a) => {
            g.reference_ident(parent, locals, &a.head, Namespace::Type);
            let ghost v1 = g.view_of();
            proof {
                lemma_apply_refs_grows(v0, parent, ref_of((a.head@, Namespace::Type), l));
            }
            match &a.tail {
                Some(tail) => {
                    proof { assert(decreases_to!(*t => (*t)->App_0)); }
                    visit_type_args(g, parent, locals, tail);
                    proof {
                        lemma_apply_refs_concat(v0, parent, ref_of((a.head@, Namespace::Type), l), type_args_refs(**tail, l));
                    }
                },
                None => {
                    assert(ref_of((a.head@, Namespace::Type), l) + Seq::<IdentKey>::empty() =~= ref_of((a.head@, Namespace::Type), l));
                },
            }
        },
        Type::MapType(m) => {
            proof { assert(decreases_to!(*t => (*t)->MapType_0)); }
            visit_map_type(g, parent, locals, m);
        },
    }
}

/// The references of type arguments.
pub(crate) fn visit_type_args(g: &mut ReachabilityGraph, parent: usize, locals: &Vec<NamespacedIdent>, a: &TypeArgs)
    requires
        old(g).wf(),
        parent < old(g).nodes().len(),
    ensures
        final(g).wf(),
        final(g).view_of() == apply_refs(old(g).view_of(), parent, type_args_refs(*a, local_keys(locals@))),
    decreases a,
{
    let ghost v0 = g.view_of();
    let ghost l = local_keys(locals@);
    match a {
        TypeArgs::AtomApp(x) => {
            proof { assert(decreases_to!(*a => (*a)->AtomApp_0)); }
            visit_type_atom(g, parent, locals, &x.head);
            let ghost v1 = g.view_of();
            proof {
                lemma_apply_refs_grows(v0, parent, type_atom_refs(x.head, l));
            }
            match &x.tail {
                Some(tail) => {
                    visit_type_args(g, parent, locals, tail);
                    proof {
                        lemma_apply_refs_concat(v0, parent, type_atom_refs(x.head, l), type_args_refs(**tail, l));
                    }
                },
                None => {
                    assert(type_atom_refs(x.head, l) + Seq::<IdentKey>::empty() =~= type_atom_refs(x.head, l));
                },
            }
        },
        TypeArgs::App(x) => {
            g.reference_ident(parent, locals, &x.head, Namespace::Type);
            proof {
                lemma_apply_refs_grows(v0, parent, ref_of((x.head@, Namespace::Type), l));
            }
            match &x.tail {
                Some(tail) => {
                    proof { assert(decreases_to!(*a => (*a)->App_0)); }
                    visit_type_args(g, parent, locals, tail);
                    proof {
                        lemma_apply_refs_concat(v0, parent, ref_of((x.head@, Namespace::Type), l), type_args_refs(**tail, l));
                    }
                },
                None => {
                    assert(ref_of((x.head@, Namespace::Type), l) + Seq::<IdentKey>::empty() =~= ref_of((x.head@, Namespace::Type), l));
                },
            }
        },
        TypeArgs::MapType(m) => {
            proof { assert(decreases_to!(*a => (*a)->MapType_0)); }
            visit_map_type(g, parent, locals, m);
        },
    }
}

/// The references of a basic type.
pub(crate) fn visit_type_atom(g: &mut ReachabilityGraph, parent: usize, locals: &Vec<NamespacedIdent>, a: &TypeAtom)
    requires
        old(g).wf(),
        parent < old(g).nodes().len(),
    ensures
        final(g).wf(),
        final(g).view_of() == apply_refs(old(g).view_of(), parent, type_atom_refs(*a, local_keys(locals@))),
    decreases a,
{
    match a {
        TypeAtom::Paren(t) => {
            proof { assert(decreases_to!(*a => (*a)->Paren_0)); }
            visit_type(g, parent, locals, t);
        },
        _ => {},
    }
}

/// The references of a map type, whose type parameters are local to it.
pub(crate) fn visit_map_type(g: &mut ReachabilityGraph, parent: usize, locals: &Vec<NamespacedIdent>, m: &MapType)
    requires
        old(g).wf(),
        parent < old(g).nodes().len(),
    ensures
        final(g).wf(),
        final(g).view_of() == apply_refs(old(g).view_of(), parent, map_type_refs(*m, local_keys(locals@))),
    decreases m,
{
    let ghost v0 = g.view_of();
    let mut inner = clone_locals(locals);
    declare_idents(&mut inner, &m.type_params.params.idents, Namespace::Type);
    let ghost li = local_keys(inner@);
    let n = m.keys.len();
    let mut i: usize = 0;
    while i < n
        invariant
            n == m.keys@.len(),
            i <= n,
            li == local_keys(inner@),
            g.wf(),
            parent < g.nodes().len(),
            g.view_of() == apply_refs(v0, parent, types_refs(m.keys@.subrange(0, i as int), li)),
        decreases n - i,
    {
        let ghost v1 = g.view_of();
        proof {
            assert(decreases_to!(m.keys => m.keys@));
            assert(decreases_to!(m.keys@ => m.keys@[i as int]));
        }
        visit_type(g, parent, &inner, &m.keys[i]);
        proof {
            let a = m.keys@.subrange(0, i as int);
            let b = m.keys@.subrange(0, i + 1);
            assert(b.subrange(0, b.len() - 1) =~= a);
            assert(b[b.len() - 1] == m.keys@[i as int]);
            lemma_apply_refs_concat(v0, parent, types_refs(a, li), type_refs(m.keys@[i as int], li));
            lemma_apply_refs_grows(v1, parent, type_refs(m.keys@[i as int], li));
        }
        i += 1;
    }
    assert(m.keys@.subrange(0, n as int) =~= m.keys@);
    visit_type(g, parent, &inner, &m.value);
    proof {
        lemma_apply_refs_concat(v0, parent, types_refs(m.keys@, li), type_refs(*m.value, li));
    }
}

pub(crate) fn visit_exprs(g: &mut ReachabilityGraph, parent: usize, locals: &Vec<NamespacedIdent>, xs: &Vec<Expr>)
    requires
        old(g).wf(),
        parent < old(g).nodes().len(),
    ensures
        final(g).wf(),
        final(g).view_of() == apply_refs(old(g).view_of(), parent, exprs_refs(xs@, local_keys(locals@))),
    decreases xs, 0nat,
{
    let ghost v0 = g.view_of();
    let ghost l = local_keys(locals@);
    let n = xs.len();
    let mut i: usize = 0;
    while i < n
        invariant
            n == xs@.len(),
            i <= n,
            l == local_keys(locals@),
            g.wf(),
            parent < g.nodes().len(),
            g.view_of() == apply_refs(v0, parent, exprs_refs(xs@.subrange(0, i as int), l)),
        decreases n - i,
    {
        let ghost v1 = g.view_of();
        proof {
            assert(decreases_to!(xs => xs@));
            assert(decreases_to!(xs@ => xs@[i as int]));
        }
        let x = &xs[i];
        visit_expr(g, parent, locals, x);
        proof {
            let a = xs@.subrange(0, i as int);
            let b = xs@.subrange(0, i + 1);
            assert(b.subrange(0, b.len() - 1) =~= a);
            assert(b[b.len() - 1] == xs@[i as int]);
            let item = expr_refs(xs@[i as int], l);
            assert(exprs_refs(b, l) == exprs_refs(a, l) + item);
            lemma_apply_refs_concat(v0, parent, exprs_refs(a, l), item);
            lemma_apply_refs_grows(v1, parent, item);
        }
        i += 1;
    }
    assert(xs@.subrange(0, n as int) =~= xs@);
}

pub(crate) fn visit_subscripts(g: &mut ReachabilityGraph, parent: usize, locals: &Vec<NamespacedIdent>, xs: &Vec<ArraySubscript>)
    requires
        old(g).wf(),
        parent < old(g).nodes().len(),
    ensures
        final(g).wf(),
        final(g).view_of() == apply_refs(old(g).view_of(), parent, subscripts_refs(xs@, local_keys(locals@))),
    decreases xs, 0nat,
{
    let ghost v0 = g.view_of();
    let ghost l = local_keys(locals@);
    let n = xs.len();
    let mut i: usize = 0;
    while i < n
        invariant
            n == xs@.len(),
            i <= n,
            l == local_keys(locals@),
            g.wf(),
            parent < g.nodes().len(),
            g.view_of() == apply_refs(v0, parent, subscripts_refs(xs@.subrange(0, i as int), l)),
        decreases n - i,
    {
        let ghost v1 = g.view_of();
        proof {
            assert(decreases_to!(xs => xs@));
            assert(decreases_to!(xs@ => xs@[i as int]));
        }
        let x = &xs[i];
        visit_exprs(g, parent, locals, &x.keys.exprs);
        let ghost v2 = g.view_of();
        proof {
            lemma_apply_refs_grows(v1, parent, exprs_refs(x.keys.exprs@, l));
        }
        match &x.value {
            Some(v) => {
                visit_expr(g, parent, locals, v);
                proof {
                    lemma_apply_refs_concat(v1, parent, exprs_refs(x.keys.exprs@, l), expr_refs(*v, l));
                }
            },
            None => {
                assert(exprs_refs(x.keys.exprs@, l) + Seq::<IdentKey>::empty() =~= exprs_refs(x.keys.exprs@, l));
            },
        }
        proof {
            let a = xs@.subrange(0, i as int);
            let b = xs@.subrange(0, i + 1);
            assert(b.subrange(0, b.len() - 1) =~= a);
            assert(b[b.len() - 1] == xs@[i as int]);
            let item = exprs_refs(xs@[i as int].keys.exprs@, l) + match xs@[i as int].value { Some(v) => expr_refs(v, l), None => Seq::empty() };
            assert(subscripts_refs(b, l) == subscripts_refs(a, l) + item);
            lemma_apply_refs_concat(v0, parent, subscripts_refs(a, l), item);
            lemma_apply_refs_grows(v1, parent, item);
        }
        i += 1;
    }
    assert(xs@.subrange(0, n as int) =~= xs@);
}

pub(crate) fn visit_attrs(g: &mut ReachabilityGraph, parent: usize, locals: &Vec<NamespacedIdent>, xs: &Vec<AttrOrTrigger>)
    requires
        old(g).wf(),
        parent < old(g).nodes().len(),
    ensures
        final(g).wf(),
        final(g).view_of() == apply_refs(old(g).view_of(), parent, attrs_refs(xs@, local_keys(locals@))),
    decreases xs, 0nat,
{
    let ghost v0 = g.view_of();
    let ghost l = local_keys(locals@);
    let n = xs.len();
    let mut i: usize = 0;
    while i < n
        invariant
            n == xs@.len(),
            i <= n,
            l == local_keys(locals@),
            g.wf(),
            parent < g.nodes().len(),
            g.view_of() == apply_refs(v0, parent, attrs_refs(xs@.subrange(0, i as int), l)),
        decreases n - i,
    {
        let ghost v1 = g.view_of();
        proof {
            assert(decreases_to!(xs => xs@));
            assert(decreases_to!(xs@ => xs@[i as int]));
        }
        let x = &xs[i];
        match x {
            AttrOrTrigger::Attr(c) => visit_attr_params(g, parent, locals, &c.params),
            AttrOrTrigger::Trigger(es) => visit_exprs(g, parent, locals, &es.exprs),
        }
        proof {
            let a = xs@.subrange(0, i as int);
            let b = xs@.subrange(0, i + 1);
            assert(b.subrange(0, b.len() - 1) =~= a);
            assert(b[b.len() - 1] == xs@[i as int]);
            let item = match xs@[i as int] { AttrOrTrigger::Attr(c) => attr_params_refs(c.params@, l), AttrOrTrigger::Trigger(es) => exprs_refs(es.exprs@, l) };
            assert(attrs_refs(b, l) == attrs_refs(a, l) + item);
            lemma_apply_refs_concat(v0, parent, attrs_refs(a, l), item);
            lemma_apply_refs_grows(v1, parent, item);
        }
        i += 1;
    }
    assert(xs@.subrange(0, n as int) =~= xs@);
}

pub(crate) fn visit_attr_params(g: &mut ReachabilityGraph, parent: usize, locals: &Vec<NamespacedIdent>, xs: &Vec<AttrParam>)
    requires
        old(g).wf(),
        parent < old(g).nodes().len(),
    ensures
        final(g).wf(),
        final(g).view_of() == apply_refs(old(g).view_of(), parent, attr_params_refs(xs@, local_keys(locals@))),
    decreases xs, 0nat,
{
    let ghost v0 = g.view_of();
    let ghost l = local_keys(locals@);
    let n = xs.len();
    let mut i: usize = 0;
    while i < n
        invariant
            n == xs@.len(),
            i <= n,
            l == local_keys(locals@),
            g.wf(),
            parent < g.nodes().len(),
            g.view_of() == apply_refs(v0, parent, attr_params_refs(xs@.subrange(0, i as int), l)),
        decreases n - i,
    {
        let ghost v1 = g.view_of();
        proof {
            assert(decreases_to!(xs => xs@));
            assert(decreases_to!(xs@ => xs@[i as int]));
        }
        let x = &xs[i];
        match x {
            AttrParam::String(_) => {},
            AttrParam::Expr(e) => visit_expr(g, parent, locals, e),
        }
        proof {
            let a = xs@.subrange(0, i as int);
            let b = xs@.subrange(0, i + 1);
            assert(b.subrange(0, b.len() - 1) =~= a);
            assert(b[b.len() - 1] == xs@[i as int]);
            let item = match xs@[i as int] { AttrParam::String(_) => Seq::empty(), AttrParam::Expr(x) => expr_refs(x, l) };
            assert(attr_params_refs(b, l) == attr_params_refs(a, l) + item);
            lemma_apply_refs_concat(v0, parent, attr_params_refs(a, l), item);
            lemma_apply_refs_grows(v1, parent, item);
        }
        i += 1;
    }
    assert(xs@.subrange(0, n as int) =~= xs@);
}

pub(crate) fn visit_attr_typed_wheres(g: &mut ReachabilityGraph, parent: usize, locals: &Vec<NamespacedIdent>, xs: &Vec<Spanned<AttrTypedIdentsWhere>>)
    requires
        old(g).wf(),
        parent < old(g).nodes().len(),
    ensures
        final(g).wf(),
        final(g).view_of() == apply_refs(old(g).view_of(), parent, attr_typed_wheres_refs(xs@, local_keys(locals@))),
    decreases xs, 0nat,
{
    let ghost v0 = g.view_of();
    let ghost l = local_keys(locals@);
    let n = xs.len();
    let mut i: usize = 0;
    while i < n
        invariant
            n == xs@.len(),
            i <= n,
            l == local_keys(locals@),
            g.wf(),
            parent < g.nodes().len(),
            g.view_of() == apply_refs(v0, parent, attr_typed_wheres_refs(xs@.subrange(0, i as int), l)),
        decreases n - i,
    {
        let ghost v1 = g.view_of();
        proof {
            assert(decreases_to!(xs => xs@));
            assert(decreases_to!(xs@ => xs@[i as int]));
        }
        let x = &xs[i];
        match &x.value.typed_idents_where.where_ {
            Some(w) => visit_expr(g, parent, locals, w),
            None => {},
        }
        proof {
            let a = xs@.subrange(0, i as int);
            let b = xs@.subrange(0, i + 1);
            assert(b.subrange(0, b.len() - 1) =~= a);
            assert(b[b.len() - 1] == xs@[i as int]);
            let item = match xs@[i as int].value.typed_idents_where.where_ { Some(w) => expr_refs(w, l), None => Seq::empty() };
            assert(attr_typed_wheres_refs(b, l) == attr_typed_wheres_refs(a, l) + item);
            lemma_apply_refs_concat(v0, parent, attr_typed_wheres_refs(a, l), item);
            lemma_apply_refs_grows(v1, parent, item);
        }
        i += 1;
    }
    assert(xs@.subrange(0, n as int) =~= xs@);
}

pub(crate) fn visit_typed_wheres(g: &mut ReachabilityGraph, parent: usize, locals: &Vec<NamespacedIdent>, xs: &Vec<Spanned<TypedIdentsWhere>>)
    requires
        old(g).wf(),
        parent < old(g).nodes().len(),
    ensures
        final(g).wf(),
        final(g).view_of() == apply_refs(old(g).view_of(), parent, typed_wheres_refs(xs@, local_keys(locals@))),
    decreases xs, 0nat,
{
    let ghost v0 = g.view_of();
    let ghost l = local_keys(locals@);
    let n = xs.len();
    let mut i: usize = 0;
    while i < n
        invariant
            n == xs@.len(),
            i <= n,
            l == local_keys(locals@),
            g.wf(),
            parent < g.nodes().len(),
            g.view_of() == apply_refs(v0, parent, typed_wheres_refs(xs@.subrange(0, i as int), l)),
        decreases n - i,
    {
        let ghost v1 = g.view_of();
        proof {
            assert(decreases_to!(xs => xs@));
            assert(decreases_to!(xs@ => xs@[i as int]));
        }
        let x = &xs[i];
        match &x.value.where_ {
            Some(w) => visit_expr(g, parent, locals, w),
            None => {},
        }
        proof {
            let a = xs@.subrange(0, i as int);
            let b = xs@.subrange(0, i + 1);
            assert(b.subrange(0, b.len() - 1) =~= a);
            assert(b[b.len() - 1] == xs@[i as int]);
            let item = match xs@[i as int].value.where_ { Some(w) => expr_refs(w, l), None => Seq::empty() };
            assert(typed_wheres_refs(b, l) == typed_wheres_refs(a, l) + item);
            lemma_apply_refs_concat(v0, parent, typed_wheres_refs(a, l), item);
            lemma_apply_refs_grows(v1, parent, item);
        }
        i += 1;
    }
    assert(xs@.subrange(0, n as int) =~= xs@);
}

pub(crate) fn visit_local_vars_wheres(g: &mut ReachabilityGraph, parent: usize, locals: &Vec<NamespacedIdent>, xs: &Vec<LocalVars>)
    requires
        old(g).wf(),
        parent < old(g).nodes().len(),
    ensures
        final(g).wf(),
        final(g).view_of() == apply_refs(old(g).view_of(), parent, local_vars_wheres_refs(xs@, local_keys(locals@))),
    decreases xs, 0nat,
{
    let ghost v0 = g.view_of();
    let ghost l = local_keys(locals@);
    let n = xs.len();
    let mut i: usize = 0;
    while i < n
        invariant
            n == xs@.len(),
            i <= n,
            l == local_keys(locals@),
            g.wf(),
            parent < g.nodes().len(),
            g.view_of() == apply_refs(v0, parent, local_vars_wheres_refs(xs@.subrange(0, i as int), l)),
        decreases n - i,
    {
        let ghost v1 = g.view_of();
        proof {
            assert(decreases_to!(xs => xs@));
            assert(decreases_to!(xs@ => xs@[i as int]));
        }
        let x = &xs[i];
        visit_typed_wheres(g, parent, locals, &x.vars.items);
        proof {
            let a = xs@.subrange(0, i as int);
            let b = xs@.subrange(0, i + 1);
            assert(b.subrange(0, b.len() - 1) =~= a);
            assert(b[b.len() - 1] == xs@[i as int]);
            let item = typed_wheres_refs(xs@[i as int].vars.items@, l);
            assert(local_vars_wheres_refs(b, l) == local_vars_wheres_refs(a, l) + item);
            lemma_apply_refs_concat(v0, parent, local_vars_wheres_refs(a, l), item);
            lemma_apply_refs_grows(v1, parent, item);
        }
        i += 1;
    }
    assert(xs@.subrange(0, n as int) =~= xs@);
}

pub(crate) fn visit_cmds(g: &mut ReachabilityGraph, parent: usize, locals: &Vec<NamespacedIdent>, xs: &Vec<LabelOrCmd>)
    requires
        old(g).wf(),
        parent < old(g).nodes().len(),
    ensures
        final(g).wf(),
        final(g).view_of() == apply_refs(old(g).view_of(), parent, cmds_refs(xs@, local_keys(locals@))),
    decreases xs, 0nat,
{
    let ghost v0 = g.view_of();
    let ghost l = local_keys(locals@);
    let n = xs.len();
    let mut i: usize = 0;
    while i < n
        invariant
            n == xs@.len(),
            i <= n,
            l == local_keys(locals@),
            g.wf(),
            parent < g.nodes().len(),
            g.view_of() == apply_refs(v0, parent, cmds_refs(xs@.subrange(0, i as int), l)),
        decreases n - i,
    {
        let ghost v1 = g.view_of();
        proof {
            assert(decreases_to!(xs => xs@));
            assert(decreases_to!(xs@ => xs@[i as int]));
        }
        let x = &xs[i];
        visit_cmd(g, parent, locals, x);
        proof {
            let a = xs@.subrange(0, i as int);
            let b = xs@.subrange(0, i + 1);
            assert(b.subrange(0, b.len() - 1) =~= a);
            assert(b[b.len() - 1] == xs@[i as int]);
            let item = cmd_refs(xs@[i as int], l);
            assert(cmds_refs(b, l) == cmds_refs(a, l) + item);
            lemma_apply_refs_concat(v0, parent, cmds_refs(a, l), item);
            lemma_apply_refs_grows(v1, parent, item);
        }
        i += 1;
    }
    assert(xs@.subrange(0, n as int) =~= xs@);
}

pub(crate) fn visit_subscript_lists(g: &mut ReachabilityGraph, parent: usize, locals: &Vec<NamespacedIdent>, xs: &Vec<Exprs>)
    requires
        old(g).wf(),
        parent < old(g).nodes().len(),
    ensures
        final(g).wf(),
        final(g).view_of() == apply_refs(old(g).view_of(), parent, subscript_lists_refs(xs@, local_keys(locals@))),
    decreases xs, 0nat,
{
    let ghost v0 = g.view_of();
    let ghost l = local_keys(locals@);
    let n = xs.len();
    let mut i: usize = 0;
    while i < n
        invariant
            n == xs@.len(),
            i <= n,
            l == local_keys(locals@),
            g.wf(),
            parent < g.nodes().len(),
            g.view_of() == apply_refs(v0, parent, subscript_lists_refs(xs@.subrange(0, i as int), l)),
        decreases n - i,
    {
        let ghost v1 = g.view_of();
        proof {
            assert(decreases_to!(xs => xs@));
            assert(decreases_to!(xs@ => xs@[i as int]));
        }
        let x = &xs[i];
        visit_exprs(g, parent, locals, &x.exprs);
        proof {
            let a = xs@.subrange(0, i as int);
            let b = xs@.subrange(0, i + 1);
            assert(b.subrange(0, b.len() - 1) =~= a);
            assert(b[b.len() - 1] == xs@[i as int]);
            let item = exprs_refs(xs@[i as int].exprs@, l);
            assert(subscript_lists_refs(b, l) == subscript_lists_refs(a, l) + item);
            lemma_apply_refs_concat(v0, parent, subscript_lists_refs(a, l), item);
            lemma_apply_refs_grows(v1, parent, item);
        }
        i += 1;
    }
    assert(xs@.subrange(0, n as int) =~= xs@);
}

pub(crate) fn visit_calls(g: &mut ReachabilityGraph, parent: usize, locals: &Vec<NamespacedIdent>, xs: &Vec<CallParams>)
    requires
        old(g).wf(),
        parent < old(g).nodes().len(),
    ensures
        final(g).wf(),
        final(g).view_of() == apply_refs(old(g).view_of(), parent, calls_refs(xs@, local_keys(locals@))),
    decreases xs, 0nat,
{
    let ghost v0 = g.view_of();
    let ghost l = local_keys(locals@);
    let n = xs.len();
    let mut i: usize = 0;
    while i < n
        invariant
            n == xs@.len(),
            i <= n,
            l == local_keys(locals@),
            g.wf(),
            parent < g.nodes().len(),
            g.view_of() == apply_refs(v0, parent, calls_refs(xs@.subrange(0, i as int), l)),
        decreases n - i,
    {
        let ghost v1 = g.view_of();
        proof {
            assert(decreases_to!(xs => xs@));
            assert(decreases_to!(xs@ => xs@[i as int]));
        }
        let x = &xs[i];
        visit_call_params(g, parent, locals, x);
        proof {
            let a = xs@.subrange(0, i as int);
            let b = xs@.subrange(0, i + 1);
            assert(b.subrange(0, b.len() - 1) =~= a);
            assert(b[b.len() - 1] == xs@[i as int]);
            let item = call_params_refs(xs@[i as int], l);
            assert(calls_refs(b, l) == calls_refs(a, l) + item);
            lemma_apply_refs_concat(v0, parent, calls_refs(a, l), item);
            lemma_apply_refs_grows(v1, parent, item);
        }
        i += 1;
    }
    assert(xs@.subrange(0, n as int) =~= xs@);
}

pub(crate) fn visit_coercions(g: &mut ReachabilityGraph, parent: usize, locals: &Vec<NamespacedIdent>, xs: &Vec<Coercion>)
    requires
        old(g).wf(),
        parent < old(g).nodes().len(),
    ensures
        final(g).wf(),
        final(g).view_of() == apply_refs(old(g).view_of(), parent, coercions_refs(xs@, local_keys(locals@))),
{
    let ghost v0 = g.view_of();
    let ghost l = local_keys(locals@);
    let n = xs.len();
    let mut i: usize = 0;
    while i < n
        invariant
            n == xs@.len(),
            i <= n,
            l == local_keys(locals@),
            g.wf(),
            parent < g.nodes().len(),
            g.view_of() == apply_refs(v0, parent, coercions_refs(xs@.subrange(0, i as int), l)),
        decreases n - i,
    {
        let ghost v1 = g.view_of();
        let x = &xs[i];
        match x {
            Coercion::Type(t) => visit_type(g, parent, locals, t),
            Coercion::Nat(_) => {},
        }
        proof {
            let a = xs@.subrange(0, i as int);
            let b = xs@.subrange(0, i + 1);
            assert(b.subrange(0, b.len() - 1) =~= a);
            assert(b[b.len() - 1] == xs@[i as int]);
            let item = match xs@[i as int] { Coercion::Type(t) => type_refs(t, l), Coercion::Nat(_) => Seq::empty() };
            assert(coercions_refs(b, l) == coercions_refs(a, l) + item);
            lemma_apply_refs_concat(v0, parent, coercions_refs(a, l), item);
            lemma_apply_refs_grows(v1, parent, item);
        }
        i += 1;
    }
    assert(xs@.subrange(0, n as int) =~= xs@);
}

pub(crate) fn visit_assign_lhs(g: &mut ReachabilityGraph, parent: usize, locals: &Vec<NamespacedIdent>, xs: &Vec<AssignLhs>)
    requires
        old(g).wf(),
        parent < old(g).nodes().len(),
    ensures
        final(g).wf(),
        final(g).view_of() == apply_refs(old(g).view_of(), parent, assign_lhs_refs(xs@, local_keys(locals@))),
    decreases xs, 0nat,
{
    let ghost v0 = g.view_of();
    let ghost l = local_keys(locals@);
    let n = xs.len();
    let mut i: usize = 0;
    while i < n
        invariant
            n == xs@.len(),
            i <= n,
            l == local_keys(locals@),
            g.wf(),
            parent < g.nodes().len(),
            g.view_of() == apply_refs(v0, parent, assign_lhs_refs(xs@.subrange(0, i as int), l)),
        decreases n - i,
    {
        let ghost v1 = g.view_of();
        proof {
            assert(decreases_to!(xs => xs@));
            assert(decreases_to!(xs@ => xs@[i as int]));
        }
        let x = &xs[i];
        g.reference_ident(parent, locals, &x.ident, Namespace::Var);
        let ghost v2 = g.view_of();
        proof {
            lemma_apply_refs_grows(v1, parent, ref_of((x.ident@, Namespace::Var), l));
        }
        visit_subscript_lists(g, parent, locals, &x.subscripts);
        proof {
            lemma_apply_refs_concat(v1, parent, ref_of((x.ident@, Namespace::Var), l), subscript_lists_refs(x.subscripts@, l));
        }
        proof {
            let a = xs@.subrange(0, i as int);
            let b = xs@.subrange(0, i + 1);
            assert(b.subrange(0, b.len() - 1) =~= a);
            assert(b[b.len() - 1] == xs@[i as int]);
            let item = ref_of((xs@[i as int].ident@, Namespace::Var), l) + subscript_lists_refs(xs@[i as int].subscripts@, l);
            assert(assign_lhs_refs(b, l) == assign_lhs_refs(a, l) + item);
            lemma_apply_refs_concat(v0, parent, assign_lhs_refs(a, l), item);
            lemma_apply_refs_grows(v1, parent, item);
        }
        i += 1;
    }
    assert(xs@.subrange(0, n as int) =~= xs@);
}

pub(crate) fn visit_spec_blocks(g: &mut ReachabilityGraph, parent: usize, locals: &Vec<NamespacedIdent>, xs: &Vec<SpecBlock>)
    requires
        old(g).wf(),
        parent < old(g).nodes().len(),
    ensures
        final(g).wf(),
        final(g).view_of() == apply_refs(old(g).view_of(), parent, spec_blocks_refs(xs@, local_keys(locals@))),
    decreases xs, 0nat,
{
    let ghost v0 = g.view_of();
    let ghost l = local_keys(locals@);
    let n = xs.len();
    let mut i: usize = 0;
    while i < n
        invariant
            n == xs@.len(),
            i <= n,
            l == local_keys(locals@),
            g.wf(),
            parent < g.nodes().len(),
            g.view_of() == apply_refs(v0, parent, spec_blocks_refs(xs@.subrange(0, i as int), l)),
        decreases n - i,
    {
        let ghost v1 = g.view_of();
        proof {
            assert(decreases_to!(xs => xs@));
            assert(decreases_to!(xs@ => xs@[i as int]));
        }
        let x = &xs[i];
        visit_cmds(g, parent, locals, &x.cmds);
        proof {
            lemma_apply_refs_grows(v1, parent, cmds_refs(x.cmds@, l));
        }
        match &x.transfer {
            SpecTransfer::Goto(_) => {
                assert(cmds_refs(x.cmds@, l) + Seq::<IdentKey>::empty() =~= cmds_refs(x.cmds@, l));
            },
            SpecTransfer::Return(r) => {
                visit_expr(g, parent, locals, &r.value);
                proof {
                    lemma_apply_refs_concat(v1, parent, cmds_refs(x.cmds@, l), expr_refs(r.value, l));
                }
            },
        }
        proof {
            let a = xs@.subrange(0, i as int);
            let b = xs@.subrange(0, i + 1);
            assert(b.subrange(0, b.len() - 1) =~= a);
            assert(b[b.len() - 1] == xs@[i as int]);
            let item = cmds_refs(xs@[i as int].cmds@, l) + match xs@[i as int].transfer { SpecTransfer::Goto(_) => Seq::empty(), SpecTransfer::Return(r) => expr_refs(r.value, l) };
            assert(spec_blocks_refs(b, l) == spec_blocks_refs(a, l) + item);
            lemma_apply_refs_concat(v0, parent, spec_blocks_refs(a, l), item);
            lemma_apply_refs_grows(v1, parent, item);
        }
        i += 1;
    }
    assert(xs@.subrange(0, n as int) =~= xs@);
}


/// Whether an expression has two operands.
pub open spec fn is_binary(e: Expr) -> bool {
    ||| e is Equiv
    ||| e is Implies
    ||| e is Explies
    ||| e is Logical
    ||| e is Rel
    ||| e is BvTerm
    ||| e is Term
    ||| e is Factor
    ||| e is Power
}

/// The references of an expression.
pub(crate) fn visit_expr(g: &mut ReachabilityGraph, parent: usize, locals: &Vec<NamespacedIdent>, e: &Expr)
    requires
        old(g).wf(),
        parent < old(g).nodes().len(),
    ensures
        final(g).wf(),
        final(g).view_of() == apply_refs(old(g).view_of(), parent, expr_refs(*e, local_keys(locals@))),
    decreases e, 1nat,
{
    let ghost v0 = g.view_of();
    let ghost l = local_keys(locals@);
    if is_binary_expr(e) {
        visit_binary(g, parent, locals, e);
        return;
    }
    match e {
        Expr::Neg(x) => {
            proof { assert(decreases_to!(*e => (*e)->Neg_0)); }
            visit_expr(g, parent, locals, &x.expr);
        },
        Expr::Old(x) => {
            proof { assert(decreases_to!(*e => (*e)->Old_0)); }
            visit_expr(g, parent, locals, &x.expr);
        },
        Expr::ArithCoercion(x) => {
            proof { assert(decreases_to!(*e => (*e)->ArithCoercion_0)); }
            visit_expr(g, parent, locals, &x.expr);
        },
        Expr::Coercion(x) => {
            proof { assert(decreases_to!(*e => (*e)->Coercion_0)); }
            visit_expr(g, parent, locals, &x.expr);
            proof { lemma_apply_refs_grows(v0, parent, expr_refs(x.expr, l)); }
            visit_coercions(g, parent, locals, &x.coercions);
            proof { lemma_apply_refs_concat(v0, parent, expr_refs(x.expr, l), coercions_refs(x.coercions@, l)); }
        },
        Expr::Array(x) => {
            proof { assert(decreases_to!(*e => (*e)->Array_0)); }
            visit_expr(g, parent, locals, &x.expr);
            proof { lemma_apply_refs_grows(v0, parent, expr_refs(x.expr, l)); }
            visit_subscripts(g, parent, locals, &x.subscripts);
            proof { lemma_apply_refs_concat(v0, parent, expr_refs(x.expr, l), subscripts_refs(x.subscripts@, l)); }
        },
        Expr::Var(i) => {
            g.reference_ident(parent, locals, i, Namespace::Var);
        },
        Expr::FuncCall(f) => {
            proof { assert(decreases_to!(*e => (*e)->FuncCall_0)); }
            g.reference_ident(parent, locals, &f.target, Namespace::Func);
            proof { lemma_apply_refs_grows(v0, parent, ref_of((f.target@, Namespace::Func), l)); }
            visit_exprs(g, parent, locals, &f.args.exprs);
            proof { lemma_apply_refs_concat(v0, parent, ref_of((f.target@, Namespace::Func), l), exprs_refs(f.args.exprs@, l)); }
        },
        Expr::Quant(q) => {
            proof { assert(decreases_to!(*e => (*e)->Quant_0)); }
            visit_quant_body(g, parent, locals, &q.body);
        },
        Expr::IfThenElse(x) => {
            proof { assert(decreases_to!(*e => (*e)->IfThenElse_0)); }
            visit_expr(g, parent, locals, &x.cond);
            proof { lemma_apply_refs_grows(v0, parent, expr_refs(x.cond, l)); }
            let ghost v1 = g.view_of();
            visit_expr(g, parent, locals, &x.then_);
            proof {
                lemma_apply_refs_concat(v0, parent, expr_refs(x.cond, l), expr_refs(x.then_, l));
                lemma_apply_refs_grows(v1, parent, expr_refs(x.then_, l));
            }
            visit_expr(g, parent, locals, &x.else_);
            proof {
                lemma_apply_refs_concat(v0, parent, expr_refs(x.cond, l) + expr_refs(x.then_, l), expr_refs(x.else_, l));
            }
        },
        Expr::Code(c) => {
            proof { assert(decreases_to!(*e => (*e)->Code_0)); }
            visit_code(g, parent, locals, c);
        },
        _ => {},
    }
}

/// Whether an expression has two operands.
fn is_binary_expr(e: &Expr) -> (r: bool)
    ensures
        r == is_binary(*e),
{
    match e {
        Expr::Equiv(_) | Expr::Implies(_) | Expr::Explies(_) | Expr::Logical(_) | Expr::Rel(_) | Expr::BvTerm(_)
        | Expr::Term(_) | Expr::Factor(_) | Expr::Power(_) => true,
        _ => false,
    }
}

/// The references of the two operands of an expression, the left one
/// first.
pub(crate) fn visit_binary(g: &mut ReachabilityGraph, parent: usize, locals: &Vec<NamespacedIdent>, e: &Expr)
    requires
        old(g).wf(),
        parent < old(g).nodes().len(),
        is_binary(*e),
    ensures
        final(g).wf(),
        final(g).view_of() == apply_refs(old(g).view_of(), parent, expr_refs(*e, local_keys(locals@))),
    decreases e, 0nat,
{
    let ghost v0 = g.view_of();
    let ghost l = local_keys(locals@);
    match e {
        Expr::Equiv(x) => {
            proof { assert(decreases_to!(*e => (*e)->Equiv_0)); }
            visit_expr(g, parent, locals, &x.lhs);
            proof { lemma_apply_refs_grows(v0, parent, expr_refs(x.lhs, l)); }
            visit_expr(g, parent, locals, &x.rhs);
            proof { lemma_apply_refs_concat(v0, parent, expr_refs(x.lhs, l), expr_refs(x.rhs, l)); }
        },
        Expr::Implies(x) => {
            proof { assert(decreases_to!(*e => (*e)->Implies_0)); }
            visit_expr(g, parent, locals, &x.lhs);
            proof { lemma_apply_refs_grows(v0, parent, expr_refs(x.lhs, l)); }
            visit_expr(g, parent, locals, &x.rhs);
            proof { lemma_apply_refs_concat(v0, parent, expr_refs(x.lhs, l), expr_refs(x.rhs, l)); }
        },
        Expr::Explies(x) => {
            proof { assert(decreases_to!(*e => (*e)->Explies_0)); }
            visit_expr(g, parent, locals, &x.lhs);
            proof { lemma_apply_refs_grows(v0, parent, expr_refs(x.lhs, l)); }
            visit_expr(g, parent, locals, &x.rhs);
            proof { lemma_apply_refs_concat(v0, parent, expr_refs(x.lhs, l), expr_refs(x.rhs, l)); }
        },
        Expr::Logical(x) => {
            proof { assert(decreases_to!(*e => (*e)->Logical_0)); }
            visit_expr(g, parent, locals, &x.lhs);
            proof { lemma_apply_refs_grows(v0, parent, expr_refs(x.lhs, l)); }
            visit_expr(g, parent, locals, &x.rhs);
            proof { lemma_apply_refs_concat(v0, parent, expr_refs(x.lhs, l), expr_refs(x.rhs, l)); }
        },
        Expr::Rel(x) => {
            proof { assert(decreases_to!(*e => (*e)->Rel_0)); }
            visit_expr(g, parent, locals, &x.lhs);
            proof { lemma_apply_refs_grows(v0, parent, expr_refs(x.lhs, l)); }
            visit_expr(g, parent, locals, &x.rhs);
            proof { lemma_apply_refs_concat(v0, parent, expr_refs(x.lhs, l), expr_refs(x.rhs, l)); }
        },
        Expr::BvTerm(x) => {
            proof { assert(decreases_to!(*e => (*e)->BvTerm_0)); }
            visit_expr(g, parent, locals, &x.lhs);
            proof { lemma_apply_refs_grows(v0, parent, expr_refs(x.lhs, l)); }
            visit_expr(g, parent, locals, &x.rhs);
            proof { lemma_apply_refs_concat(v0, parent, expr_refs(x.lhs, l), expr_refs(x.rhs, l)); }
        },
        Expr::Term(x) => {
            proof { assert(decreases_to!(*e => (*e)->Term_0)); }
            visit_expr(g, parent, locals, &x.lhs);
            proof { lemma_apply_refs_grows(v0, parent, expr_refs(x.lhs, l)); }
            visit_expr(g, parent, locals, &x.rhs);
            proof { lemma_apply_refs_concat(v0, parent, expr_refs(x.lhs, l), expr_refs(x.rhs, l)); }
        },
        Expr::Factor(x) => {
            proof { assert(decreases_to!(*e => (*e)->Factor_0)); }
            visit_expr(g, parent, locals, &x.lhs);
            proof { lemma_apply_refs_grows(v0, parent, expr_refs(x.lhs, l)); }
            visit_expr(g, parent, locals, &x.rhs);
            proof { lemma_apply_refs_concat(v0, parent, expr_refs(x.lhs, l), expr_refs(x.rhs, l)); }
        },
        Expr::Power(x) => {
            proof { assert(decreases_to!(*e => (*e)->Power_0)); }
            visit_expr(g, parent, locals, &x.lhs);
            proof { lemma_apply_refs_grows(v0, parent, expr_refs(x.lhs, l)); }
            visit_expr(g, parent, locals, &x.rhs);
            proof { lemma_apply_refs_concat(v0, parent, expr_refs(x.lhs, l), expr_refs(x.rhs, l)); }
        },
        _ => {},
    }
}


/// The references of a quantifier's body, whose type parameters and bound
/// variables are local to it.
pub(crate) fn visit_quant_body(g: &mut ReachabilityGraph, parent: usize, locals: &Vec<NamespacedIdent>, b: &QuantBody)
    requires
        old(g).wf(),
        parent < old(g).nodes().len(),
    ensures
        final(g).wf(),
        final(g).view_of() == apply_refs(old(g).view_of(), parent, quant_body_refs(*b, local_keys(locals@))),
    decreases b, 0nat,
{
    let ghost v0 = g.view_of();
    let ghost l = local_keys(locals@);
    let mut inner = clone_locals(locals);
    declare_idents(&mut inner, &b.type_params.params.idents, Namespace::Type);
    let ghost l1 = local_keys(inner@);
    let ghost bound = attr_typed_decls(b.bound_vars.items@, l1);
    proof { assert(decreases_to!(b.bound_vars => b.bound_vars.items)); }
    declare_attr_typed(g, parent, &mut inner, &b.bound_vars.items);
    let ghost r0 = bound.0;
    proof { lemma_apply_refs_grows(v0, parent, r0); }
    visit_attr_typed_wheres(g, parent, &inner, &b.bound_vars.items);
    let ghost r1 = attr_typed_wheres_refs(b.bound_vars.items@, bound.1);
    proof {
        lemma_apply_refs_concat(v0, parent, r0, r1);
        lemma_apply_refs_grows(v0, parent, r0 + r1);
    }
    visit_attrs(g, parent, &inner, &b.attrs);
    let ghost r2 = attrs_refs(b.attrs@, bound.1);
    proof {
        lemma_apply_refs_concat(v0, parent, r0 + r1, r2);
        lemma_apply_refs_grows(v0, parent, r0 + r1 + r2);
    }
    visit_expr(g, parent, &inner, &b.expr);
    proof {
        lemma_apply_refs_concat(v0, parent, r0 + r1 + r2, expr_refs(b.expr, bound.1));
    }
}

/// The references of a code expression, whose local variables are local to
/// it.
pub(crate) fn visit_code(g: &mut ReachabilityGraph, parent: usize, locals: &Vec<NamespacedIdent>, c: &CodeExpr)
    requires
        old(g).wf(),
        parent < old(g).nodes().len(),
    ensures
        final(g).wf(),
        final(g).view_of() == apply_refs(old(g).view_of(), parent, code_refs(*c, local_keys(locals@))),
    decreases c, 0nat,
{
    let ghost v0 = g.view_of();
    let ghost l = local_keys(locals@);
    let ghost vars = local_vars_decls(c.local_vars@, l);
    let mut inner = clone_locals(locals);
    declare_local_vars(g, parent, &mut inner, &c.local_vars);
    proof { lemma_apply_refs_grows(v0, parent, vars.0); }
    visit_local_vars_wheres(g, parent, &inner, &c.local_vars);
    let ghost r1 = local_vars_wheres_refs(c.local_vars@, vars.1);
    proof {
        lemma_apply_refs_concat(v0, parent, vars.0, r1);
        lemma_apply_refs_grows(v0, parent, vars.0 + r1);
    }
    visit_spec_blocks(g, parent, &inner, &c.spec_blocks);
    proof {
        lemma_apply_refs_concat(v0, parent, vars.0 + r1, spec_blocks_refs(c.spec_blocks@, vars.1));
    }
}

/// Declares variables with attributes as local, item after item, with the
/// references of their types and attributes.
pub(crate) fn declare_attr_typed(
    g: &mut ReachabilityGraph,
    parent: usize,
    locals: &mut Vec<NamespacedIdent>,
    items: &Vec<Spanned<AttrTypedIdentsWhere>>,
)
    requires
        old(g).wf(),
        parent < old(g).nodes().len(),
    ensures
        final(g).wf(),
        local_keys(final(locals)@) == attr_typed_decls(items@, local_keys(old(locals)@)).1,
        final(g).view_of() == apply_refs(old(g).view_of(), parent, attr_typed_decls(items@, local_keys(old(locals)@)).0),
    decreases items, 0nat,
{
    let ghost v0 = g.view_of();
    let ghost l0 = local_keys(locals@);
    let n = items.len();
    let mut i: usize = 0;
    while i < n
        invariant
            n == items@.len(),
            i <= n,
            g.wf(),
            parent < g.nodes().len(),
            parent < v0.nodes.len(),
            local_keys(locals@) == attr_typed_decls(items@.subrange(0, i as int), l0).1,
            g.view_of() == apply_refs(v0, parent, attr_typed_decls(items@.subrange(0, i as int), l0).0),
        decreases n - i,
    {
        proof {
            assert(decreases_to!(items => items@));
            assert(decreases_to!(items@ => items@[i as int]));
        }
        let x = &items[i];
        let ghost a = items@.subrange(0, i as int);
        let ghost b = items@.subrange(0, i + 1);
        let ghost before = attr_typed_decls(a, l0);
        proof {
            assert(b.subrange(0, b.len() - 1) =~= a);
            assert(b[b.len() - 1] == items@[i as int]);
            lemma_apply_refs_grows(v0, parent, before.0);
        }
        declare_idents(locals, &x.value.typed_idents_where.typed_idents.idents.idents, Namespace::Var);
        let ghost after = local_keys(locals@);
        visit_type(g, parent, locals, &x.value.typed_idents_where.typed_idents.type_);
        let ghost t = type_refs(x.value.typed_idents_where.typed_idents.type_, after);
        proof {
            lemma_apply_refs_concat(v0, parent, before.0, t);
            lemma_apply_refs_grows(v0, parent, before.0 + t);
        }
        visit_attrs(g, parent, locals, &x.value.attrs);
        proof {
            lemma_apply_refs_concat(v0, parent, before.0 + t, attrs_refs(x.value.attrs@, after));
            lemma_apply_refs_grows(v0, parent, before.0 + t + attrs_refs(x.value.attrs@, after));
        }
        i += 1;
    }
    assert(items@.subrange(0, n as int) =~= items@);
}

/// Declares variables as local, item after item, with the references of
/// their types.
pub(crate) fn declare_typed(
    g: &mut ReachabilityGraph,
    parent: usize,
    locals: &mut Vec<NamespacedIdent>,
    items: &Vec<Spanned<TypedIdentsWhere>>,
)
    requires
        old(g).wf(),
        parent < old(g).nodes().len(),
    ensures
        final(g).wf(),
        local_keys(final(locals)@) == typed_decls(items@, local_keys(old(locals)@)).1,
        final(g).view_of() == apply_refs(old(g).view_of(), parent, typed_decls(items@, local_keys(old(locals)@)).0),
{
    let ghost v0 = g.view_of();
    let ghost l0 = local_keys(locals@);
    let n = items.len();
    let mut i: usize = 0;
    while i < n
        invariant
            n == items@.len(),
            i <= n,
            g.wf(),
            parent < g.nodes().len(),
            parent < v0.nodes.len(),
            local_keys(locals@) == typed_decls(items@.subrange(0, i as int), l0).1,
            g.view_of() == apply_refs(v0, parent, typed_decls(items@.subrange(0, i as int), l0).0),
        decreases n - i,
    {
        let x = &items[i];
        let ghost a = items@.subrange(0, i as int);
        let ghost b = items@.subrange(0, i + 1);
        let ghost before = typed_decls(a, l0);
        proof {
            assert(b.subrange(0, b.len() - 1) =~= a);
            assert(b[b.len() - 1] == items@[i as int]);
            lemma_apply_refs_grows(v0, parent, before.0);
        }
        declare_idents(locals, &x.value.typed_idents.idents.idents, Namespace::Var);
        let ghost after = local_keys(locals@);
        visit_type(g, parent, locals, &x.value.typed_idents.type_);
        proof {
            lemma_apply_refs_concat(v0, parent, before.0, type_refs(x.value.typed_idents.type_, after));
            lemma_apply_refs_grows(v0, parent, before.0 + type_refs(x.value.typed_idents.type_, after));
        }
        i += 1;
    }
    assert(items@.subrange(0, n as int) =~= items@);
}

/// Declares local variables, declaration after declaration, with the
/// references of their types and attributes.
pub(crate) fn declare_local_vars(g: &mut ReachabilityGraph, parent: usize, locals: &mut Vec<NamespacedIdent>, ls: &Vec<LocalVars>)
    requires
        old(g).wf(),
        parent < old(g).nodes().len(),
    ensures
        final(g).wf(),
        local_keys(final(locals)@) == local_vars_decls(ls@, local_keys(old(locals)@)).1,
        final(g).view_of() == apply_refs(old(g).view_of(), parent, local_vars_decls(ls@, local_keys(old(locals)@)).0),
    decreases ls, 0nat,
{
    let ghost v0 = g.view_of();
    let ghost l0 = local_keys(locals@);
    let n = ls.len();
    let mut i: usize = 0;
    while i < n
        invariant
            n == ls@.len(),
            i <= n,
            g.wf(),
            parent < g.nodes().len(),
            parent < v0.nodes.len(),
            local_keys(locals@) == local_vars_decls(ls@.subrange(0, i as int), l0).1,
            g.view_of() == apply_refs(v0, parent, local_vars_decls(ls@.subrange(0, i as int), l0).0),
        decreases n - i,
    {
        proof {
            assert(decreases_to!(ls => ls@));
            assert(decreases_to!(ls@ => ls@[i as int]));
        }
        let x = &ls[i];
        let ghost a = ls@.subrange(0, i as int);
        let ghost b = ls@.subrange(0, i + 1);
        let ghost before = local_vars_decls(a, l0);
        proof {
            assert(b.subrange(0, b.len() - 1) =~= a);
            assert(b[b.len() - 1] == ls@[i as int]);
            lemma_apply_refs_grows(v0, parent, before.0);
        }
        let ghost vars = typed_decls(x.vars.items@, before.1);
        declare_typed(g, parent, locals, &x.vars.items);
        proof {
            lemma_apply_refs_concat(v0, parent, before.0, vars.0);
            lemma_apply_refs_grows(v0, parent, before.0 + vars.0);
        }
        visit_attrs(g, parent, locals, &x.attrs);
        proof {
            lemma_apply_refs_concat(v0, parent, before.0 + vars.0, attrs_refs(x.attrs@, vars.1));
            lemma_apply_refs_grows(v0, parent, before.0 + vars.0 + attrs_refs(x.attrs@, vars.1));
        }
        i += 1;
    }
    assert(ls@.subrange(0, n as int) =~= ls@);
}

/// The references of a command.
pub(crate) fn visit_cmd(g: &mut ReachabilityGraph, parent: usize, locals: &Vec<NamespacedIdent>, c: &LabelOrCmd)
    requires
        old(g).wf(),
        parent < old(g).nodes().len(),
    ensures
        final(g).wf(),
        final(g).view_of() == apply_refs(old(g).view_of(), parent, cmd_refs(*c, local_keys(locals@))),
    decreases c, 0nat,
{
    let ghost v0 = g.view_of();
    let ghost l = local_keys(locals@);
    match c {
        LabelOrCmd::Assign(a) => {
            proof { assert(decreases_to!(*c => (*c)->Assign_0)); }
            visit_assign_lhs(g, parent, locals, &a.lhs);
            proof { lemma_apply_refs_grows(v0, parent, assign_lhs_refs(a.lhs@, l)); }
            visit_exprs(g, parent, locals, &a.rhs.exprs);
            proof { lemma_apply_refs_concat(v0, parent, assign_lhs_refs(a.lhs@, l), exprs_refs(a.rhs.exprs@, l)); }
        },
        LabelOrCmd::Call(x) => {
            proof { assert(decreases_to!(*c => (*c)->Call_0)); }
            visit_attrs(g, parent, locals, &x.attrs);
            proof { lemma_apply_refs_grows(v0, parent, attrs_refs(x.attrs@, l)); }
            visit_call_params(g, parent, locals, &x.call_params);
            proof { lemma_apply_refs_concat(v0, parent, attrs_refs(x.attrs@, l), call_params_refs(x.call_params, l)); }
        },
        LabelOrCmd::Claim(x) => {
            proof { assert(decreases_to!(*c => (*c)->Claim_0)); }
            visit_attrs(g, parent, locals, &x.attrs);
            proof { lemma_apply_refs_grows(v0, parent, attrs_refs(x.attrs@, l)); }
            visit_expr(g, parent, locals, &x.proposition);
            proof { lemma_apply_refs_concat(v0, parent, attrs_refs(x.attrs@, l), expr_refs(x.proposition, l)); }
        },
        LabelOrCmd::Havoc(x) => {
            visit_idents_refs(g, parent, locals, &x.vars.idents, Namespace::Var);
        },
        LabelOrCmd::ParCall(x) => {
            proof { assert(decreases_to!(*c => (*c)->ParCall_0)); }
            visit_attrs(g, parent, locals, &x.attrs);
            proof { lemma_apply_refs_grows(v0, parent, attrs_refs(x.attrs@, l)); }
            visit_calls(g, parent, locals, &x.calls);
            proof { lemma_apply_refs_concat(v0, parent, attrs_refs(x.attrs@, l), calls_refs(x.calls@, l)); }
        },
        _ => {},
    }
}

/// The references of a call: result variables, the procedure, then the
/// arguments.
pub(crate) fn visit_call_params(g: &mut ReachabilityGraph, parent: usize, locals: &Vec<NamespacedIdent>, c: &CallParams)
    requires
        old(g).wf(),
        parent < old(g).nodes().len(),
    ensures
        final(g).wf(),
        final(g).view_of() == apply_refs(old(g).view_of(), parent, call_params_refs(*c, local_keys(locals@))),
    decreases c, 0nat,
{
    let ghost v0 = g.view_of();
    let ghost l = local_keys(locals@);
    let ghost r0 = idents_refs(c.returns.idents@, Namespace::Var, l);
    let ghost r1 = ref_of((c.target@, Namespace::Proc), l);
    visit_idents_refs(g, parent, locals, &c.returns.idents, Namespace::Var);
    proof { lemma_apply_refs_grows(v0, parent, r0); }
    g.reference_ident(parent, locals, &c.target, Namespace::Proc);
    proof {
        lemma_apply_refs_concat(v0, parent, r0, r1);
        lemma_apply_refs_grows(v0, parent, r0 + r1);
    }
    visit_exprs(g, parent, locals, &c.params.exprs);
    proof { lemma_apply_refs_concat(v0, parent, r0 + r1, exprs_refs(c.params.exprs@, l)); }
}


/// The references of a guard.
pub(crate) fn visit_guard(g: &mut ReachabilityGraph, parent: usize, locals: &Vec<NamespacedIdent>, x: &Guard)
    requires
        old(g).wf(),
        parent < old(g).nodes().len(),
    ensures
        final(g).wf(),
        final(g).view_of() == apply_refs(old(g).view_of(), parent, guard_refs(*x, local_keys(locals@))),
{
    match x {
        Guard::Asterisk => {},
        Guard::Expr(e) => visit_expr(g, parent, locals, e),
    }
}

/// The references of loop invariants.
pub(crate) fn visit_invariants(g: &mut ReachabilityGraph, parent: usize, locals: &Vec<NamespacedIdent>, xs: &Vec<Invariant>)
    requires
        old(g).wf(),
        parent < old(g).nodes().len(),
    ensures
        final(g).wf(),
        final(g).view_of() == apply_refs(old(g).view_of(), parent, invariants_refs(xs@, local_keys(locals@))),
{
    let ghost v0 = g.view_of();
    let ghost l = local_keys(locals@);
    let n = xs.len();
    let mut i: usize = 0;
    while i < n
        invariant
            n == xs@.len(),
            i <= n,
            l == local_keys(locals@),
            g.wf(),
            parent < g.nodes().len(),
            g.view_of() == apply_refs(v0, parent, invariants_refs(xs@.subrange(0, i as int), l)),
        decreases n - i,
    {
        let ghost v1 = g.view_of();
        let x = &xs[i];
        visit_attrs(g, parent, locals, &x.attrs);
        proof { lemma_apply_refs_grows(v1, parent, attrs_refs(x.attrs@, l)); }
        visit_expr(g, parent, locals, &x.expr);
        proof {
            lemma_apply_refs_concat(v1, parent, attrs_refs(x.attrs@, l), expr_refs(x.expr, l));
            let a = xs@.subrange(0, i as int);
            let b = xs@.subrange(0, i + 1);
            assert(b.subrange(0, b.len() - 1) =~= a);
            assert(b[b.len() - 1] == xs@[i as int]);
            let item = attrs_refs(x.attrs@, l) + expr_refs(x.expr, l);
            assert(invariants_refs(b, l) == invariants_refs(a, l) + item);
            lemma_apply_refs_concat(v0, parent, invariants_refs(a, l), item);
            lemma_apply_refs_grows(v1, parent, item);
        }
        i += 1;
    }
    assert(xs@.subrange(0, n as int) =~= xs@);
}

/// The references of a statement.
pub(crate) fn visit_stmt(g: &mut ReachabilityGraph, parent: usize, locals: &Vec<NamespacedIdent>, x: &Stmt)
    requires
        old(g).wf(),
        parent < old(g).nodes().len(),
    ensures
        final(g).wf(),
        final(g).view_of() == apply_refs(old(g).view_of(), parent, stmt_refs(*x, local_keys(locals@))),
    decreases x, 0nat,
{
    let ghost v0 = g.view_of();
    let ghost l = local_keys(locals@);
    match x {
        Stmt::LabelOrCmd(c) => visit_cmd(g, parent, locals, c),
        Stmt::TransferCmd(_) => {},
        Stmt::StructuredCmd(c) => {
            proof { assert(decreases_to!(*x => (*x)->StructuredCmd_0)); }
            match c {
                StructuredCmd::Break(_) => {},
                StructuredCmd::If(i) => {
                    proof { assert(decreases_to!(*c => (*c)->If_0)); }
                    visit_if(g, parent, locals, i);
                },
                StructuredCmd::While(w) => {
                    proof { assert(decreases_to!(*c => (*c)->While_0)); }
                    visit_guard(g, parent, locals, &w.guard);
                    proof { lemma_apply_refs_grows(v0, parent, guard_refs(w.guard, l)); }
                    visit_invariants(g, parent, locals, &w.invariants);
                    proof {
                        lemma_apply_refs_concat(v0, parent, guard_refs(w.guard, l), invariants_refs(w.invariants@, l));
                        lemma_apply_refs_grows(v0, parent, guard_refs(w.guard, l) + invariants_refs(w.invariants@, l));
                    }
                    visit_stmts(g, parent, locals, &w.body.stmts);
                    proof {
                        lemma_apply_refs_concat(v0, parent, guard_refs(w.guard, l) + invariants_refs(w.invariants@, l),
                            stmts_refs(w.body.stmts@, l));
                    }
                },
            }
        },
    }
}

/// The references of an `if` and its `else` branches.
pub(crate) fn visit_if(g: &mut ReachabilityGraph, parent: usize, locals: &Vec<NamespacedIdent>, x: &IfCmd)
    requires
        old(g).wf(),
        parent < old(g).nodes().len(),
    ensures
        final(g).wf(),
        final(g).view_of() == apply_refs(old(g).view_of(), parent, if_refs(*x, local_keys(locals@))),
    decreases x, 0nat,
{
    let ghost v0 = g.view_of();
    let ghost l = local_keys(locals@);
    visit_guard(g, parent, locals, &x.guard);
    proof { lemma_apply_refs_grows(v0, parent, guard_refs(x.guard, l)); }
    visit_stmts(g, parent, locals, &x.then_.stmts);
    let ghost r = guard_refs(x.guard, l) + stmts_refs(x.then_.stmts@, l);
    proof {
        lemma_apply_refs_concat(v0, parent, guard_refs(x.guard, l), stmts_refs(x.then_.stmts@, l));
        lemma_apply_refs_grows(v0, parent, r);
    }
    match &x.else_ {
        None => {
            assert(r + Seq::<IdentKey>::empty() =~= r);
        },
        Some(ElseClause::ElseIf(b)) => {
            visit_if(g, parent, locals, b);
            proof { lemma_apply_refs_concat(v0, parent, r, if_refs(**b, l)); }
        },
        Some(ElseClause::Else(sl)) => {
            visit_stmts(g, parent, locals, &sl.stmts);
            proof { lemma_apply_refs_concat(v0, parent, r, stmts_refs(sl.stmts@, l)); }
        },
    }
}

/// The references of statements, one after the other.
pub(crate) fn visit_stmts(g: &mut ReachabilityGraph, parent: usize, locals: &Vec<NamespacedIdent>, xs: &Vec<Stmt>)
    requires
        old(g).wf(),
        parent < old(g).nodes().len(),
    ensures
        final(g).wf(),
        final(g).view_of() == apply_refs(old(g).view_of(), parent, stmts_refs(xs@, local_keys(locals@))),
    decreases xs, 0nat,
{
    let ghost v0 = g.view_of();
    let ghost l = local_keys(locals@);
    let n = xs.len();
    let mut i: usize = 0;
    while i < n
        invariant
            n == xs@.len(),
            i <= n,
            l == local_keys(locals@),
            g.wf(),
            parent < g.nodes().len(),
            g.view_of() == apply_refs(v0, parent, stmts_refs(xs@.subrange(0, i as int), l)),
        decreases n - i,
    {
        let ghost v1 = g.view_of();
        proof {
            assert(decreases_to!(xs => xs@));
            assert(decreases_to!(xs@ => xs@[i as int]));
        }
        let x = &xs[i];
        visit_stmt(g, parent, locals, x);
        proof {
            let a = xs@.subrange(0, i as int);
            let b = xs@.subrange(0, i + 1);
            assert(b.subrange(0, b.len() - 1) =~= a);
            assert(b[b.len() - 1] == xs@[i as int]);
            let item = stmt_refs(xs@[i as int], l);
            assert(stmts_refs(b, l) == stmts_refs(a, l) + item);
            lemma_apply_refs_concat(v0, parent, stmts_refs(a, l), item);
            lemma_apply_refs_grows(v1, parent, item);
        }
        i += 1;
    }
    assert(xs@.subrange(0, n as int) =~= xs@);
}

/// An identifier occurs among the references of a list of expressions
/// exactly when it occurs among the references of one of them.
pub proof fn law_exprs_refs_are_their_refs(es: Seq<Expr>, locals: Set<IdentKey>, k: IdentKey)
    ensures
        exprs_refs(es, locals).contains(k) <==> exists|i: int|
            0 <= i < es.len() && #[trigger] expr_refs(es[i], locals).contains(k),
    decreases es.len(),
{
    if es.len() > 0 {
        let init = es.subrange(0, es.len() - 1);
        law_exprs_refs_are_their_refs(init, locals, k);
        let a = exprs_refs(init, locals);
        let b = expr_refs(es[es.len() - 1], locals);
        lemma_concat_contains(a, b, k);
        if exists|i: int| 0 <= i < es.len() && #[trigger] expr_refs(es[i], locals).contains(k) {
            let i = choose|i: int| 0 <= i < es.len() && #[trigger] expr_refs(es[i], locals).contains(k);
            if i < es.len() - 1 {
                assert(init[i] == es[i]);
            }
        }
        if a.contains(k) {
            let i = choose|i: int| 0 <= i < init.len() && #[trigger] expr_refs(init[i], locals).contains(k);
            assert(es[i] == init[i]);
        }
    }
}

/// Joined reference lists hold what either list holds.
pub(crate) proof fn lemma_concat_contains(a: Seq<IdentKey>, b: Seq<IdentKey>, k: IdentKey)
    ensures
        (a + b).contains(k) <==> a.contains(k) || b.contains(k),
{
    if a.contains(k) {
        let j = choose|j: int| 0 <= j < a.len() && a[j] == k;
        assert((a + b)[j] == k);
    }
    if b.contains(k) {
        let j = choose|j: int| 0 <= j < b.len() && b[j] == k;
        assert((a + b)[a.len() + j] == k);
    }
    if (a + b).contains(k) {
        let j = choose|j: int| 0 <= j < (a + b).len() && (a + b)[j] == k;
        if j < a.len() {
            assert(a[j] == k);
        } else {
            assert(b[j - a.len()] == k);
        }
    }
}

/// An expression that binds nothing refers to exactly what its operands
/// refer to: a variable or function it names that is not local, every
/// global identifier anywhere in an operand, and the types named in its
/// coercions or the expressions of its subscripts. So a call `f(a1, ..., an)`
/// refers to `f` and to everything that any argument `ai` refers to, and a
/// conditional to what its condition and both branches refer to.
pub proof fn law_expr_refs_are_operand_refs(e: Expr, locals: Set<IdentKey>, k: IdentKey)
    ensures
        match e {
            Expr::Equiv(x) => expr_refs(e, locals).contains(k) <==> expr_refs(x.lhs, locals).contains(k)
                || expr_refs(x.rhs, locals).contains(k),
            Expr::Implies(x) => expr_refs(e, locals).contains(k) <==> expr_refs(x.lhs, locals).contains(k)
                || expr_refs(x.rhs, locals).contains(k),
            Expr::Explies(x) => expr_refs(e, locals).contains(k) <==> expr_refs(x.lhs, locals).contains(k)
                || expr_refs(x.rhs, locals).contains(k),
            Expr::Logical(x) => expr_refs(e, locals).contains(k) <==> expr_refs(x.lhs, locals).contains(k)
                || expr_refs(x.rhs, locals).contains(k),
            Expr::Rel(x) => expr_refs(e, locals).contains(k) <==> expr_refs(x.lhs, locals).contains(k)
                || expr_refs(x.rhs, locals).contains(k),
            Expr::BvTerm(x) => expr_refs(e, locals).contains(k) <==> expr_refs(x.lhs, locals).contains(k)
                || expr_refs(x.rhs, locals).contains(k),
            Expr::Term(x) => expr_refs(e, locals).contains(k) <==> expr_refs(x.lhs, locals).contains(k)
                || expr_refs(x.rhs, locals).contains(k),
            Expr::Factor(x) => expr_refs(e, locals).contains(k) <==> expr_refs(x.lhs, locals).contains(k)
                || expr_refs(x.rhs, locals).contains(k),
            Expr::Power(x) => expr_refs(e, locals).contains(k) <==> expr_refs(x.lhs, locals).contains(k)
                || expr_refs(x.rhs, locals).contains(k),
            Expr::Neg(x) => expr_refs(e, locals).contains(k) <==> expr_refs(x.expr, locals).contains(k),
            Expr::Old(x) => expr_refs(e, locals).contains(k) <==> expr_refs(x.expr, locals).contains(k),
            Expr::Coercion(x) => expr_refs(e, locals).contains(k) <==> expr_refs(x.expr, locals).contains(k)
                || coercions_refs(x.coercions@, locals).contains(k),
            Expr::Array(x) => expr_refs(e, locals).contains(k) <==> expr_refs(x.expr, locals).contains(k)
                || subscripts_refs(x.subscripts@, locals).contains(k),
            Expr::ArithCoercion(x) => expr_refs(e, locals).contains(k) <==> expr_refs(x.expr, locals).contains(k),
            Expr::Var(i) => expr_refs(e, locals).contains(k) <==> (k == (i@, Namespace::Var)
                && !locals.contains(k)),
            Expr::FuncCall(f) => expr_refs(e, locals).contains(k) <==> ((k == (f.target@, Namespace::Func)
                && !locals.contains(k)) || exists|i: int|
                0 <= i < f.args.exprs@.len() && #[trigger] expr_refs(f.args.exprs@[i], locals).contains(k)),
            Expr::IfThenElse(x) => expr_refs(e, locals).contains(k) <==> expr_refs(x.cond, locals).contains(k)
                || expr_refs(x.then_, locals).contains(k) || expr_refs(x.else_, locals).contains(k),
            _ => true,
        },
{
    match e {
        Expr::Equiv(x) => lemma_concat_contains(expr_refs(x.lhs, locals), expr_refs(x.rhs, locals), k),
        Expr::Implies(x) => lemma_concat_contains(expr_refs(x.lhs, locals), expr_refs(x.rhs, locals), k),
        Expr::Explies(x) => lemma_concat_contains(expr_refs(x.lhs, locals), expr_refs(x.rhs, locals), k),
        Expr::Logical(x) => lemma_concat_contains(expr_refs(x.lhs, locals), expr_refs(x.rhs, locals), k),
        Expr::Rel(x) => lemma_concat_contains(expr_refs(x.lhs, locals), expr_refs(x.rhs, locals), k),
        Expr::BvTerm(x) => lemma_concat_contains(expr_refs(x.lhs, locals), expr_refs(x.rhs, locals), k),
        Expr::Term(x) => lemma_concat_contains(expr_refs(x.lhs, locals), expr_refs(x.rhs, locals), k),
        Expr::Factor(x) => lemma_concat_contains(expr_refs(x.lhs, locals), expr_refs(x.rhs, locals), k),
        Expr::Power(x) => lemma_concat_contains(expr_refs(x.lhs, locals), expr_refs(x.rhs, locals), k),
        Expr::Coercion(x) => lemma_concat_contains(expr_refs(x.expr, locals), coercions_refs(x.coercions@, locals), k),
        Expr::Array(x) => lemma_concat_contains(expr_refs(x.expr, locals), subscripts_refs(x.subscripts@, locals), k),
        Expr::Var(i) => {
            if !locals.contains((i@, Namespace::Var)) {
                assert(expr_refs(e, locals)[0] == (i@, Namespace::Var));
            }
        },
        Expr::FuncCall(f) => {
            let t = ref_of((f.target@, Namespace::Func), locals);
            lemma_concat_contains(t, exprs_refs(f.args.exprs@, locals), k);
            law_exprs_refs_are_their_refs(f.args.exprs@, locals, k);
            if !locals.contains((f.target@, Namespace::Func)) {
                assert(t[0] == (f.target@, Namespace::Func));
            }
        },
        Expr::IfThenElse(x) => {
            lemma_concat_contains(expr_refs(x.cond, locals), expr_refs(x.then_, locals), k);
            lemma_concat_contains(
                expr_refs(x.cond, locals) + expr_refs(x.then_, locals),
                expr_refs(x.else_, locals),
                k,
            );
        },
        _ => {},
    }
}

/// What any statement of a list refers to, the list refers to.
pub proof fn law_stmts_refs_include_each(ss: Seq<Stmt>, locals: Set<IdentKey>, i: int, k: IdentKey)
    requires
        0 <= i < ss.len(),
        stmt_refs(ss[i], locals).contains(k),
    ensures
        stmts_refs(ss, locals).contains(k),
    decreases ss.len(),
{
    let init = ss.subrange(0, ss.len() - 1);
    lemma_concat_contains(stmts_refs(init, locals), stmt_refs(ss[ss.len() - 1], locals), k);
    if i < ss.len() - 1 {
        assert(init[i] == ss[i]);
        law_stmts_refs_include_each(init, locals, i, k);
    }
}

/// A command refers to everything its expressions refer to: the right-hand
/// sides of an assignment, the procedure a call names (unless local) and
/// its arguments, and the proposition of an `assert` or `assume`.
pub proof fn law_cmd_refs_include_operands(c: LabelOrCmd, locals: Set<IdentKey>, k: IdentKey)
    ensures
        match c {
            LabelOrCmd::Assign(a) => (exists|i: int|
                0 <= i < a.rhs.exprs@.len() && #[trigger] expr_refs(a.rhs.exprs@[i], locals).contains(k))
                ==> cmd_refs(c, locals).contains(k),
            LabelOrCmd::Call(x) => ((k == (x.call_params.target@, Namespace::Proc) && !locals.contains(k))
                || exists|i: int|
                0 <= i < x.call_params.params.exprs@.len() && #[trigger] expr_refs(
                    x.call_params.params.exprs@[i],
                    locals,
                ).contains(k)) ==> cmd_refs(c, locals).contains(k),
            LabelOrCmd::Claim(x) => expr_refs(x.proposition, locals).contains(k) ==> cmd_refs(c, locals).contains(k),
            _ => true,
        },
{
    match c {
        LabelOrCmd::Assign(a) => {
            law_exprs_refs_are_their_refs(a.rhs.exprs@, locals, k);
            lemma_concat_contains(assign_lhs_refs(a.lhs@, locals), exprs_refs(a.rhs.exprs@, locals), k);
        },
        LabelOrCmd::Call(x) => {
            let cp = x.call_params;
            let r = idents_refs(cp.returns.idents@, Namespace::Var, locals);
            let t = ref_of((cp.target@, Namespace::Proc), locals);
            law_exprs_refs_are_their_refs(cp.params.exprs@, locals, k);
            lemma_concat_contains(r, t, k);
            lemma_concat_contains(r + t, exprs_refs(cp.params.exprs@, locals), k);
            lemma_concat_contains(attrs_refs(x.attrs@, locals), call_params_refs(cp, locals), k);
            if k == (cp.target@, Namespace::Proc) && !locals.contains(k) {
                assert(t[0] == k);
            }
        },
        LabelOrCmd::Claim(x) => {
            lemma_concat_contains(attrs_refs(x.attrs@, locals), expr_refs(x.proposition, locals), k);
        },
        _ => {},
    }
}

} // verus!


