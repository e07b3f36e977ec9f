//! The reachability graph of a whole Boogie program: a node for each
//! declaration, rooted at the global identifiers it declares, with edges to
//! what its parts refer to.

use vstd::multiset::Multiset;
use vstd::prelude::*;

use crate::boogie::ContractKind;
use crate::boogie_decl::{
    AxiomDecl, BoogieProgram, ConstDecl, Decl, FuncDecl, ImplBody, ImplDecl, OrderSpecParent,
    ProcDecl, ProcSign, Spec, TypeDecl, TypeDecls, VarDecl, VarOrType,
};
use crate::boogie_expr::{AttrOrTrigger, Spanned, Type, TypeAtom, TypedIdentsWhere};
use crate::bpl_tools::Namespace;
use crate::ident::Ident;
use crate::reachability::{
    declare_local_ident, is_local, GraphView, IdentKey, NamespacedIdent, ReachabilityGraph, apply_ref, apply_refs, has_edge, lemma_apply_refs_concat,
    lemma_apply_refs_grows, local_keys, no_span, view_add_decl_node, view_add_edge, view_add_node,
    view_attach_ident, view_attach_root, view_get_ident, view_ident_node,
};
use crate::shaking::{
    attr_params_refs, attr_typed_decls, attr_typed_wheres_refs, attrs_refs, declare_attr_typed, declare_idents,
    declare_local_vars, expr_refs, exprs_refs, idents_keys, idents_refs, local_vars_decls,
    local_vars_wheres_refs, stmts_refs, type_refs, visit_attr_params, visit_attr_typed_wheres,
    visit_attrs, visit_expr, visit_exprs, visit_idents_refs, visit_local_vars_wheres,
    visit_stmts, visit_type, lemma_concat_contains,
};
use crate::span::RawSpan;

verus! {

/// The graph after node `p` declares each of the global identifiers `ids`
/// in `namespace`: each gets a node with its own span, and `p` is rooted at
/// it.
pub open spec fn declare_globals(v: GraphView, p: usize, ids: Seq<Spanned<Ident>>, namespace: Namespace) -> GraphView
    decreases ids.len(),
{
    if ids.len() == 0 {
        v
    } else {
        let x = ids[ids.len() - 1];
        view_attach_ident(declare_globals(v, p, ids.subrange(0, ids.len() - 1), namespace), p, (x.value@, namespace), x.span)
    }
}

/// The constants that an order specification names as parents.
pub open spec fn order_parents_refs(ps: Seq<OrderSpecParent>) -> Seq<IdentKey> {
    ps.map_values(|x: OrderSpecParent| (x.parent@, Namespace::Var))
}

/// The graph after an axiom: a declaration node that refers to what its
/// attributes and proposition refer to.
pub open spec fn axiom_effect(v: GraphView, span: RawSpan, a: AxiomDecl) -> GraphView {
    let p = v.nodes.len() as usize;
    apply_refs(view_add_decl_node(v, span), p, attrs_refs(a.attrs@, Set::empty()) + expr_refs(a.proposition, Set::empty()))
}

/// The graph after a constant declaration: a declaration node rooted at
/// the constants, referring to what the attributes, the type and the
/// order specification refer to.
pub open spec fn const_effect(v: GraphView, span: RawSpan, c: ConstDecl) -> GraphView {
    let p = v.nodes.len() as usize;
    let w1 = apply_refs(view_add_decl_node(v, span), p, attrs_refs(c.attrs@, Set::empty()));
    let w2 = declare_globals(w1, p, c.consts.idents.idents@, Namespace::Var);
    let w3 = apply_refs(w2, p, type_refs(c.consts.type_, Set::empty()));
    match c.order_spec {
        Some(o) => apply_refs(w3, p, order_parents_refs(o.parents@)),
        None => w3,
    }
}


/// The references of a parameter or result of a function, and the locals
/// after it: a named one is local from its declaration on.
pub open spec fn var_or_type_decl(x: VarOrType, locals: Set<IdentKey>) -> (Seq<IdentKey>, Set<IdentKey>) {
    let after = match x.var {
        Some(i) => locals.insert((i@, Namespace::Var)),
        None => locals,
    };
    (type_refs(x.type_, after) + attrs_refs(x.attrs@, after), after)
}

/// The references of the parameters of a function, one after the other,
/// and the locals after them.
pub open spec fn var_or_types_decls(xs: Seq<VarOrType>, locals: Set<IdentKey>) -> (Seq<IdentKey>, Set<IdentKey>)
    decreases xs.len(),
{
    if xs.len() == 0 {
        (Seq::empty(), locals)
    } else {
        let before = var_or_types_decls(xs.subrange(0, xs.len() - 1), locals);
        let x = var_or_type_decl(xs[xs.len() - 1], before.1);
        (before.0 + x.0, x.1)
    }
}

/// The references of a function's signature, and the locals in its body:
/// its type parameters, parameters and result.
pub open spec fn func_sign_decls(f: FuncDecl) -> (Seq<IdentKey>, Set<IdentKey>) {
    let l0 = Set::<IdentKey>::empty() + idents_keys(f.type_params.params.idents@, Namespace::Type);
    let ps = var_or_types_decls(f.var_params@, l0);
    let r = var_or_type_decl(f.returns, ps.1);
    (ps.0 + r.0, r.1)
}

/// Whether an attribute is named `name`.
pub open spec fn attr_named(a: AttrOrTrigger, name: Seq<char>) -> bool {
    match a {
        AttrOrTrigger::Attr(c) => c.ident@ == name,
        AttrOrTrigger::Trigger(_) => false,
    }
}

/// Whether one of the attributes is named `name`.
pub open spec fn has_attr_spec(attrs: Seq<AttrOrTrigger>, name: Seq<char>) -> bool {
    exists|i: int| 0 <= i < attrs.len() && #[trigger] attr_named(attrs[i], name)
}

/// Whether a function is a datatype constructor: it has the attribute
/// `constructor`.
pub open spec fn func_is_ctor(f: FuncDecl) -> bool {
    has_attr_spec(f.attrs@, "constructor"@)
}

/// The name of the type that a type names, through parentheses; none for
/// a basic or map type.
pub open spec fn extract_data_type(t: Type) -> Option<Ident>
    decreases t,
{
    match t {
        Type::Atom(a) => match a {
            TypeAtom::Paren(inner) => extract_data_type(*inner),
            _ => None,
        },
        Type::App(x) => Some(x.head),
        Type::MapType(_) => None,
    }
}

/// The data type of a constructor function whose result names a global
/// type: the type needs the constructor unless it may be pruned.
pub open spec fn ctor_data_type(f: FuncDecl) -> Option<Ident> {
    if func_is_ctor(f) {
        match extract_data_type(f.returns.type_) {
            Some(dt) => if func_sign_decls(f).1.contains((dt@, Namespace::Type)) {
                None
            } else {
                Some(dt)
            },
            None => None,
        }
    } else {
        None
    }
}

/// An edge from the node of identifier `k` (which gets one where it has
/// none) to node `p`.
pub open spec fn ctor_edge(w: GraphView, p: usize, k: IdentKey) -> GraphView {
    view_add_edge(view_get_ident(w, k, no_span()), view_ident_node(w, k), p)
}

/// The graph after a function declaration: a declaration node rooted at
/// the function, referring to what its signature, attributes and body
/// refer to; the data type of a constructor leads to it unless `prune`.
pub open spec fn func_effect(v: GraphView, span: RawSpan, f: FuncDecl, prune: bool) -> GraphView {
    let p = v.nodes.len() as usize;
    let w1 = view_attach_ident(view_add_decl_node(v, span), p, (f.ident@, Namespace::Func), no_span());
    let sig = func_sign_decls(f);
    let w2 = apply_refs(w1, p, sig.0);
    let w3 = match ctor_data_type(f) {
        Some(dt) => if prune {
            w2
        } else {
            ctor_edge(w2, p, (dt@, Namespace::Type))
        },
        None => w2,
    };
    let w4 = apply_refs(w3, p, attrs_refs(f.attrs@, sig.1));
    match f.body {
        Some(b) => apply_refs(w4, p, expr_refs(b, sig.1)),
        None => w4,
    }
}

/// The attributes of a procedure signature.
pub open spec fn proc_attrs(s: ProcSign) -> Seq<AttrOrTrigger> {
    s.attrs@.map_values(|a: Spanned<AttrOrTrigger>| a.value)
}

/// The type parameters of a procedure, as locals.
pub open spec fn sign_locals(s: ProcSign) -> Set<IdentKey> {
    Set::<IdentKey>::empty() + idents_keys(s.type_params.params.idents@, Namespace::Type)
}

/// The references of an implementation body, and the locals after its
/// local variables.
pub open spec fn impl_body_decls(b: ImplBody, locals: Set<IdentKey>) -> (Seq<IdentKey>, Set<IdentKey>) {
    let vars = local_vars_decls(b.local_vars@, locals);
    (vars.0 + local_vars_wheres_refs(b.local_vars@, vars.1) + stmts_refs(b.stmt_list.stmts@, vars.1), vars.1)
}

/// The references of an implementation body where there is one, and the
/// locals after it.
pub open spec fn opt_impl_body_decls(b: Option<ImplBody>, locals: Set<IdentKey>) -> (Seq<IdentKey>, Set<IdentKey>) {
    match b {
        Some(ib) => impl_body_decls(ib, locals),
        None => (Seq::empty(), locals),
    }
}

/// The references of an implementation: parameters, results, body, then
/// attributes.
pub open spec fn impl_refs(d: ImplDecl) -> Seq<IdentKey> {
    let s = d.proc_sign;
    let a = attr_typed_decls(s.var_params.items@, sign_locals(s));
    let wa = attr_typed_wheres_refs(s.var_params.items@, a.1);
    let b = attr_typed_decls(s.returns.items@, a.1);
    let wb = attr_typed_wheres_refs(s.returns.items@, b.1);
    let body = impl_body_decls(d.impl_body, b.1);
    a.0 + wa + b.0 + wb + body.0 + attrs_refs(proc_attrs(s), body.1)
}

/// The graph after an implementation: a declaration node rooted at the
/// procedure.
pub open spec fn impl_effect(v: GraphView, span: RawSpan, d: ImplDecl) -> GraphView {
    let p = v.nodes.len() as usize;
    let w = view_attach_ident(view_add_decl_node(v, span), p, (d.proc_sign.ident.value@, Namespace::Proc), no_span());
    apply_refs(w, p, impl_refs(d))
}

/// The variables that `modifies` clauses name.
pub open spec fn modifies_refs(specs: Seq<Spec>, locals: Set<IdentKey>) -> Seq<IdentKey>
    decreases specs.len(),
{
    if specs.len() == 0 {
        Seq::empty()
    } else {
        modifies_refs(specs.subrange(0, specs.len() - 1), locals) + match specs[specs.len() - 1] {
            Spec::Modifies(m) => idents_refs(m.vars.idents@, Namespace::Var, locals),
            _ => Seq::empty(),
        }
    }
}

/// The references of the contract clauses of one kind.
pub open spec fn contracts_refs(specs: Seq<Spec>, kind: ContractKind, locals: Set<IdentKey>) -> Seq<IdentKey>
    decreases specs.len(),
{
    if specs.len() == 0 {
        Seq::empty()
    } else {
        contracts_refs(specs.subrange(0, specs.len() - 1), kind, locals) + match specs[specs.len() - 1] {
            Spec::Contract(c) => if c.kind == kind {
                attrs_refs(c.attrs@, locals) + expr_refs(c.proposition, locals)
            } else {
                Seq::empty()
            },
            _ => Seq::empty(),
        }
    }
}

/// The references of a procedure: `modifies` clauses, parameters,
/// preconditions, results, postconditions, body, then attributes.
pub open spec fn proc_refs(d: ProcDecl) -> Seq<IdentKey> {
    let s = d.proc_sign;
    let l0 = sign_locals(s);
    let m = modifies_refs(d.specs@, l0);
    let a = attr_typed_decls(s.var_params.items@, l0);
    let wa = attr_typed_wheres_refs(s.var_params.items@, a.1);
    let req = contracts_refs(d.specs@, ContractKind::Requires, a.1);
    let b = attr_typed_decls(s.returns.items@, a.1);
    let wb = attr_typed_wheres_refs(s.returns.items@, b.1);
    let ens = contracts_refs(d.specs@, ContractKind::Ensures, b.1);
    let body = opt_impl_body_decls(d.impl_body, b.1);
    m + a.0 + wa + req + b.0 + wb + ens + body.0 + attrs_refs(proc_attrs(s), body.1)
}

/// The graph after a procedure: a declaration node rooted at the
/// procedure.
pub open spec fn proc_effect(v: GraphView, span: RawSpan, d: ProcDecl) -> GraphView {
    let p = v.nodes.len() as usize;
    let w = view_attach_ident(view_add_decl_node(v, span), p, (d.proc_sign.ident.value@, Namespace::Proc), no_span());
    apply_refs(w, p, proc_refs(d))
}

/// Type parameters as locals.
pub open spec fn type_params_keys(ids: Seq<Ident>) -> Set<IdentKey>
    decreases ids.len(),
{
    if ids.len() == 0 {
        Set::empty()
    } else {
        type_params_keys(ids.subrange(0, ids.len() - 1)).insert((ids[ids.len() - 1]@, Namespace::Type))
    }
}

/// The graph after one type of a type declaration, under the declaration
/// node `p`: a node for its span that roots `p` and is rooted at the type,
/// referring to what its definition refers to.
pub open spec fn type_decl_effect(v: GraphView, p: usize, td: Spanned<TypeDecl>) -> GraphView {
    let k = v.nodes.len() as usize;
    let w1 = view_attach_root(view_add_node(v, td.span), p, k);
    let w2 = view_attach_ident(w1, k, (td.value.ident@, Namespace::Type), no_span());
    match td.value.type_ {
        Some(t) => apply_refs(w2, k, type_refs(t, type_params_keys(td.value.type_params@))),
        None => w2,
    }
}

/// The graph after the types of a type declaration, one after the other.
pub open spec fn type_decls_fold(v: GraphView, p: usize, tds: Seq<Spanned<TypeDecl>>) -> GraphView
    decreases tds.len(),
{
    if tds.len() == 0 {
        v
    } else {
        type_decl_effect(type_decls_fold(v, p, tds.subrange(0, tds.len() - 1)), p, tds[tds.len() - 1])
    }
}

/// The graph after a type declaration: a declaration node with a node per
/// type, referring to what the attributes refer to.
pub open spec fn type_decls_effect(v: GraphView, span: RawSpan, d: TypeDecls) -> GraphView {
    let p = v.nodes.len() as usize;
    let w = type_decls_fold(view_add_decl_node(v, span), p, d.decls@);
    apply_refs(w, p, attrs_refs(d.attrs@, Set::empty()))
}

/// The graph after one item of a variable declaration, under the
/// declaration node `p`: a node for its span that roots `p` and is rooted
/// at its variables, referring to what their type refers to.
pub open spec fn var_item_effect(v: GraphView, p: usize, x: Spanned<TypedIdentsWhere>) -> GraphView {
    let k = v.nodes.len() as usize;
    let w1 = view_attach_root(view_add_node(v, x.span), p, k);
    let w2 = declare_globals(w1, k, x.value.typed_idents.idents.idents@, Namespace::Var);
    apply_refs(w2, k, type_refs(x.value.typed_idents.type_, Set::empty()))
}

/// The graph after the items of a variable declaration.
pub open spec fn var_items_fold(v: GraphView, p: usize, xs: Seq<Spanned<TypedIdentsWhere>>) -> GraphView
    decreases xs.len(),
{
    if xs.len() == 0 {
        v
    } else {
        var_item_effect(var_items_fold(v, p, xs.subrange(0, xs.len() - 1)), p, xs[xs.len() - 1])
    }
}

/// The graph after the `where` clauses of the first `n` items of a
/// variable declaration, each referred to by the corresponding node of
/// `nodes`.
pub open spec fn var_wheres_fold(v: GraphView, xs: Seq<Spanned<TypedIdentsWhere>>, nodes: Seq<usize>, n: nat) -> GraphView
    decreases n,
{
    if n == 0 {
        v
    } else {
        let w = var_wheres_fold(v, xs, nodes, (n - 1) as nat);
        match xs[n - 1].value.where_ {
            Some(e) => apply_refs(w, nodes[n - 1], expr_refs(e, Set::empty())),
            None => w,
        }
    }
}

/// The graph after a variable declaration: a declaration node with a node
/// per item, whose `where` clauses refer from that node; then what the
/// attributes refer to.
pub open spec fn var_decl_effect(v: GraphView, span: RawSpan, d: VarDecl) -> GraphView {
    let p = v.nodes.len() as usize;
    let w1 = var_items_fold(view_add_decl_node(v, span), p, d.vars.items@);
    let roots = w1.nodes[p as int].1;
    let n = if d.vars.items@.len() <= roots.len() {
        d.vars.items@.len()
    } else {
        roots.len()
    };
    let w2 = var_wheres_fold(w1, d.vars.items@, roots, n);
    apply_refs(w2, p, attrs_refs(d.attrs@, Set::empty()))
}

/// The graph after a declaration; `prune` says whether the data type of a
/// constructor function may be pruned.
pub open spec fn decl_effect(v: GraphView, d: Spanned<Decl>, prune: bool) -> GraphView {
    match d.value {
        Decl::Axiom(a) => axiom_effect(v, d.span, a),
        Decl::Const(c) => const_effect(v, d.span, c),
        Decl::Func(f) => func_effect(v, d.span, f, prune),
        Decl::Impl(i) => impl_effect(v, d.span, i),
        Decl::Proc(x) => proc_effect(v, d.span, x),
        Decl::Type(t) => type_decls_effect(v, d.span, t),
        Decl::Var(x) => var_decl_effect(v, d.span, x),
    }
}

/// The graph without nodes.
pub open spec fn empty_view() -> GraphView {
    GraphView {
        nodes: Seq::empty(),
        edges: Multiset::empty(),
        idents: Map::empty(),
        decls: Seq::empty(),
    }
}

/// The reachability graph of the declarations, one after the other.
pub open spec fn program_graph(decls: Seq<Spanned<Decl>>, prune: Seq<bool>) -> GraphView
    decreases decls.len(),
{
    if decls.len() == 0 {
        empty_view()
    } else {
        decl_effect(program_graph(decls.subrange(0, decls.len() - 1), prune), decls[decls.len() - 1], prune[decls.len() - 1])
    }
}


/// Whether a declaration is an entry point: a procedure with the attribute
/// `entrypoint`.
pub open spec fn is_entry_point(d: Decl) -> bool {
    match d {
        Decl::Proc(x) => has_attr_spec(proc_attrs(x.proc_sign), "entrypoint"@),
        _ => false,
    }
}

/// The empty list of locals.
fn no_locals() -> (r: Vec<NamespacedIdent>)
    ensures
        local_keys(r@) == Set::<IdentKey>::empty(),
{
    let r: Vec<NamespacedIdent> = Vec::new();
    assert(local_keys(r@) =~= Set::<IdentKey>::empty());
    r
}

/// Node `p` declares each of the global identifiers `ids` in `namespace`.
fn declare_global_idents(g: &mut ReachabilityGraph, p: usize, ids: &Vec<Spanned<Ident>>, namespace: Namespace)
    requires
        old(g).wf(),
        p < old(g).nodes().len(),
    ensures
        final(g).wf(),
        final(g).view_of() == declare_globals(old(g).view_of(), p, ids@, namespace),
        final(g).nodes().len() >= old(g).nodes().len(),
{
    let ghost v0 = g.view_of();
    let n = ids.len();
    let mut i: usize = 0;
    while i < n
        invariant
            n == ids@.len(),
            i <= n,
            g.wf(),
            p < g.nodes().len(),
            g.nodes().len() >= v0.nodes.len(),
            g.view_of() == declare_globals(v0, p, ids@.subrange(0, i as int), namespace),
        decreases n - i,
    {
        let x = &ids[i];
        let ghost v1 = g.view_of();
        g.attach_ident_to_node(p, Spanned { span: x.span, value: NamespacedIdent(x.value.clone(), namespace) });
        proof {
            assert(g.view_of().nodes.len() >= v1.nodes.len());
            let a = ids@.subrange(0, i as int);
            let b = ids@.subrange(0, i + 1);
            assert(b.subrange(0, b.len() - 1) =~= a);
            assert(b[b.len() - 1] == ids@[i as int]);
        }
        i += 1;
    }
    assert(ids@.subrange(0, n as int) =~= ids@);
}

/// Node `p` refers to the parents of an order specification.
fn visit_order_parents(g: &mut ReachabilityGraph, p: usize, parents: &Vec<OrderSpecParent>)
    requires
        old(g).wf(),
        p < old(g).nodes().len(),
    ensures
        final(g).wf(),
        final(g).view_of() == apply_refs(old(g).view_of(), p, order_parents_refs(parents@)),
{
    let ghost v0 = g.view_of();
    let locals = no_locals();
    let n = parents.len();
    let mut i: usize = 0;
    while i < n
        invariant
            n == parents@.len(),
            i <= n,
            g.wf(),
            p < g.nodes().len(),
            local_keys(locals@) == Set::<IdentKey>::empty(),
            g.view_of() == apply_refs(v0, p, order_parents_refs(parents@.subrange(0, i as int))),
        decreases n - i,
    {
        let ghost v1 = g.view_of();
        g.reference_ident(p, &locals, &parents[i].parent, Namespace::Var);
        proof {
            let k = (parents@[i as int].parent@, Namespace::Var);
            let a = order_parents_refs(parents@.subrange(0, i as int));
            assert(order_parents_refs(parents@.subrange(0, i + 1)) =~= a + seq![k]);
            lemma_apply_refs_concat(v0, p, a, seq![k]);
            lemma_apply_refs_grows(v1, p, seq![k]);
        }
        i += 1;
    }
    assert(parents@.subrange(0, n as int) =~= parents@);
}

/// Whether one of the attributes is named `name`.
fn has_attr(attrs: &Vec<AttrOrTrigger>, name: &Ident) -> (r: bool)
    ensures
        r == has_attr_spec(attrs@, name@),
{
    let n = attrs.len();
    let mut i: usize = 0;
    while i < n
        invariant
            n == attrs@.len(),
            i <= n,
            forall|j: int| 0 <= j < i ==> !#[trigger] attr_named(attrs@[j], name@),
        decreases n - i,
    {
        match &attrs[i] {
            AttrOrTrigger::Attr(c) => {
                if c.ident == *name {
                    assert(attr_named(attrs@[i as int], name@));
                    return true;
                }
            },
            AttrOrTrigger::Trigger(_) => {},
        }
        i += 1;
    }
    false
}

/// Whether one of the attributes of a procedure signature is named `name`.
fn has_sign_attr(attrs: &Vec<Spanned<AttrOrTrigger>>, name: &Ident) -> (r: bool)
    ensures
        r == has_attr_spec(attrs@.map_values(|a: Spanned<AttrOrTrigger>| a.value), name@),
{
    let ghost vals = attrs@.map_values(|a: Spanned<AttrOrTrigger>| a.value);
    let n = attrs.len();
    let mut i: usize = 0;
    while i < n
        invariant
            n == attrs@.len(),
            vals == attrs@.map_values(|a: Spanned<AttrOrTrigger>| a.value),
            i <= n,
            forall|j: int| 0 <= j < i ==> !#[trigger] attr_named(vals[j], name@),
        decreases n - i,
    {
        assert(vals[i as int] == attrs@[i as int].value);
        match &attrs[i].value {
            AttrOrTrigger::Attr(c) => {
                if c.ident == *name {
                    assert(attr_named(vals[i as int], name@));
                    return true;
                }
            },
            AttrOrTrigger::Trigger(_) => {},
        }
        i += 1;
    }
    false
}

/// Whether a function is a datatype constructor.
pub fn func_decl_is_ctor(f: &FuncDecl) -> (r: bool)
    ensures
        r == func_is_ctor(*f),
{
    has_attr(&f.attrs, &Ident::from_str("constructor"))
}

/// The name of the type that a type names, through parentheses.
pub fn extract_data_type_ident_from_type(t: &Type) -> (r: Option<Ident>)
    ensures
        r == extract_data_type(*t),
    decreases t,
{
    match t {
        Type::Atom(a) => match a {
            TypeAtom::Paren(inner) => {
                proof { assert(decreases_to!(*t => (*t)->Atom_0)); }
                extract_data_type_ident_from_type(inner)
            },
            _ => None,
        },
        Type::App(x) => Some(x.head.clone()),
        Type::MapType(_) => None,
    }
}

/// Whether a declaration is an entry point.
pub fn decl_is_entry_point(d: &Decl) -> (r: bool)
    ensures
        r == is_entry_point(*d),
{
    match d {
        Decl::Proc(x) => has_sign_attr(&x.proc_sign.attrs, &Ident::from_str("entrypoint")),
        _ => false,
    }
}

/// Whether a declaration is an axiom.
pub fn decl_is_axiom(d: &Decl) -> (r: bool)
    ensures
        r == (*d is Axiom),
{
    match d {
        Decl::Axiom(_) => true,
        _ => false,
    }
}


/// The graph after an axiom.
fn visit_axiom_decl(g: &mut ReachabilityGraph, span: RawSpan, a: &AxiomDecl)
    requires
        old(g).wf(),
    ensures
        final(g).wf(),
        final(g).view_of() == axiom_effect(old(g).view_of(), span, *a),
{
    let ghost v0 = g.view_of();
    let p = g.add_decl_node(span);
    let ghost w0 = g.view_of();
    let locals = no_locals();
    visit_attrs(g, p, &locals, &a.attrs);
    proof { lemma_apply_refs_grows(w0, p, attrs_refs(a.attrs@, Set::empty())); }
    visit_expr(g, p, &locals, &a.proposition);
    proof {
        lemma_apply_refs_concat(w0, p, attrs_refs(a.attrs@, Set::empty()), expr_refs(a.proposition, Set::empty()));
    }
}

/// The graph after a constant declaration.
fn visit_const_decl(g: &mut ReachabilityGraph, span: RawSpan, c: &ConstDecl)
    requires
        old(g).wf(),
    ensures
        final(g).wf(),
        final(g).view_of() == const_effect(old(g).view_of(), span, *c),
{
    let ghost v0 = g.view_of();
    let p = g.add_decl_node(span);
    let ghost w0 = g.view_of();
    let locals = no_locals();
    visit_attrs(g, p, &locals, &c.attrs);
    proof { lemma_apply_refs_grows(w0, p, attrs_refs(c.attrs@, Set::empty())); }
    declare_global_idents(g, p, &c.consts.idents.idents, Namespace::Var);
    let ghost w2 = g.view_of();
    visit_type(g, p, &locals, &c.consts.type_);
    proof { lemma_apply_refs_grows(w2, p, type_refs(c.consts.type_, Set::empty())); }
    match &c.order_spec {
        Some(o) => visit_order_parents(g, p, &o.parents),
        None => {},
    }
}


/// Declares a parameter or result of a function, with the references of
/// its type and attributes.
fn declare_var_or_type(g: &mut ReachabilityGraph, p: usize, locals: &mut Vec<NamespacedIdent>, x: &VarOrType)
    requires
        old(g).wf(),
        p < old(g).nodes().len(),
    ensures
        final(g).wf(),
        local_keys(final(locals)@) == var_or_type_decl(*x, local_keys(old(locals)@)).1,
        final(g).view_of() == apply_refs(old(g).view_of(), p, var_or_type_decl(*x, local_keys(old(locals)@)).0),
{
    let ghost v0 = g.view_of();
    match &x.var {
        Some(i) => declare_local_ident(locals, i, Namespace::Var),
        None => {},
    }
    let ghost after = local_keys(locals@);
    visit_type(g, p, locals, &x.type_);
    proof { lemma_apply_refs_grows(v0, p, type_refs(x.type_, after)); }
    visit_attrs(g, p, locals, &x.attrs);
    proof { lemma_apply_refs_concat(v0, p, type_refs(x.type_, after), attrs_refs(x.attrs@, after)); }
}

/// Declares the parameters of a function, one after the other.
fn declare_var_or_types(g: &mut ReachabilityGraph, p: usize, locals: &mut Vec<NamespacedIdent>, xs: &Vec<VarOrType>)
    requires
        old(g).wf(),
        p < old(g).nodes().len(),
    ensures
        final(g).wf(),
        local_keys(final(locals)@) == var_or_types_decls(xs@, local_keys(old(locals)@)).1,
        final(g).view_of() == apply_refs(old(g).view_of(), p, var_or_types_decls(xs@, local_keys(old(locals)@)).0),
{
    let ghost v0 = g.view_of();
    let ghost l0 = local_keys(locals@);
    let n = xs.len();
    let mut i: usize = 0;
    while i < n
        invariant
            n == xs@.len(),
            i <= n,
            g.wf(),
            p < g.nodes().len(),
            p < v0.nodes.len(),
            local_keys(locals@) == var_or_types_decls(xs@.subrange(0, i as int), l0).1,
            g.view_of() == apply_refs(v0, p, var_or_types_decls(xs@.subrange(0, i as int), l0).0),
        decreases n - i,
    {
        let ghost a = xs@.subrange(0, i as int);
        let ghost b = xs@.subrange(0, i + 1);
        let ghost before = var_or_types_decls(a, l0);
        declare_var_or_type(g, p, locals, &xs[i]);
        proof {
            assert(b.subrange(0, b.len() - 1) =~= a);
            assert(b[b.len() - 1] == xs@[i as int]);
            let item = var_or_type_decl(xs@[i as int], before.1).0;
            lemma_apply_refs_concat(v0, p, before.0, item);
            lemma_apply_refs_grows(v0, p, before.0 + item);
        }
        i += 1;
    }
    assert(xs@.subrange(0, n as int) =~= xs@);
}

/// The graph after a function declaration; `prune` says whether the data
/// type of a constructor may be pruned.
fn visit_func_decl(g: &mut ReachabilityGraph, span: RawSpan, f: &FuncDecl, prune: bool)
    requires
        old(g).wf(),
    ensures
        final(g).wf(),
        final(g).view_of() == func_effect(old(g).view_of(), span, *f, prune),
{
    let ghost v0 = g.view_of();
    let p = g.add_decl_node(span);
    let ghost w0 = g.view_of();
    g.attach_ident_to_node(p, Spanned { span: RawSpan::new(0, 0), value: NamespacedIdent(f.ident.clone(), Namespace::Func) });
    let ghost w1 = g.view_of();
    assert(w1.nodes.len() >= w0.nodes.len());
    let mut locals = no_locals();
    declare_idents(&mut locals, &f.type_params.params.idents, Namespace::Type);
    let ghost l0 = local_keys(locals@);
    let ghost ps = var_or_types_decls(f.var_params@, l0);
    declare_var_or_types(g, p, &mut locals, &f.var_params);
    proof { lemma_apply_refs_grows(w1, p, ps.0); }
    declare_var_or_type(g, p, &mut locals, &f.returns);
    let ghost sig = func_sign_decls(*f);
    proof {
        lemma_apply_refs_concat(w1, p, ps.0, var_or_type_decl(f.returns, ps.1).0);
        lemma_apply_refs_grows(w1, p, sig.0);
    }
    let ghost w2 = g.view_of();
    if func_decl_is_ctor(f) {
        match extract_data_type_ident_from_type(&f.returns.type_) {
            Some(dt) => {
                if !is_local(&locals, &dt, Namespace::Type) && !prune {
                    let n = g.get_node_with_ident(Spanned { span: RawSpan::new(0, 0), value: NamespacedIdent(dt, Namespace::Type) });
                    g.add_edge(n, p);
                }
            },
            None => {},
        }
    }
    let ghost w3 = g.view_of();
    proof {
        assert(w3.nodes.len() >= w2.nodes.len());
        lemma_apply_refs_grows(w3, p, attrs_refs(f.attrs@, sig.1));
    }
    visit_attrs(g, p, &locals, &f.attrs);
    match &f.body {
        Some(b) => visit_expr(g, p, &locals, b),
        None => {},
    }
}


/// The references of the attributes of a procedure signature.
fn visit_sign_attrs(g: &mut ReachabilityGraph, p: usize, locals: &Vec<NamespacedIdent>, xs: &Vec<Spanned<AttrOrTrigger>>)
    requires
        old(g).wf(),
        p < old(g).nodes().len(),
    ensures
        final(g).wf(),
        final(g).view_of() == apply_refs(old(g).view_of(), p, attrs_refs(
            xs@.map_values(|a: Spanned<AttrOrTrigger>| a.value),
            local_keys(locals@),
        )),
{
    let ghost v0 = g.view_of();
    let ghost l = local_keys(locals@);
    let n = xs.len();
    let mut i: usize = 0;
    while i < n
        invariant
            n == xs@.len(),
            i <= n,
            l == local_keys(locals@),
            g.wf(),
            p < g.nodes().len(),
            g.view_of() == apply_refs(v0, p, attrs_refs(
                xs@.subrange(0, i as int).map_values(|a: Spanned<AttrOrTrigger>| a.value),
                l,
            )),
        decreases n - i,
    {
        let ghost v1 = g.view_of();
        match &xs[i].value {
            AttrOrTrigger::Attr(c) => visit_attr_params(g, p, locals, &c.params),
            AttrOrTrigger::Trigger(es) => visit_exprs(g, p, locals, &es.exprs),
        }
        proof {
            let a = xs@.subrange(0, i as int).map_values(|a: Spanned<AttrOrTrigger>| a.value);
            let b = xs@.subrange(0, i + 1).map_values(|a: Spanned<AttrOrTrigger>| a.value);
            assert(b.subrange(0, b.len() - 1) =~= a);
            assert(b[b.len() - 1] == xs@[i as int].value);
            let item = match xs@[i as int].value {
                AttrOrTrigger::Attr(c) => attr_params_refs(c.params@, l),
                AttrOrTrigger::Trigger(es) => exprs_refs(es.exprs@, l),
            };
            assert(attrs_refs(b, l) == attrs_refs(a, l) + item);
            lemma_apply_refs_concat(v0, p, attrs_refs(a, l), item);
            lemma_apply_refs_grows(v1, p, item);
        }
        i += 1;
    }
    assert(xs@.subrange(0, n as int) =~= xs@);
}

/// The references of an implementation body; its local variables stay
/// local afterwards.
fn visit_impl_body(g: &mut ReachabilityGraph, p: usize, locals: &mut Vec<NamespacedIdent>, b: &ImplBody)
    requires
        old(g).wf(),
        p < old(g).nodes().len(),
    ensures
        final(g).wf(),
        local_keys(final(locals)@) == impl_body_decls(*b, local_keys(old(locals)@)).1,
        final(g).view_of() == apply_refs(old(g).view_of(), p, impl_body_decls(*b, local_keys(old(locals)@)).0),
{
    let ghost v0 = g.view_of();
    let ghost vars = local_vars_decls(b.local_vars@, local_keys(locals@));
    declare_local_vars(g, p, locals, &b.local_vars);
    proof { lemma_apply_refs_grows(v0, p, vars.0); }
    visit_local_vars_wheres(g, p, locals, &b.local_vars);
    let ghost r1 = local_vars_wheres_refs(b.local_vars@, vars.1);
    proof {
        lemma_apply_refs_concat(v0, p, vars.0, r1);
        lemma_apply_refs_grows(v0, p, vars.0 + r1);
    }
    visit_stmts(g, p, locals, &b.stmt_list.stmts);
    proof { lemma_apply_refs_concat(v0, p, vars.0 + r1, stmts_refs(b.stmt_list.stmts@, vars.1)); }
}

/// The variables that the `modifies` clauses name.
fn visit_modifies_specs(g: &mut ReachabilityGraph, p: usize, locals: &Vec<NamespacedIdent>, xs: &Vec<Spec>)
    requires
        old(g).wf(),
        p < old(g).nodes().len(),
    ensures
        final(g).wf(),
        final(g).view_of() == apply_refs(old(g).view_of(), p, modifies_refs(xs@, local_keys(locals@))),
{
    let ghost v0 = g.view_of();
    let ghost l = local_keys(locals@);
    let n = xs.len();
    let mut i: usize = 0;
    while i < n
        invariant
            n == xs@.len(),
            i <= n,
            l == local_keys(locals@),
            g.wf(),
            p < g.nodes().len(),
            g.view_of() == apply_refs(v0, p, modifies_refs(xs@.subrange(0, i as int), l)),
        decreases n - i,
    {
        let ghost v1 = g.view_of();
        match &xs[i] {
            Spec::Modifies(m) => visit_idents_refs(g, p, locals, &m.vars.idents, Namespace::Var),
            _ => {},
        }
        proof {
            let a = xs@.subrange(0, i as int);
            let b = xs@.subrange(0, i + 1);
            assert(b.subrange(0, b.len() - 1) =~= a);
            assert(b[b.len() - 1] == xs@[i as int]);
            let item = match xs@[i as int] {
                Spec::Modifies(m) => idents_refs(m.vars.idents@, Namespace::Var, l),
                _ => Seq::empty(),
            };
            assert(modifies_refs(b, l) == modifies_refs(a, l) + item);
            lemma_apply_refs_concat(v0, p, modifies_refs(a, l), item);
            lemma_apply_refs_grows(v1, p, item);
        }
        i += 1;
    }
    assert(xs@.subrange(0, n as int) =~= xs@);
}

/// The references of the contract clauses of one kind.
fn visit_contract_specs(g: &mut ReachabilityGraph, p: usize, locals: &Vec<NamespacedIdent>, xs: &Vec<Spec>, kind: ContractKind)
    requires
        old(g).wf(),
        p < old(g).nodes().len(),
    ensures
        final(g).wf(),
        final(g).view_of() == apply_refs(old(g).view_of(), p, contracts_refs(xs@, kind, local_keys(locals@))),
{
    let ghost v0 = g.view_of();
    let ghost l = local_keys(locals@);
    let n = xs.len();
    let mut i: usize = 0;
    while i < n
        invariant
            n == xs@.len(),
            i <= n,
            l == local_keys(locals@),
            g.wf(),
            p < g.nodes().len(),
            g.view_of() == apply_refs(v0, p, contracts_refs(xs@.subrange(0, i as int), kind, l)),
        decreases n - i,
    {
        let ghost v1 = g.view_of();
        match &xs[i] {
            Spec::Contract(c) => {
                if c.kind == kind {
                    visit_attrs(g, p, locals, &c.attrs);
                    proof { lemma_apply_refs_grows(v1, p, attrs_refs(c.attrs@, l)); }
                    visit_expr(g, p, locals, &c.proposition);
                    proof { lemma_apply_refs_concat(v1, p, attrs_refs(c.attrs@, l), expr_refs(c.proposition, l)); }
                }
            },
            _ => {},
        }
        proof {
            let a = xs@.subrange(0, i as int);
            let b = xs@.subrange(0, i + 1);
            assert(b.subrange(0, b.len() - 1) =~= a);
            assert(b[b.len() - 1] == xs@[i as int]);
            let item = match xs@[i as int] {
                Spec::Contract(c) => if c.kind == kind {
                    attrs_refs(c.attrs@, l) + expr_refs(c.proposition, l)
                } else {
                    Seq::empty()
                },
                _ => Seq::empty(),
            };
            assert(contracts_refs(b, kind, l) == contracts_refs(a, kind, l) + item);
            lemma_apply_refs_concat(v0, p, contracts_refs(a, kind, l), item);
            lemma_apply_refs_grows(v1, p, item);
        }
        i += 1;
    }
    assert(xs@.subrange(0, n as int) =~= xs@);
}

/// The graph after an implementation.
fn visit_impl_decl(g: &mut ReachabilityGraph, span: RawSpan, d: &ImplDecl)
    requires
        old(g).wf(),
    ensures
        final(g).wf(),
        final(g).view_of() == impl_effect(old(g).view_of(), span, *d),
{
    let ghost v0 = g.view_of();
    let s = &d.proc_sign;
    let p = g.add_decl_node(span);
    let ghost w0 = g.view_of();
    g.attach_ident_to_node(p, Spanned { span: RawSpan::new(0, 0), value: NamespacedIdent(s.ident.value.clone(), Namespace::Proc) });
    let ghost w1 = g.view_of();
    assert(w1.nodes.len() >= w0.nodes.len());
    let mut locals = no_locals();
    declare_idents(&mut locals, &s.type_params.params.idents, Namespace::Type);
    let ghost l0 = sign_locals(*s);
    let ghost a = attr_typed_decls(s.var_params.items@, l0);
    let ghost b = attr_typed_decls(s.returns.items@, a.1);
    let ghost body = impl_body_decls(d.impl_body, b.1);
    declare_attr_typed(g, p, &mut locals, &s.var_params.items);
    proof { lemma_apply_refs_grows(w1, p, a.0); }
    visit_attr_typed_wheres(g, p, &locals, &s.var_params.items);
    proof {
        lemma_apply_refs_concat(w1, p, (a.0), attr_typed_wheres_refs(s.var_params.items@, a.1));
        lemma_apply_refs_grows(w1, p, (a.0) + attr_typed_wheres_refs(s.var_params.items@, a.1));
    }
    declare_attr_typed(g, p, &mut locals, &s.returns.items);
    proof {
        lemma_apply_refs_concat(w1, p, (a.0) + attr_typed_wheres_refs(s.var_params.items@, a.1), b.0);
        lemma_apply_refs_grows(w1, p, (a.0) + attr_typed_wheres_refs(s.var_params.items@, a.1) + b.0);
    }
    visit_attr_typed_wheres(g, p, &locals, &s.returns.items);
    proof {
        lemma_apply_refs_concat(w1, p, (a.0) + attr_typed_wheres_refs(s.var_params.items@, a.1) + b.0, attr_typed_wheres_refs(s.returns.items@, b.1));
        lemma_apply_refs_grows(w1, p, (a.0) + attr_typed_wheres_refs(s.var_params.items@, a.1) + b.0 + attr_typed_wheres_refs(s.returns.items@, b.1));
    }
    visit_impl_body(g, p, &mut locals, &d.impl_body);
    proof {
        lemma_apply_refs_concat(w1, p, (a.0) + attr_typed_wheres_refs(s.var_params.items@, a.1) + b.0 + attr_typed_wheres_refs(s.returns.items@, b.1), body.0);
        lemma_apply_refs_grows(w1, p, (a.0) + attr_typed_wheres_refs(s.var_params.items@, a.1) + b.0 + attr_typed_wheres_refs(s.returns.items@, b.1) + body.0);
    }
    visit_sign_attrs(g, p, &locals, &s.attrs);
    proof {
        lemma_apply_refs_concat(w1, p, (a.0) + attr_typed_wheres_refs(s.var_params.items@, a.1) + b.0 + attr_typed_wheres_refs(s.returns.items@, b.1) + body.0, attrs_refs(proc_attrs(*s), body.1));
        lemma_apply_refs_grows(w1, p, (a.0) + attr_typed_wheres_refs(s.var_params.items@, a.1) + b.0 + attr_typed_wheres_refs(s.returns.items@, b.1) + body.0 + attrs_refs(proc_attrs(*s), body.1));
    }
}

/// The graph after a procedure.
fn visit_proc_decl(g: &mut ReachabilityGraph, span: RawSpan, d: &ProcDecl)
    requires
        old(g).wf(),
    ensures
        final(g).wf(),
        final(g).view_of() == proc_effect(old(g).view_of(), span, *d),
{
    let ghost v0 = g.view_of();
    let s = &d.proc_sign;
    let p = g.add_decl_node(span);
    let ghost w0 = g.view_of();
    g.attach_ident_to_node(p, Spanned { span: RawSpan::new(0, 0), value: NamespacedIdent(s.ident.value.clone(), Namespace::Proc) });
    let ghost w1 = g.view_of();
    assert(w1.nodes.len() >= w0.nodes.len());
    let mut locals = no_locals();
    declare_idents(&mut locals, &s.type_params.params.idents, Namespace::Type);
    let ghost l0 = sign_locals(*s);
    let ghost a = attr_typed_decls(s.var_params.items@, l0);
    let ghost b = attr_typed_decls(s.returns.items@, a.1);
    let ghost body = opt_impl_body_decls(d.impl_body, b.1);
    visit_modifies_specs(g, p, &locals, &d.specs);
    proof { lemma_apply_refs_grows(w1, p, modifies_refs(d.specs@, l0)); }
    declare_attr_typed(g, p, &mut locals, &s.var_params.items);
    proof {
        lemma_apply_refs_concat(w1, p, (modifies_refs(d.specs@, l0)), a.0);
        lemma_apply_refs_grows(w1, p, (modifies_refs(d.specs@, l0)) + a.0);
    }
    visit_attr_typed_wheres(g, p, &locals, &s.var_params.items);
    proof {
        lemma_apply_refs_concat(w1, p, (modifies_refs(d.specs@, l0)) + a.0, attr_typed_wheres_refs(s.var_params.items@, a.1));
        lemma_apply_refs_grows(w1, p, (modifies_refs(d.specs@, l0)) + a.0 + attr_typed_wheres_refs(s.var_params.items@, a.1));
    }
    visit_contract_specs(g, p, &locals, &d.specs, ContractKind::Requires);
    proof {
        lemma_apply_refs_concat(w1, p, (modifies_refs(d.specs@, l0)) + a.0 + attr_typed_wheres_refs(s.var_params.items@, a.1), contracts_refs(d.specs@, ContractKind::Requires, a.1));
        lemma_apply_refs_grows(w1, p, (modifies_refs(d.specs@, l0)) + a.0 + attr_typed_wheres_refs(s.var_params.items@, a.1) + contracts_refs(d.specs@, ContractKind::Requires, a.1));
    }
    declare_attr_typed(g, p, &mut locals, &s.returns.items);
    proof {
        lemma_apply_refs_concat(w1, p, (modifies_refs(d.specs@, l0)) + a.0 + attr_typed_wheres_refs(s.var_params.items@, a.1) + contracts_refs(d.specs@, ContractKind::Requires, a.1), b.0);
        lemma_apply_refs_grows(w1, p, (modifies_refs(d.specs@, l0)) + a.0 + attr_typed_wheres_refs(s.var_params.items@, a.1) + contracts_refs(d.specs@, ContractKind::Requires, a.1) + b.0);
    }
    visit_attr_typed_wheres(g, p, &locals, &s.returns.items);
    proof {
        lemma_apply_refs_concat(w1, p, (modifies_refs(d.specs@, l0)) + a.0 + attr_typed_wheres_refs(s.var_params.items@, a.1) + contracts_refs(d.specs@, ContractKind::Requires, a.1) + b.0, attr_typed_wheres_refs(s.returns.items@, b.1));
        lemma_apply_refs_grows(w1, p, (modifies_refs(d.specs@, l0)) + a.0 + attr_typed_wheres_refs(s.var_params.items@, a.1) + contracts_refs(d.specs@, ContractKind::Requires, a.1) + b.0 + attr_typed_wheres_refs(s.returns.items@, b.1));
    }
    visit_contract_specs(g, p, &locals, &d.specs, ContractKind::Ensures);
    proof {
        lemma_apply_refs_concat(w1, p, (modifies_refs(d.specs@, l0)) + a.0 + attr_typed_wheres_refs(s.var_params.items@, a.1) + contracts_refs(d.specs@, ContractKind::Requires, a.1) + b.0 + attr_typed_wheres_refs(s.returns.items@, b.1), contracts_refs(d.specs@, ContractKind::Ensures, b.1));
        lemma_apply_refs_grows(w1, p, (modifies_refs(d.specs@, l0)) + a.0 + attr_typed_wheres_refs(s.var_params.items@, a.1) + contracts_refs(d.specs@, ContractKind::Requires, a.1) + b.0 + attr_typed_wheres_refs(s.returns.items@, b.1) + contracts_refs(d.specs@, ContractKind::Ensures, b.1));
    }
    match &d.impl_body { Some(ib) => visit_impl_body(g, p, &mut locals, ib), None => {} }
    proof {
        lemma_apply_refs_concat(w1, p, (modifies_refs(d.specs@, l0)) + a.0 + attr_typed_wheres_refs(s.var_params.items@, a.1) + contracts_refs(d.specs@, ContractKind::Requires, a.1) + b.0 + attr_typed_wheres_refs(s.returns.items@, b.1) + contracts_refs(d.specs@, ContractKind::Ensures, b.1), body.0);
        lemma_apply_refs_grows(w1, p, (modifies_refs(d.specs@, l0)) + a.0 + attr_typed_wheres_refs(s.var_params.items@, a.1) + contracts_refs(d.specs@, ContractKind::Requires, a.1) + b.0 + attr_typed_wheres_refs(s.returns.items@, b.1) + contracts_refs(d.specs@, ContractKind::Ensures, b.1) + body.0);
    }
    visit_sign_attrs(g, p, &locals, &s.attrs);
    proof {
        lemma_apply_refs_concat(w1, p, (modifies_refs(d.specs@, l0)) + a.0 + attr_typed_wheres_refs(s.var_params.items@, a.1) + contracts_refs(d.specs@, ContractKind::Requires, a.1) + b.0 + attr_typed_wheres_refs(s.returns.items@, b.1) + contracts_refs(d.specs@, ContractKind::Ensures, b.1) + body.0, attrs_refs(proc_attrs(*s), body.1));
        lemma_apply_refs_grows(w1, p, (modifies_refs(d.specs@, l0)) + a.0 + attr_typed_wheres_refs(s.var_params.items@, a.1) + contracts_refs(d.specs@, ContractKind::Requires, a.1) + b.0 + attr_typed_wheres_refs(s.returns.items@, b.1) + contracts_refs(d.specs@, ContractKind::Ensures, b.1) + body.0 + attrs_refs(proc_attrs(*s), body.1));
    }
}


/// The graph after one type of a type declaration whose node is `p`.
fn visit_type_decl(g: &mut ReachabilityGraph, p: usize, td: &Spanned<TypeDecl>)
    requires
        old(g).wf(),
        p < old(g).nodes().len(),
    ensures
        final(g).wf(),
        final(g).view_of() == type_decl_effect(old(g).view_of(), p, *td),
        final(g).nodes().len() >= old(g).nodes().len(),
{
    let ghost v0 = g.view_of();
    let k = g.add_node(td.span);
    g.attach_root_to_node(p, k);
    let ghost w1 = g.view_of();
    g.attach_ident_to_node(k, Spanned { span: RawSpan::new(0, 0), value: NamespacedIdent(td.value.ident.clone(), Namespace::Type) });
    let ghost w2 = g.view_of();
    assert(w2.nodes.len() >= w1.nodes.len());
    let mut locals = no_locals();
    let ps = &td.value.type_params;
    let n = ps.len();
    let mut i: usize = 0;
    while i < n
        invariant
            n == ps@.len(),
            i <= n,
            local_keys(locals@) == type_params_keys(ps@.subrange(0, i as int)),
        decreases n - i,
    {
        declare_local_ident(&mut locals, &ps[i], Namespace::Type);
        proof {
            let b = ps@.subrange(0, i + 1);
            assert(b.subrange(0, b.len() - 1) =~= ps@.subrange(0, i as int));
        }
        i += 1;
    }
    assert(ps@.subrange(0, n as int) =~= ps@);
    match &td.value.type_ {
        Some(t) => {
            visit_type(g, k, &locals, t);
            proof { lemma_apply_refs_grows(w2, k, type_refs(*t, type_params_keys(ps@))); }
        },
        None => {},
    }
}

/// The graph after a type declaration.
fn visit_type_decls(g: &mut ReachabilityGraph, span: RawSpan, d: &TypeDecls)
    requires
        old(g).wf(),
    ensures
        final(g).wf(),
        final(g).view_of() == type_decls_effect(old(g).view_of(), span, *d),
{
    let ghost v0 = g.view_of();
    let p = g.add_decl_node(span);
    let ghost w0 = g.view_of();
    let n = d.decls.len();
    let mut i: usize = 0;
    while i < n
        invariant
            n == d.decls@.len(),
            i <= n,
            g.wf(),
            p < g.nodes().len(),
            g.view_of() == type_decls_fold(w0, p, d.decls@.subrange(0, i as int)),
        decreases n - i,
    {
        visit_type_decl(g, p, &d.decls[i]);
        proof {
            let b = d.decls@.subrange(0, i + 1);
            assert(b.subrange(0, b.len() - 1) =~= d.decls@.subrange(0, i as int));
            assert(b[b.len() - 1] == d.decls@[i as int]);
        }
        i += 1;
    }
    assert(d.decls@.subrange(0, n as int) =~= d.decls@);
    let locals = no_locals();
    visit_attrs(g, p, &locals, &d.attrs);
}

/// The graph after one item of a variable declaration whose node is `p`.
fn visit_var_item(g: &mut ReachabilityGraph, p: usize, x: &Spanned<TypedIdentsWhere>)
    requires
        old(g).wf(),
        p < old(g).nodes().len(),
    ensures
        final(g).wf(),
        final(g).view_of() == var_item_effect(old(g).view_of(), p, *x),
        final(g).nodes().len() >= old(g).nodes().len(),
{
    let k = g.add_node(x.span);
    g.attach_root_to_node(p, k);
    declare_global_idents(g, k, &x.value.typed_idents.idents.idents, Namespace::Var);
    let ghost w2 = g.view_of();
    let locals = no_locals();
    visit_type(g, k, &locals, &x.value.typed_idents.type_);
    proof { lemma_apply_refs_grows(w2, k, type_refs(x.value.typed_idents.type_, Set::empty())); }
}

/// The graph after a variable declaration.
fn visit_var_decl(g: &mut ReachabilityGraph, span: RawSpan, d: &VarDecl)
    requires
        old(g).wf(),
    ensures
        final(g).wf(),
        final(g).view_of() == var_decl_effect(old(g).view_of(), span, *d),
{
    let ghost v0 = g.view_of();
    let p = g.add_decl_node(span);
    let ghost w0 = g.view_of();
    let items = &d.vars.items;
    let n = items.len();
    let mut i: usize = 0;
    while i < n
        invariant
            n == items@.len(),
            i <= n,
            g.wf(),
            p < g.nodes().len(),
            g.view_of() == var_items_fold(w0, p, items@.subrange(0, i as int)),
        decreases n - i,
    {
        visit_var_item(g, p, &items[i]);
        proof {
            let b = items@.subrange(0, i + 1);
            assert(b.subrange(0, b.len() - 1) =~= items@.subrange(0, i as int));
            assert(b[b.len() - 1] == items@[i as int]);
        }
        i += 1;
    }
    assert(items@.subrange(0, n as int) =~= items@);
    let ghost w1 = g.view_of();
    let node_roots = g.node_roots(p);
    let mut roots: Vec<usize> = Vec::new();
    let m = node_roots.len();
    let mut j: usize = 0;
    while j < m
        invariant
            m == node_roots@.len(),
            j <= m,
            roots@ == node_roots@.subrange(0, j as int),
        decreases m - j,
    {
        roots.push(node_roots[j]);
        assert(node_roots@.subrange(0, j + 1) =~= node_roots@.subrange(0, j as int).push(node_roots@[j as int]));
        j += 1;
    }
    assert(node_roots@.subrange(0, m as int) =~= node_roots@);
    assert(roots@ == w1.nodes[p as int].1);
    let count = if n <= m {
        n
    } else {
        m
    };
    let locals = no_locals();
    let mut j: usize = 0;
    while j < count
        invariant
            count <= n,
            count <= roots@.len(),
            n == items@.len(),
            j <= count,
            g.wf(),
            p < g.nodes().len(),
            g.nodes().len() >= w1.nodes.len(),
            forall|r: int| 0 <= r < roots@.len() ==> #[trigger] roots@[r] < w1.nodes.len(),
            local_keys(locals@) == Set::<IdentKey>::empty(),
            g.view_of() == var_wheres_fold(w1, items@, roots@, j as nat),
        decreases count - j,
    {
        let ghost v1 = g.view_of();
        match &items[j].value.where_ {
            Some(e) => {
                visit_expr(g, roots[j], &locals, e);
                proof { lemma_apply_refs_grows(v1, roots@[j as int], expr_refs(*e, Set::empty())); }
            },
            None => {},
        }
        j += 1;
    }
    let ghost w2 = g.view_of();
    proof { lemma_apply_refs_grows(w2, p, attrs_refs(d.attrs@, Set::empty())); }
    visit_attrs(g, p, &locals, &d.attrs);
}

/// The graph after a declaration; `prune` says whether the data type of a
/// constructor may be pruned.
fn visit_decl(g: &mut ReachabilityGraph, d: &Spanned<Decl>, prune: bool)
    requires
        old(g).wf(),
    ensures
        final(g).wf(),
        final(g).view_of() == decl_effect(old(g).view_of(), *d, prune),
{
    match &d.value {
        Decl::Axiom(a) => visit_axiom_decl(g, d.span, a),
        Decl::Const(c) => visit_const_decl(g, d.span, c),
        Decl::Func(f) => visit_func_decl(g, d.span, f, prune),
        Decl::Impl(i) => visit_impl_decl(g, d.span, i),
        Decl::Proc(x) => visit_proc_decl(g, d.span, x),
        Decl::Type(t) => visit_type_decls(g, d.span, t),
        Decl::Var(x) => visit_var_decl(g, d.span, x),
    }
}

/// The reachability graph of a program. `prune` holds, for each
/// declaration, whether the data type of a constructor function may be
/// pruned: then the type does not keep the constructor.
pub fn build_reachability_graph(program: &BoogieProgram, prune: &Vec<bool>) -> (r: ReachabilityGraph)
    requires
        prune@.len() == program.decls@.len(),
    ensures
        r.wf(),
        r.view_of() == program_graph(program.decls@, prune@),
{
    let mut g = ReachabilityGraph::new();
    proof {
        assert(g.view_of().nodes =~= empty_view().nodes);
        assert(g.view_of().decls =~= empty_view().decls);
        assert(g.view_of() == empty_view());
        assert(program.decls@.subrange(0, 0) =~= Seq::<Spanned<Decl>>::empty());
    }
    let n = program.decls.len();
    let mut i: usize = 0;
    while i < n
        invariant
            n == program.decls@.len(),
            prune@.len() == n,
            i <= n,
            g.wf(),
            g.view_of() == program_graph(program.decls@.subrange(0, i as int), prune@),
        decreases n - i,
    {
        visit_decl(&mut g, &program.decls[i], prune[i]);
        proof {
            let b = program.decls@.subrange(0, i + 1);
            assert(b.subrange(0, b.len() - 1) =~= program.decls@.subrange(0, i as int));
            assert(b[b.len() - 1] == program.decls@[i as int]);
        }
        i += 1;
    }
    assert(program.decls@.subrange(0, n as int) =~= program.decls@);
    g
}


/// Declaring global identifiers adds no declaration.
proof fn lemma_declare_globals_decls(v: GraphView, p: usize, ids: Seq<Spanned<Ident>>, namespace: Namespace)
    ensures
        declare_globals(v, p, ids, namespace).decls == v.decls,
    decreases ids.len(),
{
    if ids.len() > 0 {
        lemma_declare_globals_decls(v, p, ids.subrange(0, ids.len() - 1), namespace);
    }
}

/// The types of a type declaration add no declaration.
proof fn lemma_type_decls_fold_decls(v: GraphView, p: usize, tds: Seq<Spanned<TypeDecl>>)
    ensures
        type_decls_fold(v, p, tds).decls == v.decls,
    decreases tds.len(),
{
    if tds.len() > 0 {
        let w = type_decls_fold(v, p, tds.subrange(0, tds.len() - 1));
        lemma_type_decls_fold_decls(v, p, tds.subrange(0, tds.len() - 1));
        let td = tds[tds.len() - 1];
        let k = w.nodes.len() as usize;
        let w2 = view_attach_ident(view_attach_root(view_add_node(w, td.span), p, k), k, (td.value.ident@, Namespace::Type), no_span());
        match td.value.type_ {
            Some(t) => lemma_apply_refs_grows(w2, k, type_refs(t, type_params_keys(td.value.type_params@))),
            None => {},
        }
    }
}

/// The items of a variable declaration add no declaration.
proof fn lemma_var_items_fold_decls(v: GraphView, p: usize, xs: Seq<Spanned<TypedIdentsWhere>>)
    ensures
        var_items_fold(v, p, xs).decls == v.decls,
    decreases xs.len(),
{
    if xs.len() > 0 {
        let w = var_items_fold(v, p, xs.subrange(0, xs.len() - 1));
        lemma_var_items_fold_decls(v, p, xs.subrange(0, xs.len() - 1));
        let x = xs[xs.len() - 1];
        let k = w.nodes.len() as usize;
        let w1 = view_attach_root(view_add_node(w, x.span), p, k);
        lemma_declare_globals_decls(w1, k, x.value.typed_idents.idents.idents@, Namespace::Var);
        let w2 = declare_globals(w1, k, x.value.typed_idents.idents.idents@, Namespace::Var);
        lemma_apply_refs_grows(w2, k, type_refs(x.value.typed_idents.type_, Set::empty()));
    }
}

/// The `where` clauses of a variable declaration add no declaration.
proof fn lemma_var_wheres_fold_decls(v: GraphView, xs: Seq<Spanned<TypedIdentsWhere>>, nodes: Seq<usize>, n: nat)
    ensures
        var_wheres_fold(v, xs, nodes, n).decls == v.decls,
    decreases n,
{
    if n > 0 {
        lemma_var_wheres_fold_decls(v, xs, nodes, (n - 1) as nat);
        let w = var_wheres_fold(v, xs, nodes, (n - 1) as nat);
        match xs[n - 1].value.where_ {
            Some(e) => lemma_apply_refs_grows(w, nodes[n - 1], expr_refs(e, Set::empty())),
            None => {},
        }
    }
}

/// Each declaration adds one declaration node, after the others.
pub proof fn lemma_decl_effect_decls(v: GraphView, d: Spanned<Decl>, prune: bool)
    ensures
        decl_effect(v, d, prune).decls == v.decls.push(v.nodes.len() as usize),
{
    let p = v.nodes.len() as usize;
    let w0 = view_add_decl_node(v, d.span);
    match d.value {
        Decl::Axiom(a) => {
            lemma_apply_refs_grows(w0, p, attrs_refs(a.attrs@, Set::empty()) + expr_refs(a.proposition, Set::empty()));
        },
        Decl::Const(c) => {
            let w1 = apply_refs(w0, p, attrs_refs(c.attrs@, Set::empty()));
            lemma_apply_refs_grows(w0, p, attrs_refs(c.attrs@, Set::empty()));
            lemma_declare_globals_decls(w1, p, c.consts.idents.idents@, Namespace::Var);
            let w2 = declare_globals(w1, p, c.consts.idents.idents@, Namespace::Var);
            lemma_apply_refs_grows(w2, p, type_refs(c.consts.type_, Set::empty()));
            let w3 = apply_refs(w2, p, type_refs(c.consts.type_, Set::empty()));
            match c.order_spec {
                Some(o) => lemma_apply_refs_grows(w3, p, order_parents_refs(o.parents@)),
                None => {},
            }
        },
        Decl::Func(f) => {
            let w1 = view_attach_ident(w0, p, (f.ident@, Namespace::Func), no_span());
            let sig = func_sign_decls(f);
            lemma_apply_refs_grows(w1, p, sig.0);
            let w2 = apply_refs(w1, p, sig.0);
            let w3 = match ctor_data_type(f) {
                Some(dt) => if prune {
                    w2
                } else {
                    ctor_edge(w2, p, (dt@, Namespace::Type))
                },
                None => w2,
            };
            lemma_apply_refs_grows(w3, p, attrs_refs(f.attrs@, sig.1));
            let w4 = apply_refs(w3, p, attrs_refs(f.attrs@, sig.1));
            match f.body {
                Some(b) => lemma_apply_refs_grows(w4, p, expr_refs(b, sig.1)),
                None => {},
            }
        },
        Decl::Impl(i) => {
            let w = view_attach_ident(w0, p, (i.proc_sign.ident.value@, Namespace::Proc), no_span());
            lemma_apply_refs_grows(w, p, impl_refs(i));
        },
        Decl::Proc(x) => {
            let w = view_attach_ident(w0, p, (x.proc_sign.ident.value@, Namespace::Proc), no_span());
            lemma_apply_refs_grows(w, p, proc_refs(x));
        },
        Decl::Type(t) => {
            lemma_type_decls_fold_decls(w0, p, t.decls@);
            lemma_apply_refs_grows(type_decls_fold(w0, p, t.decls@), p, attrs_refs(t.attrs@, Set::empty()));
        },
        Decl::Var(x) => {
            lemma_var_items_fold_decls(w0, p, x.vars.items@);
            let w1 = var_items_fold(w0, p, x.vars.items@);
            let roots = w1.nodes[p as int].1;
            let n = if x.vars.items@.len() <= roots.len() {
                x.vars.items@.len()
            } else {
                roots.len()
            };
            lemma_var_wheres_fold_decls(w1, x.vars.items@, roots, n);
            lemma_apply_refs_grows(var_wheres_fold(w1, x.vars.items@, roots, n), p, attrs_refs(x.attrs@, Set::empty()));
        },
    }
}

/// The graph of a program has one declaration node per declaration.
pub proof fn lemma_program_graph_decls(decls: Seq<Spanned<Decl>>, prune: Seq<bool>)
    ensures
        program_graph(decls, prune).decls.len() == decls.len(),
    decreases decls.len(),
{
    if decls.len() > 0 {
        lemma_program_graph_decls(decls.subrange(0, decls.len() - 1), prune);
        lemma_decl_effect_decls(
            program_graph(decls.subrange(0, decls.len() - 1), prune),
            decls[decls.len() - 1],
            prune[decls.len() - 1],
        );
    }
}

// ---------------------------------------------------------------------
// The graph only grows.
// ---------------------------------------------------------------------

/// `w` extends `v`: it keeps every node, edge, declaration node, and the
/// node of every identifier of `v`.
pub open spec fn view_grows(v: GraphView, w: GraphView) -> bool {
    &&& v.nodes.len() <= w.nodes.len()
    &&& forall|e: (usize, usize)| #[trigger] v.edges.count(e) <= w.edges.count(e)
    &&& forall|k: IdentKey| #[trigger] v.idents.contains_key(k) ==> w.idents.contains_key(k) && w.idents[k] == v.idents[k]
    &&& v.decls.len() <= w.decls.len()
    &&& forall|i: int| 0 <= i < v.decls.len() ==> #[trigger] w.decls[i] == v.decls[i]
}

/// Every identifier's node is a node of the graph.
pub open spec fn idents_within(v: GraphView) -> bool {
    forall|k: IdentKey| #[trigger] v.idents.contains_key(k) ==> v.idents[k] < v.nodes.len()
}

proof fn lemma_grows_refl(v: GraphView)
    ensures
        view_grows(v, v),
{
}

proof fn lemma_grows_trans(u: GraphView, v: GraphView, w: GraphView)
    requires
        view_grows(u, v),
        view_grows(v, w),
    ensures
        view_grows(u, w),
{
    assert forall|e: (usize, usize)| #[trigger] u.edges.count(e) <= w.edges.count(e) by {
        assert(u.edges.count(e) <= v.edges.count(e));
    }
    assert forall|k: IdentKey| #[trigger] u.idents.contains_key(k) implies w.idents.contains_key(k) && w.idents[k] == u.idents[k] by {
        assert(v.idents.contains_key(k));
    }
    assert forall|i: int| 0 <= i < u.decls.len() implies #[trigger] w.decls[i] == u.decls[i] by {
        assert(v.decls[i] == u.decls[i]);
    }
}

/// Adding an edge keeps everything else.
proof fn lemma_edge_insert_grows(v: GraphView, w: GraphView, x: (usize, usize))
    requires
        w == (GraphView { edges: v.edges.insert(x), ..v }),
    ensures
        view_grows(v, w),
        idents_within(v) ==> idents_within(w),
        has_edge(w.edges, x.0, x.1),
{
    broadcast use vstd::multiset::group_multiset_properties;
}

proof fn lemma_add_node_grows(v: GraphView, span: RawSpan)
    ensures
        view_grows(v, view_add_node(v, span)),
        idents_within(v) ==> idents_within(view_add_node(v, span)),
        view_add_decl_node(v, span).decls == v.decls.push(v.nodes.len() as usize),
        view_grows(v, view_add_decl_node(v, span)),
        idents_within(v) ==> idents_within(view_add_decl_node(v, span)),
{
}

proof fn lemma_attach_root_grows(v: GraphView, parent: usize, root: usize)
    requires
        parent < v.nodes.len(),
    ensures
        view_grows(v, view_attach_root(v, parent, root)),
        idents_within(v) ==> idents_within(view_attach_root(v, parent, root)),
{
    broadcast use vstd::multiset::group_multiset_properties;
}

proof fn lemma_attach_ident_grows(v: GraphView, parent: usize, k: IdentKey, span: RawSpan)
    requires
        parent < v.nodes.len(),
    ensures
        view_grows(v, view_attach_ident(v, parent, k, span)),
        idents_within(v) ==> idents_within(view_attach_ident(v, parent, k, span)),
        view_attach_ident(v, parent, k, span).idents.contains_key(k),
        has_edge(view_attach_ident(v, parent, k, span).edges, view_attach_ident(v, parent, k, span).idents[k], parent),
{
    broadcast use vstd::multiset::group_multiset_properties;

    let g = view_get_ident(v, k, span);
    assert(view_grows(v, g));
    lemma_attach_root_grows(g, parent, view_ident_node(v, k));
    lemma_grows_trans(v, g, view_attach_ident(v, parent, k, span));
}

/// References keep what the graph had, and afterwards `p` has an edge to
/// the node of each referred identifier.
proof fn lemma_apply_refs_edges(v: GraphView, p: usize, ks: Seq<IdentKey>)
    ensures
        view_grows(v, apply_refs(v, p, ks)),
        idents_within(v) ==> idents_within(apply_refs(v, p, ks)),
        forall|k: IdentKey| #[trigger] ks.contains(k) ==> apply_refs(v, p, ks).idents.contains_key(k)
            && has_edge(apply_refs(v, p, ks).edges, p, apply_refs(v, p, ks).idents[k]),
    decreases ks.len(),
{
    broadcast use vstd::multiset::group_multiset_properties;

    if ks.len() > 0 {
        let init = ks.drop_last();
        lemma_apply_refs_edges(v, p, init);
        let u = apply_refs(v, p, init);
        let w = apply_refs(v, p, ks);
        assert(w == apply_ref(u, p, ks.last()));
        assert(view_grows(u, w));
        lemma_grows_trans(v, u, w);
        assert forall|k: IdentKey| #[trigger] ks.contains(k) implies w.idents.contains_key(k) && has_edge(w.edges, p, w.idents[k]) by {
            if k != ks.last() {
                let j = choose|j: int| 0 <= j < ks.len() && ks[j] == k;
                assert(init[j] == k);
                assert(init.contains(k));
                assert(u.edges.count((p, u.idents[k])) <= w.edges.count((p, u.idents[k])));
            }
        }
    }
}

proof fn lemma_declare_globals_grows(v: GraphView, p: usize, ids: Seq<Spanned<Ident>>, namespace: Namespace)
    requires
        p < v.nodes.len(),
    ensures
        view_grows(v, declare_globals(v, p, ids, namespace)),
        idents_within(v) ==> idents_within(declare_globals(v, p, ids, namespace)),
    decreases ids.len(),
{
    if ids.len() > 0 {
        let init = ids.subrange(0, ids.len() - 1);
        lemma_declare_globals_grows(v, p, init, namespace);
        let u = declare_globals(v, p, init, namespace);
        let x = ids[ids.len() - 1];
        lemma_attach_ident_grows(u, p, (x.value@, namespace), x.span);
        lemma_grows_trans(v, u, declare_globals(v, p, ids, namespace));
    }
}

proof fn lemma_type_decls_fold_grows(v: GraphView, p: usize, tds: Seq<Spanned<TypeDecl>>)
    requires
        p < v.nodes.len(),
    ensures
        view_grows(v, type_decls_fold(v, p, tds)),
        idents_within(v) ==> idents_within(type_decls_fold(v, p, tds)),
    decreases tds.len(),
{
    if tds.len() > 0 {
        let init = tds.subrange(0, tds.len() - 1);
        lemma_type_decls_fold_grows(v, p, init);
        let u = type_decls_fold(v, p, init);
        let td = tds[tds.len() - 1];
        let k = u.nodes.len() as usize;
        let u0 = view_add_node(u, td.span);
        lemma_add_node_grows(u, td.span);
        let u1 = view_attach_root(u0, p, k);
        lemma_attach_root_grows(u0, p, k);
        let u2 = view_attach_ident(u1, k, (td.value.ident@, Namespace::Type), no_span());
        lemma_attach_ident_grows(u1, k, (td.value.ident@, Namespace::Type), no_span());
        lemma_grows_trans(u, u0, u1);
        lemma_grows_trans(u, u1, u2);
        match td.value.type_ {
            Some(t) => {
                lemma_apply_refs_edges(u2, k, type_refs(t, type_params_keys(td.value.type_params@)));
                lemma_grows_trans(u, u2, type_decls_fold(v, p, tds));
            },
            None => {},
        }
        lemma_grows_trans(v, u, type_decls_fold(v, p, tds));
    }
}

proof fn lemma_var_items_fold_grows(v: GraphView, p: usize, xs: Seq<Spanned<TypedIdentsWhere>>)
    requires
        p < v.nodes.len(),
    ensures
        view_grows(v, var_items_fold(v, p, xs)),
        idents_within(v) ==> idents_within(var_items_fold(v, p, xs)),
    decreases xs.len(),
{
    if xs.len() > 0 {
        let init = xs.subrange(0, xs.len() - 1);
        lemma_var_items_fold_grows(v, p, init);
        let u = var_items_fold(v, p, init);
        let x = xs[xs.len() - 1];
        let k = u.nodes.len() as usize;
        let u0 = view_add_node(u, x.span);
        lemma_add_node_grows(u, x.span);
        let u1 = view_attach_root(u0, p, k);
        lemma_attach_root_grows(u0, p, k);
        let u2 = declare_globals(u1, k, x.value.typed_idents.idents.idents@, Namespace::Var);
        lemma_declare_globals_grows(u1, k, x.value.typed_idents.idents.idents@, Namespace::Var);
        lemma_apply_refs_edges(u2, k, type_refs(x.value.typed_idents.type_, Set::empty()));
        lemma_grows_trans(u, u0, u1);
        lemma_grows_trans(u, u1, u2);
        lemma_grows_trans(u, u2, var_items_fold(v, p, xs));
        lemma_grows_trans(v, u, var_items_fold(v, p, xs));
    }
}

proof fn lemma_var_wheres_fold_grows(v: GraphView, xs: Seq<Spanned<TypedIdentsWhere>>, nodes: Seq<usize>, n: nat)
    ensures
        view_grows(v, var_wheres_fold(v, xs, nodes, n)),
        idents_within(v) ==> idents_within(var_wheres_fold(v, xs, nodes, n)),
    decreases n,
{
    if n > 0 {
        lemma_var_wheres_fold_grows(v, xs, nodes, (n - 1) as nat);
        let u = var_wheres_fold(v, xs, nodes, (n - 1) as nat);
        match xs[n - 1].value.where_ {
            Some(e) => {
                lemma_apply_refs_edges(u, nodes[n - 1], expr_refs(e, Set::empty()));
                lemma_grows_trans(v, u, var_wheres_fold(v, xs, nodes, n));
            },
            None => {},
        }
    }
}

/// A kept edge from `p` to the node of `k` stays in a graph that grows.
proof fn lemma_ref_edge_kept(u: GraphView, w: GraphView, p: usize, k: IdentKey)
    requires
        view_grows(u, w),
        u.idents.contains_key(k),
        has_edge(u.edges, p, u.idents[k]),
    ensures
        w.idents.contains_key(k),
        has_edge(w.edges, p, w.idents[k]),
{
    assert(u.edges.count((p, u.idents[k])) <= w.edges.count((p, u.idents[k])));
}

/// What the node of a declaration itself refers to: for an axiom, what its
/// attributes and proposition refer to; for a function, what its signature,
/// attributes and body refer to; for a procedure or an implementation, what
/// its signature, contracts, body and attributes refer to; for a constant,
/// what its attributes, type and order specification refer to; for type and
/// variable declarations, what their attributes refer to.
pub open spec fn decl_node_refs(d: Decl) -> Seq<IdentKey> {
    match d {
        Decl::Axiom(a) => attrs_refs(a.attrs@, Set::empty()) + expr_refs(a.proposition, Set::empty()),
        Decl::Const(c) => attrs_refs(c.attrs@, Set::empty()) + type_refs(c.consts.type_, Set::empty())
            + match c.order_spec {
            Some(o) => order_parents_refs(o.parents@),
            None => Seq::empty(),
        },
        Decl::Func(f) => {
            let sig = func_sign_decls(f);
            sig.0 + attrs_refs(f.attrs@, sig.1) + match f.body {
                Some(b) => expr_refs(b, sig.1),
                None => Seq::empty(),
            }
        },
        Decl::Impl(i) => impl_refs(i),
        Decl::Proc(x) => proc_refs(x),
        Decl::Type(t) => attrs_refs(t.attrs@, Set::empty()),
        Decl::Var(x) => attrs_refs(x.attrs@, Set::empty()),
    }
}

/// The function or procedure that a declaration declares, if any.
pub open spec fn decl_callable_name(d: Decl) -> Option<IdentKey> {
    match d {
        Decl::Func(f) => Some((f.ident@, Namespace::Func)),
        Decl::Impl(i) => Some((i.proc_sign.ident.value@, Namespace::Proc)),
        Decl::Proc(x) => Some((x.proc_sign.ident.value@, Namespace::Proc)),
        _ => None,
    }
}

/// A kept edge from the node of `k` to `p` stays in a graph that grows.
proof fn lemma_root_edge_kept(u: GraphView, w: GraphView, k: IdentKey, p: usize)
    requires
        view_grows(u, w),
        u.idents.contains_key(k),
        has_edge(u.edges, u.idents[k], p),
    ensures
        w.idents.contains_key(k),
        has_edge(w.edges, w.idents[k], p),
{
    assert(u.edges.count((u.idents[k], p)) <= w.edges.count((u.idents[k], p)));
}

/// A declaration keeps what the graph had, and its node has an edge to the
/// node of every identifier it refers to; the node of the function or
/// procedure it declares has an edge to it.
proof fn lemma_decl_effect_edges(v: GraphView, d: Spanned<Decl>, prune: bool)
    ensures
        decl_callable_name(d.value) matches Some(n) ==> decl_effect(v, d, prune).idents.contains_key(n)
            && has_edge(decl_effect(v, d, prune).edges, decl_effect(v, d, prune).idents[n], v.nodes.len() as usize),
        view_grows(v, decl_effect(v, d, prune)),
        idents_within(v) ==> idents_within(decl_effect(v, d, prune)),
        v.nodes.len() < decl_effect(v, d, prune).nodes.len(),
        forall|k: IdentKey| #[trigger] decl_node_refs(d.value).contains(k) ==> decl_effect(v, d, prune).idents.contains_key(k)
            && has_edge(decl_effect(v, d, prune).edges, v.nodes.len() as usize, decl_effect(v, d, prune).idents[k]),
{
    let p = v.nodes.len() as usize;
    let w0 = view_add_decl_node(v, d.span);
    let w = decl_effect(v, d, prune);
    lemma_add_node_grows(v, d.span);
    match d.value {
        Decl::Axiom(a) => {
            let r = attrs_refs(a.attrs@, Set::empty()) + expr_refs(a.proposition, Set::empty());
            lemma_apply_refs_edges(w0, p, r);
            lemma_grows_trans(v, w0, w);
        },
        Decl::Const(c) => {
            let ra = attrs_refs(c.attrs@, Set::empty());
            let rt = type_refs(c.consts.type_, Set::empty());
            let w1 = apply_refs(w0, p, ra);
            lemma_apply_refs_edges(w0, p, ra);
            let w2 = declare_globals(w1, p, c.consts.idents.idents@, Namespace::Var);
            lemma_declare_globals_grows(w1, p, c.consts.idents.idents@, Namespace::Var);
            let w3 = apply_refs(w2, p, rt);
            lemma_apply_refs_edges(w2, p, rt);
            let ro = match c.order_spec {
                Some(o) => order_parents_refs(o.parents@),
                None => Seq::empty(),
            };
            lemma_apply_refs_edges(w3, p, ro);
            assert(w == apply_refs(w3, p, ro)) by {
                if c.order_spec is None {
                    assert(ro.len() == 0);
                }
            }
            lemma_grows_trans(w0, w1, w2);
            lemma_grows_trans(w2, w3, w);
            lemma_grows_trans(w1, w2, w);
            lemma_grows_trans(w0, w1, w);
            lemma_grows_trans(v, w0, w);
            assert forall|k: IdentKey| #[trigger] decl_node_refs(d.value).contains(k) implies w.idents.contains_key(k)
                && has_edge(w.edges, p, w.idents[k]) by {
                lemma_concat_contains(ra + rt, ro, k);
                lemma_concat_contains(ra, rt, k);
                if ra.contains(k) {
                    lemma_ref_edge_kept(w1, w, p, k);
                } else if rt.contains(k) {
                    lemma_ref_edge_kept(w3, w, p, k);
                }
            }
        },
        Decl::Func(f) => {
            let w1 = view_attach_ident(w0, p, (f.ident@, Namespace::Func), no_span());
            lemma_attach_ident_grows(w0, p, (f.ident@, Namespace::Func), no_span());
            let sig = func_sign_decls(f);
            let w2 = apply_refs(w1, p, sig.0);
            lemma_apply_refs_edges(w1, p, sig.0);
            let w3 = match ctor_data_type(f) {
                Some(dt) => if prune {
                    w2
                } else {
                    ctor_edge(w2, p, (dt@, Namespace::Type))
                },
                None => w2,
            };
            assert(view_grows(w2, w3) && (idents_within(w2) ==> idents_within(w3))) by {
                broadcast use vstd::multiset::group_multiset_properties;

                match ctor_data_type(f) {
                    Some(dt) => if !prune {
                        let g = view_get_ident(w2, (dt@, Namespace::Type), no_span());
                        assert(view_grows(w2, g));
                        lemma_edge_insert_grows(g, w3, (view_ident_node(w2, (dt@, Namespace::Type)), p));
                        lemma_grows_trans(w2, g, w3);
                    },
                    None => {},
                }
            }
            let ra = attrs_refs(f.attrs@, sig.1);
            let w4 = apply_refs(w3, p, ra);
            lemma_apply_refs_edges(w3, p, ra);
            let rb = match f.body {
                Some(b) => expr_refs(b, sig.1),
                None => Seq::empty(),
            };
            lemma_apply_refs_edges(w4, p, rb);
            assert(w == apply_refs(w4, p, rb)) by {
                if f.body is None {
                    assert(rb.len() == 0);
                }
            }
            lemma_grows_trans(w3, w4, w);
            lemma_grows_trans(w2, w3, w);
            lemma_grows_trans(w1, w2, w);
            lemma_grows_trans(w0, w1, w);
            lemma_grows_trans(v, w0, w);
            lemma_root_edge_kept(w1, w, (f.ident@, Namespace::Func), p);
            assert forall|k: IdentKey| #[trigger] decl_node_refs(d.value).contains(k) implies w.idents.contains_key(k)
                && has_edge(w.edges, p, w.idents[k]) by {
                lemma_concat_contains(sig.0 + ra, rb, k);
                lemma_concat_contains(sig.0, ra, k);
                if sig.0.contains(k) {
                    lemma_ref_edge_kept(w2, w, p, k);
                } else if ra.contains(k) {
                    lemma_ref_edge_kept(w4, w, p, k);
                }
            }
        },
        Decl::Impl(i) => {
            let w1 = view_attach_ident(w0, p, (i.proc_sign.ident.value@, Namespace::Proc), no_span());
            lemma_attach_ident_grows(w0, p, (i.proc_sign.ident.value@, Namespace::Proc), no_span());
            lemma_apply_refs_edges(w1, p, impl_refs(i));
            lemma_root_edge_kept(w1, w, (i.proc_sign.ident.value@, Namespace::Proc), p);
            lemma_grows_trans(w0, w1, w);
            lemma_grows_trans(v, w0, w);
        },
        Decl::Proc(x) => {
            let w1 = view_attach_ident(w0, p, (x.proc_sign.ident.value@, Namespace::Proc), no_span());
            lemma_attach_ident_grows(w0, p, (x.proc_sign.ident.value@, Namespace::Proc), no_span());
            lemma_apply_refs_edges(w1, p, proc_refs(x));
            lemma_root_edge_kept(w1, w, (x.proc_sign.ident.value@, Namespace::Proc), p);
            lemma_grows_trans(w0, w1, w);
            lemma_grows_trans(v, w0, w);
        },
        Decl::Type(t) => {
            let w1 = type_decls_fold(w0, p, t.decls@);
            lemma_type_decls_fold_grows(w0, p, t.decls@);
            lemma_apply_refs_edges(w1, p, attrs_refs(t.attrs@, Set::empty()));
            lemma_grows_trans(w0, w1, w);
            lemma_grows_trans(v, w0, w);
        },
        Decl::Var(x) => {
            let w1 = var_items_fold(w0, p, x.vars.items@);
            lemma_var_items_fold_grows(w0, p, x.vars.items@);
            let roots = w1.nodes[p as int].1;
            let n = if x.vars.items@.len() <= roots.len() {
                x.vars.items@.len()
            } else {
                roots.len()
            };
            let w2 = var_wheres_fold(w1, x.vars.items@, roots, n);
            lemma_var_wheres_fold_grows(w1, x.vars.items@, roots, n);
            lemma_apply_refs_edges(w2, p, attrs_refs(x.attrs@, Set::empty()));
            lemma_grows_trans(w1, w2, w);
            lemma_grows_trans(w0, w1, w);
            lemma_grows_trans(v, w0, w);
        },
    }
}

/// The graph of a prefix of the declarations is part of the graph of all
/// of them, and every identifier's node is one of its nodes.
pub proof fn lemma_program_graph_prefix(decls: Seq<Spanned<Decl>>, prune: Seq<bool>, j: int)
    requires
        0 <= j <= decls.len(),
    ensures
        view_grows(program_graph(decls.subrange(0, j), prune), program_graph(decls, prune)),
        idents_within(program_graph(decls, prune)),
    decreases decls.len(),
{
    if decls.len() == 0 {
        assert(decls.subrange(0, j) =~= decls);
    } else {
        let init = decls.subrange(0, decls.len() - 1);
        let v = program_graph(init, prune);
        lemma_decl_effect_edges(v, decls[decls.len() - 1], prune[decls.len() - 1]);
        if j == decls.len() {
            assert(decls.subrange(0, j) =~= decls);
            lemma_program_graph_prefix(init, prune, 0);
        } else {
            assert(init.subrange(0, j) =~= decls.subrange(0, j));
            lemma_program_graph_prefix(init, prune, j);
            lemma_grows_trans(program_graph(decls.subrange(0, j), prune), v, program_graph(decls, prune));
        }
    }
}

/// The node of declaration `j` has an edge to the node of every identifier
/// that the declaration refers to, in the graph of the whole program.
pub proof fn lemma_decl_node_edges(decls: Seq<Spanned<Decl>>, prune: Seq<bool>, j: int, k: IdentKey)
    requires
        0 <= j < decls.len(),
        decl_node_refs(decls[j].value).contains(k),
        program_graph(decls, prune).nodes.len() <= usize::MAX,
    ensures
        ({
            let v = program_graph(decls, prune);
            &&& j < v.decls.len()
            &&& v.decls[j] < v.nodes.len()
            &&& v.idents.contains_key(k)
            &&& v.idents[k] < v.nodes.len()
            &&& has_edge(v.edges, v.decls[j], v.idents[k])
        }),
{
    let v = program_graph(decls, prune);
    let before = program_graph(decls.subrange(0, j), prune);
    let after = program_graph(decls.subrange(0, j + 1), prune);
    let sub = decls.subrange(0, j + 1);
    assert(sub.subrange(0, sub.len() - 1) =~= decls.subrange(0, j));
    assert(sub[sub.len() - 1] == decls[j]);
    assert(after == decl_effect(before, decls[j], prune[j]));
    lemma_decl_effect_edges(before, decls[j], prune[j]);
    lemma_decl_effect_decls(before, decls[j], prune[j]);
    lemma_program_graph_decls(decls.subrange(0, j), prune);
    lemma_program_graph_prefix(decls, prune, j + 1);
    lemma_ref_edge_kept(after, v, before.nodes.len() as usize, k);
    assert(before.nodes.len() < after.nodes.len() <= v.nodes.len());
    assert(before.decls.len() == j);
    assert(after.decls == before.decls.push(before.nodes.len() as usize));
    assert(after.decls[j] == before.nodes.len());
    assert(v.decls[j] == after.decls[j]);
}

/// In the graph of the whole program, the node of the function or
/// procedure that declaration `j` declares has an edge to the declaration's
/// node.
pub proof fn lemma_decl_name_edge(decls: Seq<Spanned<Decl>>, prune: Seq<bool>, j: int)
    requires
        0 <= j < decls.len(),
        program_graph(decls, prune).nodes.len() <= usize::MAX,
    ensures
        ({
            let v = program_graph(decls, prune);
            &&& j < v.decls.len()
            &&& v.decls[j] < v.nodes.len()
            &&& decl_callable_name(decls[j].value) matches Some(n) ==> v.idents.contains_key(n)
                && v.idents[n] < v.nodes.len() && has_edge(v.edges, v.idents[n], v.decls[j])
        }),
{
    let v = program_graph(decls, prune);
    let before = program_graph(decls.subrange(0, j), prune);
    let after = program_graph(decls.subrange(0, j + 1), prune);
    let sub = decls.subrange(0, j + 1);
    assert(sub.subrange(0, sub.len() - 1) =~= decls.subrange(0, j));
    assert(sub[sub.len() - 1] == decls[j]);
    assert(after == decl_effect(before, decls[j], prune[j]));
    lemma_decl_effect_edges(before, decls[j], prune[j]);
    lemma_decl_effect_decls(before, decls[j], prune[j]);
    lemma_program_graph_decls(decls.subrange(0, j), prune);
    lemma_program_graph_prefix(decls, prune, j + 1);
    assert(before.nodes.len() < after.nodes.len() <= v.nodes.len());
    assert(before.decls.len() == j);
    assert(after.decls == before.decls.push(before.nodes.len() as usize));
    assert(after.decls[j] == before.nodes.len());
    assert(v.decls[j] == after.decls[j]);
    match decl_callable_name(decls[j].value) {
        Some(n) => lemma_root_edge_kept(after, v, n, before.nodes.len() as usize),
        None => {},
    }
}

} // verus!



