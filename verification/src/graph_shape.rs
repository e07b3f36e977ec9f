//! The shape of the reachability graphs of programs: a declaration is
//! rooted at identifiers and at parts, a part only at identifiers, and an
//! identifier at nothing, so roots are at most two levels deep.

use vstd::prelude::*;

use crate::reachability::{
    GraphView, IdentKey, apply_ref, apply_refs, view_add_decl_node, view_add_edge, view_add_node,
    view_attach_ident, view_attach_root, view_get_ident, view_ident_node,
};
use crate::boogie_expr::Spanned;
use crate::bpl_tools::Namespace;
use crate::decl_graph::{
    ctor_data_type, ctor_edge, decl_effect, declare_globals, empty_view, func_sign_decls,
    impl_refs, order_parents_refs, proc_refs, program_graph, type_decl_effect, type_decls_fold,
    type_params_keys, var_item_effect, var_items_fold, var_wheres_fold,
};
use crate::boogie_decl::{ConstDecl, Decl, FuncDecl, TypeDecl, TypeDecls, VarDecl};
use crate::boogie_expr::TypedIdentsWhere;
use crate::reachability::{lemma_apply_refs_grows, no_span};
use crate::shaking::{attrs_refs, expr_refs, type_refs};
use crate::ident::Ident;
use crate::span::RawSpan;

verus! {

/// The roots of node `x`.
pub open spec fn roots_of(v: GraphView, x: int) -> Seq<usize> {
    v.nodes[x].1
}

/// Every root is a node, every identifier's node is a node without roots,
/// and the roots of roots have no roots.
pub open spec fn shallow(v: GraphView) -> bool {
    &&& forall|i: int, j: int|
        0 <= i < v.nodes.len() && 0 <= j < roots_of(v, i).len() ==> #[trigger] roots_of(v, i)[j] < v.nodes.len()
    &&& forall|k: IdentKey|
        #[trigger] v.idents.contains_key(k) ==> v.idents[k] < v.nodes.len() && roots_of(v, v.idents[k] as int).len()
            == 0
    &&& forall|i: int, j: int, l: int|
        0 <= i < v.nodes.len() && 0 <= j < roots_of(v, i).len() && 0 <= l < roots_of(v, roots_of(v, i)[j] as int).len()
            ==> roots_of(v, #[trigger] roots_of(v, roots_of(v, i)[j] as int)[l] as int).len() == 0
}

/// No node has `x` among its roots.
pub open spec fn unrooted(v: GraphView, x: usize) -> bool {
    forall|i: int, j: int| 0 <= i < v.nodes.len() && 0 <= j < roots_of(v, i).len() ==> #[trigger] roots_of(v, i)[j] != x
}

/// Each node that has `x` among its roots is among nobody's roots.
pub open spec fn rooters_unrooted(v: GraphView, x: usize) -> bool {
    forall|i: int, j: int|
        0 <= i < v.nodes.len() && 0 <= j < roots_of(v, i).len() && #[trigger] roots_of(v, i)[j] == x ==> unrooted(v, i as usize)
}

/// Node `x` is no identifier's node.
pub open spec fn not_ident_node(v: GraphView, x: usize) -> bool {
    forall|k: IdentKey| #[trigger] v.idents.contains_key(k) ==> v.idents[k] != x
}

/// `w` keeps the nodes and identifiers of `v` and adds only nodes without
/// roots, and identifiers whose nodes are new.
pub open spec fn extends(v: GraphView, w: GraphView) -> bool {
    &&& w.nodes.len() >= v.nodes.len()
    &&& forall|x: int| 0 <= x < v.nodes.len() ==> #[trigger] w.nodes[x] == v.nodes[x]
    &&& forall|x: int| v.nodes.len() <= x < w.nodes.len() ==> #[trigger] roots_of(w, x).len() == 0
    &&& forall|k: IdentKey|
        #[trigger] w.idents.contains_key(k) ==> (v.idents.contains_key(k) && w.idents[k] == v.idents[k]) || (
        v.nodes.len() <= w.idents[k] < w.nodes.len())
}

/// Extending keeps the shape, and what holds of the old nodes.
pub proof fn lemma_extends_keeps(v: GraphView, w: GraphView, x: usize)
    requires
        shallow(v),
        extends(v, w),
        x < v.nodes.len(),
    ensures
        shallow(w),
        unrooted(v, x) ==> unrooted(w, x),
        rooters_unrooted(v, x) ==> rooters_unrooted(w, x),
        not_ident_node(v, x) ==> not_ident_node(w, x),
        roots_of(w, x as int) == roots_of(v, x as int),
{
    assert forall|i: int, j: int| 0 <= i < w.nodes.len() && 0 <= j < roots_of(w, i).len() implies #[trigger] roots_of(w, i)[j]
        < w.nodes.len() by {
        assert(i < v.nodes.len());
        assert(roots_of(v, i)[j] < v.nodes.len());
    }
    assert forall|k: IdentKey| #[trigger] w.idents.contains_key(k) implies w.idents[k] < w.nodes.len() && roots_of(
        w,
        w.idents[k] as int,
    ).len() == 0 by {
        if v.idents.contains_key(k) && w.idents[k] == v.idents[k] {
            assert(v.idents[k] < v.nodes.len());
        }
    }
    assert forall|i: int, j: int, l: int|
        0 <= i < w.nodes.len() && 0 <= j < roots_of(w, i).len() && 0 <= l < roots_of(w, roots_of(w, i)[j] as int).len()
            implies roots_of(w, #[trigger] roots_of(w, roots_of(w, i)[j] as int)[l] as int).len() == 0 by {
        assert(i < v.nodes.len());
        let r = roots_of(v, i)[j];
        assert(r < v.nodes.len());
        assert(roots_of(v, r as int)[l] < v.nodes.len());
        assert(roots_of(v, roots_of(v, roots_of(v, i)[j] as int)[l] as int).len() == 0);
    }
    if unrooted(v, x) {
        assert forall|i: int, j: int| 0 <= i < w.nodes.len() && 0 <= j < roots_of(w, i).len() implies #[trigger] roots_of(
            w,
            i,
        )[j] != x by {
            assert(i < v.nodes.len());
            assert(roots_of(v, i)[j] != x);
        }
    }
    if rooters_unrooted(v, x) {
        assert forall|i: int, j: int|
            0 <= i < w.nodes.len() && 0 <= j < roots_of(w, i).len() && #[trigger] roots_of(w, i)[j] == x implies unrooted(
            w,
            i as usize,
        ) by {
            assert(i < v.nodes.len());
            assert(roots_of(v, i)[j] == x);
            assert(unrooted(v, i as usize));
            assert forall|a: int, b: int| 0 <= a < w.nodes.len() && 0 <= b < roots_of(w, a).len() implies #[trigger] roots_of(
                w,
                a,
            )[b] != i as usize by {
                assert(a < v.nodes.len());
                assert(roots_of(v, a)[b] != i as usize);
            }
        }
    }
}

/// Extending is transitive.
pub proof fn lemma_extends_trans(u: GraphView, v: GraphView, w: GraphView)
    requires
        extends(u, v),
        extends(v, w),
    ensures
        extends(u, w),
{
    assert forall|x: int| u.nodes.len() <= x < w.nodes.len() implies #[trigger] roots_of(w, x).len() == 0 by {
        if x < v.nodes.len() {
            assert(w.nodes[x] == v.nodes[x]);
            assert(roots_of(v, x).len() == 0);
        }
    }
    assert forall|k: IdentKey| #[trigger] w.idents.contains_key(k) implies (u.idents.contains_key(k) && w.idents[k]
        == u.idents[k]) || (u.nodes.len() <= w.idents[k] < w.nodes.len()) by {
        if v.idents.contains_key(k) && w.idents[k] == v.idents[k] {
            assert(v.idents.contains_key(k));
        }
    }
}

/// An identifier's node gets added, where it has none, as an extension.
pub proof fn lemma_get_ident_extends(v: GraphView, k: IdentKey, span: RawSpan)
    requires
        shallow(v),
        view_get_ident(v, k, span).nodes.len() <= usize::MAX,
    ensures
        extends(v, view_get_ident(v, k, span)),
        view_ident_node(v, k) < view_get_ident(v, k, span).nodes.len(),
        roots_of(view_get_ident(v, k, span), view_ident_node(v, k) as int).len() == 0,
        view_ident_node(v, k) == v.nodes.len() || (v.idents.contains_key(k) && view_ident_node(v, k) == v.idents[k]),
{
}

/// References extend the graph.
pub proof fn lemma_apply_refs_extends(v: GraphView, p: usize, ks: Seq<IdentKey>)
    requires
        shallow(v),
        apply_refs(v, p, ks).nodes.len() <= usize::MAX,
    ensures
        extends(v, apply_refs(v, p, ks)),
        shallow(apply_refs(v, p, ks)),
    decreases ks.len(),
{
    if ks.len() > 0 {
        let w = apply_refs(v, p, ks.drop_last());
        let w2 = apply_ref(w, p, ks.last());
        assert(w2.nodes.len() >= w.nodes.len());
        lemma_apply_refs_extends(v, p, ks.drop_last());
        assert(extends(w, w2)) by {
            if !w.idents.contains_key(ks.last()) {
                assert(w2.nodes[w.nodes.len() as int].1.len() == 0);
            }
        }
        lemma_extends_trans(v, w, w2);
        if w.nodes.len() > 0 {
            lemma_extends_keeps(w, w2, 0);
        } else {
            assert(shallow(w2));
        }
    } else {
        assert(apply_refs(v, p, ks) == v);
    }
}


/// Rooting `p` at a node `r` without roots keeps the shape, where `p` is no
/// identifier's node and whatever has `p` among its roots is among nobody's
/// roots.
pub proof fn lemma_attach_root_shape(v: GraphView, p: usize, r: usize)
    requires
        shallow(v),
        v.nodes.len() <= usize::MAX,
        p < v.nodes.len(),
        r < v.nodes.len(),
        r != p,
        roots_of(v, r as int).len() == 0,
        not_ident_node(v, p),
        rooters_unrooted(v, p),
    ensures
        shallow(view_attach_root(v, p, r)),
        view_attach_root(v, p, r).nodes.len() == v.nodes.len(),
        roots_of(view_attach_root(v, p, r), p as int) == roots_of(v, p as int).push(r),
        forall|x: int| 0 <= x < v.nodes.len() && x != p ==> #[trigger] view_attach_root(v, p, r).nodes[x] == v.nodes[x],
        view_attach_root(v, p, r).idents == v.idents,
        not_ident_node(view_attach_root(v, p, r), p),
        rooters_unrooted(view_attach_root(v, p, r), p),
        forall|x: usize| x != r && #[trigger] unrooted(v, x) ==> unrooted(view_attach_root(v, p, r), x),
        unrooted(v, r) && unrooted(v, p) ==> rooters_unrooted(view_attach_root(v, p, r), r),
{
    let w = view_attach_root(v, p, r);
    let n = v.nodes.len();
    assert(w.nodes.len() == n);
    assert forall|x: int| 0 <= x < n && x != p implies #[trigger] w.nodes[x] == v.nodes[x] by {}
    assert(roots_of(w, p as int) == roots_of(v, p as int).push(r));
    // `p` is not among its own roots, nor among the roots of its roots.
    assert forall|j: int| 0 <= j < roots_of(v, p as int).len() implies #[trigger] roots_of(v, p as int)[j] != p by {
        if roots_of(v, p as int)[j] == p {
            assert(unrooted(v, p));
            assert(roots_of(v, p as int)[j] != p);
        }
    }
    assert forall|i: int, j: int| 0 <= i < n && 0 <= j < roots_of(w, i).len() implies #[trigger] roots_of(w, i)[j] < n by {
        if i != p && j < roots_of(v, i).len() {
            assert(roots_of(v, i)[j] < n);
        } else if i == p && j < roots_of(v, p as int).len() {
            assert(roots_of(v, p as int)[j] < n);
        }
    }
    assert forall|k: IdentKey| #[trigger] w.idents.contains_key(k) implies w.idents[k] < n && roots_of(w, w.idents[k] as int).len()
        == 0 by {
        assert(v.idents[k] != p);
        assert(roots_of(v, v.idents[k] as int).len() == 0);
    }
    assert forall|i: int, j: int, l: int|
        0 <= i < n && 0 <= j < roots_of(w, i).len() && 0 <= l < roots_of(w, roots_of(w, i)[j] as int).len() implies roots_of(
        w,
        #[trigger] roots_of(w, roots_of(w, i)[j] as int)[l] as int,
    ).len() == 0 by {
        let a = roots_of(w, i)[j];
        if i == p {
            if j == roots_of(v, p as int).len() {
                assert(a == r);
                assert(roots_of(w, r as int) == roots_of(v, r as int));
            } else {
                assert(a == roots_of(v, p as int)[j]);
                assert(a != p);
                let s_ = roots_of(v, a as int)[l];
                if s_ == p {
                    assert(unrooted(v, a));
                    assert(roots_of(v, p as int)[j] == a);
                }
                assert(roots_of(v, roots_of(v, roots_of(v, p as int)[j] as int)[l] as int).len() == 0);
            }
        } else {
            assert(a == roots_of(v, i)[j]);
            if a == p {
                assert(unrooted(v, i as usize));
                if l < roots_of(v, p as int).len() {
                    let s_ = roots_of(v, p as int)[l];
                    assert(s_ != p);
                    assert(roots_of(v, roots_of(v, roots_of(v, i)[j] as int)[l] as int).len() == 0);
                } else {
                    assert(roots_of(w, a as int)[l] == r);
                    assert(roots_of(w, r as int) == roots_of(v, r as int));
                }
            } else {
                let s_ = roots_of(v, a as int)[l];
                if s_ == p {
                    assert(unrooted(v, a));
                    assert(roots_of(v, i)[j] == a);
                }
                assert(roots_of(v, roots_of(v, roots_of(v, i)[j] as int)[l] as int).len() == 0);
            }
        }
    }
    assert forall|i: int, j: int| 0 <= i < n && 0 <= j < roots_of(w, i).len() && #[trigger] roots_of(w, i)[j] == p implies unrooted(
        w,
        i as usize,
    ) by {
        if i == p {
            if j < roots_of(v, p as int).len() {
                assert(roots_of(v, p as int)[j] != p);
            }
        } else {
            assert(roots_of(v, i)[j] == p);
            assert(unrooted(v, i as usize));
            assert forall|a: int, b: int| 0 <= a < n && 0 <= b < roots_of(w, a).len() implies #[trigger] roots_of(w, a)[b]
                != i as usize by {
                if a == p && b == roots_of(v, p as int).len() {
                    // `i` has `p` among its roots, and `r` has none.
                    assert(roots_of(v, i).len() > 0);
                    assert(roots_of(w, a)[b] == r);
                    if r as int == i {
                        assert(roots_of(v, r as int).len() == 0);
                    }
                } else if a == p {
                    assert(roots_of(w, a)[b] == roots_of(v, p as int)[b]);
                    assert(roots_of(v, p as int)[b] != i as usize);
                } else {
                    assert(w.nodes[a] == v.nodes[a]);
                    assert(roots_of(v, a)[b] != i as usize);
                }
            }
        }
    }
    assert forall|x: usize| x != r && #[trigger] unrooted(v, x) implies unrooted(w, x) by {
        assert forall|i: int, j: int| 0 <= i < n && 0 <= j < roots_of(w, i).len() implies #[trigger] roots_of(w, i)[j] != x by {
            if i == p && j == roots_of(v, p as int).len() {
            } else if i == p {
                assert(roots_of(v, p as int)[j] != x);
            } else {
                assert(roots_of(v, i)[j] != x);
            }
        }
    }
    if unrooted(v, r) && unrooted(v, p) {
        assert forall|i: int, j: int| 0 <= i < n && 0 <= j < roots_of(w, i).len() && #[trigger] roots_of(w, i)[j] == r implies unrooted(
            w,
            i as usize,
        ) by {
            if i != p || j < roots_of(v, p as int).len() {
                if i == p {
                    assert(roots_of(v, p as int)[j] != r);
                } else {
                    assert(roots_of(v, i)[j] != r);
                }
            }
            assert(i == p);
            assert(unrooted(w, p));
        }
    }
}


/// Rooting `p` at the node of an identifier keeps the shape, where `p` is
/// no identifier's node and whatever has `p` among its roots is among
/// nobody's roots.
pub proof fn lemma_attach_ident_shape(v: GraphView, p: usize, k: IdentKey, span: RawSpan)
    requires
        shallow(v),
        view_attach_ident(v, p, k, span).nodes.len() <= usize::MAX,
        p < v.nodes.len(),
        not_ident_node(v, p),
        rooters_unrooted(v, p),
    ensures
        shallow(view_attach_ident(v, p, k, span)),
        view_attach_ident(v, p, k, span).nodes.len() >= v.nodes.len(),
        not_ident_node(view_attach_ident(v, p, k, span), p),
        rooters_unrooted(view_attach_ident(v, p, k, span), p),
        forall|x: usize|
            x < v.nodes.len() && #[trigger] not_ident_node(v, x) && unrooted(v, x) ==> unrooted(
                view_attach_ident(v, p, k, span),
                x,
            ) && not_ident_node(view_attach_ident(v, p, k, span), x),
{
    let g = view_get_ident(v, k, span);
    let r = view_ident_node(v, k);
    lemma_get_ident_extends(v, k, span);
    lemma_extends_keeps(v, g, p);
    assert(r != p);
    lemma_attach_root_shape(g, p, r);
    assert forall|x: usize| x < v.nodes.len() && #[trigger] not_ident_node(v, x) && unrooted(v, x) implies unrooted(
        view_attach_ident(v, p, k, span),
        x,
    ) && not_ident_node(view_attach_ident(v, p, k, span), x) by {
        lemma_extends_keeps(v, g, x);
        assert(x != r);
        assert(unrooted(g, x));
    }
}

/// Declaring global identifiers only adds nodes.
pub proof fn lemma_declare_globals_grows(v: GraphView, p: usize, ids: Seq<Spanned<Ident>>, namespace: Namespace)
    requires
        p < v.nodes.len(),
    ensures
        declare_globals(v, p, ids, namespace).nodes.len() >= v.nodes.len(),
    decreases ids.len(),
{
    if ids.len() > 0 {
        lemma_declare_globals_grows(v, p, ids.subrange(0, ids.len() - 1), namespace);
    }
}

/// Declaring global identifiers keeps the shape.
pub proof fn lemma_declare_globals_shape(v: GraphView, p: usize, ids: Seq<Spanned<Ident>>, namespace: Namespace)
    requires
        shallow(v),
        declare_globals(v, p, ids, namespace).nodes.len() <= usize::MAX,
        p < v.nodes.len(),
        not_ident_node(v, p),
        rooters_unrooted(v, p),
    ensures
        shallow(declare_globals(v, p, ids, namespace)),
        not_ident_node(declare_globals(v, p, ids, namespace), p),
        rooters_unrooted(declare_globals(v, p, ids, namespace), p),
        forall|x: usize|
            x < v.nodes.len() && #[trigger] not_ident_node(v, x) && unrooted(v, x) ==> unrooted(
                declare_globals(v, p, ids, namespace),
                x,
            ) && not_ident_node(declare_globals(v, p, ids, namespace), x),
    decreases ids.len(),
{
    if ids.len() > 0 {
        let prefix = ids.subrange(0, ids.len() - 1);
        let w = declare_globals(v, p, prefix, namespace);
        let x = ids[ids.len() - 1];
        lemma_declare_globals_grows(v, p, prefix, namespace);
        lemma_declare_globals_shape(v, p, prefix, namespace);
        lemma_attach_ident_shape(w, p, (x.value@, namespace), x.span);
    }
}


/// A new node is among nobody's roots and no identifier's node.
pub proof fn lemma_add_node_shape(v: GraphView, span: RawSpan)
    requires
        shallow(v),
        v.nodes.len() < usize::MAX,
    ensures
        extends(v, view_add_node(v, span)),
        extends(v, view_add_decl_node(v, span)),
        shallow(view_add_node(v, span)),
        shallow(view_add_decl_node(v, span)),
        unrooted(view_add_node(v, span), v.nodes.len() as usize),
        unrooted(view_add_decl_node(v, span), v.nodes.len() as usize),
        not_ident_node(view_add_node(v, span), v.nodes.len() as usize),
        not_ident_node(view_add_decl_node(v, span), v.nodes.len() as usize),
{
    let n = v.nodes.len() as usize;
    let a = view_add_node(v, span);
    let b = view_add_decl_node(v, span);
    assert(extends(v, a));
    assert(extends(v, b));
    if v.nodes.len() > 0 {
        lemma_extends_keeps(v, a, 0);
        lemma_extends_keeps(v, b, 0);
    } else {
        assert(shallow(a));
        assert(shallow(b));
    }
    assert forall|i: int, j: int| 0 <= i < a.nodes.len() && 0 <= j < roots_of(a, i).len() implies #[trigger] roots_of(a, i)[j] != n by {
        assert(i < v.nodes.len());
        assert(roots_of(v, i)[j] < v.nodes.len());
    }
    assert forall|i: int, j: int| 0 <= i < b.nodes.len() && 0 <= j < roots_of(b, i).len() implies #[trigger] roots_of(b, i)[j] != n by {
        assert(i < v.nodes.len());
        assert(roots_of(v, i)[j] < v.nodes.len());
    }
    assert forall|k: IdentKey| #[trigger] a.idents.contains_key(k) implies a.idents[k] != n by {
        assert(v.idents[k] < v.nodes.len());
    }
    assert forall|k: IdentKey| #[trigger] b.idents.contains_key(k) implies b.idents[k] != n by {
        assert(v.idents[k] < v.nodes.len());
    }
}

/// References from a node keep the shape, and what holds of the old nodes.
pub proof fn lemma_apply_refs_keeps(v: GraphView, p: usize, ks: Seq<IdentKey>, x: usize)
    requires
        shallow(v),
        apply_refs(v, p, ks).nodes.len() <= usize::MAX,
        x < v.nodes.len(),
    ensures
        shallow(apply_refs(v, p, ks)),
        unrooted(v, x) ==> unrooted(apply_refs(v, p, ks), x),
        rooters_unrooted(v, x) ==> rooters_unrooted(apply_refs(v, p, ks), x),
        not_ident_node(v, x) ==> not_ident_node(apply_refs(v, p, ks), x),
{
    lemma_apply_refs_extends(v, p, ks);
    lemma_extends_keeps(v, apply_refs(v, p, ks), x);
}

/// One type of a type declaration keeps the shape.
pub proof fn lemma_type_decl_shape(v: GraphView, p: usize, td: Spanned<TypeDecl>)
    requires
        shallow(v),
        type_decl_effect(v, p, td).nodes.len() <= usize::MAX,
        p < v.nodes.len(),
        unrooted(v, p),
        not_ident_node(v, p),
    ensures
        shallow(type_decl_effect(v, p, td)),
        unrooted(type_decl_effect(v, p, td), p),
        not_ident_node(type_decl_effect(v, p, td), p),
        type_decl_effect(v, p, td).nodes.len() > v.nodes.len(),
{
    let k = v.nodes.len() as usize;
    let a = view_add_node(v, td.span);
    let b = view_attach_root(a, p, k);
    let key = (td.value.ident@, Namespace::Type);
    let c = view_attach_ident(b, k, key, no_span());
    let ks = match td.value.type_ {
        Some(t) => type_refs(t, type_params_keys(td.value.type_params@)),
        None => Seq::empty(),
    };
    lemma_apply_refs_grows(c, k, ks);
    assert(apply_refs(c, k, Seq::<IdentKey>::empty()) == c);
    assert(type_decl_effect(v, p, td) == apply_refs(c, k, ks));
    lemma_add_node_shape(v, td.span);
    lemma_extends_keeps(v, a, p);
    lemma_attach_root_shape(a, p, k);
    assert(not_ident_node(b, k));
    lemma_attach_ident_shape(b, k, key, no_span());
    assert(unrooted(c, p) && not_ident_node(c, p));
    lemma_apply_refs_keeps(c, k, ks, p);
}

/// The types of a type declaration keep the shape.
pub proof fn lemma_type_decls_fold_shape(v: GraphView, p: usize, tds: Seq<Spanned<TypeDecl>>)
    requires
        shallow(v),
        type_decls_fold(v, p, tds).nodes.len() <= usize::MAX,
        p < v.nodes.len(),
        unrooted(v, p),
        not_ident_node(v, p),
    ensures
        shallow(type_decls_fold(v, p, tds)),
        unrooted(type_decls_fold(v, p, tds), p),
        not_ident_node(type_decls_fold(v, p, tds), p),
        type_decls_fold(v, p, tds).nodes.len() >= v.nodes.len(),
    decreases tds.len(),
{
    if tds.len() > 0 {
        let prefix = tds.subrange(0, tds.len() - 1);
        lemma_type_decls_fold_grows(v, p, prefix);
        let w = type_decls_fold(v, p, prefix);
        lemma_type_decl_grows(w, p, tds[tds.len() - 1]);
        lemma_type_decls_fold_shape(v, p, prefix);
        lemma_type_decl_shape(w, p, tds[tds.len() - 1]);
    }
}

/// One type of a type declaration adds nodes.
pub proof fn lemma_type_decl_grows(v: GraphView, p: usize, td: Spanned<TypeDecl>)
    requires
        p < v.nodes.len(),
    ensures
        type_decl_effect(v, p, td).nodes.len() > v.nodes.len(),
{
    let k = v.nodes.len() as usize;
    let c = view_attach_ident(view_attach_root(view_add_node(v, td.span), p, k), k, (td.value.ident@, Namespace::Type), no_span());
    match td.value.type_ {
        Some(t) => lemma_apply_refs_grows(c, k, type_refs(t, type_params_keys(td.value.type_params@))),
        None => {},
    }
}

/// The types of a type declaration only add nodes.
pub proof fn lemma_type_decls_fold_grows(v: GraphView, p: usize, tds: Seq<Spanned<TypeDecl>>)
    requires
        p < v.nodes.len(),
    ensures
        type_decls_fold(v, p, tds).nodes.len() >= v.nodes.len(),
    decreases tds.len(),
{
    if tds.len() > 0 {
        lemma_type_decls_fold_grows(v, p, tds.subrange(0, tds.len() - 1));
        lemma_type_decl_grows(type_decls_fold(v, p, tds.subrange(0, tds.len() - 1)), p, tds[tds.len() - 1]);
    }
}

/// One item of a variable declaration adds nodes.
pub proof fn lemma_var_item_grows(v: GraphView, p: usize, x: Spanned<TypedIdentsWhere>)
    requires
        p < v.nodes.len(),
    ensures
        var_item_effect(v, p, x).nodes.len() > v.nodes.len(),
{
    let k = v.nodes.len() as usize;
    let b = view_attach_root(view_add_node(v, x.span), p, k);
    lemma_declare_globals_grows(b, k, x.value.typed_idents.idents.idents@, Namespace::Var);
    let c = declare_globals(b, k, x.value.typed_idents.idents.idents@, Namespace::Var);
    lemma_apply_refs_grows(c, k, type_refs(x.value.typed_idents.type_, Set::empty()));
}

/// The items of a variable declaration only add nodes.
pub proof fn lemma_var_items_fold_grows(v: GraphView, p: usize, xs: Seq<Spanned<TypedIdentsWhere>>)
    requires
        p < v.nodes.len(),
    ensures
        var_items_fold(v, p, xs).nodes.len() >= v.nodes.len(),
    decreases xs.len(),
{
    if xs.len() > 0 {
        lemma_var_items_fold_grows(v, p, xs.subrange(0, xs.len() - 1));
        lemma_var_item_grows(var_items_fold(v, p, xs.subrange(0, xs.len() - 1)), p, xs[xs.len() - 1]);
    }
}

/// One item of a variable declaration keeps the shape.
pub proof fn lemma_var_item_shape(v: GraphView, p: usize, x: Spanned<TypedIdentsWhere>)
    requires
        shallow(v),
        var_item_effect(v, p, x).nodes.len() <= usize::MAX,
        p < v.nodes.len(),
        unrooted(v, p),
        not_ident_node(v, p),
    ensures
        shallow(var_item_effect(v, p, x)),
        unrooted(var_item_effect(v, p, x), p),
        not_ident_node(var_item_effect(v, p, x), p),
{
    let k = v.nodes.len() as usize;
    let a = view_add_node(v, x.span);
    let b = view_attach_root(a, p, k);
    let ids = x.value.typed_idents.idents.idents@;
    lemma_declare_globals_grows(b, k, ids, Namespace::Var);
    let c = declare_globals(b, k, ids, Namespace::Var);
    let ks = type_refs(x.value.typed_idents.type_, Set::empty());
    lemma_apply_refs_grows(c, k, ks);
    lemma_add_node_shape(v, x.span);
    lemma_extends_keeps(v, a, p);
    lemma_attach_root_shape(a, p, k);
    assert(not_ident_node(b, k));
    lemma_declare_globals_shape(b, k, ids, Namespace::Var);
    assert(unrooted(c, p) && not_ident_node(c, p));
    lemma_apply_refs_keeps(c, k, ks, p);
}

/// The items of a variable declaration keep the shape.
pub proof fn lemma_var_items_fold_shape(v: GraphView, p: usize, xs: Seq<Spanned<TypedIdentsWhere>>)
    requires
        shallow(v),
        var_items_fold(v, p, xs).nodes.len() <= usize::MAX,
        p < v.nodes.len(),
        unrooted(v, p),
        not_ident_node(v, p),
    ensures
        shallow(var_items_fold(v, p, xs)),
        unrooted(var_items_fold(v, p, xs), p),
        not_ident_node(var_items_fold(v, p, xs), p),
    decreases xs.len(),
{
    if xs.len() > 0 {
        let prefix = xs.subrange(0, xs.len() - 1);
        lemma_var_items_fold_grows(v, p, prefix);
        let w = var_items_fold(v, p, prefix);
        lemma_var_item_grows(w, p, xs[xs.len() - 1]);
        lemma_var_items_fold_shape(v, p, prefix);
        lemma_var_item_shape(w, p, xs[xs.len() - 1]);
    }
}

/// The `where` clauses of a variable declaration keep the shape.
pub proof fn lemma_var_wheres_fold_shape(v: GraphView, xs: Seq<Spanned<TypedIdentsWhere>>, nodes: Seq<usize>, n: nat)
    requires
        shallow(v),
        var_wheres_fold(v, xs, nodes, n).nodes.len() <= usize::MAX,
    ensures
        shallow(var_wheres_fold(v, xs, nodes, n)),
        var_wheres_fold(v, xs, nodes, n).nodes.len() >= v.nodes.len(),
    decreases n,
{
    if n > 0 {
        let w = var_wheres_fold(v, xs, nodes, (n - 1) as nat);
        match xs[n - 1].value.where_ {
            Some(e) => {
                lemma_apply_refs_grows(w, nodes[n - 1], expr_refs(e, Set::empty()));
                lemma_var_wheres_fold_shape(v, xs, nodes, (n - 1) as nat);
                lemma_apply_refs_extends(w, nodes[n - 1], expr_refs(e, Set::empty()));
            },
            None => {
                lemma_var_wheres_fold_shape(v, xs, nodes, (n - 1) as nat);
            },
        }
    }
}


/// A node among nobody's roots has no rooters.
pub proof fn lemma_unrooted_rooters(v: GraphView, x: usize)
    requires
        unrooted(v, x),
    ensures
        rooters_unrooted(v, x),
{
    assert forall|i: int, j: int|
        0 <= i < v.nodes.len() && 0 <= j < roots_of(v, i).len() && #[trigger] roots_of(v, i)[j] == x implies unrooted(v, i as usize) by {
        assert(roots_of(v, i)[j] != x);
    }
}

/// The `where` clauses of a variable declaration only add nodes.
pub proof fn lemma_var_wheres_fold_grows(v: GraphView, xs: Seq<Spanned<TypedIdentsWhere>>, nodes: Seq<usize>, n: nat)
    ensures
        var_wheres_fold(v, xs, nodes, n).nodes.len() >= v.nodes.len(),
    decreases n,
{
    if n > 0 {
        lemma_var_wheres_fold_grows(v, xs, nodes, (n - 1) as nat);
        let w = var_wheres_fold(v, xs, nodes, (n - 1) as nat);
        match xs[n - 1].value.where_ {
            Some(e) => lemma_apply_refs_grows(w, nodes[n - 1], expr_refs(e, Set::empty())),
            None => {},
        }
    }
}

/// A declaration node rooted at an identifier, with references from it,
/// keeps the shape.
proof fn lemma_sign_decl_shape(v: GraphView, span: RawSpan, key: IdentKey, ks: Seq<IdentKey>)
    requires
        shallow(v),
        apply_refs(view_attach_ident(view_add_decl_node(v, span), v.nodes.len() as usize, key, no_span()), v.nodes.len() as usize, ks).nodes.len()
            <= usize::MAX,
    ensures
        shallow(apply_refs(view_attach_ident(view_add_decl_node(v, span), v.nodes.len() as usize, key, no_span()), v.nodes.len() as usize, ks)),
{
    let p = v.nodes.len() as usize;
    let w0 = view_add_decl_node(v, span);
    let w1 = view_attach_ident(w0, p, key, no_span());
    lemma_apply_refs_grows(w1, p, ks);
    lemma_add_node_shape(v, span);
    lemma_unrooted_rooters(w0, p);
    lemma_attach_ident_shape(w0, p, key, no_span());
    lemma_apply_refs_extends(w1, p, ks);
}

/// A constant declaration keeps the shape.
proof fn lemma_const_shape(v: GraphView, span: RawSpan, c: ConstDecl)
    requires
        shallow(v),
        crate::decl_graph::const_effect(v, span, c).nodes.len() <= usize::MAX,
    ensures
        shallow(crate::decl_graph::const_effect(v, span, c)),
{
    let p = v.nodes.len() as usize;
    let w0 = view_add_decl_node(v, span);
    let a = attrs_refs(c.attrs@, Set::empty());
    let w1 = apply_refs(w0, p, a);
    let ids = c.consts.idents.idents@;
    let w2 = declare_globals(w1, p, ids, Namespace::Var);
    let t = type_refs(c.consts.type_, Set::empty());
    let w3 = apply_refs(w2, p, t);
    let o = match c.order_spec {
        Some(x) => order_parents_refs(x.parents@),
        None => Seq::empty(),
    };
    assert(apply_refs(w3, p, Seq::<IdentKey>::empty()) == w3);
    assert(crate::decl_graph::const_effect(v, span, c) == apply_refs(w3, p, o));
    lemma_apply_refs_grows(w0, p, a);
    lemma_declare_globals_grows(w1, p, ids, Namespace::Var);
    lemma_apply_refs_grows(w2, p, t);
    lemma_apply_refs_grows(w3, p, o);
    lemma_add_node_shape(v, span);
    lemma_apply_refs_keeps(w0, p, a, p);
    lemma_unrooted_rooters(w1, p);
    lemma_declare_globals_shape(w1, p, ids, Namespace::Var);
    lemma_apply_refs_extends(w2, p, t);
    lemma_apply_refs_extends(w3, p, o);
}

/// A function declaration keeps the shape.
proof fn lemma_func_shape(v: GraphView, span: RawSpan, f: FuncDecl, prune: bool)
    requires
        shallow(v),
        crate::decl_graph::func_effect(v, span, f, prune).nodes.len() <= usize::MAX,
    ensures
        shallow(crate::decl_graph::func_effect(v, span, f, prune)),
{
    let p = v.nodes.len() as usize;
    let w0 = view_add_decl_node(v, span);
    let w1 = view_attach_ident(w0, p, (f.ident@, Namespace::Func), no_span());
    let sig = func_sign_decls(f);
    let w2 = apply_refs(w1, p, sig.0);
    let w3 = match ctor_data_type(f) {
        Some(dt) => if prune {
            w2
        } else {
            ctor_edge(w2, p, (dt@, Namespace::Type))
        },
        None => w2,
    };
    let a = attrs_refs(f.attrs@, sig.1);
    let w4 = apply_refs(w3, p, a);
    let b = match f.body {
        Some(x) => expr_refs(x, sig.1),
        None => Seq::empty(),
    };
    assert(apply_refs(w4, p, Seq::<IdentKey>::empty()) == w4);
    assert(crate::decl_graph::func_effect(v, span, f, prune) == apply_refs(w4, p, b));
    lemma_apply_refs_grows(w1, p, sig.0);
    lemma_apply_refs_grows(w3, p, a);
    lemma_apply_refs_grows(w4, p, b);
    assert(w3.nodes.len() >= w2.nodes.len());
    lemma_add_node_shape(v, span);
    lemma_unrooted_rooters(w0, p);
    lemma_attach_ident_shape(w0, p, (f.ident@, Namespace::Func), no_span());
    lemma_apply_refs_extends(w1, p, sig.0);
    match ctor_data_type(f) {
        Some(dt) => if !prune {
            let key = (dt@, Namespace::Type);
            let g = view_get_ident(w2, key, no_span());
            assert(g.nodes.len() == w3.nodes.len());
            lemma_apply_refs_grows(w1, p, sig.0);
            lemma_get_ident_extends(w2, key, no_span());
            lemma_extends_keeps(w2, g, p);
            lemma_shallow_edges(g, view_ident_node(w2, key), p);
        },
        None => {},
    }
    lemma_apply_refs_extends(w3, p, a);
    lemma_apply_refs_extends(w4, p, b);
}

/// A type declaration keeps the shape.
proof fn lemma_type_decls_shape(v: GraphView, span: RawSpan, d: TypeDecls)
    requires
        shallow(v),
        crate::decl_graph::type_decls_effect(v, span, d).nodes.len() <= usize::MAX,
    ensures
        shallow(crate::decl_graph::type_decls_effect(v, span, d)),
{
    let p = v.nodes.len() as usize;
    let w0 = view_add_decl_node(v, span);
    let w1 = type_decls_fold(w0, p, d.decls@);
    let a = attrs_refs(d.attrs@, Set::empty());
    lemma_type_decls_fold_grows(w0, p, d.decls@);
    lemma_apply_refs_grows(w1, p, a);
    lemma_add_node_shape(v, span);
    lemma_type_decls_fold_shape(w0, p, d.decls@);
    lemma_apply_refs_extends(w1, p, a);
}

/// A variable declaration keeps the shape.
proof fn lemma_var_decl_shape(v: GraphView, span: RawSpan, d: VarDecl)
    requires
        shallow(v),
        crate::decl_graph::var_decl_effect(v, span, d).nodes.len() <= usize::MAX,
    ensures
        shallow(crate::decl_graph::var_decl_effect(v, span, d)),
{
    let p = v.nodes.len() as usize;
    let w0 = view_add_decl_node(v, span);
    let xs = d.vars.items@;
    let w1 = var_items_fold(w0, p, xs);
    let roots = w1.nodes[p as int].1;
    let n = if xs.len() <= roots.len() {
        xs.len()
    } else {
        roots.len()
    };
    let w2 = var_wheres_fold(w1, xs, roots, n);
    let a = attrs_refs(d.attrs@, Set::empty());
    lemma_var_items_fold_grows(w0, p, xs);
    lemma_var_wheres_fold_grows(w1, xs, roots, n);
    lemma_apply_refs_grows(w2, p, a);
    lemma_add_node_shape(v, span);
    lemma_var_items_fold_shape(w0, p, xs);
    lemma_var_wheres_fold_shape(w1, xs, roots, n);
    lemma_apply_refs_extends(w2, p, a);
}

/// Each declaration adds nodes.
pub proof fn lemma_decl_effect_grows(v: GraphView, d: Spanned<Decl>, prune: bool)
    ensures
        decl_effect(v, d, prune).nodes.len() > v.nodes.len(),
{
    let p = v.nodes.len() as usize;
    let w0 = view_add_decl_node(v, d.span);
    match d.value {
        Decl::Axiom(a) => {
            lemma_apply_refs_grows(w0, p, attrs_refs(a.attrs@, Set::empty()) + expr_refs(a.proposition, Set::empty()));
        },
        Decl::Const(c) => {
            let w1 = apply_refs(w0, p, attrs_refs(c.attrs@, Set::empty()));
            lemma_apply_refs_grows(w0, p, attrs_refs(c.attrs@, Set::empty()));
            lemma_declare_globals_grows(w1, p, c.consts.idents.idents@, Namespace::Var);
            let w2 = declare_globals(w1, p, c.consts.idents.idents@, Namespace::Var);
            lemma_apply_refs_grows(w2, p, type_refs(c.consts.type_, Set::empty()));
            let w3 = apply_refs(w2, p, type_refs(c.consts.type_, Set::empty()));
            match c.order_spec {
                Some(o) => lemma_apply_refs_grows(w3, p, order_parents_refs(o.parents@)),
                None => {},
            }
        },
        Decl::Func(f) => {
            let w1 = view_attach_ident(w0, p, (f.ident@, Namespace::Func), no_span());
            let sig = func_sign_decls(f);
            lemma_apply_refs_grows(w1, p, sig.0);
            let w2 = apply_refs(w1, p, sig.0);
            let w3 = match ctor_data_type(f) {
                Some(dt) => if prune {
                    w2
                } else {
                    ctor_edge(w2, p, (dt@, Namespace::Type))
                },
                None => w2,
            };
            assert(w3.nodes.len() >= w2.nodes.len());
            lemma_apply_refs_grows(w3, p, attrs_refs(f.attrs@, sig.1));
            let w4 = apply_refs(w3, p, attrs_refs(f.attrs@, sig.1));
            match f.body {
                Some(b) => lemma_apply_refs_grows(w4, p, expr_refs(b, sig.1)),
                None => {},
            }
        },
        Decl::Impl(i) => {
            let w = view_attach_ident(w0, p, (i.proc_sign.ident.value@, Namespace::Proc), no_span());
            lemma_apply_refs_grows(w, p, impl_refs(i));
        },
        Decl::Proc(x) => {
            let w = view_attach_ident(w0, p, (x.proc_sign.ident.value@, Namespace::Proc), no_span());
            lemma_apply_refs_grows(w, p, proc_refs(x));
        },
        Decl::Type(t) => {
            lemma_type_decls_fold_grows(w0, p, t.decls@);
            lemma_apply_refs_grows(type_decls_fold(w0, p, t.decls@), p, attrs_refs(t.attrs@, Set::empty()));
        },
        Decl::Var(x) => {
            lemma_var_items_fold_grows(w0, p, x.vars.items@);
            let w1 = var_items_fold(w0, p, x.vars.items@);
            let roots = w1.nodes[p as int].1;
            let n = if x.vars.items@.len() <= roots.len() {
                x.vars.items@.len()
            } else {
                roots.len()
            };
            lemma_var_wheres_fold_grows(w1, x.vars.items@, roots, n);
            lemma_apply_refs_grows(var_wheres_fold(w1, x.vars.items@, roots, n), p, attrs_refs(x.attrs@, Set::empty()));
        },
    }
}

/// Each declaration keeps the shape.
pub proof fn lemma_decl_effect_shape(v: GraphView, d: Spanned<Decl>, prune: bool)
    requires
        shallow(v),
        decl_effect(v, d, prune).nodes.len() <= usize::MAX,
    ensures
        shallow(decl_effect(v, d, prune)),
{
    let p = v.nodes.len() as usize;
    match d.value {
        Decl::Axiom(a) => {
            let w0 = view_add_decl_node(v, d.span);
            let ks = attrs_refs(a.attrs@, Set::empty()) + expr_refs(a.proposition, Set::empty());
            lemma_apply_refs_grows(w0, p, ks);
            lemma_add_node_shape(v, d.span);
            lemma_apply_refs_extends(w0, p, ks);
        },
        Decl::Const(c) => lemma_const_shape(v, d.span, c),
        Decl::Func(f) => lemma_func_shape(v, d.span, f, prune),
        Decl::Impl(i) => lemma_sign_decl_shape(v, d.span, (i.proc_sign.ident.value@, Namespace::Proc), impl_refs(i)),
        Decl::Proc(x) => lemma_sign_decl_shape(v, d.span, (x.proc_sign.ident.value@, Namespace::Proc), proc_refs(x)),
        Decl::Type(t) => lemma_type_decls_shape(v, d.span, t),
        Decl::Var(x) => lemma_var_decl_shape(v, d.span, x),
    }
}

/// The graph of a program that fits in memory has its roots at most two
/// levels deep.
pub proof fn lemma_program_graph_shallow(decls: Seq<Spanned<Decl>>, prune: Seq<bool>)
    requires
        program_graph(decls, prune).nodes.len() <= usize::MAX,
    ensures
        shallow(program_graph(decls, prune)),
    decreases decls.len(),
{
    if decls.len() == 0 {
        assert(shallow(empty_view()));
    } else {
        let prefix = decls.subrange(0, decls.len() - 1);
        let w = program_graph(prefix, prune);
        lemma_decl_effect_grows(w, decls[decls.len() - 1], prune[decls.len() - 1]);
        lemma_program_graph_shallow(prefix, prune);
        lemma_decl_effect_shape(w, decls[decls.len() - 1], prune[decls.len() - 1]);
    }
}


/// Edges do not change the shape.
pub proof fn lemma_shallow_edges(v: GraphView, a: usize, b: usize)
    requires
        shallow(v),
    ensures
        shallow(view_add_edge(v, a, b)),
{
    let w = view_add_edge(v, a, b);
    assert forall|i: int, j: int| 0 <= i < w.nodes.len() && 0 <= j < roots_of(w, i).len() implies #[trigger] roots_of(w, i)[j]
        < w.nodes.len() by {
        assert(roots_of(v, i)[j] < v.nodes.len());
    }
    assert forall|k: IdentKey| #[trigger] w.idents.contains_key(k) implies w.idents[k] < w.nodes.len() && roots_of(
        w,
        w.idents[k] as int,
    ).len() == 0 by {
        assert(v.idents.contains_key(k));
    }
    assert forall|i: int, j: int, l: int|
        0 <= i < w.nodes.len() && 0 <= j < roots_of(w, i).len() && 0 <= l < roots_of(w, roots_of(w, i)[j] as int).len()
            implies roots_of(w, #[trigger] roots_of(w, roots_of(w, i)[j] as int)[l] as int).len() == 0 by {
        assert(roots_of(v, roots_of(v, roots_of(v, i)[j] as int)[l] as int).len() == 0);
    }
}

} // verus!
