//! Code generated from the flow graph: the emit path that names a point of
//! the emitted code, and the jump from an emit node to its successors.

use std::collections::BTreeSet;

use vstd::prelude::*;
use vstd::std_specs::btree::spec_btree_keys_iter;
use vstd::std_specs::cmp::OrdSpec;
use vstd::std_specs::hash::spec_hash_keys_iter;
use vstd::std_specs::iter::IteratorSpec;

use crate::bpl_code::{CallExpr, Expr, FnIdent, GotoStmt, LabelIdent, Literal, Stmt, call_printable, args_printable, expr_printable};
use crate::bpl_names::{EmitLabelIdent, EmitLabelSegment, PreludeFnIdent};
use crate::flow::{EmitNode, FlowGraph};

verus! {

broadcast use vstd::std_specs::btree::group_btree_axioms, vstd::laws_cmp::group_laws_cmp,
    vstd::std_specs::hash::group_hash_axioms;

/// `c` builds the emit path of the local emit indexes `indexes`: the empty
/// path is `NilEmitPath()`, and each index is added to the path before it
/// by `ConsEmitPath(<path>, <index>)`.
pub open spec fn is_emit_path(c: CallExpr, indexes: Seq<usize>) -> bool
    decreases indexes.len(),
{
    if indexes.len() == 0 {
        &&& c.target == FnIdent::Prelude(PreludeFnIdent::NilEmitPath)
        &&& c.arg_exprs@.len() == 0
    } else {
        &&& c.target == FnIdent::Prelude(PreludeFnIdent::ConsEmitPath)
        &&& c.arg_exprs@.len() == 2
        &&& c.arg_exprs@[0] matches Expr::Call(inner) && is_emit_path(inner, indexes.drop_last())
        &&& c.arg_exprs@[1] == Expr::Literal(Literal::Int(indexes.last()))
    }
}

/// An emit path is printable.
pub proof fn lemma_emit_path_printable(c: CallExpr, indexes: Seq<usize>)
    requires
        is_emit_path(c, indexes),
    ensures
        call_printable(c),
    decreases indexes.len(),
{
    reveal_with_fuel(crate::bpl_code::args_printable, 3);
    if indexes.len() > 0 {
        let inner = c.arg_exprs@[0]->Call_0;
        lemma_emit_path_printable(inner, indexes.drop_last());
        let a = c.arg_exprs@;
        let first = a.subrange(0, 1);
        assert(first.subrange(0, 0) =~= Seq::<Expr>::empty());
        assert(first[0] == a[0]);
        assert(expr_printable(a[0]));
        assert(args_printable(first));
        assert(a.subrange(0, a.len() - 1) =~= first);
        assert(expr_printable(a[1]));
        assert(args_printable(a));
    }
}

/// The local emit indexes of the steps of an emit label.
pub open spec fn local_emit_indexes(segments: Seq<EmitLabelSegment>) -> Seq<usize> {
    segments.map_values(|g: EmitLabelSegment| g.local_emit_index)
}

/// The emit path of a label: the local emit indexes of its steps, from the
/// first to the last.
pub fn generate_emit_path_expr(emit_label_ident: &EmitLabelIdent) -> (r: CallExpr)
    ensures
        is_emit_path(r, local_emit_indexes(emit_label_ident.segments@)),
        call_printable(r),
{
    let ghost indexes = local_emit_indexes(emit_label_ident.segments@);
    let mut accum = CallExpr {
        target: FnIdent::Prelude(PreludeFnIdent::NilEmitPath),
        arg_exprs: Vec::new(),
    };
    let n = emit_label_ident.segments.len();
    let mut i: usize = 0;
    while i < n
        invariant
            n == emit_label_ident.segments@.len(),
            indexes == local_emit_indexes(emit_label_ident.segments@),
            i <= n,
            is_emit_path(accum, indexes.take(i as int)),
        decreases n - i,
    {
        let index = emit_label_ident.segments[i].local_emit_index;
        let mut args: Vec<Expr> = Vec::new();
        args.push(Expr::Call(accum));
        args.push(Expr::Literal(Literal::Int(index)));
        accum = CallExpr { target: FnIdent::Prelude(PreludeFnIdent::ConsEmitPath), arg_exprs: args };
        proof {
            let next = indexes.take(i + 1);
            assert(next.drop_last() =~= indexes.take(i as int));
            assert(next.last() == index);
        }
        i += 1;
    }
    assert(indexes.take(n as int) =~= indexes);
    proof {
        lemma_emit_path_printable(accum, indexes);
    }
    accum
}

/// The emit nodes that control can reach from `node` in one step: its emit
/// successors, and the emit nodes bound to its label successors.
pub open spec fn goto_targets(node: EmitNode, graph: FlowGraph) -> Set<usize> {
    node.succ_emits@ + Set::new(
        |e: usize|
            exists|l: usize|
                #![trigger node.succ_labels@.contains(l)]
                node.succ_labels@.contains(l) && graph.label_nodes@[l as int].bound_to@.contains(e),
    )
}

/// `g` jumps to the labels of the emit nodes `ids`, in increasing order of
/// the nodes, which are exactly `targets`.
pub open spec fn jumps_to(g: GotoStmt, ids: Seq<usize>, targets: Set<usize>, graph: FlowGraph) -> bool {
    &&& ids.to_set() == targets
    &&& forall|a: int, b: int| 0 <= a < b < ids.len() ==> ids[a] < ids[b]
    &&& g.labels@.len() == ids.len()
    &&& forall|k: int|
        0 <= k < ids.len() ==> (#[trigger] g.labels@[k] matches LabelIdent::Emit(l)
            && l.segments@ == graph.emit_nodes@[ids[k] as int].label_ident->0.segments@)
}

/// Adds every element of `other` to `set`.
fn insert_all(set: &mut BTreeSet<usize>, other: &std::collections::HashSet<usize>)
    ensures
        final(set)@ == old(set)@ + other@,
{
    let ghost start = set@;
    for x in it: other.iter()
        invariant
            it.seq() == spec_hash_keys_iter(other).remaining(),
            set@ == start + Set::new(|y: usize| exists|k: int| 0 <= k < it.index() && *it.seq()[k] == y),
    {
        set.insert(*x);
        proof {
            let k0 = it.index();
            assert(set@ =~= start + Set::new(
                |y: usize| exists|k: int| 0 <= k < k0 + 1 && *it.seq()[k] == y,
            )) by {
                assert forall|y: usize| set@.contains(y) implies (start + Set::new(
                    |y: usize| exists|k: int| 0 <= k < k0 + 1 && *it.seq()[k] == y,
                )).contains(y) by {
                    if y == *x {
                        assert(*it.seq()[k0] == y);
                    }
                }
            }
        }
    }
    proof {
        let keys = spec_hash_keys_iter(other).remaining();
        assert(Set::new(|y: usize| exists|k: int| 0 <= k < keys.len() && *keys[k] == y) =~= other@)
            by {
            assert forall|y: usize| other@.contains(y) implies exists|k: int|
                0 <= k < keys.len() && *keys[k] == y by {
                assert(keys.unref().to_set().contains(y));
                let k = choose|k: int| 0 <= k < keys.unref().len() && keys.unref()[k] == y;
                assert(*keys[k] == y);
            }
            assert forall|y: usize|
                (exists|k: int| 0 <= k < keys.len() && *keys[k] == y) implies other@.contains(y) by {
                let k = choose|k: int| 0 <= k < keys.len() && *keys[k] == y;
                assert(keys.unref()[k] == y);
                assert(keys.unref().to_set().contains(y));
            }
        }
    }
}

/// The keys of a set of node indexes come out in increasing order.
proof fn lemma_keys_increasing(ids: &BTreeSet<usize>)
    ensures
        forall|a: int, b: int|
            0 <= a < b < spec_btree_keys_iter(ids).remaining().len() ==> *(
            #[trigger] spec_btree_keys_iter(ids).remaining()[a])
                < *(#[trigger] spec_btree_keys_iter(ids).remaining()[b]),
{
    let keys = spec_btree_keys_iter(ids).remaining();
    assert(vstd::laws_cmp::obeys_cmp::<usize>());
    assert(vstd::laws_cmp::obeys_cmp::<&usize>());
    assert(vstd::std_specs::btree::increasing_seq(keys));
    assert forall|a: int, b: int| 0 <= a < b < keys.len() implies *keys[a] < *keys[b] by {
        assert(OrdSpec::cmp_spec(&keys[a], &keys[b]) is Less);
    }
}

/// The jump from an emit node to every emit node that control reaches from
/// it in one step, in increasing order of the nodes, each named by its
/// label.
pub fn generate_emit_node_goto_succs_stmt(emit_node: &EmitNode, flow_graph: &FlowGraph) -> (r: Stmt)
    requires
        forall|l: usize| #[trigger] emit_node.succ_labels@.contains(l) ==> l < flow_graph.label_nodes@.len(),
        forall|e: usize| #[trigger] goto_targets(*emit_node, *flow_graph).contains(e)
            ==> e < flow_graph.emit_nodes@.len() && flow_graph.emit_nodes@[e as int].label_ident is Some,
        !goto_targets(*emit_node, *flow_graph).is_empty(),
    ensures
        r matches Stmt::Goto(g) && exists|ids: Seq<usize>|
            jumps_to(g, ids, goto_targets(*emit_node, *flow_graph), *flow_graph),
{
    let ghost targets = goto_targets(*emit_node, *flow_graph);
    let mut succ_emit_node_indexes: BTreeSet<usize> = BTreeSet::new();
    insert_all(&mut succ_emit_node_indexes, &emit_node.succ_emits);
    let ghost emits = emit_node.succ_emits@;
    for l in it: emit_node.succ_labels.iter()
        invariant
            it.seq() == spec_hash_keys_iter(&emit_node.succ_labels).remaining(),
            forall|l: usize| #[trigger] emit_node.succ_labels@.contains(l) ==> l < flow_graph.label_nodes@.len(),
            emits == emit_node.succ_emits@,
            succ_emit_node_indexes@ == emits + Set::new(
                |e: usize|
                    exists|k: int|
                        0 <= k < it.index() && flow_graph.label_nodes@[*it.seq()[k] as int].bound_to@.contains(e),
            ),
    {
        proof {
            assert(it.seq().unref()[it.index()] == *l);
            assert(it.seq().unref().to_set().contains(*l));
        }
        insert_all(&mut succ_emit_node_indexes, &flow_graph.label_nodes[*l].bound_to);
        proof {
            let k0 = it.index();
            let done = Set::new(
                |e: usize|
                    exists|k: int|
                        0 <= k < k0 + 1 && flow_graph.label_nodes@[*it.seq()[k] as int].bound_to@.contains(e),
            );
            assert(succ_emit_node_indexes@ =~= emits + done) by {
                assert forall|e: usize| done.contains(e) implies succ_emit_node_indexes@.contains(e) by {
                    let k = choose|k: int|
                        0 <= k < k0 + 1 && flow_graph.label_nodes@[*it.seq()[k] as int].bound_to@.contains(e);
                    if k < k0 {
                    } else {
                        assert(*it.seq()[k] == *l);
                    }
                }
                assert forall|e: usize| succ_emit_node_indexes@.contains(e) implies (emits + done).contains(e) by {
                    if flow_graph.label_nodes@[*l as int].bound_to@.contains(e) && !emits.contains(e) {
                        assert(*it.seq()[k0] == *l);
                    }
                }
            }
        }
    }
    proof {
        let keys = spec_hash_keys_iter(&emit_node.succ_labels).remaining();
        assert(succ_emit_node_indexes@ =~= targets) by {
            assert forall|e: usize| targets.contains(e) implies succ_emit_node_indexes@.contains(e) by {
                if !emits.contains(e) {
                    let l = choose|l: usize|
                        #![trigger emit_node.succ_labels@.contains(l)]
                        emit_node.succ_labels@.contains(l) && flow_graph.label_nodes@[l as int].bound_to@.contains(e);
                    assert(keys.unref().to_set().contains(l));
                    let k = choose|k: int| 0 <= k < keys.unref().len() && keys.unref()[k] == l;
                    assert(*keys[k] == l);
                }
            }
            assert forall|e: usize| succ_emit_node_indexes@.contains(e) implies targets.contains(e) by {
                if !emits.contains(e) {
                    let k = choose|k: int|
                        0 <= k < keys.len() && flow_graph.label_nodes@[*keys[k] as int].bound_to@.contains(e);
                    let l = *keys[k];
                    assert(keys.unref()[k] == l);
                    assert(keys.unref().to_set().contains(l));
                    assert(emit_node.succ_labels@.contains(l));
                }
            }
        }
    }
    let mut labels: Vec<LabelIdent> = Vec::new();
    let ghost mut ids: Seq<usize> = Seq::empty();
    for succ in it: succ_emit_node_indexes.iter()
        invariant
            it.seq() == spec_btree_keys_iter(&succ_emit_node_indexes).remaining(),
            succ_emit_node_indexes@ == targets,
            targets == goto_targets(*emit_node, *flow_graph),
            forall|e: usize| #[trigger] targets.contains(e)
                ==> e < flow_graph.emit_nodes@.len() && flow_graph.emit_nodes@[e as int].label_ident is Some,
            ids.len() == it.index(),
            labels@.len() == it.index(),
            forall|k: int| 0 <= k < it.index() ==> ids[k] == *it.seq()[k],
            forall|k: int|
                0 <= k < it.index() ==> (#[trigger] labels@[k] matches LabelIdent::Emit(l)
                    && l.segments@ == flow_graph.emit_nodes@[ids[k] as int].label_ident->0.segments@),
    {
        proof {
            assert(it.seq().unref()[it.index()] == *succ);
            assert(it.seq().unref().to_set().contains(*succ));
        }
        let label = match &flow_graph.emit_nodes[*succ].label_ident {
            Some(label) => label.clone(),
            None => EmitLabelIdent::exit(),
        };
        labels.push(LabelIdent::Emit(label));
        proof {
            ids = ids.push(*succ);
        }
    }
    proof {
        let keys = spec_btree_keys_iter(&succ_emit_node_indexes).remaining();
        lemma_keys_increasing(&succ_emit_node_indexes);
        assert(ids =~= keys.unref());
        assert(ids.to_set() =~= targets);
    }
    let g = GotoStmt { labels };
    assert(jumps_to(g, ids, goto_targets(*emit_node, *flow_graph), *flow_graph));
    let r = Stmt::Goto(g);
    assert(r matches Stmt::Goto(g) && jumps_to(g, ids, goto_targets(*emit_node, *flow_graph), *flow_graph));
    r
}

} // verus!
