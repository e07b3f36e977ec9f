//! The control-flow graph of emitted code: emit nodes, one for each point
//! where an operation is emitted, and label nodes, one for each label that
//! control can jump to, with the working state of the tracer that builds
//! the graph.

use std::collections::{HashMap, HashSet};

use vstd::prelude::*;
use vstd::std_specs::hash::spec_hash_keys_iter;
use vstd::std_specs::iter::IteratorSpec;

use crate::bpl_names::EmitLabelIdent;

verus! {

broadcast use vstd::std_specs::hash::group_hash_axioms;

/// A successor of an emit node: another emit node or a label node.
#[derive(Clone, Copy, PartialEq, Eq, Structural, Debug, Hash)]
pub enum EmitSucc {
    Emit(usize),
    Label(usize),
}

/// A point where an operation is emitted, with its successors. The exit
/// node has an empty label and no target; the entry node has no label.
pub struct EmitNode {
    pub label_ident: Option<EmitLabelIdent>,
    pub succ_emits: HashSet<usize>,
    pub succ_labels: HashSet<usize>,
    pub target: Option<usize>,
}

impl EmitNode {
    /// The successors of the node.
    pub open spec fn succs(&self) -> Set<EmitSucc> {
        Set::new(
            |s: EmitSucc|
                match s {
                    EmitSucc::Emit(i) => self.succ_emits@.contains(i),
                    EmitSucc::Label(j) => self.succ_labels@.contains(j),
                },
        )
    }

    /// Whether this is the exit node.
    pub open spec fn spec_is_exit(&self) -> bool {
        self.label_ident is Some && self.target is None
    }

    /// Whether this is the entry node.
    pub open spec fn spec_is_entry(&self) -> bool {
        self.label_ident is None
    }

    /// A node without successors.
    pub fn new(label_ident: Option<EmitLabelIdent>, target: Option<usize>) -> (r: EmitNode)
        ensures
            r.label_ident == label_ident,
            r.target == target,
            r.succs() == Set::<EmitSucc>::empty(),
    {
        let r = EmitNode { label_ident, succ_emits: HashSet::new(), succ_labels: HashSet::new(), target };
        assert(r.succs() =~= Set::<EmitSucc>::empty());
        r
    }

    /// Whether this is the exit node.
    pub fn is_exit(&self) -> (r: bool)
        ensures
            r == self.spec_is_exit(),
    {
        self.label_ident.is_some() && self.target.is_none()
    }

    /// Whether this is the entry node.
    pub fn is_entry(&self) -> (r: bool)
        ensures
            r == self.spec_is_entry(),
    {
        self.label_ident.is_none()
    }

    /// Adds a successor.
    pub fn insert_succ(&mut self, succ: EmitSucc)
        ensures
            final(self).succs() == old(self).succs().insert(succ),
            final(self).label_ident == old(self).label_ident,
            final(self).target == old(self).target,
    {
        match succ {
            EmitSucc::Emit(i) => {
                self.succ_emits.insert(i);
            },
            EmitSucc::Label(j) => {
                self.succ_labels.insert(j);
            },
        }
        assert(self.succs() =~= old(self).succs().insert(succ));
    }
}

/// A label that control can jump to, with the emit nodes it is bound to.
pub struct LabelNode {
    pub bound_to: HashSet<usize>,
}

impl LabelNode {
    /// A label bound to nothing yet.
    pub fn new() -> (r: LabelNode)
        ensures
            r.bound_to@ == Set::<usize>::empty(),
    {
        LabelNode { bound_to: HashSet::new() }
    }
}

/// The emit nodes and label nodes of a flow graph.
pub struct FlowGraph {
    pub emit_nodes: Vec<EmitNode>,
    pub label_nodes: Vec<LabelNode>,
}

impl FlowGraph {
    /// Every successor and every binding refers to a node of the graph.
    pub open spec fn wf(&self) -> bool {
        &&& forall|i: int, e: usize|
            0 <= i < self.emit_nodes@.len() && #[trigger] self.emit_nodes@[i].succ_emits@.contains(e)
                ==> e < self.emit_nodes@.len()
        &&& forall|i: int, l: usize|
            0 <= i < self.emit_nodes@.len() && #[trigger] self.emit_nodes@[i].succ_labels@.contains(l)
                ==> l < self.label_nodes@.len()
        &&& forall|j: int, e: usize|
            0 <= j < self.label_nodes@.len() && #[trigger] self.label_nodes@[j].bound_to@.contains(e)
                ==> e < self.emit_nodes@.len()
    }

    /// The graph without nodes.
    pub fn new() -> (r: FlowGraph)
        ensures
            r.emit_nodes@.len() == 0,
            r.label_nodes@.len() == 0,
            r.wf(),
    {
        FlowGraph { emit_nodes: Vec::new(), label_nodes: Vec::new() }
    }

    /// The exit node, which comes first.
    pub fn exit_emit_node_index(&self) -> (r: usize)
        requires
            self.emit_nodes@.len() > 0,
            self.emit_nodes@[0].spec_is_exit(),
        ensures
            r == 0,
    {
        0
    }

    /// The entry node, which follows the exit node.
    pub fn entry_emit_node_index(&self) -> (r: usize)
        requires
            self.emit_nodes@.len() > 1,
            self.emit_nodes@[0].spec_is_exit(),
            self.emit_nodes@[1].spec_is_entry(),
        ensures
            r == 1,
    {
        let exit_emit_node_index = self.exit_emit_node_index();
        exit_emit_node_index + 1
    }

    /// The exit label node, which comes first and is bound to the exit
    /// node alone.
    pub fn exit_label_node_index(&self) -> (r: usize)
        requires
            self.emit_nodes@.len() > 0,
            self.emit_nodes@[0].spec_is_exit(),
            self.label_nodes@.len() > 0,
            self.label_nodes@[0].bound_to@ == set![0usize],
        ensures
            r == 0,
    {
        0
    }

    /// Binds a label node to an emit node.
    pub fn link_label_to_emit(&mut self, label_node_index: usize, emit_node_index: usize)
        requires
            label_node_index < old(self).label_nodes@.len(),
        ensures
            final(self).emit_nodes@ == old(self).emit_nodes@,
            final(self).label_nodes@.len() == old(self).label_nodes@.len(),
            forall|j: int|
                0 <= j < final(self).label_nodes@.len() ==> (#[trigger] final(self).label_nodes@[j]).bound_to@
                    == if j == label_node_index {
                    old(self).label_nodes@[j].bound_to@.insert(emit_node_index)
                } else {
                    old(self).label_nodes@[j].bound_to@
                },
    {
        self.label_nodes[label_node_index].bound_to.insert(emit_node_index);
    }
}

/// The working state of flow tracing: the emit nodes that precede the
/// current point, and the labels bound at it.
pub struct FlowState {
    pub pred_emits: HashSet<usize>,
    pub bound_labels: HashSet<usize>,
}

impl FlowState {
    /// The state with nothing in it.
    pub fn new() -> (r: FlowState)
        ensures
            r.pred_emits@ == Set::<usize>::empty(),
            r.bound_labels@ == Set::<usize>::empty(),
    {
        FlowState { pred_emits: HashSet::new(), bound_labels: HashSet::new() }
    }

    /// Whether the state holds nothing.
    pub fn is_empty(&self) -> (r: bool)
        ensures
            r == (self.pred_emits@.is_empty() && self.bound_labels@.is_empty()),
    {
        self.pred_emits.is_empty() && self.bound_labels.is_empty()
    }

    /// Empties the state.
    pub fn clear(&mut self)
        ensures
            final(self).pred_emits@ == Set::<usize>::empty(),
            final(self).bound_labels@ == Set::<usize>::empty(),
    {
        self.pred_emits.clear();
        self.bound_labels.clear();
    }

    /// Moves everything in `other` into this state.
    pub fn append(&mut self, other: &mut FlowState)
        ensures
            final(self).pred_emits@ == old(self).pred_emits@ + old(other).pred_emits@,
            final(self).bound_labels@ == old(self).bound_labels@ + old(other).bound_labels@,
            final(other).pred_emits@ == Set::<usize>::empty(),
            final(other).bound_labels@ == Set::<usize>::empty(),
    {
        union_into(&mut self.pred_emits, &other.pred_emits);
        union_into(&mut self.bound_labels, &other.bound_labels);
        other.clear();
    }
}

/// Adds every element of `other` to `set`.
fn union_into(set: &mut HashSet<usize>, other: &HashSet<usize>)
    ensures
        final(set)@ == old(set)@ + other@,
{
    let ghost start = set@;
    for x in it: other.iter()
        invariant
            it.seq() == spec_hash_keys_iter(other).remaining(),
            set@ == start + Set::new(|y: usize| exists|k: int| 0 <= k < it.index() && *it.seq()[k] == y),
    {
        let ghost before = set@;
        set.insert(*x);
        proof {
            let k0 = it.index();
            assert(set@ =~= start + Set::new(
                |y: usize| exists|k: int| 0 <= k < k0 + 1 && *it.seq()[k] == y,
            )) by {
                assert forall|y: usize| set@.contains(y) implies (start + Set::new(
                    |y: usize| exists|k: int| 0 <= k < k0 + 1 && *it.seq()[k] == y,
                )).contains(y) by {
                    if y == *x {
                        assert(*it.seq()[k0] == y);
                    }
                }
            }
        }
    }
    proof {
        let keys = spec_hash_keys_iter(other).remaining();
        assert(Set::new(|y: usize| exists|k: int| 0 <= k < keys.len() && *keys[k] == y) =~= other@)
            by {
            assert forall|y: usize| other@.contains(y) implies exists|k: int|
                0 <= k < keys.len() && *keys[k] == y by {
                assert(keys.unref().to_set().contains(y));
                let k = choose|k: int| 0 <= k < keys.unref().len() && keys.unref()[k] == y;
                assert(*keys[k] == y);
            }
            assert forall|y: usize|
                (exists|k: int| 0 <= k < keys.len() && *keys[k] == y) implies other@.contains(y) by {
                let k = choose|k: int| 0 <= k < keys.len() && *keys[k] == y;
                assert(keys.unref()[k] == y);
                assert(keys.unref().to_set().contains(y));
            }
        }
    }
}

/// The successors a flow tracer may add: nodes of its graph.
pub open spec fn succ_in(g: FlowGraph, succ: EmitSucc) -> bool {
    match succ {
        EmitSucc::Emit(i) => i < g.emit_nodes@.len(),
        EmitSucc::Label(j) => j < g.label_nodes@.len(),
    }
}

/// `new` holds the emit nodes of `old`, with the same labels and targets,
/// and with `succ` added to the successors of the nodes in `preds`.
pub open spec fn succ_added(old: Seq<EmitNode>, new: Seq<EmitNode>, preds: Set<usize>, succ: EmitSucc) -> bool {
    &&& new.len() == old.len()
    &&& forall|n: int|
        #![trigger new[n]]
        0 <= n < new.len() ==> {
            &&& new[n].label_ident == old[n].label_ident
            &&& new[n].target == old[n].target
            &&& new[n].succs() == if preds.contains(n as usize) {
                old[n].succs().insert(succ)
            } else {
                old[n].succs()
            }
        }
}

/// `new` holds the label nodes of `old`, with the labels in `labels` also
/// bound to `emit`.
pub open spec fn labels_bound(old: Seq<LabelNode>, new: Seq<LabelNode>, labels: Set<usize>, emit: usize) -> bool {
    &&& new.len() == old.len()
    &&& forall|j: int|
        #![trigger new[j]]
        0 <= j < new.len() ==> new[j].bound_to@ == if labels.contains(j as usize) {
            old[j].bound_to@.insert(emit)
        } else {
            old[j].bound_to@
        }
}

/// The state of the flow tracer: the graph under construction, the index of
/// the next emit in the current callable, the label nodes that the labels
/// in scope stand for, the current working state, and the state gathered
/// at the points where the current callable returns.
pub struct FlowTracer {
    pub graph: FlowGraph,
    pub next_local_emit_index: usize,
    pub label_scope: HashMap<usize, usize>,
    pub curr_state: FlowState,
    pub exit_state: FlowState,
}

impl FlowTracer {
    /// Every node index that the tracer holds refers to a node of its graph.
    pub open spec fn wf(&self) -> bool {
        let emits = self.graph.emit_nodes@.len();
        let labels = self.graph.label_nodes@.len();
        &&& self.graph.wf()
        &&& forall|e: usize| #[trigger] self.curr_state.pred_emits@.contains(e) ==> e < emits
        &&& forall|e: usize| #[trigger] self.exit_state.pred_emits@.contains(e) ==> e < emits
        &&& forall|l: usize| #[trigger] self.curr_state.bound_labels@.contains(l) ==> l < labels
        &&& forall|l: usize| #[trigger] self.exit_state.bound_labels@.contains(l) ==> l < labels
        &&& forall|k: usize| #[trigger] self.label_scope@.contains_key(k) ==> self.label_scope@[k] < labels
    }

    /// A tracer with an empty graph and nothing in scope.
    pub fn new() -> (r: FlowTracer)
        ensures
            r.wf(),
            r.graph.emit_nodes@.len() == 0,
            r.graph.label_nodes@.len() == 0,
            r.next_local_emit_index == 0,
            r.label_scope@ == Map::<usize, usize>::empty(),
            r.curr_state.pred_emits@.is_empty(),
            r.curr_state.bound_labels@.is_empty(),
            r.exit_state.pred_emits@.is_empty(),
            r.exit_state.bound_labels@.is_empty(),
    {
        FlowTracer {
            graph: FlowGraph::new(),
            next_local_emit_index: 0,
            label_scope: HashMap::new(),
            curr_state: FlowState::new(),
            exit_state: FlowState::new(),
        }
    }

    /// Adds an emit node without successors, and returns its index.
    pub fn insert_emit_node(&mut self, label_ident: Option<EmitLabelIdent>, target: Option<usize>) -> (r: usize)
        requires
            old(self).wf(),
        ensures
            final(self).wf(),
            r == old(self).graph.emit_nodes@.len(),
            final(self).graph.emit_nodes@.len() == r + 1,
            final(self).graph.emit_nodes@.take(r as int) == old(self).graph.emit_nodes@,
            final(self).graph.emit_nodes@[r as int].label_ident == label_ident,
            final(self).graph.emit_nodes@[r as int].target == target,
            final(self).graph.emit_nodes@[r as int].succs() == Set::<EmitSucc>::empty(),
            final(self).graph.label_nodes@ == old(self).graph.label_nodes@,
            final(self).curr_state == old(self).curr_state,
            final(self).exit_state == old(self).exit_state,
            final(self).label_scope == old(self).label_scope,
            final(self).next_local_emit_index == old(self).next_local_emit_index,
    {
        let r = self.graph.emit_nodes.len();
        let node = EmitNode::new(label_ident, target);
        proof {
            assert(node.succ_emits@ == Set::<usize>::empty()) by {
                assert(!node.succs().contains(EmitSucc::Emit(0)));
                assert forall|e: usize| !node.succ_emits@.contains(e) by {
                    assert(!node.succs().contains(EmitSucc::Emit(e)));
                }
                assert(node.succ_emits@ =~= Set::<usize>::empty());
            }
            assert(node.succ_labels@ == Set::<usize>::empty()) by {
                assert forall|l: usize| !node.succ_labels@.contains(l) by {
                    assert(!node.succs().contains(EmitSucc::Label(l)));
                }
                assert(node.succ_labels@ =~= Set::<usize>::empty());
            }
        }
        self.graph.emit_nodes.push(node);
        assert(self.graph.emit_nodes@.take(r as int) =~= old(self).graph.emit_nodes@);
        r
    }

    /// Adds `succ` to the successors of every emit node that precedes the
    /// current point, and then forgets those predecessors.
    pub fn link_pred_emits_to_succ(&mut self, succ: EmitSucc)
        requires
            old(self).wf(),
            succ_in(old(self).graph, succ),
        ensures
            final(self).wf(),
            succ_added(
                old(self).graph.emit_nodes@,
                final(self).graph.emit_nodes@,
                old(self).curr_state.pred_emits@,
                succ,
            ),
            final(self).graph.label_nodes@ == old(self).graph.label_nodes@,
            final(self).curr_state.pred_emits@ == Set::<usize>::empty(),
            final(self).curr_state.bound_labels@ == old(self).curr_state.bound_labels@,
            final(self).exit_state == old(self).exit_state,
            final(self).label_scope == old(self).label_scope,
            final(self).next_local_emit_index == old(self).next_local_emit_index,
    {
        let ghost old_nodes = self.graph.emit_nodes@;
        let ghost preds = self.curr_state.pred_emits@;
        let emits_len = self.graph.emit_nodes.len();
        for pred in it: self.curr_state.pred_emits.iter()
            invariant
                it.seq() == spec_hash_keys_iter(&self.curr_state.pred_emits).remaining(),
                preds == self.curr_state.pred_emits@,
                old_nodes.len() == emits_len,
                self.curr_state.bound_labels@ == old(self).curr_state.bound_labels@,
                self.exit_state == old(self).exit_state,
                self.label_scope == old(self).label_scope,
                self.next_local_emit_index == old(self).next_local_emit_index,
                self.wf(),
                succ_in(self.graph, succ),
                self.graph.label_nodes@ == old(self).graph.label_nodes@,
                succ_added(
                    old_nodes,
                    self.graph.emit_nodes@,
                    Set::new(|y: usize| exists|k: int| 0 <= k < it.index() && *it.seq()[k] == y),
                    succ,
                ),
        {
            let ghost before = self.graph.emit_nodes@;
            proof {
                let keys = it.seq();
                assert(keys.unref()[it.index()] == *pred);
                assert(keys.unref().to_set().contains(*pred));
            }
            self.graph.emit_nodes[*pred].insert_succ(succ);
            proof {
                let k0 = it.index();
                let done = Set::new(|y: usize| exists|k: int| 0 <= k < k0 + 1 && *it.seq()[k] == y);
                assert forall|n: int| 0 <= n < self.graph.emit_nodes@.len() implies (
                #[trigger] self.graph.emit_nodes@[n]).succs() == if done.contains(n as usize) {
                    old_nodes[n].succs().insert(succ)
                } else {
                    old_nodes[n].succs()
                } by {
                    if n == *pred {
                        assert(*it.seq()[k0] == n as usize);
                        assert(done.contains(n as usize));
                    } else {
                        assert(self.graph.emit_nodes@[n] == before[n]);
                        if done.contains(n as usize) {
                            let k = choose|k: int| 0 <= k < k0 + 1 && *it.seq()[k] == n as usize;
                            assert(k != k0);
                        }
                    }
                }
                assert(self.graph.wf()) by {
                    assert forall|i: int, e: usize|
                        0 <= i < self.graph.emit_nodes@.len()
                            && #[trigger] self.graph.emit_nodes@[i].succ_emits@.contains(e) implies e
                        < self.graph.emit_nodes@.len() by {
                        if i != *pred {
                            assert(self.graph.emit_nodes@[i] == before[i]);
                        } else {
                            assert(self.graph.emit_nodes@[i].succs().contains(EmitSucc::Emit(e)));
                        }
                    }
                    assert forall|i: int, l: usize|
                        0 <= i < self.graph.emit_nodes@.len()
                            && #[trigger] self.graph.emit_nodes@[i].succ_labels@.contains(l) implies l
                        < self.graph.label_nodes@.len() by {
                        if i != *pred {
                            assert(self.graph.emit_nodes@[i] == before[i]);
                        } else {
                            assert(self.graph.emit_nodes@[i].succs().contains(EmitSucc::Label(l)));
                        }
                    }
                }
            }
        }
        proof {
            let keys = spec_hash_keys_iter(&self.curr_state.pred_emits).remaining();
            assert(Set::new(|y: usize| exists|k: int| 0 <= k < keys.len() && *keys[k] == y) =~= preds)
                by {
                assert forall|y: usize| preds.contains(y) implies exists|k: int|
                    0 <= k < keys.len() && *keys[k] == y by {
                    assert(keys.unref().to_set().contains(y));
                    let k = choose|k: int| 0 <= k < keys.unref().len() && keys.unref()[k] == y;
                    assert(*keys[k] == y);
                }
                assert forall|y: usize|
                    (exists|k: int| 0 <= k < keys.len() && *keys[k] == y) implies preds.contains(y) by {
                    let k = choose|k: int| 0 <= k < keys.len() && *keys[k] == y;
                    assert(keys.unref()[k] == y);
                    assert(keys.unref().to_set().contains(y));
                }
            }
        }
        self.curr_state.pred_emits.clear();
    }

    /// Binds every label bound at the current point to `emit_node_index`,
    /// and then forgets those labels.
    pub fn link_bound_labels_to_emit(&mut self, emit_node_index: usize)
        requires
            old(self).wf(),
            emit_node_index < old(self).graph.emit_nodes@.len(),
        ensures
            final(self).wf(),
            final(self).graph.emit_nodes@ == old(self).graph.emit_nodes@,
            labels_bound(
                old(self).graph.label_nodes@,
                final(self).graph.label_nodes@,
                old(self).curr_state.bound_labels@,
                emit_node_index,
            ),
            final(self).curr_state.pred_emits@ == old(self).curr_state.pred_emits@,
            final(self).curr_state.bound_labels@ == Set::<usize>::empty(),
            final(self).exit_state == old(self).exit_state,
            final(self).label_scope == old(self).label_scope,
            final(self).next_local_emit_index == old(self).next_local_emit_index,
    {
        let ghost old_labels = self.graph.label_nodes@;
        let ghost bound = self.curr_state.bound_labels@;
        let labels_len = self.graph.label_nodes.len();
        for label in it: self.curr_state.bound_labels.iter()
            invariant
                it.seq() == spec_hash_keys_iter(&self.curr_state.bound_labels).remaining(),
                bound == self.curr_state.bound_labels@,
                old_labels.len() == labels_len,
                emit_node_index < self.graph.emit_nodes@.len(),
                self.graph.emit_nodes@ == old(self).graph.emit_nodes@,
                self.curr_state.pred_emits@ == old(self).curr_state.pred_emits@,
                self.exit_state == old(self).exit_state,
                self.label_scope == old(self).label_scope,
                self.next_local_emit_index == old(self).next_local_emit_index,
                self.wf(),
                labels_bound(
                    old_labels,
                    self.graph.label_nodes@,
                    Set::new(|y: usize| exists|k: int| 0 <= k < it.index() && *it.seq()[k] == y),
                    emit_node_index,
                ),
        {
            let ghost before = self.graph.label_nodes@;
            proof {
                let keys = it.seq();
                assert(keys.unref()[it.index()] == *label);
                assert(keys.unref().to_set().contains(*label));
            }
            self.graph.link_label_to_emit(*label, emit_node_index);
            proof {
                let k0 = it.index();
                let done = Set::new(|y: usize| exists|k: int| 0 <= k < k0 + 1 && *it.seq()[k] == y);
                assert forall|j: int| 0 <= j < self.graph.label_nodes@.len() implies (
                #[trigger] self.graph.label_nodes@[j]).bound_to@ == if done.contains(j as usize) {
                    old_labels[j].bound_to@.insert(emit_node_index)
                } else {
                    old_labels[j].bound_to@
                } by {
                    if j == *label as int {
                        assert(*it.seq()[k0] == j as usize);
                        assert(done.contains(j as usize));
                    } else if done.contains(j as usize) {
                        let k = choose|k: int| 0 <= k < k0 + 1 && *it.seq()[k] == j as usize;
                        assert(k != k0);
                    }
                }
                assert(self.graph.wf()) by {
                    assert forall|j: int, e: usize|
                        0 <= j < self.graph.label_nodes@.len()
                            && #[trigger] self.graph.label_nodes@[j].bound_to@.contains(e) implies e
                        < self.graph.emit_nodes@.len() by {
                        if j != *label as int {
                            assert(self.graph.label_nodes@[j].bound_to@ == before[j].bound_to@);
                        }
                    }
                }
            }
        }
        proof {
            let keys = spec_hash_keys_iter(&self.curr_state.bound_labels).remaining();
            assert(Set::new(|y: usize| exists|k: int| 0 <= k < keys.len() && *keys[k] == y) =~= bound)
                by {
                assert forall|y: usize| bound.contains(y) implies exists|k: int|
                    0 <= k < keys.len() && *keys[k] == y by {
                    assert(keys.unref().to_set().contains(y));
                    let k = choose|k: int| 0 <= k < keys.unref().len() && keys.unref()[k] == y;
                    assert(*keys[k] == y);
                }
                assert forall|y: usize|
                    (exists|k: int| 0 <= k < keys.len() && *keys[k] == y) implies bound.contains(y) by {
                    let k = choose|k: int| 0 <= k < keys.len() && *keys[k] == y;
                    assert(keys.unref()[k] == y);
                    assert(keys.unref().to_set().contains(y));
                }
            }
        }
        self.curr_state.bound_labels.clear();
    }

    /// Makes the emit node `emit_node_index` the successor of every emit
    /// node that precedes the current point, and binds every label bound at
    /// it to that node; then forgets both.
    pub fn link_emit_node(&mut self, emit_node_index: usize)
        requires
            old(self).wf(),
            emit_node_index < old(self).graph.emit_nodes@.len(),
        ensures
            final(self).wf(),
            succ_added(
                old(self).graph.emit_nodes@,
                final(self).graph.emit_nodes@,
                old(self).curr_state.pred_emits@,
                EmitSucc::Emit(emit_node_index),
            ),
            labels_bound(
                old(self).graph.label_nodes@,
                final(self).graph.label_nodes@,
                old(self).curr_state.bound_labels@,
                emit_node_index,
            ),
            final(self).curr_state.pred_emits@ == Set::<usize>::empty(),
            final(self).curr_state.bound_labels@ == Set::<usize>::empty(),
            final(self).exit_state == old(self).exit_state,
            final(self).label_scope == old(self).label_scope,
            final(self).next_local_emit_index == old(self).next_local_emit_index,
    {
        self.link_pred_emits_to_succ(EmitSucc::Emit(emit_node_index));
        self.link_bound_labels_to_emit(emit_node_index);
    }

    /// Adds an emit node at the current point: it becomes the successor of
    /// the preceding emit nodes and the node the bound labels are bound to,
    /// and then the only predecessor of what follows.
    pub fn insert_and_link_emit_node(&mut self, label_ident: Option<EmitLabelIdent>, target: Option<usize>)
        requires
            old(self).wf(),
        ensures
            final(self).wf(),
            ({
                let r = old(self).graph.emit_nodes@.len();
                &&& final(self).graph.emit_nodes@.len() == r + 1
                &&& succ_added(
                    old(self).graph.emit_nodes@,
                    final(self).graph.emit_nodes@.take(r as int),
                    old(self).curr_state.pred_emits@,
                    EmitSucc::Emit(r as usize),
                )
                &&& final(self).graph.emit_nodes@[r as int].label_ident == label_ident
                &&& final(self).graph.emit_nodes@[r as int].target == target
                &&& final(self).graph.emit_nodes@[r as int].succs() == Set::<EmitSucc>::empty()
                &&& labels_bound(
                    old(self).graph.label_nodes@,
                    final(self).graph.label_nodes@,
                    old(self).curr_state.bound_labels@,
                    r as usize,
                )
                &&& final(self).curr_state.pred_emits@ == set![r as usize]
            }),
            final(self).curr_state.bound_labels@ == Set::<usize>::empty(),
            final(self).exit_state == old(self).exit_state,
            final(self).label_scope == old(self).label_scope,
            final(self).next_local_emit_index == old(self).next_local_emit_index,
    {
        let emit_node_index = self.insert_emit_node(label_ident, target);
        let ghost inserted = self.graph.emit_nodes@;
        proof {
            assert(!self.curr_state.pred_emits@.contains(emit_node_index));
        }
        self.link_emit_node(emit_node_index);
        self.curr_state.pred_emits.insert(emit_node_index);
        proof {
            let r = emit_node_index as int;
            let fin = self.graph.emit_nodes@;
            assert(fin[r] == fin.take(r + 1)[r]);
            assert(self.curr_state.pred_emits@ =~= set![emit_node_index]);
            assert forall|n: int| #![trigger fin.take(r)[n]] 0 <= n < r implies fin.take(r)[n] == fin[n] by {}
            assert forall|n: int| #![trigger inserted[n]] 0 <= n < r implies inserted[n] == old(self).graph.emit_nodes@[n] by {
                assert(inserted.take(r)[n] == inserted[n]);
            }
        }
    }

    /// Adds the entry emit node at the current point.
    pub fn insert_entry_emit_node(&mut self)
        requires
            old(self).wf(),
        ensures
            final(self).wf(),
            final(self).graph.emit_nodes@.len() == old(self).graph.emit_nodes@.len() + 1,
            final(self).graph.emit_nodes@[old(self).graph.emit_nodes@.len() as int].spec_is_entry(),
            final(self).curr_state.pred_emits@ == set![old(self).graph.emit_nodes@.len() as usize],
    {
        self.insert_and_link_emit_node(None, None);
    }

    /// Adds the exit emit node, which comes first.
    pub fn insert_exit_emit_node(&mut self)
        requires
            old(self).wf(),
            old(self).graph.emit_nodes@.len() == 0,
            old(self).curr_state.pred_emits@.is_empty(),
        ensures
            final(self).wf(),
            final(self).graph.emit_nodes@.len() == 1,
            final(self).graph.emit_nodes@[0].spec_is_exit(),
            final(self).graph.emit_nodes@[0].succs() == Set::<EmitSucc>::empty(),
            final(self).graph.label_nodes@ == old(self).graph.label_nodes@,
            final(self).curr_state == old(self).curr_state,
    {
        self.insert_emit_node(Some(EmitLabelIdent::exit()), None);
    }

    /// Makes the exit emit node the successor of the preceding emit nodes
    /// and the node the bound labels are bound to.
    pub fn link_exit_emit_node(&mut self)
        requires
            old(self).wf(),
            old(self).graph.emit_nodes@.len() > 0,
            old(self).graph.emit_nodes@[0].spec_is_exit(),
        ensures
            final(self).wf(),
            succ_added(
                old(self).graph.emit_nodes@,
                final(self).graph.emit_nodes@,
                old(self).curr_state.pred_emits@,
                EmitSucc::Emit(0),
            ),
            labels_bound(
                old(self).graph.label_nodes@,
                final(self).graph.label_nodes@,
                old(self).curr_state.bound_labels@,
                0,
            ),
            final(self).curr_state.pred_emits@ == Set::<usize>::empty(),
            final(self).curr_state.bound_labels@ == Set::<usize>::empty(),
    {
        let exit_emit_node_index = self.graph.exit_emit_node_index();
        self.link_emit_node(exit_emit_node_index);
    }

    /// The index of the next emit in the current callable; advances it.
    pub fn take_local_emit_index(&mut self) -> (r: usize)
        requires
            old(self).next_local_emit_index < usize::MAX,
        ensures
            r == old(self).next_local_emit_index,
            final(self).next_local_emit_index == r + 1,
            final(self).graph == old(self).graph,
            final(self).curr_state == old(self).curr_state,
            final(self).exit_state == old(self).exit_state,
            final(self).label_scope == old(self).label_scope,
    {
        let local_emit_index = self.next_local_emit_index;
        self.next_local_emit_index = local_emit_index + 1;
        local_emit_index
    }

    /// Adds a label node for the label `label_index`, which now stands for
    /// it, and returns its index.
    pub fn insert_label_node(&mut self, label_index: usize) -> (r: usize)
        requires
            old(self).wf(),
        ensures
            final(self).wf(),
            r == old(self).graph.label_nodes@.len(),
            final(self).graph.label_nodes@.len() == r + 1,
            final(self).graph.label_nodes@.take(r as int) == old(self).graph.label_nodes@,
            final(self).graph.label_nodes@[r as int].bound_to@ == Set::<usize>::empty(),
            final(self).graph.emit_nodes@ == old(self).graph.emit_nodes@,
            final(self).label_scope@ == old(self).label_scope@.insert(label_index, r),
            final(self).curr_state == old(self).curr_state,
            final(self).exit_state == old(self).exit_state,
    {
        let label_node_index = self.graph.label_nodes.len();
        self.graph.label_nodes.push(LabelNode::new());
        self.label_scope.insert(label_index, label_node_index);
        assert(self.graph.label_nodes@.take(label_node_index as int) =~= old(self).graph.label_nodes@);
        label_node_index
    }

    /// Adds the exit label node, which comes first and is bound to the exit
    /// emit node.
    pub fn insert_exit_label_node(&mut self)
        requires
            old(self).wf(),
            old(self).graph.label_nodes@.len() == 0,
            old(self).graph.emit_nodes@.len() > 0,
            old(self).graph.emit_nodes@[0].spec_is_exit(),
        ensures
            final(self).wf(),
            final(self).graph.label_nodes@.len() == 1,
            final(self).graph.label_nodes@[0].bound_to@ == set![0usize],
            final(self).graph.emit_nodes@ == old(self).graph.emit_nodes@,
            final(self).curr_state == old(self).curr_state,
            final(self).exit_state == old(self).exit_state,
            final(self).label_scope == old(self).label_scope,
    {
        let exit_emit_node_index = self.graph.exit_emit_node_index();
        let mut bound_to = HashSet::new();
        bound_to.insert(exit_emit_node_index);
        assert(bound_to@ =~= set![0usize]);
        self.graph.label_nodes.push(LabelNode { bound_to });
    }

    /// A `goto` at the current point: the label's node becomes the successor
    /// of the preceding emit nodes.
    pub fn trace_goto_stmt(&mut self, label: usize)
        requires
            old(self).wf(),
            old(self).label_scope@.contains_key(label),
        ensures
            final(self).wf(),
            succ_added(
                old(self).graph.emit_nodes@,
                final(self).graph.emit_nodes@,
                old(self).curr_state.pred_emits@,
                EmitSucc::Label(old(self).label_scope@[label]),
            ),
            final(self).graph.label_nodes@ == old(self).graph.label_nodes@,
            final(self).curr_state.pred_emits@ == Set::<usize>::empty(),
            final(self).curr_state.bound_labels@ == old(self).curr_state.bound_labels@,
    {
        let label_node_index = *self.label_scope.get(&label).unwrap();
        self.link_pred_emits_to_succ(EmitSucc::Label(label_node_index));
    }

    /// A `bind` at the current point: the label is bound to whatever emit
    /// node comes next.
    pub fn trace_bind_stmt(&mut self, label: usize)
        requires
            old(self).wf(),
            old(self).label_scope@.contains_key(label),
        ensures
            final(self).wf(),
            final(self).graph == old(self).graph,
            final(self).curr_state.pred_emits@ == old(self).curr_state.pred_emits@,
            final(self).curr_state.bound_labels@ == old(self).curr_state.bound_labels@.insert(
                old(self).label_scope@[label],
            ),
    {
        let label_node_index = *self.label_scope.get(&label).unwrap();
        self.curr_state.bound_labels.insert(label_node_index);
    }
}

} // verus!
