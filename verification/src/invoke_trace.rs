//! Flow tracing at the invocation of a function: what it does to the
//! control-flow graph of the emitted code, and the emit label under which
//! the function's own body is traced.

use vstd::prelude::*;

use crate::bpl_names::{EmitFnLabelSegment, EmitLabelIdent, EmitLabelSegment, EmitLabelSegmentIdent};
use crate::compiler::{user_fn, user_fn_ident};
use crate::flat::FlatEnv;
use crate::flow::FlowTracer;

verus! {

/// An argument of an invocation, as flow tracing sees it: a label of an IR,
/// passed in or out, or any other argument.
pub enum FlatArg {
    Label { label: usize, ir: usize, is_out: bool },
    Other,
}

/// An invocation of function `target` with the arguments `args`.
pub struct InvokeExprModel {
    pub target: usize,
    pub args: Vec<FlatArg>,
}

/// The labels of IR `bottom` passed out among `args`, in order.
pub open spec fn out_label_args(args: Seq<FlatArg>, bottom: usize) -> Seq<usize>
    decreases args.len(),
{
    if args.len() == 0 {
        seq![]
    } else {
        let r = out_label_args(args.drop_last(), bottom);
        match args.last() {
            FlatArg::Label { label, ir, is_out } => if is_out && ir == bottom {
                r.push(label)
            } else {
                r
            },
            _ => r,
        }
    }
}

/// The label nodes that stand for the labels `labels` in `scope`.
pub open spec fn label_nodes_of(scope: Map<usize, usize>, labels: Seq<usize>) -> Set<usize> {
    Set::new(|j: usize| exists|m: int| 0 <= m < labels.len() && #[trigger] scope[labels[m]] == j)
}

impl FlowTracer {
    /// Traces the invocation `e` of a function, with the bottom IR `bottom`
    /// and the current emit label `curr`. An external function binds each
    /// label of the bottom IR passed out to it to the exit. A function with a
    /// body matters only when it emits ops or binds such labels: then the
    /// result is the emit label under which its body is to be traced, which
    /// adds a step for the function, at the next local emit index, when it
    /// emits. Otherwise nothing changes and the result is `None`.
    pub fn trace_invoke_expr(
        &mut self,
        env: &FlatEnv,
        bottom: usize,
        curr: &EmitLabelIdent,
        e: &InvokeExprModel,
    ) -> (r: Option<EmitLabelIdent>)
        requires
            old(self).wf(),
            e.target < env.fn_items@.len(),
            old(self).graph.emit_nodes@.len() > 0,
            old(self).graph.emit_nodes@[0].spec_is_exit(),
            old(self).next_local_emit_index < usize::MAX,
            forall|k: int|
                0 <= k < e.args@.len() ==> (#[trigger] e.args@[k] matches FlatArg::Label {
                    label,
                    ir,
                    is_out,
                } ==> (is_out && ir == bottom ==> old(self).label_scope@.contains_key(label))),
        ensures
            final(self).wf(),
            final(self).graph.emit_nodes@ == old(self).graph.emit_nodes@,
            final(self).graph.label_nodes@.len() == old(self).graph.label_nodes@.len(),
            final(self).curr_state == old(self).curr_state,
            final(self).exit_state == old(self).exit_state,
            final(self).label_scope == old(self).label_scope,
            ({
                let callee = env.fn_items@[e.target as int];
                let outs = out_label_args(e.args@, bottom);
                if !callee.has_body {
                    &&& r is None
                    &&& final(self).next_local_emit_index == old(self).next_local_emit_index
                    &&& forall|j: int|
                        0 <= j < final(self).graph.label_nodes@.len() ==> (#[trigger] final(self).graph.label_nodes@[j]).bound_to@ == if label_nodes_of(
                            old(self).label_scope@,
                            outs,
                        ).contains(j as usize) {
                            old(self).graph.label_nodes@[j].bound_to@.insert(0)
                        } else {
                            old(self).graph.label_nodes@[j].bound_to@
                        }
                } else {
                    &&& final(self).graph.label_nodes@ == old(self).graph.label_nodes@
                    &&& if callee.emits {
                        &&& r matches Some(l) && l.segments@ == curr.segments@.push(
                            EmitLabelSegment {
                                local_emit_index: old(self).next_local_emit_index,
                                ident: EmitLabelSegmentIdent::Fn(
                                    EmitFnLabelSegment { user_fn_ident: user_fn(callee) },
                                ),
                            },
                        )
                        &&& final(self).next_local_emit_index == old(self).next_local_emit_index + 1
                    } else {
                        &&& final(self).next_local_emit_index == old(self).next_local_emit_index
                        &&& if outs.len() > 0 {
                            r matches Some(l) && l.segments@ == curr.segments@
                        } else {
                            r is None
                        }
                    }
                }
            }),
    {
        let callee = &env.fn_items[e.target];
        let ghost outs = out_label_args(e.args@, bottom);
        let ghost scope = self.label_scope@;
        let ghost old_labels = self.graph.label_nodes@;
        if !callee.has_body {
            let exit = self.graph.exit_emit_node_index();
            let mut i: usize = 0;
            while i < e.args.len()
                invariant
                    self.wf(),
                    i <= e.args@.len(),
                    outs == out_label_args(e.args@, bottom),
                    scope == self.label_scope@,
                    exit == 0,
                    self.graph.emit_nodes@ == old(self).graph.emit_nodes@,
                    self.graph.emit_nodes@.len() > 0,
                    self.graph.label_nodes@.len() == old_labels.len(),
                    self.curr_state == old(self).curr_state,
                    self.exit_state == old(self).exit_state,
                    self.label_scope == old(self).label_scope,
                    self.next_local_emit_index == old(self).next_local_emit_index,
                    forall|k: int|
                        0 <= k < e.args@.len() ==> (#[trigger] e.args@[k] matches FlatArg::Label {
                            label,
                            ir,
                            is_out,
                        } ==> (is_out && ir == bottom ==> scope.contains_key(label))),
                    forall|j: int|
                        0 <= j < self.graph.label_nodes@.len() ==> (#[trigger] self.graph.label_nodes@[j]).bound_to@
                            == if label_nodes_of(scope, out_label_args(e.args@.take(i as int), bottom)).contains(
                            j as usize,
                        ) {
                            old_labels[j].bound_to@.insert(0)
                        } else {
                            old_labels[j].bound_to@
                        },
                decreases e.args@.len() - i,
            {
                assert(e.args@.take(i + 1).drop_last() =~= e.args@.take(i as int));
                let ghost prev = out_label_args(e.args@.take(i as int), bottom);
                let ghost cur = out_label_args(e.args@.take(i + 1), bottom);
                match &e.args[i] {
                    FlatArg::Label { label, ir, is_out } => {
                        if *is_out && *ir == bottom {
                            assert(cur == prev.push(*label));
                            let node = *self.label_scope.get(label).unwrap();
                            assert(node == scope[*label]);
                            let ghost before = self.graph.label_nodes@;
                            self.graph.link_label_to_emit(node, exit);
                            proof {
                                lemma_label_nodes_push(scope, prev, *label);
                                assert forall|j: int| 0 <= j < self.graph.label_nodes@.len() implies (#[trigger] self.graph.label_nodes@[j]).bound_to@
                                    == if label_nodes_of(scope, cur).contains(j as usize) {
                                    old_labels[j].bound_to@.insert(0)
                                } else {
                                    old_labels[j].bound_to@
                                } by {
                                    assert(before[j].bound_to@ == if label_nodes_of(scope, prev).contains(j as usize) {
                                        old_labels[j].bound_to@.insert(0)
                                    } else {
                                        old_labels[j].bound_to@
                                    });
                                    assert(self.graph.label_nodes@[j].bound_to@ == if j == node as int {
                                        before[j].bound_to@.insert(0)
                                    } else {
                                        before[j].bound_to@
                                    });
                                    assert(self.graph.label_nodes@.len() <= usize::MAX) by {
                                        vstd::std_specs::vec::axiom_spec_len(&self.graph.label_nodes);
                                    }
                                    assert(j as usize as int == j);
                                    if j == node as int {
                                        assert(label_nodes_of(scope, cur).contains(j as usize));
                                        assert(old_labels[j].bound_to@.insert(0).insert(0) =~= old_labels[j].bound_to@.insert(0));
                                    } else {
                                        assert(label_nodes_of(scope, cur).contains(j as usize) == label_nodes_of(scope, prev).contains(j as usize));
                                    }
                                }
                            }
                        } else {
                            assert(cur == prev);
                        }
                    },
                    FlatArg::Other => {
                        assert(cur == prev);
                    },
                }
                i = i + 1;
            }
            assert(e.args@.take(e.args@.len() as int) =~= e.args@);
            return None;
        }
        let mut has_out_labels = false;
        let mut i: usize = 0;
        while i < e.args.len()
            invariant
                i <= e.args@.len(),
                has_out_labels == (out_label_args(e.args@.take(i as int), bottom).len() > 0),
            decreases e.args@.len() - i,
        {
            assert(e.args@.take(i + 1).drop_last() =~= e.args@.take(i as int));
            match &e.args[i] {
                FlatArg::Label { ir, is_out, .. } => {
                    if *is_out && *ir == bottom {
                        has_out_labels = true;
                    }
                },
                FlatArg::Other => {},
            }
            i = i + 1;
        }
        assert(e.args@.take(e.args@.len() as int) =~= e.args@);
        if callee.emits {
            let index = self.take_local_emit_index();
            let mut segments = curr.segments.clone();
            segments.push(
                EmitLabelSegment {
                    local_emit_index: index,
                    ident: EmitLabelSegmentIdent::Fn(EmitFnLabelSegment { user_fn_ident: user_fn_ident(callee) }),
                },
            );
            Some(EmitLabelIdent { segments })
        } else if has_out_labels {
            Some(curr.clone())
        } else {
            None
        }
    }
}

/// Adding a label adds the node that stands for it.
proof fn lemma_label_nodes_push(scope: Map<usize, usize>, labels: Seq<usize>, label: usize)
    ensures
        label_nodes_of(scope, labels.push(label)) == label_nodes_of(scope, labels).insert(scope[label]),
{
    let cur = labels.push(label);
    assert forall|j: usize| label_nodes_of(scope, cur).contains(j) implies label_nodes_of(scope, labels).insert(scope[label]).contains(j) by {
        let m = choose|m: int| 0 <= m < cur.len() && #[trigger] scope[cur[m]] == j;
        if m < labels.len() {
            assert(cur[m] == labels[m]);
        }
    }
    assert forall|j: usize| label_nodes_of(scope, labels).insert(scope[label]).contains(j) implies label_nodes_of(scope, cur).contains(j) by {
        if j == scope[label] {
            assert(scope[cur[labels.len() as int]] == j);
        } else {
            let m = choose|m: int| 0 <= m < labels.len() && #[trigger] scope[labels[m]] == j;
            assert(cur[m] == labels[m]);
        }
    }
    assert(label_nodes_of(scope, cur) =~= label_nodes_of(scope, labels).insert(scope[label]));
}

} // verus!
