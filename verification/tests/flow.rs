use std::collections::HashSet;

use cachet::bpl_names::EmitLabelIdent;
use cachet::flow::{EmitNode, EmitSucc, FlowGraph, FlowState, FlowTracer, LabelNode};

fn set(items: &[usize]) -> HashSet<usize> {
    items.iter().copied().collect()
}

#[test]
fn flow_state_append_moves_everything() {
    let mut a = FlowState { pred_emits: set(&[1, 2]), bound_labels: set(&[7]) };
    let mut b = FlowState { pred_emits: set(&[2, 3]), bound_labels: set(&[8]) };
    a.append(&mut b);
    assert_eq!(a.pred_emits, set(&[1, 2, 3]));
    assert_eq!(a.bound_labels, set(&[7, 8]));
    assert!(b.is_empty());
    assert!(!a.is_empty());
    a.clear();
    assert!(a.is_empty());
}

#[test]
fn flow_state_new_is_empty() {
    assert!(FlowState::new().is_empty());
}

#[test]
fn emit_node_kinds() {
    let exit = EmitNode::new(Some(EmitLabelIdent::exit()), None);
    assert!(exit.is_exit());
    assert!(!exit.is_entry());
    let entry = EmitNode::new(None, None);
    assert!(entry.is_entry());
    assert!(!entry.is_exit());
    let op = EmitNode::new(Some(EmitLabelIdent::exit()), Some(3));
    assert!(!op.is_exit());
    assert!(!op.is_entry());
}

#[test]
fn emit_node_successors() {
    let mut node = EmitNode::new(None, None);
    node.insert_succ(EmitSucc::Emit(4));
    node.insert_succ(EmitSucc::Label(1));
    node.insert_succ(EmitSucc::Emit(4));
    assert_eq!(node.succ_emits, set(&[4]));
    assert_eq!(node.succ_labels, set(&[1]));
}

#[test]
fn flow_tracer_sets_up_entry_point() {
    let mut tracer = FlowTracer::new();
    tracer.insert_exit_emit_node();
    tracer.insert_exit_label_node();
    tracer.insert_entry_emit_node();
    assert_eq!(tracer.graph.emit_nodes.len(), 2);
    assert_eq!(tracer.graph.exit_emit_node_index(), 0);
    assert_eq!(tracer.graph.entry_emit_node_index(), 1);
    assert_eq!(tracer.graph.exit_label_node_index(), 0);
    assert_eq!(tracer.graph.label_nodes[0].bound_to, set(&[0]));
    assert_eq!(tracer.curr_state.pred_emits, set(&[1]));
    // the exit node has no successors yet
    assert!(tracer.graph.emit_nodes[0].succ_emits.is_empty());
}

#[test]
fn flow_tracer_links_emits_and_labels() {
    let mut tracer = FlowTracer::new();
    tracer.insert_exit_emit_node();
    tracer.insert_exit_label_node();
    tracer.insert_entry_emit_node();
    let label = tracer.insert_label_node(42);
    assert_eq!(label, 1);
    // bind the label, then emit an operation: the label is bound to it and
    // the entry node precedes it
    tracer.trace_bind_stmt(42);
    tracer.insert_and_link_emit_node(Some(EmitLabelIdent::exit()), Some(9));
    assert_eq!(tracer.graph.emit_nodes.len(), 3);
    assert_eq!(tracer.graph.emit_nodes[1].succ_emits, set(&[2]));
    assert_eq!(tracer.graph.label_nodes[1].bound_to, set(&[2]));
    assert!(tracer.curr_state.bound_labels.is_empty());
    assert_eq!(tracer.curr_state.pred_emits, set(&[2]));
    // a goto makes the label the successor of the current predecessors
    tracer.trace_goto_stmt(42);
    assert_eq!(tracer.graph.emit_nodes[2].succ_labels, set(&[1]));
    assert!(tracer.curr_state.pred_emits.is_empty());
    // linking the exit node
    tracer.insert_entry_emit_node();
    tracer.link_exit_emit_node();
    assert_eq!(tracer.graph.emit_nodes[3].succ_emits, set(&[0]));
}

#[test]
fn flow_tracer_local_emit_indexes() {
    let mut tracer = FlowTracer::new();
    assert_eq!(tracer.take_local_emit_index(), 0);
    assert_eq!(tracer.take_local_emit_index(), 1);
    assert_eq!(tracer.next_local_emit_index, 2);
}

#[test]
fn flow_graph_link_label_to_emit() {
    let mut graph = FlowGraph::new();
    graph.emit_nodes.push(EmitNode::new(None, None));
    graph.label_nodes.push(LabelNode::new());
    graph.link_label_to_emit(0, 0);
    assert_eq!(graph.label_nodes[0].bound_to, set(&[0]));
}
