use cachet::bpl_tools::{find_spans_to_replace_for_reachability, replace_spans, Namespace};
use cachet::reachability::{ReachabilityGraph, ReachabilityMap};
use cachet::span::RawSpan;

fn spans_of(r: &[(RawSpan, Vec<u8>)]) -> Vec<(u32, u32)> {
    r.iter().map(|(s, _)| (s.start, s.end)).collect()
}

#[test]
fn replace_spans_without_spans_keeps_text() {
    let out = replace_spans("procedure p();", Vec::new());
    assert_eq!(String::from_utf8(out).unwrap(), "procedure p();");
}

#[test]
fn replace_spans_replaces_in_order() {
    let src = "aaa bbb ccc";
    let spans = vec![
        (RawSpan::new(0, 3), b"X".to_vec()),
        (RawSpan::new(4, 7), Vec::new()),
        (RawSpan::new(11, 11), b"!".to_vec()),
    ];
    let out = replace_spans(src, spans);
    assert_eq!(String::from_utf8(out).unwrap(), "X  ccc!");
}

#[test]
fn replace_spans_inserts_at_a_point() {
    let src = "procedure p();";
    let spans = vec![(RawSpan::new(10, 10), b"{:inline 1} ".to_vec())];
    let out = replace_spans(src, spans);
    assert_eq!(String::from_utf8(out).unwrap(), "procedure {:inline 1} p();");
}

#[test]
fn replace_spans_adjacent_spans() {
    let src = "abcdef";
    let spans = vec![(RawSpan::new(0, 2), b"1".to_vec()), (RawSpan::new(2, 4), b"2".to_vec())];
    let out = replace_spans(src, spans);
    assert_eq!(String::from_utf8(out).unwrap(), "12ef");
}

#[test]
fn find_spans_removes_unreachable_declarations() {
    // three declarations; the middle one is unreachable
    let mut graph = ReachabilityGraph::new();
    let a = graph.add_decl_node(RawSpan::new(0, 10));
    let _b = graph.add_decl_node(RawSpan::new(11, 20));
    let c = graph.add_decl_node(RawSpan::new(21, 30));
    let mut map = ReachabilityMap::new(&graph);
    map.mark_reachable(&graph, a);
    map.mark_reachable(&graph, c);
    let r = find_spans_to_replace_for_reachability(&graph, &map);
    assert_eq!(spans_of(&r), vec![(10, 20)]);
    assert!(r.iter().all(|(_, text)| text.is_empty()));
}

#[test]
fn find_spans_first_and_only_nodes() {
    // the first declaration is unreachable: remove up to the next one
    let mut graph = ReachabilityGraph::new();
    let _a = graph.add_decl_node(RawSpan::new(0, 10));
    let b = graph.add_decl_node(RawSpan::new(11, 20));
    let mut map = ReachabilityMap::new(&graph);
    map.mark_reachable(&graph, b);
    let r = find_spans_to_replace_for_reachability(&graph, &map);
    assert_eq!(spans_of(&r), vec![(0, 11)]);
    // an only declaration that is unreachable loses its own span
    let mut graph = ReachabilityGraph::new();
    graph.add_decl_node(RawSpan::new(5, 9));
    let map = ReachabilityMap::new(&graph);
    let r = find_spans_to_replace_for_reachability(&graph, &map);
    assert_eq!(spans_of(&r), vec![(5, 9)]);
}

#[test]
fn find_spans_walks_roots_of_reachable_nodes() {
    // declaration 0 is reachable and has two parts, the second unreachable;
    // declaration 1 is unreachable
    let mut graph = ReachabilityGraph::new();
    let d0 = graph.add_decl_node(RawSpan::new(0, 20));
    let _d1 = graph.add_decl_node(RawSpan::new(21, 30));
    let p0 = graph.add_node(RawSpan::new(2, 8));
    let p1 = graph.add_node(RawSpan::new(9, 15));
    graph.attach_root_to_node(d0, p0);
    graph.attach_root_to_node(d0, p1);
    // the first part is what a start needs, and it keeps its declaration
    let mut map = ReachabilityMap::new(&graph);
    map.mark_reachable(&graph, p0);
    assert!(map.is_reachable(d0));
    assert!(!map.is_reachable(p1));
    let r = find_spans_to_replace_for_reachability(&graph, &map);
    // sorted by start
    assert_eq!(spans_of(&r), vec![(8, 15), (20, 30)]);
}

#[test]
fn reachability_map_flags() {
    let mut graph = ReachabilityGraph::new();
    let a = graph.add_node(RawSpan::new(0, 1));
    let b = graph.add_node(RawSpan::new(1, 2));
    let mut map = ReachabilityMap::new(&graph);
    assert!(!map.is_reachable(a));
    map.mark_reachable(&graph, a);
    assert!(map.is_reachable(a));
    assert!(!map.is_reachable(b));
}

#[test]
fn namespaces_are_distinct() {
    assert!(Namespace::Func != Namespace::Proc);
    assert!(Namespace::Var == Namespace::Var);
}
