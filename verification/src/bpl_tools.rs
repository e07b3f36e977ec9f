//! Source-level rewriting of Boogie programs: tree shaking, which removes
//! the declarations that nothing kept needs, and the setting of inlining
//! levels. Both replace byte spans of the source text.

use num_bigint::BigUint;
use vstd::multiset::Multiset;
use vstd::prelude::*;
use vstd::slice::slice_subrange;
use vstd::string::StringSliceAdditionalSpecFns;
use vstd::utf8::{decode_utf8, encode_utf8, valid_utf8};

use crate::boogie_decl::{BoogieProgram, Decl, FuncDecl, ProcSign};
use crate::boogie_expr::{AttrOrTrigger, AttrParam, Expr, Spanned};
use crate::decl_graph::{
    attr_named, build_reachability_graph, ctor_data_type, decl_is_axiom, decl_is_entry_point,
    extract_data_type_ident_from_type, func_decl_is_ctor, func_sign_decls, is_entry_point,
    lemma_program_graph_decls, program_graph, var_or_types_decls, decl_node_refs, decl_callable_name,
    lemma_decl_node_edges, lemma_decl_name_edge,
};
use crate::ident::Ident;
use crate::reachability::{
    closed, declare_local_ident, edges_within, has_edge, is_local, lemma_reaches_self,
    lemma_reaches_step, local_keys, reaches, GraphView, IdentKey, NamespacedIdent, ReachabilityGraph,
    ReachabilityMap,
};
use crate::graph_shape::{lemma_program_graph_shallow, roots_of, shallow};
use crate::shaking::declare_idents;
use crate::span::RawSpan;
use crate::text::{dec_text, push_str};

verus! {

/// The namespaces of Boogie identifiers.
#[derive(Clone, Copy, Debug, PartialEq, Eq, Structural, Hash)]
pub enum Namespace {
    Func,
    Proc,
    Type,
    /// `const` and `var` declarations share the same namespace.
    Var,
}

// ---------------------------------------------------------------------
// Replacing spans of the source text.
// ---------------------------------------------------------------------

/// The spans to replace and their replacement bytes.
pub open spec fn replacements_view(spans: Seq<(RawSpan, Vec<u8>)>) -> Seq<(RawSpan, Seq<u8>)> {
    spans.map_values(|p: (RawSpan, Vec<u8>)| (p.0, p.1@))
}

/// The spans are well formed, in increasing order, do not overlap and end
/// within the first `len` bytes.
pub open spec fn spans_in_order(spans: Seq<(RawSpan, Seq<u8>)>, len: int) -> bool {
    &&& forall|i: int| 0 <= i < spans.len() ==> #[trigger] spans[i].0.start <= spans[i].0.end <= len
    &&& forall|i: int| 0 < i < spans.len() ==> spans[i - 1].0.end <= #[trigger] spans[i].0.start
}

/// `src` from byte `from` on, with each span replaced by its bytes.
pub open spec fn replaced(src: Seq<u8>, spans: Seq<(RawSpan, Seq<u8>)>, from: int) -> Seq<u8>
    decreases spans.len(),
{
    if spans.len() == 0 {
        src.subrange(from, src.len() as int)
    } else {
        src.subrange(from, spans[0].0.start as int) + spans[0].1 + replaced(
            src,
            spans.drop_first(),
            spans[0].0.end as int,
        )
    }
}

/// Replacing no span leaves the text unchanged.
pub proof fn law_replace_nothing(src: Seq<u8>)
    ensures
        replaced(src, Seq::empty(), 0) == src,
{
    assert(src.subrange(0, src.len() as int) =~= src);
}

/// Appends the bytes of `s` to `out`.
fn extend_bytes(out: &mut Vec<u8>, s: &[u8])
    ensures
        final(out)@ == old(out)@ + s@,
{
    let ghost before = out@;
    out.extend_from_slice(s);
    assert forall|k: int| 0 <= k < out@.len() implies #[trigger] out@[k] == (before + s@)[k] by {
        if k >= before.len() {
            assert(cloned::<u8>(s@[k - before.len()], out@[k]));
        }
    }
    assert(out@ =~= before + s@);
}

/// The bytes of `src`, with each of the spans replaced by its replacement.
/// The spans must be in increasing order, must not overlap, and must lie
/// within the text.
pub fn replace_spans(src: &str, spans_to_replace: Vec<(RawSpan, Vec<u8>)>) -> (r: Vec<u8>)
    requires
        spans_in_order(replacements_view(spans_to_replace@), src.spec_bytes().len() as int),
    ensures
        r@ == replaced(src.spec_bytes(), replacements_view(spans_to_replace@), 0),
{
    let src_bytes = src.as_bytes();
    let ghost bytes = src_bytes@;
    let ghost all = replacements_view(spans_to_replace@);
    let mut new_src_bytes: Vec<u8> = Vec::new();
    if spans_to_replace.len() == 0 {
        extend_bytes(&mut new_src_bytes, src_bytes);
        assert(new_src_bytes@ =~= bytes.subrange(0, bytes.len() as int));
        return new_src_bytes;
    }
    let n = spans_to_replace.len();
    let mut last_span_end: usize = 0;
    let mut i: usize = 0;
    assert(all.skip(0) =~= all);
    while i < n
        invariant
            n == spans_to_replace@.len(),
            all == replacements_view(spans_to_replace@),
            bytes == src.spec_bytes(),
            src_bytes@ == bytes,
            spans_in_order(all, bytes.len() as int),
            i <= n,
            last_span_end <= bytes.len(),
            i > 0 ==> last_span_end == all[i - 1].0.end,
            i == 0 ==> last_span_end == 0,
            new_src_bytes@ + replaced(bytes, all.skip(i as int), last_span_end as int) == replaced(
                bytes,
                all,
                0,
            ),
        decreases n - i,
    {
        let span = spans_to_replace[i].0;
        proof {
            assert(all[i as int].0 == span);
            assert(all[i as int].0.start <= all[i as int].0.end <= bytes.len());
            if i > 0 {
                assert(all[i - 1].0.end <= all[i as int].0.start);
            }
        }
        let start = span.start as usize;
        let ghost before = new_src_bytes@;
        extend_bytes(&mut new_src_bytes, slice_subrange(src_bytes, last_span_end, start));
        extend_bytes(&mut new_src_bytes, spans_to_replace[i].1.as_slice());
        proof {
            let rest = all.skip(i as int);
            assert(rest[0] == all[i as int]);
            assert(rest.drop_first() =~= all.skip(i + 1));
            assert(new_src_bytes@ =~= before + bytes.subrange(last_span_end as int, start as int)
                + all[i as int].1);
        }
        last_span_end = span.end as usize;
        i += 1;
    }
    let ghost before = new_src_bytes@;
    extend_bytes(&mut new_src_bytes, slice_subrange(src_bytes, last_span_end, src_bytes.len()));
    proof {
        assert(all.skip(n as int).len() == 0);
        assert(new_src_bytes@ =~= before + bytes.subrange(last_span_end as int, bytes.len() as int));
    }
    new_src_bytes
}

/// The text that `bytes` encode in UTF-8 (std's `String::from_utf8`);
/// `None` where they are not valid UTF-8.
#[verifier::external_body]
fn string_from_utf8(bytes: Vec<u8>) -> (r: Option<String>)
    ensures
        r is Some == valid_utf8(bytes@),
        r is Some ==> r->0@ == decode_utf8(bytes@),
{
    match String::from_utf8(bytes) {
        Ok(s) => Some(s),
        Err(_) => None,
    }
}

/// The text that `bytes` encode, where they are valid UTF-8.
pub open spec fn utf8_text(bytes: Seq<u8>) -> Option<Seq<char>> {
    if valid_utf8(bytes) {
        Some(decode_utf8(bytes))
    } else {
        None
    }
}

// ---------------------------------------------------------------------
// Spans removed by tree shaking.
// ---------------------------------------------------------------------

/// The span of node `i`.
pub open spec fn node_span(g: GraphView, i: usize) -> RawSpan {
    g.nodes[i as int].0
}

/// The roots of node `i`.
pub open spec fn node_roots(g: GraphView, i: usize) -> Seq<usize> {
    g.nodes[i as int].1
}

/// Every node index that the graph holds refers to one of its nodes, and
/// the map has a flag for each node.
pub open spec fn graph_ok(g: ReachabilityGraph, reach: Seq<bool>) -> bool {
    &&& reach.len() == g.nodes().len()
    &&& g.wf()
}

/// The span removed for the unreachable `k`-th node of the sibling list
/// `list`: from the end of the previous sibling to the end of this one; for
/// the first sibling, up to the start of the next one; for an only child,
/// its own span.
pub open spec fn elim_span(g: GraphView, list: Seq<usize>, k: int) -> RawSpan {
    if k == 0 {
        if list.len() == 1 {
            node_span(g, list[0])
        } else {
            RawSpan { start: node_span(g, list[0]).start, end: node_span(g, list[1]).start }
        }
    } else {
        RawSpan { start: node_span(g, list[k - 1]).end, end: node_span(g, list[k]).end }
    }
}

/// The walk over `list` and, below its reachable nodes, their roots, at
/// most `depth` levels deep, meets only well-formed spans to remove.
pub open spec fn walk_ok(g: GraphView, reach: Seq<bool>, list: Seq<usize>, depth: nat) -> bool
    decreases depth,
{
    forall|k: int|
        #![trigger list[k]]
        0 <= k < list.len() ==> if reach[list[k] as int] {
            depth > 0 && walk_ok(g, reach, node_roots(g, list[k]), (depth - 1) as nat)
        } else {
            elim_span(g, list, k).start <= elim_span(g, list, k).end
        }
}

/// A walk that ends within `depth` levels ends within one more.
pub proof fn lemma_walk_deeper(g: GraphView, reach: Seq<bool>, list: Seq<usize>, depth: nat)
    requires
        walk_ok(g, reach, list, depth),
    ensures
        walk_ok(g, reach, list, depth + 1),
    decreases depth,
{
    assert forall|k: int|
        #![trigger list[k]]
        0 <= k < list.len() implies if reach[list[k] as int] {
            depth + 1 > 0 && walk_ok(g, reach, node_roots(g, list[k]), depth)
        } else {
            elim_span(g, list, k).start <= elim_span(g, list, k).end
        } by {
        if reach[list[k] as int] {
            lemma_walk_deeper(g, reach, node_roots(g, list[k]), (depth - 1) as nat);
        }
    }
}

/// A walk that ends within `depth` levels ends within any more.
pub proof fn lemma_walk_deeper_to(g: GraphView, reach: Seq<bool>, list: Seq<usize>, depth: nat, more: nat)
    requires
        walk_ok(g, reach, list, depth),
        depth <= more,
    ensures
        walk_ok(g, reach, list, more),
    decreases more - depth,
{
    if depth < more {
        lemma_walk_deeper(g, reach, list, depth);
        lemma_walk_deeper_to(g, reach, list, depth + 1, more);
    }
}

/// How deep the roots below a node go: none, one level, or two.
pub open spec fn root_depth(g: GraphView, x: usize) -> nat {
    if node_roots(g, x).len() == 0 {
        0
    } else if forall|l: int| 0 <= l < node_roots(g, x).len() ==> #[trigger] node_roots(g, node_roots(g, x)[l]).len() == 0 {
        1
    } else {
        2
    }
}

/// In a graph whose roots are at most two levels deep, the roots below a
/// root go less deep.
proof fn lemma_root_depth_decreases(g: GraphView, x: usize, l: int)
    requires
        shallow(g),
        x < g.nodes.len(),
        0 <= l < node_roots(g, x).len(),
    ensures
        root_depth(g, node_roots(g, x)[l]) < root_depth(g, x),
{
    let r = node_roots(g, x)[l];
    assert(roots_of(g, x as int)[l] == r);
    if node_roots(g, r).len() > 0 {
        assert forall|m: int| 0 <= m < node_roots(g, r).len() implies #[trigger] node_roots(g, node_roots(g, r)[m]).len() == 0 by {
            assert(roots_of(g, roots_of(g, roots_of(g, x as int)[l] as int)[m] as int).len() == 0);
        }
        assert(node_roots(g, node_roots(g, x)[l]).len() != 0);
    }
}

/// In a graph whose roots are at most two levels deep, a walk that ends at
/// all ends within one level more than the roots below its nodes go.
pub proof fn lemma_walk_shallow(g: GraphView, reach: Seq<bool>, list: Seq<usize>, depth: nat, more: nat)
    requires
        shallow(g),
        forall|k: int| 0 <= k < list.len() ==> #[trigger] list[k] < g.nodes.len() && root_depth(g, list[k]) < depth,
        depth <= more,
        walk_ok(g, reach, list, more),
    ensures
        walk_ok(g, reach, list, depth),
    decreases depth,
{
    assert forall|k: int|
        #![trigger list[k]]
        0 <= k < list.len() implies if reach[list[k] as int] {
            depth > 0 && walk_ok(g, reach, node_roots(g, list[k]), (depth - 1) as nat)
        } else {
            elim_span(g, list, k).start <= elim_span(g, list, k).end
        } by {
        let x = list[k];
        if reach[x as int] {
            let roots = node_roots(g, x);
            assert forall|m: int| 0 <= m < roots.len() implies #[trigger] roots[m] < g.nodes.len() && root_depth(g, roots[m])
                < (depth - 1) as nat by {
                assert(roots_of(g, x as int)[m] < g.nodes.len());
                lemma_root_depth_decreases(g, x, m);
            }
            lemma_walk_shallow(g, reach, roots, (depth - 1) as nat, (more - 1) as nat);
        }
    }
}

/// In a graph whose roots are at most two levels deep, the walk from the
/// declarations ends at all exactly when it ends within three levels.
pub proof fn law_walk_within_three_levels(g: GraphView, reach: Seq<bool>)
    requires
        shallow(g),
        forall|k: int| 0 <= k < g.decls.len() ==> #[trigger] g.decls[k] < g.nodes.len(),
    ensures
        (exists|d: nat| walk_ok(g, reach, g.decls, d)) == walk_ok(g, reach, g.decls, 3),
{
    if exists|d: nat| walk_ok(g, reach, g.decls, d) {
        let d = choose|d: nat| walk_ok(g, reach, g.decls, d);
        if d <= 3 {
            lemma_walk_deeper_to(g, reach, g.decls, d, 3);
        } else {
            lemma_walk_shallow(g, reach, g.decls, 3, d);
        }
    }
}

/// The spans removed for the first `n` nodes of `list`: an unreachable node
/// is removed, and the roots of a reachable one are walked in turn.
pub open spec fn level_spans(
    g: GraphView,
    reach: Seq<bool>,
    list: Seq<usize>,
    n: int,
    depth: nat,
) -> Seq<RawSpan>
    decreases depth, n,
{
    if n <= 0 {
        Seq::empty()
    } else {
        let k = n - 1;
        level_spans(g, reach, list, k, depth) + if reach[list[k] as int] {
            if depth == 0 {
                Seq::<RawSpan>::empty()
            } else {
                let roots = node_roots(g, list[k]);
                level_spans(g, reach, roots, roots.len() as int, (depth - 1) as nat)
            }
        } else {
            seq![elim_span(g, list, k)]
        }
    }
}

/// The walk from the declarations terminates without ill-formed spans.
pub open spec fn shaking_ok(g: ReachabilityGraph, reach: Seq<bool>) -> bool {
    &&& graph_ok(g, reach)
    &&& exists|depth: nat| walk_ok(g.view_of(), reach, g.decls(), depth)
}

/// A depth to which the walk from the declarations terminates.
pub open spec fn shaking_depth(g: GraphView, reach: Seq<bool>) -> nat {
    choose|depth: nat| walk_ok(g, reach, g.decls, depth)
}

/// The spans that tree shaking removes, in the order the walk meets them.
pub open spec fn removed_spans(g: GraphView, reach: Seq<bool>) -> Seq<RawSpan> {
    let decls = g.decls;
    level_spans(g, reach, decls, decls.len() as int, shaking_depth(g, reach))
}

/// Appends the spans to remove for the sibling nodes `node_indexes`.
fn find_spans_to_replace_for_reachability_nodes(
    node_indexes: &Vec<usize>,
    reachability_graph: &ReachabilityGraph,
    reachability_map: &ReachabilityMap,
    spans_to_replace: &mut Vec<RawSpan>,
    Ghost(depth): Ghost<nat>,
)
    requires
        graph_ok(*reachability_graph, reachability_map.reachable()),
        forall|k: int| 0 <= k < node_indexes@.len() ==> #[trigger] node_indexes@[k] < reachability_graph.nodes().len(),
        walk_ok(reachability_graph.view_of(), reachability_map.reachable(), node_indexes@, depth),
    ensures
        final(spans_to_replace)@ == old(spans_to_replace)@ + level_spans(
            reachability_graph.view_of(),
            reachability_map.reachable(),
            node_indexes@,
            node_indexes@.len() as int,
            depth,
        ),
    decreases depth,
{
    let ghost gr = *reachability_graph;
    let ghost g = reachability_graph.view_of();
    let ghost reach = reachability_map.reachable();
    let ghost list = node_indexes@;
    let n = node_indexes.len();
    let mut k: usize = 0;
    while k < n
        invariant
            n == list.len(),
            list == node_indexes@,
            gr == *reachability_graph,
            g == reachability_graph.view_of(),
            reach == reachability_map.reachable(),
            graph_ok(gr, reach),
            forall|m: int| 0 <= m < list.len() ==> #[trigger] list[m] < gr.nodes().len(),
            walk_ok(g, reach, list, depth),
            k <= n,
            spans_to_replace@ == old(spans_to_replace)@ + level_spans(g, reach, list, k as int, depth),
        decreases n - k,
    {
        let node_index = node_indexes[k];
        assert(list[k as int] == node_index);
        if reachability_map.is_reachable(node_index) {
            find_spans_to_replace_for_reachability_nodes(
                reachability_graph.node_roots(node_index),
                reachability_graph,
                reachability_map,
                spans_to_replace,
                Ghost((depth - 1) as nat),
            );
        } else {
            let span = reachability_graph.node_span(node_index);
            let span_to_eliminate = if k == 0 {
                if n == 1 {
                    span
                } else {
                    let next_span = reachability_graph.node_span(node_indexes[1]);
                    RawSpan::new(span.start, next_span.start)
                }
            } else {
                let prev_span = reachability_graph.node_span(node_indexes[k - 1]);
                RawSpan::new(prev_span.end, span.end)
            };
            spans_to_replace.push(span_to_eliminate);
        }
        proof {
            assert(spans_to_replace@ =~= old(spans_to_replace)@ + level_spans(g, reach, list, k + 1, depth));
        }
        k += 1;
    }
}

/// `a` comes no later than `b`, ordering spans by start, then by end.
pub open spec fn span_le(a: RawSpan, b: RawSpan) -> bool {
    a.start < b.start || (a.start == b.start && a.end <= b.end)
}

/// The spans are sorted by start, then by end.
pub open spec fn spans_sorted(s: Seq<RawSpan>) -> bool {
    forall|i: int, j: int| 0 <= i < j < s.len() ==> span_le(#[trigger] s[i], #[trigger] s[j])
}

/// `a` comes before `b`, ordering spans by start, then by end.
pub open spec fn span_lt(a: RawSpan, b: RawSpan) -> bool {
    a.start < b.start || (a.start == b.start && a.end < b.end)
}

/// Where `x` goes into `t`: before the first span that it comes before.
pub open spec fn insert_pos(t: Seq<RawSpan>, x: RawSpan) -> int
    decreases t.len(),
{
    if t.len() == 0 {
        0
    } else if span_lt(x, t[0]) {
        0
    } else {
        1 + insert_pos(t.drop_first(), x)
    }
}

/// The spans sorted by insertion, one after the other.
pub open spec fn insertion_sorted(s: Seq<RawSpan>) -> Seq<RawSpan>
    decreases s.len(),
{
    if s.len() == 0 {
        s
    } else {
        let t = insertion_sorted(s.drop_last());
        t.insert(insert_pos(t, s.last()), s.last())
    }
}

/// The first position whose span `x` comes before is where it goes.
proof fn lemma_insert_pos(t: Seq<RawSpan>, x: RawSpan, j: int)
    requires
        0 <= j <= t.len(),
        forall|m: int| 0 <= m < j ==> !span_lt(x, #[trigger] t[m]),
        j == t.len() || span_lt(x, t[j]),
    ensures
        insert_pos(t, x) == j,
    decreases t.len(),
{
    if t.len() > 0 && j > 0 {
        assert(!span_lt(x, t[0]));
        let u = t.drop_first();
        assert forall|m: int| 0 <= m < j - 1 implies !span_lt(x, #[trigger] u[m]) by {
            assert(u[m] == t[m + 1]);
        }
        if j < t.len() {
            assert(u[j - 1] == t[j]);
        }
        lemma_insert_pos(u, x, j - 1);
    }
}

/// The spans, sorted by start and then by end; equal spans keep their order.
fn sort_spans(spans: &Vec<RawSpan>) -> (r: Vec<RawSpan>)
    ensures
        r@.to_multiset() == spans@.to_multiset(),
        spans_sorted(r@),
        r@ == insertion_sorted(spans@),
{
    let mut r: Vec<RawSpan> = Vec::new();
    let n = spans.len();
    let mut i: usize = 0;
    assert(spans@.take(0) =~= r@);
    while i < n
        invariant
            n == spans@.len(),
            i <= n,
            r@.to_multiset() == spans@.take(i as int).to_multiset(),
            spans_sorted(r@),
            r@ == insertion_sorted(spans@.take(i as int)),
        decreases n - i,
    {
        let x = spans[i];
        let mut j: usize = 0;
        while j < r.len() && !(x.start < r[j].start || (x.start == r[j].start && x.end < r[j].end))
            invariant
                j <= r@.len(),
                spans_sorted(r@),
                forall|m: int| 0 <= m < j ==> span_le(#[trigger] r@[m], x),
                forall|m: int| 0 <= m < j ==> !span_lt(x, #[trigger] r@[m]),
            decreases r@.len() - j,
        {
            j += 1;
        }
        let ghost before = r@;
        r.insert(j, x);
        proof {
            lemma_insert_pos(before, x, j as int);
            assert(spans@.take(i + 1).drop_last() =~= spans@.take(i as int));
            assert(spans@.take(i + 1) =~= spans@.take(i as int).push(x));
            vstd::seq_lib::to_multiset_build(spans@.take(i as int), x);
            vstd::seq_lib::to_multiset_insert(before, j as int, x);
            assert forall|a: int, b: int| 0 <= a < b < r@.len() implies span_le(
                #[trigger] r@[a],
                #[trigger] r@[b],
            ) by {
                if b < j {
                } else if b == j {
                } else if a < j {
                    assert(span_le(before[a], x));
                    if j < before.len() {
                        assert(span_le(before[j as int], before[b - 1]));
                    }
                } else if a == j {
                    assert(span_le(before[j as int], before[b - 1]));
                } else {
                    assert(span_le(before[a - 1], before[b - 1]));
                }
            }
        }
        i += 1;
    }
    assert(spans@.take(n as int) =~= spans@);
    r
}

/// The spans that tree shaking removes, sorted, each with an empty
/// replacement.
pub fn find_spans_to_replace_for_reachability(
    reachability_graph: &ReachabilityGraph,
    reachability_map: &ReachabilityMap,
) -> (r: Vec<(RawSpan, Vec<u8>)>)
    requires
        shaking_ok(*reachability_graph, reachability_map.reachable()),
    ensures
        r@.map_values(|p: (RawSpan, Vec<u8>)| p.0) == insertion_sorted(removed_spans(
            reachability_graph.view_of(),
            reachability_map.reachable(),
        )),
        r@.map_values(|p: (RawSpan, Vec<u8>)| p.0).to_multiset() == removed_spans(
            reachability_graph.view_of(),
            reachability_map.reachable(),
        ).to_multiset(),
        spans_sorted(r@.map_values(|p: (RawSpan, Vec<u8>)| p.0)),
        forall|i: int| 0 <= i < r@.len() ==> (#[trigger] r@[i]).1@.len() == 0,
{
    let ghost depth = shaking_depth(reachability_graph.view_of(), reachability_map.reachable());
    let mut spans: Vec<RawSpan> = Vec::new();
    find_spans_to_replace_for_reachability_nodes(
        reachability_graph.decl_node_indexes(),
        reachability_graph,
        reachability_map,
        &mut spans,
        Ghost(depth),
    );
    assert(spans@ =~= removed_spans(reachability_graph.view_of(), reachability_map.reachable()));
    let sorted = sort_spans(&spans);
    let mut r: Vec<(RawSpan, Vec<u8>)> = Vec::new();
    let n = sorted.len();
    let mut i: usize = 0;
    while i < n
        invariant
            n == sorted@.len(),
            i <= n,
            r@.len() == i,
            forall|m: int| 0 <= m < i ==> (#[trigger] r@[m]).0 == sorted@[m] && r@[m].1@.len() == 0,
        decreases n - i,
    {
        r.push((sorted[i], Vec::new()));
        i += 1;
    }
    assert(r@.map_values(|p: (RawSpan, Vec<u8>)| p.0) =~= sorted@);
    r
}


// ---------------------------------------------------------------------
// Tree shaking.
// ---------------------------------------------------------------------

/// The nodes that some node of `starts` reaches, as flags for `n` nodes.
pub open spec fn reached(edges: Multiset<(usize, usize)>, starts: Seq<usize>, n: nat) -> Seq<bool> {
    Seq::new(n, |x: int| exists|j: int| 0 <= j < starts.len() && #[trigger] reaches(edges, starts[j], x as usize))
}

/// The nodes of the identifiers to retain that have one, in order.
pub open spec fn retain_starts(v: GraphView, retain: Seq<NamespacedIdent>) -> Seq<usize>
    decreases retain.len(),
{
    if retain.len() == 0 {
        Seq::empty()
    } else {
        let prev = retain_starts(v, retain.subrange(0, retain.len() - 1));
        let k = retain[retain.len() - 1].key();
        if v.idents.contains_key(k) {
            prev.push(v.idents[k])
        } else {
            prev
        }
    }
}

/// The nodes of the entry points and axioms, in order: they are always
/// kept.
pub open spec fn decl_starts(v: GraphView, decls: Seq<Spanned<Decl>>) -> Seq<usize>
    decreases decls.len(),
{
    if decls.len() == 0 {
        Seq::empty()
    } else {
        let prev = decl_starts(v, decls.subrange(0, decls.len() - 1));
        let d = decls[decls.len() - 1].value;
        if is_entry_point(d) || d is Axiom {
            prev.push(v.decls[decls.len() - 1])
        } else {
            prev
        }
    }
}

/// What tree shaking keeps of the graph `v`: what the retained
/// identifiers, the entry points and the axioms reach.
pub open spec fn shake_reach(v: GraphView, decls: Seq<Spanned<Decl>>, retain: Seq<NamespacedIdent>) -> Seq<bool> {
    reached(v.edges, retain_starts(v, retain) + decl_starts(v, decls), v.nodes.len())
}

/// The spans that tree shaking removes, sorted, with empty replacements.
pub open spec fn shake_replacements(v: GraphView, reach: Seq<bool>) -> Seq<(RawSpan, Seq<u8>)> {
    insertion_sorted(removed_spans(v, reach)).map_values(|sp: RawSpan| (sp, Seq::<u8>::empty()))
}

/// The source text without what tree shaking removes, where the spans to
/// remove are well formed (the walk over the graph meets no ill-formed
/// one), neither overlap nor leave the text, and what is left is UTF-8.
pub open spec fn shaken(src: Seq<u8>, decls: Seq<Spanned<Decl>>, retain: Seq<NamespacedIdent>, prune: Seq<bool>) -> Option<Seq<char>> {
    let v = program_graph(decls, prune);
    let reach = shake_reach(v, decls, retain);
    let reps = shake_replacements(v, reach);
    if (exists|d: nat| walk_ok(v, reach, v.decls, d)) && spans_in_order(reps, src.len() as int) {
        utf8_text(replaced(src, reps, 0))
    } else {
        None
    }
}

/// Tree shaking keeps each node where the walk starts: the nodes of the
/// retained identifiers, the entry points and the axioms.
pub proof fn law_shaking_keeps_starts(v: GraphView, decls: Seq<Spanned<Decl>>, retain: Seq<NamespacedIdent>, j: int)
    requires
        0 <= j < (retain_starts(v, retain) + decl_starts(v, decls)).len(),
        (retain_starts(v, retain) + decl_starts(v, decls))[j] < v.nodes.len(),
    ensures
        shake_reach(v, decls, retain)[(retain_starts(v, retain) + decl_starts(v, decls))[j] as int],
{
    let starts = retain_starts(v, retain) + decl_starts(v, decls);
    lemma_reaches_self(v.edges, starts[j]);
    let x = starts[j] as int;
    assert(reaches(v.edges, starts[j], x as usize));
    assert(reached(v.edges, starts, v.nodes.len())[x]);
}

/// What tree shaking keeps needs nothing that it removes: an edge from a
/// kept node leads to a kept node.
pub proof fn law_shaking_keeps_what_kept_nodes_need(
    v: GraphView,
    decls: Seq<Spanned<Decl>>,
    retain: Seq<NamespacedIdent>,
    a: usize,
    b: usize,
)
    requires
        edges_within(v.edges, v.nodes.len()),
        has_edge(v.edges, a, b),
        a < v.nodes.len(),
        shake_reach(v, decls, retain)[a as int],
    ensures
        b < v.nodes.len(),
        shake_reach(v, decls, retain)[b as int],
{
    let starts = retain_starts(v, retain) + decl_starts(v, decls);
    let j = choose|j: int| 0 <= j < starts.len() && #[trigger] reaches(v.edges, starts[j], a as usize);
    lemma_reaches_step(v.edges, starts[j], a, b);
    assert(reaches(v.edges, starts[j], b as usize));
}

/// Tree shaking keeps the node of every global identifier that a kept
/// declaration refers to, wherever in the declaration the identifier
/// occurs: in its attributes, signature, contracts, body or proposition,
/// at any depth, the arguments of calls included.
pub proof fn law_shaking_keeps_what_kept_declarations_name(
    decls: Seq<Spanned<Decl>>,
    prune: Seq<bool>,
    retain: Seq<NamespacedIdent>,
    j: int,
    k: IdentKey,
)
    requires
        0 <= j < decls.len(),
        decl_node_refs(decls[j].value).contains(k),
        program_graph(decls, prune).nodes.len() <= usize::MAX,
        shake_reach(program_graph(decls, prune), decls, retain)[program_graph(decls, prune).decls[j] as int],
    ensures
        program_graph(decls, prune).idents.contains_key(k),
        shake_reach(program_graph(decls, prune), decls, retain)[program_graph(decls, prune).idents[k] as int],
{
    let v = program_graph(decls, prune);
    lemma_decl_node_edges(decls, prune, j, k);
    let starts = retain_starts(v, retain) + decl_starts(v, decls);
    let p = v.decls[j];
    assert(shake_reach(v, decls, retain)[p as int]);
    let s = choose|s: int| 0 <= s < starts.len() && #[trigger] reaches(v.edges, starts[s], p);
    lemma_reaches_step(v.edges, starts[s], p, v.idents[k]);
    let x = v.idents[k] as int;
    assert(reaches(v.edges, starts[s], x as usize));
    assert(reached(v.edges, starts, v.nodes.len())[x]);
}

/// Tree shaking keeps the declaration of a function or procedure whose
/// node it keeps.
pub proof fn law_shaking_keeps_declaration_of_kept_name(
    decls: Seq<Spanned<Decl>>,
    prune: Seq<bool>,
    retain: Seq<NamespacedIdent>,
    i: int,
    k: IdentKey,
)
    requires
        0 <= i < decls.len(),
        decl_callable_name(decls[i].value) == Some(k),
        program_graph(decls, prune).nodes.len() <= usize::MAX,
        program_graph(decls, prune).idents.contains_key(k),
        shake_reach(program_graph(decls, prune), decls, retain)[program_graph(decls, prune).idents[k] as int],
    ensures
        shake_reach(program_graph(decls, prune), decls, retain)[program_graph(decls, prune).decls[i] as int],
{
    let v = program_graph(decls, prune);
    lemma_decl_name_edge(decls, prune, i);
    let starts = retain_starts(v, retain) + decl_starts(v, decls);
    let n = v.idents[k];
    assert(shake_reach(v, decls, retain)[n as int]);
    let s = choose|s: int| 0 <= s < starts.len() && #[trigger] reaches(v.edges, starts[s], n);
    lemma_reaches_step(v.edges, starts[s], n, v.decls[i]);
    let x = v.decls[i] as int;
    assert(reaches(v.edges, starts[s], x as usize));
    assert(reached(v.edges, starts, v.nodes.len())[x]);
}

/// A function or procedure that a kept declaration names anywhere in it,
/// the arguments of calls included, keeps its declaration: tree shaking
/// never removes the declaration of something that what it keeps uses.
pub proof fn law_shaking_keeps_callables_that_kept_declarations_name(
    decls: Seq<Spanned<Decl>>,
    prune: Seq<bool>,
    retain: Seq<NamespacedIdent>,
    j: int,
    i: int,
)
    requires
        0 <= j < decls.len(),
        0 <= i < decls.len(),
        decl_callable_name(decls[i].value) is Some,
        decl_node_refs(decls[j].value).contains(decl_callable_name(decls[i].value)->0),
        program_graph(decls, prune).nodes.len() <= usize::MAX,
        shake_reach(program_graph(decls, prune), decls, retain)[program_graph(decls, prune).decls[j] as int],
    ensures
        shake_reach(program_graph(decls, prune), decls, retain)[program_graph(decls, prune).decls[i] as int],
{
    let k = decl_callable_name(decls[i].value)->0;
    law_shaking_keeps_what_kept_declarations_name(decls, prune, retain, j, k);
    law_shaking_keeps_declaration_of_kept_name(decls, prune, retain, i, k);
}

/// Every node index of the view refers to one of its nodes.
pub open spec fn view_roots_within(v: GraphView) -> bool {
    forall|i: int, j: int| 0 <= i < v.nodes.len() && 0 <= j < v.nodes[i].1.len() ==> #[trigger] v.nodes[i].1[j] < v.nodes.len()
}

/// Where every node is kept, the walk removes nothing below `list`.
proof fn lemma_level_spans_all_kept(v: GraphView, reach: Seq<bool>, list: Seq<usize>, n: int, depth: nat)
    requires
        reach.len() == v.nodes.len(),
        forall|x: int| 0 <= x < reach.len() ==> #[trigger] reach[x],
        view_roots_within(v),
        forall|k: int| 0 <= k < list.len() ==> #[trigger] list[k] < v.nodes.len(),
        n <= list.len(),
    ensures
        level_spans(v, reach, list, n, depth) == Seq::<RawSpan>::empty(),
    decreases depth, n,
{
    if n > 0 {
        lemma_level_spans_all_kept(v, reach, list, n - 1, depth);
        let x = list[n - 1];
        assert(reach[x as int]);
        if depth > 0 {
            let roots = node_roots(v, x);
            assert forall|k: int| 0 <= k < roots.len() implies #[trigger] roots[k] < v.nodes.len() by {
                assert(v.nodes[x as int].1[k] < v.nodes.len());
            }
            lemma_level_spans_all_kept(v, reach, roots, roots.len() as int, (depth - 1) as nat);
        }
        assert(level_spans(v, reach, list, n, depth) =~= Seq::<RawSpan>::empty());
    }
}

/// Where every node of the graph is kept, tree shaking removes nothing.
pub proof fn law_nothing_removed_when_all_kept(v: GraphView, reach: Seq<bool>)
    requires
        reach.len() == v.nodes.len(),
        forall|x: int| 0 <= x < reach.len() ==> #[trigger] reach[x],
        view_roots_within(v),
        forall|k: int| 0 <= k < v.decls.len() ==> #[trigger] v.decls[k] < v.nodes.len(),
    ensures
        removed_spans(v, reach) == Seq::<RawSpan>::empty(),
{
    lemma_level_spans_all_kept(v, reach, v.decls, v.decls.len() as int, shaking_depth(v, reach));
}

/// Marking what `s` reaches adds it as a start.
proof fn lemma_reached_push(
    edges: Multiset<(usize, usize)>,
    starts: Seq<usize>,
    s: usize,
    n: nat,
    flags: Seq<bool>,
)
    requires
        n <= usize::MAX + 1,
        flags.len() == n,
        forall|x: usize| x < n ==> #[trigger] flags[x as int] == (reached(edges, starts, n)[x as int] || reaches(edges, s, x)),
    ensures
        flags == reached(edges, starts.push(s), n),
{
    let t = starts.push(s);
    assert forall|x: int| 0 <= x < n implies #[trigger] flags[x] == reached(edges, t, n)[x] by {
        let u = x as usize;
        assert(flags[u as int] == (reached(edges, starts, n)[u as int] || reaches(edges, s, u)));
        if reached(edges, starts, n)[x] {
            let j = choose|j: int| 0 <= j < starts.len() && #[trigger] reaches(edges, starts[j], x as usize);
            assert(t[j] == starts[j]);
        }
        if reaches(edges, s, u) {
            assert(t[starts.len() as int] == s);
        }
        if reached(edges, t, n)[x] {
            let j = choose|j: int| 0 <= j < t.len() && #[trigger] reaches(edges, t[j], x as usize);
            if j < starts.len() {
                assert(t[j] == starts[j]);
            }
        }
    }
    assert(flags =~= reached(edges, t, n));
}

/// Whether the walk over `list`, below its reachable nodes and at most
/// `depth` levels deep, meets only well-formed spans to remove.
fn check_walk(g: &ReachabilityGraph, map: &ReachabilityMap, list: &Vec<usize>, depth: usize) -> (r: bool)
    requires
        graph_ok(*g, map.reachable()),
        forall|k: int| 0 <= k < list@.len() ==> #[trigger] list@[k] < g.nodes().len(),
    ensures
        r == walk_ok(g.view_of(), map.reachable(), list@, depth as nat),
    decreases depth,
{
    let ghost v = g.view_of();
    let ghost reach = map.reachable();
    let n = list.len();
    let mut k: usize = 0;
    while k < n
        invariant
            n == list@.len(),
            k <= n,
            v == g.view_of(),
            reach == map.reachable(),
            graph_ok(*g, reach),
            forall|m: int| 0 <= m < list@.len() ==> #[trigger] list@[m] < g.nodes().len(),
            forall|m: int|
                #![trigger list@[m]]
                0 <= m < k ==> if reach[list@[m] as int] {
                    depth > 0 && walk_ok(v, reach, node_roots(v, list@[m]), (depth - 1) as nat)
                } else {
                    elim_span(v, list@, m).start <= elim_span(v, list@, m).end
                },
        decreases n - k,
    {
        let node_index = list[k];
        if map.is_reachable(node_index) {
            if depth == 0 {
                assert(list@[k as int] == node_index);
                return false;
            }
            let roots = g.node_roots(node_index);
            proof {
                assert forall|m: int| 0 <= m < roots@.len() implies #[trigger] roots@[m] < g.nodes().len() by {
                    assert(g.nodes()[node_index as int].root_node_indexes@[m] < g.nodes().len());
                }
            }
            if !check_walk(g, map, roots, depth - 1) {
                assert(list@[k as int] == node_index);
                return false;
            }
        } else {
            let span = g.node_span(node_index);
            let ok = if k == 0 {
                if n == 1 {
                    span.start <= span.end
                } else {
                    span.start <= g.node_span(list[1]).start
                }
            } else {
                g.node_span(list[k - 1]).end <= span.end
            };
            if !ok {
                assert(list@[k as int] == node_index);
                return false;
            }
        }
        k += 1;
    }
    true
}

/// Whether the spans are in increasing order, do not overlap and lie
/// within the first `len` bytes.
fn check_spans_in_order(spans: &Vec<(RawSpan, Vec<u8>)>, len: usize) -> (r: bool)
    ensures
        r == spans_in_order(replacements_view(spans@), len as int),
{
    let ghost all = replacements_view(spans@);
    let n = spans.len();
    let mut i: usize = 0;
    while i < n
        invariant
            n == spans@.len(),
            all == replacements_view(spans@),
            i <= n,
            forall|m: int| 0 <= m < i ==> #[trigger] all[m].0.start <= all[m].0.end <= len,
            forall|m: int| 0 < m < i ==> all[m - 1].0.end <= #[trigger] all[m].0.start,
        decreases n - i,
    {
        let span = spans[i].0;
        assert(all[i as int].0 == span);
        if !(span.start <= span.end && (span.end as usize) <= len) {
            return false;
        }
        if i > 0 && spans[i - 1].0.end > span.start {
            assert(all[i - 1].0 == spans@[i - 1].0);
            return false;
        }
        i += 1;
    }
    true
}

/// Tree shaking with the answers about constructors given: `prune` holds,
/// for each declaration, whether the data type of a constructor function
/// may be pruned. `None` where a span to remove would be ill formed, the
/// spans overlap or leave the text, or what is left is not UTF-8.
pub fn shake_tree_with(
    src: &str,
    program: &BoogieProgram,
    retain_idents: &Vec<NamespacedIdent>,
    prune: &Vec<bool>,
) -> (r: Option<String>)
    requires
        prune@.len() == program.decls@.len(),
    ensures
        r is Some == shaken(src.spec_bytes(), program.decls@, retain_idents@, prune@) is Some,
        r is Some ==> r->0@ == shaken(src.spec_bytes(), program.decls@, retain_idents@, prune@)->0,
{
    let g = build_reachability_graph(program, prune);
    let node_count = g.node_count();
    let ghost v = g.view_of();
    let ghost nn = v.nodes.len();
    let mut map = ReachabilityMap::new(&g);
    proof {
        assert(map.reachable() =~= reached(v.edges, Seq::empty(), nn));
        assert(retain_idents@.subrange(0, 0) =~= Seq::<NamespacedIdent>::empty());
        lemma_program_graph_decls(program.decls@, prune@);
    }
    let n = retain_idents.len();
    let mut i: usize = 0;
    while i < n
        invariant
            n == retain_idents@.len(),
            i <= n,
            g.wf(),
            v == g.view_of(),
            nn == g.nodes().len(),
            nn == node_count,
            map.reachable().len() == nn,
            closed(g.edges(), map.reachable()),
            map.reachable() == reached(v.edges, retain_starts(v, retain_idents@.subrange(0, i as int)), nn),
        decreases n - i,
    {
        let ghost starts = retain_starts(v, retain_idents@.subrange(0, i as int));
        let ghost before = map.reachable();
        proof {
            let b = retain_idents@.subrange(0, i + 1);
            assert(b.subrange(0, b.len() - 1) =~= retain_idents@.subrange(0, i as int));
            assert(b[b.len() - 1] == retain_idents@[i as int]);
        }
        match g.lookup_node_with_ident(&retain_idents[i]) {
            Some(node) => {
                map.mark_reachable(&g, node);
                proof { lemma_reached_push(v.edges, starts, node, nn, map.reachable()); }
            },
            None => {},
        }
        i += 1;
    }
    assert(retain_idents@.subrange(0, n as int) =~= retain_idents@);
    let ghost rs = retain_starts(v, retain_idents@);
    let decl_indexes = g.decl_node_indexes();
    let m = program.decls.len();
    let mut i: usize = 0;
    proof {
        assert(program.decls@.subrange(0, 0) =~= Seq::<Spanned<Decl>>::empty());
        assert(rs + Seq::<usize>::empty() =~= rs);
    }
    while i < m
        invariant
            m == program.decls@.len(),
            i <= m,
            g.wf(),
            v == g.view_of(),
            decl_indexes@ == v.decls,
            v.decls.len() == m,
            nn == g.nodes().len(),
            nn == node_count,
            map.reachable().len() == nn,
            closed(g.edges(), map.reachable()),
            map.reachable() == reached(v.edges, rs + decl_starts(v, program.decls@.subrange(0, i as int)), nn),
        decreases m - i,
    {
        let ghost starts = rs + decl_starts(v, program.decls@.subrange(0, i as int));
        proof {
            let b = program.decls@.subrange(0, i + 1);
            assert(b.subrange(0, b.len() - 1) =~= program.decls@.subrange(0, i as int));
            assert(b[b.len() - 1] == program.decls@[i as int]);
        }
        let d = &program.decls[i].value;
        if decl_is_entry_point(d) || decl_is_axiom(d) {
            let node = decl_indexes[i];
            assert(g.decls()[i as int] < g.nodes().len());
            map.mark_reachable(&g, node);
            proof {
                lemma_reached_push(v.edges, starts, node, nn, map.reachable());
                assert(starts.push(node) =~= rs + decl_starts(v, program.decls@.subrange(0, i + 1)));
            }
        } else {
            proof { assert(starts =~= rs + decl_starts(v, program.decls@.subrange(0, i + 1))); }
        }
        i += 1;
    }
    assert(program.decls@.subrange(0, m as int) =~= program.decls@);
    let ghost reach = map.reachable();
    assert(reach == shake_reach(v, program.decls@, retain_idents@));
    proof {
        assert forall|k: int| 0 <= k < decl_indexes@.len() implies #[trigger] decl_indexes@[k] < g.nodes().len() by {
            assert(g.decls()[k] < g.nodes().len());
        }
    }
    proof {
        lemma_program_graph_shallow(program.decls@, prune@);
        law_walk_within_three_levels(v, reach);
    }
    if !check_walk(&g, &map, decl_indexes, 3) {
        return None;
    }
    let spans = find_spans_to_replace_for_reachability(&g, &map);
    let ghost reps = shake_replacements(v, reach);
    proof {
        let sorted = insertion_sorted(removed_spans(v, reach));
        assert(spans@.map_values(|p: (RawSpan, Vec<u8>)| p.0) == sorted);
        assert forall|k: int| 0 <= k < spans@.len() implies #[trigger] replacements_view(spans@)[k] == reps[k] by {
            assert(spans@.map_values(|p: (RawSpan, Vec<u8>)| p.0)[k] == sorted[k]);
            assert(spans@[k].1@ =~= Seq::<u8>::empty());
        }
        assert(replacements_view(spans@) =~= reps);
    }
    if !check_spans_in_order(&spans, src.as_bytes().len()) {
        return None;
    }
    string_from_utf8(replace_spans(src, spans))
}


/// The data type of a constructor declaration, where the answer about
/// pruning it matters.
pub open spec fn decl_ctor(d: Decl) -> Option<Ident> {
    match d {
        Decl::Func(f) => ctor_data_type(f),
        _ => None,
    }
}

/// Answers, one per declaration, that `can_prune` gives about the data
/// types of constructors; false for the other declarations.
pub open spec fn prune_answers<F: Fn(&Ident) -> bool>(decls: Seq<Spanned<Decl>>, can_prune: F, prune: Seq<bool>) -> bool {
    &&& prune.len() == decls.len()
    &&& forall|i: int|
        0 <= i < decls.len() ==> match decl_ctor(#[trigger] decls[i].value) {
            Some(dt) => can_prune.ensures((&dt,), prune[i]),
            None => !prune[i],
        }
}

/// The locals of a function's body: its type parameters, parameters and
/// result.
fn func_sign_locals(f: &FuncDecl) -> (r: Vec<NamespacedIdent>)
    ensures
        local_keys(r@) == func_sign_decls(*f).1,
{
    let mut locals: Vec<NamespacedIdent> = Vec::new();
    assert(local_keys(locals@) =~= Set::<crate::reachability::IdentKey>::empty());
    declare_idents(&mut locals, &f.type_params.params.idents, Namespace::Type);
    let ghost l0 = local_keys(locals@);
    let ps = &f.var_params;
    let n = ps.len();
    let mut i: usize = 0;
    while i < n
        invariant
            n == ps@.len(),
            i <= n,
            local_keys(locals@) == var_or_types_decls(ps@.subrange(0, i as int), l0).1,
        decreases n - i,
    {
        match &ps[i].var {
            Some(x) => declare_local_ident(&mut locals, x, Namespace::Var),
            None => {},
        }
        proof {
            let b = ps@.subrange(0, i + 1);
            assert(b.subrange(0, b.len() - 1) =~= ps@.subrange(0, i as int));
            assert(b[b.len() - 1] == ps@[i as int]);
        }
        i += 1;
    }
    assert(ps@.subrange(0, n as int) =~= ps@);
    match &f.returns.var {
        Some(x) => declare_local_ident(&mut locals, x, Namespace::Var),
        None => {},
    }
    locals
}

/// The data type of a constructor function whose result names a global
/// type.
fn func_ctor_data_type(f: &FuncDecl) -> (r: Option<Ident>)
    ensures
        r == ctor_data_type(*f),
{
    if !func_decl_is_ctor(f) {
        return None;
    }
    match extract_data_type_ident_from_type(&f.returns.type_) {
        Some(dt) => {
            let locals = func_sign_locals(f);
            if is_local(&locals, &dt, Namespace::Type) {
                None
            } else {
                Some(dt)
            }
        },
        None => None,
    }
}

/// Removes from the source text of a Boogie program the declarations, and
/// the parts of declarations, that neither the identifiers to retain, nor
/// the entry points, nor the axioms need. `can_prune_data_type_ident` says
/// of the data type of a constructor function whether it may go without
/// the constructor. `None` where a span to remove would be ill formed, the
/// spans overlap or leave the text, or what is left is not UTF-8.
pub fn shake_tree<F: Fn(&Ident) -> bool>(
    src: &str,
    program: &BoogieProgram,
    retain_idents: &Vec<NamespacedIdent>,
    can_prune_data_type_ident: F,
) -> (r: Option<String>)
    requires
        forall|i: &Ident| can_prune_data_type_ident.requires((i,)),
    ensures
        exists|prune: Seq<bool>|
            {
                &&& #[trigger] prune_answers(program.decls@, can_prune_data_type_ident, prune)
                &&& (r is Some == shaken(src.spec_bytes(), program.decls@, retain_idents@, prune) is Some)
                &&& (r is Some ==> r->0@ == shaken(src.spec_bytes(), program.decls@, retain_idents@, prune)->0)
            },
{
    let mut prune: Vec<bool> = Vec::new();
    let n = program.decls.len();
    let mut i: usize = 0;
    while i < n
        invariant
            n == program.decls@.len(),
            i <= n,
            prune@.len() == i,
            forall|i: &Ident| can_prune_data_type_ident.requires((i,)),
            forall|j: int|
                0 <= j < i ==> match decl_ctor(#[trigger] program.decls@[j].value) {
                    Some(dt) => can_prune_data_type_ident.ensures((&dt,), prune@[j]),
                    None => !prune@[j],
                },
        decreases n - i,
    {
        let answer = match &program.decls[i].value {
            Decl::Func(f) => match func_ctor_data_type(f) {
                Some(dt) => can_prune_data_type_ident(&dt),
                None => false,
            },
            _ => false,
        };
        prune.push(answer);
        i += 1;
    }
    assert(prune_answers(program.decls@, can_prune_data_type_ident, prune@));
    shake_tree_with(src, program, retain_idents, &prune)
}


// ---------------------------------------------------------------------
// Inlining attributes.
// ---------------------------------------------------------------------

/// `c` is a decimal digit.
pub open spec fn is_dec_digit(c: char) -> bool {
    '0' <= c && c <= '9'
}

/// The text without one leading `+`, unless a second `+` follows it.
pub open spec fn strip_plus(s: Seq<char>) -> Seq<char> {
    if s.len() > 0 && s[0] == '+' && !(s.len() > 1 && s[1] == '+') {
        s.drop_first()
    } else {
        s
    }
}

/// The text is an unsigned decimal number: after an optional `+`, a digit,
/// then digits and `_` separators.
pub open spec fn parses_as_nat(s: Seq<char>) -> bool {
    let t = strip_plus(s);
    &&& t.len() > 0
    &&& t[0] != '_'
    &&& forall|i: int| 0 <= i < t.len() ==> is_dec_digit(#[trigger] t[i]) || t[i] == '_'
}

/// The value of decimal digits, skipping `_` separators.
pub open spec fn digits_value(t: Seq<char>) -> nat
    decreases t.len(),
{
    if t.len() == 0 {
        0
    } else if t.last() == '_' {
        digits_value(t.drop_last())
    } else {
        digits_value(t.drop_last()) * 10 + (t.last() as nat - '0' as nat) as nat
    }
}

/// The value of an unsigned decimal number.
pub open spec fn nat_value(s: Seq<char>) -> nat {
    digits_value(strip_plus(s))
}

/// Parses `s` as an unsigned decimal number with `BigUint`'s `FromStr`
/// (`from_str_radix` with radix 10, which accepts one leading `+`, wants a
/// digit first and skips `_` between digits), and gives the number back in
/// its canonical decimal text (`BigUint`'s `to_string`); `None` where the
/// parse fails.
#[verifier::external_body]
fn big_from_str(s: &str) -> (r: Option<String>)
    ensures
        r is Some == parses_as_nat(s@),
        r is Some ==> r->0@ == dec_text(nat_value(s@)),
{
    match s.parse::<BigUint>() {
        Ok(b) => Some(b.to_string()),
        Err(_) => None,
    }
}

/// Compares two unsigned decimal numbers as `BigUint`s, with `>=`.
#[verifier::external_body]
fn big_ge(a: &str, b: &str) -> (r: bool)
    requires
        parses_as_nat(a@),
        parses_as_nat(b@),
    ensures
        r == (nat_value(a@) >= nat_value(b@)),
{
    let x: BigUint = a.parse().unwrap();
    let y: BigUint = b.parse().unwrap();
    x >= y
}

/// The inlining level that an `inline` attribute with a single number
/// gives.
pub open spec fn inline_level_of(a: AttrOrTrigger) -> Option<nat> {
    match a {
        AttrOrTrigger::Attr(c) => if c.ident@ == "inline"@ && c.params@.len() == 1 {
            match c.params@[0] {
                AttrParam::Expr(Expr::Nat(s)) => if parses_as_nat(s@) {
                    Some(nat_value(s@))
                } else {
                    None
                },
                _ => None,
            }
        } else {
            None
        },
        AttrOrTrigger::Trigger(_) => None,
    }
}

/// The inlining level after the first `n` attributes: that of the last
/// `inline` attribute whose level is at least `level`, or else `level`.
pub open spec fn chosen_level(attrs: Seq<Spanned<AttrOrTrigger>>, level: nat, n: nat) -> nat
    decreases n,
{
    if n == 0 {
        level
    } else {
        let prev = chosen_level(attrs, level, (n - 1) as nat);
        match inline_level_of(attrs[n - 1].value) {
            Some(v) => if v >= level {
                v
            } else {
                prev
            },
            None => prev,
        }
    }
}

/// Inlining never lowers the requested level: the chosen level is at
/// least `level`.
pub proof fn law_inline_level_at_least_requested(attrs: Seq<Spanned<AttrOrTrigger>>, level: nat, n: nat)
    ensures
        chosen_level(attrs, level, n) >= level,
    decreases n,
{
    if n > 0 {
        law_inline_level_at_least_requested(attrs, level, (n - 1) as nat);
    }
}

/// The removal of attribute `i` of a procedure signature: from its start
/// to the next attribute, or to the procedure's name at `at`.
pub open spec fn attr_removal(attrs: Seq<Spanned<AttrOrTrigger>>, at: u32, i: int) -> (RawSpan, Seq<u8>) {
    (
        RawSpan {
            start: attrs[i].span.start,
            end: if i + 1 < attrs.len() {
                attrs[i + 1].span.start
            } else {
                at
            },
        },
        Seq::empty(),
    )
}

/// The positions of the `inline` attributes among the first `n`, in order.
pub open spec fn inline_positions(attrs: Seq<Spanned<AttrOrTrigger>>, n: nat) -> Seq<int>
    decreases n,
{
    if n == 0 {
        Seq::empty()
    } else {
        let prev = inline_positions(attrs, (n - 1) as nat);
        if attr_named(attrs[n - 1].value, "inline"@) {
            prev.push(n - 1)
        } else {
            prev
        }
    }
}

/// The removals among the first `n` attributes are those of the `inline`
/// attributes among them, in order; those are exactly the attributes named
/// `inline`.
proof fn lemma_inline_removals(attrs: Seq<Spanned<AttrOrTrigger>>, at: u32, n: nat)
    requires
        n <= attrs.len(),
    ensures
        inline_removals(attrs, at, n) == inline_positions(attrs, n).map_values(
            |i: int| attr_removal(attrs, at, i),
        ),
        forall|k: int|
            0 <= k < inline_positions(attrs, n).len() ==> 0 <= #[trigger] inline_positions(attrs, n)[k] < n
                && attr_named(attrs[inline_positions(attrs, n)[k]].value, "inline"@),
        forall|i: int|
            0 <= i < n && #[trigger] attr_named(attrs[i].value, "inline"@) ==> inline_positions(
                attrs,
                n,
            ).contains(i),
    decreases n,
{
    if n > 0 {
        lemma_inline_removals(attrs, at, (n - 1) as nat);
        let prev = inline_positions(attrs, (n - 1) as nat);
        let cur = inline_positions(attrs, n);
        let j = n - 1;
        if attr_named(attrs[j].value, "inline"@) {
            assert(cur == prev.push(j));
            assert(cur.map_values(|i: int| attr_removal(attrs, at, i)) =~= prev.map_values(
                |i: int| attr_removal(attrs, at, i),
            ).push(attr_removal(attrs, at, j)));
            assert forall|k: int| 0 <= k < cur.len() implies 0 <= #[trigger] cur[k] < n && attr_named(
                attrs[cur[k]].value,
                "inline"@,
            ) by {
                if k < prev.len() {
                    assert(cur[k] == prev[k]);
                }
            }
            assert forall|i: int| 0 <= i < n && #[trigger] attr_named(attrs[i].value, "inline"@) implies cur.contains(i) by {
                if i < j {
                    assert(prev.contains(i));
                    let k = choose|k: int| 0 <= k < prev.len() && prev[k] == i;
                    assert(cur[k] == prev[k]);
                } else {
                    assert(cur[prev.len() as int] == j);
                }
            }
        } else {
            assert(cur == prev);
            assert forall|i: int| 0 <= i < n && #[trigger] attr_named(attrs[i].value, "inline"@) implies cur.contains(i) by {
                assert(i < j);
            }
        }
    }
}

/// Inlining a procedure signature removes, in order, each of its `inline`
/// attributes up to the next attribute or its name, and nothing else, and
/// puts exactly one `{:inline <n>} ` before its name, with `n` at least the
/// requested level: the procedure ends up with one `inline` attribute.
pub proof fn law_inlining_leaves_one_inline_attribute(s: ProcSign, level: nat)
    ensures
        ({
            let attrs = s.attrs@;
            let at = s.ident.span.start;
            let reps = sign_inlining(s, level);
            let positions = inline_positions(attrs, attrs.len());
            let n = chosen_level(attrs, level, attrs.len());
            &&& reps == positions.map_values(|i: int| attr_removal(attrs, at, i)).push(
                (RawSpan { start: at, end: at }, encode_utf8(inline_attr_text(n))),
            )
            &&& n >= level
            &&& forall|k: int|
                0 <= k < positions.len() ==> #[trigger] attr_named(attrs[positions[k]].value, "inline"@)
            &&& forall|i: int|
                0 <= i < attrs.len() && #[trigger] attr_named(attrs[i].value, "inline"@)
                    ==> positions.contains(i)
        }),
{
    let attrs = s.attrs@;
    let at = s.ident.span.start;
    lemma_inline_removals(attrs, at, attrs.len());
    law_inline_level_at_least_requested(attrs, level, attrs.len());
    let positions = inline_positions(attrs, attrs.len());
    assert forall|k: int| 0 <= k < positions.len() implies #[trigger] attr_named(
        attrs[positions[k]].value,
        "inline"@,
    ) by {
        assert(0 <= positions[k] < attrs.len());
    }
}

/// The spans of the `inline` attributes among the first `n`, each up to
/// the next attribute or the procedure's name, to remove.
pub open spec fn inline_removals(attrs: Seq<Spanned<AttrOrTrigger>>, name_start: u32, n: nat) -> Seq<(RawSpan, Seq<u8>)>
    decreases n,
{
    if n == 0 {
        Seq::empty()
    } else {
        let prev = inline_removals(attrs, name_start, (n - 1) as nat);
        let i = n - 1;
        if attr_named(attrs[i].value, "inline"@) {
            let end = if i + 1 < attrs.len() {
                attrs[i + 1].span.start
            } else {
                name_start
            };
            prev.push((RawSpan { start: attrs[i].span.start, end }, Seq::empty()))
        } else {
            prev
        }
    }
}

/// The attribute `{:inline <n>} `.
pub open spec fn inline_attr_text(n: nat) -> Seq<char> {
    "{:inline "@ + dec_text(n) + "} "@
}

/// The replacements that inlining makes in a procedure signature: its
/// `inline` attributes go, and one with the chosen level goes before its
/// name.
pub open spec fn sign_inlining(s: ProcSign, level: nat) -> Seq<(RawSpan, Seq<u8>)> {
    let n = s.attrs@.len();
    let at = s.ident.span.start;
    inline_removals(s.attrs@, at, n).push(
        (RawSpan { start: at, end: at }, encode_utf8(inline_attr_text(chosen_level(s.attrs@, level, n)))),
    )
}

/// The replacements that inlining makes in the procedures and
/// implementations, one after the other.
pub open spec fn program_inlining(decls: Seq<Spanned<Decl>>, level: nat) -> Seq<(RawSpan, Seq<u8>)>
    decreases decls.len(),
{
    if decls.len() == 0 {
        Seq::empty()
    } else {
        program_inlining(decls.subrange(0, decls.len() - 1), level) + match decls[decls.len() - 1].value {
            Decl::Proc(p) => sign_inlining(p.proc_sign, level),
            Decl::Impl(i) => sign_inlining(i.proc_sign, level),
            _ => Seq::empty(),
        }
    }
}

/// The source text with each procedure and implementation inlined to at
/// least `level`, where a level is given and the replaced spans neither
/// overlap nor leave the text.
pub open spec fn inlined(src: Seq<u8>, decls: Seq<Spanned<Decl>>, level: Option<nat>) -> Option<Seq<char>> {
    let reps = match level {
        Some(l) => program_inlining(decls, l),
        None => Seq::empty(),
    };
    if spans_in_order(reps, src.len() as int) {
        utf8_text(replaced(src, reps, 0))
    } else {
        None
    }
}

/// Adds the replacements that inlining makes in a procedure signature;
/// `level_text` is the canonical text of `level`.
fn inline_proc_sign(
    level: &str,
    level_text: &String,
    proc_sign: &ProcSign,
    spans_to_replace: &mut Vec<(RawSpan, Vec<u8>)>,
)
    requires
        parses_as_nat(level@),
        level_text@ == dec_text(nat_value(level@)),
    ensures
        replacements_view(final(spans_to_replace)@) == replacements_view(old(spans_to_replace)@) + sign_inlining(
            *proc_sign,
            nat_value(level@),
        ),
{
    let ghost lv = nat_value(level@);
    let ghost s0 = replacements_view(spans_to_replace@);
    let inline_ident = Ident::from_str("inline");
    let attrs = &proc_sign.attrs;
    let at = proc_sign.ident.span.start;
    let n = attrs.len();
    let mut max_text = level_text.clone();
    let mut i: usize = 0;
    while i < n
        invariant
            n == attrs@.len(),
            i <= n,
            parses_as_nat(level@),
            lv == nat_value(level@),
            inline_ident@ == "inline"@,
            at == proc_sign.ident.span.start,
            max_text@ == dec_text(chosen_level(attrs@, lv, i as nat)),
            replacements_view(spans_to_replace@) == s0 + inline_removals(attrs@, at, i as nat),
        decreases n - i,
    {
        let ghost before = replacements_view(spans_to_replace@);
        match &attrs[i].value {
            AttrOrTrigger::Attr(c) => {
                if c.ident == inline_ident {
                    if c.params.len() == 1 {
                        match &c.params[0] {
                            AttrParam::Expr(Expr::Nat(found)) => {
                                match big_from_str(found.as_str()) {
                                    Some(found_text) => {
                                        if big_ge(found.as_str(), level) {
                                            max_text = found_text;
                                        }
                                    },
                                    None => {},
                                }
                            },
                            _ => {},
                        }
                    }
                    let end = if i + 1 < n {
                        attrs[i + 1].span.start
                    } else {
                        at
                    };
                    spans_to_replace.push((RawSpan { start: attrs[i].span.start, end }, Vec::new()));
                    proof {
                        assert(attr_named(attrs@[i as int].value, "inline"@));
                        assert(replacements_view(spans_to_replace@) =~= before.push(
                            (RawSpan { start: attrs@[i as int].span.start, end }, Seq::<u8>::empty()),
                        ));
                    }
                }
            },
            AttrOrTrigger::Trigger(_) => {},
        }
        i += 1;
    }
    let mut text = String::new();
    push_str(&mut text, "{:inline ");
    push_str(&mut text, max_text.as_str());
    push_str(&mut text, "} ");
    proof {
        reveal_strlit("{:inline ");
        reveal_strlit("} ");
        reveal_strlit("inline");
        assert(text@ =~= inline_attr_text(chosen_level(attrs@, lv, n as nat)));
    }
    let mut bytes: Vec<u8> = Vec::new();
    extend_bytes(&mut bytes, text.as_str().as_bytes());
    let ghost before = replacements_view(spans_to_replace@);
    spans_to_replace.push((RawSpan { start: at, end: at }, bytes));
    assert(replacements_view(spans_to_replace@) =~= before.push((RawSpan { start: at, end: at }, bytes@)));
}

/// Gives each procedure and implementation the attribute `{:inline <n>}`,
/// with `n` the highest of `procs_level` and the levels of its `inline`
/// attributes that are at least `procs_level`, in place of those
/// attributes. Without a level the text is unchanged. `None` where the
/// replaced spans overlap or leave the text.
pub fn inline_program(src: &str, program: &BoogieProgram, procs_level: Option<&str>) -> (r: Option<String>)
    requires
        procs_level matches Some(l) ==> parses_as_nat(l@),
    ensures
        r is Some == inlined(
            src.spec_bytes(),
            program.decls@,
            match procs_level {
                Some(l) => Some(nat_value(l@)),
                None => None,
            },
        ) is Some,
        r is Some ==> r->0@ == inlined(
            src.spec_bytes(),
            program.decls@,
            match procs_level {
                Some(l) => Some(nat_value(l@)),
                None => None,
            },
        )->0,
{
    let mut spans_to_replace: Vec<(RawSpan, Vec<u8>)> = Vec::new();
    match procs_level {
        Some(level) => {
            let level_text = match big_from_str(level) {
                Some(t) => t,
                None => String::new(),
            };
            let n = program.decls.len();
            let mut i: usize = 0;
            assert(replacements_view(spans_to_replace@) =~= Seq::<(RawSpan, Seq<u8>)>::empty());
            while i < n
                invariant
                    n == program.decls@.len(),
                    i <= n,
                    parses_as_nat(level@),
                    level_text@ == dec_text(nat_value(level@)),
                    replacements_view(spans_to_replace@) == program_inlining(
                        program.decls@.subrange(0, i as int),
                        nat_value(level@),
                    ),
                decreases n - i,
            {
                proof {
                    let b = program.decls@.subrange(0, i + 1);
                    assert(b.subrange(0, b.len() - 1) =~= program.decls@.subrange(0, i as int));
                    assert(b[b.len() - 1] == program.decls@[i as int]);
                }
                match &program.decls[i].value {
                    Decl::Proc(p) => inline_proc_sign(level, &level_text, &p.proc_sign, &mut spans_to_replace),
                    Decl::Impl(x) => inline_proc_sign(level, &level_text, &x.proc_sign, &mut spans_to_replace),
                    _ => {
                        assert(replacements_view(spans_to_replace@) =~= program_inlining(
                            program.decls@.subrange(0, i + 1),
                            nat_value(level@),
                        ));
                    },
                }
                i += 1;
            }
            assert(program.decls@.subrange(0, n as int) =~= program.decls@);
        },
        None => {
            assert(replacements_view(spans_to_replace@) =~= Seq::<(RawSpan, Seq<u8>)>::empty());
        },
    }
    if !check_spans_in_order(&spans_to_replace, src.as_bytes().len()) {
        return None;
    }
    string_from_utf8(replace_spans(src, spans_to_replace))
}

} // verus!
