//! The reachability graph of a Boogie program's declarations, kept in a
//! `petgraph` graph, and the search that marks what is reachable from the
//! declarations that must stay.

use fixedbitset::FixedBitSet;
use petgraph::graph::{Graph, NodeIndex};
use petgraph::visit::{Dfs, VisitMap};
use petgraph::Directed;
use vstd::multiset::Multiset;
use vstd::prelude::*;

use crate::bpl_tools::Namespace;
use crate::boogie_expr::Spanned;
use crate::ident::Ident;
use crate::span::RawSpan;

verus! {

#[verifier::external_type_specification]
#[verifier::external_body]
#[verifier::reject_recursive_types(N)]
#[verifier::reject_recursive_types(E)]
#[verifier::reject_recursive_types(Ty)]
#[verifier::reject_recursive_types(Ix)]
pub struct ExGraph<N, E, Ty, Ix>(Graph<N, E, Ty, Ix>);

#[verifier::external_type_specification]
#[verifier::external_body]
#[verifier::reject_recursive_types(Ix)]
pub struct ExNodeIndex<Ix>(NodeIndex<Ix>);

#[verifier::external_type_specification]
#[verifier::external_body]
#[verifier::reject_recursive_types(N)]
#[verifier::reject_recursive_types(VM)]
pub struct ExDfs<N, VM>(Dfs<N, VM>);

#[verifier::external_type_specification]
#[verifier::external_body]
pub struct ExFixedBitSet(FixedBitSet);

#[verifier::external_type_specification]
#[verifier::external_body]
pub struct ExDirected(Directed);

/// The edges of a graph, from node to node, with their multiplicities.
pub uninterp spec fn graph_edges(g: Graph<(), (), Directed, usize>) -> Multiset<(usize, usize)>;

/// The number of nodes of a graph; they are numbered from 0.
pub uninterp spec fn graph_node_count(g: Graph<(), (), Directed, usize>) -> nat;

/// The stack of nodes that a depth-first search has yet to visit, its top
/// last.
pub uninterp spec fn dfs_stack(d: Dfs<NodeIndex<usize>, FixedBitSet>) -> Seq<usize>;

/// The map of nodes that a depth-first search has discovered: one flag per
/// node that it was made for.
pub uninterp spec fn dfs_discovered(d: Dfs<NodeIndex<usize>, FixedBitSet>) -> Seq<bool>;

/// A new directed graph (`petgraph::graph::Graph::default`).
///
/// Trusted: the graph has no nodes and no edges.
#[verifier::external_body]
fn new_graph() -> (g: Graph<(), (), Directed, usize>)
    ensures
        graph_node_count(g) == 0,
        graph_edges(g) == Multiset::<(usize, usize)>::empty(),
{
    Graph::default()
}

/// Adds a node (`petgraph::graph::Graph::add_node`).
///
/// Trusted: the new node is numbered by the number of nodes before it, and
/// the edges stay as they were. With `usize` indexes the graph has no
/// maximum number of nodes.
#[verifier::external_body]
fn graph_add_node(g: &mut Graph<(), (), Directed, usize>) -> (r: usize)
    ensures
        r == graph_node_count(*old(g)),
        graph_node_count(*final(g)) == graph_node_count(*old(g)) + 1,
        graph_edges(*final(g)) == graph_edges(*old(g)),
{
    g.add_node(()).index()
}

/// Adds an edge from `a` to `b` (`petgraph::graph::Graph::add_edge`), which
/// panics unless both nodes exist.
///
/// Trusted: the edge is added once more, and the nodes stay as they were.
#[verifier::external_body]
fn graph_add_edge(g: &mut Graph<(), (), Directed, usize>, a: usize, b: usize)
    requires
        a < graph_node_count(*old(g)),
        b < graph_node_count(*old(g)),
    ensures
        graph_node_count(*final(g)) == graph_node_count(*old(g)),
        graph_edges(*final(g)) == graph_edges(*old(g)).insert((a, b)),
{
    g.add_edge(NodeIndex::new(a), NodeIndex::new(b), ());
}

/// A depth-first search of `g` with nothing on its stack and nothing
/// discovered (`petgraph::visit::Dfs::empty`).
///
/// Trusted: its map of discovered nodes has one flag, unset, for each node
/// of the graph.
#[verifier::external_body]
fn new_dfs(g: &Graph<(), (), Directed, usize>) -> (d: Dfs<NodeIndex<usize>, FixedBitSet>)
    ensures
        dfs_stack(d) == Seq::<usize>::empty(),
        dfs_discovered(d) == Seq::new(graph_node_count(*g), |i: int| false),
{
    Dfs::empty(g)
}

/// Restarts the search from `start`, keeping what it discovered
/// (`petgraph::visit::Dfs::move_to`).
///
/// Trusted: the stack holds `start` alone afterwards.
#[verifier::external_body]
fn dfs_move_to(d: &mut Dfs<NodeIndex<usize>, FixedBitSet>, start: usize)
    ensures
        dfs_stack(*final(d)) == seq![start],
        dfs_discovered(*final(d)) == dfs_discovered(*old(d)),
{
    d.move_to(NodeIndex::new(start));
}

/// `(a, b)` is an edge of `edges` from `a`.
pub open spec fn has_edge(edges: Multiset<(usize, usize)>, a: usize, b: usize) -> bool {
    edges.count((a, b)) > 0
}

/// The next node of the search (`petgraph::visit::Dfs::next`), which
/// marks a node as discovered and panics for a node outside its map.
///
/// Trusted: it pops nodes from the stack until one is not yet discovered;
/// that node is discovered and returned, after the successors that are
/// still undiscovered are pushed onto the stack (what remains below the
/// popped nodes stays). Where every node on the stack is discovered, the
/// stack is emptied and nothing is returned. The order and multiplicity in
/// which the successors are pushed are left unsaid.
#[verifier::external_body]
fn dfs_next(d: &mut Dfs<NodeIndex<usize>, FixedBitSet>, g: &Graph<(), (), Directed, usize>) -> (r:
    Option<usize>)
    requires
        forall|i: int|
            0 <= i < dfs_stack(*old(d)).len() ==> #[trigger] dfs_stack(*old(d))[i] < dfs_discovered(
                *old(d),
            ).len(),
    ensures
        dfs_discovered(*final(d)).len() == dfs_discovered(*old(d)).len(),
        match r {
            None => {
                &&& dfs_stack(*final(d)) == Seq::<usize>::empty()
                &&& dfs_discovered(*final(d)) == dfs_discovered(*old(d))
                &&& forall|i: int|
                    0 <= i < dfs_stack(*old(d)).len() ==> dfs_discovered(*old(d))[#[trigger] dfs_stack(
                        *old(d),
                    )[i] as int]
            },
            Some(n) => exists|k: int, pushed: Seq<usize>|
                {
                    &&& 0 <= k < dfs_stack(*old(d)).len()
                    &&& dfs_stack(*old(d))[k] == n
                    &&& !dfs_discovered(*old(d))[n as int]
                    &&& forall|j: int|
                        k < j < dfs_stack(*old(d)).len() ==> dfs_discovered(*old(d))[#[trigger] dfs_stack(
                            *old(d),
                        )[j] as int]
                    &&& dfs_discovered(*final(d)) == dfs_discovered(*old(d)).update(n as int, true)
                    &&& dfs_stack(*final(d)) == dfs_stack(*old(d)).take(k) + pushed
                    &&& forall|x: usize|
                        #[trigger] pushed.contains(x) <==> (has_edge(graph_edges(*g), n, x)
                            && !(x < dfs_discovered(*final(d)).len() && dfs_discovered(*final(d))[x as int]))
                },
        },
{
    d.next(g).map(|n| n.index())
}

/// Whether the search has discovered node `n`
/// (`petgraph::visit::VisitMap::is_visited` on its map).
///
/// Trusted: nodes outside the map are not discovered.
#[verifier::external_body]
fn dfs_is_visited(d: &Dfs<NodeIndex<usize>, FixedBitSet>, n: usize) -> (r: bool)
    ensures
        r == (n < dfs_discovered(*d).len() && dfs_discovered(*d)[n as int]),
{
    d.discovered.is_visited(&NodeIndex::<usize>::new(n))
}

/// The number of set flags.
pub open spec fn count_set(flags: Seq<bool>) -> nat
    decreases flags.len(),
{
    if flags.len() == 0 {
        0
    } else {
        count_set(flags.drop_last()) + if flags.last() { 1nat } else { 0nat }
    }
}

/// No more flags are set than there are.
proof fn lemma_count_set_bound(flags: Seq<bool>)
    ensures
        count_set(flags) <= flags.len(),
    decreases flags.len(),
{
    if flags.len() > 0 {
        lemma_count_set_bound(flags.drop_last());
    }
}

/// Setting an unset flag sets one flag more.
proof fn lemma_count_set_update(flags: Seq<bool>, i: int)
    requires
        0 <= i < flags.len(),
        !flags[i],
    ensures
        count_set(flags.update(i, true)) == count_set(flags) + 1,
    decreases flags.len(),
{
    let u = flags.update(i, true);
    if i == flags.len() - 1 {
        assert(u.drop_last() =~= flags.drop_last());
    } else {
        assert(u.drop_last() =~= flags.drop_last().update(i, true));
        lemma_count_set_update(flags.drop_last(), i);
    }
}

/// `p` is a path of `edges`: each node has an edge to the next.
pub open spec fn is_path(edges: Multiset<(usize, usize)>, p: Seq<usize>) -> bool {
    forall|i: int| 0 <= i < p.len() - 1 ==> #[trigger] has_edge(edges, p[i], p[i + 1])
}

/// Some path of `edges` leads from `a` to `b` (every node reaches
/// itself).
pub open spec fn reaches(edges: Multiset<(usize, usize)>, a: usize, b: usize) -> bool {
    exists|p: Seq<usize>| p.len() >= 1 && p[0] == a && p.last() == b && #[trigger] is_path(edges, p)
}

/// Every node reaches itself.
pub(crate) proof fn lemma_reaches_self(edges: Multiset<(usize, usize)>, a: usize)
    ensures
        reaches(edges, a, a),
{
    let p = seq![a];
    assert(is_path(edges, p));
}

/// A path can be extended by one more edge.
pub(crate) proof fn lemma_reaches_step(edges: Multiset<(usize, usize)>, a: usize, b: usize, c: usize)
    requires
        reaches(edges, a, b),
        has_edge(edges, b, c),
    ensures
        reaches(edges, a, c),
{
    let p = choose|p: Seq<usize>| p.len() >= 1 && p[0] == a && p.last() == b && #[trigger] is_path(edges, p);
    let q = p.push(c);
    assert forall|i: int| 0 <= i < q.len() - 1 implies #[trigger] has_edge(edges, q[i], q[i + 1]) by {
        if i < p.len() - 1 {
            assert(has_edge(edges, p[i], p[i + 1]));
        }
    }
    assert(is_path(edges, q));
}

/// The flags are set for a set of nodes that no edge leaves.
pub open spec fn closed(edges: Multiset<(usize, usize)>, flags: Seq<bool>) -> bool {
    forall|a: usize, b: usize|
        #[trigger] has_edge(edges, a, b) && a < flags.len() && flags[a as int] ==> b < flags.len()
            && flags[b as int]
}

/// A set that no edge leaves holds every node that a node of it reaches.
proof fn lemma_closed_reaches(edges: Multiset<(usize, usize)>, flags: Seq<bool>, a: usize, b: usize)
    requires
        closed(edges, flags),
        a < flags.len(),
        flags[a as int],
        reaches(edges, a, b),
    ensures
        b < flags.len() && flags[b as int],
{
    let p = choose|p: Seq<usize>| p.len() >= 1 && p[0] == a && p.last() == b && #[trigger] is_path(edges, p);
    lemma_closed_path(edges, flags, p, p.len() - 1);
}

/// Along a path that starts in a set that no edge leaves, every node is in
/// the set.
proof fn lemma_closed_path(edges: Multiset<(usize, usize)>, flags: Seq<bool>, p: Seq<usize>, i: int)
    requires
        closed(edges, flags),
        is_path(edges, p),
        0 <= i < p.len(),
        p[0] < flags.len(),
        flags[p[0] as int],
    ensures
        p[i] < flags.len() && flags[p[i] as int],
    decreases i,
{
    if i > 0 {
        let j = i - 1;
        lemma_closed_path(edges, flags, p, j);
        assert(has_edge(edges, p[j], p[j + 1]));
    }
}

/// Each edge of `edges` is between nodes below `n`.
pub open spec fn edges_within(edges: Multiset<(usize, usize)>, n: nat) -> bool {
    forall|a: usize, b: usize| #[trigger] has_edge(edges, a, b) ==> a < n && b < n
}

/// What a depth-first search from `start` keeps true: what was discovered
/// before stays discovered; what it newly discovered, and what is on its
/// stack, `start` reaches; an edge from a discovered node leads to a
/// discovered node or to one on the stack; and `start` is discovered or on
/// the stack.
spec fn dfs_inv(
    edges: Multiset<(usize, usize)>,
    before: Seq<bool>,
    start: usize,
    flags: Seq<bool>,
    stack: Seq<usize>,
) -> bool {
    &&& flags.len() == before.len()
    &&& forall|x: usize| x < flags.len() && #[trigger] before[x as int] ==> flags[x as int]
    &&& forall|x: usize|
        x < flags.len() && #[trigger] flags[x as int] && !before[x as int] ==> reaches(edges, start, x)
    &&& forall|i: int|
        0 <= i < stack.len() ==> #[trigger] stack[i] < flags.len() && reaches(edges, start, stack[i])
    &&& forall|a: usize, b: usize|
        #[trigger] has_edge(edges, a, b) && a < flags.len() && flags[a as int] ==> (b < flags.len()
            && flags[b as int]) || stack.contains(b)
    &&& (start < flags.len() && flags[start as int]) || stack.contains(start)
}

/// Which nodes of a reachability graph a search has found reachable.
pub struct ReachabilityMap {
    dfs: Dfs<NodeIndex<usize>, FixedBitSet>,
}

impl ReachabilityMap {
    /// One flag per node: whether it was found reachable.
    pub closed spec fn reachable(&self) -> Seq<bool> {
        dfs_discovered(self.dfs)
    }

    /// A map for a graph of `n` nodes in which nothing is reachable yet.
    pub(crate) fn for_graph(g: &Graph<(), (), Directed, usize>) -> (r: Self)
        ensures
            r.reachable() == Seq::new(graph_node_count(*g), |i: int| false),
    {
        ReachabilityMap { dfs: new_dfs(g) }
    }

    /// Marks every node that `start` reaches. What was marked before stays
    /// marked; a set that no edge leaves stays such a set.
    pub(crate) fn mark_reachable_in(&mut self, g: &Graph<(), (), Directed, usize>, start: usize)
        requires
            start < old(self).reachable().len(),
            edges_within(graph_edges(*g), old(self).reachable().len()),
            closed(graph_edges(*g), old(self).reachable()),
        ensures
            final(self).reachable().len() == old(self).reachable().len(),
            forall|x: usize|
                x < final(self).reachable().len() ==> #[trigger] final(self).reachable()[x as int] == (
                old(self).reachable()[x as int] || reaches(graph_edges(*g), start, x)),
            closed(graph_edges(*g), final(self).reachable()),
    {
        let ghost edges = graph_edges(*g);
        let ghost before = dfs_discovered(self.dfs);
        let ghost n = before.len();
        dfs_move_to(&mut self.dfs, start);
        proof {
            lemma_reaches_self(edges, start);
            assert(dfs_stack(self.dfs)[0] == start);
            assert(dfs_inv(edges, before, start, dfs_discovered(self.dfs), dfs_stack(self.dfs)));
        }
        loop
            invariant
                edges == graph_edges(*g),
                n == before.len(),
                edges_within(edges, n),
                closed(edges, before),
                dfs_inv(edges, before, start, dfs_discovered(self.dfs), dfs_stack(self.dfs)),
            ensures
                dfs_inv(edges, before, start, dfs_discovered(self.dfs), dfs_stack(self.dfs)),
                dfs_stack(self.dfs) == Seq::<usize>::empty(),
                closed(edges, dfs_discovered(self.dfs)),
            decreases n - count_set(dfs_discovered(self.dfs)),
        {
            let ghost flags = dfs_discovered(self.dfs);
            let ghost stack = dfs_stack(self.dfs);
            proof {
                lemma_count_set_bound(flags);
            }
            match dfs_next(&mut self.dfs, g) {
                None => {
                    proof {
                        assert forall|a: usize, b: usize|
                            #[trigger] has_edge(edges, a, b) && a < flags.len() && flags[a as int] implies b
                                < flags.len() && flags[b as int] by {
                            if !(b < flags.len() && flags[b as int]) {
                                assert(stack.contains(b));
                                let i = choose|i: int| 0 <= i < stack.len() && stack[i] == b;
                                assert(flags[stack[i] as int]);
                            }
                        }
                    }
                    break;
                },
                Some(x) => {
                    proof {
                        let (k, pushed) = choose|k: int, pushed: Seq<usize>|
                            {
                                &&& 0 <= k < stack.len()
                                &&& stack[k] == x
                                &&& !flags[x as int]
                                &&& forall|j: int|
                                    k < j < stack.len() ==> flags[#[trigger] stack[j] as int]
                                &&& dfs_discovered(self.dfs) == flags.update(x as int, true)
                                &&& dfs_stack(self.dfs) == stack.take(k) + pushed
                                &&& forall|y: usize|
                                    #[trigger] pushed.contains(y) <==> (has_edge(edges, x, y) && !(y
                                        < dfs_discovered(self.dfs).len() && dfs_discovered(
                                        self.dfs,
                                    )[y as int]))
                            };
                        let flags2 = dfs_discovered(self.dfs);
                        let stack2 = dfs_stack(self.dfs);
                        assert(stack[k] < flags.len() && reaches(edges, start, stack[k]));
                        lemma_count_set_update(flags, x as int);
                        assert forall|i: int| 0 <= i < stack2.len() implies #[trigger] stack2[i]
                            < flags2.len() && reaches(edges, start, stack2[i]) by {
                            if i < k {
                                assert(stack2[i] == stack[i]);
                            } else {
                                let y = stack2[i];
                                assert(pushed[i - k] == y);
                                assert(pushed.contains(y));
                                lemma_reaches_step(edges, start, x, y);
                            }
                        }
                        assert forall|x0: usize|
                            x0 < flags2.len() && #[trigger] flags2[x0 as int] && !before[x0 as int] implies reaches(
                            edges,
                            start,
                            x0,
                        ) by {
                            if x0 != x {
                                assert(flags[x0 as int]);
                            }
                        }
                        assert forall|x0: usize| x0 < flags2.len() && #[trigger] before[x0 as int] implies flags2[x0 as int] by {
                            assert(flags[x0 as int]);
                        }
                        lemma_count_set_bound(flags2);
                        assert(count_set(flags2) == count_set(flags) + 1);
                        assert forall|a: usize, b: usize|
                            #[trigger] has_edge(edges, a, b) && a < flags2.len() && flags2[a as int] implies (b
                                < flags2.len() && flags2[b as int]) || stack2.contains(b) by {
                            if a == x {
                                if !(b < flags2.len() && flags2[b as int]) {
                                    assert(pushed.contains(b));
                                    let j = choose|j: int| 0 <= j < pushed.len() && pushed[j] == b;
                                    assert(stack2[k + j] == b);
                                }
                            } else {
                                assert(flags[a as int]);
                                if !(b < flags.len() && flags[b as int]) {
                                    assert(stack.contains(b));
                                    let i = choose|i: int| 0 <= i < stack.len() && stack[i] == b;
                                    if i < k {
                                        assert(stack2[i] == b);
                                    } else if i > k {
                                        assert(flags[stack[i] as int]);
                                    }
                                }
                            }
                        }
                        if !(start < flags.len() && flags[start as int]) {
                            assert(stack.contains(start));
                            let i = choose|i: int| 0 <= i < stack.len() && stack[i] == start;
                            if i < k {
                                assert(stack2[i] == start);
                            } else if i > k {
                                assert(flags[stack[i] as int]);
                            }
                        }
                        assert(dfs_inv(edges, before, start, flags2, stack2));
                    }
                },
            }
        }
        proof {
            let flags = dfs_discovered(self.dfs);
            assert forall|x: usize| x < flags.len() implies #[trigger] flags[x as int] == (before[x as int]
                || reaches(edges, start, x)) by {
                if reaches(edges, start, x) && !before[x as int] {
                    assert(start < flags.len() && flags[start as int]);
                    lemma_closed_reaches(edges, flags, start, x);
                }
            }
        }
    }

    /// Whether node `node_index` was found reachable.
    pub fn is_reachable(&self, node_index: usize) -> (r: bool)
        requires
            node_index < self.reachable().len(),
        ensures
            r == self.reachable()[node_index as int],
    {
        dfs_is_visited(&self.dfs, node_index)
    }
}

/// An identifier together with the namespace it is declared or used in.
pub struct NamespacedIdent(pub Ident, pub Namespace);

impl Clone for NamespacedIdent {
    fn clone(&self) -> (r: Self)
        ensures
            r == *self,
    {
        NamespacedIdent(self.0.clone(), self.1)
    }
}

impl NamespacedIdent {
    /// The text of the identifier and its namespace.
    pub open spec fn key(&self) -> (Seq<char>, Namespace) {
        (self.0@, self.1)
    }
}

/// A node of the reachability graph: the span of source text it stands for,
/// and the nodes it is rooted at, in the order they were attached.
pub struct ReachabilityNode {
    pub span: RawSpan,
    pub root_node_indexes: Vec<usize>,
}

/// The keys of identifier entries.
pub open spec fn entry_keys(es: Seq<(NamespacedIdent, usize)>) -> Seq<(Seq<char>, Namespace)> {
    es.map_values(|e: (NamespacedIdent, usize)| e.0.key())
}

/// The node of each identifier that has one.
pub open spec fn entries_map(es: Seq<(NamespacedIdent, usize)>) -> Map<(Seq<char>, Namespace), usize> {
    Map::new(
        |k: (Seq<char>, Namespace)| entry_keys(es).contains(k),
        |k: (Seq<char>, Namespace)| es[entry_keys(es).index_of(k)].1,
    )
}

/// The graph of what keeps what in a Boogie program: a node for each
/// declaration (in source order), for each part of a declaration that can
/// go on its own, and for each global identifier. An edge leads from a node
/// to what it needs; a declaration is rooted at the identifiers it declares,
/// which lead back to it.
pub struct ReachabilityGraph {
    graph: Graph<(), (), Directed, usize>,
    nodes: Vec<ReachabilityNode>,
    ident_indexes: Vec<(NamespacedIdent, usize)>,
    decl_node_indexes: Vec<usize>,
}

impl ReachabilityGraph {
    /// The nodes, numbered from 0.
    pub closed spec fn nodes(&self) -> Seq<ReachabilityNode> {
        self.nodes@
    }

    /// The nodes of the declarations, in source order.
    pub closed spec fn decls(&self) -> Seq<usize> {
        self.decl_node_indexes@
    }

    /// The edges, with their multiplicities.
    pub closed spec fn edges(&self) -> Multiset<(usize, usize)> {
        graph_edges(self.graph)
    }

    /// The node of each global identifier that has one.
    pub closed spec fn idents(&self) -> Map<(Seq<char>, Namespace), usize> {
        entries_map(self.ident_indexes@)
    }

    /// Each identifier has one entry, and the graph keeps one node per
    /// entry of the node list.
    pub closed spec fn inner_ok(&self) -> bool {
        &&& graph_node_count(self.graph) == self.nodes@.len()
        &&& entry_keys(self.ident_indexes@).no_duplicates()
    }

    /// Every node index that the graph holds refers to one of its nodes.
    pub open spec fn wf(&self) -> bool {
        &&& self.inner_ok()
        &&& edges_within(self.edges(), self.nodes().len())
        &&& forall|i: int| 0 <= i < self.decls().len() ==> #[trigger] self.decls()[i] < self.nodes().len()
        &&& forall|i: int, j: int|
            0 <= i < self.nodes().len() && 0 <= j < self.nodes()[i].root_node_indexes@.len()
                ==> #[trigger] self.nodes()[i].root_node_indexes@[j] < self.nodes().len()
        &&& forall|k: (Seq<char>, Namespace)| #[trigger] self.idents().contains_key(k) ==> self.idents()[k]
            < self.nodes().len()
    }

    /// The graph without nodes.
    pub fn new() -> (r: Self)
        ensures
            r.wf(),
            r.nodes().len() == 0,
            r.decls().len() == 0,
            r.edges() == Multiset::<(usize, usize)>::empty(),
            r.idents() == Map::<(Seq<char>, Namespace), usize>::empty(),
    {
        let r = ReachabilityGraph {
            graph: new_graph(),
            nodes: Vec::new(),
            ident_indexes: Vec::new(),
            decl_node_indexes: Vec::new(),
        };
        assert(r.idents() =~= Map::<(Seq<char>, Namespace), usize>::empty());
        r
    }

    /// The number of nodes.
    pub fn node_count(&self) -> (r: usize)
        ensures
            r == self.nodes().len(),
    {
        self.nodes.len()
    }

    /// The span of node `i`.
    pub fn node_span(&self, i: usize) -> (r: RawSpan)
        requires
            i < self.nodes().len(),
        ensures
            r == self.nodes()[i as int].span,
    {
        self.nodes[i].span
    }

    /// The nodes that node `i` is rooted at.
    pub fn node_roots(&self, i: usize) -> (r: &Vec<usize>)
        requires
            i < self.nodes().len(),
        ensures
            r@ == self.nodes()[i as int].root_node_indexes@,
    {
        &self.nodes[i].root_node_indexes
    }

    /// The nodes of the declarations, in source order.
    pub fn decl_node_indexes(&self) -> (r: &Vec<usize>)
        ensures
            r@ == self.decls(),
    {
        &self.decl_node_indexes
    }

    /// The node of `ident`, if it has one.
    pub fn lookup_node_with_ident(&self, ident: &NamespacedIdent) -> (r: Option<usize>)
        requires
            self.wf(),
        ensures
            r == (if self.idents().contains_key(ident.key()) {
                Some(self.idents()[ident.key()])
            } else {
                None
            }),
    {
        let n = self.ident_indexes.len();
        let mut i: usize = 0;
        while i < n
            invariant
                n == self.ident_indexes@.len(),
                self.wf(),
                i <= n,
                forall|j: int| 0 <= j < i ==> entry_keys(self.ident_indexes@)[j] != ident.key(),
            decreases n - i,
        {
            let e = &self.ident_indexes[i];
            if e.0.0 == ident.0 && e.0.1 == ident.1 {
                proof {
                    let keys = entry_keys(self.ident_indexes@);
                    assert(keys[i as int] == ident.key());
                    assert(keys.contains(ident.key()));
                    assert(keys.index_of(ident.key()) == i as int) by {
                        let k = keys.index_of(ident.key());
                        assert(keys[k] == ident.key());
                        assert(keys.no_duplicates());
                    }
                }
                return Some(e.1);
            }
            i += 1;
        }
        proof {
            let keys = entry_keys(self.ident_indexes@);
            assert(!keys.contains(ident.key()));
        }
        None
    }

    /// Adds a node for `span`, rooted at nothing.
    pub fn add_node(&mut self, span: RawSpan) -> (r: usize)
        requires
            old(self).wf(),
        ensures
            final(self).wf(),
            r == old(self).nodes().len(),
            final(self).nodes().len() == old(self).nodes().len() + 1,
            forall|i: int| 0 <= i < r ==> #[trigger] final(self).nodes()[i] == old(self).nodes()[i],
            final(self).nodes()[r as int].span == span,
            final(self).nodes()[r as int].root_node_indexes@.len() == 0,
            final(self).decls() == old(self).decls(),
            final(self).edges() == old(self).edges(),
            final(self).idents() == old(self).idents(),
            final(self).view_of() == view_add_node(old(self).view_of(), span),
    {
        let r = graph_add_node(&mut self.graph);
        self.nodes.push(ReachabilityNode { span, root_node_indexes: Vec::new() });
        proof {
            assert(self.idents() == old(self).idents());
            assert(self.decls() == old(self).decls());
            assert forall|i: int| 0 <= i < self.decls().len() implies #[trigger] self.decls()[i] < self.nodes().len() by {
                assert(old(self).decls()[i] < old(self).nodes().len());
            }
            assert(self.nodes()[r as int].root_node_indexes@.len() == 0);
            assert forall|i: int, j: int|
                0 <= i < self.nodes().len() && 0 <= j < self.nodes()[i].root_node_indexes@.len()
                    implies #[trigger] self.nodes()[i].root_node_indexes@[j] < self.nodes().len() by {
                if i < r {
                    assert(self.nodes()[i] == old(self).nodes()[i]);
                }
            }
            assert forall|a: usize, b: usize| #[trigger] has_edge(self.edges(), a, b) implies a < self.nodes().len()
                && b < self.nodes().len() by {
                assert(has_edge(old(self).edges(), a, b));
            }
            assert(self.view_of().nodes =~= view_add_node(old(self).view_of(), span).nodes);
        }
        r
    }

    /// Adds a node for the declaration spanning `span`, after the other
    /// declarations.
    pub fn add_decl_node(&mut self, span: RawSpan) -> (r: usize)
        requires
            old(self).wf(),
        ensures
            final(self).wf(),
            r == old(self).nodes().len(),
            final(self).nodes().len() == old(self).nodes().len() + 1,
            forall|i: int| 0 <= i < r ==> #[trigger] final(self).nodes()[i] == old(self).nodes()[i],
            final(self).nodes()[r as int].span == span,
            final(self).nodes()[r as int].root_node_indexes@.len() == 0,
            final(self).decls() == old(self).decls().push(r),
            final(self).edges() == old(self).edges(),
            final(self).idents() == old(self).idents(),
            final(self).view_of() == view_add_decl_node(old(self).view_of(), span),
    {
        let r = self.add_node(span);
        self.decl_node_indexes.push(r);
        assert(self.view_of().nodes =~= view_add_decl_node(old(self).view_of(), span).nodes);
        r
    }

    /// Adds an edge from `src` to `dst`.
    pub fn add_edge(&mut self, src: usize, dst: usize)
        requires
            old(self).wf(),
            src < old(self).nodes().len(),
            dst < old(self).nodes().len(),
        ensures
            final(self).wf(),
            final(self).nodes() == old(self).nodes(),
            final(self).decls() == old(self).decls(),
            final(self).edges() == old(self).edges().insert((src, dst)),
            final(self).idents() == old(self).idents(),
            final(self).view_of() == view_add_edge(old(self).view_of(), src, dst),
    {
        graph_add_edge(&mut self.graph, src, dst);
        proof {
            assert(self.nodes() == old(self).nodes());
            assert(self.idents() == old(self).idents());
            assert forall|a: usize, b: usize| #[trigger] has_edge(self.edges(), a, b) implies a < self.nodes().len()
                && b < self.nodes().len() by {
                if (a, b) != (src, dst) {
                    assert(self.edges().count((a, b)) == old(self).edges().count((a, b)));
                    assert(has_edge(old(self).edges(), a, b));
                }
            }
            assert(self.decls() == old(self).decls());
        }
    }

    /// Roots `parent` at `root`: an edge leads from `root` to `parent`, and
    /// `root` joins the roots of `parent`.
    pub fn attach_root_to_node(&mut self, parent: usize, root: usize)
        requires
            old(self).wf(),
            parent < old(self).nodes().len(),
            root < old(self).nodes().len(),
        ensures
            final(self).wf(),
            final(self).nodes().len() == old(self).nodes().len(),
            forall|i: int|
                0 <= i < final(self).nodes().len() && i != parent ==> #[trigger] final(self).nodes()[i]
                    == old(self).nodes()[i],
            final(self).nodes()[parent as int].span == old(self).nodes()[parent as int].span,
            final(self).nodes()[parent as int].root_node_indexes@ == old(
                self,
            ).nodes()[parent as int].root_node_indexes@.push(root),
            final(self).decls() == old(self).decls(),
            final(self).edges() == old(self).edges().insert((root, parent)),
            final(self).idents() == old(self).idents(),
            final(self).view_of() == view_attach_root(old(self).view_of(), parent, root),
    {
        self.add_edge(root, parent);
        let mut node = ReachabilityNode { span: self.nodes[parent].span, root_node_indexes: Vec::new() };
        std::mem::swap(&mut node.root_node_indexes, &mut self.nodes[parent].root_node_indexes);
        node.root_node_indexes.push(root);
        self.nodes.set(parent, node);
        proof {
            assert forall|i: int, j: int|
                0 <= i < self.nodes().len() && 0 <= j < self.nodes()[i].root_node_indexes@.len()
                    implies #[trigger] self.nodes()[i].root_node_indexes@[j] < self.nodes().len() by {
                if i == parent && j < old(self).nodes()[i].root_node_indexes@.len() {
                    assert(self.nodes()[i].root_node_indexes@[j] == old(self).nodes()[i].root_node_indexes@[j]);
                }
            }
            assert(self.view_of().nodes =~= view_attach_root(old(self).view_of(), parent, root).nodes);
        }
    }

    /// The node of `ident`, added with the span of `ident` where it has
    /// none yet.
    pub fn get_node_with_ident(&mut self, ident: Spanned<NamespacedIdent>) -> (r: usize)
        requires
            old(self).wf(),
        ensures
            final(self).wf(),
            final(self).idents() == old(self).idents().insert(ident.value.key(), r),
            old(self).idents().contains_key(ident.value.key()) ==> {
                &&& r == old(self).idents()[ident.value.key()]
                &&& final(self).nodes() == old(self).nodes()
            },
            !old(self).idents().contains_key(ident.value.key()) ==> {
                &&& r == old(self).nodes().len()
                &&& final(self).nodes().len() == old(self).nodes().len() + 1
                &&& forall|i: int| 0 <= i < r ==> #[trigger] final(self).nodes()[i] == old(self).nodes()[i]
                &&& final(self).nodes()[r as int].span == ident.span
                &&& final(self).nodes()[r as int].root_node_indexes@.len() == 0
            },
            final(self).decls() == old(self).decls(),
            final(self).edges() == old(self).edges(),
            r == view_ident_node(old(self).view_of(), ident.value.key()),
            final(self).view_of() == view_get_ident(old(self).view_of(), ident.value.key(), ident.span),
    {
        match self.lookup_node_with_ident(&ident.value) {
            Some(i) => {
                assert(self.idents().insert(ident.value.key(), i) =~= self.idents());
                i
            },
            None => {
                let r = self.add_node(ident.span);
                let ghost old_entries = self.ident_indexes@;
                let key = ident.value;
                self.ident_indexes.push((key, r));
                proof {
                    let keys = entry_keys(self.ident_indexes@);
                    assert(keys =~= entry_keys(old_entries).push(ident.value.key()));
                    assert(!entry_keys(old_entries).contains(ident.value.key()));
                    assert(keys.no_duplicates()) by {
                        assert forall|a: int, b: int| 0 <= a < keys.len() && 0 <= b < keys.len() && a != b
                            implies keys[a] != keys[b] by {
                            if b == keys.len() - 1 {
                                assert(keys[a] == entry_keys(old_entries)[a]);
                            } else if a == keys.len() - 1 {
                                assert(keys[b] == entry_keys(old_entries)[b]);
                            }
                        }
                    }
                    assert forall|k: (Seq<char>, Namespace)| #[trigger] self.idents().contains_key(k) implies (
                    k == ident.value.key() && self.idents()[k] == r) || (old(self).idents().contains_key(k)
                        && self.idents()[k] == old(self).idents()[k]) by {
                        let i = keys.index_of(k);
                        if k != ident.value.key() {
                            assert(entry_keys(old_entries).contains(k)) by {
                                assert(keys[i] == k);
                                assert(i < old_entries.len());
                                assert(entry_keys(old_entries)[i] == k);
                            }
                            let j = entry_keys(old_entries).index_of(k);
                            assert(keys[j] == k);
                        } else {
                            assert(keys[keys.len() - 1] == k);
                        }
                    }
                    assert(self.view_of().nodes =~= view_get_ident(old(self).view_of(), ident.value.key(), ident.span).nodes);
                    assert(self.idents() =~= old(self).idents().insert(ident.value.key(), r)) by {
                        assert forall|k: (Seq<char>, Namespace)| #[trigger] old(self).idents().insert(ident.value.key(), r).contains_key(k)
                            implies self.idents().contains_key(k) by {
                            if k == ident.value.key() {
                                assert(keys[keys.len() - 1] == k);
                            } else {
                                let j = entry_keys(old_entries).index_of(k);
                                assert(keys[j] == k);
                            }
                        }
                    }
                }
                r
            },
        }
    }

    /// Roots `parent` at the node of `ident`.
    pub fn attach_ident_to_node(&mut self, parent: usize, ident: Spanned<NamespacedIdent>) -> (r: usize)
        requires
            old(self).wf(),
            parent < old(self).nodes().len(),
        ensures
            final(self).wf(),
            final(self).idents() == old(self).idents().insert(ident.value.key(), r),
            old(self).idents().contains_key(ident.value.key()) ==> r == old(self).idents()[ident.value.key()],
            !old(self).idents().contains_key(ident.value.key()) ==> r == old(self).nodes().len(),
            final(self).decls() == old(self).decls(),
            final(self).edges() == old(self).edges().insert((r, parent)),
            final(self).nodes()[parent as int].root_node_indexes@ == old(
                self,
            ).nodes()[parent as int].root_node_indexes@.push(r),
            final(self).view_of() == view_attach_ident(old(self).view_of(), parent, ident.value.key(), ident.span),
    {
        let r = self.get_node_with_ident(ident);
        self.attach_root_to_node(parent, r);
        r
    }
}

impl ReachabilityMap {
    /// A map for `graph` in which nothing is reachable yet.
    pub fn new(graph: &ReachabilityGraph) -> (r: Self)
        requires
            graph.wf(),
        ensures
            r.reachable() == Seq::new(graph.nodes().len(), |i: int| false),
            closed(graph.edges(), r.reachable()),
    {
        ReachabilityMap::for_graph(&graph.graph)
    }

    /// Marks every node that `node_index` reaches in `graph`. What was
    /// marked before stays marked.
    pub fn mark_reachable(&mut self, graph: &ReachabilityGraph, node_index: usize)
        requires
            graph.wf(),
            node_index < graph.nodes().len(),
            old(self).reachable().len() == graph.nodes().len(),
            closed(graph.edges(), old(self).reachable()),
        ensures
            final(self).reachable().len() == old(self).reachable().len(),
            forall|x: usize|
                x < final(self).reachable().len() ==> #[trigger] final(self).reachable()[x as int] == (
                old(self).reachable()[x as int] || reaches(graph.edges(), node_index, x)),
            closed(graph.edges(), final(self).reachable()),
    {
        self.mark_reachable_in(&graph.graph, node_index);
    }
}

/// An identifier and its namespace, as text.
pub type IdentKey = (Seq<char>, Namespace);

/// What a reachability graph holds: each node's span and roots, the edges,
/// the node of each global identifier, and the declaration nodes.
pub struct GraphView {
    pub nodes: Seq<(RawSpan, Seq<usize>)>,
    pub edges: Multiset<(usize, usize)>,
    pub idents: Map<IdentKey, usize>,
    pub decls: Seq<usize>,
}

/// The span of source text that nodes made for references get.
pub open spec fn no_span() -> RawSpan {
    RawSpan { start: 0, end: 0 }
}

/// A reference from node `p` to the identifier `k`: the identifier gets a
/// node (with no span) where it has none, and an edge leads from `p` to
/// its node.
pub open spec fn apply_ref(v: GraphView, p: usize, k: IdentKey) -> GraphView {
    if v.idents.contains_key(k) {
        GraphView { edges: v.edges.insert((p, v.idents[k])), ..v }
    } else {
        let i = v.nodes.len() as usize;
        GraphView {
            nodes: v.nodes.push((no_span(), Seq::empty())),
            edges: v.edges.insert((p, i)),
            idents: v.idents.insert(k, i),
            decls: v.decls,
        }
    }
}

/// A node for `span`, rooted at nothing, after the other nodes.
pub open spec fn view_add_node(v: GraphView, span: RawSpan) -> GraphView {
    GraphView { nodes: v.nodes.push((span, Seq::empty())), ..v }
}

/// A node for the declaration spanning `span`, after the other nodes and
/// the other declarations.
pub open spec fn view_add_decl_node(v: GraphView, span: RawSpan) -> GraphView {
    GraphView { nodes: v.nodes.push((span, Seq::empty())), decls: v.decls.push(v.nodes.len() as usize), ..v }
}

/// An edge from `a` to `b`.
pub open spec fn view_add_edge(v: GraphView, a: usize, b: usize) -> GraphView {
    GraphView { edges: v.edges.insert((a, b)), ..v }
}

/// `parent` rooted at `root`: an edge from `root` to `parent`, and `root`
/// after the other roots of `parent`.
pub open spec fn view_attach_root(v: GraphView, parent: usize, root: usize) -> GraphView {
    GraphView {
        nodes: v.nodes.update(parent as int, (v.nodes[parent as int].0, v.nodes[parent as int].1.push(root))),
        edges: v.edges.insert((root, parent)),
        ..v
    }
}

/// The node that identifier `k` has, or gets.
pub open spec fn view_ident_node(v: GraphView, k: IdentKey) -> usize {
    if v.idents.contains_key(k) {
        v.idents[k]
    } else {
        v.nodes.len() as usize
    }
}

/// Identifier `k` gets a node for `span` where it has none.
pub open spec fn view_get_ident(v: GraphView, k: IdentKey, span: RawSpan) -> GraphView {
    if v.idents.contains_key(k) {
        v
    } else {
        GraphView {
            nodes: v.nodes.push((span, Seq::empty())),
            idents: v.idents.insert(k, v.nodes.len() as usize),
            ..v
        }
    }
}

/// `parent` rooted at the node of identifier `k`, which gets one for `span`
/// where it has none.
pub open spec fn view_attach_ident(v: GraphView, parent: usize, k: IdentKey, span: RawSpan) -> GraphView {
    view_attach_root(view_get_ident(v, k, span), parent, view_ident_node(v, k))
}

/// References from node `p` to each identifier of `ks`, in order.
pub open spec fn apply_refs(v: GraphView, p: usize, ks: Seq<IdentKey>) -> GraphView
    decreases ks.len(),
{
    if ks.len() == 0 {
        v
    } else {
        apply_ref(apply_refs(v, p, ks.drop_last()), p, ks.last())
    }
}

/// References made one list after another are the references of the
/// joined list.
pub proof fn lemma_apply_refs_concat(v: GraphView, p: usize, a: Seq<IdentKey>, b: Seq<IdentKey>)
    ensures
        apply_refs(apply_refs(v, p, a), p, b) == apply_refs(v, p, a + b),
    decreases b.len(),
{
    if b.len() == 0 {
        assert(a + b =~= a);
    } else {
        lemma_apply_refs_concat(v, p, a, b.drop_last());
        assert((a + b).drop_last() =~= a + b.drop_last());
        assert((a + b).last() == b.last());
    }
}

/// References keep every node and add nodes only after them.
pub proof fn lemma_apply_refs_grows(v: GraphView, p: usize, ks: Seq<IdentKey>)
    ensures
        apply_refs(v, p, ks).nodes.len() >= v.nodes.len(),
        apply_refs(v, p, ks).decls == v.decls,
    decreases ks.len(),
{
    if ks.len() > 0 {
        lemma_apply_refs_grows(v, p, ks.drop_last());
    }
}

/// A list of one reference makes that reference.
pub proof fn lemma_apply_refs_one(v: GraphView, p: usize, k: IdentKey)
    ensures
        apply_refs(v, p, seq![k]) == apply_ref(v, p, k),
{
    assert(seq![k].drop_last() =~= Seq::<IdentKey>::empty());
    assert(apply_refs(v, p, Seq::<IdentKey>::empty()) == v);
}

/// The identifier `k` unless it is local.
pub open spec fn ref_of(k: IdentKey, locals: Set<IdentKey>) -> Seq<IdentKey> {
    if locals.contains(k) {
        Seq::empty()
    } else {
        seq![k]
    }
}

/// The keys of local identifiers.
pub open spec fn local_keys(locals: Seq<NamespacedIdent>) -> Set<IdentKey> {
    locals.map_values(|x: NamespacedIdent| x.key()).to_set()
}

/// Adding a local identifier adds its key.
pub proof fn lemma_local_keys_push(locals: Seq<NamespacedIdent>, x: NamespacedIdent)
    ensures
        local_keys(locals.push(x)) == local_keys(locals).insert(x.key()),
{
    let a = locals.push(x).map_values(|y: NamespacedIdent| y.key());
    let b = locals.map_values(|y: NamespacedIdent| y.key());
    assert(a =~= b.push(x.key()));
    assert(a.to_set() =~= b.to_set().insert(x.key())) by {
        assert forall|k: IdentKey| a.to_set().contains(k) implies b.to_set().insert(x.key()).contains(k) by {
            let i = choose|i: int| 0 <= i < a.len() && a[i] == k;
            if i < b.len() {
                assert(b[i] == k);
            }
        }
        assert forall|k: IdentKey| b.to_set().insert(x.key()).contains(k) implies a.to_set().contains(k) by {
            if k == x.key() {
                assert(a[a.len() - 1] == k);
            } else {
                let i = choose|i: int| 0 <= i < b.len() && b[i] == k;
                assert(a[i] == k);
            }
        }
    }
}

/// A copy of the local identifiers, for a nested scope.
pub fn clone_locals(locals: &Vec<NamespacedIdent>) -> (r: Vec<NamespacedIdent>)
    ensures
        r@ == locals@,
{
    let mut r: Vec<NamespacedIdent> = Vec::new();
    let n = locals.len();
    let mut i: usize = 0;
    while i < n
        invariant
            n == locals@.len(),
            i <= n,
            r@ == locals@.take(i as int),
        decreases n - i,
    {
        r.push(locals[i].clone());
        assert(locals@.take(i as int).push(locals@[i as int]) =~= locals@.take(i + 1));
        i += 1;
    }
    assert(locals@.take(n as int) =~= locals@);
    r
}

/// Declares a local identifier.
pub fn declare_local_ident(locals: &mut Vec<NamespacedIdent>, ident: &Ident, namespace: Namespace)
    ensures
        local_keys(final(locals)@) == local_keys(old(locals)@).insert((ident@, namespace)),
{
    let x = NamespacedIdent(ident.clone(), namespace);
    proof {
        lemma_local_keys_push(old(locals)@, x);
    }
    locals.push(x);
}

/// Whether `k` is among the local identifiers.
pub fn is_local(locals: &Vec<NamespacedIdent>, ident: &Ident, namespace: Namespace) -> (r: bool)
    ensures
        r == local_keys(locals@).contains((ident@, namespace)),
{
    let n = locals.len();
    let mut i: usize = 0;
    while i < n
        invariant
            n == locals@.len(),
            i <= n,
            forall|j: int| 0 <= j < i ==> #[trigger] locals@[j].key() != (ident@, namespace),
        decreases n - i,
    {
        if locals[i].0 == *ident && locals[i].1 == namespace {
            proof {
                assert(locals@.map_values(|x: NamespacedIdent| x.key())[i as int] == (ident@, namespace));
            }
            return true;
        }
        i += 1;
    }
    proof {
        let keys = locals@.map_values(|x: NamespacedIdent| x.key());
        if keys.to_set().contains((ident@, namespace)) {
            assert(keys.contains((ident@, namespace)));
            let j = choose|j: int| 0 <= j < keys.len() && #[trigger] keys[j] == (ident@, namespace);
            assert(locals@[j].key() == (ident@, namespace));
        }
    }
    false
}

impl ReachabilityGraph {
    /// What the graph holds.
    pub open spec fn view_of(&self) -> GraphView {
        GraphView {
            nodes: self.nodes().map_values(|n: ReachabilityNode| (n.span, n.root_node_indexes@)),
            edges: self.edges(),
            idents: self.idents(),
            decls: self.decls(),
        }
    }

    /// A reference from node `parent` to `ident` in `namespace`, unless it
    /// is local.
    pub fn reference_ident(&mut self, parent: usize, locals: &Vec<NamespacedIdent>, ident: &Ident, namespace: Namespace)
        requires
            old(self).wf(),
            parent < old(self).nodes().len(),
        ensures
            final(self).wf(),
            final(self).view_of() == apply_refs(old(self).view_of(), parent, ref_of((ident@, namespace), local_keys(locals@))),
    {
        let ghost v0 = self.view_of();
        let ghost k = (ident@, namespace);
        if is_local(locals, ident, namespace) {
            assert(ref_of(k, local_keys(locals@)) =~= Seq::<IdentKey>::empty());
            return;
        }
        let key = NamespacedIdent(ident.clone(), namespace);
        let ghost mid = *self;
        let r = self.get_node_with_ident(Spanned { span: RawSpan::new(0, 0), value: key });
        let ghost after_node = *self;
        self.add_edge(parent, r);
        proof {
            let ks = seq![k];
            assert(ref_of(k, local_keys(locals@)) == ks);
            assert(ks.drop_last() =~= Seq::<IdentKey>::empty());
            assert(ks.last() == k);
            let expected = apply_ref(v0, parent, k);
            lemma_apply_refs_one(v0, parent, k);
            if mid.idents().contains_key(k) {
                assert(self.view_of().nodes =~= expected.nodes);
            } else {
                assert forall|i: int| 0 <= i < self.view_of().nodes.len() implies #[trigger] self.view_of().nodes[i]
                    == expected.nodes[i] by {
                    if i < mid.nodes().len() {
                        assert(after_node.nodes()[i] == mid.nodes()[i]);
                    }
                }
                assert(self.view_of().nodes =~= expected.nodes);
            }
            assert(self.view_of().idents =~= expected.idents);
            assert(self.view_of() == expected);
        }
    }
}

} // verus!
