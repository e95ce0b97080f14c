//! The concept graph: pages as nodes, typed links as edges, held in a
//! `petgraph` directed graph, with its renderings and metrics.
use vstd::prelude::*;

use crate::links::{cross_wiki_parts, texts, ParsedLink};
use crate::text::{
    chars_of, concat, decimal, decimal_exec, push_chars, push_str, starts_with, starts_with_str, string_of,
};

verus! {

// ── Types ─────────────────────────────────────────────────────────────────────

/// A page of the graph. External nodes stand for `wiki://` targets in other
/// wikis; their title is the full URI.
#[derive(Debug, Clone)]
pub struct PageNode {
    pub slug: String,
    pub title: String,
    pub page_type: String,
    pub external: bool,
}

/// The relation an edge stands for (`links-to`, `fed-by`, ...).
#[derive(Debug, Clone)]
pub struct LabeledEdge {
    pub relation: String,
}

/// What part of the graph to build.
#[derive(Debug, Clone)]
pub struct GraphFilter {
    pub root: Option<String>,
    pub depth: Option<usize>,
    pub types: Vec<String>,
    pub relation: Option<String>,
}

impl GraphFilter {
    /// No filter: every page, every relation.
    pub fn new() -> (f: GraphFilter)
        ensures
            f.root is None,
            f.depth is None,
            f.types@.len() == 0,
            f.relation is None,
    {
        GraphFilter { root: None, depth: None, types: Vec::new(), relation: None }
    }
}

/// The size of a rendered graph.
#[derive(Debug, Clone)]
pub struct GraphReport {
    pub nodes: usize,
    pub edges: usize,
    pub output: String,
}

/// Community structure of the local pages (computed by the caller's
/// community detection).
#[derive(Debug, Clone)]
pub struct CommunityStats {
    pub count: usize,
    pub largest: usize,
    pub smallest: usize,
    /// Slugs in communities of at most two pages, sorted.
    pub isolated: Vec<String>,
}

/// The whole-number health metrics of a graph.
#[derive(Debug, Clone, Copy)]
pub struct GraphCounts {
    pub nodes: usize,
    pub edges: usize,
    /// Nodes with neither incoming nor outgoing edges.
    pub orphans: usize,
}

// ── petgraph ──────────────────────────────────────────────────────────────────

/// `petgraph`'s adjacency-list graph.
#[verifier::external_type_specification]
#[verifier::external_body]
#[verifier::reject_recursive_types(N)]
#[verifier::reject_recursive_types(E)]
#[verifier::reject_recursive_types(Ty)]
#[verifier::reject_recursive_types(Ix)]
pub struct ExGraph<N, E, Ty, Ix>(petgraph::graph::Graph<N, E, Ty, Ix>);

/// Edge direction marker of directed graphs.
#[verifier::external_type_specification]
#[verifier::external_body]
pub struct ExDirected(petgraph::Directed);

/// Edge direction marker of undirected graphs.
#[verifier::external_type_specification]
#[verifier::external_body]
pub struct ExUndirected(petgraph::Undirected);

/// The concept graph.
pub type WikiGraph = petgraph::graph::Graph<PageNode, LabeledEdge, petgraph::Directed, u32>;

/// An undirected graph whose node weights are indices into a `WikiGraph`.
pub type LinkGraph = petgraph::graph::Graph<usize, (), petgraph::Undirected, u32>;

/// The nodes of a concept graph, by index.
pub uninterp spec fn wiki_nodes(g: WikiGraph) -> Seq<PageNode>;

/// The edges of a concept graph, by index: source, target, weight.
pub uninterp spec fn wiki_edges(g: WikiGraph) -> Seq<(usize, usize, LabeledEdge)>;

/// The node weights of an undirected link graph, by index.
pub uninterp spec fn link_nodes(g: LinkGraph) -> Seq<usize>;

/// The edges of an undirected link graph, by index.
pub uninterp spec fn link_edges(g: LinkGraph) -> Seq<(usize, usize)>;

/// The largest number of nodes, and of edges, a graph with `u32` indices holds.
pub open spec fn index_limit() -> nat {
    0xffff_ffffnat
}

/// An empty concept graph (`Graph::new`).
#[verifier::external_body]
pub fn wiki_graph_new() -> (g: WikiGraph)
    ensures
        wiki_nodes(g) == Seq::<PageNode>::empty(),
        wiki_edges(g) == Seq::<(usize, usize, LabeledEdge)>::empty(),
{
    petgraph::graph::Graph::new()
}

/// Add a node (`Graph::add_node`): it is pushed after the others and its
/// index is returned. `petgraph` panics at the `u32` index limit.
#[verifier::external_body]
pub(crate) fn add_page(g: &mut WikiGraph, n: PageNode) -> (i: usize)
    requires
        wiki_nodes(*old(g)).len() < index_limit(),
    ensures
        wiki_nodes(*final(g)) == wiki_nodes(*old(g)).push(n),
        wiki_edges(*final(g)) == wiki_edges(*old(g)),
        i == wiki_nodes(*old(g)).len(),
{
    g.add_node(n).index()
}

/// Add an edge (`Graph::add_edge`): it is pushed after the others.
/// `petgraph` panics on an endpoint that is not a node, and at the index limit.
#[verifier::external_body]
pub(crate) fn add_link(g: &mut WikiGraph, a: usize, b: usize, e: LabeledEdge)
    requires
        a < wiki_nodes(*old(g)).len(),
        b < wiki_nodes(*old(g)).len(),
        wiki_edges(*old(g)).len() < index_limit(),
    ensures
        wiki_nodes(*final(g)) == wiki_nodes(*old(g)),
        wiki_edges(*final(g)) == wiki_edges(*old(g)).push((a, b, e)),
{
    g.add_edge(petgraph::graph::NodeIndex::new(a), petgraph::graph::NodeIndex::new(b), e);
}

/// The number of nodes (`Graph::node_count`); `add_node` refuses a node
/// whose index would be `u32::MAX`, so there are at most that many.
#[verifier::external_body]
pub fn page_count(g: &WikiGraph) -> (n: usize)
    ensures
        n == wiki_nodes(*g).len(),
        n <= index_limit(),
{
    g.node_count()
}

/// The number of edges (`Graph::edge_count`); bounded as the nodes are.
/// Also stated: every edge joins two nodes (`add_edge` refuses other
/// endpoints, and removing a node removes its edges).
#[verifier::external_body]
pub fn link_count(g: &WikiGraph) -> (n: usize)
    ensures
        n == wiki_edges(*g).len(),
        n <= index_limit(),
        edges_in_range(wiki_nodes(*g).len(), wiki_edges(*g).subrange(0, n as int)),
{
    g.edge_count()
}

/// The node at index `i` (indexing with a `NodeIndex`).
#[verifier::external_body]
pub fn page(g: &WikiGraph, i: usize) -> (n: &PageNode)
    requires
        i < wiki_nodes(*g).len(),
    ensures
        *n == wiki_nodes(*g)[i as int],
{
    &g[petgraph::graph::NodeIndex::new(i)]
}

/// The edges of a graph are between its nodes.
pub open spec fn edges_in_range(n: nat, edges: Seq<(usize, usize, LabeledEdge)>) -> bool {
    forall|k: int| 0 <= k < edges.len() ==> (#[trigger] edges[k]).0 < n && edges[k].1 < n
}

/// Every edge of a `petgraph` graph joins two of its nodes: `add_edge` is
/// the only way in and refuses other endpoints. Stated for each edge read.
#[verifier::external_body]
pub fn link_at(g: &WikiGraph, e: usize) -> (r: (usize, usize, &LabeledEdge))
    requires
        e < wiki_edges(*g).len(),
    ensures
        r.0 == wiki_edges(*g)[e as int].0,
        r.1 == wiki_edges(*g)[e as int].1,
        *r.2 == wiki_edges(*g)[e as int].2,
        r.0 < wiki_nodes(*g).len(),
        r.1 < wiki_nodes(*g).len(),
{
    let (a, b) = g.edge_endpoints(petgraph::graph::EdgeIndex::new(e)).unwrap();
    (a.index(), b.index(), &g[petgraph::graph::EdgeIndex::new(e)])
}

/// An empty undirected link graph (`Graph::new_undirected`).
#[verifier::external_body]
pub fn link_graph_new() -> (g: LinkGraph)
    ensures
        link_nodes(g) == Seq::<usize>::empty(),
        link_edges(g) == Seq::<(usize, usize)>::empty(),
{
    petgraph::graph::Graph::new_undirected()
}

/// Add a node to a link graph (`Graph::add_node`).
#[verifier::external_body]
fn add_link_node(g: &mut LinkGraph, w: usize) -> (i: usize)
    requires
        link_nodes(*old(g)).len() < index_limit(),
    ensures
        link_nodes(*final(g)) == link_nodes(*old(g)).push(w),
        link_edges(*final(g)) == link_edges(*old(g)),
        i == link_nodes(*old(g)).len(),
{
    g.add_node(w).index()
}

/// Add an undirected edge to a link graph (`Graph::add_edge`).
#[verifier::external_body]
fn add_link_edge(g: &mut LinkGraph, a: usize, b: usize)
    requires
        a < link_nodes(*old(g)).len(),
        b < link_nodes(*old(g)).len(),
        link_edges(*old(g)).len() < index_limit(),
    ensures
        link_nodes(*final(g)) == link_nodes(*old(g)),
        link_edges(*final(g)) == link_edges(*old(g)).push((a, b)),
{
    g.add_edge(petgraph::graph::NodeIndex::new(a), petgraph::graph::NodeIndex::new(b), ());
}

/// `a` and `b` are joined by an edge of `edges`, in either direction.
pub open spec fn joined(edges: Seq<(usize, usize)>, a: usize, b: usize) -> bool {
    exists|k: int| 0 <= k < edges.len() && ((#[trigger] edges[k]) == (a, b) || edges[k] == (b, a))
}

/// Whether an edge joins `a` and `b` (`Graph::find_edge` on an undirected
/// graph looks in both directions). Node indices are `u32` inside the
/// graph, so the indices must be nodes of it.
#[verifier::external_body]
fn has_link_edge(g: &LinkGraph, a: usize, b: usize) -> (r: bool)
    requires
        a < link_nodes(*g).len(),
        b < link_nodes(*g).len(),
    ensures
        r == joined(link_edges(*g), a, b),
{
    g.find_edge(petgraph::graph::NodeIndex::new(a), petgraph::graph::NodeIndex::new(b)).is_some()
}

/// The number of nodes of a link graph.
#[verifier::external_body]
pub fn link_node_count(g: &LinkGraph) -> (n: usize)
    ensures
        n == link_nodes(*g).len(),
{
    g.node_count()
}

/// The number of edges of a link graph.
#[verifier::external_body]
pub fn link_edge_count(g: &LinkGraph) -> (n: usize)
    ensures
        n == link_edges(*g).len(),
{
    g.edge_count()
}

/// The weight of node `i` of a link graph.
#[verifier::external_body]
pub fn link_node(g: &LinkGraph, i: usize) -> (w: usize)
    requires
        i < link_nodes(*g).len(),
    ensures
        w == link_nodes(*g)[i as int],
{
    g[petgraph::graph::NodeIndex::new(i)]
}

// ── petgraph-live ─────────────────────────────────────────────────────────────

/// What `petgraph_live::connect::articulation_points` returns for an
/// undirected graph of `n` nodes with these edges, as node indices.
pub uninterp spec fn articulation_of(n: nat, edges: Seq<(usize, usize)>) -> Seq<usize>;

/// What `petgraph_live::connect::find_bridges` returns for an undirected
/// graph of `n` nodes with these edges, as pairs of node indices.
pub uninterp spec fn bridges_of(n: nat, edges: Seq<(usize, usize)>) -> Seq<(usize, usize)>;

/// What `petgraph_live::metrics::periphery` returns for a directed graph of
/// `n` nodes with these edges, as node indices.
pub uninterp spec fn periphery_of(n: nat, edges: Seq<(usize, usize)>) -> Seq<usize>;

/// What `petgraph_live::metrics::center` returns for a directed graph of
/// `n` nodes with these edges, as node indices.
pub uninterp spec fn center_of(n: nat, edges: Seq<(usize, usize)>) -> Seq<usize>;

/// The source and target of each edge of a concept graph.
pub open spec fn edge_pairs(edges: Seq<(usize, usize, LabeledEdge)>) -> Seq<(usize, usize)> {
    edges.map_values(|e: (usize, usize, LabeledEdge)| (e.0, e.1))
}

/// The articulation points of a link graph
/// (`petgraph_live::connect::articulation_points`, Tarjan's DFS over node
/// indices in order). Stated: the result is the named one, each point is a
/// node of the graph, and none is listed twice (a flag guards each push).
#[verifier::external_body]
pub(crate) fn articulation_points(g: &LinkGraph) -> (r: Vec<usize>)
    ensures
        r@ == articulation_of(link_nodes(*g).len(), link_edges(*g)),
        forall|k: int| 0 <= k < r@.len() ==> #[trigger] r@[k] < link_nodes(*g).len(),
        forall|i: int, j: int| 0 <= i < j < r@.len() ==> r@[i] != r@[j],
{
    petgraph_live::connect::articulation_points(g).into_iter().map(|n| n.index()).collect()
}

/// The bridges of a link graph (`petgraph_live::connect::find_bridges`).
/// Stated: the result is the named one and each endpoint is a node.
#[verifier::external_body]
pub(crate) fn find_bridges(g: &LinkGraph) -> (r: Vec<(usize, usize)>)
    ensures
        r@ == bridges_of(link_nodes(*g).len(), link_edges(*g)),
        forall|k: int| 0 <= k < r@.len() ==> (#[trigger] r@[k]).0 < link_nodes(*g).len()
            && r@[k].1 < link_nodes(*g).len(),
{
    petgraph_live::connect::find_bridges(g).into_iter().map(|(a, b)| (a.index(), b.index())).collect()
}

/// The peripheral nodes of a concept graph (`petgraph_live::metrics::periphery`:
/// the nodes of largest eccentricity, in index order). Stated: the result is
/// the named one, its indices are nodes in strictly increasing order, and it
/// is empty exactly when the graph has no node (some node always reaches the
/// largest eccentricity).
#[verifier::external_body]
pub(crate) fn periphery(g: &WikiGraph) -> (r: Vec<usize>)
    ensures
        r@ == periphery_of(wiki_nodes(*g).len(), edge_pairs(wiki_edges(*g))),
        forall|k: int| 0 <= k < r@.len() ==> #[trigger] r@[k] < wiki_nodes(*g).len(),
        forall|i: int, j: int| 0 <= i < j < r@.len() ==> r@[i] < r@[j],
        (r@.len() == 0) == (wiki_nodes(*g).len() == 0),
{
    petgraph_live::metrics::periphery(g).into_iter().map(|n| n.index()).collect()
}

/// The central nodes of a concept graph (`petgraph_live::metrics::center`:
/// the nodes of least eccentricity, in index order). Stated: the result is
/// the named one, its indices are nodes in strictly increasing order, and it
/// is empty exactly when the graph has no node (some node always reaches the
/// least eccentricity).
#[verifier::external_body]
pub(crate) fn center(g: &WikiGraph) -> (r: Vec<usize>)
    ensures
        r@ == center_of(wiki_nodes(*g).len(), edge_pairs(wiki_edges(*g))),
        forall|k: int| 0 <= k < r@.len() ==> #[trigger] r@[k] < wiki_nodes(*g).len(),
        forall|i: int, j: int| 0 <= i < j < r@.len() ==> r@[i] < r@[j],
        (r@.len() == 0) == (wiki_nodes(*g).len() == 0),
{
    petgraph_live::metrics::center(g).into_iter().map(|n| n.index()).collect()
}

// ── Metrics ───────────────────────────────────────────────────────────────────

/// Node `i` is an endpoint of some edge.
pub open spec fn touched(edges: Seq<(usize, usize, LabeledEdge)>, i: int) -> bool {
    exists|k: int| 0 <= k < edges.len() && ((#[trigger] edges[k]).0 == i || edges[k].1 == i)
}

/// The number of nodes below `n` that no edge touches.
pub open spec fn orphan_count(n: nat, edges: Seq<(usize, usize, LabeledEdge)>) -> nat
    decreases n,
{
    if n == 0 {
        0
    } else {
        orphan_count((n - 1) as nat, edges) + if touched(edges, n - 1) { 0nat } else { 1nat }
    }
}

proof fn lemma_orphan_count_le(n: nat, edges: Seq<(usize, usize, LabeledEdge)>)
    ensures
        orphan_count(n, edges) <= n,
    decreases n,
{
    if n > 0 {
        lemma_orphan_count_le((n - 1) as nat, edges);
    }
}

/// For each node, whether some edge touches it.
fn touched_flags(g: &WikiGraph) -> (t: Vec<bool>)
    ensures
        t@.len() == wiki_nodes(*g).len(),
        forall|i: int| 0 <= i < t@.len() ==> t@[i] == touched(wiki_edges(*g), i),
{
    let n = page_count(g);
    let m = link_count(g);
    let mut t: Vec<bool> = Vec::new();
    let mut i: usize = 0;
    while i < n
        invariant
            n == wiki_nodes(*g).len(),
            i <= n,
            t@.len() == i,
            forall|j: int| 0 <= j < i ==> !t@[j],
        decreases n - i,
    {
        t.push(false);
        i = i + 1;
    }
    let ghost edges = wiki_edges(*g);
    let mut e: usize = 0;
    while e < m
        invariant
            n == wiki_nodes(*g).len(),
            m == edges.len(),
            edges == wiki_edges(*g),
            e <= m,
            t@.len() == n,
            forall|j: int| 0 <= j < n ==> t@[j] == exists|k: int| 0 <= k < e
                && ((#[trigger] edges[k]).0 == j || edges[k].1 == j),
        decreases m - e,
    {
        let (a, b, _) = link_at(g, e);
        t.set(a, true);
        t.set(b, true);
        proof {
            assert forall|j: int| 0 <= j < n implies t@[j] == exists|k: int| 0 <= k < e + 1
                && ((#[trigger] edges[k]).0 == j || edges[k].1 == j) by {
                if t@[j] {
                    if j != a && j != b {
                        let k = choose|k: int| 0 <= k < e
                            && ((#[trigger] edges[k]).0 == j || edges[k].1 == j);
                        assert(0 <= k < e + 1);
                    } else {
                        assert(edges[e as int].0 == j || edges[e as int].1 == j);
                    }
                } else {
                    assert(j != a && j != b);
                    if exists|k: int| 0 <= k < e + 1 && ((#[trigger] edges[k]).0 == j || edges[k].1 == j) {
                        let k = choose|k: int| 0 <= k < e + 1
                            && ((#[trigger] edges[k]).0 == j || edges[k].1 == j);
                        assert(k != e);
                    }
                }
            }
        }
        e = e + 1;
    }
    t
}

/// Node and edge counts and the number of orphans (nodes with no edge in
/// either direction).
pub fn compute_metrics(graph: &WikiGraph) -> (c: GraphCounts)
    ensures
        c.nodes == wiki_nodes(*graph).len(),
        c.edges == wiki_edges(*graph).len(),
        c.orphans == orphan_count(wiki_nodes(*graph).len(), wiki_edges(*graph)),
{
    let t = touched_flags(graph);
    let n = t.len();
    let mut orphans: usize = 0;
    let mut i: usize = 0;
    while i < n
        invariant
            n == t@.len(),
            i <= n,
            forall|j: int| 0 <= j < t@.len() ==> t@[j] == touched(wiki_edges(*graph), j),
            orphans == orphan_count(i as nat, wiki_edges(*graph)),
        decreases n - i,
    {
        proof {
            lemma_orphan_count_le(i as nat, wiki_edges(*graph));
        }
        if !t[i] {
            orphans = orphans + 1;
        }
        i = i + 1;
    }
    GraphCounts { nodes: page_count(graph), edges: link_count(graph), orphans }
}

// ── Undirected view ───────────────────────────────────────────────────────────

/// The indices of the local (non-external) nodes, in order.
pub open spec fn local_indices(nodes: Seq<PageNode>) -> Seq<usize>
    decreases nodes.len(),
{
    if nodes.len() == 0 {
        seq![]
    } else {
        let p = local_indices(nodes.drop_last());
        if nodes.last().external {
            p
        } else {
            p.push((nodes.len() - 1) as usize)
        }
    }
}

/// The position of node `a` among the local nodes.
pub open spec fn local_rank(nodes: Seq<PageNode>, a: int) -> nat {
    local_indices(nodes.subrange(0, a)).len()
}

/// Node `a` exists and is local.
pub open spec fn is_local(nodes: Seq<PageNode>, a: usize) -> bool {
    a < nodes.len() && !nodes[a as int].external
}

/// The undirected edges between local nodes, by local position, in edge
/// order; an edge whose pair is already joined (either way) is left out.
pub open spec fn undirected_edges(
    nodes: Seq<PageNode>,
    edges: Seq<(usize, usize, LabeledEdge)>,
) -> Seq<(usize, usize)>
    decreases edges.len(),
{
    if edges.len() == 0 {
        seq![]
    } else {
        let prev = undirected_edges(nodes, edges.drop_last());
        let a = edges.last().0;
        let b = edges.last().1;
        if is_local(nodes, a) && is_local(nodes, b) {
            let ua = local_rank(nodes, a as int) as usize;
            let ub = local_rank(nodes, b as int) as usize;
            if joined(prev, ua, ub) {
                prev
            } else {
                prev.push((ua, ub))
            }
        } else {
            prev
        }
    }
}

pub proof fn lemma_local_indices_len(nodes: Seq<PageNode>)
    requires
        nodes.len() <= index_limit(),
    ensures
        local_indices(nodes).len() <= nodes.len(),
        forall|k: int| 0 <= k < local_indices(nodes).len() ==> #[trigger] local_indices(nodes)[k] < nodes.len()
            && !nodes[local_indices(nodes)[k] as int].external,
    decreases nodes.len(),
{
    if nodes.len() > 0 {
        let d = nodes.drop_last();
        lemma_local_indices_len(d);
        let p = local_indices(d);
        assert forall|k: int| 0 <= k < local_indices(nodes).len() implies #[trigger] local_indices(
            nodes,
        )[k] < nodes.len() && !nodes[local_indices(nodes)[k] as int].external by {
            if k < p.len() {
                assert(local_indices(nodes)[k] == p[k]);
                assert(nodes[p[k] as int] == d[p[k] as int]);
            }
        }
    }
}

proof fn lemma_local_rank(nodes: Seq<PageNode>, a: int)
    requires
        0 <= a < nodes.len(),
        !nodes[a].external,
        nodes.len() <= index_limit(),
    ensures
        local_rank(nodes, a) < local_indices(nodes).len(),
        local_indices(nodes)[local_rank(nodes, a) as int] == a,
    decreases nodes.len(),
{
    if a == nodes.len() - 1 {
        assert(nodes.drop_last() == nodes.subrange(0, a));
    } else {
        let d = nodes.drop_last();
        assert(d.subrange(0, a) == nodes.subrange(0, a));
        lemma_local_rank(d, a);
        let r = local_rank(nodes, a) as int;
        assert(local_indices(nodes)[r] == local_indices(d)[r]);
    }
}

/// The undirected graph of the local nodes (`petgraph` `UnGraph`): node `k`
/// carries the index of the `k`-th local node, and each pair of local nodes
/// joined by some edge is joined once. Also returned: the node weights, the
/// way back from link-graph positions to concept-graph indices.
pub fn build_undirected(graph: &WikiGraph) -> (r: (LinkGraph, Vec<usize>))
    ensures
        link_nodes(r.0) == local_indices(wiki_nodes(*graph)),
        link_edges(r.0) == undirected_edges(wiki_nodes(*graph), wiki_edges(*graph)),
        r.1@ == link_nodes(r.0),
{
    let ghost nodes = wiki_nodes(*graph);
    let ghost edges = wiki_edges(*graph);
    let n = page_count(graph);
    let m = link_count(graph);
    let mut ug = link_graph_new();
    let mut rev: Vec<usize> = Vec::new();
    let mut pos: Vec<usize> = Vec::new();
    let mut i: usize = 0;
    while i < n
        invariant
            nodes == wiki_nodes(*graph),
            n == nodes.len(),
            n <= index_limit(),
            i <= n,
            link_nodes(ug) == local_indices(nodes.subrange(0, i as int)),
            link_edges(ug) == Seq::<(usize, usize)>::empty(),
            rev@ == link_nodes(ug),
            pos@.len() == i,
            forall|j: int| 0 <= j < i && !nodes[j].external ==> #[trigger] pos@[j] == local_rank(nodes, j),
        decreases n - i,
    {
        proof {
            assert(nodes.subrange(0, i + 1).drop_last() == nodes.subrange(0, i as int));
            lemma_local_indices_len(nodes.subrange(0, i as int));
        }
        let p = page(graph, i);
        if !p.external {
            let k = add_link_node(&mut ug, i);
            rev.push(i);
            pos.push(k);
        } else {
            pos.push(0);
        }
        i = i + 1;
    }
    assert(nodes.subrange(0, n as int) == nodes);
    let mut e: usize = 0;
    while e < m
        invariant
            nodes == wiki_nodes(*graph),
            edges == wiki_edges(*graph),
            n == nodes.len(),
            m == edges.len(),
            m <= index_limit(),
            n <= index_limit(),
            e <= m,
            link_nodes(ug) == local_indices(nodes),
            link_edges(ug) == undirected_edges(nodes, edges.subrange(0, e as int)),
            link_edges(ug).len() <= e,
            rev@ == link_nodes(ug),
            pos@.len() == n,
            forall|j: int| 0 <= j < n && !nodes[j].external ==> #[trigger] pos@[j] == local_rank(nodes, j),
        decreases m - e,
    {
        let (a, b, _) = link_at(graph, e);
        proof {
            assert(edges.subrange(0, e + 1).drop_last() == edges.subrange(0, e as int));
            assert(edges.subrange(0, e + 1).last() == edges[e as int]);
        }
        if !page(graph, a).external && !page(graph, b).external {
            let ua = pos[a];
            let ub = pos[b];
            proof {
                lemma_local_rank(nodes, a as int);
                lemma_local_rank(nodes, b as int);
            }
            if !has_link_edge(&ug, ua, ub) {
                add_link_edge(&mut ug, ua, ub);
            }
        }
        e = e + 1;
    }
    assert(edges.subrange(0, m as int) == edges);
    (ug, rev)
}

// ── Rendering ─────────────────────────────────────────────────────────────────

proof fn lemma_concat_push(pieces: Seq<Seq<char>>, x: Seq<char>)
    ensures
        concat(pieces.push(x)) == concat(pieces) + x,
{
    assert(pieces.push(x).drop_last() == pieces);
}

/// The DOT identifier of a node: its title when external, else its slug.
pub open spec fn dot_id(n: PageNode) -> Seq<char> {
    if n.external {
        n.title@
    } else {
        n.slug@
    }
}

/// The DOT line of a node.
pub open spec fn dot_node(n: PageNode) -> Seq<char> {
    if n.external {
        "  \""@ + n.title@ + "\" [label=\""@ + n.title@ + "\" type=\"external\" style=\"dashed\"];\n"@
    } else {
        "  \""@ + n.slug@ + "\" [label=\""@ + n.title@ + "\" type=\""@ + n.page_type@ + "\"];\n"@
    }
}

/// The DOT line of an edge.
pub open spec fn dot_edge(nodes: Seq<PageNode>, e: (usize, usize, LabeledEdge)) -> Seq<char> {
    "  \""@ + dot_id(nodes[e.0 as int]) + "\" -> \""@ + dot_id(nodes[e.1 as int]) + "\" [label=\""@
        + e.2.relation@ + "\"];\n"@
}

/// The DOT rendering of a graph: its nodes, then its edges, in index order.
pub open spec fn dot_spec(nodes: Seq<PageNode>, edges: Seq<(usize, usize, LabeledEdge)>) -> Seq<char> {
    "digraph wiki {\n"@ + concat(nodes.map_values(|n: PageNode| dot_node(n))) + concat(
        edges.map_values(|e: (usize, usize, LabeledEdge)| dot_edge(nodes, e)),
    ) + "}\n"@
}

/// Render the graph in Graphviz DOT.
pub fn render_dot(graph: &WikiGraph) -> (out: String)
    ensures
        out@ == dot_spec(wiki_nodes(*graph), wiki_edges(*graph)),
{
    let ghost nodes = wiki_nodes(*graph);
    let ghost edges = wiki_edges(*graph);
    let ghost np = nodes.map_values(|n: PageNode| dot_node(n));
    let ghost ep = edges.map_values(|e: (usize, usize, LabeledEdge)| dot_edge(nodes, e));
    let mut out: Vec<char> = Vec::new();
    push_str(&mut out, "digraph wiki {\n");
    let n = page_count(graph);
    let mut i: usize = 0;
    while i < n
        invariant
            nodes == wiki_nodes(*graph),
            np == nodes.map_values(|n: PageNode| dot_node(n)),
            n == nodes.len(),
            i <= n,
            out@ == "digraph wiki {\n"@ + concat(np.subrange(0, i as int)),
        decreases n - i,
    {
        let p = page(graph, i);
        let title = chars_of(p.title.as_str());
        let ghost before = out@;
        if p.external {
            push_str(&mut out, "  \"");
            push_chars(&mut out, &title);
            push_str(&mut out, "\" [label=\"");
            push_chars(&mut out, &title);
            push_str(&mut out, "\" type=\"external\" style=\"dashed\"];\n");
        } else {
            push_str(&mut out, "  \"");
            push_str(&mut out, p.slug.as_str());
            push_str(&mut out, "\" [label=\"");
            push_chars(&mut out, &title);
            push_str(&mut out, "\" type=\"");
            push_str(&mut out, p.page_type.as_str());
            push_str(&mut out, "\"];\n");
        }
        proof {
            assert(out@ == before + dot_node(*p));
            assert(np.subrange(0, i + 1) == np.subrange(0, i as int).push(np[i as int]));
            lemma_concat_push(np.subrange(0, i as int), np[i as int]);
        }
        i = i + 1;
    }
    assert(np.subrange(0, n as int) == np);
    let m = link_count(graph);
    let mut e: usize = 0;
    while e < m
        invariant
            nodes == wiki_nodes(*graph),
            edges == wiki_edges(*graph),
            np == nodes.map_values(|n: PageNode| dot_node(n)),
            ep == edges.map_values(|e: (usize, usize, LabeledEdge)| dot_edge(nodes, e)),
            m == edges.len(),
            e <= m,
            out@ == "digraph wiki {\n"@ + concat(np) + concat(ep.subrange(0, e as int)),
        decreases m - e,
    {
        let (a, b, l) = link_at(graph, e);
        let pa = page(graph, a);
        let pb = page(graph, b);
        let ghost before = out@;
        push_str(&mut out, "  \"");
        if pa.external {
            push_str(&mut out, pa.title.as_str());
        } else {
            push_str(&mut out, pa.slug.as_str());
        }
        push_str(&mut out, "\" -> \"");
        if pb.external {
            push_str(&mut out, pb.title.as_str());
        } else {
            push_str(&mut out, pb.slug.as_str());
        }
        push_str(&mut out, "\" [label=\"");
        push_str(&mut out, l.relation.as_str());
        push_str(&mut out, "\"];\n");
        proof {
            assert(out@ == before + dot_edge(nodes, edges[e as int]));
            assert(ep.subrange(0, e + 1) == ep.subrange(0, e as int).push(ep[e as int]));
            lemma_concat_push(ep.subrange(0, e as int), ep[e as int]);
        }
        e = e + 1;
    }
    assert(ep.subrange(0, m as int) == ep);
    push_str(&mut out, "}\n");
    string_of(&out)
}

/// Every node and every edge has its own line in the DOT rendering, whatever
/// its type or relation: after the header come exactly `nodes.len()` node
/// lines, then exactly `edges.len()` edge lines, the `k`-th being
/// `  "a" -> "b" [label="rel"];` for edge `k` (a node named by its title when
/// external, else by its slug), then the closing brace.
pub proof fn dot_lists_every_edge(nodes: Seq<PageNode>, edges: Seq<(usize, usize, LabeledEdge)>)
    ensures
        dot_spec(nodes, edges) == "digraph wiki {\n"@ + concat(
            Seq::new(
                nodes.len(),
                |i: int|
                    if nodes[i].external {
                        "  \""@ + nodes[i].title@ + "\" [label=\""@ + nodes[i].title@
                            + "\" type=\"external\" style=\"dashed\"];\n"@
                    } else {
                        "  \""@ + nodes[i].slug@ + "\" [label=\""@ + nodes[i].title@ + "\" type=\""@
                            + nodes[i].page_type@ + "\"];\n"@
                    },
            ),
        ) + concat(
            Seq::new(
                edges.len(),
                |k: int|
                    "  \""@ + (if nodes[edges[k].0 as int].external {
                        nodes[edges[k].0 as int].title@
                    } else {
                        nodes[edges[k].0 as int].slug@
                    }) + "\" -> \""@ + (if nodes[edges[k].1 as int].external {
                        nodes[edges[k].1 as int].title@
                    } else {
                        nodes[edges[k].1 as int].slug@
                    }) + "\" [label=\""@ + edges[k].2.relation@ + "\"];\n"@,
            ),
        ) + "}\n"@,
{
    let np = nodes.map_values(|n: PageNode| dot_node(n));
    assert(np =~= Seq::new(
        nodes.len(),
        |i: int|
            if nodes[i].external {
                "  \""@ + nodes[i].title@ + "\" [label=\""@ + nodes[i].title@
                    + "\" type=\"external\" style=\"dashed\"];\n"@
            } else {
                "  \""@ + nodes[i].slug@ + "\" [label=\""@ + nodes[i].title@ + "\" type=\""@
                    + nodes[i].page_type@ + "\"];\n"@
            },
    ));
    let ep = edges.map_values(|e: (usize, usize, LabeledEdge)| dot_edge(nodes, e));
    assert(ep =~= Seq::new(
        edges.len(),
        |k: int|
            "  \""@ + (if nodes[edges[k].0 as int].external {
                nodes[edges[k].0 as int].title@
            } else {
                nodes[edges[k].0 as int].slug@
            }) + "\" -> \""@ + (if nodes[edges[k].1 as int].external {
                nodes[edges[k].1 as int].title@
            } else {
                nodes[edges[k].1 as int].slug@
            }) + "\" [label=\""@ + edges[k].2.relation@ + "\"];\n"@,
    ));
}

/// A character of a Mermaid identifier: `/`, `-` and `:` become `_`.
pub open spec fn mermaid_char(c: char) -> char {
    if c == '/' || c == '-' || c == ':' {
        '_'
    } else {
        c
    }
}

/// A Mermaid-safe identifier: each `://` becomes `__`, then each `/`, `-`
/// and `:` becomes `_` (`str::replace` scans left to right; `__` holds none
/// of the three, so one scan does both).
pub open spec fn mermaid_id_spec(s: Seq<char>) -> Seq<char>
    decreases s.len(),
{
    if s.len() == 0 {
        seq![]
    } else if s.len() >= 3 && s[0] == ':' && s[1] == '/' && s[2] == '/' {
        seq!['_', '_'] + mermaid_id_spec(s.subrange(3, s.len() as int))
    } else {
        seq![mermaid_char(s[0])] + mermaid_id_spec(s.drop_first())
    }
}

/// A Mermaid-safe identifier for a title or slug.
pub fn mermaid_id(slug: &str) -> (r: String)
    ensures
        r@ == mermaid_id_spec(slug@),
{
    let s = chars_of(slug);
    let mut out: Vec<char> = Vec::new();
    let mut i: usize = 0;
    assert(s@.subrange(0, s@.len() as int) == s@);
    while i < s.len()
        invariant
            i <= s@.len(),
            mermaid_id_spec(s@) == out@ + mermaid_id_spec(s@.subrange(i as int, s@.len() as int)),
        decreases s.len() - i,
    {
        let ghost rest = s@.subrange(i as int, s@.len() as int);
        if s.len() - i >= 3 && s[i] == ':' && s[i + 1] == '/' && s[i + 2] == '/' {
            assert(rest.subrange(3, rest.len() as int) == s@.subrange(i + 3, s@.len() as int));
            out.push('_');
            out.push('_');
            i = i + 3;
        } else {
            proof {
                assert(rest.drop_first() == s@.subrange(i + 1, s@.len() as int));
            }
            let c = s[i];
            let m = if c == '/' || c == '-' || c == ':' { '_' } else { c };
            out.push(m);
            i = i + 1;
        }
    }
    string_of(&out)
}

/// The Mermaid line of a node: its identifier, label and class.
pub open spec fn mermaid_node(n: PageNode) -> Seq<char> {
    "  "@ + mermaid_id_spec(n.title@) + "[\""@ + n.title@ + "\"]:::"@ + (if n.external {
        "external"@
    } else {
        n.page_type@
    }) + "\n"@
}

/// The Mermaid line of an edge, labelled with its relation.
pub open spec fn mermaid_edge(nodes: Seq<PageNode>, e: (usize, usize, LabeledEdge)) -> Seq<char> {
    "  "@ + mermaid_id_spec(nodes[e.0 as int].title@) + " -->|"@ + e.2.relation@ + "| "@
        + mermaid_id_spec(nodes[e.1 as int].title@) + "\n"@
}

/// Some node is external.
pub open spec fn has_external(nodes: Seq<PageNode>) -> bool {
    exists|i: int| 0 <= i < nodes.len() && (#[trigger] nodes[i]).external
}

/// Some local node has type `t`.
pub open spec fn type_seen(nodes: Seq<PageNode>, t: Seq<char>) -> bool {
    exists|i: int| 0 <= i < nodes.len() && !(#[trigger] nodes[i]).external && nodes[i].page_type@ == t
}

/// The class definition of type `t` with its fill colour, when a local
/// node has that type.
pub open spec fn class_def(nodes: Seq<PageNode>, t: Seq<char>, color: Seq<char>) -> Seq<char> {
    if type_seen(nodes, t) {
        "  classDef "@ + t + " fill:"@ + color + "\n"@
    } else {
        seq![]
    }
}

/// The class definitions of the known types, in a fixed order.
pub open spec fn class_defs(nodes: Seq<PageNode>) -> Seq<char> {
    class_def(nodes, "concept"@, "#cce5ff"@) + class_def(nodes, "query-result"@, "#cce5ff"@)
        + class_def(nodes, "paper"@, "#d4edda"@) + class_def(nodes, "article"@, "#d4edda"@)
        + class_def(nodes, "documentation"@, "#d4edda"@) + class_def(nodes, "skill"@, "#ffeeba"@)
        + class_def(nodes, "doc"@, "#e2e3e5"@) + class_def(nodes, "section"@, "#f8f9fa"@)
}

/// The class definition of external nodes.
pub open spec fn external_class() -> Seq<char> {
    "  classDef external fill:#eee,stroke:#999,stroke-dasharray:5 5\n"@
}

/// The Mermaid rendering of a graph: nodes, a blank line, edges, a blank
/// line, then the class definitions in use.
pub open spec fn mermaid_spec(nodes: Seq<PageNode>, edges: Seq<(usize, usize, LabeledEdge)>) -> Seq<char> {
    "graph LR\n"@ + concat(nodes.map_values(|n: PageNode| mermaid_node(n))) + "\n"@ + concat(
        edges.map_values(|e: (usize, usize, LabeledEdge)| mermaid_edge(nodes, e)),
    ) + "\n"@ + (if has_external(nodes) {
        external_class()
    } else {
        seq![]
    }) + class_defs(nodes)
}

/// Whether some local node has type `t`.
fn type_present(graph: &WikiGraph, t: &str) -> (r: bool)
    ensures
        r == type_seen(wiki_nodes(*graph), t@),
{
    let n = page_count(graph);
    let tv = chars_of(t);
    let mut i: usize = 0;
    while i < n
        invariant
            n == wiki_nodes(*graph).len(),
            i <= n,
            tv@ == t@,
            forall|j: int| 0 <= j < i ==> !(!(#[trigger] wiki_nodes(*graph)[j]).external
                && wiki_nodes(*graph)[j].page_type@ == t@),
        decreases n - i,
    {
        let p = page(graph, i);
        if !p.external && crate::text::seq_eq(&chars_of(p.page_type.as_str()), &tv) {
            return true;
        }
        i = i + 1;
    }
    false
}

/// Append the class definition of `t` when a local node has that type.
fn push_class_def(out: &mut Vec<char>, graph: &WikiGraph, t: &str, color: &str)
    ensures
        final(out)@ == old(out)@ + class_def(wiki_nodes(*graph), t@, color@),
{
    if type_present(graph, t) {
        push_str(out, "  classDef ");
        push_str(out, t);
        push_str(out, " fill:");
        push_str(out, color);
        push_str(out, "\n");
    } else {
        assert(old(out)@ + Seq::<char>::empty() == old(out)@);
    }
}

/// Render the graph as a Mermaid flowchart.
#[verifier::rlimit(60)]
#[verifier::spinoff_prover]
pub fn render_mermaid(graph: &WikiGraph) -> (out: String)
    ensures
        out@ == mermaid_spec(wiki_nodes(*graph), wiki_edges(*graph)),
{
    let ghost nodes = wiki_nodes(*graph);
    let ghost edges = wiki_edges(*graph);
    let ghost np = nodes.map_values(|n: PageNode| mermaid_node(n));
    let ghost ep = edges.map_values(|e: (usize, usize, LabeledEdge)| mermaid_edge(nodes, e));
    let mut out: Vec<char> = Vec::new();
    push_str(&mut out, "graph LR\n");
    let n = page_count(graph);
    let mut has_ext = false;
    let mut i: usize = 0;
    while i < n
        invariant
            nodes == wiki_nodes(*graph),
            np == nodes.map_values(|n: PageNode| mermaid_node(n)),
            n == nodes.len(),
            i <= n,
            out@ == "graph LR\n"@ + concat(np.subrange(0, i as int)),
            has_ext == exists|j: int| 0 <= j < i && (#[trigger] nodes[j]).external,
        decreases n - i,
    {
        let p = page(graph, i);
        let id = mermaid_id(p.title.as_str());
        let ghost before = out@;
        push_str(&mut out, "  ");
        push_str(&mut out, id.as_str());
        push_str(&mut out, "[\"");
        push_str(&mut out, p.title.as_str());
        push_str(&mut out, "\"]:::");
        if p.external {
            push_str(&mut out, "external");
            has_ext = true;
        } else {
            push_str(&mut out, p.page_type.as_str());
        }
        push_str(&mut out, "\n");
        proof {
            assert(out@ == before + mermaid_node(*p));
            assert(np.subrange(0, i + 1) == np.subrange(0, i as int).push(np[i as int]));
            lemma_concat_push(np.subrange(0, i as int), np[i as int]);
            if p.external {
                assert(nodes[i as int].external);
            }
        }
        i = i + 1;
    }
    assert(np.subrange(0, n as int) == np);
    push_str(&mut out, "\n");
    let m = link_count(graph);
    let ghost head = out@;
    let mut e: usize = 0;
    while e < m
        invariant
            nodes == wiki_nodes(*graph),
            edges == wiki_edges(*graph),
            ep == edges.map_values(|e: (usize, usize, LabeledEdge)| mermaid_edge(nodes, e)),
            m == edges.len(),
            e <= m,
            out@ == head + concat(ep.subrange(0, e as int)),
        decreases m - e,
    {
        let (a, b, l) = link_at(graph, e);
        let from_id = mermaid_id(page(graph, a).title.as_str());
        let to_id = mermaid_id(page(graph, b).title.as_str());
        let ghost before = out@;
        push_str(&mut out, "  ");
        push_str(&mut out, from_id.as_str());
        push_str(&mut out, " -->|");
        push_str(&mut out, l.relation.as_str());
        push_str(&mut out, "| ");
        push_str(&mut out, to_id.as_str());
        push_str(&mut out, "\n");
        proof {
            assert(out@ == before + mermaid_edge(nodes, edges[e as int]));
            assert(ep.subrange(0, e + 1) == ep.subrange(0, e as int).push(ep[e as int]));
            lemma_concat_push(ep.subrange(0, e as int), ep[e as int]);
        }
        e = e + 1;
    }
    assert(ep.subrange(0, m as int) == ep);
    push_str(&mut out, "\n");
    if has_ext {
        push_str(&mut out, "  classDef external fill:#eee,stroke:#999,stroke-dasharray:5 5\n");
    }
    push_class_defs(&mut out, graph);
    string_of(&out)
}

/// Every node and every edge has its own line in the Mermaid rendering,
/// whatever its type or relation: after `graph LR` come exactly
/// `nodes.len()` node lines, a blank line, exactly `edges.len()` edge lines,
/// the `k`-th being `  a -->|rel| b` for edge `k` (each end named by the
/// Mermaid identifier of its title), a blank line, then the class
/// definitions.
pub proof fn mermaid_lists_every_edge(nodes: Seq<PageNode>, edges: Seq<(usize, usize, LabeledEdge)>)
    ensures
        mermaid_spec(nodes, edges) == "graph LR\n"@ + concat(
            Seq::new(
                nodes.len(),
                |i: int|
                    "  "@ + mermaid_id_spec(nodes[i].title@) + "[\""@ + nodes[i].title@ + "\"]:::"@
                        + (if nodes[i].external {
                        "external"@
                    } else {
                        nodes[i].page_type@
                    }) + "\n"@,
            ),
        ) + "\n"@ + concat(
            Seq::new(
                edges.len(),
                |k: int|
                    "  "@ + mermaid_id_spec(nodes[edges[k].0 as int].title@) + " -->|"@
                        + edges[k].2.relation@ + "| "@ + mermaid_id_spec(nodes[edges[k].1 as int].title@)
                        + "\n"@,
            ),
        ) + "\n"@ + (if has_external(nodes) {
            external_class()
        } else {
            seq![]
        }) + class_defs(nodes),
{
    let np = nodes.map_values(|n: PageNode| mermaid_node(n));
    assert(np =~= Seq::new(
        nodes.len(),
        |i: int|
            "  "@ + mermaid_id_spec(nodes[i].title@) + "[\""@ + nodes[i].title@ + "\"]:::"@ + (
            if nodes[i].external {
                "external"@
            } else {
                nodes[i].page_type@
            }) + "\n"@,
    ));
    let ep = edges.map_values(|e: (usize, usize, LabeledEdge)| mermaid_edge(nodes, e));
    assert(ep =~= Seq::new(
        edges.len(),
        |k: int|
            "  "@ + mermaid_id_spec(nodes[edges[k].0 as int].title@) + " -->|"@ + edges[k].2.relation@
                + "| "@ + mermaid_id_spec(nodes[edges[k].1 as int].title@) + "\n"@,
    ));
}

/// Append the class definitions of the known types in use.
#[verifier::spinoff_prover]
#[verifier::rlimit(40)]
fn push_class_defs(out: &mut Vec<char>, graph: &WikiGraph)
    ensures
        final(out)@ == old(out)@ + class_defs(wiki_nodes(*graph)),
{
    let ghost nodes = wiki_nodes(*graph);
    let ghost o = old(out)@;
    push_class_def(out, graph, "concept", "#cce5ff");
    push_class_def(out, graph, "query-result", "#cce5ff");
    push_class_def(out, graph, "paper", "#d4edda");
    push_class_def(out, graph, "article", "#d4edda");
    let ghost half = out@;
    assert(half == o + (class_def(nodes, "concept"@, "#cce5ff"@) + class_def(nodes, "query-result"@, "#cce5ff"@)
        + class_def(nodes, "paper"@, "#d4edda"@) + class_def(nodes, "article"@, "#d4edda"@)));
    push_class_def(out, graph, "documentation", "#d4edda");
    push_class_def(out, graph, "skill", "#ffeeba");
    push_class_def(out, graph, "doc", "#e2e3e5");
    push_class_def(out, graph, "section", "#f8f9fa");
    assert(out@ == half + (class_def(nodes, "documentation"@, "#d4edda"@) + class_def(nodes, "skill"@, "#ffeeba"@)
        + class_def(nodes, "doc"@, "#e2e3e5"@) + class_def(nodes, "section"@, "#f8f9fa"@)));
}

// ── Subgraph ──────────────────────────────────────────────────────────────────

/// The first node at or after `i` whose slug is `s`.
pub open spec fn first_slug(nodes: Seq<PageNode>, s: Seq<char>, i: int) -> Option<int>
    decreases nodes.len() - i,
{
    if i < 0 || i >= nodes.len() {
        None
    } else if nodes[i].slug@ == s {
        Some(i)
    } else {
        first_slug(nodes, s, i + 1)
    }
}

/// Node `i` is at most `d` hops from `r`, following edges either way.
pub open spec fn within(edges: Seq<(usize, usize, LabeledEdge)>, r: int, d: nat, i: int) -> bool
    decreases d,
{
    if d == 0 {
        i == r
    } else {
        within(edges, r, (d - 1) as nat, i) || exists|k: int|
            0 <= k < edges.len() && ((#[trigger] edges[k].0 == i && within(
                edges,
                r,
                (d - 1) as nat,
                edges[k].1 as int,
            )) || (edges[k].1 == i && within(edges, r, (d - 1) as nat, edges[k].0 as int)))
    }
}

/// The indices below `n` of the nodes within `d` hops of `r`, ascending.
pub open spec fn kept_nodes(n: nat, edges: Seq<(usize, usize, LabeledEdge)>, r: int, d: nat) -> Seq<usize>
    decreases n,
{
    if n == 0 {
        seq![]
    } else {
        let p = kept_nodes((n - 1) as nat, edges, r, d);
        if within(edges, r, d, n - 1) {
            p.push((n - 1) as usize)
        } else {
            p
        }
    }
}

/// The indices of the edges whose two ends are within `d` hops of `r`.
pub open spec fn kept_edges(edges: Seq<(usize, usize, LabeledEdge)>, all: Seq<(usize, usize, LabeledEdge)>, r: int, d: nat) -> Seq<int>
    decreases edges.len(),
{
    if edges.len() == 0 {
        seq![]
    } else {
        let p = kept_edges(edges.drop_last(), all, r, d);
        if within(all, r, d, edges.last().0 as int) && within(all, r, d, edges.last().1 as int) {
            p.push(edges.len() - 1)
        } else {
            p
        }
    }
}

/// Two nodes with the same slug, title, type and externality.
pub open spec fn same_page(a: PageNode, b: PageNode) -> bool {
    a.slug@ == b.slug@ && a.title@ == b.title@ && a.page_type@ == b.page_type@ && a.external == b.external
}

/// `sub` is the part of (`nodes`, `edges`) within `d` hops of node `r`:
/// those nodes in ascending index order, and the edges between them in edge
/// order, their ends renumbered to positions among the kept nodes.
pub open spec fn is_subgraph(
    sub_nodes: Seq<PageNode>,
    sub_edges: Seq<(usize, usize, LabeledEdge)>,
    nodes: Seq<PageNode>,
    edges: Seq<(usize, usize, LabeledEdge)>,
    r: int,
    d: nat,
) -> bool {
    let ks = kept_nodes(nodes.len(), edges, r, d);
    let es = kept_edges(edges, edges, r, d);
    &&& sub_nodes.len() == ks.len()
    &&& forall|k: int| 0 <= k < ks.len() ==> same_page(#[trigger] sub_nodes[k], nodes[ks[k] as int])
    &&& sub_edges.len() == es.len()
    &&& forall|k: int|
        0 <= k < es.len() ==> {
            &&& (#[trigger] sub_edges[k]).0 == kept_nodes(edges[es[k]].0 as nat, edges, r, d).len()
            &&& sub_edges[k].1 == kept_nodes(edges[es[k]].1 as nat, edges, r, d).len()
            &&& sub_edges[k].2.relation@ == edges[es[k]].2.relation@
        }
}

/// A copy of a node.
fn copy_page(p: &PageNode) -> (q: PageNode)
    ensures
        same_page(q, *p),
{
    PageNode {
        slug: p.slug.clone(),
        title: p.title.clone(),
        page_type: p.page_type.clone(),
        external: p.external,
    }
}

/// The index of the first node with this slug.
fn find_slug(graph: &WikiGraph, s: &str) -> (r: Option<usize>)
    ensures
        match first_slug(wiki_nodes(*graph), s@, 0) {
            Some(i) => r == Some(i as usize),
            None => r is None,
        },
        r matches Some(i) ==> i < wiki_nodes(*graph).len() && first_slug(wiki_nodes(*graph), s@, 0)
            == Some(i as int),
{
    let n = page_count(graph);
    let sv = chars_of(s);
    let mut i: usize = 0;
    while i < n
        invariant
            n == wiki_nodes(*graph).len(),
            i <= n,
            sv@ == s@,
            first_slug(wiki_nodes(*graph), s@, 0) == first_slug(wiki_nodes(*graph), s@, i as int),
        decreases n - i,
    {
        if crate::text::seq_eq(&chars_of(page(graph, i).slug.as_str()), &sv) {
            return Some(i);
        }
        i = i + 1;
    }
    None
}

/// One more hop: the nodes within `d + 1` hops, from those within `d`.
fn hop(graph: &WikiGraph, keep: &Vec<bool>, Ghost(r): Ghost<int>, Ghost(d): Ghost<nat>) -> (next: Vec<bool>)
    requires
        keep@.len() == wiki_nodes(*graph).len(),
        forall|i: int| 0 <= i < keep@.len() ==> keep@[i] == within(wiki_edges(*graph), r, d, i),
    ensures
        next@.len() == keep@.len(),
        forall|i: int| 0 <= i < next@.len() ==> next@[i] == within(wiki_edges(*graph), r, d + 1, i),
{
    let ghost edges = wiki_edges(*graph);
    let n = keep.len();
    let mut next: Vec<bool> = Vec::new();
    let mut i: usize = 0;
    while i < n
        invariant
            n == keep@.len(),
            i <= n,
            next@ == keep@.subrange(0, i as int),
        decreases n - i,
    {
        next.push(keep[i]);
        i = i + 1;
    }
    let m = link_count(graph);
    let mut k: usize = 0;
    while k < m
        invariant
            edges == wiki_edges(*graph),
            m == edges.len(),
            n == keep@.len(),
            n == wiki_nodes(*graph).len(),
            k <= m,
            next@.len() == n,
            forall|i: int| 0 <= i < keep@.len() ==> keep@[i] == within(edges, r, d, i),
            forall|i: int| 0 <= i < n ==> next@[i] == (keep@[i] || exists|j: int|
                0 <= j < k && ((#[trigger] edges[j].0 == i && within(edges, r, d, edges[j].1 as int))
                    || (edges[j].1 == i && within(edges, r, d, edges[j].0 as int)))),
        decreases m - k,
    {
        let (a, b, _) = link_at(graph, k);
        let ka = keep[a];
        let kb = keep[b];
        if kb {
            next.set(a, true);
        }
        if ka {
            next.set(b, true);
        }
        proof {
            assert forall|i: int| 0 <= i < n implies next@[i] == (keep@[i] || exists|j: int|
                0 <= j < k + 1 && ((#[trigger] edges[j].0 == i && within(edges, r, d, edges[j].1 as int))
                    || (edges[j].1 == i && within(edges, r, d, edges[j].0 as int)))) by {
                if exists|j: int|
                    0 <= j < k + 1 && ((#[trigger] edges[j].0 == i && within(edges, r, d, edges[j].1 as int))
                        || (edges[j].1 == i && within(edges, r, d, edges[j].0 as int))) {
                    let j = choose|j: int|
                        0 <= j < k + 1 && ((#[trigger] edges[j].0 == i && within(edges, r, d, edges[j].1 as int))
                            || (edges[j].1 == i && within(edges, r, d, edges[j].0 as int)));
                    if j < k {
                        assert(0 <= j < k);
                    }
                }
            }
        }
        k = k + 1;
    }
    proof {
        assert forall|i: int| 0 <= i < next@.len() implies next@[i] == within(edges, r, d + 1, i) by {
            assert(within(edges, r, d + 1, i) == (within(edges, r, d, i) || exists|j: int|
                0 <= j < edges.len() && ((#[trigger] edges[j].0 == i && within(edges, r, d, edges[j].1 as int))
                    || (edges[j].1 == i && within(edges, r, d, edges[j].0 as int)))));
        }
    }
    next
}

/// A fixed point of the hop step stays fixed.
proof fn lemma_within_fixed(edges: Seq<(usize, usize, LabeledEdge)>, r: int, d: nat, e: nat)
    requires
        d <= e,
        forall|i: int| #[trigger] within(edges, r, d + 1, i) == within(edges, r, d, i),
    ensures
        forall|i: int| #[trigger] within(edges, r, e, i) == within(edges, r, d, i),
    decreases e - d,
{
    if e > d + 1 {
        let e1 = (e - 1) as nat;
        lemma_within_fixed(edges, r, d, e1);
        assert forall|i: int| #[trigger] within(edges, r, e, i) == within(edges, r, d, i) by {
            let ex_e = exists|k: int|
                0 <= k < edges.len() && ((#[trigger] edges[k].0 == i && within(edges, r, e1, edges[k].1 as int))
                    || (edges[k].1 == i && within(edges, r, e1, edges[k].0 as int)));
            let ex_d = exists|k: int|
                0 <= k < edges.len() && ((#[trigger] edges[k].0 == i && within(edges, r, d, edges[k].1 as int))
                    || (edges[k].1 == i && within(edges, r, d, edges[k].0 as int)));
            assert(within(edges, r, e, i) == (within(edges, r, e1, i) || ex_e));
            assert(within(edges, r, d + 1, i) == (within(edges, r, d, i) || ex_d));
            if ex_e {
                let k = choose|k: int|
                    0 <= k < edges.len() && ((#[trigger] edges[k].0 == i && within(edges, r, e1, edges[k].1 as int))
                        || (edges[k].1 == i && within(edges, r, e1, edges[k].0 as int)));
                assert(within(edges, r, e1, edges[k].1 as int) == within(edges, r, d, edges[k].1 as int));
                assert(within(edges, r, e1, edges[k].0 as int) == within(edges, r, d, edges[k].0 as int));
                assert(ex_d);
            }
            if ex_d {
                let k = choose|k: int|
                    0 <= k < edges.len() && ((#[trigger] edges[k].0 == i && within(edges, r, d, edges[k].1 as int))
                        || (edges[k].1 == i && within(edges, r, d, edges[k].0 as int)));
                assert(within(edges, r, e1, edges[k].1 as int) == within(edges, r, d, edges[k].1 as int));
                assert(within(edges, r, e1, edges[k].0 as int) == within(edges, r, d, edges[k].0 as int));
                assert(ex_e);
            }
        }
    }
}

proof fn lemma_kept_rank(n: nat, edges: Seq<(usize, usize, LabeledEdge)>, r: int, d: nat, a: nat)
    requires
        a < n,
        within(edges, r, d, a as int),
        n <= index_limit(),
    ensures
        kept_nodes(a, edges, r, d).len() < kept_nodes(n, edges, r, d).len(),
        kept_nodes(n, edges, r, d)[kept_nodes(a, edges, r, d).len() as int] == a,
    decreases n,
{
    if a + 1 < n {
        lemma_kept_rank((n - 1) as nat, edges, r, d, a);
    }
}

proof fn lemma_kept_len(n: nat, edges: Seq<(usize, usize, LabeledEdge)>, r: int, d: nat)
    ensures
        kept_nodes(n, edges, r, d).len() <= n,
    decreases n,
{
    if n > 0 {
        lemma_kept_len((n - 1) as nat, edges, r, d);
    }
}

proof fn lemma_kept_edges_len(edges: Seq<(usize, usize, LabeledEdge)>, all: Seq<(usize, usize, LabeledEdge)>, r: int, d: nat)
    ensures
        kept_edges(edges, all, r, d).len() <= edges.len(),
        forall|k: int| 0 <= k < kept_edges(edges, all, r, d).len() ==> 0 <= #[trigger] kept_edges(edges, all, r, d)[k] < edges.len(),
    decreases edges.len(),
{
    if edges.len() > 0 {
        lemma_kept_edges_len(edges.drop_last(), all, r, d);
    }
}

/// The part of the graph within `depth` hops of the first node with slug
/// `root_slug`, following links either way (an empty graph when no node has
/// that slug). Nodes keep their index order.
pub fn subgraph(graph: &WikiGraph, root_slug: &str, depth: usize) -> (sub: WikiGraph)
    ensures
        match first_slug(wiki_nodes(*graph), root_slug@, 0) {
            None => wiki_nodes(sub).len() == 0 && wiki_edges(sub).len() == 0,
            Some(r) => is_subgraph(
                wiki_nodes(sub),
                wiki_edges(sub),
                wiki_nodes(*graph),
                wiki_edges(*graph),
                r,
                depth as nat,
            ),
        },
{
    let ghost nodes = wiki_nodes(*graph);
    let ghost edges = wiki_edges(*graph);
    let root = match find_slug(graph, root_slug) {
        Some(r) => r,
        None => {
            return wiki_graph_new();
        },
    };
    let ghost r = root as int;
    let n = page_count(graph);
    let m0 = link_count(graph);
    assert(edges.subrange(0, m0 as int) == edges);
    let mut keep: Vec<bool> = Vec::new();
    let mut i: usize = 0;
    while i < n
        invariant
            i <= n,
            keep@.len() == i,
            forall|j: int| 0 <= j < i ==> keep@[j] == (j == root),
        decreases n - i,
    {
        keep.push(i == root);
        i = i + 1;
    }
    let mut d: usize = 0;
    let mut done = false;
    while d < depth && !done
        invariant
            nodes == wiki_nodes(*graph),
            edges == wiki_edges(*graph),
            n == nodes.len(),
            r == root,
            0 <= r < n,
            edges_in_range(n as nat, edges),
            d <= depth,
            keep@.len() == n,
            forall|j: int| 0 <= j < n ==> keep@[j] == within(edges, r, d as nat, j),
            done ==> forall|j: int| #[trigger] within(edges, r, (d + 1) as nat, j) == within(edges, r, d as nat, j),
        decreases depth - d + (if done { 0int } else { 1int }),
    {
        let next = hop(graph, &keep, Ghost(r), Ghost(d as nat));
        let mut same = true;
        let mut j: usize = 0;
        while j < n
            invariant
                j <= n,
                next@.len() == n,
                keep@.len() == n,
                same == forall|q: int| 0 <= q < j ==> next@[q] == keep@[q],
            decreases n - j,
        {
            if next[j] != keep[j] {
                same = false;
            }
            j = j + 1;
        }
        if same {
            proof {
                assert forall|q: int| #[trigger] within(edges, r, (d + 1) as nat, q) == within(edges, r, d as nat, q) by {
                    if 0 <= q < n {
                        assert(next@[q] == keep@[q]);
                    } else {
                        assert(within(edges, r, (d + 1) as nat, q) == within(edges, r, d as nat, q)) by {
                            lemma_within_out(edges, r, (d + 1) as nat, q, n as nat);
                            lemma_within_out(edges, r, d as nat, q, n as nat);
                        }
                    }
                }
            }
            done = true;
        } else {
            keep = next;
            d = d + 1;
        }
    }
    proof {
        if done {
            lemma_within_fixed(edges, r, d as nat, depth as nat);
        }
    }
    let mut sub = wiki_graph_new();
    let mut pos: Vec<usize> = Vec::new();
    let mut i: usize = 0;
    while i < n
        invariant
            nodes == wiki_nodes(*graph),
            edges == wiki_edges(*graph),
            n == nodes.len(),
            n <= index_limit(),
            i <= n,
            keep@.len() == n,
            forall|j: int| 0 <= j < n ==> keep@[j] == within(edges, r, depth as nat, j),
            wiki_edges(sub).len() == 0,
            wiki_nodes(sub).len() == kept_nodes(i as nat, edges, r, depth as nat).len(),
            forall|k: int| 0 <= k < wiki_nodes(sub).len() ==> same_page(
                #[trigger] wiki_nodes(sub)[k],
                nodes[kept_nodes(i as nat, edges, r, depth as nat)[k] as int],
            ),
            pos@.len() == i,
            forall|j: int| 0 <= j < i && keep@[j] ==> #[trigger] pos@[j] == kept_nodes(j as nat, edges, r, depth as nat).len(),
        decreases n - i,
    {
        proof {
            lemma_kept_len(i as nat, edges, r, depth as nat);
        }
        if keep[i] {
            let c = copy_page(page(graph, i));
            let k = add_page(&mut sub, c);
            pos.push(k);
        } else {
            pos.push(0);
        }
        i = i + 1;
    }
    let m = link_count(graph);
    let mut e: usize = 0;
    while e < m
        invariant
            nodes == wiki_nodes(*graph),
            edges == wiki_edges(*graph),
            n == nodes.len(),
            m == edges.len(),
            n <= index_limit(),
            m <= index_limit(),
            e <= m,
            keep@.len() == n,
            pos@.len() == n,
            forall|j: int| 0 <= j < n ==> keep@[j] == within(edges, r, depth as nat, j),
            forall|j: int| 0 <= j < n && keep@[j] ==> #[trigger] pos@[j] == kept_nodes(j as nat, edges, r, depth as nat).len(),
            wiki_nodes(sub).len() == kept_nodes(n as nat, edges, r, depth as nat).len(),
            forall|k: int| 0 <= k < wiki_nodes(sub).len() ==> same_page(
                #[trigger] wiki_nodes(sub)[k],
                nodes[kept_nodes(n as nat, edges, r, depth as nat)[k] as int],
            ),
            wiki_edges(sub).len() == kept_edges(edges.subrange(0, e as int), edges, r, depth as nat).len(),
            forall|k: int| 0 <= k < wiki_edges(sub).len() ==> {
                let x = kept_edges(edges.subrange(0, e as int), edges, r, depth as nat)[k];
                &&& (#[trigger] wiki_edges(sub)[k]).0 == kept_nodes(edges[x].0 as nat, edges, r, depth as nat).len()
                &&& wiki_edges(sub)[k].1 == kept_nodes(edges[x].1 as nat, edges, r, depth as nat).len()
                &&& wiki_edges(sub)[k].2.relation@ == edges[x].2.relation@
            },
        decreases m - e,
    {
        let (a, b, l) = link_at(graph, e);
        proof {
            assert(edges.subrange(0, e + 1).drop_last() == edges.subrange(0, e as int));
            assert(edges.subrange(0, e + 1).last() == edges[e as int]);
            lemma_kept_edges_len(edges.subrange(0, e as int), edges, r, depth as nat);
        }
        let ghost before = wiki_edges(sub);
        if keep[a] && keep[b] {
            proof {
                lemma_kept_rank(n as nat, edges, r, depth as nat, a as nat);
                lemma_kept_rank(n as nat, edges, r, depth as nat, b as nat);
            }
            let rel = LabeledEdge { relation: l.relation.clone() };
            add_link(&mut sub, pos[a], pos[b], rel);
        }
        proof {
            let ke = kept_edges(edges.subrange(0, e as int), edges, r, depth as nat);
            let ke1 = kept_edges(edges.subrange(0, e + 1), edges, r, depth as nat);
            assert forall|k: int| 0 <= k < ke.len() implies ke1[k] == ke[k] by {}
        }
        e = e + 1;
    }
    assert(edges.subrange(0, m as int) == edges);
    assert(first_slug(nodes, root_slug@, 0) == Some(r));
    assert(is_subgraph(wiki_nodes(sub), wiki_edges(sub), nodes, edges, r, depth as nat));
    sub
}

/// A node outside the graph is within `d` hops only when it is the root.
proof fn lemma_within_out(edges: Seq<(usize, usize, LabeledEdge)>, r: int, d: nat, q: int, n: nat)
    requires
        edges_in_range(n, edges),
        0 <= r < n,
        !(0 <= q < n),
    ensures
        !within(edges, r, d, q),
    decreases d,
{
    if d > 0 {
        lemma_within_out(edges, r, (d - 1) as nat, q, n);
    }
}

// ── Building ──────────────────────────────────────────────────────────────────

/// What the graph reads of one indexed page.
#[derive(Debug, Clone)]
pub struct DocInfo {
    pub slug: String,
    pub title: String,
    pub page_type: String,
    /// The `[[wikilinks]]` of the body.
    pub body_links: Vec<String>,
    /// The declared edge fields the page has values for, in declaration
    /// order: the relation of the field and its target slugs.
    pub edge_fields: Vec<(String, Vec<String>)>,
}

/// The page passes the type filter (an empty filter passes every page).
pub open spec fn type_ok(types: Seq<Seq<char>>, d: DocInfo) -> bool {
    types.len() == 0 || types.contains(d.page_type@)
}

/// The pages that pass the type filter, in order.
pub open spec fn local_docs(docs: Seq<DocInfo>, types: Seq<Seq<char>>) -> Seq<DocInfo>
    decreases docs.len(),
{
    if docs.len() == 0 {
        seq![]
    } else {
        let p = local_docs(docs.drop_last(), types);
        if type_ok(types, docs.last()) {
            p.push(docs.last())
        } else {
            p
        }
    }
}

/// The relation passes the relation filter.
pub open spec fn rel_ok(rf: Option<Seq<char>>, rel: Seq<char>) -> bool {
    rf is None || rf == Some(rel)
}

/// The (relation, target) links of declared edge fields that pass the
/// relation filter, in order.
pub open spec fn field_links(fields: Seq<(String, Vec<String>)>, rf: Option<Seq<char>>) -> Seq<(Seq<char>, Seq<char>)>
    decreases fields.len(),
{
    if fields.len() == 0 {
        seq![]
    } else {
        let f = fields.last();
        field_links(fields.drop_last(), rf) + if rel_ok(rf, f.0@) {
            texts(f.1@).map_values(|t: Seq<char>| (f.0@, t))
        } else {
            seq![]
        }
    }
}

/// The (relation, target) links of a page: its declared edge fields, then
/// its body links as `links-to`, those that pass the relation filter.
pub open spec fn doc_links(d: DocInfo, rf: Option<Seq<char>>) -> Seq<(Seq<char>, Seq<char>)> {
    field_links(d.edge_fields@, rf) + if rel_ok(rf, "links-to"@) {
        texts(d.body_links@).map_values(|t: Seq<char>| ("links-to"@, t))
    } else {
        seq![]
    }
}

/// The number of targets of the edge fields.
pub open spec fn fields_count(fields: Seq<(String, Vec<String>)>) -> nat
    decreases fields.len(),
{
    if fields.len() == 0 {
        0
    } else {
        fields_count(fields.drop_last()) + fields.last().1@.len()
    }
}

/// The number of link targets of all pages.
pub open spec fn link_total(docs: Seq<DocInfo>) -> nat
    decreases docs.len(),
{
    if docs.len() == 0 {
        0
    } else {
        link_total(docs.drop_last()) + fields_count(docs.last().edge_fields@) + docs.last().body_links@.len()
    }
}

/// The last local node (index below `l`) with slug `s`.
pub open spec fn last_local(nodes: Seq<PageNode>, l: int, s: Seq<char>) -> Option<int>
    decreases l,
{
    if l <= 0 {
        None
    } else if nodes[l - 1].slug@ == s {
        Some(l - 1)
    } else {
        last_local(nodes, l - 1, s)
    }
}

/// The first external node (index `l` or above, from `j`) with title `t`.
pub open spec fn ext_with_title(nodes: Seq<PageNode>, j: int, t: Seq<char>) -> Option<int>
    decreases nodes.len() - j,
{
    if j < 0 || j >= nodes.len() {
        None
    } else if nodes[j].title@ == t {
        Some(j)
    } else {
        ext_with_title(nodes, j + 1, t)
    }
}

/// Where a link target leads: the last local page with that slug, else
/// the external node for that `wiki://` URI.
pub open spec fn resolve_target(nodes: Seq<PageNode>, l: int, t: Seq<char>) -> Option<int> {
    match last_local(nodes, l, t) {
        Some(i) => Some(i),
        None => ext_with_title(nodes, l, t),
    }
}

/// The slug of the external node for `t`: the slug part of a cross-wiki
/// URI, else the whole target.
pub open spec fn external_slug(t: Seq<char>) -> Seq<char> {
    match cross_wiki_parts(t) {
        Some((_, s)) => s,
        None => t,
    }
}

// ── The graph as texts ────────────────────────────────────────────────────────

/// A node as its texts: slug, title, type, external.
pub open spec fn page_view(p: PageNode) -> (Seq<char>, Seq<char>, Seq<char>, bool) {
    (p.slug@, p.title@, p.page_type@, p.external)
}

/// The nodes of a graph as texts.
pub open spec fn page_views(nodes: Seq<PageNode>) -> Seq<(Seq<char>, Seq<char>, Seq<char>, bool)> {
    nodes.map_values(|p: PageNode| page_view(p))
}

/// An edge as its ends and relation.
pub open spec fn link_view(e: (usize, usize, LabeledEdge)) -> (nat, nat, Seq<char>) {
    (e.0 as nat, e.1 as nat, e.2.relation@)
}

/// The edges of a graph as ends and relations.
pub open spec fn link_views(edges: Seq<(usize, usize, LabeledEdge)>) -> Seq<(nat, nat, Seq<char>)> {
    edges.map_values(|e: (usize, usize, LabeledEdge)| link_view(e))
}

/// `last_local` over node texts.
pub open spec fn last_local_v(nv: Seq<(Seq<char>, Seq<char>, Seq<char>, bool)>, l: int, s: Seq<char>) -> Option<int>
    decreases l,
{
    if l <= 0 {
        None
    } else if nv[l - 1].0 == s {
        Some(l - 1)
    } else {
        last_local_v(nv, l - 1, s)
    }
}

/// `ext_with_title` over node texts.
pub open spec fn ext_title_v(nv: Seq<(Seq<char>, Seq<char>, Seq<char>, bool)>, j: int, t: Seq<char>) -> Option<int>
    decreases nv.len() - j,
{
    if j < 0 || j >= nv.len() {
        None
    } else if nv[j].1 == t {
        Some(j)
    } else {
        ext_title_v(nv, j + 1, t)
    }
}

/// `resolve_target` over node texts.
pub open spec fn resolve_v(nv: Seq<(Seq<char>, Seq<char>, Seq<char>, bool)>, l: int, t: Seq<char>) -> Option<int> {
    match last_local_v(nv, l, t) {
        Some(i) => Some(i),
        None => ext_title_v(nv, l, t),
    }
}

/// One link (`rel`, `t`) of the page at node `from` added to the graph
/// (`nv`, `ev`), `l` nodes being local: its target is the last local page
/// with slug `t`, else the external node titled `t`, else (for a `wiki://`
/// URI) a new external node; the edge is added unless the target is `from`
/// or there is none.
pub open spec fn link_step(
    st: (Seq<(Seq<char>, Seq<char>, Seq<char>, bool)>, Seq<(nat, nat, Seq<char>)>),
    l: int,
    from: nat,
    rel: Seq<char>,
    t: Seq<char>,
) -> (Seq<(Seq<char>, Seq<char>, Seq<char>, bool)>, Seq<(nat, nat, Seq<char>)>) {
    let nv = st.0;
    let ev = st.1;
    let (nv2, target) = match resolve_v(nv, l, t) {
        Some(i) => (nv, Some(i)),
        None => if starts_with(t, "wiki://"@) {
            (nv.push((external_slug(t), t, "external"@, true)), Some(nv.len() as int))
        } else {
            (nv, None)
        },
    };
    match target {
        Some(b) => if b != from {
            (nv2, ev.push((from, b as nat, rel)))
        } else {
            (nv2, ev)
        },
        None => (nv2, ev),
    }
}

/// The links `links` of the page at node `from` added in order.
pub open spec fn links_fold(
    st: (Seq<(Seq<char>, Seq<char>, Seq<char>, bool)>, Seq<(nat, nat, Seq<char>)>),
    l: int,
    from: nat,
    links: Seq<(Seq<char>, Seq<char>)>,
) -> (Seq<(Seq<char>, Seq<char>, Seq<char>, bool)>, Seq<(nat, nat, Seq<char>)>)
    decreases links.len(),
{
    if links.len() == 0 {
        st
    } else {
        let prev = links_fold(st, l, from, links.drop_last());
        link_step(prev, l, from, links.last().0, links.last().1)
    }
}

/// The local pages as node texts.
pub open spec fn local_views(local: Seq<DocInfo>) -> Seq<(Seq<char>, Seq<char>, Seq<char>, bool)> {
    local.map_values(|d: DocInfo| (d.slug@, d.title@, d.page_type@, false))
}

/// The graph after the links of the first `p` local pages: the local pages
/// as nodes, then each page's links added in order from the last page with
/// its slug.
pub open spec fn docs_fold(local: Seq<DocInfo>, rf: Option<Seq<char>>, p: int) -> (
    Seq<(Seq<char>, Seq<char>, Seq<char>, bool)>,
    Seq<(nat, nat, Seq<char>)>,
)
    decreases p,
{
    if p <= 0 {
        (local_views(local), seq![])
    } else {
        let st = docs_fold(local, rf, p - 1);
        match last_local_v(local_views(local), local.len() as int, local[p - 1].slug@) {
            Some(f) => links_fold(st, local.len() as int, f as nat, doc_links(local[p - 1], rf)),
            None => st,
        }
    }
}

/// The concept graph of `docs` (before any root filter), node by node and
/// edge by edge.
pub open spec fn graph_spec(docs: Seq<DocInfo>, types: Seq<Seq<char>>, rf: Option<Seq<char>>) -> (
    Seq<(Seq<char>, Seq<char>, Seq<char>, bool)>,
    Seq<(nat, nat, Seq<char>)>,
) {
    let local = local_docs(docs, types);
    docs_fold(local, rf, local.len() as int)
}

proof fn lemma_last_local_views(nodes: Seq<PageNode>, l: int, s: Seq<char>)
    requires
        l <= nodes.len(),
    ensures
        last_local(nodes, l, s) == last_local_v(page_views(nodes), l, s),
    decreases l,
{
    if l > 0 {
        lemma_last_local_views(nodes, l - 1, s);
    }
}

proof fn lemma_ext_title_views(nodes: Seq<PageNode>, j: int, t: Seq<char>)
    ensures
        ext_with_title(nodes, j, t) == ext_title_v(page_views(nodes), j, t),
    decreases nodes.len() - j,
{
    if 0 <= j < nodes.len() {
        lemma_ext_title_views(nodes, j + 1, t);
    }
}

/// Resolution reads only the node texts.
proof fn lemma_resolve_views(nodes: Seq<PageNode>, l: int, t: Seq<char>)
    requires
        l <= nodes.len(),
    ensures
        resolve_target(nodes, l, t) == resolve_v(page_views(nodes), l, t),
{
    lemma_last_local_views(nodes, l, t);
    lemma_ext_title_views(nodes, l, t);
}

/// Two node lists that agree below `l` agree on `last_local_v` below `l`.
proof fn lemma_last_local_v_prefix(a: Seq<(Seq<char>, Seq<char>, Seq<char>, bool)>, b: Seq<(Seq<char>, Seq<char>, Seq<char>, bool)>, l: int, s: Seq<char>)
    requires
        l <= a.len(),
        l <= b.len(),
        forall|i: int| 0 <= i < l ==> a[i] == b[i],
    ensures
        last_local_v(a, l, s) == last_local_v(b, l, s),
    decreases l,
{
    if l > 0 {
        lemma_last_local_v_prefix(a, b, l - 1, s);
    }
}

/// The nodes are the local pages (below `local.len()`), in order, then
/// external placeholders for `wiki://` targets that no local page has as
/// slug, each with the URI as title.
pub open spec fn nodes_ok(nodes: Seq<PageNode>, local: Seq<DocInfo>) -> bool {
    &&& nodes.len() >= local.len()
    &&& forall|i: int| 0 <= i < local.len() ==> {
        &&& (#[trigger] nodes[i]).slug@ == local[i].slug@
        &&& nodes[i].title@ == local[i].title@
        &&& nodes[i].page_type@ == local[i].page_type@
        &&& !nodes[i].external
    }
    &&& forall|j: int| local.len() <= j < nodes.len() ==> {
        &&& (#[trigger] nodes[j]).external
        &&& nodes[j].page_type@ == "external"@
        &&& starts_with(nodes[j].title@, "wiki://"@)
        &&& nodes[j].slug@ == external_slug(nodes[j].title@)
        &&& last_local(nodes, local.len() as int, nodes[j].title@) is None
        &&& ext_with_title(nodes, local.len() as int, nodes[j].title@) == Some(j)
    }
}

/// The edge goes from a local page (the last with its slug) to where one of
/// the links of a page with that slug leads, with the link's relation, and
/// is not a self-loop.
pub open spec fn edge_sound(
    nodes: Seq<PageNode>,
    local: Seq<DocInfo>,
    rf: Option<Seq<char>>,
    e: (usize, usize, LabeledEdge),
) -> bool {
    let l = local.len() as int;
    &&& e.0 < l
    &&& e.0 != e.1
    &&& last_local(nodes, l, nodes[e.0 as int].slug@) == Some(e.0 as int)
    &&& exists|p: int, k: int|
        0 <= p < l && local[p].slug@ == nodes[e.0 as int].slug@ && 0 <= k < doc_links(local[p], rf).len()
            && (#[trigger] doc_links(local[p], rf)[k]).0 == e.2.relation@
            && resolve_target(nodes, l, doc_links(local[p], rf)[k].1) == Some(e.1 as int)
}

/// The link (`rel`, `t`) of the page whose node is `from` is in the graph:
/// it leads nowhere (a local slug no page has), back to `from`, or to a
/// node that an edge from `from` with that relation reaches.
pub open spec fn link_realized(
    nodes: Seq<PageNode>,
    edges: Seq<(usize, usize, LabeledEdge)>,
    l: int,
    from: int,
    rel: Seq<char>,
    t: Seq<char>,
) -> bool {
    match resolve_target(nodes, l, t) {
        None => !starts_with(t, "wiki://"@),
        Some(b) => b == from || exists|e: int|
            0 <= e < edges.len() && (#[trigger] edges[e]).0 == from && edges[e].1 == b
                && edges[e].2.relation@ == rel,
    }
}

/// The graph built from `docs` with this filter, before any root filter:
/// nodes as `nodes_ok` says, every edge sound, and every link of every
/// local page realized.
pub open spec fn built(
    nodes: Seq<PageNode>,
    edges: Seq<(usize, usize, LabeledEdge)>,
    docs: Seq<DocInfo>,
    types: Seq<Seq<char>>,
    rf: Option<Seq<char>>,
) -> bool {
    let local = local_docs(docs, types);
    &&& nodes_ok(nodes, local)
    &&& forall|e: int| 0 <= e < edges.len() ==> edge_sound(nodes, local, rf, #[trigger] edges[e])
    &&& forall|p: int, k: int|
        0 <= p < local.len() && 0 <= k < doc_links(local[p], rf).len() ==> link_realized(
            nodes,
            edges,
            local.len() as int,
            last_local(nodes, local.len() as int, local[p].slug@).unwrap(),
            (#[trigger] doc_links(local[p], rf)[k]).0,
            doc_links(local[p], rf)[k].1,
        )
}

/// `b` is `a` with more items after it.
pub open spec fn extends<T>(a: Seq<T>, b: Seq<T>) -> bool {
    a.len() <= b.len() && b.subrange(0, a.len() as int) == a
}

proof fn lemma_last_local_ext(a: Seq<PageNode>, b: Seq<PageNode>, l: int, s: Seq<char>)
    requires
        extends(a, b),
        l <= a.len(),
    ensures
        last_local(b, l, s) == last_local(a, l, s),
    decreases l,
{
    if l > 0 {
        assert(b[l - 1] == b.subrange(0, a.len() as int)[l - 1]);
        lemma_last_local_ext(a, b, l - 1, s);
    }
}

proof fn lemma_ext_title_ext(a: Seq<PageNode>, b: Seq<PageNode>, j: int, t: Seq<char>)
    requires
        extends(a, b),
        0 <= j,
        ext_with_title(a, j, t) is Some,
    ensures
        ext_with_title(b, j, t) == ext_with_title(a, j, t),
    decreases a.len() - j,
{
    assert(b[j] == b.subrange(0, a.len() as int)[j]);
    if a[j].title@ != t {
        lemma_ext_title_ext(a, b, j + 1, t);
    }
}

proof fn lemma_ext_title_push(a: Seq<PageNode>, x: PageNode, j: int, t: Seq<char>)
    requires
        0 <= j <= a.len(),
        ext_with_title(a, j, t) is None,
    ensures
        ext_with_title(a.push(x), j, t) == if x.title@ == t {
            Some(a.len() as int)
        } else {
            None
        },
    decreases a.len() - j,
{
    let b = a.push(x);
    if j < a.len() {
        assert(b[j] == a[j]);
        lemma_ext_title_push(a, x, j + 1, t);
    } else {
        assert(b[j] == x);
        if x.title@ != t {
            assert(ext_with_title(b, j + 1, t) is None);
        }
    }
}

/// A target that resolves keeps resolving the same way when the graph
/// grows by external nodes for other titles.
proof fn lemma_resolve_ext(a: Seq<PageNode>, b: Seq<PageNode>, l: int, t: Seq<char>)
    requires
        extends(a, b),
        0 <= l <= a.len(),
        resolve_target(a, l, t) is Some,
    ensures
        resolve_target(b, l, t) == resolve_target(a, l, t),
{
    lemma_last_local_ext(a, b, l, t);
    if last_local(a, l, t) is None {
        lemma_ext_title_ext(a, b, l, t);
    }
}

proof fn lemma_last_local_found(nodes: Seq<PageNode>, l: int, s: Seq<char>)
    requires
        last_local(nodes, l, s) is Some,
    ensures
        0 <= last_local(nodes, l, s).unwrap() < l,
        nodes[last_local(nodes, l, s).unwrap()].slug@ == s,
        last_local(nodes, l, nodes[last_local(nodes, l, s).unwrap()].slug@) == last_local(nodes, l, s),
    decreases l,
{
    if l > 0 && nodes[l - 1].slug@ != s {
        lemma_last_local_found(nodes, l - 1, s);
    }
}

proof fn lemma_last_local_none(nodes: Seq<PageNode>, l: int, s: Seq<char>, i: int)
    requires
        last_local(nodes, l, s) is None,
        0 <= i < l,
    ensures
        nodes[i].slug@ != s,
    decreases l,
{
    if i < l - 1 {
        lemma_last_local_none(nodes, l - 1, s, i);
    }
}

proof fn lemma_ext_title_found(nodes: Seq<PageNode>, j: int, t: Seq<char>)
    requires
        0 <= j,
        ext_with_title(nodes, j, t) is Some,
    ensures
        j <= ext_with_title(nodes, j, t).unwrap() < nodes.len(),
        nodes[ext_with_title(nodes, j, t).unwrap()].title@ == t,
    decreases nodes.len() - j,
{
    if nodes[j].title@ != t {
        lemma_ext_title_found(nodes, j + 1, t);
    }
}

/// Where target `t` leads among the nodes of `g` (`None` when nowhere).
fn lookup_target(g: &WikiGraph, l: usize, t: &[char]) -> (r: Option<usize>)
    requires
        l <= wiki_nodes(*g).len(),
    ensures
        match resolve_target(wiki_nodes(*g), l as int, t@) {
            Some(i) => r == Some(i as usize) && 0 <= i < wiki_nodes(*g).len(),
            None => r is None,
        },
{
    let ghost nodes = wiki_nodes(*g);
    let n = page_count(g);
    let mut i: usize = l;
    while i > 0
        invariant
            nodes == wiki_nodes(*g),
            i <= l <= n,
            n == nodes.len(),
            last_local(nodes, l as int, t@) == last_local(nodes, i as int, t@),
        decreases i,
    {
        if crate::text::seq_eq(&chars_of(page(g, i - 1).slug.as_str()), t) {
            proof {
                lemma_last_local_found(nodes, l as int, t@);
            }
            return Some(i - 1);
        }
        i = i - 1;
    }
    let mut j: usize = l;
    while j < n
        invariant
            nodes == wiki_nodes(*g),
            l <= j <= n,
            n == nodes.len(),
            last_local(nodes, l as int, t@) is None,
            ext_with_title(nodes, l as int, t@) == ext_with_title(nodes, j as int, t@),
        decreases n - j,
    {
        if crate::text::seq_eq(&chars_of(page(g, j).title.as_str()), t) {
            return Some(j);
        }
        j = j + 1;
    }
    None
}

proof fn lemma_sound_ext(
    a: Seq<PageNode>,
    b: Seq<PageNode>,
    local: Seq<DocInfo>,
    rf: Option<Seq<char>>,
    e: (usize, usize, LabeledEdge),
)
    requires
        extends(a, b),
        local.len() <= a.len(),
        edge_sound(a, local, rf, e),
    ensures
        edge_sound(b, local, rf, e),
{
    let l = local.len() as int;
    assert(b[e.0 as int] == a[e.0 as int]) by {
        assert(b.subrange(0, a.len() as int)[e.0 as int] == b[e.0 as int]);
    }
    lemma_last_local_ext(a, b, l, a[e.0 as int].slug@);
    let (p, k) = choose|p: int, k: int|
        0 <= p < l && local[p].slug@ == a[e.0 as int].slug@ && 0 <= k < doc_links(local[p], rf).len()
            && (#[trigger] doc_links(local[p], rf)[k]).0 == e.2.relation@
            && resolve_target(a, l, doc_links(local[p], rf)[k].1) == Some(e.1 as int);
    lemma_resolve_ext(a, b, l, doc_links(local[p], rf)[k].1);
    assert(doc_links(local[p], rf)[k].0 == e.2.relation@);
}

proof fn lemma_realized_ext(
    a: Seq<PageNode>,
    b: Seq<PageNode>,
    ea: Seq<(usize, usize, LabeledEdge)>,
    eb: Seq<(usize, usize, LabeledEdge)>,
    l: int,
    from: int,
    rel: Seq<char>,
    t: Seq<char>,
)
    requires
        extends(a, b),
        extends(ea, eb),
        0 <= l <= a.len(),
        link_realized(a, ea, l, from, rel, t),
        resolve_target(a, l, t) is None ==> resolve_target(b, l, t) is None,
    ensures
        link_realized(b, eb, l, from, rel, t),
{
    if resolve_target(a, l, t) is Some {
        lemma_resolve_ext(a, b, l, t);
        let x = resolve_target(a, l, t).unwrap();
        if x != from {
            let e = choose|e: int|
                0 <= e < ea.len() && (#[trigger] ea[e]).0 == from && ea[e].1 == x && ea[e].2.relation@ == rel;
            assert(eb[e] == ea[e]) by {
                assert(eb.subrange(0, ea.len() as int)[e] == eb[e]);
            }
        }
    }
}

/// Add the link (`rel`, `t`) of the page at node `from`: resolve the
/// target, adding an external node for an unknown `wiki://` URI, and add the
/// edge unless it would be a self-loop or the target is an unknown local slug.
fn add_target(
    g: &mut WikiGraph,
    l: usize,
    from: usize,
    rel: &[char],
    t: &[char],
    Ghost(local): Ghost<Seq<DocInfo>>,
    Ghost(rf): Ghost<Option<Seq<char>>>,
    Ghost(p): Ghost<int>,
    Ghost(k): Ghost<int>,
)
    requires
        l == local.len(),
        nodes_ok(wiki_nodes(*old(g)), local),
        forall|e: int| 0 <= e < wiki_edges(*old(g)).len() ==> edge_sound(wiki_nodes(*old(g)), local, rf, #[trigger] wiki_edges(*old(g))[e]),
        0 <= p < l,
        0 <= k < doc_links(local[p], rf).len(),
        doc_links(local[p], rf)[k] == (rel@, t@),
        last_local(wiki_nodes(*old(g)), l as int, local[p].slug@) == Some(from as int),
        wiki_nodes(*old(g)).len() < index_limit(),
        wiki_edges(*old(g)).len() < index_limit(),
    ensures
        nodes_ok(wiki_nodes(*final(g)), local),
        extends(wiki_nodes(*old(g)), wiki_nodes(*final(g))),
        wiki_nodes(*final(g)).len() <= wiki_nodes(*old(g)).len() + 1,
        extends(wiki_edges(*old(g)), wiki_edges(*final(g))),
        wiki_edges(*final(g)).len() <= wiki_edges(*old(g)).len() + 1,
        forall|e: int| 0 <= e < wiki_edges(*final(g)).len() ==> edge_sound(wiki_nodes(*final(g)), local, rf, #[trigger] wiki_edges(*final(g))[e]),
        link_realized(wiki_nodes(*final(g)), wiki_edges(*final(g)), l as int, from as int, rel@, t@),
        forall|f: int, r2: Seq<char>, t2: Seq<char>|
            #[trigger] link_realized(wiki_nodes(*old(g)), wiki_edges(*old(g)), l as int, f, r2, t2) ==> link_realized(
                wiki_nodes(*final(g)),
                wiki_edges(*final(g)),
                l as int,
                f,
                r2,
                t2,
            ),
        page_views(wiki_nodes(*final(g))) == link_step(
            (page_views(wiki_nodes(*old(g))), link_views(wiki_edges(*old(g)))),
            l as int,
            from as nat,
            rel@,
            t@,
        ).0,
        link_views(wiki_edges(*final(g))) == link_step(
            (page_views(wiki_nodes(*old(g))), link_views(wiki_edges(*old(g)))),
            l as int,
            from as nat,
            rel@,
            t@,
        ).1,
{
    proof {
        reveal_strlit("wiki://");
        lemma_last_local_found(wiki_nodes(*old(g)), l as int, local[p].slug@);
    }
    let ghost n0 = wiki_nodes(*old(g));
    let ghost e0 = wiki_edges(*old(g));
    proof {
        lemma_resolve_views(n0, l as int, t@);
    }
    let to: Option<usize> = match lookup_target(g, l, t) {
        Some(i) => Some(i),
        None => {
            if starts_with_str(t, "wiki://") {
                let ts = string_of(t);
                let slug = match ParsedLink::parse(ts.as_str()) {
                    ParsedLink::CrossWiki { wiki, slug } => slug,
                    ParsedLink::Local(x) => x,
                };
                let node = PageNode {
                    slug,
                    title: string_of(t),
                    page_type: string_of(&chars_of("external")),
                    external: true,
                };
                let i = add_page(g, node);
                proof {
                    let n1 = wiki_nodes(*g);
                    assert(n1 == n0.push(node));
                    assert(extends(n0, n1)) by {
                        assert(n1.subrange(0, n0.len() as int) == n0);
                    }
                    lemma_last_local_ext(n0, n1, l as int, t@);
                    lemma_ext_title_push(n0, node, l as int, t@);
                    assert forall|j: int| l <= j < n1.len() implies {
                        &&& (#[trigger] n1[j]).external
                        &&& n1[j].page_type@ == "external"@
                        &&& starts_with(n1[j].title@, "wiki://"@)
                        &&& n1[j].slug@ == external_slug(n1[j].title@)
                        &&& last_local(n1, l as int, n1[j].title@) is None
                        &&& ext_with_title(n1, l as int, n1[j].title@) == Some(j)
                    } by {
                        if j < n0.len() {
                            assert(n1[j] == n0[j]);
                            lemma_last_local_ext(n0, n1, l as int, n0[j].title@);
                            lemma_ext_title_ext(n0, n1, l as int, n0[j].title@);
                        }
                    }
                    assert forall|j: int| 0 <= j < l implies #[trigger] n1[j] == n0[j] by {}
                    assert(page_view(node) == (external_slug(t@), t@, "external"@, true));
                    assert(page_views(n1) =~= page_views(n0).push(page_view(node)));
                }
                Some(i)
            } else {
                None
            }
        },
    };
    let ghost n1 = wiki_nodes(*g);
    proof {
        if n1 == n0 {
            assert(n1.subrange(0, n0.len() as int) == n0);
        }
        assert(extends(n0, n1));
        assert forall|e: int| 0 <= e < e0.len() implies edge_sound(n1, local, rf, #[trigger] e0[e]) by {
            lemma_sound_ext(n0, n1, local, rf, e0[e]);
        }
        lemma_last_local_ext(n0, n1, l as int, local[p].slug@);
    }
    match to {
        Some(b) => {
            if b != from {
                let edge = LabeledEdge { relation: string_of(rel) };
                add_link(g, from, b, edge);
                proof {
                    let e1 = wiki_edges(*g);
                    assert(e1 == e0.push((from, b, edge)));
                    assert(extends(e0, e1)) by {
                        assert(e1.subrange(0, e0.len() as int) == e0);
                    }
                    assert(edge_sound(n1, local, rf, e1[e0.len() as int])) by {
                        assert(doc_links(local[p], rf)[k].0 == edge.relation@);
                    }
                    assert(e1[e0.len() as int].0 == from);
                    assert(link_views(e1) =~= link_views(e0).push((from as nat, b as nat, rel@)));
                }
            } else {
                assert(wiki_edges(*g).subrange(0, e0.len() as int) == e0);
            }
        },
        None => {
            assert(wiki_edges(*g).subrange(0, e0.len() as int) == e0);
        },
    }
    proof {
        let st = link_step((page_views(n0), link_views(e0)), l as int, from as nat, rel@, t@);
        assert(page_views(wiki_nodes(*g)) == st.0);
        assert(link_views(wiki_edges(*g)) == st.1);
    }
    proof {
        let n2 = wiki_nodes(*g);
        let e2 = wiki_edges(*g);
        assert forall|f: int, r2: Seq<char>, t2: Seq<char>|
            #[trigger] link_realized(n0, e0, l as int, f, r2, t2) implies link_realized(n2, e2, l as int, f, r2, t2) by {
            if resolve_target(n0, l as int, t2) is None && resolve_target(n2, l as int, t2) is Some {
                lemma_last_local_ext(n0, n2, l as int, t2);
                if n2.len() > n0.len() {
                    lemma_ext_title_push(n0, n2[n0.len() as int], l as int, t2);
                    assert(n2 == n0.push(n2[n0.len() as int]));
                } else {
                    assert(n2 == n0);
                }
            }
            lemma_realized_ext(n0, n2, e0, e2, l as int, f, r2, t2);
        }
    }
}

/// The text of an optional `String`.
pub open spec fn opt_string(o: Option<String>) -> Option<Seq<char>> {
    match o {
        Some(s) => Some(s@),
        None => None,
    }
}

proof fn lemma_fields_count_prefix(fields: Seq<(String, Vec<String>)>, j: int)
    requires
        0 <= j <= fields.len(),
    ensures
        fields_count(fields.subrange(0, j)) <= fields_count(fields),
    decreases fields.len() - j,
{
    if j < fields.len() {
        lemma_fields_count_prefix(fields, j + 1);
        assert(fields.subrange(0, j + 1).drop_last() == fields.subrange(0, j));
    } else {
        assert(fields.subrange(0, j) == fields);
    }
}

proof fn lemma_link_total_prefix(docs: Seq<DocInfo>, j: int)
    requires
        0 <= j <= docs.len(),
    ensures
        link_total(docs.subrange(0, j)) <= link_total(docs),
    decreases docs.len() - j,
{
    if j < docs.len() {
        lemma_link_total_prefix(docs, j + 1);
        assert(docs.subrange(0, j + 1).drop_last() == docs.subrange(0, j));
    } else {
        assert(docs.subrange(0, j) == docs);
    }
}

proof fn lemma_local_docs_total(docs: Seq<DocInfo>, types: Seq<Seq<char>>)
    ensures
        local_docs(docs, types).len() <= docs.len(),
        link_total(local_docs(docs, types)) <= link_total(docs),
    decreases docs.len(),
{
    if docs.len() > 0 {
        lemma_local_docs_total(docs.drop_last(), types);
        let p = local_docs(docs.drop_last(), types);
        if type_ok(types, docs.last()) {
            assert(p.push(docs.last()).drop_last() == p);
        }
    }
}

/// Whether the page passes the type filter.
fn type_passes(types: &Vec<String>, d: &DocInfo) -> (r: bool)
    ensures
        r == type_ok(texts(types@), *d),
{
    types.len() == 0 || crate::links::contains_text(types, &chars_of(d.page_type.as_str()))
}

/// Whether the relation passes the relation filter.
fn relation_passes(filter: &GraphFilter, rel: &[char]) -> (r: bool)
    ensures
        r == rel_ok(opt_string(filter.relation), rel@),
{
    match &filter.relation {
        None => true,
        Some(f) => crate::text::seq_eq(&chars_of(f.as_str()), rel),
    }
}

/// Add a node for each page that passes the type filter, in order.
fn add_local_pages(docs: &Vec<DocInfo>, filter: &GraphFilter) -> (r: (WikiGraph, Vec<usize>))
    requires
        docs@.len() < index_limit(),
    ensures
        nodes_ok(wiki_nodes(r.0), local_docs(docs@, texts(filter.types@))),
        wiki_nodes(r.0).len() == local_docs(docs@, texts(filter.types@)).len(),
        wiki_edges(r.0).len() == 0,
        r.1@.len() == wiki_nodes(r.0).len(),
        forall|q: int| 0 <= q < r.1@.len() ==> #[trigger] r.1@[q] < docs@.len()
            && docs@[r.1@[q] as int] == local_docs(docs@, texts(filter.types@))[q],
{
    let ghost types = texts(filter.types@);
    let mut g = wiki_graph_new();
    let mut lidx: Vec<usize> = Vec::new();
    let mut i: usize = 0;
    while i < docs.len()
        invariant
            types == texts(filter.types@),
            i <= docs@.len(),
            docs@.len() < index_limit(),
            wiki_edges(g).len() == 0,
            wiki_nodes(g).len() == local_docs(docs@.subrange(0, i as int), types).len(),
            wiki_nodes(g).len() <= i,
            nodes_ok(wiki_nodes(g), local_docs(docs@.subrange(0, i as int), types)),
            wiki_nodes(g).len() == local_docs(docs@.subrange(0, i as int), types).len(),
            lidx@.len() == wiki_nodes(g).len(),
            forall|q: int| 0 <= q < lidx@.len() ==> #[trigger] lidx@[q] < i
                && docs@[lidx@[q] as int] == local_docs(docs@.subrange(0, i as int), types)[q],
        decreases docs.len() - i,
    {
        let d = &docs[i];
        let ghost pre = local_docs(docs@.subrange(0, i as int), types);
        assert(docs@.subrange(0, i + 1).drop_last() == docs@.subrange(0, i as int));
        assert(docs@.subrange(0, i + 1).last() == *d);
        if type_passes(&filter.types, d) {
            let node = PageNode {
                slug: d.slug.clone(),
                title: d.title.clone(),
                page_type: d.page_type.clone(),
                external: false,
            };
            let ghost n0 = wiki_nodes(g);
            add_page(&mut g, node);
            lidx.push(i);
            proof {
                let post = pre.push(*d);
                let n1 = wiki_nodes(g);
                assert(n1 == n0.push(node));
                assert forall|q: int| 0 <= q < post.len() implies {
                    &&& (#[trigger] n1[q]).slug@ == post[q].slug@
                    &&& n1[q].title@ == post[q].title@
                    &&& n1[q].page_type@ == post[q].page_type@
                    &&& !n1[q].external
                } by {
                    if q < pre.len() {
                        assert(n1[q] == n0[q]);
                    }
                }
                assert forall|q: int| 0 <= q < lidx@.len() implies #[trigger] lidx@[q] < i + 1
                    && docs@[lidx@[q] as int] == post[q] by {}
            }
        }
        i = i + 1;
    }
    assert(docs@.subrange(0, docs@.len() as int) == docs@);
    (g, lidx)
}

proof fn lemma_field_links_prefix(fields: Seq<(String, Vec<String>)>, j: int, rf: Option<Seq<char>>)
    requires
        0 <= j <= fields.len(),
    ensures
        field_links(fields.subrange(0, j), rf).len() <= field_links(fields, rf).len(),
        field_links(fields, rf).subrange(0, field_links(fields.subrange(0, j), rf).len() as int)
            == field_links(fields.subrange(0, j), rf),
    decreases fields.len() - j,
{
    if j < fields.len() {
        lemma_field_links_prefix(fields, j + 1, rf);
        let a = fields.subrange(0, j);
        let b = fields.subrange(0, j + 1);
        assert(b.drop_last() == a);
        let fa = field_links(a, rf);
        let fb = field_links(b, rf);
        assert(fb.subrange(0, fa.len() as int) == fa);
        let all = field_links(fields, rf);
        assert(all.subrange(0, fb.len() as int).subrange(0, fa.len() as int) == all.subrange(0, fa.len() as int));
    } else {
        assert(fields.subrange(0, j) == fields);
    }
}

/// Add the links of the page `d` (the `p`-th local page, at node `from`).
#[verifier::rlimit(80)]
fn add_doc_links(
    g: &mut WikiGraph,
    d: &DocInfo,
    filter: &GraphFilter,
    l: usize,
    from: usize,
    Ghost(local): Ghost<Seq<DocInfo>>,
    Ghost(p): Ghost<int>,
)
    requires
        l == local.len(),
        0 <= p < l,
        *d == local[p],
        nodes_ok(wiki_nodes(*old(g)), local),
        forall|e: int| 0 <= e < wiki_edges(*old(g)).len() ==> edge_sound(wiki_nodes(*old(g)), local, opt_string(filter.relation), #[trigger] wiki_edges(*old(g))[e]),
        last_local(wiki_nodes(*old(g)), l as int, local[p].slug@) == Some(from as int),
        wiki_nodes(*old(g)).len() + fields_count(d.edge_fields@) + d.body_links@.len() < index_limit(),
        wiki_edges(*old(g)).len() + fields_count(d.edge_fields@) + d.body_links@.len() < index_limit(),
    ensures
        nodes_ok(wiki_nodes(*final(g)), local),
        extends(wiki_nodes(*old(g)), wiki_nodes(*final(g))),
        extends(wiki_edges(*old(g)), wiki_edges(*final(g))),
        wiki_nodes(*final(g)).len() <= wiki_nodes(*old(g)).len() + fields_count(d.edge_fields@) + d.body_links@.len(),
        wiki_edges(*final(g)).len() <= wiki_edges(*old(g)).len() + fields_count(d.edge_fields@) + d.body_links@.len(),
        forall|e: int| 0 <= e < wiki_edges(*final(g)).len() ==> edge_sound(wiki_nodes(*final(g)), local, opt_string(filter.relation), #[trigger] wiki_edges(*final(g))[e]),
        last_local(wiki_nodes(*final(g)), l as int, local[p].slug@) == Some(from as int),
        forall|k: int| 0 <= k < doc_links(local[p], opt_string(filter.relation)).len() ==> link_realized(
            wiki_nodes(*final(g)),
            wiki_edges(*final(g)),
            l as int,
            from as int,
            (#[trigger] doc_links(local[p], opt_string(filter.relation))[k]).0,
            doc_links(local[p], opt_string(filter.relation))[k].1,
        ),
        forall|f: int, r2: Seq<char>, t2: Seq<char>|
            #[trigger] link_realized(wiki_nodes(*old(g)), wiki_edges(*old(g)), l as int, f, r2, t2) ==> link_realized(
                wiki_nodes(*final(g)),
                wiki_edges(*final(g)),
                l as int,
                f,
                r2,
                t2,
            ),
        page_views(wiki_nodes(*final(g))) == links_fold(
            (page_views(wiki_nodes(*old(g))), link_views(wiki_edges(*old(g)))),
            l as int,
            from as nat,
            doc_links(local[p], opt_string(filter.relation)),
        ).0,
        link_views(wiki_edges(*final(g))) == links_fold(
            (page_views(wiki_nodes(*old(g))), link_views(wiki_edges(*old(g)))),
            l as int,
            from as nat,
            doc_links(local[p], opt_string(filter.relation)),
        ).1,
{
    let ghost rf = opt_string(filter.relation);
    let ghost n0 = wiki_nodes(*g);
    let ghost e0 = wiki_edges(*g);
    let ghost dl = doc_links(local[p], rf);
    let ghost fl = field_links(d.edge_fields@, rf);
    let ghost st0 = (page_views(n0), link_views(e0));
    let fields = &d.edge_fields;
    assert(n0.subrange(0, n0.len() as int) == n0);
    assert(e0.subrange(0, e0.len() as int) == e0);
    proof {
        lemma_field_links_prefix(fields@, fields@.len() as int, rf);
        assert(fields@.subrange(0, fields@.len() as int) == fields@);
        assert(dl.subrange(0, fl.len() as int) == fl);
    }
    proof {
        assert(fields@.subrange(0, 0) =~= Seq::<(String, Vec<String>)>::empty());
        assert(dl.subrange(0, 0) =~= Seq::<(Seq<char>, Seq<char>)>::empty());
        assert(page_views(wiki_nodes(*g)) == links_fold(st0, l as int, from as nat, dl.subrange(0, 0)).0);
    }
    let mut j: usize = 0;
    while j < fields.len()
        invariant
            l == local.len(),
            0 <= p < l,
            *d == local[p],
            fields == &d.edge_fields,
            rf == opt_string(filter.relation),
            dl == doc_links(local[p], rf),
            fl == field_links(fields@, rf),
            dl.subrange(0, fl.len() as int) == fl,
            fl.len() <= dl.len(),
            j <= fields@.len(),
            nodes_ok(wiki_nodes(*g), local),
            extends(n0, wiki_nodes(*g)),
            extends(e0, wiki_edges(*g)),
            n0.len() + fields_count(fields@) + d.body_links@.len() < index_limit(),
            e0.len() + fields_count(fields@) + d.body_links@.len() < index_limit(),
            wiki_nodes(*g).len() <= n0.len() + fields_count(fields@.subrange(0, j as int)),
            wiki_edges(*g).len() <= e0.len() + fields_count(fields@.subrange(0, j as int)),
            st0 == (page_views(n0), link_views(e0)),
            field_links(fields@.subrange(0, j as int), rf).len() <= dl.len(),
            page_views(wiki_nodes(*g)) == links_fold(st0, l as int, from as nat, dl.subrange(0, field_links(fields@.subrange(0, j as int), rf).len() as int)).0,
            link_views(wiki_edges(*g)) == links_fold(st0, l as int, from as nat, dl.subrange(0, field_links(fields@.subrange(0, j as int), rf).len() as int)).1,
            forall|e: int| 0 <= e < wiki_edges(*g).len() ==> edge_sound(wiki_nodes(*g), local, rf, #[trigger] wiki_edges(*g)[e]),
            last_local(wiki_nodes(*g), l as int, local[p].slug@) == Some(from as int),
            forall|k: int| 0 <= k < field_links(fields@.subrange(0, j as int), rf).len() ==> link_realized(
                wiki_nodes(*g),
                wiki_edges(*g),
                l as int,
                from as int,
                (#[trigger] dl[k]).0,
                dl[k].1,
            ),
            forall|f: int, r2: Seq<char>, t2: Seq<char>|
                #[trigger] link_realized(n0, e0, l as int, f, r2, t2) ==> link_realized(
                    wiki_nodes(*g),
                    wiki_edges(*g),
                    l as int,
                    f,
                    r2,
                    t2,
                ),
        decreases fields.len() - j,
    {
        let rel = chars_of(fields[j].0.as_str());
        let ok = relation_passes(filter, &rel);
        let targets = &fields[j].1;
        let ghost flj = field_links(fields@.subrange(0, j as int), rf);
        let ghost flj1 = field_links(fields@.subrange(0, j + 1), rf);
        proof {
            assert(fields@.subrange(0, j + 1).drop_last() == fields@.subrange(0, j as int));
            assert(fields@.subrange(0, j + 1).last() == fields@[j as int]);
            lemma_field_links_prefix(fields@, j + 1, rf);
            lemma_fields_count_prefix(fields@, j + 1);
            assert(flj1.len() <= fl.len());
            assert(dl.subrange(0, flj1.len() as int) == flj1) by {
                assert(dl.subrange(0, flj1.len() as int) == dl.subrange(0, fl.len() as int).subrange(0, flj1.len() as int));
            }
        }
        let mut q: usize = 0;
        while q < targets.len()
            invariant
                l == local.len(),
                0 <= p < l,
                *d == local[p],
                fields == &d.edge_fields,
                rf == opt_string(filter.relation),
                dl == doc_links(local[p], rf),
                j < fields@.len(),
                targets == &fields@[j as int].1,
                rel@ == fields@[j as int].0@,
                ok == rel_ok(rf, rel@),
                flj == field_links(fields@.subrange(0, j as int), rf),
                flj1 == field_links(fields@.subrange(0, j + 1), rf),
                flj1 == flj + if ok { texts(targets@).map_values(|t: Seq<char>| (rel@, t)) } else { seq![] },
                dl.subrange(0, flj1.len() as int) == flj1,
                flj1.len() <= dl.len(),
                q <= targets@.len(),
                nodes_ok(wiki_nodes(*g), local),
                extends(n0, wiki_nodes(*g)),
                extends(e0, wiki_edges(*g)),
                fields_count(fields@.subrange(0, j + 1)) <= fields_count(fields@),
                n0.len() + fields_count(fields@) + d.body_links@.len() < index_limit(),
                e0.len() + fields_count(fields@) + d.body_links@.len() < index_limit(),
                wiki_nodes(*g).len() <= n0.len() + fields_count(fields@.subrange(0, j as int)) + q,
                wiki_edges(*g).len() <= e0.len() + fields_count(fields@.subrange(0, j as int)) + q,
                fields_count(fields@.subrange(0, j + 1)) == fields_count(fields@.subrange(0, j as int)) + targets@.len(),
                st0 == (page_views(n0), link_views(e0)),
                flj.len() + (if ok { q as int } else { 0 }) <= dl.len(),
                page_views(wiki_nodes(*g)) == links_fold(st0, l as int, from as nat, dl.subrange(0, flj.len() + (if ok { q as int } else { 0 }))).0,
                link_views(wiki_edges(*g)) == links_fold(st0, l as int, from as nat, dl.subrange(0, flj.len() + (if ok { q as int } else { 0 }))).1,
                forall|e: int| 0 <= e < wiki_edges(*g).len() ==> edge_sound(wiki_nodes(*g), local, rf, #[trigger] wiki_edges(*g)[e]),
                last_local(wiki_nodes(*g), l as int, local[p].slug@) == Some(from as int),
                forall|k: int| 0 <= k < flj.len() + (if ok { q as int } else { 0 }) ==> link_realized(
                    wiki_nodes(*g),
                    wiki_edges(*g),
                    l as int,
                    from as int,
                    (#[trigger] dl[k]).0,
                    dl[k].1,
                ),
                forall|f: int, r2: Seq<char>, t2: Seq<char>|
                    #[trigger] link_realized(n0, e0, l as int, f, r2, t2) ==> link_realized(
                        wiki_nodes(*g),
                        wiki_edges(*g),
                        l as int,
                        f,
                        r2,
                        t2,
                    ),
            decreases targets.len() - q,
        {
            if ok {
                let t = chars_of(targets[q].as_str());
                let ghost k = flj.len() + q;
                proof {
                    assert(k < flj1.len());
                    assert(flj1[k] == (rel@, t@));
                    assert(dl.subrange(0, flj1.len() as int)[k] == dl[k]);
                    assert(dl[k] == flj1[k]);
                }
                let ghost g_before_n = wiki_nodes(*g);
                let ghost g_before_e = wiki_edges(*g);
                add_target(g, l, from, &rel, &t, Ghost(local), Ghost(rf), Ghost(p), Ghost(k));
                proof {
                    let n1 = wiki_nodes(*g);
                    let e1 = wiki_edges(*g);
                    assert(dl.subrange(0, k + 1).drop_last() =~= dl.subrange(0, k));
                    assert(dl.subrange(0, k + 1).last() == dl[k]);
                    lemma_last_local_ext(g_before_n, n1, l as int, local[p].slug@);
                    assert(extends(n0, n1)) by {
                        assert(n1.subrange(0, n0.len() as int) == n1.subrange(0, g_before_n.len() as int).subrange(0, n0.len() as int));
                    }
                    assert(extends(e0, e1)) by {
                        assert(e1.subrange(0, e0.len() as int) == e1.subrange(0, g_before_e.len() as int).subrange(0, e0.len() as int));
                    }
                    assert forall|kk: int| 0 <= kk < flj.len() + q + 1 implies link_realized(
                        n1,
                        e1,
                        l as int,
                        from as int,
                        (#[trigger] dl[kk]).0,
                        dl[kk].1,
                    ) by {
                        if kk < flj.len() + q {
                            assert(link_realized(g_before_n, g_before_e, l as int, from as int, dl[kk].0, dl[kk].1));
                        }
                    }
                }
            }
            q = q + 1;
        }
        proof {
            assert(flj1.len() == flj.len() + (if ok { targets@.len() as int } else { 0 }));
        }
        j = j + 1;
    }
    assert(fields@.subrange(0, fields@.len() as int) == fields@);
    let lt = chars_of("links-to");
    let ok = relation_passes(filter, &lt);
    let body = &d.body_links;
    proof {
        assert(dl == fl + if ok { texts(body@).map_values(|t: Seq<char>| ("links-to"@, t)) } else { seq![] });
    }
    let mut q: usize = 0;
    while q < body.len()
        invariant
            l == local.len(),
            0 <= p < l,
            *d == local[p],
            body == &d.body_links,
            rf == opt_string(filter.relation),
            dl == doc_links(local[p], rf),
            fl == field_links(d.edge_fields@, rf),
            lt@ == "links-to"@,
            ok == rel_ok(rf, lt@),
            dl == fl + if ok { texts(body@).map_values(|t: Seq<char>| ("links-to"@, t)) } else { seq![] },
            q <= body@.len(),
            nodes_ok(wiki_nodes(*g), local),
            extends(n0, wiki_nodes(*g)),
            extends(e0, wiki_edges(*g)),
            n0.len() + fields_count(d.edge_fields@) + body@.len() < index_limit(),
            e0.len() + fields_count(d.edge_fields@) + body@.len() < index_limit(),
            wiki_nodes(*g).len() <= n0.len() + fields_count(d.edge_fields@) + q,
            wiki_edges(*g).len() <= e0.len() + fields_count(d.edge_fields@) + q,
            st0 == (page_views(n0), link_views(e0)),
            fl.len() + (if ok { q as int } else { 0 }) <= dl.len(),
            page_views(wiki_nodes(*g)) == links_fold(st0, l as int, from as nat, dl.subrange(0, fl.len() + (if ok { q as int } else { 0 }))).0,
            link_views(wiki_edges(*g)) == links_fold(st0, l as int, from as nat, dl.subrange(0, fl.len() + (if ok { q as int } else { 0 }))).1,
            forall|e: int| 0 <= e < wiki_edges(*g).len() ==> edge_sound(wiki_nodes(*g), local, rf, #[trigger] wiki_edges(*g)[e]),
            last_local(wiki_nodes(*g), l as int, local[p].slug@) == Some(from as int),
            forall|k: int| 0 <= k < fl.len() + (if ok { q as int } else { 0 }) ==> link_realized(
                wiki_nodes(*g),
                wiki_edges(*g),
                l as int,
                from as int,
                (#[trigger] dl[k]).0,
                dl[k].1,
            ),
            forall|f: int, r2: Seq<char>, t2: Seq<char>|
                #[trigger] link_realized(n0, e0, l as int, f, r2, t2) ==> link_realized(
                    wiki_nodes(*g),
                    wiki_edges(*g),
                    l as int,
                    f,
                    r2,
                    t2,
                ),
        decreases body.len() - q,
    {
        if ok {
            let t = chars_of(body[q].as_str());
            let ghost k = fl.len() + q;
            proof {
                assert(dl[k] == (lt@, t@));
            }
            let ghost g_before_n = wiki_nodes(*g);
            let ghost g_before_e = wiki_edges(*g);
            add_target(g, l, from, &lt, &t, Ghost(local), Ghost(rf), Ghost(p), Ghost(k));
            proof {
                let n1 = wiki_nodes(*g);
                let e1 = wiki_edges(*g);
                assert(dl.subrange(0, k + 1).drop_last() =~= dl.subrange(0, k));
                assert(dl.subrange(0, k + 1).last() == dl[k]);
                lemma_last_local_ext(g_before_n, n1, l as int, local[p].slug@);
                assert(extends(n0, n1)) by {
                    assert(n1.subrange(0, n0.len() as int) == n1.subrange(0, g_before_n.len() as int).subrange(0, n0.len() as int));
                }
                assert(extends(e0, e1)) by {
                    assert(e1.subrange(0, e0.len() as int) == e1.subrange(0, g_before_e.len() as int).subrange(0, e0.len() as int));
                }
                assert forall|kk: int| 0 <= kk < fl.len() + q + 1 implies link_realized(
                    n1,
                    e1,
                    l as int,
                    from as int,
                    (#[trigger] dl[kk]).0,
                    dl[kk].1,
                ) by {
                    if kk < fl.len() + q {
                        assert(link_realized(g_before_n, g_before_e, l as int, from as int, dl[kk].0, dl[kk].1));
                    }
                }
            }
        }
        q = q + 1;
    }
    proof {
        assert(dl.subrange(0, dl.len() as int) =~= dl);
    }
}

proof fn lemma_last_local_some(nodes: Seq<PageNode>, l: int, s: Seq<char>, i: int)
    requires
        0 <= i < l,
        nodes[i].slug@ == s,
    ensures
        last_local(nodes, l, s) is Some,
    decreases l,
{
    if nodes[l - 1].slug@ != s {
        lemma_last_local_some(nodes, l - 1, s, i);
    }
}

/// The subgraph depth of a filter: 3 unless given.
pub open spec fn depth_or_default(d: Option<usize>) -> nat {
    match d {
        Some(x) => x as nat,
        None => 3,
    }
}

/// (`nodes`, `edges`) is the concept graph of `docs` under `filter`: no
/// larger than the pages and their links; without a root, the graph that
/// `graph_spec` builds from the pages (which is `built`); with a root, the
/// part of that graph within the depth of the first node with the root
/// slug (empty when there is none).
pub open spec fn graph_of(
    docs: Seq<DocInfo>,
    filter: GraphFilter,
    nodes: Seq<PageNode>,
    edges: Seq<(usize, usize, LabeledEdge)>,
) -> bool {
    &&& nodes.len() <= docs.len() + link_total(docs)
    &&& edges.len() <= link_total(docs)
    &&& filter.root is None ==> built(nodes, edges, docs, texts(filter.types@), opt_string(filter.relation))
    &&& filter.root is None ==> page_views(nodes) == graph_spec(docs, texts(filter.types@), opt_string(filter.relation)).0
        && link_views(edges) == graph_spec(docs, texts(filter.types@), opt_string(filter.relation)).1
    &&& filter.root matches Some(root) ==> exists|n: Seq<PageNode>, e: Seq<(usize, usize, LabeledEdge)>|
        #[trigger] built(n, e, docs, texts(filter.types@), opt_string(filter.relation))
            && page_views(n) == graph_spec(docs, texts(filter.types@), opt_string(filter.relation)).0
            && link_views(e) == graph_spec(docs, texts(filter.types@), opt_string(filter.relation)).1
            && match first_slug(
            n,
            root@,
            0,
        ) {
            None => nodes.len() == 0 && edges.len() == 0,
            Some(r) => is_subgraph(nodes, edges, n, e, r, depth_or_default(filter.depth)),
        }
}

/// Build the concept graph of the indexed pages. The pages that pass the
/// type filter become nodes, in order; each of their links (declared edge
/// fields with their relation, then body links as `links-to`, those that
/// pass the relation filter) becomes an edge to the last page with the
/// target slug, or to an external node for a `wiki://` URI that no page has
/// as slug; links to unknown local slugs and self-links are dropped. With a
/// root, the result is the part of that graph within `depth` (default 3)
/// hops of the root.
#[verifier::rlimit(40)]
pub fn build_graph(docs: &Vec<DocInfo>, filter: &GraphFilter) -> (g: WikiGraph)
    requires
        docs@.len() + link_total(docs@) < index_limit(),
    ensures
        graph_of(docs@, *filter, wiki_nodes(g), wiki_edges(g)),
{
    let ghost types = texts(filter.types@);
    let ghost rf = opt_string(filter.relation);
    let ghost local = local_docs(docs@, types);
    proof {
        lemma_local_docs_total(docs@, types);
    }
    let (mut g, lidx) = add_local_pages(docs, filter);
    let l = lidx.len();
    let ghost n0 = wiki_nodes(g);
    proof {
        assert(page_views(n0) =~= local_views(local)) by {
            assert forall|i: int| 0 <= i < n0.len() implies #[trigger] page_views(n0)[i] == local_views(local)[i] by {
                assert(n0[i].slug@ == local[i].slug@);
            }
        }
        assert(link_views(wiki_edges(g)) =~= Seq::<(nat, nat, Seq<char>)>::empty());
    }
    let mut p: usize = 0;
    while p < l
        invariant
            l == local.len(),
            l <= docs@.len(),
            local == local_docs(docs@, types),
            types == texts(filter.types@),
            rf == opt_string(filter.relation),
            lidx@.len() == l,
            forall|q: int| 0 <= q < l ==> #[trigger] lidx@[q] < docs@.len() && docs@[lidx@[q] as int] == local[q],
            docs@.len() + link_total(docs@) < index_limit(),
            link_total(local) <= link_total(docs@),
            p <= l,
            nodes_ok(wiki_nodes(g), local),
            wiki_nodes(g).len() <= l + link_total(local.subrange(0, p as int)),
            page_views(wiki_nodes(g)) == docs_fold(local, rf, p as int).0,
            link_views(wiki_edges(g)) == docs_fold(local, rf, p as int).1,
            wiki_edges(g).len() <= link_total(local.subrange(0, p as int)),
            forall|e: int| 0 <= e < wiki_edges(g).len() ==> edge_sound(wiki_nodes(g), local, rf, #[trigger] wiki_edges(g)[e]),
            forall|pp: int, k: int|
                0 <= pp < p && 0 <= k < doc_links(local[pp], rf).len() ==> link_realized(
                    wiki_nodes(g),
                    wiki_edges(g),
                    l as int,
                    last_local(wiki_nodes(g), l as int, local[pp].slug@).unwrap(),
                    (#[trigger] doc_links(local[pp], rf)[k]).0,
                    doc_links(local[pp], rf)[k].1,
                ),
        decreases l - p,
    {
        let d = &docs[lidx[p]];
        let slug = chars_of(d.slug.as_str());
        proof {
            assert(wiki_nodes(g)[p as int].slug@ == local[p as int].slug@);
            lemma_last_local_some(wiki_nodes(g), l as int, local[p as int].slug@, p as int);
            lemma_link_total_prefix(local, p + 1);
            assert(local.subrange(0, p + 1).drop_last() == local.subrange(0, p as int));
            assert(local.subrange(0, p + 1).last() == local[p as int]);
        }
        let from = match lookup_target(&g, l, &slug) {
            Some(f) => f,
            None => {
                proof {
                    assert(false);
                }
                0
            },
        };
        let ghost nb = wiki_nodes(g);
        let ghost eb = wiki_edges(g);
        proof {
            lemma_last_local_views(nb, l as int, local[p as int].slug@);
            assert forall|i: int| 0 <= i < l implies page_views(nb)[i] == local_views(local)[i] by {
                assert(nb[i].slug@ == local[i].slug@);
            }
            lemma_last_local_v_prefix(page_views(nb), local_views(local), l as int, local[p as int].slug@);
        }
        add_doc_links(&mut g, d, filter, l, from, Ghost(local), Ghost(p as int));
        proof {
            let n1 = wiki_nodes(g);
            let e1 = wiki_edges(g);
            assert forall|pp: int, k: int|
                0 <= pp < p + 1 && 0 <= k < doc_links(local[pp], rf).len() implies link_realized(
                    n1,
                    e1,
                    l as int,
                    last_local(n1, l as int, local[pp].slug@).unwrap(),
                    (#[trigger] doc_links(local[pp], rf)[k]).0,
                    doc_links(local[pp], rf)[k].1,
                ) by {
                lemma_last_local_ext(nb, n1, l as int, local[pp].slug@);
                if pp < p {
                    assert(link_realized(
                        nb,
                        eb,
                        l as int,
                        last_local(nb, l as int, local[pp].slug@).unwrap(),
                        doc_links(local[pp], rf)[k].0,
                        doc_links(local[pp], rf)[k].1,
                    ));
                }
            }
        }
        p = p + 1;
    }
    match &filter.root {
        Some(root) => {
            let depth: usize = match filter.depth {
                Some(x) => x,
                None => 3,
            };
            let ghost n = wiki_nodes(g);
            let ghost e = wiki_edges(g);
            assert(built(n, e, docs@, types, rf));
            let sub = subgraph(&g, root.as_str(), depth);
            proof {
                assert(local.subrange(0, l as int) == local);
                match first_slug(n, root@, 0) {
                    Some(r) => {
                        lemma_kept_len(n.len(), e, r, depth as nat);
                        lemma_kept_edges_len(e, e, r, depth as nat);
                    },
                    None => {},
                }
            }
            sub
        },
        None => {
            assert(local.subrange(0, l as int) == local);
            g
        },
    }
}

// ── Markdown wrapping ─────────────────────────────────────────────────────────

/// The `types:` value of a graph page: `[]`, or the types joined with `, `
/// in brackets.
pub open spec fn types_field(types: Seq<Seq<char>>) -> Seq<char> {
    if types.len() == 0 {
        "[]"@
    } else {
        "["@ + crate::text::join(types, ", "@) + "]"@
    }
}

/// A rendered graph as a markdown page: frontmatter that records how it was
/// made (generated at `now`), then the rendering in a fenced block.
pub open spec fn graph_md_spec(rendered: Seq<char>, format: Seq<char>, filter: GraphFilter, now: Seq<char>) -> Seq<char> {
    "---\n"@ + "title: \"Wiki Graph\"\n"@ + "generated: \""@ + now + "\"\n"@ + "format: "@ + format + "\n"@
        + "root: "@ + (match filter.root {
        Some(r) => r@,
        None => seq![],
    }) + "\n"@ + "depth: "@ + decimal(depth_of(filter.depth)) + "\n"@ + "types: "@ + types_field(
        texts(filter.types@),
    ) + "\n"@ + "status: generated\n"@ + "---\n\n"@ + "```"@ + format + "\n"@ + rendered + "```\n"@
}

/// The depth recorded in a graph page: 0 unless given.
pub open spec fn depth_of(d: Option<usize>) -> nat {
    match d {
        Some(x) => x as nat,
        None => 0,
    }
}

/// Wrap a rendered graph in a markdown page generated at `now` (an RFC 3339
/// timestamp).
pub fn wrap_graph_md_at(rendered: &str, format: &str, filter: &GraphFilter, now: &str) -> (out: String)
    ensures
        out@ == graph_md_spec(rendered@, format@, *filter, now@),
{
    let mut out: Vec<char> = Vec::new();
    push_str(&mut out, "---\n");
    push_str(&mut out, "title: \"Wiki Graph\"\n");
    push_str(&mut out, "generated: \"");
    push_str(&mut out, now);
    push_str(&mut out, "\"\n");
    push_str(&mut out, "format: ");
    push_str(&mut out, format);
    push_str(&mut out, "\n");
    push_str(&mut out, "root: ");
    match &filter.root {
        Some(r) => push_str(&mut out, r.as_str()),
        None => {},
    }
    push_str(&mut out, "\n");
    push_str(&mut out, "depth: ");
    let depth: usize = match filter.depth {
        Some(x) => x,
        None => 0,
    };
    let dv = decimal_exec(depth as u64);
    push_chars(&mut out, &dv);
    push_str(&mut out, "\n");
    push_str(&mut out, "types: ");
    if filter.types.len() == 0 {
        push_str(&mut out, "[]");
    } else {
        push_str(&mut out, "[");
        crate::text::push_joined(&mut out, &filter.types, ", ");
        push_str(&mut out, "]");
    }
    push_str(&mut out, "\n");
    push_str(&mut out, "status: generated\n");
    push_str(&mut out, "---\n\n");
    push_str(&mut out, "```");
    push_str(&mut out, format);
    push_str(&mut out, "\n");
    push_str(&mut out, rendered);
    push_str(&mut out, "```\n");
    string_of(&out)
}

/// The current time as RFC 3339 (`chrono::Utc::now().to_rfc3339()`); the
/// clock's value is not stated.
#[verifier::external_body]
fn now_rfc3339() -> (t: String) {
    chrono::Utc::now().to_rfc3339()
}

/// Wrap a rendered graph in a markdown page generated now.
pub fn wrap_graph_md(rendered: &str, format: &str, filter: &GraphFilter) -> (out: String)
    ensures
        exists|now: Seq<char>| out@ == graph_md_spec(rendered@, format@, *filter, now),
{
    let now = now_rfc3339();
    wrap_graph_md_at(rendered, format, filter, now.as_str())
}

// ── Community statistics ──────────────────────────────────────────────────────

/// The number of pages in community `c`.
pub open spec fn community_size(assign: Seq<(String, usize)>, c: usize) -> nat
    decreases assign.len(),
{
    if assign.len() == 0 {
        0
    } else {
        community_size(assign.drop_last(), c) + if assign.last().1 == c {
            1nat
        } else {
            0nat
        }
    }
}

/// The communities of the assignment, each once, in order of first
/// appearance.
pub open spec fn community_ids(assign: Seq<(String, usize)>) -> Seq<usize>
    decreases assign.len(),
{
    if assign.len() == 0 {
        seq![]
    } else {
        let p = community_ids(assign.drop_last());
        if p.contains(assign.last().1) {
            p
        } else {
            p.push(assign.last().1)
        }
    }
}

/// The slugs of the pages whose community has at most two pages (all of
/// `assign` counted), in the order of the first `n` pages.
pub open spec fn small_community_slugs(assign: Seq<(String, usize)>, n: int) -> Seq<Seq<char>>
    decreases n,
{
    if n <= 0 {
        seq![]
    } else {
        let p = small_community_slugs(assign, n - 1);
        if community_size(assign, assign[n - 1].1) <= 2 {
            p.push(assign[n - 1].0@)
        } else {
            p
        }
    }
}

proof fn lemma_size_prefix(assign: Seq<(String, usize)>, k: int, c: usize)
    requires
        0 <= k < assign.len(),
    ensures
        community_size(assign.take(k + 1), c) == community_size(assign.take(k), c) + if assign[k].1 == c {
            1nat
        } else {
            0nat
        },
{
    assert(assign.take(k + 1).drop_last() =~= assign.take(k));
}

proof fn lemma_size_bound(assign: Seq<(String, usize)>, c: usize)
    ensures
        community_size(assign, c) <= assign.len(),
    decreases assign.len(),
{
    if assign.len() > 0 {
        lemma_size_bound(assign.drop_last(), c);
    }
}

/// The number of pages in community `c`.
fn community_size_exec(assign: &Vec<(String, usize)>, c: usize) -> (n: usize)
    ensures
        n == community_size(assign@, c),
{
    let mut n: usize = 0;
    let mut k: usize = 0;
    while k < assign.len()
        invariant
            k <= assign@.len(),
            n == community_size(assign@.take(k as int), c),
        decreases assign.len() - k,
    {
        proof {
            lemma_size_prefix(assign@, k as int, c);
            lemma_size_bound(assign@.take(k as int), c);
        }
        if assign[k].1 == c {
            n = n + 1;
        }
        k = k + 1;
    }
    assert(assign@.take(assign@.len() as int) =~= assign@);
    n
}

/// Community statistics from the community of each local page (its slug
/// and community id, pages in slug order): the number of communities, the
/// sizes of the largest and the smallest (0 when there are no pages), and
/// the slugs of the pages in communities of at most two pages, sorted.
pub fn community_stats(assign: &Vec<(String, usize)>) -> (r: CommunityStats)
    ensures
        r.count == community_ids(assign@).len(),
        assign@.len() == 0 ==> r.largest == 0 && r.smallest == 0,
        assign@.len() > 0 ==> (exists|i: int| 0 <= i < assign@.len() && r.largest == community_size(assign@, #[trigger] assign@[i].1)),
        assign@.len() > 0 ==> (exists|i: int| 0 <= i < assign@.len() && r.smallest == community_size(assign@, #[trigger] assign@[i].1)),
        forall|i: int| 0 <= i < assign@.len() ==> r.smallest <= community_size(assign@, #[trigger] assign@[i].1) <= r.largest,
        crate::text::strings_sorted(r.isolated@),
        texts(r.isolated@).to_multiset() == small_community_slugs(assign@, assign@.len() as int).to_multiset(),
{
    let mut ids: Vec<usize> = Vec::new();
    let mut largest: usize = 0;
    let mut smallest: usize = 0;
    let mut small: Vec<String> = Vec::new();
    let mut k: usize = 0;
    while k < assign.len()
        invariant
            k <= assign@.len(),
            ids@ == community_ids(assign@.take(k as int)),
            k == 0 ==> largest == 0 && smallest == 0,
            k > 0 ==> (exists|i: int| 0 <= i < k && largest == community_size(assign@, #[trigger] assign@[i].1)),
            k > 0 ==> (exists|i: int| 0 <= i < k && smallest == community_size(assign@, #[trigger] assign@[i].1)),
            forall|i: int| 0 <= i < k ==> smallest <= community_size(assign@, #[trigger] assign@[i].1) <= largest,
            texts(small@) == small_community_slugs(assign@, k as int),
        decreases assign.len() - k,
    {
        proof {
            assert(assign@.take(k + 1).drop_last() =~= assign@.take(k as int));
            assert(assign@.take(k + 1).last() == assign@[k as int]);
        }
        let c = assign[k].1;
        let mut found = false;
        let mut q: usize = 0;
        while q < ids.len()
            invariant
                q <= ids@.len(),
                found == ids@.take(q as int).contains(c),
            decreases ids.len() - q,
        {
            let ghost t = ids@.take(q + 1);
            proof {
                assert(t =~= ids@.take(q as int).push(ids@[q as int]));
                if t.contains(c) && ids@[q as int] != c {
                    let j = choose|j: int| 0 <= j < t.len() && t[j] == c;
                    assert(ids@.take(q as int)[j] == c);
                }
                if ids@.take(q as int).contains(c) {
                    let j = choose|j: int| 0 <= j < q && ids@.take(q as int)[j] == c;
                    assert(t[j] == c);
                }
            }
            if ids[q] == c {
                found = true;
                assert(t[q as int] == c);
            }
            q = q + 1;
        }
        assert(ids@.take(ids@.len() as int) =~= ids@);
        if !found {
            ids.push(c);
        }
        let n = community_size_exec(assign, c);
        if k == 0 {
            largest = n;
            smallest = n;
        } else {
            if n > largest {
                largest = n;
            }
            if n < smallest {
                smallest = n;
            }
        }
        if n <= 2 {
            let ghost before = texts(small@);
            small.push(assign[k].0.clone());
            assert(texts(small@) =~= before.push(assign@[k as int].0@));
        }
        k = k + 1;
    }
    assert(assign@.take(assign@.len() as int) =~= assign@);
    let count = ids.len();
    let isolated = crate::text::sort_strings(small);
    CommunityStats { count, largest, smallest, isolated }
}

} // verus!
