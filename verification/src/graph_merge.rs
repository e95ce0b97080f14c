//! One graph over several wikis: the concept graphs of the mounted wikis
//! merged, their slugs prefixed with the wiki name, and `wiki://` links
//! between them resolved where both ends are present.
use vstd::prelude::*;

use crate::graph::{
    add_link, add_page, build_graph, index_limit, link_at, link_count, link_total, page,
    page_count, wiki_edges, wiki_graph_new, wiki_nodes, DocInfo, GraphFilter, LabeledEdge,
    PageNode, WikiGraph, graph_of, page_view, page_views, link_views,
};
use crate::graph_llms::counted;
use crate::links::{cross_wiki_parts, ParsedLink};
use crate::text::{chars_of, push_chars, push_str, seq_eq, string_of};

verus! {

// ── Model ─────────────────────────────────────────────────────────────────────

/// The map a list of (key, index) entries stands for: a later entry for a
/// key replaces an earlier one (`HashMap::insert`).
pub open spec fn assoc_map(v: Seq<(Seq<char>, nat)>) -> Map<Seq<char>, nat>
    decreases v.len(),
{
    if v.len() == 0 {
        Map::empty()
    } else {
        assoc_map(v.drop_last()).insert(v.last().0, v.last().1)
    }
}

/// The merged key of slug `s` of wiki `w`: `w/s`.
pub open spec fn merged_key(w: Seq<char>, s: Seq<char>) -> Seq<char> {
    w + "/"@ + s
}

/// The state of a merge: nodes, key index, edges.
pub type MergeState = (
    Seq<(Seq<char>, Seq<char>, Seq<char>, bool)>,
    Map<Seq<char>, nat>,
    Seq<(nat, nat, Seq<char>)>,
);

/// Add the local nodes of wiki `w`, in order, each under its merged key.
pub open spec fn add_locals(st: MergeState, w: Seq<char>, nodes: Seq<PageNode>) -> MergeState
    decreases nodes.len(),
{
    if nodes.len() == 0 {
        st
    } else {
        let s = add_locals(st, w, nodes.drop_last());
        let n = nodes.last();
        if n.external {
            s
        } else {
            let key = merged_key(w, n.slug@);
            (s.0.push((key, n.title@, n.page_type@, false)), s.1.insert(key, s.0.len()), s.2)
        }
    }
}

/// The merged key an edge of wiki `w` leads to: the target's own key for a
/// local target, `wiki/slug` for an external `wiki://wiki/slug` target,
/// nothing for another external target.
pub open spec fn target_key(w: Seq<char>, to: PageNode) -> Option<Seq<char>> {
    if to.external {
        match cross_wiki_parts(to.title@) {
            Some((ww, sl)) => Some(merged_key(ww, sl)),
            None => None,
        }
    } else {
        Some(merged_key(w, to.slug@))
    }
}

/// Add one edge of wiki `w` (whose nodes are `nodes`): skipped when its
/// source has no merged node or its target no key; a target key without a
/// node gets an external placeholder; self-loops are dropped.
pub open spec fn add_edge_step(
    s: MergeState,
    w: Seq<char>,
    nodes: Seq<PageNode>,
    e: (usize, usize, LabeledEdge),
) -> MergeState {
    let from = nodes[e.0 as int];
    let to = nodes[e.1 as int];
    let fk = merged_key(w, from.slug@);
    if !s.1.contains_key(fk) {
        s
    } else {
        match target_key(w, to) {
            None => s,
            Some(tk) => {
                let fm = s.1[fk];
                let s2: MergeState = if s.1.contains_key(tk) {
                    s
                } else {
                    (s.0.push((tk, to.title@, "external"@, true)), s.1.insert(tk, s.0.len()), s.2)
                };
                let tm = s2.1[tk];
                if fm != tm {
                    (s2.0, s2.1, s2.2.push((fm, tm, e.2.relation@)))
                } else {
                    s2
                }
            },
        }
    }
}

/// Add the edges of wiki `w`, in order.
pub open spec fn add_edges(
    st: MergeState,
    w: Seq<char>,
    nodes: Seq<PageNode>,
    edges: Seq<(usize, usize, LabeledEdge)>,
) -> MergeState
    decreases edges.len(),
{
    if edges.len() == 0 {
        st
    } else {
        add_edge_step(add_edges(st, w, nodes, edges.drop_last()), w, nodes, edges.last())
    }
}

/// A wiki to merge: its name, nodes and edges.
pub type WikiPart = (Seq<char>, Seq<PageNode>, Seq<(usize, usize, LabeledEdge)>);

/// First pass: the local nodes of every wiki, wiki by wiki.
pub open spec fn merge_nodes(parts: Seq<WikiPart>) -> MergeState
    decreases parts.len(),
{
    if parts.len() == 0 {
        (seq![], Map::empty(), seq![])
    } else {
        add_locals(merge_nodes(parts.drop_last()), parts.last().0, parts.last().1)
    }
}

/// Second pass: the edges of every wiki, wiki by wiki, from state `st`.
pub open spec fn merge_edges(st: MergeState, parts: Seq<WikiPart>) -> MergeState
    decreases parts.len(),
{
    if parts.len() == 0 {
        st
    } else {
        let p = parts.last();
        add_edges(merge_edges(st, parts.drop_last()), p.0, p.1, p.2)
    }
}

/// The merged graph of the wikis.
pub open spec fn merge_spec(parts: Seq<WikiPart>) -> MergeState {
    merge_edges(merge_nodes(parts), parts)
}

/// The number of nodes of the wikis.
pub open spec fn node_total(parts: Seq<WikiPart>) -> nat
    decreases parts.len(),
{
    if parts.len() == 0 {
        0
    } else {
        node_total(parts.drop_last()) + parts.last().1.len()
    }
}

/// The number of edges of the wikis.
pub open spec fn edge_total(parts: Seq<WikiPart>) -> nat
    decreases parts.len(),
{
    if parts.len() == 0 {
        0
    } else {
        edge_total(parts.drop_last()) + parts.last().2.len()
    }
}

/// The wikis of a list of (name, graph) pairs.
pub open spec fn parts_of(graphs: Seq<(String, WikiGraph)>) -> Seq<WikiPart> {
    graphs.map_values(|x: (String, WikiGraph)| (x.0@, wiki_nodes(x.1), wiki_edges(x.1)))
}


/// A merge is bounded by the number of nodes and twice the number of edges
/// of the wikis.
pub open spec fn merge_budget(parts: Seq<WikiPart>) -> nat {
    node_total(parts) + 2 * edge_total(parts)
}

/// The totals of a prefix of the wikis.
proof fn lemma_totals_prefix(parts: Seq<WikiPart>, w: int)
    requires
        0 <= w < parts.len(),
    ensures
        node_total(parts.take(w + 1)) == node_total(parts.take(w)) + parts[w].1.len(),
        edge_total(parts.take(w + 1)) == edge_total(parts.take(w)) + parts[w].2.len(),
        node_total(parts.take(w + 1)) <= node_total(parts),
        edge_total(parts.take(w + 1)) <= edge_total(parts),
    decreases parts.len(),
{
    assert(parts.take(w + 1).drop_last() =~= parts.take(w));
    if w + 1 < parts.len() {
        lemma_totals_prefix(parts.drop_last(), w);
        assert(parts.drop_last().take(w + 1) =~= parts.take(w + 1));
        assert(parts.drop_last().take(w) =~= parts.take(w));
    } else {
        assert(parts.take(w + 1) =~= parts);
    }
}

// ── Merging ───────────────────────────────────────────────────────────────────

/// The index of `key` in the (key, index) entries: that of its last entry.
fn lookup(index: &Vec<(String, usize)>, key: &[char]) -> (r: Option<usize>)
    ensures
        match r {
            Some(i) => assoc_map(counted(index@)).contains_key(key@) && assoc_map(counted(index@))[key@]
                == i,
            None => !assoc_map(counted(index@)).contains_key(key@),
        },
{
    let ghost all = counted(index@);
    let mut j: usize = index.len();
    assert(all.take(j as int) =~= all);
    while j > 0
        invariant
            j <= index@.len(),
            all == counted(index@),
            assoc_map(all).contains_key(key@) == assoc_map(all.take(j as int)).contains_key(key@),
            assoc_map(all).contains_key(key@) ==> assoc_map(all)[key@] == assoc_map(
                all.take(j as int),
            )[key@],
        decreases j,
    {
        let k = chars_of(index[j - 1].0.as_str());
        proof {
            assert(all.take(j as int).drop_last() =~= all.take(j - 1));
            assert(all.take(j as int).last() == all[j - 1]);
        }
        if seq_eq(&k, key) {
            return Some(index[j - 1].1);
        }
        j = j - 1;
    }
    None
}

/// `w/s`.
fn merged_key_exec(w: &[char], s: &[char]) -> (k: Vec<char>)
    ensures
        k@ == merged_key(w@, s@),
{
    let mut k: Vec<char> = Vec::new();
    push_chars(&mut k, w);
    push_str(&mut k, "/");
    push_chars(&mut k, s);
    proof {
        reveal_strlit("/");
    }
    k
}

/// The exec state stands for the spec state.
pub open spec fn stands_for(merged: WikiGraph, index: Seq<(String, usize)>, st: MergeState) -> bool {
    &&& page_views(wiki_nodes(merged)) == st.0
    &&& assoc_map(counted(index)) == st.1
    &&& link_views(wiki_edges(merged)) == st.2
    &&& forall|k: Seq<char>| #[trigger] st.1.contains_key(k) ==> st.1[k] < st.0.len()
}

/// Add a node and file it under its key.
fn add_keyed(merged: &mut WikiGraph, index: &mut Vec<(String, usize)>, key: &[char], n: PageNode) -> (i: usize)
    requires
        wiki_nodes(*old(merged)).len() < index_limit(),
        n.slug@ == key@,
    ensures
        i == wiki_nodes(*old(merged)).len(),
        wiki_nodes(*final(merged)) == wiki_nodes(*old(merged)).push(n),
        wiki_edges(*final(merged)) == wiki_edges(*old(merged)),
        page_views(wiki_nodes(*final(merged))) == page_views(wiki_nodes(*old(merged))).push(page_view(n)),
        assoc_map(counted(final(index)@)) == assoc_map(counted(old(index)@)).insert(key@, i as nat),
{
    let i = add_page(merged, n);
    let ghost before = counted(index@);
    index.push((string_of(key), i));
    proof {
        assert(counted(index@) =~= before.push((key@, i as nat)));
        assert(counted(index@).drop_last() =~= before);
        assert(page_views(wiki_nodes(*merged)) =~= page_views(wiki_nodes(*old(merged))).push(page_view(n)));
    }
    i
}

/// First pass over one wiki: its local nodes, each under `name/slug`.
fn merge_locals(merged: &mut WikiGraph, index: &mut Vec<(String, usize)>, name: &String, g: &WikiGraph, Ghost(st): Ghost<MergeState>, Ghost(room): Ghost<nat>)
    requires
        stands_for(*old(merged), old(index)@, st),
        st.2.len() == 0,
        st.0.len() + wiki_nodes(*g).len() <= room,
        room < index_limit(),
    ensures
        stands_for(*final(merged), final(index)@, add_locals(st, name@, wiki_nodes(*g))),
        add_locals(st, name@, wiki_nodes(*g)).0.len() <= st.0.len() + wiki_nodes(*g).len(),
        add_locals(st, name@, wiki_nodes(*g)).2.len() == 0,
{
    let ghost nodes = wiki_nodes(*g);
    let n = page_count(g);
    let w = chars_of(name.as_str());
    let mut i: usize = 0;
    assert(nodes.take(0) =~= Seq::<PageNode>::empty());
    while i < n
        invariant
            0 <= i <= n,
            n == nodes.len(),
            nodes == wiki_nodes(*g),
            w@ == name@,
            st.0.len() + n <= room,
            room < index_limit(),
            st.2.len() == 0,
            stands_for(*merged, index@, add_locals(st, name@, nodes.take(i as int))),
            add_locals(st, name@, nodes.take(i as int)).0.len() <= st.0.len() + i,
            add_locals(st, name@, nodes.take(i as int)).2.len() == 0,
        decreases n - i,
    {
        let p = page(g, i);
        let ghost s0 = add_locals(st, name@, nodes.take(i as int));
        proof {
            assert(nodes.take(i + 1).drop_last() =~= nodes.take(i as int));
            assert(nodes.take(i + 1).last() == nodes[i as int]);
        }
        if !p.external {
            let slug = chars_of(p.slug.as_str());
            let key = merged_key_exec(&w, &slug);
            let node = PageNode {
                slug: string_of(&key),
                title: p.title.clone(),
                page_type: p.page_type.clone(),
                external: false,
            };
            let idx = add_keyed(merged, index, &key, node);
            proof {
                let s1 = add_locals(st, name@, nodes.take(i + 1));
                assert(s1.1 == s0.1.insert(key@, s0.0.len()));
                assert forall|k: Seq<char>| #[trigger] s1.1.contains_key(k) implies s1.1[k] < s1.0.len() by {
                    if k != key@ {
                        assert(s0.1.contains_key(k));
                    }
                }
            }
        }
        i = i + 1;
    }
    assert(nodes.take(n as int) =~= nodes);
}

/// The key the target of an edge of wiki `w` leads to (`target_key`).
fn target_key_exec(w: &[char], to: &PageNode) -> (r: Option<Vec<char>>)
    ensures
        match target_key(w@, *to) {
            Some(k) => r matches Some(x) && x@ == k,
            None => r is None,
        },
{
    if to.external {
        match ParsedLink::parse(to.title.as_str()) {
            ParsedLink::CrossWiki { wiki, slug } => {
                let a = chars_of(wiki.as_str());
                let b = chars_of(slug.as_str());
                Some(merged_key_exec(&a, &b))
            },
            ParsedLink::Local(_) => None,
        }
    } else {
        let s = chars_of(to.slug.as_str());
        Some(merged_key_exec(w, &s))
    }
}

/// Second pass over one wiki: its edges, as `add_edges` says.
#[verifier::rlimit(30)]
fn merge_wiki_edges(merged: &mut WikiGraph, index: &mut Vec<(String, usize)>, name: &String, g: &WikiGraph, Ghost(st): Ghost<MergeState>, Ghost(room): Ghost<nat>)
    requires
        stands_for(*old(merged), old(index)@, st),
        st.0.len() + st.2.len() + 2 * wiki_edges(*g).len() <= room,
        room < index_limit(),
    ensures
        stands_for(*final(merged), final(index)@, add_edges(st, name@, wiki_nodes(*g), wiki_edges(*g))),
        add_edges(st, name@, wiki_nodes(*g), wiki_edges(*g)).0.len() + add_edges(st, name@, wiki_nodes(*g), wiki_edges(*g)).2.len()
            <= st.0.len() + st.2.len() + 2 * wiki_edges(*g).len(),
{
    let ghost nodes = wiki_nodes(*g);
    let ghost edges = wiki_edges(*g);
    let m = link_count(g);
    let w = chars_of(name.as_str());
    let mut k: usize = 0;
    assert(edges.take(0) =~= Seq::<(usize, usize, LabeledEdge)>::empty());
    while k < m
        invariant
            0 <= k <= m,
            m == edges.len(),
            nodes == wiki_nodes(*g),
            edges == wiki_edges(*g),
            w@ == name@,
            st.0.len() + st.2.len() + 2 * m <= room,
            room < index_limit(),
            stands_for(*merged, index@, add_edges(st, name@, nodes, edges.take(k as int))),
            add_edges(st, name@, nodes, edges.take(k as int)).0.len() + add_edges(st, name@, nodes, edges.take(k as int)).2.len()
                <= st.0.len() + st.2.len() + 2 * k,
        decreases m - k,
    {
        let ghost s0 = add_edges(st, name@, nodes, edges.take(k as int));
        let (a, b, e) = link_at(g, k);
        proof {
            assert(edges.take(k + 1).drop_last() =~= edges.take(k as int));
            assert(edges.take(k + 1).last() == edges[k as int]);
            assert(edges[k as int] == (a, b, *e));
        }
        let from = page(g, a);
        let to = page(g, b);
        let fs = chars_of(from.slug.as_str());
        let fk = merged_key_exec(&w, &fs);
        match lookup(index, &fk) {
            None => {},
            Some(fm) => {
                match target_key_exec(&w, to) {
                    None => {},
                    Some(tk) => {
                        let tm = match lookup(index, &tk) {
                            Some(t) => t,
                            None => {
                                let node = PageNode {
                                    slug: string_of(&tk),
                                    title: to.title.clone(),
                                    page_type: string_of(&chars_of("external")),
                                    external: true,
                                };
                                let idx = add_keyed(merged, index, &tk, node);
                                proof {
                                    let s2 = (s0.0.push((tk@, to.title@, "external"@, true)), s0.1.insert(tk@, s0.0.len()), s0.2);
                                    assert(s0.1.contains_key(fk@));
                                    assert(s2.1[fk@] == fm) by {
                                        if fk@ == tk@ {
                                            assert(false);
                                        }
                                    }
                                    assert forall|kk: Seq<char>| #[trigger] s2.1.contains_key(kk) implies s2.1[kk] < s2.0.len() by {
                                        if kk != tk@ {
                                            assert(s0.1.contains_key(kk));
                                        }
                                    }
                                }
                                idx
                            },
                        };
                        if fm != tm {
                            let ghost before = wiki_edges(*merged);
                            add_link(merged, fm, tm, LabeledEdge { relation: e.relation.clone() });
                            proof {
                                assert(link_views(wiki_edges(*merged)) =~= link_views(before).push(
                                    (fm as nat, tm as nat, e.relation@),
                                ));
                            }
                        }
                    },
                }
            },
        }
        k = k + 1;
    }
    assert(edges.take(m as int) =~= edges);
}

/// Merge the concept graphs of several wikis into one. First every local
/// node of every wiki is added under `wiki/slug`; then every edge is added
/// between the merged nodes, a `wiki://other/slug` target leading to
/// `other/slug` when that wiki is among them and to an external placeholder
/// (one per key) otherwise. Edges whose source has no merged node, external
/// targets that are not `wiki://` links, and self-loops are dropped.
pub fn merge_graphs(graphs: &Vec<(String, WikiGraph)>) -> (merged: WikiGraph)
    requires
        merge_budget(parts_of(graphs@)) < index_limit(),
    ensures
        page_views(wiki_nodes(merged)) == merge_spec(parts_of(graphs@)).0,
        link_views(wiki_edges(merged)) == merge_spec(parts_of(graphs@)).2,
{
    let ghost parts = parts_of(graphs@);
    let ghost room = merge_budget(parts);
    let mut merged = wiki_graph_new();
    let mut index: Vec<(String, usize)> = Vec::new();
    assert(page_views(wiki_nodes(merged)) =~= Seq::<(Seq<char>, Seq<char>, Seq<char>, bool)>::empty());
    assert(link_views(wiki_edges(merged)) =~= Seq::<(nat, nat, Seq<char>)>::empty());
    assert(counted(index@) =~= Seq::<(Seq<char>, nat)>::empty());
    assert(parts.take(0) =~= Seq::<WikiPart>::empty());
    let mut w: usize = 0;
    while w < graphs.len()
        invariant
            0 <= w <= graphs@.len(),
            parts == parts_of(graphs@),
            room == merge_budget(parts),
            room < index_limit(),
            stands_for(merged, index@, merge_nodes(parts.take(w as int))),
            merge_nodes(parts.take(w as int)).0.len() <= node_total(parts.take(w as int)),
            merge_nodes(parts.take(w as int)).2.len() == 0,
        decreases graphs.len() - w,
    {
        proof {
            lemma_totals_prefix(parts, w as int);
            assert(parts.take(w + 1).drop_last() =~= parts.take(w as int));
            assert(parts.take(w + 1).last() == parts[w as int]);
        }
        merge_locals(&mut merged, &mut index, &graphs[w].0, &graphs[w].1, Ghost(merge_nodes(parts.take(w as int))), Ghost(room));
        w = w + 1;
    }
    assert(parts.take(graphs.len() as int) =~= parts);
    let ghost first = merge_nodes(parts);
    let mut w: usize = 0;
    while w < graphs.len()
        invariant
            0 <= w <= graphs@.len(),
            parts == parts_of(graphs@),
            room == merge_budget(parts),
            room < index_limit(),
            first == merge_nodes(parts),
            first.0.len() <= node_total(parts),
            first.2.len() == 0,
            stands_for(merged, index@, merge_edges(first, parts.take(w as int))),
            merge_edges(first, parts.take(w as int)).0.len() + merge_edges(first, parts.take(w as int)).2.len()
                <= node_total(parts) + 2 * edge_total(parts.take(w as int)),
        decreases graphs.len() - w,
    {
        proof {
            lemma_totals_prefix(parts, w as int);
            assert(parts.take(w + 1).drop_last() =~= parts.take(w as int));
            assert(parts.take(w + 1).last() == parts[w as int]);
        }
        merge_wiki_edges(&mut merged, &mut index, &graphs[w].0, &graphs[w].1, Ghost(merge_edges(first, parts.take(w as int))), Ghost(room));
        w = w + 1;
    }
    assert(parts.take(graphs.len() as int) =~= parts);
    merged
}


/// What the wikis' pages may hold: their pages and three times their links.
pub open spec fn cross_budget(wikis: Seq<(String, Vec<DocInfo>)>) -> nat
    decreases wikis.len(),
{
    if wikis.len() == 0 {
        0
    } else {
        cross_budget(wikis.drop_last()) + wikis.last().1@.len() + 3 * link_total(wikis.last().1@)
    }
}

/// The budget of a prefix of the wikis.
proof fn lemma_cross_budget_prefix(wikis: Seq<(String, Vec<DocInfo>)>, w: int)
    requires
        0 <= w < wikis.len(),
    ensures
        cross_budget(wikis.take(w + 1)) == cross_budget(wikis.take(w)) + wikis[w].1@.len() + 3
            * link_total(wikis[w].1@),
        cross_budget(wikis.take(w + 1)) <= cross_budget(wikis),
    decreases wikis.len(),
{
    assert(wikis.take(w + 1).drop_last() =~= wikis.take(w));
    if w + 1 < wikis.len() {
        lemma_cross_budget_prefix(wikis.drop_last(), w);
        assert(wikis.drop_last().take(w + 1) =~= wikis.take(w + 1));
        assert(wikis.drop_last().take(w) =~= wikis.take(w));
    } else {
        assert(wikis.take(w + 1) =~= wikis);
    }
}

/// Build one graph over several wikis: each wiki's concept graph is built
/// from its pages under `filter`, and the graphs are merged: slugs become
/// `wiki/slug`, and cross-wiki links between the given wikis become edges.
pub fn build_graph_cross_wiki(wikis: &Vec<(String, Vec<DocInfo>)>, filter: &GraphFilter) -> (g: WikiGraph)
    requires
        cross_budget(wikis@) < index_limit(),
    ensures
        exists|parts: Seq<WikiPart>|
            {
                &&& parts.len() == wikis@.len()
                &&& forall|i: int|
                    0 <= i < parts.len() ==> (#[trigger] parts[i]).0 == wikis@[i].0@ && graph_of(
                        wikis@[i].1@,
                        *filter,
                        parts[i].1,
                        parts[i].2,
                    )
                &&& page_views(wiki_nodes(g)) == merge_spec(parts).0
                &&& link_views(wiki_edges(g)) == merge_spec(parts).2
            },
{
    let mut graphs: Vec<(String, WikiGraph)> = Vec::new();
    let mut w: usize = 0;
    assert(wikis@.take(0) =~= Seq::<(String, Vec<DocInfo>)>::empty());
    assert(parts_of(graphs@) =~= Seq::<WikiPart>::empty());
    while w < wikis.len()
        invariant
            0 <= w <= wikis@.len(),
            cross_budget(wikis@) < index_limit(),
            graphs@.len() == w,
            forall|i: int|
                0 <= i < w ==> (#[trigger] parts_of(graphs@)[i]).0 == wikis@[i].0@ && graph_of(
                    wikis@[i].1@,
                    *filter,
                    parts_of(graphs@)[i].1,
                    parts_of(graphs@)[i].2,
                ),
            merge_budget(parts_of(graphs@)) <= cross_budget(wikis@.take(w as int)),
        decreases wikis.len() - w,
    {
        proof {
            lemma_cross_budget_prefix(wikis@, w as int);
        }
        let g = build_graph(&wikis[w].1, filter);
        let ghost before = parts_of(graphs@);
        graphs.push((wikis[w].0.clone(), g));
        proof {
            let p = parts_of(graphs@);
            assert(p =~= before.push((wikis@[w as int].0@, wiki_nodes(g), wiki_edges(g))));
            assert(p.drop_last() =~= before);
            assert(forall|i: int| 0 <= i < w ==> p[i] == before[i]);
        }
        w = w + 1;
    }
    assert(wikis@.take(wikis.len() as int) =~= wikis@);
    merge_graphs(&graphs)
}

} // verus!
