//! Link suggestions for a page: the pages that share its tags, and the pages
//! two hops from it in the concept graph that it does not link to yet.
use vstd::prelude::*;

use crate::graph::{link_at, link_count, page, page_count, wiki_edges, wiki_nodes, LabeledEdge, PageNode, WikiGraph};
use crate::links::{contains_text, texts};
use crate::text::{chars_of, join, push_joined, push_str, seq_eq, string_of};

verus! {

// ── Shared tags ───────────────────────────────────────────────────────────────

/// The tags of a candidate that the input page has too, in the candidate's
/// order.
pub open spec fn shared_tags(doc: Seq<Seq<char>>, input: Seq<Seq<char>>) -> Seq<Seq<char>> {
    doc.filter(tag_in(input))
}

/// Whether a tag is among `input`.
pub open spec fn tag_in(input: Seq<Seq<char>>) -> spec_fn(Seq<char>) -> bool {
    |t: Seq<char>| input.contains(t)
}

/// How a candidate's tags overlap the input page's: the number shared, the
/// number the candidate has (the denominator of its score), and the reason
/// shown, `shares tags: a, b`.
#[derive(Debug, Clone)]
pub struct TagOverlap {
    pub shared: usize,
    pub total: usize,
    pub reason: String,
}

/// The overlap of a candidate's tags with the input page's; `None` when they
/// share none.
pub fn tag_overlap(input_tags: &Vec<String>, doc_tags: &Vec<String>) -> (r: Option<TagOverlap>)
    ensures
        ({
            let shared = shared_tags(texts(doc_tags@), texts(input_tags@));
            if shared.len() == 0 {
                r is None
            } else {
                r matches Some(o) && o.shared == shared.len() && o.total == doc_tags@.len() && o.reason@
                    == "shares tags: "@ + join(shared, ", "@)
            }
        }),
{
    let ghost input = texts(input_tags@);
    let ghost doc = texts(doc_tags@);
    let mut shared: Vec<String> = Vec::new();
    let mut i: usize = 0;
    while i < doc_tags.len()
        invariant
            i <= doc_tags@.len(),
            input == texts(input_tags@),
            doc == texts(doc_tags@),
            texts(shared@) == shared_tags(doc.subrange(0, i as int), input),
        decreases doc_tags.len() - i,
    {
        let t = chars_of(doc_tags[i].as_str());
        let ghost pre = doc.subrange(0, i as int);
        let ghost post = doc.subrange(0, i + 1);
        proof {
            assert(post == pre.push(t@));
            pre.lemma_filter_push(t@, tag_in(input));
        }
        if contains_text(input_tags, &t) {
            let ghost before = shared@;
            shared.push(doc_tags[i].clone());
            assert(texts(shared@) == texts(before).push(t@));
            assert(shared_tags(post, input) == shared_tags(pre, input).push(t@));
        } else {
            assert(shared_tags(post, input) == shared_tags(pre, input));
        }
        i = i + 1;
    }
    assert(doc.subrange(0, doc_tags@.len() as int) == doc);
    if shared.len() == 0 {
        return None;
    }
    let mut out: Vec<char> = Vec::new();
    push_str(&mut out, "shares tags: ");
    push_joined(&mut out, &shared, ", ");
    proof {
        reveal_strlit("shares tags: ");
        assert(shared@.map_values(|s: String| s@) == texts(shared@));
    }
    proof {
        doc.lemma_filter_len(tag_in(input));
    }
    Some(TagOverlap { shared: shared.len(), total: doc_tags.len(), reason: string_of(&out) })
}

// ── Two hops away ─────────────────────────────────────────────────────────────

/// Edge `e` joins nodes `a` and `b`, in either direction.
pub open spec fn joins(e: (usize, usize, LabeledEdge), a: int, b: int) -> bool {
    (e.0 == a && e.1 == b) || (e.0 == b && e.1 == a)
}

/// One of the first `k` edges joins `a` and `b`.
pub open spec fn joined_within(edges: Seq<(usize, usize, LabeledEdge)>, k: int, a: int, b: int) -> bool {
    exists|j: int| 0 <= j < k && #[trigger] joins(edges[j], a, b)
}

/// Nodes `a` and `b` are neighbours: an edge joins them, in either direction.
pub open spec fn adjacent(edges: Seq<(usize, usize, LabeledEdge)>, a: int, b: int) -> bool {
    joined_within(edges, edges.len() as int, a, b)
}

/// The last node whose slug is `s` (a later node shadows an earlier one
/// with the same slug).
pub open spec fn last_slug(nodes: Seq<PageNode>, s: Seq<char>) -> Option<int>
    decreases nodes.len(),
{
    if nodes.len() == 0 {
        None
    } else if nodes.last().slug@ == s {
        Some(nodes.len() - 1)
    } else {
        last_slug(nodes.drop_last(), s)
    }
}

/// Node `n` may be suggested for the root `r`: it is not the root, not one
/// of its neighbours, and not a page the root already links to.
pub open spec fn fresh_for(nodes: Seq<PageNode>, edges: Seq<(usize, usize, LabeledEdge)>, r: int, existing: Seq<Seq<char>>, n: int) -> bool {
    0 <= n < nodes.len() && n != r && !adjacent(edges, r, n) && !existing.contains(nodes[n].slug@)
}

/// Node `n` may be suggested for `r` and is a neighbour of `r`'s neighbour `m`.
pub open spec fn two_hops(
    nodes: Seq<PageNode>,
    edges: Seq<(usize, usize, LabeledEdge)>,
    r: int,
    existing: Seq<Seq<char>>,
    n: int,
    m: int,
) -> bool {
    fresh_for(nodes, edges, r, existing, n) && 0 <= m < nodes.len() && adjacent(edges, r, m) && adjacent(edges, m, n)
}

/// A page two hops away, and the slug of the neighbour it is reached through.
#[derive(Debug, Clone)]
pub struct TwoHop {
    pub slug: String,
    pub title: String,
    pub page_type: String,
    pub via: String,
}

/// `h` is node `n`, reached through node `m`.
pub open spec fn describes(h: TwoHop, nodes: Seq<PageNode>, n: int, m: int) -> bool {
    h.slug@ == nodes[n].slug@ && h.title@ == nodes[n].title@ && h.page_type@ == nodes[n].page_type@ && h.via@
        == nodes[m].slug@
}

/// `h` is a node two hops from `r` that may be suggested, with a neighbour of
/// `r` it is reached through.
pub open spec fn reached(
    h: TwoHop,
    nodes: Seq<PageNode>,
    edges: Seq<(usize, usize, LabeledEdge)>,
    r: int,
    existing: Seq<Seq<char>>,
) -> bool {
    exists|n: int, m: int| two_hops(nodes, edges, r, existing, n, m) && #[trigger] describes(h, nodes, n, m)
}

proof fn lemma_joined_step(edges: Seq<(usize, usize, LabeledEdge)>, k: int, a: int, b: int)
    requires
        0 <= k < edges.len(),
    ensures
        joined_within(edges, k + 1, a, b) == (joined_within(edges, k, a, b) || joins(edges[k], a, b)),
{
    if joined_within(edges, k + 1, a, b) {
        let j = choose|j: int| 0 <= j < k + 1 && #[trigger] joins(edges[j], a, b);
        if j < k {
            assert(joined_within(edges, k, a, b));
        }
    }
    if joined_within(edges, k, a, b) {
        let j = choose|j: int| 0 <= j < k && #[trigger] joins(edges[j], a, b);
        assert(0 <= j < k + 1 && joins(edges[j], a, b));
    }
    if joins(edges[k], a, b) {
        assert(0 <= k < k + 1 && joins(edges[k], a, b));
    }
}

proof fn lemma_last_slug_range(nodes: Seq<PageNode>, s: Seq<char>)
    ensures
        last_slug(nodes, s) matches Some(k) ==> 0 <= k < nodes.len(),
    decreases nodes.len(),
{
    if nodes.len() > 0 && nodes.last().slug@ != s {
        lemma_last_slug_range(nodes.drop_last(), s);
    }
}

/// The index of the last node whose slug is `s`.
fn find_last_slug(graph: &WikiGraph, s: &[char]) -> (r: Option<usize>)
    ensures
        match last_slug(wiki_nodes(*graph), s@) {
            None => r is None,
            Some(k) => r == Some(k as usize),
        },
{
    let ghost nodes = wiki_nodes(*graph);
    let n = page_count(graph);
    let mut found: Option<usize> = None;
    let mut i: usize = 0;
    while i < n
        invariant
            nodes == wiki_nodes(*graph),
            n == nodes.len(),
            i <= n,
            match last_slug(nodes.subrange(0, i as int), s@) {
                None => found is None,
                Some(k) => found == Some(k as usize),
            },
        decreases n - i,
    {
        let p = page(graph, i);
        proof {
            let post = nodes.subrange(0, i + 1);
            assert(post.drop_last() == nodes.subrange(0, i as int));
            assert(post.last() == nodes[i as int]);
        }
        if seq_eq(&chars_of(p.slug.as_str()), s) {
            found = Some(i);
        }
        i = i + 1;
    }
    assert(nodes.subrange(0, n as int) == nodes);
    found
}

/// Which nodes are neighbours of node `r`.
fn neighbours(graph: &WikiGraph, r: usize) -> (h: Vec<bool>)
    ensures
        h@.len() == wiki_nodes(*graph).len(),
        forall|n: int| 0 <= n < h@.len() ==> h@[n] == adjacent(wiki_edges(*graph), r as int, n),
{
    let ghost edges = wiki_edges(*graph);
    let n = page_count(graph);
    let m = link_count(graph);
    let mut h: Vec<bool> = Vec::new();
    let mut i: usize = 0;
    while i < n
        invariant
            i <= n,
            h@.len() == i,
            forall|k: int| 0 <= k < i ==> !h@[k],
        decreases n - i,
    {
        h.push(false);
        i = i + 1;
    }
    let mut e: usize = 0;
    while e < m
        invariant
            edges == wiki_edges(*graph),
            n == wiki_nodes(*graph).len(),
            m == edges.len(),
            e <= m,
            h@.len() == n,
            forall|k: int| 0 <= k < n ==> h@[k] == joined_within(edges, e as int, r as int, k),
        decreases m - e,
    {
        let (a, b, _) = link_at(graph, e);
        if a == r {
            h.set(b, true);
        }
        if b == r {
            h.set(a, true);
        }
        assert forall|k: int| 0 <= k < n implies h@[k] == joined_within(edges, e + 1, r as int, k) by {
            lemma_joined_step(edges, e as int, r as int, k);
        }
        e = e + 1;
    }
    h
}

/// The pages two hops from the page `slug` (through a neighbour, edges
/// followed in either direction) that are neither the page, nor one of its
/// neighbours, nor among the slugs it already links to (`existing`): each
/// slug once, with one neighbour it is reached through. None when no page
/// has that slug; where several have it, the last one is the page.
pub fn two_hop_candidates(graph: &WikiGraph, slug: &str, existing: &Vec<String>) -> (r: Vec<TwoHop>)
    ensures
        ({
            let nodes = wiki_nodes(*graph);
            let edges = wiki_edges(*graph);
            let ex = texts(existing@);
            match last_slug(nodes, slug@) {
                None => r@.len() == 0,
                Some(root) => {
                    &&& forall|i: int, j: int| 0 <= i < j < r@.len() ==> r@[i].slug@ != r@[j].slug@
                    &&& forall|i: int| 0 <= i < r@.len() ==> reached(#[trigger] r@[i], nodes, edges, root, ex)
                    &&& forall|n: int, m: int|
                        #[trigger] two_hops(nodes, edges, root, ex, n, m) ==> exists|i: int|
                            0 <= i < r@.len() && r@[i].slug@ == nodes[n].slug@
                },
            }
        }),
{
    let ghost nodes = wiki_nodes(*graph);
    let ghost edges = wiki_edges(*graph);
    let ghost ex = texts(existing@);
    let root = match find_last_slug(graph, &chars_of(slug)) {
        None => {
            return Vec::new();
        },
        Some(root) => root,
    };
    proof {
        lemma_last_slug_range(nodes, slug@);
    }
    let n = page_count(graph);
    let m = link_count(graph);
    let h = neighbours(graph, root);
    // Which nodes may be suggested.
    let mut fresh: Vec<bool> = Vec::new();
    let mut i: usize = 0;
    while i < n
        invariant
            nodes == wiki_nodes(*graph),
            edges == wiki_edges(*graph),
            ex == texts(existing@),
            n == nodes.len(),
            (root as int) < n,
            h@.len() == n,
            forall|k: int| 0 <= k < n ==> h@[k] == adjacent(edges, root as int, k),
            i <= n,
            fresh@.len() == i,
            forall|k: int| 0 <= k < i ==> fresh@[k] == fresh_for(nodes, edges, root as int, ex, k),
        decreases n - i,
    {
        let p = page(graph, i);
        let f = i != root && !h[i] && !contains_text(existing, &chars_of(p.slug.as_str()));
        fresh.push(f);
        i = i + 1;
    }
    // For each such node, a neighbour of the root it is reached through.
    let mut through: Vec<Option<usize>> = Vec::new();
    let mut i: usize = 0;
    while i < n
        invariant
            i <= n,
            through@.len() == i,
            forall|k: int| 0 <= k < i ==> through@[k] is None,
        decreases n - i,
    {
        through.push(None);
        i = i + 1;
    }
    let mut e: usize = 0;
    while e < m
        invariant
            nodes == wiki_nodes(*graph),
            edges == wiki_edges(*graph),
            n == nodes.len(),
            m == edges.len(),
            e <= m,
            h@.len() == n,
            fresh@.len() == n,
            through@.len() == n,
            forall|k: int| 0 <= k < n ==> h@[k] == adjacent(edges, root as int, k),
            forall|k: int| 0 <= k < n ==> fresh@[k] == fresh_for(nodes, edges, root as int, ex, k),
            forall|k: int|
                #![trigger through@[k]]
                0 <= k < n ==> (through@[k] matches Some(w) ==> two_hops(nodes, edges, root as int, ex, k, w as int)),
            forall|k: int, w: int|
                #![trigger fresh@[k], h@[w]]
                0 <= k < n && 0 <= w < n && fresh@[k] && h@[w] && joined_within(edges, e as int, w, k) ==> through@[k] is Some,
        decreases m - e,
    {
        let (a, b, _) = link_at(graph, e);
        proof {
            assert(joins(edges[e as int], a as int, b as int));
            assert(joins(edges[e as int], b as int, a as int));
            assert(adjacent(edges, a as int, b as int));
            assert(adjacent(edges, b as int, a as int));
        }
        if h[a] && fresh[b] && through[b].is_none() {
            through.set(b, Some(a));
        }
        if h[b] && fresh[a] && through[a].is_none() {
            through.set(a, Some(b));
        }
        assert forall|k: int, w: int|
            #![trigger fresh@[k], h@[w]]
            0 <= k < n && 0 <= w < n && fresh@[k] && h@[w] && joined_within(edges, e + 1, w, k) implies through@[k] is Some by {
            lemma_joined_step(edges, e as int, w, k);
        }
        e = e + 1;
    }
    // One suggestion per slug, in node order.
    let mut out: Vec<TwoHop> = Vec::new();
    let mut seen: Vec<String> = Vec::new();
    let mut k: usize = 0;
    while k < n
        invariant
            nodes == wiki_nodes(*graph),
            edges == wiki_edges(*graph),
            n == nodes.len(),
            k <= n,
            through@.len() == n,
            forall|q: int|
                #![trigger through@[q]]
                0 <= q < n ==> (through@[q] matches Some(w) ==> two_hops(nodes, edges, root as int, ex, q, w as int)),
            seen@.len() == out@.len(),
            forall|i: int| 0 <= i < out@.len() ==> seen@[i]@ == out@[i].slug@,
            forall|i: int, j: int| 0 <= i < j < out@.len() ==> out@[i].slug@ != out@[j].slug@,
            forall|i: int| 0 <= i < out@.len() ==> reached(#[trigger] out@[i], nodes, edges, root as int, ex),
            forall|q: int|
                #![trigger through@[q]]
                0 <= q < k && through@[q] is Some ==> exists|i: int| 0 <= i < out@.len() && out@[i].slug@ == nodes[q].slug@,
        decreases n - k,
    {
        if let Some(w) = through[k] {
            let p = page(graph, k);
            let s = chars_of(p.slug.as_str());
            if !contains_text(&seen, &s) {
                let via_page = page(graph, w);
                let hop = TwoHop {
                    slug: p.slug.clone(),
                    title: p.title.clone(),
                    page_type: p.page_type.clone(),
                    via: via_page.slug.clone(),
                };
                proof {
                    assert(describes(hop, nodes, k as int, w as int));
                    assert forall|i: int| 0 <= i < out@.len() implies out@[i].slug@ != s@ by {
                        assert(texts(seen@)[i] == seen@[i]@);
                    }
                }
                let ghost before = out@;
                out.push(hop);
                seen.push(p.slug.clone());
                proof {
                    let last = out@.len() - 1;
                    assert(describes(out@[last], nodes, k as int, w as int));
                    assert(reached(out@[last], nodes, edges, root as int, ex));
                    assert forall|i: int| 0 <= i < out@.len() implies reached(#[trigger] out@[i], nodes, edges, root as int, ex) by {
                        if i < last {
                            assert(out@[i] == before[i]);
                        }
                    }
                    assert forall|q: int| #![trigger through@[q]] 0 <= q < k + 1 && through@[q] is Some implies exists|i: int|
                        0 <= i < out@.len() && out@[i].slug@ == nodes[q].slug@ by {
                        if q < k {
                            let i = choose|i: int| 0 <= i < before.len() && before[i].slug@ == nodes[q].slug@;
                            assert(out@[i] == before[i]);
                        } else {
                            assert(out@[last].slug@ == nodes[q].slug@);
                        }
                    }
                }
            } else {
                proof {
                    let i = choose|i: int| 0 <= i < texts(seen@).len() && texts(seen@)[i] == s@;
                    assert(out@[i].slug@ == nodes[k as int].slug@);
                }
            }
        }
        k = k + 1;
    }
    proof {
        assert forall|q: int, w: int| #[trigger] two_hops(nodes, edges, root as int, ex, q, w) implies exists|i: int|
            0 <= i < out@.len() && out@[i].slug@ == nodes[q].slug@ by {
            assert(fresh@[q]);
            assert(h@[w]);
        }
    }
    out
}

} // verus!
