//! A plain-language account of a concept graph, written for a language
//! model to read: sizes, type groups, hubs, relations, isolated pages and
//! references into other wikis.
use vstd::prelude::*;
use vstd::relations::{sorted_by, total_ordering};

use crate::graph::{link_at, link_count, page, page_count, wiki_edges, wiki_nodes, LabeledEdge, PageNode, WikiGraph};
use crate::links::texts;
use crate::text::{
    chars_of, concat, decimal, decimal_exec, join, lemma_str_lt_asym, lemma_str_lt_irrefl,
    lemma_str_lt_total, lemma_str_lt_trans, push_chars, push_joined, push_str, seq_eq,
    sort_strings, str_le, str_lt, str_lt_exec, string_of, strings_sorted,
};

verus! {

// ── Orders ────────────────────────────────────────────────────────────────────

/// Order of (name, count) groups: larger count first, then by name.
pub open spec fn group_le(a: (Seq<char>, nat), b: (Seq<char>, nat)) -> bool {
    a.1 > b.1 || (a.1 == b.1 && str_le(a.0, b.0))
}

/// Order of (node, degree) pairs: larger degree first, then lower index.
pub open spec fn hub_le(a: (nat, nat), b: (nat, nat)) -> bool {
    a.1 > b.1 || (a.1 == b.1 && a.0 <= b.0)
}

/// `str_le` is a total order.
pub proof fn lemma_str_le_total_ordering()
    ensures
        total_ordering(|a: Seq<char>, b: Seq<char>| str_le(a, b)),
{
    let r = |a: Seq<char>, b: Seq<char>| str_le(a, b);
    assert forall|a: Seq<char>, b: Seq<char>| #[trigger] r(a, b) && #[trigger] r(b, a) implies a
        == b by {
        if a != b {
            lemma_str_lt_asym(a, b);
        }
    }
    assert forall|a: Seq<char>, b: Seq<char>, c: Seq<char>| #[trigger] r(a, b) && #[trigger] r(
        b,
        c,
    ) implies r(a, c) by {
        if a != b && b != c {
            lemma_str_lt_trans(a, b, c);
        }
    }
    assert forall|a: Seq<char>, b: Seq<char>| #[trigger] r(a, b) || #[trigger] r(b, a) by {
        lemma_str_lt_total(a, b);
    }
}

/// `group_le` is a total order.
pub proof fn lemma_group_le_total_ordering()
    ensures
        total_ordering(|a: (Seq<char>, nat), b: (Seq<char>, nat)| group_le(a, b)),
{
    let r = |a: (Seq<char>, nat), b: (Seq<char>, nat)| group_le(a, b);
    assert forall|a: (Seq<char>, nat), b: (Seq<char>, nat)| #[trigger] r(a, b) && #[trigger] r(
        b,
        a,
    ) implies a == b by {
        if a.0 != b.0 {
            lemma_str_lt_asym(a.0, b.0);
        }
    }
    assert forall|a: (Seq<char>, nat), b: (Seq<char>, nat), c: (Seq<char>, nat)| #[trigger] r(
        a,
        b,
    ) && #[trigger] r(b, c) implies r(a, c) by {
        if a.1 == b.1 && b.1 == c.1 && a.0 != b.0 && b.0 != c.0 {
            lemma_str_lt_trans(a.0, b.0, c.0);
        }
    }
    assert forall|a: (Seq<char>, nat), b: (Seq<char>, nat)| #[trigger] r(a, b) || #[trigger] r(
        b,
        a,
    ) by {
        lemma_str_lt_total(a.0, b.0);
    }
}

/// `hub_le` is a total order.
pub proof fn lemma_hub_le_total_ordering()
    ensures
        total_ordering(|a: (nat, nat), b: (nat, nat)| hub_le(a, b)),
{
}

// ── Sorting ───────────────────────────────────────────────────────────────────

/// The (text, count) views of counted names.
pub open spec fn counted(v: Seq<(String, usize)>) -> Seq<(Seq<char>, nat)> {
    v.map_values(|p: (String, usize)| (p.0@, p.1 as nat))
}

/// Whether `a` sorts strictly before `b` in the group order.
fn group_before(a: &(String, usize), b: &(String, usize)) -> (r: bool)
    ensures
        r == (group_le((a.0@, a.1 as nat), (b.0@, b.1 as nat)) && (a.0@, a.1 as nat) != (b.0@, b.1 as nat)),
{
    if a.1 != b.1 {
        return a.1 > b.1;
    }
    let x = chars_of(a.0.as_str());
    let y = chars_of(b.0.as_str());
    let r = str_lt_exec(&x, &y);
    proof {
        if r {
            assert(x@ != y@) by {
                if x@ == y@ {
                    lemma_str_lt_irrefl(x@);
                }
            }
        }
    }
    r
}

/// Sort counted names by the group order (an insertion sort).
pub fn sort_counted(v: Vec<(String, usize)>) -> (r: Vec<(String, usize)>)
    ensures
        sorted_by(counted(r@), |a: (Seq<char>, nat), b: (Seq<char>, nat)| group_le(a, b)),
        counted(r@).to_multiset() == counted(v@).to_multiset(),
{
    broadcast use vstd::seq_lib::group_to_multiset_ensures;
    broadcast use vstd::multiset::group_multiset_axioms;

    proof {
        lemma_group_le_total_ordering();
    }
    let ghost le = |a: (Seq<char>, nat), b: (Seq<char>, nat)| group_le(a, b);
    let ghost orig = counted(v@);
    let mut v = v;
    let mut out: Vec<(String, usize)> = Vec::new();
    while v.len() > 0
        invariant
            le == (|a: (Seq<char>, nat), b: (Seq<char>, nat)| group_le(a, b)),
            total_ordering(le),
            sorted_by(counted(out@), le),
            counted(out@).to_multiset().add(counted(v@).to_multiset()) == orig.to_multiset(),
        decreases v.len(),
    {
        let ghost before_v = v@;
        let x = v.pop().unwrap();
        let ghost xv = (x.0@, x.1 as nat);
        proof {
            assert(counted(before_v) =~= counted(v@).push(xv));
            vstd::seq_lib::to_multiset_build(counted(v@), xv);
        }
        let mut j: usize = 0;
        while j < out.len() && !group_before(&x, &out[j])
            invariant
                j <= out@.len(),
                xv == (x.0@, x.1 as nat),
                le == (|a: (Seq<char>, nat), b: (Seq<char>, nat)| group_le(a, b)),
                total_ordering(le),
                forall|i: int| 0 <= i < j ==> le(#[trigger] counted(out@)[i], xv),
            decreases out.len() - j,
        {
            proof {
                let o = counted(out@)[j as int];
                if !le(o, xv) {
                    assert(le(xv, o));
                    assert(o != xv);
                }
            }
            j = j + 1;
        }
        let ghost before_out = counted(out@);
        out.insert(j, x);
        proof {
            assert(counted(out@) =~= before_out.insert(j as int, xv));
            vstd::seq_lib::to_multiset_insert(before_out, j as int, xv);
            let c = counted(out@);
            if j < before_out.len() {
                assert(le(xv, before_out[j as int]));
            }
            assert forall|a: int, b: int| 0 <= a < b < c.len() implies #[trigger] le(
                c[a],
                c[b],
            ) by {
                if b < j {
                    assert(c[a] == before_out[a] && c[b] == before_out[b]);
                } else if a > j {
                    assert(c[a] == before_out[a - 1] && c[b] == before_out[b - 1]);
                } else if b == j {
                    assert(c[b] == xv && c[a] == before_out[a]);
                } else if a == j {
                    assert(c[a] == xv && c[b] == before_out[b - 1]);
                    if b - 1 > j {
                        assert(le(before_out[j as int], before_out[b - 1]));
                    }
                } else {
                    assert(c[a] == before_out[a] && c[b] == before_out[b - 1]);
                }
            }
        }
    }
    proof {
        assert(counted(v@) =~= Seq::<(Seq<char>, nat)>::empty());
    }
    out
}

/// The (node, degree) views of degree pairs.
pub open spec fn degree_pairs(v: Seq<(usize, u64)>) -> Seq<(nat, nat)> {
    v.map_values(|p: (usize, u64)| (p.0 as nat, p.1 as nat))
}

/// Sort (node, degree) pairs by the hub order (an insertion sort).
pub fn sort_hubs(v: Vec<(usize, u64)>) -> (r: Vec<(usize, u64)>)
    ensures
        sorted_by(degree_pairs(r@), |a: (nat, nat), b: (nat, nat)| hub_le(a, b)),
        degree_pairs(r@).to_multiset() == degree_pairs(v@).to_multiset(),
{
    broadcast use vstd::seq_lib::group_to_multiset_ensures;
    broadcast use vstd::multiset::group_multiset_axioms;

    let ghost le = |a: (nat, nat), b: (nat, nat)| hub_le(a, b);
    let ghost orig = degree_pairs(v@);
    let mut v = v;
    let mut out: Vec<(usize, u64)> = Vec::new();
    while v.len() > 0
        invariant
            le == (|a: (nat, nat), b: (nat, nat)| hub_le(a, b)),
            sorted_by(degree_pairs(out@), le),
            degree_pairs(out@).to_multiset().add(degree_pairs(v@).to_multiset()) == orig.to_multiset(),
        decreases v.len(),
    {
        let ghost before_v = v@;
        let x = v.pop().unwrap();
        let ghost xv = (x.0 as nat, x.1 as nat);
        proof {
            assert(degree_pairs(before_v) =~= degree_pairs(v@).push(xv));
            vstd::seq_lib::to_multiset_build(degree_pairs(v@), xv);
        }
        let mut j: usize = 0;
        while j < out.len() && !(x.1 > out[j].1 || (x.1 == out[j].1 && x.0 < out[j].0))
            invariant
                j <= out@.len(),
                xv == (x.0 as nat, x.1 as nat),
                le == (|a: (nat, nat), b: (nat, nat)| hub_le(a, b)),
                forall|i: int| 0 <= i < j ==> le(#[trigger] degree_pairs(out@)[i], xv),
            decreases out.len() - j,
        {
            j = j + 1;
        }
        let ghost before_out = degree_pairs(out@);
        out.insert(j, x);
        proof {
            assert(degree_pairs(out@) =~= before_out.insert(j as int, xv));
            vstd::seq_lib::to_multiset_insert(before_out, j as int, xv);
            let c = degree_pairs(out@);
            assert forall|a: int, b: int| 0 <= a < b < c.len() implies #[trigger] le(
                c[a],
                c[b],
            ) by {
                if b < j {
                    assert(c[a] == before_out[a] && c[b] == before_out[b]);
                } else if a > j {
                    assert(c[a] == before_out[a - 1] && c[b] == before_out[b - 1]);
                } else if b == j {
                    assert(c[b] == xv && c[a] == before_out[a]);
                } else if a == j {
                    assert(c[a] == xv && c[b] == before_out[b - 1]);
                    if b - 1 > j {
                        assert(le(before_out[j as int], before_out[b - 1]));
                    }
                } else {
                    assert(c[a] == before_out[a] && c[b] == before_out[b - 1]);
                }
            }
        }
    }
    proof {
        assert(degree_pairs(v@) =~= Seq::<(nat, nat)>::empty());
    }
    out
}

/// Strings sorted by `sort_strings` are sorted by `str_le`.
pub proof fn lemma_strings_sorted_by(s: Seq<String>)
    requires
        strings_sorted(s),
    ensures
        sorted_by(texts(s), |a: Seq<char>, b: Seq<char>| str_le(a, b)),
{
    let r = |a: Seq<char>, b: Seq<char>| str_le(a, b);
    assert forall|i: int, j: int| 0 <= i < j < texts(s).len() implies #[trigger] r(
        texts(s)[i],
        texts(s)[j],
    ) by {
        assert(!str_lt(s[j]@, s[i]@));
        lemma_str_lt_total(s[i]@, s[j]@);
    }
}


// ── What the account says ─────────────────────────────────────────────────────

/// The types of the local (not external) pages, each once, in order of
/// first appearance.
pub open spec fn local_types(nodes: Seq<PageNode>) -> Seq<Seq<char>>
    decreases nodes.len(),
{
    if nodes.len() == 0 {
        seq![]
    } else {
        let prev = local_types(nodes.drop_last());
        let n = nodes.last();
        if !n.external && !prev.contains(n.page_type@) {
            prev.push(n.page_type@)
        } else {
            prev
        }
    }
}

/// The titles of the local pages of type `t`, in node order.
pub open spec fn titles_of_type(nodes: Seq<PageNode>, t: Seq<char>) -> Seq<Seq<char>>
    decreases nodes.len(),
{
    if nodes.len() == 0 {
        seq![]
    } else {
        let prev = titles_of_type(nodes.drop_last(), t);
        let n = nodes.last();
        if !n.external && n.page_type@ == t {
            prev.push(n.title@)
        } else {
            prev
        }
    }
}

/// The type groups (type, number of pages), larger groups first, then by
/// type name.
pub open spec fn type_groups(nodes: Seq<PageNode>) -> Seq<(Seq<char>, nat)> {
    local_types(nodes).map_values(|t: Seq<char>| (t, titles_of_type(nodes, t).len())).sort_by(
        |a: (Seq<char>, nat), b: (Seq<char>, nat)| group_le(a, b),
    )
}

/// The relations of the edges, each once, in order of first appearance.
pub open spec fn relation_names(edges: Seq<(usize, usize, LabeledEdge)>) -> Seq<Seq<char>>
    decreases edges.len(),
{
    if edges.len() == 0 {
        seq![]
    } else {
        let prev = relation_names(edges.drop_last());
        let r = edges.last().2.relation@;
        if !prev.contains(r) {
            prev.push(r)
        } else {
            prev
        }
    }
}

/// The number of edges with relation `r`.
pub open spec fn relation_count(edges: Seq<(usize, usize, LabeledEdge)>, r: Seq<char>) -> nat
    decreases edges.len(),
{
    if edges.len() == 0 {
        0
    } else {
        relation_count(edges.drop_last(), r) + if edges.last().2.relation@ == r {
            1nat
        } else {
            0nat
        }
    }
}

/// The relations with their edge counts, most used first, then by name.
pub open spec fn relation_groups(edges: Seq<(usize, usize, LabeledEdge)>) -> Seq<(Seq<char>, nat)> {
    relation_names(edges).map_values(|r: Seq<char>| (r, relation_count(edges, r))).sort_by(
        |a: (Seq<char>, nat), b: (Seq<char>, nat)| group_le(a, b),
    )
}

/// The number of edge ends at node `i`: edges leaving it plus edges
/// entering it (a loop counts twice).
pub open spec fn degree(edges: Seq<(usize, usize, LabeledEdge)>, i: nat) -> nat
    decreases edges.len(),
{
    if edges.len() == 0 {
        0
    } else {
        let e = edges.last();
        degree(edges.drop_last(), i) + (if e.0 == i {
            1nat
        } else {
            0nat
        }) + (if e.1 == i {
            1nat
        } else {
            0nat
        })
    }
}

/// The nodes below `n` with at least one edge, with their degrees, in
/// node order.
pub open spec fn linked_nodes(n: nat, edges: Seq<(usize, usize, LabeledEdge)>) -> Seq<(nat, nat)>
    decreases n,
{
    if n == 0 {
        seq![]
    } else {
        let prev = linked_nodes((n - 1) as nat, edges);
        let d = degree(edges, (n - 1) as nat);
        if d > 0 {
            prev.push(((n - 1) as nat, d))
        } else {
            prev
        }
    }
}

/// The hubs: at most five linked nodes, highest degree first, lower index
/// first among equals.
pub open spec fn hubs(n: nat, edges: Seq<(usize, usize, LabeledEdge)>) -> Seq<(nat, nat)> {
    let s = linked_nodes(n, edges).sort_by(|a: (nat, nat), b: (nat, nat)| hub_le(a, b));
    if s.len() > 5 {
        s.take(5)
    } else {
        s
    }
}

/// The nodes below `n` without any edge, in node order.
pub open spec fn isolated(n: nat, edges: Seq<(usize, usize, LabeledEdge)>) -> Seq<nat>
    decreases n,
{
    if n == 0 {
        seq![]
    } else {
        let prev = isolated((n - 1) as nat, edges);
        if degree(edges, (n - 1) as nat) == 0 {
            prev.push((n - 1) as nat)
        } else {
            prev
        }
    }
}

/// The titles of the external nodes, in node order.
pub open spec fn external_titles(nodes: Seq<PageNode>) -> Seq<Seq<char>>
    decreases nodes.len(),
{
    if nodes.len() == 0 {
        seq![]
    } else {
        let prev = external_titles(nodes.drop_last());
        if nodes.last().external {
            prev.push(nodes.last().title@)
        } else {
            prev
        }
    }
}

/// Titles in ascending order.
pub open spec fn sorted_titles(titles: Seq<Seq<char>>) -> Seq<Seq<char>> {
    titles.sort_by(|a: Seq<char>, b: Seq<char>| str_le(a, b))
}

/// At most eight titles, joined; `, ...` marks that some were left out.
pub open spec fn sample_text(titles: Seq<Seq<char>>) -> Seq<char> {
    if titles.len() > 8 {
        join(titles.take(8), ", "@) + ", ..."@
    } else {
        join(titles, ", "@)
    }
}

/// The line of one type group.
pub open spec fn group_line(nodes: Seq<PageNode>, g: (Seq<char>, nat)) -> Seq<char> {
    "**"@ + g.0 + "** ("@ + decimal(g.1) + " nodes): "@ + sample_text(
        sorted_titles(titles_of_type(nodes, g.0)),
    ) + "\n"@
}

/// The line of one relation.
pub open spec fn relation_line(r: (Seq<char>, nat)) -> Seq<char> {
    "- `"@ + r.0 + "` ("@ + decimal(r.1) + ")\n"@
}

/// A hub as it is named: its title and degree.
pub open spec fn hub_text(nodes: Seq<PageNode>, h: (nat, nat)) -> Seq<char> {
    nodes[h.0 as int].title@ + " ("@ + decimal(h.1) + " edges)"@
}

/// The opening sentence.
pub open spec fn llms_header(nodes: Seq<PageNode>, edges: Seq<(usize, usize, LabeledEdge)>) -> Seq<char> {
    "The wiki graph has "@ + decimal(nodes.len()) + " nodes and "@ + decimal(edges.len())
        + " edges across "@ + decimal(local_types(nodes).len()) + " type groups.\n\n"@
}

/// The hubs paragraph (empty without hubs).
pub open spec fn hubs_part(nodes: Seq<PageNode>, edges: Seq<(usize, usize, LabeledEdge)>) -> Seq<char> {
    let h = hubs(nodes.len(), edges);
    if h.len() == 0 {
        seq![]
    } else {
        "\nKey hubs: "@ + join(h.map_values(|x: (nat, nat)| hub_text(nodes, x)), ", "@) + "\n"@
    }
}

/// The relations paragraph (empty without edges).
pub open spec fn relations_part(edges: Seq<(usize, usize, LabeledEdge)>) -> Seq<char> {
    let r = relation_groups(edges);
    if r.len() == 0 {
        seq![]
    } else {
        "\n**Edges by relation:**\n"@ + concat(r.map_values(|x: (Seq<char>, nat)| relation_line(x)))
    }
}

/// The isolated-nodes paragraph (empty when every node has an edge).
pub open spec fn isolated_part(nodes: Seq<PageNode>, edges: Seq<(usize, usize, LabeledEdge)>) -> Seq<char> {
    let i = isolated(nodes.len(), edges);
    if i.len() == 0 {
        seq![]
    } else {
        "\n**Isolated nodes ("@ + decimal(i.len()) + "):** "@ + join(
            i.map_values(|k: nat| nodes[k as int].title@),
            ", "@,
        ) + "\n"@
    }
}

/// The external-references paragraph (empty without external nodes).
pub open spec fn external_part(nodes: Seq<PageNode>) -> Seq<char> {
    let x = external_titles(nodes);
    if x.len() == 0 {
        seq![]
    } else {
        "\n**External references ("@ + decimal(x.len()) + "):** "@ + join(sorted_titles(x), ", "@)
            + "\n"@
    }
}

/// Each relation is counted once per edge that carries it, and the
/// relations named are exactly those of the edges, each once.
pub proof fn relation_counts_exact(edges: Seq<(usize, usize, LabeledEdge)>)
    ensures
        forall|r: Seq<char>|
            #![trigger relation_count(edges, r)]
            relation_count(edges, r) == edges.filter(
                |e: (usize, usize, LabeledEdge)| e.2.relation@ == r,
            ).len(),
        relation_names(edges).no_duplicates(),
        forall|k: int| 0 <= k < edges.len() ==> relation_names(edges).contains(#[trigger] edges[k].2.relation@),
        forall|r: Seq<char>|
            #![trigger relation_names(edges).contains(r)]
            relation_names(edges).contains(r) ==> exists|k: int|
                0 <= k < edges.len() && (#[trigger] edges[k]).2.relation@ == r,
    decreases edges.len(),
{
    reveal(Seq::filter);
    if edges.len() > 0 {
        let init = edges.drop_last();
        relation_counts_exact(init);
        let last = edges.last().2.relation@;
        let prev = relation_names(init);
        assert forall|r: Seq<char>|
            #![trigger relation_count(edges, r)]
            relation_count(edges, r) == edges.filter(
                |e: (usize, usize, LabeledEdge)| e.2.relation@ == r,
            ).len() by {
            assert(relation_count(init, r) == init.filter(
                |e: (usize, usize, LabeledEdge)| e.2.relation@ == r,
            ).len());
        }
        assert forall|k: int| 0 <= k < edges.len() implies relation_names(edges).contains(
            #[trigger] edges[k].2.relation@,
        ) by {
            if k < init.len() {
                assert(init[k] == edges[k]);
                assert(prev.contains(init[k].2.relation@));
                if !prev.contains(last) {
                    let q = choose|q: int| 0 <= q < prev.len() && prev[q] == edges[k].2.relation@;
                    assert(relation_names(edges)[q] == edges[k].2.relation@);
                }
            } else {
                if !prev.contains(last) {
                    assert(relation_names(edges)[prev.len() as int] == last);
                }
            }
        }
        assert forall|r: Seq<char>|
            #![trigger relation_names(edges).contains(r)]
            relation_names(edges).contains(r) implies exists|k: int|
                0 <= k < edges.len() && (#[trigger] edges[k]).2.relation@ == r by {
            if prev.contains(r) {
                let k = choose|k: int| 0 <= k < init.len() && (#[trigger] init[k]).2.relation@ == r;
                assert(edges[k] == init[k]);
            } else {
                let q = choose|q: int| 0 <= q < relation_names(edges).len() && relation_names(edges)[q] == r;
                if q < prev.len() {
                    assert(relation_names(edges)[q] == prev[q]);
                }
                assert(edges[edges.len() - 1] == edges.last());
            }
        }
    }
}

/// A node counts one edge end for each edge leaving it and one for each
/// edge entering it.
pub proof fn degree_exact(edges: Seq<(usize, usize, LabeledEdge)>, i: nat)
    ensures
        degree(edges, i) == edges.filter(|e: (usize, usize, LabeledEdge)| e.0 == i).len() + edges.filter(
            |e: (usize, usize, LabeledEdge)| e.1 == i,
        ).len(),
    decreases edges.len(),
{
    reveal(Seq::filter);
    if edges.len() > 0 {
        degree_exact(edges.drop_last(), i);
    }
}

/// The isolated nodes are, in order, exactly the nodes below `n` that no
/// edge leaves or enters.
pub proof fn isolated_exact(n: nat, edges: Seq<(usize, usize, LabeledEdge)>)
    ensures
        forall|q: int|
            #![trigger isolated(n, edges)[q]]
            0 <= q < isolated(n, edges).len() ==> isolated(n, edges)[q] < n && forall|e: int|
                0 <= e < edges.len() ==> (#[trigger] edges[e]).0 != isolated(n, edges)[q] && edges[e].1
                    != isolated(n, edges)[q],
        forall|p: int, q: int|
            0 <= p < q < isolated(n, edges).len() ==> #[trigger] isolated(n, edges)[p] < #[trigger] isolated(
                n,
                edges,
            )[q],
        forall|k: nat|
            k < n && (forall|e: int| 0 <= e < edges.len() ==> (#[trigger] edges[e]).0 != k && edges[e].1 != k)
                ==> #[trigger] isolated(n, edges).contains(k),
    decreases n,
{
    if n > 0 {
        let m = (n - 1) as nat;
        isolated_exact(m, edges);
        lemma_degree_zero(edges, m);
        let prev = isolated(m, edges);
        let cur = isolated(n, edges);
        assert forall|k: nat|
            k < n && (forall|e: int| 0 <= e < edges.len() ==> (#[trigger] edges[e]).0 != k && edges[e].1 != k)
                implies #[trigger] cur.contains(k) by {
            if k < m {
                assert(prev.contains(k));
                let q = choose|q: int| 0 <= q < prev.len() && prev[q] == k;
                assert(cur[q] == k);
            } else {
                assert(cur[prev.len() as int] == k);
            }
        }
    }
}

proof fn lemma_degree_zero(edges: Seq<(usize, usize, LabeledEdge)>, i: nat)
    ensures
        degree(edges, i) == 0 <==> forall|e: int| 0 <= e < edges.len() ==> (#[trigger] edges[e]).0 != i && edges[e].1 != i,
    decreases edges.len(),
{
    if edges.len() > 0 {
        let init = edges.drop_last();
        let n = init.len() as int;
        lemma_degree_zero(init, i);
        assert(edges[n] == edges.last());
        if degree(edges, i) == 0 {
            assert forall|e: int| 0 <= e < edges.len() implies (#[trigger] edges[e]).0 != i && edges[e].1 != i by {
                if e < n {
                    assert(init[e] == edges[e]);
                }
            }
        }
        if forall|e: int| 0 <= e < edges.len() ==> (#[trigger] edges[e]).0 != i && edges[e].1 != i {
            assert forall|e: int| 0 <= e < init.len() implies (#[trigger] init[e]).0 != i && init[e].1 != i by {
                assert(init[e] == edges[e]);
            }
        }
    }
}

/// The titles of a type group are those of the local nodes of that type,
/// in node order, and the external references are the titles of the
/// external nodes, in node order.
pub proof fn group_titles_exact(nodes: Seq<PageNode>, t: Seq<char>)
    ensures
        titles_of_type(nodes, t) == nodes.filter(|n: PageNode| !n.external && n.page_type@ == t).map_values(
            |n: PageNode| n.title@,
        ),
        external_titles(nodes) == nodes.filter(|n: PageNode| n.external).map_values(|n: PageNode| n.title@),
    decreases nodes.len(),
{
    reveal(Seq::filter);
    if nodes.len() > 0 {
        group_titles_exact(nodes.drop_last(), t);
    }
}

/// The whole account of a graph with these nodes and edges.
pub open spec fn llms_spec(nodes: Seq<PageNode>, edges: Seq<(usize, usize, LabeledEdge)>) -> Seq<char> {
    llms_header(nodes, edges) + concat(
        type_groups(nodes).map_values(|g: (Seq<char>, nat)| group_line(nodes, g)),
    ) + hubs_part(nodes, edges) + relations_part(edges) + isolated_part(nodes, edges)
        + external_part(nodes)
}


// ── Gathering ─────────────────────────────────────────────────────────────────

/// Strings sorted by `sort_strings` from a permutation of `orig` are
/// `orig` in ascending order.
proof fn lemma_sorted_titles(v: Seq<String>, orig: Seq<Seq<char>>)
    requires
        strings_sorted(v),
        texts(v).to_multiset() == orig.to_multiset(),
    ensures
        texts(v) == sorted_titles(orig),
{
    let le = |a: Seq<char>, b: Seq<char>| str_le(a, b);
    lemma_str_le_total_ordering();
    lemma_strings_sorted_by(v);
    orig.lemma_sort_by_ensures(le);
    vstd::seq_lib::lemma_sorted_unique(texts(v), orig.sort_by(le), le);
}

/// The types of the local pages of `g`, each once, in node order.
fn collect_types(g: &WikiGraph) -> (r: Vec<String>)
    ensures
        texts(r@) == local_types(wiki_nodes(*g)),
{
    let ghost nodes = wiki_nodes(*g);
    let n = page_count(g);
    let mut r: Vec<String> = Vec::new();
    let mut i: usize = 0;
    assert(nodes.take(0) =~= Seq::<PageNode>::empty());
    assert(texts(r@) =~= Seq::<Seq<char>>::empty());
    while i < n
        invariant
            0 <= i <= n,
            n == nodes.len(),
            nodes == wiki_nodes(*g),
            texts(r@) == local_types(nodes.take(i as int)),
        decreases n - i,
    {
        let p = page(g, i);
        let t = chars_of(p.page_type.as_str());
        proof {
            assert(nodes.take(i + 1).drop_last() =~= nodes.take(i as int));
            assert(nodes.take(i + 1).last() == nodes[i as int]);
        }
        if !p.external && !crate::links::contains_text(&r, &t) {
            r.push(p.page_type.clone());
            assert(texts(r@) =~= local_types(nodes.take(i as int)).push(p.page_type@));
        }
        i = i + 1;
    }
    assert(nodes.take(n as int) =~= nodes);
    r
}

/// The titles of the local pages of `g` whose type is `t`, in node order.
fn titles_for(g: &WikiGraph, t: &[char]) -> (r: Vec<String>)
    ensures
        texts(r@) == titles_of_type(wiki_nodes(*g), t@),
{
    let ghost nodes = wiki_nodes(*g);
    let n = page_count(g);
    let mut r: Vec<String> = Vec::new();
    let mut i: usize = 0;
    assert(nodes.take(0) =~= Seq::<PageNode>::empty());
    assert(texts(r@) =~= Seq::<Seq<char>>::empty());
    while i < n
        invariant
            0 <= i <= n,
            n == nodes.len(),
            nodes == wiki_nodes(*g),
            texts(r@) == titles_of_type(nodes.take(i as int), t@),
        decreases n - i,
    {
        let p = page(g, i);
        let pt = chars_of(p.page_type.as_str());
        proof {
            assert(nodes.take(i + 1).drop_last() =~= nodes.take(i as int));
            assert(nodes.take(i + 1).last() == nodes[i as int]);
        }
        if !p.external && seq_eq(&pt, t) {
            r.push(p.title.clone());
            assert(texts(r@) =~= titles_of_type(nodes.take(i as int), t@).push(p.title@));
        }
        i = i + 1;
    }
    assert(nodes.take(n as int) =~= nodes);
    r
}

/// The type groups of `g`, in the order of `type_groups`.
fn type_groups_exec(g: &WikiGraph) -> (r: Vec<(String, usize)>)
    ensures
        counted(r@) == type_groups(wiki_nodes(*g)),
{
    let ghost nodes = wiki_nodes(*g);
    let types = collect_types(g);
    let ghost f = |t: Seq<char>| (t, titles_of_type(nodes, t).len());
    let ghost all = local_types(nodes).map_values(f);
    let mut pairs: Vec<(String, usize)> = Vec::new();
    let mut k: usize = 0;
    while k < types.len()
        invariant
            0 <= k <= types.len(),
            nodes == wiki_nodes(*g),
            texts(types@) == local_types(nodes),
            f == (|t: Seq<char>| (t, titles_of_type(nodes, t).len())),
            all == local_types(nodes).map_values(f),
            counted(pairs@) == all.take(k as int),
        decreases types.len() - k,
    {
        let t = chars_of(types[k].as_str());
        let titles = titles_for(g, &t);
        let ghost before = counted(pairs@);
        pairs.push((types[k].clone(), titles.len()));
        proof {
            assert(texts(types@)[k as int] == types@[k as int]@);
            assert(titles@.len() == texts(titles@).len());
            assert(all[k as int] == f(local_types(nodes)[k as int]));
            assert(counted(pairs@) =~= before.push((types@[k as int]@, titles@.len() as nat)));
            assert(all.take(k + 1) =~= all.take(k as int).push(all[k as int]));
        }
        k = k + 1;
    }
    assert(all.take(types.len() as int) =~= all);
    let sorted = sort_counted(pairs);
    proof {
        let le = |a: (Seq<char>, nat), b: (Seq<char>, nat)| group_le(a, b);
        lemma_group_le_total_ordering();
        all.lemma_sort_by_ensures(le);
        vstd::seq_lib::lemma_sorted_unique(counted(sorted@), all.sort_by(le), le);
    }
    sorted
}

/// The relations of the edges of `g`, each once, in edge order.
fn collect_relations(g: &WikiGraph) -> (r: Vec<String>)
    ensures
        texts(r@) == relation_names(wiki_edges(*g)),
{
    let ghost edges = wiki_edges(*g);
    let m = link_count(g);
    let mut r: Vec<String> = Vec::new();
    let mut k: usize = 0;
    assert(edges.take(0) =~= Seq::<(usize, usize, LabeledEdge)>::empty());
    assert(texts(r@) =~= Seq::<Seq<char>>::empty());
    while k < m
        invariant
            0 <= k <= m,
            m == edges.len(),
            edges == wiki_edges(*g),
            texts(r@) == relation_names(edges.take(k as int)),
        decreases m - k,
    {
        let (_a, _b, e) = link_at(g, k);
        let rel = chars_of(e.relation.as_str());
        proof {
            assert(edges.take(k + 1).drop_last() =~= edges.take(k as int));
            assert(edges.take(k + 1).last() == edges[k as int]);
        }
        if !crate::links::contains_text(&r, &rel) {
            r.push(e.relation.clone());
            assert(texts(r@) =~= relation_names(edges.take(k as int)).push(e.relation@));
        }
        k = k + 1;
    }
    assert(edges.take(m as int) =~= edges);
    r
}

/// The number of edges of `g` with relation `rel`.
fn count_relation(g: &WikiGraph, rel: &[char]) -> (c: usize)
    ensures
        c == relation_count(wiki_edges(*g), rel@),
{
    let ghost edges = wiki_edges(*g);
    let m = link_count(g);
    let mut c: usize = 0;
    let mut k: usize = 0;
    assert(edges.take(0) =~= Seq::<(usize, usize, LabeledEdge)>::empty());
    while k < m
        invariant
            0 <= k <= m,
            m == edges.len(),
            edges == wiki_edges(*g),
            c == relation_count(edges.take(k as int), rel@),
            c <= k,
        decreases m - k,
    {
        let (_a, _b, e) = link_at(g, k);
        let r = chars_of(e.relation.as_str());
        proof {
            assert(edges.take(k + 1).drop_last() =~= edges.take(k as int));
            assert(edges.take(k + 1).last() == edges[k as int]);
        }
        if seq_eq(&r, rel) {
            c = c + 1;
        }
        k = k + 1;
    }
    assert(edges.take(m as int) =~= edges);
    c
}

/// The relation groups of `g`, in the order of `relation_groups`.
fn relation_groups_exec(g: &WikiGraph) -> (r: Vec<(String, usize)>)
    ensures
        counted(r@) == relation_groups(wiki_edges(*g)),
{
    let ghost edges = wiki_edges(*g);
    let names = collect_relations(g);
    let ghost f = |r: Seq<char>| (r, relation_count(edges, r));
    let ghost all = relation_names(edges).map_values(f);
    let mut pairs: Vec<(String, usize)> = Vec::new();
    let mut k: usize = 0;
    while k < names.len()
        invariant
            0 <= k <= names.len(),
            edges == wiki_edges(*g),
            texts(names@) == relation_names(edges),
            f == (|r: Seq<char>| (r, relation_count(edges, r))),
            all == relation_names(edges).map_values(f),
            counted(pairs@) == all.take(k as int),
        decreases names.len() - k,
    {
        let rel = chars_of(names[k].as_str());
        let c = count_relation(g, &rel);
        let ghost before = counted(pairs@);
        pairs.push((names[k].clone(), c));
        proof {
            assert(texts(names@)[k as int] == names@[k as int]@);
            assert(all[k as int] == f(relation_names(edges)[k as int]));
            assert(counted(pairs@) =~= before.push((names@[k as int]@, c as nat)));
            assert(all.take(k + 1) =~= all.take(k as int).push(all[k as int]));
        }
        k = k + 1;
    }
    assert(all.take(names.len() as int) =~= all);
    let sorted = sort_counted(pairs);
    proof {
        let le = |a: (Seq<char>, nat), b: (Seq<char>, nat)| group_le(a, b);
        lemma_group_le_total_ordering();
        all.lemma_sort_by_ensures(le);
        vstd::seq_lib::lemma_sorted_unique(counted(sorted@), all.sort_by(le), le);
    }
    sorted
}

/// A node's degree over a prefix of the edges is at most twice its length.
proof fn lemma_degree_bound(edges: Seq<(usize, usize, LabeledEdge)>, i: nat)
    ensures
        degree(edges, i) <= 2 * edges.len(),
    decreases edges.len(),
{
    if edges.len() > 0 {
        lemma_degree_bound(edges.drop_last(), i);
    }
}

/// The degree of every node of `g`.
fn degrees_exec(g: &WikiGraph) -> (d: Vec<u64>)
    ensures
        d@.len() == wiki_nodes(*g).len(),
        forall|i: int| 0 <= i < d@.len() ==> d@[i] == degree(wiki_edges(*g), i as nat),
{
    let ghost edges = wiki_edges(*g);
    let n = page_count(g);
    let m = link_count(g);
    let mut d: Vec<u64> = Vec::new();
    let mut i: usize = 0;
    while i < n
        invariant
            0 <= i <= n,
            d@.len() == i,
            forall|j: int| 0 <= j < i ==> d@[j] == 0,
        decreases n - i,
    {
        d.push(0);
        i = i + 1;
    }
    let mut k: usize = 0;
    assert(edges.take(0) =~= Seq::<(usize, usize, LabeledEdge)>::empty());
    while k < m
        invariant
            0 <= k <= m,
            m == edges.len(),
            m <= crate::graph::index_limit(),
            n == wiki_nodes(*g).len(),
            edges == wiki_edges(*g),
            d@.len() == n,
            forall|j: int| 0 <= j < n ==> #[trigger] d@[j] == degree(edges.take(k as int), j as nat),
        decreases m - k,
    {
        let (a, b, _e) = link_at(g, k);
        proof {
            assert(edges.take(k + 1).drop_last() =~= edges.take(k as int));
            assert(edges.take(k + 1).last() == edges[k as int]);
            lemma_degree_bound(edges.take(k as int), a as nat);
            lemma_degree_bound(edges.take(k as int), b as nat);
        }
        let da = d[a];
        d.set(a, da + 1);
        let db = d[b];
        d.set(b, db + 1);
        proof {
            assert forall|j: int| 0 <= j < n implies #[trigger] d@[j] == degree(
                edges.take(k + 1),
                j as nat,
            ) by {
                assert(degree(edges.take(k + 1), j as nat) == degree(edges.take(k as int), j as nat)
                    + (if a == j { 1nat } else { 0nat }) + (if b == j { 1nat } else { 0nat }));
            }
        }
        k = k + 1;
    }
    assert(edges.take(m as int) =~= edges);
    d
}


/// Every linked node is a node of the graph.
proof fn lemma_linked_in_range(n: nat, edges: Seq<(usize, usize, LabeledEdge)>)
    ensures
        forall|k: int| 0 <= k < linked_nodes(n, edges).len() ==> (#[trigger] linked_nodes(n, edges)[k]).0 < n,
    decreases n,
{
    if n > 0 {
        lemma_linked_in_range((n - 1) as nat, edges);
        let prev = linked_nodes((n - 1) as nat, edges);
        assert forall|k: int| 0 <= k < linked_nodes(n, edges).len() implies (
        #[trigger] linked_nodes(n, edges)[k]).0 < n by {
            if k < prev.len() {
                assert(linked_nodes(n, edges)[k] == prev[k]);
            }
        }
    }
}

/// Every hub is a node of the graph.
proof fn lemma_hubs_in_range(n: nat, edges: Seq<(usize, usize, LabeledEdge)>)
    ensures
        forall|k: int| 0 <= k < hubs(n, edges).len() ==> (#[trigger] hubs(n, edges)[k]).0 < n,
{
    broadcast use vstd::seq_lib::group_to_multiset_ensures;

    let le = |a: (nat, nat), b: (nat, nat)| hub_le(a, b);
    let l = linked_nodes(n, edges);
    let s = l.sort_by(le);
    lemma_linked_in_range(n, edges);
    lemma_hub_le_total_ordering();
    l.lemma_sort_by_ensures(le);
    assert forall|k: int| 0 <= k < s.len() implies (#[trigger] s[k]).0 < n by {
        assert(s.to_multiset().count(s[k]) > 0);
        assert(l.contains(s[k]));
    }
}

/// The hubs of `g`, given the degree of each node.
fn hubs_exec(g: &WikiGraph, d: &Vec<u64>) -> (h: Vec<(usize, u64)>)
    requires
        d@.len() == wiki_nodes(*g).len(),
        forall|i: int| 0 <= i < d@.len() ==> d@[i] == degree(wiki_edges(*g), i as nat),
    ensures
        degree_pairs(h@) == hubs(wiki_nodes(*g).len(), wiki_edges(*g)),
{
    let ghost edges = wiki_edges(*g);
    let mut pairs: Vec<(usize, u64)> = Vec::new();
    let mut i: usize = 0;
    assert(degree_pairs(pairs@) =~= Seq::<(nat, nat)>::empty());
    while i < d.len()
        invariant
            0 <= i <= d@.len(),
            edges == wiki_edges(*g),
            forall|j: int| 0 <= j < d@.len() ==> d@[j] == degree(edges, j as nat),
            degree_pairs(pairs@) == linked_nodes(i as nat, edges),
        decreases d.len() - i,
    {
        if d[i] > 0 {
            pairs.push((i, d[i]));
            assert(degree_pairs(pairs@) =~= linked_nodes(i as nat, edges).push(
                (i as nat, d@[i as int] as nat),
            ));
        }
        i = i + 1;
    }
    let sorted = sort_hubs(pairs);
    let ghost le = |a: (nat, nat), b: (nat, nat)| hub_le(a, b);
    proof {
        let l = linked_nodes(d@.len() as nat, edges);
        lemma_hub_le_total_ordering();
        l.lemma_sort_by_ensures(le);
        vstd::seq_lib::lemma_sorted_unique(degree_pairs(sorted@), l.sort_by(le), le);
    }
    let mut h: Vec<(usize, u64)> = Vec::new();
    let mut k: usize = 0;
    while k < sorted.len() && k < 5
        invariant
            k <= sorted@.len(),
            k <= 5,
            degree_pairs(h@) == degree_pairs(sorted@).take(k as int),
        decreases sorted.len() - k,
    {
        let ghost before = degree_pairs(h@);
        h.push(sorted[k]);
        assert(degree_pairs(h@) =~= before.push(degree_pairs(sorted@)[k as int]));
        assert(degree_pairs(h@) =~= degree_pairs(sorted@).take(k + 1));
        k = k + 1;
    }
    proof {
        if sorted@.len() <= 5 {
            assert(degree_pairs(sorted@).take(k as int) =~= degree_pairs(sorted@));
        }
    }
    h
}

/// The titles of the nodes of `g` without edges, in node order.
fn isolated_titles(g: &WikiGraph, d: &Vec<u64>) -> (r: Vec<String>)
    requires
        d@.len() == wiki_nodes(*g).len(),
        forall|i: int| 0 <= i < d@.len() ==> d@[i] == degree(wiki_edges(*g), i as nat),
    ensures
        texts(r@) == isolated(wiki_nodes(*g).len(), wiki_edges(*g)).map_values(
            |k: nat| wiki_nodes(*g)[k as int].title@,
        ),
{
    let ghost nodes = wiki_nodes(*g);
    let ghost edges = wiki_edges(*g);
    let ghost f = |k: nat| nodes[k as int].title@;
    let mut r: Vec<String> = Vec::new();
    let mut i: usize = 0;
    assert(texts(r@) =~= Seq::<Seq<char>>::empty());
    while i < d.len()
        invariant
            0 <= i <= d@.len(),
            d@.len() == nodes.len(),
            nodes == wiki_nodes(*g),
            edges == wiki_edges(*g),
            f == (|k: nat| nodes[k as int].title@),
            forall|j: int| 0 <= j < d@.len() ==> d@[j] == degree(edges, j as nat),
            texts(r@) == isolated(i as nat, edges).map_values(f),
        decreases d.len() - i,
    {
        if d[i] == 0 {
            let p = page(g, i);
            let ghost before = texts(r@);
            r.push(p.title.clone());
            assert(texts(r@) =~= before.push(p.title@));
            assert(f(i as nat) == p.title@);
            assert(isolated((i + 1) as nat, edges) == isolated(i as nat, edges).push(i as nat));
            assert(texts(r@) =~= isolated((i + 1) as nat, edges).map_values(f));
        }
        i = i + 1;
    }
    r
}

/// The titles of the external nodes of `g`, in node order.
fn external_titles_exec(g: &WikiGraph) -> (r: Vec<String>)
    ensures
        texts(r@) == external_titles(wiki_nodes(*g)),
{
    let ghost nodes = wiki_nodes(*g);
    let n = page_count(g);
    let mut r: Vec<String> = Vec::new();
    let mut i: usize = 0;
    assert(nodes.take(0) =~= Seq::<PageNode>::empty());
    assert(texts(r@) =~= Seq::<Seq<char>>::empty());
    while i < n
        invariant
            0 <= i <= n,
            n == nodes.len(),
            nodes == wiki_nodes(*g),
            texts(r@) == external_titles(nodes.take(i as int)),
        decreases n - i,
    {
        let p = page(g, i);
        proof {
            assert(nodes.take(i + 1).drop_last() =~= nodes.take(i as int));
            assert(nodes.take(i + 1).last() == nodes[i as int]);
        }
        if p.external {
            r.push(p.title.clone());
            assert(texts(r@) =~= external_titles(nodes.take(i as int)).push(p.title@));
        }
        i = i + 1;
    }
    assert(nodes.take(n as int) =~= nodes);
    r
}

/// The first `k` strings of `v` (all of them when there are fewer).
fn first_strings(v: &Vec<String>, k: usize) -> (r: Vec<String>)
    requires
        k <= v@.len(),
    ensures
        texts(r@) == texts(v@).take(k as int),
{
    let mut r: Vec<String> = Vec::new();
    let mut i: usize = 0;
    while i < k
        invariant
            i <= k <= v@.len(),
            texts(r@) == texts(v@).take(i as int),
        decreases k - i,
    {
        let ghost before = texts(r@);
        r.push(v[i].clone());
        assert(texts(r@) =~= before.push(v@[i as int]@));
        assert(texts(r@) =~= texts(v@).take(i + 1));
        i = i + 1;
    }
    r
}


// ── Writing ───────────────────────────────────────────────────────────────────

/// Append a sample of sorted titles: at most eight, joined, `, ...` when
/// there are more.
fn push_sample(out: &mut Vec<char>, titles: &Vec<String>)
    ensures
        final(out)@ == old(out)@ + sample_text(texts(titles@)),
{
    if titles.len() > 8 {
        let first = first_strings(titles, 8);
        push_joined(out, &first, ", ");
        push_str(out, ", ...");
    } else {
        push_joined(out, titles, ", ");
    }
}

/// Append the line of every type group.
fn push_group_lines(out: &mut Vec<char>, g: &WikiGraph, groups: &Vec<(String, usize)>)
    requires
        counted(groups@) == type_groups(wiki_nodes(*g)),
    ensures
        final(out)@ == old(out)@ + concat(
            type_groups(wiki_nodes(*g)).map_values(|x: (Seq<char>, nat)| group_line(wiki_nodes(*g), x)),
        ),
{
    let ghost nodes = wiki_nodes(*g);
    let ghost lines = type_groups(nodes).map_values(|x: (Seq<char>, nat)| group_line(nodes, x));
    let ghost start = out@;
    let mut k: usize = 0;
    assert(lines.take(0) =~= Seq::<Seq<char>>::empty());
    assert(start + concat(lines.take(0)) =~= start);
    while k < groups.len()
        invariant
            0 <= k <= groups@.len(),
            nodes == wiki_nodes(*g),
            counted(groups@) == type_groups(nodes),
            lines == type_groups(nodes).map_values(|x: (Seq<char>, nat)| group_line(nodes, x)),
            out@ == start + concat(lines.take(k as int)),
        decreases groups.len() - k,
    {
        let ghost before = out@;
        let t = chars_of(groups[k].0.as_str());
        let titles = titles_for(g, &t);
        let sorted = sort_strings(titles);
        proof {
            lemma_sorted_titles(sorted@, titles_of_type(nodes, t@));
        }
        push_str(out, "**");
        push_chars(out, &t);
        push_str(out, "** (");
        let c = decimal_exec(groups[k].1 as u64);
        push_chars(out, &c);
        push_str(out, " nodes): ");
        push_sample(out, &sorted);
        push_str(out, "\n");
        proof {
            let x = counted(groups@)[k as int];
            assert(x == (groups@[k as int].0@, groups@[k as int].1 as nat));
            assert(lines[k as int] == group_line(nodes, x));
            assert(out@ =~= before + group_line(nodes, x));
            assert(lines.take(k + 1).drop_last() =~= lines.take(k as int));
            assert(lines.take(k + 1).last() == lines[k as int]);
        }
        k = k + 1;
    }
    assert(lines.take(groups.len() as int) =~= lines);
}

/// Append the hubs paragraph.
fn push_hubs_part(out: &mut Vec<char>, g: &WikiGraph, h: &Vec<(usize, u64)>)
    requires
        degree_pairs(h@) == hubs(wiki_nodes(*g).len(), wiki_edges(*g)),
    ensures
        final(out)@ == old(out)@ + hubs_part(wiki_nodes(*g), wiki_edges(*g)),
{
    let ghost nodes = wiki_nodes(*g);
    let ghost edges = wiki_edges(*g);
    let ghost hs = hubs(nodes.len(), edges);
    let ghost f = |x: (nat, nat)| hub_text(nodes, x);
    if h.len() == 0 {
        assert(out@ =~= old(out)@ + Seq::<char>::empty());
        return;
    }
    proof {
        lemma_hubs_in_range(nodes.len(), edges);
    }
    let mut names: Vec<String> = Vec::new();
    let mut k: usize = 0;
    assert(texts(names@) =~= Seq::<Seq<char>>::empty());
    while k < h.len()
        invariant
            0 <= k <= h@.len(),
            nodes == wiki_nodes(*g),
            edges == wiki_edges(*g),
            hs == hubs(nodes.len(), edges),
            degree_pairs(h@) == hs,
            f == (|x: (nat, nat)| hub_text(nodes, x)),
            forall|j: int| 0 <= j < hs.len() ==> (#[trigger] hs[j]).0 < nodes.len(),
            texts(names@) == hs.take(k as int).map_values(f),
        decreases h.len() - k,
    {
        let (i, d) = h[k];
        assert(hs[k as int] == (i as nat, d as nat));
        let p = page(g, i);
        let mut line: Vec<char> = Vec::new();
        push_str(&mut line, p.title.as_str());
        push_str(&mut line, " (");
        let dd = decimal_exec(d);
        push_chars(&mut line, &dd);
        push_str(&mut line, " edges)");
        let ghost before = texts(names@);
        names.push(string_of(&line));
        proof {
            assert(line@ =~= hub_text(nodes, hs[k as int]));
            assert(texts(names@) =~= before.push(line@));
            assert(hs.take(k + 1).map_values(f) =~= hs.take(k as int).map_values(f).push(f(hs[k as int])));
        }
        k = k + 1;
    }
    assert(hs.take(h.len() as int) =~= hs);
    push_str(out, "\nKey hubs: ");
    push_joined(out, &names, ", ");
    push_str(out, "\n");
}

/// Append the relations paragraph.
fn push_relations_part(out: &mut Vec<char>, g: &WikiGraph, rels: &Vec<(String, usize)>)
    requires
        counted(rels@) == relation_groups(wiki_edges(*g)),
    ensures
        final(out)@ == old(out)@ + relations_part(wiki_edges(*g)),
{
    let ghost edges = wiki_edges(*g);
    let ghost lines = relation_groups(edges).map_values(|x: (Seq<char>, nat)| relation_line(x));
    if rels.len() == 0 {
        assert(out@ =~= old(out)@ + Seq::<char>::empty());
        return;
    }
    push_str(out, "\n**Edges by relation:**\n");
    let ghost start = out@;
    let mut k: usize = 0;
    assert(lines.take(0) =~= Seq::<Seq<char>>::empty());
    assert(start + concat(lines.take(0)) =~= start);
    while k < rels.len()
        invariant
            0 <= k <= rels@.len(),
            edges == wiki_edges(*g),
            counted(rels@) == relation_groups(edges),
            lines == relation_groups(edges).map_values(|x: (Seq<char>, nat)| relation_line(x)),
            out@ == start + concat(lines.take(k as int)),
        decreases rels.len() - k,
    {
        let ghost before = out@;
        push_str(out, "- `");
        push_str(out, rels[k].0.as_str());
        push_str(out, "` (");
        let c = decimal_exec(rels[k].1 as u64);
        push_chars(out, &c);
        push_str(out, ")\n");
        proof {
            let x = counted(rels@)[k as int];
            assert(x == (rels@[k as int].0@, rels@[k as int].1 as nat));
            assert(lines[k as int] == relation_line(x));
            assert(out@ =~= before + relation_line(x));
            assert(lines.take(k + 1).drop_last() =~= lines.take(k as int));
            assert(lines.take(k + 1).last() == lines[k as int]);
        }
        k = k + 1;
    }
    assert(lines.take(rels.len() as int) =~= lines);
}

/// Append the isolated-nodes paragraph.
fn push_isolated_part(out: &mut Vec<char>, g: &WikiGraph, titles: &Vec<String>)
    requires
        texts(titles@) == isolated(wiki_nodes(*g).len(), wiki_edges(*g)).map_values(
            |k: nat| wiki_nodes(*g)[k as int].title@,
        ),
    ensures
        final(out)@ == old(out)@ + isolated_part(wiki_nodes(*g), wiki_edges(*g)),
{
    if titles.len() == 0 {
        assert(out@ =~= old(out)@ + Seq::<char>::empty());
        return;
    }
    push_str(out, "\n**Isolated nodes (");
    let c = decimal_exec(titles.len() as u64);
    push_chars(out, &c);
    push_str(out, "):** ");
    push_joined(out, titles, ", ");
    push_str(out, "\n");
}

/// Append the external-references paragraph.
fn push_external_part(out: &mut Vec<char>, g: &WikiGraph)
    ensures
        final(out)@ == old(out)@ + external_part(wiki_nodes(*g)),
{
    let ext = external_titles_exec(g);
    if ext.len() == 0 {
        assert(out@ =~= old(out)@ + Seq::<char>::empty());
        return;
    }
    let n = ext.len();
    let sorted = sort_strings(ext);
    proof {
        lemma_sorted_titles(sorted@, external_titles(wiki_nodes(*g)));
    }
    push_str(out, "\n**External references (");
    let c = decimal_exec(n as u64);
    push_chars(out, &c);
    push_str(out, "):** ");
    push_joined(out, &sorted, ", ");
    push_str(out, "\n");
}

/// A plain-language account of the graph for a language model: node and
/// edge counts, type groups (largest first, at most eight sorted titles
/// each), the five best-linked hubs, edge counts per relation, isolated
/// nodes, and references into other wikis.
pub fn render_llms(graph: &WikiGraph) -> (out: String)
    ensures
        out@ == llms_spec(wiki_nodes(*graph), wiki_edges(*graph)),
{
    broadcast use vstd::seq_lib::group_to_multiset_ensures;

    let ghost nodes = wiki_nodes(*graph);
    let ghost edges = wiki_edges(*graph);
    let n = page_count(graph);
    let m = link_count(graph);
    let types = collect_types(graph);
    let groups = type_groups_exec(graph);
    let mut out: Vec<char> = Vec::new();
    push_str(&mut out, "The wiki graph has ");
    let dn = decimal_exec(n as u64);
    push_chars(&mut out, &dn);
    push_str(&mut out, " nodes and ");
    let dm = decimal_exec(m as u64);
    push_chars(&mut out, &dm);
    push_str(&mut out, " edges across ");
    let dk = decimal_exec(types.len() as u64);
    push_chars(&mut out, &dk);
    push_str(&mut out, " type groups.\n\n");
    assert(types@.len() == texts(types@).len());
    assert(out@ =~= llms_header(nodes, edges));
    push_group_lines(&mut out, graph, &groups);
    let d = degrees_exec(graph);
    let h = hubs_exec(graph, &d);
    push_hubs_part(&mut out, graph, &h);
    let rels = relation_groups_exec(graph);
    push_relations_part(&mut out, graph, &rels);
    let iso = isolated_titles(graph, &d);
    proof {
        let i = isolated(nodes.len(), edges);
        assert(iso@.len() == texts(iso@).len());
        assert(i.len() == i.map_values(|k: nat| nodes[k as int].title@).len());
    }
    push_isolated_part(&mut out, graph, &iso);
    push_external_part(&mut out, graph);
    proof {
        assert(out@ =~= llms_spec(nodes, edges));
    }
    string_of(&out)
}

} // verus!
