//! Structural lint rules over indexed pages and over the concept graph, and
//! the report that gathers their findings.
use vstd::prelude::*;

use crate::graph::{
    articulation_of, articulation_points, bridges_of, build_undirected, find_bridges, index_limit,
    link_nodes, local_indices, page, page_count, periphery, periphery_of, edge_pairs, undirected_edges,
    wiki_edges, wiki_nodes, WikiGraph, lemma_local_indices_len,
};
use crate::slug::{parse_slug_spec, Slug};
use crate::links::{contains_text, texts};
use crate::text::{
    lemma_str_lt_asym, lemma_str_lt_irrefl, lemma_str_lt_total, lemma_str_lt_trans, str_lt,
    str_lt_exec, trim, trim_exec, opt_text,
    chars_of, ends_with, ends_with_str, eq_str, find_char, push_chars, push_str, slice, starts_with,
    starts_with_str, string_of, lemma_find_char,
};

verus! {

// ── Findings ──────────────────────────────────────────────────────────────────

/// Severity level of a lint finding.
#[derive(Debug, Clone, Copy, PartialEq, Eq, Structural)]
pub enum Severity {
    /// A definite problem that should be fixed.
    Error,
    /// A potential issue that may warrant attention.
    Warning,
}

/// The lower-case name of a severity.
pub open spec fn severity_name(s: Severity) -> Seq<char> {
    match s {
        Severity::Error => "error"@,
        Severity::Warning => "warning"@,
    }
}

impl Severity {
    /// `error` or `warning`.
    pub fn as_str(&self) -> (r: &'static str)
        ensures
            r@ == severity_name(*self),
    {
        match self {
            Severity::Error => "error",
            Severity::Warning => "warning",
        }
    }
}

/// A single lint finding for a wiki page.
#[derive(Debug, Clone)]
pub struct LintFinding {
    /// Slug of the page with the finding.
    pub slug: String,
    /// Name of the lint rule that produced this finding.
    pub rule: String,
    /// Severity of the finding.
    pub severity: Severity,
    /// Human-readable description of the issue.
    pub message: String,
    /// Filesystem path of the page file.
    pub path: String,
}

/// Aggregate results of a lint run against a wiki.
#[derive(Debug, Clone)]
pub struct LintReport {
    /// Name of the wiki that was linted.
    pub wiki: String,
    /// Total number of findings (errors + warnings).
    pub total: usize,
    /// Number of error-severity findings.
    pub errors: usize,
    /// Number of warning-severity findings.
    pub warnings: usize,
    /// Individual lint findings, sorted by slug then rule.
    pub findings: Vec<LintFinding>,
}

// ── Paths ─────────────────────────────────────────────────────────────────────

/// `root` joined with the relative path `rel` (`Path::join` on Unix): an
/// absolute `rel` replaces the root; a separator is added when the root does
/// not end with one.
pub open spec fn join_path(root: Seq<char>, rel: Seq<char>) -> Seq<char> {
    if starts_with(rel, "/"@) {
        rel
    } else if root.len() == 0 {
        rel
    } else if root.last() == '/' {
        root + rel
    } else {
        root + "/"@ + rel
    }
}

/// Join `root` and `rel` as `join_path` says.
pub fn join_path_exec(root: &str, rel: &[char]) -> (r: String)
    ensures
        r@ == join_path(root@, rel@),
{
    proof {
        reveal_strlit("/");
    }
    if starts_with_str(rel, "/") {
        return string_of(rel);
    }
    let mut out = chars_of(root);
    if out.len() == 0 {
        return string_of(rel);
    }
    if out[out.len() - 1] != '/' {
        out.push('/');
        assert(out@ == root@ + "/"@);
    }
    push_chars(&mut out, rel);
    string_of(&out)
}

/// Where the page of `slug` lives under `root`: the flat or bundle file of
/// the trimmed, valid slug when one exists, else the would-be flat file
/// `<slug>.md`.
pub open spec fn slug_path_spec(
    slug: Seq<char>,
    root: Seq<char>,
    flat_is_file: bool,
    bundle_is_file: bool,
) -> Seq<char> {
    match parse_slug_spec(slug) {
        Ok(s) => if flat_is_file {
            join_path(root, s + ".md"@)
        } else if bundle_is_file {
            join_path(root, s + "/index.md"@)
        } else {
            join_path(root, slug + ".md"@)
        },
        Err(_) => join_path(root, slug + ".md"@),
    }
}

/// Resolve a slug to its filesystem path string. The two flags say whether
/// the flat file and the bundle file of the slug exist under `wiki_root`.
pub fn slug_path(slug: &str, wiki_root: &str, flat_is_file: bool, bundle_is_file: bool) -> (p: String)
    ensures
        p@ == slug_path_spec(slug@, wiki_root@, flat_is_file, bundle_is_file),
{
    match Slug::try_from(slug) {
        Ok(s) => match s.resolve(flat_is_file, bundle_is_file) {
            Ok(rel) => {
                let v = chars_of(rel.as_str());
                return join_path_exec(wiki_root, &v);
            },
            Err(_) => {},
        },
        Err(_) => {},
    }
    let mut v = chars_of(slug);
    push_str(&mut v, ".md");
    join_path_exec(wiki_root, &v)
}

/// The finding `f` is for `slug`, from `rule`, with this severity and
/// message, at the would-be flat path of the slug under `root`.
pub open spec fn finding_is(
    f: LintFinding,
    slug: Seq<char>,
    rule: Seq<char>,
    sev: Severity,
    msg: Seq<char>,
    root: Seq<char>,
) -> bool {
    &&& f.slug@ == slug
    &&& f.rule@ == rule
    &&& f.severity == sev
    &&& f.message@ == msg
    &&& f.path@ == join_path(root, slug + ".md"@)
}

/// A finding at the would-be flat path of `slug`; the caller that can see
/// the disk resolves bundle pages with `slug_path`.
fn make_finding(slug: &[char], rule: &str, sev: Severity, msg: &[char], root: &str) -> (f: LintFinding)
    ensures
        finding_is(f, slug@, rule@, sev, msg@, root@),
{
    let mut p: Vec<char> = Vec::new();
    push_chars(&mut p, slug);
    push_str(&mut p, ".md");
    LintFinding {
        slug: string_of(slug),
        rule: string_of(&chars_of(rule)),
        severity: sev,
        message: string_of(msg),
        path: join_path_exec(root, &p),
    }
}

// ── Graph rules ───────────────────────────────────────────────────────────────

/// Message of an articulation-point finding.
pub open spec fn ap_message() -> Seq<char> {
    "removing this page would disconnect the graph — add alternative link paths"@
}

/// Message of a bridge finding for the link from `a` to `b`.
pub open spec fn bridge_message(a: Seq<char>, b: Seq<char>) -> Seq<char> {
    "link "@ + a + " → "@ + b + " is a bridge — its removal disconnects the graph"@
}

/// Message of a periphery finding.
pub open spec fn periphery_message() -> Seq<char> {
    "most structurally isolated page — furthest from all others in the graph"@
}

/// The articulation points of the undirected view of the local graph, as
/// concept-graph node indices.
pub open spec fn graph_articulation(g: WikiGraph) -> Seq<usize> {
    let loc = local_indices(wiki_nodes(g));
    articulation_of(loc.len(), undirected_edges(wiki_nodes(g), wiki_edges(g))).map_values(
        |u: usize| loc[u as int],
    )
}

/// The bridges of the undirected view of the local graph, as pairs of
/// concept-graph node indices.
pub open spec fn graph_bridges(g: WikiGraph) -> Seq<(usize, usize)> {
    let loc = local_indices(wiki_nodes(g));
    bridges_of(loc.len(), undirected_edges(wiki_nodes(g), wiki_edges(g))).map_values(
        |p: (usize, usize)| (loc[p.0 as int], loc[p.1 as int]),
    )
}

/// The slug of node `i`.
pub open spec fn slug_at(g: WikiGraph, i: usize) -> Seq<char> {
    wiki_nodes(g)[i as int].slug@
}

/// The articulation-point findings of a graph.
pub open spec fn ap_spec(g: WikiGraph) -> Seq<FindingSpec> {
    graph_articulation(g).map_values(
        |i: usize| (slug_at(g, i), "articulation-point"@, Severity::Warning, ap_message()),
    )
}

/// The bridge findings of a graph, each on the first endpoint of its link.
pub open spec fn bridge_spec(g: WikiGraph) -> Seq<FindingSpec> {
    graph_bridges(g).map_values(
        |p: (usize, usize)|
            (
                slug_at(g, p.0),
                "bridge"@,
                Severity::Warning,
                bridge_message(slug_at(g, p.0), slug_at(g, p.1)),
            ),
    )
}

/// Flag each page whose removal would disconnect the graph of local pages
/// (an articulation point of its undirected view), in the order
/// `petgraph_live` reports them.
pub fn rule_articulation_point(wiki_graph: &WikiGraph, wiki_root: &str) -> (r: Vec<LintFinding>)
    ensures
        findings_match(r@, ap_spec(*wiki_graph), wiki_root@),
{
    let ghost nodes = wiki_nodes(*wiki_graph);
    let n = page_count(wiki_graph);
    proof {
        lemma_local_indices_len(nodes);
    }
    let (ug, rev) = build_undirected(wiki_graph);
    let aps = articulation_points(&ug);
    let msg = chars_of("removing this page would disconnect the graph — add alternative link paths");
    let mut out: Vec<LintFinding> = Vec::new();
    let mut k: usize = 0;
    while k < aps.len()
        invariant
            nodes == wiki_nodes(*wiki_graph),
            n == nodes.len(),
            rev@ == local_indices(nodes),
            aps@ == articulation_of(rev@.len(), undirected_edges(nodes, wiki_edges(*wiki_graph))),
            forall|j: int| 0 <= j < aps@.len() ==> #[trigger] aps@[j] < rev@.len(),
            forall|j: int| 0 <= j < rev@.len() ==> #[trigger] rev@[j] < nodes.len(),
            msg@ == ap_message(),
            k <= aps@.len(),
            out@.len() == k,
            forall|j: int| 0 <= j < k ==> finding_is(
                #[trigger] out@[j],
                slug_at(*wiki_graph, graph_articulation(*wiki_graph)[j]),
                "articulation-point"@,
                Severity::Warning,
                ap_message(),
                wiki_root@,
            ),
        decreases aps.len() - k,
    {
        let orig = rev[aps[k]];
        let p = page(wiki_graph, orig);
        let slug = chars_of(p.slug.as_str());
        let f = make_finding(&slug, "articulation-point", Severity::Warning, &msg, wiki_root);
        out.push(f);
        k = k + 1;
    }
    assert(findings_match(out@, ap_spec(*wiki_graph), wiki_root@));
    out
}

/// Flag each link whose removal would disconnect the graph of local pages
/// (a bridge of its undirected view), as a finding on its first endpoint.
pub fn rule_bridge(wiki_graph: &WikiGraph, wiki_root: &str) -> (r: Vec<LintFinding>)
    ensures
        findings_match(r@, bridge_spec(*wiki_graph), wiki_root@),
{
    let ghost nodes = wiki_nodes(*wiki_graph);
    let n = page_count(wiki_graph);
    proof {
        lemma_local_indices_len(nodes);
    }
    let (ug, rev) = build_undirected(wiki_graph);
    let bridges = find_bridges(&ug);
    let mut out: Vec<LintFinding> = Vec::new();
    let mut k: usize = 0;
    while k < bridges.len()
        invariant
            nodes == wiki_nodes(*wiki_graph),
            n == nodes.len(),
            rev@ == local_indices(nodes),
            bridges@ == bridges_of(rev@.len(), undirected_edges(nodes, wiki_edges(*wiki_graph))),
            forall|j: int| 0 <= j < bridges@.len() ==> (#[trigger] bridges@[j]).0 < rev@.len()
                && bridges@[j].1 < rev@.len(),
            forall|j: int| 0 <= j < rev@.len() ==> #[trigger] rev@[j] < nodes.len(),
            k <= bridges@.len(),
            out@.len() == k,
            forall|j: int| 0 <= j < k ==> finding_is(
                #[trigger] out@[j],
                slug_at(*wiki_graph, graph_bridges(*wiki_graph)[j].0),
                "bridge"@,
                Severity::Warning,
                bridge_message(
                    slug_at(*wiki_graph, graph_bridges(*wiki_graph)[j].0),
                    slug_at(*wiki_graph, graph_bridges(*wiki_graph)[j].1),
                ),
                wiki_root@,
            ),
        decreases bridges.len() - k,
    {
        let (ua, ub) = bridges[k];
        let a = rev[ua];
        let b = rev[ub];
        let sa = chars_of(page(wiki_graph, a).slug.as_str());
        let sb = chars_of(page(wiki_graph, b).slug.as_str());
        let mut msg: Vec<char> = Vec::new();
        push_str(&mut msg, "link ");
        push_chars(&mut msg, &sa);
        push_str(&mut msg, " → ");
        push_chars(&mut msg, &sb);
        push_str(&mut msg, " is a bridge — its removal disconnects the graph");
        let f = make_finding(&sa, "bridge", Severity::Warning, &msg, wiki_root);
        out.push(f);
        k = k + 1;
    }
    assert(findings_match(out@, bridge_spec(*wiki_graph), wiki_root@));
    out
}

/// The indices among `idxs` whose nodes are local, in order.
pub open spec fn local_among(nodes: Seq<crate::graph::PageNode>, idxs: Seq<usize>) -> Seq<usize>
    decreases idxs.len(),
{
    if idxs.len() == 0 {
        seq![]
    } else {
        let p = local_among(nodes, idxs.drop_last());
        if nodes[idxs.last() as int].external {
            p
        } else {
            p.push(idxs.last())
        }
    }
}

/// The local peripheral pages of the graph.
pub open spec fn graph_periphery(g: WikiGraph) -> Seq<usize> {
    local_among(
        wiki_nodes(g),
        periphery_of(wiki_nodes(g).len(), edge_pairs(wiki_edges(g))),
    )
}

/// The periphery findings of a graph with at most `max_nodes` local pages
/// (none above that).
pub open spec fn periphery_spec(g: WikiGraph, max_nodes: nat) -> Seq<FindingSpec> {
    if local_indices(wiki_nodes(g)).len() > max_nodes {
        seq![]
    } else {
        graph_periphery(g).map_values(
            |i: usize| (slug_at(g, i), "periphery"@, Severity::Warning, periphery_message()),
        )
    }
}

/// Flag the local pages of largest eccentricity (the periphery of the
/// directed graph), unless there are more than `max_nodes` local pages.
pub fn rule_periphery(wiki_graph: &WikiGraph, wiki_root: &str, max_nodes: usize) -> (r: Vec<LintFinding>)
    ensures
        findings_match(r@, periphery_spec(*wiki_graph, max_nodes as nat), wiki_root@),
{
    let ghost nodes = wiki_nodes(*wiki_graph);
    let n = page_count(wiki_graph);
    let mut local_count: usize = 0;
    let mut i: usize = 0;
    while i < n
        invariant
            nodes == wiki_nodes(*wiki_graph),
            n == nodes.len(),
            n <= index_limit(),
            i <= n,
            local_count == local_indices(nodes.subrange(0, i as int)).len(),
            local_count <= i,
        decreases n - i,
    {
        proof {
            assert(nodes.subrange(0, i + 1).drop_last() == nodes.subrange(0, i as int));
        }
        if !page(wiki_graph, i).external {
            local_count = local_count + 1;
        }
        i = i + 1;
    }
    assert(nodes.subrange(0, n as int) == nodes);
    let mut out: Vec<LintFinding> = Vec::new();
    if local_count > max_nodes {
        assert(findings_match(out@, periphery_spec(*wiki_graph, max_nodes as nat), wiki_root@));
        return out;
    }
    let per = periphery(wiki_graph);
    let msg = chars_of("most structurally isolated page — furthest from all others in the graph");
    let ghost all = periphery_of(nodes.len(), edge_pairs(wiki_edges(*wiki_graph)));
    let mut k: usize = 0;
    while k < per.len()
        invariant
            nodes == wiki_nodes(*wiki_graph),
            n == nodes.len(),
            per@ == all,
            all == periphery_of(nodes.len(), edge_pairs(wiki_edges(*wiki_graph))),
            forall|j: int| 0 <= j < per@.len() ==> #[trigger] per@[j] < nodes.len(),
            msg@ == periphery_message(),
            k <= per@.len(),
            out@.len() == local_among(nodes, all.subrange(0, k as int)).len(),
            forall|j: int| 0 <= j < out@.len() ==> finding_is(
                #[trigger] out@[j],
                slug_at(*wiki_graph, local_among(nodes, all.subrange(0, k as int))[j]),
                "periphery"@,
                Severity::Warning,
                periphery_message(),
                wiki_root@,
            ),
        decreases per.len() - k,
    {
        let idx = per[k];
        let ghost before = local_among(nodes, all.subrange(0, k as int));
        proof {
            assert(all.subrange(0, k + 1).drop_last() == all.subrange(0, k as int));
            assert(all.subrange(0, k + 1).last() == idx);
        }
        let p = page(wiki_graph, idx);
        if !p.external {
            let slug = chars_of(p.slug.as_str());
            let f = make_finding(&slug, "periphery", Severity::Warning, &msg, wiki_root);
            out.push(f);
            assert(local_among(nodes, all.subrange(0, k + 1)) == before.push(idx));
        }
        k = k + 1;
    }
    assert(all.subrange(0, per@.len() as int) == all);
    assert(findings_match(out@, periphery_spec(*wiki_graph, max_nodes as nat), wiki_root@));
    out
}

// ── Index rules ───────────────────────────────────────────────────────────────

/// What the lint rules read of one indexed page.
#[derive(Debug, Clone)]
pub struct IndexedPage {
    pub slug: String,
    pub page_type: String,
    /// Link values as (index field, target), in the order of the fields
    /// `body_links`, `sources`, `concepts`, `document_refs`, `superseded_by`
    /// (those the index holds), then of the values.
    pub links: Vec<(String, String)>,
    /// The index fields that hold a value for this page.
    pub present: Vec<String>,
    /// The indexed `last_updated` text (empty when absent).
    pub last_updated: String,
    /// Whether the page is older than the stale threshold and below the
    /// confidence threshold (decided against the clock).
    pub stale: bool,
}

/// A finding as plain values: slug, rule, severity, message.
pub type FindingSpec = (Seq<char>, Seq<char>, Severity, Seq<char>);

/// `r` holds the findings `s`, in order, at flat paths under `root`.
pub open spec fn findings_match(r: Seq<LintFinding>, s: Seq<FindingSpec>, root: Seq<char>) -> bool {
    &&& r.len() == s.len()
    &&& forall|k: int| 0 <= k < r.len() ==> finding_is(
        #[trigger] r[k],
        s[k].0,
        s[k].1,
        s[k].2,
        s[k].3,
        root,
    )
}

/// Push a finding for `f`, keeping `findings_match`.
fn push_finding(
    out: &mut Vec<LintFinding>,
    Ghost(spec): Ghost<Seq<FindingSpec>>,
    slug: &[char],
    rule: &str,
    sev: Severity,
    msg: &[char],
    root: &str,
)
    requires
        findings_match(old(out)@, spec, root@),
    ensures
        findings_match(final(out)@, spec.push((slug@, rule@, sev, msg@)), root@),
{
    let f = make_finding(slug, rule, sev, msg, root);
    out.push(f);
}

/// Every link target of `pages`, in order.
pub open spec fn all_targets(pages: Seq<IndexedPage>) -> Seq<Seq<char>>
    decreases pages.len(),
{
    if pages.len() == 0 {
        seq![]
    } else {
        all_targets(pages.drop_last()) + pages.last().links@.map_values(|l: (String, String)| l.1@)
    }
}

/// Every link target of `pages`, in order.
fn collect_targets(pages: &Vec<IndexedPage>) -> (v: Vec<String>)
    ensures
        texts(v@) == all_targets(pages@),
{
    let mut v: Vec<String> = Vec::new();
    let mut i: usize = 0;
    while i < pages.len()
        invariant
            i <= pages@.len(),
            texts(v@) == all_targets(pages@.subrange(0, i as int)),
        decreases pages.len() - i,
    {
        let links = &pages[i].links;
        let ghost base = texts(v@);
        let ghost lv = links@.map_values(|l: (String, String)| l.1@);
        let mut j: usize = 0;
        while j < links.len()
            invariant
                j <= links@.len(),
                lv == links@.map_values(|l: (String, String)| l.1@),
                texts(v@) == base + lv.subrange(0, j as int),
            decreases links.len() - j,
        {
            let t = links[j].1.clone();
            let ghost old_v = v@;
            assert(t@ == lv[j as int]);
            v.push(t);
            assert(texts(v@) == texts(old_v).push(lv[j as int]));
            assert(lv.subrange(0, j + 1) == lv.subrange(0, j as int).push(lv[j as int]));
            j = j + 1;
        }
        assert(lv.subrange(0, links@.len() as int) == lv);
        assert(pages@.subrange(0, i + 1).drop_last() == pages@.subrange(0, i as int));
        i = i + 1;
    }
    assert(pages@.subrange(0, pages@.len() as int) == pages@);
    v
}

/// The page is flagged as an orphan: it has a slug, is not a section or an
/// index page, and no link of any page targets it.
pub open spec fn orphan_flagged(all: Seq<IndexedPage>, p: IndexedPage) -> bool {
    &&& p.slug@.len() > 0
    &&& p.page_type@ != "section"@
    &&& p.slug@ != "index"@
    &&& !ends_with(p.slug@, "/index"@)
    &&& !all_targets(all).contains(p.slug@)
}

/// The orphan findings for `pages`, in order.
pub open spec fn orphan_spec(all: Seq<IndexedPage>, pages: Seq<IndexedPage>) -> Seq<FindingSpec>
    decreases pages.len(),
{
    if pages.len() == 0 {
        seq![]
    } else {
        let prev = orphan_spec(all, pages.drop_last());
        if orphan_flagged(all, pages.last()) {
            prev.push((pages.last().slug@, "orphan"@, Severity::Warning, "no incoming links"@))
        } else {
            prev
        }
    }
}

/// Flag pages that no link of any page targets (sections and index pages
/// are exempt).
pub fn rule_orphan(pages: &Vec<IndexedPage>, wiki_root: &str) -> (r: Vec<LintFinding>)
    ensures
        findings_match(r@, orphan_spec(pages@, pages@), wiki_root@),
{
    let targets = collect_targets(pages);
    let msg = chars_of("no incoming links");
    let mut out: Vec<LintFinding> = Vec::new();
    let mut i: usize = 0;
    while i < pages.len()
        invariant
            i <= pages@.len(),
            texts(targets@) == all_targets(pages@),
            msg@ == "no incoming links"@,
            findings_match(out@, orphan_spec(pages@, pages@.subrange(0, i as int)), wiki_root@),
        decreases pages.len() - i,
    {
        let p = &pages[i];
        let slug = chars_of(p.slug.as_str());
        let ty = chars_of(p.page_type.as_str());
        assert(pages@.subrange(0, i + 1).drop_last() == pages@.subrange(0, i as int));
        assert(pages@.subrange(0, i + 1).last() == *p);
        if slug.len() > 0 && !eq_str(&ty, "section") && !eq_str(&slug, "index") && !ends_with_str(
            &slug,
            "/index",
        ) && !contains_text(&targets, &slug) {
            push_finding(
                &mut out,
                Ghost(orphan_spec(pages@, pages@.subrange(0, i as int))),
                &slug,
                "orphan",
                Severity::Warning,
                &msg,
                wiki_root,
            );
        }
        i = i + 1;
    }
    assert(pages@.subrange(0, pages@.len() as int) == pages@);
    out
}

/// Some link of some page of `all` targets `t`.
pub open spec fn linked_from(all: Seq<IndexedPage>, t: Seq<char>) -> bool {
    exists|a: int, l: int|
        0 <= a < all.len() && 0 <= l < all[a].links@.len() && (#[trigger] all[a].links@[l]).1@ == t
}

proof fn lemma_targets_linked(all: Seq<IndexedPage>, t: Seq<char>)
    ensures
        all_targets(all).contains(t) <==> linked_from(all, t),
    decreases all.len(),
{
    if all.len() > 0 {
        let init = all.drop_last();
        let n = all.len() - 1;
        lemma_targets_linked(init, t);
        let lv = all.last().links@.map_values(|l: (String, String)| l.1@);
        let head = all_targets(init);
        assert(all_targets(all) == head + lv);
        if all_targets(all).contains(t) {
            let i = choose|i: int| 0 <= i < all_targets(all).len() && all_targets(all)[i] == t;
            if i < head.len() {
                assert(head[i] == t);
                assert(head.contains(t));
                let (a, l) = choose|a: int, l: int|
                    0 <= a < init.len() && 0 <= l < init[a].links@.len() && (#[trigger] init[a].links@[l]).1@ == t;
                assert(all[a] == init[a]);
                assert(all[a].links@[l].1@ == t);
            } else {
                let l = i - head.len();
                assert(lv[l] == t);
                assert(all[n].links@[l].1@ == t);
            }
        }
        if linked_from(all, t) {
            let (a, l) = choose|a: int, l: int|
                0 <= a < all.len() && 0 <= l < all[a].links@.len() && (#[trigger] all[a].links@[l]).1@ == t;
            if a < n {
                assert(init[a] == all[a]);
                assert(init[a].links@[l].1@ == t);
                assert(linked_from(init, t));
                let i = choose|i: int| 0 <= i < head.len() && head[i] == t;
                assert(all_targets(all)[i] == t);
            } else {
                assert(lv[l] == t);
                assert(all_targets(all)[head.len() + l] == t);
            }
        }
    }
}

/// A page is flagged as an orphan exactly when it has a slug, is not a
/// section, is neither the root `index` page nor a `.../index` page, and no
/// link of any page targets its slug. Every finding is an `orphan` warning
/// with the message `no incoming links` on the slug of such a page, and
/// every such page has a finding.
pub proof fn orphan_findings_exact(all: Seq<IndexedPage>, pages: Seq<IndexedPage>)
    ensures
        forall|k: int|
            #![trigger orphan_spec(all, pages)[k]]
            0 <= k < orphan_spec(all, pages).len() ==> {
                let f = orphan_spec(all, pages)[k];
                &&& f.1 == "orphan"@
                &&& f.2 == Severity::Warning
                &&& f.3 == "no incoming links"@
                &&& f.0.len() > 0
                &&& f.0 != "index"@
                &&& !(6 <= f.0.len() && f.0.subrange(f.0.len() - 6, f.0.len() as int) == "/index"@)
                &&& !linked_from(all, f.0)
                &&& exists|j: int|
                    0 <= j < pages.len() && (#[trigger] pages[j]).slug@ == f.0 && pages[j].page_type@
                        != "section"@
            },
        forall|j: int|
            #![trigger pages[j]]
            0 <= j < pages.len() && pages[j].slug@.len() > 0 && pages[j].page_type@ != "section"@
                && pages[j].slug@ != "index"@ && !(6 <= pages[j].slug@.len() && pages[j].slug@.subrange(
                pages[j].slug@.len() - 6,
                pages[j].slug@.len() as int,
            ) == "/index"@) && !linked_from(all, pages[j].slug@) ==> exists|k: int|
                0 <= k < orphan_spec(all, pages).len() && (#[trigger] orphan_spec(all, pages)[k]).0
                    == pages[j].slug@,
    decreases pages.len(),
{
    reveal_strlit("/index");
    if pages.len() > 0 {
        let init = pages.drop_last();
        let n = pages.len() - 1;
        let p = pages.last();
        orphan_findings_exact(all, init);
        lemma_targets_linked(all, p.slug@);
        let prev = orphan_spec(all, init);
        let cur = orphan_spec(all, pages);
        assert(forall|j: int| 0 <= j < n ==> init[j] == pages[j]);
        if orphan_flagged(all, p) {
            assert(cur == prev.push((p.slug@, "orphan"@, Severity::Warning, "no incoming links"@)));
        } else {
            assert(cur == prev);
        }
        assert forall|k: int|
            #![trigger cur[k]]
            0 <= k < cur.len() implies {
            let f = cur[k];
            &&& f.1 == "orphan"@
            &&& f.2 == Severity::Warning
            &&& f.3 == "no incoming links"@
            &&& f.0.len() > 0
            &&& f.0 != "index"@
            &&& !(6 <= f.0.len() && f.0.subrange(f.0.len() - 6, f.0.len() as int) == "/index"@)
            &&& !linked_from(all, f.0)
            &&& exists|j: int|
                0 <= j < pages.len() && (#[trigger] pages[j]).slug@ == f.0 && pages[j].page_type@
                    != "section"@
        } by {
            if k < prev.len() {
                assert(cur[k] == prev[k]);
                let f = prev[k];
                let j = choose|j: int|
                    0 <= j < init.len() && (#[trigger] init[j]).slug@ == f.0 && init[j].page_type@
                        != "section"@;
                assert(pages[j] == init[j]);
            } else {
                assert(pages[n] == p);
            }
        }
        assert forall|j: int|
            0 <= j < pages.len() && pages[j].slug@.len() > 0 && pages[j].page_type@ != "section"@
                && pages[j].slug@ != "index"@ && !(6 <= pages[j].slug@.len() && pages[j].slug@.subrange(
                pages[j].slug@.len() - 6,
                pages[j].slug@.len() as int,
            ) == "/index"@) && !linked_from(all, pages[j].slug@) implies exists|k: int|
                0 <= k < cur.len() && (#[trigger] cur[k]).0 == pages[j].slug@ by {
            if j < n {
                assert(init[j] == pages[j]);
                let k = choose|k: int| 0 <= k < prev.len() && (#[trigger] prev[k]).0 == init[j].slug@;
                assert(cur[k] == prev[k]);
            } else {
                assert(pages[j] == p);
                assert(cur[prev.len() as int].0 == p.slug@);
            }
        }
    }
}

/// Some page has slug `s`.
pub open spec fn slug_known(pages: Seq<IndexedPage>, s: Seq<char>) -> bool {
    exists|i: int| 0 <= i < pages.len() && (#[trigger] pages[i]).slug@ == s
}

/// Whether some page has slug `s`.
fn slug_exists(pages: &Vec<IndexedPage>, s: &[char]) -> (r: bool)
    ensures
        r == slug_known(pages@, s@),
{
    let mut i: usize = 0;
    while i < pages.len()
        invariant
            i <= pages@.len(),
            forall|j: int| 0 <= j < i ==> pages@[j].slug@ != s@,
        decreases pages.len() - i,
    {
        let c = chars_of(pages[i].slug.as_str());
        if crate::text::seq_eq(&c, s) {
            return true;
        }
        i = i + 1;
    }
    false
}

/// The wiki name of a `wiki://` target: the text after the scheme up to
/// the first `/` (all of it when there is none).
pub open spec fn target_wiki(t: Seq<char>) -> Seq<char> {
    let rest = t.subrange(7, t.len() as int);
    match find_char(rest, '/') {
        Some(i) => rest.subrange(0, i),
        None => rest,
    }
}

/// The findings for one link of a page.
pub open spec fn link_finding(
    all: Seq<IndexedPage>,
    mounted: Seq<Seq<char>>,
    check_cross_wiki: bool,
    field: Seq<char>,
    target: Seq<char>,
) -> Seq<(Seq<char>, Severity, Seq<char>)> {
    if starts_with(target, "wiki://"@) {
        if check_cross_wiki && !mounted.contains(target_wiki(target)) {
            seq![(
                "broken-cross-wiki-link"@,
                Severity::Warning,
                "cross-wiki link to unmounted wiki: "@ + target,
            )]
        } else {
            seq![]
        }
    } else if !slug_known(all, target) {
        seq![("broken-link"@, Severity::Error, "broken link in "@ + field + ": "@ + target)]
    } else {
        seq![]
    }
}

/// The broken-link findings of the first `n` links of page `p`.
pub open spec fn page_link_spec(
    all: Seq<IndexedPage>,
    mounted: Seq<Seq<char>>,
    check_cross_wiki: bool,
    p: IndexedPage,
    n: int,
) -> Seq<FindingSpec>
    decreases n,
{
    if n <= 0 {
        seq![]
    } else {
        let l = p.links@[n - 1];
        page_link_spec(all, mounted, check_cross_wiki, p, n - 1) + link_finding(
            all,
            mounted,
            check_cross_wiki,
            l.0@,
            l.1@,
        ).map_values(|f: (Seq<char>, Severity, Seq<char>)| (p.slug@, f.0, f.1, f.2))
    }
}

/// For one page, the link findings over its first `n` links are, in link
/// order, one finding per flagged link, whatever field it sits in: a link to
/// `wiki://` is flagged only when cross-wiki checking is on and its wiki is
/// not mounted (a `broken-cross-wiki-link` warning); any other link is
/// flagged when no page has its target as slug (a `broken-link` error naming
/// the field and the target).
pub proof fn broken_link_findings_exact(
    all: Seq<IndexedPage>,
    mounted: Seq<Seq<char>>,
    check_cross_wiki: bool,
    p: IndexedPage,
    n: int,
)
    requires
        0 <= n <= p.links@.len(),
    ensures
        page_link_spec(all, mounted, check_cross_wiki, p, n) == p.links@.take(n).filter(
            |l: (String, String)|
                if 7 <= l.1@.len() && l.1@.take(7) == "wiki://"@ {
                    check_cross_wiki && !mounted.contains(target_wiki(l.1@))
                } else {
                    forall|q: int| 0 <= q < all.len() ==> (#[trigger] all[q]).slug@ != l.1@
                },
        ).map_values(
            |l: (String, String)|
                if 7 <= l.1@.len() && l.1@.take(7) == "wiki://"@ {
                    (
                        p.slug@,
                        "broken-cross-wiki-link"@,
                        Severity::Warning,
                        "cross-wiki link to unmounted wiki: "@ + l.1@,
                    )
                } else {
                    (p.slug@, "broken-link"@, Severity::Error, "broken link in "@ + l.0@ + ": "@ + l.1@)
                },
        ),
    decreases n,
{
    reveal(Seq::filter);
    reveal_strlit("wiki://");
    let links = p.links@;
    if n > 0 {
        broken_link_findings_exact(all, mounted, check_cross_wiki, p, n - 1);
        assert(links.take(n).drop_last() == links.take(n - 1));
        assert(links.take(n).last() == links[n - 1]);
        let l = links[n - 1];
        assert(starts_with(l.1@, "wiki://"@) <==> (7 <= l.1@.len() && l.1@.take(7) == "wiki://"@)) by {
            if 7 <= l.1@.len() {
                assert(l.1@.take(7) =~= l.1@.subrange(0, 7));
            }
        }
        assert(!slug_known(all, l.1@) <==> forall|q: int| 0 <= q < all.len() ==> (#[trigger] all[q]).slug@ != l.1@);
        let lf = link_finding(all, mounted, check_cross_wiki, l.0@, l.1@);
        let mapped = lf.map_values(|f: (Seq<char>, Severity, Seq<char>)| (p.slug@, f.0, f.1, f.2));
        if lf.len() == 0 {
            assert(mapped =~= Seq::<FindingSpec>::empty());
        } else {
            assert(mapped =~= seq![(p.slug@, lf[0].0, lf[0].1, lf[0].2)]);
        }
    } else {
        assert(links.take(n) == Seq::<(String, String)>::empty());
    }
}

/// The broken-link findings of `pages` (pages without a slug are skipped).
pub open spec fn broken_spec(
    all: Seq<IndexedPage>,
    mounted: Seq<Seq<char>>,
    check_cross_wiki: bool,
    pages: Seq<IndexedPage>,
) -> Seq<FindingSpec>
    decreases pages.len(),
{
    if pages.len() == 0 {
        seq![]
    } else {
        let p = pages.last();
        broken_spec(all, mounted, check_cross_wiki, pages.drop_last()) + if p.slug@.len() > 0 {
            page_link_spec(all, mounted, check_cross_wiki, p, p.links@.len() as int)
        } else {
            seq![]
        }
    }
}

/// Flag links to slugs that no page has (`broken-link`), and, when
/// `check_cross_wiki` is set, `wiki://` links to wikis not among `mounted`
/// (`broken-cross-wiki-link`).
pub fn rule_broken_link(
    pages: &Vec<IndexedPage>,
    wiki_root: &str,
    check_cross_wiki: bool,
    mounted: &Vec<String>,
) -> (r: Vec<LintFinding>)
    ensures
        findings_match(r@, broken_spec(pages@, texts(mounted@), check_cross_wiki, pages@), wiki_root@),
{
    proof {
        reveal_strlit("wiki://");
    }
    let ghost mv = texts(mounted@);
    let mut out: Vec<LintFinding> = Vec::new();
    let mut i: usize = 0;
    while i < pages.len()
        invariant
            i <= pages@.len(),
            mv == texts(mounted@),
            "wiki://"@.len() == 7,
            findings_match(out@, broken_spec(pages@, mv, check_cross_wiki, pages@.subrange(0, i as int)), wiki_root@),
        decreases pages.len() - i,
    {
        let p = &pages[i];
        let slug = chars_of(p.slug.as_str());
        let ghost before = broken_spec(pages@, mv, check_cross_wiki, pages@.subrange(0, i as int));
        assert(pages@.subrange(0, i + 1).drop_last() == pages@.subrange(0, i as int));
        assert(pages@.subrange(0, i + 1).last() == *p);
        if slug.len() > 0 {
            let mut j: usize = 0;
            while j < p.links.len()
                invariant
                    j <= p.links@.len(),
                    slug@ == p.slug@,
                    "wiki://"@.len() == 7,
                    findings_match(
                        out@,
                        before + page_link_spec(pages@, mv, check_cross_wiki, *p, j as int),
                        wiki_root@,
                    ),
                    mv == texts(mounted@),
                decreases p.links.len() - j,
            {
                let field = chars_of(p.links[j].0.as_str());
                let target = chars_of(p.links[j].1.as_str());
                let ghost prev = before + page_link_spec(pages@, mv, check_cross_wiki, *p, j as int);
                let ghost lf = link_finding(pages@, mv, check_cross_wiki, field@, target@);
                let ghost mapped = lf.map_values(
                    |f: (Seq<char>, Severity, Seq<char>)| (p.slug@, f.0, f.1, f.2),
                );
                assert(before + page_link_spec(pages@, mv, check_cross_wiki, *p, j + 1) == prev + mapped);
                if starts_with_str(&target, "wiki://") {
                    if check_cross_wiki {
                        let rest = slice(&target, 7, target.len());
                        proof {
                            lemma_find_char(rest@, '/');
                        }
                        let wiki = match crate::text::find_char_exec(&rest, '/') {
                            Some(k) => slice(&rest, 0, k),
                            None => rest,
                        };
                        assert(wiki@ == target_wiki(target@));
                        if !contains_text(mounted, &wiki) {
                            let mut msg: Vec<char> = Vec::new();
                            push_str(&mut msg, "cross-wiki link to unmounted wiki: ");
                            push_chars(&mut msg, &target);
                            push_finding(&mut out, Ghost(prev), &slug, "broken-cross-wiki-link", Severity::Warning, &msg, wiki_root);
                            assert(prev.push((slug@, "broken-cross-wiki-link"@, Severity::Warning, msg@)) == prev + mapped);
                        } else {
                            assert(prev + mapped == prev);
                        }
                    } else {
                        assert(prev + mapped == prev);
                    }
                } else if !slug_exists(pages, &target) {
                    let mut msg: Vec<char> = Vec::new();
                    push_str(&mut msg, "broken link in ");
                    push_chars(&mut msg, &field);
                    push_str(&mut msg, ": ");
                    push_chars(&mut msg, &target);
                    push_finding(&mut out, Ghost(prev), &slug, "broken-link", Severity::Error, &msg, wiki_root);
                    assert(prev.push((slug@, "broken-link"@, Severity::Error, msg@)) == prev + mapped);
                } else {
                    assert(prev + mapped == prev);
                }
                j = j + 1;
            }
            assert(before + page_link_spec(pages@, mv, check_cross_wiki, *p, p.links@.len() as int)
                == broken_spec(pages@, mv, check_cross_wiki, pages@.subrange(0, i + 1)));
        } else {
            assert(before + Seq::<FindingSpec>::empty() == before);
        }
        i = i + 1;
    }
    assert(pages@.subrange(0, pages@.len() as int) == pages@);
    out
}

/// The first index at or after `i` of a type named `t`.
pub open spec fn first_type(types: Seq<(String, Vec<String>)>, t: Seq<char>, i: int) -> Option<int>
    decreases types.len() - i,
{
    if i < 0 || i >= types.len() {
        None
    } else if types[i].0@ == t {
        Some(i)
    } else {
        first_type(types, t, i + 1)
    }
}

/// The index of the registered type named `t`.
fn find_type(types: &Vec<(String, Vec<String>)>, t: &[char]) -> (r: Option<usize>)
    ensures
        match first_type(types@, t@, 0) {
            Some(i) => r == Some(i as usize),
            None => r is None,
        },
        r matches Some(i) ==> i < types@.len() && first_type(types@, t@, 0) == Some(i as int),
{
    let mut i: usize = 0;
    while i < types.len()
        invariant
            i <= types@.len(),
            first_type(types@, t@, 0) == first_type(types@, t@, i as int),
        decreases types.len() - i,
    {
        let name = chars_of(types[i].0.as_str());
        if crate::text::seq_eq(&name, t) {
            return Some(i);
        }
        i = i + 1;
    }
    None
}

/// The missing-field findings of page `p` for the first `n` required fields.
pub open spec fn missing_of(
    p: IndexedPage,
    indexed: Seq<Seq<char>>,
    req: Seq<Seq<char>>,
    n: int,
) -> Seq<FindingSpec>
    decreases n,
{
    if n <= 0 {
        seq![]
    } else {
        let f = req[n - 1];
        let prev = missing_of(p, indexed, req, n - 1);
        if indexed.contains(f) && !texts(p.present@).contains(f) {
            prev.push((p.slug@, "missing-fields"@, Severity::Error, "required field missing: "@ + f))
        } else {
            prev
        }
    }
}

/// The missing-field findings of `pages`: for each page with a slug and a
/// registered type, each required field that the index holds but the page
/// has no value for. Fields the index does not hold cannot be checked.
pub open spec fn missing_spec(
    types: Seq<(String, Vec<String>)>,
    indexed: Seq<Seq<char>>,
    pages: Seq<IndexedPage>,
) -> Seq<FindingSpec>
    decreases pages.len(),
{
    if pages.len() == 0 {
        seq![]
    } else {
        let p = pages.last();
        missing_spec(types, indexed, pages.drop_last()) + if p.slug@.len() > 0 && p.page_type@.len() > 0 {
            match first_type(types, p.page_type@, 0) {
                Some(i) => missing_of(p, indexed, texts(types[i].1@), types[i].1@.len() as int),
                None => seq![],
            }
        } else {
            seq![]
        }
    }
}

/// Flag required fields (per the type registry `types`: name and required
/// fields) that a page lacks; `indexed` are the fields of the index.
pub fn rule_missing_fields(
    pages: &Vec<IndexedPage>,
    wiki_root: &str,
    types: &Vec<(String, Vec<String>)>,
    indexed: &Vec<String>,
) -> (r: Vec<LintFinding>)
    ensures
        findings_match(r@, missing_spec(types@, texts(indexed@), pages@), wiki_root@),
{
    let mut out: Vec<LintFinding> = Vec::new();
    let mut i: usize = 0;
    while i < pages.len()
        invariant
            i <= pages@.len(),
            findings_match(out@, missing_spec(types@, texts(indexed@), pages@.subrange(0, i as int)), wiki_root@),
        decreases pages.len() - i,
    {
        let p = &pages[i];
        let slug = chars_of(p.slug.as_str());
        let ty = chars_of(p.page_type.as_str());
        let ghost before = missing_spec(types@, texts(indexed@), pages@.subrange(0, i as int));
        assert(pages@.subrange(0, i + 1).drop_last() == pages@.subrange(0, i as int));
        assert(pages@.subrange(0, i + 1).last() == *p);
        let mut found: Option<usize> = None;
        if slug.len() > 0 && ty.len() > 0 {
            found = find_type(types, &ty);
        }
        match found {
            Some(t) => {
                assert(p.slug@.len() > 0 && p.page_type@.len() > 0);
                assert(first_type(types@, p.page_type@, 0) == Some(t as int));
                let req = &types[t].1;
                let ghost rq = texts(req@);
                let mut j: usize = 0;
                while j < req.len()
                    invariant
                        j <= req@.len(),
                        rq == texts(req@),
                        slug@ == p.slug@,
                        findings_match(out@, before + missing_of(*p, texts(indexed@), rq, j as int), wiki_root@),
                    decreases req.len() - j,
                {
                    let f = chars_of(req[j].as_str());
                    assert(rq[j as int] == f@);
                    let ghost prev = before + missing_of(*p, texts(indexed@), rq, j as int);
                    if contains_text(indexed, &f) && !contains_text(&p.present, &f) {
                        let mut msg: Vec<char> = Vec::new();
                        push_str(&mut msg, "required field missing: ");
                        push_chars(&mut msg, &f);
                        push_finding(&mut out, Ghost(prev), &slug, "missing-fields", Severity::Error, &msg, wiki_root);
                        assert(prev.push((slug@, "missing-fields"@, Severity::Error, msg@)) == before + missing_of(*p, texts(indexed@), rq, j + 1));
                    }
                    j = j + 1;
                }
                assert(missing_spec(types@, texts(indexed@), pages@.subrange(0, i + 1)) == before
                    + missing_of(*p, texts(indexed@), rq, req@.len() as int));
            },
            None => {
                assert(before + Seq::<FindingSpec>::empty() == before);
            },
        }
        i = i + 1;
    }
    assert(pages@.subrange(0, pages@.len() as int) == pages@);
    out
}

/// For one page, the missing-field findings over the first `n` required
/// fields are, in order, one `missing-fields` error per field that the
/// index holds and the page has no value for, naming that field.
pub proof fn missing_fields_exact(p: IndexedPage, indexed: Seq<Seq<char>>, req: Seq<Seq<char>>, n: int)
    requires
        0 <= n <= req.len(),
    ensures
        missing_of(p, indexed, req, n) == req.take(n).filter(
            |f: Seq<char>| indexed.contains(f) && !texts(p.present@).contains(f),
        ).map_values(
            |f: Seq<char>| (p.slug@, "missing-fields"@, Severity::Error, "required field missing: "@ + f),
        ),
    decreases n,
{
    reveal(Seq::filter);
    if n > 0 {
        missing_fields_exact(p, indexed, req, n - 1);
        assert(req.take(n).drop_last() == req.take(n - 1));
        assert(req.take(n).last() == req[n - 1]);
    } else {
        assert(req.take(n) == Seq::<Seq<char>>::empty());
    }
}

/// The unknown-type findings of `pages`.
pub open spec fn unknown_spec(types: Seq<(String, Vec<String>)>, pages: Seq<IndexedPage>) -> Seq<FindingSpec>
    decreases pages.len(),
{
    if pages.len() == 0 {
        seq![]
    } else {
        let p = pages.last();
        let prev = unknown_spec(types, pages.drop_last());
        if p.slug@.len() > 0 && p.page_type@.len() > 0 && first_type(types, p.page_type@, 0) is None {
            prev.push((p.slug@, "unknown-type"@, Severity::Error, "unknown type: "@ + p.page_type@))
        } else {
            prev
        }
    }
}

/// Flag pages whose type is not registered.
pub fn rule_unknown_type(
    pages: &Vec<IndexedPage>,
    wiki_root: &str,
    types: &Vec<(String, Vec<String>)>,
) -> (r: Vec<LintFinding>)
    ensures
        findings_match(r@, unknown_spec(types@, pages@), wiki_root@),
{
    let mut out: Vec<LintFinding> = Vec::new();
    let mut i: usize = 0;
    while i < pages.len()
        invariant
            i <= pages@.len(),
            findings_match(out@, unknown_spec(types@, pages@.subrange(0, i as int)), wiki_root@),
        decreases pages.len() - i,
    {
        let p = &pages[i];
        let slug = chars_of(p.slug.as_str());
        let ty = chars_of(p.page_type.as_str());
        assert(pages@.subrange(0, i + 1).drop_last() == pages@.subrange(0, i as int));
        assert(pages@.subrange(0, i + 1).last() == *p);
        if slug.len() > 0 && ty.len() > 0 && find_type(types, &ty).is_none() {
            let mut msg: Vec<char> = Vec::new();
            push_str(&mut msg, "unknown type: ");
            push_chars(&mut msg, &ty);
            push_finding(
                &mut out,
                Ghost(unknown_spec(types@, pages@.subrange(0, i as int))),
                &slug,
                "unknown-type",
                Severity::Error,
                &msg,
                wiki_root,
            );
        }
        i = i + 1;
    }
    assert(pages@.subrange(0, pages@.len() as int) == pages@);
    out
}

/// The note on a stale page's age.
pub open spec fn age_note(date: Seq<char>) -> Seq<char> {
    if date.len() == 0 {
        "no last_updated date"@
    } else {
        "last updated "@ + date
    }
}

/// The stale findings of `pages`.
pub open spec fn stale_spec(pages: Seq<IndexedPage>) -> Seq<FindingSpec>
    decreases pages.len(),
{
    if pages.len() == 0 {
        seq![]
    } else {
        let p = pages.last();
        let prev = stale_spec(pages.drop_last());
        if p.slug@.len() > 0 && p.stale {
            prev.push((p.slug@, "stale"@, Severity::Warning, "stale page: "@ + age_note(p.last_updated@)))
        } else {
            prev
        }
    }
}

/// Flag the pages marked stale, noting their last update.
pub fn rule_stale(pages: &Vec<IndexedPage>, wiki_root: &str) -> (r: Vec<LintFinding>)
    ensures
        findings_match(r@, stale_spec(pages@), wiki_root@),
{
    let mut out: Vec<LintFinding> = Vec::new();
    let mut i: usize = 0;
    while i < pages.len()
        invariant
            i <= pages@.len(),
            findings_match(out@, stale_spec(pages@.subrange(0, i as int)), wiki_root@),
        decreases pages.len() - i,
    {
        let p = &pages[i];
        let slug = chars_of(p.slug.as_str());
        assert(pages@.subrange(0, i + 1).drop_last() == pages@.subrange(0, i as int));
        assert(pages@.subrange(0, i + 1).last() == *p);
        if slug.len() > 0 && p.stale {
            let date = chars_of(p.last_updated.as_str());
            let mut msg: Vec<char> = Vec::new();
            push_str(&mut msg, "stale page: ");
            if date.len() == 0 {
                push_str(&mut msg, "no last_updated date");
            } else {
                push_str(&mut msg, "last updated ");
                push_chars(&mut msg, &date);
                assert(msg@ == "stale page: "@ + ("last updated "@ + date@));
            }
            assert(msg@ == "stale page: "@ + age_note(p.last_updated@));
            push_finding(
                &mut out,
                Ghost(stale_spec(pages@.subrange(0, i as int))),
                &slug,
                "stale",
                Severity::Warning,
                &msg,
                wiki_root,
            );
        }
        i = i + 1;
    }
    assert(pages@.subrange(0, pages@.len() as int) == pages@);
    out
}

/// Exactly the stale pages that have a slug are flagged, in page order,
/// each as a `stale` warning noting its last update (or its lack of one).
pub proof fn stale_findings_exact(pages: Seq<IndexedPage>)
    ensures
        stale_spec(pages) == pages.filter(|p: IndexedPage| p.slug@.len() > 0 && p.stale).map_values(
            |p: IndexedPage|
                (
                    p.slug@,
                    "stale"@,
                    Severity::Warning,
                    "stale page: "@ + (if p.last_updated@.len() == 0 {
                        "no last_updated date"@
                    } else {
                        "last updated "@ + p.last_updated@
                    }),
                ),
        ),
    decreases pages.len(),
{
    reveal(Seq::filter);
    if pages.len() > 0 {
        stale_findings_exact(pages.drop_last());
    }
}

/// Exactly the pages with a slug and a non-empty type that no registered
/// type names are flagged, in page order, each as an `unknown-type` error
/// naming its type.
pub proof fn unknown_type_findings_exact(types: Seq<(String, Vec<String>)>, pages: Seq<IndexedPage>)
    ensures
        unknown_spec(types, pages) == pages.filter(
            |p: IndexedPage|
                p.slug@.len() > 0 && p.page_type@.len() > 0 && forall|q: int|
                    0 <= q < types.len() ==> (#[trigger] types[q]).0@ != p.page_type@,
        ).map_values(
            |p: IndexedPage| (p.slug@, "unknown-type"@, Severity::Error, "unknown type: "@ + p.page_type@),
        ),
    decreases pages.len(),
{
    reveal(Seq::filter);
    if pages.len() > 0 {
        unknown_type_findings_exact(types, pages.drop_last());
        lemma_first_type_none(types, pages.last().page_type@, 0);
    }
}

proof fn lemma_first_type_none(types: Seq<(String, Vec<String>)>, t: Seq<char>, i: int)
    requires
        0 <= i,
    ensures
        first_type(types, t, i) is None <==> forall|q: int| i <= q < types.len() ==> (#[trigger] types[q]).0@ != t,
    decreases types.len() - i,
{
    if i < types.len() {
        lemma_first_type_none(types, t, i + 1);
    }
}

// ── Report ────────────────────────────────────────────────────────────────────

/// `a` sorts strictly before `b`: by slug, then by rule.
pub open spec fn finding_lt(a: LintFinding, b: LintFinding) -> bool {
    str_lt(a.slug@, b.slug@) || (a.slug@ == b.slug@ && str_lt(a.rule@, b.rule@))
}

/// The findings are sorted by slug, then rule.
pub open spec fn findings_sorted(s: Seq<LintFinding>) -> bool {
    forall|i: int, j: int| 0 <= i < j < s.len() ==> !finding_lt(#[trigger] s[j], #[trigger] s[i])
}

proof fn lemma_finding_order(a: LintFinding, b: LintFinding, c: LintFinding)
    ensures
        !finding_lt(a, a),
        finding_lt(a, b) ==> !finding_lt(b, a),
        finding_lt(a, b) && finding_lt(b, c) ==> finding_lt(a, c),
        !finding_lt(b, a) && !finding_lt(c, b) ==> !finding_lt(c, a),
{
    lemma_str_lt_irrefl(a.slug@);
    lemma_str_lt_irrefl(a.rule@);
    lemma_str_lt_total(a.slug@, b.slug@);
    lemma_str_lt_total(b.slug@, c.slug@);
    lemma_str_lt_total(a.slug@, c.slug@);
    lemma_str_lt_total(a.rule@, b.rule@);
    lemma_str_lt_total(b.rule@, c.rule@);
    lemma_str_lt_total(a.rule@, c.rule@);
    if str_lt(a.slug@, b.slug@) {
        lemma_str_lt_asym(a.slug@, b.slug@);
    }
    if str_lt(a.rule@, b.rule@) {
        lemma_str_lt_asym(a.rule@, b.rule@);
    }
    if str_lt(a.slug@, b.slug@) && str_lt(b.slug@, c.slug@) {
        lemma_str_lt_trans(a.slug@, b.slug@, c.slug@);
    }
    if str_lt(a.rule@, b.rule@) && str_lt(b.rule@, c.rule@) {
        lemma_str_lt_trans(a.rule@, b.rule@, c.rule@);
    }
    if str_lt(c.slug@, b.slug@) && str_lt(b.slug@, a.slug@) {
        lemma_str_lt_trans(c.slug@, b.slug@, a.slug@);
    }
    if str_lt(c.rule@, b.rule@) && str_lt(b.rule@, a.rule@) {
        lemma_str_lt_trans(c.rule@, b.rule@, a.rule@);
    }
    if str_lt(c.slug@, a.slug@) {
        lemma_str_lt_asym(c.slug@, a.slug@);
        if str_lt(b.slug@, c.slug@) {
            lemma_str_lt_trans(b.slug@, c.slug@, a.slug@);
        }
        if str_lt(a.slug@, b.slug@) {
            lemma_str_lt_trans(c.slug@, a.slug@, b.slug@);
        }
    }
    if str_lt(c.rule@, a.rule@) {
        if str_lt(b.rule@, c.rule@) {
            lemma_str_lt_trans(b.rule@, c.rule@, a.rule@);
        }
        if str_lt(a.rule@, b.rule@) {
            lemma_str_lt_trans(c.rule@, a.rule@, b.rule@);
        }
    }
}

/// Whether `a` sorts strictly before `b`.
fn finding_lt_exec(a: &LintFinding, b: &LintFinding) -> (r: bool)
    ensures
        r == finding_lt(*a, *b),
{
    let sa = chars_of(a.slug.as_str());
    let sb = chars_of(b.slug.as_str());
    if str_lt_exec(&sa, &sb) {
        return true;
    }
    if !crate::text::seq_eq(&sa, &sb) {
        return false;
    }
    let ra = chars_of(a.rule.as_str());
    let rb = chars_of(b.rule.as_str());
    str_lt_exec(&ra, &rb)
}

/// The findings of `s` on page `slug` from rule `rule`, in order.
pub open spec fn with_key(s: Seq<LintFinding>, slug: Seq<char>, rule: Seq<char>) -> Seq<LintFinding>
    decreases s.len(),
{
    if s.len() == 0 {
        seq![]
    } else {
        (if s[0].slug@ == slug && s[0].rule@ == rule {
            seq![s[0]]
        } else {
            seq![]
        }) + with_key(s.drop_first(), slug, rule)
    }
}

proof fn lemma_with_key_append(a: Seq<LintFinding>, b: Seq<LintFinding>, slug: Seq<char>, rule: Seq<char>)
    ensures
        with_key(a + b, slug, rule) == with_key(a, slug, rule) + with_key(b, slug, rule),
    decreases a.len(),
{
    if a.len() == 0 {
        assert(a + b =~= b);
    } else {
        assert((a + b).drop_first() =~= a.drop_first() + b);
        lemma_with_key_append(a.drop_first(), b, slug, rule);
    }
}

proof fn lemma_with_key_none(a: Seq<LintFinding>, slug: Seq<char>, rule: Seq<char>)
    requires
        forall|i: int| 0 <= i < a.len() ==> !(#[trigger] a[i].slug@ == slug && a[i].rule@ == rule),
    ensures
        with_key(a, slug, rule) == Seq::<LintFinding>::empty(),
    decreases a.len(),
{
    if a.len() > 0 {
        assert forall|i: int| 0 <= i < a.drop_first().len() implies !(#[trigger] a.drop_first()[i].slug@ == slug
            && a.drop_first()[i].rule@ == rule) by {
            assert(a.drop_first()[i] == a[i + 1]);
        }
        lemma_with_key_none(a.drop_first(), slug, rule);
    }
}

/// Two findings are ordered one way or the other, or share slug and rule.
proof fn lemma_finding_total(x: LintFinding, y: LintFinding)
    ensures
        finding_lt(x, y) || finding_lt(y, x) || (x.slug@ == y.slug@ && x.rule@ == y.rule@),
{
    lemma_str_lt_total(x.slug@, y.slug@);
    lemma_str_lt_total(x.rule@, y.rule@);
}

/// A sorted list of findings is fixed by its findings for each slug and
/// rule: two lists sorted by slug, then rule, that hold the same findings
/// per (slug, rule), in the same order, are equal. So a lint report's order
/// is determined.
pub proof fn sorted_findings_unique(a: Seq<LintFinding>, b: Seq<LintFinding>)
    requires
        findings_sorted(a),
        findings_sorted(b),
        forall|slug: Seq<char>, rule: Seq<char>| #[trigger] with_key(a, slug, rule) == with_key(b, slug, rule),
    ensures
        a == b,
    decreases a.len() + b.len(),
{
    if a.len() == 0 || b.len() == 0 {
        if a.len() > 0 {
            assert(with_key(a, a[0].slug@, a[0].rule@).len() > 0);
            assert(with_key(b, a[0].slug@, a[0].rule@) == Seq::<LintFinding>::empty());
        }
        if b.len() > 0 {
            assert(with_key(b, b[0].slug@, b[0].rule@).len() > 0);
            assert(with_key(a, b[0].slug@, b[0].rule@) == Seq::<LintFinding>::empty());
        }
        assert(a =~= b);
    } else {
        let x = a[0];
        let y = b[0];
        // The first finding of each list has the smallest key of both.
        lemma_key_leads(a, y.slug@, y.rule@);
        lemma_key_leads(b, x.slug@, x.rule@);
        lemma_finding_total(x, y);
        assert(x.slug@ == y.slug@ && x.rule@ == y.rule@);
        assert(with_key(a, x.slug@, x.rule@)[0] == x);
        assert(with_key(b, x.slug@, x.rule@)[0] == y);
        assert forall|slug: Seq<char>, rule: Seq<char>| #[trigger] with_key(a.drop_first(), slug, rule) == with_key(
            b.drop_first(),
            slug,
            rule,
        ) by {
            assert(with_key(a, slug, rule) == with_key(b, slug, rule));
            if x.slug@ == slug && x.rule@ == rule {
                assert(with_key(a.drop_first(), slug, rule) == with_key(a, slug, rule).drop_first());
                assert(with_key(b.drop_first(), slug, rule) == with_key(b, slug, rule).drop_first());
            }
        }
        assert forall|i: int, j: int| 0 <= i < j < a.drop_first().len() implies !finding_lt(
            #[trigger] a.drop_first()[j],
            #[trigger] a.drop_first()[i],
        ) by {
            assert(a.drop_first()[j] == a[j + 1] && a.drop_first()[i] == a[i + 1]);
        }
        assert forall|i: int, j: int| 0 <= i < j < b.drop_first().len() implies !finding_lt(
            #[trigger] b.drop_first()[j],
            #[trigger] b.drop_first()[i],
        ) by {
            assert(b.drop_first()[j] == b[j + 1] && b.drop_first()[i] == b[i + 1]);
        }
        sorted_findings_unique(a.drop_first(), b.drop_first());
        assert(a =~= seq![x] + a.drop_first());
        assert(b =~= seq![y] + b.drop_first());
    }
}

/// In a sorted list, a key that occurs is not below the first finding's.
proof fn lemma_key_leads(a: Seq<LintFinding>, slug: Seq<char>, rule: Seq<char>)
    requires
        findings_sorted(a),
        a.len() > 0,
        with_key(a, slug, rule).len() > 0,
    ensures
        exists|i: int| 0 <= i < a.len() && a[i].slug@ == slug && a[i].rule@ == rule && !finding_lt(#[trigger] a[i], a[0]),
    decreases a.len(),
{
    if a[0].slug@ == slug && a[0].rule@ == rule {
        lemma_str_lt_irrefl(slug);
        lemma_str_lt_irrefl(rule);
        assert(!finding_lt(a[0], a[0]));
    } else {
        let t = a.drop_first();
        assert(with_key(t, slug, rule).len() > 0);
        assert(t.len() > 0) by {
            if t.len() == 0 {
                assert(with_key(t, slug, rule) == Seq::<LintFinding>::empty());
            }
        }
        assert forall|i: int, j: int| 0 <= i < j < t.len() implies !finding_lt(#[trigger] t[j], #[trigger] t[i]) by {
            assert(t[j] == a[j + 1] && t[i] == a[i + 1]);
        }
        lemma_key_leads(t, slug, rule);
        let i = choose|i: int| 0 <= i < t.len() && t[i].slug@ == slug && t[i].rule@ == rule && !finding_lt(#[trigger] t[i], t[0]);
        assert(a[i + 1] == t[i]);
        assert(!finding_lt(a[i + 1], a[0]));
    }
}

/// Sort findings by slug, then rule, keeping the order of findings with
/// the same slug and rule (a stable insertion sort).
pub fn sort_findings(v: Vec<LintFinding>) -> (r: Vec<LintFinding>)
    ensures
        findings_sorted(r@),
        r@.to_multiset() == v@.to_multiset(),
        forall|slug: Seq<char>, rule: Seq<char>| #[trigger] with_key(r@, slug, rule) == with_key(v@, slug, rule),
{
    broadcast use vstd::seq_lib::group_to_multiset_ensures;
    broadcast use vstd::multiset::group_multiset_axioms;

    let ghost orig = v@;
    let mut v = v;
    let mut out: Vec<LintFinding> = Vec::new();
    while v.len() > 0
        invariant
            findings_sorted(out@),
            out@.to_multiset().add(v@.to_multiset()) == orig.to_multiset(),
            v@.len() <= orig.len(),
            v@ == orig.subrange(0, v@.len() as int),
            forall|slug: Seq<char>, rule: Seq<char>| #[trigger] with_key(out@, slug, rule) == with_key(
                orig.subrange(v@.len() as int, orig.len() as int),
                slug,
                rule,
            ),
        decreases v.len(),
    {
        let ghost before_v = v@;
        let x = v.pop().unwrap();
        proof {
            assert(before_v == v@.push(x));
            vstd::seq_lib::to_multiset_build(v@, x);
        }
        let mut j: usize = 0;
        while j < out.len() && finding_lt_exec(&out[j], &x)
            invariant
                j <= out@.len(),
                forall|i: int| 0 <= i < j ==> finding_lt(#[trigger] out@[i], x),
            decreases out.len() - j,
        {
            j = j + 1;
        }
        let ghost before_out = out@;
        out.insert(j, x);
        proof {
            let m = v@.len() as int;
            assert(orig.subrange(m, orig.len() as int) =~= seq![x] + orig.subrange(m + 1, orig.len() as int));
            assert(before_out.insert(j as int, x) =~= before_out.subrange(0, j as int) + (seq![x] + before_out.subrange(
                j as int,
                before_out.len() as int,
            )));
            assert(before_out =~= before_out.subrange(0, j as int) + before_out.subrange(j as int, before_out.len() as int));
            assert forall|slug: Seq<char>, rule: Seq<char>| #[trigger] with_key(out@, slug, rule) == with_key(
                orig.subrange(m, orig.len() as int),
                slug,
                rule,
            ) by {
                let pre = before_out.subrange(0, j as int);
                let post = before_out.subrange(j as int, before_out.len() as int);
                lemma_with_key_append(pre, seq![x] + post, slug, rule);
                lemma_with_key_append(seq![x], post, slug, rule);
                lemma_with_key_append(pre, post, slug, rule);
                lemma_with_key_append(seq![x], orig.subrange(m + 1, orig.len() as int), slug, rule);
                assert(seq![x].drop_first() =~= Seq::<LintFinding>::empty());
                assert(with_key(Seq::<LintFinding>::empty(), slug, rule) =~= Seq::<LintFinding>::empty());
                assert(with_key(seq![x], slug, rule) == (if x.slug@ == slug && x.rule@ == rule {
                    seq![x]
                } else {
                    seq![]
                }) + with_key(Seq::<LintFinding>::empty(), slug, rule));
                assert(with_key(before_out, slug, rule) == with_key(orig.subrange(m + 1, orig.len() as int), slug, rule));
                if x.slug@ == slug && x.rule@ == rule {
                    assert forall|i: int| 0 <= i < pre.len() implies !(#[trigger] pre[i].slug@ == slug && pre[i].rule@
                        == rule) by {
                        assert(pre[i] == before_out[i]);
                        assert(finding_lt(before_out[i], x));
                        lemma_str_lt_irrefl(x.slug@);
                        lemma_str_lt_irrefl(x.rule@);
                    }
                    lemma_with_key_none(pre, slug, rule);
                }
            }
            assert(out@ == before_out.insert(j as int, x));
            vstd::seq_lib::to_multiset_insert(before_out, j as int, x);
            assert forall|a: int, b: int| 0 <= a < b < out@.len() implies !finding_lt(
                #[trigger] out@[b],
                #[trigger] out@[a],
            ) by {
                if b < j {
                    assert(out@[a] == before_out[a] && out@[b] == before_out[b]);
                } else if a > j {
                    assert(out@[a] == before_out[a - 1] && out@[b] == before_out[b - 1]);
                } else if b == j {
                    assert(out@[b] == x && out@[a] == before_out[a]);
                    lemma_finding_order(before_out[a], x, x);
                } else if a == j {
                    assert(out@[a] == x && out@[b] == before_out[b - 1]);
                    assert(!finding_lt(before_out[j as int], x));
                    if b - 1 > j {
                        assert(!finding_lt(before_out[b - 1], before_out[j as int]));
                    }
                    lemma_finding_order(x, before_out[j as int], before_out[b - 1]);
                } else {
                    assert(a < j < b);
                    assert(out@[a] == before_out[a] && out@[b] == before_out[b - 1]);
                }
            }
        }
    }
    assert(orig.subrange(0, orig.len() as int) =~= orig);
    out
}

/// Lower-case text, as `str::to_lowercase` makes it.
pub uninterp spec fn lowercase_of(s: Seq<char>) -> Seq<char>;

/// The ASCII lower case of `c` (`char::to_ascii_lowercase`).
pub open spec fn ascii_lower(c: char) -> char {
    if 'A' <= c <= 'Z' {
        ((c as u32) + 32) as char
    } else {
        c
    }
}

/// `str::to_lowercase` (full Unicode case mapping; the result is named).
/// Stated besides: on ASCII text it maps each character as
/// `to_ascii_lowercase` does, as its documentation says.
#[verifier::external_body]
fn to_lowercase(s: &[char]) -> (r: Vec<char>)
    ensures
        r@ == lowercase_of(s@),
        (forall|i: int| 0 <= i < s@.len() ==> (s@[i] as u32) < 128) ==> r@.len() == s@.len() && forall|i: int|
            0 <= i < s@.len() ==> r@[i] == ascii_lower(s@[i]),
{
    let t: String = s.iter().collect();
    t.to_lowercase().chars().collect()
}

/// The findings of `fs` whose severity is named `sel`, in order.
pub open spec fn keep_severity(fs: Seq<LintFinding>, sel: Seq<char>) -> Seq<LintFinding>
    decreases fs.len(),
{
    if fs.len() == 0 {
        seq![]
    } else {
        let prev = keep_severity(fs.drop_last(), sel);
        if severity_name(fs.last().severity) == sel {
            prev.push(fs.last())
        } else {
            prev
        }
    }
}

/// The number of findings of `fs` with severity `sev`.
pub open spec fn severity_count(fs: Seq<LintFinding>, sev: Severity) -> nat
    decreases fs.len(),
{
    if fs.len() == 0 {
        0
    } else {
        severity_count(fs.drop_last(), sev) + if fs.last().severity == sev { 1nat } else { 0nat }
    }
}

proof fn lemma_severity_count_le(fs: Seq<LintFinding>, sev: Severity)
    ensures
        severity_count(fs, sev) <= fs.len(),
    decreases fs.len(),
{
    if fs.len() > 0 {
        lemma_severity_count_le(fs.drop_last(), sev);
    }
}

/// The findings a report keeps: with a severity filter (trimmed and
/// lower-cased), those of that severity.
pub open spec fn filtered(fs: Seq<LintFinding>, severity_filter: Option<Seq<char>>) -> Seq<LintFinding> {
    match severity_filter {
        Some(s) => keep_severity(fs, lowercase_of(trim(s))),
        None => fs,
    }
}

/// Gather findings into a report: apply the severity filter, sort by slug
/// then rule, and count errors and warnings.
pub fn finish_lint(wiki: &str, findings: Vec<LintFinding>, severity_filter: Option<&str>) -> (r: LintReport)
    ensures
        r.wiki@ == wiki@,
        findings_sorted(r.findings@),
        r.findings@.to_multiset() == filtered(
            findings@,
            opt_text(severity_filter),
        ).to_multiset(),
        forall|slug: Seq<char>, rule: Seq<char>| #[trigger] with_key(r.findings@, slug, rule) == with_key(
            filtered(findings@, opt_text(severity_filter)),
            slug,
            rule,
        ),
        r.total == r.findings@.len(),
        r.errors == severity_count(r.findings@, Severity::Error),
        r.warnings == severity_count(r.findings@, Severity::Warning),
{
    let kept: Vec<LintFinding> = match severity_filter {
        Some(sev) => {
            let raw = chars_of(sev);
            let t = trim_exec(&raw);
            let sel = to_lowercase(&t);
            let mut v = findings;
            let ghost all = v@;
            let mut rev_kept: Vec<LintFinding> = Vec::new();
            let mut back: Vec<LintFinding> = Vec::new();
            // Take the findings from the back, then restore their order.
            while v.len() > 0
                invariant
                    all == findings@,
                    keep_severity(all, sel@) == keep_severity(v@, sel@) + back@,
                decreases v.len(),
            {
                let ghost pre = v@;
                let f = v.pop().unwrap();
                assert(pre == v@.push(f));
                let name = chars_of(f.severity.as_str());
                if crate::text::seq_eq(&name, &sel) {
                    let ghost old_back = back@;
                    back.insert(0, f);
                    assert(back@ == seq![pre.last()] + old_back);
                    assert(keep_severity(pre, sel@) == keep_severity(v@, sel@).push(pre.last()));
                    assert(keep_severity(v@, sel@).push(pre.last()) + old_back == keep_severity(v@, sel@) + back@);
                } else {
                    assert(keep_severity(pre, sel@) == keep_severity(v@, sel@));
                }
            }
            assert(keep_severity(v@, sel@) + back@ == back@);
            back
        },
        None => findings,
    };
    assert(kept@ == filtered(findings@, opt_text(severity_filter)));
    let sorted = sort_findings(kept);
    let mut errors: usize = 0;
    let mut warnings: usize = 0;
    let mut i: usize = 0;
    while i < sorted.len()
        invariant
            i <= sorted@.len(),
            errors == severity_count(sorted@.subrange(0, i as int), Severity::Error),
            warnings == severity_count(sorted@.subrange(0, i as int), Severity::Warning),
        decreases sorted.len() - i,
    {
        proof {
            assert(sorted@.subrange(0, i + 1).drop_last() == sorted@.subrange(0, i as int));
            lemma_severity_count_le(sorted@.subrange(0, i as int), Severity::Error);
            lemma_severity_count_le(sorted@.subrange(0, i as int), Severity::Warning);
        }
        match sorted[i].severity {
            Severity::Error => {
                errors = errors + 1;
            },
            Severity::Warning => {
                warnings = warnings + 1;
            },
        }
        i = i + 1;
    }
    assert(sorted@.subrange(0, sorted@.len() as int) == sorted@);
    let total = sorted.len();
    LintReport { wiki: string_of(&chars_of(wiki)), total, errors, warnings, findings: sorted }
}

// ── Runs ──────────────────────────────────────────────────────────────────────

/// What a lint run reads of a wiki besides its pages and graph.
#[derive(Debug, Clone)]
pub struct LintContext {
    /// The wiki's root directory, for finding paths.
    pub wiki_root: String,
    /// The registered types: name and required fields.
    pub types: Vec<(String, Vec<String>)>,
    /// The fields the index holds.
    pub indexed: Vec<String>,
    /// The names of the mounted wikis.
    pub mounted: Vec<String>,
    /// Above this many local pages the periphery rule is skipped.
    pub max_nodes_for_diameter: usize,
}

/// The names of all lint rules, in the order they run.
pub open spec fn all_rule_names() -> Seq<Seq<char>> {
    seq![
        "orphan"@,
        "broken-link"@,
        "broken-cross-wiki-link"@,
        "missing-fields"@,
        "stale"@,
        "unknown-type"@,
        "articulation-point"@,
        "bridge"@,
        "periphery"@,
    ]
}

/// The rules a run applies: all of them without a list (or with an empty
/// one), else the comma-separated names, trimmed.
pub open spec fn active_spec(rules: Option<Seq<char>>) -> Seq<Seq<char>> {
    match rules {
        Some(s) => if s.len() == 0 {
            all_rule_names()
        } else {
            crate::text::split_char(s, ',').map_values(|p: Seq<char>| trim(p))
        },
        None => all_rule_names(),
    }
}

/// The rules a run applies, as `active_spec` says.
pub fn active_rules(rules: Option<&str>) -> (r: Vec<String>)
    ensures
        texts(r@) == active_spec(
            opt_text(rules),
        ),
{
    let all = || -> (v: Vec<String>)
        ensures
            texts(v@) == all_rule_names(),
    {
        let mut v: Vec<String> = Vec::new();
        v.push(string_of(&chars_of("orphan")));
        v.push(string_of(&chars_of("broken-link")));
        v.push(string_of(&chars_of("broken-cross-wiki-link")));
        v.push(string_of(&chars_of("missing-fields")));
        v.push(string_of(&chars_of("stale")));
        v.push(string_of(&chars_of("unknown-type")));
        v.push(string_of(&chars_of("articulation-point")));
        v.push(string_of(&chars_of("bridge")));
        v.push(string_of(&chars_of("periphery")));
        assert(texts(v@) =~= all_rule_names());
        v
    };
    match rules {
        None => all(),
        Some(s) => {
            let c = chars_of(s);
            if c.len() == 0 {
                return all();
            }
            let parts = crate::slug::split_char_exec(&c, ',');
            let ghost ps = parts@.map_values(|w: Vec<char>| w@);
            let mut out: Vec<String> = Vec::new();
            let mut i: usize = 0;
            while i < parts.len()
                invariant
                    i <= parts@.len(),
                    ps == parts@.map_values(|w: Vec<char>| w@),
                    texts(out@) == ps.subrange(0, i as int).map_values(|p: Seq<char>| trim(p)),
                decreases parts.len() - i,
            {
                let t = trim_exec(&parts[i]);
                let ghost old_out = out@;
                out.push(string_of(&t));
                assert(texts(out@) == texts(old_out).push(t@));
                assert(ps.subrange(0, i + 1) == ps.subrange(0, i as int).push(ps[i as int]));
                assert(ps.subrange(0, i + 1).map_values(|p: Seq<char>| trim(p)) == ps.subrange(
                    0,
                    i as int,
                ).map_values(|p: Seq<char>| trim(p)).push(trim(ps[i as int])));
                i = i + 1;
            }
            assert(ps.subrange(0, parts@.len() as int) == ps);
            out
        },
    }
}

/// The graph rules are among `active`.
pub open spec fn graph_needed(active: Seq<Seq<char>>) -> bool {
    active.contains("articulation-point"@) || active.contains("bridge"@) || active.contains("periphery"@)
}

/// Whether a run with these rules needs the concept graph.
pub fn needs_graph(active: &Vec<String>) -> (r: bool)
    ensures
        r == graph_needed(texts(active@)),
{
    contains_text(active, &chars_of("articulation-point")) || contains_text(active, &chars_of("bridge"))
        || contains_text(active, &chars_of("periphery"))
}

/// The findings of a run, before filtering and sorting: each active rule's
/// findings, rule after rule in the order of `all_rule_names`.
pub open spec fn run_spec(
    pages: Seq<IndexedPage>,
    g: WikiGraph,
    ctx: LintContext,
    active: Seq<Seq<char>>,
) -> Seq<FindingSpec> {
    let on = |name: Seq<char>| active.contains(name);
    (if on("orphan"@) { orphan_spec(pages, pages) } else { seq![] })
    + (if on("broken-link"@) {
        broken_spec(pages, texts(ctx.mounted@), on("broken-cross-wiki-link"@), pages)
    } else if on("broken-cross-wiki-link"@) {
        with_rule(broken_spec(pages, texts(ctx.mounted@), true, pages), "broken-cross-wiki-link"@)
    } else { seq![] })
    + (if on("missing-fields"@) { missing_spec(ctx.types@, texts(ctx.indexed@), pages) } else { seq![] })
    + (if on("stale"@) { stale_spec(pages) } else { seq![] })
    + (if on("unknown-type"@) { unknown_spec(ctx.types@, pages) } else { seq![] })
    + (if on("articulation-point"@) { ap_spec(g) } else { seq![] })
    + (if on("bridge"@) { bridge_spec(g) } else { seq![] })
    + (if on("periphery"@) { periphery_spec(g, ctx.max_nodes_for_diameter as nat) } else { seq![] })
}

/// The findings of `fs` made by rule `rule`, in order.
pub open spec fn with_rule(fs: Seq<FindingSpec>, rule: Seq<char>) -> Seq<FindingSpec>
    decreases fs.len(),
{
    if fs.len() == 0 {
        seq![]
    } else if fs.last().1 == rule {
        with_rule(fs.drop_last(), rule).push(fs.last())
    } else {
        with_rule(fs.drop_last(), rule)
    }
}

fn copy_finding(f: &LintFinding) -> (r: LintFinding)
    ensures
        r == *f,
{
    LintFinding {
        slug: f.slug.clone(),
        rule: f.rule.clone(),
        severity: f.severity,
        message: f.message.clone(),
        path: f.path.clone(),
    }
}

/// Keep the findings made by rule `rule`, keeping `findings_match`.
fn keep_rule(v: Vec<LintFinding>, rule: &str, Ghost(s): Ghost<Seq<FindingSpec>>, Ghost(root): Ghost<Seq<char>>) -> (r: Vec<
    LintFinding,
>)
    requires
        findings_match(v@, s, root),
    ensures
        findings_match(r@, with_rule(s, rule@), root),
{
    let mut r: Vec<LintFinding> = Vec::new();
    let mut i: usize = 0;
    while i < v.len()
        invariant
            i <= v@.len(),
            findings_match(v@, s, root),
            findings_match(r@, with_rule(s.take(i as int), rule@), root),
        decreases v.len() - i,
    {
        proof {
            assert(s.take(i + 1).drop_last() =~= s.take(i as int));
            assert(s.take(i + 1).last() == s[i as int]);
            assert(finding_is(v@[i as int], s[i as int].0, s[i as int].1, s[i as int].2, s[i as int].3, root));
        }
        if eq_str(&chars_of(v[i].rule.as_str()), rule) {
            let ghost before = r@;
            let f = copy_finding(&v[i]);
            r.push(f);
            proof {
                let w = with_rule(s.take(i + 1), rule@);
                assert(w == with_rule(s.take(i as int), rule@).push(s[i as int]));
                assert forall|k: int| 0 <= k < r@.len() implies finding_is(#[trigger] r@[k], w[k].0, w[k].1, w[k].2, w[k].3, root) by {
                    if k < before.len() {
                        assert(r@[k] == before[k]);
                    }
                }
            }
        }
        i = i + 1;
    }
    assert(s.take(v@.len() as int) =~= s);
    r
}

/// Append findings, keeping `findings_match`.
fn append_findings(
    out: &mut Vec<LintFinding>,
    more: Vec<LintFinding>,
    Ghost(a): Ghost<Seq<FindingSpec>>,
    Ghost(b): Ghost<Seq<FindingSpec>>,
    Ghost(root): Ghost<Seq<char>>,
)
    requires
        findings_match(old(out)@, a, root),
        findings_match(more@, b, root),
    ensures
        findings_match(final(out)@, a + b, root),
{
    let mut more = more;
    let ghost m = more@;
    out.append(&mut more);
    assert(out@ == old(out)@ + m);
    assert forall|k: int| 0 <= k < out@.len() implies finding_is(
        #[trigger] out@[k],
        (a + b)[k].0,
        (a + b)[k].1,
        (a + b)[k].2,
        (a + b)[k].3,
        root,
    ) by {
        if k < a.len() {
            assert(out@[k] == old(out)@[k]);
        } else {
            assert(out@[k] == m[k - a.len()]);
        }
    }
}

/// Run the active lint rules over the indexed pages and the concept graph
/// of a wiki, then filter, sort and count the findings.
/// `rules` is a comma-separated list (`None` or empty runs all rules);
/// `severity_filter` keeps only `error` or `warning` findings. The graph is
/// read only by the graph rules.
pub fn run_lint(
    wiki_name: &str,
    pages: &Vec<IndexedPage>,
    graph: &WikiGraph,
    ctx: &LintContext,
    rules: Option<&str>,
    severity_filter: Option<&str>,
) -> (r: LintReport)
    ensures
        r.wiki@ == wiki_name@,
        exists|raw: Seq<LintFinding>|
            {
                &&& #[trigger] findings_match(
                    raw,
                    run_spec(
                        pages@,
                        *graph,
                        *ctx,
                        active_spec(
                            opt_text(rules),
                        ),
                    ),
                    ctx.wiki_root@,
                )
                &&& r.findings@.to_multiset() == filtered(
                    raw,
                    opt_text(severity_filter),
                ).to_multiset()
                &&& forall|slug: Seq<char>, rule: Seq<char>| #[trigger] with_key(r.findings@, slug, rule) == with_key(
                    filtered(raw, opt_text(severity_filter)),
                    slug,
                    rule,
                )
            },
        findings_sorted(r.findings@),
        r.total == r.findings@.len(),
        r.errors == severity_count(r.findings@, Severity::Error),
        r.warnings == severity_count(r.findings@, Severity::Warning),
{
    let active = active_rules(rules);
    let ghost act = texts(active@);
    let root = ctx.wiki_root.as_str();
    let ghost rt = root@;
    let mut out: Vec<LintFinding> = Vec::new();
    let ghost mut acc: Seq<FindingSpec> = seq![];
    let on_orphan = contains_text(&active, &chars_of("orphan"));
    let on_broken = contains_text(&active, &chars_of("broken-link"));
    let on_cross = contains_text(&active, &chars_of("broken-cross-wiki-link"));
    let on_missing = contains_text(&active, &chars_of("missing-fields"));
    let on_stale = contains_text(&active, &chars_of("stale"));
    let on_unknown = contains_text(&active, &chars_of("unknown-type"));
    let on_ap = contains_text(&active, &chars_of("articulation-point"));
    let on_bridge = contains_text(&active, &chars_of("bridge"));
    let on_periphery = contains_text(&active, &chars_of("periphery"));
    let ghost s1 = if on_orphan { orphan_spec(pages@, pages@) } else { seq![] };
    if on_orphan {
        let f = rule_orphan(pages, root);
        append_findings(&mut out, f, Ghost(acc), Ghost(s1), Ghost(rt));
    } else {
        assert(acc + s1 == acc);
    }
    proof { acc = acc + s1; }
    let ghost s2 = if on_broken {
        broken_spec(pages@, texts(ctx.mounted@), on_cross, pages@)
    } else if on_cross {
        with_rule(broken_spec(pages@, texts(ctx.mounted@), true, pages@), "broken-cross-wiki-link"@)
    } else {
        seq![]
    };
    if on_broken {
        let f = rule_broken_link(pages, root, on_cross, &ctx.mounted);
        append_findings(&mut out, f, Ghost(acc), Ghost(s2), Ghost(rt));
    } else if on_cross {
        let all = rule_broken_link(pages, root, true, &ctx.mounted);
        let f = keep_rule(all, "broken-cross-wiki-link", Ghost(broken_spec(pages@, texts(ctx.mounted@), true, pages@)), Ghost(rt));
        proof {
            reveal_strlit("broken-cross-wiki-link");
        }
        append_findings(&mut out, f, Ghost(acc), Ghost(s2), Ghost(rt));
    } else {
        assert(acc + s2 == acc);
    }
    proof { acc = acc + s2; }
    let ghost s3 = if on_missing { missing_spec(ctx.types@, texts(ctx.indexed@), pages@) } else { seq![] };
    if on_missing {
        let f = rule_missing_fields(pages, root, &ctx.types, &ctx.indexed);
        append_findings(&mut out, f, Ghost(acc), Ghost(s3), Ghost(rt));
    } else {
        assert(acc + s3 == acc);
    }
    proof { acc = acc + s3; }
    let ghost s4 = if on_stale { stale_spec(pages@) } else { seq![] };
    if on_stale {
        let f = rule_stale(pages, root);
        append_findings(&mut out, f, Ghost(acc), Ghost(s4), Ghost(rt));
    } else {
        assert(acc + s4 == acc);
    }
    proof { acc = acc + s4; }
    let ghost s5 = if on_unknown { unknown_spec(ctx.types@, pages@) } else { seq![] };
    if on_unknown {
        let f = rule_unknown_type(pages, root, &ctx.types);
        append_findings(&mut out, f, Ghost(acc), Ghost(s5), Ghost(rt));
    } else {
        assert(acc + s5 == acc);
    }
    proof { acc = acc + s5; }
    let ghost s6 = if on_ap { ap_spec(*graph) } else { seq![] };
    if on_ap {
        let f = rule_articulation_point(graph, root);
        append_findings(&mut out, f, Ghost(acc), Ghost(s6), Ghost(rt));
    } else {
        assert(acc + s6 == acc);
    }
    proof { acc = acc + s6; }
    let ghost s7 = if on_bridge { bridge_spec(*graph) } else { seq![] };
    if on_bridge {
        let f = rule_bridge(graph, root);
        append_findings(&mut out, f, Ghost(acc), Ghost(s7), Ghost(rt));
    } else {
        assert(acc + s7 == acc);
    }
    proof { acc = acc + s7; }
    let ghost s8 = if on_periphery { periphery_spec(*graph, ctx.max_nodes_for_diameter as nat) } else { seq![] };
    if on_periphery {
        let f = rule_periphery(graph, root, ctx.max_nodes_for_diameter);
        append_findings(&mut out, f, Ghost(acc), Ghost(s8), Ghost(rt));
    } else {
        assert(acc + s8 == acc);
    }
    proof { acc = acc + s8; }
    assert(acc == run_spec(pages@, *graph, *ctx, act));
    let ghost raw = out@;
    let r = finish_lint(wiki_name, out, severity_filter);
    assert(findings_match(raw, run_spec(pages@, *graph, *ctx, act), ctx.wiki_root@));
    r
}

} // verus!
