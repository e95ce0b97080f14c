//! The parameters and results of the wiki's operations, and the decisions
//! they make that do not touch the disk.
use vstd::prelude::*;

use crate::graph::{
    center, center_of, dot_spec, edge_pairs, graph_md_spec, mermaid_spec, page, page_count, render_dot, render_mermaid,
    wiki_edges, wiki_nodes, wrap_graph_md, GraphFilter, GraphReport, PageNode, WikiGraph,
};
use crate::graph_llms::{llms_spec, render_llms};
use crate::links::texts;
use crate::lint::join_path;
use crate::slug::split_char_exec;
use crate::text::{
    chars_of, decimal, decimal_exec, ends_with, ends_with_str, eq_str, join, push_chars, push_joined, push_str, rfind_char,
    rfind_char_exec,
    rstrip_char, rstrip_char_exec, slice, split_char, string_of, trim, trim_exec,
};

verus! {

/// Parameters of a search.
#[derive(Debug, Clone)]
pub struct SearchParams {
    pub query: String,
    pub type_filter: Option<String>,
    pub no_excerpt: bool,
    pub top_k: Option<usize>,
    pub include_sections: bool,
    pub cross_wiki: bool,
}

/// Rendered graph output plus the associated report.
#[derive(Debug, Clone)]
pub struct GraphResult {
    /// Rendered graph string (Mermaid, DOT, or llms format).
    pub rendered: String,
    /// Metadata about the generated graph.
    pub report: GraphReport,
}

/// Parameters of a graph build.
#[derive(Debug, Clone)]
pub struct GraphParams {
    /// Output format: `"mermaid"`, `"dot"`, or `"llms"`.
    pub format: Option<String>,
    /// Slug of the root node for a subgraph traversal.
    pub root: Option<String>,
    /// Maximum hops from root.
    pub depth: Option<usize>,
    /// Comma-separated page types to include.
    pub type_filter: Option<String>,
    /// Filter edges by this relation label.
    pub relation: Option<String>,
    /// File path to write output to; `None` for returning only.
    pub output: Option<String>,
    /// Merge all mounted wikis into a single graph.
    pub cross_wiki: bool,
}

/// One commit in a page's history.
#[derive(Debug, Clone)]
pub struct HistoryEntry {
    pub hash: String,
    pub date: String,
    pub message: String,
    pub author: String,
}

/// The history of a page.
#[derive(Debug, Clone)]
pub struct HistoryResult {
    pub slug: String,
    pub entries: Vec<HistoryEntry>,
}

/// Page staleness bucketed by last-updated age.
#[derive(Debug, Clone, Copy)]
pub struct StalenessBuckets {
    /// Pages updated within the last 7 days.
    pub fresh: usize,
    /// Pages updated 7–30 days ago.
    pub stale_7d: usize,
    /// Pages updated more than 30 days ago (or with no date).
    pub stale_30d: usize,
}

/// Summary health status of the search index.
#[derive(Debug, Clone)]
pub struct IndexHealth {
    /// True if the index is out of date relative to the wiki files.
    pub stale: bool,
    /// ISO-8601 timestamp of the last successful index build, if known.
    pub built: Option<String>,
}

/// A registered page type.
#[derive(Debug, Clone)]
pub struct SchemaTypeEntry {
    pub name: String,
    pub description: String,
    pub schema_path: String,
}

/// What removing a type did.
#[derive(Debug, Clone, Copy)]
pub struct SchemaRemoveReport {
    pub pages_removed: usize,
    pub pages_deleted_from_disk: usize,
    pub wiki_toml_updated: bool,
    pub schema_file_deleted: bool,
    pub dry_run: bool,
}

/// A page that links to another.
#[derive(Debug, Clone)]
pub struct BacklinkRef {
    pub slug: String,
    pub title: String,
}

/// What reading content gave.
#[derive(Debug, Clone)]
pub enum ContentReadResult {
    /// The text of a page or a text asset.
    Page(String),
    /// The URIs of a bundle's assets.
    Assets(Vec<String>),
    /// A binary asset.
    Binary,
}

/// What writing a page did.
#[derive(Debug, Clone)]
pub struct WriteResult {
    pub bytes_written: usize,
    pub path: String,
}

/// What creating a page did.
#[derive(Debug, Clone)]
pub struct ContentNewResult {
    pub uri: String,
    pub slug: String,
    pub path: String,
    pub wiki_root: String,
    pub bundle: bool,
}

/// The age bucket of a page updated `days` days ago (`None`: no date):
/// fresh up to 7 days, `stale_7d` up to 30, `stale_30d` beyond or undated.
pub open spec fn bucket_of(days: Option<i64>) -> int {
    match days {
        Some(d) => if d <= 7 {
            0
        } else if d <= 30 {
            1
        } else {
            2
        },
        None => 2,
    }
}

/// Count pages into staleness buckets by the age in days of their last
/// update.
pub fn staleness_buckets(ages: &Vec<Option<i64>>) -> (b: StalenessBuckets)
    ensures
        b.fresh + b.stale_7d + b.stale_30d == ages@.len(),
        b.fresh == ages@.filter(|a: Option<i64>| bucket_of(a) == 0).len(),
        b.stale_7d == ages@.filter(|a: Option<i64>| bucket_of(a) == 1).len(),
        b.stale_30d == ages@.filter(|a: Option<i64>| bucket_of(a) == 2).len(),
{
    let mut b = StalenessBuckets { fresh: 0, stale_7d: 0, stale_30d: 0 };
    let mut i: usize = 0;
    while i < ages.len()
        invariant
            i <= ages@.len(),
            b.fresh + b.stale_7d + b.stale_30d == i,
            b.fresh == ages@.subrange(0, i as int).filter(|a: Option<i64>| bucket_of(a) == 0).len(),
            b.stale_7d == ages@.subrange(0, i as int).filter(|a: Option<i64>| bucket_of(a) == 1).len(),
            b.stale_30d == ages@.subrange(0, i as int).filter(|a: Option<i64>| bucket_of(a) == 2).len(),
        decreases ages.len() - i,
    {
        proof {
            let s = ages@.subrange(0, i + 1);
            assert(s.drop_last() == ages@.subrange(0, i as int));
            ages@.subrange(0, i as int).lemma_filter_push(ages@[i as int], |a: Option<i64>| bucket_of(a) == 0);
            ages@.subrange(0, i as int).lemma_filter_push(ages@[i as int], |a: Option<i64>| bucket_of(a) == 1);
            ages@.subrange(0, i as int).lemma_filter_push(ages@[i as int], |a: Option<i64>| bucket_of(a) == 2);
            assert(ages@.subrange(0, i as int).push(ages@[i as int]) == s);
        }
        match ages[i] {
            Some(d) => {
                if d <= 7 {
                    b.fresh = b.fresh + 1;
                } else if d <= 30 {
                    b.stale_7d = b.stale_7d + 1;
                } else {
                    b.stale_30d = b.stale_30d + 1;
                }
            },
            None => {
                b.stale_30d = b.stale_30d + 1;
            },
        }
        i = i + 1;
    }
    assert(ages@.subrange(0, ages@.len() as int) == ages@);
    b
}

/// The parent of a path (`Path::parent` on Unix, for paths without `.`
/// components): trailing separators are ignored; a path of one component
/// has the empty parent; the root and the empty path have none.
pub open spec fn parent_dir(p: Seq<char>) -> Option<Seq<char>> {
    let s = rstrip_char(p, '/');
    if s.len() == 0 {
        None
    } else {
        match rfind_char(s, '/') {
            Some(i) => {
                let d = rstrip_char(s.subrange(0, i), '/');
                if d.len() == 0 {
                    Some("/"@)
                } else {
                    Some(d)
                }
            },
            None => Some(seq![]),
        }
    }
}

/// The log directory beside the config file: `<config dir>/logs` (`./logs`
/// when the config path has no parent).
pub fn logs_path(config_path: &str) -> (r: String)
    ensures
        r@ == join_path(
            match parent_dir(config_path@) {
                Some(d) => d,
                None => "."@,
            },
            "logs"@,
        ),
{
    proof {
        reveal_strlit("");
    }
    let p = chars_of(config_path);
    let s = rstrip_char_exec(&p, '/');
    let logs = chars_of("logs");
    if s.len() == 0 {
        return crate::lint::join_path_exec(".", &logs);
    }
    proof {
        crate::text::lemma_rfind_char(s@, '/');
    }
    match rfind_char_exec(&s, '/') {
        Some(i) => {
            let d = rstrip_char_exec(&slice(&s, 0, i), '/');
            if d.len() == 0 {
                crate::lint::join_path_exec("/", &logs)
            } else {
                crate::lint::join_path_exec(string_of(&d).as_str(), &logs)
            }
        },
        None => crate::lint::join_path_exec("", &logs),
    }
}

// ── Structural metrics ────────────────────────────────────────────────────────

/// Whether the eccentricity metrics (diameter, radius, center) of a graph
/// are computed for its stats.
#[derive(Debug, Clone)]
pub enum StructuralPlan {
    /// Structural algorithms are switched off.
    Off,
    /// Computed.
    Computed,
    /// Skipped: the graph has more local pages than allowed; the note says so.
    TooLarge(String),
}

/// The note for a graph too large for the eccentricity metrics.
pub open spec fn too_large_note(local_count: nat, max_nodes: nat) -> Seq<char> {
    "graph too large for diameter computation ("@ + decimal(local_count) + " nodes > max_nodes_for_diameter="@
        + decimal(max_nodes) + ")"@
}

/// Decide whether to compute the eccentricity metrics: not when
/// `graph.structural_algorithms` is off; yes when the local pages number at
/// most `graph.max_nodes_for_diameter`; otherwise skipped, with a note.
pub fn structural_plan(enabled: bool, local_count: usize, max_nodes: usize) -> (r: StructuralPlan)
    ensures
        !enabled ==> r is Off,
        enabled && local_count <= max_nodes ==> r is Computed,
        enabled && local_count > max_nodes ==> (r matches StructuralPlan::TooLarge(n) && n@ == too_large_note(
            local_count as nat,
            max_nodes as nat,
        )),
{
    if !enabled {
        return StructuralPlan::Off;
    }
    if local_count <= max_nodes {
        return StructuralPlan::Computed;
    }
    let mut out: Vec<char> = Vec::new();
    push_str(&mut out, "graph too large for diameter computation (");
    push_chars(&mut out, &decimal_exec(local_count as u64));
    push_str(&mut out, " nodes > max_nodes_for_diameter=");
    push_chars(&mut out, &decimal_exec(max_nodes as u64));
    push_str(&mut out, ")");
    StructuralPlan::TooLarge(string_of(&out))
}

/// The number of local (not external) pages among `nodes`.
pub open spec fn local_count_of(nodes: Seq<PageNode>) -> nat
    decreases nodes.len(),
{
    if nodes.len() == 0 {
        0
    } else {
        local_count_of(nodes.drop_last()) + if nodes.last().external {
            0nat
        } else {
            1nat
        }
    }
}

/// The number of local pages of a graph.
pub fn local_node_count(g: &WikiGraph) -> (n: usize)
    ensures
        n == local_count_of(wiki_nodes(*g)),
{
    let ghost nodes = wiki_nodes(*g);
    let total = page_count(g);
    let mut n: usize = 0;
    let mut i: usize = 0;
    while i < total
        invariant
            nodes == wiki_nodes(*g),
            total == nodes.len(),
            i <= total,
            n == local_count_of(nodes.take(i as int)),
            n <= i,
        decreases total - i,
    {
        proof {
            assert(nodes.take(i + 1).drop_last() =~= nodes.take(i as int));
            assert(nodes.take(i + 1).last() == nodes[i as int]);
        }
        if !page(g, i).external {
            n = n + 1;
        }
        i = i + 1;
    }
    assert(nodes.take(total as int) =~= nodes);
    n
}

/// The slugs of the local pages among the nodes at `idx`, in order.
pub open spec fn local_slugs(nodes: Seq<PageNode>, idx: Seq<usize>) -> Seq<Seq<char>>
    decreases idx.len(),
{
    if idx.len() == 0 {
        seq![]
    } else {
        let prev = local_slugs(nodes, idx.drop_last());
        if nodes[idx.last() as int].external {
            prev
        } else {
            prev.push(nodes[idx.last() as int].slug@)
        }
    }
}

/// The slugs of the graph's central local pages (least eccentricity), in
/// node order.
pub fn center_slugs(g: &WikiGraph) -> (r: Vec<String>)
    ensures
        crate::links::texts(r@) == local_slugs(wiki_nodes(*g), center_of(wiki_nodes(*g).len(), edge_pairs(wiki_edges(*g)))),
{
    let ghost nodes = wiki_nodes(*g);
    let c = center(g);
    let mut r: Vec<String> = Vec::new();
    let mut k: usize = 0;
    while k < c.len()
        invariant
            nodes == wiki_nodes(*g),
            k <= c@.len(),
            forall|j: int| 0 <= j < c@.len() ==> #[trigger] c@[j] < nodes.len(),
            crate::links::texts(r@) == local_slugs(nodes, c@.take(k as int)),
        decreases c.len() - k,
    {
        proof {
            assert(c@.take(k + 1).drop_last() =~= c@.take(k as int));
            assert(c@.take(k + 1).last() == c@[k as int]);
        }
        let p = page(g, c[k]);
        if !p.external {
            let ghost before = r@;
            r.push(p.slug.clone());
            assert(crate::links::texts(r@) =~= crate::links::texts(before).push(p.slug@));
        }
        k = k + 1;
    }
    assert(c@.take(c@.len() as int) =~= c@);
    r
}

// ── Graph builds ──────────────────────────────────────────────────────────────

/// A copy of an optional string.
fn copy_opt(o: &Option<String>) -> (r: Option<String>)
    ensures
        r == *o,
{
    match o {
        Some(s) => Some(s.clone()),
        None => None,
    }
}

/// The types of a comma-separated type filter, each trimmed.
pub open spec fn filter_types(type_filter: Option<String>) -> Seq<Seq<char>> {
    match type_filter {
        Some(t) => split_char(t@, ',').map_values(|p: Seq<char>| trim(p)),
        None => seq![],
    }
}

/// The filter of a graph build: the given root and relation, the given
/// depth or else the configured default, and the types of the
/// comma-separated type filter, each trimmed.
pub fn graph_filter_of(params: &GraphParams, default_depth: u32) -> (f: GraphFilter)
    ensures
        f.root == params.root,
        f.relation == params.relation,
        f.depth == Some(
            match params.depth {
                Some(d) => d,
                None => default_depth as usize,
            },
        ),
        texts(f.types@) == filter_types(params.type_filter),
{
    let mut types: Vec<String> = Vec::new();
    match &params.type_filter {
        Some(t) => {
            let parts = split_char_exec(&chars_of(t.as_str()), ',');
            let ghost pieces = split_char(t@, ',');
            let mut k: usize = 0;
            while k < parts.len()
                invariant
                    k <= parts@.len(),
                    parts@.map_values(|w: Vec<char>| w@) == pieces,
                    texts(types@) == pieces.take(k as int).map_values(|p: Seq<char>| trim(p)),
                decreases parts.len() - k,
            {
                let piece = trim_exec(&parts[k]);
                let ghost before = texts(types@);
                types.push(string_of(&piece));
                proof {
                    assert(pieces[k as int] == parts@[k as int]@);
                    assert(texts(types@) =~= before.push(trim(pieces[k as int])));
                    assert(pieces.take(k + 1).map_values(|p: Seq<char>| trim(p)) =~= pieces.take(k as int).map_values(
                        |p: Seq<char>| trim(p),
                    ).push(trim(pieces[k as int])));
                }
                k = k + 1;
            }
            assert(pieces.take(parts@.len() as int) =~= pieces);
        },
        None => {},
    }
    let depth = match params.depth {
        Some(d) => d,
        None => default_depth as usize,
    };
    GraphFilter { root: copy_opt(&params.root), depth: Some(depth), types, relation: copy_opt(&params.relation) }
}

/// A graph rendered in a format: `dot`, `llms`, or Mermaid for any other.
pub open spec fn rendered_spec(g: WikiGraph, format: Seq<char>) -> Seq<char> {
    if format == "dot"@ {
        dot_spec(wiki_nodes(g), wiki_edges(g))
    } else if format == "llms"@ {
        llms_spec(wiki_nodes(g), wiki_edges(g))
    } else {
        mermaid_spec(wiki_nodes(g), wiki_edges(g))
    }
}

/// Render a graph in the format: `dot` (Graphviz), `llms` (plain
/// language), anything else Mermaid.
pub fn render_graph(g: &WikiGraph, format: &str) -> (out: String)
    ensures
        out@ == rendered_spec(*g, format@),
{
    proof {
        reveal_strlit("dot");
        reveal_strlit("llms");
    }
    let f = chars_of(format);
    if eq_str(&f, "dot") {
        render_dot(g)
    } else if eq_str(&f, "llms") {
        render_llms(g)
    } else {
        render_mermaid(g)
    }
}

/// What a graph build writes to its output file: for a path ending in
/// `.md`, the rendering wrapped in a markdown page generated now; otherwise
/// the rendering itself.
pub fn graph_file_content(rendered: &str, format: &str, filter: &GraphFilter, out_path: &str) -> (r: String)
    ensures
        ends_with(out_path@, ".md"@) ==> exists|now: Seq<char>| r@ == graph_md_spec(rendered@, format@, *filter, now),
        !ends_with(out_path@, ".md"@) ==> r@ == rendered@,
{
    if ends_with_str(&chars_of(out_path), ".md") {
        wrap_graph_md(rendered, format, filter)
    } else {
        string_of(&chars_of(rendered))
    }
}

// ── Removing a type ───────────────────────────────────────────────────────────

/// Why a type cannot be removed.
#[derive(Debug, Clone, Copy, PartialEq, Eq, Structural)]
pub enum SchemaRemoveError {
    /// The `default` type is the fallback for unknown types.
    DefaultType,
}

impl SchemaRemoveError {
    /// The human-readable message.
    pub fn message(&self) -> (m: &'static str)
        ensures
            m@ == "cannot remove the 'default' type"@,
    {
        proof {
            reveal_strlit("cannot remove the 'default' type");
        }
        "cannot remove the 'default' type"
    }
}

/// What removing the type `page_type` would do, without doing it: the pages of
/// the type (`pages`) leave the index and, with `delete_pages`, the disk;
/// the wiki's type table changes when the type is registered
/// (`registered`); with `delete`, the schema file goes. The `default` type
/// cannot be removed.
pub fn schema_remove_plan(
    page_type: &str,
    pages: usize,
    registered: bool,
    delete: bool,
    delete_pages: bool,
) -> (r: Result<SchemaRemoveReport, SchemaRemoveError>)
    ensures
        page_type@ == "default"@ ==> r == Err::<SchemaRemoveReport, SchemaRemoveError>(SchemaRemoveError::DefaultType),
        page_type@ != "default"@ ==> (r matches Ok(rep) && rep.pages_removed == pages && rep.pages_deleted_from_disk == (
        if delete_pages {
            pages
        } else {
            0
        }) && rep.wiki_toml_updated == registered && rep.schema_file_deleted == delete && rep.dry_run),
{
    proof {
        reveal_strlit("default");
    }
    if eq_str(&chars_of(page_type), "default") {
        return Err(SchemaRemoveError::DefaultType);
    }
    Ok(SchemaRemoveReport {
        pages_removed: pages,
        pages_deleted_from_disk: if delete_pages {
            pages
        } else {
            0
        },
        wiki_toml_updated: registered,
        schema_file_deleted: delete,
        dry_run: true,
    })
}

// ── Logs ──────────────────────────────────────────────────────────────────────

/// The last `n` lines (all of them when there are fewer), joined with
/// newlines.
pub open spec fn tail_spec(lines: Seq<Seq<char>>, n: nat) -> Seq<char> {
    let start = if lines.len() > n {
        lines.len() - n
    } else {
        0
    };
    join(lines.subrange(start, lines.len() as int), "\n"@)
}

/// The tail of a log file: its last `n` lines, joined with newlines.
pub fn tail_lines(lines: &Vec<String>, n: usize) -> (r: String)
    ensures
        r@ == tail_spec(texts(lines@), n as nat),
{
    let start: usize = if lines.len() > n {
        lines.len() - n
    } else {
        0
    };
    let mut kept: Vec<String> = Vec::new();
    let mut i: usize = start;
    while i < lines.len()
        invariant
            start <= i <= lines@.len(),
            texts(kept@) == texts(lines@).subrange(start as int, i as int),
        decreases lines.len() - i,
    {
        let ghost before = texts(kept@);
        kept.push(lines[i].clone());
        assert(texts(kept@) =~= before.push(lines@[i as int]@));
        assert(texts(lines@).subrange(start as int, i + 1) =~= texts(lines@).subrange(start as int, i as int).push(
            lines@[i as int]@,
        ));
        i = i + 1;
    }
    let mut out: Vec<char> = Vec::new();
    push_joined(&mut out, &kept, "\n");
    assert(kept@.map_values(|s: String| s@) == texts(kept@));
    string_of(&out)
}

// ── Commits ───────────────────────────────────────────────────────────────────

/// A commit request names nothing to commit.
#[derive(Debug, Clone, Copy, PartialEq, Eq, Structural)]
pub enum CommitError {
    /// Neither slugs nor `--all`.
    NothingNamed,
}

impl CommitError {
    /// The human-readable message.
    pub fn message(&self) -> (m: &'static str)
        ensures
            m@ == "specify slugs or --all"@,
    {
        proof {
            reveal_strlit("specify slugs or --all");
        }
        "specify slugs or --all"
    }
}

/// The message of a content commit: the given one, else `commit: all` for
/// everything, else `commit: ` and the slugs joined with `, `. A request
/// with neither slugs nor `all` is refused.
pub fn commit_message(message: Option<&str>, all: bool, slugs: &Vec<String>) -> (r: Result<String, CommitError>)
    ensures
        slugs@.len() == 0 && !all ==> r == Err::<String, CommitError>(CommitError::NothingNamed),
        slugs@.len() > 0 || all ==> (r matches Ok(m) && m@ == match message {
            Some(t) => t@,
            None => if all {
                "commit: all"@
            } else {
                "commit: "@ + join(texts(slugs@), ", "@)
            },
        }),
{
    if slugs.len() == 0 && !all {
        return Err(CommitError::NothingNamed);
    }
    match message {
        Some(t) => Ok(string_of(&chars_of(t))),
        None => {
            let mut out: Vec<char> = Vec::new();
            if all {
                push_str(&mut out, "commit: all");
            } else {
                push_str(&mut out, "commit: ");
                push_joined(&mut out, slugs, ", ");
                assert(slugs@.map_values(|s: String| s@) == texts(slugs@));
            }
            Ok(string_of(&out))
        },
    }
}

} // verus!
