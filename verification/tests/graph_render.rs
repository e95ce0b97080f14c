use llm_wiki::graph::{
    build_graph, compute_metrics, mermaid_id, render_dot, render_mermaid, subgraph, wrap_graph_md_at, DocInfo,
    GraphFilter, LabeledEdge, PageNode, WikiGraph,
};
use llm_wiki::graph_llms::render_llms;
use llm_wiki::graph_merge::{build_graph_cross_wiki, merge_graphs};
use llm_wiki::ops::{graph_file_content, graph_filter_of, render_graph, GraphParams};
use llm_wiki::search::{render_search_llms, FacetCounts, PageRef, SearchResult};
use petgraph::graph::{DiGraph, NodeIndex};

fn node(slug: &str, title: &str, ty: &str, external: bool) -> PageNode {
    PageNode { slug: slug.to_string(), title: title.to_string(), page_type: ty.to_string(), external }
}

fn edge(rel: &str) -> LabeledEdge {
    LabeledEdge { relation: rel.to_string() }
}

fn two_nodes() -> WikiGraph {
    let mut g = DiGraph::new();
    let a = g.add_node(node("a", "A", "concept", false));
    let b = g.add_node(node("b", "B", "paper", false));
    g.add_edge(a, b, edge("links-to"));
    g
}

fn doc(slug: &str, ty: &str, body_links: &[&str], fields: &[(&str, &[&str])]) -> DocInfo {
    DocInfo {
        slug: slug.to_string(),
        title: slug.to_uppercase(),
        page_type: ty.to_string(),
        body_links: body_links.iter().map(|s| s.to_string()).collect(),
        edge_fields: fields
            .iter()
            .map(|(f, ts)| (f.to_string(), ts.iter().map(|s| s.to_string()).collect()))
            .collect(),
    }
}

#[test]
fn dot_rendering_exact() {
    let out = render_dot(&two_nodes());
    assert_eq!(
        out,
        "digraph wiki {\n  \"a\" [label=\"A\" type=\"concept\"];\n  \"b\" [label=\"B\" type=\"paper\"];\n  \"a\" -> \"b\" [label=\"links-to\"];\n}\n"
    );
}

#[test]
fn dot_uses_title_for_external_nodes() {
    let mut g = DiGraph::new();
    let a = g.add_node(node("a", "A", "concept", false));
    let x = g.add_node(node("s", "wiki://w/s", "external", true));
    g.add_edge(a, x, edge("links-to"));
    let out = render_dot(&g);
    assert!(out.contains("  \"wiki://w/s\" [label=\"wiki://w/s\" type=\"external\" style=\"dashed\"];\n"));
    assert!(out.contains("  \"a\" -> \"wiki://w/s\" [label=\"links-to\"];\n"));
}

#[test]
fn mermaid_rendering_exact() {
    let out = render_mermaid(&two_nodes());
    assert_eq!(
        out,
        "graph LR\n  A[\"A\"]:::concept\n  B[\"B\"]:::paper\n\n  A -->|links-to| B\n\n  classDef concept fill:#cce5ff\n  classDef paper fill:#d4edda\n"
    );
}

#[test]
fn mermaid_ids_replace_separators() {
    assert_eq!(mermaid_id("wiki://a/b-c:d"), "wiki__a_b_c_d");
    assert_eq!(mermaid_id("plain"), "plain");
}

#[test]
fn mermaid_external_class() {
    let mut g = DiGraph::new();
    g.add_node(node("s", "wiki://w/s", "external", true));
    let out = render_mermaid(&g);
    assert!(out.contains("  wiki__w_s[\"wiki://w/s\"]:::external\n"));
    assert!(out.ends_with("  classDef external fill:#eee,stroke:#999,stroke-dasharray:5 5\n"));
}

#[test]
fn graph_page_wrapping_exact() {
    let out = wrap_graph_md_at("X\n", "mermaid", &GraphFilter::new(), "2024-01-01T00:00:00+00:00");
    assert_eq!(
        out,
        "---\ntitle: \"Wiki Graph\"\ngenerated: \"2024-01-01T00:00:00+00:00\"\nformat: mermaid\nroot: \ndepth: 0\ntypes: []\nstatus: generated\n---\n\n```mermaid\nX\n```\n"
    );
    let mut f = GraphFilter::new();
    f.root = Some("concepts/moe".to_string());
    f.depth = Some(2);
    f.types = vec!["concept".to_string(), "paper".to_string()];
    let out = wrap_graph_md_at("", "dot", &f, "now");
    assert!(out.contains("root: concepts/moe\ndepth: 2\ntypes: [concept, paper]\n"));
}

#[test]
fn metrics_count_orphans() {
    let mut g = two_nodes();
    g.add_node(node("c", "C", "concept", false));
    let m = compute_metrics(&g);
    assert_eq!((m.nodes, m.edges, m.orphans), (3, 1, 1));
}

#[test]
fn subgraph_keeps_nodes_within_depth() {
    let mut g = DiGraph::new();
    let ids: Vec<NodeIndex> = ["a", "b", "c", "d"].iter().map(|s| g.add_node(node(s, s, "page", false))).collect();
    g.add_edge(ids[0], ids[1], edge("links-to"));
    g.add_edge(ids[2], ids[1], edge("links-to"));
    g.add_edge(ids[2], ids[3], edge("links-to"));
    let sub = subgraph(&g, "b", 1);
    let slugs: Vec<&str> = sub.node_indices().map(|i| sub[i].slug.as_str()).collect();
    assert_eq!(slugs, vec!["a", "b", "c"]);
    assert_eq!(sub.edge_count(), 2);
    let none = subgraph(&g, "zz", 3);
    assert_eq!(none.node_count(), 0);
}

#[test]
fn build_graph_links_fields_body_and_external() {
    let docs = vec![
        doc("a", "concept", &["b", "missing", "wiki://other/x", "a"], &[("sources", &["b"])]),
        doc("b", "paper", &[], &[]),
    ];
    let g = build_graph(&docs, &GraphFilter::new());
    assert_eq!(g.node_count(), 3);
    let x = &g[NodeIndex::new(2)];
    assert!(x.external);
    assert_eq!(x.slug, "x");
    assert_eq!(x.title, "wiki://other/x");
    assert_eq!(x.page_type, "external");
    let rels: Vec<(usize, usize, String)> = g
        .edge_indices()
        .map(|e| {
            let (s, t) = g.edge_endpoints(e).unwrap();
            (s.index(), t.index(), g[e].relation.clone())
        })
        .collect();
    // Field links first, then body links, each in order.
    assert_eq!(
        rels,
        vec![(0, 1, "sources".to_string()), (0, 1, "links-to".to_string()), (0, 2, "links-to".to_string())]
    );
}

#[test]
fn build_graph_type_filter() {
    let docs = vec![doc("a", "concept", &["b"], &[]), doc("b", "paper", &[], &[])];
    let mut f = GraphFilter::new();
    f.types = vec!["concept".to_string()];
    let g = build_graph(&docs, &f);
    assert_eq!(g.node_count(), 1);
    assert_eq!(g.edge_count(), 0);
}

#[test]
fn llms_account_exact() {
    let out = render_llms(&two_nodes());
    assert_eq!(
        out,
        "The wiki graph has 2 nodes and 1 edges across 2 type groups.\n\n**concept** (1 nodes): A\n**paper** (1 nodes): B\n\nKey hubs: A (1 edges), B (1 edges)\n\n**Edges by relation:**\n- `links-to` (1)\n"
    );
}

#[test]
fn llms_isolated_external_and_ordering() {
    let mut g = DiGraph::new();
    let a = g.add_node(node("a", "Alpha", "concept", false));
    let b = g.add_node(node("b", "Beta", "concept", false));
    let c = g.add_node(node("c", "Gamma", "paper", false));
    let x = g.add_node(node("x", "wiki://z/x", "external", true));
    g.add_node(node("d", "Delta", "paper", false));
    g.add_edge(a, b, edge("links-to"));
    g.add_edge(a, c, edge("sources"));
    g.add_edge(c, x, edge("sources"));
    let out = render_llms(&g);
    assert_eq!(
        out,
        "The wiki graph has 5 nodes and 3 edges across 2 type groups.\n\n\
**concept** (2 nodes): Alpha, Beta\n\
**paper** (2 nodes): Delta, Gamma\n\
\nKey hubs: Alpha (2 edges), Gamma (2 edges), Beta (1 edges), wiki://z/x (1 edges)\n\
\n**Edges by relation:**\n- `sources` (2)\n- `links-to` (1)\n\
\n**Isolated nodes (1):** Delta\n\
\n**External references (1):** wiki://z/x\n"
    );
}

#[test]
fn llms_samples_at_most_eight_titles() {
    let mut g = DiGraph::new();
    for i in 0..10 {
        g.add_node(node(&format!("p{i}"), &format!("T{i}"), "note", false));
    }
    let out = render_llms(&g);
    assert!(out.contains("**note** (10 nodes): T0, T1, T2, T3, T4, T5, T6, T7, ...\n"), "{out}");
}

#[test]
fn merge_resolves_cross_wiki_links() {
    let mut g1 = DiGraph::new();
    let a = g1.add_node(node("a", "A", "concept", false));
    let x = g1.add_node(node("b", "wiki://w2/b", "external", true));
    g1.add_edge(a, x, edge("links-to"));
    let mut g2 = DiGraph::new();
    g2.add_node(node("b", "B", "paper", false));

    let merged = merge_graphs(&vec![("w1".to_string(), g1.clone()), ("w2".to_string(), g2)]);
    assert_eq!(merged.node_count(), 2);
    assert_eq!(merged[NodeIndex::new(0)].slug, "w1/a");
    assert_eq!(merged[NodeIndex::new(1)].slug, "w2/b");
    assert_eq!(merged.edge_count(), 1);
    let e = merged.edge_indices().next().unwrap();
    assert_eq!(merged.edge_endpoints(e), Some((NodeIndex::new(0), NodeIndex::new(1))));

    let alone = merge_graphs(&vec![("w1".to_string(), g1)]);
    assert_eq!(alone.node_count(), 2);
    let p = &alone[NodeIndex::new(1)];
    assert!(p.external);
    assert_eq!(p.slug, "w2/b");
    assert_eq!(p.title, "wiki://w2/b");
    assert_eq!(p.page_type, "external");
}

#[test]
fn cross_wiki_graph_from_pages() {
    let wikis = vec![
        ("w1".to_string(), vec![doc("a", "concept", &["wiki://w2/b"], &[])]),
        ("w2".to_string(), vec![doc("b", "paper", &[], &[])]),
    ];
    let g = build_graph_cross_wiki(&wikis, &GraphFilter::new());
    let slugs: Vec<&str> = g.node_indices().map(|i| g[i].slug.as_str()).collect();
    assert_eq!(slugs, vec!["w1/a", "w2/b"]);
    assert_eq!(g.edge_count(), 1);
}

#[test]
fn search_results_for_models() {
    let empty = SearchResult {
        results: vec![],
        facets: FacetCounts { page_type: vec![], status: vec![], tags: vec![] },
    };
    assert_eq!(render_search_llms(&empty), "No results found.\n");
    let r = |t: &str, s: Option<&str>| PageRef {
        slug: t.to_lowercase(),
        uri: format!("wiki://w/{}", t.to_lowercase()),
        title: t.to_string(),
        score_bits: 1.5f32.to_bits(),
        confidence_bits: 0.5f32.to_bits(),
        excerpt: None,
        summary: s.map(String::from),
    };
    let res = SearchResult {
        results: vec![r("One", Some("first")), r("Two", Some("")), r("Three", None)],
        facets: FacetCounts { page_type: vec![], status: vec![], tags: vec![] },
    };
    assert_eq!(
        render_search_llms(&res),
        "- [One](wiki://w/one): first\n- [Two](wiki://w/two)\n- [Three](wiki://w/three)\n"
    );
}

#[test]
fn graph_filter_from_params() {
    let params = GraphParams {
        format: None,
        root: Some("concepts/moe".to_string()),
        depth: None,
        type_filter: Some(" concept, paper ,note".to_string()),
        relation: Some("fed-by".to_string()),
        output: None,
        cross_wiki: false,
    };
    let f = graph_filter_of(&params, 3);
    assert_eq!(f.root.as_deref(), Some("concepts/moe"));
    assert_eq!(f.depth, Some(3));
    assert_eq!(f.types, vec!["concept".to_string(), "paper".to_string(), "note".to_string()]);
    assert_eq!(f.relation.as_deref(), Some("fed-by"));
    let params = GraphParams { depth: Some(1), type_filter: None, root: None, relation: None, ..params };
    let f = graph_filter_of(&params, 3);
    assert_eq!(f.depth, Some(1));
    assert!(f.types.is_empty());
    assert!(f.root.is_none());
}

#[test]
fn render_graph_picks_the_format() {
    let g = two_nodes();
    assert_eq!(render_graph(&g, "dot"), render_dot(&g));
    assert_eq!(render_graph(&g, "llms"), render_llms(&g));
    assert_eq!(render_graph(&g, "mermaid"), render_mermaid(&g));
    assert_eq!(render_graph(&g, "svg"), render_mermaid(&g));
}

#[test]
fn graph_file_content_wraps_markdown_files() {
    let f = GraphFilter { root: None, depth: Some(2), types: vec![], relation: None };
    assert_eq!(graph_file_content("graph TD\n", "mermaid", &f, "out.mmd"), "graph TD\n");
    let md = graph_file_content("graph TD\n", "mermaid", &f, "out.md");
    assert!(md.starts_with("---\ntitle: \"Wiki Graph\"\ngenerated: \""));
    assert!(md.ends_with("depth: 2\ntypes: []\nstatus: generated\n---\n\n```mermaid\ngraph TD\n```\n"));
}

#[test]
fn community_stats_counts_and_small_groups() {
    let a: Vec<(String, usize)> = vec![
        ("a".to_string(), 0),
        ("b".to_string(), 0),
        ("c".to_string(), 0),
        ("e".to_string(), 1),
        ("d".to_string(), 2),
        ("f".to_string(), 2),
    ];
    let s = llm_wiki::graph::community_stats(&a);
    assert_eq!((s.count, s.largest, s.smallest), (3, 3, 1));
    assert_eq!(s.isolated, vec!["d", "e", "f"]);
    let e = llm_wiki::graph::community_stats(&Vec::new());
    assert_eq!((e.count, e.largest, e.smallest), (0, 0, 0));
    assert!(e.isolated.is_empty());
}
