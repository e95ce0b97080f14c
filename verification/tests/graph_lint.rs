use llm_wiki::graph::{build_undirected, LabeledEdge, PageNode, WikiGraph};
use llm_wiki::lint::{
    active_rules, finish_lint, needs_graph, rule_articulation_point, rule_bridge, rule_broken_link,
    rule_missing_fields, rule_orphan, rule_periphery, rule_stale, rule_unknown_type, run_lint, slug_path,
    IndexedPage, LintContext, Severity,
};
use petgraph::graph::{DiGraph, NodeIndex};

fn make_graph(slugs: &[&str], edges: &[(&str, &str)]) -> WikiGraph {
    let mut g = DiGraph::new();
    let indices: std::collections::HashMap<&str, NodeIndex> = slugs
        .iter()
        .map(|&s| {
            (
                s,
                g.add_node(PageNode {
                    slug: s.to_string(),
                    title: s.to_string(),
                    page_type: "page".to_string(),
                    external: false,
                }),
            )
        })
        .collect();
    for &(a, b) in edges {
        g.add_edge(
            indices[a],
            indices[b],
            LabeledEdge {
                relation: "links-to".to_string(),
            },
        );
    }
    g
}

#[test]
fn build_undirected_excludes_external() {
    let mut g = DiGraph::new();
    let local = g.add_node(PageNode {
        slug: "a".into(),
        title: "a".into(),
        page_type: "page".into(),
        external: false,
    });
    let ext = g.add_node(PageNode {
        slug: "b".into(),
        title: "b".into(),
        page_type: "page".into(),
        external: true,
    });
    g.add_edge(
        local,
        ext,
        LabeledEdge {
            relation: "links-to".into(),
        },
    );
    let (ug, _) = build_undirected(&g);
    assert_eq!(ug.node_count(), 1);
    assert_eq!(ug.edge_count(), 0);
}

#[test]
fn articulation_point_detected() {
    // a -- b -- c  →  b is articulation point
    let g = make_graph(&["a", "b", "c"], &[("a", "b"), ("b", "c")]);
    let (ug, rev) = build_undirected(&g);
    let aps = petgraph_live::connect::articulation_points(&ug);
    let slugs: Vec<String> = aps
        .iter()
        .filter_map(|&ui| rev.get(ui.index()))
        .map(|&idx| g[NodeIndex::new(idx)].slug.clone())
        .collect();
    assert!(
        slugs.contains(&"b".to_string()),
        "b must be AP, got: {slugs:?}"
    );
}

#[test]
fn no_articulation_points_in_cycle() {
    let g = make_graph(&["a", "b", "c"], &[("a", "b"), ("b", "c"), ("c", "a")]);
    let (ug, _) = build_undirected(&g);
    assert!(petgraph_live::connect::articulation_points(&ug).is_empty());
}

#[test]
fn bridge_detected() {
    // a -- b -- c  →  both edges are bridges
    let g = make_graph(&["a", "b", "c"], &[("a", "b"), ("b", "c")]);
    let (ug, rev) = build_undirected(&g);
    let bridges = petgraph_live::connect::find_bridges(&ug);
    assert_eq!(bridges.len(), 2);
    let pairs: Vec<(String, String)> = bridges
        .iter()
        .filter_map(|&(ua, ub)| {
            Some((
                g[NodeIndex::new(*rev.get(ua.index())?)].slug.clone(),
                g[NodeIndex::new(*rev.get(ub.index())?)].slug.clone(),
            ))
        })
        .collect();
    let has_ab = pairs
        .iter()
        .any(|(a, b)| (a == "a" && b == "b") || (a == "b" && b == "a"));
    let has_bc = pairs
        .iter()
        .any(|(a, b)| (a == "b" && b == "c") || (a == "c" && b == "b"));
    assert!(has_ab && has_bc);
}

#[test]
fn rule_articulation_point_produces_finding_for_connector() {
    // a -- b -- c: b is the only articulation point
    let g = make_graph(&["a", "b", "c"], &[("a", "b"), ("b", "c")]);
    let findings = rule_articulation_point(&g, "/wiki");
    assert_eq!(findings.len(), 1);
    assert_eq!(findings[0].slug, "b");
    assert_eq!(findings[0].rule, "articulation-point");
    assert_eq!(findings[0].severity, Severity::Warning);
    assert!(findings[0].message.contains("disconnect"));
}

#[test]
fn rule_articulation_point_empty_for_cycle() {
    let g = make_graph(&["a", "b", "c"], &[("a", "b"), ("b", "c"), ("c", "a")]);
    assert!(rule_articulation_point(&g, "/wiki").is_empty());
}

#[test]
fn rule_bridge_produces_findings_with_correct_fields() {
    // a -- b -- c: both edges are bridges
    let g = make_graph(&["a", "b", "c"], &[("a", "b"), ("b", "c")]);
    let findings = rule_bridge(&g, "/wiki");
    assert_eq!(findings.len(), 2);
    for f in &findings {
        assert_eq!(f.rule, "bridge");
        assert_eq!(f.severity, Severity::Warning);
        assert!(
            f.message.contains("→"),
            "message must contain arrow, got: {}",
            f.message
        );
        assert!(f.message.contains("is a bridge"));
    }
    let slugs: Vec<&str> = findings.iter().map(|f| f.slug.as_str()).collect();
    assert!(slugs.contains(&"a") || slugs.contains(&"b"));
}

#[test]
fn rule_bridge_empty_for_cycle() {
    let g = make_graph(&["a", "b", "c"], &[("a", "b"), ("b", "c"), ("c", "a")]);
    assert!(rule_bridge(&g, "/wiki").is_empty());
}

#[test]
fn rule_periphery_produces_findings() {
    // a→b→c→a: directed cycle, all nodes have eccentricity 2 = diameter
    let g = make_graph(&["a", "b", "c"], &[("a", "b"), ("b", "c"), ("c", "a")]);
    let findings = rule_periphery(&g, "/wiki", 100);
    assert!(!findings.is_empty());
    for f in &findings {
        assert_eq!(f.rule, "periphery");
        assert_eq!(f.severity, Severity::Warning);
        assert!(f.message.contains("isolated"));
    }
}

#[test]
fn rule_periphery_skips_above_threshold() {
    // 3 nodes, threshold 2 → local_count(3) > max_nodes(2) → empty
    let g = make_graph(&["a", "b", "c"], &[("a", "b"), ("b", "c"), ("c", "a")]);
    assert!(rule_periphery(&g, "/wiki", 2).is_empty());
}

#[test]
fn finding_paths_are_flat_files_under_root() {
    let g = make_graph(&["a", "b", "c"], &[("a", "b"), ("b", "c")]);
    let findings = rule_articulation_point(&g, "/wiki");
    assert_eq!(findings[0].path, "/wiki/b.md");
    let findings = rule_articulation_point(&g, "/wiki/");
    assert_eq!(findings[0].path, "/wiki/b.md");
}

#[test]
fn bridge_message_names_both_ends() {
    let g = make_graph(&["a", "b"], &[("a", "b")]);
    let findings = rule_bridge(&g, "/wiki");
    assert_eq!(findings.len(), 1);
    let f = &findings[0];
    let other = if f.slug == "a" { "b" } else { "a" };
    assert_eq!(
        f.message,
        format!("link {} → {} is a bridge — its removal disconnects the graph", f.slug, other)
    );
}

fn indexed(slug: &str, ty: &str, links: &[(&str, &str)], present: &[&str], updated: &str, stale: bool) -> IndexedPage {
    IndexedPage {
        slug: slug.to_string(),
        page_type: ty.to_string(),
        links: links.iter().map(|(f, t)| (f.to_string(), t.to_string())).collect(),
        present: present.iter().map(|s| s.to_string()).collect(),
        last_updated: updated.to_string(),
        stale,
    }
}

fn sample_pages() -> Vec<IndexedPage> {
    vec![
        indexed("a", "concept", &[("body_links", "b"), ("sources", "nope"), ("body_links", "wiki://far/x")], &["title"], "2024-01-01", false),
        indexed("b", "paper", &[("concepts", "a")], &["title", "summary"], "", true),
        indexed("c", "mystery", &[], &["title"], "2023-05-05", true),
        indexed("guide/index", "concept", &[], &["title"], "", false),
        indexed("s", "section", &[], &[], "", false),
    ]
}

#[test]
fn orphan_rule_skips_sections_and_index_pages() {
    let f = rule_orphan(&sample_pages(), "/wiki");
    let slugs: Vec<&str> = f.iter().map(|x| x.slug.as_str()).collect();
    assert_eq!(slugs, vec!["c"]);
    assert_eq!(f[0].message, "no incoming links");
    assert_eq!(f[0].rule, "orphan");
    assert_eq!(f[0].path, "/wiki/c.md");
    assert!(matches!(f[0].severity, Severity::Warning));
}

#[test]
fn broken_link_rule_local_and_cross_wiki() {
    let pages = sample_pages();
    let f = rule_broken_link(&pages, "/wiki", true, &vec!["here".to_string()]);
    assert_eq!(f.len(), 2);
    assert_eq!(f[0].message, "broken link in sources: nope");
    assert!(matches!(f[0].severity, Severity::Error));
    assert_eq!(f[1].rule, "broken-cross-wiki-link");
    assert_eq!(f[1].message, "cross-wiki link to unmounted wiki: wiki://far/x");
    let f = rule_broken_link(&pages, "/wiki", true, &vec!["far".to_string()]);
    assert_eq!(f.len(), 1);
    let f = rule_broken_link(&pages, "/wiki", false, &vec![]);
    assert_eq!(f.len(), 1);
}

#[test]
fn missing_fields_and_unknown_types() {
    let pages = sample_pages();
    let types = vec![
        ("concept".to_string(), vec!["title".to_string(), "summary".to_string(), "extra".to_string()]),
        ("paper".to_string(), vec!["title".to_string(), "summary".to_string()]),
        ("section".to_string(), vec![]),
    ];
    let idx = vec!["title".to_string(), "summary".to_string()];
    let f = rule_missing_fields(&pages, "/wiki", &types, &idx);
    let got: Vec<(String, String)> = f.iter().map(|x| (x.slug.clone(), x.message.clone())).collect();
    assert_eq!(
        got,
        vec![
            ("a".to_string(), "required field missing: summary".to_string()),
            ("guide/index".to_string(), "required field missing: summary".to_string()),
        ]
    );
    let u = rule_unknown_type(&pages, "/wiki", &types);
    assert_eq!(u.len(), 1);
    assert_eq!(u[0].slug, "c");
    assert_eq!(u[0].message, "unknown type: mystery");
}

#[test]
fn stale_rule_notes_dates() {
    let f = rule_stale(&sample_pages(), "/wiki");
    let msgs: Vec<&str> = f.iter().map(|x| x.message.as_str()).collect();
    assert_eq!(msgs, vec!["stale page: no last_updated date", "stale page: last updated 2023-05-05"]);
}

#[test]
fn rule_selection() {
    assert_eq!(active_rules(Some("orphan, stale")), vec!["orphan".to_string(), "stale".to_string()]);
    assert_eq!(active_rules(None).len(), 9);
    assert_eq!(active_rules(Some("")).len(), 9);
    assert!(!needs_graph(&active_rules(Some("orphan"))));
    assert!(needs_graph(&active_rules(Some("bridge"))));
}

#[test]
fn run_lint_sorts_filters_and_counts() {
    let g = make_graph(&["a", "b"], &[("a", "b")]);
    let ctx = LintContext {
        wiki_root: "/wiki".to_string(),
        types: vec![("concept".to_string(), vec![]), ("paper".to_string(), vec![]), ("section".to_string(), vec![])],
        indexed: vec!["title".to_string()],
        mounted: vec![],
        max_nodes_for_diameter: 100,
    };
    let report = run_lint("main", &sample_pages(), &g, &ctx, Some("orphan,unknown-type,stale"), None);
    assert_eq!(report.wiki, "main");
    let got: Vec<(String, String)> = report.findings.iter().map(|f| (f.slug.clone(), f.rule.clone())).collect();
    assert_eq!(
        got,
        vec![
            ("b".to_string(), "stale".to_string()),
            ("c".to_string(), "orphan".to_string()),
            ("c".to_string(), "stale".to_string()),
            ("c".to_string(), "unknown-type".to_string()),
        ]
    );
    assert_eq!((report.total, report.errors, report.warnings), (4, 1, 3));
    let errors_only = run_lint("main", &sample_pages(), &g, &ctx, Some("orphan,unknown-type,stale"), Some("error"));
    assert_eq!(errors_only.total, 1);
    assert_eq!(errors_only.findings[0].rule, "unknown-type");
}

#[test]
fn finish_lint_on_nothing() {
    let r = finish_lint("w", vec![], None);
    assert_eq!((r.total, r.errors, r.warnings), (0, 0, 0));
}

#[test]
fn slug_paths_flat_or_bundle() {
    assert_eq!(slug_path("concepts/moe", "/wiki", false, true), "/wiki/concepts/moe/index.md");
    assert_eq!(slug_path("concepts/moe", "/wiki", true, true), "/wiki/concepts/moe.md");
    assert_eq!(slug_path("concepts/moe", "/wiki", false, false), "/wiki/concepts/moe.md");
}

#[test]
fn run_lint_runs_only_the_cross_wiki_rule_when_asked() {
    let g = make_graph(&["a", "b"], &[("a", "b")]);
    let ctx = LintContext {
        wiki_root: "/wiki".to_string(),
        types: vec![],
        indexed: vec![],
        mounted: vec!["here".to_string()],
        max_nodes_for_diameter: 100,
    };
    let report = run_lint("main", &sample_pages(), &g, &ctx, Some("broken-cross-wiki-link"), None);
    assert_eq!(report.total, 1);
    assert!(report.findings.iter().all(|f| f.rule == "broken-cross-wiki-link"));
    let report = run_lint("main", &sample_pages(), &g, &ctx, Some("broken-link"), None);
    assert!(report.findings.iter().all(|f| f.rule == "broken-link"));
    assert_eq!(report.total, 1);
}
