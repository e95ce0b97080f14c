use llm_wiki::graph::{LabeledEdge, PageNode, WikiGraph};
use llm_wiki::ops::{center_slugs, local_node_count, structural_plan, StructuralPlan};
use llm_wiki::index_state::{mount_action, status_of, IndexState, IndexStatus, MountAction, StalenessKind};
use llm_wiki::ops::{schema_remove_plan, SchemaRemoveError};
use llm_wiki::suggest::{tag_overlap, two_hop_candidates};
use petgraph::graph::DiGraph;

fn node(slug: &str) -> PageNode {
    PageNode { slug: slug.to_string(), title: slug.to_uppercase(), page_type: "concept".to_string(), external: false }
}

fn link() -> LabeledEdge {
    LabeledEdge { relation: "links-to".to_string() }
}

fn strings(v: &[&str]) -> Vec<String> {
    v.iter().map(|s| s.to_string()).collect()
}

/// a -> b -> c, d -> b, a -> e, f -> e.
fn sample() -> WikiGraph {
    let mut g = DiGraph::new();
    let a = g.add_node(node("a"));
    let b = g.add_node(node("b"));
    let c = g.add_node(node("c"));
    let d = g.add_node(node("d"));
    let e = g.add_node(node("e"));
    let f = g.add_node(node("f"));
    g.add_edge(a, b, link());
    g.add_edge(b, c, link());
    g.add_edge(d, b, link());
    g.add_edge(a, e, link());
    g.add_edge(f, e, link());
    g
}

#[test]
fn two_hops_follow_edges_both_ways() {
    let mut r = two_hop_candidates(&sample(), "a", &Vec::new());
    r.sort_by(|x, y| x.slug.cmp(&y.slug));
    let slugs: Vec<&str> = r.iter().map(|h| h.slug.as_str()).collect();
    assert_eq!(slugs, vec!["c", "d", "f"]);
    assert_eq!(r[0].via, "b");
    assert_eq!(r[1].via, "b");
    assert_eq!(r[2].via, "e");
    assert_eq!(r[0].title, "C");
    assert_eq!(r[0].page_type, "concept");
}

#[test]
fn two_hops_skip_existing_links_and_neighbours() {
    let r = two_hop_candidates(&sample(), "a", &strings(&["d", "f"]));
    let slugs: Vec<&str> = r.iter().map(|h| h.slug.as_str()).collect();
    assert_eq!(slugs, vec!["c"]);
    // b is a neighbour of a; from b, a itself is two hops away but is the root.
    let r = two_hop_candidates(&sample(), "b", &Vec::new());
    let mut slugs: Vec<&str> = r.iter().map(|h| h.slug.as_str()).collect();
    slugs.sort();
    assert_eq!(slugs, vec!["e"]);
}

#[test]
fn two_hops_of_unknown_page_is_empty() {
    assert!(two_hop_candidates(&sample(), "zzz", &Vec::new()).is_empty());
}

#[test]
fn two_hops_report_each_slug_once() {
    let mut g = DiGraph::new();
    let a = g.add_node(node("a"));
    let b = g.add_node(node("b"));
    let c = g.add_node(node("c"));
    let x = g.add_node(node("x"));
    g.add_edge(a, b, link());
    g.add_edge(a, c, link());
    g.add_edge(b, x, link());
    g.add_edge(c, x, link());
    let r = two_hop_candidates(&g, "a", &Vec::new());
    assert_eq!(r.len(), 1);
    assert_eq!(r[0].slug, "x");
    assert!(r[0].via == "b" || r[0].via == "c");
}

#[test]
fn tag_overlap_counts_shared_tags() {
    let o = tag_overlap(&strings(&["rust", "graphs"]), &strings(&["graphs", "math", "rust"])).unwrap();
    assert_eq!(o.shared, 2);
    assert_eq!(o.total, 3);
    assert_eq!(o.reason, "shares tags: graphs, rust");
}

#[test]
fn tag_overlap_none_when_nothing_shared() {
    assert!(tag_overlap(&strings(&["rust"]), &strings(&["math"])).is_none());
    assert!(tag_overlap(&strings(&["rust"]), &Vec::new()).is_none());
}

fn status(built: bool, stale: bool) -> IndexStatus {
    IndexStatus {
        wiki: "w".to_string(),
        path: "/tmp/w".to_string(),
        built: if built { Some("2024-01-01T00:00:00Z".to_string()) } else { None },
        pages: 3,
        sections: 0,
        stale,
        openable: true,
        queryable: true,
    }
}

#[test]
fn mount_builds_a_missing_index() {
    assert!(matches!(mount_action(None, true, None), MountAction::FirstBuild));
    assert!(matches!(mount_action(Some(&status(false, false)), false, None), MountAction::FirstBuild));
}

#[test]
fn mount_follows_staleness_when_auto_rebuild() {
    let s = status(true, true);
    assert!(matches!(mount_action(Some(&s), true, Some(StalenessKind::Current)), MountAction::Keep));
    assert!(matches!(mount_action(Some(&s), true, Some(StalenessKind::CommitChanged)), MountAction::Update));
    assert!(matches!(mount_action(Some(&s), true, Some(StalenessKind::FullRebuildNeeded)), MountAction::Rebuild));
    assert!(matches!(mount_action(Some(&s), true, None), MountAction::Rebuild));
    match mount_action(Some(&s), true, Some(StalenessKind::TypesChanged(strings(&["paper"])))) {
        MountAction::RebuildTypes(t) => assert_eq!(t, strings(&["paper"])),
        _ => panic!("expected a partial rebuild"),
    }
}

#[test]
fn mount_warns_when_stale_without_auto_rebuild() {
    assert!(matches!(mount_action(Some(&status(true, true)), false, None), MountAction::WarnStale));
    assert!(matches!(mount_action(Some(&status(true, false)), false, None), MountAction::Keep));
}

#[test]
fn center_slugs_keep_local_central_pages() {
    let mut g = DiGraph::new();
    let a = g.add_node(node("a"));
    let b = g.add_node(node("b"));
    let c = g.add_node(node("c"));
    g.add_edge(a, b, link());
    g.add_edge(b, a, link());
    g.add_edge(b, c, link());
    assert_eq!(center_slugs(&g), vec!["b".to_string()]);
    g[b].external = true;
    assert!(center_slugs(&g).is_empty());
    assert!(center_slugs(&DiGraph::new()).is_empty());
}

#[test]
fn structural_plan_and_local_count() {
    let mut g = sample();
    assert_eq!(local_node_count(&g), 6);
    g.add_node(PageNode {
        slug: "s".to_string(),
        title: "wiki://w/s".to_string(),
        page_type: "external".to_string(),
        external: true,
    });
    assert_eq!(local_node_count(&g), 6);
    assert!(matches!(structural_plan(false, 6, 100), StructuralPlan::Off));
    assert!(matches!(structural_plan(true, 6, 6), StructuralPlan::Computed));
    match structural_plan(true, 7, 6) {
        StructuralPlan::TooLarge(n) => {
            assert_eq!(n, "graph too large for diameter computation (7 nodes > max_nodes_for_diameter=6)")
        }
        _ => panic!("expected the too-large note"),
    }
}

fn state(commit: &str, hash: &str) -> IndexState {
    IndexState {
        schema_hash: hash.to_string(),
        built: "2024-05-01T10:00:00Z".to_string(),
        pages: 12,
        sections: 2,
        commit: commit.to_string(),
        types: Vec::new(),
    }
}

#[test]
fn status_of_reads_the_record() {
    let s = state("abc", "h1");
    let st = status_of("w", "/idx/w/search-index", Some(&s), "abc", "h1", true, true);
    assert_eq!(st.wiki, "w");
    assert_eq!(st.path, "/idx/w/search-index");
    assert_eq!(st.built.as_deref(), Some("2024-05-01T10:00:00Z"));
    assert_eq!((st.pages, st.sections), (12, 2));
    assert!(!st.stale && st.openable && st.queryable);
    assert!(status_of("w", "p", Some(&s), "def", "h1", true, true).stale);
    assert!(status_of("w", "p", Some(&s), "abc", "h2", true, true).stale);
    let none = status_of("w", "p", None, "abc", "h1", false, false);
    assert!(none.built.is_none() && none.stale && none.pages == 0 && none.sections == 0);
    assert!(!none.openable && !none.queryable);
}

#[test]
fn schema_remove_dry_run() {
    let e = schema_remove_plan("default", 3, true, true, true).unwrap_err();
    assert_eq!(e, SchemaRemoveError::DefaultType);
    assert_eq!(e.message(), "cannot remove the 'default' type");
    let r = schema_remove_plan("paper", 3, true, false, true).unwrap();
    assert_eq!((r.pages_removed, r.pages_deleted_from_disk), (3, 3));
    assert!(r.wiki_toml_updated && !r.schema_file_deleted && r.dry_run);
    let r = schema_remove_plan("paper", 3, false, true, false).unwrap();
    assert_eq!(r.pages_deleted_from_disk, 0);
    assert!(!r.wiki_toml_updated && r.schema_file_deleted);
}
