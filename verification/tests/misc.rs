use llm_wiki::acp::{clear_active_run, dispatch_workflow, make_tool_id, make_tool_id_at, open_session, AcpSession, SessionError};
use llm_wiki::contradiction::{yaml_block, YamlBlockError};
use llm_wiki::export::{render_llms_full, render_llms_txt, resolve_path, strip_frontmatter, ExportFormat, ExportPage};
use llm_wiki::index_state::{is_stale, staleness_kind, IndexState, StalenessKind};
use llm_wiki::ingest::normalize_line_endings;
use llm_wiki::ops::{logs_path, staleness_buckets};
use llm_wiki::watch::collect_md_changes;
use llm_wiki::watch::{
    classify_event, decide_action, is_schema_path, is_wiki_md, path_starts_with_exec, route_event, WatchAction,
};

fn session(id: &str, run: Option<&str>) -> AcpSession {
    AcpSession {
        id: id.to_string(),
        label: None,
        wiki: None,
        created_at: 0,
        active_run: run.map(String::from),
    }
}

fn state(commit: &str, hash: &str, types: &[(&str, &str)]) -> IndexState {
    IndexState {
        schema_hash: hash.to_string(),
        built: "2024-01-01".to_string(),
        pages: 1,
        sections: 0,
        commit: commit.to_string(),
        types: types.iter().map(|(a, b)| (a.to_string(), b.to_string())).collect(),
    }
}

fn export_page(slug: &str, ty: &str, summary: &str, body: Option<&str>) -> ExportPage {
    ExportPage {
        slug: slug.to_string(),
        uri: format!("wiki://w/{slug}"),
        title: slug.to_uppercase(),
        page_type: ty.to_string(),
        status: "active".to_string(),
        summary: summary.to_string(),
        body: body.map(String::from),
    }
}

#[test]
fn dispatch_named_and_default_workflows() {
    assert_eq!(
        dispatch_workflow("llm-wiki:ingest   the file.md"),
        ("ingest".to_string(), "the file.md".to_string())
    );
    assert_eq!(dispatch_workflow("llm-wiki:  lint"), ("lint".to_string(), String::new()));
    assert_eq!(
        dispatch_workflow("what is moe?"),
        ("research".to_string(), "what is moe?".to_string())
    );
}

#[test]
fn clear_run_of_one_session_only() {
    let mut s = vec![session("a", Some("r1")), session("b", Some("r2"))];
    clear_active_run(&mut s, "b");
    assert_eq!(s[0].active_run.as_deref(), Some("r1"));
    assert_eq!(s[1].active_run, None);
    clear_active_run(&mut s, "zz");
    assert_eq!(s[0].active_run.as_deref(), Some("r1"));
}

#[test]
fn tool_ids() {
    assert_eq!(make_tool_id_at("research", "search", 1700000000123), "research-search-1700000000123");
    assert_eq!(make_tool_id_at("w", "s", -5), "w-s--5");
    let id = make_tool_id("lint", "run");
    assert!(id.starts_with("lint-run-"));
    assert!(id["lint-run-".len()..].chars().all(|c| c.is_ascii_digit() || c == '-'));
}

#[test]
fn index_staleness() {
    let s = state("c1", "h1", &[("concept", "x"), ("paper", "y")]);
    assert!(!is_stale(&s, "c1", "h1"));
    assert!(is_stale(&s, "c2", "h1"));
    assert!(matches!(staleness_kind(Some(&s), "c1", "h1", &vec![]), StalenessKind::Current));
    assert!(matches!(staleness_kind(Some(&s), "c2", "h1", &vec![]), StalenessKind::CommitChanged));
    assert!(matches!(staleness_kind(None, "c1", "h1", &vec![]), StalenessKind::FullRebuildNeeded));
    let current = vec![
        ("paper".to_string(), "y2".to_string()),
        ("concept".to_string(), "x".to_string()),
        ("note".to_string(), "z".to_string()),
    ];
    match staleness_kind(Some(&s), "c1", "h2", &current) {
        StalenessKind::TypesChanged(v) => assert_eq!(v, vec!["note".to_string(), "paper".to_string()]),
        _ => panic!("expected changed types"),
    }
}

#[test]
fn yaml_block_forms() {
    assert_eq!(yaml_block("---\na: 1\n---\nbody").unwrap(), "a: 1");
    assert!(matches!(yaml_block("no block"), Err(YamlBlockError::NoBlock)));
    assert!(matches!(yaml_block("---\na: 1\n"), Err(YamlBlockError::NotClosed)));
    assert_eq!(YamlBlockError::NoBlock.message(), "no frontmatter block");
}

#[test]
fn export_paths_formats_and_frontmatter() {
    assert_eq!(resolve_path(None, "/w/wiki"), "/w/wiki/llms.txt");
    assert_eq!(resolve_path(Some("/tmp/out.txt"), "/w/wiki"), "/tmp/out.txt");
    assert_eq!(resolve_path(Some("out/x.txt"), "/w/wiki"), "/w/wiki/out/x.txt");
    assert!(matches!(ExportFormat::parse("llms-full"), ExportFormat::LlmsFull));
    assert!(matches!(ExportFormat::parse("json"), ExportFormat::Json));
    assert!(matches!(ExportFormat::parse("other"), ExportFormat::LlmsTxt));
    assert_eq!(ExportFormat::LlmsFull.as_str(), "llms-full");
    assert_eq!(strip_frontmatter("---\ntitle: x\n---\nbody"), "body");
    assert_eq!(strip_frontmatter("no fm"), "no fm");
    assert_eq!(strip_frontmatter("---\nunclosed"), "---\nunclosed");
}

#[test]
fn export_llms_txt_groups_by_type_runs() {
    let pages = vec![
        export_page("a", "concept", "first", None),
        export_page("b", "concept", "", None),
        export_page("c", "paper", "third", None),
    ];
    assert_eq!(
        render_llms_txt(&pages, "w"),
        "# w\n\n3 pages\n\n## concept (2)\n\n- [A](wiki://w/a): first\n- [B](wiki://w/b)\n## paper (1)\n\n- [C](wiki://w/c): third\n"
    );
}

#[test]
fn export_llms_full_bodies() {
    let pages = vec![export_page("a", "concept", "sum", Some("  body text \n")), export_page("b", "paper", "", None)];
    assert_eq!(
        render_llms_full(&pages, "w"),
        "# w\n\n2 pages\n\n---\n\n# [A](wiki://w/a)\n\n_sum_\n\nbody text\n\n---\n\n# [B](wiki://w/b)\n\n"
    );
}

#[test]
fn line_endings_normalized() {
    assert_eq!(normalize_line_endings("a\r\nb\rc\n\r\r\n"), "a\nb\nc\n\n\n");
}

#[test]
fn buckets_and_log_dir() {
    let b = staleness_buckets(&vec![Some(0), Some(6), Some(7), Some(30), Some(31), None]);
    assert_eq!((b.fresh, b.stale_7d, b.stale_30d), (3, 1, 2));
    assert_eq!(logs_path("/home/u/.llm-wiki/config.toml"), "/home/u/.llm-wiki/logs");
    assert_eq!(logs_path("config.toml"), "logs");
}

#[test]
fn watcher_path_rules() {
    assert!(is_wiki_md("/repo/wiki/concepts/moe.md"));
    assert!(!is_wiki_md("/repo/wiki/concepts/moe.txt"));
    assert!(!is_wiki_md("/repo/other/moe.md"));
    assert!(!is_wiki_md("/repo/wiki/.md"));
    assert!(is_schema_path("/repo/schemas/concept.json"));
    // A trailing separator does not change the file name (as `Path` reads it).
    assert!(is_schema_path("/repo/schemas/concept.json/"));
    assert!(path_starts_with_exec("/repo/wiki/a.md", "/repo/wiki"));
    assert!(path_starts_with_exec("/repo//wiki/./a.md", "/repo/wiki/"));
    assert!(!path_starts_with_exec("/repo/wikis/a.md", "/repo/wiki"));
    assert!(!path_starts_with_exec("repo/wiki/a.md", "/repo/wiki"));
}

#[test]
fn watcher_routes_and_classifies() {
    let dirs = vec![
        ("one".to_string(), "/r1/wiki".to_string(), "/r1".to_string()),
        ("two".to_string(), "/r2/wiki".to_string(), "/r2".to_string()),
    ];
    assert_eq!(route_event(&dirs, "/r2/wiki/a.md").as_deref(), Some("two"));
    assert_eq!(route_event(&dirs, "/r1/schemas/t.json").as_deref(), Some("one"));
    assert_eq!(route_event(&dirs, "/r1/schemas/sub/t.json").as_deref(), Some("one"));
    assert_eq!(route_event(&dirs, "/r3/wiki/a.md"), None);
    assert_eq!(route_event(&dirs, "/r1/wiki/a.txt"), None);

    let mut md = Vec::new();
    let mut schemas = Vec::new();
    classify_event("one", "/r1/wiki/a.md", &mut md, &mut schemas);
    classify_event("one", "/r1/wiki/a.md", &mut md, &mut schemas);
    assert_eq!(md.len(), 1);
    match decide_action(&md, &schemas) {
        Some(WatchAction::IngestPages(p)) => assert_eq!(p, vec!["/r1/wiki/a.md".to_string()]),
        _ => panic!("expected an ingest"),
    }
    classify_event("two", "/r2/schemas/t.json", &mut md, &mut schemas);
    assert_eq!(schemas, vec!["two".to_string()]);
    assert!(matches!(decide_action(&md, &schemas), Some(WatchAction::RebuildIndex)));
    assert!(decide_action(&Vec::new(), &Vec::new()).is_none());
}

#[test]
fn md_changes_under_wiki_prefix() {
    let changes = vec![
        ("wiki/a.md".to_string(), git2::Delta::Modified),
        ("wiki/img.png".to_string(), git2::Delta::Added),
        ("raw/b.md".to_string(), git2::Delta::Added),
        ("wiki/sub/c.md".to_string(), git2::Delta::Deleted),
        ("wikis/d.md".to_string(), git2::Delta::Added),
    ];
    let kept = collect_md_changes(&changes, "wiki");
    assert_eq!(
        kept,
        vec![("wiki/a.md".to_string(), git2::Delta::Modified), ("wiki/sub/c.md".to_string(), git2::Delta::Deleted)]
    );
}

#[test]
fn tail_lines_keeps_the_last_lines() {
    let lines: Vec<String> = ["a", "b", "c", "d"].iter().map(|s| s.to_string()).collect();
    assert_eq!(llm_wiki::ops::tail_lines(&lines, 2), "c\nd");
    assert_eq!(llm_wiki::ops::tail_lines(&lines, 10), "a\nb\nc\nd");
    assert_eq!(llm_wiki::ops::tail_lines(&lines, 0), "");
    assert_eq!(llm_wiki::ops::tail_lines(&Vec::new(), 3), "");
}

#[test]
fn commit_message_defaults() {
    let slugs: Vec<String> = vec!["concepts/a".to_string(), "concepts/b".to_string()];
    assert_eq!(llm_wiki::ops::commit_message(None, false, &slugs).unwrap(), "commit: concepts/a, concepts/b");
    assert_eq!(llm_wiki::ops::commit_message(None, true, &Vec::new()).unwrap(), "commit: all");
    assert_eq!(llm_wiki::ops::commit_message(Some("msg"), true, &slugs).unwrap(), "msg");
    let e = llm_wiki::ops::commit_message(None, false, &Vec::new()).unwrap_err();
    assert_eq!(e.message(), "specify slugs or --all");
}

#[test]
fn normalize_line_endings_laws_example() {
    let s = "a\r\nb\rc\n\r\r\n";
    let r = normalize_line_endings(s);
    assert!(!r.contains('\r'));
    assert_eq!(normalize_line_endings(&r), r);
    assert_eq!(
        r.matches('\n').count(),
        s.matches('\n').count() + s.matches('\r').count() - s.matches("\r\n").count()
    );
    assert_eq!(r.replace('\n', ""), s.replace(['\r', '\n'], ""));
}

#[test]
fn open_session_respects_the_limit() {
    let mut s = vec![session("a", None)];
    let id = open_session(&mut s, 2, 1700, 9, Some("research".to_string())).unwrap();
    assert_eq!(id, "session-1700");
    assert_eq!(s.len(), 2);
    assert_eq!(s[1].wiki.as_deref(), Some("research"));
    assert_eq!(s[1].created_at, 9);
    let e = open_session(&mut s, 2, 1800, 9, None).unwrap_err();
    assert_eq!(e, SessionError::LimitReached(2));
    assert_eq!(e.message(), "Session limit reached (max: 2)");
    assert_eq!(s.len(), 2);
    let id = open_session(&mut s, 3, 1700, 10, None).unwrap();
    assert_eq!(id, "session-1700");
    assert_eq!(s.len(), 2);
    assert_eq!(s[1].created_at, 10);
}
