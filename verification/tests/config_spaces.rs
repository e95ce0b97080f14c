use llm_wiki::config::{
    config_get, config_list_resolved, config_set, default_http_allowed_hosts, default_search_top_k,
    default_true, default_wiki_root, get_config_value, resolve, set_global_config_value, set_wiki_config_value,
    ConfigError, GlobalConfig, ParseFailure, WikiConfig, WikiEntry,
};
use llm_wiki::spaces::{check_wiki_root, WikiRootError};
use llm_wiki::spaces::{
    generate_wiki_toml, load_all, plan_create, readme_content, register, remove, resolve_name, resolve_uri, space_dirs,
    set_default_wiki, CreatePlan, SpaceError,
};
use llm_wiki::slug::WikiUri;

fn entry(name: &str, path: &str) -> WikiEntry {
    WikiEntry { name: name.to_string(), path: path.to_string(), description: None, remote: None }
}

#[test]
fn default_values() {
    assert_eq!(default_search_top_k(), 10);
    assert!(default_true());
    assert_eq!(default_wiki_root(), "wiki");
    assert_eq!(default_http_allowed_hosts(), vec!["localhost", "127.0.0.1", "::1"]);
    let g = GlobalConfig::with_home("/home/u");
    assert_eq!(g.logging.log_path, "/home/u/.llm-wiki/logs");
    assert_eq!(g.defaults.search_top_k, 10);
    assert!(g.wikis.is_empty());
}

#[test]
fn get_reads_resolved_values() {
    let g = GlobalConfig::with_home("/h");
    assert_eq!(config_get(&g, "defaults.search_top_k").as_deref(), Some("10"));
    assert_eq!(config_get(&g, "graph.format").as_deref(), Some("mermaid"));
    assert_eq!(config_get(&g, "no.such.key").as_deref(), Some("unknown key: no.such.key"));
    let r = resolve(&g, &WikiConfig::default());
    assert_eq!(get_config_value(&r, &g, "defaults.page_mode").as_deref(), Some("flat"));
}

#[test]
fn set_then_get_global() {
    let mut g = GlobalConfig::with_home("/h");
    set_global_config_value(&mut g, "defaults.search_top_k", "25").unwrap();
    assert_eq!(config_get(&g, "defaults.search_top_k").as_deref(), Some("25"));
    set_global_config_value(&mut g, "index.auto_rebuild", "true").unwrap();
    assert!(g.index.auto_rebuild);
}

#[test]
fn set_rejects_bad_values_and_keys() {
    let mut g = GlobalConfig::with_home("/h");
    assert!(matches!(
        set_global_config_value(&mut g, "defaults.search_top_k", "ten"),
        Err(ConfigError::InvalidValue(ParseFailure::InvalidDigit))
    ));
    assert!(matches!(
        set_global_config_value(&mut g, "defaults.search_top_k", ""),
        Err(ConfigError::InvalidValue(ParseFailure::Empty))
    ));
    assert!(matches!(
        set_global_config_value(&mut g, "defaults.search_top_k", "99999999999"),
        Err(ConfigError::InvalidValue(ParseFailure::PosOverflow))
    ));
    assert!(matches!(
        set_global_config_value(&mut g, "index.auto_rebuild", "yes"),
        Err(ConfigError::InvalidValue(ParseFailure::NotBool))
    ));
    assert!(matches!(set_global_config_value(&mut g, "bogus", "1"), Err(ConfigError::UnknownKey(_))));
    assert!(matches!(set_global_config_value(&mut g, "suggest.min_score", "0.3"), Err(ConfigError::FloatKey(_))));
    assert_eq!(g.defaults.search_top_k, 10);
}

#[test]
fn wiki_scope_overrides_and_global_only_keys() {
    let g = GlobalConfig::with_home("/h");
    let mut w = WikiConfig::default();
    set_wiki_config_value(&mut w, "defaults.search_top_k", "3").unwrap();
    let r = resolve(&g, &w);
    assert_eq!(r.defaults.search_top_k, 3);
    assert!(matches!(set_wiki_config_value(&mut w, "serve.http_port", "1"), Err(ConfigError::GlobalOnly(_))));
    let listed = config_list_resolved(&g);
    assert_eq!(listed.defaults.search_top_k, 10);
}

#[test]
fn config_set_messages() {
    let mut g = GlobalConfig::with_home("/h");
    let mut w = WikiConfig::default();
    let m = config_set(&mut g, &mut w, "defaults.search_top_k", "7", true, None).unwrap();
    assert_eq!(m, "Set defaults.search_top_k = 7 (global)");
    g.global.default_wiki = "main".to_string();
    let m = config_set(&mut g, &mut w, "defaults.list_page_size", "5", false, None).unwrap();
    assert_eq!(m, "Set defaults.list_page_size = 5 (wiki: main)");
    let m = config_set(&mut g, &mut w, "defaults.list_page_size", "6", false, Some("other")).unwrap();
    assert_eq!(m, "Set defaults.list_page_size = 6 (wiki: other)");
    assert!(config_set(&mut g, &mut w, "defaults.list_page_size", "x", false, None).is_err());
}

#[test]
fn register_resolve_remove_round_trip() {
    let mut g = GlobalConfig::with_home("/h");
    register(&mut g, entry("main", "/w/main"), false).unwrap();
    register(&mut g, entry("other", "/w/other"), false).unwrap();
    assert_eq!(resolve_name("other", &g).unwrap().path, "/w/other");
    match register(&mut g, entry("other", "/x"), false) {
        Err(e) => assert_eq!(e.message(), "wiki already registered as \"other\". Use --force to update."),
        Ok(_) => panic!("expected refusal"),
    }
    register(&mut g, entry("other", "/x"), true).unwrap();
    assert_eq!(resolve_name("other", &g).unwrap().path, "/x");
    assert_eq!(load_all(&g).len(), 2);

    set_default_wiki(&mut g, "main").unwrap();
    assert_eq!(g.global.default_wiki, "main");
    match remove(&mut g, "main") {
        Err(SpaceError::IsDefault(n)) => assert_eq!(n, "main"),
        _ => panic!("default wiki must not be removed"),
    }
    let gone = remove(&mut g, "other").unwrap();
    assert_eq!(gone.path, "/x");
    match resolve_name("other", &g) {
        Err(e) => assert_eq!(e.message(), "wiki \"other\" is not registered"),
        Ok(_) => panic!("removed wiki must not resolve"),
    }
    assert!(matches!(set_default_wiki(&mut g, "nope"), Err(SpaceError::NotRegistered(_))));
}

#[test]
fn create_plan_by_path() {
    let mut g = GlobalConfig::with_home("/h");
    register(&mut g, entry("main", "/w/main"), false).unwrap();
    assert!(matches!(plan_create(&g, "/w/main", "main", false), Ok(CreatePlan::AlreadyDone)));
    assert!(matches!(plan_create(&g, "/w/main", "renamed", false), Err(SpaceError::RegisteredAs(_))));
    assert!(matches!(plan_create(&g, "/w/main", "renamed", true), Ok(CreatePlan::Proceed)));
    assert!(matches!(plan_create(&g, "/w/new", "new", false), Ok(CreatePlan::Proceed)));
}

#[test]
fn new_space_files() {
    assert_eq!(generate_wiki_toml("r", Some("Research")), "name = \"r\"\ndescription = \"Research\"\n");
    assert_eq!(generate_wiki_toml("r", None), "name = \"r\"\n");
    let readme = readme_content("r", Some("Notes"));
    assert!(readme.starts_with("# r\n\nNotes\n\nManaged by [llm-wiki]"));
}

#[test]
fn set_then_get_shows_canonical_values() {
    let mut g = GlobalConfig::with_home("/h");
    set_global_config_value(&mut g, "defaults.search_top_k", "007").unwrap();
    assert_eq!(config_get(&g, "defaults.search_top_k").as_deref(), Some("7"));
    set_global_config_value(&mut g, "serve.http_allowed_hosts", " a , b ").unwrap();
    assert_eq!(config_get(&g, "serve.http_allowed_hosts").as_deref(), Some("a,b"));
    set_global_config_value(&mut g, "graph.format", "dot").unwrap();
    assert_eq!(config_get(&g, "graph.format").as_deref(), Some("dot"));
}

#[test]
fn wiki_set_then_get_for_that_wiki() {
    let g = GlobalConfig::with_home("/h");
    let mut w = WikiConfig::default();
    set_wiki_config_value(&mut w, "history.follow", "false").unwrap();
    let r = resolve(&g, &w);
    assert_eq!(get_config_value(&r, &g, "history.follow").as_deref(), Some("false"));
    assert_eq!(get_config_value(&r, &g, "history.default_limit").as_deref(), Some("10"));
}

#[test]
fn wiki_root_text_checks() {
    assert!(matches!(check_wiki_root(""), Err(WikiRootError::EmptyOrDot)));
    assert!(matches!(check_wiki_root("."), Err(WikiRootError::EmptyOrDot)));
    assert!(matches!(check_wiki_root("/abs"), Err(WikiRootError::Absolute)));
    assert!(matches!(check_wiki_root("a/../b"), Err(WikiRootError::ParentDir)));
    match check_wiki_root("schemas/wiki") {
        Err(e) => assert_eq!(e.message(), "wiki_root \"schemas/wiki\" uses reserved directory \"schemas\""),
        Ok(()) => panic!("reserved directory accepted"),
    }
    assert!(check_wiki_root("docs/wiki").is_ok());
    assert!(check_wiki_root("./inbox").is_ok());
    assert!(check_wiki_root("inboxes").is_ok());
}

#[test]
fn resolve_uri_checks_the_candidate_wiki() {
    let mut g = GlobalConfig::with_home("/h");
    register(&mut g, entry("research", "/w/research"), false).unwrap();
    register(&mut g, entry("notes", "/w/notes"), false).unwrap();
    set_default_wiki(&mut g, "notes").unwrap();
    let (e, s) = resolve_uri(&WikiUri::parse("wiki://research/concepts/moe").unwrap(), None, &g).unwrap();
    assert_eq!((e.name.as_str(), s.as_str()), ("research", "concepts/moe"));
    // `concepts` is no wiki: it is the first segment of the slug, in the default wiki.
    let (e, s) = resolve_uri(&WikiUri::parse("wiki://concepts/moe").unwrap(), None, &g).unwrap();
    assert_eq!((e.name.as_str(), s.as_str()), ("notes", "concepts/moe"));
    let (e, s) = resolve_uri(&WikiUri::parse("concepts/moe").unwrap(), Some("research"), &g).unwrap();
    assert_eq!((e.name.as_str(), s.as_str()), ("research", "concepts/moe"));
    let err = resolve_uri(&WikiUri::parse("concepts/moe").unwrap(), Some("ghost"), &g).unwrap_err();
    assert_eq!(err.message(), "wiki \"ghost\" is not registered");
}

#[test]
fn space_dirs_in_order() {
    assert_eq!(space_dirs(), vec!["inbox", "raw", "wiki", "schemas"]);
}

#[test]
fn with_home_gives_documented_defaults() {
    let g = GlobalConfig::with_home("/h");
    assert_eq!(g.defaults.list_page_size, 20);
    assert_eq!(g.index.tokenizer, "en_stem");
    assert_eq!(g.serve.http_port, 8080);
    assert_eq!(g.lint.stale_days, 90);
    assert_eq!(g.watch.debounce_ms, 500);
    assert_eq!(config_get(&g, "defaults.list_page_size").as_deref(), Some("20"));
    assert_eq!(config_get(&g, "index.tokenizer").as_deref(), Some("en_stem"));
    assert_eq!(WikiConfig::default().wiki_root, "wiki");
}

#[test]
fn registry_changes_keep_other_sections() {
    let mut g = GlobalConfig::with_home("/h");
    set_global_config_value(&mut g, "defaults.search_top_k", "3").unwrap();
    register(&mut g, entry("a", "/a"), false).unwrap();
    assert!(register(&mut g, entry("a", "/b"), false).is_err());
    set_default_wiki(&mut g, "a").unwrap();
    assert!(remove(&mut g, "a").is_err());
    assert_eq!(g.defaults.search_top_k, 3);
    assert_eq!(config_get(&g, "defaults.search_top_k").as_deref(), Some("3"));
    assert_eq!(config_get(&g, "graph.depth").as_deref(), Some("3"));
}

#[test]
fn set_keeps_other_keys_example() {
    let mut g = GlobalConfig::with_home("/h");
    let before = config_get(&g, "defaults.list_page_size");
    set_global_config_value(&mut g, "defaults.search_top_k", "5").unwrap();
    assert_eq!(config_get(&g, "defaults.list_page_size"), before);
    assert_eq!(config_get(&g, "defaults.search_top_k").as_deref(), Some("5"));
}
