use llm_wiki::frontmatter::{parse, parse_strict, read_page_text, split_block, title_from_body_or_filename, FrontmatterError};
use llm_wiki::links::{extract_body_wikilinks, extract_links, extract_parsed_links, extract_wikilinks, ParsedLink};
use llm_wiki::slug::{parent_sections, resolve_read_target, title_case, ReadTarget, Slug, SlugErrorKind, WikiUri};

#[test]
fn slug_trims_and_keeps_text() {
    let s = Slug::try_from("  concepts/moe  ").unwrap();
    assert_eq!(s.as_str(), "concepts/moe");
}

#[test]
fn slug_rejects_each_fault() {
    assert!(matches!(Slug::try_from("   ").unwrap_err().kind, SlugErrorKind::Empty));
    assert!(matches!(Slug::try_from("/abs").unwrap_err().kind, SlugErrorKind::LeadingSlash));
    assert!(matches!(Slug::try_from("a/../b").unwrap_err().kind, SlugErrorKind::PathTraversal));
    assert!(matches!(Slug::try_from("a/..\\b").unwrap_err().kind, SlugErrorKind::PathTraversal));
    assert!(matches!(Slug::try_from("notes/page.md").unwrap_err().kind, SlugErrorKind::Extension));
}

#[test]
fn slug_with_trailing_dot_is_accepted() {
    // An empty extension is no extension.
    assert_eq!(Slug::try_from("notes/v1.").unwrap().as_str(), "notes/v1.");
    // A dot in a directory does not count.
    assert_eq!(Slug::try_from("v1.2/intro").unwrap().as_str(), "v1.2/intro");
}

#[test]
fn slug_title_capitalises_each_word_of_last_segment() {
    let s = Slug::try_from("concepts/mixture-of-experts").unwrap();
    assert_eq!(s.title(), "Mixture of Experts");
    assert_eq!(title_case("of-mice-and-men"), "Of Mice and Men");
    assert_eq!(title_case("ümlaut-word"), "Ümlaut Word");
    assert_eq!(title_case("a--b"), "A  B");
}

#[test]
fn slug_files_flat_then_bundle() {
    let s = Slug::try_from("concepts/moe").unwrap();
    assert_eq!(s.flat_file(), "concepts/moe.md");
    assert_eq!(s.bundle_file(), "concepts/moe/index.md");
    assert_eq!(s.resolve(true, true).unwrap(), "concepts/moe.md");
    assert_eq!(s.resolve(false, true).unwrap(), "concepts/moe/index.md");
    assert!(matches!(s.resolve(false, false).unwrap_err().kind, SlugErrorKind::PageNotFound));
}

#[test]
fn wiki_uri_forms() {
    let u = WikiUri::parse("wiki://research/concepts/moe").unwrap();
    assert_eq!(u.wiki.as_deref(), Some("research"));
    assert_eq!(u.slug.as_str(), "concepts/moe");

    let u = WikiUri::parse("wiki://moe/").unwrap();
    assert_eq!(u.wiki, None);
    assert_eq!(u.slug.as_str(), "moe");

    let u = WikiUri::parse(" concepts/moe ").unwrap();
    assert_eq!(u.wiki, None);
    assert_eq!(u.slug.as_str(), "concepts/moe");

    assert!(matches!(WikiUri::parse("wiki://").unwrap_err().kind, SlugErrorKind::InvalidUri));
}

#[test]
fn read_target_page_asset_and_missing() {
    match resolve_read_target("concepts/moe", false, true, false).unwrap() {
        ReadTarget::Page(p) => assert_eq!(p, "concepts/moe/index.md"),
        _ => panic!("expected a page"),
    }
    match resolve_read_target("concepts/moe/diagram.png", false, false, true).unwrap() {
        ReadTarget::Asset(parent, file) => {
            assert_eq!(parent, "concepts/moe");
            assert_eq!(file, "diagram.png");
        }
        _ => panic!("expected an asset"),
    }
    assert!(matches!(
        resolve_read_target("concepts/moe/diagram.png", false, false, false).unwrap_err().kind,
        SlugErrorKind::AssetNotFound
    ));
    assert!(matches!(
        resolve_read_target("concepts/moe", false, false, false).unwrap_err().kind,
        SlugErrorKind::PageNotFound
    ));
}

#[test]
fn parsed_link_local_and_cross_wiki() {
    match ParsedLink::parse("wiki://other/concepts/x") {
        ParsedLink::CrossWiki { wiki, slug } => {
            assert_eq!(wiki, "other");
            assert_eq!(slug, "concepts/x");
        }
        _ => panic!("expected cross-wiki"),
    }
    match ParsedLink::parse("wiki://noslash") {
        ParsedLink::Local(s) => assert_eq!(s, "wiki://noslash"),
        _ => panic!("expected local"),
    }
    assert_eq!(ParsedLink::parse("concepts/y").as_raw(), "concepts/y");
    assert_eq!(ParsedLink::parse("wiki://w/s").as_raw(), "s");
}

#[test]
fn body_wikilinks_trimmed_deduplicated_in_order() {
    let links = extract_body_wikilinks("See [[ a ]] and [[b]], again [[a]] and [[ ]] then [[c");
    assert_eq!(links, vec!["a".to_string(), "b".to_string()]);
}

#[test]
fn wikilinks_skip_already_seen() {
    let mut seen = vec!["b".to_string()];
    let mut result = vec!["x".to_string()];
    extract_wikilinks("[[a]] [[b]] [[c]]", &mut seen, &mut result);
    assert_eq!(result, vec!["x".to_string(), "a".to_string(), "c".to_string()]);
    assert_eq!(seen, vec!["b".to_string(), "a".to_string(), "c".to_string()]);
}

#[test]
fn page_links_sources_concepts_then_body() {
    let page = parse("---\nsources:\n  - s1\n  - c1\nconcepts: [c1, c2]\n---\nBody [[c2]] [[wiki://w/z]] [[b1]]\n");
    let links = extract_links(&page);
    assert_eq!(
        links,
        vec!["s1", "c1", "c2", "wiki://w/z", "b1"].into_iter().map(String::from).collect::<Vec<_>>()
    );
    let parsed = extract_parsed_links(&page);
    assert_eq!(parsed.len(), 5);
    match &parsed[3] {
        ParsedLink::CrossWiki { wiki, slug } => {
            assert_eq!(wiki, "w");
            assert_eq!(slug, "z");
        }
        _ => panic!("expected cross-wiki"),
    }
    match &parsed[0] {
        ParsedLink::Local(s) => assert_eq!(s, "s1"),
        _ => panic!("expected local"),
    }
}

#[test]
fn frontmatter_block_split_and_fields() {
    let (yaml, body) = split_block("---\ntitle: T\n---\nbody\n").unwrap();
    assert_eq!(yaml, "title: T");
    assert_eq!(body, "body\n");
    assert!(split_block("no block").is_none());

    let page = parse("---\ntitle: Hello\ntype: concept\ntags: [a, b]\nstatus: active\n---\ntext");
    assert_eq!(page.title(), Some("Hello"));
    assert_eq!(page.page_type(), Some("concept"));
    assert_eq!(page.status(), Some("active"));
    assert_eq!(page.tags(), vec!["a".to_string(), "b".to_string()]);
    assert_eq!(page.body, "text");
    assert!(page.superseded_by().is_none());
}

#[test]
fn parse_without_block_keeps_whole_text_as_body() {
    let page = parse("# Just a heading\n\ntext");
    assert!(page.frontmatter.is_empty());
    assert_eq!(page.body, "# Just a heading\n\ntext");
}

#[test]
fn parse_frontmatter_no_block_returns_error() {
    let result = parse_strict("# No frontmatter here\n\nbody text");
    assert!(result.is_err());
    let msg = result.unwrap_err().message();
    assert!(msg.contains("no frontmatter"), "error: {msg}");
}

#[test]
fn parse_strict_errors() {
    assert!(matches!(parse_strict("---\ntitle: x\n").unwrap_err(), FrontmatterError::NoClose));
    match parse_strict("---\n: : bad: [\n---\nbody").unwrap_err() {
        FrontmatterError::InvalidYaml(e) => assert!(!e.is_empty()),
        _ => panic!("expected invalid YAML"),
    }
    assert!(parse_strict("---\ntitle: ok\n---\nbody").is_ok());
}

#[test]
fn title_from_heading_or_file_name() {
    assert_eq!(title_from_body_or_filename("intro\n# The Title\n## sub", "x.md"), "The Title");
    assert_eq!(title_from_body_or_filename("no heading", "mixture-of-experts.md"), "Mixture of Experts");
}

#[test]
fn read_page_adds_supersession_notice() {
    let content = "---\ntitle: Old\nsuperseded_by: concepts/new\n---\nOld body\n";
    let full = read_page_text(content, false);
    assert!(full.contains("concepts/new"), "{full}");
    assert!(full.contains("Old body"));
    let body_only = read_page_text("---\ntitle: T\n---\nJust body\n", true);
    assert_eq!(body_only, "Just body\n");
}

#[test]
fn parent_sections_of_nested_slug() {
    let s = Slug::try_from("a/b/c").unwrap();
    assert_eq!(parent_sections(&s), vec!["a".to_string(), "a/b".to_string()]);
    let top = Slug::try_from("top").unwrap();
    assert!(parent_sections(&top).is_empty());
}

#[test]
fn resolve_slug_neither_returns_none() {
    // Neither `concepts/ghost.md` nor `concepts/ghost/index.md` exists.
    let s = Slug::try_from("concepts/ghost").unwrap();
    assert!(s.resolve(false, false).ok().is_none());
}

#[test]
fn cross_wiki_links_round_trip() {
    match ParsedLink::parse("wiki://research/concepts/moe") {
        ParsedLink::CrossWiki { wiki, slug } => {
            assert_eq!(format!("wiki://{wiki}/{slug}"), "wiki://research/concepts/moe");
            assert!(!wiki.contains('/'));
        }
        _ => panic!("expected a cross-wiki link"),
    }
    let l = ParsedLink::parse("concepts/moe");
    assert_eq!(l.as_raw(), "concepts/moe");
}
