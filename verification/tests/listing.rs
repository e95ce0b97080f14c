use llm_wiki::search::{facet_counts, list_page, render_list_llms, FacetCounts, ListedDoc, PageList, PageSummary};

fn page(title: &str, ty: &str, status: &str, rank: u32, summary: Option<&str>) -> PageSummary {
    let slug = title.to_lowercase().replace(' ', "-");
    PageSummary {
        uri: format!("wiki://w/{slug}"),
        slug,
        title: title.to_string(),
        page_type: ty.to_string(),
        status: status.to_string(),
        tags: Vec::new(),
        confidence_rank: rank,
        summary: summary.map(String::from),
    }
}

fn no_facets() -> FacetCounts {
    FacetCounts { page_type: vec![], status: vec![], tags: vec![] }
}

#[test]
fn list_llms_groups_by_type_and_orders_by_confidence() {
    let list = PageList {
        pages: vec![
            page("Zeta", "paper", "active", 5, None),
            page("Beta", "concept", "active", 5, Some("b")),
            page("Alpha", "concept", "active", 5, None),
            page("Gamma", "concept", "archived", 9, Some("old")),
            page("Eta", "paper", "archived", 1, None),
            page("Note", "note", "active", 1, Some("")),
        ],
        total: 6,
        page: 1,
        page_size: 20,
        facets: no_facets(),
    };
    assert_eq!(
        render_list_llms(&list),
        "## concept (3)\n\n\
         - ~~[Gamma](wiki://w/gamma): old~~\n\
         - [Alpha](wiki://w/alpha)\n\
         - [Beta](wiki://w/beta): b\n\
         \n\
         ## paper (2)\n\n\
         - [Zeta](wiki://w/zeta)\n\
         - ~~[Eta](wiki://w/eta)~~\n\
         \n\
         ## note (1)\n\n\
         - [Note](wiki://w/note)\n\
         \n"
    );
}

#[test]
fn list_llms_equal_groups_by_name_and_pagination_line() {
    let list = PageList {
        pages: vec![page("B", "paper", "active", 1, None), page("A", "concept", "active", 1, None)],
        total: 45,
        page: 2,
        page_size: 20,
        facets: no_facets(),
    };
    assert_eq!(
        render_list_llms(&list),
        "## concept (1)\n\n- [A](wiki://w/a)\n\n## paper (1)\n\n- [B](wiki://w/b)\n\n_Page 2/3 \u{2014} 45 total pages_\n"
    );
}

#[test]
fn list_llms_empty_and_exact_page() {
    let list = PageList { pages: vec![], total: 20, page: 1, page_size: 20, facets: no_facets() };
    assert_eq!(render_list_llms(&list), "");
    let list = PageList { pages: vec![], total: 3, page: 1, page_size: 0, facets: no_facets() };
    assert_eq!(render_list_llms(&list), "_Page 1/2 \u{2014} 3 total pages_\n");
}

#[test]
fn facet_counts_count_non_empty_values() {
    let docs: Vec<Vec<String>> = vec![
        vec!["rust".to_string(), "graphs".to_string()],
        vec!["rust".to_string(), String::new()],
        vec!["math".to_string(), "rust".to_string()],
    ];
    let mut all = facet_counts(&docs, 0);
    all.sort();
    assert_eq!(all, vec![("graphs".to_string(), 1), ("math".to_string(), 1), ("rust".to_string(), 3)]);
    assert_eq!(facet_counts(&docs, 1), vec![("rust".to_string(), 3)]);
    let two = facet_counts(&docs, 2);
    assert_eq!(two.len(), 2);
    assert_eq!(two[0], ("rust".to_string(), 3));
    assert_eq!(two[1].1, 1);
    assert_eq!(facet_counts(&docs, 5).len(), 3);
    assert!(facet_counts(&Vec::new(), 3).is_empty());
}

fn doc(slug: &str, tags: &str, summary: Option<&str>) -> ListedDoc {
    ListedDoc {
        slug: slug.to_string(),
        title: slug.to_uppercase(),
        page_type: "concept".to_string(),
        status: "active".to_string(),
        tags: tags.to_string(),
        confidence_rank: 7,
        summary: summary.map(String::from),
    }
}

#[test]
fn list_page_windows_the_documents() {
    let docs: Vec<ListedDoc> = (0..5).map(|i| doc(&format!("p{i}"), " rust  graphs\tmath ", Some(""))).collect();
    let w = list_page(&docs, "research", 2, 2);
    assert_eq!((w.total, w.page, w.page_size), (5, 2, 2));
    let slugs: Vec<&str> = w.pages.iter().map(|p| p.slug.as_str()).collect();
    assert_eq!(slugs, vec!["p2", "p3"]);
    assert_eq!(w.pages[0].uri, "wiki://research/p2");
    assert_eq!(w.pages[0].tags, vec!["rust", "graphs", "math"]);
    assert_eq!(w.pages[0].summary, None);
    assert_eq!(w.pages[0].confidence_rank, 7);
    assert_eq!(list_page(&docs, "research", 3, 2).pages.len(), 1);
    assert!(list_page(&docs, "research", 4, 2).pages.is_empty());
    let one = list_page(&vec![doc("a", "", Some("s"))], "w", 1, 20);
    assert_eq!(one.pages[0].summary.as_deref(), Some("s"));
    assert!(one.pages[0].tags.is_empty());
}
