use llm_wiki::analysis::{Dimension, Status};
use llm_wiki::contradiction::ContradictionSummary;
use llm_wiki::structural_lint::{active_contradictions, lint_commit_message, lint_report_md, lint_report_md_at, LintReport};

fn c(slug: &str, status: Status, dimension: Dimension) -> ContradictionSummary {
    ContradictionSummary {
        slug: slug.to_string(),
        title: slug.to_uppercase(),
        status,
        dimension,
        source_a: "sources/a".to_string(),
        source_b: "sources/b".to_string(),
    }
}

#[test]
fn active_contradictions_keep_active_and_under_analysis() {
    let all = vec![
        c("x", Status::Active, Dimension::Time),
        c("y", Status::Resolved, Dimension::Time),
        c("z", Status::UnderAnalysis, Dimension::OpenDispute),
    ];
    let a = active_contradictions(&all);
    assert_eq!(a.iter().map(|c| c.slug.as_str()).collect::<Vec<_>>(), vec!["x", "z"]);
}

#[test]
fn lint_report_markdown_exact() {
    let r = LintReport {
        orphan_pages: vec!["concepts/lonely".to_string()],
        missing_stubs: vec![],
        active_contradictions: vec![c("contradictions/moe", Status::Active, Dimension::OpenDispute)],
    };
    let md = lint_report_md_at(&r, "2024-05-01");
    assert_eq!(
        md,
        "# Lint Report\n\n_Generated: 2024-05-01_\n\n## Orphans\n\n\
         Pages with no inbound links. Consider adding cross-references or removing them.\n\n\
         - `concepts/lonely`\n\n\
         ## Missing Stubs\n\n\
         Slugs referenced by other pages but not yet created on disk.\n\n\
         _None._\n\n\
         ## Active Contradictions\n\n\
         Contradiction pages awaiting enrichment (`active` or `under-analysis`).\n\n\
         | Slug | Title | Dimension | Source A | Source B |\n\
         |------|-------|-----------|----------|----------|\n\
         | `contradictions/moe` | CONTRADICTIONS/MOE | opendispute | `sources/a` | `sources/b` |\n\n\
         ---\n\n_1 orphan(s), 0 missing stub(s), 1 active contradiction(s)._\n"
    );
    assert!(lint_report_md(&r).starts_with("# Lint Report\n\n_Generated: "));
    assert_eq!(
        lint_commit_message(&r, "2024-05-01"),
        "lint: 2024-05-01 \u{2014} 1 orphans, 0 stubs, 1 active contradictions"
    );
}
