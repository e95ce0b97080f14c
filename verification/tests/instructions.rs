use llm_wiki::instructions::{instructions, workflow_section};

fn extract_section(name: &str) -> String {
    workflow_section(name).unwrap_or_else(|| panic!("section '{}' not found in instructions.md", name))
}

#[test]
fn wiki_instruct_nonempty_contains_analysis_json() {
    let instructions = instructions();
    assert!(!instructions.is_empty(), "instructions.md must not be empty");
    assert!(
        instructions.contains("analysis.json"),
        "instructions.md must document analysis.json"
    );
}

#[test]
fn wiki_instruct_ingest_contains_ingest_specific_steps() {
    let section = extract_section("ingest");
    assert!(
        section.contains("wiki_ingest"),
        "ingest-workflow should mention wiki_ingest: {section}"
    );
    assert!(
        section.to_lowercase().contains("step") || section.contains("1."),
        "ingest-workflow should contain numbered steps: {section}"
    );
}

#[test]
fn mcp_wiki_instruct_research_contains_wiki_context() {
    let section = extract_section("research");
    assert!(
        section.contains("wiki_context"),
        "research-workflow should mention wiki_context: {section}"
    );
}

#[test]
fn wiki_instruct_help_contains_all_six_command_names() {
    let section = extract_section("help");
    for cmd in &["help", "init", "ingest", "research", "lint", "contradiction"] {
        assert!(
            section.contains(cmd),
            "help-workflow should mention command '{}': {}",
            cmd,
            section
        );
    }
}

#[test]
fn wiki_instruct_ingest_contains_analysis_json() {
    let section = extract_section("ingest");
    assert!(
        section.contains("analysis.json"),
        "ingest-workflow should mention analysis.json: {section}"
    );
}

#[test]
fn wiki_instruct_ingest_contains_two_step_workflow() {
    let section = extract_section("ingest");
    assert!(
        section.contains("wiki_context"),
        "ingest-workflow should mention wiki_context (step 1): {section}"
    );
    assert!(
        section.contains("wiki_ingest"),
        "ingest-workflow should mention wiki_ingest (step 2): {section}"
    );
}

#[test]
fn plugin_wiki_instruct_research_contains_wiki_context() {
    let section = extract_section("research");
    assert!(
        section.contains("wiki_context"),
        "research-workflow should mention wiki_context: {section}"
    );
}

#[test]
fn wiki_instruct_lint_contains_lint_md() {
    let section = extract_section("lint");
    assert!(
        section.contains("LINT.md"),
        "lint-workflow should mention LINT.md: {section}"
    );
}

#[test]
fn wiki_instruct_contradiction_contains_epistemic_value() {
    let section = extract_section("contradiction");
    assert!(
        section.contains("epistemic_value"),
        "contradiction-workflow should mention epistemic_value: {section}"
    );
}

#[test]
fn workflow_section_stops_at_next_section() {
    let section = extract_section("help");
    assert!(section.starts_with("## help-workflow"));
    assert!(!section.contains("## init-workflow"));
    assert!(workflow_section("missing").is_none());
}
