use llm_wiki::schema_template::{format_template_field, generate_template, SchemaOutline};

fn outline(required: &[&str], props: &[(&str, Option<&str>)]) -> SchemaOutline {
    SchemaOutline {
        required: required.iter().map(|s| s.to_string()).collect(),
        properties: props.iter().map(|(n, t)| (n.to_string(), t.map(String::from))).collect(),
    }
}

#[test]
fn template_field_lines() {
    assert_eq!(format_template_field("tags", Some("array"), "concept", "2024-01-01"), "tags:\n  - \"\"");
    assert_eq!(format_template_field("sources", Some("array"), "concept", "2024-01-01"), "sources: []");
    assert_eq!(format_template_field("type", Some("string"), "concept", "2024-01-01"), "type: concept");
    assert_eq!(format_template_field("status", None, "concept", "2024-01-01"), "status: active");
    assert_eq!(format_template_field("last_updated", Some("string"), "c", "2024-01-01"), "last_updated: \"2024-01-01\"");
    assert_eq!(format_template_field("title", Some("string"), "c", "d"), "title: \"\"");
    assert_eq!(format_template_field("draft", Some("boolean"), "c", "d"), "draft: false");
    assert_eq!(format_template_field("score", Some("number"), "c", "d"), "score: \"\"");
}

#[test]
fn template_required_then_common_fields() {
    let o = outline(
        &["title", "type", "missing"],
        &[
            ("title", Some("string")),
            ("type", Some("string")),
            ("tags", Some("array")),
            ("status", Some("string")),
            ("extra", Some("string")),
        ],
    );
    assert_eq!(
        generate_template(&o, "concept", "2024-02-03"),
        "---\ntitle: \"\"\ntype: concept\nstatus: active\ntags:\n  - \"\"\n---"
    );
}
