use llm_wiki::frontmatter::{FmValue, FrontMatter};
use llm_wiki::index_schema::{classify_field, index_fields, resolve_fields, FieldClass, PropertyShape, SchemaFields};
use llm_wiki::type_registry::{choose_type, finish_validation, validate_base_invariant, BaseSchemaError, ValidationError};

fn shape(t: Option<&str>, enumerated: bool, items_enumerated: bool) -> PropertyShape {
    PropertyShape { prop_type: t.map(|s| s.to_string()), enumerated, items_enumerated }
}

fn strings(v: &[&str]) -> Vec<String> {
    v.iter().map(|s| s.to_string()).collect()
}

#[test]
fn classify_strings_booleans_and_arrays() {
    assert_eq!(classify_field(&shape(Some("string"), false, false), false), FieldClass::Text);
    assert_eq!(classify_field(&shape(Some("string"), true, false), false), FieldClass::Keyword);
    assert_eq!(classify_field(&shape(Some("boolean"), false, false), false), FieldClass::Keyword);
    assert_eq!(classify_field(&shape(Some("array"), false, false), false), FieldClass::Text);
    assert_eq!(classify_field(&shape(Some("array"), false, true), false), FieldClass::Keyword);
    assert_eq!(classify_field(&shape(Some("number"), true, true), false), FieldClass::Text);
    assert_eq!(classify_field(&shape(None, true, true), false), FieldClass::Text);
}

#[test]
fn slug_fields_are_keywords() {
    assert_eq!(classify_field(&shape(Some("string"), false, false), true), FieldClass::Keyword);
    assert_eq!(classify_field(&shape(None, false, false), true), FieldClass::Keyword);
}

#[test]
fn index_fields_skip_aliases_fixed_and_repeated_fields() {
    let concept = SchemaFields {
        properties: vec![
            ("slug".to_string(), shape(Some("string"), false, false)),
            ("sources".to_string(), shape(Some("array"), false, false)),
            ("status".to_string(), shape(Some("string"), true, false)),
            ("summary".to_string(), shape(Some("string"), false, false)),
            ("tldr".to_string(), shape(Some("string"), false, false)),
        ],
        aliases: strings(&["tldr"]),
        edge_fields: strings(&["sources"]),
    };
    let paper = SchemaFields {
        properties: vec![
            ("status".to_string(), shape(Some("string"), false, false)),
            ("venue".to_string(), shape(Some("string"), false, false)),
            ("tldr".to_string(), shape(Some("string"), false, false)),
        ],
        aliases: Vec::new(),
        edge_fields: Vec::new(),
    };
    let plan = index_fields(&vec![concept, paper]);
    assert_eq!(
        plan,
        vec![
            ("sources".to_string(), FieldClass::Keyword),
            ("status".to_string(), FieldClass::Keyword),
            ("summary".to_string(), FieldClass::Text),
            ("venue".to_string(), FieldClass::Text),
            ("tldr".to_string(), FieldClass::Text),
        ]
    );
}

#[test]
fn choose_type_requires_a_title_or_name() {
    let known = strings(&["concept", "default"]);
    let e = choose_type(None, None, Some("concept"), &known, "loose").unwrap_err();
    assert!(matches!(e, ValidationError::TitleRequired));
    assert_eq!(e.message(), "title is required");
    assert!(choose_type(Some(""), Some(""), Some("concept"), &known, "loose").is_err());
    let c = choose_type(None, Some("skill"), Some("concept"), &known, "loose").unwrap();
    assert_eq!(c.resolved, "concept");
    assert!(c.warnings.is_empty());
}

#[test]
fn choose_type_defaults_missing_and_unknown_types() {
    let known = strings(&["concept", "default"]);
    let c = choose_type(Some("T"), None, None, &known, "strict").unwrap();
    assert_eq!(c.resolved, "default");
    assert_eq!(c.warnings, strings(&["missing field: type (defaulting to \"page\")"]));
    let c = choose_type(Some("T"), None, Some("recipe"), &known, "loose").unwrap();
    assert_eq!(c.resolved, "default");
    assert_eq!(c.warnings, strings(&["unknown type 'recipe'"]));
    let e = choose_type(Some("T"), None, Some("recipe"), &known, "strict").unwrap_err();
    assert_eq!(e.message(), "unknown type 'recipe'");
}

#[test]
fn finish_validation_by_strictness() {
    let w = strings(&["unknown type 'x'"]);
    assert_eq!(finish_validation(w.clone(), &Vec::new(), "strict").unwrap(), w);
    let errs = strings(&["\"title\" is a required property", "bad"]);
    let e = finish_validation(w.clone(), &errs, "strict").unwrap_err();
    assert_eq!(e.message(), "schema validation failed: \"title\" is a required property");
    let out = finish_validation(w, &errs, "loose").unwrap();
    assert_eq!(
        out,
        strings(&[
            "unknown type 'x'",
            "schema validation: \"title\" is a required property",
            "schema validation: bad",
        ])
    );
}

#[test]
fn base_schema_must_require_title_and_type() {
    assert!(validate_base_invariant(&strings(&["title", "type"]), "schemas/base.json").is_ok());
    let e = validate_base_invariant(&strings(&["type"]), "schemas/base.json").unwrap_err();
    assert!(matches!(e, BaseSchemaError::MissingTitle(_)));
    assert_eq!(
        e.message(),
        "base schema 'schemas/base.json' must require 'title' \u{2014} the default type is the fallback for all unknown types"
    );
    let e = validate_base_invariant(&strings(&["title"]), "schemas/base.json").unwrap_err();
    assert_eq!(
        e.message(),
        "base schema 'schemas/base.json' must require 'type' \u{2014} the default type is the fallback for all unknown types"
    );
}

fn fm(keys: &[&str]) -> FrontMatter {
    FrontMatter { entries: keys.iter().map(|k| (k.to_string(), FmValue::Str(format!("{k} value")))).collect() }
}

fn pairs(v: &[(&str, &str)]) -> Vec<(String, String)> {
    v.iter().map(|(a, b)| (a.to_string(), b.to_string())).collect()
}

#[test]
fn resolve_fields_maps_alias_sources_to_canonical_names() {
    let r = resolve_fields(&fm(&["status", "tldr", "title"]), &pairs(&[("tldr", "summary")]));
    assert_eq!(r, vec![("status".to_string(), 0), ("title".to_string(), 2), ("summary".to_string(), 1)]);
}

#[test]
fn resolve_fields_prefers_the_canonical_field() {
    let r = resolve_fields(&fm(&["summary", "tldr"]), &pairs(&[("tldr", "summary"), ("headline", "title")]));
    assert_eq!(r, vec![("summary".to_string(), 0)]);
    let r = resolve_fields(&fm(&["a"]), &Vec::new());
    assert_eq!(r, vec![("a".to_string(), 0)]);
}
