//! The page types a wiki knows, and the checks a page's frontmatter goes
//! through before and after its JSON-schema validation.
use vstd::prelude::*;

use crate::links::{contains_text, texts};
use crate::text::{chars_of, eq_str, push_str, string_of};

verus! {

/// Why a page's frontmatter is refused.
#[derive(Debug, Clone)]
pub enum ValidationError {
    /// Neither a `title` nor a `name` that is a non-empty string.
    TitleRequired,
    /// A type the wiki does not know, in strict mode.
    UnknownType(String),
    /// The first schema violation, in strict mode.
    SchemaFailed(String),
}

impl ValidationError {
    /// The human-readable message.
    pub fn message(&self) -> (m: String)
        ensures
            *self is TitleRequired ==> m@ == "title is required"@,
            self matches ValidationError::UnknownType(t) ==> m@ == "unknown type '"@ + t@ + "'"@,
            self matches ValidationError::SchemaFailed(e) ==> m@ == "schema validation failed: "@ + e@,
    {
        let mut out: Vec<char> = Vec::new();
        match self {
            ValidationError::TitleRequired => push_str(&mut out, "title is required"),
            ValidationError::UnknownType(t) => {
                push_str(&mut out, "unknown type '");
                push_str(&mut out, t.as_str());
                push_str(&mut out, "'");
            },
            ValidationError::SchemaFailed(e) => {
                push_str(&mut out, "schema validation failed: ");
                push_str(&mut out, e.as_str());
            },
        }
        string_of(&out)
    }
}

/// The registered type a page is validated against, and the warnings
/// gathered on the way.
#[derive(Debug, Clone)]
pub struct TypeChoice {
    pub resolved: String,
    pub warnings: Vec<String>,
}

/// A frontmatter string value that is present and not empty.
pub open spec fn non_empty(v: Option<&str>) -> bool {
    v matches Some(s) && s@.len() > 0
}

/// The warning for a page without a type.
pub open spec fn missing_type_warning() -> Seq<char> {
    "missing field: type (defaulting to \"page\")"@
}

/// The warning for a type the wiki does not know.
pub open spec fn unknown_type_warning(t: Seq<char>) -> Seq<char> {
    "unknown type '"@ + t + "'"@
}

/// Choose the type a page's frontmatter is validated against, from its
/// `title`, `name` and `type` string values (`None` where absent or not a
/// string), the types the wiki knows, and the strictness (`strict` or any
/// other value for loose). A page needs a non-empty `title` or `name`. A
/// page without a type is checked as `default`, with a warning; a known
/// type is used as it is; an unknown one is refused in strict mode and
/// otherwise checked as `default`, with a warning.
pub fn choose_type(
    title: Option<&str>,
    name: Option<&str>,
    page_type: Option<&str>,
    known: &Vec<String>,
    strictness: &str,
) -> (r: Result<TypeChoice, ValidationError>)
    ensures
        !non_empty(title) && !non_empty(name) ==> r matches Err(ValidationError::TitleRequired),
        non_empty(title) || non_empty(name) ==> ({
            let t = match page_type {
                Some(t) => t@,
                None => Seq::<char>::empty(),
            };
            if t.len() == 0 {
                r matches Ok(c) && c.resolved@ == "default"@ && texts(c.warnings@) == seq![missing_type_warning()]
            } else if texts(known@).contains(t) {
                r matches Ok(c) && c.resolved@ == t && c.warnings@.len() == 0
            } else if strictness@ == "strict"@ {
                r matches Err(ValidationError::UnknownType(u)) && u@ == t
            } else {
                r matches Ok(c) && c.resolved@ == "default"@ && texts(c.warnings@) == seq![unknown_type_warning(t)]
            }
        }),
{
    let has_title = match title {
        Some(s) => chars_of(s).len() > 0,
        None => false,
    };
    let has_name = match name {
        Some(s) => chars_of(s).len() > 0,
        None => false,
    };
    if !has_title && !has_name {
        return Err(ValidationError::TitleRequired);
    }
    let t = match page_type {
        Some(t) => chars_of(t),
        None => Vec::new(),
    };
    let mut warnings: Vec<String> = Vec::new();
    if t.len() == 0 {
        warnings.push(string_of(&chars_of("missing field: type (defaulting to \"page\")")));
        assert(texts(warnings@) == seq![missing_type_warning()]);
        return Ok(TypeChoice { resolved: string_of(&chars_of("default")), warnings });
    }
    if contains_text(known, &t) {
        return Ok(TypeChoice { resolved: string_of(&t), warnings });
    }
    if eq_str(&chars_of(strictness), "strict") {
        return Err(ValidationError::UnknownType(string_of(&t)));
    }
    let mut w: Vec<char> = Vec::new();
    push_str(&mut w, "unknown type '");
    let ghost start = w@;
    let mut i: usize = 0;
    while i < t.len()
        invariant
            i <= t@.len(),
            w@ == start + t@.subrange(0, i as int),
        decreases t.len() - i,
    {
        w.push(t[i]);
        assert(t@.subrange(0, i + 1) == t@.subrange(0, i as int).push(t@[i as int]));
        i = i + 1;
    }
    assert(t@.subrange(0, t@.len() as int) == t@);
    push_str(&mut w, "'");
    warnings.push(string_of(&w));
    assert(texts(warnings@) == seq![unknown_type_warning(t@)]);
    Ok(TypeChoice { resolved: string_of(&chars_of("default")), warnings })
}

/// The warning for one schema violation in loose mode.
pub open spec fn schema_warning(e: Seq<char>) -> Seq<char> {
    "schema validation: "@ + e
}

/// Finish a validation with the schema's violations (their messages, in
/// the validator's order): none leaves the warnings as they are; in strict
/// mode the first is the error; otherwise each becomes a warning, after
/// the others.
pub fn finish_validation(warnings: Vec<String>, errors: &Vec<String>, strictness: &str) -> (r: Result<
    Vec<String>,
    ValidationError,
>)
    ensures
        errors@.len() == 0 ==> r == Ok::<Vec<String>, ValidationError>(warnings),
        errors@.len() > 0 && strictness@ == "strict"@ ==> (r matches Err(ValidationError::SchemaFailed(e)) && e@
            == errors@[0]@),
        errors@.len() > 0 && strictness@ != "strict"@ ==> (r matches Ok(w) && texts(w@) == texts(warnings@)
            + texts(errors@).map_values(|e: Seq<char>| schema_warning(e))),
{
    if errors.len() == 0 {
        return Ok(warnings);
    }
    if eq_str(&chars_of(strictness), "strict") {
        return Err(ValidationError::SchemaFailed(errors[0].clone()));
    }
    let mut out = warnings;
    let ghost start = texts(out@);
    let mut i: usize = 0;
    while i < errors.len()
        invariant
            i <= errors@.len(),
            texts(out@) == start + texts(errors@.subrange(0, i as int)).map_values(|e: Seq<char>| schema_warning(e)),
        decreases errors.len() - i,
    {
        let mut m: Vec<char> = Vec::new();
        push_str(&mut m, "schema validation: ");
        push_str(&mut m, errors[i].as_str());
        let ghost before = texts(out@);
        out.push(string_of(&m));
        proof {
            let pre = texts(errors@.subrange(0, i as int)).map_values(|e: Seq<char>| schema_warning(e));
            let post = texts(errors@.subrange(0, i + 1)).map_values(|e: Seq<char>| schema_warning(e));
            assert(post == pre.push(schema_warning(errors@[i as int]@)));
            assert(texts(out@) == before.push(m@));
        }
        i = i + 1;
    }
    assert(errors@.subrange(0, errors@.len() as int) == errors@);
    Ok(out)
}

/// Why a custom `default` type is refused.
#[derive(Debug, Clone)]
pub enum BaseSchemaError {
    /// Its schema (at this path) does not require `title`.
    MissingTitle(String),
    /// Its schema (at this path) does not require `type`.
    MissingType(String),
}

impl BaseSchemaError {
    /// The human-readable message.
    pub fn message(&self) -> (m: String)
        ensures
            self matches BaseSchemaError::MissingTitle(p) ==> m@ == "base schema '"@ + p@
                + "' must require 'title' \u{2014} the default type is the fallback for all unknown types"@,
            self matches BaseSchemaError::MissingType(p) ==> m@ == "base schema '"@ + p@
                + "' must require 'type' \u{2014} the default type is the fallback for all unknown types"@,
    {
        let mut out: Vec<char> = Vec::new();
        push_str(&mut out, "base schema '");
        match self {
            BaseSchemaError::MissingTitle(p) => {
                push_str(&mut out, p.as_str());
                push_str(
                    &mut out,
                    "' must require 'title' \u{2014} the default type is the fallback for all unknown types",
                );
            },
            BaseSchemaError::MissingType(p) => {
                push_str(&mut out, p.as_str());
                push_str(
                    &mut out,
                    "' must require 'type' \u{2014} the default type is the fallback for all unknown types",
                );
            },
        }
        string_of(&out)
    }
}

/// A custom `default` type must require `title` and `type`: it is the
/// fallback for every unknown type. `required` is its schema's `required`
/// list; `schema_path` names the schema in the error.
pub fn validate_base_invariant(required: &Vec<String>, schema_path: &str) -> (r: Result<(), BaseSchemaError>)
    ensures
        !texts(required@).contains("title"@) ==> (r matches Err(BaseSchemaError::MissingTitle(p)) && p@
            == schema_path@),
        texts(required@).contains("title"@) && !texts(required@).contains("type"@) ==> (r matches Err(
            BaseSchemaError::MissingType(p),
        ) && p@ == schema_path@),
        texts(required@).contains("title"@) && texts(required@).contains("type"@) ==> r is Ok,
{
    proof {
        reveal_strlit("title");
        reveal_strlit("type");
    }
    if !contains_text(required, &chars_of("title")) {
        return Err(BaseSchemaError::MissingTitle(string_of(&chars_of(schema_path))));
    }
    if !contains_text(required, &chars_of("type")) {
        return Err(BaseSchemaError::MissingType(string_of(&chars_of(schema_path))));
    }
    Ok(())
}

} // verus!
