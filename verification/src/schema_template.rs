//! Frontmatter templates derived from a type's JSON schema.
use vstd::prelude::*;

use crate::links::texts;
use crate::text::{chars_of, join, push_joined, push_str, seq_eq, string_of};

verus! {

/// What a template reads of a JSON schema: the names listed under
/// `required` (those that are strings), and for each key of `properties`
/// the `type` of that property when it is a string.
#[derive(Debug, Clone)]
pub struct SchemaOutline {
    pub required: Vec<String>,
    pub properties: Vec<(String, Option<String>)>,
}

/// The declared type of the property named `name`, when the schema has one:
/// `Some(t)` for the first property with that name (`None` inside when it
/// declares no string type).
pub open spec fn property_of(props: Seq<(String, Option<String>)>, name: Seq<char>) -> Option<Option<Seq<char>>>
    decreases props.len(),
{
    if props.len() == 0 {
        None
    } else if props[0].0@ == name {
        Some(
            match props[0].1 {
                Some(t) => Some(t@),
                None => None,
            },
        )
    } else {
        property_of(props.drop_first(), name)
    }
}

/// The template line of one field: by its declared type (`string` when it
/// declares none).
pub open spec fn field_line(name: Seq<char>, ty: Option<Seq<char>>, type_label: Seq<char>, today: Seq<char>) -> Seq<char> {
    let t = match ty {
        Some(x) => x,
        None => "string"@,
    };
    if t == "array"@ {
        if name == "read_when"@ || name == "tags"@ {
            name + ":\n  - \"\""@
        } else {
            name + ": []"@
        }
    } else if t == "string"@ {
        if name == "type"@ {
            "type: "@ + type_label
        } else if name == "status"@ {
            "status: active"@
        } else if name == "last_updated"@ {
            "last_updated: \""@ + today + "\""@
        } else {
            name + ": \"\""@
        }
    } else if t == "boolean"@ {
        name + ": false"@
    } else {
        name + ": \"\""@
    }
}

/// The lines of the required fields that have a property, in `required`
/// order.
pub open spec fn required_lines(
    required: Seq<Seq<char>>,
    props: Seq<(String, Option<String>)>,
    type_label: Seq<char>,
    today: Seq<char>,
) -> Seq<Seq<char>>
    decreases required.len(),
{
    if required.len() == 0 {
        seq![]
    } else {
        let prev = required_lines(required.drop_last(), props, type_label, today);
        match property_of(props, required.last()) {
            Some(ty) => prev.push(field_line(required.last(), ty, type_label, today)),
            None => prev,
        }
    }
}

/// The optional fields a template always offers, in order.
pub open spec fn common_fields() -> Seq<Seq<char>> {
    seq!["summary"@, "status"@, "last_updated"@, "tags"@]
}

/// The lines of the common fields that are not required and have a
/// property.
pub open spec fn common_lines(
    fields: Seq<Seq<char>>,
    required: Seq<Seq<char>>,
    props: Seq<(String, Option<String>)>,
    type_label: Seq<char>,
    today: Seq<char>,
) -> Seq<Seq<char>>
    decreases fields.len(),
{
    if fields.len() == 0 {
        seq![]
    } else {
        let prev = common_lines(fields.drop_last(), required, props, type_label, today);
        let f = fields.last();
        if !required.contains(f) && property_of(props, f) is Some {
            prev.push(field_line(f, property_of(props, f)->Some_0, type_label, today))
        } else {
            prev
        }
    }
}

/// The template of a type: its required fields, then the common optional
/// ones, between `---` lines.
pub open spec fn template_spec(outline: SchemaOutline, type_label: Seq<char>, today: Seq<char>) -> Seq<char> {
    let req = texts(outline.required@);
    let props = outline.properties@;
    join(
        seq!["---"@] + required_lines(req, props, type_label, today) + common_lines(
            common_fields(),
            req,
            props,
            type_label,
            today,
        ) + seq!["---"@],
        "\n"@,
    )
}

/// The declared type of the property `name`.
fn find_property(props: &Vec<(String, Option<String>)>, name: &[char]) -> (r: Option<Option<String>>)
    ensures
        match property_of(props@, name@) {
            Some(Some(t)) => r matches Some(Some(x)) && x@ == t,
            Some(None) => r matches Some(None),
            None => r is None,
        },
{
    let mut i: usize = 0;
    assert(props@.skip(0) =~= props@);
    while i < props.len()
        invariant
            i <= props@.len(),
            property_of(props@, name@) == property_of(props@.skip(i as int), name@),
        decreases props.len() - i,
    {
        let k = chars_of(props[i].0.as_str());
        proof {
            assert(props@.skip(i as int)[0] == props@[i as int]);
            assert(props@.skip(i as int).drop_first() =~= props@.skip(i + 1));
        }
        if seq_eq(&k, name) {
            return Some(props[i].1.clone());
        }
        i = i + 1;
    }
    assert(props@.skip(i as int).len() == 0);
    None
}

/// The template line of one field, as `field_line` says.
pub fn format_template_field(name: &str, prop_type: Option<&str>, type_label: &str, today: &str) -> (r: String)
    ensures
        r@ == field_line(
            name@,
            match prop_type {
                Some(t) => Some(t@),
                None => None,
            },
            type_label@,
            today@,
        ),
{
    let n = chars_of(name);
    let t = match prop_type {
        Some(x) => chars_of(x),
        None => chars_of("string"),
    };
    let mut out: Vec<char> = Vec::new();
    if crate::text::eq_str(&t, "array") {
        if crate::text::eq_str(&n, "read_when") || crate::text::eq_str(&n, "tags") {
            push_str(&mut out, name);
            push_str(&mut out, ":\n  - \"\"");
        } else {
            push_str(&mut out, name);
            push_str(&mut out, ": []");
        }
    } else if crate::text::eq_str(&t, "string") {
        if crate::text::eq_str(&n, "type") {
            push_str(&mut out, "type: ");
            push_str(&mut out, type_label);
        } else if crate::text::eq_str(&n, "status") {
            push_str(&mut out, "status: active");
        } else if crate::text::eq_str(&n, "last_updated") {
            push_str(&mut out, "last_updated: \"");
            push_str(&mut out, today);
            push_str(&mut out, "\"");
        } else {
            push_str(&mut out, name);
            push_str(&mut out, ": \"\"");
        }
    } else if crate::text::eq_str(&t, "boolean") {
        push_str(&mut out, name);
        push_str(&mut out, ": false");
    } else {
        push_str(&mut out, name);
        push_str(&mut out, ": \"\"");
    }
    string_of(&out)
}

/// The frontmatter template of `type_label` from its schema outline, with
/// `today` as the `last_updated` date.
pub fn generate_template(outline: &SchemaOutline, type_label: &str, today: &str) -> (r: String)
    ensures
        r@ == template_spec(*outline, type_label@, today@),
{
    let ghost req = texts(outline.required@);
    let ghost props = outline.properties@;
    let mut lines: Vec<String> = Vec::new();
    lines.push(string_of(&chars_of("---")));
    let mut i: usize = 0;
    assert(req.take(0) =~= Seq::<Seq<char>>::empty());
    assert(texts(lines@) =~= seq!["---"@]);
    while i < outline.required.len()
        invariant
            i <= outline.required@.len(),
            req == texts(outline.required@),
            props == outline.properties@,
            texts(lines@) == seq!["---"@] + required_lines(req.take(i as int), props, type_label@, today@),
        decreases outline.required.len() - i,
    {
        let f = chars_of(outline.required[i].as_str());
        proof {
            assert(req.take(i + 1).drop_last() =~= req.take(i as int));
            assert(req.take(i + 1).last() == f@);
        }
        match find_property(&outline.properties, &f) {
            Some(ty) => {
                let line = format_template_field(outline.required[i].as_str(), match &ty { Some(t) => Some(t.as_str()), None => None }, type_label, today);
                let ghost before = texts(lines@);
                lines.push(line);
                proof {
                    assert(texts(lines@) =~= before.push(line@));
                    assert(match ty {
                        Some(t) => Some(t@),
                        None => None,
                    } == property_of(props, f@)->Some_0);
                }
            },
            None => {},
        }
        i = i + 1;
    }
    assert(req.take(outline.required.len() as int) =~= req);
    let common: [&str; 4] = ["summary", "status", "last_updated", "tags"];
    let ghost head = texts(lines@);
    let mut k: usize = 0;
    proof {
        reveal_strlit("summary");
        reveal_strlit("status");
        reveal_strlit("last_updated");
        reveal_strlit("tags");
        assert(common_fields().take(0) =~= Seq::<Seq<char>>::empty());
        assert(head + Seq::<Seq<char>>::empty() =~= head);
    }
    while k < 4
        invariant
            k <= 4,
            req == texts(outline.required@),
            props == outline.properties@,
            common@ == seq!["summary", "status", "last_updated", "tags"],
            common_fields() == seq!["summary"@, "status"@, "last_updated"@, "tags"@],
            texts(lines@) == head + common_lines(common_fields().take(k as int), req, props, type_label@, today@),
        decreases 4 - k,
    {
        let f = chars_of(common[k]);
        proof {
            assert(common_fields().take(k + 1).drop_last() =~= common_fields().take(k as int));
            assert(common_fields().take(k + 1).last() == f@);
        }
        let is_required = crate::links::contains_text(&outline.required, &f);
        if !is_required {
            match find_property(&outline.properties, &f) {
                Some(ty) => {
                    let line = format_template_field(common[k], match &ty { Some(t) => Some(t.as_str()), None => None }, type_label, today);
                    let ghost before = texts(lines@);
                    lines.push(line);
                    proof {
                        assert(texts(lines@) =~= before.push(line@));
                        assert(match ty {
                            Some(t) => Some(t@),
                            None => None,
                        } == property_of(props, f@)->Some_0);
                    }
                },
                None => {},
            }
        }
        k = k + 1;
    }
    assert(common_fields().take(4) =~= common_fields());
    let ghost body = texts(lines@);
    lines.push(string_of(&chars_of("---")));
    assert(texts(lines@) =~= body.push("---"@));
    let mut out: Vec<char> = Vec::new();
    push_joined(&mut out, &lines, "\n");
    proof {
        assert(seq!["---"@] + required_lines(req, props, type_label@, today@) + common_lines(
            common_fields(),
            req,
            props,
            type_label@,
            today@,
        ) + seq!["---"@] =~= body.push("---"@));
    }
    string_of(&out)
}

} // verus!
