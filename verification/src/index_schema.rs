//! Which frontmatter fields the search index holds, and how: each schema
//! property becomes a full-text field or an exact-match keyword field.
use vstd::prelude::*;

use crate::frontmatter::{FmValue, FrontMatter};
use crate::links::{contains_text, texts};
use crate::text::{chars_of, eq_str};

verus! {

/// How a field is indexed.
#[derive(Debug, Clone, Copy, PartialEq, Eq, Structural)]
pub enum FieldClass {
    /// Tokenized full text.
    Text,
    /// One exact term.
    Keyword,
}

/// What the classification reads of a JSON-schema property: its `type`
/// when that is a string, whether it has an `enum` or `const`, and whether
/// its `items` has one.
#[derive(Debug, Clone)]
pub struct PropertyShape {
    pub prop_type: Option<String>,
    pub enumerated: bool,
    pub items_enumerated: bool,
}

/// What the index reads of one schema file: its properties in order, the
/// keys of its `x-index-aliases`, and the keys of its `x-graph-edges`.
#[derive(Debug, Clone)]
pub struct SchemaFields {
    pub properties: Vec<(String, PropertyShape)>,
    pub aliases: Vec<String>,
    pub edge_fields: Vec<String>,
}

/// Slug fields (graph edges) are keywords; so are enumerated strings,
/// booleans and arrays of enumerated items; everything else is text.
pub open spec fn classify_spec(prop: PropertyShape, is_slug_field: bool) -> FieldClass {
    if is_slug_field {
        FieldClass::Keyword
    } else {
        match prop.prop_type {
            Some(t) => if t@ == "string"@ {
                if prop.enumerated {
                    FieldClass::Keyword
                } else {
                    FieldClass::Text
                }
            } else if t@ == "boolean"@ {
                FieldClass::Keyword
            } else if t@ == "array"@ && prop.items_enumerated {
                FieldClass::Keyword
            } else {
                FieldClass::Text
            },
            None => FieldClass::Text,
        }
    }
}

/// Classify a schema property for the index.
pub fn classify_field(prop: &PropertyShape, is_slug_field: bool) -> (c: FieldClass)
    ensures
        c == classify_spec(*prop, is_slug_field),
{
    proof {
        reveal_strlit("string");
        reveal_strlit("boolean");
        reveal_strlit("array");
    }
    if is_slug_field {
        return FieldClass::Keyword;
    }
    match &prop.prop_type {
        Some(t) => {
            let t = chars_of(t.as_str());
            if eq_str(&t, "string") {
                if prop.enumerated {
                    FieldClass::Keyword
                } else {
                    FieldClass::Text
                }
            } else if eq_str(&t, "boolean") {
                FieldClass::Keyword
            } else if eq_str(&t, "array") && prop.items_enumerated {
                FieldClass::Keyword
            } else {
                FieldClass::Text
            }
        },
        None => FieldClass::Text,
    }
}

/// The fields every index has, whatever the schemas say.
pub open spec fn fixed_fields() -> Seq<Seq<char>> {
    seq!["slug"@, "uri"@, "body"@, "body_links"@]
}

/// The names of planned fields.
pub open spec fn field_names(plan: Seq<(String, FieldClass)>) -> Seq<Seq<char>> {
    plan.map_values(|f: (String, FieldClass)| f.0@)
}

/// The plan after the first `k` properties of `f`, starting from `plan`:
/// a property is added unless it is an alias, a fixed field, or already
/// planned (the first schema to declare a field decides its class).
pub open spec fn plan_props(plan: Seq<(String, FieldClass)>, f: SchemaFields, k: int) -> Seq<(String, FieldClass)>
    decreases k,
{
    if k <= 0 {
        plan
    } else {
        let p = plan_props(plan, f, k - 1);
        let (name, shape) = f.properties@[k - 1];
        if texts(f.aliases@).contains(name@) || fixed_fields().contains(name@) || field_names(p).contains(name@) {
            p
        } else {
            p.push((name, classify_spec(shape, texts(f.edge_fields@).contains(name@))))
        }
    }
}

/// The plan after the first `n` schema files.
pub open spec fn plan_files(files: Seq<SchemaFields>, n: int) -> Seq<(String, FieldClass)>
    decreases n,
{
    if n <= 0 {
        seq![]
    } else {
        plan_props(plan_files(files, n - 1), files[n - 1], files[n - 1].properties@.len() as int)
    }
}

/// Whether `name` is one of the fixed fields.
fn is_fixed_field(name: &[char]) -> (r: bool)
    ensures
        r == fixed_fields().contains(name@),
{
    proof {
        reveal_strlit("slug");
        reveal_strlit("uri");
        reveal_strlit("body");
        reveal_strlit("body_links");
    }
    let r = eq_str(name, "slug") || eq_str(name, "uri") || eq_str(name, "body") || eq_str(name, "body_links");
    proof {
        if name@ == "slug"@ {
            assert(fixed_fields()[0] == name@);
        } else if name@ == "uri"@ {
            assert(fixed_fields()[1] == name@);
        } else if name@ == "body"@ {
            assert(fixed_fields()[2] == name@);
        } else if name@ == "body_links"@ {
            assert(fixed_fields()[3] == name@);
        }
    }
    r
}

/// Whether `name` is already planned.
fn planned(plan: &Vec<(String, FieldClass)>, name: &[char]) -> (r: bool)
    ensures
        r == field_names(plan@).contains(name@),
{
    let mut i: usize = 0;
    while i < plan.len()
        invariant
            i <= plan@.len(),
            forall|j: int| 0 <= j < i ==> plan@[j].0@ != name@,
        decreases plan.len() - i,
    {
        if eq_text(plan[i].0.as_str(), name) {
            assert(field_names(plan@)[i as int] == name@);
            return true;
        }
        i = i + 1;
    }
    proof {
        if field_names(plan@).contains(name@) {
            let j = choose|j: int| 0 <= j < field_names(plan@).len() && field_names(plan@)[j] == name@;
            assert(plan@[j].0@ == name@);
        }
    }
    false
}

/// Whether the string `s` holds the text `t`.
fn eq_text(s: &str, t: &[char]) -> (r: bool)
    ensures
        r == (s@ == t@),
{
    crate::text::seq_eq(&chars_of(s), t)
}

/// The fields the index adds for these schema files, in the order it adds
/// them, each with its class: for each file in turn, each of its
/// properties that is not one of its aliases, not a fixed field, and not
/// added already (so the first file to declare a field decides its class);
/// a property listed among the file's graph edges is a keyword.
pub fn index_fields(files: &Vec<SchemaFields>) -> (plan: Vec<(String, FieldClass)>)
    ensures
        plan@ == plan_files(files@, files@.len() as int),
{
    let mut plan: Vec<(String, FieldClass)> = Vec::new();
    let mut i: usize = 0;
    while i < files.len()
        invariant
            i <= files@.len(),
            plan@ == plan_files(files@, i as int),
        decreases files.len() - i,
    {
        let f = &files[i];
        let ghost start = plan@;
        let mut k: usize = 0;
        while k < f.properties.len()
            invariant
                i < files@.len(),
                *f == files@[i as int],
                k <= f.properties@.len(),
                plan@ == plan_props(start, *f, k as int),
            decreases f.properties.len() - k,
        {
            let name = chars_of(f.properties[k].0.as_str());
            let skip = contains_text(&f.aliases, &name) || is_fixed_field(&name) || planned(&plan, &name);
            if !skip {
                let class = classify_field(&f.properties[k].1, contains_text(&f.edge_fields, &name));
                let ghost before = plan@;
                plan.push((f.properties[k].0.clone(), class));
                assert(plan@ == before.push((f.properties@[k as int].0, class)));
            }
            k = k + 1;
        }
        i = i + 1;
    }
    plan
}

// ── Fields of a page ──────────────────────────────────────────────────────────

/// The index of the first entry with this key.
pub open spec fn entry_index(entries: Seq<(String, FmValue)>, key: Seq<char>) -> Option<int>
    decreases entries.len(),
{
    if entries.len() == 0 {
        None
    } else {
        match entry_index(entries.drop_last(), key) {
            Some(i) => Some(i),
            None => if entries.last().0@ == key {
                Some(entries.len() - 1)
            } else {
                None
            },
        }
    }
}

/// The names of resolved fields.
pub open spec fn resolved_names(r: Seq<(String, usize)>) -> Seq<Seq<char>> {
    r.map_values(|f: (String, usize)| f.0@)
}

/// The sources of an alias map (source field, canonical field).
pub open spec fn alias_sources(aliases: Seq<(String, String)>) -> Seq<Seq<char>> {
    aliases.map_values(|a: (String, String)| a.0@)
}

/// The first pass over the first `k` entries: each field that is not an
/// alias source, under its own name.
pub open spec fn direct_fields(entries: Seq<(String, FmValue)>, aliases: Seq<(String, String)>, k: int) -> Seq<(String, usize)>
    decreases k,
{
    if k <= 0 {
        seq![]
    } else {
        let p = direct_fields(entries, aliases, k - 1);
        if alias_sources(aliases).contains(entries[k - 1].0@) {
            p
        } else {
            p.push((entries[k - 1].0, (k - 1) as usize))
        }
    }
}

/// The second pass over the first `k` aliases, after `start`: each alias
/// whose canonical field is not resolved yet and whose source field the
/// page has, under the canonical name.
pub open spec fn aliased_fields(
    entries: Seq<(String, FmValue)>,
    aliases: Seq<(String, String)>,
    start: Seq<(String, usize)>,
    k: int,
) -> Seq<(String, usize)>
    decreases k,
{
    if k <= 0 {
        start
    } else {
        let p = aliased_fields(entries, aliases, start, k - 1);
        let (source, canonical) = aliases[k - 1];
        if resolved_names(p).contains(canonical@) {
            p
        } else {
            match entry_index(entries, source@) {
                Some(i) => p.push((canonical, i as usize)),
                None => p,
            }
        }
    }
}

/// The fields of a page to index, by entry index.
pub open spec fn resolve_fields_spec(entries: Seq<(String, FmValue)>, aliases: Seq<(String, String)>) -> Seq<(String, usize)> {
    aliased_fields(entries, aliases, direct_fields(entries, aliases, entries.len() as int), aliases.len() as int)
}

/// The index of the first entry with this key.
fn entry_index_exec(entries: &Vec<(String, FmValue)>, key: &[char]) -> (r: Option<usize>)
    ensures
        match entry_index(entries@, key@) {
            Some(i) => r == Some(i as usize),
            None => r is None,
        },
{
    let mut i: usize = 0;
    while i < entries.len()
        invariant
            i <= entries@.len(),
            entry_index(entries@.take(i as int), key@) is None,
        decreases entries.len() - i,
    {
        proof {
            assert(entries@.take(i + 1).drop_last() =~= entries@.take(i as int));
            assert(entries@.take(i + 1).last() == entries@[i as int]);
        }
        if eq_text(entries[i].0.as_str(), key) {
            proof {
                lemma_entry_index_prefix(entries@, key@, i as int + 1);
            }
            return Some(i);
        }
        i = i + 1;
    }
    assert(entries@.take(entries@.len() as int) =~= entries@);
    None
}

proof fn lemma_entry_index_prefix(entries: Seq<(String, FmValue)>, key: Seq<char>, n: int)
    requires
        0 <= n <= entries.len(),
        entry_index(entries.take(n), key) is Some,
    ensures
        entry_index(entries, key) == entry_index(entries.take(n), key),
    decreases entries.len() - n,
{
    if n < entries.len() {
        assert(entries.take(n + 1).drop_last() =~= entries.take(n));
        lemma_entry_index_prefix(entries, key, n + 1);
    } else {
        assert(entries.take(n) =~= entries);
    }
}

/// The fields of a page to index, each with the index of its frontmatter
/// entry: first every field that is not the source of an alias, under its
/// own name, in frontmatter order; then, in alias order, each alias whose
/// canonical field was not indexed yet and whose source field the page
/// has, under the canonical name. `aliases` maps source fields to canonical
/// ones for the page's type.
pub fn resolve_fields(fm: &FrontMatter, aliases: &Vec<(String, String)>) -> (r: Vec<(String, usize)>)
    ensures
        r@ == resolve_fields_spec(fm.entries@, aliases@),
        forall|j: int| 0 <= j < r@.len() ==> r@[j].1 < fm.entries@.len(),
{
    let entries = &fm.entries;
    let mut sources: Vec<String> = Vec::new();
    let mut a: usize = 0;
    while a < aliases.len()
        invariant
            a <= aliases@.len(),
            texts(sources@) == alias_sources(aliases@.take(a as int)),
        decreases aliases.len() - a,
    {
        let ghost before = texts(sources@);
        sources.push(aliases[a].0.clone());
        assert(texts(sources@) =~= before.push(aliases@[a as int].0@));
        assert(alias_sources(aliases@.take(a + 1)) =~= alias_sources(aliases@.take(a as int)).push(aliases@[a as int].0@));
        a = a + 1;
    }
    assert(aliases@.take(aliases@.len() as int) =~= aliases@);
    let mut r: Vec<(String, usize)> = Vec::new();
    let mut i: usize = 0;
    while i < entries.len()
        invariant
            i <= entries@.len(),
            texts(sources@) == alias_sources(aliases@),
            r@ == direct_fields(entries@, aliases@, i as int),
            forall|j: int| 0 <= j < r@.len() ==> r@[j].1 < entries@.len(),
        decreases entries.len() - i,
    {
        let name = chars_of(entries[i].0.as_str());
        if !contains_text(&sources, &name) {
            r.push((entries[i].0.clone(), i));
        }
        i = i + 1;
    }
    let ghost start = r@;
    let mut names: Vec<String> = Vec::new();
    let mut q: usize = 0;
    while q < r.len()
        invariant
            q <= r@.len(),
            texts(names@) == resolved_names(r@.take(q as int)),
        decreases r.len() - q,
    {
        let ghost before = texts(names@);
        names.push(r[q].0.clone());
        assert(texts(names@) =~= before.push(r@[q as int].0@));
        assert(resolved_names(r@.take(q + 1)) =~= resolved_names(r@.take(q as int)).push(r@[q as int].0@));
        q = q + 1;
    }
    assert(r@.take(r@.len() as int) =~= r@);
    let mut k: usize = 0;
    while k < aliases.len()
        invariant
            k <= aliases@.len(),
            start == direct_fields(entries@, aliases@, entries@.len() as int),
            r@ == aliased_fields(entries@, aliases@, start, k as int),
            texts(names@) == resolved_names(r@),
            forall|j: int| 0 <= j < r@.len() ==> r@[j].1 < entries@.len(),
        decreases aliases.len() - k,
    {
        let canonical = chars_of(aliases[k].1.as_str());
        if !contains_text(&names, &canonical) {
            let source = chars_of(aliases[k].0.as_str());
            match entry_index_exec(entries, &source) {
                Some(e) => {
                    proof {
                        lemma_entry_index_range(entries@, source@);
                    }
                    let ghost before = r@;
                    let ghost before_names = texts(names@);
                    r.push((aliases[k].1.clone(), e));
                    names.push(aliases[k].1.clone());
                    assert(resolved_names(r@) =~= resolved_names(before).push(canonical@));
                    assert(texts(names@) =~= before_names.push(canonical@));
                },
                None => {},
            }
        }
        k = k + 1;
    }
    r
}

proof fn lemma_entry_index_range(entries: Seq<(String, FmValue)>, key: Seq<char>)
    ensures
        entry_index(entries, key) matches Some(i) ==> 0 <= i < entries.len(),
    decreases entries.len(),
{
    if entries.len() > 0 {
        lemma_entry_index_range(entries.drop_last(), key);
    }
}

} // verus!
