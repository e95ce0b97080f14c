//! Wiki spaces: the registry of wikis in the global config, and the files a
//! new space starts with.
use vstd::prelude::*;

use crate::config::{GlobalConfig, WikiEntry};
use crate::slug::WikiUri;
use crate::text::{chars_of, push_str, string_of};
use crate::watch::{is_absolute, leading_cur_dir, path_pieces};

verus! {

/// Outcome of a wiki space creation.
#[derive(Debug, Clone)]
pub struct CreateReport {
    /// Absolute path of the wiki directory.
    pub path: String,
    /// Registered name of the wiki.
    pub name: String,
    /// True if the directory was newly created.
    pub created: bool,
    /// True if the space was added to the global config.
    pub registered: bool,
    /// True if an initial git commit was made.
    pub committed: bool,
}

/// Why a registry operation is refused.
#[derive(Debug, Clone)]
pub enum SpaceError {
    /// No wiki has this name.
    NotRegistered(String),
    /// A wiki of this name is registered and `force` was not given.
    AlreadyRegistered(String),
    /// The wiki is the default one.
    IsDefault(String),
    /// The path is registered under this other name and `force` was not given.
    RegisteredAs(String),
}

impl SpaceError {
    /// The human-readable message.
    pub fn message(&self) -> (m: String)
        ensures
            self matches SpaceError::NotRegistered(n) ==> m@ == "wiki \""@ + n@ + "\" is not registered"@,
            self matches SpaceError::AlreadyRegistered(n) ==> m@ == "wiki already registered as \""@ + n@
                + "\". Use --force to update."@,
            self matches SpaceError::IsDefault(n) ==> m@ == "\""@ + n@
                + "\" is the default wiki \u{2014} set a new default first"@,
            self matches SpaceError::RegisteredAs(n) ==> m@ == "wiki already registered as \""@ + n@
                + "\". Use --force to rename."@,
    {
        let mut out: Vec<char> = Vec::new();
        match self {
            SpaceError::NotRegistered(n) => {
                push_str(&mut out, "wiki \"");
                push_str(&mut out, n.as_str());
                push_str(&mut out, "\" is not registered");
            },
            SpaceError::AlreadyRegistered(n) => {
                push_str(&mut out, "wiki already registered as \"");
                push_str(&mut out, n.as_str());
                push_str(&mut out, "\". Use --force to update.");
            },
            SpaceError::IsDefault(n) => {
                push_str(&mut out, "\"");
                push_str(&mut out, n.as_str());
                push_str(&mut out, "\" is the default wiki \u{2014} set a new default first");
            },
            SpaceError::RegisteredAs(n) => {
                push_str(&mut out, "wiki already registered as \"");
                push_str(&mut out, n.as_str());
                push_str(&mut out, "\". Use --force to rename.");
            },
        }
        string_of(&out)
    }
}

// ── Lookup ────────────────────────────────────────────────────────────────────

/// The index of the first wiki at or after `i` named `name`.
pub open spec fn find_from(wikis: Seq<WikiEntry>, name: Seq<char>, i: int) -> Option<int>
    decreases wikis.len() - i,
{
    if i < 0 || i >= wikis.len() {
        None
    } else if wikis[i].name@ == name {
        Some(i)
    } else {
        find_from(wikis, name, i + 1)
    }
}

/// The index of the first wiki named `name`.
pub open spec fn find_entry(wikis: Seq<WikiEntry>, name: Seq<char>) -> Option<int> {
    find_from(wikis, name, 0)
}

/// No two wikis share a name.
pub open spec fn names_unique(wikis: Seq<WikiEntry>) -> bool {
    forall|i: int, j: int| 0 <= i < j < wikis.len() ==> (#[trigger] wikis[i]).name@ != (#[trigger] wikis[j]).name@
}

proof fn lemma_find_from(wikis: Seq<WikiEntry>, name: Seq<char>, i: int)
    requires
        0 <= i,
    ensures
        match find_from(wikis, name, i) {
            Some(k) => i <= k < wikis.len() && wikis[k].name@ == name && forall|j: int|
                i <= j < k ==> (#[trigger] wikis[j]).name@ != name,
            None => forall|j: int| i <= j < wikis.len() ==> (#[trigger] wikis[j]).name@ != name,
        },
    decreases wikis.len() - i,
{
    if i < wikis.len() && wikis[i].name@ != name {
        lemma_find_from(wikis, name, i + 1);
    }
}

/// The index of the first wiki named `name`.
fn find_index(wikis: &Vec<WikiEntry>, name: &str) -> (r: Option<usize>)
    ensures
        match find_entry(wikis@, name@) {
            Some(k) => r == Some(k as usize) && k < wikis@.len(),
            None => r is None,
        },
        r matches Some(i) ==> i < wikis@.len() && find_entry(wikis@, name@) == Some(i as int),
{
    proof {
        lemma_find_from(wikis@, name@, 0);
    }
    let n = chars_of(name);
    let mut i: usize = 0;
    while i < wikis.len()
        invariant
            i <= wikis@.len(),
            n@ == name@,
            find_entry(wikis@, name@) == find_from(wikis@, name@, i as int),
        decreases wikis.len() - i,
    {
        if crate::text::seq_eq(&chars_of(wikis[i].name.as_str()), &n) {
            return Some(i);
        }
        i = i + 1;
    }
    None
}

/// A copy of an optional string.
fn copy_opt(o: &Option<String>) -> (r: Option<String>)
    ensures
        r == *o,
{
    match o {
        Some(s) => Some(s.clone()),
        None => None,
    }
}

/// A copy of a wiki entry.
fn copy_entry(e: &WikiEntry) -> (r: WikiEntry)
    ensures
        r == *e,
{
    WikiEntry {
        name: e.name.clone(),
        path: e.path.clone(),
        description: copy_opt(&e.description),
        remote: copy_opt(&e.remote),
    }
}

/// Look up a registered wiki by name.
pub fn resolve_name(name: &str, global: &GlobalConfig) -> (r: Result<WikiEntry, SpaceError>)
    ensures
        match find_entry(global.wikis@, name@) {
            Some(k) => r == Ok::<WikiEntry, SpaceError>(global.wikis@[k]),
            None => r matches Err(SpaceError::NotRegistered(n)) && n@ == name@,
        },
{
    match find_index(&global.wikis, name) {
        Some(k) => Ok(copy_entry(&global.wikis[k])),
        None => Err(SpaceError::NotRegistered(string_of(&chars_of(name)))),
    }
}

/// All registered wiki entries.
pub fn load_all(global: &GlobalConfig) -> (r: Vec<WikiEntry>)
    ensures
        r@ == global.wikis@,
{
    let mut r: Vec<WikiEntry> = Vec::new();
    let mut i: usize = 0;
    while i < global.wikis.len()
        invariant
            i <= global.wikis@.len(),
            r@ == global.wikis@.subrange(0, i as int),
        decreases global.wikis.len() - i,
    {
        r.push(copy_entry(&global.wikis[i]));
        assert(r@ == global.wikis@.subrange(0, i + 1));
        i = i + 1;
    }
    assert(global.wikis@.subrange(0, global.wikis@.len() as int) == global.wikis@);
    r
}

// ── Registry changes ──────────────────────────────────────────────────────────

/// Every section of the config but `[global]` and the wiki list is the same.
pub open spec fn other_sections_same(a: GlobalConfig, b: GlobalConfig) -> bool {
    &&& a.defaults == b.defaults
    &&& a.read == b.read
    &&& a.index == b.index
    &&& a.graph == b.graph
    &&& a.serve == b.serve
    &&& a.validation == b.validation
    &&& a.ingest == b.ingest
    &&& a.history == b.history
    &&& a.suggest == b.suggest
    &&& a.lint == b.lint
    &&& a.logging == b.logging
    &&& a.watch == b.watch
    &&& a.redact == b.redact
}

/// Add a wiki entry, or replace the first one of the same name when
/// `force` is set; refused when that name is registered and `force` is not
/// set. Nothing but the wiki list changes.
pub fn register(global: &mut GlobalConfig, entry: WikiEntry, force: bool) -> (r: Result<(), SpaceError>)
    ensures
        match find_entry(old(global).wikis@, entry.name@) {
            Some(k) => if force {
                r is Ok && final(global).wikis@ == old(global).wikis@.update(k, entry)
            } else {
                r matches Err(SpaceError::AlreadyRegistered(n)) && n@ == entry.name@
                    && final(global).wikis@ == old(global).wikis@
            },
            None => r is Ok && final(global).wikis@ == old(global).wikis@.push(entry),
        },
        final(global).global == old(global).global,
        other_sections_same(*final(global), *old(global)),
        r is Err ==> *final(global) == *old(global),
{
    match find_index(&global.wikis, entry.name.as_str()) {
        Some(k) => {
            if !force {
                return Err(SpaceError::AlreadyRegistered(entry.name.clone()));
            }
            global.wikis.set(k, entry);
            Ok(())
        },
        None => {
            global.wikis.push(entry);
            Ok(())
        },
    }
}

/// Unregister a wiki, returning its entry (the caller deletes its directory
/// when asked to); refused for the default wiki and for a name that is not
/// registered.
pub fn remove(global: &mut GlobalConfig, name: &str) -> (r: Result<WikiEntry, SpaceError>)
    ensures
        old(global).global.default_wiki@ == name@ ==> (r matches Err(SpaceError::IsDefault(n)) && n@ == name@)
            && final(global).wikis@ == old(global).wikis@,
        old(global).global.default_wiki@ != name@ ==> match find_entry(old(global).wikis@, name@) {
            Some(k) => r == Ok::<WikiEntry, SpaceError>(old(global).wikis@[k])
                && final(global).wikis@ == old(global).wikis@.remove(k),
            None => r matches Err(SpaceError::NotRegistered(n)) && n@ == name@
                && final(global).wikis@ == old(global).wikis@,
        },
        final(global).global == old(global).global,
        other_sections_same(*final(global), *old(global)),
        r is Err ==> *final(global) == *old(global),
{
    let n = chars_of(name);
    if crate::text::seq_eq(&chars_of(global.global.default_wiki.as_str()), &n) {
        return Err(SpaceError::IsDefault(string_of(&n)));
    }
    match find_index(&global.wikis, name) {
        Some(k) => Ok(global.wikis.remove(k)),
        None => Err(SpaceError::NotRegistered(string_of(&n))),
    }
}

/// Make a registered wiki the default one; refused for a name that is not
/// registered.
pub fn set_default_wiki(global: &mut GlobalConfig, name: &str) -> (r: Result<(), SpaceError>)
    ensures
        find_entry(old(global).wikis@, name@) is Some ==> r is Ok && final(global).global.default_wiki@ == name@,
        find_entry(old(global).wikis@, name@) is None ==> (r matches Err(SpaceError::NotRegistered(n)) && n@
            == name@) && final(global).global == old(global).global,
        final(global).wikis@ == old(global).wikis@,
        other_sections_same(*final(global), *old(global)),
        r is Err ==> *final(global) == *old(global),
{
    match find_index(&global.wikis, name) {
        Some(_) => {
            global.global.default_wiki = string_of(&chars_of(name));
            Ok(())
        },
        None => Err(SpaceError::NotRegistered(string_of(&chars_of(name)))),
    }
}

// ── Laws ──────────────────────────────────────────────────────────────────────

/// After `register` succeeds, looking the name up finds the registered
/// entry.
pub proof fn register_then_resolve(old_wikis: Seq<WikiEntry>, new_wikis: Seq<WikiEntry>, entry: WikiEntry, force: bool)
    requires
        match find_entry(old_wikis, entry.name@) {
            Some(k) => force && new_wikis == old_wikis.update(k, entry),
            None => new_wikis == old_wikis.push(entry),
        },
    ensures
        find_entry(new_wikis, entry.name@) matches Some(k) && new_wikis[k] == entry,
{
    lemma_find_from(old_wikis, entry.name@, 0);
    lemma_find_from(new_wikis, entry.name@, 0);
    match find_entry(old_wikis, entry.name@) {
        Some(k) => {
            assert(new_wikis[k] == entry);
            assert forall|j: int| 0 <= j < k implies (#[trigger] new_wikis[j]).name@ != entry.name@ by {
                assert(new_wikis[j] == old_wikis[j]);
            }
        },
        None => {
            assert(new_wikis[old_wikis.len() as int] == entry);
            assert forall|j: int| 0 <= j < old_wikis.len() implies (#[trigger] new_wikis[j]).name@ != entry.name@ by {
                assert(new_wikis[j] == old_wikis[j]);
            }
        },
    }
}

/// Registering keeps names unique: `register` replaces an entry of the same
/// name instead of adding a second one.
pub proof fn register_keeps_names_unique(old_wikis: Seq<WikiEntry>, new_wikis: Seq<WikiEntry>, entry: WikiEntry, force: bool)
    requires
        names_unique(old_wikis),
        match find_entry(old_wikis, entry.name@) {
            Some(k) => force && new_wikis == old_wikis.update(k, entry),
            None => new_wikis == old_wikis.push(entry),
        },
    ensures
        names_unique(new_wikis),
{
    lemma_find_from(old_wikis, entry.name@, 0);
    match find_entry(old_wikis, entry.name@) {
        Some(k) => {
            assert forall|i: int, j: int| 0 <= i < j < new_wikis.len() implies (#[trigger] new_wikis[i]).name@
                != (#[trigger] new_wikis[j]).name@ by {
                if i != k && j != k {
                    assert(new_wikis[i] == old_wikis[i] && new_wikis[j] == old_wikis[j]);
                } else if i == k {
                    assert(new_wikis[j] == old_wikis[j]);
                    assert(old_wikis[i].name@ != old_wikis[j].name@);
                } else {
                    assert(new_wikis[i] == old_wikis[i]);
                    assert(old_wikis[i].name@ != old_wikis[j].name@);
                }
            }
        },
        None => {
            assert forall|i: int, j: int| 0 <= i < j < new_wikis.len() implies (#[trigger] new_wikis[i]).name@
                != (#[trigger] new_wikis[j]).name@ by {
                assert(new_wikis[i] == old_wikis[i]);
                if j < old_wikis.len() {
                    assert(new_wikis[j] == old_wikis[j]);
                }
            }
        },
    }
}

/// With unique names, after `remove` succeeds the name is no longer
/// registered.
pub proof fn remove_then_unregistered(old_wikis: Seq<WikiEntry>, name: Seq<char>)
    requires
        names_unique(old_wikis),
        find_entry(old_wikis, name) is Some,
    ensures
        find_entry(old_wikis.remove(find_entry(old_wikis, name).unwrap()), name) is None,
{
    lemma_find_from(old_wikis, name, 0);
    let k = find_entry(old_wikis, name).unwrap();
    let nw = old_wikis.remove(k);
    lemma_find_from(nw, name, 0);
    assert forall|j: int| 0 <= j < nw.len() implies (#[trigger] nw[j]).name@ != name by {
        if j < k {
            assert(nw[j] == old_wikis[j]);
        } else {
            assert(nw[j] == old_wikis[j + 1]);
            assert(old_wikis[k].name@ != old_wikis[j + 1].name@);
        }
    }
}

// ── New spaces ────────────────────────────────────────────────────────────────

/// The `wiki.toml` a new space starts with.
pub open spec fn wiki_toml_spec(name: Seq<char>, description: Option<Seq<char>>) -> Seq<char> {
    "name = \""@ + name + "\"\n"@ + match description {
        Some(d) => "description = \""@ + d + "\"\n"@,
        None => seq![],
    }
}

/// The `wiki.toml` of a new space: its name, and its description when given.
pub fn generate_wiki_toml(name: &str, description: Option<&str>) -> (s: String)
    ensures
        s@ == wiki_toml_spec(name@, crate::text::opt_text(description)),
{
    let mut out: Vec<char> = Vec::new();
    push_str(&mut out, "name = \"");
    push_str(&mut out, name);
    push_str(&mut out, "\"\n");
    match description {
        Some(d) => {
            push_str(&mut out, "description = \"");
            push_str(&mut out, d);
            push_str(&mut out, "\"\n");
        },
        None => {},
    }
    string_of(&out)
}

/// The `README.md` a new space starts with.
pub open spec fn readme_spec(name: Seq<char>, description: Option<Seq<char>>) -> Seq<char> {
    "# "@ + name + "\n"@ + match description {
        Some(d) => "\n"@ + d + "\n"@,
        None => seq![],
    } + "\nManaged by [llm-wiki](https://github.com/geronimo-iia/llm-wiki). Run `llm-wiki serve` to start the MCP server.\n"@
}

/// The `README.md` of a new space.
pub fn readme_content(name: &str, description: Option<&str>) -> (s: String)
    ensures
        s@ == readme_spec(name@, crate::text::opt_text(description)),
{
    let mut out: Vec<char> = Vec::new();
    push_str(&mut out, "# ");
    push_str(&mut out, name);
    push_str(&mut out, "\n");
    match description {
        Some(d) => {
            push_str(&mut out, "\n");
            push_str(&mut out, d);
            push_str(&mut out, "\n");
        },
        None => {},
    }
    push_str(
        &mut out,
        "\nManaged by [llm-wiki](https://github.com/geronimo-iia/llm-wiki). Run `llm-wiki serve` to start the MCP server.\n",
    );
    string_of(&out)
}

/// What `create` does about the registry before touching the disk.
#[derive(Debug, Clone)]
pub enum CreatePlan {
    /// The path is already registered under this name: only make sure the
    /// structure exists.
    AlreadyDone,
    /// Create the structure, commit and register.
    Proceed,
}

/// The first wiki registered at `path`.
pub open spec fn find_path(wikis: Seq<WikiEntry>, path: Seq<char>, i: int) -> Option<int>
    decreases wikis.len() - i,
{
    if i < 0 || i >= wikis.len() {
        None
    } else if wikis[i].path@ == path {
        Some(i)
    } else {
        find_path(wikis, path, i + 1)
    }
}

/// Decide how to create the space `name` at `path`: a path already
/// registered under the same name needs only its structure; under another
/// name it is refused unless `force` is set.
pub fn plan_create(global: &GlobalConfig, path: &str, name: &str, force: bool) -> (r: Result<CreatePlan, SpaceError>)
    ensures
        match find_path(global.wikis@, path@, 0) {
            Some(k) => if global.wikis@[k].name@ == name@ {
                r matches Ok(CreatePlan::AlreadyDone)
            } else if force {
                r matches Ok(CreatePlan::Proceed)
            } else {
                r matches Err(SpaceError::RegisteredAs(n)) && n@ == global.wikis@[k].name@
            },
            None => r matches Ok(CreatePlan::Proceed),
        },
{
    let p = chars_of(path);
    let n = chars_of(name);
    let mut i: usize = 0;
    while i < global.wikis.len()
        invariant
            i <= global.wikis@.len(),
            p@ == path@,
            n@ == name@,
            find_path(global.wikis@, path@, 0) == find_path(global.wikis@, path@, i as int),
        decreases global.wikis.len() - i,
    {
        let w = &global.wikis[i];
        if crate::text::seq_eq(&chars_of(w.path.as_str()), &p) {
            if crate::text::seq_eq(&chars_of(w.name.as_str()), &n) {
                return Ok(CreatePlan::AlreadyDone);
            } else if !force {
                return Err(SpaceError::RegisteredAs(w.name.clone()));
            } else {
                return Ok(CreatePlan::Proceed);
            }
        }
        i = i + 1;
    }
    Ok(CreatePlan::Proceed)
}


// ── Wiki roots ────────────────────────────────────────────────────────────────

/// Why a `wiki_root` setting is refused.
#[derive(Debug, Clone)]
pub enum WikiRootError {
    /// Empty, or `.`.
    EmptyOrDot,
    /// An absolute path.
    Absolute,
    /// A `..` component.
    ParentDir,
    /// The first component is a directory the engine reserves.
    Reserved { root: String, dir: String },
}

impl WikiRootError {
    /// The human-readable message.
    pub fn message(&self) -> (m: String)
        ensures
            *self is EmptyOrDot ==> m@ == "wiki_root must not be empty or \".\""@,
            *self is Absolute ==> m@ == "wiki_root must be a relative path (no leading \"/\")"@,
            *self is ParentDir ==> m@ == "wiki_root must not contain \"..\" components"@,
            self matches WikiRootError::Reserved { root, dir } ==> m@ == "wiki_root \""@ + root@
                + "\" uses reserved directory \""@ + dir@ + "\""@,
    {
        let mut out: Vec<char> = Vec::new();
        match self {
            WikiRootError::EmptyOrDot => push_str(&mut out, "wiki_root must not be empty or \".\""),
            WikiRootError::Absolute => push_str(&mut out, "wiki_root must be a relative path (no leading \"/\")"),
            WikiRootError::ParentDir => push_str(&mut out, "wiki_root must not contain \"..\" components"),
            WikiRootError::Reserved { root, dir } => {
                push_str(&mut out, "wiki_root \"");
                push_str(&mut out, root.as_str());
                push_str(&mut out, "\" uses reserved directory \"");
                push_str(&mut out, dir.as_str());
                push_str(&mut out, "\"");
            },
        }
        string_of(&out)
    }
}

/// The first component of a relative path when it is a named one (empty
/// for a leading `.`, or when there is none).
pub open spec fn top_component(w: Seq<char>) -> Seq<char> {
    if leading_cur_dir(w) || path_pieces(w).len() == 0 {
        seq![]
    } else {
        path_pieces(w)[0]
    }
}

/// The directories a wiki root must not start with, in the order checked.
pub open spec fn reserved_dirs() -> Seq<Seq<char>> {
    seq!["inbox"@, "raw"@, "schemas"@]
}

/// The text checks of a `wiki_root` setting, before the disk is consulted:
/// not empty or `.`, relative, no `..` component, and not starting with a
/// reserved directory (`inbox`, `raw`, `schemas`).
pub fn check_wiki_root(wiki_root: &str) -> (r: Result<(), WikiRootError>)
    ensures
        wiki_root@.len() == 0 || wiki_root@ == "."@ ==> r matches Err(WikiRootError::EmptyOrDot),
        !(wiki_root@.len() == 0 || wiki_root@ == "."@) && is_absolute(wiki_root@) ==> r matches Err(
            WikiRootError::Absolute,
        ),
        !(wiki_root@.len() == 0 || wiki_root@ == "."@) && !is_absolute(wiki_root@) && path_pieces(
            wiki_root@,
        ).contains(".."@) ==> r matches Err(WikiRootError::ParentDir),
        !(wiki_root@.len() == 0 || wiki_root@ == "."@) && !is_absolute(wiki_root@) && !path_pieces(
            wiki_root@,
        ).contains(".."@) ==> match r {
            Err(WikiRootError::Reserved { root, dir }) => root@ == wiki_root@ && dir@ == top_component(
                wiki_root@,
            ) && reserved_dirs().contains(top_component(wiki_root@)),
            Ok(()) => !reserved_dirs().contains(top_component(wiki_root@)),
            _ => false,
        },
{
    let w = chars_of(wiki_root);
    proof {
        reveal_strlit(".");
        reveal_strlit("..");
        reveal_strlit("inbox");
        reveal_strlit("raw");
        reveal_strlit("schemas");
    }
    if w.len() == 0 || (w.len() == 1 && w[0] == '.') {
        proof {
            if w@.len() == 1 && w@[0] == '.' {
                assert(w@ =~= "."@);
            }
        }
        return Err(WikiRootError::EmptyOrDot);
    }
    proof {
        if w@ == "."@ {
            assert(w@[0] == '.');
        }
    }
    if w[0] == '/' {
        return Err(WikiRootError::Absolute);
    }
    assert(!is_absolute(wiki_root@));
    let pieces = crate::watch::pieces_exec(&w);
    let ghost pv = pieces@.map_values(|p: Vec<char>| p@);
    let mut i: usize = 0;
    while i < pieces.len()
        invariant
            i <= pieces@.len(),
            pv == pieces@.map_values(|p: Vec<char>| p@),
            pv == path_pieces(wiki_root@),
            w@ == wiki_root@,
            !(wiki_root@.len() == 0 || wiki_root@ == "."@),
            !is_absolute(wiki_root@),
            forall|j: int| 0 <= j < i ==> pv[j] != ".."@,
        decreases pieces.len() - i,
    {
        let p = &pieces[i];
        proof {
            reveal_strlit("..");
            assert(pv[i as int] == p@);
        }
        if p.len() == 2 && p[0] == '.' && p[1] == '.' {
            assert(pv[i as int] =~= ".."@);
            return Err(WikiRootError::ParentDir);
        }
        proof {
            if pv[i as int] == ".."@ {
                assert(p@.len() == 2);
                assert(p@[0] == '.' && p@[1] == '.');
            }
        }
        i = i + 1;
    }
    proof {
        if path_pieces(wiki_root@).contains(".."@) {
            let j = choose|j: int| 0 <= j < pv.len() && pv[j] == ".."@;
            assert(false);
        }
    }
    let cur = crate::watch::leading_cur_dir_exec(&w);
    if cur || pieces.len() == 0 {
        proof {
            assert(top_component(wiki_root@) =~= Seq::<char>::empty());
        }
        return Ok(());
    }
    let top = &pieces[0];
    let is_inbox = crate::text::eq_str(top, "inbox");
    let is_raw = crate::text::eq_str(top, "raw");
    let is_schemas = crate::text::eq_str(top, "schemas");
    proof {
        assert(top_component(wiki_root@) == top@);
        assert(reserved_dirs()[0] == "inbox"@ && reserved_dirs()[1] == "raw"@ && reserved_dirs()[2] == "schemas"@);
        if reserved_dirs().contains(top@) {
            let k = choose|k: int| 0 <= k < reserved_dirs().len() && reserved_dirs()[k] == top@;
            assert(k == 0 || k == 1 || k == 2);
        }
    }
    if is_inbox || is_raw || is_schemas {
        return Err(WikiRootError::Reserved { root: string_of(&w), dir: string_of(top) });
    }
    Ok(())
}

/// The wiki and slug a parsed URI names: its candidate wiki when that is a
/// registered wiki; otherwise the explicit `--wiki` (else the default wiki),
/// with the candidate put back in front of the slug.
pub open spec fn uri_target(uri: WikiUri, wiki_flag: Option<&str>, global: GlobalConfig) -> (Seq<char>, Seq<char>) {
    let fallback = match wiki_flag {
        Some(w) => w@,
        None => global.global.default_wiki@,
    };
    match uri.wiki {
        Some(w) => if find_entry(global.wikis@, w@) is Some {
            (w@, uri.slug@)
        } else {
            (fallback, w@ + "/"@ + uri.slug@)
        },
        None => (fallback, uri.slug@),
    }
}

/// Resolve a parsed `wiki://` URI or slug to its wiki's entry and the slug
/// within it (see `uri_target`); the wiki must be registered.
pub fn resolve_uri(uri: &WikiUri, wiki_flag: Option<&str>, global: &GlobalConfig) -> (r: Result<(WikiEntry, String), SpaceError>)
    ensures
        ({
            let (name, slug) = uri_target(*uri, wiki_flag, *global);
            match find_entry(global.wikis@, name) {
                Some(k) => r matches Ok((e, s)) && e == global.wikis@[k] && s@ == slug,
                None => r matches Err(SpaceError::NotRegistered(n)) && n@ == name,
            }
        }),
{
    let fallback = match wiki_flag {
        Some(w) => string_of(&chars_of(w)),
        None => global.global.default_wiki.clone(),
    };
    let (name, slug) = match &uri.wiki {
        Some(w) => {
            if find_index(&global.wikis, w.as_str()).is_some() {
                (w.clone(), string_of(&chars_of(uri.slug.as_str())))
            } else {
                let mut s: Vec<char> = Vec::new();
                push_str(&mut s, w.as_str());
                push_str(&mut s, "/");
                push_str(&mut s, uri.slug.as_str());
                (fallback, string_of(&s))
            }
        },
        None => (fallback, string_of(&chars_of(uri.slug.as_str()))),
    };
    match resolve_name(name.as_str(), global) {
        Ok(e) => Ok((e, slug)),
        Err(err) => Err(err),
    }
}

/// The directories a new space starts with, each holding a `.gitkeep`.
pub open spec fn space_dirs_spec() -> Seq<Seq<char>> {
    seq!["inbox"@, "raw"@, "wiki"@, "schemas"@]
}

/// The directories a new space starts with, in order.
pub fn space_dirs() -> (r: Vec<String>)
    ensures
        crate::links::texts(r@) == space_dirs_spec(),
{
    let mut r: Vec<String> = Vec::new();
    r.push(string_of(&chars_of("inbox")));
    r.push(string_of(&chars_of("raw")));
    r.push(string_of(&chars_of("wiki")));
    r.push(string_of(&chars_of("schemas")));
    assert(crate::links::texts(r@) =~= space_dirs_spec());
    r
}

} // verus!
