//! The decisions of the file watcher: which changed paths matter, to which
//! mounted wiki they belong, and what a burst of changes asks for.
//!
//! Paths are read as `std::path::Path` reads them on Unix: split on `/`,
//! with empty pieces and `.` pieces dropped (a leading `.` of a relative path
//! is kept as the current directory).
use vstd::prelude::*;

use crate::links::{contains_text, texts};
use crate::slug::split_char_exec;
use crate::text::{
    chars_of, contains, find, rfind_char, rfind_char_exec, seq_eq, slice, split_char, string_of,
};

verus! {

// ── Path model ────────────────────────────────────────────────────────────────

/// A piece of a path that is a component of its own (not empty, not `.`).
pub open spec fn kept_piece(p: Seq<char>) -> bool {
    p.len() > 0 && p != seq!['.']
}

/// The pieces of `ps` that are components.
pub open spec fn keep_pieces(ps: Seq<Seq<char>>) -> Seq<Seq<char>>
    decreases ps.len(),
{
    if ps.len() == 0 {
        seq![]
    } else if kept_piece(ps.last()) {
        keep_pieces(ps.drop_last()).push(ps.last())
    } else {
        keep_pieces(ps.drop_last())
    }
}

/// The named components of a path (`Normal` and `..`), in order.
pub open spec fn path_pieces(s: Seq<char>) -> Seq<Seq<char>> {
    keep_pieces(split_char(s, '/'))
}

/// The path starts at the root.
pub open spec fn is_absolute(s: Seq<char>) -> bool {
    s.len() > 0 && s[0] == '/'
}

/// The path is relative and its first piece is `.`.
pub open spec fn leading_cur_dir(s: Seq<char>) -> bool {
    !is_absolute(s) && split_char(s, '/')[0] == seq!['.']
}

/// `Path::file_name`: the last component, unless there is none or it is `..`.
pub open spec fn file_name(s: Seq<char>) -> Option<Seq<char>> {
    let ps = path_pieces(s);
    if ps.len() == 0 || ps.last() == seq!['.', '.'] {
        None
    } else {
        Some(ps.last())
    }
}

/// `Path::extension`: what follows the last `.` of the file name, unless the
/// name has no `.` or its only `.` is its first character.
pub open spec fn extension(s: Seq<char>) -> Option<Seq<char>> {
    match file_name(s) {
        Some(name) => match rfind_char(name, '.') {
            Some(i) => if i == 0 {
                None
            } else {
                Some(name.subrange(i + 1, name.len() as int))
            },
            None => None,
        },
        None => None,
    }
}

/// `Path::starts_with`: `base` is a prefix of `path`, whole components only.
pub open spec fn path_starts_with(path: Seq<char>, base: Seq<char>) -> bool {
    &&& is_absolute(path) == is_absolute(base)
    &&& leading_cur_dir(path) == leading_cur_dir(base)
    &&& path_pieces(base).len() <= path_pieces(path).len()
    &&& path_pieces(path).take(path_pieces(base).len() as int) == path_pieces(base)
}

/// `base/sub`, as components, starts `path` (`path.starts_with(base.join(sub))`
/// for a single relative component `sub`).
pub open spec fn path_starts_with_child(path: Seq<char>, base: Seq<char>, sub: Seq<char>) -> bool {
    &&& is_absolute(path) == is_absolute(base)
    &&& leading_cur_dir(path) == leading_cur_dir(base)
    &&& path_pieces(base).len() < path_pieces(path).len()
    &&& path_pieces(path).take(path_pieces(base).len() + 1int) == path_pieces(base).push(sub)
}

/// The components of `v`, as `path_pieces` describes them.
pub(crate) fn pieces_exec(v: &[char]) -> (r: Vec<Vec<char>>)
    ensures
        r@.map_values(|w: Vec<char>| w@) == path_pieces(v@),
{
    let parts = split_char_exec(v, '/');
    let ghost all = parts@.map_values(|w: Vec<char>| w@);
    let mut r: Vec<Vec<char>> = Vec::new();
    let mut i: usize = 0;
    while i < parts.len()
        invariant
            0 <= i <= parts.len(),
            all == parts@.map_values(|w: Vec<char>| w@),
            r@.map_values(|w: Vec<char>| w@) == keep_pieces(all.take(i as int)),
        decreases parts.len() - i,
    {
        let p = &parts[i];
        let keep = p.len() > 0 && !(p.len() == 1 && p[0] == '.');
        proof {
            reveal_strlit("schemas");
            assert(all.take(i + 1).drop_last() =~= all.take(i as int));
            assert(all.take(i + 1).last() == p@);
            assert(keep == kept_piece(p@)) by {
                if p@.len() == 1 && p@ == seq!['.'] {
                    assert(p@[0] == '.');
                }
                if p@.len() == 1 && p@[0] == '.' {
                    assert(p@ =~= seq!['.']);
                }
            }
        }
        if keep {
            let q = slice(p, 0, p.len());
            proof {
                assert(q@ =~= p@);
                assert(r@.push(q).map_values(|w: Vec<char>| w@) =~= r@.map_values(
                    |w: Vec<char>| w@,
                ).push(q@));
            }
            r.push(q);
        }
        i = i + 1;
    }
    assert(all.take(parts.len() as int) =~= all);
    r
}

/// Whether `v` is relative with `.` as its first piece.
pub(crate) fn leading_cur_dir_exec(v: &[char]) -> (b: bool)
    ensures
        b == leading_cur_dir(v@),
{
    let parts = split_char_exec(v, '/');
    proof {
        crate::text::lemma_split_char_nonempty(v@, '/');
        assert(parts@.map_values(|w: Vec<char>| w@)[0] == parts@[0]@);
    }
    let abs = v.len() > 0 && v[0] == '/';
    let first = &parts[0];
    let dot = first.len() == 1 && first[0] == '.';
    proof {
        if first@.len() == 1 && first@[0] == '.' {
            assert(first@ =~= seq!['.']);
        }
        if first@ == seq!['.'] {
            assert(first@[0] == '.');
        }
    }
    !abs && dot
}

/// `Path::file_name` of `v`.
pub fn file_name_exec(v: &[char]) -> (r: Option<Vec<char>>)
    ensures
        match file_name(v@) {
            Some(n) => r matches Some(x) && x@ == n,
            None => r is None,
        },
{
    let ps = pieces_exec(v);
    proof {
        assert(ps@.len() == path_pieces(v@).len());
    }
    if ps.len() == 0 {
        return None;
    }
    let last = &ps[ps.len() - 1];
    proof {
        assert(path_pieces(v@).last() == last@);
    }
    if last.len() == 2 && last[0] == '.' && last[1] == '.' {
        assert(last@ =~= seq!['.', '.']);
        return None;
    }
    proof {
        if last@ == seq!['.', '.'] {
            assert(last@[0] == '.' && last@[1] == '.');
        }
    }
    Some(slice(last, 0, last.len()))
}

/// `Path::extension` of `v`.
pub fn extension_exec(v: &[char]) -> (r: Option<Vec<char>>)
    ensures
        match extension(v@) {
            Some(e) => r matches Some(x) && x@ == e,
            None => r is None,
        },
{
    match file_name_exec(v) {
        Some(name) => match rfind_char_exec(&name, '.') {
            Some(i) => {
                if i == 0 {
                    None
                } else {
                    Some(slice(&name, i + 1, name.len()))
                }
            },
            None => None,
        },
        None => None,
    }
}

/// Whether `a` is a prefix of `b`, piece by piece.
fn pieces_prefix(a: &Vec<Vec<char>>, b: &Vec<Vec<char>>) -> (r: bool)
    ensures
        r == (a@.len() <= b@.len() && b@.map_values(|w: Vec<char>| w@).take(a@.len() as int)
            == a@.map_values(|w: Vec<char>| w@)),
{
    let ghost am = a@.map_values(|w: Vec<char>| w@);
    let ghost bm = b@.map_values(|w: Vec<char>| w@);
    if a.len() > b.len() {
        return false;
    }
    let mut i: usize = 0;
    while i < a.len()
        invariant
            0 <= i <= a.len() <= b.len(),
            am == a@.map_values(|w: Vec<char>| w@),
            bm == b@.map_values(|w: Vec<char>| w@),
            forall|j: int| 0 <= j < i ==> am[j] == bm[j],
        decreases a.len() - i,
    {
        if !seq_eq(&a[i], &b[i]) {
            assert(bm.take(a@.len() as int)[i as int] != am[i as int]);
            return false;
        }
        i = i + 1;
    }
    assert(bm.take(a@.len() as int) =~= am);
    true
}

/// `path.starts_with(base)` for paths read as text.
pub fn path_starts_with_exec(path: &str, base: &str) -> (r: bool)
    ensures
        r == path_starts_with(path@, base@),
{
    let p = chars_of(path);
    let b = chars_of(base);
    let pa = p.len() > 0 && p[0] == '/';
    let ba = b.len() > 0 && b[0] == '/';
    if pa != ba || leading_cur_dir_exec(&p) != leading_cur_dir_exec(&b) {
        return false;
    }
    let pp = pieces_exec(&p);
    let bp = pieces_exec(&b);
    pieces_prefix(&bp, &pp)
}

/// `path.starts_with(base.join(sub))` for a single component `sub`.
pub fn path_starts_with_child_exec(path: &str, base: &str, sub: &str) -> (r: bool)
    requires
        kept_piece(sub@),
        !contains(sub@, seq!['/']),
    ensures
        r == path_starts_with_child(path@, base@, sub@),
{
    let p = chars_of(path);
    let b = chars_of(base);
    let pa = p.len() > 0 && p[0] == '/';
    let ba = b.len() > 0 && b[0] == '/';
    if pa != ba || leading_cur_dir_exec(&p) != leading_cur_dir_exec(&b) {
        return false;
    }
    let pp = pieces_exec(&p);
    let mut bp = pieces_exec(&b);
    let ghost bm = bp@.map_values(|w: Vec<char>| w@);
    let s = chars_of(sub);
    bp.push(s);
    assert(bp@.map_values(|w: Vec<char>| w@) =~= bm.push(sub@));
    if bp.len() > pp.len() {
        return false;
    }
    pieces_prefix(&bp, &pp)
}

// ── Event classification ──────────────────────────────────────────────────────

/// A changed JSON schema: a path under some `/schemas/` with extension `json`.
pub open spec fn is_schema_path_spec(path: Seq<char>) -> bool {
    find(path, "/schemas/"@) is Some && extension(path) == Some("json"@)
}

/// A changed wiki page: a path under some `/wiki/` with extension `md`.
pub open spec fn is_wiki_md_spec(path: Seq<char>) -> bool {
    find(path, "/wiki/"@) is Some && extension(path) == Some("md"@)
}

/// Whether `e` is the extension `lit`.
fn extension_is(v: &[char], lit: &str) -> (r: bool)
    ensures
        r == (extension(v@) == Some(lit@)),
{
    match extension_exec(v) {
        Some(e) => crate::text::eq_str(&e, lit),
        None => false,
    }
}

/// Whether `path` is a JSON schema file under a `schemas/` directory.
pub fn is_schema_path(path: &str) -> (r: bool)
    ensures
        r == is_schema_path_spec(path@),
{
    let v = chars_of(path);
    crate::text::contains_str(&v, "/schemas/") && extension_is(&v, "json")
}

/// Whether `path` is a markdown page under a `wiki/` directory.
pub fn is_wiki_md(path: &str) -> (r: bool)
    ensures
        r == is_wiki_md_spec(path@),
{
    let v = chars_of(path);
    crate::text::contains_str(&v, "/wiki/") && extension_is(&v, "md")
}

/// The texts of a list of (wiki, path) pairs.
pub open spec fn pair_texts(v: Seq<(String, String)>) -> Seq<(Seq<char>, Seq<char>)> {
    v.map_values(|p: (String, String)| (p.0@, p.1@))
}

/// Whether the pair (`wiki`, `path`) is in `v`.
fn contains_pair(v: &Vec<(String, String)>, wiki: &str, path: &str) -> (r: bool)
    ensures
        r == pair_texts(v@).contains((wiki@, path@)),
{
    let w = chars_of(wiki);
    let p = chars_of(path);
    let mut i: usize = 0;
    while i < v.len()
        invariant
            0 <= i <= v.len(),
            w@ == wiki@,
            p@ == path@,
            forall|j: int| 0 <= j < i ==> pair_texts(v@)[j] != (wiki@, path@),
        decreases v.len() - i,
    {
        let a = chars_of(v[i].0.as_str());
        let b = chars_of(v[i].1.as_str());
        if seq_eq(&a, &w) && seq_eq(&b, &p) {
            assert(pair_texts(v@)[i as int] == (wiki@, path@));
            return true;
        }
        i = i + 1;
    }
    proof {
        if pair_texts(v@).contains((wiki@, path@)) {
            let j = choose|j: int|
                0 <= j < pair_texts(v@).len() && pair_texts(v@)[j] == (wiki@, path@);
            assert(false);
        }
    }
    false
}

/// File one changed path of `wiki_name`: a schema change marks the wiki for
/// a rebuild; any other change is kept as (wiki, path). Each set keeps an
/// item once.
pub fn classify_event(
    wiki_name: &str,
    path: &str,
    md_changes: &mut Vec<(String, String)>,
    schema_wikis: &mut Vec<String>,
)
    ensures
        is_schema_path_spec(path@) ==> {
            &&& final(md_changes)@ == old(md_changes)@
            &&& texts(final(schema_wikis)@) == if texts(old(schema_wikis)@).contains(wiki_name@) {
                texts(old(schema_wikis)@)
            } else {
                texts(old(schema_wikis)@).push(wiki_name@)
            }
        },
        !is_schema_path_spec(path@) ==> {
            &&& final(schema_wikis)@ == old(schema_wikis)@
            &&& pair_texts(final(md_changes)@) == if pair_texts(old(md_changes)@).contains(
                (wiki_name@, path@),
            ) {
                pair_texts(old(md_changes)@)
            } else {
                pair_texts(old(md_changes)@).push((wiki_name@, path@))
            }
        },
{
    if is_schema_path(path) {
        let w = chars_of(wiki_name);
        if !contains_text(schema_wikis, &w) {
            schema_wikis.push(wiki_name.to_string());
            assert(texts(schema_wikis@) =~= texts(old(schema_wikis)@).push(wiki_name@));
        }
    } else {
        if !contains_pair(md_changes, wiki_name, path) {
            md_changes.push((wiki_name.to_string(), path.to_string()));
            assert(pair_texts(md_changes@) =~= pair_texts(old(md_changes)@).push(
                (wiki_name@, path@),
            ));
        }
    }
}

// ── Routing and actions ───────────────────────────────────────────────────────

/// A watched wiki: its name, its wiki root and its repository root.
pub open spec fn watched_texts(dirs: Seq<(String, String, String)>) -> Seq<
    (Seq<char>, Seq<char>, Seq<char>),
> {
    dirs.map_values(|d: (String, String, String)| (d.0@, d.1@, d.2@))
}

/// Whether a change at `path` belongs to the watched wiki `d`: a page under
/// its wiki root, or a schema under its repository's `schemas/`.
pub open spec fn claims(d: (Seq<char>, Seq<char>, Seq<char>), path: Seq<char>) -> bool {
    ||| path_starts_with(path, d.1) && is_wiki_md_spec(path)
    ||| path_starts_with_child(path, d.2, "schemas"@) && is_schema_path_spec(path)
}

/// The wiki that a change at `path` is reported to: the first watched wiki
/// that claims it.
pub open spec fn route_spec(dirs: Seq<(Seq<char>, Seq<char>, Seq<char>)>, path: Seq<char>) -> Option<
    Seq<char>,
>
    decreases dirs.len(),
{
    if dirs.len() == 0 {
        None
    } else {
        match route_spec(dirs.drop_last(), path) {
            Some(w) => Some(w),
            None => if claims(dirs.last(), path) {
                Some(dirs.last().0)
            } else {
                None
            },
        }
    }
}

/// Once a prefix of the watched wikis claims a path, the whole list routes
/// it there too.
proof fn lemma_route_prefix(dirs: Seq<(Seq<char>, Seq<char>, Seq<char>)>, path: Seq<char>, n: int)
    requires
        0 <= n <= dirs.len(),
        route_spec(dirs.take(n), path) is Some,
    ensures
        route_spec(dirs, path) == route_spec(dirs.take(n), path),
    decreases dirs.len(),
{
    if n < dirs.len() {
        assert(dirs.drop_last().take(n) =~= dirs.take(n));
        lemma_route_prefix(dirs.drop_last(), path, n);
    } else {
        assert(dirs.take(n) =~= dirs);
    }
}

/// The name of the first watched wiki (name, wiki root, repository root)
/// that a change at `path` belongs to, if any.
pub fn route_event(dirs: &Vec<(String, String, String)>, path: &str) -> (r: Option<String>)
    ensures
        match route_spec(watched_texts(dirs@), path@) {
            Some(w) => r matches Some(x) && x@ == w,
            None => r is None,
        },
{
    let ghost all = watched_texts(dirs@);
    proof {
        reveal_strlit("schemas");
        assert(all.take(0) =~= Seq::<(Seq<char>, Seq<char>, Seq<char>)>::empty());
    }
    let md = is_wiki_md(path);
    let schema = is_schema_path(path);
    let mut i: usize = 0;
    while i < dirs.len()
        invariant
            0 <= i <= dirs.len(),
            all == watched_texts(dirs@),
            md == is_wiki_md_spec(path@),
            schema == is_schema_path_spec(path@),
            route_spec(all.take(i as int), path@) is None,
        decreases dirs.len() - i,
    {
        let d = &dirs[i];
        proof {
            reveal_strlit("schemas");
            assert(all.take(i + 1).drop_last() =~= all.take(i as int));
            assert(all.take(i + 1).last() == all[i as int]);
            assert("schemas"@.len() == 7);
            assert("schemas"@ != seq!['.']);
            assert(kept_piece("schemas"@));
            assert(!contains("schemas"@, seq!['/'])) by {
                if contains("schemas"@, seq!['/']) {
                    let k = choose|k: int| crate::text::occurs_at("schemas"@, seq!['/'], k);
                    assert("schemas"@[k] == seq!['/'][0]);
                }
            }
        }
        if path_starts_with_exec(path, d.1.as_str()) && md {
            assert(route_spec(all.take(i + 1), path@) == Some(d.0@));
            proof {
                lemma_route_prefix(all, path@, i + 1);
            }
            return Some(d.0.clone());
        }
        if path_starts_with_child_exec(path, d.2.as_str(), "schemas") && schema {
            assert(route_spec(all.take(i + 1), path@) == Some(d.0@));
            proof {
                lemma_route_prefix(all, path@, i + 1);
            }
            return Some(d.0.clone());
        }
        i = i + 1;
    }
    assert(all.take(dirs.len() as int) =~= all);
    None
}

/// What a burst of changes asks of the watcher.
#[derive(Debug)]
pub enum WatchAction {
    /// Pages changed: bring them into the index.
    IngestPages(Vec<String>),
    /// Schemas changed: rebuild the index of these wikis.
    RebuildIndex,
}

/// Decide what to do after a burst: a schema change anywhere asks for a
/// rebuild (before any page ingest); otherwise changed pages are ingested;
/// nothing changed asks for nothing.
pub fn decide_action(md_changes: &Vec<(String, String)>, schema_wikis: &Vec<String>) -> (r: Option<
    WatchAction,
>)
    ensures
        schema_wikis@.len() > 0 ==> r matches Some(WatchAction::RebuildIndex),
        schema_wikis@.len() == 0 && md_changes@.len() > 0 ==> (r matches Some(
            WatchAction::IngestPages(paths),
        ) && texts(paths@) == pair_texts(md_changes@).map_values(
            |p: (Seq<char>, Seq<char>)| p.1,
        )),
        schema_wikis@.len() == 0 && md_changes@.len() == 0 ==> r is None,
{
    if schema_wikis.len() > 0 {
        return Some(WatchAction::RebuildIndex);
    }
    if md_changes.len() == 0 {
        return None;
    }
    let mut paths: Vec<String> = Vec::new();
    let mut i: usize = 0;
    while i < md_changes.len()
        invariant
            0 <= i <= md_changes.len(),
            texts(paths@) == pair_texts(md_changes@).take(i as int).map_values(
                |p: (Seq<char>, Seq<char>)| p.1,
            ),
        decreases md_changes.len() - i,
    {
        let ghost before = texts(paths@);
        paths.push(md_changes[i].1.clone());
        proof {
            let pt = pair_texts(md_changes@);
            assert(texts(paths@) =~= before.push(md_changes@[i as int].1@));
            assert(pt[i as int].1 == md_changes@[i as int].1@);
            assert(pt.take(i + 1).map_values(|p: (Seq<char>, Seq<char>)| p.1) =~= pt.take(
                i as int,
            ).map_values(|p: (Seq<char>, Seq<char>)| p.1).push(pt[i as int].1));
        }
        i = i + 1;
    }
    assert(pair_texts(md_changes@).take(md_changes.len() as int) =~= pair_texts(md_changes@));
    Some(WatchAction::IngestPages(paths))
}


// ── Changed files ─────────────────────────────────────────────────────────────

/// The kind of change `git2` reports for a file.
#[verifier::external_type_specification]
#[verifier::external_body]
pub struct ExDelta(git2::Delta);

/// A changed file: its path relative to the repository, and how it changed.
pub open spec fn change_texts(v: Seq<(String, git2::Delta)>) -> Seq<Seq<char>> {
    v.map_values(|c: (String, git2::Delta)| c.0@)
}

/// The changes that are markdown pages under the wiki directory `prefix`
/// (relative to the repository), in order.
pub open spec fn md_changes_spec(v: Seq<(String, git2::Delta)>, prefix: Seq<char>) -> Seq<(String, git2::Delta)>
    decreases v.len(),
{
    if v.len() == 0 {
        seq![]
    } else {
        let prev = md_changes_spec(v.drop_last(), prefix);
        let c = v.last();
        if path_starts_with(c.0@, prefix) && extension(c.0@) == Some("md"@) {
            prev.push(c)
        } else {
            prev
        }
    }
}

/// Keep the changed files that are markdown pages under `wiki_prefix`.
pub fn collect_md_changes(changes: &Vec<(String, git2::Delta)>, wiki_prefix: &str) -> (r: Vec<(String, git2::Delta)>)
    ensures
        change_texts(r@) == change_texts(md_changes_spec(changes@, wiki_prefix@)),
        r@.len() == md_changes_spec(changes@, wiki_prefix@).len(),
        forall|k: int| 0 <= k < r@.len() ==> (#[trigger] r@[k]).1 == md_changes_spec(changes@, wiki_prefix@)[k].1,
{
    let mut r: Vec<(String, git2::Delta)> = Vec::new();
    let mut i: usize = 0;
    assert(changes@.take(0) =~= Seq::<(String, git2::Delta)>::empty());
    while i < changes.len()
        invariant
            0 <= i <= changes@.len(),
            change_texts(r@) == change_texts(md_changes_spec(changes@.take(i as int), wiki_prefix@)),
            r@.len() == md_changes_spec(changes@.take(i as int), wiki_prefix@).len(),
            forall|k: int| 0 <= k < r@.len() ==> (#[trigger] r@[k]).1 == md_changes_spec(changes@.take(i as int), wiki_prefix@)[k].1,
        decreases changes.len() - i,
    {
        let v = chars_of(changes[i].0.as_str());
        let keep = path_starts_with_exec(changes[i].0.as_str(), wiki_prefix) && extension_is(&v, "md");
        let ghost prev = md_changes_spec(changes@.take(i as int), wiki_prefix@);
        proof {
            assert(changes@.take(i + 1).drop_last() =~= changes@.take(i as int));
            assert(changes@.take(i + 1).last() == changes@[i as int]);
        }
        if keep {
            let ghost before = r@;
            let d = changes[i].1;
            let name = changes[i].0.clone();
            assert(name@ == changes@[i as int].0@);
            r.push((name, d));
            proof {
                let next = prev.push(changes@[i as int]);
                assert(r@.len() == before.len() + 1);
                assert(r@[before.len() as int].0@ == next[before.len() as int].0@);
                assert forall|k: int| 0 <= k < r@.len() implies #[trigger] change_texts(r@)[k] == change_texts(next)[k] by {
                    if k < before.len() {
                        assert(r@[k] == before[k]);
                        assert(change_texts(before)[k] == change_texts(prev)[k]);
                    }
                }
                assert(change_texts(r@) =~= change_texts(next));
                assert forall|k: int| 0 <= k < r@.len() implies (#[trigger] r@[k]).1 == next[k].1 by {
                    if k < before.len() {
                        assert(r@[k] == before[k]);
                    }
                }
            }
        }
        i = i + 1;
    }
    assert(changes@.take(changes.len() as int) =~= changes@);
    r
}

} // verus!
