//! The search index's bookkeeping: what a build recorded, and whether the
//! index is still current for the repository.
use vstd::prelude::*;

use crate::links::{contains_text, texts};
use crate::text::{chars_of, seq_eq, sort_strings, string_of, strings_sorted};

verus! {

/// What a full rebuild did.
#[derive(Debug, Clone)]
pub struct IndexReport {
    pub wiki: String,
    pub pages_indexed: usize,
    pub skipped: usize,
    pub duration_ms: u64,
}

/// What an incremental update did.
#[derive(Debug, Clone, Copy)]
pub struct UpdateReport {
    pub updated: usize,
    pub deleted: usize,
}

/// The state of a wiki's index.
#[derive(Debug, Clone)]
pub struct IndexStatus {
    pub wiki: String,
    pub path: String,
    pub built: Option<String>,
    pub pages: usize,
    pub sections: usize,
    pub stale: bool,
    pub openable: bool,
    pub queryable: bool,
}

/// How far the index is behind the repository.
#[derive(Debug, Clone)]
pub enum StalenessKind {
    /// Built from the current commit and schemas.
    Current,
    /// The commit moved; the schemas did not.
    CommitChanged,
    /// These types' schemas changed (sorted).
    TypesChanged(Vec<String>),
    /// No usable record, or the schemas changed in no type in particular.
    FullRebuildNeeded,
}

/// What a build recorded (`state.toml`).
#[derive(Debug, Clone)]
pub struct IndexState {
    pub schema_hash: String,
    pub built: String,
    pub pages: usize,
    pub sections: usize,
    pub commit: String,
    /// Per-type schema hashes, by type name.
    pub types: Vec<(String, String)>,
}

/// The value of the first pair with this key.
pub open spec fn lookup(pairs: Seq<(String, String)>, key: Seq<char>) -> Option<Seq<char>>
    decreases pairs.len(),
{
    if pairs.len() == 0 {
        None
    } else if pairs[0].0@ == key {
        Some(pairs[0].1@)
    } else {
        lookup(pairs.drop_first(), key)
    }
}

/// The recorded types whose hash differs now (or that are gone), in
/// record order.
pub open spec fn changed_recorded(recorded: Seq<(String, String)>, current: Seq<(String, String)>) -> Seq<Seq<char>>
    decreases recorded.len(),
{
    if recorded.len() == 0 {
        seq![]
    } else {
        let p = changed_recorded(recorded.drop_last(), current);
        let e = recorded.last();
        if lookup(current, e.0@) != Some(e.1@) {
            p.push(e.0@)
        } else {
            p
        }
    }
}

/// The current types that were not recorded, in current order.
pub open spec fn new_types(recorded: Seq<(String, String)>, current: Seq<(String, String)>) -> Seq<Seq<char>>
    decreases current.len(),
{
    if current.len() == 0 {
        seq![]
    } else {
        let p = new_types(recorded, current.drop_last());
        if lookup(recorded, current.last().0@) is None {
            p.push(current.last().0@)
        } else {
            p
        }
    }
}

/// The changed types are, in record order, the recorded types whose current
/// hash differs or which are gone; the new types are, in current order, the
/// current types that were never recorded.
pub proof fn schema_changes_exact(recorded: Seq<(String, String)>, current: Seq<(String, String)>)
    ensures
        changed_recorded(recorded, current) == recorded.filter(
            |e: (String, String)| lookup(current, e.0@) != Some(e.1@),
        ).map_values(|e: (String, String)| e.0@),
        new_types(recorded, current) == current.filter(
            |e: (String, String)| lookup(recorded, e.0@) is None,
        ).map_values(|e: (String, String)| e.0@),
    decreases recorded.len() + current.len(),
{
    reveal(Seq::filter);
    if recorded.len() > 0 {
        schema_changes_exact(recorded.drop_last(), current);
    }
    if current.len() > 0 {
        schema_changes_exact(recorded, current.drop_last());
    }
}

/// The index is stale: built from another commit or other schemas.
pub open spec fn stale_spec(state: IndexState, head: Seq<char>, schema_hash: Seq<char>) -> bool {
    state.commit@ != head || state.schema_hash@ != schema_hash
}

/// Whether an index built with `state` is stale at commit `head` with
/// schemas hashing to `schema_hash`.
pub fn is_stale(state: &IndexState, head: &str, schema_hash: &str) -> (r: bool)
    ensures
        r == stale_spec(*state, head@, schema_hash@),
{
    !seq_eq(&chars_of(state.commit.as_str()), &chars_of(head)) || !seq_eq(
        &chars_of(state.schema_hash.as_str()),
        &chars_of(schema_hash),
    )
}

/// The value of the first pair with this key.
fn lookup_exec(pairs: &Vec<(String, String)>, key: &[char]) -> (r: Option<Vec<char>>)
    ensures
        match lookup(pairs@, key@) {
            Some(v) => r matches Some(x) && x@ == v,
            None => r is None,
        },
{
    let mut i: usize = 0;
    assert(pairs@.subrange(0, pairs@.len() as int) == pairs@);
    while i < pairs.len()
        invariant
            i <= pairs@.len(),
            lookup(pairs@, key@) == lookup(pairs@.subrange(i as int, pairs@.len() as int), key@),
        decreases pairs.len() - i,
    {
        assert(pairs@.subrange(i as int, pairs@.len() as int).drop_first() == pairs@.subrange(i + 1, pairs@.len() as int));
        if seq_eq(&chars_of(pairs[i].0.as_str()), key) {
            return Some(chars_of(pairs[i].1.as_str()));
        }
        i = i + 1;
    }
    None
}

/// Decide how far an index is behind: no record means a full rebuild; the
/// same commit and schema hash mean current; the same schema hash means only
/// the commit moved; otherwise the types whose schema hash changed, appeared
/// or disappeared, sorted (a full rebuild when there are none).
pub fn staleness_kind(
    state: Option<&IndexState>,
    head: &str,
    schema_hash: &str,
    current_types: &Vec<(String, String)>,
) -> (r: StalenessKind)
    ensures
        match state {
            None => r is FullRebuildNeeded,
            Some(s) => if !stale_spec(*s, head@, schema_hash@) {
                r is Current
            } else if s.schema_hash@ == schema_hash@ {
                r is CommitChanged
            } else {
                let changed = changed_recorded(s.types@, current_types@) + new_types(s.types@, current_types@);
                if changed.len() == 0 {
                    r is FullRebuildNeeded
                } else {
                    r matches StalenessKind::TypesChanged(v) && strings_sorted(v@) && texts(v@).to_multiset()
                        == changed.to_multiset()
                }
            },
        },
{
    let s = match state {
        None => {
            return StalenessKind::FullRebuildNeeded;
        },
        Some(s) => s,
    };
    if !is_stale(s, head, schema_hash) {
        return StalenessKind::Current;
    }
    if seq_eq(&chars_of(s.schema_hash.as_str()), &chars_of(schema_hash)) {
        return StalenessKind::CommitChanged;
    }
    let mut changed: Vec<String> = Vec::new();
    let mut i: usize = 0;
    while i < s.types.len()
        invariant
            i <= s.types@.len(),
            texts(changed@) == changed_recorded(s.types@.subrange(0, i as int), current_types@),
        decreases s.types.len() - i,
    {
        let name = chars_of(s.types[i].0.as_str());
        let hash = chars_of(s.types[i].1.as_str());
        assert(s.types@.subrange(0, i + 1).drop_last() == s.types@.subrange(0, i as int));
        let same = match lookup_exec(current_types, &name) {
            Some(h) => seq_eq(&h, &hash),
            None => false,
        };
        if !same {
            let ghost before = changed@;
            changed.push(s.types[i].0.clone());
            assert(texts(changed@) == texts(before).push(name@));
        }
        i = i + 1;
    }
    assert(s.types@.subrange(0, s.types@.len() as int) == s.types@);
    let ghost first = texts(changed@);
    let mut j: usize = 0;
    while j < current_types.len()
        invariant
            j <= current_types@.len(),
            first == changed_recorded(s.types@, current_types@),
            texts(changed@) == first + new_types(s.types@, current_types@.subrange(0, j as int)),
        decreases current_types.len() - j,
    {
        let name = chars_of(current_types[j].0.as_str());
        let ghost pre = new_types(s.types@, current_types@.subrange(0, j as int));
        assert(current_types@.subrange(0, j + 1).drop_last() == current_types@.subrange(0, j as int));
        if lookup_exec(&s.types, &name).is_none() {
            let ghost before = changed@;
            changed.push(current_types[j].0.clone());
            assert(texts(changed@) == texts(before).push(name@));
            assert(first + pre.push(name@) == (first + pre).push(name@));
        }
        j = j + 1;
    }
    assert(current_types@.subrange(0, current_types@.len() as int) == current_types@);
    if changed.len() == 0 {
        return StalenessKind::FullRebuildNeeded;
    }
    let ghost unsorted = changed@;
    let sorted = sort_strings(changed);
    StalenessKind::TypesChanged(sorted)
}

/// What mounting a wiki does to its search index.
#[derive(Debug, Clone)]
pub enum MountAction {
    /// Build it: there is no readable status, or it was never built.
    FirstBuild,
    /// Leave it as it is.
    Keep,
    /// Index the commits since the one last indexed.
    Update,
    /// Rebuild the pages of these types (a full rebuild if that fails).
    RebuildTypes(Vec<String>),
    /// Rebuild it whole.
    Rebuild,
    /// Leave it, and warn that it is stale.
    WarnStale,
}

/// Decide what mounting a wiki does to its index, from its status (`None`
/// where it could not be read), the `index.auto_rebuild` setting, and the
/// outcome of the staleness check (`None` where the check failed; read only
/// for a built index with automatic rebuilds on).
pub fn mount_action(status: Option<&IndexStatus>, auto_rebuild: bool, staleness: Option<StalenessKind>) -> (a: MountAction)
    ensures
        match status {
            None => a is FirstBuild,
            Some(s) => if s.built is None {
                a is FirstBuild
            } else if auto_rebuild {
                match staleness {
                    None => a is Rebuild,
                    Some(StalenessKind::Current) => a is Keep,
                    Some(StalenessKind::CommitChanged) => a is Update,
                    Some(StalenessKind::TypesChanged(t)) => a matches MountAction::RebuildTypes(u) && u@ == t@,
                    Some(StalenessKind::FullRebuildNeeded) => a is Rebuild,
                }
            } else if s.stale {
                a is WarnStale
            } else {
                a is Keep
            },
        },
{
    let s = match status {
        None => {
            return MountAction::FirstBuild;
        },
        Some(s) => s,
    };
    if s.built.is_none() {
        return MountAction::FirstBuild;
    }
    if auto_rebuild {
        match staleness {
            None => MountAction::Rebuild,
            Some(StalenessKind::Current) => MountAction::Keep,
            Some(StalenessKind::CommitChanged) => MountAction::Update,
            Some(StalenessKind::TypesChanged(t)) => MountAction::RebuildTypes(t),
            Some(StalenessKind::FullRebuildNeeded) => MountAction::Rebuild,
        }
    } else if s.stale {
        MountAction::WarnStale
    } else {
        MountAction::Keep
    }
}

/// The status of a wiki's index from what its last build recorded (`None`
/// when there is no readable record), the repository's current commit and
/// schema hash, and whether the index opens and answers a query. Without a
/// record the index counts as stale and empty.
pub fn status_of(
    wiki: &str,
    path: &str,
    state: Option<&IndexState>,
    head: &str,
    schema_hash: &str,
    openable: bool,
    queryable: bool,
) -> (r: IndexStatus)
    ensures
        r.wiki@ == wiki@,
        r.path@ == path@,
        r.openable == openable,
        r.queryable == queryable,
        match state {
            Some(s) => r.built == Some(s.built) && r.pages == s.pages && r.sections == s.sections && r.stale
                == stale_spec(*s, head@, schema_hash@),
            None => r.built is None && r.pages == 0 && r.sections == 0 && r.stale,
        },
{
    let (built, pages, sections, stale) = match state {
        Some(s) => (Some(s.built.clone()), s.pages, s.sections, is_stale(s, head, schema_hash)),
        None => (None, 0, 0, true),
    };
    IndexStatus {
        wiki: string_of(&chars_of(wiki)),
        path: string_of(&chars_of(path)),
        built,
        pages,
        sections,
        stale,
        openable,
        queryable,
    }
}

} // verus!
