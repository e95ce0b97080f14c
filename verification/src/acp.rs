//! Agent sessions: routing a prompt to a workflow, and the bookkeeping of
//! session runs.
use vstd::prelude::*;

use crate::text::{
    chars_of, decimal, decimal_exec, is_whitespace, is_ws, ltrim, ltrim_start, push_chars, push_str,
    slice, starts_with, starts_with_str, string_of,
};

verus! {

/// An active agent session tracking identity and execution state.
#[derive(Debug, Clone)]
pub struct AcpSession {
    /// Unique session identifier assigned at creation.
    pub id: String,
    /// Optional human-readable label for the session.
    pub label: Option<String>,
    /// Wiki name associated with the session, if any.
    pub wiki: Option<String>,
    /// Unix timestamp (milliseconds) when the session was created.
    pub created_at: u64,
    /// ID of the currently executing tool run, if any.
    pub active_run: Option<String>,
}

/// The first white-space position of `s` at or after `i`.
pub open spec fn first_ws(s: Seq<char>, i: int) -> Option<int>
    decreases s.len() - i,
{
    if i < 0 || i >= s.len() {
        None
    } else if is_ws(s[i]) {
        Some(i)
    } else {
        first_ws(s, i + 1)
    }
}

/// The workflow and text of a prompt: `llm-wiki:<workflow> <text>` names
/// the workflow (leading white space after the colon skipped; the text
/// starts after the white space that ends the name); any other prompt goes
/// to `research` whole.
pub open spec fn dispatch_spec(prompt: Seq<char>) -> (Seq<char>, Seq<char>) {
    if starts_with(prompt, "llm-wiki:"@) {
        let rest = ltrim(prompt.subrange("llm-wiki:"@.len() as int, prompt.len() as int));
        match first_ws(rest, 0) {
            Some(p) => (rest.subrange(0, p), ltrim(rest.subrange(p, rest.len() as int))),
            None => (rest, seq![]),
        }
    } else {
        ("research"@, prompt)
    }
}

/// Parse `llm-wiki:<workflow> <text>`, or route the whole prompt to the
/// `research` workflow.
pub fn dispatch_workflow(prompt: &str) -> (r: (String, String))
    ensures
        r.0@ == dispatch_spec(prompt@).0,
        r.1@ == dispatch_spec(prompt@).1,
{
    let p = chars_of(prompt);
    if !starts_with_str(&p, "llm-wiki:") {
        return (string_of(&chars_of("research")), string_of(&p));
    }
    let prefix = chars_of("llm-wiki:");
    let after = slice(&p, prefix.len(), p.len());
    let k = ltrim_start(&after);
    let rest = slice(&after, k, after.len());
    assert(after@ == prompt@.subrange("llm-wiki:"@.len() as int, prompt@.len() as int));
    let mut i: usize = 0;
    while i < rest.len()
        invariant
            i <= rest@.len(),
            first_ws(rest@, 0) == first_ws(rest@, i as int),
            starts_with(prompt@, "llm-wiki:"@),
            rest@ == ltrim(prompt@.subrange("llm-wiki:"@.len() as int, prompt@.len() as int)),
        decreases rest.len() - i,
    {
        if is_whitespace(rest[i]) {
            let workflow = slice(&rest, 0, i);
            let tail = slice(&rest, i, rest.len());
            let t = ltrim_start(&tail);
            let text = slice(&tail, t, tail.len());
            return (string_of(&workflow), string_of(&text));
        }
        i = i + 1;
    }
    (string_of(&rest), String::new())
}

/// The first session with this id.
pub open spec fn session_index(sessions: Seq<AcpSession>, id: Seq<char>, i: int) -> Option<int>
    decreases sessions.len() - i,
{
    if i < 0 || i >= sessions.len() {
        None
    } else if sessions[i].id@ == id {
        Some(i)
    } else {
        session_index(sessions, id, i + 1)
    }
}

/// No two sessions share an id (the sessions are a map keyed by id).
pub open spec fn ids_unique(sessions: Seq<AcpSession>) -> bool {
    forall|i: int, j: int| 0 <= i < j < sessions.len() ==> sessions[i].id@ != sessions[j].id@
}

/// Clear the active run of the session with this id (no change when there
/// is none). The sessions keep their ids, so they stay unique.
pub fn clear_active_run(sessions: &mut Vec<AcpSession>, session_id: &str)
    requires
        ids_unique(old(sessions)@),
    ensures
        ids_unique(final(sessions)@),
        match session_index(old(sessions)@, session_id@, 0) {
            Some(k) => final(sessions)@ == old(sessions)@.update(
                k,
                AcpSession { active_run: None, ..old(sessions)@[k] },
            ),
            None => final(sessions)@ == old(sessions)@,
        },
{
    let id = chars_of(session_id);
    let mut i: usize = 0;
    while i < sessions.len()
        invariant
            i <= sessions@.len(),
            id@ == session_id@,
            sessions@ == old(sessions)@,
            ids_unique(old(sessions)@),
            session_index(old(sessions)@, session_id@, 0) == session_index(old(sessions)@, session_id@, i as int),
        decreases sessions.len() - i,
    {
        if crate::text::seq_eq(&chars_of(sessions[i].id.as_str()), &id) {
            let mut s = sessions.remove(i);
            s.active_run = None;
            sessions.insert(i, s);
            assert(sessions@ == old(sessions)@.update(i as int, AcpSession { active_run: None, ..old(sessions)@[i as int] }));
            assert forall|a: int, b: int| 0 <= a < b < sessions@.len() implies sessions@[a].id@ != sessions@[b].id@ by {
                assert(sessions@[a].id == old(sessions)@[a].id);
                assert(sessions@[b].id == old(sessions)@[b].id);
            }
            return;
        }
        i = i + 1;
    }
}

/// A signed number in decimal.
pub open spec fn signed_decimal(n: int) -> Seq<char> {
    if n < 0 {
        "-"@ + decimal((-n) as nat)
    } else {
        decimal(n as nat)
    }
}

/// A tool-run id from workflow name, step name and a millisecond timestamp:
/// `<workflow>-<step>-<millis>`.
pub fn make_tool_id_at(workflow: &str, step: &str, millis: i64) -> (r: String)
    ensures
        r@ == workflow@ + "-"@ + step@ + "-"@ + signed_decimal(millis as int),
{
    let mut out: Vec<char> = Vec::new();
    push_str(&mut out, workflow);
    push_str(&mut out, "-");
    push_str(&mut out, step);
    push_str(&mut out, "-");
    if millis < 0 {
        push_str(&mut out, "-");
        let m: u64 = if millis == i64::MIN { 9223372036854775808u64 } else { (-millis) as u64 };
        let d = decimal_exec(m);
        push_chars(&mut out, &d);
    } else {
        let d = decimal_exec(millis as u64);
        push_chars(&mut out, &d);
    }
    string_of(&out)
}

/// The current time in milliseconds since the epoch
/// (`chrono::Utc::now().timestamp_millis()`); the clock's value is not
/// stated.
#[verifier::external_body]
fn now_millis() -> (t: i64) {
    chrono::Utc::now().timestamp_millis()
}

/// A tool-run id stamped with the current time.
pub fn make_tool_id(workflow: &str, step: &str) -> (r: String)
    ensures
        exists|t: i64| r@ == workflow@ + "-"@ + step@ + "-"@ + signed_decimal(t as int),
{
    let t = now_millis();
    make_tool_id_at(workflow, step, t)
}

/// Why a new session is refused.
#[derive(Debug, Clone, Copy, PartialEq, Eq, Structural)]
pub enum SessionError {
    /// As many sessions as `acp.max_sessions` are open.
    LimitReached(usize),
}

impl SessionError {
    /// The human-readable message.
    pub fn message(&self) -> (m: String)
        ensures
            self matches SessionError::LimitReached(n) ==> m@ == "Session limit reached (max: "@ + decimal(n as nat)
                + ")"@,
    {
        let mut out: Vec<char> = Vec::new();
        match self {
            SessionError::LimitReached(n) => {
                push_str(&mut out, "Session limit reached (max: ");
                push_chars(&mut out, &decimal_exec(*n as u64));
                push_str(&mut out, ")");
            },
        }
        string_of(&out)
    }
}

/// The id of a session opened at `millis` milliseconds: `session-<millis>`.
pub fn session_id_at(millis: i64) -> (r: String)
    ensures
        r@ == "session-"@ + signed_decimal(millis as int),
{
    let mut out: Vec<char> = Vec::new();
    push_str(&mut out, "session-");
    if millis < 0 {
        push_str(&mut out, "-");
        let m: u64 = if millis == i64::MIN { 9223372036854775808u64 } else { (-millis) as u64 };
        push_chars(&mut out, &decimal_exec(m));
    } else {
        push_chars(&mut out, &decimal_exec(millis as u64));
    }
    string_of(&out)
}

/// Open a session at `millis` milliseconds (created at `created_at`), for
/// `wiki` when the client names one: refused when `max_sessions` sessions
/// are open; otherwise a session `session-<millis>` with no label and no
/// run is stored under its id (replacing one with the same id) and its id
/// is returned.
pub fn open_session(
    sessions: &mut Vec<AcpSession>,
    max_sessions: usize,
    millis: i64,
    created_at: u64,
    wiki: Option<String>,
) -> (r: Result<String, SessionError>)
    requires
        ids_unique(old(sessions)@),
    ensures
        ids_unique(final(sessions)@),
        old(sessions)@.len() >= max_sessions ==> r == Err::<String, SessionError>(SessionError::LimitReached(max_sessions))
            && final(sessions)@ == old(sessions)@,
        old(sessions)@.len() < max_sessions ==> (r matches Ok(id) && id@ == "session-"@ + signed_decimal(millis as int)
            && {
            let made = AcpSession { id: id, label: None, wiki: wiki, created_at: created_at, active_run: None };
            match session_index(old(sessions)@, id@, 0) {
                Some(k) => final(sessions)@ == old(sessions)@.update(k, made),
                None => final(sessions)@ == old(sessions)@.push(made),
            }
        }),
{
    if sessions.len() >= max_sessions {
        return Err(SessionError::LimitReached(max_sessions));
    }
    let id = session_id_at(millis);
    let idc = chars_of(id.as_str());
    let ghost w = wiki;
    let made = AcpSession { id: id.clone(), label: None, wiki, created_at, active_run: None };
    let ghost mg = AcpSession { id: id, label: None, wiki: w, created_at: created_at, active_run: None };
    assert(made == mg);
    let mut i: usize = 0;
    while i < sessions.len()
        invariant
            i <= sessions@.len(),
            idc@ == id@,
            made.id@ == id@,
            made == mg,
            id@ == "session-"@ + signed_decimal(millis as int),
            mg == (AcpSession { id: id, label: None, wiki: wiki, created_at: created_at, active_run: None }),
            sessions@ == old(sessions)@,
            old(sessions)@.len() < max_sessions,
            ids_unique(old(sessions)@),
            session_index(old(sessions)@, id@, 0) == session_index(old(sessions)@, id@, i as int),
        decreases sessions.len() - i,
    {
        if crate::text::seq_eq(&chars_of(sessions[i].id.as_str()), &idc) {
            let ghost oi = old(sessions)@[i as int];
            assert(oi.id@ == id@);
            assert(session_index(old(sessions)@, id@, i as int) == Some(i as int));
            sessions.set(i, made);
            assert forall|a: int, b: int| 0 <= a < b < sessions@.len() implies sessions@[a].id@ != sessions@[b].id@ by {
                if a != i && b != i {
                    assert(sessions@[a] == old(sessions)@[a] && sessions@[b] == old(sessions)@[b]);
                } else if a == i {
                    assert(sessions@[b] == old(sessions)@[b]);
                } else {
                    assert(sessions@[a] == old(sessions)@[a]);
                }
            }
            return Ok(id);
        }
        i = i + 1;
    }
    sessions.push(made);
    proof {
        assert forall|a: int, b: int| 0 <= a < b < sessions@.len() implies sessions@[a].id@ != sessions@[b].id@ by {
            if b == sessions@.len() - 1 {
                assert(sessions@[a] == old(sessions)@[a]);
                lemma_session_index_none(old(sessions)@, id@, 0, a);
            } else {
                assert(sessions@[a] == old(sessions)@[a] && sessions@[b] == old(sessions)@[b]);
            }
        }
    }
    Ok(id)
}

proof fn lemma_session_index_none(sessions: Seq<AcpSession>, id: Seq<char>, i: int, a: int)
    requires
        0 <= i <= a < sessions.len(),
        session_index(sessions, id, i) is None,
    ensures
        sessions[a].id@ != id,
    decreases a - i,
{
    if i < a {
        lemma_session_index_none(sessions, id, i + 1, a);
    }
}

} // verus!
