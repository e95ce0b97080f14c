//! Ingest: the line-ending normalization of incoming files, and the options
//! and report of an ingest run.
use vstd::prelude::*;

use crate::text::{chars_of, string_of};

verus! {

/// What an ingest run is asked to do.
#[derive(Debug, Clone, Copy)]
pub struct IngestOptions {
    /// Validate only; write and commit nothing.
    pub dry_run: bool,
    /// Commit the ingested files when they validate.
    pub auto_commit: bool,
}

/// What an ingest run did.
#[derive(Debug, Clone)]
pub struct IngestReport {
    pub pages_validated: usize,
    pub assets_found: usize,
    pub warnings: Vec<String>,
    pub commit: String,
}

/// `s` with each CRLF and each lone CR made LF (`replace("\r\n", "\n")`
/// then `replace('\r', "\n")`: a CR followed by LF is one line ending).
pub open spec fn normalized(s: Seq<char>) -> Seq<char>
    decreases s.len(),
{
    if s.len() == 0 {
        seq![]
    } else if s[0] == '\r' && s.len() >= 2 && s[1] == '\n' {
        seq!['\n'] + normalized(s.subrange(2, s.len() as int))
    } else if s[0] == '\r' {
        seq!['\n'] + normalized(s.drop_first())
    } else {
        seq![s[0]] + normalized(s.drop_first())
    }
}

/// Normalize line endings: CRLF → LF, lone CR → LF.
pub fn normalize_line_endings(input: &str) -> (r: String)
    ensures
        r@ == normalized(input@),
{
    let s = chars_of(input);
    let mut out: Vec<char> = Vec::new();
    let mut i: usize = 0;
    assert(s@.subrange(0, s@.len() as int) == s@);
    while i < s.len()
        invariant
            i <= s@.len(),
            s@ == input@,
            normalized(input@) == out@ + normalized(s@.subrange(i as int, s@.len() as int)),
        decreases s.len() - i,
    {
        let ghost rest = s@.subrange(i as int, s@.len() as int);
        let c = s[i];
        if c == '\r' && i + 1 < s.len() && s[i + 1] == '\n' {
            assert(rest.subrange(2, rest.len() as int) == s@.subrange(i + 2, s@.len() as int));
            out.push('\n');
            i = i + 2;
        } else {
            assert(rest.drop_first() == s@.subrange(i + 1, s@.len() as int));
            if c == '\r' {
                out.push('\n');
            } else {
                out.push(c);
            }
            i = i + 1;
        }
    }
    string_of(&out)
}

/// The number of times `c` occurs in `s`.
pub open spec fn count_char(s: Seq<char>, c: char) -> nat
    decreases s.len(),
{
    if s.len() == 0 {
        0
    } else {
        (if s[0] == c {
            1nat
        } else {
            0nat
        }) + count_char(s.drop_first(), c)
    }
}

/// The number of CRLF pairs in `s`.
pub open spec fn crlf_count(s: Seq<char>) -> nat
    decreases s.len(),
{
    if s.len() < 2 {
        0
    } else {
        (if s[0] == '\r' && s[1] == '\n' {
            1nat
        } else {
            0nat
        }) + crlf_count(s.drop_first())
    }
}

/// `s` without the characters `c` and `d`.
pub open spec fn without(s: Seq<char>, c: char, d: char) -> Seq<char>
    decreases s.len(),
{
    if s.len() == 0 {
        seq![]
    } else if s[0] == c || s[0] == d {
        without(s.drop_first(), c, d)
    } else {
        seq![s[0]] + without(s.drop_first(), c, d)
    }
}

proof fn lemma_no_cr_fixed(s: Seq<char>)
    requires
        count_char(s, '\r') == 0,
    ensures
        normalized(s) == s,
    decreases s.len(),
{
    if s.len() > 0 {
        lemma_no_cr_fixed(s.drop_first());
        assert(s =~= seq![s[0]] + s.drop_first());
    }
}

/// What normalizing line endings keeps and changes: no CR is left;
/// normalizing again changes nothing; each CRLF pair and each lone CR
/// becomes one LF, so the LF count is the old LF count plus the CR count
/// less the CRLF pairs; and apart from line breaks the text is unchanged.
pub proof fn normalized_laws(s: Seq<char>)
    ensures
        count_char(normalized(s), '\r') == 0,
        normalized(normalized(s)) == normalized(s),
        count_char(normalized(s), '\n') + crlf_count(s) == count_char(s, '\n') + count_char(s, '\r'),
        without(normalized(s), '\n', '\n') == without(s, '\r', '\n'),
    decreases s.len(),
{
    if s.len() > 0 {
        let t1 = s.drop_first();
        normalized_laws(t1);
        if s[0] == '\r' && s.len() >= 2 && s[1] == '\n' {
            let t2 = s.subrange(2, s.len() as int);
            assert(t2 =~= t1.drop_first());
            normalized_laws(t2);
            let n = normalized(s);
            assert(n == seq!['\n'] + normalized(t2));
            assert(n.drop_first() =~= normalized(t2));
            assert(t1[0] == '\n');
        } else {
            let n = normalized(s);
            assert(n.drop_first() =~= normalized(t1));
            if s[0] == '\r' && t1.len() > 0 {
                assert(t1[0] != '\n');
            }
        }
        lemma_no_cr_fixed(normalized(s));
    }
}

} // verus!
