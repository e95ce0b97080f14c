//! Contradiction pages: their summaries and the frontmatter block they are
//! read from.
use vstd::prelude::*;

use crate::analysis::{Dimension, Status};
use crate::text::{chars_of, find_from, find_from_exec, slice, starts_with, starts_with_str, string_of};

verus! {

/// A lightweight summary of a contradiction page for listing and lint reports.
#[derive(Debug, Clone, PartialEq)]
pub struct ContradictionSummary {
    /// Page slug (e.g. `contradictions/moe-scaling-efficiency`).
    pub slug: String,
    /// Contradiction title from frontmatter.
    pub title: String,
    /// Current lifecycle status.
    pub status: Status,
    /// The dimension along which the claims contradict.
    pub dimension: Dimension,
    /// Slug of the source page for claim A.
    pub source_a: String,
    /// Slug of the source page for claim B.
    pub source_b: String,
}

/// Why a page has no frontmatter block to read.
#[derive(Debug, Clone, Copy, PartialEq, Eq, Structural)]
pub enum YamlBlockError {
    /// The page does not start with `---\n`.
    NoBlock,
    /// No `\n---\n` closes the block.
    NotClosed,
}

impl YamlBlockError {
    /// The human-readable message.
    pub fn message(&self) -> (m: &'static str)
        ensures
            *self == YamlBlockError::NoBlock ==> m@ == "no frontmatter block"@,
            *self == YamlBlockError::NotClosed ==> m@ == "frontmatter not closed"@,
    {
        match self {
            YamlBlockError::NoBlock => "no frontmatter block",
            YamlBlockError::NotClosed => "frontmatter not closed",
        }
    }
}

/// The YAML between an opening `---\n` and the first `\n---\n` after it.
pub open spec fn yaml_block_spec(content: Seq<char>) -> Result<Seq<char>, YamlBlockError> {
    if !starts_with(content, "---\n"@) {
        Err(YamlBlockError::NoBlock)
    } else {
        let after = content.subrange("---\n"@.len() as int, content.len() as int);
        match find_from(after, "\n---\n"@, 0) {
            Some(end) => Ok(after.subrange(0, end)),
            None => Err(YamlBlockError::NotClosed),
        }
    }
}

/// Extract the raw YAML block from a frontmatter-delimited file.
pub fn yaml_block(content: &str) -> (r: Result<String, YamlBlockError>)
    ensures
        match yaml_block_spec(content@) {
            Ok(y) => r matches Ok(s) && s@ == y,
            Err(e) => r == Err::<String, YamlBlockError>(e),
        },
{
    let c = chars_of(content);
    if !starts_with_str(&c, "---\n") {
        return Err(YamlBlockError::NoBlock);
    }
    let open = chars_of("---\n");
    let after = slice(&c, open.len(), c.len());
    let close = chars_of("\n---\n");
    match find_from_exec(&after, &close, 0) {
        Some(end) => Ok(string_of(&slice(&after, 0, end))),
        None => Err(YamlBlockError::NotClosed),
    }
}

} // verus!
