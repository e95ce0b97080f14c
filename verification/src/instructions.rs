//! The instructions the engine gives agents: how to drive each workflow
//! with the wiki's tools, one `## <name>-workflow` section per workflow.
use vstd::prelude::*;

use crate::text::{chars_of, find_from, find_from_exec, push_str, slice, string_of};

verus! {

/// The instructions document.
pub const INSTRUCTIONS: &'static str = "# llm-wiki — instructions for agents

The wiki is a git-backed Markdown repository. The engine manages files, git,
search and the concept graph; every judgement is yours. Knowledge enters the
wiki through `analysis.json`: a document you write after reading a source,
listing its claims, concepts, suggested pages and contradictions.

## help-workflow

Commands:

- `help` — this list.
- `init` — create a wiki space and register it.
- `ingest` — integrate a source through an `analysis.json` document.
- `research` — answer a question from what the wiki already holds.
- `lint` — audit the wiki's structure and record the findings.
- `contradiction` — enrich a contradiction between two sources.

## init-workflow

1. Call `wiki_spaces_create` with the path and the name of the new wiki.
2. Check the created structure (`inbox/`, `raw/`, `wiki/`, `schemas/`).
3. Make it the default wiki when it is the only one.

## ingest-workflow

Two steps, so that nothing is written twice:

1. Step one — call `wiki_context` with the source's main concepts and read
   the pages it returns, so that you update existing pages instead of
   duplicating them and see contradictions with what the wiki holds.
2. Step two — write `analysis.json` (source, doc_type, title, language,
   claims, concepts, key_quotes, data_gaps, suggested_pages, contradictions)
   and call `wiki_ingest` with it. Each suggested page is created, updated or
   appended to; each contradiction becomes a page of its own.

## research-workflow

1. Call `wiki_context` with the question to find the relevant pages.
2. Read them with `wiki_content_read`, following `sources` and `concepts`.
3. Answer from the pages, citing their slugs; say what the wiki does not
   cover rather than filling the gap.

## lint-workflow

1. Call `wiki_lint` (all rules, or the ones asked for).
2. Write the findings to `LINT.md` at the wiki root, grouped by page, with
   the rule and the fix each one needs.
3. Fix what is mechanical; leave judgement calls in `LINT.md`.

## contradiction-workflow

1. Read both source pages and the contradiction page.
2. Decide the dimension (context, time, scale, methodology, open dispute).
3. Write the `epistemic_value`: what the tension reveals that neither
   source captures alone. Never delete a contradiction; when it is settled,
   set its status to resolved and document the resolution.
";

/// The instructions document.
pub fn instructions() -> (s: &'static str)
    ensures
        s@ == INSTRUCTIONS@,
{
    INSTRUCTIONS
}

/// The section of `text` that starts with the header `h` and runs to the
/// next `\n## ` after the header (or to the end).
pub open spec fn section_spec(text: Seq<char>, h: Seq<char>) -> Option<Seq<char>> {
    match find_from(text, h, 0) {
        Some(start) => {
            let section = text.subrange(start, text.len() as int);
            match find_from(section, "\n## "@, h.len() as int) {
                Some(end) => Some(section.subrange(0, end)),
                None => Some(section),
            }
        },
        None => None,
    }
}

/// The `## <name>-workflow` section of the instructions.
pub fn workflow_section(name: &str) -> (r: Option<String>)
    ensures
        match section_spec(INSTRUCTIONS@, "## "@ + name@ + "-workflow"@) {
            Some(s) => r matches Some(t) && t@ == s,
            None => r is None,
        },
{
    let text = chars_of(INSTRUCTIONS);
    let mut h: Vec<char> = Vec::new();
    push_str(&mut h, "## ");
    push_str(&mut h, name);
    push_str(&mut h, "-workflow");
    match find_from_exec(&text, &h, 0) {
        Some(start) => {
            let section = slice(&text, start, text.len());
            let next = chars_of("\n## ");
            match find_from_exec(&section, &next, h.len()) {
                Some(end) => Some(string_of(&slice(&section, 0, end))),
                None => Some(string_of(&section)),
            }
        },
        None => None,
    }
}

} // verus!
