//! The structural lint pass: orphan pages, missing concept stubs and active
//! contradictions, written up as a `LINT.md` page.
use vstd::prelude::*;

use crate::analysis::{Dimension, Status};
use crate::contradiction::ContradictionSummary;
use crate::links::texts;
use crate::text::{chars_of, concat, decimal, decimal_exec, push_chars, push_str, string_of};

verus! {

/// What a structural lint pass found.
#[derive(Debug, Clone)]
pub struct LintReport {
    /// Pages with no incoming links.
    pub orphan_pages: Vec<String>,
    /// Slugs referenced from other pages but not created yet.
    pub missing_stubs: Vec<String>,
    /// Contradiction pages whose status is `active` or `under-analysis`.
    pub active_contradictions: Vec<ContradictionSummary>,
}

/// The name of a dimension in a report: its variant name in lower case.
pub open spec fn dimension_name(d: Dimension) -> Seq<char> {
    match d {
        Dimension::Context => "context"@,
        Dimension::Time => "time"@,
        Dimension::Scale => "scale"@,
        Dimension::Methodology => "methodology"@,
        Dimension::OpenDispute => "opendispute"@,
    }
}

/// The name of a dimension in a report.
pub fn dimension_label(d: Dimension) -> (s: &'static str)
    ensures
        s@ == dimension_name(d),
{
    match d {
        Dimension::Context => "context",
        Dimension::Time => "time",
        Dimension::Scale => "scale",
        Dimension::Methodology => "methodology",
        Dimension::OpenDispute => "opendispute",
    }
}

/// A contradiction still awaiting enrichment.
pub open spec fn is_active(c: ContradictionSummary) -> bool {
    c.status == Status::Active || c.status == Status::UnderAnalysis
}

/// The contradictions that are `active` or `under-analysis`, in order.
pub open spec fn active_spec(all: Seq<ContradictionSummary>) -> Seq<ContradictionSummary>
    decreases all.len(),
{
    if all.len() == 0 {
        seq![]
    } else if is_active(all.last()) {
        active_spec(all.drop_last()).push(all.last())
    } else {
        active_spec(all.drop_last())
    }
}

fn copy_summary(c: &ContradictionSummary) -> (r: ContradictionSummary)
    ensures
        r == *c,
{
    ContradictionSummary {
        slug: c.slug.clone(),
        title: c.title.clone(),
        status: c.status,
        dimension: c.dimension,
        source_a: c.source_a.clone(),
        source_b: c.source_b.clone(),
    }
}

/// The contradictions still awaiting enrichment (`active` or
/// `under-analysis`), in order.
pub fn active_contradictions(all: &Vec<ContradictionSummary>) -> (r: Vec<ContradictionSummary>)
    ensures
        r@ == active_spec(all@),
{
    let mut r: Vec<ContradictionSummary> = Vec::new();
    let mut i: usize = 0;
    while i < all.len()
        invariant
            i <= all@.len(),
            r@ == active_spec(all@.take(i as int)),
        decreases all.len() - i,
    {
        proof {
            assert(all@.take(i + 1).drop_last() =~= all@.take(i as int));
            assert(all@.take(i + 1).last() == all@[i as int]);
        }
        let active = match all[i].status {
            Status::Active => true,
            Status::UnderAnalysis => true,
            Status::Resolved => false,
        };
        if active {
            r.push(copy_summary(&all[i]));
        }
        i = i + 1;
    }
    assert(all@.take(all@.len() as int) =~= all@);
    r
}

/// Exactly the contradictions that are `active` or `under-analysis` are
/// kept, in their order; resolved ones are dropped.
pub proof fn active_contradictions_exact(all: Seq<ContradictionSummary>)
    ensures
        active_spec(all) == all.filter(
            |c: ContradictionSummary| c.status == Status::Active || c.status == Status::UnderAnalysis,
        ),
    decreases all.len(),
{
    reveal(Seq::filter);
    if all.len() > 0 {
        active_contradictions_exact(all.drop_last());
    }
}

/// A list of slugs in a report: one code-formatted item each, or `_None._`.
pub open spec fn slug_list(slugs: Seq<Seq<char>>) -> Seq<char> {
    if slugs.len() == 0 {
        "_None._\n\n"@
    } else {
        concat(slugs.map_values(|s: Seq<char>| "- `"@ + s + "`\n"@)) + "\n"@
    }
}

/// The table row of a contradiction.
pub open spec fn contradiction_row(c: ContradictionSummary) -> Seq<char> {
    "| `"@ + c.slug@ + "` | "@ + c.title@ + " | "@ + dimension_name(c.dimension) + " | `"@ + c.source_a@ + "` | `"@
        + c.source_b@ + "` |\n"@
}

/// The table of contradictions, or `_None._`.
pub open spec fn contradiction_table(cs: Seq<ContradictionSummary>) -> Seq<char> {
    if cs.len() == 0 {
        "_None._\n\n"@
    } else {
        "| Slug | Title | Dimension | Source A | Source B |\n"@ + "|------|-------|-----------|----------|----------|\n"@
            + concat(cs.map_values(|c: ContradictionSummary| contradiction_row(c))) + "\n"@
    }
}

/// The `LINT.md` page of a report generated on `today`.
pub open spec fn lint_md_spec(r: LintReport, today: Seq<char>) -> Seq<char> {
    "# Lint Report\n\n"@ + "_Generated: "@ + today + "_\n\n"@ + "## Orphans\n\n"@
        + "Pages with no inbound links. Consider adding cross-references or removing them.\n\n"@ + slug_list(
        texts(r.orphan_pages@),
    ) + "## Missing Stubs\n\n"@ + "Slugs referenced by other pages but not yet created on disk.\n\n"@ + slug_list(
        texts(r.missing_stubs@),
    ) + "## Active Contradictions\n\n"@
        + "Contradiction pages awaiting enrichment (`active` or `under-analysis`).\n\n"@ + contradiction_table(
        r.active_contradictions@,
    ) + "---\n\n_"@ + decimal(r.orphan_pages@.len()) + " orphan(s), "@ + decimal(r.missing_stubs@.len())
        + " missing stub(s), "@ + decimal(r.active_contradictions@.len()) + " active contradiction(s)._\n"@
}

/// Append a list of slugs.
fn push_slug_list(out: &mut Vec<char>, slugs: &Vec<String>)
    ensures
        final(out)@ == old(out)@ + slug_list(texts(slugs@)),
{
    if slugs.len() == 0 {
        push_str(out, "_None._\n\n");
        return;
    }
    let ghost start = out@;
    let ghost items = texts(slugs@).map_values(|s: Seq<char>| "- `"@ + s + "`\n"@);
    let mut k: usize = 0;
    assert(items.take(0) =~= Seq::<Seq<char>>::empty());
    while k < slugs.len()
        invariant
            k <= slugs@.len(),
            items == texts(slugs@).map_values(|s: Seq<char>| "- `"@ + s + "`\n"@),
            out@ == start + concat(items.take(k as int)),
        decreases slugs.len() - k,
    {
        let ghost before = out@;
        push_str(out, "- `");
        push_str(out, slugs[k].as_str());
        push_str(out, "`\n");
        proof {
            assert(items[k as int] == "- `"@ + slugs@[k as int]@ + "`\n"@);
            assert(out@ =~= before + items[k as int]);
            assert(items.take(k + 1).drop_last() =~= items.take(k as int));
            assert(items.take(k + 1).last() == items[k as int]);
        }
        k = k + 1;
    }
    assert(items.take(slugs@.len() as int) =~= items);
    push_str(out, "\n");
}

/// Append the table of contradictions.
fn push_contradiction_table(out: &mut Vec<char>, cs: &Vec<ContradictionSummary>)
    ensures
        final(out)@ == old(out)@ + contradiction_table(cs@),
{
    if cs.len() == 0 {
        push_str(out, "_None._\n\n");
        return;
    }
    push_str(out, "| Slug | Title | Dimension | Source A | Source B |\n");
    push_str(out, "|------|-------|-----------|----------|----------|\n");
    let ghost start = out@;
    let ghost rows = cs@.map_values(|c: ContradictionSummary| contradiction_row(c));
    let mut k: usize = 0;
    assert(rows.take(0) =~= Seq::<Seq<char>>::empty());
    while k < cs.len()
        invariant
            k <= cs@.len(),
            rows == cs@.map_values(|c: ContradictionSummary| contradiction_row(c)),
            out@ == start + concat(rows.take(k as int)),
        decreases cs.len() - k,
    {
        let ghost before = out@;
        let c = &cs[k];
        push_str(out, "| `");
        push_str(out, c.slug.as_str());
        push_str(out, "` | ");
        push_str(out, c.title.as_str());
        push_str(out, " | ");
        push_str(out, dimension_label(c.dimension));
        push_str(out, " | `");
        push_str(out, c.source_a.as_str());
        push_str(out, "` | `");
        push_str(out, c.source_b.as_str());
        push_str(out, "` |\n");
        proof {
            assert(rows[k as int] == contradiction_row(*c));
            assert(out@ =~= before + rows[k as int]);
            assert(rows.take(k + 1).drop_last() =~= rows.take(k as int));
            assert(rows.take(k + 1).last() == rows[k as int]);
        }
        k = k + 1;
    }
    assert(rows.take(cs@.len() as int) =~= rows);
    push_str(out, "\n");
}

/// The `LINT.md` page of a report generated on `today` (a `YYYY-MM-DD`
/// date): the orphans, the missing stubs and the active contradictions,
/// each section `_None._` when empty, then a line of counts.
pub fn lint_report_md_at(r: &LintReport, today: &str) -> (out: String)
    ensures
        out@ == lint_md_spec(*r, today@),
{
    let mut out: Vec<char> = Vec::new();
    push_str(&mut out, "# Lint Report\n\n");
    push_str(&mut out, "_Generated: ");
    push_str(&mut out, today);
    push_str(&mut out, "_\n\n");
    push_str(&mut out, "## Orphans\n\n");
    push_str(&mut out, "Pages with no inbound links. Consider adding cross-references or removing them.\n\n");
    push_slug_list(&mut out, &r.orphan_pages);
    push_str(&mut out, "## Missing Stubs\n\n");
    push_str(&mut out, "Slugs referenced by other pages but not yet created on disk.\n\n");
    push_slug_list(&mut out, &r.missing_stubs);
    push_str(&mut out, "## Active Contradictions\n\n");
    push_str(&mut out, "Contradiction pages awaiting enrichment (`active` or `under-analysis`).\n\n");
    push_contradiction_table(&mut out, &r.active_contradictions);
    push_str(&mut out, "---\n\n_");
    push_chars(&mut out, &decimal_exec(r.orphan_pages.len() as u64));
    push_str(&mut out, " orphan(s), ");
    push_chars(&mut out, &decimal_exec(r.missing_stubs.len() as u64));
    push_str(&mut out, " missing stub(s), ");
    push_chars(&mut out, &decimal_exec(r.active_contradictions.len() as u64));
    push_str(&mut out, " active contradiction(s)._\n");
    string_of(&out)
}

/// Today's date in UTC as `YYYY-MM-DD` (`chrono::Utc::now()`); the clock's
/// value is not stated.
#[verifier::external_body]
fn today_utc() -> (d: String) {
    chrono::Utc::now().format("%Y-%m-%d").to_string()
}

/// The `LINT.md` page of a report, generated today.
pub fn lint_report_md(r: &LintReport) -> (out: String)
    ensures
        exists|today: Seq<char>| out@ == lint_md_spec(*r, today),
{
    let today = today_utc();
    lint_report_md_at(r, today.as_str())
}

/// The commit message of a lint pass on `date`.
pub open spec fn lint_message_spec(r: LintReport, date: Seq<char>) -> Seq<char> {
    "lint: "@ + date + " \u{2014} "@ + decimal(r.orphan_pages@.len()) + " orphans, "@ + decimal(
        r.missing_stubs@.len(),
    ) + " stubs, "@ + decimal(r.active_contradictions@.len()) + " active contradictions"@
}

/// The commit message of a lint pass on `date`, with its counts.
pub fn lint_commit_message(r: &LintReport, date: &str) -> (m: String)
    ensures
        m@ == lint_message_spec(*r, date@),
{
    let mut out: Vec<char> = Vec::new();
    push_str(&mut out, "lint: ");
    push_str(&mut out, date);
    push_str(&mut out, " \u{2014} ");
    push_chars(&mut out, &decimal_exec(r.orphan_pages.len() as u64));
    push_str(&mut out, " orphans, ");
    push_chars(&mut out, &decimal_exec(r.missing_stubs.len() as u64));
    push_str(&mut out, " stubs, ");
    push_chars(&mut out, &decimal_exec(r.active_contradictions.len() as u64));
    push_str(&mut out, " active contradictions");
    string_of(&out)
}

} // verus!
