//! Search and listing: results, facet counts, options, and their
//! plain-text rendering.
use vstd::prelude::*;

use crate::graph_llms::{counted, group_le, lemma_group_le_total_ordering, sort_counted};
use vstd::relations::sorted_by;
use crate::links::{contains_text, texts};
use crate::text::{
    is_ws, is_whitespace, chars_of, concat, decimal, decimal_exec, eq_str, lemma_str_lt_asym, lemma_str_lt_trans, push_chars, push_str, seq_eq,
    str_lt, str_lt_exec, string_of,
};

verus! {

/// Distribution counts for type, status, and tags, as (value, count) pairs.
#[derive(Debug, Clone)]
pub struct FacetCounts {
    /// Counts by page type (the `type` facet).
    pub page_type: Vec<(String, u64)>,
    pub status: Vec<(String, u64)>,
    pub tags: Vec<(String, u64)>,
}

impl FacetCounts {
    /// Whether no facet has any value.
    pub fn is_empty(&self) -> (r: bool)
        ensures
            r == (self.page_type@.len() == 0 && self.status@.len() == 0 && self.tags@.len() == 0),
    {
        self.page_type.len() == 0 && self.status.len() == 0 && self.tags.len() == 0
    }
}

/// Options of a `list` call.
#[derive(Debug, Clone)]
pub struct ListOptions {
    /// Only pages of this type (the `type` option).
    pub page_type: Option<String>,
    pub status: Option<String>,
    /// Page number, from 1.
    pub page: usize,
    pub page_size: usize,
    pub facets_top_tags: usize,
}

impl Default for ListOptions {
    fn default() -> (r: Self)
        ensures
            r.page_type is None,
            r.status is None,
            r.page == 1,
            r.page_size == 20,
            r.facets_top_tags == 10,
    {
        ListOptions { page_type: None, status: None, page: 1, page_size: 20, facets_top_tags: 10 }
    }
}


/// A single search result. The BM25 score and the confidence are carried as
/// the bit patterns of their `f32` values (`f32::to_bits`); nothing here
/// computes with them.
#[derive(Debug, Clone)]
pub struct PageRef {
    pub slug: String,
    pub uri: String,
    pub title: String,
    pub score_bits: u32,
    pub confidence_bits: u32,
    pub excerpt: Option<String>,
    pub summary: Option<String>,
}

/// The results of a search and their facet counts.
#[derive(Debug, Clone)]
pub struct SearchResult {
    pub results: Vec<PageRef>,
    pub facets: FacetCounts,
}

/// The summary of a result, empty when it has none.
pub open spec fn summary_text(s: Option<String>) -> Seq<char> {
    match s {
        Some(x) => x@,
        None => seq![],
    }
}

/// The line of one search result: a markdown link to it, then its summary
/// when it has a non-empty one.
pub open spec fn result_line(r: PageRef) -> Seq<char> {
    let summary = summary_text(r.summary);
    if summary.len() == 0 {
        "- ["@ + r.title@ + "]("@ + r.uri@ + ")\n"@
    } else {
        "- ["@ + r.title@ + "]("@ + r.uri@ + "): "@ + summary + "\n"@
    }
}

/// The text of a search result for a language model.
pub open spec fn search_llms_spec(results: Seq<PageRef>) -> Seq<char> {
    if results.len() == 0 {
        "No results found.\n"@
    } else {
        concat(results.map_values(|r: PageRef| result_line(r)))
    }
}

/// Render search results for a language model: one line per result with its
/// title, URI and summary (no score, no excerpt); `No results found.` when
/// there are none.
pub fn render_search_llms(result: &SearchResult) -> (out: String)
    ensures
        out@ == search_llms_spec(result.results@),
{
    if result.results.len() == 0 {
        return string_of(&crate::text::chars_of("No results found.\n"));
    }
    let ghost lines = result.results@.map_values(|r: PageRef| result_line(r));
    let mut out: Vec<char> = Vec::new();
    let mut k: usize = 0;
    assert(lines.take(0) =~= Seq::<Seq<char>>::empty());
    while k < result.results.len()
        invariant
            0 <= k <= result.results@.len(),
            lines == result.results@.map_values(|r: PageRef| result_line(r)),
            out@ == concat(lines.take(k as int)),
        decreases result.results.len() - k,
    {
        let ghost before = out@;
        let r = &result.results[k];
        let has_summary = match &r.summary {
            Some(x) => crate::text::chars_of(x.as_str()).len() > 0,
            None => false,
        };
        push_str(&mut out, "- [");
        push_str(&mut out, r.title.as_str());
        push_str(&mut out, "](");
        push_str(&mut out, r.uri.as_str());
        if has_summary {
            push_str(&mut out, "): ");
            match &r.summary {
                Some(x) => push_str(&mut out, x.as_str()),
                None => {},
            }
            push_str(&mut out, "\n");
        } else {
            push_str(&mut out, ")\n");
        }
        proof {
            assert(out@ =~= before + result_line(*r));
            assert(lines.take(k + 1).drop_last() =~= lines.take(k as int));
            assert(lines.take(k + 1).last() == lines[k as int]);
        }
        k = k + 1;
    }
    assert(lines.take(result.results.len() as int) =~= lines);
    string_of(&out)
}

/// The rendering for a language model has one line per result, in order:
/// with no results it is `No results found.`; otherwise it is exactly
/// `results.len()` lines, line `k` being `- [title](uri)` of result `k`
/// followed by `: summary` when that result has a non-empty summary.
pub proof fn search_llms_one_line_per_result(results: Seq<PageRef>)
    ensures
        results.len() == 0 ==> search_llms_spec(results) == "No results found.\n"@,
        results.len() > 0 ==> search_llms_spec(results) == concat(
            Seq::new(
                results.len(),
                |k: int|
                    "- ["@ + results[k].title@ + "]("@ + results[k].uri@ + match results[k].summary {
                        Some(s) => if s@.len() > 0 {
                            "): "@ + s@ + "\n"@
                        } else {
                            ")\n"@
                        },
                        None => ")\n"@,
                    },
            ),
        ),
{
    let lines = results.map_values(|r: PageRef| result_line(r));
    let f = |k: int|
        "- ["@ + results[k].title@ + "]("@ + results[k].uri@ + match results[k].summary {
            Some(s) => if s@.len() > 0 {
                "): "@ + s@ + "\n"@
            } else {
                ")\n"@
            },
            None => ")\n"@,
        };
    assert forall|k: int| 0 <= k < results.len() implies lines[k] == f(k) by {
        let r = results[k];
        match r.summary {
            Some(s) => {
                assert(summary_text(r.summary) == s@);
            },
            None => {},
        }
        assert(lines[k] =~= f(k));
    }
    assert(lines =~= Seq::new(
        results.len(),
        |k: int|
            "- ["@ + results[k].title@ + "]("@ + results[k].uri@ + match results[k].summary {
                Some(s) => if s@.len() > 0 {
                    "): "@ + s@ + "\n"@
                } else {
                    ")\n"@
                },
                None => ")\n"@,
            },
    ));
}

// ── Listings ──────────────────────────────────────────────────────────────────

/// One page of a listing. Its confidence, a float, is carried as
/// `confidence_rank`: an integer that orders pages as their confidences do.
#[derive(Debug, Clone)]
pub struct PageSummary {
    pub slug: String,
    pub uri: String,
    pub title: String,
    pub page_type: String,
    pub status: String,
    pub tags: Vec<String>,
    pub confidence_rank: u32,
    pub summary: Option<String>,
}

/// One page of a paginated listing, with the total number of matching
/// pages and the facet counts.
#[derive(Debug, Clone)]
pub struct PageList {
    pub pages: Vec<PageSummary>,
    pub total: usize,
    pub page: usize,
    pub page_size: usize,
    pub facets: FacetCounts,
}

/// The page types of a listing, each once, in order of first appearance.
pub open spec fn listed_types(pages: Seq<PageSummary>) -> Seq<Seq<char>>
    decreases pages.len(),
{
    if pages.len() == 0 {
        seq![]
    } else {
        let prev = listed_types(pages.drop_last());
        if prev.contains(pages.last().page_type@) {
            prev
        } else {
            prev.push(pages.last().page_type@)
        }
    }
}

/// The pages of type `t`, in listing order.
pub open spec fn pages_of_type(pages: Seq<PageSummary>, t: Seq<char>) -> Seq<PageSummary>
    decreases pages.len(),
{
    if pages.len() == 0 {
        seq![]
    } else {
        let prev = pages_of_type(pages.drop_last(), t);
        if pages.last().page_type@ == t {
            prev.push(pages.last())
        } else {
            prev
        }
    }
}

/// A listing groups every page under its own type: a type group holds
/// exactly the pages of that type, in listing order, and the groups' types
/// are exactly the types of the pages, each once.
pub proof fn listing_groups_exact(pages: Seq<PageSummary>)
    ensures
        forall|t: Seq<char>|
            #![trigger pages_of_type(pages, t)]
            pages_of_type(pages, t) == pages.filter(|p: PageSummary| p.page_type@ == t),
        listed_types(pages).no_duplicates(),
        forall|k: int| 0 <= k < pages.len() ==> listed_types(pages).contains(#[trigger] pages[k].page_type@),
        forall|t: Seq<char>|
            #![trigger listed_types(pages).contains(t)]
            listed_types(pages).contains(t) ==> exists|k: int|
                0 <= k < pages.len() && (#[trigger] pages[k]).page_type@ == t,
    decreases pages.len(),
{
    reveal(Seq::filter);
    if pages.len() > 0 {
        let init = pages.drop_last();
        listing_groups_exact(init);
        let last = pages.last().page_type@;
        let prev = listed_types(init);
        assert forall|t: Seq<char>|
            #![trigger pages_of_type(pages, t)]
            pages_of_type(pages, t) == pages.filter(|p: PageSummary| p.page_type@ == t) by {
            assert(pages_of_type(init, t) == init.filter(|p: PageSummary| p.page_type@ == t));
        }
        assert forall|k: int| 0 <= k < pages.len() implies listed_types(pages).contains(
            #[trigger] pages[k].page_type@,
        ) by {
            if k < init.len() {
                assert(init[k] == pages[k]);
                assert(prev.contains(init[k].page_type@));
                if !prev.contains(last) {
                    let q = choose|q: int| 0 <= q < prev.len() && prev[q] == pages[k].page_type@;
                    assert(listed_types(pages)[q] == pages[k].page_type@);
                }
            } else {
                if !prev.contains(last) {
                    assert(listed_types(pages)[prev.len() as int] == last);
                }
            }
        }
        assert forall|t: Seq<char>|
            #![trigger listed_types(pages).contains(t)]
            listed_types(pages).contains(t) implies exists|k: int|
                0 <= k < pages.len() && (#[trigger] pages[k]).page_type@ == t by {
            if prev.contains(t) {
                let k = choose|k: int| 0 <= k < init.len() && (#[trigger] init[k]).page_type@ == t;
                assert(pages[k] == init[k]);
            } else {
                let q = choose|q: int| 0 <= q < listed_types(pages).len() && listed_types(pages)[q] == t;
                if q < prev.len() {
                    assert(listed_types(pages)[q] == prev[q]);
                }
                assert(pages[pages.len() - 1] == pages.last());
            }
        }
    }
}

/// The type groups of a listing (type, number of pages): larger groups
/// first, then by type name.
pub open spec fn list_groups(pages: Seq<PageSummary>) -> Seq<(Seq<char>, nat)> {
    listed_types(pages).map_values(|t: Seq<char>| (t, pages_of_type(pages, t).len())).sort_by(
        |a: (Seq<char>, nat), b: (Seq<char>, nat)| group_le(a, b),
    )
}

/// Page `a` is listed before page `b`: higher confidence first, then by
/// title.
pub open spec fn listed_before(a: PageSummary, b: PageSummary) -> bool {
    a.confidence_rank > b.confidence_rank || (a.confidence_rank == b.confidence_rank && str_lt(a.title@, b.title@))
}

/// Where a stable sort puts `p` among the sorted `s`: before the first page
/// from `k` on that `p` is listed before, else at the end.
pub open spec fn insert_at(s: Seq<PageSummary>, p: PageSummary, k: int) -> int
    decreases s.len() - k,
{
    if k >= s.len() {
        s.len() as int
    } else if listed_before(p, s[k]) {
        k
    } else {
        insert_at(s, p, k + 1)
    }
}

/// The pages in listing order within a group: a stable sort by
/// `listed_before` (pages neither of which is listed before the other keep
/// their order).
pub open spec fn by_confidence(ps: Seq<PageSummary>) -> Seq<PageSummary>
    decreases ps.len(),
{
    if ps.len() == 0 {
        ps
    } else {
        let s = by_confidence(ps.drop_last());
        s.insert(insert_at(s, ps.last(), 0), ps.last())
    }
}

/// The line of one listed page: a markdown link and its summary when it
/// has one, struck through when the page is archived.
pub open spec fn list_line(p: PageSummary) -> Seq<char> {
    let summary = summary_text(p.summary);
    if p.status@ == "archived"@ {
        if summary.len() == 0 {
            "- ~~["@ + p.title@ + "]("@ + p.uri@ + ")~~\n"@
        } else {
            "- ~~["@ + p.title@ + "]("@ + p.uri@ + "): "@ + summary + "~~\n"@
        }
    } else if summary.len() == 0 {
        "- ["@ + p.title@ + "]("@ + p.uri@ + ")\n"@
    } else {
        "- ["@ + p.title@ + "]("@ + p.uri@ + "): "@ + summary + "\n"@
    }
}

/// The section of one type group: a heading with the count, the pages'
/// lines, a blank line.
pub open spec fn group_text(pages: Seq<PageSummary>, g: (Seq<char>, nat)) -> Seq<char> {
    "## "@ + g.0 + " ("@ + decimal(g.1) + ")\n\n"@ + concat(
        by_confidence(pages_of_type(pages, g.0)).map_values(|p: PageSummary| list_line(p)),
    ) + "\n"@
}

/// The number of pages of `page_size` results that `total` results fill
/// (a page size of 0 counts as 1).
pub open spec fn pages_needed(total: nat, page_size: nat) -> nat {
    ((total + page_size - 1) / (if page_size == 0 {
        1
    } else {
        page_size as int
    })) as nat
}

/// The pagination line, when the results do not fit on one page.
pub open spec fn list_footer(l: PageList) -> Seq<char> {
    if l.total > l.page_size {
        "_Page "@ + decimal(l.page as nat) + "/"@ + decimal(pages_needed(l.total as nat, l.page_size as nat))
            + " \u{2014} "@ + decimal(l.total as nat) + " total pages_\n"@
    } else {
        seq![]
    }
}

/// The text of a listing for a language model.
pub open spec fn list_llms_spec(l: PageList) -> Seq<char> {
    concat(list_groups(l.pages@).map_values(|g: (Seq<char>, nat)| group_text(l.pages@, g))) + list_footer(l)
}

/// The pages at the given indices.
pub open spec fn pick(pages: Seq<PageSummary>, idx: Seq<usize>) -> Seq<PageSummary> {
    idx.map_values(|i: usize| pages[i as int])
}

proof fn lemma_listed_before_asym(a: PageSummary, b: PageSummary)
    requires
        listed_before(a, b),
    ensures
        !listed_before(b, a),
{
    if a.confidence_rank == b.confidence_rank {
        lemma_str_lt_asym(a.title@, b.title@);
    }
}

proof fn lemma_listed_before_trans(a: PageSummary, b: PageSummary, c: PageSummary)
    requires
        listed_before(a, b),
        listed_before(b, c),
    ensures
        listed_before(a, c),
{
    if a.confidence_rank == b.confidence_rank && b.confidence_rank == c.confidence_rank {
        lemma_str_lt_trans(a.title@, b.title@, c.title@);
    }
}

proof fn lemma_insert_at(s: Seq<PageSummary>, p: PageSummary, k: int)
    requires
        0 <= k <= s.len(),
    ensures
        k <= insert_at(s, p, k) <= s.len(),
        forall|q: int| k <= q < insert_at(s, p, k) ==> !listed_before(p, #[trigger] s[q]),
        insert_at(s, p, k) < s.len() ==> listed_before(p, s[insert_at(s, p, k)]),
    decreases s.len() - k,
{
    if k < s.len() && !listed_before(p, s[k]) {
        lemma_insert_at(s, p, k + 1);
    }
}

/// Within a group, a listing keeps exactly the group's pages and puts none
/// after a page it is listed before: highest confidence first, then by
/// title.
pub proof fn listing_order(ps: Seq<PageSummary>)
    ensures
        by_confidence(ps).to_multiset() == ps.to_multiset(),
        forall|i: int, j: int|
            0 <= i < j < by_confidence(ps).len() ==> !listed_before(
                #[trigger] by_confidence(ps)[j],
                #[trigger] by_confidence(ps)[i],
            ),
    decreases ps.len(),
{
    broadcast use vstd::seq_lib::group_to_multiset_ensures;

    if ps.len() > 0 {
        let prev = ps.drop_last();
        let p = ps.last();
        listing_order(prev);
        let s = by_confidence(prev);
        lemma_insert_at(s, p, 0);
        let k = insert_at(s, p, 0);
        let r = s.insert(k, p);
        assert(ps == prev.push(p));
        assert(r.len() == s.len() + 1);
        assert forall|i: int, j: int| 0 <= i < j < r.len() implies !listed_before(#[trigger] r[j], #[trigger] r[i]) by {
            if j < k {
                assert(r[i] == s[i] && r[j] == s[j]);
            } else if j == k {
                assert(r[j] == p && r[i] == s[i]);
            } else if i < k {
                assert(r[i] == s[i] && r[j] == s[j - 1]);
            } else if i == k {
                assert(r[i] == p && r[j] == s[j - 1]);
                if listed_before(s[j - 1], p) {
                    lemma_listed_before_trans(s[j - 1], p, s[k]);
                    if j - 1 > k {
                        assert(!listed_before(s[j - 1], s[k]));
                    } else {
                        lemma_listed_before_asym(p, s[k]);
                    }
                }
            } else {
                assert(r[i] == s[i - 1] && r[j] == s[j - 1]);
            }
        }
    }
}

/// The page types of the listing, each once, in order.
fn listed_types_exec(pages: &Vec<PageSummary>) -> (r: Vec<String>)
    ensures
        texts(r@) == listed_types(pages@),
{
    let mut r: Vec<String> = Vec::new();
    let mut i: usize = 0;
    while i < pages.len()
        invariant
            i <= pages@.len(),
            texts(r@) == listed_types(pages@.take(i as int)),
        decreases pages.len() - i,
    {
        let t = chars_of(pages[i].page_type.as_str());
        proof {
            assert(pages@.take(i + 1).drop_last() =~= pages@.take(i as int));
            assert(pages@.take(i + 1).last() == pages@[i as int]);
        }
        if !contains_text(&r, &t) {
            r.push(pages[i].page_type.clone());
            assert(texts(r@) =~= listed_types(pages@.take(i as int)).push(t@));
        }
        i = i + 1;
    }
    assert(pages@.take(pages@.len() as int) =~= pages@);
    r
}

/// The indices of the pages of type `t`, in order.
fn type_indices(pages: &Vec<PageSummary>, t: &[char]) -> (r: Vec<usize>)
    ensures
        pick(pages@, r@) == pages_of_type(pages@, t@),
        forall|j: int| 0 <= j < r@.len() ==> r@[j] < pages@.len(),
{
    let mut r: Vec<usize> = Vec::new();
    let mut i: usize = 0;
    while i < pages.len()
        invariant
            i <= pages@.len(),
            pick(pages@, r@) == pages_of_type(pages@.take(i as int), t@),
            forall|j: int| 0 <= j < r@.len() ==> r@[j] < pages@.len(),
        decreases pages.len() - i,
    {
        proof {
            assert(pages@.take(i + 1).drop_last() =~= pages@.take(i as int));
            assert(pages@.take(i + 1).last() == pages@[i as int]);
        }
        if seq_eq(&chars_of(pages[i].page_type.as_str()), t) {
            let ghost before = r@;
            r.push(i);
            assert(pick(pages@, r@) =~= pick(pages@, before).push(pages@[i as int]));
        }
        i = i + 1;
    }
    assert(pages@.take(pages@.len() as int) =~= pages@);
    r
}

/// Whether page `a` is listed before page `b`.
fn listed_before_exec(a: &PageSummary, b: &PageSummary) -> (r: bool)
    ensures
        r == listed_before(*a, *b),
{
    if a.confidence_rank != b.confidence_rank {
        return a.confidence_rank > b.confidence_rank;
    }
    str_lt_exec(&chars_of(a.title.as_str()), &chars_of(b.title.as_str()))
}

/// Sort page indices into listing order (a stable insertion sort).
fn sort_by_confidence(pages: &Vec<PageSummary>, idx: &Vec<usize>) -> (r: Vec<usize>)
    requires
        forall|j: int| 0 <= j < idx@.len() ==> idx@[j] < pages@.len(),
    ensures
        pick(pages@, r@) == by_confidence(pick(pages@, idx@)),
        forall|j: int| 0 <= j < r@.len() ==> r@[j] < pages@.len(),
{
    let mut r: Vec<usize> = Vec::new();
    let mut m: usize = 0;
    while m < idx.len()
        invariant
            m <= idx@.len(),
            forall|j: int| 0 <= j < idx@.len() ==> idx@[j] < pages@.len(),
            forall|j: int| 0 <= j < r@.len() ==> r@[j] < pages@.len(),
            pick(pages@, r@) == by_confidence(pick(pages@, idx@).take(m as int)),
        decreases idx.len() - m,
    {
        let x = idx[m];
        let p = &pages[x];
        let ghost s = pick(pages@, r@);
        let mut j: usize = 0;
        while j < r.len() && !listed_before_exec(p, &pages[r[j]])
            invariant
                j <= r@.len(),
                s == pick(pages@, r@),
                forall|q: int| 0 <= q < r@.len() ==> r@[q] < pages@.len(),
                insert_at(s, *p, 0) == insert_at(s, *p, j as int),
            decreases r.len() - j,
        {
            j = j + 1;
        }
        proof {
            let ps = pick(pages@, idx@).take(m + 1);
            assert(ps.drop_last() =~= pick(pages@, idx@).take(m as int));
            assert(ps.last() == *p);
            assert(insert_at(s, *p, 0) == j);
        }
        r.insert(j, x);
        proof {
            assert(pick(pages@, r@) =~= s.insert(j as int, *p));
        }
        m = m + 1;
    }
    assert(pick(pages@, idx@).take(idx@.len() as int) =~= pick(pages@, idx@));
    r
}

/// Append the line of one listed page.
fn push_list_line(out: &mut Vec<char>, p: &PageSummary)
    ensures
        final(out)@ == old(out)@ + list_line(*p),
{
    let has_summary = match &p.summary {
        Some(x) => chars_of(x.as_str()).len() > 0,
        None => false,
    };
    let archived = eq_str(&chars_of(p.status.as_str()), "archived");
    if archived {
        push_str(out, "- ~~[");
    } else {
        push_str(out, "- [");
    }
    push_str(out, p.title.as_str());
    push_str(out, "](");
    push_str(out, p.uri.as_str());
    if has_summary {
        push_str(out, "): ");
        match &p.summary {
            Some(x) => push_str(out, x.as_str()),
            None => {},
        }
        if archived {
            push_str(out, "~~\n");
        } else {
            push_str(out, "\n");
        }
    } else if archived {
        push_str(out, ")~~\n");
    } else {
        push_str(out, ")\n");
    }
    proof {
        reveal_strlit("archived");
    }
}

/// The type groups of the listing, in the order of `list_groups`.
fn list_groups_exec(pages: &Vec<PageSummary>) -> (r: Vec<(String, usize)>)
    ensures
        counted(r@) == list_groups(pages@),
{
    let types = listed_types_exec(pages);
    let ghost f = |t: Seq<char>| (t, pages_of_type(pages@, t).len());
    let ghost all = listed_types(pages@).map_values(f);
    let mut pairs: Vec<(String, usize)> = Vec::new();
    let mut k: usize = 0;
    while k < types.len()
        invariant
            0 <= k <= types.len(),
            texts(types@) == listed_types(pages@),
            f == (|t: Seq<char>| (t, pages_of_type(pages@, t).len())),
            all == listed_types(pages@).map_values(f),
            counted(pairs@) == all.take(k as int),
        decreases types.len() - k,
    {
        let t = chars_of(types[k].as_str());
        let members = type_indices(pages, &t);
        let ghost before = counted(pairs@);
        pairs.push((types[k].clone(), members.len()));
        proof {
            assert(texts(types@)[k as int] == types@[k as int]@);
            assert(pick(pages@, members@).len() == members@.len());
            assert(all[k as int] == f(listed_types(pages@)[k as int]));
            assert(counted(pairs@) =~= before.push((types@[k as int]@, members@.len() as nat)));
            assert(all.take(k + 1) =~= all.take(k as int).push(all[k as int]));
        }
        k = k + 1;
    }
    assert(all.take(types.len() as int) =~= all);
    let sorted = sort_counted(pairs);
    proof {
        let le = |a: (Seq<char>, nat), b: (Seq<char>, nat)| group_le(a, b);
        lemma_group_le_total_ordering();
        all.lemma_sort_by_ensures(le);
        vstd::seq_lib::lemma_sorted_unique(counted(sorted@), all.sort_by(le), le);
    }
    sorted
}

proof fn lemma_group_count(pages: Seq<PageSummary>, i: int)
    requires
        0 <= i < list_groups(pages).len(),
    ensures
        list_groups(pages)[i].1 == pages_of_type(pages, list_groups(pages)[i].0).len(),
{
    let f = |t: Seq<char>| (t, pages_of_type(pages, t).len());
    let all = listed_types(pages).map_values(f);
    let le = |a: (Seq<char>, nat), b: (Seq<char>, nat)| group_le(a, b);
    lemma_group_le_total_ordering();
    all.lemma_sort_by_ensures(le);
    let x = all.sort_by(le)[i];
    assert(all.sort_by(le).contains(x));
    assert(all.contains(x));
    let j = choose|j: int| 0 <= j < all.len() && all[j] == x;
    assert(x == f(listed_types(pages)[j]));
}

/// Append the section of one type group.
fn push_group_text(out: &mut Vec<char>, pages: &Vec<PageSummary>, t: &String, n: usize)
    requires
        n == pages_of_type(pages@, t@).len(),
    ensures
        final(out)@ == old(out)@ + group_text(pages@, (t@, n as nat)),
{
    let tc = chars_of(t.as_str());
    let members = type_indices(pages, &tc);
    let order = sort_by_confidence(pages, &members);
    let ghost lines = by_confidence(pages_of_type(pages@, t@)).map_values(|p: PageSummary| list_line(p));
    push_str(out, "## ");
    push_chars(out, &tc);
    push_str(out, " (");
    let c = decimal_exec(n as u64);
    push_chars(out, &c);
    push_str(out, ")\n\n");
    let ghost start = out@;
    let mut k: usize = 0;
    assert(lines.take(0) =~= Seq::<Seq<char>>::empty());
    while k < order.len()
        invariant
            0 <= k <= order@.len(),
            forall|j: int| 0 <= j < order@.len() ==> order@[j] < pages@.len(),
            pick(pages@, order@) == by_confidence(pages_of_type(pages@, t@)),
            lines == by_confidence(pages_of_type(pages@, t@)).map_values(|p: PageSummary| list_line(p)),
            out@ == start + concat(lines.take(k as int)),
        decreases order.len() - k,
    {
        let ghost before = out@;
        push_list_line(out, &pages[order[k]]);
        proof {
            assert(pick(pages@, order@)[k as int] == pages@[order@[k as int] as int]);
            assert(lines[k as int] == list_line(pages@[order@[k as int] as int]));
            assert(lines.take(k + 1).drop_last() =~= lines.take(k as int));
            assert(lines.take(k + 1).last() == lines[k as int]);
        }
        k = k + 1;
    }
    assert(lines.take(order@.len() as int) =~= lines);
    push_str(out, "\n");
}

/// Render a listing for a language model: the pages grouped by type
/// (larger groups first, then by type name), each group headed by its type
/// and count and listing its pages by confidence (highest first), then by
/// title, archived pages struck through; then, when the results fill more
/// than one page, a line with the page number, the number of pages and the
/// total.
pub fn render_list_llms(result: &PageList) -> (out: String)
    ensures
        out@ == list_llms_spec(*result),
{
    let pages = &result.pages;
    let groups = list_groups_exec(pages);
    let ghost sections = list_groups(pages@).map_values(|g: (Seq<char>, nat)| group_text(pages@, g));
    let mut out: Vec<char> = Vec::new();
    let mut k: usize = 0;
    assert(sections.take(0) =~= Seq::<Seq<char>>::empty());
    while k < groups.len()
        invariant
            0 <= k <= groups@.len(),
            counted(groups@) == list_groups(pages@),
            sections == list_groups(pages@).map_values(|g: (Seq<char>, nat)| group_text(pages@, g)),
            out@ == concat(sections.take(k as int)),
        decreases groups.len() - k,
    {
        let ghost before = out@;
        let ghost x = counted(groups@)[k as int];
        proof {
            assert(x == (groups@[k as int].0@, groups@[k as int].1 as nat));
            lemma_group_count(pages@, k as int);
        }
        push_group_text(&mut out, pages, &groups[k].0, groups[k].1);
        proof {
            assert(x == (groups@[k as int].0@, groups@[k as int].1 as nat));
            assert(sections[k as int] == group_text(pages@, x));
            assert(sections.take(k + 1).drop_last() =~= sections.take(k as int));
            assert(sections.take(k + 1).last() == sections[k as int]);
        }
        k = k + 1;
    }
    assert(sections.take(groups@.len() as int) =~= sections);
    if result.total > result.page_size {
        let size: u128 = if result.page_size == 0 {
            1
        } else {
            result.page_size as u128
        };
        let num: u128 = result.total as u128 + result.page_size as u128 - 1;
        let q: u128 = num / size;
        proof {
            let t = result.total as int;
            let ps = result.page_size as int;
            if ps > 0 {
                assert(q <= t) by (nonlinear_arith)
                    requires
                        q == (t + ps - 1) / ps,
                        t >= 1,
                        ps >= 1,
                {
                    assert((t + ps - 1) < ps * (t + 1));
                }
            }
            assert(q == pages_needed(result.total as nat, result.page_size as nat));
        }
        let needed = q as u64;
        push_str(&mut out, "_Page ");
        push_chars(&mut out, &decimal_exec(result.page as u64));
        push_str(&mut out, "/");
        push_chars(&mut out, &decimal_exec(needed));
        push_str(&mut out, " \u{2014} ");
        push_chars(&mut out, &decimal_exec(result.total as u64));
        push_str(&mut out, " total pages_\n");
    }
    string_of(&out)
}

// ── Facet counts ──────────────────────────────────────────────────────────────

/// The values of the documents, one after another.
pub open spec fn all_values(docs: Seq<Vec<String>>) -> Seq<Seq<char>>
    decreases docs.len(),
{
    if docs.len() == 0 {
        seq![]
    } else {
        all_values(docs.drop_last()) + texts(docs.last()@)
    }
}

/// How many of `vals` are `v`.
pub open spec fn count_in(vals: Seq<Seq<char>>, v: Seq<char>) -> nat
    decreases vals.len(),
{
    if vals.len() == 0 {
        0
    } else {
        count_in(vals.drop_last(), v) + if vals.last() == v {
            1nat
        } else {
            0nat
        }
    }
}

/// The non-empty values among `vals`, each once, in order of first
/// appearance.
pub open spec fn firsts(vals: Seq<Seq<char>>) -> Seq<Seq<char>>
    decreases vals.len(),
{
    if vals.len() == 0 {
        seq![]
    } else {
        let p = firsts(vals.drop_last());
        if vals.last().len() == 0 || p.contains(vals.last()) {
            p
        } else {
            p.push(vals.last())
        }
    }
}

/// Each non-empty value with the number of times it occurs, in order of
/// first appearance.
pub open spec fn tally(vals: Seq<Seq<char>>) -> Seq<(Seq<char>, nat)> {
    firsts(vals).map_values(|v: Seq<char>| (v, count_in(vals, v)))
}

/// A facet value of the documents: a non-empty value one of them has.
pub open spec fn facet_value(docs: Seq<Vec<String>>, v: Seq<char>) -> bool {
    v.len() > 0 && count_in(all_values(docs), v) > 0
}

proof fn lemma_firsts(vals: Seq<Seq<char>>)
    ensures
        firsts(vals).no_duplicates(),
        forall|v: Seq<char>| #[trigger] firsts(vals).contains(v) <==> (v.len() > 0 && count_in(vals, v) > 0),
        firsts(vals).len() <= vals.len(),
    decreases vals.len(),
{
    if vals.len() > 0 {
        let d = vals.drop_last();
        lemma_firsts(d);
        let p = firsts(d);
        let x = vals.last();
        assert(p.contains(x) == (x.len() > 0 && count_in(d, x) > 0));
        assert forall|v: Seq<char>| #[trigger] firsts(vals).contains(v) <==> (v.len() > 0 && count_in(vals, v) > 0) by {
            assert(p.contains(v) == (v.len() > 0 && count_in(d, v) > 0));
            assert(count_in(vals, v) == count_in(d, v) + if x == v {
                1nat
            } else {
                0nat
            });
            if !(x.len() == 0 || p.contains(x)) {
                assert(firsts(vals) == p.push(x));
                if v == x {
                    assert(firsts(vals)[p.len() as int] == x);
                }
                if p.contains(v) {
                    let i = choose|i: int| 0 <= i < p.len() && p[i] == v;
                    assert(firsts(vals)[i] == v);
                }
                if firsts(vals).contains(v) && !p.contains(v) {
                    let i = choose|i: int| 0 <= i < firsts(vals).len() && firsts(vals)[i] == v;
                    if i < p.len() {
                        assert(p[i] == v);
                    }
                }
            } else {
                assert(firsts(vals) == p);
            }
        }
        if !(x.len() == 0 || p.contains(x)) {
            assert(firsts(vals) == p.push(x));
            assert forall|a: int, b: int| 0 <= a < firsts(vals).len() && 0 <= b < firsts(vals).len() && a != b implies firsts(vals)[a] != firsts(vals)[b] by {
                if a < p.len() && b < p.len() {
                } else if a < p.len() {
                    assert(p.contains(p[a]));
                } else {
                    assert(p.contains(p[b]));
                }
            }
        }
    }
}

proof fn lemma_count_le(vals: Seq<Seq<char>>, v: Seq<char>)
    ensures
        count_in(vals, v) <= vals.len(),
    decreases vals.len(),
{
    if vals.len() > 0 {
        lemma_count_le(vals.drop_last(), v);
    }
}

proof fn lemma_all_values_push(docs: Seq<Vec<String>>, i: int)
    requires
        0 <= i < docs.len(),
    ensures
        all_values(docs.take(i + 1)) == all_values(docs.take(i)) + texts(docs[i]@),
{
    assert(docs.take(i + 1).drop_last() =~= docs.take(i));
    assert(docs.take(i + 1).last() == docs[i]);
}

/// The index of the tallied value `v`.
fn find_tallied(keys: &Vec<(String, usize)>, v: &[char]) -> (r: Option<usize>)
    ensures
        match r {
            Some(k) => k < keys@.len() && keys@[k as int].0@ == v@,
            None => forall|k: int| 0 <= k < keys@.len() ==> keys@[k].0@ != v@,
        },
{
    let mut k: usize = 0;
    while k < keys.len()
        invariant
            k <= keys@.len(),
            forall|q: int| 0 <= q < k ==> keys@[q].0@ != v@,
        decreases keys.len() - k,
    {
        if seq_eq(&chars_of(keys[k].0.as_str()), v) {
            return Some(k);
        }
        k = k + 1;
    }
    None
}

/// Add one value to a tally of `vals`.
#[verifier::spinoff_prover]
fn tally_one(keys: &mut Vec<(String, usize)>, x: &String, Ghost(vals): Ghost<Seq<Seq<char>>>)
    requires
        counted(old(keys)@) == tally(vals),
        vals.len() < usize::MAX,
    ensures
        counted(final(keys)@) == tally(vals.push(x@)),
{
    let xs = chars_of(x.as_str());
    let ghost nv = vals.push(x@);
    proof {
        lemma_firsts(vals);
        lemma_firsts(nv);
        assert(nv.drop_last() =~= vals);
        assert(nv.last() == x@);
        assert forall|v: Seq<char>| #[trigger] count_in(nv, v) == count_in(vals, v) + if v == x@ {
            1nat
        } else {
            0nat
        } by {}
    }
    if xs.len() == 0 {
        proof {
            assert(firsts(nv) == firsts(vals));
            assert(tally(nv) =~= tally(vals)) by {
                assert forall|k: int| 0 <= k < firsts(vals).len() implies #[trigger] firsts(vals)[k] != x@ by {
                    assert(firsts(vals).contains(firsts(vals)[k]));
                }
            }
        }
        return;
    }
    match find_tallied(keys, &xs) {
        Some(k) => {
            let ghost before = counted(keys@);
            let c = keys[k].1;
            proof {
                assert(before.len() == keys@.len());
                assert(tally(vals).len() == firsts(vals).len());
                assert(before[k as int] == (keys@[k as int].0@, keys@[k as int].1 as nat));
                assert(before[k as int] == tally(vals)[k as int]);
                assert(firsts(vals)[k as int] == x@);
                lemma_count_le(vals, x@);
                assert(firsts(vals).contains(x@));
                assert(firsts(nv) == firsts(vals));
            }
            let name = keys[k].0.clone();
            keys.set(k, (name, c + 1));
            proof {
                assert forall|q: int| 0 <= q < firsts(vals).len() && q != k implies #[trigger] firsts(vals)[q] != x@ by {
                    assert(firsts(vals).no_duplicates());
                }
                assert(counted(keys@).len() == tally(nv).len());
                assert forall|q: int| 0 <= q < counted(keys@).len() implies #[trigger] counted(keys@)[q] == tally(nv)[q] by {
                    let w = firsts(vals)[q];
                    assert(tally(nv)[q] == (w, count_in(nv, w)));
                    assert(count_in(nv, w) == count_in(vals, w) + if w == x@ {
                        1nat
                    } else {
                        0nat
                    });
                    if q != k {
                        assert(counted(keys@)[q] == before[q]);
                        assert(before[q] == tally(vals)[q]);
                    } else {
                        assert(counted(keys@)[q] == (x@, (c + 1) as nat));
                    }
                }
                assert(counted(keys@) =~= tally(nv));
            }
        },
        None => {
            proof {
                assert(!firsts(vals).contains(x@)) by {
                    if firsts(vals).contains(x@) {
                        let q = choose|q: int| 0 <= q < firsts(vals).len() && firsts(vals)[q] == x@;
                        assert(tally(vals).len() == firsts(vals).len());
                        assert(tally(vals)[q].0 == x@);
                        assert(counted(keys@).len() == keys@.len());
                        assert(counted(keys@)[q] == tally(vals)[q]);
                        assert(counted(keys@)[q].0 == keys@[q].0@);
                        assert(keys@[q].0@ == x@);
                        assert(keys@[q].0@ != xs@);
                    }
                }
                assert(count_in(vals, x@) == 0);
                assert(firsts(nv) == firsts(vals).push(x@));
                assert forall|q: int| 0 <= q < firsts(vals).len() implies #[trigger] firsts(vals)[q] != x@ by {
                    assert(firsts(vals).contains(firsts(vals)[q]));
                }
            }
            let ghost before = counted(keys@);
            keys.push((x.clone(), 1));
            proof {
                assert(counted(keys@).len() == tally(nv).len());
                assert forall|q: int| 0 <= q < counted(keys@).len() implies #[trigger] counted(keys@)[q] == tally(nv)[q] by {
                    let w = firsts(nv)[q];
                    assert(tally(nv)[q] == (w, count_in(nv, w)));
                    assert(count_in(nv, w) == count_in(vals, w) + if w == x@ {
                        1nat
                    } else {
                        0nat
                    });
                    if q < before.len() {
                        assert(counted(keys@)[q] == before[q]);
                        assert(before[q] == tally(vals)[q]);
                        assert(w == firsts(vals)[q]);
                    } else {
                        assert(w == x@);
                    }
                }
                assert(counted(keys@) =~= tally(nv));
            }
        },
    }
}

/// The facet counts of the documents' values (each document a list of
/// values, such as its tags): each non-empty value with the number of times
/// it occurs. With a positive `top_n` and more distinct values than that,
/// only `top_n` of them are kept, none with a smaller count than a value
/// left out (which of equally counted values stay is not fixed).
pub fn facet_counts(docs: &Vec<Vec<String>>, top_n: usize) -> (r: Vec<(String, u64)>)
    requires
        all_values(docs@).len() < usize::MAX,
    ensures
        forall|i: int, j: int| 0 <= i < j < r@.len() ==> r@[i].0@ != r@[j].0@,
        forall|i: int|
            0 <= i < r@.len() ==> facet_value(docs@, #[trigger] r@[i].0@) && r@[i].1 == count_in(
                all_values(docs@),
                r@[i].0@,
            ),
        top_n == 0 || firsts(all_values(docs@)).len() <= top_n ==> forall|v: Seq<char>|
            #[trigger] facet_value(docs@, v) ==> exists|i: int| 0 <= i < r@.len() && r@[i].0@ == v,
        top_n > 0 && firsts(all_values(docs@)).len() > top_n ==> {
            &&& r@.len() == top_n
            &&& forall|v: Seq<char>, i: int|
                #![trigger facet_value(docs@, v), r@[i]]
                facet_value(docs@, v) && (forall|j: int| 0 <= j < r@.len() ==> r@[j].0@ != v) && 0 <= i < r@.len()
                    ==> count_in(all_values(docs@), v) <= r@[i].1
        },
{
    broadcast use vstd::seq_lib::group_to_multiset_ensures;
    broadcast use vstd::multiset::group_multiset_axioms;

    let ghost total = all_values(docs@);
    let mut keys: Vec<(String, usize)> = Vec::new();
    let mut i: usize = 0;
    while i < docs.len()
        invariant
            i <= docs@.len(),
            total == all_values(docs@),
            total.len() < usize::MAX,
            counted(keys@) == tally(all_values(docs@.take(i as int))),
        decreases docs.len() - i,
    {
        proof {
            lemma_all_values_push(docs@, i as int);
            lemma_all_values_prefix(docs@, i as int + 1);
        }
        let ghost done = all_values(docs@.take(i as int));
        let vals = &docs[i];
        let mut j: usize = 0;
        while j < vals.len()
            invariant
                j <= vals@.len(),
                *vals == docs@[i as int],
                done + texts(vals@) == all_values(docs@.take(i + 1)),
                all_values(docs@.take(i + 1)).len() <= total.len(),
                total.len() < usize::MAX,
                counted(keys@) == tally(done + texts(vals@).take(j as int)),
            decreases vals.len() - j,
        {
            let ghost seen = done + texts(vals@).take(j as int);
            proof {
                assert(seen.len() < usize::MAX);
                assert(done + texts(vals@).take(j + 1) =~= seen.push(vals@[j as int]@));
            }
            tally_one(&mut keys, &vals[j], Ghost(seen));
            j = j + 1;
        }
        assert(texts(vals@).take(vals@.len() as int) =~= texts(vals@));
        i = i + 1;
    }
    assert(docs@.take(docs@.len() as int) =~= docs@);
    proof {
        lemma_firsts(total);
    }
    let ghost all = tally(total);
    let ghost kc = counted(keys@);
    let kept: Vec<(String, usize)> = if top_n > 0 && keys.len() > top_n {
        let mut sorted = sort_counted(keys);
        let ghost full = counted(sorted@);
        proof {
            assert(full.to_multiset().len() == kc.to_multiset().len());
            assert(full.len() == kc.len());
        }
        sorted.truncate(top_n);
        proof {
            lemma_top_counts(total, full, top_n as int);
            let ks = counted(sorted@);
            assert(ks =~= full.subrange(0, top_n as int));
            assert forall|v: Seq<char>, i: int|
                #![trigger count_in(total, v), ks[i]]
                v.len() > 0 && count_in(total, v) > 0 && (forall|j: int| 0 <= j < ks.len() ==> ks[j].0 != v) && 0 <= i < ks.len()
                    implies count_in(total, v) <= ks[i].1 by {
                assert(ks[i] == full[i]);
                assert forall|j: int| 0 <= j < top_n implies full[j].0 != v by {
                    assert(ks[j] == full[j]);
                }
            }
        }
        sorted
    } else {
        proof {
            lemma_all_counts(total);
        }
        keys
    };
    let ghost kk = counted(kept@);
    proof {
        lemma_firsts(total);
        assert(forall|i: int, j: int| 0 <= i < j < kk.len() ==> kk[i].0 != kk[j].0);
        assert(forall|i: int|
            0 <= i < kk.len() ==> (#[trigger] kk[i]).0.len() > 0 && count_in(total, kk[i].0) > 0 && kk[i].1 == count_in(total, kk[i].0));
        assert(kc.len() == firsts(total).len());
        if top_n == 0 || firsts(total).len() <= top_n {
            assert(kk == tally(total));
        } else {
            assert(kk.len() == top_n);
            assert(forall|v: Seq<char>, i: int|
                #![trigger count_in(total, v), kk[i]]
                v.len() > 0 && count_in(total, v) > 0 && (forall|j: int| 0 <= j < kk.len() ==> kk[j].0 != v) && 0 <= i < kk.len()
                    ==> count_in(total, v) <= kk[i].1);
        }
    }
    let mut r: Vec<(String, u64)> = Vec::new();
    let mut k: usize = 0;
    while k < kept.len()
        invariant
            k <= kept@.len(),
            r@.len() == k,
            forall|q: int| 0 <= q < k ==> r@[q].0@ == kept@[q].0@ && r@[q].1 == kept@[q].1,
        decreases kept.len() - k,
    {
        r.push((kept[k].0.clone(), kept[k].1 as u64));
        k = k + 1;
    }
    proof {
        assert forall|q: int| 0 <= q < r@.len() implies #[trigger] kk[q] == (r@[q].0@, r@[q].1 as nat) by {}
        assert forall|i: int, j: int| 0 <= i < j < r@.len() implies r@[i].0@ != r@[j].0@ by {
            assert(kk[i] == (r@[i].0@, r@[i].1 as nat));
            assert(kk[j] == (r@[j].0@, r@[j].1 as nat));
        }
        assert forall|i: int| 0 <= i < r@.len() implies facet_value(docs@, #[trigger] r@[i].0@) && r@[i].1 == count_in(
            all_values(docs@),
            r@[i].0@,
        ) by {
            assert(kk[i] == (r@[i].0@, r@[i].1 as nat));
        }
        if top_n == 0 || firsts(total).len() <= top_n {
            assert forall|v: Seq<char>| #[trigger] facet_value(docs@, v) implies exists|i: int| 0 <= i < r@.len() && r@[i].0@ == v by {
                let i = choose|i: int| 0 <= i < tally(total).len() && #[trigger] tally(total)[i].0 == v;
                assert(kk[i] == (r@[i].0@, r@[i].1 as nat));
            }
        } else {
            assert forall|v: Seq<char>, i: int|
                #![trigger facet_value(docs@, v), r@[i]]
                facet_value(docs@, v) && (forall|j: int| 0 <= j < r@.len() ==> r@[j].0@ != v) && 0 <= i < r@.len()
                    implies count_in(all_values(docs@), v) <= r@[i].1 by {
                assert forall|j: int| 0 <= j < kk.len() implies kk[j].0 != v by {
                    assert(kk[j] == (r@[j].0@, r@[j].1 as nat));
                }
                assert(kk[i] == (r@[i].0@, r@[i].1 as nat));
            }
        }
    }
    r
}

/// The tally itself: distinct facet values, each with its count, all of them.
proof fn lemma_all_counts(total: Seq<Seq<char>>)
    ensures
        forall|i: int, j: int| 0 <= i < j < tally(total).len() ==> tally(total)[i].0 != tally(total)[j].0,
        forall|i: int|
            0 <= i < tally(total).len() ==> (#[trigger] tally(total)[i]).0.len() > 0 && count_in(total, tally(total)[i].0)
                > 0 && tally(total)[i].1 == count_in(total, tally(total)[i].0),
        forall|v: Seq<char>|
            v.len() > 0 && count_in(total, v) > 0 ==> exists|i: int| 0 <= i < tally(total).len() && #[trigger] tally(total)[i].0 == v,
{
    lemma_firsts(total);
    let f = firsts(total);
    assert forall|i: int| 0 <= i < tally(total).len() implies (#[trigger] tally(total)[i]).0.len() > 0 && count_in(total, tally(total)[i].0)
        > 0 && tally(total)[i].1 == count_in(total, tally(total)[i].0) by {
        assert(f.contains(f[i]));
    }
    assert forall|v: Seq<char>| v.len() > 0 && count_in(total, v) > 0 implies exists|i: int| 0 <= i < tally(total).len() && #[trigger] tally(total)[i].0 == v by {
        assert(f.contains(v));
        let i = choose|i: int| 0 <= i < f.len() && f[i] == v;
        assert(tally(total)[i].0 == v);
    }
}

/// The first `n` of a sorted permutation of the tally: distinct facet
/// values with their counts, none counted less than a value left out.
proof fn lemma_top_counts(total: Seq<Seq<char>>, sorted: Seq<(Seq<char>, nat)>, n: int)
    requires
        sorted_by(sorted, |a: (Seq<char>, nat), b: (Seq<char>, nat)| group_le(a, b)),
        sorted.to_multiset() == tally(total).to_multiset(),
        0 < n < tally(total).len(),
    ensures
        forall|i: int, j: int| 0 <= i < j < n ==> sorted[i].0 != sorted[j].0,
        forall|i: int|
            0 <= i < n ==> (#[trigger] sorted[i]).0.len() > 0 && count_in(total, sorted[i].0) > 0 && sorted[i].1 == count_in(
                total,
                sorted[i].0,
            ),
        forall|v: Seq<char>, i: int|
            #![trigger count_in(total, v), sorted[i]]
            v.len() > 0 && count_in(total, v) > 0 && (forall|j: int| 0 <= j < n ==> sorted[j].0 != v) && 0 <= i < n
                ==> count_in(total, v) <= sorted[i].1,
{
    broadcast use vstd::seq_lib::group_to_multiset_ensures;
    broadcast use vstd::multiset::group_multiset_axioms;

    let all = tally(total);
    lemma_all_counts(total);
    assert(sorted.len() == all.len()) by {
        assert(sorted.to_multiset().len() == all.to_multiset().len());
    }
    // Every entry of `sorted` is an entry of the tally.
    assert forall|i: int| 0 <= i < sorted.len() implies exists|q: int| 0 <= q < all.len() && all[q] == #[trigger] sorted[i] by {
        assert(sorted.to_multiset().count(sorted[i]) > 0);
        assert(all.contains(sorted[i]));
    }
    assert forall|i: int| 0 <= i < n implies (#[trigger] sorted[i]).0.len() > 0 && count_in(total, sorted[i].0) > 0
        && sorted[i].1 == count_in(total, sorted[i].0) by {
        let q = choose|q: int| 0 <= q < all.len() && all[q] == sorted[i];
        assert(all[q] == tally(total)[q]);
    }
    // The tally has no duplicates, so neither does `sorted`.
    assert(all.no_duplicates()) by {
        assert forall|a: int, b: int| 0 <= a < all.len() && 0 <= b < all.len() && a != b implies all[a] != all[b] by {
            if a > b {
                assert(tally(total)[b].0 != tally(total)[a].0);
            }
        }
    }
    all.lemma_multiset_has_no_duplicates();
    sorted.lemma_multiset_has_no_duplicates_conv();
    assert forall|i: int, j: int| 0 <= i < j < n implies sorted[i].0 != sorted[j].0 by {
        let a = choose|q: int| 0 <= q < all.len() && all[q] == sorted[i];
        let b = choose|q: int| 0 <= q < all.len() && all[q] == sorted[j];
        if sorted[i].0 == sorted[j].0 {
            if a != b {
                if a < b {
                    assert(tally(total)[a].0 != tally(total)[b].0);
                } else {
                    assert(tally(total)[b].0 != tally(total)[a].0);
                }
            }
            assert(sorted[i] == sorted[j]);
        }
    }
    assert forall|v: Seq<char>, i: int|
        #![trigger count_in(total, v), sorted[i]]
        v.len() > 0 && count_in(total, v) > 0 && (forall|j: int| 0 <= j < n ==> sorted[j].0 != v) && 0 <= i < n
            implies count_in(total, v) <= sorted[i].1 by {
        let q = choose|q: int| 0 <= q < all.len() && #[trigger] all[q].0 == v;
        assert(all.to_multiset().count(all[q]) > 0);
        assert(sorted.contains(all[q]));
        let p = choose|p: int| 0 <= p < sorted.len() && sorted[p] == all[q];
        if p < n {
            assert(sorted[p].0 == v);
        }
        let le = |a: (Seq<char>, nat), b: (Seq<char>, nat)| group_le(a, b);
        assert(le(sorted[i], sorted[p]));
    }
}

proof fn lemma_all_values_prefix(docs: Seq<Vec<String>>, n: int)
    requires
        0 <= n <= docs.len(),
    ensures
        all_values(docs.take(n)).len() <= all_values(docs).len(),
    decreases docs.len() - n,
{
    if n < docs.len() {
        lemma_all_values_prefix(docs, n + 1);
        lemma_all_values_push(docs, n);
    } else {
        assert(docs.take(n) =~= docs);
    }
}

// ── Listing pages ─────────────────────────────────────────────────────────────

/// A matching document of a listing, as the index stores it: the tags as one
/// space-separated text, the summary when the field is present, and the
/// confidence as a rank (see `PageSummary`).
#[derive(Debug, Clone)]
pub struct ListedDoc {
    pub slug: String,
    pub title: String,
    pub page_type: String,
    pub status: String,
    pub tags: String,
    pub confidence_rank: u32,
    pub summary: Option<String>,
}

/// One page of a listing: its pages, the number of matching documents, and
/// the page number and size asked for.
#[derive(Debug, Clone)]
pub struct PageWindow {
    pub pages: Vec<PageSummary>,
    pub total: usize,
    pub page: usize,
    pub page_size: usize,
}

/// The whitespace-separated words of `s` (`str::split_whitespace`).
pub open spec fn words(s: Seq<char>) -> Seq<Seq<char>>
    decreases s.len(),
{
    if s.len() == 0 {
        seq![]
    } else {
        let w = words(s.drop_last());
        let c = s.last();
        if is_ws(c) {
            w
        } else if s.len() >= 2 && !is_ws(s[s.len() - 2]) {
            w.drop_last().push(w.last().push(c))
        } else {
            w.push(seq![c])
        }
    }
}

/// The number of pages in the window of page `page` (from 1) of `page_size`
/// results, out of `n`.
pub open spec fn window_len(n: nat, page: nat, page_size: nat) -> nat {
    let offset = ((page - 1) * page_size) as nat;
    if offset >= n {
        0
    } else if n - offset < page_size {
        (n - offset) as nat
    } else {
        page_size
    }
}

/// `p` is the listing entry of document `d` in wiki `wiki`: the same fields,
/// its `wiki://` URI, its tags split into words, and its summary when that
/// is not empty.
pub open spec fn listed_from(p: PageSummary, d: ListedDoc, wiki: Seq<char>) -> bool {
    &&& p.slug == d.slug
    &&& p.uri@ == "wiki://"@ + wiki + "/"@ + d.slug@
    &&& p.title == d.title
    &&& p.page_type == d.page_type
    &&& p.status == d.status
    &&& texts(p.tags@) == words(d.tags@)
    &&& p.confidence_rank == d.confidence_rank
    &&& p.summary == (match d.summary {
        Some(x) => if x@.len() > 0 {
            Some(x)
        } else {
            None
        },
        None => None,
    })
}

proof fn lemma_words_last(s: Seq<char>)
    requires
        s.len() > 0,
        !is_ws(s.last()),
    ensures
        words(s).len() > 0,
{
}

/// The whitespace-separated words of a text.
fn split_words(s: &str) -> (r: Vec<String>)
    ensures
        texts(r@) == words(s@),
{
    let v = chars_of(s);
    let mut ws: Vec<Vec<char>> = Vec::new();
    let mut i: usize = 0;
    while i < v.len()
        invariant
            i <= v@.len(),
            v@ == s@,
            ws@.map_values(|w: Vec<char>| w@) == words(v@.take(i as int)),
        decreases v.len() - i,
    {
        let c = v[i];
        let ghost before = ws@.map_values(|w: Vec<char>| w@);
        proof {
            assert(v@.take(i + 1).drop_last() =~= v@.take(i as int));
            assert(v@.take(i + 1).last() == c);
            if i > 0 {
                assert(v@.take(i + 1)[i - 1] == v@[i - 1]);
            }
        }
        if !is_whitespace(c) {
            if i > 0 && !is_whitespace(v[i - 1]) {
                proof {
                    assert(v@.take(i as int).last() == v@[i - 1]);
                    lemma_words_last(v@.take(i as int));
                }
                let mut last = ws.pop().unwrap();
                last.push(c);
                ws.push(last);
                assert(ws@.map_values(|w: Vec<char>| w@) =~= before.drop_last().push(before.last().push(c)));
            } else {
                let mut one: Vec<char> = Vec::new();
                one.push(c);
                ws.push(one);
                assert(ws@.map_values(|w: Vec<char>| w@) =~= before.push(seq![c]));
            }
        }
        i = i + 1;
    }
    assert(v@.take(v@.len() as int) =~= v@);
    let ghost all = ws@.map_values(|w: Vec<char>| w@);
    let mut r: Vec<String> = Vec::new();
    let mut k: usize = 0;
    while k < ws.len()
        invariant
            k <= ws@.len(),
            all == ws@.map_values(|w: Vec<char>| w@),
            texts(r@) == all.take(k as int),
        decreases ws.len() - k,
    {
        let ghost before = texts(r@);
        r.push(string_of(&ws[k]));
        assert(texts(r@) =~= before.push(ws@[k as int]@));
        assert(all.take(k + 1) =~= all.take(k as int).push(all[k as int]));
        k = k + 1;
    }
    assert(all.take(ws@.len() as int) =~= all);
    r
}

/// The listing entry of one document.
fn listed_entry(d: &ListedDoc, wiki_name: &str) -> (p: PageSummary)
    ensures
        listed_from(p, *d, wiki_name@),
{
    let mut uri: Vec<char> = Vec::new();
    push_str(&mut uri, "wiki://");
    push_str(&mut uri, wiki_name);
    push_str(&mut uri, "/");
    push_str(&mut uri, d.slug.as_str());
    let summary = match &d.summary {
        Some(x) => if chars_of(x.as_str()).len() > 0 {
            Some(x.clone())
        } else {
            None
        },
        None => None,
    };
    PageSummary {
        slug: d.slug.clone(),
        uri: string_of(&uri),
        title: d.title.clone(),
        page_type: d.page_type.clone(),
        status: d.status.clone(),
        tags: split_words(d.tags.as_str()),
        confidence_rank: d.confidence_rank,
        summary,
    }
}

/// Page `page` (from 1) of `page_size` entries of a listing, from the
/// matching documents in slug order: the documents from
/// `(page - 1) * page_size` on, at most `page_size` of them, each as its
/// listing entry in wiki `wiki_name`; with the number of matching documents.
pub fn list_page(docs: &Vec<ListedDoc>, wiki_name: &str, page: usize, page_size: usize) -> (r: PageWindow)
    requires
        page >= 1,
        page * page_size <= usize::MAX,
    ensures
        r.total == docs@.len(),
        r.page == page,
        r.page_size == page_size,
        r.pages@.len() == window_len(docs@.len(), page as nat, page_size as nat),
        forall|i: int|
            0 <= i < r.pages@.len() ==> listed_from(
                #[trigger] r.pages@[i],
                docs@[(page - 1) * page_size + i],
                wiki_name@,
            ),
{
    proof {
        assert((page - 1) * page_size <= page * page_size) by (nonlinear_arith)
            requires
                page >= 1,
        ;
    }
    let offset = (page - 1) * page_size;
    let mut pages: Vec<PageSummary> = Vec::new();
    let mut i: usize = offset;
    while i < docs.len() && i - offset < page_size
        invariant
            offset == (page - 1) * page_size,
            offset <= i,
            i <= offset + page_size || i == offset,
            i <= docs@.len() || i == offset,
            pages@.len() == i - offset,
            forall|q: int| 0 <= q < pages@.len() ==> listed_from(#[trigger] pages@[q], docs@[offset + q], wiki_name@),
        decreases docs@.len() - i,
    {
        pages.push(listed_entry(&docs[i], wiki_name));
        i = i + 1;
    }
    PageWindow { pages, total: docs.len(), page, page_size }
}

} // verus!
