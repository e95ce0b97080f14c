//! Export of a wiki as `llms.txt`-style text.
use vstd::prelude::*;

use crate::text::{
    chars_of, concat, decimal, decimal_exec, eq_str, find_from_exec, push_chars, push_str, slice,
    starts_with, starts_with_str, string_of, trim, trim_exec, find_from, lemma_find_from,
};

verus! {

/// What to export.
#[derive(Debug, Clone)]
pub struct ExportOptions {
    pub wiki: String,
    /// Output path — resolved against the wiki root if relative.
    pub path: Option<String>,
    pub format: ExportFormat,
    /// Whether to include archived pages (default: false).
    pub include_archived: bool,
}

/// Output format of an export.
#[derive(Debug, Clone, Copy, PartialEq, Eq, Structural)]
pub enum ExportFormat {
    LlmsTxt,
    LlmsFull,
    Json,
}

impl ExportFormat {
    /// The format's name as it is written on the command line.
    pub fn as_str(&self) -> (s: &'static str)
        ensures
            *self == ExportFormat::LlmsTxt ==> s@ == "llms-txt"@,
            *self == ExportFormat::LlmsFull ==> s@ == "llms-full"@,
            *self == ExportFormat::Json ==> s@ == "json"@,
    {
        match self {
            ExportFormat::LlmsTxt => "llms-txt",
            ExportFormat::LlmsFull => "llms-full",
            ExportFormat::Json => "json",
        }
    }

    /// The format named `s`: `llms-full`, `json`, and `llms-txt` for any
    /// other name.
    pub fn parse(s: &str) -> (f: ExportFormat)
        ensures
            s@ == "llms-full"@ ==> f == ExportFormat::LlmsFull,
            s@ == "json"@ ==> f == ExportFormat::Json,
            s@ != "llms-full"@ && s@ != "json"@ ==> f == ExportFormat::LlmsTxt,
    {
        proof {
            reveal_strlit("llms-full");
            reveal_strlit("json");
            assert("json"@.len() != "llms-full"@.len());
        }
        let v = chars_of(s);
        if eq_str(&v, "llms-full") {
            ExportFormat::LlmsFull
        } else if eq_str(&v, "json") {
            ExportFormat::Json
        } else {
            ExportFormat::LlmsTxt
        }
    }
}

/// What an export wrote.
#[derive(Debug, Clone)]
pub struct ExportReport {
    pub path: String,
    pub pages_written: usize,
    pub bytes: usize,
    pub format: String,
}

/// A page as an export lists it (the ordering by confidence is the
/// caller's: confidence is a float).
#[derive(Debug, Clone)]
pub struct ExportPage {
    pub slug: String,
    pub uri: String,
    pub title: String,
    pub page_type: String,
    pub status: String,
    pub summary: String,
    pub body: Option<String>,
}

/// Where an export goes: the given path (default `llms.txt`), under the
/// wiki root unless absolute.
pub fn resolve_path(path: Option<&str>, wiki_root: &str) -> (r: String)
    ensures
        r@ == crate::lint::join_path(
            wiki_root@,
            match path {
                Some(p) => p@,
                None => "llms.txt"@,
            },
        ),
{
    let p = match path {
        Some(p) => chars_of(p),
        None => chars_of("llms.txt"),
    };
    crate::lint::join_path_exec(wiki_root, &p)
}

/// `content` without a leading frontmatter block: when it starts with
/// `---` and a `\n---` follows, the text after that closing line (and one
/// `\n` after it).
pub open spec fn strip_frontmatter_spec(content: Seq<char>) -> Seq<char> {
    if !starts_with(content, "---"@) {
        content
    } else {
        match find_from(content, "\n---"@, 3) {
            Some(i) => {
                let end = i + 4;
                if end < content.len() && content[end] == '\n' {
                    content.subrange(end + 1, content.len() as int)
                } else {
                    content.subrange(end, content.len() as int)
                }
            },
            None => content,
        }
    }
}

/// Strip a leading frontmatter block.
pub fn strip_frontmatter(content: &str) -> (r: String)
    ensures
        r@ == strip_frontmatter_spec(content@),
{
    proof {
        reveal_strlit("---");
        reveal_strlit("\n---");
    }
    let c = chars_of(content);
    if !starts_with_str(&c, "---") {
        return string_of(&c);
    }
    let marker = chars_of("\n---");
    assert(marker@.len() == 4);
    match find_from_exec(&c, &marker, 3) {
        Some(i) => {
            assert(i + marker@.len() <= c@.len());
            assert(i + 4 <= c.len());
            let end = i + 4;
            if end < c.len() && c[end] == '\n' {
                string_of(&slice(&c, end + 1, c.len()))
            } else {
                string_of(&slice(&c, end, c.len()))
            }
        },
        None => string_of(&c),
    }
}

/// The number of pages of type `t`.
pub open spec fn type_count(pages: Seq<ExportPage>, t: Seq<char>) -> nat
    decreases pages.len(),
{
    if pages.len() == 0 {
        0
    } else {
        type_count(pages.drop_last(), t) + if pages.last().page_type@ == t { 1nat } else { 0nat }
    }
}

/// The type of the page before `i` (empty before the first).
pub open spec fn type_before(pages: Seq<ExportPage>, i: int) -> Seq<char> {
    if i == 0 {
        seq![]
    } else {
        pages[i - 1].page_type@
    }
}

/// The `llms.txt` lines of page `i`: a heading with the type's page count
/// when its type differs from the previous page's, then its link.
pub open spec fn txt_entry(pages: Seq<ExportPage>, i: int) -> Seq<char> {
    let p = pages[i];
    (if p.page_type@ != type_before(pages, i) {
        "## "@ + p.page_type@ + " ("@ + decimal(type_count(pages, p.page_type@)) + ")\n\n"@
    } else {
        seq![]
    }) + "- ["@ + p.title@ + "]("@ + p.uri@ + (if p.summary@.len() == 0 {
        ")\n"@
    } else {
        "): "@ + p.summary@ + "\n"@
    })
}

/// The `llms.txt` export of `pages` of wiki `wiki`.
pub open spec fn llms_txt_spec(pages: Seq<ExportPage>, wiki: Seq<char>) -> Seq<char> {
    "# "@ + wiki + "\n\n"@ + decimal(pages.len()) + " pages\n\n"@ + concat(
        Seq::new(pages.len(), |i: int| txt_entry(pages, i)),
    )
}

/// The number of pages of type `t`.
fn count_type(pages: &Vec<ExportPage>, t: &[char]) -> (n: usize)
    ensures
        n == type_count(pages@, t@),
{
    let mut n: usize = 0;
    let mut i: usize = 0;
    while i < pages.len()
        invariant
            i <= pages@.len(),
            n == type_count(pages@.subrange(0, i as int), t@),
            n <= i,
        decreases pages.len() - i,
    {
        assert(pages@.subrange(0, i + 1).drop_last() == pages@.subrange(0, i as int));
        if crate::text::seq_eq(&chars_of(pages[i].page_type.as_str()), t) {
            n = n + 1;
        }
        i = i + 1;
    }
    assert(pages@.subrange(0, pages@.len() as int) == pages@);
    n
}

proof fn lemma_concat_new_push(n: int, f: spec_fn(int) -> Seq<char>)
    requires
        0 <= n,
    ensures
        concat(Seq::new((n + 1) as nat, f)) == concat(Seq::new(n as nat, f)) + f(n),
{
    assert(Seq::new((n + 1) as nat, f).drop_last() == Seq::new(n as nat, f));
}

/// Render pages as `llms.txt`: a title, the page count, then for each run
/// of pages of one type a heading with that type's count, and one link line
/// per page (with its summary when it has one).
pub fn render_llms_txt(pages: &Vec<ExportPage>, wiki_name: &str) -> (out: String)
    ensures
        out@ == llms_txt_spec(pages@, wiki_name@),
{
    let mut out: Vec<char> = Vec::new();
    push_str(&mut out, "# ");
    push_str(&mut out, wiki_name);
    push_str(&mut out, "\n\n");
    push_chars(&mut out, &decimal_exec(pages.len() as u64));
    push_str(&mut out, " pages\n\n");
    let ghost head = out@;
    let ghost f = |i: int| txt_entry(pages@, i);
    let mut current: Vec<char> = Vec::new();
    let mut i: usize = 0;
    while i < pages.len()
        invariant
            i <= pages@.len(),
            f == (|i: int| txt_entry(pages@, i)),
            out@ == head + concat(Seq::new(i as nat, f)),
            current@ == type_before(pages@, i as int),
        decreases pages.len() - i,
    {
        let p = &pages[i];
        let ty = chars_of(p.page_type.as_str());
        let ghost before = out@;
        if !crate::text::seq_eq(&ty, &current) {
            let count = count_type(pages, &ty);
            push_str(&mut out, "## ");
            push_chars(&mut out, &ty);
            push_str(&mut out, " (");
            push_chars(&mut out, &decimal_exec(count as u64));
            push_str(&mut out, ")\n\n");
        }
        push_str(&mut out, "- [");
        push_str(&mut out, p.title.as_str());
        push_str(&mut out, "](");
        push_str(&mut out, p.uri.as_str());
        if chars_of(p.summary.as_str()).len() == 0 {
            push_str(&mut out, ")\n");
        } else {
            push_str(&mut out, "): ");
            push_str(&mut out, p.summary.as_str());
            push_str(&mut out, "\n");
        }
        proof {
            assert(out@ == before + txt_entry(pages@, i as int));
            lemma_concat_new_push(i as int, f);
        }
        current = ty;
        i = i + 1;
    }
    string_of(&out)
}

proof fn lemma_type_count_filter(pages: Seq<ExportPage>, t: Seq<char>)
    ensures
        type_count(pages, t) == pages.filter(|p: ExportPage| p.page_type@ == t).len(),
    decreases pages.len(),
{
    let f = |p: ExportPage| p.page_type@ == t;
    reveal(Seq::filter);
    if pages.len() > 0 {
        lemma_type_count_filter(pages.drop_last(), t);
        assert(pages.drop_last().filter(f).len() == type_count(pages.drop_last(), t));
        if f(pages.last()) {
            assert(pages.filter(f) == pages.drop_last().filter(f).push(pages.last()));
        } else {
            assert(pages.filter(f) == pages.drop_last().filter(f));
        }
    }
}

/// Each page has its own link line in `llms.txt`, whatever its place in its
/// type's run: the export is the title and page count followed by one entry
/// per page, in order. Entry `i` is `- [title](uri)`, then `: summary` when
/// the summary is non-empty, built from page `i` alone; it is preceded by
/// the heading `## type (n)`, `n` the number of pages of that type, exactly
/// when the page's type differs from the previous page's (from the empty
/// type for the first page).
pub proof fn llms_txt_lists_every_page(pages: Seq<ExportPage>, wiki: Seq<char>)
    ensures
        llms_txt_spec(pages, wiki) == "# "@ + wiki + "\n\n"@ + decimal(pages.len()) + " pages\n\n"@
            + concat(Seq::new(pages.len(), |i: int| txt_entry(pages, i))),
        forall|i: int|
            #![trigger txt_entry(pages, i)]
            0 <= i < pages.len() ==> txt_entry(pages, i) == (if (i == 0 && pages[i].page_type@.len()
                == 0) || (i > 0 && pages[i - 1].page_type@ == pages[i].page_type@) {
                seq![]
            } else {
                "## "@ + pages[i].page_type@ + " ("@ + decimal(
                    pages.filter(|p: ExportPage| p.page_type@ == pages[i].page_type@).len(),
                ) + ")\n\n"@
            }) + "- ["@ + pages[i].title@ + "]("@ + pages[i].uri@ + (if pages[i].summary@.len() == 0 {
                ")\n"@
            } else {
                "): "@ + pages[i].summary@ + "\n"@
            }),
{
    assert forall|i: int|
        #![trigger txt_entry(pages, i)]
        0 <= i < pages.len() implies txt_entry(pages, i) == (if (i == 0 && pages[i].page_type@.len()
            == 0) || (i > 0 && pages[i - 1].page_type@ == pages[i].page_type@) {
            seq![]
        } else {
            "## "@ + pages[i].page_type@ + " ("@ + decimal(
                pages.filter(|p: ExportPage| p.page_type@ == pages[i].page_type@).len(),
            ) + ")\n\n"@
        }) + "- ["@ + pages[i].title@ + "]("@ + pages[i].uri@ + (if pages[i].summary@.len() == 0 {
            ")\n"@
        } else {
            "): "@ + pages[i].summary@ + "\n"@
        }) by {
        let t = pages[i].page_type@;
        lemma_type_count_filter(pages, t);
        let same = (i == 0 && t.len() == 0) || (i > 0 && pages[i - 1].page_type@ == t);
        if i == 0 {
            assert(type_before(pages, i) =~= seq![]);
            if t.len() == 0 {
                assert(t =~= type_before(pages, i));
            }
        }
        assert(same <==> t == type_before(pages, i));
        assert((|p: ExportPage| p.page_type@ == t) =~= (|p: ExportPage| p.page_type@ == pages[i].page_type@));
        let line = "- ["@ + pages[i].title@ + "]("@ + pages[i].uri@ + (if pages[i].summary@.len() == 0 {
            ")\n"@
        } else {
            "): "@ + pages[i].summary@ + "\n"@
        });
        if same {
            assert(txt_entry(pages, i) =~= seq![] + line);
        } else {
            assert(txt_entry(pages, i) =~= "## "@ + t + " ("@ + decimal(type_count(pages, t)) + ")\n\n"@ + line);
        }
    }
}

/// The full export entry of a page: a rule, its linked title, its summary
/// in italics when it has one, and its trimmed body when loaded.
pub open spec fn full_entry(p: ExportPage) -> Seq<char> {
    "---\n\n"@ + "# ["@ + p.title@ + "]("@ + p.uri@ + ")\n\n"@ + (if p.summary@.len() == 0 {
        seq![]
    } else {
        "_"@ + p.summary@ + "_\n\n"@
    }) + match p.body {
        Some(b) => trim(b@) + "\n\n"@,
        None => seq![],
    }
}

/// The `llms-full` export of `pages` of wiki `wiki`.
pub open spec fn llms_full_spec(pages: Seq<ExportPage>, wiki: Seq<char>) -> Seq<char> {
    "# "@ + wiki + "\n\n"@ + decimal(pages.len()) + " pages\n\n"@ + concat(
        pages.map_values(|p: ExportPage| full_entry(p)),
    )
}

/// Render pages with their bodies.
pub fn render_llms_full(pages: &Vec<ExportPage>, wiki_name: &str) -> (out: String)
    ensures
        out@ == llms_full_spec(pages@, wiki_name@),
{
    let mut out: Vec<char> = Vec::new();
    push_str(&mut out, "# ");
    push_str(&mut out, wiki_name);
    push_str(&mut out, "\n\n");
    push_chars(&mut out, &decimal_exec(pages.len() as u64));
    push_str(&mut out, " pages\n\n");
    let ghost head = out@;
    let ghost es = pages@.map_values(|p: ExportPage| full_entry(p));
    let mut i: usize = 0;
    while i < pages.len()
        invariant
            i <= pages@.len(),
            es == pages@.map_values(|p: ExportPage| full_entry(p)),
            out@ == head + concat(es.subrange(0, i as int)),
        decreases pages.len() - i,
    {
        let p = &pages[i];
        let ghost before = out@;
        push_str(&mut out, "---\n\n");
        push_str(&mut out, "# [");
        push_str(&mut out, p.title.as_str());
        push_str(&mut out, "](");
        push_str(&mut out, p.uri.as_str());
        push_str(&mut out, ")\n\n");
        if chars_of(p.summary.as_str()).len() > 0 {
            push_str(&mut out, "_");
            push_str(&mut out, p.summary.as_str());
            push_str(&mut out, "_\n\n");
        }
        match &p.body {
            Some(b) => {
                let t = trim_exec(&chars_of(b.as_str()));
                push_chars(&mut out, &t);
                push_str(&mut out, "\n\n");
            },
            None => {},
        }
        proof {
            assert(out@ == before + full_entry(*p));
            assert(es.subrange(0, i + 1).drop_last() == es.subrange(0, i as int));
        }
        i = i + 1;
    }
    assert(es.subrange(0, pages@.len() as int) == es);
    string_of(&out)
}

/// The full export holds one entry per page, in order, each built from that
/// page alone: a rule, its linked title, its summary in italics when it has
/// one, and its trimmed body when loaded.
pub proof fn llms_full_lists_every_page(pages: Seq<ExportPage>, wiki: Seq<char>)
    ensures
        llms_full_spec(pages, wiki) == "# "@ + wiki + "\n\n"@ + decimal(pages.len()) + " pages\n\n"@
            + concat(
            Seq::new(
                pages.len(),
                |i: int|
                    "---\n\n# ["@ + pages[i].title@ + "]("@ + pages[i].uri@ + ")\n\n"@ + (
                    if pages[i].summary@.len() == 0 {
                        seq![]
                    } else {
                        "_"@ + pages[i].summary@ + "_\n\n"@
                    }) + match pages[i].body {
                        Some(b) => trim(b@) + "\n\n"@,
                        None => seq![],
                    },
            ),
        ),
{
    reveal_strlit("---\n\n");
    reveal_strlit("# [");
    reveal_strlit("---\n\n# [");
    let es = pages.map_values(|p: ExportPage| full_entry(p));
    assert forall|i: int| 0 <= i < pages.len() implies es[i] =~= "---\n\n# ["@ + pages[i].title@ + "]("@
        + pages[i].uri@ + ")\n\n"@ + (if pages[i].summary@.len() == 0 {
        seq![]
    } else {
        "_"@ + pages[i].summary@ + "_\n\n"@
    }) + match pages[i].body {
        Some(b) => trim(b@) + "\n\n"@,
        None => seq![],
    } by {}
    assert(es =~= Seq::new(
        pages.len(),
        |i: int|
            "---\n\n# ["@ + pages[i].title@ + "]("@ + pages[i].uri@ + ")\n\n"@ + (
            if pages[i].summary@.len() == 0 {
                seq![]
            } else {
                "_"@ + pages[i].summary@ + "_\n\n"@
            }) + match pages[i].body {
                Some(b) => trim(b@) + "\n\n"@,
                None => seq![],
            },
    ));
}

} // verus!
