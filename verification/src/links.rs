//! Link extraction: frontmatter `sources`/`concepts` lists and body
//! `[[wikilinks]]`.
use vstd::prelude::*;

use crate::frontmatter::{fm_get, fm_str_list, ParsedPage};
use crate::text::{
    chars_of, find, find_char, find_from, find_from_exec, lemma_find_char, lemma_find_from,
    occurs_at, seq_eq, slice, starts_with, starts_with_str, string_of, trim, trim_exec,
};

verus! {

// ── ParsedLink ────────────────────────────────────────────────────────────────

/// A link target: a local slug, or a `wiki://name/slug` cross-wiki reference.
#[derive(Debug, Clone)]
pub enum ParsedLink {
    Local(String),
    CrossWiki { wiki: String, slug: String },
}

/// How `s` is read as a link: `Some((wiki, slug))` for a cross-wiki
/// reference (a `/` after `wiki://`), `None` for a local link.
pub open spec fn cross_wiki_parts(s: Seq<char>) -> Option<(Seq<char>, Seq<char>)> {
    if starts_with(s, "wiki://"@) {
        let rest = s.subrange("wiki://"@.len() as int, s.len() as int);
        match find_char(rest, '/') {
            Some(slash) => Some((rest.subrange(0, slash), rest.subrange(slash + 1, rest.len() as int))),
            None => None,
        }
    } else {
        None
    }
}

/// A link is cross-wiki with wiki `w` and slug `sl` exactly when its text is
/// `wiki://`, then `w` (which holds no `/`), then `/`, then `sl`: reading the
/// parts and writing them back round-trip.
pub proof fn cross_wiki_round_trip(s: Seq<char>, w: Seq<char>, sl: Seq<char>)
    ensures
        cross_wiki_parts(s) == Some((w, sl)) <==> (s == "wiki://"@ + w + "/"@ + sl && !w.contains('/')),
{
    reveal_strlit("wiki://");
    reveal_strlit("/");
    let scheme = "wiki://"@;
    if cross_wiki_parts(s) == Some((w, sl)) {
        let rest = s.subrange(7, s.len() as int);
        lemma_find_char(rest, '/');
        let slash = find_char(rest, '/')->0;
        assert(w == rest.subrange(0, slash));
        assert(!w.contains('/')) by {
            if w.contains('/') {
                let j = choose|j: int| 0 <= j < w.len() && w[j] == '/';
                assert(rest[j] == '/');
            }
        }
        assert(s.subrange(0, 7) == scheme);
        assert(s =~= scheme + w + "/"@ + sl);
    }
    if s == scheme + w + "/"@ + sl && !w.contains('/') {
        assert(s.subrange(0, 7) =~= scheme);
        assert(starts_with(s, scheme));
        let rest = s.subrange(7, s.len() as int);
        assert(rest =~= w + seq!['/'] + sl);
        crate::slug::lemma_find_char_after(w, '/', sl);
        assert(rest.subrange(0, w.len() as int) =~= w);
        assert(rest.subrange(w.len() as int + 1, rest.len() as int) =~= sl);
    }
}

impl ParsedLink {
    /// Read a link target: `wiki://name/slug` is cross-wiki (the wiki name
    /// ends at the first `/`), anything else is local.
    pub fn parse(s: &str) -> (r: ParsedLink)
        ensures
            match cross_wiki_parts(s@) {
                Some((w, sl)) => r matches ParsedLink::CrossWiki { wiki, slug } && wiki@ == w
                    && slug@ == sl,
                None => r matches ParsedLink::Local(l) && l@ == s@,
            },
    {
        let v = chars_of(s);
        if starts_with_str(&v, "wiki://") {
            let scheme = chars_of("wiki://");
            let rest = slice(&v, scheme.len(), v.len());
            assert(rest@ == s@.subrange("wiki://"@.len() as int, s@.len() as int));
            match crate::text::find_char_exec(&rest, '/') {
                Some(slash) => {
                    let wiki = slice(&rest, 0, slash);
                    let slug = slice(&rest, slash + 1, rest.len());
                    assert(starts_with(s@, "wiki://"@));
                    assert(find_char(rest@, '/') == Some(slash as int));
                    assert(cross_wiki_parts(s@) == Some((wiki@, slug@)));
                    return ParsedLink::CrossWiki { wiki: string_of(&wiki), slug: string_of(&slug) };
                },
                None => {},
            }
        }
        ParsedLink::Local(string_of(&v))
    }

    /// The slug part of the link: the whole text of a local link, the slug
    /// after the wiki name of a cross-wiki link.
    pub fn as_raw(&self) -> (s: &str)
        ensures
            match self {
                ParsedLink::Local(l) => s@ == l@,
                ParsedLink::CrossWiki { wiki, slug } => s@ == slug@,
            },
    {
        match self {
            ParsedLink::Local(s) => s.as_str(),
            ParsedLink::CrossWiki { wiki, slug } => slug.as_str(),
        }
    }
}

// ── Wikilinks ─────────────────────────────────────────────────────────────────

/// The non-empty, trimmed targets of the `[[...]]` links of `t`, in order.
/// An opening `[[` without a closing `]]` after it ends the scan.
pub open spec fn wikilinks(t: Seq<char>) -> Seq<Seq<char>>
    decreases t.len(),
{
    match find(t, "[["@) {
        Some(s) => {
            proof {
                reveal_strlit("[[");
                lemma_find_from(t, "[["@, 0);
            }
            let after = t.subrange(s + 2, t.len() as int);
            match find(after, "]]"@) {
                Some(e) => {
                    proof {
                        reveal_strlit("]]");
                        lemma_find_from(after, "]]"@, 0);
                    }
                    let l = trim(after.subrange(0, e));
                    let rest = after.subrange(e + 2, after.len() as int);
                    if l.len() > 0 {
                        seq![l] + wikilinks(rest)
                    } else {
                        wikilinks(rest)
                    }
                },
                None => seq![],
            }
        },
        None => seq![],
    }
}

/// Add `items` in order to (`seen`, `result`): an item that `seen` already
/// holds is skipped, a new one is appended to both (`HashSet::insert`
/// followed by a push).
pub open spec fn add_new(seen: Seq<Seq<char>>, result: Seq<Seq<char>>, items: Seq<Seq<char>>) -> (
    Seq<Seq<char>>,
    Seq<Seq<char>>,
)
    decreases items.len(),
{
    if items.len() == 0 {
        (seen, result)
    } else {
        let (s, r) = add_new(seen, result, items.drop_last());
        if s.contains(items.last()) {
            (s, r)
        } else {
            (s.push(items.last()), r.push(items.last()))
        }
    }
}

/// The texts of a vector of strings.
pub open spec fn texts(v: Seq<String>) -> Seq<Seq<char>> {
    v.map_values(|s: String| s@)
}

/// Whether the text `s` is among `v`.
pub fn contains_text(v: &Vec<String>, s: &[char]) -> (r: bool)
    ensures
        r == texts(v@).contains(s@),
{
    let mut i: usize = 0;
    while i < v.len()
        invariant
            0 <= i <= v.len(),
            forall|j: int| 0 <= j < i ==> v@[j]@ != s@,
        decreases v.len() - i,
    {
        let c = chars_of(v[i].as_str());
        if seq_eq(&c, s) {
            assert(texts(v@)[i as int] == s@);
            return true;
        }
        i = i + 1;
    }
    proof {
        if texts(v@).contains(s@) {
            let j = choose|j: int| 0 <= j < texts(v@).len() && texts(v@)[j] == s@;
            assert(v@[j]@ == s@);
        }
    }
    false
}

/// Add one item to (`seen`, `result`) unless `seen` already holds it.
fn add_one(seen: &mut Vec<String>, result: &mut Vec<String>, item: &[char])
    ensures
        (texts(final(seen)@), texts(final(result)@)) == (if texts(old(seen)@).contains(item@) {
            (texts(old(seen)@), texts(old(result)@))
        } else {
            (texts(old(seen)@).push(item@), texts(old(result)@).push(item@))
        }),
{
    if !contains_text(seen, item) {
        let s = string_of(item);
        let s2 = string_of(item);
        seen.push(s);
        result.push(s2);
        assert(texts(seen@) == texts(old(seen)@).push(item@));
        assert(texts(result@) == texts(old(result)@).push(item@));
    }
}

/// Extract the `[[slug]]` links of `text` (trimmed, non-empty), adding each
/// target not yet in `seen` to both `seen` and `result`, in order.
pub fn extract_wikilinks(text: &str, seen: &mut Vec<String>, result: &mut Vec<String>)
    ensures
        (texts(final(seen)@), texts(final(result)@)) == add_new(
            texts(old(seen)@),
            texts(old(result)@),
            wikilinks(text@),
        ),
{
    let t = chars_of(text);
    let open = chars_of("[[");
    let close = chars_of("]]");
    let mut pos: usize = 0;
    let ghost mut done: Seq<Seq<char>> = seq![];
    proof {
        reveal_strlit("[[");
        reveal_strlit("]]");
    }
    assert(t@.subrange(0, t@.len() as int) == t@);
    loop
        invariant
            pos <= t@.len(),
            t@ == text@,
            open@ == "[["@,
            close@ == "]]"@,
            open@ == seq!['[', '['],
            close@ == seq![']', ']'],
            wikilinks(t@) == done + wikilinks(t@.subrange(pos as int, t@.len() as int)),
            (texts(seen@), texts(result@)) == add_new(texts(old(seen)@), texts(old(result)@), done),
        decreases t@.len() - pos,
    {
        let rest = slice(&t, pos, t.len());
        proof {
            lemma_find_from(rest@, open@, 0);
        }
        match find_from_exec(&rest, &open, 0) {
            None => {
                assert(wikilinks(rest@) == Seq::<Seq<char>>::empty());
                assert(done + Seq::<Seq<char>>::empty() == done);
                return ;
            },
            Some(s) => {
                let after = slice(&rest, s + 2, rest.len());
                proof {
                    lemma_find_from(after@, close@, 0);
                }
                match find_from_exec(&after, &close, 0) {
                    None => {
                        assert(wikilinks(rest@) == Seq::<Seq<char>>::empty());
                        assert(done + Seq::<Seq<char>>::empty() == done);
                        return ;
                    },
                    Some(e) => {
                        let inner = slice(&after, 0, e);
                        let l = trim_exec(&inner);
                        let ghost next_rest = after@.subrange(e + 2, after@.len() as int);
                        if l.len() > 0 {
                            add_one(seen, result, &l);
                            proof {
                                assert(wikilinks(rest@) == seq![l@] + wikilinks(next_rest));
                                assert(done.push(l@).drop_last() == done);
                                assert((done + seq![l@]) == done.push(l@));
                                done = done.push(l@);
                            }
                        } else {
                            assert(wikilinks(rest@) == wikilinks(next_rest));
                        }
                        assert(next_rest == t@.subrange(pos + s + 2 + e + 2, t@.len() as int));
                        pos = pos + s + 2 + e + 2;
                    },
                }
            },
        }
    }
}

/// Whether `l` is what [`ParsedLink::parse`] makes of `raw`.
pub open spec fn parsed_from(l: ParsedLink, raw: Seq<char>) -> bool {
    match cross_wiki_parts(raw) {
        Some((w, sl)) => l matches ParsedLink::CrossWiki { wiki, slug } && wiki@ == w && slug@ == sl,
        None => l matches ParsedLink::Local(x) && x@ == raw,
    }
}

/// Whether `links` is, item by item, what [`ParsedLink::parse`] makes of `raws`.
pub open spec fn all_parsed_from(links: Seq<ParsedLink>, raws: Seq<Seq<char>>) -> bool {
    &&& links.len() == raws.len()
    &&& forall|i: int| 0 <= i < links.len() ==> parsed_from(#[trigger] links[i], raws[i])
}

/// The string items of the frontmatter list under `key` of `p`.
pub open spec fn list_of(p: ParsedPage, key: Seq<char>) -> Seq<Seq<char>> {
    match fm_get(p.frontmatter.entries@, key) {
        Some(v) => fm_str_list(v),
        None => seq![],
    }
}

/// The links of a page: `sources`, then `concepts`, then body wikilinks,
/// each target kept once, at its first occurrence.
pub open spec fn page_links(p: ParsedPage) -> Seq<Seq<char>> {
    let (s1, r1) = add_new(seq![], seq![], list_of(p, "sources"@));
    let (s2, r2) = add_new(s1, r1, list_of(p, "concepts"@));
    add_new(s2, r2, wikilinks(p.body@)).1
}

/// What `add_new` keeps does not depend on the result it starts from, and the
/// result only grows at its end.
pub proof fn lemma_add_new_split(seen: Seq<Seq<char>>, result: Seq<Seq<char>>, items: Seq<Seq<char>>)
    ensures
        add_new(seen, result, items).0 == add_new(seen, seq![], items).0,
        add_new(seen, result, items).1 == result + add_new(seen, seq![], items).1,
    decreases items.len(),
{
    if items.len() > 0 {
        lemma_add_new_split(seen, result, items.drop_last());
        let (s0, r0) = add_new(seen, seq![], items.drop_last());
        assert(result + r0.push(items.last()) == (result + r0).push(items.last()));
    } else {
        assert(result + Seq::<Seq<char>>::empty() == result);
    }
}

/// Add each of `items`, in order, to (`seen`, `result`) unless `seen`
/// already holds it.
fn add_all(seen: &mut Vec<String>, result: &mut Vec<String>, items: &Vec<String>)
    ensures
        (texts(final(seen)@), texts(final(result)@)) == add_new(
            texts(old(seen)@),
            texts(old(result)@),
            texts(items@),
        ),
{
    let ghost s0 = texts(seen@);
    let ghost r0 = texts(result@);
    let mut i: usize = 0;
    assert(texts(items@).take(0) =~= Seq::<Seq<char>>::empty());
    while i < items.len()
        invariant
            0 <= i <= items.len(),
            s0 == texts(old(seen)@),
            r0 == texts(old(result)@),
            (texts(seen@), texts(result@)) == add_new(s0, r0, texts(items@).take(i as int)),
        decreases items.len() - i,
    {
        let item = chars_of(items[i].as_str());
        add_one(seen, result, &item);
        assert(texts(items@).take(i + 1).drop_last() =~= texts(items@).take(i as int));
        assert(texts(items@).take(i + 1).last() == item@);
        i = i + 1;
    }
    assert(texts(items@).take(items.len() as int) =~= texts(items@));
}

/// All linked slugs of a page: frontmatter `sources`, `concepts`, and body
/// `[[wikilinks]]`, deduplicated, in order of first occurrence.
pub fn extract_links(page: &ParsedPage) -> (r: Vec<String>)
    ensures
        texts(r@) == page_links(*page),
{
    let mut seen: Vec<String> = Vec::new();
    let mut result: Vec<String> = Vec::new();
    assert(texts(seen@) =~= Seq::<Seq<char>>::empty());
    assert(texts(result@) =~= Seq::<Seq<char>>::empty());
    let sources = page.string_list("sources");
    add_all(&mut seen, &mut result, &sources);
    let concepts = page.string_list("concepts");
    add_all(&mut seen, &mut result, &concepts);
    extract_wikilinks(page.body.as_str(), &mut seen, &mut result);
    result
}

/// Append to `out` what [`ParsedLink::parse`] makes of each of `raws`.
fn push_parsed(out: &mut Vec<ParsedLink>, raws: &Vec<String>)
    ensures
        final(out)@.len() == old(out)@.len() + raws@.len(),
        final(out)@.take(old(out)@.len() as int) == old(out)@,
        all_parsed_from(final(out)@.skip(old(out)@.len() as int), texts(raws@)),
{
    let ghost start = out@.len();
    let mut i: usize = 0;
    while i < raws.len()
        invariant
            0 <= i <= raws.len(),
            start == old(out)@.len(),
            out@.len() == start + i,
            out@.take(start as int) == old(out)@,
            forall|j: int| 0 <= j < i ==> parsed_from(#[trigger] out@[start + j], raws@[j]@),
        decreases raws.len() - i,
    {
        let l = ParsedLink::parse(raws[i].as_str());
        out.push(l);
        assert(out@.take(start as int) =~= old(out)@);
        i = i + 1;
    }
    assert forall|j: int| 0 <= j < out@.skip(start as int).len() implies parsed_from(
        #[trigger] out@.skip(start as int)[j],
        texts(raws@)[j],
    ) by {
        assert(out@.skip(start as int)[j] == out@[start + j]);
    }
}

/// The `[[wikilinks]]` of `text` not yet in `seen`, each parsed as a
/// [`ParsedLink`] and appended to `result` (and its raw text to `seen`).
pub fn extract_parsed_wikilinks(text: &str, seen: &mut Vec<String>, result: &mut Vec<ParsedLink>)
    ensures
        texts(final(seen)@) == add_new(texts(old(seen)@), seq![], wikilinks(text@)).0,
        final(result)@.len() >= old(result)@.len(),
        final(result)@.take(old(result)@.len() as int) == old(result)@,
        all_parsed_from(
            final(result)@.skip(old(result)@.len() as int),
            add_new(texts(old(seen)@), seq![], wikilinks(text@)).1,
        ),
{
    let mut raws: Vec<String> = Vec::new();
    assert(texts(raws@) =~= Seq::<Seq<char>>::empty());
    extract_wikilinks(text, seen, &mut raws);
    push_parsed(result, &raws);
}

/// Like [`extract_links`], with each link parsed: local slugs and
/// `wiki://name/slug` cross-wiki references told apart.
pub fn extract_parsed_links(page: &ParsedPage) -> (r: Vec<ParsedLink>)
    ensures
        all_parsed_from(r@, page_links(*page)),
{
    let mut seen: Vec<String> = Vec::new();
    let mut raws: Vec<String> = Vec::new();
    assert(texts(seen@) =~= Seq::<Seq<char>>::empty());
    assert(texts(raws@) =~= Seq::<Seq<char>>::empty());
    let sources = page.string_list("sources");
    add_all(&mut seen, &mut raws, &sources);
    let concepts = page.string_list("concepts");
    add_all(&mut seen, &mut raws, &concepts);
    let mut result: Vec<ParsedLink> = Vec::new();
    push_parsed(&mut result, &raws);
    let ghost front = result@;
    let ghost s2 = texts(seen@);
    let ghost r2 = texts(raws@);
    extract_parsed_wikilinks(page.body.as_str(), &mut seen, &mut result);
    proof {
        let w = wikilinks(page.body@);
        lemma_add_new_split(s2, r2, w);
        let tail = add_new(s2, seq![], w).1;
        assert(page_links(*page) == r2 + tail);
        assert(result@.take(front.len() as int) == front);
        assert forall|i: int| 0 <= i < result@.len() implies parsed_from(
            #[trigger] result@[i],
            page_links(*page)[i],
        ) by {
            if i < front.len() {
                assert(front.skip(0)[i] == front[i]);
                assert(result@[i] == result@.take(front.len() as int)[i]);
            } else {
                assert(result@[i] == result@.skip(front.len() as int)[i - front.len()]);
            }
        }
    }
    result
}

/// Only the body `[[wikilinks]]` of `text`, deduplicated, in order.
pub fn extract_body_wikilinks(text: &str) -> (r: Vec<String>)
    ensures
        texts(r@) == add_new(seq![], seq![], wikilinks(text@)).1,
{
    let mut seen: Vec<String> = Vec::new();
    let mut result: Vec<String> = Vec::new();
    assert(texts(seen@) == Seq::<Seq<char>>::empty());
    assert(texts(result@) == Seq::<Seq<char>>::empty());
    extract_wikilinks(text, &mut seen, &mut result);
    result
}

} // verus!
