//! Slugs (page addresses relative to the wiki root) and `wiki://` URIs.
use vstd::prelude::*;

use crate::text::{
    after_last, chars_of, find, find_char, find_from_exec, join, lemma_find_char,
    lemma_rfind_char, push_chars, push_str, rfind_char, rfind_char_exec, slice, split_char,
    string_of, trim, trim_exec, starts_with, starts_with_exec, rstrip_char, rstrip_char_exec,
    find_char_exec, is_ws, ltrim, rtrim, eq_str,
};

verus! {

// ── Errors ────────────────────────────────────────────────────────────────────

/// What went wrong when reading a slug, a URI or a read target.
#[derive(Debug, Clone, Copy, PartialEq, Eq, Structural)]
pub enum SlugErrorKind {
    /// The slug is empty after trimming.
    Empty,
    /// The slug starts with `/`.
    LeadingSlash,
    /// The slug contains `../` or `..\`.
    PathTraversal,
    /// The last segment of the slug has a file extension.
    Extension,
    /// A `wiki://` URI with nothing after the scheme.
    InvalidUri,
    /// No page file exists for the slug.
    PageNotFound,
    /// A co-located asset was named but does not exist.
    AssetNotFound,
}

/// An error about a slug, with the text it is about.
#[derive(Debug, Clone)]
pub struct SlugError {
    pub kind: SlugErrorKind,
    /// The (trimmed) text the error is about.
    pub input: String,
}

impl SlugError {
    /// The human-readable message of this error.
    pub fn message(&self) -> (m: String)
        ensures
            self.kind == SlugErrorKind::Empty ==> m@ == "slug cannot be empty"@,
            self.kind == SlugErrorKind::LeadingSlash ==> m@ == "slug cannot start with /: "@
                + self.input@,
            self.kind == SlugErrorKind::PathTraversal ==> m@
                == "slug cannot contain path traversal: "@ + self.input@,
            self.kind == SlugErrorKind::Extension ==> m@ == "slug cannot have a file extension: "@
                + self.input@,
            self.kind == SlugErrorKind::InvalidUri ==> m@ == "invalid wiki URI: "@ + self.input@,
            self.kind == SlugErrorKind::PageNotFound ==> m@ == "page not found: "@ + self.input@,
            self.kind == SlugErrorKind::AssetNotFound ==> m@ == "asset not found: "@
                + self.input@,
    {
        let mut out: Vec<char> = Vec::new();
        match self.kind {
            SlugErrorKind::Empty => {
                push_str(&mut out, "slug cannot be empty");
                return string_of(&out);
            },
            SlugErrorKind::LeadingSlash => push_str(&mut out, "slug cannot start with /: "),
            SlugErrorKind::PathTraversal => push_str(
                &mut out,
                "slug cannot contain path traversal: ",
            ),
            SlugErrorKind::Extension => push_str(&mut out, "slug cannot have a file extension: "),
            SlugErrorKind::InvalidUri => push_str(&mut out, "invalid wiki URI: "),
            SlugErrorKind::PageNotFound => push_str(&mut out, "page not found: "),
            SlugErrorKind::AssetNotFound => push_str(&mut out, "asset not found: "),
        }
        push_str(&mut out, self.input.as_str());
        string_of(&out)
    }
}

// ── Slug ──────────────────────────────────────────────────────────────────────

/// The last segment of `s` has a non-empty file extension.
pub open spec fn has_extension(segment: Seq<char>) -> bool {
    match rfind_char(segment, '.') {
        Some(d) => d + 1 < segment.len(),
        None => false,
    }
}

/// Why the (already trimmed) text `s` is not a slug, if it is not one.
pub open spec fn slug_fault(s: Seq<char>) -> Option<SlugErrorKind> {
    if s.len() == 0 {
        Some(SlugErrorKind::Empty)
    } else if s[0] == '/' {
        Some(SlugErrorKind::LeadingSlash)
    } else if find(s, "../"@) is Some || find(s, "..\\"@) is Some {
        Some(SlugErrorKind::PathTraversal)
    } else if has_extension(after_last(s, '/')) {
        Some(SlugErrorKind::Extension)
    } else {
        None
    }
}

/// `s` is a valid slug: non-empty, relative, without traversal, without
/// file extension.
pub open spec fn is_slug(s: Seq<char>) -> bool {
    slug_fault(s) is None
}

/// A validated slug — path relative to the wiki root, no extension.
#[derive(Debug, Clone)]
pub struct Slug(String);

impl View for Slug {
    type V = Seq<char>;

    closed spec fn view(&self) -> Seq<char> {
        self.0@
    }
}

/// Parse `raw` as a slug: the text is trimmed, then checked.
pub open spec fn parse_slug_spec(raw: Seq<char>) -> Result<Seq<char>, SlugErrorKind> {
    match slug_fault(trim(raw)) {
        Some(k) => Err(k),
        None => Ok(trim(raw)),
    }
}

/// Title case of one word: its first character upper-cased.
pub open spec fn capitalize(w: Seq<char>) -> Seq<char> {
    if w.len() == 0 {
        seq![]
    } else {
        uppercase_of(w[0]) + w.drop_first()
    }
}

/// The short joining words that stay in lower case inside a title.
pub open spec fn minor_word(w: Seq<char>) -> bool {
    ||| w == "a"@
    ||| w == "an"@
    ||| w == "and"@
    ||| w == "as"@
    ||| w == "at"@
    ||| w == "but"@
    ||| w == "by"@
    ||| w == "for"@
    ||| w == "in"@
    ||| w == "nor"@
    ||| w == "of"@
    ||| w == "on"@
    ||| w == "or"@
    ||| w == "the"@
    ||| w == "to"@
}

/// The `i`-th word of a title: capitalised, except a joining word after the
/// first, which is kept as it is.
pub open spec fn title_word(i: int, w: Seq<char>) -> Seq<char> {
    if i > 0 && minor_word(w) {
        w
    } else {
        capitalize(w)
    }
}

/// Title case of a `-`-separated segment: words capitalised (joining words
/// after the first left in lower case), joined by spaces.
pub open spec fn title_case_spec(segment: Seq<char>) -> Seq<char> {
    join(split_char(segment, '-').map(|i: int, w: Seq<char>| title_word(i, w)), " "@)
}

/// Whether `w` is a joining word.
fn minor_word_exec(w: &[char]) -> (r: bool)
    ensures
        r == minor_word(w@),
{
    eq_str(w, "a") || eq_str(w, "an") || eq_str(w, "and") || eq_str(w, "as") || eq_str(w, "at") || eq_str(w, "but")
        || eq_str(w, "by") || eq_str(w, "for") || eq_str(w, "in") || eq_str(w, "nor") || eq_str(w, "of") || eq_str(
        w,
        "on",
    ) || eq_str(w, "or") || eq_str(w, "the") || eq_str(w, "to")
}

/// What `char::to_uppercase` yields for `c` (Unicode case mapping).
pub uninterp spec fn uppercase_of(c: char) -> Seq<char>;

/// Upper-case mapping of `c` (`char::to_uppercase`). The whole Unicode
/// mapping is left unstated; the ASCII facts are the ones its documentation
/// gives (same as `to_ascii_uppercase` on ASCII).
#[verifier::external_body]
fn to_uppercase_chars(c: char) -> (r: Vec<char>)
    ensures
        r@ == uppercase_of(c),
        'a' <= c <= 'z' ==> r@ == seq![((c as u32) - 32) as char],
        (c as u32) < 128 && !('a' <= c <= 'z') ==> r@ == seq![c],
{
    c.to_uppercase().collect()
}

fn capitalize_exec(w: &[char]) -> (r: Vec<char>)
    ensures
        r@ == capitalize(w@),
{
    if w.len() == 0 {
        return Vec::new();
    }
    let mut r = to_uppercase_chars(w[0]);
    let rest = slice(w, 1, w.len());
    push_chars(&mut r, &rest);
    assert(rest@ == w@.drop_first());
    r
}

/// Title case of a `-`-separated segment:
/// `mixture-of-experts` → `Mixture of Experts`.
pub fn title_case(segment: &str) -> (r: String)
    ensures
        r@ == title_case_spec(segment@),
{
    let v = chars_of(segment);
    let r = title_case_chars(&v);
    string_of(&r)
}

/// `title_case` on characters.
pub fn title_case_chars(v: &[char]) -> (r: Vec<char>)
    ensures
        r@ == title_case_spec(v@),
{
    let words = split_char_exec(v, '-');
    let ghost caps = words@.map_values(|w: Vec<char>| w@).map(|i: int, w: Seq<char>| title_word(i, w));
    let mut out: Vec<char> = Vec::new();
    let mut i: usize = 0;
    while i < words.len()
        invariant
            0 <= i <= words@.len(),
            words@.map_values(|w: Vec<char>| w@) == split_char(v@, '-'),
            caps == split_char(v@, '-').map(|i: int, w: Seq<char>| title_word(i, w)),
            out@ == join(caps.subrange(0, i as int), " "@),
        decreases words.len() - i,
    {
        let c = if i > 0 && minor_word_exec(&words[i]) {
            slice(&words[i], 0, words[i].len())
        } else {
            capitalize_exec(&words[i])
        };
        proof {
            assert(words@.map_values(|w: Vec<char>| w@)[i as int] == words@[i as int]@);
            assert(c@ == caps[i as int]);
        }
        let ghost prev = out@;
        if i > 0 {
            push_str(&mut out, " ");
        }
        push_chars(&mut out, &c);
        proof {
            let sub = caps.subrange(0, i + 1);
            assert(sub.drop_last() == caps.subrange(0, i as int));
            assert(sub.last() == c@);
        }
        i = i + 1;
    }
    assert(caps.subrange(0, words@.len() as int) == caps);
    out
}

/// Split `v` on every `c`.
pub fn split_char_exec(v: &[char], c: char) -> (r: Vec<Vec<char>>)
    ensures
        r@.map_values(|w: Vec<char>| w@) == split_char(v@, c),
{
    let mut r: Vec<Vec<char>> = Vec::new();
    let mut start: usize = 0;
    let mut k: usize = 0;
    assert(v@.subrange(0, v@.len() as int) == v@);
    while k < v.len()
        invariant
            start <= k <= v@.len(),
            forall|j: int| start <= j < k ==> v@[j] != c,
            split_char(v@, c) == r@.map_values(|w: Vec<char>| w@) + split_char(
                v@.subrange(start as int, v@.len() as int),
                c,
            ),
        decreases v.len() - k,
    {
        if v[k] == c {
            let piece = slice(v, start, k);
            proof {
                let rest = v@.subrange(start as int, v@.len() as int);
                lemma_find_char(rest, c);
                assert(rest[k - start] == c);
                assert forall|j: int| 0 <= j < k - start implies rest[j] != c by {
                    assert(rest[j] == v@[start + j]);
                }
                assert(find_char(rest, c) == Some((k - start) as int));
                assert(rest.subrange(0, k - start) == piece@);
                assert(rest.subrange(k - start + 1, rest.len() as int) == v@.subrange(
                    k + 1,
                    v@.len() as int,
                ));
                assert(r@.push(piece).map_values(|w: Vec<char>| w@) == r@.map_values(
                    |w: Vec<char>| w@,
                ).push(piece@));
            }
            r.push(piece);
            start = k + 1;
        }
        k = k + 1;
    }
    let piece = slice(v, start, v.len());
    proof {
        let rest = v@.subrange(start as int, v@.len() as int);
        lemma_find_char(rest, c);
        assert forall|j: int| 0 <= j < rest.len() implies rest[j] != c by {
            assert(rest[j] == v@[start + j]);
        }
        assert(find_char(rest, c) is None);
        assert(r@.push(piece).map_values(|w: Vec<char>| w@) == r@.map_values(|w: Vec<char>| w@).push(
            piece@,
        ));
    }
    r.push(piece);
    r
}

impl Slug {
    /// Parse and validate a slug (`TryFrom<&str>`): the text is trimmed,
    /// then it must be non-empty, not start with `/`, not contain `../` or
    /// `..\`, and its last segment must have no file extension.
    pub fn try_from(raw: &str) -> (r: Result<Slug, SlugError>)
        ensures
            match parse_slug_spec(raw@) {
                Ok(s) => r matches Ok(slug) && slug@ == s,
                Err(k) => r matches Err(e) && e.kind == k && e.input@ == trim(raw@),
            },
    {
        let v = chars_of(raw);
        let s = trim_exec(&v);
        Self::from_trimmed(s)
    }

    fn from_trimmed(s: Vec<char>) -> (r: Result<Slug, SlugError>)
        ensures
            match slug_fault(s@) {
                None => r matches Ok(slug) && slug@ == s@,
                Some(k) => r matches Err(e) && e.kind == k && e.input@ == s@,
            },
    {
        let input = string_of(&s);
        if s.len() == 0 {
            return Err(SlugError { kind: SlugErrorKind::Empty, input });
        }
        if s[0] == '/' {
            return Err(SlugError { kind: SlugErrorKind::LeadingSlash, input });
        }
        let dotdot_slash = chars_of("../");
        let dotdot_back = chars_of("..\\");
        if find_from_exec(&s, &dotdot_slash, 0).is_some() || find_from_exec(&s, &dotdot_back, 0).is_some() {
            return Err(SlugError { kind: SlugErrorKind::PathTraversal, input });
        }
        let last = after_last_exec(&s, '/');
        proof {
            lemma_rfind_char(last@, '.');
        }
        match rfind_char_exec(&last, '.') {
            Some(d) => {
                assert(d < last.len());
                if d + 1 < last.len() {
                    return Err(SlugError { kind: SlugErrorKind::Extension, input });
                }
            },
            None => {},
        }
        Ok(Slug(input))
    }

    /// The slug as text.
    pub fn as_str(&self) -> (s: &str)
        ensures
            s@ == self@,
    {
        self.0.as_str()
    }

    /// Display title derived from the last slug segment:
    /// `concepts/mixture-of-experts` → `Mixture of Experts`.
    pub fn title(&self) -> (t: String)
        ensures
            t@ == title_case_spec(after_last(self@, '/')),
    {
        let v = chars_of(self.0.as_str());
        let last = after_last_exec(&v, '/');
        let r = title_case_chars(&last);
        string_of(&r)
    }

    /// Path of the flat page file, relative to the wiki root: `<slug>.md`.
    pub fn flat_file(&self) -> (p: String)
        ensures
            p@ == self@ + ".md"@,
    {
        let mut out = chars_of(self.0.as_str());
        push_str(&mut out, ".md");
        string_of(&out)
    }

    /// Path of the bundle page file, relative to the wiki root:
    /// `<slug>/index.md`.
    pub fn bundle_file(&self) -> (p: String)
        ensures
            p@ == self@ + "/index.md"@,
    {
        let mut out = chars_of(self.0.as_str());
        push_str(&mut out, "/index.md");
        string_of(&out)
    }

    /// Resolve this slug to its page file: the flat file when it exists,
    /// else the bundle file when it exists, else `PageNotFound`. The two
    /// arguments say whether `<wiki_root>/<slug>.md` and
    /// `<wiki_root>/<slug>/index.md` are files; the result is relative to
    /// the wiki root.
    pub fn resolve(&self, flat_is_file: bool, bundle_is_file: bool) -> (r: Result<String, SlugError>)
        ensures
            flat_is_file ==> (r matches Ok(p) && p@ == self@ + ".md"@),
            !flat_is_file && bundle_is_file ==> (r matches Ok(p) && p@ == self@ + "/index.md"@),
            !flat_is_file && !bundle_is_file ==> (r matches Err(e) && e.kind
                == SlugErrorKind::PageNotFound && e.input@ == self@),
    {
        if flat_is_file {
            Ok(self.flat_file())
        } else if bundle_is_file {
            Ok(self.bundle_file())
        } else {
            Err(SlugError { kind: SlugErrorKind::PageNotFound, input: self.0.clone() })
        }
    }
}

/// The part of `s` after its last `c` (all of `s` when there is none).
pub fn after_last_exec(s: &[char], c: char) -> (r: Vec<char>)
    ensures
        r@ == after_last(s@, c),
{
    proof {
        lemma_rfind_char(s@, c);
    }
    match rfind_char_exec(s, c) {
        Some(i) => {
            assert(i < s.len());
            slice(s, i + 1, s.len())
        },
        None => slice(s, 0, s.len()),
    }
}

// ── wiki:// URIs ──────────────────────────────────────────────────────────────

/// A parsed `wiki://` URI or bare slug.
///
/// `wiki://research/concepts/moe` → wiki `research`, slug `concepts/moe`;
/// `concepts/moe` → no wiki, slug `concepts/moe`.
#[derive(Debug, Clone)]
pub struct WikiUri {
    /// Candidate wiki name — none for bare slugs.
    pub wiki: Option<String>,
    /// The slug portion.
    pub slug: Slug,
}

/// How a URI text is read: the wiki name candidate and the slug text that
/// is then parsed as a slug, or the URI error.
pub open spec fn uri_parts(raw: Seq<char>) -> Result<(Option<Seq<char>>, Seq<char>), ()> {
    let input = trim(raw);
    if starts_with(input, "wiki://"@) {
        let stripped = input.subrange("wiki://"@.len() as int, input.len() as int);
        if stripped.len() == 0 {
            Err(())
        } else {
            match find_char(stripped, '/') {
                Some(i) => if i + 1 < stripped.len() {
                    Ok((Some(stripped.subrange(0, i)), stripped.subrange(i + 1, stripped.len() as int)))
                } else {
                    Ok((None, rstrip_char(stripped, '/')))
                },
                None => Ok((None, rstrip_char(stripped, '/'))),
            }
        }
    } else {
        Ok((None, input))
    }
}

impl WikiUri {
    /// Parse a `wiki://` URI or a bare slug. After `wiki://`, the text up to
    /// the first `/` is the wiki candidate when a non-empty slug follows it;
    /// otherwise the whole rest (trailing `/` removed) is the slug.
    pub fn parse(raw: &str) -> (r: Result<WikiUri, SlugError>)
        ensures
            match uri_parts(raw@) {
                Err(()) => r matches Err(e) && e.kind == SlugErrorKind::InvalidUri && e.input@
                    == trim(raw@),
                Ok((wiki, slug_text)) => match parse_slug_spec(slug_text) {
                    Ok(s) => r matches Ok(u) && u.slug@ == s && (match wiki {
                        Some(w) => u.wiki matches Some(uw) && uw@ == w,
                        None => u.wiki is None,
                    }),
                    Err(k) => r matches Err(e) && e.kind == k && e.input@ == trim(slug_text),
                },
            },
    {
        let v = chars_of(raw);
        let input = trim_exec(&v);
        let scheme = chars_of("wiki://");
        if starts_with_exec(&input, &scheme) {
            let stripped = slice(&input, scheme.len(), input.len());
            if stripped.len() == 0 {
                return Err(SlugError { kind: SlugErrorKind::InvalidUri, input: string_of(&input) });
            }
            proof {
                lemma_find_char(stripped@, '/');
            }
            match find_char_exec(&stripped, '/') {
                Some(i) => {
                    if i + 1 < stripped.len() {
                        let wiki = slice(&stripped, 0, i);
                        let rest = slice(&stripped, i + 1, stripped.len());
                        let slug = Slug::from_trimmed(trim_exec(&rest))?;
                        return Ok(WikiUri { wiki: Some(string_of(&wiki)), slug });
                    }
                },
                None => {},
            }
            let rest = rstrip_char_exec(&stripped, '/');
            let slug = Slug::from_trimmed(trim_exec(&rest))?;
            Ok(WikiUri { wiki: None, slug })
        } else {
            proof {
                lemma_trim_idempotent(v@);
            }
            let slug = Slug::from_trimmed(input)?;
            Ok(WikiUri { wiki: None, slug })
        }
    }
}

// ── Read targets ──────────────────────────────────────────────────────────────

/// What a read request resolves to.
#[derive(Debug, Clone)]
pub enum ReadTarget {
    /// A page: its file, relative to the wiki root.
    Page(String),
    /// A co-located asset: (parent slug, filename).
    Asset(String, String),
}

/// The (parent slug, filename) of `input` when its last segment has a
/// non-empty extension other than `md`.
pub open spec fn asset_parts(input: Seq<char>) -> Option<(Seq<char>, Seq<char>)> {
    match rfind_char(input, '/') {
        Some(pos) => {
            let filename = input.subrange(pos + 1, input.len() as int);
            match rfind_char(filename, '.') {
                Some(dot) => {
                    let ext = filename.subrange(dot + 1, filename.len() as int);
                    if ext.len() > 0 && ext != "md"@ {
                        Some((input.subrange(0, pos), filename))
                    } else {
                        None
                    }
                },
                None => None,
            }
        },
        None => None,
    }
}

/// The asset candidate of a read request: (parent slug, filename) when the
/// last segment of `input` has an extension other than `md`.
pub fn asset_candidate(input: &str) -> (r: Option<(String, String)>)
    ensures
        match asset_parts(input@) {
            Some((p, f)) => r matches Some((rp, rf)) && rp@ == p && rf@ == f,
            None => r is None,
        },
{
    let v = chars_of(input);
    proof {
        lemma_rfind_char(v@, '/');
    }
    match rfind_char_exec(&v, '/') {
        Some(pos) => {
            let filename = slice(&v, pos + 1, v.len());
            proof {
                lemma_rfind_char(filename@, '.');
            }
            match rfind_char_exec(&filename, '.') {
                Some(dot) => {
                    let ext = slice(&filename, dot + 1, filename.len());
                    if ext.len() > 0 && !eq_str(&ext, "md") {
                        let parent = slice(&v, 0, pos);
                        Some((string_of(&parent), string_of(&filename)))
                    } else {
                        None
                    }
                },
                None => None,
            }
        },
        None => None,
    }
}

/// Two-step resolution of a read request: a page first, then a co-located
/// asset. `flat_is_file` and `bundle_is_file` say whether the flat and
/// bundle files of `Slug::try_from(input)` exist (both false when `input`
/// is no slug); `asset_is_file` says whether
/// `<wiki_root>/<parent>/<filename>` of `asset_candidate(input)` exists.
pub fn resolve_read_target(
    input: &str,
    flat_is_file: bool,
    bundle_is_file: bool,
    asset_is_file: bool,
) -> (r: Result<ReadTarget, SlugError>)
    ensures
        (parse_slug_spec(input@) is Ok && (flat_is_file || bundle_is_file)) ==> (r matches Ok(
            ReadTarget::Page(p),
        ) && p@ == parse_slug_spec(input@)->Ok_0 + (if flat_is_file {
            ".md"@
        } else {
            "/index.md"@
        })),
        !(parse_slug_spec(input@) is Ok && (flat_is_file || bundle_is_file)) ==> match asset_parts(
            input@,
        ) {
            Some((parent, filename)) => if asset_is_file {
                r matches Ok(ReadTarget::Asset(rp, rf)) && rp@ == parent && rf@ == filename
            } else {
                r matches Err(e) && e.kind == SlugErrorKind::AssetNotFound && e.input@ == input@
            },
            None => r matches Err(e) && e.kind == SlugErrorKind::PageNotFound && e.input@
                == input@,
        },
{
    match Slug::try_from(input) {
        Ok(slug) => {
            match slug.resolve(flat_is_file, bundle_is_file) {
                Ok(p) => {
                    return Ok(ReadTarget::Page(p));
                },
                Err(_) => {},
            }
        },
        Err(_) => {},
    }
    match asset_candidate(input) {
        Some((parent, filename)) => {
            if asset_is_file {
                Ok(ReadTarget::Asset(parent, filename))
            } else {
                Err(SlugError { kind: SlugErrorKind::AssetNotFound, input: string_of(&chars_of(input)) })
            }
        },
        None => Err(SlugError { kind: SlugErrorKind::PageNotFound, input: string_of(&chars_of(input)) }),
    }
}

/// Trimming twice is trimming once.
pub proof fn lemma_trim_idempotent(s: Seq<char>)
    ensures
        trim(trim(s)) == trim(s),
{
    lemma_ltrim_first(s);
    lemma_rtrim_last(ltrim(s));
    lemma_rtrim_keeps_first(ltrim(s));
    let t = trim(s);
    lemma_ltrim_noop(t);
    lemma_rtrim_noop(ltrim(t));
}

proof fn lemma_ltrim_first(s: Seq<char>)
    ensures
        ltrim(s).len() == 0 || !is_ws(ltrim(s)[0]),
    decreases s.len(),
{
    if s.len() > 0 && is_ws(s[0]) {
        lemma_ltrim_first(s.drop_first());
    }
}

proof fn lemma_rtrim_last(s: Seq<char>)
    ensures
        rtrim(s).len() == 0 || !is_ws(rtrim(s).last()),
        rtrim(s).len() <= s.len(),
        rtrim(s) == s.subrange(0, rtrim(s).len() as int),
    decreases s.len(),
{
    if s.len() > 0 && is_ws(s.last()) {
        lemma_rtrim_last(s.drop_last());
        assert(s.drop_last().subrange(0, rtrim(s).len() as int) == s.subrange(0, rtrim(s).len() as int));
    }
}

proof fn lemma_rtrim_keeps_first(s: Seq<char>)
    requires
        s.len() == 0 || !is_ws(s[0]),
    ensures
        rtrim(s).len() == 0 || !is_ws(rtrim(s)[0]),
{
    lemma_rtrim_last(s);
    if rtrim(s).len() > 0 {
        assert(rtrim(s)[0] == s[0]);
    }
}

proof fn lemma_ltrim_noop(s: Seq<char>)
    requires
        s.len() == 0 || !is_ws(s[0]),
    ensures
        ltrim(s) == s,
{
}

proof fn lemma_rtrim_noop(s: Seq<char>)
    requires
        s.len() == 0 || !is_ws(s.last()),
    ensures
        rtrim(s) == s,
{
}


// ── Sections ──────────────────────────────────────────────────────────────────

/// The section slugs above `s`: each proper prefix of its segments, joined,
/// shortest first (`a/b/c` → `a`, `a/b`).
pub open spec fn parent_sections_spec(s: Seq<char>) -> Seq<Seq<char>> {
    let parts = split_char(s, '/');
    Seq::new(
        (if parts.len() > 0 {
            parts.len() - 1
        } else {
            0
        }) as nat,
        |i: int| join(parts.take(i + 1), "/"@),
    )
}

/// The sections a new page at this slug needs above it.
pub fn parent_sections(slug: &Slug) -> (r: Vec<String>)
    ensures
        crate::links::texts(r@) == parent_sections_spec(slug@),
{
    let v = chars_of(slug.as_str());
    let parts = split_char_exec(&v, '/');
    let ghost ps = parts@.map_values(|w: Vec<char>| w@);
    let mut names: Vec<String> = Vec::new();
    let mut r: Vec<String> = Vec::new();
    let mut i: usize = 0;
    if parts.len() > 0 {
        names.push(string_of(&parts[0]));
        assert(crate::links::texts(names@) =~= ps.take(1));
        i = 1;
    }
    let n = parts.len();
    assert(crate::links::texts(r@) =~= Seq::<Seq<char>>::empty());
    while i < n
        invariant
            n == parts@.len(),
            ps == parts@.map_values(|w: Vec<char>| w@),
            ps == split_char(slug@, '/'),
            n > 0 ==> 1 <= i <= n,
            n == 0 ==> i == 0,
            crate::links::texts(names@) == ps.take(i as int),
            crate::links::texts(r@) == parent_sections_spec(slug@).take(i - 1),
        decreases n - i,
    {
        let mut out: Vec<char> = Vec::new();
        crate::text::push_joined(&mut out, &names, "/");
        let ghost before = crate::links::texts(r@);
        r.push(string_of(&out));
        proof {
            reveal_strlit("/");
            assert(crate::links::texts(r@) =~= before.push(join(ps.take(i as int), "/"@)));
            assert(parent_sections_spec(slug@).take(i as int) =~= parent_sections_spec(slug@).take(i - 1).push(
                join(ps.take(i as int), "/"@),
            ));
        }
        let ghost nb = crate::links::texts(names@);
        names.push(string_of(&parts[i]));
        assert(crate::links::texts(names@) =~= nb.push(ps[i as int]));
        assert(ps.take(i + 1) =~= ps.take(i as int).push(ps[i as int]));
        i = i + 1;
    }
    proof {
        if n > 0 {
            assert(parent_sections_spec(slug@).take(n - 1) =~= parent_sections_spec(slug@));
        } else {
            assert(parent_sections_spec(slug@) =~= Seq::<Seq<char>>::empty());
        }
    }
    r
}

pub(crate) proof fn lemma_find_char_after(w: Seq<char>, c: char, rest: Seq<char>)
    requires
        !w.contains(c),
    ensures
        find_char(w + seq![c] + rest, c) == Some(w.len() as int),
    decreases w.len(),
{
    let x = w + seq![c] + rest;
    if w.len() == 0 {
        assert(x[0] == c);
    } else {
        assert(x[0] == w[0]);
        assert(!w.drop_first().contains(c)) by {
            if w.drop_first().contains(c) {
                let j = choose|j: int| 0 <= j < w.drop_first().len() && w.drop_first()[j] == c;
                assert(w[j + 1] == c);
            }
        }
        lemma_find_char_after(w.drop_first(), c, rest);
        assert(x.drop_first() =~= w.drop_first() + seq![c] + rest);
    }
}

/// A `wiki://` URI made of a wiki name without `/` and a slug parses back
/// into that name and that slug: the URI that creating a page answers
/// names that page again.
pub proof fn uri_round_trip(w: Seq<char>, s: Seq<char>)
    requires
        !w.contains('/'),
        parse_slug_spec(s) == Ok::<Seq<char>, SlugErrorKind>(s),
    ensures
        uri_parts("wiki://"@ + w + "/"@ + s) == Ok::<(Option<Seq<char>>, Seq<char>), ()>((Some(w), s)),
{
    reveal_strlit("wiki://");
    reveal_strlit("/");
    let scheme = "wiki://"@;
    let raw = scheme + w + "/"@ + s;
    assert(s.len() > 0);
    assert(trim(s) == s);
    lemma_trim_idempotent(s);
    lemma_ltrim_first(s);
    lemma_rtrim_last(ltrim(s));
    // `s` ends with a character that is not white space, and `raw` starts
    // with `w` of the scheme: trimming leaves `raw` as it is.
    assert(!is_ws(s.last()));
    assert(raw[0] == 'w');
    lemma_ltrim_noop(raw);
    assert(raw.last() == s.last());
    lemma_rtrim_noop(raw);
    assert(trim(raw) == raw);
    assert(raw.subrange(0, 7) =~= scheme);
    assert(starts_with(raw, scheme));
    let stripped = raw.subrange(7, raw.len() as int);
    assert(stripped =~= w + seq!['/'] + s);
    lemma_find_char_after(w, '/', s);
    assert(stripped.subrange(0, w.len() as int) =~= w);
    assert(stripped.subrange(w.len() as int + 1, stripped.len() as int) =~= s);
}

} // verus!
