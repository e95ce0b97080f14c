//! Markdown pages: a YAML frontmatter block between `---` lines, then the
//! body.
use vstd::prelude::*;

use crate::slug::{title_case_chars, title_case_spec};
use crate::text::{
    chars_of, ends_with, find, lstrip_char, lstrip_char_exec, occurs_at, slice, split_char,
    starts_with, starts_with_str, string_of, str_lt, trim, trim_exec, find_from_exec, ends_with_str,
};

verus! {

// ── Values ────────────────────────────────────────────────────────────────────

/// A YAML value of a frontmatter block, as plain data.
#[derive(Debug)]
pub enum FmValue {
    Null,
    Bool(bool),
    /// A number, as the YAML library prints it.
    Number(String),
    Str(String),
    List(Vec<FmValue>),
    Mapping(Vec<(FmValue, FmValue)>),
    /// A `!Tag value`.
    Tagged(String, Box<FmValue>),
}

/// The text of a string value.
pub open spec fn fm_str(v: FmValue) -> Option<Seq<char>> {
    match v {
        FmValue::Str(s) => Some(s@),
        _ => None,
    }
}

/// The string items of a list, in order (other items are skipped).
pub open spec fn str_items(items: Seq<FmValue>) -> Seq<Seq<char>>
    decreases items.len(),
{
    if items.len() == 0 {
        seq![]
    } else {
        match items.last() {
            FmValue::Str(s) => str_items(items.drop_last()).push(s@),
            _ => str_items(items.drop_last()),
        }
    }
}

/// The string items of a list value (empty for any other value).
pub open spec fn fm_str_list(v: FmValue) -> Seq<Seq<char>> {
    match v {
        FmValue::List(items) => str_items(items@),
        _ => seq![],
    }
}

/// A parsed frontmatter block: its entries, in key order.
#[derive(Debug)]
pub struct FrontMatter {
    pub entries: Vec<(String, FmValue)>,
}

/// The value of `key` in `entries` (the first entry with that key).
pub open spec fn fm_get(entries: Seq<(String, FmValue)>, key: Seq<char>) -> Option<FmValue>
    decreases entries.len(),
{
    if entries.len() == 0 {
        None
    } else if entries[0].0@ == key {
        Some(entries[0].1)
    } else {
        fm_get(entries.drop_first(), key)
    }
}

/// What the YAML library makes of a block of text: its top-level mapping
/// with string keys, or the message of its error.
pub uninterp spec fn yaml_mapping(text: Seq<char>) -> Result<Seq<(String, FmValue)>, Seq<char>>;

/// Parse `text` as a YAML mapping with string keys
/// (`serde_yaml::from_str::<BTreeMap<String, Value>>`). Stated: the result
/// is the named mapping; its entries come in strictly increasing key order,
/// as a `BTreeMap` yields them. What the YAML grammar makes of the text is
/// left to the name.
#[verifier::external_body]
fn parse_yaml_mapping(text: &str) -> (r: Result<Vec<(String, FmValue)>, String>)
    ensures
        match yaml_mapping(text@) {
            Ok(e) => r matches Ok(v) && v@ == e,
            Err(m) => r matches Err(s) && s@ == m,
        },
        r matches Ok(v) ==> forall|i: int, j: int|
            0 <= i < j < v@.len() ==> str_lt(#[trigger] v@[i].0@, #[trigger] v@[j].0@),
{
    match serde_yaml::from_str::<std::collections::BTreeMap<String, serde_yaml::Value>>(text) {
        Ok(m) => Ok(m.into_iter().map(|(k, v)| (k, fm_value_of(v))).collect()),
        Err(e) => Err(e.to_string()),
    }
}

/// A YAML value of the YAML library, carried opaquely into `fm_value_of`.
#[verifier::external_type_specification]
#[verifier::external_body]
pub struct ExYamlValue(serde_yaml::Value);

/// One YAML value as `FmValue`, variant by variant.
#[verifier::external_body]
fn fm_value_of(v: serde_yaml::Value) -> FmValue {
    match v {
        serde_yaml::Value::Null => FmValue::Null,
        serde_yaml::Value::Bool(b) => FmValue::Bool(b),
        serde_yaml::Value::Number(n) => FmValue::Number(n.to_string()),
        serde_yaml::Value::String(s) => FmValue::Str(s),
        serde_yaml::Value::Sequence(s) => FmValue::List(s.into_iter().map(fm_value_of).collect()),
        serde_yaml::Value::Mapping(m) => FmValue::Mapping(
            m.into_iter().map(|(k, v)| (fm_value_of(k), fm_value_of(v))).collect(),
        ),
        serde_yaml::Value::Tagged(t) => FmValue::Tagged(t.tag.to_string(), Box::new(fm_value_of(t.value))),
    }
}

impl FrontMatter {
    /// An empty frontmatter block.
    pub fn new() -> (f: FrontMatter)
        ensures
            f.entries@.len() == 0,
    {
        FrontMatter { entries: Vec::new() }
    }

    /// Whether the block has no entries.
    pub fn is_empty(&self) -> (b: bool)
        ensures
            b == (self.entries@.len() == 0),
    {
        self.entries.len() == 0
    }

    /// The value of `key`.
    pub fn get(&self, key: &str) -> (r: Option<&FmValue>)
        ensures
            match fm_get(self.entries@, key@) {
                Some(v) => r == Some(&v),
                None => r is None,
            },
    {
        let k = chars_of(key);
        let mut i: usize = 0;
        assert(self.entries@.subrange(0, self.entries@.len() as int) == self.entries@);
        while i < self.entries.len()
            invariant
                0 <= i <= self.entries@.len(),
                k@ == key@,
                fm_get(self.entries@, key@) == fm_get(self.entries@.subrange(i as int, self.entries@.len() as int), key@),
            decreases self.entries.len() - i,
        {
            let ghost rest = self.entries@.subrange(i as int, self.entries@.len() as int);
            assert(rest[0] == self.entries@[i as int]);
            let ek = chars_of(self.entries[i].0.as_str());
            if crate::text::seq_eq(&ek, &k) {
                return Some(&self.entries[i].1);
            }
            assert(rest.drop_first() == self.entries@.subrange(i + 1, self.entries@.len() as int));
            i = i + 1;
        }
        None
    }
}

/// The text of a string value.
pub fn as_str(v: &FmValue) -> (r: Option<&str>)
    ensures
        match fm_str(*v) {
            Some(s) => r matches Some(t) && t@ == s,
            None => r is None,
        },
{
    match v {
        FmValue::Str(s) => Some(s.as_str()),
        _ => None,
    }
}

/// The string items of a list value, in order.
pub fn str_list(v: &FmValue) -> (r: Vec<String>)
    ensures
        r@.map_values(|s: String| s@) == fm_str_list(*v),
{
    let mut out: Vec<String> = Vec::new();
    match v {
        FmValue::List(items) => {
            let mut i: usize = 0;
            while i < items.len()
                invariant
                    0 <= i <= items@.len(),
                    out@.map_values(|s: String| s@) == str_items(items@.subrange(0, i as int)),
                decreases items.len() - i,
            {
                let ghost pre = items@.subrange(0, i as int);
                assert(items@.subrange(0, i + 1).drop_last() == pre);
                match &items[i] {
                    FmValue::Str(s) => {
                        let c = s.clone();
                        out.push(c);
                        assert(out@.map_values(|s: String| s@) == str_items(pre).push(s@));
                    },
                    _ => {},
                }
                i = i + 1;
            }
            assert(items@.subrange(0, items@.len() as int) == items@);
        },
        _ => {},
    }
    out
}

// ── Pages ─────────────────────────────────────────────────────────────────────

/// A parsed markdown page — frontmatter and body.
#[derive(Debug)]
pub struct ParsedPage {
    pub frontmatter: FrontMatter,
    pub body: String,
}

impl ParsedPage {
    /// The `title` string of the frontmatter.
    pub fn title(&self) -> (r: Option<&str>)
        ensures
            match fm_get(self.frontmatter.entries@, "title"@) {
                Some(v) => match fm_str(v) {
                    Some(s) => r matches Some(t) && t@ == s,
                    None => r is None,
                },
                None => r is None,
            },
    {
        match self.frontmatter.get("title") {
            Some(v) => as_str(v),
            None => None,
        }
    }

    /// The `type` string of the frontmatter.
    pub fn page_type(&self) -> (r: Option<&str>)
        ensures
            match fm_get(self.frontmatter.entries@, "type"@) {
                Some(v) => match fm_str(v) {
                    Some(s) => r matches Some(t) && t@ == s,
                    None => r is None,
                },
                None => r is None,
            },
    {
        match self.frontmatter.get("type") {
            Some(v) => as_str(v),
            None => None,
        }
    }

    /// The `status` string of the frontmatter.
    pub fn status(&self) -> (r: Option<&str>)
        ensures
            match fm_get(self.frontmatter.entries@, "status"@) {
                Some(v) => match fm_str(v) {
                    Some(s) => r matches Some(t) && t@ == s,
                    None => r is None,
                },
                None => r is None,
            },
    {
        match self.frontmatter.get("status") {
            Some(v) => as_str(v),
            None => None,
        }
    }

    /// The `superseded_by` string of the frontmatter.
    pub fn superseded_by(&self) -> (r: Option<&str>)
        ensures
            match fm_get(self.frontmatter.entries@, "superseded_by"@) {
                Some(v) => match fm_str(v) {
                    Some(s) => r matches Some(t) && t@ == s,
                    None => r is None,
                },
                None => r is None,
            },
    {
        match self.frontmatter.get("superseded_by") {
            Some(v) => as_str(v),
            None => None,
        }
    }

    /// The string items of the list under `key` (empty when absent or not a
    /// list).
    pub fn string_list(&self, key: &str) -> (r: Vec<String>)
        ensures
            r@.map_values(|s: String| s@) == match fm_get(self.frontmatter.entries@, key@) {
                Some(v) => fm_str_list(v),
                None => seq![],
            },
    {
        match self.frontmatter.get(key) {
            Some(v) => str_list(v),
            None => {
                let r: Vec<String> = Vec::new();
                assert(r@.map_values(|s: String| s@) =~= Seq::<Seq<char>>::empty());
                r
            },
        }
    }

    /// The `tags` of the frontmatter.
    pub fn tags(&self) -> (r: Vec<String>)
        ensures
            r@.map_values(|s: String| s@) == match fm_get(self.frontmatter.entries@, "tags"@) {
                Some(v) => fm_str_list(v),
                None => seq![],
            },
    {
        self.string_list("tags")
    }
}

// ── Splitting ─────────────────────────────────────────────────────────────────

/// `content` with its leading byte-order marks removed.
pub open spec fn without_bom(content: Seq<char>) -> Seq<char> {
    lstrip_char(content, '\u{feff}')
}

/// The frontmatter block (YAML text) and body of a page, when it has a
/// block: the text starts with `---` (after byte-order marks), the YAML
/// starts after the `\r`s and then `\n`s that follow, and ends at the first
/// `\n---`; one line ending after the closing `---` is dropped.
pub open spec fn split_frontmatter(content: Seq<char>) -> Option<(Seq<char>, Seq<char>)> {
    let t = without_bom(content);
    if !starts_with(t, "---"@) {
        None
    } else {
        let rest = lstrip_char(lstrip_char(t.subrange(3, t.len() as int), '\r'), '\n');
        match find(rest, "\n---"@) {
            Some(close) => {
                let after = rest.subrange(close + 4, rest.len() as int);
                let body = if starts_with(after, "\r\n"@) {
                    after.subrange(2, after.len() as int)
                } else if starts_with(after, "\n"@) {
                    after.subrange(1, after.len() as int)
                } else {
                    after
                };
                Some((rest.subrange(0, close), body))
            },
            None => None,
        }
    }
}

/// The page has an opening `---` but no closing `\n---`.
pub open spec fn unclosed_block(content: Seq<char>) -> bool {
    starts_with(without_bom(content), "---"@) && split_frontmatter(content) is None
}

/// Split a page into (YAML text, body) as `split_frontmatter` says.
pub fn split_block(content: &str) -> (r: Option<(String, String)>)
    ensures
        match split_frontmatter(content@) {
            Some((y, b)) => r matches Some((ry, rb)) && ry@ == y && rb@ == b,
            None => r is None,
        },
{
    proof {
        reveal_strlit("---");
        reveal_strlit("\n---");
        reveal_strlit("\r\n");
        reveal_strlit("\n");
    }
    let v = chars_of(content);
    let t = lstrip_char_exec(&v, '\u{feff}');
    if !starts_with_str(&t, "---") {
        return None;
    }
    let a = slice(&t, 3, t.len());
    let a = lstrip_char_exec(&a, '\r');
    let rest = lstrip_char_exec(&a, '\n');
    let marker = chars_of("\n---");
    assert(marker@.len() == 4);
    match find_from_exec(&rest, &marker, 0) {
        Some(close) => {
            assert(close + marker@.len() <= rest@.len());
            assert(close + 4 <= rest.len());
            let yaml = slice(&rest, 0, close);
            let after = slice(&rest, close + 4, rest.len());
            let body = if starts_with_str(&after, "\r\n") {
                slice(&after, 2, after.len())
            } else if starts_with_str(&after, "\n") {
                slice(&after, 1, after.len())
            } else {
                after
            };
            Some((string_of(&yaml), string_of(&body)))
        },
        None => None,
    }
}

/// What `parse` makes of a page: the entries of its frontmatter (empty when
/// there is no block or the YAML does not parse as a mapping) and its body
/// (the whole text after byte-order marks when there is no block).
pub open spec fn parse_spec(content: Seq<char>) -> (Seq<(String, FmValue)>, Seq<char>) {
    match split_frontmatter(content) {
        Some((y, b)) => (
            match yaml_mapping(y) {
                Ok(e) => e,
                Err(_) => seq![],
            },
            b,
        ),
        None => (seq![], without_bom(content)),
    }
}

/// Parse a markdown page into frontmatter and body. Without a complete
/// `---` block, the frontmatter is empty and the body is the whole text;
/// YAML that does not parse gives an empty frontmatter.
pub fn parse(content: &str) -> (p: ParsedPage)
    ensures
        p.frontmatter.entries@ == parse_spec(content@).0,
        p.body@ == parse_spec(content@).1,
{
    match split_block(content) {
        Some((yaml, body)) => {
            let entries = match parse_yaml_mapping(yaml.as_str()) {
                Ok(e) => e,
                Err(_) => Vec::new(),
            };
            ParsedPage { frontmatter: FrontMatter { entries }, body }
        },
        None => {
            let v = chars_of(content);
            let t = lstrip_char_exec(&v, '\u{feff}');
            ParsedPage { frontmatter: FrontMatter::new(), body: string_of(&t) }
        },
    }
}

/// Why a page has no usable frontmatter.
#[derive(Debug, Clone)]
pub enum FrontmatterError {
    /// The page does not start with `---`.
    NoBlock,
    /// The block has no closing `---` line.
    NoClose,
    /// The YAML does not parse; the YAML library's message.
    InvalidYaml(String),
}

impl FrontmatterError {
    /// The human-readable message.
    pub fn message(&self) -> (m: String)
        ensures
            *self is NoBlock ==> m@ == "no frontmatter block found"@,
            *self is NoClose ==> m@ == "no closing --- found"@,
            self matches FrontmatterError::InvalidYaml(e) ==> m@ == "invalid YAML: "@ + e@,
    {
        let mut out: Vec<char> = Vec::new();
        match self {
            FrontmatterError::NoBlock => crate::text::push_str(&mut out, "no frontmatter block found"),
            FrontmatterError::NoClose => crate::text::push_str(&mut out, "no closing --- found"),
            FrontmatterError::InvalidYaml(e) => {
                crate::text::push_str(&mut out, "invalid YAML: ");
                crate::text::push_str(&mut out, e.as_str());
            },
        }
        string_of(&out)
    }
}

/// Parse frontmatter strictly: an error when the page has no block, no
/// closing line, or YAML that does not parse as a mapping.
pub fn parse_strict(content: &str) -> (r: Result<ParsedPage, FrontmatterError>)
    ensures
        !starts_with(without_bom(content@), "---"@) ==> r matches Err(FrontmatterError::NoBlock),
        unclosed_block(content@) ==> r matches Err(FrontmatterError::NoClose),
        match split_frontmatter(content@) {
            Some((y, b)) => match yaml_mapping(y) {
                Ok(e) => r matches Ok(p) && p.frontmatter.entries@ == e && p.body@ == b,
                Err(m) => r matches Err(FrontmatterError::InvalidYaml(s)) && s@ == m,
            },
            None => r is Err,
        },
{
    let v = chars_of(content);
    let t = lstrip_char_exec(&v, '\u{feff}');
    if !starts_with_str(&t, "---") {
        return Err(FrontmatterError::NoBlock);
    }
    match split_block(content) {
        Some((yaml, body)) => match parse_yaml_mapping(yaml.as_str()) {
            Ok(entries) => Ok(ParsedPage { frontmatter: FrontMatter { entries }, body }),
            Err(m) => Err(FrontmatterError::InvalidYaml(m)),
        },
        None => Err(FrontmatterError::NoClose),
    }
}

// ── Reading ───────────────────────────────────────────────────────────────────

/// The notice appended to a superseded page.
pub open spec fn supersession_notice(target: Seq<char>) -> Seq<char> {
    "\n> **Superseded** by ["@ + target + "](wiki://"@ + target + ")\n"@
}

/// What reading a page gives: the whole text, or only its body when
/// `no_frontmatter` is set, followed by a supersession notice when the
/// frontmatter names a `superseded_by` page.
pub open spec fn read_page_spec(content: Seq<char>, no_frontmatter: bool) -> Seq<char> {
    let parsed = parse_spec(content);
    let base = if no_frontmatter {
        parsed.1
    } else {
        content
    };
    match fm_get(parsed.0, "superseded_by"@) {
        Some(v) => match fm_str(v) {
            Some(t) => base + supersession_notice(t),
            None => base,
        },
        None => base,
    }
}

/// The text of a page as read: optionally without frontmatter, with a
/// supersession notice when `superseded_by` is set.
pub fn read_page_text(content: &str, no_frontmatter: bool) -> (r: String)
    ensures
        r@ == read_page_spec(content@, no_frontmatter),
{
    let page = parse(content);
    let mut out: Vec<char> = if no_frontmatter {
        chars_of(page.body.as_str())
    } else {
        chars_of(content)
    };
    match page.superseded_by() {
        Some(t) => {
            crate::text::push_str(&mut out, "\n> **Superseded** by [");
            crate::text::push_str(&mut out, t);
            crate::text::push_str(&mut out, "](wiki://");
            crate::text::push_str(&mut out, t);
            crate::text::push_str(&mut out, ")\n");
        },
        None => {},
    }
    string_of(&out)
}

// ── Titles ────────────────────────────────────────────────────────────────────

/// `s` without all trailing copies of `p` (`str::trim_end_matches(p)`).
pub open spec fn rstrip_str(s: Seq<char>, p: Seq<char>) -> Seq<char>
    decreases s.len(),
{
    if p.len() > 0 && ends_with(s, p) {
        rstrip_str(s.subrange(0, s.len() - p.len()), p)
    } else {
        s
    }
}

/// The heading of a line: the trimmed text after `# ` of the trimmed line,
/// when it is non-empty.
pub open spec fn heading_of(line: Seq<char>) -> Option<Seq<char>> {
    let t = trim(line);
    if starts_with(t, "# "@) && trim(t.subrange(2, t.len() as int)).len() > 0 {
        Some(trim(t.subrange(2, t.len() as int)))
    } else {
        None
    }
}

/// The first heading among `lines`.
pub open spec fn first_heading(lines: Seq<Seq<char>>) -> Option<Seq<char>>
    decreases lines.len(),
{
    if lines.len() == 0 {
        None
    } else {
        match heading_of(lines[0]) {
            Some(h) => Some(h),
            None => first_heading(lines.drop_first()),
        }
    }
}

/// The title of a page: its first `# Heading` line, else the file name
/// without `.md` suffixes, title-cased.
pub open spec fn title_spec(body: Seq<char>, filename: Seq<char>) -> Seq<char> {
    match first_heading(split_char(body, '\n')) {
        Some(h) => h,
        None => title_case_spec(rstrip_str(filename, ".md"@)),
    }
}

/// Extract a title from the body (first `# Heading`), falling back to the
/// filename stem title-cased.
pub fn title_from_body_or_filename(body: &str, filename: &str) -> (t: String)
    ensures
        t@ == title_spec(body@, filename@),
{
    proof {
        reveal_strlit("# ");
        reveal_strlit(".md");
    }
    let b = chars_of(body);
    let lines = crate::slug::split_char_exec(&b, '\n');
    let mut i: usize = 0;
    assert(lines@.map_values(|w: Vec<char>| w@).len() == lines@.len());
    assert(split_char(body@, '\n').subrange(0, lines@.len() as int) == split_char(body@, '\n'));
    while i < lines.len()
        invariant
            0 <= i <= lines@.len(),
            lines@.map_values(|w: Vec<char>| w@) == split_char(body@, '\n'),
            first_heading(split_char(body@, '\n')) == first_heading(
                split_char(body@, '\n').subrange(i as int, lines@.len() as int),
            ),
        decreases lines.len() - i,
    {
        proof {
            reveal_strlit("# ");
        }
        let ghost ls = split_char(body@, '\n');
        let ghost rest = ls.subrange(i as int, lines@.len() as int);
        assert(rest[0] == lines@[i as int]@);
        let t = trim_exec(&lines[i]);
        if starts_with_str(&t, "# ") {
            let after = slice(&t, 2, t.len());
            let h = trim_exec(&after);
            if h.len() > 0 {
                return string_of(&h);
            }
        }
        assert(rest.drop_first() == ls.subrange(i + 1, lines@.len() as int));
        i = i + 1;
    }
    let f = chars_of(filename);
    let mut k: usize = f.len();
    assert(f@.subrange(0, k as int) == f@);
    while k >= 3 && ends_with_str(&slice(&f, 0, k), ".md")
        invariant
            k <= f@.len(),
            rstrip_str(f@, ".md"@) == rstrip_str(f@.subrange(0, k as int), ".md"@),
        decreases k,
    {
        proof {
            reveal_strlit(".md");
        }
        assert(f@.subrange(0, k as int).subrange(0, k - 3) == f@.subrange(0, k - 3));
        k = k - 3;
    }
    proof {
        let s = f@.subrange(0, k as int);
        if k < 3 {
            assert(!ends_with(s, ".md"@));
        }
    }
    let stem = slice(&f, 0, k);
    let r = title_case_chars(&stem);
    string_of(&r)
}

} // verus!
