//! Character-level text primitives shared by the parsers of this crate.
//!
//! Text is modelled as `Seq<char>` (the view of `str` and `String`); the
//! executable code works on `Vec<char>` and converts at the edges.
use vstd::prelude::*;

verus! {

// ── Whitespace ────────────────────────────────────────────────────────────────

/// Unicode `White_Space` property, as used by `char::is_whitespace` and
/// `str::trim`.
pub open spec fn is_ws(c: char) -> bool {
    ||| ('\u{9}' <= c && c <= '\u{d}')
    ||| c == ' '
    ||| c == '\u{85}'
    ||| c == '\u{a0}'
    ||| c == '\u{1680}'
    ||| ('\u{2000}' <= c && c <= '\u{200a}')
    ||| c == '\u{2028}'
    ||| c == '\u{2029}'
    ||| c == '\u{202f}'
    ||| c == '\u{205f}'
    ||| c == '\u{3000}'
}

/// Whether `c` is Unicode white space.
pub fn is_whitespace(c: char) -> (b: bool)
    ensures
        b == is_ws(c),
{
    ('\u{9}' <= c && c <= '\u{d}') || c == ' ' || c == '\u{85}' || c == '\u{a0}' || c
        == '\u{1680}' || ('\u{2000}' <= c && c <= '\u{200a}') || c == '\u{2028}' || c
        == '\u{2029}' || c == '\u{202f}' || c == '\u{205f}' || c == '\u{3000}'
}

/// `s` without its leading white space.
pub open spec fn ltrim(s: Seq<char>) -> Seq<char>
    decreases s.len(),
{
    if s.len() > 0 && is_ws(s[0]) {
        ltrim(s.drop_first())
    } else {
        s
    }
}

/// `s` without its trailing white space.
pub open spec fn rtrim(s: Seq<char>) -> Seq<char>
    decreases s.len(),
{
    if s.len() > 0 && is_ws(s.last()) {
        rtrim(s.drop_last())
    } else {
        s
    }
}

/// `s` without leading and trailing white space (`str::trim`).
pub open spec fn trim(s: Seq<char>) -> Seq<char> {
    rtrim(ltrim(s))
}

// ── Searching ─────────────────────────────────────────────────────────────────

/// `n` occurs in `h` at position `i`.
pub open spec fn occurs_at(h: Seq<char>, n: Seq<char>, i: int) -> bool {
    0 <= i && i + n.len() <= h.len() && h.subrange(i, i + n.len()) == n
}

/// First position at or after `i` where `n` occurs in `h`.
pub open spec fn find_from(h: Seq<char>, n: Seq<char>, i: int) -> Option<int>
    decreases h.len() + 1 - i,
{
    if i < 0 || i + n.len() > h.len() {
        None
    } else if occurs_at(h, n, i) {
        Some(i)
    } else {
        find_from(h, n, i + 1)
    }
}

/// First position where `n` occurs in `h` (`str::find`).
pub open spec fn find(h: Seq<char>, n: Seq<char>) -> Option<int> {
    find_from(h, n, 0)
}

/// Last position of `c` in `s` (`str::rfind` for a char).
pub open spec fn rfind_char(s: Seq<char>, c: char) -> Option<int>
    decreases s.len(),
{
    if s.len() == 0 {
        None
    } else if s.last() == c {
        Some(s.len() - 1)
    } else {
        rfind_char(s.drop_last(), c)
    }
}

/// First position of `c` in `s`.
pub open spec fn find_char(s: Seq<char>, c: char) -> Option<int>
    decreases s.len(),
{
    if s.len() == 0 {
        None
    } else if s[0] == c {
        Some(0)
    } else {
        match find_char(s.drop_first(), c) {
            Some(i) => Some(i + 1),
            None => None,
        }
    }
}

/// What `find_char` returns: the first occurrence, or none at all.
pub proof fn lemma_find_char(s: Seq<char>, c: char)
    ensures
        match find_char(s, c) {
            Some(i) => 0 <= i < s.len() && s[i] == c && forall|j: int| 0 <= j < i ==> s[j] != c,
            None => forall|j: int| 0 <= j < s.len() ==> s[j] != c,
        },
    decreases s.len(),
{
    if s.len() > 0 && s[0] != c {
        lemma_find_char(s.drop_first(), c);
        assert forall|j: int| 0 < j < s.len() implies s[j] == s.drop_first()[j - 1] by {}
    }
}

/// What `rfind_char` returns: the last occurrence, or none at all.
pub proof fn lemma_rfind_char(s: Seq<char>, c: char)
    ensures
        match rfind_char(s, c) {
            Some(i) => 0 <= i < s.len() && s[i] == c && forall|j: int| i < j < s.len() ==> s[j] != c,
            None => forall|j: int| 0 <= j < s.len() ==> s[j] != c,
        },
    decreases s.len(),
{
    if s.len() > 0 && s.last() != c {
        lemma_rfind_char(s.drop_last(), c);
        assert forall|j: int| 0 <= j < s.len() - 1 implies s[j] == s.drop_last()[j] by {}
        assert(s[s.len() - 1] == s.last());
    }
}

/// `s` starts with `p`.
pub open spec fn starts_with(s: Seq<char>, p: Seq<char>) -> bool {
    p.len() <= s.len() && s.subrange(0, p.len() as int) == p
}

/// `s` without all trailing `c` (`str::trim_end_matches(c)`).
pub open spec fn rstrip_char(s: Seq<char>, c: char) -> Seq<char>
    decreases s.len(),
{
    if s.len() > 0 && s.last() == c {
        rstrip_char(s.drop_last(), c)
    } else {
        s
    }
}

/// `s` without all leading `c` (`str::trim_start_matches(c)`).
pub open spec fn lstrip_char(s: Seq<char>, c: char) -> Seq<char>
    decreases s.len(),
{
    if s.len() > 0 && s[0] == c {
        lstrip_char(s.drop_first(), c)
    } else {
        s
    }
}

/// `s` ends with `p`.
pub open spec fn ends_with(s: Seq<char>, p: Seq<char>) -> bool {
    p.len() <= s.len() && s.subrange(s.len() - p.len(), s.len() as int) == p
}

/// `n` occurs somewhere in `h`.
pub open spec fn contains(h: Seq<char>, n: Seq<char>) -> bool {
    exists|i: int| occurs_at(h, n, i)
}

/// The part of `s` after its last `c`, or all of `s` when it has none
/// (`s.rsplit(c).next()`).
pub open spec fn after_last(s: Seq<char>, c: char) -> Seq<char> {
    match rfind_char(s, c) {
        Some(i) => s.subrange(i + 1, s.len() as int),
        None => s,
    }
}

/// Split `s` on every `c` (`str::split(c)`), in order.
pub open spec fn split_char(s: Seq<char>, c: char) -> Seq<Seq<char>>
    decreases s.len(),
{
    match find_char(s, c) {
        Some(i) => {
            proof {
                lemma_find_char(s, c);
            }
            seq![s.subrange(0, i)] + split_char(s.subrange(i + 1, s.len() as int), c)
        },
        None => seq![s],
    }
}

/// Splitting always yields at least one piece.
pub proof fn lemma_split_char_nonempty(s: Seq<char>, c: char)
    ensures
        split_char(s, c).len() >= 1,
    decreases s.len(),
{
    match find_char(s, c) {
        Some(i) => {
            lemma_find_char(s, c);
            lemma_split_char_nonempty(s.subrange(i + 1, s.len() as int), c);
        },
        None => {},
    }
}

/// Join pieces with a separator (`[T]::join`).
pub open spec fn join(pieces: Seq<Seq<char>>, sep: Seq<char>) -> Seq<char>
    decreases pieces.len(),
{
    if pieces.len() == 0 {
        seq![]
    } else if pieces.len() == 1 {
        pieces[0]
    } else {
        join(pieces.drop_last(), sep) + sep + pieces.last()
    }
}

/// Concatenation of a sequence of pieces.
pub open spec fn concat(pieces: Seq<Seq<char>>) -> Seq<char>
    decreases pieces.len(),
{
    if pieces.len() == 0 {
        seq![]
    } else {
        concat(pieces.drop_last()) + pieces.last()
    }
}

/// Lexicographic order on character sequences, which is the order of
/// `String` (UTF-8 byte order and code point order agree).
pub open spec fn str_lt(a: Seq<char>, b: Seq<char>) -> bool
    decreases a.len(),
{
    if a.len() == 0 {
        b.len() > 0
    } else if b.len() == 0 {
        false
    } else if a[0] == b[0] {
        str_lt(a.drop_first(), b.drop_first())
    } else {
        (a[0] as int) < (b[0] as int)
    }
}

/// No sequence sorts before itself.
pub proof fn lemma_str_lt_irrefl(a: Seq<char>)
    ensures
        !str_lt(a, a),
    decreases a.len(),
{
    if a.len() > 0 {
        lemma_str_lt_irrefl(a.drop_first());
    }
}

/// `str_lt` is transitive.
pub proof fn lemma_str_lt_trans(a: Seq<char>, b: Seq<char>, c: Seq<char>)
    requires
        str_lt(a, b),
        str_lt(b, c),
    ensures
        str_lt(a, c),
    decreases a.len(),
{
    if a.len() > 0 && b.len() > 0 && c.len() > 0 && a[0] == b[0] && b[0] == c[0] {
        lemma_str_lt_trans(a.drop_first(), b.drop_first(), c.drop_first());
    }
}

/// Two different sequences are ordered one way or the other.
pub proof fn lemma_str_lt_total(a: Seq<char>, b: Seq<char>)
    ensures
        a == b || str_lt(a, b) || str_lt(b, a),
    decreases a.len(),
{
    if a.len() > 0 && b.len() > 0 {
        if a[0] == b[0] {
            lemma_str_lt_total(a.drop_first(), b.drop_first());
            if a.drop_first() == b.drop_first() {
                assert(a =~= seq![a[0]] + a.drop_first());
                assert(b =~= seq![b[0]] + b.drop_first());
            }
        } else {
            assert((a[0] as int) != (b[0] as int));
        }
    } else if a.len() == 0 && b.len() == 0 {
        assert(a =~= b);
    }
}

/// `str_lt` is asymmetric.
pub proof fn lemma_str_lt_asym(a: Seq<char>, b: Seq<char>)
    requires
        str_lt(a, b),
    ensures
        !str_lt(b, a),
{
    if str_lt(b, a) {
        lemma_str_lt_trans(a, b, a);
        lemma_str_lt_irrefl(a);
    }
}

/// The text of an optional string slice.
pub open spec fn opt_text(o: Option<&str>) -> Option<Seq<char>> {
    match o {
        Some(s) => Some(s@),
        None => None,
    }
}

/// `a` sorts at or before `b`.
pub open spec fn str_le(a: Seq<char>, b: Seq<char>) -> bool {
    a == b || str_lt(a, b)
}

// ── Decimal rendering ─────────────────────────────────────────────────────────

/// The decimal digit for `d < 10`.
pub open spec fn digit_char(d: nat) -> char {
    if d == 0 { '0' }
    else if d == 1 { '1' }
    else if d == 2 { '2' }
    else if d == 3 { '3' }
    else if d == 4 { '4' }
    else if d == 5 { '5' }
    else if d == 6 { '6' }
    else if d == 7 { '7' }
    else if d == 8 { '8' }
    else { '9' }
}

/// Decimal representation of `n`, as `Display` writes it.
pub open spec fn decimal(n: nat) -> Seq<char>
    decreases n,
{
    if n < 10 {
        seq![digit_char(n)]
    } else {
        decimal(n / 10).push(digit_char(n % 10))
    }
}

// ── Executable primitives ─────────────────────────────────────────────────────

/// The characters of `s`.
pub fn chars_of(s: &str) -> (v: Vec<char>)
    ensures
        v@ == s@,
{
    broadcast use vstd::string::group_string_axioms;
    let mut v: Vec<char> = Vec::new();
    for c in it: s.chars()
        invariant
            it.seq() == s@,
            v@ == s@.subrange(0, it.index() as int),
    {
        v.push(c);
    }
    v
}

/// The `String` made of the characters `v`.
#[verifier::external_body]
pub fn string_of(v: &[char]) -> (s: String)
    ensures
        s@ == v@,
{
    v.iter().collect()
}

/// Append the characters of `s` to `out`.
pub fn push_str(out: &mut Vec<char>, s: &str)
    ensures
        final(out)@ == old(out)@ + s@,
{
    let v = chars_of(s);
    let mut i: usize = 0;
    while i < v.len()
        invariant
            0 <= i <= v.len(),
            v@ == s@,
            out@ == old(out)@ + v@.subrange(0, i as int),
        decreases v.len() - i,
    {
        out.push(v[i]);
        i = i + 1;
        assert(v@.subrange(0, i as int) == v@.subrange(0, i - 1).push(v@[i - 1]));
    }
    assert(v@.subrange(0, v.len() as int) == v@);
}

/// Append the characters of `v` to `out`.
pub fn push_chars(out: &mut Vec<char>, v: &[char])
    ensures
        final(out)@ == old(out)@ + v@,
{
    let mut i: usize = 0;
    while i < v.len()
        invariant
            0 <= i <= v.len(),
            out@ == old(out)@ + v@.subrange(0, i as int),
        decreases v.len() - i,
    {
        out.push(v[i]);
        i = i + 1;
        assert(v@.subrange(0, i as int) == v@.subrange(0, i - 1).push(v@[i - 1]));
    }
    assert(v@.subrange(0, v.len() as int) == v@);
}

/// A copy of `v[i..j]`.
pub fn slice(v: &[char], i: usize, j: usize) -> (r: Vec<char>)
    requires
        i <= j <= v@.len(),
    ensures
        r@ == v@.subrange(i as int, j as int),
{
    let mut r: Vec<char> = Vec::new();
    let mut k: usize = i;
    while k < j
        invariant
            i <= k <= j <= v@.len(),
            r@ == v@.subrange(i as int, k as int),
        decreases j - k,
    {
        r.push(v[k]);
        k = k + 1;
        assert(v@.subrange(i as int, k as int) == v@.subrange(i as int, k - 1).push(v@[k - 1]));
    }
    r
}

/// Whether `a` and `b` hold the same characters.
pub fn seq_eq(a: &[char], b: &[char]) -> (r: bool)
    ensures
        r == (a@ == b@),
{
    if a.len() != b.len() {
        return false;
    }
    let mut i: usize = 0;
    while i < a.len()
        invariant
            0 <= i <= a.len(),
            a.len() == b.len(),
            forall|j: int| 0 <= j < i ==> a@[j] == b@[j],
        decreases a.len() - i,
    {
        if a[i] != b[i] {
            return false;
        }
        i = i + 1;
    }
    assert(a@ =~= b@);
    true
}

/// Whether `s` equals the literal `lit`.
pub fn eq_str(s: &[char], lit: &str) -> (r: bool)
    ensures
        r == (s@ == lit@),
{
    let l = chars_of(lit);
    seq_eq(s, &l)
}

/// Whether `n` occurs in `h` at position `i`.
pub fn occurs_at_exec(h: &[char], n: &[char], i: usize) -> (r: bool)
    ensures
        r == occurs_at(h@, n@, i as int),
{
    if i > h.len() || n.len() > h.len() - i {
        return false;
    }
    let mut k: usize = 0;
    while k < n.len()
        invariant
            0 <= k <= n.len(),
            i + n.len() <= h.len(),
            forall|j: int| 0 <= j < k ==> h@[i + j] == n@[j],
        decreases n.len() - k,
    {
        if h[i + k] != n[k] {
            assert(h@.subrange(i as int, i + n.len())[k as int] != n@[k as int]);
            return false;
        }
        k = k + 1;
    }
    assert(h@.subrange(i as int, i + n.len()) =~= n@);
    true
}

/// First position at or after `from` where `n` occurs in `h`.
pub fn find_from_exec(h: &[char], n: &[char], from: usize) -> (r: Option<usize>)
    ensures
        match find_from(h@, n@, from as int) {
            Some(i) => r == Some(i as usize),
            None => r is None,
        },
        r matches Some(i) ==> find_from(h@, n@, from as int) == Some(i as int) && from <= i
            && i + n@.len() <= h@.len() && occurs_at(h@, n@, i as int),
{
    proof {
        lemma_find_from(h@, n@, from as int);
    }
    let mut i = from;
    while i <= h.len() && n.len() <= h.len() - i
        invariant
            from <= i,
            find_from(h@, n@, from as int) == find_from(h@, n@, i as int),
        decreases h.len() + 1 - i,
    {
        if occurs_at_exec(h, n, i) {
            return Some(i);
        }
        if i == h.len() {
            assert(find_from(h@, n@, i + 1) is None);
            return None;
        }
        i = i + 1;
    }
    None
}

/// Proof that `find_from` returns the first occurrence at or after `i`.
pub proof fn lemma_find_from(h: Seq<char>, n: Seq<char>, i: int)
    requires
        0 <= i,
    ensures
        match find_from(h, n, i) {
            Some(k) => i <= k && occurs_at(h, n, k) && forall|j: int|
                i <= j < k ==> !occurs_at(h, n, j),
            None => forall|j: int| i <= j ==> !occurs_at(h, n, j),
        },
    decreases h.len() + 1 - i,
{
    if i + n.len() > h.len() {
    } else if occurs_at(h, n, i) {
    } else {
        lemma_find_from(h, n, i + 1);
    }
}

/// Last position of `c` in `s`.
pub fn rfind_char_exec(s: &[char], c: char) -> (r: Option<usize>)
    ensures
        match rfind_char(s@, c) {
            Some(i) => r == Some(i as usize),
            None => r is None,
        },
        r matches Some(i) ==> i < s@.len() && s@[i as int] == c,
        r matches Some(i) ==> rfind_char(s@, c) == Some(i as int),
{
    proof {
        lemma_rfind_char(s@, c);
    }
    let mut k = s.len();
    assert(s@.subrange(0, k as int) == s@);
    while k > 0
        invariant
            k <= s@.len(),
            rfind_char(s@, c) == rfind_char(s@.subrange(0, k as int), c),
        decreases k,
    {
        assert(s@.subrange(0, k as int).drop_last() == s@.subrange(0, k - 1));
        if s[k - 1] == c {
            return Some(k - 1);
        }
        k = k - 1;
    }
    None
}

/// First position of `c` in `s`.
pub fn find_char_exec(s: &[char], c: char) -> (r: Option<usize>)
    ensures
        match find_char(s@, c) {
            Some(i) => r == Some(i as usize),
            None => r is None,
        },
        r matches Some(i) ==> i < s@.len() && s@[i as int] == c,
        r matches Some(i) ==> find_char(s@, c) == Some(i as int),
{
    proof {
        lemma_find_char(s@, c);
    }
    let mut k: usize = 0;
    while k < s.len()
        invariant
            k <= s@.len(),
            forall|j: int| 0 <= j < k ==> s@[j] != c,
        decreases s.len() - k,
    {
        if s[k] == c {
            proof {
                lemma_find_char(s@, c);
                match find_char(s@, c) {
                    Some(i) => {
                        assert(!(i < k));
                        assert(!(i > k));
                    },
                    None => {},
                }
            }
            return Some(k);
        }
        k = k + 1;
    }
    None
}

/// Position of the first non-white-space character (or the length).
pub fn ltrim_start(s: &[char]) -> (k: usize)
    ensures
        k <= s@.len(),
        ltrim(s@) == s@.subrange(k as int, s@.len() as int),
{
    let mut k: usize = 0;
    assert(s@.subrange(0, s@.len() as int) == s@);
    while k < s.len() && is_whitespace(s[k])
        invariant
            k <= s@.len(),
            ltrim(s@) == ltrim(s@.subrange(k as int, s@.len() as int)),
        decreases s.len() - k,
    {
        assert(s@.subrange(k as int, s@.len() as int).drop_first() == s@.subrange(k + 1, s@.len() as int));
        k = k + 1;
    }
    k
}

/// Position just after the last non-white-space character (or 0).
pub fn rtrim_end(s: &[char]) -> (k: usize)
    ensures
        k <= s@.len(),
        rtrim(s@) == s@.subrange(0, k as int),
{
    let mut k: usize = s.len();
    assert(s@.subrange(0, k as int) == s@);
    while k > 0 && is_whitespace(s[k - 1])
        invariant
            k <= s@.len(),
            rtrim(s@) == rtrim(s@.subrange(0, k as int)),
        decreases k,
    {
        assert(s@.subrange(0, k as int).drop_last() == s@.subrange(0, k - 1));
        k = k - 1;
    }
    k
}

/// `s` without leading and trailing white space.
pub fn trim_exec(s: &[char]) -> (r: Vec<char>)
    ensures
        r@ == trim(s@),
{
    let a = ltrim_start(s);
    let t = slice(s, a, s.len());
    let b = rtrim_end(&t);
    slice(&t, 0, b)
}

/// Whether `s` starts with `p`.
pub fn starts_with_exec(s: &[char], p: &[char]) -> (r: bool)
    ensures
        r == starts_with(s@, p@),
{
    if p.len() > s.len() {
        return false;
    }
    let r = occurs_at_exec(s, p, 0);
    assert(occurs_at(s@, p@, 0) == starts_with(s@, p@));
    r
}

/// Whether `s` ends with `p`.
pub fn ends_with_exec(s: &[char], p: &[char]) -> (r: bool)
    ensures
        r == ends_with(s@, p@),
{
    if p.len() > s.len() {
        return false;
    }
    occurs_at_exec(s, p, s.len() - p.len())
}

/// Whether `s` starts with the literal `lit`.
pub fn starts_with_str(s: &[char], lit: &str) -> (r: bool)
    ensures
        r == starts_with(s@, lit@),
{
    let p = chars_of(lit);
    starts_with_exec(s, &p)
}

/// Whether `s` ends with the literal `lit`.
pub fn ends_with_str(s: &[char], lit: &str) -> (r: bool)
    ensures
        r == ends_with(s@, lit@),
{
    let p = chars_of(lit);
    ends_with_exec(s, &p)
}

/// Whether the literal `lit` occurs in `s`.
pub fn contains_str(s: &[char], lit: &str) -> (r: bool)
    ensures
        r == (find(s@, lit@) is Some),
{
    let p = chars_of(lit);
    find_from_exec(s, &p, 0).is_some()
}

/// `s` without all trailing `c`.
pub fn rstrip_char_exec(s: &[char], c: char) -> (r: Vec<char>)
    ensures
        r@ == rstrip_char(s@, c),
{
    let mut k: usize = s.len();
    assert(s@.subrange(0, k as int) == s@);
    while k > 0 && s[k - 1] == c
        invariant
            k <= s@.len(),
            rstrip_char(s@, c) == rstrip_char(s@.subrange(0, k as int), c),
        decreases k,
    {
        assert(s@.subrange(0, k as int).drop_last() == s@.subrange(0, k - 1));
        k = k - 1;
    }
    slice(s, 0, k)
}

/// `s` without all leading `c`.
pub fn lstrip_char_exec(s: &[char], c: char) -> (r: Vec<char>)
    ensures
        r@ == lstrip_char(s@, c),
{
    let mut k: usize = 0;
    assert(s@.subrange(0, s@.len() as int) == s@);
    while k < s.len() && s[k] == c
        invariant
            k <= s@.len(),
            lstrip_char(s@, c) == lstrip_char(s@.subrange(k as int, s@.len() as int), c),
        decreases s.len() - k,
    {
        assert(s@.subrange(k as int, s@.len() as int).drop_first() == s@.subrange(k + 1, s@.len() as int));
        k = k + 1;
    }
    slice(s, k, s.len())
}

/// The decimal digits of `n`.
pub fn decimal_exec(n: u64) -> (r: Vec<char>)
    ensures
        r@ == decimal(n as nat),
    decreases n,
{
    let d = n % 10;
    let c = if d == 0 { '0' } else if d == 1 { '1' } else if d == 2 { '2' } else if d == 3 {
        '3'
    } else if d == 4 { '4' } else if d == 5 { '5' } else if d == 6 { '6' } else if d == 7 {
        '7'
    } else if d == 8 { '8' } else { '9' };
    if n < 10 {
        let mut r: Vec<char> = Vec::new();
        r.push(c);
        r
    } else {
        let mut r = decimal_exec(n / 10);
        r.push(c);
        r
    }
}

/// Whether `a` sorts strictly before `b`.
pub fn str_lt_exec(a: &[char], b: &[char]) -> (r: bool)
    ensures
        r == str_lt(a@, b@),
{
    let mut i: usize = 0;
    assert(a@.subrange(0, a@.len() as int) == a@);
    assert(b@.subrange(0, b@.len() as int) == b@);
    while i < a.len() && i < b.len() && a[i] == b[i]
        invariant
            i <= a@.len(),
            i <= b@.len(),
            str_lt(a@, b@) == str_lt(a@.subrange(i as int, a@.len() as int), b@.subrange(i as int, b@.len() as int)),
        decreases a.len() - i,
    {
        assert(a@.subrange(i as int, a@.len() as int).drop_first() == a@.subrange(i + 1, a@.len() as int));
        assert(b@.subrange(i as int, b@.len() as int).drop_first() == b@.subrange(i + 1, b@.len() as int));
        i = i + 1;
    }
    if i == a.len() {
        i < b.len()
    } else if i == b.len() {
        false
    } else {
        a[i] < b[i]
    }
}

/// Append `items` joined with `sep`.
pub fn push_joined(out: &mut Vec<char>, items: &Vec<String>, sep: &str)
    ensures
        final(out)@ == old(out)@ + join(items@.map_values(|s: String| s@), sep@),
{
    let ghost ts = items@.map_values(|s: String| s@);
    let ghost start = out@;
    let mut i: usize = 0;
    while i < items.len()
        invariant
            ts == items@.map_values(|s: String| s@),
            i <= items@.len(),
            out@ == start + join(ts.subrange(0, i as int), sep@),
        decreases items.len() - i,
    {
        let ghost pre = ts.subrange(0, i as int);
        if i > 0 {
            push_str(out, sep);
        }
        push_str(out, items[i].as_str());
        proof {
            let post = ts.subrange(0, i + 1);
            assert(post.drop_last() == pre);
            assert(post.last() == items@[i as int]@);
            if i == 0 {
                assert(post.len() == 1);
                assert(pre.len() == 0);
                assert(join(pre, sep@) == Seq::<char>::empty());
                assert(out@ == start + post[0]);
            } else {
                assert(out@ == start + join(pre, sep@) + sep@ + items@[i as int]@);
            }
        }
        i = i + 1;
    }
    assert(ts.subrange(0, items@.len() as int) == ts);
}

/// The strings are in ascending order.
pub open spec fn strings_sorted(s: Seq<String>) -> bool {
    forall|i: int, j: int| 0 <= i < j < s.len() ==> !str_lt(#[trigger] s[j]@, #[trigger] s[i]@)
}

proof fn lemma_str_le_trans(a: Seq<char>, b: Seq<char>, c: Seq<char>)
    requires
        !str_lt(b, a),
        !str_lt(c, b),
    ensures
        !str_lt(c, a),
{
    lemma_str_lt_total(a, b);
    lemma_str_lt_total(b, c);
    if str_lt(c, a) {
        if a == b {
        } else if b == c {
        } else {
            lemma_str_lt_trans(c, a, b);
        }
    }
}

/// Sort strings in ascending order (a stable insertion sort).
pub fn sort_strings(v: Vec<String>) -> (r: Vec<String>)
    ensures
        strings_sorted(r@),
        r@.to_multiset() == v@.to_multiset(),
        r@.map_values(|s: String| s@).to_multiset() == v@.map_values(|s: String| s@).to_multiset(),
{
    broadcast use vstd::seq_lib::group_to_multiset_ensures;
    broadcast use vstd::multiset::group_multiset_axioms;

    let ghost orig = v@;
    let mut v = v;
    let mut out: Vec<String> = Vec::new();
    while v.len() > 0
        invariant
            strings_sorted(out@),
            out@.to_multiset().add(v@.to_multiset()) == orig.to_multiset(),
            out@.map_values(|s: String| s@).to_multiset().add(v@.map_values(|s: String| s@).to_multiset())
                == orig.map_values(|s: String| s@).to_multiset(),
        decreases v.len(),
    {
        let ghost before_v = v@;
        let x = v.pop().unwrap();
        proof {
            assert(before_v == v@.push(x));
            vstd::seq_lib::to_multiset_build(v@, x);
            assert(before_v.map_values(|s: String| s@) == v@.map_values(|s: String| s@).push(x@));
            vstd::seq_lib::to_multiset_build(v@.map_values(|s: String| s@), x@);
        }
        let xc = chars_of(x.as_str());
        let mut j: usize = 0;
        while j < out.len() && str_lt_exec(&chars_of(out[j].as_str()), &xc)
            invariant
                j <= out@.len(),
                xc@ == x@,
                forall|i: int| 0 <= i < j ==> str_lt(#[trigger] out@[i]@, x@),
            decreases out.len() - j,
        {
            j = j + 1;
        }
        let ghost before_out = out@;
        out.insert(j, x);
        proof {
            assert(out@ == before_out.insert(j as int, x));
            vstd::seq_lib::to_multiset_insert(before_out, j as int, x);
            assert(out@.map_values(|s: String| s@) == before_out.map_values(|s: String| s@).insert(j as int, x@));
            vstd::seq_lib::to_multiset_insert(before_out.map_values(|s: String| s@), j as int, x@);
            assert forall|a: int, b: int| 0 <= a < b < out@.len() implies !str_lt(
                #[trigger] out@[b]@,
                #[trigger] out@[a]@,
            ) by {
                if b < j {
                    assert(out@[a] == before_out[a] && out@[b] == before_out[b]);
                } else if a > j {
                    assert(out@[a] == before_out[a - 1] && out@[b] == before_out[b - 1]);
                } else if b == j {
                    assert(out@[b] == x && out@[a] == before_out[a]);
                    lemma_str_lt_asym(before_out[a]@, x@);
                } else if a == j {
                    assert(out@[a] == x && out@[b] == before_out[b - 1]);
                    assert(!str_lt(before_out[j as int]@, x@));
                    if b - 1 > j {
                        assert(!str_lt(before_out[b - 1]@, before_out[j as int]@));
                        lemma_str_le_trans(x@, before_out[j as int]@, before_out[b - 1]@);
                    }
                } else {
                    assert(out@[a] == before_out[a] && out@[b] == before_out[b - 1]);
                }
            }
        }
    }
    out
}

} // verus!
