//! Character-sequence helpers shared by the parsers.
//!
//! Every parser in this crate works on `Seq<char>` in its contracts and on
//! `Vec<char>` / `&[char]` at run time. The spec functions here say what the
//! familiar `str` operations (`find`, `rfind`, `trim`, `split`, `lines`,
//! `replace`, integer `parse`) compute, and the exec functions are proved to
//! compute exactly that.

use vstd::prelude::*;

verus! {

// ============================================================
// Conversions
// ============================================================

/// `String::push` — appends one character.
#[verifier::external_body]
pub(crate) fn push_char(s: &mut String, c: char)
    ensures
        final(s)@ == old(s)@.push(c),
{
    s.push(c);
}

/// The characters of a string slice, in order.
pub fn chars_of(s: &str) -> (v: Vec<char>)
    ensures
        v@ == s@,
{
    let mut v: Vec<char> = Vec::new();
    for c in it: s.chars()
        invariant
            v@ == it.seq().take(it.index() as int),
    {
        v.push(c);
    }
    v
}

/// A string holding exactly the given characters.
pub fn string_of(v: &[char]) -> (s: String)
    ensures
        s@ == v@,
{
    let mut s = String::new();
    let mut i: usize = 0;
    while i < v.len()
        invariant
            i <= v.len(),
            s@ == v@.take(i as int),
        decreases v.len() - i,
    {
        push_char(&mut s, v[i]);
        assert(v@.take(i as int).push(v@[i as int]) =~= v@.take(i as int + 1));
        i += 1;
    }
    assert(v@.take(v.len() as int) =~= v@);
    s
}

/// A copy of `v[from..to]`.
pub fn copy_range(v: &[char], from: usize, to: usize) -> (r: Vec<char>)
    requires
        from <= to <= v@.len(),
    ensures
        r@ == v@.subrange(from as int, to as int),
{
    let mut r: Vec<char> = Vec::new();
    let mut i = from;
    while i < to
        invariant
            from <= i <= to <= v@.len(),
            r@ == v@.subrange(from as int, i as int),
        decreases to - i,
    {
        r.push(v[i]);
        assert(v@.subrange(from as int, i as int).push(v@[i as int]) =~= v@.subrange(
            from as int,
            i + 1,
        ));
        i += 1;
    }
    r
}

/// Element-wise equality of two character slices.
pub fn eq_chars(a: &[char], b: &[char]) -> (r: bool)
    ensures
        r == (a@ == b@),
{
    if a.len() != b.len() {
        return false;
    }
    let mut i: usize = 0;
    while i < a.len()
        invariant
            i <= a@.len(),
            a@.len() == b@.len(),
            forall|j: int| 0 <= j < i ==> a@[j] == b@[j],
        decreases a.len() - i,
    {
        if a[i] != b[i] {
            return false;
        }
        i += 1;
    }
    assert(a@ =~= b@);
    true
}

// ============================================================
// Searching
// ============================================================

/// `pat` occurs in `s` starting at position `i`.
pub open spec fn occurs_at(s: Seq<char>, pat: Seq<char>, i: int) -> bool {
    &&& 0 <= i
    &&& i + pat.len() <= s.len()
    &&& s.subrange(i, i + pat.len()) == pat
}

/// The first position `>= i` where `pat` occurs in `s`.
pub open spec fn find_from(s: Seq<char>, pat: Seq<char>, i: nat) -> Option<int>
    decreases s.len() + 1 - i,
{
    if i > s.len() {
        None
    } else if occurs_at(s, pat, i as int) {
        Some(i as int)
    } else {
        find_from(s, pat, i + 1)
    }
}

/// `str::find`: the first position where `pat` occurs in `s`.
pub open spec fn find(s: Seq<char>, pat: Seq<char>) -> Option<int> {
    find_from(s, pat, 0)
}

/// The last position `< n` where `pat` occurs in `s`.
pub open spec fn rfind_below(s: Seq<char>, pat: Seq<char>, n: nat) -> Option<int>
    decreases n,
{
    if n == 0 {
        None
    } else if occurs_at(s, pat, n - 1) {
        Some(n - 1)
    } else {
        rfind_below(s, pat, (n - 1) as nat)
    }
}

/// `str::rfind`: the last position where `pat` occurs in `s`.
pub open spec fn rfind(s: Seq<char>, pat: Seq<char>) -> Option<int> {
    rfind_below(s, pat, s.len() + 1)
}

/// `str::contains`.
pub open spec fn contains(s: Seq<char>, pat: Seq<char>) -> bool {
    find(s, pat) is Some
}

pub proof fn lemma_find_from_facts(s: Seq<char>, pat: Seq<char>, i: nat)
    ensures
        match find_from(s, pat, i) {
            Some(k) => i <= k && occurs_at(s, pat, k) && (forall|j: int|
                i <= j < k ==> !occurs_at(s, pat, j)),
            None => forall|j: int| i <= j ==> !occurs_at(s, pat, j),
        },
    decreases s.len() + 1 - i,
{
    if i > s.len() {
    } else if occurs_at(s, pat, i as int) {
    } else {
        lemma_find_from_facts(s, pat, i + 1);
    }
}

pub proof fn lemma_find_facts(s: Seq<char>, pat: Seq<char>)
    ensures
        match find(s, pat) {
            Some(k) => 0 <= k && k + pat.len() <= s.len() && s.subrange(k, k + pat.len()) == pat
                && (forall|j: int| 0 <= j < k ==> !occurs_at(s, pat, j)),
            None => forall|j: int| !occurs_at(s, pat, j),
        },
{
    lemma_find_from_facts(s, pat, 0);
}

pub proof fn lemma_rfind_below_facts(s: Seq<char>, pat: Seq<char>, n: nat)
    ensures
        match rfind_below(s, pat, n) {
            Some(k) => 0 <= k < n && occurs_at(s, pat, k) && (forall|j: int|
                k < j < n ==> !occurs_at(s, pat, j)),
            None => forall|j: int| j < n ==> !occurs_at(s, pat, j),
        },
    decreases n,
{
    if n > 0 {
        lemma_rfind_below_facts(s, pat, (n - 1) as nat);
    }
}

pub proof fn lemma_rfind_facts(s: Seq<char>, pat: Seq<char>)
    ensures
        match rfind(s, pat) {
            Some(k) => 0 <= k && k + pat.len() <= s.len() && s.subrange(k, k + pat.len()) == pat
                && (forall|j: int| k < j ==> !occurs_at(s, pat, j)),
            None => forall|j: int| !occurs_at(s, pat, j),
        },
{
    lemma_rfind_below_facts(s, pat, s.len() + 1);
}

/// Does `pat` occur in `s` at position `i`?
pub fn matches_at(s: &[char], pat: &[char], i: usize) -> (r: bool)
    ensures
        r == occurs_at(s@, pat@, i as int),
{
    if i > s.len() || pat.len() > s.len() - i {
        return false;
    }
    let mut j: usize = 0;
    while j < pat.len()
        invariant
            j <= pat@.len(),
            i + pat@.len() <= s@.len(),
            s@.len() <= usize::MAX,
            forall|k: int| 0 <= k < j ==> s@[i + k] == pat@[k],
        decreases pat.len() - j,
    {
        assert(i + j < s@.len());
        if s[i + j] != pat[j] {
            assert(s@.subrange(i as int, i + pat@.len())[j as int] != pat@[j as int]);
            return false;
        }
        j += 1;
    }
    assert(s@.subrange(i as int, i + pat@.len()) =~= pat@);
    true
}

/// `find` starting at position `from`.
pub fn find_at(s: &[char], pat: &[char], from: usize) -> (r: Option<usize>)
    ensures
        r matches Some(k) ==> find_from(s@, pat@, from as nat) == Some(k as int),
        r is None ==> find_from(s@, pat@, from as nat) is None,
{
    let mut i = from;
    if i > s.len() {
        return None;
    }
    while i <= s.len()
        invariant
            from <= i,
            find_from(s@, pat@, from as nat) == find_from(s@, pat@, i as nat),
        decreases s.len() + 1 - i,
    {
        if matches_at(s, pat, i) {
            return Some(i);
        }
        if i == s.len() {
            assert(find_from(s@, pat@, (i + 1) as nat) is None);
            return None;
        }
        i += 1;
    }
    None
}

/// `str::find`.
pub fn find_seq(s: &[char], pat: &[char]) -> (r: Option<usize>)
    ensures
        r matches Some(k) ==> find(s@, pat@) == Some(k as int),
        r is None ==> find(s@, pat@) is None,
{
    find_at(s, pat, 0)
}

/// `str::find` for a single character.
pub fn find_char(s: &[char], c: char) -> (r: Option<usize>)
    ensures
        r matches Some(k) ==> find(s@, seq![c]) == Some(k as int),
        r is None ==> find(s@, seq![c]) is None,
{
    let pat = vec![c];
    assert(pat@ =~= seq![c]);
    find_at(s, pat.as_slice(), 0)
}

/// `str::rfind`.
pub fn rfind_seq(s: &[char], pat: &[char]) -> (r: Option<usize>)
    ensures
        r matches Some(k) ==> rfind(s@, pat@) == Some(k as int),
        r is None ==> rfind(s@, pat@) is None,
{
    let mut k: usize = s.len();
    loop
        invariant
            k <= s@.len(),
            rfind(s@, pat@) == rfind_below(s@, pat@, (k + 1) as nat),
        decreases k,
    {
        if matches_at(s, pat, k) {
            return Some(k);
        }
        if k == 0 {
            assert(rfind_below(s@, pat@, 0) is None);
            return None;
        }
        k -= 1;
    }
}

/// `str::rfind` for a single character.
pub fn rfind_char(s: &[char], c: char) -> (r: Option<usize>)
    ensures
        r matches Some(k) ==> rfind(s@, seq![c]) == Some(k as int),
        r is None ==> rfind(s@, seq![c]) is None,
{
    let pat = vec![c];
    assert(pat@ =~= seq![c]);
    rfind_seq(s, pat.as_slice())
}

/// `str::contains`.
pub fn contains_seq(s: &[char], pat: &[char]) -> (r: bool)
    ensures
        r == contains(s@, pat@),
{
    find_seq(s, pat).is_some()
}

/// `str::contains` with a string-literal pattern.
pub fn contains_str(s: &[char], pat: &str) -> (r: bool)
    ensures
        r == contains(s@, pat@),
{
    let p = chars_of(pat);
    contains_seq(s, p.as_slice())
}

// ============================================================
// Prefixes and suffixes
// ============================================================

pub open spec fn starts_with(s: Seq<char>, p: Seq<char>) -> bool {
    p.len() <= s.len() && s.take(p.len() as int) == p
}

pub open spec fn ends_with(s: Seq<char>, p: Seq<char>) -> bool {
    p.len() <= s.len() && s.skip(s.len() - p.len()) == p
}

/// `str::strip_prefix`.
pub open spec fn strip_prefix(s: Seq<char>, p: Seq<char>) -> Option<Seq<char>> {
    if starts_with(s, p) {
        Some(s.skip(p.len() as int))
    } else {
        None
    }
}

/// `str::strip_suffix`.
pub open spec fn strip_suffix(s: Seq<char>, p: Seq<char>) -> Option<Seq<char>> {
    if ends_with(s, p) {
        Some(s.take(s.len() - p.len()))
    } else {
        None
    }
}

pub fn starts_with_chars(s: &[char], p: &[char]) -> (r: bool)
    ensures
        r == starts_with(s@, p@),
{
    let r = matches_at(s, p, 0);
    assert(r ==> s@.take(p@.len() as int) =~= s@.subrange(0, p@.len() as int));
    assert(starts_with(s@, p@) ==> s@.subrange(0, p@.len() as int) =~= s@.take(
        p@.len() as int,
    ));
    r
}

pub fn ends_with_chars(s: &[char], p: &[char]) -> (r: bool)
    ensures
        r == ends_with(s@, p@),
{
    if p.len() > s.len() {
        return false;
    }
    let k = s.len() - p.len();
    let r = matches_at(s, p, k);
    assert(s@.skip(k as int) =~= s@.subrange(k as int, k + p@.len()));
    r
}

/// `str::starts_with` with a string-literal prefix.
pub fn starts_with_str(s: &[char], p: &str) -> (r: bool)
    ensures
        r == starts_with(s@, p@),
{
    let pc = chars_of(p);
    starts_with_chars(s, pc.as_slice())
}

/// `str::ends_with` with a string-literal suffix.
pub fn ends_with_str(s: &[char], p: &str) -> (r: bool)
    ensures
        r == ends_with(s@, p@),
{
    let pc = chars_of(p);
    ends_with_chars(s, pc.as_slice())
}

/// `str::strip_prefix` with a string-literal prefix.
pub fn strip_prefix_str(s: &[char], p: &str) -> (r: Option<Vec<char>>)
    ensures
        r matches Some(v) ==> strip_prefix(s@, p@) == Some(v@),
        r is None ==> strip_prefix(s@, p@) is None,
{
    let pc = chars_of(p);
    if starts_with_chars(s, pc.as_slice()) {
        Some(copy_range(s, pc.len(), s.len()))
    } else {
        None
    }
}

/// `str::strip_suffix` with a string-literal suffix.
pub fn strip_suffix_str(s: &[char], p: &str) -> (r: Option<Vec<char>>)
    ensures
        r matches Some(v) ==> strip_suffix(s@, p@) == Some(v@),
        r is None ==> strip_suffix(s@, p@) is None,
{
    let pc = chars_of(p);
    if ends_with_chars(s, pc.as_slice()) {
        Some(copy_range(s, 0, s.len() - pc.len()))
    } else {
        None
    }
}

/// Equality with a string literal.
pub fn eq_str(s: &[char], p: &str) -> (r: bool)
    ensures
        r == (s@ == p@),
{
    let pc = chars_of(p);
    eq_chars(s, pc.as_slice())
}

// ============================================================
// Character classes and trimming
// ============================================================

/// `char::is_whitespace`: the Unicode `White_Space` property.
pub open spec fn is_ws(c: char) -> bool {
    let u = c as u32;
    ||| 0x09 <= u <= 0x0d
    ||| u == 0x20
    ||| u == 0x85
    ||| u == 0xa0
    ||| u == 0x1680
    ||| 0x2000 <= u <= 0x200a
    ||| u == 0x2028
    ||| u == 0x2029
    ||| u == 0x202f
    ||| u == 0x205f
    ||| u == 0x3000
}

pub fn is_whitespace(c: char) -> (r: bool)
    ensures
        r == is_ws(c),
{
    let u = c as u32;
    (0x09 <= u && u <= 0x0d) || u == 0x20 || u == 0x85 || u == 0xa0 || u == 0x1680 || (0x2000
        <= u && u <= 0x200a) || u == 0x2028 || u == 0x2029 || u == 0x202f || u == 0x205f || u
        == 0x3000
}

/// `char::is_ascii_digit`.
pub open spec fn is_digit(c: char) -> bool {
    '0' <= c <= '9'
}

/// The sets of characters that the parsers trim.
#[derive(Clone, Copy, PartialEq, Eq)]
pub enum CharClass {
    /// `char::is_whitespace`.
    Whitespace,
    /// A single character.
    Only(char),
    /// `'.'` or whitespace.
    DotOrWhitespace,
    /// An ASCII digit or `'X'`.
    DigitOrX,
    /// `' '` or `'-'`.
    SpaceOrDash,
}

pub open spec fn in_class(cls: CharClass, c: char) -> bool {
    match cls {
        CharClass::Whitespace => is_ws(c),
        CharClass::Only(d) => c == d,
        CharClass::DotOrWhitespace => c == '.' || is_ws(c),
        CharClass::DigitOrX => is_digit(c) || c == 'X',
        CharClass::SpaceOrDash => c == ' ' || c == '-',
    }
}

pub fn class_has(cls: CharClass, c: char) -> (r: bool)
    ensures
        r == in_class(cls, c),
{
    match cls {
        CharClass::Whitespace => is_whitespace(c),
        CharClass::Only(d) => c == d,
        CharClass::DotOrWhitespace => c == '.' || is_whitespace(c),
        CharClass::DigitOrX => ('0' <= c && c <= '9') || c == 'X',
        CharClass::SpaceOrDash => c == ' ' || c == '-',
    }
}

/// `str::trim_start_matches` with a character class.
pub open spec fn trim_start_by(s: Seq<char>, cls: CharClass) -> Seq<char>
    decreases s.len(),
{
    if s.len() > 0 && in_class(cls, s[0]) {
        trim_start_by(s.drop_first(), cls)
    } else {
        s
    }
}

/// `str::trim_end_matches` with a character class.
pub open spec fn trim_end_by(s: Seq<char>, cls: CharClass) -> Seq<char>
    decreases s.len(),
{
    if s.len() > 0 && in_class(cls, s.last()) {
        trim_end_by(s.drop_last(), cls)
    } else {
        s
    }
}

/// `str::trim_matches` with a character class.
pub open spec fn trim_by(s: Seq<char>, cls: CharClass) -> Seq<char> {
    trim_end_by(trim_start_by(s, cls), cls)
}

/// `str::trim`.
pub open spec fn trim(s: Seq<char>) -> Seq<char> {
    trim_by(s, CharClass::Whitespace)
}

proof fn lemma_trim_start_skip(s: Seq<char>, cls: CharClass, i: int)
    requires
        0 <= i <= s.len(),
        forall|j: int| 0 <= j < i ==> in_class(cls, s[j]),
    ensures
        trim_start_by(s, cls) == trim_start_by(s.skip(i), cls),
    decreases i,
{
    if i > 0 {
        assert(in_class(cls, s[0]));
        assert(s.drop_first().skip(i - 1) =~= s.skip(i));
        lemma_trim_start_skip(s.drop_first(), cls, i - 1);
    } else {
        assert(s.skip(0) =~= s);
    }
}

proof fn lemma_trim_end_take(s: Seq<char>, cls: CharClass, i: int)
    requires
        0 <= i <= s.len(),
        forall|j: int| i <= j < s.len() ==> in_class(cls, s[j]),
    ensures
        trim_end_by(s, cls) == trim_end_by(s.take(i), cls),
    decreases s.len() - i,
{
    if i < s.len() {
        assert(in_class(cls, s.last()));
        assert(s.drop_last().take(i) =~= s.take(i));
        lemma_trim_end_take(s.drop_last(), cls, i);
    } else {
        assert(s.take(i) =~= s);
    }
}

/// The position where `trim_start_by` stops.
pub fn trim_start_pos(s: &[char], from: usize, to: usize, cls: CharClass) -> (r: usize)
    requires
        from <= to <= s@.len(),
    ensures
        from <= r <= to,
        trim_start_by(s@.subrange(from as int, to as int), cls) == s@.subrange(
            r as int,
            to as int,
        ),
{
    let mut i = from;
    while i < to && class_has(cls, s[i])
        invariant
            from <= i <= to <= s@.len(),
            forall|j: int| from <= j < i ==> in_class(cls, s@[j]),
        decreases to - i,
    {
        i += 1;
    }
    proof {
        let t = s@.subrange(from as int, to as int);
        lemma_trim_start_skip(t, cls, i - from);
        assert(t.skip(i - from) =~= s@.subrange(i as int, to as int));
        let u = s@.subrange(i as int, to as int);
        if u.len() > 0 {
            assert(u[0] == s@[i as int]);
        }
    }
    i
}

/// The position where `trim_end_by` stops.
pub fn trim_end_pos(s: &[char], from: usize, to: usize, cls: CharClass) -> (r: usize)
    requires
        from <= to <= s@.len(),
    ensures
        from <= r <= to,
        trim_end_by(s@.subrange(from as int, to as int), cls) == s@.subrange(
            from as int,
            r as int,
        ),
{
    let mut e = to;
    while e > from && class_has(cls, s[e - 1])
        invariant
            from <= e <= to <= s@.len(),
            forall|j: int| e <= j < to ==> in_class(cls, s@[j]),
        decreases e,
    {
        e -= 1;
    }
    proof {
        let t = s@.subrange(from as int, to as int);
        lemma_trim_end_take(t, cls, e - from);
        assert(t.take(e - from) =~= s@.subrange(from as int, e as int));
        let u = s@.subrange(from as int, e as int);
        if u.len() > 0 {
            assert(u.last() == s@[e - 1]);
        }
    }
    e
}

/// `str::trim_start_matches`.
pub fn trim_start_class(s: &[char], cls: CharClass) -> (r: Vec<char>)
    ensures
        r@ == trim_start_by(s@, cls),
{
    let a = trim_start_pos(s, 0, s.len(), cls);
    assert(s@.subrange(0, s@.len() as int) =~= s@);
    copy_range(s, a, s.len())
}

/// `str::trim_end_matches`.
pub fn trim_end_class(s: &[char], cls: CharClass) -> (r: Vec<char>)
    ensures
        r@ == trim_end_by(s@, cls),
{
    let b = trim_end_pos(s, 0, s.len(), cls);
    assert(s@.subrange(0, s@.len() as int) =~= s@);
    copy_range(s, 0, b)
}

/// `str::trim_matches`.
pub fn trim_class(s: &[char], cls: CharClass) -> (r: Vec<char>)
    ensures
        r@ == trim_by(s@, cls),
{
    let a = trim_start_pos(s, 0, s.len(), cls);
    assert(s@.subrange(0, s@.len() as int) =~= s@);
    let b = trim_end_pos(s, a, s.len(), cls);
    copy_range(s, a, b)
}

/// `str::trim`.
pub fn trim_ws(s: &[char]) -> (r: Vec<char>)
    ensures
        r@ == trim(s@),
{
    trim_class(s, CharClass::Whitespace)
}

// ============================================================
// Splitting
// ============================================================

/// `str::splitn(n, c)`: at most `n` pieces, the last holding the rest.
pub open spec fn splitn(s: Seq<char>, c: char, n: nat) -> Seq<Seq<char>>
    decreases s.len(),
{
    if n <= 1 {
        seq![s]
    } else {
        match find(s, seq![c]) {
            None => seq![s],
            Some(i) => if 0 <= i < s.len() {
                seq![s.take(i)] + splitn(s.skip(i + 1), c, (n - 1) as nat)
            } else {
                seq![s]
            },
        }
    }
}

/// `str::split(c)`: every piece between occurrences of `c`.
pub open spec fn split(s: Seq<char>, c: char) -> Seq<Seq<char>>
    decreases s.len(),
{
    match find(s, seq![c]) {
        None => seq![s],
        Some(i) => if 0 <= i < s.len() {
            seq![s.take(i)] + split(s.skip(i + 1), c)
        } else {
            seq![s]
        },
    }
}

proof fn lemma_find_single(s: Seq<char>, c: char)
    ensures
        find(s, seq![c]) matches Some(i) ==> 0 <= i < s.len() && s[i] == c && (forall|j: int|
            0 <= j < i ==> s[j] != c),
        find(s, seq![c]) is None ==> forall|j: int| 0 <= j < s.len() ==> s[j] != c,
{
    lemma_find_facts(s, seq![c]);
    if let Some(i) = find(s, seq![c]) {
        assert(s.subrange(i, i + 1)[0] == s[i]);
        assert forall|j: int| 0 <= j < i implies s[j] != c by {
            if s[j] == c {
                assert(s.subrange(j, j + 1) =~= seq![c]);
                assert(occurs_at(s, seq![c], j));
            }
        }
    } else {
        assert forall|j: int| 0 <= j < s.len() implies s[j] != c by {
            if s[j] == c {
                assert(s.subrange(j, j + 1) =~= seq![c]);
                assert(occurs_at(s, seq![c], j));
            }
        }
    }
}

pub proof fn lemma_find_single_pub(s: Seq<char>, c: char)
    ensures
        find(s, seq![c]) matches Some(i) ==> 0 <= i < s.len() && s[i] == c && (forall|j: int|
            0 <= j < i ==> s[j] != c),
        find(s, seq![c]) is None ==> forall|j: int| 0 <= j < s.len() ==> s[j] != c,
{
    lemma_find_single(s, c);
}

/// The pieces of `s[from..]` after splitting at most `n` ways on `c`.
fn splitn_from(s: &[char], from: usize, c: char, n: usize) -> (r: Vec<Vec<char>>)
    requires
        from <= s@.len(),
    ensures
        r@.map_values(|v: Vec<char>| v@) == splitn(s@.skip(from as int), c, n as nat),
    decreases s@.len() - from,
{
    let ghost rest = s@.skip(from as int);
    if n <= 1 {
        let v = copy_range(s, from, s.len());
        let r = vec![v];
        assert(r@.map_values(|v: Vec<char>| v@) =~= seq![rest]);
        return r;
    }
    proof {
        lemma_find_single(rest, c);
    }
    let mut i = from;
    while i < s.len() && s[i] != c
        invariant
            from <= i <= s@.len(),
            forall|j: int| from <= j < i ==> s@[j] != c,
        decreases s.len() - i,
    {
        i += 1;
    }
    if i == s.len() {
        proof {
            if let Some(k) = find(rest, seq![c]) {
                assert(rest[k] == s@[from + k]);
            }
        }
        let v = copy_range(s, from, s.len());
        let r = vec![v];
        assert(r@.map_values(|v: Vec<char>| v@) =~= seq![rest]);
        r
    } else {
        proof {
            let k = find(rest, seq![c]);
            assert(rest[i - from] == c);
            if let Some(k) = k {
                assert(rest[k] == s@[from + k]);
                assert(k == i - from);
            }
        }
        let head = copy_range(s, from, i);
        let tail = splitn_from(s, i + 1, c, n - 1);
        assert(rest.take(i - from) =~= head@);
        assert(rest.skip(i - from + 1) =~= s@.skip(i + 1));
        let mut r = vec![head];
        let mut t = tail;
        r.append(&mut t);
        assert(r@.map_values(|v: Vec<char>| v@) =~= seq![head@] + tail@.map_values(
            |v: Vec<char>| v@,
        ));
        r
    }
}

/// `str::splitn(n, c)`.
pub fn splitn_char(s: &[char], c: char, n: usize) -> (r: Vec<Vec<char>>)
    ensures
        r@.map_values(|v: Vec<char>| v@) == splitn(s@, c, n as nat),
{
    assert(s@.skip(0) =~= s@);
    splitn_from(s, 0, c, n)
}

fn split_from(s: &[char], from: usize, c: char) -> (r: Vec<Vec<char>>)
    requires
        from <= s@.len(),
    ensures
        r@.map_values(|v: Vec<char>| v@) == split(s@.skip(from as int), c),
    decreases s@.len() - from,
{
    let ghost rest = s@.skip(from as int);
    proof {
        lemma_find_single(rest, c);
    }
    let mut i = from;
    while i < s.len() && s[i] != c
        invariant
            from <= i <= s@.len(),
            forall|j: int| from <= j < i ==> s@[j] != c,
        decreases s.len() - i,
    {
        i += 1;
    }
    if i == s.len() {
        proof {
            if let Some(k) = find(rest, seq![c]) {
                assert(rest[k] == s@[from + k]);
            }
        }
        let v = copy_range(s, from, s.len());
        let r = vec![v];
        assert(r@.map_values(|v: Vec<char>| v@) =~= seq![rest]);
        r
    } else {
        proof {
            assert(rest[i - from] == c);
            if let Some(k) = find(rest, seq![c]) {
                assert(rest[k] == s@[from + k]);
            }
        }
        let head = copy_range(s, from, i);
        let tail = split_from(s, i + 1, c);
        assert(rest.take(i - from) =~= head@);
        assert(rest.skip(i - from + 1) =~= s@.skip(i + 1));
        let mut r = vec![head];
        let mut t = tail;
        r.append(&mut t);
        assert(r@.map_values(|v: Vec<char>| v@) =~= seq![head@] + tail@.map_values(
            |v: Vec<char>| v@,
        ));
        r
    }
}

/// `str::split(c)`.
pub fn split_char(s: &[char], c: char) -> (r: Vec<Vec<char>>)
    ensures
        r@.map_values(|v: Vec<char>| v@) == split(s@, c),
{
    assert(s@.skip(0) =~= s@);
    split_from(s, 0, c)
}

/// Lengths of split pieces are bounded by the input.
pub proof fn lemma_split_len(s: Seq<char>, c: char)
    ensures
        split(s, c).len() >= 1,
        split(s, c).len() <= s.len() + 1,
        forall|k: int| 0 <= k < split(s, c).len() ==> split(s, c)[k].len() <= s.len(),
    decreases s.len(),
{
    lemma_find_single(s, c);
    if let Some(i) = find(s, seq![c]) {
        lemma_split_len(s.skip(i + 1), c);
        let t = split(s.skip(i + 1), c);
        assert forall|k: int| 0 <= k < split(s, c).len() implies split(s, c)[k].len()
            <= s.len() by {
            if k > 0 {
                assert(split(s, c)[k] == t[k - 1]);
            }
        }
    }
}

// ============================================================
// Replacing and lines
// ============================================================

/// `str::replace(pat, rep)` for a nonempty pattern.
pub open spec fn replace(s: Seq<char>, pat: Seq<char>, rep: Seq<char>) -> Seq<char>
    recommends
        pat.len() > 0,
    decreases s.len(),
{
    if pat.len() == 0 {
        s
    } else {
        match find(s, pat) {
            None => s,
            Some(i) => if 0 <= i && i + pat.len() <= s.len() {
                s.take(i) + rep + replace(s.skip(i + pat.len()), pat, rep)
            } else {
                s
            },
        }
    }
}

fn replace_from(s: &[char], from: usize, pat: &[char], rep: &[char], out: &mut Vec<char>)
    requires
        from <= s@.len(),
        pat@.len() > 0,
    ensures
        final(out)@ == old(out)@ + replace(s@.skip(from as int), pat@, rep@),
    decreases s@.len() - from,
{
    let rest = Ghost(s@.skip(from as int));
    proof {
        lemma_find_facts(rest@, pat@);
    }
    let f = find_at(s, pat, from);
    proof {
        lemma_find_from_facts(s@, pat@, from as nat);
    }
    match f {
        None => {
            proof {
                if let Some(k) = find(rest@, pat@) {
                    assert(rest@.subrange(k, k + pat@.len()) =~= s@.subrange(
                        from + k,
                        from + k + pat@.len(),
                    ));
                    assert(occurs_at(s@, pat@, from + k));
                }
            }
            let t = copy_range(s, from, s.len());
            let mut tt = t;
            assert(tt@ =~= rest@);
            out.append(&mut tt);
        },
        Some(k) => {
            assert(occurs_at(s@, pat@, k as int));
            proof {
                assert(s@.subrange(k as int, k + pat@.len()) =~= rest@.subrange(
                    k - from,
                    k - from + pat@.len(),
                ));
                assert(occurs_at(rest@, pat@, k - from));
                if let Some(k2) = find(rest@, pat@) {
                    if k2 < k - from {
                        assert(rest@.subrange(k2, k2 + pat@.len()) =~= s@.subrange(
                            from + k2,
                            from + k2 + pat@.len(),
                        ));
                        assert(occurs_at(s@, pat@, from + k2));
                    }
                }
            }
            let head = copy_range(s, from, k);
            let mut h = head;
            out.append(&mut h);
            let mut i: usize = 0;
            let ghost before = out@;
            while i < rep.len()
                invariant
                    i <= rep@.len(),
                    out@ == before + rep@.take(i as int),
                decreases rep.len() - i,
            {
                out.push(rep[i]);
                assert(rep@.take(i as int).push(rep@[i as int]) =~= rep@.take(i + 1));
                i += 1;
            }
            assert(rep@.take(rep@.len() as int) =~= rep@);
            assert(rest@.take(k - from) =~= s@.subrange(from as int, k as int));
            assert(rest@.skip(k - from + pat@.len()) =~= s@.skip(k + pat@.len()));
            let n = s.len();
            assert(k + pat@.len() <= n);
            replace_from(s, k + pat.len(), pat, rep, out);
        },
    }
}

/// `str::replace(pat, rep)` for a nonempty pattern.
pub fn replace_chars(s: &[char], pat: &[char], rep: &[char]) -> (r: Vec<char>)
    requires
        pat@.len() > 0,
    ensures
        r@ == replace(s@, pat@, rep@),
{
    let mut out: Vec<char> = Vec::new();
    replace_from(s, 0, pat, rep, &mut out);
    assert(s@.skip(0) =~= s@);
    out
}

/// One trailing `'\r'` removed, if present.
pub open spec fn strip_cr(s: Seq<char>) -> Seq<char> {
    if s.len() > 0 && s.last() == '\r' {
        s.drop_last()
    } else {
        s
    }
}

/// `str::lines`: pieces between `'\n'`, a trailing `'\r'` dropped from each
/// line that ended in `'\n'`, and no empty line after a final `'\n'`.
pub open spec fn lines(s: Seq<char>) -> Seq<Seq<char>>
    decreases s.len(),
{
    if s.len() == 0 {
        seq![]
    } else {
        match find(s, seq!['\n']) {
            None => seq![s],
            Some(i) => if 0 <= i < s.len() {
                seq![strip_cr(s.take(i))] + lines(s.skip(i + 1))
            } else {
                seq![s]
            },
        }
    }
}

fn lines_from(s: &[char], from: usize) -> (r: Vec<Vec<char>>)
    requires
        from <= s@.len(),
    ensures
        r@.map_values(|v: Vec<char>| v@) == lines(s@.skip(from as int)),
    decreases s@.len() - from,
{
    let rest = Ghost(s@.skip(from as int));
    if from == s.len() {
        let r: Vec<Vec<char>> = Vec::new();
        assert(r@.map_values(|v: Vec<char>| v@) =~= seq![]);
        return r;
    }
    proof {
        lemma_find_single(rest@, '\n');
    }
    let mut i = from;
    while i < s.len() && s[i] != '\n'
        invariant
            from <= i <= s@.len(),
            forall|j: int| from <= j < i ==> s@[j] != '\n',
        decreases s.len() - i,
    {
        i += 1;
    }
    if i == s.len() {
        proof {
            if let Some(k) = find(rest@, seq!['\n']) {
                assert(rest@[k] == s@[from + k]);
            }
        }
        let v = copy_range(s, from, s.len());
        let r = vec![v];
        assert(r@.map_values(|v: Vec<char>| v@) =~= seq![rest@]);
        r
    } else {
        proof {
            assert(rest@[i - from] == '\n');
            if let Some(k) = find(rest@, seq!['\n']) {
                assert(rest@[k] == s@[from + k]);
            }
        }
        let end = if i > from && s[i - 1] == '\r' {
            i - 1
        } else {
            i
        };
        let head = copy_range(s, from, end);
        assert(strip_cr(rest@.take(i - from)) =~= head@);
        let tail = lines_from(s, i + 1);
        assert(rest@.skip(i - from + 1) =~= s@.skip(i + 1));
        let mut r = vec![head];
        let mut t = tail;
        r.append(&mut t);
        assert(r@.map_values(|v: Vec<char>| v@) =~= seq![head@] + tail@.map_values(
            |v: Vec<char>| v@,
        ));
        r
    }
}

/// `str::lines`.
pub fn lines_of(s: &[char]) -> (r: Vec<Vec<char>>)
    ensures
        r@.map_values(|v: Vec<char>| v@) == lines(s@),
{
    assert(s@.skip(0) =~= s@);
    lines_from(s, 0)
}


// ============================================================
// Whitespace-separated words
// ============================================================

/// The first position `>= i` that does not hold whitespace (or `s.len()`).
pub open spec fn skip_ws(s: Seq<char>, i: nat) -> nat
    decreases s.len() - i,
{
    if i >= s.len() {
        i
    } else if is_ws(s[i as int]) {
        skip_ws(s, i + 1)
    } else {
        i
    }
}

/// The first position `>= i` that holds whitespace (or `s.len()`).
pub open spec fn word_end(s: Seq<char>, i: nat) -> nat
    decreases s.len() - i,
{
    if i >= s.len() {
        i
    } else if is_ws(s[i as int]) {
        i
    } else {
        word_end(s, i + 1)
    }
}

/// `str::split_whitespace` applied to `s[i..]`.
pub open spec fn words_from(s: Seq<char>, i: nat) -> Seq<Seq<char>>
    decreases s.len() - i,
{
    let a = skip_ws(s, i);
    if a >= s.len() {
        seq![]
    } else {
        let b = word_end(s, a);
        if b <= i || b > s.len() {
            seq![]
        } else {
            seq![s.subrange(a as int, b as int)] + words_from(s, b)
        }
    }
}

/// `str::split_whitespace`: the maximal runs of non-whitespace characters.
pub open spec fn words(s: Seq<char>) -> Seq<Seq<char>> {
    words_from(s, 0)
}

proof fn lemma_skip_ws(s: Seq<char>, i: nat)
    ensures
        i <= skip_ws(s, i),
        i <= s.len() ==> skip_ws(s, i) <= s.len(),
        i > s.len() ==> skip_ws(s, i) == i,
        forall|j: int| i <= j < skip_ws(s, i) ==> is_ws(s[j]),
        skip_ws(s, i) < s.len() ==> !is_ws(s[skip_ws(s, i) as int]),
    decreases s.len() - i,
{
    if i < s.len() && is_ws(s[i as int]) {
        lemma_skip_ws(s, i + 1);
    }
}

proof fn lemma_word_end(s: Seq<char>, i: nat)
    ensures
        i <= word_end(s, i),
        i <= s.len() ==> word_end(s, i) <= s.len(),
        forall|j: int| i <= j < word_end(s, i) ==> !is_ws(s[j]),
        word_end(s, i) < s.len() ==> is_ws(s[word_end(s, i) as int]),
    decreases s.len() - i,
{
    if i < s.len() && !is_ws(s[i as int]) {
        lemma_word_end(s, i + 1);
    }
}

/// `str::split_whitespace`.
pub fn words_of(s: &[char]) -> (r: Vec<Vec<char>>)
    ensures
        r@.map_values(|v: Vec<char>| v@) == words(s@),
{
    let mut r: Vec<Vec<char>> = Vec::new();
    let mut i: usize = 0;
    let n = s.len();
    while i < n
        invariant
            i <= n == s@.len(),
            words(s@) == r@.map_values(|v: Vec<char>| v@) + words_from(s@, i as nat),
        decreases n - i,
    {
        let ghost i0 = i as nat;
        while i < n && is_whitespace(s[i])
            invariant
                i0 <= i <= n == s@.len(),
                skip_ws(s@, i0) == skip_ws(s@, i as nat),
            decreases n - i,
        {
            i += 1;
        }
        assert(skip_ws(s@, i0) == i as nat);
        if i == n {
            assert(words_from(s@, i0) =~= seq![]);
            assert(r@.map_values(|v: Vec<char>| v@) + words_from(s@, i as nat) =~= r@.map_values(
                |v: Vec<char>| v@,
            ) + words_from(s@, i0)) by {
                assert(words_from(s@, i as nat) =~= seq![]);
            }
        } else {
            let a = i;
            while i < n && !is_whitespace(s[i])
                invariant
                    a <= i <= n == s@.len(),
                    word_end(s@, a as nat) == word_end(s@, i as nat),
                decreases n - i,
            {
                i += 1;
            }
            assert(word_end(s@, a as nat) == i as nat);
            let w = copy_range(s, a, i);
            let ghost before = r@.map_values(|v: Vec<char>| v@);
            r.push(w);
            assert(r@.map_values(|v: Vec<char>| v@) =~= before.push(w@));
            assert(words_from(s@, i0) == seq![w@] + words_from(s@, i as nat));
            assert(before + words_from(s@, i0) =~= before.push(w@) + words_from(s@, i as nat));
        }
    }
    assert(words_from(s@, i as nat) =~= seq![]);
    assert(r@.map_values(|v: Vec<char>| v@) + words_from(s@, i as nat) =~= r@.map_values(
        |v: Vec<char>| v@,
    ));
    r
}

// ============================================================
// Integer parsing (`str::parse` for the primitive integer types)
// ============================================================

pub open spec fn all_digits(s: Seq<char>) -> bool {
    forall|i: int| 0 <= i < s.len() ==> is_digit(s[i])
}

/// The value of a run of decimal digits.
pub open spec fn digits_value(s: Seq<char>) -> nat
    decreases s.len(),
{
    if s.len() == 0 {
        0
    } else {
        digits_value(s.drop_last()) * 10 + ((s.last() as u32) - ('0' as u32)) as nat
    }
}

/// `str::parse` for an unsigned type whose largest value is `max`: an
/// optional `'+'`, then one or more ASCII digits whose value is at most `max`.
pub open spec fn parse_unsigned(s: Seq<char>, max: nat) -> Option<nat> {
    let body = if s.len() > 0 && s[0] == '+' {
        s.drop_first()
    } else {
        s
    };
    if body.len() > 0 && all_digits(body) && digits_value(body) <= max {
        Some(digits_value(body))
    } else {
        None
    }
}

/// `str::parse` for a signed type with range `-(max + 1) ..= max`: an
/// optional sign, then one or more ASCII digits whose value is in range.
pub open spec fn parse_signed(s: Seq<char>, max: nat) -> Option<int> {
    if s.len() > 0 && s[0] == '-' {
        let body = s.drop_first();
        if body.len() > 0 && all_digits(body) && digits_value(body) <= max + 1 {
            Some(-(digits_value(body) as int))
        } else {
            None
        }
    } else {
        match parse_unsigned(s, max) {
            Some(v) => Some(v as int),
            None => None,
        }
    }
}

proof fn lemma_digits_value_take(s: Seq<char>, i: int)
    requires
        0 <= i < s.len(),
    ensures
        digits_value(s.take(i + 1)) == digits_value(s.take(i)) * 10 + ((s[i] as u32) - (
        '0' as u32)) as nat,
{
    assert(s.take(i + 1).drop_last() =~= s.take(i));
}

proof fn lemma_digits_value_monotone(s: Seq<char>, i: int)
    requires
        0 <= i <= s.len(),
        all_digits(s),
    ensures
        digits_value(s.take(i)) <= digits_value(s),
    decreases s.len() - i,
{
    if i < s.len() {
        lemma_digits_value_monotone(s, i + 1);
        lemma_digits_value_take(s, i);
    } else {
        assert(s.take(i) =~= s);
    }
}

/// Value of the digit run `s[from..to]` if it is all digits, nonempty and at
/// most `max`.
fn digits_bounded(s: &[char], from: usize, to: usize, max: u64) -> (r: Option<u64>)
    requires
        from <= to <= s@.len(),
    ensures
        ({
            let t = s@.subrange(from as int, to as int);
            &&& r matches Some(v) ==> t.len() > 0 && all_digits(t) && v == digits_value(t) && v
                <= max
            &&& r is None ==> !(t.len() > 0 && all_digits(t) && digits_value(t) <= max)
        }),
{
    let ghost t = s@.subrange(from as int, to as int);
    if from == to {
        return None;
    }
    let mut v: u64 = 0;
    let mut i = from;
    while i < to
        invariant
            from <= i <= to <= s@.len(),
            t == s@.subrange(from as int, to as int),
            all_digits(t.take(i - from)),
            v == digits_value(t.take(i - from)),
            v <= max,
        decreases to - i,
    {
        let c = s[i];
        if !('0' <= c && c <= '9') {
            proof {
                assert(t[i - from] == c);
            }
            return None;
        }
        let d = (c as u32 - '0' as u32) as u64;
        proof {
            lemma_digits_value_take(t, i - from);
        }
        if d > max || v > (max - d) / 10 {
            proof {
                assert(all_digits(t.take(i - from + 1)));
                if all_digits(t) {
                    lemma_digits_value_monotone(t, i - from + 1);
                }
                if d <= max {
                    assert(v * 10 + d > max) by (nonlinear_arith)
                        requires
                            v > (max - d) / 10,
                            d <= max,
                    ;
                }
            }
            return None;
        }
        assert(v * 10 + d <= max) by (nonlinear_arith)
            requires
                v <= (max - d) / 10,
                d <= max,
        ;
        v = v * 10 + d;
        i += 1;
        proof {
            let k = i - from;
            let tk = t.take(k);
            assert forall|j: int| 0 <= j < k implies is_digit(#[trigger] tk[j]) by {
                if j < k - 1 {
                    assert(tk[j] == t.take(k - 1)[j]);
                } else {
                    assert(tk[j] == t[k - 1]);
                }
            }
        }
    }
    assert(t.take(to - from) =~= t);
    Some(v)
}

/// `str::parse::<uN>()` where `uN::MAX == max`.
pub fn parse_unsigned_chars(s: &[char], max: u64) -> (r: Option<u64>)
    ensures
        r matches Some(v) ==> parse_unsigned(s@, max as nat) == Some(v as nat),
        r is None ==> parse_unsigned(s@, max as nat) is None,
{
    let start: usize = if s.len() > 0 && s[0] == '+' {
        1
    } else {
        0
    };
    assert(s@.subrange(start as int, s@.len() as int) =~= (if s@.len() > 0 && s@[0] == '+' {
        s@.drop_first()
    } else {
        s@
    }));
    digits_bounded(s, start, s.len(), max)
}

/// `str::parse::<iN>()` where `iN::MAX == max`.
pub fn parse_signed_chars(s: &[char], max: u64) -> (r: Option<i64>)
    requires
        max < i64::MAX,
    ensures
        r matches Some(v) ==> parse_signed(s@, max as nat) == Some(v as int),
        r is None ==> parse_signed(s@, max as nat) is None,
{
    if s.len() > 0 && s[0] == '-' {
        assert(s@.subrange(1, s@.len() as int) =~= s@.drop_first());
        match digits_bounded(s, 1, s.len(), max + 1) {
            Some(v) => Some(-(v as i64)),
            None => None,
        }
    } else {
        match parse_unsigned_chars(s, max) {
            Some(v) => Some(v as i64),
            None => None,
        }
    }
}

pub fn parse_u32(s: &[char]) -> (r: Option<u32>)
    ensures
        r matches Some(v) ==> parse_unsigned(s@, u32::MAX as nat) == Some(v as nat),
        r is None ==> parse_unsigned(s@, u32::MAX as nat) is None,
{
    match parse_unsigned_chars(s, u32::MAX as u64) {
        Some(v) => Some(v as u32),
        None => None,
    }
}

pub fn parse_u64(s: &[char]) -> (r: Option<u64>)
    ensures
        r matches Some(v) ==> parse_unsigned(s@, u64::MAX as nat) == Some(v as nat),
        r is None ==> parse_unsigned(s@, u64::MAX as nat) is None,
{
    parse_unsigned_chars(s, u64::MAX)
}

pub fn parse_i32(s: &[char]) -> (r: Option<i32>)
    ensures
        r matches Some(v) ==> parse_signed(s@, i32::MAX as nat) == Some(v as int),
        r is None ==> parse_signed(s@, i32::MAX as nat) is None,
{
    match parse_signed_chars(s, i32::MAX as u64) {
        Some(v) => Some(v as i32),
        None => None,
    }
}

pub fn parse_i64(s: &[char]) -> (r: Option<i64>)
    ensures
        r matches Some(v) ==> parse_signed(s@, i64::MAX as nat) == Some(v as int),
        r is None ==> parse_signed(s@, i64::MAX as nat) is None,
{
    // Values down to -(i64::MAX + 1) need one more bit than the generic
    // helper carries, so the negative side is handled here.
    if s.len() > 0 && s[0] == '-' {
        assert(s@.subrange(1, s@.len() as int) =~= s@.drop_first());
        match digits_bounded(s, 1, s.len(), u64::MAX) {
            Some(v) => {
                if v <= i64::MAX as u64 {
                    Some(-(v as i64))
                } else if v == i64::MAX as u64 + 1 {
                    Some(i64::MIN)
                } else {
                    None
                }
            },
            None => {
                proof {
                    let body = s@.drop_first();
                    if body.len() > 0 && all_digits(body) && digits_value(body) <= i64::MAX + 1 {
                        assert(digits_value(body) <= u64::MAX);
                    }
                }
                None
            },
        }
    } else {
        match parse_unsigned_chars(s, i64::MAX as u64) {
            Some(v) => Some(v as i64),
            None => None,
        }
    }
}

} // verus!
