//! Character sequences: the vocabulary that the parser, the interpreter and
//! the renderers share. Every executable function here works on `Vec<char>`
//! and is specified by a spec function on `Seq<char>`.

use vstd::prelude::*;

verus! {

// ---------------------------------------------------------------------------
// Character classes
// ---------------------------------------------------------------------------

/// The characters with the Unicode property `White_Space`.
pub open spec fn is_whitespace(c: char) -> bool {
    ('\u{9}' <= c && c <= '\u{d}') || c == ' ' || c == '\u{85}' || c == '\u{a0}' || c == '\u{1680}'
        || ('\u{2000}' <= c && c <= '\u{200a}') || c == '\u{2028}' || c == '\u{2029}' || c
        == '\u{202f}' || c == '\u{205f}' || c == '\u{3000}'
}

/// Whether a character is whitespace.
pub fn whitespace(c: char) -> (r: bool)
    ensures
        r == is_whitespace(c),
{
    ('\u{9}' <= c && c <= '\u{d}') || c == ' ' || c == '\u{85}' || c == '\u{a0}' || c == '\u{1680}'
        || ('\u{2000}' <= c && c <= '\u{200a}') || c == '\u{2028}' || c == '\u{2029}' || c
        == '\u{202f}' || c == '\u{205f}' || c == '\u{3000}'
}

/// An ASCII digit.
pub open spec fn is_digit(c: char) -> bool {
    '0' <= c && c <= '9'
}

/// Whether a character is an ASCII digit.
pub fn digit(c: char) -> (r: bool)
    ensures
        r == is_digit(c),
{
    '0' <= c && c <= '9'
}

/// An ASCII letter, an ASCII digit or an underscore.
pub open spec fn is_word_char(c: char) -> bool {
    ('a' <= c && c <= 'z') || ('A' <= c && c <= 'Z') || is_digit(c) || c == '_'
}

/// Whether a character is an ASCII letter, an ASCII digit or an underscore.
pub fn word_char(c: char) -> (r: bool)
    ensures
        r == is_word_char(c),
{
    ('a' <= c && c <= 'z') || ('A' <= c && c <= 'Z') || digit(c) || c == '_'
}

/// An ASCII letter or an ASCII digit.
pub open spec fn is_alphanumeric(c: char) -> bool {
    ('a' <= c && c <= 'z') || ('A' <= c && c <= 'Z') || is_digit(c)
}

/// Whether a character is an ASCII letter or an ASCII digit.
pub fn alphanumeric(c: char) -> (r: bool)
    ensures
        r == is_alphanumeric(c),
{
    ('a' <= c && c <= 'z') || ('A' <= c && c <= 'Z') || digit(c)
}

// ---------------------------------------------------------------------------
// Conversions
// ---------------------------------------------------------------------------

/// The characters of a string slice, in order.
pub fn chars_of(s: &str) -> (r: Vec<char>)
    ensures
        r@ == s@,
{
    let mut out: Vec<char> = Vec::new();
    for c in it: s.chars()
        invariant
            out@ == it.seq().take(it.index() as int),
    {
        out.push(c);
    }
    out
}

/// `String::from_iter` on a vector of characters: the string made of exactly
/// those characters, in order.
#[verifier::external_body]
pub(crate) fn collect_string(chars: Vec<char>) -> (r: String)
    ensures
        r@ == chars@,
{
    String::from_iter(chars)
}

/// The string made of the characters of `chars`.
pub fn string_of(chars: &Vec<char>) -> (r: String)
    ensures
        r@ == chars@,
{
    collect_string(copy_chars(chars))
}

/// A copy of the characters.
pub fn copy_chars(v: &Vec<char>) -> (r: Vec<char>)
    ensures
        r@ == v@,
{
    subrange(v, 0, v.len())
}

/// The characters of `v` from index `from` up to, not including, `to`.
pub fn subrange(v: &Vec<char>, from: usize, to: usize) -> (r: Vec<char>)
    requires
        from <= to <= v.len(),
    ensures
        r@ == v@.subrange(from as int, to as int),
{
    let mut out: Vec<char> = Vec::new();
    let mut i: usize = from;
    while i < to
        invariant
            from <= i <= to <= v.len(),
            out@ == v@.subrange(from as int, i as int),
        decreases to - i,
    {
        out.push(v[i]);
        i += 1;
    }
    out
}

/// Appends the characters of `src` to `dst`.
pub fn append(dst: &mut Vec<char>, src: &Vec<char>)
    ensures
        final(dst)@ == old(dst)@ + src@,
{
    let ghost before = dst@;
    let mut i: usize = 0;
    while i < src.len()
        invariant
            i <= src.len(),
            dst@ == before + src@.take(i as int),
        decreases src.len() - i,
    {
        dst.push(src[i]);
        i += 1;
    }
    assert(src@.take(src.len() as int) == src@);
}

/// Appends the characters of a string slice to `dst`.
pub fn append_str(dst: &mut Vec<char>, src: &str)
    ensures
        final(dst)@ == old(dst)@ + src@,
{
    let chars = chars_of(src);
    append(dst, &chars);
}

/// Whether two character vectors hold the same characters.
pub fn same(a: &Vec<char>, b: &Vec<char>) -> (r: bool)
    ensures
        r == (a@ == b@),
{
    if a.len() != b.len() {
        return false;
    }
    let mut i: usize = 0;
    while i < a.len()
        invariant
            i <= a.len(),
            a.len() == b.len(),
            a@.take(i as int) == b@.take(i as int),
        decreases a.len() - i,
    {
        if a[i] != b[i] {
            return false;
        }
        assert(a@.take(i + 1) == a@.take(i as int).push(a@[i as int]));
        assert(b@.take(i + 1) == b@.take(i as int).push(b@[i as int]));
        i += 1;
    }
    assert(a@.take(a.len() as int) == a@);
    assert(b@.take(b.len() as int) == b@);
    true
}

/// Whether a character vector spells the given string slice.
pub fn same_str(a: &Vec<char>, b: &str) -> (r: bool)
    ensures
        r == (a@ == b@),
{
    let chars = chars_of(b);
    same(a, &chars)
}

// ---------------------------------------------------------------------------
// Lexicographic order
// ---------------------------------------------------------------------------

/// Strict lexicographic order by code point, from index `i` on, given that
/// the two sequences agree before `i`.
pub open spec fn precedes_from(a: Seq<char>, b: Seq<char>, i: int) -> bool
    decreases a.len() - i,
{
    if i < 0 {
        false
    } else if i >= b.len() {
        false
    } else if i >= a.len() {
        true
    } else if a[i] != b[i] {
        a[i] < b[i]
    } else {
        precedes_from(a, b, i + 1)
    }
}

/// Strict lexicographic order by code point. This is the order of `String`.
pub open spec fn precedes(a: Seq<char>, b: Seq<char>) -> bool {
    precedes_from(a, b, 0)
}

/// Whether `a` comes before `b` in the order of strings.
pub fn less(a: &Vec<char>, b: &Vec<char>) -> (r: bool)
    ensures
        r == precedes(a@, b@),
{
    let mut i: usize = 0;
    while i < a.len() && i < b.len()
        invariant
            i <= a.len(),
            i <= b.len(),
            precedes(a@, b@) == precedes_from(a@, b@, i as int),
        decreases a.len() - i,
    {
        if a[i] != b[i] {
            return a[i] < b[i];
        }
        i += 1;
    }
    i < b.len()
}

proof fn lemma_precedes_from_agree(a: Seq<char>, b: Seq<char>, i: int)
    requires
        0 <= i <= a.len(),
        precedes_from(a, b, i),
    ensures
        a.skip(i) != b.skip(i),
    decreases a.len() - i,
{
    if i >= a.len() {
        assert(a.skip(i).len() == 0);
        assert(b.skip(i).len() > 0);
    } else if a[i] != b[i] {
        assert(a.skip(i)[0] == a[i]);
        assert(b.skip(i)[0] == b[i]);
    } else {
        lemma_precedes_from_agree(a, b, i + 1);
        if a.skip(i) == b.skip(i) {
            assert(a.skip(i + 1) =~= a.skip(i).skip(1));
            assert(b.skip(i + 1) =~= b.skip(i).skip(1));
        }
    }
}

/// The order is irreflexive.
pub proof fn lemma_precedes_irreflexive(a: Seq<char>)
    ensures
        !precedes(a, a),
{
    if precedes(a, a) {
        lemma_precedes_from_agree(a, a, 0);
    }
}

proof fn lemma_precedes_from_transitive(a: Seq<char>, b: Seq<char>, c: Seq<char>, i: int)
    requires
        0 <= i,
        precedes_from(a, b, i),
        precedes_from(b, c, i),
    ensures
        precedes_from(a, c, i),
    decreases a.len() - i,
{
    if i < a.len() && a[i] == b[i] && b[i] == c[i] {
        lemma_precedes_from_transitive(a, b, c, i + 1);
    }
}

/// The order is transitive.
pub proof fn lemma_precedes_transitive(a: Seq<char>, b: Seq<char>, c: Seq<char>)
    requires
        precedes(a, b),
        precedes(b, c),
    ensures
        precedes(a, c),
{
    lemma_precedes_from_transitive(a, b, c, 0);
}

proof fn lemma_precedes_from_total(a: Seq<char>, b: Seq<char>, i: int)
    requires
        0 <= i <= a.len(),
        i <= b.len(),
        a.take(i) == b.take(i),
        !precedes_from(a, b, i),
        !precedes_from(b, a, i),
    ensures
        a == b,
    decreases a.len() - i,
{
    if i >= a.len() || i >= b.len() {
        assert(a.len() == b.len());
        assert(a.take(i) == a);
        assert(b.take(i) == b);
    } else {
        assert(a[i] == b[i]);
        assert(a.take(i + 1) =~= a.take(i).push(a[i]));
        assert(b.take(i + 1) =~= b.take(i).push(b[i]));
        lemma_precedes_from_total(a, b, i + 1);
    }
}

/// Two sequences of which neither precedes the other are equal.
pub proof fn lemma_precedes_total(a: Seq<char>, b: Seq<char>)
    requires
        !precedes(a, b),
        !precedes(b, a),
    ensures
        a == b,
{
    assert(a.take(0) =~= b.take(0));
    lemma_precedes_from_total(a, b, 0);
}

// ---------------------------------------------------------------------------
// Trimming
// ---------------------------------------------------------------------------

/// The first index at or after `i` that holds no whitespace, or the length.
pub open spec fn skip_whitespace(s: Seq<char>, i: int) -> int
    decreases s.len() - i,
{
    if 0 <= i < s.len() && is_whitespace(s[i]) {
        skip_whitespace(s, i + 1)
    } else {
        i
    }
}

/// The end of the last non-whitespace character before `j`, or zero.
pub open spec fn back_whitespace(s: Seq<char>, j: int) -> int
    decreases j,
{
    if 0 < j <= s.len() && is_whitespace(s[j - 1]) {
        back_whitespace(s, j - 1)
    } else {
        j
    }
}

/// Where `skip_whitespace` stops: behind whitespace alone, and at no
/// whitespace.
pub proof fn lemma_skip_whitespace_bounds(s: Seq<char>, i: int)
    requires
        0 <= i <= s.len(),
    ensures
        i <= skip_whitespace(s, i) <= s.len(),
        skip_whitespace(s, i) < s.len() ==> !is_whitespace(s[skip_whitespace(s, i)]),
        forall|k: int| i <= k < skip_whitespace(s, i) ==> is_whitespace(#[trigger] s[k]),
    decreases s.len() - i,
{
    if i < s.len() && is_whitespace(s[i]) {
        lemma_skip_whitespace_bounds(s, i + 1);
    }
}

/// Where `back_whitespace` stops: before whitespace alone, and behind no
/// whitespace.
pub proof fn lemma_back_whitespace_bounds(s: Seq<char>, j: int)
    requires
        0 <= j <= s.len(),
    ensures
        0 <= back_whitespace(s, j) <= j,
        back_whitespace(s, j) > 0 ==> !is_whitespace(s[back_whitespace(s, j) - 1]),
        forall|k: int| back_whitespace(s, j) <= k < j ==> is_whitespace(#[trigger] s[k]),
    decreases j,
{
    if 0 < j && is_whitespace(s[j - 1]) {
        lemma_back_whitespace_bounds(s, j - 1);
    }
}

/// `s` without its leading whitespace.
pub open spec fn trimmed_start(s: Seq<char>) -> Seq<char> {
    s.skip(skip_whitespace(s, 0))
}

/// `s` without its trailing whitespace.
pub open spec fn trimmed_end(s: Seq<char>) -> Seq<char> {
    s.take(back_whitespace(s, s.len() as int))
}

/// `s` without its leading and trailing whitespace.
pub open spec fn trimmed(s: Seq<char>) -> Seq<char> {
    trimmed_end(trimmed_start(s))
}

/// The characters without the whitespace at their start.
pub fn trim_start(v: &Vec<char>) -> (r: Vec<char>)
    ensures
        r@ == trimmed_start(v@),
{
    let mut i: usize = 0;
    while i < v.len() && whitespace(v[i])
        invariant
            i <= v.len(),
            skip_whitespace(v@, 0) == skip_whitespace(v@, i as int),
        decreases v.len() - i,
    {
        i += 1;
    }
    subrange(v, i, v.len())
}

/// The characters without the whitespace at their end.
pub fn trim_end(v: &Vec<char>) -> (r: Vec<char>)
    ensures
        r@ == trimmed_end(v@),
{
    let mut j: usize = v.len();
    while j > 0 && whitespace(v[j - 1])
        invariant
            j <= v.len(),
            back_whitespace(v@, v.len() as int) == back_whitespace(v@, j as int),
        decreases j,
    {
        j -= 1;
    }
    subrange(v, 0, j)
}

/// The characters without the whitespace at their start and at their end.
pub fn trim(v: &Vec<char>) -> (r: Vec<char>)
    ensures
        r@ == trimmed(v@),
{
    let start = trim_start(v);
    trim_end(&start)
}

/// Trimming makes a text no longer.
pub proof fn lemma_trimmed_len(s: Seq<char>)
    ensures
        trimmed_start(s).len() <= s.len(),
        trimmed_end(s).len() <= s.len(),
        trimmed(s).len() <= s.len(),
{
    lemma_skip_whitespace_bounds(s, 0);
    lemma_back_whitespace_bounds(s, s.len() as int);
    let t = trimmed_start(s);
    lemma_back_whitespace_bounds(t, t.len() as int);
}

/// `s` without the run of `c` at its end.
pub open spec fn back_char(s: Seq<char>, c: char, j: int) -> int
    decreases j,
{
    if 0 < j <= s.len() && s[j - 1] == c {
        back_char(s, c, j - 1)
    } else {
        j
    }
}

/// `s` without the run of `c` at its end.
pub open spec fn without_trailing(s: Seq<char>, c: char) -> Seq<char> {
    s.take(back_char(s, c, s.len() as int))
}

/// The characters without the run of `c` at their end.
pub fn trim_end_matches(v: &Vec<char>, c: char) -> (r: Vec<char>)
    ensures
        r@ == without_trailing(v@, c),
{
    let mut j: usize = v.len();
    while j > 0 && v[j - 1] == c
        invariant
            j <= v.len(),
            back_char(v@, c, v.len() as int) == back_char(v@, c, j as int),
        decreases j,
    {
        j -= 1;
    }
    subrange(v, 0, j)
}

// ---------------------------------------------------------------------------
// Prefixes, suffixes, occurrences
// ---------------------------------------------------------------------------

/// Whether `pattern` stands in `s` at index `i`.
pub open spec fn matches_at(s: Seq<char>, pattern: Seq<char>, i: int) -> bool {
    0 <= i && i + pattern.len() <= s.len() && s.subrange(i, i + pattern.len()) == pattern
}

/// Whether `s` begins with `prefix`.
pub open spec fn has_prefix(s: Seq<char>, prefix: Seq<char>) -> bool {
    matches_at(s, prefix, 0)
}

/// Whether `s` ends with `suffix`.
pub open spec fn has_suffix(s: Seq<char>, suffix: Seq<char>) -> bool {
    matches_at(s, suffix, s.len() - suffix.len())
}

/// Whether `pattern` stands in `v` at index `i`.
pub fn match_at(v: &Vec<char>, pattern: &Vec<char>, i: usize) -> (r: bool)
    ensures
        r == matches_at(v@, pattern@, i as int),
{
    if pattern.len() > v.len() || i > v.len() - pattern.len() {
        return false;
    }
    let mut k: usize = 0;
    while k < pattern.len()
        invariant
            k <= pattern.len(),
            i + pattern.len() <= v.len(),
            v@.subrange(i as int, i + k) == pattern@.take(k as int),
        decreases pattern.len() - k,
    {
        if v[i + k] != pattern[k] {
            assert(v@.subrange(i as int, i + pattern.len())[k as int] != pattern@[k as int]);
            return false;
        }
        assert(v@.subrange(i as int, i + k + 1) == v@.subrange(i as int, i + k).push(
            v@[i + k],
        ));
        assert(pattern@.take(k + 1) == pattern@.take(k as int).push(pattern@[k as int]));
        k += 1;
    }
    assert(pattern@.take(pattern.len() as int) == pattern@);
    true
}

/// Whether the characters begin with `prefix`.
pub fn starts_with(v: &Vec<char>, prefix: &str) -> (r: bool)
    ensures
        r == has_prefix(v@, prefix@),
{
    let p = chars_of(prefix);
    match_at(v, &p, 0)
}

/// Whether the characters end with `suffix`.
pub fn ends_with(v: &Vec<char>, suffix: &str) -> (r: bool)
    ensures
        r == has_suffix(v@, suffix@),
{
    let p = chars_of(suffix);
    if p.len() > v.len() {
        return false;
    }
    match_at(v, &p, v.len() - p.len())
}

/// The first index at or after `i` where `pattern` stands in `s`.
pub open spec fn index_of_from(s: Seq<char>, pattern: Seq<char>, i: int) -> Option<int>
    decreases s.len() - i,
{
    if i < 0 || i >= s.len() || i + pattern.len() > s.len() {
        None
    } else if matches_at(s, pattern, i) {
        Some(i)
    } else {
        index_of_from(s, pattern, i + 1)
    }
}

/// The first index where `pattern` stands in `s`.
pub open spec fn index_of(s: Seq<char>, pattern: Seq<char>) -> Option<int> {
    index_of_from(s, pattern, 0)
}

/// Whether `pattern` stands somewhere in `s`.
pub open spec fn occurs_in(pattern: Seq<char>, s: Seq<char>) -> bool {
    exists|i: int| matches_at(s, pattern, i)
}

/// What `index_of_from` finds is the first occurrence, and it finds one where
/// there is one.
pub proof fn lemma_index_of_from(s: Seq<char>, pattern: Seq<char>, i: int)
    requires
        0 <= i,
        pattern.len() > 0,
    ensures
        match index_of_from(s, pattern, i) {
            Some(k) => i <= k && matches_at(s, pattern, k) && forall|j: int|
                i <= j < k ==> !matches_at(s, pattern, j),
            None => forall|j: int| i <= j ==> !matches_at(s, pattern, j),
        },
    decreases s.len() - i,
{
    if i >= s.len() || i + pattern.len() > s.len() {
    } else if matches_at(s, pattern, i) {
    } else {
        lemma_index_of_from(s, pattern, i + 1);
    }
}

/// `index_of` finds an occurrence exactly when there is one.
pub proof fn lemma_index_of_occurs(s: Seq<char>, pattern: Seq<char>)
    requires
        pattern.len() > 0,
    ensures
        index_of(s, pattern) is Some <==> occurs_in(pattern, s),
{
    lemma_index_of_from(s, pattern, 0);
}

/// The first index at or after `from` where `pattern` stands.
pub fn find_from(v: &Vec<char>, pattern: &Vec<char>, from: usize) -> (r: Option<usize>)
    ensures
        match r {
            Some(k) => index_of_from(v@, pattern@, from as int) == Some(k as int),
            None => index_of_from(v@, pattern@, from as int) is None,
        },
{
    if pattern.len() > v.len() {
        return None;
    }
    let last: usize = v.len() - pattern.len();
    let mut i: usize = from;
    while i < v.len() && i <= last
        invariant
            from <= i,
            last == v.len() - pattern.len(),
            index_of_from(v@, pattern@, from as int) == index_of_from(v@, pattern@, i as int),
        decreases v.len() - i,
    {
        if match_at(v, pattern, i) {
            return Some(i);
        }
        i += 1;
    }
    None
}

/// The first index where `pattern` stands.
pub fn find(v: &Vec<char>, pattern: &str) -> (r: Option<usize>)
    ensures
        match r {
            Some(k) => index_of(v@, pattern@) == Some(k as int),
            None => index_of(v@, pattern@) is None,
        },
{
    let p = chars_of(pattern);
    find_from(v, &p, 0)
}

/// Whether `pattern` stands somewhere in `v`.
pub fn contains(v: &Vec<char>, pattern: &Vec<char>) -> (r: bool)
    ensures
        r == occurs_in(pattern@, v@),
{
    if pattern.len() == 0 {
        assert(v@.subrange(0, 0) =~= pattern@);
        assert(matches_at(v@, pattern@, 0));
        return true;
    }
    proof {
        lemma_index_of_occurs(v@, pattern@);
    }
    find_from(v, pattern, 0).is_some()
}

/// The first index at or after `i` that holds `c`.
pub open spec fn index_of_char_from(s: Seq<char>, c: char, i: int) -> Option<int>
    decreases s.len() - i,
{
    if i < 0 || i >= s.len() {
        None
    } else if s[i] == c {
        Some(i)
    } else {
        index_of_char_from(s, c, i + 1)
    }
}

/// The first index that holds `c`.
pub open spec fn index_of_char(s: Seq<char>, c: char) -> Option<int> {
    index_of_char_from(s, c, 0)
}

/// What `index_of_char_from` finds is the first index that holds the
/// character.
pub proof fn lemma_index_of_char_from(s: Seq<char>, c: char, i: int)
    requires
        0 <= i,
    ensures
        match index_of_char_from(s, c, i) {
            Some(k) => i <= k < s.len() && s[k] == c && forall|j: int| i <= j < k ==> s[j] != c,
            None => forall|j: int| i <= j < s.len() ==> s[j] != c,
        },
    decreases s.len() - i,
{
    if i < s.len() && s[i] != c {
        lemma_index_of_char_from(s, c, i + 1);
    }
}

/// The first index at or after `from` that holds `c`.
pub fn find_char_from(v: &Vec<char>, c: char, from: usize) -> (r: Option<usize>)
    ensures
        match r {
            Some(k) => index_of_char_from(v@, c, from as int) == Some(k as int) && from <= k
                < v.len() && v@[k as int] == c,
            None => index_of_char_from(v@, c, from as int) is None,
        },
{
    let mut i: usize = from;
    while i < v.len()
        invariant
            from <= i,
            index_of_char_from(v@, c, from as int) == index_of_char_from(v@, c, i as int),
        decreases v.len() - i,
    {
        if v[i] == c {
            return Some(i);
        }
        i += 1;
    }
    None
}

/// The first index that holds `c`.
pub fn find_char(v: &Vec<char>, c: char) -> (r: Option<usize>)
    ensures
        match r {
            Some(k) => index_of_char(v@, c) == Some(k as int) && k < v.len() && v@[k as int] == c,
            None => index_of_char(v@, c) is None,
        },
{
    find_char_from(v, c, 0)
}

/// The first index at or after `i` that holds whitespace.
pub open spec fn next_whitespace(s: Seq<char>, i: int) -> int
    decreases s.len() - i,
{
    if 0 <= i < s.len() && !is_whitespace(s[i]) {
        next_whitespace(s, i + 1)
    } else {
        i
    }
}

/// Where `next_whitespace` stops: not before where it began, and behind it
/// where no whitespace stands there.
pub proof fn lemma_next_whitespace_bounds(s: Seq<char>, i: int)
    requires
        0 <= i <= s.len(),
    ensures
        i <= next_whitespace(s, i) <= s.len(),
        (i < s.len() && !is_whitespace(s[i])) ==> i < next_whitespace(s, i),
    decreases s.len() - i,
{
    if i < s.len() && !is_whitespace(s[i]) {
        lemma_next_whitespace_bounds(s, i + 1);
    }
}

/// The first index at or after `from` that holds whitespace.
pub fn find_whitespace(v: &Vec<char>, from: usize) -> (r: usize)
    requires
        from <= v.len(),
    ensures
        r == next_whitespace(v@, from as int),
        from <= r <= v.len(),
{
    let mut i: usize = from;
    while i < v.len() && !whitespace(v[i])
        invariant
            from <= i <= v.len(),
            next_whitespace(v@, from as int) == next_whitespace(v@, i as int),
        decreases v.len() - i,
    {
        i += 1;
    }
    i
}

/// The first index at or after `from` that holds no whitespace.
pub fn find_non_whitespace(v: &Vec<char>, from: usize) -> (r: usize)
    requires
        from <= v.len(),
    ensures
        r == skip_whitespace(v@, from as int),
        from <= r <= v.len(),
{
    let mut i: usize = from;
    while i < v.len() && whitespace(v[i])
        invariant
            from <= i <= v.len(),
            skip_whitespace(v@, from as int) == skip_whitespace(v@, i as int),
        decreases v.len() - i,
    {
        i += 1;
    }
    i
}

// ---------------------------------------------------------------------------
// Words and lines
// ---------------------------------------------------------------------------

/// The maximal runs of non-whitespace characters of `s` from index `i` on.
pub open spec fn words_from(s: Seq<char>, i: int) -> Seq<Seq<char>>
    decreases s.len() - i,
{
    let start = skip_whitespace(s, i);
    if 0 <= i <= start < s.len() {
        let end = next_whitespace(s, start);
        if start < end <= s.len() {
            seq![s.subrange(start, end)] + words_from(s, end)
        } else {
            Seq::empty()
        }
    } else {
        Seq::empty()
    }
}

/// The maximal runs of non-whitespace characters of `s`, in order.
pub open spec fn words(s: Seq<char>) -> Seq<Seq<char>> {
    words_from(s, 0)
}

/// The character sequences of a list of character vectors.
pub open spec fn views(v: Seq<Vec<char>>) -> Seq<Seq<char>> {
    Seq::new(v.len(), |i: int| v[i]@)
}

/// The maximal runs of non-whitespace characters, in order.
pub fn split_whitespace(v: &Vec<char>) -> (r: Vec<Vec<char>>)
    ensures
        views(r@) == words(v@),
{
    let mut out: Vec<Vec<char>> = Vec::new();
    let mut i: usize = 0;
    assert(views(out@) =~= Seq::empty());
    loop
        invariant
            i <= v.len(),
            words(v@) == views(out@) + words_from(v@, i as int),
        ensures
            views(out@) == words(v@),
        decreases v.len() - i,
    {
        let start = find_non_whitespace(v, i);
        if start >= v.len() {
            assert(words_from(v@, i as int) =~= Seq::empty());
            assert(views(out@) + Seq::<Seq<char>>::empty() =~= views(out@));
            break;
        }
        let end = find_whitespace(v, start);
        proof {
            lemma_next_whitespace_bounds(v@, start as int);
            lemma_skip_whitespace_bounds(v@, i as int);
        }
        let word = subrange(v, start, end);
        let ghost before = views(out@);
        out.push(word);
        assert(views(out@) =~= before.push(v@.subrange(start as int, end as int)));
        assert(before + (seq![v@.subrange(start as int, end as int)] + words_from(v@, end as int))
            =~= before.push(v@.subrange(start as int, end as int)) + words_from(v@, end as int));
        i = end;
    }
    out
}

/// `s` without one carriage return at its end.
pub open spec fn without_carriage_return(s: Seq<char>) -> Seq<char> {
    if s.len() > 0 && s.last() == '\r' {
        s.drop_last()
    } else {
        s
    }
}

/// The lines of `s` from index `i` on: the text is cut at each line feed, a
/// carriage return before a line feed is dropped, and what follows the last
/// line feed is a line as it stands, unless it is empty.
pub open spec fn lines_from(s: Seq<char>, i: int) -> Seq<Seq<char>>
    decreases s.len() - i,
{
    if i < 0 || i >= s.len() {
        Seq::empty()
    } else {
        match index_of_char_from(s, '\n', i) {
            Some(k) => if i <= k < s.len() {
                seq![without_carriage_return(s.subrange(i, k))] + lines_from(s, k + 1)
            } else {
                Seq::empty()
            },
            None => seq![s.subrange(i, s.len() as int)],
        }
    }
}

/// The lines of `s`, as `str::lines` gives them.
pub open spec fn lines_of(s: Seq<char>) -> Seq<Seq<char>> {
    lines_from(s, 0)
}

/// The characters without one carriage return at their end.
pub fn strip_carriage_return(v: Vec<char>) -> (r: Vec<char>)
    ensures
        r@ == without_carriage_return(v@),
{
    let mut v = v;
    if v.len() > 0 && v[v.len() - 1] == '\r' {
        v.pop();
    }
    v
}

/// The lines of a text.
pub fn lines(v: &Vec<char>) -> (r: Vec<Vec<char>>)
    ensures
        views(r@) == lines_of(v@),
{
    let mut out: Vec<Vec<char>> = Vec::new();
    let mut i: usize = 0;
    assert(views(out@) =~= Seq::empty());
    while i < v.len()
        invariant
            i <= v.len(),
            lines_of(v@) == views(out@) + lines_from(v@, i as int),
        decreases v.len() - i,
    {
        let ghost before = views(out@);
        match find_char_from(v, '\n', i) {
            Some(k) => {
                let line = strip_carriage_return(subrange(v, i, k));
                out.push(line);
                assert(views(out@) =~= before.push(
                    without_carriage_return(v@.subrange(i as int, k as int)),
                ));
                assert(before + (seq![without_carriage_return(v@.subrange(i as int, k as int))]
                    + lines_from(v@, k + 1)) =~= before.push(
                    without_carriage_return(v@.subrange(i as int, k as int)),
                ) + lines_from(v@, k + 1));
                i = k + 1;
            },
            None => {
                let line = subrange(v, i, v.len());
                out.push(line);
                assert(views(out@) =~= before + seq![v@.subrange(i as int, v.len() as int)]);
                i = v.len();
                assert(lines_from(v@, v.len() as int) =~= Seq::empty());
                assert(views(out@) + Seq::<Seq<char>>::empty() =~= views(out@));
            },
        }
    }
    assert(lines_from(v@, i as int) =~= Seq::empty());
    assert(views(out@) + Seq::<Seq<char>>::empty() =~= views(out@));
    out
}

// ---------------------------------------------------------------------------
// Identifiers
// ---------------------------------------------------------------------------

/// Whether every character of `s` is a word character.
pub open spec fn all_word_chars(s: Seq<char>) -> bool {
    forall|i: int| 0 <= i < s.len() ==> is_word_char(#[trigger] s[i])
}

/// A non-empty run of ASCII letters, ASCII digits and underscores.
pub open spec fn is_identifier(s: Seq<char>) -> bool {
    s.len() > 0 && all_word_chars(s)
}

/// Whether every character is a word character.
pub fn only_word_chars(v: &Vec<char>) -> (r: bool)
    ensures
        r == all_word_chars(v@),
{
    let mut i: usize = 0;
    while i < v.len()
        invariant
            i <= v.len(),
            forall|k: int| 0 <= k < i ==> is_word_char(#[trigger] v@[k]),
        decreases v.len() - i,
    {
        if !word_char(v[i]) {
            return false;
        }
        i += 1;
    }
    true
}

/// Whether the characters are a non-empty run of word characters.
pub fn identifier(v: &Vec<char>) -> (r: bool)
    ensures
        r == is_identifier(v@),
{
    v.len() > 0 && only_word_chars(v)
}

// ---------------------------------------------------------------------------
// Numbers as text
// ---------------------------------------------------------------------------

/// The character of a decimal digit.
pub open spec fn digit_char(d: nat) -> char {
    if d == 0 {
        '0'
    } else if d == 1 {
        '1'
    } else if d == 2 {
        '2'
    } else if d == 3 {
        '3'
    } else if d == 4 {
        '4'
    } else if d == 5 {
        '5'
    } else if d == 6 {
        '6'
    } else if d == 7 {
        '7'
    } else if d == 8 {
        '8'
    } else {
        '9'
    }
}

/// The decimal notation of `n`, without leading zeros.
pub open spec fn decimal(n: nat) -> Seq<char>
    decreases n,
{
    if n < 10 {
        seq![digit_char(n)]
    } else {
        decimal(n / 10).push(digit_char(n % 10))
    }
}

/// The decimal notation of an integer, with `-` before a negative one.
pub open spec fn signed_decimal(n: int) -> Seq<char> {
    if n < 0 {
        seq!['-'] + decimal((-n) as nat)
    } else {
        decimal(n as nat)
    }
}

/// The character of a decimal digit.
pub fn digit_to_char(d: u64) -> (r: char)
    requires
        d < 10,
    ensures
        r == digit_char(d as nat),
{
    if d == 0 {
        '0'
    } else if d == 1 {
        '1'
    } else if d == 2 {
        '2'
    } else if d == 3 {
        '3'
    } else if d == 4 {
        '4'
    } else if d == 5 {
        '5'
    } else if d == 6 {
        '6'
    } else if d == 7 {
        '7'
    } else if d == 8 {
        '8'
    } else {
        '9'
    }
}

/// The decimal notation of `n`.
pub fn decimal_text(n: u64) -> (r: Vec<char>)
    ensures
        r@ == decimal(n as nat),
    decreases n,
{
    if n < 10 {
        let mut out: Vec<char> = Vec::new();
        out.push(digit_to_char(n));
        out
    } else {
        let mut out = decimal_text(n / 10);
        out.push(digit_to_char(n % 10));
        out
    }
}

/// The decimal notation of `n`, with `-` before a negative one.
pub fn signed_decimal_text(n: i64) -> (r: Vec<char>)
    ensures
        r@ == signed_decimal(n as int),
{
    if n < 0 {
        let magnitude: u64 = if n == i64::MIN {
            9223372036854775808u64
        } else {
            (-n) as u64
        };
        let mut out: Vec<char> = Vec::new();
        out.push('-');
        let digits = decimal_text(magnitude);
        append(&mut out, &digits);
        out
    } else {
        decimal_text(n as u64)
    }
}

// ---------------------------------------------------------------------------
// Replacing
// ---------------------------------------------------------------------------

/// `s` with every occurrence of `pattern`, found from the left and without
/// overlap, replaced by `with`, from index `i` on. `pattern` is not empty.
pub open spec fn replaced_from(s: Seq<char>, pattern: Seq<char>, with: Seq<char>, i: int) -> Seq<
    char,
>
    decreases s.len() - i,
{
    if i < 0 || i >= s.len() || pattern.len() == 0 {
        Seq::empty()
    } else if matches_at(s, pattern, i) {
        with + replaced_from(s, pattern, with, i + pattern.len())
    } else {
        seq![s[i]] + replaced_from(s, pattern, with, i + 1)
    }
}

/// `s` with every occurrence of the non-empty `pattern`, found from the left
/// and without overlap, replaced by `with`.
pub open spec fn replaced(s: Seq<char>, pattern: Seq<char>, with: Seq<char>) -> Seq<char> {
    if pattern.len() == 0 {
        s
    } else {
        replaced_from(s, pattern, with, 0)
    }
}

/// The characters with every occurrence of `pattern` replaced by `with`.
pub fn replace(v: &Vec<char>, pattern: &Vec<char>, with: &Vec<char>) -> (r: Vec<char>)
    ensures
        r@ == replaced(v@, pattern@, with@),
{
    if pattern.len() == 0 {
        return copy_chars(v);
    }
    let mut out: Vec<char> = Vec::new();
    let mut i: usize = 0;
    while i < v.len()
        invariant
            i <= v.len(),
            pattern.len() > 0,
            replaced(v@, pattern@, with@) == out@ + replaced_from(v@, pattern@, with@, i as int),
        decreases v.len() - i,
    {
        let ghost before = out@;
        if match_at(v, pattern, i) {
            append(&mut out, with);
            assert(before + (with@ + replaced_from(v@, pattern@, with@, i + pattern.len()))
                =~= (before + with@) + replaced_from(v@, pattern@, with@, i + pattern.len()));
            i += pattern.len();
        } else {
            out.push(v[i]);
            assert(before + (seq![v@[i as int]] + replaced_from(v@, pattern@, with@, i + 1))
                =~= before.push(v@[i as int]) + replaced_from(v@, pattern@, with@, i + 1));
            i += 1;
        }
    }
    assert(out@ + Seq::<char>::empty() =~= out@);
    out
}

} // verus!
