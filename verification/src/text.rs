//! Character-level text helpers with their specifications: conversion between
//! strings and character sequences, substring search, line splitting, trimming
//! and UTF-8 byte lengths.

use vstd::prelude::*;

verus! {

broadcast use vstd::string::group_string_axioms;

/// Appends one character to a string (`String::push`).
#[verifier::external_body]
pub(crate) fn push_char(s: &mut String, c: char)
    ensures
        final(s)@ == old(s)@.push(c),
{
    s.push(c);
}

/// The characters of a string slice, in order.
pub fn chars_of(s: &str) -> (v: Vec<char>)
    ensures
        v@ == s@,
{
    let mut v: Vec<char> = Vec::new();
    for c in it: s.chars()
        invariant
            v@ == it.seq().take(it.index() as int),
    {
        v.push(c);
    }
    v
}


/// Whether two strings hold the same characters.
pub fn same_text(a: &str, b: &str) -> (r: bool)
    ensures
        r == (a@ == b@),
{
    let x = chars_of(a);
    let y = chars_of(b);
    if x.len() != y.len() {
        assert(x@.len() != y@.len());
        return false;
    }
    let mut i: usize = 0;
    while i < x.len()
        invariant
            x@ == a@,
            y@ == b@,
            x@.len() == y@.len(),
            i <= x@.len(),
            forall|k: int| 0 <= k < i ==> x@[k] == y@[k],
        decreases x@.len() - i,
    {
        if x[i] != y[i] {
            assert(x@[i as int] != y@[i as int]);
            return false;
        }
        i = i + 1;
    }
    assert(x@ =~= y@);
    true
}

/// A string holding the characters `v[from..to]`.
pub fn string_from_chars(v: &Vec<char>, from: usize, to: usize) -> (s: String)
    requires
        from <= to <= v@.len(),
    ensures
        s@ == v@.subrange(from as int, to as int),
{
    let mut s = String::new();
    let mut i = from;
    while i < to
        invariant
            from <= i <= to <= v@.len(),
            s@ == v@.subrange(from as int, i as int),
        decreases to - i,
    {
        push_char(&mut s, v[i]);
        i = i + 1;
        assert(s@ =~= v@.subrange(from as int, i as int));
    }
    s
}

/// Whether `needle` occurs in `hay` at position `i`.
pub open spec fn occurs_at(hay: Seq<char>, needle: Seq<char>, i: int) -> bool {
    0 <= i && i + needle.len() <= hay.len() && hay.subrange(i, i + needle.len()) == needle
}

/// Whether `needle` occurs anywhere in `hay`.
pub open spec fn contains_seq(hay: Seq<char>, needle: Seq<char>) -> bool {
    exists|i: int| occurs_at(hay, needle, i)
}

/// Whether `needle` occurs at position `i` of `hay` (checked character by character).
fn matches_at(hay: &Vec<char>, needle: &Vec<char>, i: usize) -> (r: bool)
    requires
        i + needle@.len() <= hay@.len(),
    ensures
        r == occurs_at(hay@, needle@, i as int),
{
    let mut j: usize = 0;
    let hl = hay.len();
    while j < needle.len()
        invariant
            hl == hay@.len(),
            i + needle@.len() <= hay@.len(),
            0 <= j <= needle@.len(),
            forall|k: int| 0 <= k < j ==> hay@[i + k] == needle@[k],
        decreases needle@.len() - j,
    {
        assert(i + j < hay@.len());
        if hay[i + j] != needle[j] {
            assert(hay@.subrange(i as int, i + needle@.len())[j as int] != needle@[j as int]);
            return false;
        }
        j = j + 1;
    }
    assert(hay@.subrange(i as int, i + needle@.len()) =~= needle@);
    true
}

/// The first position at which `needle` occurs in `hay` at or after `from`.
pub fn find_from(hay: &Vec<char>, needle: &Vec<char>, from: usize) -> (r: Option<usize>)
    ensures
        r matches Some(i) ==> from <= i && occurs_at(hay@, needle@, i as int) && forall|k: int|
            from <= k < i ==> !occurs_at(hay@, needle@, k),
        r is None ==> forall|k: int| from <= k ==> !occurs_at(hay@, needle@, k),
{
    if needle.len() > hay.len() {
        return None;
    }
    let last = hay.len() - needle.len();
    let mut i = from;
    while i <= last
        invariant
            last + needle@.len() == hay@.len(),
            from <= i,
            forall|k: int| from <= k < i ==> !occurs_at(hay@, needle@, k),
        decreases last + 1 - i,
    {
        if matches_at(hay, needle, i) {
            return Some(i);
        }
        if i == last {
            return None;
        }
        i = i + 1;
    }
    None
}

/// Whether `needle` occurs in `hay`.
pub fn contains_chars(hay: &Vec<char>, needle: &Vec<char>) -> (r: bool)
    ensures
        r == contains_seq(hay@, needle@),
{
    match find_from(hay, needle, 0) {
        Some(i) => true,
        None => false,
    }
}

/// Whether `needle` occurs in `hay` (`str::contains` with a string pattern).
pub fn str_contains(hay: &str, needle: &str) -> (r: bool)
    ensures
        r == contains_seq(hay@, needle@),
{
    let h = chars_of(hay);
    let n = chars_of(needle);
    contains_chars(&h, &n)
}


// ---------------------------------------------------------------------------
// Lines
// ---------------------------------------------------------------------------

/// `s` without one trailing carriage return, if it ends with one.
pub open spec fn strip_cr(s: Seq<char>) -> Seq<char> {
    if s.len() > 0 && s.last() == '\r' {
        s.drop_last()
    } else {
        s
    }
}

/// The position of the first line feed of `s` (meaningful when `s` holds one).
pub open spec fn first_newline(s: Seq<char>) -> int {
    choose|i: int| 0 <= i < s.len() && s[i] == '\n' && forall|j: int| 0 <= j < i ==> s[j] != '\n'
}

/// The lines of `s` in the sense of `str::lines`: pieces separated by line
/// feeds, each without its line feed and then without one carriage return
/// before it; a final piece with no line feed after it is kept as it is, and
/// nothing follows a final line feed.
#[verifier::opaque]
pub open spec fn lines_of(s: Seq<char>) -> Seq<Seq<char>>
    decreases s.len(),
{
    if s.len() == 0 {
        seq![]
    } else if !s.contains('\n') {
        seq![s]
    } else {
        let i = first_newline(s);
        if 0 <= i < s.len() {
            seq![strip_cr(s.take(i))] + lines_of(s.skip(i + 1))
        } else {
            seq![]
        }
    }
}

proof fn lemma_first_newline(s: Seq<char>, i: int)
    requires
        0 <= i < s.len(),
        s[i] == '\n',
        forall|j: int| 0 <= j < i ==> s[j] != '\n',
    ensures
        first_newline(s) == i,
        s.contains('\n'),
{
    assert(s[i] == '\n');
    let k = first_newline(s);
    assert(0 <= k < s.len() && s[k] == '\n' && forall|j: int| 0 <= j < k ==> s[j] != '\n');
    if k < i {
        assert(s[k] != '\n');
    } else if k > i {
        assert(s[i] != '\n');
    }
}

proof fn lemma_lines_step(v: Seq<char>, start: int, i: int)
    requires
        0 <= start <= i < v.len(),
        v[i] == '\n',
        forall|j: int| start <= j < i ==> v[j] != '\n',
    ensures
        lines_of(v.skip(start)) == seq![strip_cr(v.subrange(start, i))] + lines_of(v.skip(i + 1)),
{
    reveal(lines_of);
    let rest = v.skip(start);
    let r = i - start;
    assert(rest[r] == '\n');
    assert forall|j: int| 0 <= j < r implies rest[j] != '\n' by {
        assert(rest[j] == v[start + j]);
    }
    lemma_first_newline(rest, r);
    assert(rest.take(r) =~= v.subrange(start, i));
    assert(rest.skip(r + 1) =~= v.skip(i + 1));
}

proof fn lemma_lines_last(v: Seq<char>, start: int)
    requires
        0 <= start <= v.len(),
        forall|j: int| start <= j < v.len() ==> v[j] != '\n',
    ensures
        start < v.len() ==> lines_of(v.skip(start)) == seq![v.skip(start)],
        start == v.len() ==> lines_of(v.skip(start)) == Seq::<Seq<char>>::empty(),
{
    reveal(lines_of);
    let rest = v.skip(start);
    if start < v.len() {
        assert forall|j: int| 0 <= j < rest.len() implies rest[j] != '\n' by {
            assert(rest[j] == v[start + j]);
        }
        assert(!rest.contains('\n'));
    } else {
        assert(rest.len() == 0);
    }
}

/// The characters `v[from..to]`.
pub fn copy_range(v: &Vec<char>, from: usize, to: usize) -> (r: Vec<char>)
    requires
        from <= to <= v@.len(),
    ensures
        r@ == v@.subrange(from as int, to as int),
{
    let mut r: Vec<char> = Vec::new();
    let mut j = from;
    while j < to
        invariant
            from <= j <= to <= v@.len(),
            r@ == v@.subrange(from as int, j as int),
        decreases to - j,
    {
        r.push(v[j]);
        j = j + 1;
        assert(r@ =~= v@.subrange(from as int, j as int));
    }
    r
}

/// The lines of the characters `v`, as `str::lines` splits them.
pub fn split_lines(v: &Vec<char>) -> (lines: Vec<Vec<char>>)
    ensures
        lines@.len() == lines_of(v@).len(),
        forall|k: int| 0 <= k < lines@.len() ==> #[trigger] lines@[k]@ == lines_of(v@)[k],
{
    let mut lines: Vec<Vec<char>> = Vec::new();
    let ghost mut done: Seq<Seq<char>> = seq![];
    let mut start: usize = 0;
    let mut i: usize = 0;
    let n = v.len();
    assert(v@.skip(0) =~= v@);
    while i < n
        invariant
            n == v@.len(),
            start <= i <= n,
            forall|j: int| start <= j < i ==> v@[j] != '\n',
            lines_of(v@) == done + lines_of(v@.skip(start as int)),
            lines@.len() == done.len(),
            forall|k: int| 0 <= k < lines@.len() ==> #[trigger] lines@[k]@ == done[k],
        decreases n - i,
    {
        if v[i] == '\n' {
            proof {
                lemma_lines_step(v@, start as int, i as int);
            }
            let end = if i > start && v[i - 1] == '\r' {
                i - 1
            } else {
                i
            };
            let line = copy_range(v, start, end);
            proof {
                assert(line@ =~= strip_cr(v@.subrange(start as int, i as int)));
                let old_done = done;
                done = done.push(line@);
                assert(done + lines_of(v@.skip(i + 1)) =~= old_done + (seq![line@] + lines_of(
                    v@.skip(i + 1),
                )));
            }
            lines.push(line);
            start = i + 1;
        }
        i = i + 1;
    }
    proof {
        lemma_lines_last(v@, start as int);
    }
    if start < n {
        let line = copy_range(v, start, n);
        proof {
            assert(line@ =~= v@.skip(start as int));
            done = done.push(line@);
        }
        lines.push(line);
    } else {
        assert(done + Seq::<Seq<char>>::empty() =~= done);
    }
    lines
}


// ---------------------------------------------------------------------------
// Trimming
// ---------------------------------------------------------------------------

/// Whether `c` has the Unicode `White_Space` property, the set that
/// `char::is_whitespace` tests.
pub open spec fn is_unicode_whitespace(c: char) -> bool {
    let n = c as u32;
    ||| 0x09 <= n <= 0x0D
    ||| n == 0x20
    ||| n == 0x85
    ||| n == 0xA0
    ||| n == 0x1680
    ||| 0x2000 <= n <= 0x200A
    ||| n == 0x2028
    ||| n == 0x2029
    ||| n == 0x202F
    ||| n == 0x205F
    ||| n == 0x3000
}

/// Whether `c` is Unicode whitespace.
pub fn is_whitespace(c: char) -> (r: bool)
    ensures
        r == is_unicode_whitespace(c),
{
    let n = c as u32;
    (0x09 <= n && n <= 0x0D) || n == 0x20 || n == 0x85 || n == 0xA0 || n == 0x1680 || (0x2000 <= n
        && n <= 0x200A) || n == 0x2028 || n == 0x2029 || n == 0x202F || n == 0x205F || n == 0x3000
}

/// `s` without its leading whitespace.
pub open spec fn trim_start(s: Seq<char>) -> Seq<char>
    decreases s.len(),
{
    if s.len() > 0 && is_unicode_whitespace(s[0]) {
        trim_start(s.drop_first())
    } else {
        s
    }
}

/// `s` without its trailing whitespace.
pub open spec fn trim_end(s: Seq<char>) -> Seq<char>
    decreases s.len(),
{
    if s.len() > 0 && is_unicode_whitespace(s.last()) {
        trim_end(s.drop_last())
    } else {
        s
    }
}

/// `s` without leading and trailing whitespace (`str::trim`).
pub open spec fn trim(s: Seq<char>) -> Seq<char> {
    trim_end(trim_start(s))
}

proof fn lemma_trim_start_skip(s: Seq<char>, k: int)
    requires
        0 <= k <= s.len(),
        forall|j: int| 0 <= j < k ==> is_unicode_whitespace(s[j]),
        k == s.len() || !is_unicode_whitespace(s[k]),
    ensures
        trim_start(s) == s.skip(k),
    decreases k,
{
    if k == 0 {
        assert(s.skip(0) =~= s);
    } else {
        let t = s.drop_first();
        assert forall|j: int| 0 <= j < k - 1 implies is_unicode_whitespace(t[j]) by {
            assert(t[j] == s[j + 1]);
        }
        if k - 1 < t.len() {
            assert(t[k - 1] == s[k]);
        }
        lemma_trim_start_skip(t, k - 1);
        assert(t.skip(k - 1) =~= s.skip(k));
    }
}

proof fn lemma_trim_end_take(s: Seq<char>, k: int)
    requires
        0 <= k <= s.len(),
        forall|j: int| k <= j < s.len() ==> is_unicode_whitespace(s[j]),
        k == 0 || !is_unicode_whitespace(s[k - 1]),
    ensures
        trim_end(s) == s.take(k),
    decreases s.len() - k,
{
    if k == s.len() {
        assert(s.take(k) =~= s);
    } else {
        let t = s.drop_last();
        assert forall|j: int| k <= j < t.len() implies is_unicode_whitespace(t[j]) by {
            assert(t[j] == s[j]);
        }
        if k > 0 {
            assert(t[k - 1] == s[k - 1]);
        }
        lemma_trim_end_take(t, k);
        assert(t.take(k) =~= s.take(k));
    }
}

/// The bounds `(a, b)` of the trimmed part of `v`: `v[a..b]` is `trim(v)`.
pub fn trim_bounds(v: &Vec<char>) -> (r: (usize, usize))
    ensures
        r.0 <= r.1 <= v@.len(),
        v@.subrange(r.0 as int, r.1 as int) == trim(v@),
{
    let n = v.len();
    let mut a: usize = 0;
    while a < n && is_whitespace(v[a])
        invariant
            n == v@.len(),
            a <= n,
            forall|j: int| 0 <= j < a ==> is_unicode_whitespace(v@[j]),
        decreases n - a,
    {
        a = a + 1;
    }
    proof {
        lemma_trim_start_skip(v@, a as int);
    }
    let ghost t = v@.skip(a as int);
    let mut b: usize = n;
    while b > a && is_whitespace(v[b - 1])
        invariant
            n == v@.len(),
            a <= b <= n,
            t == v@.skip(a as int),
            forall|j: int| b <= j < n ==> is_unicode_whitespace(v@[j]),
        decreases b - a,
    {
        b = b - 1;
    }
    proof {
        assert forall|j: int| b - a <= j < t.len() implies is_unicode_whitespace(t[j]) by {
            assert(t[j] == v@[a + j]);
        }
        if b > a {
            assert(t[b - a - 1] == v@[b - 1]);
        }
        lemma_trim_end_take(t, b - a);
        assert(t.take(b - a) =~= v@.subrange(a as int, b as int));
    }
    (a, b)
}

// ---------------------------------------------------------------------------
// UTF-8 lengths
// ---------------------------------------------------------------------------

/// The number of bytes of the UTF-8 encoding of `c`.
pub open spec fn char_width(c: char) -> nat {
    let n = c as u32;
    if n < 0x80 {
        1
    } else if n < 0x800 {
        2
    } else if n < 0x10000 {
        3
    } else {
        4
    }
}

/// The number of bytes of the UTF-8 encoding of `s`.
pub open spec fn utf8_len(s: Seq<char>) -> nat
    decreases s.len(),
{
    if s.len() == 0 {
        0
    } else {
        utf8_len(s.drop_last()) + char_width(s.last())
    }
}

/// The number of bytes of the UTF-8 encoding of `c`.
pub fn width_of(c: char) -> (w: usize)
    ensures
        w == char_width(c),
        1 <= w <= 4,
{
    let n = c as u32;
    if n < 0x80 {
        1
    } else if n < 0x800 {
        2
    } else if n < 0x10000 {
        3
    } else {
        4
    }
}

/// Whether some prefix of `s` encodes to exactly `n` bytes, that is whether
/// byte offset `n` is a character boundary of `s`.
pub open spec fn is_byte_boundary(s: Seq<char>, n: nat) -> bool {
    exists|k: int| 0 <= k <= s.len() && utf8_len(s.take(k)) == n
}

/// The byte length of `v[0..k]` for each `k`, stopped once it passes `limit`:
/// returns how many characters of `v` encode to exactly `limit` bytes when there
/// is such a prefix, and whether the whole of `v` is longer than `limit`.
pub fn byte_prefix(v: &Vec<char>, limit: usize) -> (r: (Option<usize>, bool))
    requires
        limit <= usize::MAX - 4,
    ensures
        r.1 == (utf8_len(v@) > limit),
        r.0 matches Some(k) ==> k <= v@.len() && utf8_len(v@.take(k as int)) == limit,
        r.0 is None ==> !is_byte_boundary(v@, limit as nat),
{
    let n = v.len();
    let mut k: usize = 0;
    let mut bytes: usize = 0;
    let mut found: Option<usize> = None;
    assert(v@.take(0) =~= Seq::<char>::empty());
    while k < n && bytes <= limit
        invariant
            n == v@.len(),
            k <= n,
            bytes == utf8_len(v@.take(k as int)),
            bytes <= limit + 4,
            limit <= usize::MAX - 4,
            found matches Some(f) ==> f <= k && utf8_len(v@.take(f as int)) == limit,
            found is None ==> forall|j: int| 0 <= j <= k ==> utf8_len(v@.take(j)) != limit || (
            j == k && bytes == limit),
            forall|j: int, l: int| 0 <= j <= l <= k ==> utf8_len(v@.take(j)) <= utf8_len(
                v@.take(l),
            ),
        decreases n - k,
    {
        if bytes == limit {
            found = Some(k);
        }
        let w = width_of(v[k]);
        proof {
            assert(v@.take(k + 1).drop_last() =~= v@.take(k as int));
            assert forall|j: int, l: int| 0 <= j <= l <= k + 1 implies utf8_len(v@.take(j))
                <= utf8_len(v@.take(l)) by {
                if l == k + 1 && j <= k {
                    assert(utf8_len(v@.take(j)) <= utf8_len(v@.take(k as int)));
                }
            }
        }
        bytes = bytes + w;
        k = k + 1;
    }
    if bytes == limit && found.is_none() {
        found = Some(k);
    }
    proof {
        if k < n {
            // the scan stopped past the limit: every longer prefix is longer still
            assert forall|j: int| k <= j <= n implies utf8_len(v@.take(j)) > limit by {
                lemma_utf8_len_monotone(v@, k as int, j);
            }
        }
        lemma_utf8_len_monotone(v@, k as int, n as int);
        assert(v@.take(n as int) =~= v@);
        if found is None {
            assert forall|j: int| 0 <= j <= v@.len() implies utf8_len(v@.take(j)) != limit by {
                if j > k {
                    lemma_utf8_len_monotone(v@, k as int, j);
                }
            }
        }
    }
    (found, bytes > limit || k < n)
}

proof fn lemma_utf8_len_monotone(s: Seq<char>, a: int, b: int)
    requires
        0 <= a <= b <= s.len(),
    ensures
        utf8_len(s.take(a)) <= utf8_len(s.take(b)),
        a < b ==> utf8_len(s.take(a)) < utf8_len(s.take(b)),
    decreases b - a,
{
    if a < b {
        lemma_utf8_len_monotone(s, a, b - 1);
        assert(s.take(b).drop_last() =~= s.take(b - 1));
    }
}


// ---------------------------------------------------------------------------
// Numbers, case, suffixes and pieces
// ---------------------------------------------------------------------------

/// The decimal digit character for `d < 10`.
pub open spec fn digit_char(d: nat) -> char {
    ((('0' as u32) + d) as u32) as char
}

/// The decimal representation of `n`, without sign or leading zeros.
pub open spec fn decimal(n: nat) -> Seq<char>
    decreases n,
{
    if n < 10 {
        seq![digit_char(n)]
    } else {
        decimal(n / 10).push(digit_char(n % 10))
    }
}

/// The decimal representation of `n` (`u64::to_string`).
pub fn decimal_string(n: u64) -> (s: String)
    ensures
        s@ == decimal(n as nat),
    decreases n,
{
    let d = n % 10;
    let c = char_from_digit(d);
    if n < 10 {
        let mut s = String::new();
        push_char(&mut s, c);
        assert(s@ =~= decimal(n as nat));
        s
    } else {
        let mut s = decimal_string(n / 10);
        push_char(&mut s, c);
        s
    }
}

/// The digit character for `d < 10`.
fn char_from_digit(d: u64) -> (c: char)
    requires
        d < 10,
    ensures
        c == digit_char(d as nat),
{
    if d == 0 { '0' }
    else if d == 1 { '1' }
    else if d == 2 { '2' }
    else if d == 3 { '3' }
    else if d == 4 { '4' }
    else if d == 5 { '5' }
    else if d == 6 { '6' }
    else if d == 7 { '7' }
    else if d == 8 { '8' }
    else { '9' }
}

/// What `str::to_lowercase` returns for a string with the characters `s`:
/// the full Unicode lower-case mapping of every character.
pub uninterp spec fn lowercase(s: Seq<char>) -> Seq<char>;

/// `str::to_lowercase`: the contract claims the result is the named full
/// Unicode lower-case mapping of the argument, a function of it alone.
#[verifier::external_body]
pub(crate) fn to_lowercase(s: &str) -> (r: String)
    ensures
        r@ == lowercase(s@),
{
    s.to_lowercase()
}

/// Whether `s` ends with `suffix`.
pub open spec fn ends_with(s: Seq<char>, suffix: Seq<char>) -> bool {
    suffix.len() <= s.len() && s.skip(s.len() - suffix.len()) == suffix
}

/// `s` with every trailing repetition of a non-empty `suffix` removed
/// (`str::trim_end_matches`).
pub open spec fn trim_end_matches(s: Seq<char>, suffix: Seq<char>) -> Seq<char>
    decreases s.len(),
{
    if suffix.len() > 0 && ends_with(s, suffix) {
        trim_end_matches(s.take(s.len() - suffix.len()), suffix)
    } else {
        s
    }
}

/// The end of `v` after trailing repetitions of `suffix` are removed.
pub fn trim_end_matches_len(v: &Vec<char>, suffix: &Vec<char>) -> (end: usize)
    requires
        suffix@.len() > 0,
    ensures
        end <= v@.len(),
        v@.take(end as int) == trim_end_matches(v@, suffix@),
{
    let mut end = v.len();
    let m = suffix.len();
    assert(v@.take(end as int) =~= v@);
    loop
        invariant
            end <= v@.len(),
            m == suffix@.len() > 0,
            trim_end_matches(v@, suffix@) == trim_end_matches(v@.take(end as int), suffix@),
        decreases end,
    {
        if end < m {
            return end;
        }
        let start = end - m;
        let mut j: usize = 0;
        let mut same = true;
        while j < m
            invariant
                start + m == end <= v@.len(),
                m == suffix@.len(),
                j <= m,
                same == forall|k: int| 0 <= k < j ==> v@[start + k] == suffix@[k],
            decreases m - j,
        {
            if v[start + j] != suffix[j] {
                same = false;
            }
            j = j + 1;
        }
        let ghost t = v@.take(end as int);
        proof {
            if same {
                assert(t.skip(t.len() - suffix@.len()) =~= suffix@);
                assert(t.take(t.len() - suffix@.len()) =~= v@.take(start as int));
            } else {
                let k = choose|k: int| 0 <= k < m && v@[start + k] != suffix@[k];
                assert(t.skip(t.len() - suffix@.len())[k] != suffix@[k]);
            }
        }
        if !same {
            return end;
        }
        end = start;
    }
}

/// The position of the first occurrence of `needle` in `hay`.
pub open spec fn first_occurrence(hay: Seq<char>, needle: Seq<char>) -> int {
    choose|i: int| occurs_at(hay, needle, i) && forall|k: int| 0 <= k < i ==> !occurs_at(hay, needle, k)
}

proof fn lemma_first_occurrence(hay: Seq<char>, needle: Seq<char>, i: int)
    requires
        occurs_at(hay, needle, i),
        forall|k: int| 0 <= k < i ==> !occurs_at(hay, needle, k),
    ensures
        first_occurrence(hay, needle) == i,
{
    let f = first_occurrence(hay, needle);
    assert(occurs_at(hay, needle, f) && forall|k: int| 0 <= k < f ==> !occurs_at(hay, needle, k));
}

/// The second piece of `s` split at a non-empty `sep` (`s.split(sep).nth(1)`):
/// what lies between the first occurrence of `sep` and the next one after it,
/// or the end; `None` when `sep` does not occur.
pub open spec fn second_piece(s: Seq<char>, sep: Seq<char>) -> Option<Seq<char>> {
    if !contains_seq(s, sep) {
        None
    } else {
        let rest = s.skip(first_occurrence(s, sep) + sep.len());
        if contains_seq(rest, sep) {
            Some(rest.take(first_occurrence(rest, sep)))
        } else {
            Some(rest)
        }
    }
}

proof fn lemma_occurs_shift(v: Seq<char>, sep: Seq<char>, start: int, k: int)
    requires
        0 <= start <= v.len(),
        0 <= k,
    ensures
        occurs_at(v.skip(start), sep, k) == occurs_at(v, sep, start + k),
{
    let rest = v.skip(start);
    if k + sep.len() <= rest.len() {
        assert(v.subrange(start + k, start + k + sep.len()) =~= rest.subrange(k, k + sep.len()));
    }
}

proof fn lemma_rest_pieces(v: Seq<char>, sep: Seq<char>, start: int, j: Option<int>)
    requires
        0 <= start <= v.len(),
        j matches Some(jj) ==> start <= jj && occurs_at(v, sep, jj) && forall|k: int|
            start <= k < jj ==> !occurs_at(v, sep, k),
        j is None ==> forall|k: int| start <= k ==> !occurs_at(v, sep, k),
    ensures
        j is None ==> !contains_seq(v.skip(start), sep),
        j matches Some(jj) ==> contains_seq(v.skip(start), sep) && v.skip(start).take(
            first_occurrence(v.skip(start), sep),
        ) == v.subrange(start, jj),
{
    let rest = v.skip(start);
    match j {
        None => {
            assert forall|k: int| !occurs_at(rest, sep, k) by {
                if k >= 0 {
                    lemma_occurs_shift(v, sep, start, k);
                }
            }
        },
        Some(jj) => {
            let r = jj - start;
            lemma_occurs_shift(v, sep, start, r);
            assert forall|k: int| 0 <= k < r implies !occurs_at(rest, sep, k) by {
                lemma_occurs_shift(v, sep, start, k);
            }
            lemma_first_occurrence(rest, sep, r);
            assert(rest.take(r) =~= v.subrange(start, jj));
        },
    }
}

/// The bounds of the second piece of `v` split at `sep`.
pub fn second_piece_bounds(v: &Vec<char>, sep: &Vec<char>) -> (r: Option<(usize, usize)>)
    requires
        sep@.len() > 0,
    ensures
        r is None <==> second_piece(v@, sep@) is None,
        r matches Some(b) ==> b.0 <= b.1 <= v@.len() && second_piece(v@, sep@) == Some(
            v@.subrange(b.0 as int, b.1 as int),
        ),
{
    match find_from(v, sep, 0) {
        None => {
            assert(!contains_seq(v@, sep@));
            None
        },
        Some(i) => {
            proof {
                lemma_first_occurrence(v@, sep@, i as int);
                assert(contains_seq(v@, sep@));
            }
            let vl = v.len();
            assert(i + sep@.len() <= vl);
            let start = i + sep.len();
            match find_from(v, sep, start) {
                None => {
                    proof {
                        lemma_rest_pieces(v@, sep@, start as int, None);
                        assert(v@.skip(start as int) =~= v@.subrange(start as int, v@.len() as int));
                    }
                    Some((start, v.len()))
                },
                Some(j) => {
                    proof {
                        lemma_rest_pieces(v@, sep@, start as int, Some(j as int));
                    }
                    Some((start, j))
                },
            }
        },
    }
}


/// The digits of a fraction of a second given in milliseconds (`r < 1000`),
/// without trailing zeros.
pub open spec fn millis_fraction(r: nat) -> Seq<char> {
    if r % 100 == 0 {
        seq![digit_char(r / 100)]
    } else if r % 10 == 0 {
        seq![digit_char(r / 100), digit_char((r / 10) % 10)]
    } else {
        seq![digit_char(r / 100), digit_char((r / 10) % 10), digit_char(r % 10)]
    }
}

/// How `Debug` renders a duration of `ms` milliseconds: "0ns" for zero,
/// "{ms}ms" below a second, and otherwise whole seconds with the fraction
/// after a point, without trailing zeros, and "s".
pub open spec fn duration_text(ms: nat) -> Seq<char> {
    if ms == 0 {
        "0ns"@
    } else if ms < 1000 {
        decimal(ms) + "ms"@
    } else if ms % 1000 == 0 {
        decimal(ms / 1000) + "s"@
    } else {
        decimal(ms / 1000) + "."@ + millis_fraction(ms % 1000) + "s"@
    }
}

/// The `Debug` rendering of a duration of `ms` milliseconds.
pub fn duration_string(ms: u64) -> (s: String)
    ensures
        s@ == duration_text(ms as nat),
{
    if ms == 0 {
        return String::from_str("0ns");
    }
    if ms < 1000 {
        let mut s = decimal_string(ms);
        s.append("ms");
        return s;
    }
    let mut s = decimal_string(ms / 1000);
    let r = ms % 1000;
    if r != 0 {
        s.append(".");
        push_char(&mut s, char_from_digit(r / 100));
        if r % 100 != 0 {
            push_char(&mut s, char_from_digit((r / 10) % 10));
            if r % 10 != 0 {
                push_char(&mut s, char_from_digit(r % 10));
            }
        }
    }
    s.append("s");
    proof {
        if r != 0 {
            assert(s@ =~= duration_text(ms as nat));
        }
    }
    s
}

} // verus!
