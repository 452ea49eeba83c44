//! Verified text utilities: substring search, prefix test, splitting,
//! trimming, and decimal parsing of status codes.

use vstd::prelude::*;

verus! {

/// The needle occurs in the haystack starting at position `i`.
pub open spec fn match_at(hay: Seq<char>, needle: Seq<char>, i: int) -> bool {
    0 <= i && i + needle.len() <= hay.len() && hay.subrange(i, i + needle.len()) == needle
}

/// The needle occurs somewhere in the haystack.
pub open spec fn contains_seq(hay: Seq<char>, needle: Seq<char>) -> bool {
    exists|i: int| match_at(hay, needle, i)
}

/// The haystack starts with the prefix.
pub open spec fn starts_with_seq(hay: Seq<char>, prefix: Seq<char>) -> bool {
    match_at(hay, prefix, 0)
}

/// Whether the needle occurs at position `i` of the haystack.
fn match_here(hay: &str, needle: &str, i: usize) -> (found: bool)
    requires
        i + needle@.len() <= hay@.len(),
    ensures
        found == match_at(hay@, needle@, i as int),
{
    let h = hay.unicode_len();
    let n = needle.unicode_len();
    let mut j: usize = 0;
    while j < n
        invariant
            n == needle@.len(),
            h == hay@.len(),
            i + n <= h,
            j <= n,
            forall|l: int| 0 <= l < j ==> hay@[i + l] == needle@[l],
        decreases n - j,
    {
        if hay.get_char(i + j) != needle.get_char(j) {
            proof {
                assert(hay@.subrange(i as int, i + n)[j as int] == hay@[i + j]);
            }
            return false;
        }
        j += 1;
    }
    proof {
        assert(hay@.subrange(i as int, i + n) =~= needle@);
    }
    true
}

/// Substring search: whether `needle` occurs anywhere in `hay`.
pub fn str_contains(hay: &str, needle: &str) -> (found: bool)
    ensures
        found == contains_seq(hay@, needle@),
{
    let h = hay.unicode_len();
    let n = needle.unicode_len();
    if n > h {
        return false;
    }
    if n == 0 {
        proof {
            assert(hay@.subrange(0, 0) =~= needle@);
            assert(match_at(hay@, needle@, 0));
        }
        return true;
    }
    let mut i: usize = 0;
    while i <= h - n
        invariant
            h == hay@.len(),
            n == needle@.len(),
            1 <= n <= h,
            i <= h - n + 1,
            forall|k: int| 0 <= k < i ==> !match_at(hay@, needle@, k),
        decreases h - n - i + 1,
    {
        if match_here(hay, needle, i) {
            return true;
        }
        i += 1;
    }
    false
}

/// Prefix test: whether `hay` starts with `prefix`.
pub fn str_starts_with(hay: &str, prefix: &str) -> (found: bool)
    ensures
        found == starts_with_seq(hay@, prefix@),
{
    let h = hay.unicode_len();
    let n = prefix.unicode_len();
    if n > h {
        return false;
    }
    match_here(hay, prefix, 0)
}

/// The views of a sequence of owned strings.
pub open spec fn views_of(parts: Seq<String>) -> Seq<Seq<char>> {
    parts.map_values(|p: String| p@)
}

/// A whitespace character as recognised by the parsers in this crate.
pub open spec fn is_space_char(c: char) -> bool {
    c == ' ' || c == '\t' || c == '\r' || c == '\n'
}

fn is_space(c: char) -> (b: bool)
    ensures
        b == is_space_char(c),
{
    c == ' ' || c == '\t' || c == '\r' || c == '\n'
}

pub open spec fn trim_start_spec(s: Seq<char>) -> Seq<char>
    decreases s.len(),
{
    if s.len() > 0 && is_space_char(s[0]) {
        trim_start_spec(s.drop_first())
    } else {
        s
    }
}

pub open spec fn trim_end_spec(s: Seq<char>) -> Seq<char>
    decreases s.len(),
{
    if s.len() > 0 && is_space_char(s.last()) {
        trim_end_spec(s.drop_last())
    } else {
        s
    }
}

/// The string with leading and trailing whitespace removed.
pub open spec fn trim_spec(s: Seq<char>) -> Seq<char> {
    trim_end_spec(trim_start_spec(s))
}

proof fn lemma_trim_start_skip(s: Seq<char>, k: int)
    requires
        0 <= k <= s.len(),
        forall|j: int| 0 <= j < k ==> is_space_char(s[j]),
        k == s.len() || !is_space_char(s[k]),
    ensures
        trim_start_spec(s) == s.subrange(k, s.len() as int),
    decreases k,
{
    if k == 0 {
        assert(s.subrange(0, s.len() as int) =~= s);
    } else {
        let t = s.drop_first();
        lemma_trim_start_skip(t, k - 1);
        assert(t.subrange(k - 1, t.len() as int) =~= s.subrange(k, s.len() as int));
    }
}

proof fn lemma_trim_end_skip(s: Seq<char>, k: int)
    requires
        0 <= k <= s.len(),
        forall|j: int| k <= j < s.len() ==> is_space_char(s[j]),
        k == 0 || !is_space_char(s[k - 1]),
    ensures
        trim_end_spec(s) == s.subrange(0, k),
    decreases s.len() - k,
{
    if k == s.len() {
        assert(s.subrange(0, k) =~= s);
    } else {
        let t = s.drop_last();
        lemma_trim_end_skip(t, k);
        assert(t.subrange(0, k) =~= s.subrange(0, k));
    }
}

/// Remove leading and trailing whitespace.
pub fn trim(s: &str) -> (r: &str)
    ensures
        r@ == trim_spec(s@),
{
    let n = s.unicode_len();
    let mut a: usize = 0;
    while a < n && is_space(s.get_char(a))
        invariant
            a <= n,
            n == s@.len(),
            forall|k: int| 0 <= k < a ==> is_space_char(s@[k]),
        decreases n - a,
    {
        a += 1;
    }
    proof {
        lemma_trim_start_skip(s@, a as int);
    }
    let mut b: usize = n;
    while b > a && is_space(s.get_char(b - 1))
        invariant
            a <= b <= n,
            n == s@.len(),
            forall|k: int| b <= k < n ==> is_space_char(s@[k]),
        decreases b,
    {
        b -= 1;
    }
    proof {
        let t = s@.subrange(a as int, n as int);
        lemma_trim_end_skip(t, b - a);
        assert(t.subrange(0, b - a) =~= s@.subrange(a as int, b as int));
    }
    s.substring_char(a, b)
}

pub open spec fn is_digit_char(c: char) -> bool {
    '0' <= c && c <= '9'
}

pub open spec fn all_digits(s: Seq<char>) -> bool {
    forall|i: int| 0 <= i < s.len() ==> is_digit_char(s[i])
}

pub open spec fn digit_val(c: char) -> int {
    c as int - 48
}

/// The value of a digit string read in base 10.
pub open spec fn digits_val(s: Seq<char>) -> int
    decreases s.len(),
{
    if s.len() == 0 {
        0
    } else {
        digits_val(s.drop_last()) * 10 + digit_val(s.last())
    }
}

/// A decimal u16: nonempty, all digits, and the value fits.
pub open spec fn parse_u16_spec(s: Seq<char>) -> Option<u16> {
    if s.len() > 0 && all_digits(s) && digits_val(s) <= 65535 {
        Some(digits_val(s) as u16)
    } else {
        None
    }
}

proof fn lemma_digits_val_nonneg(s: Seq<char>)
    requires
        all_digits(s),
    ensures
        digits_val(s) >= 0,
    decreases s.len(),
{
    if s.len() > 0 {
        lemma_digits_val_nonneg(s.drop_last());
    }
}

proof fn lemma_digits_val_overflow(s: Seq<char>, k: int)
    requires
        0 <= k <= s.len(),
        all_digits(s),
        digits_val(s.subrange(0, k)) > 65535,
    ensures
        digits_val(s) > 65535,
    decreases s.len() - k,
{
    if k == s.len() {
        assert(s.subrange(0, k) =~= s);
    } else {
        let p = s.subrange(0, k + 1);
        assert(p.drop_last() =~= s.subrange(0, k));
        assert(p.last() == s[k]);
        lemma_digits_val_overflow(s, k + 1);
    }
}

/// Parse a decimal u16; any non-digit character, an empty string, or a
/// value over 65535 yields `None`.
pub fn parse_u16(s: &str) -> (r: Option<u16>)
    ensures
        r == parse_u16_spec(s@),
{
    let n = s.unicode_len();
    if n == 0 {
        return None;
    }
    let mut i: usize = 0;
    while i < n
        invariant
            n == s@.len(),
            i <= n,
            forall|k: int| 0 <= k < i ==> is_digit_char(s@[k]),
        decreases n - i,
    {
        let c = s.get_char(i);
        if c < '0' || c > '9' {
            return None;
        }
        i += 1;
    }
    let mut val: u32 = 0;
    let mut j: usize = 0;
    while j < n
        invariant
            n == s@.len(),
            j <= n,
            all_digits(s@),
            val == digits_val(s@.subrange(0, j as int)),
            val <= 65535,
        decreases n - j,
    {
        let c = s.get_char(j);
        let d: u32 = (c as u32) - 48;
        proof {
            assert(s@.subrange(0, j + 1).drop_last() =~= s@.subrange(0, j as int));
            assert(s@.subrange(0, j + 1).last() == s@[j as int]);
        }
        let nv: u32 = val * 10 + d;
        if nv > 65535 {
            proof {
                lemma_digits_val_overflow(s@, j + 1);
            }
            return None;
        }
        val = nv;
        j += 1;
    }
    proof {
        assert(s@.subrange(0, n as int) =~= s@);
    }
    Some(val as u16)
}

/// Index of the first occurrence of `sep`, or the length if absent.
pub open spec fn first_sep(s: Seq<char>, sep: char) -> nat
    decreases s.len(),
{
    if s.len() == 0 {
        0
    } else if s[0] == sep {
        0
    } else {
        1 + first_sep(s.drop_first(), sep)
    }
}

proof fn lemma_first_sep_agrees(s: Seq<char>, sep: char, i: int)
    requires
        0 <= i <= s.len(),
        forall|k: int| 0 <= k < i ==> s[k] != sep,
        i == s.len() || s[i] == sep,
    ensures
        first_sep(s, sep) == i,
    decreases i,
{
    if i > 0 {
        lemma_first_sep_agrees(s.drop_first(), sep, i - 1);
    }
}

/// Split on a separator; adjacent, leading or trailing separators yield
/// empty segments, and the empty string yields one empty segment.
pub open spec fn split_spec(s: Seq<char>, sep: char) -> Seq<Seq<char>>
    decreases s.len(),
{
    let i = first_sep(s, sep) as int;
    if i >= s.len() {
        seq![s]
    } else {
        seq![s.subrange(0, i)] + split_spec(s.subrange(i + 1, s.len() as int), sep)
    }
}

/// Split a string on a separator character.
pub fn split_str(s: &str, sep: char) -> (parts: Vec<String>)
    ensures
        views_of(parts@) == split_spec(s@, sep),
    decreases s@.len(),
{
    let n = s.unicode_len();
    let mut i: usize = 0;
    while i < n && s.get_char(i) != sep
        invariant
            i <= n,
            n == s@.len(),
            forall|k: int| 0 <= k < i ==> s@[k] != sep,
        decreases n - i,
    {
        i += 1;
    }
    proof {
        lemma_first_sep_agrees(s@, sep, i as int);
    }
    if i < n {
        let head = s.substring_char(0, i);
        let tail = s.substring_char(i + 1, n);
        let mut rest = split_str(tail, sep);
        let ghost rest0 = rest@;
        let mut parts: Vec<String> = Vec::new();
        parts.push(String::from_str(head));
        parts.append(&mut rest);
        proof {
            let lhs = views_of(parts@);
            let rhs = split_spec(s@, sep);
            assert(lhs.len() == 1 + rest0.len());
            assert(views_of(rest0) == split_spec(tail@, sep));
            assert forall|k: int| 0 <= k < lhs.len() implies lhs[k] == rhs[k] by {
                if k > 0 {
                    assert(parts@[k] == rest0[k - 1]);
                    assert(lhs[k] == views_of(rest0)[k - 1]);
                }
            }
            assert(lhs =~= rhs);
        }
        parts
    } else {
        let mut parts: Vec<String> = Vec::new();
        parts.push(String::from_str(s));
        proof {
            assert(views_of(parts@) =~= split_spec(s@, sep));
        }
        parts
    }
}

/// The status codes read from a comma-separated list; a segment that does
/// not parse as a u16 after trimming is dropped.
pub open spec fn codes_of_segments(segs: Seq<Seq<char>>) -> Seq<u16>
    decreases segs.len(),
{
    if segs.len() == 0 {
        Seq::empty()
    } else {
        codes_of_segments(segs.drop_last()) + (match parse_u16_spec(trim_spec(segs.last())) {
            Some(c) => seq![c],
            None => Seq::<u16>::empty(),
        })
    }
}

pub open spec fn parse_codes_spec(s: Seq<char>) -> Seq<u16> {
    codes_of_segments(split_spec(s, ','))
}

/// Parse a comma-separated list of status codes, trimming each entry and
/// dropping entries that are not a decimal u16.
pub fn parse_code_list(s: &str) -> (codes: Vec<u16>)
    ensures
        codes@ == parse_codes_spec(s@),
{
    let parts = split_str(s, ',');
    let ghost segs = views_of(parts@);
    let mut codes: Vec<u16> = Vec::new();
    let mut k: usize = 0;
    while k < parts.len()
        invariant
            k <= parts@.len(),
            segs == views_of(parts@),
            codes@ == codes_of_segments(segs.subrange(0, k as int)),
        decreases parts@.len() - k,
    {
        let t = trim(parts[k].as_str());
        proof {
            assert(segs.subrange(0, k + 1).drop_last() =~= segs.subrange(0, k as int));
            assert(segs.subrange(0, k + 1).last() == segs[k as int]);
            assert(t@ == trim_spec(segs[k as int]));
        }
        match parse_u16(t) {
            Some(c) => codes.push(c),
            None => {},
        }
        k += 1;
    }
    proof {
        assert(segs.subrange(0, parts@.len() as int) =~= segs);
    }
    codes
}

/// Each segment of a list, trimmed.
pub open spec fn trim_all(segs: Seq<Seq<char>>) -> Seq<Seq<char>> {
    segs.map_values(|seg: Seq<char>| trim_spec(seg))
}

/// The segments of a comma-separated list, each trimmed.
pub open spec fn split_trim_spec(s: Seq<char>) -> Seq<Seq<char>> {
    trim_all(split_spec(s, ','))
}

/// Split a comma-separated list and trim each entry.
pub fn split_and_trim(s: &str) -> (parts: Vec<String>)
    ensures
        views_of(parts@) == split_trim_spec(s@),
{
    let raw = split_str(s, ',');
    let ghost segs = views_of(raw@);
    let mut parts: Vec<String> = Vec::new();
    let mut k: usize = 0;
    while k < raw.len()
        invariant
            k <= raw@.len(),
            segs == views_of(raw@),
            segs == split_spec(s@, ','),
            views_of(parts@) == trim_all(segs).subrange(0, k as int),
        decreases raw@.len() - k,
    {
        let t = trim(raw[k].as_str());
        let ghost parts0 = parts@;
        parts.push(String::from_str(t));
        proof {
            let mapped = trim_all(segs);
            assert(segs.len() == raw@.len());
            assert(mapped.len() == segs.len());
            assert(views_of(parts0).len() == parts0.len());
            assert(views_of(parts0) == mapped.subrange(0, k as int));
            assert(parts0.len() == k);
            assert(parts@.len() == k + 1);
            assert(raw@[k as int]@ == segs[k as int]);
            assert(mapped[k as int] == trim_spec(segs[k as int]));
            assert forall|j: int| 0 <= j < k + 1 implies views_of(parts@)[j] == mapped.subrange(
                0,
                k + 1,
            )[j] by {
                if j < k {
                    assert(parts@[j] == parts0[j]);
                    assert(views_of(parts0)[j] == mapped.subrange(0, k as int)[j]);
                }
            }
            assert(views_of(parts@) =~= mapped.subrange(0, k + 1));
        }
        k += 1;
    }
    proof {
        let mapped = trim_all(segs);
        assert(mapped.subrange(0, raw@.len() as int) =~= mapped);
    }
    parts
}

} // verus!
