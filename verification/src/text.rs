//! Character-level helpers shared by the parsing and translation modules.
//!
//! All routines work on character positions (code points), never on byte
//! offsets, so that every index stated in a contract refers to the same
//! `Seq<char>` view of the string.

use vstd::prelude::*;
use vstd::string::StrSliceExecFns;
use vstd::string::StringExecFns;

verus! {

/// The whitespace characters the library recognises: space, tab, newline
/// and carriage return.
pub open spec fn spec_is_space(c: char) -> bool {
    c == ' ' || c == '\t' || c == '\n' || c == '\r'
}

/// Runtime test for [`spec_is_space`].
pub fn is_space_char(c: char) -> (r: bool)
    ensures
        r == spec_is_space(c),
{
    c == ' ' || c == '\t' || c == '\n' || c == '\r'
}

/// Character-for-character string equality.
pub fn str_eq(a: &str, b: &str) -> (r: bool)
    ensures
        r == (a@ == b@),
{
    let an = a.unicode_len();
    let bn = b.unicode_len();
    if an != bn {
        assert(a@.len() != b@.len());
        return false;
    }
    let mut i: usize = 0;
    while i < an
        invariant
            i <= an,
            an == a@.len(),
            an == b@.len(),
            forall|j: int| 0 <= j < i ==> a@[j] == b@[j],
        decreases an - i,
    {
        if a.get_char(i) != b.get_char(i) {
            return false;
        }
        i += 1;
    }
    proof {
        assert(a@ =~= b@);
    }
    true
}

/// Lower-case image of an ASCII letter; other characters are unchanged.
pub open spec fn spec_lower_char(c: char) -> char {
    if 65 <= c as u32 && c as u32 <= 90 {
        ((c as u32 + 32) as u32) as char
    } else {
        c
    }
}

/// The string with every ASCII letter lowered. Folding is ASCII-only:
/// letters outside ASCII keep their case, which is enough for the ASCII
/// needles the library searches for.
pub open spec fn spec_lower(s: Seq<char>) -> Seq<char> {
    s.map_values(|c: char| spec_lower_char(c))
}

/// Runtime counterpart of [`spec_lower_char`].
pub fn lower_char(c: char) -> (r: char)
    ensures
        r == spec_lower_char(c),
{
    let u = c as u32;
    if 65 <= u && u <= 90 {
        let b: u8 = (u + 32) as u8;
        b as char
    } else {
        c
    }
}

/// Whether the ASCII-lowered form of `a` equals `b`, character for
/// character.
pub fn str_eq_lower(a: &str, b: &str) -> (r: bool)
    ensures
        r == (spec_lower(a@) == b@),
{
    let an = a.unicode_len();
    let bn = b.unicode_len();
    assert(spec_lower(a@).len() == a@.len());
    if an != bn {
        assert(spec_lower(a@).len() != b@.len());
        return false;
    }
    let mut i: usize = 0;
    while i < an
        invariant
            i <= an,
            an == a@.len(),
            an == b@.len(),
            forall|j: int| 0 <= j < i ==> spec_lower(a@)[j] == b@[j],
        decreases an - i,
    {
        if lower_char(a.get_char(i)) != b.get_char(i) {
            return false;
        }
        i += 1;
    }
    proof {
        assert(spec_lower(a@) =~= b@);
    }
    true
}

/// `needle` occurs contiguously somewhere in `hay`.
pub open spec fn spec_contains(hay: Seq<char>, needle: Seq<char>) -> bool {
    exists|i: int|
        0 <= i && i + needle.len() <= hay.len() && #[trigger] hay.subrange(i, i + needle.len())
            == needle
}

/// `needle` matches `hay` at position `i`, character for character.
fn matches_at(hay: &str, needle: &str, i: usize) -> (r: bool)
    requires
        i + needle@.len() <= hay@.len(),
    ensures
        r == (hay@.subrange(i as int, i + needle@.len()) == needle@),
{
    let hn = hay.unicode_len();
    let n = needle.unicode_len();
    let mut j: usize = 0;
    while j < n
        invariant
            j <= n,
            n == needle@.len(),
            hn == hay@.len(),
            i + n <= hn,
            forall|k: int| 0 <= k < j ==> hay@[i + k] == needle@[k],
        decreases n - j,
    {
        if hay.get_char(i + j) != needle.get_char(j) {
            assert(hay@.subrange(i as int, i + needle@.len())[j as int] != needle@[j as int]);
            return false;
        }
        j += 1;
    }
    proof {
        assert(hay@.subrange(i as int, i + needle@.len()) =~= needle@);
    }
    true
}

/// Runtime counterpart of [`spec_contains`].
pub fn contains_sub(hay: &str, needle: &str) -> (r: bool)
    ensures
        r == spec_contains(hay@, needle@),
{
    let hn = hay.unicode_len();
    let nn = needle.unicode_len();
    if nn > hn {
        return false;
    }
    if nn == 0 {
        proof {
            assert(hay@.subrange(0, 0 + needle@.len() as int) =~= needle@);
        }
        return true;
    }
    let mut i: usize = 0;
    while i <= hn - nn
        invariant
            1 <= nn <= hn,
            hn == hay@.len(),
            nn == needle@.len(),
            i <= hn - nn + 1,
            forall|k: int|
                0 <= k < i ==> #[trigger] hay@.subrange(k, k + needle@.len()) != needle@,
        decreases hn - nn + 1 - i,
    {
        if matches_at(hay, needle, i) {
            return true;
        }
        i += 1;
    }
    false
}

/// `needle` matches the lowered `hay` at position `i`.
fn matches_at_lower(hay: &str, needle: &str, i: usize) -> (r: bool)
    requires
        i + needle@.len() <= hay@.len(),
    ensures
        r == (spec_lower(hay@).subrange(i as int, i + needle@.len()) == needle@),
{
    let hn = hay.unicode_len();
    let n = needle.unicode_len();
    let mut j: usize = 0;
    while j < n
        invariant
            j <= n,
            n == needle@.len(),
            hn == hay@.len(),
            i + n <= hn,
            forall|k: int| 0 <= k < j ==> spec_lower(hay@)[i + k] == needle@[k],
        decreases n - j,
    {
        if lower_char(hay.get_char(i + j)) != needle.get_char(j) {
            assert(spec_lower(hay@).subrange(i as int, i + needle@.len())[j as int]
                != needle@[j as int]);
            return false;
        }
        j += 1;
    }
    proof {
        assert(spec_lower(hay@).subrange(i as int, i + needle@.len()) =~= needle@);
    }
    true
}

/// Whether the ASCII-lowered form of `hay` holds `needle` as a substring.
pub fn contains_sub_lower(hay: &str, needle: &str) -> (r: bool)
    ensures
        r == spec_contains(spec_lower(hay@), needle@),
{
    let hn = hay.unicode_len();
    let nn = needle.unicode_len();
    assert(spec_lower(hay@).len() == hay@.len());
    if nn > hn {
        return false;
    }
    if nn == 0 {
        proof {
            assert(spec_lower(hay@).subrange(0, 0 + needle@.len() as int) =~= needle@);
        }
        return true;
    }
    let mut i: usize = 0;
    while i <= hn - nn
        invariant
            1 <= nn <= hn,
            hn == hay@.len(),
            hn == spec_lower(hay@).len(),
            nn == needle@.len(),
            i <= hn - nn + 1,
            forall|k: int|
                0 <= k < i ==> #[trigger] spec_lower(hay@).subrange(k, k + needle@.len())
                    != needle@,
        decreases hn - nn + 1 - i,
    {
        if matches_at_lower(hay, needle, i) {
            return true;
        }
        i += 1;
    }
    false
}

/// Largest `e <= i` such that every character of `s` in `[e, i)` is whitespace.
pub open spec fn spec_skip_spaces_back(s: Seq<char>, i: int) -> int
    decreases i,
{
    if i <= 0 {
        0
    } else if spec_is_space(s[i - 1]) {
        spec_skip_spaces_back(s, i - 1)
    } else {
        i
    }
}

/// Largest `e <= i` such that every character of `s` in `[e, i)` is not whitespace.
pub open spec fn spec_skip_token_back(s: Seq<char>, i: int) -> int
    decreases i,
{
    if i <= 0 {
        0
    } else if !spec_is_space(s[i - 1]) {
        spec_skip_token_back(s, i - 1)
    } else {
        i
    }
}

/// The last whitespace-separated token of `s`, if any.
pub open spec fn spec_last_token(s: Seq<char>) -> Option<Seq<char>> {
    let e = spec_skip_spaces_back(s, s.len() as int);
    if e == 0 {
        None
    } else {
        Some(s.subrange(spec_skip_token_back(s, e), e))
    }
}

proof fn lemma_skip_spaces_back_range(s: Seq<char>, i: int)
    requires
        0 <= i,
    ensures
        0 <= spec_skip_spaces_back(s, i) <= i,
    decreases i,
{
    if i > 0 && spec_is_space(s[i - 1]) {
        lemma_skip_spaces_back_range(s, i - 1);
    }
}

proof fn lemma_skip_token_back_range(s: Seq<char>, i: int)
    requires
        0 <= i,
    ensures
        0 <= spec_skip_token_back(s, i) <= i,
    decreases i,
{
    if i > 0 && !spec_is_space(s[i - 1]) {
        lemma_skip_token_back_range(s, i - 1);
    }
}

/// The last whitespace-separated token of `s`, if `s` has one.
pub fn last_token<'a>(s: &'a str) -> (r: Option<&'a str>)
    ensures
        r is Some <==> spec_last_token(s@) is Some,
        r matches Some(t) ==> spec_last_token(s@) == Some(t@),
{
    let n = s.unicode_len();
    let mut e: usize = n;
    while e > 0 && is_space_char(s.get_char(e - 1))
        invariant
            e <= n,
            n == s@.len(),
            spec_skip_spaces_back(s@, n as int) == spec_skip_spaces_back(s@, e as int),
        decreases e,
    {
        e -= 1;
    }
    proof {
        lemma_skip_spaces_back_range(s@, e as int);
    }
    assert(spec_skip_spaces_back(s@, n as int) == e);
    if e == 0 {
        return None;
    }
    let mut b: usize = e;
    while b > 0 && !is_space_char(s.get_char(b - 1))
        invariant
            b <= e,
            e <= n,
            n == s@.len(),
            spec_skip_token_back(s@, e as int) == spec_skip_token_back(s@, b as int),
        decreases b,
    {
        b -= 1;
    }
    proof {
        lemma_skip_token_back_range(s@, b as int);
    }
    assert(spec_skip_token_back(s@, e as int) == b);
    Some(s.substring_char(b, e))
}

/// A decimal digit.
pub open spec fn spec_is_digit(c: char) -> bool {
    48 <= c as u32 && c as u32 <= 57
}

/// The numeric value of a decimal digit.
pub open spec fn spec_digit_val(c: char) -> int {
    c as u32 - 48
}

/// Every character of `s` is a decimal digit.
pub open spec fn spec_all_digits(s: Seq<char>) -> bool {
    forall|j: int| 0 <= j < s.len() ==> spec_is_digit(#[trigger] s[j])
}

/// The value of a digit string read in base ten.
pub open spec fn spec_digits_value(s: Seq<char>) -> int
    decreases s.len(),
{
    if s.len() == 0 {
        0
    } else {
        spec_digits_value(s.drop_last()) * 10 + spec_digit_val(s.last())
    }
}

/// The number a digit string denotes, when it is one or more decimal
/// digits whose value fits in 32 bits.
pub open spec fn spec_parse_digits_u32(d: Seq<char>) -> Option<u32> {
    if d.len() >= 1 && spec_all_digits(d) && spec_digits_value(d) <= u32::MAX {
        Some(spec_digits_value(d) as u32)
    } else {
        None
    }
}

/// The number a string denotes under `u32` parsing: an optional leading
/// `+`, then one or more decimal digits whose value fits in 32 bits.
pub open spec fn spec_parse_u32(s: Seq<char>) -> Option<u32> {
    if s.len() >= 1 && s[0] == '+' {
        spec_parse_digits_u32(s.subrange(1, s.len() as int))
    } else {
        spec_parse_digits_u32(s)
    }
}

proof fn lemma_digits_value_nonneg(s: Seq<char>)
    requires
        spec_all_digits(s),
    ensures
        spec_digits_value(s) >= 0,
    decreases s.len(),
{
    if s.len() > 0 {
        assert(spec_all_digits(s.drop_last())) by {
            assert(forall|j: int|
                0 <= j < s.drop_last().len() ==> #[trigger] s.drop_last()[j] == s[j]);
        }
        lemma_digits_value_nonneg(s.drop_last());
    }
}

proof fn lemma_digits_value_monotone(s: Seq<char>, i: int)
    requires
        spec_all_digits(s),
        0 <= i <= s.len(),
    ensures
        spec_digits_value(s.subrange(0, i)) <= spec_digits_value(s),
    decreases s.len() - i,
{
    if i < s.len() {
        let t = s.subrange(0, i + 1);
        assert(t.drop_last() =~= s.subrange(0, i));
        assert(spec_all_digits(t)) by {
            assert(forall|j: int| 0 <= j < t.len() ==> #[trigger] t[j] == s[j]);
        }
        lemma_digits_value_nonneg(s.subrange(0, i));
        assert(spec_digits_value(t) == spec_digits_value(s.subrange(0, i)) * 10
            + spec_digit_val(t.last()));
        assert(spec_digit_val(t.last()) >= 0);
        lemma_digits_value_monotone(s, i + 1);
    } else {
        assert(s.subrange(0, i) =~= s);
    }
}

/// Parses a `u32` from its decimal notation, as [`spec_parse_u32`] states.
pub fn parse_u32(s: &str) -> (r: Option<u32>)
    ensures
        r == spec_parse_u32(s@),
{
    let n = s.unicode_len();
    let start: usize = if n >= 1 && s.get_char(0) == '+' {
        1
    } else {
        0
    };
    let ghost d = if s@.len() >= 1 && s@[0] == '+' {
        s@.subrange(1, s@.len() as int)
    } else {
        s@
    };
    assert(d =~= s@.subrange(start as int, n as int));
    if n == start {
        return None;
    }
    let mut acc: u64 = 0;
    let mut i: usize = start;
    while i < n
        invariant
            start <= i <= n,
            n == s@.len(),
            start <= 1,
            n > start,
            d =~= s@.subrange(start as int, n as int),
            spec_parse_u32(s@) == spec_parse_digits_u32(d),
            spec_all_digits(d.subrange(0, i - start)),
            acc == spec_digits_value(d.subrange(0, i - start)),
            acc <= u32::MAX,
        decreases n - i,
    {
        let c = s.get_char(i);
        let u = c as u32;
        assert(c == d[i - start]);
        if !(48 <= u && u <= 57) {
            assert(!spec_is_digit(d[i - start]));
            assert(!spec_all_digits(d));
            return None;
        }
        let v: u64 = (u - 48) as u64;
        let next: u64 = acc * 10 + v;
        assert(d.subrange(0, i + 1 - start).drop_last() =~= d.subrange(0, i - start));
        assert(d.subrange(0, i + 1 - start).last() == c);
        if next > u32::MAX as u64 {
            proof {
                if spec_all_digits(d) && spec_digits_value(d) <= u32::MAX {
                    lemma_digits_value_monotone(d, i + 1 - start);
                    assert(spec_digits_value(d.subrange(0, i + 1 - start)) == next);
                    assert(false);
                }
            }
            return None;
        }
        acc = next;
        assert(spec_all_digits(d.subrange(0, i + 1 - start))) by {
            assert(forall|j: int|
                0 <= j < i - start ==> #[trigger] d.subrange(0, i + 1 - start)[j]
                    == d.subrange(0, i - start)[j]);
        }
        i += 1;
    }
    assert(d.subrange(0, n - start) =~= d);
    Some(acc as u32)
}

/// The decimal digit characters.
pub open spec fn spec_digit_char(d: int) -> char {
    if d == 0 {
        '0'
    } else if d == 1 {
        '1'
    } else if d == 2 {
        '2'
    } else if d == 3 {
        '3'
    } else if d == 4 {
        '4'
    } else if d == 5 {
        '5'
    } else if d == 6 {
        '6'
    } else if d == 7 {
        '7'
    } else if d == 8 {
        '8'
    } else {
        '9'
    }
}

/// The decimal notation of `n`, most significant digit first.
pub open spec fn spec_dec(n: nat) -> Seq<char>
    decreases n,
{
    if n < 10 {
        seq![spec_digit_char(n as int)]
    } else {
        spec_dec(n / 10) + seq![spec_digit_char((n % 10) as int)]
    }
}

fn digit_str(d: usize) -> (r: &'static str)
    requires
        d < 10,
    ensures
        r@ =~= seq![spec_digit_char(d as int)],
{
    proof {
        reveal_strlit("0");
        reveal_strlit("1");
        reveal_strlit("2");
        reveal_strlit("3");
        reveal_strlit("4");
        reveal_strlit("5");
        reveal_strlit("6");
        reveal_strlit("7");
        reveal_strlit("8");
        reveal_strlit("9");
    }
    if d == 0 {
        "0"
    } else if d == 1 {
        "1"
    } else if d == 2 {
        "2"
    } else if d == 3 {
        "3"
    } else if d == 4 {
        "4"
    } else if d == 5 {
        "5"
    } else if d == 6 {
        "6"
    } else if d == 7 {
        "7"
    } else if d == 8 {
        "8"
    } else {
        "9"
    }
}

/// Renders `n` in decimal, as [`spec_dec`] states.
pub fn usize_to_string(n: usize) -> (s: String)
    ensures
        s@ =~= spec_dec(n as nat),
    decreases n,
{
    if n < 10 {
        String::from_str(digit_str(n))
    } else {
        let mut s = usize_to_string(n / 10);
        s.append(digit_str(n % 10));
        s
    }
}

} // verus!
