//! Small verified string helpers shared by the format modules.

use vstd::prelude::*;

verus! {

/// Character-wise equality of two string slices.
pub fn str_eq(a: &str, b: &str) -> (r: bool)
    ensures
        r == (a@ == b@),
{
    let n = a.unicode_len();
    let m = b.unicode_len();
    if n != m {
        return false;
    }
    let mut i: usize = 0;
    while i < n
        invariant
            n == a@.len(),
            m == b@.len(),
            n == m,
            i <= n,
            forall|j: int| 0 <= j < i ==> a@[j] == b@[j],
        decreases n - i,
    {
        if a.get_char(i) != b.get_char(i) {
            assert(a@[i as int] != b@[i as int]);
            return false;
        }
        i = i + 1;
    }
    assert(a@ =~= b@);
    true
}

/// The character of the decimal digit `d` (`0 <= d < 10`).
pub open spec fn digit_char(d: nat) -> char {
    ((d + 48) as u32) as char
}

/// The decimal representation of `n`, most significant digit first, without
/// leading zeros (`"0"` for zero).
pub open spec fn decimal(n: nat) -> Seq<char>
    decreases n,
{
    if n < 10 {
        seq![digit_char(n)]
    } else {
        decimal(n / 10).push(digit_char(n % 10))
    }
}

/// The character of the decimal digit `d`.
pub fn digit(d: u64) -> (c: char)
    requires
        d < 10,
    ensures
        c == digit_char(d as nat),
{
    match d {
        0 => '0',
        1 => '1',
        2 => '2',
        3 => '3',
        4 => '4',
        5 => '5',
        6 => '6',
        7 => '7',
        8 => '8',
        _ => '9',
    }
}

/// Append the character `c` to `s`.
///
/// Calls `String::push`, which appends one character; nothing else is
/// claimed.
#[verifier::external_body]
pub(crate) fn push_char(s: &mut String, c: char)
    ensures
        final(s)@ == old(s)@.push(c),
{
    s.push(c);
}

/// Append the characters of `t` to `s`.
pub fn push_text(s: &mut String, t: &str)
    ensures
        final(s)@ == old(s)@ + t@,
{
    let n = t.unicode_len();
    let ghost start = s@;
    let mut i: usize = 0;
    while i < n
        invariant
            n == t@.len(),
            i <= n,
            s@ == start + t@.subrange(0, i as int),
        decreases n - i,
    {
        let c = t.get_char(i);
        push_char(s, c);
        i = i + 1;
        assert(s@ =~= start + t@.subrange(0, i as int));
    }
    assert(t@.subrange(0, n as int) =~= t@);
}

/// Append the decimal representation of `n` to `s`.
pub fn push_decimal(s: &mut String, n: u64)
    ensures
        final(s)@ == old(s)@ + decimal(n as nat),
    decreases n,
{
    let ghost start = s@;
    if n >= 10 {
        push_decimal(s, n / 10);
    }
    let c = digit(n % 10);
    push_char(s, c);
    assert(s@ =~= start + decimal(n as nat));
}

/// `a` followed by `b`, as a new string.
pub fn concat(a: &str, b: &str) -> (r: String)
    ensures
        r@ == a@ + b@,
{
    let mut s = a.to_owned();
    push_text(&mut s, b);
    s
}

/// Whether `c` is Unicode white space (the `White_Space` property, as
/// `char::is_whitespace` documents it).
pub open spec fn is_space(c: char) -> bool {
    ('\u{9}' <= c && c <= '\u{d}') || c == ' ' || c == '\u{85}' || c == '\u{a0}' || c == '\u{1680}' || ('\u{2000}'
        <= c && c <= '\u{200a}') || c == '\u{2028}' || c == '\u{2029}' || c == '\u{202f}' || c == '\u{205f}' || c
        == '\u{3000}'
}

/// Whether `c` is Unicode white space.
pub fn char_is_space(c: char) -> (r: bool)
    ensures
        r == is_space(c),
{
    ('\u{9}' <= c && c <= '\u{d}') || c == ' ' || c == '\u{85}' || c == '\u{a0}' || c == '\u{1680}' || ('\u{2000}'
        <= c && c <= '\u{200a}') || c == '\u{2028}' || c == '\u{2029}' || c == '\u{202f}' || c == '\u{205f}' || c
        == '\u{3000}'
}

/// The first index of `s` at or after `i` that is not white space (or the
/// length).
pub open spec fn skip_space(s: Seq<char>, i: nat) -> nat
    decreases s.len() - i,
{
    if i < s.len() && is_space(s[i as int]) {
        skip_space(s, i + 1)
    } else {
        i
    }
}

/// One past the last index of `s` before `j` that is not white space (or
/// `lo`).
pub open spec fn back_space(s: Seq<char>, lo: nat, j: nat) -> nat
    decreases j,
{
    if j > lo && is_space(s[j - 1]) {
        back_space(s, lo, (j - 1) as nat)
    } else {
        j
    }
}

/// `s` with leading and trailing white space removed.
pub open spec fn trimmed(s: Seq<char>) -> Seq<char> {
    let lo = skip_space(s, 0);
    s.subrange(lo as int, back_space(s, lo, s.len()) as int)
}

/// Whether `c` is an ASCII decimal digit.
pub open spec fn is_digit(c: char) -> bool {
    '0' <= c && c <= '9'
}

/// Whether every character of `d` is a decimal digit.
pub open spec fn all_digits(d: Seq<char>) -> bool {
    forall|i: int| 0 <= i < d.len() ==> is_digit(#[trigger] d[i])
}

/// The value of the decimal digits `d` (meaningful when all are digits).
pub open spec fn digits_value(d: Seq<char>) -> nat
    decreases d.len(),
{
    if d.len() == 0 {
        0
    } else {
        digits_value(d.drop_last()) * 10 + ((d.last() as u32) - 48) as nat
    }
}

/// The unsigned number `s` spells as `u32::from_str` reads it: an optional
/// `+`, then at least one decimal digit, within range.
pub open spec fn u32_of(s: Seq<char>) -> Option<u32> {
    let d = if s.len() > 0 && s[0] == '+' { s.drop_first() } else { s };
    if d.len() > 0 && all_digits(d) && digits_value(d) <= u32::MAX {
        Some(digits_value(d) as u32)
    } else {
        None
    }
}

/// The signed number `s` spells as `i32::from_str` reads it: an optional
/// `+` or `-`, then at least one decimal digit, within range.
pub open spec fn i32_of(s: Seq<char>) -> Option<i32> {
    let neg = s.len() > 0 && s[0] == '-';
    let d = if s.len() > 0 && (s[0] == '+' || s[0] == '-') { s.drop_first() } else { s };
    let v: int = if neg { -(digits_value(d) as int) } else { digits_value(d) as int };
    if d.len() > 0 && all_digits(d) && i32::MIN <= v <= i32::MAX {
        Some(v as i32)
    } else {
        None
    }
}

/// The bounds of `s` without leading and trailing white space.
pub fn trim_bounds(s: &str) -> (r: (usize, usize))
    ensures
        r.0 <= r.1 <= s@.len(),
        s@.subrange(r.0 as int, r.1 as int) == trimmed(s@),
{
    let n = s.unicode_len();
    let mut lo: usize = 0;
    while lo < n && char_is_space(s.get_char(lo))
        invariant
            n == s@.len(),
            lo <= n,
            skip_space(s@, lo as nat) == skip_space(s@, 0),
        decreases n - lo,
    {
        lo = lo + 1;
    }
    let mut hi: usize = n;
    while hi > lo && char_is_space(s.get_char(hi - 1))
        invariant
            n == s@.len(),
            lo <= hi <= n,
            lo == skip_space(s@, 0),
            back_space(s@, lo as nat, hi as nat) == back_space(s@, lo as nat, n as nat),
        decreases hi,
    {
        hi = hi - 1;
    }
    (lo, hi)
}

/// Parse `s[lo..hi]` as decimal digits into a `u64` bounded by `limit`:
/// `None` when a character is not a digit or the value exceeds `limit`.
fn digits_in(s: &str, lo: usize, hi: usize, limit: u64) -> (r: Option<u64>)
    requires
        lo <= hi <= s@.len(),
        limit <= u32::MAX + 1,
    ensures
        ({
            let d = s@.subrange(lo as int, hi as int);
            if all_digits(d) && digits_value(d) <= limit {
                r == Some(digits_value(d) as u64)
            } else {
                r is None
            }
        }),
{
    let mut v: u64 = 0;
    let mut i: usize = lo;
    while i < hi
        invariant
            lo <= i <= hi <= s@.len(),
            limit <= u32::MAX + 1,
            forall|k: int| lo <= k < i ==> is_digit(#[trigger] s@[k]),
            v == digits_value(s@.subrange(lo as int, i as int)),
            v <= limit,
        decreases hi - i,
    {
        let c = s.get_char(i);
        if !('0' <= c && c <= '9') {
            proof {
                let d = s@.subrange(lo as int, hi as int);
                assert(!is_digit(d[i - lo]));
            }
            return None;
        }
        let ghost pre = s@.subrange(lo as int, i as int);
        let dv = (c as u32 - 48) as u64;
        let nv = v * 10 + dv;
        proof {
            assert(s@.subrange(lo as int, i + 1).drop_last() =~= pre);
            assert(s@.subrange(lo as int, i + 1).last() == c);
        }
        if nv > limit {
            proof {
                let d = s@.subrange(lo as int, hi as int);
                if forall|k: int| 0 <= k < d.len() ==> is_digit(#[trigger] d[k]) {
                    lemma_digits_prefix_le(d, i + 1 - lo);
                    assert(d.subrange(0, i + 1 - lo) =~= s@.subrange(lo as int, i + 1));
                }
            }
            return None;
        }
        v = nv;
        i = i + 1;
    }
    proof {
        let d = s@.subrange(lo as int, hi as int);
        assert forall|k: int| 0 <= k < d.len() implies is_digit(#[trigger] d[k]) by {
            assert(d[k] == s@[lo + k]);
        }
    }
    Some(v)
}

/// A prefix of a digit string has no larger value than the whole.
proof fn lemma_digits_prefix_le(d: Seq<char>, k: int)
    requires
        0 <= k <= d.len(),
        forall|i: int| 0 <= i < d.len() ==> is_digit(#[trigger] d[i]),
    ensures
        digits_value(d.subrange(0, k)) <= digits_value(d),
    decreases d.len(),
{
    if k < d.len() {
        let dl = d.drop_last();
        assert forall|i: int| 0 <= i < dl.len() implies is_digit(#[trigger] dl[i]) by {
            assert(dl[i] == d[i]);
        }
        lemma_digits_prefix_le(dl, k);
        assert(dl.subrange(0, k) =~= d.subrange(0, k));
        assert(is_digit(d.last()));
    }
    assert(d.subrange(0, d.len() as int) =~= d);
}

/// Parse `s`, white space trimmed, as a `u32` the way `str::parse` does.
pub fn parse_u32_trimmed(s: &str) -> (r: Option<u32>)
    ensures
        r == u32_of(trimmed(s@)),
{
    let (lo, hi) = trim_bounds(s);
    let ghost t = trimmed(s@);
    if lo == hi {
        return None;
    }
    let mut start = lo;
    proof {
        assert(t[0] == s@[lo as int]);
    }
    if s.get_char(lo) == '+' {
        if hi - lo == 1 {
            return None;
        }
        start = lo + 1;
    }
    proof {
        if t[0] == '+' {
            assert(t.drop_first() =~= s@.subrange(start as int, hi as int));
        } else {
            assert(t =~= s@.subrange(start as int, hi as int));
        }
    }
    let parsed = digits_in(s, start, hi, 0xFFFF_FFFF);
    let ghost d = if t.len() > 0 && t[0] == '+' { t.drop_first() } else { t };
    proof {
        assert(d =~= s@.subrange(start as int, hi as int));
        assert(d.len() > 0);
    }
    match parsed {
        Some(v) => {
            assert(digits_value(d) <= u32::MAX);
            assert(v as u32 == digits_value(d) as u32);
            assert(forall|i: int| 0 <= i < d.len() ==> is_digit(#[trigger] d[i]));
            assert(u32_of(t) == Some(v as u32));
            Some(v as u32)
        },
        None => {
            assert(u32_of(t) is None);
            None
        },
    }
}

/// Parse `s`, white space trimmed, as an `i32` the way `str::parse` does.
pub fn parse_i32_trimmed(s: &str) -> (r: Option<i32>)
    ensures
        r == i32_of(trimmed(s@)),
{
    let (lo, hi) = trim_bounds(s);
    let ghost t = trimmed(s@);
    if lo == hi {
        return None;
    }
    let c0 = s.get_char(lo);
    proof {
        assert(t[0] == s@[lo as int]);
    }
    let neg = c0 == '-';
    let mut start = lo;
    if c0 == '+' || c0 == '-' {
        if hi - lo == 1 {
            return None;
        }
        start = lo + 1;
    }
    proof {
        if t[0] == '+' || t[0] == '-' {
            assert(t.drop_first() =~= s@.subrange(start as int, hi as int));
        } else {
            assert(t =~= s@.subrange(start as int, hi as int));
        }
    }
    let limit: u64 = if neg { 0x8000_0000 } else { 0x7FFF_FFFF };
    let parsed = digits_in(s, start, hi, limit);
    let ghost d = if t.len() > 0 && (t[0] == '+' || t[0] == '-') { t.drop_first() } else { t };
    proof {
        assert(d =~= s@.subrange(start as int, hi as int));
        assert(d.len() > 0);
        assert(neg == (t.len() > 0 && t[0] == '-'));
    }
    match parsed {
        Some(v) => if neg {
            assert(digits_value(d) <= 0x8000_0000);
            assert((0 - (v as i64)) as i32 == (-(digits_value(d) as int)) as i32);
            assert(forall|i: int| 0 <= i < d.len() ==> is_digit(#[trigger] d[i]));
            assert(i32_of(t) == Some((0 - (v as i64)) as i32));
            Some((0 - (v as i64)) as i32)
        } else {
            assert(digits_value(d) <= 0x7FFF_FFFF);
            assert(v as i32 == (digits_value(d) as int) as i32);
            assert(forall|i: int| 0 <= i < d.len() ==> is_digit(#[trigger] d[i]));
            assert(i32_of(t) == Some(v as i32));
            Some(v as i32)
        },
        None => None,
    }
}

} // verus!
