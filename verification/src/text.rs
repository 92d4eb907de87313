//! Byte-level text utilities for the status engine: substring extraction,
//! pattern search, decimal parsing and rendering, and ASCII decoding.

use vstd::prelude::*;
use vstd::string::{StrSliceExecFns, StringExecFns};

verus! {

/// An ASCII decimal digit.
pub open spec fn is_digit(b: u8) -> bool {
    48 <= b <= 57
}

/// Every byte of `s` is an ASCII decimal digit.
pub open spec fn all_digits(s: Seq<u8>) -> bool {
    forall|i: int| 0 <= i < s.len() ==> is_digit(#[trigger] s[i])
}

/// The numeric value of a most-significant-first digit string.
pub open spec fn digits_val(s: Seq<u8>) -> nat
    decreases s.len(),
{
    if s.len() == 0 {
        0
    } else {
        (digits_val(s.drop_last()) * 10 + (s.last() - 48)) as nat
    }
}

/// Extending a digit string on the right never decreases its value.
proof fn lemma_digits_val_prefix(s: Seq<u8>, i: int)
    requires
        0 <= i <= s.len(),
        all_digits(s),
    ensures
        digits_val(s.take(i)) <= digits_val(s),
    decreases s.len() - i,
{
    if i < s.len() {
        lemma_digits_val_prefix(s, i + 1);
        assert(s.take(i + 1).drop_last() =~= s.take(i));
        assert(digits_val(s.take(i + 1)) == digits_val(s.take(i)) * 10 + (s[i] - 48));
    } else {
        assert(s.take(i) =~= s);
    }
}

/// Parses a non-empty all-digit byte string as a base-10 number.
/// Returns `None` when the input is empty, holds a non-digit, or encodes a
/// value that does not fit in a `u64`.
pub fn parse_u64(s: &[u8]) -> (r: Option<u64>)
    ensures
        r is Some <==> s@.len() > 0 && all_digits(s@) && digits_val(s@) <= u64::MAX,
        r is Some ==> r->0 == digits_val(s@),
{
    if s.len() == 0 {
        return None;
    }
    let mut acc: u64 = 0;
    let mut i: usize = 0;
    while i < s.len()
        invariant
            0 <= i <= s@.len(),
            all_digits(s@.take(i as int)),
            acc == digits_val(s@.take(i as int)),
        decreases s@.len() - i,
    {
        let b = s[i];
        if b < 48 || b > 57 {
            assert(!all_digits(s@)) by {
                assert(!is_digit(s@[i as int]));
            }
            return None;
        }
        let mul = acc.checked_mul(10);
        let step = match mul {
            Some(m) => m.checked_add((b - 48) as u64),
            None => None,
        };
        proof {
            assert(s@.take(i + 1).drop_last() =~= s@.take(i as int));
            assert(s@.take(i + 1).last() == s@[i as int]);
            assert(digits_val(s@.take(i + 1)) == acc * 10 + (b - 48));
            assert forall|k: int| 0 <= k < i + 1 implies is_digit(#[trigger] s@.take(i + 1)[k]) by {
                if k < i {
                    assert(is_digit(s@.take(i as int)[k]));
                }
            }
        }
        match step {
            Some(v) => {
                acc = v;
            },
            None => {
                proof {
                    assert(digits_val(s@.take(i + 1)) > u64::MAX);
                    if all_digits(s@) {
                        lemma_digits_val_prefix(s@, i + 1);
                    }
                }
                return None;
            },
        }
        i = i + 1;
    }
    assert(s@.take(i as int) =~= s@);
    Some(acc)
}

/// The byte sequence of `s` between `a` (inclusive) and `b` (exclusive).
pub fn sub_bytes(s: &[u8], a: usize, b: usize) -> (v: Vec<u8>)
    requires
        a <= b <= s@.len(),
    ensures
        v@ == s@.subrange(a as int, b as int),
{
    let mut v: Vec<u8> = Vec::new();
    let mut i: usize = a;
    while i < b
        invariant
            a <= i <= b <= s@.len(),
            v@ =~= s@.subrange(a as int, i as int),
        decreases b - i,
    {
        v.push(s[i]);
        assert(v@ =~= s@.subrange(a as int, i + 1));
        i = i + 1;
    }
    v
}

/// The pattern `p` occurs in `s` starting at position `i`.
pub open spec fn match_at(s: Seq<u8>, p: Seq<u8>, i: int) -> bool {
    0 <= i && i + p.len() <= s.len() && s.subrange(i, i + p.len() as int) == p
}

/// The first position at or after `from` where `p` occurs in `s`, or -1.
/// The empty pattern is never found.
pub open spec fn find_pat_from(s: Seq<u8>, p: Seq<u8>, from: int) -> int
    decreases s.len() - from,
{
    if from < 0 || p.len() == 0 || from + p.len() > s.len() {
        -1
    } else if match_at(s, p, from) {
        from
    } else {
        find_pat_from(s, p, from + 1)
    }
}

/// What `find_pat_from` returns: either -1 and no occurrence at or after
/// `from`, or the first occurrence position.
pub proof fn lemma_find_pat_from(s: Seq<u8>, p: Seq<u8>, from: int)
    requires
        from >= 0,
        p.len() >= 1,
    ensures
        find_pat_from(s, p, from) == -1 || find_pat_from(s, p, from) >= from,
        find_pat_from(s, p, from) == -1 ==> forall|k: int| from <= k ==> !match_at(s, p, k),
        find_pat_from(s, p, from) >= 0 ==> match_at(s, p, find_pat_from(s, p, from))
            && from <= find_pat_from(s, p, from)
            && forall|k: int| from <= k < find_pat_from(s, p, from) ==> !match_at(s, p, k),
    decreases s.len() - from,
{
    if from + p.len() > s.len() {
        assert forall|k: int| from <= k implies !match_at(s, p, k) by {}
    } else if match_at(s, p, from) {
    } else {
        lemma_find_pat_from(s, p, from + 1);
    }
}

/// Whether `p` occurs in `s` starting exactly at `i`.
pub fn is_match_at(s: &[u8], p: &[u8], i: usize) -> (r: bool)
    requires
        i + p@.len() <= s@.len(),
    ensures
        r == match_at(s@, p@, i as int),
{
    let n = s.len();
    let m = p.len();
    let mut j: usize = 0;
    while j < m
        invariant
            0 <= j <= m,
            m == p@.len(),
            n == s@.len(),
            i + m <= n,
            forall|k: int| 0 <= k < j ==> s@[i + k] == p@[k],
        decreases m - j,
    {
        if s[i + j] != p[j] {
            assert(s@.subrange(i as int, i + p@.len() as int)[j as int] != p@[j as int]);
            return false;
        }
        j = j + 1;
    }
    assert(s@.subrange(i as int, i + p@.len() as int) =~= p@);
    true
}

/// The first occurrence of pattern `p` in `s` at or after `from`, as
/// `find_pat_from` defines it; `None` stands for -1.
pub fn find_pat(s: &[u8], p: &[u8], from: usize) -> (r: Option<usize>)
    requires
        p@.len() >= 1,
    ensures
        r is Some ==> find_pat_from(s@, p@, from as int) == r->0 as int,
        r is None ==> find_pat_from(s@, p@, from as int) == -1,
{
    let n = s.len();
    let m = p.len();
    if n < m || from > n - m {
        assert(from as int + p@.len() > s@.len());
        return None;
    }
    let mut i: usize = from;
    while i <= n - m
        invariant
            from <= i <= n - m + 1,
            1 <= m == p@.len(),
            m <= n == s@.len(),
            find_pat_from(s@, p@, from as int) == find_pat_from(s@, p@, i as int),
        decreases n - i,
    {
        if is_match_at(s, p, i) {
            return Some(i);
        }
        i = i + 1;
    }
    assert(i as int + p@.len() > s@.len());
    assert(find_pat_from(s@, p@, i as int) == -1);
    None
}

/// The single-byte newline pattern.
pub open spec fn nl_pat() -> Seq<u8> {
    seq![10u8]
}

/// Every byte of `s` is ASCII.
pub open spec fn all_ascii(s: Seq<u8>) -> bool {
    forall|i: int| 0 <= i < s.len() ==> #[trigger] s[i] < 128
}

/// The character sequence that an ASCII byte sequence spells.
pub open spec fn ascii_chars(s: Seq<u8>) -> Seq<char> {
    Seq::new(s.len(), |i: int| s[i] as char)
}

/// The characters that a byte sequence decodes to under strict UTF-8
/// decoding, or nothing when the bytes are not valid UTF-8. The result is a
/// function of the bytes alone.
pub uninterp spec fn utf8_decode(v: Seq<u8>) -> Option<Seq<char>>;

/// Relies on `String::from_utf8`: decodes the bytes as UTF-8, failing exactly
/// on invalid UTF-8; the result depends on the bytes alone, and every ASCII
/// byte decodes to the character with the same code point.
#[verifier::external_body]
pub fn utf8_to_string(v: Vec<u8>) -> (r: Option<String>)
    ensures
        (r is Some) == (utf8_decode(v@) is Some),
        r is Some ==> r.unwrap()@ == utf8_decode(v@).unwrap(),
        all_ascii(v@) ==> r is Some && r.unwrap()@ == ascii_chars(v@),
{
    String::from_utf8(v).ok()
}

/// The characters that a byte sequence decodes to under lossy UTF-8 decoding:
/// invalid sequences become replacement characters. The result is a function
/// of the bytes alone.
pub uninterp spec fn utf8_lossy(v: Seq<u8>) -> Seq<char>;

/// Relies on `String::from_utf8_lossy`: decodes the bytes as UTF-8 with
/// replacement characters for invalid sequences; the result depends on the
/// bytes alone, and every ASCII byte decodes to the character with the same
/// code point.
#[verifier::external_body]
pub fn utf8_lossy_string(v: &Vec<u8>) -> (r: String)
    ensures
        r@ == utf8_lossy(v@),
        all_ascii(v@) ==> r@ == ascii_chars(v@),
{
    String::from_utf8_lossy(v.as_slice()).into_owned()
}

/// The characters of `s` with every occurrence of `c` removed, in order.
pub open spec fn without_char(s: Seq<char>, c: char) -> Seq<char>
    decreases s.len(),
{
    if s.len() == 0 {
        Seq::empty()
    } else if s.last() == c {
        without_char(s.drop_last(), c)
    } else {
        without_char(s.drop_last(), c).push(s.last())
    }
}

/// Relies on `String::push`: appends exactly the one character.
#[verifier::external_body]
fn push_char(s: &mut String, c: char)
    ensures
        final(s)@ == old(s)@.push(c),
{
    s.push(c);
}

/// Removes every occurrence of the character `c` from `s`.
pub fn remove_char(s: &str, c: char) -> (r: String)
    ensures
        r@ == without_char(s@, c),
{
    let n = s.unicode_len();
    let mut r = String::new();
    let mut i: usize = 0;
    while i < n
        invariant
            0 <= i <= n == s@.len(),
            r@ == without_char(s@.take(i as int), c),
        decreases n - i,
    {
        proof {
            assert(s@.take(i + 1).drop_last() =~= s@.take(i as int));
            assert(s@.take(i + 1).last() == s@[i as int]);
        }
        let ch = s.get_char(i);
        if ch != c {
            push_char(&mut r, ch);
        }
        i = i + 1;
    }
    proof {
        assert(s@.take(s@.len() as int) =~= s@);
    }
    r
}

/// The decimal digit character for a value below ten.
pub open spec fn digit_char(d: nat) -> char {
    if d == 0 { '0' }
    else if d == 1 { '1' }
    else if d == 2 { '2' }
    else if d == 3 { '3' }
    else if d == 4 { '4' }
    else if d == 5 { '5' }
    else if d == 6 { '6' }
    else if d == 7 { '7' }
    else if d == 8 { '8' }
    else { '9' }
}

/// The decimal rendering of `n`, most significant digit first, no leading
/// zeros (a single zero digit for zero).
pub open spec fn dec_chars(n: nat) -> Seq<char>
    decreases n,
{
    if n < 10 {
        seq![digit_char(n)]
    } else {
        dec_chars(n / 10).push(digit_char(n % 10))
    }
}

/// The one-character string for a single decimal digit.
fn digit_str(d: u64) -> (r: &'static str)
    requires
        d < 10,
    ensures
        r@ == seq![digit_char(d as nat)],
{
    proof {
        reveal_strlit("0");
        reveal_strlit("1");
        reveal_strlit("2");
        reveal_strlit("3");
        reveal_strlit("4");
        reveal_strlit("5");
        reveal_strlit("6");
        reveal_strlit("7");
        reveal_strlit("8");
        reveal_strlit("9");
    }
    if d == 0 { "0" }
    else if d == 1 { "1" }
    else if d == 2 { "2" }
    else if d == 3 { "3" }
    else if d == 4 { "4" }
    else if d == 5 { "5" }
    else if d == 6 { "6" }
    else if d == 7 { "7" }
    else if d == 8 { "8" }
    else { "9" }
}

/// Renders `n` in decimal.
pub fn u64_to_dec(n: u64) -> (r: String)
    ensures
        r@ == dec_chars(n as nat),
    decreases n,
{
    if n < 10 {
        String::from_str(digit_str(n))
    } else {
        let mut s = u64_to_dec(n / 10);
        s.append(digit_str(n % 10));
        proof {
            assert(s@ =~= dec_chars((n / 10) as nat).push(digit_char((n % 10) as nat)));
        }
        s
    }
}

} // verus!
