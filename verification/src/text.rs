//! Text utilities: lossy decoding of raw bytes, and verified helpers for
//! scanning and parsing decoded lines.
//!
//! The remote peer's encoding is not guaranteed well-formed, so raw line
//! bytes are decoded with a replacement strategy that never fails; the
//! decoded characters are named by the uninterpreted function [`lossy_of`].
//! Everything downstream of the decode is ordinary verified code over
//! `Seq<char>`.

use vstd::prelude::*;
use vstd::string::StrSliceExecFns;

verus! {

/// The characters that replacement-based decoding yields for a byte
/// sequence.  A function of the bytes alone.
pub uninterp spec fn lossy_of(bytes: Seq<u8>) -> Seq<char>;

/// Relies on `String::from_utf8_lossy`: the result is a function of the bytes
/// alone; decoding nothing yields nothing; bytes that are all ASCII are valid
/// UTF-8 and decode to exactly the corresponding characters.
#[verifier::external_body]
pub(crate) fn lossy_decode(bytes: &[u8]) -> (r: String)
    ensures
        r@ == lossy_of(bytes@),
        bytes@.len() == 0 ==> r@.len() == 0,
        (forall|i: int| 0 <= i < bytes@.len() ==> bytes@[i] < 128) ==> r@ == Seq::new(
            bytes@.len(),
            |i: int| bytes@[i] as char,
        ),
{
    String::from_utf8_lossy(bytes).into_owned()
}

/// Whether `c` is an ASCII decimal digit.
pub open spec fn is_digit(c: char) -> bool {
    '0' <= c && c <= '9'
}

/// The numeric value of one decimal digit.
pub open spec fn digit_val(c: char) -> nat
    recommends
        is_digit(c),
{
    (c as u32 - '0' as u32) as nat
}

/// The value of a decimal digit string, most significant digit first.
pub open spec fn digits_value(s: Seq<char>) -> nat
    decreases s.len(),
{
    if s.len() == 0 {
        0
    } else {
        digits_value(s.drop_last()) * 10 + digit_val(s.last())
    }
}

/// Whether `s` is a non-empty run of decimal digits.
pub open spec fn all_digits(s: Seq<char>) -> bool {
    s.len() > 0 && forall|i: int| 0 <= i < s.len() ==> is_digit(s[i])
}

/// The value a decimal field denotes, if it is well-formed and fits.
pub open spec fn parse_u64_spec(s: Seq<char>) -> Option<u64> {
    if all_digits(s) && digits_value(s) <= u64::MAX {
        Some(digits_value(s) as u64)
    } else {
        None
    }
}

/// The index of the first occurrence of `c` in `s` at or after `from`, or
/// `s.len()` if there is none.
pub open spec fn first_at(s: Seq<char>, c: char, from: int) -> int
    decreases s.len() - from,
{
    if from < 0 || from >= s.len() {
        s.len() as int
    } else if s[from] == c {
        from
    } else {
        first_at(s, c, from + 1)
    }
}

/// `first_at` stays within bounds, points at an occurrence of `c` when it is
/// not the end, and nothing between `from` and it is `c`.
pub proof fn lemma_first_at_bounds(s: Seq<char>, c: char, from: int)
    requires
        0 <= from <= s.len(),
    ensures
        from <= first_at(s, c, from) <= s.len(),
        first_at(s, c, from) < s.len() ==> s[first_at(s, c, from)] == c,
        forall|j: int| from <= j < first_at(s, c, from) ==> s[j] != c,
    decreases s.len() - from,
{
    if from < s.len() && s[from] != c {
        lemma_first_at_bounds(s, c, from + 1);
    }
}

/// If everything from `from` up to `hit` differs from `c` and `s[hit] == c`,
/// the first occurrence at or after `from` is `hit`.
proof fn lemma_first_at_hit(s: Seq<char>, c: char, from: int, hit: int)
    requires
        0 <= from <= hit < s.len(),
        s[hit] == c,
        forall|j: int| from <= j < hit ==> s[j] != c,
    ensures
        first_at(s, c, from) == hit,
    decreases hit - from,
{
    if from < hit {
        lemma_first_at_hit(s, c, from + 1, hit);
    }
}

/// If nothing at or after `from` is `c`, the search runs to the end.
proof fn lemma_first_at_miss(s: Seq<char>, c: char, from: int)
    requires
        0 <= from <= s.len(),
        forall|j: int| from <= j < s.len() ==> s[j] != c,
    ensures
        first_at(s, c, from) == s.len(),
    decreases s.len() - from,
{
    if from < s.len() {
        lemma_first_at_miss(s, c, from + 1);
    }
}

/// Find the first occurrence of `c` in `s` at or after `from`.
pub fn find_char(s: &str, c: char, from: usize) -> (r: usize)
    requires
        from <= s@.len(),
    ensures
        r == first_at(s@, c, from as int),
{
    let len = s.unicode_len();
    let mut i: usize = from;
    while i < len
        invariant
            len == s@.len(),
            from <= i <= len,
            forall|j: int| from <= j < i ==> s@[j] != c,
        decreases len - i,
    {
        if s.get_char(i) == c {
            proof {
                lemma_first_at_hit(s@, c, from as int, i as int);
            }
            return i;
        }
        i = i + 1;
    }
    proof {
        lemma_first_at_miss(s@, c, from as int);
    }
    len
}

/// Whether `p` is a prefix of `s`.
pub open spec fn has_prefix(s: Seq<char>, p: Seq<char>) -> bool {
    p.len() <= s.len() && s.subrange(0, p.len() as int) == p
}

/// Decide whether `p` is a prefix of `s`, character by character.
pub fn starts_with_chars(s: &str, p: &str) -> (r: bool)
    ensures
        r == has_prefix(s@, p@),
{
    let slen = s.unicode_len();
    let plen = p.unicode_len();
    if plen > slen {
        return false;
    }
    let mut j: usize = 0;
    while j < plen
        invariant
            slen == s@.len(),
            plen == p@.len(),
            plen <= slen,
            j <= plen,
            forall|k: int| 0 <= k < j ==> s@[k] == p@[k],
        decreases plen - j,
    {
        if s.get_char(j) != p.get_char(j) {
            proof {
                assert(s@.subrange(0, plen as int)[j as int] != p@[j as int]);
            }
            return false;
        }
        j = j + 1;
    }
    proof {
        assert(s@.subrange(0, plen as int) =~= p@);
    }
    true
}

/// The correlation tag of a marker line: the second whitespace-separated
/// field after the marker prefix of length `mlen`, read as a decimal, or
/// `None` when that field is missing, malformed, or too large.
pub open spec fn marker_seq_spec(line: Seq<char>, mlen: int) -> Option<u64>
    recommends
        0 <= mlen <= line.len(),
{
    let sp1 = first_at(line, ' ', mlen);
    if sp1 == line.len() {
        None
    } else {
        let sp2 = first_at(line, ' ', sp1 + 1);
        parse_u64_spec(line.subrange(sp1 + 1, sp2))
    }
}

/// Read the correlation tag of a marker line whose marker prefix has length
/// `mlen`.
pub fn marker_seq_exec(line: &str, mlen: usize) -> (r: Option<u64>)
    requires
        mlen <= line@.len(),
    ensures
        r == marker_seq_spec(line@, mlen as int),
{
    let len = line.unicode_len();
    let sp1 = find_char(line, ' ', mlen);
    proof {
        lemma_first_at_bounds(line@, ' ', mlen as int);
    }
    if sp1 == len {
        return None;
    }
    let sp2 = find_char(line, ' ', sp1 + 1);
    proof {
        lemma_first_at_bounds(line@, ' ', sp1 as int + 1);
    }
    parse_u64(line, sp1 + 1, sp2)
}

/// Parse the decimal field `s[from..to]` as a `u64`.
///
/// Returns `None` when the field is empty, holds a non-digit, or denotes a
/// value above `u64::MAX`.
pub fn parse_u64(s: &str, from: usize, to: usize) -> (r: Option<u64>)
    requires
        from <= to <= s@.len(),
    ensures
        r == parse_u64_spec(s@.subrange(from as int, to as int)),
{
    let ghost field = s@.subrange(from as int, to as int);
    if from == to {
        proof {
            assert(!all_digits(field));
        }
        return None;
    }
    // `acc` tracks the value of the digits seen so far, saturated at one more
    // than the largest value that still fits.
    let cap: u128 = (u64::MAX as u128) + 1;
    let mut acc: u128 = 0;
    let mut i: usize = from;
    while i < to
        invariant
            from <= i <= to <= s@.len(),
            field == s@.subrange(from as int, to as int),
            forall|j: int| from <= j < i ==> is_digit(s@[j]),
            cap == (u64::MAX as u128) + 1,
            acc <= cap,
            acc == if digits_value(field.subrange(0, i - from)) <= cap {
                digits_value(field.subrange(0, i - from)) as u128
            } else {
                cap
            },
        decreases to - i,
    {
        let c = s.get_char(i);
        let cu: u32 = c as u32;
        if cu < 48 || cu > 57 {
            proof {
                assert(field[i - from] == c);
                assert(!is_digit(c));
                assert(!all_digits(field));
            }
            return None;
        }
        let d: u128 = (cu - 48) as u128;
        let ghost prefix = field.subrange(0, i - from);
        let ghost longer = field.subrange(0, i + 1 - from);
        proof {
            assert(longer.drop_last() =~= prefix);
            assert(longer.last() == c);
            assert(digits_value(longer) == digits_value(prefix) * 10 + digit_val(c));
            assert(d == digit_val(c));
        }
        if acc == cap {
            proof {
                // The digits seen so far already exceed the cap, so the
                // longer prefix does too.
                assert(digits_value(prefix) * 10 >= digits_value(prefix));
            }
        } else {
            let t: u128 = acc * 10 + d;
            if t > cap {
                acc = cap;
            } else {
                acc = t;
            }
        }
        i = i + 1;
    }
    proof {
        assert(field.subrange(0, to - from) =~= field);
        assert(all_digits(field));
    }
    if acc <= u64::MAX as u128 {
        Some(acc as u64)
    } else {
        None
    }
}

} // verus!
