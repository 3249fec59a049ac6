use vstd::prelude::*;
use vstd::string::StringSliceAdditionalSpecFns;
use crate::literal::{digits, is_digit};

verus! {

/// The number that the ASCII digits `t` write in decimal.
pub open spec fn digits_value(t: Seq<u8>) -> nat
    decreases t.len(),
{
    if t.len() == 0 {
        0
    } else {
        digits_value(t.drop_last()) * 10 + (t.last() - 48) as nat
    }
}

/// `t` without the `+` that may lead it.
pub open spec fn unsigned_body(t: Seq<u8>) -> Seq<u8> {
    if t.len() > 0 && t[0] == 43 {
        t.subrange(1, t.len() as int)
    } else {
        t
    }
}

/// `t` writes an unsigned integer: an optional `+`, then at least one digit.
pub open spec fn is_unsigned_text(t: Seq<u8>) -> bool {
    let u = unsigned_body(t);
    u.len() > 0 && digits(u, 0, u.len() as int)
}

/// The unsigned integer in `t[lo..hi]` if it is one and at most `max`.
pub open spec fn unsigned_in(t: Seq<u8>, lo: int, hi: int, max: nat) -> Option<nat> {
    let piece = t.subrange(lo, hi);
    if is_unsigned_text(piece) && digits_value(unsigned_body(piece)) <= max {
        Some(digits_value(unsigned_body(piece)))
    } else {
        None
    }
}

proof fn lemma_digits_value_grows(t: Seq<u8>, i: int, j: int)
    requires
        0 <= i <= j <= t.len(),
        digits(t, 0, t.len() as int),
    ensures
        digits_value(t.subrange(0, i)) <= digits_value(t.subrange(0, j)),
    decreases j - i,
{
    if i < j {
        lemma_digits_value_grows(t, i, j - 1);
        assert(t.subrange(0, j).drop_last() =~= t.subrange(0, j - 1));
        assert(is_digit(t[j - 1]));
    }
}

/// Reads `t[lo..hi]` as an unsigned integer no greater than `max`.
fn read_unsigned(t: &[u8], lo: usize, hi: usize, max: u64) -> (r: Option<u64>)
    requires
        lo <= hi <= t@.len(),
    ensures
        match unsigned_in(t@, lo as int, hi as int, max as nat) {
            Some(v) => r == Some(v as u64),
            None => r is None,
        },
{
    let ghost piece = t@.subrange(lo as int, hi as int);
    let mut start = lo;
    if lo < hi && t[lo] == 43 {
        start = lo + 1;
    }
    let ghost body = t@.subrange(start as int, hi as int);
    assert(unsigned_body(piece) =~= body);
    if start >= hi {
        return None;
    }
    let mut acc: u128 = 0;
    let mut i: usize = start;
    while i < hi
        invariant
            lo <= start <= i <= hi <= t@.len(),
            start < hi,
            body == t@.subrange(start as int, hi as int),
            piece == t@.subrange(lo as int, hi as int),
            unsigned_body(piece) == body,
            digits(body, 0, i - start),
            acc == digits_value(body.subrange(0, i - start)),
            acc <= max,
        decreases hi - i,
    {
        let c = t[i];
        if c < 48 || c > 57 {
            assert(!is_digit(body[i - start]));
            return None;
        }
        assert(body.subrange(0, i + 1 - start).drop_last() =~= body.subrange(0, i - start));
        acc = acc * 10 + (c - 48) as u128;
        if acc > max as u128 {
            proof {
                assert(digits(body, 0, body.len() as int) ==> digits_value(body.subrange(0, i + 1 - start))
                    <= digits_value(body)) by {
                    if digits(body, 0, body.len() as int) {
                        lemma_digits_value_grows(body, i + 1 - start, body.len() as int);
                        assert(body.subrange(0, body.len() as int) =~= body);
                    }
                }
            }
            return None;
        }
        i = i + 1;
    }
    assert(body.subrange(0, body.len() as int) =~= body);
    Some(acc as u64)
}

/// Reads a `u64` as `str::parse` does: an optional `+` and decimal digits, with no overflow.
pub fn parse_u64(s: &str) -> (r: Option<u64>)
    ensures
        match unsigned_in(s.spec_bytes(), 0, s.spec_bytes().len() as int, u64::MAX as nat) {
            Some(v) => r == Some(v as u64),
            None => r is None,
        },
{
    let t = s.as_bytes();
    read_unsigned(t, 0, t.len(), u64::MAX)
}

/// Reads a `u32` as `str::parse` does: an optional `+` and decimal digits, with no overflow.
pub fn parse_u32(s: &str) -> (r: Option<u32>)
    ensures
        match unsigned_in(s.spec_bytes(), 0, s.spec_bytes().len() as int, u32::MAX as nat) {
            Some(v) => r == Some(v as u32),
            None => r is None,
        },
{
    let t = s.as_bytes();
    match read_unsigned(t, 0, t.len(), u32::MAX as u64) {
        Some(v) => Some(v as u32),
        None => None,
    }
}

/// Index of the first `sep` in `t` at or after `from`, or `t.len()` if none.
pub open spec fn next_sep(t: Seq<u8>, sep: u8, from: int) -> int
    decreases t.len() - from,
{
    if from >= t.len() {
        t.len() as int
    } else if t[from] == sep {
        from
    } else {
        next_sep(t, sep, from + 1)
    }
}

/// Two sizes written `first<sep>second`, as in `16:9` or `1920x1080`: the text
/// before the first `sep` and the text from there to the next `sep` (or the end)
/// each read as a `u32`. `None` when `sep` does not occur or either part does not read.
pub open spec fn pair_of(t: Seq<u8>, sep: u8) -> Option<(u32, u32)> {
    let i = next_sep(t, sep, 0);
    let j = next_sep(t, sep, i + 1);
    if i >= t.len() {
        None
    } else {
        match (unsigned_in(t, 0, i, u32::MAX as nat), unsigned_in(t, i + 1, j, u32::MAX as nat)) {
            (Some(a), Some(b)) => Some((a as u32, b as u32)),
            _ => None,
        }
    }
}

fn find_sep(t: &[u8], sep: u8, from: usize) -> (r: usize)
    requires
        from <= t@.len(),
    ensures
        r == next_sep(t@, sep, from as int),
        from <= r <= t@.len(),
{
    let mut i = from;
    while i < t.len() && t[i] != sep
        invariant
            from <= i <= t@.len(),
            next_sep(t@, sep, i as int) == next_sep(t@, sep, from as int),
        decreases t@.len() - i,
    {
        i = i + 1;
    }
    i
}

/// Reads two sizes separated by `sep`, such as an aspect ratio `16:9` or
/// dimensions `1920x1080`.
pub fn parse_pair(value: &str, sep: u8) -> (r: Option<(u32, u32)>)
    ensures
        r == pair_of(value.spec_bytes(), sep),
{
    let t = value.as_bytes();
    let i = find_sep(t, sep, 0);
    if i >= t.len() {
        return None;
    }
    let j = find_sep(t, sep, i + 1);
    match (read_unsigned(t, 0, i, u32::MAX as u64), read_unsigned(t, i + 1, j, u32::MAX as u64)) {
        (Some(a), Some(b)) => Some((a as u32, b as u32)),
        _ => None,
    }
}

} // verus!
