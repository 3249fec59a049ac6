use vstd::prelude::*;
use vstd::string::StringSliceAdditionalSpecFns;

verus! {

pub open spec fn is_digit(c: u8) -> bool {
    48 <= c <= 57
}

/// `+` or `-`.
pub open spec fn is_sign(c: u8) -> bool {
    c == 43 || c == 45
}

/// Every byte of `t[lo..hi]` is an ASCII digit.
pub open spec fn digits(t: Seq<u8>, lo: int, hi: int) -> bool {
    forall|i: int| lo <= i < hi ==> #[trigger] is_digit(t[i])
}

/// `t[lo..hi]` is an unsigned decimal numeral: digits, or digits, a point and at
/// least one digit.
pub open spec fn numeral(t: Seq<u8>, lo: int, hi: int) -> bool {
    (lo < hi && digits(t, lo, hi)) || exists|d: int|
        lo <= d < hi - 1 && #[trigger] t[d] == 46 && digits(t, lo, d) && digits(t, d + 1, hi)
}

/// `t` is a complex literal `[` sign? numeral sign numeral `i]` whose sign between
/// the real and the imaginary part stands at `p`. The real part's text is then
/// `t[1..p]` and the imaginary part's text, sign included, `t[p..len - 2]`.
pub open spec fn literal_split_at(t: Seq<u8>, p: int) -> bool {
    let n = t.len() as int;
    &&& n >= 5
    &&& t[0] == 91
    &&& t[n - 1] == 93
    &&& t[n - 2] == 105
    &&& 1 < p < n - 2
    &&& is_sign(t[p])
    &&& numeral(t, p + 1, n - 2)
    &&& (numeral(t, 1, p) || (is_sign(t[1]) && numeral(t, 2, p)))
}

proof fn lemma_numeral_unsigned(t: Seq<u8>, lo: int, hi: int, i: int)
    requires
        numeral(t, lo, hi),
        lo <= i < hi,
    ensures
        !is_sign(t[i]),
{
    if !(lo < hi && digits(t, lo, hi)) {
        let d = choose|d: int|
            lo <= d < hi - 1 && #[trigger] t[d] == 46 && digits(t, lo, d) && digits(t, d + 1, hi);
        if i < d {
            assert(is_digit(t[i]));
        } else if i > d {
            assert(is_digit(t[i]));
        }
    } else {
        assert(is_digit(t[i]));
    }
}

fn scan_numeral(t: &[u8], lo: usize, hi: usize) -> (r: bool)
    requires
        lo <= hi <= t@.len(),
    ensures
        r == numeral(t@, lo as int, hi as int),
{
    if lo >= hi {
        return false;
    }
    let mut dot: Option<usize> = None;
    let mut i: usize = lo;
    while i < hi
        invariant
            lo <= i <= hi <= t@.len(),
            lo < hi,
            match dot {
                None => digits(t@, lo as int, i as int),
                Some(d) => lo <= d < i && t@[d as int] == 46 && digits(t@, lo as int, d as int)
                    && digits(t@, d + 1, i as int),
            },
        decreases hi - i,
    {
        let c = t[i];
        if 48 <= c && c <= 57 {
        } else if c == 46 && dot.is_none() {
            dot = Some(i);
        } else {
            assert(!numeral(t@, lo as int, hi as int)) by {
                assert(!is_digit(t@[i as int]));
                if exists|d: int|
                    lo <= d < hi - 1 && #[trigger] t@[d] == 46 && digits(t@, lo as int, d)
                        && digits(t@, d + 1, hi as int) {
                    let d = choose|d: int|
                        lo <= d < hi - 1 && #[trigger] t@[d] == 46 && digits(t@, lo as int, d)
                            && digits(t@, d + 1, hi as int);
                    if c == 46 {
                        let d0 = dot.unwrap();
                        if d <= d0 {
                            assert(is_digit(t@[i as int]) || i == d);
                        } else {
                            assert(is_digit(t@[d0 as int]) || d0 == d);
                        }
                    } else {
                        assert(is_digit(t@[i as int]) || i == d);
                    }
                }
            }
            return false;
        }
        i = i + 1;
    }
    match dot {
        None => true,
        Some(d) => {
            if d + 1 < hi {
                true
            } else {
                assert(!numeral(t@, lo as int, hi as int)) by {
                    assert(!is_digit(t@[d as int]));
                    if exists|e: int|
                        lo <= e < hi - 1 && #[trigger] t@[e] == 46 && digits(t@, lo as int, e)
                            && digits(t@, e + 1, hi as int) {
                        let e = choose|e: int|
                            lo <= e < hi - 1 && #[trigger] t@[e] == 46 && digits(t@, lo as int, e)
                                && digits(t@, e + 1, hi as int);
                        assert(is_digit(t@[d as int]));
                    }
                }
                false
            }
        },
    }
}

/// Recognizes a complex literal such as `[-0.747+0.2i]` and gives the byte index of
/// the sign that separates its real and imaginary parts; `None` for any other text.
pub fn split_complex_literal(s: &str) -> (r: Option<usize>)
    ensures
        match r {
            Some(p) => literal_split_at(s.spec_bytes(), p as int),
            None => forall|p: int| !literal_split_at(s.spec_bytes(), p),
        },
{
    let t = s.as_bytes();
    let n = t.len();
    if n < 5 || t[0] != 91 || t[n - 1] != 93 || t[n - 2] != 105 {
        return None;
    }
    let mut p: usize = 2;
    while p < n - 2 && !(t[p] == 43 || t[p] == 45)
        invariant
            t@ == s.spec_bytes(),
            n == t@.len(),
            n >= 5,
            2 <= p <= n - 2,
            forall|j: int| 2 <= j < p ==> !is_sign(#[trigger] t@[j]),
        decreases n - p,
    {
        p = p + 1;
    }
    if p >= n - 2 {
        return None;
    }
    let real_ok = scan_numeral(t, 1, p) || ((t[1] == 43 || t[1] == 45) && scan_numeral(t, 2, p));
    let imag_ok = scan_numeral(t, p + 1, n - 2);
    proof {
        assert forall|q: int| #[trigger] literal_split_at(t@, q) implies q == p by {
            if q > p {
                if numeral(t@, 1, q) {
                    lemma_numeral_unsigned(t@, 1, q, p as int);
                } else {
                    lemma_numeral_unsigned(t@, 2, q, p as int);
                }
            }
        }
    }
    if real_ok && imag_ok {
        Some(p)
    } else {
        None
    }
}

} // verus!
