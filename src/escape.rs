use vstd::prelude::*;
use crate::fraction::Fraction;

verus! {

/// Escape counts are divided by this, whatever the iteration bound.
pub const NORMALIZER: u32 = 255;

/// The count the evaluator records for an orbit that first exceeds modulus 2 at
/// check `k` (`Some(k)`), or never within `max_iter` checks (`None`). The count is
/// the index of the last iteration that updated the orbit: `k - 1`, or 0 when the
/// very first check escapes, and `max_iter - 1` when nothing escapes.
pub open spec fn recorded_count(first_escape: Option<u32>, max_iter: u32) -> int {
    match first_escape {
        Some(k) => if k == 0 {
            0
        } else {
            k - 1
        },
        None => if max_iter == 0 {
            0
        } else {
            max_iter - 1
        },
    }
}

/// The normalized escape strength: the recorded count over 255.
pub open spec fn strength_of(first_escape: Option<u32>, max_iter: u32) -> Fraction {
    Fraction { num: recorded_count(first_escape, max_iter) as u32, den: NORMALIZER }
}

/// An escape index is one of the `max_iter` checks.
pub open spec fn escape_in_bound(first_escape: Option<u32>, max_iter: u32) -> bool {
    match first_escape {
        Some(k) => k < max_iter,
        None => true,
    }
}

/// The iteration count recorded for an orbit, given where it first escaped.
pub fn escape_count(first_escape: Option<u32>, max_iter: u32) -> (r: u32)
    requires
        escape_in_bound(first_escape, max_iter),
    ensures
        r == recorded_count(first_escape, max_iter),
        r < max_iter || r == 0,
{
    match first_escape {
        Some(k) => if k == 0 {
            0
        } else {
            k - 1
        },
        None => if max_iter == 0 {
            0
        } else {
            max_iter - 1
        },
    }
}

/// The escape strength of an orbit: its recorded count over 255. It lies in
/// `[0, 1]` whenever `max_iter` is at most 256.
pub fn escape_strength(first_escape: Option<u32>, max_iter: u32) -> (r: Fraction)
    requires
        escape_in_bound(first_escape, max_iter),
    ensures
        r == strength_of(first_escape, max_iter),
        r.wf(),
        max_iter <= 256 ==> r.in_unit(),
{
    Fraction::new(escape_count(first_escape, max_iter), NORMALIZER)
}

/// A point that escapes at an earlier check never gets a greater strength than one
/// that escapes at a later check, and no escaping point gets more than one that
/// never escapes.
pub proof fn lemma_strength_monotone(j: u32, k: u32, max_iter: u32)
    requires
        j <= k < max_iter,
    ensures
        strength_of(Some(j), max_iter).le(strength_of(Some(k), max_iter)),
        strength_of(Some(k), max_iter).le(strength_of(None, max_iter)),
{
    let a = recorded_count(Some(j), max_iter);
    let b = recorded_count(Some(k), max_iter);
    let c = recorded_count(None, max_iter);
    assert(0 <= a <= b <= c < 0x1_0000_0000);
    assert(a * 255 <= b * 255 && b * 255 <= c * 255) by (nonlinear_arith)
        requires
            a <= b <= c,
    ;
}

} // verus!
