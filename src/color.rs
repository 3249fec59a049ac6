use vstd::prelude::*;
use vstd::arithmetic::div_mod::{lemma_div_denominator, lemma_div_is_ordered, lemma_div_multiples_vanish};
use crate::fraction::Fraction;
use crate::palette::{Palette, Rgb};

verus! {

/// Gradient stops are multiples of one twenty-fifth: 0, 0.32, 0.44, 0.8 and 1.
pub const STOP_SCALE: u64 = 25;

/// Position of stop `i`, in twenty-fifths.
pub open spec fn stop(i: int) -> int {
    if i <= 0 {
        0
    } else if i == 1 {
        8
    } else if i == 2 {
        11
    } else if i == 3 {
        20
    } else {
        25
    }
}

/// `s` lies between stop `i` and stop `i + 1`, both ends included.
pub open spec fn in_segment(s: Fraction, i: int) -> bool {
    stop(i) * s.den <= 25 * s.num <= stop(i + 1) * s.den
}

/// The last segment that holds `s`: where `s` sits on a shared stop, the later one.
pub open spec fn segment_of(s: Fraction) -> int {
    if in_segment(s, 3) {
        3
    } else if in_segment(s, 2) {
        2
    } else if in_segment(s, 1) {
        1
    } else {
        0
    }
}

/// The fraction of the way from stop `i` to stop `i + 1` is `amt_num / amt_den`.
pub open spec fn amt_num(s: Fraction, i: int) -> int {
    25 * s.num - stop(i) * s.den
}

pub open spec fn amt_den(s: Fraction, i: int) -> int {
    (stop(i + 1) - stop(i)) * s.den
}

/// `c0 + (an / ad) * (c1 - c0)`, multiplied by `ad`.
pub open spec fn lerp_scaled(c0: int, c1: int, an: int, ad: int) -> int {
    c0 * ad + an * (c1 - c0)
}

/// `x + (bn / bd) * (y - x)` truncated, where `x = pa / ad` and `y = pb / ad`.
pub open spec fn mix_floor(pa: int, pb: int, ad: int, bn: int, bd: int) -> int {
    (pa * bd + bn * (pb - pa)) / (ad * bd)
}

/// Channel `ch` of palette `p` at `s`, multiplied by the segment's `amt_den`.
pub open spec fn gradient_scaled(p: Palette, s: Fraction, ch: int) -> int {
    let i = segment_of(s);
    lerp_scaled(p[i][ch] as int, p[i + 1][ch] as int, amt_num(s, i), amt_den(s, i))
}

/// Channel `ch` of the single-palette gradient of `p` at `s`, truncated.
pub open spec fn interpolate(p: Palette, s: Fraction, ch: int) -> int {
    gradient_scaled(p, s, ch) / amt_den(s, segment_of(s))
}

/// Channel `ch` of the colour at `s` with palettes `a` and `b` cross-faded by `blend`.
pub open spec fn blended(s: Fraction, blend: Fraction, a: Palette, b: Palette, ch: int) -> int {
    mix_floor(
        gradient_scaled(a, s, ch),
        gradient_scaled(b, s, ch),
        amt_den(s, segment_of(s)),
        blend.num as int,
        blend.den as int,
    )
}

fn stop_at(i: usize) -> (r: u64)
    requires
        i <= 4,
    ensures
        r == stop(i as int),
{
    if i == 0 {
        0
    } else if i == 1 {
        8
    } else if i == 2 {
        11
    } else if i == 3 {
        20
    } else {
        25
    }
}

fn holds_segment(s: Fraction, i: usize) -> (r: bool)
    requires
        i < 4,
    ensures
        r == in_segment(s, i as int),
{
    let lo = stop_at(i) * s.den as u64;
    let hi = stop_at(i + 1) * s.den as u64;
    let v = STOP_SCALE * s.num as u64;
    lo <= v && v <= hi
}

/// The gradient segment that holds `s`; the later one where two share a stop.
pub fn segment_index(s: Fraction) -> (r: usize)
    requires
        s.in_unit(),
    ensures
        r < 4,
        r == segment_of(s),
        in_segment(s, r as int),
{
    let mut i: usize = 4;
    while i > 1
        invariant
            1 <= i <= 4,
            forall|j: int| i <= j < 4 ==> !in_segment(s, j),
        decreases i,
    {
        i = i - 1;
        if holds_segment(s, i) {
            return i;
        }
    }
    assert(!in_segment(s, 1) && !in_segment(s, 2) && !in_segment(s, 3));
    0
}

proof fn lemma_segment_amount(s: Fraction, i: int)
    requires
        s.in_unit(),
        0 <= i < 4,
        in_segment(s, i),
    ensures
        0 <= amt_num(s, i) <= amt_den(s, i),
        0 < amt_den(s, i) <= 9 * s.den,
        stop(i) * s.den <= 25 * s.num,
        (stop(i + 1) - stop(i)) * s.den == amt_den(s, i),
{
    if i == 0 {
        assert(stop(0) == 0 && stop(1) == 8);
        assert(amt_den(s, i) == 8 * s.den);
    } else if i == 1 {
        assert(stop(1) == 8 && stop(2) == 11);
        assert(amt_den(s, i) == 3 * s.den);
    } else if i == 2 {
        assert(stop(2) == 11 && stop(3) == 20);
        assert(amt_den(s, i) == 9 * s.den);
    } else {
        assert(stop(3) == 20 && stop(4) == 25);
        assert(amt_den(s, i) == 5 * s.den);
    }
}

proof fn lemma_lerp_bounds(c0: int, c1: int, an: int, ad: int)
    requires
        0 <= c0 <= 255,
        0 <= c1 <= 255,
        0 <= an <= ad,
    ensures
        0 <= lerp_scaled(c0, c1, an, ad) <= 255 * ad,
{
    assert(0 <= c0 * ad + an * (c1 - c0) <= 255 * ad) by (nonlinear_arith)
        requires
            0 <= c0 <= 255,
            0 <= c1 <= 255,
            0 <= an <= ad,
    ;
}

proof fn lemma_mix_bounds(pa: int, pb: int, ad: int, bn: int, bd: int)
    requires
        0 <= pa <= 255 * ad,
        0 <= pb <= 255 * ad,
        0 < ad,
        0 <= bn <= bd,
        0 < bd,
    ensures
        0 <= pa * bd + bn * (pb - pa) <= 255 * (ad * bd),
        0 <= mix_floor(pa, pb, ad, bn, bd) <= 255,
{
    let n = pa * bd + bn * (pb - pa);
    let d = ad * bd;
    assert(0 <= n <= 255 * d && d > 0) by (nonlinear_arith)
        requires
            0 <= pa <= 255 * ad,
            0 <= pb <= 255 * ad,
            0 < ad,
            0 <= bn <= bd,
            0 < bd,
            n == pa * bd + bn * (pb - pa),
            d == ad * bd,
    ;
    lemma_div_is_ordered(0, n, d);
    lemma_div_is_ordered(n, 255 * d, d);
    lemma_div_multiples_vanish(255, d);
    assert(255 * d == d * 255);
}

/// One channel: `(pa * bd + bn * (pb - pa)) / (ad * bd)` computed exactly.
fn mix_channel(c0a: u8, c1a: u8, c0b: u8, c1b: u8, an: u64, ad: u64, bn: u32, bd: u32) -> (r: u8)
    requires
        an <= ad,
        0 < ad <= 0x10_0000_0000,
        bn <= bd,
        0 < bd,
    ensures
        r as int == mix_floor(
            lerp_scaled(c0a as int, c1a as int, an as int, ad as int),
            lerp_scaled(c0b as int, c1b as int, an as int, ad as int),
            ad as int,
            bn as int,
            bd as int,
        ),
{
    proof {
        lemma_lerp_bounds(c0a as int, c1a as int, an as int, ad as int);
        lemma_lerp_bounds(c0b as int, c1b as int, an as int, ad as int);
    }
    proof {
        assert(c0a * ad <= 255 * 0x10_0000_0000 && c0b * ad <= 255 * 0x10_0000_0000) by (nonlinear_arith)
            requires
                0 < ad <= 0x10_0000_0000,
                c0a <= 255,
                c0b <= 255,
        ;
        assert(-255 * 0x10_0000_0000 <= an * (c1a - c0a) <= 255 * 0x10_0000_0000
            && -255 * 0x10_0000_0000 <= an * (c1b - c0b) <= 255 * 0x10_0000_0000) by (nonlinear_arith)
            requires
                an <= 0x10_0000_0000,
                c0a <= 255,
                c1a <= 255,
                c0b <= 255,
                c1b <= 255,
        ;
    }
    let pa: i128 = c0a as i128 * ad as i128 + an as i128 * (c1a as i128 - c0a as i128);
    let pb: i128 = c0b as i128 * ad as i128 + an as i128 * (c1b as i128 - c0b as i128);
    proof {
        lemma_mix_bounds(pa as int, pb as int, ad as int, bn as int, bd as int);
        assert(pa * bd <= 255 * 0x10_0000_0000 * 0x1_0000_0000) by (nonlinear_arith)
            requires
                0 <= pa <= 255 * 0x10_0000_0000,
                0 < bd <= 0x1_0000_0000,
        ;
        assert(-255 * 0x10_0000_0000 * 0x1_0000_0000 <= bn * (pb - pa) <= 255 * 0x10_0000_0000 * 0x1_0000_0000)
            by (nonlinear_arith)
            requires
                0 <= pa <= 255 * 0x10_0000_0000,
                0 <= pb <= 255 * 0x10_0000_0000,
                0 <= bn <= 0x1_0000_0000,
        ;
        assert(0 < ad * bd <= 0x10_0000_0000 * 0x1_0000_0000) by (nonlinear_arith)
            requires
                0 < ad <= 0x10_0000_0000,
                0 < bd <= 0x1_0000_0000,
        ;
    }
    let n: i128 = pa * bd as i128 + bn as i128 * (pb - pa);
    let d: u128 = ad as u128 * bd as u128;
    ((n as u128) / d) as u8
}

/// The colour at escape strength `strength`: each channel interpolated within the
/// segment of the gradient that holds it, in `a` and in `b`, then cross-faded from
/// `a` (blend 0) to `b` (blend 1) and truncated.
pub fn color_at(strength: Fraction, blend: Fraction, a: &Palette, b: &Palette) -> (r: Rgb)
    requires
        strength.in_unit(),
        blend.in_unit(),
    ensures
        forall|ch: int| 0 <= ch < 3 ==> #[trigger] r[ch] as int == blended(strength, blend, *a, *b, ch),
{
    let i = segment_index(strength);
    proof {
        lemma_segment_amount(strength, i as int);
    }
    let an: u64 = STOP_SCALE * strength.num as u64 - stop_at(i) * strength.den as u64;
    let ad: u64 = (stop_at(i + 1) - stop_at(i)) * strength.den as u64;
    let r0 = mix_channel(a[i][0], a[i + 1][0], b[i][0], b[i + 1][0], an, ad, blend.num, blend.den);
    let r1 = mix_channel(a[i][1], a[i + 1][1], b[i][1], b[i + 1][1], an, ad, blend.num, blend.den);
    let r2 = mix_channel(a[i][2], a[i + 1][2], b[i][2], b[i + 1][2], an, ad, blend.num, blend.den);
    let r: Rgb = [r0, r1, r2];
    assert(r[0] == r0 && r[1] == r1 && r[2] == r2);
    r
}

} // verus!

verus! {

proof fn lemma_cancel_factor(k: int, y: int, d: int)
    requires
        0 < k,
        0 <= y,
        0 < d,
    ensures
        (k * y) / (k * d) == y / d,
{
    assert(0 <= k * y) by (nonlinear_arith)
        requires
            0 < k,
            0 <= y,
    ;
    lemma_div_denominator(k * y, k, d);
    lemma_div_multiples_vanish(y, k);
}

proof fn lemma_segment_of_holds(s: Fraction)
    requires
        s.in_unit(),
    ensures
        0 <= segment_of(s) < 4,
        in_segment(s, segment_of(s)),
{
    if !in_segment(s, 3) && !in_segment(s, 2) && !in_segment(s, 1) {
        assert(in_segment(s, 0));
    }
}

proof fn lemma_gradient_bounds(p: Palette, s: Fraction, ch: int)
    requires
        s.in_unit(),
        0 <= ch < 3,
    ensures
        0 <= gradient_scaled(p, s, ch) <= 255 * amt_den(s, segment_of(s)),
        0 < amt_den(s, segment_of(s)),
{
    let i = segment_of(s);
    lemma_segment_of_holds(s);
    lemma_segment_amount(s, i);
    lemma_lerp_bounds(p[i][ch] as int, p[i + 1][ch] as int, amt_num(s, i), amt_den(s, i));
}

/// Where the strength falls exactly on a gradient stop, each channel is that stop's
/// colour in `a` cross-faded with that stop's colour in `b`: nothing of the
/// neighbouring stops enters.
pub proof fn lemma_stop_colors_exact(s: Fraction, k: int, blend: Fraction, a: Palette, b: Palette, ch: int)
    requires
        s.in_unit(),
        blend.in_unit(),
        0 <= k < 5,
        25 * s.num == stop(k) * s.den,
        0 <= ch < 3,
    ensures
        blended(s, blend, a, b, ch) == (a[k][ch] * blend.den + blend.num * (b[k][ch] - a[k][ch])) / (
        blend.den as int),
{
    let i = segment_of(s);
    lemma_segment_of_holds(s);
    lemma_segment_amount(s, i);
    let ad = amt_den(s, i);
    if k == 0 {
        assert(i == 0 && amt_num(s, i) == 0);
    } else if k == 1 {
        assert(i == 1 && amt_num(s, i) == 0);
    } else if k == 2 {
        assert(i == 2 && amt_num(s, i) == 0);
    } else if k == 3 {
        assert(i == 3 && amt_num(s, i) == 0);
    } else {
        assert(i == 3 && amt_num(s, i) == 5 * s.den && ad == 5 * s.den);
    }
    let ca = a[k][ch] as int;
    let cb = b[k][ch] as int;
    let ga = gradient_scaled(a, s, ch);
    let gb = gradient_scaled(b, s, ch);
    assert(ga == ca * ad && gb == cb * ad) by (nonlinear_arith)
        requires
            ga == lerp_scaled(a[i][ch] as int, a[i + 1][ch] as int, amt_num(s, i), ad),
            gb == lerp_scaled(b[i][ch] as int, b[i + 1][ch] as int, amt_num(s, i), ad),
            (k < 4 && i == k && amt_num(s, i) == 0) || (k == 4 && i == 3 && amt_num(s, i) == ad),
            ca == a[k][ch],
            cb == b[k][ch],
    ;
    let bn = blend.num as int;
    let bd = blend.den as int;
    let y = ca * bd + bn * (cb - ca);
    assert(ga * bd + bn * (gb - ga) == ad * y && 0 <= y) by (nonlinear_arith)
        requires
            ga == ca * ad,
            gb == cb * ad,
            y == ca * bd + bn * (cb - ca),
            0 <= ca,
            0 <= cb,
            0 <= bn <= bd,
    ;
    lemma_cancel_factor(ad, y, bd);
}

/// With blend 0 the colour is palette `a`'s gradient alone; with blend 1, `b`'s.
pub proof fn lemma_blend_ends(s: Fraction, blend: Fraction, a: Palette, b: Palette, ch: int)
    requires
        s.in_unit(),
        blend.in_unit(),
        0 <= ch < 3,
    ensures
        blend.num == 0 ==> blended(s, blend, a, b, ch) == interpolate(a, s, ch),
        blend.num == blend.den ==> blended(s, blend, a, b, ch) == interpolate(b, s, ch),
{
    lemma_gradient_bounds(a, s, ch);
    lemma_gradient_bounds(b, s, ch);
    let ad = amt_den(s, segment_of(s));
    let ga = gradient_scaled(a, s, ch);
    let gb = gradient_scaled(b, s, ch);
    let bn = blend.num as int;
    let bd = blend.den as int;
    if bn == 0 {
        assert(ga * bd + bn * (gb - ga) == bd * ga && ad * bd == bd * ad) by (nonlinear_arith)
            requires
                bn == 0,
        ;
        lemma_cancel_factor(bd, ga, ad);
    }
    if bn == bd {
        assert(ga * bd + bn * (gb - ga) == bd * gb && ad * bd == bd * ad) by (nonlinear_arith)
            requires
                bn == bd,
        ;
        lemma_cancel_factor(bd, gb, ad);
    }
}

/// With the same palette on both sides the blend has no effect: the colour is that
/// palette's gradient alone.
pub proof fn lemma_same_palette_ignores_blend(s: Fraction, blend: Fraction, a: Palette, ch: int)
    requires
        s.in_unit(),
        blend.in_unit(),
        0 <= ch < 3,
    ensures
        blended(s, blend, a, a, ch) == interpolate(a, s, ch),
{
    lemma_gradient_bounds(a, s, ch);
    let ad = amt_den(s, segment_of(s));
    let ga = gradient_scaled(a, s, ch);
    let bn = blend.num as int;
    let bd = blend.den as int;
    assert(ga * bd + bn * (ga - ga) == bd * ga && ad * bd == bd * ad) by (nonlinear_arith);
    lemma_cancel_factor(bd, ga, ad);
}

} // verus!
