use vstd::prelude::*;
use crate::color::{blended, color_at};
use crate::escape::{escape_in_bound, escape_strength, recorded_count, strength_of};
use crate::fraction::Fraction;
use crate::palette::{Palette, Rgb};

verus! {

/// `c` is the colour of an orbit with escape index `e`, palettes `a`, `b` and blend `blend`.
pub open spec fn is_pixel_color(c: Rgb, e: Option<u32>, max_iter: u32, blend: Fraction, a: Palette, b: Palette) -> bool {
    forall|ch: int| 0 <= ch < 3 ==> #[trigger] c[ch] as int == blended(strength_of(e, max_iter), blend, a, b, ch)
}

/// The colour of one pixel from where its orbit first escaped; `None` where the
/// escape strength exceeds 1, which no gradient segment holds.
pub fn pixel_color(first_escape: Option<u32>, max_iter: u32, blend: Fraction, a: &Palette, b: &Palette) -> (r: Option<Rgb>)
    requires
        escape_in_bound(first_escape, max_iter),
        blend.in_unit(),
    ensures
        r is None <==> recorded_count(first_escape, max_iter) > 255,
        r matches Some(c) ==> is_pixel_color(c, first_escape, max_iter, blend, *a, *b),
{
    let strength = escape_strength(first_escape, max_iter);
    if strength.num > strength.den {
        None
    } else {
        Some(color_at(strength, blend, a, b))
    }
}

/// The colours of a frame, pixel by pixel in the order of `escapes`; `None` when
/// some pixel's escape strength exceeds 1.
pub fn frame_colors(escapes: &Vec<Option<u32>>, max_iter: u32, blend: Fraction, a: &Palette, b: &Palette) -> (r: Option<Vec<Rgb>>)
    requires
        forall|i: int| 0 <= i < escapes@.len() ==> escape_in_bound(#[trigger] escapes@[i], max_iter),
        blend.in_unit(),
    ensures
        r is None <==> exists|i: int| 0 <= i < escapes@.len() && recorded_count(#[trigger] escapes@[i], max_iter) > 255,
        r matches Some(v) ==> v@.len() == escapes@.len() && forall|i: int| 0 <= i < v@.len()
            ==> is_pixel_color(#[trigger] v@[i], escapes@[i], max_iter, blend, *a, *b),
{
    let mut out: Vec<Rgb> = Vec::new();
    let mut i: usize = 0;
    while i < escapes.len()
        invariant
            i <= escapes@.len(),
            out@.len() == i,
            forall|j: int| 0 <= j < escapes@.len() ==> escape_in_bound(#[trigger] escapes@[j], max_iter),
            blend.in_unit(),
            forall|j: int| 0 <= j < i ==> is_pixel_color(#[trigger] out@[j], escapes@[j], max_iter, blend, *a, *b),
            forall|j: int| 0 <= j < i ==> recorded_count(#[trigger] escapes@[j], max_iter) <= 255,
        decreases escapes@.len() - i,
    {
        match pixel_color(escapes[i], max_iter, blend, a, b) {
            Some(c) => out.push(c),
            None => {
                return None;
            },
        }
        i = i + 1;
    }
    Some(out)
}

} // verus!
