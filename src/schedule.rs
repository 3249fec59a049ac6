use vstd::prelude::*;
use crate::fraction::Fraction;

verus! {

/// How the map parameter moves from `c_init` to `c_final` over the frames.
#[derive(Clone, Copy, Debug, PartialEq, Eq, Structural)]
pub enum Interpolation {
    /// Along the straight line from `c_init` to `c_final`.
    Linear,
    /// Once round the circle whose diameter joins `c_init` and `c_final`.
    Circular,
}

impl Interpolation {
    /// Flag 0 selects the straight line; any other value the circle.
    pub fn from_flag(flag: u64) -> (r: Interpolation)
        ensures
            (r == Interpolation::Linear) == (flag == 0),
    {
        if flag == 0 {
            Interpolation::Linear
        } else {
            Interpolation::Circular
        }
    }
}

/// Where a frame's parameter comes from, with the transition `t` in `[0, 1]`.
#[derive(Clone, Copy, Debug, PartialEq, Eq, Structural)]
pub enum ParamPath {
    /// Exactly `c_init`.
    Initial,
    /// `c_init + t * (c_final - c_init)`.
    Line(Fraction),
    /// The centre `(c_init + c_final) / 2` plus the radius `|c_final - c_init| / 2`
    /// at angle `2 * pi * t`.
    Orbit(Fraction),
}

/// The parameter path and the palette blend of one frame.
#[derive(Clone, Copy, Debug, PartialEq, Eq, Structural)]
pub struct FrameParams {
    pub path: ParamPath,
    pub blend: Fraction,
}

/// What `parameter_for` gives for frame `frame` of `total`.
pub open spec fn frame_params(frame: u32, total: u32, mode: Interpolation) -> FrameParams {
    let blend = Fraction { num: frame, den: total };
    let t = Fraction { num: frame, den: (total - 1) as u32 };
    let path = if total == 1 {
        ParamPath::Initial
    } else if mode == Interpolation::Linear {
        ParamPath::Line(t)
    } else {
        ParamPath::Orbit(t)
    };
    FrameParams { path, blend }
}

/// The palette blend of frame `frame`: `frame / total`, so frame 0 has blend 0 and
/// the last frame stops short of 1 unless there is one frame only.
pub fn blend_for(frame: u32, total: u32) -> (r: Fraction)
    requires
        frame < total,
    ensures
        r == (Fraction { num: frame, den: total }),
        r.in_unit(),
{
    Fraction::new(frame, total)
}

/// The transition of frame `frame`: `frame / (total - 1)`, reaching 1 on the last frame.
pub fn transition_for(frame: u32, total: u32) -> (r: Fraction)
    requires
        frame < total,
        total > 1,
    ensures
        r == (Fraction { num: frame, den: (total - 1) as u32 }),
        r.in_unit(),
{
    Fraction::new(frame, total - 1)
}

/// The parameter path and blend of frame `frame` of an animation of `total` frames.
pub fn parameter_for(frame: u32, total: u32, mode: Interpolation) -> (r: FrameParams)
    requires
        frame < total,
    ensures
        r == frame_params(frame, total, mode),
        r.blend.in_unit(),
        frame == 0 ==> r.blend.num == 0,
        total == 1 ==> r.path == ParamPath::Initial,
        total > 1 && mode == Interpolation::Linear && frame == total - 1 ==> (r.path matches ParamPath::Line(
            t,
        ) && t.num == t.den && t.den > 0),
{
    let blend = blend_for(frame, total);
    let path = if total == 1 {
        ParamPath::Initial
    } else if mode == Interpolation::Linear {
        ParamPath::Line(transition_for(frame, total))
    } else {
        ParamPath::Orbit(transition_for(frame, total))
    };
    FrameParams { path, blend }
}

} // verus!
