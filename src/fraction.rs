use vstd::prelude::*;

verus! {

/// A non-negative rational number `num / den`, kept exact.
#[derive(Clone, Copy, Debug, PartialEq, Eq, Structural)]
pub struct Fraction {
    pub num: u32,
    pub den: u32,
}

impl Fraction {
    /// The denominator is not zero.
    pub open spec fn wf(self) -> bool {
        self.den > 0
    }

    /// The value lies in `[0, 1]`.
    pub open spec fn in_unit(self) -> bool {
        self.den > 0 && self.num <= self.den
    }

    /// `self <= other` as rational numbers.
    pub open spec fn le(self, other: Fraction) -> bool {
        self.num * other.den <= other.num * self.den
    }

    pub fn new(num: u32, den: u32) -> (r: Fraction)
        requires
            den > 0,
        ensures
            r.num == num,
            r.den == den,
    {
        Fraction { num, den }
    }
}

} // verus!
