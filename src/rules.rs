//! The branch rules of the kernels, stated over the outcomes of the
//! comparisons they make, so that they hold whatever number type the
//! comparisons were made in.
use vstd::prelude::*;

verus! {

/// How the speed clamp corrects one velocity.
#[derive(Clone, Copy, Debug, PartialEq, Eq, Structural)]
pub enum SpeedAdjust {
    /// Left as it is.
    Keep,
    /// Rescaled to the maximum speed, direction kept.
    ToMax,
    /// Rescaled to the minimum speed, direction kept.
    ToMin,
}

/// The speed-clamp rule. Its inputs say whether the squared speed is above
/// the squared maximum, below the squared minimum, and above the near-zero
/// floor under which a velocity is never rescaled (its direction would be
/// lost to rounding). Too fast wins over too slow; too slow counts only
/// above the floor.
pub fn speed_adjustment(above_max: bool, below_min: bool, above_floor: bool) -> (r: SpeedAdjust)
    ensures
        (r == SpeedAdjust::ToMax) <==> above_max,
        (r == SpeedAdjust::ToMin) <==> !above_max && below_min && above_floor,
        (r == SpeedAdjust::Keep) <==> !above_max && !(below_min && above_floor),
        !above_max && !above_floor ==> r == SpeedAdjust::Keep,
{
    if above_max {
        SpeedAdjust::ToMax
    } else if below_min && above_floor {
        SpeedAdjust::ToMin
    } else {
        SpeedAdjust::Keep
    }
}

/// Where a coordinate lies with respect to the world's extent on its axis.
#[derive(Clone, Copy, Debug, PartialEq, Eq, Structural)]
pub enum EdgeSide {
    /// In `[0, extent)`: no boundary policy applies.
    Inside,
    /// Below zero.
    Below,
    /// At or past the extent.
    Beyond,
}

/// The edge rule shared by the wrap and bounce policies. Its inputs say
/// whether the coordinate is below zero and whether it is at or past the
/// extent; below zero is checked first.
pub fn edge_side(below_zero: bool, at_or_beyond: bool) -> (r: EdgeSide)
    ensures
        (r == EdgeSide::Below) <==> below_zero,
        (r == EdgeSide::Beyond) <==> !below_zero && at_or_beyond,
        (r == EdgeSide::Inside) <==> !below_zero && !at_or_beyond,
{
    if below_zero {
        EdgeSide::Below
    } else if at_or_beyond {
        EdgeSide::Beyond
    } else {
        EdgeSide::Inside
    }
}

} // verus!
