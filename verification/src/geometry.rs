//! The per-frame computation: `n` points evenly spaced on a circle,
//! rotated half a step so that no point lies at angle zero.
//!
//! Everything here is exact. A point is kept in polar form about the
//! drawing region's center: its distance from the center is half the
//! region diameter, and its direction is a fraction of a full turn with
//! numerator `2k + 1` and denominator `2n` for the `k`-th point, which is
//! the angle `pi/n + k * 2*pi/n` in radians. Turning these fractions into
//! cartesian pixel coordinates takes trigonometry on floats, which is the
//! caller's business, not this module's.

use vstd::prelude::*;

verus! {

/// One point of the figure, in polar form about the region's center:
/// it lies `twice_radius / 2` pixels from the center, in the direction
/// `turn_numer / turn_denom` of a full counterclockwise turn from the
/// positive x-axis.
#[derive(Clone, Copy, Debug, PartialEq, Eq, Structural)]
pub struct PolarPoint {
    pub twice_radius: u32,
    pub turn_numer: u16,
    pub turn_denom: u16,
}

/// The `k`-th of `n` points: direction `(2k + 1) / (2n)` of a turn, at
/// distance `diameter / 2` from the center.
pub open spec fn root_point_spec(n: u8, diameter: u32, k: int) -> PolarPoint {
    PolarPoint {
        twice_radius: diameter,
        turn_numer: (2 * k + 1) as u16,
        turn_denom: (2 * n) as u16,
    }
}

/// The whole figure for a count `n` and a region diameter, in index order.
pub open spec fn root_points_spec(n: u8, diameter: u32) -> Seq<PolarPoint> {
    Seq::new(n as nat, |k: int| root_point_spec(n, diameter, k))
}

/// Computes the figure: for `k` in `0..n`, the point at angle
/// `pi/n + k * 2*pi/n` radians and radius `diameter / 2`, about the
/// region's center. A count of zero yields an empty figure.
pub fn root_points(n: u8, diameter: u32) -> (points: Vec<PolarPoint>)
    ensures
        points@ == root_points_spec(n, diameter),
{
    let mut points: Vec<PolarPoint> = Vec::new();
    let denom: u16 = 2 * (n as u16);
    let mut k: u16 = 0;
    while k < n as u16
        invariant
            k <= n,
            denom == 2 * n,
            points@.len() == k,
            forall|i: int| 0 <= i < k ==> points@[i] == root_point_spec(n, diameter, i),
        decreases n - k,
    {
        points.push(PolarPoint {
            twice_radius: diameter,
            turn_numer: 2 * k + 1,
            turn_denom: denom,
        });
        k = k + 1;
    }
    proof {
        assert(points@ =~= root_points_spec(n, diameter));
    }
    points
}

/// Law: for every count and diameter, the figure has exactly `n` points,
/// and each lies at distance `diameter / 2` from the region's center —
/// its stored `twice_radius` is the diameter itself, and its direction is
/// a proper fraction of one turn.
pub proof fn lemma_count_and_radius(n: u8, diameter: u32)
    ensures
        root_points_spec(n, diameter).len() == n,
        forall|k: int| 0 <= k < n ==>
            (#[trigger] root_points_spec(n, diameter)[k]).twice_radius == diameter,
        forall|k: int| 0 <= k < n ==>
            (#[trigger] root_points_spec(n, diameter)[k]).turn_numer
                < root_points_spec(n, diameter)[k].turn_denom,
{
}

/// Law: for a positive count, consecutive points are separated by exactly
/// `2 / (2n)` of a turn — the angle `2*pi/n` radians. All points share the
/// denominator `2n`; each numerator exceeds the one before it by exactly
/// 2; and the wraparound from the last point to the first also advances
/// by 2 once a full turn (one denominator) is taken off.
pub proof fn lemma_uniform_spacing(n: u8, diameter: u32)
    requires
        n > 0,
    ensures
        forall|k: int| 0 <= k < n ==>
            (#[trigger] root_points_spec(n, diameter)[k]).turn_denom == 2 * n,
        forall|k: int| 0 <= k < n - 1 ==>
            (#[trigger] root_points_spec(n, diameter)[k + 1]).turn_numer
                == root_points_spec(n, diameter)[k].turn_numer + 2,
        root_points_spec(n, diameter)[0].turn_numer + 2 * n
            == root_points_spec(n, diameter)[n - 1].turn_numer + 2,
{
}

/// Law: the computation is a function of its inputs alone — two point
/// sequences computed from identical inputs are identical.
pub proof fn lemma_deterministic(n: u8, diameter: u32, a: Seq<PolarPoint>, b: Seq<PolarPoint>)
    requires
        a == root_points_spec(n, diameter),
        b == root_points_spec(n, diameter),
    ensures
        a == b,
{
}

} // verus!
