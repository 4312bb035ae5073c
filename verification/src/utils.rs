//! Points for a guess, by its distance from the target.

use vstd::prelude::*;

verus! {

/// A guess farther away than this many kilometres earns nothing.
pub const MAX_DISTANCE_KM: u64 = 1500;

/// Kilometres of distance that cost one point.
pub const KM_PER_POINT: u64 = 4;

/// The most points one guess can earn.
pub const MAX_POINTS: u64 = 375;

/// Points for a guess `km` whole kilometres from the target: nothing beyond
/// `MAX_DISTANCE_KM`, otherwise the remaining distance to that limit divided
/// by `KM_PER_POINT`, rounded up.
pub open spec fn score(km: nat) -> nat {
    if km > MAX_DISTANCE_KM {
        0
    } else {
        ((MAX_DISTANCE_KM - km + (KM_PER_POINT - 1)) / (KM_PER_POINT as int)) as nat
    }
}

/// Converts a distance in whole kilometres (the fractional part dropped)
/// into points.
pub fn calculate_score(kilometers: u64) -> (points: u64)
    ensures
        points == score(kilometers as nat),
        points <= MAX_POINTS,
{
    if kilometers > MAX_DISTANCE_KM {
        return 0;
    }
    (MAX_DISTANCE_KM - kilometers + (KM_PER_POINT - 1)) / KM_PER_POINT
}

/// Within the limit the score is the ceiling of a quarter of the remaining
/// distance: the least number of points whose worth in kilometres covers
/// what is left to `MAX_DISTANCE_KM`.
pub proof fn score_is_ceiling(km: nat)
    requires
        km <= MAX_DISTANCE_KM,
    ensures
        KM_PER_POINT * score(km) >= MAX_DISTANCE_KM - km,
        KM_PER_POINT * score(km) < MAX_DISTANCE_KM - km + KM_PER_POINT,
{
}

/// A guess that is farther away never earns more.
pub proof fn score_is_non_increasing(near: nat, far: nat)
    requires
        near <= far,
    ensures
        score(far) <= score(near),
{
}

/// A perfect guess earns `MAX_POINTS`, a guess at exactly the limit earns
/// nothing, and neither does any guess beyond it; no guess earns more than
/// a perfect one.
pub proof fn score_bounds(km: nat)
    ensures
        score(0) == MAX_POINTS,
        score(MAX_DISTANCE_KM as nat) == 0,
        km > MAX_DISTANCE_KM ==> score(km) == 0,
        score(km) <= MAX_POINTS,
{
}

} // verus!
