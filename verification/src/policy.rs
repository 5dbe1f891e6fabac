use vstd::prelude::*;

verus! {

/// Thermostat hysteresis: flip the output exactly when the temperature has
/// left the dead zone on the side that the current state does not handle.
pub open spec fn spec_decide(is_active: bool, t: int, min: int, max: int) -> bool {
    (t < min && is_active) || (t > max && !is_active)
}

/// Decide whether the binary output should flip, given its current state,
/// the converted temperature reading, and the two thresholds.
pub fn decide(is_active: bool, t: u64, min: u64, max: u64) -> (flip: bool)
    ensures
        flip == spec_decide(is_active, t as int, min as int, max as int),
{
    t < min && is_active || t > max && !is_active
}

/// With ordered thresholds, an active output flips exactly when the reading
/// is below `min`, and an inactive one exactly when it is above `max`.
pub proof fn lemma_decide_characterization(t: int, min: int, max: int)
    requires
        min < max,
    ensures
        spec_decide(true, t, min, max) == (t < min),
        spec_decide(false, t, min, max) == (t > max),
{
}

/// The decision is a pure function of its inputs: any two results obtained
/// for the same inputs are equal.
pub proof fn lemma_decide_deterministic(
    r1: bool,
    r2: bool,
    is_active: bool,
    t: int,
    min: int,
    max: int,
)
    requires
        r1 == spec_decide(is_active, t, min, max),
        r2 == spec_decide(is_active, t, min, max),
    ensures
        r1 == r2,
{
}

/// Dead zone: inside the band `min <= t <= max` nothing flips, whatever the
/// current state.
pub proof fn lemma_decide_dead_zone(is_active: bool, t: int, min: int, max: int)
    requires
        min <= t <= max,
    ensures
        !spec_decide(is_active, t, min, max),
{
}

/// No flip when the state already matches the reading's side: an active
/// output stays on at or above `min`, an inactive one stays off at or
/// below `max`.
pub proof fn lemma_decide_no_flip_when_correct(t: int, min: int, max: int)
    ensures
        t >= min ==> !spec_decide(true, t, min, max),
        t <= max ==> !spec_decide(false, t, min, max),
{
}

} // verus!
