//! Wheel output during a scroll gesture: the wheel sign of an offset, the
//! speed step reached at a distance, and how accumulated wheel amounts are
//! drained into wheel events.
//!
//! One legacy detent is worth 120 hi-res units.

use vstd::prelude::*;

use crate::model::CoreAction;

verus! {

/// Hi-res wheel units in one legacy detent.
pub const HIRES_UNITS_PER_DETENT: i32 = 120;

#[derive(Debug, Clone, Copy, PartialEq, Eq, Structural)]
pub enum Axis {
    Vertical,
    Horizontal,
}

/// An axis driving the scroll: its distance from the press point and the
/// direction (+1 or -1) of the wheel values it emits.
#[derive(Debug, Clone, Copy, PartialEq, Eq, Structural)]
pub struct AxisDrive {
    pub axis: Axis,
    pub distance: i32,
    pub direction: i32,
}

/// Vertical wheel sign: pointer moved down (positive offset) beyond the
/// deadzone maps to a negative wheel value, up maps to +1, otherwise 0.
pub open spec fn spec_wheel_sign_y(offset: int, deadzone: int) -> int {
    if offset > deadzone {
        -1
    } else if offset < -deadzone {
        1
    } else {
        0
    }
}

/// Horizontal wheel sign: pointer moved right beyond the deadzone maps to
/// +1, left to -1, otherwise 0.
pub open spec fn spec_wheel_sign_x(offset: int, deadzone: int) -> int {
    if offset > deadzone {
        1
    } else if offset < -deadzone {
        -1
    } else {
        0
    }
}

pub fn wheel_sign_y(offset: i32, deadzone: i32) -> (s: i32)
    ensures
        s == spec_wheel_sign_y(offset as int, deadzone as int),
{
    let o = offset as i64;
    let d = deadzone as i64;
    if o > d {
        -1
    } else if o < -d {
        1
    } else {
        0
    }
}

pub fn wheel_sign_x(offset: i32, deadzone: i32) -> (s: i32)
    ensures
        s == spec_wheel_sign_x(offset as int, deadzone as int),
{
    let o = offset as i64;
    let d = deadzone as i64;
    if o > d {
        1
    } else if o < -d {
        -1
    } else {
        0
    }
}

/// Step `i` is reached at `distance`.
pub open spec fn step_reached(steps: Seq<i32>, distance: int, i: int) -> bool {
    0 <= i < steps.len() && distance >= steps[i]
}

/// The stepped profile picks the last step whose distance is reached.
pub fn reached_step(steps: &Vec<i32>, distance: i32) -> (r: Option<usize>)
    ensures
        r is None <==> (forall|i: int| !step_reached(steps@, distance as int, i)),
        r matches Some(i) ==> step_reached(steps@, distance as int, i as int) && (forall|j: int|
            i < j < steps@.len() ==> !step_reached(steps@, distance as int, j)),
{
    let mut i: usize = steps.len();
    while i > 0
        invariant
            i <= steps@.len(),
            forall|j: int| i <= j < steps@.len() ==> !step_reached(steps@, distance as int, j),
        decreases i,
    {
        i -= 1;
        if distance >= steps[i] {
            assert(step_reached(steps@, distance as int, i as int));
            return Some(i);
        }
    }
    None
}

/// `v` clamped to `[-max, max]`.
pub open spec fn clamp_sym(v: int, max: int) -> int {
    if v < -max {
        -max
    } else if v > max {
        max
    } else {
        v
    }
}

/// An amount drained from a wheel accumulator: the value to emit, and
/// whether the accumulator is then reset to zero (the whole part exceeded
/// the cap) instead of having `amount` subtracted.
#[derive(Debug, Clone, Copy, PartialEq, Eq, Structural)]
pub struct Drain {
    pub amount: i32,
    pub resets: bool,
}

/// One legacy drain step on an accumulator whose whole part is `whole`:
/// nothing when it is zero, otherwise the whole part capped at `max`
/// detents, resetting the accumulator when the cap cut it.
pub open spec fn spec_drain_legacy(whole: int, max: int) -> Option<Drain> {
    if whole == 0 {
        None
    } else {
        Some(Drain { amount: clamp_sym(whole, max) as i32, resets: clamp_sym(whole, max) != whole })
    }
}

pub fn drain_legacy_step(whole: i32, max: i32) -> (r: Option<Drain>)
    requires
        whole == 0 || max >= 0,
    ensures
        r == spec_drain_legacy(whole as int, max as int),
{
    if whole == 0 {
        return None;
    }
    let n = if whole < -max {
        -max
    } else if whole > max {
        max
    } else {
        whole
    };
    Some(Drain { amount: n, resets: n != whole })
}

/// The hi-res threshold as the unsigned value the drain compares against
/// (a negative threshold wraps to a large unsigned one).
pub open spec fn hires_threshold(min_units: int) -> int {
    if min_units < 0 {
        min_units + 0x1_0000_0000
    } else {
        min_units
    }
}

pub open spec fn abs(v: int) -> int {
    if v < 0 {
        -v
    } else {
        v
    }
}

/// The hi-res drain on an accumulator whose whole part is `whole`: nothing
/// while fewer than `min_units` units are pending, otherwise the whole part
/// capped at `max_units`, resetting the accumulator when the cap cut it.
pub open spec fn spec_drain_hires(whole: int, max_units: int, min_units: int) -> Option<Drain> {
    if abs(whole) < hires_threshold(min_units) {
        None
    } else {
        Some(
            Drain {
                amount: clamp_sym(whole, max_units) as i32,
                resets: clamp_sym(whole, max_units) != whole,
            },
        )
    }
}

pub fn drain_hires(whole: i32, max_units: i32, min_units: i32) -> (r: Option<Drain>)
    requires
        abs(whole as int) < hires_threshold(min_units as int) || max_units >= 0,
    ensures
        r == spec_drain_hires(whole as int, max_units as int, min_units as int),
{
    let a: i64 = if whole < 0 { -(whole as i64) } else { whole as i64 };
    let threshold: i64 = if min_units < 0 { min_units as i64 + 0x1_0000_0000i64 } else { min_units as i64 };
    if a < threshold {
        return None;
    }
    let n = if whole < -max_units {
        -max_units
    } else if whole > max_units {
        max_units
    } else {
        whole
    };
    Some(Drain { amount: n, resets: n != whole })
}

/// `v` saturated to the range of `i32`.
pub open spec fn saturate(v: int) -> int {
    if v < i32::MIN {
        i32::MIN as int
    } else if v > i32::MAX {
        i32::MAX as int
    } else {
        v
    }
}

/// The hi-res cap of one event: the detent cap in hi-res units, saturating.
pub fn hires_cap(max_detents_per_tick: i32) -> (r: i32)
    ensures
        r == saturate(max_detents_per_tick * HIRES_UNITS_PER_DETENT),
{
    let p: i64 = max_detents_per_tick as i64 * 120;
    if p > i32::MAX as i64 {
        i32::MAX
    } else if p < i32::MIN as i64 {
        i32::MIN
    } else {
        p as i32
    }
}

impl AxisDrive {
    /// A legacy wheel event of `n` detents on this axis.
    pub fn detents(&self, n: i32) -> (a: CoreAction)
        ensures
            a == (if self.axis == Axis::Vertical {
                CoreAction::EmitWheelDetents { vertical: n, horizontal: 0 }
            } else {
                CoreAction::EmitWheelDetents { vertical: 0, horizontal: n }
            }),
    {
        match self.axis {
            Axis::Vertical => CoreAction::EmitWheelDetents { vertical: n, horizontal: 0 },
            Axis::Horizontal => CoreAction::EmitWheelDetents { vertical: 0, horizontal: n },
        }
    }

    /// A hi-res wheel event of `n` units on this axis.
    pub fn hires(&self, n: i32) -> (a: CoreAction)
        ensures
            a == (if self.axis == Axis::Vertical {
                CoreAction::EmitWheelHiRes { vertical_units: n, horizontal_units: 0 }
            } else {
                CoreAction::EmitWheelHiRes { vertical_units: 0, horizontal_units: n }
            }),
    {
        match self.axis {
            Axis::Vertical => CoreAction::EmitWheelHiRes { vertical_units: n, horizontal_units: 0 },
            Axis::Horizontal => CoreAction::EmitWheelHiRes { vertical_units: 0, horizontal_units: n },
        }
    }
}


/// A legacy drain never emits more than `max` detents in one event, keeps
/// the sign of the accumulated amount, and emits it whole (without a reset)
/// whenever it fits under the cap.
pub proof fn lemma_legacy_drain_capped(whole: int, max: int)
    requires
        max >= 0,
        i32::MIN <= whole <= i32::MAX,
        max <= i32::MAX,
    ensures
        spec_drain_legacy(whole, max) matches Some(d) ==> abs(d.amount as int) <= max && (max > 0
            ==> (d.amount > 0) == (whole > 0)),
        abs(whole) <= max ==> (whole == 0 ==> spec_drain_legacy(whole, max) is None) && (whole
            != 0 ==> spec_drain_legacy(whole, max) == Some(Drain { amount: whole as i32, resets: false })),
        spec_drain_legacy(whole, max) matches Some(d) ==> (d.resets <==> abs(whole) > max),
{
}

/// A hi-res drain emits nothing below the threshold, never more than the
/// cap in one event, keeps the sign, and emits the whole amount (without a
/// reset) when it fits under the cap.
pub proof fn lemma_hires_drain_capped(whole: int, max_units: int, min_units: int)
    requires
        max_units > 0,
        min_units >= 1,
        i32::MIN <= whole <= i32::MAX,
        max_units <= i32::MAX,
    ensures
        abs(whole) < min_units ==> spec_drain_hires(whole, max_units, min_units) is None,
        spec_drain_hires(whole, max_units, min_units) matches Some(d) ==> abs(d.amount as int)
            <= max_units && d.amount != 0 && (d.amount > 0) == (whole > 0),
        min_units <= abs(whole) <= max_units ==> spec_drain_hires(whole, max_units, min_units)
            == Some(Drain { amount: whole as i32, resets: false }),
{
}

/// The hi-res cap of one event is the detent cap in hi-res units, 120 per
/// detent, for every cap that does not overflow.
pub proof fn lemma_hires_cap_tracks_detents(max_detents_per_tick: int)
    requires
        0 <= max_detents_per_tick <= i32::MAX / 120,
    ensures
        saturate(max_detents_per_tick * HIRES_UNITS_PER_DETENT) == 120 * max_detents_per_tick,
{
}

/// Moving farther from the press point never selects an earlier step.
pub proof fn lemma_reached_step_monotone(steps: Seq<i32>, near: int, far: int, i: int, j: int)
    requires
        near <= far,
        step_reached(steps, near, i),
        forall|k: int| j < k < steps.len() ==> !step_reached(steps, far, k),
        step_reached(steps, far, j),
    ensures
        i <= j,
{
    if i > j {
        assert(step_reached(steps, far, i));
    }
}

} // verus!
