//! The integer and boolean part of the engine configuration, with its
//! defaults and its validity rules.
//!
//! The speed profile's rates (detents per second and the acceleration
//! exponent) are floating-point values and are held by the daemon next to
//! this configuration; the distances at which the stepped profile changes
//! speed live here.

use vstd::prelude::*;

verus! {

/// Engine configuration: distances in pointer units, output switches and
/// rate limits.
#[derive(Debug, Clone)]
pub struct CoreConfig {
    /// The scroll mode named in the config file, as written there; `None`
    /// keeps the built-in one. The engine's behaviour does not depend on it.
    pub mode: Option<String>,
    /// Offset (per axis) inside which no scrolling happens.
    pub deadzone_units: i32,
    /// Distance past the deadzone at which the continuous profile reaches
    /// its maximum speed.
    pub full_speed_units: i32,
    /// The tracked offset is clamped to `[-max_offset_units, max_offset_units]`.
    pub max_offset_units: i32,
    /// Distances of the stepped speed profile, strictly increasing and all
    /// beyond the deadzone; empty selects the continuous profile.
    pub scroll_speed_step_distances: Vec<i32>,
    /// Rate of scroll ticks per second.
    pub tick_hz: u32,
    pub invert_vertical: bool,
    pub invert_horizontal: bool,
    pub suppress_motion_while_pending: bool,
    pub suppress_motion_while_scrolling: bool,
    pub replay_pending_motion_on_click: bool,
    pub emit_hires_wheel: bool,
    pub emit_legacy_wheel: bool,
    /// Hi-res units accumulated before one hi-res wheel event is emitted.
    pub min_hires_units_per_event: i32,
    pub horizontal_scroll: bool,
    /// Largest number of detents emitted in one wheel event.
    pub max_detents_per_tick: i32,
}

/// The first rule that a configuration breaks.
#[derive(Debug, Clone, Copy, PartialEq, Eq, Structural)]
pub enum ConfigError {
    NegativeDeadzone,
    MaxOffsetNotBeyondDeadzone,
    NonPositiveFullSpeed,
    ZeroTickRate,
    NonPositiveDetentsPerTick,
    NonPositiveHiresThreshold,
    NoWheelOutput,
    /// The step at this index does not lie beyond the deadzone.
    StepInsideDeadzone { index: usize },
    /// The step at this index is not farther than the one before it.
    StepsNotIncreasing { index: usize },
}

/// Whether step `i` of `steps` breaks a rule for the given deadzone.
pub open spec fn step_is_bad(steps: Seq<i32>, deadzone: i32, i: int) -> bool {
    steps[i] <= deadzone || (i > 0 && steps[i] <= steps[i - 1])
}

/// The error for step `i`, assuming it is bad.
pub open spec fn step_error(steps: Seq<i32>, deadzone: i32, i: int) -> ConfigError {
    if steps[i] <= deadzone {
        ConfigError::StepInsideDeadzone { index: i as usize }
    } else {
        ConfigError::StepsNotIncreasing { index: i as usize }
    }
}

/// The validation outcome for the step distances: the error of the first
/// bad step, if any.
pub open spec fn steps_result(steps: Seq<i32>, deadzone: i32) -> Result<(), ConfigError> {
    if exists|i: int| 0 <= i < steps.len() && step_is_bad(steps, deadzone, i) {
        let i = choose|i: int|
            0 <= i < steps.len() && step_is_bad(steps, deadzone, i) && (forall|j: int|
                0 <= j < i ==> !step_is_bad(steps, deadzone, j));
        Err(step_error(steps, deadzone, i))
    } else {
        Ok(())
    }
}

/// The validation outcome: rules are checked in a fixed order and the first
/// broken one is reported.
pub open spec fn config_result(c: CoreConfig) -> Result<(), ConfigError> {
    if c.deadzone_units < 0 {
        Err(ConfigError::NegativeDeadzone)
    } else if c.max_offset_units <= c.deadzone_units {
        Err(ConfigError::MaxOffsetNotBeyondDeadzone)
    } else if c.full_speed_units <= 0 {
        Err(ConfigError::NonPositiveFullSpeed)
    } else if c.tick_hz == 0 {
        Err(ConfigError::ZeroTickRate)
    } else if c.max_detents_per_tick <= 0 {
        Err(ConfigError::NonPositiveDetentsPerTick)
    } else if c.min_hires_units_per_event <= 0 {
        Err(ConfigError::NonPositiveHiresThreshold)
    } else if !c.emit_hires_wheel && !c.emit_legacy_wheel {
        Err(ConfigError::NoWheelOutput)
    } else {
        steps_result(c.scroll_speed_step_distances@, c.deadzone_units)
    }
}

/// A configuration that every rule accepts.
pub open spec fn config_valid(c: CoreConfig) -> bool {
    config_result(c) is Ok
}

impl Default for CoreConfig {
    fn default() -> (c: CoreConfig)
        ensures
            is_default_config(c),
    {
        CoreConfig {
            mode: None,
            deadzone_units: 10,
            full_speed_units: 160,
            max_offset_units: 240,
            scroll_speed_step_distances: Vec::new(),
            tick_hz: 120,
            invert_vertical: false,
            invert_horizontal: false,
            suppress_motion_while_pending: true,
            suppress_motion_while_scrolling: true,
            replay_pending_motion_on_click: false,
            emit_hires_wheel: true,
            emit_legacy_wheel: true,
            min_hires_units_per_event: 15,
            horizontal_scroll: true,
            max_detents_per_tick: 3,
        }
    }
}

impl CoreConfig {
    /// Checks the step distances: each lies beyond the deadzone and beyond
    /// the one before it.
    fn validate_steps(&self) -> (r: Result<(), ConfigError>)
        ensures
            r == steps_result(self.scroll_speed_step_distances@, self.deadzone_units),
    {
        let steps = &self.scroll_speed_step_distances;
        let mut i: usize = 0;
        while i < steps.len()
            invariant
                i <= steps@.len(),
                steps@ == self.scroll_speed_step_distances@,
                forall|j: int| 0 <= j < i ==> !step_is_bad(steps@, self.deadzone_units, j),
            decreases steps@.len() - i,
        {
            if steps[i] <= self.deadzone_units || (i > 0 && steps[i] <= steps[i - 1]) {
                proof {
                    let d = self.deadzone_units;
                    assert(step_is_bad(steps@, d, i as int) && (forall|j: int|
                        0 <= j < i ==> !step_is_bad(steps@, d, j)));
                    let k = choose|k: int|
                        0 <= k < steps@.len() && step_is_bad(steps@, d, k) && (forall|j: int|
                            0 <= j < k ==> !step_is_bad(steps@, d, j));
                    if k < i {
                        assert(!step_is_bad(steps@, d, k));
                    } else if k > i {
                        assert(!step_is_bad(steps@, d, i as int));
                    }
                    assert(k == i);
                }
                if steps[i] <= self.deadzone_units {
                    return Err(ConfigError::StepInsideDeadzone { index: i });
                } else {
                    return Err(ConfigError::StepsNotIncreasing { index: i });
                }
            }
            i += 1;
        }
        Ok(())
    }

    /// Checks every rule in order and reports the first one broken.
    pub fn validate(&self) -> (r: Result<(), ConfigError>)
        ensures
            r == config_result(*self),
    {
        if self.deadzone_units < 0 {
            Err(ConfigError::NegativeDeadzone)
        } else if self.max_offset_units <= self.deadzone_units {
            Err(ConfigError::MaxOffsetNotBeyondDeadzone)
        } else if self.full_speed_units <= 0 {
            Err(ConfigError::NonPositiveFullSpeed)
        } else if self.tick_hz == 0 {
            Err(ConfigError::ZeroTickRate)
        } else if self.max_detents_per_tick <= 0 {
            Err(ConfigError::NonPositiveDetentsPerTick)
        } else if self.min_hires_units_per_event <= 0 {
            Err(ConfigError::NonPositiveHiresThreshold)
        } else if !self.emit_hires_wheel && !self.emit_legacy_wheel {
            Err(ConfigError::NoWheelOutput)
        } else {
            self.validate_steps()
        }
    }
}


/// The built-in configuration.
pub open spec fn is_default_config(c: CoreConfig) -> bool {
    &&& c.mode is None
    &&& c.deadzone_units == 10
    &&& c.full_speed_units == 160
    &&& c.max_offset_units == 240
    &&& c.scroll_speed_step_distances@.len() == 0
    &&& c.tick_hz == 120
    &&& !c.invert_vertical
    &&& !c.invert_horizontal
    &&& c.suppress_motion_while_pending
    &&& c.suppress_motion_while_scrolling
    &&& !c.replay_pending_motion_on_click
    &&& c.emit_hires_wheel
    &&& c.emit_legacy_wheel
    &&& c.min_hires_units_per_event == 15
    &&& c.horizontal_scroll
    &&& c.max_detents_per_tick == 3
}

/// The built-in configuration obeys every rule.
pub proof fn lemma_defaults_are_valid(c: CoreConfig)
    requires
        is_default_config(c),
    ensures
        config_valid(c),
{
    assert(!(exists|i: int|
        0 <= i < c.scroll_speed_step_distances@.len() && step_is_bad(
            c.scroll_speed_step_distances@,
            c.deadzone_units,
            i,
        )));
}

/// Step distances all beyond the deadzone, in strictly increasing order.
pub open spec fn steps_beyond_and_increasing(steps: Seq<i32>, deadzone: i32) -> bool {
    &&& forall|i: int| 0 <= i < steps.len() ==> deadzone < #[trigger] steps[i]
    &&& forall|i: int, j: int|
        #![trigger steps[i], steps[j]]
        0 <= i < j < steps.len() ==> steps[i] < steps[j]
}

/// A valid configuration leaves room to scroll and bounds every offset:
/// the deadzone is non-negative and the offset bound lies beyond it.
pub proof fn lemma_valid_config_bounds(c: CoreConfig)
    requires
        config_valid(c),
    ensures
        0 <= c.deadzone_units < c.max_offset_units,
        c.max_detents_per_tick >= 1,
        c.tick_hz >= 1,
        steps_beyond_and_increasing(c.scroll_speed_step_distances@, c.deadzone_units),
{
    let steps = c.scroll_speed_step_distances@;
    let d = c.deadzone_units;
    assert(!(exists|i: int| 0 <= i < steps.len() && step_is_bad(steps, d, i)));
    assert forall|k: int| 0 <= k < steps.len() implies !step_is_bad(steps, d, k) by {}
    assert forall|i: int| 0 <= i < steps.len() implies d < #[trigger] steps[i] by {
        assert(!step_is_bad(steps, d, i));
    }
    assert forall|i: int, j: int|
        #![trigger steps[i], steps[j]]
        0 <= i < j < steps.len() implies steps[i] < steps[j] by {
        lemma_steps_increase(steps, d, i, j);
    }
}

proof fn lemma_steps_increase(steps: Seq<i32>, d: i32, i: int, j: int)
    requires
        0 <= i < j < steps.len(),
        forall|k: int| 0 <= k < steps.len() ==> !step_is_bad(steps, d, k),
    ensures
        d < steps[i],
        steps[i] < steps[j],
    decreases j - i,
{
    assert(!step_is_bad(steps, d, i));
    assert(!step_is_bad(steps, d, j));
    if j > i + 1 {
        lemma_steps_increase(steps, d, i, j - 1);
    }
}
/// One wheel output is enough: a configuration that meets every numeric
/// rule and whose step distances lie beyond the deadzone in increasing
/// order is valid exactly when at least one of the hi-res and legacy wheel
/// outputs is on. `NoWheelOutput` is reported only when both are off.
pub proof fn lemma_one_wheel_output_suffices(c: CoreConfig)
    ensures
        config_result(c) == Err::<(), ConfigError>(ConfigError::NoWheelOutput) ==> !c.emit_hires_wheel
            && !c.emit_legacy_wheel,
        ({
            &&& c.deadzone_units >= 0
            &&& c.max_offset_units > c.deadzone_units
            &&& c.full_speed_units > 0
            &&& c.tick_hz > 0
            &&& c.max_detents_per_tick > 0
            &&& c.min_hires_units_per_event > 0
            &&& steps_beyond_and_increasing(c.scroll_speed_step_distances@, c.deadzone_units)
        }) ==> (config_valid(c) <==> (c.emit_hires_wheel || c.emit_legacy_wheel)),
{
    let steps = c.scroll_speed_step_distances@;
    let d = c.deadzone_units;
    if steps_beyond_and_increasing(steps, d) {
        assert forall|i: int| 0 <= i < steps.len() implies !step_is_bad(steps, d, i) by {
            assert(d < steps[i]);
            if i > 0 {
                assert(steps[i - 1] < steps[i]);
            }
        }
        assert(steps_result(steps, d) is Ok);
    }
    if config_result(c) == Err::<(), ConfigError>(ConfigError::NoWheelOutput) {
        if c.emit_hires_wheel || c.emit_legacy_wheel {
            lemma_steps_error_is_a_step(steps, d);
        }
    }
}

/// A configuration is valid exactly when it meets every rule: a
/// non-negative deadzone, an offset bound beyond it, a positive full-speed
/// distance, tick rate, detent cap and hi-res threshold, at least one wheel
/// output, and step distances beyond the deadzone in increasing order.
pub proof fn lemma_validity_rules(c: CoreConfig)
    ensures
        config_valid(c) <==> {
            &&& c.deadzone_units >= 0
            &&& c.max_offset_units > c.deadzone_units
            &&& c.full_speed_units > 0
            &&& c.tick_hz > 0
            &&& c.max_detents_per_tick > 0
            &&& c.min_hires_units_per_event > 0
            &&& (c.emit_hires_wheel || c.emit_legacy_wheel)
            &&& steps_beyond_and_increasing(c.scroll_speed_step_distances@, c.deadzone_units)
        },
{
    if config_valid(c) {
        lemma_valid_config_bounds(c);
    }
    lemma_one_wheel_output_suffices(c);
}

/// The step rules only ever report a step error.
proof fn lemma_steps_error_is_a_step(steps: Seq<i32>, d: i32)
    ensures
        steps_result(steps, d) is Ok || steps_result(steps, d) matches Err(
            ConfigError::StepInsideDeadzone { .. },
        ) || steps_result(steps, d) matches Err(ConfigError::StepsNotIncreasing { .. }),
{
}

} // verus!
