use wayland_wheeltani::config::{ConfigError, CoreConfig};

#[test]
fn config_defaults_validate() {
    CoreConfig::default().validate().unwrap();
}

#[test]
fn config_rejects_negative_deadzone() {
    let cfg = CoreConfig {
        deadzone_units: -1,
        ..CoreConfig::default()
    };
    assert!(cfg.validate().is_err());
}

#[test]
fn config_rejects_max_offset_smaller_than_deadzone() {
    let cfg = CoreConfig {
        deadzone_units: 100,
        max_offset_units: 50,
        ..CoreConfig::default()
    };
    assert!(cfg.validate().is_err());
}

#[test]
fn config_rejects_speed_step_inside_deadzone() {
    let cfg = CoreConfig {
        scroll_speed_step_distances: vec![10],
        ..CoreConfig::default()
    };
    assert!(cfg.validate().is_err());
}

#[test]
fn config_rejects_unsorted_speed_steps() {
    let cfg = CoreConfig {
        scroll_speed_step_distances: vec![80, 40],
        ..CoreConfig::default()
    };
    assert!(cfg.validate().is_err());
}

#[test]
fn config_reports_first_broken_rule() {
    let cfg = CoreConfig {
        deadzone_units: 100,
        max_offset_units: 50,
        tick_hz: 0,
        ..CoreConfig::default()
    };
    assert_eq!(cfg.validate(), Err(ConfigError::MaxOffsetNotBeyondDeadzone));
}

#[test]
fn config_step_errors_name_the_step() {
    let inside = CoreConfig {
        scroll_speed_step_distances: vec![40, 10],
        ..CoreConfig::default()
    };
    assert_eq!(inside.validate(), Err(ConfigError::StepInsideDeadzone { index: 1 }));
    let unsorted = CoreConfig {
        scroll_speed_step_distances: vec![20, 100, 100],
        ..CoreConfig::default()
    };
    assert_eq!(unsorted.validate(), Err(ConfigError::StepsNotIncreasing { index: 2 }));
    let sorted = CoreConfig {
        scroll_speed_step_distances: vec![20, 100],
        ..CoreConfig::default()
    };
    assert_eq!(sorted.validate(), Ok(()));
}

#[test]
fn config_rejects_each_rate_rule() {
    let base = CoreConfig::default;
    assert_eq!(
        CoreConfig { full_speed_units: 0, ..base() }.validate(),
        Err(ConfigError::NonPositiveFullSpeed)
    );
    assert_eq!(
        CoreConfig { tick_hz: 0, ..base() }.validate(),
        Err(ConfigError::ZeroTickRate)
    );
    assert_eq!(
        CoreConfig { max_detents_per_tick: 0, ..base() }.validate(),
        Err(ConfigError::NonPositiveDetentsPerTick)
    );
    assert_eq!(
        CoreConfig { min_hires_units_per_event: 0, ..base() }.validate(),
        Err(ConfigError::NonPositiveHiresThreshold)
    );
    assert_eq!(
        CoreConfig { emit_hires_wheel: false, emit_legacy_wheel: false, ..base() }.validate(),
        Err(ConfigError::NoWheelOutput)
    );
    assert_eq!(
        CoreConfig { deadzone_units: -1, ..base() }.validate(),
        Err(ConfigError::NegativeDeadzone)
    );
}
