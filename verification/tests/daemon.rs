use std::time::Duration;

use wayland_wheeltani::cli::Args;
use wayland_wheeltani::config_loader::{
    choose_config_file, config_file_path, effective_config_path, join, legacy_config_file_path,
    legacy_user_config_path, resolve, sudo_owner, sudo_user_name, user_config_path,
    CoreFileConfig, DaemonFileConfig, LegacyConfig,
};
use wayland_wheeltani::config::ConfigError;
use wayland_wheeltani::daemon::{
    flush_batch, parse_selection, plan_emission, poll_timeout_millis, select_device, should_stop,
    tick_due, tick_dt_micros, tick_period_micros, until_next_tick, DeviceChoice, EmitStep,
    SelectionError, StopReason,
};
use wayland_wheeltani::device::{inspect, VIRTUAL_MOUSE_NAME};
use wayland_wheeltani::event_router::{
    classify, dry_run_describe, RawInputEvent, RoutedEvent, BTN_EXTRA, BTN_LEFT, BTN_MIDDLE,
    BTN_RIGHT, EV_KEY, EV_REL, REL_HWHEEL_HI_RES, REL_WHEEL, REL_X, REL_Y,
};
use wayland_wheeltani::model::{CoreAction, CoreInputEvent, MouseButton};

fn args_with_config(path: &str) -> Args {
    Args {
        device: None,
        config: Some(path.to_owned()),
        setup: false,
        list_devices: false,
        no_grab: false,
        dry_run: false,
        no_interactive: false,
        verbose: 0,
        safety_timeout_seconds: None,
    }
}

fn poll_ms(d: Duration) -> u16 {
    poll_timeout_millis(d.as_micros())
}

#[test]
fn poll_timeout_rounds_sub_millisecond_deadlines_up() {
    assert_eq!(poll_ms(Duration::ZERO), 0);
    assert_eq!(poll_ms(Duration::from_micros(1)), 1);
    assert_eq!(poll_ms(Duration::from_micros(999)), 1);
    assert_eq!(poll_ms(Duration::from_micros(1_001)), 2);
}

#[test]
fn poll_timeout_saturates_at_poll_limit() {
    assert_eq!(poll_ms(Duration::from_secs(120)), u16::MAX);
}

#[test]
fn explicit_config_path_wins() {
    let path = "/tmp/wayland-wheeltani-explicit/config.toml";
    let args = args_with_config(path);
    assert_eq!(
        effective_config_path(&args, Some("/home/u/.config/x".to_owned()), Some("/d".to_owned())),
        Some(path.to_owned())
    );
    let mut no_config = args.clone();
    no_config.config = None;
    assert_eq!(
        effective_config_path(&no_config, Some("/home/u".to_owned()), Some("/d".to_owned())),
        Some("/home/u".to_owned())
    );
    assert_eq!(
        effective_config_path(&no_config, None, Some("/d".to_owned())),
        Some("/d".to_owned())
    );
}

#[test]
fn resolve_loads_min_hires_units_per_event() {
    let file = DaemonFileConfig {
        core: CoreFileConfig {
            min_hires_units_per_event: Some(30),
            ..CoreFileConfig::default()
        },
        ..DaemonFileConfig::default()
    };
    let resolved = resolve(&args_with_config("hires-threshold"), Some(file)).unwrap();
    assert_eq!(resolved.core.min_hires_units_per_event, 30);
}

#[test]
fn flags_override_the_config_file() {
    let file = DaemonFileConfig {
        device: Some("/dev/input/event7".to_owned()),
        grab: Some(false),
        dry_run: Some(false),
        safety_timeout_seconds: Some(60),
        core: CoreFileConfig {
            deadzone_units: Some(42),
            scroll_speed_step_distances: Some(vec![50]),
            ..CoreFileConfig::default()
        },
    };
    let mut args = args_with_config("preserve");
    args.device = Some("/dev/input/event12".to_owned());
    args.dry_run = true;
    let resolved = resolve(&args, Some(file)).unwrap();
    assert_eq!(resolved.device.as_deref(), Some("/dev/input/event12"));
    assert!(!resolved.grab);
    assert!(resolved.dry_run);
    assert_eq!(resolved.safety_timeout_seconds, Some(60));
    assert_eq!(resolved.core.deadzone_units, 42);
    assert_eq!(resolved.core.scroll_speed_step_distances, vec![50]);

    let defaults = resolve(&args_with_config("none"), None).unwrap();
    assert!(defaults.grab);
    assert!(!defaults.dry_run);
    assert_eq!(defaults.device, None);
    assert_eq!(defaults.core.deadzone_units, 10);
}

#[test]
fn resolve_rejects_an_invalid_file() {
    let file = DaemonFileConfig {
        core: CoreFileConfig { deadzone_units: Some(-3), ..CoreFileConfig::default() },
        ..DaemonFileConfig::default()
    };
    assert_eq!(
        resolve(&args_with_config("bad"), Some(file)).unwrap_err(),
        ConfigError::NegativeDeadzone
    );
}

#[test]
fn file_mode_is_carried_into_the_core_config() {
    let base = wayland_wheeltani::config::CoreConfig::default();
    assert_eq!(base.mode, None);
    let f = CoreFileConfig {
        mode: Some("hold".to_owned()),
        invert_vertical: Some(true),
        ..CoreFileConfig::default()
    };
    let core = f.into_core(base.clone());
    assert_eq!(core.mode, Some("hold".to_owned()));
    assert!(core.invert_vertical);
    assert!(!core.invert_horizontal);
    let kept = CoreFileConfig::default().into_core(core.clone());
    assert_eq!(kept.mode, Some("hold".to_owned()));
}

#[test]
fn sudo_user_paths() {
    assert_eq!(sudo_user_name(Some("root".to_owned())), None);
    assert_eq!(sudo_user_name(Some(String::new())), None);
    assert_eq!(sudo_user_name(None), None);
    assert_eq!(sudo_user_name(Some("alice".to_owned())), Some("alice".to_owned()));
    assert_eq!(
        user_config_path("/home/alice".to_owned()),
        "/home/alice/.config/wayland-wheeltani/config.toml"
    );
    assert_eq!(
        legacy_user_config_path("/home/alice".to_owned()),
        "/home/alice/.config/Wayland-Wheeltani/config.toml"
    );
    assert_eq!(join("/home/alice/".to_owned(), "x"), "/home/alice/x");
    assert_eq!(join(String::new(), "x"), "x");
    assert_eq!(join("/home".to_owned(), "/abs"), "/abs");
    assert_eq!(sudo_owner(Some("1000".to_owned()), Some("+100".to_owned())), Some((1000, 100)));
    assert_eq!(sudo_owner(Some("4294967296".to_owned()), Some("1".to_owned())), None);
    assert_eq!(sudo_owner(Some(" 1".to_owned()), Some("1".to_owned())), None);
    assert_eq!(sudo_owner(None, Some("1".to_owned())), None);
}

#[test]
fn sudo_and_own_runs_share_the_lowercase_directory() {
    let own = config_file_path("/home/alice/.config".to_owned());
    let sudo = user_config_path("/home/alice".to_owned());
    assert_eq!(own, sudo);
    let mut args = args_with_config("x");
    args.config = None;
    assert_eq!(
        effective_config_path(&args, Some(sudo), Some("/root/.config/wayland-wheeltani/config.toml".to_owned())),
        Some("/home/alice/.config/wayland-wheeltani/config.toml".to_owned())
    );
    assert_eq!(
        legacy_config_file_path("/home/alice/.config".to_owned()),
        "/home/alice/.config/Wayland-Wheeltani/config.toml"
    );
}

#[test]
fn legacy_config_directory_is_read_only_when_alone() {
    let current = "/h/.config/wayland-wheeltani/config.toml".to_owned();
    let legacy = "/h/.config/Wayland-Wheeltani/config.toml".to_owned();
    assert_eq!(
        choose_config_file(current.clone(), legacy.clone(), false, true),
        (legacy.clone(), LegacyConfig::InUse)
    );
    assert_eq!(
        choose_config_file(current.clone(), legacy.clone(), true, true),
        (current.clone(), LegacyConfig::Shadowed)
    );
    assert_eq!(
        choose_config_file(current.clone(), legacy.clone(), true, false),
        (current.clone(), LegacyConfig::Absent)
    );
    assert_eq!(
        choose_config_file(current.clone(), legacy, false, false),
        (current, LegacyConfig::Absent)
    );
}

#[test]
fn log_directive_follows_verbosity() {
    let mut args = args_with_config("x");
    assert_eq!(args.log_directive(), "wayland_wheeltani=info,middle_scroll_core=warn");
    args.verbose = 1;
    assert_eq!(args.log_directive(), "wayland_wheeltani=debug,middle_scroll_core=info");
    args.verbose = 5;
    assert_eq!(args.log_directive(), "wayland_wheeltani=trace,middle_scroll_core=trace");
}

fn raw(event_type: u16, code: u16, value: i32) -> RawInputEvent {
    RawInputEvent { event_type, code, value }
}

#[test]
fn classify_routes_buttons_motion_and_wheels() {
    assert_eq!(classify(&raw(EV_KEY, BTN_MIDDLE, 1)), RoutedEvent::Core(CoreInputEvent::MiddleDown));
    assert_eq!(classify(&raw(EV_KEY, BTN_MIDDLE, 0)), RoutedEvent::Core(CoreInputEvent::MiddleUp));
    assert_eq!(classify(&raw(EV_KEY, BTN_MIDDLE, 2)), RoutedEvent::Ignore);
    assert_eq!(classify(&raw(EV_KEY, BTN_LEFT, 1)), RoutedEvent::Core(CoreInputEvent::LeftDown));
    assert_eq!(classify(&raw(EV_KEY, BTN_RIGHT, 0)), RoutedEvent::Core(CoreInputEvent::RightUp));
    assert_eq!(
        classify(&raw(EV_KEY, BTN_EXTRA, 1)),
        RoutedEvent::DirectButton { button: MouseButton::Extra, pressed: true }
    );
    assert_eq!(
        classify(&raw(EV_REL, REL_X, -4)),
        RoutedEvent::Core(CoreInputEvent::Motion { dx: -4, dy: 0 })
    );
    assert_eq!(
        classify(&raw(EV_REL, REL_Y, 7)),
        RoutedEvent::Core(CoreInputEvent::Motion { dx: 0, dy: 7 })
    );
    assert_eq!(
        classify(&raw(EV_REL, REL_WHEEL, -1)),
        RoutedEvent::Core(CoreInputEvent::Wheel { vertical: -1, horizontal: 0 })
    );
    assert_eq!(
        classify(&raw(EV_REL, REL_HWHEEL_HI_RES, 60)),
        RoutedEvent::Core(CoreInputEvent::WheelHiRes { vertical_units: 0, horizontal_units: 60 })
    );
    assert_eq!(classify(&raw(EV_KEY, 30, 1)), RoutedEvent::Ignore);
    assert_eq!(classify(&raw(0, 0, 0)), RoutedEvent::Ignore);
}

#[test]
fn dry_run_descriptions_redact_amounts() {
    assert_eq!(
        dry_run_describe(&CoreAction::ForwardMouseButton { button: MouseButton::Left, pressed: true }),
        Some("ForwardMouseButton(Left, pressed=true)".to_owned())
    );
    assert_eq!(
        dry_run_describe(&CoreAction::ForwardMotion { dx: 3, dy: 4 }),
        Some("ForwardMotion(<redacted>)".to_owned())
    );
    assert_eq!(
        dry_run_describe(&CoreAction::EmitWheelDetents { vertical: -2, horizontal: 0 }),
        Some("EmitWheelDetents(direction=-)".to_owned())
    );
    assert_eq!(
        dry_run_describe(&CoreAction::EmitWheelHiRes { vertical_units: 0, horizontal_units: 5 }),
        Some("EmitWheelHiRes(direction=0)".to_owned())
    );
    assert_eq!(dry_run_describe(&CoreAction::EmitMiddleClick), Some("EmitMiddleClick".to_owned()));
    assert_eq!(dry_run_describe(&CoreAction::Suppress), None);
}

#[test]
fn tick_timing() {
    assert_eq!(tick_period_micros(120), 8333);
    assert_eq!(until_next_tick(8333, 3_000_000), 5333);
    assert_eq!(until_next_tick(8333, 9_000_000), 0);
    assert_eq!(until_next_tick(8333, 3_332_500), 5000);
    assert_eq!(poll_timeout_millis(until_next_tick(8333, 3_332_500)), 5);
    assert_eq!(until_next_tick(8333, 8_333_000), 0);
    assert!(tick_due(8333, 8333));
    assert!(!tick_due(8333, 8332));
    assert_eq!(tick_dt_micros(u128::from(u64::MAX) + 5), u64::MAX);
    assert_eq!(tick_dt_micros(8400), 8400);
}

#[test]
fn loop_stops_on_shutdown_or_timeout() {
    assert_eq!(should_stop(true, None, 0), Some(StopReason::ShutdownRequested));
    assert_eq!(should_stop(false, Some(2), 1_999_999), None);
    assert_eq!(should_stop(false, Some(2), 2_000_000), Some(StopReason::SafetyTimeout));
    assert_eq!(should_stop(false, None, u128::MAX), None);
}

#[test]
fn flush_batch_takes_the_batch() {
    let action = CoreAction::ForwardMotion { dx: 1, dy: 1 };
    let mut batch = vec![action];
    assert_eq!(flush_batch(&mut batch, false), Some(vec![action]));
    assert!(batch.is_empty());
    let mut batch = vec![action];
    assert_eq!(flush_batch(&mut batch, true), None);
    assert!(batch.is_empty());
    let mut empty = Vec::new();
    assert_eq!(flush_batch(&mut empty, false), None);
}

#[test]
fn emission_batches_and_flushes_before_clicks() {
    let motion = CoreAction::ForwardMotion { dx: 2, dy: 1 };
    let wheel = CoreAction::ForwardWheel { vertical: 1, horizontal: 0 };
    let actions = vec![
        CoreAction::EnterScrollMode,
        motion,
        CoreAction::Suppress,
        CoreAction::EmitMiddleClick,
        wheel,
        CoreAction::ExitScrollMode,
    ];
    assert_eq!(
        plan_emission(&actions, false),
        vec![
            EmitStep::EnterScroll,
            EmitStep::ApplyBatch(vec![motion]),
            EmitStep::EmitMiddleClick,
            EmitStep::ExitScroll,
            EmitStep::ApplyBatch(vec![wheel]),
        ]
    );
    assert_eq!(
        plan_emission(&actions, true),
        vec![
            EmitStep::EnterScroll,
            EmitStep::DryRunLog("ForwardMotion(<redacted>)".to_owned()),
            EmitStep::DryRunLog("EmitMiddleClick".to_owned()),
            EmitStep::DryRunLog("ForwardWheel(<redacted>)".to_owned()),
            EmitStep::ExitScroll,
        ]
    );
}

#[test]
fn device_selection_rules() {
    assert_eq!(select_device(true, 1, true), Err(SelectionError::NoDevice));
    assert_eq!(select_device(false, 0, true), Err(SelectionError::NoMiceFound));
    assert_eq!(select_device(false, 1, false), Ok(DeviceChoice::Candidate(0)));
    assert_eq!(select_device(false, 3, false), Err(SelectionError::NonInteractiveDeviceChoice));
    assert_eq!(select_device(false, 3, true), Ok(DeviceChoice::Prompt));
    assert_eq!(parse_selection(" 2\n", 3), Some(1));
    assert_eq!(parse_selection("0", 3), None);
    assert_eq!(parse_selection("4", 3), None);
    assert_eq!(parse_selection("two", 3), None);
}

#[test]
fn inspect_accepts_only_mice() {
    let keys = vec![BTN_LEFT, BTN_RIGHT, BTN_MIDDLE, 30];
    let axes = vec![REL_WHEEL, REL_Y, REL_X];
    let info = inspect(
        "/dev/input/event3".to_owned(),
        "Mouse".to_owned(),
        Some("usb-1".to_owned()),
        Some(keys.clone()),
        Some(axes.clone()),
    )
    .expect("mouse");
    assert_eq!(info.keys, vec![BTN_LEFT, BTN_RIGHT, BTN_MIDDLE]);
    assert_eq!(info.axes, vec![REL_X, REL_Y, REL_WHEEL]);
    assert!(inspect(
        "/dev/input/event4".to_owned(),
        VIRTUAL_MOUSE_NAME.to_owned(),
        None,
        Some(keys.clone()),
        Some(axes.clone())
    )
    .is_none());
    assert!(inspect("/dev/input/event5".to_owned(), "Keyboard".to_owned(), None, Some(vec![30]), Some(axes)).is_none());
    assert!(inspect("/dev/input/event6".to_owned(), "Pad".to_owned(), None, Some(keys), None).is_none());
}
