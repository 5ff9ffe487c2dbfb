use wayland_wheeltani::config::CoreConfig;
use wayland_wheeltani::engine::Engine;
use wayland_wheeltani::model::{CoreAction, CoreInputEvent, EngineState, MouseButton};
use wayland_wheeltani::wheel::{Axis, AxisDrive};

fn engine() -> Engine {
    Engine::new(CoreConfig::default())
}

fn engine_with(cfg: CoreConfig) -> Engine {
    Engine::new(cfg)
}

fn run_for(engine: &mut Engine, secs: f64, dt_micros: u64) -> Vec<CoreAction> {
    let total_us = (secs * 1_000_000.0) as u64;
    let mut all = Vec::new();
    let mut elapsed = 0u64;
    while elapsed < total_us {
        all.extend(engine.process(CoreInputEvent::Tick { dt_micros }));
        elapsed += dt_micros;
    }
    all
}

#[test]
fn click_court_emits_middle_click_and_returns_to_idle() {
    let mut e = engine();
    let down = e.process(CoreInputEvent::MiddleDown);
    assert_eq!(down, vec![CoreAction::Suppress]);
    assert_eq!(e.state(), EngineState::MiddlePending);

    let up = e.process(CoreInputEvent::MiddleUp);
    assert_eq!(up, vec![CoreAction::EmitMiddleClick]);
    assert_eq!(e.state(), EngineState::Idle);
}

#[test]
fn deadzone_keeps_engine_pending_and_does_not_scroll() {
    let mut e = engine();
    e.process(CoreInputEvent::MiddleDown);
    let actions = e.process(CoreInputEvent::Motion { dx: 0, dy: 5 });

    assert!(actions
        .iter()
        .all(|a| !matches!(a, CoreAction::EnterScrollMode)));
    assert_eq!(e.state(), EngineState::MiddlePending);

    let tick = e.process(CoreInputEvent::Tick { dt_micros: 8333 });
    assert!(tick.is_empty());
}

#[test]
fn motion_above_deadzone_enters_scroll_mode() {
    let mut e = engine();
    e.process(CoreInputEvent::MiddleDown);
    let actions = e.process(CoreInputEvent::Motion { dx: 0, dy: 11 });
    assert!(actions.contains(&CoreAction::EnterScrollMode));
    assert_eq!(e.state(), EngineState::Scrolling);
}

#[test]
fn click_after_motion_inside_deadzone_still_emits_middle_click() {
    let mut e = engine();
    e.process(CoreInputEvent::MiddleDown);
    e.process(CoreInputEvent::Motion { dx: 1, dy: 3 });
    e.process(CoreInputEvent::Motion { dx: -1, dy: -2 });
    let up = e.process(CoreInputEvent::MiddleUp);
    assert_eq!(up, vec![CoreAction::EmitMiddleClick]);
    assert_eq!(e.state(), EngineState::Idle);
}

#[test]
fn middle_release_during_scroll_returns_to_idle_without_extra_click() {
    let mut e = engine();
    e.process(CoreInputEvent::MiddleDown);
    e.process(CoreInputEvent::Motion { dx: 0, dy: 100 });
    let _ = run_for(&mut e, 0.2, 8333);

    let release = e.process(CoreInputEvent::MiddleUp);
    assert!(release.contains(&CoreAction::ExitScrollMode));
    assert!(!release.contains(&CoreAction::EmitMiddleClick));
    assert_eq!(e.state(), EngineState::Idle);

    let post = e.process(CoreInputEvent::Tick { dt_micros: 8333 });
    assert!(post.is_empty(), "no scroll should be emitted after release");
}

#[test]
fn motion_is_suppressed_during_pending_when_configured() {
    let mut e = engine();
    e.process(CoreInputEvent::MiddleDown);
    let actions = e.process(CoreInputEvent::Motion { dx: 5, dy: 3 });
    assert!(actions.contains(&CoreAction::Suppress));
    assert!(!actions
        .iter()
        .any(|a| matches!(a, CoreAction::ForwardMotion { .. })));
}

#[test]
fn motion_is_suppressed_during_scrolling_when_configured() {
    let mut e = engine();
    e.process(CoreInputEvent::MiddleDown);
    e.process(CoreInputEvent::Motion { dx: 0, dy: 50 });
    let actions = e.process(CoreInputEvent::Motion { dx: 100, dy: 1 });
    assert!(actions.contains(&CoreAction::Suppress));
    assert!(!actions
        .iter()
        .any(|a| matches!(a, CoreAction::ForwardMotion { .. })));
}

#[test]
fn motion_is_forwarded_when_suppress_disabled() {
    let cfg = CoreConfig {
        suppress_motion_while_pending: false,
        suppress_motion_while_scrolling: false,
        ..CoreConfig::default()
    };
    let mut e = engine_with(cfg);

    e.process(CoreInputEvent::MiddleDown);
    let pending = e.process(CoreInputEvent::Motion { dx: 4, dy: 3 });
    assert!(pending.contains(&CoreAction::ForwardMotion { dx: 4, dy: 3 }));

    e.process(CoreInputEvent::Motion { dx: 0, dy: 50 });
    let scrolling = e.process(CoreInputEvent::Motion { dx: 7, dy: 1 });
    assert!(scrolling.contains(&CoreAction::ForwardMotion { dx: 7, dy: 1 }));
}

#[test]
fn replay_pending_motion_replays_on_short_click() {
    let cfg = CoreConfig {
        replay_pending_motion_on_click: true,
        ..CoreConfig::default()
    };
    let mut e = engine_with(cfg);

    e.process(CoreInputEvent::MiddleDown);
    e.process(CoreInputEvent::Motion { dx: 2, dy: 1 });
    e.process(CoreInputEvent::Motion { dx: -1, dy: 2 });
    let release = e.process(CoreInputEvent::MiddleUp);

    let forwarded: Vec<_> = release
        .iter()
        .filter_map(|a| match a {
            CoreAction::ForwardMotion { dx, dy } => Some((*dx, *dy)),
            _ => None,
        })
        .collect();
    assert_eq!(forwarded, vec![(2, 1), (-1, 2)]);
    assert!(release.contains(&CoreAction::EmitMiddleClick));
}

#[test]
fn left_button_passthrough_in_idle() {
    let mut e = engine();
    let down = e.process(CoreInputEvent::LeftDown);
    assert_eq!(
        down,
        vec![CoreAction::ForwardMouseButton {
            button: MouseButton::Left,
            pressed: true,
        }]
    );
    let up = e.process(CoreInputEvent::LeftUp);
    assert_eq!(
        up,
        vec![CoreAction::ForwardMouseButton {
            button: MouseButton::Left,
            pressed: false,
        }]
    );
}

#[test]
fn right_button_passthrough_during_scrolling() {
    let mut e = engine();
    e.process(CoreInputEvent::MiddleDown);
    e.process(CoreInputEvent::Motion { dx: 0, dy: 50 });
    let click = e.process(CoreInputEvent::RightDown);
    assert_eq!(
        click,
        vec![CoreAction::ForwardMouseButton {
            button: MouseButton::Right,
            pressed: true,
        }]
    );
}

#[test]
fn real_wheel_passes_through_in_all_states() {
    let mut e = engine();
    let idle = e.process(CoreInputEvent::Wheel {
        vertical: 1,
        horizontal: 0,
    });
    assert!(matches!(
        idle.as_slice(),
        [CoreAction::ForwardWheel {
            vertical: 1,
            horizontal: 0
        }]
    ));

    e.process(CoreInputEvent::MiddleDown);
    let pending = e.process(CoreInputEvent::Wheel {
        vertical: -1,
        horizontal: 0,
    });
    assert!(matches!(
        pending.as_slice(),
        [CoreAction::ForwardWheel {
            vertical: -1,
            horizontal: 0
        }]
    ));

    e.process(CoreInputEvent::Motion { dx: 0, dy: 50 });
    let scrolling = e.process(CoreInputEvent::Wheel {
        vertical: 2,
        horizontal: 0,
    });
    assert!(matches!(
        scrolling.as_slice(),
        [CoreAction::ForwardWheel {
            vertical: 2,
            horizontal: 0
        }]
    ));
}

#[test]
fn offset_is_clamped_to_max_offset_units() {
    let mut e = engine();
    e.process(CoreInputEvent::MiddleDown);
    e.process(CoreInputEvent::Motion { dx: 0, dy: 100_000 });
    assert_eq!(e.offset_y_units(), 240);

    e.process(CoreInputEvent::Motion {
        dx: 0,
        dy: -1_000_000,
    });
    assert_eq!(e.offset_y_units(), -240);
}

#[test]
fn middle_down_starts_from_zero_offset_after_previous_session() {
    let mut e = engine();
    e.process(CoreInputEvent::MiddleDown);
    e.process(CoreInputEvent::Motion { dx: 0, dy: 200 });
    assert_eq!(e.state(), EngineState::Scrolling);
    e.process(CoreInputEvent::MiddleUp);

    assert_eq!(e.offset_y_units(), 0);
    e.process(CoreInputEvent::MiddleDown);
    assert_eq!(e.offset_y_units(), 0);
    let nothing = e.process(CoreInputEvent::Tick { dt_micros: 8333 });
    assert!(nothing.is_empty());
}

#[test]
fn idle_middle_release_is_forwarded() {
    let mut e = engine();
    let up = e.process(CoreInputEvent::MiddleUp);
    assert_eq!(
        up,
        vec![CoreAction::ForwardMouseButton {
            button: MouseButton::Middle,
            pressed: false,
        }]
    );
    assert_eq!(e.state(), EngineState::Idle);
}

#[test]
fn hires_input_passes_through_while_scrolling() {
    let mut e = engine();
    e.process(CoreInputEvent::MiddleDown);
    e.process(CoreInputEvent::Motion { dx: 0, dy: 50 });
    let out = e.process(CoreInputEvent::WheelHiRes {
        vertical_units: 30,
        horizontal_units: -60,
    });
    assert_eq!(
        out,
        vec![CoreAction::EmitWheelHiRes {
            vertical_units: 30,
            horizontal_units: -60,
        }]
    );
    assert_eq!(e.state(), EngineState::Scrolling);
}

#[test]
fn horizontal_motion_enters_scroll_mode_when_enabled() {
    let mut e = engine();
    e.process(CoreInputEvent::MiddleDown);
    let actions = e.process(CoreInputEvent::Motion { dx: 11, dy: 0 });
    assert_eq!(actions, vec![CoreAction::Suppress, CoreAction::EnterScrollMode]);
    assert_eq!(e.offset_x_units(), 11);

    let mut vertical_only = engine_with(CoreConfig {
        horizontal_scroll: false,
        ..CoreConfig::default()
    });
    vertical_only.process(CoreInputEvent::MiddleDown);
    let actions = vertical_only.process(CoreInputEvent::Motion { dx: 500, dy: 0 });
    assert_eq!(actions, vec![CoreAction::Suppress]);
    assert_eq!(vertical_only.offset_x_units(), 0);
    assert_eq!(vertical_only.state(), EngineState::MiddlePending);
}

#[test]
fn scroll_axes_follow_offsets_and_inversion() {
    let mut e = engine();
    e.process(CoreInputEvent::MiddleDown);
    e.process(CoreInputEvent::Motion { dx: 0, dy: 120 });
    assert_eq!(
        e.scroll_axes(),
        vec![AxisDrive { axis: Axis::Vertical, distance: 120, direction: -1 }]
    );
    e.process(CoreInputEvent::Motion { dx: -40, dy: -220 });
    assert_eq!(
        e.scroll_axes(),
        vec![
            AxisDrive { axis: Axis::Vertical, distance: 100, direction: 1 },
            AxisDrive { axis: Axis::Horizontal, distance: 40, direction: -1 },
        ]
    );
    e.process(CoreInputEvent::Motion { dx: 35, dy: 95 });
    assert!(e.scroll_axes().is_empty());

    let mut inverted = engine_with(CoreConfig {
        invert_vertical: true,
        ..CoreConfig::default()
    });
    inverted.process(CoreInputEvent::MiddleDown);
    inverted.process(CoreInputEvent::Motion { dx: 0, dy: 120 });
    assert_eq!(inverted.scroll_axes()[0].direction, 1);
}

#[test]
fn horizontal_offset_stays_zero_while_horizontal_scroll_is_off() {
    let mut e = engine_with(CoreConfig {
        horizontal_scroll: false,
        ..CoreConfig::default()
    });
    e.process(CoreInputEvent::MiddleDown);
    e.process(CoreInputEvent::Motion { dx: 300, dy: 50 });
    assert_eq!(e.state(), EngineState::Scrolling);
    assert_eq!(e.offset_x_units(), 0);
    e.process(CoreInputEvent::Motion { dx: -900, dy: 400 });
    assert_eq!(e.offset_x_units(), 0);
    assert_eq!(e.offset_y_units(), 240);
    e.process(CoreInputEvent::MiddleUp);
    assert_eq!((e.offset_x_units(), e.offset_y_units()), (0, 0));
}

#[test]
fn idle_engine_forwards_motion_and_ignores_ticks() {
    let mut e = engine();
    assert_eq!(
        e.process(CoreInputEvent::Motion { dx: 3, dy: -4 }),
        vec![CoreAction::ForwardMotion { dx: 3, dy: -4 }]
    );
    assert!(e.process(CoreInputEvent::Tick { dt_micros: 8333 }).is_empty());
    assert_eq!(e.state(), EngineState::Idle);
    assert_eq!((e.offset_x_units(), e.offset_y_units()), (0, 0));
}

#[test]
fn click_with_buttons_wheel_and_ticks_in_between_replays_motion() {
    let mut e = engine_with(CoreConfig {
        replay_pending_motion_on_click: true,
        ..CoreConfig::default()
    });
    e.process(CoreInputEvent::MiddleDown);
    e.process(CoreInputEvent::Motion { dx: 2, dy: 1 });
    e.process(CoreInputEvent::LeftDown);
    e.process(CoreInputEvent::Tick { dt_micros: 8333 });
    e.process(CoreInputEvent::Wheel { vertical: 1, horizontal: 0 });
    e.process(CoreInputEvent::Motion { dx: -1, dy: 3 });
    e.process(CoreInputEvent::LeftUp);
    assert_eq!(e.state(), EngineState::MiddlePending);
    let up = e.process(CoreInputEvent::MiddleUp);
    assert_eq!(
        up,
        vec![
            CoreAction::ForwardMotion { dx: 2, dy: 1 },
            CoreAction::ForwardMotion { dx: -1, dy: 3 },
            CoreAction::EmitMiddleClick,
        ]
    );
    assert_eq!(e.state(), EngineState::Idle);
    assert_eq!((e.offset_x_units(), e.offset_y_units()), (0, 0));
}
