use wayland_wheeltani::model::CoreAction;
use wayland_wheeltani::wheel::{
    drain_hires, drain_legacy_step, hires_cap, reached_step, wheel_sign_x, wheel_sign_y, Axis,
    AxisDrive, Drain,
};

#[test]
fn wheel_signs_follow_pointer_direction() {
    assert_eq!(wheel_sign_y(120, 10), -1);
    assert_eq!(wheel_sign_y(-120, 10), 1);
    assert_eq!(wheel_sign_y(10, 10), 0);
    assert_eq!(wheel_sign_y(-10, 10), 0);
    assert_eq!(wheel_sign_x(11, 10), 1);
    assert_eq!(wheel_sign_x(-11, 10), -1);
    assert_eq!(wheel_sign_x(0, 10), 0);
}

#[test]
fn last_reached_step_wins() {
    let steps = vec![40, 80];
    assert_eq!(reached_step(&steps, 100), Some(1));
    assert_eq!(reached_step(&steps, 80), Some(1));
    assert_eq!(reached_step(&steps, 79), Some(0));
    assert_eq!(reached_step(&steps, 39), None);
    assert_eq!(reached_step(&Vec::new(), 500), None);
}

#[test]
fn legacy_drain_caps_and_resets() {
    assert_eq!(drain_legacy_step(0, 3), None);
    assert_eq!(drain_legacy_step(2, 3), Some(Drain { amount: 2, resets: false }));
    assert_eq!(drain_legacy_step(-3, 3), Some(Drain { amount: -3, resets: false }));
    assert_eq!(drain_legacy_step(7, 3), Some(Drain { amount: 3, resets: true }));
    assert_eq!(drain_legacy_step(-9, 2), Some(Drain { amount: -2, resets: true }));
}

#[test]
fn hires_drain_waits_for_threshold() {
    assert_eq!(drain_hires(14, 360, 15), None);
    assert_eq!(drain_hires(-14, 360, 15), None);
    assert_eq!(drain_hires(15, 360, 15), Some(Drain { amount: 15, resets: false }));
    assert_eq!(drain_hires(-200, 360, 15), Some(Drain { amount: -200, resets: false }));
    assert_eq!(drain_hires(1000, 360, 15), Some(Drain { amount: 360, resets: true }));
    assert_eq!(drain_hires(1000, 360, -1), None);
}

#[test]
fn hires_cap_is_120_units_per_detent() {
    assert_eq!(hires_cap(3), 360);
    assert_eq!(hires_cap(1), 120);
    assert_eq!(hires_cap(i32::MAX), i32::MAX);
}

#[test]
fn axis_actions_land_on_their_axis() {
    let v = AxisDrive { axis: Axis::Vertical, distance: 50, direction: -1 };
    let h = AxisDrive { axis: Axis::Horizontal, distance: 50, direction: 1 };
    assert_eq!(v.detents(-2), CoreAction::EmitWheelDetents { vertical: -2, horizontal: 0 });
    assert_eq!(h.detents(1), CoreAction::EmitWheelDetents { vertical: 0, horizontal: 1 });
    assert_eq!(v.hires(-30), CoreAction::EmitWheelHiRes { vertical_units: -30, horizontal_units: 0 });
    assert_eq!(h.hires(45), CoreAction::EmitWheelHiRes { vertical_units: 0, horizontal_units: 45 });
}

#[test]
fn drains_below_their_threshold_accept_any_cap() {
    assert_eq!(drain_legacy_step(0, -1), None);
    assert_eq!(drain_hires(14, -120, 15), None);
    assert_eq!(drain_hires(-14, -120, 15), None);
}
