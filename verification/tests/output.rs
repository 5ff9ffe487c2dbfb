use wayland_wheeltani::daemon::{
    chown_parent, device_plan, grab_plan, save_owner, temp_file_name, DevicePlan, GrabPlan,
};
use wayland_wheeltani::device::{listing_lines, DeviceInfo};
use wayland_wheeltani::event_router::{
    batch_events, middle_click_events, RawInputEvent, BTN_LEFT, BTN_MIDDLE, BTN_SIDE, EV_KEY,
    EV_REL, REL_HWHEEL, REL_WHEEL, REL_WHEEL_HI_RES, REL_X, REL_Y,
};
use wayland_wheeltani::event_router::{classify, RoutedEvent};
use wayland_wheeltani::model::{CoreAction, CoreInputEvent, MouseButton};

#[test]
fn listing_without_devices_gives_a_hint() {
    assert_eq!(
        listing_lines(&Vec::new()),
        vec![
            "No mouse-like input devices found under /dev/input/.".to_owned(),
            "Hint: you may need to run this with elevated privileges.".to_owned(),
        ]
    );
}

#[test]
fn listing_numbers_devices_and_names_capabilities() {
    let devices = vec![
        DeviceInfo {
            path: "/dev/input/event3".to_owned(),
            name: "Logitech Mouse".to_owned(),
            phys: Some("usb-0000:00:14.0-5/input0".to_owned()),
            keys: vec![BTN_LEFT, BTN_MIDDLE, BTN_SIDE],
            axes: vec![REL_X, REL_Y, REL_WHEEL_HI_RES],
        },
        DeviceInfo {
            path: "/dev/input/event12".to_owned(),
            name: "Trackball".to_owned(),
            phys: None,
            keys: Vec::new(),
            axes: vec![REL_X],
        },
    ];
    assert_eq!(
        listing_lines(&devices),
        vec![
            "Candidate mice:",
            "",
            "[1] /dev/input/event3",
            "    name: Logitech Mouse",
            "    phys: usb-0000:00:14.0-5/input0",
            "    supports:",
            "      EV_KEY: BTN_LEFT BTN_MIDDLE BTN_SIDE",
            "      EV_REL: REL_X REL_Y REL_WHEEL_HI_RES",
            "",
            "[2] /dev/input/event12",
            "    name: Trackball",
            "    supports:",
            "      EV_REL: REL_X",
            "",
        ]
        .into_iter()
        .map(str::to_owned)
        .collect::<Vec<_>>()
    );
}

#[test]
fn listing_names_unknown_codes_by_number() {
    let devices = vec![DeviceInfo {
        path: "/dev/input/event1".to_owned(),
        name: "Odd".to_owned(),
        phys: None,
        keys: vec![30],
        axes: Vec::new(),
    }];
    assert_eq!(listing_lines(&devices)[5], "      EV_KEY: unknown key: 30");
}

#[test]
fn startup_and_grab_plans() {
    assert_eq!(device_plan(true, true), DevicePlan::SelectSaveAndExit);
    assert_eq!(device_plan(false, false), DevicePlan::SelectSaveAndRun);
    assert_eq!(device_plan(false, true), DevicePlan::UseConfigured);
    assert_eq!(grab_plan(true, false), GrabPlan::Grab);
    assert_eq!(grab_plan(true, true), GrabPlan::SkipForDryRun);
    assert_eq!(grab_plan(false, false), GrabPlan::NoGrab);
}

#[test]
fn saved_config_ownership() {
    assert_eq!(save_owner(false, Some((1000, 1000))), Some((1000, 1000)));
    assert_eq!(save_owner(true, Some((1000, 1000))), None);
    assert!(chown_parent(Some((1, 1)), false));
    assert!(!chown_parent(Some((1, 1)), true));
    assert!(!chown_parent(None, false));
    assert_eq!(temp_file_name("config.toml", 0), ".config.toml.0.tmp");
    assert_eq!(
        temp_file_name("config.toml", 1_700_000_000_123_456_789),
        ".config.toml.1700000000123456789.tmp"
    );
}

#[test]
fn batches_become_input_events() {
    let actions = vec![
        CoreAction::ForwardMouseButton { button: MouseButton::Left, pressed: true },
        CoreAction::ForwardMotion { dx: 3, dy: 0 },
        CoreAction::ForwardMotion { dx: -1, dy: 2 },
        CoreAction::EmitWheelDetents { vertical: -1, horizontal: 0 },
        CoreAction::ForwardWheel { vertical: 0, horizontal: 2 },
        CoreAction::EmitWheelHiRes { vertical_units: 15, horizontal_units: 0 },
        CoreAction::Suppress,
    ];
    let ev = |event_type, code, value| RawInputEvent { event_type, code, value };
    assert_eq!(
        batch_events(&actions),
        vec![
            ev(EV_KEY, BTN_LEFT, 1),
            ev(EV_REL, REL_X, 3),
            ev(EV_REL, REL_X, -1),
            ev(EV_REL, REL_Y, 2),
            ev(EV_REL, REL_WHEEL, -1),
            ev(EV_REL, REL_HWHEEL, 2),
            ev(EV_REL, REL_WHEEL_HI_RES, 15),
        ]
    );
    assert_eq!(
        middle_click_events(),
        (ev(EV_KEY, BTN_MIDDLE, 1), ev(EV_KEY, BTN_MIDDLE, 0))
    );
}

#[test]
fn forwarded_input_reads_back() {
    let side = batch_events(&vec![CoreAction::ForwardMouseButton {
        button: MouseButton::Side,
        pressed: false,
    }]);
    assert_eq!(
        classify(&side[0]),
        RoutedEvent::DirectButton { button: MouseButton::Side, pressed: false }
    );
    let right = batch_events(&vec![CoreAction::ForwardMouseButton {
        button: MouseButton::Right,
        pressed: true,
    }]);
    assert_eq!(classify(&right[0]), RoutedEvent::Core(CoreInputEvent::RightDown));
    let motion = batch_events(&vec![CoreAction::ForwardMotion { dx: 5, dy: -6 }]);
    assert_eq!(
        classify(&motion[0]),
        RoutedEvent::Core(CoreInputEvent::Motion { dx: 5, dy: 0 })
    );
    assert_eq!(
        classify(&motion[1]),
        RoutedEvent::Core(CoreInputEvent::Motion { dx: 0, dy: -6 })
    );
}
