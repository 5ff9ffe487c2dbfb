//! Routing of raw input events: which go to the engine, which are forwarded
//! directly as button presses, and which are ignored; and the log line of
//! an action in dry-run mode.

use vstd::prelude::*;

use crate::model::{CoreAction, CoreInputEvent, MouseButton};

verus! {

/// Linux input event types.
pub const EV_KEY: u16 = 0x01;
pub const EV_REL: u16 = 0x02;

/// Linux button codes.
pub const BTN_LEFT: u16 = 0x110;
pub const BTN_RIGHT: u16 = 0x111;
pub const BTN_MIDDLE: u16 = 0x112;
pub const BTN_SIDE: u16 = 0x113;
pub const BTN_EXTRA: u16 = 0x114;
pub const BTN_FORWARD: u16 = 0x115;
pub const BTN_BACK: u16 = 0x116;

/// Linux relative axis codes.
pub const REL_X: u16 = 0x00;
pub const REL_Y: u16 = 0x01;
pub const REL_HWHEEL: u16 = 0x06;
pub const REL_WHEEL: u16 = 0x08;
pub const REL_WHEEL_HI_RES: u16 = 0x0b;
pub const REL_HWHEEL_HI_RES: u16 = 0x0c;

/// An input event as read from the device: its type, code and value.
#[derive(Debug, Clone, Copy, PartialEq, Eq, Structural)]
pub struct RawInputEvent {
    pub event_type: u16,
    pub code: u16,
    pub value: i32,
}

/// Where an input event goes.
#[derive(Debug, Clone, Copy, PartialEq, Eq, Structural)]
pub enum RoutedEvent {
    Core(CoreInputEvent),
    DirectButton { button: MouseButton, pressed: bool },
    Ignore,
}

/// A press (1) or release (0) of a button the engine handles; other values
/// (such as autorepeat) are ignored.
pub open spec fn spec_press_or_release(value: i32, down: CoreInputEvent, up: CoreInputEvent) -> RoutedEvent {
    if value == 1 {
        RoutedEvent::Core(down)
    } else if value == 0 {
        RoutedEvent::Core(up)
    } else {
        RoutedEvent::Ignore
    }
}

/// A press (1) or release (0) of a button forwarded without the engine.
pub open spec fn spec_button_passthrough(value: i32, button: MouseButton) -> RoutedEvent {
    if value == 1 {
        RoutedEvent::DirectButton { button, pressed: true }
    } else if value == 0 {
        RoutedEvent::DirectButton { button, pressed: false }
    } else {
        RoutedEvent::Ignore
    }
}

/// The routing of an event.
pub open spec fn spec_classify(e: RawInputEvent) -> RoutedEvent {
    let v = e.value;
    if e.event_type == EV_KEY {
        if e.code == BTN_MIDDLE {
            if v == 1 {
                RoutedEvent::Core(CoreInputEvent::MiddleDown)
            } else if v == 0 {
                RoutedEvent::Core(CoreInputEvent::MiddleUp)
            } else {
                RoutedEvent::Ignore
            }
        } else if e.code == BTN_LEFT {
            spec_press_or_release(v, CoreInputEvent::LeftDown, CoreInputEvent::LeftUp)
        } else if e.code == BTN_RIGHT {
            spec_press_or_release(v, CoreInputEvent::RightDown, CoreInputEvent::RightUp)
        } else if e.code == BTN_SIDE {
            spec_button_passthrough(v, MouseButton::Side)
        } else if e.code == BTN_EXTRA {
            spec_button_passthrough(v, MouseButton::Extra)
        } else if e.code == BTN_FORWARD {
            spec_button_passthrough(v, MouseButton::Forward)
        } else if e.code == BTN_BACK {
            spec_button_passthrough(v, MouseButton::Back)
        } else {
            RoutedEvent::Ignore
        }
    } else if e.event_type == EV_REL {
        if e.code == REL_X {
            RoutedEvent::Core(CoreInputEvent::Motion { dx: v, dy: 0 })
        } else if e.code == REL_Y {
            RoutedEvent::Core(CoreInputEvent::Motion { dx: 0, dy: v })
        } else if e.code == REL_WHEEL {
            RoutedEvent::Core(CoreInputEvent::Wheel { vertical: v, horizontal: 0 })
        } else if e.code == REL_HWHEEL {
            RoutedEvent::Core(CoreInputEvent::Wheel { vertical: 0, horizontal: v })
        } else if e.code == REL_WHEEL_HI_RES {
            RoutedEvent::Core(CoreInputEvent::WheelHiRes { vertical_units: v, horizontal_units: 0 })
        } else if e.code == REL_HWHEEL_HI_RES {
            RoutedEvent::Core(CoreInputEvent::WheelHiRes { vertical_units: 0, horizontal_units: v })
        } else {
            RoutedEvent::Ignore
        }
    } else {
        RoutedEvent::Ignore
    }
}

pub fn classify(event: &RawInputEvent) -> (r: RoutedEvent)
    ensures
        r == spec_classify(*event),
{
    let v = event.value;
    if event.event_type == EV_KEY {
        match event.code {
            BTN_MIDDLE => if v == 1 {
                RoutedEvent::Core(CoreInputEvent::MiddleDown)
            } else if v == 0 {
                RoutedEvent::Core(CoreInputEvent::MiddleUp)
            } else {
                RoutedEvent::Ignore
            },
            BTN_LEFT => press_or_release(v, CoreInputEvent::LeftDown, CoreInputEvent::LeftUp),
            BTN_RIGHT => press_or_release(v, CoreInputEvent::RightDown, CoreInputEvent::RightUp),
            BTN_SIDE => button_passthrough(v, MouseButton::Side),
            BTN_EXTRA => button_passthrough(v, MouseButton::Extra),
            BTN_FORWARD => button_passthrough(v, MouseButton::Forward),
            BTN_BACK => button_passthrough(v, MouseButton::Back),
            _ => RoutedEvent::Ignore,
        }
    } else if event.event_type == EV_REL {
        match event.code {
            REL_X => RoutedEvent::Core(CoreInputEvent::Motion { dx: v, dy: 0 }),
            REL_Y => RoutedEvent::Core(CoreInputEvent::Motion { dx: 0, dy: v }),
            REL_WHEEL => RoutedEvent::Core(CoreInputEvent::Wheel { vertical: v, horizontal: 0 }),
            REL_HWHEEL => RoutedEvent::Core(CoreInputEvent::Wheel { vertical: 0, horizontal: v }),
            REL_WHEEL_HI_RES => RoutedEvent::Core(
                CoreInputEvent::WheelHiRes { vertical_units: v, horizontal_units: 0 },
            ),
            REL_HWHEEL_HI_RES => RoutedEvent::Core(
                CoreInputEvent::WheelHiRes { vertical_units: 0, horizontal_units: v },
            ),
            _ => RoutedEvent::Ignore,
        }
    } else {
        RoutedEvent::Ignore
    }
}

fn press_or_release(value: i32, down: CoreInputEvent, up: CoreInputEvent) -> (r: RoutedEvent)
    ensures
        r == spec_press_or_release(value, down, up),
{
    match value {
        1 => RoutedEvent::Core(down),
        0 => RoutedEvent::Core(up),
        _ => RoutedEvent::Ignore,
    }
}

fn button_passthrough(value: i32, button: MouseButton) -> (r: RoutedEvent)
    ensures
        r == spec_button_passthrough(value, button),
{
    match value {
        1 => RoutedEvent::DirectButton { button, pressed: true },
        0 => RoutedEvent::DirectButton { button, pressed: false },
        _ => RoutedEvent::Ignore,
    }
}

/// The name of a button, as its variant is spelled.
pub open spec fn button_name(b: MouseButton) -> Seq<char> {
    match b {
        MouseButton::Left => "Left"@,
        MouseButton::Right => "Right"@,
        MouseButton::Middle => "Middle"@,
        MouseButton::Side => "Side"@,
        MouseButton::Extra => "Extra"@,
        MouseButton::Forward => "Forward"@,
        MouseButton::Back => "Back"@,
    }
}

pub open spec fn bool_text(b: bool) -> Seq<char> {
    if b {
        "true"@
    } else {
        "false"@
    }
}

/// The direction of a wheel value: `+`, `-` or `0`.
pub open spec fn sign_text(v: i32) -> Seq<char> {
    if v > 0 {
        "+"@
    } else if v < 0 {
        "-"@
    } else {
        "0"@
    }
}

/// The dry-run log text of an action; motion and wheel amounts are
/// redacted, emitted wheel events show only their direction, and a
/// suppression is not logged.
pub open spec fn description(action: CoreAction) -> Option<Seq<char>> {
    match action {
        CoreAction::ForwardMouseButton { button, pressed } => Some(
            "ForwardMouseButton("@ + button_name(button) + ", pressed="@ + bool_text(pressed) + ")"@,
        ),
        CoreAction::ForwardMotion { .. } => Some("ForwardMotion(<redacted>)"@),
        CoreAction::ForwardWheel { .. } => Some("ForwardWheel(<redacted>)"@),
        CoreAction::EmitWheelDetents { vertical, .. } => Some(
            "EmitWheelDetents(direction="@ + sign_text(vertical) + ")"@,
        ),
        CoreAction::EmitWheelHiRes { vertical_units, .. } => Some(
            "EmitWheelHiRes(direction="@ + sign_text(vertical_units) + ")"@,
        ),
        CoreAction::EmitMiddleClick => Some("EmitMiddleClick"@),
        CoreAction::EnterScrollMode => Some("EnterScrollMode"@),
        CoreAction::ExitScrollMode => Some("ExitScrollMode"@),
        CoreAction::Suppress => None,
    }
}

fn button_str(b: MouseButton) -> (s: &'static str)
    ensures
        s@ == button_name(b),
{
    match b {
        MouseButton::Left => "Left",
        MouseButton::Right => "Right",
        MouseButton::Middle => "Middle",
        MouseButton::Side => "Side",
        MouseButton::Extra => "Extra",
        MouseButton::Forward => "Forward",
        MouseButton::Back => "Back",
    }
}

fn bool_str(b: bool) -> (s: &'static str)
    ensures
        s@ == bool_text(b),
{
    if b {
        "true"
    } else {
        "false"
    }
}

fn sign(v: i32) -> (s: &'static str)
    ensures
        s@ == sign_text(v),
{
    if v > 0 {
        "+"
    } else if v < 0 {
        "-"
    } else {
        "0"
    }
}

/// The dry-run log text of an action, `None` for a suppression.
pub fn dry_run_describe(action: &CoreAction) -> (r: Option<String>)
    ensures
        match r {
            Some(s) => description(*action) == Some(s@),
            None => description(*action) is None,
        },
{
    match *action {
        CoreAction::ForwardMouseButton { button, pressed } => {
            let mut s = String::from_str("ForwardMouseButton(");
            s.append(button_str(button));
            s.append(", pressed=");
            s.append(bool_str(pressed));
            s.append(")");
            Some(s)
        },
        CoreAction::ForwardMotion { .. } => Some(String::from_str("ForwardMotion(<redacted>)")),
        CoreAction::ForwardWheel { .. } => Some(String::from_str("ForwardWheel(<redacted>)")),
        CoreAction::EmitWheelDetents { vertical, .. } => {
            let mut s = String::from_str("EmitWheelDetents(direction=");
            s.append(sign(vertical));
            s.append(")");
            Some(s)
        },
        CoreAction::EmitWheelHiRes { vertical_units, .. } => {
            let mut s = String::from_str("EmitWheelHiRes(direction=");
            s.append(sign(vertical_units));
            s.append(")");
            Some(s)
        },
        CoreAction::EmitMiddleClick => Some(String::from_str("EmitMiddleClick")),
        CoreAction::EnterScrollMode => Some(String::from_str("EnterScrollMode")),
        CoreAction::ExitScrollMode => Some(String::from_str("ExitScrollMode")),
        CoreAction::Suppress => None,
    }
}


/// The Linux code of a button.
pub open spec fn spec_button_code(b: MouseButton) -> u16 {
    match b {
        MouseButton::Left => BTN_LEFT,
        MouseButton::Right => BTN_RIGHT,
        MouseButton::Middle => BTN_MIDDLE,
        MouseButton::Side => BTN_SIDE,
        MouseButton::Extra => BTN_EXTRA,
        MouseButton::Forward => BTN_FORWARD,
        MouseButton::Back => BTN_BACK,
    }
}

pub fn button_code(b: MouseButton) -> (c: u16)
    ensures
        c == spec_button_code(b),
{
    match b {
        MouseButton::Left => BTN_LEFT,
        MouseButton::Right => BTN_RIGHT,
        MouseButton::Middle => BTN_MIDDLE,
        MouseButton::Side => BTN_SIDE,
        MouseButton::Extra => BTN_EXTRA,
        MouseButton::Forward => BTN_FORWARD,
        MouseButton::Back => BTN_BACK,
    }
}

/// A relative event on `code`, only when the value moves.
pub open spec fn rel_if_moving(code: u16, value: i32) -> Seq<RawInputEvent> {
    if value == 0 {
        Seq::empty()
    } else {
        seq![RawInputEvent { event_type: EV_REL, code, value }]
    }
}

/// The input events that carry out an action on the virtual mouse; zero
/// amounts are not sent, and actions that are not input (scroll-mode
/// changes, suppression, the synthetic click) have none.
pub open spec fn action_events(a: CoreAction) -> Seq<RawInputEvent> {
    match a {
        CoreAction::ForwardMouseButton { button, pressed } => seq![
            RawInputEvent {
                event_type: EV_KEY,
                code: spec_button_code(button),
                value: if pressed { 1i32 } else { 0i32 },
            },
        ],
        CoreAction::ForwardMotion { dx, dy } => rel_if_moving(REL_X, dx) + rel_if_moving(REL_Y, dy),
        CoreAction::ForwardWheel { vertical, horizontal } => rel_if_moving(REL_WHEEL, vertical)
            + rel_if_moving(REL_HWHEEL, horizontal),
        CoreAction::EmitWheelDetents { vertical, horizontal } => rel_if_moving(REL_WHEEL, vertical)
            + rel_if_moving(REL_HWHEEL, horizontal),
        CoreAction::EmitWheelHiRes { vertical_units, horizontal_units } => rel_if_moving(
            REL_WHEEL_HI_RES,
            vertical_units,
        ) + rel_if_moving(REL_HWHEEL_HI_RES, horizontal_units),
        _ => Seq::empty(),
    }
}

/// The events of a batch of actions, in order.
pub open spec fn batch_events_of(actions: Seq<CoreAction>) -> Seq<RawInputEvent>
    decreases actions.len(),
{
    if actions.len() == 0 {
        Seq::empty()
    } else {
        batch_events_of(actions.drop_last()) + action_events(actions.last())
    }
}

fn push_rel(out: &mut Vec<RawInputEvent>, code: u16, value: i32)
    ensures
        final(out)@ == old(out)@ + rel_if_moving(code, value),
{
    if value != 0 {
        out.push(RawInputEvent { event_type: EV_REL, code, value });
    }
    assert(out@ =~= old(out)@ + rel_if_moving(code, value));
}

fn push_action_events(out: &mut Vec<RawInputEvent>, a: CoreAction)
    ensures
        final(out)@ == old(out)@ + action_events(a),
{
    match a {
        CoreAction::ForwardMouseButton { button, pressed } => {
            out.push(
                RawInputEvent {
                    event_type: EV_KEY,
                    code: button_code(button),
                    value: if pressed { 1 } else { 0 },
                },
            );
            assert(out@ =~= old(out)@ + action_events(a));
        },
        CoreAction::ForwardMotion { dx, dy } => {
            push_rel(out, REL_X, dx);
            push_rel(out, REL_Y, dy);
            assert(out@ =~= old(out)@ + action_events(a));
        },
        CoreAction::ForwardWheel { vertical, horizontal } | CoreAction::EmitWheelDetents {
            vertical,
            horizontal,
        } => {
            push_rel(out, REL_WHEEL, vertical);
            push_rel(out, REL_HWHEEL, horizontal);
            assert(out@ =~= old(out)@ + action_events(a));
        },
        CoreAction::EmitWheelHiRes { vertical_units, horizontal_units } => {
            push_rel(out, REL_WHEEL_HI_RES, vertical_units);
            push_rel(out, REL_HWHEEL_HI_RES, horizontal_units);
            assert(out@ =~= old(out)@ + action_events(a));
        },
        _ => {
            assert(out@ =~= old(out)@ + action_events(a));
        },
    }
}

/// The input events that carry out a batch of actions.
pub fn batch_events(actions: &Vec<CoreAction>) -> (events: Vec<RawInputEvent>)
    ensures
        events@ == batch_events_of(actions@),
{
    let mut out: Vec<RawInputEvent> = Vec::new();
    let mut i: usize = 0;
    while i < actions.len()
        invariant
            i <= actions@.len(),
            out@ == batch_events_of(actions@.take(i as int)),
        decreases actions@.len() - i,
    {
        proof {
            assert(actions@.take(i + 1).drop_last() =~= actions@.take(i as int));
        }
        push_action_events(&mut out, actions[i]);
        i += 1;
    }
    proof {
        assert(actions@.take(i as int) =~= actions@);
    }
    out
}

/// A synthetic middle click: a press then a release, each sent on its own.
pub fn middle_click_events() -> (r: (RawInputEvent, RawInputEvent))
    ensures
        r.0 == (RawInputEvent { event_type: EV_KEY, code: BTN_MIDDLE, value: 1 }),
        r.1 == (RawInputEvent { event_type: EV_KEY, code: BTN_MIDDLE, value: 0 }),
{
    (
        RawInputEvent { event_type: EV_KEY, code: BTN_MIDDLE, value: 1 },
        RawInputEvent { event_type: EV_KEY, code: BTN_MIDDLE, value: 0 },
    )
}

/// A button forwarded to the virtual mouse reads back as the same press or
/// release: through the engine for the buttons it handles, directly for
/// the others.
pub proof fn lemma_forwarded_button_reads_back(button: MouseButton, pressed: bool)
    ensures
        ({
            let e = action_events(CoreAction::ForwardMouseButton { button, pressed })[0];
            spec_classify(e) == match button {
                MouseButton::Left => RoutedEvent::Core(
                    if pressed { CoreInputEvent::LeftDown } else { CoreInputEvent::LeftUp },
                ),
                MouseButton::Right => RoutedEvent::Core(
                    if pressed { CoreInputEvent::RightDown } else { CoreInputEvent::RightUp },
                ),
                MouseButton::Middle => RoutedEvent::Core(
                    if pressed { CoreInputEvent::MiddleDown } else { CoreInputEvent::MiddleUp },
                ),
                _ => RoutedEvent::DirectButton { button, pressed },
            }
        }),
{
}

/// Forwarded pointer motion reads back as the same motion, one axis per
/// event.
pub proof fn lemma_forwarded_motion_reads_back(dx: i32, dy: i32)
    requires
        dx != 0,
        dy != 0,
    ensures
        ({
            let es = action_events(CoreAction::ForwardMotion { dx, dy });
            &&& es.len() == 2
            &&& spec_classify(es[0]) == RoutedEvent::Core(CoreInputEvent::Motion { dx, dy: 0 })
            &&& spec_classify(es[1]) == RoutedEvent::Core(CoreInputEvent::Motion { dx: 0, dy })
        }),
{
    let es = action_events(CoreAction::ForwardMotion { dx, dy });
    assert(es =~= rel_if_moving(REL_X, dx) + rel_if_moving(REL_Y, dy));
}

/// The dry-run log never reveals how far the pointer or the wheel moved:
/// the description of forwarded motion and wheel input does not depend on
/// the amounts, and emitted wheel events show only their direction.
pub proof fn lemma_dry_run_redacts_amounts(a: i32, b: i32, c: i32, d: i32)
    ensures
        description(CoreAction::ForwardMotion { dx: a, dy: b }) == description(
            CoreAction::ForwardMotion { dx: c, dy: d },
        ),
        description(CoreAction::ForwardWheel { vertical: a, horizontal: b }) == description(
            CoreAction::ForwardWheel { vertical: c, horizontal: d },
        ),
        (a > 0) == (c > 0) && (a < 0) == (c < 0) ==> description(
            CoreAction::EmitWheelDetents { vertical: a, horizontal: b },
        ) == description(CoreAction::EmitWheelDetents { vertical: c, horizontal: d }),
        (a > 0) == (c > 0) && (a < 0) == (c < 0) ==> description(
            CoreAction::EmitWheelHiRes { vertical_units: a, horizontal_units: b },
        ) == description(CoreAction::EmitWheelHiRes { vertical_units: c, horizontal_units: d }),
{
}
/// Each wheel axis of the device reads as that axis and resolution: the
/// vertical wheels on the vertical axis, the horizontal wheels on the
/// horizontal one, in detents for the legacy codes and in hi-res units for
/// the hi-res codes, with the amount unchanged.
pub proof fn lemma_wheel_codes_keep_their_axis(v: i32)
    ensures
        spec_classify(RawInputEvent { event_type: EV_REL, code: REL_WHEEL, value: v })
            == RoutedEvent::Core(CoreInputEvent::Wheel { vertical: v, horizontal: 0 }),
        spec_classify(RawInputEvent { event_type: EV_REL, code: REL_HWHEEL, value: v })
            == RoutedEvent::Core(CoreInputEvent::Wheel { vertical: 0, horizontal: v }),
        spec_classify(RawInputEvent { event_type: EV_REL, code: REL_WHEEL_HI_RES, value: v })
            == RoutedEvent::Core(CoreInputEvent::WheelHiRes { vertical_units: v, horizontal_units: 0 }),
        spec_classify(RawInputEvent { event_type: EV_REL, code: REL_HWHEEL_HI_RES, value: v })
            == RoutedEvent::Core(CoreInputEvent::WheelHiRes { vertical_units: 0, horizontal_units: v }),
{
}

/// Emitted hi-res wheel output is sent on the hi-res codes, vertical
/// (`REL_WHEEL_HI_RES`, Linux code 0x0b) before horizontal
/// (`REL_HWHEEL_HI_RES`, 0x0c), one event
/// per moving axis, and each reads back as the same amount on the same axis.
pub proof fn lemma_hires_output_reads_back(v: i32, h: i32)
    ensures
        ({
            let es = action_events(CoreAction::EmitWheelHiRes { vertical_units: v, horizontal_units: h });
            let vs = if v != 0 { seq![RawInputEvent { event_type: EV_REL, code: 0x0bu16, value: v }] } else { Seq::empty() };
            let hs = if h != 0 { seq![RawInputEvent { event_type: EV_REL, code: 0x0cu16, value: h }] } else { Seq::empty() };
            &&& es == vs + hs
            &&& v != 0 ==> spec_classify(es[0]) == RoutedEvent::Core(
                CoreInputEvent::WheelHiRes { vertical_units: v, horizontal_units: 0 },
            )
            &&& h != 0 ==> spec_classify(es.last()) == RoutedEvent::Core(
                CoreInputEvent::WheelHiRes { vertical_units: 0, horizontal_units: h },
            )
        }),
{
    let es = action_events(CoreAction::EmitWheelHiRes { vertical_units: v, horizontal_units: h });
    let vs = if v != 0 { seq![RawInputEvent { event_type: EV_REL, code: 0x0bu16, value: v }] } else { Seq::empty() };
    let hs = if h != 0 { seq![RawInputEvent { event_type: EV_REL, code: 0x0cu16, value: h }] } else { Seq::empty() };
    assert(es =~= vs + hs);
}

/// Emitted and forwarded detent output is sent on the legacy wheel codes,
/// vertical (`REL_WHEEL`, Linux code 0x08) before horizontal (`REL_HWHEEL`,
/// 0x06), one event per
/// moving axis, and each reads back as the same detents on the same axis.
pub proof fn lemma_detent_output_reads_back(v: i32, h: i32)
    ensures
        ({
            let es = action_events(CoreAction::EmitWheelDetents { vertical: v, horizontal: h });
            let vs = if v != 0 { seq![RawInputEvent { event_type: EV_REL, code: 0x08u16, value: v }] } else { Seq::empty() };
            let hs = if h != 0 { seq![RawInputEvent { event_type: EV_REL, code: 0x06u16, value: h }] } else { Seq::empty() };
            &&& es == vs + hs
            &&& action_events(CoreAction::ForwardWheel { vertical: v, horizontal: h }) == es
            &&& v != 0 ==> spec_classify(es[0]) == RoutedEvent::Core(
                CoreInputEvent::Wheel { vertical: v, horizontal: 0 },
            )
            &&& h != 0 ==> spec_classify(es.last()) == RoutedEvent::Core(
                CoreInputEvent::Wheel { vertical: 0, horizontal: h },
            )
        }),
{
    let es = action_events(CoreAction::EmitWheelDetents { vertical: v, horizontal: h });
    let vs = if v != 0 { seq![RawInputEvent { event_type: EV_REL, code: 0x08u16, value: v }] } else { Seq::empty() };
    let hs = if h != 0 { seq![RawInputEvent { event_type: EV_REL, code: 0x06u16, value: h }] } else { Seq::empty() };
    assert(es =~= vs + hs);
}

} // verus!
