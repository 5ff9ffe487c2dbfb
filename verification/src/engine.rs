//! The middle-button gesture engine: a state machine from input events to
//! actions on the virtual mouse.
//!
//! The engine decides when a press is a click and when it is a scroll
//! gesture, tracks the pointer offset from the press point, and forwards
//! everything else. During a scroll gesture it reports, per axis, how far
//! and in which direction the pointer is from the press point
//! ([`Engine::scroll_axes`]); the rate at which that distance turns into wheel
//! detents is a floating-point curve kept by the daemon, which drains its
//! accumulators through [`crate::wheel`].

use vstd::prelude::*;

use crate::config::CoreConfig;
use crate::model::{CoreAction, CoreInputEvent, EngineState, MouseButton};
use crate::wheel::{wheel_sign_x, wheel_sign_y, spec_wheel_sign_x, spec_wheel_sign_y, Axis, AxisDrive};

verus! {

pub open spec fn clamp_int(v: int, lo: int, hi: int) -> int {
    if v < lo {
        lo
    } else if v > hi {
        hi
    } else {
        v
    }
}

/// `a + b` saturated to the range of `i32`.
pub open spec fn saturate_i32(v: int) -> int {
    clamp_int(v, i32::MIN as int, i32::MAX as int)
}

/// An offset after adding a motion delta: saturating addition, then clamped
/// to `[-max, max]`.
pub open spec fn moved_offset(offset: int, delta: int, max: int) -> int {
    clamp_int(saturate_i32(offset + delta), -max, max)
}

pub open spec fn abs_int(v: int) -> int {
    if v < 0 {
        -v
    } else {
        v
    }
}

/// The abstract state of an engine.
pub struct EngineModel {
    pub config: CoreConfig,
    pub state: EngineState,
    pub offset_y: i32,
    pub offset_x: i32,
    /// Motion withheld while pending, replayed on a short click.
    pub pending_motion: Seq<(i32, i32)>,
}

/// The pointer is beyond the deadzone on an enabled axis.
pub open spec fn crossed_deadzone(c: CoreConfig, offset_y: int, offset_x: int) -> bool {
    abs_int(offset_y) > c.deadzone_units || (c.horizontal_scroll && abs_int(offset_x)
        > c.deadzone_units)
}

/// The model with the gesture state cleared: offsets zero, no withheld motion.
pub open spec fn with_cleared_gesture(m: EngineModel, state: EngineState) -> EngineModel {
    EngineModel { config: m.config, state, offset_y: 0, offset_x: 0, pending_motion: Seq::empty() }
}

/// The model after a pointer motion: the vertical offset always moves, the
/// horizontal one only when horizontal scrolling is enabled.
pub open spec fn with_motion(m: EngineModel, dx: i32, dy: i32) -> EngineModel {
    let max = m.config.max_offset_units as int;
    EngineModel {
        config: m.config,
        state: m.state,
        offset_y: moved_offset(m.offset_y as int, dy as int, max) as i32,
        offset_x: if m.config.horizontal_scroll {
            moved_offset(m.offset_x as int, dx as int, max) as i32
        } else {
            m.offset_x
        },
        pending_motion: m.pending_motion,
    }
}

/// Events that are forwarded unchanged in every state.
pub open spec fn is_passthrough(ev: CoreInputEvent) -> bool {
    match ev {
        CoreInputEvent::LeftDown | CoreInputEvent::LeftUp | CoreInputEvent::RightDown
        | CoreInputEvent::RightUp | CoreInputEvent::Wheel { .. }
        | CoreInputEvent::WheelHiRes { .. } => true,
        _ => false,
    }
}

/// The single action a passthrough event produces.
pub open spec fn passthrough_action(ev: CoreInputEvent) -> CoreAction {
    match ev {
        CoreInputEvent::LeftDown => CoreAction::ForwardMouseButton {
            button: MouseButton::Left,
            pressed: true,
        },
        CoreInputEvent::LeftUp => CoreAction::ForwardMouseButton {
            button: MouseButton::Left,
            pressed: false,
        },
        CoreInputEvent::RightDown => CoreAction::ForwardMouseButton {
            button: MouseButton::Right,
            pressed: true,
        },
        CoreInputEvent::RightUp => CoreAction::ForwardMouseButton {
            button: MouseButton::Right,
            pressed: false,
        },
        CoreInputEvent::Wheel { vertical, horizontal } => CoreAction::ForwardWheel {
            vertical,
            horizontal,
        },
        CoreInputEvent::WheelHiRes { vertical_units, horizontal_units } => CoreAction::EmitWheelHiRes {
            vertical_units,
            horizontal_units,
        },
        _ => CoreAction::Suppress,
    }
}

/// The withheld motion, as the motion actions that replay it in order.
pub open spec fn replayed_motion(pending: Seq<(i32, i32)>) -> Seq<CoreAction> {
    pending.map_values(|p: (i32, i32)| CoreAction::ForwardMotion { dx: p.0, dy: p.1 })
}

/// A motion while the middle button is pending.
pub open spec fn pending_motion_step(m: EngineModel, dx: i32, dy: i32) -> (EngineModel, Seq<CoreAction>) {
    let moved = with_motion(m, dx, dy);
    let suppressed = m.config.suppress_motion_while_pending;
    let first = if suppressed {
        CoreAction::Suppress
    } else {
        CoreAction::ForwardMotion { dx, dy }
    };
    if crossed_deadzone(m.config, moved.offset_y as int, moved.offset_x as int) {
        (
            EngineModel { state: EngineState::Scrolling, pending_motion: Seq::empty(), ..moved },
            seq![first, CoreAction::EnterScrollMode],
        )
    } else {
        let pending = if m.config.replay_pending_motion_on_click && suppressed {
            m.pending_motion.push((dx, dy))
        } else {
            m.pending_motion
        };
        (EngineModel { pending_motion: pending, ..moved }, seq![first])
    }
}

/// One transition of the engine: the next model and the actions emitted.
/// A tick while scrolling emits no gesture action: wheel output for it is
/// derived from [`scroll_axes_of`].
pub open spec fn step(m: EngineModel, ev: CoreInputEvent) -> (EngineModel, Seq<CoreAction>) {
    if is_passthrough(ev) {
        (m, seq![passthrough_action(ev)])
    } else {
        match m.state {
            EngineState::Idle => match ev {
                CoreInputEvent::MiddleDown => (
                    with_cleared_gesture(m, EngineState::MiddlePending),
                    seq![CoreAction::Suppress],
                ),
                CoreInputEvent::MiddleUp => (
                    m,
                    seq![CoreAction::ForwardMouseButton { button: MouseButton::Middle, pressed: false }],
                ),
                CoreInputEvent::Motion { dx, dy } => (m, seq![CoreAction::ForwardMotion { dx, dy }]),
                _ => (m, Seq::empty()),
            },
            EngineState::MiddlePending => match ev {
                CoreInputEvent::MiddleUp => (
                    with_cleared_gesture(m, EngineState::Idle),
                    (if m.config.replay_pending_motion_on_click {
                        replayed_motion(m.pending_motion)
                    } else {
                        Seq::empty()
                    }).push(CoreAction::EmitMiddleClick),
                ),
                CoreInputEvent::Motion { dx, dy } => pending_motion_step(m, dx, dy),
                _ => (m, Seq::empty()),
            },
            EngineState::Scrolling => match ev {
                CoreInputEvent::MiddleUp => (
                    with_cleared_gesture(m, EngineState::Idle),
                    seq![CoreAction::ExitScrollMode],
                ),
                CoreInputEvent::Motion { dx, dy } => (
                    with_motion(m, dx, dy),
                    seq![
                        if m.config.suppress_motion_while_scrolling {
                            CoreAction::Suppress
                        } else {
                            CoreAction::ForwardMotion { dx, dy }
                        },
                    ],
                ),
                _ => (m, Seq::empty()),
            },
        }
    }
}

/// Whether processing `ev` in model `m` is defined: a motion during a
/// gesture clamps the offset to `[-max_offset_units, max_offset_units]`,
/// which needs a non-negative bound.
pub open spec fn can_process(m: EngineModel, ev: CoreInputEvent) -> bool {
    (ev is Motion && m.state != EngineState::Idle) ==> m.config.max_offset_units >= 0
}

/// The axes that drive scrolling in model `m`: the vertical axis, then the
/// horizontal one when enabled, each only when the pointer is beyond the
/// deadzone on it (an offset of `i32::MIN`, whose distance does not fit in
/// an `i32`, drives nothing); the direction is the wheel sign, flipped when
/// that axis is inverted.
pub open spec fn scroll_axes_of(m: EngineModel) -> Seq<AxisDrive> {
    let c = m.config;
    let sy = spec_wheel_sign_y(m.offset_y as int, c.deadzone_units as int);
    let sx = spec_wheel_sign_x(m.offset_x as int, c.deadzone_units as int);
    let v = if sy == 0 || m.offset_y == i32::MIN {
        Seq::empty()
    } else {
        seq![
            AxisDrive {
                axis: Axis::Vertical,
                distance: abs_int(m.offset_y as int) as i32,
                direction: (if c.invert_vertical { -sy } else { sy }) as i32,
            },
        ]
    };
    if c.horizontal_scroll && sx != 0 && m.offset_x != i32::MIN {
        v.push(
            AxisDrive {
                axis: Axis::Horizontal,
                distance: abs_int(m.offset_x as int) as i32,
                direction: (if c.invert_horizontal { -sx } else { sx }) as i32,
            },
        )
    } else {
        v
    }
}

fn saturating_add_i32(a: i32, b: i32) -> (r: i32)
    ensures
        r == saturate_i32(a + b),
{
    let s: i64 = a as i64 + b as i64;
    if s > i32::MAX as i64 {
        i32::MAX
    } else if s < i32::MIN as i64 {
        i32::MIN
    } else {
        s as i32
    }
}

fn clamp_i32(v: i32, lo: i32, hi: i32) -> (r: i32)
    requires
        lo <= hi,
    ensures
        r == clamp_int(v as int, lo as int, hi as int),
{
    if v < lo {
        lo
    } else if v > hi {
        hi
    } else {
        v
    }
}

/// The gesture engine.
#[derive(Debug)]
pub struct Engine {
    config: CoreConfig,
    state: EngineState,
    offset_y_units: i32,
    offset_x_units: i32,
    pending_motion: Vec<(i32, i32)>,
}

impl View for Engine {
    type V = EngineModel;

    closed spec fn view(&self) -> EngineModel {
        EngineModel {
            config: self.config,
            state: self.state,
            offset_y: self.offset_y_units,
            offset_x: self.offset_x_units,
            pending_motion: self.pending_motion@,
        }
    }
}

impl Engine {
    /// A new engine, idle, with no offset.
    pub fn new(config: CoreConfig) -> (e: Engine)
        ensures
            e@ == (EngineModel {
                config,
                state: EngineState::Idle,
                offset_y: 0,
                offset_x: 0,
                pending_motion: Seq::empty(),
            }),
    {
        Engine {
            config,
            state: EngineState::Idle,
            offset_y_units: 0,
            offset_x_units: 0,
            pending_motion: Vec::new(),
        }
    }

    pub fn config(&self) -> (c: &CoreConfig)
        ensures
            *c == self@.config,
    {
        &self.config
    }

    pub fn state(&self) -> (s: EngineState)
        ensures
            s == self@.state,
    {
        self.state
    }

    pub fn offset_y_units(&self) -> (o: i32)
        ensures
            o == self@.offset_y,
    {
        self.offset_y_units
    }

    pub fn offset_x_units(&self) -> (o: i32)
        ensures
            o == self@.offset_x,
    {
        self.offset_x_units
    }

    /// Handles one event and returns the actions to perform, in order.
    pub fn process(&mut self, event: CoreInputEvent) -> (actions: Vec<CoreAction>)
        requires
            can_process(old(self)@, event),
        ensures
            final(self)@ == step(old(self)@, event).0,
            actions@ == step(old(self)@, event).1,
    {
        match self.state {
            EngineState::Idle => self.process_idle(event),
            EngineState::MiddlePending => self.process_pending(event),
            EngineState::Scrolling => self.process_scrolling(event),
        }
    }

    /// The single action of a passthrough event.
    fn passthrough(event: CoreInputEvent) -> (a: CoreAction)
        requires
            is_passthrough(event),
        ensures
            a == passthrough_action(event),
    {
        match event {
            CoreInputEvent::LeftDown => Self::forward_btn(MouseButton::Left, true),
            CoreInputEvent::LeftUp => Self::forward_btn(MouseButton::Left, false),
            CoreInputEvent::RightDown => Self::forward_btn(MouseButton::Right, true),
            CoreInputEvent::RightUp => Self::forward_btn(MouseButton::Right, false),
            CoreInputEvent::Wheel { vertical, horizontal } => CoreAction::ForwardWheel {
                vertical,
                horizontal,
            },
            CoreInputEvent::WheelHiRes { vertical_units, horizontal_units } => {
                CoreAction::EmitWheelHiRes { vertical_units, horizontal_units }
            },
            _ => CoreAction::Suppress,
        }
    }

    fn forward_btn(button: MouseButton, pressed: bool) -> (a: CoreAction)
        ensures
            a == (CoreAction::ForwardMouseButton { button, pressed }),
    {
        CoreAction::ForwardMouseButton { button, pressed }
    }

    fn process_idle(&mut self, event: CoreInputEvent) -> (actions: Vec<CoreAction>)
        requires
            old(self)@.state == EngineState::Idle,
        ensures
            final(self)@ == step(old(self)@, event).0,
            actions@ == step(old(self)@, event).1,
    {
        match event {
            CoreInputEvent::MiddleDown => {
                self.state = EngineState::MiddlePending;
                self.reset_offsets();
                self.pending_motion = Vec::new();
                vec![CoreAction::Suppress]
            },
            CoreInputEvent::MiddleUp => {
                vec![Self::forward_btn(MouseButton::Middle, false)]
            },
            CoreInputEvent::Motion { dx, dy } => {
                vec![CoreAction::ForwardMotion { dx, dy }]
            },
            CoreInputEvent::Tick { .. } => Vec::new(),
            _ => vec![Self::passthrough(event)],
        }
    }

    fn process_pending(&mut self, event: CoreInputEvent) -> (actions: Vec<CoreAction>)
        requires
            old(self)@.state == EngineState::MiddlePending,
            can_process(old(self)@, event),
        ensures
            final(self)@ == step(old(self)@, event).0,
            actions@ == step(old(self)@, event).1,
    {
        match event {
            CoreInputEvent::MiddleDown | CoreInputEvent::Tick { .. } => Vec::new(),
            CoreInputEvent::MiddleUp => {
                let mut actions: Vec<CoreAction> = Vec::new();
                if self.config.replay_pending_motion_on_click {
                    let mut i: usize = 0;
                    while i < self.pending_motion.len()
                        invariant
                            i <= self.pending_motion@.len(),
                            actions@ == replayed_motion(self.pending_motion@.take(i as int)),
                        decreases self.pending_motion@.len() - i,
                    {
                        let (dx, dy) = self.pending_motion[i];
                        actions.push(CoreAction::ForwardMotion { dx, dy });
                        proof {
                            assert(self.pending_motion@.take(i + 1) =~= self.pending_motion@.take(
                                i as int,
                            ).push(self.pending_motion@[i as int]));
                        }
                        i += 1;
                    }
                    proof {
                        assert(self.pending_motion@.take(i as int) =~= self.pending_motion@);
                    }
                }
                actions.push(CoreAction::EmitMiddleClick);
                self.reset_to_idle();
                actions
            },
            CoreInputEvent::Motion { dx, dy } => {
                self.accumulate_offset(dx, dy);
                let suppressed = self.config.suppress_motion_while_pending;
                let mut actions: Vec<CoreAction> = Vec::new();
                if suppressed {
                    actions.push(CoreAction::Suppress);
                } else {
                    actions.push(CoreAction::ForwardMotion { dx, dy });
                }
                if self.crossed_deadzone() {
                    self.state = EngineState::Scrolling;
                    self.pending_motion = Vec::new();
                    actions.push(CoreAction::EnterScrollMode);
                } else if self.config.replay_pending_motion_on_click && suppressed {
                    self.pending_motion.push((dx, dy));
                }
                proof {
                    assert(actions@ == step(old(self)@, event).1);
                }
                actions
            },
            _ => vec![Self::passthrough(event)],
        }
    }

    fn process_scrolling(&mut self, event: CoreInputEvent) -> (actions: Vec<CoreAction>)
        requires
            old(self)@.state == EngineState::Scrolling,
            can_process(old(self)@, event),
        ensures
            final(self)@ == step(old(self)@, event).0,
            actions@ == step(old(self)@, event).1,
    {
        match event {
            CoreInputEvent::MiddleDown | CoreInputEvent::Tick { .. } => Vec::new(),
            CoreInputEvent::MiddleUp => {
                self.reset_to_idle();
                vec![CoreAction::ExitScrollMode]
            },
            CoreInputEvent::Motion { dx, dy } => {
                self.accumulate_offset(dx, dy);
                if self.config.suppress_motion_while_scrolling {
                    vec![CoreAction::Suppress]
                } else {
                    vec![CoreAction::ForwardMotion { dx, dy }]
                }
            },
            _ => vec![Self::passthrough(event)],
        }
    }

    fn reset_to_idle(&mut self)
        ensures
            final(self)@ == with_cleared_gesture(old(self)@, EngineState::Idle),
    {
        self.state = EngineState::Idle;
        self.reset_offsets();
        self.pending_motion = Vec::new();
    }

    fn reset_offsets(&mut self)
        ensures
            final(self)@ == (EngineModel { offset_y: 0, offset_x: 0, ..old(self)@ }),
    {
        self.offset_y_units = 0;
        self.offset_x_units = 0;
    }

    fn accumulate_offset(&mut self, dx: i32, dy: i32)
        requires
            old(self)@.config.max_offset_units >= 0,
        ensures
            final(self)@ == with_motion(old(self)@, dx, dy),
    {
        let max = self.config.max_offset_units;
        self.offset_y_units = clamp_i32(saturating_add_i32(self.offset_y_units, dy), -max, max);
        if self.config.horizontal_scroll {
            self.offset_x_units = clamp_i32(saturating_add_i32(self.offset_x_units, dx), -max, max);
        }
    }

    fn crossed_deadzone(&self) -> (b: bool)
        ensures
            b == crossed_deadzone(self@.config, self@.offset_y as int, self@.offset_x as int),
    {
        let dz = self.config.deadzone_units as i64;
        let oy = self.offset_y_units as i64;
        let ox = self.offset_x_units as i64;
        let ay = if oy < 0 { -oy } else { oy };
        let ax = if ox < 0 { -ox } else { ox };
        ay > dz || (self.config.horizontal_scroll && ax > dz)
    }

    /// The axes currently driving the scroll, for the wheel layer.
    pub fn scroll_axes(&self) -> (axes: Vec<AxisDrive>)
        ensures
            axes@ == scroll_axes_of(self@),
    {
        let c = &self.config;
        let mut axes: Vec<AxisDrive> = Vec::new();
        let sy = wheel_sign_y(self.offset_y_units, c.deadzone_units);
        if sy != 0 && self.offset_y_units != i32::MIN {
            let direction = if c.invert_vertical { -sy } else { sy };
            let distance = if self.offset_y_units < 0 { -self.offset_y_units } else { self.offset_y_units };
            axes.push(AxisDrive { axis: Axis::Vertical, distance, direction });
        }
        if c.horizontal_scroll {
            let sx = wheel_sign_x(self.offset_x_units, c.deadzone_units);
            if sx != 0 && self.offset_x_units != i32::MIN {
                let direction = if c.invert_horizontal { -sx } else { sx };
                let distance = if self.offset_x_units < 0 { -self.offset_x_units } else { self.offset_x_units };
                axes.push(AxisDrive { axis: Axis::Horizontal, distance, direction });
            }
        }
        axes
    }
}


/// What every reachable engine state satisfies: an idle engine holds no
/// offset and no withheld motion; motion is withheld only while pending and
/// only when replay of suppressed motion is on; the horizontal offset is
/// zero while horizontal scrolling is off; each offset stays within
/// `max_offset_units` (zero when that bound is negative).
pub open spec fn engine_inv(m: EngineModel) -> bool {
    let bound = if m.config.max_offset_units >= 0 { m.config.max_offset_units as int } else { 0 };
    &&& m.state == EngineState::Idle ==> m.offset_y == 0 && m.offset_x == 0
    &&& m.state != EngineState::MiddlePending ==> m.pending_motion.len() == 0
    &&& m.pending_motion.len() > 0 ==> m.config.replay_pending_motion_on_click
        && m.config.suppress_motion_while_pending
    &&& !m.config.horizontal_scroll ==> m.offset_x == 0
    &&& abs_int(m.offset_y as int) <= bound
    &&& abs_int(m.offset_x as int) <= bound
}

/// A new engine satisfies the invariant.
pub proof fn lemma_new_engine_inv(config: CoreConfig)
    ensures
        engine_inv(
            EngineModel {
                config,
                state: EngineState::Idle,
                offset_y: 0,
                offset_x: 0,
                pending_motion: Seq::empty(),
            },
        ),
{
}

/// Every transition keeps the configuration and the invariant.
pub proof fn lemma_step_preserves_inv(m: EngineModel, ev: CoreInputEvent)
    requires
        engine_inv(m),
        can_process(m, ev),
    ensures
        step(m, ev).0.config == m.config,
        engine_inv(step(m, ev).0),
{
}

/// While the middle button is pending the pointer is inside the deadzone on
/// every enabled axis (for a non-negative deadzone): leaving it switches to
/// scrolling.
pub proof fn lemma_pending_stays_inside_deadzone(m: EngineModel, ev: CoreInputEvent)
    requires
        engine_inv(m),
        can_process(m, ev),
        m.config.deadzone_units >= 0,
        m.state == EngineState::Idle || (m.state == EngineState::MiddlePending && !crossed_deadzone(
            m.config,
            m.offset_y as int,
            m.offset_x as int,
        )),
    ensures
        step(m, ev).0.state == EngineState::MiddlePending ==> !crossed_deadzone(
            m.config,
            step(m, ev).0.offset_y as int,
            step(m, ev).0.offset_x as int,
        ),
{
}

/// A middle press always starts a gesture from the press point: pending,
/// zero offset, nothing withheld, the press itself suppressed.
pub proof fn lemma_press_starts_gesture(m: EngineModel)
    requires
        m.state == EngineState::Idle,
    ensures
        step(m, CoreInputEvent::MiddleDown).0 == with_cleared_gesture(m, EngineState::MiddlePending),
        step(m, CoreInputEvent::MiddleDown).1 == seq![CoreAction::Suppress],
{
}

/// A pending motion that leaves the deadzone enters scroll mode; one that
/// stays inside keeps the gesture pending.
pub proof fn lemma_leaving_deadzone_enters_scroll(m: EngineModel, dx: i32, dy: i32)
    requires
        m.state == EngineState::MiddlePending,
    ensures
        ({
            let moved = with_motion(m, dx, dy);
            let r = step(m, CoreInputEvent::Motion { dx, dy });
            if crossed_deadzone(m.config, moved.offset_y as int, moved.offset_x as int) {
                &&& r.0.state == EngineState::Scrolling
                &&& r.1.last() == CoreAction::EnterScrollMode
            } else {
                &&& r.0.state == EngineState::MiddlePending
                &&& !r.1.contains(CoreAction::EnterScrollMode)
            }
        }),
{
    let moved = with_motion(m, dx, dy);
    let r = step(m, CoreInputEvent::Motion { dx, dy });
    if !crossed_deadzone(m.config, moved.offset_y as int, moved.offset_x as int) {
        assert(r.1.len() == 1);
        assert(r.1[0] != CoreAction::EnterScrollMode);
    }
}

/// Releasing the middle button before scrolling started is a click: the
/// engine returns to idle and the last action is a middle click (after the
/// withheld motion, when replay is on), with no scroll-mode exit.
pub proof fn lemma_short_press_is_a_click(m: EngineModel)
    requires
        m.state == EngineState::MiddlePending,
    ensures
        step(m, CoreInputEvent::MiddleUp).0 == with_cleared_gesture(m, EngineState::Idle),
        step(m, CoreInputEvent::MiddleUp).1.last() == CoreAction::EmitMiddleClick,
        !step(m, CoreInputEvent::MiddleUp).1.contains(CoreAction::ExitScrollMode),
        m.config.replay_pending_motion_on_click ==> step(m, CoreInputEvent::MiddleUp).1
            == replayed_motion(m.pending_motion).push(CoreAction::EmitMiddleClick),
        !m.config.replay_pending_motion_on_click ==> step(m, CoreInputEvent::MiddleUp).1
            == seq![CoreAction::EmitMiddleClick],
{
    let acts = step(m, CoreInputEvent::MiddleUp).1;
    let pre = if m.config.replay_pending_motion_on_click {
        replayed_motion(m.pending_motion)
    } else {
        Seq::empty()
    };
    assert(acts == pre.push(CoreAction::EmitMiddleClick));
    assert forall|i: int| 0 <= i < acts.len() implies acts[i] != CoreAction::ExitScrollMode by {
        if i < pre.len() {
            if m.config.replay_pending_motion_on_click {
                assert(acts[i] == replayed_motion(m.pending_motion)[i]);
            }
        }
    }
    if !m.config.replay_pending_motion_on_click {
        assert(acts =~= seq![CoreAction::EmitMiddleClick]);
    }
}

/// Releasing the middle button while scrolling stops at once: idle again,
/// offsets cleared, and the only action is the scroll-mode exit (no click).
pub proof fn lemma_release_stops_scrolling(m: EngineModel)
    requires
        m.state == EngineState::Scrolling,
    ensures
        step(m, CoreInputEvent::MiddleUp).0 == with_cleared_gesture(m, EngineState::Idle),
        step(m, CoreInputEvent::MiddleUp).1 == seq![CoreAction::ExitScrollMode],
{
}

/// Left and right buttons and real wheel input pass through unchanged, in
/// every state, without touching the gesture.
pub proof fn lemma_passthrough_in_every_state(m: EngineModel, ev: CoreInputEvent)
    requires
        is_passthrough(ev),
    ensures
        step(m, ev).0 == m,
        step(m, ev).1 == seq![passthrough_action(ev)],
{
}

/// An idle engine stays idle, with zero offsets, on everything but a middle
/// press: pointer motion is forwarded as it came, and so is a middle
/// release that no press started.
pub proof fn lemma_idle_forwards_input(m: EngineModel, ev: CoreInputEvent)
    requires
        engine_inv(m),
        m.state == EngineState::Idle,
        !(ev is MiddleDown),
    ensures
        step(m, ev).0 == m,
        step(m, ev).0.offset_y == 0 && step(m, ev).0.offset_x == 0,
        ev matches CoreInputEvent::Motion { dx, dy } ==> step(m, ev).1 == seq![
            CoreAction::ForwardMotion { dx, dy },
        ],
        ev is MiddleUp ==> step(m, ev).1 == seq![
            CoreAction::ForwardMouseButton { button: MouseButton::Middle, pressed: false },
        ],
{
}

/// A tick never changes the gesture and emits no gesture action.
pub proof fn lemma_tick_keeps_gesture(m: EngineModel, dt_micros: u64)
    ensures
        step(m, CoreInputEvent::Tick { dt_micros }) == (m, Seq::<CoreAction>::empty()),
{
}

/// Inside the deadzone an axis does not drive the scroll; beyond it, it does.
pub proof fn lemma_deadzone_silences_axis(m: EngineModel)
    ensures
        abs_int(m.offset_y as int) <= m.config.deadzone_units ==> (forall|i: int|
            0 <= i < scroll_axes_of(m).len() ==> scroll_axes_of(m)[i].axis != Axis::Vertical),
        abs_int(m.offset_x as int) <= m.config.deadzone_units || !m.config.horizontal_scroll
            ==> (forall|i: int|
            0 <= i < scroll_axes_of(m).len() ==> scroll_axes_of(m)[i].axis != Axis::Horizontal),
        m.config.deadzone_units >= 0 && abs_int(m.offset_y as int) > m.config.deadzone_units
            && m.offset_y > i32::MIN ==> scroll_axes_of(m).len() >= 1 && scroll_axes_of(m)[0].axis == Axis::Vertical
            && scroll_axes_of(m)[0].distance == abs_int(m.offset_y as int),
{
}

/// Crossing the press point reverses the scroll direction on that axis:
/// mirrored vertical offsets beyond the deadzone drive opposite directions.
pub proof fn lemma_crossing_press_point_reverses(m: EngineModel)
    requires
        m.config.deadzone_units >= 0,
        m.offset_y > m.config.deadzone_units,
    ensures
        ({
            let mirrored = EngineModel { offset_y: (-m.offset_y) as i32, ..m };
            &&& scroll_axes_of(m)[0].axis == Axis::Vertical
            &&& scroll_axes_of(mirrored)[0].axis == Axis::Vertical
            &&& scroll_axes_of(mirrored)[0].direction == -scroll_axes_of(m)[0].direction
            &&& scroll_axes_of(mirrored)[0].distance == scroll_axes_of(m)[0].distance
        }),
{
}

/// Pointer below the press point scrolls content down (negative wheel
/// values) unless the vertical axis is inverted; above scrolls up.
pub proof fn lemma_vertical_direction(m: EngineModel)
    requires
        m.config.deadzone_units >= 0,
        m.offset_y > i32::MIN,
        abs_int(m.offset_y as int) > m.config.deadzone_units,
    ensures
        scroll_axes_of(m)[0].direction == (if (m.offset_y > 0) != m.config.invert_vertical {
            -1int
        } else {
            1int
        }),
{
}


/// Pointer right of the press point scrolls right (positive wheel values)
/// unless the horizontal axis is inverted; left scrolls left. Only
/// `invert_horizontal` flips it: the horizontal drive is the last one, at
/// the pointer's horizontal distance.
pub proof fn lemma_horizontal_direction(m: EngineModel)
    requires
        m.config.deadzone_units >= 0,
        m.config.horizontal_scroll,
        m.offset_x > i32::MIN,
        abs_int(m.offset_x as int) > m.config.deadzone_units,
    ensures
        scroll_axes_of(m).len() >= 1,
        scroll_axes_of(m).last().axis == Axis::Horizontal,
        scroll_axes_of(m).last().distance == abs_int(m.offset_x as int),
        scroll_axes_of(m).last().direction == (if (m.offset_x > 0) != m.config.invert_horizontal {
            1int
        } else {
            -1int
        }),
{
}

/// Each axis's inversion setting acts on that axis alone: flipping
/// `invert_vertical` leaves every horizontal drive as it was and flips every
/// vertical one, and flipping `invert_horizontal` does the converse.
pub proof fn lemma_inversions_are_per_axis(m: EngineModel)
    ensures
        ({
            let c = m.config;
            let fv = EngineModel { config: CoreConfig { invert_vertical: !c.invert_vertical, ..c }, ..m };
            let fh = EngineModel {
                config: CoreConfig { invert_horizontal: !c.invert_horizontal, ..c },
                ..m
            };
            &&& scroll_axes_of(fv).len() == scroll_axes_of(m).len()
            &&& scroll_axes_of(fh).len() == scroll_axes_of(m).len()
            &&& forall|i: int|
                0 <= i < scroll_axes_of(m).len() ==> {
                    let d = #[trigger] scroll_axes_of(m)[i];
                    &&& scroll_axes_of(fv)[i].axis == d.axis
                    &&& scroll_axes_of(fv)[i].distance == d.distance
                    &&& scroll_axes_of(fv)[i].direction == (if d.axis == Axis::Vertical {
                        -d.direction
                    } else {
                        d.direction as int
                    })
                    &&& scroll_axes_of(fh)[i].axis == d.axis
                    &&& scroll_axes_of(fh)[i].distance == d.distance
                    &&& scroll_axes_of(fh)[i].direction == (if d.axis == Axis::Horizontal {
                        -d.direction
                    } else {
                        d.direction as int
                    })
                }
        }),
{
}


/// The model and actions after a sequence of events.
pub open spec fn run(m: EngineModel, events: Seq<CoreInputEvent>) -> (EngineModel, Seq<CoreAction>)
    decreases events.len(),
{
    if events.len() == 0 {
        (m, Seq::empty())
    } else {
        let first = step(m, events[0]);
        let rest = run(first.0, events.subrange(1, events.len() as int));
        (rest.0, first.1 + rest.1)
    }
}

/// Every state reached from a state that keeps the invariant, by any
/// sequence of events, keeps it too, with the same configuration (for a
/// non-negative offset bound, under which every event can be processed).
/// With `lemma_new_engine_inv`, this covers every state an engine reaches.
pub proof fn lemma_run_keeps_inv(m: EngineModel, events: Seq<CoreInputEvent>)
    requires
        engine_inv(m),
        m.config.max_offset_units >= 0,
    ensures
        engine_inv(run(m, events).0),
        run(m, events).0.config == m.config,
    decreases events.len(),
{
    if events.len() > 0 {
        lemma_step_preserves_inv(m, events[0]);
        lemma_run_keeps_inv(step(m, events[0]).0, events.subrange(1, events.len() as int));
    }
}

/// All events are pointer motions.
pub open spec fn all_motion(events: Seq<CoreInputEvent>) -> bool {
    forall|i: int| 0 <= i < events.len() ==> (#[trigger] events[i]) is Motion
}

/// Motions never bring a scrolling engine back to pending: once scrolling,
/// it stays scrolling until the middle button is released.
proof fn lemma_motions_keep_scrolling(m: EngineModel, events: Seq<CoreInputEvent>)
    requires
        m.state == EngineState::Scrolling,
        all_motion(events),
    ensures
        run(m, events).0.state == EngineState::Scrolling,
        run(m, events).0.config == m.config,
    decreases events.len(),
{
    if events.len() > 0 {
        let rest = events.subrange(1, events.len() as int);
        assert(all_motion(rest)) by {
            assert forall|i: int| 0 <= i < rest.len() implies (#[trigger] rest[i]) is Motion by {
                assert(rest[i] == events[i + 1]);
            }
        }
        assert(events[0] is Motion);
        lemma_motions_keep_scrolling(step(m, events[0]).0, rest);
    }
}

/// Motions while pending that leave the engine pending enter no scroll
/// mode and keep the configuration.
proof fn lemma_pending_motions(m: EngineModel, events: Seq<CoreInputEvent>)
    requires
        m.state == EngineState::MiddlePending,
        all_motion(events),
        run(m, events).0.state == EngineState::MiddlePending,
    ensures
        !run(m, events).1.contains(CoreAction::EnterScrollMode),
        run(m, events).0.config == m.config,
    decreases events.len(),
{
    if events.len() > 0 {
        let rest = events.subrange(1, events.len() as int);
        assert(all_motion(rest)) by {
            assert forall|i: int| 0 <= i < rest.len() implies (#[trigger] rest[i]) is Motion by {
                assert(rest[i] == events[i + 1]);
            }
        }
        assert(events[0] is Motion);
        let first = step(m, events[0]);
        if first.0.state == EngineState::Scrolling {
            lemma_motions_keep_scrolling(first.0, rest);
        } else {
            lemma_pending_motions(first.0, rest);
            let dx = events[0]->dx;
            let dy = events[0]->dy;
            lemma_leaving_deadzone_enters_scroll(m, dx, dy);
            let all = first.1 + run(first.0, rest).1;
            assert forall|i: int| 0 <= i < all.len() implies all[i] != CoreAction::EnterScrollMode by {
                if i >= first.1.len() {
                    assert(all[i] == run(first.0, rest).1[i - first.1.len()]);
                } else {
                    assert(first.1.len() == 1);
                }
            }
        }
    }
}

/// A short click is preserved: pressing the middle button, moving without
/// leaving the deadzone (the engine is still pending afterwards), and
/// releasing never enters scroll mode, ends idle, and ends with a middle
/// click.
pub proof fn lemma_gesture_inside_deadzone_is_a_click(m: EngineModel, motions: Seq<CoreInputEvent>)
    requires
        m.state == EngineState::Idle,
        all_motion(motions),
        run(step(m, CoreInputEvent::MiddleDown).0, motions).0.state == EngineState::MiddlePending,
    ensures
        ({
            let r = run(
                m,
                seq![CoreInputEvent::MiddleDown] + motions + seq![CoreInputEvent::MiddleUp],
            );
            &&& r.0.state == EngineState::Idle
            &&& r.1.last() == CoreAction::EmitMiddleClick
            &&& !r.1.contains(CoreAction::EnterScrollMode)
        }),
{
    let down = step(m, CoreInputEvent::MiddleDown);
    let mid = run(down.0, motions);
    lemma_pending_motions(down.0, motions);
    lemma_short_press_is_a_click(mid.0);
    let up = step(mid.0, CoreInputEvent::MiddleUp);
    lemma_run_append(down.0, motions, CoreInputEvent::MiddleUp);
    let evs = seq![CoreInputEvent::MiddleDown] + motions + seq![CoreInputEvent::MiddleUp];
    assert(evs[0] == CoreInputEvent::MiddleDown);
    assert(evs.subrange(1, evs.len() as int) =~= motions.push(CoreInputEvent::MiddleUp));
    let r = run(m, evs);
    assert(r.0 == up.0);
    assert(r.1 == down.1 + (mid.1 + up.1));
    let all = down.1 + (mid.1 + up.1);
    assert forall|i: int| 0 <= i < all.len() implies all[i] != CoreAction::EnterScrollMode by {
        if i < down.1.len() {
        } else if i < down.1.len() + mid.1.len() {
            assert(all[i] == mid.1[i - down.1.len()]);
        } else {
            assert(all[i] == up.1[i - down.1.len() - mid.1.len()]);
        }
    }
}

/// Running events followed by one more event is running the events, then
/// stepping the last one.
proof fn lemma_run_append(m: EngineModel, events: Seq<CoreInputEvent>, last: CoreInputEvent)
    ensures
        run(m, events.push(last)).0 == step(run(m, events).0, last).0,
        run(m, events.push(last)).1 == run(m, events).1 + step(run(m, events).0, last).1,
    decreases events.len(),
{
    if events.len() == 0 {
        let evs = events.push(last);
        assert(evs.subrange(1, evs.len() as int) =~= Seq::<CoreInputEvent>::empty());
        reveal_with_fuel(run, 2);
        assert(run(m, evs).1 =~= step(m, last).1);
    } else {
        let rest = events.subrange(1, events.len() as int);
        let evs = events.push(last);
        assert(evs.subrange(1, evs.len() as int) =~= rest.push(last));
        assert(evs[0] == events[0]);
        lemma_run_append(step(m, events[0]).0, rest, last);
        assert(run(m, evs).1 =~= run(m, events).1 + step(run(m, events).0, last).1);
    }
}


/// A click undoes its press: from an idle engine, pressing and releasing
/// the middle button emits the suppressed press and a middle click and
/// leaves the engine exactly as it was.
pub proof fn lemma_click_round_trip(m: EngineModel)
    requires
        m.state == EngineState::Idle,
        engine_inv(m),
    ensures
        run(m, seq![CoreInputEvent::MiddleDown, CoreInputEvent::MiddleUp]).0 == m,
        run(m, seq![CoreInputEvent::MiddleDown, CoreInputEvent::MiddleUp]).1 == seq![
            CoreAction::Suppress,
            CoreAction::EmitMiddleClick,
        ],
{
    let evs = seq![CoreInputEvent::MiddleDown, CoreInputEvent::MiddleUp];
    reveal_with_fuel(run, 3);
    let down = step(m, CoreInputEvent::MiddleDown);
    let up = step(down.0, CoreInputEvent::MiddleUp);
    assert(evs.subrange(1, 2) =~= seq![CoreInputEvent::MiddleUp]);
    assert(seq![CoreInputEvent::MiddleUp].subrange(1, 1) =~= Seq::<CoreInputEvent>::empty());
    assert(up.0.pending_motion =~= m.pending_motion);
    assert(up.1 =~= seq![CoreAction::EmitMiddleClick]);
    assert(run(m, evs).1 =~= seq![CoreAction::Suppress, CoreAction::EmitMiddleClick]);
}


/// The deltas of a sequence of motion events.
pub open spec fn motion_deltas(events: Seq<CoreInputEvent>) -> Seq<(i32, i32)> {
    events.map_values(|e: CoreInputEvent| (e->dx, e->dy))
}

/// While pending with replay of suppressed motion on, every motion is
/// withheld in order.
proof fn lemma_pending_withholds_motions(m: EngineModel, events: Seq<CoreInputEvent>)
    requires
        m.state == EngineState::MiddlePending,
        m.config.replay_pending_motion_on_click,
        m.config.suppress_motion_while_pending,
        all_motion(events),
        run(m, events).0.state == EngineState::MiddlePending,
    ensures
        run(m, events).0.pending_motion == m.pending_motion + motion_deltas(events),
        run(m, events).0.config == m.config,
    decreases events.len(),
{
    if events.len() == 0 {
        assert(m.pending_motion + motion_deltas(events) =~= m.pending_motion);
    } else {
        let rest = events.subrange(1, events.len() as int);
        assert(all_motion(rest)) by {
            assert forall|i: int| 0 <= i < rest.len() implies (#[trigger] rest[i]) is Motion by {
                assert(rest[i] == events[i + 1]);
            }
        }
        assert(events[0] is Motion);
        let first = step(m, events[0]);
        if first.0.state == EngineState::Scrolling {
            lemma_motions_keep_scrolling(first.0, rest);
        } else {
            lemma_pending_withholds_motions(first.0, rest);
            assert(first.0.pending_motion == m.pending_motion.push((events[0]->dx, events[0]->dy)));
            assert(motion_deltas(events) =~= seq![(events[0]->dx, events[0]->dy)] + motion_deltas(
                rest,
            ));
            assert(m.pending_motion.push((events[0]->dx, events[0]->dy)) + motion_deltas(rest)
                =~= m.pending_motion + motion_deltas(events));
        }
    }
}

/// With replay of suppressed motion on, a short click gives the pointer
/// back every movement it made while the button was held, in order, before
/// the click itself.
pub proof fn lemma_short_click_replays_motion(m: EngineModel, motions: Seq<CoreInputEvent>)
    requires
        m.state == EngineState::Idle,
        m.config.replay_pending_motion_on_click,
        m.config.suppress_motion_while_pending,
        all_motion(motions),
        run(step(m, CoreInputEvent::MiddleDown).0, motions).0.state == EngineState::MiddlePending,
    ensures
        step(run(step(m, CoreInputEvent::MiddleDown).0, motions).0, CoreInputEvent::MiddleUp).1
            == replayed_motion(motion_deltas(motions)).push(CoreAction::EmitMiddleClick),
{
    let down = step(m, CoreInputEvent::MiddleDown).0;
    lemma_pending_withholds_motions(down, motions);
    assert(down.pending_motion + motion_deltas(motions) =~= motion_deltas(motions));
    lemma_short_press_is_a_click(run(down, motions).0);
}
/// No event of the sequence is a middle press or release.
pub open spec fn no_middle(events: Seq<CoreInputEvent>) -> bool {
    forall|i: int|
        0 <= i < events.len() ==> !((#[trigger] events[i]) is MiddleDown) && !(events[i] is MiddleUp)
}

/// The deltas of the pointer motions among the events, in order.
pub open spec fn motions_of(events: Seq<CoreInputEvent>) -> Seq<(i32, i32)>
    decreases events.len(),
{
    if events.len() == 0 {
        Seq::empty()
    } else {
        let before = motions_of(events.drop_last());
        match events.last() {
            CoreInputEvent::Motion { dx, dy } => before.push((dx, dy)),
            _ => before,
        }
    }
}

/// Without a middle press or release a gesture never ends, and once
/// scrolling the engine keeps scrolling.
proof fn lemma_gesture_continues(m: EngineModel, events: Seq<CoreInputEvent>)
    requires
        m.state != EngineState::Idle,
        no_middle(events),
    ensures
        run(m, events).0.state != EngineState::Idle,
        m.state == EngineState::Scrolling ==> run(m, events).0.state == EngineState::Scrolling,
    decreases events.len(),
{
    if events.len() > 0 {
        let pre = events.drop_last();
        let e = events.last();
        assert(no_middle(pre)) by {
            assert forall|i: int| 0 <= i < pre.len() implies !((#[trigger] pre[i]) is MiddleDown)
                && !(pre[i] is MiddleUp) by {
                assert(pre[i] == events[i]);
            }
        }
        assert(events[events.len() - 1] == e);
        lemma_gesture_continues(m, pre);
        lemma_run_append(m, pre, e);
        assert(pre.push(e) =~= events);
    }
}

/// While pending, whatever comes between the press and the release other
/// than the middle button: the motions are withheld in order when replay of
/// suppressed motion is on, and nothing is withheld otherwise.
proof fn lemma_pending_withholds_motions_among_events(m: EngineModel, events: Seq<CoreInputEvent>)
    requires
        m.state == EngineState::MiddlePending,
        no_middle(events),
        run(m, events).0.state == EngineState::MiddlePending,
    ensures
        run(m, events).0.pending_motion == (if m.config.replay_pending_motion_on_click
            && m.config.suppress_motion_while_pending {
            m.pending_motion + motions_of(events)
        } else {
            m.pending_motion
        }),
        run(m, events).0.config == m.config,
    decreases events.len(),
{
    if events.len() == 0 {
        assert(m.pending_motion + motions_of(events) =~= m.pending_motion);
    } else {
        let pre = events.drop_last();
        let e = events.last();
        assert(no_middle(pre)) by {
            assert forall|i: int| 0 <= i < pre.len() implies !((#[trigger] pre[i]) is MiddleDown)
                && !(pre[i] is MiddleUp) by {
                assert(pre[i] == events[i]);
            }
        }
        assert(events[events.len() - 1] == e);
        assert(pre.push(e) =~= events);
        lemma_run_append(m, pre, e);
        lemma_gesture_continues(m, pre);
        let mid = run(m, pre).0;
        if mid.state == EngineState::Scrolling {
            lemma_gesture_continues(mid, seq![e]);
            reveal_with_fuel(run, 2);
            assert(seq![e].subrange(1, 1) =~= Seq::<CoreInputEvent>::empty());
            assert(run(mid, seq![e]).0 == step(mid, e).0);
        } else {
            lemma_pending_withholds_motions_among_events(m, pre);
            let both = m.config.replay_pending_motion_on_click && m.config.suppress_motion_while_pending;
            if both {
                if let CoreInputEvent::Motion { dx, dy } = e {
                    assert(motions_of(events) == motions_of(pre).push((dx, dy)));
                    assert(m.pending_motion + motions_of(pre).push((dx, dy)) =~= (m.pending_motion
                        + motions_of(pre)).push((dx, dy)));
                } else {
                    assert(motions_of(events) == motions_of(pre));
                }
            }
        }
    }
}

/// Click preservation: pressing the middle button, then any events other
/// than the middle button that leave the gesture pending, then releasing,
/// gives back the withheld motions in order (when replay of suppressed
/// motion is on; none otherwise) followed by the middle click, and leaves
/// the engine idle at the press point.
pub proof fn lemma_click_after_other_events(m: EngineModel, events: Seq<CoreInputEvent>)
    requires
        m.state == EngineState::Idle,
        no_middle(events),
        run(step(m, CoreInputEvent::MiddleDown).0, events).0.state == EngineState::MiddlePending,
    ensures
        ({
            let held = run(step(m, CoreInputEvent::MiddleDown).0, events).0;
            let up = step(held, CoreInputEvent::MiddleUp);
            &&& up.0.state == EngineState::Idle
            &&& up.0.offset_y == 0 && up.0.offset_x == 0
            &&& up.0.config == m.config
            &&& up.1 == (if m.config.replay_pending_motion_on_click
                && m.config.suppress_motion_while_pending {
                replayed_motion(motions_of(events))
            } else {
                Seq::empty()
            }).push(CoreAction::EmitMiddleClick)
        }),
{
    let down = step(m, CoreInputEvent::MiddleDown).0;
    lemma_pending_withholds_motions_among_events(down, events);
    assert(down.pending_motion + motions_of(events) =~= motions_of(events));
    let held = run(down, events).0;
    lemma_short_press_is_a_click(held);
    if m.config.replay_pending_motion_on_click && !m.config.suppress_motion_while_pending {
        assert(replayed_motion(held.pending_motion) =~= Seq::<CoreAction>::empty());
    }
}

} // verus!
