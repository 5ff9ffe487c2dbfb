//! The vocabulary shared by the engine and the daemon: input events coming
//! from the physical mouse, and actions to perform on the virtual mouse.

use vstd::prelude::*;

verus! {

/// A mouse button that can be forwarded to the virtual device.
#[derive(Debug, Clone, Copy, PartialEq, Eq, Structural)]
pub enum MouseButton {
    Left,
    Right,
    Middle,
    Side,
    Extra,
    Forward,
    Back,
}

/// The three phases of a middle-button gesture.
#[derive(Debug, Clone, Copy, PartialEq, Eq, Structural)]
pub enum EngineState {
    /// Ordinary input is forwarded.
    Idle,
    /// The middle button is held; it is not yet known whether this is a
    /// click or a scroll gesture.
    MiddlePending,
    /// The pointer left the deadzone: wheel events are emitted periodically.
    Scrolling,
}

/// An event delivered to the engine.
#[derive(Debug, Clone, Copy, PartialEq, Eq, Structural)]
pub enum CoreInputEvent {
    MiddleDown,
    MiddleUp,
    LeftDown,
    LeftUp,
    RightDown,
    RightUp,
    Motion { dx: i32, dy: i32 },
    Wheel { vertical: i32, horizontal: i32 },
    WheelHiRes { vertical_units: i32, horizontal_units: i32 },
    Tick { dt_micros: u64 },
}

/// An action the daemon performs in response to an event.
#[derive(Debug, Clone, Copy, PartialEq, Eq, Structural)]
pub enum CoreAction {
    ForwardMouseButton { button: MouseButton, pressed: bool },
    ForwardMotion { dx: i32, dy: i32 },
    ForwardWheel { vertical: i32, horizontal: i32 },
    EmitWheelDetents { vertical: i32, horizontal: i32 },
    EmitWheelHiRes { vertical_units: i32, horizontal_units: i32 },
    EmitMiddleClick,
    EnterScrollMode,
    ExitScrollMode,
    Suppress,
}

} // verus!
