//! Keyboard, mouse and gamepad events, and the controller manager that
//! injects them.
use vstd::prelude::*;

verus! {

/// Owns the virtual gamepads input is injected into.
pub struct ControllerManager;

impl ControllerManager {
    pub fn new() -> (r: Self) {
        ControllerManager
    }
}

/// A request to rumble a gamepad.
#[derive(Debug, Clone, Copy, PartialEq, Eq)]
pub struct RumbleEvent {
    pub large_motor: u8,
    pub small_motor: u8,
}

/// An input event to inject on the host.
#[derive(Debug, Clone, Copy, PartialEq, Eq, Structural)]
pub enum InputEvent {
    KeyDown { key_code: u16, scan_code: u16 },
    KeyUp { key_code: u16, scan_code: u16 },
    MouseMove { dx: i32, dy: i32, absolute: bool, x: i32, y: i32 },
    MouseWheel { delta: i32 },
    MouseButtonDown { button: u8 },
    MouseButtonUp { button: u8 },
    GamepadState {
        slot: u8,
        buttons: u16,
        left_trigger: u8,
        right_trigger: u8,
        left_x: i16,
        left_y: i16,
        right_x: i16,
        right_y: i16,
    },
}

} // verus!
