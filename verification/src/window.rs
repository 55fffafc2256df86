//! The events of one window as the library hands them on: winit's window
//! events as owned values. A change of scale factor carries the inner size that
//! winit proposes by value, since winit lends it only for the length of its
//! callback. Values that winit gives as floating point are carried as their bit
//! patterns, to be turned back by `from_bits`.
use vstd::prelude::*;

verus! {

/// winit's symbolic name of a key, carried through unread.
#[verifier::external_type_specification]
#[verifier::external_body]
pub struct ExVirtualKeyCode(winit::event::VirtualKeyCode);

/// winit's amount of a scroll, carried through unread.
#[verifier::external_type_specification]
#[verifier::external_body]
pub struct ExMouseScrollDelta(winit::event::MouseScrollDelta);

/// winit's touch on a touchscreen, carried through unread.
#[verifier::external_type_specification]
#[verifier::external_body]
pub struct ExTouch(winit::event::Touch);

/// A path of a file dropped on a window, carried through unread.
#[verifier::external_type_specification]
#[verifier::external_body]
pub struct ExPathBuf(std::path::PathBuf);

/// `MouseScrollDelta` derives `Clone` beside `Copy`: a clone is the same value.
pub assume_specification[ <winit::event::MouseScrollDelta as core::clone::Clone>::clone ](
    delta: &winit::event::MouseScrollDelta,
) -> (r: winit::event::MouseScrollDelta)
    ensures
        r == *delta,
;

/// `Touch` derives `Clone` beside `Copy`: a clone is the same value.
pub assume_specification[ <winit::event::Touch as core::clone::Clone>::clone ](
    touch: &winit::event::Touch,
) -> (r: winit::event::Touch)
    ensures
        r == *touch,
;

/// std's `Clone` of a `PathBuf`, which copies the path into a new buffer;
/// nothing is stated of the copy it returns.
pub assume_specification[ <std::path::PathBuf as core::clone::Clone>::clone ](
    path: &std::path::PathBuf,
) -> std::path::PathBuf
;

/// Whether a key or a button went down or up.
#[derive(Clone, Copy, Debug, PartialEq, Eq)]
pub enum ElementState {
    Pressed,
    Released,
}

/// A button of a mouse.
#[derive(Clone, Copy, Debug, PartialEq, Eq)]
pub enum MouseButton {
    Left,
    Right,
    Middle,
    Other(u8),
}

/// The phase of a touch or of a scroll.
#[derive(Clone, Copy, Debug, PartialEq, Eq)]
pub enum TouchPhase {
    Started,
    Moved,
    Ended,
    Cancelled,
}

/// The theme of a window.
#[derive(Clone, Copy, Debug, PartialEq, Eq)]
pub enum Theme {
    Light,
    Dark,
}

/// A key going down or up; `modifiers` holds the bits of winit's
/// `ModifiersState`.
#[derive(Clone, Copy, Debug, PartialEq, Eq)]
pub struct KeyboardInput {
    pub scancode: u32,
    pub state: ElementState,
    pub virtual_keycode: Option<winit::event::VirtualKeyCode>,
    pub modifiers: u32,
}

/// An event of one window. A `modifiers` field holds the bits of winit's
/// `ModifiersState`; a field whose name ends in `_bits` holds the bit pattern of
/// winit's floating-point value.
#[derive(Clone, Debug, PartialEq)]
pub enum WindowEventAsync {
    Resized { width: u32, height: u32 },
    Moved { x: i32, y: i32 },
    CloseRequested,
    Destroyed,
    DroppedFile(std::path::PathBuf),
    HoveredFile(std::path::PathBuf),
    HoveredFileCancelled,
    ReceivedCharacter(char),
    Focused(bool),
    KeyboardInput { device_id: winit::event::DeviceId, input: KeyboardInput, is_synthetic: bool },
    ModifiersChanged(u32),
    CursorMoved { device_id: winit::event::DeviceId, x_bits: u64, y_bits: u64, modifiers: u32 },
    CursorEntered { device_id: winit::event::DeviceId },
    CursorLeft { device_id: winit::event::DeviceId },
    MouseWheel {
        device_id: winit::event::DeviceId,
        delta: winit::event::MouseScrollDelta,
        phase: TouchPhase,
        modifiers: u32,
    },
    MouseInput { device_id: winit::event::DeviceId, state: ElementState, button: MouseButton, modifiers: u32 },
    TouchpadPressure { device_id: winit::event::DeviceId, pressure_bits: u32, stage: i64 },
    AxisMotion { device_id: winit::event::DeviceId, axis: u32, value_bits: u64 },
    Touch(winit::event::Touch),
    /// The window's scale factor changed, and winit proposes the inner size
    /// `new_inner_width` by `new_inner_height` for it.
    ScaleFactorChanged { scale_factor_bits: u64, new_inner_width: u32, new_inner_height: u32 },
    ThemeChanged(Theme),
}

} // verus!
