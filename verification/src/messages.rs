//! The message protocol: the closed set of tagged messages that flow
//! editor→runtime and runtime→editor, and the plain input-event data they
//! carry.  Messages are immutable value objects; every payload is owned,
//! self-contained data.  Floating-point coordinates travel as their IEEE
//! 754 bit patterns, so no precision is lost on the wire.

use vstd::prelude::*;
use crate::bridge::ObjectId;
use crate::component::RonComponentSerialized;

verus! {

/// Pressed or released, for buttons and keys.
#[derive(Debug, Clone, Copy, PartialEq, Eq, Structural)]
pub enum ElementState {
    Pressed,
    Released,
}

/// A pointer button.
#[derive(Debug, Clone, Copy, PartialEq, Eq, Structural)]
pub enum MouseButton {
    Left,
    Right,
    Middle,
    Back,
    Forward,
    Other(u16),
}

/// A scroll step: whole lines (two 32-bit float bit patterns) or exact
/// pixels (two 64-bit float bit patterns).
#[derive(Debug, Clone, Copy, PartialEq, Eq, Structural)]
pub enum MouseScrollDelta {
    LineDelta(u32, u32),
    PixelDelta(u64, u64),
}

/// A physical key: a stable key code, or an unidentified platform scan
/// code.
#[derive(Debug, Clone, Copy, PartialEq, Eq, Structural)]
pub enum PhysicalKey {
    Code(u32),
    Unidentified(u32),
}

/// A pointer position in physical pixels, as 64-bit float bit patterns.
#[derive(Debug, Clone, Copy, PartialEq, Eq, Structural)]
pub struct PhysicalPosition {
    pub x_bits: u64,
    pub y_bits: u64,
}

/// A window position on the desktop, in whole physical pixels.
#[derive(Debug, Clone, Copy, PartialEq, Eq, Structural)]
pub struct WindowPosition {
    pub x: i32,
    pub y: i32,
}

/// Everything the editor sends to the runtime: lifecycle control, input
/// forwarding, window-layout notification, the full-graph query, and the
/// mutation request.
#[derive(Debug, Clone, PartialEq)]
pub enum EditorToRuntimeMsg {
    Shutdown,
    Save,
    LoadScene { path: String },
    LayoutChange {
        min_x_bits: u32,
        min_y_bits: u32,
        width_bits: u32,
        height_bits: u32,
        window_position: WindowPosition,
    },
    CursorMoved { position: PhysicalPosition },
    CursorEntered,
    CursorLeft,
    MouseInput { button: MouseButton, state: ElementState },
    MouseWheel { delta: MouseScrollDelta },
    KeyboardInput { state: ElementState, physical_key: PhysicalKey },
    ReceivedCharacter { text: String },
    GetEntities,
    InsertComponent { entity: ObjectId, component: RonComponentSerialized },
}

/// Everything the runtime sends to the editor: the full object-graph
/// snapshot, never a diff.
#[derive(Debug, Clone, PartialEq)]
pub enum RuntimeToEditorMsg {
    Entities { entities: Vec<(ObjectId, Vec<RonComponentSerialized>)> },
}

} // verus!
