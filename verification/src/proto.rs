//! Message payload types shared by host and client.
use vstd::prelude::*;

verus! {

/// A captured video frame as the protocol describes it.
#[derive(Debug, Clone)]
pub struct VideoFrame {
    pub display_id: usize,
    pub timestamp: u64,
    pub data: Vec<u8>,
    pub width: u32,
    pub height: u32,
    pub codec: String,
    pub key_frame: bool,
}

/// A keyboard event.
#[derive(Debug, Clone, Copy, PartialEq, Eq)]
pub struct KeyEvent {
    pub down: bool,
    pub keycode: u32,
    pub scancode: u32,
    pub modifiers: u32,
}

/// The kind of a mouse event.
#[derive(Debug, Clone, Copy, PartialEq, Eq, Structural)]
pub enum MouseEventType {
    Move,
    ButtonDown,
    ButtonUp,
    Wheel,
}

/// Clipboard contents.
#[derive(Debug, Clone)]
pub struct ClipboardData {
    pub content: String,
    pub mime_type: String,
}

} // verus!
