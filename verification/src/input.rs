//! Keyboard and mouse input: the mapping of the protocol's key and button
//! codes to the keys that the input backend injects, and the byte layout of
//! key events for the Android bridge.
use vstd::prelude::*;

use crate::bytes::{from_le32, le32, lemma_le32_roundtrip, push_le32};
use crate::error::Error;
use crate::proto::{KeyEvent, MouseEventType};

verus! {

/// A key that the input backend can press.
#[derive(Debug, Clone, Copy, PartialEq, Eq)]
pub enum Key {
    /// The key that types this character in the current layout.
    Layout(char),
    F1,
    F2,
    F3,
    F4,
    F5,
    F6,
    F7,
    F8,
    F9,
    F10,
    F11,
    F12,
    LeftArrow,
    UpArrow,
    RightArrow,
    DownArrow,
    Return,
    Escape,
    Tab,
    Space,
    Backspace,
    Delete,
    Home,
    End,
    PageUp,
    PageDown,
    Shift,
    Control,
    Alt,
    Meta,
    /// A platform key code.
    Raw(u16),
}

/// A mouse button.
#[derive(Debug, Clone, Copy, PartialEq, Eq)]
pub enum MouseButton {
    Left,
    Right,
    Middle,
}

/// The key for a (Windows virtual-key) code.
pub open spec fn spec_key_for_code(code: u32) -> Key {
    if 0x41 <= code <= 0x5A || 0x30 <= code <= 0x39 {
        Key::Layout((code as u8) as char)
    } else if 0x70 <= code <= 0x7B {
        match code {
            0x70 => Key::F1,
            0x71 => Key::F2,
            0x72 => Key::F3,
            0x73 => Key::F4,
            0x74 => Key::F5,
            0x75 => Key::F6,
            0x76 => Key::F7,
            0x77 => Key::F8,
            0x78 => Key::F9,
            0x79 => Key::F10,
            0x7A => Key::F11,
            _ => Key::F12,
        }
    } else {
        match code {
            0x25 => Key::LeftArrow,
            0x26 => Key::UpArrow,
            0x27 => Key::RightArrow,
            0x28 => Key::DownArrow,
            0x0D => Key::Return,
            0x1B => Key::Escape,
            0x09 => Key::Tab,
            0x20 => Key::Space,
            0x08 => Key::Backspace,
            0x2E => Key::Delete,
            0x24 => Key::Home,
            0x23 => Key::End,
            0x21 => Key::PageUp,
            0x22 => Key::PageDown,
            0x10 => Key::Shift,
            0x11 => Key::Control,
            0x12 => Key::Alt,
            0x5B => Key::Meta,
            _ => Key::Raw((code % 65536) as u16),
        }
    }
}

/// Map a key code to the key to press: letters and digits type themselves,
/// 0x70..0x7B are F1..F12, the navigation, editing and modifier codes map to
/// their keys, and any other code is passed on raw (its low 16 bits).
pub fn keycode_to_key(code: u32) -> (res: Key)
    ensures
        res == spec_key_for_code(code),
{
    if (0x41 <= code && code <= 0x5A) || (0x30 <= code && code <= 0x39) {
        return Key::Layout((code as u8) as char);
    }
    match code {
        0x70 => Key::F1,
        0x71 => Key::F2,
        0x72 => Key::F3,
        0x73 => Key::F4,
        0x74 => Key::F5,
        0x75 => Key::F6,
        0x76 => Key::F7,
        0x77 => Key::F8,
        0x78 => Key::F9,
        0x79 => Key::F10,
        0x7A => Key::F11,
        0x7B => Key::F12,
        0x25 => Key::LeftArrow,
        0x26 => Key::UpArrow,
        0x27 => Key::RightArrow,
        0x28 => Key::DownArrow,
        0x0D => Key::Return,
        0x1B => Key::Escape,
        0x09 => Key::Tab,
        0x20 => Key::Space,
        0x08 => Key::Backspace,
        0x2E => Key::Delete,
        0x24 => Key::Home,
        0x23 => Key::End,
        0x21 => Key::PageUp,
        0x22 => Key::PageDown,
        0x10 => Key::Shift,
        0x11 => Key::Control,
        0x12 => Key::Alt,
        0x5B => Key::Meta,
        _ => Key::Raw((code % 65536) as u16),
    }
}

/// Map a button code to a mouse button: 1 left, 2 right, 4 middle, and
/// anything else left.
pub fn mouse_button_from_code(buttons: u32) -> (res: MouseButton)
    ensures
        res == (if buttons == 2 {
            MouseButton::Right
        } else if buttons == 4 {
            MouseButton::Middle
        } else {
            MouseButton::Left
        }),
{
    match buttons {
        1 => MouseButton::Left,
        2 => MouseButton::Right,
        4 => MouseButton::Middle,
        _ => MouseButton::Left,
    }
}

/// The 13 bytes that carry a key event to the Android service:
/// `[down, keycode (LE), scancode (LE), modifiers (LE)]`.
pub open spec fn spec_key_event_bytes(e: KeyEvent) -> Seq<u8> {
    seq![if e.down { 1u8 } else { 0u8 }] + le32(e.keycode) + le32(e.scancode) + le32(e.modifiers)
}

/// Encode a key event for the Android bridge.
pub fn key_event_bytes(event: &KeyEvent) -> (res: Vec<u8>)
    ensures
        res@ == spec_key_event_bytes(*event),
        res@.len() == 13,
        res@[0] == (if event.down {
            1u8
        } else {
            0u8
        }),
        from_le32(res@[1], res@[2], res@[3], res@[4]) == event.keycode,
        from_le32(res@[5], res@[6], res@[7], res@[8]) == event.scancode,
        from_le32(res@[9], res@[10], res@[11], res@[12]) == event.modifiers,
{
    proof {
        law_key_event_layout(*event);
    }
    let mut data: Vec<u8> = Vec::new();
    data.push(if event.down { 1u8 } else { 0u8 });
    push_le32(&mut data, event.keycode);
    push_le32(&mut data, event.scancode);
    push_le32(&mut data, event.modifiers);
    assert(data@ =~= spec_key_event_bytes(*event));
    data
}

/// An encoded key event reads back as the event: byte 0 is 1 for a press
/// and 0 for a release, and bytes 1-4, 5-8 and 9-12 hold the key code, the
/// scan code and the modifiers, little-endian.
pub proof fn law_key_event_layout(e: KeyEvent)
    ensures
        spec_key_event_bytes(e).len() == 13,
        spec_key_event_bytes(e)[0] == (if e.down {
            1u8
        } else {
            0u8
        }),
        from_le32(
            spec_key_event_bytes(e)[1],
            spec_key_event_bytes(e)[2],
            spec_key_event_bytes(e)[3],
            spec_key_event_bytes(e)[4],
        ) == e.keycode,
        from_le32(
            spec_key_event_bytes(e)[5],
            spec_key_event_bytes(e)[6],
            spec_key_event_bytes(e)[7],
            spec_key_event_bytes(e)[8],
        ) == e.scancode,
        from_le32(
            spec_key_event_bytes(e)[9],
            spec_key_event_bytes(e)[10],
            spec_key_event_bytes(e)[11],
            spec_key_event_bytes(e)[12],
        ) == e.modifiers,
{
    lemma_le32_roundtrip(e.keycode);
    lemma_le32_roundtrip(e.scancode);
    lemma_le32_roundtrip(e.modifiers);
    let b = spec_key_event_bytes(e);
    let k = le32(e.keycode);
    let c = le32(e.scancode);
    let m = le32(e.modifiers);
    assert(b[1] == k[0] && b[2] == k[1] && b[3] == k[2] && b[4] == k[3]);
    assert(b[5] == c[0] && b[6] == c[1] && b[7] == c[2] && b[8] == c[3]);
    assert(b[9] == m[0] && b[10] == m[1] && b[11] == m[2] && b[12] == m[3]);
}

/// Each modifier key comes from exactly one virtual-key code: Shift from
/// 0x10, Control from 0x11, Alt from 0x12 and Meta (the Windows key) from
/// 0x5B.
pub proof fn law_modifier_keys(code: u32)
    ensures
        spec_key_for_code(code) == Key::Shift <==> code == 0x10,
        spec_key_for_code(code) == Key::Control <==> code == 0x11,
        spec_key_for_code(code) == Key::Alt <==> code == 0x12,
        spec_key_for_code(code) == Key::Meta <==> code == 0x5B,
{
}

/// Each navigation and editing key comes from exactly one virtual-key code:
/// the arrows from 0x25 (left), 0x26 (up), 0x27 (right), 0x28 (down);
/// Return 0x0D, Escape 0x1B, Tab 0x09, Space 0x20, Backspace 0x08, Delete
/// 0x2E, Home 0x24, End 0x23, Page Up 0x21, Page Down 0x22.
pub proof fn law_navigation_keys(code: u32)
    ensures
        spec_key_for_code(code) == Key::LeftArrow <==> code == 0x25,
        spec_key_for_code(code) == Key::UpArrow <==> code == 0x26,
        spec_key_for_code(code) == Key::RightArrow <==> code == 0x27,
        spec_key_for_code(code) == Key::DownArrow <==> code == 0x28,
        spec_key_for_code(code) == Key::Return <==> code == 0x0D,
        spec_key_for_code(code) == Key::Escape <==> code == 0x1B,
        spec_key_for_code(code) == Key::Tab <==> code == 0x09,
        spec_key_for_code(code) == Key::Space <==> code == 0x20,
        spec_key_for_code(code) == Key::Backspace <==> code == 0x08,
        spec_key_for_code(code) == Key::Delete <==> code == 0x2E,
        spec_key_for_code(code) == Key::Home <==> code == 0x24,
        spec_key_for_code(code) == Key::End <==> code == 0x23,
        spec_key_for_code(code) == Key::PageUp <==> code == 0x21,
        spec_key_for_code(code) == Key::PageDown <==> code == 0x22,
{
}

/// The function keys come from the codes 0x70 (F1) to 0x7B (F12), in order.
pub proof fn law_function_keys(code: u32)
    ensures
        spec_key_for_code(code) == Key::F1 <==> code == 0x70,
        spec_key_for_code(code) == Key::F2 <==> code == 0x71,
        spec_key_for_code(code) == Key::F3 <==> code == 0x72,
        spec_key_for_code(code) == Key::F4 <==> code == 0x73,
        spec_key_for_code(code) == Key::F5 <==> code == 0x74,
        spec_key_for_code(code) == Key::F6 <==> code == 0x75,
        spec_key_for_code(code) == Key::F7 <==> code == 0x76,
        spec_key_for_code(code) == Key::F8 <==> code == 0x77,
        spec_key_for_code(code) == Key::F9 <==> code == 0x78,
        spec_key_for_code(code) == Key::F10 <==> code == 0x79,
        spec_key_for_code(code) == Key::F11 <==> code == 0x7A,
        spec_key_for_code(code) == Key::F12 <==> code == 0x7B,
{
}

/// Letters and digits type the character whose code they are: a code in
/// `'A'..='Z'` or `'0'..='9'` gives the key for that character, and only
/// such a code gives a character key.
pub proof fn law_character_keys(code: u32)
    ensures
        (0x41 <= code <= 0x5A || 0x30 <= code <= 0x39) ==> spec_key_for_code(code) == Key::Layout(
            code as char,
        ),
        spec_key_for_code(code) is Layout ==> (0x41 <= code <= 0x5A || 0x30 <= code <= 0x39),
{
}

/// The pointer-event kind that the Android service expects.
pub fn pointer_kind(t: MouseEventType) -> (res: &'static str)
    ensures
        res@ == match t {
            MouseEventType::Move => "move"@,
            MouseEventType::ButtonDown => "down"@,
            MouseEventType::ButtonUp => "up"@,
            MouseEventType::Wheel => "wheel"@,
        },
{
    match t {
        MouseEventType::Move => "move",
        MouseEventType::ButtonDown => "down",
        MouseEventType::ButtonUp => "up",
        MouseEventType::Wheel => "wheel",
    }
}

/// Input simulation on Android (through the Java service); the clipboard is
/// not available there.
pub struct AndroidInputSimulator;

impl AndroidInputSimulator {
    /// A new simulator.
    pub fn new() -> (res: Self) {
        AndroidInputSimulator
    }

    /// The clipboard is not readable on Android: always empty.
    pub fn get_clipboard(&mut self) -> (res: Result<String, Error>)
        ensures
            res matches Ok(s) && s@ == Seq::<char>::empty(),
    {
        Ok(String::new())
    }

    /// The clipboard is not writable on Android: the content is ignored.
    pub fn set_clipboard(&mut self, _content: &str) -> (res: Result<(), Error>)
        ensures
            res is Ok,
    {
        Ok(())
    }
}

} // verus!
