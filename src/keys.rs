//! Translation of terminal key events into the bytes a device console expects.

use vstd::prelude::*;

verus! {

/// The key of a terminal key event, independent of any terminal library.
#[derive(Clone, Copy, Debug, PartialEq, Eq, Structural)]
pub enum KeyCode {
    Backspace,
    Enter,
    Left,
    Right,
    Up,
    Down,
    Home,
    End,
    Tab,
    Delete,
    Insert,
    Esc,
    Char(char),
    /// A named key that has no byte sequence (function keys, page keys, ...).
    Other,
}

/// A key press together with the modifiers that matter here.
#[derive(Clone, Copy, Debug, PartialEq, Eq, Structural)]
pub struct KeyEvent {
    pub code: KeyCode,
    pub control: bool,
}

/// The UTF-8 encoding of a character.
pub open spec fn utf8_of(c: char) -> Seq<u8> {
    let v = c as u32;
    if v < 0x80 {
        seq![v as u8]
    } else if v < 0x800 {
        seq![(0xC0 + v / 64) as u8, (0x80 + v % 64) as u8]
    } else if v < 0x10000 {
        seq![(0xE0 + v / 4096) as u8, (0x80 + (v / 64) % 64) as u8, (0x80 + v % 64) as u8]
    } else {
        seq![
            (0xF0 + v / 262144) as u8,
            (0x80 + (v / 4096) % 64) as u8,
            (0x80 + (v / 64) % 64) as u8,
            (0x80 + v % 64) as u8,
        ]
    }
}

/// The fixed byte sequence of a named key, if it has one.
pub open spec fn named_key_bytes(code: KeyCode) -> Option<Seq<u8>> {
    match code {
        KeyCode::Backspace => Some(seq![0x08u8]),
        KeyCode::Enter => Some(seq![0x0du8]),
        KeyCode::Left => Some(seq![0x1bu8, 0x5b, 0x44]),
        KeyCode::Right => Some(seq![0x1bu8, 0x5b, 0x43]),
        KeyCode::Home => Some(seq![0x1bu8, 0x5b, 0x48]),
        KeyCode::End => Some(seq![0x1bu8, 0x5b, 0x46]),
        KeyCode::Up => Some(seq![0x1bu8, 0x5b, 0x41]),
        KeyCode::Down => Some(seq![0x1bu8, 0x5b, 0x42]),
        KeyCode::Tab => Some(seq![0x09u8]),
        KeyCode::Delete => Some(seq![0x1bu8, 0x5b, 0x33, 0x7e]),
        KeyCode::Insert => Some(seq![0x1bu8, 0x5b, 0x32, 0x7e]),
        KeyCode::Esc => Some(seq![0x1bu8]),
        _ => None,
    }
}

/// The bytes for a character typed with or without Control held.
pub open spec fn char_bytes(ch: char, control: bool) -> Seq<u8> {
    let v = ch as u32;
    if control && (('a' <= ch && ch <= 'z') || ch == ' ') {
        seq![(v % 32) as u8]
    } else if control && '4' <= ch && ch <= '7' {
        seq![((v + 8) % 32) as u8]
    } else {
        utf8_of(ch)
    }
}

/// What a key event sends to the device: a fixed sequence for the named keys,
/// the control code or the UTF-8 bytes for a character, nothing otherwise.
pub open spec fn key_bytes(ev: KeyEvent) -> Option<Seq<u8>> {
    match ev.code {
        KeyCode::Char(ch) => Some(char_bytes(ch, ev.control)),
        code => named_key_bytes(code),
    }
}

/// The UTF-8 encoding of `ch`.
pub fn encode_utf8(ch: char) -> (r: Vec<u8>)
    ensures
        r@ == utf8_of(ch),
{
    let v: u32 = ch as u32;
    if v < 0x80 {
        vec![v as u8]
    } else if v < 0x800 {
        vec![(0xC0 + v / 64) as u8, (0x80 + v % 64) as u8]
    } else if v < 0x10000 {
        vec![(0xE0 + v / 4096) as u8, (0x80 + (v / 64) % 64) as u8, (0x80 + v % 64) as u8]
    } else {
        assert(v <= 0x10FFFF);
        vec![
            (0xF0 + v / 262144) as u8,
            (0x80 + (v / 4096) % 64) as u8,
            (0x80 + (v / 64) % 64) as u8,
            (0x80 + v % 64) as u8,
        ]
    }
}

/// Converts a key event into the character or escape sequence that is sent
/// over the serial connection; `None` for keys that send nothing.
pub fn handle_key_event(key_event: KeyEvent) -> (r: Option<Vec<u8>>)
    ensures
        r.is_some() == key_bytes(key_event).is_some(),
        r.is_some() ==> r.unwrap()@ == key_bytes(key_event).unwrap(),
{
    // Escape sequences as understood by common embedded line editors:
    // Up ESC [A, Down ESC [B, Right ESC [C, Left ESC [D, Home ESC [H,
    // End ESC [F, Delete ESC [3~, Insert ESC [2~.
    match key_event.code {
        KeyCode::Backspace => Some(vec![0x08u8]),
        KeyCode::Enter => Some(vec![0x0du8]),
        KeyCode::Left => Some(vec![0x1bu8, 0x5b, 0x44]),
        KeyCode::Right => Some(vec![0x1bu8, 0x5b, 0x43]),
        KeyCode::Home => Some(vec![0x1bu8, 0x5b, 0x48]),
        KeyCode::End => Some(vec![0x1bu8, 0x5b, 0x46]),
        KeyCode::Up => Some(vec![0x1bu8, 0x5b, 0x41]),
        KeyCode::Down => Some(vec![0x1bu8, 0x5b, 0x42]),
        KeyCode::Tab => Some(vec![0x09u8]),
        KeyCode::Delete => Some(vec![0x1bu8, 0x5b, 0x33, 0x7e]),
        KeyCode::Insert => Some(vec![0x1bu8, 0x5b, 0x32, 0x7e]),
        KeyCode::Esc => Some(vec![0x1bu8]),
        KeyCode::Char(ch) => {
            let v: u32 = ch as u32;
            if key_event.control && (('a' <= ch && ch <= 'z') || ch == ' ') {
                Some(vec![(v % 32) as u8])
            } else if key_event.control && '4' <= ch && ch <= '7' {
                // Terminals report Control-4 through Control-7 for the codes
                // 0x1c through 0x1f.
                Some(vec![((v + 8) % 32) as u8])
            } else {
                Some(encode_utf8(ch))
            }
        }
        KeyCode::Other => None,
    }
}

} // verus!
