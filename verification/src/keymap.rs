//! Key events translated to the raw byte sequences a terminal expects.
//!
//! This is the computing half of key handling: the caller turns its
//! input-event type into [`KeyCode`] and [`KeyMods`] and writes the
//! returned bytes to the child process.

use vstd::prelude::*;

verus! {

/// The keys the terminal pane forwards to the child process.
#[derive(Clone, Copy, PartialEq, Eq, Debug)]
pub enum KeyCode {
    Char(char),
    Enter,
    Backspace,
    Delete,
    Tab,
    Up,
    Down,
    Right,
    Left,
    Home,
    End,
    PageUp,
    PageDown,
    Esc,
}

/// The modifier classes the translation distinguishes.
#[derive(Clone, Copy, PartialEq, Eq, Debug)]
pub enum KeyMods {
    Plain,
    Shift,
    Ctrl,
    Other,
}

/// An ASCII character key under Shift: letters are upcased.
pub open spec fn shifted_ascii(v: u32) -> u32 {
    if 97 <= v <= 122 { (v - 32) as u32 } else { v }
}

/// The control byte for a letter key: Ctrl+A is 1 through Ctrl+Z is 26.
pub open spec fn ctrl_byte(v: u32) -> u32 {
    if 65 <= v <= 90 { (v - 64) as u32 } else { (v - 96) as u32 }
}

/// The bytes a key sends, or `None` for a combination that sends
/// nothing: a non-ASCII character, Ctrl with anything but a letter, or a
/// character key under an unrecognized modifier.
pub open spec fn key_bytes_spec(code: KeyCode, mods: KeyMods) -> Option<Seq<u8>> {
    match code {
        KeyCode::Char(c) => {
            let v = c as u32;
            match mods {
                KeyMods::Plain => if v < 0x80 { Some(seq![v as u8]) } else { None },
                KeyMods::Shift => if v < 0x80 { Some(seq![shifted_ascii(v) as u8]) } else { None },
                KeyMods::Ctrl => if (65 <= v && v <= 90) || (97 <= v && v <= 122) {
                    Some(seq![ctrl_byte(v) as u8])
                } else {
                    None
                },
                KeyMods::Other => None,
            }
        },
        KeyCode::Enter => Some(seq![0x0Du8]),
        KeyCode::Backspace => Some(seq![0x7Fu8]),
        KeyCode::Delete => Some(seq![0x1Bu8, 0x5Bu8, 0x33u8, 0x7Eu8]),
        KeyCode::Tab => Some(seq![0x09u8]),
        KeyCode::Up => Some(seq![0x1Bu8, 0x5Bu8, 0x41u8]),
        KeyCode::Down => Some(seq![0x1Bu8, 0x5Bu8, 0x42u8]),
        KeyCode::Right => Some(seq![0x1Bu8, 0x5Bu8, 0x43u8]),
        KeyCode::Left => Some(seq![0x1Bu8, 0x5Bu8, 0x44u8]),
        KeyCode::Home => Some(seq![0x1Bu8, 0x5Bu8, 0x48u8]),
        KeyCode::End => Some(seq![0x1Bu8, 0x5Bu8, 0x46u8]),
        KeyCode::PageUp => Some(seq![0x1Bu8, 0x5Bu8, 0x35u8, 0x7Eu8]),
        KeyCode::PageDown => Some(seq![0x1Bu8, 0x5Bu8, 0x36u8, 0x7Eu8]),
        KeyCode::Esc => Some(seq![0x1Bu8]),
    }
}

/// Translate one key press to the bytes it sends.
pub fn key_to_bytes(code: KeyCode, mods: KeyMods) -> (r: Option<Vec<u8>>)
    ensures
        r is Some <==> key_bytes_spec(code, mods) is Some,
        r matches Some(v) ==> key_bytes_spec(code, mods) == Some(v@),
{
    match code {
        KeyCode::Char(c) => {
            let v = c as u32;
            match mods {
                KeyMods::Plain => {
                    if v < 0x80 {
                        let b = vec![v as u8];
                        proof {
                            assert(b@ =~= seq![v as u8]);
                        }
                        Some(b)
                    } else {
                        None
                    }
                },
                KeyMods::Shift => {
                    if v < 0x80 {
                        let u = if 97 <= v && v <= 122 { v - 32 } else { v };
                        let b = vec![u as u8];
                        proof {
                            assert(b@ =~= seq![shifted_ascii(v) as u8]);
                        }
                        Some(b)
                    } else {
                        None
                    }
                },
                KeyMods::Ctrl => {
                    if (65 <= v && v <= 90) || (97 <= v && v <= 122) {
                        let u = if v <= 90 { v - 64 } else { v - 96 };
                        let b = vec![u as u8];
                        proof {
                            assert(b@ =~= seq![ctrl_byte(v) as u8]);
                        }
                        Some(b)
                    } else {
                        None
                    }
                },
                KeyMods::Other => None,
            }
        },
        KeyCode::Enter => mk1(0x0D),
        KeyCode::Backspace => mk1(0x7F),
        KeyCode::Delete => mk4(0x1B, 0x5B, 0x33, 0x7E),
        KeyCode::Tab => mk1(0x09),
        KeyCode::Up => mk3(0x1B, 0x5B, 0x41),
        KeyCode::Down => mk3(0x1B, 0x5B, 0x42),
        KeyCode::Right => mk3(0x1B, 0x5B, 0x43),
        KeyCode::Left => mk3(0x1B, 0x5B, 0x44),
        KeyCode::Home => mk3(0x1B, 0x5B, 0x48),
        KeyCode::End => mk3(0x1B, 0x5B, 0x46),
        KeyCode::PageUp => mk4(0x1B, 0x5B, 0x35, 0x7E),
        KeyCode::PageDown => mk4(0x1B, 0x5B, 0x36, 0x7E),
        KeyCode::Esc => mk1(0x1B),
    }
}

fn mk1(a: u8) -> (r: Option<Vec<u8>>)
    ensures
        r matches Some(v) && v@ == seq![a],
{
    let b = vec![a];
    proof {
        assert(b@ =~= seq![a]);
    }
    Some(b)
}

fn mk3(a: u8, b: u8, c: u8) -> (r: Option<Vec<u8>>)
    ensures
        r matches Some(v) && v@ == seq![a, b, c],
{
    let o = vec![a, b, c];
    proof {
        assert(o@ =~= seq![a, b, c]);
    }
    Some(o)
}

fn mk4(a: u8, b: u8, c: u8, d: u8) -> (r: Option<Vec<u8>>)
    ensures
        r matches Some(v) && v@ == seq![a, b, c, d],
{
    let o = vec![a, b, c, d];
    proof {
        assert(o@ =~= seq![a, b, c, d]);
    }
    Some(o)
}

} // verus!
