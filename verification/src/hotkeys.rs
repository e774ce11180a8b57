//! Keyboard dispatch: which engine command a key press stands for.
//!
//! The presentation layer translates its key events into `Key` values and
//! lets `handle_hotkey` decide the command, so the mapping itself is pinned
//! down here: with the command modifier held, Z undoes and Y redoes; without
//! it, the space bar skips and the digit keys route the current file to a
//! numbered destination folder (1 through 9 name the first nine folders, 0
//! the tenth).

use vstd::prelude::*;

verus! {

/// A key press, reduced to what the dispatch reads: the distinguished keys
/// and the digit keys (main row or numeric pad alike) by their digit value.
#[derive(Clone, Copy, Debug, PartialEq, Eq, Structural)]
pub enum Key {
    Z,
    Y,
    Space,
    Digit(u8),
    Other,
}

/// An engine command requested through the keyboard.
#[derive(Clone, Copy, Debug, PartialEq, Eq, Structural)]
pub enum HotkeyMessage {
    Skip,
    Undo,
    Redo,
    NumberedFolder(usize),
}

/// The folder index a digit key addresses: 1 through 9 are the first nine
/// folders, 0 is the tenth.
pub open spec fn digit_folder(d: u8) -> int {
    if d == 0 {
        9
    } else {
        d - 1
    }
}

/// Decide the command for a key press, or nothing when the key is not bound.
pub fn handle_hotkey(command: bool, key: Key) -> (r: Option<HotkeyMessage>)
    ensures
        command ==> r == match key {
            Key::Z => Some(HotkeyMessage::Undo),
            Key::Y => Some(HotkeyMessage::Redo),
            _ => None::<HotkeyMessage>,
        },
        !command ==> r == match key {
            Key::Space => Some(HotkeyMessage::Skip),
            Key::Digit(d) => if d <= 9 {
                Some(HotkeyMessage::NumberedFolder(digit_folder(d) as usize))
            } else {
                None::<HotkeyMessage>
            },
            _ => None::<HotkeyMessage>,
        },
{
    if command {
        return match key {
            Key::Z => Some(HotkeyMessage::Undo),
            Key::Y => Some(HotkeyMessage::Redo),
            _ => None,
        };
    }
    match key {
        Key::Space => Some(HotkeyMessage::Skip),
        Key::Digit(d) => {
            if d == 0 {
                Some(HotkeyMessage::NumberedFolder(9))
            } else if d <= 9 {
                Some(HotkeyMessage::NumberedFolder((d - 1) as usize))
            } else {
                None
            }
        },
        _ => None,
    }
}

} // verus!
