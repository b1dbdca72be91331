//! Keyboard chords and the requests they stand for.

use crate::layout::{Axis, Direction};
use crate::message::Message;
use crate::panel::PaneType;
use vstd::prelude::*;

verus! {

/// The keys that the dashboard listens to; every other key is `Other`.
#[derive(Debug, Clone, Copy, PartialEq, Eq, Structural)]
pub enum Key {
    Up,
    Down,
    Left,
    Right,
    V,
    H,
    W,
    U,
    C,
    M,
    T,
    D,
    I,
    B,
    Other,
}

/// The request behind a key: with the command modifier, V and H split the
/// focused pane vertically and horizontally, W closes it, U takes focus away
/// and the arrows move focus; without it, C, M, T, D and I change what the
/// focused pane shows and B shows or hides the title bars.
pub open spec fn hotkey(key: Key, control: bool) -> Option<Message> {
    if control {
        match key {
            Key::V => Some(Message::SplitFocused(Axis::Vertical)),
            Key::H => Some(Message::SplitFocused(Axis::Horizontal)),
            Key::W => Some(Message::CloseFocused),
            Key::U => Some(Message::UnFocus),
            Key::Up => Some(Message::FocusAdjacent(Direction::Up)),
            Key::Down => Some(Message::FocusAdjacent(Direction::Down)),
            Key::Left => Some(Message::FocusAdjacent(Direction::Left)),
            Key::Right => Some(Message::FocusAdjacent(Direction::Right)),
            _ => None,
        }
    } else {
        match key {
            Key::C => Some(Message::ChangeTypeFocused(PaneType::Cpu)),
            Key::M => Some(Message::ChangeTypeFocused(PaneType::Memory)),
            Key::T => Some(Message::ChangeTypeFocused(PaneType::Tasks)),
            Key::D => Some(Message::ChangeTypeFocused(PaneType::Disks)),
            Key::I => Some(Message::ChangeTypeFocused(PaneType::Info)),
            Key::B => Some(Message::ToggleTitleBar),
            _ => None,
        }
    }
}

/// The request behind a key, with or without the command modifier.
pub fn handle_hotkey(key_code: Key, control: bool) -> (r: Option<Message>)
    ensures
        r == hotkey(key_code, control),
{
    if control {
        let direction = match key_code {
            Key::Up => Some(Direction::Up),
            Key::Down => Some(Direction::Down),
            Key::Left => Some(Direction::Left),
            Key::Right => Some(Direction::Right),
            _ => None,
        };
        match key_code {
            Key::V => Some(Message::SplitFocused(Axis::Vertical)),
            Key::H => Some(Message::SplitFocused(Axis::Horizontal)),
            Key::W => Some(Message::CloseFocused),
            Key::U => Some(Message::UnFocus),
            _ => match direction {
                Some(d) => Some(Message::FocusAdjacent(d)),
                None => None,
            },
        }
    } else {
        match key_code {
            Key::C => Some(Message::ChangeTypeFocused(PaneType::Cpu)),
            Key::M => Some(Message::ChangeTypeFocused(PaneType::Memory)),
            Key::T => Some(Message::ChangeTypeFocused(PaneType::Tasks)),
            Key::D => Some(Message::ChangeTypeFocused(PaneType::Disks)),
            Key::I => Some(Message::ChangeTypeFocused(PaneType::Info)),
            Key::B => Some(Message::ToggleTitleBar),
            _ => None,
        }
    }
}

/// The request behind a key press. A press that a widget has already taken
/// stands for nothing; one with the command modifier is a command chord; any
/// other is a plain key.
pub fn key_pressed(key_code: Key, command: bool, captured: bool) -> (r: Option<Message>)
    ensures
        r == (if captured {
            None
        } else {
            hotkey(key_code, command)
        }),
{
    if captured {
        None
    } else {
        handle_hotkey(key_code, command)
    }
}

} // verus!
