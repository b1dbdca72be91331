use dashboard::hotkeys::{handle_hotkey, key_pressed, Key};
use dashboard::layout::{Axis, Direction};
use dashboard::message::Message;
use dashboard::panel::PaneType;

#[test]
fn command_chords() {
    assert!(matches!(handle_hotkey(Key::V, true), Some(Message::SplitFocused(Axis::Vertical))));
    assert!(matches!(handle_hotkey(Key::H, true), Some(Message::SplitFocused(Axis::Horizontal))));
    assert!(matches!(handle_hotkey(Key::W, true), Some(Message::CloseFocused)));
    assert!(matches!(handle_hotkey(Key::U, true), Some(Message::UnFocus)));
    assert!(matches!(handle_hotkey(Key::Up, true), Some(Message::FocusAdjacent(Direction::Up))));
    assert!(matches!(handle_hotkey(Key::Down, true), Some(Message::FocusAdjacent(Direction::Down))));
    assert!(matches!(handle_hotkey(Key::Left, true), Some(Message::FocusAdjacent(Direction::Left))));
    assert!(matches!(handle_hotkey(Key::Right, true), Some(Message::FocusAdjacent(Direction::Right))));
    for key in [Key::C, Key::M, Key::T, Key::D, Key::I, Key::B, Key::Other] {
        assert!(handle_hotkey(key, true).is_none());
    }
}

#[test]
fn plain_keys() {
    assert!(matches!(handle_hotkey(Key::C, false), Some(Message::ChangeTypeFocused(PaneType::Cpu))));
    assert!(matches!(handle_hotkey(Key::M, false), Some(Message::ChangeTypeFocused(PaneType::Memory))));
    assert!(matches!(handle_hotkey(Key::T, false), Some(Message::ChangeTypeFocused(PaneType::Tasks))));
    assert!(matches!(handle_hotkey(Key::D, false), Some(Message::ChangeTypeFocused(PaneType::Disks))));
    assert!(matches!(handle_hotkey(Key::I, false), Some(Message::ChangeTypeFocused(PaneType::Info))));
    assert!(matches!(handle_hotkey(Key::B, false), Some(Message::ToggleTitleBar)));
    for key in [Key::V, Key::H, Key::W, Key::U, Key::Up, Key::Down, Key::Left, Key::Right, Key::Other] {
        assert!(handle_hotkey(key, false).is_none());
    }
}

#[test]
fn captured_presses_stand_for_nothing() {
    assert!(key_pressed(Key::V, true, true).is_none());
    assert!(key_pressed(Key::C, false, true).is_none());
    assert!(matches!(key_pressed(Key::V, true, false), Some(Message::SplitFocused(Axis::Vertical))));
    assert!(matches!(key_pressed(Key::B, false, false), Some(Message::ToggleTitleBar)));
    assert!(key_pressed(Key::Other, false, false).is_none());
}
