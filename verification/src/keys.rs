use vstd::prelude::*;
use crossterm::event::KeyCode;

verus! {

/// Which key was pressed.
#[derive(PartialEq, Eq, Structural, Clone, Copy, Debug)]
pub enum Key {
    Char(char),
    Enter,
    Esc,
    Backspace,
    Delete,
    Left,
    Right,
    Up,
    Down,
    Home,
    End,
    Tab,
    BackTab,
    PageUp,
    PageDown,
    /// Any key the widgets do not act on.
    Other,
}

/// A key press: the key, and whether Ctrl, Alt or Shift was held.
pub struct KeyPress {
    pub key: Key,
    pub ctrl: bool,
    pub alt: bool,
    pub shift: bool,
}

/// A terminal key code.
#[verifier::external_type_specification]
#[verifier::external_body]
pub struct ExKeyCode(KeyCode);

/// The key that a crossterm key code stands for (`Key::Other` for a code
/// that no `Key` stands for).
pub uninterp spec fn key_of_code(code: KeyCode) -> Key;

/// crossterm's key code for a key, one variant for another (`Key::Other`
/// as `KeyCode::Null`, which neither editing component acts on). Claimed:
/// the code stands for `k`.
#[verifier::external_body]
pub(crate) fn key_code(k: Key) -> (code: KeyCode)
    ensures
        key_of_code(code) == k,
{
    match k {
        Key::Char(c) => KeyCode::Char(c), Key::Enter => KeyCode::Enter, Key::Esc => KeyCode::Esc,
        Key::Backspace => KeyCode::Backspace, Key::Delete => KeyCode::Delete, Key::Left => KeyCode::Left,
        Key::Right => KeyCode::Right, Key::Up => KeyCode::Up, Key::Down => KeyCode::Down,
        Key::Home => KeyCode::Home, Key::End => KeyCode::End, Key::Tab => KeyCode::Tab,
        Key::BackTab => KeyCode::BackTab, Key::PageUp => KeyCode::PageUp, Key::PageDown => KeyCode::PageDown,
        Key::Other => KeyCode::Null,
    }
}

} // verus!
