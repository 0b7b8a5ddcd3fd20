use lazypost::keys::{Key, KeyPress};
use lazypost::widgets::TextInput;

fn press(k: Key, ctrl: bool, alt: bool, shift: bool) -> KeyPress {
    KeyPress { key: k, ctrl, alt, shift }
}

fn field(text: &str) -> TextInput {
    let mut t = TextInput::new("Name".to_string());
    t.set_value(text.to_string());
    t
}

#[test]
fn typed_character_goes_in_at_the_cursor() {
    let mut t = field("ab");
    t.edit(&press(Key::Char('c'), false, false, false));
    assert_eq!(t.value(), "abc");
    t.edit(&press(Key::Left, false, false, false));
    t.edit(&press(Key::Char('x'), false, false, false));
    assert_eq!(t.value(), "abxc");
}

#[test]
fn shifted_character_is_typed() {
    let mut t = field("a");
    t.edit(&press(Key::Char('B'), false, false, true));
    assert_eq!(t.value(), "aB");
}

#[test]
fn home_then_type_goes_in_front() {
    let mut t = field("ab");
    t.edit(&press(Key::Home, false, false, false));
    t.edit(&press(Key::Char('z'), false, false, false));
    assert_eq!(t.value(), "zab");
}

#[test]
fn keys_without_binding_leave_the_text() {
    let mut t = field("ab");
    t.edit(&press(Key::Enter, false, false, false));
    t.edit(&press(Key::Esc, false, false, false));
    t.edit(&press(Key::Up, false, false, false));
    t.edit(&press(Key::Char('q'), false, true, false));
    t.edit(&press(Key::Char('q'), true, false, false));
    assert_eq!(t.value(), "ab");
}

#[test]
fn ctrl_u_empties_and_ctrl_k_cuts_at_cursor() {
    let mut t = field("abc");
    t.edit(&press(Key::Char('u'), true, false, false));
    assert_eq!(t.value(), "");
    let mut t2 = field("abc");
    t2.edit(&press(Key::Left, false, false, false));
    t2.edit(&press(Key::Char('k'), true, false, false));
    assert_eq!(t2.value(), "ab");
}

#[test]
fn backspace_at_start_changes_nothing() {
    let mut t = field("ab");
    t.edit(&press(Key::Home, false, false, false));
    t.edit(&press(Key::Backspace, false, false, false));
    assert_eq!(t.value(), "ab");
    t.edit(&press(Key::End, false, false, false));
    t.edit(&press(Key::Backspace, false, false, false));
    assert_eq!(t.value(), "a");
}

#[test]
fn disabled_field_ignores_keys_enabled_field_types() {
    let mut t = field("ab");
    assert!(!t.handle_event(&press(Key::Char('c'), false, false, false)));
    assert_eq!(t.value(), "ab");
    t.enable();
    assert!(t.handle_event(&press(Key::Char('c'), false, false, false)));
    assert_eq!(t.value(), "abc");
}
