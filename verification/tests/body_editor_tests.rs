use lazypost::keys::{Key, KeyPress};
use lazypost::widgets::{BodyEditor, EditorMode};

fn key(c: char) -> KeyPress {
    KeyPress { key: Key::Char(c), ctrl: false, alt: false, shift: false }
}

fn key_code(k: Key) -> KeyPress {
    KeyPress { key: k, ctrl: false, alt: false, shift: false }
}

fn json_editor() -> BodyEditor {
    let mut e = BodyEditor::new();
    e.enable();
    e.set_mode(EditorMode::Json);
    e
}

fn type_str(e: &mut BodyEditor, s: &str) {
    for c in s.chars() {
        e.handle_event(&key(c));
    }
}

#[test]
fn open_brace_auto_closes() {
    let mut e = json_editor();
    e.handle_event(&key('{'));
    assert_eq!(e.value(), "{}");
    e.handle_event(&key('a'));
    assert_eq!(e.value(), "{a}");
}

#[test]
fn open_bracket_and_paren_auto_close() {
    let mut e = json_editor();
    e.handle_event(&key('['));
    assert_eq!(e.value(), "[]");
    let mut e2 = json_editor();
    e2.handle_event(&key('('));
    assert_eq!(e2.value(), "()");
}

#[test]
fn quote_auto_closes_and_steps_over() {
    let mut e = json_editor();
    e.handle_event(&key('"'));
    assert_eq!(e.value(), "\"\"");
    e.handle_event(&key('"'));
    assert_eq!(e.value(), "\"\"");
}

#[test]
fn typing_closer_after_autoclose_steps_over() {
    let mut e = json_editor();
    type_str(&mut e, "{");
    e.handle_event(&key('}'));
    assert_eq!(e.value(), "{}");
}

#[test]
fn backspace_inside_empty_pair_removes_both() {
    let mut e = json_editor();
    type_str(&mut e, "{");
    e.handle_event(&key_code(Key::Backspace));
    assert_eq!(e.value(), "");
}

#[test]
fn enter_inside_braces_expands_block() {
    let mut e = json_editor();
    type_str(&mut e, "{");
    e.handle_event(&key_code(Key::Enter));
    assert_eq!(e.value(), "{\n  \n}");
}

#[test]
fn enter_preserves_indent() {
    let mut e = json_editor();
    e.set_text("    hello");
    e.handle_event(&key_code(Key::End));
    e.handle_event(&key_code(Key::Enter));
    assert_eq!(e.value(), "    hello\n    ");
}

#[test]
fn tab_inserts_two_spaces() {
    let mut e = json_editor();
    e.handle_event(&key_code(Key::Tab));
    assert_eq!(e.value(), "  ");
}

#[test]
fn plain_mode_does_not_intercept() {
    let mut e = BodyEditor::new();
    e.enable();
    e.handle_event(&key('{'));
    assert_eq!(e.value(), "{");
}

#[test]
fn disabled_editor_ignores_keys() {
    let mut e = BodyEditor::new();
    e.set_mode(EditorMode::Json);
    assert!(!e.handle_event(&key('{')));
    assert_eq!(e.value(), "");
}

#[test]
fn set_text_then_value_gives_text_back() {
    let mut e = BodyEditor::new();
    e.set_text("line one\nline two");
    assert_eq!(e.value(), "line one\nline two");
}

#[test]
fn plain_mode_types_breaks_and_deletes() {
    let mut e = BodyEditor::new();
    e.enable();
    type_str(&mut e, "ab");
    e.handle_event(&key_code(Key::Enter));
    type_str(&mut e, "cd");
    assert_eq!(e.value(), "ab\ncd");
    assert_eq!(e.cursor(), (1, 2));
    e.handle_event(&key_code(Key::Backspace));
    assert_eq!(e.value(), "ab\nc");
    e.handle_event(&key_code(Key::Backspace));
    e.handle_event(&key_code(Key::Backspace));
    assert_eq!(e.value(), "ab");
    assert_eq!(e.cursor(), (0, 2));
}

#[test]
fn ctrl_m_breaks_the_line() {
    let mut e = BodyEditor::new();
    e.enable();
    type_str(&mut e, "xy");
    e.handle_event(&KeyPress { key: Key::Char('m'), ctrl: true, alt: false, shift: false });
    assert_eq!(e.value(), "xy\n");
    assert_eq!(e.cursor(), (1, 0));
}

#[test]
fn json_enter_after_open_bracket_indents_deeper() {
    let mut e = json_editor();
    e.set_text("  [");
    e.handle_event(&key_code(Key::End));
    e.handle_event(&key_code(Key::Enter));
    assert_eq!(e.value(), "  [\n    ");
    assert_eq!(e.cursor(), (1, 4));
}
