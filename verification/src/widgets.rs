use vstd::prelude::*;
use crossterm::event::{Event, KeyCode, KeyEvent, KeyModifiers};
use ratatui_textarea::{CursorMove, TextArea};
use tui_input::backend::crossterm::EventHandler;
use tui_input::Input;
use crate::keys::{Key, KeyPress, key_code, key_of_code};
use crate::text::{from_chars, to_chars, join, join_chars, views};

verus! {

/// A single-line text buffer with a cursor, from the `tui-input` crate.
#[verifier::external_type_specification]
#[verifier::external_body]
pub struct ExInput(Input);

/// The text a single-line buffer holds.
pub uninterp spec fn input_text(i: Input) -> Seq<char>;

/// Where a single-line buffer's cursor stands: how many characters precede
/// it.
pub uninterp spec fn input_cursor(i: Input) -> nat;

/// tui-input's `Input::new`: a buffer holding `value`, the cursor at its
/// end. Claimed: the buffer holds `value` and the cursor follows its last
/// character.
#[verifier::external_body]
fn input_new(value: String) -> (r: Input)
    ensures
        input_text(r) == value@,
        input_cursor(r) == value@.len(),
{
    Input::new(value)
}

/// tui-input's `Input::value`. Claimed: the text the buffer holds.
#[verifier::external_body]
fn input_value(i: &Input) -> (r: String)
    ensures
        r@ == input_text(*i),
{
    i.value().to_string()
}

/// `t` with `s` put in before position `at` (at its end where `at` is past
/// it).
pub open spec fn insert_at(t: Seq<char>, at: int, s: Seq<char>) -> Seq<char> {
    let k = if at <= t.len() { at } else { t.len() as int };
    t.take(k) + s + t.skip(k)
}

/// What tui-input's key bindings do with key `k` (Ctrl, Alt, Shift held as
/// given) to a buffer holding `t` with the cursor at `p`, leaving `t2` with
/// the cursor at `p2`. A printable key, alone, with Shift or with Ctrl and
/// Alt together, is typed at the cursor. Alone, Home and End move the cursor
/// to the start and the end; Ctrl with `a`, `e`, `u` and `k` go to the
/// start, go to the end, empty the line and cut it at the cursor. Left,
/// Right, and Ctrl with `b` or `f`, only move the cursor. Backspace at the
/// start and Delete at the end change nothing. Keys and combinations with no
/// binding change nothing. Left unsaid: where Left and Right put the
/// cursor, and what is deleted by Backspace and Delete elsewhere and by Ctrl
/// with `h`, `w` or `y`, which go by Unicode segmentation and by what was
/// cut before.
pub open spec fn input_key_effect(t: Seq<char>, p: nat, t2: Seq<char>, p2: nat, k: Key, ctrl: bool, alt: bool, shift: bool) -> bool {
    let same = t2 == t && p2 == p;
    let none = !ctrl && !alt && !shift;
    match k {
        Key::Char(c) => if (!ctrl && !alt) || (ctrl && alt && !shift) {
            t2 == insert_at(t, p as int, seq![c]) && p2 == p + 1
        } else if !ctrl || alt || shift {
            same
        } else if c == 'a' {
            t2 == t && p2 == 0
        } else if c == 'e' {
            t2 == t && p2 == t.len()
        } else if c == 'b' || c == 'f' {
            t2 == t
        } else if c == 'u' {
            t2 == Seq::<char>::empty()
        } else if c == 'k' {
            t2 == t.take(if p <= t.len() { p as int } else { t.len() as int }) && p2 == p
        } else if c == 'h' || c == 'w' || c == 'y' {
            true
        } else {
            same
        },
        Key::Left | Key::Right => t2 == t,
        Key::Home => if none { t2 == t && p2 == 0 } else { same },
        Key::End => if none { t2 == t && p2 == t.len() } else { same },
        Key::Backspace => if ctrl || shift || p == 0 { same } else { true },
        Key::Delete => if alt || shift || p == t.len() { same } else { true },
        _ => same,
    }
}

/// tui-input's `EventHandler::handle_event` for a press of `code` with
/// exactly the modifiers given. Claimed: the buffer changes as
/// `input_key_effect` says of the key that `code` stands for.
#[verifier::external_body]
fn input_handle(i: &mut Input, code: KeyCode, ctrl: bool, alt: bool, shift: bool)
    ensures
        input_key_effect(input_text(*old(i)), input_cursor(*old(i)), input_text(*final(i)), input_cursor(*final(i)), key_of_code(code), ctrl, alt, shift),
{
    let mut m = KeyModifiers::empty();
    m.set(KeyModifiers::CONTROL, ctrl);
    m.set(KeyModifiers::ALT, alt);
    m.set(KeyModifiers::SHIFT, shift);
    i.handle_event(&Event::Key(KeyEvent::new(code, m)));
}

/// A labelled single-line text field that takes key presses only while it
/// is enabled.
pub struct TextInput {
    pub input: Input,
    pub enabled: bool,
    pub title: String,
}

impl TextInput {
    /// The text the field holds.
    pub open spec fn text(&self) -> Seq<char> {
        input_text(self.input)
    }

    /// How many characters precede the cursor.
    pub open spec fn cursor(&self) -> nat {
        input_cursor(self.input)
    }

    /// How a key press changed the field's text and cursor, from `self` to
    /// `after` (see `input_key_effect`).
    pub open spec fn typed(&self, after: &Self, key: KeyPress) -> bool {
        input_key_effect(self.text(), self.cursor(), after.text(), after.cursor(), key.key, key.ctrl, key.alt, key.shift)
    }

    /// An empty, disabled field titled `title`.
    pub fn new(title: String) -> (t: Self)
        ensures
            t.text() == Seq::<char>::empty(),
            t.cursor() == 0,
            !t.enabled,
            t.title@ == title@,
    {
        let e: Vec<char> = Vec::new();
        TextInput { input: input_new(from_chars(&e)), enabled: false, title }
    }

    pub fn enable(&mut self)
        ensures
            final(self).enabled,
            final(self).input == old(self).input,
            final(self).text() == old(self).text(),
            final(self).title == old(self).title,
    {
        self.enabled = true;
    }

    pub fn disable(&mut self)
        ensures
            !final(self).enabled,
            final(self).input == old(self).input,
            final(self).text() == old(self).text(),
            final(self).title == old(self).title,
    {
        self.enabled = false;
    }

    pub fn is_enabled(&self) -> (b: bool)
        ensures
            b == self.enabled,
    {
        self.enabled
    }

    pub fn toggle(&mut self)
        ensures
            final(self).enabled == !old(self).enabled,
            final(self).text() == old(self).text(),
            final(self).title == old(self).title,
    {
        self.enabled = !self.enabled;
    }

    /// The text the field holds.
    pub fn value(&self) -> (r: String)
        ensures
            r@ == self.text(),
    {
        input_value(&self.input)
    }

    /// Replaces the text; the cursor goes to its end.
    pub fn set_value(&mut self, value: String)
        ensures
            final(self).text() == value@,
            final(self).cursor() == value@.len(),
            final(self).enabled == old(self).enabled,
            final(self).title == old(self).title,
    {
        self.input = input_new(value);
    }

    /// Empties the field.
    pub fn clear(&mut self)
        ensures
            final(self).text() == Seq::<char>::empty(),
            final(self).cursor() == 0,
            final(self).enabled == old(self).enabled,
            final(self).title == old(self).title,
    {
        let e: Vec<char> = Vec::new();
        self.input = input_new(from_chars(&e));
    }

    /// Empties the field and returns what it held.
    pub fn value_and_reset(&mut self) -> (r: String)
        ensures
            r@ == old(self).text(),
            final(self).text() == Seq::<char>::empty(),
            final(self).cursor() == 0,
            final(self).enabled == old(self).enabled,
            final(self).title == old(self).title,
    {
        let v = input_value(&self.input);
        self.clear();
        v
    }

    /// Empties the field and returns what it held.
    pub fn take_value(&mut self) -> (r: String)
        ensures
            r@ == old(self).text(),
            final(self).text() == Seq::<char>::empty(),
            final(self).cursor() == 0,
            final(self).enabled == old(self).enabled,
            final(self).title == old(self).title,
    {
        self.value_and_reset()
    }

    /// Hands a key press to the field's buffer while the field is enabled;
    /// returns whether it was taken. A disabled field is left as it was.
    pub fn handle_event(&mut self, key: &KeyPress) -> (taken: bool)
        ensures
            taken == old(self).enabled,
            final(self).enabled == old(self).enabled,
            final(self).title == old(self).title,
            !taken ==> final(self).text() == old(self).text(),
            !taken ==> *final(self) == *old(self),
            taken ==> old(self).typed(final(self), *key),
    {
        if !self.enabled {
            return false;
        }
        self.edit(key);
        true
    }

    /// Hands a key press to the field's buffer, enabled or not: the text and
    /// the cursor change as `input_key_effect` says.
    pub fn edit(&mut self, key: &KeyPress)
        ensures
            final(self).enabled == old(self).enabled,
            final(self).title == old(self).title,
            old(self).typed(final(self), *key),
    {
        let code = key_code(key.key);
        input_handle(&mut self.input, code, key.ctrl, key.alt, key.shift);
    }
}

/// A multi-line text area with a cursor: a `ratatui-textarea` `TextArea`,
/// held out of Verus's sight.
#[verifier::external_body]
pub struct TextBuffer {
    area: TextArea<'static>,
}

/// The lines a text area holds (never none: empty text is one empty line).
pub uninterp spec fn area_lines(t: TextBuffer) -> Seq<Seq<char>>;

/// A text area's cursor: its line and its column, counted in characters.
pub uninterp spec fn area_cursor(t: TextBuffer) -> (usize, usize);

/// Whether a text area is selecting text (a selection has been started).
pub uninterp spec fn area_selecting(t: TextBuffer) -> bool;

/// The text of each string.
pub open spec fn texts(v: Seq<String>) -> Seq<Seq<char>> {
    Seq::new(v.len(), |i: int| v[i]@)
}

/// Whether a text area holds at most `isize::MAX` lines of at most
/// `isize::MAX` characters each, as every vector of strings does.
pub open spec fn area_bounded(t: TextBuffer) -> bool {
    &&& area_lines(t).len() <= isize::MAX
    &&& forall|i: int| 0 <= i < area_lines(t).len() ==> #[trigger] area_lines(t)[i].len() <= isize::MAX
}

/// Whether no text is selected and the cursor stands on one of the lines,
/// at most at its end: the state in which the edits below are described.
pub open spec fn area_ready(t: TextBuffer) -> bool {
    let (row, col) = area_cursor(t);
    &&& !area_selecting(t)
    &&& area_bounded(t)
    &&& row < area_lines(t).len()
    &&& col <= area_lines(t)[row as int].len()
}

/// Whether `s` holds no line break and no carriage return.
pub open spec fn one_line(s: Seq<char>) -> bool {
    forall|i: int| 0 <= i < s.len() ==> s[i] != '\n' && s[i] != '\r'
}

/// `lines` with line `row` broken in two before column `col`.
pub open spec fn break_line(lines: Seq<Seq<char>>, row: int, col: int) -> Seq<Seq<char>> {
    lines.take(row) + seq![lines[row].take(col), lines[row].skip(col)] + lines.skip(row + 1)
}

/// A line break typed at the cursor of `t`, giving `u`: the line is broken
/// at the cursor, which goes to the start of the new line.
pub open spec fn newline_typed(t: TextBuffer, u: TextBuffer) -> bool {
    let (row, col) = area_cursor(t);
    &&& area_lines(u) == break_line(area_lines(t), row as int, col as int)
    &&& area_cursor(u) == ((row + 1) as usize, 0usize)
    &&& !area_selecting(u)
}

/// `s` (one line) typed at the cursor of `t`, giving `u`: it goes into the
/// cursor's line and the cursor moves past it.
pub open spec fn text_typed(t: TextBuffer, u: TextBuffer, s: Seq<char>) -> bool {
    let (row, col) = area_cursor(t);
    let lines = area_lines(t);
    &&& area_lines(u) == lines.update(row as int, insert_at(lines[row as int], col as int, s))
    &&& area_cursor(u) == (row, (col + s.len()) as usize)
    &&& !area_selecting(u)
}

/// The character before the cursor of `t` deleted, giving `u`: at the start
/// of a line, the line is joined to the one before (at the start of the
/// text nothing changes).
pub open spec fn char_deleted(t: TextBuffer, u: TextBuffer) -> bool {
    let (row, col) = area_cursor(t);
    let lines = area_lines(t);
    &&& !area_selecting(u)
    &&& if col > 0 {
        &&& area_lines(u) == lines.update(row as int, lines[row as int].remove(col - 1))
        &&& area_cursor(u) == (row, (col - 1) as usize)
    } else if row > 0 {
        &&& area_lines(u) == lines.take(row - 1) + seq![lines[row - 1] + lines[row as int]] + lines.skip(row + 1)
        &&& area_cursor(u) == ((row - 1) as usize, lines[row - 1].len() as usize)
    } else {
        &&& area_lines(u) == lines
        &&& area_cursor(u) == area_cursor(t)
    }
}

/// What ratatui-textarea's default key bindings do with key `k` (Ctrl and
/// Alt held as given) to `t`, giving `u`, where `t` is ready: Enter, Ctrl+M,
/// and a typed line break or carriage return break the line at the cursor;
/// another character typed without Ctrl or Alt goes in at the cursor;
/// Backspace without Ctrl or Alt deletes the character before the cursor.
/// Left unsaid: the other bindings (cursor moves, words, undo, the
/// clipboard), whose effect goes by the screen layout and by the area's
/// history.
pub open spec fn area_key_effect(t: TextBuffer, u: TextBuffer, k: Key, ctrl: bool, alt: bool) -> bool {
    area_ready(t) ==> match k {
        Key::Enter => newline_typed(t, u),
        Key::Char(c) => if !ctrl && !alt {
            if c == '\n' || c == '\r' { newline_typed(t, u) } else { text_typed(t, u, seq![c]) }
        } else if ctrl && !alt && c == 'm' {
            newline_typed(t, u)
        } else {
            true
        },
        Key::Backspace => (!ctrl && !alt) ==> char_deleted(t, u),
        _ => true,
    }
}

/// ratatui-textarea's `TextArea::new` (what `TextArea::from` calls).
/// Claimed, from its source: the area holds `lines`, or one empty line when
/// `lines` is empty, the cursor is at the start and nothing is selected.
#[verifier::external_body]
fn area_new(lines: Vec<String>) -> (r: TextBuffer)
    ensures
        area_lines(r) == (if lines@.len() == 0 { seq![Seq::<char>::empty()] } else { texts(lines@) }),
        area_cursor(r) == (0usize, 0usize),
        !area_selecting(r),
        area_bounded(r),
{
    TextBuffer { area: TextArea::new(lines) }
}

/// ratatui-textarea's `TextArea::lines`. Claimed: the lines the area holds.
#[verifier::external_body]
fn area_lines_get(t: &TextBuffer) -> (r: Vec<String>)
    ensures
        texts(r@) == area_lines(*t),
{
    t.area.lines().to_vec()
}

/// ratatui-textarea's `TextArea::cursor`. Claimed: the area's cursor.
#[verifier::external_body]
fn area_cursor_get(t: &TextBuffer) -> (r: (usize, usize))
    ensures
        r == area_cursor(*t),
{
    let c = t.area.cursor();
    (c.0, c.1)
}

/// ratatui-textarea's `TextArea::insert_str`: types `s` at the cursor,
/// replacing any selected text. Claimed, from its source: the selection is
/// gone afterwards, and in a ready area a one-line `s` is typed as
/// `text_typed` says. The lines are strings held in a vector, so the area
/// stays `area_bounded`.
#[verifier::external_body]
fn area_insert_str(t: &mut TextBuffer, s: &str)
    ensures
        !area_selecting(*final(t)),
        area_bounded(*final(t)),
        area_ready(*old(t)) && one_line(s@) ==> text_typed(*old(t), *final(t), s@),
{
    t.area.insert_str(s);
}

/// ratatui-textarea's `TextArea::insert_newline`. Claimed, from its source:
/// in a ready area the line is broken at the cursor (`newline_typed`). The
/// area stays `area_bounded`.
#[verifier::external_body]
fn area_insert_newline(t: &mut TextBuffer)
    ensures
        area_bounded(*final(t)),
        area_ready(*old(t)) ==> newline_typed(*old(t), *final(t)),
{
    t.area.insert_newline();
}

/// ratatui-textarea's `TextArea::delete_char` (the character before the
/// cursor). Claimed, from its source: in a ready area it deletes as
/// `char_deleted` says; the area stays `area_bounded`.
#[verifier::external_body]
fn area_delete_char(t: &mut TextBuffer)
    ensures
        area_bounded(*final(t)),
        area_ready(*old(t)) ==> char_deleted(*old(t), *final(t)),
{
    t.area.delete_char();
}

/// Whether a character takes one screen column: printable ASCII.
pub open spec fn printable(c: char) -> bool {
    ' ' <= c && c <= '~'
}

/// ratatui-textarea's `TextArea::delete_next_char`: it moves the cursor one
/// place forward on the screen and deletes the character before it.
/// Claimed, from its source: the selection is gone afterwards, and in a
/// ready area whose next character is printable ASCII that character is
/// removed and the cursor stays where it was; the area stays
/// `area_bounded`. (A text buffer here is never
/// given a wrap mode or a mask, so each line is one screen line and such a
/// character is one screen column wide.)
#[verifier::external_body]
fn area_delete_next_char(t: &mut TextBuffer)
    ensures
        area_bounded(*final(t)),
        !area_selecting(*final(t)),
        ({
            let (row, col) = area_cursor(*old(t));
            let lines = area_lines(*old(t));
            area_ready(*old(t)) && col < lines[row as int].len() && printable(lines[row as int][col as int]) ==> {
                &&& area_lines(*final(t)) == lines.update(row as int, lines[row as int].remove(col as int))
                &&& area_cursor(*final(t)) == area_cursor(*old(t))
            }
        }),
{
    t.area.delete_next_char();
}

/// Where `TextArea::move_cursor` is asked to go.
#[derive(PartialEq, Eq, Structural, Clone, Copy, Debug)]
pub enum CaretMove {
    Back,
    Forward,
    Up,
    End,
}

/// Where a cursor move took the cursor of a ready area `t`, giving `u`:
/// back over, or forward over, a printable ASCII character of its line, one
/// column; up, to some column of the line above, where there is one; to the
/// end, to the end of its line.
pub open spec fn caret_moved(t: TextBuffer, u: TextBuffer, m: CaretMove) -> bool {
    let (row, col) = area_cursor(t);
    let lines = area_lines(t);
    let line = lines[row as int];
    match m {
        CaretMove::Back => col > 0 && printable(line[col - 1]) ==> area_cursor(u) == (row, (col - 1) as usize),
        CaretMove::Forward => col < line.len() && printable(line[col as int]) ==> area_cursor(u) == (row, (col + 1) as usize),
        CaretMove::Up => row > 0 ==> area_cursor(u).0 == row - 1 && area_cursor(u).1 <= lines[row - 1].len(),
        CaretMove::End => area_cursor(u) == (row, line.len() as usize),
    }
}

/// ratatui-textarea's `TextArea::move_cursor`. Claimed, from its source: the
/// text is left as it was, and so is whether text is being selected; in a
/// ready area the cursor moves as `caret_moved` says. (A text buffer here is
/// never given a wrap mode or a mask, so each line is one screen line and a
/// printable ASCII character one screen column; where the cursor lands in
/// other cases goes by the characters' widths and is not claimed.)
#[verifier::external_body]
fn area_move(t: &mut TextBuffer, m: CaretMove)
    ensures
        area_lines(*final(t)) == area_lines(*old(t)),
        area_selecting(*final(t)) == area_selecting(*old(t)),
        area_ready(*old(t)) ==> caret_moved(*old(t), *final(t), m),
{
    let to = match m {
        CaretMove::Back => CursorMove::Back,
        CaretMove::Forward => CursorMove::Forward,
        CaretMove::Up => CursorMove::Up,
        CaretMove::End => CursorMove::End,
    };
    t.area.move_cursor(to);
}

/// ratatui-textarea's `TextArea::input` for a press of `code` with exactly
/// the modifiers given: the area's own key bindings. Claimed, from its
/// source: the area changes as `area_key_effect` says of the key that
/// `code` stands for, and stays `area_bounded`.
#[verifier::external_body]
fn area_input(t: &mut TextBuffer, code: KeyCode, ctrl: bool, alt: bool, shift: bool)
    ensures
        area_bounded(*final(t)),
        area_key_effect(*old(t), *final(t), key_of_code(code), ctrl, alt),
{
    let mut m = KeyModifiers::empty();
    m.set(KeyModifiers::CONTROL, ctrl);
    m.set(KeyModifiers::ALT, alt);
    m.set(KeyModifiers::SHIFT, shift);
    t.area.input(ratatui_textarea::Input::from(Event::Key(KeyEvent::new(code, m))));
}

/// Whether a body editor helps with JSON.
#[derive(PartialEq, Eq, Structural, Clone, Copy, Debug)]
pub enum EditorMode {
    /// Keys go straight to the text area.
    Plain,
    /// Brackets and quotes close themselves, Enter indents, Tab is two
    /// spaces.
    Json,
}

impl Default for EditorMode {
    fn default() -> (m: Self)
        ensures
            m == EditorMode::Plain,
    {
        EditorMode::Plain
    }
}

/// How many spaces one JSON indentation level is.
pub const JSON_INDENT_WIDTH: usize = 2;

/// What a key does in JSON mode, given the characters before and after the
/// cursor and the leading spaces of the cursor's line.
#[derive(PartialEq, Eq, Structural, Clone, Copy, Debug)]
pub enum JsonEdit {
    /// The text area handles the key itself.
    PassThrough,
    /// Type the two characters and step back between them.
    InsertPair(char, char),
    /// Step over the character after the cursor.
    StepForward,
    /// Start a new line inside an empty `{}`/`[]`: the inner line indented
    /// one level deeper than `usize`, the closing bracket on its own line.
    SplitBlock(usize),
    /// Start a new line after an opening bracket, one level deeper.
    OpenBlock(usize),
    /// Start a new line with the same indentation.
    KeepIndent(usize),
    /// Delete the empty pair around the cursor.
    DeletePair,
    /// Type this many spaces.
    InsertSpaces(usize),
}

/// The JSON-mode edit for `key` with Ctrl (`ctrl`) or Alt (`alt`) held,
/// `prev`/`next` the characters around the cursor and `indent` the line's
/// leading spaces. Keys with Ctrl or Alt, and keys not listed, pass through.
pub open spec fn json_edit(key: Key, ctrl: bool, alt: bool, prev: Option<char>, next: Option<char>, indent: usize) -> JsonEdit {
    if ctrl || alt {
        JsonEdit::PassThrough
    } else {
        match key {
            Key::Char(c) => if c == '{' {
                JsonEdit::InsertPair('{', '}')
            } else if c == '[' {
                JsonEdit::InsertPair('[', ']')
            } else if c == '(' {
                JsonEdit::InsertPair('(', ')')
            } else if c == '}' || c == ']' || c == ')' {
                if next == Some(c) { JsonEdit::StepForward } else { JsonEdit::PassThrough }
            } else if c == '"' {
                if next == Some('"') { JsonEdit::StepForward } else { JsonEdit::InsertPair('"', '"') }
            } else {
                JsonEdit::PassThrough
            },
            Key::Enter => if (prev == Some('{') && next == Some('}')) || (prev == Some('[') && next == Some(']')) {
                JsonEdit::SplitBlock(indent)
            } else if prev == Some('{') || prev == Some('[') {
                JsonEdit::OpenBlock(indent)
            } else if indent > 0 {
                JsonEdit::KeepIndent(indent)
            } else {
                JsonEdit::PassThrough
            },
            Key::Backspace => if (prev == Some('{') && next == Some('}')) || (prev == Some('[') && next == Some(']'))
                || (prev == Some('(') && next == Some(')')) || (prev == Some('"') && next == Some('"')) {
                JsonEdit::DeletePair
            } else {
                JsonEdit::PassThrough
            },
            Key::Tab => JsonEdit::InsertSpaces(JSON_INDENT_WIDTH),
            _ => JsonEdit::PassThrough,
        }
    }
}

/// The JSON-mode edit for a key (see `json_edit`).
pub fn decide_json_edit(key: Key, ctrl: bool, alt: bool, prev: Option<char>, next: Option<char>, indent: usize) -> (e: JsonEdit)
    ensures
        e == json_edit(key, ctrl, alt, prev, next, indent),
{
    if ctrl || alt {
        return JsonEdit::PassThrough;
    }
    match key {
        Key::Char(c) => {
            if c == '{' {
                JsonEdit::InsertPair('{', '}')
            } else if c == '[' {
                JsonEdit::InsertPair('[', ']')
            } else if c == '(' {
                JsonEdit::InsertPair('(', ')')
            } else if c == '}' || c == ']' || c == ')' {
                if next == Some(c) { JsonEdit::StepForward } else { JsonEdit::PassThrough }
            } else if c == '"' {
                if next == Some('"') { JsonEdit::StepForward } else { JsonEdit::InsertPair('"', '"') }
            } else {
                JsonEdit::PassThrough
            }
        },
        Key::Enter => {
            if (prev == Some('{') && next == Some('}')) || (prev == Some('[') && next == Some(']')) {
                JsonEdit::SplitBlock(indent)
            } else if prev == Some('{') || prev == Some('[') {
                JsonEdit::OpenBlock(indent)
            } else if indent > 0 {
                JsonEdit::KeepIndent(indent)
            } else {
                JsonEdit::PassThrough
            }
        },
        Key::Backspace => {
            if (prev == Some('{') && next == Some('}')) || (prev == Some('[') && next == Some(']'))
                || (prev == Some('(') && next == Some(')')) || (prev == Some('"') && next == Some('"')) {
                JsonEdit::DeletePair
            } else {
                JsonEdit::PassThrough
            }
        },
        Key::Tab => JsonEdit::InsertSpaces(JSON_INDENT_WIDTH),
        _ => JsonEdit::PassThrough,
    }
}

/// `s` cut at each line break (`str::split('\n')`): one more piece than
/// there are breaks.
pub open spec fn split_lines(s: Seq<char>) -> Seq<Seq<char>>
    decreases s.len(),
{
    if s.len() == 0 {
        seq![Seq::empty()]
    } else {
        let r = split_lines(s.drop_last());
        if s.last() == '\n' {
            r.push(Seq::empty())
        } else {
            r.update(r.len() - 1, r.last().push(s.last()))
        }
    }
}

proof fn lemma_split_nonempty(s: Seq<char>)
    ensures
        split_lines(s).len() >= 1,
    decreases s.len(),
{
    if s.len() > 0 {
        lemma_split_nonempty(s.drop_last());
    }
}

proof fn lemma_join_push(parts: Seq<Seq<char>>, x: Seq<char>, sep: Seq<char>)
    requires
        parts.len() >= 1,
    ensures
        join(parts.push(x), sep) == join(parts, sep) + sep + x,
{
    assert(parts.push(x).drop_last() =~= parts);
}

proof fn lemma_join_extend_last(parts: Seq<Seq<char>>, c: char, sep: Seq<char>)
    requires
        parts.len() >= 1,
    ensures
        join(parts.update(parts.len() - 1, parts.last().push(c)), sep) == join(parts, sep).push(c),
{
    let q = parts.update(parts.len() - 1, parts.last().push(c));
    if parts.len() == 1 {
        assert(join(q, sep) == q[0]);
    } else {
        assert(q.drop_last() =~= parts.drop_last());
        assert(join(q, sep) == join(parts.drop_last(), sep) + sep + parts.last().push(c));
        assert(join(parts, sep) == join(parts.drop_last(), sep) + sep + parts.last());
        assert(join(q, sep) =~= join(parts, sep).push(c));
    }
}

/// Cutting a text into lines and joining them with line breaks gives the
/// text back.
pub proof fn law_lines_round_trip(s: Seq<char>)
    ensures
        join(split_lines(s), seq!['\n']) == s,
    decreases s.len(),
{
    if s.len() == 0 {
        assert(join(seq![Seq::<char>::empty()], seq!['\n']) == Seq::<char>::empty());
    } else {
        let r = split_lines(s.drop_last());
        lemma_split_nonempty(s.drop_last());
        law_lines_round_trip(s.drop_last());
        if s.last() == '\n' {
            lemma_join_push(r, Seq::empty(), seq!['\n']);
            assert(join(r, seq!['\n']) + seq!['\n'] + Seq::<char>::empty() =~= s);
        } else {
            lemma_join_extend_last(r, s.last(), seq!['\n']);
            assert(s.drop_last().push(s.last()) =~= s);
        }
    }
}

fn split_lines_exec(s: &Vec<char>) -> (r: Vec<String>)
    ensures
        texts(r@) == split_lines(s@),
{
    let mut done: Vec<String> = Vec::new();
    let mut cur: Vec<char> = Vec::new();
    let mut i: usize = 0;
    assert(s@.take(0) =~= Seq::<char>::empty());
    while i < s.len()
        invariant
            i <= s@.len(),
            texts(done@).push(cur@) == split_lines(s@.take(i as int)),
        decreases s@.len() - i,
    {
        let c = s[i];
        let ghost before = texts(done@);
        let ghost cur0 = cur@;
        assert(s@.take(i + 1).drop_last() =~= s@.take(i as int));
        assert(s@.take(i + 1).last() == c);
        if c == '\n' {
            let line = from_chars(&cur);
            done.push(line);
            cur = Vec::new();
            assert(texts(done@) =~= before.push(cur0));
            assert(texts(done@).push(cur@) =~= before.push(cur0).push(Seq::<char>::empty()));
        } else {
            cur.push(c);
            assert(texts(done@).push(cur@) =~= before.push(cur0).update(before.len() as int, cur0.push(c)));
        }
        i = i + 1;
    }
    let last = from_chars(&cur);
    let ghost before = texts(done@);
    let ghost cv = cur@;
    done.push(last);
    assert(texts(done@) =~= before.push(cv));
    assert(s@.take(i as int) =~= s@);
    done
}

/// A multi-line text area for request bodies and capture templates, taking
/// key presses only while enabled; in JSON mode it helps with brackets,
/// quotes and indentation.
pub struct BodyEditor {
    pub textarea: TextBuffer,
    pub enabled: bool,
    pub mode: EditorMode,
}

/// The character at position `k` of the line the cursor is on.
pub open spec fn char_on_cursor_line(lines: Seq<Seq<char>>, row: usize, k: int) -> Option<char> {
    if row < lines.len() && 0 <= k < lines[row as int].len() {
        Some(lines[row as int][k])
    } else {
        None
    }
}

/// The number of spaces a line starts with.
pub open spec fn leading_spaces(l: Seq<char>) -> nat
    decreases l.len(),
{
    if l.len() > 0 && l[0] == ' ' {
        1 + leading_spaces(l.drop_first())
    } else {
        0
    }
}

/// The leading spaces of the cursor's line.
pub open spec fn cursor_indent(lines: Seq<Seq<char>>, row: usize) -> nat {
    if row < lines.len() {
        leading_spaces(lines[row as int])
    } else {
        0
    }
}

fn count_leading_spaces(l: &Vec<char>) -> (n: usize)
    ensures
        n == leading_spaces(l@),
{
    let mut i: usize = 0;
    assert(l@.skip(0) =~= l@);
    while i < l.len() && l[i] == ' '
        invariant
            i <= l@.len(),
            leading_spaces(l@) == i + leading_spaces(l@.skip(i as int)),
        decreases l@.len() - i,
    {
        assert(l@.skip(i as int).drop_first() =~= l@.skip(i + 1));
        i = i + 1;
    }
    if i < l.len() {
        assert(l@.skip(i as int)[0] == l@[i as int]);
    } else {
        assert(l@.skip(i as int).len() == 0);
    }
    i
}

impl BodyEditor {
    /// The text held: the lines joined by line breaks.
    pub open spec fn text(&self) -> Seq<char> {
        join(area_lines(self.textarea), seq!['\n'])
    }

    /// An empty, disabled editor in plain mode.
    pub fn new() -> (e: Self)
        ensures
            e.text() == Seq::<char>::empty(),
            area_lines(e.textarea) == seq![Seq::<char>::empty()],
            area_cursor(e.textarea) == (0usize, 0usize),
            area_ready(e.textarea),
            !e.enabled,
            e.mode == EditorMode::Plain,
    {
        let lines: Vec<String> = Vec::new();
        let e = BodyEditor { textarea: area_new(lines), enabled: false, mode: EditorMode::Plain };
        assert(join(seq![Seq::<char>::empty()], seq!['\n']) == Seq::<char>::empty());
        e
    }

    /// The text held.
    pub fn value(&self) -> (r: String)
        ensures
            r@ == self.text(),
    {
        let lines = area_lines_get(&self.textarea);
        let mut parts: Vec<Vec<char>> = Vec::new();
        let mut i: usize = 0;
        while i < lines.len()
            invariant
                i <= lines@.len(),
                views(parts@) == texts(lines@).take(i as int),
            decreases lines@.len() - i,
        {
            let ghost before = views(parts@);
            parts.push(to_chars(lines[i].as_str()));
            assert(views(parts@) =~= before.push(lines@[i as int]@));
            assert(texts(lines@).take(i + 1) =~= texts(lines@).take(i as int).push(lines@[i as int]@));
            i = i + 1;
        }
        assert(texts(lines@).take(i as int) =~= texts(lines@));
        let mut sep: Vec<char> = Vec::new();
        sep.push('\n');
        assert(sep@ =~= seq!['\n']);
        from_chars(&join_chars(&parts, &sep))
    }

    /// The lines held.
    pub fn lines(&self) -> (r: Vec<String>)
        ensures
            texts(r@) == area_lines(self.textarea),
    {
        area_lines_get(&self.textarea)
    }

    /// The cursor: its line and its column.
    pub fn cursor(&self) -> (r: (usize, usize))
        ensures
            r == area_cursor(self.textarea),
    {
        area_cursor_get(&self.textarea)
    }

    /// Replaces the text, which is cut into lines at its line breaks; the
    /// cursor goes to the start.
    pub fn set_text(&mut self, text: &str)
        ensures
            area_lines(final(self).textarea) == split_lines(text@),
            final(self).text() == text@,
            final(self).enabled == old(self).enabled,
            final(self).mode == old(self).mode,
    {
        let chars = to_chars(text);
        let lines = split_lines_exec(&chars);
        proof {
            lemma_split_nonempty(text@);
            law_lines_round_trip(text@);
        }
        self.textarea = area_new(lines);
    }

    pub fn set_mode(&mut self, mode: EditorMode)
        ensures
            final(self).mode == mode,
            final(self).enabled == old(self).enabled,
            final(self).textarea == old(self).textarea,
    {
        self.mode = mode;
    }

    pub fn enable(&mut self)
        ensures
            final(self).enabled,
            final(self).mode == old(self).mode,
            final(self).textarea == old(self).textarea,
    {
        self.enabled = true;
    }

    pub fn disable(&mut self)
        ensures
            !final(self).enabled,
            final(self).mode == old(self).mode,
            final(self).textarea == old(self).textarea,
    {
        self.enabled = false;
    }

    /// The JSON-mode edit a key calls for here: `json_edit` with the
    /// characters around the cursor and its line's indentation.
    pub fn json_edit_for(&self, key: &KeyPress) -> (e: JsonEdit)
        ensures
            ({
                let lines = area_lines(self.textarea);
                let (row, col) = area_cursor(self.textarea);
                e == json_edit(
                    key.key,
                    key.ctrl,
                    key.alt,
                    if col == 0 { None } else { char_on_cursor_line(lines, row, col - 1) },
                    char_on_cursor_line(lines, row, col as int),
                    cursor_indent(lines, row) as usize,
                )
            }),
    {
        let lines = area_lines_get(&self.textarea);
        let (row, col) = area_cursor_get(&self.textarea);
        let mut prev: Option<char> = None;
        let mut next: Option<char> = None;
        let mut indent: usize = 0;
        if row < lines.len() {
            let line = to_chars(lines[row].as_str());
            if col < line.len() {
                next = Some(line[col]);
            }
            if col > 0 && col - 1 < line.len() {
                prev = Some(line[col - 1]);
            }
            indent = count_leading_spaces(&line);
        }
        decide_json_edit(key.key, key.ctrl, key.alt, prev, next, indent)
    }

    /// Hands a key press to the editor while it is enabled; returns whether
    /// it was taken. In JSON mode the key first goes through `json_edit`;
    /// what it does not take, the text area handles itself. A disabled
    /// editor is left as it was.
    pub fn handle_event(&mut self, key: &KeyPress) -> (taken: bool)
        ensures
            taken == old(self).enabled,
            final(self).enabled == old(self).enabled,
            final(self).mode == old(self).mode,
            !taken ==> final(self).textarea == old(self).textarea,
            !taken ==> *final(self) == *old(self),
            taken ==> old(self).edited(final(self), *key),
    {
        if !self.enabled {
            return false;
        }
        self.edit(key);
        true
    }

    /// The edit a key press calls for: in JSON mode the one `json_edit`
    /// gives for the characters around the cursor and its line's
    /// indentation, in plain mode passing the key to the text area.
    pub open spec fn edit_for(&self, key: KeyPress) -> JsonEdit {
        let lines = area_lines(self.textarea);
        let (row, col) = area_cursor(self.textarea);
        if self.mode == EditorMode::Json {
            json_edit(
                key.key,
                key.ctrl,
                key.alt,
                if col == 0 { None } else { char_on_cursor_line(lines, row, col - 1) },
                char_on_cursor_line(lines, row, col as int),
                cursor_indent(lines, row) as usize,
            )
        } else {
            JsonEdit::PassThrough
        }
    }

    /// What a key press did to the text, from `self` to `after`, where the
    /// text area was ready (see `area_ready`): a key passed through acts as
    /// `area_key_effect` says; a pair is typed at the cursor, which ends up
    /// between its two characters; stepping forward leaves the text and
    /// moves one column; in an empty block Enter puts the inner line, one
    /// level deeper, and the closing bracket, at the old level, on lines of
    /// their own, with the cursor at the end of the inner line; after an
    /// opening bracket it starts a line one level deeper, elsewhere one at
    /// the same level; Backspace inside an empty pair deletes both; Tab types
    /// spaces.
    pub open spec fn edited(&self, after: &Self, key: KeyPress) -> bool {
        let t = self.textarea;
        let u = after.textarea;
        let lines = area_lines(t);
        let (row, col) = area_cursor(t);
        let line = lines[row as int];
        area_ready(t) ==> match self.edit_for(key) {
            JsonEdit::PassThrough => area_key_effect(t, u, key.key, key.ctrl, key.alt) && area_bounded(u),
            _ => area_ready(u) && self.json_edited(after, key),
        }
    }

    /// What a JSON-mode edit other than passing the key through did to a
    /// ready text area (see `edited`).
    pub open spec fn json_edited(&self, after: &Self, key: KeyPress) -> bool {
        let t = self.textarea;
        let u = after.textarea;
        let lines = area_lines(t);
        let (row, col) = area_cursor(t);
        let line = lines[row as int];
        match self.edit_for(key) {
            JsonEdit::PassThrough => true,
            JsonEdit::InsertPair(o, c) => {
                &&& area_lines(u) == lines.update(row as int, insert_at(line, col as int, seq![o, c]))
                &&& area_cursor(u) == (row, (col + 1) as usize)
            },
            JsonEdit::StepForward => {
                &&& area_lines(u) == lines
                &&& area_cursor(u) == (row, (col + 1) as usize)
            },
            JsonEdit::SplitBlock(n) => {
                &&& area_lines(u) == lines.take(row as int)
                    + seq![line.take(col as int), blanks(deeper_level(n) as nat), blanks(n as nat) + line.skip(col as int)]
                    + lines.skip(row + 1)
                &&& area_cursor(u) == ((row + 1) as usize, deeper_level(n))
            },
            JsonEdit::OpenBlock(n) => {
                &&& area_lines(u) == lines.take(row as int)
                    + seq![line.take(col as int), blanks(deeper_level(n) as nat) + line.skip(col as int)]
                    + lines.skip(row + 1)
                &&& area_cursor(u) == ((row + 1) as usize, deeper_level(n))
            },
            JsonEdit::KeepIndent(n) => {
                &&& area_lines(u) == lines.take(row as int)
                    + seq![line.take(col as int), blanks(n as nat) + line.skip(col as int)]
                    + lines.skip(row + 1)
                &&& area_cursor(u) == ((row + 1) as usize, n)
            },
            JsonEdit::DeletePair => {
                &&& area_lines(u) == lines.update(row as int, line.take(col - 1) + line.skip(col + 1))
                &&& area_cursor(u) == (row, (col - 1) as usize)
            },
            JsonEdit::InsertSpaces(n) => text_typed(t, u, blanks(n as nat)),
        }
    }

    /// Hands a key press to the text area, enabled or not (see
    /// `handle_event`); the text changes as `edited` says.
    pub fn edit(&mut self, key: &KeyPress)
        ensures
            final(self).enabled == old(self).enabled,
            final(self).mode == old(self).mode,
            old(self).edited(final(self), *key),
    {
        let edit = if self.mode == EditorMode::Json {
            self.json_edit_for(key)
        } else {
            JsonEdit::PassThrough
        };
        assert(edit == old(self).edit_for(*key));
        let ghost t0 = self.textarea;
        let ghost ready = area_ready(t0);
        let ghost lines = area_lines(t0);
        let ghost row = area_cursor(t0).0 as int;
        let ghost col = area_cursor(t0).1 as int;
        match edit {
            JsonEdit::PassThrough => {
                let code = key_code(key.key);
                area_input(&mut self.textarea, code, key.ctrl, key.alt, key.shift);
            },
            JsonEdit::InsertPair(open, close) => {
                let mut p: Vec<char> = Vec::new();
                p.push(open);
                p.push(close);
                let s = from_chars(&p);
                proof {
                    assert(open != '\n' && open != '\r' && close != '\n' && close != '\r');
                    assert(s@ =~= seq![open, close]);
                }
                area_insert_str(&mut self.textarea, s.as_str());
                proof {
                    if ready {
                        let l1 = area_lines(self.textarea)[row];
                        assert(l1 == lines[row].take(col) + seq![open, close] + lines[row].skip(col));
                        assert(l1[col + 1] == close);
                        assert(printable(close));
                        assert(area_ready(self.textarea));
                    }
                }
                area_move(&mut self.textarea, CaretMove::Back);
                assert(ready ==> area_cursor(self.textarea) == (row as usize, (col + 1) as usize));
                assert(ready ==> area_lines(self.textarea) == lines.update(row, insert_at(lines[row], col, seq![open, close])));
            },
            JsonEdit::StepForward => {
                proof {
                    if ready {
                        assert(col < lines[row].len() && printable(lines[row][col]));
                    }
                }
                area_move(&mut self.textarea, CaretMove::Forward);
            },
            JsonEdit::SplitBlock(indent) => {
                let inner = spaces(deeper(indent));
                let outer = spaces(indent);
                proof {
                    lemma_blanks_one_line(inner@.len());
                    lemma_blanks_one_line(outer@.len());
                }
                area_insert_newline(&mut self.textarea);
                let ghost t1 = self.textarea;
                area_insert_str(&mut self.textarea, inner.as_str());
                let ghost t2 = self.textarea;
                proof {
                    if ready {
                        lemma_break_then_type(lines, row, col, inner@);
                        assert(area_lines(t2) == lines.take(row) + seq![lines[row].take(col), inner@ + lines[row].skip(col)] + lines.skip(row + 1));
                    }
                }
                area_insert_newline(&mut self.textarea);
                area_insert_str(&mut self.textarea, outer.as_str());
                proof {
                    if ready {
                        let l2 = area_lines(t2);
                        lemma_break_then_type(l2, row + 1, inner@.len() as int, outer@);
                        let l3 = area_lines(self.textarea);
                        assert(inner@ + lines[row].skip(col) == l2[row + 1]);
                        assert((inner@ + lines[row].skip(col)).take(inner@.len() as int) =~= inner@);
                        assert((inner@ + lines[row].skip(col)).skip(inner@.len() as int) =~= lines[row].skip(col));
                        assert(l3 =~= lines.take(row) + seq![lines[row].take(col), inner@, outer@ + lines[row].skip(col)] + lines.skip(row + 1));
                        assert(area_cursor(self.textarea) == ((row + 2) as usize, outer@.len() as usize));
                        assert(l3[row + 1] == inner@);
                    }
                }
                area_move(&mut self.textarea, CaretMove::Up);
                area_move(&mut self.textarea, CaretMove::End);
            },
            JsonEdit::OpenBlock(indent) => {
                let inner = spaces(deeper(indent));
                proof {
                    lemma_blanks_one_line(inner@.len());
                }
                area_insert_newline(&mut self.textarea);
                area_insert_str(&mut self.textarea, inner.as_str());
                proof {
                    if ready {
                        lemma_break_then_type(lines, row, col, inner@);
                    }
                }
            },
            JsonEdit::KeepIndent(indent) => {
                let same = spaces(indent);
                proof {
                    lemma_blanks_one_line(same@.len());
                }
                area_insert_newline(&mut self.textarea);
                area_insert_str(&mut self.textarea, same.as_str());
                proof {
                    if ready {
                        lemma_break_then_type(lines, row, col, same@);
                    }
                }
            },
            JsonEdit::DeletePair => {
                proof {
                    if ready {
                        assert(col > 0 && col < lines[row].len());
                        assert(printable(lines[row][col]));
                    }
                }
                area_delete_next_char(&mut self.textarea);
                proof {
                    if ready {
                        assert(area_lines(self.textarea).len() == lines.len());
                        assert(area_lines(self.textarea)[row] == lines[row].remove(col));
                        assert(lines[row].remove(col).remove(col - 1) =~= lines[row].take(col - 1) + lines[row].skip(col + 1));
                    }
                }
                proof {
                    if ready {
                        assert(area_ready(self.textarea));
                    }
                }
                area_delete_char(&mut self.textarea);
                proof {
                    if ready {
                        let x = lines[row].remove(col);
                        assert(lines.update(row, x).update(row, x.remove(col - 1)) =~= lines.update(row, lines[row].take(col - 1) + lines[row].skip(col + 1)));
                    }
                }
            },
            JsonEdit::InsertSpaces(n) => {
                let s = spaces(n);
                proof {
                    lemma_blanks_one_line(n as nat);
                }
                area_insert_str(&mut self.textarea, s.as_str());
            },
        }
    }
}

proof fn lemma_blanks_one_line(n: nat)
    ensures
        one_line(blanks(n)),
{
}

/// A line break typed at column `col` of line `row` and then `s` typed at
/// the start of the new line.
proof fn lemma_break_then_type(lines: Seq<Seq<char>>, row: int, col: int, s: Seq<char>)
    requires
        0 <= row < lines.len(),
        0 <= col <= lines[row].len(),
    ensures
        ({
            let b = break_line(lines, row, col);
            &&& b.len() == lines.len() + 1
            &&& b[row + 1] == lines[row].skip(col)
            &&& b.update(row + 1, insert_at(b[row + 1], 0, s))
                =~= lines.take(row) + seq![lines[row].take(col), s + lines[row].skip(col)] + lines.skip(row + 1)
        }),
{
    let b = break_line(lines, row, col);
    let x = lines[row].skip(col);
    assert(x.take(0) =~= Seq::<char>::empty());
    assert(x.skip(0) =~= x);
    assert(insert_at(x, 0, s) =~= s + x);
}

/// `n` spaces.
pub open spec fn blanks(n: nat) -> Seq<char> {
    Seq::new(n, |i: int| ' ')
}

/// One indentation level deeper than `n` spaces (`n` itself where that
/// would not fit in a `usize`).
pub open spec fn deeper_level(n: usize) -> usize {
    if n <= usize::MAX - JSON_INDENT_WIDTH { (n + JSON_INDENT_WIDTH) as usize } else { n }
}

/// `n` spaces.
fn spaces(n: usize) -> (s: String)
    ensures
        s@ == blanks(n as nat),
{
    let mut v: Vec<char> = Vec::new();
    let mut i: usize = 0;
    while i < n
        invariant
            i <= n,
            v@ == blanks(i as nat),
        decreases n - i,
    {
        v.push(' ');
        i = i + 1;
        assert(v@ =~= blanks(i as nat));
    }
    from_chars(&v)
}

/// One indentation level deeper than `n` spaces.
fn deeper(n: usize) -> (m: usize)
    ensures
        m == deeper_level(n),
{
    if n <= usize::MAX - JSON_INDENT_WIDTH {
        n + JSON_INDENT_WIDTH
    } else {
        n
    }
}

} // verus!
