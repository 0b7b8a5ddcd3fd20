use vstd::prelude::*;
use crate::http::{ExecutedResponse, HttpError};
use crate::items::Hue;
use crate::keys::{Key, KeyPress};

use crate::text::{from_chars, to_chars, push_str, join, join_chars, views};
use crate::http::{ascii_lower, headers_view};

verus! {

/// The three panes of the main screen.
#[derive(PartialEq, Eq, Structural, Clone, Copy, Debug)]
pub enum Pane {
    Sidebar,
    Editor,
    Response,
}

/// The pane after `p`, wrapping round.
pub open spec fn pane_after(p: Pane) -> Pane {
    match p {
        Pane::Sidebar => Pane::Editor,
        Pane::Editor => Pane::Response,
        Pane::Response => Pane::Sidebar,
    }
}

/// The pane before `p`, wrapping round.
pub open spec fn pane_before(p: Pane) -> Pane {
    match p {
        Pane::Sidebar => Pane::Response,
        Pane::Editor => Pane::Sidebar,
        Pane::Response => Pane::Editor,
    }
}

impl Pane {
    /// The pane after this one, wrapping round.
    pub fn next(self) -> (p: Pane)
        ensures
            p == pane_after(self),
    {
        match self {
            Pane::Sidebar => Pane::Editor,
            Pane::Editor => Pane::Response,
            Pane::Response => Pane::Sidebar,
        }
    }

    /// The pane before this one, wrapping round.
    pub fn prev(self) -> (p: Pane)
        ensures
            p == pane_before(self),
    {
        match self {
            Pane::Sidebar => Pane::Response,
            Pane::Editor => Pane::Sidebar,
            Pane::Response => Pane::Editor,
        }
    }
}

/// Cycling to the next pane and back returns to the same pane, and three
/// steps go all the way round.
pub proof fn law_pane_cycle(p: Pane)
    ensures
        pane_before(pane_after(p)) == p,
        pane_after(pane_before(p)) == p,
        pane_after(pane_after(pane_after(p))) == p,
{
}

/// The pane's name in the status bar.
pub fn pane_label(p: Pane) -> (s: &'static str)
    ensures
        s@ == (match p {
            Pane::Sidebar => "SIDEBAR"@,
            Pane::Editor => "EDITOR"@,
            Pane::Response => "RESPONSE"@,
        }),
{
    match p {
        Pane::Sidebar => "SIDEBAR",
        Pane::Editor => "EDITOR",
        Pane::Response => "RESPONSE",
    }
}

/// What a key on the main screen asks for, before the focused pane sees it.
#[derive(PartialEq, Eq, Structural, Clone, Copy, Debug)]
pub enum GlobalAction {
    /// Save the editor quietly and focus the next pane.
    NextPane,
    /// Save the editor quietly and focus the previous pane.
    PrevPane,
    /// Focus this pane (saving the editor quietly first unless it is the
    /// editor).
    Focus(Pane),
    /// Save the editor.
    Save,
    /// Open the new-item form.
    NewItem,
    /// Open the environment editor.
    EditEnvironment,
    /// Open the history.
    OpenHistory,
    /// Send the selected request.
    Send,
    /// Show or hide the help.
    ToggleHelp,
    Quit,
}

/// The global key bindings: they apply unless a field is being typed into
/// or Ctrl is held. Tab and Shift-Tab cycle the panes, `1`/`2`/`3` focus a
/// pane, `w` and `S` save, `n` adds an item, `E` edits the environment,
/// `H` opens the history, `s` sends (except in the response pane), `?`
/// toggles help and `q` quits; any other key goes to the focused pane.
pub open spec fn global_binding(key: Key, ctrl: bool, typing: bool, focus: Pane) -> Option<GlobalAction> {
    if typing || ctrl {
        None
    } else {
        match key {
            Key::Tab => Some(GlobalAction::NextPane),
            Key::BackTab => Some(GlobalAction::PrevPane),
            Key::Char(c) => if c == '1' {
                Some(GlobalAction::Focus(Pane::Sidebar))
            } else if c == '2' {
                Some(GlobalAction::Focus(Pane::Editor))
            } else if c == '3' {
                Some(GlobalAction::Focus(Pane::Response))
            } else if c == 'w' || c == 'S' {
                Some(GlobalAction::Save)
            } else if c == 'n' {
                Some(GlobalAction::NewItem)
            } else if c == 'E' {
                Some(GlobalAction::EditEnvironment)
            } else if c == 'H' {
                Some(GlobalAction::OpenHistory)
            } else if c == 's' && focus != Pane::Response {
                Some(GlobalAction::Send)
            } else if c == '?' {
                Some(GlobalAction::ToggleHelp)
            } else if c == 'q' {
                Some(GlobalAction::Quit)
            } else {
                None
            },
            _ => None,
        }
    }
}

/// The global action a key asks for (see `global_binding`).
pub fn global_action(key: &KeyPress, typing: bool, focus: Pane) -> (a: Option<GlobalAction>)
    ensures
        a == global_binding(key.key, key.ctrl, typing, focus),
{
    if typing || key.ctrl {
        return None;
    }
    match key.key {
        Key::Tab => Some(GlobalAction::NextPane),
        Key::BackTab => Some(GlobalAction::PrevPane),
        Key::Char(c) => {
            if c == '1' {
                Some(GlobalAction::Focus(Pane::Sidebar))
            } else if c == '2' {
                Some(GlobalAction::Focus(Pane::Editor))
            } else if c == '3' {
                Some(GlobalAction::Focus(Pane::Response))
            } else if c == 'w' || c == 'S' {
                Some(GlobalAction::Save)
            } else if c == 'n' {
                Some(GlobalAction::NewItem)
            } else if c == 'E' {
                Some(GlobalAction::EditEnvironment)
            } else if c == 'H' {
                Some(GlobalAction::OpenHistory)
            } else if c == 's' && focus != Pane::Response {
                Some(GlobalAction::Send)
            } else if c == '?' {
                Some(GlobalAction::ToggleHelp)
            } else if c == 'q' {
                Some(GlobalAction::Quit)
            } else {
                None
            }
        },
        _ => None,
    }
}

/// The help overlay: whether it is shown and how far it is scrolled.
pub struct HelpOverlay {
    pub open: bool,
    pub scroll: u16,
}

/// What a key does to the help overlay (see `HelpOverlay::handle_event`).
pub open spec fn help_key_effect(o: HelpOverlay, n: HelpOverlay, k: Key) -> bool {
    let s = o.scroll as int;
    if k == Key::Char('?') || k == Key::Esc || k == Key::Char('q') {
        !n.open && n.scroll == o.scroll
    } else {
        &&& n.open == o.open
        &&& n.scroll == (if k == Key::Char('j') || k == Key::Down {
            if s + 1 > u16::MAX { u16::MAX as int } else { s + 1 }
        } else if k == Key::Char('k') || k == Key::Up {
            if s - 1 < 0 { 0 } else { s - 1 }
        } else if k == Key::PageDown {
            if s + 10 > u16::MAX { u16::MAX as int } else { s + 10 }
        } else if k == Key::PageUp {
            if s - 10 < 0 { 0 } else { s - 10 }
        } else if k == Key::Char('g') {
            0
        } else {
            s
        })
    }
}

impl HelpOverlay {
    /// A closed overlay, at the top.
    pub fn new() -> (h: Self)
        ensures
            !h.open,
            h.scroll == 0,
    {
        HelpOverlay { open: false, scroll: 0 }
    }

    /// Shows the overlay from the top, or hides it.
    pub fn toggle(&mut self)
        ensures
            final(self).open == !old(self).open,
            final(self).scroll == (if final(self).open { 0 } else { old(self).scroll }),
    {
        self.open = !self.open;
        if self.open {
            self.scroll = 0;
        }
    }

    /// Acts on a key while shown: `?`, Esc and `q` close it; `j`/Down and
    /// `k`/Up scroll by one line, PageDown and PageUp by ten (never past the
    /// top, nor beyond the largest offset); `g` goes to the top. Every key is
    /// taken.
    pub fn handle_event(&mut self, key: &KeyPress) -> (taken: bool)
        ensures
            taken,
            help_key_effect(*old(self), *final(self), key.key),
    {
        match key.key {
            Key::Char('?') | Key::Esc | Key::Char('q') => {
                self.open = false;
            },
            Key::Char('j') | Key::Down => self.scroll = self.scroll.saturating_add(1),
            Key::Char('k') | Key::Up => self.scroll = self.scroll.saturating_sub(1),
            Key::PageDown => self.scroll = self.scroll.saturating_add(10),
            Key::PageUp => self.scroll = self.scroll.saturating_sub(10),
            Key::Char('g') => self.scroll = 0,
            _ => {},
        }
        true
    }
}

/// The response pane's sub-tabs.
#[derive(PartialEq, Eq, Structural, Clone, Copy, Debug)]
pub enum ResponseTab {
    Body,
    Headers,
}

/// The indented rendering of a response body that parses as JSON, by the
/// JSON library; none when it does not parse.
pub uninterp spec fn json_pretty(body: Seq<u8>) -> Option<Seq<char>>;

/// serde_json's `from_slice` into a `Value` followed by `to_string_pretty`.
/// Claimed: the result is the named rendering of `body`.
#[verifier::external_body]
fn pretty_json(body: &Vec<u8>) -> (r: Option<String>)
    ensures
        match r {
            Some(s) => json_pretty(body@) == Some(s@),
            None => json_pretty(body@) is None,
        },
{
    match serde_json::from_slice::<serde_json::Value>(body) {
        Ok(v) => match serde_json::to_string_pretty(&v) {
            Ok(s) => Some(s),
            Err(_) => None,
        },
        Err(_) => None,
    }
}

/// `json`, in any letter case, starts at position `i` of `ct`.
pub open spec fn json_at(ct: Seq<char>, i: int) -> bool {
    0 <= i && i + 4 <= ct.len() && ascii_lower(ct[i]) == 'j' && ascii_lower(ct[i + 1]) == 's'
        && ascii_lower(ct[i + 2]) == 'o' && ascii_lower(ct[i + 3]) == 'n'
}

/// `ct`, with ASCII letters lowered, contains `json`.
pub open spec fn mentions_json(ct: Seq<char>) -> bool {
    exists|i: int| #[trigger] json_at(ct, i)
}

fn lower(c: char) -> (r: char)
    ensures
        r == ascii_lower(c),
{
    if 'A' <= c && c <= 'Z' {
        (((c as u32) + 32) as u8) as char
    } else {
        c
    }
}

fn says_json(ct: &str) -> (b: bool)
    ensures
        b == mentions_json(ct@),
{
    let c = to_chars(ct);
    let n = c.len();
    if n < 4 {
        return false;
    }
    let mut i: usize = 0;
    while i <= n - 4
        invariant
            n == c@.len(),
            c@ == ct@,
            n >= 4,
            i <= n - 3,
            forall|j: int| 0 <= j < i ==> !#[trigger] json_at(c@, j),
        decreases n - i,
    {
        if lower(c[i]) == 'j' && lower(c[i + 1]) == 's' && lower(c[i + 2]) == 'o' && lower(c[i + 3]) == 'n' {
            assert(json_at(c@, i as int));
            return true;
        }
        i = i + 1;
    }
    assert forall|j: int| !json_at(c@, j) by {
        if 0 <= j && j + 4 <= n {
            assert(j < i);
        }
    }
    false
}

/// The response pane: its sub-tab, scroll offset, the indented JSON body
/// when there is one, and the last error.
pub struct ResponseView {
    pub sub_tab: ResponseTab,
    pub scroll: u16,
    pub pretty_cache: Option<String>,
    pub last_error: Option<String>,
}

/// What a key does to the response view's tab and scroll (see
/// `ResponseView::handle_event`).
pub open spec fn response_key_effect(o: ResponseView, n: ResponseView, k: Key) -> bool {
    let s = o.scroll as int;
    if k == Key::Char('[') || k == Key::Char(']') || k == Key::Char('h') || k == Key::Char('l') {
        &&& n.sub_tab == (if o.sub_tab == ResponseTab::Body { ResponseTab::Headers } else { ResponseTab::Body })
        &&& n.scroll == 0
    } else {
        &&& n.sub_tab == o.sub_tab
        &&& n.scroll == (if k == Key::Char('j') || k == Key::Down {
            if s + 1 > u16::MAX { u16::MAX as int } else { s + 1 }
        } else if k == Key::Char('k') || k == Key::Up {
            if s - 1 < 0 { 0 } else { s - 1 }
        } else if k == Key::PageDown {
            if s + 10 > u16::MAX { u16::MAX as int } else { s + 10 }
        } else if k == Key::PageUp {
            if s - 10 < 0 { 0 } else { s - 10 }
        } else if k == Key::Char('g') {
            0
        } else {
            s
        })
    }
}

/// The view `n` is `o` set to show `resp` (or cleared): same tab, back to
/// the top, no error, and the body indented when the response's content
/// type mentions JSON and the body parses.
pub open spec fn shows_response(o: ResponseView, n: ResponseView, resp: Option<ExecutedResponse>) -> bool {
    &&& n.sub_tab == o.sub_tab
    &&& n.scroll == 0
    &&& n.last_error is None
    &&& match resp {
        Some(r) => {
            let ct = match r.content_type {
                Some(c) => c@,
                None => Seq::<char>::empty(),
            };
            if mentions_json(ct) {
                match json_pretty(r.body@) {
                    Some(p) => n.pretty_cache matches Some(c) && c@ == p,
                    None => n.pretty_cache is None,
                }
            } else {
                n.pretty_cache is None
            }
        },
        None => n.pretty_cache is None,
    }
}

impl ResponseView {
    /// The body sub-tab at the top, with nothing to show.
    pub fn new() -> (v: Self)
        ensures
            v.sub_tab == ResponseTab::Body,
            v.scroll == 0,
            v.pretty_cache is None,
            v.last_error is None,
    {
        ResponseView { sub_tab: ResponseTab::Body, scroll: 0, pretty_cache: None, last_error: None }
    }

    /// Shows a response (or clears the pane): back to the top, no error, and
    /// the body indented when its content type mentions JSON and it parses.
    pub fn set_response(&mut self, resp: Option<&ExecutedResponse>)
        ensures
            shows_response(*old(self), *final(self), match resp { Some(r) => Some(*r), None => None }),
    {
        self.scroll = 0;
        self.last_error = None;
        self.pretty_cache = match resp {
            Some(r) => {
                let json = match &r.content_type {
                    Some(c) => says_json(c.as_str()),
                    None => {
                        proof {
                            assert(!mentions_json(Seq::<char>::empty()));
                        }
                        false
                    },
                };
                if json { pretty_json(&r.body) } else { None }
            },
            None => None,
        };
    }

    /// Shows an error: back to the top, no body, the error's message.
    pub fn set_error(&mut self, err: &HttpError)
        ensures
            final(self).sub_tab == old(self).sub_tab,
            final(self).scroll == 0,
            final(self).pretty_cache is None,
            final(self).last_error matches Some(m) && m@ == crate::http::error_text(*err),
    {
        self.scroll = 0;
        self.pretty_cache = None;
        self.last_error = Some(err.message());
    }

    /// Acts on a key: `[`, `]`, `h` and `l` switch between body and headers
    /// (back to the top); `j`/Down and `k`/Up scroll by one line, PageDown
    /// and PageUp by ten, `g` goes to the top; other keys do nothing.
    pub fn handle_event(&mut self, key: &KeyPress)
        ensures
            final(self).pretty_cache == old(self).pretty_cache,
            final(self).last_error == old(self).last_error,
            response_key_effect(*old(self), *final(self), key.key),
    {
        match key.key {
            Key::Char('[') | Key::Char(']') | Key::Char('h') | Key::Char('l') => {
                self.sub_tab = match self.sub_tab {
                    ResponseTab::Body => ResponseTab::Headers,
                    ResponseTab::Headers => ResponseTab::Body,
                };
                self.scroll = 0;
            },
            Key::Char('j') | Key::Down => self.scroll = self.scroll.saturating_add(1),
            Key::Char('k') | Key::Up => self.scroll = self.scroll.saturating_sub(1),
            Key::PageDown => self.scroll = self.scroll.saturating_add(10),
            Key::PageUp => self.scroll = self.scroll.saturating_sub(10),
            Key::Char('g') => self.scroll = 0,
            _ => {},
        }
    }
}

/// The colour a response status is shown in: 1xx and 3xx cyan, 2xx green,
/// 4xx yellow, 5xx red, anything else white.
pub fn response_status_hue(status: u16) -> (h: Hue)
    ensures
        h == (if 100 <= status <= 199 || 300 <= status <= 399 {
            Hue::Cyan
        } else if 200 <= status <= 299 {
            Hue::Green
        } else if 400 <= status <= 499 {
            Hue::Yellow
        } else if 500 <= status <= 599 {
            Hue::Red
        } else {
            Hue::White
        }),
{
    if (100 <= status && status <= 199) || (300 <= status && status <= 399) {
        Hue::Cyan
    } else if 200 <= status && status <= 299 {
        Hue::Green
    } else if 400 <= status && status <= 499 {
        Hue::Yellow
    } else if 500 <= status && status <= 599 {
        Hue::Red
    } else {
        Hue::White
    }
}

/// Each header as `name: value`.
pub open spec fn header_lines(hs: Seq<(Seq<char>, Seq<char>)>) -> Seq<Seq<char>> {
    Seq::new(hs.len(), |i: int| hs[i].0 + ": "@ + hs[i].1)
}

/// The headers as the headers sub-tab shows them: one `name: value` line
/// each.
pub fn headers_text(headers: &Vec<(String, String)>) -> (r: String)
    ensures
        r@ == join(header_lines(headers_view(headers@)), seq!['\n']),
{
    let ghost hl = header_lines(headers_view(headers@));
    let mut parts: Vec<Vec<char>> = Vec::new();
    let mut i: usize = 0;
    proof {
        reveal_strlit(": ");
    }
    while i < headers.len()
        invariant
            i <= headers@.len(),
            hl == header_lines(headers_view(headers@)),
            views(parts@) == hl.take(i as int),
        decreases headers@.len() - i,
    {
        let ghost before = views(parts@);
        let mut line = to_chars(headers[i].0.as_str());
        push_str(&mut line, ": ");
        push_str(&mut line, headers[i].1.as_str());
        let ghost lv = line@;
        parts.push(line);
        assert(views(parts@) =~= before.push(lv));
        assert(hl.take(i + 1) =~= hl.take(i as int).push(lv));
        i = i + 1;
    }
    assert(hl.take(i as int) =~= hl);
    let mut sep: Vec<char> = Vec::new();
    sep.push('\n');
    assert(sep@ =~= seq!['\n']);
    from_chars(&join_chars(&parts, &sep))
}

/// What the first-run prompt asks for after a key.
#[derive(PartialEq, Eq, Structural, Clone, Copy, Debug)]
pub enum InitAction {
    /// No answer yet: keep asking.
    Pending,
    Confirm,
    Cancel,
}

/// The prompt offering to set up a workspace in the current directory.
pub struct InitModal {
    pub cwd: String,
}

impl InitModal {
    /// A prompt for the directory `cwd`.
    pub fn new(cwd: String) -> (m: Self)
        ensures
            m.cwd@ == cwd@,
    {
        InitModal { cwd }
    }

    /// `y` and Enter confirm; `n`, Esc and `q` cancel; other keys keep
    /// asking.
    pub fn handle_event(&self, key: &KeyPress) -> (a: InitAction)
        ensures
            a == (if key.key == Key::Char('y') || key.key == Key::Enter {
                InitAction::Confirm
            } else if key.key == Key::Char('n') || key.key == Key::Esc || key.key == Key::Char('q') {
                InitAction::Cancel
            } else {
                InitAction::Pending
            }),
    {
        match key.key {
            Key::Char('y') | Key::Enter => InitAction::Confirm,
            Key::Char('n') | Key::Esc | Key::Char('q') => InitAction::Cancel,
            _ => InitAction::Pending,
        }
    }
}

impl Default for ResponseView {
    /// The body tab, at the top, nothing shown.
    fn default() -> (v: Self)
        ensures
            v.sub_tab == ResponseTab::Body,
            v.scroll == 0,
            v.pretty_cache is None,
            v.last_error is None,
    {
        ResponseView::new()
    }
}

impl Default for HelpOverlay {
    /// A closed overlay, at the top.
    fn default() -> (h: Self)
        ensures
            !h.open,
            h.scroll == 0,
    {
        HelpOverlay::new()
    }
}
} // verus!
