use vstd::prelude::*;
use std::collections::VecDeque;
use std::path::PathBuf;
use uuid::Uuid;
use crate::http::ExecutedResponse;
use crate::items::{Request, Hue};
use crate::keys::{Key, KeyPress};
use crate::http::headers_view;
use crate::clock::since_epoch;

verus! {

#[verifier::external_type_specification]
#[verifier::external_body]
pub struct ExUuid(Uuid);

/// A moment in UTC: whole seconds since the Unix epoch and the nanoseconds
/// past that second.
#[derive(Clone, Copy, PartialEq, Eq, Structural, Debug)]
pub struct Timestamp {
    pub secs: i64,
    pub nanos: u32,
}

#[verifier::external_type_specification]
#[verifier::external_body]
pub struct ExPathBuf(PathBuf);

/// uuid's `Uuid::new_v4`: a fresh random identifier. Nothing is claimed of
/// its value.
#[verifier::external_body]
fn new_entry_id() -> Uuid {
    Uuid::new_v4()
}

/// The moment of a clock reading: its seconds (at most `i64::MAX`) and
/// nanoseconds; the epoch itself for a clock set before it.
pub open spec fn timestamp_of(reading: Option<(u64, u32)>) -> Timestamp {
    match reading {
        Some(d) => Timestamp { secs: if d.0 <= i64::MAX { d.0 as i64 } else { i64::MAX }, nanos: d.1 },
        None => Timestamp { secs: 0, nanos: 0 },
    }
}

/// The moment of a clock reading (see `timestamp_of`).
pub fn reading_timestamp(reading: Option<(u64, u32)>) -> (t: Timestamp)
    ensures
        t == timestamp_of(reading),
{
    match reading {
        Some((secs, nanos)) => {
            let s: i64 = if secs <= 0x7fff_ffff_ffff_ffffu64 { secs as i64 } else { 0x7fff_ffff_ffff_ffffi64 };
            Timestamp { secs: s, nanos }
        },
        None => Timestamp { secs: 0, nanos: 0 },
    }
}

/// The current time in UTC; what the clock reads is not known here.
fn now_utc() -> Timestamp {
    reading_timestamp(since_epoch())
}

/// The most entries a history keeps.
pub const DEFAULT_CAP: usize = 500;

/// The most body bytes a history entry keeps (256 KiB).
pub const INLINE_BODY_CAP: usize = 262144;

/// A response as a history entry keeps it.
pub struct ResponseSummary {
    pub status: u16,
    pub status_text: String,
    pub elapsed_ms: u64,
    pub content_type: Option<String>,
    /// The size of the whole body, which may be more than `body` holds.
    pub byte_size: usize,
    pub body: Vec<u8>,
    pub headers: Vec<(String, String)>,
}

pub open spec fn opt_view(o: Option<String>) -> Option<Seq<char>> {
    match o {
        Some(s) => Some(s@),
        None => None,
    }
}

/// A response's content: status, reason, headers, body, content type and
/// time taken.
pub open spec fn response_view(r: ExecutedResponse) -> (u16, Seq<char>, Seq<(Seq<char>, Seq<char>)>, Seq<u8>, Option<Seq<char>>, u64) {
    (r.status, r.status_text@, headers_view(r.headers@), r.body@, opt_view(r.content_type), r.elapsed_ms)
}

/// A summary's content: status, reason, time taken, content type, full body
/// size, kept body and headers.
pub open spec fn summary_view(s: ResponseSummary) -> (u16, Seq<char>, u64, Option<Seq<char>>, usize, Seq<u8>, Seq<(Seq<char>, Seq<char>)>) {
    (s.status, s.status_text@, s.elapsed_ms, opt_view(s.content_type), s.byte_size, s.body@, headers_view(s.headers@))
}

/// The summary of a response: everything kept, the body cut to its first
/// `INLINE_BODY_CAP` bytes, and the full body's size noted.
pub open spec fn summarized(r: (u16, Seq<char>, Seq<(Seq<char>, Seq<char>)>, Seq<u8>, Option<Seq<char>>, u64)) -> (u16, Seq<char>, u64, Option<Seq<char>>, usize, Seq<u8>, Seq<(Seq<char>, Seq<char>)>) {
    let body = if r.3.len() > INLINE_BODY_CAP { r.3.take(INLINE_BODY_CAP as int) } else { r.3 };
    (r.0, r.1, r.5, r.4, r.3.len() as usize, body, r.2)
}

/// The response a summary stands for: its kept body in place of the full
/// one.
pub open spec fn restored(s: (u16, Seq<char>, u64, Option<Seq<char>>, usize, Seq<u8>, Seq<(Seq<char>, Seq<char>)>)) -> (u16, Seq<char>, Seq<(Seq<char>, Seq<char>)>, Seq<u8>, Option<Seq<char>>, u64) {
    (s.0, s.1, s.6, s.5, s.3, s.2)
}

fn copy_string(s: &String) -> (r: String)
    ensures
        r@ == s@,
{
    s.clone()
}

fn copy_opt(o: &Option<String>) -> (r: Option<String>)
    ensures
        opt_view(r) == opt_view(*o),
{
    match o {
        Some(s) => Some(s.clone()),
        None => None,
    }
}

pub(crate) fn copy_bytes(v: &Vec<u8>, n: usize) -> (r: Vec<u8>)
    requires
        n <= v@.len(),
    ensures
        r@ == v@.take(n as int),
{
    let mut out: Vec<u8> = Vec::new();
    let mut i: usize = 0;
    while i < n
        invariant
            i <= n,
            n <= v@.len(),
            out@ == v@.take(i as int),
        decreases n - i,
    {
        out.push(v[i]);
        i = i + 1;
        assert(out@ =~= v@.take(i as int));
    }
    out
}

fn copy_headers(h: &Vec<(String, String)>) -> (r: Vec<(String, String)>)
    ensures
        headers_view(r@) == headers_view(h@),
{
    let mut out: Vec<(String, String)> = Vec::new();
    let mut i: usize = 0;
    while i < h.len()
        invariant
            i <= h@.len(),
            headers_view(out@) == headers_view(h@).take(i as int),
        decreases h@.len() - i,
    {
        let ghost before = out@;
        let pair = (h[i].0.clone(), h[i].1.clone());
        out.push(pair);
        assert(headers_view(out@) =~= headers_view(before).push((h@[i as int].0@, h@[i as int].1@)));
        assert(headers_view(h@).take(i + 1) =~= headers_view(h@).take(i as int).push((h@[i as int].0@, h@[i as int].1@)));
        i = i + 1;
    }
    assert(headers_view(h@).take(i as int) =~= headers_view(h@));
    out
}

impl ResponseSummary {
    /// The summary of `resp` (see `summarized`).
    pub fn from_response(resp: &ExecutedResponse) -> (s: Self)
        ensures
            summary_view(s) == summarized(response_view(*resp)),
    {
        let n = resp.body.len();
        let keep = if n > INLINE_BODY_CAP { INLINE_BODY_CAP } else { n };
        let body = copy_bytes(&resp.body, keep);
        assert(n <= INLINE_BODY_CAP ==> resp.body@.take(n as int) =~= resp.body@);
        ResponseSummary {
            status: resp.status,
            status_text: copy_string(&resp.status_text),
            elapsed_ms: resp.elapsed_ms,
            content_type: copy_opt(&resp.content_type),
            byte_size: n,
            body,
            headers: copy_headers(&resp.headers),
        }
    }

    /// The response this summary stands for (see `restored`).
    pub fn to_response(&self) -> (r: ExecutedResponse)
        ensures
            response_view(r) == restored(summary_view(*self)),
    {
        let n = self.body.len();
        let body = copy_bytes(&self.body, n);
        assert(self.body@.take(n as int) =~= self.body@);
        ExecutedResponse {
            status: self.status,
            status_text: copy_string(&self.status_text),
            headers: copy_headers(&self.headers),
            body,
            content_type: copy_opt(&self.content_type),
            elapsed_ms: self.elapsed_ms,
        }
    }
}

/// A response whose body fits in a history entry comes back whole from its
/// summary.
pub proof fn law_summary_round_trip(r: (u16, Seq<char>, Seq<(Seq<char>, Seq<char>)>, Seq<u8>, Option<Seq<char>>, u64))
    requires
        r.3.len() <= INLINE_BODY_CAP,
    ensures
        restored(summarized(r)) == r,
{
}

/// One request sent and what came back.
pub struct HistoryEntry {
    pub id: Uuid,
    pub timestamp: Timestamp,
    pub request_snapshot: Request,
    pub response: ResponseSummary,
}

/// What the history overlay asks of the application after a key.
#[derive(PartialEq, Eq, Structural, Clone, Copy, Debug)]
pub enum HistoryAction {
    /// Nothing to do.
    Stay,
    /// Close the overlay.
    Close,
    /// Load the selected entry into the editor and response view.
    Restore,
    /// Entries were deleted: the history should be saved.
    Edited,
}

/// The sent requests, newest first, at most `cap` of them, and the one
/// selected.
pub struct History {
    pub entries: VecDeque<HistoryEntry>,
    pub cap: usize,
    pub path: PathBuf,
    pub selected: usize,
}

/// How many entries remain after adding one to `len` of them, with `cap`.
pub open spec fn kept_after_push(len: nat, cap: usize) -> int {
    if len + 1 <= cap {
        (len + 1) as int
    } else {
        cap as int
    }
}

/// The history never holds more than its cap: after recording one more
/// entry at most `cap` remain, and as many as there were plus one when that
/// fits.
pub proof fn law_history_stays_capped(len: nat, cap: usize)
    ensures
        kept_after_push(len, cap) <= cap,
        len + 1 <= cap ==> kept_after_push(len, cap) == len + 1,
{
}

/// What a key does to the history and what it asks of the caller (see
/// `History::handle_event`).
pub open spec fn history_key_effect(o: History, n: History, k: Key, a: HistoryAction) -> bool {
    let len = o.entries@.len();
    let sel = o.selected;
    if k == Key::Char('j') || k == Key::Down {
        &&& n.entries@ == o.entries@
        &&& n.selected == (if sel + 1 < len { sel + 1 } else { sel as int })
        &&& a == HistoryAction::Stay
    } else if k == Key::Char('k') || k == Key::Up {
        &&& n.entries@ == o.entries@
        &&& n.selected == (if sel > 0 { sel - 1 } else { 0 })
        &&& a == HistoryAction::Stay
    } else if k == Key::Char('d') {
        if sel < len {
            &&& n.entries@ == o.entries@.remove(sel as int)
            &&& n.selected == (if sel >= len - 1 && sel > 0 { sel - 1 } else { sel as int })
            &&& a == HistoryAction::Edited
        } else {
            &&& n.entries@ == o.entries@
            &&& n.selected == sel
            &&& a == HistoryAction::Stay
        }
    } else if k == Key::Char('D') {
        &&& n.entries@.len() == 0
        &&& n.selected == 0
        &&& a == HistoryAction::Edited
    } else if k == Key::Enter {
        &&& n.entries@ == o.entries@
        &&& n.selected == sel
        &&& a == (if sel < len { HistoryAction::Restore } else { HistoryAction::Stay })
    } else if k == Key::Esc || k == Key::Char('H') || k == Key::Char('q') {
        &&& n.entries@ == o.entries@
        &&& n.selected == sel
        &&& a == HistoryAction::Close
    } else {
        &&& n.entries@ == o.entries@
        &&& n.selected == sel
        &&& a == HistoryAction::Stay
    }
}

impl History {
    /// A history of `entries`, stored at `path`, with the default cap and the
    /// newest entry selected.
    pub fn new(entries: VecDeque<HistoryEntry>, path: PathBuf) -> (h: Self)
        ensures
            h.entries@ == entries@,
            h.cap == DEFAULT_CAP,
            h.path == path,
            h.selected == 0,
    {
        History { entries, cap: DEFAULT_CAP, path, selected: 0 }
    }

    /// Records a sent request and its response as the newest entry, drops
    /// the oldest entries beyond the cap and selects the newest.
    pub fn push(&mut self, request: Request, response: &ExecutedResponse)
        ensures
            final(self).cap == old(self).cap,
            final(self).path == old(self).path,
            final(self).selected == 0,
            final(self).entries@.len() == kept_after_push(old(self).entries@.len(), old(self).cap),
            forall|i: int| 1 <= i < final(self).entries@.len() ==> final(self).entries@[i] == old(self).entries@[i - 1],
            final(self).cap > 0 ==> final(self).entries@[0].request_snapshot == request,
            final(self).cap > 0 ==> summary_view(final(self).entries@[0].response) == summarized(response_view(*response)),
    {
        let entry = HistoryEntry {
            id: new_entry_id(),
            timestamp: now_utc(),
            request_snapshot: request,
            response: ResponseSummary::from_response(response),
        };
        let ghost e = entry;
        let ghost before = self.entries@;
        self.entries.push_front(entry);
        while self.entries.len() > self.cap
            invariant
                self.cap == old(self).cap,
                self.path == old(self).path,
                self.entries@.len() >= kept_after_push(before.len(), self.cap),
                self.entries@.len() <= before.len() + 1,
                self.entries@ == (seq![e] + before).take(self.entries@.len() as int),
            decreases self.entries@.len(),
        {
            self.entries.pop_back();
        }
        self.selected = 0;
    }

    /// The selected entry, if the selection is within the entries.
    pub fn selected_entry(&self) -> (r: Option<&HistoryEntry>)
        ensures
            self.selected < self.entries@.len() ==> r == Some(&self.entries@[self.selected as int]),
            self.selected >= self.entries@.len() ==> r is None,
    {
        if self.selected < self.entries.len() {
            Some(&self.entries[self.selected])
        } else {
            None
        }
    }

    /// Acts on a key in the history overlay: `j`/Down and `k`/Up move the
    /// selection within the entries, `d` deletes the selected entry (the
    /// selection stays on the row, or moves up from the last), `D` deletes
    /// them all, Enter asks to restore the selected entry, Esc, `H` and `q`
    /// ask to close; other keys do nothing.
    pub fn handle_event(&mut self, key: &KeyPress) -> (a: HistoryAction)
        ensures
            final(self).cap == old(self).cap,
            final(self).path == old(self).path,
            history_key_effect(*old(self), *final(self), key.key, a),
    {
        match key.key {
            Key::Char('j') | Key::Down => {
                if self.entries.len() > 0 && self.selected < self.entries.len() - 1 {
                    self.selected = self.selected + 1;
                }
                HistoryAction::Stay
            },
            Key::Char('k') | Key::Up => {
                if self.selected > 0 {
                    self.selected = self.selected - 1;
                }
                HistoryAction::Stay
            },
            Key::Char('d') => {
                if self.selected < self.entries.len() {
                    self.entries.remove(self.selected);
                    if self.selected >= self.entries.len() && self.selected > 0 {
                        self.selected = self.selected - 1;
                    }
                    HistoryAction::Edited
                } else {
                    HistoryAction::Stay
                }
            },
            Key::Char('D') => {
                self.entries.clear();
                self.selected = 0;
                HistoryAction::Edited
            },
            Key::Enter => {
                if self.selected < self.entries.len() {
                    HistoryAction::Restore
                } else {
                    HistoryAction::Stay
                }
            },
            Key::Esc | Key::Char('H') | Key::Char('q') => HistoryAction::Close,
            _ => HistoryAction::Stay,
        }
    }
}

/// The colour a status code is shown in: 2xx green, 3xx cyan, 4xx yellow,
/// 5xx red, anything else white.
pub fn status_hue(status: u16) -> (h: Hue)
    ensures
        h == (if 200 <= status <= 299 {
            Hue::Green
        } else if 300 <= status <= 399 {
            Hue::Cyan
        } else if 400 <= status <= 499 {
            Hue::Yellow
        } else if 500 <= status <= 599 {
            Hue::Red
        } else {
            Hue::White
        }),
{
    if 200 <= status && status <= 299 {
        Hue::Green
    } else if 300 <= status && status <= 399 {
        Hue::Cyan
    } else if 400 <= status && status <= 499 {
        Hue::Yellow
    } else if 500 <= status && status <= 599 {
        Hue::Red
    } else {
        Hue::White
    }
}

/// The first row shown in a list `rows` tall so that row `selected` is
/// visible: 0 while it fits, else the row that puts it at the bottom.
pub fn first_visible_row(selected: usize, rows: usize) -> (start: usize)
    requires
        rows > 0 || selected < usize::MAX,
    ensures
        start == (if selected >= rows { selected - rows + 1 } else { 0 }),
{
    if selected >= rows {
        if rows == 0 {
            selected + 1
        } else {
            selected - (rows - 1)
        }
    } else {
        0
    }
}

} // verus!

verus! {

/// A history entry keeps the start of the response body: as many bytes as
/// the body has, up to `INLINE_BODY_CAP`, each the byte at the same place
/// in the body; and it notes the size of the whole body.
pub proof fn law_summary_keeps_body_start(resp: ExecutedResponse, s: ResponseSummary)
    requires
        summary_view(s) == summarized(response_view(resp)),
    ensures
        s.body@.len() == (if resp.body@.len() <= INLINE_BODY_CAP { resp.body@.len() } else { INLINE_BODY_CAP as nat }),
        forall|i: int| 0 <= i < s.body@.len() ==> s.body@[i] == resp.body@[i],
        s.byte_size == resp.body@.len(),
{
    assert(resp.body@.len() == resp.body.len());
}

} // verus!
