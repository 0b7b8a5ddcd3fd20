use vstd::prelude::*;
use crate::config::EnvConfig;
use crate::editor::RequestEditor;
use crate::editor_io::{loaded, needs_json, to_request_effect};
use crate::env_editor::{EnvironmentEditor, EnvFocus, collected, rows_pairs, env_key_effect, opening_rows, plain_row};
use crate::history::{History, HistoryAction, history_key_effect, copy_bytes, kept_after_push, summary_view, summarized, restored, response_view as reply_view};
use crate::http::{ExecutedResponse, HttpError};
use crate::items::{ConfigFolder, Item, Request, RequestType};
use crate::json::JsonDoc;
use crate::capture::{captures, extract_captures, pairs_view};
use crate::keys::{Key, KeyPress};
use crate::modals::{AddItemWidget, ItemKind, add_item_key_effect};
use crate::panes::{Pane, GlobalAction, global_action, global_binding, HelpOverlay, ResponseView, help_key_effect, response_key_effect, shows_response};
use crate::sidebar::{Sidebar, added, copy_path, same_path, key_effect as sidebar_key_effect};
use crate::editor::key_effect as editor_key_effect;
use crate::tree::{item_at_spec, replace_request_at, replaced};

verus! {

/// The state of the whole screen: the tree, the open request, the response,
/// the overlays, and the environment's variables.
pub struct App {
    pub sidebar: Sidebar,
    pub add_item_widget: Option<AddItemWidget>,
    pub env_config: EnvConfig,
    pub current_editor: Option<RequestEditor>,
    /// Where in the tree the open request lives; `None` for a request
    /// restored from the history.
    pub editing_path: Option<Vec<usize>>,
    pub focus_pane: Pane,
    pub save_status: Option<String>,
    pub response_view: ResponseView,
    pub last_response: Option<ExecutedResponse>,
    pub in_flight: bool,
    pub env_editor: Option<EnvironmentEditor>,
    pub history: History,
    pub history_open: bool,
    /// The request whose response is awaited.
    pub last_sent_request: Option<Request>,
    pub help: HelpOverlay,
}

/// What the caller is to do after an event: keep running or quit, write the
/// tree, the environment or the history to their files, and send
/// `last_sent_request` with the environment's variables.
pub struct AppOutcome {
    pub keep_running: bool,
    pub save_workspace: bool,
    pub save_env: bool,
    pub save_history: bool,
    pub send: bool,
}

/// A message from the work done outside: the reply to the request that was
/// sent.
pub enum AppMsg {
    ResponseReady(Result<ExecutedResponse, HttpError>),
}

/// Nothing to do but keep running.
pub open spec fn quiet(o: AppOutcome) -> bool {
    o.keep_running && !o.save_workspace && !o.save_env && !o.save_history && !o.send
}

fn keep_going() -> (o: AppOutcome)
    ensures
        quiet(o),
{
    AppOutcome { keep_running: true, save_workspace: false, save_env: false, save_history: false, send: false }
}

/// A GET request named `name` with nothing else set.
pub open spec fn blank_request(it: Item, name: Seq<char>, t: RequestType) -> bool {
    it matches Item::Request(r) && {
        &&& r.name@ == name
        &&& r.request_type == t
        &&& r.url@ == Seq::<char>::empty()
        &&& r.headers is None && r.body is None && r.auth is None
        &&& r.params is None && r.url_vars is None && r.capture is None
    }
}

fn sample(name: &str, t: RequestType) -> (it: Item)
    ensures
        blank_request(it, name@, t),
{
    Item::Request(Request {
        name: name.to_owned(),
        request_type: t,
        url: String::new(),
        headers: None,
        body: None,
        auth: None,
        params: None,
        url_vars: None,
        capture: None,
    })
}

/// The tree a new workspace starts with: five requests on users and posts,
/// then a folder `User Actions` holding two folders with one request each.
pub open spec fn sample_tree(v: Seq<Item>) -> bool {
    &&& v.len() == 6
    &&& blank_request(v[0], "Get Users"@, RequestType::Get)
    &&& blank_request(v[1], "Create User"@, RequestType::Post)
    &&& blank_request(v[2], "Update User"@, RequestType::Put)
    &&& blank_request(v[3], "Delete User"@, RequestType::Delete)
    &&& blank_request(v[4], "Get Posts"@, RequestType::Get)
    &&& v[5] matches Item::Folder(f) && {
        &&& f.name@ == "User Actions"@
        &&& f.items@.len() == 2
        &&& f.items@[0] matches Item::Folder(g) && g.name@ == "Nested Folder"@ && g.items@.len() == 1
            && blank_request(g.items@[0], "Delete User"@, RequestType::Delete)
        &&& f.items@[1] matches Item::Folder(g) && g.name@ == "Another Nested"@ && g.items@.len() == 1
            && blank_request(g.items@[0], "Delete User"@, RequestType::Delete)
    }
}

/// The tree a new workspace starts with (see `sample_tree`).
pub fn default_items() -> (v: Vec<Item>)
    ensures
        sample_tree(v@),
{
    let mut nested: Vec<Item> = Vec::new();
    nested.push(sample("Delete User", RequestType::Delete));
    let mut another: Vec<Item> = Vec::new();
    another.push(sample("Delete User", RequestType::Delete));
    let mut folders: Vec<Item> = Vec::new();
    folders.push(Item::Folder(ConfigFolder { name: "Nested Folder".to_owned(), items: nested }));
    folders.push(Item::Folder(ConfigFolder { name: "Another Nested".to_owned(), items: another }));
    let mut v: Vec<Item> = Vec::new();
    v.push(sample("Get Users", RequestType::Get));
    v.push(sample("Create User", RequestType::Post));
    v.push(sample("Update User", RequestType::Put));
    v.push(sample("Delete User", RequestType::Delete));
    v.push(sample("Get Posts", RequestType::Get));
    v.push(Item::Folder(ConfigFolder { name: "User Actions".to_owned(), items: folders }));
    v
}

/// `j` is what the open request's JSON body gave `parse`: when the body is
/// JSON and not blank, one outcome of `parse` on its UTF-8 bytes; else
/// nothing.
pub open spec fn json_fed<F: Fn(Vec<u8>) -> Result<JsonDoc, String>>(
    parse: F,
    e: RequestEditor,
    j: Option<Result<JsonDoc, String>>,
) -> bool {
    if needs_json(e) {
        exists|b: Vec<u8>, x: Result<JsonDoc, String>| #![trigger call_ensures(parse, (b,), x)]
            b@ == vstd::utf8::encode_utf8(e.body_editor.text()) && call_ensures(parse, (b,), x) && j == Some(x)
    } else {
        j is None
    }
}

/// Hands the editor's JSON body, if it needs one, to `parse`.
fn editor_json<F: Fn(Vec<u8>) -> Result<JsonDoc, String>>(e: &RequestEditor, parse: &F) -> (j: Option<Result<JsonDoc, String>>)
    requires
        forall|b: Vec<u8>| call_requires(*parse, (b,)),
    ensures
        json_fed(*parse, *e, j),
        needs_json(*e) ==> j is Some,
{
    match e.json_body_text() {
        Some(t) => {
            let b = vstd::slice::slice_to_vec(t.as_str().as_bytes());
            let ghost bb = b;
            let x = parse(b);
            assert(call_ensures(*parse, (bb,), x));
            Some(x)
        },
        None => None,
    }
}

/// The optional path as a sequence.
pub open spec fn opt_path(p: Option<Vec<usize>>) -> Option<Seq<usize>> {
    match p {
        Some(v) => Some(v@),
        None => None,
    }
}

/// The status line holds `s`.
pub open spec fn status_is(st: Option<String>, s: Seq<char>) -> bool {
    st matches Some(t) && t@ == s
}

/// `n` is `o` but for the open request, where it lives, the tree and the
/// status line.
pub open spec fn same_but_editing(o: App, n: App) -> bool {
    &&& n.sidebar.selected_path == o.sidebar.selected_path
    &&& n.sidebar.open_folders == o.sidebar.open_folders
    &&& n.sidebar.clipboard == o.sidebar.clipboard
    &&& n.add_item_widget == o.add_item_widget
    &&& n.env_config == o.env_config
    &&& n.focus_pane == o.focus_pane
    &&& n.response_view == o.response_view
    &&& n.last_response == o.last_response
    &&& n.in_flight == o.in_flight
    &&& n.env_editor == o.env_editor
    &&& n.history == o.history
    &&& n.history_open == o.history_open
    &&& n.last_sent_request == o.last_sent_request
    &&& n.help == o.help
}

/// After following the selection (from `o` to `n`): when the open request
/// came from the selected row nothing changes; otherwise the selected
/// request, when the selection leads to one, is opened in a fresh editor
/// (see `loaded`), and else no request is open. Nothing else changes.
pub open spec fn synced(o: App, n: App) -> bool {
    &&& same_but_editing(o, n)
    &&& n.sidebar.items == o.sidebar.items
    &&& n.save_status == o.save_status
    &&& if opt_path(o.editing_path) == Some(o.sidebar.selected_path@) {
        n.current_editor == o.current_editor && n.editing_path == o.editing_path
    } else {
        match item_at_spec(o.sidebar.items@, o.sidebar.selected_path@) {
            Some(Item::Request(req)) => n.current_editor matches Some(e) && loaded(req, e)
                && opt_path(n.editing_path) == Some(o.sidebar.selected_path@),
            _ => n.current_editor is None && n.editing_path is None,
        }
    }
}

/// One way a save goes, from `o` to `n`: the open request `e` at `p` is read
/// out (see `to_request_effect`) with the JSON `j` that `parse` gave; a
/// request read out replaces the one at `p` in the tree (see `replaced`),
/// and `wrote` tells whether it did. A loud save says `saved` when it did,
/// and `save failed (see editor)` when the editor's fields were refused.
pub open spec fn save_step<F: Fn(Vec<u8>) -> Result<JsonDoc, String>>(
    o: App,
    n: App,
    parse: F,
    loud: bool,
    wrote: bool,
    j: Option<Result<JsonDoc, String>>,
    r: Result<Request, String>,
    e2: RequestEditor,
    rr: Result<(), &str>,
) -> bool {
    &&& o.current_editor matches Some(e) && json_fed(parse, e, j) && to_request_effect(e, j, e2, r)
    &&& n.current_editor == Some(e2)
    &&& n.editing_path == o.editing_path
    &&& match r {
        Ok(req) => {
            &&& o.editing_path matches Some(p) && replaced(o.sidebar.items@, n.sidebar.items@, p@, req, rr)
            &&& wrote == rr is Ok
            &&& n.save_status == (if loud && rr is Ok { n.save_status } else { o.save_status })
            &&& loud && rr is Ok ==> status_is(n.save_status, "saved"@)
        },
        Err(_) => {
            &&& n.sidebar.items == o.sidebar.items
            &&& !wrote
            &&& n.save_status == (if loud { n.save_status } else { o.save_status })
            &&& loud ==> status_is(n.save_status, "save failed (see editor)"@)
        },
    }
}

/// What saving the open request does (see `save_step`); with no open
/// request, or one that is not in the tree, nothing changes.
pub open spec fn saved<F: Fn(Vec<u8>) -> Result<JsonDoc, String>>(o: App, n: App, parse: F, loud: bool, wrote: bool) -> bool {
    &&& same_but_editing(o, n)
    &&& if o.current_editor is Some && o.editing_path is Some {
        exists|j: Option<Result<JsonDoc, String>>, r: Result<Request, String>, e2: RequestEditor, rr: Result<(), &str>|
            #[trigger] save_step(o, n, parse, loud, wrote, j, r, e2, rr)
    } else {
        n == o && !wrote
    }
}

impl App {
    /// A fresh screen: the sample tree (see `default_items`), the sidebar
    /// focused, no request open, nothing in flight, no overlay shown.
    pub fn new(env_config: EnvConfig, history: History) -> (a: Self)
        ensures
            sample_tree(a.sidebar.items@),
            a.env_config == env_config,
            a.history == history,
            a.focus_pane == Pane::Sidebar,
            a.current_editor is None,
            a.editing_path is None,
            a.add_item_widget is None,
            a.env_editor is None,
            !a.history_open,
            !a.help.open,
            !a.in_flight,
            a.save_status is None,
            a.last_response is None,
            a.last_sent_request is None,
    {
        App {
            sidebar: Sidebar::new(default_items()),
            add_item_widget: None,
            env_config,
            current_editor: None,
            editing_path: None,
            focus_pane: Pane::Sidebar,
            save_status: None,
            response_view: ResponseView::new(),
            last_response: None,
            in_flight: false,
            env_editor: None,
            history,
            history_open: false,
            last_sent_request: None,
            help: HelpOverlay::new(),
        }
    }

    /// Takes the tree read from the workspace file: an empty one is
    /// replaced by the sample tree, which is then to be written out (the
    /// answer); otherwise the sidebar shows the tree read.
    pub fn adopt_workspace(&mut self, items: Vec<Item>) -> (write_sample: bool)
        ensures
            write_sample == (items@.len() == 0),
            write_sample ==> sample_tree(final(self).sidebar.items@),
            !write_sample ==> final(self).sidebar.items@ == items@,
            final(self).sidebar.selected_path == old(self).sidebar.selected_path,
            final(self).sidebar.open_folders == old(self).sidebar.open_folders,
            final(self).sidebar.clipboard == old(self).sidebar.clipboard,
            final(self).current_editor == old(self).current_editor,
            final(self).editing_path == old(self).editing_path,
    {
        if items.len() == 0 {
            self.sidebar.items = default_items();
            true
        } else {
            self.sidebar.items = items;
            false
        }
    }

    /// Opens the selected request, unless it is already open (see `synced`).
    pub fn sync_editor_with_selection(&mut self)
        ensures
            synced(*old(self), *final(self)),
    {
        let same = match &self.editing_path {
            Some(p) => same_path(p, &self.sidebar.selected_path),
            None => false,
        };
        if same {
            return;
        }
        let path = copy_path(&self.sidebar.selected_path);
        let opened = match self.sidebar.item_at(path.as_slice()) {
            Some(Item::Request(req)) => Some(RequestEditor::from_request(req)),
            _ => None,
        };
        match opened {
            Some(e) => {
                self.current_editor = Some(e);
                self.editing_path = Some(path);
            },
            None => {
                self.current_editor = None;
                self.editing_path = None;
            },
        }
    }

    /// Saves the open request into the tree (see `saved`); tells whether
    /// the tree changed and is to be written out.
    fn save_editor<F: Fn(Vec<u8>) -> Result<JsonDoc, String>>(&mut self, parse: &F, loud: bool) -> (wrote: bool)
        requires
            forall|b: Vec<u8>| call_requires(*parse, (b,)),
        ensures
            saved(*old(self), *final(self), *parse, loud, wrote),
    {
        if self.current_editor.is_none() || self.editing_path.is_none() {
            return false;
        }
        let ghost o = *self;
        let path = match &self.editing_path {
            Some(p) => copy_path(p),
            None => Vec::new(),
        };
        let mut editor = self.current_editor.take().unwrap();
        let ghost e0 = editor;
        let json = editor_json(&editor, parse);
        let r = editor.to_request(json);
        let ghost e2 = editor;
        self.current_editor = Some(editor);
        let wrote = match r {
            Ok(req) => {
                let ghost rq = req;
                let rr = replace_request_at(&mut self.sidebar.items, path.as_slice(), req);
                let ok = rr.is_ok();
                if ok && loud {
                    self.save_status = Some("saved".to_owned());
                }
                assert(save_step(o, *self, *parse, loud, ok, json, Ok::<Request, String>(rq), e2, rr));
                ok
            },
            Err(m) => {
                if loud {
                    self.save_status = Some("save failed (see editor)".to_owned());
                }
                assert(save_step(o, *self, *parse, loud, false, json, Err::<Request, String>(m), e2, Ok::<(), &str>(())));
                false
            },
        };
        wrote
    }
}

/// One way sending goes, from `o` to `n`: the open request `e` is read out
/// (see `to_request_effect`) with the JSON `j` that `parse` gave; a request
/// read out becomes the one awaited, the response pane is cleared and the
/// caller is to send it; otherwise the status line says `invalid editor
/// state`.
pub open spec fn send_step<F: Fn(Vec<u8>) -> Result<JsonDoc, String>>(
    o: App,
    n: App,
    parse: F,
    send: bool,
    j: Option<Result<JsonDoc, String>>,
    r: Result<Request, String>,
    e2: RequestEditor,
) -> bool {
    &&& o.current_editor matches Some(e) && json_fed(parse, e, j) && to_request_effect(e, j, e2, r)
    &&& n.current_editor == Some(e2)
    &&& n.sidebar == o.sidebar
    &&& n.editing_path == o.editing_path
    &&& n.add_item_widget == o.add_item_widget
    &&& n.env_config == o.env_config
    &&& n.focus_pane == o.focus_pane
    &&& n.env_editor == o.env_editor
    &&& n.history == o.history
    &&& n.history_open == o.history_open
    &&& n.help == o.help
    &&& match r {
        Ok(req) => {
            &&& send
            &&& n.in_flight
            &&& shows_response(o.response_view, n.response_view, None)
            &&& n.last_response is None
            &&& n.last_sent_request == Some(req)
            &&& n.save_status == o.save_status
        },
        Err(_) => {
            &&& !send
            &&& n.in_flight == o.in_flight
            &&& n.response_view == o.response_view
            &&& n.last_response == o.last_response
            &&& n.last_sent_request == o.last_sent_request
            &&& status_is(n.save_status, "invalid editor state"@)
        },
    }
}

/// What asking to send does: nothing while a request is in flight or when
/// no request is open; otherwise see `send_step`.
pub open spec fn sent<F: Fn(Vec<u8>) -> Result<JsonDoc, String>>(o: App, n: App, parse: F, send: bool) -> bool {
    if o.in_flight || o.current_editor is None {
        n == o && !send
    } else {
        exists|j: Option<Result<JsonDoc, String>>, r: Result<Request, String>, e2: RequestEditor|
            #[trigger] send_step(o, n, parse, send, j, r, e2)
    }
}

/// The map `m` with the pairs `ps` stored in order, a later pair winning.
pub open spec fn with_pairs(m: Map<Seq<char>, Seq<char>>, ps: Seq<(Seq<char>, Seq<char>)>) -> Map<Seq<char>, Seq<char>>
    decreases ps.len(),
{
    if ps.len() == 0 {
        m
    } else {
        with_pairs(m, ps.drop_last()).insert(ps.last().0, ps.last().1)
    }
}

/// The names of the pairs, separated by `, `.
pub open spec fn joined_names(ps: Seq<(Seq<char>, Seq<char>)>) -> Seq<char>
    decreases ps.len(),
{
    if ps.len() == 0 {
        Seq::empty()
    } else if ps.len() == 1 {
        ps[0].0
    } else {
        joined_names(ps.drop_last()) + ", "@ + ps.last().0
    }
}

/// What capturing does to the variables and the status line, from `o` to
/// `n`, given the capture template `tj` and the response body `bj` as the
/// parser read them: a refused template is reported, as is a body that is
/// not JSON; when the template captures nothing that is reported; else the
/// captured pairs are stored (see `captures`, `with_pairs`), reported by
/// name, and the variables are to be written out (`save`).
pub open spec fn capture_step(
    o: App,
    n: App,
    save: bool,
    tj: Result<JsonDoc, String>,
    bj: Result<JsonDoc, String>,
) -> bool {
    match tj {
        Err(e) => !save && n.env_config == o.env_config && status_is(n.save_status, "capture template invalid JSON: "@ + e@),
        Ok(t) => match bj {
            Err(_) => !save && n.env_config == o.env_config && status_is(n.save_status, "capture skipped: response is not JSON"@),
            Ok(a) => {
                let ps = captures(t.value, a.value);
                if ps.len() == 0 {
                    !save && n.env_config == o.env_config && status_is(n.save_status, "capture: nothing matched"@)
                } else {
                    &&& save
                    &&& n.env_config.path == o.env_config.path
                    &&& n.env_config.data.variables@ == with_pairs(o.env_config.data.variables@, ps)
                    &&& status_is(n.save_status, "captured: "@ + joined_names(ps))
                }
            },
        },
    }
}

/// What running a request's capture template over its response does:
/// nothing without a template; otherwise, for outcomes of `parse` on the
/// template's and the body's bytes, see `capture_step`. Only the
/// variables and the status line change.
pub open spec fn captured<F: Fn(Vec<u8>) -> Result<JsonDoc, String>>(
    o: App,
    n: App,
    parse: F,
    req: Request,
    resp: ExecutedResponse,
    save: bool,
) -> bool {
    &&& n == App { env_config: n.env_config, save_status: n.save_status, ..o }
    &&& match req.capture {
        None => n == o && !save,
        Some(c) => exists|tb: Vec<u8>, tj: Result<JsonDoc, String>, bj: Result<JsonDoc, String>|
            #![trigger call_ensures(parse, (tb,), tj), capture_step(o, n, save, tj, bj)]
            {
                &&& tb@ == vstd::utf8::encode_utf8(c@)
                &&& call_ensures(parse, (tb,), tj)
                &&& (tj is Ok ==> exists|bb: Vec<u8>| #[trigger] call_ensures(parse, (bb,), bj) && bb@ == resp.body@)
                &&& capture_step(o, n, save, tj, bj)
            },
    }
}

impl App {
    /// Sends the open request (see `sent`); tells whether the caller is to
    /// send `last_sent_request`.
    fn send_current_request<F: Fn(Vec<u8>) -> Result<JsonDoc, String>>(&mut self, parse: &F) -> (send: bool)
        requires
            forall|b: Vec<u8>| call_requires(*parse, (b,)),
        ensures
            sent(*old(self), *final(self), *parse, send),
    {
        if self.in_flight || self.current_editor.is_none() {
            return false;
        }
        let ghost o = *self;
        let mut editor = self.current_editor.take().unwrap();
        let json = editor_json(&editor, parse);
        let r = editor.to_request(json);
        let ghost e2 = editor;
        self.current_editor = Some(editor);
        match r {
            Ok(req) => {
                let ghost rq = req;
                self.in_flight = true;
                self.response_view.set_response(None);
                self.last_response = None;
                self.last_sent_request = Some(req);
                assert(send_step(o, *self, *parse, true, json, Ok::<Request, String>(rq), e2));
                true
            },
            Err(m) => {
                self.save_status = Some("invalid editor state".to_owned());
                assert(send_step(o, *self, *parse, false, json, Err::<Request, String>(m), e2));
                false
            },
        }
    }

    /// Stores the captured pairs and reports them (see `capture_step`).
    fn store_captures(&mut self, pairs: Vec<(String, String)>) -> (save: bool)
        ensures
            *final(self) == (App { env_config: final(self).env_config, save_status: final(self).save_status, ..*old(self) }),
            pairs@.len() == 0 ==> !save && final(self).env_config == old(self).env_config
                && status_is(final(self).save_status, "capture: nothing matched"@),
            pairs@.len() > 0 ==> {
                &&& save
                &&& final(self).env_config.path == old(self).env_config.path
                &&& final(self).env_config.data.variables@ == with_pairs(old(self).env_config.data.variables@, pairs_view(pairs@))
                &&& status_is(final(self).save_status, "captured: "@ + joined_names(pairs_view(pairs@)))
            },
    {
        if pairs.len() == 0 {
            self.save_status = Some("capture: nothing matched".to_owned());
            return false;
        }
        let ghost ps = pairs_view(pairs@);
        let ghost m0 = self.env_config.data.variables@;
        let mut names: Vec<char> = Vec::new();
        let mut i: usize = 0;
        while i < pairs.len()
            invariant
                i <= pairs@.len(),
                ps == pairs_view(pairs@),
                pairs@.len() > 0,
                self.env_config.data.variables@ == with_pairs(m0, ps.take(i as int)),
                names@ == joined_names(ps.take(i as int)),
                *self == (App { env_config: self.env_config, save_status: self.save_status, ..*old(self) }),
                self.env_config.path == old(self).env_config.path,
                self.save_status == old(self).save_status,
            decreases pairs@.len() - i,
        {
            let k = pairs[i].0.clone();
            let v = pairs[i].1.clone();
            proof {
                assert(ps.take(i + 1).drop_last() =~= ps.take(i as int));
                assert(ps.take(i + 1).last() == ps[i as int]);
            }
            if i > 0 {
                names.push(',');
                names.push(' ');
            }
            let kc = crate::text::to_chars(k.as_str());
            let mut j: usize = 0;
            let ghost before = names@;
            while j < kc.len()
                invariant
                    j <= kc@.len(),
                    names@ == before + kc@.take(j as int),
                decreases kc@.len() - j,
            {
                names.push(kc[j]);
                j = j + 1;
                assert(names@ =~= before + kc@.take(j as int));
            }
            proof {
                assert(kc@.take(kc@.len() as int) =~= kc@);
                if i == 0 {
                    assert(ps.take(1).len() == 1);
                    assert(names@ =~= ps.take(1)[0].0);
                } else {
                    reveal_strlit(", ");
                    assert(names@ =~= joined_names(ps.take(i as int)) + ", "@ + ps[i as int].0);
                }
            }
            self.env_config.data.variables.insert(k, v);
            i = i + 1;
        }
        proof {
            assert(ps.take(pairs@.len() as int) =~= ps);
        }
        let mut msg = crate::text::to_chars("captured: ");
        let mut t: usize = 0;
        let ghost m_before = msg@;
        while t < names.len()
            invariant
                t <= names@.len(),
                msg@ == m_before + names@.take(t as int),
            decreases names@.len() - t,
        {
            msg.push(names[t]);
            t = t + 1;
            assert(msg@ =~= m_before + names@.take(t as int));
        }
        proof {
            assert(names@.take(names@.len() as int) =~= names@);
        }
        self.save_status = Some(crate::text::from_chars(&msg));
        true
    }

    /// Runs the capture template of `req` over `resp` (see `captured`);
    /// tells whether the variables are to be written out.
    fn run_captures<F: Fn(Vec<u8>) -> Result<JsonDoc, String>>(&mut self, req: &Request, resp: &ExecutedResponse, parse: &F) -> (save: bool)
        requires
            forall|b: Vec<u8>| call_requires(*parse, (b,)),
        ensures
            captured(*old(self), *final(self), *parse, *req, *resp, save),
    {
        let template_text = match &req.capture {
            Some(c) => c,
            None => {
                return false;
            },
        };
        let ghost o = *self;
        let tb = vstd::slice::slice_to_vec(template_text.as_str().as_bytes());
        let ghost tbg = tb;
        let tj = parse(tb);
        match tj {
            Err(e) => {
                let mut msg = crate::text::to_chars("capture template invalid JSON: ");
                let ec = crate::text::to_chars(e.as_str());
                let ghost m0 = msg@;
                let mut i: usize = 0;
                while i < ec.len()
                    invariant
                        i <= ec@.len(),
                        msg@ == m0 + ec@.take(i as int),
                    decreases ec@.len() - i,
                {
                    msg.push(ec[i]);
                    i = i + 1;
                    assert(msg@ =~= m0 + ec@.take(i as int));
                }
                assert(ec@.take(ec@.len() as int) =~= ec@);
                self.save_status = Some(crate::text::from_chars(&msg));
                let ghost bj = Err::<JsonDoc, String>(e);
                assert(capture_step(o, *self, false, Err::<JsonDoc, String>(e), bj));
                assert(call_ensures(*parse, (tbg,), Err::<JsonDoc, String>(e)));
                false
            },
            Ok(t) => {
                let n = resp.body.len();
                let bb = copy_bytes(&resp.body, n);
                assert(bb@ == resp.body@);
                let ghost bbg = bb;
                let bj = parse(bb);
                assert(call_ensures(*parse, (bbg,), bj));
                let ghost tjg = Ok::<JsonDoc, String>(t);
                match bj {
                    Err(e) => {
                        self.save_status = Some("capture skipped: response is not JSON".to_owned());
                        assert(capture_step(o, *self, false, tjg, Err::<JsonDoc, String>(e)));
                        assert(call_ensures(*parse, (tbg,), tjg));
                        false
                    },
                    Ok(a) => {
                        let pairs = extract_captures(&t.value, &a.value);
                        let save = self.store_captures(pairs);
                        assert(capture_step(o, *self, save, tjg, Ok::<JsonDoc, String>(a)));
                        assert(call_ensures(*parse, (tbg,), tjg));
                        save
                    },
                }
            },
        }
    }
}

/// The history `n` is `o` with `req` and the summary of `r` recorded as the
/// newest entry, the oldest beyond the cap dropped, the newest selected.
pub open spec fn pushed(o: History, n: History, req: Request, r: ExecutedResponse) -> bool {
    &&& n.cap == o.cap
    &&& n.path == o.path
    &&& n.selected == 0
    &&& n.entries@.len() == kept_after_push(o.entries@.len(), o.cap)
    &&& forall|i: int| 1 <= i < n.entries@.len() ==> n.entries@[i] == o.entries@[i - 1]
    &&& n.cap > 0 ==> n.entries@[0].request_snapshot == req
    &&& n.cap > 0 ==> summary_view(n.entries@[0].response) == summarized(reply_view(r))
}

/// What a reply to the awaited request does, from `o` to `n`: nothing is in
/// flight any more. A response is shown and kept; when a request was
/// awaited, its capture template runs over the response (see `captured`),
/// and it is recorded in the history (see `pushed`), which is to be written
/// out. An error is shown and nothing is awaited any more. Nothing else
/// changes.
pub open spec fn received<F: Fn(Vec<u8>) -> Result<JsonDoc, String>>(
    o: App,
    n: App,
    parse: F,
    res: Result<ExecutedResponse, HttpError>,
    out: AppOutcome,
) -> bool {
    &&& out.keep_running && !out.save_workspace && !out.send
    &&& n == App {
        response_view: n.response_view,
        last_response: n.last_response,
        in_flight: false,
        last_sent_request: None,
        env_config: n.env_config,
        save_status: n.save_status,
        history: n.history,
        ..o
    }
    &&& match res {
        Ok(r) => {
            &&& shows_response(o.response_view, n.response_view, Some(r))
            &&& n.last_response == Some(r)
            &&& match o.last_sent_request {
                Some(req) => {
                    let mid = App { in_flight: false, response_view: n.response_view, last_sent_request: None, ..o };
                    &&& captured(mid, App { env_config: n.env_config, save_status: n.save_status, ..mid }, parse, req, r, out.save_env)
                    &&& pushed(o.history, n.history, req, r)
                    &&& out.save_history
                },
                None => {
                    &&& n.env_config == o.env_config && n.save_status == o.save_status && n.history == o.history
                    &&& !out.save_env && !out.save_history
                },
            }
        },
        Err(e) => {
            &&& n.response_view.sub_tab == o.response_view.sub_tab
            &&& n.response_view.scroll == 0
            &&& n.response_view.pretty_cache is None
            &&& n.response_view.last_error matches Some(m) && m@ == crate::http::error_text(e)
            &&& n.last_response is None
            &&& n.env_config == o.env_config && n.save_status == o.save_status && n.history == o.history
            &&& !out.save_env && !out.save_history
        },
    }
}

impl App {
    /// Takes the reply to the awaited request (see `received`).
    pub fn receive_response<F: Fn(Vec<u8>) -> Result<JsonDoc, String>>(
        &mut self,
        res: Result<ExecutedResponse, HttpError>,
        parse: &F,
    ) -> (out: AppOutcome)
        requires
            forall|b: Vec<u8>| call_requires(*parse, (b,)),
        ensures
            received(*old(self), *final(self), *parse, res, out),
    {
        self.in_flight = false;
        match res {
            Ok(r) => {
                self.response_view.set_response(Some(&r));
                let mut out = keep_going();
                match self.last_sent_request.take() {
                    Some(req) => {
                        out.save_env = self.run_captures(&req, &r, parse);
                        self.history.push(req, &r);
                        out.save_history = true;
                    },
                    None => {},
                }
                self.last_response = Some(r);
                out
            },
            Err(e) => {
                self.response_view.set_error(&e);
                self.last_response = None;
                self.last_sent_request = None;
                keep_going()
            },
        }
    }
}

/// Where a key goes.
#[derive(PartialEq, Eq, Structural, Clone, Copy, Debug)]
pub enum KeyRoute {
    Help,
    History,
    EnvEditor,
    AddItem,
    Global(GlobalAction),
    Pane(Pane),
}

/// A field of the open request is being typed into.
pub open spec fn editor_typing(a: App) -> bool {
    a.current_editor matches Some(e) && e.editing
}

/// Where a key goes: to the help while it is shown, else to the history
/// while it is shown, else to the environment editor while it is open, else
/// to the new-item form while it is open; otherwise it is a global binding
/// (see `global_binding`) or goes to the focused pane.
pub open spec fn key_route(a: App, k: KeyPress) -> KeyRoute {
    if a.help.open {
        KeyRoute::Help
    } else if a.history_open {
        KeyRoute::History
    } else if a.env_editor is Some {
        KeyRoute::EnvEditor
    } else if a.add_item_widget is Some {
        KeyRoute::AddItem
    } else {
        match global_binding(k.key, k.ctrl, editor_typing(a), a.focus_pane) {
            Some(g) => KeyRoute::Global(g),
            None => KeyRoute::Pane(a.focus_pane),
        }
    }
}

/// The help took the key; nothing else changes.
pub open spec fn help_branch(o: App, n: App, k: KeyPress, out: AppOutcome) -> bool {
    &&& n == App { help: n.help, ..o }
    &&& help_key_effect(o.help, n.help, k.key)
    &&& quiet(out)
}

/// What follows the history's answer `a`: closing hides it; restoring opens
/// the selected entry's request in a fresh editor, detached from the tree,
/// shows its recorded response, hides the history and focuses the editor;
/// an edit asks for the history to be written out.
pub open spec fn history_follow(o: App, a: HistoryAction, n: App, out: AppOutcome) -> bool {
    &&& out.keep_running && !out.save_workspace && !out.save_env && !out.send
    &&& out.save_history == (a == HistoryAction::Edited)
    &&& match a {
        HistoryAction::Close => n == App { history: n.history, history_open: false, ..o },
        HistoryAction::Restore => {
            let entry = n.history.entries@[n.history.selected as int];
            &&& n == App {
                history: n.history,
                history_open: false,
                focus_pane: Pane::Editor,
                current_editor: n.current_editor,
                editing_path: None,
                response_view: n.response_view,
                last_response: n.last_response,
                ..o
            }
            &&& n.current_editor matches Some(e) && loaded(entry.request_snapshot, e)
            &&& n.last_response matches Some(r) && reply_view(r) == restored(summary_view(entry.response))
                && shows_response(o.response_view, n.response_view, Some(r))
        },
        _ => n == App { history: n.history, ..o },
    }
}

/// The history took the key (see `history_key_effect`, `history_follow`).
pub open spec fn history_branch(o: App, n: App, k: KeyPress, out: AppOutcome) -> bool {
    exists|a: HistoryAction| #[trigger] history_key_effect(o.history, n.history, k.key, a) && history_follow(o, a, n, out)
}

/// What follows the environment editor's new state `ed`: while open it is
/// kept; once closed it goes, and when it was saved the variables become
/// what its rows stand for (see `collected`) and are to be written out.
pub open spec fn env_follow(o: App, ed: EnvironmentEditor, n: App, out: AppOutcome) -> bool {
    if ed.is_open {
        n == App { env_editor: Some(ed), ..o } && quiet(out)
    } else if ed.finished {
        &&& n == App { env_editor: None, env_config: n.env_config, ..o }
        &&& n.env_config.path == o.env_config.path
        &&& n.env_config.data.variables@ == collected(rows_pairs(ed.var_rows@))
        &&& out.keep_running && out.save_env && !out.save_workspace && !out.save_history && !out.send
    } else {
        n == App { env_editor: None, ..o } && quiet(out)
    }
}

/// The environment editor took the key (see `env_key_effect`, `env_follow`).
pub open spec fn env_branch(o: App, n: App, k: KeyPress, out: AppOutcome) -> bool {
    o.env_editor matches Some(ed) && exists|ed2: EnvironmentEditor| #[trigger] env_key_effect(ed, ed2, k.key) && env_follow(o, ed2, n, out)
}

/// The new item `item` went into the tree near the selection (see
/// `added`), the selection moved to it when it landed, and no request is
/// open any more: `m` is `o` then.
pub open spec fn add_step(o: App, m: App, item: Item, r: Result<Vec<usize>, &str>) -> bool {
    &&& m == App { add_item_widget: None, sidebar: m.sidebar, editing_path: None, ..o }
    &&& added(o.sidebar, m.sidebar, o.sidebar.selected_path@, item, r)
    &&& m.sidebar.clipboard == o.sidebar.clipboard
    &&& match r {
        Ok(p) => m.sidebar.selected_path == p,
        Err(_) => m.sidebar.selected_path == o.sidebar.selected_path,
    }
}

/// What follows the new-item form's new state `w`: while open it is kept;
/// once closed it goes, and the item it made, if any, is added (see
/// `add_step`), the selection followed (see `synced`), and the tree is to
/// be written out.
pub open spec fn add_follow(o: App, w: AddItemWidget, n: App, out: AppOutcome) -> bool {
    if w.is_open {
        n == App { add_item_widget: Some(w), ..o } && quiet(out)
    } else {
        match w.finished_item {
            None => n == App { add_item_widget: None, ..o } && quiet(out),
            Some(item) => {
                &&& exists|m: App, r: Result<Vec<usize>, &str>| #[trigger] add_step(o, m, item, r) && synced(m, n)
                &&& out.keep_running && out.save_workspace && !out.save_env && !out.save_history && !out.send
            },
        }
    }
}

/// The new-item form took the key (see `add_item_key_effect`, `add_follow`).
pub open spec fn add_branch(o: App, n: App, k: KeyPress, out: AppOutcome) -> bool {
    o.add_item_widget matches Some(w) && exists|w2: AddItemWidget| #[trigger] add_item_key_effect(w, w2, k.key) && add_follow(o, w2, n, out)
}

/// A quiet save (see `saved`) then the focus on `p`; the tree is to be
/// written out when the save changed it.
pub open spec fn save_then_focus<F: Fn(Vec<u8>) -> Result<JsonDoc, String>>(o: App, n: App, parse: F, p: Pane, out: AppOutcome) -> bool {
    &&& exists|m: App| #[trigger] saved(o, m, parse, false, out.save_workspace) && n == App { focus_pane: p, ..m }
    &&& out.keep_running && !out.save_env && !out.save_history && !out.send
}

/// A fresh new-item form (see `AddItemWidget::new`).
pub open spec fn fresh_form(w: AddItemWidget) -> bool {
    &&& w.kind == ItemKind::Request
    &&& w.name.text() == Seq::<char>::empty()
    &&& w.name.enabled
    &&& w.editing
    &&& w.is_open
    &&& w.finished_item is None
}

/// A fresh environment editor for `vars` (see `EnvironmentEditor::new`).
pub open spec fn fresh_env_editor(ed: EnvironmentEditor, vars: Map<Seq<char>, Seq<char>>) -> bool {
    &&& ed.is_open
    &&& !ed.finished
    &&& !ed.editing
    &&& ed.focused == EnvFocus::VarKey(0)
    &&& opening_rows(rows_pairs(ed.var_rows@), vars)
    &&& forall|i: int| 0 <= i < ed.var_rows@.len() ==> plain_row(#[trigger] ed.var_rows@[i])
}

/// What a global binding does: moving the focus away from the editor
/// first saves it quietly; `Save` saves it and says so; `NewItem`,
/// `EditEnvironment` and `OpenHistory` open those; `Send` sends (see
/// `sent`); `ToggleHelp` shows or hides the help; `Quit` stops.
pub open spec fn global_branch<F: Fn(Vec<u8>) -> Result<JsonDoc, String>>(o: App, n: App, g: GlobalAction, parse: F, out: AppOutcome) -> bool {
    match g {
        GlobalAction::NextPane => save_then_focus(o, n, parse, crate::panes::pane_after(o.focus_pane), out),
        GlobalAction::PrevPane => save_then_focus(o, n, parse, crate::panes::pane_before(o.focus_pane), out),
        GlobalAction::Focus(p) => if p == Pane::Editor {
            n == App { focus_pane: Pane::Editor, ..o } && quiet(out)
        } else {
            save_then_focus(o, n, parse, p, out)
        },
        GlobalAction::Save => {
            &&& saved(o, n, parse, true, out.save_workspace)
            &&& out.keep_running && !out.save_env && !out.save_history && !out.send
        },
        GlobalAction::NewItem => n == App { add_item_widget: n.add_item_widget, ..o } && (n.add_item_widget matches Some(w)
            && fresh_form(w)) && quiet(out),
        GlobalAction::EditEnvironment => n == App { env_editor: n.env_editor, ..o } && (n.env_editor matches Some(ed)
            && fresh_env_editor(ed, o.env_config.data.variables@)) && quiet(out),
        GlobalAction::OpenHistory => n == App { history_open: true, ..o } && quiet(out),
        GlobalAction::Send => {
            &&& sent(o, n, parse, out.send)
            &&& out.keep_running && !out.save_workspace && !out.save_env && !out.save_history
        },
        GlobalAction::ToggleHelp => {
            &&& n == App { help: n.help, ..o }
            &&& n.help.open == !o.help.open
            &&& n.help.scroll == (if n.help.open { 0 } else { o.help.scroll })
            &&& quiet(out)
        },
        GlobalAction::Quit => n == o && !out.keep_running && !out.save_workspace && !out.save_env && !out.save_history && !out.send,
    }
}

/// The sidebar took the key (see the sidebar's `key_effect`); when the
/// selection moved or `d` was pressed, the request being left is saved
/// quietly, the status line cleared, and the selection followed (see
/// `synced`); the tree is to be written out when that save changed it.
pub open spec fn sidebar_branch<F: Fn(Vec<u8>) -> Result<JsonDoc, String>>(o: App, n: App, k: KeyPress, parse: F, out: AppOutcome) -> bool {
    &&& out.keep_running && !out.save_env && !out.save_history && !out.send
    &&& exists|s1: Sidebar, changed: bool| #[trigger] sidebar_key_effect(o.sidebar, s1, k.key, changed) && {
        let m1 = App { sidebar: s1, ..o };
        if s1.selected_path@ != o.sidebar.selected_path@ || k.key == Key::Char('d') {
            exists|m2: App| #[trigger] saved(m1, m2, parse, false, out.save_workspace)
                && synced(App { save_status: None, editing_path: None, ..m2 }, n)
        } else {
            n == m1 && !out.save_workspace
        }
    }
}

/// The open request's editor took the key (see the editor's `key_effect`);
/// unless a field has just started to be typed into, it is then saved
/// quietly, and the tree is to be written out when that changed it.
pub open spec fn editor_branch<F: Fn(Vec<u8>) -> Result<JsonDoc, String>>(o: App, n: App, k: KeyPress, parse: F, out: AppOutcome) -> bool {
    match o.current_editor {
        None => n == o && quiet(out),
        Some(e) => {
            &&& out.keep_running && !out.save_env && !out.save_history && !out.send
            &&& exists|e2: RequestEditor, taken: bool| #[trigger] editor_key_effect(e, e2, k, taken) && {
                let m1 = App { current_editor: Some(e2), ..o };
                if e.editing || !e2.editing {
                    saved(m1, n, parse, false, out.save_workspace)
                } else {
                    n == m1 && !out.save_workspace
                }
            }
        },
    }
}

/// The response pane took the key (see `response_key_effect`).
pub open spec fn response_branch(o: App, n: App, k: KeyPress, out: AppOutcome) -> bool {
    &&& n == App { response_view: n.response_view, ..o }
    &&& response_key_effect(o.response_view, n.response_view, k.key)
    &&& n.response_view.pretty_cache == o.response_view.pretty_cache
    &&& n.response_view.last_error == o.response_view.last_error
    &&& quiet(out)
}

/// What a key does to the whole screen, by where it goes (see `key_route`).
pub open spec fn key_outcome<F: Fn(Vec<u8>) -> Result<JsonDoc, String>>(o: App, n: App, k: KeyPress, parse: F, out: AppOutcome) -> bool {
    match key_route(o, k) {
        KeyRoute::Help => help_branch(o, n, k, out),
        KeyRoute::History => history_branch(o, n, k, out),
        KeyRoute::EnvEditor => env_branch(o, n, k, out),
        KeyRoute::AddItem => add_branch(o, n, k, out),
        KeyRoute::Global(g) => global_branch(o, n, g, parse, out),
        KeyRoute::Pane(Pane::Sidebar) => sidebar_branch(o, n, k, parse, out),
        KeyRoute::Pane(Pane::Editor) => editor_branch(o, n, k, parse, out),
        KeyRoute::Pane(Pane::Response) => response_branch(o, n, k, out),
    }
}

impl App {
    /// Whether pasted text is taken: only while a field is being typed into,
    /// in the new-item form or in the editor when it has the focus.
    pub fn takes_paste(&self) -> (b: bool)
        ensures
            b == ((self.add_item_widget matches Some(w) && w.editing) || (self.focus_pane == Pane::Editor
                && editor_typing(*self))),
    {
        let form_typing = match &self.add_item_widget {
            Some(w) => w.is_editing(),
            None => false,
        };
        let editor_typing = match &self.current_editor {
            Some(e) => e.is_editing(),
            None => false,
        };
        form_typing || (self.focus_pane == Pane::Editor && editor_typing)
    }

    /// Where `key` goes (see `key_route`).
    pub fn route_key(&self, key: &KeyPress) -> (r: KeyRoute)
        ensures
            r == key_route(*self, *key),
    {
        if self.help.open {
            return KeyRoute::Help;
        }
        if self.history_open {
            return KeyRoute::History;
        }
        if self.env_editor.is_some() {
            return KeyRoute::EnvEditor;
        }
        if self.add_item_widget.is_some() {
            return KeyRoute::AddItem;
        }
        let typing = match &self.current_editor {
            Some(e) => e.is_editing(),
            None => false,
        };
        match global_action(key, typing, self.focus_pane) {
            Some(g) => KeyRoute::Global(g),
            None => KeyRoute::Pane(self.focus_pane),
        }
    }

    fn help_key(&mut self, key: &KeyPress) -> (out: AppOutcome)
        ensures
            help_branch(*old(self), *final(self), *key, out),
    {
        self.help.handle_event(key);
        keep_going()
    }

    fn history_key(&mut self, key: &KeyPress) -> (out: AppOutcome)
        ensures
            history_branch(*old(self), *final(self), *key, out),
    {
        let ghost o = *self;
        let a = self.history.handle_event(key);
        let ghost h = self.history;
        let mut out = keep_going();
        match a {
            HistoryAction::Stay => {},
            HistoryAction::Edited => {
                out.save_history = true;
            },
            HistoryAction::Close => {
                self.history_open = false;
            },
            HistoryAction::Restore => {
                let restored_pair = match self.history.selected_entry() {
                    Some(entry) => Some((RequestEditor::from_request(&entry.request_snapshot), entry.response.to_response())),
                    None => None,
                };
                match restored_pair {
                    Some((editor, resp)) => {
                        self.current_editor = Some(editor);
                        self.editing_path = None;
                        self.response_view.set_response(Some(&resp));
                        self.last_response = Some(resp);
                        self.history_open = false;
                        self.focus_pane = Pane::Editor;
                    },
                    None => {},
                }
            },
        }
        assert(history_key_effect(o.history, self.history, key.key, a));
        out
    }

    fn env_key(&mut self, key: &KeyPress) -> (out: AppOutcome)
        requires
            old(self).env_editor is Some,
        ensures
            env_branch(*old(self), *final(self), *key, out),
    {
        let mut ed = self.env_editor.take().unwrap();
        ed.handle_event(key);
        if ed.is_open {
            self.env_editor = Some(ed);
            return keep_going();
        }
        if ed.finished {
            self.env_config.data.variables = ed.collect();
            let mut out = keep_going();
            out.save_env = true;
            return out;
        }
        keep_going()
    }

    fn add_key(&mut self, key: &KeyPress) -> (out: AppOutcome)
        requires
            old(self).add_item_widget is Some,
        ensures
            add_branch(*old(self), *final(self), *key, out),
    {
        let ghost o = *self;
        let mut w = self.add_item_widget.take().unwrap();
        let _ = w.handle_event(key);
        if w.is_open {
            self.add_item_widget = Some(w);
            return keep_going();
        }
        match w.finished_item {
            None => keep_going(),
            Some(item) => {
                let ghost it = item;
                let near = copy_path(&self.sidebar.selected_path);
                let r = self.sidebar.add_item(near, item);
                let ghost rg = r;
                match r {
                    Ok(p) => {
                        self.sidebar.selected_path = p;
                    },
                    Err(_) => {},
                }
                self.editing_path = None;
                let ghost m = *self;
                assert(add_step(o, m, it, rg));
                self.sync_editor_with_selection();
                let mut out = keep_going();
                out.save_workspace = true;
                out
            },
        }
    }

    fn save_and_focus<F: Fn(Vec<u8>) -> Result<JsonDoc, String>>(&mut self, parse: &F, p: Pane) -> (out: AppOutcome)
        requires
            forall|b: Vec<u8>| call_requires(*parse, (b,)),
        ensures
            save_then_focus(*old(self), *final(self), *parse, p, out),
    {
        let ghost o = *self;
        let w = self.save_editor(parse, false);
        let ghost m = *self;
        self.focus_pane = p;
        assert(saved(o, m, *parse, false, w));
        assert(*self == App { focus_pane: p, ..m });
        let mut out = keep_going();
        out.save_workspace = w;
        assert(saved(o, m, *parse, false, out.save_workspace) && *self == App { focus_pane: p, ..m });
        out
    }

    fn global_key<F: Fn(Vec<u8>) -> Result<JsonDoc, String>>(&mut self, g: GlobalAction, parse: &F) -> (out: AppOutcome)
        requires
            forall|b: Vec<u8>| call_requires(*parse, (b,)),
        ensures
            global_branch(*old(self), *final(self), g, *parse, out),
    {
        match g {
            GlobalAction::NextPane => {
                let p = self.focus_pane.next();
                self.save_and_focus(parse, p)
            },
            GlobalAction::PrevPane => {
                let p = self.focus_pane.prev();
                self.save_and_focus(parse, p)
            },
            GlobalAction::Focus(p) => {
                if p == Pane::Editor {
                    self.focus_pane = Pane::Editor;
                    keep_going()
                } else {
                    self.save_and_focus(parse, p)
                }
            },
            GlobalAction::Save => {
                let w = self.save_editor(parse, true);
                let mut out = keep_going();
                out.save_workspace = w;
                out
            },
            GlobalAction::NewItem => {
                self.add_item_widget = Some(AddItemWidget::new());
                keep_going()
            },
            GlobalAction::EditEnvironment => {
                self.env_editor = Some(EnvironmentEditor::new(&self.env_config.data.variables));
                keep_going()
            },
            GlobalAction::OpenHistory => {
                self.history_open = true;
                keep_going()
            },
            GlobalAction::Send => {
                let send = self.send_current_request(parse);
                let mut out = keep_going();
                out.send = send;
                out
            },
            GlobalAction::ToggleHelp => {
                self.help.toggle();
                keep_going()
            },
            GlobalAction::Quit => {
                let mut out = keep_going();
                out.keep_running = false;
                out
            },
        }
    }

    fn sidebar_key<F: Fn(Vec<u8>) -> Result<JsonDoc, String>>(&mut self, key: &KeyPress, parse: &F) -> (out: AppOutcome)
        requires
            forall|b: Vec<u8>| call_requires(*parse, (b,)),
        ensures
            sidebar_branch(*old(self), *final(self), *key, *parse, out),
    {
        let ghost o = *self;
        let prev = copy_path(&self.sidebar.selected_path);
        let is_delete = key.key == Key::Char('d');
        let changed = self.sidebar.handle_event(key);
        let ghost m1 = *self;
        let mut out = keep_going();
        if !same_path(&self.sidebar.selected_path, &prev) || is_delete {
            let w = self.save_editor(parse, false);
            let ghost m2 = *self;
            self.save_status = None;
            self.editing_path = None;
            let ghost m3 = *self;
            self.sync_editor_with_selection();
            out.save_workspace = w;
            assert(m3 == App { save_status: None, editing_path: None, ..m2 });
            assert(saved(m1, m2, *parse, false, out.save_workspace) && synced(App { save_status: None, editing_path: None, ..m2 }, *self));
        } else {
            assert(*self == m1);
        }
        assert(m1 == App { sidebar: m1.sidebar, ..o });
        assert(sidebar_key_effect(o.sidebar, m1.sidebar, key.key, changed));
        out
    }

    fn editor_key<F: Fn(Vec<u8>) -> Result<JsonDoc, String>>(&mut self, key: &KeyPress, parse: &F) -> (out: AppOutcome)
        requires
            forall|b: Vec<u8>| call_requires(*parse, (b,)),
        ensures
            editor_branch(*old(self), *final(self), *key, *parse, out),
    {
        if self.current_editor.is_none() {
            return keep_going();
        }
        let ghost o = *self;
        let mut e = self.current_editor.take().unwrap();
        let ghost e0 = e;
        let was = e.is_editing();
        let taken = e.handle_event(key);
        let now = e.is_editing();
        let ghost e2 = e;
        self.current_editor = Some(e);
        let mut out = keep_going();
        if was || !now {
            out.save_workspace = self.save_editor(parse, false);
        }
        assert(editor_key_effect(e0, e2, *key, taken));
        out
    }

    fn response_key(&mut self, key: &KeyPress) -> (out: AppOutcome)
        ensures
            response_branch(*old(self), *final(self), *key, out),
    {
        self.response_view.handle_event(key);
        keep_going()
    }

    /// Acts on a key press (see `key_outcome`) and tells the caller what is
    /// left to do. `parse` reads JSON text (the request's JSON body, its
    /// capture template, a response body) into a document.
    pub fn handle_events<F: Fn(Vec<u8>) -> Result<JsonDoc, String>>(&mut self, key: &KeyPress, parse: &F) -> (out: AppOutcome)
        requires
            forall|b: Vec<u8>| call_requires(*parse, (b,)),
        ensures
            key_outcome(*old(self), *final(self), *key, *parse, out),
    {
        match self.route_key(key) {
            KeyRoute::Help => self.help_key(key),
            KeyRoute::History => self.history_key(key),
            KeyRoute::EnvEditor => self.env_key(key),
            KeyRoute::AddItem => self.add_key(key),
            KeyRoute::Global(g) => self.global_key(g, parse),
            KeyRoute::Pane(Pane::Sidebar) => self.sidebar_key(key, parse),
            KeyRoute::Pane(Pane::Editor) => self.editor_key(key, parse),
            KeyRoute::Pane(Pane::Response) => self.response_key(key),
        }
    }
}

} // verus!
