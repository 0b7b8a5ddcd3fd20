use std::collections::VecDeque;
use std::path::PathBuf;

use lazypost::app_state::{default_items, App, KeyRoute};
use lazypost::config::{EnvConfig, EnvFile};
use lazypost::env_editor::{EnvironmentEditor, KvRow};
use lazypost::highlight::highlight_json;
use lazypost::history::{History, ResponseSummary};
use lazypost::http::{build_url_var_map, finish_response, is_valid_url_var_name, stringify_error, substitute_url_vars};
use lazypost::editor::{RequestEditor, Tab};
use lazypost::items::{Auth, ConfigFolder, Item, OAuth2Grant, QueryParam, Request, RequestBody, RequestType};
use lazypost::json::JsonDoc;
use lazypost::keys::{Key, KeyPress};
use lazypost::oauth::{cache_key, CachedToken};
use lazypost::panes::{Pane, GlobalAction};
use lazypost::sidebar::Sidebar;
use lazypost::strmap::StrMap;
use lazypost::tree::{insert_after, remove_from_items, replace_request_at};

fn ch(c: char) -> KeyPress {
    KeyPress { key: Key::Char(c), ctrl: false, alt: false, shift: false }
}

fn special(k: Key) -> KeyPress {
    KeyPress { key: k, ctrl: false, alt: false, shift: false }
}

fn vars(pairs: &[(&str, &str)]) -> StrMap {
    let mut m = StrMap::new();
    for (k, v) in pairs {
        m.insert((*k).to_string(), (*v).to_string());
    }
    m
}

fn req(name: &str) -> Item {
    Item::Request(Request {
        name: name.to_string(),
        request_type: RequestType::Get,
        url: String::new(),
        headers: None,
        body: None,
        auth: None,
        params: None,
        url_vars: None,
        capture: None,
    })
}

fn name_of(it: &Item) -> String {
    match it {
        Item::Request(r) => r.name.clone(),
        Item::Folder(f) => f.name.clone(),
    }
}

fn no_json(_b: Vec<u8>) -> Result<JsonDoc, String> {
    Err("not parsed here".to_string())
}

fn fresh_app() -> App {
    let env = EnvConfig { data: EnvFile { variables: vars(&[("host", "example.com")]) }, path: PathBuf::from("env.json") };
    let history = History::new(VecDeque::new(), PathBuf::from("history.json"));
    App::new(env, history)
}

#[test]
fn env_editor_saves_back_what_it_opened() {
    let v = vars(&[("b", "2"), ("a", "1")]);
    let ed = EnvironmentEditor::new(&v);
    assert_eq!(ed.var_rows.len(), 2);
    assert_eq!(ed.var_rows[0].key.value(), "a");
    assert_eq!(ed.var_rows[1].key.value(), "b");
    let back = ed.collect();
    assert_eq!(back.len(), 2);
    assert_eq!(back.get(&"a".to_string()).cloned(), Some("1".to_string()));
    assert_eq!(back.get(&"b".to_string()).cloned(), Some("2".to_string()));
}

#[test]
fn env_editor_without_variables_opens_one_blank_row() {
    let ed = EnvironmentEditor::new(&StrMap::new());
    assert_eq!(ed.var_rows.len(), 1);
    assert_eq!(ed.var_rows[0].key.value(), "");
    assert_eq!(ed.collect().len(), 0);
}

#[test]
fn env_editor_add_delete_and_save() {
    let mut ed = EnvironmentEditor::new(&vars(&[("a", "1")]));
    ed.handle_event(&ch('a'));
    assert_eq!(ed.var_rows.len(), 2);
    ed.handle_event(&ch('d'));
    assert_eq!(ed.var_rows.len(), 1);
    ed.handle_event(&ch('d'));
    assert_eq!(ed.var_rows.len(), 1);
    ed.handle_event(&special(Key::Enter));
    assert!(ed.finished);
    assert!(!ed.is_open);
}

#[test]
fn env_editor_typing_edits_the_focused_value() {
    let mut ed = EnvironmentEditor::new(&vars(&[("a", "1")]));
    ed.handle_event(&ch('l'));
    ed.handle_event(&ch('e'));
    ed.handle_event(&ch('2'));
    ed.handle_event(&special(Key::Esc));
    assert!(!ed.editing);
    assert_eq!(ed.collect().get(&"a".to_string()).cloned(), Some("12".to_string()));
}

#[test]
fn kv_row_from_pair_holds_the_pair() {
    let r = KvRow::from_pair("k", "v", false);
    assert_eq!(r.key.value(), "k");
    assert_eq!(r.value.value(), "v");
    assert!(!r.enabled);
}

#[test]
fn sample_tree_has_five_requests_and_a_folder() {
    let items = default_items();
    assert_eq!(items.len(), 6);
    assert_eq!(name_of(&items[0]), "Get Users");
    assert_eq!(name_of(&items[5]), "User Actions");
}

#[test]
fn app_routes_and_global_keys() {
    let mut app = fresh_app();
    assert_eq!(app.focus_pane, Pane::Sidebar);
    assert_eq!(app.route_key(&ch('2')), KeyRoute::Global(GlobalAction::Focus(Pane::Editor)));
    let out = app.handle_events(&ch('2'), &no_json);
    assert!(out.keep_running);
    assert_eq!(app.focus_pane, Pane::Editor);
    app.handle_events(&ch('?'), &no_json);
    assert!(app.help.open);
    assert_eq!(app.route_key(&ch('q')), KeyRoute::Help);
    app.handle_events(&ch('q'), &no_json);
    assert!(!app.help.open);
    let out = app.handle_events(&ch('q'), &no_json);
    assert!(!out.keep_running);
}

#[test]
fn app_env_editor_saves_variables() {
    let mut app = fresh_app();
    app.handle_events(&ch('E'), &no_json);
    assert!(app.env_editor.is_some());
    app.handle_events(&ch('a'), &no_json);
    app.handle_events(&ch('e'), &no_json);
    app.handle_events(&ch('k'), &no_json);
    app.handle_events(&special(Key::Esc), &no_json);
    let out = app.handle_events(&special(Key::Enter), &no_json);
    assert!(out.save_env);
    assert!(app.env_editor.is_none());
    assert_eq!(app.env_config.data.variables.len(), 2);
}

#[test]
fn app_new_item_lands_in_tree() {
    let mut app = fresh_app();
    app.handle_events(&ch('n'), &no_json);
    assert!(app.add_item_widget.is_some());
    app.handle_events(&ch('X'), &no_json);
    let out = app.handle_events(&special(Key::Enter), &no_json);
    assert!(out.save_workspace);
    assert!(app.add_item_widget.is_none());
    assert_eq!(app.sidebar.items.len(), 7);
    assert_eq!(name_of(&app.sidebar.items[1]), "X");
}

#[test]
fn app_selecting_a_request_opens_it() {
    let mut app = fresh_app();
    app.sync_editor_with_selection();
    assert!(app.current_editor.is_some());
    app.handle_events(&ch('j'), &no_json);
    let e = app.current_editor.as_ref().unwrap();
    assert_eq!(e.name_input.value(), "Create User");
    assert_eq!(app.editing_path.as_ref().unwrap(), &vec![1usize]);
}

#[test]
fn app_send_without_json_body_sends() {
    let mut app = fresh_app();
    app.sync_editor_with_selection();
    let out = app.handle_events(&ch('s'), &no_json);
    assert!(out.send);
    assert!(app.in_flight);
    assert_eq!(app.last_sent_request.as_ref().unwrap().name, "Get Users");
    let again = app.handle_events(&ch('s'), &no_json);
    assert!(!again.send);
}

#[test]
fn tree_insert_then_remove_restores() {
    let mut items = vec![req("a"), req("b")];
    let p = insert_after(&mut items, &[0], req("new")).unwrap();
    assert_eq!(p, vec![1]);
    assert_eq!(name_of(&items[1]), "new");
    let taken = remove_from_items(&mut items, &p).unwrap();
    assert_eq!(name_of(&taken), "new");
    assert_eq!(items.len(), 2);
    assert_eq!(name_of(&items[1]), "b");
}

#[test]
fn replace_request_errors_name_the_fault() {
    let mut items = vec![Item::Folder(ConfigFolder { name: "f".to_string(), items: vec![] }), req("r")];
    let x = || match req("x") {
        Item::Request(r) => r,
        _ => unreachable!(),
    };
    assert_eq!(replace_request_at(&mut items, &[], x()), Err("empty path"));
    assert_eq!(replace_request_at(&mut items, &[0], x()), Err("path does not point to a request"));
    assert_eq!(replace_request_at(&mut items, &[1, 0], x()), Err("path points into a non-folder"));
    assert_eq!(replace_request_at(&mut items, &[1], x()), Ok(()));
    assert_eq!(name_of(&items[1]), "x");
}

#[test]
fn sidebar_down_then_up_returns() {
    let mut s = Sidebar::new(vec![req("a"), req("b"), req("c")]);
    assert_eq!(s.selected_path, vec![0]);
    s.select_next();
    assert_eq!(s.selected_path, vec![1]);
    s.select_prev();
    assert_eq!(s.selected_path, vec![0]);
}

#[test]
fn highlight_keeps_the_text() {
    let input = "{\"a\": [1, true, null],\n \"b\": \"x\"}";
    let lines = highlight_json(input);
    let rebuilt: Vec<String> = lines.iter().map(|l| l.iter().map(|s| s.text.clone()).collect::<String>()).collect();
    assert_eq!(rebuilt.join("\n"), input);
}

#[test]
fn summary_round_trip_keeps_a_small_response() {
    let r = finish_response(200, vec![("content-type".to_string(), b"application/json".to_vec())], b"{}".to_vec(), 7);
    assert_eq!(r.status_text, "OK");
    assert_eq!(r.content_type.as_deref(), Some("application/json"));
    let back = ResponseSummary::from_response(&r).to_response();
    assert_eq!(back.status, 200);
    assert_eq!(back.status_text, "OK");
    assert_eq!(back.body, b"{}".to_vec());
    assert_eq!(back.elapsed_ms, 7);
    assert_eq!(back.headers, r.headers);
}

#[test]
fn header_value_that_is_not_visible_ascii_reads_empty() {
    let r = finish_response(404, vec![("x-bin".to_string(), vec![0xff, 0x01])], vec![], 0);
    assert_eq!(r.status_text, "Not Found");
    assert_eq!(r.headers, vec![("x-bin".to_string(), String::new())]);
}

#[test]
fn pane_cycle_comes_back() {
    assert_eq!(Pane::Sidebar.next().next().next(), Pane::Sidebar);
    assert_eq!(Pane::Sidebar.prev(), Pane::Response);
    assert_eq!(Pane::Editor.next().prev(), Pane::Editor);
}

#[test]
fn url_vars_are_percent_encoded() {
    let rows = Some(vec![QueryParam { key: "id".to_string(), value: "a b/c".to_string(), enabled: true }]);
    let map = build_url_var_map(&rows, &StrMap::new()).unwrap();
    assert_eq!(substitute_url_vars("http://h/<id>/x", &map).unwrap(), "http://h/a%20b%2Fc/x");
    assert_eq!(substitute_url_vars("http://h/< id >", &map).unwrap(), "http://h/a%20b%2Fc");
    assert!(substitute_url_vars("http://h/<missing>", &map).unwrap_err().contains("missing url vars"));
    assert!(is_valid_url_var_name("user_id"));
    assert!(!is_valid_url_var_name("has space"));
}

#[test]
fn url_var_with_bad_name_is_refused() {
    let rows = Some(vec![QueryParam { key: "has space".to_string(), value: "v".to_string(), enabled: true }]);
    let err = match build_url_var_map(&rows, &StrMap::new()) {
        Err(e) => e.message(),
        Ok(_) => panic!("a bad name must be refused"),
    };
    assert!(err.contains("is invalid"), "got: {err}");
}

#[test]
fn error_chain_drops_repeated_causes() {
    let chain = vec!["outer".to_string(), "inner".to_string(), "inner".to_string(), "root".to_string()];
    assert_eq!(stringify_error(&chain), "outer: inner: root");
}

#[test]
fn token_cache_key_and_expiry() {
    assert_eq!(cache_key("https://t", "cid", OAuth2Grant::ClientCredentials), "cc|cid|https://t");
    assert_eq!(cache_key("https://t", "cid", OAuth2Grant::RefreshToken), "rt|cid|https://t");
    let t = CachedToken { access_token: "a".to_string(), expires_at: Some(100_000) };
    assert!(t.still_valid_at(69_999));
    assert!(!t.still_valid_at(70_000));
    let forever = CachedToken { access_token: "a".to_string(), expires_at: None };
    assert!(forever.still_valid_at(u64::MAX));
}

#[test]
fn reopened_request_reads_back() {
    let req = Request {
        name: "Get user".to_string(),
        request_type: RequestType::Post,
        url: "http://x/<id>".to_string(),
        headers: Some(vars(&[("Accept", "json")])),
        body: Some(RequestBody::Raw("hello".to_string())),
        auth: Some(Auth::Bearer { token: "t".to_string() }),
        params: Some(vec![QueryParam { key: "q".to_string(), value: "1".to_string(), enabled: false }]),
        url_vars: None,
        capture: Some("{\"a\":\"%x%\"}".to_string()),
    };
    let mut e = RequestEditor::from_request(&req);
    let back = e.to_request(None).unwrap();
    assert_eq!(back.name, "Get user");
    assert_eq!(back.request_type, RequestType::Post);
    assert_eq!(back.url, "http://x/<id>");
    assert_eq!(back.headers.as_ref().unwrap().get(&"Accept".to_string()).cloned(), Some("json".to_string()));
    assert!(matches!(back.body, Some(RequestBody::Raw(ref s)) if s == "hello"));
    assert!(matches!(back.auth, Some(Auth::Bearer { ref token }) if token == "t"));
    let ps = back.params.unwrap();
    assert_eq!(ps.len(), 1);
    assert_eq!((ps[0].key.as_str(), ps[0].value.as_str(), ps[0].enabled), ("q", "1", false));
    assert!(back.url_vars.is_none());
    assert_eq!(back.capture.as_deref(), Some("{\"a\":\"%x%\"}"));
}

#[test]
fn blank_name_reads_back_as_unnamed() {
    let req = match req("") {
        Item::Request(r) => r,
        _ => unreachable!(),
    };
    let mut e = RequestEditor::from_request(&req);
    assert_eq!(e.to_request(None).unwrap().name, "Unnamed");
}

#[test]
fn tab_cycle_comes_back() {
    assert_eq!(Tab::Info.next().prev(), Tab::Info);
    assert_eq!(Tab::Capture.next(), Tab::Info);
    assert_eq!(Tab::Info.prev(), Tab::Capture);
}

#[test]
fn folder_toggled_twice_is_as_before() {
    let folder = Item::Folder(ConfigFolder { name: "f".to_string(), items: vec![req("inner")] });
    let mut s = Sidebar::new(vec![folder, req("b")]);
    let before = s.open_folders.clone();
    s.toggle_selected();
    assert_ne!(s.open_folders, before);
    s.select_next();
    assert_eq!(s.selected_path, vec![0, 0]);
    s.select_prev();
    s.toggle_selected();
    assert_eq!(s.open_folders, before);
}

#[test]
fn paste_is_taken_only_while_typing() {
    let mut app = fresh_app();
    assert!(!app.takes_paste());
    app.handle_events(&ch('n'), &no_json);
    assert!(app.takes_paste());
    app.handle_events(&special(Key::Esc), &no_json);
    assert!(!app.takes_paste());
}
