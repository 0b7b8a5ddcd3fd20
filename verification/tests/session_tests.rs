use lazypost::clock::reading_millis;
use lazypost::editor::{FocusId, RequestEditor, Tab};
use lazypost::config::env_path_for_cwd;
use lazypost::history::reading_timestamp;
use lazypost::items::{Item, Request, RequestType};
use lazypost::keys::{Key, KeyPress};
use lazypost::oauth::{token_entry, TokenCache};
use lazypost::sidebar::Sidebar;

fn req(name: &str) -> Item {
    Item::Request(Request {
        name: name.to_string(),
        request_type: RequestType::Get,
        url: String::new(),
        headers: None,
        body: None,
        auth: None,
        params: None,
        url_vars: None,
        capture: None,
    })
}

fn press(k: Key) -> KeyPress {
    KeyPress { key: k, ctrl: false, alt: false, shift: false }
}

#[test]
fn env_path_mirrors_working_directory() {
    let s = |x: &str| Some(x.to_string());
    assert_eq!(env_path_for_cwd(s("/home/u"), s("/work/proj")), "/home/u/lazypost/env/work/proj/env.json");
    assert_eq!(env_path_for_cwd(s("/root/"), s("/x")), "/root/lazypost/env/x/env.json");
    assert_eq!(env_path_for_cwd(s("/h"), s("/")), "/h/lazypost/env/env.json");
}

#[test]
fn env_path_falls_back_to_local_file() {
    assert_eq!(env_path_for_cwd(None, Some("/work/proj".to_string())), "./env.json");
    assert_eq!(env_path_for_cwd(Some("/home/u".to_string()), None), "./env.json");
    assert_eq!(env_path_for_cwd(None, None), "./env.json");
}

#[test]
fn clock_readings_convert() {
    assert_eq!(reading_millis(Some((2, 500_000_000))), 2500);
    assert_eq!(reading_millis(None), 0);
    let t = reading_timestamp(Some((7, 9)));
    assert_eq!((t.secs, t.nanos), (7, 9));
    let before = reading_timestamp(None);
    assert_eq!((before.secs, before.nanos), (0, 0));
    let far = reading_timestamp(Some((u64::MAX, 0)));
    assert_eq!(far.secs, i64::MAX);
}

#[test]
fn token_cache_reuses_until_expiry() {
    let mut c = TokenCache::new();
    assert_eq!(c.fresh_token("k", 0), None);
    c.insert("k".to_string(), token_entry("tok".to_string(), Some(60), 1_000));
    assert_eq!(c.fresh_token("k", 1_000), Some("tok".to_string()));
    assert_eq!(c.fresh_token("k", 31_000), None);
    assert_eq!(c.fresh_token("other", 1_000), None);
    c.insert("k".to_string(), token_entry("new".to_string(), None, 0));
    assert_eq!(c.fresh_token("k", u64::MAX), Some("new".to_string()));
    assert_eq!(c.entries.len(), 1);
}

#[test]
fn token_entry_expiry_saturates() {
    let t = token_entry("t".to_string(), Some(u64::MAX), 5);
    assert_eq!(t.expires_at, Some(u64::MAX));
    let t2 = token_entry("t".to_string(), Some(2), 5);
    assert_eq!(t2.expires_at, Some(2005));
}

#[test]
fn deleting_the_last_item_empties_the_selection() {
    let mut s = Sidebar::new(vec![req("a")]);
    assert_eq!(s.selected_path, vec![0]);
    assert!(s.handle_event(&press(Key::Char('d'))));
    assert!(s.items.is_empty());
    assert!(s.selected_path.is_empty());
}

#[test]
fn deleting_keeps_selection_on_an_item() {
    let mut s = Sidebar::new(vec![req("a"), req("b")]);
    s.select_next();
    assert!(s.handle_event(&press(Key::Char('d'))));
    assert_eq!(s.selected_path, vec![0]);
    assert!(s.item_at(&s.selected_path).is_some());
}

#[test]
fn typing_reaches_the_focused_field() {
    let mut e = RequestEditor::new();
    e.focused = Some(FocusId::NameInput);
    assert!(e.handle_event(&press(Key::Char('e'))));
    assert!(e.editing);
    assert!(e.name_input.is_enabled());
    assert!(!e.url_input.is_enabled());
    assert!(e.handle_event(&press(Key::Char('a'))));
    assert!(e.handle_event(&press(Key::Char('b'))));
    assert_eq!(e.name_input.value(), "ab");
    assert!(e.handle_event(&press(Key::Esc)));
    assert!(!e.editing);
    assert!(!e.name_input.is_enabled());
    assert_eq!(e.name_input.value(), "ab");
}

#[test]
fn last_param_row_is_never_deleted() {
    let mut e = RequestEditor::new();
    e.tab = Tab::Params;
    e.focused = Some(FocusId::ParamKey(0));
    e.handle_event(&press(Key::Char('d')));
    assert_eq!(e.param_rows.len(), 1);
}
