use std::collections::VecDeque;
use std::path::PathBuf;

use lazypost::history::{History, INLINE_BODY_CAP};
use lazypost::http::{finish_response, prepare_head, HttpError};
use lazypost::items::{Auth, ConfigFolder, Item, OAuth2Config, OAuth2Grant, Request, RequestType};
use lazypost::oauth::{token_credentials, token_form, token_from_response};
use lazypost::panes::{ResponseTab, ResponseView};
use lazypost::strmap::StrMap;
use lazypost::tree::{insert_after, insert_into_folder, remove_from_items};
use lazypost::widgets::BodyEditor;

fn request(name: &str, url: &str) -> Request {
    Request {
        name: name.to_string(),
        request_type: RequestType::Get,
        url: url.to_string(),
        headers: None,
        body: None,
        auth: None,
        params: None,
        url_vars: None,
        capture: None,
    }
}

fn oauth(grant: OAuth2Grant, id: &str, url: &str, refresh: Option<&str>) -> OAuth2Config {
    OAuth2Config {
        grant,
        client_id: id.to_string(),
        client_secret: "s".to_string(),
        token_url: url.to_string(),
        scopes: vec!["read".to_string(), "write".to_string()],
        refresh_token: refresh.map(|r| r.to_string()),
        access_token: None,
    }
}

#[test]
fn http_error_messages_name_their_stage() {
    assert_eq!(HttpError::Build("x".to_string()).message(), "build error: x");
    assert_eq!(HttpError::Send("y".to_string()).message(), "send error: y");
    assert_eq!(HttpError::Body("z".to_string()).message(), "body error: z");
}

#[test]
fn empty_url_is_refused() {
    let err = match prepare_head(&request("r", "   "), &StrMap::new()) {
        Err(e) => e.message(),
        Ok(_) => panic!("an empty URL must be refused"),
    };
    assert_eq!(err, "build error: URL is empty");
}

#[test]
fn url_without_scheme_is_refused() {
    let err = match prepare_head(&request("r", "example.com"), &StrMap::new()) {
        Err(e) => e.message(),
        Ok(_) => panic!("a URL without a scheme must be refused"),
    };
    assert!(err.contains("URL must start with http:// or https://"), "got: {err}");
}

#[test]
fn bearer_auth_becomes_a_header() {
    let mut r = request("r", " https://h/x ");
    r.auth = Some(Auth::Bearer { token: "abc".to_string() });
    let head = match prepare_head(&r, &StrMap::new()) {
        Ok(h) => h,
        Err(e) => panic!("{}", e.message()),
    };
    assert_eq!(head.url, "https://h/x");
    assert!(head.headers.iter().any(|h| h.name == "authorization" && h.value == "Bearer abc"));
}

#[test]
fn tree_errors_name_the_fault() {
    let mut items = vec![Item::Folder(ConfigFolder { name: "f".to_string(), items: vec![] }), Item::Request(request("r", ""))];
    assert!(matches!(remove_from_items(&mut items, &[]), Err("Path is empty")));
    assert!(matches!(remove_from_items(&mut items, &[7]), Err("Path out of bounds")));
    assert!(matches!(remove_from_items(&mut items, &[1, 0]), Err("Path out of bounds")));
    assert_eq!(insert_into_folder(&mut items, &[1], Item::Request(request("n", ""))), Err("path does not point to a folder"));
    assert_eq!(insert_into_folder(&mut items, &[0], Item::Request(request("n", ""))), Ok(vec![0, 0]));
    assert_eq!(insert_after(&mut items, &[1, 0, 0], Item::Request(request("m", ""))), Err("path points into a non-folder"));
}

#[test]
fn oauth_credentials_check_their_fields() {
    let vars = StrMap::new();
    let e = token_credentials(&oauth(OAuth2Grant::ClientCredentials, "id", " ", None), &vars).err().unwrap();
    assert_eq!(e.message(), "OAuth2 token_url is empty");
    let e = token_credentials(&oauth(OAuth2Grant::ClientCredentials, " ", "https://t", None), &vars).err().unwrap();
    assert_eq!(e.message(), "OAuth2 client_id is empty");
    let e = token_credentials(&oauth(OAuth2Grant::ClientCredentials, "{{missing}}", "https://t", None), &vars).err().unwrap();
    assert!(e.message().starts_with("client_id: "), "got: {}", e.message());
    let c = token_credentials(&oauth(OAuth2Grant::ClientCredentials, "id", "https://t", None), &vars).ok().unwrap();
    assert_eq!(c.scope, "read write");
    assert_eq!(c.key, "cc|id|https://t");
}

#[test]
fn oauth_form_for_each_grant() {
    let vars = StrMap::new();
    let f = token_form(&oauth(OAuth2Grant::ClientCredentials, "id", "https://t", None), &vars, "read").ok().unwrap();
    assert_eq!(f, vec![("grant_type".to_string(), "client_credentials".to_string()), ("scope".to_string(), "read".to_string())]);
    let e = token_form(&oauth(OAuth2Grant::RefreshToken, "id", "https://t", None), &vars, "").err().unwrap();
    assert_eq!(e.message(), "OAuth2 refresh_token is empty for refresh_token grant");
    let f = token_form(&oauth(OAuth2Grant::RefreshToken, "id", "https://t", Some("rt1")), &vars, "").ok().unwrap();
    assert_eq!(f, vec![("grant_type".to_string(), "refresh_token".to_string()), ("refresh_token".to_string(), "rt1".to_string())]);
}

#[test]
fn token_endpoint_answers() {
    let e = token_from_response(false, "401 Unauthorized", "nope", Err("unused".to_string())).err().unwrap();
    assert_eq!(e.message(), "token endpoint 401 Unauthorized: nope");
    let e = token_from_response(true, "200 OK", "{}", Err("missing field".to_string())).err().unwrap();
    assert_eq!(e.message(), "parse token response: missing field (body: {})");
    let t = token_from_response(true, "200 OK", "{}", Ok(("tok".to_string(), Some(60)))).ok().unwrap();
    assert_eq!(t, ("tok".to_string(), Some(60)));
}

#[test]
fn json_response_is_shown_indented() {
    let r = finish_response(200, vec![("Content-Type".to_string(), b"application/json".to_vec())], b"{\"a\":1}".to_vec(), 3);
    let mut v = ResponseView::new();
    v.set_response(Some(&r));
    assert_eq!(v.pretty_cache.as_deref(), Some("{\n  \"a\": 1\n}"));
    assert_eq!(v.sub_tab, ResponseTab::Body);
    let plain = finish_response(200, vec![], b"{\"a\":1}".to_vec(), 3);
    v.set_response(Some(&plain));
    assert!(v.pretty_cache.is_none());
    v.set_error(&HttpError::Send("refused".to_string()));
    assert_eq!(v.last_error.as_deref(), Some("send error: refused"));
}

#[test]
fn body_editor_cursor_starts_at_the_top() {
    let mut e = BodyEditor::new();
    e.set_text("ab\ncd");
    assert_eq!(e.cursor(), (0, 0));
    assert_eq!(e.lines(), vec!["ab".to_string(), "cd".to_string()]);
}

#[test]
fn history_records_newest_first_and_truncates_large_bodies() {
    let mut h = History::new(VecDeque::new(), PathBuf::from("history.json"));
    let small = finish_response(200, vec![], b"ok".to_vec(), 1);
    h.push(request("first", "http://a"), &small);
    let big = finish_response(200, vec![], vec![b'x'; INLINE_BODY_CAP + 10], 2);
    h.push(request("second", "http://b"), &big);
    assert_eq!(h.entries.len(), 2);
    assert_eq!(h.selected, 0);
    assert_eq!(h.entries[0].request_snapshot.name, "second");
    assert_eq!(h.entries[0].response.byte_size, INLINE_BODY_CAP + 10);
    assert_eq!(h.entries[0].response.body.len(), INLINE_BODY_CAP);
    assert_eq!(h.entries[1].request_snapshot.name, "first");
    assert_ne!(h.entries[0].id, h.entries[1].id);
}

#[test]
fn history_cap_drops_the_oldest() {
    let mut h = History::new(VecDeque::new(), PathBuf::from("history.json"));
    h.cap = 2;
    let r = finish_response(204, vec![], vec![], 0);
    h.push(request("a", "http://a"), &r);
    h.push(request("b", "http://b"), &r);
    h.push(request("c", "http://c"), &r);
    assert_eq!(h.entries.len(), 2);
    assert_eq!(h.entries[0].request_snapshot.name, "c");
    assert_eq!(h.entries[1].request_snapshot.name, "b");
}

fn build_text(r: Result<lazypost::http::RequestHead, HttpError>) -> String {
    match r {
        Err(HttpError::Build(m)) => m,
        Err(_) => panic!("not a build error"),
        Ok(_) => panic!("expected an error"),
    }
}

#[test]
fn bad_header_name_and_value_use_http_errors() {
    let mut r = request("r", "http://example.com");
    let mut h = StrMap::new();
    h.insert("bad name".to_string(), "v".to_string());
    r.headers = Some(h);
    assert_eq!(build_text(prepare_head(&r, &StrMap::new())), "bad header name bad name: invalid HTTP header name");
    let mut h2 = StrMap::new();
    h2.insert("X-Ok".to_string(), "a\nb".to_string());
    r.headers = Some(h2);
    assert_eq!(build_text(prepare_head(&r, &StrMap::new())), "bad header value: failed to parse header value");
    let mut h3 = StrMap::new();
    h3.insert("X-Ok".to_string(), "fine".to_string());
    r.headers = Some(h3);
    assert!(prepare_head(&r, &StrMap::new()).is_ok());
}

#[test]
fn bad_bearer_token_is_refused() {
    let mut r = request("r", "http://example.com");
    r.auth = Some(Auth::Bearer { token: "a\u{1}b".to_string() });
    assert_eq!(build_text(prepare_head(&r, &StrMap::new())), "bad bearer token: failed to parse header value");
}

fn json_body(text: &str) -> Option<lazypost::items::RequestBody> {
    Some(lazypost::items::RequestBody::Json(lazypost::json::JsonDoc {
        value: lazypost::json::JsonValue { node: lazypost::json::JsonNode::Str(String::new()), text: text.to_string() },
        pretty: text.to_string(),
    }))
}

#[test]
fn json_body_that_stops_being_json_is_refused() {
    let mut vars = StrMap::new();
    vars.insert("x".to_string(), "not json".to_string());
    match lazypost::http::prepare_body(&json_body("{\"a\":{{x}}}"), &vars) {
        Err(HttpError::Build(m)) => assert!(m.starts_with("json reparse: "), "{m}"),
        _ => panic!("expected a build error"),
    }
    vars.insert("x".to_string(), "1".to_string());
    match lazypost::http::prepare_body(&json_body("{\"a\":{{x}}}"), &vars) {
        Ok(lazypost::http::PreparedBody::Json(s)) => assert_eq!(s, "{\"a\":1}"),
        _ => panic!("expected a JSON body"),
    }
}

fn file_field(mime: &str) -> Option<lazypost::items::RequestBody> {
    Some(lazypost::items::RequestBody::Multipart(vec![lazypost::items::FormField {
        key: "f".to_string(),
        value: lazypost::items::FormValue::File(lazypost::items::FileRef {
            path: "a.txt".to_string(),
            mime_type: Some(mime.to_string()),
        }),
    }]))
}

#[test]
fn mime_type_is_checked_by_reqwest() {
    match lazypost::http::prepare_body(&file_field("not a mime"), &StrMap::new()) {
        Ok(lazypost::http::PreparedBody::Multipart(plan)) => {
            assert_eq!(plan.steps.len(), 1);
            match &plan.steps[0] {
                lazypost::http::PartStep::File { mime: lazypost::http::MimePlan::Fail(HttpError::Build(m)), .. } => {
                    assert!(m.starts_with("bad mime: "), "{m}")
                }
                _ => panic!("expected a failed MIME type"),
            }
        }
        _ => panic!("expected a multipart plan"),
    }
    match lazypost::http::prepare_body(&file_field("text/plain"), &StrMap::new()) {
        Ok(lazypost::http::PreparedBody::Multipart(plan)) => match &plan.steps[0] {
            lazypost::http::PartStep::File { mime: lazypost::http::MimePlan::Given(m), .. } => assert_eq!(m, "text/plain"),
            _ => panic!("expected the MIME type"),
        },
        _ => panic!("expected a multipart plan"),
    }
}
