use vstd::prelude::*;
use crate::editor::{rows_nonempty, AuthKind, BodyKind, MultipartRow, ParamRow, RequestEditor, Tab, mode_for};
use crate::items::{
    ApiKeyLocation, Auth, FileRef, FormField, FormValue, OAuth2Config, OAuth2Grant, QueryParam, Request,
    RequestBody, RequestType,
};
use crate::json::JsonDoc;
use crate::placeholder::{is_ws, is_ws_char, trim_chars, trimmed};
use crate::strmap::StrMap;
use crate::text::{from_chars, join, join_chars, push_str, to_chars, views};
use crate::widgets::{BodyEditor, EditorMode, TextInput};

verus! {

/// The words of `s` from `i` on, `cur` being the word begun so far: the
/// runs of characters between whitespace (`str::split_whitespace`).
pub open spec fn words_from(s: Seq<char>, i: int, cur: Seq<char>) -> Seq<Seq<char>>
    decreases s.len() - i,
{
    if i < 0 || i >= s.len() {
        if cur.len() > 0 { seq![cur] } else { Seq::empty() }
    } else if is_ws(s[i]) {
        (if cur.len() > 0 { seq![cur] } else { Seq::empty() }) + words_from(s, i + 1, Seq::empty())
    } else {
        words_from(s, i + 1, cur.push(s[i]))
    }
}

/// The whitespace-separated words of `s`.
pub open spec fn words(s: Seq<char>) -> Seq<Seq<char>> {
    words_from(s, 0, Seq::empty())
}

fn split_words(s: &Vec<char>) -> (r: Vec<String>)
    ensures
        crate::widgets::texts(r@) == words(s@),
{
    let mut out: Vec<String> = Vec::new();
    let mut cur: Vec<char> = Vec::new();
    let mut i: usize = 0;
    assert(crate::widgets::texts(out@) + words_from(s@, 0, cur@) =~= words(s@));
    while i < s.len()
        invariant
            i <= s@.len(),
            crate::widgets::texts(out@) + words_from(s@, i as int, cur@) == words(s@),
        decreases s@.len() - i,
    {
        let c = s[i];
        let ghost before = crate::widgets::texts(out@);
        let ghost cv = cur@;
        if is_ws_char(c) {
            if cur.len() > 0 {
                out.push(from_chars(&cur));
                assert(crate::widgets::texts(out@) =~= before.push(cv));
            }
            cur = Vec::new();
            assert(crate::widgets::texts(out@) + words_from(s@, i + 1, cur@) =~= before + ((if cv.len() > 0 {
                seq![cv]
            } else {
                Seq::empty()
            }) + words_from(s@, i + 1, Seq::empty())));
        } else {
            cur.push(c);
        }
        i = i + 1;
    }
    if cur.len() > 0 {
        let ghost before = crate::widgets::texts(out@);
        let ghost cv = cur@;
        out.push(from_chars(&cur));
        assert(crate::widgets::texts(out@) =~= before + seq![cv]);
    } else {
        assert(crate::widgets::texts(out@) =~= crate::widgets::texts(out@) + Seq::<Seq<char>>::empty());
    }
    out
}

/// A row's key, value and switch.
pub open spec fn param_row_view(r: ParamRow) -> (Seq<char>, Seq<char>, bool) {
    (r.key.text(), r.value.text(), r.enabled)
}

/// A multipart row's key, whether it is a file, and its value.
pub open spec fn multipart_row_view(r: MultipartRow) -> (Seq<char>, bool, Seq<char>) {
    (r.key.text(), r.is_file, r.value.text())
}

/// The rows with a non-empty key, in order.
pub open spec fn kept_params(rows: Seq<ParamRow>) -> Seq<(Seq<char>, Seq<char>, bool)>
    decreases rows.len(),
{
    if rows.len() == 0 {
        Seq::empty()
    } else {
        let r = rows.last();
        kept_params(rows.drop_last()) + if r.key.text().len() > 0 { seq![param_row_view(r)] } else { Seq::empty() }
    }
}

/// The multipart rows with a non-empty key, in order.
pub open spec fn kept_multipart(rows: Seq<MultipartRow>) -> Seq<(Seq<char>, bool, Seq<char>)>
    decreases rows.len(),
{
    if rows.len() == 0 {
        Seq::empty()
    } else {
        let r = rows.last();
        kept_multipart(rows.drop_last()) + if r.key.text().len() > 0 { seq![multipart_row_view(r)] } else { Seq::empty() }
    }
}

/// The map made by storing each key/value pair in turn (a later pair with
/// the same key wins).
pub open spec fn stored(ps: Seq<(Seq<char>, Seq<char>, bool)>) -> Map<Seq<char>, Seq<char>>
    decreases ps.len(),
{
    if ps.len() == 0 {
        Map::empty()
    } else {
        stored(ps.drop_last()).insert(ps.last().0, ps.last().1)
    }
}

/// A multipart field as (key, is a file, text or path); a file has no
/// MIME type.
pub open spec fn field_view(f: FormField) -> (Seq<char>, bool, Seq<char>) {
    match f.value {
        FormValue::Text(t) => (f.key@, false, t@),
        FormValue::File(r) => (f.key@, true, r.path@),
    }
}

pub open spec fn fields_view(fs: Seq<FormField>) -> Seq<(Seq<char>, bool, Seq<char>)> {
    Seq::new(fs.len(), |i: int| field_view(fs[i]))
}

/// No file field names a MIME type.
pub open spec fn no_mime(fs: Seq<FormField>) -> bool {
    forall|i: int| 0 <= i < fs.len() ==> ((#[trigger] fs[i]).value matches FormValue::File(r) ==> r.mime_type is None)
}

pub open spec fn query_view(ps: Seq<QueryParam>) -> Seq<(Seq<char>, Seq<char>, bool)> {
    Seq::new(ps.len(), |i: int| (ps[i].key@, ps[i].value@, ps[i].enabled))
}

fn collect_params(rows: &Vec<ParamRow>) -> (r: Vec<QueryParam>)
    ensures
        query_view(r@) == kept_params(rows@),
{
    let mut out: Vec<QueryParam> = Vec::new();
    let mut i: usize = 0;
    while i < rows.len()
        invariant
            i <= rows@.len(),
            query_view(out@) == kept_params(rows@.take(i as int)),
        decreases rows@.len() - i,
    {
        let ghost before = query_view(out@);
        assert(rows@.take(i + 1).drop_last() =~= rows@.take(i as int));
        let k = rows[i].key.value();
        if !k.as_str().is_empty() {
            let v = rows[i].value.value();
            let ghost row = (k@, v@, rows@[i as int].enabled);
            out.push(QueryParam { key: k, value: v, enabled: rows[i].enabled });
            assert(query_view(out@) =~= before.push(row));
        } else {
            assert(query_view(out@) =~= before + Seq::<(Seq<char>, Seq<char>, bool)>::empty());
        }
        i = i + 1;
    }
    assert(rows@.take(i as int) =~= rows@);
    out
}

fn collect_map(rows: &Vec<ParamRow>) -> (r: StrMap)
    ensures
        r@ == stored(kept_params(rows@)),
{
    let mut out = StrMap::new();
    let mut i: usize = 0;
    while i < rows.len()
        invariant
            i <= rows@.len(),
            out@ == stored(kept_params(rows@.take(i as int))),
        decreases rows@.len() - i,
    {
        assert(rows@.take(i + 1).drop_last() =~= rows@.take(i as int));
        let k = rows[i].key.value();
        if !k.as_str().is_empty() {
            let v = rows[i].value.value();
            let ghost kp = kept_params(rows@.take(i as int));
            let ghost row = param_row_view(rows@[i as int]);
            assert(rows@.take(i + 1).last() == rows@[i as int]);
            assert(kept_params(rows@.take(i + 1)) == kp + seq![row]);
            assert((kp + seq![row]).drop_last() =~= kp);
            out.insert(k, v);
        } else {
            assert(kept_params(rows@.take(i + 1)) =~= kept_params(rows@.take(i as int)));
        }
        i = i + 1;
    }
    assert(rows@.take(i as int) =~= rows@);
    out
}

fn collect_fields(rows: &Vec<MultipartRow>) -> (r: Vec<FormField>)
    ensures
        fields_view(r@) == kept_multipart(rows@),
        no_mime(r@),
{
    let mut out: Vec<FormField> = Vec::new();
    let mut i: usize = 0;
    while i < rows.len()
        invariant
            i <= rows@.len(),
            fields_view(out@) == kept_multipart(rows@.take(i as int)),
            no_mime(out@),
        decreases rows@.len() - i,
    {
        let ghost before = fields_view(out@);
        assert(rows@.take(i + 1).drop_last() =~= rows@.take(i as int));
        let k = rows[i].key.value();
        if !k.as_str().is_empty() {
            let v = rows[i].value.value();
            let ghost row = (k@, rows@[i as int].is_file, v@);
            let value = if rows[i].is_file {
                FormValue::File(FileRef { path: v, mime_type: None })
            } else {
                FormValue::Text(v)
            };
            out.push(FormField { key: k, value });
            assert(fields_view(out@) =~= before.push(row));
        } else {
            assert(fields_view(out@) =~= before + Seq::<(Seq<char>, bool, Seq<char>)>::empty());
        }
        i = i + 1;
    }
    assert(rows@.take(i as int) =~= rows@);
    out
}

/// `s` is only whitespace.
pub open spec fn blank(s: Seq<char>) -> bool {
    trimmed(s).len() == 0
}

/// Every text field is empty.
pub open spec fn all_texts_empty(e: RequestEditor) -> bool {
    &&& e.name_input.text() == Seq::<char>::empty()
    &&& e.url_input.text() == Seq::<char>::empty()
    &&& auth_texts_empty(e)
}

/// Every auth text field is empty.
pub open spec fn auth_texts_empty(e: RequestEditor) -> bool {
    &&& e.auth_bearer_token.text() == Seq::<char>::empty()
    &&& e.auth_basic_user.text() == Seq::<char>::empty()
    &&& e.auth_basic_pass.text() == Seq::<char>::empty()
    &&& e.auth_api_key.text() == Seq::<char>::empty()
    &&& e.auth_api_value.text() == Seq::<char>::empty()
    &&& e.oauth2_client_id.text() == Seq::<char>::empty()
    &&& e.oauth2_client_secret.text() == Seq::<char>::empty()
    &&& e.oauth2_token_url.text() == Seq::<char>::empty()
    &&& e.oauth2_scopes.text() == Seq::<char>::empty()
    &&& e.oauth2_refresh_token.text() == Seq::<char>::empty()
}

/// One row with empty fields, switched on.
pub open spec fn one_empty_row(rows: Seq<ParamRow>) -> bool {
    rows.len() == 1 && param_row_view(rows[0]) == (Seq::<char>::empty(), Seq::<char>::empty(), true)
}

fn text_field(title: &str) -> (t: TextInput)
    ensures
        t.text() == Seq::<char>::empty(),
        !t.enabled,
        t.title@ == title@,
{
    TextInput::new(from_chars(&to_chars(title)))
}

fn first_row(key_title: &str, val_title: &str) -> (v: Vec<ParamRow>)
    ensures
        one_empty_row(v@),
{
    let mut v: Vec<ParamRow> = Vec::new();
    v.push(ParamRow::new(from_chars(&to_chars(key_title)), from_chars(&to_chars(val_title))));
    v
}

/// A fresh editor: the Info sub-tab, nothing focused, a GET request with
/// every text empty, no auth, no body, one blank row in each list.
pub open spec fn fresh_editor(e: RequestEditor) -> bool {
    &&& e.tab == Tab::Info
    &&& e.focused is None
    &&& !e.editing
    &&& e.method == RequestType::Get
    &&& all_texts_empty(e)
    &&& e.auth_kind == AuthKind::NoAuth
    &&& e.api_key_location == ApiKeyLocation::Header
    &&& e.oauth2_grant == OAuth2Grant::ClientCredentials
    &&& e.body_kind == BodyKind::Empty
    &&& e.body_editor.text() == Seq::<char>::empty()
    &&& e.body_editor.mode == EditorMode::Plain
    &&& e.capture_editor.text() == Seq::<char>::empty()
    &&& e.capture_editor.mode == EditorMode::Json
    &&& one_empty_row(e.body_form_rows@)
    &&& e.body_multipart_rows@.len() == 1
    &&& multipart_row_view(e.body_multipart_rows@[0]) == (Seq::<char>::empty(), false, Seq::<char>::empty())
    &&& one_empty_row(e.param_rows@)
    &&& one_empty_row(e.url_var_rows@)
    &&& one_empty_row(e.header_rows@)
    &&& e.validation_error is None
}

impl RequestEditor {
    /// A blank editor: Info sub-tab, nothing focused, GET, every field empty,
    /// no auth and no body, one empty row in each row list, and the capture
    /// template editor in JSON mode.
    pub fn new() -> (e: Self)
        ensures
            fresh_editor(e),
    {
        let mut capture_editor = BodyEditor::new();
        capture_editor.set_mode(EditorMode::Json);
        let mut multipart: Vec<MultipartRow> = Vec::new();
        multipart.push(MultipartRow::new(from_chars(&to_chars("Key 1")), from_chars(&to_chars("Value 1"))));
        RequestEditor {
            tab: Tab::Info,
            focused: None,
            editing: false,
            method: RequestType::Get,
            name_input: text_field("Name"),
            url_input: text_field("URL"),
            auth_kind: AuthKind::NoAuth,
            auth_bearer_token: text_field("Bearer Token"),
            auth_basic_user: text_field("Username"),
            auth_basic_pass: text_field("Password"),
            auth_api_key: text_field("API Key"),
            auth_api_value: text_field("API Value"),
            api_key_location: ApiKeyLocation::Header,
            oauth2_grant: OAuth2Grant::ClientCredentials,
            oauth2_client_id: text_field("Client ID"),
            oauth2_client_secret: text_field("Client Secret"),
            oauth2_token_url: text_field("Token URL"),
            oauth2_scopes: text_field("Scopes (space-separated)"),
            oauth2_refresh_token: text_field("Refresh Token"),
            body_kind: BodyKind::Empty,
            body_editor: BodyEditor::new(),
            body_form_rows: first_row("Key 1", "Value 1"),
            body_multipart_rows: multipart,
            capture_editor,
            param_rows: first_row("Key 1", "Value 1"),
            url_var_rows: first_row("Key 1", "Value 1"),
            header_rows: first_row("Header 1", "Value 1"),
            validation_error: None,
        }
    }
}

/// The authentication the editor describes: none for no auth or an empty
/// bearer token; for OAuth2 the scopes are the words of the scopes field,
/// the refresh token is kept only for the refresh-token grant and when not
/// empty, and no access token is cached.
pub open spec fn auth_out(e: RequestEditor, a: Option<Auth>) -> bool {
    match e.auth_kind {
        AuthKind::NoAuth => a is None,
        AuthKind::Bearer => if e.auth_bearer_token.text().len() == 0 {
            a is None
        } else {
            a matches Some(Auth::Bearer { token }) && token@ == e.auth_bearer_token.text()
        },
        AuthKind::Basic => a matches Some(Auth::Basic { username, password }) && username@ == e.auth_basic_user.text()
            && password@ == e.auth_basic_pass.text(),
        AuthKind::ApiKey => a matches Some(Auth::ApiKey { key, value, location }) && key@ == e.auth_api_key.text()
            && value@ == e.auth_api_value.text() && location == e.api_key_location,
        AuthKind::OAuth2 => a matches Some(Auth::OAuth2(c)) && {
            &&& c.grant == e.oauth2_grant
            &&& c.client_id@ == e.oauth2_client_id.text()
            &&& c.client_secret@ == e.oauth2_client_secret.text()
            &&& c.token_url@ == e.oauth2_token_url.text()
            &&& crate::widgets::texts(c.scopes@) == words(e.oauth2_scopes.text())
            &&& if c.grant == OAuth2Grant::RefreshToken && e.oauth2_refresh_token.text().len() > 0 {
                c.refresh_token matches Some(t) && t@ == e.oauth2_refresh_token.text()
            } else {
                c.refresh_token is None
            }
            &&& c.access_token is None
        },
    }
}

/// The body the editor describes, `json` being the parsed JSON text when
/// the kind is JSON: none for no body or blank text; a form or multipart
/// body holds the rows with a non-empty key (files without a MIME type),
/// and is none when there are no such rows.
pub open spec fn body_out(e: RequestEditor, json: Option<Result<JsonDoc, String>>, b: Option<RequestBody>) -> bool {
    let t = e.body_editor.text();
    match e.body_kind {
        BodyKind::Empty => b is None,
        BodyKind::Raw => if blank(t) { b is None } else { b matches Some(RequestBody::Raw(s)) && s@ == t },
        BodyKind::Json => if blank(t) { b is None } else { json matches Some(Ok(d)) && b == Some(RequestBody::Json(d)) },
        BodyKind::Form => if kept_params(e.body_form_rows@).len() == 0 {
            b is None
        } else {
            b matches Some(RequestBody::Form(m)) && m@ == stored(kept_params(e.body_form_rows@))
        },
        BodyKind::Multipart => if kept_multipart(e.body_multipart_rows@).len() == 0 {
            b is None
        } else {
            b matches Some(RequestBody::Multipart(fs)) && fields_view(fs@) == kept_multipart(e.body_multipart_rows@)
                && no_mime(fs@)
        },
    }
}

/// The JSON body text is what must be parsed before reading a request.
pub open spec fn needs_json(e: RequestEditor) -> bool {
    e.body_kind == BodyKind::Json && !blank(e.body_editor.text())
}

/// The parsed JSON body was refused.
pub open spec fn json_refused(e: RequestEditor, json: Option<Result<JsonDoc, String>>) -> bool {
    needs_json(e) && json matches Some(Err(_))
}

/// The request the editor describes: the name (`Unnamed` when empty),
/// method and URL; the auth and body (see `auth_out`, `body_out`); query
/// parameters and URL variables from their rows with a non-empty key (none
/// when there are no such rows); headers likewise, as a map; the capture
/// template unless blank.
pub open spec fn request_out(e: RequestEditor, json: Option<Result<JsonDoc, String>>, r: Request) -> bool {
    &&& r.name@ == (if e.name_input.text().len() == 0 { "Unnamed"@ } else { e.name_input.text() })
    &&& r.request_type == e.method
    &&& r.url@ == e.url_input.text()
    &&& auth_out(e, r.auth)
    &&& body_out(e, json, r.body)
    &&& if kept_params(e.param_rows@).len() == 0 {
        r.params is None
    } else {
        r.params matches Some(p) && query_view(p@) == kept_params(e.param_rows@)
    }
    &&& if kept_params(e.url_var_rows@).len() == 0 {
        r.url_vars is None
    } else {
        r.url_vars matches Some(p) && query_view(p@) == kept_params(e.url_var_rows@)
    }
    &&& if kept_params(e.header_rows@).len() == 0 {
        r.headers is None
    } else {
        r.headers matches Some(h) && h@ == stored(kept_params(e.header_rows@))
    }
    &&& if blank(e.capture_editor.text()) {
        r.capture is None
    } else {
        r.capture matches Some(c) && c@ == e.capture_editor.text()
    }
}

fn is_blank(s: &String) -> (b: bool)
    ensures
        b == blank(s@),
{
    let c = to_chars(s.as_str());
    trim_chars(&c).len() == 0
}

fn copy_text(s: &String) -> (r: String)
    ensures
        r@ == s@,
{
    s.clone()
}

/// What reading the request out of the editor does (see
/// `RequestEditor::to_request`).
pub open spec fn to_request_effect(o: RequestEditor, json: Option<Result<JsonDoc, String>>, n: RequestEditor, r: Result<Request, String>) -> bool {
    &&& json_refused(o, json) ==> ({
        &&& r matches Err(m) && json matches Some(Err(e)) && m@ == "JSON body invalid: "@ + e@
        &&& n.validation_error matches Some(v) && r matches Err(m) && v@ == m@
    })
    &&& !json_refused(o, json) ==> ({
        &&& r matches Ok(req) && request_out(o, json, req)
        &&& n.validation_error is None
    })
    &&& crate::editor::same_rows(o, n)
    &&& crate::editor::same_choices(o, n)
    &&& crate::editor::same_place(o, n)
    &&& n.name_input == o.name_input
    &&& n.capture_editor == o.capture_editor
}

impl RequestEditor {
    /// The JSON body text to parse before `to_request`, when the body kind
    /// is JSON and the text is not blank.
    pub fn json_body_text(&self) -> (r: Option<String>)
        ensures
            needs_json(*self) ==> (r matches Some(t) && t@ == self.body_editor.text()),
            !needs_json(*self) ==> r is None,
    {
        if self.body_kind == BodyKind::Json {
            let t = self.body_editor.value();
            if !is_blank(&t) {
                return Some(t);
            }
        }
        None
    }

    fn auth_from_fields(&self) -> (a: Option<Auth>)
        ensures
            auth_out(*self, a),
    {
        match self.auth_kind {
            AuthKind::NoAuth => None,
            AuthKind::Bearer => {
                let t = self.auth_bearer_token.value();
                if t.as_str().is_empty() {
                    None
                } else {
                    Some(Auth::Bearer { token: t })
                }
            },
            AuthKind::Basic => Some(Auth::Basic { username: self.auth_basic_user.value(), password: self.auth_basic_pass.value() }),
            AuthKind::ApiKey => Some(Auth::ApiKey {
                key: self.auth_api_key.value(),
                value: self.auth_api_value.value(),
                location: self.api_key_location,
            }),
            AuthKind::OAuth2 => {
                let scope_text = to_chars(self.oauth2_scopes.value().as_str());
                let scopes = split_words(&scope_text);
                let raw = self.oauth2_refresh_token.value();
                let refresh_token = if self.oauth2_grant == OAuth2Grant::RefreshToken && !raw.as_str().is_empty() {
                    Some(raw)
                } else {
                    None
                };
                Some(Auth::OAuth2(OAuth2Config {
                    grant: self.oauth2_grant,
                    client_id: self.oauth2_client_id.value(),
                    client_secret: self.oauth2_client_secret.value(),
                    token_url: self.oauth2_token_url.value(),
                    scopes,
                    refresh_token,
                    access_token: None,
                }))
            },
        }
    }

    fn body_from_fields(&self, json: Option<Result<JsonDoc, String>>) -> (b: Result<Option<RequestBody>, String>)
        requires
            needs_json(*self) ==> json is Some,
        ensures
            json_refused(*self, json) ==> (b matches Err(m) && json matches Some(Err(e)) && m@ == "JSON body invalid: "@ + e@),
            !json_refused(*self, json) ==> (b matches Ok(x) && body_out(*self, json, x)),
    {
        match self.body_kind {
            BodyKind::Empty => Ok(None),
            BodyKind::Raw => {
                let t = self.body_editor.value();
                if is_blank(&t) { Ok(None) } else { Ok(Some(RequestBody::Raw(t))) }
            },
            BodyKind::Json => {
                let t = self.body_editor.value();
                if is_blank(&t) {
                    Ok(None)
                } else {
                    match json {
                        Some(Ok(d)) => Ok(Some(RequestBody::Json(d))),
                        Some(Err(e)) => {
                            let mut m = to_chars("JSON body invalid: ");
                            push_str(&mut m, e.as_str());
                            Err(from_chars(&m))
                        },
                        None => Ok(None),
                    }
                }
            },
            BodyKind::Form => {
                let kept = collect_params(&self.body_form_rows);
                assert(query_view(kept@).len() == kept@.len());
                if kept.len() == 0 {
                    Ok(None)
                } else {
                    Ok(Some(RequestBody::Form(collect_map(&self.body_form_rows))))
                }
            },
            BodyKind::Multipart => {
                let fs = collect_fields(&self.body_multipart_rows);
                assert(fields_view(fs@).len() == fs@.len());
                if fs.len() == 0 { Ok(None) } else { Ok(Some(RequestBody::Multipart(fs))) }
            },
        }
    }

    /// Reads the request out of the editor (see `request_out`). `json` is
    /// the JSON body text (see `json_body_text`) as a JSON parser read it;
    /// when the parser refused it, the result is the error
    /// `JSON body invalid: <why>`, which is also kept as the validation
    /// message. The editor is otherwise left as it was.
    pub fn to_request(&mut self, json: Option<Result<JsonDoc, String>>) -> (r: Result<Request, String>)
        requires
            needs_json(*old(self)) ==> json is Some,
        ensures
            to_request_effect(*old(self), json, *final(self), r),
    {
        self.validation_error = None;
        let body = match self.body_from_fields(json) {
            Ok(b) => b,
            Err(m) => {
                self.validation_error = Some(copy_text(&m));
                return Err(m);
            },
        };
        let name = self.name_input.value();
        let name = if name.as_str().is_empty() { from_chars(&to_chars("Unnamed")) } else { name };
        let auth = self.auth_from_fields();
        let params = collect_params(&self.param_rows);
        let url_vars = collect_params(&self.url_var_rows);
        let header_rows = collect_params(&self.header_rows);
        assert(query_view(header_rows@).len() == header_rows@.len());
        let headers = if header_rows.len() == 0 { None } else { Some(collect_map(&self.header_rows)) };
        assert(query_view(params@).len() == params@.len());
        assert(query_view(url_vars@).len() == url_vars@.len());
        let capture_text = self.capture_editor.value();
        let capture = if is_blank(&capture_text) { None } else { Some(capture_text) };
        Ok(Request {
            name,
            request_type: self.method,
            url: self.url_input.value(),
            headers,
            body,
            auth,
            params: if params.len() == 0 { None } else { Some(params) },
            url_vars: if url_vars.len() == 0 { None } else { Some(url_vars) },
            capture,
        })
    }
}

/// The map from storing pairs is empty exactly when there were none.
proof fn lemma_stored_empty(ps: Seq<(Seq<char>, Seq<char>, bool)>)
    ensures
        (stored(ps) =~= Map::<Seq<char>, Seq<char>>::empty()) <==> ps.len() == 0,
        ps.len() > 0 ==> stored(ps).contains_key(ps.last().0),
    decreases ps.len(),
{
    if ps.len() > 0 {
        lemma_stored_empty(ps.drop_last());
        assert(stored(ps).contains_key(ps.last().0));
    }
}

/// Rows loaded from a list of query parameters: one per parameter, or one
/// empty row when there are none.
pub open spec fn query_rows_loaded(rows: Seq<ParamRow>, src: Option<Vec<QueryParam>>) -> bool {
    match src {
        Some(ps) => if ps@.len() > 0 {
            rows.len() == ps@.len() && forall|i: int| 0 <= i < rows.len() ==> param_row_view(#[trigger] rows[i]) == (
                ps@[i].key@,
                ps@[i].value@,
                ps@[i].enabled,
            )
        } else {
            one_empty_row(rows)
        },
        None => one_empty_row(rows),
    }
}

/// Rows loaded from a map: one switched-on row per entry, in the map's
/// order, or one empty row when there are none.
pub open spec fn map_rows_loaded(rows: Seq<ParamRow>, src: Option<StrMap>) -> bool {
    match src {
        Some(m) => if m.pairs().len() > 0 {
            rows.len() == m.pairs().len() && forall|i: int| 0 <= i < rows.len() ==> param_row_view(#[trigger] rows[i]) == (
                m.pairs()[i].0,
                m.pairs()[i].1,
                true,
            )
        } else {
            one_empty_row(rows)
        },
        None => one_empty_row(rows),
    }
}

/// The body kind a request's body calls for.
pub open spec fn kind_of(b: Option<RequestBody>) -> BodyKind {
    match b {
        Some(RequestBody::Raw(_)) => BodyKind::Raw,
        Some(RequestBody::Json(_)) => BodyKind::Json,
        Some(RequestBody::Form(_)) => BodyKind::Form,
        Some(RequestBody::Multipart(_)) => BodyKind::Multipart,
        _ => BodyKind::Empty,
    }
}

/// The auth kind a request's auth calls for.
pub open spec fn auth_kind_of(a: Option<Auth>) -> AuthKind {
    match a {
        Some(Auth::Bearer { .. }) => AuthKind::Bearer,
        Some(Auth::Basic { .. }) => AuthKind::Basic,
        Some(Auth::ApiKey { .. }) => AuthKind::ApiKey,
        Some(Auth::OAuth2(_)) => AuthKind::OAuth2,
        _ => AuthKind::NoAuth,
    }
}

/// The editor shows `req`: every field holds the request's value (fields
/// the request has no value for are empty), each row list holds the
/// request's rows, the body text is a raw body's text or a JSON body's
/// indented rendering, the scopes are joined by spaces; the Info sub-tab is
/// shown and nothing is focused.
pub open spec fn loaded(req: Request, e: RequestEditor) -> bool {
    &&& misc_loaded(req, e)
    &&& auth_loaded(req.auth, e)
    &&& body_loaded(req.body, e)
    &&& query_rows_loaded(e.param_rows@, req.params)
    &&& query_rows_loaded(e.url_var_rows@, req.url_vars)
    &&& map_rows_loaded(e.header_rows@, req.headers)
}

/// The Info sub-tab is shown, nothing is focused, and the name, URL, method
/// and capture template are the request's.
pub open spec fn misc_loaded(req: Request, e: RequestEditor) -> bool {
    &&& e.tab == Tab::Info
    &&& e.focused is None
    &&& !e.editing
    &&& e.validation_error is None
    &&& e.name_input.text() == req.name@
    &&& e.url_input.text() == req.url@
    &&& e.method == req.request_type
    &&& e.capture_editor.text() == (match req.capture { Some(c) => c@, None => Seq::<char>::empty() })
    &&& e.capture_editor.mode == EditorMode::Json
}

/// The auth fields hold the request's auth; fields it has no value for are
/// empty; the scopes are joined by spaces.
pub open spec fn auth_loaded(auth: Option<Auth>, e: RequestEditor) -> bool {
    let empty = Seq::<char>::empty();
    &&& e.auth_kind == auth_kind_of(auth)
    &&& e.auth_bearer_token.text() == (match auth { Some(Auth::Bearer { token }) => token@, _ => empty })
    &&& e.auth_basic_user.text() == (match auth { Some(Auth::Basic { username, .. }) => username@, _ => empty })
    &&& e.auth_basic_pass.text() == (match auth { Some(Auth::Basic { password, .. }) => password@, _ => empty })
    &&& e.auth_api_key.text() == (match auth { Some(Auth::ApiKey { key, .. }) => key@, _ => empty })
    &&& e.auth_api_value.text() == (match auth { Some(Auth::ApiKey { value, .. }) => value@, _ => empty })
    &&& e.api_key_location == (match auth { Some(Auth::ApiKey { location, .. }) => location, _ => ApiKeyLocation::Header })
    &&& e.oauth2_grant == (match auth { Some(Auth::OAuth2(c)) => c.grant, _ => OAuth2Grant::ClientCredentials })
    &&& e.oauth2_client_id.text() == (match auth { Some(Auth::OAuth2(c)) => c.client_id@, _ => empty })
    &&& e.oauth2_client_secret.text() == (match auth { Some(Auth::OAuth2(c)) => c.client_secret@, _ => empty })
    &&& e.oauth2_token_url.text() == (match auth { Some(Auth::OAuth2(c)) => c.token_url@, _ => empty })
    &&& e.oauth2_scopes.text() == (match auth {
        Some(Auth::OAuth2(c)) => join(crate::widgets::texts(c.scopes@), seq![' ']),
        _ => empty,
    })
    &&& e.oauth2_refresh_token.text() == (match auth {
        Some(Auth::OAuth2(c)) => match c.refresh_token {
            Some(t) => t@,
            None => empty,
        },
        _ => empty,
    })
}

/// The body fields hold the request's body: a raw body's text or a JSON
/// body's indented rendering, the form's entries or the multipart fields as
/// rows (one empty row when there are none).
pub open spec fn body_loaded(body: Option<RequestBody>, e: RequestEditor) -> bool {
    let empty = Seq::<char>::empty();
    &&& e.body_kind == kind_of(body)
    &&& e.body_editor.mode == mode_for(e.body_kind)
    &&& e.body_editor.text() == (match body {
        Some(RequestBody::Raw(t)) => t@,
        Some(RequestBody::Json(d)) => d.pretty@,
        _ => empty,
    })
    &&& map_rows_loaded(e.body_form_rows@, match body { Some(RequestBody::Form(m)) => Some(m), _ => None })
    &&& match body {
        Some(RequestBody::Multipart(fs)) if fs@.len() > 0 => e.body_multipart_rows@.len() == fs@.len()
            && forall|i: int| 0 <= i < fs@.len() ==> multipart_row_view(#[trigger] e.body_multipart_rows@[i]) == field_view(fs@[i]),
        _ => e.body_multipart_rows@.len() == 1 && multipart_row_view(e.body_multipart_rows@[0]) == (empty, false, empty),
    }
}

/// Only the auth fields may differ.
pub open spec fn auth_fields_only(o: RequestEditor, n: RequestEditor) -> bool {
    &&& n.tab == o.tab && n.focused == o.focused && n.editing == o.editing && n.validation_error == o.validation_error
    &&& n.name_input == o.name_input && n.url_input == o.url_input && n.method == o.method
    &&& n.capture_editor == o.capture_editor
    &&& n.body_kind == o.body_kind && n.body_editor == o.body_editor
    &&& n.body_form_rows == o.body_form_rows && n.body_multipart_rows == o.body_multipart_rows
    &&& n.param_rows == o.param_rows && n.url_var_rows == o.url_var_rows && n.header_rows == o.header_rows
}

/// Only the body fields may differ.
pub open spec fn body_fields_only(o: RequestEditor, n: RequestEditor) -> bool {
    &&& n.tab == o.tab && n.focused == o.focused && n.editing == o.editing && n.validation_error == o.validation_error
    &&& n.name_input == o.name_input && n.url_input == o.url_input && n.method == o.method
    &&& n.capture_editor == o.capture_editor
    &&& n.auth_kind == o.auth_kind && n.auth_bearer_token == o.auth_bearer_token
    &&& n.auth_basic_user == o.auth_basic_user && n.auth_basic_pass == o.auth_basic_pass
    &&& n.auth_api_key == o.auth_api_key && n.auth_api_value == o.auth_api_value
    &&& n.api_key_location == o.api_key_location && n.oauth2_grant == o.oauth2_grant
    &&& n.oauth2_client_id == o.oauth2_client_id && n.oauth2_client_secret == o.oauth2_client_secret
    &&& n.oauth2_token_url == o.oauth2_token_url && n.oauth2_scopes == o.oauth2_scopes
    &&& n.oauth2_refresh_token == o.oauth2_refresh_token
    &&& n.param_rows == o.param_rows && n.url_var_rows == o.url_var_rows && n.header_rows == o.header_rows
}

fn copy_string(s: &String) -> (r: String)
    ensures
        r@ == s@,
{
    s.clone()
}

fn loaded_row(k: &String, v: &String, enabled: bool) -> (r: ParamRow)
    ensures
        param_row_view(r) == (k@, v@, enabled),
{
    let mut row = ParamRow::new(from_chars(&to_chars("Key")), from_chars(&to_chars("Value")));
    row.key.set_value(copy_string(k));
    row.value.set_value(copy_string(v));
    row.enabled = enabled;
    row
}

fn rows_from_query(ps: &Vec<QueryParam>) -> (rows: Vec<ParamRow>)
    ensures
        query_rows_loaded(rows@, Some(*ps)),
{
    let mut rows: Vec<ParamRow> = Vec::new();
    let mut i: usize = 0;
    while i < ps.len()
        invariant
            i <= ps@.len(),
            rows@.len() == i,
            forall|j: int| 0 <= j < i ==> param_row_view(#[trigger] rows@[j]) == (ps@[j].key@, ps@[j].value@, ps@[j].enabled),
        decreases ps@.len() - i,
    {
        rows.push(loaded_row(&ps[i].key, &ps[i].value, ps[i].enabled));
        i = i + 1;
    }
    if rows.len() == 0 {
        return first_row("Key 1", "Value 1");
    }
    rows
}

fn rows_from_map(m: &StrMap, first_key: &str) -> (rows: Vec<ParamRow>)
    ensures
        map_rows_loaded(rows@, Some(*m)),
{
    let mut rows: Vec<ParamRow> = Vec::new();
    let mut i: usize = 0;
    while i < m.len()
        invariant
            i <= m.pairs().len(),
            rows@.len() == i,
            forall|j: int| 0 <= j < i ==> param_row_view(#[trigger] rows@[j]) == (m.pairs()[j].0, m.pairs()[j].1, true),
        decreases m.pairs().len() - i,
    {
        let (k, v) = m.entry(i);
        rows.push(loaded_row(k, v, true));
        i = i + 1;
    }
    if rows.len() == 0 {
        return first_row(first_key, "Value 1");
    }
    rows
}

fn rows_from_fields(fs: &Vec<FormField>) -> (rows: Vec<MultipartRow>)
    ensures
        fs@.len() > 0 ==> rows@.len() == fs@.len()
            && forall|i: int| 0 <= i < fs@.len() ==> multipart_row_view(#[trigger] rows@[i]) == field_view(fs@[i]),
        fs@.len() == 0 ==> rows@.len() == 1 && multipart_row_view(rows@[0]) == (Seq::<char>::empty(), false, Seq::<char>::empty()),
{
    let mut rows: Vec<MultipartRow> = Vec::new();
    let mut i: usize = 0;
    while i < fs.len()
        invariant
            i <= fs@.len(),
            rows@.len() == i,
            forall|j: int| 0 <= j < i ==> multipart_row_view(#[trigger] rows@[j]) == field_view(fs@[j]),
        decreases fs@.len() - i,
    {
        let mut row = MultipartRow::new(from_chars(&to_chars("Key")), from_chars(&to_chars("Value")));
        row.key.set_value(copy_string(&fs[i].key));
        match &fs[i].value {
            FormValue::Text(t) => {
                row.value.set_value(copy_string(t));
                row.is_file = false;
            },
            FormValue::File(f) => {
                row.value.set_value(copy_string(&f.path));
                row.is_file = true;
            },
        }
        rows.push(row);
        i = i + 1;
    }
    if rows.len() == 0 {
        rows.push(MultipartRow::new(from_chars(&to_chars("Key 1")), from_chars(&to_chars("Value 1"))));
    }
    rows
}

fn join_scopes(scopes: &Vec<String>) -> (r: String)
    ensures
        r@ == join(crate::widgets::texts(scopes@), seq![' ']),
{
    let mut parts: Vec<Vec<char>> = Vec::new();
    let mut i: usize = 0;
    while i < scopes.len()
        invariant
            i <= scopes@.len(),
            views(parts@) == crate::widgets::texts(scopes@).take(i as int),
        decreases scopes@.len() - i,
    {
        let ghost before = views(parts@);
        parts.push(to_chars(scopes[i].as_str()));
        assert(views(parts@) =~= before.push(scopes@[i as int]@));
        assert(crate::widgets::texts(scopes@).take(i + 1) =~= crate::widgets::texts(scopes@).take(i as int).push(scopes@[i as int]@));
        i = i + 1;
    }
    assert(crate::widgets::texts(scopes@).take(i as int) =~= crate::widgets::texts(scopes@));
    let mut sep: Vec<char> = Vec::new();
    sep.push(' ');
    assert(sep@ =~= seq![' ']);
    from_chars(&join_chars(&parts, &sep))
}

impl RequestEditor {
    fn load_auth(&mut self, auth: &Option<Auth>)
        requires
            old(self).auth_kind == AuthKind::NoAuth,
            old(self).api_key_location == ApiKeyLocation::Header,
            old(self).oauth2_grant == OAuth2Grant::ClientCredentials,
            auth_texts_empty(*old(self)),
        ensures
            auth_loaded(*auth, *final(self)),
            auth_fields_only(*old(self), *final(self)),
    {
        match auth {
            Some(Auth::Bearer { token }) => {
                self.auth_kind = AuthKind::Bearer;
                self.auth_bearer_token.set_value(copy_string(token));
            },
            Some(Auth::Basic { username, password }) => {
                self.auth_kind = AuthKind::Basic;
                self.auth_basic_user.set_value(copy_string(username));
                self.auth_basic_pass.set_value(copy_string(password));
            },
            Some(Auth::ApiKey { key, value, location }) => {
                self.auth_kind = AuthKind::ApiKey;
                self.auth_api_key.set_value(copy_string(key));
                self.auth_api_value.set_value(copy_string(value));
                self.api_key_location = *location;
            },
            Some(Auth::OAuth2(cfg)) => {
                self.auth_kind = AuthKind::OAuth2;
                self.oauth2_grant = cfg.grant;
                self.oauth2_client_id.set_value(copy_string(&cfg.client_id));
                self.oauth2_client_secret.set_value(copy_string(&cfg.client_secret));
                self.oauth2_token_url.set_value(copy_string(&cfg.token_url));
                self.oauth2_scopes.set_value(join_scopes(&cfg.scopes));
                match &cfg.refresh_token {
                    Some(rt) => self.oauth2_refresh_token.set_value(copy_string(rt)),
                    None => {},
                }
            },
            _ => {},
        }
    }

    fn load_body(&mut self, body: &Option<RequestBody>)
        requires
            old(self).body_kind == BodyKind::Empty,
            old(self).body_editor.text() == Seq::<char>::empty(),
            one_empty_row(old(self).body_form_rows@),
            old(self).body_multipart_rows@.len() == 1,
            multipart_row_view(old(self).body_multipart_rows@[0]) == (Seq::<char>::empty(), false, Seq::<char>::empty()),
        ensures
            body_loaded(*body, *final(self)),
            body_fields_only(*old(self), *final(self)),
    {
        match body {
            Some(RequestBody::Raw(t)) => {
                self.body_kind = BodyKind::Raw;
                self.body_editor.set_text(t.as_str());
            },
            Some(RequestBody::Json(d)) => {
                self.body_kind = BodyKind::Json;
                self.body_editor.set_text(d.pretty.as_str());
            },
            Some(RequestBody::Form(m)) => {
                self.body_kind = BodyKind::Form;
                self.body_form_rows = rows_from_map(m, "Key 1");
            },
            Some(RequestBody::Multipart(fs)) => {
                self.body_kind = BodyKind::Multipart;
                self.body_multipart_rows = rows_from_fields(fs);
            },
            _ => {},
        }
        let mode = if self.body_kind == BodyKind::Json { EditorMode::Json } else { EditorMode::Plain };
        self.body_editor.set_mode(mode);
    }

    /// An editor showing `req` (see `loaded`).
    pub fn from_request(req: &Request) -> (e: Self)
        ensures
            loaded(*req, e),
    {
        let mut e = Self::new();
        e.name_input.set_value(copy_string(&req.name));
        e.url_input.set_value(copy_string(&req.url));
        e.method = req.request_type;
        match &req.capture {
            Some(c) => e.capture_editor.set_text(c.as_str()),
            None => {},
        }
        match &req.params {
            Some(ps) => e.param_rows = rows_from_query(ps),
            None => {},
        }
        match &req.url_vars {
            Some(ps) => e.url_var_rows = rows_from_query(ps),
            None => {},
        }
        match &req.headers {
            Some(h) => e.header_rows = rows_from_map(h, "Header 1"),
            None => {},
        }
        e.load_auth(&req.auth);
        e.load_body(&req.body);
        e
    }
}

impl Default for RequestEditor {
    /// A fresh editor (see `fresh_editor`).
    fn default() -> (e: Self)
        ensures
            fresh_editor(e),
    {
        RequestEditor::new()
    }
}
} // verus!

verus! {

/// A blank editor holds one row in each row list.
pub proof fn law_fresh_rows_nonempty(e: RequestEditor)
    requires
        fresh_editor(e),
    ensures
        rows_nonempty(e),
{
}

/// An editor opened on a request holds at least one row in each row list.
pub proof fn law_loaded_rows_nonempty(req: Request, e: RequestEditor)
    requires
        loaded(req, e),
    ensures
        rows_nonempty(e),
{
}

} // verus!
