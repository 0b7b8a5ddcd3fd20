use vstd::prelude::*;
use crate::items::{ApiKeyLocation, OAuth2Grant, RequestType};
use crate::keys::{Key, KeyPress};
use crate::text::{from_chars, to_chars, push_decimal, digits};
use crate::widgets::{BodyEditor, EditorMode, TextInput};

verus! {

/// The request editor's sub-tabs, in the order `[` and `]` cycle through them.
#[derive(PartialEq, Eq, Structural, Clone, Copy, Debug)]
pub enum Tab {
    Info,
    Auth,
    Body,
    Params,
    UrlVars,
    Headers,
    Capture,
}

/// The sub-tab after `t`, wrapping round.
pub open spec fn tab_after(t: Tab) -> Tab {
    match t {
        Tab::Info => Tab::Auth,
        Tab::Auth => Tab::Body,
        Tab::Body => Tab::Params,
        Tab::Params => Tab::UrlVars,
        Tab::UrlVars => Tab::Headers,
        Tab::Headers => Tab::Capture,
        Tab::Capture => Tab::Info,
    }
}

/// The sub-tab before `t`, wrapping round.
pub open spec fn tab_before(t: Tab) -> Tab {
    match t {
        Tab::Info => Tab::Capture,
        Tab::Auth => Tab::Info,
        Tab::Body => Tab::Auth,
        Tab::Params => Tab::Body,
        Tab::UrlVars => Tab::Params,
        Tab::Headers => Tab::UrlVars,
        Tab::Capture => Tab::Headers,
    }
}

impl Tab {
    /// The sub-tab's title.
    pub fn label(self) -> (s: &'static str)
        ensures
            s@ == (match self {
                Tab::Info => " Info "@,
                Tab::Auth => " Auth "@,
                Tab::Body => " Body "@,
                Tab::Params => " Params "@,
                Tab::UrlVars => " URL Vars "@,
                Tab::Headers => " Headers "@,
                Tab::Capture => " Capture "@,
            }),
    {
        match self {
            Tab::Info => " Info ",
            Tab::Auth => " Auth ",
            Tab::Body => " Body ",
            Tab::Params => " Params ",
            Tab::UrlVars => " URL Vars ",
            Tab::Headers => " Headers ",
            Tab::Capture => " Capture ",
        }
    }

    pub fn next(self) -> (t: Tab)
        ensures
            t == tab_after(self),
    {
        match self {
            Tab::Info => Tab::Auth,
            Tab::Auth => Tab::Body,
            Tab::Body => Tab::Params,
            Tab::Params => Tab::UrlVars,
            Tab::UrlVars => Tab::Headers,
            Tab::Headers => Tab::Capture,
            Tab::Capture => Tab::Info,
        }
    }

    pub fn prev(self) -> (t: Tab)
        ensures
            t == tab_before(self),
    {
        match self {
            Tab::Info => Tab::Capture,
            Tab::Auth => Tab::Info,
            Tab::Body => Tab::Auth,
            Tab::Params => Tab::Body,
            Tab::UrlVars => Tab::Params,
            Tab::Headers => Tab::UrlVars,
            Tab::Capture => Tab::Headers,
        }
    }
}

/// Going to the next sub-tab and back again returns to where one was.
pub proof fn law_tab_cycle(t: Tab)
    ensures
        tab_before(tab_after(t)) == t,
        tab_after(tab_before(t)) == t,
{
}

/// How a request authenticates, as chosen in the editor.
#[derive(PartialEq, Eq, Structural, Clone, Copy, Debug)]
pub enum AuthKind {
    /// No authentication (shown as "None").
    NoAuth,
    Bearer,
    Basic,
    ApiKey,
    OAuth2,
}

impl AuthKind {
    pub fn label(self) -> (s: &'static str)
        ensures
            s@ == (match self {
                AuthKind::NoAuth => "None"@,
                AuthKind::Bearer => "Bearer"@,
                AuthKind::Basic => "Basic"@,
                AuthKind::ApiKey => "API Key"@,
                AuthKind::OAuth2 => "OAuth2"@,
            }),
    {
        match self {
            AuthKind::NoAuth => "None",
            AuthKind::Bearer => "Bearer",
            AuthKind::Basic => "Basic",
            AuthKind::ApiKey => "API Key",
            AuthKind::OAuth2 => "OAuth2",
        }
    }
}

/// The kind of body a request has, as chosen in the editor.
#[derive(PartialEq, Eq, Structural, Clone, Copy, Debug)]
pub enum BodyKind {
    /// No body (shown as "None").
    Empty,
    Raw,
    Json,
    Form,
    Multipart,
}

impl BodyKind {
    pub fn label(self) -> (s: &'static str)
        ensures
            s@ == (match self {
                BodyKind::Empty => "None"@,
                BodyKind::Raw => "Raw"@,
                BodyKind::Json => "JSON"@,
                BodyKind::Form => "Form"@,
                BodyKind::Multipart => "Multipart"@,
            }),
    {
        match self {
            BodyKind::Empty => "None",
            BodyKind::Raw => "Raw",
            BodyKind::Json => "JSON",
            BodyKind::Form => "Form",
            BodyKind::Multipart => "Multipart",
        }
    }
}

/// The name an OAuth2 grant is shown by.
pub fn oauth2_grant_label(g: &OAuth2Grant) -> (s: &'static str)
    ensures
        s@ == (match *g {
            OAuth2Grant::ClientCredentials => "client_credentials"@,
            OAuth2Grant::RefreshToken => "refresh_token"@,
        }),
{
    match g {
        OAuth2Grant::ClientCredentials => "client_credentials",
        OAuth2Grant::RefreshToken => "refresh_token",
    }
}

/// The name an API key location is shown by.
pub fn api_key_location_label(loc: &ApiKeyLocation) -> (s: &'static str)
    ensures
        s@ == (match *loc {
            ApiKeyLocation::Header => "Header"@,
            ApiKeyLocation::Query => "Query"@,
        }),
{
    match loc {
        ApiKeyLocation::Header => "Header",
        ApiKeyLocation::Query => "Query",
    }
}

/// The next choice in each selector's list, wrapping round; `forward`
/// false steps back instead.
pub open spec fn cycle_method(m: RequestType, forward: bool) -> RequestType {
    if forward {
        match m {
            RequestType::Get => RequestType::Post,
            RequestType::Post => RequestType::Put,
            RequestType::Put => RequestType::Patch,
            RequestType::Patch => RequestType::Delete,
            RequestType::Delete => RequestType::Get,
        }
    } else {
        match m {
            RequestType::Get => RequestType::Delete,
            RequestType::Post => RequestType::Get,
            RequestType::Put => RequestType::Post,
            RequestType::Patch => RequestType::Put,
            RequestType::Delete => RequestType::Patch,
        }
    }
}

pub open spec fn cycle_auth(k: AuthKind, forward: bool) -> AuthKind {
    if forward {
        match k {
            AuthKind::NoAuth => AuthKind::Bearer,
            AuthKind::Bearer => AuthKind::Basic,
            AuthKind::Basic => AuthKind::ApiKey,
            AuthKind::ApiKey => AuthKind::OAuth2,
            AuthKind::OAuth2 => AuthKind::NoAuth,
        }
    } else {
        match k {
            AuthKind::NoAuth => AuthKind::OAuth2,
            AuthKind::Bearer => AuthKind::NoAuth,
            AuthKind::Basic => AuthKind::Bearer,
            AuthKind::ApiKey => AuthKind::Basic,
            AuthKind::OAuth2 => AuthKind::ApiKey,
        }
    }
}

pub open spec fn cycle_body(k: BodyKind, forward: bool) -> BodyKind {
    if forward {
        match k {
            BodyKind::Empty => BodyKind::Raw,
            BodyKind::Raw => BodyKind::Json,
            BodyKind::Json => BodyKind::Form,
            BodyKind::Form => BodyKind::Multipart,
            BodyKind::Multipart => BodyKind::Empty,
        }
    } else {
        match k {
            BodyKind::Empty => BodyKind::Multipart,
            BodyKind::Raw => BodyKind::Empty,
            BodyKind::Json => BodyKind::Raw,
            BodyKind::Form => BodyKind::Json,
            BodyKind::Multipart => BodyKind::Form,
        }
    }
}

pub open spec fn cycle_location(l: ApiKeyLocation) -> ApiKeyLocation {
    match l {
        ApiKeyLocation::Header => ApiKeyLocation::Query,
        ApiKeyLocation::Query => ApiKeyLocation::Header,
    }
}

pub open spec fn cycle_grant(g: OAuth2Grant) -> OAuth2Grant {
    match g {
        OAuth2Grant::ClientCredentials => OAuth2Grant::RefreshToken,
        OAuth2Grant::RefreshToken => OAuth2Grant::ClientCredentials,
    }
}

fn next_method(m: RequestType, forward: bool) -> (r: RequestType)
    ensures
        r == cycle_method(m, forward),
{
    if forward {
        match m {
            RequestType::Get => RequestType::Post,
            RequestType::Post => RequestType::Put,
            RequestType::Put => RequestType::Patch,
            RequestType::Patch => RequestType::Delete,
            RequestType::Delete => RequestType::Get,
        }
    } else {
        match m {
            RequestType::Get => RequestType::Delete,
            RequestType::Post => RequestType::Get,
            RequestType::Put => RequestType::Post,
            RequestType::Patch => RequestType::Put,
            RequestType::Delete => RequestType::Patch,
        }
    }
}

fn next_auth(k: AuthKind, forward: bool) -> (r: AuthKind)
    ensures
        r == cycle_auth(k, forward),
{
    if forward {
        match k {
            AuthKind::NoAuth => AuthKind::Bearer,
            AuthKind::Bearer => AuthKind::Basic,
            AuthKind::Basic => AuthKind::ApiKey,
            AuthKind::ApiKey => AuthKind::OAuth2,
            AuthKind::OAuth2 => AuthKind::NoAuth,
        }
    } else {
        match k {
            AuthKind::NoAuth => AuthKind::OAuth2,
            AuthKind::Bearer => AuthKind::NoAuth,
            AuthKind::Basic => AuthKind::Bearer,
            AuthKind::ApiKey => AuthKind::Basic,
            AuthKind::OAuth2 => AuthKind::ApiKey,
        }
    }
}

fn next_body(k: BodyKind, forward: bool) -> (r: BodyKind)
    ensures
        r == cycle_body(k, forward),
{
    if forward {
        match k {
            BodyKind::Empty => BodyKind::Raw,
            BodyKind::Raw => BodyKind::Json,
            BodyKind::Json => BodyKind::Form,
            BodyKind::Form => BodyKind::Multipart,
            BodyKind::Multipart => BodyKind::Empty,
        }
    } else {
        match k {
            BodyKind::Empty => BodyKind::Multipart,
            BodyKind::Raw => BodyKind::Empty,
            BodyKind::Json => BodyKind::Raw,
            BodyKind::Form => BodyKind::Json,
            BodyKind::Multipart => BodyKind::Form,
        }
    }
}

fn next_location(l: ApiKeyLocation) -> (r: ApiKeyLocation)
    ensures
        r == cycle_location(l),
{
    match l {
        ApiKeyLocation::Header => ApiKeyLocation::Query,
        ApiKeyLocation::Query => ApiKeyLocation::Header,
    }
}

fn next_grant(g: OAuth2Grant) -> (r: OAuth2Grant)
    ensures
        r == cycle_grant(g),
{
    match g {
        OAuth2Grant::ClientCredentials => OAuth2Grant::RefreshToken,
        OAuth2Grant::RefreshToken => OAuth2Grant::ClientCredentials,
    }
}

/// The editor's focusable fields. Rows are numbered from 0.
#[derive(PartialEq, Eq, Structural, Clone, Copy, Debug)]
pub enum FocusId {
    MethodSelector,
    NameInput,
    UrlInput,
    AuthKindSelector,
    AuthBearerToken,
    AuthBasicUser,
    AuthBasicPass,
    AuthApiKey,
    AuthApiValue,
    AuthApiKeyLocation,
    AuthOAuth2Grant,
    AuthOAuth2ClientId,
    AuthOAuth2ClientSecret,
    AuthOAuth2TokenUrl,
    AuthOAuth2Scopes,
    AuthOAuth2RefreshToken,
    BodyKindSelector,
    /// The text of a raw or JSON body.
    BodyText,
    /// A form row's key (`false`) or value (`true`).
    BodyFormRow(usize, bool),
    /// A multipart row's text/file switch.
    BodyMultipartKind(usize),
    BodyMultipartKey(usize),
    BodyMultipartValue(usize),
    CaptureText,
    ParamEnabled(usize),
    ParamKey(usize),
    ParamValue(usize),
    UrlVarEnabled(usize),
    UrlVarKey(usize),
    UrlVarValue(usize),
    HeaderKey(usize),
    HeaderValue(usize),
}

/// A key/value row that can be switched off.
pub struct ParamRow {
    pub key: TextInput,
    pub value: TextInput,
    pub enabled: bool,
}

/// A multipart row: a key and either a text value or a file path.
pub struct MultipartRow {
    pub key: TextInput,
    pub value: TextInput,
    pub is_file: bool,
}

/// The request editor: which sub-tab is shown, which field has the focus,
/// whether that field is being typed into, and every field's content.
pub struct RequestEditor {
    pub tab: Tab,
    pub focused: Option<FocusId>,
    pub editing: bool,
    pub method: RequestType,
    pub name_input: TextInput,
    pub url_input: TextInput,
    pub auth_kind: AuthKind,
    pub auth_bearer_token: TextInput,
    pub auth_basic_user: TextInput,
    pub auth_basic_pass: TextInput,
    pub auth_api_key: TextInput,
    pub auth_api_value: TextInput,
    pub api_key_location: ApiKeyLocation,
    pub oauth2_grant: OAuth2Grant,
    pub oauth2_client_id: TextInput,
    pub oauth2_client_secret: TextInput,
    pub oauth2_token_url: TextInput,
    pub oauth2_scopes: TextInput,
    pub oauth2_refresh_token: TextInput,
    pub body_kind: BodyKind,
    pub body_editor: BodyEditor,
    pub body_form_rows: Vec<ParamRow>,
    pub body_multipart_rows: Vec<MultipartRow>,
    pub capture_editor: BodyEditor,
    pub param_rows: Vec<ParamRow>,
    pub url_var_rows: Vec<ParamRow>,
    pub header_rows: Vec<ParamRow>,
    /// Why the last attempt to read a request out of the editor failed.
    pub validation_error: Option<String>,
}

/// The fields one row contributes to the focus order: 0 a form row, 1 a
/// multipart row, 2 a query parameter, 3 a URL variable, 4 a header.
pub open spec fn row_group(i: usize, kind: u8) -> Seq<FocusId> {
    if kind == 0 {
        seq![FocusId::BodyFormRow(i, false), FocusId::BodyFormRow(i, true)]
    } else if kind == 1 {
        seq![FocusId::BodyMultipartKind(i), FocusId::BodyMultipartKey(i), FocusId::BodyMultipartValue(i)]
    } else if kind == 2 {
        seq![FocusId::ParamEnabled(i), FocusId::ParamKey(i), FocusId::ParamValue(i)]
    } else if kind == 3 {
        seq![FocusId::UrlVarEnabled(i), FocusId::UrlVarKey(i), FocusId::UrlVarValue(i)]
    } else {
        seq![FocusId::HeaderKey(i), FocusId::HeaderValue(i)]
    }
}

/// The fields of the first `n` rows of a kind, row by row.
pub open spec fn grouped(n: nat, kind: u8) -> Seq<FocusId>
    decreases n,
{
    if n == 0 {
        Seq::empty()
    } else {
        grouped((n - 1) as nat, kind) + row_group((n - 1) as usize, kind)
    }
}

/// The fields `j`/`k` move through on the editor's current sub-tab, in
/// order: on Info the method, name and URL; on Auth the kind selector and
/// the chosen kind's fields; on Body the kind selector and the chosen kind's
/// fields; on Params, URL Vars and Headers each row's fields; on Capture the
/// template.
pub open spec fn focus_order(e: RequestEditor) -> Seq<FocusId> {
    match e.tab {
        Tab::Info => seq![FocusId::MethodSelector, FocusId::NameInput, FocusId::UrlInput],
        Tab::Auth => seq![FocusId::AuthKindSelector] + match e.auth_kind {
            AuthKind::NoAuth => Seq::empty(),
            AuthKind::Bearer => seq![FocusId::AuthBearerToken],
            AuthKind::Basic => seq![FocusId::AuthBasicUser, FocusId::AuthBasicPass],
            AuthKind::ApiKey => seq![FocusId::AuthApiKey, FocusId::AuthApiValue, FocusId::AuthApiKeyLocation],
            AuthKind::OAuth2 => seq![
                FocusId::AuthOAuth2Grant,
                FocusId::AuthOAuth2ClientId,
                FocusId::AuthOAuth2ClientSecret,
                FocusId::AuthOAuth2TokenUrl,
                FocusId::AuthOAuth2Scopes,
            ] + if e.oauth2_grant == OAuth2Grant::RefreshToken {
                seq![FocusId::AuthOAuth2RefreshToken]
            } else {
                Seq::empty()
            },
        },
        Tab::Body => seq![FocusId::BodyKindSelector] + match e.body_kind {
            BodyKind::Empty => Seq::empty(),
            BodyKind::Raw => seq![FocusId::BodyText],
            BodyKind::Json => seq![FocusId::BodyText],
            BodyKind::Form => grouped(e.body_form_rows@.len(), 0),
            BodyKind::Multipart => grouped(e.body_multipart_rows@.len(), 1),
        },
        Tab::Params => grouped(e.param_rows@.len(), 2),
        Tab::UrlVars => grouped(e.url_var_rows@.len(), 3),
        Tab::Headers => grouped(e.header_rows@.len(), 4),
        Tab::Capture => seq![FocusId::CaptureText],
    }
}

/// The first position of `f` in `list`, or -1.
pub open spec fn index_in(list: Seq<FocusId>, f: FocusId) -> int
    decreases list.len(),
{
    if list.len() == 0 {
        -1
    } else if index_in(list.drop_last(), f) >= 0 {
        index_in(list.drop_last(), f)
    } else if list.last() == f {
        list.len() - 1
    } else {
        -1
    }
}

proof fn lemma_index_in_bounds(list: Seq<FocusId>, f: FocusId)
    ensures
        -1 <= index_in(list, f) < list.len(),
    decreases list.len(),
{
    if list.len() > 0 {
        lemma_index_in_bounds(list.drop_last(), f);
    }
}

/// The focus after moving down: the first field when nothing has the focus,
/// else the field after the focused one (after the first field when the
/// focused one is not listed), wrapping round; unchanged on an empty list.
pub open spec fn focus_down(list: Seq<FocusId>, cur: Option<FocusId>) -> Option<FocusId> {
    if list.len() == 0 {
        cur
    } else {
        match cur {
            None => Some(list[0]),
            Some(c) => {
                let p = if index_in(list, c) >= 0 { index_in(list, c) } else { 0 };
                Some(list[(p + 1) % (list.len() as int)])
            },
        }
    }
}

/// The focus after moving up: the last field when nothing has the focus,
/// else the field before the focused one (before the first field when the
/// focused one is not listed), wrapping round; unchanged on an empty list.
pub open spec fn focus_up(list: Seq<FocusId>, cur: Option<FocusId>) -> Option<FocusId> {
    if list.len() == 0 {
        cur
    } else {
        match cur {
            None => Some(list[list.len() - 1]),
            Some(c) => {
                let p = if index_in(list, c) >= 0 { index_in(list, c) } else { 0 };
                Some(list[(p + list.len() - 1) % (list.len() as int)])
            },
        }
    }
}

fn push_groups(out: &mut Vec<FocusId>, n: usize, kind: u8)
    ensures
        final(out)@ == old(out)@ + grouped(n as nat, kind),
{
    let mut i: usize = 0;
    assert(old(out)@ + grouped(0, kind) =~= old(out)@);
    while i < n
        invariant
            i <= n,
            out@ == old(out)@ + grouped(i as nat, kind),
        decreases n - i,
    {
        let ghost before = out@;
        if kind == 0 {
            out.push(FocusId::BodyFormRow(i, false));
            out.push(FocusId::BodyFormRow(i, true));
        } else if kind == 1 {
            out.push(FocusId::BodyMultipartKind(i));
            out.push(FocusId::BodyMultipartKey(i));
            out.push(FocusId::BodyMultipartValue(i));
        } else if kind == 2 {
            out.push(FocusId::ParamEnabled(i));
            out.push(FocusId::ParamKey(i));
            out.push(FocusId::ParamValue(i));
        } else if kind == 3 {
            out.push(FocusId::UrlVarEnabled(i));
            out.push(FocusId::UrlVarKey(i));
            out.push(FocusId::UrlVarValue(i));
        } else {
            out.push(FocusId::HeaderKey(i));
            out.push(FocusId::HeaderValue(i));
        }
        assert(out@ =~= before + row_group(i, kind));
        assert(grouped((i + 1) as nat, kind) == grouped(i as nat, kind) + row_group(i, kind));
        i = i + 1;
    }
}

impl RequestEditor {
    /// The fields `j`/`k` move through (see `focus_order`).
    pub fn focus_list(&self) -> (r: Vec<FocusId>)
        ensures
            r@ == focus_order(*self),
    {
        let mut out: Vec<FocusId> = Vec::new();
        match self.tab {
            Tab::Info => {
                out.push(FocusId::MethodSelector);
                out.push(FocusId::NameInput);
                out.push(FocusId::UrlInput);
            },
            Tab::Auth => {
                out.push(FocusId::AuthKindSelector);
                match self.auth_kind {
                    AuthKind::NoAuth => {},
                    AuthKind::Bearer => out.push(FocusId::AuthBearerToken),
                    AuthKind::Basic => {
                        out.push(FocusId::AuthBasicUser);
                        out.push(FocusId::AuthBasicPass);
                    },
                    AuthKind::ApiKey => {
                        out.push(FocusId::AuthApiKey);
                        out.push(FocusId::AuthApiValue);
                        out.push(FocusId::AuthApiKeyLocation);
                    },
                    AuthKind::OAuth2 => {
                        out.push(FocusId::AuthOAuth2Grant);
                        out.push(FocusId::AuthOAuth2ClientId);
                        out.push(FocusId::AuthOAuth2ClientSecret);
                        out.push(FocusId::AuthOAuth2TokenUrl);
                        out.push(FocusId::AuthOAuth2Scopes);
                        if self.oauth2_grant == OAuth2Grant::RefreshToken {
                            out.push(FocusId::AuthOAuth2RefreshToken);
                        }
                    },
                }
            },
            Tab::Body => {
                out.push(FocusId::BodyKindSelector);
                match self.body_kind {
                    BodyKind::Empty => {},
                    BodyKind::Raw => out.push(FocusId::BodyText),
                    BodyKind::Json => out.push(FocusId::BodyText),
                    BodyKind::Form => push_groups(&mut out, self.body_form_rows.len(), 0),
                    BodyKind::Multipart => push_groups(&mut out, self.body_multipart_rows.len(), 1),
                }
            },
            Tab::Params => push_groups(&mut out, self.param_rows.len(), 2),
            Tab::UrlVars => push_groups(&mut out, self.url_var_rows.len(), 3),
            Tab::Headers => push_groups(&mut out, self.header_rows.len(), 4),
            Tab::Capture => out.push(FocusId::CaptureText),
        }
        assert(out@ =~= focus_order(*self));
        out
    }
}

fn index_of_focus(list: &Vec<FocusId>, f: FocusId) -> (r: usize)
    ensures
        r as int == (if index_in(list@, f) >= 0 { index_in(list@, f) } else { 0 }),
{
    let mut found: Option<usize> = None;
    let mut i: usize = 0;
    while i < list.len()
        invariant
            i <= list@.len(),
            match found {
                Some(k) => index_in(list@.take(i as int), f) == k,
                None => index_in(list@.take(i as int), f) == -1,
            },
        decreases list@.len() - i,
    {
        assert(list@.take(i + 1).drop_last() =~= list@.take(i as int));
        if found.is_none() && list[i] == f {
            found = Some(i);
        }
        i = i + 1;
    }
    assert(list@.take(i as int) =~= list@);
    match found {
        Some(k) => k,
        None => 0,
    }
}

/// Every text field, the capture template and the validation message are
/// as they were.
pub open spec fn same_inputs(o: RequestEditor, n: RequestEditor) -> bool {
    &&& n.name_input == o.name_input
    &&& n.url_input == o.url_input
    &&& n.auth_bearer_token == o.auth_bearer_token
    &&& n.auth_basic_user == o.auth_basic_user
    &&& n.auth_basic_pass == o.auth_basic_pass
    &&& n.auth_api_key == o.auth_api_key
    &&& n.auth_api_value == o.auth_api_value
    &&& n.oauth2_client_id == o.oauth2_client_id
    &&& n.oauth2_client_secret == o.oauth2_client_secret
    &&& n.oauth2_token_url == o.oauth2_token_url
    &&& n.oauth2_scopes == o.oauth2_scopes
    &&& n.oauth2_refresh_token == o.oauth2_refresh_token
    &&& n.capture_editor == o.capture_editor
    &&& n.validation_error == o.validation_error
}

/// Every row is as it was.
pub open spec fn same_rows(o: RequestEditor, n: RequestEditor) -> bool {
    &&& n.body_form_rows@ == o.body_form_rows@
    &&& n.body_multipart_rows@ == o.body_multipart_rows@
    &&& n.param_rows@ == o.param_rows@
    &&& n.url_var_rows@ == o.url_var_rows@
    &&& n.header_rows@ == o.header_rows@
}

/// Every selector and the body text are as they were.
pub open spec fn same_choices(o: RequestEditor, n: RequestEditor) -> bool {
    &&& n.method == o.method
    &&& n.auth_kind == o.auth_kind
    &&& n.api_key_location == o.api_key_location
    &&& n.oauth2_grant == o.oauth2_grant
    &&& n.body_kind == o.body_kind
    &&& n.body_editor == o.body_editor
}

/// The sub-tab, the focus and the typing state are as they were.
pub open spec fn same_place(o: RequestEditor, n: RequestEditor) -> bool {
    &&& n.tab == o.tab
    &&& n.focused == o.focused
    &&& n.editing == o.editing
}

/// Nothing changed.
pub open spec fn unchanged(o: RequestEditor, n: RequestEditor) -> bool {
    same_inputs(o, n) && same_rows(o, n) && same_choices(o, n) && same_place(o, n)
}

/// Whether `f` is one of the choosers that `e`, `h` and `l` step through.
pub open spec fn is_selector(f: FocusId) -> bool {
    f == FocusId::MethodSelector || f == FocusId::AuthKindSelector || f == FocusId::AuthApiKeyLocation
        || f == FocusId::AuthOAuth2Grant || f == FocusId::BodyKindSelector
}

/// The body editor helps with JSON exactly when the body kind is JSON.
pub open spec fn mode_for(k: BodyKind) -> EditorMode {
    if k == BodyKind::Json {
        EditorMode::Json
    } else {
        EditorMode::Plain
    }
}

/// The selector that has the focus stepped forward (or back); everything
/// else as it was, except that the body editor follows the body kind.
pub open spec fn selector_stepped(o: RequestEditor, n: RequestEditor, forward: bool) -> bool {
    let f = o.focused;
    &&& same_inputs(o, n)
    &&& same_rows(o, n)
    &&& same_place(o, n)
    &&& n.method == (if f == Some(FocusId::MethodSelector) { cycle_method(o.method, forward) } else { o.method })
    &&& n.auth_kind == (if f == Some(FocusId::AuthKindSelector) { cycle_auth(o.auth_kind, forward) } else { o.auth_kind })
    &&& n.api_key_location == (if f == Some(FocusId::AuthApiKeyLocation) { cycle_location(o.api_key_location) } else { o.api_key_location })
    &&& n.oauth2_grant == (if f == Some(FocusId::AuthOAuth2Grant) { cycle_grant(o.oauth2_grant) } else { o.oauth2_grant })
    &&& n.body_kind == (if f == Some(FocusId::BodyKindSelector) { cycle_body(o.body_kind, forward) } else { o.body_kind })
    &&& if f == Some(FocusId::BodyKindSelector) {
        &&& n.body_editor.mode == mode_for(n.body_kind)
        &&& n.body_editor.textarea == o.body_editor.textarea
        &&& n.body_editor.enabled == o.body_editor.enabled
    } else {
        n.body_editor == o.body_editor
    }
}

/// The sub-tab moved forward (or back); nothing has the focus and nothing is
/// being typed into.
pub open spec fn tab_moved(o: RequestEditor, n: RequestEditor, forward: bool) -> bool {
    &&& same_inputs(o, n)
    &&& same_rows(o, n)
    &&& same_choices(o, n)
    &&& n.tab == (if forward { tab_after(o.tab) } else { tab_before(o.tab) })
    &&& n.focused is None
    &&& !n.editing
}

/// The focus moved down (or up) the sub-tab's fields.
pub open spec fn focus_moved(o: RequestEditor, n: RequestEditor, down: bool) -> bool {
    &&& same_inputs(o, n)
    &&& same_rows(o, n)
    &&& same_choices(o, n)
    &&& n.tab == o.tab
    &&& n.editing == o.editing
    &&& n.focused == (if down { focus_down(focus_order(o), o.focused) } else { focus_up(focus_order(o), o.focused) })
}

pub open spec fn param_toggled(r: ParamRow) -> ParamRow {
    ParamRow { key: r.key, value: r.value, enabled: !r.enabled }
}

pub open spec fn multipart_toggled(r: MultipartRow) -> MultipartRow {
    MultipartRow { key: r.key, value: r.value, is_file: !r.is_file }
}

/// Only the rows changed, as given.
pub open spec fn rows_changed(
    o: RequestEditor,
    n: RequestEditor,
    form: Seq<ParamRow>,
    multi: Seq<MultipartRow>,
    params: Seq<ParamRow>,
    vars: Seq<ParamRow>,
    headers: Seq<ParamRow>,
) -> bool {
    &&& same_inputs(o, n)
    &&& same_choices(o, n)
    &&& n.body_form_rows@ == form
    &&& n.body_multipart_rows@ == multi
    &&& n.param_rows@ == params
    &&& n.url_var_rows@ == vars
    &&& n.header_rows@ == headers
}

fn toggle_param(rows: &mut Vec<ParamRow>, i: usize)
    requires
        i < old(rows)@.len(),
    ensures
        final(rows)@ == old(rows)@.update(i as int, param_toggled(old(rows)@[i as int])),
{
    let mut r = rows.remove(i);
    r.enabled = !r.enabled;
    rows.insert(i, r);
    assert(rows@ =~= old(rows)@.update(i as int, param_toggled(old(rows)@[i as int])));
}

fn toggle_multipart(rows: &mut Vec<MultipartRow>, i: usize)
    requires
        i < old(rows)@.len(),
    ensures
        final(rows)@ == old(rows)@.update(i as int, multipart_toggled(old(rows)@[i as int])),
{
    let mut r = rows.remove(i);
    r.is_file = !r.is_file;
    rows.insert(i, r);
    assert(rows@ =~= old(rows)@.update(i as int, multipart_toggled(old(rows)@[i as int])));
}

/// A title made of `prefix` and a row's number counted from 1.
pub open spec fn numbered(prefix: Seq<char>, i: nat) -> Seq<char> {
    prefix + digits(i + 1)
}

fn numbered_title(prefix: &str, i: usize) -> (s: String)
    requires
        i < usize::MAX,
    ensures
        s@ == numbered(prefix@, i as nat),
{
    let mut v = to_chars(prefix);
    push_decimal(&mut v, i + 1);
    from_chars(&v)
}

impl ParamRow {
    /// An enabled row with empty fields titled `key_title` and `val_title`.
    pub fn new(key_title: String, val_title: String) -> (r: Self)
        ensures
            r.key.text() == Seq::<char>::empty(),
            r.value.text() == Seq::<char>::empty(),
            r.key.title@ == key_title@,
            r.value.title@ == val_title@,
            !r.key.enabled && !r.value.enabled,
            r.enabled,
    {
        ParamRow { key: TextInput::new(key_title), value: TextInput::new(val_title), enabled: true }
    }
}

impl MultipartRow {
    /// A text row with empty fields titled `key_title` and `val_title`.
    pub fn new(key_title: String, val_title: String) -> (r: Self)
        ensures
            r.key.text() == Seq::<char>::empty(),
            r.value.text() == Seq::<char>::empty(),
            r.key.title@ == key_title@,
            r.value.title@ == val_title@,
            !r.key.enabled && !r.value.enabled,
            !r.is_file,
    {
        MultipartRow { key: TextInput::new(key_title), value: TextInput::new(val_title), is_file: false }
    }
}

/// A fresh row as `a` adds it after `n` rows: fields titled by `kp` and
/// `vp` with the row's number, empty and enabled.
pub open spec fn fresh_param(r: ParamRow, kp: Seq<char>, vp: Seq<char>, n: nat) -> bool {
    &&& r.key.text() == Seq::<char>::empty()
    &&& r.value.text() == Seq::<char>::empty()
    &&& r.key.title@ == numbered(kp, n)
    &&& r.value.title@ == numbered(vp, n)
    &&& !r.key.enabled && !r.value.enabled
    &&& r.enabled
}

pub open spec fn fresh_multipart(r: MultipartRow, n: nat) -> bool {
    &&& r.key.text() == Seq::<char>::empty()
    &&& r.value.text() == Seq::<char>::empty()
    &&& r.key.title@ == numbered("Key "@, n)
    &&& r.value.title@ == numbered("Value "@, n)
    &&& !r.key.enabled && !r.value.enabled
    &&& !r.is_file
}

fn add_param_row(rows: &mut Vec<ParamRow>, kp: &str, vp: &str)
    requires
        old(rows)@.len() < usize::MAX,
    ensures
        final(rows)@.len() == old(rows)@.len() + 1,
        final(rows)@.drop_last() == old(rows)@,
        fresh_param(final(rows)@.last(), kp@, vp@, old(rows)@.len()),
{
    let i = rows.len();
    let row = ParamRow::new(numbered_title(kp, i), numbered_title(vp, i));
    rows.push(row);
    assert(rows@.drop_last() =~= old(rows)@);
}

/// A text field that is the typing target may have been typed into (its
/// flag and title stay); any other is as it was.
pub open spec fn kept_or_typed(a: TextInput, b: TextInput, target: bool) -> bool {
    if target {
        b.enabled == a.enabled && b.title == a.title
    } else {
        b == a
    }
}

/// Row `i`'s key (`which` 0) or value (`which` 1) may have been typed into;
/// every other row and field is as it was.
pub open spec fn params_typed(o: Seq<ParamRow>, n: Seq<ParamRow>, i: int, which: int) -> bool {
    &&& n.len() == o.len()
    &&& forall|j: int| 0 <= j < o.len() ==> if j == i {
        &&& n[j].enabled == o[j].enabled
        &&& kept_or_typed(o[j].key, n[j].key, which == 0)
        &&& kept_or_typed(o[j].value, n[j].value, which == 1)
    } else {
        n[j] == o[j]
    }
}

pub open spec fn multis_typed(o: Seq<MultipartRow>, n: Seq<MultipartRow>, i: int, which: int) -> bool {
    &&& n.len() == o.len()
    &&& forall|j: int| 0 <= j < o.len() ==> if j == i {
        &&& n[j].is_file == o[j].is_file
        &&& kept_or_typed(o[j].key, n[j].key, which == 0)
        &&& kept_or_typed(o[j].value, n[j].value, which == 1)
    } else {
        n[j] == o[j]
    }
}

/// A field handed a key press: while enabled it changes as
/// `TextInput::typed` says, otherwise it is left as it was.
pub open spec fn field_took(a: TextInput, b: TextInput, key: KeyPress) -> bool {
    if a.enabled {
        a.typed(&b, key)
    } else {
        b == a
    }
}

/// An editor handed a key press: while enabled it changes as
/// `BodyEditor::edited` says, otherwise it is left as it was.
pub open spec fn editor_took(a: BodyEditor, b: BodyEditor, key: KeyPress) -> bool {
    if a.enabled {
        a.edited(&b, key)
    } else {
        b == a
    }
}

/// Row `i`'s key (`which` 0) or value (`which` 1), where there is such a
/// row, took the key press (see `field_took`).
pub open spec fn param_typed_with(o: Seq<ParamRow>, n: Seq<ParamRow>, i: int, which: int, key: KeyPress) -> bool {
    0 <= i < o.len() ==> if which == 0 {
        field_took(o[i].key, n[i].key, key)
    } else {
        field_took(o[i].value, n[i].value, key)
    }
}

/// The same for a multipart row.
pub open spec fn multi_typed_with(o: Seq<MultipartRow>, n: Seq<MultipartRow>, i: int, which: int, key: KeyPress) -> bool {
    0 <= i < o.len() ==> if which == 0 {
        field_took(o[i].key, n[i].key, key)
    } else {
        field_took(o[i].value, n[i].value, key)
    }
}

/// How the focused text field took a key press while typing (see
/// `field_took` and `editor_took`).
pub open spec fn focused_typed(o: RequestEditor, n: RequestEditor, key: KeyPress) -> bool {
    match o.focused {
        Some(FocusId::NameInput) => field_took(o.name_input, n.name_input, key),
        Some(FocusId::UrlInput) => field_took(o.url_input, n.url_input, key),
        Some(FocusId::AuthBearerToken) => field_took(o.auth_bearer_token, n.auth_bearer_token, key),
        Some(FocusId::AuthBasicUser) => field_took(o.auth_basic_user, n.auth_basic_user, key),
        Some(FocusId::AuthBasicPass) => field_took(o.auth_basic_pass, n.auth_basic_pass, key),
        Some(FocusId::AuthApiKey) => field_took(o.auth_api_key, n.auth_api_key, key),
        Some(FocusId::AuthApiValue) => field_took(o.auth_api_value, n.auth_api_value, key),
        Some(FocusId::AuthOAuth2ClientId) => field_took(o.oauth2_client_id, n.oauth2_client_id, key),
        Some(FocusId::AuthOAuth2ClientSecret) => field_took(o.oauth2_client_secret, n.oauth2_client_secret, key),
        Some(FocusId::AuthOAuth2TokenUrl) => field_took(o.oauth2_token_url, n.oauth2_token_url, key),
        Some(FocusId::AuthOAuth2Scopes) => field_took(o.oauth2_scopes, n.oauth2_scopes, key),
        Some(FocusId::AuthOAuth2RefreshToken) => field_took(o.oauth2_refresh_token, n.oauth2_refresh_token, key),
        Some(FocusId::BodyText) => editor_took(o.body_editor, n.body_editor, key),
        Some(FocusId::CaptureText) => editor_took(o.capture_editor, n.capture_editor, key),
        Some(FocusId::BodyFormRow(i, v)) => param_typed_with(o.body_form_rows@, n.body_form_rows@, i as int, if v { 1 } else { 0 }, key),
        Some(FocusId::BodyMultipartKey(i)) => multi_typed_with(o.body_multipart_rows@, n.body_multipart_rows@, i as int, 0, key),
        Some(FocusId::BodyMultipartValue(i)) => multi_typed_with(o.body_multipart_rows@, n.body_multipart_rows@, i as int, 1, key),
        Some(FocusId::ParamKey(i)) => param_typed_with(o.param_rows@, n.param_rows@, i as int, 0, key),
        Some(FocusId::ParamValue(i)) => param_typed_with(o.param_rows@, n.param_rows@, i as int, 1, key),
        Some(FocusId::UrlVarKey(i)) => param_typed_with(o.url_var_rows@, n.url_var_rows@, i as int, 0, key),
        Some(FocusId::UrlVarValue(i)) => param_typed_with(o.url_var_rows@, n.url_var_rows@, i as int, 1, key),
        Some(FocusId::HeaderKey(i)) => param_typed_with(o.header_rows@, n.header_rows@, i as int, 0, key),
        Some(FocusId::HeaderValue(i)) => param_typed_with(o.header_rows@, n.header_rows@, i as int, 1, key),
        _ => true,
    }
}

/// While typing: only the focused text field may have changed.
pub open spec fn typed_only(o: RequestEditor, n: RequestEditor) -> bool {
    let f = o.focused;
    &&& same_place(o, n)
    &&& n.method == o.method
    &&& n.auth_kind == o.auth_kind
    &&& n.api_key_location == o.api_key_location
    &&& n.oauth2_grant == o.oauth2_grant
    &&& n.body_kind == o.body_kind
    &&& n.validation_error == o.validation_error
    &&& kept_or_typed(o.name_input, n.name_input, f == Some(FocusId::NameInput))
    &&& kept_or_typed(o.url_input, n.url_input, f == Some(FocusId::UrlInput))
    &&& kept_or_typed(o.auth_bearer_token, n.auth_bearer_token, f == Some(FocusId::AuthBearerToken))
    &&& kept_or_typed(o.auth_basic_user, n.auth_basic_user, f == Some(FocusId::AuthBasicUser))
    &&& kept_or_typed(o.auth_basic_pass, n.auth_basic_pass, f == Some(FocusId::AuthBasicPass))
    &&& kept_or_typed(o.auth_api_key, n.auth_api_key, f == Some(FocusId::AuthApiKey))
    &&& kept_or_typed(o.auth_api_value, n.auth_api_value, f == Some(FocusId::AuthApiValue))
    &&& kept_or_typed(o.oauth2_client_id, n.oauth2_client_id, f == Some(FocusId::AuthOAuth2ClientId))
    &&& kept_or_typed(o.oauth2_client_secret, n.oauth2_client_secret, f == Some(FocusId::AuthOAuth2ClientSecret))
    &&& kept_or_typed(o.oauth2_token_url, n.oauth2_token_url, f == Some(FocusId::AuthOAuth2TokenUrl))
    &&& kept_or_typed(o.oauth2_scopes, n.oauth2_scopes, f == Some(FocusId::AuthOAuth2Scopes))
    &&& kept_or_typed(o.oauth2_refresh_token, n.oauth2_refresh_token, f == Some(FocusId::AuthOAuth2RefreshToken))
    &&& if f == Some(FocusId::BodyText) {
        n.body_editor.enabled == o.body_editor.enabled && n.body_editor.mode == o.body_editor.mode
    } else {
        n.body_editor == o.body_editor
    }
    &&& if f == Some(FocusId::CaptureText) {
        n.capture_editor.enabled == o.capture_editor.enabled && n.capture_editor.mode == o.capture_editor.mode
    } else {
        n.capture_editor == o.capture_editor
    }
    &&& match f {
        Some(FocusId::BodyFormRow(i, v)) => params_typed(o.body_form_rows@, n.body_form_rows@, i as int, if v { 1 } else { 0 }),
        _ => n.body_form_rows@ == o.body_form_rows@,
    }
    &&& match f {
        Some(FocusId::BodyMultipartKey(i)) => multis_typed(o.body_multipart_rows@, n.body_multipart_rows@, i as int, 0),
        Some(FocusId::BodyMultipartValue(i)) => multis_typed(o.body_multipart_rows@, n.body_multipart_rows@, i as int, 1),
        _ => n.body_multipart_rows@ == o.body_multipart_rows@,
    }
    &&& match f {
        Some(FocusId::ParamKey(i)) => params_typed(o.param_rows@, n.param_rows@, i as int, 0),
        Some(FocusId::ParamValue(i)) => params_typed(o.param_rows@, n.param_rows@, i as int, 1),
        _ => n.param_rows@ == o.param_rows@,
    }
    &&& match f {
        Some(FocusId::UrlVarKey(i)) => params_typed(o.url_var_rows@, n.url_var_rows@, i as int, 0),
        Some(FocusId::UrlVarValue(i)) => params_typed(o.url_var_rows@, n.url_var_rows@, i as int, 1),
        _ => n.url_var_rows@ == o.url_var_rows@,
    }
    &&& match f {
        Some(FocusId::HeaderKey(i)) => params_typed(o.header_rows@, n.header_rows@, i as int, 0),
        Some(FocusId::HeaderValue(i)) => params_typed(o.header_rows@, n.header_rows@, i as int, 1),
        _ => n.header_rows@ == o.header_rows@,
    }
}

fn type_into_param(rows: &mut Vec<ParamRow>, i: usize, which: u8, key: &KeyPress)
    requires
        which <= 1,
    ensures
        params_typed(old(rows)@, final(rows)@, i as int, which as int),
        param_typed_with(old(rows)@, final(rows)@, i as int, which as int, *key),
{
    if i < rows.len() {
        let ghost o = rows@;
        let mut r = rows.remove(i);
        if which == 0 {
            r.key.handle_event(key);
        } else {
            r.value.handle_event(key);
        }
        rows.insert(i, r);
        assert forall|j: int| 0 <= j < o.len() && j != i implies rows@[j] == o[j] by {
            if j < i {
            } else {
            }
        }
    }
}

fn type_into_multipart(rows: &mut Vec<MultipartRow>, i: usize, which: u8, key: &KeyPress)
    requires
        which <= 1,
    ensures
        multis_typed(old(rows)@, final(rows)@, i as int, which as int),
        multi_typed_with(old(rows)@, final(rows)@, i as int, which as int, *key),
{
    if i < rows.len() {
        let ghost o = rows@;
        let mut r = rows.remove(i);
        if which == 0 {
            r.key.handle_event(key);
        } else {
            r.value.handle_event(key);
        }
        rows.insert(i, r);
        assert forall|j: int| 0 <= j < o.len() && j != i implies rows@[j] == o[j] by {
            if j < i {
            } else {
            }
        }
    }
}

impl RequestEditor {
    fn type_into_focused(&mut self, key: &KeyPress)
        ensures
            typed_only(*old(self), *final(self)),
            focused_typed(*old(self), *final(self), *key),
    {
        match self.focused {
            Some(FocusId::NameInput) => {
                self.name_input.handle_event(key);
            },
            Some(FocusId::UrlInput) => {
                self.url_input.handle_event(key);
            },
            Some(FocusId::AuthBearerToken) => {
                self.auth_bearer_token.handle_event(key);
            },
            Some(FocusId::AuthBasicUser) => {
                self.auth_basic_user.handle_event(key);
            },
            Some(FocusId::AuthBasicPass) => {
                self.auth_basic_pass.handle_event(key);
            },
            Some(FocusId::AuthApiKey) => {
                self.auth_api_key.handle_event(key);
            },
            Some(FocusId::AuthApiValue) => {
                self.auth_api_value.handle_event(key);
            },
            Some(FocusId::AuthOAuth2ClientId) => {
                self.oauth2_client_id.handle_event(key);
            },
            Some(FocusId::AuthOAuth2ClientSecret) => {
                self.oauth2_client_secret.handle_event(key);
            },
            Some(FocusId::AuthOAuth2TokenUrl) => {
                self.oauth2_token_url.handle_event(key);
            },
            Some(FocusId::AuthOAuth2Scopes) => {
                self.oauth2_scopes.handle_event(key);
            },
            Some(FocusId::AuthOAuth2RefreshToken) => {
                self.oauth2_refresh_token.handle_event(key);
            },
            Some(FocusId::BodyText) => {
                self.body_editor.handle_event(key);
            },
            Some(FocusId::CaptureText) => {
                self.capture_editor.handle_event(key);
            },
            Some(FocusId::BodyFormRow(i, v)) => type_into_param(&mut self.body_form_rows, i, if v { 1 } else { 0 }, key),
            Some(FocusId::BodyMultipartKey(i)) => type_into_multipart(&mut self.body_multipart_rows, i, 0, key),
            Some(FocusId::BodyMultipartValue(i)) => type_into_multipart(&mut self.body_multipart_rows, i, 1, key),
            Some(FocusId::ParamKey(i)) => type_into_param(&mut self.param_rows, i, 0, key),
            Some(FocusId::ParamValue(i)) => type_into_param(&mut self.param_rows, i, 1, key),
            Some(FocusId::UrlVarKey(i)) => type_into_param(&mut self.url_var_rows, i, 0, key),
            Some(FocusId::UrlVarValue(i)) => type_into_param(&mut self.url_var_rows, i, 1, key),
            Some(FocusId::HeaderKey(i)) => type_into_param(&mut self.header_rows, i, 0, key),
            Some(FocusId::HeaderValue(i)) => type_into_param(&mut self.header_rows, i, 1, key),
            _ => {},
        }
    }

    fn move_tab(&mut self, forward: bool)
        ensures
            tab_moved(*old(self), *final(self), forward),
    {
        self.tab = if forward { self.tab.next() } else { self.tab.prev() };
        self.focused = None;
        self.editing = false;
    }

    fn move_focus(&mut self, down: bool)
        ensures
            focus_moved(*old(self), *final(self), down),
    {
        let list = self.focus_list();
        if list.len() == 0 {
            return;
        }
        let n = list.len();
        proof {
            match self.focused {
                Some(c) => lemma_index_in_bounds(list@, c),
                None => {},
            }
        }
        self.focused = match self.focused {
            None => if down { Some(list[0]) } else { Some(list[n - 1]) },
            Some(cur) => {
                let p = index_of_focus(&list, cur);
                if down {
                    Some(list[(p + 1) % n])
                } else {
                    let q = if p == 0 { n - 1 } else { p - 1 };
                    proof {
                        let (pi, ni) = (p as int, n as int);
                        assert(0 <= pi < ni);
                        assert((pi + ni - 1) % ni == (if pi == 0 { ni - 1 } else { pi - 1 })) by (nonlinear_arith)
                            requires 0 <= pi < ni;
                    }
                    Some(list[q])
                }
            },
        };
    }

    fn step_selector(&mut self, forward: bool)
        requires
            old(self).focused matches Some(f) && is_selector(f),
        ensures
            selector_stepped(*old(self), *final(self), forward),
    {
        match self.focused {
            Some(FocusId::MethodSelector) => self.method = next_method(self.method, forward),
            Some(FocusId::AuthKindSelector) => self.auth_kind = next_auth(self.auth_kind, forward),
            Some(FocusId::AuthApiKeyLocation) => self.api_key_location = next_location(self.api_key_location),
            Some(FocusId::AuthOAuth2Grant) => self.oauth2_grant = next_grant(self.oauth2_grant),
            Some(FocusId::BodyKindSelector) => {
                self.body_kind = next_body(self.body_kind, forward);
                let mode = if self.body_kind == BodyKind::Json { EditorMode::Json } else { EditorMode::Plain };
                self.body_editor.set_mode(mode);
            },
            _ => {},
        }
    }

    fn focused_is_selector(&self) -> (b: bool)
        ensures
            b == (self.focused matches Some(f) && is_selector(f)),
    {
        match self.focused {
            Some(FocusId::MethodSelector) | Some(FocusId::AuthKindSelector) | Some(FocusId::AuthApiKeyLocation)
            | Some(FocusId::AuthOAuth2Grant) | Some(FocusId::BodyKindSelector) => true,
            _ => false,
        }
    }
}

/// What `e` does when not typing: a focused selector steps forward, a
/// multipart row's switch flips between text and file, any other focused
/// field starts being typed into and is switched on, every other field
/// off; with nothing focused, nothing.
pub open spec fn e_effect(o: RequestEditor, n: RequestEditor) -> bool {
    match o.focused {
        None => unchanged(o, n),
        Some(f) => if is_selector(f) {
            selector_stepped(o, n, true)
        } else {
            match f {
                FocusId::BodyMultipartKind(i) => same_place(o, n) && rows_changed(
                    o,
                    n,
                    o.body_form_rows@,
                    if i < o.body_multipart_rows@.len() {
                        o.body_multipart_rows@.update(i as int, multipart_toggled(o.body_multipart_rows@[i as int]))
                    } else {
                        o.body_multipart_rows@
                    },
                    o.param_rows@,
                    o.url_var_rows@,
                    o.header_rows@,
                ),
                _ => {
                    &&& enabled_as(o, n, o.focused)
                    &&& same_settings(o, n)
                    &&& n.editing
                },
            }
        },
    }
}

/// `rows` with row `i` switched on or off, when there is such a row.
pub open spec fn toggled_at(rows: Seq<ParamRow>, i: usize) -> Seq<ParamRow> {
    if i < rows.len() {
        rows.update(i as int, param_toggled(rows[i as int]))
    } else {
        rows
    }
}

/// What `t` does: switches the focused query parameter or URL variable on or
/// off, or flips the focused multipart row between text and file.
pub open spec fn t_effect(o: RequestEditor, n: RequestEditor) -> bool {
    &&& same_place(o, n)
    &&& match o.focused {
        Some(FocusId::ParamEnabled(i)) => rows_changed(o, n, o.body_form_rows@, o.body_multipart_rows@, toggled_at(o.param_rows@, i), o.url_var_rows@, o.header_rows@),
        Some(FocusId::ParamKey(i)) => rows_changed(o, n, o.body_form_rows@, o.body_multipart_rows@, toggled_at(o.param_rows@, i), o.url_var_rows@, o.header_rows@),
        Some(FocusId::ParamValue(i)) => rows_changed(o, n, o.body_form_rows@, o.body_multipart_rows@, toggled_at(o.param_rows@, i), o.url_var_rows@, o.header_rows@),
        Some(FocusId::UrlVarEnabled(i)) => rows_changed(o, n, o.body_form_rows@, o.body_multipart_rows@, o.param_rows@, toggled_at(o.url_var_rows@, i), o.header_rows@),
        Some(FocusId::UrlVarKey(i)) => rows_changed(o, n, o.body_form_rows@, o.body_multipart_rows@, o.param_rows@, toggled_at(o.url_var_rows@, i), o.header_rows@),
        Some(FocusId::UrlVarValue(i)) => rows_changed(o, n, o.body_form_rows@, o.body_multipart_rows@, o.param_rows@, toggled_at(o.url_var_rows@, i), o.header_rows@),
        Some(FocusId::BodyMultipartKind(i)) => rows_changed(
            o,
            n,
            o.body_form_rows@,
            if i < o.body_multipart_rows@.len() {
                o.body_multipart_rows@.update(i as int, multipart_toggled(o.body_multipart_rows@[i as int]))
            } else {
                o.body_multipart_rows@
            },
            o.param_rows@,
            o.url_var_rows@,
            o.header_rows@,
        ),
        _ => same_inputs(o, n) && same_rows(o, n) && same_choices(o, n),
    }
}

/// The smaller of two numbers.
pub open spec fn at_most(a: usize, b: usize) -> usize {
    if a <= b { a } else { b }
}

/// What `d` does: deletes the focused row, unless it is the only one of its
/// list, and focuses the first field of the row now in its place (of the
/// new last row when the last was deleted).
pub open spec fn d_effect(o: RequestEditor, n: RequestEditor) -> bool {
    let fr = o.body_form_rows@;
    let mr = o.body_multipart_rows@;
    let pr = o.param_rows@;
    let vr = o.url_var_rows@;
    let hr = o.header_rows@;
    let param_i: Option<usize> = match o.focused {
        Some(FocusId::ParamEnabled(i)) => Some(i),
        Some(FocusId::ParamKey(i)) => Some(i),
        Some(FocusId::ParamValue(i)) => Some(i),
        _ => None,
    };
    let var_i: Option<usize> = match o.focused {
        Some(FocusId::UrlVarEnabled(i)) => Some(i),
        Some(FocusId::UrlVarKey(i)) => Some(i),
        Some(FocusId::UrlVarValue(i)) => Some(i),
        _ => None,
    };
    let header_i: Option<usize> = match o.focused {
        Some(FocusId::HeaderKey(i)) => Some(i),
        Some(FocusId::HeaderValue(i)) => Some(i),
        _ => None,
    };
    let form_i: Option<usize> = match o.focused {
        Some(FocusId::BodyFormRow(i, _)) => Some(i),
        _ => None,
    };
    let multi_i: Option<usize> = match o.focused {
        Some(FocusId::BodyMultipartKind(i)) => Some(i),
        Some(FocusId::BodyMultipartKey(i)) => Some(i),
        Some(FocusId::BodyMultipartValue(i)) => Some(i),
        _ => None,
    };
    &&& n.tab == o.tab
    &&& n.editing == o.editing
    &&& if param_i matches Some(i) && i < pr.len() && pr.len() > 1 {
        let i = param_i->0;
        rows_changed(o, n, fr, mr, pr.remove(i as int), vr, hr)
            && n.focused == Some(FocusId::ParamEnabled(at_most(i, (pr.len() - 2) as usize)))
    } else if var_i matches Some(i) && i < vr.len() && vr.len() > 1 {
        let i = var_i->0;
        rows_changed(o, n, fr, mr, pr, vr.remove(i as int), hr)
            && n.focused == Some(FocusId::UrlVarEnabled(at_most(i, (vr.len() - 2) as usize)))
    } else if header_i matches Some(i) && i < hr.len() && hr.len() > 1 {
        let i = header_i->0;
        rows_changed(o, n, fr, mr, pr, vr, hr.remove(i as int))
            && n.focused == Some(FocusId::HeaderKey(at_most(i, (hr.len() - 2) as usize)))
    } else if form_i matches Some(i) && i < fr.len() && fr.len() > 1 {
        let i = form_i->0;
        rows_changed(o, n, fr.remove(i as int), mr, pr, vr, hr)
            && n.focused == Some(FocusId::BodyFormRow(at_most(i, (fr.len() - 2) as usize), false))
    } else if multi_i matches Some(i) && i < mr.len() && mr.len() > 1 {
        let i = multi_i->0;
        rows_changed(o, n, fr, mr.remove(i as int), pr, vr, hr)
            && n.focused == Some(FocusId::BodyMultipartKind(at_most(i, (mr.len() - 2) as usize)))
    } else {
        unchanged(o, n)
    }
}

/// `n` is `o` with one fresh row (see `fresh_param`) added.
pub open spec fn param_added(o: Seq<ParamRow>, n: Seq<ParamRow>, kp: Seq<char>, vp: Seq<char>) -> bool {
    n.len() == o.len() + 1 && n.drop_last() == o && fresh_param(n.last(), kp, vp, o.len())
}

/// What `a` does: adds a row to the list the sub-tab shows (on Body, to the
/// form or multipart rows) and focuses its first text field, or its switch
/// for a multipart row; elsewhere nothing.
pub open spec fn a_effect(o: RequestEditor, n: RequestEditor) -> bool {
    let fr = o.body_form_rows@;
    let mr = o.body_multipart_rows@;
    let pr = o.param_rows@;
    let vr = o.url_var_rows@;
    let hr = o.header_rows@;
    &&& n.tab == o.tab
    &&& n.editing == o.editing
    &&& if o.tab == Tab::Params && pr.len() < usize::MAX {
        &&& rows_changed(o, n, fr, mr, n.param_rows@, vr, hr)
        &&& param_added(pr, n.param_rows@, "Key "@, "Value "@)
        &&& n.focused == Some(FocusId::ParamKey(pr.len() as usize))
    } else if o.tab == Tab::UrlVars && vr.len() < usize::MAX {
        &&& rows_changed(o, n, fr, mr, pr, n.url_var_rows@, hr)
        &&& param_added(vr, n.url_var_rows@, "Key "@, "Value "@)
        &&& n.focused == Some(FocusId::UrlVarKey(vr.len() as usize))
    } else if o.tab == Tab::Headers && hr.len() < usize::MAX {
        &&& rows_changed(o, n, fr, mr, pr, vr, n.header_rows@)
        &&& param_added(hr, n.header_rows@, "Header "@, "Value "@)
        &&& n.focused == Some(FocusId::HeaderKey(hr.len() as usize))
    } else if o.tab == Tab::Body && o.body_kind == BodyKind::Form && fr.len() < usize::MAX {
        &&& rows_changed(o, n, n.body_form_rows@, mr, pr, vr, hr)
        &&& param_added(fr, n.body_form_rows@, "Key "@, "Value "@)
        &&& n.focused == Some(FocusId::BodyFormRow(fr.len() as usize, false))
    } else if o.tab == Tab::Body && o.body_kind == BodyKind::Multipart && mr.len() < usize::MAX {
        &&& rows_changed(o, n, fr, n.body_multipart_rows@, pr, vr, hr)
        &&& n.body_multipart_rows@.len() == mr.len() + 1
        &&& n.body_multipart_rows@.drop_last() == mr
        &&& fresh_multipart(n.body_multipart_rows@.last(), mr.len())
        &&& n.focused == Some(FocusId::BodyMultipartKind(mr.len() as usize))
    } else {
        unchanged(o, n)
    }
}

/// What a key press does to the editor, and whether it is taken.
/// While typing, Esc stops typing and switches every field off, and any
/// other key goes to the focused field, which takes it as `focused_typed`
/// says. Otherwise `]`/`[` change sub-tab, `j`/Down and `k`/Up move the
/// focus, `e` acts on the focused field (see `e_effect`), `l`/Right and
/// `h`/Left step a focused selector forward and back or else change
/// sub-tab, and `t`, `d`, `a` act as `t_effect`, `d_effect`, `a_effect`
/// say; any other key is not taken and changes nothing.
pub open spec fn key_effect(o: RequestEditor, n: RequestEditor, key: KeyPress, taken: bool) -> bool {
    let k = key.key;
    if o.editing {
        &&& taken
        &&& if k == Key::Esc {
            &&& enabled_as(o, n, None)
            &&& same_settings(o, n)
            &&& !n.editing
        } else {
            &&& typed_only(o, n)
            &&& focused_typed(o, n, key)
        }
    } else if k == Key::Char(']') {
        taken && tab_moved(o, n, true)
    } else if k == Key::Char('[') {
        taken && tab_moved(o, n, false)
    } else if k == Key::Char('j') || k == Key::Down {
        taken && focus_moved(o, n, true)
    } else if k == Key::Char('k') || k == Key::Up {
        taken && focus_moved(o, n, false)
    } else if k == Key::Char('e') {
        taken && e_effect(o, n)
    } else if k == Key::Char('l') || k == Key::Right {
        taken && if o.focused matches Some(f) && is_selector(f) {
            selector_stepped(o, n, true)
        } else {
            tab_moved(o, n, true)
        }
    } else if k == Key::Char('h') || k == Key::Left {
        taken && if o.focused matches Some(f) && is_selector(f) {
            selector_stepped(o, n, false)
        } else {
            tab_moved(o, n, false)
        }
    } else if k == Key::Char('t') {
        taken && t_effect(o, n)
    } else if k == Key::Char('d') {
        taken && d_effect(o, n)
    } else if k == Key::Char('a') {
        taken && a_effect(o, n)
    } else {
        !taken && unchanged(o, n)
    }
}

fn delete_row<T>(rows: &mut Vec<T>, i: usize) -> (k: usize)
    requires
        i < old(rows)@.len(),
        old(rows)@.len() > 1,
    ensures
        final(rows)@ == old(rows)@.remove(i as int),
        k == at_most(i, (old(rows)@.len() - 2) as usize),
{
    rows.remove(i);
    let last = rows.len() - 1;
    if i <= last { i } else { last }
}

impl RequestEditor {
    fn key_e(&mut self)
        ensures
            e_effect(*old(self), *final(self)),
    {
        if self.focused.is_none() {
            return;
        }
        if self.focused_is_selector() {
            self.step_selector(true);
            return;
        }
        match self.focused {
            Some(FocusId::BodyMultipartKind(i)) => {
                if i < self.body_multipart_rows.len() {
                    toggle_multipart(&mut self.body_multipart_rows, i);
                }
            },
            _ => {
                self.editing = true;
                self.enable_focused_input();
            },
        }
    }

    fn key_t(&mut self)
        ensures
            t_effect(*old(self), *final(self)),
    {
        match self.focused {
            Some(FocusId::ParamEnabled(i)) | Some(FocusId::ParamKey(i)) | Some(FocusId::ParamValue(i)) => {
                if i < self.param_rows.len() {
                    toggle_param(&mut self.param_rows, i);
                }
            },
            Some(FocusId::UrlVarEnabled(i)) | Some(FocusId::UrlVarKey(i)) | Some(FocusId::UrlVarValue(i)) => {
                if i < self.url_var_rows.len() {
                    toggle_param(&mut self.url_var_rows, i);
                }
            },
            Some(FocusId::BodyMultipartKind(i)) => {
                if i < self.body_multipart_rows.len() {
                    toggle_multipart(&mut self.body_multipart_rows, i);
                }
            },
            _ => {},
        }
    }

    #[verifier::rlimit(30)]
    fn key_d(&mut self)
        ensures
            d_effect(*old(self), *final(self)),
    {
        match self.focused {
            Some(FocusId::ParamEnabled(i)) | Some(FocusId::ParamKey(i)) | Some(FocusId::ParamValue(i)) => {
                if i < self.param_rows.len() && self.param_rows.len() > 1 {
                    let k = delete_row(&mut self.param_rows, i);
                    self.focused = Some(FocusId::ParamEnabled(k));
                }
            },
            Some(FocusId::UrlVarEnabled(i)) | Some(FocusId::UrlVarKey(i)) | Some(FocusId::UrlVarValue(i)) => {
                if i < self.url_var_rows.len() && self.url_var_rows.len() > 1 {
                    let k = delete_row(&mut self.url_var_rows, i);
                    self.focused = Some(FocusId::UrlVarEnabled(k));
                }
            },
            Some(FocusId::HeaderKey(i)) | Some(FocusId::HeaderValue(i)) => {
                if i < self.header_rows.len() && self.header_rows.len() > 1 {
                    let k = delete_row(&mut self.header_rows, i);
                    self.focused = Some(FocusId::HeaderKey(k));
                }
            },
            Some(FocusId::BodyFormRow(i, _)) => {
                if i < self.body_form_rows.len() && self.body_form_rows.len() > 1 {
                    let k = delete_row(&mut self.body_form_rows, i);
                    self.focused = Some(FocusId::BodyFormRow(k, false));
                }
            },
            Some(FocusId::BodyMultipartKind(i)) | Some(FocusId::BodyMultipartKey(i)) | Some(FocusId::BodyMultipartValue(i)) => {
                if i < self.body_multipart_rows.len() && self.body_multipart_rows.len() > 1 {
                    let k = delete_row(&mut self.body_multipart_rows, i);
                    self.focused = Some(FocusId::BodyMultipartKind(k));
                }
            },
            _ => {},
        }
    }

    fn key_a(&mut self)
        ensures
            a_effect(*old(self), *final(self)),
    {
        match self.tab {
            Tab::Params => {
                if self.param_rows.len() < usize::MAX {
                    let i = self.param_rows.len();
                    add_param_row(&mut self.param_rows, "Key ", "Value ");
                    self.focused = Some(FocusId::ParamKey(i));
                }
            },
            Tab::UrlVars => {
                if self.url_var_rows.len() < usize::MAX {
                    let i = self.url_var_rows.len();
                    add_param_row(&mut self.url_var_rows, "Key ", "Value ");
                    self.focused = Some(FocusId::UrlVarKey(i));
                }
            },
            Tab::Headers => {
                if self.header_rows.len() < usize::MAX {
                    let i = self.header_rows.len();
                    add_param_row(&mut self.header_rows, "Header ", "Value ");
                    self.focused = Some(FocusId::HeaderKey(i));
                }
            },
            Tab::Body => {
                if self.body_kind == BodyKind::Form && self.body_form_rows.len() < usize::MAX {
                    let i = self.body_form_rows.len();
                    add_param_row(&mut self.body_form_rows, "Key ", "Value ");
                    self.focused = Some(FocusId::BodyFormRow(i, false));
                } else if self.body_kind == BodyKind::Multipart && self.body_multipart_rows.len() < usize::MAX {
                    let i = self.body_multipart_rows.len();
                    let row = MultipartRow::new(numbered_title("Key ", i), numbered_title("Value ", i));
                    self.body_multipart_rows.push(row);
                    assert(self.body_multipart_rows@.drop_last() =~= old(self).body_multipart_rows@);
                    self.focused = Some(FocusId::BodyMultipartKind(i));
                }
            },
            _ => {},
        }
    }

    /// Whether a field is being typed into.
    pub fn is_editing(&self) -> (b: bool)
        ensures
            b == self.editing,
    {
        self.editing
    }

    /// Acts on a key press (see `key_effect`) and tells whether it was
    /// taken.
    pub fn handle_event(&mut self, key: &KeyPress) -> (taken: bool)
        ensures
            key_effect(*old(self), *final(self), *key, taken),
    {
        if self.editing {
            if key.key == Key::Esc {
                self.editing = false;
                self.disable_all_inputs();
            } else {
                self.type_into_focused(key);
            }
            return true;
        }
        match key.key {
            Key::Char(']') => self.move_tab(true),
            Key::Char('[') => self.move_tab(false),
            Key::Char('j') | Key::Down => self.move_focus(true),
            Key::Char('k') | Key::Up => self.move_focus(false),
            Key::Char('e') => self.key_e(),
            Key::Char('l') | Key::Right => {
                if self.focused_is_selector() {
                    self.step_selector(true);
                } else {
                    self.move_tab(true);
                }
            },
            Key::Char('h') | Key::Left => {
                if self.focused_is_selector() {
                    self.step_selector(false);
                } else {
                    self.move_tab(false);
                }
            },
            Key::Char('t') => self.key_t(),
            Key::Char('d') => self.key_d(),
            Key::Char('a') => self.key_a(),
            _ => return false,
        }
        true
    }
}

} // verus!

verus! {

/// Every row list of the editor holds at least one row.
pub open spec fn rows_nonempty(e: RequestEditor) -> bool {
    &&& e.body_form_rows@.len() >= 1
    &&& e.body_multipart_rows@.len() >= 1
    &&& e.param_rows@.len() >= 1
    &&& e.url_var_rows@.len() >= 1
    &&& e.header_rows@.len() >= 1
}

/// No key press empties a row list: `d` never deletes the last row of a
/// list, and no other key removes rows.
pub proof fn law_rows_stay_nonempty(o: RequestEditor, n: RequestEditor, key: KeyPress, taken: bool)
    requires
        rows_nonempty(o),
        key_effect(o, n, key, taken),
    ensures
        rows_nonempty(n),
{
}

} // verus!

verus! {

/// `b` is the field `a` with its flag set to `on`.
pub open spec fn flag_set(a: TextInput, b: TextInput, on: bool) -> bool {
    b.input == a.input && b.title == a.title && b.enabled == on
}

/// `b` is the editor `a` with its flag set to `on`.
pub open spec fn area_flag_set(a: BodyEditor, b: BodyEditor, on: bool) -> bool {
    b.textarea == a.textarea && b.mode == a.mode && b.enabled == on
}

/// Rows `n` are rows `o` with only row `i`'s key (`which` 0) or value
/// (`which` 1) switched on.
pub open spec fn param_flags(o: Seq<ParamRow>, n: Seq<ParamRow>, i: int, which: int) -> bool {
    &&& n.len() == o.len()
    &&& forall|j: int| 0 <= j < o.len() ==> {
        &&& flag_set(o[j].key, #[trigger] n[j].key, j == i && which == 0)
        &&& flag_set(o[j].value, n[j].value, j == i && which == 1)
        &&& n[j].enabled == o[j].enabled
    }
}

/// The same for multipart rows.
pub open spec fn multi_flags(o: Seq<MultipartRow>, n: Seq<MultipartRow>, i: int, which: int) -> bool {
    &&& n.len() == o.len()
    &&& forall|j: int| 0 <= j < o.len() ==> {
        &&& flag_set(o[j].key, #[trigger] n[j].key, j == i && which == 0)
        &&& flag_set(o[j].value, n[j].value, j == i && which == 1)
        &&& n[j].is_file == o[j].is_file
    }
}

/// The form row and field (0 key, 1 value) that `f` is, or none (-1).
pub open spec fn form_focus(f: Option<FocusId>) -> (int, int) {
    match f {
        Some(FocusId::BodyFormRow(i, v)) => (i as int, if v { 1int } else { 0int }),
        _ => (-1, 0),
    }
}

pub open spec fn multi_focus(f: Option<FocusId>) -> (int, int) {
    match f {
        Some(FocusId::BodyMultipartKey(i)) => (i as int, 0),
        Some(FocusId::BodyMultipartValue(i)) => (i as int, 1),
        _ => (-1, 0),
    }
}

pub open spec fn param_focus(f: Option<FocusId>) -> (int, int) {
    match f {
        Some(FocusId::ParamKey(i)) => (i as int, 0),
        Some(FocusId::ParamValue(i)) => (i as int, 1),
        _ => (-1, 0),
    }
}

pub open spec fn var_focus(f: Option<FocusId>) -> (int, int) {
    match f {
        Some(FocusId::UrlVarKey(i)) => (i as int, 0),
        Some(FocusId::UrlVarValue(i)) => (i as int, 1),
        _ => (-1, 0),
    }
}

pub open spec fn header_focus(f: Option<FocusId>) -> (int, int) {
    match f {
        Some(FocusId::HeaderKey(i)) => (i as int, 0),
        Some(FocusId::HeaderValue(i)) => (i as int, 1),
        _ => (-1, 0),
    }
}

/// Every text field and editor of `n` is that of `o` with its flag set:
/// on for the field `f` names (if any), off for every other.
pub open spec fn enabled_as(o: RequestEditor, n: RequestEditor, f: Option<FocusId>) -> bool {
    &&& flag_set(o.name_input, n.name_input, f == Some(FocusId::NameInput))
    &&& flag_set(o.url_input, n.url_input, f == Some(FocusId::UrlInput))
    &&& flag_set(o.auth_bearer_token, n.auth_bearer_token, f == Some(FocusId::AuthBearerToken))
    &&& flag_set(o.auth_basic_user, n.auth_basic_user, f == Some(FocusId::AuthBasicUser))
    &&& flag_set(o.auth_basic_pass, n.auth_basic_pass, f == Some(FocusId::AuthBasicPass))
    &&& flag_set(o.auth_api_key, n.auth_api_key, f == Some(FocusId::AuthApiKey))
    &&& flag_set(o.auth_api_value, n.auth_api_value, f == Some(FocusId::AuthApiValue))
    &&& flag_set(o.oauth2_client_id, n.oauth2_client_id, f == Some(FocusId::AuthOAuth2ClientId))
    &&& flag_set(o.oauth2_client_secret, n.oauth2_client_secret, f == Some(FocusId::AuthOAuth2ClientSecret))
    &&& flag_set(o.oauth2_token_url, n.oauth2_token_url, f == Some(FocusId::AuthOAuth2TokenUrl))
    &&& flag_set(o.oauth2_scopes, n.oauth2_scopes, f == Some(FocusId::AuthOAuth2Scopes))
    &&& flag_set(o.oauth2_refresh_token, n.oauth2_refresh_token, f == Some(FocusId::AuthOAuth2RefreshToken))
    &&& area_flag_set(o.body_editor, n.body_editor, f == Some(FocusId::BodyText))
    &&& area_flag_set(o.capture_editor, n.capture_editor, f == Some(FocusId::CaptureText))
    &&& param_flags(o.body_form_rows@, n.body_form_rows@, form_focus(f).0, form_focus(f).1)
    &&& multi_flags(o.body_multipart_rows@, n.body_multipart_rows@, multi_focus(f).0, multi_focus(f).1)
    &&& param_flags(o.param_rows@, n.param_rows@, param_focus(f).0, param_focus(f).1)
    &&& param_flags(o.url_var_rows@, n.url_var_rows@, var_focus(f).0, var_focus(f).1)
    &&& param_flags(o.header_rows@, n.header_rows@, header_focus(f).0, header_focus(f).1)
}

/// Everything but the fields' flags is as it was.
pub open spec fn same_but_flags(o: RequestEditor, n: RequestEditor) -> bool {
    &&& same_settings(o, n)
    &&& n.editing == o.editing
}

/// The sub-tab, the focus, the selectors and the validation message are as
/// they were.
pub open spec fn same_settings(o: RequestEditor, n: RequestEditor) -> bool {
    &&& n.tab == o.tab
    &&& n.focused == o.focused
    &&& n.method == o.method
    &&& n.auth_kind == o.auth_kind
    &&& n.api_key_location == o.api_key_location
    &&& n.oauth2_grant == o.oauth2_grant
    &&& n.body_kind == o.body_kind
    &&& n.validation_error == o.validation_error
}

fn disable_params(rows: &mut Vec<ParamRow>)
    ensures
        param_flags(old(rows)@, final(rows)@, -1, 0),
{
    let n = rows.len();
    let mut j: usize = 0;
    while j < n
        invariant
            j <= n,
            n == rows@.len(),
            n == old(rows)@.len(),
            forall|k: int| 0 <= k < j ==> {
                &&& flag_set(old(rows)@[k].key, #[trigger] rows@[k].key, false)
                &&& flag_set(old(rows)@[k].value, rows@[k].value, false)
                &&& rows@[k].enabled == old(rows)@[k].enabled
            },
            forall|k: int| j <= k < n ==> #[trigger] rows@[k] == old(rows)@[k],
        decreases n - j,
    {
        let ghost before = rows@;
        let mut r = rows.remove(j);
        r.key.disable();
        r.value.disable();
        rows.insert(j, r);
        assert(forall|k: int| 0 <= k < n && k != j ==> rows@[k] == before[k]);
        assert(flag_set(old(rows)@[j as int].key, rows@[j as int].key, false));
        assert(flag_set(old(rows)@[j as int].value, rows@[j as int].value, false));
        j = j + 1;
    }
}

fn disable_multis(rows: &mut Vec<MultipartRow>)
    ensures
        multi_flags(old(rows)@, final(rows)@, -1, 0),
{
    let n = rows.len();
    let mut j: usize = 0;
    while j < n
        invariant
            j <= n,
            n == rows@.len(),
            n == old(rows)@.len(),
            forall|k: int| 0 <= k < j ==> {
                &&& flag_set(old(rows)@[k].key, #[trigger] rows@[k].key, false)
                &&& flag_set(old(rows)@[k].value, rows@[k].value, false)
                &&& rows@[k].is_file == old(rows)@[k].is_file
            },
            forall|k: int| j <= k < n ==> #[trigger] rows@[k] == old(rows)@[k],
        decreases n - j,
    {
        let ghost before = rows@;
        let mut r = rows.remove(j);
        r.key.disable();
        r.value.disable();
        rows.insert(j, r);
        assert(forall|k: int| 0 <= k < n && k != j ==> rows@[k] == before[k]);
        assert(flag_set(old(rows)@[j as int].key, rows@[j as int].key, false));
        assert(flag_set(old(rows)@[j as int].value, rows@[j as int].value, false));
        j = j + 1;
    }
}

/// Switches on row `i`'s key (`which` 0) or value (`which` 1) of rows whose
/// fields are all off, when there is such a row.
fn enable_param(rows: &mut Vec<ParamRow>, i: usize, which: u8)
    requires
        which <= 1,
        forall|k: int| 0 <= k < old(rows)@.len() ==> !(#[trigger] old(rows)@[k]).key.enabled && !old(rows)@[k].value.enabled,
    ensures
        param_flags(old(rows)@, final(rows)@, i as int, which as int),
{
    let ghost o = rows@;
    if i < rows.len() {
        let mut r = rows.remove(i);
        if which == 0 {
            r.key.enable();
        } else {
            r.value.enable();
        }
        rows.insert(i, r);
        assert forall|k: int| 0 <= k < o.len() && k != i implies rows@[k] == o[k] by {
            if k < i {
            } else {
            }
        }
    }
}

fn enable_multi(rows: &mut Vec<MultipartRow>, i: usize, which: u8)
    requires
        which <= 1,
        forall|k: int| 0 <= k < old(rows)@.len() ==> !(#[trigger] old(rows)@[k]).key.enabled && !old(rows)@[k].value.enabled,
    ensures
        multi_flags(old(rows)@, final(rows)@, i as int, which as int),
{
    let ghost o = rows@;
    if i < rows.len() {
        let mut r = rows.remove(i);
        if which == 0 {
            r.key.enable();
        } else {
            r.value.enable();
        }
        rows.insert(i, r);
        assert forall|k: int| 0 <= k < o.len() && k != i implies rows@[k] == o[k] by {
            if k < i {
            } else {
            }
        }
    }
}

impl RequestEditor {
    /// Switches every text field and editor off, keeping what they hold.
    fn disable_all_inputs(&mut self)
        ensures
            enabled_as(*old(self), *final(self), None),
            same_but_flags(*old(self), *final(self)),
    {
        self.name_input.disable();
        self.url_input.disable();
        self.auth_bearer_token.disable();
        self.auth_basic_user.disable();
        self.auth_basic_pass.disable();
        self.auth_api_key.disable();
        self.auth_api_value.disable();
        self.oauth2_client_id.disable();
        self.oauth2_client_secret.disable();
        self.oauth2_token_url.disable();
        self.oauth2_scopes.disable();
        self.oauth2_refresh_token.disable();
        self.body_editor.disable();
        self.capture_editor.disable();
        disable_params(&mut self.body_form_rows);
        disable_multis(&mut self.body_multipart_rows);
        disable_params(&mut self.param_rows);
        disable_params(&mut self.url_var_rows);
        disable_params(&mut self.header_rows);
    }

    /// Switches on the focused text field or editor alone.
    fn enable_focused_input(&mut self)
        ensures
            enabled_as(*old(self), *final(self), old(self).focused),
            same_but_flags(*old(self), *final(self)),
    {
        self.disable_all_inputs();
        proof {
            assert(forall|k: int| 0 <= k < self.body_form_rows@.len() ==> !(#[trigger] self.body_form_rows@[k]).key.enabled && !self.body_form_rows@[k].value.enabled);
            assert(forall|k: int| 0 <= k < self.body_multipart_rows@.len() ==> !(#[trigger] self.body_multipart_rows@[k]).key.enabled && !self.body_multipart_rows@[k].value.enabled);
            assert(forall|k: int| 0 <= k < self.param_rows@.len() ==> !(#[trigger] self.param_rows@[k]).key.enabled && !self.param_rows@[k].value.enabled);
            assert(forall|k: int| 0 <= k < self.url_var_rows@.len() ==> !(#[trigger] self.url_var_rows@[k]).key.enabled && !self.url_var_rows@[k].value.enabled);
            assert(forall|k: int| 0 <= k < self.header_rows@.len() ==> !(#[trigger] self.header_rows@[k]).key.enabled && !self.header_rows@[k].value.enabled);
        }
        match self.focused {
            Some(FocusId::NameInput) => self.name_input.enable(),
            Some(FocusId::UrlInput) => self.url_input.enable(),
            Some(FocusId::AuthBearerToken) => self.auth_bearer_token.enable(),
            Some(FocusId::AuthBasicUser) => self.auth_basic_user.enable(),
            Some(FocusId::AuthBasicPass) => self.auth_basic_pass.enable(),
            Some(FocusId::AuthApiKey) => self.auth_api_key.enable(),
            Some(FocusId::AuthApiValue) => self.auth_api_value.enable(),
            Some(FocusId::AuthOAuth2ClientId) => self.oauth2_client_id.enable(),
            Some(FocusId::AuthOAuth2ClientSecret) => self.oauth2_client_secret.enable(),
            Some(FocusId::AuthOAuth2TokenUrl) => self.oauth2_token_url.enable(),
            Some(FocusId::AuthOAuth2Scopes) => self.oauth2_scopes.enable(),
            Some(FocusId::AuthOAuth2RefreshToken) => self.oauth2_refresh_token.enable(),
            Some(FocusId::BodyText) => self.body_editor.enable(),
            Some(FocusId::CaptureText) => self.capture_editor.enable(),
            Some(FocusId::BodyFormRow(i, v)) => enable_param(&mut self.body_form_rows, i, if v { 1 } else { 0 }),
            Some(FocusId::BodyMultipartKey(i)) => enable_multi(&mut self.body_multipart_rows, i, 0),
            Some(FocusId::BodyMultipartValue(i)) => enable_multi(&mut self.body_multipart_rows, i, 1),
            Some(FocusId::ParamKey(i)) => enable_param(&mut self.param_rows, i, 0),
            Some(FocusId::ParamValue(i)) => enable_param(&mut self.param_rows, i, 1),
            Some(FocusId::UrlVarKey(i)) => enable_param(&mut self.url_var_rows, i, 0),
            Some(FocusId::UrlVarValue(i)) => enable_param(&mut self.url_var_rows, i, 1),
            Some(FocusId::HeaderKey(i)) => enable_param(&mut self.header_rows, i, 0),
            Some(FocusId::HeaderValue(i)) => enable_param(&mut self.header_rows, i, 1),
            _ => {},
        }
    }
}

} // verus!
