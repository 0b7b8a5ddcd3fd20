use vstd::prelude::*;
use crate::json::JsonDoc;
use crate::strmap::StrMap;

verus! {

/// The HTTP method of a request.
#[derive(PartialEq, Eq, Structural, Clone, Copy, Debug)]
pub enum RequestType {
    Get,
    Post,
    Put,
    Delete,
    Patch,
}

/// The method's name as sent on the wire.
pub open spec fn method_name(t: RequestType) -> Seq<char> {
    match t {
        RequestType::Get => "GET"@,
        RequestType::Post => "POST"@,
        RequestType::Put => "PUT"@,
        RequestType::Delete => "DELETE"@,
        RequestType::Patch => "PATCH"@,
    }
}

/// The colour a method is shown in.
#[derive(PartialEq, Eq, Structural, Clone, Copy, Debug)]
pub enum Hue {
    Blue,
    Green,
    Yellow,
    Red,
    Cyan,
    Magenta,
    White,
    DarkGray,
}

impl RequestType {
    /// The method's name: `GET`, `POST`, `PUT`, `DELETE` or `PATCH`.
    pub fn as_str(&self) -> (s: &'static str)
        ensures
            s@ == method_name(*self),
    {
        match self {
            RequestType::Get => "GET",
            RequestType::Post => "POST",
            RequestType::Put => "PUT",
            RequestType::Delete => "DELETE",
            RequestType::Patch => "PATCH",
        }
    }

    /// The method's colour: GET blue, POST green, PUT yellow, DELETE red,
    /// PATCH cyan.
    pub fn color(&self) -> (h: Hue)
        ensures
            h == (match *self {
                RequestType::Get => Hue::Blue,
                RequestType::Post => Hue::Green,
                RequestType::Put => Hue::Yellow,
                RequestType::Delete => Hue::Red,
                RequestType::Patch => Hue::Cyan,
            }),
    {
        match self {
            RequestType::Get => Hue::Blue,
            RequestType::Post => Hue::Green,
            RequestType::Put => Hue::Yellow,
            RequestType::Delete => Hue::Red,
            RequestType::Patch => Hue::Cyan,
        }
    }
}

/// One entry in the workspace tree.
pub enum Item {
    Folder(ConfigFolder),
    Request(Request),
}

/// A named folder of items.
pub struct ConfigFolder {
    pub name: String,
    pub items: Vec<Item>,
}

/// A saved HTTP request.
pub struct Request {
    pub name: String,
    pub request_type: RequestType,
    pub url: String,
    pub headers: Option<StrMap>,
    pub body: Option<RequestBody>,
    pub auth: Option<Auth>,
    pub params: Option<Vec<QueryParam>>,
    pub url_vars: Option<Vec<QueryParam>>,
    /// JSON template with `%name%` placeholders, matched against the response
    /// body to capture values into the environment.
    pub capture: Option<String>,
}

/// The body of a request.
pub enum RequestBody {
    Json(JsonDoc),
    Form(StrMap),
    Multipart(Vec<FormField>),
    Raw(String),
    /// No body (`None` in the saved file).
    Empty,
}

/// One field of a multipart form.
pub struct FormField {
    pub key: String,
    pub value: FormValue,
}

/// A multipart field's content: text, or a file to upload.
pub enum FormValue {
    Text(String),
    File(FileRef),
}

/// A file to upload.
pub struct FileRef {
    pub path: String,
    pub mime_type: Option<String>,
}

/// A key/value row that can be switched off without deleting it.
pub struct QueryParam {
    pub key: String,
    pub value: String,
    pub enabled: bool,
}

/// How a request authenticates.
pub enum Auth {
    Bearer { token: String },
    Basic { username: String, password: String },
    ApiKey { key: String, value: String, location: ApiKeyLocation },
    OAuth2(OAuth2Config),
    /// No authentication (`None` in the saved file).
    NoAuth,
}

/// Where an API key is sent.
#[derive(PartialEq, Eq, Structural, Clone, Copy, Debug)]
pub enum ApiKeyLocation {
    Header,
    Query,
}

/// OAuth2 client settings.
pub struct OAuth2Config {
    pub grant: OAuth2Grant,
    pub client_id: String,
    pub client_secret: String,
    pub token_url: String,
    pub scopes: Vec<String>,
    pub refresh_token: Option<String>,
    /// The most recently fetched access token; a runtime cache, never saved.
    pub access_token: Option<String>,
}

/// The OAuth2 grant used to obtain a token.
#[derive(PartialEq, Eq, Structural, Clone, Copy, Debug)]
pub enum OAuth2Grant {
    ClientCredentials,
    RefreshToken,
}

impl Default for OAuth2Grant {
    fn default() -> (g: Self)
        ensures
            g == OAuth2Grant::ClientCredentials,
    {
        OAuth2Grant::ClientCredentials
    }
}

} // verus!
