use vstd::prelude::*;
use crate::env::{required_result, substitute_required};
use crate::items::{ApiKeyLocation, Auth, QueryParam, RequestType, Request, RequestBody, FormField, FormValue};
use crate::placeholder::{is_valid_name_chars, pieces, res_view, resolve_required, resolve_result, split_placeholders, trim_chars, trimmed, valid_var_name};
use crate::strmap::StrMap;
use crate::text::{from_chars, push_all, push_str, to_chars};

verus! {

/// Why a request could not be performed.
#[derive(Debug)]
pub enum HttpError {
    /// The request could not be assembled (bad variable, header, URL, ...).
    Build(String),
    /// Sending the request failed.
    Send(String),
    /// Reading the response body failed.
    Body(String),
}

/// An error's message: `build error: ...`, `send error: ...` or
/// `body error: ...`.
pub open spec fn error_text(e: HttpError) -> Seq<char> {
    match e {
        HttpError::Build(s) => "build error: "@ + s@,
        HttpError::Send(s) => "send error: "@ + s@,
        HttpError::Body(s) => "body error: "@ + s@,
    }
}

impl HttpError {
    /// The error's message (see `error_text`).
    pub fn message(&self) -> (r: String)
        ensures
            r@ == error_text(*self),
    {
        let mut out: Vec<char> = Vec::new();
        match self {
            HttpError::Build(s) => {
                push_str(&mut out, "build error: ");
                push_str(&mut out, s.as_str());
            },
            HttpError::Send(s) => {
                push_str(&mut out, "send error: ");
                push_str(&mut out, s.as_str());
            },
            HttpError::Body(s) => {
                push_str(&mut out, "body error: ");
                push_str(&mut out, s.as_str());
            },
        }
        from_chars(&out)
    }
}

/// The message of a build error, or `None` for another error.
pub open spec fn build_message(e: HttpError) -> Option<Seq<char>> {
    match e {
        HttpError::Build(s) => Some(s@),
        _ => None,
    }
}

/// The UTF-8 encoding of a character.
pub open spec fn utf8_bytes(c: char) -> Seq<u8> {
    let n = c as int;
    if n < 0x80 {
        seq![n as u8]
    } else if n < 0x800 {
        seq![(0xc0 + n / 64) as u8, (0x80 + n % 64) as u8]
    } else if n < 0x10000 {
        seq![(0xe0 + n / 4096) as u8, (0x80 + (n / 64) % 64) as u8, (0x80 + n % 64) as u8]
    } else {
        seq![
            (0xf0 + n / 262144) as u8,
            (0x80 + (n / 4096) % 64) as u8,
            (0x80 + (n / 64) % 64) as u8,
            (0x80 + n % 64) as u8,
        ]
    }
}

/// An upper-case hexadecimal digit.
pub open spec fn hex_digit(d: int) -> char {
    if d < 10 {
        (48 + d) as char
    } else {
        (55 + d) as char
    }
}

/// ASCII letters and digits are kept; every other byte becomes `%XX`.
pub open spec fn encode_byte(b: u8) -> Seq<char> {
    if (48 <= b <= 57) || (65 <= b <= 90) || (97 <= b <= 122) {
        seq![b as char]
    } else {
        seq!['%', hex_digit(b as int / 16), hex_digit(b as int % 16)]
    }
}

pub open spec fn encode_bytes(bs: Seq<u8>) -> Seq<char>
    decreases bs.len(),
{
    if bs.len() == 0 {
        Seq::empty()
    } else {
        encode_byte(bs[0]) + encode_bytes(bs.drop_first())
    }
}

/// The percent-encoding of the UTF-8 bytes of `s`, keeping only ASCII
/// letters and digits as they are.
pub open spec fn percent_encoded(s: Seq<char>) -> Seq<char>
    decreases s.len(),
{
    if s.len() == 0 {
        Seq::empty()
    } else {
        encode_bytes(utf8_bytes(s[0])) + percent_encoded(s.drop_first())
    }
}

/// `percent_encoding::utf8_percent_encode` with the `NON_ALPHANUMERIC` set:
/// the contract states that every UTF-8 byte that is not an ASCII letter or
/// digit becomes `%` and two upper-case hex digits.
#[verifier::external_body]
fn percent_encode_component(s: &str) -> (r: String)
    ensures
        r@ == percent_encoded(s@),
{
    percent_encoding::utf8_percent_encode(s, percent_encoding::NON_ALPHANUMERIC).to_string()
}

/// Whether `name` is a valid URL variable name: non-empty and made of
/// `A-Z a-z 0-9 _ . -`.
pub fn is_valid_url_var_name(name: &str) -> (b: bool)
    ensures
        b == valid_var_name(name@),
{
    let v = to_chars(name);
    is_valid_name_chars(&v)
}

/// The opening delimiter of a URL variable reference: `<`.
pub open spec fn url_open() -> Seq<char> {
    seq!['<']
}

/// The closing delimiter of a URL variable reference: `>`.
pub open spec fn url_close() -> Seq<char> {
    seq!['>']
}

/// Resolving the `<name>` references of `url` strictly against `vars`.
pub open spec fn url_vars_result(url: Seq<char>, vars: Map<Seq<char>, Seq<char>>) -> Result<Seq<char>, Seq<char>> {
    resolve_result(pieces(url, 0, url_open(), url_close()), vars, "url"@)
}

/// Replaces `<name>` references in `url` (whitespace inside the brackets
/// allowed) by their values. Fails, naming them, when some are unset
/// (`missing url vars: ...`) or empty (`empty url vars: ...`).
pub fn substitute_url_vars(url: &str, vars: &StrMap) -> (r: Result<String, String>)
    ensures
        res_view(r) == url_vars_result(url@, vars@),
{
    let chars = to_chars(url);
    let mut open: Vec<char> = Vec::new();
    open.push('<');
    let mut close: Vec<char> = Vec::new();
    close.push('>');
    assert(open@ =~= url_open());
    assert(close@ =~= url_close());
    let segs = split_placeholders(&chars, &open, &close);
    resolve_required(&segs, vars, "url")
}

/// A row's key, value and switch, as character sequences.
pub open spec fn row_view(p: QueryParam) -> (Seq<char>, Seq<char>, bool) {
    (p.key@, p.value@, p.enabled)
}

/// The URL variables defined by `rows[i..]`, added to `acc`: each enabled
/// row's key and value have their `{{env}}` references resolved strictly,
/// the key is trimmed and must be a valid name, the value must not be empty
/// and is percent-encoded. The first failure ends the walk.
pub open spec fn url_var_map_from(
    rows: Seq<(Seq<char>, Seq<char>, bool)>,
    i: int,
    acc: Map<Seq<char>, Seq<char>>,
    vars: Map<Seq<char>, Seq<char>>,
) -> Result<Map<Seq<char>, Seq<char>>, Seq<char>>
    decreases rows.len() - i,
{
    if i < 0 || i >= rows.len() {
        Ok(acc)
    } else if !rows[i].2 {
        url_var_map_from(rows, i + 1, acc, vars)
    } else {
        match required_result(rows[i].0, vars) {
            Err(e) => Err("url var key: "@ + e),
            Ok(raw_key) => {
                let key = trimmed(raw_key);
                if key.len() == 0 {
                    Err("url var key is empty"@)
                } else if !valid_var_name(key) {
                    Err("url var key '"@ + key + "' is invalid (allowed: A-Z a-z 0-9 _ . -)"@)
                } else {
                    match required_result(rows[i].1, vars) {
                        Err(e) => Err("url var "@ + key + ": "@ + e),
                        Ok(v) => if v.len() == 0 {
                            Err("url var '"@ + key + "' is empty"@)
                        } else {
                            url_var_map_from(rows, i + 1, acc.insert(key, percent_encoded(v)), vars)
                        },
                    }
                }
            },
        }
    }
}

/// The URL variables that `rows` define (see `url_var_map_from`).
pub open spec fn url_var_map_spec(rows: Option<Seq<(Seq<char>, Seq<char>, bool)>>, vars: Map<Seq<char>, Seq<char>>) -> Result<Map<Seq<char>, Seq<char>>, Seq<char>> {
    match rows {
        None => Ok(Map::empty()),
        Some(rs) => url_var_map_from(rs, 0, Map::empty(), vars),
    }
}

/// The rows' keys, values and switches.
pub open spec fn rows_seq(rows: Seq<QueryParam>) -> Seq<(Seq<char>, Seq<char>, bool)> {
    rows.map_values(|p: QueryParam| row_view(p))
}

pub open spec fn rows_view(rows: Option<Vec<QueryParam>>) -> Option<Seq<(Seq<char>, Seq<char>, bool)>> {
    match rows {
        None => None,
        Some(v) => Some(rows_seq(v@)),
    }
}

/// Builds the URL variable table from the request's URL-variable rows.
/// Failures are build errors; see `url_var_map_from` for the rules.
pub fn build_url_var_map(rows: &Option<Vec<QueryParam>>, vars: &StrMap) -> (r: Result<StrMap, HttpError>)
    ensures
        match r {
            Ok(m) => url_var_map_spec(rows_view(*rows), vars@) == Ok::<_, Seq<char>>(m@),
            Err(e) => build_message(e) is Some && url_var_map_spec(rows_view(*rows), vars@) == Err::<Map<Seq<char>, Seq<char>>, _>(build_message(e)->0),
        },
{
    let mut out = StrMap::new();
    let rs = match rows {
        None => {
            return Ok(out);
        },
        Some(rs) => rs,
    };
    let ghost rv = rows_seq(rs@);
    assert(url_var_map_spec(rows_view(*rows), vars@) == url_var_map_from(rv, 0, Map::empty(), vars@));
    let mut i: usize = 0;
    while i < rs.len()
        invariant
            i <= rs@.len(),
            rv == rows_seq(rs@),
            url_var_map_spec(rows_view(*rows), vars@) == url_var_map_from(rv, 0, Map::empty(), vars@),
            url_var_map_from(rv, 0, Map::empty(), vars@) == url_var_map_from(rv, i as int, out@, vars@),
        decreases rs@.len() - i,
    {
        let row = &rs[i];
        assert(rv[i as int] == row_view(*row));
        if row.enabled {
            let raw_key = match substitute_required(row.key.as_str(), vars) {
                Ok(k) => k,
                Err(e) => {
                    let mut m: Vec<char> = Vec::new();
                    push_str(&mut m, "url var key: ");
                    push_str(&mut m, e.as_str());
                    assert(required_result(rv[i as int].0, vars@) == Err::<Seq<char>, Seq<char>>(e@));
                    assert(url_var_map_from(rv, i as int, out@, vars@) == Err::<Map<Seq<char>, Seq<char>>, Seq<char>>(m@));
                    return Err(HttpError::Build(from_chars(&m)));
                },
            };
            let raw_chars = to_chars(raw_key.as_str());
            let key = trim_chars(&raw_chars);
            assert(required_result(rv[i as int].0, vars@) == Ok::<Seq<char>, Seq<char>>(raw_key@));
            if key.len() == 0 {
                let m = to_chars("url var key is empty");
                assert(url_var_map_from(rv, i as int, out@, vars@) == Err::<Map<Seq<char>, Seq<char>>, Seq<char>>(m@));
                return Err(HttpError::Build(from_chars(&m)));
            }
            if !is_valid_name_chars(&key) {
                let mut m: Vec<char> = Vec::new();
                push_str(&mut m, "url var key '");
                push_all(&mut m, &key);
                push_str(&mut m, "' is invalid (allowed: A-Z a-z 0-9 _ . -)");
                return Err(HttpError::Build(from_chars(&m)));
            }
            let raw_value = match substitute_required(row.value.as_str(), vars) {
                Ok(v) => v,
                Err(e) => {
                    let mut m: Vec<char> = Vec::new();
                    push_str(&mut m, "url var ");
                    push_all(&mut m, &key);
                    push_str(&mut m, ": ");
                    push_str(&mut m, e.as_str());
                    return Err(HttpError::Build(from_chars(&m)));
                },
            };
            let value_chars = to_chars(raw_value.as_str());
            if value_chars.len() == 0 {
                let mut m: Vec<char> = Vec::new();
                push_str(&mut m, "url var '");
                push_all(&mut m, &key);
                push_str(&mut m, "' is empty");
                return Err(HttpError::Build(from_chars(&m)));
            }
            let encoded = percent_encode_component(raw_value.as_str());
            out.insert(from_chars(&key), encoded);
        }
        i = i + 1;
    }
    Ok(out)
}

pub open spec fn content_type_name() -> Seq<char> {
    seq!['c', 'o', 'n', 't', 'e', 'n', 't', '-', 't', 'y', 'p', 'e']
}

/// `k` names the Content-Type header, in any letter case.
pub open spec fn is_content_type(k: Seq<char>) -> bool {
    k.len() == 12 && forall|j: int| 0 <= j < 12 ==> ascii_lower(#[trigger] k[j]) == content_type_name()[j]
}

fn names_content_type(k: &Vec<char>) -> (b: bool)
    ensures
        b == is_content_type(k@),
{
    if k.len() != 12 {
        return false;
    }
    let target: [char; 12] = ['c', 'o', 'n', 't', 'e', 'n', 't', '-', 't', 'y', 'p', 'e'];
    assert(target@ =~= content_type_name());
    let mut j: usize = 0;
    while j < 12
        invariant
            j <= 12,
            k@.len() == 12,
            target@ == content_type_name(),
            forall|i: int| 0 <= i < j ==> ascii_lower(#[trigger] k@[i]) == content_type_name()[i],
        decreases 12 - j,
    {
        if lower_char(k[j]) != target[j] {
            return false;
        }
        j = j + 1;
    }
    true
}

} // verus!

verus! {

/// The text of an optional string.
pub open spec fn text_opt(o: Option<String>) -> Option<Seq<char>> {
    match o {
        Some(s) => Some(s@),
        None => None,
    }
}

/// The text of an error, empty where there is none.
pub open spec fn err_text(o: Option<Seq<char>>) -> Seq<char> {
    match o {
        Some(e) => e,
        None => Seq::empty(),
    }
}

/// What http's `HeaderName::from_bytes` says of a name: the text of its
/// error, or none when it accepts the name.
pub uninterp spec fn header_name_error(k: Seq<char>) -> Option<Seq<char>>;

/// What http's `HeaderValue::from_str` says of a value: the text of its
/// error, or none when it accepts the value.
pub uninterp spec fn header_value_error(v: Seq<char>) -> Option<Seq<char>>;

/// Whether http accepts `k` as a header name.
pub open spec fn header_name_ok(k: Seq<char>) -> bool {
    header_name_error(k) is None
}

/// Whether http accepts `v` as a header value.
pub open spec fn header_value_ok(v: Seq<char>) -> bool {
    header_value_error(v) is None
}

/// http's `HeaderName::from_bytes` on the name's UTF-8 bytes, as reqwest
/// re-exports it. Claimed: the result is `header_name_error` of the name.
#[verifier::external_body]
fn header_name_check(k: &str) -> (r: Option<String>)
    ensures
        text_opt(r) == header_name_error(k@),
{
    match reqwest::header::HeaderName::from_bytes(k.as_bytes()) {
        Ok(_) => None,
        Err(e) => Some(e.to_string()),
    }
}

/// http's `HeaderValue::from_str`, as reqwest re-exports it. Claimed: the
/// result is `header_value_error` of the value.
#[verifier::external_body]
fn header_value_check(v: &str) -> (r: Option<String>)
    ensures
        text_opt(r) == header_value_error(v@),
{
    match reqwest::header::HeaderValue::from_str(v) {
        Ok(_) => None,
        Err(e) => Some(e.to_string()),
    }
}

/// ASCII upper-case letters lowered; other characters unchanged.
pub open spec fn ascii_lower(c: char) -> char {
    if 'A' <= c && c <= 'Z' {
        (((c as u32) + 32) as u8) as char
    } else {
        c
    }
}

pub open spec fn content_length_name() -> Seq<char> {
    seq!['c', 'o', 'n', 't', 'e', 'n', 't', '-', 'l', 'e', 'n', 'g', 't', 'h']
}

/// `k` names the Content-Length header, in any letter case.
pub open spec fn is_content_length(k: Seq<char>) -> bool {
    k.len() == 14 && forall|j: int| 0 <= j < 14 ==> ascii_lower(#[trigger] k[j]) == content_length_name()[j]
}

fn lower_char(c: char) -> (r: char)
    ensures
        r == ascii_lower(c),
{
    if 'A' <= c && c <= 'Z' {
        (((c as u32) + 32) as u8) as char
    } else {
        c
    }
}

fn names_content_length(k: &Vec<char>) -> (b: bool)
    ensures
        b == is_content_length(k@),
{
    if k.len() != 14 {
        return false;
    }
    let target: [char; 14] = ['c', 'o', 'n', 't', 'e', 'n', 't', '-', 'l', 'e', 'n', 'g', 't', 'h'];
    assert(target@ =~= content_length_name());
    let mut j: usize = 0;
    while j < 14
        invariant
            j <= 14,
            k@.len() == 14,
            target@ == content_length_name(),
            forall|i: int| 0 <= i < j ==> ascii_lower(#[trigger] k@[i]) == content_length_name()[i],
        decreases 14 - j,
    {
        if lower_char(k[j]) != target[j] {
            return false;
        }
        j = j + 1;
    }
    true
}

} // verus!

verus! {

/// `s` with its `{{env}}` references resolved strictly; on failure a build
/// error whose message is `prefix` followed by the resolution error.
pub fn subst_or_build(s: &str, vars: &StrMap, prefix: &Vec<char>) -> (r: Result<String, HttpError>)
    ensures
        match required_result(s@, vars@) {
            Ok(v) => r is Ok && r->Ok_0@ == v,
            Err(e) => r is Err && build_message(r->Err_0) == Some(prefix@ + e),
        },
{
    match substitute_required(s, vars) {
        Ok(v) => Ok(v),
        Err(e) => {
            let mut m = crate::placeholder::copy_chars(prefix);
            push_str(&mut m, e.as_str());
            Err(HttpError::Build(from_chars(&m)))
        },
    }
}

/// A header, query parameter or form field: a name and a value.
pub struct NameValue {
    pub name: String,
    pub value: String,
}

pub open spec fn nv_view(p: NameValue) -> (Seq<char>, Seq<char>) {
    (p.name@, p.value@)
}

pub open spec fn nv_seq(s: Seq<NameValue>) -> Seq<(Seq<char>, Seq<char>)> {
    s.map_values(|p: NameValue| nv_view(p))
}

/// Whether `s` begins with `p`.
pub open spec fn begins_with(s: Seq<char>, p: Seq<char>) -> bool {
    p.len() <= s.len() && s.subrange(0, p.len() as int) == p
}

/// The request URL: `{{env}}` references resolved, then the URL variables
/// built from `rows`, then `<name>` references resolved with them, then
/// trimmed; it must be non-empty and start with `http://` or `https://`.
pub open spec fn url_phase(url: Seq<char>, rows: Option<Seq<(Seq<char>, Seq<char>, bool)>>, vars: Map<Seq<char>, Seq<char>>) -> Result<Seq<char>, Seq<char>> {
    match required_result(url, vars) {
        Err(e) => Err("url: "@ + e),
        Ok(u1) => match url_var_map_spec(rows, vars) {
            Err(e) => Err(e),
            Ok(uv) => match url_vars_result(u1, uv) {
                Err(e) => Err("url vars: "@ + e),
                Ok(u2) => {
                    let t = trimmed(u2);
                    if t.len() == 0 {
                        Err("URL is empty"@)
                    } else if !(begins_with(t, "http://"@) || begins_with(t, "https://"@)) {
                        Err("URL must start with http:// or https:// (got '"@ + t + "')"@)
                    } else {
                        Ok(t)
                    }
                },
            },
        },
    }
}

fn has_prefix(s: &Vec<char>, p: &str) -> (b: bool)
    ensures
        b == begins_with(s@, p@),
{
    let pv = to_chars(p);
    let b = crate::placeholder::occurs_at(s, 0, &pv);
    proof {
        if b {
            assert(s@.subrange(0, pv@.len() as int) == pv@);
        }
    }
    b
}

/// Computes the request URL (see `url_phase`).
pub fn prepare_url(url: &str, rows: &Option<Vec<QueryParam>>, vars: &StrMap) -> (r: Result<String, HttpError>)
    ensures
        match url_phase(url@, rows_view(*rows), vars@) {
            Ok(u) => r is Ok && r->Ok_0@ == u,
            Err(e) => r is Err && build_message(r->Err_0) == Some(e),
        },
{
    let prefix = to_chars("url: ");
    let u1 = match subst_or_build(url, vars, &prefix) {
        Ok(u) => u,
        Err(e) => {
            return Err(e);
        },
    };
    let uv = match build_url_var_map(rows, vars) {
        Ok(m) => m,
        Err(e) => {
            return Err(e);
        },
    };
    let u2 = match substitute_url_vars(u1.as_str(), &uv) {
        Ok(u) => u,
        Err(e) => {
            let mut m = to_chars("url vars: ");
            push_str(&mut m, e.as_str());
            return Err(HttpError::Build(from_chars(&m)));
        },
    };
    let u2c = to_chars(u2.as_str());
    let t = trim_chars(&u2c);
    if t.len() == 0 {
        let m = to_chars("URL is empty");
        return Err(HttpError::Build(from_chars(&m)));
    }
    if !(has_prefix(&t, "http://") || has_prefix(&t, "https://")) {
        let mut m = to_chars("URL must start with http:// or https:// (got '");
        push_all(&mut m, &t);
        push_str(&mut m, "')");
        return Err(HttpError::Build(from_chars(&m)));
    }
    Ok(from_chars(&t))
}

/// The headers `ps[i..]` with their references resolved, appended to `acc`;
/// each name and value must then be valid for HTTP.
pub open spec fn headers_from(
    ps: Seq<(Seq<char>, Seq<char>)>,
    i: int,
    acc: Seq<(Seq<char>, Seq<char>)>,
    vars: Map<Seq<char>, Seq<char>>,
) -> Result<Seq<(Seq<char>, Seq<char>)>, Seq<char>>
    decreases ps.len() - i,
{
    if i < 0 || i >= ps.len() {
        Ok(acc)
    } else {
        match required_result(ps[i].0, vars) {
            Err(e) => Err("header name '"@ + ps[i].0 + "': "@ + e),
            Ok(k) => match required_result(ps[i].1, vars) {
                Err(e) => Err("header value for '"@ + k + "': "@ + e),
                Ok(v) => if !header_name_ok(k) {
                    Err("bad header name "@ + k + ": "@ + err_text(header_name_error(k)))
                } else if !header_value_ok(v) {
                    Err("bad header value: "@ + err_text(header_value_error(v)))
                } else {
                    headers_from(ps, i + 1, acc.push((k, v)), vars)
                },
            },
        }
    }
}

/// The header entries of a request, in order.
pub open spec fn header_pairs(h: Option<StrMap>) -> Seq<(Seq<char>, Seq<char>)> {
    match h {
        None => Seq::empty(),
        Some(m) => m.pairs(),
    }
}

/// Resolves and checks the request's headers (see `headers_from`).
pub fn prepare_headers(h: &Option<StrMap>, vars: &StrMap) -> (r: Result<Vec<NameValue>, HttpError>)
    ensures
        match headers_from(header_pairs(*h), 0, Seq::empty(), vars@) {
            Ok(hs) => r is Ok && nv_seq(r->Ok_0@) == hs,
            Err(e) => r is Err && build_message(r->Err_0) == Some(e),
        },
{
    let mut out: Vec<NameValue> = Vec::new();
    let m = match h {
        None => {
            assert(nv_seq(out@) =~= Seq::<(Seq<char>, Seq<char>)>::empty());
            return Ok(out);
        },
        Some(m) => m,
    };
    let ghost ps = header_pairs(*h);
    let mut i: usize = 0;
    assert(nv_seq(out@) =~= Seq::<(Seq<char>, Seq<char>)>::empty());
    while i < m.len()
        invariant
            i <= ps.len(),
            ps == m.pairs(),
            ps == header_pairs(*h),
            headers_from(ps, 0, Seq::empty(), vars@) == headers_from(ps, i as int, nv_seq(out@), vars@),
        decreases ps.len() - i,
    {
        let (rk, rv) = m.entry(i);
        let mut p1 = to_chars("header name '");
        push_str(&mut p1, rk.as_str());
        push_str(&mut p1, "': ");
        let k = match subst_or_build(rk.as_str(), vars, &p1) {
            Ok(k) => k,
            Err(e) => {
                return Err(e);
            },
        };
        let mut p2 = to_chars("header value for '");
        push_str(&mut p2, k.as_str());
        push_str(&mut p2, "': ");
        let v = match subst_or_build(rv.as_str(), vars, &p2) {
            Ok(v) => v,
            Err(e) => {
                return Err(e);
            },
        };
        let kc = to_chars(k.as_str());
        match header_name_check(k.as_str()) {
            Some(e) => {
                let mut msg = to_chars("bad header name ");
                push_str(&mut msg, k.as_str());
                push_str(&mut msg, ": ");
                push_str(&mut msg, e.as_str());
                return Err(HttpError::Build(from_chars(&msg)));
            },
            None => {},
        }
        let vc = to_chars(v.as_str());
        match header_value_check(v.as_str()) {
            Some(e) => {
                let mut msg = to_chars("bad header value: ");
                push_str(&mut msg, e.as_str());
                return Err(HttpError::Build(from_chars(&msg)));
            },
            None => {},
        }
        let ghost before = nv_seq(out@);
        out.push(NameValue { name: k, value: v });
        assert(nv_seq(out@) =~= before.push((kc@, vc@)));
        i = i + 1;
    }
    Ok(out)
}

/// The enabled rows of `rows[i..]` with their references resolved, appended
/// to `acc`.
pub open spec fn query_from(
    rows: Seq<(Seq<char>, Seq<char>, bool)>,
    i: int,
    acc: Seq<(Seq<char>, Seq<char>)>,
    vars: Map<Seq<char>, Seq<char>>,
) -> Result<Seq<(Seq<char>, Seq<char>)>, Seq<char>>
    decreases rows.len() - i,
{
    if i < 0 || i >= rows.len() {
        Ok(acc)
    } else if !rows[i].2 {
        query_from(rows, i + 1, acc, vars)
    } else {
        match required_result(rows[i].0, vars) {
            Err(e) => Err("query param key '"@ + rows[i].0 + "': "@ + e),
            Ok(k) => match required_result(rows[i].1, vars) {
                Err(e) => Err("query param '"@ + k + "': "@ + e),
                Ok(v) => query_from(rows, i + 1, acc.push((k, v)), vars),
            },
        }
    }
}

/// The query parameters of a request (see `query_from`).
pub open spec fn query_spec(rows: Option<Seq<(Seq<char>, Seq<char>, bool)>>, vars: Map<Seq<char>, Seq<char>>) -> Result<Seq<(Seq<char>, Seq<char>)>, Seq<char>> {
    match rows {
        None => Ok(Seq::empty()),
        Some(rs) => query_from(rs, 0, Seq::empty(), vars),
    }
}

/// Resolves the enabled query parameters (see `query_from`).
pub fn prepare_query(rows: &Option<Vec<QueryParam>>, vars: &StrMap) -> (r: Result<Vec<NameValue>, HttpError>)
    ensures
        match query_spec(rows_view(*rows), vars@) {
            Ok(q) => r is Ok && nv_seq(r->Ok_0@) == q,
            Err(e) => r is Err && build_message(r->Err_0) == Some(e),
        },
{
    let mut out: Vec<NameValue> = Vec::new();
    assert(nv_seq(out@) =~= Seq::<(Seq<char>, Seq<char>)>::empty());
    let rs = match rows {
        None => {
            return Ok(out);
        },
        Some(rs) => rs,
    };
    let ghost rv = rows_seq(rs@);
    assert(query_spec(rows_view(*rows), vars@) == query_from(rv, 0, Seq::empty(), vars@));
    let mut i: usize = 0;
    while i < rs.len()
        invariant
            i <= rs@.len(),
            rv == rows_seq(rs@),
            query_spec(rows_view(*rows), vars@) == query_from(rv, 0, Seq::empty(), vars@),
            query_from(rv, 0, Seq::empty(), vars@) == query_from(rv, i as int, nv_seq(out@), vars@),
        decreases rs@.len() - i,
    {
        let row = &rs[i];
        assert(rv[i as int] == row_view(*row));
        if row.enabled {
            let mut p1 = to_chars("query param key '");
            push_str(&mut p1, row.key.as_str());
            push_str(&mut p1, "': ");
            let k = match subst_or_build(row.key.as_str(), vars, &p1) {
                Ok(k) => k,
                Err(e) => {
                    return Err(e);
                },
            };
            let mut p2 = to_chars("query param '");
            push_str(&mut p2, k.as_str());
            push_str(&mut p2, "': ");
            let v = match subst_or_build(row.value.as_str(), vars, &p2) {
                Ok(v) => v,
                Err(e) => {
                    return Err(e);
                },
            };
            let ghost before = nv_seq(out@);
            let ghost kv = (k@, v@);
            out.push(NameValue { name: k, value: v });
            assert(nv_seq(out@) =~= before.push(kv));
        }
        i = i + 1;
    }
    Ok(out)
}

} // verus!

verus! {

/// What authentication adds to a request.
pub struct AuthPart {
    /// A header to add (`Authorization`, or an API key header).
    pub header: Option<NameValue>,
    /// A query parameter to add (an API key sent in the query).
    pub query: Option<NameValue>,
    /// User name and password for HTTP basic authentication.
    pub basic: Option<NameValue>,
    /// An OAuth2 token must be fetched and sent as a bearer token.
    pub oauth: bool,
}

/// `AuthPart` as character sequences.
pub struct AuthSpec {
    pub header: Option<(Seq<char>, Seq<char>)>,
    pub query: Option<(Seq<char>, Seq<char>)>,
    pub basic: Option<(Seq<char>, Seq<char>)>,
    pub oauth: bool,
}

pub open spec fn opt_nv(o: Option<NameValue>) -> Option<(Seq<char>, Seq<char>)> {
    match o {
        None => None,
        Some(p) => Some(nv_view(p)),
    }
}

pub open spec fn auth_part_view(a: AuthPart) -> AuthSpec {
    AuthSpec { header: opt_nv(a.header), query: opt_nv(a.query), basic: opt_nv(a.basic), oauth: a.oauth }
}

pub open spec fn authorization_name() -> Seq<char> {
    seq!['a', 'u', 't', 'h', 'o', 'r', 'i', 'z', 'a', 't', 'i', 'o', 'n']
}

pub open spec fn no_auth() -> AuthSpec {
    AuthSpec { header: None, query: None, basic: None, oauth: false }
}

/// What the request's authentication adds, with references resolved:
/// a bearer token becomes `Authorization: Bearer <token>`; basic auth a user
/// and password; an API key a header or a query parameter; OAuth2 a token to
/// fetch.
pub open spec fn auth_phase(auth: Option<Auth>, vars: Map<Seq<char>, Seq<char>>) -> Result<AuthSpec, Seq<char>> {
    match auth {
        None => Ok(no_auth()),
        Some(Auth::NoAuth) => Ok(no_auth()),
        Some(Auth::Bearer { token }) => match required_result(token@, vars) {
            Err(e) => Err("bearer token: "@ + e),
            Ok(t) => if header_value_ok("Bearer "@ + t) {
                Ok(AuthSpec { header: Some((authorization_name(), "Bearer "@ + t)), ..no_auth() })
            } else {
                Err("bad bearer token: "@ + err_text(header_value_error("Bearer "@ + t)))
            },
        },
        Some(Auth::Basic { username, password }) => match required_result(username@, vars) {
            Err(e) => Err("basic auth username: "@ + e),
            Ok(u) => match required_result(password@, vars) {
                Err(e) => Err("basic auth password: "@ + e),
                Ok(p) => Ok(AuthSpec { basic: Some((u, p)), ..no_auth() }),
            },
        },
        Some(Auth::ApiKey { key, value, location }) => match required_result(key@, vars) {
            Err(e) => Err("api key name: "@ + e),
            Ok(k) => match required_result(value@, vars) {
                Err(e) => Err("api key value for '"@ + k + "': "@ + e),
                Ok(v) => match location {
                    ApiKeyLocation::Header => if !header_name_ok(k) {
                        Err("bad api key header: "@ + err_text(header_name_error(k)))
                    } else if !header_value_ok(v) {
                        Err("bad api key value: "@ + err_text(header_value_error(v)))
                    } else {
                        Ok(AuthSpec { header: Some((k, v)), ..no_auth() })
                    },
                    ApiKeyLocation::Query => Ok(AuthSpec { query: Some((k, v)), ..no_auth() }),
                },
            },
        },
        Some(Auth::OAuth2(_)) => Ok(AuthSpec { oauth: true, ..no_auth() }),
    }
}

fn authorization_string() -> (s: String)
    ensures
        s@ == authorization_name(),
{
    let mut v: Vec<char> = Vec::new();
    push_str(&mut v, "authorization");
    proof {
        reveal_strlit("authorization");
    }
    assert(v@ =~= authorization_name());
    from_chars(&v)
}

/// Works out what the request's authentication adds (see `auth_phase`).
pub fn prepare_auth(auth: &Option<Auth>, vars: &StrMap) -> (r: Result<AuthPart, HttpError>)
    ensures
        match auth_phase(*auth, vars@) {
            Ok(a) => r is Ok && auth_part_view(r->Ok_0) == a,
            Err(e) => r is Err && build_message(r->Err_0) == Some(e),
        },
{
    let none = AuthPart { header: None, query: None, basic: None, oauth: false };
    match auth {
        None => Ok(none),
        Some(Auth::NoAuth) => Ok(none),
        Some(Auth::Bearer { token }) => {
            let p = to_chars("bearer token: ");
            let t = match subst_or_build(token.as_str(), vars, &p) {
                Ok(t) => t,
                Err(e) => {
                    return Err(e);
                },
            };
            let mut v = to_chars("Bearer ");
            push_str(&mut v, t.as_str());
            match header_value_check(from_chars(&v).as_str()) {
                Some(e) => {
                    let mut m = to_chars("bad bearer token: ");
                    push_str(&mut m, e.as_str());
                    return Err(HttpError::Build(from_chars(&m)));
                },
                None => {},
            }
            Ok(AuthPart { header: Some(NameValue { name: authorization_string(), value: from_chars(&v) }), ..none })
        },
        Some(Auth::Basic { username, password }) => {
            let p1 = to_chars("basic auth username: ");
            let u = match subst_or_build(username.as_str(), vars, &p1) {
                Ok(u) => u,
                Err(e) => {
                    return Err(e);
                },
            };
            let p2 = to_chars("basic auth password: ");
            let pw = match subst_or_build(password.as_str(), vars, &p2) {
                Ok(p) => p,
                Err(e) => {
                    return Err(e);
                },
            };
            Ok(AuthPart { basic: Some(NameValue { name: u, value: pw }), ..none })
        },
        Some(Auth::ApiKey { key, value, location }) => {
            let p1 = to_chars("api key name: ");
            let k = match subst_or_build(key.as_str(), vars, &p1) {
                Ok(k) => k,
                Err(e) => {
                    return Err(e);
                },
            };
            let mut p2 = to_chars("api key value for '");
            push_str(&mut p2, k.as_str());
            push_str(&mut p2, "': ");
            let v = match subst_or_build(value.as_str(), vars, &p2) {
                Ok(v) => v,
                Err(e) => {
                    return Err(e);
                },
            };
            match location {
                ApiKeyLocation::Header => {
                    match header_name_check(k.as_str()) {
                        Some(e) => {
                            let mut m = to_chars("bad api key header: ");
                            push_str(&mut m, e.as_str());
                            return Err(HttpError::Build(from_chars(&m)));
                        },
                        None => {},
                    }
                    match header_value_check(v.as_str()) {
                        Some(e) => {
                            let mut m = to_chars("bad api key value: ");
                            push_str(&mut m, e.as_str());
                            return Err(HttpError::Build(from_chars(&m)));
                        },
                        None => {},
                    }
                    Ok(AuthPart { header: Some(NameValue { name: k, value: v }), ..none })
                },
                ApiKeyLocation::Query => Ok(AuthPart { query: Some(NameValue { name: k, value: v }), ..none }),
            }
        },
        Some(Auth::OAuth2(_)) => Ok(AuthPart { oauth: true, ..none }),
    }
}

} // verus!

verus! {

/// The request line, headers and query, ready to be sent.
pub struct RequestHead {
    pub method: RequestType,
    /// The trimmed URL, starting with `http://` or `https://`.
    pub url: String,
    /// Headers in the order they are set; a later one replaces an earlier
    /// one of the same name.
    pub headers: Vec<NameValue>,
    /// Whether the request's own headers set Content-Length.
    pub has_content_length: bool,
    pub query: Vec<NameValue>,
    /// User name and password for HTTP basic authentication.
    pub basic_auth: Option<NameValue>,
    /// An OAuth2 token must still be fetched (see `apply_oauth_token`).
    pub needs_oauth: bool,
}

/// `RequestHead` as character sequences.
pub struct HeadSpec {
    pub method: RequestType,
    pub url: Seq<char>,
    pub headers: Seq<(Seq<char>, Seq<char>)>,
    pub has_content_length: bool,
    pub query: Seq<(Seq<char>, Seq<char>)>,
    pub basic_auth: Option<(Seq<char>, Seq<char>)>,
    pub needs_oauth: bool,
}

pub open spec fn head_view(h: RequestHead) -> HeadSpec {
    HeadSpec {
        method: h.method,
        url: h.url@,
        headers: nv_seq(h.headers@),
        has_content_length: h.has_content_length,
        query: nv_seq(h.query@),
        basic_auth: opt_nv(h.basic_auth),
        needs_oauth: h.needs_oauth,
    }
}

pub open spec fn push_opt(s: Seq<(Seq<char>, Seq<char>)>, o: Option<(Seq<char>, Seq<char>)>) -> Seq<(Seq<char>, Seq<char>)> {
    match o {
        None => s,
        Some(p) => s.push(p),
    }
}

/// Some header of `hs` is Content-Length.
pub open spec fn any_content_length(hs: Seq<(Seq<char>, Seq<char>)>) -> bool {
    exists|i: int| 0 <= i < hs.len() && is_content_length(#[trigger] hs[i].0)
}

/// The head of `req`: the URL (`url_phase`), then its headers
/// (`headers_from`), then its query (`query_from`), then what authentication
/// adds (`auth_phase`); the first failure is the result.
pub open spec fn head_spec(req: Request, vars: Map<Seq<char>, Seq<char>>) -> Result<HeadSpec, Seq<char>> {
    match url_phase(req.url@, rows_view(req.url_vars), vars) {
        Err(e) => Err(e),
        Ok(url) => match headers_from(header_pairs(req.headers), 0, Seq::empty(), vars) {
            Err(e) => Err(e),
            Ok(hs) => match query_spec(rows_view(req.params), vars) {
                Err(e) => Err(e),
                Ok(q) => match auth_phase(req.auth, vars) {
                    Err(e) => Err(e),
                    Ok(a) => Ok(
                        HeadSpec {
                            method: req.request_type,
                            url,
                            headers: push_opt(hs, a.header),
                            has_content_length: any_content_length(hs),
                            query: push_opt(q, a.query),
                            basic_auth: a.basic,
                            needs_oauth: a.oauth,
                        },
                    ),
                },
            },
        },
    }
}

fn push_nv(v: &mut Vec<NameValue>, o: Option<NameValue>)
    ensures
        nv_seq(final(v)@) == push_opt(nv_seq(old(v)@), opt_nv(o)),
{
    match o {
        None => {},
        Some(p) => {
            let ghost pv = nv_view(p);
            let ghost before = nv_seq(v@);
            v.push(p);
            assert(nv_seq(v@) =~= before.push(pv));
        },
    }
}

fn headers_have_content_length(hs: &Vec<NameValue>) -> (b: bool)
    ensures
        b == any_content_length(nv_seq(hs@)),
{
    let ghost s = nv_seq(hs@);
    let mut i: usize = 0;
    while i < hs.len()
        invariant
            i <= hs@.len(),
            s == nv_seq(hs@),
            forall|j: int| 0 <= j < i ==> !is_content_length(#[trigger] s[j].0),
        decreases hs@.len() - i,
    {
        let k = to_chars(hs[i].name.as_str());
        if names_content_length(&k) {
            assert(is_content_length(s[i as int].0));
            return true;
        }
        i = i + 1;
    }
    false
}

/// Assembles everything of `req` but its body (see `head_spec`).
pub fn prepare_head(req: &Request, vars: &StrMap) -> (r: Result<RequestHead, HttpError>)
    ensures
        match head_spec(*req, vars@) {
            Ok(h) => r is Ok && head_view(r->Ok_0) == h,
            Err(e) => r is Err && build_message(r->Err_0) == Some(e),
        },
{
    let url = match prepare_url(req.url.as_str(), &req.url_vars, vars) {
        Ok(u) => u,
        Err(e) => {
            return Err(e);
        },
    };
    let mut headers = match prepare_headers(&req.headers, vars) {
        Ok(h) => h,
        Err(e) => {
            return Err(e);
        },
    };
    let has_cl = headers_have_content_length(&headers);
    let mut query = match prepare_query(&req.params, vars) {
        Ok(q) => q,
        Err(e) => {
            return Err(e);
        },
    };
    let auth = match prepare_auth(&req.auth, vars) {
        Ok(a) => a,
        Err(e) => {
            return Err(e);
        },
    };
    push_nv(&mut headers, auth.header);
    push_nv(&mut query, auth.query);
    Ok(
        RequestHead {
            method: req.request_type,
            url,
            headers,
            has_content_length: has_cl,
            query,
            basic_auth: auth.basic,
            needs_oauth: auth.oauth,
        },
    )
}

/// Adds the fetched OAuth2 token (or the failure to fetch one) to `head`.
pub open spec fn oauth_spec(h: HeadSpec, token: Result<Seq<char>, Seq<char>>) -> Result<HeadSpec, Seq<char>> {
    match token {
        Err(e) => Err("oauth2: "@ + e),
        Ok(t) => if header_value_ok("Bearer "@ + t) {
            Ok(HeadSpec { headers: h.headers.push((authorization_name(), "Bearer "@ + t)), needs_oauth: false, ..h })
        } else {
            Err("bad oauth2 token: "@ + err_text(header_value_error("Bearer "@ + t)))
        },
    }
}

/// Sends the fetched OAuth2 token as `Authorization: Bearer <token>`; a
/// failed fetch becomes a build error `oauth2: ...`.
pub fn apply_oauth_token(head: RequestHead, token: Result<String, String>) -> (r: Result<RequestHead, HttpError>)
    ensures
        match oauth_spec(head_view(head), res_view(token)) {
            Ok(h) => r is Ok && head_view(r->Ok_0) == h,
            Err(e) => r is Err && build_message(r->Err_0) == Some(e),
        },
{
    let t = match token {
        Ok(t) => t,
        Err(e) => {
            let mut m = to_chars("oauth2: ");
            push_str(&mut m, e.as_str());
            return Err(HttpError::Build(from_chars(&m)));
        },
    };
    let mut v = to_chars("Bearer ");
    push_str(&mut v, t.as_str());
    match header_value_check(from_chars(&v).as_str()) {
        Some(e) => {
            let mut m = to_chars("bad oauth2 token: ");
            push_str(&mut m, e.as_str());
            return Err(HttpError::Build(from_chars(&m)));
        },
        None => {},
    }
    let mut head = head;
    let ghost before = nv_seq(head.headers@);
    let ghost vv = v@;
    head.headers.push(NameValue { name: authorization_string(), value: from_chars(&v) });
    assert(nv_seq(head.headers@) =~= before.push((authorization_name(), vv)));
    head.needs_oauth = false;
    Ok(head)
}

} // verus!

verus! {

/// The MIME type of a file part.
pub enum MimePlan {
    /// None given.
    Unset,
    /// The given type, references resolved.
    Given(String),
    /// Resolving it failed, or reqwest refuses it (`bad mime: ...`); sending
    /// stops with this error once the file has been read.
    Fail(HttpError),
}

/// One part of a multipart body, in order.
pub enum PartStep {
    Text(NameValue),
    /// A file to read from `path` and send under `key`.
    File { key: String, path: String, mime: MimePlan },
}

/// A multipart body: parts to add in order, then, if a field failed to
/// resolve, the error that ends sending (after the earlier files are read).
pub struct MultipartPlan {
    pub steps: Vec<PartStep>,
    pub error: Option<HttpError>,
}

/// The body to send.
pub enum PreparedBody {
    NoBody,
    Raw(String),
    /// JSON text, sent as `application/json` once parsed again.
    Json(String),
    /// `application/x-www-form-urlencoded` fields.
    Form(Vec<NameValue>),
    Multipart(MultipartPlan),
}

pub enum MimeSpec {
    Unset,
    Given(Seq<char>),
    Fail(Seq<char>),
}

pub enum StepSpec {
    Text(Seq<char>, Seq<char>),
    File(Seq<char>, Seq<char>, MimeSpec),
}

pub enum BodySpec {
    NoBody,
    Raw(Seq<char>),
    Json(Seq<char>),
    Form(Seq<(Seq<char>, Seq<char>)>),
    Multipart(Seq<StepSpec>, Option<Seq<char>>),
}

pub open spec fn mime_view(m: MimePlan) -> MimeSpec {
    match m {
        MimePlan::Unset => MimeSpec::Unset,
        MimePlan::Given(s) => MimeSpec::Given(s@),
        MimePlan::Fail(e) => MimeSpec::Fail(build_message(e)->0),
    }
}

pub open spec fn mime_wf(m: MimePlan) -> bool {
    match m {
        MimePlan::Fail(e) => build_message(e) is Some,
        _ => true,
    }
}

pub open spec fn step_view(s: PartStep) -> StepSpec {
    match s {
        PartStep::Text(p) => StepSpec::Text(p.name@, p.value@),
        PartStep::File { key, path, mime } => StepSpec::File(key@, path@, mime_view(mime)),
    }
}

pub open spec fn steps_view(s: Seq<PartStep>) -> Seq<StepSpec> {
    s.map_values(|x: PartStep| step_view(x))
}

pub open spec fn body_view(b: PreparedBody) -> BodySpec {
    match b {
        PreparedBody::NoBody => BodySpec::NoBody,
        PreparedBody::Raw(s) => BodySpec::Raw(s@),
        PreparedBody::Json(s) => BodySpec::Json(s@),
        PreparedBody::Form(v) => BodySpec::Form(nv_seq(v@)),
        PreparedBody::Multipart(p) => BodySpec::Multipart(
            steps_view(p.steps@),
            match p.error {
                None => None,
                Some(e) => build_message(e),
            },
        ),
    }
}

/// The multipart fields `fs[i..]` resolved into parts after `acc`. A field
/// whose key, text or path fails to resolve, or whose path is empty, ends
/// the plan with that error; a failing MIME type ends it after its part.
pub open spec fn multipart_from(
    fs: Seq<FormField>,
    i: int,
    acc: Seq<StepSpec>,
    vars: Map<Seq<char>, Seq<char>>,
) -> (Seq<StepSpec>, Option<Seq<char>>)
    decreases fs.len() - i,
{
    if i < 0 || i >= fs.len() {
        (acc, None)
    } else {
        match required_result(fs[i].key@, vars) {
            Err(e) => (acc, Some("multipart key '"@ + fs[i].key@ + "': "@ + e)),
            Ok(key) => match fs[i].value {
                FormValue::Text(t) => match required_result(t@, vars) {
                    Err(e) => (acc, Some("multipart value for '"@ + key + "': "@ + e)),
                    Ok(v) => multipart_from(fs, i + 1, acc.push(StepSpec::Text(key, v)), vars),
                },
                FormValue::File(fr) => match required_result(fr.path@, vars) {
                    Err(e) => (acc, Some("file path for '"@ + key + "': "@ + e)),
                    Ok(path) => if path.len() == 0 {
                        (acc, Some("file path for '"@ + key + "' is empty"@))
                    } else {
                        match fr.mime_type {
                            None => multipart_from(fs, i + 1, acc.push(StepSpec::File(key, path, MimeSpec::Unset)), vars),
                            Some(m) => match required_result(m@, vars) {
                                Err(e) => (acc.push(StepSpec::File(key, path, MimeSpec::Fail("mime for '"@ + key + "': "@ + e))), None),
                                Ok(mv) => match mime_error(mv) {
                                    Some(e) => (acc.push(StepSpec::File(key, path, MimeSpec::Fail("bad mime: "@ + e))), None),
                                    None => multipart_from(fs, i + 1, acc.push(StepSpec::File(key, path, MimeSpec::Given(mv))), vars),
                                },
                            },
                        }
                    },
                },
            },
        }
    }
}

/// What reqwest's `Part::mime_str` says of a MIME type: the text of its
/// error, or none when it accepts the type.
pub uninterp spec fn mime_error(m: Seq<char>) -> Option<Seq<char>>;

/// reqwest's `multipart::Part::mime_str`, tried on an empty text part.
/// Claimed: the result is `mime_error` of the type.
#[verifier::external_body]
fn mime_check(m: &str) -> (r: Option<String>)
    ensures
        text_opt(r) == mime_error(m@),
{
    match reqwest::multipart::Part::text("").mime_str(m) {
        Ok(_) => None,
        Err(e) => Some(e.to_string()),
    }
}

/// The form fields `ps[i..]` with references resolved, after `acc`.
pub open spec fn form_from(
    ps: Seq<(Seq<char>, Seq<char>)>,
    i: int,
    acc: Seq<(Seq<char>, Seq<char>)>,
    vars: Map<Seq<char>, Seq<char>>,
) -> Result<Seq<(Seq<char>, Seq<char>)>, Seq<char>>
    decreases ps.len() - i,
{
    if i < 0 || i >= ps.len() {
        Ok(acc)
    } else {
        match required_result(ps[i].0, vars) {
            Err(e) => Err("form key '"@ + ps[i].0 + "': "@ + e),
            Ok(k) => match required_result(ps[i].1, vars) {
                Err(e) => Err("form value for '"@ + k + "': "@ + e),
                Ok(v) => form_from(ps, i + 1, acc.push((k, v)), vars),
            },
        }
    }
}

/// What serde_json's `from_str` into a JSON value says of a text: the text
/// of its error, or none when the text parses.
pub uninterp spec fn json_text_error(t: Seq<char>) -> Option<Seq<char>>;

/// serde_json's `from_str::<Value>`. Claimed: the result is
/// `json_text_error` of the text.
#[verifier::external_body]
fn json_text_check(t: &str) -> (r: Option<String>)
    ensures
        text_opt(r) == json_text_error(t@),
{
    match serde_json::from_str::<serde_json::Value>(t) {
        Ok(_) => None,
        Err(e) => Some(e.to_string()),
    }
}

/// The body of a request with its references resolved. A JSON body is its
/// compact text once substituted, refused (`json reparse: ...`) when the
/// result is no longer JSON.
pub open spec fn body_spec(body: Option<RequestBody>, vars: Map<Seq<char>, Seq<char>>) -> Result<BodySpec, Seq<char>> {
    match body {
        None => Ok(BodySpec::NoBody),
        Some(RequestBody::Empty) => Ok(BodySpec::NoBody),
        Some(RequestBody::Raw(s)) => match required_result(s@, vars) {
            Err(e) => Err("raw body: "@ + e),
            Ok(t) => Ok(BodySpec::Raw(t)),
        },
        Some(RequestBody::Json(doc)) => match required_result(doc.value.text@, vars) {
            Err(e) => Err("json body: "@ + e),
            Ok(t) => match json_text_error(t) {
                Some(e) => Err("json reparse: "@ + e),
                None => Ok(BodySpec::Json(t)),
            },
        },
        Some(RequestBody::Form(m)) => match form_from(m.pairs(), 0, Seq::empty(), vars) {
            Err(e) => Err(e),
            Ok(f) => Ok(BodySpec::Form(f)),
        },
        Some(RequestBody::Multipart(fs)) => {
            let p = multipart_from(fs@, 0, Seq::empty(), vars);
            Ok(BodySpec::Multipart(p.0, p.1))
        },
    }
}

fn prepare_form(m: &StrMap, vars: &StrMap) -> (r: Result<Vec<NameValue>, HttpError>)
    ensures
        match form_from(m.pairs(), 0, Seq::empty(), vars@) {
            Ok(f) => r is Ok && nv_seq(r->Ok_0@) == f,
            Err(e) => r is Err && build_message(r->Err_0) == Some(e),
        },
{
    let mut out: Vec<NameValue> = Vec::new();
    let ghost ps = m.pairs();
    assert(nv_seq(out@) =~= Seq::<(Seq<char>, Seq<char>)>::empty());
    let mut i: usize = 0;
    while i < m.len()
        invariant
            i <= ps.len(),
            ps == m.pairs(),
            form_from(ps, 0, Seq::empty(), vars@) == form_from(ps, i as int, nv_seq(out@), vars@),
        decreases ps.len() - i,
    {
        let (rk, rv) = m.entry(i);
        let mut p1 = to_chars("form key '");
        push_str(&mut p1, rk.as_str());
        push_str(&mut p1, "': ");
        let k = match subst_or_build(rk.as_str(), vars, &p1) {
            Ok(k) => k,
            Err(e) => {
                return Err(e);
            },
        };
        let mut p2 = to_chars("form value for '");
        push_str(&mut p2, k.as_str());
        push_str(&mut p2, "': ");
        let v = match subst_or_build(rv.as_str(), vars, &p2) {
            Ok(v) => v,
            Err(e) => {
                return Err(e);
            },
        };
        let ghost before = nv_seq(out@);
        let ghost kv = (k@, v@);
        out.push(NameValue { name: k, value: v });
        assert(nv_seq(out@) =~= before.push(kv));
        i = i + 1;
    }
    Ok(out)
}

fn prepare_multipart(fs: &Vec<FormField>, vars: &StrMap) -> (r: MultipartPlan)
    ensures
        (steps_view(r.steps@), match r.error {
            None => None,
            Some(e) => build_message(e),
        }) == multipart_from(fs@, 0, Seq::empty(), vars@),
        r.error matches Some(e) ==> build_message(e) is Some,
        forall|j: int| 0 <= j < r.steps@.len() ==> (#[trigger] r.steps@[j] matches PartStep::File { mime, .. } ==> mime_wf(mime)),
{
    let mut steps: Vec<PartStep> = Vec::new();
    assert(steps_view(steps@) =~= Seq::<StepSpec>::empty());
    let mut i: usize = 0;
    while i < fs.len()
        invariant
            i <= fs@.len(),
            multipart_from(fs@, 0, Seq::empty(), vars@) == multipart_from(fs@, i as int, steps_view(steps@), vars@),
            forall|j: int| 0 <= j < steps@.len() ==> (#[trigger] steps@[j] matches PartStep::File { mime, .. } ==> mime_wf(mime)),
        decreases fs@.len() - i,
    {
        let f = &fs[i];
        let ghost before = steps_view(steps@);
        let mut p1 = to_chars("multipart key '");
        push_str(&mut p1, f.key.as_str());
        push_str(&mut p1, "': ");
        let key = match subst_or_build(f.key.as_str(), vars, &p1) {
            Ok(k) => k,
            Err(e) => {
                return MultipartPlan { steps, error: Some(e) };
            },
        };
        match &f.value {
            FormValue::Text(t) => {
                let mut p2 = to_chars("multipart value for '");
                push_str(&mut p2, key.as_str());
                push_str(&mut p2, "': ");
                let v = match subst_or_build(t.as_str(), vars, &p2) {
                    Ok(v) => v,
                    Err(e) => {
                        return MultipartPlan { steps, error: Some(e) };
                    },
                };
                let ghost sv = StepSpec::Text(key@, v@);
                steps.push(PartStep::Text(NameValue { name: key, value: v }));
                assert(steps_view(steps@) =~= before.push(sv));
            },
            FormValue::File(fr) => {
                let mut p2 = to_chars("file path for '");
                push_str(&mut p2, key.as_str());
                push_str(&mut p2, "': ");
                let path = match subst_or_build(fr.path.as_str(), vars, &p2) {
                    Ok(p) => p,
                    Err(e) => {
                        return MultipartPlan { steps, error: Some(e) };
                    },
                };
                let pc = to_chars(path.as_str());
                if pc.len() == 0 {
                    let mut m = to_chars("file path for '");
                    push_str(&mut m, key.as_str());
                    push_str(&mut m, "' is empty");
                    return MultipartPlan { steps, error: Some(HttpError::Build(from_chars(&m))) };
                }
                match &fr.mime_type {
                    None => {
                        let ghost sv = StepSpec::File(key@, path@, MimeSpec::Unset);
                        steps.push(PartStep::File { key, path, mime: MimePlan::Unset });
                        assert(steps_view(steps@) =~= before.push(sv));
                    },
                    Some(m) => {
                        let mut p3 = to_chars("mime for '");
                        push_str(&mut p3, key.as_str());
                        push_str(&mut p3, "': ");
                        match subst_or_build(m.as_str(), vars, &p3) {
                            Ok(mv) => match mime_check(mv.as_str()) {
                                Some(e) => {
                                    let mut bm = to_chars("bad mime: ");
                                    push_str(&mut bm, e.as_str());
                                    let err = HttpError::Build(from_chars(&bm));
                                    let ghost sv = StepSpec::File(key@, path@, MimeSpec::Fail(bm@));
                                    steps.push(PartStep::File { key, path, mime: MimePlan::Fail(err) });
                                    assert(steps_view(steps@) =~= before.push(sv));
                                    return MultipartPlan { steps, error: None };
                                },
                                None => {
                                    let ghost sv = StepSpec::File(key@, path@, MimeSpec::Given(mv@));
                                    steps.push(PartStep::File { key, path, mime: MimePlan::Given(mv) });
                                    assert(steps_view(steps@) =~= before.push(sv));
                                },
                            },
                            Err(e) => {
                                let ghost sv = StepSpec::File(key@, path@, MimeSpec::Fail(build_message(e)->0));
                                steps.push(PartStep::File { key, path, mime: MimePlan::Fail(e) });
                                assert(steps_view(steps@) =~= before.push(sv));
                                return MultipartPlan { steps, error: None };
                            },
                        }
                    },
                }
            },
        }
        i = i + 1;
    }
    MultipartPlan { steps, error: None }
}

/// Resolves the body of a request (see `body_spec`).
pub fn prepare_body(body: &Option<RequestBody>, vars: &StrMap) -> (r: Result<PreparedBody, HttpError>)
    ensures
        match body_spec(*body, vars@) {
            Ok(b) => r is Ok && body_view(r->Ok_0) == b,
            Err(e) => r is Err && build_message(r->Err_0) == Some(e),
        },
{
    match body {
        None => Ok(PreparedBody::NoBody),
        Some(RequestBody::Empty) => Ok(PreparedBody::NoBody),
        Some(RequestBody::Raw(s)) => {
            let p = to_chars("raw body: ");
            match subst_or_build(s.as_str(), vars, &p) {
                Ok(t) => Ok(PreparedBody::Raw(t)),
                Err(e) => Err(e),
            }
        },
        Some(RequestBody::Json(doc)) => {
            let p = to_chars("json body: ");
            match subst_or_build(doc.value.text.as_str(), vars, &p) {
                Ok(t) => match json_text_check(t.as_str()) {
                    Some(e) => {
                        let mut m = to_chars("json reparse: ");
                        push_str(&mut m, e.as_str());
                        Err(HttpError::Build(from_chars(&m)))
                    },
                    None => Ok(PreparedBody::Json(t)),
                },
                Err(e) => Err(e),
            }
        },
        Some(RequestBody::Form(m)) => match prepare_form(m, vars) {
            Ok(f) => Ok(PreparedBody::Form(f)),
            Err(e) => Err(e),
        },
        Some(RequestBody::Multipart(fs)) => Ok(PreparedBody::Multipart(prepare_multipart(fs, vars))),
    }
}

/// Whether a body-less request of this method gets an explicit
/// `Content-Length: 0` and an empty body: when the request's own headers do
/// not set Content-Length and the method is POST, PUT, PATCH or DELETE.
pub fn needs_zero_length(head: &RequestHead, body: &PreparedBody) -> (b: bool)
    ensures
        b == (body is NoBody && !head.has_content_length && (head.method == RequestType::Post
            || head.method == RequestType::Put || head.method == RequestType::Patch || head.method
            == RequestType::Delete)),
{
    let empty = match body {
        PreparedBody::NoBody => true,
        _ => false,
    };
    empty && !head.has_content_length && (head.method == RequestType::Post || head.method
        == RequestType::Put || head.method == RequestType::Patch || head.method == RequestType::Delete)
}

/// The message of a chain of errors, outermost first: the messages joined
/// by `: `, each dropped when it repeats the one before it.
pub open spec fn chain_message(chain: Seq<Seq<char>>) -> Seq<Seq<char>>
    decreases chain.len(),
{
    if chain.len() == 0 {
        Seq::empty()
    } else if chain.len() == 1 {
        chain
    } else {
        let before = chain_message(chain.drop_last());
        if before.last() == chain.last() {
            before
        } else {
            before.push(chain.last())
        }
    }
}

/// Turns an error and its chain of causes (outermost first) into one line.
pub fn stringify_error(chain: &Vec<String>) -> (r: String)
    requires
        chain@.len() > 0,
    ensures
        r@ == crate::text::join(chain_message(chain@.map_values(|s: String| s@)), ": "@),
{
    let ghost cv = chain@.map_values(|s: String| s@);
    let mut parts: Vec<Vec<char>> = Vec::new();
    parts.push(to_chars(chain[0].as_str()));
    assert(cv.take(1) =~= seq![cv[0]]);
    assert(crate::text::views(parts@) =~= chain_message(cv.take(1)));
    let mut i: usize = 1;
    while i < chain.len()
        invariant
            1 <= i <= chain@.len(),
            cv == chain@.map_values(|s: String| s@),
            crate::text::views(parts@) == chain_message(cv.take(i as int)),
            parts@.len() > 0,
        decreases chain@.len() - i,
    {
        let s = to_chars(chain[i].as_str());
        let last = parts.len() - 1;
        let same = match crate::text::lex_compare(&parts[last], &s) {
            crate::text::Order3::Equal => true,
            _ => {
                proof {
                    crate::text::lemma_lt_irreflexive(s@);
                }
                false
            },
        };
        let ghost before = crate::text::views(parts@);
        assert(cv.take(i + 1).drop_last() =~= cv.take(i as int));
        if !same {
            parts.push(s);
            assert(crate::text::views(parts@) =~= before.push(cv[i as int]));
        }
        i = i + 1;
    }
    assert(cv.take(chain@.len() as int) =~= cv);
    let sep = to_chars(": ");
    let out = crate::text::join_chars(&parts, &sep);
    from_chars(&out)
}

/// What came back for a request.
pub struct ExecutedResponse {
    pub status: u16,
    pub status_text: String,
    pub headers: Vec<(String, String)>,
    pub body: Vec<u8>,
    pub content_type: Option<String>,
    pub elapsed_ms: u64,
}

/// The standard reason phrase of an HTTP status code (`OK`, `Not Found`,
/// ...), when the code has one.
pub uninterp spec fn canonical_reason(status: u16) -> Option<Seq<char>>;

/// http's `StatusCode::canonical_reason` (reached through reqwest), for a
/// code as `StatusCode::from_u16` takes it; `None` for a code it refuses.
/// Claimed: the result is the named reason phrase of `status`.
#[verifier::external_body]
fn reason_phrase(status: u16) -> (r: Option<String>)
    ensures
        match r {
            Some(s) => canonical_reason(status) == Some(s@),
            None => canonical_reason(status) is None,
        },
{
    match reqwest::StatusCode::from_u16(status) {
        Ok(code) => code.canonical_reason().map(|s| s.to_string()),
        Err(_) => None,
    }
}

/// Visible ASCII as a header value may hold it and still be read as text:
/// a tab or a byte from space to `~`.
pub open spec fn is_visible_byte(b: u8) -> bool {
    (32 <= b && b < 127) || b == 9
}

/// A header value's bytes as text: the characters when every byte is
/// visible ASCII, else nothing.
pub open spec fn header_text(v: Seq<u8>) -> Seq<char> {
    if forall|i: int| 0 <= i < v.len() ==> is_visible_byte(v[i]) {
        Seq::new(v.len(), |i: int| v[i] as char)
    } else {
        Seq::empty()
    }
}

fn header_text_exec(v: &Vec<u8>) -> (r: String)
    ensures
        r@ == header_text(v@),
{
    let mut out: Vec<char> = Vec::new();
    let mut i: usize = 0;
    while i < v.len()
        invariant
            i <= v@.len(),
            out@ == Seq::new(i as nat, |j: int| v@[j] as char),
            forall|j: int| 0 <= j < i ==> is_visible_byte(v@[j]),
        decreases v@.len() - i,
    {
        let b = v[i];
        if !((32 <= b && b < 127) || b == 9) {
            let e: Vec<char> = Vec::new();
            return from_chars(&e);
        }
        out.push(b as char);
        i = i + 1;
        assert(out@ =~= Seq::new(i as nat, |j: int| v@[j] as char));
    }
    assert(out@ =~= Seq::new(v@.len(), |j: int| v@[j] as char));
    from_chars(&out)
}

/// A response header's name and value, as text.
pub open spec fn header_pair_view(h: (String, String)) -> (Seq<char>, Seq<char>) {
    (h.0@, h.1@)
}

/// The value of the first header named `Content-Type`, in any case.
pub open spec fn content_type_of(hs: Seq<(Seq<char>, Seq<char>)>) -> Option<Seq<char>>
    decreases hs.len(),
{
    if hs.len() == 0 {
        None
    } else if is_content_type(hs[0].0) {
        Some(hs[0].1)
    } else {
        content_type_of(hs.drop_first())
    }
}

/// Response headers as they come off the wire, each value read as text.
pub open spec fn raw_headers_view(rh: Seq<(String, Vec<u8>)>) -> Seq<(Seq<char>, Seq<char>)> {
    Seq::new(rh.len(), |i: int| (rh[i].0@, header_text(rh[i].1@)))
}

pub open spec fn headers_view(hs: Seq<(String, String)>) -> Seq<(Seq<char>, Seq<char>)> {
    Seq::new(hs.len(), |i: int| header_pair_view(hs[i]))
}

fn find_content_type(hs: &Vec<(String, String)>) -> (r: Option<String>)
    ensures
        match r {
            Some(v) => content_type_of(headers_view(hs@)) == Some(v@),
            None => content_type_of(headers_view(hs@)) is None,
        },
{
    let ghost hv = headers_view(hs@);
    let mut i: usize = 0;
    assert(hv.skip(0) =~= hv);
    while i < hs.len()
        invariant
            i <= hs@.len(),
            hv == headers_view(hs@),
            content_type_of(hv) == content_type_of(hv.skip(i as int)),
        decreases hs@.len() - i,
    {
        assert(hv.skip(i as int).drop_first() =~= hv.skip(i + 1));
        let name = to_chars(hs[i].0.as_str());
        if names_content_type(&name) {
            return Some(hs[i].1.clone());
        }
        i = i + 1;
    }
    None
}

/// The response as the library keeps it: the status and its reason phrase,
/// the headers as text (a value that is not visible ASCII becomes empty),
/// the `Content-Type` header's value, the body and the time it took.
pub fn finish_response(status: u16, raw_headers: Vec<(String, Vec<u8>)>, body: Vec<u8>, elapsed_ms: u64) -> (r: ExecutedResponse)
    ensures
        r.status == status,
        r.status_text@ == (match canonical_reason(status) {
            Some(t) => t,
            None => Seq::empty(),
        }),
        headers_view(r.headers@) == raw_headers_view(raw_headers@),
        r.content_type == None::<String> <==> content_type_of(headers_view(r.headers@)) is None,
        r.content_type matches Some(c) ==> content_type_of(headers_view(r.headers@)) == Some(c@),
        r.body@ == body@,
        r.elapsed_ms == elapsed_ms,
{
    let status_text = match reason_phrase(status) {
        Some(t) => t,
        None => {
            let e: Vec<char> = Vec::new();
            from_chars(&e)
        },
    };
    let mut headers: Vec<(String, String)> = Vec::new();
    let mut i: usize = 0;
    while i < raw_headers.len()
        invariant
            i <= raw_headers@.len(),
            headers_view(headers@) == raw_headers_view(raw_headers@).take(i as int),
        decreases raw_headers@.len() - i,
    {
        let ghost before = headers@;
        let name = raw_headers[i].0.clone();
        let value = header_text_exec(&raw_headers[i].1);
        let ghost pair = (name@, value@);
        headers.push((name, value));
        assert(headers_view(headers@) =~= headers_view(before).push(pair));
        assert(raw_headers_view(raw_headers@)[i as int] == pair);
        assert(raw_headers_view(raw_headers@).take(i + 1) =~= raw_headers_view(raw_headers@).take(i as int).push(pair));
        i = i + 1;
    }
    assert(raw_headers_view(raw_headers@).take(i as int) =~= raw_headers_view(raw_headers@));
    let content_type = find_content_type(&headers);
    ExecutedResponse { status, status_text, headers, body, content_type, elapsed_ms }
}

} // verus!

verus! {

/// An API key lands where it is asked to go. Compared with the same request
/// without authentication, one sent in the query adds exactly the pair
/// (name, value) at the end of the query and leaves the headers as they
/// are; one sent as a header adds exactly that header at the end and leaves
/// the query as it is. Nothing else of the head changes.
pub proof fn law_api_key_lands_where_asked(req: Request, vars: Map<Seq<char>, Seq<char>>, key: String, value: String, location: ApiKeyLocation)
    requires
        req.auth == Some(Auth::ApiKey { key, value, location }),
        head_spec(Request { auth: None, ..req }, vars) is Ok,
        required_result(key@, vars) is Ok,
        required_result(value@, vars) is Ok,
        location == ApiKeyLocation::Header ==> header_name_ok(required_result(key@, vars)->Ok_0)
            && header_value_ok(required_result(value@, vars)->Ok_0),
    ensures
        head_spec(req, vars) is Ok,
        ({
            let plain = head_spec(Request { auth: None, ..req }, vars)->Ok_0;
            let h = head_spec(req, vars)->Ok_0;
            let pair = (required_result(key@, vars)->Ok_0, required_result(value@, vars)->Ok_0);
            &&& h.url == plain.url
            &&& h.method == plain.method
            &&& h.basic_auth == plain.basic_auth
            &&& !h.needs_oauth
            &&& location == ApiKeyLocation::Query ==> h.query == plain.query.push(pair) && h.headers == plain.headers
            &&& location == ApiKeyLocation::Header ==> h.headers == plain.headers.push(pair) && h.query == plain.query
        }),
{
}

/// A bearer token, compared with the same request without authentication,
/// adds exactly the header `authorization: Bearer <token>` at the end and
/// leaves the query as it is; basic authentication adds no header and no
/// query pair, only the user name and password.
pub proof fn law_bearer_and_basic_auth(req: Request, vars: Map<Seq<char>, Seq<char>>)
    requires
        head_spec(Request { auth: None, ..req }, vars) is Ok,
        head_spec(req, vars) is Ok,
    ensures
        ({
            let plain = head_spec(Request { auth: None, ..req }, vars)->Ok_0;
            let h = head_spec(req, vars)->Ok_0;
            &&& req.auth matches Some(Auth::Bearer { token }) ==> {
                &&& h.headers == plain.headers.push((seq!['a', 'u', 't', 'h', 'o', 'r', 'i', 'z', 'a', 't', 'i', 'o', 'n'],
                    seq!['B', 'e', 'a', 'r', 'e', 'r', ' '] + required_result(token@, vars)->Ok_0))
                &&& h.query == plain.query
                &&& h.basic_auth is None
            }
            &&& req.auth matches Some(Auth::Basic { username, password }) ==> {
                &&& h.headers == plain.headers
                &&& h.query == plain.query
                &&& h.basic_auth == Some((required_result(username@, vars)->Ok_0, required_result(password@, vars)->Ok_0))
            }
        }),
{
    reveal_strlit("Bearer ");
    assert("Bearer "@ =~= seq!['B', 'e', 'a', 'r', 'e', 'r', ' ']);
}

} // verus!
