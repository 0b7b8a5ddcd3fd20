use vstd::prelude::*;
use crate::editor::{AuthKind, BodyKind, MultipartRow, ParamRow, RequestEditor};
use crate::editor_io::{
    words_from, words, blank, auth_loaded, auth_out, body_loaded, body_out, kind_of, auth_kind_of, kept_params, kept_multipart, stored, param_row_view, multipart_row_view, field_view,
    fields_view, query_view, no_mime, loaded, to_request_effect, request_out, json_refused, needs_json, one_empty_row,
};
use crate::items::{Auth, FormValue, OAuth2Grant, QueryParam, Request, RequestBody};
use crate::json::JsonDoc;
use crate::placeholder::is_ws;
use crate::strmap::{StrMap, keys_unique, pairs_to_map, lemma_view_is_pairs};
use crate::text::join;
use crate::widgets::texts;

verus! {

/// A word of the kind `words` returns: not empty, no whitespace in it.
pub open spec fn plain_word(w: Seq<char>) -> bool {
    &&& w.len() > 0
    &&& forall|k: int| 0 <= k < w.len() ==> !is_ws(#[trigger] w[k])
}

/// Reading words past a prefix is reading the rest on its own.
proof fn lemma_words_shift(x: Seq<char>, y: Seq<char>, j: int, cur: Seq<char>)
    requires
        0 <= j <= y.len(),
    ensures
        words_from(x + y, x.len() + j, cur) == words_from(y, j, cur),
    decreases y.len() - j,
{
    let s = x + y;
    if j < y.len() {
        assert(s[x.len() + j] == y[j]);
        if is_ws(y[j]) {
            lemma_words_shift(x, y, j + 1, Seq::empty());
        } else {
            lemma_words_shift(x, y, j + 1, cur.push(y[j]));
        }
    }
}

/// A space ends a word just as the end of the text does, and reading starts
/// afresh after it.
proof fn lemma_words_split(a: Seq<char>, b: Seq<char>, i: int, cur: Seq<char>)
    requires
        0 <= i <= a.len(),
    ensures
        words_from(a + seq![' '] + b, i, cur) == words_from(a, i, cur) + words_from(b, 0, Seq::empty()),
    decreases a.len() - i,
{
    let s = a + seq![' '] + b;
    if i == a.len() {
        assert(s[i] == ' ');
        assert(is_ws(' '));
        assert(s =~= (a + seq![' ']) + b);
        lemma_words_shift(a + seq![' '], b, 0, Seq::empty());
        assert((a + seq![' ']).len() == i + 1);
    } else {
        assert(s[i] == a[i]);
        if is_ws(a[i]) {
            lemma_words_split(a, b, i + 1, Seq::empty());
        } else {
            lemma_words_split(a, b, i + 1, cur.push(a[i]));
        }
    }
}

/// A text without whitespace reads as one word, joined to the word begun.
proof fn lemma_words_single(w: Seq<char>, i: int, cur: Seq<char>)
    requires
        0 <= i <= w.len(),
        forall|k: int| 0 <= k < w.len() ==> !is_ws(#[trigger] w[k]),
        cur.len() + (w.len() - i) > 0,
    ensures
        words_from(w, i, cur) == seq![cur + w.subrange(i, w.len() as int)],
    decreases w.len() - i,
{
    if i < w.len() {
        assert(!is_ws(w[i]));
        lemma_words_single(w, i + 1, cur.push(w[i]));
        assert(cur.push(w[i]) + w.subrange(i + 1, w.len() as int) =~= cur + w.subrange(i, w.len() as int));
    } else {
        assert(cur + w.subrange(i, w.len() as int) =~= cur);
    }
}

/// Words joined by single spaces split back into the same words.
pub proof fn lemma_words_of_joined(ps: Seq<Seq<char>>)
    requires
        forall|k: int| 0 <= k < ps.len() ==> plain_word(#[trigger] ps[k]),
    ensures
        words_from(join(ps, seq![' ']), 0, Seq::empty()) == ps,
    decreases ps.len(),
{
    if ps.len() == 0 {
        assert(words_from(Seq::<char>::empty(), 0, Seq::empty()) =~= Seq::<Seq<char>>::empty());
    } else if ps.len() == 1 {
        assert(plain_word(ps[0]));
        lemma_words_single(ps[0], 0, Seq::empty());
        assert(Seq::<char>::empty() + ps[0].subrange(0, ps[0].len() as int) =~= ps[0]);
        assert(seq![ps[0]] =~= ps);
    } else {
        let init = ps.drop_last();
        assert forall|k: int| 0 <= k < init.len() implies plain_word(#[trigger] init[k]) by {
            assert(init[k] == ps[k]);
        }
        lemma_words_of_joined(init);
        let last = ps.last();
        assert(plain_word(ps[ps.len() - 1]));
        lemma_words_single(last, 0, Seq::empty());
        assert(Seq::<char>::empty() + last.subrange(0, last.len() as int) =~= last);
        lemma_words_split(join(init, seq![' ']), last, 0, Seq::empty());
        assert(join(ps, seq![' ']) == join(init, seq![' ']) + seq![' '] + last);
        assert(init + seq![last] =~= ps);
    }
}

/// With every key filled in, every row is kept.
proof fn lemma_kept_all(rows: Seq<ParamRow>)
    requires
        forall|i: int| 0 <= i < rows.len() ==> (#[trigger] rows[i]).key.text().len() > 0,
    ensures
        kept_params(rows) == Seq::new(rows.len(), |i: int| param_row_view(rows[i])),
    decreases rows.len(),
{
    if rows.len() > 0 {
        let init = rows.drop_last();
        assert forall|i: int| 0 <= i < init.len() implies (#[trigger] init[i]).key.text().len() > 0 by {
            assert(init[i] == rows[i]);
        }
        lemma_kept_all(init);
        assert(rows[rows.len() - 1].key.text().len() > 0);
        assert(kept_params(rows) =~= Seq::new(rows.len(), |i: int| param_row_view(rows[i])));
    } else {
        assert(kept_params(rows) =~= Seq::new(rows.len(), |i: int| param_row_view(rows[i])));
    }
}

/// With every key filled in, every multipart row is kept.
proof fn lemma_kept_all_multipart(rows: Seq<MultipartRow>)
    requires
        forall|i: int| 0 <= i < rows.len() ==> (#[trigger] rows[i]).key.text().len() > 0,
    ensures
        kept_multipart(rows) == Seq::new(rows.len(), |i: int| multipart_row_view(rows[i])),
    decreases rows.len(),
{
    if rows.len() > 0 {
        let init = rows.drop_last();
        assert forall|i: int| 0 <= i < init.len() implies (#[trigger] init[i]).key.text().len() > 0 by {
            assert(init[i] == rows[i]);
        }
        lemma_kept_all_multipart(init);
        assert(rows[rows.len() - 1].key.text().len() > 0);
    }
    assert(kept_multipart(rows) =~= Seq::new(rows.len(), |i: int| multipart_row_view(rows[i])));
}

/// A single blank row keeps nothing.
proof fn lemma_blank_row_keeps_nothing(rows: Seq<ParamRow>)
    requires
        one_empty_row(rows),
    ensures
        kept_params(rows).len() == 0,
{
    assert(rows.drop_last().len() == 0);
    assert(rows.last() == rows[0]);
    assert(param_row_view(rows[0]).0 == Seq::<char>::empty());
    assert(kept_params(rows.drop_last()) == Seq::<(Seq<char>, Seq<char>, bool)>::empty());
}

/// Storing entries with distinct keys one after another gives the map they
/// describe.
proof fn lemma_stored_pairs(ps: Seq<(Seq<char>, Seq<char>)>, rv: Seq<(Seq<char>, Seq<char>, bool)>)
    requires
        rv.len() == ps.len(),
        forall|i: int| 0 <= i < ps.len() ==> #[trigger] rv[i] == (ps[i].0, ps[i].1, true),
        keys_unique(ps),
    ensures
        stored(rv) == pairs_to_map(ps),
    decreases ps.len(),
{
    if ps.len() == 0 {
        assert(pairs_to_map(ps) =~= Map::<Seq<char>, Seq<char>>::empty());
    } else {
        let pi = ps.drop_last();
        let ri = rv.drop_last();
        assert forall|i: int| 0 <= i < pi.len() implies #[trigger] ri[i] == (pi[i].0, pi[i].1, true) by {
            assert(ri[i] == rv[i]);
        }
        assert(keys_unique(pi)) by {
            assert forall|i: int, j: int| 0 <= i < pi.len() && 0 <= j < pi.len() && i != j implies pi[i].0 != pi[j].0 by {
                assert(pi[i] == ps[i] && pi[j] == ps[j]);
            }
        }
        lemma_stored_pairs(pi, ri);
        let n = ps.len() - 1;
        let last = ps[n];
        assert(rv.last() == (last.0, last.1, true));
        let big = pairs_to_map(ps);
        let small = pairs_to_map(pi).insert(last.0, last.1);
        assert forall|k: Seq<char>| #[trigger] big.contains_key(k) == small.contains_key(k) by {
            if big.contains_key(k) && k != last.0 {
                let c = choose|c: int| 0 <= c < ps.len() && ps[c].0 == k;
                assert(c != n);
                assert(pi[c].0 == k);
            }
            if small.contains_key(k) {
                if k == last.0 {
                    assert(ps[n].0 == k);
                } else {
                    let c = choose|c: int| 0 <= c < pi.len() && pi[c].0 == k;
                    assert(ps[c].0 == k);
                }
            }
        }
        assert forall|k: Seq<char>| #[trigger] big.contains_key(k) implies big[k] == small[k] by {
            let c = choose|c: int| 0 <= c < ps.len() && ps[c].0 == k;
            if k == last.0 {
                assert(ps[n].0 == k);
                assert(c == n);
            } else {
                assert(c != n);
                assert(pi[c].0 == k);
                let c2 = choose|c2: int| 0 <= c2 < pi.len() && pi[c2].0 == k;
                assert(ps[c2].0 == k);
                assert(c2 == c);
            }
        }
        assert(big =~= small);
    }
}

/// Rows read from a map with filled-in keys store that map back.
proof fn lemma_map_rows_back(rows: Seq<ParamRow>, m: StrMap)
    requires
        m.pairs().len() > 0,
        keys_unique(m.pairs()),
        forall|i: int| 0 <= i < m.pairs().len() ==> (#[trigger] m.pairs()[i]).0.len() > 0,
        rows.len() == m.pairs().len(),
        forall|i: int| 0 <= i < rows.len() ==> param_row_view(#[trigger] rows[i]) == (m.pairs()[i].0, m.pairs()[i].1, true),
    ensures
        kept_params(rows).len() > 0,
        stored(kept_params(rows)) == m@,
{
    let ps = m.pairs();
    assert forall|i: int| 0 <= i < rows.len() implies (#[trigger] rows[i]).key.text().len() > 0 by {
        assert(param_row_view(rows[i]).0 == ps[i].0);
        assert(ps[i].0.len() > 0);
    }
    lemma_kept_all(rows);
    let rv = kept_params(rows);
    assert forall|i: int| 0 <= i < ps.len() implies #[trigger] rv[i] == (ps[i].0, ps[i].1, true) by {
        assert(rv[i] == param_row_view(rows[i]));
    }
    lemma_stored_pairs(ps, rv);
    lemma_view_is_pairs(m);
}

/// Query rows read from a list with filled-in keys give the list back.
proof fn lemma_query_rows_back(rows: Seq<ParamRow>, ps: Seq<QueryParam>)
    requires
        ps.len() > 0,
        forall|i: int| 0 <= i < ps.len() ==> (#[trigger] ps[i]).key@.len() > 0,
        rows.len() == ps.len(),
        forall|i: int| 0 <= i < rows.len() ==> param_row_view(#[trigger] rows[i]) == (ps[i].key@, ps[i].value@, ps[i].enabled),
    ensures
        kept_params(rows) == query_view(ps),
{
    assert forall|i: int| 0 <= i < rows.len() implies (#[trigger] rows[i]).key.text().len() > 0 by {
        assert(param_row_view(rows[i]).0 == ps[i].key@);
        assert(ps[i].key@.len() > 0);
    }
    lemma_kept_all(rows);
    assert(kept_params(rows) =~= query_view(ps));
}

/// A list of rows as a request keeps it: absent, or not empty with every
/// key filled in.
pub open spec fn rows_normal(p: Option<Vec<QueryParam>>) -> bool {
    match p {
        Some(ps) => ps@.len() > 0 && forall|i: int| 0 <= i < ps@.len() ==> (#[trigger] ps@[i]).key@.len() > 0,
        None => true,
    }
}

/// A map as a request keeps it: absent, or not empty with every key filled
/// in (and, as every `StrMap`, no key twice).
pub open spec fn map_normal(m: Option<StrMap>) -> bool {
    match m {
        Some(h) => {
            &&& h.pairs().len() > 0
            &&& keys_unique(h.pairs())
            &&& forall|i: int| 0 <= i < h.pairs().len() ==> (#[trigger] h.pairs()[i]).0.len() > 0
        },
        None => true,
    }
}

/// A request in the form the editor writes: a name; no auth recorded as
/// `None` and no bearer token left empty, OAuth2 scopes that are single
/// words, a refresh token only for that grant and not empty, no cached
/// access token; no body recorded as `None`, a raw or JSON body that is not
/// blank, a form or multipart body with rows whose keys are filled in and
/// files without a MIME type; lists and maps either absent or with every
/// key filled in; a capture template that is not blank.
pub open spec fn normal_request(r: Request) -> bool {
    &&& r.name@.len() > 0
    &&& match r.auth {
        None => true,
        Some(Auth::NoAuth) => false,
        Some(Auth::Bearer { token }) => token@.len() > 0,
        Some(Auth::Basic { .. }) => true,
        Some(Auth::ApiKey { .. }) => true,
        Some(Auth::OAuth2(c)) => {
            &&& forall|k: int| 0 <= k < c.scopes@.len() ==> plain_word(#[trigger] c.scopes@[k]@)
            &&& match c.refresh_token {
                Some(t) => c.grant == OAuth2Grant::RefreshToken && t@.len() > 0,
                None => true,
            }
            &&& c.access_token is None
        },
    }
    &&& match r.body {
        None => true,
        Some(RequestBody::Empty) => false,
        Some(RequestBody::Raw(t)) => !blank(t@),
        Some(RequestBody::Json(d)) => !blank(d.pretty@),
        Some(RequestBody::Form(m)) => map_normal(Some(m)),
        Some(RequestBody::Multipart(fs)) => {
            &&& fs@.len() > 0
            &&& forall|i: int| 0 <= i < fs@.len() ==> (#[trigger] fs@[i]).key@.len() > 0
            &&& no_mime(fs@)
        },
    }
    &&& rows_normal(r.params)
    &&& rows_normal(r.url_vars)
    &&& map_normal(r.headers)
    &&& match r.capture {
        Some(c) => !blank(c@),
        None => true,
    }
}

/// Two optional texts hold the same characters.
pub open spec fn same_text(a: Option<String>, b: Option<String>) -> bool {
    match (a, b) {
        (None, None) => true,
        (Some(x), Some(y)) => x@ == y@,
        _ => false,
    }
}

/// Two auths say the same.
pub open spec fn same_auth(a: Option<Auth>, b: Option<Auth>) -> bool {
    match (a, b) {
        (None, None) => true,
        (Some(Auth::NoAuth), Some(Auth::NoAuth)) => true,
        (Some(Auth::Bearer { token: x }), Some(Auth::Bearer { token: y })) => x@ == y@,
        (Some(Auth::Basic { username: u1, password: p1 }), Some(Auth::Basic { username: u2, password: p2 })) => u1@ == u2@
            && p1@ == p2@,
        (Some(Auth::ApiKey { key: k1, value: v1, location: l1 }), Some(Auth::ApiKey { key: k2, value: v2, location: l2 })) => {
            k1@ == k2@ && v1@ == v2@ && l1 == l2
        },
        (Some(Auth::OAuth2(c1)), Some(Auth::OAuth2(c2))) => {
            &&& c1.grant == c2.grant
            &&& c1.client_id@ == c2.client_id@
            &&& c1.client_secret@ == c2.client_secret@
            &&& c1.token_url@ == c2.token_url@
            &&& texts(c1.scopes@) == texts(c2.scopes@)
            &&& same_text(c1.refresh_token, c2.refresh_token)
            &&& same_text(c1.access_token, c2.access_token)
        },
        _ => false,
    }
}

/// Two bodies say the same.
pub open spec fn same_body(a: Option<RequestBody>, b: Option<RequestBody>) -> bool {
    match (a, b) {
        (None, None) => true,
        (Some(RequestBody::Empty), Some(RequestBody::Empty)) => true,
        (Some(RequestBody::Raw(x)), Some(RequestBody::Raw(y))) => x@ == y@,
        (Some(RequestBody::Json(x)), Some(RequestBody::Json(y))) => x == y,
        (Some(RequestBody::Form(x)), Some(RequestBody::Form(y))) => x@ == y@,
        (Some(RequestBody::Multipart(x)), Some(RequestBody::Multipart(y))) => fields_view(x@) == fields_view(y@)
            && no_mime(x@) == no_mime(y@),
        _ => false,
    }
}

/// Two optional row lists hold the same rows.
pub open spec fn same_rows_of(a: Option<Vec<QueryParam>>, b: Option<Vec<QueryParam>>) -> bool {
    match (a, b) {
        (None, None) => true,
        (Some(x), Some(y)) => query_view(x@) == query_view(y@),
        _ => false,
    }
}

/// Two optional maps hold the same entries.
pub open spec fn same_map(a: Option<StrMap>, b: Option<StrMap>) -> bool {
    match (a, b) {
        (None, None) => true,
        (Some(x), Some(y)) => x@ == y@,
        _ => false,
    }
}

/// Two requests say the same: every field holds the same text, rows, entries
/// and choices.
pub open spec fn same_request(a: Request, b: Request) -> bool {
    &&& a.name@ == b.name@
    &&& a.request_type == b.request_type
    &&& a.url@ == b.url@
    &&& same_auth(a.auth, b.auth)
    &&& same_body(a.body, b.body)
    &&& same_rows_of(a.params, b.params)
    &&& same_rows_of(a.url_vars, b.url_vars)
    &&& same_map(a.headers, b.headers)
    &&& same_text(a.capture, b.capture)
}

/// The auth read out of an editor showing a request's auth says what that
/// auth says.
proof fn lemma_auth_back(req: Request, e: RequestEditor, out: Option<Auth>)
    requires
        auth_loaded(req.auth, e),
        normal_request(req),
        auth_out(e, out),
    ensures
        same_auth(out, req.auth),
{
    match req.auth {
        Some(Auth::OAuth2(c)) => {
            let ws = texts(c.scopes@);
            assert forall|k: int| 0 <= k < ws.len() implies plain_word(#[trigger] ws[k]) by {
                assert(ws[k] == c.scopes@[k]@);
            }
            lemma_words_of_joined(ws);
            match out {
                Some(Auth::OAuth2(c2)) => {
                    assert(texts(c2.scopes@) == words(e.oauth2_scopes.text()));
                    assert(texts(c2.scopes@) == ws);
                },
                _ => {},
            }
        },
        _ => {},
    }
}

/// The body read out of an editor showing a request's body says what that
/// body says, when the JSON handed over is the request's own document.
proof fn lemma_body_back(req: Request, e: RequestEditor, json: Option<Result<JsonDoc, String>>, out: Option<RequestBody>)
    requires
        body_loaded(req.body, e),
        normal_request(req),
        req.body matches Some(RequestBody::Json(d)) ==> json == Some(Ok::<JsonDoc, String>(d)),
        body_out(e, json, out),
    ensures
        same_body(out, req.body),
{
    match req.body {
        Some(RequestBody::Form(m)) => {
            let rows = e.body_form_rows@;
            lemma_map_rows_back(rows, m);
        },
        Some(RequestBody::Multipart(fs)) => {
            let rows = e.body_multipart_rows@;
            assert forall|i: int| 0 <= i < rows.len() implies (#[trigger] rows[i]).key.text().len() > 0 by {
                assert(multipart_row_view(rows[i]) == field_view(fs@[i]));
                assert(fs@[i].key@.len() > 0);
            }
            lemma_kept_all_multipart(rows);
            assert(kept_multipart(rows) =~= fields_view(fs@));
        },
        _ => {},
    }
}

/// Opening a request in the editor and reading it straight back gives the
/// same request, for a request in the form the editor writes (see
/// `normal_request`) and provided the parser reads a JSON body's indented
/// rendering back as the same document: merely looking at a request and
/// moving on leaves the workspace as it was.
pub proof fn law_reopened_request_reads_back(
    req: Request,
    e: RequestEditor,
    json: Option<Result<JsonDoc, String>>,
    e2: RequestEditor,
    res: Result<Request, String>,
)
    requires
        normal_request(req),
        loaded(req, e),
        req.body matches Some(RequestBody::Json(d)) ==> json == Some(Ok::<JsonDoc, String>(d)),
        to_request_effect(e, json, e2, res),
    ensures
        res matches Ok(r) && same_request(r, req),
{
    assert(!json_refused(e, json)) by {
        if needs_json(e) {
            assert(e.body_kind == kind_of(req.body));
        }
    }
    let r = res->Ok_0;
    assert(request_out(e, json, r));
    lemma_auth_back(req, e, r.auth);
    lemma_body_back(req, e, json, r.body);
    match req.params {
        Some(ps) => lemma_query_rows_back(e.param_rows@, ps@),
        None => lemma_blank_row_keeps_nothing(e.param_rows@),
    }
    match req.url_vars {
        Some(ps) => lemma_query_rows_back(e.url_var_rows@, ps@),
        None => lemma_blank_row_keeps_nothing(e.url_var_rows@),
    }
    match req.headers {
        Some(m) => lemma_map_rows_back(e.header_rows@, m),
        None => lemma_blank_row_keeps_nothing(e.header_rows@),
    }
    if req.capture is None {
        assert(blank(Seq::<char>::empty()));
    }
}

} // verus!
