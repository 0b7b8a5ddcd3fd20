use vstd::prelude::*;
use crate::env::{required_result, substitute_required};
use crate::items::{OAuth2Config, OAuth2Grant};
use crate::placeholder::{trim_chars, trimmed};
use crate::strmap::StrMap;
use crate::clock::now_ms;
use crate::text::{from_chars, push_str, to_chars, join, join_chars, views};

verus! {

/// Why no OAuth2 access token could be had.
pub struct OAuth2Error(pub String);

impl OAuth2Error {
    /// The error's text.
    pub fn message(&self) -> (r: String)
        ensures
            r@ == self.0@,
    {
        self.0.clone()
    }
}

/// A fetched access token and, when the server said how long it lasts, when
/// it expires (milliseconds since the Unix epoch).
pub struct CachedToken {
    pub access_token: String,
    pub expires_at: Option<u64>,
}

/// The margin, in milliseconds, by which a cached token must outlive the
/// present to be used, so that it does not expire mid-flight.
pub const EXPIRY_MARGIN_MS: u64 = 30000;

impl CachedToken {
    /// Whether the token may still be used at time `now`: it has no expiry,
    /// or it expires more than the margin after `now`.
    pub open spec fn valid_at(&self, now: u64) -> bool {
        match self.expires_at {
            Some(t) => now + EXPIRY_MARGIN_MS < t,
            None => true,
        }
    }

    /// Whether the token may still be used at time `now` (see `valid_at`).
    pub fn still_valid_at(&self, now: u64) -> (b: bool)
        ensures
            b == self.valid_at(now),
    {
        match self.expires_at {
            Some(t) => now < t && t - now > EXPIRY_MARGIN_MS,
            None => true,
        }
    }

    /// Whether the token may still be used now. A token without expiry
    /// always may; otherwise the answer depends on the clock.
    pub fn still_valid(&self) -> (b: bool)
        ensures
            self.expires_at is None ==> b,
            b ==> exists|now: u64| self.valid_at(now),
    {
        let now = now_ms();
        self.still_valid_at(now)
    }
}

/// The tag of a grant in a cache key.
pub open spec fn grant_tag(g: OAuth2Grant) -> Seq<char> {
    match g {
        OAuth2Grant::ClientCredentials => "cc"@,
        OAuth2Grant::RefreshToken => "rt"@,
    }
}

/// The key a token is cached under: `tag|client_id|token_url`.
pub open spec fn cache_key_spec(token_url: Seq<char>, client_id: Seq<char>, grant: OAuth2Grant) -> Seq<char> {
    grant_tag(grant) + "|"@ + client_id + "|"@ + token_url
}

/// The key a token is cached under (see `cache_key_spec`).
pub fn cache_key(token_url: &str, client_id: &str, grant: OAuth2Grant) -> (k: String)
    ensures
        k@ == cache_key_spec(token_url@, client_id@, grant),
{
    let mut out = match grant {
        OAuth2Grant::ClientCredentials => to_chars("cc"),
        OAuth2Grant::RefreshToken => to_chars("rt"),
    };
    proof {
        reveal_strlit("cc");
        reveal_strlit("rt");
        reveal_strlit("|");
    }
    push_str(&mut out, "|");
    push_str(&mut out, client_id);
    push_str(&mut out, "|");
    push_str(&mut out, token_url);
    from_chars(&out)
}

/// The text of each string.
pub open spec fn strings_view(v: Seq<String>) -> Seq<Seq<char>> {
    Seq::new(v.len(), |i: int| v[i]@)
}

/// The scopes with variables substituted, empty ones left out, or the first
/// scope's failure.
pub open spec fn scopes_result(ss: Seq<Seq<char>>, vars: Map<Seq<char>, Seq<char>>) -> Result<Seq<Seq<char>>, Seq<char>>
    decreases ss.len(),
{
    if ss.len() == 0 {
        Ok(Seq::empty())
    } else {
        match required_result(ss[0], vars) {
            Err(e) => Err(e),
            Ok(v) => match scopes_result(ss.drop_first(), vars) {
                Err(e) => Err(e),
                Ok(rest) => Ok(if v.len() > 0 { seq![v] + rest } else { rest }),
            },
        }
    }
}

/// The client id, client secret, token URL and scope (the scopes joined by
/// spaces) a token is requested with, every variable substituted; or the
/// first failure: a field that cannot be substituted (`client_id: ...`,
/// `client_secret: ...`, `token_url: ...`, `scope: ...`), then a blank token
/// URL, then a blank client id.
pub open spec fn credentials_result(cfg: OAuth2Config, vars: Map<Seq<char>, Seq<char>>) -> Result<
    (Seq<char>, Seq<char>, Seq<char>, Seq<char>),
    Seq<char>,
> {
    match required_result(cfg.client_id@, vars) {
        Err(e) => Err("client_id: "@ + e),
        Ok(id) => match required_result(cfg.client_secret@, vars) {
            Err(e) => Err("client_secret: "@ + e),
            Ok(secret) => match required_result(cfg.token_url@, vars) {
                Err(e) => Err("token_url: "@ + e),
                Ok(url) => match scopes_result(strings_view(cfg.scopes@), vars) {
                    Err(e) => Err("scope: "@ + e),
                    Ok(sc) => if trimmed(url).len() == 0 {
                        Err("OAuth2 token_url is empty"@)
                    } else if trimmed(id).len() == 0 {
                        Err("OAuth2 client_id is empty"@)
                    } else {
                        Ok((id, secret, url, join(sc, " "@)))
                    },
                },
            },
        },
    }
}

/// What a token request is made with, and the key its token is cached under.
pub struct TokenCredentials {
    pub client_id: String,
    pub client_secret: String,
    pub token_url: String,
    pub scope: String,
    pub key: String,
}

fn prefixed_error(prefix: &str, e: &String) -> (r: OAuth2Error)
    ensures
        r.0@ == prefix@ + e@,
{
    let mut m = to_chars(prefix);
    push_str(&mut m, e.as_str());
    OAuth2Error(from_chars(&m))
}

fn literal_error(text: &str) -> (r: OAuth2Error)
    ensures
        r.0@ == text@,
{
    let m = to_chars(text);
    OAuth2Error(from_chars(&m))
}

fn substitute_scopes(scopes: &Vec<String>, vars: &StrMap) -> (r: Result<Vec<Vec<char>>, String>)
    ensures
        match scopes_result(strings_view(scopes@), vars@) {
            Ok(sc) => r is Ok && views(r->Ok_0@) == sc,
            Err(e) => r is Err && r->Err_0@ == e,
        },
{
    let ghost ss = strings_view(scopes@);
    let mut acc: Vec<Vec<char>> = Vec::new();
    let mut i: usize = 0;
    assert(ss.skip(0) =~= ss);
    while i < scopes.len()
        invariant
            i <= scopes@.len(),
            ss == strings_view(scopes@),
            scopes_result(ss, vars@) == match scopes_result(ss.skip(i as int), vars@) {
                Err(e) => Err(e),
                Ok(rest) => Ok(views(acc@) + rest),
            },
        decreases scopes@.len() - i,
    {
        let ghost accv = views(acc@);
        assert(ss.skip(i as int).drop_first() =~= ss.skip(i + 1));
        assert(ss.skip(i as int)[0] == scopes@[i as int]@);
        match substitute_required(scopes[i].as_str(), vars) {
            Err(e) => {
                return Err(e);
            },
            Ok(v) => {
                let vc = to_chars(v.as_str());
                if vc.len() > 0 {
                    acc.push(vc);
                    proof {
                        assert(views(acc@) =~= accv.push(v@));
                        assert forall|rest: Seq<Seq<char>>| accv + (seq![v@] + rest) =~= views(acc@) + rest by {}
                    }
                } else {
                    proof {
                        assert forall|rest: Seq<Seq<char>>| accv + rest =~= views(acc@) + rest by {}
                    }
                }
            },
        }
        i = i + 1;
    }
    assert(ss.skip(i as int) =~= Seq::<Seq<char>>::empty());
    assert(views(acc@) + Seq::<Seq<char>>::empty() =~= views(acc@));
    Ok(acc)
}

/// Works out what a token request for `config` is made with (see
/// `credentials_result`) and the key its token is cached under.
pub fn token_credentials(config: &OAuth2Config, vars: &StrMap) -> (r: Result<TokenCredentials, OAuth2Error>)
    ensures
        match credentials_result(*config, vars@) {
            Ok(c) => r is Ok && ({
                let t = r->Ok_0;
                &&& t.client_id@ == c.0
                &&& t.client_secret@ == c.1
                &&& t.token_url@ == c.2
                &&& t.scope@ == c.3
                &&& t.key@ == cache_key_spec(c.2, c.0, config.grant)
            }),
            Err(e) => r is Err && r->Err_0.0@ == e,
        },
{
    proof {
        reveal_strlit("client_id: ");
        reveal_strlit("client_secret: ");
        reveal_strlit("token_url: ");
        reveal_strlit("scope: ");
        reveal_strlit("OAuth2 token_url is empty");
        reveal_strlit("OAuth2 client_id is empty");
        reveal_strlit(" ");
    }
    let client_id = match substitute_required(config.client_id.as_str(), vars) {
        Ok(v) => v,
        Err(e) => return Err(prefixed_error("client_id: ", &e)),
    };
    let client_secret = match substitute_required(config.client_secret.as_str(), vars) {
        Ok(v) => v,
        Err(e) => return Err(prefixed_error("client_secret: ", &e)),
    };
    let token_url = match substitute_required(config.token_url.as_str(), vars) {
        Ok(v) => v,
        Err(e) => return Err(prefixed_error("token_url: ", &e)),
    };
    let scopes = match substitute_scopes(&config.scopes, vars) {
        Ok(v) => v,
        Err(e) => return Err(prefixed_error("scope: ", &e)),
    };
    let sep = to_chars(" ");
    let scope = from_chars(&join_chars(&scopes, &sep));
    let url_chars = to_chars(token_url.as_str());
    if trim_chars(&url_chars).len() == 0 {
        return Err(literal_error("OAuth2 token_url is empty"));
    }
    let id_chars = to_chars(client_id.as_str());
    if trim_chars(&id_chars).len() == 0 {
        return Err(literal_error("OAuth2 client_id is empty"));
    }
    let key = cache_key(token_url.as_str(), client_id.as_str(), config.grant);
    Ok(TokenCredentials { client_id, client_secret, token_url, scope, key })
}

/// The form fields of a token request for `cfg`: the grant type, for the
/// refresh-token grant the refresh token (which must substitute and not be
/// blank), and the scope when there is one.
pub open spec fn form_result(cfg: OAuth2Config, vars: Map<Seq<char>, Seq<char>>, scope: Seq<char>) -> Result<
    Seq<(Seq<char>, Seq<char>)>,
    Seq<char>,
> {
    let base: Result<Seq<(Seq<char>, Seq<char>)>, Seq<char>> = match cfg.grant {
        OAuth2Grant::ClientCredentials => Ok(seq![("grant_type"@, "client_credentials"@)]),
        OAuth2Grant::RefreshToken => {
            let rt: Result<Seq<char>, Seq<char>> = match cfg.refresh_token {
                Some(t) => match required_result(t@, vars) {
                    Ok(v) => Ok(v),
                    Err(e) => Err("refresh_token: "@ + e),
                },
                None => Ok(Seq::empty()),
            };
            match rt {
                Err(e) => Err(e),
                Ok(v) => if trimmed(v).len() == 0 {
                    Err("OAuth2 refresh_token is empty for refresh_token grant"@)
                } else {
                    Ok(seq![("grant_type"@, "refresh_token"@), ("refresh_token"@, v)])
                },
            }
        },
    };
    match base {
        Err(e) => Err(e),
        Ok(f) => Ok(if scope.len() > 0 { f.push(("scope"@, scope)) } else { f }),
    }
}

fn field(name: &str, value: &Vec<char>) -> (r: (String, String))
    ensures
        r.0@ == name@,
        r.1@ == value@,
{
    (from_chars(&to_chars(name)), from_chars(value))
}

/// The form fields a token request for `config` sends (see `form_result`).
pub fn token_form(config: &OAuth2Config, vars: &StrMap, scope: &str) -> (r: Result<Vec<(String, String)>, OAuth2Error>)
    ensures
        match form_result(*config, vars@, scope@) {
            Ok(f) => r is Ok && crate::http::headers_view(r->Ok_0@) == f,
            Err(e) => r is Err && r->Err_0.0@ == e,
        },
{
    proof {
        reveal_strlit("refresh_token: ");
        reveal_strlit("OAuth2 refresh_token is empty for refresh_token grant");
    }
    let mut form: Vec<(String, String)> = Vec::new();
    match config.grant {
        OAuth2Grant::ClientCredentials => {
            form.push(field("grant_type", &to_chars("client_credentials")));
        },
        OAuth2Grant::RefreshToken => {
            let rt = match &config.refresh_token {
                Some(t) => match substitute_required(t.as_str(), vars) {
                    Ok(v) => to_chars(v.as_str()),
                    Err(e) => return Err(prefixed_error("refresh_token: ", &e)),
                },
                None => Vec::new(),
            };
            if trim_chars(&rt).len() == 0 {
                return Err(literal_error("OAuth2 refresh_token is empty for refresh_token grant"));
            }
            form.push(field("grant_type", &to_chars("refresh_token")));
            form.push(field("refresh_token", &rt));
        },
    }
    let sc = to_chars(scope);
    if sc.len() > 0 {
        form.push(field("scope", &sc));
    }
    assert(crate::http::headers_view(form@) =~= form_result(*config, vars@, scope@)->Ok_0);
    Ok(form)
}

/// What the token endpoint's answer comes to: a failed status gives
/// `token endpoint <status>: <body>`; a successful one the parsed token and
/// its lifetime in seconds, or, when the body did not parse,
/// `parse token response: <why> (body: <body>)`.
pub fn token_from_response(
    success: bool,
    status: &str,
    body: &str,
    parsed: Result<(String, Option<u64>), String>,
) -> (r: Result<(String, Option<u64>), OAuth2Error>)
    ensures
        !success ==> r is Err && r->Err_0.0@ == "token endpoint "@ + status@ + ": "@ + body@,
        success ==> match parsed {
            Ok(t) => r is Ok && r->Ok_0.0@ == t.0@ && r->Ok_0.1 == t.1,
            Err(e) => r is Err && r->Err_0.0@ == "parse token response: "@ + e@ + " (body: "@ + body@ + ")"@,
        },
{
    if !success {
        let mut m = to_chars("token endpoint ");
        push_str(&mut m, status);
        push_str(&mut m, ": ");
        push_str(&mut m, body);
        return Err(OAuth2Error(from_chars(&m)));
    }
    match parsed {
        Ok(t) => Ok(t),
        Err(e) => {
            let mut m = to_chars("parse token response: ");
            push_str(&mut m, e.as_str());
            push_str(&mut m, " (body: ");
            push_str(&mut m, body);
            push_str(&mut m, ")");
            Err(OAuth2Error(from_chars(&m)))
        },
    }
}

} // verus!

verus! {

/// A cached token's content: the access token and its expiry.
pub open spec fn token_view(t: CachedToken) -> (Seq<char>, Option<u64>) {
    (t.access_token@, t.expires_at)
}

/// The entry cached under `key`: the latest one with that key.
pub open spec fn cache_lookup(entries: Seq<(String, CachedToken)>, key: Seq<char>) -> Option<(Seq<char>, Option<u64>)>
    decreases entries.len(),
{
    if entries.len() == 0 {
        None
    } else if entries.last().0@ == key {
        Some(token_view(entries.last().1))
    } else {
        cache_lookup(entries.drop_last(), key)
    }
}

/// Whether a token with expiry `e` may be used at time `now` (as
/// `CachedToken::valid_at` says).
pub open spec fn expiry_ok(e: Option<u64>, now: u64) -> bool {
    match e {
        Some(t) => now + EXPIRY_MARGIN_MS < t,
        None => true,
    }
}

/// The access token cached under `key` that may still be used at `now`.
pub open spec fn fresh_spec(entries: Seq<(String, CachedToken)>, key: Seq<char>, now: u64) -> Option<Seq<char>> {
    match cache_lookup(entries, key) {
        Some(v) => if expiry_ok(v.1, now) { Some(v.0) } else { None },
        None => None,
    }
}

/// When a token that the server says lasts `expires_in` seconds, fetched at
/// `now`, expires: `now` plus that many milliseconds, saturating.
pub open spec fn expiry_for(expires_in: Option<u64>, now: u64) -> Option<u64> {
    match expires_in {
        Some(secs) => Some(
            if now as int + secs as int * 1000 <= u64::MAX { (now as int + secs as int * 1000) as u64 } else { u64::MAX },
        ),
        None => None,
    }
}

/// The cache entry for a token fetched at `now` that lasts `expires_in`
/// seconds, if the server said (see `expiry_for`).
pub fn token_entry(access_token: String, expires_in: Option<u64>, now: u64) -> (t: CachedToken)
    ensures
        t.access_token@ == access_token@,
        t.expires_at == expiry_for(expires_in, now),
{
    let expires_at = match expires_in {
        Some(secs) => {
            let ms: u64 = if secs <= u64::MAX / 1000 { secs * 1000 } else { u64::MAX };
            Some(if ms <= u64::MAX - now { now + ms } else { u64::MAX })
        },
        None => None,
    };
    CachedToken { access_token, expires_at }
}

/// The access tokens fetched during this run, by cache key (see
/// `cache_key`); nothing is kept on disk.
pub struct TokenCache {
    pub entries: Vec<(String, CachedToken)>,
}

proof fn lemma_lookup_other(entries: Seq<(String, CachedToken)>, j: int, e: (String, CachedToken), key: Seq<char>)
    requires
        0 <= j < entries.len(),
        entries[j].0@ != key,
        e.0@ == entries[j].0@,
    ensures
        cache_lookup(entries.update(j, e), key) == cache_lookup(entries, key),
    decreases entries.len(),
{
    let u = entries.update(j, e);
    if j < entries.len() - 1 {
        assert(u.drop_last() =~= entries.drop_last().update(j, e));
        lemma_lookup_other(entries.drop_last(), j, e, key);
    } else {
        assert(u.drop_last() =~= entries.drop_last());
    }
}

proof fn lemma_lookup_last_match(entries: Seq<(String, CachedToken)>, j: int, e: (String, CachedToken))
    requires
        0 <= j < entries.len(),
        e.0@ == entries[j].0@,
        forall|k: int| j < k < entries.len() ==> entries[k].0@ != e.0@,
    ensures
        cache_lookup(entries.update(j, e), e.0@) == Some(token_view(e.1)),
    decreases entries.len(),
{
    let u = entries.update(j, e);
    if j < entries.len() - 1 {
        assert(u.drop_last() =~= entries.drop_last().update(j, e));
        lemma_lookup_last_match(entries.drop_last(), j, e);
    }
}

impl TokenCache {
    /// An empty cache.
    pub fn new() -> (c: Self)
        ensures
            forall|k: Seq<char>| cache_lookup(c.entries@, k) is None,
    {
        TokenCache { entries: Vec::new() }
    }

    /// Caches `token` under `key`, replacing what was cached there; every
    /// other key keeps its entry.
    pub fn insert(&mut self, key: String, token: CachedToken)
        ensures
            cache_lookup(final(self).entries@, key@) == Some(token_view(token)),
            forall|k: Seq<char>| k != key@ ==> cache_lookup(final(self).entries@, k) == cache_lookup(old(self).entries@, k),
    {
        let n = self.entries.len();
        let mut i: usize = n;
        let mut found = false;
        while i > 0 && !found
            invariant
                i <= n,
                n == self.entries@.len(),
                self.entries@ == old(self).entries@,
                found ==> i > 0 && self.entries@[i - 1].0@ == key@,
                forall|k: int| i <= k < n ==> self.entries@[k].0@ != key@,
            decreases i, if found { 0int } else { 1int },
        {
            if same_text(&self.entries[i - 1].0, &key) {
                found = true;
            } else {
                i = i - 1;
            }
        }
        let ghost before = self.entries@;
        if found {
            let j = i - 1;
            let e = (key, token);
            proof {
                assert forall|k: Seq<char>| k != e.0@ implies cache_lookup(before.update(j as int, e), k) == cache_lookup(before, k) by {
                    lemma_lookup_other(before, j as int, e, k);
                }
                lemma_lookup_last_match(before, j as int, e);
            }
            self.entries.set(j, e);
        } else {
            let ghost e = (key, token);
            self.entries.push((key, token));
            proof {
                assert(self.entries@.drop_last() =~= before);
                assert forall|k: Seq<char>| k != e.0@ implies cache_lookup(self.entries@, k) == cache_lookup(before, k) by {}
            }
        }
    }

    /// The access token cached under `key`, when there is one that may
    /// still be used at time `now` (see `CachedToken::valid_at`).
    pub fn fresh_token(&self, key: &str, now: u64) -> (r: Option<String>)
        ensures
            (match r {
                Some(s) => Some(s@),
                None => None,
            }) == fresh_spec(self.entries@, key@, now),
    {
        let mut i: usize = self.entries.len();
        assert(self.entries@.take(i as int) =~= self.entries@);
        while i > 0
            invariant
                i <= self.entries@.len(),
                cache_lookup(self.entries@, key@) == cache_lookup(self.entries@.take(i as int), key@),
            decreases i,
        {
            let ghost t = self.entries@.take(i as int);
            assert(t.drop_last() =~= self.entries@.take(i - 1));
            if same_text(&self.entries[i - 1].0, &key.to_string()) {
                let c = &self.entries[i - 1].1;
                if c.still_valid_at(now) {
                    return Some(c.access_token.clone());
                }
                return None;
            }
            i = i - 1;
        }
        None
    }
}

/// Whether two strings hold the same text.
fn same_text(a: &String, b: &String) -> (r: bool)
    ensures
        r == (a@ == b@),
{
    let x = to_chars(a.as_str());
    let y = to_chars(b.as_str());
    if x.len() != y.len() {
        return false;
    }
    let mut i: usize = 0;
    while i < x.len()
        invariant
            i <= x@.len(),
            x@.len() == y@.len(),
            x@ == a@,
            y@ == b@,
            forall|k: int| 0 <= k < i ==> x@[k] == y@[k],
        decreases x@.len() - i,
    {
        if x[i] != y[i] {
            return false;
        }
        i = i + 1;
    }
    assert(x@ =~= y@);
    true
}

/// A token cached under a key is handed out again, for that key, for as
/// long as it may still be used.
pub proof fn law_cached_token_reused(entries: Seq<(String, CachedToken)>, key: Seq<char>, t: CachedToken, now: u64)
    requires
        cache_lookup(entries, key) == Some(token_view(t)),
        t.valid_at(now),
    ensures
        fresh_spec(entries, key, now) == Some(t.access_token@),
{
}

} // verus!
