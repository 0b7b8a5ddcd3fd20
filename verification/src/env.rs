use vstd::prelude::*;
use crate::placeholder::{expand, expand_segments, pieces, resolve_required, resolve_result, res_view, split_placeholders, starts_at, Piece};
use crate::strmap::StrMap;
use crate::text::{from_chars, to_chars};

verus! {

/// The opening delimiter of an environment variable reference: `{{`.
pub open spec fn env_open() -> Seq<char> {
    seq!['{', '{']
}

/// The closing delimiter of an environment variable reference: `}}`.
pub open spec fn env_close() -> Seq<char> {
    seq!['}', '}']
}

/// The template `s` cut into literal characters and `{{ name }}` references.
pub open spec fn env_pieces(s: Seq<char>) -> Seq<Piece> {
    pieces(s, 0, env_open(), env_close())
}

fn env_delimiters() -> (r: (Vec<char>, Vec<char>))
    ensures
        r.0@ == env_open(),
        r.1@ == env_close(),
{
    let mut open: Vec<char> = Vec::new();
    open.push('{');
    open.push('{');
    let mut close: Vec<char> = Vec::new();
    close.push('}');
    close.push('}');
    assert(open@ =~= env_open());
    assert(close@ =~= env_close());
    (open, close)
}

/// Expands `{{name}}` placeholders in `s` using `vars`. Whitespace inside
/// the braces is allowed; names are made of `A-Z a-z 0-9 _ . -`. A variable
/// that is not set expands to nothing; the function never fails.
pub fn substitute(s: &str, vars: &StrMap) -> (r: String)
    ensures
        r@ == expand(env_pieces(s@), vars@),
{
    let chars = to_chars(s);
    let (open, close) = env_delimiters();
    let segs = split_placeholders(&chars, &open, &close);
    let (out, _missing, _empty) = expand_segments(&segs, vars);
    from_chars(&out)
}

/// Resolving `s` against `vars` strictly (see `substitute_required`).
pub open spec fn required_result(s: Seq<char>, vars: Map<Seq<char>, Seq<char>>) -> Result<Seq<char>, Seq<char>> {
    resolve_result(env_pieces(s), vars, "env"@)
}

/// Expands `{{name}}` placeholders like `substitute`, but fails when a
/// referenced variable is unset or empty. The error names every such
/// variable: `missing env vars: a, b` and/or `empty env vars: c`, each list
/// sorted and without repeats, the two parts joined by `; `.
pub fn substitute_required(s: &str, vars: &StrMap) -> (r: Result<String, String>)
    ensures
        res_view(r) == required_result(s@, vars@),
{
    let chars = to_chars(s);
    let (open, close) = env_delimiters();
    let segs = split_placeholders(&chars, &open, &close);
    resolve_required(&segs, vars, "env")
}

} // verus!

verus! {

proof fn lemma_plain_suffix(s: Seq<char>, i: int, vars: Map<Seq<char>, Seq<char>>)
    requires
        0 <= i <= s.len(),
        forall|j: int| 0 <= j < s.len() ==> !starts_at(s, j, env_open()),
    ensures
        expand(pieces(s, i, env_open(), env_close()), vars) == s.subrange(i, s.len() as int),
    decreases s.len() - i,
{
    if i < s.len() {
        lemma_plain_suffix(s, i + 1, vars);
        let ps = pieces(s, i, env_open(), env_close());
        assert(ps == seq![Piece::Lit(s.subrange(i, i + 1))] + pieces(s, i + 1, env_open(), env_close()));
        assert(ps.drop_first() =~= pieces(s, i + 1, env_open(), env_close()));
        assert(s.subrange(i, s.len() as int) =~= s.subrange(i, i + 1) + s.subrange(i + 1, s.len() as int));
    } else {
        assert(s.subrange(i, s.len() as int) =~= Seq::<char>::empty());
    }
}

/// A template without `{{` expands to itself, whatever the variables.
pub proof fn law_text_without_placeholders_is_unchanged(s: Seq<char>, vars: Map<Seq<char>, Seq<char>>)
    requires
        forall|j: int| 0 <= j < s.len() ==> !starts_at(s, j, env_open()),
    ensures
        expand(env_pieces(s), vars) == s,
        required_result(s, vars) == Ok::<Seq<char>, Seq<char>>(s),
{
    lemma_plain_suffix(s, 0, vars);
    assert(s.subrange(0, s.len() as int) =~= s);
    let ps = env_pieces(s);
    assert forall|n: Seq<char>| !crate::placeholder::missing_names(ps, vars).contains(n)
        && !crate::placeholder::empty_names(ps, vars).contains(n) by {
        lemma_no_names(s, 0, n);
    }
    assert(crate::placeholder::missing_names(ps, vars) =~= Set::<Seq<char>>::empty());
    assert(crate::placeholder::empty_names(ps, vars) =~= Set::<Seq<char>>::empty());
}

proof fn lemma_no_names(s: Seq<char>, i: int, n: Seq<char>)
    requires
        0 <= i <= s.len(),
        forall|j: int| 0 <= j < s.len() ==> !starts_at(s, j, env_open()),
    ensures
        forall|k: int| 0 <= k < pieces(s, i, env_open(), env_close()).len() ==> pieces(s, i, env_open(), env_close())[k] != Piece::Name(n),
    decreases s.len() - i,
{
    if i < s.len() {
        lemma_no_names(s, i + 1, n);
        let ps = pieces(s, i, env_open(), env_close());
        let rest = pieces(s, i + 1, env_open(), env_close());
        assert(ps == seq![Piece::Lit(s.subrange(i, i + 1))] + rest);
        assert forall|k: int| 0 <= k < ps.len() implies ps[k] != Piece::Name(n) by {
            if k > 0 {
                assert(ps[k] == rest[k - 1]);
            }
        }
    }
}

/// Strict expansion fails exactly when the template refers to a variable
/// that is unset or empty, and when it succeeds it gives what the lenient
/// expansion (`substitute`) gives.
pub proof fn law_strict_fails_only_on_unset_or_empty(s: Seq<char>, vars: Map<Seq<char>, Seq<char>>)
    ensures
        required_result(s, vars) is Ok <==> (forall|k: int| 0 <= k < env_pieces(s).len() ==> (#[trigger] env_pieces(s)[k]
            matches Piece::Name(n) ==> vars.contains_key(n) && vars[n].len() > 0)),
        required_result(s, vars) is Ok ==> required_result(s, vars) == Ok::<Seq<char>, Seq<char>>(expand(env_pieces(s), vars)),
{
    let ps = env_pieces(s);
    let m = crate::placeholder::missing_names(ps, vars);
    let e = crate::placeholder::empty_names(ps, vars);
    if forall|k: int| 0 <= k < ps.len() ==> (#[trigger] ps[k] matches Piece::Name(n) ==> vars.contains_key(n) && vars[n].len() > 0) {
        assert(m =~= Set::<Seq<char>>::empty());
        assert(e =~= Set::<Seq<char>>::empty());
    } else {
        let k = choose|k: int| 0 <= k < ps.len() && !(#[trigger] ps[k] matches Piece::Name(n) ==> vars.contains_key(n) && vars[n].len() > 0);
        let n = ps[k]->Name_0;
        if vars.contains_key(n) {
            assert(e.contains(n));
        } else {
            assert(m.contains(n));
        }
    }
}

/// `k` spaces.
pub open spec fn spaces_seq(k: nat) -> Seq<char> {
    Seq::new(k, |i: int| ' ')
}

proof fn lemma_ws_run_spaces(s: Seq<char>, j: int, k: nat)
    requires
        0 <= j,
        j + k <= s.len(),
        forall|x: int| j <= x < j + k ==> s[x] == ' ',
        j + k == s.len() || !crate::placeholder::is_ws(s[j + k]),
    ensures
        crate::placeholder::ws_run(s, j) == k,
    decreases k,
{
    if k > 0 {
        lemma_ws_run_spaces(s, j + 1, (k - 1) as nat);
    }
}

proof fn lemma_name_run_full(s: Seq<char>, j: int, k: nat)
    requires
        0 <= j,
        j + k <= s.len(),
        forall|x: int| j <= x < j + k ==> crate::placeholder::is_name_char(s[x]),
        j + k == s.len() || !crate::placeholder::is_name_char(s[j + k]),
    ensures
        crate::placeholder::name_run(s, j) == k,
    decreases k,
{
    if k > 0 {
        lemma_name_run_full(s, j + 1, (k - 1) as nat);
    }
}

/// A reference `{{ name }}`, its name a non-empty run of `A-Z a-z 0-9 _ . -`
/// and padded by any number of spaces, is read as one reference to that
/// variable: the template is exactly that reference, expands to the
/// variable's value (nothing when unset), and strict expansion gives the
/// value when it is set and not empty.
pub proof fn law_reference_is_expanded(name: Seq<char>, before: nat, after: nat, vars: Map<Seq<char>, Seq<char>>)
    requires
        name.len() >= 1,
        forall|i: int| 0 <= i < name.len() ==> {
            let c = #[trigger] name[i];
            ('a' <= c && c <= 'z') || ('A' <= c && c <= 'Z') || ('0' <= c && c <= '9') || c == '_' || c == '.' || c == '-'
        },
    ensures
        env_pieces(seq!['{', '{'] + spaces_seq(before) + name + spaces_seq(after) + seq!['}', '}']) == seq![Piece::Name(name)],
        expand(env_pieces(seq!['{', '{'] + spaces_seq(before) + name + spaces_seq(after) + seq!['}', '}']), vars)
            == (if vars.contains_key(name) { vars[name] } else { Seq::<char>::empty() }),
        vars.contains_key(name) && vars[name].len() > 0 ==> required_result(
            seq!['{', '{'] + spaces_seq(before) + name + spaces_seq(after) + seq!['}', '}'],
            vars,
        ) == Ok::<Seq<char>, Seq<char>>(vars[name]),
{
    let s = seq!['{', '{'] + spaces_seq(before) + name + spaces_seq(after) + seq!['}', '}'];
    let a: int = 2 + before as int;
    let b: int = a + name.len();
    let c: int = b + after as int;
    assert(s.len() == c + 2);
    assert forall|x: int| 2 <= x < a implies s[x] == ' ' by {}
    assert forall|x: int| a <= x < b implies crate::placeholder::is_name_char(s[x]) by {
        assert(s[x] == name[x - a]);
    }
    assert forall|x: int| b <= x < c implies s[x] == ' ' by {}
    assert(s[a] == name[0]);
    lemma_ws_run_spaces(s, 2, before);
    if b < s.len() {
        assert(s[b] == ' ' || s[b] == '}');
    }
    lemma_name_run_full(s, a, name.len());
    lemma_ws_run_spaces(s, b, after);
    assert(s.subrange(0, 2) =~= env_open());
    assert(s.subrange(c, c + 2) =~= env_close());
    assert(crate::placeholder::starts_at(s, 0, env_open()));
    assert(crate::placeholder::starts_at(s, c, env_close()));
    assert(s.subrange(a, b) =~= name);
    let ps = env_pieces(s);
    assert(pieces(s, c + 2, env_open(), env_close()) == Seq::<Piece>::empty());
    assert(ps =~= seq![Piece::Name(name)]);
    assert(ps.drop_first() =~= Seq::<Piece>::empty());
    assert(expand(Seq::<Piece>::empty(), vars) == Seq::<char>::empty());
    assert(expand(ps, vars) =~= crate::placeholder::piece_text(Piece::Name(name), vars));
    law_strict_fails_only_on_unset_or_empty(s, vars);
    if vars.contains_key(name) && vars[name].len() > 0 {
        assert forall|k: int| 0 <= k < ps.len() implies (#[trigger] ps[k] matches Piece::Name(n) ==> vars.contains_key(n) && vars[n].len() > 0) by {
            assert(ps[k] == Piece::Name(name));
        }
    }
}

} // verus!
