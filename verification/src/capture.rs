use vstd::prelude::*;
use crate::json::{JsonMember, JsonNode, JsonValue};
use crate::text::views;
use crate::placeholder::sub_chars;
use crate::text::{to_chars, from_chars};

verus! {

/// The characters a capture name is made of: `A-Z a-z 0-9 _ -`.
pub open spec fn is_cap_char(c: char) -> bool {
    ||| ('a' <= c && c <= 'z')
    ||| ('A' <= c && c <= 'Z')
    ||| ('0' <= c && c <= '9')
    ||| c == '_'
    ||| c == '-'
}

fn is_cap_char_exec(c: char) -> (b: bool)
    ensures
        b == is_cap_char(c),
{
    ('a' <= c && c <= 'z') || ('A' <= c && c <= 'Z') || ('0' <= c && c <= '9') || c == '_' || c == '-'
}

/// The number of consecutive name characters of `t` from `j` on.
pub open spec fn cap_run(t: Seq<char>, j: int) -> nat
    decreases t.len() - j,
{
    if 0 <= j < t.len() && is_cap_char(t[j]) {
        1 + cap_run(t, j + 1)
    } else {
        0
    }
}

/// A placeholder `%name%` starting at `i`: the position of its closing `%`.
pub open spec fn cap_end(t: Seq<char>, i: int) -> Option<int> {
    let k = cap_run(t, i + 1);
    if 0 <= i < t.len() && t[i] == '%' && k >= 1 && i + 1 + k < t.len() && t[i + 1 + k] == '%' {
        Some(i + 1 + k)
    } else {
        None
    }
}

/// The names of the placeholders of `t` from `i` on, found left to right
/// without overlap.
pub open spec fn cap_names(t: Seq<char>, i: int) -> Seq<Seq<char>>
    decreases t.len() - i,
{
    if i < 0 || i >= t.len() {
        Seq::empty()
    } else {
        match cap_end(t, i) {
            Some(e) => seq![t.subrange(i + 1, e)] + cap_names(t, e + 1),
            None => cap_names(t, i + 1),
        }
    }
}

/// The literal text around the placeholders of `t` from `i` on: before the
/// first, between each two, and after the last (one more than there are
/// placeholders).
pub open spec fn cap_lits(t: Seq<char>, i: int) -> Seq<Seq<char>>
    decreases t.len() - i,
{
    if i < 0 || i >= t.len() {
        seq![Seq::empty()]
    } else {
        match cap_end(t, i) {
            Some(e) => seq![Seq::empty()] + cap_lits(t, e + 1),
            None => {
                let r = cap_lits(t, i + 1);
                r.update(0, seq![t[i]] + r[0])
            },
        }
    }
}

proof fn lemma_cap_lits_len(t: Seq<char>, i: int)
    ensures
        cap_lits(t, i).len() == cap_names(t, i).len() + 1,
    decreases t.len() - i,
{
    if 0 <= i < t.len() {
        match cap_end(t, i) {
            Some(e) => lemma_cap_lits_len(t, e + 1),
            None => lemma_cap_lits_len(t, i + 1),
        }
    }
}

/// `%name%` making up the whole of `t`: the name.
pub open spec fn whole_name(t: Seq<char>) -> Option<Seq<char>> {
    if t.len() >= 3 && t[0] == '%' && t[t.len() - 1] == '%' && (forall|i: int| 1 <= i < t.len() - 1 ==> is_cap_char(t[i])) {
        Some(t.subrange(1, t.len() - 1))
    } else {
        None
    }
}

fn find_cap_end(t: &Vec<char>, i: usize) -> (r: Option<usize>)
    requires
        i < t@.len(),
    ensures
        match cap_end(t@, i as int) {
            Some(e) => r == Some(e as usize),
            None => r is None,
        },
{
    let n = t.len();
    if t[i] != '%' {
        return None;
    }
    let mut k = i + 1;
    while k < t.len() && is_cap_char_exec(t[k])
        invariant
            i + 1 <= k <= t@.len(),
            i + 1 + cap_run(t@, i + 1) == k + cap_run(t@, k as int),
        decreases t@.len() - k,
    {
        k = k + 1;
    }
    if k > i + 1 && k < t.len() && t[k] == '%' {
        Some(k)
    } else {
        None
    }
}

/// Cuts a template into its literal texts and placeholder names.
fn split_capture_template(t: &Vec<char>) -> (r: (Vec<Vec<char>>, Vec<Vec<char>>))
    ensures
        views(r.0@) == cap_lits(t@, 0),
        views(r.1@) == cap_names(t@, 0),
{
    let mut done: Vec<Vec<char>> = Vec::new();
    let mut cur: Vec<char> = Vec::new();
    let mut names: Vec<Vec<char>> = Vec::new();
    let mut i: usize = 0;
    proof {
        lemma_cap_lits_len(t@, 0);
        assert(cap_lits(t@, 0) =~= views(done@) + seq![cur@ + cap_lits(t@, 0)[0]] + cap_lits(t@, 0).drop_first());
        assert(cap_names(t@, 0) =~= views(names@) + cap_names(t@, 0));
    }
    while i < t.len()
        invariant
            i <= t@.len(),
            cap_lits(t@, i as int).len() >= 1,
            cap_lits(t@, 0) == views(done@) + seq![cur@ + cap_lits(t@, i as int)[0]] + cap_lits(t@, i as int).drop_first(),
            cap_names(t@, 0) == views(names@) + cap_names(t@, i as int),
        decreases t@.len() - i,
    {
        let ghost gi = i as int;
        let ghost d0 = done@;
        let ghost n0 = names@;
        let ghost c0 = cur@;
        match find_cap_end(t, i) {
            Some(e) => {
                let name = sub_chars(t, i + 1, e);
                let ghost nv = name@;
                names.push(name);
                let mut fresh: Vec<char> = Vec::new();
                std::mem::swap(&mut fresh, &mut cur);
                done.push(fresh);
                i = e + 1;
                proof {
                    lemma_cap_lits_len(t@, i as int);
                    assert(views(done@) =~= views(d0) + seq![c0]);
                    assert(views(names@) =~= views(n0) + seq![nv]);
                    assert(cap_lits(t@, gi) == seq![Seq::<char>::empty()] + cap_lits(t@, i as int));
                    assert(c0 + Seq::<char>::empty() =~= c0);
                    assert(seq![Seq::<char>::empty()] + cap_lits(t@, i as int) =~= seq![Seq::<char>::empty()]
                        + cap_lits(t@, i as int));
                    assert(cap_lits(t@, 0) =~= views(done@) + seq![cur@ + cap_lits(t@, i as int)[0]]
                        + cap_lits(t@, i as int).drop_first());
                    assert(cap_names(t@, 0) =~= views(names@) + cap_names(t@, i as int));
                }
            },
            None => {
                let c = t[i];
                cur.push(c);
                i = i + 1;
                proof {
                    lemma_cap_lits_len(t@, i as int);
                    let r = cap_lits(t@, i as int);
                    assert(cap_lits(t@, gi) == r.update(0, seq![c] + r[0]));
                    assert(c0 + (seq![c] + r[0]) =~= cur@ + r[0]);
                    assert(r.update(0, seq![c] + r[0]).drop_first() =~= r.drop_first());
                    assert(cap_lits(t@, 0) =~= views(done@) + seq![cur@ + cap_lits(t@, i as int)[0]]
                        + cap_lits(t@, i as int).drop_first());
                }
            },
        }
    }
    done.push(cur);
    proof {
        assert(cap_lits(t@, i as int) == seq![Seq::<char>::empty()]);
        assert(cap_names(t@, i as int) == Seq::<Seq<char>>::empty());
        assert(cap_lits(t@, 0) =~= views(done@));
        assert(cap_names(t@, 0) =~= views(names@));
    }
    (done, names)
}

/// The text `vals[0] lits[0] vals[1] lits[1] ...`.
pub open spec fn weave(vals: Seq<Seq<char>>, lits: Seq<Seq<char>>) -> Seq<char>
    decreases vals.len(),
{
    if vals.len() == 0 || lits.len() == 0 {
        Seq::empty()
    } else {
        vals[0] + lits[0] + weave(vals.drop_first(), lits.drop_first())
    }
}

/// `vals` fill the holes before each of `lits` so that the result reads
/// exactly `s`; no value spans a line break.
pub open spec fn fills(s: Seq<char>, lits: Seq<Seq<char>>, vals: Seq<Seq<char>>) -> bool {
    &&& vals.len() == lits.len()
    &&& forall|i: int| 0 <= i < vals.len() ==> !(#[trigger] vals[i]).contains('\n')
    &&& s == weave(vals, lits)
}

/// `x` comes before `y` when their values are compared by length, the first
/// value first, then the second, and so on.
pub open spec fn shorter_first(x: Seq<Seq<char>>, y: Seq<Seq<char>>) -> bool
    decreases x.len(),
{
    &&& x.len() > 0
    &&& y.len() > 0
    &&& (x[0].len() < y[0].len() || (x[0].len() == y[0].len() && shorter_first(x.drop_first(), y.drop_first())))
}

/// `vals` is the filling that comes first: each value as short as the
/// values before it allow.
pub open spec fn least_fill(s: Seq<char>, lits: Seq<Seq<char>>, vals: Seq<Seq<char>>) -> bool {
    &&& fills(s, lits, vals)
    &&& forall|y: Seq<Seq<char>>| fills(s, lits, y) ==> !shorter_first(y, vals)
}

proof fn lemma_fills_head(s: Seq<char>, lits: Seq<Seq<char>>, y: Seq<Seq<char>>)
    requires
        fills(s, lits, y),
        lits.len() > 0,
    ensures
        y[0] == s.take(y[0].len() as int),
        !y[0].contains('\n'),
        s.len() >= y[0].len() + lits[0].len(),
        s.subrange(y[0].len() as int, (y[0].len() + lits[0].len()) as int) == lits[0],
        fills(s.skip((y[0].len() + lits[0].len()) as int), lits.drop_first(), y.drop_first()),
{
    let n = y[0].len() as int;
    let w = weave(y.drop_first(), lits.drop_first());
    assert(s == y[0] + lits[0] + w);
    assert(s.take(n) =~= y[0]);
    assert(s.subrange(n, n + lits[0].len()) =~= lits[0]);
    assert(s.skip(n + lits[0].len()) =~= w);
    assert(!y[0].contains('\n'));
    assert forall|i: int| 0 <= i < y.drop_first().len() implies !(#[trigger] y.drop_first()[i]).contains('\n') by {
        assert(y.drop_first()[i] == y[i + 1]);
    }
}

proof fn lemma_fills_cons(s: Seq<char>, lits: Seq<Seq<char>>, m: int, rest: Seq<Seq<char>>)
    requires
        lits.len() > 0,
        0 <= m,
        m + lits[0].len() <= s.len(),
        !s.take(m).contains('\n'),
        s.subrange(m, m + lits[0].len()) == lits[0],
        fills(s.skip(m + lits[0].len()), lits.drop_first(), rest),
    ensures
        fills(s, lits, seq![s.take(m)] + rest),
{
    let y = seq![s.take(m)] + rest;
    assert(y.drop_first() =~= rest);
    assert(y[0] == s.take(m));
    assert(s =~= s.take(m) + lits[0] + s.skip(m + lits[0].len()));
    assert forall|i: int| 0 <= i < y.len() implies !(#[trigger] y[i]).contains('\n') by {
        if i > 0 {
            assert(y[i] == rest[i - 1]);
        }
    }
}

proof fn lemma_least_unique(s: Seq<char>, lits: Seq<Seq<char>>, x: Seq<Seq<char>>, y: Seq<Seq<char>>)
    requires
        fills(s, lits, x),
        fills(s, lits, y),
        !shorter_first(x, y),
        !shorter_first(y, x),
    ensures
        x == y,
    decreases x.len(),
{
    if lits.len() > 0 {
        lemma_fills_head(s, lits, x);
        lemma_fills_head(s, lits, y);
        assert(x[0].len() == y[0].len());
        let k = (x[0].len() + lits[0].len()) as int;
        lemma_least_unique(s.skip(k), lits.drop_first(), x.drop_first(), y.drop_first());
        assert(x =~= seq![x[0]] + x.drop_first());
        assert(y =~= seq![y[0]] + y.drop_first());
    } else {
        assert(x =~= y);
    }
}

/// Finds the first filling (see `least_fill`) of `s` from `pos` on by
/// `lits` from `g` on.
fn fill_from(s: &Vec<char>, pos: usize, lits: &Vec<Vec<char>>, g: usize) -> (r: Option<Vec<Vec<char>>>)
    requires
        pos <= s@.len(),
        g <= lits@.len(),
    ensures
        match r {
            Some(v) => least_fill(s@.skip(pos as int), views(lits@).skip(g as int), views(v@)),
            None => forall|y: Seq<Seq<char>>| !fills(s@.skip(pos as int), views(lits@).skip(g as int), y),
        },
    decreases lits@.len() - g,
{
    let ghost ss = s@.skip(pos as int);
    let ghost ll = views(lits@).skip(g as int);
    if g == lits.len() {
        if pos == s.len() {
            let v: Vec<Vec<char>> = Vec::new();
            proof {
                assert(views(v@) =~= Seq::<Seq<char>>::empty());
                assert(ss =~= Seq::<char>::empty());
                assert(ll =~= Seq::<Seq<char>>::empty());
            }
            return Some(v);
        } else {
            proof {
                assert forall|y: Seq<Seq<char>>| !fills(ss, ll, y) by {
                    assert(ll.len() == 0);
                }
            }
            return None;
        }
    }
    assert(ll[0] == lits@[g as int]@);
    assert(ll.drop_first() =~= views(lits@).skip(g + 1));
    let mut m: usize = 0;
    let n = s.len();
    let nl = lits.len();
    loop
        invariant
            n == s@.len(),
            nl == lits@.len(),
            pos + m <= s@.len(),
            g < lits@.len(),
            ss == s@.skip(pos as int),
            ll == views(lits@).skip(g as int),
            ll[0] == lits@[g as int]@,
            ll.drop_first() == views(lits@).skip(g + 1),
            !ss.take(m as int).contains('\n'),
            forall|y: Seq<Seq<char>>| fills(ss, ll, y) ==> y[0].len() >= m,
        decreases s@.len() - pos - m,
    {
        let at = pos + m;
        let lit = &lits[g];
        if occurs_at_chars(s, at, lit) {
            let next = at + lit.len();
            proof {
                assert(ss.subrange(m as int, m + ll[0].len()) =~= s@.subrange(at as int, next as int));
                assert(ss.skip(m + ll[0].len()) =~= s@.skip(next as int));
            }
            match fill_from(s, next, lits, g + 1) {
                Some(rest) => {
                    let v = sub_chars(s, pos, at);
                    let ghost rv = views(rest@);
                    let mut out: Vec<Vec<char>> = Vec::new();
                    out.push(v);
                    let mut rest = rest;
                    out.append(&mut rest);
                    proof {
                        assert(v@ =~= ss.take(m as int));
                        lemma_fills_cons(ss, ll, m as int, rv);
                        assert(views(out@) =~= seq![ss.take(m as int)] + rv);
                        let mine = views(out@);
                        assert(mine[0] == ss.take(m as int));
                        assert(mine[0].len() == m);
                        assert(mine.drop_first() =~= rv);
                        assert forall|y: Seq<Seq<char>>| fills(ss, ll, y) implies !shorter_first(y, mine) by {
                            lemma_fills_head(ss, ll, y);
                            if y[0].len() == m {
                                assert(ss.skip((y[0].len() + ll[0].len()) as int) == s@.skip(next as int));
                                assert(fills(s@.skip(next as int), views(lits@).skip(g + 1), y.drop_first()));
                                assert(!shorter_first(y.drop_first(), rv));
                            }
                        }
                    }
                    return Some(out);
                },
                None => {
                    proof {
                        assert forall|y: Seq<Seq<char>>| fills(ss, ll, y) implies y[0].len() >= m + 1 by {
                            lemma_fills_head(ss, ll, y);
                            if y[0].len() == m {
                                assert(ss.skip((y[0].len() + ll[0].len()) as int) == s@.skip(next as int));
                            }
                        }
                    }
                },
            }
        } else {
            proof {
                assert forall|y: Seq<Seq<char>>| fills(ss, ll, y) implies y[0].len() >= m + 1 by {
                    lemma_fills_head(ss, ll, y);
                    if y[0].len() == m {
                        assert(ss.subrange(m as int, m + ll[0].len()) =~= s@.subrange(at as int, at + lit@.len()));
                    }
                }
            }
        }
        if at == s.len() || s[at] == '\n' {
            proof {
                assert forall|y: Seq<Seq<char>>| !fills(ss, ll, y) by {
                    if fills(ss, ll, y) {
                        lemma_fills_head(ss, ll, y);
                        if at < s@.len() {
                            assert(y[0][m as int] == ss[m as int]);
                        }
                    }
                }
            }
            return None;
        }
        proof {
            assert(ss.take(m + 1) =~= ss.take(m as int).push(s@[at as int]));
        }
        m = m + 1;
    }
}

fn occurs_at_chars(s: &Vec<char>, i: usize, p: &Vec<char>) -> (b: bool)
    ensures
        b == (i + p@.len() <= s@.len() && s@.subrange(i as int, i + p@.len()) == p@),
{
    crate::placeholder::occurs_at(s, i, p)
}

/// The values a template `t` that holds placeholders captures from the
/// string `a`: `a` must start with the literal before the first placeholder,
/// and the rest must be filled as `least_fill` chooses; none otherwise.
pub open spec fn partial_values(t: Seq<char>, a: Seq<char>) -> Option<Seq<Seq<char>>> {
    let lits = cap_lits(t, 0);
    let l0 = lits[0];
    let rest = a.skip(l0.len() as int);
    if a.len() >= l0.len() && a.take(l0.len() as int) == l0 && exists|v: Seq<Seq<char>>| least_fill(rest, lits.drop_first(), v) {
        Some(choose|v: Seq<Seq<char>>| least_fill(rest, lits.drop_first(), v))
    } else {
        None
    }
}

/// Each name paired with the value at the same position.
pub open spec fn zip_pairs(names: Seq<Seq<char>>, vals: Seq<Seq<char>>) -> Seq<(Seq<char>, Seq<char>)> {
    Seq::new(names.len(), |i: int| (names[i], vals[i]))
}

/// What a template string `t` with placeholders captures from the string `a`.
pub open spec fn partial_pairs(t: Seq<char>, a: Seq<char>) -> Seq<(Seq<char>, Seq<char>)> {
    match partial_values(t, a) {
        Some(v) => zip_pairs(cap_names(t, 0), v),
        None => Seq::empty(),
    }
}

/// The text a captured JSON value is stored as: a string's content, nothing
/// for `null`, `true`/`false`, and the compact JSON text of anything else.
pub open spec fn env_text(v: JsonValue) -> Seq<char> {
    match v.node {
        JsonNode::Str(s) => s@,
        JsonNode::Null => Seq::empty(),
        JsonNode::Bool(b) => if b {
            "true"@
        } else {
            "false"@
        },
        _ => v.text@,
    }
}

/// The value of the first member of `ms` from `i` on whose key is `k`.
pub open spec fn member_lookup(ms: Seq<JsonMember>, k: Seq<char>, i: nat) -> Option<JsonValue>
    decreases ms.len() - i,
{
    if i >= ms.len() {
        None
    } else if ms[i as int].key@ == k {
        Some(ms[i as int].value)
    } else {
        member_lookup(ms, k, i + 1)
    }
}

/// The `(name, value)` pairs that template `t` captures from `actual`:
/// a whole-string placeholder `"%name%"` captures any value; a string with
/// placeholders among literal text captures from a string that matches it
/// (see `partial_pairs`); objects are walked member by member, in the
/// template's order, where `actual` has the same key; arrays position by
/// position, as far as both go; anything else captures nothing.
pub open spec fn captures(t: JsonValue, actual: JsonValue) -> Seq<(Seq<char>, Seq<char>)>
    decreases t, 0nat,
{
    match t.node {
        JsonNode::Str(s) => match whole_name(s@) {
            Some(n) => seq![(n, env_text(actual))],
            None => match actual.node {
                JsonNode::Str(a) => if cap_names(s@, 0).len() > 0 {
                    partial_pairs(s@, a@)
                } else {
                    Seq::empty()
                },
                _ => Seq::empty(),
            },
        },
        JsonNode::Object(tm) => match actual.node {
            JsonNode::Object(am) => member_captures(tm@, am@, 0),
            _ => Seq::empty(),
        },
        JsonNode::Array(ta) => match actual.node {
            JsonNode::Array(aa) => item_captures(ta@, aa@, 0),
            _ => Seq::empty(),
        },
        _ => Seq::empty(),
    }
}

/// What the members of a template object from `i` on capture from the
/// members `am` of the actual object.
pub open spec fn member_captures(tm: Seq<JsonMember>, am: Seq<JsonMember>, i: nat) -> Seq<(Seq<char>, Seq<char>)>
    decreases tm, tm.len() - i,
{
    if i >= tm.len() {
        Seq::empty()
    } else {
        let here = match member_lookup(am, tm[i as int].key@, 0) {
            Some(av) => {
                proof {
                    assert(decreases_to!(tm => tm[i as int]));
                }
                captures(tm[i as int].value, av)
            },
            None => Seq::empty(),
        };
        here + member_captures(tm, am, i + 1)
    }
}

/// What the elements of a template array from `i` on capture from the
/// elements `aa` at the same positions.
pub open spec fn item_captures(ta: Seq<JsonValue>, aa: Seq<JsonValue>, i: nat) -> Seq<(Seq<char>, Seq<char>)>
    decreases ta, ta.len() - i,
{
    if i >= ta.len() || i >= aa.len() {
        Seq::empty()
    } else {
        captures(ta[i as int], aa[i as int]) + item_captures(ta, aa, i + 1)
    }
}

/// The pairs of a list of `(name, value)` strings, as character sequences.
pub open spec fn pairs_view(v: Seq<(String, String)>) -> Seq<(Seq<char>, Seq<char>)> {
    Seq::new(v.len(), |i: int| (v[i].0@, v[i].1@))
}

fn whole_name_exec(t: &Vec<char>) -> (r: Option<Vec<char>>)
    ensures
        match whole_name(t@) {
            Some(n) => r is Some && r->0@ == n,
            None => r is None,
        },
{
    let n = t.len();
    if n < 3 || t[0] != '%' || t[n - 1] != '%' {
        return None;
    }
    let mut i: usize = 1;
    while i < n - 1
        invariant
            1 <= i <= n - 1,
            n == t@.len(),
            forall|j: int| 1 <= j < i ==> is_cap_char(t@[j]),
        decreases n - 1 - i,
    {
        if !is_cap_char_exec(t[i]) {
            return None;
        }
        i = i + 1;
    }
    Some(sub_chars(t, 1, n - 1))
}

fn push_pair(out: &mut Vec<(String, String)>, name: &Vec<char>, value: &Vec<char>)
    ensures
        pairs_view(final(out)@) == pairs_view(old(out)@).push((name@, value@)),
{
    let k = from_chars(name);
    let v = from_chars(value);
    out.push((k, v));
    assert(pairs_view(out@) =~= pairs_view(old(out)@).push((name@, value@)));
}

fn capture_partial(t: &Vec<char>, a: &Vec<char>, out: &mut Vec<(String, String)>)
    ensures
        pairs_view(final(out)@) == pairs_view(old(out)@) + partial_pairs(t@, a@),
{
    let (lits, names) = split_capture_template(t);
    proof {
        lemma_cap_lits_len(t@, 0);
    }
    let ghost lv = views(lits@);
    let ghost l0 = lv[0];
    let ghost rest = a@.skip(l0.len() as int);
    let lit0 = &lits[0];
    assert(lit0@ == l0);
    if !occurs_at_chars(a, 0, lit0) {
        proof {
            if a@.len() >= l0.len() {
                assert(a@.take(l0.len() as int) =~= a@.subrange(0, l0.len() as int));
            }
            assert(partial_values(t@, a@) is None);
        }
        assert(pairs_view(out@) =~= pairs_view(out@) + Seq::<(Seq<char>, Seq<char>)>::empty());
        return;
    }
    assert(a@.take(l0.len() as int) =~= a@.subrange(0, l0.len() as int));
    assert(lv.skip(1) =~= lv.drop_first());
    match fill_from(a, lit0.len(), &lits, 1) {
        None => {
            proof {
                assert(!exists|v: Seq<Seq<char>>| least_fill(rest, lv.drop_first(), v));
                assert(partial_values(t@, a@) is None);
            }
            assert(pairs_view(out@) =~= pairs_view(out@) + Seq::<(Seq<char>, Seq<char>)>::empty());
        },
        Some(vals) => {
            let ghost vv = views(vals@);
            proof {
                assert(least_fill(rest, lv.drop_first(), vv));
                let c = choose|v: Seq<Seq<char>>| least_fill(rest, lv.drop_first(), v);
                lemma_least_unique(rest, lv.drop_first(), c, vv);
                assert(partial_values(t@, a@) == Some(vv));
            }
            let ghost start = pairs_view(out@);
            let mut i: usize = 0;
            while i < names.len()
                invariant
                    i <= names@.len(),
                    names@.len() + 1 == lits@.len(),
                    vals@.len() == lits@.len() - 1,
                    vv == views(vals@),
                    views(names@) == cap_names(t@, 0),
                    pairs_view(out@) == start + zip_pairs(cap_names(t@, 0), vv).take(i as int),
                decreases names@.len() - i,
            {
                push_pair(out, &names[i], &vals[i]);
                proof {
                    assert(zip_pairs(cap_names(t@, 0), vv).take(i + 1) =~= zip_pairs(cap_names(t@, 0), vv).take(
                        i as int,
                    ).push((names@[i as int]@, vals@[i as int]@)));
                }
                i = i + 1;
            }
            assert(zip_pairs(cap_names(t@, 0), vv).take(i as int) =~= zip_pairs(cap_names(t@, 0), vv));
        },
    }
}

fn lookup_member<'a>(ms: &'a Vec<JsonMember>, k: &String) -> (r: Option<&'a JsonValue>)
    ensures
        match member_lookup(ms@, k@, 0) {
            Some(v) => r == Some(&v),
            None => r is None,
        },
{
    let mut i: usize = 0;
    while i < ms.len()
        invariant
            i <= ms@.len(),
            member_lookup(ms@, k@, 0) == member_lookup(ms@, k@, i as nat),
        decreases ms@.len() - i,
    {
        if ms[i].key == *k {
            return Some(&ms[i].value);
        }
        i = i + 1;
    }
    None
}

fn walk(t: &JsonValue, a: &JsonValue, out: &mut Vec<(String, String)>)
    ensures
        pairs_view(final(out)@) == pairs_view(old(out)@) + captures(*t, *a),
    decreases *t,
{
    let ghost start = pairs_view(out@);
    match &t.node {
        JsonNode::Str(s) => {
            let tc = to_chars(s.as_str());
            match whole_name_exec(&tc) {
                Some(n) => {
                    let v = env_string(a);
                    push_pair(out, &n, &v);
                    assert(seq![(n@, v@)] =~= captures(*t, *a));
                },
                None => {
                    match &a.node {
                        JsonNode::Str(astr) => {
                            let (_, names) = split_capture_template(&tc);
                            if names.len() > 0 {
                                let ac = to_chars(astr.as_str());
                                capture_partial(&tc, &ac, out);
                            } else {
                                assert(pairs_view(out@) =~= start + captures(*t, *a));
                            }
                        },
                        _ => {
                            assert(pairs_view(out@) =~= start + captures(*t, *a));
                        },
                    }
                },
            }
        },
        JsonNode::Object(tm) => match &a.node {
            JsonNode::Object(am) => {
                let mut i: usize = 0;
                while i < tm.len()
                    invariant
                        i <= tm@.len(),
                        t.node == JsonNode::Object(*tm),
                        a.node == JsonNode::Object(*am),
                        pairs_view(out@) + member_captures(tm@, am@, i as nat) == start + captures(*t, *a),
                    decreases tm@.len() - i,
                {
                    let ghost before = pairs_view(out@);
                    let member = &tm[i];
                    match lookup_member(am, &member.key) {
                        Some(av) => {
                            proof {
                                assert(decreases_to!(*t => tm@[i as int].value));
                            }
                            walk(&member.value, av, out);
                        },
                        None => {},
                    }
                    proof {
                        assert(member_captures(tm@, am@, i as nat) == (match member_lookup(am@, tm@[i as int].key@, 0) {
                            Some(av) => captures(tm@[i as int].value, av),
                            None => Seq::empty(),
                        }) + member_captures(tm@, am@, (i + 1) as nat));
                        assert(pairs_view(out@) + member_captures(tm@, am@, (i + 1) as nat) =~= before
                            + member_captures(tm@, am@, i as nat));
                    }
                    i = i + 1;
                }
                assert(pairs_view(out@) =~= pairs_view(out@) + member_captures(tm@, am@, i as nat));
            },
            _ => {
                assert(pairs_view(out@) =~= start + captures(*t, *a));
            },
        },
        JsonNode::Array(ta) => match &a.node {
            JsonNode::Array(aa) => {
                let mut i: usize = 0;
                while i < ta.len() && i < aa.len()
                    invariant
                        i <= ta@.len(),
                        t.node == JsonNode::Array(*ta),
                        a.node == JsonNode::Array(*aa),
                        pairs_view(out@) + item_captures(ta@, aa@, i as nat) == start + captures(*t, *a),
                    decreases ta@.len() - i,
                {
                    let ghost before = pairs_view(out@);
                    proof {
                        assert(decreases_to!(*t => ta@[i as int]));
                    }
                    walk(&ta[i], &aa[i], out);
                    proof {
                        assert(pairs_view(out@) + item_captures(ta@, aa@, (i + 1) as nat) =~= before
                            + item_captures(ta@, aa@, i as nat));
                    }
                    i = i + 1;
                }
                assert(pairs_view(out@) =~= pairs_view(out@) + item_captures(ta@, aa@, i as nat));
            },
            _ => {
                assert(pairs_view(out@) =~= start + captures(*t, *a));
            },
        },
        _ => {
            assert(pairs_view(out@) =~= start + captures(*t, *a));
        },
    }
}

fn env_string(v: &JsonValue) -> (r: Vec<char>)
    ensures
        r@ == env_text(*v),
{
    match &v.node {
        JsonNode::Str(s) => to_chars(s.as_str()),
        JsonNode::Null => Vec::new(),
        JsonNode::Bool(b) => {
            if *b {
                let r = to_chars("true");
                proof {
                    reveal_strlit("true");
                }
                r
            } else {
                let r = to_chars("false");
                proof {
                    reveal_strlit("false");
                }
                r
            }
        },
        _ => to_chars(v.text.as_str()),
    }
}

/// Walks `template` and `actual` side by side and collects what the
/// template's `%name%` placeholders capture (see `captures`), in order.
pub fn extract_captures(template: &JsonValue, actual: &JsonValue) -> (r: Vec<(String, String)>)
    ensures
        pairs_view(r@) == captures(*template, *actual),
{
    let mut out: Vec<(String, String)> = Vec::new();
    walk(template, actual, &mut out);
    assert(pairs_view(out@) =~= Seq::<(Seq<char>, Seq<char>)>::empty() + captures(*template, *actual));
    out
}

/// The template `t` with its placeholders replaced by `vals`, in order.
pub open spec fn fill_in(t: Seq<char>, vals: Seq<Seq<char>>) -> Seq<char> {
    cap_lits(t, 0)[0] + weave(vals, cap_lits(t, 0).drop_first())
}

/// What a template string with placeholders captures from a string puts the
/// string back together: one value per placeholder, none across a line
/// break, and the template with the values in place of its placeholders
/// reads exactly the captured-from string (so its literal text matched).
pub proof fn law_partial_capture_rebuilds(t: Seq<char>, a: Seq<char>)
    requires
        partial_values(t, a) is Some,
    ensures
        partial_values(t, a)->0.len() == cap_names(t, 0).len(),
        forall|i: int| 0 <= i < partial_values(t, a)->0.len() ==> !(#[trigger] partial_values(t, a)->0[i]).contains('\n'),
        fill_in(t, partial_values(t, a)->0) == a,
{
    lemma_cap_lits_len(t, 0);
    let lits = cap_lits(t, 0);
    let l0 = lits[0];
    let rest = a.skip(l0.len() as int);
    let v = choose|v: Seq<Seq<char>>| least_fill(rest, lits.drop_first(), v);
    assert(least_fill(rest, lits.drop_first(), v));
    assert(a =~= a.take(l0.len() as int) + rest);
}

/// A template string that is one whole placeholder `"%name%"` captures the
/// value at its position, whatever it is.
pub proof fn law_whole_placeholder_captures_anything(t: JsonValue, actual: JsonValue)
    requires
        t.node matches JsonNode::Str(s) && whole_name(s@) is Some,
    ensures
        captures(t, actual) == seq![(whole_name((t.node->Str_0)@)->0, env_text(actual))],
{
}

} // verus!

verus! {

/// A template string `"%name%"` (the name made of `A-Z a-z 0-9 _ -`)
/// captures the whole actual value under that name: a string as its
/// content, `null` as nothing, and any other value (a boolean, a number, an
/// object, an array) as its own JSON text, so `true` gives `true` and
/// `false` gives `false`.
pub proof fn law_whole_placeholder_captures_value_text(t: JsonValue, actual: JsonValue, name: Seq<char>)
    requires
        t.node matches JsonNode::Str(s) && s@ == seq!['%'] + name + seq!['%'],
        name.len() >= 1,
        forall|i: int| 0 <= i < name.len() ==> {
            let c = #[trigger] name[i];
            ('a' <= c && c <= 'z') || ('A' <= c && c <= 'Z') || ('0' <= c && c <= '9') || c == '_' || c == '-'
        },
        actual.node matches JsonNode::Bool(b) ==> actual.text@ == (if b { "true"@ } else { "false"@ }),
    ensures
        captures(t, actual) == seq![(name, match actual.node {
            JsonNode::Str(a) => a@,
            JsonNode::Null => Seq::<char>::empty(),
            _ => actual.text@,
        })],
{
    let s = t.node->Str_0@;
    assert(s.subrange(1, s.len() - 1) =~= name);
    assert forall|i: int| 1 <= i < s.len() - 1 implies is_cap_char(s[i]) by {
        assert(s[i] == name[i - 1]);
    }
    assert(whole_name(s) == Some(name));
}

} // verus!
