use vstd::prelude::*;
use crate::strmap::StrMap;
use crate::text::{join, join_chars, push_all, push_str, insert_sorted, sorted_listing, views, sorted_of, lemma_sorted_of};

verus! {

/// Unicode `White_Space`, the characters that may pad a placeholder's name.
pub open spec fn is_ws(c: char) -> bool {
    ||| ('\u{9}' <= c && c <= '\u{d}')
    ||| c == ' '
    ||| c == '\u{85}'
    ||| c == '\u{a0}'
    ||| c == '\u{1680}'
    ||| ('\u{2000}' <= c && c <= '\u{200a}')
    ||| c == '\u{2028}'
    ||| c == '\u{2029}'
    ||| c == '\u{202f}'
    ||| c == '\u{205f}'
    ||| c == '\u{3000}'
}

/// The characters a variable name is made of: `A-Z a-z 0-9 _ . -`.
pub open spec fn is_name_char(c: char) -> bool {
    ||| ('a' <= c && c <= 'z')
    ||| ('A' <= c && c <= 'Z')
    ||| ('0' <= c && c <= '9')
    ||| c == '_'
    ||| c == '.'
    ||| c == '-'
}

/// The number of consecutive whitespace characters of `s` from `j` on.
pub open spec fn ws_run(s: Seq<char>, j: int) -> nat
    decreases s.len() - j,
{
    if 0 <= j < s.len() && is_ws(s[j]) {
        1 + ws_run(s, j + 1)
    } else {
        0
    }
}

/// The number of consecutive name characters of `s` from `j` on.
pub open spec fn name_run(s: Seq<char>, j: int) -> nat
    decreases s.len() - j,
{
    if 0 <= j < s.len() && is_name_char(s[j]) {
        1 + name_run(s, j + 1)
    } else {
        0
    }
}

/// `p` occurs in `s` at position `i`.
pub open spec fn starts_at(s: Seq<char>, i: int, p: Seq<char>) -> bool {
    0 <= i && i + p.len() <= s.len() && s.subrange(i, i + p.len()) == p
}

/// A placeholder `open ws* name ws* close` starting at `i`: the bounds of the
/// name and the position just past the placeholder.
pub open spec fn placeholder_at(s: Seq<char>, i: int, open: Seq<char>, close: Seq<char>) -> Option<
    (int, int, int),
> {
    if starts_at(s, i, open) {
        let a = i + open.len() + ws_run(s, i + open.len());
        let b = a + name_run(s, a);
        let c = b + ws_run(s, b);
        if b > a && starts_at(s, c, close) {
            Some((a, b, c + close.len()))
        } else {
            None
        }
    } else {
        None
    }
}

/// A piece of a template: a literal character or a variable reference.
pub enum Piece {
    Lit(Seq<char>),
    Name(Seq<char>),
}

/// The template `s` from position `i` on, cut into pieces. Placeholders are
/// found left to right and never overlap; a character that starts no
/// placeholder is a literal.
pub open spec fn pieces(s: Seq<char>, i: int, open: Seq<char>, close: Seq<char>) -> Seq<Piece>
    decreases s.len() - i,
{
    if i < 0 || i >= s.len() {
        Seq::empty()
    } else {
        let ph = placeholder_at(s, i, open, close);
        if ph is Some {
            let t = ph->0;
            seq![Piece::Name(s.subrange(t.0, t.1))] + pieces(s, t.2, open, close)
        } else {
            seq![Piece::Lit(s.subrange(i, i + 1))] + pieces(s, i + 1, open, close)
        }
    }
}

/// A piece of a template, as found by `split_placeholders`: a variable's
/// name when `is_name` holds, else one literal character.
pub struct Segment {
    pub is_name: bool,
    pub text: Vec<char>,
}

pub open spec fn segment_view(g: Segment) -> Piece {
    if g.is_name {
        Piece::Name(g.text@)
    } else {
        Piece::Lit(g.text@)
    }
}

pub open spec fn segment_views(gs: Seq<Segment>) -> Seq<Piece> {
    gs.map_values(|g: Segment| segment_view(g))
}

pub fn is_ws_char(c: char) -> (b: bool)
    ensures
        b == is_ws(c),
{
    ('\u{9}' <= c && c <= '\u{d}') || c == ' ' || c == '\u{85}' || c == '\u{a0}' || c
        == '\u{1680}' || ('\u{2000}' <= c && c <= '\u{200a}') || c == '\u{2028}' || c == '\u{2029}'
        || c == '\u{202f}' || c == '\u{205f}' || c == '\u{3000}'
}

pub fn is_name_char_exec(c: char) -> (b: bool)
    ensures
        b == is_name_char(c),
{
    ('a' <= c && c <= 'z') || ('A' <= c && c <= 'Z') || ('0' <= c && c <= '9') || c == '_' || c
        == '.' || c == '-'
}

fn skip_ws(s: &Vec<char>, j: usize) -> (r: usize)
    requires
        j <= s@.len(),
    ensures
        r == j + ws_run(s@, j as int),
        r <= s@.len(),
{
    let mut k = j;
    while k < s.len() && is_ws_char(s[k])
        invariant
            j <= k <= s@.len(),
            j + ws_run(s@, j as int) == k + ws_run(s@, k as int),
        decreases s@.len() - k,
    {
        k = k + 1;
    }
    k
}

fn skip_name(s: &Vec<char>, j: usize) -> (r: usize)
    requires
        j <= s@.len(),
    ensures
        r == j + name_run(s@, j as int),
        r <= s@.len(),
{
    let mut k = j;
    while k < s.len() && is_name_char_exec(s[k])
        invariant
            j <= k <= s@.len(),
            j + name_run(s@, j as int) == k + name_run(s@, k as int),
        decreases s@.len() - k,
    {
        k = k + 1;
    }
    k
}

/// Whether `p` occurs in `s` at position `i`.
pub fn occurs_at(s: &Vec<char>, i: usize, p: &Vec<char>) -> (b: bool)
    ensures
        b == starts_at(s@, i as int, p@),
{
    if i > s.len() || p.len() > s.len() - i {
        return false;
    }
    let mut k: usize = 0;
    while k < p.len()
        invariant
            k <= p@.len(),
            i + p@.len() <= s@.len(),
            s@.len() == s.len(),
            forall|j: int| 0 <= j < k ==> s@[i + j] == p@[j],
        decreases p@.len() - k,
    {
        if s[i + k] != p[k] {
            assert(s@.subrange(i as int, i + p@.len())[k as int] != p@[k as int]);
            return false;
        }
        k = k + 1;
    }
    assert(s@.subrange(i as int, i + p@.len()) =~= p@);
    true
}

/// The characters of `s` from `a` up to `b`.
pub fn sub_chars(s: &Vec<char>, a: usize, b: usize) -> (r: Vec<char>)
    requires
        a <= b <= s@.len(),
    ensures
        r@ == s@.subrange(a as int, b as int),
{
    let mut out: Vec<char> = Vec::new();
    let mut k = a;
    while k < b
        invariant
            a <= k <= b,
            b <= s@.len(),
            out@ == s@.subrange(a as int, k as int),
        decreases b - k,
    {
        out.push(s[k]);
        k = k + 1;
        assert(out@ =~= s@.subrange(a as int, k as int));
    }
    out
}

/// The placeholder starting at `i`, if any (see `placeholder_at`).
pub fn match_placeholder(s: &Vec<char>, i: usize, open: &Vec<char>, close: &Vec<char>) -> (r:
    Option<(usize, usize, usize)>)
    requires
        i <= s@.len(),
    ensures
        match placeholder_at(s@, i as int, open@, close@) {
            Some(t) => r == Some((t.0 as usize, t.1 as usize, t.2 as usize)) && t.2 <= s@.len(),
            None => r is None,
        },
{
    let n = s.len();
    if !occurs_at(s, i, open) {
        return None;
    }
    assert(i + open@.len() <= s@.len());
    let a = skip_ws(s, i + open.len());
    let b = skip_name(s, a);
    let c = skip_ws(s, b);
    if b > a && occurs_at(s, c, close) {
        assert(c + close@.len() <= s@.len());
        Some((a, b, c + close.len()))
    } else {
        None
    }
}

/// Cuts `s` into literal characters and variable references.
pub fn split_placeholders(s: &Vec<char>, open: &Vec<char>, close: &Vec<char>) -> (r: Vec<Segment>)
    ensures
        segment_views(r@) == pieces(s@, 0, open@, close@),
{
    let mut out: Vec<Segment> = Vec::new();
    let mut i: usize = 0;
    while i < s.len()
        invariant
            i <= s@.len(),
            pieces(s@, 0, open@, close@) == segment_views(out@) + pieces(s@, i as int, open@, close@),
        decreases s@.len() - i,
    {
        let ghost old_out = out@;
        let ghost old_i = i as int;
        let ghost ph = placeholder_at(s@, i as int, open@, close@);
        match match_placeholder(s, i, open, close) {
            Some(t) => {
                let name = sub_chars(s, t.0, t.1);
                let ghost nv = name@;
                out.push(Segment { is_name: true, text: name });
                i = t.2;
                proof {
                    assert(ph is Some);
                    assert(pieces(s@, old_i, open@, close@) == seq![Piece::Name(nv)] + pieces(
                        s@,
                        i as int,
                        open@,
                        close@,
                    ));
                    assert(segment_views(out@) =~= segment_views(old_out) + seq![Piece::Name(nv)]);
                }
            },
            None => {
                let c = s[i];
                let mut one: Vec<char> = Vec::new();
                one.push(c);
                out.push(Segment { is_name: false, text: one });
                i = i + 1;
                proof {
                    assert(s@.subrange(old_i, old_i + 1) =~= seq![c]);
                    assert(pieces(s@, old_i, open@, close@) == seq![Piece::Lit(seq![c])] + pieces(
                        s@,
                        i as int,
                        open@,
                        close@,
                    ));
                    assert(segment_views(out@) =~= segment_views(old_out) + seq![Piece::Lit(seq![c])]);
                }
            },
        }
    }
    assert(pieces(s@, i as int, open@, close@) =~= Seq::<Piece>::empty());
    assert(segment_views(out@) + Seq::<Piece>::empty() =~= segment_views(out@));
    out
}

} // verus!

verus! {

/// The value of `n` in `vars`, or nothing when `n` is unset.
pub open spec fn value_or_empty(vars: Map<Seq<char>, Seq<char>>, n: Seq<char>) -> Seq<char> {
    if vars.contains_key(n) {
        vars[n]
    } else {
        Seq::empty()
    }
}

/// The text a piece stands for.
pub open spec fn piece_text(p: Piece, vars: Map<Seq<char>, Seq<char>>) -> Seq<char> {
    match p {
        Piece::Lit(t) => t,
        Piece::Name(n) => value_or_empty(vars, n),
    }
}

/// The pieces with every variable replaced by its value (unset ones by nothing).
pub open spec fn expand(ps: Seq<Piece>, vars: Map<Seq<char>, Seq<char>>) -> Seq<char>
    decreases ps.len(),
{
    if ps.len() == 0 {
        Seq::empty()
    } else {
        piece_text(ps[0], vars) + expand(ps.drop_first(), vars)
    }
}

/// The names referenced in `ps` that `vars` does not hold.
pub open spec fn missing_names(ps: Seq<Piece>, vars: Map<Seq<char>, Seq<char>>) -> Set<Seq<char>> {
    Set::new(
        |n: Seq<char>|
            exists|k: int| 0 <= k < ps.len() && ps[k] == Piece::Name(n) && !vars.contains_key(n),
    )
}

/// The names referenced in `ps` that `vars` holds with an empty value.
pub open spec fn empty_names(ps: Seq<Piece>, vars: Map<Seq<char>, Seq<char>>) -> Set<Seq<char>> {
    Set::new(
        |n: Seq<char>|
            exists|k: int|
                0 <= k < ps.len() && ps[k] == Piece::Name(n) && vars.contains_key(n) && vars[n].len()
                    == 0,
    )
}

/// The error text listing unresolved names of the given kind (`env`, `url`):
/// missing ones first, then empty ones, each list sorted.
pub open spec fn report(ml: Seq<Seq<char>>, el: Seq<Seq<char>>, what: Seq<char>) -> Seq<char> {
    let mp = "missing "@ + what + " vars: "@ + join(ml, ", "@);
    let ep = "empty "@ + what + " vars: "@ + join(el, ", "@);
    if ml.len() > 0 && el.len() > 0 {
        mp + "; "@ + ep
    } else if ml.len() > 0 {
        mp
    } else {
        ep
    }
}

/// Copies a character vector.
pub fn copy_chars(v: &Vec<char>) -> (r: Vec<char>)
    ensures
        r@ == v@,
{
    let r = sub_chars(v, 0, v.len());
    assert(v@.subrange(0, v@.len() as int) =~= v@);
    r
}

/// Replaces each variable of `segs` by its value in `vars` and gathers, in
/// sorted order, the names that are unset and those that are set but empty.
pub fn expand_segments(segs: &Vec<Segment>, vars: &StrMap) -> (r: (Vec<char>, Vec<Vec<char>>, Vec<Vec<char>>))
    ensures
        r.0@ == expand(segment_views(segs@), vars@),
        sorted_listing(views(r.1@), missing_names(segment_views(segs@), vars@)),
        sorted_listing(views(r.2@), empty_names(segment_views(segs@), vars@)),
{
    let ghost ps = segment_views(segs@);
    let mut out: Vec<char> = Vec::new();
    let mut missing: Vec<Vec<char>> = Vec::new();
    let mut empty: Vec<Vec<char>> = Vec::new();
    let mut k: usize = 0;
    assert(ps.subrange(0, 0) =~= Seq::<Piece>::empty());
    assert(ps.subrange(0, ps.len() as int) =~= ps);
    assert(out@ + expand(ps, vars@) =~= expand(ps, vars@));
    while k < segs.len()
        invariant
            k <= segs@.len(),
            ps == segment_views(segs@),
            expand(ps, vars@) == out@ + expand(ps.subrange(k as int, ps.len() as int), vars@),
            sorted_listing(views(missing@), missing_names(ps.subrange(0, k as int), vars@)),
            sorted_listing(views(empty@), empty_names(ps.subrange(0, k as int), vars@)),
        decreases segs@.len() - k,
    {
        let ghost rest = ps.subrange(k as int, ps.len() as int);
        let ghost pre = ps.subrange(0, k as int);
        let ghost pre1 = ps.subrange(0, k as int + 1);
        let ghost old_missing = views(missing@);
        let ghost old_empty = views(empty@);
        assert(rest.drop_first() =~= ps.subrange(k as int + 1, ps.len() as int));
        assert(rest[0] == ps[k as int]);
        let seg = &segs[k];
        if seg.is_name {
            let key = crate::text::from_chars(&seg.text);
            match vars.get(&key) {
                Some(v) => {
                    let vc = crate::text::to_chars(v.as_str());
                    push_all(&mut out, &vc);
                    if vc.len() == 0 {
                        insert_sorted(&mut empty, copy_chars(&seg.text));
                    }
                },
                None => {
                    insert_sorted(&mut missing, copy_chars(&seg.text));
                },
            }
        } else {
            push_all(&mut out, &seg.text);
        }
        proof {
            let n = seg.text@;
            assert forall|m: Seq<char>|
                missing_names(pre1, vars@).contains(m) <==> (missing_names(pre, vars@).contains(m)
                    || (seg.is_name && m == n && !vars@.contains_key(n))) by {
                if missing_names(pre1, vars@).contains(m) {
                    let j = choose|j: int|
                        0 <= j < pre1.len() && pre1[j] == Piece::Name(m) && !vars@.contains_key(m);
                    if j < k {
                        assert(pre[j] == pre1[j]);
                    }
                }
                if missing_names(pre, vars@).contains(m) {
                    let j = choose|j: int|
                        0 <= j < pre.len() && pre[j] == Piece::Name(m) && !vars@.contains_key(m);
                    assert(pre1[j] == pre[j]);
                }
                if seg.is_name && m == n && !vars@.contains_key(n) {
                    assert(pre1[k as int] == Piece::Name(m));
                }
            }
            assert forall|m: Seq<char>|
                empty_names(pre1, vars@).contains(m) <==> (empty_names(pre, vars@).contains(m) || (
                seg.is_name && m == n && vars@.contains_key(n) && vars@[n].len() == 0)) by {
                if empty_names(pre1, vars@).contains(m) {
                    let j = choose|j: int|
                        0 <= j < pre1.len() && pre1[j] == Piece::Name(m) && vars@.contains_key(m)
                            && vars@[m].len() == 0;
                    if j < k {
                        assert(pre[j] == pre1[j]);
                    }
                }
                if empty_names(pre, vars@).contains(m) {
                    let j = choose|j: int|
                        0 <= j < pre.len() && pre[j] == Piece::Name(m) && vars@.contains_key(m)
                            && vars@[m].len() == 0;
                    assert(pre1[j] == pre[j]);
                }
                if seg.is_name && m == n && vars@.contains_key(n) && vars@[n].len() == 0 {
                    assert(pre1[k as int] == Piece::Name(m));
                }
            }
        }
        k = k + 1;
    }
    assert(ps.subrange(0, ps.len() as int) =~= ps);
    assert(ps.subrange(ps.len() as int, ps.len() as int) =~= Seq::<Piece>::empty());
    assert(out@ + Seq::<char>::empty() =~= out@);
    (out, missing, empty)
}

/// The error text listing unresolved names (see `report`).
pub fn render_report(ml: &Vec<Vec<char>>, el: &Vec<Vec<char>>, what: &str) -> (r: String)
    ensures
        r@ == report(views(ml@), views(el@), what@),
{
    let sep = crate::text::to_chars(", ");
    let mut mp: Vec<char> = Vec::new();
    push_str(&mut mp, "missing ");
    push_str(&mut mp, what);
    push_str(&mut mp, " vars: ");
    let mj = join_chars(ml, &sep);
    push_all(&mut mp, &mj);
    let mut ep: Vec<char> = Vec::new();
    push_str(&mut ep, "empty ");
    push_str(&mut ep, what);
    push_str(&mut ep, " vars: ");
    let ej = join_chars(el, &sep);
    push_all(&mut ep, &ej);
    let out = if ml.len() > 0 && el.len() > 0 {
        let mut both = mp;
        push_str(&mut both, "; ");
        push_all(&mut both, &ep);
        both
    } else if ml.len() > 0 {
        mp
    } else {
        ep
    };
    crate::text::from_chars(&out)
}

} // verus!

verus! {

/// A string result, as character sequences.
pub open spec fn res_view(r: Result<String, String>) -> Result<Seq<char>, Seq<char>> {
    match r {
        Ok(s) => Ok(s@),
        Err(e) => Err(e@),
    }
}

/// The pieces resolved strictly: their expansion when every referenced name
/// is set to a non-empty value, else the report of the offending names.
pub open spec fn resolve_result(ps: Seq<Piece>, vars: Map<Seq<char>, Seq<char>>, what: Seq<char>) -> Result<Seq<char>, Seq<char>> {
    let m = missing_names(ps, vars);
    let e = empty_names(ps, vars);
    if m == Set::<Seq<char>>::empty() && e == Set::<Seq<char>>::empty() {
        Ok(expand(ps, vars))
    } else {
        Err(report(sorted_of(m), sorted_of(e), what))
    }
}

/// Resolves `segs` strictly (see `resolve_result`).
pub fn resolve_required(segs: &Vec<Segment>, vars: &StrMap, what: &str) -> (r: Result<String, String>)
    ensures
        res_view(r) == resolve_result(segment_views(segs@), vars@, what@),
{
    let (out, missing, empty) = expand_segments(segs, vars);
    let ghost ps = segment_views(segs@);
    proof {
        lemma_sorted_of(views(missing@), missing_names(ps, vars@));
        lemma_sorted_of(views(empty@), empty_names(ps, vars@));
    }
    if missing.len() == 0 && empty.len() == 0 {
        assert(missing_names(ps, vars@) =~= Set::<Seq<char>>::empty()) by {
            assert forall|n: Seq<char>| !missing_names(ps, vars@).contains(n) by {
                if missing_names(ps, vars@).contains(n) {
                    assert(!views(missing@).contains(n));
                }
            }
        }
        assert(empty_names(ps, vars@) =~= Set::<Seq<char>>::empty()) by {
            assert forall|n: Seq<char>| !empty_names(ps, vars@).contains(n) by {
                if empty_names(ps, vars@).contains(n) {
                    assert(!views(empty@).contains(n));
                }
            }
        }
        Ok(crate::text::from_chars(&out))
    } else {
        let msg = render_report(&missing, &empty, what);
        proof {
            if missing.len() > 0 {
                assert(views(missing@).contains(views(missing@)[0]));
                assert(missing_names(ps, vars@).contains(views(missing@)[0]));
            } else {
                assert(views(empty@).contains(views(empty@)[0]));
                assert(empty_names(ps, vars@).contains(views(empty@)[0]));
            }
        }
        Err(msg)
    }
}

} // verus!

verus! {

/// `t` without its trailing whitespace.
pub open spec fn trim_end(t: Seq<char>) -> Seq<char>
    decreases t.len(),
{
    if t.len() > 0 && is_ws(t.last()) {
        trim_end(t.drop_last())
    } else {
        t
    }
}

/// `s` without leading and trailing whitespace (`str::trim`).
pub open spec fn trimmed(s: Seq<char>) -> Seq<char> {
    trim_end(s.subrange(ws_run(s, 0) as int, s.len() as int))
}

/// `s` without leading and trailing whitespace.
pub fn trim_chars(s: &Vec<char>) -> (r: Vec<char>)
    ensures
        r@ == trimmed(s@),
{
    let a = skip_ws(s, 0);
    let mut b = s.len();
    while b > a && is_ws_char(s[b - 1])
        invariant
            a <= b <= s@.len(),
            a == ws_run(s@, 0),
            trimmed(s@) == trim_end(s@.subrange(a as int, b as int)),
        decreases b,
    {
        assert(s@.subrange(a as int, b as int).drop_last() =~= s@.subrange(a as int, b - 1));
        b = b - 1;
    }
    sub_chars(s, a, b)
}

/// Whether `name` is a usable URL variable name: non-empty, made of
/// `A-Z a-z 0-9 _ . -`.
pub open spec fn valid_var_name(name: Seq<char>) -> bool {
    name.len() > 0 && forall|i: int| 0 <= i < name.len() ==> is_name_char(#[trigger] name[i])
}

pub fn is_valid_name_chars(name: &Vec<char>) -> (b: bool)
    ensures
        b == valid_var_name(name@),
{
    if name.len() == 0 {
        return false;
    }
    let mut i: usize = 0;
    while i < name.len()
        invariant
            i <= name@.len(),
            forall|j: int| 0 <= j < i ==> is_name_char(#[trigger] name@[j]),
        decreases name@.len() - i,
    {
        if !is_name_char_exec(name[i]) {
            return false;
        }
        i = i + 1;
    }
    true
}

} // verus!
