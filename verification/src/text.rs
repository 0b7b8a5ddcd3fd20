use vstd::prelude::*;

verus! {

/// Copies the characters of `s` into a vector, in order.
pub fn to_chars(s: &str) -> (v: Vec<char>)
    ensures
        v@ == s@,
{
    let mut v: Vec<char> = Vec::new();
    for c in it: s.chars()
        invariant
            it.seq() == s@,
            v@ == it.seq().take(it.index()),
    {
        v.push(c);
        assert(v@ == it.seq().take(it.index() + 1));
    }
    v
}

/// Builds a `String` from a sequence of characters (std's `FromIterator<char>`).
#[verifier::external_body]
pub(crate) fn from_chars(v: &Vec<char>) -> (s: String)
    ensures
        s@ == v@,
{
    v.iter().collect()
}

} // verus!

verus! {

/// Appends the characters of `s` to `out`.
pub fn push_all(out: &mut Vec<char>, s: &Vec<char>)
    ensures
        final(out)@ == old(out)@ + s@,
{
    let mut i: usize = 0;
    while i < s.len()
        invariant
            i <= s@.len(),
            out@ == old(out)@ + s@.take(i as int),
        decreases s@.len() - i,
    {
        out.push(s[i]);
        i = i + 1;
        assert(out@ =~= old(out)@ + s@.take(i as int));
    }
    assert(s@.take(s@.len() as int) =~= s@);
}

/// Appends the characters of `s` to `out`.
pub fn push_str(out: &mut Vec<char>, s: &str)
    ensures
        final(out)@ == old(out)@ + s@,
{
    let v = to_chars(s);
    push_all(out, &v);
}

/// The views of a list of character vectors.
pub open spec fn views(l: Seq<Vec<char>>) -> Seq<Seq<char>> {
    l.map_values(|v: Vec<char>| v@)
}

/// `a` and `b` agree below `k`, and at `k` `a` ends first or has the smaller character.
pub open spec fn lt_at(a: Seq<char>, b: Seq<char>, k: int) -> bool {
    &&& 0 <= k <= a.len()
    &&& k <= b.len()
    &&& forall|j: int| 0 <= j < k ==> a[j] == b[j]
    &&& ((k == a.len() && k < b.len()) || (k < a.len() && k < b.len() && a[k] < b[k]))
}

/// Lexicographic order on character sequences, by code point: the order of
/// `String`'s comparison, since UTF-8 preserves code point order.
pub open spec fn seq_lt(a: Seq<char>, b: Seq<char>) -> bool {
    exists|k: int| lt_at(a, b, k)
}

/// Strictly increasing in lexicographic order (hence free of repeats).
pub open spec fn strictly_sorted(l: Seq<Seq<char>>) -> bool {
    forall|i: int, j: int| 0 <= i < j < l.len() ==> seq_lt(l[i], l[j])
}

/// `l` lists the members of `s` in increasing order, each once.
pub open spec fn sorted_listing(l: Seq<Seq<char>>, s: Set<Seq<char>>) -> bool {
    &&& strictly_sorted(l)
    &&& forall|n: Seq<char>| l.contains(n) <==> s.contains(n)
}

pub proof fn lemma_lt_irreflexive(a: Seq<char>)
    ensures
        !seq_lt(a, a),
{
}

pub proof fn lemma_lt_trans(a: Seq<char>, b: Seq<char>, c: Seq<char>)
    requires
        seq_lt(a, b),
        seq_lt(b, c),
    ensures
        seq_lt(a, c),
{
    let k1 = choose|k: int| lt_at(a, b, k);
    let k2 = choose|k: int| lt_at(b, c, k);
    if k1 <= k2 {
        assert(forall|j: int| 0 <= j < k1 ==> a[j] == b[j] && b[j] == c[j]);
        assert(lt_at(a, c, k1));
    } else {
        assert(forall|j: int| 0 <= j < k2 ==> a[j] == b[j] && b[j] == c[j]);
        assert(lt_at(a, c, k2));
    }
}

/// Result of a three-way comparison.
pub enum Order3 {
    Less,
    Equal,
    Greater,
}

/// Compares two character sequences lexicographically by code point.
pub fn lex_compare(a: &Vec<char>, b: &Vec<char>) -> (r: Order3)
    ensures
        r is Less ==> seq_lt(a@, b@),
        r is Greater ==> seq_lt(b@, a@),
        r is Equal ==> a@ == b@,
{
    let mut k: usize = 0;
    while k < a.len() && k < b.len()
        invariant
            k <= a@.len(),
            k <= b@.len(),
            forall|j: int| 0 <= j < k ==> a@[j] == b@[j],
        decreases a@.len() - k,
    {
        let x = a[k];
        let y = b[k];
        if x < y {
            assert(lt_at(a@, b@, k as int));
            return Order3::Less;
        }
        if y < x {
            assert(lt_at(b@, a@, k as int));
            return Order3::Greater;
        }
        assert(a@[k as int] == b@[k as int]);
        k = k + 1;
    }
    if k < b.len() {
        assert(lt_at(a@, b@, k as int));
        Order3::Less
    } else if k < a.len() {
        assert(lt_at(b@, a@, k as int));
        Order3::Greater
    } else {
        assert(a@ =~= b@);
        Order3::Equal
    }
}

/// Inserts `x` into a strictly sorted list, unless it is already there.
pub fn insert_sorted(list: &mut Vec<Vec<char>>, x: Vec<char>)
    requires
        strictly_sorted(views(old(list)@)),
    ensures
        strictly_sorted(views(final(list)@)),
        forall|n: Seq<char>|
            views(final(list)@).contains(n) <==> (views(old(list)@).contains(n) || n == x@),
{
    let ghost old_v = views(list@);
    let mut p: usize = 0;
    let mut stop = false;
    while p < list.len() && !stop
        invariant
            p <= list@.len(),
            views(list@) == old_v,
            strictly_sorted(old_v),
            forall|j: int| 0 <= j < p ==> seq_lt(old_v[j], x@),
            stop ==> p < list@.len() && seq_lt(x@, old_v[p as int]),
        decreases list@.len() - p + (if stop { 0int } else { 1int }),
    {
        match lex_compare(&list[p], &x) {
            Order3::Less => {
                p = p + 1;
            },
            Order3::Equal => {
                assert(old_v[p as int] == x@);
                assert forall|n: Seq<char>| views(list@).contains(n) <==> (old_v.contains(n) || n
                    == x@) by {
                    if n == x@ {
                        assert(old_v[p as int] == n);
                    }
                }
                return ;
            },
            Order3::Greater => {
                stop = true;
            },
        }
    }
    let ghost xv = x@;
    list.insert(p, x);
    proof {
        let nv = views(list@);
        assert(nv =~= old_v.insert(p as int, xv));
        assert forall|i: int, j: int| 0 <= i < j < nv.len() implies seq_lt(nv[i], nv[j]) by {
            if j < p {
            } else if j == p {
            } else if i == p {
                assert(nv[j] == old_v[j - 1]);
                if j - 1 > p {
                    lemma_lt_trans(xv, old_v[p as int], old_v[j - 1]);
                }
            } else if i < p {
                assert(nv[j] == old_v[j - 1]);
            } else {
                assert(nv[i] == old_v[i - 1]);
                assert(nv[j] == old_v[j - 1]);
            }
        }
        assert forall|n: Seq<char>| nv.contains(n) <==> (old_v.contains(n) || n == xv) by {
            if n == xv {
                assert(nv[p as int] == n);
            }
            if old_v.contains(n) {
                let k = choose|k: int| 0 <= k < old_v.len() && old_v[k] == n;
                if k < p {
                    assert(nv[k] == n);
                } else {
                    assert(nv[k + 1] == n);
                }
            }
            if nv.contains(n) {
                let k = choose|k: int| 0 <= k < nv.len() && nv[k] == n;
                if k < p {
                    assert(old_v[k] == n);
                } else if k > p {
                    assert(old_v[k - 1] == n);
                }
            }
        }
    }
}

/// `parts` joined with `sep` between consecutive parts.
pub open spec fn join(parts: Seq<Seq<char>>, sep: Seq<char>) -> Seq<char>
    decreases parts.len(),
{
    if parts.len() == 0 {
        Seq::empty()
    } else if parts.len() == 1 {
        parts[0]
    } else {
        join(parts.drop_last(), sep) + sep + parts.last()
    }
}

/// Joins `parts` with `sep` between consecutive parts.
pub fn join_chars(parts: &Vec<Vec<char>>, sep: &Vec<char>) -> (r: Vec<char>)
    ensures
        r@ == join(views(parts@), sep@),
{
    let mut out: Vec<char> = Vec::new();
    let mut i: usize = 0;
    while i < parts.len()
        invariant
            i <= parts@.len(),
            out@ == join(views(parts@).take(i as int), sep@),
        decreases parts@.len() - i,
    {
        let ghost before = views(parts@).take(i as int);
        if i != 0 {
            push_all(&mut out, sep);
        }
        push_all(&mut out, &parts[i]);
        i = i + 1;
        proof {
            let now = views(parts@).take(i as int);
            assert(now.drop_last() =~= before);
            if i == 1 {
                assert(out@ =~= now[0]);
            }
        }
    }
    assert(views(parts@).take(parts@.len() as int) =~= views(parts@));
    out
}

} // verus!

verus! {

/// The members of `s` in increasing order (when `s` is finite).
pub open spec fn sorted_of(s: Set<Seq<char>>) -> Seq<Seq<char>> {
    choose|l: Seq<Seq<char>>| sorted_listing(l, s)
}

/// Two sorted listings of one set are the same sequence.
pub proof fn lemma_sorted_listing_unique(l1: Seq<Seq<char>>, l2: Seq<Seq<char>>, s: Set<Seq<char>>)
    requires
        sorted_listing(l1, s),
        sorted_listing(l2, s),
    ensures
        l1 == l2,
    decreases l1.len(),
{
    if l1.len() == 0 {
        if l2.len() > 0 {
            assert(l2.contains(l2[0]));
        }
        assert(l1 =~= l2);
    } else {
        assert(l1.contains(l1[0]));
        assert(l2.len() > 0);
        assert(l2.contains(l2[0]));
        if l1[0] != l2[0] {
            let j = choose|j: int| 0 <= j < l2.len() && l2[j] == l1[0];
            let i = choose|i: int| 0 <= i < l1.len() && l1[i] == l2[0];
            assert(j > 0);
            assert(i > 0);
            assert(seq_lt(l2[0], l1[0]));
            assert(seq_lt(l1[0], l2[0]));
            lemma_lt_trans(l1[0], l2[0], l1[0]);
            lemma_lt_irreflexive(l1[0]);
        }
        let t1 = l1.drop_first();
        let t2 = l2.drop_first();
        let rest = s.remove(l1[0]);
        assert forall|n: Seq<char>| t1.contains(n) <==> rest.contains(n) by {
            if t1.contains(n) {
                let i = choose|i: int| 0 <= i < t1.len() && t1[i] == n;
                assert(l1[i + 1] == n);
                assert(seq_lt(l1[0], l1[i + 1]));
                if n == l1[0] {
                    lemma_lt_irreflexive(n);
                }
            }
            if rest.contains(n) {
                assert(l1.contains(n));
                let i = choose|i: int| 0 <= i < l1.len() && l1[i] == n;
                assert(i != 0);
                assert(t1[i - 1] == n);
            }
        }
        assert forall|n: Seq<char>| t2.contains(n) <==> rest.contains(n) by {
            if t2.contains(n) {
                let i = choose|i: int| 0 <= i < t2.len() && t2[i] == n;
                assert(l2[i + 1] == n);
                assert(seq_lt(l2[0], l2[i + 1]));
                if n == l2[0] {
                    lemma_lt_irreflexive(n);
                }
            }
            if rest.contains(n) {
                assert(l2.contains(n));
                let i = choose|i: int| 0 <= i < l2.len() && l2[i] == n;
                assert(i != 0);
                assert(t2[i - 1] == n);
            }
        }
        assert(strictly_sorted(t1)) by {
            assert forall|a: int, b: int| 0 <= a < b < t1.len() implies seq_lt(t1[a], t1[b]) by {
                assert(t1[a] == l1[a + 1]);
                assert(t1[b] == l1[b + 1]);
            }
        }
        assert(strictly_sorted(t2)) by {
            assert forall|a: int, b: int| 0 <= a < b < t2.len() implies seq_lt(t2[a], t2[b]) by {
                assert(t2[a] == l2[a + 1]);
                assert(t2[b] == l2[b + 1]);
            }
        }
        lemma_sorted_listing_unique(t1, t2, rest);
        assert(l1 =~= seq![l1[0]] + t1);
        assert(l2 =~= seq![l2[0]] + t2);
    }
}

/// A sorted listing is the one `sorted_of` picks.
pub proof fn lemma_sorted_of(l: Seq<Seq<char>>, s: Set<Seq<char>>)
    requires
        sorted_listing(l, s),
    ensures
        sorted_of(s) == l,
{
    let c = sorted_of(s);
    assert(sorted_listing(c, s));
    lemma_sorted_listing_unique(c, l, s);
}

/// The decimal digits of `n`.
pub open spec fn digits(n: nat) -> Seq<char>
    decreases n,
{
    if n < 10 {
        seq![digit_char(n)]
    } else {
        digits(n / 10).push(digit_char(n % 10))
    }
}

/// The character of a digit.
pub open spec fn digit_char(d: nat) -> char {
    if d == 0 { '0' } else if d == 1 { '1' } else if d == 2 { '2' } else if d == 3 { '3' } else if d == 4 { '4' }
    else if d == 5 { '5' } else if d == 6 { '6' } else if d == 7 { '7' } else if d == 8 { '8' } else { '9' }
}

fn digit_exec(d: usize) -> (c: char)
    requires
        d < 10,
    ensures
        c == digit_char(d as nat),
{
    if d == 0 { '0' } else if d == 1 { '1' } else if d == 2 { '2' } else if d == 3 { '3' } else if d == 4 { '4' }
    else if d == 5 { '5' } else if d == 6 { '6' } else if d == 7 { '7' } else if d == 8 { '8' } else { '9' }
}

/// Appends the decimal digits of `n`.
pub fn push_decimal(out: &mut Vec<char>, n: usize)
    ensures
        final(out)@ == old(out)@ + digits(n as nat),
    decreases n,
{
    if n < 10 {
        out.push(digit_exec(n));
        assert(digits(n as nat) == seq![digit_char(n as nat)]);
    } else {
        push_decimal(out, n / 10);
        out.push(digit_exec(n % 10));
        assert(digits(n as nat) == digits((n / 10) as nat).push(digit_char((n % 10) as nat)));
    }
}

} // verus!
