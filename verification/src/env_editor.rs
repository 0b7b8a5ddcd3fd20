use vstd::prelude::*;
use crate::keys::{Key, KeyPress};
use crate::strmap::{StrMap, pairs_to_map, keys_unique};
use crate::text::{to_chars, lex_compare, Order3, seq_lt, strictly_sorted, lemma_lt_irreflexive, lemma_lt_trans};
use crate::widgets::TextInput;

verus! {

/// A key/value pair of text fields, with a flag that says whether the row
/// is in use.
pub struct KvRow {
    pub key: TextInput,
    pub value: TextInput,
    pub enabled: bool,
}

impl KvRow {
    /// A row of two empty, disabled fields titled `key_title` and
    /// `val_title`, in use.
    pub fn new(key_title: &str, val_title: &str) -> (r: Self)
        ensures
            r.key.text() == Seq::<char>::empty(),
            r.value.text() == Seq::<char>::empty(),
            r.key.title@ == key_title@,
            r.value.title@ == val_title@,
            !r.key.enabled,
            !r.value.enabled,
            r.enabled,
    {
        KvRow {
            key: TextInput::new(key_title.to_owned()),
            value: TextInput::new(val_title.to_owned()),
            enabled: true,
        }
    }

    /// A row titled `Key`/`Value` holding `k` and `v`, in use as `enabled`
    /// says.
    pub fn from_pair(k: &str, v: &str, enabled: bool) -> (r: Self)
        ensures
            r.key.text() == k@,
            r.value.text() == v@,
            r.key.title@ == "Key"@,
            r.value.title@ == "Value"@,
            !r.key.enabled,
            !r.value.enabled,
            r.enabled == enabled,
    {
        let mut row = KvRow::new("Key", "Value");
        row.key.set_value(k.to_owned());
        row.value.set_value(v.to_owned());
        row.enabled = enabled;
        row
    }
}

/// The texts of a row: key, then value.
pub open spec fn row_pair(r: KvRow) -> (Seq<char>, Seq<char>) {
    (r.key.text(), r.value.text())
}

/// The texts of a list of rows.
pub open spec fn rows_pairs(rows: Seq<KvRow>) -> Seq<(Seq<char>, Seq<char>)> {
    rows.map_values(|r: KvRow| row_pair(r))
}

/// The keys of a list of pairs.
pub open spec fn pair_keys(ps: Seq<(Seq<char>, Seq<char>)>) -> Seq<Seq<char>> {
    ps.map_values(|p: (Seq<char>, Seq<char>)| p.0)
}

/// The rows the editor opens with for the variables `m`: a single blank row
/// when there are none, otherwise one row per variable, in increasing order
/// of name.
pub open spec fn opening_rows(ps: Seq<(Seq<char>, Seq<char>)>, m: Map<Seq<char>, Seq<char>>) -> bool {
    if m.dom() == Set::<Seq<char>>::empty() {
        ps == seq![(Seq::<char>::empty(), Seq::<char>::empty())]
    } else {
        &&& strictly_sorted(pair_keys(ps))
        &&& forall|i: int| 0 <= i < ps.len() ==> m.contains_key(#[trigger] ps[i].0) && m[ps[i].0] == ps[i].1
        &&& forall|k: Seq<char>| #[trigger] m.contains_key(k) ==> exists|i: int| 0 <= i < ps.len() && ps[i].0 == k
    }
}

/// The variables a list of rows stands for: each row with a non-empty key,
/// a later row winning over an earlier one with the same key.
pub open spec fn collected(ps: Seq<(Seq<char>, Seq<char>)>) -> Map<Seq<char>, Seq<char>>
    decreases ps.len(),
{
    if ps.len() == 0 {
        Map::empty()
    } else {
        let m = collected(ps.drop_last());
        let p = ps.last();
        if p.0.len() == 0 {
            m
        } else {
            m.insert(p.0, p.1)
        }
    }
}

/// Which field of which row has the focus.
#[derive(PartialEq, Eq, Structural, Clone, Copy, Debug)]
pub enum EnvFocus {
    VarKey(usize),
    VarValue(usize),
}

/// The row a focus is on.
pub open spec fn focus_row(f: EnvFocus) -> int {
    match f {
        EnvFocus::VarKey(i) => i as int,
        EnvFocus::VarValue(i) => i as int,
    }
}

/// The editor of the environment's variables: a list of key/value rows,
/// the focused field, whether that field is being typed into, and whether
/// the editor is open and was closed by saving.
pub struct EnvironmentEditor {
    pub is_open: bool,
    pub finished: bool,
    pub var_rows: Vec<KvRow>,
    pub focused: EnvFocus,
    pub editing: bool,
}

/// Every row keeps its texts, titles and flag; only whether its fields are
/// enabled may differ.
pub open spec fn same_texts(a: Seq<KvRow>, b: Seq<KvRow>) -> bool {
    &&& a.len() == b.len()
    &&& forall|i: int| 0 <= i < a.len() ==> {
        &&& (#[trigger] a[i]).key.text() == b[i].key.text()
        &&& a[i].value.text() == b[i].value.text()
        &&& a[i].key.title == b[i].key.title
        &&& a[i].value.title == b[i].value.title
        &&& a[i].enabled == b[i].enabled
    }
}

/// No field of any row is enabled.
pub open spec fn all_disabled(rows: Seq<KvRow>) -> bool {
    forall|i: int| 0 <= i < rows.len() ==> !(#[trigger] rows[i]).key.enabled && !rows[i].value.enabled
}

/// Exactly the focused field, if its row exists, is enabled.
pub open spec fn only_focused_enabled(rows: Seq<KvRow>, f: EnvFocus) -> bool {
    forall|i: int| 0 <= i < rows.len() ==> {
        &&& (#[trigger] rows[i]).key.enabled == (f == EnvFocus::VarKey(i as usize))
        &&& rows[i].value.enabled == (f == EnvFocus::VarValue(i as usize))
    }
}

/// Inserts a row into a list sorted by key, before the first row with a
/// greater key.
fn insert_by_key(rows: &mut Vec<KvRow>, row: KvRow) -> (p: usize)
    requires
        strictly_sorted(pair_keys(rows_pairs(old(rows)@))),
        forall|i: int| 0 <= i < old(rows)@.len() ==> old(rows)@[i].key.text() != row.key.text(),
    ensures
        strictly_sorted(pair_keys(rows_pairs(final(rows)@))),
        p <= old(rows)@.len(),
        final(rows)@ == old(rows)@.insert(p as int, row),
{
    let ghost old_rows = rows@;
    let ghost ks = pair_keys(rows_pairs(old_rows));
    assert forall|i: int| 0 <= i < old_rows.len() implies ks[i] == (#[trigger] old_rows[i]).key.text() by {}
    let x = to_chars(row.key.value().as_str());
    let mut p: usize = 0;
    let mut stop = false;
    while p < rows.len() && !stop
        invariant
            p <= rows@.len(),
            rows@ == old_rows,
            ks == pair_keys(rows_pairs(old_rows)),
            ks.len() == old_rows.len(),
            strictly_sorted(ks),
            x@ == row.key.text(),
            forall|i: int| 0 <= i < old_rows.len() ==> ks[i] == (#[trigger] old_rows[i]).key.text(),
            forall|i: int| 0 <= i < old_rows.len() ==> old_rows[i].key.text() != row.key.text(),
            forall|j: int| 0 <= j < p ==> seq_lt(ks[j], x@),
            stop ==> p < rows@.len() && seq_lt(x@, ks[p as int]),
        decreases rows@.len() - p + (if stop { 0int } else { 1int }),
    {
        let y = to_chars(rows[p].key.value().as_str());
        match lex_compare(&y, &x) {
            Order3::Less => {
                p = p + 1;
            },
            Order3::Equal => {
                assert(false);
            },
            Order3::Greater => {
                stop = true;
            },
        }
    }
    let ghost rv = row;
    rows.insert(p, row);
    proof {
        let nk = pair_keys(rows_pairs(rows@));
        assert(nk =~= ks.insert(p as int, rv.key.text()));
        assert forall|i: int, j: int| 0 <= i < j < nk.len() implies seq_lt(nk[i], nk[j]) by {
            if j < p {
            } else if i < p && j == p {
            } else if i < p && j > p {
                assert(nk[j] == ks[j - 1]);
                if p < ks.len() {
                    assert(stop);
                }
                if j - 1 > p {
                    lemma_lt_trans(x@, ks[p as int], ks[j - 1]);
                }
                lemma_lt_trans(ks[i], x@, ks[j - 1]);
            } else if i == p {
                assert(stop);
                if j - 1 > p {
                    lemma_lt_trans(x@, ks[p as int], ks[j - 1]);
                }
            } else {
                assert(nk[i] == ks[i - 1] && nk[j] == ks[j - 1]);
            }
        }
    }
    p
}

/// A row as the editor makes it: in use, its fields disabled and titled
/// `Key` and `Value`.
pub open spec fn plain_row(r: KvRow) -> bool {
    &&& r.enabled
    &&& !r.key.enabled
    &&& !r.value.enabled
    &&& r.key.title@ == "Key"@
    &&& r.value.title@ == "Value"@
}

impl EnvironmentEditor {
    /// An open editor for `variables`, focused on the first key and not
    /// typing: one row per variable ordered by name, or a single blank row
    /// when there are none.
    pub fn new(variables: &StrMap) -> (e: Self)
        ensures
            e.is_open,
            !e.finished,
            !e.editing,
            e.focused == EnvFocus::VarKey(0),
            opening_rows(rows_pairs(e.var_rows@), variables@),
            forall|i: int| 0 <= i < e.var_rows@.len() ==> plain_row(#[trigger] e.var_rows@[i]),
    {
        let n = variables.len();
        let ghost ps = variables.pairs();
        let mut rows: Vec<KvRow> = Vec::new();
        let mut i: usize = 0;
        while i < n
            invariant
                n == ps.len(),
                i <= n,
                ps == variables.pairs(),
                keys_unique(ps),
                variables@ == pairs_to_map(ps),
                strictly_sorted(pair_keys(rows_pairs(rows@))),
                rows@.len() == i,
                forall|q: (Seq<char>, Seq<char>)| rows_pairs(rows@).contains(q) <==> ps.take(i as int).contains(q),
                forall|j: int| 0 <= j < rows@.len() ==> plain_row(#[trigger] rows@[j]),
            decreases n - i,
        {
            let (k, v) = variables.entry(i);
            let row = KvRow::from_pair(k.as_str(), v.as_str(), true);
            let ghost before = rows@;
            let ghost rp = row_pair(row);
            proof {
                assert(rp == ps[i as int]);
                assert forall|j: int| 0 <= j < before.len() implies before[j].key.text() != row.key.text() by {
                    let q = rows_pairs(before)[j];
                    assert(rows_pairs(before).contains(q));
                    let t = choose|t: int| 0 <= t < ps.take(i as int).len() && ps.take(i as int)[t] == q;
                    assert(ps[t] == q);
                }
            }
            let p = insert_by_key(&mut rows, row);
            proof {
                assert(rows_pairs(rows@) =~= rows_pairs(before).insert(p as int, rp));
                assert(ps.take(i + 1) =~= ps.take(i as int).push(rp));
                assert forall|q: (Seq<char>, Seq<char>)| rows_pairs(rows@).contains(q) <==> ps.take(i + 1).contains(q) by {
                    let a = rows_pairs(before);
                    let b = rows_pairs(rows@);
                    let pt = ps.take(i as int);
                    let pn = ps.take(i + 1);
                    if b.contains(q) {
                        let t = choose|t: int| 0 <= t < b.len() && b[t] == q;
                        if t < p {
                            assert(a[t] == q && a.contains(q));
                        } else if t > p {
                            assert(a[t - 1] == q && a.contains(q));
                        }
                        if q != rp {
                            let u = choose|u: int| 0 <= u < pt.len() && pt[u] == q;
                            assert(pn[u] == q);
                        } else {
                            assert(pn[i as int] == q);
                        }
                    }
                    if pn.contains(q) {
                        let u = choose|u: int| 0 <= u < pn.len() && pn[u] == q;
                        if u < i {
                            assert(pt[u] == q && pt.contains(q));
                            assert(a.contains(q));
                            let t = choose|t: int| 0 <= t < a.len() && a[t] == q;
                            if t < p {
                                assert(b[t] == q);
                            } else {
                                assert(b == a.insert(p as int, rp));
                                assert(b[t + 1] == a[t]);
                            }
                        } else {
                            assert(b[p as int] == q);
                        }
                    }
                }
            }
            i = i + 1;
        }
        proof {
            assert(ps.take(n as int) =~= ps);
        }
        if rows.len() == 0 {
            rows.push(KvRow::new("Key", "Value"));
            proof {
                assert(variables@.dom() =~= Set::<Seq<char>>::empty());
                assert(rows_pairs(rows@) =~= seq![(Seq::<char>::empty(), Seq::<char>::empty())]);
            }
        } else {
            proof {
                let m = variables@;
                let rq = rows_pairs(rows@);
                assert(m.contains_key(ps[0].0));
                assert(m.dom() != Set::<Seq<char>>::empty());
                assert forall|j: int| 0 <= j < rq.len() implies m.contains_key(#[trigger] rq[j].0) && m[rq[j].0] == rq[j].1 by {
                    assert(rq.contains(rq[j]));
                    let t = choose|t: int| 0 <= t < ps.len() && ps[t] == rq[j];
                    assert(ps[t].0 == rq[j].0);
                    let c = choose|c: int| 0 <= c < ps.len() && ps[c].0 == rq[j].0;
                    assert(c == t);
                }
                assert forall|k: Seq<char>| #[trigger] m.contains_key(k) implies exists|j: int| 0 <= j < rq.len() && rq[j].0 == k by {
                    let t = choose|t: int| 0 <= t < ps.len() && ps[t].0 == k;
                    assert(ps.contains(ps[t]));
                    assert(ps.take(n as int).contains(ps[t]));
                    assert(rq.contains(ps[t]));
                    let j = choose|j: int| 0 <= j < rq.len() && rq[j] == ps[t];
                    assert(rq[j].0 == k);
                }
            }
        }
        EnvironmentEditor {
            is_open: true,
            finished: false,
            var_rows: rows,
            focused: EnvFocus::VarKey(0),
            editing: false,
        }
    }

    /// The variables the rows stand for (see `collected`).
    pub fn collect(&self) -> (m: StrMap)
        ensures
            m@ == collected(rows_pairs(self.var_rows@)),
    {
        let mut out = StrMap::new();
        let mut i: usize = 0;
        let ghost ps = rows_pairs(self.var_rows@);
        while i < self.var_rows.len()
            invariant
                i <= self.var_rows@.len(),
                ps == rows_pairs(self.var_rows@),
                out@ == collected(ps.take(i as int)),
            decreases self.var_rows@.len() - i,
        {
            let key = self.var_rows[i].key.value();
            let value = self.var_rows[i].value.value();
            proof {
                assert(ps.take(i + 1).drop_last() =~= ps.take(i as int));
                assert(ps.take(i + 1).last() == ps[i as int]);
            }
            if !key.as_str().is_empty() {
                out.insert(key, value);
            }
            i = i + 1;
        }
        proof {
            assert(ps.take(self.var_rows@.len() as int) =~= ps);
        }
        out
    }
}

/// Over rows whose keys are all distinct, the collected variables are the
/// rows with a non-empty key, each with its value.
proof fn lemma_collected_distinct(ps: Seq<(Seq<char>, Seq<char>)>)
    requires
        forall|i: int, j: int| 0 <= i < j < ps.len() ==> ps[i].0 != ps[j].0,
    ensures
        forall|k: Seq<char>| #[trigger] collected(ps).contains_key(k) <==> (k.len() != 0 && exists|i: int|
            0 <= i < ps.len() && ps[i].0 == k),
        forall|i: int| 0 <= i < ps.len() && (#[trigger] ps[i]).0.len() != 0 ==> collected(ps)[ps[i].0] == ps[i].1,
    decreases ps.len(),
{
    if ps.len() > 0 {
        let init = ps.drop_last();
        let last = ps.last();
        lemma_collected_distinct(init);
        let c = collected(ps);
        assert forall|k: Seq<char>| #[trigger] c.contains_key(k) <==> (k.len() != 0 && exists|i: int|
            0 <= i < ps.len() && ps[i].0 == k) by {
            if k.len() != 0 && exists|i: int| 0 <= i < ps.len() && ps[i].0 == k {
                let i = choose|i: int| 0 <= i < ps.len() && ps[i].0 == k;
                if i < ps.len() - 1 {
                    assert(init[i].0 == k);
                }
            }
            if c.contains_key(k) {
                if k == last.0 {
                    assert(ps[ps.len() - 1].0 == k);
                    if last.0.len() == 0 {
                        assert(collected(init).contains_key(k));
                    }
                } else {
                    assert(collected(init).contains_key(k));
                    let i = choose|i: int| 0 <= i < init.len() && init[i].0 == k;
                    assert(ps[i].0 == k);
                }
            }
        }
        assert forall|i: int| 0 <= i < ps.len() && (#[trigger] ps[i]).0.len() != 0 implies c[ps[i].0]
            == ps[i].1 by {
            if i < ps.len() - 1 {
                assert(init[i] == ps[i]);
                assert(ps[i].0 != last.0);
            }
        }
    }
}

/// Saving an editor as it was opened gives back the variables it was
/// opened with, but for one with an empty name, which no row can save.
pub proof fn law_collect_after_open(ps: Seq<(Seq<char>, Seq<char>)>, m: Map<Seq<char>, Seq<char>>)
    requires
        opening_rows(ps, m),
    ensures
        collected(ps) == m.remove(Seq::<char>::empty()),
{
    let e = Seq::<char>::empty();
    if m.dom() == Set::<Seq<char>>::empty() {
        assert(ps.drop_last() =~= Seq::<(Seq<char>, Seq<char>)>::empty());
        assert(collected(ps) == collected(ps.drop_last()));
        assert(m.remove(e) =~= Map::<Seq<char>, Seq<char>>::empty());
        assert(collected(ps) =~= Map::<Seq<char>, Seq<char>>::empty());
    } else {
        let ks = pair_keys(ps);
        assert forall|i: int, j: int| 0 <= i < j < ps.len() implies ps[i].0 != ps[j].0 by {
            assert(ks[i] == ps[i].0 && ks[j] == ps[j].0);
            assert(seq_lt(ks[i], ks[j]));
            lemma_lt_irreflexive(ks[i]);
        }
        lemma_collected_distinct(ps);
        let c = collected(ps);
        assert forall|k: Seq<char>| #[trigger] c.contains_key(k) <==> m.remove(e).contains_key(k) by {
            if c.contains_key(k) {
                let i = choose|i: int| 0 <= i < ps.len() && ps[i].0 == k;
                assert(m.contains_key(ps[i].0));
                assert(k != e);
            }
            if m.remove(e).contains_key(k) {
                assert(m.contains_key(k));
                if k.len() == 0 {
                    assert(k =~= e);
                }
            }
        }
        assert forall|k: Seq<char>| #[trigger] c.contains_key(k) implies c[k] == m.remove(e)[k] by {
            let i = choose|i: int| 0 <= i < ps.len() && ps[i].0 == k;
            assert(m.contains_key(ps[i].0) && m[ps[i].0] == ps[i].1);
        }
        assert(c =~= m.remove(e));
    }
}

/// A focus of the same kind as `f`, on row `i`.
pub open spec fn focus_at(f: EnvFocus, i: int) -> EnvFocus {
    match f {
        EnvFocus::VarKey(_) => EnvFocus::VarKey(i as usize),
        EnvFocus::VarValue(_) => EnvFocus::VarValue(i as usize),
    }
}

/// Row `b` is row `a` after a key went to its key field (`on_key`) or to
/// its value field: the other field and the row's flag stay, the field
/// keeps its title and whether it is enabled, and a disabled field keeps
/// its text.
pub open spec fn typed_into(a: KvRow, b: KvRow, on_key: bool) -> bool {
    &&& b.enabled == a.enabled
    &&& if on_key {
        &&& b.value == a.value
        &&& b.key.enabled == a.key.enabled
        &&& b.key.title == a.key.title
        &&& !a.key.enabled ==> b.key.text() == a.key.text()
    } else {
        &&& b.key == a.key
        &&& b.value.enabled == a.value.enabled
        &&& b.value.title == a.value.title
        &&& !a.value.enabled ==> b.value.text() == a.value.text()
    }
}

/// How the key (`on_key`) or value field of a row changed under a key press
/// handed to it: where the field is enabled, as `TextInput::typed` says.
pub open spec fn typed_into_with(a: KvRow, b: KvRow, on_key: bool, key: KeyPress) -> bool {
    if on_key {
        a.key.enabled ==> a.key.typed(&b.key, key)
    } else {
        a.value.enabled ==> a.value.typed(&b.value, key)
    }
}

/// What a key does to the editor, from `o` to `n`.
///
/// While a field is being typed into, Esc stops typing and disables every
/// field; any other key goes to the focused field. Otherwise `j`/Down and
/// `k`/Up move the focus to the next or previous row when there is one,
/// `h`/Left and `l`/Right move it to the key or the value of its row, `e`
/// starts typing into the focused field, `a` appends a blank row and
/// focuses its key, `d` removes the focused row unless it is the only one
/// and focuses the key of the row now in its place (or of the last row),
/// Enter closes the editor as saved, Esc closes it; other keys do nothing.
pub open spec fn env_key_effect(o: EnvironmentEditor, n: EnvironmentEditor, k: Key) -> bool {
    let rows = o.var_rows@;
    let r = focus_row(o.focused);
    if o.editing {
        if k == Key::Esc {
            &&& !n.editing
            &&& n.focused == o.focused && n.is_open == o.is_open && n.finished == o.finished
            &&& all_disabled(n.var_rows@)
            &&& same_texts(n.var_rows@, rows)
        } else {
            &&& n.editing
            &&& n.focused == o.focused && n.is_open == o.is_open && n.finished == o.finished
            &&& n.var_rows@.len() == rows.len()
            &&& forall|i: int| 0 <= i < rows.len() && i != r ==> n.var_rows@[i] == #[trigger] rows[i]
            &&& 0 <= r < rows.len() ==> typed_into(rows[r], n.var_rows@[r], o.focused is VarKey)
        }
    } else {
        &&& n.editing == (k == Key::Char('e'))
        &&& n.is_open == (o.is_open && !(k == Key::Enter || k == Key::Esc))
        &&& n.finished == (o.finished || k == Key::Enter)
        &&& if k == Key::Char('j') || k == Key::Down {
            n.var_rows@ == rows && n.focused == (if r + 1 < rows.len() { focus_at(o.focused, r + 1) } else { o.focused })
        } else if k == Key::Char('k') || k == Key::Up {
            n.var_rows@ == rows && n.focused == (if 1 <= r && r - 1 < rows.len() { focus_at(o.focused, r - 1) } else { o.focused })
        } else if k == Key::Char('h') || k == Key::Left {
            n.var_rows@ == rows && n.focused == EnvFocus::VarKey(r as usize)
        } else if k == Key::Char('l') || k == Key::Right {
            n.var_rows@ == rows && n.focused == EnvFocus::VarValue(r as usize)
        } else if k == Key::Char('e') {
            n.focused == o.focused && only_focused_enabled(n.var_rows@, o.focused) && same_texts(n.var_rows@, rows)
        } else if k == Key::Char('a') {
            &&& n.var_rows@.len() == rows.len() + 1
            &&& n.var_rows@.take(rows.len() as int) == rows
            &&& plain_row(n.var_rows@.last())
            &&& row_pair(n.var_rows@.last()) == (Seq::<char>::empty(), Seq::<char>::empty())
            &&& n.focused == EnvFocus::VarKey(rows.len() as usize)
        } else if k == Key::Char('d') {
            if r < rows.len() && rows.len() > 1 {
                n.var_rows@ == rows.remove(r) && n.focused == EnvFocus::VarKey(
                    (if r < rows.len() - 1 { r } else { rows.len() - 2 }) as usize,
                )
            } else {
                n.var_rows@ == rows && n.focused == o.focused
            }
        } else {
            n.var_rows@ == rows && n.focused == o.focused
        }
    }
}

impl EnvironmentEditor {
    /// The row the focus is on.
    fn row_index(&self) -> (i: usize)
        ensures
            i == focus_row(self.focused),
    {
        match self.focused {
            EnvFocus::VarKey(i) => i,
            EnvFocus::VarValue(i) => i,
        }
    }

    /// Disables every field, keeping the texts.
    fn disable_all(&mut self)
        ensures
            all_disabled(final(self).var_rows@),
            same_texts(final(self).var_rows@, old(self).var_rows@),
            final(self).focused == old(self).focused,
            final(self).editing == old(self).editing,
            final(self).is_open == old(self).is_open,
            final(self).finished == old(self).finished,
    {
        let ghost rows0 = self.var_rows@;
        let mut i: usize = 0;
        while i < self.var_rows.len()
            invariant
                i <= self.var_rows@.len(),
                self.var_rows@.len() == rows0.len(),
                same_texts(self.var_rows@, rows0),
                forall|j: int| 0 <= j < i ==> !(#[trigger] self.var_rows@[j]).key.enabled && !self.var_rows@[j].value.enabled,
                self.focused == old(self).focused,
                self.editing == old(self).editing,
                self.is_open == old(self).is_open,
                self.finished == old(self).finished,
            decreases self.var_rows@.len() - i,
        {
            let mut row = self.var_rows.remove(i);
            row.key.disable();
            row.value.disable();
            self.var_rows.insert(i, row);
            i = i + 1;
        }
    }

    /// Enables the focused field alone, keeping the texts.
    fn enable_focused(&mut self)
        ensures
            only_focused_enabled(final(self).var_rows@, old(self).focused),
            same_texts(final(self).var_rows@, old(self).var_rows@),
            final(self).focused == old(self).focused,
            final(self).editing == old(self).editing,
            final(self).is_open == old(self).is_open,
            final(self).finished == old(self).finished,
    {
        self.disable_all();
        let i = self.row_index();
        if i < self.var_rows.len() {
            let mut row = self.var_rows.remove(i);
            match self.focused {
                EnvFocus::VarKey(_) => row.key.enable(),
                EnvFocus::VarValue(_) => row.value.enable(),
            }
            self.var_rows.insert(i, row);
        }
    }

    /// Hands a key to the focused field.
    fn type_into_focused(&mut self, key: &KeyPress)
        ensures
            final(self).focused == old(self).focused,
            final(self).editing == old(self).editing,
            final(self).is_open == old(self).is_open,
            final(self).finished == old(self).finished,
            final(self).var_rows@.len() == old(self).var_rows@.len(),
            forall|i: int| 0 <= i < old(self).var_rows@.len() && i != focus_row(old(self).focused)
                ==> final(self).var_rows@[i] == #[trigger] old(self).var_rows@[i],
            0 <= focus_row(old(self).focused) < old(self).var_rows@.len() ==> typed_into(
                old(self).var_rows@[focus_row(old(self).focused)],
                final(self).var_rows@[focus_row(old(self).focused)],
                old(self).focused is VarKey,
            ),
            0 <= focus_row(old(self).focused) < old(self).var_rows@.len() ==> typed_into_with(
                old(self).var_rows@[focus_row(old(self).focused)],
                final(self).var_rows@[focus_row(old(self).focused)],
                old(self).focused is VarKey,
                *key,
            ),
    {
        let i = self.row_index();
        if i < self.var_rows.len() {
            let mut row = self.var_rows.remove(i);
            match self.focused {
                EnvFocus::VarKey(_) => {
                    row.key.handle_event(key);
                },
                EnvFocus::VarValue(_) => {
                    row.value.handle_event(key);
                },
            }
            self.var_rows.insert(i, row);
        }
    }

    /// Acts on a key as `env_key_effect` says.
    pub fn handle_event(&mut self, key: &KeyPress)
        ensures
            env_key_effect(*old(self), *final(self), key.key),
    {
        if self.editing {
            if key.key == Key::Esc {
                self.editing = false;
                self.disable_all();
            } else {
                self.type_into_focused(key);
            }
            return;
        }
        let len = self.var_rows.len();
        let r = self.row_index();
        match key.key {
            Key::Char('j') | Key::Down => {
                if r < len && r + 1 < len {
                    self.focused = match self.focused {
                        EnvFocus::VarKey(_) => EnvFocus::VarKey(r + 1),
                        EnvFocus::VarValue(_) => EnvFocus::VarValue(r + 1),
                    };
                }
            },
            Key::Char('k') | Key::Up => {
                if r >= 1 && r - 1 < len {
                    self.focused = match self.focused {
                        EnvFocus::VarKey(_) => EnvFocus::VarKey(r - 1),
                        EnvFocus::VarValue(_) => EnvFocus::VarValue(r - 1),
                    };
                }
            },
            Key::Char('h') | Key::Left => {
                self.focused = EnvFocus::VarKey(r);
            },
            Key::Char('l') | Key::Right => {
                self.focused = EnvFocus::VarValue(r);
            },
            Key::Char('e') => {
                self.editing = true;
                self.enable_focused();
            },
            Key::Char('a') => {
                let ghost before = self.var_rows@;
                self.var_rows.push(KvRow::new("Key", "Value"));
                self.focused = EnvFocus::VarKey(len);
                assert(self.var_rows@.take(len as int) =~= before);
            },
            Key::Char('d') => {
                if r < len && len > 1 {
                    self.var_rows.remove(r);
                    let last = len - 2;
                    self.focused = EnvFocus::VarKey(if r < last + 1 { r } else { last });
                }
            },
            Key::Enter => {
                self.finished = true;
                self.is_open = false;
            },
            Key::Esc => {
                self.is_open = false;
            },
            _ => {},
        }
    }
}

} // verus!
