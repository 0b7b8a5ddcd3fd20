use vstd::prelude::*;
use crate::items::Hue;
use crate::text::{to_chars, from_chars, lex_compare, lemma_lt_irreflexive, Order3};
use crate::placeholder::sub_chars;

verus! {

/// A piece of highlighted JSON: a line break, or some text and the colour it
/// is shown in (`None`: the terminal's default).
pub enum Tok {
    Break,
    Piece(Seq<char>, Option<Hue>),
}

/// ASCII whitespace as std's `char::is_ascii_whitespace` has it: space, tab,
/// line feed, form feed and carriage return.
pub open spec fn is_ascii_ws(c: char) -> bool {
    c == ' ' || c == '\t' || c == '\n' || c == '\u{c}' || c == '\r'
}

/// The characters a number is made of: digits, `.`, `-`, `+`, `e`, `E`.
pub open spec fn is_num_char(c: char) -> bool {
    ('0' <= c && c <= '9') || c == '.' || c == '-' || c == '+' || c == 'e' || c == 'E'
}

pub open spec fn is_ascii_alpha(c: char) -> bool {
    ('a' <= c && c <= 'z') || ('A' <= c && c <= 'Z')
}

/// Where a string whose opening quote came before `j` ends: just past the
/// first unescaped `"` from `j` on (a `\` escapes the character after it),
/// or at the end of the text.
pub open spec fn str_end(c: Seq<char>, j: int, escaped: bool) -> int
    decreases c.len() - j,
{
    if j < 0 || j >= c.len() {
        c.len() as int
    } else if escaped {
        str_end(c, j + 1, false)
    } else if c[j] == '\\' {
        str_end(c, j + 1, true)
    } else if c[j] == '"' {
        j + 1
    } else {
        str_end(c, j + 1, false)
    }
}

/// The end of the run of characters from `j` on for which `f` holds.
pub open spec fn run_end(c: Seq<char>, j: int, f: spec_fn(char) -> bool) -> int
    decreases c.len() - j,
{
    if 0 <= j < c.len() && f(c[j]) {
        run_end(c, j + 1, f)
    } else {
        j
    }
}

pub open spec fn num_char_fn() -> spec_fn(char) -> bool {
    |ch: char| is_num_char(ch)
}

pub open spec fn alpha_fn() -> spec_fn(char) -> bool {
    |ch: char| is_ascii_alpha(ch)
}

pub open spec fn inline_ws_fn() -> spec_fn(char) -> bool {
    |ch: char| is_ascii_ws(ch) && ch != '\n'
}

pub proof fn lemma_str_end_bounds(c: Seq<char>, j: int, escaped: bool)
    requires
        0 <= j,
    ensures
        j <= str_end(c, j, escaped) <= c.len() || (j > c.len() && str_end(c, j, escaped) == c.len()),
        j < c.len() ==> j < str_end(c, j, escaped) <= c.len(),
    decreases c.len() - j,
{
    if j < c.len() {
        lemma_str_end_bounds(c, j + 1, false);
        lemma_str_end_bounds(c, j + 1, true);
    }
}

pub proof fn lemma_run_end_bounds(c: Seq<char>, j: int, f: spec_fn(char) -> bool)
    requires
        0 <= j <= c.len(),
    ensures
        j <= run_end(c, j, f) <= c.len(),
        j < c.len() && f(c[j]) ==> j < run_end(c, j, f),
        forall|k: int| j <= k < run_end(c, j, f) ==> f(c[k]),
        run_end(c, j, f) < c.len() ==> !f(c[run_end(c, j, f)]),
    decreases c.len() - j,
{
    if j < c.len() && f(c[j]) {
        lemma_run_end_bounds(c, j + 1, f);
    }
}

/// The colour of a word: `true`/`false` magenta, `null` red, other words
/// white.
pub open spec fn word_hue(w: Seq<char>) -> Hue {
    if w == "true"@ || w == "false"@ {
        Hue::Magenta
    } else if w == "null"@ {
        Hue::Red
    } else {
        Hue::White
    }
}

/// The highlighted pieces of the text `c` from `i` on. `stack` tells, for
/// each bracket still open, whether it is a `{`; `key` whether the next
/// string is an object's key. Keys are cyan and other strings green,
/// brackets white, `:` and `,` dark grey, numbers yellow; words are coloured
/// by `word_hue`, whitespace and any other character are left uncoloured.
pub open spec fn toks(c: Seq<char>, i: int, stack: Seq<bool>, key: bool) -> Seq<Tok>
    decreases c.len() - i,
{
    if i < 0 || i >= c.len() {
        Seq::empty()
    } else {
        let ch = c[i];
        if ch == '\n' {
            seq![Tok::Break] + toks(c, i + 1, stack, key)
        } else if ch == '"' {
            let e = str_end(c, i + 1, false);
            proof {
                lemma_str_end_bounds(c, i + 1, false);
            }
            seq![Tok::Piece(c.subrange(i, e), Some(if key { Hue::Cyan } else { Hue::Green }))] + toks(c, e, stack, false)
        } else if ch == '{' {
            seq![Tok::Piece(seq!['{'], Some(Hue::White))] + toks(c, i + 1, stack.push(true), true)
        } else if ch == '}' {
            seq![Tok::Piece(seq!['}'], Some(Hue::White))] + toks(c, i + 1, if stack.len() > 0 { stack.drop_last() } else { stack }, false)
        } else if ch == '[' {
            seq![Tok::Piece(seq!['['], Some(Hue::White))] + toks(c, i + 1, stack.push(false), false)
        } else if ch == ']' {
            seq![Tok::Piece(seq![']'], Some(Hue::White))] + toks(c, i + 1, if stack.len() > 0 { stack.drop_last() } else { stack }, key)
        } else if ch == ':' {
            seq![Tok::Piece(seq![':'], Some(Hue::DarkGray))] + toks(c, i + 1, stack, false)
        } else if ch == ',' {
            seq![Tok::Piece(seq![','], Some(Hue::DarkGray))] + toks(c, i + 1, stack, if stack.len() > 0 && stack.last() { true } else { key })
        } else if ch == '-' || ('0' <= ch && ch <= '9') {
            let e = run_end(c, i, num_char_fn());
            proof {
                lemma_run_end_bounds(c, i, num_char_fn());
            }
            seq![Tok::Piece(c.subrange(i, e), Some(Hue::Yellow))] + toks(c, e, stack, key)
        } else if ch == 't' || ch == 'f' || ch == 'n' {
            let e = run_end(c, i, alpha_fn());
            proof {
                lemma_run_end_bounds(c, i, alpha_fn());
            }
            seq![Tok::Piece(c.subrange(i, e), Some(word_hue(c.subrange(i, e))))] + toks(c, e, stack, key)
        } else if is_ascii_ws(ch) {
            let e = run_end(c, i, inline_ws_fn());
            proof {
                lemma_run_end_bounds(c, i, inline_ws_fn());
            }
            seq![Tok::Piece(c.subrange(i, e), None)] + toks(c, e, stack, key)
        } else {
            seq![Tok::Piece(seq![ch], None)] + toks(c, i + 1, stack, key)
        }
    }
}

/// A piece of text and the colour it is shown in (`None`: the terminal's
/// default).
pub struct Styled {
    pub text: String,
    pub hue: Option<Hue>,
}

/// Cuts the pieces into lines at each break; `cur` is the line begun so far.
/// A last line is kept only when it has pieces.
pub open spec fn group(ts: Seq<Tok>, cur: Seq<(Seq<char>, Option<Hue>)>) -> Seq<Seq<(Seq<char>, Option<Hue>)>>
    decreases ts.len(),
{
    if ts.len() == 0 {
        if cur.len() > 0 {
            seq![cur]
        } else {
            Seq::empty()
        }
    } else {
        match ts[0] {
            Tok::Break => seq![cur] + group(ts.drop_first(), Seq::empty()),
            Tok::Piece(t, h) => group(ts.drop_first(), cur.push((t, h))),
        }
    }
}

/// The lines of highlighted pieces for the text `c`.
pub open spec fn highlighted(c: Seq<char>) -> Seq<Seq<(Seq<char>, Option<Hue>)>> {
    group(toks(c, 0, Seq::empty(), false), Seq::empty())
}

pub open spec fn line_view(l: Seq<Styled>) -> Seq<(Seq<char>, Option<Hue>)> {
    Seq::new(l.len(), |i: int| (l[i].text@, l[i].hue))
}

pub open spec fn lines_view(ls: Seq<Vec<Styled>>) -> Seq<Seq<(Seq<char>, Option<Hue>)>> {
    Seq::new(ls.len(), |i: int| line_view(ls[i]@))
}

fn same_chars(a: &Vec<char>, b: &Vec<char>) -> (r: bool)
    ensures
        r == (a@ == b@),
{
    proof {
        lemma_lt_irreflexive(a@);
    }
    match lex_compare(a, b) {
        Order3::Equal => true,
        _ => false,
    }
}

fn scan_string(c: &Vec<char>, j: usize) -> (r: usize)
    requires
        j <= c@.len(),
    ensures
        r == str_end(c@, j as int, false),
{
    let n = c.len();
    let mut k = j;
    let mut escaped = false;
    while k < n
        invariant
            j <= k <= n,
            n == c@.len(),
            str_end(c@, j as int, false) == str_end(c@, k as int, escaped),
        decreases n - k,
    {
        let ch = c[k];
        if escaped {
            escaped = false;
        } else if ch == '\\' {
            escaped = true;
        } else if ch == '"' {
            return k + 1;
        }
        k = k + 1;
    }
    k
}

fn scan_run(c: &Vec<char>, j: usize, kind: u8) -> (r: usize)
    requires
        j <= c@.len(),
        kind <= 2,
    ensures
        r == run_end(c@, j as int, if kind == 0 { num_char_fn() } else if kind == 1 { alpha_fn() } else { inline_ws_fn() }),
{
    let ghost f = if kind == 0 { num_char_fn() } else if kind == 1 { alpha_fn() } else { inline_ws_fn() };
    let n = c.len();
    let mut k = j;
    while k < n
        invariant
            j <= k <= n,
            n == c@.len(),
            run_end(c@, j as int, f) == run_end(c@, k as int, f),
            f == (if kind == 0 { num_char_fn() } else if kind == 1 { alpha_fn() } else { inline_ws_fn() }),
        decreases n - k,
    {
        let ch = c[k];
        let keep = if kind == 0 {
            ('0' <= ch && ch <= '9') || ch == '.' || ch == '-' || ch == '+' || ch == 'e' || ch == 'E'
        } else if kind == 1 {
            ('a' <= ch && ch <= 'z') || ('A' <= ch && ch <= 'Z')
        } else {
            ch == ' ' || ch == '\t' || ch == '\u{c}' || ch == '\r'
        };
        assert(keep == f(ch));
        if !keep {
            return k;
        }
        k = k + 1;
    }
    k
}

fn word_hue_exec(w: &Vec<char>) -> (h: Hue)
    ensures
        h == word_hue(w@),
{
    let t = to_chars("true");
    let f = to_chars("false");
    let n = to_chars("null");
    proof {
        reveal_strlit("true");
        reveal_strlit("false");
        reveal_strlit("null");
    }
    if same_chars(w, &t) || same_chars(w, &f) {
        Hue::Magenta
    } else if same_chars(w, &n) {
        Hue::Red
    } else {
        Hue::White
    }
}

fn piece(c: &Vec<char>, a: usize, b: usize, hue: Option<Hue>) -> (s: Styled)
    requires
        a <= b <= c@.len(),
    ensures
        s.text@ == c@.subrange(a as int, b as int),
        s.hue == hue,
{
    let v = sub_chars(c, a, b);
    Styled { text: from_chars(&v), hue }
}

fn next_piece(c: &Vec<char>, i: usize, stack: &mut Vec<bool>, key: &mut bool) -> (r: (Styled, usize))
    requires
        i < c@.len(),
        c@[i as int] != '\n',
    ensures
        i < r.1 <= c@.len(),
        toks(c@, i as int, old(stack)@, *old(key)) == seq![Tok::Piece(r.0.text@, r.0.hue)] + toks(
            c@,
            r.1 as int,
            final(stack)@,
            *final(key),
        ),
{
    let n = c.len();
    let ch = c[i];
    if ch == '"' {
        let e = scan_string(c, i + 1);
        proof {
            lemma_str_end_bounds(c@, i + 1, false);
        }
        let hue = if *key { Hue::Cyan } else { Hue::Green };
        *key = false;
        return (piece(c, i, e, Some(hue)), e);
    }
    if ch == '-' || ('0' <= ch && ch <= '9') {
        let e = scan_run(c, i, 0);
        proof {
            lemma_run_end_bounds(c@, i as int, num_char_fn());
        }
        return (piece(c, i, e, Some(Hue::Yellow)), e);
    }
    if ch == 't' || ch == 'f' || ch == 'n' {
        let e = scan_run(c, i, 1);
        proof {
            lemma_run_end_bounds(c@, i as int, alpha_fn());
        }
        let w = sub_chars(c, i, e);
        let h = word_hue_exec(&w);
        return (piece(c, i, e, Some(h)), e);
    }
    if ch == ' ' || ch == '\t' || ch == '\u{c}' || ch == '\r' {
        let e = scan_run(c, i, 2);
        proof {
            lemma_run_end_bounds(c@, i as int, inline_ws_fn());
        }
        return (piece(c, i, e, None), e);
    }
    let p = if ch == '{' {
        stack.push(true);
        *key = true;
        piece(c, i, i + 1, Some(Hue::White))
    } else if ch == '}' {
        if stack.len() > 0 {
            stack.pop();
        }
        *key = false;
        piece(c, i, i + 1, Some(Hue::White))
    } else if ch == '[' {
        stack.push(false);
        *key = false;
        piece(c, i, i + 1, Some(Hue::White))
    } else if ch == ']' {
        if stack.len() > 0 {
            stack.pop();
        }
        piece(c, i, i + 1, Some(Hue::White))
    } else if ch == ':' {
        *key = false;
        piece(c, i, i + 1, Some(Hue::DarkGray))
    } else if ch == ',' {
        if stack.len() > 0 && stack[stack.len() - 1] {
            *key = true;
        }
        piece(c, i, i + 1, Some(Hue::DarkGray))
    } else {
        piece(c, i, i + 1, None)
    };
    assert(c@.subrange(i as int, i + 1) =~= seq![ch]);
    (p, i + 1)
}

/// Colours pretty-printed JSON for display, line by line (see `toks`).
pub fn highlight_json(input: &str) -> (r: Vec<Vec<Styled>>)
    ensures
        lines_view(r@) == highlighted(input@),
{
    let c = to_chars(input);
    let n = c.len();
    let mut lines: Vec<Vec<Styled>> = Vec::new();
    let mut spans: Vec<Styled> = Vec::new();
    let mut stack: Vec<bool> = Vec::new();
    let mut key = false;
    let mut i: usize = 0;
    assert(stack@ =~= Seq::<bool>::empty());
    assert(line_view(spans@) =~= Seq::<(Seq<char>, Option<Hue>)>::empty());
    assert(lines_view(lines@) =~= Seq::<Seq<(Seq<char>, Option<Hue>)>>::empty());
    assert(lines_view(lines@) + group(toks(c@, 0, stack@, key), line_view(spans@)) =~= highlighted(input@));
    while i < n
        invariant
            i <= n,
            n == c@.len(),
            c@ == input@,
            lines_view(lines@) + group(toks(c@, i as int, stack@, key), line_view(spans@)) == highlighted(input@),
        decreases n - i,
    {
        let ghost ts = toks(c@, i as int, stack@, key);
        let ghost lv0 = lines_view(lines@);
        let ghost sv0 = line_view(spans@);
        let ch = c[i];
        if ch == '\n' {
            let mut done: Vec<Styled> = Vec::new();
            std::mem::swap(&mut done, &mut spans);
            lines.push(done);
            i = i + 1;
            proof {
                assert(ts[0] == Tok::Break);
                assert(ts.drop_first() =~= toks(c@, i as int, stack@, key));
                assert(lines_view(lines@) =~= lv0.push(sv0));
                assert(line_view(spans@) =~= Seq::<(Seq<char>, Option<Hue>)>::empty());
                assert(lines_view(lines@) + group(toks(c@, i as int, stack@, key), line_view(spans@)) =~= lv0
                    + group(ts, sv0));
            }
        } else {
            let (sp, next) = next_piece(&c, i, &mut stack, &mut key);
            let ghost pv = (sp.text@, sp.hue);
            spans.push(sp);
            i = next;
            proof {
                assert(ts.drop_first() =~= toks(c@, i as int, stack@, key));
                assert(line_view(spans@) =~= sv0.push(pv));
            }
        }
    }
    proof {
        assert(toks(c@, i as int, stack@, key) =~= Seq::<Tok>::empty());
    }
    if spans.len() > 0 {
        let ghost lv0 = lines_view(lines@);
        let ghost sv0 = line_view(spans@);
        lines.push(spans);
        assert(lines_view(lines@) =~= lv0.push(sv0));
    } else {
        assert(lines_view(lines@) =~= lines_view(lines@) + Seq::<Seq<(Seq<char>, Option<Hue>)>>::empty());
    }
    lines
}

/// The text a piece stands for: a line break, or its characters.
pub open spec fn tok_text(t: Tok) -> Seq<char> {
    match t {
        Tok::Break => seq!['\n'],
        Tok::Piece(s, _) => s,
    }
}

/// The text of a run of pieces, one after another.
pub open spec fn stream_text(ts: Seq<Tok>) -> Seq<char>
    decreases ts.len(),
{
    if ts.len() == 0 {
        Seq::empty()
    } else {
        tok_text(ts[0]) + stream_text(ts.drop_first())
    }
}

proof fn lemma_stream_cons(t: Tok, rest: Seq<Tok>)
    ensures
        stream_text(seq![t] + rest) == tok_text(t) + stream_text(rest),
{
    assert((seq![t] + rest).drop_first() =~= rest);
}

/// Highlighting only colours: the pieces, read one after another with a
/// line break for each break, are exactly the text that was highlighted.
pub proof fn law_highlight_keeps_text(c: Seq<char>, i: int, stack: Seq<bool>, key: bool)
    requires
        0 <= i <= c.len(),
    ensures
        stream_text(toks(c, i, stack, key)) == c.skip(i),
    decreases c.len() - i,
{
    if i < c.len() {
        let ch = c[i];
        let ts = toks(c, i, stack, key);
        if ch == '\n' {
            law_highlight_keeps_text(c, i + 1, stack, key);
            lemma_stream_cons(Tok::Break, toks(c, i + 1, stack, key));
            assert(c.skip(i) =~= seq![ch] + c.skip(i + 1));
        } else if ch == '"' {
            lemma_str_end_bounds(c, i + 1, false);
            let e = str_end(c, i + 1, false);
            law_highlight_keeps_text(c, e, stack, false);
            lemma_stream_cons(ts[0], toks(c, e, stack, false));
            assert(ts =~= seq![ts[0]] + toks(c, e, stack, false));
            assert(c.skip(i) =~= c.subrange(i, e) + c.skip(e));
        } else if ch == '-' || ('0' <= ch && ch <= '9') {
            lemma_run_end_bounds(c, i, num_char_fn());
            let e = run_end(c, i, num_char_fn());
            law_highlight_keeps_text(c, e, stack, key);
            lemma_stream_cons(ts[0], toks(c, e, stack, key));
            assert(ts =~= seq![ts[0]] + toks(c, e, stack, key));
            assert(c.skip(i) =~= c.subrange(i, e) + c.skip(e));
        } else if ch == 't' || ch == 'f' || ch == 'n' {
            lemma_run_end_bounds(c, i, alpha_fn());
            let e = run_end(c, i, alpha_fn());
            law_highlight_keeps_text(c, e, stack, key);
            lemma_stream_cons(ts[0], toks(c, e, stack, key));
            assert(ts =~= seq![ts[0]] + toks(c, e, stack, key));
            assert(c.skip(i) =~= c.subrange(i, e) + c.skip(e));
        } else if is_ascii_ws(ch) && !(ch == '{' || ch == '}' || ch == '[' || ch == ']' || ch == ':' || ch == ',') {
            lemma_run_end_bounds(c, i, inline_ws_fn());
            let e = run_end(c, i, inline_ws_fn());
            law_highlight_keeps_text(c, e, stack, key);
            lemma_stream_cons(ts[0], toks(c, e, stack, key));
            assert(ts =~= seq![ts[0]] + toks(c, e, stack, key));
            assert(c.skip(i) =~= c.subrange(i, e) + c.skip(e));
        } else {
            let st2 = if ch == '{' {
                stack.push(true)
            } else if ch == '[' {
                stack.push(false)
            } else if ch == '}' || ch == ']' {
                if stack.len() > 0 { stack.drop_last() } else { stack }
            } else {
                stack
            };
            let k2 = if ch == '{' {
                true
            } else if ch == '}' || ch == '[' || ch == ':' {
                false
            } else if ch == ',' {
                if stack.len() > 0 && stack.last() { true } else { key }
            } else {
                key
            };
            law_highlight_keeps_text(c, i + 1, st2, k2);
            assert(ts =~= seq![ts[0]] + toks(c, i + 1, st2, k2));
            lemma_stream_cons(ts[0], toks(c, i + 1, st2, k2));
            assert(c.skip(i) =~= seq![ch] + c.skip(i + 1));
        }
    } else {
        assert(c.skip(i) =~= Seq::<char>::empty());
    }
}

} // verus!

verus! {

/// Inside an object, a string that follows a `,` of that object (with only
/// spaces or tabs between) is a key and shown cyan, whatever came before
/// the comma; the comma itself is dark grey.
pub proof fn law_string_after_comma_in_object_is_key(c: Seq<char>, i: int, j: int, stack: Seq<bool>, key: bool)
    requires
        0 <= i < j < c.len(),
        c[i] == ',',
        c[j] == '"',
        forall|x: int| i < x < j ==> c[x] == ' ' || c[x] == '\t',
        stack.len() > 0,
        stack.last(),
    ensures
        toks(c, i, stack, key)[0] == Tok::Piece(seq![','], Some(Hue::DarkGray)),
        toks(c, i, stack, key)[if j == i + 1 { 1int } else { 2int }]
            == Tok::Piece(c.subrange(j, str_end(c, j + 1, false)), Some(Hue::Cyan)),
{
    lemma_str_end_bounds(c, j + 1, false);
    assert(stack.len() > 0 && stack.last());
    let rest = toks(c, i + 1, stack, true);
    assert(toks(c, i, stack, key) == seq![Tok::Piece(seq![','], Some(Hue::DarkGray))] + rest);
    let at_j = toks(c, j, stack, true);
    assert(at_j[0] == Tok::Piece(c.subrange(j, str_end(c, j + 1, false)), Some(Hue::Cyan)));
    if j > i + 1 {
        lemma_run_end_bounds(c, i + 1, inline_ws_fn());
        lemma_run_end_stops(c, i + 1, j);
        assert(rest == seq![Tok::Piece(c.subrange(i + 1, j), None)] + at_j);
    }
}

proof fn lemma_run_end_stops(c: Seq<char>, a: int, j: int)
    requires
        0 <= a <= j < c.len(),
        c[j] == '"',
        forall|x: int| a <= x < j ==> c[x] == ' ' || c[x] == '\t',
    ensures
        run_end(c, a, inline_ws_fn()) == j,
    decreases j - a,
{
    if a < j {
        lemma_run_end_stops(c, a + 1, j);
    }
}

/// A string that follows a `:` (with only spaces or tabs between) is a
/// value and shown green.
pub proof fn law_string_after_colon_is_value(c: Seq<char>, i: int, j: int, stack: Seq<bool>, key: bool)
    requires
        0 <= i < j < c.len(),
        c[i] == ':',
        c[j] == '"',
        forall|x: int| i < x < j ==> c[x] == ' ' || c[x] == '\t',
    ensures
        toks(c, i, stack, key)[0] == Tok::Piece(seq![':'], Some(Hue::DarkGray)),
        toks(c, i, stack, key)[if j == i + 1 { 1int } else { 2int }]
            == Tok::Piece(c.subrange(j, str_end(c, j + 1, false)), Some(Hue::Green)),
{
    lemma_str_end_bounds(c, j + 1, false);
    let rest = toks(c, i + 1, stack, false);
    assert(toks(c, i, stack, key) == seq![Tok::Piece(seq![':'], Some(Hue::DarkGray))] + rest);
    let at_j = toks(c, j, stack, false);
    assert(at_j[0] == Tok::Piece(c.subrange(j, str_end(c, j + 1, false)), Some(Hue::Green)));
    if j > i + 1 {
        lemma_run_end_bounds(c, i + 1, inline_ws_fn());
        lemma_run_end_stops(c, i + 1, j);
        assert(rest == seq![Tok::Piece(c.subrange(i + 1, j), None)] + at_j);
    }
}

/// The string right after an object's `{` (with only spaces or tabs
/// between) is its first key and shown cyan.
pub proof fn law_first_string_in_object_is_key(c: Seq<char>, i: int, j: int, stack: Seq<bool>, key: bool)
    requires
        0 <= i < j < c.len(),
        c[i] == '{',
        c[j] == '"',
        forall|x: int| i < x < j ==> c[x] == ' ' || c[x] == '\t',
    ensures
        toks(c, i, stack, key)[if j == i + 1 { 1int } else { 2int }]
            == Tok::Piece(c.subrange(j, str_end(c, j + 1, false)), Some(Hue::Cyan)),
{
    lemma_str_end_bounds(c, j + 1, false);
    let rest = toks(c, i + 1, stack.push(true), true);
    assert(toks(c, i, stack, key) == seq![Tok::Piece(seq!['{'], Some(Hue::White))] + rest);
    let at_j = toks(c, j, stack.push(true), true);
    assert(at_j[0] == Tok::Piece(c.subrange(j, str_end(c, j + 1, false)), Some(Hue::Cyan)));
    if j > i + 1 {
        lemma_run_end_bounds(c, i + 1, inline_ws_fn());
        lemma_run_end_stops(c, i + 1, j);
        assert(rest == seq![Tok::Piece(c.subrange(i + 1, j), None)] + at_j);
    }
}

} // verus!
