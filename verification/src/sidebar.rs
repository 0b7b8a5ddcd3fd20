use vstd::prelude::*;
use crate::items::{Item, Request};
use crate::keys::{Key, KeyPress};
use crate::tree::{item_at_spec, folder_at, lemma_found_in_level, lemma_folder_item_is_level, law_insert_after_finds_item, law_insert_into_folder_finds_item, item_at_path, insert_after, insert_into_folder, remove_from_items, edit_within, remove_step, insert_after_outcome, into_folder_outcome, remove_outcome};

verus! {

/// The paths shown in the sidebar, top to bottom, for the items of a level
/// reached by `prefix`, from position `i` on: each item, followed, when it is
/// an open folder, by what its children show.
pub open spec fn visible_from(items: Seq<Item>, prefix: Seq<usize>, open: Set<Seq<usize>>, i: nat) -> Seq<Seq<usize>>
    decreases items, items.len() - i,
{
    if i >= items.len() {
        Seq::empty()
    } else {
        let p = prefix.push(i as usize);
        let inner = match items[i as int] {
            Item::Folder(f) => if open.contains(p) {
                proof {
                    assert(decreases_to!(items => items[i as int]));
                }
                visible_from(f.items@, p, open, 0)
            } else {
                Seq::empty()
            },
            Item::Request(_) => Seq::empty(),
        };
        seq![p] + inner + visible_from(items, prefix, open, i + 1)
    }
}

/// The set of paths that a list of open-folder paths holds.
pub open spec fn open_set(v: Seq<Vec<usize>>) -> Set<Seq<usize>> {
    Set::new(|p: Seq<usize>| exists|i: int| 0 <= i < v.len() && v[i]@ == p)
}

/// The paths of a list of paths, as sequences.
pub open spec fn paths_view(v: Seq<Vec<usize>>) -> Seq<Seq<usize>> {
    Seq::new(v.len(), |i: int| v[i]@)
}

/// The paths shown in the sidebar for a whole tree, top to bottom.
pub open spec fn visible(items: Seq<Item>, open: Set<Seq<usize>>) -> Seq<Seq<usize>> {
    visible_from(items, Seq::empty(), open, 0)
}

pub(crate) fn copy_path(p: &Vec<usize>) -> (r: Vec<usize>)
    ensures
        r@ == p@,
{
    let mut r: Vec<usize> = Vec::new();
    let mut i: usize = 0;
    while i < p.len()
        invariant
            i <= p.len(),
            r@ == p@.take(i as int),
        decreases p.len() - i,
    {
        r.push(p[i]);
        i += 1;
        assert(r@ =~= p@.take(i as int));
    }
    assert(p@.take(i as int) =~= p@);
    r
}

pub(crate) fn same_path(a: &Vec<usize>, b: &Vec<usize>) -> (r: bool)
    ensures
        r == (a@ == b@),
{
    if a.len() != b.len() {
        return false;
    }
    let mut i: usize = 0;
    while i < a.len()
        invariant
            i <= a.len(),
            a.len() == b.len(),
            a@.take(i as int) == b@.take(i as int),
        decreases a.len() - i,
    {
        if a[i] != b[i] {
            assert(a@[i as int] != b@[i as int]);
            return false;
        }
        i += 1;
        assert(a@.take(i as int) =~= a@.take(i - 1).push(a@[i - 1]));
        assert(b@.take(i as int) =~= b@.take(i - 1).push(b@[i - 1]));
    }
    assert(a@ =~= a@.take(i as int));
    assert(b@ =~= b@.take(i as int));
    true
}

fn is_open(open: &Vec<Vec<usize>>, p: &Vec<usize>) -> (r: bool)
    ensures
        r == open_set(open@).contains(p@),
{
    let mut i: usize = 0;
    while i < open.len()
        invariant
            i <= open.len(),
            forall|j: int| 0 <= j < i ==> open@[j]@ != p@,
        decreases open.len() - i,
    {
        if same_path(&open[i], p) {
            assert(open_set(open@).contains(p@));
            return true;
        }
        i += 1;
    }
    false
}

/// The paths shown for the level reached by `prefix`, in display order.
fn all_paths(items: &Vec<Item>, prefix: &Vec<usize>, open: &Vec<Vec<usize>>) -> (out: Vec<Vec<usize>>)
    ensures
        paths_view(out@) == visible_from(items@, prefix@, open_set(open@), 0),
    decreases items@,
{
    let ghost s = open_set(open@);
    let mut out: Vec<Vec<usize>> = Vec::new();
    let mut i: usize = 0;
    assert(paths_view(out@) + visible_from(items@, prefix@, s, 0) =~= visible_from(items@, prefix@, s, 0));
    while i < items.len()
        invariant
            i <= items.len(),
            s == open_set(open@),
            visible_from(items@, prefix@, s, 0) == paths_view(out@) + visible_from(items@, prefix@, s, i as nat),
        decreases items.len() - i,
    {
        let mut p = copy_path(prefix);
        p.push(i);
        let ghost pv = p@;
        let ghost before = out@;
        let opened = is_open(open, &p);
        out.push(copy_path(&p));
        match &items[i] {
            Item::Folder(f) => {
                if opened {
                    proof {
                        assert(decreases_to!(items@ => items@[i as int]));
                    }
                    let mut inner = all_paths(&f.items, &p, open);
                    out.append(&mut inner);
                }
            },
            Item::Request(_) => {},
        }
        proof {
            let inner_v = match items@[i as int] {
                Item::Folder(f) => if s.contains(pv) {
                    visible_from(f.items@, pv, s, 0)
                } else {
                    Seq::empty()
                },
                Item::Request(_) => Seq::empty(),
            };
            assert(visible_from(items@, prefix@, s, i as nat) == seq![pv] + inner_v + visible_from(items@, prefix@, s, (i + 1) as nat));
            assert(paths_view(out@) =~= paths_view(before) + seq![pv] + inner_v);
        }
        i += 1;
    }
    assert(visible_from(items@, prefix@, s, i as nat) =~= Seq::empty());
    assert(paths_view(out@) + Seq::<Seq<usize>>::empty() =~= paths_view(out@));
    out
}

/// The first position of `p` in `s`, or -1 when `p` does not occur.
pub open spec fn first_pos(s: Seq<Seq<usize>>, p: Seq<usize>) -> int
    decreases s.len(),
{
    if s.len() == 0 {
        -1
    } else if first_pos(s.drop_last(), p) >= 0 {
        first_pos(s.drop_last(), p)
    } else if s.last() == p {
        s.len() - 1
    } else {
        -1
    }
}

/// The path shown right below `p`, if `p` is shown and is not the last.
pub open spec fn next_of(s: Seq<Seq<usize>>, p: Seq<usize>) -> Option<Seq<usize>> {
    let k = first_pos(s, p);
    if k >= 0 && k + 1 < s.len() {
        Some(s[k + 1])
    } else {
        None
    }
}

/// The path shown right above `p`, if `p` is shown and is not the first.
pub open spec fn prev_of(s: Seq<Seq<usize>>, p: Seq<usize>) -> Option<Seq<usize>> {
    let k = first_pos(s, p);
    if k > 0 {
        Some(s[k - 1])
    } else {
        None
    }
}

/// The row `p` is shown on, or 0 when it is not shown.
pub open spec fn flat_pos(s: Seq<Seq<usize>>, p: Seq<usize>) -> int {
    if first_pos(s, p) >= 0 {
        first_pos(s, p)
    } else {
        0
    }
}

/// The path to select once the row `deleted` is gone: the one above it,
/// kept within the rows that remain; none when no rows remain.
pub open spec fn after_delete(s: Seq<Seq<usize>>, deleted: int) -> Seq<usize> {
    if s.len() == 0 {
        Seq::empty()
    } else {
        let above = if deleted >= 1 { deleted - 1 } else { 0 };
        if above < s.len() {
            s[above]
        } else {
            s[s.len() - 1]
        }
    }
}

proof fn lemma_first_pos_bounds(s: Seq<Seq<usize>>, p: Seq<usize>)
    ensures
        -1 <= first_pos(s, p) < s.len(),
        first_pos(s, p) >= 0 ==> s[first_pos(s, p)] == p,
    decreases s.len(),
{
    if s.len() > 0 {
        lemma_first_pos_bounds(s.drop_last(), p);
    }
}

fn position_of(all: &Vec<Vec<usize>>, p: &Vec<usize>) -> (r: Option<usize>)
    ensures
        match r {
            Some(k) => first_pos(paths_view(all@), p@) == k,
            None => first_pos(paths_view(all@), p@) == -1,
        },
{
    let ghost s = paths_view(all@);
    let mut found: Option<usize> = None;
    let mut i: usize = 0;
    while i < all.len()
        invariant
            i <= all.len(),
            s == paths_view(all@),
            match found {
                Some(k) => first_pos(s.take(i as int), p@) == k,
                None => first_pos(s.take(i as int), p@) == -1,
            },
        decreases all.len() - i,
    {
        assert(s.take(i + 1).drop_last() =~= s.take(i as int));
        if found.is_none() && same_path(&all[i], p) {
            found = Some(i);
        }
        i += 1;
    }
    assert(s.take(i as int) =~= s);
    found
}

fn next_path(items: &Vec<Item>, current: &Vec<usize>, open: &Vec<Vec<usize>>) -> (r: Option<Vec<usize>>)
    ensures
        match r {
            Some(q) => next_of(visible(items@, open_set(open@)), current@) == Some(q@),
            None => next_of(visible(items@, open_set(open@)), current@) is None,
        },
{
    let empty: Vec<usize> = Vec::new();
    let all = all_paths(items, &empty, open);
    proof {
        lemma_first_pos_bounds(paths_view(all@), current@);
        assert(paths_view(all@).len() == all@.len());
    }
    match position_of(&all, current) {
        Some(k) => if k < all.len() - 1 {
            Some(copy_path(&all[k + 1]))
        } else {
            None
        },
        None => None,
    }
}

fn prev_path(items: &Vec<Item>, current: &Vec<usize>, open: &Vec<Vec<usize>>) -> (r: Option<Vec<usize>>)
    ensures
        match r {
            Some(q) => prev_of(visible(items@, open_set(open@)), current@) == Some(q@),
            None => prev_of(visible(items@, open_set(open@)), current@) is None,
        },
{
    let empty: Vec<usize> = Vec::new();
    let all = all_paths(items, &empty, open);
    proof {
        lemma_first_pos_bounds(paths_view(all@), current@);
        assert(paths_view(all@).len() == all@.len());
    }
    match position_of(&all, current) {
        Some(k) => if k > 0 {
            Some(copy_path(&all[k - 1]))
        } else {
            None
        },
        None => None,
    }
}

fn flat_position(items: &Vec<Item>, path: &Vec<usize>, open: &Vec<Vec<usize>>) -> (r: usize)
    ensures
        r == flat_pos(visible(items@, open_set(open@)), path@),
{
    let empty: Vec<usize> = Vec::new();
    let all = all_paths(items, &empty, open);
    match position_of(&all, path) {
        Some(k) => k,
        None => 0,
    }
}

fn path_at_flat(items: &Vec<Item>, deleted_pos: usize, open: &Vec<Vec<usize>>) -> (r: Vec<usize>)
    ensures
        r@ == after_delete(visible(items@, open_set(open@)), deleted_pos as int),
{
    let empty: Vec<usize> = Vec::new();
    let all = all_paths(items, &empty, open);
    if all.len() == 0 {
        return Vec::new();
    }
    let above = if deleted_pos >= 1 { deleted_pos - 1 } else { 0 };
    let target = if above < all.len() { above } else { all.len() - 1 };
    copy_path(&all[target])
}

fn open_insert(open: &mut Vec<Vec<usize>>, p: &Vec<usize>)
    ensures
        open_set(final(open)@) == open_set(old(open)@).insert(p@),
{
    if !is_open(open, p) {
        let ghost before = open@;
        open.push(copy_path(p));
        assert(open_set(open@) =~= open_set(before).insert(p@)) by {
            assert forall|q: Seq<usize>| open_set(before).insert(p@).contains(q) implies open_set(open@).contains(q) by {
                if q == p@ {
                    assert(open@[before.len() as int]@ == q);
                } else {
                    let i = choose|i: int| 0 <= i < before.len() && before[i]@ == q;
                    assert(open@[i]@ == q);
                }
            }
        }
    } else {
        assert(open_set(open@) =~= open_set(open@).insert(p@));
    }
}

fn open_remove(open: &mut Vec<Vec<usize>>, p: &Vec<usize>)
    ensures
        open_set(final(open)@) == open_set(old(open)@).remove(p@),
{
    let ghost before = open@;
    let mut kept: Vec<Vec<usize>> = Vec::new();
    let mut i: usize = 0;
    while i < open.len()
        invariant
            i <= open.len(),
            open@ == before,
            forall|q: Seq<usize>| open_set(kept@).contains(q) <==> (q != p@ && exists|j: int| 0 <= j < i && before[j]@ == q),
        decreases open.len() - i,
    {
        let ghost kept_before = kept@;
        if !same_path(&open[i], p) {
            kept.push(copy_path(&open[i]));
        }
        proof {
            assert forall|q: Seq<usize>| open_set(kept@).contains(q) <==> (q != p@ && exists|j: int| 0 <= j < i + 1 && before[j]@ == q) by {
                if open_set(kept@).contains(q) {
                    let k = choose|k: int| 0 <= k < kept@.len() && kept@[k]@ == q;
                    if k < kept_before.len() {
                        assert(open_set(kept_before).contains(q));
                    }
                }
                if q != p@ && exists|j: int| 0 <= j < i + 1 && before[j]@ == q {
                    let j = choose|j: int| 0 <= j < i + 1 && before[j]@ == q;
                    if j < i {
                        assert(open_set(kept_before).contains(q));
                        let k = choose|k: int| 0 <= k < kept_before.len() && kept_before[k]@ == q;
                        assert(kept@[k]@ == q);
                    } else {
                        assert(kept@[kept@.len() - 1]@ == q);
                    }
                }
            }
        }
        i += 1;
    }
    *open = kept;
    assert(open_set(open@) =~= open_set(before).remove(p@));
}

/// The sidebar: the request tree, the selected path, the folders shown open
/// and an item cut and waiting to be pasted.
pub struct Sidebar {
    pub items: Vec<Item>,
    pub selected_path: Vec<usize>,
    /// The paths of the folders shown open.
    pub open_folders: Vec<Vec<usize>>,
    pub clipboard: Option<Item>,
}

impl Sidebar {
    /// The folders shown open, by path.
    pub open spec fn opened(&self) -> Set<Seq<usize>> {
        open_set(self.open_folders@)
    }

    /// The paths shown, top to bottom.
    pub open spec fn shown(&self) -> Seq<Seq<usize>> {
        visible(self.items@, self.opened())
    }

    /// A sidebar over `items`, with the first item selected (nothing when
    /// there are no items), every folder closed and nothing cut.
    pub fn new(items: Vec<Item>) -> (s: Self)
        ensures
            s.items@ == items@,
            s.selected_path@ == (if items@.len() == 0 { Seq::<usize>::empty() } else { seq![0usize] }),
            s.opened() == Set::<Seq<usize>>::empty(),
            s.clipboard is None,
            selection_valid(s),
    {
        let mut selected_path: Vec<usize> = Vec::new();
        if items.len() > 0 {
            selected_path.push(0);
        }
        let s = Sidebar { items, selected_path, open_folders: Vec::new(), clipboard: None };
        assert(s.opened() =~= Set::<Seq<usize>>::empty());
        s
    }

    /// The item at `path`, if there is one.
    pub fn item_at(&self, path: &[usize]) -> (r: Option<&Item>)
        ensures
            r == (match item_at_spec(self.items@, path@) {
                Some(it) => Some(&it),
                None => None::<&Item>,
            }),
    {
        item_at_path(&self.items, path)
    }

    /// Acts on a key press (see `key_effect`) and tells whether the tree
    /// changed, so that the caller saves it.
    pub fn handle_event(&mut self, key: &KeyPress) -> (changed: bool)
        ensures
            key_effect(*old(self), *final(self), key.key, changed),
    {
        match key.key {
            Key::Char('j') | Key::Down => {
                self.select_next();
                false
            },
            Key::Char('k') | Key::Up => {
                self.select_prev();
                false
            },
            Key::Enter => {
                self.toggle_selected();
                false
            },
            Key::Char('d') => self.remove_selected().is_ok(),
            Key::Char('x') => self.cut_selected(),
            Key::Char('p') => self.paste_clipboard(),
            _ => false,
        }
    }

    /// Adds `item` near `near_path`: inside, at the end, when `near_path`
    /// leads to a folder (which is then shown open), else right after it.
    /// Returns the path where the item landed.
    pub fn add_item(&mut self, near_path: Vec<usize>, item: Item) -> (r: Result<Vec<usize>, &'static str>)
        ensures
            added(*old(self), *final(self), near_path@, item, r),
            final(self).selected_path == old(self).selected_path,
            final(self).clipboard == old(self).clipboard,
    {
        let is_folder = match item_at_path(&self.items, near_path.as_slice()) {
            Some(Item::Folder(_)) => true,
            _ => false,
        };
        if is_folder {
            open_insert(&mut self.open_folders, &near_path);
            insert_into_folder(&mut self.items, near_path.as_slice(), item)
        } else {
            insert_after(&mut self.items, near_path.as_slice(), item)
        }
    }

    fn take_selected(&mut self) -> (r: Result<Item, &'static str>)
        ensures
            took_selected(*old(self), *final(self)),
            final(self).clipboard == old(self).clipboard,
            remove_outcome(old(self).items@, final(self).items@, old(self).selected_path@, r),
    {
        let path = copy_path(&self.selected_path);
        let flat = flat_position(&self.items, &path, &self.open_folders);
        let r = remove_from_items(&mut self.items, path.as_slice());
        if r.is_ok() {
            self.selected_path = path_at_flat(&self.items, flat, &self.open_folders);
        }
        r
    }

    /// Deletes the selected item; the selection moves to the row above.
    /// Fails, changing nothing, when the selection leads to no item.
    pub fn remove_selected(&mut self) -> (r: Result<(), &'static str>)
        ensures
            took_selected(*old(self), *final(self)),
            final(self).clipboard == old(self).clipboard,
            r is Ok <==> selection_found(*old(self)),
            old(self).selected_path@.len() == 0 ==> r == Err::<(), &str>("Path is empty"),
            old(self).selected_path@.len() > 0 && !selection_found(*old(self))
                ==> r == Err::<(), &str>("Path out of bounds"),
    {
        match self.take_selected() {
            Ok(_) => Ok(()),
            Err(e) => Err(e),
        }
    }

    /// Cuts the selected item into the clipboard (replacing what was there);
    /// the selection moves to the row above. Returns whether anything was
    /// cut.
    pub fn cut_selected(&mut self) -> (changed: bool)
        ensures
            cut(*old(self), *final(self), changed),
    {
        match self.take_selected() {
            Ok(it) => {
                self.clipboard = Some(it);
                true
            },
            Err(_) => false,
        }
    }

    /// Pastes the clipboard's item near the selection, as `add_item` does,
    /// and selects it where it landed. The clipboard is emptied even when
    /// the item finds no place. Returns whether the tree changed.
    pub fn paste_clipboard(&mut self) -> (changed: bool)
        ensures
            pasted(*old(self), *final(self), changed),
    {
        if self.clipboard.is_none() {
            return false;
        }
        let ghost before = *self;
        match self.clipboard.take() {
            None => false,
            Some(it) => {
                let near = copy_path(&self.selected_path);
                let r = self.add_item(near, it);
                let ghost rr = r;
                let changed = match r {
                    Ok(p) => {
                        self.selected_path = p;
                        true
                    },
                    Err(_) => false,
                };
                assert(added(before, *self, before.selected_path@, it, rr));
                assert(self.selected_path@ == match rr {
                    Ok(p) => p@,
                    Err(_) => before.selected_path@,
                });
                changed
            },
        }
    }

    /// Moves the selection one row down, when there is a row below.
    pub fn select_next(&mut self)
        ensures
            moved_down(*old(self), *final(self)),
    {
        if let Some(next) = next_path(&self.items, &self.selected_path, &self.open_folders) {
            self.selected_path = next;
        }
    }

    /// Moves the selection one row up, when there is a row above.
    pub fn select_prev(&mut self)
        ensures
            moved_up(*old(self), *final(self)),
    {
        if let Some(prev) = prev_path(&self.items, &self.selected_path, &self.open_folders) {
            self.selected_path = prev;
        }
    }

    /// Opens the selected folder, or closes it when it is open; does nothing
    /// when the selection is not a folder.
    pub fn toggle_selected(&mut self)
        ensures
            toggled_selection(*old(self), *final(self)),
    {
        let is_folder = match item_at_path(&self.items, &self.selected_path) {
            Some(Item::Folder(_)) => true,
            _ => false,
        };
        if is_folder {
            if is_open(&self.open_folders, &self.selected_path) {
                open_remove(&mut self.open_folders, &self.selected_path);
            } else {
                open_insert(&mut self.open_folders, &self.selected_path);
            }
        }
    }
}

/// `open` with `p` taken out when it is in, put in otherwise.
pub open spec fn toggled(open: Set<Seq<usize>>, p: Seq<usize>) -> Set<Seq<usize>> {
    if open.contains(p) {
        open.remove(p)
    } else {
        open.insert(p)
    }
}

/// The selection moved one row down (or stayed, on the last row or when it
/// is not shown); nothing else changed.
pub open spec fn moved_down(old: Sidebar, new: Sidebar) -> bool {
    &&& new.items == old.items
    &&& new.opened() == old.opened()
    &&& new.clipboard == old.clipboard
    &&& new.selected_path@ == match next_of(old.shown(), old.selected_path@) {
        Some(q) => q,
        None => old.selected_path@,
    }
}

/// The selection moved one row up (or stayed, on the first row or when it is
/// not shown); nothing else changed.
pub open spec fn moved_up(old: Sidebar, new: Sidebar) -> bool {
    &&& new.items == old.items
    &&& new.opened() == old.opened()
    &&& new.clipboard == old.clipboard
    &&& new.selected_path@ == match prev_of(old.shown(), old.selected_path@) {
        Some(q) => q,
        None => old.selected_path@,
    }
}

/// The selected folder was opened or closed (nothing happened when the
/// selection is not a folder); nothing else changed.
pub open spec fn toggled_selection(old: Sidebar, new: Sidebar) -> bool {
    &&& new.items == old.items
    &&& new.selected_path == old.selected_path
    &&& new.clipboard == old.clipboard
    &&& new.opened() == if item_at_spec(old.items@, old.selected_path@) matches Some(Item::Folder(_)) {
        toggled(old.opened(), old.selected_path@)
    } else {
        old.opened()
    }
}

/// What adding `item` near `near` does to the tree and the open folders: a
/// folder at `near` is opened and receives the item at its end; otherwise the
/// item goes right after `near`.
pub open spec fn added(old: Sidebar, new: Sidebar, near: Seq<usize>, item: Item, r: Result<Vec<usize>, &str>) -> bool {
    if item_at_spec(old.items@, near) matches Some(Item::Folder(_)) {
        &&& new.opened() == old.opened().insert(near)
        &&& into_folder_outcome(old.items@, new.items@, near, item, r)
    } else {
        &&& new.opened() == old.opened()
        &&& insert_after_outcome(old.items@, new.items@, near, item, r)
    }
}

/// What taking the selected item out does: when the selection leads to an
/// item, it leaves the tree and the selection goes to the row above the one
/// it was shown on (see `after_delete`); otherwise nothing changes. The open
/// folders stay as they are.
pub open spec fn took_selected(old: Sidebar, new: Sidebar) -> bool {
    let sel = old.selected_path@;
    &&& new.opened() == old.opened()
    &&& if sel.len() > 0 && item_at_spec(old.items@, sel) is Some {
        &&& edit_within(old.items@, new.items@, sel.drop_last(), remove_step(sel.last()))
        &&& new.selected_path@ == after_delete(visible(new.items@, old.opened()), flat_pos(old.shown(), sel))
    } else {
        &&& new.items@ == old.items@
        &&& new.selected_path == old.selected_path
    }
}

/// Whether the selection leads to an item.
pub open spec fn selection_found(s: Sidebar) -> bool {
    s.selected_path@.len() > 0 && item_at_spec(s.items@, s.selected_path@) is Some
}

proof fn lemma_visible_shape(items: Seq<Item>, prefix: Seq<usize>, open: Set<Seq<usize>>, i: nat)
    requires
        items.len() <= usize::MAX,
    ensures
        forall|k: int| 0 <= k < visible_from(items, prefix, open, i).len() ==> {
            let q = #[trigger] visible_from(items, prefix, open, i)[k];
            &&& q.len() > prefix.len()
            &&& q.subrange(0, prefix.len() as int) == prefix
            &&& i <= q[prefix.len() as int] < items.len()
        },
    decreases items, items.len() - i,
{
    if i < items.len() {
        let p = prefix.push(i as usize);
        let rest = visible_from(items, prefix, open, i + 1);
        lemma_visible_shape(items, prefix, open, i + 1);
        let inner = match items[i as int] {
            Item::Folder(f) => if open.contains(p) {
                assert(decreases_to!(items => items[i as int]));
                assert(f.items@.len() == f.items.len());
                lemma_visible_shape(f.items@, p, open, 0);
                visible_from(f.items@, p, open, 0)
            } else {
                Seq::empty()
            },
            Item::Request(_) => Seq::empty(),
        };
        let all = visible_from(items, prefix, open, i);
        assert(all == seq![p] + inner + rest);
        assert forall|k: int| 0 <= k < all.len() implies {
            let q = #[trigger] all[k];
            &&& q.len() > prefix.len()
            &&& q.subrange(0, prefix.len() as int) == prefix
            &&& i <= q[prefix.len() as int] < items.len()
        } by {
            let q = all[k];
            if k == 0 {
                assert(q == p);
                assert(p.subrange(0, prefix.len() as int) =~= prefix);
            } else if k < 1 + inner.len() {
                assert(q == inner[k - 1]);
                assert(q.subrange(0, p.len() as int) == p);
                assert(q.subrange(0, prefix.len() as int) =~= p.subrange(0, prefix.len() as int));
                assert(p.subrange(0, prefix.len() as int) =~= prefix);
                assert(q[prefix.len() as int] == q.subrange(0, p.len() as int)[prefix.len() as int]);
            } else {
                assert(q == rest[k - 1 - inner.len()]);
            }
        }
    }
}

proof fn lemma_visible_distinct(items: Seq<Item>, prefix: Seq<usize>, open: Set<Seq<usize>>, i: nat)
    requires
        items.len() <= usize::MAX,
    ensures
        visible_from(items, prefix, open, i).no_duplicates(),
    decreases items, items.len() - i,
{
    if i < items.len() {
        let p = prefix.push(i as usize);
        let rest = visible_from(items, prefix, open, i + 1);
        lemma_visible_distinct(items, prefix, open, i + 1);
        lemma_visible_shape(items, prefix, open, i + 1);
        let inner = match items[i as int] {
            Item::Folder(f) => if open.contains(p) {
                assert(decreases_to!(items => items[i as int]));
                assert(f.items@.len() == f.items.len());
                lemma_visible_distinct(f.items@, p, open, 0);
                lemma_visible_shape(f.items@, p, open, 0);
                visible_from(f.items@, p, open, 0)
            } else {
                Seq::empty()
            },
            Item::Request(_) => Seq::empty(),
        };
        assert(visible_from(items, prefix, open, i) == seq![p] + inner + rest);
        assert forall|a: int, b: int| 0 <= a < inner.len() && 0 <= b < rest.len() implies inner[a] != rest[b] by {
            let x = inner[a];
            let y = rest[b];
            assert(x.subrange(0, p.len() as int) == p);
            assert(x[prefix.len() as int] == x.subrange(0, p.len() as int)[prefix.len() as int]);
            assert(y[prefix.len() as int] >= i + 1);
        }
        vstd::seq_lib::lemma_no_dup_in_concat(inner, rest);
        assert forall|b: int| 0 <= b < (inner + rest).len() implies seq![p][0] != (inner + rest)[b] by {
            if b < inner.len() {
                assert((inner + rest)[b] == inner[b]);
            } else {
                let y = rest[b - inner.len()];
                assert((inner + rest)[b] == y);
                assert(y[prefix.len() as int] >= i + 1);
            }
        }
        vstd::seq_lib::lemma_no_dup_in_concat(seq![p], inner + rest);
        assert(seq![p] + inner + rest =~= seq![p] + (inner + rest));
    }
}

proof fn lemma_first_pos_of_distinct(s: Seq<Seq<usize>>, j: int)
    requires
        s.no_duplicates(),
        0 <= j < s.len(),
    ensures
        first_pos(s, s[j]) == j,
    decreases s.len(),
{
    lemma_first_pos_bounds(s.drop_last(), s[j]);
    if j < s.len() - 1 {
        lemma_first_pos_of_distinct(s.drop_last(), j);
    } else {
        let k = first_pos(s.drop_last(), s[j]);
        if k >= 0 {
            assert(s[k] == s[j]);
        }
    }
}

/// Moving the selection down a row and then up a row comes back to where it
/// started, whenever there was a row below.
pub proof fn law_down_then_up_returns(a: Sidebar, b: Sidebar, c: Sidebar)
    requires
        moved_down(a, b),
        moved_up(b, c),
        next_of(a.shown(), a.selected_path@) is Some,
    ensures
        c.selected_path@ == a.selected_path@,
{
    let s = a.shown();
    assert(a.items@.len() == a.items.len());
    lemma_visible_distinct(a.items@, Seq::empty(), a.opened(), 0);
    lemma_first_pos_bounds(s, a.selected_path@);
    let k = first_pos(s, a.selected_path@);
    lemma_first_pos_of_distinct(s, k + 1);
    assert(b.shown() == s);
}

/// Opening or closing the selected folder twice leaves the open folders as
/// they were.
pub proof fn law_toggle_twice_restores(a: Sidebar, b: Sidebar, c: Sidebar)
    requires
        toggled_selection(a, b),
        toggled_selection(b, c),
    ensures
        c.opened() == a.opened(),
        c.items == a.items,
        c.selected_path == a.selected_path,
{
    let p = a.selected_path@;
    if item_at_spec(a.items@, p) matches Some(Item::Folder(_)) {
        if a.opened().contains(p) {
            assert(c.opened() =~= a.opened());
        } else {
            assert(c.opened() =~= a.opened());
        }
    }
}

/// What cutting does: the selected item is taken out (see `took_selected`)
/// and becomes the clipboard; `changed` tells whether there was one.
pub open spec fn cut(old: Sidebar, new: Sidebar, changed: bool) -> bool {
    &&& took_selected(old, new)
    &&& changed == selection_found(old)
    &&& changed ==> new.clipboard == item_at_spec(old.items@, old.selected_path@)
    &&& !changed ==> new.clipboard == old.clipboard
}

/// What pasting does: with an empty clipboard nothing; otherwise the
/// clipboard's item is added near the selection (see `added`), the clipboard
/// is emptied and, when the item found a place, it is selected. `changed`
/// tells whether the tree changed.
pub open spec fn pasted(old: Sidebar, new: Sidebar, changed: bool) -> bool {
    match old.clipboard {
        None => new == old && !changed,
        Some(it) => exists|r: Result<Vec<usize>, &str>| {
            &&& #[trigger] added(old, new, old.selected_path@, it, r)
            &&& new.clipboard is None
            &&& changed == r is Ok
            &&& new.selected_path@ == match r {
                Ok(p) => p@,
                Err(_) => old.selected_path@,
            }
        },
    }
}

/// What a key does to the sidebar: `j`/Down and `k`/Up move the selection,
/// Enter opens or closes the selected folder, `d` deletes the selected item,
/// `x` cuts it and `p` pastes the clipboard; other keys do nothing.
/// `changed` tells whether the tree changed and should be saved.
pub open spec fn key_effect(old: Sidebar, new: Sidebar, key: Key, changed: bool) -> bool {
    if key == Key::Char('j') || key == Key::Down {
        moved_down(old, new) && !changed
    } else if key == Key::Char('k') || key == Key::Up {
        moved_up(old, new) && !changed
    } else if key == Key::Enter {
        toggled_selection(old, new) && !changed
    } else if key == Key::Char('d') {
        &&& took_selected(old, new)
        &&& new.clipboard == old.clipboard
        &&& changed == selection_found(old)
    } else if key == Key::Char('x') {
        cut(old, new, changed)
    } else if key == Key::Char('p') {
        pasted(old, new, changed)
    } else {
        new == old && !changed
    }
}

} // verus!

verus! {

/// The selection leads to an item whenever there are items, and is empty
/// when there are none.
pub open spec fn selection_valid(s: Sidebar) -> bool {
    &&& s.items@.len() == 0 ==> s.selected_path@.len() == 0
    &&& s.items@.len() > 0 ==> item_at_spec(s.items@, s.selected_path@) is Some
}

/// Every level of the tree holds fewer than `usize::MAX` items, so that
/// one more still has an index.
pub open spec fn levels_fit(items: Seq<Item>) -> bool {
    forall|d: Seq<usize>| #[trigger] folder_at(items, d) matches Some(l) ==> l.len() < usize::MAX
}

proof fn lemma_folder_at_push(root: Seq<Item>, dir: Seq<usize>, i: usize)
    requires
        folder_at(root, dir) is Some,
        i < folder_at(root, dir)->0.len(),
    ensures
        folder_at(root, dir.push(i)) == (match folder_at(root, dir)->0[i as int] {
            Item::Folder(f) => Some(f.items@),
            Item::Request(_) => None::<Seq<Item>>,
        }),
    decreases dir.len(),
{
    if dir.len() == 0 {
        assert(dir.push(i) =~= seq![i]);
        assert(seq![i].drop_first() =~= Seq::<usize>::empty());
        match root[i as int] {
            Item::Folder(f) => {
                assert(folder_at(f.items@, Seq::<usize>::empty()) == Some(f.items@));
                assert(folder_at(root, seq![i]) == folder_at(f.items@, seq![i].drop_first()));
            },
            Item::Request(_) => {},
        }
    } else {
        assert(dir.push(i).drop_first() =~= dir.drop_first().push(i));
        assert(dir.push(i)[0] == dir[0]);
        match root[dir[0] as int] {
            Item::Folder(f) => lemma_folder_at_push(f.items@, dir.drop_first(), i),
            Item::Request(_) => {},
        }
    }
}

/// Every path the sidebar shows for the level at `prefix` of `root` leads to
/// an item of `root`.
proof fn lemma_visible_found(root: Seq<Item>, items: Seq<Item>, prefix: Seq<usize>, open: Set<Seq<usize>>, i: nat)
    requires
        folder_at(root, prefix) == Some(items),
        items.len() <= usize::MAX,
    ensures
        forall|k: int| 0 <= k < visible_from(items, prefix, open, i).len()
            ==> item_at_spec(root, #[trigger] visible_from(items, prefix, open, i)[k]) is Some,
    decreases items, items.len() - i,
{
    if i < items.len() {
        let p = prefix.push(i as usize);
        let rest = visible_from(items, prefix, open, i + 1);
        lemma_visible_found(root, items, prefix, open, i + 1);
        lemma_found_in_level(root, prefix, i as usize);
        lemma_folder_at_push(root, prefix, i as usize);
        let inner = match items[i as int] {
            Item::Folder(f) => if open.contains(p) {
                assert(decreases_to!(items => items[i as int]));
                assert(f.items@.len() == f.items.len());
                lemma_visible_found(root, f.items@, p, open, 0);
                visible_from(f.items@, p, open, 0)
            } else {
                Seq::empty()
            },
            Item::Request(_) => Seq::empty(),
        };
        let all = visible_from(items, prefix, open, i);
        assert(all == seq![p] + inner + rest);
        assert forall|k: int| 0 <= k < all.len() implies item_at_spec(root, #[trigger] all[k]) is Some by {
            if k == 0 {
            } else if k < 1 + inner.len() {
                assert(all[k] == inner[k - 1]);
            } else {
                assert(all[k] == rest[k - 1 - inner.len()]);
            }
        }
    }
}

proof fn lemma_shown_found(items: Seq<Item>, open: Set<Seq<usize>>)
    requires
        items.len() <= usize::MAX,
    ensures
        forall|k: int| 0 <= k < visible(items, open).len() ==> item_at_spec(items, #[trigger] visible(items, open)[k]) is Some,
        items.len() > 0 ==> visible(items, open).len() > 0,
{
    lemma_visible_found(items, items, Seq::empty(), open, 0);
}

/// Whatever key the sidebar takes, the selection keeps leading to an item
/// while there are items, and is empty when none are left.
pub proof fn law_selection_stays_valid(o: Sidebar, n: Sidebar, key: Key, changed: bool)
    requires
        selection_valid(o),
        levels_fit(o.items@),
        key_effect(o, n, key, changed),
    ensures
        selection_valid(n),
{
    assert(o.items@.len() == o.items.len());
    assert(n.items@.len() == n.items.len());
    lemma_shown_found(o.items@, o.opened());
    lemma_shown_found(n.items@, o.opened());
    if key == Key::Char('j') || key == Key::Down || key == Key::Char('k') || key == Key::Up {
        lemma_first_pos_bounds(o.shown(), o.selected_path@);
    } else if key == Key::Char('p') {
        if let Some(it) = o.clipboard {
            let r = choose|r: Result<Vec<usize>, &str>| {
                &&& #[trigger] added(o, n, o.selected_path@, it, r)
                &&& n.clipboard is None
                &&& changed == r is Ok
                &&& n.selected_path@ == match r {
                    Ok(p) => p@,
                    Err(_) => o.selected_path@,
                }
            };
            let near = o.selected_path@;
            if r is Ok {
                if item_at_spec(o.items@, near) matches Some(Item::Folder(_)) {
                    lemma_folder_item_is_level(o.items@, near);
                    assert(folder_at(o.items@, near)->0.len() < usize::MAX);
                    law_insert_into_folder_finds_item(o.items@, n.items@, near, it);
                } else if near.len() == 0 {
                    assert(folder_at(o.items@, near)->0.len() < usize::MAX);
                    assert(n.items@ == o.items@.push(it));
                    assert(item_at_spec(n.items@, seq![o.items@.len() as usize]) == Some(it));
                } else {
                    let dir = near.drop_last();
                    assert(folder_at(o.items@, dir)->0.len() < usize::MAX);
                    law_insert_after_finds_item(o.items@, n.items@, dir, near.last(), it);
                }
            }
        }
    }
}

} // verus!
