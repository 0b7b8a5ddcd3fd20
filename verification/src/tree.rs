use vstd::prelude::*;
use crate::items::{Item, Request};

verus! {

/// The item `path` leads to: its first index picks an item of `items`,
/// each further index a child of the folder reached so far.
pub open spec fn item_at_spec(items: Seq<Item>, path: Seq<usize>) -> Option<Item>
    decreases path.len(),
{
    if path.len() == 0 || path[0] >= items.len() {
        None
    } else if path.len() == 1 {
        Some(items[path[0] as int])
    } else {
        match items[path[0] as int] {
            Item::Folder(f) => item_at_spec(f.items@, path.drop_first()),
            Item::Request(_) => None,
        }
    }
}

fn item_at_from<'a>(items: &'a Vec<Item>, path: &[usize], k: usize) -> (r: Option<&'a Item>)
    requires
        k <= path@.len(),
    ensures
        r == (match item_at_spec(items@, path@.skip(k as int)) {
            Some(it) => Some(&it),
            None => None::<&Item>,
        }),
    decreases path@.len() - k,
{
    let ghost rest = path@.skip(k as int);
    if k >= path.len() || path[k] >= items.len() {
        return None;
    }
    let i = path[k];
    if k + 1 == path.len() {
        return Some(&items[i]);
    }
    assert(rest.drop_first() =~= path@.skip(k + 1));
    match &items[i] {
        Item::Folder(f) => item_at_from(&f.items, path, k + 1),
        Item::Request(_) => None,
    }
}

/// The item at `path`, if there is one.
pub fn item_at_path<'a>(items: &'a Vec<Item>, path: &[usize]) -> (r: Option<&'a Item>)
    ensures
        r == (match item_at_spec(items@, path@) {
            Some(it) => Some(&it),
            None => None::<&Item>,
        }),
{
    assert(path@.skip(0) =~= path@);
    item_at_from(items, path, 0)
}

/// The items of the folder that `dir` leads to: the top level when `dir` is
/// empty, else the children of the folder at `dir`.
pub open spec fn folder_at(items: Seq<Item>, dir: Seq<usize>) -> Option<Seq<Item>>
    decreases dir.len(),
{
    if dir.len() == 0 {
        Some(items)
    } else if dir[0] >= items.len() {
        None
    } else {
        match items[dir[0] as int] {
            Item::Folder(f) => folder_at(f.items@, dir.drop_first()),
            Item::Request(_) => None,
        }
    }
}

/// `new` is `old` changed inside the folder that `dir` leads to, and nowhere
/// else: the items of that folder go from `o` to `n` with `step(o, n)`, every
/// folder on the way keeps its name, and every other item stays as it was.
pub open spec fn edit_within(
    old: Seq<Item>,
    new: Seq<Item>,
    dir: Seq<usize>,
    step: spec_fn(Seq<Item>, Seq<Item>) -> bool,
) -> bool
    decreases dir.len(),
{
    if dir.len() == 0 {
        step(old, new)
    } else {
        let h = dir[0] as int;
        &&& 0 <= h < old.len()
        &&& new.len() == old.len()
        &&& forall|j: int| 0 <= j < old.len() && j != h ==> new[j] == old[j]
        &&& match old[h] {
            Item::Folder(f) => match new[h] {
                Item::Folder(g) => g.name == f.name && edit_within(
                    f.items@,
                    g.items@,
                    dir.drop_first(),
                    step,
                ),
                Item::Request(_) => false,
            },
            Item::Request(_) => false,
        }
    }
}

/// Where an item inserted after position `h` of a level of `len` items lands:
/// right after it, or at the end when `h` is past the end.
pub open spec fn after_pos(h: usize, len: nat) -> int {
    if h < len {
        h + 1
    } else {
        len as int
    }
}

/// The level gains `item` right after position `h`.
pub open spec fn insert_step(h: usize, item: Item) -> spec_fn(Seq<Item>, Seq<Item>) -> bool {
    |o: Seq<Item>, n: Seq<Item>| n == o.insert(after_pos(h, o.len()), item)
}

/// The level gains `item` at its end.
pub open spec fn append_step(item: Item) -> spec_fn(Seq<Item>, Seq<Item>) -> bool {
    |o: Seq<Item>, n: Seq<Item>| n == o.push(item)
}

/// The item at position `i` of the level becomes the request `req`.
pub open spec fn replace_step(i: usize, req: Request) -> spec_fn(Seq<Item>, Seq<Item>) -> bool {
    |o: Seq<Item>, n: Seq<Item>| n == o.update(i as int, Item::Request(req))
}

/// The item at position `i` leaves the level.
pub open spec fn remove_step(i: usize) -> spec_fn(Seq<Item>, Seq<Item>) -> bool {
    |o: Seq<Item>, n: Seq<Item>| n == o.remove(i as int)
}

/// The level keeps exactly the items it had.
pub open spec fn keep_step() -> spec_fn(Seq<Item>, Seq<Item>) -> bool {
    |o: Seq<Item>, n: Seq<Item>| n == o
}

/// What `insert_after` does: with an empty `near` path the item goes to the
/// end of the top level; otherwise it goes right after the item `near` leads
/// to (see `insert_step`), and the call fails, changing nothing, when the
/// indices before the last do not lead to a folder.
pub open spec fn insert_after_outcome(
    old: Seq<Item>,
    new: Seq<Item>,
    near: Seq<usize>,
    item: Item,
    r: Result<Vec<usize>, &str>,
) -> bool {
    if near.len() == 0 {
        &&& r is Ok
        &&& new == old.push(item)
        &&& r->Ok_0@ == seq![old.len() as usize]
    } else {
        let dir = near.drop_last();
        match folder_at(old, dir) {
            Some(o) => {
                &&& r is Ok
                &&& edit_within(old, new, dir, insert_step(near.last(), item))
                &&& r->Ok_0@ == dir.push(after_pos(near.last(), o.len()) as usize)
            },
            None => {
                &&& r is Err
                &&& r->Err_0@ == "path points into a non-folder"@
                &&& new == old
            },
        }
    }
}

/// What `insert_into_folder` does: the item goes to the end of the folder
/// `path` leads to (the top level for an empty path); the call fails,
/// changing nothing, when `path` does not lead to a folder, with a message
/// that tells whether only the last index was wrong.
pub open spec fn into_folder_outcome(
    old: Seq<Item>,
    new: Seq<Item>,
    path: Seq<usize>,
    item: Item,
    r: Result<Vec<usize>, &str>,
) -> bool {
    match folder_at(old, path) {
        Some(o) => {
            &&& r is Ok
            &&& edit_within(old, new, path, append_step(item))
            &&& r->Ok_0@ == path.push(o.len() as usize)
        },
        None => {
            &&& r is Err
            &&& new == old
            &&& folder_at(old, path.drop_last()) is Some ==> r->Err_0@ == "path does not point to a folder"@
            &&& folder_at(old, path.drop_last()) is None ==> r->Err_0@ == "path points into a non-folder"@
        },
    }
}

/// What `remove_from_items` does: the item `path` leads to leaves its level
/// and is returned; the call fails, changing nothing, for an empty path or
/// one that leads nowhere.
pub open spec fn remove_outcome(old: Seq<Item>, new: Seq<Item>, path: Seq<usize>, r: Result<Item, &str>) -> bool {
    if path.len() == 0 {
        r == Err::<Item, &str>("Path is empty") && new == old
    } else {
        match item_at_spec(old, path) {
            Some(it) => {
                &&& r == Ok::<Item, &str>(it)
                &&& edit_within(old, new, path.drop_last(), remove_step(path.last()))
            },
            None => r == Err::<Item, &str>("Path out of bounds") && new == old,
        }
    }
}

/// Whether the folder that `path[k..end]` leads to exists.
fn folder_exists(items: &Vec<Item>, path: &[usize], k: usize, end: usize) -> (r: bool)
    requires
        k <= end <= path@.len(),
    ensures
        r == folder_at(items@, path@.subrange(k as int, end as int)) is Some,
    decreases end - k,
{
    let ghost dir = path@.subrange(k as int, end as int);
    if k == end {
        return true;
    }
    let h = path[k];
    if h >= items.len() {
        return false;
    }
    assert(dir.drop_first() =~= path@.subrange(k + 1, end as int));
    match &items[h] {
        Item::Folder(f) => folder_exists(&f.items, path, k + 1, end),
        Item::Request(_) => false,
    }
}

/// What `item_at_spec` finds at a non-empty path: the entry of the level that
/// the path without its last index leads to.
pub open spec fn entry_of(items: Seq<Item>, path: Seq<usize>) -> Option<Item> {
    match folder_at(items, path.drop_last()) {
        Some(o) => if path.last() < o.len() {
            Some(o[path.last() as int])
        } else {
            None
        },
        None => None,
    }
}

proof fn lemma_item_at_entry(items: Seq<Item>, path: Seq<usize>)
    requires
        path.len() >= 1,
    ensures
        item_at_spec(items, path) == entry_of(items, path),
    decreases path.len(),
{
    if path.len() > 1 && path[0] < items.len() {
        match items[path[0] as int] {
            Item::Folder(f) => {
                assert(path.drop_first().drop_last() =~= path.drop_last().drop_first());
                assert(path.drop_first().last() == path.last());
                lemma_item_at_entry(f.items@, path.drop_first());
            },
            Item::Request(_) => {},
        }
    }
}

fn insert_after_rec(items: &mut Vec<Item>, near: &[usize], k: usize, item: Item) -> (p: Vec<usize>)
    requires
        k < near@.len(),
        folder_at(old(items)@, near@.subrange(k as int, near@.len() - 1)) is Some,
    ensures
        ({
            let dir = near@.subrange(k as int, near@.len() - 1);
            let o = folder_at(old(items)@, dir)->0;
            &&& edit_within(old(items)@, final(items)@, dir, insert_step(near@.last(), item))
            &&& p@ == dir.push(after_pos(near@.last(), o.len()) as usize)
        }),
    decreases near@.len() - k,
{
    let ghost dir = near@.subrange(k as int, near@.len() - 1);
    let ghost old_items = items@;
    if k == near.len() - 1 {
        let h = near[k];
        let pos = if h < items.len() { h + 1 } else { items.len() };
        items.insert(pos, item);
        let mut p = Vec::new();
        p.push(pos);
        assert(dir.len() == 0);
        assert(p@ =~= dir.push(pos));
        return p;
    }
    let head = near[k];
    assert(dir.drop_first() =~= near@.subrange(k + 1, near@.len() - 1));
    let it = items.remove(head);
    match it {
        Item::Folder(mut f) => {
            let mut cp = insert_after_rec(&mut f.items, near, k + 1, item);
            items.insert(head, Item::Folder(f));
            cp.insert(0, head);
            proof {
                assert forall|j: int| 0 <= j < old_items.len() && j != head implies items@[j] == old_items[j] by {
                    if j < head {
                    } else {
                    }
                }
                assert(cp@ =~= dir.push(after_pos(near@.last(), folder_at(old_items, dir)->0.len()) as usize));
            }
            cp
        },
        Item::Request(r) => {
            items.insert(head, Item::Request(r));
            Vec::new()
        },
    }
}

/// Puts `item` right after the item at `near_path` in its folder (at the end
/// of that folder when the last index is past it; at the end of the top
/// level when `near_path` is empty) and returns the path where it landed.
/// Fails, changing nothing, when an index before the last does not lead to a
/// folder.
pub fn insert_after(items: &mut Vec<Item>, near_path: &[usize], item: Item) -> (r: Result<Vec<usize>, &'static str>)
    ensures
        insert_after_outcome(old(items)@, final(items)@, near_path@, item, r),
{
    if near_path.len() == 0 {
        items.push(item);
        let mut p = Vec::new();
        p.push(items.len() - 1);
        assert(p@ =~= seq![old(items)@.len() as usize]);
        return Ok(p);
    }
    assert(near_path@.subrange(0, near_path@.len() - 1) =~= near_path@.drop_last());
    if !folder_exists(items, near_path, 0, near_path.len() - 1) {
        return Err("path points into a non-folder");
    }
    Ok(insert_after_rec(items, near_path, 0, item))
}

fn append_rec(items: &mut Vec<Item>, path: &[usize], k: usize, item: Item) -> (p: Vec<usize>)
    requires
        k <= path@.len(),
        folder_at(old(items)@, path@.subrange(k as int, path@.len() as int)) is Some,
    ensures
        ({
            let dir = path@.subrange(k as int, path@.len() as int);
            let o = folder_at(old(items)@, dir)->0;
            &&& edit_within(old(items)@, final(items)@, dir, append_step(item))
            &&& p@ == dir.push(o.len() as usize)
        }),
    decreases path@.len() - k,
{
    let ghost dir = path@.subrange(k as int, path@.len() as int);
    let ghost old_items = items@;
    if k == path.len() {
        items.push(item);
        let mut p = Vec::new();
        p.push(items.len() - 1);
        assert(p@ =~= dir.push(old_items.len() as usize));
        return p;
    }
    let head = path[k];
    assert(dir.drop_first() =~= path@.subrange(k + 1, path@.len() as int));
    let it = items.remove(head);
    match it {
        Item::Folder(mut f) => {
            let mut cp = append_rec(&mut f.items, path, k + 1, item);
            items.insert(head, Item::Folder(f));
            cp.insert(0, head);
            proof {
                assert forall|j: int| 0 <= j < old_items.len() && j != head implies items@[j] == old_items[j] by {
                    if j < head {
                    } else {
                    }
                }
                assert(cp@ =~= dir.push(folder_at(old_items, dir)->0.len() as usize));
            }
            cp
        },
        Item::Request(r) => {
            items.insert(head, Item::Request(r));
            Vec::new()
        },
    }
}

/// Puts `item` at the end of the folder at `folder_path` (of the top level
/// when `folder_path` is empty) and returns the path where it landed. Fails,
/// changing nothing, when `folder_path` does not lead to a folder.
pub fn insert_into_folder(items: &mut Vec<Item>, folder_path: &[usize], item: Item) -> (r: Result<Vec<usize>, &'static str>)
    ensures
        into_folder_outcome(old(items)@, final(items)@, folder_path@, item, r),
{
    let n = folder_path.len();
    assert(folder_path@.subrange(0, n as int) =~= folder_path@);
    if folder_exists(items, folder_path, 0, n) {
        return Ok(append_rec(items, folder_path, 0, item));
    }
    if n > 0 {
        assert(folder_path@.subrange(0, n - 1) =~= folder_path@.drop_last());
        if folder_exists(items, folder_path, 0, n - 1) {
            return Err("path does not point to a folder");
        }
    }
    Err("path points into a non-folder")
}

fn replace_rec(items: &mut Vec<Item>, path: &[usize], k: usize, req: Request)
    requires
        k < path@.len(),
        entry_of(old(items)@, path@.subrange(k as int, path@.len() as int)) matches Some(Item::Request(_)),
    ensures
        edit_within(
            old(items)@,
            final(items)@,
            path@.subrange(k as int, path@.len() - 1),
            replace_step(path@.last(), req),
        ),
    decreases path@.len() - k,
{
    let ghost dir = path@.subrange(k as int, path@.len() - 1);
    let ghost old_items = items@;
    assert(path@.subrange(k as int, path@.len() as int).drop_last() =~= dir);
    if k == path.len() - 1 {
        let h = path[k];
        items.set(h, Item::Request(req));
        return;
    }
    let head = path[k];
    assert(dir.drop_first() =~= path@.subrange(k + 1, path@.len() - 1));
    assert(path@.subrange(k + 1, path@.len() as int).drop_last() =~= dir.drop_first());
    assert(path@.subrange(k + 1, path@.len() as int).last() == path@.subrange(k as int, path@.len() as int).last());
    let it = items.remove(head);
    match it {
        Item::Folder(mut f) => {
            replace_rec(&mut f.items, path, k + 1, req);
            items.insert(head, Item::Folder(f));
            assert forall|j: int| 0 <= j < old_items.len() && j != head implies items@[j] == old_items[j] by {
                if j < head {
                } else {
                }
            }
        },
        Item::Request(r) => {
            items.insert(head, Item::Request(r));
        },
    }
}

/// What replacing the request at `path` with `req` does to the tree `old`,
/// giving `new` and the answer `r` (see `replace_request_at`).
pub open spec fn replaced(old: Seq<Item>, new: Seq<Item>, path: Seq<usize>, req: Request, r: Result<(), &str>) -> bool {
    &&& path.len() == 0 ==> r == Err::<(), &str>("empty path") && new == old
    &&& path.len() > 0 ==> match entry_of(old, path) {
        Some(Item::Request(_)) => {
            &&& r is Ok
            &&& edit_within(old, new, path.drop_last(), replace_step(path.last(), req))
        },
        _ => {
            &&& r is Err
            &&& new == old
            &&& folder_at(old, path.drop_last()) is Some
                ==> r->Err_0@ == "path does not point to a request"@
            &&& folder_at(old, path.drop_last()) is None
                ==> r->Err_0@ == "path points into a non-folder"@
        },
    }
}

/// Replaces the request at `path` with `req`. Fails, changing nothing, when
/// the path is empty or does not lead to a request.
pub fn replace_request_at(items: &mut Vec<Item>, path: &[usize], req: Request) -> (r: Result<(), &'static str>)
    ensures
        replaced(old(items)@, final(items)@, path@, req, r),
{
    let n = path.len();
    if n == 0 {
        return Err("empty path");
    }
    proof {
        lemma_item_at_entry(items@, path@);
    }
    assert(path@.subrange(0, n as int) =~= path@);
    assert(path@.subrange(0, n - 1) =~= path@.drop_last());
    let is_request = match item_at_path(items, path) {
        Some(Item::Request(_)) => true,
        _ => false,
    };
    if is_request {
        replace_rec(items, path, 0, req);
        return Ok(());
    }
    if folder_exists(items, path, 0, n - 1) {
        Err("path does not point to a request")
    } else {
        Err("path points into a non-folder")
    }
}

fn remove_rec(items: &mut Vec<Item>, path: &[usize], k: usize) -> (it: Item)
    requires
        k < path@.len(),
        entry_of(old(items)@, path@.subrange(k as int, path@.len() as int)) is Some,
    ensures
        edit_within(
            old(items)@,
            final(items)@,
            path@.subrange(k as int, path@.len() - 1),
            remove_step(path@.last()),
        ),
        Some(it) == entry_of(old(items)@, path@.subrange(k as int, path@.len() as int)),
    decreases path@.len() - k,
{
    let ghost dir = path@.subrange(k as int, path@.len() - 1);
    let ghost old_items = items@;
    assert(path@.subrange(k as int, path@.len() as int).drop_last() =~= dir);
    if k == path.len() - 1 {
        let h = path[k];
        return items.remove(h);
    }
    let head = path[k];
    assert(dir.drop_first() =~= path@.subrange(k + 1, path@.len() - 1));
    assert(path@.subrange(k + 1, path@.len() as int).drop_last() =~= dir.drop_first());
    assert(path@.subrange(k + 1, path@.len() as int).last() == path@.subrange(k as int, path@.len() as int).last());
    let it = items.remove(head);
    match it {
        Item::Folder(mut f) => {
            let got = remove_rec(&mut f.items, path, k + 1);
            items.insert(head, Item::Folder(f));
            assert forall|j: int| 0 <= j < old_items.len() && j != head implies items@[j] == old_items[j] by {
                if j < head {
                } else {
                }
            }
            got
        },
        Item::Request(r) => {
            items.insert(head, Item::Request(r));
            items.remove(head)
        },
    }
}

/// Takes the item at `path` out of the tree and returns it. Fails, changing
/// nothing, when the path is empty or leads nowhere.
pub fn remove_from_items(items: &mut Vec<Item>, path: &[usize]) -> (r: Result<Item, &'static str>)
    ensures
        remove_outcome(old(items)@, final(items)@, path@, r),
{
    let n = path.len();
    if n == 0 {
        return Err("Path is empty");
    }
    proof {
        lemma_item_at_entry(items@, path@);
    }
    assert(path@.subrange(0, n as int) =~= path@);
    assert(path@.subrange(0, n - 1) =~= path@.drop_last());
    let found = match item_at_path(items, path) {
        Some(_) => true,
        None => false,
    };
    if !found {
        return Err("Path out of bounds");
    }
    Ok(remove_rec(items, path, 0))
}

proof fn lemma_edit_reaches(old: Seq<Item>, new: Seq<Item>, dir: Seq<usize>, step: spec_fn(Seq<Item>, Seq<Item>) -> bool)
    requires
        edit_within(old, new, dir, step),
    ensures
        folder_at(old, dir) is Some,
        folder_at(new, dir) is Some,
        step(folder_at(old, dir)->0, folder_at(new, dir)->0),
    decreases dir.len(),
{
    if dir.len() > 0 {
        let h = dir[0] as int;
        match old[h] {
            Item::Folder(f) => match new[h] {
                Item::Folder(g) => lemma_edit_reaches(f.items@, g.items@, dir.drop_first(), step),
                Item::Request(_) => {},
            },
            Item::Request(_) => {},
        }
    }
}

pub(crate) proof fn lemma_found_in_level(items: Seq<Item>, dir: Seq<usize>, i: usize)
    requires
        folder_at(items, dir) is Some,
        i < folder_at(items, dir)->0.len(),
    ensures
        item_at_spec(items, dir.push(i)) == Some(folder_at(items, dir)->0[i as int]),
{
    lemma_item_at_entry(items, dir.push(i));
    assert(dir.push(i).drop_last() =~= dir);
}

/// After `insert_after`, the returned path leads to the inserted item.
pub proof fn law_insert_after_finds_item(old: Seq<Item>, new: Seq<Item>, dir: Seq<usize>, h: usize, item: Item)
    requires
        edit_within(old, new, dir, insert_step(h, item)),
        folder_at(old, dir)->0.len() < usize::MAX,
    ensures
        item_at_spec(new, dir.push(after_pos(h, folder_at(old, dir)->0.len()) as usize)) == Some(item),
{
    lemma_edit_reaches(old, new, dir, insert_step(h, item));
    lemma_found_in_level(new, dir, after_pos(h, folder_at(old, dir)->0.len()) as usize);
}

/// After `insert_into_folder`, the returned path leads to the inserted item.
pub proof fn law_insert_into_folder_finds_item(old: Seq<Item>, new: Seq<Item>, dir: Seq<usize>, item: Item)
    requires
        edit_within(old, new, dir, append_step(item)),
        folder_at(old, dir)->0.len() < usize::MAX,
    ensures
        item_at_spec(new, dir.push(folder_at(old, dir)->0.len() as usize)) == Some(item),
{
    lemma_edit_reaches(old, new, dir, append_step(item));
    lemma_found_in_level(new, dir, folder_at(old, dir)->0.len() as usize);
}

/// After `replace_request_at`, the path leads to the new request.
pub proof fn law_replace_finds_request(old: Seq<Item>, new: Seq<Item>, path: Seq<usize>, req: Request)
    requires
        path.len() > 0,
        entry_of(old, path) matches Some(Item::Request(_)),
        edit_within(old, new, path.drop_last(), replace_step(path.last(), req)),
    ensures
        item_at_spec(new, path) == Some(Item::Request(req)),
{
    let dir = path.drop_last();
    lemma_edit_reaches(old, new, dir, replace_step(path.last(), req));
    lemma_found_in_level(new, dir, path.last());
    assert(dir.push(path.last()) =~= path);
}

/// Removing the item that `insert_after` just placed gives it back and
/// leaves every folder holding exactly the items it held before the insert.
pub proof fn law_insert_then_remove_restores(
    old: Seq<Item>,
    mid: Seq<Item>,
    new: Seq<Item>,
    dir: Seq<usize>,
    h: usize,
    item: Item,
)
    requires
        edit_within(old, mid, dir, insert_step(h, item)),
        edit_within(mid, new, dir, remove_step(after_pos(h, folder_at(old, dir)->0.len()) as usize)),
        folder_at(old, dir)->0.len() < usize::MAX,
    ensures
        item_at_spec(mid, dir.push(after_pos(h, folder_at(old, dir)->0.len()) as usize)) == Some(item),
        edit_within(old, new, dir, keep_step()),
    decreases dir.len(),
{
    law_insert_after_finds_item(old, mid, dir, h, item);
    if dir.len() == 0 {
        let o = old;
        let pos = after_pos(h, o.len());
        assert(mid == o.insert(pos, item));
        assert(new =~= o);
    } else {
        let k = dir[0] as int;
        match old[k] {
            Item::Folder(f) => match mid[k] {
                Item::Folder(g) => match new[k] {
                    Item::Folder(g2) => {
                        assert(dir.drop_first().len() < dir.len());
                        law_insert_then_remove_restores(f.items@, g.items@, g2.items@, dir.drop_first(), h, item);
                    },
                    Item::Request(_) => {},
                },
                Item::Request(_) => {},
            },
            Item::Request(_) => {},
        }
    }
}

/// A path leads to a folder item exactly when `folder_at` finds that
/// folder's items there.
pub proof fn lemma_folder_item_is_level(items: Seq<Item>, path: Seq<usize>)
    requires
        path.len() > 0,
    ensures
        (item_at_spec(items, path) matches Some(Item::Folder(_))) <==> folder_at(items, path) is Some,
    decreases path.len(),
{
    if path[0] < items.len() && path.len() > 1 {
        match items[path[0] as int] {
            Item::Folder(f) => lemma_folder_item_is_level(f.items@, path.drop_first()),
            Item::Request(_) => {},
        }
    }
    if path.len() == 1 && path[0] < items.len() {
        match items[path[0] as int] {
            Item::Folder(f) => {
                assert(folder_at(f.items@, path.drop_first()) == Some(f.items@));
                assert(folder_at(items, path) == Some(f.items@));
            },
            Item::Request(_) => {},
        }
    }
}

} // verus!
