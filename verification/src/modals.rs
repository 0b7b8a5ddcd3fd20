use vstd::prelude::*;
use crate::items::{ConfigFolder, Item, Request, RequestType};
use crate::keys::{Key, KeyPress};
use crate::placeholder::{trim_chars, trimmed};

use crate::text::{from_chars, to_chars};
use crate::widgets::TextInput;

verus! {

/// Whether the new-item form makes a request or a folder.
#[derive(PartialEq, Eq, Structural, Clone, Copy, Debug)]
pub enum ItemKind {
    Request,
    Folder,
}

/// The form for a new request or folder: its kind, its name, whether the
/// name is being typed, whether the form is open, and the item made on
/// confirming.
pub struct AddItemWidget {
    pub kind: ItemKind,
    pub name: TextInput,
    pub editing: bool,
    pub is_open: bool,
    pub finished_item: Option<Item>,
}

/// The name a new item gets: the typed name without surrounding
/// whitespace, or `New Request`/`New Folder` when that is empty.
pub open spec fn new_item_name(typed: Seq<char>, kind: ItemKind) -> Seq<char> {
    if trimmed(typed).len() == 0 {
        if kind == ItemKind::Request { "New Request"@ } else { "New Folder"@ }
    } else {
        trimmed(typed)
    }
}

/// The item the form makes: a GET request with an empty URL and nothing
/// else set, or an empty folder, named by `new_item_name`.
pub open spec fn made_item(it: Item, typed: Seq<char>, kind: ItemKind) -> bool {
    match kind {
        ItemKind::Request => it matches Item::Request(r) && {
            &&& r.name@ == new_item_name(typed, kind)
            &&& r.request_type == RequestType::Get
            &&& r.url@ == Seq::<char>::empty()
            &&& r.headers is None && r.body is None && r.auth is None
            &&& r.params is None && r.url_vars is None && r.capture is None
        },
        ItemKind::Folder => it matches Item::Folder(f) && f.name@ == new_item_name(typed, kind) && f.items@.len() == 0,
    }
}

/// What a key does to the new-item form (see `AddItemWidget::handle_event`).
pub open spec fn add_item_key_effect(o: AddItemWidget, n: AddItemWidget, k: Key) -> bool {
    if o.editing {
        if k == Key::Esc {
            !n.editing && !n.name.enabled && n.name.text() == o.name.text() && n.kind == o.kind
                && n.is_open == o.is_open && n.finished_item == o.finished_item
        } else if k == Key::Enter {
            !n.is_open && n.kind == o.kind && (n.finished_item matches Some(it) && made_item(it, o.name.text(), o.kind))
        } else {
            n.editing && n.kind == o.kind && n.is_open == o.is_open && n.finished_item == o.finished_item
                && n.name.enabled == o.name.enabled
        }
    } else if k == Key::Tab {
        n.kind == (if o.kind == ItemKind::Request { ItemKind::Folder } else { ItemKind::Request })
            && n.name == o.name && n.editing == o.editing && n.is_open == o.is_open && n.finished_item == o.finished_item
    } else if k == Key::Char('e') {
        n.editing && n.name.enabled && n.name.text() == o.name.text() && n.kind == o.kind
            && n.is_open == o.is_open && n.finished_item == o.finished_item
    } else if k == Key::Enter {
        !n.is_open && n.kind == o.kind && (n.finished_item matches Some(it) && made_item(it, o.name.text(), o.kind))
    } else if k == Key::Esc {
        !n.is_open && n.kind == o.kind && n.name == o.name && n.finished_item == o.finished_item
    } else {
        n.kind == o.kind && n.name == o.name && n.editing == o.editing && n.is_open == o.is_open
            && n.finished_item == o.finished_item
    }
}

impl AddItemWidget {
    /// An open form for a request, its name field being typed into.
    pub fn new() -> (w: Self)
        ensures
            w.kind == ItemKind::Request,
            w.name.text() == Seq::<char>::empty(),
            w.name.enabled,
            w.editing,
            w.is_open,
            w.finished_item is None,
    {
        let mut name = TextInput::new(from_chars(&to_chars("Name")));
        name.enable();
        AddItemWidget { kind: ItemKind::Request, name, editing: true, is_open: true, finished_item: None }
    }

    /// Whether the name is being typed.
    pub fn is_editing(&self) -> (b: bool)
        ensures
            b == self.editing,
    {
        self.editing
    }

    fn confirm(&mut self)
        ensures
            final(self).kind == old(self).kind,
            final(self).name == old(self).name,
            final(self).editing == old(self).editing,
            !final(self).is_open,
            final(self).finished_item matches Some(it) && made_item(it, old(self).name.text(), old(self).kind),
    {
        let typed = to_chars(self.name.value().as_str());
        let t = trim_chars(&typed);
        let name = if t.len() == 0 {
            match self.kind {
                ItemKind::Request => {
                    proof {
                        reveal_strlit("New Request");
                    }
                    from_chars(&to_chars("New Request"))
                },
                ItemKind::Folder => {
                    proof {
                        reveal_strlit("New Folder");
                    }
                    from_chars(&to_chars("New Folder"))
                },
            }
        } else {
            from_chars(&t)
        };
        self.finished_item = Some(match self.kind {
            ItemKind::Request => Item::Request(Request {
                name,
                request_type: RequestType::Get,
                url: from_chars(&Vec::new()),
                headers: None,
                body: None,
                auth: None,
                params: None,
                url_vars: None,
                capture: None,
            }),
            ItemKind::Folder => Item::Folder(ConfigFolder { name, items: Vec::new() }),
        });
        self.is_open = false;
    }

    /// Acts on a key. While the name is typed: Esc stops typing, Enter
    /// makes the item (see `made_item`) and closes the form, other keys go
    /// to the name field. Otherwise Tab switches between request and
    /// folder, `e` starts typing the name, Enter makes the item and closes,
    /// Esc closes without making one. Always answers `Ok(true)`.
    pub fn handle_event(&mut self, key: &KeyPress) -> (r: Result<bool, &'static str>)
        ensures
            r == Ok::<bool, &str>(true),
            add_item_key_effect(*old(self), *final(self), key.key),
    {
        if self.editing {
            match key.key {
                Key::Esc => {
                    self.editing = false;
                    self.name.disable();
                },
                Key::Enter => self.confirm(),
                _ => {
                    self.name.handle_event(key);
                },
            }
            return Ok(true);
        }
        match key.key {
            Key::Tab => {
                self.kind = match self.kind {
                    ItemKind::Request => ItemKind::Folder,
                    ItemKind::Folder => ItemKind::Request,
                };
            },
            Key::Char('e') => {
                self.editing = true;
                self.name.enable();
            },
            Key::Enter => self.confirm(),
            Key::Esc => {
                self.is_open = false;
            },
            _ => {},
        }
        Ok(true)
    }
}

} // verus!
