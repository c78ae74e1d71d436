//! Menu data: an item with a marked label (`~` surrounds the hotkey
//! letter), a numeric command, and an optional nested submenu; and an
//! ordered menu of such items.

use vstd::prelude::*;
use crate::event::TKeyCode;
use crate::text::hotkey_spec;
use crate::text::strip_marked;
use crate::text::strip_marked_chars;
use crate::text::find_hotkey;
use crate::text::chars_to_string;

verus! {

/// A single menu item entry. The label carries `~` hotkey markers, as in
/// a label spelled with a marked letter.
pub struct TMenuItem {
    pub label: String,
    pub command: u16,
    pub keycode: Option<TKeyCode>,
    pub disabled: bool,
    pub help_context: Option<u16>,
    pub submenu: Option<TMenu>,
}

pub struct TMenu {
    pub items: Vec<TMenuItem>,
}

impl TMenuItem {
    pub fn new(label: &str, command: u16) -> (r: Self)
        ensures
            r.label@ == label@,
            r.command == command,
            r.keycode is None,
            r.disabled == false,
            r.help_context is None,
            r.submenu is None,
    {
        Self {
            label: label.to_owned(),
            command,
            keycode: None,
            disabled: false,
            help_context: None,
            submenu: None,
        }
    }

    pub fn with_keycode(self, key: TKeyCode) -> (r: Self)
        ensures
            r == (TMenuItem { keycode: Some(key), ..self }),
    {
        Self { keycode: Some(key), ..self }
    }

    pub fn with_help_context(self, ctx: u16) -> (r: Self)
        ensures
            r == (TMenuItem { help_context: Some(ctx), ..self }),
    {
        Self { help_context: Some(ctx), ..self }
    }

    pub fn with_submenu(self, submenu: TMenu) -> (r: Self)
        ensures
            r == (TMenuItem { submenu: Some(submenu), ..self }),
    {
        Self { submenu: Some(submenu), ..self }
    }

    pub fn disabled(self, val: bool) -> (r: Self)
        ensures
            r == (TMenuItem { disabled: val, ..self }),
    {
        Self { disabled: val, ..self }
    }

    /// The first hotkey the label declares: the character after the first
    /// `~`, lower-cased.
    pub fn hotkey(&self) -> (r: Option<char>)
        ensures
            r == hotkey_spec(self.label@, '~'),
    {
        find_hotkey(self.label.as_str(), '~')
    }

    /// The label with the `~` hotkey markers stripped.
    pub fn clean_label(&self) -> (r: String)
        ensures
            r@ == strip_marked(self.label@, '~'),
    {
        let cs = strip_marked_chars(self.label.as_str(), '~');
        chars_to_string(&cs)
    }
}

impl TMenu {
    pub fn new(items: Vec<TMenuItem>) -> (r: Self)
        ensures
            r.items@ == items@,
    {
        Self { items }
    }

    pub fn add_item(&mut self, item: TMenuItem)
        ensures
            final(self).items@ == old(self).items@.push(item),
    {
        self.items.push(item);
    }

    pub fn is_empty(&self) -> (r: bool)
        ensures
            r == (self.items@.len() == 0),
    {
        self.items.is_empty()
    }

    pub fn len(&self) -> (r: usize)
        ensures
            r == self.items@.len(),
    {
        self.items.len()
    }
}

} // verus!
