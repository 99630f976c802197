//! Other applications' menus shown in the menu bar: their entries turned
//! into bar items placed before the bar's own, and the activation an item
//! sends back to the application that owns it.

use vstd::prelude::*;
use crate::global_menu::{RemoteMenuEntry, GlobalMenuEvent, GlobalMenuAction};
use crate::menu_items::{MenuBarItem, opt_text_view};
use crate::properties::{decimal, decimal_text};
use crate::textutil::{push_str, to_owned_string};

verus! {

/// A signed number in decimal, as `format!("{}", n)` writes it.
pub open spec fn signed_decimal(n: int) -> Seq<char> {
    if n < 0 { seq!['-'] + decimal((-n) as nat) } else { decimal(n as nat) }
}

/// `n` in decimal.
pub fn signed_text(n: i32) -> (r: String)
    ensures
        r@ == signed_decimal(n as int),
{
    if n < 0 {
        let mut s = String::new();
        crate::textutil::push_char(&mut s, '-');
        let m: i64 = -(n as i64);
        let d = decimal_text(m as u64);
        push_str(&mut s, d.as_str());
        assert(s@ =~= seq!['-'] + decimal((-(n as int)) as nat));
        s
    } else {
        decimal_text(n as u64)
    }
}

/// The handle a mirrored item's activation carries: the entry's id, bit for
/// bit.
pub open spec fn remote_handle(id: i32) -> u64 {
    (id as u32) as u64
}

/// `it` is the bar item for the entry `e` of the menu of `address`: its id
/// names both, a separator shows `---` and is disabled, and an enabled leaf
/// activates the entry.
pub open spec fn remote_item(it: MenuBarItem, e: RemoteMenuEntry, address: Seq<char>) -> bool
    decreases e,
{
    &&& it.id@ == "remote-"@ + address + seq!['-'] + signed_decimal(e.id as int)
    &&& it.label@ == (if e.is_separator { "---"@ } else { e.label@ })
    &&& opt_text_view(it.shortcut) == opt_text_view(e.shortcut)
    &&& it.enabled == (e.enabled && !e.is_separator)
    &&& it.submenu@.len() == e.submenu@.len()
    &&& forall|k: int| 0 <= k < it.submenu@.len() ==> remote_item(#[trigger] it.submenu@[k], e.submenu@[k], address)
    &&& it.on_activate == (if it.enabled && e.submenu@.len() == 0 { Some(remote_handle(e.id)) } else { None })
}

/// The bar items for a list of entries, one for one.
pub open spec fn remote_items(its: Seq<MenuBarItem>, es: Seq<RemoteMenuEntry>, address: Seq<char>) -> bool {
    &&& its.len() == es.len()
    &&& forall|k: int| 0 <= k < its.len() ==> remote_item(#[trigger] its[k], es[k], address)
}

/// The bar item for one mirrored entry.
pub fn build_remote_item(e: &RemoteMenuEntry, address: &str) -> (r: MenuBarItem)
    ensures
        remote_item(r, *e, address@),
    decreases *e,
{
    let mut id = to_owned_string("remote-");
    push_str(&mut id, address);
    push_str(&mut id, "-");
    let n = signed_text(e.id);
    push_str(&mut id, n.as_str());
    proof {
        reveal_strlit("-");
        assert(id@ =~= "remote-"@ + address@ + seq!['-'] + signed_decimal(e.id as int));
    }
    let label = if e.is_separator { to_owned_string("---") } else { e.label.clone() };
    let shortcut = match &e.shortcut {
        Some(s) => Some(s.clone()),
        None => None,
    };
    let enabled = e.enabled && !e.is_separator;
    let mut submenu: Vec<MenuBarItem> = Vec::new();
    let mut i: usize = 0;
    while i < e.submenu.len()
        invariant
            i <= e.submenu@.len(),
            submenu@.len() == i,
            forall|k: int| 0 <= k < i ==> remote_item(#[trigger] submenu@[k], e.submenu@[k], address@),
        decreases e.submenu@.len() - i,
    {
        proof {
            assert(decreases_to!(*e => e.submenu));
            assert(decreases_to!(e.submenu => e.submenu@));
            assert(decreases_to!(e.submenu@ => e.submenu@[i as int]));
        }
        let child = build_remote_item(&e.submenu[i], address);
        submenu.push(child);
        i = i + 1;
    }
    let on_activate = if enabled && e.submenu.len() == 0 { Some((e.id as u32) as u64) } else { None };
    MenuBarItem { id, label, shortcut, enabled, submenu, on_activate }
}

/// The mirrored menu shown before the bar's own items: its items and where
/// its activations go.
pub struct MirroredMenu {
    pub items: Vec<MenuBarItem>,
    pub address: String,
    pub menu_path: String,
}

impl MirroredMenu {
    /// Nothing mirrored.
    pub fn new() -> (r: Self)
        ensures
            r.items@.len() == 0,
    {
        MirroredMenu { items: Vec::new(), address: String::new(), menu_path: String::new() }
    }

    /// Takes an event of the tray bridge: a
    /// snapshot replaces the mirrored items; a clearing empties them.
    /// Returns whether the items changed (the bar then closes its popup and
    /// forgets its hover).
    pub fn apply(&mut self, event: GlobalMenuEvent) -> (changed: bool)
        ensures
            match event {
                GlobalMenuEvent::Snapshot(s) => changed
                    && remote_items(final(self).items@, s.entries@, s.address@)
                    && final(self).address@ == s.address@
                    && final(self).menu_path@ == s.menu_path@,
                GlobalMenuEvent::Clear => changed == (old(self).items@.len() > 0)
                    && final(self).items@.len() == 0,
            },
    {
        match event {
            GlobalMenuEvent::Snapshot(s) => {
                let mut items: Vec<MenuBarItem> = Vec::new();
                let mut i: usize = 0;
                while i < s.entries.len()
                    invariant
                        i <= s.entries@.len(),
                        items@.len() == i,
                        forall|k: int| 0 <= k < i ==> remote_item(#[trigger] items@[k], s.entries@[k], s.address@),
                    decreases s.entries@.len() - i,
                {
                    items.push(build_remote_item(&s.entries[i], s.address.as_str()));
                    i = i + 1;
                }
                self.items = items;
                self.address = s.address;
                self.menu_path = s.menu_path;
                true
            },
            GlobalMenuEvent::Clear => {
                if self.items.len() > 0 {
                    self.items = Vec::new();
                    true
                } else {
                    false
                }
            },
        }
    }

    /// The activation for an item's handle: the owning application, its
    /// menu and the entry id.
    pub fn action_for(&self, handle: u64) -> (r: GlobalMenuAction)
        ensures
            r.address@ == self.address@,
            r.menu_path@ == self.menu_path@,
            handle <= u32::MAX ==> remote_handle(r.item_id) == handle,
    {
        let id = (handle as u32) as i32;
        proof {
            if handle <= u32::MAX {
                assert(((handle as u32) as i32) as u32 == handle as u32) by (bit_vector)
                    requires handle <= 0xffff_ffffu64;
            }
        }
        GlobalMenuAction { address: self.address.clone(), menu_path: self.menu_path.clone(), item_id: id }
    }
}

/// How many items the bar shows: the mirrored ones and its own.
pub fn total_items(mirrored: &Vec<MenuBarItem>, own: &Vec<MenuBarItem>) -> (r: usize)
    requires
        mirrored@.len() + own@.len() <= usize::MAX,
    ensures
        r == mirrored@.len() + own@.len(),
{
    mirrored.len() + own.len()
}

/// The item at `index` among the mirrored items followed by the bar's own.
pub fn get_item_by_index<'a>(mirrored: &'a Vec<MenuBarItem>, own: &'a Vec<MenuBarItem>, index: usize) -> (r: Option<&'a MenuBarItem>)
    ensures
        match r {
            Some(it) => (index < mirrored@.len() && *it == mirrored@[index as int])
                || (mirrored@.len() <= index < mirrored@.len() + own@.len() && *it == own@[index - mirrored@.len()]),
            None => index >= mirrored@.len() + own@.len(),
        },
{
    if index < mirrored.len() {
        Some(&mirrored[index])
    } else if index - mirrored.len() < own.len() {
        Some(&own[index - mirrored.len()])
    } else {
        None
    }
}

/// An item's handle names its entry: two entries with the same handle are
/// the same entry, so an activation reaches the entry it was built for.
pub proof fn law_handle_identifies_entry(a: i32, b: i32)
    ensures
        remote_handle(a) == remote_handle(b) ==> a == b,
{
    assert((a as u32) == (b as u32) ==> a == b) by (bit_vector);
}

} // verus!
