//! Menu entries: the popup menu button's items and the menu bar's item tree.

use vstd::prelude::*;
use vstd::string::StringSliceAdditionalSpecFns;
use crate::update::{Update, UPDATE_DRAW, UPDATE_FORCE};
use crate::widget_input::{ButtonEvent, MouseButton, ElementState};

verus! {

/// Represents a menu item in a popup menu
pub enum MenuItem {
    /// A menu item with a label and optional keyboard shortcut
    Item(String, Option<String>),
    /// A separator line between menu items
    Separator,
}

/// The view of an optional text.
pub open spec fn opt_text_view(o: Option<String>) -> Option<Seq<char>> {
    match o {
        Some(s) => Some(s@),
        None => None,
    }
}

impl MenuItem {
    /// A new item with the given label and no shortcut (the id is not kept).
    pub fn new(_id: &str, label: &str) -> (r: Self)
        ensures
            r matches MenuItem::Item(l, s) && l@ == label@ && s is None,
    {
        MenuItem::Item(crate::textutil::to_owned_string(label), None)
    }

    /// Sets the keyboard shortcut of an item; a separator stays as it is.
    pub fn with_shortcut(self, shortcut: &str) -> (r: Self)
        ensures
            match self {
                MenuItem::Item(l, _) => (r matches MenuItem::Item(l2, s2) && l2 == l && (s2 matches Some(t) && t@ == shortcut@)),
                MenuItem::Separator => r is Separator,
            },
    {
        match self {
            MenuItem::Item(l, _) => MenuItem::Item(l, Some(crate::textutil::to_owned_string(shortcut))),
            MenuItem::Separator => MenuItem::Separator,
        }
    }

    /// Whether the item is enabled is not recorded in a `MenuItem`: the item
    /// comes back unchanged.
    pub fn with_enabled(self, _enabled: bool) -> (r: Self)
        ensures
            r == self,
    {
        self
    }

    /// Activation callbacks are not recorded in a `MenuItem`: the item comes
    /// back unchanged.
    pub fn with_on_activate(self, _action: u64) -> (r: Self)
        ensures
            r == self,
    {
        self
    }
}

/// The label that marks a separator entry.
pub open spec fn separator_label() -> Seq<char> {
    "---"@
}

/// An entry of the menu bar or of one of its popups. `on_activate` is the
/// handle of the callback the application runs when the entry is activated.
pub struct MenuBarItem {
    /// Unique identifier for the menu item
    pub id: String,
    /// Display text for the menu item
    pub label: String,
    /// Optional keyboard shortcut text (e.g., "Ctrl+N")
    pub shortcut: Option<String>,
    /// Whether the menu item is enabled/clickable
    pub enabled: bool,
    /// Child menu items for submenus
    pub submenu: Vec<MenuBarItem>,
    /// Handle of the callback run when the item is activated
    pub on_activate: Option<u64>,
}

impl MenuBarItem {
    /// Create a new menu item: enabled, without shortcut, children or action.
    pub fn new(id: &str, label: &str) -> (r: Self)
        ensures
            r.id@ == id@,
            r.label@ == label@,
            r.shortcut is None,
            r.enabled,
            r.submenu@.len() == 0,
            r.on_activate is None,
    {
        MenuBarItem {
            id: crate::textutil::to_owned_string(id),
            label: crate::textutil::to_owned_string(label),
            shortcut: None,
            enabled: true,
            submenu: Vec::new(),
            on_activate: None,
        }
    }

    /// Set the keyboard shortcut for this item
    pub fn with_shortcut(self, shortcut: &str) -> (r: Self)
        ensures
            r.id == self.id,
            r.label == self.label,
            r.shortcut matches Some(s) && s@ == shortcut@,
            r.enabled == self.enabled,
            r.submenu == self.submenu,
            r.on_activate == self.on_activate,
    {
        MenuBarItem { shortcut: Some(crate::textutil::to_owned_string(shortcut)), ..self }
    }

    /// Set whether this item is enabled
    pub fn with_enabled(self, enabled: bool) -> (r: Self)
        ensures
            r == (MenuBarItem { enabled, ..self }),
    {
        MenuBarItem { enabled, ..self }
    }

    /// Add a submenu item at the end
    pub fn with_submenu_item(self, item: MenuBarItem) -> (r: Self)
        ensures
            r.id == self.id,
            r.label == self.label,
            r.shortcut == self.shortcut,
            r.enabled == self.enabled,
            r.submenu@ == self.submenu@.push(item),
            r.on_activate == self.on_activate,
    {
        let mut s = self;
        s.submenu.push(item);
        s
    }

    /// Set the callback run when this item is activated
    pub fn with_on_activate(self, action: u64) -> (r: Self)
        ensures
            r == (MenuBarItem { on_activate: Some(action), ..self }),
    {
        MenuBarItem { on_activate: Some(action), ..self }
    }

    /// Check if this item has a submenu
    pub fn has_submenu(&self) -> (r: bool)
        ensures
            r == (self.submenu@.len() > 0),
    {
        self.submenu.len() > 0
    }

    /// Whether the item reacts to the pointer: enabled and not a separator.
    pub fn is_actionable(&self) -> (r: bool)
        ensures
            r == (self.enabled && self.label@ != separator_label()),
    {
        self.enabled && !crate::textutil::str_eq(self.label.as_str(), "---")
    }
}

/// The item a popup highlights when the pointer is over row `row`: that row,
/// when it exists and is actionable.
pub fn hovered_item(items: &Vec<MenuBarItem>, row: Option<usize>) -> (r: Option<usize>)
    ensures
        r == (match row {
            Some(i) => if i < items@.len() && items@[i as int].enabled && items@[i as int].label@ != separator_label() {
                Some(i)
            } else {
                None
            },
            None => None,
        }),
{
    match row {
        Some(i) => {
            if i < items.len() && items[i].is_actionable() {
                Some(i)
            } else {
                None
            }
        },
        None => None,
    }
}

/// What a click on a popup item sets off.
pub struct ItemClick {
    /// The item's own callback, if it has one.
    pub run_action: Option<u64>,
    /// Whether the popup's selection callback is told the index.
    pub notify_selected: bool,
    /// Whether the popup asks to be closed.
    pub close: bool,
}

/// A click on an actionable leaf runs its callback, reports its index and
/// closes the popup; a click on anything else sets off nothing.
pub fn handle_item_click(item: &MenuBarItem) -> (r: ItemClick)
    ensures
        (item.enabled && item.label@ != separator_label() && item.submenu@.len() == 0) ==> (r.run_action
            == item.on_activate && r.notify_selected && r.close),
        !(item.enabled && item.label@ != separator_label() && item.submenu@.len() == 0) ==> (r.run_action is None
            && !r.notify_selected && !r.close),
{
    if item.is_actionable() && !item.has_submenu() {
        ItemClick { run_action: item.on_activate, notify_selected: true, close: true }
    } else {
        ItemClick { run_action: None, notify_selected: false, close: false }
    }
}

/// A click outside a popup closes it unless the pointer is over its child
/// popup.
pub fn handle_click_outside(child_hovered: bool) -> (close: bool)
    ensures
        close == !child_hovered,
{
    !child_hovered
}

/// What a popup menu asks its owner to do, in order.
#[derive(Clone, Copy, PartialEq, Eq, Structural, Debug)]
pub enum PopupMenuEvent {
    /// Run the item's callback with this handle.
    RunAction(u64),
    /// Tell the owner that the item at this index was chosen.
    ItemSelected(usize),
    /// Close the popup.
    Close,
}

/// A popup menu: its items and the one highlighted.
pub struct MenuPopup {
    pub items: Vec<MenuBarItem>,
    pub hovered_index: Option<usize>,
}

/// Left presses in a popup: on the highlighted item, its callback, the
/// selection and the closing; elsewhere, the closing.
pub open spec fn popup_presses(items: Seq<MenuBarItem>, hovered: Option<usize>, buttons: Seq<ButtonEvent>) -> Seq<PopupMenuEvent>
    decreases buttons.len(),
{
    if buttons.len() == 0 {
        Seq::empty()
    } else {
        let p = popup_presses(items, hovered, buttons.drop_last());
        let b = buttons.last();
        if b.button == MouseButton::Left && b.state == ElementState::Pressed {
            match hovered {
                Some(h) => {
                    let it = items[h as int];
                    if it.enabled && it.label@ != separator_label() {
                        p + (match it.on_activate {
                            Some(a) => seq![PopupMenuEvent::RunAction(a)],
                            None => Seq::empty(),
                        }) + seq![PopupMenuEvent::ItemSelected(h), PopupMenuEvent::Close]
                    } else {
                        p
                    }
                },
                None => p.push(PopupMenuEvent::Close),
            }
        } else {
            p
        }
    }
}

impl MenuPopup {
    /// A popup with these items and nothing highlighted.
    pub fn new(items: Vec<MenuBarItem>) -> (r: Self)
        ensures
            r.items == items,
            r.hovered_index is None,
    {
        MenuPopup { items, hovered_index: None }
    }

    /// One frame: `row` is the item row under the cursor when the cursor is
    /// over the popup. The highlight follows the pointer (actionable items
    /// only), and left presses choose or close.
    pub fn update(&mut self, row: Option<usize>, buttons: &Vec<ButtonEvent>) -> (r: (Update, Vec<PopupMenuEvent>))
        ensures
            final(self).items == old(self).items,
            final(self).hovered_index == match row {
                Some(i) => if i < old(self).items@.len() && old(self).items@[i as int].enabled
                    && old(self).items@[i as int].label@ != separator_label() { Some(i) } else { None },
                None => None,
            },
            r.0.bits == (if final(self).hovered_index != old(self).hovered_index { UPDATE_DRAW } else { 0 }),
            r.1@ == popup_presses(old(self).items@, final(self).hovered_index, buttons@),
    {
        let old_hovered = self.hovered_index;
        self.hovered_index = hovered_item(&self.items, row);
        let bits: u32 = if old_hovered != self.hovered_index { UPDATE_DRAW } else { 0 };
        let mut events: Vec<PopupMenuEvent> = Vec::new();
        let mut i: usize = 0;
        while i < buttons.len()
            invariant
                i <= buttons@.len(),
                self.hovered_index is Some ==> self.hovered_index->0 < self.items@.len(),
                events@ == popup_presses(self.items@, self.hovered_index, buttons@.take(i as int)),
            decreases buttons@.len() - i,
        {
            proof {
                assert(buttons@.take(i + 1).drop_last() =~= buttons@.take(i as int));
            }
            let b = buttons[i];
            if b.button == MouseButton::Left && b.state == ElementState::Pressed {
                match self.hovered_index {
                    Some(h) => {
                        if self.items[h].is_actionable() {
                            let ghost before = events@;
                            match self.items[h].on_activate {
                                Some(a) => { events.push(PopupMenuEvent::RunAction(a)); },
                                None => {},
                            }
                            events.push(PopupMenuEvent::ItemSelected(h));
                            events.push(PopupMenuEvent::Close);
                            assert(events@ =~= popup_presses(self.items@, self.hovered_index, buttons@.take(i + 1)));
                        }
                    },
                    None => {
                        events.push(PopupMenuEvent::Close);
                    },
                }
            }
            i = i + 1;
        }
        assert(buttons@.take(buttons@.len() as int) =~= buttons@);
        (Update { bits }, events)
    }
}

/// The labels and shortcuts (empty when none) of the items of a menu
/// button, separators left out: the entries of its popup.
pub open spec fn popup_entries(items: Seq<MenuItem>) -> Seq<(Seq<char>, Seq<char>)>
    decreases items.len(),
{
    if items.len() == 0 {
        Seq::empty()
    } else {
        let p = popup_entries(items.drop_last());
        match items.last() {
            MenuItem::Item(l, s) => p.push((l@, match s { Some(t) => t@, None => Seq::empty() })),
            MenuItem::Separator => p,
        }
    }
}

/// A popup entry made from an item: id and label are the item's label, the
/// shortcut is set, it is enabled and has no children or callback.
pub open spec fn entry_item(it: MenuBarItem, e: (Seq<char>, Seq<char>)) -> bool {
    &&& it.id@ == e.0
    &&& it.label@ == e.0
    &&& it.shortcut matches Some(s) && s@ == e.1
    &&& it.enabled
    &&& it.submenu@.len() == 0
    &&& it.on_activate is None
}

/// The popup entries of a menu button's items.
pub fn popup_items(items: &Vec<MenuItem>) -> (r: Vec<MenuBarItem>)
    ensures
        r@.len() == popup_entries(items@).len(),
        forall|k: int| 0 <= k < r@.len() ==> entry_item(#[trigger] r@[k], popup_entries(items@)[k]),
{
    let mut out: Vec<MenuBarItem> = Vec::new();
    let mut i: usize = 0;
    while i < items.len()
        invariant
            i <= items@.len(),
            out@.len() == popup_entries(items@.take(i as int)).len(),
            forall|k: int| 0 <= k < out@.len() ==> entry_item(#[trigger] out@[k], popup_entries(items@.take(i as int))[k]),
        decreases items@.len() - i,
    {
        proof {
            assert(items@.take(i + 1).drop_last() =~= items@.take(i as int));
        }
        match &items[i] {
            MenuItem::Item(label, shortcut) => {
                let sc = match shortcut {
                    Some(t) => t.clone(),
                    None => String::new(),
                };
                let it = MenuBarItem::new(label.as_str(), label.as_str()).with_shortcut(sc.as_str()).with_enabled(true);
                out.push(it);
            },
            MenuItem::Separator => {},
        }
        i = i + 1;
    }
    assert(items@.take(items@.len() as int) =~= items@);
    out
}

/// A button that opens a popup menu of its items.
pub struct MenuButton {
    pub is_menu_open: bool,
    pub menu_items: Vec<MenuItem>,
    pub popup: Option<MenuPopup>,
}

/// The label reported when the popup's entry `index` is chosen: that of the
/// button's item at the same position, when it is an item.
pub open spec fn chosen_label(items: Seq<MenuItem>, index: usize) -> Option<Seq<char>> {
    if index < items.len() {
        match items[index as int] {
            MenuItem::Item(l, _) => Some(l@),
            MenuItem::Separator => None,
        }
    } else {
        None
    }
}

/// The labels reported for the entries chosen in a popup's events.
pub open spec fn chosen_labels(items: Seq<MenuItem>, events: Seq<PopupMenuEvent>) -> Seq<Seq<char>>
    decreases events.len(),
{
    if events.len() == 0 {
        Seq::empty()
    } else {
        let p = chosen_labels(items, events.drop_last());
        match events.last() {
            PopupMenuEvent::ItemSelected(i) => match chosen_label(items, i) {
                Some(l) => p.push(l),
                None => p,
            },
            _ => p,
        }
    }
}

/// Whether the events choose an entry.
pub open spec fn any_chosen(events: Seq<PopupMenuEvent>) -> bool {
    exists|k: int| 0 <= k < events.len() && #[trigger] events[k] is ItemSelected
}

impl MenuButton {
    /// A closed menu button without items.
    pub fn new() -> (r: Self)
        ensures
            !r.is_menu_open,
            r.menu_items@.len() == 0,
            r.popup is None,
    {
        MenuButton { is_menu_open: false, menu_items: Vec::new(), popup: None }
    }

    /// Adds an item at the end.
    pub fn with_menu_item(self, item: MenuItem) -> (r: Self)
        ensures
            r.menu_items@ == self.menu_items@.push(item),
            r.is_menu_open == self.is_menu_open,
    {
        let mut s = self;
        s.menu_items.push(item);
        s
    }

    /// Replaces the items.
    pub fn with_menu_items(self, items: Vec<MenuItem>) -> (r: Self)
        ensures
            r.menu_items == items,
            r.is_menu_open == self.is_menu_open,
    {
        MenuButton { menu_items: items, ..self }
    }

    /// Whether the menu is open.
    pub fn is_menu_open(&self) -> (r: bool)
        ensures
            r == self.is_menu_open,
    {
        self.is_menu_open
    }

    /// Opens the menu.
    pub fn open_menu(&mut self)
        ensures
            final(self).is_menu_open,
            final(self).menu_items == old(self).menu_items,
    {
        self.is_menu_open = true;
    }

    /// Closes the menu.
    pub fn close_menu(&mut self)
        ensures
            !final(self).is_menu_open,
            final(self).menu_items == old(self).menu_items,
    {
        self.is_menu_open = false;
    }

    /// Opens a closed menu, closes an open one.
    pub fn toggle_menu(&mut self)
        ensures
            final(self).is_menu_open == !old(self).is_menu_open,
            final(self).menu_items == old(self).menu_items,
    {
        self.is_menu_open = !self.is_menu_open;
    }

    /// Builds the popup from the items, when there are any.
    pub fn show_menu_popup(&mut self)
        ensures
            final(self).is_menu_open == old(self).is_menu_open,
            final(self).menu_items == old(self).menu_items,
            old(self).menu_items@.len() == 0 ==> final(self).popup == old(self).popup,
            old(self).menu_items@.len() > 0 ==> (final(self).popup matches Some(p)
                && p.hovered_index is None
                && p.items@.len() == popup_entries(old(self).menu_items@).len()
                && forall|k: int| 0 <= k < p.items@.len() ==> entry_item(#[trigger] p.items@[k], popup_entries(old(self).menu_items@)[k])),
    {
        if self.menu_items.len() > 0 {
            let items = popup_items(&self.menu_items);
            self.popup = Some(MenuPopup::new(items));
        }
    }

    /// One frame: whether a left release happened over the button, whether
    /// a left press happened away from both the button and the open popup,
    /// the popup row under the cursor and the frame's button events. Returns
    /// the update and the labels chosen in the popup, for the selection
    /// callback; a choice closes the menu and asks for a full rebuild.
    pub fn update(
        &mut self,
        released_over_button: bool,
        pressed_outside: bool,
        popup_row: Option<usize>,
        buttons: &Vec<ButtonEvent>,
    ) -> (r: (Update, Vec<String>))
        ensures
            final(self).menu_items == old(self).menu_items,
            !old(self).is_menu_open ==> (
                final(self).is_menu_open == released_over_button
                && r.0.bits == (if released_over_button { UPDATE_DRAW } else { 0 })
                && r.1@.len() == 0),
            old(self).is_menu_open ==> match old(self).popup {
                Some(p) => {
                    let hovered = match popup_row {
                        Some(i) => if i < p.items@.len() && p.items@[i as int].enabled
                            && p.items@[i as int].label@ != separator_label() { Some(i) } else { None },
                        None => None,
                    };
                    let events = popup_presses(p.items@, hovered, buttons@);
                    let pbits: u32 = (if hovered != p.hovered_index { UPDATE_DRAW } else { 0u32 })
                        | (if any_chosen(events) { UPDATE_FORCE } else { 0u32 });
                    &&& final(self).is_menu_open == !(any_chosen(events) || released_over_button || pressed_outside)
                    &&& crate::textutil::strings_view(r.1@) == chosen_labels(old(self).menu_items@, events)
                    &&& r.0.bits == (if released_over_button || pressed_outside { pbits | UPDATE_DRAW } else { pbits })
                },
                None => final(self).is_menu_open == !(released_over_button || pressed_outside) && r.1@.len() == 0
                    && r.0.bits == (if released_over_button || pressed_outside { 0u32 | UPDATE_DRAW } else { 0u32 }),
            },
    {
        let mut labels: Vec<String> = Vec::new();
        if self.is_menu_open {
            let mut bits: u32 = 0;
            match &mut self.popup {
                Some(p) => {
                    let (u, events) = p.update(popup_row, buttons);
                    let mut chosen = false;
                    let mut k: usize = 0;
                    while k < events.len()
                        invariant
                            k <= events@.len(),
                            chosen == (exists|j: int| 0 <= j < k && #[trigger] events@[j] is ItemSelected),
                            crate::textutil::strings_view(labels@) == chosen_labels(self.menu_items@, events@.take(k as int)),
                        decreases events@.len() - k,
                    {
                        proof {
                            assert(events@.take(k + 1).drop_last() =~= events@.take(k as int));
                        }
                        match events[k] {
                            PopupMenuEvent::ItemSelected(i) => {
                                chosen = true;
                                if i < self.menu_items.len() {
                                    match &self.menu_items[i] {
                                        MenuItem::Item(l, _) => {
                                            labels.push(l.clone());
                                            assert(crate::textutil::strings_view(labels@) =~= chosen_labels(self.menu_items@, events@.take(k + 1)));
                                        },
                                        MenuItem::Separator => {},
                                    }
                                }
                            },
                            _ => {},
                        }
                        k = k + 1;
                    }
                    assert(events@.take(events@.len() as int) =~= events@);
                    bits = u.bits | (if chosen { UPDATE_FORCE } else { 0u32 });
                    if chosen {
                        self.is_menu_open = false;
                    }
                },
                None => {},
            }
            if released_over_button || pressed_outside {
                self.is_menu_open = false;
                bits = bits | UPDATE_DRAW;
            }
            (Update { bits }, labels)
        } else if released_over_button {
            self.is_menu_open = true;
            self.show_menu_popup();
            (Update { bits: UPDATE_DRAW }, labels)
        } else {
            (Update { bits: 0 }, labels)
        }
    }
}

/// `a` and `b` are the same item, children included.
pub open spec fn same_item(a: MenuBarItem, b: MenuBarItem) -> bool
    decreases a,
{
    &&& a.id@ == b.id@
    &&& a.label@ == b.label@
    &&& opt_text_view(a.shortcut) == opt_text_view(b.shortcut)
    &&& a.enabled == b.enabled
    &&& a.on_activate == b.on_activate
    &&& a.submenu@.len() == b.submenu@.len()
    &&& forall|k: int| 0 <= k < a.submenu@.len() ==> same_item(#[trigger] a.submenu@[k], b.submenu@[k])
}

/// A copy of an item and its children.
pub fn clone_item(item: &MenuBarItem) -> (r: MenuBarItem)
    ensures
        same_item(r, *item),
    decreases *item,
{
    let mut submenu: Vec<MenuBarItem> = Vec::new();
    let mut i: usize = 0;
    while i < item.submenu.len()
        invariant
            i <= item.submenu@.len(),
            submenu@.len() == i,
            forall|k: int| 0 <= k < i ==> same_item(#[trigger] submenu@[k], item.submenu@[k]),
        decreases item.submenu@.len() - i,
    {
        proof {
            assert(decreases_to!(*item => item.submenu));
            assert(decreases_to!(item.submenu => item.submenu@));
            assert(decreases_to!(item.submenu@ => item.submenu@[i as int]));
        }
        submenu.push(clone_item(&item.submenu[i]));
        i = i + 1;
    }
    let shortcut = match &item.shortcut {
        Some(s) => Some(s.clone()),
        None => None,
    };
    MenuBarItem {
        id: item.id.clone(),
        label: item.label.clone(),
        shortcut,
        enabled: item.enabled,
        submenu,
        on_activate: item.on_activate,
    }
}

/// The popup for an item's submenu: its children, nothing
/// highlighted.
pub fn open_submenu(item: &MenuBarItem) -> (r: MenuPopup)
    ensures
        r.hovered_index is None,
        r.items@.len() == item.submenu@.len(),
        forall|k: int| 0 <= k < r.items@.len() ==> same_item(#[trigger] r.items@[k], item.submenu@[k]),
{
    let mut items: Vec<MenuBarItem> = Vec::new();
    let mut i: usize = 0;
    while i < item.submenu.len()
        invariant
            i <= item.submenu@.len(),
            items@.len() == i,
            forall|k: int| 0 <= k < i ==> same_item(#[trigger] items@[k], item.submenu@[k]),
        decreases item.submenu@.len() - i,
    {
        items.push(clone_item(&item.submenu[i]));
        i = i + 1;
    }
    MenuPopup::new(items)
}

/// The sum of a list of bytes.
pub open spec fn byte_sum(b: Seq<u8>) -> int
    decreases b.len(),
{
    if b.len() == 0 { 0 } else { byte_sum(b.drop_last()) + b.last() }
}

/// The custom command number an item id is given when it becomes a menu
/// command: `0x1000` plus the sum of its bytes modulo `0x1000`.
pub fn custom_command_code(id: &str) -> (r: u32)
    requires
        byte_sum(id.spec_bytes()) <= u32::MAX,
    ensures
        r == 0x1000 + byte_sum(id.spec_bytes()) % 0x1000,
{
    let bytes = id.as_bytes();
    let mut sum: u32 = 0;
    let mut i: usize = 0;
    while i < bytes.len()
        invariant
            i <= bytes@.len(),
            bytes@ == id.spec_bytes(),
            byte_sum(bytes@) <= u32::MAX,
            sum == byte_sum(bytes@.take(i as int)),
        decreases bytes@.len() - i,
    {
        proof {
            assert(bytes@.take(i + 1).drop_last() =~= bytes@.take(i as int));
            lemma_byte_sum_prefix(bytes@, i + 1);
        }
        sum = sum + bytes[i] as u32;
        i = i + 1;
    }
    assert(bytes@.take(bytes@.len() as int) =~= bytes@);
    0x1000 + sum % 0x1000
}

proof fn lemma_byte_sum_prefix(b: Seq<u8>, n: int)
    requires
        0 <= n <= b.len(),
    ensures
        byte_sum(b.take(n)) <= byte_sum(b),
    decreases b.len(),
{
    if n < b.len() {
        assert(b.drop_last().take(n) =~= b.take(n));
        lemma_byte_sum_prefix(b.drop_last(), n);
    } else {
        assert(b.take(n) =~= b);
    }
}

} // verus!
