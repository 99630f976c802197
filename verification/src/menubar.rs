//! The menu bar's interaction state: which entry is hovered or open, its
//! visibility (F10 toggles it), and the decisions that keep the global menu
//! service in step with the bar's items and window.

use vstd::prelude::*;
use crate::update::{Update, UPDATE_DRAW, UPDATE_LAYOUT, UPDATE_FORCE};
use crate::widget_input::{ButtonEvent, KeyEvent, Key, MouseButton, ElementState};
use crate::menu_items::MenuBarItem;
use crate::bridge::BridgeEvent;

verus! {

/// The menu bar's state. `popup_open` stands for the popup widget the bar
/// shows under its open entry.
pub struct MenuBar {
    pub items: Vec<MenuBarItem>,
    pub visible: bool,
    pub previous_visible: bool,
    pub hovered_index: Option<usize>,
    pub open_menu_index: Option<usize>,
    pub hovered_submenu_index: Option<usize>,
    pub popup_open: bool,
    pub global_menu_enabled: bool,
    pub global_menu_actions: Vec<(i32, u64)>,
    pub global_menu_signature: u64,
    pub last_window_id: Option<u64>,
    pub importer_detected: bool,
}

/// What the bar asks its host to do, in order.
#[derive(PartialEq, Eq, Structural, Clone, Copy)]
pub enum BarEvent {
    /// Run the callback with this handle and add its update.
    RunAction(u64),
    /// Create the popup for the submenu of this entry (replacing any).
    OpenPopup(usize),
    /// Drop the popup.
    ClosePopup,
    /// Let the popup of this entry process the frame's input.
    UpdatePopup(usize),
    /// Send the current menu snapshot to the global menu service.
    SendSnapshot,
    /// Register this window id with the global menu service.
    RegisterWindow(Option<u64>),
}

/// The bar with its popup closed and nothing open or hovered in it.
pub open spec fn closed(b: MenuBar) -> MenuBar {
    MenuBar { popup_open: false, open_menu_index: None, hovered_submenu_index: None, ..b }
}

/// `show_menu_popup(i)`: an entry with a submenu gets its popup.
pub open spec fn shown(b: MenuBar, i: usize) -> (MenuBar, Seq<BarEvent>) {
    if i < b.items@.len() && b.items@[i as int].submenu@.len() > 0 {
        (MenuBar { popup_open: true, open_menu_index: Some(i), ..closed(b) }, seq![BarEvent::ClosePopup, BarEvent::OpenPopup(i)])
    } else {
        (b, Seq::empty())
    }
}

/// The bar after the frame's F10 presses: each toggles visibility, and
/// showing the bar clears the importer detection.
pub open spec fn after_f10(b: MenuBar, keys: Seq<KeyEvent>) -> MenuBar
    decreases keys.len(),
{
    if keys.len() == 0 {
        b
    } else {
        let b1 = after_f10(b, keys.drop_last());
        let k = keys.last();
        if k.state == ElementState::Pressed && k.key == Key::F10 {
            let v = !b1.visible;
            MenuBar { visible: v, importer_detected: if v { false } else { b1.importer_detected }, ..b1 }
        } else {
            b1
        }
    }
}

/// Whether a key list holds a press of `key`.
pub open spec fn has_press(keys: Seq<KeyEvent>, key: Key) -> bool {
    exists|i: int| 0 <= i < keys.len() && #[trigger] keys[i].state == ElementState::Pressed && keys[i].key == key
}

/// The hover step: the entry under the pointer is hovered (an index past
/// the last entry hits none); with another entry's popup open, moving onto
/// an enabled entry with a submenu switches the popup to it.
pub open spec fn after_hover(b: MenuBar, hit: Option<usize>) -> (MenuBar, Seq<BarEvent>, bool) {
    let b0 = MenuBar { hovered_index: None, hovered_submenu_index: None, ..b };
    if hit is Some && hit->0 < b.items@.len() {
        let i = hit->0;
        let b1 = MenuBar { hovered_index: Some(i), ..b0 };
        if b1.open_menu_index is Some && b1.open_menu_index != Some(i)
            && b1.items@[i as int].enabled && b1.items@[i as int].submenu@.len() > 0 {
            let s = shown(closed(b1), i);
            (s.0, seq![BarEvent::ClosePopup] + s.1, true)
        } else {
            (b1, Seq::empty(), false)
        }
    } else {
        (b0, Seq::empty(), false)
    }
}

/// One left press on the bar.
pub open spec fn after_click(b: MenuBar) -> (MenuBar, Seq<BarEvent>, bool) {
    match b.hovered_index {
        Some(h) => if h < b.items@.len() && b.items@[h as int].enabled {
            let item = b.items@[h as int];
            if item.submenu@.len() > 0 {
                if b.open_menu_index == Some(h) {
                    (closed(b), seq![BarEvent::ClosePopup], true)
                } else {
                    let s = shown(b, h);
                    (s.0, s.1, true)
                }
            } else {
                match item.on_activate {
                    Some(a) => (b, seq![BarEvent::RunAction(a)], false),
                    None => (b, Seq::empty(), false),
                }
            }
        } else {
            (b, Seq::empty(), false)
        },
        None => if b.popup_open {
            (closed(b), seq![BarEvent::ClosePopup], true)
        } else {
            (b, Seq::empty(), false)
        },
    }
}

/// The left presses of a frame, one after the other.
pub open spec fn after_clicks(b: MenuBar, n: nat) -> (MenuBar, Seq<BarEvent>, bool)
    decreases n,
{
    if n == 0 {
        (b, Seq::empty(), false)
    } else {
        let r = after_clicks(b, (n - 1) as nat);
        let c = after_click(r.0);
        (c.0, r.1 + c.1, r.2 || c.2)
    }
}

/// How many left presses a frame holds.
pub open spec fn left_presses(buttons: Seq<ButtonEvent>) -> nat
    decreases buttons.len(),
{
    if buttons.len() == 0 {
        0
    } else {
        left_presses(buttons.drop_last()) + (if buttons.last().button == MouseButton::Left
            && buttons.last().state == ElementState::Pressed { 1nat } else { 0nat })
    }
}

/// The escape presses of a frame: each closes an open popup.
pub open spec fn after_escapes(b: MenuBar, keys: Seq<KeyEvent>) -> (MenuBar, Seq<BarEvent>, bool)
    decreases keys.len(),
{
    if keys.len() == 0 {
        (b, Seq::empty(), false)
    } else {
        let r = after_escapes(b, keys.drop_last());
        let k = keys.last();
        if k.state == ElementState::Pressed && k.key == Key::Escape && r.0.open_menu_index is Some {
            (closed(r.0), r.1.push(BarEvent::ClosePopup), true)
        } else {
            r
        }
    }
}

/// The pointer and keyboard part of a frame on a visible bar.
pub open spec fn interact(b: MenuBar, hit: Option<usize>, buttons: Seq<ButtonEvent>, keys: Seq<KeyEvent>) -> (MenuBar, Seq<BarEvent>, bool) {
    let h = after_hover(b, hit);
    let hover_changed = b.hovered_index != h.0.hovered_index || b.hovered_submenu_index != h.0.hovered_submenu_index;
    let c = after_clicks(h.0, left_presses(buttons));
    let p = match c.0.open_menu_index {
        Some(o) => seq![BarEvent::UpdatePopup(o)],
        None => Seq::empty(),
    };
    let e = after_escapes(c.0, keys);
    (e.0, h.1 + c.1 + p + e.1, h.2 || hover_changed || c.2 || e.2)
}

/// The window id registered with the global menu service: the X11 window,
/// else the Wayland surface, else 1 in a Wayland session, else 0.
pub open spec fn chosen_window_id(x11: Option<u32>, wayland: Option<u32>, wayland_session: bool) -> Option<u64> {
    match x11 {
        Some(x) => Some(x as u64),
        None => match wayland {
            Some(w) => Some(w as u64),
            None => if wayland_session { Some(1u64) } else { Some(0u64) },
        },
    }
}

/// What one frame brings from the global menu service.
pub struct GlobalMenuInput {
    /// The events the service reported since the last frame.
    pub events: Vec<BridgeEvent>,
    /// Whether the service had not been started before this frame.
    pub bridge_was_none: bool,
    /// Whether the service is running now.
    pub bridge_available: bool,
    /// The signature of the bar's current menu.
    pub signature: u64,
    /// The callbacks of the current menu's leaves, by id.
    pub actions: Vec<(i32, u64)>,
    /// The window's X11 id, if it has one.
    pub x11_window: Option<u32>,
    /// The window's Wayland surface id, if it has one.
    pub wayland_surface: Option<u32>,
    /// Whether the session is a Wayland session.
    pub wayland_session: bool,
}

/// The callback registered for `id`, if any (the first entry with that id).
pub open spec fn action_for(actions: Seq<(i32, u64)>, id: i32) -> Option<u64>
    decreases actions.len(),
{
    if actions.len() == 0 {
        None
    } else if actions[0].0 == id {
        Some(actions[0].1)
    } else {
        action_for(actions.drop_first(), id)
    }
}

/// The service's events: activations run the matching callback; the first
/// sign of an external menu importer hides the bar.
pub open spec fn after_bridge_events(b: MenuBar, events: Seq<BridgeEvent>) -> (MenuBar, Seq<BarEvent>, bool)
    decreases events.len(),
{
    if events.len() == 0 {
        (b, Seq::empty(), false)
    } else {
        let r = after_bridge_events(b, events.drop_last());
        match events.last() {
            BridgeEvent::Activated(id) => match action_for(b.global_menu_actions@, id) {
                Some(a) => (r.0, r.1.push(BarEvent::RunAction(a)), r.2),
                None => r,
            },
            BridgeEvent::ImporterDetected => if !r.0.importer_detected {
                (MenuBar { importer_detected: true, visible: false, ..r.0 }, r.1, true)
            } else {
                r
            },
        }
    }
}


/// The global-menu part of a frame.
pub open spec fn global_phase(b: MenuBar, g: GlobalMenuInput) -> (MenuBar, Seq<BarEvent>, u32) {
    if !b.global_menu_enabled {
        (b, Seq::empty(), 0u32)
    } else {
        let e = after_bridge_events(b, g.events@);
        let menu_changed = e.0.global_menu_signature != g.signature;
        let send = g.bridge_was_none || menu_changed;
        let b2 = if send { MenuBar { global_menu_signature: g.signature, ..e.0 } } else { e.0 };
        let ev2 = if send && g.bridge_available { seq![BarEvent::SendSnapshot] } else { Seq::<BarEvent>::empty() };
        let wid = chosen_window_id(g.x11_window, g.wayland_surface, g.wayland_session);
        let register = g.bridge_available && (b2.last_window_id != wid || g.bridge_was_none || menu_changed)
            && b2.global_menu_signature != 0;
        let ev3 = if register { seq![BarEvent::RegisterWindow(wid)] } else { Seq::<BarEvent>::empty() };
        let b3 = MenuBar { last_window_id: wid, global_menu_actions: g.actions, ..b2 };
        (b3, e.1 + ev2 + ev3, if e.2 { UPDATE_DRAW | UPDATE_LAYOUT } else { 0u32 })
    }
}

/// One frame of the bar: visibility bookkeeping, F10, the global
/// menu, then, on a visible bar, hover, clicks, the popup and Escape.
pub open spec fn bar_frame(
    b: MenuBar,
    keys: Seq<KeyEvent>,
    hit: Option<usize>,
    buttons: Seq<ButtonEvent>,
    g: GlobalMenuInput,
) -> (MenuBar, Seq<BarEvent>, u32) {
    let vis_changed = b.visible != b.previous_visible;
    let b1 = if vis_changed { MenuBar { previous_visible: b.visible, ..b } } else { b };
    let b2 = after_f10(b1, keys);
    let bits1 = (if vis_changed { UPDATE_FORCE | UPDATE_LAYOUT | UPDATE_DRAW } else { 0u32 })
        | (if has_press(keys, Key::F10) { UPDATE_DRAW | UPDATE_LAYOUT } else { 0u32 });
    let gp = global_phase(b2, g);
    if !gp.0.visible {
        (gp.0, gp.1, bits1 | gp.2)
    } else {
        let it = interact(gp.0, hit, buttons, keys);
        (it.0, gp.1 + it.1, bits1 | gp.2 | (if it.2 { UPDATE_DRAW } else { 0u32 }))
    }
}

impl MenuBar {
    /// A visible bar without entries, with the global menu enabled.
    pub fn new() -> (r: Self)
        ensures
            r.items@.len() == 0,
            r.visible && r.previous_visible,
            r.hovered_index is None && r.open_menu_index is None && r.hovered_submenu_index is None,
            !r.popup_open,
            r.global_menu_enabled,
            r.global_menu_actions@.len() == 0,
            r.global_menu_signature == 0,
            r.last_window_id is None,
            !r.importer_detected,
            bar_consistent(r),
    {
        MenuBar {
            items: Vec::new(),
            visible: true,
            previous_visible: true,
            hovered_index: None,
            open_menu_index: None,
            hovered_submenu_index: None,
            popup_open: false,
            global_menu_enabled: true,
            global_menu_actions: Vec::new(),
            global_menu_signature: 0,
            last_window_id: None,
            importer_detected: false,
        }
    }

    /// Adds an entry at the end.
    pub fn with_item(self, item: MenuBarItem) -> (r: Self)
        ensures
            r.items@ == self.items@.push(item),
            r.visible == self.visible,
            r.global_menu_enabled == self.global_menu_enabled,
    {
        let mut s = self;
        s.items.push(item);
        s
    }

    /// Replaces the entries.
    pub fn with_items(self, items: Vec<MenuBarItem>) -> (r: Self)
        ensures
            r == (MenuBar { items, ..self }),
    {
        MenuBar { items, ..self }
    }

    /// Sets the visibility.
    pub fn with_visible(self, visible: bool) -> (r: Self)
        ensures
            r == (MenuBar { visible, ..self }),
    {
        MenuBar { visible, ..self }
    }

    /// Enables the global menu.
    pub fn with_global_menu(self) -> (r: Self)
        ensures
            r == (MenuBar { global_menu_enabled: true, ..self }),
    {
        MenuBar { global_menu_enabled: true, ..self }
    }

    /// Disables the global menu.
    pub fn without_global_menu(self) -> (r: Self)
        ensures
            r == (MenuBar { global_menu_enabled: false, ..self }),
    {
        MenuBar { global_menu_enabled: false, ..self }
    }

    /// Whether the bar is visible.
    pub fn is_visible(&self) -> (r: bool)
        ensures
            r == self.visible,
    {
        self.visible
    }

    /// Shows the bar.
    pub fn show(&mut self)
        ensures
            *final(self) == (MenuBar { visible: true, ..*old(self) }),
    {
        self.visible = true;
    }

    /// Hides the bar.
    pub fn hide_bar(&mut self)
        ensures
            *final(self) == (MenuBar { visible: false, ..*old(self) }),
    {
        self.visible = false;
    }

    /// The entry at `index`, if there is one.
    pub fn get_item_by_index(&self, index: usize) -> (r: Option<&MenuBarItem>)
        ensures
            match r {
                Some(it) => index < self.items@.len() && *it == self.items@[index as int],
                None => index >= self.items@.len(),
            },
    {
        if index < self.items.len() {
            Some(&self.items[index])
        } else {
            None
        }
    }

    fn close_popup(&mut self)
        ensures
            *final(self) == closed(*old(self)),
    {
        self.popup_open = false;
        self.open_menu_index = None;
        self.hovered_submenu_index = None;
    }

    /// Opens the popup of entry `i` when it has a submenu.
    pub fn show_menu_popup(&mut self, i: usize, events: &mut Vec<BarEvent>)
        ensures
            *final(self) == shown(*old(self), i).0,
            final(events)@ == old(events)@ + shown(*old(self), i).1,
    {
        if i < self.items.len() && self.items[i].submenu.len() > 0 {
            self.close_popup();
            events.push(BarEvent::ClosePopup);
            self.popup_open = true;
            self.open_menu_index = Some(i);
            events.push(BarEvent::OpenPopup(i));
            assert(final(events)@ =~= old(events)@ + shown(*old(self), i).1);
        } else {
            assert(events@ =~= old(events)@ + shown(*old(self), i).1);
        }
    }

    fn hover_stage(&mut self, hit: Option<usize>, events: &mut Vec<BarEvent>) -> (draw: bool)
        ensures
            *final(self) == after_hover(*old(self), hit).0,
            final(events)@ == old(events)@ + after_hover(*old(self), hit).1,
            draw == after_hover(*old(self), hit).2,
    {
        self.hovered_index = None;
        self.hovered_submenu_index = None;
        let in_range = match hit {
            Some(i) => i < self.items.len(),
            None => false,
        };
        if in_range {
            let i = hit.unwrap();
            self.hovered_index = Some(i);
            if self.open_menu_index.is_some() && self.open_menu_index != Some(i)
                && self.items[i].enabled && self.items[i].submenu.len() > 0 {
                self.close_popup();
                events.push(BarEvent::ClosePopup);
                self.show_menu_popup(i, events);
                assert(events@ =~= old(events)@ + after_hover(*old(self), hit).1);
                true
            } else {
                assert(events@ =~= old(events)@ + Seq::<BarEvent>::empty());
                false
            }
        } else {
            assert(events@ =~= old(events)@ + Seq::<BarEvent>::empty());
            false
        }
    }

    fn click_once(&mut self, events: &mut Vec<BarEvent>) -> (draw: bool)
        ensures
            *final(self) == after_click(*old(self)).0,
            final(events)@ == old(events)@ + after_click(*old(self)).1,
            draw == after_click(*old(self)).2,
    {
        match self.hovered_index {
            Some(h) => {
                if h < self.items.len() && self.items[h].enabled {
                    if self.items[h].submenu.len() > 0 {
                        if self.open_menu_index == Some(h) {
                            self.close_popup();
                            events.push(BarEvent::ClosePopup);
                            assert(events@ =~= old(events)@ + after_click(*old(self)).1);
                        } else {
                            self.show_menu_popup(h, events);
                        }
                        true
                    } else {
                        match self.items[h].on_activate {
                            Some(a) => {
                                events.push(BarEvent::RunAction(a));
                                assert(events@ =~= old(events)@ + after_click(*old(self)).1);
                            },
                            None => {
                                assert(events@ =~= old(events)@ + after_click(*old(self)).1);
                            },
                        }
                        false
                    }
                } else {
                    assert(events@ =~= old(events)@ + after_click(*old(self)).1);
                    false
                }
            },
            None => {
                if self.popup_open {
                    self.close_popup();
                    events.push(BarEvent::ClosePopup);
                    assert(events@ =~= old(events)@ + after_click(*old(self)).1);
                    true
                } else {
                    assert(events@ =~= old(events)@ + after_click(*old(self)).1);
                    false
                }
            },
        }
    }

    fn f10_stage(&mut self, keys: &Vec<KeyEvent>) -> (pressed: bool)
        ensures
            *final(self) == after_f10(*old(self), keys@),
            pressed == has_press(keys@, Key::F10),
    {
        let ghost start = *self;
        let mut pressed = false;
        let mut i: usize = 0;
        while i < keys.len()
            invariant
                i <= keys@.len(),
                *self == after_f10(start, keys@.take(i as int)),
                pressed == has_press(keys@.take(i as int), Key::F10),
            decreases keys@.len() - i,
        {
            let ghost t = keys@.take(i + 1);
            proof {
                assert(t.drop_last() =~= keys@.take(i as int));
            }
            let k = keys[i];
            if k.state == ElementState::Pressed && k.key == Key::F10 {
                let v = !self.visible;
                self.visible = v;
                if v {
                    self.importer_detected = false;
                }
                pressed = true;
                assert(t[i as int].state == ElementState::Pressed && t[i as int].key == Key::F10);
            } else {
                proof {
                    if has_press(t, Key::F10) {
                        let j = choose|j: int| 0 <= j < t.len() && #[trigger] t[j].state == ElementState::Pressed && t[j].key == Key::F10;
                        assert(keys@.take(i as int)[j] == t[j]);
                    }
                }
            }
            proof {
                if has_press(keys@.take(i as int), Key::F10) {
                    let j = choose|j: int| 0 <= j < i && #[trigger] keys@.take(i as int)[j].state == ElementState::Pressed && keys@.take(i as int)[j].key == Key::F10;
                    assert(t[j] == keys@.take(i as int)[j]);
                }
            }
            i = i + 1;
        }
        assert(keys@.take(keys@.len() as int) =~= keys@);
        pressed
    }

    fn escape_stage(&mut self, keys: &Vec<KeyEvent>, events: &mut Vec<BarEvent>) -> (draw: bool)
        ensures
            *final(self) == after_escapes(*old(self), keys@).0,
            final(events)@ == old(events)@ + after_escapes(*old(self), keys@).1,
            draw == after_escapes(*old(self), keys@).2,
    {
        let ghost start = *self;
        let ghost ev0 = events@;
        let mut draw = false;
        let mut i: usize = 0;
        assert(ev0 + after_escapes(start, keys@.take(0)).1 =~= ev0);
        while i < keys.len()
            invariant
                i <= keys@.len(),
                *self == after_escapes(start, keys@.take(i as int)).0,
                events@ == ev0 + after_escapes(start, keys@.take(i as int)).1,
                draw == after_escapes(start, keys@.take(i as int)).2,
            decreases keys@.len() - i,
        {
            proof {
                assert(keys@.take(i + 1).drop_last() =~= keys@.take(i as int));
            }
            let k = keys[i];
            if k.state == ElementState::Pressed && k.key == Key::Escape && self.open_menu_index.is_some() {
                self.close_popup();
                events.push(BarEvent::ClosePopup);
                draw = true;
                assert(events@ =~= ev0 + after_escapes(start, keys@.take(i + 1)).1);
            }
            i = i + 1;
        }
        assert(keys@.take(keys@.len() as int) =~= keys@);
        draw
    }

    fn bridge_events_stage(&mut self, g_events: &Vec<BridgeEvent>, events: &mut Vec<BarEvent>) -> (hid: bool)
        ensures
            *final(self) == after_bridge_events(*old(self), g_events@).0,
            final(events)@ == old(events)@ + after_bridge_events(*old(self), g_events@).1,
            hid == after_bridge_events(*old(self), g_events@).2,
    {
        let ghost start = *self;
        let ghost ev0 = events@;
        let mut hid = false;
        let mut i: usize = 0;
        assert(ev0 + after_bridge_events(start, g_events@.take(0)).1 =~= ev0);
        while i < g_events.len()
            invariant
                i <= g_events@.len(),
                self.global_menu_actions == start.global_menu_actions,
                *self == after_bridge_events(start, g_events@.take(i as int)).0,
                events@ == ev0 + after_bridge_events(start, g_events@.take(i as int)).1,
                hid == after_bridge_events(start, g_events@.take(i as int)).2,
            decreases g_events@.len() - i,
        {
            proof {
                assert(g_events@.take(i + 1).drop_last() =~= g_events@.take(i as int));
            }
            match g_events[i] {
                BridgeEvent::Activated(id) => {
                    match find_action(&self.global_menu_actions, id) {
                        Some(a) => {
                            events.push(BarEvent::RunAction(a));
                            assert(events@ =~= ev0 + after_bridge_events(start, g_events@.take(i + 1)).1);
                        },
                        None => {},
                    }
                },
                BridgeEvent::ImporterDetected => {
                    if !self.importer_detected {
                        self.importer_detected = true;
                        self.visible = false;
                        hid = true;
                    }
                },
            }
            i = i + 1;
        }
        assert(g_events@.take(g_events@.len() as int) =~= g_events@);
        hid
    }

    /// The global-menu part of a frame.
    pub fn process_global_menu(&mut self, g: GlobalMenuInput, events: &mut Vec<BarEvent>) -> (r: Update)
        ensures
            *final(self) == global_phase(*old(self), g).0,
            final(events)@ == old(events)@ + global_phase(*old(self), g).1,
            r.bits == global_phase(*old(self), g).2,
    {
        if !self.global_menu_enabled {
            assert(events@ =~= old(events)@ + global_phase(*old(self), g).1);
            return Update::empty();
        }
        let ghost ev0 = events@;
        let hid = self.bridge_events_stage(&g.events, events);
        let ghost e1 = events@;
        let menu_changed = self.global_menu_signature != g.signature;
        let send = g.bridge_was_none || menu_changed;
        if send {
            self.global_menu_signature = g.signature;
            if g.bridge_available {
                events.push(BarEvent::SendSnapshot);
            }
        }
        let wid = window_id_for(g.x11_window, g.wayland_surface, g.wayland_session);
        if g.bridge_available && (self.last_window_id != wid || g.bridge_was_none || menu_changed)
            && self.global_menu_signature != 0 {
            events.push(BarEvent::RegisterWindow(wid));
        }
        self.last_window_id = wid;
        self.global_menu_actions = g.actions;
        assert(events@ =~= old(events)@ + global_phase(*old(self), g).1);
        if hid {
            Update { bits: UPDATE_DRAW | UPDATE_LAYOUT }
        } else {
            Update::empty()
        }
    }

    /// One frame of input. `hit` is the entry under the pointer (an index
    /// past the last entry counts as none), `g` what the global menu service
    /// brought. The events tell the host
    /// which callbacks to run and how to drive the popup and the service.
    pub fn update(
        &mut self,
        keys: &Vec<KeyEvent>,
        hit: Option<usize>,
        buttons: &Vec<ButtonEvent>,
        g: GlobalMenuInput,
    ) -> (r: (Update, Vec<BarEvent>))
        ensures
            *final(self) == bar_frame(*old(self), keys@, hit, buttons@, g).0,
            r.1@ == bar_frame(*old(self), keys@, hit, buttons@, g).1,
            r.0.bits == bar_frame(*old(self), keys@, hit, buttons@, g).2,
    {
        let mut events: Vec<BarEvent> = Vec::new();
        let vis_changed = self.visible != self.previous_visible;
        if vis_changed {
            self.previous_visible = self.visible;
        }
        let f10 = self.f10_stage(keys);
        let bits1: u32 = (if vis_changed { UPDATE_FORCE | UPDATE_LAYOUT | UPDATE_DRAW } else { 0u32 })
            | (if f10 { UPDATE_DRAW | UPDATE_LAYOUT } else { 0u32 });
        let gu = self.process_global_menu(g, &mut events);
        if !self.visible {
            assert(events@ =~= Seq::<BarEvent>::empty() + bar_frame(*old(self), keys@, hit, buttons@, g).1);
            return (Update { bits: bits1 | gu.bits }, events);
        }
        let ghost ev_g = events@;
        let ghost b3 = *self;
        let old_hovered = self.hovered_index;
        let old_sub = self.hovered_submenu_index;
        let d1 = self.hover_stage(hit, &mut events);
        let hover_changed = old_hovered != self.hovered_index || old_sub != self.hovered_submenu_index;
        let ghost b4 = *self;
        let ghost ev_h = events@;
        let mut d2 = false;
        let mut i: usize = 0;
        let ghost presses = left_presses(buttons@);
        assert(ev_h + after_clicks(b4, left_presses(buttons@.take(0))).1 =~= ev_h);
        while i < buttons.len()
            invariant
                i <= buttons@.len(),
                *self == after_clicks(b4, left_presses(buttons@.take(i as int))).0,
                events@ == ev_h + after_clicks(b4, left_presses(buttons@.take(i as int))).1,
                d2 == after_clicks(b4, left_presses(buttons@.take(i as int))).2,
            decreases buttons@.len() - i,
        {
            proof {
                assert(buttons@.take(i + 1).drop_last() =~= buttons@.take(i as int));
            }
            let ev = buttons[i];
            if ev.button == MouseButton::Left && ev.state == ElementState::Pressed {
                let ghost before = events@;
                let d = self.click_once(&mut events);
                d2 = d2 || d;
                assert(events@ =~= ev_h + after_clicks(b4, left_presses(buttons@.take(i + 1))).1);
            }
            i = i + 1;
        }
        assert(buttons@.take(buttons@.len() as int) =~= buttons@);
        let ghost ev_c = events@;
        match self.open_menu_index {
            Some(o) => {
                events.push(BarEvent::UpdatePopup(o));
            },
            None => {},
        }
        let d3 = self.escape_stage(keys, &mut events);
        assert(events@ =~= ev_g + interact(b3, hit, buttons@, keys@).1);
        let draw = d1 || hover_changed || d2 || d3;
        (Update { bits: bits1 | gu.bits | (if draw { UPDATE_DRAW } else { 0u32 }) }, events)
    }
}

/// The window id registered with the global menu service.
pub fn window_id_for(x11: Option<u32>, wayland: Option<u32>, wayland_session: bool) -> (r: Option<u64>)
    ensures
        r == chosen_window_id(x11, wayland, wayland_session),
{
    match x11 {
        Some(x) => Some(x as u64),
        None => match wayland {
            Some(w) => Some(w as u64),
            None => if wayland_session { Some(1u64) } else { Some(0u64) },
        },
    }
}

fn find_action(actions: &Vec<(i32, u64)>, id: i32) -> (r: Option<u64>)
    ensures
        r == action_for(actions@, id),
{
    let mut i: usize = 0;
    assert(actions@.subrange(0, actions@.len() as int) =~= actions@);
    while i < actions.len()
        invariant
            i <= actions@.len(),
            action_for(actions@, id) == action_for(actions@.subrange(i as int, actions@.len() as int), id),
        decreases actions@.len() - i,
    {
        let ghost rest = actions@.subrange(i as int, actions@.len() as int);
        assert(rest[0] == actions@[i as int]);
        if actions[i].0 == id {
            return Some(actions[i].1);
        }
        assert(rest.drop_first() =~= actions@.subrange(i + 1, actions@.len() as int));
        i = i + 1;
    }
    None
}

/// The bar's popup is shown exactly when one of its entries is open.
pub open spec fn popup_matches_open_entry(b: MenuBar) -> bool {
    b.popup_open <==> b.open_menu_index is Some
}

/// Pressing F10 twice brings the bar back to its visibility.
pub proof fn law_f10_twice_restores(b: MenuBar)
    ensures
        ({
            let f10 = KeyEvent { key: Key::F10, state: ElementState::Pressed };
            after_f10(b, seq![f10, f10]).visible == b.visible
        }),
{
    let f10 = KeyEvent { key: Key::F10, state: ElementState::Pressed };
    reveal_with_fuel(after_f10, 3);
    assert(seq![f10, f10].drop_last() =~= seq![f10]);
    assert(seq![f10].drop_last() =~= Seq::<KeyEvent>::empty());
}

proof fn lemma_escapes_close(b: MenuBar, keys: Seq<KeyEvent>)
    ensures
        has_press(keys, Key::Escape) ==> after_escapes(b, keys).0.open_menu_index is None,
        popup_matches_open_entry(b) ==> popup_matches_open_entry(after_escapes(b, keys).0),
        after_escapes(b, keys).0.open_menu_index is Some ==> after_escapes(b, keys).0.open_menu_index == b.open_menu_index,
    decreases keys.len(),
{
    if keys.len() > 0 {
        let d = keys.drop_last();
        lemma_escapes_close(b, d);
        if has_press(keys, Key::Escape) && !has_press(d, Key::Escape) {
            let i = choose|i: int| 0 <= i < keys.len() && #[trigger] keys[i].state == ElementState::Pressed && keys[i].key == Key::Escape;
            if i < d.len() {
                assert(d[i] == keys[i]);
            }
        }
    }
}

/// An Escape press leaves no popup open.
pub proof fn law_escape_closes_popup(b: MenuBar, keys: Seq<KeyEvent>)
    requires
        has_press(keys, Key::Escape),
    ensures
        after_escapes(b, keys).0.open_menu_index is None,
{
    lemma_escapes_close(b, keys);
}

proof fn lemma_clicks_keep(b: MenuBar, n: nat)
    requires
        popup_matches_open_entry(b),
    ensures
        popup_matches_open_entry(after_clicks(b, n).0),
    decreases n,
{
    if n > 0 {
        lemma_clicks_keep(b, (n - 1) as nat);
    }
}

/// The bar's interaction keeps its popup shown exactly when an entry is open.
pub proof fn law_popup_tracks_open_entry(b: MenuBar, hit: Option<usize>, buttons: Seq<ButtonEvent>, keys: Seq<KeyEvent>)
    requires
        popup_matches_open_entry(b),
    ensures
        popup_matches_open_entry(interact(b, hit, buttons, keys).0),
{
    let h = after_hover(b, hit);
    lemma_clicks_keep(h.0, left_presses(buttons));
    lemma_escapes_close(after_clicks(h.0, left_presses(buttons)).0, keys);
}

/// The bar's menu state is consistent: the popup is shown exactly when an
/// entry is open, the open entry exists and has a submenu, and the hovered
/// entry exists.
pub open spec fn bar_consistent(b: MenuBar) -> bool {
    &&& popup_matches_open_entry(b)
    &&& b.open_menu_index is Some ==> b.open_menu_index->0 < b.items@.len()
        && b.items@[b.open_menu_index->0 as int].submenu@.len() > 0
    &&& b.hovered_index is Some ==> b.hovered_index->0 < b.items@.len()
}

/// Two bars agree on their entries, popup, open entry and hovered entry.
pub open spec fn same_menu_state(a: MenuBar, b: MenuBar) -> bool {
    &&& a.items == b.items
    &&& a.popup_open == b.popup_open
    &&& a.open_menu_index == b.open_menu_index
    &&& a.hovered_index == b.hovered_index
}

proof fn lemma_f10_keeps_menu_state(b: MenuBar, keys: Seq<KeyEvent>)
    ensures
        same_menu_state(after_f10(b, keys), b),
    decreases keys.len(),
{
    if keys.len() > 0 {
        lemma_f10_keeps_menu_state(b, keys.drop_last());
    }
}

proof fn lemma_bridge_events_keep_menu_state(b: MenuBar, events: Seq<BridgeEvent>)
    ensures
        same_menu_state(after_bridge_events(b, events).0, b),
    decreases events.len(),
{
    if events.len() > 0 {
        lemma_bridge_events_keep_menu_state(b, events.drop_last());
    }
}

proof fn lemma_clicks_consistent(b: MenuBar, n: nat)
    requires
        bar_consistent(b),
    ensures
        bar_consistent(after_clicks(b, n).0),
        after_clicks(b, n).0.items == b.items,
        after_clicks(b, n).0.hovered_index == b.hovered_index,
    decreases n,
{
    if n > 0 {
        lemma_clicks_consistent(b, (n - 1) as nat);
    }
}

proof fn lemma_escapes_consistent(b: MenuBar, keys: Seq<KeyEvent>)
    requires
        bar_consistent(b),
    ensures
        bar_consistent(after_escapes(b, keys).0),
        after_escapes(b, keys).0.items == b.items,
    decreases keys.len(),
{
    if keys.len() > 0 {
        lemma_escapes_consistent(b, keys.drop_last());
    }
}

/// Every frame keeps the bar's menu state consistent, whatever its keys,
/// pointer, buttons and global menu input. A new bar is consistent.
pub proof fn law_frame_keeps_bar_consistent(
    b: MenuBar,
    keys: Seq<KeyEvent>,
    hit: Option<usize>,
    buttons: Seq<ButtonEvent>,
    g: GlobalMenuInput,
)
    requires
        bar_consistent(b),
    ensures
        bar_consistent(bar_frame(b, keys, hit, buttons, g).0),
        bar_frame(b, keys, hit, buttons, g).0.items == b.items,
{
    let vis_changed = b.visible != b.previous_visible;
    let b1 = if vis_changed { MenuBar { previous_visible: b.visible, ..b } } else { b };
    let b2 = after_f10(b1, keys);
    lemma_f10_keeps_menu_state(b1, keys);
    lemma_bridge_events_keep_menu_state(b2, g.events@);
    let gp = global_phase(b2, g);
    assert(same_menu_state(gp.0, b));
    if gp.0.visible {
        let h = after_hover(gp.0, hit);
        assert(bar_consistent(h.0));
        lemma_clicks_consistent(h.0, left_presses(buttons));
        lemma_escapes_consistent(after_clicks(h.0, left_presses(buttons)).0, keys);
    }
}

/// Clicking the title of the entry whose menu is open closes that menu;
/// clicking the title of another enabled entry with a submenu opens its
/// menu instead. A menu title toggles its menu.
pub proof fn law_click_toggles_open_menu(b: MenuBar, h: usize)
    requires
        bar_consistent(b),
        b.hovered_index == Some(h),
        h < b.items@.len(),
        b.items@[h as int].enabled,
        b.items@[h as int].submenu@.len() > 0,
    ensures
        b.open_menu_index == Some(h) ==> {
            &&& after_click(b).0.open_menu_index is None
            &&& !after_click(b).0.popup_open
            &&& after_click(b).1 == seq![BarEvent::ClosePopup]
        },
        b.open_menu_index != Some(h) ==> {
            &&& after_click(b).0.open_menu_index == Some(h)
            &&& after_click(b).0.popup_open
            &&& after_click(b).1.last() == BarEvent::OpenPopup(h)
        },
        after_click(after_click(b).0).0.open_menu_index == (if b.open_menu_index == Some(h) { Some(h) } else { None }),
{
    let c = after_click(b).0;
    assert(c.hovered_index == Some(h) && c.items == b.items);
}

} // verus!
