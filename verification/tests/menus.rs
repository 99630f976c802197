use std::collections::hash_map::DefaultHasher;
use std::hash::{Hash, Hasher};
use nptk_widgets::dbus_menu::{
    encode_shortcut, escape_label, find_node_by_id, node_property_value, node_properties_map,
    MenuObject, MenuSnapshot, MenuState, MenuEventAction, PropValue, RemoteMenuNode, menu_event,
};
use nptk_widgets::snapshot::build_menu_snapshot;
use nptk_widgets::global_menu::{format_key, format_shortcut, RemoteAppState, TrayBridge, TrayMenuItem, GlobalMenuEvent};
use nptk_widgets::menu_items::{MenuItem, MenuBarItem, MenuPopup, MenuButton, PopupMenuEvent, hovered_item, open_submenu, clone_item, custom_command_code};
use nptk_widgets::menubar::{MenuBar, BarEvent, GlobalMenuInput};
use nptk_widgets::widget_input::{KeyEvent, Key};
use nptk_widgets::bridge::{AppMenuRegistrar, RegistrarCall};
use nptk_widgets::global_menu::{GlobalMenuSnapshot, RemoteMenuEntry};
use nptk_widgets::remote_menu::{build_remote_item, get_item_by_index, signed_text, total_items, MirroredMenu};
use nptk_widgets::widget_input::{ButtonEvent, MouseButton, ElementState};

fn node(id: i32, label: &str, children: Vec<RemoteMenuNode>) -> RemoteMenuNode {
    RemoteMenuNode { id, label: label.to_string(), enabled: true, is_separator: false, shortcut: None, children }
}

fn press() -> ButtonEvent {
    ButtonEvent { button: MouseButton::Left, state: ElementState::Pressed }
}

#[test]
fn shortcut_is_split_on_plus() {
    let enc = encode_shortcut("Ctrl+Shift+N").unwrap();
    assert_eq!(enc, vec![vec!["Ctrl".to_string(), "Shift".to_string(), "N".to_string()]]);
    let spaced = encode_shortcut(" Ctrl + S ").unwrap();
    assert_eq!(spaced, vec![vec!["Ctrl".to_string(), "S".to_string()]]);
    assert_eq!(encode_shortcut(""), None);
    assert_eq!(encode_shortcut(" + "), None);
}

#[test]
fn labels_escape_underscores() {
    assert_eq!(escape_label("Save_As"), "Save__As");
    assert_eq!(escape_label("plain"), "plain");
    assert_eq!(escape_label("__"), "____");
}

#[test]
fn nodes_are_found_depth_first() {
    let roots = vec![node(1, "File", vec![node(2, "New", vec![]), node(3, "Open", vec![])]), node(4, "Edit", vec![])];
    assert_eq!(find_node_by_id(&roots, 3).map(|n| n.label.clone()), Some("Open".to_string()));
    assert_eq!(find_node_by_id(&roots, 4).map(|n| n.label.clone()), Some("Edit".to_string()));
    assert!(find_node_by_id(&roots, 9).is_none());
}

#[test]
fn node_properties() {
    let mut n = node(5, "Save_As", vec![]);
    n.shortcut = Some("Ctrl+S".to_string());
    let props = node_properties_map(&n);
    let names: Vec<&str> = props.iter().map(|(k, _)| k.as_str()).collect();
    assert_eq!(names, vec!["label", "enabled", "visible", "shortcut"]);
    assert!(matches!(node_property_value(&n, "label"), Some(PropValue::Text(t)) if t == "Save__As"));
    assert!(matches!(node_property_value(&n, "visible"), Some(PropValue::Flag(true))));
    assert!(node_property_value(&n, "type").is_none());
    let sep = RemoteMenuNode { id: 6, label: String::new(), enabled: true, is_separator: true, shortcut: None, children: vec![] };
    assert!(matches!(node_property_value(&sep, "type"), Some(PropValue::Text(t)) if t == "separator"));
}

#[test]
fn replace_moves_revision_and_never_reaches_zero() {
    let mut st = MenuState::new();
    assert_eq!(st.revision, 0);
    st.replace(MenuSnapshot { entries: vec![node(1, "File", vec![])] });
    assert_eq!(st.revision, 1);
    assert_eq!(st.entries.len(), 1);
    st.revision = u32::MAX;
    st.replace(MenuSnapshot { entries: vec![] });
    assert_eq!(st.revision, 1);
}

#[test]
fn menu_object_answers() {
    let mut st = MenuState::new();
    st.replace(MenuSnapshot { entries: vec![node(1, "File", vec![node(2, "New", vec![])]), node(3, "Help", vec![])] });
    let obj = MenuObject::new(st);
    assert!(obj.about_to_show(0));
    assert!(obj.about_to_show(1));
    assert!(!obj.about_to_show(3));
    assert!(matches!(obj.get_property(0, "children-display"), PropValue::Text(t) if t == "menubar"));
    assert!(matches!(obj.get_property(0, "label"), PropValue::Text(t) if t.is_empty()));
    assert!(matches!(obj.get_property(2, "label"), PropValue::Text(t) if t == "New"));
    assert!(matches!(obj.get_property(42, "label"), PropValue::Text(t) if t.is_empty()));
    let (rev, groups) = obj.group_properties(&vec![0, 2, 42], &vec!["label".to_string()]);
    assert_eq!(rev, 1);
    assert_eq!(groups.len(), 2);
    assert_eq!(groups[0].0, 0);
    assert!(groups[0].1.is_empty());
    assert_eq!(groups[1].0, 2);
    assert_eq!(groups[1].1.len(), 1);
    let (rev2, layout) = obj.get_layout(0, -1, &vec![]);
    assert_eq!(rev2, 1);
    assert_eq!(layout.id, 0);
    assert_eq!(layout.submenus.len(), 2);
    assert!(matches!(obj.event(2, "clicked"), Some(MenuEventAction::Activate(2))));
    assert!(matches!(obj.event(1, "opened"), Some(MenuEventAction::RequestLayout(1))));
    assert!(matches!(menu_event(1, "about-to-show"), Some(MenuEventAction::RequestLayout(1))));
    assert!(menu_event(1, "hovered").is_none());
}

#[test]
fn snapshot_numbers_items_in_preorder() {
    let items = vec![
        MenuBarItem::new("file", "File")
            .with_submenu_item(MenuBarItem::new("new", "New").with_shortcut("Ctrl+N").with_on_activate(7))
            .with_submenu_item(MenuBarItem::new("sep", "---")),
        MenuBarItem::new("quit", "Quit").with_on_activate(9),
    ];
    let (snap, actions, sig) = build_menu_snapshot(&items);
    assert_eq!(snap.entries.len(), 2);
    assert_eq!(snap.entries[0].id, 1);
    assert_eq!(snap.entries[0].children[0].id, 2);
    assert_eq!(snap.entries[0].children[0].shortcut, Some("Ctrl+N".to_string()));
    assert!(snap.entries[0].children[1].is_separator);
    assert_eq!(snap.entries[0].children[1].id, 3);
    assert_eq!(snap.entries[1].id, 4);
    assert_eq!(actions, vec![(2, 7), (4, 9)]);
    let (_, _, sig2) = build_menu_snapshot(&items);
    assert_eq!(sig, sig2);
}

#[test]
fn key_names_and_shortcuts_are_formatted() {
    assert_eq!(format_key("Control"), "Ctrl");
    assert_eq!(format_key("Super"), "Cmd");
    assert_eq!(format_key("Alt"), "Alt");
    let s = Some(vec![
        vec!["Control".to_string(), "q".to_string()],
        vec!["Super".to_string(), "Shift".to_string(), "x".to_string()],
    ]);
    assert_eq!(format_shortcut(&s), Some("Ctrl+q, Cmd+Shift+x".to_string()));
    assert_eq!(format_shortcut(&Some(vec![])), None);
    assert_eq!(format_shortcut(&None), None);
}

#[test]
fn tray_bridge_shows_menus_of_known_applications() {
    let mut b = TrayBridge::new();
    b.add(":1.5");
    let items = vec![TrayMenuItem {
        id: 3,
        is_separator: false,
        label: Some("Open".to_string()),
        enabled: true,
        visible: true,
        shortcut: None,
        submenu: vec![],
    }];
    assert!(b.menu_received(":1.5", &items).is_none());
    b.menu_connect(":1.5", "/MenuBar".to_string());
    match b.menu_received(":1.5", &items) {
        Some(GlobalMenuEvent::Snapshot(s)) => {
            assert_eq!(s.address, ":1.5");
            assert_eq!(s.menu_path, "/MenuBar");
            assert_eq!(s.entries.len(), 1);
            assert_eq!(s.entries[0].label, "Open");
        },
        _ => panic!("expected a snapshot"),
    }
    assert!(matches!(b.remove(":1.5"), Some(GlobalMenuEvent::Clear)));
    let fresh = RemoteAppState::new();
    assert!(fresh.menu_path.is_none());
}

#[test]
fn popup_menu_chooses_and_closes() {
    let items = vec![
        MenuBarItem::new("a", "Alpha").with_on_activate(11),
        MenuBarItem::new("s", "---"),
        MenuBarItem::new("b", "Beta").with_enabled(false),
    ];
    assert_eq!(hovered_item(&items, Some(0)), Some(0));
    assert_eq!(hovered_item(&items, Some(1)), None);
    assert_eq!(hovered_item(&items, Some(2)), None);
    let mut p = MenuPopup::new(items);
    let (u, events) = p.update(Some(0), &vec![press()]);
    assert_eq!(u.bits, 4);
    assert_eq!(events, vec![PopupMenuEvent::RunAction(11), PopupMenuEvent::ItemSelected(0), PopupMenuEvent::Close]);
    let (_, outside) = p.update(None, &vec![press()]);
    assert_eq!(outside, vec![PopupMenuEvent::Close]);
}

#[test]
fn menu_button_opens_and_reports_choice() {
    let mut mb = MenuButton::new()
        .with_menu_item(MenuItem::new("x", "Cut").with_shortcut("Ctrl+X"))
        .with_menu_item(MenuItem::new("y", "Copy"));
    let (u, labels) = mb.update(true, false, None, &vec![]);
    assert!(mb.is_menu_open());
    assert_eq!(u.bits, 4);
    assert!(labels.is_empty());
    let popup = mb.popup.as_ref().unwrap();
    assert_eq!(popup.items.len(), 2);
    assert_eq!(popup.items[0].shortcut, Some("Ctrl+X".to_string()));
    assert_eq!(popup.items[1].shortcut, Some(String::new()));
    let (u2, chosen) = mb.update(false, false, Some(1), &vec![press()]);
    assert_eq!(chosen, vec!["Copy".to_string()]);
    assert!(!mb.is_menu_open());
    assert_eq!(u2.bits & 8, 8);
}

#[test]
fn menu_button_closes_on_outside_press() {
    let mut mb = MenuButton::new().with_menu_item(MenuItem::new("x", "Cut"));
    mb.update(true, false, None, &vec![]);
    let (u, _) = mb.update(false, true, None, &vec![press()]);
    assert!(!mb.is_menu_open());
    assert_eq!(u.bits & 4, 4);
}

#[test]
fn menu_items_builders() {
    let it = MenuItem::new("id", "Label").with_shortcut("Ctrl+L").with_enabled(false);
    assert!(matches!(it, MenuItem::Item(ref l, Some(ref s)) if l == "Label" && s == "Ctrl+L"));
    assert!(matches!(MenuItem::Separator.with_shortcut("X"), MenuItem::Separator));
    let bar = MenuBarItem::new("f", "File").with_submenu_item(MenuBarItem::new("n", "New"));
    assert!(bar.has_submenu());
}

#[test]
fn menubar_visibility() {
    let mut bar = MenuBar::new();
    assert!(bar.is_visible());
    bar.hide_bar();
    assert!(!bar.is_visible());
    bar.show();
    assert!(bar.is_visible());
}

#[test]
fn registrar_plans_calls() {
    let mut r = AppMenuRegistrar::new("org.example".to_string());
    assert!(matches!(r.plan(Some(5)), RegistrarCall::Register(5)));
    assert!(r.finish(Some(5), true));
    assert!(matches!(r.plan(Some(5)), RegistrarCall::Nothing));
    assert!(matches!(r.plan(None), RegistrarCall::Unregister(5)));
    assert!(!r.finish(Some(6), false));
    assert_eq!(r.current, Some(5));
}

#[test]
fn remote_entries_become_bar_items() {
    let leaf = RemoteMenuEntry { id: -3, label: "Quit".to_string(), enabled: true, shortcut: Some("Ctrl+q".to_string()), submenu: vec![], is_separator: false };
    let sep = RemoteMenuEntry { id: 4, label: String::new(), enabled: true, shortcut: None, submenu: vec![], is_separator: true };
    let top = RemoteMenuEntry { id: 1, label: "File".to_string(), enabled: true, shortcut: None, submenu: vec![leaf, sep], is_separator: false };
    let it = build_remote_item(&top, ":1.7");
    assert_eq!(it.id, "remote-:1.7-1");
    assert_eq!(it.on_activate, None);
    assert_eq!(it.submenu[0].id, "remote-:1.7--3");
    assert_eq!(it.submenu[0].shortcut, Some("Ctrl+q".to_string()));
    assert_eq!(it.submenu[0].on_activate, Some((-3i32) as u32 as u64));
    assert_eq!(it.submenu[1].label, "---");
    assert!(!it.submenu[1].enabled);
    assert_eq!(it.submenu[1].on_activate, None);
    assert_eq!(signed_text(i32::MIN), i32::MIN.to_string());

    let mut m = MirroredMenu::new();
    assert!(!m.apply(GlobalMenuEvent::Clear));
    let snap = GlobalMenuSnapshot { address: ":1.7".to_string(), menu_path: "/Menu".to_string(), entries: vec![top] };
    assert!(m.apply(GlobalMenuEvent::Snapshot(snap)));
    assert_eq!(m.items.len(), 1);
    let act = m.action_for(m.items[0].submenu[0].on_activate.unwrap());
    assert_eq!(act.item_id, -3);
    assert_eq!(act.address, ":1.7");
    assert_eq!(act.menu_path, "/Menu");
    let own = vec![MenuBarItem::new("help", "Help")];
    assert_eq!(total_items(&m.items, &own), 2);
    assert_eq!(get_item_by_index(&m.items, &own, 1).map(|i| i.label.clone()), Some("Help".to_string()));
    assert!(get_item_by_index(&m.items, &own, 2).is_none());
    assert!(m.apply(GlobalMenuEvent::Clear));
    assert!(m.items.is_empty());
}

#[test]
fn submenu_popup_copies_children() {
    let item = MenuBarItem::new("file", "File")
        .with_submenu_item(MenuBarItem::new("new", "New").with_on_activate(3))
        .with_submenu_item(MenuBarItem::new("open", "Open").with_shortcut("Ctrl+O"));
    let popup = open_submenu(&item);
    assert_eq!(popup.hovered_index, None);
    assert_eq!(popup.items.len(), 2);
    assert_eq!(popup.items[0].on_activate, Some(3));
    assert_eq!(popup.items[1].shortcut, Some("Ctrl+O".to_string()));
    let copy = clone_item(&item);
    assert_eq!(copy.label, "File");
    assert_eq!(copy.submenu.len(), 2);
}

#[test]
fn command_codes_from_ids() {
    assert_eq!(custom_command_code("abc"), 0x1000 + 294);
    assert_eq!(custom_command_code(""), 0x1000);
    let long = "z".repeat(100);
    assert_eq!(custom_command_code(&long), 0x1000 + (122 * 100) % 0x1000);
}

fn no_global() -> GlobalMenuInput {
    GlobalMenuInput {
        events: vec![],
        bridge_was_none: false,
        bridge_available: false,
        signature: 0,
        actions: vec![],
        x11_window: None,
        wayland_surface: None,
        wayland_session: false,
    }
}

fn bar() -> MenuBar {
    MenuBar::new()
        .without_global_menu()
        .with_item(MenuBarItem::new("file", "File").with_submenu_item(MenuBarItem::new("new", "New")))
        .with_item(MenuBarItem::new("quit", "Quit").with_on_activate(5))
}

#[test]
fn f10_twice_restores_visibility() {
    let mut b = bar();
    let f10 = KeyEvent { key: Key::F10, state: ElementState::Pressed };
    b.update(&vec![f10, f10], None, &vec![], no_global());
    assert!(b.is_visible());
    b.update(&vec![f10], None, &vec![], no_global());
    assert!(!b.is_visible());
}

#[test]
fn click_opens_popup_and_escape_closes_it() {
    let mut b = bar();
    let (_, ev) = b.update(&vec![], Some(0), &vec![press()], no_global());
    assert!(ev.contains(&BarEvent::OpenPopup(0)));
    assert_eq!(b.open_menu_index, Some(0));
    assert!(b.popup_open);
    let esc = KeyEvent { key: Key::Escape, state: ElementState::Pressed };
    let (_, ev2) = b.update(&vec![esc], Some(0), &vec![], no_global());
    assert!(ev2.contains(&BarEvent::ClosePopup));
    assert_eq!(b.open_menu_index, None);
    assert!(!b.popup_open);
}

#[test]
fn click_on_leaf_runs_its_action() {
    let mut b = bar();
    let (_, ev) = b.update(&vec![], Some(1), &vec![press()], no_global());
    assert!(ev.contains(&BarEvent::RunAction(5)));
    assert_eq!(b.open_menu_index, None);
}

#[test]
fn snapshot_signature_matches_std_hashing_of_the_items() {
    let items = vec![
        MenuBarItem::new("file", "File")
            .with_submenu_item(MenuBarItem::new("new", "New").with_shortcut("Ctrl+N").with_on_activate(7)),
        MenuBarItem::new("sep", " --- "),
    ];
    let (_, _, sig) = build_menu_snapshot(&items);
    let mut h = DefaultHasher::new();
    "File".hash(&mut h);
    true.hash(&mut h);
    false.hash(&mut h);
    None::<String>.hash(&mut h);
    h.write_u64(1);
    "New".hash(&mut h);
    true.hash(&mut h);
    false.hash(&mut h);
    Some("Ctrl+N".to_string()).hash(&mut h);
    h.write_u64(0);
    " --- ".hash(&mut h);
    true.hash(&mut h);
    true.hash(&mut h);
    None::<String>.hash(&mut h);
    h.write_u64(0);
    assert_eq!(sig, h.finish());
}

#[test]
fn snapshot_signature_ignores_ids_and_callbacks() {
    let a = vec![MenuBarItem::new("a", "Open").with_on_activate(1)];
    let b = vec![MenuBarItem::new("b", "Open").with_on_activate(2)];
    let c = vec![MenuBarItem::new("a", "Close").with_on_activate(1)];
    let (_, _, sa) = build_menu_snapshot(&a);
    let (_, _, sb) = build_menu_snapshot(&b);
    let (_, _, sc) = build_menu_snapshot(&c);
    assert_eq!(sa, sb);
    assert_ne!(sa, sc);
}

#[test]
fn bar_state_stays_consistent_over_frames() {
    let mut b = bar();
    let f10 = KeyEvent { key: Key::F10, state: ElementState::Pressed };
    let frames: Vec<(Vec<KeyEvent>, Option<usize>, Vec<ButtonEvent>)> = vec![
        (vec![], Some(0), vec![press()]),
        (vec![], Some(1), vec![press()]),
        (vec![f10], None, vec![press()]),
        (vec![f10], Some(0), vec![press(), press()]),
        (vec![], None, vec![press()]),
    ];
    for (keys, hit, buttons) in frames {
        b.update(&keys, hit, &buttons, no_global());
        assert_eq!(b.popup_open, b.open_menu_index.is_some());
        if let Some(i) = b.open_menu_index {
            assert!(!b.items[i].submenu.is_empty());
        }
        if let Some(j) = b.hovered_index {
            assert!(j < b.items.len());
        }
    }
}

#[test]
fn hit_past_the_last_entry_hovers_nothing() {
    let mut b = bar();
    let (_, ev) = b.update(&vec![], Some(7), &vec![press()], no_global());
    assert_eq!(b.hovered_index, None);
    assert_eq!(b.open_menu_index, None);
    assert!(ev.is_empty());
}
