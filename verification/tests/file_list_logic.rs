use nptk_widgets::label_breaks::label_with_breaks;
use nptk_widgets::file_list::{FileList, FileEntryInfo, FileListEvent, FileListViewMode, PendingAction, PendingPlan};
use nptk_widgets::widget_input::{ButtonEvent, MouseButton, ElementState};

fn entry(path: &str, is_dir: bool) -> FileEntryInfo {
    FileEntryInfo { path: path.to_string(), is_dir }
}

fn listing() -> FileList {
    let mut fl = FileList::new("/home".to_string());
    let u = fl.directory_loaded(
        "/home",
        vec![entry("/home/a.txt", false), entry("/home/docs", true), entry("/home/c.rs", false)],
    );
    assert_eq!(u.bits, 6);
    fl
}

fn left() -> Vec<ButtonEvent> {
    vec![ButtonEvent { button: MouseButton::Left, state: ElementState::Pressed }]
}

fn right() -> Vec<ButtonEvent> {
    vec![ButtonEvent { button: MouseButton::Right, state: ElementState::Pressed }]
}

fn strs(v: &[&str]) -> Vec<String> {
    v.iter().map(|s| s.to_string()).collect()
}

#[test]
fn new_list_defaults() {
    let fl = FileList::new("/tmp".to_string());
    assert_eq!(fl.view_mode, FileListViewMode::List);
    assert_eq!(fl.icon_size, 48);
    assert!(fl.selected_paths().is_empty());
    assert_eq!(fl.selected_path(), None);
}

#[test]
fn other_directory_listing_is_ignored() {
    let mut fl = listing();
    let u = fl.directory_loaded("/elsewhere", vec![entry("/elsewhere/x", false)]);
    assert_eq!(u.bits, 0);
    assert_eq!(fl.entries.len(), 3);
}

#[test]
fn plain_click_selects_one_entry() {
    let mut fl = listing();
    let (u, events) = fl.handle_clicks(Some(0), &left(), false, false, 100);
    assert_eq!(fl.selected_paths(), strs(&["/home/a.txt"]));
    assert_eq!(fl.anchor_index, Some(0));
    assert_eq!(u.bits, 4);
    assert!(events.is_empty());
}

#[test]
fn shift_click_selects_range_from_anchor() {
    let mut fl = listing();
    fl.handle_clicks(Some(0), &left(), false, false, 100);
    fl.handle_clicks(Some(2), &left(), true, false, 5000);
    assert_eq!(fl.selected_paths(), strs(&["/home/a.txt", "/home/docs", "/home/c.rs"]));
    assert_eq!(fl.anchor_index, Some(0));
}

#[test]
fn shift_click_without_anchor_starts_at_first_entry() {
    let mut fl = listing();
    fl.handle_clicks(Some(1), &left(), true, false, 100);
    assert_eq!(fl.selected_paths(), strs(&["/home/a.txt", "/home/docs"]));
}

#[test]
fn ctrl_click_toggles_entry() {
    let mut fl = listing();
    fl.handle_clicks(Some(0), &left(), false, false, 100);
    fl.handle_clicks(Some(2), &left(), false, true, 5000);
    assert_eq!(fl.selected_paths(), strs(&["/home/a.txt", "/home/c.rs"]));
    fl.handle_clicks(Some(0), &left(), false, true, 10000);
    assert_eq!(fl.selected_paths(), strs(&["/home/c.rs"]));
    assert_eq!(fl.anchor_index, Some(0));
}

#[test]
fn ctrl_shift_click_adds_range_once() {
    let mut fl = listing();
    fl.handle_clicks(Some(0), &left(), false, false, 100);
    fl.handle_clicks(Some(1), &left(), false, true, 5000);
    fl.handle_clicks(Some(2), &left(), true, true, 10000);
    let sel = fl.selected_paths();
    assert_eq!(sel.len(), 3);
    for p in ["/home/a.txt", "/home/docs", "/home/c.rs"] {
        assert!(sel.iter().any(|s| s == p));
    }
}

#[test]
fn double_click_on_directory_enters_it() {
    let mut fl = listing();
    fl.handle_clicks(Some(1), &left(), false, false, 1000);
    let (u, events) = fl.handle_clicks(Some(1), &left(), false, false, 1200);
    assert_eq!(fl.current_path, "/home/docs");
    assert!(fl.selected_paths().is_empty());
    assert_eq!(u.bits, 6);
    assert!(matches!(&events[..], [FileListEvent::Navigate(p)] if p == "/home/docs"));
}

#[test]
fn double_click_on_file_only_selects() {
    let mut fl = listing();
    fl.handle_clicks(Some(0), &left(), false, false, 1000);
    let (_, events) = fl.handle_clicks(Some(0), &left(), false, false, 1200);
    assert!(events.is_empty());
    assert_eq!(fl.current_path, "/home");
    assert_eq!(fl.selected_paths(), strs(&["/home/a.txt"]));
}

#[test]
fn right_click_selects_and_asks_for_context_menu() {
    let mut fl = listing();
    fl.handle_clicks(Some(0), &left(), false, false, 100);
    let (_, events) = fl.handle_clicks(Some(2), &right(), false, false, 5000);
    assert_eq!(fl.selected_paths(), strs(&["/home/c.rs"]));
    match &events[..] {
        [FileListEvent::ContextMenu(t, sel)] => {
            assert_eq!(t, "/home/c.rs");
            assert_eq!(sel, &strs(&["/home/c.rs"]));
        },
        _ => panic!("expected one context menu request"),
    }
}

#[test]
fn ctrl_right_click_adds_to_selection() {
    let mut fl = listing();
    fl.handle_clicks(Some(0), &left(), false, false, 100);
    let (_, events) = fl.handle_clicks(Some(2), &right(), false, true, 5000);
    assert_eq!(fl.selected_paths(), strs(&["/home/a.txt", "/home/c.rs"]));
    assert_eq!(events.len(), 1);
}

#[test]
fn press_on_empty_area_starts_drag_and_clears() {
    let mut fl = listing();
    fl.handle_clicks(Some(0), &left(), false, false, 100);
    let (u, events) = fl.handle_clicks(None, &left(), false, false, 5000);
    assert!(fl.selected_paths().is_empty());
    assert_eq!(u.bits, 4);
    assert!(matches!(&events[..], [FileListEvent::BeginDrag]));
    fl.handle_clicks(Some(0), &left(), false, false, 9000);
    let (_, events2) = fl.handle_clicks(Some(7), &left(), false, true, 12000);
    assert_eq!(fl.selected_paths(), strs(&["/home/a.txt"]));
    assert!(matches!(&events2[..], [FileListEvent::BeginDrag]));
}

#[test]
fn drag_selection_adds_hits_without_duplicates() {
    let mut fl = listing();
    fl.handle_clicks(Some(0), &left(), false, false, 100);
    fl.drag_selection(&strs(&["/home/a.txt", "/home/docs"]), true);
    assert_eq!(fl.selected_paths(), strs(&["/home/a.txt", "/home/docs"]));
    fl.drag_selection(&strs(&["/home/c.rs"]), false);
    assert_eq!(fl.selected_paths(), strs(&["/home/c.rs"]));
}

#[test]
fn select_all_and_clear() {
    let mut fl = listing();
    fl.select_all();
    assert_eq!(fl.selected_paths(), strs(&["/home/a.txt", "/home/docs", "/home/c.rs"]));
    assert_eq!(fl.selected_path(), Some("/home/a.txt".to_string()));
    fl.clear_selection();
    assert!(fl.selected_paths().is_empty());
}

#[test]
fn pending_open_with_application() {
    let mut fl = listing();
    let a = PendingAction { paths: strs(&["/home/a.txt"]), app_id: Some("org.editor".to_string()), properties: false };
    let (u, plan) = fl.apply_pending(a, &vec![false]);
    assert_eq!(u.bits, 0);
    assert!(matches!(plan, PendingPlan::LaunchWith(id, p) if id == "org.editor" && p == strs(&["/home/a.txt"])));
}

#[test]
fn pending_properties() {
    let mut fl = listing();
    let a = PendingAction { paths: strs(&["/home/a.txt", "/home/docs"]), app_id: None, properties: true };
    let (_, plan) = fl.apply_pending(a, &vec![false, true]);
    assert!(matches!(plan, PendingPlan::ShowProperties(p) if p.len() == 2));
}

#[test]
fn pending_open_single_directory_enters_it() {
    let mut fl = listing();
    fl.select_all();
    let a = PendingAction { paths: strs(&["/home/docs"]), app_id: None, properties: false };
    let (u, plan) = fl.apply_pending(a, &vec![true]);
    assert_eq!(u.bits, 6);
    assert_eq!(fl.current_path, "/home/docs");
    assert!(fl.selected_paths().is_empty());
    assert!(matches!(plan, PendingPlan::Navigate(p) if p == "/home/docs"));
}

#[test]
fn pending_open_several_skips_directories() {
    let mut fl = listing();
    let a = PendingAction { paths: strs(&["/home/a.txt", "/home/docs", "/home/c.rs"]), app_id: None, properties: false };
    let (u, plan) = fl.apply_pending(a, &vec![false, true, false]);
    assert_eq!(u.bits, 0);
    assert!(matches!(plan, PendingPlan::Launch(p) if p == strs(&["/home/a.txt", "/home/c.rs"])));
}

#[test]
fn view_mode_and_icon_size_setters() {
    let mut fl = FileList::new("/".to_string()).with_view_mode(FileListViewMode::Icon).with_icon_size(64);
    assert_eq!(fl.view_mode, FileListViewMode::Icon);
    assert_eq!(fl.icon_size, 64);
    fl.set_view_mode(FileListViewMode::Compact);
    fl.set_icon_size(32);
    fl.set_path("/usr".to_string());
    assert_eq!(fl.view_mode, FileListViewMode::Compact);
    assert_eq!(fl.icon_size, 32);
    assert_eq!(fl.current_path, "/usr");
}

#[test]
fn label_breaks_after_punctuation() {
    let (text, natural) = label_with_breaks("a/b.c_d-e f");
    assert_eq!(text, "a/\u{200B}b.\u{200B}c_\u{200B}d-\u{200B}e f");
    assert!(natural);
}

#[test]
fn label_breaks_long_continuous_names_every_ten_characters() {
    let (text, natural) = label_with_breaks("abcdefghijKLMNOPQRST123");
    assert_eq!(text, "abcdefghij\u{200B}KLMNOPQRST\u{200B}123");
    assert!(!natural);
    let (short, natural2) = label_with_breaks("abcdefghi");
    assert_eq!(short, "abcdefghi");
    assert!(!natural2);
}

#[test]
fn label_with_spaces_gets_no_run_breaks() {
    let (text, natural) = label_with_breaks("abcdefghijklmn opq");
    assert_eq!(text, "abcdefghijklmn opq");
    assert!(natural);
    let (empty, natural3) = label_with_breaks("");
    assert_eq!(empty, "");
    assert!(!natural3);
}
