use nptk_widgets::selection::{normalize, toggle_row, row_range, insert_sorted};
use nptk_widgets::item_view::{
    ItemView, ViewMode, SortOrder, NavKey, KeyInput, Modifiers, PointerInput, ViewEvent,
};

fn key(k: NavKey) -> KeyInput {
    KeyInput { key: k, pressed: true, repeat: false }
}

fn no_mods() -> Modifiers {
    Modifiers { shift: false, ctrl: false }
}

fn click(row: usize) -> PointerInput {
    PointerInput { hovered: Some(row), header_column: None, left_down: true, right_down: false }
}

fn release(row: usize) -> PointerInput {
    PointerInput { hovered: Some(row), header_column: None, left_down: false, right_down: false }
}

fn selections(events: &[ViewEvent]) -> Vec<Vec<usize>> {
    events
        .iter()
        .filter_map(|e| match e {
            ViewEvent::SelectionChanged(v) => Some(v.clone()),
            _ => None,
        })
        .collect()
}

#[test]
fn normalize_sorts_and_removes_duplicates() {
    assert_eq!(normalize(&vec![3, 1, 3, 2, 1]), vec![1, 2, 3]);
    assert_eq!(normalize(&vec![]), Vec::<usize>::new());
    assert_eq!(normalize(&vec![7]), vec![7]);
    let once = normalize(&vec![9, 2, 9, 4]);
    assert_eq!(normalize(&once), once);
}

#[test]
fn insert_sorted_keeps_order_and_skips_present_rows() {
    let mut v = vec![1, 4, 9];
    insert_sorted(&mut v, 5);
    assert_eq!(v, vec![1, 4, 5, 9]);
    insert_sorted(&mut v, 4);
    assert_eq!(v, vec![1, 4, 5, 9]);
    insert_sorted(&mut v, 0);
    assert_eq!(v, vec![0, 1, 4, 5, 9]);
}

#[test]
fn toggle_row_removes_first_occurrence_or_appends() {
    assert_eq!(toggle_row(&vec![2, 5, 2], 2), vec![5, 2]);
    assert_eq!(toggle_row(&vec![2, 5], 7), vec![2, 5, 7]);
}

#[test]
fn row_range_is_clipped_to_row_count() {
    assert_eq!(row_range(2, 5, 10), vec![2, 3, 4, 5]);
    assert_eq!(row_range(2, 5, 4), vec![2, 3]);
    assert_eq!(row_range(3, 3, 10), vec![3]);
}

#[test]
fn arrow_down_without_selection_selects_first_row() {
    let mut v = ItemView::new();
    let (u, events) = v.update(5, &vec![key(NavKey::ArrowDown)], no_mods(), 1, None, 1, 0);
    assert_eq!(v.selected_rows(), &vec![0]);
    assert_eq!(selections(&events), vec![vec![0]]);
    // the row count changed from 0 to 5: layout and redraw
    assert_eq!(u.bits, 6);
}

#[test]
fn arrow_up_without_selection_selects_last_row() {
    let mut v = ItemView::new();
    v.update(5, &vec![key(NavKey::ArrowUp)], no_mods(), 1, None, 1, 0);
    assert_eq!(v.selected_rows(), &vec![4]);
}

#[test]
fn shift_arrow_extends_selection() {
    let mut v = ItemView::new().with_selected_rows(vec![1], true);
    let shift = Modifiers { shift: true, ctrl: false };
    v.update(5, &vec![key(NavKey::ArrowDown), key(NavKey::ArrowDown)], shift, 1, None, 1, 0);
    assert_eq!(v.selected_rows(), &vec![1, 2, 3]);
    assert_eq!(v.last_selected_index, Some(3));
}

#[test]
fn grid_moves_by_a_line_and_stops_at_the_edges() {
    let mut v = ItemView::new().with_selected_rows(vec![1], true);
    v.update(10, &vec![key(NavKey::ArrowDown)], no_mods(), 4, None, 1, 0);
    assert_eq!(v.selected_rows(), &vec![5]);
    // 5 + 4 is 9 < 10: moves; 9 + 4 is past the end: stays
    v.update(10, &vec![key(NavKey::ArrowDown), key(NavKey::ArrowDown)], no_mods(), 4, None, 1, 0);
    assert_eq!(v.selected_rows(), &vec![9]);
    v.update(10, &vec![key(NavKey::ArrowRight)], no_mods(), 4, None, 1, 0);
    assert_eq!(v.selected_rows(), &vec![9]);
    v.update(10, &vec![key(NavKey::ArrowLeft)], no_mods(), 4, None, 1, 0);
    assert_eq!(v.selected_rows(), &vec![8]);
}

#[test]
fn repeated_and_released_keys_are_ignored() {
    let mut v = ItemView::new().with_selected_rows(vec![1], true);
    let keys = vec![
        KeyInput { key: NavKey::ArrowDown, pressed: true, repeat: true },
        KeyInput { key: NavKey::ArrowDown, pressed: false, repeat: false },
    ];
    let (_, events) = v.update(0, &keys, no_mods(), 1, None, 1, 0);
    assert!(events.is_empty());
    assert_eq!(v.selected_rows(), &vec![1]);
}

#[test]
fn enter_activates_first_selected_row() {
    let mut v = ItemView::new().with_selected_rows(vec![2, 4], true);
    let (_, events) = v.update(5, &vec![key(NavKey::Enter)], no_mods(), 1, None, 1, 0);
    assert!(events.iter().any(|e| matches!(e, ViewEvent::Activate(2))));
}

#[test]
fn space_toggles_last_selected_row() {
    let mut v = ItemView::new().with_selected_rows(vec![1], true);
    v.update(5, &vec![key(NavKey::ArrowDown)], no_mods(), 1, None, 1, 0);
    assert_eq!(v.selected_rows(), &vec![2]);
    v.update(5, &vec![key(NavKey::Space)], no_mods(), 1, None, 1, 0);
    assert_eq!(v.selected_rows(), &Vec::<usize>::new());
    v.update(5, &vec![key(NavKey::Space)], no_mods(), 1, None, 1, 0);
    assert_eq!(v.selected_rows(), &vec![2]);
}

#[test]
fn untracked_selection_does_not_change_but_is_reported() {
    let mut v = ItemView::new().with_selected_rows(vec![1], false);
    let (_, events) = v.update(5, &vec![key(NavKey::ArrowDown)], no_mods(), 1, None, 1, 0);
    assert_eq!(v.selected_rows(), &vec![1]);
    assert_eq!(selections(&events), vec![vec![2]]);
}

#[test]
fn plain_click_selects_row_and_ctrl_click_toggles() {
    let mut v = ItemView::new();
    v.update(5, &vec![], no_mods(), 1, Some(click(3)), 1, 0);
    assert_eq!(v.selected_rows(), &vec![3]);
    v.update(5, &vec![], no_mods(), 1, Some(release(1)), 1, 10);
    let ctrl = Modifiers { shift: false, ctrl: true };
    v.update(5, &vec![], ctrl, 1, Some(click(1)), 1, 2000);
    assert_eq!(v.selected_rows(), &vec![1, 3]);
    v.update(5, &vec![], ctrl, 1, Some(release(3)), 1, 2010);
    v.update(5, &vec![], ctrl, 1, Some(click(3)), 1, 4000);
    assert_eq!(v.selected_rows(), &vec![1]);
}

#[test]
fn shift_click_selects_range_from_last_selected() {
    let mut v = ItemView::new();
    v.update(10, &vec![], no_mods(), 1, Some(click(6)), 1, 0);
    v.update(10, &vec![], no_mods(), 1, Some(release(2)), 1, 5);
    let shift = Modifiers { shift: true, ctrl: false };
    v.update(10, &vec![], shift, 1, Some(click(2)), 1, 3000);
    assert_eq!(v.selected_rows(), &vec![2, 3, 4, 5, 6]);
}

#[test]
fn held_button_clicks_only_once() {
    let mut v = ItemView::new();
    let (_, e1) = v.update(5, &vec![], no_mods(), 1, Some(click(1)), 1, 0);
    let (_, e2) = v.update(5, &vec![], no_mods(), 1, Some(click(1)), 1, 100);
    assert_eq!(selections(&e1).len(), 1);
    assert!(e2.is_empty());
}

#[test]
fn double_click_activates_row() {
    let mut v = ItemView::new();
    v.update(5, &vec![], no_mods(), 1, Some(click(3)), 1, 1000);
    v.update(5, &vec![], no_mods(), 1, Some(release(3)), 1, 1050);
    let (_, events) = v.update(5, &vec![], no_mods(), 1, Some(click(3)), 1, 1200);
    assert!(events.iter().any(|e| matches!(e, ViewEvent::Activate(3))));
    assert_eq!(v.last_click, None);
}

#[test]
fn slow_second_click_does_not_activate() {
    let mut v = ItemView::new();
    v.update(5, &vec![], no_mods(), 1, Some(click(3)), 1, 1000);
    v.update(5, &vec![], no_mods(), 1, Some(release(3)), 1, 1050);
    let (_, events) = v.update(5, &vec![], no_mods(), 1, Some(click(3)), 1, 1500);
    assert!(!events.iter().any(|e| matches!(e, ViewEvent::Activate(_))));
    assert_eq!(v.last_click, Some((3, 1500)));
}

#[test]
fn right_click_selects_unselected_row_and_opens_context_menu() {
    let mut v = ItemView::new().with_selected_rows(vec![0, 1], true);
    let p = PointerInput { hovered: Some(3), header_column: None, left_down: false, right_down: true };
    let (_, events) = v.update(5, &vec![], no_mods(), 1, Some(p), 1, 0);
    assert_eq!(v.selected_rows(), &vec![3]);
    assert!(matches!(events.last(), Some(ViewEvent::ContextMenu(3))));
    let p2 = PointerInput { hovered: Some(3), header_column: None, left_down: false, right_down: true };
    let (_, events2) = v.update(5, &vec![], no_mods(), 1, Some(p2), 1, 0);
    assert_eq!(events2.len(), 1);
}

#[test]
fn header_clicks_sort_ascending_then_descending() {
    let mut v = ItemView::new().with_view_mode(ViewMode::Table).with_sorted_column(None, true);
    let head = PointerInput { hovered: None, header_column: Some(1), left_down: true, right_down: false };
    let up = PointerInput { hovered: None, header_column: Some(1), left_down: false, right_down: false };
    let (_, e1) = v.update(5, &vec![], no_mods(), 1, Some(head), 3, 0);
    assert!(matches!(e1.last(), Some(ViewEvent::Sort(1, SortOrder::Ascending))));
    v.update(5, &vec![], no_mods(), 1, Some(up), 3, 10);
    let (_, e2) = v.update(5, &vec![], no_mods(), 1, Some(head), 3, 20);
    assert!(matches!(e2.last(), Some(ViewEvent::Sort(1, SortOrder::Descending))));
    assert_eq!(v.sorted_column, Some((1, SortOrder::Descending)));
}

#[test]
fn header_click_past_last_column_does_not_sort() {
    let mut v = ItemView::new().with_view_mode(ViewMode::Table);
    let head = PointerInput { hovered: None, header_column: Some(5), left_down: true, right_down: false };
    let (_, events) = v.update(5, &vec![], no_mods(), 1, Some(head), 3, 0);
    assert!(events.is_empty());
}

#[test]
fn hover_change_asks_for_redraw() {
    let mut v = ItemView::new();
    v.update(5, &vec![], no_mods(), 1, None, 1, 0);
    let (u, _) = v.update(5, &vec![], no_mods(), 1, Some(release(2)), 1, 0);
    assert_eq!(u.bits, 4);
    assert_eq!(v.hovered_row, Some(2));
    let (u2, _) = v.update(5, &vec![], no_mods(), 1, Some(release(2)), 1, 0);
    assert_eq!(u2.bits, 0);
}

#[test]
fn reported_selection_is_sorted_and_matches_the_stored_one() {
    let mut v = ItemView::new().with_selected_rows(vec![4, 1, 4], true);
    let shift = Modifiers { shift: true, ctrl: false };
    let right = PointerInput { hovered: Some(5), header_column: None, left_down: false, right_down: true };
    let (_, events) = v.update(6, &vec![key(NavKey::ArrowLeft)], shift, 1, Some(right), 1, 0);
    let reported = selections(&events);
    assert_eq!(reported, vec![vec![1, 3, 4], vec![5]]);
    for s in &reported {
        assert!(s.windows(2).all(|w| w[0] < w[1]));
    }
    assert_eq!(v.selected_rows(), &vec![5]);
}
