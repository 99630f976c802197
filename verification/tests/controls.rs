use nptk_widgets::button::{Button, ButtonState, ButtonSignal};
use nptk_widgets::radio_button::{RadioButton, RadioButtonState, RadioSignal};
use nptk_widgets::checkbox::{Checkbox, CheckboxState};
use nptk_widgets::gesture::{GestureDetector, GestureCallbacks};
use nptk_widgets::popup::{Popup, OverlayRequest};
use nptk_widgets::scroll::{
    needs_vertical_scrollbar, needs_horizontal_scrollbar, ScrollbarVisibility, ScrollDirection,
    VerticalScrollbarPosition, ScrollbarButtons, ScrollInteraction, ScrollHits, ArrowDirection,
};
use nptk_widgets::platform::{is_wayland_session, wayland_from_lowered};
use nptk_widgets::composite::{container_update_slots, visible_children, ChildSlot, CacheState, FetchState, FetchBuild};
use nptk_widgets::update::Update;
use nptk_widgets::widget_input::{ButtonEvent, MouseButton, ElementState, KeyEvent, Key, FocusState, FocusReport};

fn press() -> ButtonEvent {
    ButtonEvent { button: MouseButton::Left, state: ElementState::Pressed }
}

fn release() -> ButtonEvent {
    ButtonEvent { button: MouseButton::Left, state: ElementState::Released }
}

fn fired(s: &[ButtonSignal]) -> usize {
    s.iter().filter(|x| **x == ButtonSignal::Fired).count()
}

#[test]
fn button_fires_on_release() {
    let mut b = Button::new().with_on_pressed(Update { bits: 1 });
    let (_, s1) = b.update(None, &vec![], true, &vec![press()], 0);
    assert_eq!(b.state, ButtonState::Pressed);
    assert_eq!(fired(&s1), 0);
    let (u, s2) = b.update(None, &vec![], true, &vec![release()], 10);
    assert_eq!(b.state, ButtonState::Released);
    assert_eq!(fired(&s2), 1);
    assert_eq!(u.bits & 1, 1);
}

#[test]
fn button_leaving_idles() {
    let mut b = Button::new();
    b.update(None, &vec![], true, &vec![], 0);
    assert_eq!(b.state, ButtonState::Hovered);
    let (u, _) = b.update(None, &vec![], false, &vec![], 0);
    assert_eq!(b.state, ButtonState::Idle);
    assert_eq!(u.bits, 4);
}

#[test]
fn focused_button_fires_on_space() {
    let mut b = Button::new().with_on_pressed(Update { bits: 1 });
    let focus = Some(FocusReport { state: FocusState::Gained, via_keyboard: true });
    let keys = vec![KeyEvent { key: Key::Space, state: ElementState::Pressed }];
    let (_, s) = b.update(focus, &keys, false, &vec![], 0);
    assert_eq!(fired(&s), 1);
    assert!(b.focus_via_keyboard);
    let keys2 = vec![KeyEvent { key: Key::Space, state: ElementState::Released }];
    let focus2 = Some(FocusReport { state: FocusState::Focused, via_keyboard: false });
    b.update(focus2, &keys2, false, &vec![], 0);
    assert_eq!(b.state, ButtonState::Idle);
}

#[test]
fn unfocused_button_ignores_keys() {
    let mut b = Button::new();
    let keys = vec![KeyEvent { key: Key::Enter, state: ElementState::Pressed }];
    let (_, s) = b.update(None, &keys, false, &vec![], 0);
    assert_eq!(fired(&s), 0);
}

#[test]
fn disabled_button_never_fires() {
    let mut b = Button::new().with_disabled(true).with_tooltip("tip".to_string());
    let (_, s) = b.update(None, &vec![], true, &vec![press(), release()], 0);
    assert_eq!(fired(&s), 0);
    assert_eq!(b.state, ButtonState::Idle);
    assert_eq!(s, vec![ButtonSignal::HideTooltip, ButtonSignal::ClearStatusTip]);
}

#[test]
fn repeating_button_fires_while_held() {
    let mut b = Button::new().with_repeat(true).with_repeat_delay(500).with_repeat_interval(100);
    let (_, s0) = b.update(None, &vec![], true, &vec![press()], 1000);
    assert_eq!(fired(&s0), 1);
    let (_, s1) = b.update(None, &vec![], true, &vec![], 1400);
    assert_eq!(fired(&s1), 0);
    let (u2, s2) = b.update(None, &vec![], true, &vec![], 1500);
    assert_eq!(fired(&s2), 1);
    assert_eq!(u2.bits & 4, 4);
    let (_, s3) = b.update(None, &vec![], true, &vec![], 1550);
    assert_eq!(fired(&s3), 0);
    let (_, s4) = b.update(None, &vec![], true, &vec![], 1600);
    assert_eq!(fired(&s4), 1);
    let (_, s5) = b.update(None, &vec![], true, &vec![release()], 1650);
    assert_eq!(fired(&s5), 0);
    assert_eq!(b.press_start_ms, None);
}

#[test]
fn tooltip_shown_and_hidden_once() {
    let mut b = Button::new().with_tooltip("Save".to_string()).with_status_tip("Saves the file".to_string());
    let (_, s1) = b.update(None, &vec![], true, &vec![], 0);
    assert_eq!(s1, vec![ButtonSignal::ShowTooltip, ButtonSignal::ShowStatusTip]);
    let (_, s2) = b.update(None, &vec![], true, &vec![], 0);
    assert!(s2.is_empty());
    let (_, s3) = b.update(None, &vec![], false, &vec![], 0);
    assert_eq!(s3, vec![ButtonSignal::HideTooltip, ButtonSignal::ClearStatusTip]);
}

#[test]
fn radio_click_selects_once() {
    let mut r = RadioButton::new("A".to_string(), "group".to_string());
    let (_, s1) = r.update(None, &vec![], Some(true), &vec![press()]);
    assert_eq!(s1, vec![RadioSignal::RequestFocus]);
    assert_eq!(r.state, RadioButtonState::Pressed);
    let (u, s2) = r.update(None, &vec![], Some(true), &vec![release()]);
    assert_eq!(s2, vec![RadioSignal::Selected]);
    assert!(r.is_selected());
    assert_eq!(r.state, RadioButtonState::Hovered);
    assert_eq!(u.bits, 4);
    r.update(None, &vec![], Some(true), &vec![press()]);
    let (_, s4) = r.update(None, &vec![], Some(true), &vec![release()]);
    assert!(s4.is_empty());
    assert_eq!(r.group_id(), "group");
}

#[test]
fn radio_release_outside_does_not_select() {
    let mut r = RadioButton::new("A".to_string(), "g".to_string());
    r.update(None, &vec![], Some(true), &vec![press()]);
    let (_, s) = r.update(None, &vec![], Some(false), &vec![release()]);
    assert!(s.is_empty());
    assert!(!r.is_selected());
    assert_eq!(r.state, RadioButtonState::Idle);
}

#[test]
fn radio_space_selects_when_focused() {
    let mut r = RadioButton::new("A".to_string(), "g".to_string());
    let keys = vec![KeyEvent { key: Key::Enter, state: ElementState::Pressed }];
    let (_, s) = r.update(Some(FocusReport { state: FocusState::Gained, via_keyboard: true }), &keys, None, &vec![]);
    assert_eq!(s, vec![RadioSignal::Selected]);
    assert!(r.focus_via_keyboard);
}

#[test]
fn radio_set_selected_reports_change() {
    let mut r = RadioButton::new("A".to_string(), "g".to_string());
    assert!(r.set_selected(true));
    assert!(!r.set_selected(true));
    assert!(!r.set_selected(false));
}

#[test]
fn checkbox_cycles() {
    assert_eq!(CheckboxState::Unchecked.cycle_next(), CheckboxState::Checked);
    assert_eq!(CheckboxState::Checked.cycle_next(), CheckboxState::Indeterminate);
    assert_eq!(CheckboxState::Indeterminate.cycle_next(), CheckboxState::Unchecked);
    assert_eq!(CheckboxState::Checked.cycle_next_with_indeterminate(false), CheckboxState::Unchecked);
    assert_eq!(CheckboxState::from_bool(true), CheckboxState::Checked);
    assert!(!CheckboxState::Indeterminate.to_bool());
}

#[test]
fn checkbox_locked_state_blocks_toggle() {
    let mut fixed = Checkbox::new_bool(false, true).with_locked_state(CheckboxState::Unchecked);
    fixed.unlock_all_states();
    assert!(!fixed.try_toggle());
    let mut c = Checkbox::new_bool(false, true).with_locked_states(vec![CheckboxState::Unchecked], true);
    assert!(!c.try_toggle());
    assert_eq!(c.current_state(), CheckboxState::Unchecked);
    c.unlock_all_states();
    assert!(c.try_toggle());
    assert_eq!(c.current_state(), CheckboxState::Checked);
}

#[test]
fn gesture_updates() {
    let g = GestureDetector::new()
        .with_on_press(Update { bits: 1 })
        .with_on_release(Update { bits: 2 })
        .with_on_hover(Update { bits: 8 });
    assert_eq!(g.update(true, &vec![press(), release()]).bits, 11);
    assert_eq!(g.update(true, &vec![]).bits, 8);
    assert_eq!(g.update(false, &vec![press()]).bits, 0);
    let c = GestureCallbacks::new();
    assert_eq!(c.press.bits, 0);
}

#[test]
fn popup_show_hide_toggle() {
    let mut p = Popup::new();
    assert_eq!(p.show(), OverlayRequest::Add);
    p.attach(7);
    assert_eq!(p.show(), OverlayRequest::Nothing);
    assert_eq!(p.toggle(), OverlayRequest::Remove(7));
    assert!(!p.is_visible());
    assert_eq!(p.hide_popup(), OverlayRequest::Nothing);
    assert_eq!(p.toggle(), OverlayRequest::Add);
    assert!(p.is_visible());
}

#[test]
fn scrollbars_by_visibility() {
    assert!(needs_vertical_scrollbar(ScrollbarVisibility::Always, ScrollDirection::Clipped, false));
    assert!(!needs_vertical_scrollbar(ScrollbarVisibility::Never, ScrollDirection::Vertical, true));
    assert!(needs_vertical_scrollbar(ScrollbarVisibility::Auto, ScrollDirection::Both, true));
    assert!(!needs_vertical_scrollbar(ScrollbarVisibility::Auto, ScrollDirection::Horizontal, true));
    assert!(needs_horizontal_scrollbar(ScrollbarVisibility::Auto, ScrollDirection::Horizontal, true));
    assert!(!needs_horizontal_scrollbar(ScrollbarVisibility::Auto, ScrollDirection::Both, false));
    assert_eq!(VerticalScrollbarPosition::default(), VerticalScrollbarPosition::Left);
    assert_eq!(ScrollbarButtons::default(), ScrollbarButtons::Always);
}

#[test]
fn wayland_detection() {
    assert!(is_wayland_session(true, None));
    assert!(is_wayland_session(false, Some("Wayland")));
    assert!(!is_wayland_session(false, Some("x11")));
    assert!(!is_wayland_session(false, None));
    assert!(wayland_from_lowered(false, Some("wayland")));
    assert!(!wayland_from_lowered(false, Some("Wayland")));
}

#[test]
fn container_slots_skip_hidden_children() {
    assert_eq!(
        container_update_slots(&vec![false, true, false], 2),
        vec![ChildSlot::Layout(0), ChildSlot::Hidden, ChildSlot::Layout(1)]
    );
    assert_eq!(container_update_slots(&vec![false, false, true], 1), vec![ChildSlot::Layout(0)]);
    assert_eq!(visible_children(&vec![true, false, false], 5), vec![(1, 0), (2, 1)]);
    assert_eq!(visible_children(&vec![false, false], 1), vec![(0, 0)]);
}

#[test]
fn cache_and_fetch_states() {
    let mut c = CacheState::new();
    assert!(c.before_render(false));
    assert!(!c.is_dirty);
    assert!(!c.after_child_update(Update { bits: 0 }, false));
    assert!(!c.before_render(true));
    assert!(!c.after_child_update(Update { bits: 0 }, true));
    assert!(c.is_dirty);
    assert!(c.before_render(true));
    assert!(c.after_child_update(Update { bits: 2 }, false));
    let mut f = FetchState::new(Update { bits: 4 });
    assert_eq!(f.step(false).0, FetchBuild::Placeholder);
    assert_eq!(f.step(false).0, FetchBuild::Keep);
    let (b, u) = f.step(true);
    assert_eq!(b, FetchBuild::FromResult);
    assert_eq!(u.bits, 4);
    assert_eq!(f.step(true).0, FetchBuild::Keep);
}

#[test]
fn scroll_arrow_press_holds_and_release_lets_go() {
    let mut s = ScrollInteraction::new();
    let hits = ScrollHits {
        vertical_buttons: Some((false, true)),
        horizontal_buttons: None,
        on_vertical_thumb: false,
        on_horizontal_thumb: false,
    };
    let (started, redraw) = s.update(hits, &vec![ButtonEvent { button: MouseButton::Left, state: ElementState::Pressed }]);
    assert!(!started);
    assert!(redraw);
    assert_eq!(s.now.button_held, Some(ArrowDirection::Down));
    assert!(s.now.down_hovered);
    let (_, redraw) = s.update(hits, &vec![]);
    assert!(!redraw);
    let (_, redraw) = s.update(hits, &vec![ButtonEvent { button: MouseButton::Left, state: ElementState::Released }]);
    assert!(redraw);
    assert_eq!(s.now.button_held, None);
}

#[test]
fn scroll_thumb_press_starts_a_drag() {
    let mut s = ScrollInteraction::new();
    let hits = ScrollHits {
        vertical_buttons: Some((false, false)),
        horizontal_buttons: Some((false, false)),
        on_vertical_thumb: true,
        on_horizontal_thumb: false,
    };
    let (started, redraw) = s.update(hits, &vec![ButtonEvent { button: MouseButton::Left, state: ElementState::Pressed }]);
    assert!(started);
    assert!(redraw);
    assert!(s.now.dragging_vertical);
    assert!(!s.now.dragging_horizontal);
    let right = ButtonEvent { button: MouseButton::Right, state: ElementState::Released };
    s.update(hits, &vec![right]);
    assert!(s.now.dragging_vertical);
}
