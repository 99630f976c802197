//! The radio button's interaction state: selection by click or by Space and
//! Enter when focused, and its hover and press look. Whether the cursor is
//! over the button is measured by the host.

use vstd::prelude::*;
use crate::update::{Update, UPDATE_DRAW};
use crate::widget_input::{ButtonEvent, KeyEvent, Key, MouseButton, ElementState, FocusState, FocusReport};

verus! {

/// Represents the state of a radio button.
#[derive(Debug, Clone, Copy, PartialEq, Eq, Structural)]
pub enum RadioButtonState {
    /// Radio button is in its default state
    Idle,
    /// Mouse cursor is hovering over the radio button
    Hovered,
    /// Mouse button is pressed down on the radio button
    Pressed,
}

/// What the radio button asks its host to do, in order.
#[derive(Debug, Clone, Copy, PartialEq, Eq, Structural)]
pub enum RadioSignal {
    /// The button became selected: run the `on_selected` callback.
    Selected,
    /// Give the button the keyboard focus.
    RequestFocus,
}

/// A radio button: selected or not, with a label and the group it belongs to.
pub struct RadioButton {
    pub selected: bool,
    pub label: String,
    pub group_id: String,
    pub state: RadioButtonState,
    pub focus_state: FocusState,
    pub focus_via_keyboard: bool,
    pub disabled: bool,
}

/// Selecting: the callback runs when the button was not selected before.
pub open spec fn selected_to(b: RadioButton, selected: bool) -> (RadioButton, Seq<RadioSignal>) {
    (RadioButton { selected, ..b }, if selected && !b.selected { seq![RadioSignal::Selected] } else { Seq::empty() })
}

/// Space and Enter presses select the button.
pub open spec fn radio_keys(b: RadioButton, keys: Seq<KeyEvent>) -> (RadioButton, bool, Seq<RadioSignal>)
    decreases keys.len(),
{
    if keys.len() == 0 {
        (b, false, Seq::empty())
    } else {
        let p = radio_keys(b, keys.drop_last());
        let k = keys.last();
        if k.state == ElementState::Pressed && (k.key == Key::Space || k.key == Key::Enter) && !p.0.selected {
            let s = selected_to(p.0, true);
            (s.0, true, p.2 + s.1)
        } else {
            p
        }
    }
}

/// Left-button events: a press over the button asks for focus and holds it
/// down; a release after a press selects it when over it, then it is hovered
/// or idle by where the cursor is. `cursor` says whether the cursor is over
/// the button, when there is a cursor.
pub open spec fn radio_buttons(b: RadioButton, cursor: Option<bool>, buttons: Seq<ButtonEvent>) -> (RadioButton, bool, Seq<RadioSignal>)
    decreases buttons.len(),
{
    if buttons.len() == 0 {
        (b, false, Seq::empty())
    } else {
        let p = radio_buttons(b, cursor, buttons.drop_last());
        let e = buttons.last();
        let over = cursor == Some(true);
        if e.button != MouseButton::Left {
            p
        } else if e.state == ElementState::Pressed {
            if over {
                (RadioButton { state: RadioButtonState::Pressed, ..p.0 }, true, p.2.push(RadioSignal::RequestFocus))
            } else {
                p
            }
        } else if p.0.state == RadioButtonState::Pressed {
            let s: (RadioButton, Seq<RadioSignal>) = if over && !p.0.selected { selected_to(p.0, true) } else { (p.0, Seq::empty()) };
            (
                RadioButton { state: if over { RadioButtonState::Hovered } else { RadioButtonState::Idle }, ..s.0 },
                true,
                p.2 + s.1,
            )
        } else {
            p
        }
    }
}

/// One frame of the radio button.
pub open spec fn radio_frame(
    b: RadioButton,
    focus: Option<FocusReport>,
    keys: Seq<KeyEvent>,
    cursor: Option<bool>,
    buttons: Seq<ButtonEvent>,
) -> (RadioButton, bool, Seq<RadioSignal>) {
    let f: (RadioButton, bool) = match focus {
        Some(r) => if r.state != b.focus_state {
            (RadioButton {
                focus_state: r.state,
                focus_via_keyboard: if r.state == FocusState::Gained { r.via_keyboard } else { b.focus_via_keyboard },
                ..b
            }, true)
        } else {
            (b, false)
        },
        None => (b, false),
    };
    let b0 = f.0;
    let focused = b0.focus_state == FocusState::Focused || b0.focus_state == FocusState::Gained;
    let k = if focused && !b0.disabled { radio_keys(b0, keys) } else { (b0, false, Seq::empty()) };
    let b1 = k.0;
    let h: (RadioButton, bool) = match cursor {
        Some(over) => if b1.disabled {
            (b1, false)
        } else if over {
            if b1.state == RadioButtonState::Idle { (RadioButton { state: RadioButtonState::Hovered, ..b1 }, true) } else { (b1, false) }
        } else if b1.state == RadioButtonState::Hovered {
            (RadioButton { state: RadioButtonState::Idle, ..b1 }, true)
        } else {
            (b1, false)
        },
        None => if b1.state == RadioButtonState::Hovered {
            (RadioButton { state: RadioButtonState::Idle, ..b1 }, true)
        } else {
            (b1, false)
        },
    };
    let m = if !h.0.disabled { radio_buttons(h.0, cursor, buttons) } else { (h.0, false, Seq::empty()) };
    (m.0, f.1 || k.1 || h.1 || m.1, k.2 + m.2)
}

impl RadioButton {
    /// An unselected, enabled radio button in group `group_id`.
    pub fn new(label: String, group_id: String) -> (r: Self)
        ensures
            !r.selected,
            r.label == label,
            r.group_id == group_id,
            r.state == RadioButtonState::Idle,
            r.focus_state == FocusState::Unfocused,
            !r.focus_via_keyboard && !r.disabled,
    {
        RadioButton {
            selected: false,
            label,
            group_id,
            state: RadioButtonState::Idle,
            focus_state: FocusState::Unfocused,
            focus_via_keyboard: false,
            disabled: false,
        }
    }

    /// Sets the initial selection (without running the callback).
    pub fn with_selected(self, selected: bool) -> (r: Self)
        ensures
            r == (RadioButton { selected, ..self }),
    {
        RadioButton { selected, ..self }
    }

    /// Enables or disables the button.
    pub fn with_disabled(self, disabled: bool) -> (r: Self)
        ensures
            r == (RadioButton { disabled, ..self }),
    {
        RadioButton { disabled, ..self }
    }

    /// Whether the button is selected.
    pub fn is_selected(&self) -> (r: bool)
        ensures
            r == self.selected,
    {
        self.selected
    }

    /// The group the button belongs to.
    pub fn group_id(&self) -> (r: &str)
        ensures
            r@ == self.group_id@,
    {
        self.group_id.as_str()
    }

    /// Sets the selection; returns whether the callback is to run (the
    /// button became selected).
    pub fn set_selected(&mut self, selected: bool) -> (fire: bool)
        ensures
            *final(self) == selected_to(*old(self), selected).0,
            fire == (selected && !old(self).selected),
    {
        let was = self.selected;
        self.selected = selected;
        selected && !was
    }

    fn press_keys(&mut self, keys: &Vec<KeyEvent>, signals: &mut Vec<RadioSignal>) -> (draw: bool)
        ensures
            *final(self) == radio_keys(*old(self), keys@).0,
            draw == radio_keys(*old(self), keys@).1,
            final(signals)@ == old(signals)@ + radio_keys(*old(self), keys@).2,
    {
        let ghost b = *self;
        let ghost s0 = signals@;
        let mut draw = false;
        let mut i: usize = 0;
        while i < keys.len()
            invariant
                i <= keys@.len(),
                *self == radio_keys(b, keys@.take(i as int)).0,
                draw == radio_keys(b, keys@.take(i as int)).1,
                signals@ == s0 + radio_keys(b, keys@.take(i as int)).2,
            decreases keys@.len() - i,
        {
            proof {
                assert(keys@.take(i + 1).drop_last() =~= keys@.take(i as int));
            }
            let k = keys[i];
            if k.state == ElementState::Pressed && (k.key == Key::Space || k.key == Key::Enter) && !self.selected {
                if self.set_selected(true) {
                    signals.push(RadioSignal::Selected);
                }
                draw = true;
            }
            proof {
                assert(signals@ =~= s0 + radio_keys(b, keys@.take(i + 1)).2);
            }
            i = i + 1;
        }
        assert(keys@.take(keys@.len() as int) =~= keys@);
        draw
    }

    fn press_buttons(&mut self, cursor: Option<bool>, buttons: &Vec<ButtonEvent>, signals: &mut Vec<RadioSignal>) -> (draw: bool)
        ensures
            *final(self) == radio_buttons(*old(self), cursor, buttons@).0,
            draw == radio_buttons(*old(self), cursor, buttons@).1,
            final(signals)@ == old(signals)@ + radio_buttons(*old(self), cursor, buttons@).2,
    {
        let ghost b = *self;
        let ghost s0 = signals@;
        let over = cursor == Some(true);
        let mut draw = false;
        let mut i: usize = 0;
        while i < buttons.len()
            invariant
                i <= buttons@.len(),
                over == (cursor == Some(true)),
                *self == radio_buttons(b, cursor, buttons@.take(i as int)).0,
                draw == radio_buttons(b, cursor, buttons@.take(i as int)).1,
                signals@ == s0 + radio_buttons(b, cursor, buttons@.take(i as int)).2,
            decreases buttons@.len() - i,
        {
            proof {
                assert(buttons@.take(i + 1).drop_last() =~= buttons@.take(i as int));
            }
            let e = buttons[i];
            if e.button == MouseButton::Left {
                if e.state == ElementState::Pressed {
                    if over {
                        signals.push(RadioSignal::RequestFocus);
                        self.state = RadioButtonState::Pressed;
                        draw = true;
                    }
                } else if self.state == RadioButtonState::Pressed {
                    if over && !self.selected {
                        if self.set_selected(true) {
                            signals.push(RadioSignal::Selected);
                        }
                    }
                    self.state = if over { RadioButtonState::Hovered } else { RadioButtonState::Idle };
                    draw = true;
                }
            }
            proof {
                assert(signals@ =~= s0 + radio_buttons(b, cursor, buttons@.take(i + 1)).2);
            }
            i = i + 1;
        }
        assert(buttons@.take(buttons@.len() as int) =~= buttons@);
        draw
    }

    /// One frame: the focus manager's report (none when it could not be
    /// asked), the frame's keys, whether the cursor is over the button (none
    /// without a cursor) and the frame's mouse-button events.
    pub fn update(
        &mut self,
        focus: Option<FocusReport>,
        keys: &Vec<KeyEvent>,
        cursor: Option<bool>,
        buttons: &Vec<ButtonEvent>,
    ) -> (r: (Update, Vec<RadioSignal>))
        ensures
            *final(self) == radio_frame(*old(self), focus, keys@, cursor, buttons@).0,
            r.0.bits == (if radio_frame(*old(self), focus, keys@, cursor, buttons@).1 { UPDATE_DRAW } else { 0 }),
            r.1@ == radio_frame(*old(self), focus, keys@, cursor, buttons@).2,
    {
        let mut draw = false;
        match focus {
            Some(r) => {
                if r.state != self.focus_state {
                    self.focus_state = r.state;
                    if r.state == FocusState::Gained {
                        self.focus_via_keyboard = r.via_keyboard;
                    }
                    draw = true;
                }
            },
            None => {},
        }
        let mut signals: Vec<RadioSignal> = Vec::new();
        let focused = self.focus_state == FocusState::Focused || self.focus_state == FocusState::Gained;
        if focused && !self.disabled {
            let d = self.press_keys(keys, &mut signals);
            draw = draw || d;
        }
        assert(signals@ =~= Seq::<RadioSignal>::empty() + signals@);
        match cursor {
            Some(over) => {
                if !self.disabled {
                    if over {
                        if self.state == RadioButtonState::Idle {
                            self.state = RadioButtonState::Hovered;
                            draw = true;
                        }
                    } else if self.state == RadioButtonState::Hovered {
                        self.state = RadioButtonState::Idle;
                        draw = true;
                    }
                }
            },
            None => {
                if self.state == RadioButtonState::Hovered {
                    self.state = RadioButtonState::Idle;
                    draw = true;
                }
            },
        }
        if !self.disabled {
            let d = self.press_buttons(cursor, buttons, &mut signals);
            draw = draw || d;
        } else {
            assert(signals@ =~= signals@ + Seq::<RadioSignal>::empty());
        }
        (Update { bits: if draw { UPDATE_DRAW } else { 0 } }, signals)
    }
}

/// A click on a radio button (press and release over it) selects it, and
/// runs the callback exactly when it was not selected before.
pub proof fn law_click_selects(b: RadioButton)
    requires
        b.state != RadioButtonState::Pressed,
    ensures
        ({
            let press = ButtonEvent { button: MouseButton::Left, state: ElementState::Pressed };
            let release = ButtonEvent { button: MouseButton::Left, state: ElementState::Released };
            let r = radio_buttons(b, Some(true), seq![press, release]);
            &&& r.0.selected
            &&& r.0.state == RadioButtonState::Hovered
            &&& r.2 == (if b.selected { seq![RadioSignal::RequestFocus] } else { seq![RadioSignal::RequestFocus, RadioSignal::Selected] })
        }),
{
    reveal_with_fuel(radio_buttons, 3);
    let press = ButtonEvent { button: MouseButton::Left, state: ElementState::Pressed };
    let release = ButtonEvent { button: MouseButton::Left, state: ElementState::Released };
    let s = seq![press, release];
    assert(s.drop_last() =~= seq![press]);
    assert(seq![press].drop_last() =~= Seq::<ButtonEvent>::empty());
    assert(Seq::<RadioSignal>::empty().push(RadioSignal::RequestFocus) =~= seq![RadioSignal::RequestFocus]);
    assert(seq![RadioSignal::RequestFocus] + Seq::<RadioSignal>::empty() =~= seq![RadioSignal::RequestFocus]);
    assert(seq![RadioSignal::RequestFocus] + seq![RadioSignal::Selected] =~= seq![RadioSignal::RequestFocus, RadioSignal::Selected]);
}

/// Once selected, a radio button stays selected whatever a frame brings
/// (it is only cleared from outside), and its callback does not run again.
pub proof fn law_selection_sticks(
    b: RadioButton,
    focus: Option<FocusReport>,
    keys: Seq<KeyEvent>,
    cursor: Option<bool>,
    buttons: Seq<ButtonEvent>,
)
    requires
        b.selected,
    ensures
        radio_frame(b, focus, keys, cursor, buttons).0.selected,
        !radio_frame(b, focus, keys, cursor, buttons).2.contains(RadioSignal::Selected),
{
    lemma_keys_keep(b, keys);
    let f = match focus {
        Some(r) => if r.state != b.focus_state {
            RadioButton {
                focus_state: r.state,
                focus_via_keyboard: if r.state == FocusState::Gained { r.via_keyboard } else { b.focus_via_keyboard },
                ..b
            }
        } else { b },
        None => b,
    };
    lemma_keys_keep(f, keys);
    let b1 = (if (f.focus_state == FocusState::Focused || f.focus_state == FocusState::Gained) && !f.disabled { radio_keys(f, keys) } else { (f, false, Seq::empty()) }).0;
    lemma_buttons_keep(b1, cursor, buttons);
    lemma_buttons_keep(RadioButton { state: RadioButtonState::Hovered, ..b1 }, cursor, buttons);
    lemma_buttons_keep(RadioButton { state: RadioButtonState::Idle, ..b1 }, cursor, buttons);
}

proof fn lemma_keys_keep(b: RadioButton, keys: Seq<KeyEvent>)
    requires
        b.selected,
    ensures
        radio_keys(b, keys).0.selected,
        radio_keys(b, keys).2 == Seq::<RadioSignal>::empty(),
    decreases keys.len(),
{
    if keys.len() > 0 {
        lemma_keys_keep(b, keys.drop_last());
    }
}

proof fn lemma_buttons_keep(b: RadioButton, cursor: Option<bool>, buttons: Seq<ButtonEvent>)
    requires
        b.selected,
    ensures
        radio_buttons(b, cursor, buttons).0.selected,
        !radio_buttons(b, cursor, buttons).2.contains(RadioSignal::Selected),
    decreases buttons.len(),
{
    if buttons.len() > 0 {
        lemma_buttons_keep(b, cursor, buttons.drop_last());
        let p = radio_buttons(b, cursor, buttons.drop_last());
        let r = radio_buttons(b, cursor, buttons);
        if r.2.contains(RadioSignal::Selected) {
            let k = choose|k: int| 0 <= k < r.2.len() && r.2[k] == RadioSignal::Selected;
            if k < p.2.len() {
                assert(p.2[k] == RadioSignal::Selected);
            } else {
                assert(r.2 =~= p.2.push(RadioSignal::RequestFocus) || r.2 =~= p.2 + Seq::<RadioSignal>::empty() || r.2 =~= p.2);
            }
        }
    }
}

} // verus!
