//! The push button's interaction state: hover and press by mouse, Space and
//! Enter when focused, auto-repeat while held, and the tooltip and status
//! tip shown while hovered. Times are in milliseconds; whether the cursor is
//! over the button is measured by the host.

use vstd::prelude::*;
use crate::update::{Update, UPDATE_DRAW};
use crate::widget_input::{ButtonEvent, KeyEvent, Key, MouseButton, ElementState, FocusState, FocusReport};

verus! {

/// The internal state of the button.
#[derive(Copy, Clone, PartialEq, Eq, Structural, Debug)]
pub enum ButtonState {
    /// The button is idling (inactive).
    Idle,
    /// The cursor is hovering over the button.
    Hovered,
    /// The cursor is hovering over the button and the left button is pressed.
    Pressed,
    /// The cursor is hovering over the button and the left button was
    /// released: the button was clicked.
    Released,
}

/// What the button asks its host to do, in order.
#[derive(Copy, Clone, PartialEq, Eq, Structural, Debug)]
pub enum ButtonSignal {
    /// The button fired: its `on_pressed` update was added.
    Fired,
    ShowTooltip,
    HideTooltip,
    ShowStatusTip,
    ClearStatusTip,
}

/// The button's state. `on_pressed` is the update the button hands back
/// each time it fires.
pub struct Button {
    pub state: ButtonState,
    pub on_pressed: Update,
    pub focus_state: FocusState,
    pub focus_via_keyboard: bool,
    pub disabled: bool,
    pub repeat_enabled: bool,
    pub repeat_delay_ms: u64,
    pub repeat_interval_ms: u64,
    pub press_start_ms: Option<u64>,
    pub last_repeat_ms: Option<u64>,
    pub invert_text: bool,
    pub tooltip: Option<String>,
    pub tooltip_hover_state: bool,
    pub status_tip: Option<String>,
    pub status_tip_hover_state: bool,
}

pub open spec fn ms_since(now: u64, then: u64) -> int {
    if now >= then { now - then } else { 0 }
}

/// The focus manager's report taken in: a newly gained focus records whether
/// it came from the keyboard; a lost one forgets it.
pub open spec fn focus_taken(b: Button, f: Option<FocusReport>) -> Button {
    match f {
        Some(r) => Button {
            focus_via_keyboard: if r.state == FocusState::Gained && b.focus_state != FocusState::Focused {
                r.via_keyboard
            } else if r.state == FocusState::Lost || r.state == FocusState::Unfocused {
                false
            } else {
                b.focus_via_keyboard
            },
            focus_state: r.state,
            ..b
        },
        None => b,
    }
}

pub open spec fn is_activation_key(k: Key) -> bool {
    k == Key::Space || k == Key::Enter
}

/// Space and Enter when focused: a press fires and holds the button down, a
/// release lets it go.
pub open spec fn keys_step(b: Button, keys: Seq<KeyEvent>) -> (Button, u32, Seq<ButtonSignal>)
    decreases keys.len(),
{
    if keys.len() == 0 {
        (b, 0, Seq::empty())
    } else {
        let p = keys_step(b, keys.drop_last());
        let k = keys.last();
        if !is_activation_key(k.key) {
            p
        } else if k.state == ElementState::Pressed {
            (Button { state: ButtonState::Pressed, ..p.0 }, p.1 | b.on_pressed.bits, p.2.push(ButtonSignal::Fired))
        } else if p.0.state == ButtonState::Pressed {
            (Button { state: ButtonState::Idle, ..p.0 }, p.1, p.2)
        } else {
            p
        }
    }
}

/// The left button over the button: a press holds it down (and fires at
/// once when repeating), a release after a press clicks it (and fires when
/// not repeating).
pub open spec fn mouse_step(b: Button, buttons: Seq<ButtonEvent>, now: u64) -> (Button, u32, Seq<ButtonSignal>)
    decreases buttons.len(),
{
    if buttons.len() == 0 {
        (b, 0, Seq::empty())
    } else {
        let p = mouse_step(b, buttons.drop_last(), now);
        let e = buttons.last();
        let c = p.0;
        if e.button != MouseButton::Left {
            p
        } else if e.state == ElementState::Pressed {
            if c.state != ButtonState::Pressed {
                if c.repeat_enabled {
                    (
                        Button { state: ButtonState::Pressed, press_start_ms: Some(now), last_repeat_ms: None, ..c },
                        p.1 | b.on_pressed.bits,
                        p.2.push(ButtonSignal::Fired),
                    )
                } else {
                    (Button { state: ButtonState::Pressed, ..c }, p.1, p.2)
                }
            } else {
                p
            }
        } else if c.state == ButtonState::Pressed {
            if !c.repeat_enabled {
                (Button { state: ButtonState::Released, ..c }, p.1 | b.on_pressed.bits, p.2.push(ButtonSignal::Fired))
            } else {
                (Button { state: ButtonState::Released, ..c }, p.1, p.2)
            }
        } else {
            p
        }
    }
}

/// The pointer: away from the button it idles; over it, it is hovered unless
/// held, then the button events count.
pub open spec fn pointer_step(b: Button, hit: bool, buttons: Seq<ButtonEvent>, now: u64) -> (Button, u32, Seq<ButtonSignal>) {
    if !hit {
        (Button { state: ButtonState::Idle, ..b }, 0, Seq::empty())
    } else {
        let b1 = if b.state != ButtonState::Pressed { Button { state: ButtonState::Hovered, ..b } } else { b };
        mouse_step(b1, buttons, now)
    }
}

/// The tooltip and status tip follow the hover, announced only on change.
pub open spec fn tips_step(b: Button, hit: bool) -> (Button, Seq<ButtonSignal>) {
    let t: (Button, Seq<ButtonSignal>) = if b.tooltip is Some {
        if hit && !b.tooltip_hover_state {
            (Button { tooltip_hover_state: true, ..b }, seq![ButtonSignal::ShowTooltip])
        } else if !hit && b.tooltip_hover_state {
            (Button { tooltip_hover_state: false, ..b }, seq![ButtonSignal::HideTooltip])
        } else {
            (b, Seq::empty())
        }
    } else {
        (b, Seq::empty())
    };
    let c = t.0;
    if c.status_tip is Some {
        if hit && !c.status_tip_hover_state {
            (Button { status_tip_hover_state: true, ..c }, t.1.push(ButtonSignal::ShowStatusTip))
        } else if !hit && c.status_tip_hover_state {
            (Button { status_tip_hover_state: false, ..c }, t.1.push(ButtonSignal::ClearStatusTip))
        } else {
            t
        }
    } else {
        t
    }
}

/// Auto-repeat: while held, after `repeat_delay_ms` the button fires again
/// every `repeat_interval_ms`, and asks for a redraw each frame; otherwise
/// the repeat timers are cleared.
pub open spec fn repeat_step(b: Button, now: u64) -> (Button, u32, Seq<ButtonSignal>) {
    if !(b.repeat_enabled && b.state == ButtonState::Pressed) {
        (Button { press_start_ms: None, last_repeat_ms: None, ..b }, 0, Seq::empty())
    } else {
        match b.press_start_ms {
            Some(st) => if ms_since(now, st) >= b.repeat_delay_ms {
                let due = match b.last_repeat_ms {
                    Some(l) => ms_since(now, l) >= b.repeat_interval_ms,
                    None => true,
                };
                if due {
                    (Button { last_repeat_ms: Some(now), ..b }, b.on_pressed.bits | UPDATE_DRAW, seq![ButtonSignal::Fired])
                } else {
                    (b, UPDATE_DRAW, Seq::empty())
                }
            } else {
                (b, UPDATE_DRAW, Seq::empty())
            },
            None => (Button { press_start_ms: Some(now), ..b }, 0, Seq::empty()),
        }
    }
}

/// One frame of the button, the child aside.
pub open spec fn button_frame(
    b: Button,
    focus: Option<FocusReport>,
    keys: Seq<KeyEvent>,
    hit: bool,
    buttons: Seq<ButtonEvent>,
    now: u64,
) -> (Button, u32, Seq<ButtonSignal>) {
    let b0 = focus_taken(b, focus);
    let mid: (Button, u32, Seq<ButtonSignal>) = if !b0.disabled {
        let focused = b0.focus_state == FocusState::Focused || b0.focus_state == FocusState::Gained;
        let k = if focused { keys_step(b0, keys) } else { (b0, 0u32, Seq::empty()) };
        let m = pointer_step(k.0, hit, buttons, now);
        let t = tips_step(m.0, hit);
        (t.0, k.1 | m.1, k.2 + m.2 + t.1)
    } else {
        (
            Button {
                state: ButtonState::Idle,
                press_start_ms: None,
                last_repeat_ms: None,
                tooltip_hover_state: false,
                status_tip_hover_state: false,
                ..b0
            },
            0,
            seq![ButtonSignal::HideTooltip, ButtonSignal::ClearStatusTip],
        )
    };
    let changed = mid.0.state != b.state || mid.0.focus_state != b.focus_state;
    let r = repeat_step(mid.0, now);
    (r.0, mid.1 | (if changed { UPDATE_DRAW } else { 0u32 }) | r.1, mid.2 + r.2)
}

impl Button {
    /// An idle, enabled button that fires with no update, repeating after
    /// 500 ms every 100 ms when repeat is switched on.
    pub fn new() -> (r: Self)
        ensures
            r.state == ButtonState::Idle,
            r.on_pressed.bits == 0,
            r.focus_state == FocusState::Unfocused,
            !r.focus_via_keyboard && !r.disabled && !r.repeat_enabled,
            r.repeat_delay_ms == 500 && r.repeat_interval_ms == 100,
            r.press_start_ms is None && r.last_repeat_ms is None,
            r.invert_text,
            r.tooltip is None && !r.tooltip_hover_state,
            r.status_tip is None && !r.status_tip_hover_state,
    {
        Button {
            state: ButtonState::Idle,
            on_pressed: Update::empty(),
            focus_state: FocusState::Unfocused,
            focus_via_keyboard: false,
            disabled: false,
            repeat_enabled: false,
            repeat_delay_ms: 500,
            repeat_interval_ms: 100,
            press_start_ms: None,
            last_repeat_ms: None,
            invert_text: true,
            tooltip: None,
            tooltip_hover_state: false,
            status_tip: None,
            status_tip_hover_state: false,
        }
    }

    /// Sets the update handed back when the button fires.
    pub fn with_on_pressed(self, on_pressed: Update) -> (r: Self)
        ensures
            r == (Button { on_pressed, ..self }),
    {
        Button { on_pressed, ..self }
    }

    /// Enables or disables the button.
    pub fn with_disabled(self, disabled: bool) -> (r: Self)
        ensures
            r == (Button { disabled, ..self }),
    {
        Button { disabled, ..self }
    }

    /// Switches auto-repeat while held.
    pub fn with_repeat(self, enabled: bool) -> (r: Self)
        ensures
            r == (Button { repeat_enabled: enabled, ..self }),
    {
        Button { repeat_enabled: enabled, ..self }
    }

    /// Sets the delay before repeating starts.
    pub fn with_repeat_delay(self, delay_ms: u64) -> (r: Self)
        ensures
            r == (Button { repeat_delay_ms: delay_ms, ..self }),
    {
        Button { repeat_delay_ms: delay_ms, ..self }
    }

    /// Sets the interval between repeats.
    pub fn with_repeat_interval(self, interval_ms: u64) -> (r: Self)
        ensures
            r == (Button { repeat_interval_ms: interval_ms, ..self }),
    {
        Button { repeat_interval_ms: interval_ms, ..self }
    }

    /// Sets whether the label's colour is inverted.
    pub fn with_invert_text(self, invert: bool) -> (r: Self)
        ensures
            r == (Button { invert_text: invert, ..self }),
    {
        Button { invert_text: invert, ..self }
    }

    /// Sets the tooltip.
    pub fn with_tooltip(self, tooltip: String) -> (r: Self)
        ensures
            r == (Button { tooltip: Some(tooltip), ..self }),
    {
        Button { tooltip: Some(tooltip), ..self }
    }

    /// Sets the status bar tip.
    pub fn with_status_tip(self, status_tip: String) -> (r: Self)
        ensures
            r == (Button { status_tip: Some(status_tip), ..self }),
    {
        Button { status_tip: Some(status_tip), ..self }
    }

    fn take_focus(&mut self, focus: Option<FocusReport>)
        ensures
            *final(self) == focus_taken(*old(self), focus),
    {
        match focus {
            Some(r) => {
                if r.state == FocusState::Gained && self.focus_state != FocusState::Focused {
                    self.focus_via_keyboard = r.via_keyboard;
                } else if r.state == FocusState::Lost || r.state == FocusState::Unfocused {
                    self.focus_via_keyboard = false;
                }
                self.focus_state = r.state;
            },
            None => {},
        }
    }

    fn handle_keys(&mut self, keys: &Vec<KeyEvent>, signals: &mut Vec<ButtonSignal>) -> (bits: u32)
        ensures
            *final(self) == keys_step(*old(self), keys@).0,
            bits == keys_step(*old(self), keys@).1,
            final(signals)@ == old(signals)@ + keys_step(*old(self), keys@).2,
    {
        let ghost b = *self;
        let ghost s0 = signals@;
        let mut bits: u32 = 0;
        let mut i: usize = 0;
        while i < keys.len()
            invariant
                i <= keys@.len(),
                self.on_pressed == b.on_pressed,
                *self == keys_step(b, keys@.take(i as int)).0,
                bits == keys_step(b, keys@.take(i as int)).1,
                signals@ == s0 + keys_step(b, keys@.take(i as int)).2,
            decreases keys@.len() - i,
        {
            proof {
                assert(keys@.take(i + 1).drop_last() =~= keys@.take(i as int));
            }
            let k = keys[i];
            if k.key == Key::Space || k.key == Key::Enter {
                if k.state == ElementState::Pressed {
                    bits = bits | self.on_pressed.bits;
                    self.state = ButtonState::Pressed;
                    signals.push(ButtonSignal::Fired);
                } else if self.state == ButtonState::Pressed {
                    self.state = ButtonState::Idle;
                }
            }
            proof {
                assert(signals@ =~= s0 + keys_step(b, keys@.take(i + 1)).2);
            }
            i = i + 1;
        }
        assert(keys@.take(keys@.len() as int) =~= keys@);
        bits
    }

    fn handle_pointer(&mut self, hit: bool, buttons: &Vec<ButtonEvent>, now: u64, signals: &mut Vec<ButtonSignal>) -> (bits: u32)
        ensures
            *final(self) == pointer_step(*old(self), hit, buttons@, now).0,
            bits == pointer_step(*old(self), hit, buttons@, now).1,
            final(signals)@ == old(signals)@ + pointer_step(*old(self), hit, buttons@, now).2,
    {
        if !hit {
            self.state = ButtonState::Idle;
            assert(signals@ =~= old(signals)@ + Seq::<ButtonSignal>::empty());
            return 0;
        }
        if self.state != ButtonState::Pressed {
            self.state = ButtonState::Hovered;
        }
        let ghost b = *self;
        let ghost s0 = signals@;
        let mut bits: u32 = 0;
        let mut i: usize = 0;
        while i < buttons.len()
            invariant
                i <= buttons@.len(),
                self.on_pressed == b.on_pressed,
                *self == mouse_step(b, buttons@.take(i as int), now).0,
                bits == mouse_step(b, buttons@.take(i as int), now).1,
                signals@ == s0 + mouse_step(b, buttons@.take(i as int), now).2,
            decreases buttons@.len() - i,
        {
            proof {
                assert(buttons@.take(i + 1).drop_last() =~= buttons@.take(i as int));
            }
            let e = buttons[i];
            if e.button == MouseButton::Left {
                if e.state == ElementState::Pressed {
                    if self.state != ButtonState::Pressed {
                        self.state = ButtonState::Pressed;
                        if self.repeat_enabled {
                            bits = bits | self.on_pressed.bits;
                            self.press_start_ms = Some(now);
                            self.last_repeat_ms = None;
                            signals.push(ButtonSignal::Fired);
                        }
                    }
                } else if self.state == ButtonState::Pressed {
                    self.state = ButtonState::Released;
                    if !self.repeat_enabled {
                        bits = bits | self.on_pressed.bits;
                        signals.push(ButtonSignal::Fired);
                    }
                }
            }
            proof {
                assert(signals@ =~= s0 + mouse_step(b, buttons@.take(i + 1), now).2);
            }
            i = i + 1;
        }
        assert(buttons@.take(buttons@.len() as int) =~= buttons@);
        bits
    }

    fn handle_tips(&mut self, hit: bool, signals: &mut Vec<ButtonSignal>)
        ensures
            *final(self) == tips_step(*old(self), hit).0,
            final(signals)@ == old(signals)@ + tips_step(*old(self), hit).1,
    {
        let ghost s0 = signals@;
        if self.tooltip.is_some() {
            if hit && !self.tooltip_hover_state {
                self.tooltip_hover_state = true;
                signals.push(ButtonSignal::ShowTooltip);
            } else if !hit && self.tooltip_hover_state {
                self.tooltip_hover_state = false;
                signals.push(ButtonSignal::HideTooltip);
            }
        }
        if self.status_tip.is_some() {
            if hit && !self.status_tip_hover_state {
                self.status_tip_hover_state = true;
                signals.push(ButtonSignal::ShowStatusTip);
            } else if !hit && self.status_tip_hover_state {
                self.status_tip_hover_state = false;
                signals.push(ButtonSignal::ClearStatusTip);
            }
        }
        assert(signals@ =~= s0 + tips_step(*old(self), hit).1);
    }

    fn handle_repeat(&mut self, now: u64, signals: &mut Vec<ButtonSignal>) -> (bits: u32)
        ensures
            *final(self) == repeat_step(*old(self), now).0,
            bits == repeat_step(*old(self), now).1,
            final(signals)@ == old(signals)@ + repeat_step(*old(self), now).2,
    {
        if !(self.repeat_enabled && self.state == ButtonState::Pressed) {
            self.press_start_ms = None;
            self.last_repeat_ms = None;
            assert(signals@ =~= old(signals)@ + Seq::<ButtonSignal>::empty());
            return 0;
        }
        match self.press_start_ms {
            Some(st) => {
                let since = if now >= st { now - st } else { 0 };
                if since >= self.repeat_delay_ms {
                    let due = match self.last_repeat_ms {
                        Some(l) => (if now >= l { now - l } else { 0 }) >= self.repeat_interval_ms,
                        None => true,
                    };
                    if due {
                        self.last_repeat_ms = Some(now);
                        signals.push(ButtonSignal::Fired);
                        assert(signals@ =~= old(signals)@ + seq![ButtonSignal::Fired]);
                        return self.on_pressed.bits | UPDATE_DRAW;
                    }
                }
                assert(signals@ =~= old(signals)@ + Seq::<ButtonSignal>::empty());
                UPDATE_DRAW
            },
            None => {
                self.press_start_ms = Some(now);
                assert(signals@ =~= old(signals)@ + Seq::<ButtonSignal>::empty());
                0
            },
        }
    }

    /// One frame: the focus manager's report (none when it could not be
    /// asked), the frame's keys, whether the cursor is over the button, the
    /// frame's mouse-button events and the time. Returns the update and what
    /// the host is asked to do.
    pub fn update(
        &mut self,
        focus: Option<FocusReport>,
        keys: &Vec<KeyEvent>,
        hit: bool,
        buttons: &Vec<ButtonEvent>,
        now: u64,
    ) -> (r: (Update, Vec<ButtonSignal>))
        ensures
            *final(self) == button_frame(*old(self), focus, keys@, hit, buttons@, now).0,
            r.0.bits == button_frame(*old(self), focus, keys@, hit, buttons@, now).1,
            r.1@ == button_frame(*old(self), focus, keys@, hit, buttons@, now).2,
    {
        let ghost b = *self;
        let old_state = self.state;
        let old_focus = self.focus_state;
        self.take_focus(focus);
        let ghost b0 = *self;
        let mut signals: Vec<ButtonSignal> = Vec::new();
        let mut bits: u32 = 0;
        if !self.disabled {
            let focused = self.focus_state == FocusState::Focused || self.focus_state == FocusState::Gained;
            if focused {
                bits = self.handle_keys(keys, &mut signals);
            }
            assert(signals@ =~= (if focused { keys_step(b0, keys@) } else { (b0, 0u32, Seq::empty()) }).2);
            let m = self.handle_pointer(hit, buttons, now, &mut signals);
            bits = bits | m;
            self.handle_tips(hit, &mut signals);
        } else {
            self.state = ButtonState::Idle;
            self.press_start_ms = None;
            self.last_repeat_ms = None;
            self.tooltip_hover_state = false;
            signals.push(ButtonSignal::HideTooltip);
            self.status_tip_hover_state = false;
            signals.push(ButtonSignal::ClearStatusTip);
            assert(signals@ =~= seq![ButtonSignal::HideTooltip, ButtonSignal::ClearStatusTip]);
        }
        let draw: u32 = if self.state != old_state || self.focus_state != old_focus { UPDATE_DRAW } else { 0 };
        let rb = self.handle_repeat(now, &mut signals);
        (Update { bits: bits | draw | rb }, signals)
    }
}

/// Pressing and releasing the left button over a button that does not
/// repeat fires it once, on the release, and leaves it clicked.
pub proof fn law_click_fires_on_release(b: Button, now: u64)
    requires
        !b.repeat_enabled,
        b.state != ButtonState::Pressed,
    ensures
        ({
            let press = ButtonEvent { button: MouseButton::Left, state: ElementState::Pressed };
            let release = ButtonEvent { button: MouseButton::Left, state: ElementState::Released };
            let after_press = pointer_step(b, true, seq![press], now);
            let after_release = pointer_step(after_press.0, true, seq![release], now);
            &&& after_press.2 == Seq::<ButtonSignal>::empty()
            &&& after_press.0.state == ButtonState::Pressed
            &&& after_release.2 == seq![ButtonSignal::Fired]
            &&& after_release.0.state == ButtonState::Released
        }),
{
    let press = ButtonEvent { button: MouseButton::Left, state: ElementState::Pressed };
    let release = ButtonEvent { button: MouseButton::Left, state: ElementState::Released };
    reveal_with_fuel(mouse_step, 2);
    assert(seq![press].drop_last() =~= Seq::<ButtonEvent>::empty());
    assert(seq![release].drop_last() =~= Seq::<ButtonEvent>::empty());
    assert(Seq::<ButtonSignal>::empty().push(ButtonSignal::Fired) =~= seq![ButtonSignal::Fired]);
}

/// A disabled button never fires, and idles.
pub proof fn law_disabled_never_fires(
    b: Button,
    focus: Option<FocusReport>,
    keys: Seq<KeyEvent>,
    hit: bool,
    buttons: Seq<ButtonEvent>,
    now: u64,
)
    requires
        b.disabled,
    ensures
        !button_frame(b, focus, keys, hit, buttons, now).2.contains(ButtonSignal::Fired),
        button_frame(b, focus, keys, hit, buttons, now).0.state == ButtonState::Idle,
{
    let s = button_frame(b, focus, keys, hit, buttons, now).2;
    assert(s =~= seq![ButtonSignal::HideTooltip, ButtonSignal::ClearStatusTip]);
    if s.contains(ButtonSignal::Fired) {
        let k = choose|k: int| 0 <= k < s.len() && s[k] == ButtonSignal::Fired;
        assert(k == 0 || k == 1);
    }
}

/// A held button repeats no faster than its interval, and not before its
/// delay has passed since the press.
pub proof fn law_repeat_respects_timing(b: Button, now: u64)
    ensures
        repeat_step(b, now).2.len() > 0 ==> ({
            &&& b.press_start_ms is Some
            &&& ms_since(now, b.press_start_ms->0) >= b.repeat_delay_ms
            &&& (b.last_repeat_ms is Some ==> ms_since(now, b.last_repeat_ms->0) >= b.repeat_interval_ms)
        }),
{
}

} // verus!
