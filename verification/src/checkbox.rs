//! The checkbox's three states and the rules for clicking through them.

use vstd::prelude::*;
use crate::update::Update;
use crate::widget_input::{MouseButton, ElementState, ButtonEvent};

verus! {

/// The state of a checkbox widget.
#[derive(Debug, Clone, Copy, PartialEq, Eq, Structural)]
pub enum CheckboxState {
    /// Unchecked state
    Unchecked,
    /// Checked state
    Checked,
    /// Indeterminate state (partially selected, like in Windows file trees)
    Indeterminate,
}

/// The state after `s` in the three-state cycle.
pub open spec fn spec_cycle_next(s: CheckboxState) -> CheckboxState {
    match s {
        CheckboxState::Unchecked => CheckboxState::Checked,
        CheckboxState::Checked => CheckboxState::Indeterminate,
        CheckboxState::Indeterminate => CheckboxState::Unchecked,
    }
}

/// The state after `s`, skipping indeterminate unless it is allowed.
pub open spec fn spec_cycle_next_with(s: CheckboxState, allow_indeterminate: bool) -> CheckboxState {
    if allow_indeterminate {
        spec_cycle_next(s)
    } else {
        match s {
            CheckboxState::Unchecked => CheckboxState::Checked,
            CheckboxState::Checked => CheckboxState::Unchecked,
            CheckboxState::Indeterminate => CheckboxState::Unchecked,
        }
    }
}

impl CheckboxState {
    /// Cycle to the next state in the sequence: Unchecked -> Checked -> Indeterminate -> Unchecked
    pub fn cycle_next(self) -> (r: Self)
        ensures
            r == spec_cycle_next(self),
    {
        match self {
            CheckboxState::Unchecked => CheckboxState::Checked,
            CheckboxState::Checked => CheckboxState::Indeterminate,
            CheckboxState::Indeterminate => CheckboxState::Unchecked,
        }
    }

    /// Cycle to the next state, skipping indeterminate if not allowed.
    /// For simple checkboxes: Unchecked -> Checked -> Unchecked
    /// For three-state checkboxes: Unchecked -> Checked -> Indeterminate -> Unchecked
    pub fn cycle_next_with_indeterminate(self, allow_indeterminate: bool) -> (r: Self)
        ensures
            r == spec_cycle_next_with(self, allow_indeterminate),
    {
        if allow_indeterminate {
            self.cycle_next()
        } else {
            match self {
                CheckboxState::Unchecked => CheckboxState::Checked,
                CheckboxState::Checked => CheckboxState::Unchecked,
                CheckboxState::Indeterminate => CheckboxState::Unchecked,
            }
        }
    }

    /// Convert to boolean (true = checked, false = unchecked/indeterminate)
    pub fn to_bool(self) -> (r: bool)
        ensures
            r == (self == CheckboxState::Checked),
    {
        match self {
            CheckboxState::Checked => true,
            _ => false,
        }
    }

    /// Create from boolean
    pub fn from_bool(value: bool) -> (r: Self)
        ensures
            r == (if value { CheckboxState::Checked } else { CheckboxState::Unchecked }),
    {
        if value {
            CheckboxState::Checked
        } else {
            CheckboxState::Unchecked
        }
    }
}

/// Three steps of the three-state cycle come back to the start.
pub proof fn law_cycle_has_period_three(s: CheckboxState)
    ensures
        spec_cycle_next(spec_cycle_next(spec_cycle_next(s))) == s,
        spec_cycle_next(s) != s,
{
}

/// Without the indeterminate state, a checkbox alternates between checked and
/// unchecked and never becomes indeterminate.
pub proof fn law_two_state_cycle(s: CheckboxState)
    ensures
        spec_cycle_next_with(s, false) != CheckboxState::Indeterminate,
        s != CheckboxState::Indeterminate ==> spec_cycle_next_with(spec_cycle_next_with(s, false), false) == s,
{
}

/// Converting a boolean to a state and back gives the boolean.
pub proof fn law_bool_round_trip(b: bool)
    ensures
        (if b { CheckboxState::Checked } else { CheckboxState::Unchecked } == CheckboxState::Checked) == b,
{
}

/// The checkbox's clickable state: its value, the states locked against
/// clicking, and whether it cycles through indeterminate. A value or a lock
/// list given as a fixed value (not a signal) cannot be changed by clicks or
/// by locking calls, as in the widget.
pub struct Checkbox {
    pub value: CheckboxState,
    pub value_is_signal: bool,
    pub on_change: Update,
    pub locked_states: Vec<CheckboxState>,
    pub locked_is_signal: bool,
    pub allow_indeterminate: bool,
}

impl Checkbox {
    /// A two-state checkbox with the given value and nothing locked.
    pub fn new(value: CheckboxState, value_is_signal: bool) -> (r: Self)
        ensures
            r.value == value,
            r.value_is_signal == value_is_signal,
            r.on_change.bits == 0,
            r.locked_states@.len() == 0,
            !r.locked_is_signal,
            !r.allow_indeterminate,
    {
        Checkbox {
            value,
            value_is_signal,
            on_change: Update::empty(),
            locked_states: Vec::new(),
            locked_is_signal: false,
            allow_indeterminate: false,
        }
    }

    /// A checkbox whose value comes from a boolean.
    pub fn new_bool(value: bool, value_is_signal: bool) -> (r: Self)
        ensures
            r.value == (if value { CheckboxState::Checked } else { CheckboxState::Unchecked }),
            r.value_is_signal == value_is_signal,
            r.locked_states@.len() == 0,
            !r.allow_indeterminate,
    {
        Self::new(CheckboxState::from_bool(value), value_is_signal)
    }

    /// Enables the indeterminate state.
    pub fn with_indeterminate_state(self) -> (r: Self)
        ensures
            r == (Checkbox { allow_indeterminate: true, ..self }),
    {
        Checkbox { allow_indeterminate: true, ..self }
    }

    /// Sets the value.
    pub fn with_value(self, value: CheckboxState, value_is_signal: bool) -> (r: Self)
        ensures
            r == (Checkbox { value, value_is_signal, ..self }),
    {
        Checkbox { value, value_is_signal, ..self }
    }

    /// Sets the update applied on changes.
    pub fn with_on_change(self, on_change: Update) -> (r: Self)
        ensures
            r == (Checkbox { on_change, ..self }),
    {
        Checkbox { on_change, ..self }
    }

    /// Replaces the locked states.
    pub fn with_locked_states(self, states: Vec<CheckboxState>, locked_is_signal: bool) -> (r: Self)
        ensures
            r.locked_states@ == states@,
            r.locked_is_signal == locked_is_signal,
            r.value == self.value,
            r.value_is_signal == self.value_is_signal,
            r.on_change == self.on_change,
            r.allow_indeterminate == self.allow_indeterminate,
    {
        Checkbox { locked_states: states, locked_is_signal, ..self }
    }

    /// Locks exactly one state (a fixed list).
    pub fn with_locked_state(self, state: CheckboxState) -> (r: Self)
        ensures
            r.locked_states@ == seq![state],
            !r.locked_is_signal,
            r.value == self.value,
            r.value_is_signal == self.value_is_signal,
            r.on_change == self.on_change,
            r.allow_indeterminate == self.allow_indeterminate,
    {
        let mut v: Vec<CheckboxState> = Vec::new();
        v.push(state);
        Checkbox { locked_states: v, locked_is_signal: false, ..self }
    }

    /// Whether `state` is in the locked states.
    pub fn is_state_locked(&self, state: CheckboxState) -> (r: bool)
        ensures
            r == self.locked_states@.contains(state),
    {
        let mut i: usize = 0;
        while i < self.locked_states.len()
            invariant
                i <= self.locked_states@.len(),
                forall|k: int| 0 <= k < i ==> self.locked_states@[k] != state,
            decreases self.locked_states@.len() - i,
        {
            if self.locked_states[i] == state {
                return true;
            }
            i = i + 1;
        }
        false
    }

    /// Whether the current value is locked.
    pub fn is_current_state_locked(&self) -> (r: bool)
        ensures
            r == self.locked_states@.contains(self.value),
    {
        self.is_state_locked(self.value)
    }

    /// Adds `state` to the locked states (only when they are a signal; a state
    /// already there is not added twice).
    pub fn lock_state(&mut self, state: CheckboxState)
        ensures
            final(self).locked_states@ == (if old(self).locked_is_signal && !old(self).locked_states@.contains(state) {
                old(self).locked_states@.push(state)
            } else {
                old(self).locked_states@
            }),
            final(self).locked_is_signal == old(self).locked_is_signal,
            final(self).value == old(self).value,
            final(self).value_is_signal == old(self).value_is_signal,
            final(self).on_change == old(self).on_change,
            final(self).allow_indeterminate == old(self).allow_indeterminate,
    {
        if self.locked_is_signal {
            if !self.is_state_locked(state) {
                self.locked_states.push(state);
            }
        }
    }

    /// Removes every occurrence of `state` from the locked states (only when
    /// they are a signal).
    pub fn unlock_state(&mut self, state: CheckboxState)
        ensures
            final(self).locked_states@ == (if old(self).locked_is_signal {
                without_state(old(self).locked_states@, state)
            } else {
                old(self).locked_states@
            }),
            final(self).locked_is_signal == old(self).locked_is_signal,
            final(self).value == old(self).value,
            final(self).value_is_signal == old(self).value_is_signal,
            final(self).on_change == old(self).on_change,
            final(self).allow_indeterminate == old(self).allow_indeterminate,
    {
        if self.locked_is_signal {
            let mut kept: Vec<CheckboxState> = Vec::new();
            let mut i: usize = 0;
            while i < self.locked_states.len()
                invariant
                    i <= self.locked_states@.len(),
                    kept@ == without_state(self.locked_states@.take(i as int), state),
                decreases self.locked_states@.len() - i,
            {
                if self.locked_states[i] != state {
                    kept.push(self.locked_states[i]);
                }
                proof {
                    let t = self.locked_states@.take(i + 1);
                    assert(t.drop_last() =~= self.locked_states@.take(i as int));
                    assert(t.last() == self.locked_states@[i as int]);
                    assert(kept@ =~= without_state(t, state));
                }
                i = i + 1;
            }
            assert(self.locked_states@.take(self.locked_states@.len() as int) =~= self.locked_states@);
            self.locked_states = kept;
        }
    }

    /// Clears the locked states (only when they are a signal).
    pub fn unlock_all_states(&mut self)
        ensures
            final(self).locked_states@ == (if old(self).locked_is_signal { Seq::empty() } else { old(self).locked_states@ }),
            final(self).locked_is_signal == old(self).locked_is_signal,
            final(self).value == old(self).value,
            final(self).value_is_signal == old(self).value_is_signal,
            final(self).on_change == old(self).on_change,
            final(self).allow_indeterminate == old(self).allow_indeterminate,
    {
        if self.locked_is_signal {
            self.locked_states = Vec::new();
        }
    }

    /// The current value.
    pub fn current_state(&self) -> (r: CheckboxState)
        ensures
            r == self.value,
    {
        self.value
    }

    /// The state a click moves `current` to.
    pub fn next_state(&self, current: CheckboxState) -> (r: CheckboxState)
        ensures
            r == spec_cycle_next_with(current, self.allow_indeterminate),
    {
        current.cycle_next_with_indeterminate(self.allow_indeterminate)
    }

    /// One click: a locked or fixed value stays; otherwise the value moves to
    /// the next state. Returns whether it moved.
    pub fn try_toggle(&mut self) -> (r: bool)
        ensures
            r == (!old(self).locked_states@.contains(old(self).value) && old(self).value_is_signal),
            final(self).value == (if r { spec_cycle_next_with(old(self).value, old(self).allow_indeterminate) } else { old(self).value }),
            final(self).locked_states == old(self).locked_states,
            final(self).locked_is_signal == old(self).locked_is_signal,
            final(self).value_is_signal == old(self).value_is_signal,
            final(self).on_change == old(self).on_change,
            final(self).allow_indeterminate == old(self).allow_indeterminate,
    {
        let current_state = self.current_state();
        if self.is_state_locked(current_state) {
            return false;
        }
        if self.value_is_signal {
            let new_state = self.next_state(current_state);
            self.value = new_state;
            true
        } else {
            false
        }
    }

    /// One frame of input: with the cursor over the box, every left-button
    /// release tries a toggle; each one that changes the value requests the
    /// `on_change` update and a redraw.
    pub fn update(&mut self, cursor_hit: bool, buttons: &Vec<ButtonEvent>) -> (r: Update)
        ensures
            final(self).locked_states == old(self).locked_states,
            final(self).allow_indeterminate == old(self).allow_indeterminate,
            final(self).locked_is_signal == old(self).locked_is_signal,
            final(self).value_is_signal == old(self).value_is_signal,
            final(self).on_change == old(self).on_change,
            !cursor_hit ==> final(self).value == old(self).value && r.bits == 0,
            cursor_hit ==> final(self).value == toggled_value(*old(self), left_releases(buttons@)),
            r.bits == (if cursor_hit && toggles_taken(*old(self), left_releases(buttons@)) > 0 {
                old(self).on_change.bits | crate::update::UPDATE_DRAW
            } else {
                0
            }),
    {
        let mut update = Update::empty();
        if cursor_hit {
            let ghost start = *self;
            let mut i: usize = 0;
            while i < buttons.len()
                invariant
                    i <= buttons@.len(),
                    self.locked_states == start.locked_states,
                    self.locked_is_signal == start.locked_is_signal,
                    self.value_is_signal == start.value_is_signal,
                    self.on_change == start.on_change,
                    self.allow_indeterminate == start.allow_indeterminate,
                    self.value == toggled_value(start, left_releases(buttons@.take(i as int))),
                    update.bits == (if toggles_taken(start, left_releases(buttons@.take(i as int))) > 0 {
                        start.on_change.bits | crate::update::UPDATE_DRAW
                    } else {
                        0
                    }),
                decreases buttons@.len() - i,
            {
                proof {
                    assert(buttons@.take(i + 1).drop_last() =~= buttons@.take(i as int));
                }
                let ev = buttons[i];
                if ev.button == MouseButton::Left && ev.state == ElementState::Released {
                    let before = update;
                    if self.try_toggle() {
                        update.insert(self.on_change);
                        update.insert(Update::draw());
                        proof {
                            let t = toggles_taken(start, left_releases(buttons@.take(i as int)));
                            assert(update.bits == (before.bits | start.on_change.bits) | crate::update::UPDATE_DRAW);
                            if t > 0 {
                                let x = start.on_change.bits;
                                let d = crate::update::UPDATE_DRAW;
                                assert(((x | d) | x) | d == x | d) by (bit_vector);
                            } else {
                                let x = start.on_change.bits;
                                let d = crate::update::UPDATE_DRAW;
                                assert((0u32 | x) | d == x | d) by (bit_vector);
                            }
                        }
                    }
                }
                i = i + 1;
            }
            assert(buttons@.take(buttons@.len() as int) =~= buttons@);
        }
        update
    }
}

/// `s` with every occurrence of `x` removed, order kept.
pub open spec fn without_state(s: Seq<CheckboxState>, x: CheckboxState) -> Seq<CheckboxState>
    decreases s.len(),
{
    if s.len() == 0 {
        s
    } else if s.last() == x {
        without_state(s.drop_last(), x)
    } else {
        without_state(s.drop_last(), x).push(s.last())
    }
}

/// How many left-button releases `events` holds.
pub open spec fn left_releases(events: Seq<ButtonEvent>) -> nat
    decreases events.len(),
{
    if events.len() == 0 {
        0
    } else {
        left_releases(events.drop_last()) + (if events.last().button == MouseButton::Left
            && events.last().state == ElementState::Released { 1nat } else { 0nat })
    }
}

/// Whether clicks can move the value of `c` at all.
pub open spec fn can_toggle(c: Checkbox, v: CheckboxState) -> bool {
    c.value_is_signal && !c.locked_states@.contains(v)
}

/// The value of `c` after `n` clicks: each click moves an unlocked value on.
pub open spec fn toggled_value(c: Checkbox, n: nat) -> CheckboxState
    decreases n,
{
    if n == 0 {
        c.value
    } else {
        let v = toggled_value(c, (n - 1) as nat);
        if can_toggle(c, v) { spec_cycle_next_with(v, c.allow_indeterminate) } else { v }
    }
}

/// How many of `n` clicks on `c` changed its value.
pub open spec fn toggles_taken(c: Checkbox, n: nat) -> nat
    decreases n,
{
    if n == 0 {
        0
    } else {
        toggles_taken(c, (n - 1) as nat) + (if can_toggle(c, toggled_value(c, (n - 1) as nat)) { 1nat } else { 0nat })
    }
}

/// Once a click finds the value locked, further clicks change nothing.
pub proof fn law_locked_value_stays(c: Checkbox, n: nat)
    requires
        c.locked_states@.contains(c.value),
    ensures
        toggled_value(c, n) == c.value,
        toggles_taken(c, n) == 0,
    decreases n,
{
    if n > 0 {
        law_locked_value_stays(c, (n - 1) as nat);
    }
}

} // verus!
