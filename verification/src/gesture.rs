//! The gesture detector: the updates a child area hands back when hovered,
//! pressed and released.

use vstd::prelude::*;
use crate::update::Update;
use crate::widget_input::{ButtonEvent, MouseButton, ElementState};

verus! {

/// The updates handed back on a press, a release and a hover.
#[derive(Clone, Copy, PartialEq, Eq, Structural, Debug)]
pub struct GestureCallbacks {
    pub press: Update,
    pub release: Update,
    pub hover: Update,
}

impl GestureCallbacks {
    /// Callbacks that hand back no update.
    pub fn new() -> (r: Self)
        ensures
            r.press.bits == 0 && r.release.bits == 0 && r.hover.bits == 0,
    {
        GestureCallbacks { press: Update::empty(), release: Update::empty(), hover: Update::empty() }
    }

    /// Sets the update of a press.
    pub fn with_press(self, update: Update) -> (r: Self)
        ensures
            r == (GestureCallbacks { press: update, ..self }),
    {
        GestureCallbacks { press: update, ..self }
    }

    /// Sets the update of a release.
    pub fn with_release(self, update: Update) -> (r: Self)
        ensures
            r == (GestureCallbacks { release: update, ..self }),
    {
        GestureCallbacks { release: update, ..self }
    }

    /// Sets the update of a hover.
    pub fn with_hover(self, update: Update) -> (r: Self)
        ensures
            r == (GestureCallbacks { hover: update, ..self }),
    {
        GestureCallbacks { hover: update, ..self }
    }

    /// Sets the update of a press in place.
    pub fn set_press(&mut self, update: Update)
        ensures
            *final(self) == (GestureCallbacks { press: update, ..*old(self) }),
    {
        self.press = update;
    }

    /// Sets the update of a release in place.
    pub fn set_release(&mut self, update: Update)
        ensures
            *final(self) == (GestureCallbacks { release: update, ..*old(self) }),
    {
        self.release = update;
    }

    /// Sets the update of a hover in place.
    pub fn set_hover(&mut self, update: Update)
        ensures
            *final(self) == (GestureCallbacks { hover: update, ..*old(self) }),
    {
        self.hover = update;
    }
}

/// The updates of the left-button events, in order.
pub open spec fn buttons_update(c: GestureCallbacks, buttons: Seq<ButtonEvent>) -> u32
    decreases buttons.len(),
{
    if buttons.len() == 0 {
        0
    } else {
        let p = buttons_update(c, buttons.drop_last());
        let e = buttons.last();
        if e.button != MouseButton::Left {
            p
        } else if e.state == ElementState::Pressed {
            p | c.press.bits
        } else {
            p | c.release.bits
        }
    }
}

/// An area that reports gestures over its child.
#[derive(Clone, Copy, PartialEq, Eq, Structural, Debug)]
pub struct GestureDetector {
    pub callbacks: GestureCallbacks,
}

impl GestureDetector {
    /// A detector that hands back no update.
    pub fn new() -> (r: Self)
        ensures
            r.callbacks.press.bits == 0 && r.callbacks.release.bits == 0 && r.callbacks.hover.bits == 0,
    {
        GestureDetector { callbacks: GestureCallbacks::new() }
    }

    /// Sets the update of a press.
    pub fn with_on_press(self, update: Update) -> (r: Self)
        ensures
            r.callbacks == (GestureCallbacks { press: update, ..self.callbacks }),
    {
        GestureDetector { callbacks: self.callbacks.with_press(update) }
    }

    /// Sets the update of a release.
    pub fn with_on_release(self, update: Update) -> (r: Self)
        ensures
            r.callbacks == (GestureCallbacks { release: update, ..self.callbacks }),
    {
        GestureDetector { callbacks: self.callbacks.with_release(update) }
    }

    /// Sets the update of a hover.
    pub fn with_on_hover(self, update: Update) -> (r: Self)
        ensures
            r.callbacks == (GestureCallbacks { hover: update, ..self.callbacks }),
    {
        GestureDetector { callbacks: self.callbacks.with_hover(update) }
    }

    /// Replaces the callbacks.
    pub fn with_callbacks(self, callbacks: GestureCallbacks) -> (r: Self)
        ensures
            r.callbacks == callbacks,
    {
        GestureDetector { callbacks }
    }

    /// The update of a hover.
    pub fn on_hover(&self) -> (r: Update)
        ensures
            r == self.callbacks.hover,
    {
        self.callbacks.hover
    }

    /// The update of a press.
    pub fn on_press(&self) -> (r: Update)
        ensures
            r == self.callbacks.press,
    {
        self.callbacks.press
    }

    /// The update of a release.
    pub fn on_release(&self) -> (r: Update)
        ensures
            r == self.callbacks.release,
    {
        self.callbacks.release
    }

    /// One frame (the child aside): with the cursor over the area, the hover
    /// update and those of the left-button events; nothing otherwise.
    pub fn update(&self, over: bool, buttons: &Vec<ButtonEvent>) -> (r: Update)
        ensures
            r.bits == (if over { 0u32 | self.callbacks.hover.bits | buttons_update(self.callbacks, buttons@) } else { 0u32 }),
    {
        if !over {
            return Update::empty();
        }
        let mut bits: u32 = 0;
        let mut i: usize = 0;
        while i < buttons.len()
            invariant
                i <= buttons@.len(),
                bits == buttons_update(self.callbacks, buttons@.take(i as int)),
            decreases buttons@.len() - i,
        {
            proof {
                assert(buttons@.take(i + 1).drop_last() =~= buttons@.take(i as int));
            }
            let e = buttons[i];
            if e.button == MouseButton::Left {
                if e.state == ElementState::Pressed {
                    bits = bits | self.callbacks.press.bits;
                } else {
                    bits = bits | self.callbacks.release.bits;
                }
            }
            i = i + 1;
        }
        assert(buttons@.take(buttons@.len() as int) =~= buttons@);
        Update { bits: 0u32 | self.callbacks.hover.bits | bits }
    }
}

} // verus!
