//! The pointer and keyboard input a widget sees in one frame, as plain values.

use vstd::prelude::*;

verus! {

/// A mouse button.
#[derive(Debug, Clone, Copy, PartialEq, Eq, Structural)]
pub enum MouseButton {
    Left,
    Right,
    Middle,
    Other,
}

/// Whether a button or key went down or up.
#[derive(Debug, Clone, Copy, PartialEq, Eq, Structural)]
pub enum ElementState {
    Pressed,
    Released,
}

/// One mouse-button event.
#[derive(Debug, Clone, Copy, PartialEq, Eq, Structural)]
pub struct ButtonEvent {
    pub button: MouseButton,
    pub state: ElementState,
}

/// The keys the widgets react to; every other key is `Other`.
#[derive(Debug, Clone, Copy, PartialEq, Eq, Structural)]
pub enum Key {
    Space,
    Enter,
    Escape,
    F10,
    Other,
}

/// One keyboard event.
#[derive(Debug, Clone, Copy, PartialEq, Eq, Structural)]
pub struct KeyEvent {
    pub key: Key,
    pub state: ElementState,
}

/// A widget's keyboard focus as the focus manager reports it.
#[derive(Debug, Clone, Copy, PartialEq, Eq, Structural)]
pub enum FocusState {
    Unfocused,
    Gained,
    Focused,
    Lost,
}

/// What the focus manager says of a widget in one frame: its focus state
/// and whether the last focus change came from the keyboard.
#[derive(Debug, Clone, Copy, PartialEq, Eq, Structural)]
pub struct FocusReport {
    pub state: FocusState,
    pub via_keyboard: bool,
}

} // verus!
