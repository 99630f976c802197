//! The scroll container's options, when it shows its scrollbars, and the
//! state of its arrow buttons and thumb drags. Geometry (what lies under the
//! pointer, how far a drag scrolls) is measured by the host and handed in.

use vstd::prelude::*;
use crate::widget_input::{ButtonEvent, MouseButton, ElementState};

verus! {

/// Vertical scrollbar position
#[derive(Debug, Clone, Copy, PartialEq, Eq, Structural)]
pub enum VerticalScrollbarPosition {
    Left,
    Right,
}

impl Default for VerticalScrollbarPosition {
    fn default() -> (r: Self)
        ensures
            r == VerticalScrollbarPosition::Left,
    {
        VerticalScrollbarPosition::Left
    }
}

/// Scrollbar buttons visibility
#[derive(Debug, Clone, Copy, PartialEq, Eq, Structural)]
pub enum ScrollbarButtons {
    Always,
    Never,
}

impl Default for ScrollbarButtons {
    fn default() -> (r: Self)
        ensures
            r == ScrollbarButtons::Always,
    {
        ScrollbarButtons::Always
    }
}

/// Scrolling direction for the scroll container
#[derive(Debug, Clone, Copy, PartialEq, Eq, Structural)]
pub enum ScrollDirection {
    /// Only vertical scrolling
    Vertical,
    /// Only horizontal scrolling
    Horizontal,
    /// Both vertical and horizontal scrolling
    Both,
    /// No scrolling (content is clipped)
    Clipped,
}

/// Scrollbar visibility behavior
#[derive(Debug, Clone, Copy, PartialEq, Eq, Structural)]
pub enum ScrollbarVisibility {
    /// Always show scrollbars
    Always,
    /// Show scrollbars only when needed
    Auto,
    /// Never show scrollbars
    Never,
}

/// Whether the vertical scrollbar shows: always, never, or, in automatic
/// mode, when the content is taller than the viewport and the container
/// scrolls vertically.
pub fn needs_vertical_scrollbar(visibility: ScrollbarVisibility, direction: ScrollDirection, taller: bool) -> (r: bool)
    ensures
        r == match visibility {
            ScrollbarVisibility::Always => true,
            ScrollbarVisibility::Never => false,
            ScrollbarVisibility::Auto => taller && (direction == ScrollDirection::Vertical || direction == ScrollDirection::Both),
        },
{
    match visibility {
        ScrollbarVisibility::Always => true,
        ScrollbarVisibility::Never => false,
        ScrollbarVisibility::Auto => taller && (direction == ScrollDirection::Vertical || direction == ScrollDirection::Both),
    }
}

/// Whether the horizontal scrollbar shows: always, never, or, in automatic
/// mode, when the content is wider than the viewport and the container
/// scrolls horizontally.
pub fn needs_horizontal_scrollbar(visibility: ScrollbarVisibility, direction: ScrollDirection, wider: bool) -> (r: bool)
    ensures
        r == match visibility {
            ScrollbarVisibility::Always => true,
            ScrollbarVisibility::Never => false,
            ScrollbarVisibility::Auto => wider && (direction == ScrollDirection::Horizontal || direction == ScrollDirection::Both),
        },
{
    match visibility {
        ScrollbarVisibility::Always => true,
        ScrollbarVisibility::Never => false,
        ScrollbarVisibility::Auto => wider && (direction == ScrollDirection::Horizontal || direction == ScrollDirection::Both),
    }
}

/// The arrow button that is held down.
#[derive(Debug, Clone, Copy, PartialEq, Eq, Structural)]
pub enum ArrowDirection {
    Up,
    Down,
    Left,
    Right,
}

/// The pointer-driven state of the scrollbars: the arrow button held, the
/// thumbs being dragged, and which arrow buttons the pointer is over.
#[derive(Debug, Clone, Copy, PartialEq, Eq, Structural)]
pub struct ScrollControls {
    pub button_held: Option<ArrowDirection>,
    pub dragging_vertical: bool,
    pub dragging_horizontal: bool,
    pub up_hovered: bool,
    pub down_hovered: bool,
    pub left_hovered: bool,
    pub right_hovered: bool,
}

/// The controls now and as they were drawn last.
#[derive(Debug, Clone, Copy, PartialEq, Eq, Structural)]
pub struct ScrollInteraction {
    pub now: ScrollControls,
    pub drawn: ScrollControls,
}

/// What the host measured under the pointer this frame: the hover of the
/// up and down buttons (when the vertical arrow buttons are shown), of the
/// left and right buttons (when the horizontal ones are), and whether the
/// pointer is on a shown vertical or horizontal thumb.
#[derive(Debug, Clone, Copy)]
pub struct ScrollHits {
    pub vertical_buttons: Option<(bool, bool)>,
    pub horizontal_buttons: Option<(bool, bool)>,
    pub on_vertical_thumb: bool,
    pub on_horizontal_thumb: bool,
}

/// No button held, no drag, nothing hovered.
pub open spec fn idle_controls() -> ScrollControls {
    ScrollControls {
        button_held: None,
        dragging_vertical: false,
        dragging_horizontal: false,
        up_hovered: false,
        down_hovered: false,
        left_hovered: false,
        right_hovered: false,
    }
}

/// The hover flags after this frame's measurement.
pub open spec fn hovered_controls(c: ScrollControls, h: ScrollHits) -> ScrollControls {
    let c1 = match h.vertical_buttons {
        Some((up, down)) => ScrollControls { up_hovered: up, down_hovered: down, ..c },
        None => c,
    };
    match h.horizontal_buttons {
        Some((left, right)) => ScrollControls { left_hovered: left, right_hovered: right, ..c1 },
        None => c1,
    }
}

/// A left press: it holds the hovered arrow button (up, down, left, right
/// in that order of preference) and starts dragging a thumb under the
/// pointer; the flag says whether a drag starts, so that the host records
/// where it started.
pub open spec fn scroll_press(c: ScrollControls, h: ScrollHits) -> (ScrollControls, bool) {
    let held = if c.up_hovered {
        Some(ArrowDirection::Up)
    } else if c.down_hovered {
        Some(ArrowDirection::Down)
    } else if c.left_hovered {
        Some(ArrowDirection::Left)
    } else if c.right_hovered {
        Some(ArrowDirection::Right)
    } else {
        c.button_held
    };
    (
        ScrollControls {
            button_held: held,
            dragging_vertical: c.dragging_vertical || h.on_vertical_thumb,
            dragging_horizontal: c.dragging_horizontal || h.on_horizontal_thumb,
            ..c
        },
        h.on_vertical_thumb || h.on_horizontal_thumb,
    )
}

/// A left release lets go of the held button and of both thumbs.
pub open spec fn scroll_release(c: ScrollControls) -> ScrollControls {
    ScrollControls { button_held: None, dragging_vertical: false, dragging_horizontal: false, ..c }
}

/// The left-button events of a frame, in order.
pub open spec fn scroll_buttons(c: ScrollControls, h: ScrollHits, buttons: Seq<ButtonEvent>) -> (ScrollControls, bool)
    decreases buttons.len(),
{
    if buttons.len() == 0 {
        (c, false)
    } else {
        let r = scroll_buttons(c, h, buttons.drop_last());
        let b = buttons.last();
        if b.button != MouseButton::Left {
            r
        } else if b.state == ElementState::Pressed {
            let p = scroll_press(r.0, h);
            (p.0, r.1 || p.1)
        } else {
            (scroll_release(r.0), r.1)
        }
    }
}

/// One frame of the controls: the hover measurement, then the buttons;
/// a redraw is asked for when the controls differ from those drawn last.
/// Returns the new interaction, whether a drag started and the redraw flag.
pub open spec fn scroll_frame(s: ScrollInteraction, h: ScrollHits, buttons: Seq<ButtonEvent>) -> (ScrollInteraction, bool, bool) {
    let r = scroll_buttons(hovered_controls(s.now, h), h, buttons);
    (ScrollInteraction { now: r.0, drawn: r.0 }, r.1, r.0 != s.drawn)
}

impl ScrollInteraction {
    /// Idle controls, drawn as such.
    pub fn new() -> (r: Self)
        ensures
            r.now == idle_controls() && r.drawn == idle_controls(),
    {
        let c = ScrollControls {
            button_held: None,
            dragging_vertical: false,
            dragging_horizontal: false,
            up_hovered: false,
            down_hovered: false,
            left_hovered: false,
            right_hovered: false,
        };
        ScrollInteraction { now: c, drawn: c }
    }

    /// One frame of pointer input on the scrollbars. Returns whether a thumb
    /// drag started (the host then records the pointer and the scroll
    /// offset) and whether the scrollbars are to be redrawn.
    pub fn update(&mut self, hits: ScrollHits, buttons: &Vec<ButtonEvent>) -> (r: (bool, bool))
        ensures
            *final(self) == scroll_frame(*old(self), hits, buttons@).0,
            r.0 == scroll_frame(*old(self), hits, buttons@).1,
            r.1 == scroll_frame(*old(self), hits, buttons@).2,
    {
        let mut c = self.now;
        match hits.vertical_buttons {
            Some((up, down)) => {
                c.up_hovered = up;
                c.down_hovered = down;
            },
            None => {},
        }
        match hits.horizontal_buttons {
            Some((left, right)) => {
                c.left_hovered = left;
                c.right_hovered = right;
            },
            None => {},
        }
        let ghost c0 = c;
        let mut started = false;
        let mut i: usize = 0;
        while i < buttons.len()
            invariant
                i <= buttons@.len(),
                (c, started) == scroll_buttons(c0, hits, buttons@.take(i as int)),
            decreases buttons@.len() - i,
        {
            proof {
                assert(buttons@.take(i + 1).drop_last() =~= buttons@.take(i as int));
            }
            let b = buttons[i];
            if b.button == MouseButton::Left {
                match b.state {
                    ElementState::Pressed => {
                        if c.up_hovered {
                            c.button_held = Some(ArrowDirection::Up);
                        } else if c.down_hovered {
                            c.button_held = Some(ArrowDirection::Down);
                        } else if c.left_hovered {
                            c.button_held = Some(ArrowDirection::Left);
                        } else if c.right_hovered {
                            c.button_held = Some(ArrowDirection::Right);
                        }
                        if hits.on_vertical_thumb {
                            c.dragging_vertical = true;
                            started = true;
                        }
                        if hits.on_horizontal_thumb {
                            c.dragging_horizontal = true;
                            started = true;
                        }
                    },
                    ElementState::Released => {
                        c.button_held = None;
                        c.dragging_vertical = false;
                        c.dragging_horizontal = false;
                    },
                }
            }
            i = i + 1;
        }
        assert(buttons@.take(buttons@.len() as int) =~= buttons@);
        let redraw = c != self.drawn;
        self.now = c;
        self.drawn = c;
        (started, redraw)
    }
}

/// A frame that ends with a left release leaves no arrow button held and
/// no thumb dragged.
pub proof fn law_release_ends_scrolling(s: ScrollInteraction, h: ScrollHits, buttons: Seq<ButtonEvent>)
    requires
        buttons.len() > 0,
        buttons.last() == (ButtonEvent { button: MouseButton::Left, state: ElementState::Released }),
    ensures
        scroll_frame(s, h, buttons).0.now.button_held is None,
        !scroll_frame(s, h, buttons).0.now.dragging_vertical,
        !scroll_frame(s, h, buttons).0.now.dragging_horizontal,
{
}

/// A frame without button events changes nothing but the hover flags, and
/// asks for a redraw exactly when those differ from what was drawn.
pub proof fn law_hover_only_frame(s: ScrollInteraction, h: ScrollHits)
    ensures
        scroll_frame(s, h, Seq::empty()).0.now == hovered_controls(s.now, h),
        scroll_frame(s, h, Seq::empty()).2 == (hovered_controls(s.now, h) != s.drawn),
{
}

} // verus!
