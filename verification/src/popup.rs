//! A popup's visibility and the overlay layer that shows it.

use vstd::prelude::*;

verus! {

/// Where a popup opens relative to its anchor.
#[derive(Clone, Copy, PartialEq, Eq, Structural, Debug)]
pub enum PopupPosition {
    Above,
    Below,
    Left,
    Right,
    Auto,
}

/// What the popup asks the overlay manager to do.
#[derive(Clone, Copy, PartialEq, Eq, Structural, Debug)]
pub enum OverlayRequest {
    /// Add a layer for the popup; its id is handed back with `attach`.
    Add,
    /// Remove the popup's layer.
    Remove(u64),
    Nothing,
}

/// A popup: shown or not, and the overlay layer it occupies.
#[derive(Clone, Copy, PartialEq, Eq, Structural, Debug)]
pub struct Popup {
    pub is_visible: bool,
    pub overlay_id: Option<u64>,
    pub position: PopupPosition,
}

impl Popup {
    /// A hidden popup below its anchor.
    pub fn new() -> (r: Self)
        ensures
            !r.is_visible && r.overlay_id is None && r.position == PopupPosition::Below,
    {
        Popup { is_visible: false, overlay_id: None, position: PopupPosition::Below }
    }

    /// Sets where the popup opens.
    pub fn with_position(self, position: PopupPosition) -> (r: Self)
        ensures
            r == (Popup { position, ..self }),
    {
        Popup { position, ..self }
    }

    /// Shows the popup: a hidden one becomes visible and asks for a layer.
    pub fn show(&mut self) -> (r: OverlayRequest)
        ensures
            old(self).is_visible ==> *final(self) == *old(self) && r == OverlayRequest::Nothing,
            !old(self).is_visible ==> *final(self) == (Popup { is_visible: true, ..*old(self) }) && r == OverlayRequest::Add,
    {
        if !self.is_visible {
            self.is_visible = true;
            OverlayRequest::Add
        } else {
            OverlayRequest::Nothing
        }
    }

    /// Records the layer the overlay manager gave the popup.
    pub fn attach(&mut self, id: u64)
        ensures
            *final(self) == (Popup { overlay_id: Some(id), ..*old(self) }),
    {
        self.overlay_id = Some(id);
    }

    /// Hides the popup: a visible one gives its layer back.
    pub fn hide_popup(&mut self) -> (r: OverlayRequest)
        ensures
            !old(self).is_visible ==> *final(self) == *old(self) && r == OverlayRequest::Nothing,
            old(self).is_visible ==> *final(self) == (Popup { is_visible: false, overlay_id: None, ..*old(self) })
                && r == match old(self).overlay_id {
                    Some(id) => OverlayRequest::Remove(id),
                    None => OverlayRequest::Nothing,
                },
    {
        if self.is_visible {
            self.is_visible = false;
            match self.overlay_id {
                Some(id) => {
                    self.overlay_id = None;
                    OverlayRequest::Remove(id)
                },
                None => OverlayRequest::Nothing,
            }
        } else {
            OverlayRequest::Nothing
        }
    }

    /// Hides a visible popup, shows a hidden one.
    pub fn toggle(&mut self) -> (r: OverlayRequest)
        ensures
            (*final(self), r) == toggled(*old(self)),
    {
        if self.is_visible {
            self.hide_popup()
        } else {
            self.show()
        }
    }

    /// Whether the popup is shown.
    pub fn is_visible(&self) -> (r: bool)
        ensures
            r == self.is_visible,
    {
        self.is_visible
    }
}

/// `toggle`: a visible popup hides and gives its layer back, a hidden one
/// shows and asks for a layer.
pub open spec fn toggled(p: Popup) -> (Popup, OverlayRequest) {
    if p.is_visible {
        (
            Popup { is_visible: false, overlay_id: None, ..p },
            match p.overlay_id {
                Some(id) => OverlayRequest::Remove(id),
                None => OverlayRequest::Nothing,
            },
        )
    } else {
        (Popup { is_visible: true, ..p }, OverlayRequest::Add)
    }
}

/// Toggling twice brings the popup back to its visibility; a hidden popup
/// shown and given layer `id` hands that layer back when toggled again.
pub proof fn law_toggle_twice(p: Popup, id: u64)
    ensures
        toggled(toggled(p).0).0.is_visible == p.is_visible,
        !p.is_visible ==> toggled(Popup { overlay_id: Some(id), ..toggled(p).0 }).1 == OverlayRequest::Remove(id),
{
}

} // verus!
