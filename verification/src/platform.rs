//! Whether the application runs in a Wayland session, from the session's
//! environment as the host read it.

use vstd::prelude::*;

verus! {

/// What `str::to_lowercase` gives for `s`.
pub uninterp spec fn lower_text(s: Seq<char>) -> Seq<char>;

/// `str::to_lowercase`: the Unicode lower case of a string, a function of
/// the string alone; the case mapping is not spelled out here.
#[verifier::external_body]
fn to_lower(s: &str) -> (r: String)
    ensures
        r@ == lower_text(s@),
{
    s.to_lowercase()
}

/// The decision from the lower-cased session type: Wayland when
/// `WAYLAND_DISPLAY` is set or the session type is `wayland`.
pub fn wayland_from_lowered(wayland_display_set: bool, lowered_session_type: Option<&str>) -> (r: bool)
    ensures
        r == (wayland_display_set || match lowered_session_type {
            Some(t) => t@ == "wayland"@,
            None => false,
        }),
{
    if wayland_display_set {
        return true;
    }
    match lowered_session_type {
        Some(t) => crate::textutil::str_eq(t, "wayland"),
        None => false,
    }
}

/// Whether this is a Wayland session: `WAYLAND_DISPLAY` is set, or
/// `XDG_SESSION_TYPE` (when set) is `wayland` in any case.
pub fn is_wayland_session(wayland_display_set: bool, session_type: Option<&str>) -> (r: bool)
    ensures
        r == (wayland_display_set || match session_type {
            Some(t) => lower_text(t@) == "wayland"@,
            None => false,
        }),
{
    match session_type {
        Some(t) => {
            let low = to_lower(t);
            wayland_from_lowered(wayland_display_set, Some(low.as_str()))
        },
        None => wayland_from_lowered(wayland_display_set, None),
    }
}

} // verus!
