//! Showing and hiding the main window. Without a native window handle (on
//! systems other than Windows) there is no window to act on: hiding and
//! showing do nothing, and the window counts as visible and not minimised.
use vstd::prelude::*;

verus! {

/// Hides the main window; `false` as there is no native window to hide.
pub fn hide_main_window() -> (r: bool)
    ensures
        !r,
{
    false
}

/// Shows the main window; `false` as there is no native window to show.
pub fn show_main_window() -> (r: bool)
    ensures
        !r,
{
    false
}

/// Whether the main window is visible; without a native window it is.
pub fn is_main_window_visible() -> (r: bool)
    ensures
        r,
{
    true
}

/// Whether the main window is minimised; without a native window it is not.
pub fn is_main_window_minimized() -> (r: bool)
    ensures
        !r,
{
    false
}

} // verus!
