//! Editor header state: whether the settings window is shown.

use vstd::prelude::*;

verus! {

/// The header bar's state.
#[derive(Clone, Copy, PartialEq, Eq, Debug, Structural)]
pub struct HeaderCore {
    /// Whether the settings window is open.
    pub settings_window: bool,
}

impl HeaderCore {
    /// A header with the settings window closed.
    pub fn default() -> (r: HeaderCore)
        ensures
            !r.settings_window,
    {
        HeaderCore { settings_window: false }
    }
}

} // verus!
