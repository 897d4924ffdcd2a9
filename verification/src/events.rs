//! Control events carried on the runtime's control channel, and option
//! events produced while enumerating the machine's capabilities.

use vstd::prelude::*;
use crate::options::FullscreenOptions;

verus! {

/// A stop trigger for the running engine: either a user closed a window
/// or an explicit stop command arrived.  Whichever arrives first starts
/// the one and only shutdown sequence; later triggers are ignored.
pub enum RuntimeEvent {
    UserExit(),
    StopThread(),
}

/// Capability information handed back from the windowing thread.
pub enum OptionEvent {
    OpenGLWindowOptions(FullscreenOptions),
}

} // verus!
