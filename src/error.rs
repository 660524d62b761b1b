//! Failures of a monitor session.

use vstd::prelude::*;

verus! {

/// Why a monitor session could not start or had to stop.
#[derive(Clone, Copy, Debug, PartialEq, Eq, Structural)]
pub enum MonitorError {
    /// The requested output format needs a firmware image and none was given.
    MissingFirmwareImage,
    /// The serial channel failed with something other than a timeout or an
    /// interruption.
    Transport,
    /// Raw mode could not be entered on the terminal.
    Terminal,
}

} // verus!
