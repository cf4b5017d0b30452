use vstd::prelude::*;

verus! {

/// Failure kinds of a calibration run.
#[derive(Debug, Clone, Copy, PartialEq, Eq, Structural)]
pub enum Error {
    /// A delay value or a register field outside the delay domain.
    InvalidDelay,
    /// The delay could not be applied to the hardware.
    Apply,
    /// The interface counters could not be read, or went backwards.
    Counter,
    /// No frame was received during a measurement.
    NoTraffic,
    /// The load-generating transfer failed for another reason than a timeout.
    Transfer,
}

} // verus!
