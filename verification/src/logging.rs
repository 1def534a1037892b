//! The switch for diagnostics, which the configuration sets.

use vstd::prelude::*;

verus! {

/// Whether diagnostics are written. They are until a configuration says
/// otherwise, so that what happens before it is read can be seen.
pub struct Logging {
    pub enabled: bool,
}

impl Logging {
    /// The state before any configuration was read.
    pub fn new() -> (r: Logging)
        ensures
            r.enabled,
    {
        Logging { enabled: true }
    }
}

/// Turns diagnostics on or off.
pub fn set_logging_enabled(logging: &mut Logging, enabled: bool)
    ensures
        final(logging).enabled == enabled,
{
    logging.enabled = enabled;
}

/// Whether diagnostics are written.
pub fn logging_enabled(logging: &Logging) -> (r: bool)
    ensures
        r == logging.enabled,
{
    logging.enabled
}

} // verus!
