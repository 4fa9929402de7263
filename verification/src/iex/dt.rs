//! Time values carried by IEX-TP.
use vstd::prelude::*;

verus! {

/// A point in time in nanoseconds since the POSIX epoch (UTC).
pub type UtcNs = u64;

} // verus!
