//! The system clock.

use vstd::prelude::*;

verus! {

/// The current time in whole seconds since the Unix epoch, read with
/// `SystemTime::now` (zero for a clock set before 1970). Nothing is stated of
/// the value: it depends on the machine's clock.
#[verifier::external_body]
pub(crate) fn now_unix() -> u64 {
    std::time::SystemTime::now().duration_since(std::time::UNIX_EPOCH).map(|d| d.as_secs()).unwrap_or(0)
}

} // verus!
