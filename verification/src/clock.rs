//! The time of day, as the registry records it.

use vstd::prelude::*;

verus! {

/// The current local time as an RFC 3339 text, from `chrono::Local::now`
/// followed by `DateTime::to_rfc3339`. Nothing is claimed of the text: it
/// differs from call to call. `chrono` reads the system clock and panics
/// where that clock stands before 1970; nothing handed to this function
/// decides that.
#[verifier::external_body]
pub(crate) fn local_time_text() -> (now: String) {
    chrono::Local::now().to_rfc3339()
}

} // verus!
