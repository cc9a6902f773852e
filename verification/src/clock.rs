//! The time of day, as the records and the name of the data file show it.

use vstd::prelude::*;

verus! {

/// The current time in UTC as text.
///
/// This calls `chrono::offset::Utc::now` and renders the value with its
/// `Display` implementation. Nothing is claimed of the text: it is the
/// clock's, and differs from call to call.
///
/// `Utc::now` panics where the system clock reads a time before 1970, or one
/// beyond the years that `chrono` can hold. Nothing that a caller passes can
/// bring that about or prevent it.
#[verifier::external_body]
pub(crate) fn utc_timestamp() -> (text: String) {
    format!("{}", chrono::offset::Utc::now())
}

} // verus!
