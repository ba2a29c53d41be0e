//! The time that is put on messages.
//!
//! Only the server puts it there: the clocks of clients deserve no trust.
use vstd::prelude::*;

verus! {

/// Calls `SystemTime::now` of std and counts the milliseconds since the beginning of
/// the year 1970. Nothing is claimed: the clock may show anything, and it may stand
/// before that beginning.
#[verifier::external_body]
fn read_clock() -> (r: Option<u128>) {
    match std::time::SystemTime::now().duration_since(std::time::UNIX_EPOCH) {
        Ok(passed) => Some(passed.as_millis()),
        Err(_) => None,
    }
}

/// A reading of the clock as the time of a message.
pub open spec fn stamp_of(reading: Option<u128>) -> i64 {
    match reading {
        Some(millis) => millis as i64,
        None => 0,
    }
}

/// A reading of the clock as the time of a message.
pub fn stamp(reading: Option<u128>) -> (r: i64)
    ensures
        r == stamp_of(reading),
        reading is None ==> r == 0,
        reading matches Some(millis) ==> millis <= i64::MAX ==> r == millis,
{
    match reading {
        Some(millis) => millis as i64,
        None => 0,
    }
}

/// The time now, in milliseconds.
pub fn now_ms() -> (r: i64)
    ensures
        exists|reading: Option<u128>| r == #[trigger] stamp_of(reading),
{
    stamp(read_clock())
}

} // verus!
