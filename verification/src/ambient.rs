//! What the library takes from its surroundings: the clock and the random
//! number generator. Nothing here is proved; each item states what it relies on.
//! A reading of the clock is put into words by chrono, in `calendar`.

use vstd::prelude::*;

verus! {

/// `std::time::SystemTime`: a reading of the wall clock, carried from where
/// it is taken to where it is measured and never looked into.
#[verifier::external_type_specification]
#[verifier::external_body]
pub struct ExSystemTime(std::time::SystemTime);

/// `std::time::SystemTime::now`: the machine's wall clock. Two readings need
/// not agree, nor follow one another, so nothing is claimed of the value.
#[verifier::external_body]
pub(crate) fn system_now() -> (now: std::time::SystemTime) {
    std::time::SystemTime::now()
}

/// `std::time::SystemTime::duration_since` against `UNIX_EPOCH`: the time
/// elapsed since 1970-01-01T00:00:00Z, or `None` for a clock set before it.
#[verifier::external_body]
pub(crate) fn since_unix_epoch(moment: &std::time::SystemTime) -> (elapsed: Option<
    std::time::Duration,
>) {
    moment.duration_since(std::time::UNIX_EPOCH).ok()
}

/// `std::time::Duration::as_millis`: the whole milliseconds in a duration.
#[verifier::external_body]
pub(crate) fn whole_millis(elapsed: &std::time::Duration) -> (millis: u128) {
    elapsed.as_millis()
}

/// `std::time::Duration::as_secs`: the whole seconds in a duration.
#[verifier::external_body]
pub(crate) fn whole_secs(elapsed: &std::time::Duration) -> (secs: u64) {
    elapsed.as_secs()
}

/// `std::time::Duration::subsec_nanos`: the nanoseconds of a duration beyond
/// its whole seconds.
#[verifier::external_body]
pub(crate) fn fraction_nanos(elapsed: &std::time::Duration) -> (nanos: u32) {
    elapsed.subsec_nanos()
}

/// `uuid::Uuid::new_v4` rendered by the `Display` of `uuid::Uuid`: a random
/// version 4 identifier in its hyphenated form, which is always 36 characters
/// long. Which identifier comes out is left open. uuid stops the program
/// where the operating system hands out no random bytes.
#[verifier::external_body]
pub(crate) fn fresh_uuid() -> (id: String)
    ensures
        id@.len() == 36,
{
    uuid::Uuid::new_v4().to_string()
}

} // verus!
