use vstd::prelude::*;

verus! {

/// Relies on uuid's `Uuid::now_v7` and its `Display` impl: a fresh
/// time-ordered identifier, written in hyphenated form. Its value depends on
/// the clock and on chance, so nothing is stated of it.
#[verifier::external_body]
pub(crate) fn new_uuid() -> (r: String) {
    uuid::Uuid::now_v7().to_string()
}

/// Relies on chrono's `Utc::now` and `DateTime::timestamp_millis`: the current
/// time in milliseconds since the Unix epoch. It depends on the clock, so
/// nothing is stated of it. (chrono panics if the system clock reads a time
/// before the epoch.)
#[verifier::external_body]
pub(crate) fn now_millis() -> (r: i64) {
    chrono::Utc::now().timestamp_millis()
}

} // verus!
