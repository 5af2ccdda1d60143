//! Wall-clock and entropy sources. Nothing is promised of their results.
use vstd::prelude::*;

verus! {

/// Nanoseconds per second.
pub const NANOS_PER_SEC: u64 = 1_000_000_000;

/// Nanoseconds since the Unix epoch from `SystemTime::now`, or zero when the
/// clock reads before the epoch.
#[verifier::external_body]
pub(crate) fn unix_time_nanos() -> u64 {
    std::time::SystemTime::now()
        .duration_since(std::time::UNIX_EPOCH)
        .unwrap_or_default()
        .as_nanos() as u64
}

/// The 16 bytes of a fresh random UUID from `uuid::Uuid::new_v4`.
#[verifier::external_body]
pub(crate) fn random_uuid_bytes() -> (b: Vec<u8>)
    ensures
        b@.len() == 16,
{
    uuid::Uuid::new_v4().as_bytes().to_vec()
}

/// A fresh random UUID in hyphenated lowercase text from `uuid::Uuid::new_v4`.
#[verifier::external_body]
pub(crate) fn random_uuid_string() -> (s: String)
    ensures
        s@.len() == 36,
{
    uuid::Uuid::new_v4().to_string()
}

} // verus!
