//! Identifiers and clock readings that come from the environment: random
//! version-4 UUIDs and the current UTC time.

use vstd::prelude::*;
use chrono::Utc;
use uuid::Uuid;

verus! {

/// The version and variant bits that every version-4 UUID carries.
pub open spec fn uuid_v4_bits(id: u128) -> bool {
    id & 0xF000_C000_0000_0000_0000u128 == 0x4000_8000_0000_0000_0000u128
}

/// `Uuid::new_v4().as_u128()`: a fresh random UUID as its big-endian
/// 128-bit integer. Its value is random; what holds of every outcome is
/// that the version nibble reads 4 and the variant bits read `10`.
#[verifier::external_body]
pub(crate) fn random_uuid() -> (id: u128)
    ensures
        uuid_v4_bits(id),
{
    Uuid::new_v4().as_u128()
}

/// `Utc::now().timestamp()`: the current time in whole seconds since the
/// Unix epoch. The reading depends on the clock; `Utc::now` panics on a
/// clock set before the epoch, so any value it returns is non-negative.
#[verifier::external_body]
pub(crate) fn now_unix_seconds() -> (t: i64)
    ensures
        t >= 0,
{
    Utc::now().timestamp()
}

} // verus!
