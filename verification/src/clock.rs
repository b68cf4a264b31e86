//! Time and identifiers from outside: the system clock, the range of timestamps, and
//! random identifiers.

use vstd::prelude::*;

use crate::types::Uuid;

verus! {

/// The milliseconds since 1970 that a timestamp can stand for: those from the year
/// -262143 to the year 262142.
pub open spec fn is_timestamp(ms: int) -> bool {
    -8_334_601_228_800_000 <= ms <= 8_210_266_876_799_999
}

/// `chrono::DateTime::from_timestamp_millis`, and back to milliseconds: the same number
/// within the range of timestamps, nothing outside it.
#[verifier::external_body]
pub(crate) fn timestamp_from_millis(ms: i64) -> (r: Option<i64>)
    ensures
        r == (if is_timestamp(ms as int) { Some(ms) } else { None }),
{
    chrono::DateTime::from_timestamp_millis(ms).map(|t| t.timestamp_millis())
}

/// `chrono::Utc::now`, in milliseconds: a timestamp. Which one, nothing says.
#[verifier::external_body]
pub(crate) fn now_millis() -> (r: i64)
    ensures
        is_timestamp(r as int),
{
    chrono::Utc::now().timestamp_millis()
}

/// `uuid::Uuid::new_v4`: an identifier with the bits of version 4 and variant 1 set. The
/// other bits are random.
#[verifier::external_body]
pub(crate) fn random_uuid() -> (r: Uuid)
    ensures
        r.is_random(),
{
    Uuid { bits: uuid::Uuid::new_v4().as_u128() }
}

/// A stored time as a timestamp; a time outside the range counts as 1970.
pub open spec fn timestamp_or_epoch(ms: i64) -> i64 {
    if is_timestamp(ms as int) {
        ms
    } else {
        0
    }
}

/// A stored time as a timestamp; a time outside the range is no time.
pub open spec fn timestamp_or_none(ms: Option<i64>) -> Option<i64> {
    match ms {
        Some(t) => if is_timestamp(t as int) {
            Some(t)
        } else {
            None
        },
        None => None,
    }
}

pub fn time_or_epoch(ms: i64) -> (r: i64)
    ensures
        r == timestamp_or_epoch(ms),
{
    match timestamp_from_millis(ms) {
        Some(t) => t,
        None => 0,
    }
}

pub fn time_or_none(ms: Option<i64>) -> (r: Option<i64>)
    ensures
        r == timestamp_or_none(ms),
{
    match ms {
        Some(t) => timestamp_from_millis(t),
        None => None,
    }
}

} // verus!
