//! The wall clock, as Unix timestamps in nanoseconds.

use vstd::prelude::*;
use time::OffsetDateTime;

verus! {

/// `OffsetDateTime::now_utc().unix_timestamp_nanos()`: the current time as
/// nanoseconds since the Unix epoch. What it reads is the clock's business.
#[verifier::external_body]
pub(crate) fn now_unix_nanos() -> (t: i128)
{
    OffsetDateTime::now_utc().unix_timestamp_nanos()
}

} // verus!
