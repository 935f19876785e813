//! Fresh identifiers for stored records and queued jobs.

use vstd::prelude::*;
use uuid::Uuid;

verus! {

/// `Uuid::new_v4().to_string()`: a random version 4 UUID in its hyphenated
/// lower-case form, 36 characters with `-` at positions 8, 13, 18 and 23.
/// Which UUID comes out is left open.
#[verifier::external_body]
pub(crate) fn new_uuid_string() -> (r: String)
    ensures
        r@.len() == 36,
        r@[8] == '-' && r@[13] == '-' && r@[18] == '-' && r@[23] == '-',
{
    Uuid::new_v4().to_string()
}

/// `Uuid::new_v4().as_u128()`: a random version 4 UUID as a number. Which
/// number comes out is left open.
#[verifier::external_body]
pub(crate) fn new_uuid_value() -> (r: u128)
{
    Uuid::new_v4().as_u128()
}

} // verus!
