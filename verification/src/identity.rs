//! Identifiers and timestamps: what every row of the store is stamped with.

use vstd::prelude::*;

verus! {

/// The identity of a stored row: the 128-bit value of its UUID.
pub type Uid = u128;

/// A moment, in whole seconds since 1970-01-01 00:00:00 UTC.
pub type Timestamp = i64;

/// The version and variant bits that mark a UUID as a random one.
pub open spec fn is_random_uuid(id: u128) -> bool {
    id & 0x0000_0000_0000_f000_c000_0000_0000_0000 == 0x0000_0000_0000_4000_8000_0000_0000_0000
}

/// The text of a UUID as the `uuid` crate prints it.
pub uninterp spec fn hyphenated(id: u128) -> Seq<char>;

/// A moment that is the start of a day.
pub open spec fn is_midnight(moment: Timestamp) -> bool {
    moment >= 0 && moment % 86_400 == 0
}

/// Calls `uuid::Uuid::new_v4` and hands back the UUID's 128-bit value.
/// Which value comes is left to chance; claimed is only that it carries the
/// marks of a random UUID, version 4 and the RFC variant.
#[verifier::external_body]
pub(crate) fn new_uuid() -> (id: Uid)
    ensures
        is_random_uuid(id),
{
    uuid::Uuid::new_v4().as_u128()
}

/// Calls the `Display` of `uuid::Uuid` on the UUID with the given 128-bit
/// value. Claimed is that the text depends on the value alone.
#[verifier::external_body]
pub(crate) fn uuid_to_string(id: Uid) -> (text: String)
    ensures
        text@ == hyphenated(id),
{
    uuid::Uuid::from_u128(id).to_string()
}

/// Calls `chrono::Utc::now` and hands back the start of the current UTC day.
/// Claimed is that the moment is a midnight not before 1970; `chrono` panics
/// where the system clock stands before that.
#[verifier::external_body]
pub(crate) fn today() -> (moment: Timestamp)
    ensures
        is_midnight(moment),
{
    let now: chrono::NaiveDateTime = chrono::Utc::now().date_naive().into();
    now.and_utc().timestamp()
}

} // verus!
