//! UUIDs as 128-bit numbers.

use vstd::prelude::*;

verus! {

/// The UUID that a text stands for, as the number that its sixteen bytes make,
/// the first byte being the highest; the error where the text is no UUID.
pub uninterp spec fn parsed_uuid(text: Seq<char>) -> Result<u128, uuid::Error>;

/// `uuid::Uuid::parse_str`, its result taken by `as_u128`. What it returns is
/// trusted to depend on the text alone: it is `parsed_uuid` of the text, which
/// says no more of it than that.
#[verifier::external_body]
pub(crate) fn parse_uuid(text: &str) -> (parsed: Result<u128, uuid::Error>)
    ensures
        parsed == parsed_uuid(text@),
{
    uuid::Uuid::parse_str(text).map(|id| id.as_u128())
}

/// A version 4 UUID of the RFC 4122 variant: the one for random numbers.
pub open spec fn is_random_uuid(value: u128) -> bool {
    value & 0xF000_C000_0000_0000_0000u128 == 0x4000_8000_0000_0000_0000u128
}

/// `uuid::Uuid::new_v4`, its result taken by `as_u128`. It is trusted to set
/// the version and the variant; the other bits are random, and nothing is said
/// of them. It panics where the system has no random numbers to give.
#[verifier::external_body]
pub(crate) fn random_uuid() -> (value: u128)
    ensures
        is_random_uuid(value),
{
    uuid::Uuid::new_v4().as_u128()
}

/// The number is one that the random source gives: it can come out of a call of
/// `random_uuid`, and of nothing else is that known.
pub closed spec fn drawn(value: u128) -> bool {
    call_ensures(random_uuid, (), value)
}

/// Calls a source of numbers once.
fn take_one<F: Fn() -> u128>(source: F) -> (value: u128)
    requires
        call_requires(source, ()),
    ensures
        call_ensures(source, (), value),
{
    source()
}

/// Draws a UUID from the random source.
pub(crate) fn draw_uuid() -> (value: u128)
    ensures
        drawn(value),
        call_ensures(random_uuid, (), value),
        is_random_uuid(value),
{
    take_one(random_uuid)
}

/// A number is drawn exactly where the random source can give it.
pub(crate) proof fn law_drawn_comes_from_random_source(value: u128)
    ensures
        drawn(value) <==> call_ensures(random_uuid, (), value),
        drawn(value) ==> is_random_uuid(value),
{
}

} // verus!
