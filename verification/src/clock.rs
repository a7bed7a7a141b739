//! The clock that circuits are timed with.

use vstd::prelude::*;

use std::time::Instant;

verus! {

/// `std::time::Instant`, as an opaque type.
#[verifier::external_type_specification]
#[verifier::external_body]
pub struct ExInstant(Instant);

/// `Instant::now` reads the clock: nothing is known of the time that it returns.
pub assume_specification[ Instant::now ]() -> Instant;

/// Calls `Instant::elapsed`: how long ago `origin` was, in nanoseconds. It reads the clock, so
/// nothing is known of the number.
#[verifier::external_body]
pub(crate) fn nanos_since(origin: &Instant) -> u128 {
    origin.elapsed().as_nanos()
}

/// Whether `nanos` came out of a call of [`nanos_since`] for `origin`. Nothing but such a call
/// establishes it, so a time of which it holds was read from the clock and not made up.
pub closed spec fn clock_read(origin: Instant, nanos: u128) -> bool {
    call_ensures(nanos_since, (&origin,), nanos)
}

/// A clock reading is what the clock function returned for that very starting point, unaltered.
pub(crate) proof fn law_clock_reading_is_what_the_clock_returned(origin: Instant, nanos: u128)
    ensures
        clock_read(origin, nanos) <==> call_ensures(nanos_since, (&origin,), nanos),
{
}

/// Reads the clock: how long ago `origin` was, in nanoseconds.
pub(crate) fn read_clock(origin: &Instant) -> (nanos: u128)
    ensures
        clock_read(*origin, nanos),
{
    nanos_since(origin)
}

} // verus!
