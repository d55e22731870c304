//! Time as the service reads it: whole nanoseconds since a fixed instant.
use tokio::time::Instant;
use vstd::prelude::*;

verus! {

/// `tokio::time::Instant`, an opaque reading of the monotonic clock.
#[verifier::external_type_specification]
#[verifier::external_body]
pub struct ExInstant(tokio::time::Instant);

/// `tokio::time::Instant::now`: some reading of the clock. Nothing is claimed
/// of which one.
pub assume_specification[ tokio::time::Instant::now ]() -> (now: Instant)
;

/// Nanoseconds in one second.
pub const NANOS_PER_SEC: u128 = 1_000_000_000;

/// An upper bound on every reading: a `Duration` holds at most `u64::MAX`
/// whole seconds and a fraction.
pub const READING_LIMIT: u128 = 18_446_744_073_709_551_616_000_000_000;

/// `tokio::time::Instant::elapsed`: the time from `epoch` to the moment of the
/// call, in nanoseconds. The value depends on the clock; what is claimed is
/// the range of the duration type.
#[verifier::external_body]
pub(crate) fn nanos_since(epoch: &Instant) -> (nanos: u128)
    ensures
        nanos < READING_LIMIT,
{
    epoch.elapsed().as_nanos()
}

/// `nanos` came out of a call of `nanos_since`: it is what the clock showed
/// during the call, in nanoseconds from `epoch`.
pub closed spec fn is_reading(epoch: Instant, nanos: nat) -> bool {
    nanos < READING_LIMIT && call_ensures(nanos_since, (&epoch,), nanos as u128)
}

/// Reads the clock, in nanoseconds from `epoch`.
pub(crate) fn read_clock(epoch: &Instant) -> (nanos: u128)
    ensures
        is_reading(*epoch, nanos as nat),
        nanos < READING_LIMIT,
{
    let read = nanos_since;
    read(epoch)
}

/// A reading is exactly what the clock gave, neither scaled nor shifted, and
/// it fits into a duration.
pub(crate) proof fn lemma_reading_is_unaltered(epoch: Instant, nanos: u128)
    ensures
        call_ensures(nanos_since, (&epoch,), nanos) <==> is_reading(epoch, nanos as nat),
        is_reading(epoch, nanos as nat) ==> nanos / 1_000_000_000 <= u64::MAX,
{
}

/// `instant` came out of a call of `tokio::time::Instant::now`: it is the
/// moment of the call.
pub open spec fn is_now(instant: Instant) -> bool {
    call_ensures(Instant::now, (), instant)
}

/// The moment of the call.
pub(crate) fn this_instant() -> (now: Instant)
    ensures
        is_now(now),
{
    let read = Instant::now;
    read()
}

/// A second is a thousand million nanoseconds.
pub proof fn lemma_nanoseconds_in_a_second()
    ensures
        NANOS_PER_SEC == 1_000 * 1_000 * 1_000,
        READING_LIMIT == (u64::MAX + 1) * NANOS_PER_SEC,
{
}

} // verus!
