//! The wall clock, read through std's `SystemTime`.
use vstd::prelude::*;

verus! {

/// `std::time::SystemTime`, carried through unchanged.
#[verifier::external_type_specification]
#[verifier::external_body]
pub struct ExSystemTime(std::time::SystemTime);

/// `SystemTime::now`. Nothing is promised of the instant it returns.
#[verifier::external_body]
pub(crate) fn system_now() -> std::time::SystemTime {
    std::time::SystemTime::now()
}

/// `SystemTime::duration_since(UNIX_EPOCH)`, as whole seconds and the
/// nanoseconds past them; `None` for an instant before the epoch. The
/// contract claims what `Duration::subsec_nanos` documents: the nanoseconds
/// are below one second.
#[verifier::external_body]
pub(crate) fn since_unix_epoch(t: &std::time::SystemTime) -> (r: Option<(u64, u32)>)
    ensures
        r matches Some((_, n)) ==> n < 1_000_000_000,
{
    t.duration_since(std::time::UNIX_EPOCH).ok().map(|d| (d.as_secs(), d.subsec_nanos()))
}

/// A reading of the clock against the epoch, as [`since_unix_epoch`] gives
/// it: `None` before the epoch, else whole seconds and the nanoseconds
/// (below one second) past them.
pub open spec fn valid_reading(d: Option<(u64, u32)>) -> bool {
    d matches Some((_, n)) ==> n < 1_000_000_000
}

/// The whole seconds of a reading; 0 before the epoch.
pub open spec fn secs_of_reading(d: Option<(u64, u32)>) -> u64 {
    match d {
        Some((s, _)) => s,
        None => 0,
    }
}

/// The whole seconds of a reading; 0 before the epoch.
pub fn secs_or_zero(d: Option<(u64, u32)>) -> (r: u64)
    ensures
        r == secs_of_reading(d),
{
    match d {
        Some((s, _)) => s,
        None => 0,
    }
}

/// Microseconds of a duration, as `Duration::as_micros() as u64` gives them
/// (the `u128` count cut to its low 64 bits).
pub open spec fn usec_of(secs: u64, nanos: u32) -> u64 {
    ((secs as int * 1_000_000 + nanos as int / 1000) % 0x1_0000_0000_0000_0000) as u64
}

/// Microseconds of a duration of `secs` seconds and `nanos` nanoseconds.
pub fn usec_from(secs: u64, nanos: u32) -> (r: u64)
    ensures
        r == usec_of(secs, nanos),
{
    let total: u128 = (secs as u128) * 1_000_000 + (nanos / 1000) as u128;
    let r = (total % 0x1_0000_0000_0000_0000u128) as u64;
    r
}

/// The microseconds of a reading; 0 before the epoch.
pub open spec fn usec_of_reading(d: Option<(u64, u32)>) -> u64 {
    match d {
        Some((s, n)) => usec_of(s, n),
        None => 0,
    }
}

/// The microseconds of a reading; 0 before the epoch.
pub fn usec_or_zero(d: Option<(u64, u32)>) -> (r: u64)
    ensures
        r == usec_of_reading(d),
{
    match d {
        Some((s, n)) => usec_from(s, n),
        None => 0,
    }
}


/// The `Duration` that `Duration::from_secs(secs)` builds; a function of
/// `secs` alone.
pub uninterp spec fn duration_of_secs(secs: u64) -> std::time::Duration;

/// `Duration::from_secs`: the contract claims only that the duration is a
/// function of the number of seconds.
#[verifier::external_body]
pub(crate) fn duration_from_secs(secs: u64) -> (d: std::time::Duration)
    ensures
        d == duration_of_secs(secs),
{
    std::time::Duration::from_secs(secs)
}

} // verus!
