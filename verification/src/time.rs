//! The two `core::time::Duration` operations the library relies on.

use core::time::Duration;
use vstd::prelude::*;

verus! {

/// The `Duration` that `Duration::new(secs, nanos)` builds.
pub uninterp spec fn duration_from_parts(secs: u64, nanos: u32) -> Duration;

/// The whole number of milliseconds that `Duration::as_millis` reports for `d`.
pub uninterp spec fn duration_millis(d: Duration) -> u128;

/// Calls `core::time::Duration::new`.
///
/// `Duration::new` only panics when carrying `nanos` into the seconds
/// overflows; with `nanos` below one second nothing carries, so the
/// `requires` rules that case out. The contract claims that the result
/// is determined by the two arguments, and names it `duration_from_parts`;
/// and, since the duration spans `secs` seconds plus `nanos` nanoseconds,
/// that `Duration::as_millis` reports `secs * 1000 + nanos / 1_000_000`
/// whole milliseconds of it.
#[verifier::external_body]
pub(crate) fn duration_new(secs: u64, nanos: u32) -> (d: Duration)
    requires
        nanos < 1_000_000_000,
    ensures
        d == duration_from_parts(secs, nanos),
        duration_millis(d) == secs * 1000 + nanos / 1_000_000,
{
    Duration::new(secs, nanos)
}

/// Calls `core::time::Duration::as_millis`.
///
/// The contract claims that the result is determined by the duration
/// alone, and names it `duration_millis`.
#[verifier::external_body]
pub(crate) fn duration_as_millis(d: &Duration) -> (ms: u128)
    ensures
        ms == duration_millis(*d),
{
    d.as_millis()
}

} // verus!
