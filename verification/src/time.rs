use vstd::prelude::*;

verus! {

/// Largest number of nanoseconds a `std::time::Duration` can hold
/// (`u64::MAX` seconds plus 999_999_999 nanoseconds). Monotonic instants are
/// carried as nanoseconds since a process-local origin and wall-clock stamps as
/// signed nanoseconds since the Unix epoch; both stay within this bound.
pub const DURATION_MAX_NANOS: u128 = 18_446_744_073_709_551_615_999_999_999u128;

/// Nanoseconds in one second.
pub const NANOS_PER_SEC: u128 = 1_000_000_000u128;

/// A monotonic instant or a duration, in nanoseconds, that a `Duration` can represent.
pub open spec fn is_duration(x: u128) -> bool {
    x <= DURATION_MAX_NANOS
}

/// A wall-clock stamp, in signed nanoseconds since the Unix epoch, that a `SystemTime`
/// on this platform can represent.
pub open spec fn is_wall_stamp(x: i128) -> bool {
    -(DURATION_MAX_NANOS as int) <= x <= DURATION_MAX_NANOS as int
}

/// `later - earlier`, clamped at zero: what `Instant::saturating_duration_since`
/// and `Duration::saturating_sub` compute.
pub open spec fn span(later: u128, earlier: u128) -> u128 {
    if later >= earlier {
        (later - earlier) as u128
    } else {
        0
    }
}

/// Executable `span`.
pub fn saturating_span(later: u128, earlier: u128) -> (r: u128)
    ensures
        r == span(later, earlier),
{
    later.saturating_sub(earlier)
}

} // verus!
