//! The 15-minute periods that markets run for.
use vstd::prelude::*;

verus! {

/// How long a period is, in seconds.
pub const PERIOD_SECONDS: u64 = 900;

/// The start of the period that a time falls into.
pub open spec fn start_of(time: int) -> int {
    time / PERIOD_SECONDS as int * PERIOD_SECONDS
}

/// How many seconds of a period are left at a time.
pub open spec fn left_of(period: int, now: int) -> int {
    if period + PERIOD_SECONDS > now {
        period + PERIOD_SECONDS - now
    } else {
        0
    }
}

/// The start of the period that a time falls into.
pub fn period_start(time: u64) -> (start: u64)
    ensures
        start == start_of(time as int),
        start <= time,
{
    time / PERIOD_SECONDS * PERIOD_SECONDS
}

/// How many seconds of a period are left at a time.
pub fn seconds_left(period: u64, now: u64) -> (left: u64)
    requires
        period + PERIOD_SECONDS <= u64::MAX,
    ensures
        left == left_of(period as int, now as int),
{
    let end: u64 = period + PERIOD_SECONDS;
    if end > now {
        end - now
    } else {
        0
    }
}

/// A time lies in its period: not before the start, and before the start of the next one.
pub proof fn time_is_in_its_period(time: int)
    ensures
        start_of(time) % PERIOD_SECONDS as int == 0,
        start_of(time) <= time < start_of(time) + PERIOD_SECONDS,
        start_of(start_of(time)) == start_of(time),
        start_of(time + PERIOD_SECONDS) == start_of(time) + PERIOD_SECONDS,
{
}

/// In the period that a time falls into, between one second and the whole period is left, and what
/// is left is the time until the next one starts.
pub proof fn some_of_the_period_is_left(time: int)
    ensures
        1 <= left_of(start_of(time), time) <= PERIOD_SECONDS,
        start_of(time + left_of(start_of(time), time)) == start_of(time) + PERIOD_SECONDS,
{
}

/// Until a period ends, the time and what is left make its end, and from its end on nothing is left.
pub proof fn time_and_rest_make_the_end(period: int, now: int)
    ensures
        now < period + 900 ==> now + left_of(period, now) == period + 900,
        now >= period + 900 ==> left_of(period, now) == 0,
{
}

/// Two times are in the same period exactly where no start of a period, a multiple of 900 seconds,
/// lies after the one and not after the other.
pub proof fn periods_part_at_their_starts(earlier: int, later: int)
    requires
        0 <= earlier <= later,
    ensures
        start_of(earlier) == start_of(later) <==> !(exists|k: int|
            earlier < #[trigger] (k * 900) && k * 900 <= later),
{
    let n = later / 900;
    assert(start_of(later) == n * 900);
    if start_of(earlier) != start_of(later) {
        assert(earlier < n * 900 && n * 900 <= later);
    } else {
        assert forall|k: int| !(earlier < #[trigger] (k * 900) && k * 900 <= later) by {
            let m = earlier / 900;
            assert(m == n);
            assert(m * 900 <= earlier < m * 900 + 900);
        }
    }
}

} // verus!
