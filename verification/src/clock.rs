//! The clock, and the numbers drawn from it.

use std::time::Duration;
use std::time::SystemTime;
use std::time::SystemTimeError;
use vstd::prelude::*;

verus! {

/// `std::time::SystemTime`, a reading of the wall clock.
#[verifier::external_type_specification]
#[verifier::external_body]
pub struct ExSystemTime(std::time::SystemTime);

/// `std::time::SystemTimeError`, the error of a reading that lies before the
/// moment it is compared with.
#[verifier::external_type_specification]
#[verifier::external_body]
pub struct ExSystemTimeError(std::time::SystemTimeError);

/// `SystemTime::now` reads the wall clock. Nothing is claimed of the reading.
pub assume_specification[ std::time::SystemTime::now ]() -> std::time::SystemTime
;

/// The time that has passed from the Unix epoch to a reading of the clock, where
/// the reading does not lie before it.
pub uninterp spec fn time_since_epoch(reading: SystemTime) -> Option<Duration>;

/// The fractional part of a duration, in nanoseconds.
pub uninterp spec fn fraction_of_second(elapsed: Duration) -> u32;

/// `SystemTime::duration_since`, taken from the Unix epoch, is the time that
/// has passed since then, or an error where the reading lies before it. Which
/// of the two comes back, and how much time it is, depends on the reading alone.
#[verifier::external_body]
fn since_unix_epoch(reading: SystemTime) -> (elapsed: Result<Duration, SystemTimeError>)
    ensures
        time_since_epoch(reading) == (match elapsed {
            Ok(time) => Some(time),
            Err(_) => None,
        }),
{
    reading.duration_since(std::time::UNIX_EPOCH)
}

/// `Duration::subsec_nanos` is the fractional part of a duration, in
/// nanoseconds. It is documented to be less than one billion.
pub assume_specification[ std::time::Duration::subsec_nanos ](
    elapsed: &std::time::Duration,
) -> (nanos: u32)
    ensures
        nanos == fraction_of_second(*elapsed),
        nanos < 1_000_000_000,
;

/// The number of nanoseconds in a second.
pub const NANOS_PER_SECOND: u32 = 1_000_000_000;

/// The wall clock stands before the Unix epoch.
#[derive(Clone, Copy, Debug, PartialEq, Eq, Structural)]
pub struct ClockBeforeEpoch;

/// The ranges that a number can be drawn from: not empty, and not all of `u64`.
pub open spec fn is_range(min: u64, max: u64) -> bool {
    min <= max && max - min < u64::MAX
}

/// The number of `[min, max]` that stands for the given nanoseconds: they are
/// counted off from `min`, starting over after `max`.
pub open spec fn number_in_range(nanos: u32, min: u64, max: u64) -> int {
    min + nanos as int % (max - min + 1)
}

/// The number of `[min, max]` that the given nanoseconds stand for.
pub fn range_value(nanos: u32, min: u64, max: u64) -> (value: u64)
    requires
        is_range(min, max),
    ensures
        value == number_in_range(nanos, min, max),
        min <= value <= max,
        (nanos - (value - min)) % (max - min + 1) == 0,
{
    let width: u64 = max - min + 1;
    let offset: u64 = nanos as u64 % width;
    proof {
        law_range_value_stays_in_range(nanos, min, max);
        law_numbers_are_counted_off_in_turn(nanos, min, max);
    }
    min + offset
}

/// The number of `[min, max]` that a reading of the clock stands for: that of its
/// nanoseconds, where it does not lie before the Unix epoch.
pub open spec fn drawn_at(reading: SystemTime, min: u64, max: u64) -> Result<
    u64,
    ClockBeforeEpoch,
> {
    match time_since_epoch(reading) {
        Some(elapsed) => Ok(number_in_range(fraction_of_second(elapsed), min, max) as u64),
        None => Err(ClockBeforeEpoch),
    }
}

/// The number of `[min, max]`, given what comparing a reading of the clock with
/// the Unix epoch came to.
pub fn number_after(elapsed: Result<Duration, SystemTimeError>, min: u64, max: u64) -> (drawn:
    Result<u64, ClockBeforeEpoch>)
    requires
        is_range(min, max),
    ensures
        match elapsed {
            Ok(time) => {
                &&& drawn matches Ok(value)
                &&& min <= value <= max
                &&& value == number_in_range(fraction_of_second(time), min, max)
                &&& (fraction_of_second(time) - (value - min)) % (max - min + 1) == 0
                &&& fraction_of_second(time) < NANOS_PER_SECOND
            },
            Err(_) => drawn == Err::<u64, ClockBeforeEpoch>(ClockBeforeEpoch),
        },
{
    match elapsed {
        Ok(time) => {
            let nanos: u32 = time.subsec_nanos();
            Ok(range_value(nanos, min, max))
        },
        Err(_) => Err(ClockBeforeEpoch),
    }
}

/// The number of `[min, max]` that a reading of the clock stands for. There is
/// none if, and only if, the reading lies before the Unix epoch.
pub fn number_at(reading: SystemTime, min: u64, max: u64) -> (drawn: Result<u64, ClockBeforeEpoch>)
    requires
        is_range(min, max),
    ensures
        drawn == drawn_at(reading, min, max),
        drawn is Err <==> time_since_epoch(reading) is None,
        time_since_epoch(reading) matches Some(elapsed) ==> drawn matches Ok(value) && (
        fraction_of_second(elapsed) - (value - min)) % (max - min + 1) == 0,
        drawn matches Ok(value) ==> {
            &&& min <= value <= max
            &&& exists|nanos: u32|
                nanos < NANOS_PER_SECOND && value == #[trigger] number_in_range(nanos, min, max)
        },
{
    number_after(since_unix_epoch(reading), min, max)
}

/// Tiny dependency-free "random" number in `[min, max]`, good enough for
/// varying simulated latency and results. Not for real use.
///
/// The number is that of the clock's nanoseconds, at some reading of the clock.
/// There is none where that reading lies before the Unix epoch, and only there.
pub fn pseudo_random_range(min: u64, max: u64) -> (drawn: Result<u64, ClockBeforeEpoch>)
    requires
        is_range(min, max),
    ensures
        exists|reading: SystemTime| drawn == #[trigger] drawn_at(reading, min, max),
        drawn matches Ok(value) ==> {
            &&& min <= value <= max
            &&& exists|nanos: u32|
                nanos < NANOS_PER_SECOND && value == #[trigger] number_in_range(nanos, min, max)
        },
{
    number_at(SystemTime::now(), min, max)
}

/// Whatever the clock shows, the number drawn lies in the range.
pub proof fn law_range_value_stays_in_range(nanos: u32, min: u64, max: u64)
    requires
        is_range(min, max),
    ensures
        min <= number_in_range(nanos, min, max) <= max,
{
    vstd::arithmetic::div_mod::lemma_mod_bound(nanos as int, max - min + 1);
}

/// Every number of a range that is no wider than a second has nanoseconds is
/// drawn at some reading of the clock.
pub proof fn law_every_number_can_be_drawn(value: u64, min: u64, max: u64)
    requires
        is_range(min, max),
        min <= value <= max,
        max - min < NANOS_PER_SECOND,
    ensures
        exists|nanos: u32|
            nanos < NANOS_PER_SECOND && value == #[trigger] number_in_range(nanos, min, max),
{
    let nanos = (value - min) as u32;
    vstd::arithmetic::div_mod::lemma_small_mod(nanos as nat, (max - min + 1) as nat);
    assert(value == number_in_range(nanos, min, max));
}

/// The numbers of a range are counted off in turn: the first nanoseconds stand for
/// the numbers from `min` up to `max`, and as many nanoseconds later it is the
/// same number again.
pub proof fn law_numbers_are_counted_off_in_turn(nanos: u32, min: u64, max: u64)
    requires
        is_range(min, max),
    ensures
        nanos <= max - min ==> number_in_range(nanos, min, max) == min + nanos,
        nanos + (max - min + 1) <= u32::MAX ==> number_in_range(
            (nanos + (max - min + 1)) as u32,
            min,
            max,
        ) == number_in_range(nanos, min, max),
        (nanos - (number_in_range(nanos, min, max) - min)) % (max - min + 1) == 0,
{
    let width = max - min + 1;
    if nanos <= max - min {
        vstd::arithmetic::div_mod::lemma_small_mod(nanos as nat, width as nat);
    }
    vstd::arithmetic::div_mod::lemma_mod_add_multiples_vanish(nanos as int, width);
    vstd::arithmetic::div_mod::lemma_fundamental_div_mod(nanos as int, width);
    vstd::arithmetic::div_mod::lemma_mod_multiples_basic(nanos as int / width, width);
    assert(width * (nanos as int / width) == (nanos as int / width) * width) by (nonlinear_arith);
}

/// A number can be drawn from every range but that of all numbers there are.
pub proof fn law_every_range_can_be_drawn_from(min: u64, max: u64)
    requires
        min <= max,
        min > 0 || max < u64::MAX,
    ensures
        is_range(min, max),
{
}

/// A reading of the clock fixes what is drawn. Before the Unix epoch it is
/// nothing. After it, it is a number of the range, as far from `min` as the
/// nanoseconds are, but for whole rounds through the range; so it is as far from
/// `min` as they are where there are no more of them than numbers.
pub proof fn law_reading_fixes_the_number(reading: SystemTime, min: u64, max: u64)
    requires
        is_range(min, max),
    ensures
        time_since_epoch(reading) is None ==> drawn_at(reading, min, max) is Err,
        time_since_epoch(reading) matches Some(elapsed) ==> {
            &&& drawn_at(reading, min, max) matches Ok(value)
            &&& min <= value <= max
            &&& (fraction_of_second(elapsed) - (value - min)) % (max - min + 1) == 0
            &&& fraction_of_second(elapsed) <= max - min ==> value - min == fraction_of_second(
                elapsed,
            )
        },
{
    if let Some(elapsed) = time_since_epoch(reading) {
        law_range_value_stays_in_range(fraction_of_second(elapsed), min, max);
        law_numbers_are_counted_off_in_turn(fraction_of_second(elapsed), min, max);
    }
}

} // verus!
