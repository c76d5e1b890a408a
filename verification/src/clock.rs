//! Points in time, as seconds and nanoseconds since the Unix epoch (UTC).

use vstd::prelude::*;

verus! {

/// An instant: `secs` seconds and `nanos` nanoseconds after the Unix epoch.
#[derive(Clone, Copy, Debug, PartialEq, Eq)]
pub struct Timestamp {
    pub secs: i64,
    pub nanos: u32,
}

/// The instant in nanoseconds since the epoch.
pub open spec fn total_nanos(t: Timestamp) -> int {
    t.secs * 1_000_000_000 + t.nanos
}

/// The whole seconds from `start` to `stop`: the exact difference in
/// nanoseconds divided by 10^9, truncated toward zero (negative when `stop`
/// comes first). This is what subtracting two `chrono` instants and taking
/// `num_seconds` of the difference gives.
pub open spec fn elapsed_whole_seconds(start: Timestamp, stop: Timestamp) -> int {
    let d = total_nanos(stop) - total_nanos(start);
    if d >= 0 {
        d / 1_000_000_000
    } else {
        -((-d) / 1_000_000_000)
    }
}

/// A later stop never gives fewer elapsed whole seconds.
pub proof fn lemma_elapsed_monotone(start: Timestamp, stop1: Timestamp, stop2: Timestamp)
    requires
        total_nanos(stop1) <= total_nanos(stop2),
    ensures
        elapsed_whole_seconds(start, stop1) <= elapsed_whole_seconds(start, stop2),
{
    let d1 = total_nanos(stop1) - total_nanos(start);
    let d2 = total_nanos(stop2) - total_nanos(start);
    if d1 >= 0 {
        vstd::arithmetic::div_mod::lemma_div_is_ordered(d1, d2, 1_000_000_000);
    } else if d2 < 0 {
        vstd::arithmetic::div_mod::lemma_div_is_ordered(-d2, -d1, 1_000_000_000);
    } else {
        vstd::arithmetic::div_mod::lemma_div_pos_is_pos(d2, 1_000_000_000);
        vstd::arithmetic::div_mod::lemma_div_pos_is_pos(-d1, 1_000_000_000);
    }
}

/// The whole seconds from `start` to `stop`, truncated toward zero.
pub fn whole_seconds_between(start: Timestamp, stop: Timestamp) -> (secs: i128)
    ensures
        secs == elapsed_whole_seconds(start, stop),
{
    let a: i128 = stop.secs as i128 * 1_000_000_000i128 + stop.nanos as i128;
    let b: i128 = start.secs as i128 * 1_000_000_000i128 + start.nanos as i128;
    let d: i128 = a - b;
    if d >= 0 {
        let q: u128 = (d as u128) / 1_000_000_000u128;
        q as i128
    } else {
        let q: u128 = ((0 - d) as u128) / 1_000_000_000u128;
        0 - (q as i128)
    }
}

} // verus!
