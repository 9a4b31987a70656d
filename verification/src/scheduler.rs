//! Connection-window aware transfer planning.

use vstd::prelude::*;

verus! {

/// The usable contact window, in seconds: 8 for a peer not seen for over a day, otherwise
/// the average encounter duration kept between 5 and 120.
pub fn estimated_window_secs(avg_duration: u64, last_seen_age: u64) -> (w: u64)
    ensures
        w == (if last_seen_age > 86_400 {
            8
        } else if avg_duration < 5 {
            5
        } else if avg_duration > 120 {
            120
        } else {
            avg_duration
        }),
{
    if last_seen_age > 86_400 {
        return 8;
    }
    if avg_duration < 5 {
        5
    } else if avg_duration > 120 {
        120
    } else {
        avg_duration
    }
}

/// Whether `remaining_bytes` fit in a window at a rate: never with no window or no rate,
/// otherwise when they are at most window times rate (saturating).
pub fn can_finish(remaining_bytes: u64, window_secs: u64, bytes_per_sec: u64) -> (b: bool)
    ensures
        b == (window_secs != 0 && bytes_per_sec != 0 && remaining_bytes as int <= (if window_secs
            * bytes_per_sec > u64::MAX {
            u64::MAX as int
        } else {
            window_secs * bytes_per_sec
        })),
{
    if window_secs == 0 || bytes_per_sec == 0 {
        return false;
    }
    match window_secs.checked_mul(bytes_per_sec) {
        Some(cap) => remaining_bytes <= cap,
        None => true,
    }
}

} // verus!
