use vstd::prelude::*;

verus! {

/// Relies on time::get_time: the current wall-clock time as seconds and
/// nanoseconds since 1970-01-01T00:00:00Z. The crate builds its result with
/// Timespec::new, which asserts that the nanosecond part lies in
/// [0, 1_000_000_000); nothing more is promised — the wall clock can jump
/// either way between calls.
#[verifier::external_body]
fn now_sec_nsec() -> (r: (i64, i32))
    ensures
        0 <= r.1 < 1_000_000_000,
{
    let t = time::get_time();
    (t.sec, t.nsec)
}

/// The current wall-clock time in whole milliseconds since the epoch,
/// saturated to the 64-bit range.
///
/// Successive values need not increase: the scheduler states what holds of
/// its answer for every value the clock can hand back.
pub fn now_millis() -> (r: i64) {
    let (sec, nsec) = now_sec_nsec();
    let wide: i128 = (sec as i128) * 1000 + ((nsec / 1_000_000) as i128);
    if wide > i64::MAX as i128 {
        i64::MAX
    } else if wide < i64::MIN as i128 {
        i64::MIN
    } else {
        wide as i64
    }
}

} // verus!
