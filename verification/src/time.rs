//! Posting times as non-leap seconds since the Unix epoch, and their
//! `YYYY/MM/DD HH:MM` rendering in UTC.

use vstd::prelude::*;

verus! {

/// The highest timestamp the library supports: 9999-12-31 23:59:59 UTC.
pub const TS_MAX: i64 = 253402300799;

/// The `YYYY/MM/DD HH:MM` rendering, in UTC, of a timestamp. The
/// civil-calendar arithmetic behind it is chrono's; the result is a
/// function of the timestamp alone.
pub uninterp spec fn ymd_hm(ts: i64) -> Seq<char>;

/// Relies on chrono's `DateTime::<Utc>::from_timestamp`, which returns
/// `Some` for every timestamp in the supported range, and on chrono's
/// `format` with `%Y/%m/%d %H:%M`, whose output is a function of the
/// timestamp alone.
#[verifier::external_body]
pub fn format_ymd_hm(ts: i64) -> (r: String)
    requires
        0 <= ts <= TS_MAX,
    ensures
        r@ == ymd_hm(ts),
{
    let dt = chrono::DateTime::<chrono::Utc>::from_timestamp(ts, 0).unwrap();
    dt.format("%Y/%m/%d %H:%M").to_string()
}

/// Relies on chrono's `Utc::now`: the current time as non-leap seconds
/// since the Unix epoch. Nothing is promised of a clock reading. On
/// this chrono version `Utc::now` itself aborts when the host clock
/// reads before the epoch, so the lower clamp below is never taken;
/// it stays because the contract here does not rely on that.
#[verifier::external_body]
fn now_timestamp() -> i64 {
    chrono::Utc::now().timestamp()
}

/// The current time, clamped into the supported timestamp range.
pub fn current_timestamp() -> (r: i64)
    ensures
        0 <= r <= TS_MAX,
{
    let t = now_timestamp();
    if t < 0 {
        0
    } else if t > TS_MAX {
        TS_MAX
    } else {
        t
    }
}

} // verus!
