//! The date range of `rad agents analytics`: which agents' usage falls
//! within `--from` and `--to`.
use vstd::prelude::*;

verus! {

/// The day a `YYYY-MM-DD` date names, counted from 1970-01-01, as
/// `chrono::NaiveDate::parse_from_str` with the format `%Y-%m-%d` reads it;
/// `None` when it does not read a date.
pub uninterp spec fn date_day(date: Seq<char>) -> Option<int>;

/// The Unix timestamp of `date` at `hour:min:sec` UTC.
///
/// Calls `chrono::NaiveDate::parse_from_str` with `%Y-%m-%d`, then
/// `and_hms_opt`, `and_utc` and `timestamp`. Trusted: the result is `None`
/// exactly when the date does not parse, and otherwise the day's number
/// times 86400 plus the seconds since midnight, as chrono's `timestamp`
/// computes it. Which texts parse, and to which day, is left to chrono
/// (named `date_day`).
#[verifier::external_body]
fn date_timestamp(date: &str, hour: u32, min: u32, sec: u32) -> (r: Option<i64>)
    requires
        hour < 24,
        min < 60,
        sec < 60,
    ensures
        match date_day(date@) {
            Some(day) => r matches Some(t) && t == day * 86400 + hour * 3600 + min * 60 + sec,
            None => r is None,
        },
{
    chrono::NaiveDate::parse_from_str(date, "%Y-%m-%d").ok().map(
        |d| d.and_hms_opt(hour, min, sec).unwrap().and_utc().timestamp(),
    )
}

/// The first second of a day, and its last.
pub open spec fn day_bounds(day: Option<int>, last_second: bool) -> Option<int> {
    match day {
        Some(d) => Some(d * 86400 + if last_second {
            86399int
        } else {
            0int
        }),
        None => None,
    }
}

/// A timestamp as an integer.
pub open spec fn widened(t: Option<i64>) -> Option<int> {
    match t {
        Some(v) => Some(v as int),
        None => None,
    }
}

/// The timestamps the `--from` and `--to` dates bound: the first second of
/// the `from` day and the last second of the `to` day; a date that does not
/// parse bounds nothing.
pub fn date_range(from: Option<&str>, to: Option<&str>) -> (r: (Option<i64>, Option<i64>))
    ensures
        widened(r.0) == match from {
            Some(d) => day_bounds(date_day(d@), false),
            None => None,
        },
        widened(r.1) == match to {
            Some(d) => day_bounds(date_day(d@), true),
            None => None,
        },
{
    let lo = match from {
        Some(d) => date_timestamp(d, 0, 0, 0),
        None => None,
    };
    let hi = match to {
        Some(d) => date_timestamp(d, 23, 59, 59),
        None => None,
    };
    (lo, hi)
}

/// Whether an agent last used at `last_used` is kept by the bounds: all
/// are kept without bounds; with any, only those used within them.
pub open spec fn kept_by_dates(last_used: Option<i64>, from: Option<i64>, to: Option<i64>) -> bool {
    if from is None && to is None {
        true
    } else {
        match last_used {
            Some(t) => (from matches Some(f) ==> t >= f) && (to matches Some(u) ==> t <= u),
            None => false,
        }
    }
}

/// Whether an agent's analytics are shown for the date bounds.
pub fn keep_for_dates(last_used: Option<i64>, from: Option<i64>, to: Option<i64>) -> (r: bool)
    ensures
        r == kept_by_dates(last_used, from, to),
{
    if from.is_none() && to.is_none() {
        return true;
    }
    match last_used {
        Some(t) => {
            let from_ok = match from {
                Some(f) => t >= f,
                None => true,
            };
            let to_ok = match to {
                Some(u) => t <= u,
                None => true,
            };
            from_ok && to_ok
        },
        None => false,
    }
}


/// An agent last used at `t` is kept exactly when `--from` (`f`), if given,
/// is no later than `t` and `--to` (`u`), if given, no earlier: the two
/// bounds filter independently, an agent never used is dropped once a bound
/// is given, and with no bound every agent is kept.
pub proof fn lemma_date_filter(t: i64, f: i64, u: i64, last_used: Option<i64>)
    ensures
        kept_by_dates(last_used, None, None),
        !kept_by_dates(None, Some(f), None),
        !kept_by_dates(None, None, Some(u)),
        !kept_by_dates(None, Some(f), Some(u)),
        kept_by_dates(Some(t), Some(f), None) <==> f <= t,
        kept_by_dates(Some(t), None, Some(u)) <==> t <= u,
        kept_by_dates(Some(t), Some(f), Some(u)) <==> (f <= t && t <= u),
        kept_by_dates(Some(t), Some(f), Some(u)) == (kept_by_dates(Some(t), Some(f), None)
            && kept_by_dates(Some(t), None, Some(u))),
{
}

} // verus!
