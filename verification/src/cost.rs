//! The date bounds of `rad cost report`: the `--start` and `--end` texts read
//! as instants.
use vstd::prelude::*;

verus! {

/// The instant a report bound names, as chrono reads it: first as an
/// RFC 3339 date and time, then with the format `%Y-%m-%d`, in UTC, as
/// (seconds since 1970-01-01, nanoseconds within the second); `None` when
/// neither reading succeeds.
pub uninterp spec fn report_instant(s: Seq<char>) -> Option<(i64, u32)>;

/// Reads a report bound.
///
/// Calls `chrono::DateTime::parse_from_rfc3339`, then, when that fails,
/// `chrono::DateTime::parse_from_str` with `%Y-%m-%d`, converts the result to
/// UTC and takes its `timestamp` and `timestamp_subsec_nanos`. Trusted: the
/// result is the named reading (`report_instant`). chrono documents that
/// `parse_from_str` needs a time zone in the text, which `%Y-%m-%d` never
/// reads, so the second reading does not succeed; the contract leaves that
/// to the name.
#[verifier::external_body]
fn parse_report_instant(s: &str) -> (r: Option<(i64, u32)>)
    ensures
        r == report_instant(s@),
{
    let dt = chrono::DateTime::parse_from_rfc3339(s)
        .or_else(|_| chrono::DateTime::parse_from_str(s, "%Y-%m-%d"))
        .ok()?
        .with_timezone(&chrono::Utc);
    Some((dt.timestamp(), dt.timestamp_subsec_nanos()))
}

/// Which bound of a cost report could not be read.
#[derive(Debug, Clone, Copy, PartialEq, Eq)]
pub enum ReportDateError {
    /// The `--start` text.
    Start,
    /// The `--end` text.
    End,
}

impl ReportDateError {
    /// The message shown for the refusal.
    pub fn message(&self) -> (r: String)
        ensures
            r@ == match self {
                ReportDateError::Start => "Failed to parse start date"@,
                ReportDateError::End => "Failed to parse end date"@,
            },
    {
        match self {
            ReportDateError::Start => String::from_str("Failed to parse start date"),
            ReportDateError::End => String::from_str("Failed to parse end date"),
        }
    }
}

/// Whether a bound was given and could not be read: `read` is `None` when
/// no bound was given, and otherwise what reading it gave.
pub open spec fn bound_failed(read: Option<Option<(i64, u32)>>) -> bool {
    read matches Some(r) && r is None
}

/// The instant of a bound that was read, if one was given.
pub open spec fn bound_value(read: Option<Option<(i64, u32)>>) -> Option<(i64, u32)> {
    match read {
        Some(r) => r,
        None => None,
    }
}

/// The date range of a cost report from what reading its bounds gave (for
/// each, `None` when not given): the start is checked first, then the end;
/// each bound given must have been read.
pub fn report_range_from(
    start: Option<Option<(i64, u32)>>,
    end: Option<Option<(i64, u32)>>,
) -> (r: Result<(Option<(i64, u32)>, Option<(i64, u32)>), ReportDateError>)
    ensures
        bound_failed(start) ==> r == Err::<(Option<(i64, u32)>, Option<(i64, u32)>), ReportDateError>(
            ReportDateError::Start,
        ),
        !bound_failed(start) && bound_failed(end) ==> r == Err::<
            (Option<(i64, u32)>, Option<(i64, u32)>),
            ReportDateError,
        >(ReportDateError::End),
        !bound_failed(start) && !bound_failed(end) ==> r == Ok::<
            (Option<(i64, u32)>, Option<(i64, u32)>),
            ReportDateError,
        >((bound_value(start), bound_value(end))),
{
    let s = match start {
        Some(None) => {
            return Err(ReportDateError::Start);
        },
        Some(Some(t)) => Some(t),
        None => None,
    };
    let e = match end {
        Some(None) => {
            return Err(ReportDateError::End);
        },
        Some(Some(t)) => Some(t),
        None => None,
    };
    Ok((s, e))
}

/// What reading an optional bound gives: `None` when it is not given.
pub open spec fn read_bound(text: Option<&str>) -> Option<Option<(i64, u32)>> {
    match text {
        Some(s) => Some(report_instant(s@)),
        None => None,
    }
}

/// The date range of `rad cost report` from its `--start` and `--end`
/// texts: each given text is read as an instant (see `report_instant`);
/// the start is read first, and a text that does not read is refused.
pub fn report_date_range(start: Option<&str>, end: Option<&str>) -> (r: Result<
    (Option<(i64, u32)>, Option<(i64, u32)>),
    ReportDateError,
>)
    ensures
        bound_failed(read_bound(start)) ==> r == Err::<
            (Option<(i64, u32)>, Option<(i64, u32)>),
            ReportDateError,
        >(ReportDateError::Start),
        !bound_failed(read_bound(start)) && bound_failed(read_bound(end)) ==> r == Err::<
            (Option<(i64, u32)>, Option<(i64, u32)>),
            ReportDateError,
        >(ReportDateError::End),
        !bound_failed(read_bound(start)) && !bound_failed(read_bound(end)) ==> r == Ok::<
            (Option<(i64, u32)>, Option<(i64, u32)>),
            ReportDateError,
        >((bound_value(read_bound(start)), bound_value(read_bound(end)))),
{
    let s = match start {
        Some(t) => Some(parse_report_instant(t)),
        None => None,
    };
    if let Some(None) = s {
        return Err(ReportDateError::Start);
    }
    let e = match end {
        Some(t) => Some(parse_report_instant(t)),
        None => None,
    };
    report_range_from(s, e)
}

} // verus!
