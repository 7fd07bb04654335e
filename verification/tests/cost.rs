use radium_cli::cost::{report_date_range, report_range_from, ReportDateError};

#[test]
fn report_bounds_read_as_utc_instants() {
    assert_eq!(
        report_date_range(Some("2024-01-01T00:00:00Z"), Some("2024-01-31T23:59:59.5+02:00")),
        Ok((Some((1704067200, 0)), Some((1706738399, 500_000_000))))
    );
    assert_eq!(report_date_range(None, None), Ok((None, None)));
    assert_eq!(
        report_date_range(None, Some("1970-01-01T00:00:01Z")),
        Ok((None, Some((1, 0))))
    );
}

#[test]
fn report_bounds_that_do_not_read() {
    assert_eq!(report_date_range(Some("yesterday"), Some("also bad")), Err(ReportDateError::Start));
    assert_eq!(
        report_date_range(Some("2024-01-01T00:00:00Z"), Some("soon")),
        Err(ReportDateError::End)
    );
    // A plain date has no time zone, which `parse_from_str` needs.
    assert_eq!(report_date_range(Some("2024-01-01"), None), Err(ReportDateError::Start));
    assert_eq!(ReportDateError::Start.message(), "Failed to parse start date");
    assert_eq!(ReportDateError::End.message(), "Failed to parse end date");
}

#[test]
fn report_range_from_read_bounds() {
    assert_eq!(report_range_from(Some(None), Some(None)), Err(ReportDateError::Start));
    assert_eq!(report_range_from(None, Some(None)), Err(ReportDateError::End));
    assert_eq!(report_range_from(Some(Some((5, 1))), None), Ok((Some((5, 1)), None)));
}
