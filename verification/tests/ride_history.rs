use sitwego_api::ride_history::{group_by_month, month_name, RideRow, RideStart};

/// Days from 1970-01-01 to the given civil date.
fn days_from_civil(y: i64, m: i64, d: i64) -> i64 {
    let y = if m <= 2 { y - 1 } else { y };
    let era = if y >= 0 { y } else { y - 399 } / 400;
    let yoe = y - era * 400;
    let mp = (m + 9) % 12;
    let doy = (153 * mp + 2) / 5 + d - 1;
    let doe = yoe * 365 + yoe / 4 - yoe / 100 + doy;
    era * 146097 + doe - 719468
}

fn utc_dt(year: i32, month: u32, day: u32, hour: u32, min: u32) -> RideStart {
    let days = days_from_civil(year as i64, month as i64, day as i64);
    let unix_ms = ((days * 24 + hour as i64) * 60 + min as i64) * 60_000;
    RideStart { year, month, unix_ms }
}

/// An amount in cents.
fn d(cents: i64) -> i64 {
    cents
}

fn row(ride_id: &str, status: &str, amount: Option<i64>, started_at: RideStart, destination: &str) -> RideRow {
    RideRow {
        ride_id: ride_id.to_string(),
        driver_id: "driver-1".to_string(),
        status: status.to_string(),
        amount,
        started_at,
        destination_name: destination.to_string(),
        has_rated_driver: false,
    }
}

#[test]
fn empty_input_returns_empty_groups() {
    assert!(group_by_month(vec![]).is_empty());
}

#[test]
fn all_cancelled_month_has_no_total() {
    let rows = vec![
        row("r1", "Canceled", None, utc_dt(2026, 1, 27, 10, 46), "Kew Palace"),
        row("r2", "Canceled", None, utc_dt(2026, 1, 27, 10, 37), "Kew Palace"),
    ];

    let groups = group_by_month(rows);
    assert_eq!(groups.len(), 1);
    assert_eq!(groups[0].label, "January 2026");
    assert_eq!(groups[0].total_spent, None);
    assert_eq!(groups[0].rides.len(), 2);
}

#[test]
fn completed_rides_are_summed_in_total() {
    let rows = vec![
        row("r1", "Completed", Some(d(1250)), utc_dt(2025, 11, 18, 9, 58), "Rainham Station"),
        row("r2", "Completed", Some(d(700)), utc_dt(2025, 11, 10, 14, 0), "Victoria"),
        row("r3", "Canceled", None, utc_dt(2025, 11, 5, 8, 0), "Heathrow"),
    ];

    let groups = group_by_month(rows);
    assert_eq!(groups.len(), 1);
    assert_eq!(groups[0].total_spent, Some(1950));
}

#[test]
fn cancelled_fare_excluded_from_total() {
    let rows = vec![
        row("r1", "Completed", Some(d(1000)), utc_dt(2025, 10, 5, 9, 0), "A"),
        row("r2", "Canceled", Some(d(500)), utc_dt(2025, 10, 3, 9, 0), "B"),
    ];

    let groups = group_by_month(rows);
    assert_eq!(groups[0].total_spent, Some(1000));
}

#[test]
fn multiple_months_sorted_newest_first() {
    let rows = vec![
        row("r1", "Canceled", None, utc_dt(2026, 1, 27, 10, 0), "Dest A"),
        row("r2", "Completed", Some(d(0)), utc_dt(2025, 11, 18, 9, 58), "Rainham Station"),
        row("r3", "Canceled", None, utc_dt(2025, 10, 24, 9, 24), "TW9 3AG"),
    ];

    let groups = group_by_month(rows);

    assert_eq!(groups.len(), 3);
    assert_eq!(groups[0].label, "January 2026");
    assert_eq!(groups[1].label, "November 2025");
    assert_eq!(groups[2].label, "October 2025");

    assert_eq!(groups[0].total_spent, None);
    assert_eq!(groups[1].total_spent, Some(0));
    assert_eq!(groups[2].total_spent, None);
}

#[test]
fn rides_within_month_preserve_desc_order() {
    let rows = vec![
        row("r1", "Canceled", None, utc_dt(2026, 1, 27, 10, 46), "A"),
        row("r2", "Canceled", None, utc_dt(2026, 1, 27, 10, 37), "B"),
        row("r3", "Canceled", None, utc_dt(2026, 1, 27, 9, 5), "C"),
    ];

    let groups = group_by_month(rows);
    let ids: Vec<&str> = groups[0].rides.iter().map(|r| r.ride_id.as_str()).collect();
    assert_eq!(ids, ["r1", "r2", "r3"]);
}

#[test]
fn destination_name_is_passed_through() {
    let rows = vec![row("r1", "Canceled", None, utc_dt(2025, 10, 1, 8, 0), "TW9 3AG")];

    let groups = group_by_month(rows);
    assert_eq!(groups[0].rides[0].destination_name, "TW9 3AG");
}

#[test]
fn completed_status_matches_in_any_case() {
    let rows = vec![
        row("r1", "COMPLETED", Some(300), utc_dt(2024, 2, 29, 12, 0), "A"),
        row("r2", "completed", Some(200), utc_dt(2024, 2, 1, 12, 0), "B"),
        row("r3", "Completed", None, utc_dt(2024, 2, 1, 11, 0), "C"),
    ];
    let groups = group_by_month(rows);
    assert_eq!(groups.len(), 1);
    assert_eq!(groups[0].label, "February 2024");
    assert_eq!(groups[0].total_spent, Some(500));
}

#[test]
fn months_of_different_years_interleaved_are_regrouped() {
    let rows = vec![
        row("a", "Canceled", None, utc_dt(2024, 3, 1, 0, 0), "A"),
        row("b", "Completed", Some(100), utc_dt(2025, 3, 1, 0, 0), "B"),
        row("c", "Completed", Some(50), utc_dt(2024, 3, 2, 0, 0), "C"),
        row("d", "Canceled", None, utc_dt(2024, 12, 2, 0, 0), "D"),
    ];
    let groups = group_by_month(rows);
    let labels: Vec<&str> = groups.iter().map(|g| g.label.as_str()).collect();
    assert_eq!(labels, ["March 2025", "December 2024", "March 2024"]);
    let ids: Vec<&str> = groups[2].rides.iter().map(|r| r.ride_id.as_str()).collect();
    assert_eq!(ids, ["a", "c"]);
    assert_eq!(groups[2].total_spent, Some(50));
    assert_eq!(groups[1].total_spent, None);
}

#[test]
fn month_names() {
    assert_eq!(month_name(1), "January");
    assert_eq!(month_name(6), "June");
    assert_eq!(month_name(12), "December");
    assert_eq!(month_name(0), "Unknown");
    assert_eq!(month_name(13), "Unknown");
}
