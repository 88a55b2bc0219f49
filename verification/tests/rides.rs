use sitwego_api::rides::{next_stop_order, stop_rows, StopRow};

#[test]
fn stops_are_numbered_in_order() {
    let rows = stop_rows(vec!["loc-a".to_string(), "loc-b".to_string()]);
    assert_eq!(
        rows,
        vec![
            StopRow { stop_order: 0, location_id: "loc-a".to_string() },
            StopRow { stop_order: 1, location_id: "loc-b".to_string() },
        ]
    );
    assert!(stop_rows(vec![]).is_empty());
}

#[test]
fn adding_a_stop_respects_the_cap() {
    assert_eq!(next_stop_order(0, 2), Ok(0));
    assert_eq!(next_stop_order(1, 2), Ok(1));
    assert_eq!(
        next_stop_order(2, 2),
        Err("at most 2 intermediate stop(s) supported, ride already has 2".to_string())
    );
    assert_eq!(
        next_stop_order(5, 0),
        Err("at most 0 intermediate stop(s) supported, ride already has 5".to_string())
    );
}

use sitwego_api::rides::{cancel_takes_effect, RideRequestStatus};

#[test]
fn only_open_requests_can_be_canceled() {
    assert!(cancel_takes_effect(Some(RideRequestStatus::New)));
    assert!(cancel_takes_effect(Some(RideRequestStatus::Inprogress)));
    assert!(!cancel_takes_effect(Some(RideRequestStatus::Canceled)));
    assert!(!cancel_takes_effect(Some(RideRequestStatus::Completed)));
    assert!(!cancel_takes_effect(None));
}
