use sitwego_api::ratings::rider_rating_value;
use sitwego_api::ratings::{star_counts, StarCountRow};

fn row(rating_value: i32, cnt: i64) -> StarCountRow {
    StarCountRow { rating_value, cnt }
}

#[test]
fn counts_per_star_and_total() {
    let s = star_counts(&[row(5, 10), row(4, 3), row(1, 2)]);
    assert_eq!(s.counts, vec![2, 0, 0, 3, 10]);
    assert_eq!(s.total_reviews, 15);
}

#[test]
fn out_of_range_values_count_only_in_the_total() {
    let s = star_counts(&[row(0, 4), row(6, 1), row(3, 2)]);
    assert_eq!(s.counts, vec![0, 0, 2, 0, 0]);
    assert_eq!(s.total_reviews, 7);
}

#[test]
fn a_later_row_for_the_same_star_wins() {
    let s = star_counts(&[row(2, 4), row(2, 9)]);
    assert_eq!(s.counts, vec![0, 9, 0, 0, 0]);
    assert_eq!(s.total_reviews, 13);
}

#[test]
fn no_ratings() {
    let s = star_counts(&[]);
    assert_eq!(s.counts, vec![0, 0, 0, 0, 0]);
    assert_eq!(s.total_reviews, 0);
}

use sitwego_api::ratings::is_valid_rating;

#[test]
fn a_rating_counts_from_five_ratings() {
    assert!(!is_valid_rating(4));
    assert!(is_valid_rating(5));
    assert!(is_valid_rating(120));
}

#[test]
fn a_riders_rating_value_is_the_rounded_average() {
    assert_eq!(rider_rating_value(Some(4), Some(5), None), 5);
    assert_eq!(rider_rating_value(Some(1), Some(2), Some(2)), 2);
    assert_eq!(rider_rating_value(Some(1), Some(1), Some(2)), 1);
    assert_eq!(rider_rating_value(None, Some(3), None), 3);
    assert_eq!(rider_rating_value(None, None, None), 0);
    assert_eq!(rider_rating_value(Some(-1), Some(-2), None), -2);
    assert_eq!(rider_rating_value(Some(i32::MAX), Some(i32::MAX), Some(i32::MAX)), i32::MAX);
    assert_eq!(rider_rating_value(Some(i32::MIN), Some(i32::MIN), None), i32::MIN);
}
