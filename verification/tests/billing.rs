use sitwego_api::billing::day_of_ride;
use sitwego_api::billing::{
    accrue_subscription, oldest_watermark, Accrual, BillingType, CompletedRide, PlanTerms,
    SubscriptionBilling,
};

const DAY_MS: i64 = 86_400_000;

fn ride(driver: &str, ended_at: i64) -> CompletedRide {
    CompletedRide { driver_id: driver.to_string(), ended_at }
}

fn sub(watermark: i64) -> SubscriptionBilling {
    SubscriptionBilling {
        plan_start: 0,
        is_on_free_trial: false,
        free_trial_end: None,
        watermark,
        amount_due: Some(1_000),
        last_charged_day: None,
        last_day_rides: 0,
    }
}

fn per_day(cost: i64) -> PlanTerms {
    PlanTerms { cost, billing_type: BillingType::PerDay, max_charge: None, max_rides: None }
}

fn per_ride(cost: i64, max_charge: Option<i64>, max_rides: Option<i32>) -> PlanTerms {
    PlanTerms { cost, billing_type: BillingType::PerRide, max_charge, max_rides }
}

fn rides() -> Vec<CompletedRide> {
    vec![
        // Day 10: three rides of d1, one of d2.
        ride("d1", 10 * DAY_MS + 1_000),
        ride("d1", 10 * DAY_MS + 2_000),
        ride("d2", 10 * DAY_MS + 2_500),
        ride("d1", 10 * DAY_MS + 3_000),
        // Day 11: one ride of d1.
        ride("d1", 11 * DAY_MS + 5),
        // Before the watermark used below.
        ride("d1", 9 * DAY_MS),
    ]
}

#[test]
fn no_plan_is_skipped() {
    let now = 12 * DAY_MS;
    assert_eq!(accrue_subscription(None, sub(10 * DAY_MS), "d1", &rides(), now), Accrual::NoPlan);
}

#[test]
fn plan_in_the_future_is_skipped() {
    let mut s = sub(10 * DAY_MS);
    s.plan_start = 13 * DAY_MS;
    assert_eq!(
        accrue_subscription(Some(per_day(500)), s, "d1", &rides(), 12 * DAY_MS),
        Accrual::NotStarted
    );
}

#[test]
fn active_free_trial_is_skipped_and_ended_trial_is_billed() {
    let now = 12 * DAY_MS;
    let mut s = sub(10 * DAY_MS);
    s.is_on_free_trial = true;
    s.free_trial_end = Some(now);
    assert_eq!(accrue_subscription(Some(per_day(500)), s, "d1", &rides(), now), Accrual::OnFreeTrial);
    s.free_trial_end = None;
    assert_eq!(accrue_subscription(Some(per_day(500)), s, "d1", &rides(), now), Accrual::OnFreeTrial);
    s.free_trial_end = Some(now - 1);
    assert_eq!(
        accrue_subscription(Some(per_day(500)), s, "d1", &rides(), now),
        Accrual::Charge { charge: 1_000, total_due: 2_000, through_day: 11, through_day_rides: 1 }
    );
}

#[test]
fn no_ride_no_charge() {
    let now = 12 * DAY_MS;
    assert_eq!(
        accrue_subscription(Some(per_day(500)), sub(11 * DAY_MS + 5), "d1", &rides(), now),
        Accrual::NoNewRides
    );
    assert_eq!(
        accrue_subscription(Some(per_day(500)), sub(0), "nobody", &rides(), now),
        Accrual::NoNewRides
    );
}

#[test]
fn per_day_plan_charges_each_distinct_day_once() {
    let now = 12 * DAY_MS;
    // Rides after the watermark fall on days 10 and 11.
    assert_eq!(
        accrue_subscription(Some(per_day(500)), sub(10 * DAY_MS), "d1", &rides(), now),
        Accrual::Charge { charge: 1_000, total_due: 2_000, through_day: 11, through_day_rides: 1 }
    );
    // With an earlier watermark day 9 counts too.
    assert_eq!(
        accrue_subscription(Some(per_day(500)), sub(0), "d1", &rides(), now),
        Accrual::Charge { charge: 1_500, total_due: 2_500, through_day: 11, through_day_rides: 1 }
    );
}

#[test]
fn per_ride_plan_caps_rides_and_amount_per_day() {
    let now = 12 * DAY_MS;
    // Uncapped: 4 rides * 100.
    assert_eq!(
        accrue_subscription(Some(per_ride(100, None, None)), sub(10 * DAY_MS), "d1", &rides(), now),
        Accrual::Charge { charge: 400, total_due: 1_400, through_day: 11, through_day_rides: 1 }
    );
    // At most 2 rides a day: 2 * 100 + 1 * 100.
    assert_eq!(
        accrue_subscription(Some(per_ride(100, None, Some(2))), sub(10 * DAY_MS), "d1", &rides(), now),
        Accrual::Charge { charge: 300, total_due: 1_300, through_day: 11, through_day_rides: 1 }
    );
    // At most 250 a day: min(300, 250) + min(100, 250).
    assert_eq!(
        accrue_subscription(Some(per_ride(100, Some(250), None)), sub(10 * DAY_MS), "d1", &rides(), now),
        Accrual::Charge { charge: 350, total_due: 1_350, through_day: 11, through_day_rides: 1 }
    );
}

#[test]
fn missing_amount_due_counts_as_zero() {
    let now = 12 * DAY_MS;
    let mut s = sub(10 * DAY_MS);
    s.amount_due = None;
    assert_eq!(
        accrue_subscription(Some(per_day(500)), s, "d1", &rides(), now),
        Accrual::Charge { charge: 1_000, total_due: 1_000, through_day: 11, through_day_rides: 1 }
    );
}

#[test]
fn oldest_watermark_is_the_minimum_or_now() {
    assert_eq!(oldest_watermark(&[], 42), 42);
    assert_eq!(oldest_watermark(&[7, 3, 9], 42), 3);
    assert_eq!(oldest_watermark(&[-5], 0), -5);
}

use sitwego_api::billing::{
    accrual_fits, adjust_amount_due, apply_accrual, settle_dues, trial_terms, Settlement, TrialTerms,
    RENEWAL_PERIOD_MS,
};

#[test]
fn settling_dues_restarts_the_period_and_accrual() {
    let now = 20 * DAY_MS;
    let s = settle_dues(sub(10 * DAY_MS), now);
    assert_eq!(
        s,
        Settlement {
            billing: SubscriptionBilling {
                plan_start: now,
                is_on_free_trial: false,
                free_trial_end: None,
                watermark: now,
                amount_due: Some(0),
                last_charged_day: None,
                last_day_rides: 0,
            },
            plan_end: now + 7 * DAY_MS,
            last_billed_at: now,
        }
    );
    assert_eq!(RENEWAL_PERIOD_MS, 7 * DAY_MS);
    // The rides before the payment are never charged again.
    assert_eq!(
        accrue_subscription(Some(per_day(500)), s.billing, "d1", &rides(), 30 * DAY_MS),
        Accrual::NoNewRides
    );
}

#[test]
fn adjusting_amount_due_moves_the_watermark() {
    let s = adjust_amount_due(sub(10 * DAY_MS), 4_200, 12 * DAY_MS);
    assert_eq!(s.amount_due, Some(4_200));
    assert_eq!(s.watermark, 12 * DAY_MS);
    assert_eq!(s.plan_start, 0);
}

#[test]
fn applying_a_charge_sets_the_total_and_the_watermark() {
    let now = 12 * DAY_MS;
    let before = sub(10 * DAY_MS);
    let a = accrue_subscription(Some(per_day(500)), before, "d1", &rides(), now);
    let after = apply_accrual(before, a, now);
    assert_eq!(after.amount_due, Some(2_000));
    assert_eq!(after.watermark, now);
    assert_eq!(accrue_subscription(Some(per_day(500)), after, "d1", &rides(), now), Accrual::NoNewRides);
    assert_eq!(apply_accrual(before, Accrual::NoNewRides, now), before);
    // Amounts due beyond i64 cents are kept whole.
    let big = apply_accrual(before, Accrual::Charge { charge: 1, total_due: i64::MAX as i128 + 1, through_day: 0, through_day_rides: 3 }, now);
    assert_eq!(big.amount_due, Some(i64::MAX as i128 + 1));
    assert_eq!(big.last_charged_day, Some(0));
    assert_eq!(big.last_day_rides, 3);
}

#[test]
fn trials_end_after_the_given_days() {
    assert_eq!(
        trial_terms(1_000, 14),
        TrialTerms {
            plan_start: 1_000,
            plan_end: 1_000 + 14 * DAY_MS,
            free_trial_end: 1_000 + 14 * DAY_MS,
            is_on_free_trial: true,
            amount_due: 0,
        }
    );
}

#[test]
fn two_runs_bill_the_same_as_one_run() {
    // Rides on days 10 and 11; the first run fires at midnight between them.
    let midnight = 11 * DAY_MS;
    let all = rides();
    let before: Vec<CompletedRide> = all.iter().filter(|r| r.ended_at <= midnight).map(|r| ride(&r.driver_id, r.ended_at)).collect();
    for plan in [per_day(500), per_ride(100, Some(250), Some(2))] {
        let start = sub(0);
        let first = accrue_subscription(Some(plan), start, "d1", &before, midnight);
        let after_first = apply_accrual(start, first, midnight);
        let second = accrue_subscription(Some(plan), after_first, "d1", &all, 12 * DAY_MS);
        let once = accrue_subscription(Some(plan), start, "d1", &all, 12 * DAY_MS);
        let charge = |a: Accrual| match a {
            Accrual::Charge { charge, .. } => charge,
            _ => 0,
        };
        assert_eq!(charge(first) + charge(second), charge(once));
    }
}

#[test]
fn a_day_split_across_two_runs_is_charged_once() {
    // The first run fires in the middle of day 10.
    let t1 = 10 * DAY_MS + 1_500;
    let all = rides();
    let before: Vec<CompletedRide> =
        all.iter().filter(|r| r.ended_at <= t1).map(|r| ride(&r.driver_id, r.ended_at)).collect();
    let start = sub(0);
    let first = accrue_subscription(Some(per_day(500)), start, "d1", &before, t1);
    assert_eq!(first, Accrual::Charge { charge: 1_000, total_due: 2_000, through_day: 10, through_day_rides: 1 });
    let after_first = apply_accrual(start, first, t1);
    assert_eq!(after_first.last_charged_day, Some(10));
    let second = accrue_subscription(Some(per_day(500)), after_first, "d1", &all, 12 * DAY_MS);
    // Day 10 was charged already; only day 11 is new.
    assert_eq!(second, Accrual::Charge { charge: 500, total_due: 2_500, through_day: 11, through_day_rides: 1 });
    let once = accrue_subscription(Some(per_day(500)), start, "d1", &all, 12 * DAY_MS);
    assert_eq!(once, Accrual::Charge { charge: 1_500, total_due: 2_500, through_day: 11, through_day_rides: 1 });
}

#[test]
fn accrual_range_check() {
    let now = 12 * DAY_MS;
    assert!(accrual_fits(Some(per_day(500)), sub(10 * DAY_MS), "d1", &rides(), now));
    assert!(accrual_fits(Some(per_ride(i64::MAX, None, None)), sub(10 * DAY_MS), "d1", &rides(), now));
    let mut s = sub(10 * DAY_MS);
    s.amount_due = Some(i64::MAX as i128);
    assert!(accrual_fits(Some(per_ride(i64::MAX, None, None)), s, "d1", &rides(), now));
}

#[test]
fn rides_fall_on_their_utc_day() {
    assert_eq!(day_of_ride(&ride("d1", 0)), 0);
    assert_eq!(day_of_ride(&ride("d1", DAY_MS - 1)), 0);
    assert_eq!(day_of_ride(&ride("d1", DAY_MS)), 1);
    assert_eq!(day_of_ride(&ride("d1", -1)), -1);
    assert_eq!(day_of_ride(&ride("d1", -DAY_MS)), -1);
    assert_eq!(day_of_ride(&ride("d1", -DAY_MS - 1)), -2);
}

#[test]
fn a_per_ride_day_split_across_runs_is_capped_once() {
    // Day 10 has rides on both sides of the first run.
    let t1 = 10 * DAY_MS + 1_500;
    let all = rides();
    let before: Vec<CompletedRide> =
        all.iter().filter(|r| r.ended_at <= t1).map(|r| ride(&r.driver_id, r.ended_at)).collect();
    let charge = |a: Accrual| match a {
        Accrual::Charge { charge, .. } => charge,
        _ => 0,
    };
    for (plan, day_10_first, day_10_second) in [
        // One ride a day: day 10 is charged in the first run only.
        (per_ride(100, None, Some(1)), 100, 0),
        // At most 250 a day: 100 for the first ride, 150 more for the others.
        (per_ride(100, Some(250), None), 100, 150),
    ] {
        let start = sub(0);
        let first = accrue_subscription(Some(plan), start, "d1", &before, t1);
        // Days 9 and 10, one ride each so far.
        assert_eq!(first, Accrual::Charge { charge: 100 + day_10_first, total_due: 1_100 + day_10_first, through_day: 10, through_day_rides: 1 });
        let after_first = apply_accrual(start, first, t1);
        assert_eq!(after_first.last_day_rides, 1);
        let second = accrue_subscription(Some(plan), after_first, "d1", &all, 12 * DAY_MS);
        // Day 10's other two rides, then day 11.
        assert_eq!(charge(second), day_10_second + 100);
        let once = accrue_subscription(Some(plan), start, "d1", &all, 12 * DAY_MS);
        assert_eq!(charge(first) + charge(second), charge(once));
    }
}
