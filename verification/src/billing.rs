//! Daily accrual of subscription charges.
//!
//! Each active subscription accrues the cost of its driver's completed rides
//! since the subscription's own watermark (the instant up to which charges have
//! already been accrued), bucketed by the day each ride ended. Amounts are in
//! minor currency units (cents); instants are milliseconds since the Unix epoch.
use std::collections::HashSet;
use vstd::prelude::*;

verus! {

/// How a plan bills a driver.
#[derive(Clone, Copy, Debug, PartialEq, Eq, Structural)]
pub enum BillingType {
    /// One day's price for each distinct day the driver drove.
    PerDay,
    /// A price per ride, capped per day by ride count and by amount (rides of
    /// the day that an earlier run charged count toward its caps).
    PerRide,
}

/// The billing terms of a plan.
#[derive(Clone, Copy, Debug, PartialEq, Eq, Structural)]
pub struct PlanTerms {
    pub cost: i64,
    pub billing_type: BillingType,
    pub max_charge: Option<i64>,
    pub max_rides: Option<i32>,
}

/// What accrual reads of a subscription.
#[derive(Clone, Copy, Debug, PartialEq, Eq, Structural)]
pub struct SubscriptionBilling {
    pub plan_start: i64,
    pub is_on_free_trial: bool,
    pub free_trial_end: Option<i64>,
    /// Last accrual instant, or the last update when there was none.
    pub watermark: i64,
    pub amount_due: Option<i128>,
    /// The latest day a charge has covered, if any; a later run does not
    /// charge a per-day plan for it again.
    pub last_charged_day: Option<i64>,
    /// How many rides of `last_charged_day` the charges have counted; a later
    /// run charges a per-ride plan for more rides of that day only up to the
    /// day's caps.
    pub last_day_rides: u64,
}

/// A completed, billable ride: whose it is and when it ended.
pub struct CompletedRide {
    pub driver_id: String,
    pub ended_at: i64,
}

/// The UTC day a ride ended on, counted from the Unix epoch (day 0 is
/// 1970-01-01; earlier instants fall on negative days).
pub open spec fn ride_day(r: CompletedRide) -> i64 {
    (r.ended_at as int / DAY_MS as int) as i64
}

/// The UTC day a ride ended on, as `ride_day` says.
pub fn day_of_ride(r: &CompletedRide) -> (d: i64)
    ensures
        d == ride_day(*r),
{
    proof {
        assert(i64::MIN <= r.ended_at as int / DAY_MS as int <= i64::MAX) by (nonlinear_arith)
            requires
                i64::MIN <= r.ended_at <= i64::MAX,
                DAY_MS == 86_400_000,
        ;
    }
    match r.ended_at.checked_div_euclid(DAY_MS) {
        Some(d) => d,
        None => 0,
    }
}

/// What accrual decides for one subscription.
#[derive(Clone, Copy, Debug, PartialEq, Eq, Structural)]
pub enum Accrual {
    /// The subscription has no plan: skipped.
    NoPlan,
    /// The plan starts in the future: skipped.
    NotStarted,
    /// The driver is on an active free trial: skipped.
    OnFreeTrial,
    /// No ride since the watermark: no ride, no charge.
    NoNewRides,
    /// Charge `charge`; the new amount due is `total_due`, the charges now
    /// cover every day up to `through_day`, and they have counted
    /// `through_day_rides` rides of that day.
    Charge { charge: i128, total_due: i128, through_day: i64, through_day_rides: u64 },
}

/// Whether a ride is billable for the subscription of `driver_id` with watermark `watermark`.
pub open spec fn billable(r: CompletedRide, driver_id: Seq<char>, watermark: i64) -> bool {
    r.driver_id@ == driver_id && r.ended_at > watermark
}

/// The distinct days with billable rides, in order of first appearance.
pub open spec fn billed_days(rides: Seq<CompletedRide>, driver_id: Seq<char>,
    watermark: i64) -> Seq<
    i64,
>
    decreases rides.len(),
{
    if rides.len() == 0 {
        Seq::empty()
    } else {
        let before = billed_days(rides.drop_last(), driver_id, watermark);
        let r = rides.last();
        if billable(r, driver_id, watermark) && !before.contains(ride_day(r)) {
            before.push(ride_day(r))
        } else {
            before
        }
    }
}

/// The number of billable rides that ended on `day`.
pub open spec fn rides_on(rides: Seq<CompletedRide>, driver_id: Seq<char>, watermark: i64,
    day: i64) -> nat
    decreases rides.len(),
{
    if rides.len() == 0 {
        0
    } else {
        let r = rides.last();
        rides_on(rides.drop_last(), driver_id, watermark, day) + if billable(r, driver_id,
            watermark)
            && ride_day(r) == day {
            1nat
        } else {
            0nat
        }
    }
}

/// What one day with `n` rides costs on a per-ride plan.
pub open spec fn day_charge(plan: PlanTerms, n: int) -> int {
    let max_rides: int = match plan.max_rides {
        Some(m) => m as int,
        None => i64::MAX as int,
    };
    let chargeable = if n < max_rides {
        n
    } else {
        max_rides
    };
    let amount = chargeable * plan.cost;
    match plan.max_charge {
        Some(cap) => if amount < cap {
            amount
        } else {
            cap as int
        },
        None => amount,
    }
}

/// Rides of day `d` that earlier charges have counted: those recorded for the
/// last charged day, none for any other day.
pub open spec fn counted_before(last_charged_day: Option<i64>, last_day_rides: u64, d: i64) -> int {
    if last_charged_day == Some(d) {
        last_day_rides as int
    } else {
        0
    }
}

/// What day `d` adds to a per-ride charge: the capped charge of its billable
/// rides, or, on the last charged day, what they add to the capped charge of
/// the rides of that day already counted.
pub open spec fn day_term(
    plan: PlanTerms,
    rides: Seq<CompletedRide>,
    driver_id: Seq<char>,
    watermark: i64,
    last_charged_day: Option<i64>,
    last_day_rides: u64,
    d: i64,
) -> int {
    let n = rides_on(rides, driver_id, watermark, d) as int;
    if last_charged_day == Some(d) {
        day_charge(plan, last_day_rides + n) - day_charge(plan, last_day_rides as int)
    } else {
        day_charge(plan, n)
    }
}

/// The per-ride charge summed over the given days.
pub open spec fn per_ride_charge(
    plan: PlanTerms,
    days: Seq<i64>,
    rides: Seq<CompletedRide>,
    driver_id: Seq<char>,
    watermark: i64,
    last_charged_day: Option<i64>,
    last_day_rides: u64,
) -> int
    decreases days.len(),
{
    if days.len() == 0 {
        0
    } else {
        per_ride_charge(plan, days.drop_last(), rides, driver_id, watermark, last_charged_day,
            last_day_rides) + day_term(plan, rides, driver_id, watermark, last_charged_day,
            last_day_rides, days.last())
    }
}

/// The rides of day `through` the charges have counted after a run: the
/// run's own plus, on the last charged day, those counted before (saturating
/// at `u64::MAX`, beyond every cap).
pub open spec fn through_rides_of(
    rides: Seq<CompletedRide>,
    driver_id: Seq<char>,
    watermark: i64,
    last_charged_day: Option<i64>,
    last_day_rides: u64,
    through: i64,
) -> u64 {
    let total = rides_on(rides, driver_id, watermark, through) + counted_before(
        last_charged_day,
        last_day_rides,
        through,
    );
    if total <= u64::MAX {
        total as u64
    } else {
        u64::MAX
    }
}

/// Whether day `d` comes after the last day a charge covered.
pub open spec fn is_fresh(last_charged_day: Option<i64>, d: i64) -> bool {
    match last_charged_day {
        None => true,
        Some(l) => d > l,
    }
}

/// The days that come after the last day a charge covered, in order.
pub open spec fn fresh_days(days: Seq<i64>, last_charged_day: Option<i64>) -> Seq<i64>
    decreases days.len(),
{
    if days.len() == 0 {
        Seq::empty()
    } else {
        let rest = fresh_days(days.drop_last(), last_charged_day);
        if is_fresh(last_charged_day, days.last()) {
            rest.push(days.last())
        } else {
            rest
        }
    }
}

/// The latest of the days and of the last charged day (`i64::MIN` when there
/// is neither).
pub open spec fn through_day_of(days: Seq<i64>, last_charged_day: Option<i64>) -> i64
    decreases days.len(),
{
    if days.len() == 0 {
        match last_charged_day {
            Some(l) => l,
            None => i64::MIN,
        }
    } else {
        let before = through_day_of(days.drop_last(), last_charged_day);
        if days.last() > before {
            days.last()
        } else {
            before
        }
    }
}

/// The charge for the billable rides: a per-day plan charges each day with a
/// ride that no earlier charge covered; a per-ride plan charges each day's
/// rides, capped per day together with the rides of the day already counted.
pub open spec fn charge_for(
    plan: PlanTerms,
    rides: Seq<CompletedRide>,
    driver_id: Seq<char>,
    watermark: i64,
    last_charged_day: Option<i64>,
    last_day_rides: u64,
) -> int {
    let days = billed_days(rides, driver_id, watermark);
    match plan.billing_type {
        BillingType::PerDay => plan.cost * fresh_days(days, last_charged_day).len(),
        BillingType::PerRide => per_ride_charge(
            plan,
            days,
            rides,
            driver_id,
            watermark,
            last_charged_day,
            last_day_rides,
        ),
    }
}

/// Whether the driver is on a free trial that has not ended at `now`.
pub open spec fn on_free_trial(sub: SubscriptionBilling, now: i64) -> bool {
    sub.is_on_free_trial && match sub.free_trial_end {
        None => true,
        Some(end) => end >= now,
    }
}

/// The amount due before accrual (nothing recorded counts as zero).
pub open spec fn existing_due(sub: SubscriptionBilling) -> int {
    match sub.amount_due {
        Some(a) => a as int,
        None => 0,
    }
}

/// Whether accrual at `now` computes within `i128`: every running total of a
/// per-ride charge, and the new amount due. Outside it the amounts exceed what
/// the stored decimal type holds, and accrual fails.
pub open spec fn accrual_in_range(
    plan: Option<PlanTerms>,
    sub: SubscriptionBilling,
    driver_id: Seq<char>,
    rides: Seq<CompletedRide>,
    now: i64,
) -> bool {
    match plan {
        None => true,
        Some(p) => {
            let days = billed_days(rides, driver_id, sub.watermark);
            sub.plan_start > now || on_free_trial(sub, now) || days.len() == 0 || ({
                &&& (p.billing_type == BillingType::PerRide ==> forall|j: int|
                    0 <= j <= days.len() ==> i128::MIN <= #[trigger] per_ride_charge(
                        p,
                        days.take(j),
                        rides,
                        driver_id,
                        sub.watermark,
                        sub.last_charged_day,
                        sub.last_day_rides,
                    ) <= i128::MAX)
                &&& i128::MIN <= existing_due(sub) + charge_for(
                    p,
                    rides,
                    driver_id,
                    sub.watermark,
                    sub.last_charged_day,
                    sub.last_day_rides,
                ) <= i128::MAX
            })
        },
    }
}

/// What accrual at `now` decides for a subscription of `driver_id`.
pub open spec fn accrual_of(
    plan: Option<PlanTerms>,
    sub: SubscriptionBilling,
    driver_id: Seq<char>,
    rides: Seq<CompletedRide>,
    now: i64,
) -> Accrual {
    match plan {
        None => Accrual::NoPlan,
        Some(p) => if sub.plan_start > now {
            Accrual::NotStarted
        } else if on_free_trial(sub, now) {
            Accrual::OnFreeTrial
        } else if billed_days(rides, driver_id, sub.watermark).len() == 0 {
            Accrual::NoNewRides
        } else {
            let charge = charge_for(
                p,
                rides,
                driver_id,
                sub.watermark,
                sub.last_charged_day,
                sub.last_day_rides,
            );
            let through = through_day_of(
                billed_days(rides, driver_id, sub.watermark),
                sub.last_charged_day,
            );
            Accrual::Charge {
                charge: charge as i128,
                total_due: (existing_due(sub) + charge) as i128,
                through_day: through,
                through_day_rides: through_rides_of(
                    rides,
                    driver_id,
                    sub.watermark,
                    sub.last_charged_day,
                    sub.last_day_rides,
                    through,
                ),
            }
        },
    }
}

proof fn lemma_days_bounded(rides: Seq<CompletedRide>, driver_id: Seq<char>, watermark: i64)
    ensures
        billed_days(rides, driver_id, watermark).len() <= rides.len(),
        billed_days(rides, driver_id, watermark).no_duplicates(),
    decreases rides.len(),
{
    if rides.len() > 0 {
        lemma_days_bounded(rides.drop_last(), driver_id, watermark);
    }
}

fn count_rides_on(rides: &[CompletedRide], driver_id: &str, watermark: i64, day: i64) -> (n: usize)
    ensures
        n == rides_on(rides@, driver_id@, watermark, day),
{
    let mut n: usize = 0;
    let mut i: usize = 0;
    while i < rides.len()
        invariant
            i <= rides@.len(),
            n == rides_on(rides@.take(i as int), driver_id@, watermark, day),
            n <= i,
        decreases rides@.len() - i,
    {
        proof {
            assert(rides@.take(i + 1).drop_last() =~= rides@.take(i as int));
        }
        let r = &rides[i];
        if str_eq(r.driver_id.as_str(), driver_id) && r.ended_at > watermark && day_of_ride(r) == day {
            n = n + 1;
        }
        i = i + 1;
    }
    assert(rides@.take(rides@.len() as int) =~= rides@);
    n
}

fn str_eq(a: &str, b: &str) -> (r: bool)
    ensures
        r == (a@ == b@),
{
    let x = crate::text::chars_of(a);
    let y = crate::text::chars_of(b);
    if x.len() != y.len() {
        return false;
    }
    let mut i: usize = 0;
    while i < x.len()
        invariant
            x@ == a@,
            y@ == b@,
            x@.len() == y@.len(),
            i <= x@.len(),
            forall|k: int| 0 <= k < i ==> x@[k] == y@[k],
        decreases x@.len() - i,
    {
        if x[i] != y[i] {
            return false;
        }
        i = i + 1;
    }
    assert(x@ =~= y@);
    true
}

/// The distinct days with billable rides, in order of first appearance. A
/// hash set of the days met so far decides whether a ride opens a new day.
fn collect_billed_days(rides: &[CompletedRide], driver_id: &str, watermark: i64) -> (days: Vec<i64>)
    ensures
        days@ == billed_days(rides@, driver_id@, watermark),
{
    broadcast use vstd::std_specs::hash::group_hash_axioms;
    let mut days: Vec<i64> = Vec::new();
    let mut seen_days: HashSet<i64> = HashSet::new();
    let mut i: usize = 0;
    while i < rides.len()
        invariant
            i <= rides@.len(),
            days@ == billed_days(rides@.take(i as int), driver_id@, watermark),
            seen_days@ == days@.to_set(),
        decreases rides@.len() - i,
    {
        proof {
            assert(rides@.take(i + 1).drop_last() =~= rides@.take(i as int));
        }
        let r = &rides[i];
        if str_eq(r.driver_id.as_str(), driver_id) && r.ended_at > watermark {
            let d = day_of_ride(r);
            if !seen_days.contains(&d) {
                proof {
                    assert(!days@.contains(d));
                }
                let ghost before = days@;
                days.push(d);
                seen_days.insert(d);
                proof {
                    before.lemma_push_to_set_commute(d);
                }
            } else {
                proof {
                    assert(days@.contains(d));
                }
            }
        }
        i = i + 1;
    }
    assert(rides@.take(rides@.len() as int) =~= rides@);
    days
}

proof fn lemma_fresh_days_len(days: Seq<i64>, last: Option<i64>)
    ensures
        fresh_days(days, last).len() <= days.len(),
    decreases days.len(),
{
    if days.len() > 0 {
        lemma_fresh_days_len(days.drop_last(), last);
    }
}

/// The number of days after the last charged day, and the latest of the days
/// and the last charged day.
fn fresh_count_and_through(days: &[i64], last: Option<i64>) -> (r: (usize, i64))
    ensures
        r.0 == fresh_days(days@, last).len(),
        r.1 == through_day_of(days@, last),
{
    let mut count: usize = 0;
    let mut through: i64 = match last {
        Some(l) => l,
        None => i64::MIN,
    };
    let mut j: usize = 0;
    while j < days.len()
        invariant
            j <= days@.len(),
            count == fresh_days(days@.take(j as int), last).len(),
            through == through_day_of(days@.take(j as int), last),
        decreases days@.len() - j,
    {
        proof {
            assert(days@.take(j + 1).drop_last() =~= days@.take(j as int));
            lemma_fresh_days_len(days@.take(j as int), last);
        }
        let d = days[j];
        let fresh = match last {
            None => true,
            Some(l) => d > l,
        };
        if fresh {
            count = count + 1;
        }
        if d > through {
            through = d;
        }
        j = j + 1;
    }
    assert(days@.take(days@.len() as int) =~= days@);
    (count, through)
}

/// What one day with `count` rides costs on a per-ride plan, as `day_charge`
/// says.
fn day_charge_of(p: PlanTerms, count: u128) -> (c: i128)
    requires
        count <= 0x3_0000_0000_0000_0000,
    ensures
        c == day_charge(p, count as int),
        -0x4000_0000_0000_0000_0000_0000_0000_0000 < c < 0x4000_0000_0000_0000_0000_0000_0000_0000,
{
    let max_rides: i128 = match p.max_rides {
        Some(m) => m as i128,
        None => i64::MAX as i128,
    };
    let chargeable: i128 = if (count as i128) < max_rides {
        count as i128
    } else {
        max_rides
    };
    proof {
        assert(-(0x7fff_ffff_ffff_ffff * 0x8000_0000_0000_0000) <= chargeable * p.cost
            <= 0x7fff_ffff_ffff_ffff * 0x8000_0000_0000_0000) by (nonlinear_arith)
            requires
                -0x8000_0000 <= chargeable <= 0x7fff_ffff_ffff_ffff,
                i64::MIN <= p.cost <= i64::MAX,
        ;
    }
    let amount: i128 = chargeable * (p.cost as i128);
    match p.max_charge {
        Some(cap) => if amount < cap as i128 {
            amount
        } else {
            cap as i128
        },
        None => amount,
    }
}

/// Accrual within `i128`, or `None` when a running total would leave it.
fn try_accrue(
    plan: Option<PlanTerms>,
    sub: SubscriptionBilling,
    driver_id: &str,
    rides: &[CompletedRide],
    now: i64,
) -> (r: Option<Accrual>)
    ensures
        r is Some <==> accrual_in_range(plan, sub, driver_id@, rides@, now),
        r matches Some(a) ==> a == accrual_of(plan, sub, driver_id@, rides@, now),
{
    let p = match plan {
        None => {
            return Some(Accrual::NoPlan);
        },
        Some(p) => p,
    };
    if sub.plan_start > now {
        return Some(Accrual::NotStarted);
    }
    let trial = sub.is_on_free_trial && match sub.free_trial_end {
        None => true,
        Some(end) => end >= now,
    };
    if trial {
        return Some(Accrual::OnFreeTrial);
    }
    let days = collect_billed_days(rides, driver_id, sub.watermark);
    if days.len() == 0 {
        return Some(Accrual::NoNewRides);
    }
    proof {
        lemma_days_bounded(rides@, driver_id@, sub.watermark);
    }
    let (fresh, through_day) = fresh_count_and_through(days.as_slice(), sub.last_charged_day);
    let ghost dw = days@;
    let charge: i128 = match p.billing_type {
        BillingType::PerDay => {
            proof {
                lemma_fresh_days_len(days@, sub.last_charged_day);
                assert(-0x8000_0000_0000_0000 * 0xffff_ffff_ffff_ffff <= p.cost * fresh
                    <= 0x8000_0000_0000_0000 * 0xffff_ffff_ffff_ffff) by (nonlinear_arith)
                    requires
                        i64::MIN <= p.cost <= i64::MAX,
                        0 <= fresh <= 0xffff_ffff_ffff_ffff,
                ;
            }
            (p.cost as i128) * (fresh as i128)
        },
        BillingType::PerRide => {
            let mut sum: i128 = 0;
            let mut j: usize = 0;
            while j < days.len()
                invariant
                    plan == Some(p),
                    p.billing_type == BillingType::PerRide,
                    !(sub.plan_start > now),
                    !on_free_trial(sub, now),
                    days@ == dw,
                    dw.len() > 0,
                    dw == billed_days(rides@, driver_id@, sub.watermark),
                    j <= dw.len(),
                    sum == per_ride_charge(p, dw.take(j as int), rides@, driver_id@,
                        sub.watermark, sub.last_charged_day, sub.last_day_rides),
                    forall|k: int|
                        0 <= k <= j ==> i128::MIN <= #[trigger] per_ride_charge(
                            p,
                            dw.take(k),
                            rides@,
                            driver_id@,
                            sub.watermark,
                            sub.last_charged_day,
                            sub.last_day_rides,
                        ) <= i128::MAX,
                decreases dw.len() - j,
            {
                proof {
                    assert(dw.take(j + 1).drop_last() =~= dw.take(j as int));
                }
                let d = days[j];
                let n = count_rides_on(rides, driver_id, sub.watermark, d);
                let on_last = match sub.last_charged_day {
                    Some(l) => l == d,
                    None => false,
                };
                let day: i128 = if on_last {
                    let before = sub.last_day_rides as u128;
                    let with_new = day_charge_of(p, before + n as u128);
                    let old_charge = day_charge_of(p, before);
                    with_new - old_charge
                } else {
                    day_charge_of(p, n as u128)
                };
                match sum.checked_add(day) {
                    Some(next) => {
                        sum = next;
                    },
                    None => {
                        proof {
                            assert(!(i128::MIN <= per_ride_charge(
                                p,
                                dw.take(j + 1),
                                rides@,
                                driver_id@,
                                sub.watermark,
                                sub.last_charged_day,
                                sub.last_day_rides,
                            ) <= i128::MAX));
                        }
                        return None;
                    },
                }
                j = j + 1;
            }
            proof {
                assert(dw.take(dw.len() as int) =~= dw);
            }
            sum
        },
    };
    let existing: i128 = match sub.amount_due {
        Some(a) => a,
        None => 0,
    };
    let through_count = count_rides_on(rides, driver_id, sub.watermark, through_day);
    let on_last = match sub.last_charged_day {
        Some(l) => l == through_day,
        None => false,
    };
    let counted: u128 = if on_last {
        sub.last_day_rides as u128
    } else {
        0
    };
    let total_count: u128 = through_count as u128 + counted;
    let through_day_rides: u64 = if total_count <= u64::MAX as u128 {
        total_count as u64
    } else {
        u64::MAX
    };
    match existing.checked_add(charge) {
        Some(total_due) => Some(Accrual::Charge { charge, total_due, through_day, through_day_rides }),
        None => None,
    }
}

/// Whether accrual at `now` stays within range for the subscription of
/// `driver_id` (the condition `accrue_subscription` requires).
pub fn accrual_fits(
    plan: Option<PlanTerms>,
    sub: SubscriptionBilling,
    driver_id: &str,
    rides: &[CompletedRide],
    now: i64,
) -> (b: bool)
    ensures
        b == accrual_in_range(plan, sub, driver_id@, rides@, now),
{
    try_accrue(plan, sub, driver_id, rides, now).is_some()
}

/// What accrual at `now` decides for the subscription of `driver_id`, given the
/// plan (if any), the subscription's billing state and the completed rides
/// fetched for all subscriptions. Amounts beyond `i128` are left out: they
/// exceed the decimal amounts the charges are stored in.
pub fn accrue_subscription(
    plan: Option<PlanTerms>,
    sub: SubscriptionBilling,
    driver_id: &str,
    rides: &[CompletedRide],
    now: i64,
) -> (a: Accrual)
    requires
        accrual_in_range(plan, sub, driver_id@, rides@, now),
    ensures
        a == accrual_of(plan, sub, driver_id@, rides@, now),
{
    match try_accrue(plan, sub, driver_id, rides, now) {
        Some(a) => a,
        None => Accrual::NoPlan,
    }
}

/// The lower bound of the ride window: the oldest watermark, or `now` when
/// there is no subscription.
pub fn oldest_watermark(watermarks: &[i64], now: i64) -> (w: i64)
    ensures
        watermarks@.len() == 0 ==> w == now,
        watermarks@.len() > 0 ==> watermarks@.contains(w) && forall|i: int|
            0 <= i < watermarks@.len() ==> w <= watermarks@[i],
{
    if watermarks.len() == 0 {
        return now;
    }
    let mut w = watermarks[0];
    let mut i: usize = 1;
    while i < watermarks.len()
        invariant
            1 <= i <= watermarks@.len(),
            watermarks@.contains(w),
            forall|k: int| 0 <= k < i ==> w <= watermarks@[k],
        decreases watermarks@.len() - i,
    {
        if watermarks[i] < w {
            w = watermarks[i];
        }
        i = i + 1;
    }
    w
}

/// How long a paid-up subscription runs before it is due again.
pub const RENEWAL_PERIOD_MS: i64 = 604_800_000;

/// Milliseconds in a day.
pub const DAY_MS: i64 = 86_400_000;

/// A subscription's billing state after its dues were paid at some instant.
#[derive(Clone, Copy, Debug, PartialEq, Eq, Structural)]
pub struct Settlement {
    pub billing: SubscriptionBilling,
    pub plan_end: i64,
    pub last_billed_at: i64,
}

/// The dates and flags of a fresh free-trial subscription.
#[derive(Clone, Copy, Debug, PartialEq, Eq, Structural)]
pub struct TrialTerms {
    pub plan_start: i64,
    pub plan_end: i64,
    pub free_trial_end: i64,
    pub is_on_free_trial: bool,
    pub amount_due: i64,
}

/// The subscription after a payment at `now`: nothing is due, the plan runs
/// for another renewal period from `now`, and accrual restarts from `now`, so
/// the rides up to `now` (billed and now paid) are never charged again.
pub fn settle_dues(sub: SubscriptionBilling, now: i64) -> (s: Settlement)
    requires
        now <= i64::MAX - RENEWAL_PERIOD_MS,
    ensures
        s.billing == (SubscriptionBilling { amount_due: Some(0), plan_start: now, watermark: now,
            ..sub }),
        s.plan_end == now + RENEWAL_PERIOD_MS,
        s.last_billed_at == now,
{
    Settlement {
        billing: SubscriptionBilling { amount_due: Some(0), plan_start: now, watermark: now,
            ..sub },
        plan_end: now + RENEWAL_PERIOD_MS,
        last_billed_at: now,
    }
}

/// The subscription after an administrator set its amount due at `now`:
/// the new amount replaces the old, and accrual restarts from `now`.
pub fn adjust_amount_due(sub: SubscriptionBilling, amount_due: i128,
    now: i64) -> (s: SubscriptionBilling)
    ensures
        s == (SubscriptionBilling { amount_due: Some(amount_due), watermark: now, ..sub }),
{
    SubscriptionBilling { amount_due: Some(amount_due), watermark: now, ..sub }
}

/// The subscription after an accrual run at `now` that charged, as the
/// contracts speak of it: the new amount due, the watermark at `now`, and the
/// charges covering every day up to the charge's last day. Nothing else
/// changes (in particular not when the subscription was last paid).
pub open spec fn after_charge(
    sub: SubscriptionBilling,
    total_due: i128,
    through_day: i64,
    through_day_rides: u64,
    now: i64,
) -> SubscriptionBilling {
    SubscriptionBilling {
        amount_due: Some(total_due),
        watermark: now,
        last_charged_day: Some(through_day),
        last_day_rides: through_day_rides,
        ..sub
    }
}

/// The subscription after an accrual run at `now` decided `accrual`: a charge
/// sets the new amount due, moves the watermark to `now` and records the last
/// day charged; every other decision leaves the subscription as it was.
pub fn apply_accrual(sub: SubscriptionBilling, accrual: Accrual,
    now: i64) -> (s: SubscriptionBilling)
    ensures
        match accrual {
            Accrual::Charge { total_due, through_day, through_day_rides, .. } => s == after_charge(
                sub,
                total_due,
                through_day,
                through_day_rides,
                now,
            ),
            _ => s == sub,
        },
{
    match accrual {
        Accrual::Charge { total_due, through_day, through_day_rides, .. } => SubscriptionBilling {
            amount_due: Some(total_due),
            watermark: now,
            last_charged_day: Some(through_day),
            last_day_rides: through_day_rides,
            ..sub
        },
        _ => sub,
    }
}

/// The terms of a free trial of `trial_days` days starting at `now`: the trial
/// and the billing window both end when the trial does, and nothing is due.
pub fn trial_terms(now: i64, trial_days: i64) -> (t: TrialTerms)
    requires
        0 <= trial_days <= i64::MAX / DAY_MS,
        now + trial_days * DAY_MS <= i64::MAX,
    ensures
        t == (TrialTerms {
            plan_start: now,
            plan_end: (now + trial_days * DAY_MS) as i64,
            free_trial_end: (now + trial_days * DAY_MS) as i64,
            is_on_free_trial: true,
            amount_due: 0,
        }),
{
    proof {
        assert(0 <= trial_days * DAY_MS <= i64::MAX) by (nonlinear_arith)
            requires
                0 <= trial_days <= i64::MAX / DAY_MS,
        ;
    }
    let end = now + trial_days * DAY_MS;
    TrialTerms { plan_start: now, plan_end: end, free_trial_end: end, is_on_free_trial: true,
        amount_due: 0 }
}

proof fn lemma_no_days_when_all_old(rides: Seq<CompletedRide>, driver_id: Seq<char>, watermark: i64)
    requires
        forall|i: int| 0 <= i < rides.len() ==> rides[i].ended_at <= watermark,
    ensures
        billed_days(rides, driver_id, watermark).len() == 0,
    decreases rides.len(),
{
    if rides.len() > 0 {
        lemma_no_days_when_all_old(rides.drop_last(), driver_id, watermark);
    }
}

/// Law: accrual never bills a ride twice. Once a subscription has accrued at
/// `now` (its watermark moves to `now`), a later run over rides that all ended
/// by `now` finds nothing new to charge.
pub proof fn law_watermark_prevents_double_billing(
    plan: Option<PlanTerms>,
    sub: SubscriptionBilling,
    driver_id: Seq<char>,
    rides: Seq<CompletedRide>,
    now: i64,
    later: i64,
)
    requires
        plan is Some,
        sub.plan_start <= later,
        !on_free_trial(sub, later),
        forall|i: int| 0 <= i < rides.len() ==> rides[i].ended_at <= now,
    ensures
        accrual_of(plan, SubscriptionBilling { watermark: now, ..sub }, driver_id, rides, later)
            == Accrual::NoNewRides,
{
    lemma_no_days_when_all_old(rides, driver_id, now);
}

/// Law: no ride, no charge — whatever the plan, a subscription is charged only
/// when its driver has a billable ride after the watermark.
pub proof fn law_no_ride_no_charge(
    plan: Option<PlanTerms>,
    sub: SubscriptionBilling,
    driver_id: Seq<char>,
    rides: Seq<CompletedRide>,
    now: i64,
)
    requires
        accrual_of(plan, sub, driver_id, rides, now) is Charge,
    ensures
        exists|i: int| 0 <= i < rides.len() && billable(rides[i], driver_id, sub.watermark),
{
    lemma_some_day_has_a_ride(rides, driver_id, sub.watermark);
}

proof fn lemma_some_day_has_a_ride(rides: Seq<CompletedRide>, driver_id: Seq<char>, watermark: i64)
    requires
        billed_days(rides, driver_id, watermark).len() > 0,
    ensures
        exists|i: int| 0 <= i < rides.len() && billable(rides[i], driver_id, watermark),
    decreases rides.len(),
{
    if billable(rides.last(), driver_id, watermark) {
        assert(billable(rides[rides.len() - 1], driver_id, watermark));
    } else {
        lemma_some_day_has_a_ride(rides.drop_last(), driver_id, watermark);
        let i = choose|i: int|
            0 <= i < rides.drop_last().len() && billable(rides.drop_last()[i], driver_id,
                watermark);
        assert(rides[i] == rides.drop_last()[i]);
    }
}

/// Law: a payment settles every ride up to it. After the dues are paid at
/// `now`, no later accrual charges a ride that ended by `now`.
pub proof fn law_settled_rides_are_not_charged_again(
    plan: Option<PlanTerms>,
    sub: SubscriptionBilling,
    driver_id: Seq<char>,
    rides: Seq<CompletedRide>,
    now: i64,
    later: i64,
)
    requires
        forall|i: int| 0 <= i < rides.len() ==> rides[i].ended_at <= now,
    ensures
        !(accrual_of(
            plan,
            SubscriptionBilling { amount_due: Some(0), plan_start: now, watermark: now, ..sub },
            driver_id,
            rides,
            later,
        ) is Charge),
{
    lemma_no_days_when_all_old(rides, driver_id, now);
}

/// Law: an accrual's charge lands on the amount due, and the next run starts
/// after it — applying a charge at `now` and accruing again over rides that
/// ended by `now` charges nothing more.
pub proof fn law_charge_then_accrue_again_charges_nothing(
    plan: Option<PlanTerms>,
    sub: SubscriptionBilling,
    driver_id: Seq<char>,
    rides: Seq<CompletedRide>,
    now: i64,
    charge: i128,
    total_due: i128,
    through_day: i64,
    through_day_rides: u64,
)
    requires
        accrual_of(plan, sub, driver_id, rides, now) == (Accrual::Charge {
            charge,
            total_due,
            through_day,
            through_day_rides,
        }),
        forall|i: int| 0 <= i < rides.len() ==> rides[i].ended_at <= now,
    ensures
        accrual_of(
            plan,
            after_charge(sub, total_due, through_day, through_day_rides, now),
            driver_id,
            rides,
            now,
        ) == Accrual::NoNewRides,
{
    lemma_no_days_when_all_old(rides, driver_id, now);
}

/// Whether some billable ride of `rides` ended on `day`.
pub open spec fn has_billable_on(rides: Seq<CompletedRide>, driver_id: Seq<char>, watermark: i64,
    day: i64) -> bool {
    exists|i: int| 0 <= i < rides.len() && billable(rides[i], driver_id, watermark)
        && #[trigger] ride_day(rides[i]) == day
}

proof fn lemma_billed_days_contains(rides: Seq<CompletedRide>, driver_id: Seq<char>,
    watermark: i64, day: i64)
    ensures
        billed_days(rides, driver_id, watermark).contains(day) <==> has_billable_on(rides,
            driver_id, watermark, day),
    decreases rides.len(),
{
    if rides.len() > 0 {
        let init = rides.drop_last();
        let r = rides.last();
        lemma_billed_days_contains(init, driver_id, watermark, day);
        let before = billed_days(init, driver_id, watermark);
        // A billable ride of `rides` on `day` is one of `init`, or the last ride.
        let last_counts = billable(r, driver_id, watermark) && ride_day(r) == day;
        assert(has_billable_on(rides, driver_id, watermark, day) <==> (has_billable_on(
            init,
            driver_id,
            watermark,
            day,
        ) || last_counts)) by {
            if has_billable_on(init, driver_id, watermark, day) {
                let i = choose|i: int|
                    0 <= i < init.len() && billable(init[i], driver_id, watermark)
                        && #[trigger] ride_day(init[i]) == day;
                assert(rides[i] == init[i]);
            }
            if last_counts {
                assert(rides[rides.len() - 1] == r);
            }
            if has_billable_on(rides, driver_id, watermark, day) {
                let i = choose|i: int|
                    0 <= i < rides.len() && billable(rides[i], driver_id, watermark)
                        && #[trigger] ride_day(rides[i]) == day;
                if i < init.len() {
                    assert(init[i] == rides[i]);
                } else {
                    assert(rides[i] == r);
                }
            }
        }
        if billable(r, driver_id, watermark) && !before.contains(ride_day(r)) {
            let after = before.push(ride_day(r));
            assert(after.contains(day) <==> (before.contains(day) || ride_day(r) == day)) by {
                if before.contains(day) {
                    let k = choose|k: int| 0 <= k < before.len() && before[k] == day;
                    assert(after[k] == day);
                }
                if ride_day(r) == day {
                    assert(after[before.len() as int] == day);
                }
                if after.contains(day) {
                    let k = choose|k: int| 0 <= k < after.len() && after[k] == day;
                    if k < before.len() {
                        assert(before[k] == day);
                    }
                }
            }
        }
    }
}

proof fn lemma_billed_days_watermark_shift(
    b: Seq<CompletedRide>,
    driver_id: Seq<char>,
    w: i64,
    t: i64,
)
    requires
        w <= t,
        forall|j: int| 0 <= j < b.len() ==> b[j].ended_at > t,
    ensures
        billed_days(b, driver_id, t) == billed_days(b, driver_id, w),
    decreases b.len(),
{
    if b.len() > 0 {
        lemma_billed_days_watermark_shift(b.drop_last(), driver_id, w, t);
        assert(b.last() == b[b.len() - 1]);
    }
}

proof fn lemma_billed_days_skip_old(a: Seq<CompletedRide>, b: Seq<CompletedRide>,
    driver_id: Seq<char>, t: i64)
    requires
        forall|i: int| 0 <= i < a.len() ==> a[i].ended_at <= t,
    ensures
        billed_days(a + b, driver_id, t) == billed_days(b, driver_id, t),
    decreases b.len(),
{
    if b.len() == 0 {
        assert(a + b =~= a);
        lemma_no_days_when_all_old(a, driver_id, t);
    } else {
        assert((a + b).drop_last() =~= a + b.drop_last());
        assert((a + b).last() == b.last());
        lemma_billed_days_skip_old(a, b.drop_last(), driver_id, t);
    }
}

proof fn lemma_rides_on_concat(a: Seq<CompletedRide>, b: Seq<CompletedRide>, driver_id: Seq<char>,
    w: i64, day: i64)
    ensures
        rides_on(a + b, driver_id, w, day) == rides_on(a, driver_id, w, day) + rides_on(b,
            driver_id, w, day),
    decreases b.len(),
{
    if b.len() == 0 {
        assert(a + b =~= a);
    } else {
        assert((a + b).drop_last() =~= a + b.drop_last());
        assert((a + b).last() == b.last());
        lemma_rides_on_concat(a, b.drop_last(), driver_id, w, day);
    }
}

proof fn lemma_rides_on_zero(rides: Seq<CompletedRide>, driver_id: Seq<char>, w: i64, day: i64)
    requires
        !has_billable_on(rides, driver_id, w, day),
    ensures
        rides_on(rides, driver_id, w, day) == 0,
    decreases rides.len(),
{
    if rides.len() > 0 {
        let init = rides.drop_last();
        if has_billable_on(init, driver_id, w, day) {
            let i = choose|i: int| 0 <= i < init.len() && billable(init[i], driver_id, w)
                && #[trigger] ride_day(init[i]) == day;
            assert(rides[i] == init[i]);
        }
        lemma_rides_on_zero(init, driver_id, w, day);
        assert(rides.last() == rides[rides.len() - 1]);
    }
}

proof fn lemma_rides_on_watermark_shift(b: Seq<CompletedRide>, driver_id: Seq<char>, w: i64,
    t: i64, day: i64)
    requires
        w <= t,
        forall|j: int| 0 <= j < b.len() ==> b[j].ended_at > t,
    ensures
        rides_on(b, driver_id, t, day) == rides_on(b, driver_id, w, day),
    decreases b.len(),
{
    if b.len() > 0 {
        lemma_rides_on_watermark_shift(b.drop_last(), driver_id, w, t, day);
        assert(b.last() == b[b.len() - 1]);
    }
}

proof fn lemma_rides_on_old(a: Seq<CompletedRide>, driver_id: Seq<char>, t: i64, day: i64)
    requires
        forall|i: int| 0 <= i < a.len() ==> a[i].ended_at <= t,
    ensures
        rides_on(a, driver_id, t, day) == 0,
    decreases a.len(),
{
    if a.len() > 0 {
        lemma_rides_on_old(a.drop_last(), driver_id, t, day);
        assert(a.last() == a[a.len() - 1]);
    }
}

proof fn lemma_per_ride_charge_concat(
    plan: PlanTerms,
    d1: Seq<i64>,
    d2: Seq<i64>,
    rides: Seq<CompletedRide>,
    driver_id: Seq<char>,
    w: i64,
    last: Option<i64>,
    lr: u64,
)
    ensures
        per_ride_charge(plan, d1 + d2, rides, driver_id, w, last, lr) == per_ride_charge(
            plan,
            d1,
            rides,
            driver_id,
            w,
            last,
            lr,
        ) + per_ride_charge(plan, d2, rides, driver_id, w, last, lr),
    decreases d2.len(),
{
    if d2.len() == 0 {
        assert(d1 + d2 =~= d1);
    } else {
        assert((d1 + d2).drop_last() =~= d1 + d2.drop_last());
        assert((d1 + d2).last() == d2.last());
        lemma_per_ride_charge_concat(plan, d1, d2.drop_last(), rides, driver_id, w, last, lr);
    }
}

/// Law: splitting accrual into two runs counts every ride once. Splitting the
/// rides at `t` (the rides `a` ended by `t`, the rides `b` after it), on each
/// day the rides a run at `t` from watermark `w` counts, plus the rides a later
/// run from watermark `t` counts, are the rides a single run from `w` counts.
pub proof fn law_split_accrual_counts_each_ride_once(
    a: Seq<CompletedRide>,
    b: Seq<CompletedRide>,
    driver_id: Seq<char>,
    w: i64,
    t: i64,
    day: i64,
)
    requires
        w <= t,
        forall|i: int| 0 <= i < a.len() ==> a[i].ended_at <= t,
        forall|j: int| 0 <= j < b.len() ==> b[j].ended_at > t,
    ensures
        rides_on(a, driver_id, w, day) + rides_on(a + b, driver_id, t, day) == rides_on(
            a + b,
            driver_id,
            w,
            day,
        ),
{
    lemma_rides_on_concat(a, b, driver_id, t, day);
    lemma_rides_on_concat(a, b, driver_id, w, day);
    lemma_rides_on_old(a, driver_id, t, day);
    lemma_rides_on_watermark_shift(b, driver_id, w, t, day);
}

/// The days of `s` not among `t`, in order.
pub open spec fn days_not_in(s: Seq<i64>, t: Seq<i64>) -> Seq<i64>
    decreases s.len(),
{
    if s.len() == 0 {
        Seq::empty()
    } else {
        let rest = days_not_in(s.drop_last(), t);
        if t.contains(s.last()) {
            rest
        } else {
            rest.push(s.last())
        }
    }
}

proof fn lemma_push_contains(s: Seq<i64>, v: i64, x: i64)
    ensures
        s.push(v).contains(x) <==> (s.contains(x) || x == v),
{
    if s.contains(x) {
        let k = choose|k: int| 0 <= k < s.len() && s[k] == x;
        assert(s.push(v)[k] == x);
    }
    if x == v {
        assert(s.push(v)[s.len() as int] == x);
    }
    if s.push(v).contains(x) {
        let k = choose|k: int| 0 <= k < s.push(v).len() && s.push(v)[k] == x;
        if k < s.len() {
            assert(s[k] == x);
        }
    }
}

proof fn lemma_concat_contains(s: Seq<i64>, t: Seq<i64>, x: i64)
    ensures
        (s + t).contains(x) <==> (s.contains(x) || t.contains(x)),
{
    if s.contains(x) {
        let k = choose|k: int| 0 <= k < s.len() && s[k] == x;
        assert((s + t)[k] == x);
    }
    if t.contains(x) {
        let k = choose|k: int| 0 <= k < t.len() && t[k] == x;
        assert((s + t)[k + s.len()] == x);
    }
    if (s + t).contains(x) {
        let k = choose|k: int| 0 <= k < (s + t).len() && (s + t)[k] == x;
        if k < s.len() {
            assert(s[k] == x);
        } else {
            assert(t[k - s.len()] == x);
        }
    }
}

proof fn lemma_days_not_in_contains(s: Seq<i64>, t: Seq<i64>, x: i64)
    ensures
        days_not_in(s, t).contains(x) <==> (s.contains(x) && !t.contains(x)),
    decreases s.len(),
{
    if s.len() > 0 {
        let init = s.drop_last();
        lemma_days_not_in_contains(init, t, x);
        lemma_push_contains(init, s.last(), x);
        assert(init.push(s.last()) =~= s);
        if !t.contains(s.last()) {
            lemma_push_contains(days_not_in(init, t), s.last(), x);
        }
    }
}

proof fn lemma_billed_days_append(a: Seq<CompletedRide>, b: Seq<CompletedRide>, driver_id: Seq<char>, w: i64)
    ensures
        billed_days(a + b, driver_id, w) == billed_days(a, driver_id, w) + days_not_in(
            billed_days(b, driver_id, w),
            billed_days(a, driver_id, w),
        ),
    decreases b.len(),
{
    let da = billed_days(a, driver_id, w);
    if b.len() == 0 {
        assert(a + b =~= a);
        assert(da + days_not_in(billed_days(b, driver_id, w), da) =~= da);
    } else {
        let b0 = b.drop_last();
        let r = b.last();
        assert((a + b).drop_last() =~= a + b0);
        assert((a + b).last() == r);
        lemma_billed_days_append(a, b0, driver_id, w);
        let db0 = billed_days(b0, driver_id, w);
        let w0 = days_not_in(db0, da);
        if billable(r, driver_id, w) {
            let x = ride_day(r);
            lemma_concat_contains(da, w0, x);
            lemma_days_not_in_contains(db0, da, x);
            if !da.contains(x) && !db0.contains(x) {
                assert((da + w0).push(x) =~= da + w0.push(x));
                assert(db0.push(x).drop_last() =~= db0);
            } else if !db0.contains(x) {
                assert(db0.push(x).drop_last() =~= db0);
            }
        }
    }
}

proof fn lemma_fresh_concat(x: Seq<i64>, y: Seq<i64>, last: Option<i64>)
    ensures
        fresh_days(x + y, last) == fresh_days(x, last) + fresh_days(y, last),
    decreases y.len(),
{
    if y.len() == 0 {
        assert(x + y =~= x);
        assert(fresh_days(x, last) + fresh_days(y, last) =~= fresh_days(x, last));
    } else {
        assert((x + y).drop_last() =~= x + y.drop_last());
        assert((x + y).last() == y.last());
        lemma_fresh_concat(x, y.drop_last(), last);
        assert((fresh_days(x, last) + fresh_days(y.drop_last(), last)).push(y.last()) =~= fresh_days(
            x,
            last,
        ) + fresh_days(y.drop_last(), last).push(y.last()));
    }
}

proof fn lemma_fresh_without(db: Seq<i64>, da: Seq<i64>, last: Option<i64>, m: i64)
    requires
        forall|k: int|
            0 <= k < db.len() ==> ((!da.contains(#[trigger] db[k]) && is_fresh(last, db[k]))
                <==> db[k] > m),
    ensures
        fresh_days(days_not_in(db, da), last) == fresh_days(db, Some(m)),
    decreases db.len(),
{
    if db.len() > 0 {
        let init = db.drop_last();
        assert forall|k: int| 0 <= k < init.len() implies ((!da.contains(#[trigger] init[k])
            && is_fresh(last, init[k])) <==> init[k] > m) by {
            assert(init[k] == db[k]);
        }
        lemma_fresh_without(init, da, last, m);
        let x = db.last();
        assert(x == db[db.len() - 1]);
        assert(db.drop_last() == init);
        let r = days_not_in(init, da);
        assert(r.push(x).drop_last() =~= r);
        assert(fresh_days(init, Some(m)).push(x).drop_last() =~= fresh_days(init, Some(m)));
        assert(fresh_days(r, last).push(x).drop_last() =~= fresh_days(r, last));
    }
}

proof fn lemma_through_day(days: Seq<i64>, last: Option<i64>)
    ensures
        forall|k: int| 0 <= k < days.len() ==> #[trigger] days[k] <= through_day_of(days, last),
        last matches Some(l) ==> l <= through_day_of(days, last),
        days.len() > 0 || last is Some ==> (days.contains(through_day_of(days, last)) || last
            == Some(through_day_of(days, last))),
    decreases days.len(),
{
    if days.len() > 0 {
        let init = days.drop_last();
        lemma_through_day(init, last);
        assert forall|k: int| 0 <= k < days.len() implies #[trigger] days[k] <= through_day_of(
            days,
            last,
        ) by {
            if k < init.len() {
                assert(init[k] == days[k]);
            }
        }
        let t = through_day_of(days, last);
        assert(init == days.drop_last());
        if t == days.last() {
            assert(days[days.len() - 1] == t);
            assert(days.contains(t));
        } else {
            assert(t == through_day_of(init, last));
            if init.contains(t) {
                let k = choose|k: int| 0 <= k < init.len() && init[k] == t;
                assert(days[k] == t);
                assert(days.contains(t));
            }
        }
    }
}

proof fn lemma_fresh_len_bounded(days: Seq<i64>, last: Option<i64>, rides: Seq<CompletedRide>, driver_id: Seq<char>, w: i64)
    requires
        days == billed_days(rides, driver_id, w),
    ensures
        fresh_days(days, last).len() <= rides.len(),
{
    lemma_fresh_days_len(days, last);
    lemma_days_bounded(rides, driver_id, w);
}

/// The amount an accrual decision charges (nothing, unless it charges).
pub open spec fn charged(a: Accrual) -> int {
    match a {
        Accrual::Charge { charge, .. } => charge as int,
        _ => 0,
    }
}

/// The subscription after an accrual decision at `now` is applied.
pub open spec fn next_billing(sub: SubscriptionBilling, a: Accrual, now: i64) -> SubscriptionBilling {
    match a {
        Accrual::Charge { total_due, through_day, through_day_rides, .. } => after_charge(
            sub,
            total_due,
            through_day,
            through_day_rides,
            now,
        ),
        _ => sub,
    }
}

proof fn lemma_split_per_day_when_charging(
    p: PlanTerms,
    sub: SubscriptionBilling,
    driver_id: Seq<char>,
    a: Seq<CompletedRide>,
    b: Seq<CompletedRide>,
    t1: i64,
    t2: i64,
)
    requires
        p.billing_type == BillingType::PerDay,
        sub.watermark <= t1 <= t2,
        sub.plan_start <= t1,
        !on_free_trial(sub, t1),
        forall|i: int| 0 <= i < a.len() ==> a[i].ended_at <= t1,
        forall|j: int| 0 <= j < b.len() ==> t1 < b[j].ended_at,
        a.len() + b.len() <= usize::MAX,
    ensures
        ({
            let first = accrual_of(Some(p), sub, driver_id, a, t1);
            charged(first) + charged(
                accrual_of(Some(p), next_billing(sub, first, t1), driver_id, a + b, t2),
            ) == charged(accrual_of(Some(p), sub, driver_id, a + b, t2))
        }),
{
    let w = sub.watermark;
    let last = sub.last_charged_day;
    let da = billed_days(a, driver_id, w);
    let db = billed_days(b, driver_id, w);
    let dab = billed_days(a + b, driver_id, w);
    lemma_billed_days_append(a, b, driver_id, w);
    lemma_fresh_len_bounded(dab, last, a + b, driver_id, w);
    assert(-0x8000_0000_0000_0000 * 0xffff_ffff_ffff_ffff <= p.cost * fresh_days(dab, last).len()
        <= 0x8000_0000_0000_0000 * 0xffff_ffff_ffff_ffff) by (nonlinear_arith)
        requires
            i64::MIN <= p.cost <= i64::MAX,
            0 <= fresh_days(dab, last).len() <= 0xffff_ffff_ffff_ffff,
    ;
    if da.len() > 0 {
        let m = through_day_of(da, last);
        let sub2 = SubscriptionBilling {
            amount_due: Some((existing_due(sub) + charge_for(p, a, driver_id, w, last, sub.last_day_rides)) as i128),
            watermark: t1,
            last_charged_day: Some(m),
            last_day_rides: through_rides_of(a, driver_id, w, last, sub.last_day_rides, m),
            ..sub
        };
        lemma_billed_days_skip_old(a, b, driver_id, t1);
        lemma_billed_days_watermark_shift(b, driver_id, w, t1);
        assert(billed_days(a + b, driver_id, t1) == db);
        lemma_fresh_len_bounded(da, last, a, driver_id, w);
        assert(-0x8000_0000_0000_0000 * 0xffff_ffff_ffff_ffff <= p.cost * fresh_days(da, last).len()
            <= 0x8000_0000_0000_0000 * 0xffff_ffff_ffff_ffff) by (nonlinear_arith)
            requires
                i64::MIN <= p.cost <= i64::MAX,
                0 <= fresh_days(da, last).len() <= 0xffff_ffff_ffff_ffff,
        ;
        lemma_fresh_concat(da, days_not_in(db, da), last);
        lemma_through_day(da, last);
        assert forall|k: int| 0 <= k < db.len() implies ((!da.contains(#[trigger] db[k])
            && is_fresh(last, db[k])) <==> db[k] > m) by {
            let y = db[k];
            assert(db.contains(y));
            lemma_billed_days_contains(b, driver_id, w, y);
            let jb = choose|j: int| 0 <= j < b.len() && billable(b[j], driver_id, w) && #[trigger] ride_day(b[j]) == y;
            // Every billed day of `a` comes no later than `y`.
            assert forall|q: int| 0 <= q < da.len() implies #[trigger] da[q] <= y by {
                let x = da[q];
                assert(da.contains(x));
                lemma_billed_days_contains(a, driver_id, w, x);
                let ia = choose|i: int| 0 <= i < a.len() && billable(a[i], driver_id, w) && #[trigger] ride_day(a[i]) == x;
                vstd::arithmetic::div_mod::lemma_div_is_ordered(
                    a[ia].ended_at as int,
                    b[jb].ended_at as int,
                    DAY_MS as int,
                );
            }
            if da.contains(m) {
                let q = choose|q: int| 0 <= q < da.len() && da[q] == m;
                assert(m <= y);
            }
            if da.contains(y) {
                let q = choose|q: int| 0 <= q < da.len() && da[q] == y;
                assert(y <= m);
            }
        }
        lemma_fresh_without(db, da, last, m);
        lemma_fresh_len_bounded(db, Some(m), b, driver_id, w);
        assert(-0x8000_0000_0000_0000 * 0xffff_ffff_ffff_ffff <= p.cost * fresh_days(db, Some(m)).len()
            <= 0x8000_0000_0000_0000 * 0xffff_ffff_ffff_ffff) by (nonlinear_arith)
            requires
                i64::MIN <= p.cost <= i64::MAX,
                0 <= fresh_days(db, Some(m)).len() <= 0xffff_ffff_ffff_ffff,
        ;
        assert(p.cost * (fresh_days(da, last).len() + fresh_days(db, Some(m)).len()) == p.cost
            * fresh_days(da, last).len() + p.cost * fresh_days(db, Some(m)).len()) by (nonlinear_arith);
        if db.len() == 0 {
            assert(days_not_in(db, da) =~= Seq::<i64>::empty());
            assert(dab =~= da);
        }
    } else {
        assert(dab == days_not_in(db, da));
        assert(days_not_in(db, da) == db) by {
            lemma_days_not_in_empty(db, da);
        }
    }
}

/// Law: on a per-day plan, splitting accrual into two runs charges each
/// ride-day once, and no ride-day is lost. A run at `t1` over the rides that
/// ended by then (`a`), followed by a run at `t2` over all the rides (the
/// rides `b` ended after `t1`), charges together exactly what a single run at
/// `t2` charges — also when a day has rides on both sides of `t1`, and whether
/// or not the first run charges at all.
pub proof fn law_split_accrual_bills_each_day_once(
    p: PlanTerms,
    sub: SubscriptionBilling,
    driver_id: Seq<char>,
    a: Seq<CompletedRide>,
    b: Seq<CompletedRide>,
    t1: i64,
    t2: i64,
)
    requires
        p.billing_type == BillingType::PerDay,
        sub.watermark <= t1 <= t2,
        forall|i: int| 0 <= i < a.len() ==> a[i].ended_at <= t1,
        forall|j: int| 0 <= j < b.len() ==> t1 < b[j].ended_at,
        a.len() + b.len() <= usize::MAX,
    ensures
        ({
            let first = accrual_of(Some(p), sub, driver_id, a, t1);
            charged(first) + charged(
                accrual_of(Some(p), next_billing(sub, first, t1), driver_id, a + b, t2),
            ) == charged(accrual_of(Some(p), sub, driver_id, a + b, t2))
        }),
{
    if sub.plan_start <= t1 && !on_free_trial(sub, t1) {
        lemma_split_per_day_when_charging(p, sub, driver_id, a, b, t1, t2);
    }
}

proof fn lemma_per_ride_delta(
    plan: PlanTerms,
    s: Seq<i64>,
    driver_id: Seq<char>,
    r1: Seq<CompletedRide>,
    w1: i64,
    l1: Option<i64>,
    p1: u64,
    r2: Seq<CompletedRide>,
    w2: i64,
    l2: Option<i64>,
    p2: u64,
    x: i64,
)
    requires
        s.no_duplicates(),
        forall|k: int|
            0 <= k < s.len() && s[k] != x ==> day_term(plan, r1, driver_id, w1, l1, p1, #[trigger] s[k])
                == day_term(plan, r2, driver_id, w2, l2, p2, s[k]),
    ensures
        per_ride_charge(plan, s, r2, driver_id, w2, l2, p2) == per_ride_charge(
            plan,
            s,
            r1,
            driver_id,
            w1,
            l1,
            p1,
        ) + if s.contains(x) {
            day_term(plan, r2, driver_id, w2, l2, p2, x) - day_term(plan, r1, driver_id, w1, l1, p1, x)
        } else {
            0
        },
    decreases s.len(),
{
    if s.len() > 0 {
        let init = s.drop_last();
        assert forall|k: int|
            0 <= k < init.len() && init[k] != x implies day_term(plan, r1, driver_id, w1, l1, p1,
            #[trigger] init[k]) == day_term(plan, r2, driver_id, w2, l2, p2, init[k]) by {
            assert(init[k] == s[k]);
        }
        assert(init.no_duplicates()) by {
            assert forall|i: int, j: int| 0 <= i < init.len() && 0 <= j < init.len() && i != j
                implies init[i] != init[j] by {
                assert(init[i] == s[i] && init[j] == s[j]);
            }
        }
        lemma_per_ride_delta(plan, init, driver_id, r1, w1, l1, p1, r2, w2, l2, p2, x);
        assert(s.last() == s[s.len() - 1]);
        if s.last() == x {
            if init.contains(x) {
                let k = choose|k: int| 0 <= k < init.len() && init[k] == x;
                assert(s[k] == s[s.len() - 1]);
            }
            assert(s.contains(x));
        } else {
            assert(s.contains(x) == init.contains(x)) by {
                if s.contains(x) {
                    let k = choose|k: int| 0 <= k < s.len() && s[k] == x;
                    assert(k < s.len() - 1);
                    assert(init[k] == x);
                }
                if init.contains(x) {
                    let k = choose|k: int| 0 <= k < init.len() && init[k] == x;
                    assert(s[k] == x);
                }
            }
        }
    }
}

proof fn lemma_per_ride_without(
    plan: PlanTerms,
    s: Seq<i64>,
    t: Seq<i64>,
    driver_id: Seq<char>,
    r1: Seq<CompletedRide>,
    w1: i64,
    l1: Option<i64>,
    p1: u64,
    r2: Seq<CompletedRide>,
    w2: i64,
    l2: Option<i64>,
    p2: u64,
    x: i64,
)
    requires
        s.no_duplicates(),
        forall|k: int| 0 <= k < s.len() && t.contains(#[trigger] s[k]) ==> s[k] == x,
        forall|k: int|
            0 <= k < s.len() && !t.contains(#[trigger] s[k]) ==> day_term(plan, r1, driver_id, w1,
                l1, p1, s[k]) == day_term(plan, r2, driver_id, w2, l2, p2, s[k]),
    ensures
        per_ride_charge(plan, s, r1, driver_id, w1, l1, p1) == (if s.contains(x) && t.contains(x) {
            day_term(plan, r1, driver_id, w1, l1, p1, x)
        } else {
            0
        }) + per_ride_charge(plan, days_not_in(s, t), r2, driver_id, w2, l2, p2),
    decreases s.len(),
{
    if s.len() > 0 {
        let init = s.drop_last();
        let y = s.last();
        assert(y == s[s.len() - 1]);
        assert forall|k: int| 0 <= k < init.len() && t.contains(#[trigger] init[k]) implies init[k]
            == x by {
            assert(init[k] == s[k]);
        }
        assert forall|k: int|
            0 <= k < init.len() && !t.contains(#[trigger] init[k]) implies day_term(plan, r1,
            driver_id, w1, l1, p1, init[k]) == day_term(plan, r2, driver_id, w2, l2, p2, init[k]) by {
            assert(init[k] == s[k]);
        }
        assert(init.no_duplicates()) by {
            assert forall|i: int, j: int| 0 <= i < init.len() && 0 <= j < init.len() && i != j
                implies init[i] != init[j] by {
                assert(init[i] == s[i] && init[j] == s[j]);
            }
        }
        lemma_per_ride_without(plan, init, t, driver_id, r1, w1, l1, p1, r2, w2, l2, p2, x);
        let rest = days_not_in(init, t);
        assert(days_not_in(s, t) == if t.contains(y) { rest } else { rest.push(y) });
        if !t.contains(y) {
            assert(rest.push(y).drop_last() =~= rest);
        }
        if t.contains(y) {
            assert(y == x);
            assert(s.contains(x));
            assert(!init.contains(x)) by {
                if init.contains(x) {
                    let k = choose|k: int| 0 <= k < init.len() && init[k] == x;
                    assert(s[k] == s[s.len() - 1]);
                }
            }
        } else {
            assert((s.contains(x) && t.contains(x)) == (init.contains(x) && t.contains(x))) by {
                if s.contains(x) && t.contains(x) {
                    let k = choose|k: int| 0 <= k < s.len() && s[k] == x;
                    assert(k < s.len() - 1);
                    assert(init[k] == x);
                }
                if init.contains(x) {
                    let k = choose|k: int| 0 <= k < init.len() && init[k] == x;
                    assert(s[k] == x);
                }
            }
        }
    }
}

proof fn lemma_day_charge_saturates(plan: PlanTerms, u: int, v: int)
    requires
        u >= i64::MAX,
        v >= i64::MAX,
    ensures
        day_charge(plan, u) == day_charge(plan, v),
{
}

/// The day a ride ending at instant `t` falls on.
pub open spec fn day_of_instant(t: i64) -> int {
    t as int / DAY_MS as int
}

/// Whether the last charged day is no later than the day of the watermark, as
/// accrual leaves it: every ride still to be billed falls on that day or later.
pub open spec fn last_day_behind_watermark(sub: SubscriptionBilling) -> bool {
    sub.last_charged_day matches Some(l) ==> l <= day_of_instant(sub.watermark)
}

proof fn lemma_ride_days_ordered(a: Seq<CompletedRide>, b: Seq<CompletedRide>, t: i64, i: int, j: int)
    requires
        0 <= i < a.len(),
        0 <= j < b.len(),
        a[i].ended_at <= t,
        t < b[j].ended_at,
    ensures
        ride_day(a[i]) <= ride_day(b[j]),
{
    vstd::arithmetic::div_mod::lemma_div_is_ordered(
        a[i].ended_at as int,
        b[j].ended_at as int,
        DAY_MS as int,
    );
}

proof fn lemma_split_per_ride_when_charging(
    p: PlanTerms,
    sub: SubscriptionBilling,
    driver_id: Seq<char>,
    a: Seq<CompletedRide>,
    b: Seq<CompletedRide>,
    t1: i64,
    t2: i64,
)
    requires
        p.billing_type == BillingType::PerRide,
        sub.watermark <= t1 <= t2,
        sub.plan_start <= t1,
        !on_free_trial(sub, t1),
        forall|i: int| 0 <= i < a.len() ==> a[i].ended_at <= t1,
        forall|j: int| 0 <= j < b.len() ==> t1 < b[j].ended_at,
        last_day_behind_watermark(sub),
        accrual_in_range(Some(p), sub, driver_id, a, t1),
        accrual_in_range(
            Some(p),
            next_billing(sub, accrual_of(Some(p), sub, driver_id, a, t1), t1),
            driver_id,
            a + b,
            t2,
        ),
        accrual_in_range(Some(p), sub, driver_id, a + b, t2),
    ensures
        ({
            let first = accrual_of(Some(p), sub, driver_id, a, t1);
            charged(first) + charged(
                accrual_of(Some(p), next_billing(sub, first, t1), driver_id, a + b, t2),
            ) == charged(accrual_of(Some(p), sub, driver_id, a + b, t2))
        }),
{
    let w = sub.watermark;
    let last = sub.last_charged_day;
    let lr = sub.last_day_rides;
    let da = billed_days(a, driver_id, w);
    let db = billed_days(b, driver_id, w);
    let dab = billed_days(a + b, driver_id, w);
    let dnd = days_not_in(db, da);
    lemma_billed_days_append(a, b, driver_id, w);
    lemma_billed_days_skip_old(a, b, driver_id, t1);
    lemma_billed_days_watermark_shift(b, driver_id, w, t1);
    assert(billed_days(a + b, driver_id, t1) == db);
    lemma_days_bounded(a, driver_id, w);
    lemma_days_bounded(b, driver_id, w);
    lemma_days_bounded(a + b, driver_id, w);
    // Rides per day of the three runs.
    assert forall|d: i64| #[trigger] rides_on(a + b, driver_id, t1, d) == rides_on(b, driver_id, w, d)
        && rides_on(a + b, driver_id, w, d) == rides_on(a, driver_id, w, d) + rides_on(b, driver_id, w, d) by {
        lemma_rides_on_concat(a, b, driver_id, t1, d);
        lemma_rides_on_concat(a, b, driver_id, w, d);
        lemma_rides_on_old(a, driver_id, t1, d);
        lemma_rides_on_watermark_shift(b, driver_id, w, t1, d);
    }
    // Days of `a` come no later than days of `b`, and none before the last charged day.
    assert forall|x: i64, y: i64| da.contains(x) && db.contains(y) implies x <= y by {
        lemma_billed_days_contains(a, driver_id, w, x);
        lemma_billed_days_contains(b, driver_id, w, y);
        let i = choose|i: int| 0 <= i < a.len() && billable(a[i], driver_id, w) && #[trigger] ride_day(a[i]) == x;
        let j = choose|j: int| 0 <= j < b.len() && billable(b[j], driver_id, w) && #[trigger] ride_day(b[j]) == y;
        lemma_ride_days_ordered(a, b, t1, i, j);
    }
    assert forall|x: i64| da.contains(x) implies (last matches Some(l) ==> l <= x) by {
        lemma_billed_days_contains(a, driver_id, w, x);
        let i = choose|i: int| 0 <= i < a.len() && billable(a[i], driver_id, w) && #[trigger] ride_day(a[i]) == x;
        vstd::arithmetic::div_mod::lemma_div_is_ordered(w as int, a[i].ended_at as int, DAY_MS as int);
    }
    assert forall|x: i64| !da.contains(x) implies rides_on(a, driver_id, w, x) == 0 by {
        lemma_billed_days_contains(a, driver_id, w, x);
        lemma_rides_on_zero(a, driver_id, w, x);
    }
    assert forall|x: i64| !db.contains(x) implies rides_on(b, driver_id, w, x) == 0 by {
        lemma_billed_days_contains(b, driver_id, w, x);
        lemma_rides_on_zero(b, driver_id, w, x);
    }
    if da.len() > 0 {
        let m = through_day_of(da, last);
        lemma_through_day(da, last);
        assert(da.contains(m)) by {
            if !da.contains(m) {
                assert(da.contains(da[0]));
                assert(da[0] <= m);
                assert(last == Some(m));
                assert(m <= da[0]);
            }
        }
        let lr2 = through_rides_of(a, driver_id, w, last, lr, m);
        let f1 = per_ride_charge(p, da, a, driver_id, w, last, lr);
        let r2 = per_ride_charge(p, db, a + b, driver_id, t1, Some(m), lr2);
        let s_da = per_ride_charge(p, da, a + b, driver_id, w, last, lr);
        let s_dnd = per_ride_charge(p, dnd, a + b, driver_id, w, last, lr);
        lemma_per_ride_charge_concat(p, da, dnd, a + b, driver_id, w, last, lr);
        // The first run's days: only `m` can gain rides of `b`.
        assert forall|k: int| 0 <= k < da.len() && da[k] != m implies day_term(p, a, driver_id, w,
            last, lr, #[trigger] da[k]) == day_term(p, a + b, driver_id, w, last, lr, da[k]) by {
            let x = da[k];
            assert(da.contains(x));
            assert(x <= m);
            if db.contains(x) {
                assert(m <= x);
            }
            assert(rides_on(b, driver_id, w, x) == 0);
            lemma_rides_on_concat(a, b, driver_id, w, x);
        }
        lemma_per_ride_delta(p, da, driver_id, a, w, last, lr, a + b, w, last, lr, m);
        // The second run's days: those not charged by the first are charged alike.
        assert forall|k: int| 0 <= k < db.len() && da.contains(#[trigger] db[k]) implies db[k] == m by {
            let y = db[k];
            assert(db.contains(y));
            assert(y <= m);
            assert(m <= y);
        }
        assert forall|k: int| 0 <= k < db.len() && !da.contains(#[trigger] db[k]) implies day_term(p,
            a + b, driver_id, t1, Some(m), lr2, db[k]) == day_term(p, a + b, driver_id, w, last, lr,
            db[k]) by {
            let y = db[k];
            assert(db.contains(y));
            assert(m <= y);
            assert(y != m);
            assert(rides_on(a, driver_id, w, y) == 0);
            lemma_rides_on_concat(a, b, driver_id, w, y);
            assert(rides_on(a + b, driver_id, t1, y) == rides_on(b, driver_id, w, y));
        }
        lemma_per_ride_without(p, db, da, driver_id, a + b, t1, Some(m), lr2, a + b, w, last, lr, m);
        // The shared day telescopes.
        let na = rides_on(a, driver_id, w, m) as int;
        let nb = rides_on(b, driver_id, w, m) as int;
        let cb = counted_before(last, lr, m);
        assert(rides_on(a + b, driver_id, t1, m) == nb);
        assert(rides_on(a + b, driver_id, w, m) == na + nb);
        if db.contains(m) {
            if na + cb > u64::MAX {
                lemma_day_charge_saturates(p, lr2 + nb, na + cb + nb);
                lemma_day_charge_saturates(p, lr2 as int, na + cb);
            }
            assert(day_term(p, a + b, driver_id, t1, Some(m), lr2, m) == day_term(p, a + b,
                driver_id, w, last, lr, m) - day_term(p, a, driver_id, w, last, lr, m));
        } else {
            assert(nb == 0);
        }
        assert(f1 + r2 == s_da + s_dnd);
        // The decisions of the three runs.
        assert(da.take(da.len() as int) =~= da);
        assert(dab.take(dab.len() as int) =~= dab);
        assert(i128::MIN <= per_ride_charge(p, da.take(da.len() as int), a, driver_id, w, last, lr)
            <= i128::MAX);
        assert(i128::MIN <= per_ride_charge(p, dab.take(dab.len() as int), a + b, driver_id, w,
            last, lr) <= i128::MAX);
        let first = accrual_of(Some(p), sub, driver_id, a, t1);
        assert(charged(first) == f1);
        let sub2 = next_billing(sub, first, t1);
        assert(sub2.watermark == t1 && sub2.last_charged_day == Some(m) && sub2.last_day_rides == lr2);
        if db.len() > 0 {
            assert(db.take(db.len() as int) =~= db);
            assert(i128::MIN <= per_ride_charge(p, db.take(db.len() as int), a + b, driver_id, t1,
                Some(m), lr2) <= i128::MAX);
        } else {
            assert(r2 == 0);
        }
    } else {
        assert(dab =~= dnd);
        assert(dnd == db) by {
            lemma_days_not_in_empty(db, da);
        }
    }
}

/// Law: on a per-ride plan, splitting accrual into two runs charges exactly
/// what one run charges: each ride is counted once and each day's caps apply
/// once, also when a day has rides on both sides of the split. A run at `t1`
/// over the rides that ended by then (`a`), followed by a run at `t2` over all
/// the rides (the rides `b` ended after `t1`), charges together what a single
/// run at `t2` charges, for a subscription whose last charged day is behind its
/// watermark and when each run computes within range.
pub proof fn law_split_per_ride_accrual_caps_each_day_once(
    p: PlanTerms,
    sub: SubscriptionBilling,
    driver_id: Seq<char>,
    a: Seq<CompletedRide>,
    b: Seq<CompletedRide>,
    t1: i64,
    t2: i64,
)
    requires
        p.billing_type == BillingType::PerRide,
        sub.watermark <= t1 <= t2,
        forall|i: int| 0 <= i < a.len() ==> a[i].ended_at <= t1,
        forall|j: int| 0 <= j < b.len() ==> t1 < b[j].ended_at,
        last_day_behind_watermark(sub),
        accrual_in_range(Some(p), sub, driver_id, a, t1),
        accrual_in_range(
            Some(p),
            next_billing(sub, accrual_of(Some(p), sub, driver_id, a, t1), t1),
            driver_id,
            a + b,
            t2,
        ),
        accrual_in_range(Some(p), sub, driver_id, a + b, t2),
    ensures
        ({
            let first = accrual_of(Some(p), sub, driver_id, a, t1);
            charged(first) + charged(
                accrual_of(Some(p), next_billing(sub, first, t1), driver_id, a + b, t2),
            ) == charged(accrual_of(Some(p), sub, driver_id, a + b, t2))
        }),
{
    if sub.plan_start <= t1 && !on_free_trial(sub, t1) {
        lemma_split_per_ride_when_charging(p, sub, driver_id, a, b, t1, t2);
    }
}

/// Law: accrual keeps the last charged day behind the watermark. A run at
/// `now` over rides that ended by then, on a subscription whose last charged
/// day is behind its watermark (not after `now`), leaves it so.
pub proof fn law_accrual_keeps_last_day_behind_watermark(
    plan: Option<PlanTerms>,
    sub: SubscriptionBilling,
    driver_id: Seq<char>,
    rides: Seq<CompletedRide>,
    now: i64,
)
    requires
        last_day_behind_watermark(sub),
        sub.watermark <= now,
        forall|i: int| 0 <= i < rides.len() ==> rides[i].ended_at <= now,
    ensures
        last_day_behind_watermark(
            next_billing(sub, accrual_of(plan, sub, driver_id, rides, now), now),
        ),
{
    let days = billed_days(rides, driver_id, sub.watermark);
    vstd::arithmetic::div_mod::lemma_div_is_ordered(sub.watermark as int, now as int, DAY_MS as int);
    lemma_through_day(days, sub.last_charged_day);
    assert forall|x: i64| days.contains(x) implies x <= day_of_instant(now) by {
        lemma_billed_days_contains(rides, driver_id, sub.watermark, x);
        let i = choose|i: int|
            0 <= i < rides.len() && billable(rides[i], driver_id, sub.watermark)
                && #[trigger] ride_day(rides[i]) == x;
        vstd::arithmetic::div_mod::lemma_div_is_ordered(rides[i].ended_at as int, now as int, DAY_MS as int);
    }
    if days.len() > 0 {
        let m = through_day_of(days, sub.last_charged_day);
        if days.contains(m) {
            assert(m <= day_of_instant(now));
        }
    }
}

proof fn lemma_days_not_in_empty(s: Seq<i64>, t: Seq<i64>)
    requires
        t.len() == 0,
    ensures
        days_not_in(s, t) == s,
    decreases s.len(),
{
    if s.len() > 0 {
        lemma_days_not_in_empty(s.drop_last(), t);
        assert(s.drop_last().push(s.last()) =~= s);
    }
}

} // verus!
