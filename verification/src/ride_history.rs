//! A rider's ride history, grouped by calendar month, newest month first.
//!
//! Amounts are in minor currency units (cents).
use vstd::prelude::*;
use vstd::string::*;

use crate::text::{eq_ignore_ascii_case, lower, signed_decimal, signed_decimal_string};

verus! {

/// When a ride started: the calendar year and month it started in, and the
/// instant itself in milliseconds since the Unix epoch.
#[derive(Clone, Copy, Debug, PartialEq, Eq, Structural)]
pub struct RideStart {
    pub year: i32,
    pub month: u32,
    pub unix_ms: i64,
}

/// One ride of the rider, as the history query returns it (newest first).
pub struct RideRow {
    pub ride_id: String,
    pub driver_id: String,
    pub status: String,
    /// The fare, in cents; `None` when no fare was recorded.
    pub amount: Option<i64>,
    pub started_at: RideStart,
    pub destination_name: String,
    pub has_rated_driver: bool,
}

/// One ride in a month group.
pub struct RideHistorySummary {
    pub ride_id: String,
    pub driver_id: String,
    /// Best available drop-off place name.
    pub destination_name: String,
    pub status: String,
    /// The fare, in cents; `None` for rides with no recorded fare.
    pub amount: Option<i64>,
    pub started_at: RideStart,
    /// Whether the rider has rated the driver for this ride.
    pub has_rated_driver: bool,
}

/// The rides of one calendar month.
pub struct RideHistoryGroup {
    /// Human-readable month label, e.g. "January 2026".
    pub label: String,
    /// Sum of the fares of the completed rides in this month, in cents;
    /// `None` when no ride of the month is completed.
    pub total_spent: Option<i128>,
    pub rides: Vec<RideHistorySummary>,
}

/// A calendar month, as (year, month).
pub type MonthKey = (i32, u32);

/// The month a ride started in.
pub open spec fn month_of(r: RideRow) -> MonthKey {
    (r.started_at.year, r.started_at.month)
}

/// Whether month `a` comes after month `b`.
pub open spec fn later(a: MonthKey, b: MonthKey) -> bool {
    a.0 > b.0 || (a.0 == b.0 && a.1 > b.1)
}

/// Whether some ride started in month `k`.
pub open spec fn has_month(rows: Seq<RideRow>, k: MonthKey) -> bool {
    exists|i: int| 0 <= i < rows.len() && month_of(rows[i]) == k
}

/// The rides that started in month `k`, in their original order.
pub open spec fn month_rows(rows: Seq<RideRow>, k: MonthKey) -> Seq<RideRow>
    decreases rows.len(),
{
    if rows.len() == 0 {
        Seq::empty()
    } else {
        let before = month_rows(rows.drop_last(), k);
        if month_of(rows.last()) == k {
            before.push(rows.last())
        } else {
            before
        }
    }
}

/// Whether a ride counts as completed (status "Completed", ignoring ASCII case).
pub open spec fn is_completed(r: RideRow) -> bool {
    lower(r.status@) == lower("Completed"@)
}

/// Whether some ride is completed.
pub open spec fn any_completed(rows: Seq<RideRow>) -> bool {
    exists|i: int| 0 <= i < rows.len() && is_completed(rows[i])
}

/// The sum of the recorded fares of the completed rides.
pub open spec fn completed_total(rows: Seq<RideRow>) -> int
    decreases rows.len(),
{
    if rows.len() == 0 {
        0
    } else {
        completed_total(rows.drop_last()) + if is_completed(rows.last()) {
            match rows.last().amount {
                Some(a) => a as int,
                None => 0,
            }
        } else {
            0
        }
    }
}

/// A ride as it appears in its month group.
pub open spec fn summary_of(r: RideRow) -> RideHistorySummary {
    RideHistorySummary {
        ride_id: r.ride_id,
        driver_id: r.driver_id,
        destination_name: r.destination_name,
        status: r.status,
        amount: r.amount,
        started_at: r.started_at,
        has_rated_driver: r.has_rated_driver,
    }
}

/// The English name of a month (1 = January), or "Unknown".
pub open spec fn month_name_of(month: u32) -> Seq<char> {
    if month == 1 {
        "January"@
    } else if month == 2 {
        "February"@
    } else if month == 3 {
        "March"@
    } else if month == 4 {
        "April"@
    } else if month == 5 {
        "May"@
    } else if month == 6 {
        "June"@
    } else if month == 7 {
        "July"@
    } else if month == 8 {
        "August"@
    } else if month == 9 {
        "September"@
    } else if month == 10 {
        "October"@
    } else if month == 11 {
        "November"@
    } else if month == 12 {
        "December"@
    } else {
        "Unknown"@
    }
}

/// The label of a month group: month name, a space, and the year.
pub open spec fn month_label(k: MonthKey) -> Seq<char> {
    month_name_of(k.1) + " "@ + signed_decimal(k.0 as int)
}

/// Whether `g` is the group of month `k` of `rows`.
pub open spec fn is_group_of(g: RideHistoryGroup, rows: Seq<RideRow>, k: MonthKey) -> bool {
    let in_month = month_rows(rows, k);
    &&& g.label@ == month_label(k)
    &&& g.rides@ == in_month.map_values(|r: RideRow| summary_of(r))
    &&& g.total_spent == if any_completed(in_month) {
        Some(completed_total(in_month) as i128)
    } else {
        None
    }
}

/// Whether `groups` are the month groups of `rows`: one per month that has a
/// ride, newest month first.
pub open spec fn grouped_by_month(rows: Seq<RideRow>, groups: Seq<RideHistoryGroup>) -> bool {
    exists|ks: Seq<MonthKey>|
        {
            &&& ks.len() == groups.len()
            &&& forall|i: int, j: int| 0 <= i < j < ks.len() ==> later(ks[i], ks[j])
            &&& forall|k: MonthKey| #[trigger] has_month(rows, k) <==> ks.contains(k)
            &&& forall|i: int| 0 <= i < ks.len() ==> is_group_of(groups[i], rows, ks[i])
        }
}

/// Law: the twelve months have twelve different names, in calendar order
/// from January to December.
pub proof fn law_month_names(a: u32, b: u32)
    requires
        1 <= a <= 12,
        1 <= b <= 12,
    ensures
        a != b ==> month_name_of(a) != month_name_of(b),
        month_name_of(a) == seq![
            "January"@, "February"@, "March"@, "April"@, "May"@, "June"@, "July"@,
            "August"@, "September"@, "October"@, "November"@, "December"@,
        ][a - 1],
{
    reveal_strlit("January");
    reveal_strlit("February");
    reveal_strlit("March");
    reveal_strlit("April");
    reveal_strlit("May");
    reveal_strlit("June");
    reveal_strlit("July");
    reveal_strlit("August");
    reveal_strlit("September");
    reveal_strlit("October");
    reveal_strlit("November");
    reveal_strlit("December");
    if a != b {
        let x = month_name_of(a);
        let y = month_name_of(b);
        if x.len() == y.len() {
            if x[0] == y[0] {
                if x.len() > 2 && x[2] == y[2] {
                    assert(x[1] != y[1]);
                } else if x.len() > 2 {
                    assert(x[2] != y[2]);
                }
            }
        }
    }
}

/// English name of a calendar month (1 = January), or "Unknown" outside 1..=12.
pub fn month_name(month: u32) -> (name: &'static str)
    ensures
        name@ == month_name_of(month),
{
    match month {
        1 => "January",
        2 => "February",
        3 => "March",
        4 => "April",
        5 => "May",
        6 => "June",
        7 => "July",
        8 => "August",
        9 => "September",
        10 => "October",
        11 => "November",
        12 => "December",
        _ => "Unknown",
    }
}

fn is_later(a: MonthKey, b: MonthKey) -> (r: bool)
    ensures
        r == later(a, b),
{
    a.0 > b.0 || (a.0 == b.0 && a.1 > b.1)
}

fn same_month(a: MonthKey, b: MonthKey) -> (r: bool)
    ensures
        r == (a == b),
{
    a.0 == b.0 && a.1 == b.1
}

fn month_of_row(r: &RideRow) -> (k: MonthKey)
    ensures
        k == month_of(*r),
{
    (r.started_at.year, r.started_at.month)
}

/// The distinct months the rides started in.
fn distinct_months(rows: &Vec<RideRow>) -> (ks: Vec<MonthKey>)
    ensures
        ks@.no_duplicates(),
        forall|k: MonthKey| #[trigger] has_month(rows@, k) <==> ks@.contains(k),
{
    let mut ks: Vec<MonthKey> = Vec::new();
    let mut i: usize = 0;
    while i < rows.len()
        invariant
            i <= rows@.len(),
            ks@.no_duplicates(),
            forall|k: MonthKey|
                (exists|j: int| 0 <= j < i && month_of(rows@[j]) == k) <==> ks@.contains(k),
        decreases rows@.len() - i,
    {
        let k = month_of_row(&rows[i]);
        let mut seen = false;
        let mut j: usize = 0;
        while j < ks.len()
            invariant
                j <= ks@.len(),
                seen <==> exists|m: int| 0 <= m < j && ks@[m] == k,
            decreases ks@.len() - j,
        {
            if same_month(ks[j], k) {
                seen = true;
            }
            j = j + 1;
        }
        let ghost before = ks@;
        if !seen {
            ks.push(k);
            proof {
                assert forall|a: int, b: int|
                    0 <= a < ks@.len() && 0 <= b < ks@.len() && a != b implies ks@[a]
                    != ks@[b] by {
                    if a == before.len() as int {
                        assert(before.contains(ks@[b]));
                    } else if b == before.len() as int {
                        assert(before.contains(ks@[a]));
                    }
                }
            }
        }
        proof {
            assert forall|x: MonthKey|
                (exists|j: int| 0 <= j < i + 1 && month_of(rows@[j]) == x) <==> ks@.contains(x) by {
                if ks@.contains(x) && !before.contains(x) {
                    assert(x == k);
                    assert(month_of(rows@[i as int]) == x);
                }
                if before.contains(x) {
                    let p = choose|p: int| 0 <= p < before.len() && before[p] == x;
                    assert(ks@[p] == x);
                }
                if x == k {
                    if !seen {
                        assert(ks@[ks@.len() - 1] == x);
                    }
                }
            }
        }
        i = i + 1;
    }
    proof {
        assert forall|k: MonthKey| #[trigger] has_month(rows@, k) <==> ks@.contains(k) by {
            if has_month(rows@, k) {
                let j = choose|j: int| 0 <= j < rows@.len() && month_of(rows@[j]) == k;
                assert(exists|j: int| 0 <= j < rows@.len() && month_of(rows@[j]) == k);
            }
        }
    }
    ks
}

fn copy_summary(r: &RideRow) -> (s: RideHistorySummary)
    ensures
        s == summary_of(*r),
{
    RideHistorySummary {
        ride_id: r.ride_id.clone(),
        driver_id: r.driver_id.clone(),
        destination_name: r.destination_name.clone(),
        status: r.status.clone(),
        amount: r.amount,
        started_at: r.started_at,
        has_rated_driver: r.has_rated_driver,
    }
}

/// The month group of month `k`.
fn build_group(rows: &Vec<RideRow>, k: MonthKey) -> (g: RideHistoryGroup)
    requires
        rows@.len() < 0x8000_0000_0000_0000,
    ensures
        is_group_of(g, rows@, k),
{
    let mut rides: Vec<RideHistorySummary> = Vec::new();
    let mut any = false;
    let mut total: i128 = 0;
    let mut i: usize = 0;
    while i < rows.len()
        invariant
            i <= rows@.len() < 0x8000_0000_0000_0000,
            rides@ == month_rows(rows@.take(i as int), k).map_values(|r: RideRow| summary_of(r)),
            any == any_completed(month_rows(rows@.take(i as int), k)),
            total == completed_total(month_rows(rows@.take(i as int), k)),
            -(i as int) * 0x8000_0000_0000_0000 <= total <= (i as int) * 0x8000_0000_0000_0000,
        decreases rows@.len() - i,
    {
        let r = &rows[i];
        let ghost prefix = rows@.take(i as int);
        let ghost next = rows@.take(i + 1);
        proof {
            assert(next.drop_last() =~= prefix);
            assert(next.last() == *r);
        }
        if same_month(month_of_row(r), k) {
            let ghost old_rides = rides@;
            rides.push(copy_summary(r));
            proof {
                assert(month_rows(next, k) == month_rows(prefix, k).push(*r));
                assert(rides@ =~= month_rows(next, k).map_values(|x: RideRow| summary_of(x)));
            }
            if eq_ignore_ascii_case(r.status.as_str(), "Completed") {
                any = true;
                match r.amount {
                    Some(a) => {
                        total = total + a as i128;
                    },
                    None => {},
                }
            }
            proof {
                let ghost m = month_rows(next, k);
                assert(m.drop_last() =~= month_rows(prefix, k));
                if is_completed(*r) {
                    assert(m[m.len() - 1] == *r);
                }
                assert(any_completed(m) == (any_completed(month_rows(prefix, k)) || is_completed(
                    *r,
                ))) by {
                    if any_completed(m) && !is_completed(*r) {
                        let j = choose|j: int| 0 <= j < m.len() && is_completed(m[j]);
                        assert(j < m.len() - 1);
                        assert(month_rows(prefix, k)[j] == m[j]);
                    }
                    if any_completed(month_rows(prefix, k)) {
                        let j = choose|j: int|
                            0 <= j < month_rows(prefix, k).len() && is_completed(
                                month_rows(prefix, k)[j],
                            );
                        assert(m[j] == month_rows(prefix, k)[j]);
                    }
                }
            }
        } else {
            proof {
                assert(month_rows(next, k) == month_rows(prefix, k));
            }
        }
        i = i + 1;
    }
    proof {
        assert(rows@.take(rows@.len() as int) =~= rows@);
    }
    let mut label = String::from_str(month_name(k.1));
    label.append(" ");
    let year = signed_decimal_string(k.0 as i64);
    label.append(year.as_str());
    let total_spent = if any {
        Some(total)
    } else {
        None
    };
    RideHistoryGroup { label, total_spent, rides }
}

/// Group rides by the calendar month they started in, newest month first.
/// Within a month the rides keep their order; a month's total is the sum of
/// the fares of its completed rides, or `None` if none of them is completed.
pub fn group_by_month(rows: Vec<RideRow>) -> (groups: Vec<RideHistoryGroup>)
    requires
        rows@.len() < 0x8000_0000_0000_0000,
    ensures
        grouped_by_month(rows@, groups@),
{
    let mut remaining = distinct_months(&rows);
    let mut groups: Vec<RideHistoryGroup> = Vec::new();
    let ghost mut ks: Seq<MonthKey> = Seq::empty();
    while remaining.len() > 0
        invariant
            rows@.len() < 0x8000_0000_0000_0000,
            remaining@.no_duplicates(),
            ks.len() == groups@.len(),
            forall|i: int, j: int| 0 <= i < j < ks.len() ==> later(ks[i], ks[j]),
            forall|k: MonthKey| #[trigger] has_month(rows@, k) <==> (remaining@.contains(k)
                || ks.contains(k)),
            ks.len() > 0 ==> forall|x: MonthKey| remaining@.contains(x) ==> later(ks.last(), x),
            forall|i: int| 0 <= i < ks.len() ==> is_group_of(groups@[i], rows@, ks[i]),
        decreases remaining@.len(),
    {
        let ghost before = remaining@;
        let mut best: usize = 0;
        let mut j: usize = 1;
        while j < remaining.len()
            invariant
                best < remaining@.len(),
                1 <= j <= remaining@.len(),
                forall|m: int| 0 <= m < j ==> !later(remaining@[m], remaining@[best as int]),
            decreases remaining@.len() - j,
        {
            if is_later(remaining[j], remaining[best]) {
                best = j;
            }
            j = j + 1;
        }
        let k = remaining.remove(best);
        proof {
            assert(before.remove(best as int) == remaining@);
            assert forall|x: MonthKey| remaining@.contains(x) implies later(k, x) by {
                let p = choose|p: int| 0 <= p < remaining@.len() && remaining@[p] == x;
                let q: int = if p < best { p } else { p + 1 };
                assert(before[q] == x);
                assert(q != best as int);
                assert(!later(x, k));
                assert(x != k);
            }
            assert forall|a: int, b: int|
                0 <= a < remaining@.len() && 0 <= b < remaining@.len()
                    && a != b implies remaining@[a]
                != remaining@[b] by {
                let qa: int = if a < best { a } else { a + 1 };
                let qb: int = if b < best { b } else { b + 1 };
                assert(before[qa] == remaining@[a]);
                assert(before[qb] == remaining@[b]);
            }
            assert forall|x: MonthKey| before.contains(x) <==> (remaining@.contains(x) || x
                == k) by {
                if before.contains(x) && x != k {
                    let p = choose|p: int| 0 <= p < before.len() && before[p] == x;
                    assert(p != best as int);
                    let q: int = if p < best { p } else { p - 1 };
                    assert(remaining@[q] == x);
                }
                if remaining@.contains(x) {
                    let p = choose|p: int| 0 <= p < remaining@.len() && remaining@[p] == x;
                    let q: int = if p < best { p } else { p + 1 };
                    assert(before[q] == x);
                }
                if x == k {
                    assert(before[best as int] == x);
                }
            }
        }
        let ghost old_groups = groups@;
        groups.push(build_group(&rows, k));
        proof {
            let ghost old_ks = ks;
            ks = ks.push(k);
            assert forall|i: int, j: int| 0 <= i < j < ks.len() implies later(ks[i], ks[j]) by {
                if j == ks.len() - 1 && i < j {
                    assert(before.contains(k));
                    let last = old_ks.last();
                    assert(later(last, k));
                    if i < old_ks.len() - 1 {
                        assert(later(old_ks[i], last));
                    }
                }
            }
            assert forall|x: MonthKey| #[trigger] has_month(rows@, x)
                <==> (remaining@.contains(x) || ks.contains(x)) by {
                assert(has_month(rows@, x) <==> (before.contains(x) || old_ks.contains(x)));
                assert(before.contains(x) <==> (remaining@.contains(x) || x == k));
                if old_ks.contains(x) {
                    let p = choose|p: int| 0 <= p < old_ks.len() && old_ks[p] == x;
                    assert(ks[p] == x);
                }
                if ks.contains(x) && x != k {
                    let p = choose|p: int| 0 <= p < ks.len() && ks[p] == x;
                    assert(p < old_ks.len());
                    assert(old_ks[p] == x);
                }
                if x == k {
                    assert(ks[ks.len() - 1] == x);
                }
            }
            assert forall|i: int| 0 <= i < ks.len() implies is_group_of(groups@[i], rows@,
                ks[i]) by {
                if i < old_ks.len() {
                    assert(groups@[i] == old_groups[i]);
                }
            }
        }
    }
    proof {
        assert forall|k: MonthKey| #[trigger] has_month(rows@, k) <==> ks.contains(k) by {}
    }
    groups
}

} // verus!
