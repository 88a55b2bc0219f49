//! The star breakdown of a driver's ratings, and the rules for a rating.
use vstd::prelude::*;

verus! {

/// How many ratings of one star value a driver has.
#[derive(Clone, Copy, Debug, PartialEq, Eq, Structural)]
pub struct StarCountRow {
    pub rating_value: i32,
    pub cnt: i64,
}

/// Ratings per star value (index 0 holds one star, index 4 five stars) and
/// the number of reviews in all.
#[derive(Clone, Debug, PartialEq, Eq)]
pub struct StarCounts {
    pub counts: Vec<i64>,
    pub total_reviews: i64,
}

/// Sum of the counts of all rows.
pub open spec fn count_total(rows: Seq<StarCountRow>) -> int
    decreases rows.len(),
{
    if rows.len() == 0 {
        0
    } else {
        count_total(rows.drop_last()) + rows.last().cnt
    }
}

/// The count of the last row for `stars`, or 0 when there is none.
pub open spec fn count_of(rows: Seq<StarCountRow>, stars: int) -> int
    decreases rows.len(),
{
    if rows.len() == 0 {
        0
    } else if rows.last().rating_value == stars {
        rows.last().cnt as int
    } else {
        count_of(rows.drop_last(), stars)
    }
}

proof fn lemma_total_bounds(rows: Seq<StarCountRow>, n: int)
    requires
        0 <= n <= rows.len(),
        forall|i: int| 0 <= i < rows.len() ==> rows[i].cnt >= 0,
    ensures
        0 <= count_total(rows.subrange(0, n)) <= count_total(rows),
    decreases rows.len() - n,
{
    if n < rows.len() {
        lemma_total_bounds(rows, n + 1);
        assert(rows.subrange(0, n + 1).drop_last() =~= rows.subrange(0, n));
    } else {
        assert(rows.subrange(0, n) =~= rows);
    }
    lemma_total_nonneg(rows.subrange(0, n));
}

proof fn lemma_total_nonneg(rows: Seq<StarCountRow>)
    requires
        forall|i: int| 0 <= i < rows.len() ==> rows[i].cnt >= 0,
    ensures
        count_total(rows) >= 0,
    decreases rows.len(),
{
    if rows.len() > 0 {
        lemma_total_nonneg(rows.drop_last());
    }
}

/// The star breakdown of the per-star rows of a driver's ratings: the count
/// of each star value from one to five (a value outside that range counts
/// only toward the total), and the total number of reviews.
pub fn star_counts(rows: &[StarCountRow]) -> (s: StarCounts)
    requires
        forall|i: int| 0 <= i < rows@.len() ==> rows@[i].cnt >= 0,
        count_total(rows@) <= i64::MAX,
    ensures
        s.total_reviews == count_total(rows@),
        s.counts@.len() == 5,
        forall|k: int| 0 <= k < 5 ==> #[trigger] s.counts@[k] == count_of(rows@, k + 1),
{
    let mut counts: Vec<i64> = vec![0, 0, 0, 0, 0];
    let mut total: i64 = 0;
    let mut i: usize = 0;
    while i < rows.len()
        invariant
            i <= rows@.len(),
            forall|j: int| 0 <= j < rows@.len() ==> rows@[j].cnt >= 0,
            count_total(rows@) <= i64::MAX,
            total == count_total(rows@.subrange(0, i as int)),
            counts@.len() == 5,
            forall|k: int|
                0 <= k < 5 ==> #[trigger] counts@[k] == count_of(rows@.subrange(0, i as int), k + 1),
        decreases rows@.len() - i,
    {
        let row = rows[i];
        proof {
            assert(rows@.subrange(0, i + 1).drop_last() =~= rows@.subrange(0, i as int));
            lemma_total_bounds(rows@, i + 1);
        }
        total = total + row.cnt;
        if 1 <= row.rating_value && row.rating_value <= 5 {
            let idx = (row.rating_value - 1) as usize;
            counts.set(idx, row.cnt);
        }
        i = i + 1;
    }
    assert(rows@.subrange(0, rows@.len() as int) =~= rows@);
    StarCounts { counts, total_reviews: total }
}


/// How many ratings make a driver's rating count as established.
pub const MIN_VALID_RATINGS: i64 = 5;

/// Whether a driver's rating is established: at least five ratings.
pub fn is_valid_rating(total_ratings: i64) -> (b: bool)
    ensures
        b == (total_ratings >= MIN_VALID_RATINGS),
{
    total_ratings >= MIN_VALID_RATINGS
}

/// The sub-scores a rating gives, in the order punctuality, respectfulness,
/// fare readiness; those left out are skipped.
pub open spec fn given_scores(a: Option<i32>, b: Option<i32>, c: Option<i32>) -> Seq<int> {
    let sa = match a {
        Some(x) => seq![x as int],
        None => Seq::<int>::empty(),
    };
    let sb = match b {
        Some(x) => seq![x as int],
        None => Seq::<int>::empty(),
    };
    let sc = match c {
        Some(x) => seq![x as int],
        None => Seq::<int>::empty(),
    };
    sa + sb + sc
}

/// `s / n` rounded to the nearest integer, halves away from zero (`n > 0`).
pub open spec fn rounded_quotient(s: int, n: int) -> int {
    if s >= 0 {
        (2 * s + n) / (2 * n)
    } else {
        -((2 * -s + n) / (2 * n))
    }
}

/// The rating value a driver gives a rider: the average of the sub-scores
/// given, rounded to the nearest integer (halves away from zero); 0 when no
/// sub-score is given.
pub open spec fn rider_rating_of(a: Option<i32>, b: Option<i32>, c: Option<i32>) -> int {
    let scores = given_scores(a, b, c);
    if scores.len() == 0 {
        0
    } else {
        rounded_quotient(scores.fold_left(0int, |acc: int, x: int| acc + x), scores.len() as int)
    }
}

/// Adds a sub-score, if given, to a running sum and count.
fn add_score(sum: i64, n: i64, x: Option<i32>) -> (r: (i64, i64))
    requires
        0 <= n <= 2,
        n * i32::MIN <= sum <= n * i32::MAX,
    ensures
        r.0 == sum + match x {
            Some(v) => v as int,
            None => 0,
        },
        r.1 == n + if x is Some { 1int } else { 0 },
        r.1 * i32::MIN <= r.0 <= r.1 * i32::MAX,
{
    match x {
        Some(v) => (sum + v as i64, n + 1),
        None => (sum, n),
    }
}

proof fn lemma_rounded_quotient_bounds(s: int, n: int)
    requires
        1 <= n <= 3,
        n * i32::MIN <= s <= n * i32::MAX,
    ensures
        i32::MIN <= rounded_quotient(s, n) <= i32::MAX,
{
    if s >= 0 {
        assert((2 * s + n) / (2 * n) <= i32::MAX) by {
            vstd::arithmetic::div_mod::lemma_div_is_ordered(2 * s + n, 2 * n * i32::MAX + n, 2 * n);
            vstd::arithmetic::div_mod::lemma_fundamental_div_mod_converse(
                2 * n * i32::MAX + n,
                2 * n,
                i32::MAX as int,
                n,
            );
        }
        vstd::arithmetic::div_mod::lemma_div_pos_is_pos(2 * s + n, 2 * n);
    } else {
        assert((2 * -s + n) / (2 * n) <= 0x8000_0000) by {
            vstd::arithmetic::div_mod::lemma_div_is_ordered(2 * -s + n, 2 * n * 0x8000_0000 + n, 2 * n);
            vstd::arithmetic::div_mod::lemma_fundamental_div_mod_converse(
                2 * n * 0x8000_0000 + n,
                2 * n,
                0x8000_0000,
                n,
            );
        }
        vstd::arithmetic::div_mod::lemma_div_pos_is_pos(2 * -s + n, 2 * n);
    }
}

/// The rating value of a driver's rating of a rider: the average of the
/// sub-scores given, rounded to the nearest integer with halves away from
/// zero, or 0 when none is given.
pub fn rider_rating_value(
    punctuality: Option<i32>,
    respectfulness: Option<i32>,
    fare_readiness: Option<i32>,
) -> (v: i32)
    ensures
        v == rider_rating_of(punctuality, respectfulness, fare_readiness),
{
    let (s1, n1) = add_score(0, 0, punctuality);
    let (s2, n2) = add_score(s1, n1, respectfulness);
    let (sum, n) = add_score(s2, n2, fare_readiness);
    let ghost scores = given_scores(punctuality, respectfulness, fare_readiness);
    proof {
        assert(scores.len() == n);
        assert(scores.fold_left(0int, |acc: int, x: int| acc + x) == sum) by {
            reveal_with_fuel(Seq::fold_left, 4);
            let sa = match punctuality {
                Some(x) => seq![x as int],
                None => Seq::<int>::empty(),
            };
            let sb = match respectfulness {
                Some(x) => seq![x as int],
                None => Seq::<int>::empty(),
            };
            let sc = match fare_readiness {
                Some(x) => seq![x as int],
                None => Seq::<int>::empty(),
            };
            assert(scores =~= sa + sb + sc);
        }
    }
    if n == 0 {
        return 0;
    }
    proof {
        lemma_rounded_quotient_bounds(sum as int, n as int);
    }
    if sum >= 0 {
        ((2 * sum + n) / (2 * n)) as i32
    } else {
        (-((2 * -sum + n) / (2 * n))) as i32
    }
}

} // verus!
