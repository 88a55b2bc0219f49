//! Preparing nearby drivers for ranking: which categories to search, which
//! search hits to keep, and the reliability signal of a driver.
use vstd::prelude::*;

use crate::dispatch::state_machine::{AcquireOutcome, CandidateRef};
use crate::helper::TimeStamp;
use crate::vehicle::{all_categories, all_vehicle_categories, VehicleCategory};

verus! {

/// A driver's acceptance rate as an exact fraction `numerator / denominator`.
#[derive(Clone, Copy, Debug, PartialEq, Eq, Structural)]
pub struct AcceptanceRatio {
    pub numerator: u32,
    pub denominator: u32,
}

/// The acceptance rate of a driver with `assigned` rides offered and
/// `canceled` of them not taken (negative counts read as zero): 1 with no
/// offers yet, 0 when the counts are inconsistent (more canceled than
/// assigned), else the share of offers taken.
pub open spec fn acceptance_of(assigned: i32, canceled: i32) -> AcceptanceRatio {
    let a: int = if assigned > 0 {
        assigned as int
    } else {
        0
    };
    let c: int = if canceled > 0 {
        canceled as int
    } else {
        0
    };
    if a == 0 {
        AcceptanceRatio { numerator: 1, denominator: 1 }
    } else if c > a {
        AcceptanceRatio { numerator: 0, denominator: 1 }
    } else {
        AcceptanceRatio { numerator: (a - c) as u32, denominator: a as u32 }
    }
}

/// Whether index `i` holds the first occurrence of its driver id.
pub open spec fn first_occurrence(ids: Seq<String>, i: int) -> bool {
    forall|j: int| 0 <= j < i ==> ids[j]@ != ids[i]@
}

/// The acceptance rate of a driver, as an exact fraction in [0, 1].
pub fn calculate_acceptance_rate(total_rides_assigned: i32, rides_canceled: i32) -> (r:
    AcceptanceRatio)
    ensures
        r == acceptance_of(total_rides_assigned, rides_canceled),
        r.denominator > 0,
        r.numerator <= r.denominator,
{
    let assigned: i32 = if total_rides_assigned > 0 {
        total_rides_assigned
    } else {
        0
    };
    let canceled: i32 = if rides_canceled > 0 {
        rides_canceled
    } else {
        0
    };
    if assigned == 0 {
        return AcceptanceRatio { numerator: 1, denominator: 1 };
    }
    if canceled > assigned {
        return AcceptanceRatio { numerator: 0, denominator: 1 };
    }
    AcceptanceRatio { numerator: (assigned - canceled) as u32, denominator: assigned as u32 }
}

/// The categories to search: the requested ones, or every category when the
/// request names none.
pub fn search_categories(requested: Option<&[VehicleCategory]>) -> (v: Vec<VehicleCategory>)
    ensures
        v@ == match requested {
            Some(r) => r@,
            None => all_categories(),
        },
{
    match requested {
        Some(r) => {
            let mut v: Vec<VehicleCategory> = Vec::new();
            let mut i: usize = 0;
            while i < r.len()
                invariant
                    i <= r@.len(),
                    v@ == r@.subrange(0, i as int),
                decreases r@.len() - i,
            {
                v.push(r[i]);
                proof {
                    assert(r@.subrange(0, i + 1) =~= r@.subrange(0, i as int).push(r@[i as int]));
                }
                i = i + 1;
            }
            assert(r@.subrange(0, r@.len() as int) =~= r@);
            v
        },
        None => all_vehicle_categories(),
    }
}

/// The positions of the search hits to keep: the first hit of each driver, in
/// the order the search returned them.
pub fn first_occurrences(ids: &[String]) -> (keep: Vec<usize>)
    ensures
        forall|a: int, b: int| 0 <= a < b < keep@.len() ==> keep@[a] < keep@[b],
        forall|a: int| 0 <= a < keep@.len() ==> keep@[a] < ids@.len(),
        forall|i: int|
            0 <= i < ids@.len() ==> (keep@.contains(i as usize) <==> first_occurrence(ids@, i)),
{
    let mut keep: Vec<usize> = Vec::new();
    let mut i: usize = 0;
    while i < ids.len()
        invariant
            i <= ids@.len(),
            forall|a: int, b: int| 0 <= a < b < keep@.len() ==> keep@[a] < keep@[b],
            forall|a: int| 0 <= a < keep@.len() ==> keep@[a] < i,
            forall|k: int|
                0 <= k < i ==> (keep@.contains(k as usize) <==> first_occurrence(ids@, k)),
        decreases ids@.len() - i,
    {
        let mut seen = false;
        let mut j: usize = 0;
        while j < i
            invariant
                i < ids@.len(),
                j <= i,
                seen <==> exists|m: int| 0 <= m < j && ids@[m]@ == ids@[i as int]@,
            decreases i - j,
        {
            if ids[j] == ids[i] {
                seen = true;
            }
            j = j + 1;
        }
        let ghost before = keep@;
        if !seen {
            keep.push(i);
        }
        proof {
            assert forall|k: int| 0 <= k < i + 1 implies (keep@.contains(k as usize)
                <==> first_occurrence(ids@, k)) by {
                if k < i {
                    if keep@.contains(k as usize) {
                        let p = choose|p: int| 0 <= p < keep@.len() && keep@[p] == k as usize;
                        if p < before.len() {
                            assert(before[p] == k as usize);
                        }
                    }
                    if before.contains(k as usize) {
                        let p = choose|p: int| 0 <= p < before.len() && before[p] == k as usize;
                        assert(keep@[p] == k as usize);
                    }
                } else {
                    if !seen {
                        assert(keep@[keep@.len() - 1] == k as usize);
                    } else {
                        let m = choose|m: int| 0 <= m < i && ids@[m]@ == ids@[i as int]@;
                        if keep@.contains(k as usize) {
                            let p = choose|p: int| 0 <= p < keep@.len() && keep@[p] == k as usize;
                            assert(keep@[p] < i);
                        }
                    }
                }
            }
        }
        i = i + 1;
    }
    keep
}


/// What dispatch keeps of a ranked candidate; its float pickup distance,
/// score and coordinates stay with the caller at the same position.
#[derive(Clone, Debug, PartialEq, Eq)]
pub struct RankedCandidate {
    pub driver_id: String,
    pub vehicle_category: VehicleCategory,
}

/// What the pool's acquire script answered.
#[derive(Clone, Debug, PartialEq, Eq)]
pub enum ScriptReply {
    /// The script moved this driver to in-flight.
    Acquired(String),
    /// No candidate could be held.
    NoneAcquired,
    /// The script call failed.
    Failed,
}

/// The first position, from `i` on, of a candidate with driver id `id`.
pub open spec fn first_match_from(ranked: Seq<RankedCandidate>, id: Seq<char>, i: int) -> Option<
    int,
>
    decreases ranked.len() - i,
{
    if i < 0 || i >= ranked.len() {
        None
    } else if ranked[i].driver_id@ == id {
        Some(i)
    } else {
        first_match_from(ranked, id, i + 1)
    }
}

/// The acquisition outcome of a script reply: an acquired driver is looked up
/// among the ranked candidates (the first with that id) and its candidate data
/// carried on; a driver not among them, or a failed call, is a failure.
pub fn acquisition_outcome(ranked: &[RankedCandidate], reply: ScriptReply) -> (o: AcquireOutcome)
    ensures
        match reply {
            ScriptReply::Acquired(dr) => match first_match_from(ranked@, dr@, 0) {
                Some(i) => o == (AcquireOutcome::Acquired {
                    driver_id: ranked@[i].driver_id,
                    candidate: CandidateRef {
                        position: i as usize,
                        vehicle_category: ranked@[i].vehicle_category,
                    },
                }),
                None => o == AcquireOutcome::Failed,
            },
            ScriptReply::NoneAcquired => o == AcquireOutcome::NotAcquired,
            ScriptReply::Failed => o == AcquireOutcome::Failed,
        },
{
    match reply {
        ScriptReply::Acquired(dr) => {
            let mut i: usize = 0;
            while i < ranked.len()
                invariant
                    i <= ranked@.len(),
                    first_match_from(ranked@, dr@, 0) == first_match_from(ranked@, dr@, i as int),
                    reply == ScriptReply::Acquired(dr),
                decreases ranked@.len() - i,
            {
                if ranked[i].driver_id == dr {
                    let id = ranked[i].driver_id.clone();
                    assert(ranked@[i as int].driver_id@ == dr@);
                    assert(id == ranked@[i as int].driver_id);
                    assert(first_match_from(ranked@, dr@, i as int) == Some(i as int));
                    let o = AcquireOutcome::Acquired {
                        driver_id: id,
                        candidate: CandidateRef {
                            position: i,
                            vehicle_category: ranked[i].vehicle_category,
                        },
                    };
                    return o;
                }
                i = i + 1;
            }
            AcquireOutcome::Failed
        },
        ScriptReply::NoneAcquired => AcquireOutcome::NotAcquired,
        ScriptReply::Failed => AcquireOutcome::Failed,
    }
}

/// The geo-search hits of one vehicle category, and each hit driver's last
/// known location time (`None` when unknown), in the order of the hits.
pub struct CategoryHits {
    pub vehicle_category: VehicleCategory,
    pub driver_ids: Vec<String>,
    pub last_seen: Vec<Option<TimeStamp>>,
}

/// One driver of the nearby list: the category searched, the position of its
/// hit in that category's results (the hit keeps its coordinates and
/// distance), the driver and when it was last seen.
pub struct NearbyEntry {
    pub vehicle_category: VehicleCategory,
    pub hit: usize,
    pub driver_id: String,
    pub timestamp: TimeStamp,
}

/// The view of a nearby entry the contracts speak of.
pub open spec fn entry_view(e: NearbyEntry) -> (VehicleCategory, int, Seq<char>, TimeStamp) {
    (e.vehicle_category, e.hit as int, e.driver_id@, e.timestamp)
}

/// The entries of one category: its hits paired with their last locations,
/// as far as both lists go; a missing location time counts as `now`.
pub open spec fn hit_entries(h: CategoryHits, now: TimeStamp) -> Seq<
    (VehicleCategory, int, Seq<char>, TimeStamp),
> {
    let n = if h.driver_ids@.len() <= h.last_seen@.len() {
        h.driver_ids@.len()
    } else {
        h.last_seen@.len()
    };
    Seq::new(
        n,
        |j: int|
            (
                h.vehicle_category,
                j,
                h.driver_ids@[j]@,
                match h.last_seen@[j] {
                    Some(t) => t,
                    None => now,
                },
            ),
    )
}

/// The nearby list of the results of several categories, in their order.
pub open spec fn nearby_list(results: Seq<CategoryHits>, now: TimeStamp) -> Seq<
    (VehicleCategory, int, Seq<char>, TimeStamp),
>
    decreases results.len(),
{
    if results.len() == 0 {
        Seq::empty()
    } else {
        nearby_list(results.drop_last(), now) + hit_entries(results.last(), now)
    }
}

/// The nearby-driver list from the per-category search results, category by
/// category: each hit with its category and the driver's last location time,
/// or `now` when none is known.
pub fn nearby_drivers(results: &[CategoryHits], now: TimeStamp) -> (v: Vec<NearbyEntry>)
    ensures
        v@.map_values(|e: NearbyEntry| entry_view(e)) == nearby_list(results@, now),
{
    let mut v: Vec<NearbyEntry> = Vec::new();
    let mut k: usize = 0;
    while k < results.len()
        invariant
            k <= results@.len(),
            v@.map_values(|e: NearbyEntry| entry_view(e)) == nearby_list(
                results@.subrange(0, k as int),
                now,
            ),
        decreases results@.len() - k,
    {
        let h = &results[k];
        let n = if h.driver_ids.len() <= h.last_seen.len() {
            h.driver_ids.len()
        } else {
            h.last_seen.len()
        };
        let ghost base = v@.map_values(|e: NearbyEntry| entry_view(e));
        let mut j: usize = 0;
        while j < n
            invariant
                j <= n,
                n <= h.driver_ids@.len(),
                n <= h.last_seen@.len(),
                v@.map_values(|e: NearbyEntry| entry_view(e)) == base + hit_entries(*h, now).subrange(
                    0,
                    j as int,
                ),
                hit_entries(*h, now).len() == n,
            decreases n - j,
        {
            let timestamp = match h.last_seen[j] {
                Some(t) => t,
                None => now,
            };
            let id = h.driver_ids[j].clone();
            let entry = NearbyEntry { vehicle_category: h.vehicle_category, hit: j, driver_id: id, timestamp };
            assert(entry_view(entry) == hit_entries(*h, now)[j as int]);
            let ghost before = v@;
            v.push(entry);
            proof {
                assert(v@ == before.push(entry));
                assert(v@.map_values(|e: NearbyEntry| entry_view(e)) =~= before.map_values(
                    |e: NearbyEntry| entry_view(e),
                ).push(entry_view(entry)));
                assert(v@.map_values(|e: NearbyEntry| entry_view(e)) =~= base + hit_entries(
                    *h,
                    now,
                ).subrange(0, j + 1));
            }
            j = j + 1;
        }
        proof {
            assert(results@.subrange(0, k + 1).drop_last() =~= results@.subrange(0, k as int));
            assert(hit_entries(*h, now).subrange(0, n as int) =~= hit_entries(*h, now));
        }
        k = k + 1;
    }
    assert(results@.subrange(0, results@.len() as int) =~= results@);
    v
}

} // verus!
