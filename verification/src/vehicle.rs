//! Vehicle categories and which requests a driver of each category can serve.
use vstd::prelude::*;
use vstd::string::*;

verus! {

/// The vehicle categories a ride can be requested in, in their natural order.
#[derive(Clone, Copy, Debug, PartialEq, Eq, Structural)]
pub enum VehicleCategory {
    Swift,
    Standard,
    Comfort,
    Xl,
    Executive,
    Bike,
    Women,
}

/// Position of a category in the natural order (Swift first, Women last).
pub open spec fn rank(c: VehicleCategory) -> int {
    match c {
        VehicleCategory::Swift => 0,
        VehicleCategory::Standard => 1,
        VehicleCategory::Comfort => 2,
        VehicleCategory::Xl => 3,
        VehicleCategory::Executive => 4,
        VehicleCategory::Bike => 5,
        VehicleCategory::Women => 6,
    }
}

/// All categories in their natural order.
pub open spec fn all_categories() -> Seq<VehicleCategory> {
    seq![
        VehicleCategory::Swift,
        VehicleCategory::Standard,
        VehicleCategory::Comfort,
        VehicleCategory::Xl,
        VehicleCategory::Executive,
        VehicleCategory::Bike,
        VehicleCategory::Women,
    ]
}

/// Whether a category belongs to the tier chain Swift < Standard < Comfort < Xl < Executive.
pub open spec fn is_tiered(c: VehicleCategory) -> bool {
    rank(c) <= 4
}

/// The categories a driver of category `c` serves: Bike and Women only
/// themselves; a tiered category its own tier and every tier below it.
pub open spec fn serves(c: VehicleCategory, requested: VehicleCategory) -> bool {
    if is_tiered(c) {
        is_tiered(requested) && rank(requested) <= rank(c)
    } else {
        requested == c
    }
}

/// Whether drivers of category `c` are eligible to serve at least one of the
/// `requested` categories.
pub open spec fn serves_any(requested: Seq<VehicleCategory>, c: VehicleCategory) -> bool {
    exists|i: int| 0 <= i < requested.len() && serves(c, requested[i])
}

impl VehicleCategory {
    /// Every category is one of the seven, at its rank.
    pub proof fn lemma_rank(self)
        ensures
            0 <= rank(self) < 7,
            all_categories()[rank(self)] == self,
    {
    }

    /// Returns all request categories that a driver of `self` category is
    /// eligible to serve, lowest tier first.
    pub fn eligible_serving_categories(self) -> (v: Vec<VehicleCategory>)
        ensures
            forall|i: int, j: int| 0 <= i < j < v@.len() ==> rank(v@[i]) < rank(v@[j]),
            forall|c: VehicleCategory| v@.contains(c) <==> serves(self, c),
    {
        let v = match self {
            VehicleCategory::Bike => vec![VehicleCategory::Bike],
            VehicleCategory::Women => vec![VehicleCategory::Women],
            VehicleCategory::Swift => vec![VehicleCategory::Swift],
            VehicleCategory::Standard => vec![VehicleCategory::Swift, VehicleCategory::Standard],
            VehicleCategory::Comfort => vec![
                VehicleCategory::Swift,
                VehicleCategory::Standard,
                VehicleCategory::Comfort,
            ],
            VehicleCategory::Xl => vec![
                VehicleCategory::Swift,
                VehicleCategory::Standard,
                VehicleCategory::Comfort,
                VehicleCategory::Xl,
            ],
            VehicleCategory::Executive => vec![
                VehicleCategory::Swift,
                VehicleCategory::Standard,
                VehicleCategory::Comfort,
                VehicleCategory::Xl,
                VehicleCategory::Executive,
            ],
        };
        proof {
            assert forall|c: VehicleCategory| v@.contains(c) <==> serves(self, c) by {
                if serves(self, c) {
                    if is_tiered(self) {
                        assert(v@[rank(c)] == c);
                    } else {
                        assert(v@[0] == c);
                    }
                }
            }
        }
        v
    }

    /// Index of this category in the natural order.
    pub fn rank(self) -> (r: usize)
        ensures
            r == rank(self),
    {
        match self {
            VehicleCategory::Swift => 0,
            VehicleCategory::Standard => 1,
            VehicleCategory::Comfort => 2,
            VehicleCategory::Xl => 3,
            VehicleCategory::Executive => 4,
            VehicleCategory::Bike => 5,
            VehicleCategory::Women => 6,
        }
    }
}

/// All categories, in their natural order.
pub fn all_vehicle_categories() -> (v: Vec<VehicleCategory>)
    ensures
        v@ == all_categories(),
{
    let v = vec![
        VehicleCategory::Swift,
        VehicleCategory::Standard,
        VehicleCategory::Comfort,
        VehicleCategory::Xl,
        VehicleCategory::Executive,
        VehicleCategory::Bike,
        VehicleCategory::Women,
    ];
    assert(v@ =~= all_categories());
    v
}

/// Expands a list of requested vehicle categories into every category whose
/// drivers are eligible to serve one of them (a Swift request reaches Swift
/// up to Executive drivers), sorted in the natural order and without
/// duplicates.
pub fn expand_vehicle_categories(requested: &[VehicleCategory]) -> (v: Vec<VehicleCategory>)
    ensures
        forall|i: int, j: int| 0 <= i < j < v@.len() ==> rank(v@[i]) < rank(v@[j]),
        forall|c: VehicleCategory| v@.contains(c) <==> serves_any(requested@, c),
{
    let all = all_vehicle_categories();
    let mut out: Vec<VehicleCategory> = Vec::new();
    let mut k: usize = 0;
    while k < all.len()
        invariant
            all@ == all_categories(),
            k <= all@.len(),
            forall|i: int, j: int| 0 <= i < j < out@.len() ==> rank(out@[i]) < rank(out@[j]),
            forall|i: int| 0 <= i < out@.len() ==> rank(out@[i]) < k,
            forall|c: VehicleCategory|
                rank(c) < k ==> (out@.contains(c) <==> serves_any(requested@, c)),
            forall|c: VehicleCategory| out@.contains(c) ==> rank(c) < k,
        decreases all@.len() - k,
    {
        let c = all[k];
        let eligible = c.eligible_serving_categories();
        let mut found = false;
        let mut i: usize = 0;
        while i < requested.len()
            invariant
                i <= requested@.len(),
                forall|x: VehicleCategory| eligible@.contains(x) <==> serves(c, x),
                found <==> exists|j: int| 0 <= j < i && serves(c, requested@[j]),
            decreases requested@.len() - i,
        {
            let r = requested[i];
            let mut m: usize = 0;
            let mut hit = false;
            while m < eligible.len()
                invariant
                    m <= eligible@.len(),
                    hit <==> exists|j: int| 0 <= j < m && eligible@[j] == r,
                decreases eligible@.len() - m,
            {
                if eligible[m] == r {
                    hit = true;
                }
                m = m + 1;
            }
            proof {
                if hit {
                    let j = choose|j: int| 0 <= j < m && eligible@[j] == r;
                    assert(eligible@.contains(r));
                }
                if serves(c, r) {
                    assert(eligible@.contains(r));
                }
            }
            if hit {
                found = true;
            }
            i = i + 1;
        }
        proof {
            assert(rank(c) == k) by {
                c.lemma_rank();
            }
        }
        let ghost before = out@;
        assert(found <==> serves_any(requested@, c));
        if found {
            out.push(c);
        }
        proof {
            assert forall|x: VehicleCategory| out@.contains(x) <==> (before.contains(x) || (found
                && x == c)) by {
                if found && out@.contains(x) && x != c {
                    let j = choose|j: int| 0 <= j < out@.len() && out@[j] == x;
                    assert(before[j] == x);
                }
                if before.contains(x) {
                    let j = choose|j: int| 0 <= j < before.len() && before[j] == x;
                    assert(out@[j] == x);
                }
                if found && x == c {
                    assert(out@[out@.len() - 1] == c);
                }
            }
            assert forall|x: VehicleCategory| rank(x) < k + 1 implies (out@.contains(x)
                <==> serves_any(requested@, x)) by {
                if rank(x) == k {
                    x.lemma_rank();
                    assert(x == c);
                }
            }
        }
        k = k + 1;
    }
    proof {
        assert forall|c: VehicleCategory| out@.contains(c) <==> serves_any(requested@, c) by {
            c.lemma_rank();
        }
    }
    out
}

/// The active flag of the last of a driver's current category mappings for
/// `c`, if the driver has one.
pub open spec fn prior_activity(prior: Seq<(VehicleCategory, bool)>, c: VehicleCategory) -> Option<
    bool,
>
    decreases prior.len(),
{
    if prior.len() == 0 {
        None
    } else if prior.last().0 == c {
        Some(prior.last().1)
    } else {
        prior_activity(prior.drop_last(), c)
    }
}

/// The active flag of the last of the mappings for `c`, if any.
fn find_prior_activity(prior: &[(VehicleCategory, bool)], c: VehicleCategory) -> (a: Option<bool>)
    ensures
        a == prior_activity(prior@, c),
{
    let mut i: usize = prior.len();
    assert(prior@.subrange(0, i as int) =~= prior@);
    while i > 0
        invariant
            i <= prior@.len(),
            prior_activity(prior@, c) == prior_activity(prior@.subrange(0, i as int), c),
        decreases i,
    {
        let (cat, active) = prior[i - 1];
        proof {
            assert(prior@.subrange(0, i as int).drop_last() =~= prior@.subrange(0, i - 1));
        }
        if cat == c {
            return Some(active);
        }
        i = i - 1;
    }
    None
}

/// The category mappings a driver gets when an administrator assigns
/// `categories`: one per category, in order; a category the driver already
/// had keeps the driver's active choice, and a newly assigned one starts
/// active so it can be served at once.
pub fn qualifying_mappings(prior: &[(VehicleCategory, bool)], categories: &[VehicleCategory]) -> (v:
    Vec<(VehicleCategory, bool)>)
    ensures
        v@.len() == categories@.len(),
        forall|i: int|
            0 <= i < v@.len() ==> (#[trigger] v@[i]).0 == categories@[i] && v@[i].1
                == match prior_activity(
                prior@,
                categories@[i],
            ) {
                Some(a) => a,
                None => true,
            },
{
    let mut v: Vec<(VehicleCategory, bool)> = Vec::new();
    let mut i: usize = 0;
    while i < categories.len()
        invariant
            i <= categories@.len(),
            v@.len() == i,
            forall|k: int|
                0 <= k < i ==> (#[trigger] v@[k]).0 == categories@[k] && v@[k].1
                    == match prior_activity(
                    prior@,
                    categories@[k],
                ) {
                    Some(a) => a,
                    None => true,
                },
        decreases categories@.len() - i,
    {
        let c = categories[i];
        let active = match find_prior_activity(prior, c) {
            Some(a) => a,
            None => true,
        };
        v.push((c, active));
        i = i + 1;
    }
    v
}


/// The message of the rejection (HTTP 422) of a category assignment naming a
/// vehicle that is not the driver's.
pub open spec fn vehicle_not_found_message(vehicle_id: Seq<char>) -> Seq<char> {
    "Vehicle "@ + vehicle_id + " not found for this driver"@
}

/// Whether a category assignment may go ahead: the vehicle must exist and
/// belong to the driver; otherwise the rejection message.
pub fn check_vehicle_owned(owned: bool, vehicle_id: &str) -> (r: Result<(), String>)
    ensures
        owned ==> r is Ok,
        !owned ==> (r matches Err(m) && m@ == vehicle_not_found_message(vehicle_id@)),
{
    if owned {
        Ok(())
    } else {
        Err(String::from_str("Vehicle ").concat(vehicle_id).concat(" not found for this driver"))
    }
}

} // verus!
