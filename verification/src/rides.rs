//! Intermediate stops of a ride request.
use vstd::prelude::*;
use vstd::string::*;

use crate::text::{decimal, decimal_string};

verus! {

/// One intermediate stop of a ride request: its place in the route and the
/// location it points at.
#[derive(Clone, Debug, PartialEq, Eq)]
pub struct StopRow {
    pub stop_order: i32,
    pub location_id: String,
}

/// The message a request gets when it already has as many stops as allowed.
pub open spec fn too_many_stops_message(max_stops: nat, existing: nat) -> Seq<char> {
    "at most "@ + decimal(max_stops) + " intermediate stop(s) supported, ride already has "@
        + decimal(existing)
}

/// The stop rows of a ride request, numbered from 0 in the order given.
pub fn stop_rows(location_ids: Vec<String>) -> (rows: Vec<StopRow>)
    ensures
        rows@.len() == location_ids@.len(),
        forall|i: int|
            0 <= i < rows@.len() ==> (#[trigger] rows@[i]).stop_order == i as i32
                && rows@[i].location_id@ == location_ids@[i]@,
{
    let mut rows: Vec<StopRow> = Vec::new();
    let mut i: usize = 0;
    while i < location_ids.len()
        invariant
            i <= location_ids@.len(),
            rows@.len() == i,
            forall|k: int|
                0 <= k < i ==> (#[trigger] rows@[k]).stop_order == k as i32
                    && rows@[k].location_id@ == location_ids@[k]@,
        decreases location_ids@.len() - i,
    {
        let location_id = location_ids[i].clone();
        rows.push(StopRow { stop_order: i as i32, location_id });
        i = i + 1;
    }
    rows
}

/// The place of a stop added to a request that already has `existing` stops,
/// or the validation message when that would exceed `max_stops`.
pub fn next_stop_order(existing: usize, max_stops: usize) -> (r: Result<i32, String>)
    ensures
        existing < max_stops ==> r == Ok::<i32, String>(existing as i32),
        existing >= max_stops ==> (r matches Err(m) && m@ == too_many_stops_message(
            max_stops as nat,
            existing as nat,
        )),
{
    if existing >= max_stops {
        let msg = String::from_str("at most ").concat(decimal_string(max_stops as u64).as_str()).concat(
            " intermediate stop(s) supported, ride already has ",
        ).concat(decimal_string(existing as u64).as_str());
        return Err(msg);
    }
    Ok(existing as i32)
}


/// Where a ride request stands.
#[derive(Clone, Copy, Debug, PartialEq, Eq, Structural)]
pub enum RideRequestStatus {
    New,
    Accepted,
    Inprogress,
    Completed,
    Canceled,
    Expired,
    Arrived,
    Waitingforrider,
    Failed,
}

/// Whether a cancellation takes effect on a ride request in this state (`None`:
/// no such request): it must exist and be neither canceled nor completed
/// already; otherwise the request is left untouched.
pub fn cancel_takes_effect(status: Option<RideRequestStatus>) -> (b: bool)
    ensures
        b == (status matches Some(s) && s != RideRequestStatus::Canceled && s
            != RideRequestStatus::Completed),
{
    match status {
        Some(RideRequestStatus::Canceled) | Some(RideRequestStatus::Completed) | None => false,
        Some(_) => true,
    }
}

} // verus!
