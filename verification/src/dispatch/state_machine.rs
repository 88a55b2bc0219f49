//! The decision core of ride dispatch.
//!
//! A dispatch run searches for nearby drivers in a growing radius, acquires the
//! best-ranked candidates one at a time, offers the ride to the acquired driver
//! and waits for that driver's answer. Everything that touches the outside world
//! (geo search, the driver pool, the database, notifications, timers and the
//! event channel) is performed by the caller; this module decides, from the
//! current state and what the outside world reported, what happens next.
//!
//! The caller drives the machine with [`DispatchCore::step`]: it performs the
//! returned [`Request`], carries out the returned [`Effect`]s, and reports the
//! outcome back as the next [`Event`]. The run is over once a request is
//! [`Request::Finished`].
use vstd::prelude::*;

use crate::vehicle::VehicleCategory;

verus! {

/// Search radius a dispatch run starts with, in metres.
pub const INITIAL_RADIUS_M: u64 = 2000;

/// Largest search radius a run may grow to, in metres.
pub const MAX_RADIUS_M: u64 = 20000;

/// How much the radius grows each time a search or a candidate list comes up empty.
pub const RADIUS_STEP_M: u64 = 3000;

/// How long a dispatch run waits after an offer window closed for a late acceptance.
pub const GRACE_PERIOD_MS: u64 = 15000;

/// How long the caller backs off after a failed geo search before retrying.
pub const SEARCH_RETRY_DELAY_MS: u64 = 500;

/// Penalty, in tenths of a score point, for a driver who let an offer lapse or
/// declined it.
pub const DECLINE_PENALTY_TENTHS: u32 = 10;

/// Cool-down after a driver declined or let an offer lapse.
pub const DECLINE_COOLDOWN_MS: u64 = 5000;

/// Penalty, in tenths, for the offered driver when the whole dispatch ran out of time.
pub const DEADLINE_PENALTY_TENTHS: u32 = 5;

/// Cool-down applied when an offer is withdrawn (cancellation, deadline, closed channel).
pub const WITHDRAW_COOLDOWN_MS: u64 = 500;

/// The acquired candidate: its place in the ranked candidate list (which keeps
/// its pickup distance, score and coordinates) and its vehicle category.
#[derive(Clone, Copy, Debug, PartialEq, Eq, Structural)]
pub struct CandidateRef {
    pub position: usize,
    pub vehicle_category: VehicleCategory,
}

/// A driver's answer to a ride offer.
#[derive(Clone, Debug, PartialEq, Eq)]
pub struct DriverResponse {
    pub driver_id: String,
    pub accepted: bool,
    pub response_time_ms: u64,
}

/// What can arrive on a dispatch run's event channel.
#[derive(Clone, Debug, PartialEq, Eq)]
pub enum DispatchEvent {
    DriverResponse(DriverResponse),
    CancelRequest,
}

/// Where a dispatch run stands.
#[derive(Debug, PartialEq, Eq)]
pub enum DispatchState {
    Idle,
    Searching { radius_m: u64 },
    AcquiringDriver,
    OfferingRide {
        driver_id: String,
        deadline_ms: u64,
        offer_sent_at_ms: u64,
        candidate: CandidateRef,
    },
}

/// How a dispatch run ended.
#[derive(Debug, PartialEq, Eq)]
pub enum DispatchResult {
    Success { driver_id: String, candidate: CandidateRef },
    NoDriversAvailable,
    MaxAttemptsReached,
    DeadlineExceeded,
    ChannelClosed,
    CanceledRequest,
}

/// What the geo search for nearby drivers reported.
#[derive(Debug, PartialEq, Eq)]
pub enum SearchOutcome {
    /// Candidates were found and ranked.
    Found,
    /// Nobody is within the radius (or within their own preferred radius).
    NoneNearby,
    /// The search itself failed.
    Failed,
}

/// What the driver pool reported for an acquisition attempt.
#[derive(Debug, PartialEq, Eq)]
pub enum AcquireOutcome {
    /// The pool handed over `driver_id`, the ranked candidate `candidate`.
    Acquired { driver_id: String, candidate: CandidateRef },
    NotAcquired,
    Failed,
}

/// What happened while sending an offer to the acquired driver.
#[derive(Debug, PartialEq, Eq)]
pub enum OfferOutcome {
    /// The offer went out; `sent_at_ms` is when its window started.
    Sent { sent_at_ms: u64 },
    /// The offer could not be made (e.g. no driver record).
    Failed,
}

/// What happened while waiting on the event channel.
#[derive(Debug, PartialEq, Eq)]
pub enum WaitOutcome {
    Received { event: DispatchEvent, now_ms: u64 },
    Closed,
    Lagged { now_ms: u64 },
    Expired { now_ms: u64 },
}

/// What the caller reports back to the machine.
#[derive(Debug, PartialEq, Eq)]
pub enum Event {
    /// A new round of the dispatch loop begins at `now_ms`.
    Tick { now_ms: u64 },
    Searched(SearchOutcome),
    Popped(Option<String>),
    Acquired(AcquireOutcome),
    Offered(OfferOutcome),
    Waited(WaitOutcome),
}

/// The outside work the caller must do next.
#[derive(Debug, PartialEq, Eq)]
pub enum Request {
    /// Start the next round: report `Event::Tick`.
    Tick,
    /// Search for drivers within `radius_m` of the pickup and rank them.
    Search { radius_m: u64 },
    /// Pop the best remaining candidate of the ranked list.
    PopCandidate,
    /// Try to move `driver_id` from the pool to in-flight.
    Acquire { driver_id: String },
    /// Send the ride offer to the acquired `driver_id`.
    Offer { driver_id: String, candidate: CandidateRef },
    /// Wait up to `wait_ms` on the event channel for the offered driver.
    AwaitDriver { driver_id: String, wait_ms: u64 },
    /// Wait up to `wait_ms` more for a late acceptance by `driver_id`.
    AwaitGrace { driver_id: String, wait_ms: u64 },
    /// Back off for `ms`, then report `Event::Tick`.
    Sleep { ms: u64 },
    /// The run is over.
    Finished(DispatchResult),
}

/// Side effects the caller must carry out, in order.
#[derive(Debug, PartialEq, Eq)]
pub enum Effect {
    /// Tell the rider the dispatch ran out of time.
    PublishDeadlineExceeded,
    /// Tell the rider no driver took the ride within the allowed attempts.
    PublishMaxAttemptsReached,
    /// Return `driver_id` to the pool with a score penalty and a cool-down.
    ReleaseDriver { driver_id: String, penalty_tenths: u32, cooldown_ms: u64 },
    /// Take `driver_id` off in-flight for good: the ride is theirs.
    ConfirmDriver { driver_id: String },
    /// Count the lapsed offer against `driver_id`'s statistics.
    RecordOfferTimeout { driver_id: String },
}

/// The result of one step: effects to carry out, then the next request.
#[derive(Debug, PartialEq, Eq)]
pub struct Transition {
    pub effects: Vec<Effect>,
    pub next: Request,
}

/// The state of one dispatch run.
#[derive(Debug, PartialEq, Eq)]
pub struct DispatchCore {
    pub state: DispatchState,
    pub awaiting: Request,
    pub attempts: usize,
    pub max_attempts: usize,
    pub current_radius_m: u64,
    pub dispatch_deadline_ms: u64,
    pub ttl_ms: u64,
    pub grace_end_ms: u64,
}

// ---------------------------------------------------------------------------
// The model: what one step does.
// ---------------------------------------------------------------------------

/// A release of `driver_id` with the given penalty and cool-down.
pub open spec fn release(driver_id: String, penalty_tenths: u32, cooldown_ms: u64) -> Effect {
    Effect::ReleaseDriver { driver_id, penalty_tenths, cooldown_ms }
}

/// The core with only the awaited request replaced.
pub open spec fn awaiting_now(c: DispatchCore, next: Request) -> DispatchCore {
    DispatchCore { awaiting: next, ..c }
}

/// The answer to an event the machine is not waiting for: nothing changes.
pub open spec fn ignored(c: DispatchCore) -> (DispatchCore, Seq<Effect>, Request) {
    (c, Seq::empty(), c.awaiting)
}

/// Grow the radius by one step if that is still allowed, else give up.
pub open spec fn expand_or_give_up(c: DispatchCore) -> (DispatchCore, Seq<Effect>, Request) {
    if c.current_radius_m < MAX_RADIUS_M {
        let r = (c.current_radius_m + RADIUS_STEP_M) as u64;
        let n = DispatchCore {
            current_radius_m: r,
            state: DispatchState::Searching { radius_m: r },
            awaiting: Request::Tick,
            ..c
        };
        (n, Seq::empty(), Request::Tick)
    } else {
        let next = Request::Finished(DispatchResult::NoDriversAvailable);
        (awaiting_now(c, next), Seq::empty(), next)
    }
}

/// Start of a round of the dispatch loop.
pub open spec fn on_tick(c: DispatchCore, now_ms: u64) -> (DispatchCore, Seq<Effect>, Request) {
    if now_ms >= c.dispatch_deadline_ms {
        let cleanup = match c.state {
            DispatchState::OfferingRide { driver_id, .. } => seq![
                release(driver_id, DEADLINE_PENALTY_TENTHS, WITHDRAW_COOLDOWN_MS),
            ],
            _ => Seq::empty(),
        };
        let next = Request::Finished(DispatchResult::DeadlineExceeded);
        (awaiting_now(c, next), seq![Effect::PublishDeadlineExceeded] + cleanup, next)
    } else {
        match c.state {
            DispatchState::Idle => {
                let n = DispatchCore {
                    state: DispatchState::Searching { radius_m: c.current_radius_m },
                    awaiting: Request::Tick,
                    ..c
                };
                (n, Seq::empty(), Request::Tick)
            },
            DispatchState::Searching { radius_m } => {
                if c.attempts >= c.max_attempts {
                    let next = Request::Finished(DispatchResult::MaxAttemptsReached);
                    (awaiting_now(c, next), seq![Effect::PublishMaxAttemptsReached], next)
                } else {
                    let next = Request::Search { radius_m };
                    (awaiting_now(c, next), Seq::empty(), next)
                }
            },
            DispatchState::AcquiringDriver => {
                (awaiting_now(c, Request::PopCandidate), Seq::empty(), Request::PopCandidate)
            },
            DispatchState::OfferingRide { driver_id, deadline_ms, .. } => {
                let next = Request::AwaitDriver {
                    driver_id,
                    wait_ms: deadline_ms.saturating_sub(now_ms),
                };
                (awaiting_now(c, next), Seq::empty(), next)
            },
        }
    }
}

/// The geo search reported back.
pub open spec fn on_searched(c: DispatchCore, outcome: SearchOutcome) -> (
    DispatchCore,
    Seq<Effect>,
    Request,
) {
    match outcome {
        SearchOutcome::Found => {
            let n = DispatchCore { state: DispatchState::AcquiringDriver, awaiting: Request::Tick, ..c };
            (n, Seq::empty(), Request::Tick)
        },
        SearchOutcome::NoneNearby => expand_or_give_up(c),
        SearchOutcome::Failed => {
            (
                awaiting_now(c, Request::Sleep { ms: SEARCH_RETRY_DELAY_MS }),
                Seq::empty(),
                Request::Sleep { ms: SEARCH_RETRY_DELAY_MS },
            )
        },
    }
}

/// The candidate list was popped.
pub open spec fn on_popped(c: DispatchCore, popped: Option<String>) -> (
    DispatchCore,
    Seq<Effect>,
    Request,
) {
    match popped {
        Some(driver_id) => {
            let next = Request::Acquire { driver_id };
            (awaiting_now(c, next), Seq::empty(), next)
        },
        None => expand_or_give_up(c),
    }
}

/// The pool reported on an acquisition.
pub open spec fn on_acquired(c: DispatchCore, outcome: AcquireOutcome) -> (
    DispatchCore,
    Seq<Effect>,
    Request,
) {
    match outcome {
        AcquireOutcome::Acquired { driver_id, candidate } => {
            let next = Request::Offer { driver_id, candidate };
            let n = DispatchCore {
                attempts: c.attempts.saturating_add(1),
                awaiting: next,
                ..c
            };
            (n, Seq::empty(), next)
        },
        _ => (awaiting_now(c, Request::Tick), Seq::empty(), Request::Tick),
    }
}

/// The offer to `driver_id`, the candidate `candidate`, went out, or failed.
pub open spec fn on_offered(
    c: DispatchCore,
    driver_id: String,
    candidate: CandidateRef,
    outcome: OfferOutcome,
) -> (DispatchCore, Seq<Effect>, Request) {
    match outcome {
        OfferOutcome::Sent { sent_at_ms } => {
            let n = DispatchCore {
                state: DispatchState::OfferingRide {
                    driver_id,
                    deadline_ms: sent_at_ms.saturating_add(c.ttl_ms),
                    offer_sent_at_ms: sent_at_ms,
                    candidate,
                },
                awaiting: Request::Tick,
                ..c
            };
            (n, Seq::empty(), Request::Tick)
        },
        OfferOutcome::Failed => {
            let n = DispatchCore {
                state: DispatchState::AcquiringDriver,
                awaiting: Request::Tick,
                ..c
            };
            (n, Seq::empty(), Request::Tick)
        },
    }
}

/// The candidate the ride is being offered to (any, when no offer is open).
pub open spec fn offered_candidate(c: DispatchCore) -> CandidateRef {
    match c.state {
        DispatchState::OfferingRide { candidate, .. } => candidate,
        _ => CandidateRef { position: 0, vehicle_category: VehicleCategory::Swift },
    }
}

/// The offered driver accepted: confirm and finish.
pub open spec fn accept(c: DispatchCore, driver_id: String) -> (DispatchCore, Seq<Effect>,
    Request) {
    let next = Request::Finished(
        DispatchResult::Success { driver_id, candidate: offered_candidate(c) },
    );
    (awaiting_now(c, next), seq![Effect::ConfirmDriver { driver_id }], next)
}

/// The offer is withdrawn and the run ends with `result`.
pub open spec fn withdraw(c: DispatchCore, driver_id: String, result: DispatchResult) -> (
    DispatchCore,
    Seq<Effect>,
    Request,
) {
    let next = Request::Finished(result);
    (awaiting_now(c, next), seq![release(driver_id, 0, WITHDRAW_COOLDOWN_MS)], next)
}

/// The offered driver did not accept in time, not even late: release them and
/// go on with the next candidate.
pub open spec fn lapse(c: DispatchCore, driver_id: String) -> (DispatchCore, Seq<Effect>, Request) {
    let n = DispatchCore {
        state: DispatchState::AcquiringDriver,
        awaiting: Request::Tick,
        ..c
    };
    (
        n,
        seq![
            release(driver_id, DECLINE_PENALTY_TENTHS, DECLINE_COOLDOWN_MS),
            Effect::RecordOfferTimeout { driver_id },
        ],
        Request::Tick,
    )
}

/// Something arrived (or the window closed) while the offer to `driver_id` was open.
pub open spec fn on_waited(c: DispatchCore, driver_id: String, outcome: WaitOutcome) -> (
    DispatchCore,
    Seq<Effect>,
    Request,
) {
    match outcome {
        WaitOutcome::Received { event, now_ms } => match event {
            DispatchEvent::CancelRequest => withdraw(c, driver_id, DispatchResult::CanceledRequest),
            DispatchEvent::DriverResponse(r) => {
                if r.driver_id@ == driver_id@ {
                    if r.accepted {
                        accept(c, driver_id)
                    } else {
                        let n = DispatchCore {
                            state: DispatchState::Searching { radius_m: c.current_radius_m },
                            awaiting: Request::Tick,
                            ..c
                        };
                        (
                            n,
                            seq![release(driver_id, DECLINE_PENALTY_TENTHS, DECLINE_COOLDOWN_MS)],
                            Request::Tick,
                        )
                    }
                } else {
                    (awaiting_now(c, Request::Tick), Seq::empty(), Request::Tick)
                }
            },
        },
        WaitOutcome::Closed => withdraw(c, driver_id, DispatchResult::ChannelClosed),
        WaitOutcome::Lagged { .. } => (awaiting_now(c, Request::Tick), Seq::empty(), Request::Tick),
        WaitOutcome::Expired { now_ms } => {
            let next = Request::AwaitGrace { driver_id, wait_ms: GRACE_PERIOD_MS };
            let n = DispatchCore {
                grace_end_ms: now_ms.saturating_add(GRACE_PERIOD_MS),
                awaiting: next,
                ..c
            };
            (n, Seq::empty(), next)
        },
    }
}

/// Keep waiting out the grace period, unless it is already over.
pub open spec fn keep_waiting_grace(c: DispatchCore, driver_id: String, now_ms: u64) -> (
    DispatchCore,
    Seq<Effect>,
    Request,
) {
    if now_ms >= c.grace_end_ms {
        lapse(c, driver_id)
    } else {
        let next = Request::AwaitGrace { driver_id, wait_ms: (c.grace_end_ms - now_ms) as u64 };
        (awaiting_now(c, next), Seq::empty(), next)
    }
}

/// Something arrived (or the grace period ran out) after the offer window closed.
pub open spec fn on_waited_grace(c: DispatchCore, driver_id: String, outcome: WaitOutcome) -> (
    DispatchCore,
    Seq<Effect>,
    Request,
) {
    match outcome {
        WaitOutcome::Received { event, now_ms } => match event {
            DispatchEvent::CancelRequest => lapse(c, driver_id),
            DispatchEvent::DriverResponse(r) => {
                if r.driver_id@ == driver_id@ && r.accepted {
                    accept(c, driver_id)
                } else {
                    keep_waiting_grace(c, driver_id, now_ms)
                }
            },
        },
        WaitOutcome::Closed => lapse(c, driver_id),
        WaitOutcome::Lagged { now_ms } => keep_waiting_grace(c, driver_id, now_ms),
        WaitOutcome::Expired { .. } => lapse(c, driver_id),
    }
}

/// One step of a dispatch run: the new state, the effects, and the next request.
pub open spec fn step_spec(c: DispatchCore, e: Event) -> (DispatchCore, Seq<Effect>, Request) {
    match e {
        Event::Tick { now_ms } => match c.awaiting {
            Request::Tick => on_tick(c, now_ms),
            Request::Sleep { .. } => on_tick(c, now_ms),
            _ => ignored(c),
        },
        Event::Searched(outcome) => match c.awaiting {
            Request::Search { .. } => on_searched(c, outcome),
            _ => ignored(c),
        },
        Event::Popped(popped) => match c.awaiting {
            Request::PopCandidate => on_popped(c, popped),
            _ => ignored(c),
        },
        Event::Acquired(outcome) => match c.awaiting {
            Request::Acquire { .. } => on_acquired(c, outcome),
            _ => ignored(c),
        },
        Event::Offered(outcome) => match c.awaiting {
            Request::Offer { driver_id, candidate } => on_offered(c, driver_id, candidate, outcome),
            _ => ignored(c),
        },
        Event::Waited(outcome) => match c.awaiting {
            Request::AwaitDriver { driver_id, .. } => on_waited(c, driver_id, outcome),
            Request::AwaitGrace { driver_id, .. } => on_waited_grace(c, driver_id, outcome),
            _ => ignored(c),
        },
    }
}

// ---------------------------------------------------------------------------
// Copies with a contract (derived `Clone` says nothing about the copy).
// ---------------------------------------------------------------------------

fn copy_result(r: &DispatchResult) -> (o: DispatchResult)
    ensures
        o == *r,
{
    match r {
        DispatchResult::Success { driver_id, candidate } => DispatchResult::Success {
            driver_id: driver_id.clone(),
            candidate: *candidate,
        },
        DispatchResult::NoDriversAvailable => DispatchResult::NoDriversAvailable,
        DispatchResult::MaxAttemptsReached => DispatchResult::MaxAttemptsReached,
        DispatchResult::DeadlineExceeded => DispatchResult::DeadlineExceeded,
        DispatchResult::ChannelClosed => DispatchResult::ChannelClosed,
        DispatchResult::CanceledRequest => DispatchResult::CanceledRequest,
    }
}

fn copy_request(r: &Request) -> (o: Request)
    ensures
        o == *r,
{
    match r {
        Request::Tick => Request::Tick,
        Request::Search { radius_m } => Request::Search { radius_m: *radius_m },
        Request::PopCandidate => Request::PopCandidate,
        Request::Acquire { driver_id } => Request::Acquire { driver_id: driver_id.clone() },
        Request::Offer { driver_id, candidate } => Request::Offer {
            driver_id: driver_id.clone(),
            candidate: *candidate,
        },
        Request::AwaitDriver { driver_id, wait_ms } => Request::AwaitDriver {
            driver_id: driver_id.clone(),
            wait_ms: *wait_ms,
        },
        Request::AwaitGrace { driver_id, wait_ms } => Request::AwaitGrace {
            driver_id: driver_id.clone(),
            wait_ms: *wait_ms,
        },
        Request::Sleep { ms } => Request::Sleep { ms: *ms },
        Request::Finished(res) => Request::Finished(copy_result(res)),
    }
}

impl DispatchCore {
    /// A fresh run, created at `now_ms`, that must be over by
    /// `dispatch_timeout_secs` later and gives each offer `ttl_ms` to be answered.
    pub fn new(ttl_ms: u64, max_attempts: usize, dispatch_timeout_secs: u64, now_ms: u64) -> (c:
        DispatchCore)
        ensures
            c.state == DispatchState::Idle,
            c.awaiting == Request::Tick,
            c.attempts == 0,
            c.max_attempts == max_attempts,
            c.current_radius_m == INITIAL_RADIUS_M,
            c.dispatch_deadline_ms == if now_ms + dispatch_timeout_secs * 1000 <= u64::MAX {
                now_ms + dispatch_timeout_secs * 1000
            } else {
                u64::MAX as int
            },
            c.ttl_ms == ttl_ms,
            c.grace_end_ms == 0,
            well_formed(c),
    {
        let deadline: u64 = if dispatch_timeout_secs <= (u64::MAX - now_ms) / 1000 {
            now_ms + dispatch_timeout_secs * 1000
        } else {
            u64::MAX
        };
        DispatchCore {
            state: DispatchState::Idle,
            awaiting: Request::Tick,
            attempts: 0,
            max_attempts,
            current_radius_m: INITIAL_RADIUS_M,
            dispatch_deadline_ms: deadline,
            ttl_ms,
            grace_end_ms: 0,
        }
    }

    fn await_next(&mut self, next: Request) -> (t: Transition)
        ensures
            *final(self) == awaiting_now(*old(self), next),
            t.effects@ == Seq::<Effect>::empty(),
            t.next == next,
    {
        self.awaiting = copy_request(&next);
        Transition { effects: Vec::new(), next }
    }

    fn expand_or_give_up(&mut self) -> (t: Transition)
        ensures
            (*final(self), t.effects@, t.next) == expand_or_give_up(*old(self)),
    {
        if self.current_radius_m < MAX_RADIUS_M {
            self.current_radius_m = self.current_radius_m + RADIUS_STEP_M;
            self.state = DispatchState::Searching { radius_m: self.current_radius_m };
            self.await_next(Request::Tick)
        } else {
            self.await_next(Request::Finished(DispatchResult::NoDriversAvailable))
        }
    }

    fn on_tick(&mut self, now_ms: u64) -> (t: Transition)
        ensures
            (*final(self), t.effects@, t.next) == on_tick(*old(self), now_ms),
    {
        if now_ms >= self.dispatch_deadline_ms {
            let mut effects: Vec<Effect> = Vec::new();
            effects.push(Effect::PublishDeadlineExceeded);
            match &self.state {
                DispatchState::OfferingRide { driver_id, .. } => {
                    effects.push(
                        Effect::ReleaseDriver {
                            driver_id: driver_id.clone(),
                            penalty_tenths: DEADLINE_PENALTY_TENTHS,
                            cooldown_ms: WITHDRAW_COOLDOWN_MS,
                        },
                    );
                },
                _ => {},
            }
            let next = Request::Finished(DispatchResult::DeadlineExceeded);
            self.awaiting = copy_request(&next);
            proof {
                let ghost cleanup = match old(self).state {
                    DispatchState::OfferingRide { driver_id, .. } => seq![
                        release(driver_id, DEADLINE_PENALTY_TENTHS, WITHDRAW_COOLDOWN_MS),
                    ],
                    _ => Seq::<Effect>::empty(),
                };
                assert(effects@ =~= seq![Effect::PublishDeadlineExceeded] + cleanup);
            }
            return Transition { effects, next };
        }
        match &self.state {
            DispatchState::Idle => {
                self.state = DispatchState::Searching { radius_m: self.current_radius_m };
                self.await_next(Request::Tick)
            },
            DispatchState::Searching { radius_m } => {
                let r = *radius_m;
                if self.attempts >= self.max_attempts {
                    let mut effects: Vec<Effect> = Vec::new();
                    effects.push(Effect::PublishMaxAttemptsReached);
                    let next = Request::Finished(DispatchResult::MaxAttemptsReached);
                    self.awaiting = copy_request(&next);
                    proof {
                        assert(effects@ =~= seq![Effect::PublishMaxAttemptsReached]);
                    }
                    Transition { effects, next }
                } else {
                    self.await_next(Request::Search { radius_m: r })
                }
            },
            DispatchState::AcquiringDriver => self.await_next(Request::PopCandidate),
            DispatchState::OfferingRide { driver_id, deadline_ms, .. } => {
                let next = Request::AwaitDriver {
                    driver_id: driver_id.clone(),
                    wait_ms: deadline_ms.saturating_sub(now_ms),
                };
                self.await_next(next)
            },
        }
    }

    fn on_searched(&mut self, outcome: SearchOutcome) -> (t: Transition)
        ensures
            (*final(self), t.effects@, t.next) == on_searched(*old(self), outcome),
    {
        match outcome {
            SearchOutcome::Found => {
                self.state = DispatchState::AcquiringDriver;
                self.await_next(Request::Tick)
            },
            SearchOutcome::NoneNearby => self.expand_or_give_up(),
            SearchOutcome::Failed => self.await_next(Request::Sleep { ms: SEARCH_RETRY_DELAY_MS }),
        }
    }

    fn on_popped(&mut self, popped: Option<String>) -> (t: Transition)
        ensures
            (*final(self), t.effects@, t.next) == on_popped(*old(self), popped),
    {
        match popped {
            Some(driver_id) => self.await_next(Request::Acquire { driver_id }),
            None => self.expand_or_give_up(),
        }
    }

    fn on_acquired(&mut self, outcome: AcquireOutcome) -> (t: Transition)
        ensures
            (*final(self), t.effects@, t.next) == on_acquired(*old(self), outcome),
    {
        match outcome {
            AcquireOutcome::Acquired { driver_id, candidate } => {
                self.attempts = self.attempts.saturating_add(1);
                self.await_next(Request::Offer { driver_id, candidate })
            },
            _ => self.await_next(Request::Tick),
        }
    }

    fn on_offered(&mut self, driver_id: String, candidate: CandidateRef, outcome: OfferOutcome) -> (t:
        Transition)
        ensures
            (*final(self), t.effects@, t.next) == on_offered(
                *old(self),
                driver_id,
                candidate,
                outcome,
            ),
    {
        match outcome {
            OfferOutcome::Sent { sent_at_ms } => {
                self.state = DispatchState::OfferingRide {
                    driver_id,
                    deadline_ms: sent_at_ms.saturating_add(self.ttl_ms),
                    offer_sent_at_ms: sent_at_ms,
                    candidate,
                };
                self.await_next(Request::Tick)
            },
            OfferOutcome::Failed => {
                self.state = DispatchState::AcquiringDriver;
                self.await_next(Request::Tick)
            },
        }
    }

    fn accept(&mut self, driver_id: String) -> (t: Transition)
        ensures
            (*final(self), t.effects@, t.next) == accept(*old(self), driver_id),
    {
        let candidate = match &self.state {
            DispatchState::OfferingRide { candidate, .. } => *candidate,
            _ => CandidateRef { position: 0, vehicle_category: VehicleCategory::Swift },
        };
        let mut effects: Vec<Effect> = Vec::new();
        effects.push(Effect::ConfirmDriver { driver_id: driver_id.clone() });
        let next = Request::Finished(DispatchResult::Success { driver_id, candidate });
        self.awaiting = copy_request(&next);
        proof {
            assert(effects@ =~= seq![Effect::ConfirmDriver { driver_id }]);
        }
        Transition { effects, next }
    }

    fn withdraw(&mut self, driver_id: String, result: DispatchResult) -> (t: Transition)
        ensures
            (*final(self), t.effects@, t.next) == withdraw(*old(self), driver_id, result),
    {
        let mut effects: Vec<Effect> = Vec::new();
        effects.push(
            Effect::ReleaseDriver { driver_id, penalty_tenths: 0,
                cooldown_ms: WITHDRAW_COOLDOWN_MS },
        );
        let next = Request::Finished(result);
        self.awaiting = copy_request(&next);
        proof {
            assert(effects@ =~= seq![release(driver_id, 0, WITHDRAW_COOLDOWN_MS)]);
        }
        Transition { effects, next }
    }

    fn lapse(&mut self, driver_id: String) -> (t: Transition)
        ensures
            (*final(self), t.effects@, t.next) == lapse(*old(self), driver_id),
    {
        let mut effects: Vec<Effect> = Vec::new();
        effects.push(
            Effect::ReleaseDriver {
                driver_id: driver_id.clone(),
                penalty_tenths: DECLINE_PENALTY_TENTHS,
                cooldown_ms: DECLINE_COOLDOWN_MS,
            },
        );
        effects.push(Effect::RecordOfferTimeout { driver_id });
        self.state = DispatchState::AcquiringDriver;
        self.awaiting = Request::Tick;
        proof {
            assert(effects@ =~= seq![
                release(driver_id, DECLINE_PENALTY_TENTHS, DECLINE_COOLDOWN_MS),
                Effect::RecordOfferTimeout { driver_id },
            ]);
        }
        Transition { effects, next: Request::Tick }
    }

    fn on_waited(&mut self, driver_id: String, outcome: WaitOutcome) -> (t: Transition)
        ensures
            (*final(self), t.effects@, t.next) == on_waited(*old(self), driver_id, outcome),
    {
        match outcome {
            WaitOutcome::Received { event, now_ms } => match event {
                DispatchEvent::CancelRequest => self.withdraw(
                    driver_id,
                    DispatchResult::CanceledRequest,
                ),
                DispatchEvent::DriverResponse(r) => {
                    if r.driver_id == driver_id {
                        if r.accepted {
                            self.accept(driver_id)
                        } else {
                            let mut effects: Vec<Effect> = Vec::new();
                            effects.push(
                                Effect::ReleaseDriver {
                                    driver_id,
                                    penalty_tenths: DECLINE_PENALTY_TENTHS,
                                    cooldown_ms: DECLINE_COOLDOWN_MS,
                                },
                            );
                            self.state = DispatchState::Searching {
                                radius_m: self.current_radius_m,
                            };
                            self.awaiting = Request::Tick;
                            proof {
                                assert(effects@ =~= seq![
                                    release(driver_id, DECLINE_PENALTY_TENTHS, DECLINE_COOLDOWN_MS),
                                ]);
                            }
                            Transition { effects, next: Request::Tick }
                        }
                    } else {
                        self.await_next(Request::Tick)
                    }
                },
            },
            WaitOutcome::Closed => self.withdraw(driver_id, DispatchResult::ChannelClosed),
            WaitOutcome::Lagged { .. } => self.await_next(Request::Tick),
            WaitOutcome::Expired { now_ms } => {
                self.grace_end_ms = now_ms.saturating_add(GRACE_PERIOD_MS);
                self.await_next(Request::AwaitGrace { driver_id, wait_ms: GRACE_PERIOD_MS })
            },
        }
    }

    fn keep_waiting_grace(&mut self, driver_id: String, now_ms: u64) -> (t: Transition)
        ensures
            (*final(self), t.effects@, t.next) == keep_waiting_grace(
                *old(self),
                driver_id,
                now_ms,
            ),
    {
        if now_ms >= self.grace_end_ms {
            self.lapse(driver_id)
        } else {
            let wait_ms = self.grace_end_ms - now_ms;
            self.await_next(Request::AwaitGrace { driver_id, wait_ms })
        }
    }

    fn on_waited_grace(&mut self, driver_id: String, outcome: WaitOutcome) -> (t: Transition)
        ensures
            (*final(self), t.effects@, t.next) == on_waited_grace(*old(self), driver_id, outcome),
    {
        match outcome {
            WaitOutcome::Received { event, now_ms } => match event {
                DispatchEvent::CancelRequest => self.lapse(driver_id),
                DispatchEvent::DriverResponse(r) => {
                    if r.driver_id == driver_id && r.accepted {
                        self.accept(driver_id)
                    } else {
                        self.keep_waiting_grace(driver_id, now_ms)
                    }
                },
            },
            WaitOutcome::Closed => self.lapse(driver_id),
            WaitOutcome::Lagged { now_ms } => self.keep_waiting_grace(driver_id, now_ms),
            WaitOutcome::Expired { .. } => self.lapse(driver_id),
        }
    }

    fn ignore(&mut self) -> (t: Transition)
        ensures
            (*final(self), t.effects@, t.next) == ignored(*old(self)),
    {
        Transition { effects: Vec::new(), next: copy_request(&self.awaiting) }
    }

    /// Feed the outcome of the last request (or the start of a new round) to the
    /// machine; returns the effects to carry out and the next request.
    pub fn step(&mut self, event: Event) -> (t: Transition)
        ensures
            (*final(self), t.effects@, t.next) == step_spec(*old(self), event),
    {
        match event {
            Event::Tick { now_ms } => match &self.awaiting {
                Request::Tick => self.on_tick(now_ms),
                Request::Sleep { .. } => self.on_tick(now_ms),
                _ => self.ignore(),
            },
            Event::Searched(outcome) => match &self.awaiting {
                Request::Search { .. } => self.on_searched(outcome),
                _ => self.ignore(),
            },
            Event::Popped(popped) => match &self.awaiting {
                Request::PopCandidate => self.on_popped(popped),
                _ => self.ignore(),
            },
            Event::Acquired(outcome) => match &self.awaiting {
                Request::Acquire { .. } => self.on_acquired(outcome),
                _ => self.ignore(),
            },
            Event::Offered(outcome) => {
                let pending = match &self.awaiting {
                    Request::Offer { driver_id, candidate } => Some((driver_id.clone(), *candidate)),
                    _ => None,
                };
                match pending {
                    Some((driver_id, candidate)) => self.on_offered(driver_id, candidate, outcome),
                    None => self.ignore(),
                }
            },
            Event::Waited(outcome) => {
                let pending = match &self.awaiting {
                    Request::AwaitDriver { driver_id, .. } => Some((driver_id.clone(), false)),
                    Request::AwaitGrace { driver_id, .. } => Some((driver_id.clone(), true)),
                    _ => None,
                };
                match pending {
                    Some((driver_id, false)) => self.on_waited(driver_id, outcome),
                    Some((driver_id, true)) => self.on_waited_grace(driver_id, outcome),
                    None => self.ignore(),
                }
            },
        }
    }
}

// ---------------------------------------------------------------------------
// Laws of a dispatch run.
// ---------------------------------------------------------------------------

/// The state a run can be in, given what it is waiting for; holds for a fresh
/// run and is kept by every step.
pub open spec fn well_formed(c: DispatchCore) -> bool {
    &&& INITIAL_RADIUS_M <= c.current_radius_m <= MAX_RADIUS_M
    &&& c.current_radius_m % RADIUS_STEP_M == INITIAL_RADIUS_M % RADIUS_STEP_M
    &&& (c.state matches DispatchState::Searching { radius_m } ==> radius_m == c.current_radius_m)
    &&& match c.awaiting {
        Request::Tick => true,
        Request::Finished(_) => true,
        Request::Search { radius_m } => c.state == DispatchState::Searching { radius_m },
        Request::Sleep { .. } => c.state is Searching,
        Request::PopCandidate => c.state is AcquiringDriver,
        Request::Acquire { .. } => c.state is AcquiringDriver,
        Request::Offer { .. } => c.state is AcquiringDriver,
        Request::AwaitDriver { driver_id, .. } => c.state matches DispatchState::OfferingRide {
            driver_id: d,
            ..
        } && d == driver_id,
        Request::AwaitGrace { driver_id, .. } => c.state matches DispatchState::OfferingRide {
            driver_id: d,
            ..
        } && d == driver_id,
    }
}

/// Whether the effects of a step include confirming or releasing `driver_id`.
pub open spec fn resolves(effects: Seq<Effect>, driver_id: String) -> bool {
    exists|i: int| 0 <= i < effects.len() && #[trigger] settles(effects[i], driver_id)
}

/// Whether an effect confirms or releases `driver_id`.
pub open spec fn settles(effect: Effect, driver_id: String) -> bool {
    match effect {
        Effect::ConfirmDriver { driver_id: d } => d == driver_id,
        Effect::ReleaseDriver { driver_id: d, .. } => d == driver_id,
        _ => false,
    }
}

/// A fresh run is well formed.
pub proof fn law_new_is_well_formed(c: DispatchCore)
    requires
        c.state == DispatchState::Idle,
        c.awaiting == Request::Tick,
        c.current_radius_m == INITIAL_RADIUS_M,
    ensures
        well_formed(c),
{
}

/// Every step keeps a run well formed, and the search radius never shrinks.
pub proof fn law_step_keeps_well_formed(c: DispatchCore, e: Event)
    requires
        well_formed(c),
    ensures
        well_formed(step_spec(c, e).0),
        step_spec(c, e).0.current_radius_m >= c.current_radius_m,
{
}

/// Once a run is finished, nothing moves it any more.
pub proof fn law_finished_is_terminal(c: DispatchCore, e: Event)
    requires
        c.awaiting is Finished,
    ensures
        step_spec(c, e) == (c, Seq::<Effect>::empty(), c.awaiting),
{
}

/// An answer from a driver other than the one offered the ride changes nothing
/// but starting the next round.
pub proof fn law_stale_response_is_ignored(c: DispatchCore, r: DriverResponse, now_ms: u64)
    requires
        c.awaiting matches Request::AwaitDriver { driver_id, .. } && r.driver_id@ != driver_id@,
    ensures
        ({
            let (n, effects, next) = step_spec(
                c,
                Event::Waited(
                    WaitOutcome::Received { event: DispatchEvent::DriverResponse(r), now_ms },
                ),
            );
            &&& n == awaiting_now(c, Request::Tick)
            &&& effects == Seq::<Effect>::empty()
            &&& next == Request::Tick
        }),
{
}

/// A run only succeeds with the driver it is offering the ride to, returns
/// that offer's candidate (and with it the pickup distance), and confirms the
/// driver in the same step.
pub proof fn law_success_confirms_offered_driver(
    c: DispatchCore,
    e: Event,
    winner: String,
    cand: CandidateRef,
)
    requires
        well_formed(c),
        !(c.awaiting is Finished),
        step_spec(c, e).2 == Request::Finished(
            (DispatchResult::Success { driver_id: winner, candidate: cand }),
        ),
    ensures
        c.state matches DispatchState::OfferingRide { driver_id, candidate, .. } && driver_id
            == winner && candidate == cand,
        step_spec(c, e).1 == seq![(Effect::ConfirmDriver { driver_id: winner })],
{
}

/// Law: a run succeeds only on an acceptance. The step that finishes a run
/// with `Success` for a driver is the one that receives that driver's response
/// with `accepted` set, in the offer window or in the grace period after it; a
/// decline, or anything else, never hands the ride over.
pub proof fn law_success_needs_acceptance(c: DispatchCore, e: Event, winner: String)
    requires
        !(c.awaiting is Finished),
        step_spec(c, e).2 matches Request::Finished(DispatchResult::Success { driver_id, .. })
            && driver_id == winner,
    ensures
        e matches Event::Waited(
            WaitOutcome::Received { event: DispatchEvent::DriverResponse(r), .. },
        ) && r.accepted && r.driver_id@ == winner@,
{
}

/// Law: in the grace period a decline does not end the offer. While a run waits
/// out the grace period for `driver_id`, a response that does not accept,
/// arriving before the grace period ends, has no effect and the run goes on
/// waiting for the rest of the grace period.
pub proof fn law_grace_decline_keeps_waiting(
    c: DispatchCore,
    driver_id: String,
    wait_ms: u64,
    r: DriverResponse,
    now_ms: u64,
)
    requires
        c.awaiting == (Request::AwaitGrace { driver_id, wait_ms }),
        !r.accepted,
        now_ms < c.grace_end_ms,
    ensures
        ({
            let (n, effects, next) = step_spec(
                c,
                Event::Waited(
                    WaitOutcome::Received { event: DispatchEvent::DriverResponse(r), now_ms },
                ),
            );
            &&& effects.len() == 0
            &&& next == (Request::AwaitGrace {
                driver_id,
                wait_ms: (c.grace_end_ms - now_ms) as u64,
            })
            &&& n.state == c.state
        }),
{
}

/// Only the driver the ride is being offered to is ever released.
pub proof fn law_only_offered_driver_is_released(
    c: DispatchCore,
    e: Event,
    i: int,
    driver_id: String,
    penalty_tenths: u32,
    cooldown_ms: u64,
)
    requires
        well_formed(c),
        0 <= i < step_spec(c, e).1.len(),
        step_spec(c, e).1[i] == (Effect::ReleaseDriver { driver_id, penalty_tenths, cooldown_ms }),
    ensures
        c.state matches DispatchState::OfferingRide { driver_id: d, .. } && d == driver_id,
{
}

/// When an offer ends, whether the run goes on or finishes, the offered driver
/// is either confirmed or released in that same step.
pub proof fn law_ended_offer_resolves_driver(c: DispatchCore, e: Event)
    requires
        well_formed(c),
        !(c.awaiting is Finished),
        c.state is OfferingRide,
        step_spec(c, e).0.state != c.state || step_spec(c, e).2 is Finished,
    ensures
        c.state matches DispatchState::OfferingRide { driver_id, .. } && resolves(
            step_spec(c, e).1,
            driver_id,
        ),
{
    let (n, effects, next) = step_spec(c, e);
    if let DispatchState::OfferingRide { driver_id, .. } = c.state {
        assert(effects.len() > 0);
        if settles(effects[0], driver_id) {
            assert(resolves(effects, driver_id));
        } else {
            assert(settles(effects[1], driver_id));
            assert(resolves(effects, driver_id));
        }
    }
}

/// A run gives up for lack of attempts only once the attempts are used up.
pub proof fn law_max_attempts_only_when_exhausted(c: DispatchCore, e: Event)
    requires
        !(c.awaiting is Finished),
        step_spec(c, e).2 == Request::Finished(DispatchResult::MaxAttemptsReached),
    ensures
        c.attempts >= c.max_attempts,
{
}

/// A round that starts at or after the dispatch deadline ends the run.
pub proof fn law_deadline_ends_run(c: DispatchCore, now_ms: u64)
    requires
        c.awaiting is Tick || c.awaiting is Sleep,
        now_ms >= c.dispatch_deadline_ms,
    ensures
        step_spec(c, (Event::Tick { now_ms })).2
            == Request::Finished(DispatchResult::DeadlineExceeded),
        step_spec(c, (Event::Tick { now_ms })).1[0] == Effect::PublishDeadlineExceeded,
{
}

/// A ride is offered only to a driver the pool has just handed over, with that
/// candidate's data, and each such offer counts as an attempt.
pub proof fn law_offer_follows_acquisition(
    c: DispatchCore,
    e: Event,
    driver_id: String,
    candidate: CandidateRef,
)
    requires
        !(c.awaiting is Offer),
        step_spec(c, e).2 == (Request::Offer { driver_id, candidate }),
    ensures
        c.awaiting is Acquire,
        e == Event::Acquired(AcquireOutcome::Acquired { driver_id, candidate }),
        step_spec(c, e).0.attempts == c.attempts.saturating_add(1),
{
}


/// A run gives up for want of drivers only when the radius had already
/// reached its limit.
pub proof fn law_gives_up_only_at_max_radius(c: DispatchCore, e: Event)
    requires
        !(c.awaiting is Finished),
        step_spec(c, e).2 == Request::Finished(DispatchResult::NoDriversAvailable),
    ensures
        c.current_radius_m >= MAX_RADIUS_M,
        well_formed(c) ==> c.current_radius_m == MAX_RADIUS_M,
{
}

} // verus!
