use sitwego_api::dispatch::pool::{acquire_args, PoolKeys, PoolStats};
use sitwego_api::dispatch::ranking::{
    acquisition_outcome, calculate_acceptance_rate, first_occurrences, nearby_drivers,
    search_categories, AcceptanceRatio, CategoryHits, RankedCandidate, ScriptReply,
};
use sitwego_api::helper::TimeStamp;
use sitwego_api::dispatch::state_machine::{
    AcquireOutcome, CandidateRef, DispatchCore, DispatchEvent, DispatchResult, DispatchState, DriverResponse,
    Effect, Event, OfferOutcome, Request, SearchOutcome, WaitOutcome, DECLINE_COOLDOWN_MS,
    DECLINE_PENALTY_TENTHS, DEADLINE_PENALTY_TENTHS, GRACE_PERIOD_MS, INITIAL_RADIUS_M,
    MAX_RADIUS_M, RADIUS_STEP_M, SEARCH_RETRY_DELAY_MS, WITHDRAW_COOLDOWN_MS,
};
use sitwego_api::vehicle::{all_vehicle_categories, VehicleCategory};

fn fresh_core() -> DispatchCore {
    // Offers live 10 s, at most 3 attempts, the run must end within 60 s.
    DispatchCore::new(10_000, 3, 60, 1_000)
}

/// The candidate the tests acquire: third in the ranked list, a Comfort car.
fn cand() -> CandidateRef {
    CandidateRef { position: 2, vehicle_category: VehicleCategory::Comfort }
}

fn acquired(driver: &str) -> AcquireOutcome {
    AcquireOutcome::Acquired { driver_id: driver.to_string(), candidate: cand() }
}

fn release(driver_id: &str, penalty_tenths: u32, cooldown_ms: u64) -> Effect {
    Effect::ReleaseDriver { driver_id: driver_id.to_string(), penalty_tenths, cooldown_ms }
}

/// Drives a fresh run up to the point where `driver` has been offered the ride.
fn offered(driver: &str) -> DispatchCore {
    let mut c = fresh_core();
    assert_eq!(c.step(Event::Tick { now_ms: 1_000 }).next, Request::Tick);
    assert_eq!(
        c.step(Event::Tick { now_ms: 1_001 }).next,
        Request::Search { radius_m: INITIAL_RADIUS_M }
    );
    assert_eq!(c.step(Event::Searched(SearchOutcome::Found)).next, Request::Tick);
    assert_eq!(c.step(Event::Tick { now_ms: 1_002 }).next, Request::PopCandidate);
    assert_eq!(
        c.step(Event::Popped(Some(driver.to_string()))).next,
        Request::Acquire { driver_id: driver.to_string() }
    );
    assert_eq!(
        c.step(Event::Acquired(acquired(driver))).next,
        Request::Offer { driver_id: driver.to_string(), candidate: cand() }
    );
    assert_eq!(
        c.step(Event::Offered(OfferOutcome::Sent { sent_at_ms: 2_000 })).next,
        Request::Tick
    );
    c
}

fn response(driver: &str, accepted: bool) -> Event {
    Event::Waited(WaitOutcome::Received {
        event: DispatchEvent::DriverResponse(DriverResponse {
            driver_id: driver.to_string(),
            accepted,
            response_time_ms: 300,
        }),
        now_ms: 2_500,
    })
}

#[test]
fn new_run_starts_idle_with_initial_radius() {
    let c = fresh_core();
    assert_eq!(c.state, DispatchState::Idle);
    assert_eq!(c.awaiting, Request::Tick);
    assert_eq!(c.attempts, 0);
    assert_eq!(c.current_radius_m, INITIAL_RADIUS_M);
    assert_eq!(c.dispatch_deadline_ms, 61_000);
    assert_eq!(c.grace_end_ms, 0);
}

#[test]
fn full_run_to_acceptance_confirms_driver() {
    let mut c = offered("d1");
    assert_eq!(c.attempts, 1);
    assert_eq!(
        c.state,
        DispatchState::OfferingRide {
            driver_id: "d1".to_string(),
            deadline_ms: 12_000,
            offer_sent_at_ms: 2_000,
            candidate: cand(),
        }
    );
    let t = c.step(Event::Tick { now_ms: 2_100 });
    assert_eq!(t.next, Request::AwaitDriver { driver_id: "d1".to_string(), wait_ms: 9_900 });
    let t = c.step(response("d1", true));
    assert_eq!(t.effects, vec![Effect::ConfirmDriver { driver_id: "d1".to_string() }]);
    assert_eq!(t.next, Request::Finished(DispatchResult::Success { driver_id: "d1".to_string(), candidate: cand() }));
}

#[test]
fn decline_releases_with_penalty_and_searches_again() {
    let mut c = offered("d1");
    c.step(Event::Tick { now_ms: 2_100 });
    let t = c.step(response("d1", false));
    assert_eq!(t.effects, vec![release("d1", DECLINE_PENALTY_TENTHS, DECLINE_COOLDOWN_MS)]);
    assert_eq!(t.next, Request::Tick);
    assert_eq!(c.state, DispatchState::Searching { radius_m: INITIAL_RADIUS_M });
}

#[test]
fn response_from_another_driver_is_ignored() {
    let mut c = offered("d1");
    c.step(Event::Tick { now_ms: 2_100 });
    let before_state = DispatchState::OfferingRide {
        driver_id: "d1".to_string(),
        deadline_ms: 12_000,
        offer_sent_at_ms: 2_000,
        candidate: cand(),
    };
    let t = c.step(response("someone-else", true));
    assert!(t.effects.is_empty());
    assert_eq!(t.next, Request::Tick);
    assert_eq!(c.state, before_state);
}

#[test]
fn cancel_withdraws_the_offer() {
    let mut c = offered("d1");
    c.step(Event::Tick { now_ms: 2_100 });
    let t = c.step(Event::Waited(WaitOutcome::Received {
        event: DispatchEvent::CancelRequest,
        now_ms: 2_200,
    }));
    assert_eq!(t.effects, vec![release("d1", 0, WITHDRAW_COOLDOWN_MS)]);
    assert_eq!(t.next, Request::Finished(DispatchResult::CanceledRequest));
}

#[test]
fn closed_channel_withdraws_the_offer() {
    let mut c = offered("d1");
    c.step(Event::Tick { now_ms: 2_100 });
    let t = c.step(Event::Waited(WaitOutcome::Closed));
    assert_eq!(t.effects, vec![release("d1", 0, WITHDRAW_COOLDOWN_MS)]);
    assert_eq!(t.next, Request::Finished(DispatchResult::ChannelClosed));
}

#[test]
fn late_acceptance_within_grace_is_accepted() {
    let mut c = offered("d1");
    c.step(Event::Tick { now_ms: 2_100 });
    let t = c.step(Event::Waited(WaitOutcome::Expired { now_ms: 12_000 }));
    assert_eq!(t.next, Request::AwaitGrace { driver_id: "d1".to_string(), wait_ms: GRACE_PERIOD_MS });
    assert_eq!(c.grace_end_ms, 27_000);
    let t = c.step(response("d1", true));
    assert_eq!(t.next, Request::Finished(DispatchResult::Success { driver_id: "d1".to_string(), candidate: cand() }));
}

#[test]
fn lapsed_offer_releases_and_records_timeout() {
    let mut c = offered("d1");
    c.step(Event::Tick { now_ms: 2_100 });
    c.step(Event::Waited(WaitOutcome::Expired { now_ms: 12_000 }));
    let t = c.step(Event::Waited(WaitOutcome::Expired { now_ms: 27_000 }));
    assert_eq!(
        t.effects,
        vec![
            release("d1", DECLINE_PENALTY_TENTHS, DECLINE_COOLDOWN_MS),
            Effect::RecordOfferTimeout { driver_id: "d1".to_string() },
        ]
    );
    assert_eq!(c.state, DispatchState::AcquiringDriver);
}

#[test]
fn lagging_during_grace_keeps_waiting_for_the_rest() {
    let mut c = offered("d1");
    c.step(Event::Tick { now_ms: 2_100 });
    c.step(Event::Waited(WaitOutcome::Expired { now_ms: 12_000 }));
    let t = c.step(Event::Waited(WaitOutcome::Lagged { now_ms: 20_000 }));
    assert_eq!(t.next, Request::AwaitGrace { driver_id: "d1".to_string(), wait_ms: 7_000 });
    assert!(t.effects.is_empty());
}

#[test]
fn deadline_ends_run_and_releases_offered_driver() {
    let mut c = offered("d1");
    let t = c.step(Event::Tick { now_ms: 61_000 });
    assert_eq!(
        t.effects,
        vec![Effect::PublishDeadlineExceeded, release("d1", DEADLINE_PENALTY_TENTHS, WITHDRAW_COOLDOWN_MS)]
    );
    assert_eq!(t.next, Request::Finished(DispatchResult::DeadlineExceeded));
}

#[test]
fn empty_area_grows_radius_until_the_limit() {
    let mut c = fresh_core();
    c.step(Event::Tick { now_ms: 1_000 });
    let mut radius = INITIAL_RADIUS_M;
    loop {
        let t = c.step(Event::Tick { now_ms: 1_001 });
        assert_eq!(t.next, Request::Search { radius_m: radius });
        let t = c.step(Event::Searched(SearchOutcome::NoneNearby));
        if radius < MAX_RADIUS_M {
            radius += RADIUS_STEP_M;
            assert_eq!(t.next, Request::Tick);
            assert_eq!(c.current_radius_m, radius);
        } else {
            assert_eq!(t.next, Request::Finished(DispatchResult::NoDriversAvailable));
            break;
        }
    }
    assert_eq!(radius, MAX_RADIUS_M);
}

#[test]
fn failed_search_backs_off_then_retries() {
    let mut c = fresh_core();
    c.step(Event::Tick { now_ms: 1_000 });
    c.step(Event::Tick { now_ms: 1_001 });
    let t = c.step(Event::Searched(SearchOutcome::Failed));
    assert_eq!(t.next, Request::Sleep { ms: SEARCH_RETRY_DELAY_MS });
    let t = c.step(Event::Tick { now_ms: 1_600 });
    assert_eq!(t.next, Request::Search { radius_m: INITIAL_RADIUS_M });
}

#[test]
fn max_attempts_reached_after_declines() {
    let mut c = DispatchCore::new(10_000, 1, 60, 1_000);
    c.step(Event::Tick { now_ms: 1_000 });
    c.step(Event::Tick { now_ms: 1_001 });
    c.step(Event::Searched(SearchOutcome::Found));
    c.step(Event::Tick { now_ms: 1_002 });
    c.step(Event::Popped(Some("d1".to_string())));
    c.step(Event::Acquired(acquired("d1")));
    c.step(Event::Offered(OfferOutcome::Sent { sent_at_ms: 2_000 }));
    c.step(Event::Tick { now_ms: 2_100 });
    c.step(response("d1", false));
    let t = c.step(Event::Tick { now_ms: 3_000 });
    assert_eq!(t.effects, vec![Effect::PublishMaxAttemptsReached]);
    assert_eq!(t.next, Request::Finished(DispatchResult::MaxAttemptsReached));
}

#[test]
fn unacquired_candidate_moves_to_next() {
    let mut c = fresh_core();
    c.step(Event::Tick { now_ms: 1_000 });
    c.step(Event::Tick { now_ms: 1_001 });
    c.step(Event::Searched(SearchOutcome::Found));
    c.step(Event::Tick { now_ms: 1_002 });
    c.step(Event::Popped(Some("d1".to_string())));
    let t = c.step(Event::Acquired(AcquireOutcome::NotAcquired));
    assert_eq!(t.next, Request::Tick);
    assert_eq!(c.attempts, 0);
    let t = c.step(Event::Tick { now_ms: 1_003 });
    assert_eq!(t.next, Request::PopCandidate);
}

#[test]
fn failed_offer_goes_back_to_acquiring() {
    let mut c = fresh_core();
    c.step(Event::Tick { now_ms: 1_000 });
    c.step(Event::Tick { now_ms: 1_001 });
    c.step(Event::Searched(SearchOutcome::Found));
    c.step(Event::Tick { now_ms: 1_002 });
    c.step(Event::Popped(Some("d1".to_string())));
    c.step(Event::Acquired(acquired("d1")));
    let t = c.step(Event::Offered(OfferOutcome::Failed));
    assert_eq!(t.next, Request::Tick);
    assert_eq!(c.state, DispatchState::AcquiringDriver);
}

#[test]
fn finished_run_ignores_everything() {
    let mut c = offered("d1");
    c.step(Event::Tick { now_ms: 2_100 });
    c.step(response("d1", true));
    let t = c.step(Event::Tick { now_ms: 3_000 });
    assert!(t.effects.is_empty());
    assert_eq!(t.next, Request::Finished(DispatchResult::Success { driver_id: "d1".to_string(), candidate: cand() }));
}

#[test]
fn unexpected_event_is_ignored() {
    let mut c = fresh_core();
    let t = c.step(Event::Popped(Some("d9".to_string())));
    assert!(t.effects.is_empty());
    assert_eq!(t.next, Request::Tick);
    assert_eq!(c.state, DispatchState::Idle);
}

#[test]
fn pool_keys_follow_the_layout() {
    let keys = PoolKeys::new(
        "{drivers}:pool".to_string(),
        "{drivers}:inflight".to_string(),
        "{drivers}:request".to_string(),
    );
    assert_eq!(keys.inflight_score_key, "{drivers}:inflight:score");
    assert_eq!(keys.cooldown_key, "{drivers}:pool:cooldown");
    assert_eq!(
        keys.acquire_script_keys(),
        vec![
            "{drivers}:pool",
            "{drivers}:inflight",
            "{drivers}:pool:cooldown",
            "{drivers}:request",
            "{drivers}:inflight:score"
        ]
    );
    assert_eq!(
        keys.release_script_keys(),
        vec!["{drivers}:pool", "{drivers}:inflight", "{drivers}:inflight:score", "{drivers}:request"]
    );
}

#[test]
fn acquire_args_render_the_ttl() {
    assert_eq!(acquire_args("req-1", 30_000, "d7"), vec!["req-1", "30000", "d7"]);
    assert_eq!(acquire_args("r", 0, "d"), vec!["r", "0", "d"]);
}

#[test]
fn pool_stats_compare_by_fields() {
    let a = PoolStats { available: 3, inflight: 1, cooldown: 0 };
    assert_eq!(a, PoolStats { available: 3, inflight: 1, cooldown: 0 });
}

#[test]
fn acceptance_rate_cases() {
    assert_eq!(calculate_acceptance_rate(0, 0), AcceptanceRatio { numerator: 1, denominator: 1 });
    assert_eq!(calculate_acceptance_rate(-5, 2), AcceptanceRatio { numerator: 1, denominator: 1 });
    assert_eq!(calculate_acceptance_rate(10, 4), AcceptanceRatio { numerator: 6, denominator: 10 });
    assert_eq!(calculate_acceptance_rate(10, -4), AcceptanceRatio { numerator: 10, denominator: 10 });
    assert_eq!(calculate_acceptance_rate(3, 7), AcceptanceRatio { numerator: 0, denominator: 1 });
}

#[test]
fn search_categories_default_to_all() {
    assert_eq!(search_categories(None), all_vehicle_categories());
    let wanted = [VehicleCategory::Women, VehicleCategory::Bike];
    assert_eq!(search_categories(Some(&wanted)), wanted.to_vec());
}

#[test]
fn first_occurrences_keep_first_hit_per_driver() {
    let ids: Vec<String> = ["a", "b", "a", "c", "b", "d"].iter().map(|s| s.to_string()).collect();
    assert_eq!(first_occurrences(&ids), vec![0, 1, 3, 5]);
    assert!(first_occurrences(&[]).is_empty());
}

#[test]
fn acquisition_carries_the_ranked_candidate() {
    let ranked = vec![
        RankedCandidate { driver_id: "d0".to_string(), vehicle_category: VehicleCategory::Swift },
        RankedCandidate { driver_id: "d7".to_string(), vehicle_category: VehicleCategory::Xl },
        RankedCandidate { driver_id: "d7".to_string(), vehicle_category: VehicleCategory::Bike },
    ];
    assert_eq!(
        acquisition_outcome(&ranked, ScriptReply::Acquired("d7".to_string())),
        AcquireOutcome::Acquired {
            driver_id: "d7".to_string(),
            candidate: CandidateRef { position: 1, vehicle_category: VehicleCategory::Xl },
        }
    );
    assert_eq!(acquisition_outcome(&ranked, ScriptReply::Acquired("dx".to_string())), AcquireOutcome::Failed);
    assert_eq!(acquisition_outcome(&ranked, ScriptReply::NoneAcquired), AcquireOutcome::NotAcquired);
    assert_eq!(acquisition_outcome(&ranked, ScriptReply::Failed), AcquireOutcome::Failed);
}

#[test]
fn nearby_list_pairs_hits_with_last_locations() {
    let results = vec![
        CategoryHits {
            vehicle_category: VehicleCategory::Swift,
            driver_ids: vec!["a".to_string(), "b".to_string(), "c".to_string()],
            last_seen: vec![Some(TimeStamp(100)), None],
        },
        CategoryHits {
            vehicle_category: VehicleCategory::Bike,
            driver_ids: vec!["d".to_string()],
            last_seen: vec![Some(TimeStamp(7)), Some(TimeStamp(8))],
        },
    ];
    let list = nearby_drivers(&results, TimeStamp(999));
    let view: Vec<(VehicleCategory, usize, &str, i64)> =
        list.iter().map(|e| (e.vehicle_category, e.hit, e.driver_id.as_str(), e.timestamp.0)).collect();
    assert_eq!(
        view,
        vec![
            (VehicleCategory::Swift, 0, "a", 100),
            (VehicleCategory::Swift, 1, "b", 999),
            (VehicleCategory::Bike, 0, "d", 7),
        ]
    );
}

#[test]
fn the_shared_driver_pool_keys() {
    let keys = PoolKeys::drivers();
    assert_eq!(keys.pool_key, "{drivers}:pool");
    assert_eq!(keys.inflight_key, "{drivers}:inflight");
    assert_eq!(keys.request_map_key, "{drivers}:request");
    assert_eq!(keys.inflight_score_key, "{drivers}:inflight:score");
    assert_eq!(keys.cooldown_key, "{drivers}:pool:cooldown");
}

#[test]
fn a_deadline_past_the_clock_range_saturates() {
    let c = DispatchCore::new(10_000, 3, u64::MAX, 1_000);
    assert_eq!(c.dispatch_deadline_ms, u64::MAX);
    let c = DispatchCore::new(10_000, 3, 60, 1_000);
    assert_eq!(c.dispatch_deadline_ms, 61_000);
}
