//! The key layout of the Redis-backed driver pool and the argument lists its
//! Lua scripts expect.
//!
//! Data model:
//! - pool            (ZSET) driver_id -> score
//! - inflight        (ZSET) driver_id -> expiration timestamp
//! - inflight:score  (HASH) driver_id -> original score
//! - request map     (HASH) driver_id -> request_id
//! - pool:cooldown   (ZSET) driver_id -> cooldown-until timestamp
use vstd::prelude::*;
use vstd::string::*;

use crate::text::{decimal, decimal_string};

verus! {

/// Pool statistics for monitoring.
#[derive(Clone, Copy, Debug, PartialEq, Eq, Structural)]
pub struct PoolStats {
    pub available: i64,
    pub inflight: i64,
    pub cooldown: i64,
}

/// The Redis keys of one driver pool.
pub struct PoolKeys {
    pub pool_key: String,
    pub inflight_key: String,
    pub request_map_key: String,
    pub inflight_score_key: String,
    pub cooldown_key: String,
}

impl PoolKeys {
    /// The keys of a pool: the three given ones, the in-flight score hash at
    /// `<inflight>:score` and the cool-down set at `<pool>:cooldown`.
    pub fn new(pool_key: String, inflight_key: String, request_map_key: String) -> (k: PoolKeys)
        ensures
            k.pool_key@ == pool_key@,
            k.inflight_key@ == inflight_key@,
            k.request_map_key@ == request_map_key@,
            k.inflight_score_key@ == inflight_key@ + ":score"@,
            k.cooldown_key@ == pool_key@ + ":cooldown"@,
    {
        let inflight_score_key = inflight_key.clone().concat(":score");
        let cooldown_key = pool_key.clone().concat(":cooldown");
        PoolKeys { pool_key, inflight_key, request_map_key, inflight_score_key, cooldown_key }
    }

    /// The keys of the shared driver pool: `{drivers}:pool`,
    /// `{drivers}:inflight` and `{drivers}:request`, one hash slot for all.
    pub fn drivers() -> (k: PoolKeys)
        ensures
            k.pool_key@ == "{drivers}:pool"@,
            k.inflight_key@ == "{drivers}:inflight"@,
            k.request_map_key@ == "{drivers}:request"@,
            k.inflight_score_key@ == "{drivers}:inflight:score"@,
            k.cooldown_key@ == "{drivers}:pool:cooldown"@,
    {
        let k = PoolKeys::new(
            String::from_str("{drivers}:pool"),
            String::from_str("{drivers}:inflight"),
            String::from_str("{drivers}:request"),
        );
        proof {
            reveal_strlit("{drivers}:pool");
            reveal_strlit("{drivers}:inflight");
            reveal_strlit("{drivers}:request");
            reveal_strlit(":score");
            reveal_strlit(":cooldown");
            reveal_strlit("{drivers}:inflight:score");
            reveal_strlit("{drivers}:pool:cooldown");
            assert(k.inflight_score_key@ =~= "{drivers}:inflight:score"@);
            assert(k.cooldown_key@ =~= "{drivers}:pool:cooldown"@);
        }
        k
    }

    /// The KEYS of the acquire script: pool, in-flight, cool-down, request map,
    /// in-flight scores.
    pub fn acquire_script_keys(&self) -> (v: Vec<String>)
        ensures
            v@.map_values(|s: String| s@) == seq![
                self.pool_key@,
                self.inflight_key@,
                self.cooldown_key@,
                self.request_map_key@,
                self.inflight_score_key@,
            ],
    {
        let v = vec![
            self.pool_key.clone(),
            self.inflight_key.clone(),
            self.cooldown_key.clone(),
            self.request_map_key.clone(),
            self.inflight_score_key.clone(),
        ];
        assert(v@.map_values(|s: String| s@) =~= seq![
            self.pool_key@,
            self.inflight_key@,
            self.cooldown_key@,
            self.request_map_key@,
            self.inflight_score_key@,
        ]);
        v
    }

    /// The KEYS of the release script: pool, in-flight, in-flight scores,
    /// request map.
    pub fn release_script_keys(&self) -> (v: Vec<String>)
        ensures
            v@.map_values(|s: String| s@) == seq![
                self.pool_key@,
                self.inflight_key@,
                self.inflight_score_key@,
                self.request_map_key@,
            ],
    {
        let v = vec![
            self.pool_key.clone(),
            self.inflight_key.clone(),
            self.inflight_score_key.clone(),
            self.request_map_key.clone(),
        ];
        assert(v@.map_values(|s: String| s@) =~= seq![
            self.pool_key@,
            self.inflight_key@,
            self.inflight_score_key@,
            self.request_map_key@,
        ]);
        v
    }
}

/// The ARGV of the acquire script for one candidate: the request id, the
/// in-flight time-to-live in milliseconds, then the candidate.
pub fn acquire_args(request_id: &str, ttl_ms: u64, driver_id: &str) -> (v: Vec<String>)
    ensures
        v@.map_values(|s: String| s@) == seq![request_id@, decimal(ttl_ms as nat), driver_id@],
{
    let v = vec![String::from_str(request_id), decimal_string(ttl_ms), String::from_str(driver_id)];
    assert(v@.map_values(|s: String| s@) =~= seq![request_id@, decimal(ttl_ms as nat), driver_id@]);
    v
}

} // verus!
