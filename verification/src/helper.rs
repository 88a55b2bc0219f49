//! Time bucketing, timestamps, wall-clock time and password hashing.
use argon2::{Argon2, PasswordHasher, PasswordVerifier};
use argon2::password_hash::{PasswordHash, SaltString, rand_core::OsRng};
use std::time::{SystemTime, UNIX_EPOCH};
use vstd::prelude::*;
use vstd::string::*;

verus! {

/// An instant, as whole seconds since the Unix epoch.
#[derive(Clone, Copy, Debug, PartialEq, Eq, Structural)]
pub struct TimeStamp(pub i64);

/// An instant in UTC: whole seconds since the Unix epoch and the nanoseconds
/// past them.
#[derive(Clone, Copy, Debug, PartialEq, Eq, Structural)]
pub struct UtcDateTime {
    pub unix_secs: i64,
    pub nanos: u32,
}

/// Why a timestamp text was refused.
#[derive(Clone, Copy, Debug, PartialEq, Eq, Structural)]
pub enum TimestampError {
    /// The text is not an RFC 3339 date and time.
    NotRfc3339,
}

/// Why hashing or checking a password failed.
#[derive(Debug)]
pub enum PasswordError {
    /// Hashing the password failed; the message says why.
    Hashing(String),
    /// The stored hash is not a well-formed PHC string; the message says why.
    InvalidHash(String),
}

/// Division of `a` by a non-zero `b`, rounding toward zero as Rust's `/` does.
pub open spec fn div_toward_zero(a: int, b: int) -> int {
    let q = (if a >= 0 { a } else { -a }) / (if b >= 0 { b } else { -b });
    if (a >= 0) == (b >= 0) {
        q
    } else {
        -q
    }
}

/// The instant an RFC 3339 text names, as chrono parses it: seconds since the
/// Unix epoch and nanoseconds past them; `None` when it does not parse.
pub uninterp spec fn rfc3339_instant(text: Seq<char>) -> Option<(i64, u32)>;

/// Whether a text is a well-formed PHC password-hash string.
pub uninterp spec fn phc_parses(hash: Seq<char>) -> bool;

/// Whether a password matches a PHC hash string under Argon2.
pub uninterp spec fn argon2_accepts(password: Seq<char>, hash: Seq<char>) -> bool;

/// Number of the `bucket_size`-second bucket an instant falls in, by Rust's
/// integer division (rounding toward zero). A zero size, and the one quotient
/// that does not fit (`i64::MIN / -1`), are left out: Rust's `/` panics on them.
pub fn create_bucket_key(bucket_size: i64, ts: TimeStamp) -> (key: i64)
    requires
        bucket_size != 0,
        !(ts.0 == i64::MIN && bucket_size == -1),
    ensures
        key == div_toward_zero(ts.0 as int, bucket_size as int),
{
    let a: i128 = if ts.0 >= 0 { ts.0 as i128 } else { -(ts.0 as i128) };
    let b: i128 = if bucket_size >= 0 { bucket_size as i128 } else { -(bucket_size as i128) };
    let q: i128 = a / b;
    proof {
        assert(0 <= q <= a) by (nonlinear_arith)
            requires
                0 <= a,
                1 <= b,
                q == a / b,
        ;
        if b == 1 && a == 0x8000_0000_0000_0000 {
            assert(ts.0 == i64::MIN);
        }
    }
    if (ts.0 >= 0) == (bucket_size >= 0) {
        proof {
            if q == 0x8000_0000_0000_0000 {
                assert(a == 0x8000_0000_0000_0000) by (nonlinear_arith)
                    requires
                        q == a / b,
                        1 <= b,
                        0 <= a <= 0x8000_0000_0000_0000,
                        q == 0x8000_0000_0000_0000,
                ;
                assert(b == 1) by (nonlinear_arith)
                    requires
                        q == a / b,
                        1 <= b,
                        a == 0x8000_0000_0000_0000,
                        q == 0x8000_0000_0000_0000,
                ;
            }
        }
        q as i64
    } else {
        (-q) as i64
    }
}

/// Calls `chrono::DateTime::parse_from_rfc3339` and converts the instant to
/// UTC. Claimed: the result depends on the text alone.
#[verifier::external_body]
fn parse_rfc3339(text: &str) -> (r: Option<UtcDateTime>)
    ensures
        r matches Some(t) ==> rfc3339_instant(text@) == Some((t.unix_secs, t.nanos)),
        r is None <==> rfc3339_instant(text@) is None,
{
    match chrono::DateTime::parse_from_rfc3339(text) {
        Ok(dt) => {
            let utc = dt.with_timezone(&chrono::Utc);
            Some(UtcDateTime { unix_secs: utc.timestamp(), nanos: utc.timestamp_subsec_nanos() })
        },
        Err(_) => None,
    }
}

/// The UTC instant of an RFC 3339 timestamp, such as a notification's expiry.
pub fn ttl_to_datetime(ttl: &str) -> (r: Result<UtcDateTime, TimestampError>)
    ensures
        r matches Ok(t) ==> rfc3339_instant(ttl@) == Some((t.unix_secs, t.nanos)),
        r is Err <==> rfc3339_instant(ttl@) is None,
{
    match parse_rfc3339(ttl) {
        Some(t) => Ok(t),
        None => Err(TimestampError::NotRfc3339),
    }
}

/// Reads `SystemTime::now` and measures it from `UNIX_EPOCH` in whole
/// milliseconds. Not claimed: which instant (it is the clock's); `None` when
/// the clock reads before 1970 or beyond what a `u64` of milliseconds holds.
#[verifier::external_body]
pub fn current_time_ms() -> (r: Option<u64>) {
    match SystemTime::now().duration_since(UNIX_EPOCH) {
        Ok(d) => u64::try_from(d.as_millis()).ok(),
        Err(_) => None,
    }
}

/// Calls `Argon2::hash_password` with default parameters and a fresh random
/// salt from the OS, and renders the result as a PHC string. Claimed: a hash
/// it returns starts with `$argon2id$` (the default algorithm, then the
/// version field), is a well-formed PHC string, and verifies the password it
/// was made from; and hashing succeeds whenever the password fits in the
/// `u32::MAX` bytes argon2 accepts (a character takes at most four bytes).
/// Not claimed: anything about the salt, which is random.
#[verifier::external_body]
fn argon2_hash(password: &str) -> (r: Result<String, String>)
    ensures
        password@.len() <= 0x3FFF_FFFF ==> r is Ok,
        r matches Ok(h) ==> ("$argon2id$"@).is_prefix_of(h@) && phc_parses(h@) && argon2_accepts(
            password@,
            h@,
        ),
{
    let salt = SaltString::generate(&mut OsRng);
    match Argon2::default().hash_password(password.as_bytes(), &salt) {
        Ok(h) => Ok(h.to_string()),
        Err(e) => Err(e.to_string()),
    }
}

/// Calls `PasswordHash::new` on `hash` and, when that succeeds,
/// `Argon2::verify_password` on the parsed hash. Claimed: the result is `Ok`
/// exactly when the hash is a well-formed PHC string, and then says whether the
/// password is accepted; both depend on the arguments alone.
#[verifier::external_body]
fn argon2_check(password: &str, hash: &str) -> (r: Result<bool, String>)
    ensures
        r is Ok <==> phc_parses(hash@),
        r matches Ok(b) ==> b == argon2_accepts(password@, hash@),
{
    match PasswordHash::new(hash) {
        Ok(parsed) => Ok(Argon2::default().verify_password(password.as_bytes(), &parsed).is_ok()),
        Err(e) => Err(e.to_string()),
    }
}

/// Hashes a password with Argon2id (default parameters, random salt) and
/// returns the PHC string: algorithm, parameters, salt and hash.
pub fn hash_password(password: &str) -> (r: Result<String, PasswordError>)
    ensures
        r matches Ok(h) ==> ("$argon2id$"@).is_prefix_of(h@) && phc_parses(h@) && argon2_accepts(
            password@,
            h@,
        ),
        password@.len() <= 0x3FFF_FFFF ==> r is Ok,
        r matches Err(e) ==> (e matches PasswordError::Hashing(m) && ("Hashing failed: "@).is_prefix_of(
            m@,
        )),
{
    match argon2_hash(password) {
        Ok(h) => Ok(h),
        Err(msg) => {
            let m = String::from_str("Hashing failed: ").concat(msg.as_str());
            proof {
                reveal_strlit("Hashing failed: ");
                assert(("Hashing failed: "@).is_prefix_of(m@)) by {
                    assert(m@.subrange(0, ("Hashing failed: "@).len() as int) =~= "Hashing failed: "@);
                }
            }
            Err(PasswordError::Hashing(m))
        },
    }
}

/// Checks a password against a stored PHC hash string.
pub fn verify_password(password: &str, hash: &str) -> (r: Result<bool, PasswordError>)
    ensures
        r is Ok <==> phc_parses(hash@),
        r matches Ok(b) ==> b == argon2_accepts(password@, hash@),
        r matches Err(e) ==> (e matches PasswordError::InvalidHash(m) && (
        "Invalid hash format: "@).is_prefix_of(m@)),
{
    match argon2_check(password, hash) {
        Ok(b) => Ok(b),
        Err(msg) => {
            let m = String::from_str("Invalid hash format: ").concat(msg.as_str());
            proof {
                assert(("Invalid hash format: "@).is_prefix_of(m@)) by {
                    assert(m@.subrange(0, ("Invalid hash format: "@).len() as int)
                        =~= "Invalid hash format: "@);
                }
            }
            Err(PasswordError::InvalidHash(m))
        },
    }
}

} // verus!
