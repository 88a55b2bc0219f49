use sitwego_api::helper::{
    create_bucket_key, current_time_ms, hash_password, ttl_to_datetime, verify_password,
    PasswordError, TimeStamp, TimestampError, UtcDateTime,
};

#[test]
fn test_hash_password_success() {
    let password = "TestPassword123!";
    let result = hash_password(password);

    assert!(result.is_ok(), "Hashing should succeed");
    let hash = result.unwrap();
    assert!(!hash.is_empty(), "Hash should not be empty");
    assert!(hash.starts_with("$argon2id$"), "Hash should use Argon2id identifier");
}

#[test]
fn test_verify_password_correct() {
    let password = "CorrectHorseBatteryStaple";
    let hash = hash_password(password).unwrap();

    let verification = verify_password(password, &hash);
    assert!(verification.is_ok(), "Verification should succeed");
    assert!(verification.unwrap(), "Correct password should verify");
}

#[test]
fn test_verify_password_incorrect() {
    let password = "CorrectHorseBatteryStaple";
    let wrong_password = "WrongPassword";
    let hash = hash_password(password).unwrap();

    let verification = verify_password(wrong_password, &hash);
    assert!(verification.is_ok(), "Verification should succeed");
    assert!(!verification.unwrap(), "Incorrect password should not verify");
}

#[test]
fn test_empty_password() {
    let password = "";
    let result = hash_password(password);

    assert!(result.is_ok(), "Hashing empty password should succeed");
    let hash = result.unwrap();
    let verification = verify_password(password, &hash);
    assert!(verification.is_ok() && verification.unwrap(), "Empty password should verify");
}

#[test]
fn test_invalid_hash_format() {
    let password = "TestPassword123!";
    let invalid_hash = "not_a_valid_hash";

    let verification = verify_password(password, invalid_hash);
    assert!(verification.is_err(), "Invalid hash format should fail");
}

#[test]
fn invalid_hash_error_says_why() {
    match verify_password("x", "not_a_valid_hash") {
        Err(PasswordError::InvalidHash(msg)) => assert!(msg.starts_with("Invalid hash format: ")),
        other => panic!("unexpected result {:?}", other),
    }
}

#[test]
fn two_hashes_of_one_password_differ_but_both_verify() {
    let a = hash_password("same").unwrap();
    let b = hash_password("same").unwrap();
    assert_ne!(a, b);
    assert!(verify_password("same", &a).unwrap());
    assert!(verify_password("same", &b).unwrap());
    assert!(!verify_password("Same", &a).unwrap());
}

#[test]
fn bucket_key_truncates_toward_zero() {
    assert_eq!(create_bucket_key(30, TimeStamp(0)), 0);
    assert_eq!(create_bucket_key(30, TimeStamp(59)), 1);
    assert_eq!(create_bucket_key(30, TimeStamp(60)), 2);
    assert_eq!(create_bucket_key(30, TimeStamp(1_700_000_015)), 56_666_667);
    assert_eq!(create_bucket_key(30, TimeStamp(-29)), 0);
    assert_eq!(create_bucket_key(30, TimeStamp(-31)), -1);
    assert_eq!(create_bucket_key(1, TimeStamp(i64::MIN)), i64::MIN);
    assert_eq!(create_bucket_key(7, TimeStamp(i64::MAX)), i64::MAX / 7);
    assert_eq!(create_bucket_key(-30, TimeStamp(59)), -1);
    assert_eq!(create_bucket_key(-30, TimeStamp(-61)), 2);
    assert_eq!(create_bucket_key(-1, TimeStamp(i64::MAX)), -i64::MAX);
    assert_eq!(create_bucket_key(i64::MIN, TimeStamp(i64::MIN)), 1);
}

#[test]
fn ttl_parses_rfc3339_to_utc() {
    assert_eq!(
        ttl_to_datetime("2026-01-22T04:30:13.377923Z"),
        Ok(UtcDateTime { unix_secs: 1_769_056_213, nanos: 377_923_000 })
    );
    assert_eq!(
        ttl_to_datetime("1970-01-01T03:00:00+03:00"),
        Ok(UtcDateTime { unix_secs: 0, nanos: 0 })
    );
    assert_eq!(ttl_to_datetime("not a time"), Err(TimestampError::NotRfc3339));
    assert_eq!(ttl_to_datetime("2026-01-22"), Err(TimestampError::NotRfc3339));
}

#[test]
fn clock_reads_after_2020() {
    assert!(current_time_ms().unwrap() > 1_577_836_800_000);
}
