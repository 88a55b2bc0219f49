use sitwego_api::config::{parse_cluster_urls, redis_settings};

#[test]
fn cluster_urls_are_trimmed_and_blank_entries_dropped() {
    assert_eq!(
        parse_cluster_urls(" redis://a:7000 , redis://b:7001,,  ,redis://c:7002 "),
        vec!["redis://a:7000", "redis://b:7001", "redis://c:7002"]
    );
    assert!(parse_cluster_urls("").is_empty());
    assert!(parse_cluster_urls(" , ,").is_empty());
    assert_eq!(parse_cluster_urls("single"), vec!["single"]);
}

#[test]
fn development_uses_local_standalone_redis() {
    let s = redis_settings(true, "redis.prod", 6380, true, "a,b");
    assert_eq!(s.host, "localhost");
    assert_eq!(s.port, 6379);
    assert!(!s.cluster_enabled);
    assert!(s.cluster_urls.is_empty());
    assert_eq!(s.pool_size, 50);
    assert_eq!(s.reconnect_max_attempts, 10);
    assert_eq!(s.reconnect_delay_ms, 5000);
    assert_eq!(s.default_ttl_secs, 3600);
    assert_eq!(s.default_hash_ttl_secs, 3600);
    assert_eq!(s.stream_read_count, 100);
    assert_eq!(s.partition, 0);
    assert!(!s.use_legacy_version);
}

#[test]
fn other_environments_use_the_configuration() {
    let s = redis_settings(false, "redis.prod", 6380, true, "n1:1, n2:2");
    assert_eq!(s.host, "redis.prod");
    assert_eq!(s.port, 6380);
    assert!(s.cluster_enabled);
    assert_eq!(s.cluster_urls, vec!["n1:1", "n2:2"]);
    assert_eq!(s.pool_size, 50);
}
