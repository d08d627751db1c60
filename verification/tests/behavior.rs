use quic_config_cache::Cache;
use quic_config_cache::Config;
use quic_config_cache::QuicSettings;
use quic_config_cache::state::State;

#[test]
fn settings_record_exact() {
    let config = Config::from_cert_path(Some("certs/here")).unwrap();
    let settings: QuicSettings = config.take(|s| s.clone());
    assert!(settings.verify_peer);
    assert_eq!(settings.cert_dir, Some("certs/here".to_string()));
    assert_eq!(settings.version, 1);
    assert_eq!(settings.application_protos, vec![b"h3".to_vec()]);
    assert_eq!(settings.max_idle_timeout_ms, 180000);
    assert_eq!(settings.max_recv_udp_payload_size, 1350);
    assert_eq!(settings.initial_max_data, 10000000);
    assert_eq!(settings.initial_max_stream_data_bidi_local, 1000000);
    assert_eq!(settings.initial_max_stream_data_bidi_remote, 1000000);
    assert_eq!(settings.initial_max_stream_data_uni, 1000000);
    assert_eq!(settings.initial_max_streams_bidi, 100);
    assert_eq!(settings.initial_max_streams_uni, 100);
    assert!(settings.disable_active_migration);

    let unverified = Config::from_cert_path(None).unwrap();
    let settings = unverified.take(|s| s.clone());
    assert!(!settings.verify_peer);
    assert_eq!(settings.cert_dir, None);
}

#[test]
fn invalid_path_rejected() {
    // An interior NUL cannot reach the TLS library as a C string.
    assert!(Config::from_cert_path(Some("certs\0dir")).is_err());
    let cache = Cache::new();
    let err = cache.from_cert_path(&Some("certs\0dir".to_string()));
    assert!(err.is_err());
    // Nothing was installed by the failed fetch.
    assert_eq!(cache.entry_count(), 0);
}

#[test]
fn exclusive_access_shares_one_resource() {
    let cache = Cache::new();
    let first = cache.from_cert_path(&None).unwrap();
    let second = cache.from_cert_path(&None).unwrap();
    // A write through one handle is seen through the other: both own the
    // same resource, not copies of it.
    first.take(|s| s.max_idle_timeout_ms = 42);
    assert_eq!(second.take(|s| s.max_idle_timeout_ms), 42);
}

#[test]
fn weak_handle_identity() {
    let config = Config::from_cert_path(None).unwrap();
    let weak = config.to_weak();
    assert_eq!(weak.strong_count(), 1);
    let upgraded = weak.upgrade().unwrap();
    assert_eq!(config.strong_count(), 2);
    // The upgraded handle reaches the very same resource.
    config.take(|s| s.initial_max_data = 7);
    assert_eq!(upgraded.take(|s| s.initial_max_data), 7);
    drop(config);
    drop(upgraded);
    assert_eq!(weak.strong_count(), 0);
    assert!(weak.upgrade().is_none());
}

#[test]
fn garbage_collect_prunes_only_dead() {
    let cache = Cache::new();
    let config_a = cache.from_cert_path(&Some("a".to_string())).unwrap();
    // "a" loses its keep-alive to "b"; dropping our handle kills it.
    let _config_b = cache.from_cert_path(&Some("b".to_string())).unwrap();
    drop(config_a);
    assert_eq!(cache.entry_count(), 2);
    cache.garbage_collect();
    // "a" had no holder left; "b" is held here and by the keep-alive slot.
    assert_eq!(cache.entry_count(), 1);
    // A fresh fetch for "a" is a cold miss again and succeeds.
    let rebuilt = cache.from_cert_path(&Some("a".to_string())).unwrap();
    assert_eq!(rebuilt.strong_count(), 2);
    assert_eq!(cache.entry_count(), 2);
}

#[test]
fn race_loser_discarded() {
    // Drive the write-locked arbitration directly, the way two racing
    // cold fetches reach it: both built a resource, the second to arrive
    // finds the first installed and discards its own.
    let mut state = State::new();
    let first_built = Config::from_cert_path(None).unwrap();
    let winner = state.resolve_miss(&None, first_built);
    let second_built = Config::from_cert_path(None).unwrap();
    let loser = second_built.clone();
    let result = state.resolve_miss(&None, second_built);
    // The second caller got the first caller's resource...
    winner.take(|s| s.initial_max_streams_uni = 5);
    assert_eq!(result.take(|s| s.initial_max_streams_uni), 5);
    // ...and its own construction is independently destructible: only the
    // test still holds it, the cache does not.
    assert_eq!(loser.strong_count(), 1);
    let loser_weak = loser.to_weak();
    drop(loser);
    assert!(loser_weak.upgrade().is_none());
}

#[test]
fn keep_alive_follows_most_recent() {
    // A fetch that hits does not move the keep-alive slot; an installing
    // fetch does.
    let cache = Cache::new();
    let config_none = cache.from_cert_path(&None).unwrap();
    assert_eq!(config_none.strong_count(), 2);
    let config_a = cache.from_cert_path(&Some("a".to_string())).unwrap();
    // "a" displaced None from the keep-alive slot.
    assert_eq!(config_none.strong_count(), 1);
    assert_eq!(config_a.strong_count(), 2);
    // A hit for None leaves the slot on "a".
    let config_none_again = cache.from_cert_path(&None).unwrap();
    assert_eq!(config_none_again.strong_count(), 2);
    assert_eq!(config_a.strong_count(), 2);
}
