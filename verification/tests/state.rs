use cstat::number::Double;
use cstat::state::{
    global_rate_limits_path, load_state, sanitize, save_state, state_dir, state_path,
    state_path_of, STATE_VERSION,
};
use cstat::types::{CachedRateLimits, State};

#[test]
fn state_path_deterministic() {
    let a = state_path("abc-123-def", false);
    let b = state_path("abc-123-def", false);
    assert_eq!(a, b);
    assert_eq!(a, "/tmp/cstat-abc-123-def.bin");
    assert_eq!(state_path("abc-123-def", true), "/Volumes/ramdisk/cstat-abc-123-def.bin");
}

#[test]
fn state_path_differs_for_different_inputs() {
    let a = state_path("session-a", false);
    let b = state_path("session-b", false);
    assert_ne!(a, b);
}

#[test]
fn empty_session_id_returns_default() {
    let s = load_state(None, Some(State { version: STATE_VERSION, byte_offset: 7, ..State::default() }));
    assert_eq!(s.version, 0);
    assert_eq!(s.byte_offset, 0);
}

#[test]
fn save_and_load_roundtrip() {
    let sid = "test-roundtrip-1";

    let mut state = State::default();
    state.byte_offset = 42;
    state.inode = 123;
    state.last_cache_hit = Some(1700000000);
    state.last_cache_miss = Some(1700000005);
    state.last_total_input_tokens = Some(98765);
    let plan = save_state(&mut state, Some(sid), false);
    assert_eq!(plan.state.as_deref(), Some("/tmp/cstat-test-roundtrip-1.bin"));
    assert!(plan.limits.is_none());

    let loaded = load_state(Some(sid), Some(state));
    assert_eq!(loaded.version, STATE_VERSION);
    assert_eq!(loaded.byte_offset, 42);
    assert_eq!(loaded.inode, 123);
    assert_eq!(loaded.last_cache_hit, Some(1700000000));
    assert_eq!(loaded.last_cache_miss, Some(1700000005));
    assert_eq!(loaded.last_total_input_tokens, Some(98765));
}

#[test]
fn incompatible_version_discarded() {
    let mut state = State::default();
    state.version = 999;
    state.byte_offset = 100;

    let loaded = load_state(Some("test-version-1"), Some(state));
    assert_eq!(loaded.version, 0);
    assert_eq!(loaded.byte_offset, 0);
}

#[test]
fn corrupt_data_returns_default() {
    let loaded = load_state(Some("test-corrupt-1"), None);
    assert_eq!(loaded.version, 0);
}

#[test]
fn session_id_with_special_chars_sanitized() {
    for ramdisk in [false, true] {
        let s = state_path("../../../etc/passwd", ramdisk);
        let prefix = format!("{}/cstat-", state_dir(ramdisk));
        assert!(s.starts_with(&prefix));
        let suffix = &s[prefix.len()..];
        // No slashes injected from the session_id portion; only `.bin` extension.
        assert!(!suffix.contains('/'));
        assert!(suffix.ends_with(".bin"));
        assert_eq!(suffix.matches('.').count(), 1);
    }
}

#[test]
fn empty_string_session_id_returns_default() {
    let s = load_state(Some(""), Some(State { version: STATE_VERSION, ..State::default() }));
    assert_eq!(s.version, 0);
}

#[test]
fn sanitize_keeps_ascii_letters_digits_and_hyphens() {
    assert_eq!(sanitize("aZ0-é_/.9"), "aZ0-9");
    assert_eq!(sanitize(sanitize("a/b").as_str()), "ab");
    assert_eq!(sanitize("../.."), "");
}

#[test]
fn ids_that_differ_in_dropped_characters_share_a_file() {
    assert_eq!(state_path("a/b", false), state_path("ab", false));
}

#[test]
fn rate_limits_have_a_file_of_their_own() {
    assert_eq!(global_rate_limits_path(false), "/tmp/cstat-rate-limits.bin");
    assert_eq!(global_rate_limits_path(true), "/Volumes/ramdisk/cstat-rate-limits.bin");
    assert_ne!(state_path("session-a", false), global_rate_limits_path(false));
}

#[test]
fn no_file_without_a_usable_id() {
    assert_eq!(state_path_of(None, false), None);
    assert_eq!(state_path_of(Some("/../"), false), None);
    assert_eq!(state_path_of(Some("x"), false).as_deref(), Some("/tmp/cstat-x.bin"));
}

#[test]
fn limits_are_saved_even_without_a_session() {
    let limits = CachedRateLimits {
        usage_5h: Some(Double { bits: 25.0f64.to_bits() }),
        usage_7d: None,
        resets_at_5h: Some(1_700_000_000),
        resets_at_7d: None,
    };
    let mut state = State { cached_rate_limits: Some(limits), ..State::default() };
    let plan = save_state(&mut state, None, false);
    assert_eq!(plan.limits, Some(("/tmp/cstat-rate-limits.bin".to_string(), limits)));
    assert_eq!(plan.state, None);
    assert_eq!(state.version, 0);
}

#[test]
fn state_version_is_five() {
    assert_eq!(STATE_VERSION, 5);
}
