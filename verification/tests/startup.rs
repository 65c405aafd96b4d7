use claw::app::{fresh_tokens_are_reused, resolve_auth_token, token_from, token_path, AuthToken};
use claw::circuit_breaker::{crash_backoff, restarts, two_starts, CircuitBreaker, Marker};
use claw::config::{Config, ConfigError};
use claw::recovery::{add_seconds_utc, retry_decision, seconds_add_up, Retry, MAX_TRIES};

fn lookup_from<'a>(pairs: &'a [(&'a str, &'a str)]) -> impl Fn(&str) -> Option<String> + 'a {
    move |var| {
        pairs
            .iter()
            .find(|(key, _)| *key == var)
            .map(|(_, value)| (*value).to_owned())
    }
}

fn nanos(instant: &str) -> i128 {
    instant
        .parse::<jiff::Timestamp>()
        .expect("timestamp")
        .as_nanosecond()
}

const SECOND: i128 = 1_000_000_000;

#[test]
fn empty_environment_yields_defaults() {
    let config = Config::from_lookup(|_: &str| None).expect("defaults must parse");
    assert_eq!(config.data_dir, "/data");
    assert_eq!(config.port, 8080);
    assert_eq!(config.timezone, "UTC");
    assert_eq!(config.auth_token, None);
    assert_eq!(config.default_endpoint, None);
    assert_eq!(config.default_model, None);
}

#[test]
fn environment_overrides_are_read() {
    let pairs = [
        ("CLAW_DATA_DIR", "/srv/claw"),
        ("CLAW_PORT", "9090"),
        ("CLAW_AUTH_TOKEN", "secret"),
        ("CLAW_TIMEZONE", "Europe/Paris"),
        ("CLAW_DEFAULT_ENDPOINT", "openrouter"),
        ("CLAW_DEFAULT_MODEL", "gemma4-moe"),
    ];
    let config = Config::from_lookup(lookup_from(&pairs)).expect("overrides must parse");
    assert_eq!(config.data_dir, "/srv/claw");
    assert_eq!(config.port, 9090);
    assert_eq!(config.auth_token.as_deref(), Some("secret"));
    assert_eq!(config.timezone, "Europe/Paris");
    assert_eq!(config.default_endpoint.as_deref(), Some("openrouter"));
    assert_eq!(config.default_model.as_deref(), Some("gemma4-moe"));
}

#[test]
fn invalid_port_is_rejected_with_context() {
    let pairs = [("CLAW_PORT", "not-a-port")];
    let err = Config::from_lookup(lookup_from(&pairs)).expect_err("bad port must fail");
    let ConfigError::Invalid { var, value, .. } = err;
    assert_eq!(var, "CLAW_PORT");
    assert_eq!(value, "not-a-port");
}

#[test]
fn derived_paths_live_under_data_dir() {
    let pairs = [("CLAW_DATA_DIR", "/srv/claw")];
    let config = Config::from_lookup(lookup_from(&pairs)).expect("must parse");
    assert_eq!(config.central_db_path(), "/srv/claw/central.db");
    assert_eq!(config.sessions_dir(), "/srv/claw/sessions");
    assert_eq!(config.groups_dir(), "/srv/claw/groups");
    assert_eq!(config.logs_dir(), "/srv/claw/logs");
    assert_eq!(config.socket_path(), "/srv/claw/claw.sock");
}

#[test]
fn backoff_schedule() {
    assert_eq!(crash_backoff(1), 0);
    assert_eq!(crash_backoff(2), 0);
    assert_eq!(crash_backoff(3), 10);
    assert_eq!(crash_backoff(5), 120);
    assert_eq!(crash_backoff(100), 900);
}

#[test]
fn fast_restarts_escalate_and_a_gap_resets() {
    let breaker = CircuitBreaker::new("/data");
    let base = nanos("2026-06-11T12:00:00Z");

    let (first, wait) = breaker.record_start(None, base);
    assert_eq!((first.attempt, wait), (1, 0));
    let (second, wait) = breaker.record_start(Some(&first.write()), base + SECOND);
    assert_eq!((second.attempt, wait), (2, 0));
    let (third, wait) = breaker.record_start(Some(&second.write()), base + 2 * SECOND);
    assert_eq!((third.attempt, wait), (3, 10));

    // A start two hours later is outside the reset window.
    let (later, wait) = breaker.record_start(Some(&third.write()), base + 2 * 3600 * SECOND);
    assert_eq!((later.attempt, wait), (1, 0));
}

#[test]
fn clear_resets_the_counter() {
    let breaker = CircuitBreaker::new("/data");
    let now = nanos("2026-06-11T12:00:00Z");

    let (first, _) = breaker.record_start(None, now);
    let (_, _) = breaker.record_start(Some(&first.write()), now + SECOND);
    // A clean stop removes the marker, so the next start is the first again.
    let (next, wait) = breaker.record_start(None, now + 2 * SECOND);
    assert_eq!((next.attempt, wait), (1, 0));
}

#[test]
fn markers_read_back_and_broken_ones_count_as_none() {
    let breaker = CircuitBreaker::new("/data");
    let now = nanos("2026-06-11T12:00:00Z");
    let (marker, _) = breaker.record_start(None, now);
    let back = Marker::read(Some(&marker.write())).expect("read back");
    assert_eq!(back.attempt, marker.attempt);
    assert_eq!(back.last_start, marker.last_start);
    assert!(Marker::read(Some("not json")).is_none());
    assert!(Marker::read(None).is_none());
    let listed = Marker::read(Some(r#"[4,"2026-06-11T12:00:00.000Z"]"#)).expect("a list");
    assert_eq!(listed.attempt, 4);
    let (again, _) = breaker.record_start(Some("not json"), now);
    assert_eq!(again.attempt, 1);
    let (one, two) = two_starts(&breaker, None, now, now + SECOND);
    assert_eq!((one.attempt, two.attempt), (1, 2));
}

#[test]
fn quick_restarts_wait_longer_and_longer() {
    let breaker = CircuitBreaker::new("/data");
    let base = nanos("2026-06-11T12:00:00Z");
    let starts = vec![base, base + SECOND, base + 2 * SECOND, base + 7200 * SECOND];
    assert_eq!(restarts(&breaker, &starts), vec![0, 0, 10, 0]);
    assert!(restarts(&breaker, &Vec::new()).is_empty());
}

#[test]
fn backoff_doubles_then_fails() {
    assert_eq!(retry_decision(1, MAX_TRIES), Retry::After(5));
    assert_eq!(retry_decision(2, MAX_TRIES), Retry::After(10));
    assert_eq!(retry_decision(3, MAX_TRIES), Retry::After(20));
    assert_eq!(retry_decision(4, MAX_TRIES), Retry::After(40));
    assert_eq!(retry_decision(5, MAX_TRIES), Retry::Fail);
    assert_eq!(retry_decision(99, MAX_TRIES), Retry::Fail);
}

#[test]
fn odd_counts_wait_as_the_first_attempt_does() {
    assert_eq!(retry_decision(0, MAX_TRIES), Retry::After(5));
    assert_eq!(retry_decision(-3, MAX_TRIES), Retry::After(5));
    assert_eq!(retry_decision(5_000_000_000, i64::MAX), Retry::After(5));
}

#[test]
fn add_seconds_advances_and_keeps_db_format() {
    assert_eq!(
        add_seconds_utc("2026-06-11T12:00:00.000Z", 40).as_deref(),
        Some("2026-06-11T12:00:40.000Z")
    );
    // Rolls over minutes and hours.
    assert_eq!(
        add_seconds_utc("2026-06-11T12:59:50.000Z", 20).as_deref(),
        Some("2026-06-11T13:00:10.000Z")
    );
    assert_eq!(add_seconds_utc("not a timestamp", 5), None);
}

#[test]
fn added_seconds_keep_the_millisecond() {
    assert_eq!(
        add_seconds_utc("2026-06-11T12:00:00.500Z", 40).as_deref(),
        Some("2026-06-11T12:00:40.500Z")
    );
    assert_eq!(
        add_seconds_utc("2026-06-11T12:00:00.123456Z", 0).as_deref(),
        Some("2026-06-11T12:00:00.123Z")
    );
    assert_eq!(
        seconds_add_up("2026-06-11T12:00:00.999999Z", 20, 40).as_deref(),
        Some("2026-06-11T12:01:00.999Z")
    );
    assert_eq!(seconds_add_up("2026-06-11T12:00:00Z", u64::MAX, 0), None);
}

#[test]
fn a_fresh_token_is_known_from_then_on() {
    let (AuthToken::Fresh(first), AuthToken::Known(again)) = fresh_tokens_are_reused() else {
        panic!("made once, then known");
    };
    assert_eq!(first, again);
}

#[test]
fn generated_token_persists_across_restarts() {
    let AuthToken::Fresh(first) = resolve_auth_token(None, None) else {
        panic!("nothing is known yet");
    };
    let AuthToken::Known(second) = resolve_auth_token(None, Some(&first)) else {
        panic!("the stored token must be reused");
    };
    assert_eq!(first, second, "the persisted token must be reused");
    assert!(!first.is_empty());
    assert_eq!(token_path("/data"), "/data/auth_token");
}

#[test]
fn explicit_token_wins_and_is_not_persisted() {
    let AuthToken::Known(token) = resolve_auth_token(Some("explicit"), Some("stored")) else {
        panic!("an explicit token must not be stored");
    };
    assert_eq!(token, "explicit");
}

#[test]
fn a_fresh_token_is_two_identifiers_in_lower_case() {
    let AuthToken::Fresh(token) = token_from(None, Some(" \n"), "01ABC", "02DEF") else {
        panic!("a blank file holds no token");
    };
    assert_eq!(token, "01abc02def");
    let AuthToken::Fresh(made) = resolve_auth_token(None, None) else {
        panic!("nothing is known yet");
    };
    assert_eq!(made.len(), 52);
    assert_eq!(made, made.to_lowercase());
}
