use nimbox::config::ApiKey;
use nimbox::executor::{
    join_texts, key_debug_enabled, failure_report, is_rate_limit, parse_generic_hint, parse_openrouter_reset_epoch_ms, retry_hint_at, stream_report,
    KeyReport, ProviderExecutor, RetryState,
};
use nimbox::chat::StreamEvent;
use nimbox::key_manager::KeyManager;
use nimbox::providers::ProviderKind;

/// One millisecond on the pool's clock, which counts nanoseconds.
const MS: u64 = 1_000_000;

fn stored(names: &[&str]) -> Vec<ApiKey> {
    names
        .iter()
        .map(|n| ApiKey { name: n.to_string(), key: format!("secret-{}", n), provider: Some("groq".to_string()) })
        .collect()
}

fn pool(names: &[&str]) -> KeyManager {
    let mut km = KeyManager::new();
    km.sync_with_store(&stored(names));
    km
}

#[test]
fn keys_rotate_in_turn() {
    let mut km = pool(&["a", "b", "c"]);
    let picked: Vec<String> = (0..4).map(|_| km.next_key_at(1_000 * MS).unwrap().0).collect();
    assert_eq!(picked, vec!["a", "b", "c", "a"]);
}

#[test]
fn rate_limited_key_rests_then_returns() {
    let mut km = pool(&["a", "b"]);
    km.report_rate_limit_at("a", Some(30), 1_000 * MS);
    assert_eq!(km.keys()[0].cooldown_until, Some(31_000 * MS));
    assert_eq!(km.next_key_at(2_000 * MS).unwrap().0, "b");
    assert_eq!(km.next_key_at(3_000 * MS).unwrap().0, "b");
    assert_eq!(km.next_key_at(31_000 * MS).unwrap().0, "a");
}

#[test]
fn backoff_doubles_without_hint() {
    let mut km = pool(&["a"]);
    km.report_rate_limit_at("a", None, 0);
    assert_eq!(km.keys()[0].cooldown_until, Some(60_000 * MS));
    km.report_rate_limit_at("a", None, 0);
    assert_eq!(km.keys()[0].cooldown_until, Some(120_000 * MS));
    for _ in 0..10 {
        km.report_rate_limit_at("a", None, 0);
    }
    assert_eq!(km.keys()[0].cooldown_until, Some(3_600_000 * MS));
}

#[test]
fn no_key_while_all_rest() {
    let mut km = pool(&["a"]);
    km.report_rate_limit_at("a", Some(10), 0);
    assert_eq!(km.next_key_at(5_000 * MS), None);
    assert_eq!(KeyManager::new().next_key_at(0), None);
}

#[test]
fn success_clears_cooldown_and_failures() {
    let mut km = pool(&["a"]);
    km.report_rate_limit_at("a", Some(10), 0);
    km.report_error("a");
    assert_eq!(km.keys()[0].failures, 2);
    km.report_success("a");
    assert_eq!(km.keys()[0].cooldown_until, None);
    assert_eq!(km.keys()[0].failures, 0);
    assert_eq!(km.keys()[0].successes, 1);
}

#[test]
fn sync_keeps_state_of_known_keys() {
    let mut km = pool(&["a", "b"]);
    km.report_rate_limit_at("b", Some(10), 0);
    km.sync_with_store(&stored(&["b", "c"]));
    let names: Vec<&str> = km.keys().iter().map(|k| k.name.as_str()).collect();
    assert_eq!(names, vec!["b", "c"]);
    assert_eq!(km.keys()[0].cooldown_until, Some(10_000 * MS));
    assert_eq!(km.keys()[1].cooldown_until, None);
}

#[test]
fn rate_limit_words_are_recognised() {
    assert!(is_rate_limit("Groq returned 429 Too Many Requests: slow down"));
    assert!(is_rate_limit("RATE LIMIT reached"));
    assert!(is_rate_limit("error code rate_limit_exceeded"));
    assert!(is_rate_limit("model is Temporarily Rate-Limited upstream"));
    assert!(!is_rate_limit("OpenAI returned 401 Unauthorized: bad key"));
}

#[test]
fn retry_hints_are_read() {
    assert_eq!(parse_generic_hint("busy retry_after=30 seconds"), Some(30));
    assert_eq!(parse_generic_hint("retry_after=soon"), None);
    let msg = r#"{"headers":{"X-RateLimit-Reset":"1781395200000"}}"#;
    assert_eq!(parse_openrouter_reset_epoch_ms(msg), Some(1_781_395_200_000));
    assert_eq!(retry_hint_at(msg, Some(1_781_395_198_500)), Some(2));
    assert_eq!(retry_hint_at(msg, Some(1_781_395_199_999)), Some(1));
    assert_eq!(retry_hint_at(msg, Some(1_781_395_200_000)), None);
    assert_eq!(retry_hint_at("retry_after=7 and \"X-RateLimit-Reset\":\"99\"", Some(0)), Some(7));
}

#[test]
fn failures_are_reported_by_kind() {
    assert_eq!(failure_report("boom"), KeyReport::Failure);
    assert_eq!(failure_report("429 retry_after=5"), KeyReport::RateLimited(Some(5)));
    assert_eq!(stream_report(&StreamEvent::Done), Some(KeyReport::Success));
    assert_eq!(
        stream_report(&StreamEvent::Error { message: "Rate limit hit".to_string() }),
        Some(KeyReport::RateLimited(None))
    );
    assert_eq!(stream_report(&StreamEvent::Error { message: "bad".to_string() }), Some(KeyReport::Failure));
    assert_eq!(stream_report(&StreamEvent::TextDelta("x".to_string())), None);
}

#[test]
fn keyless_provider_needs_no_key() {
    let mut km = KeyManager::new();
    let (name, key) = ProviderExecutor::acquire_key(ProviderKind::Ollama, &mut km).unwrap();
    assert_eq!(name, "local");
    assert_eq!(key, "");
    let err = ProviderExecutor::acquire_key(ProviderKind::Groq, &mut km).unwrap_err();
    assert_eq!(err, "No API keys available for 'groq'. Add one with: nimbox add -n default <key>");
}

#[test]
fn retries_move_on_after_rate_limit_only() {
    let mut km = pool(&["a", "b"]);
    let mut state = RetryState::new();
    state.start_attempt();
    state.key_chosen("a".to_string());
    assert!(state.settle(&mut km, "a", Some("429 Too Many Requests")));
    assert_eq!(state.no_key("pool empty".to_string()), "All API keys are currently rate limited. Please retry shortly.");
    state.start_attempt();
    state.key_chosen("b".to_string());
    assert!(!state.settle(&mut km, "b", Some("500 Internal Server Error")));
    assert_eq!(km.keys()[1].failures, 1);
    assert!(!state.settle(&mut km, "b", None));
    assert_eq!(km.keys()[1].successes, 1);
    assert_eq!(state.attempt(), 2);
    assert_eq!(state.tried_keys().len(), 2);
    assert_eq!(RetryState::new().no_key("pool empty".to_string()), "pool empty");
}

#[test]
fn plain_failure_sets_no_cooldown() {
    let mut km = pool(&["a"]);
    km.report_error("a");
    assert_eq!(km.keys()[0].cooldown_until, None);
    assert_eq!(km.next_key_at(0).unwrap().0, "a");
    km.report_rate_limit_at("a", Some(5), 0);
    km.report_error("a");
    assert_eq!(km.keys()[0].cooldown_until, Some(5_000 * MS));
    assert_eq!(km.keys()[0].failures, 3);
}

#[test]
fn full_turn_from_cursor_hands_out_each_key_once() {
    let mut km = pool(&["a", "b", "c"]);
    assert_eq!(km.next_key_at(0).unwrap().0, "a");
    let turn: Vec<(String, String)> = (0..3).map(|_| km.next_key_at(0).unwrap()).collect();
    assert_eq!(
        turn,
        vec![
            ("b".to_string(), "secret-b".to_string()),
            ("c".to_string(), "secret-c".to_string()),
            ("a".to_string(), "secret-a".to_string()),
        ]
    );
}

#[test]
fn key_debug_setting_values() {
    assert!(key_debug_enabled("1"));
    assert!(key_debug_enabled("true"));
    assert!(key_debug_enabled("YES"));
    assert!(key_debug_enabled("True"));
    assert!(!key_debug_enabled("0"));
    assert!(!key_debug_enabled(""));
    assert!(!key_debug_enabled("on"));
    assert!(!key_debug_enabled("yes "));
}

#[test]
fn texts_are_joined_with_separator() {
    assert_eq!(join_texts(&vec![], ","), "");
    assert_eq!(join_texts(&vec!["a".to_string()], ","), "a");
    assert_eq!(join_texts(&vec!["a".to_string(), "b".to_string(), "c".to_string()], ", "), "a, b, c");
}

#[test]
fn pool_lines_name_keys_without_secrets() {
    let mut km = pool(&["a", "b"]);
    km.report_rate_limit_at("a", Some(10), 1_000 * MS);
    km.report_success("b");
    let lines = km.debug_state_lines_at(2_000 * MS);
    assert_eq!(lines, vec!["a successes=0 failures=1 cooling", "b successes=1 failures=0"]);
    assert!(lines.iter().all(|l| !l.contains("secret")));
    let later = km.debug_state_lines_at(11_000 * MS);
    assert_eq!(later[0], "a successes=0 failures=1");
}

#[test]
fn all_limited_error_carries_diagnostics() {
    let mut km = pool(&["a", "b"]);
    let mut state = RetryState::new();
    state.start_attempt();
    state.key_chosen("a".to_string());
    assert!(state.settle(&mut km, "a", Some("rate limit")));
    assert!(state.saw_rate_limit());
    let message = state.no_key("unused".to_string());
    let lines = km.debug_state_lines_at(0);
    let text = state.no_key_diagnostics(message, &lines);
    assert!(text.starts_with("All API keys are currently rate limited. Please retry shortly. tried_keys=[a] pool=[a successes=0 failures=1"));
    assert!(text.ends_with("b successes=0 failures=0]"));
    assert!(!text.contains("secret"));
    let empty = RetryState::new().no_key_diagnostics("m".to_string(), &vec![]);
    assert_eq!(empty, "m tried_keys=[] pool=[<empty>]");
}

#[test]
fn cooldown_holds_to_the_nanosecond() {
    let mut km = pool(&["a"]);
    km.report_rate_limit_at("a", Some(2), 5);
    assert_eq!(km.keys()[0].cooldown_until, Some(2_000_000_005));
    assert_eq!(km.next_key_at(2_000_000_004), None);
    assert_eq!(km.next_key_at(2_000_000_005).unwrap().0, "a");
}

fn run_until_done(secret_prefix: &str) -> (String, Vec<String>, usize) {
    let keys: Vec<ApiKey> = ["a", "b", "c"]
        .iter()
        .map(|n| ApiKey { name: n.to_string(), key: format!("{}-{}", secret_prefix, n), provider: Some("groq".to_string()) })
        .collect();
    let mut km = KeyManager::new();
    km.sync_with_store(&keys);
    let mut state = RetryState::new();
    let mut calls = 0;
    loop {
        state.start_attempt();
        match ProviderExecutor::acquire_key(ProviderKind::Groq, &mut km) {
            Ok((name, _)) => {
                state.key_chosen(name.clone());
                calls += 1;
                assert!(state.settle(&mut km, &name, Some("429 Too Many Requests")));
            },
            Err(err) => {
                let message = state.no_key(err);
                let lines = km.debug_state_lines();
                return (state.no_key_diagnostics(message, &lines), state.tried_keys().clone(), calls);
            },
        }
    }
}

#[test]
fn retries_end_once_every_key_rests() {
    let (error, tried, calls) = run_until_done("secret");
    assert_eq!(calls, 3);
    assert_eq!(tried, vec!["a", "b", "c"]);
    assert_eq!(
        error,
        "All API keys are currently rate limited. Please retry shortly. tried_keys=[a,b,c] \
         pool=[a successes=0 failures=1 cooling, b successes=0 failures=1 cooling, c successes=0 failures=1 cooling]"
    );
}

#[test]
fn secrets_do_not_change_a_run() {
    let first = run_until_done("one");
    let second = run_until_done("two");
    assert_eq!(first, second);
    assert!(!first.0.contains("one-") && !first.0.contains("two-"));
}
