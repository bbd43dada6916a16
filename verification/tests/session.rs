//! Whole polls: a report comes in, the state moves on, a line comes out.

use cstat::cache::{
    cache_status, has_news, inherit_from_parent, is_poll_recordable, parent_to_inherit_from,
    record_poll,
};
use cstat::number::Double;
use cstat::render::render;
use cstat::state::{load_state, save_state};
use cstat::stdin::{debug_log, debug_log_path, read_stdin};
use cstat::transcript::parse_transcript;
use cstat::types::{
    CachedRateLimits, Config, ContextWindow, Cost, CurrentUsage, Model, RateLimits, RateWindow,
    State, StdinData, TranscriptData,
};
use cstat::usage::{
    adopt_global_limits_at, is_usage_computable, reset_secs, session_usage_at, usage_from_cache,
    usage_from_stdin, usage_from_stdin_at,
};
use serde_json::Value;

fn double(value: f64) -> Double {
    Double { bits: value.to_bits() }
}

fn text(value: &Value, key: &str) -> Option<String> {
    value.get(key).and_then(|v| v.as_str()).map(|v| v.to_string())
}

fn report(input: &str) -> Option<StdinData> {
    let value: Value = serde_json::from_str(input).ok()?;
    Some(StdinData {
        model: value.get("model").map(|m| Model { display_name: text(m, "display_name") }),
        context_window: value.get("context_window").map(|w| ContextWindow {
            used_percentage: None,
            total_input_tokens: w.get("total_input_tokens").and_then(|v| v.as_u64()),
            current_usage: w.get("current_usage").map(|u| CurrentUsage {
                cache_creation_input_tokens: u.get("cache_creation_input_tokens").and_then(|v| v.as_u64()),
                cache_read_input_tokens: u.get("cache_read_input_tokens").and_then(|v| v.as_u64()),
            }),
        }),
        transcript_path: text(&value, "transcript_path"),
        session_id: text(&value, "session_id"),
        cwd: text(&value, "cwd"),
        ..Default::default()
    })
}

/// One poll in the state that the previous one left.
fn run_in(input: &str, stored: Option<State>) -> (String, State) {
    let data = read_stdin(Some(input), report(input));
    let mut st = load_state(data.session_id.as_deref(), stored);
    let transcript = parse_transcript(None, &mut st).unwrap();
    let now = chrono::Utc::now().timestamp();
    assert!(is_poll_recordable(&st, &data, now));
    record_poll(&mut st, &data, now);
    let line = render(&data, &Config::default(), &transcript, None, None, &cache_status(&st));
    save_state(&mut st, data.session_id.as_deref(), false);
    (line, st)
}

fn run_with_stdin(input: &str) -> String {
    run_in(input, None).0
}

#[test]
fn empty_stdin_exits_0() {
    let line = run_with_stdin("");
    assert!(line.contains("cstat"));
    assert!(line.contains("no data"));
}

#[test]
fn invalid_json_stdin_exits_0() {
    let line = run_with_stdin("not json at all");
    assert!(line.contains("cstat"));
    assert!(line.contains("no data"));
}

#[test]
fn minimal_json_exits_0() {
    let line = run_with_stdin("{}");
    assert!(line.contains("cstat"));
    assert!(line.contains("no data"));
}

#[test]
fn partial_json_exits_0() {
    let line = run_with_stdin(r#"{"model": {"display_name": "Opus"}, "cwd": "/tmp/test"}"#);
    assert!(line.contains("Opus"));
    assert!(line.contains("test"));
}

#[test]
fn missing_transcript_exits_0() {
    let line = run_with_stdin(
        r#"{"model": {"display_name": "X"}, "cwd": "/tmp/p", "transcript_path": "/nonexistent/transcript.jsonl"}"#,
    );
    assert!(line.contains("X"));
}

#[test]
fn stdout_never_contains_error_messages() {
    let line = run_with_stdin("");
    assert!(!line.contains("error"));
    assert!(!line.contains("panic"));
    assert!(!line.contains("Error"));
}

#[test]
fn single_line_output() {
    let line = run_with_stdin(r#"{"model": {"display_name": "Opus"}, "cwd": "/tmp/proj"}"#);
    let lines: Vec<&str> = line.trim().lines().collect();
    assert_eq!(lines.len(), 1);
    assert!(lines[0].contains("Opus"));
    assert!(lines[0].contains("proj"));
}

#[test]
fn cold_cache_label_present() {
    // No cache token activity yet → "⧖ cold" should appear.
    let line = run_with_stdin(
        r#"{"model":{"display_name":"Opus"},"cwd":"/tmp/proj","session_id":"test-cold"}"#,
    );
    assert!(line.contains("⧖ cold"));
}

#[test]
fn cache_warm_after_warm_hit() {
    let prime = r#"{"model":{"display_name":"Opus"},"cwd":"/tmp/proj","session_id":"test-warm","context_window":{"total_input_tokens":5000}}"#;
    let (_, st) = run_in(prime, None);
    let input = r#"{"model":{"display_name":"Opus"},"cwd":"/tmp/proj","session_id":"test-warm","context_window":{"total_input_tokens":10000,"current_usage":{"cache_read_input_tokens":5000,"cache_creation_input_tokens":1000}}}"#;
    let (line, _) = run_in(input, Some(st));
    assert!(line.contains("⧖"), "expected ⧖ in output, got: {line}");
    assert!(!line.contains(" $ "), "should not show cost glyph on plain warm hit");
    assert!(!line.contains("cold"), "should be warm, not cold");
}

#[test]
fn cache_cold_miss_swaps_glyph() {
    let prime = r#"{"model":{"display_name":"Opus"},"cwd":"/tmp/proj","session_id":"test-miss","context_window":{"total_input_tokens":5000}}"#;
    let (_, st) = run_in(prime, None);
    let input = r#"{"model":{"display_name":"Opus"},"cwd":"/tmp/proj","session_id":"test-miss","context_window":{"total_input_tokens":10000,"current_usage":{"cache_read_input_tokens":0,"cache_creation_input_tokens":5000}}}"#;
    let (line, _) = run_in(input, Some(st));
    assert!(line.contains('$'), "expected $ glyph after cold miss, got: {line}");
    assert!(!line.contains("⧖"), "hourglass should be swapped out during the cold-miss window");
}

#[test]
fn cache_stamp_persists_across_invocations() {
    let prime = r#"{"model":{"display_name":"Opus"},"cwd":"/tmp/proj","session_id":"test-persist","context_window":{"total_input_tokens":5000}}"#;
    let (_, st) = run_in(prime, None);
    let input1 = r#"{"model":{"display_name":"Opus"},"cwd":"/tmp/proj","session_id":"test-persist","context_window":{"total_input_tokens":10000,"current_usage":{"cache_read_input_tokens":5000,"cache_creation_input_tokens":0}}}"#;
    let (line1, st) = run_in(input1, Some(st));
    assert!(line1.contains("⧖"), "expected warm cache timer after warm hit, got: {line1}");
    assert!(!line1.contains("cold"), "expected warm, not cold, got: {line1}");

    let input2 = r#"{"model":{"display_name":"Opus"},"cwd":"/tmp/proj","session_id":"test-persist","context_window":{"total_input_tokens":10000}}"#;
    let (line2, _) = run_in(input2, Some(st));
    assert!(line2.contains("⧖"), "warm stamp should persist, got: {line2}");
    assert!(!line2.contains("cold"), "warm stamp should persist, got: {line2}");
}

#[test]
fn blank_input_is_no_report() {
    let data = read_stdin(Some(" \n\t "), Some(StdinData { cwd: Some("/x".into()), ..Default::default() }));
    assert!(data.cwd.is_none());
    let data = read_stdin(None, Some(StdinData { cwd: Some("/x".into()), ..Default::default() }));
    assert!(data.cwd.is_none());
    let data = read_stdin(Some("{}"), Some(StdinData { cwd: Some("/x".into()), ..Default::default() }));
    assert_eq!(data.cwd.as_deref(), Some("/x"));
}

fn with_cost(cost: f64, tokens: u64) -> StdinData {
    StdinData {
        context_window: Some(ContextWindow {
            total_input_tokens: Some(tokens),
            ..Default::default()
        }),
        cost: Some(Cost { total_cost_usd: Some(double(cost)) }),
        ..Default::default()
    }
}

#[test]
fn rise_of_cost_is_dated_at_the_previous_poll() {
    let mut st = State {
        last_cache_hit: Some(500),
        last_cost_usd: Some(double(1.0)),
        last_total_input_tokens: Some(10),
        last_poll_time: Some(900),
        ..State::default()
    };
    record_poll(&mut st, &with_cost(1.5, 10), 1000);
    assert_eq!(st.last_cache_hit, Some(900));
    assert_eq!(st.last_poll_time, Some(1000));
    assert_eq!(st.last_cost_usd, Some(double(1.5)));
}

#[test]
fn rise_of_cost_makes_up_no_hit() {
    let mut st = State {
        last_cost_usd: Some(double(1.0)),
        last_total_input_tokens: Some(10),
        ..State::default()
    };
    record_poll(&mut st, &with_cost(1.5, 10), 1000);
    assert_eq!(st.last_cache_hit, None);
    assert_eq!(st.last_cost_usd, Some(double(1.5)));
}

#[test]
fn report_without_window_is_no_poll() {
    let mut st = State::default();
    record_poll(&mut st, &StdinData::default(), 1000);
    assert_eq!(st.last_poll_time, None);
}

#[test]
fn news_is_a_higher_cost_or_another_token_count() {
    let st = State {
        last_cost_usd: Some(double(1.0)),
        last_total_input_tokens: Some(10),
        ..State::default()
    };
    assert!(!has_news(&st, &with_cost(1.0, 10)));
    assert!(!has_news(&st, &with_cost(0.5, 10)));
    assert!(has_news(&st, &with_cost(1.1, 10)));
    assert!(has_news(&st, &with_cost(1.0, 9)));
    assert!(has_news(&State::default(), &with_cost(0.0, 0)));
    assert!(!has_news(&st, &StdinData::default()));
}

#[test]
fn branch_takes_over_the_parents_countdown() {
    let parent = State {
        last_cache_hit: Some(700),
        last_total_input_tokens: Some(42),
        ..State::default()
    };
    let mut st = State { parent_session_id: Some("parent-1".into()), ..State::default() };
    assert_eq!(parent_to_inherit_from(&st), Some("parent-1"));
    inherit_from_parent(&mut st, &parent);
    assert_eq!(st.last_cache_hit, Some(700));
    assert_eq!(st.last_total_input_tokens, Some(42));
    assert_eq!(parent_to_inherit_from(&st), None);

    let mut st = State {
        parent_session_id: Some("parent-1".into()),
        last_total_input_tokens: Some(3),
        ..State::default()
    };
    inherit_from_parent(&mut st, &State { last_total_input_tokens: Some(42), ..State::default() });
    assert_eq!(st.last_cache_hit, None);
    assert_eq!(st.last_total_input_tokens, Some(3));
}

#[test]
fn far_miss_is_not_computable() {
    let st = State {
        last_total_input_tokens: Some(1),
        last_cache_miss: Some(i64::MIN),
        ..State::default()
    };
    let data = report(r#"{"context_window":{"total_input_tokens":2,"current_usage":{"cache_read_input_tokens":1}}}"#).unwrap();
    assert!(!is_poll_recordable(&st, &data, 1000));
    assert!(is_poll_recordable(&st, &with_cost(1.0, 1), 1000));
}

fn limits(usage_5h: Option<f64>, resets_at_5h: Option<i64>) -> CachedRateLimits {
    CachedRateLimits { usage_5h: usage_5h.map(double), resets_at_5h, ..Default::default() }
}

fn with_limits(used_percentage: Option<f64>, resets_at: Option<i64>) -> StdinData {
    StdinData {
        rate_limits: Some(RateLimits {
            five_hour: Some(RateWindow { used_percentage: used_percentage.map(double), resets_at }),
            seven_day: None,
        }),
        ..Default::default()
    }
}

#[test]
fn reset_is_counted_from_now() {
    assert_eq!(reset_secs(Some(1500), 1000), Some(500));
    assert_eq!(reset_secs(Some(1000), 1000), None);
    assert_eq!(reset_secs(Some(900), 1000), None);
    assert_eq!(reset_secs(None, 1000), None);
}

#[test]
fn usage_of_a_report() {
    let (usage, cached) = usage_from_stdin_at(&with_limits(Some(25.0), Some(1500)), 1000).unwrap();
    assert_eq!(usage.usage_5h, Some(double(25.0)));
    assert_eq!(usage.usage_7d, None);
    assert_eq!(usage.reset_5h, Some(500));
    assert_eq!(cached, limits(Some(25.0), Some(1500)));

    assert!(usage_from_stdin_at(&with_limits(None, Some(1500)), 1000).is_none());
    assert!(usage_from_stdin_at(&StdinData::default(), 1000).is_none());
    assert!(usage_from_stdin(&with_limits(Some(25.0), Some(1500))).unwrap().0.reset_5h.is_none());
}

#[test]
fn usage_of_remembered_limits() {
    assert!(usage_from_cache(&limits(None, Some(1))).is_none());
    let usage = usage_from_cache(&limits(Some(3.0), Some(1))).unwrap();
    assert_eq!(usage.usage_5h, Some(double(3.0)));
    assert_eq!(usage.reset_5h, None);
}

#[test]
fn remembered_limits_stand_in_for_a_report() {
    let mut st = State::default();
    let first = session_usage_at(&mut st, &with_limits(Some(25.0), Some(1500)), 1000).unwrap();
    let second = session_usage_at(&mut st, &StdinData::default(), 1100).unwrap();
    assert_eq!(first.usage_5h, second.usage_5h);
    assert_eq!(first.reset_5h, Some(500));
    assert_eq!(second.reset_5h, Some(400));
}

#[test]
fn limits_of_other_sessions_are_the_last_resort() {
    let mut st = State::default();
    assert!(session_usage_at(&mut st, &StdinData::default(), 1000).is_none());
    let usage = adopt_global_limits_at(&mut st, Some(limits(Some(9.0), None)), 1000).unwrap();
    assert_eq!(usage.usage_5h, Some(double(9.0)));
    assert_eq!(st.cached_rate_limits, Some(limits(Some(9.0), None)));

    let mut st = State::default();
    assert!(adopt_global_limits_at(&mut st, Some(limits(None, None)), 1000).is_none());
    assert_eq!(st.cached_rate_limits, None);
    assert!(adopt_global_limits_at(&mut st, None, 1000).is_none());
}

#[test]
fn far_reset_is_not_computable() {
    assert!(!is_usage_computable(Some(limits(Some(1.0), Some(i64::MIN))), 1));
    assert!(is_usage_computable(Some(limits(None, Some(i64::MIN))), 1));
    assert!(is_usage_computable(Some(limits(Some(1.0), Some(5))), 1));
}

#[test]
fn log_names_and_lines() {
    let data = StdinData {
        session_id: Some("abc/../é-1".into()),
        session_name: Some("demo".into()),
        context_window: Some(ContextWindow {
            used_percentage: Some(45),
            total_input_tokens: Some(1234),
            current_usage: Some(CurrentUsage {
                cache_creation_input_tokens: Some(7),
                cache_read_input_tokens: None,
            }),
        }),
        ..Default::default()
    };
    assert_eq!(debug_log_path(&data), "/Volumes/ramdisk/cstat-debug-abcé-1.log");
    assert_eq!(
        debug_log(&data, 86400 + 3661, "0.1250"),
        "01:01:01Z | session=\"demo\" | tokens=1234 ctx=45% | cache_read=0 cache_create=7 | cost=$0.1250"
    );

    let bare = StdinData::default();
    assert_eq!(debug_log_path(&bare), "/Volumes/ramdisk/cstat-debug-unknown.log");
    assert_eq!(
        debug_log(&bare, 0, "0.0000"),
        "00:00:00Z | session=\"?\" | tokens=0 ctx=0% | cache_read=0 cache_create=0 | cost=$0.0000"
    );

    let long = StdinData { session_id: Some("x".repeat(100)), ..Default::default() };
    assert_eq!(
        debug_log_path(&long),
        format!("/Volumes/ramdisk/cstat-debug-{}.log", "x".repeat(64))
    );
    assert!(TranscriptData::default().tools.is_empty());
}

#[test]
fn second_look_at_a_report_changes_no_stamp() {
    let data = report(r#"{"context_window":{"total_input_tokens":20,"current_usage":{"cache_creation_input_tokens":5}}}"#).unwrap();
    let mut st = State { last_total_input_tokens: Some(10), ..State::default() };
    record_poll(&mut st, &data, 1000);
    assert_eq!(st.last_cache_hit, Some(1000));
    assert_eq!(st.last_cache_miss, Some(1000));
    record_poll(&mut st, &data, 1010);
    assert_eq!(st.last_cache_hit, Some(1000));
    assert_eq!(st.last_cache_miss, Some(1000));
    assert_eq!(st.last_poll_time, Some(1010));
}

#[test]
fn rebuilt_context_gets_no_false_stamp() {
    let mut st = State {
        last_cache_hit: Some(900),
        last_cost_usd: Some(double(1.0)),
        last_total_input_tokens: Some(100),
        ..State::default()
    };
    record_poll(&mut st, &with_cost(2.0, 10), 1000);
    assert_eq!(st.last_cache_hit, None);
    record_poll(&mut st, &with_cost(3.0, 10), 1005);
    record_poll(&mut st, &with_cost(4.0, 10), 1010);
    assert_eq!(st.last_cache_hit, None);
    let turn = report(r#"{"context_window":{"total_input_tokens":30,"current_usage":{"cache_read_input_tokens":9}}}"#).unwrap();
    record_poll(&mut st, &turn, 1020);
    assert_eq!(st.last_cache_hit, Some(1020));
    assert_eq!(st.last_cache_miss, None);
}
