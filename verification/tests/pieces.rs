//! Exact values for the building blocks of the line.

use chrono::TimeZone;
use cstat::clock::{
    format_clock, format_reset_clock, format_reset_clock_at, format_reset_clock_with,
    round_to_minute,
};
use cstat::number::Double;
use cstat::render::{
    build_usage_bar, is_line_renderable, render_at, render_cache_label, render_cache_label_at, render_if_computable,
    render_usage_with, reset_clock_at,
};
use cstat::style::{colorize, rendered_separator, usage_color, DIM, GREEN, RED, RESET, YELLOW};
use cstat::table::Table;
use cstat::text::{join, push_decimal, push_decimal2, replace, same_text, split, trim};
use cstat::timeline::{group_consecutive_names, is_activity_renderable, render_activity_line_at};
use cstat::types::{
    AgentEntry, CacheStatus, Config, ContextWindow, GitInfo, Model, StdinData, TaskItem,
    TaskStatus, TodoItem, ToolEntry, TranscriptData, UsageInfo,
};

fn double(value: f64) -> Double {
    Double { bits: value.to_bits() }
}

fn plain() -> Config {
    Config { colors: Some(false), ..Default::default() }
}

fn tool(name: &str, target: Option<&str>, completed: bool, seq: u64) -> ToolEntry {
    ToolEntry {
        name: name.into(),
        target: target.map(|t| t.into()),
        completed,
        error: false,
        seq,
    }
}

fn agent(kind: Option<&str>, model: Option<&str>, start_time: Option<i64>, seq: u64) -> AgentEntry {
    AgentEntry {
        subagent_type: kind.map(|k| k.into()),
        model: model.map(|m| m.into()),
        description: None,
        start_time,
        completed: false,
        seq,
    }
}

#[test]
fn percentages_round_half_up_and_are_clamped() {
    for (value, pct) in [
        (0.0, 0),
        (-0.0, 0),
        (0.49, 0),
        (0.5, 1),
        (1.5, 2),
        (2.5, 3),
        (24.4999, 24),
        (24.5, 25),
        (99.5, 100),
        (100.0, 100),
        (100.4, 100),
        (250.0, 100),
        (1e300, 100),
        (5e-324, 0),
        (-3.0, 0),
        (f64::INFINITY, 100),
        (f64::NEG_INFINITY, 0),
        (f64::NAN, 0),
    ] {
        assert_eq!(double(value).rounded_percent(), pct, "{value}");
        assert_eq!(double(value).rounded_percent(), value.round().clamp(0.0, 100.0) as u8);
    }
}

#[test]
fn comparison_is_that_of_the_numbers() {
    let values = [
        f64::NEG_INFINITY, -3.5, -1e-310, -0.0, 0.0, 5e-324, 1e-310, 0.1, 3.05, 3.10, 1e300,
        f64::INFINITY, f64::NAN,
    ];
    for a in values {
        for b in values {
            assert_eq!(double(a).exceeds(&double(b)), a > b, "{a} {b}");
        }
    }
}

#[test]
fn texts_are_joined_split_trimmed_and_replaced() {
    assert_eq!(join(&vec!["a".into(), "b".into(), "c".into()], ", "), "a, b, c");
    assert_eq!(join(&vec![], ", "), "");
    assert_eq!(split("/a//b", '/'), vec!["", "a", "", "b"]);
    assert_eq!(split("", '/'), vec![""]);
    assert_eq!(trim(" \u{3000}x y\n"), "x y");
    assert_eq!(trim(" \t"), "");
    assert_eq!(replace("a┃b┃", '┃', "<>"), "a<>b<>");
    assert!(same_text("é", "é"));
    assert!(!same_text("é", "e"));
    let mut out = String::new();
    push_decimal(&mut out, u64::MAX);
    push_decimal2(&mut out, 7);
    push_decimal2(&mut out, 45);
    assert_eq!(out, "184467440737095516150745");
}

#[test]
fn table_keeps_order_and_replaces_in_place() {
    let mut table: Table<ToolEntry> = Table::new();
    table.insert("b".into(), tool("one", None, false, 0));
    table.insert("a".into(), tool("two", None, false, 1));
    table.insert("b".into(), tool("three", None, false, 2));
    assert_eq!(table.len(), 2);
    assert_eq!(table.row(0).0, "b");
    assert_eq!(table.row(0).1.name, "three");
    assert_eq!(table.row(1).1.name, "two");
    table.get_mut("a").unwrap().completed = true;
    assert!(table.get("a").unwrap().completed);
    assert!(!table.get("b").unwrap().completed);
    assert_eq!(table.remove("b").unwrap().name, "three");
    assert!(table.remove("b").is_none());
    assert!(table.get("b").is_none());
    table.clear();
    assert!(table.is_empty());
}

#[test]
fn seconds_round_to_the_nearest_minute() {
    assert_eq!(round_to_minute(0), 0);
    assert_eq!(round_to_minute(29), 0);
    assert_eq!(round_to_minute(30), 60);
    assert_eq!(round_to_minute(89), 60);
    assert_eq!(round_to_minute(-1), 0);
    assert_eq!(round_to_minute(-30), 0);
    assert_eq!(round_to_minute(-31), -60);
    assert_eq!(round_to_minute(-50), -60);
    assert_eq!(round_to_minute(-61), -60);
    assert_eq!(round_to_minute(i64::MAX), i64::MAX - 7);
    assert_eq!(round_to_minute(i64::MIN), i64::MIN + 8);
}

fn is_clock(shown: &str) -> bool {
    let (hours, minutes) = shown.split_once(':').unwrap();
    hours.len() == 2
        && minutes.len() == 2
        && hours.parse::<u8>().unwrap() < 24
        && minutes.parse::<u8>().unwrap() < 60
}

#[test]
fn reset_clock_shows_hours_and_minutes() {
    // A whole minute.
    let now = 1_699_999_980;
    let shown = format_reset_clock_at(1800, now);
    assert!(is_clock(&shown), "{shown}");
    assert_eq!(format_reset_clock_at(1829, now), shown);
    assert_eq!(format_reset_clock_at(1770, now), shown);
    assert_ne!(format_reset_clock_at(1830, now), shown);
    assert_ne!(format_reset_clock_at(5400, now), shown);
    assert!(is_clock(&format_reset_clock(60)));
    assert_eq!(format_reset_clock_at(i64::MAX - 1, 1), "");
    assert_eq!(reset_clock_at(None, 5), "");
}

#[test]
fn cache_label_counts_down() {
    let at = |hit: Option<i64>, miss: Option<i64>, now: i64| {
        render_cache_label_at(
            &CacheStatus { last_cache_hit: hit, last_cache_miss: miss },
            &plain(),
            now,
        )
    };
    assert_eq!(at(None, None, 1000), "⧖ cold");
    assert_eq!(at(Some(1000), None, 1000), "⧖ 4:40");
    assert_eq!(at(Some(1000), None, 1275), "⧖ 0:05");
    assert_eq!(at(Some(1000), None, 1279), "⧖ 0:01");
    assert_eq!(at(Some(1000), None, 1280), "⧖ cold");
    assert_eq!(at(Some(1000), Some(1000), 1030), "$ 4:10");
    assert_eq!(at(Some(1000), Some(1000), 1031), "⧖ 4:09");
    assert_eq!(at(Some(1000), Some(1290), 1290), "⧖ cold");
    assert_eq!(render_cache_label(&CacheStatus::default(), &plain()), "⧖ cold");
}

#[test]
fn cache_label_color_tiers() {
    let at = |now: i64| {
        render_cache_label_at(
            &CacheStatus { last_cache_hit: Some(1000), last_cache_miss: None },
            &Config::default(),
            now,
        )
    };
    assert_eq!(at(1099), format!("{GREEN}⧖ 3:01{RESET}"));
    assert_eq!(at(1100), format!("{YELLOW}⧖ 3:00{RESET}"));
    assert_eq!(at(1219), format!("{YELLOW}⧖ 1:01{RESET}"));
    assert_eq!(at(1220), format!("{RED}⧖ 1:00{RESET}"));
    assert_eq!(at(1280), format!("{DIM}⧖ cold{RESET}"));
}

#[test]
fn flag_leaves_the_width_alone() {
    for now in 1000..1400 {
        let flagged = render_cache_label_at(
            &CacheStatus { last_cache_hit: Some(1000), last_cache_miss: Some(now) },
            &plain(),
            now,
        );
        let bare = render_cache_label_at(
            &CacheStatus { last_cache_hit: Some(1000), last_cache_miss: None },
            &plain(),
            now,
        );
        assert_eq!(flagged.chars().count(), 6);
        assert_eq!(bare.chars().count(), 6);
        assert_eq!(flagged.chars().skip(1).collect::<String>(), bare.chars().skip(1).collect::<String>());
    }
}

fn usage(pct: f64, reset_5h: Option<i64>) -> UsageInfo {
    UsageInfo { usage_5h: Some(double(pct)), usage_7d: None, reset_5h, reset_7d: None }
}

#[test]
fn usage_section_in_full() {
    assert_eq!(
        render_usage_with(Some(&usage(25.4, Some(9000))), &plain(), "12:20").unwrap(),
        "Usage: 25% ▓▓▓░░┃░░░░ → 12:20"
    );
    assert_eq!(
        render_usage_with(Some(&usage(25.0, None)), &plain(), "12:20").unwrap(),
        "Usage: 25% ▓▓▓░░░░░░░"
    );
    assert_eq!(
        render_usage_with(Some(&usage(25.0, Some(18000))), &plain(), "12:20").unwrap(),
        "Usage: 25% ▓▓▓░░░░░░░ → 12:20"
    );
    let weekly = UsageInfo { usage_5h: None, usage_7d: Some(double(9.0)), reset_5h: None, reset_7d: None };
    assert!(render_usage_with(Some(&weekly), &plain(), "12:20").is_none());
}

#[test]
fn usage_section_in_color() {
    let base = usage_color(25);
    // Half the window is over: at this pace it ends at 50 percent.
    assert_eq!(
        render_usage_with(Some(&usage(25.0, Some(9000))), &Config::default(), "12:20").unwrap(),
        format!("{base}Usage: 25% ▓▓▓░░\x1b[38;5;37m┃{RESET}{base}░░░░ → 12:20{RESET}")
    );
    // Too early to project: the percentage is taken as it is.
    assert_eq!(
        render_usage_with(Some(&usage(25.0, Some(17461))), &Config::default(), "12:20").unwrap(),
        format!("{base}Usage: 25% \x1b[38;5;34m┃{RESET}{base}▓▓░░░░░░░ → 12:20{RESET}")
    );
    // Nine minutes are enough.
    assert_eq!(
        render_usage_with(Some(&usage(25.0, Some(17460))), &Config::default(), "12:20").unwrap(),
        format!("{base}Usage: 25% \x1b[38;5;96m┃{RESET}{base}▓▓░░░░░░░ → 12:20{RESET}")
    );
    assert_eq!(
        render_usage_with(Some(&usage(25.0, None)), &Config::default(), "").unwrap(),
        format!("{base}Usage: 25% ▓▓▓░░░░░░░{RESET}")
    );
}

#[test]
fn activity_in_full() {
    let mut tools = Table::new();
    tools.insert("t1".into(), tool("Grep", None, true, 0));
    tools.insert("t2".into(), tool("Read", None, true, 1));
    tools.insert("t3".into(), tool("Edit", Some("a.rs"), false, 4));
    tools.insert("t4".into(), tool("Read", None, true, 3));
    let mut agents = Table::new();
    agents.insert("a1".into(), agent(Some("explore"), Some("haiku"), Some(865), 2));
    agents.insert("a2".into(), agent(None, None, None, 5));
    assert_eq!(
        render_activity_line_at(&tools, &agents, &plain(), 1000).unwrap(),
        "Read x2 │ explore[haiku] 2m 15s │ Edit a.rs │ agent"
    );
    assert_eq!(
        render_activity_line_at(&tools, &Table::new(), &Config::default(), 1000).unwrap(),
        format!("{DIM}Read x2{RESET}{DIM} │ {RESET}\x1b[1;37mEdit a.rs{RESET}")
    );
}

#[test]
fn tools_come_before_agents_of_one_rank() {
    let mut tools = Table::new();
    tools.insert("t1".into(), tool("Edit", None, false, 7));
    let mut agents = Table::new();
    agents.insert("a1".into(), agent(Some("explore"), None, None, 7));
    assert_eq!(
        render_activity_line_at(&tools, &agents, &plain(), 1000).unwrap(),
        "Edit │ explore"
    );
}

#[test]
fn colors_wrap_and_separators_are_dim() {
    assert_eq!(colorize("x".into(), RED, true), "\x1b[31mx\x1b[0m");
    assert_eq!(colorize("x".into(), RED, false), "x");
    assert_eq!(rendered_separator(&Config::default()), "\x1b[2m │ \x1b[0m");
    assert_eq!(rendered_separator(&plain()), " │ ");
}

fn full_transcript() -> TranscriptData {
    let mut tools = Table::new();
    tools.insert("t1".into(), tool("Read", Some("a.rs"), true, 0));
    tools.insert("t2".into(), tool("Edit", Some("b.rs"), false, 1));
    let mut agents = Table::new();
    agents.insert("a1".into(), agent(Some("explore"), Some("haiku"), Some(970), 2));
    let mut tasks = Table::new();
    tasks.insert("1".into(), TaskItem { status: TaskStatus::Completed });
    tasks.insert("2".into(), TaskItem { status: TaskStatus::Pending });
    TranscriptData {
        tools,
        agents,
        todos: vec![TodoItem { content: "x".into(), completed: true }],
        tasks,
    }
}

#[test]
fn whole_line_in_order() {
    let data = StdinData {
        model: Some(Model { display_name: Some("Opus".into()) }),
        cwd: Some("/home/user/my-project".into()),
        context_window: Some(ContextWindow { used_percentage: Some(45), ..Default::default() }),
        ..Default::default()
    };
    let git = GitInfo { branch: "main".into(), dirty: true };
    let usage = usage(25.0, Some(3600));
    let cache = CacheStatus { last_cache_hit: Some(990), last_cache_miss: None };
    let transcript = full_transcript();
    assert!(is_line_renderable(&transcript, Some(&usage), &cache, 1000));
    assert_eq!(
        render_at(&data, &plain(), &transcript, Some(&git), Some(&usage), &cache, 1000, "09:05"),
        "my-project │ ⎇ main* │ Opus │ Ctx: 45% │ ⧖ 4:30 │ Usage: 25% ▓▓▓░░░░░┃░ → 09:05 │ \
         Read │ Edit b.rs │ explore[haiku] 30s │ tasks 2/3"
    );
    assert_eq!(
        render_at(
            &StdinData::default(),
            &plain(),
            &TranscriptData::default(),
            None,
            None,
            &CacheStatus::default(),
            1000,
            "",
        ),
        "no data │ cstat │ ⧖ cold"
    );
}

#[test]
fn colored_line_is_a_single_line() {
    let line = render_at(
        &StdinData::default(),
        &Config::default(),
        &full_transcript(),
        None,
        None,
        &CacheStatus::default(),
        1000,
        "",
    );
    assert!(!line.contains('\n'));
    assert!(line.contains('\x1b'));
}

#[test]
fn project_shows_the_last_components() {
    let shown = |cwd: &str, levels: u8| {
        let data = StdinData { cwd: Some(cwd.into()), ..Default::default() };
        let config = Config { path_levels: Some(levels), ..plain() };
        let line = render_at(
            &data,
            &config,
            &TranscriptData::default(),
            None,
            None,
            &CacheStatus::default(),
            0,
            "",
        );
        line.split(" │ ").next().unwrap().to_string()
    };
    assert_eq!(shown("/a/b/c/d", 1), "d");
    assert_eq!(shown("/a/b/c/d", 3), "b/c/d");
    assert_eq!(shown("/a", 3), "/a");
    assert_eq!(shown("a", 2), "a");
    assert_eq!(shown("/a/", 1), "");
}

#[test]
fn times_too_far_apart_give_no_line() {
    let cache = CacheStatus { last_cache_hit: Some(i64::MIN), last_cache_miss: None };
    assert!(render_if_computable(
        &StdinData::default(),
        &plain(),
        &TranscriptData::default(),
        None,
        None,
        &cache,
    )
    .is_none());
    let mut agents = Table::new();
    agents.insert("a1".into(), agent(None, None, Some(i64::MIN), 0));
    assert!(!is_activity_renderable(&agents, 1));
    agents.insert("a1".into(), agent(None, None, Some(0), 0));
    assert!(is_activity_renderable(&agents, 1));
    assert_eq!(
        render_if_computable(
            &StdinData::default(),
            &plain(),
            &TranscriptData::default(),
            None,
            None,
            &CacheStatus::default(),
        )
        .unwrap(),
        "no data │ cstat │ ⧖ cold"
    );
}

#[test]
fn bar_grows_with_usage_and_marker_moves_with_time() {
    let mut filled = 0;
    for pct in 0..=100 {
        let bar = build_usage_bar(pct, None);
        let now_filled = bar.chars().filter(|c| *c == '▓').count();
        assert_eq!(bar.chars().count(), 10);
        assert!(now_filled >= filled);
        filled = now_filled;
    }
    assert_eq!(filled, 10);
    let mut place = 0;
    for remaining in (1..18_000).rev() {
        let bar = build_usage_bar(30, Some(remaining));
        assert_eq!(bar.chars().filter(|c| *c == '┃').count(), 1);
        let at = bar.chars().position(|c| c == '┃').unwrap();
        assert!(at >= place);
        place = at;
    }
    assert_eq!(place, 9);
}

#[test]
fn runs_expand_back_to_the_names() {
    let names = vec!["A", "A", "B", "A", "C", "C", "C"];
    let groups = group_consecutive_names(&names);
    assert_eq!(groups, vec![("A", 2), ("B", 1), ("A", 1), ("C", 3)]);
    let expanded: Vec<&str> =
        groups.iter().flat_map(|(name, count)| vec![*name; *count]).collect();
    assert_eq!(expanded, names);
}

#[test]
fn clock_ahead_of_utc_by_an_offset() {
    assert_eq!(format_clock(0, Some(0)), "00:00");
    assert_eq!(format_clock(0, Some(-60)), "23:59");
    assert_eq!(format_clock(45_296, Some(7_200)), "14:34");
    assert_eq!(format_clock(-1, Some(0)), "23:59");
    assert_eq!(format_clock(i64::MAX, Some(86_399)), "15:30");
    assert_eq!(format_clock(i64::MIN, Some(-86_399)), "08:29");
    assert_eq!(format_clock(0, None), "");
    assert_eq!(format_reset_clock_with(29, 3_600, Some(3_600)), "02:00");
    assert_eq!(format_reset_clock_with(30, 3_600, Some(3_600)), "02:01");
    assert_eq!(format_reset_clock_with(30, 3_600, None), "");
}

#[test]
fn reset_clock_is_the_local_time() {
    let mut now = -2_000_000_000;
    while now < 4_000_000_000i64 {
        let shown = format_reset_clock_at(0, now);
        let local = chrono::Local
            .timestamp_opt(round_to_minute(now), 0)
            .single()
            .map(|time| time.format("%H:%M").to_string());
        assert_eq!(Some(shown), local, "{now}");
        now += 7_654_321;
    }
}

#[test]
fn reset_clock_at_the_edges_of_the_calendar() {
    assert_eq!(format_reset_clock_at(0, -8_334_601_228_860), "");
    assert!(is_clock(&format_reset_clock_at(0, -8_334_601_228_800)));
    assert!(is_clock(&format_reset_clock_at(0, 8_210_266_876_740)));
    assert_eq!(format_reset_clock_at(0, 8_210_266_876_800), "");
    assert_eq!(
        Some(format_reset_clock_at(0, -8_334_601_228_800)),
        chrono::Local
            .timestamp_opt(-8_334_601_228_800, 0)
            .single()
            .map(|time| time.format("%H:%M").to_string())
    );
}

#[test]
fn white_space_is_that_of_unicode() {
    let white = [
        '\u{9}', '\u{a}', '\u{b}', '\u{c}', '\u{d}', '\u{20}', '\u{85}', '\u{a0}', '\u{1680}',
        '\u{2000}', '\u{2001}', '\u{2002}', '\u{2003}', '\u{2004}', '\u{2005}', '\u{2006}',
        '\u{2007}', '\u{2008}', '\u{2009}', '\u{200a}', '\u{2028}', '\u{2029}', '\u{202f}',
        '\u{205f}', '\u{3000}',
    ];
    for c in '\0'..=char::MAX {
        assert_eq!(trim(&c.to_string()).is_empty(), white.contains(&c), "{c:?}");
    }
}

/// A text without its color codes.
fn stripped(s: &str) -> String {
    let mut out = String::new();
    let mut rest = s;
    while let Some(at) = rest.find("\x1b[") {
        out.push_str(&rest[..at]);
        let end = rest[at..].find('m').unwrap();
        rest = &rest[at + end + 1..];
    }
    out.push_str(rest);
    out
}

#[test]
fn colored_line_without_codes_is_the_plain_line() {
    let data = StdinData {
        model: Some(Model { display_name: Some("Opus".into()) }),
        cwd: Some("/home/user/my-project".into()),
        context_window: Some(ContextWindow { used_percentage: Some(90), ..Default::default() }),
        ..Default::default()
    };
    let git = GitInfo { branch: "main".into(), dirty: true };
    for reset in [None, Some(3600), Some(17_900), Some(20_000)] {
        let usage = usage(63.0, reset);
        let cache = CacheStatus { last_cache_hit: Some(900), last_cache_miss: Some(990) };
        let line = |config: &Config| {
            render_at(&data, config, &full_transcript(), Some(&git), Some(&usage), &cache, 1000, "09:05")
        };
        let colored = line(&Config { colors: Some(true), ..Default::default() });
        assert!(colored.contains('\x1b'));
        assert_eq!(stripped(&colored), line(&plain()));
        assert!(!line(&plain()).contains('\x1b'));
    }
}
