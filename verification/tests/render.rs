use cstat::number::Double;
use cstat::render::{
    build_usage_bar, context_percentage, render, render_tasks, render_usage, FIVE_HOUR_SECS,
};
use cstat::style::{
    color_for_percentage, format_agent_duration, format_duration, pace_color, usage_color, BRIGHT,
    DIM, GREEN, PACE_COMFORTABLE, PACE_CRITICAL, PACE_ON_TRACK, PACE_PRESSING, PACE_RUNAWAY,
    PACE_WARMING, RED, RESET, USAGE_GRADIENT, YELLOW,
};
use cstat::table::Table;
use cstat::timeline::{group_consecutive_names, render_activity_line};
use cstat::types::{
    AgentEntry, CacheStatus, Config, ContextWindow, GitInfo, Model, StdinData, TaskItem,
    TaskStatus, TodoItem, ToolEntry, TranscriptData, UsageInfo,
};

fn double(value: f64) -> Double {
    Double { bits: value.to_bits() }
}

fn make_data(pct: Option<u8>) -> StdinData {
    StdinData {
        model: Some(Model {
            display_name: Some("Opus".into()),
        }),
        cwd: Some("/home/user/my-project".into()),
        context_window: Some(ContextWindow {
            used_percentage: pct,
            ..Default::default()
        }),
        ..Default::default()
    }
}

#[test]
fn render_model_and_project() {
    let data = StdinData {
        model: Some(Model {
            display_name: Some("Opus".into()),
        }),
        cwd: Some("/home/user/my-project".into()),
        ..Default::default()
    };
    let out = render(&data, &Config::default(), &TranscriptData::default(), None, None, &CacheStatus::default());
    assert_eq!(out.lines().count(), 1);
    assert!(out.contains("Opus"));
    assert!(out.contains("my-project"));
}

#[test]
fn render_empty_stdin() {
    let data = StdinData::default();
    let out = render(&data, &Config::default(), &TranscriptData::default(), None, None, &CacheStatus::default());
    assert_eq!(out.lines().count(), 1);
    assert!(out.contains("cstat"));
    assert!(out.contains("no data"));
}

#[test]
fn render_missing_model_name() {
    let data = StdinData {
        model: Some(Model { display_name: None }),
        cwd: Some("/tmp/foo".into()),
        ..Default::default()
    };
    let out = render(&data, &Config::default(), &TranscriptData::default(), None, None, &CacheStatus::default());
    assert!(out.contains("cstat"));
    assert!(out.contains("foo"));
}

// Color-tier logic: tested directly against `color_for_percentage`, not via
// rendered ANSI strings. See `color_for_percentage_*` tests below.
//
// Section omission and label format are covered by `context_missing_window`,
// `context_missing_tokens`, and the integration tests.

#[test]
fn context_missing_window() {
    let data = StdinData {
        model: Some(Model {
            display_name: Some("Opus".into()),
        }),
        cwd: Some("/home/user/my-project".into()),
        ..Default::default()
    };
    let out = render(&data, &no_colors_cfg(), &TranscriptData::default(), None, None, &CacheStatus::default());
    assert!(!out.contains("Ctx:"));
}

#[test]
fn context_missing_tokens() {
    let data = make_data(None);
    let out = render(&data, &no_colors_cfg(), &TranscriptData::default(), None, None, &CacheStatus::default());
    assert!(!out.contains("Ctx:"));
}

#[test]
fn path_levels_2() {
    let data = StdinData {
        model: Some(Model {
            display_name: Some("Opus".into()),
        }),
        cwd: Some("/home/user/my-project".into()),
        ..Default::default()
    };
    let cfg = Config {
        path_levels: Some(2),
        ..Default::default()
    };
    let out = render(&data, &cfg, &TranscriptData::default(), None, None, &CacheStatus::default());
    let line2 = out.as_str();
    assert!(line2.starts_with("user/my-project"));
}

#[test]
fn path_levels_3() {
    let data = StdinData {
        model: Some(Model {
            display_name: Some("Opus".into()),
        }),
        cwd: Some("/home/user/my-project".into()),
        ..Default::default()
    };
    let cfg = Config {
        path_levels: Some(3),
        ..Default::default()
    };
    let out = render(&data, &cfg, &TranscriptData::default(), None, None, &CacheStatus::default());
    let line2 = out.as_str();
    assert!(line2.starts_with("home/user/my-project"));
}

#[test]
fn custom_separator() {
    let data = make_data(Some(10));
    let cfg = Config {
        colors: Some(false),
        separator: Some(" | ".into()),
        ..Default::default()
    };
    let out = render(&data, &cfg, &TranscriptData::default(), None, None, &CacheStatus::default());
    let line2 = out.as_str();
    assert!(line2.contains("my-project | "));
    assert!(line2.contains(" | Ctx: 10%"));
}

fn tool(name: &str, target: Option<&str>, completed: bool) -> ToolEntry {
    tool_seq(name, target, completed, 0)
}

fn tool_seq(name: &str, target: Option<&str>, completed: bool, seq: u64) -> ToolEntry {
    ToolEntry {
        name: name.to_string(),
        target: target.map(|s| s.to_string()),
        completed,
        error: false,
        seq,
    }
}

fn no_colors_cfg() -> Config {
    Config {
        colors: Some(false),
        ..Default::default()
    }
}

#[test]
fn activity_shown_on_line2() {
    let mut tools = Table::new();
    tools.insert("t1".into(), tool("Edit", Some("auth.ts"), false));
    let transcript = TranscriptData {
        tools,
        ..Default::default()
    };
    let data = StdinData {
        cwd: Some("/tmp/p".into()),
        ..Default::default()
    };
    let out = render(&data, &no_colors_cfg(), &transcript, None, None, &CacheStatus::default());
    let line2 = out.as_str();
    assert!(line2.contains("Edit auth.ts"));
}

#[test]
fn activity_running_tool_without_target() {
    let mut tools = Table::new();
    tools.insert("t1".into(), tool("Glob", None, false));
    let transcript = TranscriptData {
        tools,
        ..Default::default()
    };
    let data = StdinData {
        cwd: Some("/tmp/p".into()),
        ..Default::default()
    };
    let out = render(&data, &no_colors_cfg(), &transcript, None, None, &CacheStatus::default());
    let line2 = out.as_str();
    assert!(line2.contains("Glob"));
}

#[test]
fn activity_shows_only_last_completed_group() {
    // Cap is 1 — only the most recent consecutive run should appear.
    let mut tools = Table::new();
    tools.insert("t1".into(), tool_seq("Read", Some("a.rs"), true, 0));
    tools.insert("t2".into(), tool_seq("Read", Some("b.rs"), true, 1));
    tools.insert("t3".into(), tool_seq("Grep", Some("TODO"), true, 2));
    tools.insert("t4".into(), tool_seq("Edit", Some("c.rs"), true, 3));
    let activity = render_activity_line(&tools, &Table::new(), &no_colors_cfg()).unwrap();
    assert!(activity.contains("Edit"), "expected most-recent group, got: {activity}");
    assert!(!activity.contains("Read"), "Read should be capped out, got: {activity}");
    assert!(!activity.contains("Grep"), "Grep should be capped out, got: {activity}");
}

#[test]
fn activity_running_plus_completed() {
    let mut tools = Table::new();
    tools.insert("t1".into(), tool("Read", Some("a.rs"), true));
    tools.insert("t2".into(), tool("Read", Some("b.rs"), true));
    tools.insert("t3".into(), tool("Edit", Some("main.rs"), false));
    let transcript = TranscriptData {
        tools,
        ..Default::default()
    };
    let data = StdinData {
        cwd: Some("/tmp/p".into()),
        ..Default::default()
    };
    let out = render(&data, &no_colors_cfg(), &transcript, None, None, &CacheStatus::default());
    let line2 = out.as_str();
    assert!(line2.contains("Edit main.rs"));
    assert!(line2.contains("Read x2"));
}

#[test]
fn activity_with_colors() {
    let mut tools = Table::new();
    tools.insert("t1".into(), tool("Edit", Some("auth.ts"), false));
    tools.insert("t2".into(), tool("Read", Some("a.rs"), true));
    let transcript = TranscriptData {
        tools,
        ..Default::default()
    };
    let data = StdinData {
        cwd: Some("/tmp/p".into()),
        ..Default::default()
    };
    let out = render(&data, &Config::default(), &transcript, None, None, &CacheStatus::default());
    let line2 = out.as_str();
    assert!(line2.contains(BRIGHT));
    assert!(line2.contains(DIM));
    assert!(line2.contains(RESET));
}

#[test]
fn activity_single_completed_no_count() {
    let mut tools = Table::new();
    tools.insert("t1".into(), tool("Grep", Some("TODO"), true));
    let transcript = TranscriptData {
        tools,
        ..Default::default()
    };
    let data = StdinData {
        cwd: Some("/tmp/p".into()),
        ..Default::default()
    };
    let out = render(&data, &no_colors_cfg(), &transcript, None, None, &CacheStatus::default());
    let line2 = out.as_str();
    assert!(line2.contains("Grep"));
    assert!(!line2.contains("x1"));
}

#[test]
fn activity_running_agent_with_model() {
    let mut agents = Table::new();
    agents.insert(
        "a1".into(),
        AgentEntry {
            subagent_type: Some("explore".into()),
            model: Some("haiku".into()),
            description: Some("find files".into()),
            start_time: Some(chrono::Utc::now().timestamp() - 135),
            completed: false,
            seq: 0,
        },
    );
    let transcript = TranscriptData {
        agents,
        ..Default::default()
    };
    let data = StdinData {
        cwd: Some("/tmp/p".into()),
        ..Default::default()
    };
    let out = render(&data, &no_colors_cfg(), &transcript, None, None, &CacheStatus::default());
    let line2 = out.as_str();
    assert!(line2.contains("explore[haiku] 2m 15s"));
}

#[test]
fn activity_running_agent_without_model() {
    let mut agents = Table::new();
    agents.insert(
        "a1".into(),
        AgentEntry {
            subagent_type: Some("general-purpose".into()),
            model: None,
            description: None,
            start_time: Some(chrono::Utc::now().timestamp() - 45),
            completed: false,
            seq: 0,
        },
    );
    let transcript = TranscriptData {
        agents,
        ..Default::default()
    };
    let data = StdinData {
        cwd: Some("/tmp/p".into()),
        ..Default::default()
    };
    let out = render(&data, &no_colors_cfg(), &transcript, None, None, &CacheStatus::default());
    let line2 = out.as_str();
    assert!(line2.contains("general-purpose 45s"));
}

#[test]
fn activity_completed_agent_in_history() {
    let mut agents = Table::new();
    agents.insert(
        "a1".into(),
        AgentEntry {
            subagent_type: Some("explore".into()),
            model: Some("haiku".into()),
            description: None,
            start_time: Some(chrono::Utc::now().timestamp() - 60),
            completed: true,
            seq: 0,
        },
    );
    let transcript = TranscriptData {
        agents,
        ..Default::default()
    };
    let data = StdinData {
        cwd: Some("/tmp/p".into()),
        ..Default::default()
    };
    let out = render(&data, &no_colors_cfg(), &transcript, None, None, &CacheStatus::default());
    assert!(out.contains("explore"));
}

#[test]
fn activity_agent_yellow_with_colors() {
    let mut agents = Table::new();
    agents.insert(
        "a1".into(),
        AgentEntry {
            subagent_type: Some("explore".into()),
            model: None,
            description: None,
            start_time: Some(chrono::Utc::now().timestamp() - 10),
            completed: false,
            seq: 0,
        },
    );
    let transcript = TranscriptData {
        agents,
        ..Default::default()
    };
    let data = StdinData {
        cwd: Some("/tmp/p".into()),
        ..Default::default()
    };
    let out = render(&data, &Config::default(), &transcript, None, None, &CacheStatus::default());
    let line2 = out.as_str();
    assert!(line2.contains(YELLOW));
}

#[test]
fn activity_uses_config_separator() {
    let mut tools = Table::new();
    tools.insert("t1".into(), tool("Read", None, true));
    tools.insert("t2".into(), tool("Grep", None, true));
    let transcript = TranscriptData {
        tools,
        ..Default::default()
    };
    let data = StdinData {
        cwd: Some("/tmp/p".into()),
        ..Default::default()
    };
    let cfg = Config {
        colors: Some(false),
        separator: Some(" | ".into()),
        ..Default::default()
    };
    let out = render(&data, &cfg, &transcript, None, None, &CacheStatus::default());
    let line2 = out.as_str();
    assert!(line2.contains(" | "));
}

#[test]
fn git_branch_shown() {
    let data = StdinData {
        model: Some(Model { display_name: Some("Opus".into()) }),
        cwd: Some("/tmp/proj".into()),
        ..Default::default()
    };
    let git = GitInfo { branch: "main".into(), dirty: false };
    let out = render(&data, &no_colors_cfg(), &TranscriptData::default(), Some(&git), None, &CacheStatus::default());
    let line2 = out.as_str();
    assert!(line2.contains("main"));
    assert!(!line2.contains("git:"));
}

#[test]
fn git_dirty_indicator() {
    let data = StdinData {
        model: Some(Model { display_name: Some("Opus".into()) }),
        cwd: Some("/tmp/proj".into()),
        ..Default::default()
    };
    let git = GitInfo { branch: "feat/x".into(), dirty: true };
    let out = render(&data, &no_colors_cfg(), &TranscriptData::default(), Some(&git), None, &CacheStatus::default());
    let line2 = out.as_str();
    assert!(line2.contains("feat/x*"));
}

#[test]
fn git_with_colors() {
    let data = StdinData {
        model: Some(Model { display_name: Some("Opus".into()) }),
        cwd: Some("/tmp/proj".into()),
        ..Default::default()
    };
    let git = GitInfo { branch: "main".into(), dirty: false };
    let out = render(&data, &Config::default(), &TranscriptData::default(), Some(&git), None, &CacheStatus::default());
    let line2 = out.as_str();
    assert!(line2.contains(DIM));
    assert!(line2.contains("main"));
    assert!(!line2.contains("git:"));
}

#[test]
fn git_omitted_when_none() {
    let data = StdinData {
        model: Some(Model { display_name: Some("Opus".into()) }),
        cwd: Some("/tmp/proj".into()),
        ..Default::default()
    };
    let out = render(&data, &no_colors_cfg(), &TranscriptData::default(), None, None, &CacheStatus::default());
    assert!(!out.contains("main"));
}

#[test]
fn git_with_context() {
    let data = make_data(Some(45));
    let git = GitInfo { branch: "dev".into(), dirty: false };
    let cfg = Config { colors: Some(false), ..Default::default() };
    let out = render(&data, &cfg, &TranscriptData::default(), Some(&git), None, &CacheStatus::default());
    let line2 = out.as_str();
    assert!(line2.contains("my-project"));
    assert!(line2.contains("dev"));
    assert!(line2.contains("Ctx: 45%"));
}

#[test]
fn format_duration_under_minute() {
    assert_eq!(format_duration(0), "<1m");
    assert_eq!(format_duration(30), "<1m");
    assert_eq!(format_duration(59), "<1m");
}

#[test]
fn format_duration_minutes() {
    assert_eq!(format_duration(60), "1m");
    assert_eq!(format_duration(120), "2m");
    assert_eq!(format_duration(3599), "59m");
}

#[test]
fn format_duration_hours_and_minutes() {
    assert_eq!(format_duration(3600), "1h 0m");
    assert_eq!(format_duration(5400), "1h 30m");
    assert_eq!(format_duration(7200), "2h 0m");
}

#[test]
fn tasks_shown_from_todos() {
    let data = StdinData {
        cwd: Some("/tmp/p".into()),
        ..Default::default()
    };
    let transcript = TranscriptData {
        todos: vec![
            TodoItem { content: "a".into(), completed: true },
            TodoItem { content: "b".into(), completed: false },
            TodoItem { content: "c".into(), completed: true },
        ],
        ..Default::default()
    };
    let out = render(&data, &no_colors_cfg(), &transcript, None, None, &CacheStatus::default());
    let line2 = out.as_str();
    assert!(line2.contains("tasks 2/3"));
}

#[test]
fn tasks_shown_from_task_items() {
    let data = StdinData {
        cwd: Some("/tmp/p".into()),
        ..Default::default()
    };
    let mut tasks = Table::new();
    tasks.insert("t1".into(), TaskItem { status: TaskStatus::Completed });
    tasks.insert("t2".into(), TaskItem { status: TaskStatus::Pending });
    tasks.insert("t3".into(), TaskItem { status: TaskStatus::InProgress });
    let transcript = TranscriptData {
        tasks,
        ..Default::default()
    };
    let out = render(&data, &no_colors_cfg(), &transcript, None, None, &CacheStatus::default());
    let line2 = out.as_str();
    assert!(line2.contains("tasks 1/3"));
}

#[test]
fn tasks_combined_todos_and_task_items() {
    let data = StdinData {
        cwd: Some("/tmp/p".into()),
        ..Default::default()
    };
    let mut tasks = Table::new();
    tasks.insert("t1".into(), TaskItem { status: TaskStatus::Completed });
    tasks.insert("t2".into(), TaskItem { status: TaskStatus::Pending });
    let transcript = TranscriptData {
        todos: vec![
            TodoItem { content: "a".into(), completed: true },
            TodoItem { content: "b".into(), completed: false },
        ],
        tasks,
        ..Default::default()
    };
    let out = render(&data, &no_colors_cfg(), &transcript, None, None, &CacheStatus::default());
    let line2 = out.as_str();
    assert!(line2.contains("tasks 2/4"));
}

#[test]
fn tasks_hidden_when_empty() {
    let data = StdinData {
        cwd: Some("/tmp/p".into()),
        ..Default::default()
    };
    let out = render(&data, &no_colors_cfg(), &TranscriptData::default(), None, None, &CacheStatus::default());
    assert!(!out.contains("tasks"));
}

#[test]
fn tasks_green_when_all_completed() {
    let data = StdinData {
        cwd: Some("/tmp/p".into()),
        ..Default::default()
    };
    let transcript = TranscriptData {
        todos: vec![
            TodoItem { content: "a".into(), completed: true },
            TodoItem { content: "b".into(), completed: true },
        ],
        ..Default::default()
    };
    let out = render(&data, &Config::default(), &transcript, None, None, &CacheStatus::default());
    let line2 = out.as_str();
    assert!(line2.contains(GREEN));
    assert!(line2.contains("tasks 2/2"));
}

#[test]
fn tasks_dim_when_not_all_completed() {
    let data = StdinData {
        cwd: Some("/tmp/p".into()),
        ..Default::default()
    };
    let transcript = TranscriptData {
        todos: vec![
            TodoItem { content: "a".into(), completed: true },
            TodoItem { content: "b".into(), completed: false },
        ],
        ..Default::default()
    };
    let out = render(&data, &Config::default(), &transcript, None, None, &CacheStatus::default());
    let line2 = out.as_str();
    assert!(line2.contains(DIM));
    assert!(line2.contains("tasks 1/2"));
}

#[test]
fn tasks_alongside_tools() {
    let data = StdinData {
        cwd: Some("/tmp/p".into()),
        ..Default::default()
    };
    let mut tools = Table::new();
    tools.insert("t1".into(), tool("Read", Some("a.rs"), true));
    let transcript = TranscriptData {
        tools,
        todos: vec![
            TodoItem { content: "a".into(), completed: true },
            TodoItem { content: "b".into(), completed: false },
        ],
        ..Default::default()
    };
    let out = render(&data, &no_colors_cfg(), &transcript, None, None, &CacheStatus::default());
    let line2 = out.as_str();
    assert!(line2.contains("Read"));
    assert!(line2.contains("tasks 1/2"));
}

// Usage rendering details (color tier, bar shape, clock format) are tested
// directly against `usage_color`, `pace_color`, and `build_usage_bar`.
// Visual regressions are caught by the integration tests.

#[test]
fn usage_omitted_when_none() {
    let data = StdinData {
        model: Some(Model { display_name: Some("Opus".into()) }),
        cwd: Some("/tmp/proj".into()),
        ..Default::default()
    };
    let out = render(&data, &no_colors_cfg(), &TranscriptData::default(), None, None, &CacheStatus::default());
    assert!(!out.contains("Usage:"));
    assert!(out.contains("Opus"));
    assert!(out.contains("proj"));
}

#[test]
fn usage_renders_when_present() {
    // One end-to-end test that the section actually appears on the line.
    let data = make_data(Some(45));
    let usage = UsageInfo {
        usage_5h: Some(double(25.0)),
        usage_7d: Some(double(60.0)),
        reset_5h: Some(5400),
        reset_7d: None,
    };
    let out = render(&data, &no_colors_cfg(), &TranscriptData::default(), None, Some(&usage), &CacheStatus::default());
    assert!(out.contains("Usage: 25%"));
}

#[test]
fn single_line_layout_order() {
    // Section order contract: project … context … cache … usage.
    let data = make_data(Some(45));
    let usage = UsageInfo {
        usage_5h: Some(double(25.0)),
        usage_7d: None,
        reset_5h: Some(5400),
        reset_7d: None,
    };
    let out = render(&data, &no_colors_cfg(), &TranscriptData::default(), None, Some(&usage), &CacheStatus::default());
    assert_eq!(out.lines().count(), 1);
    let ctx = out.find("Ctx: 45%").unwrap();
    let cache = out.find('⧖').unwrap();
    let usage_pos = out.find("Usage:").unwrap();
    assert!(ctx < cache, "Ctx should precede cache label");
    assert!(cache < usage_pos, "cache label should precede Usage");
}

fn full_transcript() -> TranscriptData {
    let mut tools = Table::new();
    tools.insert("t1".into(), tool("Read", Some("a.rs"), true));
    tools.insert("t2".into(), tool("Edit", Some("b.rs"), false));
    let mut agents = Table::new();
    agents.insert(
        "a1".into(),
        AgentEntry {
            subagent_type: Some("explore".into()),
            model: Some("haiku".into()),
            description: None,
            start_time: Some(chrono::Utc::now().timestamp() - 30),
            completed: false,
            seq: 2,
        },
    );
    let mut tasks = Table::new();
    tasks.insert("tk1".into(), TaskItem { status: TaskStatus::Completed });
    tasks.insert("tk2".into(), TaskItem { status: TaskStatus::Pending });
    TranscriptData {
        tools,
        agents,
        todos: vec![
            TodoItem { content: "x".into(), completed: true },
            TodoItem { content: "y".into(), completed: false },
        ],
        tasks,
    }
}

fn full_usage() -> UsageInfo {
    UsageInfo {
        usage_5h: Some(double(25.0)),
        usage_7d: Some(double(60.0)),
        reset_5h: Some(3600),
        reset_7d: Some(259200),
    }
}

#[test]
fn all_data_present_no_colors() {
    let data = make_data(Some(45));
    let git = GitInfo { branch: "main".into(), dirty: true };
    let usage = full_usage();
    let transcript = full_transcript();
    let out = render(&data, &no_colors_cfg(), &transcript, Some(&git), Some(&usage), &CacheStatus::default());
    assert_eq!(out.lines().count(), 1);
    assert!(out.contains("Opus"));
    assert!(out.contains("Usage: 25%"));
    assert!(out.contains("my-project"));
    assert!(out.contains("main*"));
    assert!(out.contains("Ctx: 45%"));
    assert!(out.contains("Edit b.rs"));
    assert!(out.contains("Read"));
    assert!(out.contains("explore[haiku]"));
    assert!(out.contains("tasks 2/4"));
}

#[test]
fn all_data_present_with_colors() {
    let data = make_data(Some(45));
    let git = GitInfo { branch: "main".into(), dirty: false };
    let usage = full_usage();
    let transcript = full_transcript();
    let out = render(&data, &Config::default(), &transcript, Some(&git), Some(&usage), &CacheStatus::default());
    // Branch is green, separator + completed-history + tasks dim, agent yellow.
    assert!(out.contains(GREEN));
    assert!(out.contains(DIM));
    assert!(out.contains(BRIGHT));
    assert!(out.contains(YELLOW));
    assert!(out.contains(RESET));
}

#[test]
fn all_data_present_custom_separator() {
    let data = make_data(Some(45));
    let git = GitInfo { branch: "main".into(), dirty: false };
    let usage = full_usage();
    let transcript = full_transcript();
    let cfg = Config {
        colors: Some(false),
        separator: Some(" | ".into()),
        ..Default::default()
    };
    let out = render(&data, &cfg, &transcript, Some(&git), Some(&usage), &CacheStatus::default());
    assert!(out.contains(" | Usage: 25%"));
    assert!(out.contains(" | Ctx: 45%"));
}

#[test]
fn missing_git_only() {
    let data = make_data(Some(45));
    let usage = full_usage();
    let transcript = full_transcript();
    let out = render(&data, &no_colors_cfg(), &transcript, None, Some(&usage), &CacheStatus::default());
    assert!(!out.contains("⎇"));
    assert!(out.contains("Ctx: 45%"));
    assert!(out.contains("Usage: 25%"));
}

#[test]
fn missing_context_only() {
    let data = StdinData {
        model: Some(Model { display_name: Some("Opus".into()) }),
        cwd: Some("/home/user/my-project".into()),
        ..Default::default()
    };
    let git = GitInfo { branch: "main".into(), dirty: false };
    let usage = full_usage();
    let transcript = full_transcript();
    let out = render(&data, &no_colors_cfg(), &transcript, Some(&git), Some(&usage), &CacheStatus::default());
    assert!(!out.contains("Ctx:"));
    assert!(out.contains("main"));
    assert!(out.contains("Usage: 25%"));
}

#[test]
fn missing_usage_only() {
    let data = make_data(Some(45));
    let git = GitInfo { branch: "main".into(), dirty: false };
    let transcript = full_transcript();
    let out = render(&data, &no_colors_cfg(), &transcript, Some(&git), None, &CacheStatus::default());
    assert!(!out.contains("Usage:"));
    assert!(out.contains("Ctx: 45%"));
    assert!(out.contains("main"));
}

#[test]
fn missing_activity_only() {
    let data = make_data(Some(45));
    let git = GitInfo { branch: "main".into(), dirty: false };
    let usage = full_usage();
    let transcript = TranscriptData {
        todos: vec![
            TodoItem { content: "x".into(), completed: true },
            TodoItem { content: "y".into(), completed: false },
        ],
        ..Default::default()
    };
    let out = render(&data, &no_colors_cfg(), &transcript, Some(&git), Some(&usage), &CacheStatus::default());
    let line2 = out.as_str();
    assert!(line2.contains("tasks 1/2"));
}

#[test]
fn missing_tasks_only() {
    let data = make_data(Some(45));
    let git = GitInfo { branch: "main".into(), dirty: false };
    let usage = full_usage();
    let mut tools = Table::new();
    tools.insert("t1".into(), tool("Read", Some("a.rs"), true));
    let transcript = TranscriptData {
        tools,
        ..Default::default()
    };
    let out = render(&data, &no_colors_cfg(), &transcript, Some(&git), Some(&usage), &CacheStatus::default());
    let line2 = out.as_str();
    assert!(!line2.contains("tasks"));
}

#[test]
fn all_blocks_missing() {
    let data = StdinData::default();
    let out = render(&data, &Config::default(), &TranscriptData::default(), None, None, &CacheStatus::default());
    assert_eq!(out.lines().count(), 1);
    assert!(out.contains("cstat"));
    assert!(out.contains("no data"));
}

#[test]
fn all_blocks_missing_no_colors() {
    let data = StdinData::default();
    let out = render(&data, &no_colors_cfg(), &TranscriptData::default(), None, None, &CacheStatus::default());
    assert!(!out.contains('\x1b'));
}

#[test]
fn no_ansi_codes_when_colors_off() {
    let data = make_data(Some(45));
    let git = GitInfo { branch: "main".into(), dirty: true };
    let usage = full_usage();
    let transcript = full_transcript();
    let out = render(&data, &no_colors_cfg(), &transcript, Some(&git), Some(&usage), &CacheStatus::default());
    assert!(!out.contains('\x1b'));
}

#[test]
fn output_never_empty() {
    let data = StdinData::default();
    let out = render(&data, &Config::default(), &TranscriptData::default(), None, None, &CacheStatus::default());
    assert!(!out.is_empty());
}

#[test]
fn output_no_trailing_newline() {
    let data = make_data(Some(45));
    let transcript = full_transcript();
    let out = render(&data, &no_colors_cfg(), &transcript, None, None, &CacheStatus::default());
    assert!(!out.ends_with('\n'));
}

#[test]
fn first_line_never_empty() {
    let data = StdinData::default();
    let out = render(&data, &no_colors_cfg(), &TranscriptData::default(), None, None, &CacheStatus::default());
    let first = out.lines().next().unwrap();
    assert!(!first.is_empty());
}

#[test]
fn always_one_line() {
    let data = StdinData::default();
    let out = render(&data, &no_colors_cfg(), &TranscriptData::default(), None, None, &CacheStatus::default());
    assert_eq!(out.lines().count(), 1);
}

#[test]
fn format_agent_duration_zero() {
    assert_eq!(format_agent_duration(0), "0s");
}

#[test]
fn format_agent_duration_negative() {
    assert_eq!(format_agent_duration(-5), "0s");
}

#[test]
fn format_agent_duration_seconds() {
    assert_eq!(format_agent_duration(45), "45s");
}

#[test]
fn format_agent_duration_minutes_and_seconds() {
    assert_eq!(format_agent_duration(135), "2m 15s");
}

#[test]
fn context_percentage_none_when_no_context_window() {
    let data = StdinData::default();
    assert!(context_percentage(&data).is_none());
}

#[test]
fn context_percentage_returns_value() {
    let data = make_data(Some(42));
    assert_eq!(context_percentage(&data), Some(42));
}

#[test]
fn render_usage_empty_when_none() {
    assert!(render_usage(None, &Config::default()).is_none());
}

// --- Pure-helper tests: color tiers and bar shape -------------------------

#[test]
fn color_for_percentage_boundaries() {
    let cfg = Config::default(); // warning=70, critical=85
    assert_eq!(color_for_percentage(0, &cfg), GREEN);
    assert_eq!(color_for_percentage(69, &cfg), GREEN);
    assert_eq!(color_for_percentage(70, &cfg), YELLOW); // ≥ warning
    assert_eq!(color_for_percentage(85, &cfg), YELLOW); // ≤ critical
    assert_eq!(color_for_percentage(86, &cfg), RED); // > critical
    assert_eq!(color_for_percentage(100, &cfg), RED);
}

#[test]
fn color_for_percentage_custom_thresholds() {
    let cfg = Config {
        context_warning: Some(50),
        context_critical: Some(60),
        ..Default::default()
    };
    assert_eq!(color_for_percentage(49, &cfg), GREEN);
    assert_eq!(color_for_percentage(50, &cfg), YELLOW);
    assert_eq!(color_for_percentage(60, &cfg), YELLOW);
    assert_eq!(color_for_percentage(61, &cfg), RED);
}

#[test]
fn usage_color_gradient_buckets() {
    // 1..=10 → bucket 0 (darkest green); 91..=100 → bucket 9 (deep red).
    assert_eq!(usage_color(0), USAGE_GRADIENT[0]);
    assert_eq!(usage_color(1), USAGE_GRADIENT[0]);
    assert_eq!(usage_color(10), USAGE_GRADIENT[0]);
    assert_eq!(usage_color(11), USAGE_GRADIENT[1]);
    assert_eq!(usage_color(90), USAGE_GRADIENT[8]);
    assert_eq!(usage_color(91), USAGE_GRADIENT[9]);
    assert_eq!(usage_color(100), USAGE_GRADIENT[9]);
}

#[test]
fn pace_color_tiers() {
    assert_eq!(pace_color(0), PACE_COMFORTABLE);
    assert_eq!(pace_color(49), PACE_COMFORTABLE);
    assert_eq!(pace_color(50), PACE_ON_TRACK);
    assert_eq!(pace_color(74), PACE_ON_TRACK);
    assert_eq!(pace_color(75), PACE_WARMING);
    assert_eq!(pace_color(89), PACE_WARMING);
    assert_eq!(pace_color(90), PACE_PRESSING);
    assert_eq!(pace_color(99), PACE_PRESSING);
    assert_eq!(pace_color(100), PACE_CRITICAL);
    assert_eq!(pace_color(119), PACE_CRITICAL);
    assert_eq!(pace_color(120), PACE_RUNAWAY);
    assert_eq!(pace_color(500), PACE_RUNAWAY);
}

#[test]
fn build_usage_bar_filled_blocks() {
    // No reset → no pace marker. 10 cells, each cell = 10%; half-cell threshold = 5%.
    assert_eq!(build_usage_bar(0, None), "░░░░░░░░░░");
    assert_eq!(build_usage_bar(4, None), "░░░░░░░░░░"); // below half-cell
    assert_eq!(build_usage_bar(5, None), "▓░░░░░░░░░"); // at half-cell, rounds up
    assert_eq!(build_usage_bar(50, None), "▓▓▓▓▓░░░░░"); // (50*10+50)/100 = 5
    assert_eq!(build_usage_bar(95, None), "▓▓▓▓▓▓▓▓▓▓"); // (95*10+50)/100 = 10
    assert_eq!(build_usage_bar(100, None), "▓▓▓▓▓▓▓▓▓▓");
}

#[test]
fn build_usage_bar_pace_marker_position() {
    // Halfway through the 5h window → marker should sit in the middle of 10 cells.
    let bar = build_usage_bar(40, Some(FIVE_HOUR_SECS / 2));
    assert!(bar.contains('┃'), "expected pace marker, got: {bar}");
    assert_eq!(bar.chars().count(), 10);
}

#[test]
fn build_usage_bar_no_marker_when_window_unknown() {
    // Without a reset hint we can't position the marker.
    assert!(!build_usage_bar(40, None).contains('┃'));
}

#[test]
fn build_usage_bar_no_marker_when_window_already_reset() {
    // remaining ≤ 0 means we're past the reset; don't draw a marker.
    assert!(!build_usage_bar(40, Some(0)).contains('┃'));
    assert!(!build_usage_bar(40, Some(-100)).contains('┃'));
}

#[test]
fn render_tasks_none_when_empty() {
    assert!(render_tasks(&[], &Table::new(), &Config::default()).is_none());
}

#[test]
fn activity_line_none_when_empty() {
    assert!(render_activity_line(&Table::new(), &Table::new(), &Config::default()).is_none());
}

#[test]
fn activity_line_with_only_completed_agents_shows_history() {
    let mut agents = Table::new();
    agents.insert(
        "a1".into(),
        AgentEntry {
            subagent_type: Some("explore".into()),
            model: None,
            description: None,
            start_time: Some(chrono::Utc::now().timestamp() - 30),
            completed: true,
            seq: 0,
        },
    );
    let result = render_activity_line(&Table::new(), &agents, &Config::default());
    assert!(result.is_some());
    assert!(result.unwrap().contains("explore"));
}

#[test]
fn group_consecutive_names_basic() {
    // Run-length encoding, scoped to runs (not global).
    let g = group_consecutive_names(&vec!["Read", "Read", "Grep", "Read"]);
    assert_eq!(g, vec![("Read", 2), ("Grep", 1), ("Read", 1)]);
}

#[test]
fn group_consecutive_names_empty() {
    let g: Vec<(&str, usize)> = group_consecutive_names(&Vec::new());
    assert!(g.is_empty());
}

#[test]
fn group_consecutive_names_singleton() {
    assert_eq!(group_consecutive_names(&vec!["Edit"]), vec![("Edit", 1)]);
}

#[test]
fn activity_agents_in_timeline() {
    let mut tools = Table::new();
    tools.insert("t1".into(), tool_seq("Read", Some("a.rs"), true, 0));
    let mut agents = Table::new();
    agents.insert(
        "a1".into(),
        AgentEntry {
            subagent_type: Some("explore".into()),
            model: None,
            description: None,
            start_time: Some(chrono::Utc::now().timestamp() - 10),
            completed: false,
            seq: 1,
        },
    );
    tools.insert("t2".into(), tool_seq("Edit", Some("b.rs"), false, 2));
    let result = render_activity_line(&tools, &agents, &no_colors_cfg());
    let s = result.unwrap();
    let read_pos = s.find("Read").unwrap();
    let explore_pos = s.find("explore").unwrap();
    let edit_pos = s.find("Edit").unwrap();
    assert!(read_pos < explore_pos);
    assert!(explore_pos < edit_pos);
}
