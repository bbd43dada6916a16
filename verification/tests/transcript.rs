use cstat::transcript::{
    extract_target, is_command_showable, parse_lines, parse_status, parse_task_create_id,
    parse_transcript, short_path, tool_result_text, truncate, TranscriptFile,
};
use cstat::types::{State, TaskStatus, TranscriptData};
use serde_json::Value;

fn value(json: &str) -> Value {
    serde_json::from_str(json).unwrap()
}

fn make_tool_use(id: &str, name: &str, input: &str) -> String {
    format!(
        r#"{{"type":"assistant","timestamp":"2026-03-22T10:00:00.000Z","message":{{"role":"assistant","content":[{{"type":"tool_use","id":"{id}","name":"{name}","input":{input}}}]}}}}"#
    )
}

fn make_tool_result(tool_use_id: &str, is_error: bool) -> String {
    make_tool_result_with_content(tool_use_id, is_error, "ok")
}

fn make_tool_result_with_content(tool_use_id: &str, is_error: bool, content: &str) -> String {
    format!(
        r#"{{"type":"user","timestamp":"2026-03-22T10:00:01.000Z","message":{{"role":"user","content":[{{"type":"tool_result","tool_use_id":"{tool_use_id}","is_error":{is_error},"content":"{content}"}}]}}}}"#
    )
}

fn write_transcript(lines: &[String]) -> String {
    lines.iter().map(|line| format!("{line}\n")).collect()
}

fn parse(contents: &str, state: &mut State) -> TranscriptData {
    let file = TranscriptFile {
        inode: 11,
        file_size: contents.len() as u64,
        contents: Some(contents.as_bytes()),
    };
    parse_transcript(Some(&file), state).unwrap()
}

#[test]
fn missing_path_returns_default() {
    let mut state = State::default();
    let data = parse_transcript(None, &mut state).unwrap();
    assert!(data.tools.is_empty());
}

#[test]
fn missing_file_returns_default() {
    let mut state = State::default();
    let data = parse_transcript(None, &mut state).unwrap();
    assert!(data.tools.is_empty());
    assert_eq!(state.inode, 0);
}

#[test]
fn tool_use_creates_running_entry() {
    let lines = vec![make_tool_use("t1", "Read", r#"{"file_path": "/foo/bar.rs"}"#)];
    let mut state = State::default();
    let data = parse(&write_transcript(&lines), &mut state);

    assert_eq!(data.tools.len(), 1);
    let tool = data.tools.get("t1").unwrap();
    assert_eq!(tool.name, "Read");
    assert_eq!(tool.target.as_deref(), Some("bar.rs"));
    assert!(!tool.completed);
}

#[test]
fn tool_result_marks_completed() {
    let lines = vec![
        make_tool_use("t1", "Read", r#"{"file_path": "/foo/bar.rs"}"#),
        make_tool_result("t1", false),
    ];
    let mut state = State::default();
    let data = parse(&write_transcript(&lines), &mut state);

    assert!(data.tools.get("t1").unwrap().completed);
    assert!(!data.tools.get("t1").unwrap().error);
}

#[test]
fn tool_result_marks_error() {
    let lines = vec![
        make_tool_use("t1", "Bash", r#"{"command": "false"}"#),
        make_tool_result("t1", true),
    ];
    let mut state = State::default();
    let data = parse(&write_transcript(&lines), &mut state);

    assert!(data.tools.get("t1").unwrap().completed);
    assert!(data.tools.get("t1").unwrap().error);
}

#[test]
fn incremental_parsing() {
    let mut contents = write_transcript(&[make_tool_use("t1", "Read", r#"{"file_path": "/a.rs"}"#)]);
    let mut state = State::default();
    let data = parse(&contents, &mut state);
    assert_eq!(data.tools.len(), 1);
    let offset_after_first = state.byte_offset;
    assert!(offset_after_first > 0);

    contents.push_str(&write_transcript(&[make_tool_use("t2", "Write", r#"{"file_path": "/b.rs"}"#)]));
    let data = parse(&contents, &mut state);
    assert_eq!(data.tools.len(), 2);
    assert!(state.byte_offset > offset_after_first);
}

#[test]
fn session_reset_on_inode_change() {
    let contents = write_transcript(&[make_tool_use("t1", "Read", r#"{"file_path": "/a.rs"}"#)]);
    let mut state = State::default();
    parse(&contents, &mut state);
    assert_eq!(state.tools.len(), 1);

    state.inode = 99999;

    let data = parse(&contents, &mut state);
    assert_eq!(data.tools.len(), 1);
    assert!(data.tools.contains_key("t1"));
}

#[test]
fn session_reset_on_size_shrink() {
    let mut state = State::default();
    parse(
        &write_transcript(&[
            make_tool_use("t1", "Read", r#"{"file_path": "/a.rs"}"#),
            make_tool_use("t2", "Write", r#"{"file_path": "/b.rs"}"#),
        ]),
        &mut state,
    );
    assert_eq!(state.tools.len(), 2);

    let data = parse(
        &write_transcript(&[make_tool_use("t3", "Grep", r#"{"pattern": "foo"}"#)]),
        &mut state,
    );
    assert_eq!(data.tools.len(), 1);
    assert!(data.tools.contains_key("t3"));
}

#[test]
fn malformed_lines_skipped() {
    let contents = format!(
        "not json at all\n{{\"broken\n{}\n",
        make_tool_use("t1", "Read", r#"{"file_path": "/a.rs"}"#)
    );
    let mut state = State::default();
    let data = parse(&contents, &mut state);
    assert_eq!(data.tools.len(), 1);
}

#[test]
fn agent_tracking() {
    let lines = vec![
        make_tool_use(
            "a1",
            "Agent",
            r#"{"subagent_type": "Explore", "model": "haiku", "description": "find files"}"#,
        ),
        make_tool_result("a1", false),
    ];
    let mut state = State::default();
    let data = parse(&write_transcript(&lines), &mut state);

    assert_eq!(data.agents.len(), 1);
    let agent = data.agents.get("a1").unwrap();
    assert_eq!(agent.subagent_type.as_deref(), Some("Explore"));
    assert_eq!(agent.model.as_deref(), Some("haiku"));
    assert!(agent.completed);
}

#[test]
fn todo_tracking() {
    let lines = vec![make_tool_use(
        "tw1",
        "TodoWrite",
        r#"{"todos": [
            {"content": "task a", "status": "completed"},
            {"content": "task b", "status": "pending"},
            {"content": "task c", "status": "in_progress"}
        ]}"#,
    )
    .replace('\n', " ")];
    let mut state = State::default();
    let data = parse(&write_transcript(&lines), &mut state);

    assert_eq!(data.todos.len(), 3);
    assert!(data.todos[0].completed);
    assert!(!data.todos[1].completed);
    assert!(!data.todos[2].completed);
}

#[test]
fn task_create_parsed() {
    let lines = vec![
        make_tool_use(
            "tc1",
            "TaskCreate",
            r#"{"subject": "implement feature", "description": "details", "status": "pending"}"#,
        ),
        make_tool_use("tc2", "TaskCreate", r#"{"subject": "write tests", "status": "in_progress"}"#),
    ];
    let mut state = State::default();
    let data = parse(&write_transcript(&lines), &mut state);

    assert_eq!(data.tasks.len(), 2);
    assert_eq!(data.tasks.get("tc1").unwrap().status, TaskStatus::Pending);
    assert_eq!(data.tasks.get("tc2").unwrap().status, TaskStatus::InProgress);
}

#[test]
fn task_update_changes_status() {
    let lines = vec![
        make_tool_use("tc1", "TaskCreate", r#"{"subject": "do thing", "status": "pending"}"#),
        make_tool_use("tu1", "TaskUpdate", r#"{"taskId": "tc1", "status": "completed"}"#),
    ];
    let mut state = State::default();
    let data = parse(&write_transcript(&lines), &mut state);

    assert_eq!(data.tasks.get("tc1").unwrap().status, TaskStatus::Completed);
}

#[test]
fn task_create_rekeyed_from_tool_result() {
    // TaskCreate input has no taskId, but the tool_result text contains "Task #N".
    // TaskUpdate then references that numeric N.
    let lines = vec![
        make_tool_use("toolu_abc", "TaskCreate", r#"{"subject": "do thing", "activeForm": "doing"}"#),
        make_tool_result_with_content("toolu_abc", false, "Task #1 created successfully: do thing"),
        make_tool_use("toolu_def", "TaskUpdate", r#"{"taskId": "1", "status": "completed"}"#),
    ];
    let mut state = State::default();
    let data = parse(&write_transcript(&lines), &mut state);

    assert!(!data.tasks.contains_key("toolu_abc"), "should be re-keyed");
    assert_eq!(data.tasks.get("1").unwrap().status, TaskStatus::Completed);
}

#[test]
fn parse_task_create_id_examples() {
    assert_eq!(parse_task_create_id("Task #1 created successfully: foo"), Some("1".into()));
    assert_eq!(parse_task_create_id("Task #42 created successfully: bar"), Some("42".into()));
    assert_eq!(parse_task_create_id("nothing matches here"), None);
    assert_eq!(parse_task_create_id("Task # missing number"), None);
}

#[test]
fn task_update_unknown_id_ignored() {
    let lines = vec![make_tool_use(
        "tu1",
        "TaskUpdate",
        r#"{"taskId": "nonexistent", "status": "completed"}"#,
    )];
    let mut state = State::default();
    let data = parse(&write_transcript(&lines), &mut state);
    assert!(data.tasks.is_empty());
}

#[test]
fn status_parsing() {
    assert_eq!(parse_status("pending"), TaskStatus::Pending);
    assert_eq!(parse_status("not_started"), TaskStatus::Pending);
    assert_eq!(parse_status("in_progress"), TaskStatus::InProgress);
    assert_eq!(parse_status("running"), TaskStatus::InProgress);
    assert_eq!(parse_status("completed"), TaskStatus::Completed);
    assert_eq!(parse_status("complete"), TaskStatus::Completed);
    assert_eq!(parse_status("done"), TaskStatus::Completed);
}

#[test]
fn task_create_status_normalization() {
    let lines = vec![
        make_tool_use("tc1", "TaskCreate", r#"{"subject": "a", "status": "not_started"}"#),
        make_tool_use("tc2", "TaskCreate", r#"{"subject": "b", "status": "running"}"#),
        make_tool_use("tc3", "TaskCreate", r#"{"subject": "c", "status": "done"}"#),
        make_tool_use("tc4", "TaskCreate", r#"{"subject": "d", "status": "complete"}"#),
    ];
    let mut state = State::default();
    let data = parse(&write_transcript(&lines), &mut state);

    assert_eq!(data.tasks.get("tc1").unwrap().status, TaskStatus::Pending);
    assert_eq!(data.tasks.get("tc2").unwrap().status, TaskStatus::InProgress);
    assert_eq!(data.tasks.get("tc3").unwrap().status, TaskStatus::Completed);
    assert_eq!(data.tasks.get("tc4").unwrap().status, TaskStatus::Completed);
}

#[test]
fn extract_target_variations() {
    assert_eq!(
        extract_target("Read", Some(&value(r#"{"file_path": "/foo/bar.rs"}"#))),
        Some("bar.rs".to_string())
    );
    assert_eq!(
        extract_target("Grep", Some(&value(r#"{"pattern": "TODO"}"#))),
        Some("TODO".to_string())
    );
    assert_eq!(
        extract_target("Bash", Some(&value(r#"{"command": "cargo test --release --all"}"#))),
        Some("cargo test --release --all".to_string())
    );
    let long_cmd = "a".repeat(50);
    let result =
        extract_target("Bash", Some(&value(&format!(r#"{{"command": "{long_cmd}"}}"#))));
    assert!(result.unwrap().ends_with("..."));
}

#[test]
fn targets_of_other_tools_and_shapes() {
    assert_eq!(extract_target("WebFetch", Some(&value(r#"{"file_path": "/a"}"#))), None);
    assert_eq!(extract_target("Read", None), None);
    assert_eq!(extract_target("Read", Some(&value(r#"{"file_path": 3}"#))), None);
    assert_eq!(extract_target("Glob", Some(&value("[1, 2]"))), None);
    assert_eq!(
        extract_target("Edit", Some(&value(r#"{"file_path": "plain"}"#))),
        Some("plain".to_string())
    );
}

#[test]
fn short_path_is_the_last_component() {
    assert_eq!(short_path("/foo/bar.rs"), "bar.rs");
    assert_eq!(short_path("bar.rs"), "bar.rs");
    assert_eq!(short_path("/foo/"), "");
}

#[test]
fn truncate_counts_bytes() {
    assert_eq!(truncate("short", 30), "short");
    assert_eq!(truncate(&"a".repeat(30), 30), "a".repeat(30));
    assert_eq!(truncate(&"a".repeat(31), 30), format!("{}...", "a".repeat(30)));
    assert_eq!(truncate("éé", 2), "é...");
}

#[test]
fn command_across_the_cut_is_refused() {
    // Byte 30 falls into the middle of the last character.
    let command = format!("{}é tail", "a".repeat(29));
    let input = value(&format!(r#"{{"command": "{command}"}}"#));
    assert!(!is_command_showable("Bash", Some(&input)));
    assert!(is_command_showable("Read", Some(&input)));

    let contents = write_transcript(&[make_tool_use(
        "t1",
        "Bash",
        &format!(r#"{{"command": "{command}"}}"#),
    )]);
    let file = TranscriptFile {
        inode: 11,
        file_size: contents.len() as u64,
        contents: Some(contents.as_bytes()),
    };
    let mut state = State::default();
    assert!(parse_transcript(Some(&file), &mut state).is_none());
    assert_eq!(state.inode, 0);
    assert_eq!(state.byte_offset, 0);
}

#[test]
fn result_text_from_string_array_or_nothing() {
    assert_eq!(tool_result_text(&value(r#"{"content": "plain"}"#)), "plain");
    assert_eq!(
        tool_result_text(&value(
            r##"{"content": [{"type": "text", "text": "Task "}, {"image": 1}, {"text": "#7"}]}"##
        )),
        "Task #7"
    );
    assert_eq!(tool_result_text(&value(r#"{"content": 5}"#)), "");
    assert_eq!(tool_result_text(&value("{}")), "");
}

#[test]
fn first_task_mention_counts() {
    assert_eq!(parse_task_create_id("see Task #12, not Task #34"), Some("12".into()));
    assert_eq!(parse_task_create_id("Task #x then Task #5"), None);
    assert_eq!(parse_task_create_id(""), None);
}

#[test]
fn lines_are_parsed_one_by_one() {
    let entries = parse_lines(b"{\"a\":1}\n\nnope\n[2]\n\"last\"");
    assert_eq!(entries.len(), 3);
    assert_eq!(entries[0], value("{\"a\":1}"));
    assert_eq!(entries[1], value("[2]"));
    assert_eq!(entries[2], value("\"last\""));
}

#[test]
fn reading_in_two_steps_or_one_gives_the_same() {
    let first = write_transcript(&[
        make_tool_use("t1", "Read", r#"{"file_path": "/a.rs"}"#),
        make_tool_use("a1", "Task", r#"{"subagent_type": "explore"}"#),
    ]);
    let second = write_transcript(&[
        make_tool_result("t1", true),
        make_tool_use("t2", "Glob", r#"{"pattern": "*.rs"}"#),
    ]);
    let whole = format!("{first}{second}");

    let mut stepwise = State::default();
    parse(&first, &mut stepwise);
    parse(&whole, &mut stepwise);
    let mut at_once = State::default();
    parse(&whole, &mut at_once);

    assert_eq!(stepwise.byte_offset, at_once.byte_offset);
    assert_eq!(stepwise.next_seq, 3);
    assert_eq!(at_once.next_seq, 3);
    for state in [&stepwise, &at_once] {
        let t1 = state.tools.get("t1").unwrap();
        assert!(t1.completed && t1.error);
        assert_eq!(t1.seq, 0);
        assert_eq!(state.agents.get("a1").unwrap().seq, 1);
        assert_eq!(state.tools.get("t2").unwrap().seq, 2);
    }
}

#[test]
fn agent_start_is_taken_from_the_timestamp() {
    let mut state = State::default();
    let data = parse(&write_transcript(&[make_tool_use("a1", "Task", "{}")]), &mut state);
    let agent = data.agents.get("a1").unwrap();
    assert_eq!(agent.start_time, Some(1774173600));
    assert_eq!(agent.subagent_type, None);
    assert_eq!(agent.seq, 0);

    let odd = r#"{"type":"assistant","timestamp":"yesterday","message":{"content":[{"type":"tool_use","id":"a2","name":"Agent"}]}}"#;
    let mut state = State::default();
    let data = parse(odd, &mut state);
    assert_eq!(data.agents.get("a2").unwrap().start_time, None);
}

#[test]
fn calls_without_id_or_name() {
    let mut state = State::default();
    let lines = r#"{"type":"assistant","message":{"content":[{"type":"tool_use","name":"Read"},{"type":"text","id":"x"},{"type":"tool_use","id":"t1"}]}}"#;
    let data = parse(lines, &mut state);
    assert_eq!(data.tools.len(), 1);
    assert_eq!(data.tools.get("t1").unwrap().name, "unknown");
    assert_eq!(state.next_seq, 1);
}

#[test]
fn fork_note_is_kept_once_found() {
    let mut state = State::default();
    parse("{\"forkedFrom\":{\"sessionId\":\"parent-1\"}}\n{\"forkedFrom\":{\"sessionId\":\"parent-2\"}}\n", &mut state);
    assert_eq!(state.parent_session_id.as_deref(), Some("parent-1"));
}

#[test]
fn empty_and_unreadable_files() {
    let mut state = State { inode: 5, ..State::default() };
    let empty = TranscriptFile { inode: 9, file_size: 0, contents: Some(&[]) };
    assert!(parse_transcript(Some(&empty), &mut state).unwrap().tools.is_empty());
    assert_eq!(state.inode, 5);

    let unreadable = TranscriptFile { inode: 9, file_size: 80, contents: None };
    assert!(parse_transcript(Some(&unreadable), &mut state).unwrap().tools.is_empty());
    assert_eq!(state.inode, 9);
    assert_eq!(state.file_size, 80);
    assert_eq!(state.byte_offset, 0);
}

#[test]
fn todo_list_is_replaced_and_filtered() {
    let mut state = State::default();
    let data = parse(
        &write_transcript(&[
            make_tool_use("w1", "TodoWrite", r#"{"todos": [{"content": "old"}]}"#),
            make_tool_use("w2", "TodoWrite", r#"{"todos": [{"status": "done"}, {"content": "new", "status": "done"}]}"#),
            make_tool_use("w3", "TodoWrite", r#"{"todos": "none"}"#),
        ]),
        &mut state,
    );
    assert_eq!(data.todos.len(), 1);
    assert_eq!(data.todos[0].content, "new");
    assert!(data.todos[0].completed);
}
