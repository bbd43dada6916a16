//! Reading a session transcript: one JSON entry per line, appended while the session runs.

use crate::clock;
use crate::clock::parse_timestamp;
use crate::json;
use crate::json::{array_within, member, text_at, text_within, Tree};
use crate::table;
use crate::table::{Duplicate, Rows};
use crate::text;
use crate::text::{chars_of, same_text, split, text_of};
use crate::types;
use crate::types::{
    duplicate_todos, AgentEntry, AgentView, State, StateView, TaskItem, TaskStatus, TodoItem,
    TodoView, ToolEntry, ToolView, TranscriptData, TranscriptView,
};
use serde_json::Value;
use vstd::prelude::*;
use vstd::string::*;
use vstd::utf8::*;

verus! {

/// The longest command, in bytes, that is shown in full.
pub const COMMAND_BYTES: usize = 30;

/// The status that a status word stands for.
pub open spec fn status_of(word: Seq<char>) -> TaskStatus {
    if word == "completed"@ || word == "complete"@ || word == "done"@ {
        TaskStatus::Completed
    } else if word == "in_progress"@ || word == "running"@ {
        TaskStatus::InProgress
    } else {
        TaskStatus::Pending
    }
}

/// Reads a status word; unknown words mean pending.
pub fn parse_status(status: &str) -> (parsed: TaskStatus)
    ensures
        parsed == status_of(status@),
{
    if same_text(status, "completed") || same_text(status, "complete") || same_text(
        status,
        "done",
    ) {
        TaskStatus::Completed
    } else if same_text(status, "in_progress") || same_text(status, "running") {
        TaskStatus::InProgress
    } else {
        TaskStatus::Pending
    }
}

/// The last component of a path.
pub fn short_path(path: &str) -> (name: String)
    ensures
        name@ == text::pieces(path@, '/').last(),
{
    let mut parts: Vec<String> = split(path, '/');
    proof {
        text::lemma_pieces_nonempty(path@, '/');
        assert(parts.deep_view().last() == parts@.last()@);
    }
    match parts.pop() {
        Some(name) => name,
        None => String::new(),
    }
}

/// A text of at most `max` bytes in full; of a longer one the first `max` bytes and an
/// ellipsis.
pub open spec fn truncated(s: Seq<char>, max: nat) -> Seq<char> {
    if encode_utf8(s).len() <= max {
        s
    } else {
        decode_utf8(encode_utf8(s).take(max as int)) + "..."@
    }
}

/// Whether a text that is too long can be cut after `max` bytes: no character lies across
/// that place.
pub open spec fn can_truncate(s: Seq<char>, max: nat) -> bool {
    encode_utf8(s).len() <= max || is_char_boundary(encode_utf8(s), max as int)
}

/// Shortens a text to at most `max` bytes and an ellipsis.
pub fn truncate(s: &str, max: usize) -> (short: String)
    requires
        can_truncate(s@, max as nat),
    ensures
        short@ == truncated(s@, max as nat),
{
    if s.as_bytes().len() <= max {
        s.to_owned()
    } else {
        let (head, _) = s.split_at(max);
        proof {
            encode_utf8_decode_utf8(head@);
            assert(head.spec_bytes() =~= encode_utf8(s@).take(max as int));
        }
        let mut short: String = head.to_owned();
        short.append("...");
        short
    }
}

/// Whether [`truncate`] can shorten a text.
pub fn is_truncatable(s: &str, max: usize) -> (holds: bool)
    ensures
        holds == can_truncate(s@, max as nat),
{
    s.as_bytes().len() <= max || s.is_char_boundary(max)
}

/// The place of the first occurrence of a pattern at or after `from`.
pub open spec fn find_from(s: Seq<char>, pattern: Seq<char>, from: int) -> Option<int>
    decreases s.len() - from + 1,
{
    if from + pattern.len() > s.len() {
        None
    } else if s.subrange(from, from + pattern.len()) == pattern {
        Some(from)
    } else {
        find_from(s, pattern, from + 1)
    }
}

/// The digits that a text starts with.
pub open spec fn leading_digits(s: Seq<char>) -> Seq<char>
    decreases s.len(),
{
    if s.len() > 0 && text::ascii_digit(s.first()) {
        seq![s.first()] + leading_digits(s.drop_first())
    } else {
        seq![]
    }
}

/// The digits that follow the first occurrence of `Task #`.
pub open spec fn task_id_in(content: Seq<char>) -> Option<Seq<char>> {
    match find_from(content, "Task #"@, 0) {
        Some(at) => {
            let digits = leading_digits(content.skip(at + 6));
            if digits.len() == 0 {
                None
            } else {
                Some(digits)
            }
        },
        None => None,
    }
}

proof fn lemma_leading_digits(s: Seq<char>, n: int)
    requires
        0 <= n <= s.len(),
        forall|k: int| 0 <= k < n ==> text::ascii_digit(s[k]),
        n < s.len() ==> !text::ascii_digit(s[n]),
    ensures
        leading_digits(s) == s.take(n),
    decreases n,
{
    if n > 0 {
        lemma_leading_digits(s.drop_first(), n - 1);
        assert(seq![s.first()] + s.drop_first().take(n - 1) =~= s.take(n));
    } else {
        assert(s.take(0) =~= seq![]);
    }
}

fn matches_at(chars: &Vec<char>, pattern: &Vec<char>, at: usize) -> (found: bool)
    requires
        at + pattern@.len() <= chars@.len(),
    ensures
        found == (chars@.subrange(at as int, at + pattern@.len()) == pattern@),
{
    let ghost here = chars@.subrange(at as int, at + pattern@.len());
    let total: usize = chars.len();
    let mut i: usize = 0;
    while i < pattern.len()
        invariant
            i <= pattern@.len(),
            at + pattern@.len() <= chars@.len(),
            total == chars@.len(),
            here == chars@.subrange(at as int, at + pattern@.len()),
            forall|k: int| 0 <= k < i ==> here[k] == pattern@[k],
        decreases pattern@.len() - i,
    {
        if chars[at + i] != pattern[i] {
            assert(here[i as int] != pattern@[i as int]);
            return false;
        }
        i = i + 1;
    }
    assert(here =~= pattern@);
    true
}

/// Reads the numeric task id out of "Task #N created successfully: ...".
pub fn parse_task_create_id(content: &str) -> (id: Option<String>)
    ensures
        id.deep_view() == task_id_in(content@),
{
    let chars: Vec<char> = chars_of(content);
    let pattern: Vec<char> = chars_of("Task #");
    proof {
        reveal_strlit("Task #");
    }
    let mut at: usize = 0;
    while at <= chars.len() && chars.len() - at >= pattern.len()
        invariant
            at <= chars@.len(),
            chars@ == content@,
            pattern@ == "Task #"@,
            pattern@.len() == 6,
            find_from(content@, "Task #"@, 0) == find_from(content@, "Task #"@, at as int),
        decreases chars@.len() - at,
    {
        if matches_at(&chars, &pattern, at) {
            let from: usize = at + 6;
            let mut to: usize = from;
            let ghost rest = content@.skip(from as int);
            while to < chars.len() && '0' <= chars[to] && chars[to] <= '9'
                invariant
                    from <= to <= chars@.len(),
                    chars@ == content@,
                    rest == content@.skip(from as int),
                    forall|k: int| 0 <= k < to - from ==> text::ascii_digit(rest[k]),
                ensures
                    from <= to <= chars@.len(),
                    forall|k: int| 0 <= k < to - from ==> text::ascii_digit(rest[k]),
                    to < chars@.len() ==> !text::ascii_digit(rest[to - from]),
                decreases chars@.len() - to,
            {
                to = to + 1;
            }
            proof {
                lemma_leading_digits(rest, to - from);
                assert(rest.take(to - from) =~= content@.subrange(from as int, to as int));
            }
            if to == from {
                return None;
            }
            return Some(text_of(&chars, from, to));
        }
        at = at + 1;
    }
    None
}

/// What a tool call works on, as far as it is worth showing.
pub open spec fn target_of(name: Seq<char>, input: Option<Tree>) -> Option<Seq<char>> {
    if name == "Read"@ || name == "Write"@ || name == "Edit"@ {
        match json::text_member_of(input, "file_path"@) {
            Some(path) => Some(text::pieces(path, '/').last()),
            None => None,
        }
    } else if name == "Glob"@ || name == "Grep"@ {
        json::text_member_of(input, "pattern"@)
    } else if name == "Bash"@ {
        match json::text_member_of(input, "command"@) {
            Some(command) => Some(truncated(command, COMMAND_BYTES as nat)),
            None => None,
        }
    } else {
        None
    }
}

/// Whether the command of a shell call, if it is one, can be shortened for display.
pub open spec fn command_fits(name: Seq<char>, input: Option<Tree>) -> bool {
    name == "Bash"@ ==> match json::text_member_of(input, "command"@) {
        Some(command) => can_truncate(command, COMMAND_BYTES as nat),
        None => true,
    }
}

/// What a tool call works on, as far as it is worth showing: the file name, the search
/// pattern or the start of the command.
pub fn extract_target(name: &str, input: Option<&Value>) -> (target: Option<String>)
    requires
        command_fits(name@, json::tree_of_option(input)),
    ensures
        target.deep_view() == target_of(name@, json::tree_of_option(input)),
{
    if same_text(name, "Read") || same_text(name, "Write") || same_text(name, "Edit") {
        match text_within(input, "file_path") {
            Some(path) => Some(short_path(path)),
            None => None,
        }
    } else if same_text(name, "Glob") || same_text(name, "Grep") {
        owned(text_within(input, "pattern"))
    } else if same_text(name, "Bash") {
        match text_within(input, "command") {
            Some(command) => Some(truncate(command, COMMAND_BYTES)),
            None => None,
        }
    } else {
        None
    }
}

/// Whether [`extract_target`] can show the command of a call.
pub fn is_command_showable(name: &str, input: Option<&Value>) -> (holds: bool)
    ensures
        holds == command_fits(name@, json::tree_of_option(input)),
{
    if same_text(name, "Bash") {
        match text_within(input, "command") {
            Some(command) => is_truncatable(command, COMMAND_BYTES),
            None => true,
        }
    } else {
        true
    }
}

/// A text of its own from a borrowed one.
fn owned(text: Option<&str>) -> (copy: Option<String>)
    ensures
        copy.deep_view() == text.deep_view(),
{
    match text {
        Some(t) => Some(t.to_owned()),
        None => None,
    }
}

/// The content blocks of an entry's message.
pub open spec fn content_of(entry: Tree) -> Option<Seq<Tree>> {
    json::array_member_of(json::member_of(entry, "message"@), "content"@)
}

fn content_blocks(entry: &Value) -> (blocks: Option<&Vec<Value>>)
    ensures
        match blocks {
            Some(b) => content_of(json::tree_of(*entry)) == Some(json::trees(b@)),
            None => content_of(json::tree_of(*entry)) is None,
        },
{
    array_within(member(entry, "message"), "content")
}

/// The name of the tool that a block calls.
pub open spec fn tool_name_of(block: Tree) -> Seq<char> {
    match json::text_member(block, "name"@) {
        Some(name) => name,
        None => "unknown"@,
    }
}

/// The id of a tool call; blocks of other types, and calls without id, are not looked at.
pub open spec fn tool_use_id_of(block: Tree) -> Option<Seq<char>> {
    if json::text_member(block, "type"@) == Some("tool_use"@) {
        json::text_member(block, "id"@)
    } else {
        None
    }
}

/// The subagent that a call starts.
pub open spec fn agent_started(entry: Tree, block: Tree, seq: u64) -> AgentView {
    let input = json::member_of(block, "input"@);
    AgentView {
        subagent_type: json::text_member_of(input, "subagent_type"@),
        model: json::text_member_of(input, "model"@),
        description: json::text_member_of(input, "description"@),
        start_time: match json::text_member(entry, "timestamp"@) {
            Some(timestamp) => clock::timestamp_of(timestamp),
            None => None,
        },
        completed: false,
        seq,
    }
}

/// The status word under a key, or the word for pending.
pub open spec fn status_word(input: Option<Tree>) -> Seq<char> {
    match json::text_member_of(input, "status"@) {
        Some(word) => word,
        None => "pending"@,
    }
}

/// The todo items that a list of JSON values describes; those without content are left out.
pub open spec fn todos_in(items: Seq<Tree>) -> Seq<TodoView>
    decreases items.len(),
{
    if items.len() == 0 {
        seq![]
    } else {
        let before = todos_in(items.drop_last());
        match json::text_member(items.last(), "content"@) {
            Some(content) => before.push(
                TodoView {
                    content,
                    completed: status_of(status_word(Some(items.last()))) == TaskStatus::Completed,
                },
            ),
            None => before,
        }
    }
}

/// The state after a content block of an assistant entry: a tool call starts an agent or a
/// tool, or changes the todo list or the tasks.
pub open spec fn after_assistant_block(st: StateView, entry: Tree, block: Tree) -> StateView {
    match tool_use_id_of(block) {
        None => st,
        Some(id) => {
            let name = tool_name_of(block);
            let input = json::member_of(block, "input"@);
            if name == "Agent"@ || name == "Task"@ {
                StateView {
                    work: TranscriptView {
                        agents: table::stored(
                            st.work.agents,
                            id,
                            agent_started(entry, block, st.next_seq),
                        ),
                        ..st.work
                    },
                    next_seq: (st.next_seq + 1) as u64,
                    ..st
                }
            } else if name == "TodoWrite"@ {
                match json::array_member_of(input, "todos"@) {
                    Some(items) => StateView {
                        work: TranscriptView { todos: todos_in(items), ..st.work },
                        ..st
                    },
                    None => st,
                }
            } else if name == "TaskCreate"@ {
                let task = TaskItem { status: status_of(status_word(input)) };
                StateView {
                    work: TranscriptView {
                        tasks: table::stored(st.work.tasks, id, task),
                        ..st.work
                    },
                    ..st
                }
            } else if name == "TaskUpdate"@ {
                match (
                    json::text_member_of(input, "taskId"@),
                    json::text_member_of(input, "status"@),
                ) {
                    (Some(task_id), Some(word)) => if table::has_key(st.work.tasks, task_id) {
                        let task = TaskItem { status: status_of(word) };
                        StateView {
                            work: TranscriptView {
                                tasks: table::stored(st.work.tasks, task_id, task),
                                ..st.work
                            },
                            ..st
                        }
                    } else {
                        st
                    },
                    _ => st,
                }
            } else {
                StateView {
                    work: TranscriptView {
                        tools: table::stored(
                            st.work.tools,
                            id,
                            ToolView {
                                name,
                                target: target_of(name, input),
                                completed: false,
                                error: false,
                                seq: st.next_seq,
                            },
                        ),
                        ..st.work
                    },
                    next_seq: (st.next_seq + 1) as u64,
                    ..st
                }
            }
        },
    }
}

/// The state after the content blocks of an assistant entry, in order.
pub open spec fn after_assistant_blocks(
    st: StateView,
    entry: Tree,
    blocks: Seq<Tree>,
) -> StateView
    decreases blocks.len(),
{
    if blocks.len() == 0 {
        st
    } else {
        after_assistant_block(
            after_assistant_blocks(st, entry, blocks.drop_last()),
            entry,
            blocks.last(),
        )
    }
}

/// The state after an assistant entry.
pub open spec fn after_assistant(st: StateView, entry: Tree) -> StateView {
    match content_of(entry) {
        Some(blocks) => after_assistant_blocks(st, entry, blocks),
        None => st,
    }
}

/// Whether a block takes a sequence number: it starts a tool or an agent.
pub open spec fn is_numbered(block: Tree) -> bool {
    let name = tool_name_of(block);
    tool_use_id_of(block) is Some && name != "TodoWrite"@ && name != "TaskCreate"@ && name
        != "TaskUpdate"@
}

/// How many blocks take a sequence number.
pub open spec fn numbered_blocks(blocks: Seq<Tree>) -> nat
    decreases blocks.len(),
{
    if blocks.len() == 0 {
        0
    } else {
        numbered_blocks(blocks.drop_last()) + (if is_numbered(blocks.last()) {
            1nat
        } else {
            0nat
        })
    }
}

/// Whether the shell command of a block, if it holds one, can be shortened for display.
pub open spec fn block_fits(block: Tree) -> bool {
    tool_use_id_of(block) is Some ==> command_fits(
        tool_name_of(block),
        json::member_of(block, "input"@),
    )
}

/// Whether the shell commands of all blocks can be shortened for display.
pub open spec fn blocks_fit(blocks: Seq<Tree>) -> bool {
    forall|i: int| 0 <= i < blocks.len() ==> block_fits(#[trigger] blocks[i])
}

/// Whether an entry can be applied: its commands can be shortened, and the sequence
/// numbers do not run out.
pub open spec fn assistant_fits(entry: Tree, next_seq: int) -> bool {
    match content_of(entry) {
        Some(blocks) => blocks_fit(blocks) && next_seq + numbered_blocks(blocks) <= u64::MAX,
        None => true,
    }
}

/// The calls that start an agent are none of those that leave the sequence alone.
proof fn lemma_agent_names()
    ensures
        "Agent"@ != "TodoWrite"@,
        "Agent"@ != "TaskCreate"@,
        "Agent"@ != "TaskUpdate"@,
        "Task"@ != "TodoWrite"@,
        "Task"@ != "TaskCreate"@,
        "Task"@ != "TaskUpdate"@,
{
    reveal_strlit("Agent");
    reveal_strlit("Task");
    reveal_strlit("TodoWrite");
    reveal_strlit("TaskCreate");
    reveal_strlit("TaskUpdate");
    assert("Agent"@.len() == 5 && "Task"@.len() == 4);
    assert("TodoWrite"@.len() == 9 && "TaskCreate"@.len() == 10 && "TaskUpdate"@.len() == 10);
}

/// A block moves the sequence on by one exactly where it takes a number.
proof fn lemma_next_seq(st: StateView, entry: Tree, block: Tree)
    requires
        is_numbered(block) ==> st.next_seq < u64::MAX,
    ensures
        after_assistant_block(st, entry, block).next_seq == st.next_seq + (if is_numbered(block) {
            1int
        } else {
            0int
        }),
{
    lemma_agent_names();
}

fn apply_tool_use(entry: &Value, block: &Value, state: &mut State)
    requires
        block_fits(json::tree_of(*block)),
        is_numbered(json::tree_of(*block)) ==> old(state)@.next_seq < u64::MAX,
    ensures
        final(state)@ == after_assistant_block(
            old(state)@,
            json::tree_of(*entry),
            json::tree_of(*block),
        ),
{
    let ghost st = state@;
    let ghost entry_tree = json::tree_of(*entry);
    let ghost tree = json::tree_of(*block);
    match text_at(block, "type") {
        Some(kind) => {
            if !same_text(kind, "tool_use") {
                return;
            }
        },
        None => {
            return;
        },
    }
    let id: &str = match text_at(block, "id") {
        Some(id) => id,
        None => {
            return;
        },
    };
    let name: &str = match text_at(block, "name") {
        Some(name) => name,
        None => "unknown",
    };
    let input: Option<&Value> = member(block, "input");
    assert(tool_use_id_of(tree) == Some(id@));
    assert(tool_name_of(tree) == name@);
    proof {
        lemma_agent_names();
    }
    if same_text(name, "Agent") || same_text(name, "Task") {
        let start_time: Option<i64> = match text_at(entry, "timestamp") {
            Some(timestamp) => parse_timestamp(timestamp),
            None => None,
        };
        let seq: u64 = state.next_seq;
        let agent = AgentEntry {
            subagent_type: owned(text_within(input, "subagent_type")),
            model: owned(text_within(input, "model")),
            description: owned(text_within(input, "description")),
            start_time,
            completed: false,
            seq,
        };
        assert(agent@ == agent_started(entry_tree, tree, st.next_seq));
        state.next_seq = seq + 1;
        state.agents.insert(id.to_owned(), agent);
    } else if same_text(name, "TodoWrite") {
        match array_within(input, "todos") {
            Some(items) => {
                state.todos = read_todos(items);
            },
            None => {},
        }
    } else if same_text(name, "TaskCreate") {
        let word: &str = match text_within(input, "status") {
            Some(word) => word,
            None => "pending",
        };
        state.tasks.insert(id.to_owned(), TaskItem { status: parse_status(word) });
    } else if same_text(name, "TaskUpdate") {
        match (text_within(input, "taskId"), text_within(input, "status")) {
            (Some(task_id), Some(word)) => {
                if state.tasks.contains_key(task_id) {
                    state.tasks.insert(
                        task_id.to_owned(),
                        TaskItem { status: parse_status(word) },
                    );
                }
            },
            _ => {},
        }
    } else {
        let seq: u64 = state.next_seq;
        let tool = ToolEntry {
            name: name.to_owned(),
            target: extract_target(name, input),
            completed: false,
            error: false,
            seq,
        };
        state.next_seq = seq + 1;
        state.tools.insert(id.to_owned(), tool);
    }
}

fn read_todos(items: &Vec<Value>) -> (todos: Vec<TodoItem>)
    ensures
        types::todo_views(todos@) == todos_in(json::trees(items@)),
{
    let ghost all = json::trees(items@);
    let mut todos: Vec<TodoItem> = Vec::new();
    let mut i: usize = 0;
    proof {
        assert(types::todo_views(todos@) =~= todos_in(all.take(0)));
    }
    while i < items.len()
        invariant
            i <= items@.len(),
            all == json::trees(items@),
            types::todo_views(todos@) == todos_in(all.take(i as int)),
        decreases items@.len() - i,
    {
        let item: &Value = &items[i];
        let ghost before = todos@;
        proof {
            assert(all.take(i + 1).drop_last() =~= all.take(i as int));
            assert(all.take(i + 1).last() == json::tree_of(*item));
        }
        match text_at(item, "content") {
            Some(content) => {
                let word: &str = match text_at(item, "status") {
                    Some(word) => word,
                    None => "pending",
                };
                let todo = TodoItem {
                    content: content.to_owned(),
                    completed: parse_status(word) == TaskStatus::Completed,
                };
                todos.push(todo);
                assert(types::todo_views(todos@) =~= types::todo_views(before).push(todo@));
            },
            None => {},
        }
        i = i + 1;
    }
    proof {
        assert(all.take(items@.len() as int) =~= all);
    }
    todos
}

/// Applies an assistant entry: its tool calls.
pub fn parse_assistant_message(entry: &Value, state: &mut State)
    requires
        assistant_fits(json::tree_of(*entry), old(state)@.next_seq as int),
    ensures
        final(state)@ == after_assistant(old(state)@, json::tree_of(*entry)),
{
    let blocks: &Vec<Value> = match content_blocks(entry) {
        Some(blocks) => blocks,
        None => {
            return;
        },
    };
    let ghost st = state@;
    let ghost entry_tree = json::tree_of(*entry);
    let ghost all = json::trees(blocks@);
    let mut i: usize = 0;
    proof {
        assert(all.take(0) =~= seq![]);
    }
    while i < blocks.len()
        invariant
            i <= blocks@.len(),
            entry_tree == json::tree_of(*entry),
            all == json::trees(blocks@),
            blocks_fit(all),
            st.next_seq + numbered_blocks(all) <= u64::MAX,
            state@ == after_assistant_blocks(st, entry_tree, all.take(i as int)),
            state@.next_seq == st.next_seq + numbered_blocks(all.take(i as int)),
        decreases blocks@.len() - i,
    {
        proof {
            assert(all.take(i + 1).drop_last() =~= all.take(i as int));
            assert(all.take(i + 1).last() == all[i as int]);
            lemma_numbered_blocks_monotonic(all, i + 1);
            assert(block_fits(all[i as int]));
            lemma_next_seq(state@, entry_tree, all[i as int]);
        }
        apply_tool_use(entry, &blocks[i], state);
        i = i + 1;
    }
    proof {
        assert(all.take(blocks@.len() as int) =~= all);
    }
}

proof fn lemma_numbered_blocks_monotonic(blocks: Seq<Tree>, n: int)
    requires
        0 <= n <= blocks.len(),
    ensures
        numbered_blocks(blocks.take(n)) <= numbered_blocks(blocks),
    decreases blocks.len() - n,
{
    if n < blocks.len() {
        lemma_numbered_blocks_monotonic(blocks, n + 1);
        assert(blocks.take(n + 1).drop_last() =~= blocks.take(n));
    } else {
        assert(blocks.take(n) =~= blocks);
    }
}

/// The texts of content blocks, one after another; blocks without text are left out.
pub open spec fn texts_in(items: Seq<Tree>) -> Seq<char>
    decreases items.len(),
{
    if items.len() == 0 {
        seq![]
    } else {
        texts_in(items.drop_last()) + (match json::text_member(items.last(), "text"@) {
            Some(text) => text,
            None => seq![],
        })
    }
}

/// The body of a tool result: a text, or the texts of its content blocks.
pub open spec fn result_text_of(block: Tree) -> Seq<char> {
    match json::member_of(block, "content"@) {
        Some(Tree::Text(text)) => text,
        Some(Tree::Array(items)) => texts_in(items),
        _ => seq![],
    }
}

/// The body of a tool result, which is either a bare text or a list of content blocks.
pub fn tool_result_text(block: &Value) -> (body: String)
    ensures
        body@ == result_text_of(json::tree_of(*block)),
{
    let content: &Value = match member(block, "content") {
        Some(content) => content,
        None => {
            return String::new();
        },
    };
    match content.as_str() {
        Some(text) => {
            return text.to_owned();
        },
        None => {},
    }
    let items: &Vec<Value> = match content.as_array() {
        Some(items) => items,
        None => {
            return String::new();
        },
    };
    let ghost all = json::trees(items@);
    let mut body: String = String::new();
    let mut i: usize = 0;
    while i < items.len()
        invariant
            i <= items@.len(),
            all == json::trees(items@),
            body@ == texts_in(all.take(i as int)),
        decreases items@.len() - i,
    {
        proof {
            assert(all.take(i + 1).drop_last() =~= all.take(i as int));
            assert(all.take(i + 1).last() == json::tree_of(items@[i as int]));
        }
        match text_at(&items[i], "text") {
            Some(text) => {
                body.append(text);
            },
            None => {
                assert(body@ + Seq::<char>::empty() =~= body@);
            },
        }
        i = i + 1;
    }
    proof {
        assert(all.take(items@.len() as int) =~= all);
    }
    body
}

/// The id of the call that a tool result answers.
pub open spec fn result_id_of(block: Tree) -> Option<Seq<char>> {
    if json::text_member(block, "type"@) == Some("tool_result"@) {
        json::text_member(block, "tool_use_id"@)
    } else {
        None
    }
}

/// Whether a tool result reports an error.
pub open spec fn is_error_result(block: Tree) -> bool {
    json::member_of(block, "is_error"@) == Some(Tree::Bool(true))
}

/// The tools after the one under an id has finished.
pub open spec fn tools_finished(
    tools: Rows<ToolView>,
    id: Seq<char>,
    error: bool,
) -> Rows<ToolView> {
    match table::lookup(tools, id) {
        Some(tool) => table::stored(tools, id, ToolView { completed: true, error, ..tool }),
        None => tools,
    }
}

/// The agents after the one under an id has finished.
pub open spec fn agents_finished(agents: Rows<AgentView>, id: Seq<char>) -> Rows<AgentView> {
    match table::lookup(agents, id) {
        Some(agent) => table::stored(agents, id, AgentView { completed: true, ..agent }),
        None => agents,
    }
}

/// The tasks after a call that created one was answered: the task moves from the id of the
/// call to the number that the answer gives it.
pub open spec fn tasks_renamed(
    tasks: Rows<TaskItem>,
    id: Seq<char>,
    answer: Seq<char>,
) -> Rows<TaskItem> {
    match (table::lookup(tasks, id), task_id_in(answer)) {
        (Some(task), Some(number)) => table::stored(table::removed(tasks, id), number, task),
        _ => tasks,
    }
}

/// The state after a content block of a user entry: a tool result finishes the tool or the
/// agent, or names the task, that the call began.
pub open spec fn after_result_block(st: StateView, block: Tree) -> StateView {
    match result_id_of(block) {
        None => st,
        Some(id) => StateView {
            work: TranscriptView {
                tools: tools_finished(st.work.tools, id, is_error_result(block)),
                agents: agents_finished(st.work.agents, id),
                tasks: tasks_renamed(st.work.tasks, id, result_text_of(block)),
                ..st.work
            },
            ..st
        },
    }
}

/// The state after the content blocks of a user entry, in order.
pub open spec fn after_result_blocks(st: StateView, blocks: Seq<Tree>) -> StateView
    decreases blocks.len(),
{
    if blocks.len() == 0 {
        st
    } else {
        after_result_block(after_result_blocks(st, blocks.drop_last()), blocks.last())
    }
}

/// The state after a user entry.
pub open spec fn after_results(st: StateView, entry: Tree) -> StateView {
    match content_of(entry) {
        Some(blocks) => after_result_blocks(st, blocks),
        None => st,
    }
}

fn apply_tool_result(block: &Value, state: &mut State)
    ensures
        final(state)@ == after_result_block(old(state)@, json::tree_of(*block)),
{
    let ghost st = state@;
    let ghost tree = json::tree_of(*block);
    match text_at(block, "type") {
        Some(kind) => {
            if !same_text(kind, "tool_result") {
                return;
            }
        },
        None => {
            return;
        },
    }
    let id: &str = match text_at(block, "tool_use_id") {
        Some(id) => id,
        None => {
            return;
        },
    };
    assert(result_id_of(tree) == Some(id@));
    let is_error: bool = match member(block, "is_error") {
        Some(flag) => match flag.as_bool() {
            Some(flag) => flag,
            None => false,
        },
        None => false,
    };
    match state.tools.get_mut(id) {
        Some(tool) => {
            tool.completed = true;
            tool.error = is_error;
        },
        None => {},
    }
    assert(state@.work.tools == tools_finished(st.work.tools, id@, is_error));
    match state.agents.get_mut(id) {
        Some(agent) => {
            agent.completed = true;
        },
        None => {},
    }
    assert(state@.work.agents == agents_finished(st.work.agents, id@));
    if state.tasks.contains_key(id) {
        let answer: String = tool_result_text(block);
        match parse_task_create_id(answer.as_str()) {
            Some(number) => match state.tasks.remove(id) {
                Some(task) => {
                    state.tasks.insert(number, task);
                },
                None => {},
            },
            None => {},
        }
    }
}

/// Applies a user entry: its tool results.
pub fn parse_tool_results(entry: &Value, state: &mut State)
    ensures
        final(state)@ == after_results(old(state)@, json::tree_of(*entry)),
{
    let blocks: &Vec<Value> = match content_blocks(entry) {
        Some(blocks) => blocks,
        None => {
            return;
        },
    };
    let ghost st = state@;
    let ghost all = json::trees(blocks@);
    let mut i: usize = 0;
    proof {
        assert(all.take(0) =~= seq![]);
    }
    while i < blocks.len()
        invariant
            i <= blocks@.len(),
            all == json::trees(blocks@),
            state@ == after_result_blocks(st, all.take(i as int)),
        decreases blocks@.len() - i,
    {
        proof {
            assert(all.take(i + 1).drop_last() =~= all.take(i as int));
            assert(all.take(i + 1).last() == all[i as int]);
        }
        apply_tool_result(&blocks[i], state);
        i = i + 1;
    }
    proof {
        assert(all.take(blocks@.len() as int) =~= all);
    }
}

/// The session that an entry says this one was forked from.
pub open spec fn parent_named_by(entry: Tree) -> Option<Seq<char>> {
    json::text_member_of(json::member_of(entry, "forkedFrom"@), "sessionId"@)
}

/// The state after an entry's word on the parent session; the first one counts.
pub open spec fn after_fork_note(st: StateView, entry: Tree) -> StateView {
    if st.parent_session_id is None {
        StateView { parent_session_id: parent_named_by(entry), ..st }
    } else {
        st
    }
}

/// The state after a transcript entry.
pub open spec fn after_entry(st: StateView, entry: Tree) -> StateView {
    let noted = after_fork_note(st, entry);
    match json::text_member(entry, "type"@) {
        Some(kind) => if kind == "assistant"@ {
            after_assistant(noted, entry)
        } else if kind == "user"@ {
            after_results(noted, entry)
        } else {
            noted
        },
        None => noted,
    }
}

/// The state after transcript entries, in order.
pub open spec fn after_entries(st: StateView, entries: Seq<Tree>) -> StateView
    decreases entries.len(),
{
    if entries.len() == 0 {
        st
    } else {
        after_entry(after_entries(st, entries.drop_last()), entries.last())
    }
}

/// The blocks of an assistant entry; other entries have no tool calls.
pub open spec fn calls_of(entry: Tree) -> Seq<Tree> {
    if json::text_member(entry, "type"@) == Some("assistant"@) {
        match content_of(entry) {
            Some(blocks) => blocks,
            None => seq![],
        }
    } else {
        seq![]
    }
}

/// How many tools and agents the entries start.
pub open spec fn numbered_entries(entries: Seq<Tree>) -> nat
    decreases entries.len(),
{
    if entries.len() == 0 {
        0
    } else {
        numbered_entries(entries.drop_last()) + numbered_blocks(calls_of(entries.last()))
    }
}

/// Whether entries can be applied: the shell commands can be shortened for display, and the
/// sequence numbers do not run out.
pub open spec fn entries_fit(entries: Seq<Tree>, next_seq: int) -> bool {
    &&& forall|i: int| 0 <= i < entries.len() ==> blocks_fit(calls_of(#[trigger] entries[i]))
    &&& next_seq + numbered_entries(entries) <= u64::MAX
}

proof fn lemma_numbered_entries_monotonic(entries: Seq<Tree>, n: int)
    requires
        0 <= n <= entries.len(),
    ensures
        numbered_entries(entries.take(n)) <= numbered_entries(entries),
    decreases entries.len() - n,
{
    if n < entries.len() {
        lemma_numbered_entries_monotonic(entries, n + 1);
        assert(entries.take(n + 1).drop_last() =~= entries.take(n));
    } else {
        assert(entries.take(n) =~= entries);
    }
}

proof fn lemma_next_seq_blocks(st: StateView, entry: Tree, blocks: Seq<Tree>)
    requires
        st.next_seq + numbered_blocks(blocks) <= u64::MAX,
    ensures
        after_assistant_blocks(st, entry, blocks).next_seq == st.next_seq + numbered_blocks(blocks),
    decreases blocks.len(),
{
    if blocks.len() > 0 {
        lemma_next_seq_blocks(st, entry, blocks.drop_last());
        lemma_next_seq(
            after_assistant_blocks(st, entry, blocks.drop_last()),
            entry,
            blocks.last(),
        );
    }
}

proof fn lemma_results_keep_next_seq(st: StateView, blocks: Seq<Tree>)
    ensures
        after_result_blocks(st, blocks).next_seq == st.next_seq,
    decreases blocks.len(),
{
    if blocks.len() > 0 {
        lemma_results_keep_next_seq(st, blocks.drop_last());
    }
}

proof fn lemma_next_seq_entry(st: StateView, entry: Tree)
    requires
        st.next_seq + numbered_blocks(calls_of(entry)) <= u64::MAX,
    ensures
        after_entry(st, entry).next_seq == st.next_seq + numbered_blocks(calls_of(entry)),
{
    let noted = after_fork_note(st, entry);
    reveal_strlit("assistant");
    reveal_strlit("user");
    assert("assistant"@.len() == 9 && "user"@.len() == 4);
    match content_of(entry) {
        Some(blocks) => {
            if json::text_member(entry, "type"@) == Some("assistant"@) {
                lemma_next_seq_blocks(noted, entry, blocks);
            }
            lemma_results_keep_next_seq(noted, blocks);
        },
        None => {},
    }
}

fn apply_entry(entry: &Value, state: &mut State)
    requires
        blocks_fit(calls_of(json::tree_of(*entry))),
        old(state)@.next_seq + numbered_blocks(calls_of(json::tree_of(*entry))) <= u64::MAX,
    ensures
        final(state)@ == after_entry(old(state)@, json::tree_of(*entry)),
{
    if state.parent_session_id.is_none() {
        state.parent_session_id = owned(text_within(member(entry, "forkedFrom"), "sessionId"));
    }
    match text_at(entry, "type") {
        Some(kind) => {
            if same_text(kind, "assistant") {
                parse_assistant_message(entry, state);
            } else if same_text(kind, "user") {
                parse_tool_results(entry, state);
            }
        },
        None => {},
    }
}

/// Applies parsed transcript entries in order.
pub fn apply_entries(entries: &Vec<Value>, state: &mut State)
    requires
        entries_fit(json::trees(entries@), old(state)@.next_seq as int),
    ensures
        final(state)@ == after_entries(old(state)@, json::trees(entries@)),
{
    let ghost st = state@;
    let ghost all = json::trees(entries@);
    let mut i: usize = 0;
    proof {
        assert(all.take(0) =~= seq![]);
    }
    while i < entries.len()
        invariant
            i <= entries@.len(),
            all == json::trees(entries@),
            entries_fit(all, st.next_seq as int),
            state@ == after_entries(st, all.take(i as int)),
            state@.next_seq == st.next_seq + numbered_entries(all.take(i as int)),
        decreases entries@.len() - i,
    {
        proof {
            assert(all.take(i + 1).drop_last() =~= all.take(i as int));
            assert(all.take(i + 1).last() == all[i as int]);
            lemma_numbered_entries_monotonic(all, i + 1);
            lemma_next_seq_entry(state@, all[i as int]);
        }
        apply_entry(&entries[i], state);
        i = i + 1;
    }
    proof {
        assert(all.take(entries@.len() as int) =~= all);
    }
}

/// Takes the numbers that an entry's calls need out of those that are left; nothing where
/// they do not suffice or a command cannot be shortened.
fn numbers_left(entry: &Value, left: u64) -> (after: Option<u64>)
    ensures
        after is Some <==> blocks_fit(calls_of(json::tree_of(*entry))) && numbered_blocks(
            calls_of(json::tree_of(*entry)),
        ) <= left,
        after is Some ==> after->0 == left - numbered_blocks(calls_of(json::tree_of(*entry))),
{
    match text_at(entry, "type") {
        Some(kind) => {
            if !same_text(kind, "assistant") {
                return Some(left);
            }
        },
        None => {
            return Some(left);
        },
    }
    let blocks: &Vec<Value> = match content_blocks(entry) {
        Some(blocks) => blocks,
        None => {
            return Some(left);
        },
    };
    let ghost all = json::trees(blocks@);
    let mut after: u64 = left;
    let mut i: usize = 0;
    proof {
        assert(all.take(0) =~= seq![]);
    }
    while i < blocks.len()
        invariant
            i <= blocks@.len(),
            all == json::trees(blocks@),
            all == calls_of(json::tree_of(*entry)),
            after == left - numbered_blocks(all.take(i as int)),
            forall|k: int| 0 <= k < i ==> block_fits(#[trigger] all[k]),
        decreases blocks@.len() - i,
    {
        let block: &Value = &blocks[i];
        proof {
            assert(all.take(i + 1).drop_last() =~= all.take(i as int));
            assert(all.take(i + 1).last() == all[i as int]);
            lemma_numbered_blocks_monotonic(all, i + 1);
        }
        assert(json::tree_of(*block) == all[i as int]);
        if is_tool_use(block) {
            let name: &str = match text_at(block, "name") {
                Some(name) => name,
                None => "unknown",
            };
            if !is_command_showable(name, member(block, "input")) {
                assert(!block_fits(all[i as int]));
                return None;
            }
            if !same_text(name, "TodoWrite") && !same_text(name, "TaskCreate") && !same_text(
                name,
                "TaskUpdate",
            ) {
                if after == 0 {
                    return None;
                }
                after = after - 1;
            }
        }
        i = i + 1;
    }
    proof {
        assert(all.take(blocks@.len() as int) =~= all);
    }
    Some(after)
}

fn is_tool_use(block: &Value) -> (holds: bool)
    ensures
        holds == (tool_use_id_of(json::tree_of(*block)) is Some),
{
    match text_at(block, "type") {
        Some(kind) => same_text(kind, "tool_use") && text_at(block, "id").is_some(),
        None => false,
    }
}

/// Whether [`apply_entries`] can apply entries to a state whose next sequence number is
/// given.
pub fn are_entries_applicable(entries: &Vec<Value>, next_seq: u64) -> (holds: bool)
    ensures
        holds == entries_fit(json::trees(entries@), next_seq as int),
{
    let ghost all = json::trees(entries@);
    let mut left: u64 = u64::MAX - next_seq;
    let mut i: usize = 0;
    proof {
        assert(all.take(0) =~= seq![]);
    }
    while i < entries.len()
        invariant
            i <= entries@.len(),
            all == json::trees(entries@),
            left == u64::MAX - next_seq - numbered_entries(all.take(i as int)),
            forall|k: int| 0 <= k < i ==> blocks_fit(calls_of(#[trigger] all[k])),
        decreases entries@.len() - i,
    {
        proof {
            assert(all.take(i + 1).drop_last() =~= all.take(i as int));
            assert(all.take(i + 1).last() == all[i as int]);
            lemma_numbered_entries_monotonic(all, i + 1);
        }
        match numbers_left(&entries[i], left) {
            Some(after) => {
                left = after;
            },
            None => {
                assert(!entries_fit(all, next_seq as int));
                return false;
            },
        }
        i = i + 1;
    }
    proof {
        assert(all.take(entries@.len() as int) =~= all);
    }
    true
}

/// The entries in a stretch of a transcript: the lines that are JSON texts. Empty lines and
/// lines that are no JSON text are left out.
pub open spec fn entries_of(lines: Seq<Seq<u8>>) -> Seq<Tree>
    decreases lines.len(),
{
    if lines.len() == 0 {
        seq![]
    } else {
        let before = entries_of(lines.drop_last());
        let line = lines.last();
        match json::json_of(line) {
            Some(entry) => if line.len() == 0 {
                before
            } else {
                before.push(entry)
            },
            None => before,
        }
    }
}

/// The entries in a stretch of a transcript.
pub open spec fn entries_in(bytes: Seq<u8>) -> Seq<Tree> {
    entries_of(text::pieces(bytes, 10))
}

proof fn lemma_pieces_unbroken(s: Seq<u8>, from: int, to: int)
    requires
        0 <= from <= to <= s.len(),
        from == 0 || s[from - 1] == 10,
        forall|k: int| from <= k < to ==> s[k] != 10,
    ensures
        text::pieces(s.take(to), 10).last() == s.subrange(from, to),
        text::pieces(s.take(to), 10).drop_last() == text::pieces(s.take(from), 10).drop_last(),
    decreases to - from,
{
    text::lemma_pieces_nonempty(s.take(to), 10);
    if from < to {
        lemma_pieces_unbroken(s, from, to - 1);
        assert(s.take(to).drop_last() =~= s.take(to - 1));
        assert(s.take(to).last() == s[to - 1]);
        text::lemma_pieces_nonempty(s.take(to - 1), 10);
        let before = text::pieces(s.take(to - 1), 10);
        assert(text::pieces(s.take(to), 10).drop_last() =~= before.drop_last());
        assert(s.subrange(from, to - 1).push(s[to - 1]) =~= s.subrange(from, to));
    } else {
        assert(s.subrange(from, to) =~= Seq::<u8>::empty());
        if from > 0 {
            assert(s.take(from).last() == s[from - 1]);
        }
    }
}

/// Parses the entries in a stretch of a transcript.
pub fn parse_lines(bytes: &[u8]) -> (entries: Vec<Value>)
    ensures
        json::trees(entries@) == entries_in(bytes@),
{
    let mut entries: Vec<Value> = Vec::new();
    let mut from: usize = 0;
    let mut to: usize = 0;
    proof {
        assert(bytes@.take(0) =~= Seq::<u8>::empty());
        assert(text::pieces(bytes@.take(0), 10).drop_last() =~= Seq::<Seq<u8>>::empty());
        assert(json::trees(entries@) =~= Seq::<Tree>::empty());
    }
    loop
        invariant_except_break
            from <= to <= bytes@.len(),
            from == 0 || bytes@[from - 1] == 10,
            forall|k: int| from <= k < to ==> bytes@[k] != 10,
            json::trees(entries@) == entries_of(text::pieces(bytes@.take(from as int), 10).drop_last()),
        ensures
            json::trees(entries@) == entries_in(bytes@),
        decreases bytes@.len() + 1 - to,
    {
        if to == bytes.len() || bytes[to] == 10 {
            let line: &[u8] = &bytes[from..to];
            let ghost before = json::trees(entries@);
            let ghost lines = text::pieces(bytes@.take(to as int), 10);
            proof {
                lemma_pieces_unbroken(bytes@, from as int, to as int);
                text::lemma_pieces_nonempty(bytes@.take(to as int), 10);
            }
            if line.len() > 0 {
                match json::parse(line) {
                    Some(entry) => {
                        entries.push(entry);
                        assert(json::trees(entries@) =~= before.push(json::tree_of(entry)));
                    },
                    None => {},
                }
            }
            assert(json::trees(entries@) == entries_of(lines));
            if to == bytes.len() {
                assert(bytes@.take(to as int) =~= bytes@);
                break;
            }
            proof {
                assert(bytes@.take(to + 1).drop_last() =~= bytes@.take(to as int));
                assert(bytes@.take(to + 1).last() == 10);
                assert(text::pieces(bytes@.take(to + 1), 10).drop_last() =~= lines);
            }
            to = to + 1;
            from = to;
        } else {
            to = to + 1;
        }
    }
    entries
}

/// A transcript file as it was found: its identity, its size, and its bytes where they
/// could be read.
pub struct TranscriptFile<'a> {
    pub inode: u64,
    pub file_size: u64,
    pub contents: Option<&'a [u8]>,
}

/// A transcript file as the specifications see it.
#[verifier::ext_equal]
pub struct FileView {
    pub inode: u64,
    pub file_size: u64,
    pub contents: Option<Seq<u8>>,
}

impl<'a> View for TranscriptFile<'a> {
    type V = FileView;

    open spec fn view(&self) -> FileView {
        FileView {
            inode: self.inode,
            file_size: self.file_size,
            contents: match self.contents {
                Some(contents) => Some(contents@),
                None => None,
            },
        }
    }
}

/// Whether a file is not the one that was read before: another file, or one that shrank.
pub open spec fn is_replaced(st: StateView, file: FileView) -> bool {
    file.inode != st.inode || file.file_size < st.file_size
}

/// The state once a file was found: what a replaced file said is forgotten.
pub open spec fn opened(st: StateView, file: FileView) -> StateView {
    let kept = if is_replaced(st, file) {
        StateView { byte_offset: 0, work: types::empty_transcript(), next_seq: 0, ..st }
    } else {
        st
    };
    StateView { inode: file.inode, file_size: file.file_size, ..kept }
}

/// The bytes that were not read yet.
pub open spec fn unread(st: StateView, contents: Seq<u8>) -> Seq<u8> {
    if st.byte_offset <= contents.len() {
        contents.skip(st.byte_offset as int)
    } else {
        seq![]
    }
}

/// The entries that a file adds to what a state holds.
pub open spec fn new_entries(st: StateView, file: FileView) -> Seq<Tree> {
    match file.contents {
        Some(contents) => entries_in(unread(opened(st, file), contents)),
        None => seq![],
    }
}

/// Whether the entries that a file adds can be applied.
pub open spec fn file_fits(st: StateView, file: FileView) -> bool {
    file.file_size > 0 ==> entries_fit(new_entries(st, file), opened(st, file).next_seq as int)
}

/// The state after a file was read. An empty file changes nothing.
pub open spec fn after_file(st: StateView, file: FileView) -> StateView {
    if file.file_size == 0 {
        st
    } else {
        match file.contents {
            Some(contents) => StateView {
                byte_offset: contents.len() as u64,
                ..after_entries(opened(st, file), new_entries(st, file))
            },
            None => opened(st, file),
        }
    }
}

/// What there is to show after a file was read: nothing where it could not be.
pub open spec fn shown_after_file(st: StateView, file: FileView) -> TranscriptView {
    if file.file_size == 0 || file.contents is None {
        types::empty_transcript()
    } else {
        after_file(st, file).work
    }
}

/// Reads what a transcript file has gained since the last time, and gives what there is to
/// show. Without a file there is nothing to show. Where an entry cannot be applied (see
/// [`entries_fit`]) the state stays as it was and nothing comes back.
pub fn parse_transcript(file: Option<&TranscriptFile>, state: &mut State) -> (data: Option<
    TranscriptData,
>)
    ensures
        match file {
            None => final(state)@ == old(state)@ && data is Some && data->0@
                == types::empty_transcript(),
            Some(f) => if file_fits(old(state)@, f@) {
                &&& final(state)@ == after_file(old(state)@, f@)
                &&& data is Some
                &&& data->0@ == shown_after_file(old(state)@, f@)
            } else {
                final(state)@ == old(state)@ && data is None
            },
        },
{
    let file: &TranscriptFile = match file {
        Some(file) => file,
        None => {
            return Some(TranscriptData::default());
        },
    };
    if file.file_size == 0 {
        return Some(TranscriptData::default());
    }
    let ghost st = state@;
    let replaced: bool = file.inode != state.inode || file.file_size < state.file_size;
    let (offset, next_seq): (u64, u64) = if replaced {
        (0, 0)
    } else {
        (state.byte_offset, state.next_seq)
    };
    let mut entries: Vec<Value> = Vec::new();
    let mut end: u64 = 0;
    match file.contents {
        Some(contents) => {
            end = contents.len() as u64;
            let start: usize = if offset <= end {
                offset as usize
            } else {
                contents.len()
            };
            entries = parse_lines(&contents[start..contents.len()]);
            assert(contents@.subrange(start as int, contents@.len() as int) =~= unread(
                opened(st, file@),
                contents@,
            ));
        },
        None => {
            assert(json::trees(entries@) =~= Seq::<Tree>::empty());
        },
    }
    assert(json::trees(entries@) == new_entries(st, file@));
    if !are_entries_applicable(&entries, next_seq) {
        return None;
    }
    if replaced {
        state.byte_offset = 0;
        state.tools.clear();
        state.agents.clear();
        state.todos.clear();
        state.tasks.clear();
        state.next_seq = 0;
        assert(state@.work =~= types::empty_transcript());
    }
    state.inode = file.inode;
    state.file_size = file.file_size;
    assert(state@ =~= opened(st, file@));
    if file.contents.is_none() {
        return Some(TranscriptData::default());
    }
    apply_entries(&entries, state);
    state.byte_offset = end;
    Some(
        TranscriptData {
            tools: state.tools.duplicate(),
            agents: state.agents.duplicate(),
            todos: duplicate_todos(&state.todos),
            tasks: state.tasks.duplicate(),
        },
    )
}

proof fn lemma_pieces_concat(a: Seq<u8>, b: Seq<u8>)
    requires
        a.len() > 0,
        a.last() == 10,
    ensures
        text::pieces(a + b, 10) == text::pieces(a, 10).drop_last() + text::pieces(b, 10),
    decreases b.len(),
{
    text::lemma_pieces_nonempty(a, 10);
    if b.len() == 0 {
        assert(a + b =~= a);
        assert(text::pieces(a, 10).last() =~= Seq::<u8>::empty());
        assert(text::pieces(a, 10) =~= text::pieces(a, 10).drop_last() + text::pieces(b, 10));
    } else {
        lemma_pieces_concat(a, b.drop_last());
        assert((a + b).drop_last() =~= a + b.drop_last());
        assert((a + b).last() == b.last());
        text::lemma_pieces_nonempty(b.drop_last(), 10);
        let head = text::pieces(a, 10).drop_last();
        let tail = text::pieces(b.drop_last(), 10);
        assert((head + tail).drop_last() =~= head + tail.drop_last());
        assert((head + tail).last() == tail.last());
        assert(text::pieces(a + b, 10) =~= head + text::pieces(b, 10));
    }
}

proof fn lemma_entries_of_concat(a: Seq<Seq<u8>>, b: Seq<Seq<u8>>)
    ensures
        entries_of(a + b) == entries_of(a) + entries_of(b),
    decreases b.len(),
{
    if b.len() == 0 {
        assert(a + b =~= a);
        assert(entries_of(a) + entries_of(b) =~= entries_of(a));
    } else {
        lemma_entries_of_concat(a, b.drop_last());
        assert((a + b).drop_last() =~= a + b.drop_last());
        assert((a + b).last() == b.last());
        assert(entries_of(a + b) =~= entries_of(a) + entries_of(b));
    }
}

/// A stretch that ends with a line break holds the same entries whatever follows it.
pub proof fn law_entries_of_parts(a: Seq<u8>, b: Seq<u8>)
    requires
        a.len() == 0 || a.last() == 10,
    ensures
        entries_in(a + b) == entries_in(a) + entries_in(b),
{
    if a.len() == 0 {
        assert(a + b =~= b);
        reveal_with_fuel(entries_of, 2);
        assert(text::pieces(a, 10) =~= seq![Seq::<u8>::empty()]);
        assert(entries_in(a) =~= seq![]);
        assert(entries_in(a) + entries_in(b) =~= entries_in(b));
    } else {
        lemma_pieces_concat(a, b);
        let lines = text::pieces(a, 10);
        lemma_entries_of_concat(lines.drop_last(), text::pieces(b, 10));
        text::lemma_pieces_nonempty(a, 10);
        assert(lines.last() =~= Seq::<u8>::empty());
        assert(entries_of(lines) == entries_of(lines.drop_last()));
    }
}

/// Applying entries in two goes is the same as applying them in one.
pub proof fn law_entries_in_goes(st: StateView, a: Seq<Tree>, b: Seq<Tree>)
    ensures
        after_entries(st, a + b) == after_entries(after_entries(st, a), b),
    decreases b.len(),
{
    if b.len() == 0 {
        assert(a + b =~= a);
    } else {
        law_entries_in_goes(st, a, b.drop_last());
        assert((a + b).drop_last() =~= a + b.drop_last());
        assert((a + b).last() == b.last());
    }
}

/// A state with another place and another size in its file.
spec fn moved(st: StateView, byte_offset: u64, file_size: u64) -> StateView {
    StateView { byte_offset, file_size, ..st }
}

proof fn lemma_moved_assistant(
    st: StateView,
    entry: Tree,
    blocks: Seq<Tree>,
    byte_offset: u64,
    file_size: u64,
)
    ensures
        after_assistant_blocks(moved(st, byte_offset, file_size), entry, blocks) == moved(
            after_assistant_blocks(st, entry, blocks),
            byte_offset,
            file_size,
        ),
        after_assistant_blocks(st, entry, blocks).inode == st.inode,
        after_assistant_blocks(st, entry, blocks).file_size == st.file_size,
        after_assistant_blocks(st, entry, blocks).byte_offset == st.byte_offset,
    decreases blocks.len(),
{
    if blocks.len() > 0 {
        lemma_moved_assistant(st, entry, blocks.drop_last(), byte_offset, file_size);
    }
}

proof fn lemma_moved_results(
    st: StateView,
    blocks: Seq<Tree>,
    byte_offset: u64,
    file_size: u64,
)
    ensures
        after_result_blocks(moved(st, byte_offset, file_size), blocks) == moved(
            after_result_blocks(st, blocks),
            byte_offset,
            file_size,
        ),
        after_result_blocks(st, blocks).inode == st.inode,
        after_result_blocks(st, blocks).file_size == st.file_size,
        after_result_blocks(st, blocks).byte_offset == st.byte_offset,
    decreases blocks.len(),
{
    if blocks.len() > 0 {
        lemma_moved_results(st, blocks.drop_last(), byte_offset, file_size);
    }
}

proof fn lemma_moved_entries(
    st: StateView,
    entries: Seq<Tree>,
    byte_offset: u64,
    file_size: u64,
)
    ensures
        after_entries(moved(st, byte_offset, file_size), entries) == moved(
            after_entries(st, entries),
            byte_offset,
            file_size,
        ),
        after_entries(st, entries).inode == st.inode,
        after_entries(st, entries).file_size == st.file_size,
        after_entries(st, entries).byte_offset == st.byte_offset,
    decreases entries.len(),
{
    if entries.len() > 0 {
        lemma_moved_entries(st, entries.drop_last(), byte_offset, file_size);
        let before = after_entries(st, entries.drop_last());
        let entry = entries.last();
        let noted = after_fork_note(before, entry);
        assert(after_fork_note(moved(before, byte_offset, file_size), entry) == moved(
            noted,
            byte_offset,
            file_size,
        ));
        match content_of(entry) {
            Some(blocks) => {
                lemma_moved_assistant(noted, entry, blocks, byte_offset, file_size);
                lemma_moved_results(noted, blocks, byte_offset, file_size);
            },
            None => {},
        }
    }
}

/// Reading a file up to a line break, and later the whole of it, leaves the same state as
/// reading the whole at once.
pub proof fn law_incremental_reading(
    st: StateView,
    first: FileView,
    whole: FileView,
    a: Seq<u8>,
    b: Seq<u8>,
)
    requires
        first.inode == whole.inode,
        0 < first.file_size <= whole.file_size,
        first.contents == Some(a),
        whole.contents == Some(a + b),
        a.len() == 0 || a.last() == 10,
        a.len() + b.len() <= u64::MAX,
        is_replaced(st, first) == is_replaced(st, whole),
        opened(st, first).byte_offset <= a.len(),
    ensures
        after_file(after_file(st, first), whole) == after_file(st, whole),
        shown_after_file(after_file(st, first), whole) == shown_after_file(st, whole),
{
    let base = opened(st, first);
    let read = after_file(st, first);
    let early = entries_in(unread(base, a));
    let late = entries_in(b);
    lemma_moved_entries(base, early, a.len() as u64, whole.file_size);
    assert(!is_replaced(read, whole));
    assert(opened(read, whole) == moved(
        after_entries(base, early),
        a.len() as u64,
        whole.file_size,
    ));
    assert(unread(opened(read, whole), a + b) =~= b);
    assert(opened(st, whole) == moved(base, base.byte_offset, whole.file_size));
    assert(unread(opened(st, whole), a + b) =~= unread(base, a) + b);
    law_entries_of_parts(unread(base, a), b);
    law_entries_in_goes(opened(st, whole), early, late);
    lemma_moved_entries(base, early, base.byte_offset, whole.file_size);
    let middle = after_entries(base, early);
    lemma_moved_entries(middle, late, a.len() as u64, whole.file_size);
    lemma_moved_entries(middle, late, base.byte_offset, whole.file_size);
}

/// A state in which nothing was read of a file yet.
pub open spec fn unread_state(st: StateView, file: FileView) -> StateView {
    StateView {
        byte_offset: 0,
        work: types::empty_transcript(),
        next_seq: 0,
        inode: file.inode,
        file_size: 0,
        ..st
    }
}

/// A replaced file is read as if nothing had been read before.
pub proof fn law_replaced_file_starts_over(st: StateView, file: FileView)
    requires
        is_replaced(st, file),
        file.file_size > 0,
    ensures
        after_file(st, file) == after_file(unread_state(st, file), file),
        shown_after_file(st, file) == shown_after_file(unread_state(st, file), file),
{
}

/// An empty line, and one that is no JSON text, changes nothing, wherever it stands.
pub proof fn law_malformed_lines_are_skipped(before: Seq<u8>, line: Seq<u8>, after: Seq<u8>)
    requires
        before.len() == 0 || before.last() == 10,
        forall|i: int| 0 <= i < line.len() ==> line[i] != 10,
        line.len() == 0 || json::json_of(line) is None,
    ensures
        entries_in(before + line.push(10) + after) == entries_in(before + after),
{
    let whole = line.push(10);
    law_entries_of_parts(before + whole, after);
    law_entries_of_parts(before, whole);
    law_entries_of_parts(before, after);
    assert(entries_in(whole) =~= seq![]) by {
        assert(whole.drop_last() =~= line);
        assert(whole.take(line.len() as int) =~= line);
        lemma_pieces_unbroken(whole, 0, line.len() as int);
        assert(whole.take(0) =~= Seq::<u8>::empty());
        let lines = text::pieces(line, 10);
        text::lemma_pieces_nonempty(line, 10);
        assert(lines.drop_last() =~= Seq::<Seq<u8>>::empty());
        assert(lines.last() =~= line);
        assert(text::pieces(whole, 10).drop_last() =~= lines);
        assert(text::pieces(whole, 10).last() =~= Seq::<u8>::empty());
        reveal_with_fuel(entries_of, 2);
        assert(entries_of(lines) =~= seq![]);
        assert(entries_of(text::pieces(whole, 10)) == entries_of(lines));
    }
    assert(entries_in(before) + entries_in(whole) =~= entries_in(before));
}

/// The numbers of tools and agents are below the next one and pairwise different.
pub open spec fn well_numbered(work: TranscriptView, next_seq: int) -> bool {
    &&& forall|i: int| 0 <= i < work.tools.len() ==> (#[trigger] work.tools[i]).1.seq < next_seq
    &&& forall|i: int| 0 <= i < work.agents.len() ==> (#[trigger] work.agents[i]).1.seq < next_seq
    &&& forall|i: int, j: int|
        0 <= i < j < work.tools.len() ==> (#[trigger] work.tools[i]).1.seq != (
        #[trigger] work.tools[j]).1.seq
    &&& forall|i: int, j: int|
        0 <= i < j < work.agents.len() ==> (#[trigger] work.agents[i]).1.seq != (
        #[trigger] work.agents[j]).1.seq
    &&& forall|i: int, j: int|
        0 <= i < work.tools.len() && 0 <= j < work.agents.len() ==> (
        #[trigger] work.tools[i]).1.seq != (#[trigger] work.agents[j]).1.seq
}

/// A state as reading transcripts leaves it: no key twice in a table, and the tools and
/// agents numbered in the order in which they started.
pub open spec fn well_formed(st: StateView) -> bool {
    &&& table::unique_keys(st.work.tools)
    &&& table::unique_keys(st.work.agents)
    &&& table::unique_keys(st.work.tasks)
    &&& well_numbered(st.work, st.next_seq as int)
}

proof fn lemma_block_keeps_well_formed(st: StateView, entry: Tree, block: Tree)
    requires
        well_formed(st),
        is_numbered(block) ==> st.next_seq < u64::MAX,
    ensures
        well_formed(after_assistant_block(st, entry, block)),
{
    lemma_agent_names();
    match tool_use_id_of(block) {
        None => {},
        Some(id) => {
            let name = tool_name_of(block);
            let input = json::member_of(block, "input"@);
            table::lemma_position(st.work.agents, id);
            table::lemma_position(st.work.tools, id);
            let after = after_assistant_block(st, entry, block);
            if name == "Agent"@ || name == "Task"@ {
                table::lemma_unique_keys_kept(
                    st.work.agents,
                    id,
                    agent_started(entry, block, st.next_seq),
                );
            } else if name == "TaskCreate"@ {
                table::lemma_unique_keys_kept(
                    st.work.tasks,
                    id,
                    TaskItem { status: status_of(status_word(input)) },
                );
            } else if name == "TaskUpdate"@ {
                match (
                    json::text_member_of(input, "taskId"@),
                    json::text_member_of(input, "status"@),
                ) {
                    (Some(task_id), Some(word)) => {
                        table::lemma_unique_keys_kept(
                            st.work.tasks,
                            task_id,
                            TaskItem { status: status_of(word) },
                        );
                    },
                    _ => {},
                }
            } else if name != "TodoWrite"@ {
                table::lemma_unique_keys_kept(
                    st.work.tools,
                    id,
                    ToolView {
                        name,
                        target: target_of(name, input),
                        completed: false,
                        error: false,
                        seq: st.next_seq,
                    },
                );
            }
        },
    }
}

proof fn lemma_blocks_keep_well_formed(st: StateView, entry: Tree, blocks: Seq<Tree>)
    requires
        well_formed(st),
        st.next_seq + numbered_blocks(blocks) <= u64::MAX,
    ensures
        well_formed(after_assistant_blocks(st, entry, blocks)),
    decreases blocks.len(),
{
    if blocks.len() > 0 {
        lemma_blocks_keep_well_formed(st, entry, blocks.drop_last());
        lemma_next_seq_blocks(st, entry, blocks.drop_last());
        lemma_block_keeps_well_formed(
            after_assistant_blocks(st, entry, blocks.drop_last()),
            entry,
            blocks.last(),
        );
    }
}

proof fn lemma_result_keeps_well_formed(st: StateView, block: Tree)
    requires
        well_formed(st),
    ensures
        well_formed(after_result_block(st, block)),
{
    match result_id_of(block) {
        None => {},
        Some(id) => {
            let error = is_error_result(block);
            let answer = result_text_of(block);
            table::lemma_position(st.work.tools, id);
            table::lemma_position(st.work.agents, id);
            match table::lookup(st.work.tools, id) {
                Some(tool) => {
                    table::lemma_unique_keys_kept(
                        st.work.tools,
                        id,
                        ToolView { completed: true, error, ..tool },
                    );
                },
                None => {},
            }
            match table::lookup(st.work.agents, id) {
                Some(agent) => {
                    table::lemma_unique_keys_kept(
                        st.work.agents,
                        id,
                        AgentView { completed: true, ..agent },
                    );
                },
                None => {},
            }
            match (table::lookup(st.work.tasks, id), task_id_in(answer)) {
                (Some(task), Some(number)) => {
                    table::lemma_unique_keys_kept(st.work.tasks, id, task);
                    table::lemma_unique_keys_kept(
                        table::removed(st.work.tasks, id),
                        number,
                        task,
                    );
                },
                _ => {},
            }
            let tools = after_result_block(st, block).work.tools;
            let agents = after_result_block(st, block).work.agents;
            assert forall|i: int| 0 <= i < tools.len() implies (#[trigger] tools[i]).1.seq
                == st.work.tools[i].1.seq by {}
            assert forall|i: int| 0 <= i < agents.len() implies (#[trigger] agents[i]).1.seq
                == st.work.agents[i].1.seq by {}
        },
    }
}

proof fn lemma_results_keep_well_formed(st: StateView, blocks: Seq<Tree>)
    requires
        well_formed(st),
    ensures
        well_formed(after_result_blocks(st, blocks)),
    decreases blocks.len(),
{
    if blocks.len() > 0 {
        lemma_results_keep_well_formed(st, blocks.drop_last());
        lemma_result_keeps_well_formed(
            after_result_blocks(st, blocks.drop_last()),
            blocks.last(),
        );
    }
}

/// Applying entries keeps a state well formed: keys stay unique, and tools and agents are
/// numbered in the order in which they started.
pub proof fn law_entries_keep_well_formed(st: StateView, entries: Seq<Tree>)
    requires
        well_formed(st),
        st.next_seq + numbered_entries(entries) <= u64::MAX,
    ensures
        well_formed(after_entries(st, entries)),
        after_entries(st, entries).next_seq == st.next_seq + numbered_entries(entries),
    decreases entries.len(),
{
    if entries.len() > 0 {
        law_entries_keep_well_formed(st, entries.drop_last());
        let before = after_entries(st, entries.drop_last());
        let entry = entries.last();
        let noted = after_fork_note(before, entry);
        lemma_next_seq_entry(before, entry);
        match content_of(entry) {
            Some(blocks) => {
                if json::text_member(entry, "type"@) == Some("assistant"@) {
                    lemma_blocks_keep_well_formed(noted, entry, blocks);
                }
                lemma_results_keep_well_formed(noted, blocks);
            },
            None => {},
        }
    }
}

/// Reading a file keeps a state well formed.
pub proof fn law_reading_keeps_well_formed(st: StateView, file: FileView)
    requires
        well_formed(st),
        file_fits(st, file),
    ensures
        well_formed(after_file(st, file)),
{
    if file.file_size > 0 {
        law_entries_keep_well_formed(opened(st, file), new_entries(st, file));
    }
}

/// A fresh state is well formed.
pub proof fn law_fresh_state_well_formed()
    ensures
        well_formed(types::fresh_state()),
{
}

/// Once a call that created a task was answered with a number, updates that name the number
/// reach the task, and the id of the call no longer names it.
pub proof fn law_task_found_under_its_number(
    st: StateView,
    result: Tree,
    id: Seq<char>,
    number: Seq<char>,
    task: TaskItem,
)
    requires
        table::unique_keys(st.work.tasks),
        result_id_of(result) == Some(id),
        table::lookup(st.work.tasks, id) == Some(task),
        task_id_in(result_text_of(result)) == Some(number),
    ensures
        table::lookup(after_result_block(st, result).work.tasks, number) == Some(task),
        id != number ==> table::lookup(after_result_block(st, result).work.tasks, id) is None,
{
    let without = table::removed(st.work.tasks, id);
    table::law_lookup_after_remove(st.work.tasks, id, number);
    table::law_lookup_after_store(without, number, task, id);
}

/// An update of a task that is known changes its status and no other task.
pub proof fn law_task_update_reaches_task(
    st: StateView,
    entry: Tree,
    call: Tree,
    task_id: Seq<char>,
    word: Seq<char>,
    other: Seq<char>,
)
    requires
        tool_use_id_of(call) is Some,
        tool_name_of(call) == "TaskUpdate"@,
        json::text_member_of(json::member_of(call, "input"@), "taskId"@) == Some(task_id),
        json::text_member_of(json::member_of(call, "input"@), "status"@) == Some(word),
    ensures
        table::has_key(st.work.tasks, task_id) ==> table::lookup(
            after_assistant_block(st, entry, call).work.tasks,
            task_id,
        ) == Some(TaskItem { status: status_of(word) }),
        !table::has_key(st.work.tasks, task_id) ==> after_assistant_block(st, entry, call) == st,
        other != task_id ==> table::lookup(
            after_assistant_block(st, entry, call).work.tasks,
            other,
        ) == table::lookup(st.work.tasks, other),
{
    lemma_agent_names();
    reveal_strlit("TaskUpdate");
    reveal_strlit("TaskCreate");
    reveal_strlit("TodoWrite");
    assert("TaskUpdate"@[4] == 'U' && "TaskCreate"@[4] == 'C');
    assert("TaskUpdate"@.len() == 10 && "TodoWrite"@.len() == 9);
    table::law_lookup_after_store(
        st.work.tasks,
        task_id,
        TaskItem { status: status_of(word) },
        other,
    );
}

/// A tool result marks the tool that it answers as finished and touches no other tool.
pub proof fn law_result_finishes_its_tool(
    st: StateView,
    result: Tree,
    id: Seq<char>,
    other: Seq<char>,
)
    requires
        result_id_of(result) == Some(id),
    ensures
        match table::lookup(st.work.tools, id) {
            Some(tool) => table::lookup(after_result_block(st, result).work.tools, id) == Some(
                ToolView { completed: true, error: is_error_result(result), ..tool },
            ),
            None => after_result_block(st, result).work.tools == st.work.tools,
        },
        other != id ==> table::lookup(after_result_block(st, result).work.tools, other)
            == table::lookup(st.work.tools, other),
{
    match table::lookup(st.work.tools, id) {
        Some(tool) => {
            table::law_lookup_after_store(
                st.work.tools,
                id,
                ToolView { completed: true, error: is_error_result(result), ..tool },
                other,
            );
        },
        None => {},
    }
}

} // verus!
