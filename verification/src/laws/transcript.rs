//! The transcript, stated on the members of its entries and on what the tables hold.

use crate::clock;
use crate::json;
use crate::json::Tree;
use crate::laws;
use crate::table;
use crate::text;
use crate::transcript;
use crate::transcript::FileView;

use crate::types::{AgentView, StateView, TaskItem, TaskStatus, TodoView, ToolView, TranscriptView};
use vstd::prelude::*;
use vstd::string::*;
use vstd::utf8::*;

verus! {

/// Three words mean completed, two mean in progress, and every other word pending.
pub proof fn law_status_words(word: Seq<char>)
    ensures
        transcript::status_of(word) == TaskStatus::Completed <==> word == "completed"@ || word
            == "complete"@ || word == "done"@,
        transcript::status_of(word) == TaskStatus::InProgress <==> word == "in_progress"@ || word
            == "running"@,
{
    reveal_strlit("completed");
    reveal_strlit("complete");
    reveal_strlit("done");
    reveal_strlit("in_progress");
    reveal_strlit("running");
    assert("completed"@.len() == 9 && "complete"@.len() == 8 && "done"@.len() == 4);
    assert("in_progress"@.len() == 11 && "running"@.len() == 7);
}

proof fn lemma_encode_concat(a: Seq<char>, b: Seq<char>)
    ensures
        encode_utf8(a + b) == encode_utf8(a) + encode_utf8(b),
    decreases a.len(),
{
    if a.len() == 0 {
        assert(a + b =~= b);
        assert(encode_utf8(a) + encode_utf8(b) =~= encode_utf8(b));
    } else {
        lemma_encode_concat(a.drop_first(), b);
        assert((a + b).drop_first() =~= a.drop_first() + b);
        assert((a + b)[0] == a[0]);
        let first = encode_scalar(a[0] as u32);
        assert(encode_utf8(a + b) =~= encode_utf8(a) + encode_utf8(b));
    }
}

/// A text of at most so many bytes stays whole. Of a longer one, what takes up exactly so many
/// bytes is kept, with an ellipsis behind it.
pub proof fn law_truncation_keeps_so_many_bytes(head: Seq<char>, tail: Seq<char>, max: nat)
    ensures
        encode_utf8(head).len() <= max ==> transcript::truncated(head, max) == head,
        encode_utf8(head).len() == max && encode_utf8(tail).len() > 0 ==> transcript::truncated(
            head + tail,
            max,
        ) == head + seq!['.', '.', '.'],
        encode_utf8(head).len() == max ==> transcript::can_truncate(head + tail, max),
{
    reveal_strlit("...");
    assert("..."@ =~= seq!['.', '.', '.']);
    lemma_encode_concat(head, tail);
    let bytes = encode_utf8(head + tail);
    if encode_utf8(head).len() == max {
        assert(bytes.take(max as int) =~= encode_utf8(head));
        assert(bytes.skip(max as int) =~= encode_utf8(tail));
        encode_utf8_decode_utf8(head);
        encode_utf8_valid_utf8(head);
        encode_utf8_valid_utf8(tail);
        encode_utf8_valid_utf8(head + tail);
        lemma_boundary(bytes, max as int);
    }
}

proof fn lemma_boundary(bytes: Seq<u8>, at: int)
    requires
        0 <= at <= bytes.len(),
        valid_utf8(bytes),
        valid_utf8(bytes.take(at)),
        valid_utf8(bytes.skip(at)),
    ensures
        is_char_boundary(bytes, at),
{
    is_char_boundary_start_end_of_seq(bytes);
    if 0 < at < bytes.len() {
        is_char_boundary_iff_not_is_continuation_byte(bytes, at);
        let rest = bytes.skip(at);
        assert(rest[0] == bytes[at]);
        assert(valid_first_scalar(rest));
        assert(!is_continuation_byte(bytes[at]));
    }
}

/// The names that calls are told apart by are all different.
proof fn lemma_names_differ()
    ensures
        "Agent"@ != "TodoWrite"@ && "Agent"@ != "TaskCreate"@ && "Agent"@ != "TaskUpdate"@,
        "Task"@ != "TodoWrite"@ && "Task"@ != "TaskCreate"@ && "Task"@ != "TaskUpdate"@,
        "TodoWrite"@ != "TaskCreate"@ && "TodoWrite"@ != "TaskUpdate"@,
        "TaskCreate"@ != "TaskUpdate"@,
        "Glob"@ != "Read"@ && "Glob"@ != "Write"@ && "Glob"@ != "Edit"@,
        "Grep"@ != "Read"@ && "Grep"@ != "Write"@ && "Grep"@ != "Edit"@,
        "Bash"@ != "Read"@ && "Bash"@ != "Write"@ && "Bash"@ != "Edit"@,
        "Bash"@ != "Glob"@ && "Bash"@ != "Grep"@,
        "assistant"@ != "user"@,
        "unknown"@ != "Agent"@ && "unknown"@ != "Task"@ && "unknown"@ != "TodoWrite"@,
        "unknown"@ != "TaskCreate"@ && "unknown"@ != "TaskUpdate"@,
{
    reveal_strlit("Agent");
    reveal_strlit("Task");
    reveal_strlit("TodoWrite");
    reveal_strlit("TaskCreate");
    reveal_strlit("TaskUpdate");
    reveal_strlit("Read");
    reveal_strlit("Write");
    reveal_strlit("Edit");
    reveal_strlit("Glob");
    reveal_strlit("Grep");
    reveal_strlit("Bash");
    reveal_strlit("assistant");
    reveal_strlit("user");
    reveal_strlit("unknown");
    assert("Agent"@.len() == 5 && "Task"@.len() == 4 && "TodoWrite"@.len() == 9);
    assert("TaskCreate"@[4] == 'C' && "TaskUpdate"@[4] == 'U');
    assert("TaskCreate"@.len() == 10 && "TaskUpdate"@.len() == 10 && "unknown"@.len() == 7);
    assert("Read"@[0] == 'R' && "Write"@[0] == 'W' && "Edit"@[0] == 'E');
    assert("Glob"@[0] == 'G' && "Grep"@[0] == 'G' && "Bash"@[0] == 'B');
    assert("assistant"@.len() == 9 && "user"@.len() == 4);
}

/// The target of a call on a file is what stands behind the last slash of its path.
pub proof fn law_target_of_a_file_is_its_name(name: Seq<char>, input: Option<Tree>)
    requires
        name == "Read"@ || name == "Write"@ || name == "Edit"@,
    ensures
        match json::text_member_of(input, "file_path"@) {
            Some(path) => {
                let target = transcript::target_of(name, input);
                &&& target is Some
                &&& forall|i: int| 0 <= i < target->0.len() ==> #[trigger] target->0[i] != '/'
                &&& path == target->0 || exists|before: Seq<char>|
                    path == #[trigger] before.push('/') + target->0
            },
            None => transcript::target_of(name, input) is None,
        },
{
    if json::text_member_of(input, "file_path"@) is Some {
        let path = json::text_member_of(input, "file_path"@)->0;
        let parts = text::pieces(path, '/');
        laws::text::law_pieces_glue_back(path, '/');
        let last = parts[parts.len() - 1];
        assert forall|i: int| 0 <= i < last.len() implies #[trigger] last[i] != '/' by {
            assert(parts[parts.len() - 1][i] != '/');
        }
        if parts.len() > 1 {
            let before = laws::text::glued(parts.drop_last(), '/');
            assert(path == before.push('/') + last);
        }
    }
}

/// The target of a search is its pattern, that of a shell call its command, shortened to thirty
/// bytes; other calls, and calls without such an input, have none.
pub proof fn law_target_of_other_calls(name: Seq<char>, input: Option<Tree>)
    ensures
        name == "Glob"@ || name == "Grep"@ ==> transcript::target_of(name, input)
            == json::text_member_of(input, "pattern"@),
        name == "Bash"@ ==> match json::text_member_of(input, "command"@) {
            Some(command) => transcript::target_of(name, input) == Some(
                transcript::truncated(command, 30),
            ),
            None => transcript::target_of(name, input) is None,
        },
        name != "Read"@ && name != "Write"@ && name != "Edit"@ && name != "Glob"@ && name
            != "Grep"@ && name != "Bash"@ ==> transcript::target_of(name, input) is None,
{
    lemma_names_differ();
}

/// The mark that the number of a task follows.
pub open spec fn task_mark() -> Seq<char> {
    seq!['T', 'a', 's', 'k', ' ', '#']
}

proof fn lemma_find_skips(s: Seq<char>, pattern: Seq<char>, from: int, at: int)
    requires
        0 <= from <= at,
        at + pattern.len() <= s.len(),
        forall|i: int| from <= i < at ==> #[trigger] s.subrange(i, i + pattern.len()) != pattern,
        s.subrange(at, at + pattern.len()) == pattern,
    ensures
        transcript::find_from(s, pattern, from) == Some(at),
    decreases at - from,
{
    if from < at {
        assert(s.subrange(from, from + pattern.len()) != pattern);
        lemma_find_skips(s, pattern, from + 1, at);
    }
}

proof fn lemma_find_fails(s: Seq<char>, pattern: Seq<char>, from: int)
    requires
        0 <= from,
        forall|i: int|
            from <= i <= s.len() - pattern.len() ==> #[trigger] s.subrange(i, i + pattern.len())
                != pattern,
    ensures
        transcript::find_from(s, pattern, from) is None,
    decreases s.len() - from + 1,
{
    if from + pattern.len() <= s.len() {
        assert(s.subrange(from, from + pattern.len()) != pattern);
        lemma_find_fails(s, pattern, from + 1);
    }
}

proof fn lemma_digits_taken(digits: Seq<char>, after: Seq<char>)
    requires
        laws::text::all_digits(digits),
        after.len() > 0 ==> !('0' <= after[0] <= '9'),
    ensures
        transcript::leading_digits(digits + after) == digits,
    decreases digits.len(),
{
    let s = digits + after;
    if digits.len() == 0 {
        assert(s =~= after);
        assert(transcript::leading_digits(s) =~= digits);
    } else {
        let rest = digits.drop_first();
        assert forall|i: int| 0 <= i < rest.len() implies '0' <= #[trigger] rest[i] <= '9' by {
            assert(rest[i] == digits[i + 1]);
        }
        assert('0' <= digits[0] <= '9');
        lemma_digits_taken(rest, after);
        assert(s.drop_first() =~= rest + after);
        assert(s.first() == digits[0]);
        assert(transcript::leading_digits(s) =~= digits);
    }
}

/// The number of a task is made of all the digits right behind the first mark in a text, and
/// there is none without digits there.
pub proof fn law_task_number_follows_the_first_mark(
    before: Seq<char>,
    digits: Seq<char>,
    after: Seq<char>,
)
    requires
        laws::text::all_digits(digits),
        after.len() > 0 ==> !('0' <= after[0] <= '9'),
        forall|i: int|
            0 <= i < before.len() ==> #[trigger] (before + task_mark() + digits + after).subrange(
                i,
                i + 6,
            ) != task_mark(),
    ensures
        digits.len() > 0 ==> transcript::task_id_in(before + task_mark() + digits + after) == Some(
            digits,
        ),
        digits.len() == 0 ==> transcript::task_id_in(before + task_mark() + digits + after) is None,
{
    reveal_strlit("Task #");
    assert("Task #"@ =~= task_mark());
    let s = before + task_mark() + digits + after;
    let at = before.len() as int;
    assert(s.subrange(at, at + 6) =~= task_mark());
    assert forall|i: int| 0 <= i < at implies #[trigger] s.subrange(i, i + "Task #"@.len())
        != "Task #"@ by {
        assert(s.subrange(i, i + 6) != task_mark());
    }
    lemma_find_skips(s, "Task #"@, 0, at);
    assert(s.skip(at + 6) =~= digits + after);
    lemma_digits_taken(digits, after);
}

/// A text without the mark names no task.
pub proof fn law_no_task_number_without_the_mark(content: Seq<char>)
    requires
        forall|i: int|
            0 <= i <= content.len() - 6 ==> #[trigger] content.subrange(i, i + 6) != task_mark(),
    ensures
        transcript::task_id_in(content) is None,
{
    reveal_strlit("Task #");
    assert("Task #"@ =~= task_mark());
    assert forall|i: int| 0 <= i <= content.len() - "Task #"@.len() implies
        #[trigger] content.subrange(i, i + "Task #"@.len()) != "Task #"@ by {
        assert(content.subrange(i, i + 6) != task_mark());
    }
    lemma_find_fails(content, "Task #"@, 0);
}

/// Every item of a list that has content becomes a todo item, completed where its status says
/// so; the others are left out. The order is kept.
pub proof fn law_todos_are_the_items_with_content(items: Seq<Tree>, item: Tree)
    ensures
        transcript::todos_in(seq![]) == Seq::<TodoView>::empty(),
        json::text_member(item, "content"@) is None ==> transcript::todos_in(items.push(item))
            == transcript::todos_in(items),
        json::text_member(item, "content"@) is Some ==> {
            let word = json::text_member(item, "status"@);
            let todo = TodoView {
                content: json::text_member(item, "content"@)->0,
                completed: word is Some && (word->0 == "completed"@ || word->0 == "complete"@
                    || word->0 == "done"@),
            };
            transcript::todos_in(items.push(item)) == transcript::todos_in(items).push(todo)
        },
{
    assert(items.push(item).drop_last() =~= items);
    reveal_strlit("pending");
    reveal_strlit("completed");
    reveal_strlit("complete");
    reveal_strlit("done");
    assert("pending"@.len() == 7 && "completed"@.len() == 9 && "complete"@.len() == 8
        && "done"@.len() == 4);
}

/// Whether a block calls a tool by a name, under an id.
pub open spec fn calls(block: Tree, id: Seq<char>, name: Seq<char>) -> bool {
    &&& json::text_member(block, "type"@) == Some("tool_use"@)
    &&& json::text_member(block, "id"@) == Some(id)
    &&& json::text_member(block, "name"@) == Some(name)
}

/// The input of a call.
pub open spec fn input_of(block: Tree) -> Option<Tree> {
    json::member_of(block, "input"@)
}

/// Whether two states differ in their work and in the next number at most.
pub open spec fn same_but_for_work(a: StateView, b: StateView) -> bool {
    a == (StateView { work: a.work, next_seq: a.next_seq, ..b })
}

/// A block that is no call, and a call without id, changes nothing.
pub proof fn law_other_blocks_change_nothing(st: StateView, entry: Tree, block: Tree)
    requires
        json::text_member(block, "type"@) != Some("tool_use"@) || json::text_member(block, "id"@)
            is None,
    ensures
        transcript::after_assistant_block(st, entry, block) == st,
{
}

/// A call of an agent starts one under its id, with what its input says, at the time of the
/// entry, and with the next number. All else stays.
pub proof fn law_agent_call_starts_an_agent(
    st: StateView,
    entry: Tree,
    block: Tree,
    id: Seq<char>,
    other: Seq<char>,
)
    requires
        calls(block, id, "Agent"@) || calls(block, id, "Task"@),
        st.next_seq < u64::MAX,
    ensures
        ({
            let after = transcript::after_assistant_block(st, entry, block);
            let time = json::text_member(entry, "timestamp"@);
            &&& table::lookup(after.work.agents, id) == Some(
                AgentView {
                    subagent_type: json::text_member_of(input_of(block), "subagent_type"@),
                    model: json::text_member_of(input_of(block), "model"@),
                    description: json::text_member_of(input_of(block), "description"@),
                    start_time: if time is Some {
                        clock::timestamp_of(time->0)
                    } else {
                        None
                    },
                    completed: false,
                    seq: st.next_seq,
                },
            )
            &&& other != id ==> table::lookup(after.work.agents, other) == table::lookup(
                st.work.agents,
                other,
            )
            &&& after.next_seq == st.next_seq + 1
            &&& same_but_for_work(after, st)
            &&& after.work == (TranscriptView { agents: after.work.agents, ..st.work })
        }),
{
    lemma_names_differ();
    table::law_lookup_after_store(
        st.work.agents,
        id,
        transcript::agent_started(entry, block, st.next_seq),
        other,
    );
}

/// A call of any other tool starts one under its id, with its name and target and the next
/// number, neither completed nor failed. A call without a name is one of an unknown tool. All
/// else stays.
pub proof fn law_tool_call_starts_a_tool(
    st: StateView,
    entry: Tree,
    block: Tree,
    id: Seq<char>,
    name: Seq<char>,
    other: Seq<char>,
)
    requires
        json::text_member(block, "type"@) == Some("tool_use"@),
        json::text_member(block, "id"@) == Some(id),
        json::text_member(block, "name"@) == Some(name) || (json::text_member(block, "name"@)
            is None && name == "unknown"@),
        name != "Agent"@ && name != "Task"@ && name != "TodoWrite"@ && name != "TaskCreate"@
            && name != "TaskUpdate"@,
        st.next_seq < u64::MAX,
    ensures
        ({
            let after = transcript::after_assistant_block(st, entry, block);
            &&& table::lookup(after.work.tools, id) == Some(
                ToolView {
                    name,
                    target: transcript::target_of(name, input_of(block)),
                    completed: false,
                    error: false,
                    seq: st.next_seq,
                },
            )
            &&& other != id ==> table::lookup(after.work.tools, other) == table::lookup(
                st.work.tools,
                other,
            )
            &&& after.next_seq == st.next_seq + 1
            &&& same_but_for_work(after, st)
            &&& after.work == (TranscriptView { tools: after.work.tools, ..st.work })
        }),
{
    table::law_lookup_after_store(
        st.work.tools,
        id,
        ToolView {
            name,
            target: transcript::target_of(name, input_of(block)),
            completed: false,
            error: false,
            seq: st.next_seq,
        },
        other,
    );
}

/// Writing the todo list replaces it by the items that the input gives, and nothing else; an
/// input without a list changes nothing.
pub proof fn law_todo_call_replaces_the_list(
    st: StateView,
    entry: Tree,
    block: Tree,
    id: Seq<char>,
)
    requires
        calls(block, id, "TodoWrite"@),
    ensures
        match json::array_member_of(input_of(block), "todos"@) {
            Some(items) => transcript::after_assistant_block(st, entry, block) == (StateView {
                work: TranscriptView { todos: transcript::todos_in(items), ..st.work },
                ..st
            }),
            None => transcript::after_assistant_block(st, entry, block) == st,
        },
{
    lemma_names_differ();
}

/// A call that creates a task keeps it under the id of the call, with the status that it gives,
/// pending where it gives none. All else stays.
pub proof fn law_task_call_creates_a_task(
    st: StateView,
    entry: Tree,
    block: Tree,
    id: Seq<char>,
    other: Seq<char>,
)
    requires
        calls(block, id, "TaskCreate"@),
    ensures
        ({
            let after = transcript::after_assistant_block(st, entry, block);
            let word = json::text_member_of(input_of(block), "status"@);
            &&& word is Some ==> table::lookup(after.work.tasks, id) == Some(
                TaskItem { status: transcript::status_of(word->0) },
            )
            &&& word is None ==> table::lookup(after.work.tasks, id) == Some(
                TaskItem { status: TaskStatus::Pending },
            )
            &&& other != id ==> table::lookup(after.work.tasks, other) == table::lookup(
                st.work.tasks,
                other,
            )
            &&& after == (StateView {
                work: TranscriptView { tasks: after.work.tasks, ..st.work },
                ..st
            })
        }),
{
    lemma_names_differ();
    law_status_words("pending"@);
    reveal_strlit("pending");
    reveal_strlit("completed");
    reveal_strlit("complete");
    reveal_strlit("done");
    reveal_strlit("in_progress");
    reveal_strlit("running");
    assert("pending"@[0] == 'p' && "running"@[0] == 'r');
    assert("pending"@.len() == 7 && "completed"@.len() == 9 && "complete"@.len() == 8
        && "done"@.len() == 4 && "in_progress"@.len() == 11);
    table::law_lookup_after_store(
        st.work.tasks,
        id,
        TaskItem {
            status: transcript::status_of(transcript::status_word(input_of(block))),
        },
        other,
    );
}

/// A call that updates a task gives it the new status where it is known; where it is not, or the
/// call names no task or no status, nothing changes. No other task is touched.
pub proof fn law_task_call_updates_a_task(
    st: StateView,
    entry: Tree,
    block: Tree,
    id: Seq<char>,
    other: Seq<char>,
)
    requires
        calls(block, id, "TaskUpdate"@),
    ensures
        ({
            let after = transcript::after_assistant_block(st, entry, block);
            let task_id = json::text_member_of(input_of(block), "taskId"@);
            let word = json::text_member_of(input_of(block), "status"@);
            let known = task_id is Some && word is Some && table::lookup(
                st.work.tasks,
                task_id->0,
            ) is Some;
            &&& !known ==> after == st
            &&& known ==> table::lookup(after.work.tasks, task_id->0) == Some(
                TaskItem { status: transcript::status_of(word->0) },
            )
            &&& known && other != task_id->0 ==> table::lookup(after.work.tasks, other)
                == table::lookup(st.work.tasks, other)
            &&& after == (StateView {
                work: TranscriptView { tasks: after.work.tasks, ..st.work },
                ..st
            })
        }),
{
    lemma_names_differ();
    let task_id = json::text_member_of(input_of(block), "taskId"@);
    let word = json::text_member_of(input_of(block), "status"@);
    if task_id is Some && word is Some {
        table::law_lookup_after_store(
            st.work.tasks,
            task_id->0,
            TaskItem { status: transcript::status_of(word->0) },
            other,
        );
    }
}

/// The body of a result is its text, or the texts of its items one after another; items without
/// a text, and any other content, give nothing.
pub proof fn law_result_body_is_its_texts(block: Tree, items: Seq<Tree>, item: Tree)
    ensures
        json::text_member(block, "content"@) is Some ==> transcript::result_text_of(block)
            == json::text_member(block, "content"@)->0,
        json::array_member_of(Some(block), "content"@) is Some ==> transcript::result_text_of(block)
            == transcript::texts_in(json::array_member_of(Some(block), "content"@)->0),
        json::text_member(block, "content"@) is None && json::array_member_of(
            Some(block),
            "content"@,
        ) is None ==> transcript::result_text_of(block) == Seq::<char>::empty(),
        transcript::texts_in(seq![]) == Seq::<char>::empty(),
        json::text_member(item, "text"@) is Some ==> transcript::texts_in(items.push(item))
            == transcript::texts_in(items) + json::text_member(item, "text"@)->0,
        json::text_member(item, "text"@) is None ==> transcript::texts_in(items.push(item))
            == transcript::texts_in(items),
{
    assert(items.push(item).drop_last() =~= items);
    assert(transcript::texts_in(items) + Seq::<char>::empty() =~= transcript::texts_in(items));
}

/// Whether a block is the result of a call.
pub open spec fn answers(block: Tree, id: Seq<char>) -> bool {
    &&& json::text_member(block, "type"@) == Some("tool_result"@)
    &&& json::text_member(block, "tool_use_id"@) == Some(id)
}

/// A block that is no result, and one that names no call, changes nothing.
pub proof fn law_other_results_change_nothing(st: StateView, block: Tree)
    requires
        json::text_member(block, "type"@) != Some("tool_result"@) || json::text_member(
            block,
            "tool_use_id"@,
        ) is None,
    ensures
        transcript::after_result_block(st, block) == st,
{
}

/// A result completes the agent that was started under its id, whatever that agent is, and
/// changes nothing else of it, nor any other agent.
pub proof fn law_result_completes_its_agent(
    st: StateView,
    block: Tree,
    id: Seq<char>,
    other: Seq<char>,
)
    requires
        answers(block, id),
    ensures
        ({
            let before = table::lookup(st.work.agents, id);
            let after = transcript::after_result_block(st, block).work.agents;
            &&& before is Some ==> {
                let agent = table::lookup(after, id);
                &&& agent is Some
                &&& agent->0.completed
                &&& agent->0.subagent_type == before->0.subagent_type
                &&& agent->0.model == before->0.model
                &&& agent->0.description == before->0.description
                &&& agent->0.start_time == before->0.start_time
                &&& agent->0.seq == before->0.seq
            }
            &&& before is None ==> after == st.work.agents
            &&& other != id ==> table::lookup(after, other) == table::lookup(st.work.agents, other)
            &&& after.len() == st.work.agents.len()
        }),
{
    table::lemma_position(st.work.agents, id);
    if table::lookup(st.work.agents, id) is Some {
        let agent = table::lookup(st.work.agents, id)->0;
        table::law_lookup_after_store(
            st.work.agents,
            id,
            AgentView { completed: true, ..agent },
            other,
        );
    }
}

/// A result completes the tool that was called under its id, failed exactly where the result is
/// marked as an error, and changes nothing else of it, nor any other tool.
pub proof fn law_result_completes_its_tool(
    st: StateView,
    block: Tree,
    id: Seq<char>,
    other: Seq<char>,
)
    requires
        answers(block, id),
    ensures
        ({
            let before = table::lookup(st.work.tools, id);
            let after = transcript::after_result_block(st, block).work.tools;
            &&& before is Some ==> {
                let tool = table::lookup(after, id);
                &&& tool is Some
                &&& tool->0.completed
                &&& tool->0.error <==> json::member_of(block, "is_error"@) == Some(Tree::Bool(true))
                &&& tool->0.name == before->0.name
                &&& tool->0.target == before->0.target
                &&& tool->0.seq == before->0.seq
            }
            &&& before is None ==> after == st.work.tools
            &&& other != id ==> table::lookup(after, other) == table::lookup(st.work.tools, other)
            &&& after.len() == st.work.tools.len()
        }),
{
    table::lemma_position(st.work.tools, id);
    if table::lookup(st.work.tools, id) is Some {
        let tool = table::lookup(st.work.tools, id)->0;
        table::law_lookup_after_store(
            st.work.tools,
            id,
            ToolView {
                completed: true,
                error: json::member_of(block, "is_error"@) == Some(Tree::Bool(true)),
                ..tool
            },
            other,
        );
    }
}

/// A result that gives a number moves the task that its call created from the id to the number,
/// with the status as it was; any other result leaves the tasks alone. Todo items, the numbers
/// and all beside the work stay.
pub proof fn law_result_renames_its_task(
    st: StateView,
    block: Tree,
    id: Seq<char>,
    other: Seq<char>,
)
    requires
        table::unique_keys(st.work.tasks),
        answers(block, id),
    ensures
        ({
            let after = transcript::after_result_block(st, block);
            let task = table::lookup(st.work.tasks, id);
            let number = transcript::task_id_in(transcript::result_text_of(block));
            &&& task is Some && number is Some ==> {
                &&& table::lookup(after.work.tasks, number->0) == task
                &&& number->0 != id ==> table::lookup(after.work.tasks, id) is None
                &&& other != id && other != number->0 ==> table::lookup(after.work.tasks, other)
                    == table::lookup(st.work.tasks, other)
            }
            &&& task is None || number is None ==> after.work.tasks == st.work.tasks
            &&& after.work.todos == st.work.todos
            &&& after == (StateView { work: after.work, ..st })
        }),
{
    let task = table::lookup(st.work.tasks, id);
    let number = transcript::task_id_in(transcript::result_text_of(block));
    if task is Some && number is Some {
        let without = table::removed(st.work.tasks, id);
        table::law_lookup_after_remove(st.work.tasks, id, other);
        table::law_lookup_after_remove(st.work.tasks, id, number->0);
        table::law_lookup_after_store(without, number->0, task->0, other);
        table::law_lookup_after_store(without, number->0, task->0, id);
    }
}

/// The content blocks of an entry.
pub open spec fn blocks_of(entry: Tree) -> Seq<Tree> {
    let found = json::array_member_of(json::member_of(entry, "message"@), "content"@);
    if found is Some {
        found->0
    } else {
        seq![]
    }
}

/// The state once the parent session is noted: the one that the entry names, unless one is known.
pub open spec fn noted(st: StateView, entry: Tree) -> StateView {
    StateView {
        parent_session_id: if st.parent_session_id is Some {
            st.parent_session_id
        } else {
            json::text_member_of(json::member_of(entry, "forkedFrom"@), "sessionId"@)
        },
        ..st
    }
}

/// An entry of the assistant applies its blocks as calls, one of the user as results, any other
/// none. Whatever the entry is, the first word on the parent session counts.
pub proof fn law_entry_applies_its_blocks(st: StateView, entry: Tree)
    ensures
        ({
            let kind = json::text_member(entry, "type"@);
            &&& kind == Some("assistant"@) ==> transcript::after_entry(st, entry)
                == transcript::after_assistant_blocks(noted(st, entry), entry, blocks_of(entry))
            &&& kind == Some("user"@) ==> transcript::after_entry(st, entry)
                == transcript::after_result_blocks(noted(st, entry), blocks_of(entry))
            &&& kind != Some("assistant"@) && kind != Some("user"@) ==> transcript::after_entry(
                st,
                entry,
            ) == noted(st, entry)
        }),
{
    lemma_names_differ();
    assert(transcript::after_fork_note(st, entry) == noted(st, entry));
}

/// Blocks and entries are applied one after another, each to what the one before left.
pub proof fn law_blocks_and_entries_in_turn(
    st: StateView,
    entry: Tree,
    blocks: Seq<Tree>,
    entries: Seq<Tree>,
    next: Tree,
)
    ensures
        transcript::after_assistant_blocks(st, entry, seq![]) == st,
        transcript::after_assistant_blocks(st, entry, blocks.push(next))
            == transcript::after_assistant_block(
            transcript::after_assistant_blocks(st, entry, blocks),
            entry,
            next,
        ),
        transcript::after_result_blocks(st, seq![]) == st,
        transcript::after_result_blocks(st, blocks.push(next)) == transcript::after_result_block(
            transcript::after_result_blocks(st, blocks),
            next,
        ),
        transcript::after_entries(st, seq![]) == st,
        transcript::after_entries(st, entries.push(next)) == transcript::after_entry(
            transcript::after_entries(st, entries),
            next,
        ),
{
    assert(blocks.push(next).drop_last() =~= blocks);
    assert(entries.push(next).drop_last() =~= entries);
}

/// A line that is a JSON text is one entry, with or without a line break behind it.
pub proof fn law_line_is_an_entry(line: Seq<u8>, entry: Tree)
    requires
        line.len() > 0,
        forall|i: int| 0 <= i < line.len() ==> line[i] != 10,
        json::json_of(line) == Some(entry),
    ensures
        transcript::entries_in(line) == seq![entry],
        transcript::entries_in(line.push(10)) == seq![entry],
{
    lemma_one_piece(line);
    let lines = text::pieces(line, 10);
    reveal_with_fuel(transcript::entries_of, 3);
    assert(lines.drop_last() =~= Seq::<Seq<u8>>::empty());
    assert(transcript::entries_in(line) =~= seq![entry]);
    let whole = line.push(10);
    assert(whole.drop_last() =~= line);
    let pieces = text::pieces(whole, 10);
    assert(pieces.drop_last() =~= lines);
    assert(pieces.last() =~= Seq::<u8>::empty());
    assert(transcript::entries_in(whole) =~= seq![entry]);
}

proof fn lemma_one_piece(s: Seq<u8>)
    requires
        forall|i: int| 0 <= i < s.len() ==> s[i] != 10,
    ensures
        text::pieces(s, 10) == seq![s],
    decreases s.len(),
{
    if s.len() > 0 {
        let front = s.drop_last();
        assert forall|i: int| 0 <= i < front.len() implies front[i] != 10 by {
            assert(front[i] == s[i]);
        }
        lemma_one_piece(front);
        assert(s[s.len() - 1] != 10);
        assert(front.push(s.last()) =~= s);
        assert(text::pieces(s, 10) =~= seq![s]);
    } else {
        assert(s =~= Seq::<u8>::empty());
        assert(text::pieces(s, 10) =~= seq![s]);
    }
}

/// The same file, grown or as long as before, is read on from where it was left; any other file,
/// or one that shrank, is read from its start into a state without work. The place that was
/// reached is the end of the file, and what is shown is the work.
pub proof fn law_file_is_read_on_or_afresh(st: StateView, file: FileView, contents: Seq<u8>)
    requires
        file.file_size > 0,
        file.contents == Some(contents),
        contents.len() <= u64::MAX,
    ensures
        ({
            let same = file.inode == st.inode && file.file_size >= st.file_size;
            let found = StateView { inode: file.inode, file_size: file.file_size, ..st };
            let fresh = StateView {
                byte_offset: 0,
                next_seq: 0,
                work: TranscriptView { tools: seq![], agents: seq![], todos: seq![], tasks: seq![] },
                ..found
            };
            let after = transcript::after_file(st, file);
            &&& same && st.byte_offset <= contents.len() ==> after == (StateView {
                byte_offset: contents.len() as u64,
                ..transcript::after_entries(
                    found,
                    transcript::entries_in(contents.skip(st.byte_offset as int)),
                )
            })
            &&& same && st.byte_offset > contents.len() ==> after == (StateView {
                byte_offset: contents.len() as u64,
                ..found
            })
            &&& !same ==> after == (StateView {
                byte_offset: contents.len() as u64,
                ..transcript::after_entries(fresh, transcript::entries_in(contents))
            })
            &&& transcript::shown_after_file(st, file) == after.work
        }),
{
    let same = file.inode == st.inode && file.file_size >= st.file_size;
    assert(contents.skip(0) =~= contents);
    if same && st.byte_offset > contents.len() {
        transcript::law_entries_of_parts(Seq::<u8>::empty(), Seq::<u8>::empty());
        reveal_with_fuel(transcript::entries_of, 2);
        assert(text::pieces(Seq::<u8>::empty(), 10).drop_last() =~= Seq::<Seq<u8>>::empty());
        assert(transcript::entries_in(Seq::<u8>::empty()) =~= Seq::<Tree>::empty());
    }
}

/// An empty file changes nothing; one that cannot be read is noted, and what it replaces is
/// forgotten. Of neither anything is shown.
pub proof fn law_empty_and_unreadable_files(st: StateView, file: FileView)
    ensures
        file.file_size == 0 ==> transcript::after_file(st, file) == st,
        file.file_size > 0 && file.contents is None ==> {
            let same = file.inode == st.inode && file.file_size >= st.file_size;
            let found = StateView { inode: file.inode, file_size: file.file_size, ..st };
            &&& same ==> transcript::after_file(st, file) == found
            &&& !same ==> transcript::after_file(st, file) == (StateView {
                byte_offset: 0,
                next_seq: 0,
                work: TranscriptView { tools: seq![], agents: seq![], todos: seq![], tasks: seq![] },
                ..found
            })
        },
        file.file_size == 0 || file.contents is None ==> {
            let shown = transcript::shown_after_file(st, file);
            shown.tools.len() == 0 && shown.agents.len() == 0 && shown.todos.len() == 0
                && shown.tasks.len() == 0
        },
{
}

/// A block can be applied unless it calls the shell with a command of more than thirty bytes
/// that has a character across the thirtieth.
pub proof fn law_block_is_applicable_unless_its_command_is_cut(block: Tree)
    ensures
        !transcript::block_fits(block) <==> {
            let command = json::text_member_of(input_of(block), "command"@);
            &&& json::text_member(block, "type"@) == Some("tool_use"@)
            &&& json::text_member(block, "id"@) is Some
            &&& json::text_member(block, "name"@) == Some("Bash"@)
            &&& command is Some
            &&& encode_utf8(command->0).len() > 30
            &&& !is_char_boundary(encode_utf8(command->0), 30)
        },
{
    reveal_strlit("unknown");
    reveal_strlit("Bash");
    assert("unknown"@.len() == 7 && "Bash"@.len() == 4);
}

/// A call takes a number unless it is one on the todo list or on tasks; entries of the assistant
/// take as many as their calls, others none.
pub proof fn law_calls_take_numbers(
    blocks: Seq<Tree>,
    block: Tree,
    entries: Seq<Tree>,
    entry: Tree,
)
    ensures
        ({
            let name = json::text_member(block, "name"@);
            let takes = json::text_member(block, "type"@) == Some("tool_use"@) && json::text_member(
                block,
                "id"@,
            ) is Some && name != Some("TodoWrite"@) && name != Some("TaskCreate"@) && name != Some(
                "TaskUpdate"@,
            );
            &&& takes ==> transcript::numbered_blocks(blocks.push(block))
                == transcript::numbered_blocks(blocks) + 1
            &&& !takes ==> transcript::numbered_blocks(blocks.push(block))
                == transcript::numbered_blocks(blocks)
        }),
        transcript::numbered_blocks(seq![]) == 0,
        transcript::numbered_entries(seq![]) == 0,
        json::text_member(entry, "type"@) == Some("assistant"@) ==> transcript::numbered_entries(
            entries.push(entry),
        ) == transcript::numbered_entries(entries) + transcript::numbered_blocks(blocks_of(entry)),
        json::text_member(entry, "type"@) != Some("assistant"@) ==> transcript::numbered_entries(
            entries.push(entry),
        ) == transcript::numbered_entries(entries),
{
    lemma_names_differ();
    assert(blocks.push(block).drop_last() =~= blocks);
    assert(entries.push(entry).drop_last() =~= entries);
    reveal_with_fuel(transcript::numbered_blocks, 2);
}

/// Entries can be applied where every block of every entry of the assistant can, and the numbers
/// suffice; a file where its new entries can, and always where it is empty.
pub proof fn law_entries_are_applicable_where_their_blocks_are(
    entries: Seq<Tree>,
    next_seq: int,
    st: StateView,
    file: FileView,
)
    ensures
        transcript::entries_fit(entries, next_seq) <==> {
            &&& next_seq + transcript::numbered_entries(entries) <= u64::MAX
            &&& forall|i: int, k: int|
                0 <= i < entries.len() && json::text_member(entries[i], "type"@) == Some(
                    "assistant"@,
                ) && 0 <= k < blocks_of(entries[i]).len() ==> transcript::block_fits(
                    #[trigger] blocks_of(entries[i])[k],
                )
        },
        file.file_size == 0 ==> transcript::file_fits(st, file),
        file.file_size > 0 ==> {
            let same = file.inode == st.inode && file.file_size >= st.file_size;
            let first = if same {
                st.next_seq as int
            } else {
                0
            };
            transcript::file_fits(st, file) <==> transcript::entries_fit(
                transcript::new_entries(st, file),
                first,
            )
        },
{
    if forall|i: int, k: int|
        0 <= i < entries.len() && json::text_member(entries[i], "type"@) == Some("assistant"@) && 0
            <= k < blocks_of(entries[i]).len() ==> transcript::block_fits(
            #[trigger] blocks_of(entries[i])[k],
        ) {
        assert forall|i: int| 0 <= i < entries.len() implies transcript::blocks_fit(
            transcript::calls_of(#[trigger] entries[i]),
        ) by {
            let calls = transcript::calls_of(entries[i]);
            assert forall|k: int| 0 <= k < calls.len() implies transcript::block_fits(
                #[trigger] calls[k],
            ) by {
                assert(calls == blocks_of(entries[i]));
                assert(transcript::block_fits(blocks_of(entries[i])[k]));
            }
        }
    }
    if forall|i: int|
        0 <= i < entries.len() ==> transcript::blocks_fit(
            transcript::calls_of(#[trigger] entries[i]),
        ) {
        assert forall|i: int, k: int|
            0 <= i < entries.len() && json::text_member(entries[i], "type"@) == Some("assistant"@)
                && 0 <= k < blocks_of(entries[i]).len() implies transcript::block_fits(
            #[trigger] blocks_of(entries[i])[k],
        ) by {
            let calls = transcript::calls_of(entries[i]);
            assert(calls == blocks_of(entries[i]));
            assert(transcript::block_fits(calls[k]));
        }
    }
}

} // verus!
