//! What the specifications see of a value is the value: field by field, nothing added, nothing
//! left out.

use crate::clock;
use crate::json;
use crate::render;
use crate::state;
use crate::state::SavePlan;
use crate::timeline;
use crate::timeline::TimelineItem;
use crate::transcript;
use crate::transcript::TranscriptFile;
use crate::types;
use crate::types::{
    AgentEntry, CacheStatus, Config, ConfigView, GitInfo, GitView, State, StdinData, StdinView,
    TaskItem, TodoItem, ToolEntry, TranscriptData, TranscriptView, UsageInfo,
};
use vstd::prelude::*;
use vstd::string::*;
use vstd::utf8::*;

verus! {

/// Tools, agents, todo items and tasks are seen as they are.
pub proof fn law_entries_are_seen_as_they_are(
    tool: ToolEntry,
    agent: AgentEntry,
    todo: TodoItem,
    task: TaskItem,
)
    ensures
        tool@.name == tool.name@,
        tool@.target == tool.target.deep_view(),
        tool@.completed == tool.completed && tool@.error == tool.error && tool@.seq == tool.seq,
        agent@.subagent_type == agent.subagent_type.deep_view(),
        agent@.model == agent.model.deep_view(),
        agent@.description == agent.description.deep_view(),
        agent@.start_time == agent.start_time,
        agent@.completed == agent.completed && agent@.seq == agent.seq,
        todo@.content == todo.content@ && todo@.completed == todo.completed,
        task@ == task,
{
}

/// A list of todo items, one of runs and one of timeline items are seen item by item.
pub proof fn law_lists_are_seen_item_by_item(
    todos: Seq<TodoItem>,
    groups: Seq<(&str, usize)>,
    items: Seq<TimelineItem>,
    values: Seq<serde_json::Value>,
    i: int,
)
    ensures
        types::todo_views(todos).len() == todos.len(),
        0 <= i < todos.len() ==> types::todo_views(todos)[i] == todos[i]@,
        timeline::group_views(groups).len() == groups.len(),
        0 <= i < groups.len() ==> timeline::group_views(groups)[i] == (
            groups[i].0@,
            groups[i].1 as nat,
        ),
        timeline::item_views(items).len() == items.len(),
        0 <= i < items.len() ==> timeline::item_views(items)[i] == items[i]@,
        json::trees(values).len() == values.len(),
        0 <= i < values.len() ==> json::trees(values)[i] == json::tree_of(values[i]),
{
}

/// A timeline item is seen as it is.
pub proof fn law_timeline_item_is_seen_as_it_is(item: TimelineItem)
    ensures
        item@.kind == item.kind && item@.name == item.name@,
        item@.target == item.target.deep_view() && item@.model == item.model.deep_view(),
        item@.seq == item.seq && item@.completed == item.completed,
        item@.start_time == item.start_time,
{
}

/// A state is seen as it is.
pub proof fn law_state_is_seen_as_it_is(st: State)
    ensures
        st@.version == st.version && st@.byte_offset == st.byte_offset,
        st@.inode == st.inode && st@.file_size == st.file_size,
        st@.work.tools == st.tools@ && st@.work.agents == st.agents@,
        st@.work.todos == types::todo_views(st.todos@) && st@.work.tasks == st.tasks@,
        st@.git_index_mtime == st.git_index_mtime,
        st@.cached_rate_limits == st.cached_rate_limits,
        st@.next_seq == st.next_seq,
        st@.last_total_input_tokens == st.last_total_input_tokens,
        st@.last_cache_hit == st.last_cache_hit && st@.last_cache_miss == st.last_cache_miss,
        st@.last_cost_usd == st.last_cost_usd && st@.last_poll_time == st.last_poll_time,
        st@.parent_session_id == st.parent_session_id.deep_view(),
        state::stored_view(Some(st)) == Some(st@),
        state::stored_view(None) is None,
{
}

/// A report is seen as it is.
pub proof fn law_report_is_seen_as_it_is(data: StdinData)
    ensures
        data.model is Some ==> data@.model == Some(data.model->0.display_name.deep_view()),
        data.model is None ==> data@.model is None,
        data@.context_window == data.context_window,
        data@.transcript_path == data.transcript_path.deep_view(),
        data@.session_id == data.session_id.deep_view(),
        data@.session_name == data.session_name.deep_view(),
        data@.cwd == data.cwd.deep_view(),
        data@.cost == data.cost && data@.rate_limits == data.rate_limits,
{
}

/// Settings, a branch, usage, a transcript, a file and a plan are seen as they are.
pub proof fn law_the_rest_is_seen_as_it_is(
    config: Config,
    git: &GitInfo,
    usage: &UsageInfo,
    data: TranscriptData,
    file: TranscriptFile,
    plan: SavePlan,
)
    ensures
        config@.separator == config.separator.deep_view() && config@.colors == config.colors,
        config@.path_levels == config.path_levels,
        config@.context_warning == config.context_warning,
        config@.context_critical == config.context_critical,
        git@.branch == git.branch@ && git@.dirty == git.dirty,
        render::git_view(Some(git)) == Some(git@) && render::git_view(None) is None,
        render::usage_of(Some(usage)) == Some(*usage) && render::usage_of(None) is None,
        data@.tools == data.tools@ && data@.agents == data.agents@,
        data@.todos == types::todo_views(data.todos@) && data@.tasks == data.tasks@,
        file@.inode == file.inode && file@.file_size == file.file_size,
        file.contents is Some ==> file@.contents == Some(file.contents->0@),
        file.contents is None ==> file@.contents is None,
        plan@.state == plan.state.deep_view(),
        match plan.limits {
            Some((path, limits)) => plan@.limits == Some((path@, limits)),
            None => plan@.limits is None,
        },
{
}

/// A transcript that says nothing holds nothing.
pub proof fn law_empty_transcript_holds_nothing()
    ensures
        types::empty_transcript().tools.len() == 0,
        types::empty_transcript().agents.len() == 0,
        types::empty_transcript().todos.len() == 0,
        types::empty_transcript().tasks.len() == 0,
{
}

/// A line is that of a moment exactly where it is the status line at that moment, with a clock
/// that some time zone shows.
pub proof fn law_line_is_that_of_the_moment(
    line: Seq<char>,
    data: StdinView,
    config: ConfigView,
    work: TranscriptView,
    git: Option<GitView>,
    usage: Option<UsageInfo>,
    cache: CacheStatus,
    now: int,
)
    ensures
        render::is_line_at(line, data, config, work, git, usage, cache, now) <==> exists|
            shown: Seq<char>,
        |
            #[trigger] render::is_reset_clock(shown, usage, now) && line == render::status_line(
                data,
                config,
                work,
                git,
                usage,
                cache,
                now,
                shown,
            ),
{
}

/// What a clock shows at a second is an hour and a minute less than a day from those of UTC, and
/// nothing beyond the years that can be represented.
pub proof fn law_clock_is_less_than_a_day_off(shown: Seq<char>, second: int)
    requires
        clock::clock_shows(shown, second),
    ensures
        clock::FIRST_SECOND <= second <= clock::LAST_SECOND ==> exists|ahead: int|
            -86400 < ahead < 86400 && shown == #[trigger] clock::wall_clock(second + ahead),
        !(clock::FIRST_SECOND <= second <= clock::LAST_SECOND) ==> shown == Seq::<char>::empty(),
{
    let offset = choose|offset: Option<i64>|
        #[trigger] clock::is_offset_at(offset, second) && shown == clock::clock_with(
            second,
            offset,
        );
    if offset is Some {
        let ahead = offset->0 as int;
        assert(shown == clock::wall_clock(second + ahead));
    }
}

/// A text can be shortened where it is short enough or no character lies across the cut.
pub proof fn law_text_can_be_cut_between_characters(s: Seq<char>, max: nat)
    ensures
        transcript::can_truncate(s, max) <==> encode_utf8(s).len() <= max || is_char_boundary(
            encode_utf8(s),
            max as int,
        ),
{
}

} // verus!
