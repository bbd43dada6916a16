//! The values that the library works on, and their mathematical views.

use crate::number::Double;
use crate::table::{Duplicate, Rows, Table};
use vstd::prelude::*;

verus! {

/// What the host program reports about the session on each invocation.
#[derive(Debug)]
pub struct StdinData {
    pub model: Option<Model>,
    pub context_window: Option<ContextWindow>,
    pub transcript_path: Option<String>,
    pub session_id: Option<String>,
    pub session_name: Option<String>,
    pub cwd: Option<String>,
    pub cost: Option<Cost>,
    pub rate_limits: Option<RateLimits>,
}

/// The cumulative cost of the session.
#[derive(Debug, Clone, Copy, PartialEq, Eq, Structural)]
pub struct Cost {
    pub total_cost_usd: Option<Double>,
}

#[derive(Debug, Clone, Copy, PartialEq, Eq, Structural)]
pub struct RateLimits {
    pub five_hour: Option<RateWindow>,
    pub seven_day: Option<RateWindow>,
}

#[derive(Debug, Clone, Copy, PartialEq, Eq, Structural)]
pub struct RateWindow {
    pub used_percentage: Option<Double>,
    pub resets_at: Option<i64>,
}

/// Usage of the rate limits, with the seconds that remain until each window resets.
#[derive(Debug, Clone, Copy, PartialEq, Eq, Structural)]
pub struct UsageInfo {
    pub usage_5h: Option<Double>,
    /// Carried along but not rendered.
    pub usage_7d: Option<Double>,
    pub reset_5h: Option<i64>,
    /// Carried along but not rendered.
    pub reset_7d: Option<i64>,
}

/// The last known rate limits, with the Unix times at which each window resets.
#[derive(Debug, Clone, Copy, PartialEq, Eq, Structural)]
pub struct CachedRateLimits {
    pub usage_5h: Option<Double>,
    pub usage_7d: Option<Double>,
    pub resets_at_5h: Option<i64>,
    pub resets_at_7d: Option<i64>,
}

#[derive(Debug)]
pub struct Model {
    pub display_name: Option<String>,
}

#[derive(Debug, Clone, Copy, PartialEq, Eq, Structural)]
pub struct ContextWindow {
    pub used_percentage: Option<u8>,
    pub total_input_tokens: Option<u64>,
    pub current_usage: Option<CurrentUsage>,
}

#[derive(Debug, Clone, Copy, PartialEq, Eq, Structural)]
pub struct CurrentUsage {
    pub cache_creation_input_tokens: Option<u64>,
    pub cache_read_input_tokens: Option<u64>,
}

/// When the prompt cache was last hit and last missed.
#[derive(Debug, Clone, Copy, PartialEq, Eq, Structural)]
pub struct CacheStatus {
    pub last_cache_hit: Option<i64>,
    pub last_cache_miss: Option<i64>,
}

/// The checked-out branch, and whether the working tree differs from it.
#[derive(Debug, Clone)]
pub struct GitInfo {
    pub branch: String,
    pub dirty: bool,
}

/// The user's settings; what is not set has a default.
#[derive(Debug)]
pub struct Config {
    pub separator: Option<String>,
    pub colors: Option<bool>,
    pub path_levels: Option<u8>,
    pub context_warning: Option<u8>,
    pub context_critical: Option<u8>,
}

/// What is kept between two invocations for one session.
#[derive(Debug, Clone)]
pub struct State {
    pub version: u32,
    pub byte_offset: u64,
    pub inode: u64,
    pub file_size: u64,
    pub tools: Table<ToolEntry>,
    pub agents: Table<AgentEntry>,
    pub todos: Vec<TodoItem>,
    pub tasks: Table<TaskItem>,
    pub git_index_mtime: Option<i64>,
    pub cached_rate_limits: Option<CachedRateLimits>,
    pub next_seq: u64,
    /// Baseline for turn detection; absent when nothing is known yet.
    pub last_total_input_tokens: Option<u64>,
    /// Unix time of the last confirmed cache hit; absent when cold or unknown.
    pub last_cache_hit: Option<i64>,
    /// Unix time of the last cold miss.
    pub last_cache_miss: Option<i64>,
    /// Cumulative session cost at the previous poll.
    pub last_cost_usd: Option<Double>,
    /// Unix time of the previous poll.
    pub last_poll_time: Option<i64>,
    /// The session that this one was forked from.
    pub parent_session_id: Option<String>,
}

#[derive(Debug, Clone)]
pub struct ToolEntry {
    pub name: String,
    pub target: Option<String>,
    pub completed: bool,
    pub error: bool,
    pub seq: u64,
}

#[derive(Debug, Clone)]
pub struct AgentEntry {
    pub subagent_type: Option<String>,
    pub model: Option<String>,
    pub description: Option<String>,
    pub start_time: Option<i64>,
    pub completed: bool,
    pub seq: u64,
}

#[derive(Debug, Clone)]
pub struct TodoItem {
    pub content: String,
    pub completed: bool,
}

#[derive(Debug, Clone, Copy, PartialEq, Eq, Structural)]
pub enum TaskStatus {
    Pending,
    InProgress,
    Completed,
}

#[derive(Debug, Clone, Copy, PartialEq, Eq, Structural)]
pub struct TaskItem {
    pub status: TaskStatus,
}

/// What a transcript says about the work in the session.
#[derive(Debug)]
pub struct TranscriptData {
    pub tools: Table<ToolEntry>,
    pub agents: Table<AgentEntry>,
    pub todos: Vec<TodoItem>,
    pub tasks: Table<TaskItem>,
}

/// A tool call as the specifications see it.
#[verifier::ext_equal]
pub struct ToolView {
    pub name: Seq<char>,
    pub target: Option<Seq<char>>,
    pub completed: bool,
    pub error: bool,
    pub seq: u64,
}

impl View for ToolEntry {
    type V = ToolView;

    open spec fn view(&self) -> ToolView {
        ToolView {
            name: self.name@,
            target: self.target.deep_view(),
            completed: self.completed,
            error: self.error,
            seq: self.seq,
        }
    }
}

/// A subagent as the specifications see it.
#[verifier::ext_equal]
pub struct AgentView {
    pub subagent_type: Option<Seq<char>>,
    pub model: Option<Seq<char>>,
    pub description: Option<Seq<char>>,
    pub start_time: Option<i64>,
    pub completed: bool,
    pub seq: u64,
}

impl View for AgentEntry {
    type V = AgentView;

    open spec fn view(&self) -> AgentView {
        AgentView {
            subagent_type: self.subagent_type.deep_view(),
            model: self.model.deep_view(),
            description: self.description.deep_view(),
            start_time: self.start_time,
            completed: self.completed,
            seq: self.seq,
        }
    }
}

/// A todo item as the specifications see it.
#[verifier::ext_equal]
pub struct TodoView {
    pub content: Seq<char>,
    pub completed: bool,
}

impl View for TodoItem {
    type V = TodoView;

    open spec fn view(&self) -> TodoView {
        TodoView { content: self.content@, completed: self.completed }
    }
}

impl View for TaskItem {
    type V = TaskItem;

    open spec fn view(&self) -> TaskItem {
        *self
    }
}

/// The todo items of a list as the specifications see them.
pub open spec fn todo_views(todos: Seq<TodoItem>) -> Seq<TodoView> {
    todos.map_values(|todo: TodoItem| todo@)
}

/// The contents of a transcript as the specifications see them.
#[verifier::ext_equal]
pub struct TranscriptView {
    pub tools: Rows<ToolView>,
    pub agents: Rows<AgentView>,
    pub todos: Seq<TodoView>,
    pub tasks: Rows<TaskItem>,
}

impl View for TranscriptData {
    type V = TranscriptView;

    open spec fn view(&self) -> TranscriptView {
        TranscriptView {
            tools: self.tools@,
            agents: self.agents@,
            todos: todo_views(self.todos@),
            tasks: self.tasks@,
        }
    }
}

/// A transcript that says nothing.
pub open spec fn empty_transcript() -> TranscriptView {
    TranscriptView { tools: seq![], agents: seq![], todos: seq![], tasks: seq![] }
}

/// The kept state as the specifications see it.
#[verifier::ext_equal]
pub struct StateView {
    pub version: u32,
    pub byte_offset: u64,
    pub inode: u64,
    pub file_size: u64,
    pub work: TranscriptView,
    pub git_index_mtime: Option<i64>,
    pub cached_rate_limits: Option<CachedRateLimits>,
    pub next_seq: u64,
    pub last_total_input_tokens: Option<u64>,
    pub last_cache_hit: Option<i64>,
    pub last_cache_miss: Option<i64>,
    pub last_cost_usd: Option<Double>,
    pub last_poll_time: Option<i64>,
    pub parent_session_id: Option<Seq<char>>,
}

impl View for State {
    type V = StateView;

    open spec fn view(&self) -> StateView {
        StateView {
            version: self.version,
            byte_offset: self.byte_offset,
            inode: self.inode,
            file_size: self.file_size,
            work: TranscriptView {
                tools: self.tools@,
                agents: self.agents@,
                todos: todo_views(self.todos@),
                tasks: self.tasks@,
            },
            git_index_mtime: self.git_index_mtime,
            cached_rate_limits: self.cached_rate_limits,
            next_seq: self.next_seq,
            last_total_input_tokens: self.last_total_input_tokens,
            last_cache_hit: self.last_cache_hit,
            last_cache_miss: self.last_cache_miss,
            last_cost_usd: self.last_cost_usd,
            last_poll_time: self.last_poll_time,
            parent_session_id: self.parent_session_id.deep_view(),
        }
    }
}

/// The state of a session of which nothing is known.
pub open spec fn fresh_state() -> StateView {
    StateView {
        version: 0,
        byte_offset: 0,
        inode: 0,
        file_size: 0,
        work: empty_transcript(),
        git_index_mtime: None,
        cached_rate_limits: None,
        next_seq: 0,
        last_total_input_tokens: None,
        last_cache_hit: None,
        last_cache_miss: None,
        last_cost_usd: None,
        last_poll_time: None,
        parent_session_id: None,
    }
}

/// The report as the specifications see it.
#[verifier::ext_equal]
pub struct StdinView {
    /// The name of the model, where it has one.
    pub model: Option<Option<Seq<char>>>,
    pub context_window: Option<ContextWindow>,
    pub transcript_path: Option<Seq<char>>,
    pub session_id: Option<Seq<char>>,
    pub session_name: Option<Seq<char>>,
    pub cwd: Option<Seq<char>>,
    pub cost: Option<Cost>,
    pub rate_limits: Option<RateLimits>,
}

impl StdinView {
    /// The name of the model: absent where no model is reported, and where it has no name.
    pub open spec fn model_name(self) -> Option<Seq<char>> {
        match self.model {
            Some(name) => name,
            None => None,
        }
    }
}

impl View for Model {
    type V = Option<Seq<char>>;

    open spec fn view(&self) -> Option<Seq<char>> {
        self.display_name.deep_view()
    }
}

impl View for StdinData {
    type V = StdinView;

    open spec fn view(&self) -> StdinView {
        StdinView {
            model: match self.model {
                Some(model) => Some(model@),
                None => None,
            },
            context_window: self.context_window,
            transcript_path: self.transcript_path.deep_view(),
            session_id: self.session_id.deep_view(),
            session_name: self.session_name.deep_view(),
            cwd: self.cwd.deep_view(),
            cost: self.cost,
            rate_limits: self.rate_limits,
        }
    }
}

/// The branch as the specifications see it.
#[verifier::ext_equal]
pub struct GitView {
    pub branch: Seq<char>,
    pub dirty: bool,
}

impl View for GitInfo {
    type V = GitView;

    open spec fn view(&self) -> GitView {
        GitView { branch: self.branch@, dirty: self.dirty }
    }
}

/// The settings as the specifications see them.
#[verifier::ext_equal]
pub struct ConfigView {
    pub separator: Option<Seq<char>>,
    pub colors: Option<bool>,
    pub path_levels: Option<u8>,
    pub context_warning: Option<u8>,
    pub context_critical: Option<u8>,
}

impl View for Config {
    type V = ConfigView;

    open spec fn view(&self) -> ConfigView {
        ConfigView {
            separator: self.separator.deep_view(),
            colors: self.colors,
            path_levels: self.path_levels,
            context_warning: self.context_warning,
            context_critical: self.context_critical,
        }
    }
}

/// The settings when nothing is set.
pub open spec fn unset_config() -> ConfigView {
    ConfigView {
        separator: None,
        colors: None,
        path_levels: None,
        context_warning: None,
        context_critical: None,
    }
}

impl ConfigView {
    /// The separator between sections.
    pub open spec fn separator(self) -> Seq<char> {
        match self.separator {
            Some(s) => s,
            None => " │ "@,
        }
    }

    /// Whether to emit color codes.
    pub open spec fn colors(self) -> bool {
        self.colors != Some(false)
    }

    /// How many trailing components of the working directory to show.
    pub open spec fn path_levels(self) -> int {
        match self.path_levels {
            Some(n) => if n < 1 {
                1
            } else if n > 3 {
                3
            } else {
                n as int
            },
            None => 1,
        }
    }

    /// The percentage from which the context counts as filling up.
    pub open spec fn context_warning(self) -> int {
        match self.context_warning {
            Some(n) => n as int,
            None => 70,
        }
    }

    /// The percentage above which the context counts as nearly full.
    pub open spec fn context_critical(self) -> int {
        match self.context_critical {
            Some(n) => n as int,
            None => 85,
        }
    }
}

impl Config {
    pub fn separator(&self) -> (separator: &str)
        ensures
            separator@ == self@.separator(),
    {
        match &self.separator {
            Some(s) => s.as_str(),
            None => " │ ",
        }
    }

    pub fn colors(&self) -> (enabled: bool)
        ensures
            enabled == self@.colors(),
    {
        match self.colors {
            Some(enabled) => enabled,
            None => true,
        }
    }

    pub fn path_levels(&self) -> (levels: u8)
        ensures
            levels == self@.path_levels(),
            1 <= levels <= 3,
    {
        match self.path_levels {
            Some(n) => if n < 1 {
                1
            } else if n > 3 {
                3
            } else {
                n
            },
            None => 1,
        }
    }
}

impl Default for StdinData {
    fn default() -> (data: StdinData)
        ensures
            data@ == (StdinView {
                model: None,
                context_window: None,
                transcript_path: None,
                session_id: None,
                session_name: None,
                cwd: None,
                cost: None,
                rate_limits: None,
            }),
    {
        StdinData {
            model: None,
            context_window: None,
            transcript_path: None,
            session_id: None,
            session_name: None,
            cwd: None,
            cost: None,
            rate_limits: None,
        }
    }
}

impl Default for ContextWindow {
    fn default() -> (window: ContextWindow)
        ensures
            window == (ContextWindow {
                used_percentage: None,
                total_input_tokens: None,
                current_usage: None,
            }),
    {
        ContextWindow { used_percentage: None, total_input_tokens: None, current_usage: None }
    }
}

impl Default for CurrentUsage {
    fn default() -> (usage: CurrentUsage)
        ensures
            usage == (CurrentUsage {
                cache_creation_input_tokens: None,
                cache_read_input_tokens: None,
            }),
    {
        CurrentUsage { cache_creation_input_tokens: None, cache_read_input_tokens: None }
    }
}

impl Default for CacheStatus {
    fn default() -> (status: CacheStatus)
        ensures
            status == (CacheStatus { last_cache_hit: None, last_cache_miss: None }),
    {
        CacheStatus { last_cache_hit: None, last_cache_miss: None }
    }
}

impl Default for CachedRateLimits {
    fn default() -> (limits: CachedRateLimits)
        ensures
            limits == (CachedRateLimits {
                usage_5h: None,
                usage_7d: None,
                resets_at_5h: None,
                resets_at_7d: None,
            }),
    {
        CachedRateLimits { usage_5h: None, usage_7d: None, resets_at_5h: None, resets_at_7d: None }
    }
}

impl Default for Config {
    fn default() -> (config: Config)
        ensures
            config@ == unset_config(),
    {
        Config {
            separator: None,
            colors: None,
            path_levels: None,
            context_warning: None,
            context_critical: None,
        }
    }
}

impl Default for State {
    fn default() -> (state: State)
        ensures
            state@ == fresh_state(),
    {
        let state = State {
            version: 0,
            byte_offset: 0,
            inode: 0,
            file_size: 0,
            tools: Table::new(),
            agents: Table::new(),
            todos: Vec::new(),
            tasks: Table::new(),
            git_index_mtime: None,
            cached_rate_limits: None,
            next_seq: 0,
            last_total_input_tokens: None,
            last_cache_hit: None,
            last_cache_miss: None,
            last_cost_usd: None,
            last_poll_time: None,
            parent_session_id: None,
        };
        assert(state@ =~= fresh_state());
        state
    }
}

impl Default for TranscriptData {
    fn default() -> (data: TranscriptData)
        ensures
            data@ == empty_transcript(),
    {
        let data = TranscriptData {
            tools: Table::new(),
            agents: Table::new(),
            todos: Vec::new(),
            tasks: Table::new(),
        };
        assert(data@ =~= empty_transcript());
        data
    }
}

/// Copies a text that may be absent.
pub fn duplicate_text(text: &Option<String>) -> (copy: Option<String>)
    ensures
        copy.deep_view() == text.deep_view(),
{
    match text {
        Some(t) => Some(t.clone()),
        None => None,
    }
}

impl Duplicate for ToolEntry {
    fn duplicate(&self) -> (copy: ToolEntry) {
        ToolEntry {
            name: self.name.clone(),
            target: duplicate_text(&self.target),
            completed: self.completed,
            error: self.error,
            seq: self.seq,
        }
    }
}

impl Duplicate for AgentEntry {
    fn duplicate(&self) -> (copy: AgentEntry) {
        AgentEntry {
            subagent_type: duplicate_text(&self.subagent_type),
            model: duplicate_text(&self.model),
            description: duplicate_text(&self.description),
            start_time: self.start_time,
            completed: self.completed,
            seq: self.seq,
        }
    }
}

impl Duplicate for TodoItem {
    fn duplicate(&self) -> (copy: TodoItem) {
        TodoItem { content: self.content.clone(), completed: self.completed }
    }
}

impl Duplicate for TaskItem {
    fn duplicate(&self) -> (copy: TaskItem) {
        *self
    }
}

/// Copies a list of todo items.
pub fn duplicate_todos(todos: &Vec<TodoItem>) -> (copy: Vec<TodoItem>)
    ensures
        todo_views(copy@) == todo_views(todos@),
{
    let mut copy: Vec<TodoItem> = Vec::new();
    let mut i: usize = 0;
    while i < todos.len()
        invariant
            i <= todos@.len(),
            copy@.len() == i,
            forall|k: int| 0 <= k < i ==> (#[trigger] copy@[k])@ == todos@[k]@,
        decreases todos@.len() - i,
    {
        copy.push(todos[i].duplicate());
        i = i + 1;
    }
    assert(todo_views(copy@) =~= todo_views(todos@));
    copy
}

} // verus!
