//! The sections of the status line, stated on what they are made of.

use crate::clock;
use crate::laws;
use crate::render;
use crate::style;
use crate::style::{DIM, GREEN, RED, RESET, USAGE_GRADIENT, YELLOW};
use crate::table::Rows;
use crate::text;
use crate::timeline;
use crate::types::{
    CacheStatus, ConfigView, GitView, StdinView, TaskItem, TaskStatus, TodoView, TranscriptView,
    UsageInfo,
};
use vstd::prelude::*;
use vstd::string::*;

verus! {

/// The cache is cold, and dim, where no hit is known and from 280 seconds after the hit on.
pub proof fn law_cache_is_cold_without_a_recent_hit(cache: CacheStatus, now: int)
    requires
        cache.last_cache_hit is None || now - cache.last_cache_hit->0 >= 280,
    ensures
        render::cache_text(cache, now) == seq!['⧖', ' ', 'c', 'o', 'l', 'd'],
        render::cache_color(cache, now) == DIM@,
{
    reveal_strlit("⧖ cold");
    assert(render::cache_text(cache, now) =~= seq!['⧖', ' ', 'c', 'o', 'l', 'd']);
}

/// A warm cache is flagged exactly while a miss is at most thirty seconds old, whenever the hit
/// was; without a miss it never is.
pub proof fn law_warm_label_is_flagged_by_the_miss_alone(cache: CacheStatus, hit: i64, now: int)
    requires
        cache.last_cache_hit == Some(hit),
        280 - (now - hit) > 0,
    ensures
        cache.last_cache_miss is Some && now - cache.last_cache_miss->0 <= 30
            ==> render::cache_text(cache, now)[0] == '$',
        cache.last_cache_miss is Some && now - cache.last_cache_miss->0 > 30
            ==> render::cache_text(cache, now)[0] == '⧖',
        cache.last_cache_miss is None ==> render::cache_text(cache, now)[0] == '⧖',
{
}

/// Behind the glyph and a space a warm cache shows the minutes and the seconds that remain of
/// its 280.
pub proof fn law_warm_label_counts_down(
    cache: CacheStatus,
    hit: i64,
    now: int,
    minutes: nat,
    secs: nat,
)
    requires
        cache.last_cache_hit == Some(hit),
        280 - (now - hit) > 0,
        secs < 60,
        minutes * 60 + secs == 280 - (now - hit),
    ensures
        render::cache_text(cache, now)[1] == ' ',
        render::cache_text(cache, now).skip(2) == text::decimal(minutes) + seq![':']
            + text::decimal2(secs),
{
    reveal_strlit(":");
    assert(":"@ =~= seq![':']);
    assert(render::cache_text(cache, now).skip(2) =~= text::decimal(minutes) + seq![':']
        + text::decimal2(secs));
}

/// A warm cache is green with more than three minutes left, yellow with more than one, and red
/// below.
pub proof fn law_warm_label_is_colored_by_time_left(cache: CacheStatus, hit: i64, now: int)
    requires
        cache.last_cache_hit == Some(hit),
        280 - (now - hit) > 0,
    ensures
        280 - (now - hit) > 180 ==> render::cache_color(cache, now) == GREEN@,
        60 < 280 - (now - hit) <= 180 ==> render::cache_color(cache, now) == YELLOW@,
        280 - (now - hit) <= 60 ==> render::cache_color(cache, now) == RED@,
{
}

/// The label of the cache is its text, in its color where colors are enabled.
pub proof fn law_cache_label_is_its_text_in_its_color(
    cache: CacheStatus,
    config: ConfigView,
    now: int,
)
    ensures
        config.colors() ==> render::cache_section(cache, config, now) == render::cache_color(
            cache,
            now,
        ) + render::cache_text(cache, now) + RESET@,
        !config.colors() ==> render::cache_section(cache, config, now) == render::cache_text(
            cache,
            now,
        ),
{
}

/// How many todo items are done, counted one by one.
pub open spec fn todos_done(todos: Seq<TodoView>) -> nat {
    todos.filter(|todo: TodoView| todo.completed).len()
}

/// How many tasks are done, counted one by one.
pub open spec fn tasks_done(tasks: Rows<TaskItem>) -> nat {
    tasks.filter(|row: (Seq<char>, TaskItem)| row.1.status == TaskStatus::Completed).len()
}

proof fn lemma_todos_counted(todos: Seq<TodoView>)
    ensures
        render::completed_todos(todos) == todos_done(todos),
    decreases todos.len(),
{
    reveal(Seq::filter);
    if todos.len() > 0 {
        lemma_todos_counted(todos.drop_last());
    }
}

proof fn lemma_tasks_counted(tasks: Rows<TaskItem>)
    ensures
        render::completed_tasks(tasks) == tasks_done(tasks),
    decreases tasks.len(),
{
    reveal(Seq::filter);
    if tasks.len() > 0 {
        lemma_tasks_counted(tasks.drop_last());
    }
}

proof fn lemma_done_is_all(todos: Seq<TodoView>, tasks: Rows<TaskItem>)
    ensures
        todos_done(todos) <= todos.len(),
        tasks_done(tasks) <= tasks.len(),
        todos_done(todos) == todos.len() <==> forall|i: int|
            0 <= i < todos.len() ==> (#[trigger] todos[i]).completed,
        tasks_done(tasks) == tasks.len() <==> forall|i: int|
            0 <= i < tasks.len() ==> (#[trigger] tasks[i]).1.status == TaskStatus::Completed,
    decreases todos.len() + tasks.len(),
{
    reveal(Seq::filter);
    if todos.len() > 0 {
        let front = todos.drop_last();
        lemma_done_is_all(front, tasks);
        assert(todos.last() == todos[todos.len() - 1]);
        assert(forall|i: int| 0 <= i < front.len() ==> #[trigger] front[i] == todos[i]);
        assert((forall|i: int| 0 <= i < todos.len() ==> (#[trigger] todos[i]).completed) <==> (
        todos.last().completed && forall|i: int|
            0 <= i < front.len() ==> (#[trigger] front[i]).completed)) by {
            if todos.last().completed && forall|i: int|
                0 <= i < front.len() ==> (#[trigger] front[i]).completed {
                assert forall|i: int| 0 <= i < todos.len() implies (
                #[trigger] todos[i]).completed by {
                    if i < front.len() {
                        assert(front[i].completed);
                    }
                }
            }
        }
    } else if tasks.len() > 0 {
        let front = tasks.drop_last();
        lemma_done_is_all(todos, front);
        assert(tasks.last() == tasks[tasks.len() - 1]);
        assert(forall|i: int| 0 <= i < front.len() ==> #[trigger] front[i] == tasks[i]);
        assert((forall|i: int|
            0 <= i < tasks.len() ==> (#[trigger] tasks[i]).1.status == TaskStatus::Completed) <==> (
        tasks.last().1.status == TaskStatus::Completed && forall|i: int|
            0 <= i < front.len() ==> (#[trigger] front[i]).1.status == TaskStatus::Completed)) by {
            if tasks.last().1.status == TaskStatus::Completed && forall|i: int|
                0 <= i < front.len() ==> (#[trigger] front[i]).1.status == TaskStatus::Completed {
                assert forall|i: int| 0 <= i < tasks.len() implies (#[trigger] tasks[i]).1.status
                    == TaskStatus::Completed by {
                    if i < front.len() {
                        assert(front[i].1.status == TaskStatus::Completed);
                    }
                }
            }
        }
    }
}

/// The tasks section shows how many todo items and tasks there are and how many of them are
/// done. It is green where all are done and dim otherwise, and left out where there are none.
pub proof fn law_progress_counts_what_is_done(
    todos: Seq<TodoView>,
    tasks: Rows<TaskItem>,
    config: ConfigView,
)
    ensures
        todos.len() + tasks.len() == 0 <==> render::tasks_section(todos, tasks, config) is None,
        todos.len() + tasks.len() > 0 ==> {
            let shown = "tasks "@ + text::decimal(todos_done(todos) + tasks_done(tasks)) + "/"@
                + text::decimal(todos.len() + tasks.len());
            let all_done = (forall|i: int|
                0 <= i < todos.len() ==> (#[trigger] todos[i]).completed) && (forall|i: int|
                0 <= i < tasks.len() ==> (#[trigger] tasks[i]).1.status == TaskStatus::Completed);
            &&& !config.colors() ==> render::tasks_section(todos, tasks, config) == Some(shown)
            &&& config.colors() && all_done ==> render::tasks_section(todos, tasks, config)
                == Some(GREEN@ + shown + RESET@)
            &&& config.colors() && !all_done ==> render::tasks_section(todos, tasks, config)
                == Some(DIM@ + shown + RESET@)
        },
{
    lemma_todos_counted(todos);
    lemma_tasks_counted(tasks);
    lemma_done_is_all(todos, tasks);
}

/// A task that is done counts one more, any other task none, and likewise a todo item.
pub proof fn law_each_completion_counts_once(
    todos: Seq<TodoView>,
    tasks: Rows<TaskItem>,
    todo: TodoView,
    id: Seq<char>,
    task: TaskItem,
)
    ensures
        render::completed_tasks(tasks.push((id, task))) == render::completed_tasks(tasks) + (
        if task.status == TaskStatus::Completed {
            1int
        } else {
            0int
        }),
        render::completed_todos(todos.push(todo)) == render::completed_todos(todos) + (
        if todo.completed {
            1int
        } else {
            0int
        }),
        render::completed_todos(seq![]) == 0,
        render::completed_tasks(seq![]) == 0,
{
    assert(tasks.push((id, task)).drop_last() =~= tasks);
    assert(todos.push(todo).drop_last() =~= todos);
}

/// A cell without marker is filled exactly where the percentage reaches its middle.
pub proof fn law_cell_is_filled_from_its_middle(pct: int, reset_secs: Option<i64>, i: int)
    requires
        0 <= pct,
        0 <= i < 10,
    ensures
        render::usage_bar(pct, reset_secs).len() == 10,
        render::usage_bar(pct, reset_secs)[i] != '┃' ==> (render::usage_bar(pct, reset_secs)[i]
            == '▓' <==> pct >= 10 * i + 5),
        render::usage_bar(pct, reset_secs)[i] != '┃' && pct < 10 * i + 5 ==> render::usage_bar(
            pct,
            reset_secs,
        )[i] == '░',
{
}

/// The marker stands on the cell nearest to the part of the five hours that has passed, the last
/// one for all that lies beyond it. There is one exactly while the end of the window is known
/// and lies ahead, less than five hours away.
pub proof fn law_marker_stands_at_the_time_passed(pct: int, reset_secs: Option<i64>, i: int)
    requires
        0 <= i < 10,
    ensures
        ({
            let bar = render::usage_bar(pct, reset_secs);
            let inside = reset_secs is Some && 0 < reset_secs->0 < 18_000;
            let passed = 10 * (18_000 - reset_secs->0);
            &&& !inside ==> bar[i] != '┃'
            &&& inside && i < 9 ==> (bar[i] == '┃' <==> 18_000 * i - 9_000 <= passed < 18_000 * i
                + 9_000)
            &&& inside && i == 9 ==> (bar[i] == '┃' <==> 18_000 * i - 9_000 <= passed)
        }),
{
}

/// The end of the window is projected from nine minutes on: the percentage that is reached if
/// it goes on at the same pace, rounded down. Before that the percentage is taken as it is.
pub proof fn law_projection_extends_the_pace(pct: int, remaining: int, projected: int)
    requires
        0 <= pct,
        remaining < 18_000,
    ensures
        18_000 - remaining < 540 ==> render::projected(pct, remaining) == pct,
        18_000 - remaining >= 540 && projected * (18_000 - remaining) <= pct * 18_000 < (projected
            + 1) * (18_000 - remaining) ==> render::projected(pct, remaining) == projected,
{
    let elapsed = 18_000 - remaining;
    if elapsed >= 540 && projected * elapsed <= pct * 18_000 < (projected + 1) * elapsed {
        let rest = pct * 18_000 - projected * elapsed;
        assert((projected + 1) * elapsed == projected * elapsed + elapsed) by (nonlinear_arith);
        vstd::arithmetic::div_mod::lemma_fundamental_div_mod_converse(
            pct * 18_000,
            elapsed,
            projected,
            rest,
        );
    }
}

/// The usage section shows the percentage of the five hours, rounded, the bar, and the clock
/// where a reset lies ahead. It is left out where there is no such percentage.
pub proof fn law_usage_shows_the_five_hours(
    usage: Option<UsageInfo>,
    config: ConfigView,
    clock: Seq<char>,
)
    requires
        !config.colors(),
    ensures
        usage is None || usage->0.usage_5h is None <==> render::usage_section(usage, config, clock)
            is None,
        usage is Some && usage->0.usage_5h is Some ==> {
            let pct = usage->0.usage_5h->0.percent();
            let body = "Usage: "@ + text::decimal(pct as nat) + "% "@ + render::usage_bar(
                pct,
                usage->0.reset_5h,
            );
            let ahead = usage->0.reset_5h is Some && usage->0.reset_5h->0 > 0;
            &&& ahead ==> render::usage_section(usage, config, clock) == Some(body + (" → "@
                + clock))
            &&& !ahead ==> render::usage_section(usage, config, clock) == Some(body)
        },
{
    if usage is Some && usage->0.usage_5h is Some {
        let pct = usage->0.usage_5h->0.percent();
        let body = "Usage: "@ + text::decimal(pct as nat) + "% "@ + render::usage_bar(
            pct,
            usage->0.reset_5h,
        );
        assert(body + Seq::<char>::empty() =~= body);
    }
}

/// In colors the usage section stands in the color of its percentage. The marker has the color
/// of the projected pace, and behind it the first color goes on.
pub proof fn law_usage_in_color_marks_the_pace(
    usage: UsageInfo,
    config: ConfigView,
    clock: Seq<char>,
    at: int,
)
    requires
        config.colors(),
        usage.usage_5h is Some,
        0 <= at < 10,
    ensures
        ({
            let pct = usage.usage_5h->0.percent();
            let base = USAGE_GRADIENT[style::gradient_step(pct)]@;
            let bar = render::usage_bar(pct, usage.reset_5h);
            let start = "Usage: "@ + text::decimal(pct as nat) + "% "@;
            let inside = usage.reset_5h is Some && 0 < usage.reset_5h->0 < 18_000;
            let until = if usage.reset_5h is Some && usage.reset_5h->0 > 0 {
                " → "@ + clock
            } else {
                seq![]
            };
            let section = render::usage_section(Some(usage), config, clock);
            &&& !inside ==> section == Some(base + (start + bar + until) + RESET@)
            &&& inside && bar[at] == '┃' ==> section == Some(
                base + (start + (bar.take(at) + (style::pace_tier(
                    render::projected(pct, usage.reset_5h->0 as int),
                ) + "┃"@ + RESET@ + base) + bar.skip(at + 1)) + until) + RESET@,
            )
        }),
{
    let pct = usage.usage_5h->0.percent();
    let bar = render::usage_bar(pct, usage.reset_5h);
    let inside = usage.reset_5h is Some && 0 < usage.reset_5h->0 < 18_000;
    if inside && bar[at] == '┃' {
        let before = bar.take(at);
        let after = bar.skip(at + 1);
        assert(bar =~= before.push('┃') + after);
        assert forall|i: int| 0 <= i < before.len() implies #[trigger] before[i] != '┃' by {
            assert(before[i] == bar[i]);
        }
        assert forall|i: int| 0 <= i < after.len() implies #[trigger] after[i] != '┃' by {
            assert(after[i] == bar[at + 1 + i]);
        }
        laws::text::law_replacement_takes_the_place(
            before,
            '┃',
            after,
            render::marker_shown(pct, usage.reset_5h->0 as int),
        );
    }
}

/// How many slashes a text holds.
pub open spec fn slashes(s: Seq<char>) -> nat
    decreases s.len(),
{
    if s.len() == 0 {
        0
    } else {
        slashes(s.drop_last()) + if s.last() == '/' {
            1nat
        } else {
            0
        }
    }
}

proof fn lemma_slashes_concat(a: Seq<char>, b: Seq<char>)
    ensures
        slashes(a + b) == slashes(a) + slashes(b),
    decreases b.len(),
{
    if b.len() == 0 {
        assert(a + b =~= a);
    } else {
        lemma_slashes_concat(a, b.drop_last());
        assert((a + b).drop_last() =~= a + b.drop_last());
    }
}

proof fn lemma_no_slashes(s: Seq<char>)
    requires
        forall|i: int| 0 <= i < s.len() ==> #[trigger] s[i] != '/',
    ensures
        slashes(s) == 0,
    decreases s.len(),
{
    if s.len() > 0 {
        let front = s.drop_last();
        assert forall|i: int| 0 <= i < front.len() implies #[trigger] front[i] != '/' by {
            assert(front[i] == s[i]);
        }
        assert(s[s.len() - 1] != '/');
        lemma_no_slashes(front);
    }
}

/// Whether no part holds a slash.
spec fn slashless(parts: Seq<Seq<char>>) -> bool {
    forall|i: int, k: int|
        0 <= i < parts.len() && 0 <= k < parts[i].len() ==> #[trigger] parts[i][k] != '/'
}

proof fn lemma_joined_slashes(parts: Seq<Seq<char>>)
    requires
        parts.len() >= 1,
        slashless(parts),
    ensures
        slashes(text::joined(parts, "/"@)) == parts.len() - 1,
        text::joined(parts, "/"@) == laws::text::glued(parts, '/'),
    decreases parts.len(),
{
    reveal_strlit("/");
    assert("/"@ =~= seq!['/']);
    let last = parts[parts.len() - 1];
    assert forall|k: int| 0 <= k < last.len() implies #[trigger] last[k] != '/' by {
        assert(parts[parts.len() - 1][k] != '/');
    }
    lemma_no_slashes(last);
    if parts.len() > 1 {
        let front = parts.drop_last();
        assert forall|i: int, k: int|
            0 <= i < front.len() && 0 <= k < front[i].len() implies #[trigger] front[i][k]
            != '/' by {
            assert(parts[i][k] != '/');
        }
        lemma_joined_slashes(front);
        let head = text::joined(front, "/"@);
        lemma_slashes_concat(head, "/"@);
        lemma_slashes_concat(head + "/"@, last);
        assert(seq!['/'].drop_last() =~= Seq::<char>::empty());
        assert(slashes(seq!['/']) == 1) by {
            reveal_with_fuel(slashes, 2);
        }
        assert(head + "/"@ =~= head.push('/'));
    }
}

proof fn lemma_glued_split(parts: Seq<Seq<char>>, from: int)
    requires
        0 < from < parts.len(),
    ensures
        laws::text::glued(parts, '/') == laws::text::glued(parts.take(from), '/').push('/')
            + laws::text::glued(parts.skip(from), '/'),
    decreases parts.len(),
{
    let front = parts.drop_last();
    if from == parts.len() - 1 {
        assert(parts.take(from) =~= front);
        assert(parts.skip(from) =~= seq![parts.last()]);
    } else {
        lemma_glued_split(front, from);
        assert(front.take(from) =~= parts.take(from));
        assert(parts.skip(from).drop_last() =~= front.skip(from));
        let head = laws::text::glued(parts.take(from), '/').push('/');
        let tail = laws::text::glued(front.skip(from), '/');
        assert((head + tail).push('/') + parts.last() =~= head + (tail.push('/') + parts.last()));
    }
}

/// The project is the end of the working directory: all of it where it has few components, else
/// what stands behind a slash with as many components as are to be shown. Without a working
/// directory it says so.
pub proof fn law_project_is_the_end_of_the_directory(data: StdinView, config: ConfigView)
    ensures
        data.cwd is None ==> render::project_section(data, config) == "no data"@,
        data.cwd is Some ==> {
            let project = render::project_section(data, config);
            &&& slashes(project) <= config.path_levels() - 1
            &&& exists|before: Seq<char>|
                data.cwd->0 == #[trigger] (before + project) && (before.len() > 0
                    ==> before.last() == '/' && slashes(project) == config.path_levels() - 1)
        },
{
    if data.cwd is Some {
        let cwd = data.cwd->0;
        let components = text::pieces(cwd, '/');
        let from = components.len() - config.path_levels();
        laws::text::law_pieces_glue_back(cwd, '/');
        lemma_joined_slashes(components);
        if from > 0 {
            let shown = components.skip(from);
            assert forall|i: int, k: int|
                0 <= i < shown.len() && 0 <= k < shown[i].len() implies #[trigger] shown[i][k]
                != '/' by {
                assert(components[from + i][k] != '/');
            }
            lemma_joined_slashes(shown);
            lemma_glued_split(components, from);
            let before = laws::text::glued(components.take(from), '/').push('/');
            assert(cwd == before + render::project_section(data, config));
        } else {
            let before = Seq::<char>::empty();
            assert(before + cwd =~= cwd);
            assert(cwd == before + render::project_section(data, config));
        }
    }
}

/// Branch, model and context are shown as they are: the branch behind its sign, with an asterisk
/// where the tree is dirty; the name of the model; the percentage of the context.
pub proof fn law_branch_model_and_context_are_shown(
    data: StdinView,
    config: ConfigView,
    git: Option<GitView>,
)
    requires
        !config.colors(),
    ensures
        git is None <==> render::git_section(git, config) is None,
        git is Some && git->0.dirty ==> render::git_section(git, config) == Some(
            seq!['⎇', ' '] + git->0.branch + seq!['*'],
        ),
        git is Some && !git->0.dirty ==> render::git_section(git, config) == Some(
            seq!['⎇', ' '] + git->0.branch,
        ),
        data.model is Some && data.model->0 is Some ==> render::model_section(data)
            == data.model->0->0,
        data.model is None || data.model->0 is None ==> render::model_section(data) == "cstat"@,
        data.context_window is None || data.context_window->0.used_percentage is None
            <==> render::context_section(data, config) is None,
        data.context_window is Some && data.context_window->0.used_percentage is Some
            ==> render::context_section(data, config) == Some(
            "Ctx: "@ + text::decimal(data.context_window->0.used_percentage->0 as nat) + "%"@,
        ),
{
    reveal_strlit("⎇ ");
    reveal_strlit("*");
    assert("⎇ "@ =~= seq!['⎇', ' ']);
    assert("*"@ =~= seq!['*']);
    if git is Some {
        let plain = seq!['⎇', ' '] + git->0.branch;
        assert(plain + Seq::<char>::empty() =~= plain);
    }
}

/// In colors the branch is green, and the context has the color of its percentage.
pub proof fn law_branch_and_context_in_color(
    data: StdinView,
    config: ConfigView,
    git: Option<GitView>,
)
    requires
        config.colors(),
    ensures
        git is Some ==> {
            let plain = render::git_section(git, ConfigView { colors: Some(false), ..config });
            plain is Some && render::git_section(git, config) == Some(
                GREEN@ + plain->0 + RESET@,
            )
        },
        git is None ==> render::git_section(git, config) is None,
        data.context_window is Some && data.context_window->0.used_percentage is Some ==> {
            let pct = data.context_window->0.used_percentage->0;
            let plain = render::context_section(
                data,
                ConfigView { colors: Some(false), ..config },
            );
            plain is Some && render::context_section(data, config) == Some(
                style::context_color(pct as int, config) + plain->0 + RESET@,
            )
        },
        data.context_window is None || data.context_window->0.used_percentage is None
            ==> render::context_section(data, config) is None,
{
}

/// One for a section that is shown, none for one that is left out.
pub open spec fn one(shown: bool) -> int {
    if shown {
        1
    } else {
        0
    }
}

/// The line is its sections with separators between them, in this order: project, branch, model,
/// context, cache, usage, activity, tasks. Those that have nothing to show are left out.
pub proof fn law_sections_come_in_order(
    data: StdinView,
    config: ConfigView,
    transcript: TranscriptView,
    git: Option<GitView>,
    usage: Option<UsageInfo>,
    cache: CacheStatus,
    now: int,
    clock: Seq<char>,
)
    ensures
        ({
            let parts = render::sections(data, config, transcript, git, usage, cache, now, clock);
            let context = render::context_section(data, config);
            let used = render::usage_section(usage, config, clock);
            let active = timeline::activity(transcript.tools, transcript.agents, config, now);
            let tasks = render::tasks_section(transcript.todos, transcript.tasks, config);
            let model_at = 1 + one(git is Some);
            let cache_at = model_at + 1 + one(context is Some);
            let activity_at = cache_at + 1 + one(used is Some);
            let tasks_at = activity_at + one(active is Some);
            &&& parts[0] == render::project_section(data, config)
            &&& git is Some ==> parts[1] == render::git_section(git, config)->0
            &&& parts[model_at] == render::model_section(data)
            &&& context is Some ==> parts[model_at + 1] == context->0
            &&& parts[cache_at] == render::cache_section(cache, config, now)
            &&& used is Some ==> parts[cache_at + 1] == used->0
            &&& active is Some ==> parts[activity_at] == active->0
            &&& tasks is Some ==> parts[tasks_at] == tasks->0
            &&& parts.len() == tasks_at + one(tasks is Some)
            &&& render::status_line(data, config, transcript, git, usage, cache, now, clock)
                == text::joined(parts, style::separator_shown(config))
        }),
{
}

/// A line can be computed where the times that it shows lie within what 64 bits can count from
/// now, as all times of a working clock do.
pub proof fn law_line_is_computable_in_range(
    transcript: TranscriptView,
    usage: Option<UsageInfo>,
    cache: CacheStatus,
    now: int,
)
    requires
        0 <= now <= 0xffff_ffff_ffff,
        cache.last_cache_hit is Some ==> -0xffff_ffff_ffff <= cache.last_cache_hit->0
            <= 0xffff_ffff_ffff,
        cache.last_cache_miss is Some ==> -0xffff_ffff_ffff <= cache.last_cache_miss->0
            <= 0xffff_ffff_ffff,
        usage is Some && usage->0.reset_5h is Some ==> usage->0.reset_5h->0 <= 0xffff_ffff_ffff,
        forall|i: int|
            0 <= i < transcript.agents.len() && (#[trigger] transcript.agents[i]).1.start_time
                is Some ==> -0xffff_ffff_ffff <= transcript.agents[i].1.start_time->0
                <= 0xffff_ffff_ffff,
        transcript.todos.len() + transcript.tasks.len() <= 0xffff_ffff,
    ensures
        render::line_fits(transcript, usage, cache, now),
{
}

/// The clock that is shown is that of the reset of the five hours, and empty where none lies
/// ahead or there is no percentage.
pub proof fn law_clock_is_that_of_the_reset(
    shown: Seq<char>,
    usage: Option<UsageInfo>,
    now: int,
)
    requires
        render::is_reset_clock(shown, usage, now),
    ensures
        usage is Some && usage->0.usage_5h is Some && usage->0.reset_5h is Some
            && usage->0.reset_5h->0 > 0 ==> clock::clock_shows(
            shown,
            clock::reset_minute(usage->0.reset_5h->0 as int, now),
        ),
        usage is None || usage->0.usage_5h is None || usage->0.reset_5h is None
            || usage->0.reset_5h->0 <= 0 ==> shown == Seq::<char>::empty(),
{
}

} // verus!
