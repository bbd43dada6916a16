//! The status line: which sections it has and what each of them shows.

use crate::clock;
use crate::clock::{difference_fits, format_reset_clock_at, utc_now};
use crate::style;
use crate::style::{
    color_for_percentage, colorize, pace_color, rendered_separator, usage_color, DIM, GREEN, RED,
    RESET, USAGE_GRADIENT, YELLOW,
};
use crate::table::{Rows, Table};
use crate::text;
use crate::text::{join, push_decimal, push_decimal2, replace, split};
use crate::timeline;
use crate::timeline::{is_activity_renderable, render_activity_line_at};
use crate::types;
use crate::types::{
    CacheStatus, Config, ConfigView, GitInfo, GitView, StdinData, StdinView, TaskItem, TaskStatus,
    TodoItem, TodoView, TranscriptData, TranscriptView, UsageInfo,
};
use vstd::prelude::*;
use vstd::string::*;

verus! {

/// For how many seconds a hit keeps the prompt cache warm. The stamp lags the request by
/// some twenty seconds, so this is less than the five minutes that the cache really lives.
pub const CACHE_TTL_SECS: i64 = 280;

/// For how many seconds after a cold miss the cost is flagged.
pub const MISS_SHOWN_SECS: i64 = 30;

/// The length of the five-hour window in seconds.
pub const FIVE_HOUR_SECS: i64 = 18_000;

/// How many seconds of the window must have passed before its end is projected.
pub const PROJECTION_SECS: i64 = 540;

/// How many cells the usage bar has.
pub const CELLS: usize = 10;

/// The percentage of the context that is used.
pub open spec fn context_pct(data: StdinView) -> Option<u8> {
    match data.context_window {
        Some(window) => window.used_percentage,
        None => None,
    }
}

/// The percentage of the context that is used, where it is reported.
pub fn context_percentage(data: &StdinData) -> (pct: Option<u8>)
    ensures
        pct == context_pct(data@),
{
    match &data.context_window {
        Some(window) => window.used_percentage,
        None => None,
    }
}

/// How many cells of the bar are filled: a tenth of the percentage, rounded.
pub open spec fn filled_cells(pct: int) -> int {
    if pct >= 95 {
        CELLS as int
    } else {
        (pct + 5) / 10
    }
}

/// Whether the end of the window is known and lies ahead, less than a window away.
pub open spec fn inside_window(reset_secs: Option<i64>) -> bool {
    match reset_secs {
        Some(remaining) => 0 < remaining < FIVE_HOUR_SECS,
        None => false,
    }
}

/// The cell that stands for how much of the window has passed.
pub open spec fn marked_cell(remaining: int) -> int {
    let cell = ((FIVE_HOUR_SECS - remaining) * CELLS + FIVE_HOUR_SECS / 2) / FIVE_HOUR_SECS as int;
    if cell < CELLS {
        cell
    } else {
        CELLS - 1
    }
}

/// What a cell of the bar shows: the marker, or whether it is filled.
pub open spec fn cell(pct: int, reset_secs: Option<i64>, i: int) -> char {
    if inside_window(reset_secs) && i == marked_cell(reset_secs->0 as int) {
        '┃'
    } else if i < filled_cells(pct) {
        '▓'
    } else {
        '░'
    }
}

/// The usage bar.
pub open spec fn usage_bar(pct: int, reset_secs: Option<i64>) -> Seq<char> {
    Seq::new(CELLS as nat, |i: int| cell(pct, reset_secs, i))
}

/// Builds the usage bar: ten cells, filled in proportion to the percentage, with a marker
/// in the place of the cell that stands for the time that has passed.
pub fn build_usage_bar(pct: u8, reset_secs: Option<i64>) -> (bar: String)
    ensures
        bar@ == usage_bar(pct as int, reset_secs),
{
    let tenths: usize = (pct as usize * CELLS + 50) / 100;
    let filled: usize = if tenths < CELLS {
        tenths
    } else {
        CELLS
    };
    let mut marked: usize = CELLS;
    if let Some(remaining) = reset_secs {
        if remaining > 0 && remaining < FIVE_HOUR_SECS {
            let elapsed: u64 = (FIVE_HOUR_SECS - remaining) as u64;
            let place: u64 = (elapsed * 10 + 9_000) / 18_000;
            marked = if place < 10 {
                place as usize
            } else {
                9
            };
        }
    }
    let mut bar: String = String::new();
    let mut i: usize = 0;
    while i < CELLS
        invariant
            i <= CELLS,
            filled == filled_cells(pct as int),
            inside_window(reset_secs) ==> marked == marked_cell(reset_secs->0 as int),
            !inside_window(reset_secs) ==> marked == CELLS,
            bar@ == usage_bar(pct as int, reset_secs).take(i as int),
        decreases CELLS - i,
    {
        bar.push(
            if i == marked {
                '┃'
            } else if i < filled {
                '▓'
            } else {
                '░'
            },
        );
        assert(bar@ =~= usage_bar(pct as int, reset_secs).take(i + 1));
        i = i + 1;
    }
    assert(usage_bar(pct as int, reset_secs).take(CELLS as int) =~= usage_bar(
        pct as int,
        reset_secs,
    ));
    bar
}

/// Usage that may be absent, without the reference.
pub open spec fn usage_of(usage: Option<&UsageInfo>) -> Option<UsageInfo> {
    match usage {
        Some(info) => Some(*info),
        None => None,
    }
}

/// The seconds until the reset whose time is shown, where one is shown.
pub open spec fn shown_reset(usage: Option<UsageInfo>) -> Option<i64> {
    match usage {
        Some(info) => if info.usage_5h is Some && info.reset_5h is Some && info.reset_5h->0 > 0 {
            info.reset_5h
        } else {
            None
        },
        None => None,
    }
}

/// The percentage that the usage will have reached at the end of the window, if it goes on
/// as it did. Early in the window it is taken as it is.
pub open spec fn projected(pct: int, remaining: int) -> int {
    let elapsed = FIVE_HOUR_SECS - remaining;
    if elapsed >= PROJECTION_SECS {
        pct * FIVE_HOUR_SECS / elapsed
    } else {
        pct
    }
}

/// The marker in its own color, followed by a return to the color of the bar.
pub open spec fn marker_shown(pct: int, remaining: int) -> Seq<char> {
    style::pace_tier(projected(pct, remaining)) + "┃"@ + RESET@ + USAGE_GRADIENT[style::gradient_step(
        pct,
    )]@
}

/// The usage section, where `clock` is the time of day of the reset.
pub open spec fn usage_section(
    usage: Option<UsageInfo>,
    config: ConfigView,
    clock: Seq<char>,
) -> Option<Seq<char>> {
    if usage is None || usage->0.usage_5h is None {
        None
    } else {
        let pct = usage->0.usage_5h->0.percent();
        let reset = usage->0.reset_5h;
        let plain = usage_bar(pct, reset);
        let bar = if config.colors() && inside_window(reset) {
            text::replaced(plain, '┃', marker_shown(pct, reset->0 as int))
        } else {
            plain
        };
        let until = if shown_reset(usage) is Some {
            " → "@ + clock
        } else {
            seq![]
        };
        Some(
            style::colored(
                "Usage: "@ + text::decimal(pct as nat) + "% "@ + bar + until,
                USAGE_GRADIENT[style::gradient_step(pct)]@,
                config.colors(),
            ),
        )
    }
}

/// The usage section: the percentage of the five-hour window, the bar and, where the
/// window has an end ahead, `clock`, the time of day of that end.
pub fn render_usage_with(usage: Option<&UsageInfo>, config: &Config, clock: &str) -> (section:
    Option<String>)
    ensures
        section.deep_view() == usage_section(usage_of(usage), config@, clock@),
{
    let info: &UsageInfo = match usage {
        Some(info) => info,
        None => {
            return None;
        },
    };
    let pct: u8 = match &info.usage_5h {
        Some(usage_5h) => usage_5h.rounded_percent(),
        None => {
            return None;
        },
    };
    let colors: bool = config.colors();
    let base: &'static str = usage_color(pct);
    let plain: String = build_usage_bar(pct, info.reset_5h);
    let mut body: String = "Usage: ".to_owned();
    push_decimal(&mut body, pct as u64);
    body.append("% ");
    let ghost start = body@;
    assert(start =~= "Usage: "@ + text::decimal(pct as nat) + "% "@);
    let mut bar: String = plain;
    if let Some(remaining) = info.reset_5h {
        if colors && remaining > 0 && remaining < FIVE_HOUR_SECS {
            let elapsed: i64 = FIVE_HOUR_SECS - remaining;
            let end_pct: u32 = if elapsed >= PROJECTION_SECS {
                let whole: u64 = pct as u64 * 18_000;
                assert(whole / elapsed as u64 <= whole) by (nonlinear_arith)
                    requires
                        elapsed >= 540,
                ;
                (whole / elapsed as u64) as u32
            } else {
                pct as u32
            };
            assert(end_pct == projected(pct as int, remaining as int));
            let mut marker: String = pace_color(end_pct).to_owned();
            marker.append("┃");
            marker.append(RESET);
            marker.append(base);
            assert(marker@ =~= marker_shown(pct as int, remaining as int));
            bar = replace(bar.as_str(), '┃', marker.as_str());
        }
    }
    body.append(bar.as_str());
    if let Some(remaining) = info.reset_5h {
        if remaining > 0 {
            body.append(" → ");
            body.append(clock);
        }
    }
    assert(body@ =~= start + bar@ + (if shown_reset(usage_of(usage)) is Some {
        " → "@ + clock@
    } else {
        seq![]
    }));
    Some(colorize(body, base, colors))
}

/// Whether the time of the reset can be computed, where it is shown.
pub open spec fn usage_fits(usage: Option<UsageInfo>, now: int) -> bool {
    match shown_reset(usage) {
        Some(reset_secs) => clock::reset_fits(reset_secs as int, now),
        None => true,
    }
}

/// Whether a text can be the time of day of the reset that is shown; empty where none is.
pub open spec fn is_reset_clock(shown: Seq<char>, usage: Option<UsageInfo>, now: int) -> bool {
    match shown_reset(usage) {
        Some(reset_secs) => clock::clock_shows(shown, clock::reset_minute(reset_secs as int, now)),
        None => shown.len() == 0,
    }
}

fn reset_shown(usage: Option<&UsageInfo>) -> (reset: Option<i64>)
    ensures
        reset == shown_reset(usage_of(usage)),
{
    match usage {
        Some(info) => match (info.usage_5h, info.reset_5h) {
            (Some(_), Some(reset_secs)) => if reset_secs > 0 {
                Some(reset_secs)
            } else {
                None
            },
            _ => None,
        },
        None => None,
    }
}

/// The time of day of the reset that is shown; empty where none is.
pub fn reset_clock_at(usage: Option<&UsageInfo>, now: i64) -> (shown: String)
    requires
        usage_fits(usage_of(usage), now as int),
    ensures
        is_reset_clock(shown@, usage_of(usage), now as int),
{
    match reset_shown(usage) {
        Some(reset_secs) => format_reset_clock_at(reset_secs, now),
        None => String::new(),
    }
}

/// The usage section now.
pub fn render_usage(usage: Option<&UsageInfo>, config: &Config) -> (section: Option<String>)
    requires
        forall|now: int| clock::on_the_clock(now) ==> #[trigger] usage_fits(usage_of(usage), now),
    ensures
        exists|now: int, clock: Seq<char>|
            clock::on_the_clock(now) && #[trigger] is_reset_clock(clock, usage_of(usage), now)
                && section.deep_view() == usage_section(usage_of(usage), config@, clock),
{
    let now: i64 = utc_now();
    assert(usage_fits(usage_of(usage), now as int));
    let clock: String = reset_clock_at(usage, now);
    render_usage_with(usage, config, clock.as_str())
}

/// How many todo items are completed.
pub open spec fn completed_todos(todos: Seq<TodoView>) -> nat
    decreases todos.len(),
{
    if todos.len() == 0 {
        0
    } else {
        completed_todos(todos.drop_last()) + if todos.last().completed {
            1nat
        } else {
            0
        }
    }
}

/// How many tasks are completed.
pub open spec fn completed_tasks(tasks: Rows<TaskItem>) -> nat
    decreases tasks.len(),
{
    if tasks.len() == 0 {
        0
    } else {
        completed_tasks(tasks.drop_last()) + if tasks.last().1.status == TaskStatus::Completed {
            1nat
        } else {
            0
        }
    }
}

/// The tasks section: how many of the todo items and tasks are completed.
pub open spec fn tasks_section(
    todos: Seq<TodoView>,
    tasks: Rows<TaskItem>,
    config: ConfigView,
) -> Option<Seq<char>> {
    let total = todos.len() + tasks.len();
    let completed = completed_todos(todos) + completed_tasks(tasks);
    if total == 0 {
        None
    } else {
        Some(
            style::colored(
                "tasks "@ + text::decimal(completed) + "/"@ + text::decimal(total),
                if completed == total {
                    GREEN@
                } else {
                    DIM@
                },
                config.colors(),
            ),
        )
    }
}

/// The tasks section: how many of the todo items and tasks are completed. Nothing where
/// there are none.
pub fn render_tasks(todos: &[TodoItem], tasks: &Table<TaskItem>, config: &Config) -> (section:
    Option<String>)
    requires
        todos@.len() + tasks@.len() <= usize::MAX,
    ensures
        section.deep_view() == tasks_section(types::todo_views(todos@), tasks@, config@),
{
    let ghost items = types::todo_views(todos@);
    let total: usize = todos.len() + tasks.len();
    if total == 0 {
        return None;
    }
    let mut completed: usize = 0;
    let mut i: usize = 0;
    while i < todos.len()
        invariant
            i <= todos@.len(),
            items == types::todo_views(todos@),
            completed <= i,
            completed == completed_todos(items.take(i as int)),
        decreases todos@.len() - i,
    {
        assert(items.take(i + 1).drop_last() =~= items.take(i as int));
        assert(items.take(i + 1).last() == todos@[i as int]@);
        if todos[i].completed {
            completed = completed + 1;
        }
        i = i + 1;
    }
    assert(items.take(items.len() as int) =~= items);
    let ghost done = completed as int;
    let mut j: usize = 0;
    while j < tasks.len()
        invariant
            j <= tasks@.len(),
            done <= completed <= done + j,
            done + tasks@.len() <= usize::MAX,
            completed == done + completed_tasks(tasks@.take(j as int)),
        decreases tasks@.len() - j,
    {
        assert(tasks@.take(j + 1).drop_last() =~= tasks@.take(j as int));
        let task: &TaskItem = tasks.row(j).1;
        assert(tasks@[j as int].1 == *task);
        if task.status == TaskStatus::Completed {
            completed = completed + 1;
        }
        j = j + 1;
    }
    assert(tasks@.take(tasks@.len() as int) =~= tasks@);
    let mut label: String = "tasks ".to_owned();
    push_decimal(&mut label, completed as u64);
    label.append("/");
    push_decimal(&mut label, total as u64);
    assert(label@ =~= "tasks "@ + text::decimal(completed as nat) + "/"@ + text::decimal(
        total as nat,
    ));
    let color: &str = if completed == total {
        GREEN
    } else {
        DIM
    };
    Some(colorize(label, color, config.colors()))
}

/// The seconds for which a hit keeps the cache warm.
pub open spec fn warm_secs(hit: int, now: int) -> int {
    CACHE_TTL_SECS - (now - hit)
}

/// Whether the cost of a cold miss is flagged.
pub open spec fn miss_shown(cache: CacheStatus, now: int) -> bool {
    match cache.last_cache_miss {
        Some(miss) => now - miss <= MISS_SHOWN_SECS,
        None => false,
    }
}

/// A countdown in minutes and seconds, behind a glyph.
pub open spec fn countdown(remaining: int, flagged: bool) -> Seq<char> {
    seq![
        if flagged {
            '$'
        } else {
            '⧖'
        },
        ' ',
    ] + text::decimal((remaining / 60) as nat) + ":"@ + text::decimal2((remaining % 60) as nat)
}

/// The color for how long the cache stays warm.
pub open spec fn warmth(remaining: int) -> Seq<char> {
    if remaining > 180 {
        GREEN@
    } else if remaining > 60 {
        YELLOW@
    } else {
        RED@
    }
}

/// The label of the prompt cache without color: how long it stays warm, or that it is cold.
pub open spec fn cache_text(cache: CacheStatus, now: int) -> Seq<char> {
    if cache.last_cache_hit is Some && warm_secs(cache.last_cache_hit->0 as int, now) > 0 {
        countdown(warm_secs(cache.last_cache_hit->0 as int, now), miss_shown(cache, now))
    } else {
        "⧖ cold"@
    }
}

/// The color of the label of the prompt cache.
pub open spec fn cache_color(cache: CacheStatus, now: int) -> Seq<char> {
    if cache.last_cache_hit is Some && warm_secs(cache.last_cache_hit->0 as int, now) > 0 {
        warmth(warm_secs(cache.last_cache_hit->0 as int, now))
    } else {
        DIM@
    }
}

/// The label of the prompt cache.
pub open spec fn cache_section(cache: CacheStatus, config: ConfigView, now: int) -> Seq<char> {
    style::colored(cache_text(cache, now), cache_color(cache, now), config.colors())
}

/// Whether the label of the prompt cache can be computed.
pub open spec fn cache_fits(cache: CacheStatus, now: int) -> bool {
    cache.last_cache_hit is Some ==> {
        let hit = cache.last_cache_hit->0 as int;
        &&& clock::fits(now - hit)
        &&& clock::fits(warm_secs(hit, now))
        &&& warm_secs(hit, now) > 0 && cache.last_cache_miss is Some ==> clock::fits(
            now - cache.last_cache_miss->0,
        )
    }
}

/// Whether [`render_cache_label_at`] can be called.
pub fn is_cache_renderable(cache: &CacheStatus, now: i64) -> (holds: bool)
    ensures
        holds == cache_fits(*cache, now as int),
{
    match cache.last_cache_hit {
        Some(hit) => {
            if !difference_fits(now, hit) || !difference_fits(CACHE_TTL_SECS, now - hit) {
                return false;
            }
            match cache.last_cache_miss {
                Some(miss) => CACHE_TTL_SECS - (now - hit) <= 0 || difference_fits(now, miss),
                None => true,
            }
        },
        None => true,
    }
}

/// The label of the prompt cache at a given time:
/// - no hit is known, or its time has run out: cold, dim;
/// - else the minutes and seconds that remain: green above three minutes, yellow above
///   one, red below.
///
/// While a miss is at most thirty seconds old the hourglass gives way to a dollar sign,
/// which is as wide.
pub fn render_cache_label_at(cache: &CacheStatus, config: &Config, now: i64) -> (label: String)
    requires
        cache_fits(*cache, now as int),
    ensures
        label@ == cache_section(*cache, config@, now as int),
{
    let colors: bool = config.colors();
    let hit: i64 = match cache.last_cache_hit {
        Some(hit) => hit,
        None => {
            return colorize("⧖ cold".to_owned(), DIM, colors);
        },
    };
    let remaining: i64 = CACHE_TTL_SECS - (now - hit);
    if remaining <= 0 {
        return colorize("⧖ cold".to_owned(), DIM, colors);
    }
    let color: &str = if remaining > 180 {
        GREEN
    } else if remaining > 60 {
        YELLOW
    } else {
        RED
    };
    let flagged: bool = match cache.last_cache_miss {
        Some(miss) => now - miss <= MISS_SHOWN_SECS,
        None => false,
    };
    let mut label: String = String::new();
    label.push(
        if flagged {
            '$'
        } else {
            '⧖'
        },
    );
    label.push(' ');
    push_decimal(&mut label, (remaining / 60) as u64);
    label.append(":");
    push_decimal2(&mut label, (remaining % 60) as u64);
    assert(label@ =~= countdown(remaining as int, flagged));
    colorize(label, color, colors)
}

/// The label of the prompt cache now.
pub fn render_cache_label(cache: &CacheStatus, config: &Config) -> (label: String)
    requires
        forall|now: int| clock::on_the_clock(now) ==> #[trigger] cache_fits(*cache, now),
    ensures
        exists|now: int|
            clock::on_the_clock(now) && label@ == #[trigger] cache_section(*cache, config@, now),
{
    let now: i64 = utc_now();
    assert(cache_fits(*cache, now as int));
    render_cache_label_at(cache, config, now)
}

/// The project: the last components of the working directory.
pub open spec fn project_section(data: StdinView, config: ConfigView) -> Seq<char> {
    match data.cwd {
        Some(cwd) => {
            let components = text::pieces(cwd, '/');
            let from = components.len() - config.path_levels();
            text::joined(
                if from > 0 {
                    components.skip(from)
                } else {
                    components
                },
                "/"@,
            )
        },
        None => "no data"@,
    }
}

fn project_name(data: &StdinData, config: &Config) -> (name: String)
    ensures
        name@ == project_section(data@, config@),
{
    match &data.cwd {
        Some(cwd) => {
            let components: Vec<String> = split(cwd.as_str(), '/');
            let ghost all = components.deep_view();
            let levels: usize = config.path_levels() as usize;
            let from: usize = if components.len() > levels {
                components.len() - levels
            } else {
                0
            };
            let mut shown: Vec<String> = Vec::new();
            let mut i: usize = from;
            assert(shown.deep_view() =~= all.subrange(from as int, i as int));
            while i < components.len()
                invariant
                    from <= i <= components@.len(),
                    all == components.deep_view(),
                    shown.deep_view() == all.subrange(from as int, i as int),
                decreases components@.len() - i,
            {
                let ghost before = shown.deep_view();
                shown.push(components[i].clone());
                assert(shown.deep_view() =~= before.push(all[i as int]));
                assert(shown.deep_view() =~= all.subrange(from as int, i + 1));
                i = i + 1;
            }
            assert(shown.deep_view() =~= all.skip(from as int));
            assert(all.skip(0) =~= all);
            join(&shown, "/")
        },
        None => "no data".to_owned(),
    }
}

/// A branch that may be absent as the specifications see it.
pub open spec fn git_view(git: Option<&GitInfo>) -> Option<GitView> {
    match git {
        Some(info) => Some(info@),
        None => None,
    }
}

/// The branch, with an asterisk where the working tree is dirty.
pub open spec fn git_section(git: Option<GitView>, config: ConfigView) -> Option<Seq<char>> {
    match git {
        Some(info) => Some(
            style::colored(
                "⎇ "@ + info.branch + (if info.dirty {
                    "*"@
                } else {
                    seq![]
                }),
                GREEN@,
                config.colors(),
            ),
        ),
        None => None,
    }
}

fn git_label(git: Option<&GitInfo>, config: &Config) -> (label: Option<String>)
    ensures
        label.deep_view() == git_section(git_view(git), config@),
{
    match git {
        Some(info) => {
            let mut label: String = "⎇ ".to_owned();
            label.append(info.branch.as_str());
            if info.dirty {
                label.append("*");
            }
            assert(label@ =~= "⎇ "@ + info@.branch + (if info@.dirty {
                "*"@
            } else {
                seq![]
            }));
            Some(colorize(label, GREEN, config.colors()))
        },
        None => None,
    }
}

/// The name of the model.
pub open spec fn model_section(data: StdinView) -> Seq<char> {
    match data.model_name() {
        Some(name) => name,
        None => "cstat"@,
    }
}

fn model_label(data: &StdinData) -> (label: String)
    ensures
        label@ == model_section(data@),
{
    match &data.model {
        Some(model) => match &model.display_name {
            Some(name) => name.clone(),
            None => "cstat".to_owned(),
        },
        None => "cstat".to_owned(),
    }
}

/// How full the context is.
pub open spec fn context_section(data: StdinView, config: ConfigView) -> Option<Seq<char>> {
    match context_pct(data) {
        Some(pct) => Some(
            style::colored(
                "Ctx: "@ + text::decimal(pct as nat) + "%"@,
                style::context_color(pct as int, config),
                config.colors(),
            ),
        ),
        None => None,
    }
}

fn context_label(data: &StdinData, config: &Config) -> (label: Option<String>)
    ensures
        label.deep_view() == context_section(data@, config@),
{
    match context_percentage(data) {
        Some(pct) => {
            let mut label: String = "Ctx: ".to_owned();
            push_decimal(&mut label, pct as u64);
            label.append("%");
            Some(colorize(label, color_for_percentage(pct, config), config.colors()))
        },
        None => None,
    }
}

/// A section that is left out entirely where it has nothing to show.
pub open spec fn optional(section: Option<Seq<char>>) -> Seq<Seq<char>> {
    match section {
        Some(shown) => seq![shown],
        None => seq![],
    }
}

/// The sections of the status line, in order: project, branch, model, context, cache, usage,
/// activity, tasks. `clock` is the time of day at which the usage window resets.
pub open spec fn sections(
    data: StdinView,
    config: ConfigView,
    transcript: TranscriptView,
    git: Option<GitView>,
    usage: Option<UsageInfo>,
    cache: CacheStatus,
    now: int,
    clock: Seq<char>,
) -> Seq<Seq<char>> {
    seq![project_section(data, config)] + optional(git_section(git, config))
        + seq![model_section(data)] + optional(context_section(data, config))
        + seq![cache_section(cache, config, now)] + optional(usage_section(usage, config, clock))
        + optional(timeline::activity(transcript.tools, transcript.agents, config, now))
        + optional(tasks_section(transcript.todos, transcript.tasks, config))
}

/// The status line: the sections with separators between them.
pub open spec fn status_line(
    data: StdinView,
    config: ConfigView,
    transcript: TranscriptView,
    git: Option<GitView>,
    usage: Option<UsageInfo>,
    cache: CacheStatus,
    now: int,
    clock: Seq<char>,
) -> Seq<char> {
    text::joined(
        sections(data, config, transcript, git, usage, cache, now, clock),
        style::separator_shown(config),
    )
}

fn push_section(parts: &mut Vec<String>, section: Option<String>)
    ensures
        final(parts).deep_view() == old(parts).deep_view() + optional(section.deep_view()),
{
    let ghost before = parts.deep_view();
    match section {
        Some(shown) => {
            let ghost view = shown@;
            parts.push(shown);
            assert(parts.deep_view() =~= before + seq![view]);
        },
        None => {
            assert(parts.deep_view() =~= before + Seq::<Seq<char>>::empty());
        },
    }
}

fn push_part(parts: &mut Vec<String>, part: String)
    ensures
        final(parts).deep_view() == old(parts).deep_view() + seq![part@],
{
    let ghost before = parts.deep_view();
    let ghost view = part@;
    parts.push(part);
    assert(parts.deep_view() =~= before + seq![view]);
}

/// The status line at a given time, where `clock` is the time of day at which the usage
/// window resets.
pub fn render_at(
    data: &StdinData,
    config: &Config,
    transcript: &TranscriptData,
    git: Option<&GitInfo>,
    usage: Option<&UsageInfo>,
    cache: &CacheStatus,
    now: i64,
    clock: &str,
) -> (line: String)
    requires
        cache_fits(*cache, now as int),
        timeline::activity_fits(transcript@.agents, now as int),
        transcript@.todos.len() + transcript@.tasks.len() <= usize::MAX,
    ensures
        line@ == status_line(
            data@,
            config@,
            transcript@,
            git_view(git),
            usage_of(usage),
            *cache,
            now as int,
            clock@,
        ),
{
    let mut parts: Vec<String> = Vec::new();
    push_part(&mut parts, project_name(data, config));
    push_section(&mut parts, git_label(git, config));
    push_part(&mut parts, model_label(data));
    push_section(&mut parts, context_label(data, config));
    push_part(&mut parts, render_cache_label_at(cache, config, now));
    push_section(&mut parts, render_usage_with(usage, config, clock));
    push_section(
        &mut parts,
        render_activity_line_at(&transcript.tools, &transcript.agents, config, now),
    );
    push_section(
        &mut parts,
        render_tasks(transcript.todos.as_slice(), &transcript.tasks, config),
    );
    assert(parts.deep_view() =~= sections(
        data@,
        config@,
        transcript@,
        git_view(git),
        usage_of(usage),
        *cache,
        now as int,
        clock@,
    ));
    let separator: String = rendered_separator(config);
    join(&parts, separator.as_str())
}

/// Whether a status line can be computed at a given time.
pub open spec fn line_fits(
    transcript: TranscriptView,
    usage: Option<UsageInfo>,
    cache: CacheStatus,
    now: int,
) -> bool {
    &&& cache_fits(cache, now)
    &&& timeline::activity_fits(transcript.agents, now)
    &&& usage_fits(usage, now)
    &&& transcript.todos.len() + transcript.tasks.len() <= usize::MAX
}

/// Whether a status line can be computed at a given time.
pub fn is_line_renderable(
    transcript: &TranscriptData,
    usage: Option<&UsageInfo>,
    cache: &CacheStatus,
    now: i64,
) -> (holds: bool)
    ensures
        holds == line_fits(transcript@, usage_of(usage), *cache, now as int),
{
    let reset_fits: bool = match reset_shown(usage) {
        Some(reset_secs) => clock::is_reset_computable(reset_secs, now),
        None => true,
    };
    reset_fits && is_cache_renderable(cache, now) && is_activity_renderable(&transcript.agents, now)
        && transcript.todos.len().checked_add(transcript.tasks.len()).is_some()
}

/// Whether a text is the status line at a time, on a clock in some time zone.
pub open spec fn is_line_at(
    line: Seq<char>,
    data: StdinView,
    config: ConfigView,
    transcript: TranscriptView,
    git: Option<GitView>,
    usage: Option<UsageInfo>,
    cache: CacheStatus,
    now: int,
) -> bool {
    exists|clock: Seq<char>|
        #[trigger] is_reset_clock(clock, usage, now) && line == status_line(
            data,
            config,
            transcript,
            git,
            usage,
            cache,
            now,
            clock,
        )
}

/// The status line now.
pub fn render(
    data: &StdinData,
    config: &Config,
    transcript: &TranscriptData,
    git: Option<&GitInfo>,
    usage: Option<&UsageInfo>,
    cache: &CacheStatus,
) -> (line: String)
    requires
        forall|now: int|
            clock::on_the_clock(now) ==> #[trigger] line_fits(
                transcript@,
                usage_of(usage),
                *cache,
                now,
            ),
    ensures
        exists|now: int|
            clock::on_the_clock(now) && #[trigger] is_line_at(
                line@,
                data@,
                config@,
                transcript@,
                git_view(git),
                usage_of(usage),
                *cache,
                now,
            ),
{
    let now: i64 = utc_now();
    assert(line_fits(transcript@, usage_of(usage), *cache, now as int));
    let clock: String = reset_clock_at(usage, now);
    let line: String = render_at(data, config, transcript, git, usage, cache, now, clock.as_str());
    assert(is_line_at(
        line@,
        data@,
        config@,
        transcript@,
        git_view(git),
        usage_of(usage),
        *cache,
        now as int,
    ));
    line
}

/// The status line now, or nothing where the clock and the times that are handed in lie so
/// far apart that their difference cannot be computed.
pub fn render_if_computable(
    data: &StdinData,
    config: &Config,
    transcript: &TranscriptData,
    git: Option<&GitInfo>,
    usage: Option<&UsageInfo>,
    cache: &CacheStatus,
) -> (line: Option<String>)
    ensures
        exists|now: int|
            clock::on_the_clock(now) && (line is Some <==> #[trigger] line_fits(
                transcript@,
                usage_of(usage),
                *cache,
                now,
            )) && (line is Some ==> is_line_at(
                line->0@,
                data@,
                config@,
                transcript@,
                git_view(git),
                usage_of(usage),
                *cache,
                now,
            )),
{
    let now: i64 = utc_now();
    if !is_line_renderable(transcript, usage, cache, now) {
        return None;
    }
    let clock: String = reset_clock_at(usage, now);
    let line: String = render_at(data, config, transcript, git, usage, cache, now, clock.as_str());
    assert(is_line_at(
        line@,
        data@,
        config@,
        transcript@,
        git_view(git),
        usage_of(usage),
        *cache,
        now as int,
    ));
    Some(line)
}

} // verus!
