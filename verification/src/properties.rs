//! What holds of every status line.

use crate::clock;
use crate::render;
use crate::render::{CELLS, FIVE_HOUR_SECS};
use crate::style;
use crate::style::{
    BRIGHT, DIM, GREEN, PACE_COMFORTABLE, PACE_CRITICAL, PACE_ON_TRACK, PACE_PRESSING,
    PACE_RUNAWAY, PACE_WARMING, RED, RESET, USAGE_GRADIENT, YELLOW,
};
use crate::table::Rows;
use crate::text;
use crate::timeline;
use crate::timeline::{ItemView, TimelineKind};
use crate::types;
use crate::types::{
    AgentView, CacheStatus, ConfigView, GitView, StdinView, ToolView, TranscriptView, UsageInfo,
};
use vstd::prelude::*;
use vstd::string::*;

verus! {

/// Whether a character does not occur in a text.
pub open spec fn free(s: Seq<char>, c: char) -> bool {
    forall|i: int| 0 <= i < s.len() ==> #[trigger] s[i] != c
}

/// Whether a character does not occur in a text that may be absent.
pub open spec fn free_option(s: Option<Seq<char>>, c: char) -> bool {
    match s {
        Some(shown) => free(shown, c),
        None => true,
    }
}

/// Whether a character occurs in none of several texts.
pub open spec fn all_free(parts: Seq<Seq<char>>, c: char) -> bool {
    forall|i: int| 0 <= i < parts.len() ==> free(#[trigger] parts[i], c)
}

/// Whether a character occurs in none of the texts that a status line is made of.
pub open spec fn inputs_free(
    data: StdinView,
    config: ConfigView,
    transcript: TranscriptView,
    git: Option<GitView>,
    clock: Seq<char>,
    c: char,
) -> bool {
    &&& free_option(data.cwd, c)
    &&& free_option(data.model_name(), c)
    &&& free(config.separator(), c)
    &&& tools_free(transcript.tools, c)
    &&& agents_free(transcript.agents, c)
    &&& git is Some ==> free(git->0.branch, c)
    &&& free(clock, c)
}

/// Whether a character occurs in no name and no target of the tool calls.
pub open spec fn tools_free(tools: Rows<ToolView>, c: char) -> bool {
    forall|i: int|
        0 <= i < tools.len() ==> free((#[trigger] tools[i]).1.name, c) && free_option(
            tools[i].1.target,
            c,
        )
}

/// Whether a character occurs in no type and no model of the agents.
pub open spec fn agents_free(agents: Rows<AgentView>, c: char) -> bool {
    forall|i: int|
        0 <= i < agents.len() ==> free_option((#[trigger] agents[i]).1.subagent_type, c)
            && free_option(agents[i].1.model, c)
}

/// Characters that the library does not put into a line by itself: line breaks, and the
/// escape character where colors are disabled.
pub open spec fn never_added(c: char, colors: bool) -> bool {
    c == '\n' || c == '\x1b' && !colors
}

proof fn lemma_free_concat(a: Seq<char>, b: Seq<char>, c: char)
    requires
        free(a, c),
        free(b, c),
    ensures
        free(a + b, c),
{
    assert forall|i: int| 0 <= i < (a + b).len() implies #[trigger] (a + b)[i] != c by {
        if i < a.len() {
            assert((a + b)[i] == a[i]);
        } else {
            assert((a + b)[i] == b[i - a.len()]);
        }
    }
}

proof fn lemma_free_joined(parts: Seq<Seq<char>>, separator: Seq<char>, c: char)
    requires
        all_free(parts, c),
        free(separator, c),
    ensures
        free(text::joined(parts, separator), c),
    decreases parts.len(),
{
    if parts.len() == 1 {
        assert(free(parts[0], c));
    } else if parts.len() > 1 {
        let rest = parts.drop_last();
        assert forall|i: int| 0 <= i < rest.len() implies free(#[trigger] rest[i], c) by {
            assert(rest[i] == parts[i]);
        }
        lemma_free_joined(rest, separator, c);
        lemma_free_concat(text::joined(rest, separator), separator, c);
        assert(free(parts[parts.len() - 1], c));
        lemma_free_concat(text::joined(rest, separator) + separator, parts.last(), c);
    }
}

proof fn lemma_free_decimal(n: nat, c: char)
    requires
        !text::ascii_digit(c),
    ensures
        free(text::decimal(n), c),
        free(text::decimal2(n), c),
    decreases n,
{
    if n >= 10 {
        lemma_free_decimal(n / 10, c);
    }
    assert(48 <= text::digit(n % 10) as int <= 57);
}

proof fn lemma_free_trimmed(s: Seq<char>, c: char)
    requires
        free(s, c),
    ensures
        free(text::trimmed_start(s), c),
        free(text::trimmed_end(s), c),
    decreases s.len(),
{
    if s.len() > 0 {
        let front = s.drop_last();
        let back = s.drop_first();
        assert forall|i: int| 0 <= i < front.len() implies #[trigger] front[i] != c by {
            assert(front[i] == s[i]);
        }
        assert forall|i: int| 0 <= i < back.len() implies #[trigger] back[i] != c by {
            assert(back[i] == s[i + 1]);
        }
        lemma_free_trimmed(front, c);
        lemma_free_trimmed(back, c);
    }
}

proof fn lemma_free_pieces(s: Seq<char>, separator: char, c: char)
    requires
        free(s, c),
    ensures
        all_free(text::pieces(s, separator), c),
    decreases s.len(),
{
    text::lemma_pieces_nonempty(s, separator);
    if s.len() > 0 {
        let front = s.drop_last();
        assert forall|i: int| 0 <= i < front.len() implies #[trigger] front[i] != c by {
            assert(front[i] == s[i]);
        }
        lemma_free_pieces(front, separator, c);
        text::lemma_pieces_nonempty(front, separator);
        let before = text::pieces(front, separator);
        assert(free(before[before.len() - 1], c));
        assert(s[s.len() - 1] != c);
        let after = text::pieces(s, separator);
        assert forall|i: int| 0 <= i < after.len() implies free(#[trigger] after[i], c) by {
            if i < before.len() - 1 {
                assert(after[i] == before[i]);
            }
        }
    }
}

proof fn lemma_free_replaced(s: Seq<char>, at: char, with: Seq<char>, c: char)
    requires
        free(s, c),
        free(with, c),
    ensures
        free(text::replaced(s, at, with), c),
    decreases s.len(),
{
    if s.len() > 0 {
        let front = s.drop_last();
        assert forall|i: int| 0 <= i < front.len() implies #[trigger] front[i] != c by {
            assert(front[i] == s[i]);
        }
        lemma_free_replaced(front, at, with, c);
        lemma_free_concat(text::replaced(front, at, with), with, c);
        assert(s[s.len() - 1] != c);
    }
}

proof fn lemma_color_codes(step: int)
    requires
        0 <= step < 10,
    ensures
        free(RESET@, '\n') && is_code(RESET@),
        free(BRIGHT@, '\n') && is_code(BRIGHT@),
        free(DIM@, '\n') && is_code(DIM@),
        free(RED@, '\n') && is_code(RED@),
        free(YELLOW@, '\n') && is_code(YELLOW@),
        free(GREEN@, '\n') && is_code(GREEN@),
        free(PACE_COMFORTABLE@, '\n') && is_code(PACE_COMFORTABLE@),
        free(PACE_ON_TRACK@, '\n') && is_code(PACE_ON_TRACK@),
        free(PACE_WARMING@, '\n') && is_code(PACE_WARMING@),
        free(PACE_PRESSING@, '\n') && is_code(PACE_PRESSING@),
        free(PACE_CRITICAL@, '\n') && is_code(PACE_CRITICAL@),
        free(PACE_RUNAWAY@, '\n') && is_code(PACE_RUNAWAY@),
        free(USAGE_GRADIENT[step]@, '\n') && is_code(USAGE_GRADIENT[step]@),
{
    reveal_strlit("\x1b[0m");
    reveal_strlit("\x1b[1;37m");
    reveal_strlit("\x1b[2m");
    reveal_strlit("\x1b[31m");
    reveal_strlit("\x1b[33m");
    reveal_strlit("\x1b[32m");
    reveal_strlit("\x1b[38;5;34m");
    reveal_strlit("\x1b[38;5;37m");
    reveal_strlit("\x1b[38;5;178m");
    reveal_strlit("\x1b[38;5;208m");
    reveal_strlit("\x1b[38;5;160m");
    reveal_strlit("\x1b[38;5;96m");
    reveal_strlit("\x1b[38;5;22m");
    reveal_strlit("\x1b[38;5;28m");
    reveal_strlit("\x1b[38;5;100m");
    reveal_strlit("\x1b[38;5;142m");
    reveal_strlit("\x1b[38;5;172m");
    reveal_strlit("\x1b[38;5;166m");
    reveal_strlit("\x1b[38;5;124m");
}

proof fn lemma_free_colored(shown: Seq<char>, color: Seq<char>, enabled: bool, c: char)
    requires
        free(shown, c),
        never_added(c, enabled),
        free(color, '\n'),
    ensures
        free(style::colored(shown, color, enabled), c),
{
    lemma_color_codes(0);
    if enabled {
        lemma_free_concat(color, shown, c);
        lemma_free_concat(color + shown, RESET@, c);
    }
}

/// No literal of the library holds a line break or the escape character, but for the codes.
proof fn lemma_literals(c: char)
    requires
        c == '\n' || c == '\x1b',
    ensures
        free("agent"@, c),
        free(" x"@, c),
        free(" "@, c),
        free("["@, c),
        free("]"@, c),
        free("0s"@, c),
        free("s"@, c),
        free("m "@, c),
        free("Usage: "@, c),
        free("% "@, c),
        free("┃"@, c),
        free(" → "@, c),
        free("tasks "@, c),
        free("/"@, c),
        free(":"@, c),
        free("⧖ cold"@, c),
        free("no data"@, c),
        free("⎇ "@, c),
        free("*"@, c),
        free("cstat"@, c),
        free("Ctx: "@, c),
        free("%"@, c),
{
    reveal_strlit("agent");
    reveal_strlit(" x");
    reveal_strlit(" ");
    reveal_strlit("[");
    reveal_strlit("]");
    reveal_strlit("0s");
    reveal_strlit("s");
    reveal_strlit("m ");
    reveal_strlit("Usage: ");
    reveal_strlit("% ");
    reveal_strlit("┃");
    reveal_strlit(" → ");
    reveal_strlit("tasks ");
    reveal_strlit("/");
    reveal_strlit(":");
    reveal_strlit("⧖ cold");
    reveal_strlit("no data");
    reveal_strlit("⎇ ");
    reveal_strlit("*");
    reveal_strlit("cstat");
    reveal_strlit("Ctx: ");
    reveal_strlit("%");
}

proof fn lemma_free_agent_duration(seconds: int, c: char)
    requires
        c == '\n' || c == '\x1b',
    ensures
        free(style::agent_duration(seconds), c),
{
    lemma_literals(c);
    if seconds >= 60 {
        let minutes = text::decimal((seconds / 60) as nat);
        let secs = text::decimal((seconds % 60) as nat);
        lemma_free_decimal((seconds / 60) as nat, c);
        lemma_free_decimal((seconds % 60) as nat, c);
        lemma_free_concat(minutes, "m "@, c);
        lemma_free_concat(minutes + "m "@, secs, c);
        lemma_free_concat(minutes + "m "@ + secs, "s"@, c);
    } else if seconds >= 0 {
        lemma_free_decimal(seconds as nat, c);
        lemma_free_concat(text::decimal(seconds as nat), "s"@, c);
    }
}

/// Whether a character does not occur in what is shown of an item.
spec fn item_free(item: ItemView, c: char) -> bool {
    free(item.name, c) && (item.kind == TimelineKind::Tool ==> free_option(item.target, c))
        && free_option(item.model, c)
}

spec fn items_free(items: Seq<ItemView>, c: char) -> bool {
    forall|i: int| 0 <= i < items.len() ==> item_free(#[trigger] items[i], c)
}

proof fn lemma_free_in_order(items: Seq<ItemView>, c: char)
    requires
        items_free(items, c),
    ensures
        items_free(timeline::in_order(items), c),
    decreases items.len(),
{
    if items.len() > 0 {
        let rest = items.drop_last();
        assert forall|i: int| 0 <= i < rest.len() implies item_free(#[trigger] rest[i], c) by {
            assert(rest[i] == items[i]);
        }
        lemma_free_in_order(rest, c);
        let before = timeline::in_order(rest);
        let last = items[items.len() - 1];
        let at = timeline::place(before, last.seq);
        timeline::lemma_place(before, last.seq);
        let after = timeline::in_order(items);
        assert forall|i: int| 0 <= i < after.len() implies item_free(#[trigger] after[i], c) by {
            if i < at {
                assert(after[i] == before[i]);
            } else if i > at {
                assert(after[i] == before[i - 1]);
            }
        }
    }
}

proof fn lemma_free_completed(items: Seq<ItemView>, c: char)
    requires
        items_free(items, c),
    ensures
        all_free(timeline::completed_names(items), c),
        items_free(timeline::running_items(items), c),
    decreases items.len(),
{
    if items.len() > 0 {
        let rest = items.drop_last();
        assert forall|i: int| 0 <= i < rest.len() implies item_free(#[trigger] rest[i], c) by {
            assert(rest[i] == items[i]);
        }
        assert(item_free(items[items.len() - 1], c));
        lemma_free_completed(rest, c);
    }
}

proof fn lemma_free_runs(names: Seq<Seq<char>>, c: char)
    requires
        all_free(names, c),
    ensures
        forall|i: int|
            0 <= i < timeline::runs(names).len() ==> free(
                (#[trigger] timeline::runs(names)[i]).0,
                c,
            ),
    decreases names.len(),
{
    if names.len() > 0 {
        let rest = names.drop_last();
        assert forall|i: int| 0 <= i < rest.len() implies free(#[trigger] rest[i], c) by {
            assert(rest[i] == names[i]);
        }
        assert(free(names[names.len() - 1], c));
        lemma_free_runs(rest, c);
        let before = timeline::runs(rest);
        let after = timeline::runs(names);
        assert forall|i: int| 0 <= i < after.len() implies free((#[trigger] after[i]).0, c) by {
            if i < after.len() - 1 {
                assert(after[i] == before[i]);
            }
        }
    }
}

proof fn lemma_free_running_part(item: ItemView, colors: bool, now: int, c: char)
    requires
        item_free(item, c),
        never_added(c, colors),
    ensures
        free(timeline::running_part(item, colors, now), c),
{
    lemma_literals(c);
    lemma_color_codes(0);
    match item.kind {
        TimelineKind::Tool => {
            if item.target is Some {
                lemma_free_concat(item.name, " "@, c);
                lemma_free_concat(item.name + " "@, item.target->0, c);
            }
            lemma_free_colored(timeline::tool_label(item), BRIGHT@, colors, c);
        },
        TimelineKind::Agent => {
            let model = match item.model {
                Some(model) => "["@ + model + "]"@,
                None => seq![],
            };
            if item.model is Some {
                lemma_free_concat("["@, item.model->0, c);
                lemma_free_concat("["@ + item.model->0, "]"@, c);
            }
            let ran = match item.start_time {
                Some(start) => style::agent_duration(now - start),
                None => seq![],
            };
            if item.start_time is Some {
                lemma_free_agent_duration(now - item.start_time->0, c);
            }
            lemma_free_concat(item.name, model, c);
            lemma_free_concat(item.name + model, " "@, c);
            lemma_free_concat(item.name + model + " "@, ran, c);
            let whole = item.name + model + " "@ + ran;
            lemma_free_trimmed(whole, c);
            lemma_free_trimmed(text::trimmed_start(whole), c);
            lemma_free_colored(timeline::agent_label(item, now), YELLOW@, colors, c);
        },
    }
}

proof fn lemma_free_activity_parts(
    tools: Rows<ToolView>,
    agents: Rows<AgentView>,
    colors: bool,
    now: int,
    c: char,
)
    requires
        tools_free(tools, c),
        agents_free(agents, c),
        never_added(c, colors),
    ensures
        all_free(
            timeline::activity_parts(timeline::timeline(tools, agents), colors, now),
            c,
        ),
{
    let all = timeline::all_items(tools, agents);
    lemma_literals(c);
    lemma_color_codes(0);
    assert forall|i: int| 0 <= i < all.len() implies item_free(#[trigger] all[i], c) by {
        if i < tools.len() {
            assert(all[i] == timeline::tool_item(tools[i].1));
        } else {
            assert(all[i] == timeline::agent_item(agents[i - tools.len()].1));
        }
    }
    lemma_free_in_order(all, c);
    let items = timeline::timeline(tools, agents);
    lemma_free_completed(items, c);
    let groups = timeline::runs(timeline::completed_names(items));
    lemma_free_runs(timeline::completed_names(items), c);
    if groups.len() > 0 {
        let name = groups[groups.len() - 1].0;
        let count = groups.last().1;
        assert(free(name, c));
        lemma_free_decimal(count, c);
        lemma_free_concat(name, " x"@, c);
        lemma_free_concat(name + " x"@, text::decimal(count), c);
        lemma_free_colored(timeline::run_label(name, count), DIM@, colors, c);
    }
    let running = timeline::running_items(items);
    let parts = timeline::activity_parts(items, colors, now);
    let history = timeline::history_part(items, colors);
    assert forall|i: int| 0 <= i < parts.len() implies free(#[trigger] parts[i], c) by {
        if i >= history.len() {
            let item = running[i - history.len()];
            assert(parts[i] == timeline::running_part(item, colors, now));
            lemma_free_running_part(item, colors, now, c);
        }
    }
}

proof fn lemma_free_activity(
    tools: Rows<ToolView>,
    agents: Rows<AgentView>,
    config: ConfigView,
    now: int,
    c: char,
)
    requires
        tools_free(tools, c),
        agents_free(agents, c),
        free(config.separator(), c),
        never_added(c, config.colors()),
    ensures
        free_option(timeline::activity(tools, agents, config, now), c),
{
    let parts = timeline::activity_parts(
        timeline::timeline(tools, agents),
        config.colors(),
        now,
    );
    lemma_color_codes(0);
    lemma_free_activity_parts(tools, agents, config.colors(), now, c);
    lemma_free_colored(config.separator(), DIM@, config.colors(), c);
    lemma_free_joined(parts, style::separator_shown(config), c);
}

proof fn lemma_free_usage(usage: Option<UsageInfo>, config: ConfigView, clock: Seq<char>, c: char)
    requires
        free(clock, c),
        never_added(c, config.colors()),
    ensures
        free_option(render::usage_section(usage, config, clock), c),
{
    lemma_literals(c);
    if usage is Some && usage->0.usage_5h is Some {
        let pct = usage->0.usage_5h->0.percent();
        let reset = usage->0.reset_5h;
        let step = style::gradient_step(pct);
        lemma_color_codes(step);
        let plain = render::usage_bar(pct, reset);
        assert(free(plain, c));
        let bar = if config.colors() && render::inside_window(reset) {
            text::replaced(plain, '┃', render::marker_shown(pct, reset->0 as int))
        } else {
            plain
        };
        if config.colors() && render::inside_window(reset) {
            let pace = style::pace_tier(render::projected(pct, reset->0 as int));
            lemma_free_concat(pace, "┃"@, c);
            lemma_free_concat(pace + "┃"@, RESET@, c);
            lemma_free_concat(pace + "┃"@ + RESET@, USAGE_GRADIENT[step]@, c);
            lemma_free_replaced(plain, '┃', render::marker_shown(pct, reset->0 as int), c);
        }
        let until = if render::shown_reset(usage) is Some {
            " → "@ + clock
        } else {
            seq![]
        };
        lemma_free_concat(" → "@, clock, c);
        lemma_free_decimal(pct as nat, c);
        let number = text::decimal(pct as nat);
        lemma_free_concat("Usage: "@, number, c);
        lemma_free_concat("Usage: "@ + number, "% "@, c);
        lemma_free_concat("Usage: "@ + number + "% "@, bar, c);
        lemma_free_concat("Usage: "@ + number + "% "@ + bar, until, c);
        lemma_free_colored(
            "Usage: "@ + number + "% "@ + bar + until,
            USAGE_GRADIENT[step]@,
            config.colors(),
            c,
        );
    }
}

proof fn lemma_free_tasks(transcript: TranscriptView, config: ConfigView, c: char)
    requires
        never_added(c, config.colors()),
    ensures
        free_option(
            render::tasks_section(transcript.todos, transcript.tasks, config),
            c,
        ),
{
    lemma_literals(c);
    lemma_color_codes(0);
    let total = text::decimal(transcript.todos.len() + transcript.tasks.len());
    let done = render::completed_todos(transcript.todos) + render::completed_tasks(
        transcript.tasks,
    );
    let completed = text::decimal(done);
    lemma_free_decimal(transcript.todos.len() + transcript.tasks.len(), c);
    lemma_free_decimal(done, c);
    lemma_free_concat("tasks "@, completed, c);
    lemma_free_concat("tasks "@ + completed, "/"@, c);
    lemma_free_concat("tasks "@ + completed + "/"@, total, c);
    lemma_free_colored("tasks "@ + completed + "/"@ + total, GREEN@, config.colors(), c);
    lemma_free_colored("tasks "@ + completed + "/"@ + total, DIM@, config.colors(), c);
}

proof fn lemma_free_cache(cache: CacheStatus, config: ConfigView, now: int, c: char)
    requires
        never_added(c, config.colors()),
    ensures
        free(render::cache_section(cache, config, now), c),
{
    lemma_literals(c);
    lemma_color_codes(0);
    if cache.last_cache_hit is Some {
        let remaining = render::warm_secs(cache.last_cache_hit->0 as int, now);
        let glyph = seq![
            if render::miss_shown(cache, now) {
                '$'
            } else {
                '⧖'
            },
            ' ',
        ];
        let minutes = text::decimal((remaining / 60) as nat);
        let secs = text::decimal2((remaining % 60) as nat);
        lemma_free_decimal((remaining / 60) as nat, c);
        lemma_free_decimal((remaining % 60) as nat, c);
        lemma_free_concat(glyph, minutes, c);
        lemma_free_concat(glyph + minutes, ":"@, c);
        lemma_free_concat(glyph + minutes + ":"@, secs, c);
    }
    lemma_free_colored(
        render::cache_text(cache, now),
        render::cache_color(cache, now),
        config.colors(),
        c,
    );
}

proof fn lemma_free_head(
    data: StdinView,
    config: ConfigView,
    git: Option<GitView>,
    c: char,
)
    requires
        free_option(data.cwd, c),
        free_option(data.model_name(), c),
        git is Some ==> free(git->0.branch, c),
        never_added(c, config.colors()),
    ensures
        free(render::project_section(data, config), c),
        free_option(render::git_section(git, config), c),
        free(render::model_section(data), c),
        free_option(render::context_section(data, config), c),
{
    lemma_literals(c);
    lemma_color_codes(0);
    if data.cwd is Some {
        let components = text::pieces(data.cwd->0, '/');
        let from = components.len() - config.path_levels();
        lemma_free_pieces(data.cwd->0, '/', c);
        if from > 0 {
            let shown = components.skip(from);
            assert forall|i: int| 0 <= i < shown.len() implies free(#[trigger] shown[i], c) by {
                assert(shown[i] == components[from + i]);
            }
            lemma_free_joined(shown, "/"@, c);
        } else {
            lemma_free_joined(components, "/"@, c);
        }
    }
    if git is Some {
        let dirty = if git->0.dirty {
            "*"@
        } else {
            seq![]
        };
        lemma_free_concat("⎇ "@, git->0.branch, c);
        lemma_free_concat("⎇ "@ + git->0.branch, dirty, c);
        lemma_free_colored("⎇ "@ + git->0.branch + dirty, GREEN@, config.colors(), c);
    }
    if render::context_pct(data) is Some {
        let pct = render::context_pct(data)->0;
        let number = text::decimal(pct as nat);
        lemma_free_decimal(pct as nat, c);
        lemma_free_concat("Ctx: "@, number, c);
        lemma_free_concat("Ctx: "@ + number, "%"@, c);
        lemma_free_colored(
            "Ctx: "@ + number + "%"@,
            style::context_color(pct as int, config),
            config.colors(),
            c,
        );
    }
}

proof fn lemma_free_line(
    data: StdinView,
    config: ConfigView,
    transcript: TranscriptView,
    git: Option<GitView>,
    usage: Option<UsageInfo>,
    cache: CacheStatus,
    now: int,
    clock: Seq<char>,
    c: char,
)
    requires
        inputs_free(data, config, transcript, git, clock, c),
        never_added(c, config.colors()),
    ensures
        free(
            render::status_line(data, config, transcript, git, usage, cache, now, clock),
            c,
        ),
{
    lemma_free_head(data, config, git, c);
    lemma_free_cache(cache, config, now, c);
    lemma_free_usage(usage, config, clock, c);
    lemma_free_activity(transcript.tools, transcript.agents, config, now, c);
    lemma_free_tasks(transcript, config, c);
    lemma_color_codes(0);
    lemma_free_colored(config.separator(), DIM@, config.colors(), c);
    let parts = render::sections(data, config, transcript, git, usage, cache, now, clock);
    assert(all_free(parts, c));
    lemma_free_joined(parts, style::separator_shown(config), c);
}

/// The status line is a single line, as long as nothing that it is made of holds a line
/// break.
pub proof fn law_line_is_single(
    data: StdinView,
    config: ConfigView,
    transcript: TranscriptView,
    git: Option<GitView>,
    usage: Option<UsageInfo>,
    cache: CacheStatus,
    now: int,
    clock: Seq<char>,
)
    requires
        inputs_free(data, config, transcript, git, clock, '\n'),
    ensures
        free(
            render::status_line(data, config, transcript, git, usage, cache, now, clock),
            '\n',
        ),
{
    lemma_free_line(data, config, transcript, git, usage, cache, now, clock, '\n');
}

/// With colors disabled the status line holds no escape character, as long as nothing that
/// it is made of holds one.
pub proof fn law_no_codes_without_colors(
    data: StdinView,
    config: ConfigView,
    transcript: TranscriptView,
    git: Option<GitView>,
    usage: Option<UsageInfo>,
    cache: CacheStatus,
    now: int,
    clock: Seq<char>,
)
    requires
        !config.colors(),
        inputs_free(data, config, transcript, git, clock, '\x1b'),
    ensures
        free(
            render::status_line(data, config, transcript, git, usage, cache, now, clock),
            '\x1b',
        ),
{
    lemma_free_line(data, config, transcript, git, usage, cache, now, clock, '\x1b');
}

/// A time of day holds neither a line break nor an escape character.
pub proof fn law_clock_is_plain(shown: Seq<char>, second: int)
    requires
        clock::clock_shows(shown, second),
    ensures
        free(shown, '\n'),
        free(shown, '\x1b'),
{
    let offset = choose|offset: Option<i64>|
        #[trigger] clock::is_offset_at(offset, second) && shown == clock::clock_with(
            second,
            offset,
        );
    if offset is Some {
        let at = second + offset->0;
        let hours = (at % 86400 / 3600) as nat;
        let minutes = (at % 3600 / 60) as nat;
        lemma_literals('\n');
        lemma_literals('\x1b');
        lemma_free_decimal(hours, '\n');
        lemma_free_decimal(minutes, '\n');
        lemma_free_decimal(hours, '\x1b');
        lemma_free_decimal(minutes, '\x1b');
        lemma_free_concat(text::decimal2(hours), ":"@, '\n');
        lemma_free_concat(text::decimal2(hours) + ":"@, text::decimal2(minutes), '\n');
        lemma_free_concat(text::decimal2(hours), ":"@, '\x1b');
        lemma_free_concat(text::decimal2(hours) + ":"@, text::decimal2(minutes), '\x1b');
    }
}

proof fn lemma_joined_holds(parts: Seq<Seq<char>>, separator: Seq<char>, i: int)
    requires
        0 <= i < parts.len(),
    ensures
        text::joined(parts, separator).len() >= parts[i].len(),
    decreases parts.len(),
{
    if parts.len() > 1 && i < parts.len() - 1 {
        lemma_joined_holds(parts.drop_last(), separator, i);
    }
}

/// The status line is never empty.
pub proof fn law_line_is_never_empty(
    data: StdinView,
    config: ConfigView,
    transcript: TranscriptView,
    git: Option<GitView>,
    usage: Option<UsageInfo>,
    cache: CacheStatus,
    now: int,
    clock: Seq<char>,
)
    ensures
        render::status_line(data, config, transcript, git, usage, cache, now, clock).len() >= 6,
{
    let parts = render::sections(data, config, transcript, git, usage, cache, now, clock);
    let i = 2 + render::optional(render::git_section(git, config)).len() + render::optional(
        render::context_section(data, config),
    ).len();
    assert(parts[i as int] == render::cache_section(cache, config, now));
    lemma_joined_holds(parts, style::separator_shown(config), i as int);
    lemma_cache_text_width(cache, now);
}

proof fn lemma_decimal_len(n: nat)
    ensures
        text::decimal(n).len() >= 1,
        n < 10 ==> text::decimal(n).len() == 1,
        n < 100 ==> text::decimal2(n).len() == 2,
    decreases n,
{
    if n >= 10 {
        lemma_decimal_len(n / 10);
    }
}

proof fn lemma_cache_text_width(cache: CacheStatus, now: int)
    ensures
        render::cache_text(cache, now).len() >= 6,
        cache.last_cache_hit is None || cache.last_cache_hit->0 <= now ==> render::cache_text(
            cache,
            now,
        ).len() == 6,
{
    reveal_strlit("⧖ cold");
    reveal_strlit(":");
    if cache.last_cache_hit is Some {
        let remaining = render::warm_secs(cache.last_cache_hit->0 as int, now);
        if remaining > 0 {
            lemma_decimal_len((remaining / 60) as nat);
            lemma_decimal_len((remaining % 60) as nat);
        }
    }
}

/// As long as the last hit does not lie ahead, the label of the cache is six characters
/// wide, warm or cold, flagged or not.
pub proof fn law_cache_label_keeps_its_width(cache: CacheStatus, now: int)
    requires
        cache.last_cache_hit is Some ==> cache.last_cache_hit->0 <= now,
    ensures
        render::cache_text(cache, now).len() == 6,
{
    lemma_cache_text_width(cache, now);
}

/// Flagging a miss swaps the glyph and nothing else: neither the countdown, nor the color,
/// nor the width changes.
pub proof fn law_flag_swaps_the_glyph(cache: CacheStatus, miss: Option<i64>, now: int)
    ensures
        ({
            let other = CacheStatus { last_cache_miss: miss, ..cache };
            &&& render::cache_text(cache, now).len() == render::cache_text(other, now).len()
            &&& render::cache_text(cache, now).skip(1) == render::cache_text(other, now).skip(1)
            &&& render::cache_color(cache, now) == render::cache_color(other, now)
        }),
{
    let other = CacheStatus { last_cache_miss: miss, ..cache };
    assert(render::cache_text(cache, now).skip(1) =~= render::cache_text(other, now).skip(1));
}

/// The bar always has ten cells. It holds a marker, and just one, exactly inside the window;
/// the other cells are filled from the left.
pub proof fn law_bar_has_ten_cells(pct: int, reset_secs: Option<i64>)
    requires
        0 <= pct,
    ensures
        ({
            let bar = render::usage_bar(pct, reset_secs);
            &&& bar.len() == 10
            &&& render::inside_window(reset_secs) ==> exists|at: int|
                0 <= at < 10 && #[trigger] bar[at] == '┃' && forall|i: int|
                    0 <= i < 10 && i != at ==> #[trigger] bar[i] != '┃'
            &&& !render::inside_window(reset_secs) ==> free(bar, '┃')
            &&& forall|i: int|
                0 <= i < 10 && #[trigger] bar[i] != '┃' ==> (bar[i] == '▓' <==> i
                    < render::filled_cells(pct)) && (bar[i] == '░' <==> i >= render::filled_cells(
                    pct,
                ))
        }),
{
    let bar = render::usage_bar(pct, reset_secs);
    if render::inside_window(reset_secs) {
        let remaining = reset_secs->0 as int;
        let at = render::marked_cell(remaining);
        assert(0 <= at < 10);
        assert(bar[at] == '┃');
    }
}

/// More usage never fills fewer cells nor steps back in the gradient, and the marker only
/// moves to the right as time passes.
pub proof fn law_usage_is_monotone(pct: int, more: int, remaining: int, less: int)
    requires
        0 <= pct <= more,
        0 < less <= remaining < FIVE_HOUR_SECS,
    ensures
        0 <= render::filled_cells(pct) <= render::filled_cells(more) <= CELLS,
        0 <= style::gradient_step(pct) <= style::gradient_step(more) < 10,
        0 <= render::marked_cell(remaining) <= render::marked_cell(less) < CELLS,
{
}

/// One for a section that is shown, none for one that is left out.
pub open spec fn shown_or_not(shown: bool) -> nat {
    if shown {
        1
    } else {
        0
    }
}

/// The line has the project, the model and the cache label, and one section more for each
/// of branch, context, usage, activity and tasks that has something to show: nothing
/// stands for an absent one.
pub proof fn law_absent_sections_leave_no_trace(
    data: StdinView,
    config: ConfigView,
    transcript: TranscriptView,
    git: Option<GitView>,
    usage: Option<UsageInfo>,
    cache: CacheStatus,
    now: int,
    clock: Seq<char>,
)
    ensures
        render::sections(data, config, transcript, git, usage, cache, now, clock).len() == 3
            + shown_or_not(git is Some) + shown_or_not(render::context_pct(data) is Some)
            + shown_or_not(usage is Some && usage->0.usage_5h is Some) + shown_or_not(
            transcript.tools.len() > 0 || transcript.agents.len() > 0,
        ) + shown_or_not(transcript.todos.len() > 0 || transcript.tasks.len() > 0),
{
    timeline::law_activity_shown_when_there_is_any(
        transcript.tools,
        transcript.agents,
        config,
        now,
    );
}

/// Where there is nothing but the report of a cold start, the line is the project, the model
/// and the cache label.
pub proof fn law_bare_line(
    data: StdinView,
    config: ConfigView,
    cache: CacheStatus,
    now: int,
    clock: Seq<char>,
)
    requires
        render::context_pct(data) is None,
    ensures
        render::sections(
            data,
            config,
            types::empty_transcript(),
            None,
            None,
            cache,
            now,
            clock,
        ) == seq![
            render::project_section(data, config),
            render::model_section(data),
            render::cache_section(cache, config, now),
        ],
{
    timeline::law_activity_shown_when_there_is_any(seq![], seq![], config, now);
    assert(render::sections(
        data,
        config,
        types::empty_transcript(),
        None,
        None,
        cache,
        now,
        clock,
    ) =~= seq![
        render::project_section(data, config),
        render::model_section(data),
        render::cache_section(cache, config, now),
    ]);
}

/// The place of the first `m` in a text, or its length where there is none.
pub open spec fn first_m(s: Seq<char>) -> nat
    decreases s.len(),
{
    if s.len() == 0 || s.first() == 'm' {
        0
    } else {
        1 + first_m(s.drop_first())
    }
}

/// Whether a text starts with a color code: the escape character, a bracket, and whatever
/// stands up to the first `m`.
pub open spec fn starts_with_code(s: Seq<char>) -> bool {
    s.len() >= 2 && s[0] == '\x1b' && s[1] == '[' && first_m(s) < s.len()
}

/// A text without its color codes.
pub open spec fn stripped(s: Seq<char>) -> Seq<char>
    decreases s.len(),
{
    if s.len() == 0 {
        seq![]
    } else if starts_with_code(s) {
        stripped(s.skip(first_m(s) as int + 1))
    } else {
        seq![s.first()] + stripped(s.drop_first())
    }
}

proof fn lemma_first_m_is(s: Seq<char>, at: int)
    requires
        0 <= at < s.len(),
        s[at] == 'm',
        forall|i: int| 0 <= i < at ==> #[trigger] s[i] != 'm',
    ensures
        first_m(s) == at,
    decreases at,
{
    if at > 0 {
        let rest = s.drop_first();
        assert(s[0] != 'm');
        assert forall|i: int| 0 <= i < at - 1 implies #[trigger] rest[i] != 'm' by {
            assert(rest[i] == s[i + 1]);
        }
        lemma_first_m_is(rest, at - 1);
    }
}

/// Whether a text is one color code.
spec fn is_code(s: Seq<char>) -> bool {
    &&& s.len() >= 3
    &&& s[0] == '\x1b'
    &&& s[1] == '['
    &&& s[s.len() - 1] == 'm'
    &&& forall|i: int| 0 <= i < s.len() - 1 ==> #[trigger] s[i] != 'm'
}

/// Whether a text, whatever follows it, is left as another once its codes are taken out.
spec fn strips_to(s: Seq<char>, plain: Seq<char>) -> bool {
    forall|rest: Seq<char>| #[trigger] stripped(s + rest) == plain + stripped(rest)
}

proof fn lemma_strips_all(s: Seq<char>, plain: Seq<char>)
    requires
        strips_to(s, plain),
    ensures
        stripped(s) == plain,
{
    let none = Seq::<char>::empty();
    assert(stripped(s + none) == plain + stripped(none));
    assert(s + none =~= s);
    assert(plain + none =~= plain);
}

proof fn lemma_strips_plain(s: Seq<char>)
    requires
        free(s, '\x1b'),
    ensures
        strips_to(s, s),
    decreases s.len(),
{
    if s.len() == 0 {
        assert forall|rest: Seq<char>| #[trigger] stripped(s + rest) == s + stripped(rest) by {
            assert(s + rest =~= rest);
            assert(s + stripped(rest) =~= stripped(rest));
        }
    } else {
        let tail = s.drop_first();
        assert forall|i: int| 0 <= i < tail.len() implies #[trigger] tail[i] != '\x1b' by {
            assert(tail[i] == s[i + 1]);
        }
        lemma_strips_plain(tail);
        assert(s[0] != '\x1b');
        assert forall|rest: Seq<char>| #[trigger] stripped(s + rest) == s + stripped(rest) by {
            let whole = s + rest;
            assert(whole[0] == s[0]);
            assert(whole.drop_first() =~= tail + rest);
            assert(stripped(tail + rest) == tail + stripped(rest));
            assert(seq![s[0]] + (tail + stripped(rest)) =~= s + stripped(rest));
        }
    }
}

proof fn lemma_strips_code(code: Seq<char>)
    requires
        is_code(code),
    ensures
        strips_to(code, seq![]),
{
    let none = Seq::<char>::empty();
    assert forall|rest: Seq<char>| #[trigger] stripped(code + rest) == none + stripped(rest) by {
        let whole = code + rest;
        let last = code.len() - 1;
        assert forall|i: int| 0 <= i < last implies #[trigger] whole[i] != 'm' by {
            assert(whole[i] == code[i]);
        }
        assert(whole[last] == code[last]);
        lemma_first_m_is(whole, last);
        assert(whole[0] == code[0] && whole[1] == code[1]);
        assert(whole.skip(last + 1) =~= rest);
        assert(none + stripped(rest) =~= stripped(rest));
    }
}

proof fn lemma_strips_concat(a: Seq<char>, x: Seq<char>, b: Seq<char>, y: Seq<char>)
    requires
        strips_to(a, x),
        strips_to(b, y),
    ensures
        strips_to(a + b, x + y),
{
    assert forall|rest: Seq<char>| #[trigger] stripped((a + b) + rest) == (x + y) + stripped(
        rest,
    ) by {
        assert((a + b) + rest =~= a + (b + rest));
        assert(stripped(a + (b + rest)) == x + stripped(b + rest));
        assert(stripped(b + rest) == y + stripped(rest));
        assert(x + (y + stripped(rest)) =~= (x + y) + stripped(rest));
    }
}

proof fn lemma_strips_colored(shown: Seq<char>, plain: Seq<char>, color: Seq<char>)
    requires
        strips_to(shown, plain),
        is_code(color),
    ensures
        strips_to(style::colored(shown, color, true), plain),
{
    let none = Seq::<char>::empty();
    lemma_color_codes(0);
    lemma_strips_code(color);
    lemma_strips_code(RESET@);
    lemma_strips_concat(color, none, shown, plain);
    lemma_strips_concat(color + shown, none + plain, RESET@, none);
    assert(none + plain + none =~= plain);
}

proof fn lemma_strips_replaced(s: Seq<char>, at: char, with: Seq<char>)
    requires
        free(s, '\x1b'),
        strips_to(with, seq![at]),
    ensures
        strips_to(text::replaced(s, at, with), s),
    decreases s.len(),
{
    if s.len() == 0 {
        lemma_strips_plain(s);
        assert(text::replaced(s, at, with) =~= s);
    } else {
        let front = s.drop_last();
        let last = s.last();
        assert forall|i: int| 0 <= i < front.len() implies #[trigger] front[i] != '\x1b' by {
            assert(front[i] == s[i]);
        }
        lemma_strips_replaced(front, at, with);
        let before = text::replaced(front, at, with);
        assert(s[s.len() - 1] != '\x1b');
        assert(front + seq![last] =~= s);
        if last == at {
            lemma_strips_concat(before, front, with, seq![at]);
        } else {
            lemma_strips_plain(seq![last]);
            lemma_strips_concat(before, front, seq![last], seq![last]);
            assert(before + seq![last] =~= before.push(last));
        }
    }
}

/// Whether each text is left as its counterpart once its codes are taken out.
spec fn all_strip_to(parts: Seq<Seq<char>>, plain: Seq<Seq<char>>) -> bool {
    &&& parts.len() == plain.len()
    &&& forall|i: int| 0 <= i < parts.len() ==> strips_to(#[trigger] parts[i], plain[i])
}

proof fn lemma_strips_joined(
    parts: Seq<Seq<char>>,
    plain: Seq<Seq<char>>,
    separator: Seq<char>,
    plain_separator: Seq<char>,
)
    requires
        all_strip_to(parts, plain),
        strips_to(separator, plain_separator),
    ensures
        strips_to(text::joined(parts, separator), text::joined(plain, plain_separator)),
    decreases parts.len(),
{
    if parts.len() == 0 {
        lemma_strips_plain(seq![]);
    } else if parts.len() == 1 {
        assert(strips_to(parts[0], plain[0]));
    } else {
        let front = parts.drop_last();
        let plain_front = plain.drop_last();
        assert forall|i: int| 0 <= i < front.len() implies strips_to(
            #[trigger] front[i],
            plain_front[i],
        ) by {
            assert(strips_to(parts[i], plain[i]));
        }
        lemma_strips_joined(front, plain_front, separator, plain_separator);
        let a = text::joined(front, separator);
        let x = text::joined(plain_front, plain_separator);
        lemma_strips_concat(a, x, separator, plain_separator);
        assert(strips_to(parts[parts.len() - 1], plain[parts.len() - 1]));
        lemma_strips_concat(a + separator, x + plain_separator, parts.last(), plain.last());
    }
}

/// The same settings with colors disabled.
pub open spec fn without_colors(config: ConfigView) -> ConfigView {
    ConfigView { colors: Some(false), ..config }
}

/// Whether a section, where it is shown at all, is left as its counterpart once its codes are
/// taken out.
spec fn option_strips_to(s: Option<Seq<char>>, plain: Option<Seq<char>>) -> bool {
    match (s, plain) {
        (Some(a), Some(b)) => strips_to(a, b),
        (None, None) => true,
        _ => false,
    }
}

proof fn lemma_strips_separator(config: ConfigView)
    requires
        config.colors(),
        free(config.separator(), '\x1b'),
    ensures
        strips_to(
            style::separator_shown(config),
            style::separator_shown(without_colors(config)),
        ),
{
    lemma_color_codes(0);
    lemma_strips_plain(config.separator());
    lemma_strips_colored(config.separator(), config.separator(), DIM@);
}

proof fn lemma_strips_head(data: StdinView, config: ConfigView, git: Option<GitView>)
    requires
        config.colors(),
        free_option(data.cwd, '\x1b'),
        free_option(data.model_name(), '\x1b'),
        git is Some ==> free(git->0.branch, '\x1b'),
    ensures
        strips_to(
            render::project_section(data, config),
            render::project_section(data, without_colors(config)),
        ),
        option_strips_to(
            render::git_section(git, config),
            render::git_section(git, without_colors(config)),
        ),
        strips_to(render::model_section(data), render::model_section(data)),
        option_strips_to(
            render::context_section(data, config),
            render::context_section(data, without_colors(config)),
        ),
{
    let plain = without_colors(config);
    lemma_color_codes(0);
    lemma_free_head(data, plain, git, '\x1b');
    lemma_strips_plain(render::project_section(data, plain));
    lemma_strips_plain(render::model_section(data));
    if git is Some {
        let shown = render::git_section(git, plain)->0;
        lemma_strips_plain(shown);
        lemma_strips_colored(shown, shown, GREEN@);
    }
    if render::context_pct(data) is Some {
        let shown = render::context_section(data, plain)->0;
        let color = style::context_color(render::context_pct(data)->0 as int, config);
        lemma_strips_plain(shown);
        lemma_strips_colored(shown, shown, color);
    }
}

proof fn lemma_strips_cache(cache: CacheStatus, config: ConfigView, now: int)
    requires
        config.colors(),
    ensures
        strips_to(
            render::cache_section(cache, config, now),
            render::cache_section(cache, without_colors(config), now),
        ),
{
    let shown = render::cache_text(cache, now);
    lemma_color_codes(0);
    lemma_free_cache(cache, without_colors(config), now, '\x1b');
    lemma_strips_plain(shown);
    lemma_strips_colored(shown, shown, render::cache_color(cache, now));
}

proof fn lemma_strips_tasks(transcript: TranscriptView, config: ConfigView)
    requires
        config.colors(),
    ensures
        option_strips_to(
            render::tasks_section(transcript.todos, transcript.tasks, config),
            render::tasks_section(transcript.todos, transcript.tasks, without_colors(config)),
        ),
{
    let plain = render::tasks_section(
        transcript.todos,
        transcript.tasks,
        without_colors(config),
    );
    lemma_color_codes(0);
    lemma_free_tasks(transcript, without_colors(config), '\x1b');
    if plain is Some {
        lemma_strips_plain(plain->0);
        lemma_strips_colored(plain->0, plain->0, GREEN@);
        lemma_strips_colored(plain->0, plain->0, DIM@);
    }
}

proof fn lemma_strips_usage(usage: Option<UsageInfo>, config: ConfigView, clock: Seq<char>)
    requires
        config.colors(),
        free(clock, '\x1b'),
    ensures
        option_strips_to(
            render::usage_section(usage, config, clock),
            render::usage_section(usage, without_colors(config), clock),
        ),
{
    let none = Seq::<char>::empty();
    lemma_literals('\x1b');
    if usage is Some && usage->0.usage_5h is Some {
        let pct = usage->0.usage_5h->0.percent();
        let reset = usage->0.reset_5h;
        let step = style::gradient_step(pct);
        lemma_color_codes(step);
        let base = USAGE_GRADIENT[step]@;
        let cells = render::usage_bar(pct, reset);
        assert(free(cells, '\x1b'));
        lemma_strips_plain(cells);
        let bar = if render::inside_window(reset) {
            text::replaced(cells, '┃', render::marker_shown(pct, reset->0 as int))
        } else {
            cells
        };
        if render::inside_window(reset) {
            let pace = style::pace_tier(render::projected(pct, reset->0 as int));
            reveal_strlit("┃");
            assert("┃"@ =~= seq!['┃']);
            lemma_strips_code(pace);
            lemma_strips_plain("┃"@);
            lemma_strips_code(RESET@);
            lemma_strips_code(base);
            lemma_strips_concat(pace, none, "┃"@, "┃"@);
            lemma_strips_concat(pace + "┃"@, none + "┃"@, RESET@, none);
            lemma_strips_concat(
                pace + "┃"@ + RESET@,
                none + "┃"@ + none,
                base,
                none,
            );
            assert(none + "┃"@ + none + none =~= seq!['┃']);
            lemma_strips_replaced(cells, '┃', render::marker_shown(pct, reset->0 as int));
        }
        let until = if render::shown_reset(usage) is Some {
            " → "@ + clock
        } else {
            seq![]
        };
        lemma_free_concat(" → "@, clock, '\x1b');
        lemma_strips_plain(until);
        let number = text::decimal(pct as nat);
        lemma_free_decimal(pct as nat, '\x1b');
        lemma_free_concat("Usage: "@, number, '\x1b');
        lemma_free_concat("Usage: "@ + number, "% "@, '\x1b');
        let start = "Usage: "@ + number + "% "@;
        lemma_strips_plain(start);
        lemma_strips_concat(start, start, bar, cells);
        lemma_strips_concat(start + bar, start + cells, until, until);
        lemma_strips_colored(start + bar + until, start + cells + until, base);
    }
}

proof fn lemma_strips_activity(
    tools: Rows<ToolView>,
    agents: Rows<AgentView>,
    config: ConfigView,
    now: int,
)
    requires
        config.colors(),
        tools_free(tools, '\x1b'),
        agents_free(agents, '\x1b'),
        free(config.separator(), '\x1b'),
    ensures
        option_strips_to(
            timeline::activity(tools, agents, config, now),
            timeline::activity(tools, agents, without_colors(config), now),
        ),
{
    let items = timeline::timeline(tools, agents);
    let parts = timeline::activity_parts(items, true, now);
    let plain = timeline::activity_parts(items, false, now);
    lemma_color_codes(0);
    lemma_free_activity_parts(tools, agents, false, now, '\x1b');
    let history = timeline::history_part(items, false);
    assert forall|i: int| 0 <= i < parts.len() implies strips_to(#[trigger] parts[i], plain[i]) by {
        lemma_strips_plain(plain[i]);
        lemma_strips_colored(plain[i], plain[i], DIM@);
        lemma_strips_colored(plain[i], plain[i], BRIGHT@);
        lemma_strips_colored(plain[i], plain[i], YELLOW@);
        if i >= history.len() {
            let item = timeline::running_items(items)[i - history.len()];
            assert(parts[i] == timeline::running_part(item, true, now));
            assert(plain[i] == timeline::running_part(item, false, now));
        }
    }
    lemma_strips_separator(config);
    lemma_strips_joined(
        parts,
        plain,
        style::separator_shown(config),
        style::separator_shown(without_colors(config)),
    );
}

proof fn lemma_strips_sections(a: Seq<Seq<char>>, x: Seq<Seq<char>>, b: Seq<Seq<char>>, y: Seq<
    Seq<char>,
>)
    requires
        all_strip_to(a, x),
        all_strip_to(b, y),
    ensures
        all_strip_to(a + b, x + y),
{
    assert forall|i: int| 0 <= i < (a + b).len() implies strips_to(
        #[trigger] (a + b)[i],
        (x + y)[i],
    ) by {
        if i < a.len() {
            assert(strips_to(a[i], x[i]));
        } else {
            assert(strips_to(b[i - a.len()], y[i - a.len()]));
        }
    }
}

/// Colors are nothing but codes: taken out of the colored line, they leave exactly the line
/// with colors disabled. That line holds no escape character, and neither line is empty or
/// holds a line break. All this as long as nothing that the lines are made of holds an escape
/// character or a line break.
pub proof fn law_colors_are_only_codes(
    data: StdinView,
    config: ConfigView,
    transcript: TranscriptView,
    git: Option<GitView>,
    usage: Option<UsageInfo>,
    cache: CacheStatus,
    now: int,
    clock: Seq<char>,
)
    requires
        config.colors(),
        inputs_free(data, config, transcript, git, clock, '\x1b'),
        inputs_free(data, config, transcript, git, clock, '\n'),
    ensures
        ({
            let plain = without_colors(config);
            let line = render::status_line(
                data,
                config,
                transcript,
                git,
                usage,
                cache,
                now,
                clock,
            );
            let plain_line = render::status_line(
                data,
                plain,
                transcript,
                git,
                usage,
                cache,
                now,
                clock,
            );
            &&& stripped(line) == plain_line
            &&& free(plain_line, '\x1b')
            &&& free(line, '\n') && free(plain_line, '\n')
            &&& line.len() > 0 && plain_line.len() > 0
        }),
{
    let plain = without_colors(config);
    assert(plain.separator() == config.separator());
    law_line_is_single(data, config, transcript, git, usage, cache, now, clock);
    law_line_is_single(data, plain, transcript, git, usage, cache, now, clock);
    law_no_codes_without_colors(data, plain, transcript, git, usage, cache, now, clock);
    law_line_is_never_empty(data, config, transcript, git, usage, cache, now, clock);
    law_line_is_never_empty(data, plain, transcript, git, usage, cache, now, clock);
    lemma_strips_separator(config);
    let parts = render::sections(data, config, transcript, git, usage, cache, now, clock);
    let plain_parts = render::sections(data, plain, transcript, git, usage, cache, now, clock);
    lemma_all_sections_strip(data, config, transcript, git, usage, cache, now, clock);
    lemma_strips_joined(
        parts,
        plain_parts,
        style::separator_shown(config),
        style::separator_shown(plain),
    );
    lemma_strips_all(
        text::joined(parts, style::separator_shown(config)),
        text::joined(plain_parts, style::separator_shown(plain)),
    );
}

proof fn lemma_all_sections_strip(
    data: StdinView,
    config: ConfigView,
    transcript: TranscriptView,
    git: Option<GitView>,
    usage: Option<UsageInfo>,
    cache: CacheStatus,
    now: int,
    clock: Seq<char>,
)
    requires
        config.colors(),
        inputs_free(data, config, transcript, git, clock, '\x1b'),
    ensures
        all_strip_to(
            render::sections(data, config, transcript, git, usage, cache, now, clock),
            render::sections(
                data,
                without_colors(config),
                transcript,
                git,
                usage,
                cache,
                now,
                clock,
            ),
        ),
{
    let plain = without_colors(config);
    lemma_strips_head(data, config, git);
    lemma_strips_cache(cache, config, now);
    lemma_strips_usage(usage, config, clock);
    lemma_strips_activity(transcript.tools, transcript.agents, config, now);
    lemma_strips_tasks(transcript, config);
    let a1 = seq![render::project_section(data, config)];
    let x1 = seq![render::project_section(data, plain)];
    let a2 = render::optional(render::git_section(git, config));
    let x2 = render::optional(render::git_section(git, plain));
    let a3 = seq![render::model_section(data)];
    let a4 = render::optional(render::context_section(data, config));
    let x4 = render::optional(render::context_section(data, plain));
    let a5 = seq![render::cache_section(cache, config, now)];
    let x5 = seq![render::cache_section(cache, plain, now)];
    let a6 = render::optional(render::usage_section(usage, config, clock));
    let x6 = render::optional(render::usage_section(usage, plain, clock));
    let a7 = render::optional(
        timeline::activity(transcript.tools, transcript.agents, config, now),
    );
    let x7 = render::optional(
        timeline::activity(transcript.tools, transcript.agents, plain, now),
    );
    let a8 = render::optional(
        render::tasks_section(transcript.todos, transcript.tasks, config),
    );
    let x8 = render::optional(
        render::tasks_section(transcript.todos, transcript.tasks, plain),
    );
    lemma_strips_sections(a1, x1, a2, x2);
    lemma_strips_sections(a1 + a2, x1 + x2, a3, a3);
    lemma_strips_sections(a1 + a2 + a3, x1 + x2 + a3, a4, x4);
    lemma_strips_sections(a1 + a2 + a3 + a4, x1 + x2 + a3 + x4, a5, x5);
    lemma_strips_sections(a1 + a2 + a3 + a4 + a5, x1 + x2 + a3 + x4 + x5, a6, x6);
    lemma_strips_sections(
        a1 + a2 + a3 + a4 + a5 + a6,
        x1 + x2 + a3 + x4 + x5 + x6,
        a7,
        x7,
    );
    lemma_strips_sections(
        a1 + a2 + a3 + a4 + a5 + a6 + a7,
        x1 + x2 + a3 + x4 + x5 + x6 + x7,
        a8,
        x8,
    );
}

} // verus!
