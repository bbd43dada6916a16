//! The activity of a session: its tools and agents in the order they were started.

use crate::clock;
use crate::clock::{difference_fits, utc_now};
use crate::style;
use crate::style::{
    colorize, format_agent_duration, rendered_separator, BRIGHT, DIM, YELLOW,
};
use crate::table::{Rows, Table};
use crate::text;
use crate::text::{join, push_decimal, same_text, trim};
use crate::types::{AgentEntry, AgentView, Config, ConfigView, ToolEntry, ToolView};
use vstd::prelude::*;
use vstd::string::*;

verus! {

#[derive(Debug, Clone, Copy, PartialEq, Eq, Structural)]
pub enum TimelineKind {
    Tool,
    Agent,
}

/// A tool call or an agent, with what the activity section shows of it.
pub struct TimelineItem<'a> {
    pub kind: TimelineKind,
    pub name: &'a str,
    pub target: Option<&'a str>,
    pub seq: u64,
    pub completed: bool,
    pub start_time: Option<i64>,
    pub model: Option<&'a str>,
}

/// A timeline item as the specifications see it.
#[verifier::ext_equal]
pub struct ItemView {
    pub kind: TimelineKind,
    pub name: Seq<char>,
    pub target: Option<Seq<char>>,
    pub seq: u64,
    pub completed: bool,
    pub start_time: Option<i64>,
    pub model: Option<Seq<char>>,
}

impl<'a> View for TimelineItem<'a> {
    type V = ItemView;

    open spec fn view(&self) -> ItemView {
        ItemView {
            kind: self.kind,
            name: self.name@,
            target: self.target.deep_view(),
            seq: self.seq,
            completed: self.completed,
            start_time: self.start_time,
            model: self.model.deep_view(),
        }
    }
}

/// The items of a list as the specifications see them.
pub open spec fn item_views(items: Seq<TimelineItem>) -> Seq<ItemView> {
    items.map_values(|item: TimelineItem| item@)
}

/// The item that stands for a tool call.
pub open spec fn tool_item(tool: ToolView) -> ItemView {
    ItemView {
        kind: TimelineKind::Tool,
        name: tool.name,
        target: tool.target,
        seq: tool.seq,
        completed: tool.completed,
        start_time: None,
        model: None,
    }
}

/// The item that stands for an agent.
pub open spec fn agent_item(agent: AgentView) -> ItemView {
    ItemView {
        kind: TimelineKind::Agent,
        name: match agent.subagent_type {
            Some(name) => name,
            None => "agent"@,
        },
        target: agent.description,
        seq: agent.seq,
        completed: agent.completed,
        start_time: agent.start_time,
        model: agent.model,
    }
}

/// All items, the tools before the agents.
pub open spec fn all_items(tools: Rows<ToolView>, agents: Rows<AgentView>) -> Seq<ItemView> {
    tools.map_values(|row: (Seq<char>, ToolView)| tool_item(row.1)) + agents.map_values(
        |row: (Seq<char>, AgentView)| agent_item(row.1),
    )
}

/// Where an item goes among ordered items: behind all that were not started later.
pub open spec fn place(items: Seq<ItemView>, seq: u64) -> int
    decreases items.len(),
{
    if items.len() == 0 || items.last().seq <= seq {
        items.len() as int
    } else {
        place(items.drop_last(), seq)
    }
}

/// The items in the order they were started; items of one rank stay in the order given.
pub open spec fn in_order(items: Seq<ItemView>) -> Seq<ItemView>
    decreases items.len(),
{
    if items.len() == 0 {
        items
    } else {
        let before = in_order(items.drop_last());
        before.insert(place(before, items.last().seq), items.last())
    }
}

/// The tools and agents of a session in the order they were started.
pub open spec fn timeline(tools: Rows<ToolView>, agents: Rows<AgentView>) -> Seq<ItemView> {
    in_order(all_items(tools, agents))
}

/// The names of the completed items.
pub open spec fn completed_names(items: Seq<ItemView>) -> Seq<Seq<char>>
    decreases items.len(),
{
    if items.len() == 0 {
        seq![]
    } else if items.last().completed {
        completed_names(items.drop_last()).push(items.last().name)
    } else {
        completed_names(items.drop_last())
    }
}

/// The items that still run.
pub open spec fn running_items(items: Seq<ItemView>) -> Seq<ItemView>
    decreases items.len(),
{
    if items.len() == 0 {
        seq![]
    } else if items.last().completed {
        running_items(items.drop_last())
    } else {
        running_items(items.drop_last()).push(items.last())
    }
}

/// The runs of equal names: each name with the number of times it comes in a row.
pub open spec fn runs(names: Seq<Seq<char>>) -> Seq<(Seq<char>, nat)>
    decreases names.len(),
{
    if names.len() == 0 {
        seq![]
    } else {
        let before = runs(names.drop_last());
        if before.len() > 0 && before.last().0 == names.last() {
            before.drop_last().push((names.last(), before.last().1 + 1))
        } else {
            before.push((names.last(), 1))
        }
    }
}

/// What a list of names and counts stands for as the specifications see it.
pub open spec fn group_views(groups: Seq<(&str, usize)>) -> Seq<(Seq<char>, nat)> {
    groups.map_values(|group: (&str, usize)| (group.0@, group.1 as nat))
}

/// Collapses runs of equal names into pairs of name and count. Only neighbours are
/// collapsed: `A, A, B, A` gives `A` twice, `B` once, `A` once.
pub fn group_consecutive_names<'a>(names: &Vec<&'a str>) -> (groups: Vec<(&'a str, usize)>)
    ensures
        group_views(groups@) == runs(names.deep_view()),
{
    let ghost all = names.deep_view();
    let mut groups: Vec<(&'a str, usize)> = Vec::new();
    let mut i: usize = 0;
    while i < names.len()
        invariant
            i <= names@.len(),
            all == names.deep_view(),
            group_views(groups@) == runs(all.take(i as int)),
            forall|k: int| 0 <= k < groups@.len() ==> (#[trigger] groups@[k]).1 <= i,
        decreases names@.len() - i,
    {
        let name: &'a str = names[i];
        let ghost before = group_views(groups@);
        proof {
            assert(all.take(i + 1).drop_last() =~= all.take(i as int));
            assert(all.take(i + 1).last() == name@);
        }
        let n: usize = groups.len();
        if n > 0 && same_text(groups[n - 1].0, name) {
            assert(before.last() == (groups@[n - 1].0@, groups@[n - 1].1 as nat));
            let count: usize = groups[n - 1].1;
            groups.set(n - 1, (name, count + 1));
            assert(group_views(groups@) =~= before.drop_last().push((name@, (count + 1) as nat)));
        } else {
            if n > 0 {
                assert(before.last() == (groups@[n - 1].0@, groups@[n - 1].1 as nat));
            }
            groups.push((name, 1));
            assert(group_views(groups@) =~= before.push((name@, 1)));
        }
        i = i + 1;
    }
    assert(all.take(all.len() as int) =~= all);
    groups
}

/// The label of a run: its name, and how often it came where that is more than once.
pub open spec fn run_label(name: Seq<char>, count: nat) -> Seq<char> {
    if count == 1 {
        name
    } else {
        name + " x"@ + text::decimal(count)
    }
}

/// The label of a running tool: its name and, where it has one, its target.
pub open spec fn tool_label(item: ItemView) -> Seq<char> {
    match item.target {
        Some(target) => item.name + " "@ + target,
        None => item.name,
    }
}

/// The label of a running agent: its name, its model in brackets, and how long it has run.
pub open spec fn agent_label(item: ItemView, now: int) -> Seq<char> {
    text::trimmed(
        item.name + (match item.model {
            Some(model) => "["@ + model + "]"@,
            None => seq![],
        }) + " "@ + (match item.start_time {
            Some(start) => style::agent_duration(now - start),
            None => seq![],
        }),
    )
}

/// What the activity section shows of a running item.
pub open spec fn running_part(item: ItemView, colors: bool, now: int) -> Seq<char> {
    match item.kind {
        TimelineKind::Tool => style::colored(tool_label(item), BRIGHT@, colors),
        TimelineKind::Agent => style::colored(agent_label(item, now), YELLOW@, colors),
    }
}

/// What the activity section shows of the running items.
pub open spec fn running_parts(items: Seq<ItemView>, colors: bool, now: int) -> Seq<Seq<char>> {
    items.map_values(|item: ItemView| running_part(item, colors, now))
}

/// What the activity section shows of the completed items: the most recent run alone.
pub open spec fn history_part(items: Seq<ItemView>, colors: bool) -> Seq<Seq<char>> {
    let groups = runs(completed_names(items));
    if groups.len() == 0 {
        seq![]
    } else {
        seq![style::colored(run_label(groups.last().0, groups.last().1), DIM@, colors)]
    }
}

/// The parts of the activity section.
pub open spec fn activity_parts(items: Seq<ItemView>, colors: bool, now: int) -> Seq<Seq<char>> {
    history_part(items, colors) + running_parts(running_items(items), colors, now)
}

/// The activity section: the most recent run of completed items, then what still runs.
pub open spec fn activity(
    tools: Rows<ToolView>,
    agents: Rows<AgentView>,
    config: ConfigView,
    now: int,
) -> Option<Seq<char>> {
    let parts = activity_parts(timeline(tools, agents), config.colors(), now);
    if parts.len() == 0 {
        None
    } else {
        Some(text::joined(parts, style::separator_shown(config)))
    }
}

/// Whether the time that an item has run for can be computed where it is shown.
pub open spec fn runtime_fits(item: ItemView, now: int) -> bool {
    !item.completed && item.start_time is Some ==> clock::fits(now - item.start_time->0)
}

/// Whether the time that each agent has run for can be computed where it is shown.
pub open spec fn activity_fits(agents: Rows<AgentView>, now: int) -> bool {
    forall|i: int|
        0 <= i < agents.len() ==> runtime_fits(agent_item((#[trigger] agents[i]).1), now)
}

/// Whether [`render_activity_line_at`] can be called.
pub fn is_activity_renderable(agents: &Table<AgentEntry>, now: i64) -> (holds: bool)
    ensures
        holds == activity_fits(agents@, now as int),
{
    let mut i: usize = 0;
    while i < agents.len()
        invariant
            i <= agents@.len(),
            forall|k: int|
                0 <= k < i ==> runtime_fits(agent_item((#[trigger] agents@[k]).1), now as int),
        decreases agents@.len() - i,
    {
        let agent: &AgentEntry = agents.row(i).1;
        assert(agents@[i as int].1 == agent@);
        if !agent.completed {
            if let Some(start) = agent.start_time {
                if !difference_fits(now, start) {
                    return false;
                }
            }
        }
        i = i + 1;
    }
    true
}

fn text_ref<'a>(text: &'a Option<String>) -> (shown: Option<&'a str>)
    ensures
        shown.deep_view() == text.deep_view(),
{
    match text {
        Some(t) => Some(t.as_str()),
        None => None,
    }
}

/// Puts an item into an ordered list, behind all that were not started later.
fn insert_in_order<'a>(items: &mut Vec<TimelineItem<'a>>, item: TimelineItem<'a>)
    ensures
        item_views(final(items)@) == item_views(old(items)@).insert(
            place(item_views(old(items)@), item.seq),
            item@,
        ),
{
    let ghost before = item_views(items@);
    let mut at: usize = items.len();
    proof {
        assert(before.take(at as int) =~= before);
    }
    while at > 0 && items[at - 1].seq > item.seq
        invariant
            at <= items@.len(),
            before == item_views(items@),
            place(before, item.seq) == place(before.take(at as int), item.seq),
        ensures
            at <= items@.len(),
            at == place(before, item.seq),
        decreases at,
    {
        proof {
            assert(before.take(at as int).last() == items@[at - 1]@);
            assert(before.take(at as int).drop_last() =~= before.take(at - 1));
        }
        at = at - 1;
        proof {
            if at > 0 {
                assert(before.take(at as int).last() == items@[at - 1]@);
            }
        }
    }
    let ghost shown = item@;
    items.insert(at, item);
    assert(item_views(items@) =~= before.insert(at as int, shown));
}

/// The place of an item is right: everything behind it was started later.
pub proof fn lemma_place(items: Seq<ItemView>, seq: u64)
    ensures
        0 <= place(items, seq) <= items.len(),
        forall|i: int| place(items, seq) <= i < items.len() ==> (#[trigger] items[i]).seq > seq,
        place(items, seq) > 0 ==> items[place(items, seq) - 1].seq <= seq,
    decreases items.len(),
{
    if items.len() > 0 && items.last().seq > seq {
        let rest = items.drop_last();
        lemma_place(rest, seq);
        assert forall|i: int| place(items, seq) <= i < items.len() implies (
        #[trigger] items[i]).seq > seq by {
            if i < rest.len() {
                assert(rest[i] == items[i]);
            }
        }
    }
}

/// The items of a session in the order they were started.
fn timeline_of<'a>(tools: &'a Table<ToolEntry>, agents: &'a Table<AgentEntry>) -> (items: Vec<
    TimelineItem<'a>,
>)
    ensures
        item_views(items@) == timeline(tools@, agents@),
{
    let ghost all = all_items(tools@, agents@);
    let mut items: Vec<TimelineItem<'a>> = Vec::new();
    let mut i: usize = 0;
    assert(item_views(items@) =~= in_order(all.take(0)));
    while i < tools.len()
        invariant
            i <= tools@.len(),
            all == all_items(tools@, agents@),
            item_views(items@) == in_order(all.take(i as int)),
        decreases tools@.len() - i,
    {
        let tool: &ToolEntry = tools.row(i).1;
        assert(tools@[i as int].1 == tool@);
        let item = TimelineItem {
            kind: TimelineKind::Tool,
            name: tool.name.as_str(),
            target: text_ref(&tool.target),
            seq: tool.seq,
            completed: tool.completed,
            start_time: None,
            model: None,
        };
        assert(item@ =~= tool_item(tool@));
        assert(all.take(i + 1).last() == item@);
        assert(all.take(i + 1).drop_last() =~= all.take(i as int));
        insert_in_order(&mut items, item);
        i = i + 1;
    }
    let ghost n = tools@.len() as int;
    let mut j: usize = 0;
    while j < agents.len()
        invariant
            j <= agents@.len(),
            n == tools@.len(),
            all == all_items(tools@, agents@),
            item_views(items@) == in_order(all.take(n + j)),
        decreases agents@.len() - j,
    {
        let agent: &AgentEntry = agents.row(j).1;
        assert(agents@[j as int].1 == agent@);
        let item = TimelineItem {
            kind: TimelineKind::Agent,
            name: match &agent.subagent_type {
                Some(name) => name.as_str(),
                None => "agent",
            },
            target: text_ref(&agent.description),
            seq: agent.seq,
            completed: agent.completed,
            start_time: agent.start_time,
            model: text_ref(&agent.model),
        };
        assert(item@ =~= agent_item(agent@));
        assert(all.take(n + j + 1).last() == item@);
        assert(all.take(n + j + 1).drop_last() =~= all.take(n + j));
        insert_in_order(&mut items, item);
        j = j + 1;
    }
    assert(all.take(all.len() as int) =~= all);
    items
}

fn label_of_run(name: &str, count: usize) -> (label: String)
    ensures
        label@ == run_label(name@, count as nat),
{
    let mut label: String = name.to_owned();
    if count != 1 {
        label.append(" x");
        push_decimal(&mut label, count as u64);
        assert(label@ =~= run_label(name@, count as nat));
    }
    label
}

fn label_of_tool(item: &TimelineItem) -> (label: String)
    ensures
        label@ == tool_label(item@),
{
    let mut label: String = item.name.to_owned();
    if let Some(target) = item.target {
        label.append(" ");
        label.append(target);
    }
    assert(label@ =~= tool_label(item@));
    label
}

fn label_of_agent(item: &TimelineItem, now: i64) -> (label: String)
    requires
        item.start_time is Some ==> clock::fits(now - item.start_time->0),
    ensures
        label@ == agent_label(item@, now as int),
{
    let ghost shown = item@;
    let mut label: String = item.name.to_owned();
    if let Some(model) = item.model {
        label.append("[");
        label.append(model);
        label.append("]");
    }
    let ghost named = shown.name + (match shown.model {
        Some(model) => "["@ + model + "]"@,
        None => seq![],
    });
    assert(label@ =~= named);
    label.append(" ");
    if let Some(start) = item.start_time {
        label.append(format_agent_duration(now - start).as_str());
    }
    assert(label@ =~= named + " "@ + (match shown.start_time {
        Some(start) => style::agent_duration(now - start),
        None => seq![],
    }));
    trim(label.as_str())
}

/// The activity section at a given time: the most recent run of completed items, then
/// what still runs. Nothing where there has been no activity.
pub fn render_activity_line_at(
    tools: &Table<ToolEntry>,
    agents: &Table<AgentEntry>,
    config: &Config,
    now: i64,
) -> (line: Option<String>)
    requires
        activity_fits(agents@, now as int),
    ensures
        line.deep_view() == activity(tools@, agents@, config@, now as int),
{
    let items: Vec<TimelineItem> = timeline_of(tools, agents);
    let ghost all = item_views(items@);
    let colors: bool = config.colors();
    proof {
        lemma_timeline_fits(tools@, agents@, now as int);
    }
    let mut names: Vec<&str> = Vec::new();
    let mut running: Vec<String> = Vec::new();
    let mut i: usize = 0;
    assert(names.deep_view() =~= completed_names(all.take(0)));
    assert(running.deep_view() =~= running_parts(running_items(all.take(0)), colors, now as int));
    while i < items.len()
        invariant
            i <= items@.len(),
            all == item_views(items@),
            forall|k: int| 0 <= k < all.len() ==> runtime_fits(#[trigger] all[k], now as int),
            names.deep_view() == completed_names(all.take(i as int)),
            running.deep_view() == running_parts(
                running_items(all.take(i as int)),
                colors,
                now as int,
            ),
        decreases items@.len() - i,
    {
        let item: &TimelineItem = &items[i];
        let ghost before = running_items(all.take(i as int));
        assert(all[i as int] == item@);
        assert(all.take(i + 1).last() == item@);
        assert(all.take(i + 1).drop_last() =~= all.take(i as int));
        if item.completed {
            let ghost earlier = names.deep_view();
            names.push(item.name);
            assert(names.deep_view() =~= earlier.push(item@.name));
        } else {
            let ghost earlier = running.deep_view();
            let part: String = match item.kind {
                TimelineKind::Tool => colorize(label_of_tool(item), BRIGHT, colors),
                TimelineKind::Agent => colorize(label_of_agent(item, now), YELLOW, colors),
            };
            let ghost shown = part@;
            running.push(part);
            assert(running.deep_view() =~= earlier.push(shown));
            assert(running_parts(before.push(item@), colors, now as int) =~= running_parts(
                before,
                colors,
                now as int,
            ).push(shown));
        }
        i = i + 1;
    }
    assert(all.take(all.len() as int) =~= all);
    let groups: Vec<(&str, usize)> = group_consecutive_names(&names);
    let mut parts: Vec<String> = Vec::new();
    let n: usize = groups.len();
    if n > 0 {
        let last: (&str, usize) = groups[n - 1];
        assert(group_views(groups@).last() == (last.0@, last.1 as nat));
        parts.push(colorize(label_of_run(last.0, last.1), DIM, colors));
    }
    assert(parts.deep_view() =~= history_part(all, colors));
    let ghost history = parts.deep_view();
    let ghost tail = running.deep_view();
    parts.append(&mut running);
    assert(parts.deep_view() =~= history + tail);
    if parts.len() == 0 {
        return None;
    }
    let separator: String = rendered_separator(config);
    Some(join(&parts, separator.as_str()))
}

/// The activity section now.
pub fn render_activity_line(
    tools: &Table<ToolEntry>,
    agents: &Table<AgentEntry>,
    config: &Config,
) -> (line: Option<String>)
    requires
        forall|now: int| clock::on_the_clock(now) ==> #[trigger] activity_fits(agents@, now),
    ensures
        exists|now: int|
            clock::on_the_clock(now) && line.deep_view() == #[trigger] activity(
                tools@,
                agents@,
                config@,
                now,
            ),
{
    let now: i64 = utc_now();
    assert(activity_fits(agents@, now as int));
    render_activity_line_at(tools, agents, config, now)
}

proof fn lemma_in_order_fits(items: Seq<ItemView>, now: int)
    requires
        forall|i: int| 0 <= i < items.len() ==> runtime_fits(#[trigger] items[i], now),
    ensures
        forall|i: int|
            0 <= i < in_order(items).len() ==> runtime_fits(#[trigger] in_order(items)[i], now),
    decreases items.len(),
{
    if items.len() > 0 {
        let rest = items.drop_last();
        assert forall|i: int| 0 <= i < rest.len() implies runtime_fits(#[trigger] rest[i], now) by {
            assert(rest[i] == items[i]);
        }
        lemma_in_order_fits(rest, now);
        let before = in_order(rest);
        let last = items[items.len() - 1];
        let at = place(before, last.seq);
        lemma_place(before, last.seq);
        assert forall|i: int| 0 <= i < in_order(items).len() implies runtime_fits(
            #[trigger] in_order(items)[i],
            now,
        ) by {
            if i < at {
                assert(in_order(items)[i] == before[i]);
            } else if i > at {
                assert(in_order(items)[i] == before[i - 1]);
            }
        }
    }
}

proof fn lemma_timeline_fits(tools: Rows<ToolView>, agents: Rows<AgentView>, now: int)
    requires
        activity_fits(agents, now),
    ensures
        forall|i: int|
            0 <= i < timeline(tools, agents).len() ==> runtime_fits(
                #[trigger] timeline(tools, agents)[i],
                now,
            ),
{
    let all = all_items(tools, agents);
    assert forall|i: int| 0 <= i < all.len() implies runtime_fits(#[trigger] all[i], now) by {
        if i < tools.len() {
            assert(all[i] == tool_item(tools[i].1));
        } else {
            assert(all[i] == agent_item(agents[i - tools.len()].1));
        }
    }
    lemma_in_order_fits(all, now);
}

/// Whether items are ordered by the time they were started.
pub open spec fn is_ordered(items: Seq<ItemView>) -> bool {
    forall|i: int, j: int|
        0 <= i <= j < items.len() ==> (#[trigger] items[i]).seq <= (#[trigger] items[j]).seq
}

proof fn lemma_in_order(items: Seq<ItemView>)
    ensures
        is_ordered(in_order(items)),
        in_order(items).len() == items.len(),
        in_order(items).to_multiset() == items.to_multiset(),
    decreases items.len(),
{
    if items.len() > 0 {
        let rest = items.drop_last();
        let last = items.last();
        let before = in_order(rest);
        let at = place(before, last.seq);
        let after = in_order(items);
        lemma_in_order(rest);
        lemma_place(before, last.seq);
        assert forall|i: int, j: int| 0 <= i <= j < after.len() implies (
        #[trigger] after[i]).seq <= (#[trigger] after[j]).seq by {
            let old_i = if i < at {
                i
            } else {
                i - 1
            };
            let old_j = if j < at {
                j
            } else {
                j - 1
            };
            if i != at {
                assert(after[i] == before[old_i]);
            }
            if j != at {
                assert(after[j] == before[old_j]);
            }
            if i == at && j > at {
                assert(before[old_j].seq > last.seq);
            }
            if j == at && i < at {
                assert(before[i].seq <= before[at - 1].seq);
            }
        }
        before.to_multiset_ensures();
        rest.to_multiset_ensures();
        assert(after.to_multiset() =~= before.to_multiset().insert(last)) by {
            vstd::seq_lib::to_multiset_insert(before, at, last);
        }
        assert(items =~= rest.push(last));
    }
}

/// The timeline is ordered by the time the items were started, and holds each tool call
/// and each agent exactly as often as the tables do.
pub proof fn law_timeline_is_ordered(tools: Rows<ToolView>, agents: Rows<AgentView>)
    ensures
        is_ordered(timeline(tools, agents)),
        timeline(tools, agents).len() == tools.len() + agents.len(),
        timeline(tools, agents).to_multiset() == all_items(tools, agents).to_multiset(),
{
    lemma_in_order(all_items(tools, agents));
}

/// The items of one rank, in their order.
pub open spec fn of_rank(items: Seq<ItemView>, seq: u64) -> Seq<ItemView> {
    items.filter(|item: ItemView| item.seq == seq)
}

/// Items that a filter drops can change places with those behind them.
proof fn lemma_filter_swap(
    head: Seq<ItemView>,
    x: ItemView,
    tail: Seq<ItemView>,
    keep: spec_fn(ItemView) -> bool,
)
    requires
        keep(x) ==> forall|i: int| 0 <= i < tail.len() ==> !keep(#[trigger] tail[i]),
    ensures
        (head + (seq![x] + tail)).filter(keep) == ((head + tail) + seq![x]).filter(keep),
{
    let one = seq![x];
    Seq::filter_distributes_over_add(head, one + tail, keep);
    Seq::filter_distributes_over_add(one, tail, keep);
    Seq::filter_distributes_over_add(head + tail, one, keep);
    Seq::filter_distributes_over_add(head, tail, keep);
    let h = head.filter(keep);
    let t = tail.filter(keep);
    let o = one.filter(keep);
    if keep(x) {
        lemma_filter_none(tail, keep);
    } else {
        lemma_filter_none(one, keep);
    }
    assert(h + (o + t) =~= (h + t) + o);
}

proof fn lemma_in_order_is_stable(items: Seq<ItemView>, seq: u64)
    ensures
        of_rank(in_order(items), seq) == of_rank(items, seq),
    decreases items.len(),
{
    if items.len() > 0 {
        let same = |item: ItemView| item.seq == seq;
        let rest = items.drop_last();
        let last = items.last();
        let before = in_order(rest);
        let at = place(before, last.seq);
        lemma_in_order_is_stable(rest, seq);
        lemma_place(before, last.seq);
        let head = before.take(at);
        let tail = before.skip(at);
        assert(before =~= head + tail);
        assert(in_order(items) =~= head + (seq![last] + tail));
        assert(items =~= rest + seq![last]);
        assert forall|i: int| same(last) && 0 <= i < tail.len() implies !same(
            #[trigger] tail[i],
        ) by {
            assert(tail[i] == before[at + i]);
        }
        lemma_filter_swap(head, last, tail, same);
        Seq::filter_distributes_over_add(rest, seq![last], same);
        Seq::filter_distributes_over_add(before, seq![last], same);
    }
}

proof fn lemma_filter_none(items: Seq<ItemView>, keep: spec_fn(ItemView) -> bool)
    requires
        forall|i: int| 0 <= i < items.len() ==> !keep(#[trigger] items[i]),
    ensures
        items.filter(keep) == Seq::<ItemView>::empty(),
    decreases items.len(),
{
    reveal(Seq::filter);
    if items.len() > 0 {
        let rest = items.drop_last();
        assert forall|i: int| 0 <= i < rest.len() implies !keep(#[trigger] rest[i]) by {
            assert(rest[i] == items[i]);
        }
        assert(!keep(items[items.len() - 1]));
        lemma_filter_none(rest, keep);
    }
}

/// Items of one rank stay in the order of the tables, the tools before the agents.
pub proof fn law_timeline_is_stable(tools: Rows<ToolView>, agents: Rows<AgentView>, seq: u64)
    ensures
        of_rank(timeline(tools, agents), seq) == of_rank(all_items(tools, agents), seq),
{
    lemma_in_order_is_stable(all_items(tools, agents), seq);
}

/// The names that a list of runs stands for.
pub open spec fn expanded(groups: Seq<(Seq<char>, nat)>) -> Seq<Seq<char>>
    decreases groups.len(),
{
    if groups.len() == 0 {
        seq![]
    } else {
        expanded(groups.drop_last()) + Seq::new(groups.last().1, |i: int| groups.last().0)
    }
}

/// Written out, the runs give back the names they were made of. No run is empty, and
/// no two neighbours have one name.
pub proof fn law_runs_expand_back(names: Seq<Seq<char>>)
    ensures
        expanded(runs(names)) == names,
        forall|i: int| 0 <= i < runs(names).len() ==> (#[trigger] runs(names)[i]).1 >= 1,
        forall|i: int, j: int|
            0 <= i && j == i + 1 && j < runs(names).len() ==> (#[trigger] runs(names)[i]).0 != (
            #[trigger] runs(names)[j]).0,
    decreases names.len(),
{
    if names.len() > 0 {
        let rest = names.drop_last();
        let name = names.last();
        let before = runs(rest);
        let after = runs(names);
        law_runs_expand_back(rest);
        if before.len() > 0 && before.last().0 == name {
            assert(after.drop_last() =~= before.drop_last());
            assert(expanded(after) =~= expanded(before).push(name));
            assert forall|i: int, j: int| 0 <= i && j == i + 1 && j < after.len() implies (
            #[trigger] after[i]).0 != (#[trigger] after[j]).0 by {
                assert(before[i].0 != before[j].0);
            }
        } else {
            assert(after.drop_last() =~= before);
            assert(expanded(after) =~= expanded(before).push(name));
            assert forall|i: int, j: int| 0 <= i && j == i + 1 && j < after.len() implies (
            #[trigger] after[i]).0 != (#[trigger] after[j]).0 by {
                if j < before.len() {
                    assert(before[i].0 != before[j].0);
                }
            }
        }
        assert(names =~= rest.push(name));
        assert forall|i: int| 0 <= i < after.len() implies (#[trigger] after[i]).1 >= 1 by {
            if i < before.len() {
                assert(before[i].1 >= 1);
            }
        }
    }
}

proof fn lemma_split_by_completion(items: Seq<ItemView>)
    ensures
        completed_names(items).len() + running_items(items).len() == items.len(),
    decreases items.len(),
{
    if items.len() > 0 {
        lemma_split_by_completion(items.drop_last());
    }
}

/// There is an activity section exactly where there has been a tool call or an agent.
pub proof fn law_activity_shown_when_there_is_any(
    tools: Rows<ToolView>,
    agents: Rows<AgentView>,
    config: ConfigView,
    now: int,
)
    ensures
        activity(tools, agents, config, now) is None <==> tools.len() == 0 && agents.len() == 0,
{
    let items = timeline(tools, agents);
    lemma_in_order(all_items(tools, agents));
    lemma_split_by_completion(items);
    if completed_names(items).len() > 0 {
        let names = completed_names(items);
        assert(runs(names).len() > 0);
    }
}

/// Of the completed items at most one part is shown, whatever their number; every running
/// item has a part of its own.
pub proof fn law_history_is_capped(items: Seq<ItemView>, colors: bool, now: int)
    ensures
        history_part(items, colors).len() <= 1,
        activity_parts(items, colors, now).len() == history_part(items, colors).len()
            + running_items(items).len(),
{
}

} // verus!
