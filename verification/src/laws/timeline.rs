//! The activity section, stated on the tools and agents it shows.

use crate::style;
use crate::style::{BRIGHT, DIM, RESET, YELLOW};
use crate::table::Rows;
use crate::text;
use crate::timeline;
use crate::timeline::{ItemView, TimelineKind};
use crate::types::{AgentView, ConfigView, ToolView};
use vstd::prelude::*;
use vstd::string::*;

verus! {

/// The tools come first, each with its own name, target, rank and state, and then the agents,
/// each under its type, or as `agent` where it has none.
pub proof fn law_items_are_tools_and_agents(tools: Rows<ToolView>, agents: Rows<AgentView>, i: int)
    requires
        0 <= i < tools.len() + agents.len(),
    ensures
        timeline::all_items(tools, agents).len() == tools.len() + agents.len(),
        i < tools.len() ==> {
            let item = timeline::all_items(tools, agents)[i];
            &&& item.kind == TimelineKind::Tool
            &&& item.name == tools[i].1.name
            &&& item.target == tools[i].1.target
            &&& item.seq == tools[i].1.seq
            &&& item.completed == tools[i].1.completed
        },
        i >= tools.len() ==> {
            let item = timeline::all_items(tools, agents)[i];
            let agent = agents[i - tools.len()].1;
            &&& item.kind == TimelineKind::Agent
            &&& agent.subagent_type is Some ==> item.name == agent.subagent_type->0
            &&& agent.subagent_type is None ==> item.name == "agent"@
            &&& item.seq == agent.seq
            &&& item.completed == agent.completed
            &&& item.start_time == agent.start_time
            &&& item.model == agent.model
        },
{
}

/// Every completed item gives its name to the history, and every other one runs; both keep their
/// order.
pub proof fn law_items_are_completed_or_running(items: Seq<ItemView>)
    ensures
        timeline::completed_names(items) == items.filter(
            |item: ItemView| item.completed,
        ).map_values(|item: ItemView| item.name),
        timeline::running_items(items) == items.filter(|item: ItemView| !item.completed),
    decreases items.len(),
{
    reveal(Seq::filter);
    let done = |item: ItemView| item.completed;
    let open = |item: ItemView| !item.completed;
    let name = |item: ItemView| item.name;
    if items.len() > 0 {
        let front = items.drop_last();
        law_items_are_completed_or_running(front);
        if items.last().completed {
            assert(front.filter(done).push(items.last()).map_values(name) =~= front.filter(
                done,
            ).map_values(name).push(items.last().name));
        }
    } else {
        assert(items.filter(done).map_values(name) =~= Seq::<Seq<char>>::empty());
        assert(items.filter(open) =~= Seq::<ItemView>::empty());
    }
}

proof fn lemma_last_run(names: Seq<Seq<char>>, earlier: Seq<Seq<char>>, name: Seq<char>, n: nat)
    requires
        n >= 1,
        names == earlier + Seq::new(n, |i: int| name),
        earlier.len() > 0 ==> earlier.last() != name,
    ensures
        timeline::runs(names).len() >= 1,
        timeline::runs(names).last() == (name, n),
    decreases n,
{
    let front = names.drop_last();
    assert(names.last() == name);
    if n == 1 {
        assert(front =~= earlier);
        if earlier.len() > 0 {
            let before = timeline::runs(earlier);
            lemma_run_ends_with_last(earlier);
            assert(before.last().0 != name);
        }
    } else {
        assert(front =~= earlier + Seq::new((n - 1) as nat, |i: int| name));
        lemma_last_run(front, earlier, name, (n - 1) as nat);
    }
}

proof fn lemma_run_ends_with_last(names: Seq<Seq<char>>)
    requires
        names.len() > 0,
    ensures
        timeline::runs(names).len() > 0,
        timeline::runs(names).last().0 == names.last(),
{
}

/// The history is the name that was completed last, with how often it came in a row where that
/// is more than once, and nothing of what came before.
pub proof fn law_history_is_the_last_run(
    items: Seq<ItemView>,
    earlier: Seq<Seq<char>>,
    name: Seq<char>,
    n: nat,
)
    requires
        n >= 1,
        timeline::completed_names(items) == earlier + Seq::new(n, |i: int| name),
        earlier.len() > 0 ==> earlier.last() != name,
    ensures
        n == 1 ==> timeline::history_part(items, false) == seq![name],
        n > 1 ==> timeline::history_part(items, false) == seq![name + " x"@ + text::decimal(n)],
        n == 1 ==> timeline::history_part(items, true) == seq![DIM@ + name + RESET@],
        n > 1 ==> timeline::history_part(items, true) == seq![
            DIM@ + (name + " x"@ + text::decimal(n)) + RESET@,
        ],
{
    lemma_last_run(timeline::completed_names(items), earlier, name, n);
}

/// Where nothing was completed there is no history.
pub proof fn law_no_history_without_completion(items: Seq<ItemView>, colors: bool)
    requires
        forall|i: int| 0 <= i < items.len() ==> !(#[trigger] items[i]).completed,
    ensures
        timeline::history_part(items, colors) == Seq::<Seq<char>>::empty(),
    decreases items.len(),
{
    lemma_no_names(items);
}

proof fn lemma_no_names(items: Seq<ItemView>)
    requires
        forall|i: int| 0 <= i < items.len() ==> !(#[trigger] items[i]).completed,
    ensures
        timeline::completed_names(items).len() == 0,
    decreases items.len(),
{
    if items.len() > 0 {
        let front = items.drop_last();
        assert forall|i: int| 0 <= i < front.len() implies !(#[trigger] front[i]).completed by {
            assert(front[i] == items[i]);
        }
        assert(!items[items.len() - 1].completed);
        lemma_no_names(front);
    }
}

/// A running tool is shown by its name and its target, bright; a running agent by its name, its
/// model in brackets and the time since it started, yellow.
pub proof fn law_running_items_are_shown(item: ItemView, now: int)
    ensures
        item.kind == TimelineKind::Tool ==> {
            let plain = timeline::running_part(item, false, now);
            &&& item.target is Some ==> plain == item.name + " "@ + item.target->0
            &&& item.target is None ==> plain == item.name
            &&& timeline::running_part(item, true, now) == BRIGHT@ + plain + RESET@
        },
        item.kind == TimelineKind::Agent ==> {
            let plain = timeline::running_part(item, false, now);
            let model = if item.model is Some {
                "["@ + item.model->0 + "]"@
            } else {
                seq![]
            };
            let ran = if item.start_time is Some {
                style::agent_duration(now - item.start_time->0)
            } else {
                seq![]
            };
            &&& plain == text::trimmed(item.name + model + " "@ + ran)
            &&& timeline::running_part(item, true, now) == YELLOW@ + plain + RESET@
        },
{
}

/// The activity section is the history and then each running item in the order they were
/// started, with separators between them.
pub proof fn law_activity_is_history_and_running(
    tools: Rows<ToolView>,
    agents: Rows<AgentView>,
    config: ConfigView,
    now: int,
    i: int,
)
    ensures
        ({
            let items = timeline::timeline(tools, agents);
            let running = items.filter(|item: ItemView| !item.completed);
            let history = timeline::history_part(items, config.colors());
            let parts = timeline::activity_parts(items, config.colors(), now);
            &&& parts.len() == history.len() + running.len()
            &&& 0 <= i < history.len() ==> parts[i] == history[i]
            &&& 0 <= i < running.len() ==> parts[history.len() + i] == timeline::running_part(
                running[i],
                config.colors(),
                now,
            )
            &&& parts.len() > 0 ==> timeline::activity(tools, agents, config, now) == Some(
                text::joined(parts, style::separator_shown(config)),
            )
            &&& parts.len() == 0 ==> timeline::activity(tools, agents, config, now) is None
        }),
{
    law_items_are_completed_or_running(timeline::timeline(tools, agents));
}

} // verus!
