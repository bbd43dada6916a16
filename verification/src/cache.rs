//! The state of the prompt cache, inferred from token counts and costs.

use crate::clock;
use crate::clock::difference_fits;
use crate::number::Double;
use crate::types::{CacheStatus, ContextWindow, CurrentUsage, State, StateView, StdinData, StdinView};
use vstd::prelude::*;

verus! {

/// For how many seconds after a cold miss a warm hit leaves the miss in place.
pub const MISS_SECS: i64 = 30;

/// Whether the cost rose since the previous poll.
pub open spec fn cost_rose(last: Option<Double>, cost: Option<Double>) -> bool {
    match (last, cost) {
        (Some(before), Some(now)) => !before.is_nan() && !now.is_nan() && now.scaled()
            > before.scaled(),
        _ => false,
    }
}

/// The state after a look at the cost. A rise is the trace of a call that extended the
/// life of the cache, at the time of the previous poll; it extends a known hit and never
/// makes one up.
pub open spec fn after_cost(
    st: StateView,
    cost: Option<Double>,
    cost_stamp_time: i64,
) -> StateView {
    let stamped = if cost_rose(st.last_cost_usd, cost) && st.last_cache_hit is Some {
        StateView { last_cache_hit: Some(cost_stamp_time), ..st }
    } else {
        st
    };
    match cost {
        Some(_) => StateView { last_cost_usd: cost, ..stamped },
        None => stamped,
    }
}

/// A count that may be absent, absent meaning none.
pub open spec fn count(n: Option<u64>) -> int {
    match n {
        Some(n) => n as int,
        None => 0,
    }
}

/// Whether a call was served from the cache.
pub open spec fn is_warm(usage: Option<CurrentUsage>) -> bool {
    match usage {
        Some(u) => count(u.cache_read_input_tokens) > 0,
        None => false,
    }
}

/// Whether a call filled the cache without being served from it.
pub open spec fn is_cold(usage: Option<CurrentUsage>) -> bool {
    match usage {
        Some(u) => count(u.cache_read_input_tokens) == 0 && count(u.cache_creation_input_tokens)
            > 0,
        None => false,
    }
}

/// Whether the token count shows that there was a call since the previous poll.
pub open spec fn is_new_turn(st: StateView, window: ContextWindow) -> bool {
    match (st.last_total_input_tokens, window.total_input_tokens) {
        (Some(before), Some(now)) => now > before,
        _ => false,
    }
}

/// Whether the token count shows that the context was rebuilt.
pub open spec fn is_compacted(st: StateView, window: ContextWindow) -> bool {
    match (st.last_total_input_tokens, window.total_input_tokens) {
        (Some(before), Some(now)) => now < before,
        _ => false,
    }
}

/// The state after a look at the token counts.
pub open spec fn after_tokens(st: StateView, window: ContextWindow, now: i64) -> StateView {
    let counted = match window.total_input_tokens {
        Some(_) => StateView { last_total_input_tokens: window.total_input_tokens, ..st },
        None => st,
    };
    if is_compacted(st, window) {
        StateView {
            last_cache_hit: None,
            last_cache_miss: None,
            last_cost_usd: None,
            ..counted
        }
    } else if is_new_turn(st, window) && is_warm(window.current_usage) {
        StateView {
            last_cache_hit: Some(now),
            last_cache_miss: match st.last_cache_miss {
                Some(miss) => if now - miss > MISS_SECS {
                    None
                } else {
                    Some(miss)
                },
                None => None,
            },
            ..counted
        }
    } else if is_new_turn(st, window) && is_cold(window.current_usage) {
        StateView { last_cache_hit: Some(now), last_cache_miss: Some(now), ..counted }
    } else {
        counted
    }
}

/// The state after a poll: the cost is looked at first, then the token counts.
pub open spec fn after_update(
    st: StateView,
    window: ContextWindow,
    cost: Option<Double>,
    now: i64,
    cost_stamp_time: i64,
) -> StateView {
    after_tokens(after_cost(st, cost, cost_stamp_time), window, now)
}

/// Whether the age of the last miss can be computed where it matters.
pub open spec fn miss_age_fits(st: StateView, window: ContextWindow, now: i64) -> bool {
    is_new_turn(st, window) && is_warm(window.current_usage) ==> match st.last_cache_miss {
        Some(miss) => clock::fits(now - miss),
        None => true,
    }
}

/// Whether [`update_cache_state`] can be called.
pub fn is_miss_age_computable(st: &State, window: &ContextWindow, now: i64) -> (holds: bool)
    ensures
        holds == miss_age_fits(st@, *window, now),
{
    match (st.last_total_input_tokens, window.total_input_tokens, window.current_usage) {
        (Some(before), Some(tokens), Some(usage)) => {
            let read: u64 = match usage.cache_read_input_tokens {
                Some(n) => n,
                None => 0,
            };
            if tokens > before && read > 0 {
                match st.last_cache_miss {
                    Some(miss) => difference_fits(now, miss),
                    None => true,
                }
            } else {
                true
            }
        },
        _ => true,
    }
}

/// Detects a call since the previous poll, and updates the cache stamps:
/// - the cost rose: a call extended the life of the cache, at `cost_stamp_time`;
/// - no token count was known: it is recorded, nothing is stamped;
/// - the token count fell: the context was rebuilt, all stamps are dropped;
/// - it rose and tokens were read from the cache: a warm hit; a miss that is more than
///   thirty seconds old is forgotten;
/// - it rose and tokens were only written to the cache: a cold miss.
pub fn update_cache_state(
    st: &mut State,
    ctx: &ContextWindow,
    cost_usd: Option<Double>,
    now: i64,
    cost_stamp_time: i64,
)
    requires
        miss_age_fits(old(st)@, *ctx, now),
    ensures
        final(st)@ == after_update(old(st)@, *ctx, cost_usd, now, cost_stamp_time),
{
    if let Some(curr_cost) = cost_usd {
        if let Some(prev_cost) = st.last_cost_usd {
            if curr_cost.exceeds(&prev_cost) && st.last_cache_hit.is_some() {
                st.last_cache_hit = Some(cost_stamp_time);
            }
        }
        st.last_cost_usd = Some(curr_cost);
    }
    assert(st@ == after_cost(old(st)@, cost_usd, cost_stamp_time));
    let curr_tokens: u64 = match ctx.total_input_tokens {
        Some(tokens) => tokens,
        None => {
            return;
        },
    };
    let prev_tokens: u64 = match st.last_total_input_tokens {
        Some(tokens) => tokens,
        None => {
            st.last_total_input_tokens = Some(curr_tokens);
            return;
        },
    };
    if curr_tokens < prev_tokens {
        st.last_cache_hit = None;
        st.last_cache_miss = None;
        st.last_cost_usd = None;
        st.last_total_input_tokens = Some(curr_tokens);
        return;
    }
    if curr_tokens == prev_tokens {
        return;
    }
    st.last_total_input_tokens = Some(curr_tokens);
    let usage: CurrentUsage = match ctx.current_usage {
        Some(usage) => usage,
        None => {
            return;
        },
    };
    let cache_read: u64 = match usage.cache_read_input_tokens {
        Some(n) => n,
        None => 0,
    };
    let cache_creation: u64 = match usage.cache_creation_input_tokens {
        Some(n) => n,
        None => 0,
    };
    if cache_read > 0 {
        st.last_cache_hit = Some(now);
        if let Some(miss) = st.last_cache_miss {
            if now - miss > MISS_SECS {
                st.last_cache_miss = None;
            }
        }
    } else if cache_creation > 0 {
        st.last_cache_hit = Some(now);
        st.last_cache_miss = Some(now);
    }
}

/// The cost that a report gives.
pub open spec fn cost_of(data: StdinView) -> Option<Double> {
    match data.cost {
        Some(cost) => cost.total_cost_usd,
        None => None,
    }
}

fn reported_cost(data: &StdinData) -> (cost: Option<Double>)
    ensures
        cost == cost_of(data@),
{
    match &data.cost {
        Some(cost) => cost.total_cost_usd,
        None => None,
    }
}

/// The state after a report came in. A rise of the cost is dated at the previous poll.
/// Without a context window a report is no poll.
pub open spec fn after_poll(st: StateView, data: StdinView, now: i64) -> StateView {
    match data.context_window {
        Some(window) => after_update(
            StateView { last_poll_time: Some(now), ..st },
            window,
            cost_of(data),
            now,
            match st.last_poll_time {
                Some(time) => time,
                None => now,
            },
        ),
        None => st,
    }
}

/// Whether [`record_poll`] can be called.
pub open spec fn poll_fits(st: StateView, data: StdinView, now: i64) -> bool {
    match data.context_window {
        Some(window) => miss_age_fits(st, window, now),
        None => true,
    }
}

/// Whether [`record_poll`] can be called.
pub fn is_poll_recordable(st: &State, data: &StdinData, now: i64) -> (holds: bool)
    ensures
        holds == poll_fits(st@, data@, now),
{
    match &data.context_window {
        Some(window) => is_miss_age_computable(st, window, now),
        None => true,
    }
}

/// Takes a report into account: updates the cache stamps and the time of the last poll.
pub fn record_poll(st: &mut State, data: &StdinData, now: i64)
    requires
        poll_fits(old(st)@, data@, now),
    ensures
        final(st)@ == after_poll(old(st)@, data@, now),
{
    match &data.context_window {
        Some(window) => {
            let cost_stamp_time: i64 = match st.last_poll_time {
                Some(time) => time,
                None => now,
            };
            st.last_poll_time = Some(now);
            update_cache_state(st, window, reported_cost(data), now, cost_stamp_time);
        },
        None => {},
    }
}

/// The stamps that the status line shows.
pub fn cache_status(st: &State) -> (status: CacheStatus)
    ensures
        status == (CacheStatus {
            last_cache_hit: st@.last_cache_hit,
            last_cache_miss: st@.last_cache_miss,
        }),
{
    CacheStatus { last_cache_hit: st.last_cache_hit, last_cache_miss: st.last_cache_miss }
}

/// Whether a report shows another cost or token count than the state holds.
pub open spec fn is_news(st: StateView, data: StdinView) -> bool {
    ||| match (cost_of(data), st.last_cost_usd) {
        (Some(_), None) => true,
        (Some(_), Some(_)) => cost_rose(st.last_cost_usd, cost_of(data)),
        _ => false,
    }
    ||| match data.context_window {
        Some(window) => window.total_input_tokens is Some && window.total_input_tokens
            != st.last_total_input_tokens,
        None => false,
    }
}

/// Whether a report is worth logging: the cost rose, or the token count changed.
pub fn has_news(st: &State, data: &StdinData) -> (news: bool)
    ensures
        news == is_news(st@, data@),
{
    let cost_changed: bool = match (reported_cost(data), st.last_cost_usd) {
        (Some(cost), Some(last)) => cost.exceeds(&last),
        (Some(_), None) => true,
        _ => false,
    };
    let tokens_changed: bool = match &data.context_window {
        Some(window) => match (window.total_input_tokens, st.last_total_input_tokens) {
            (Some(tokens), Some(last)) => tokens != last,
            (Some(_), None) => true,
            _ => false,
        },
        None => false,
    };
    cost_changed || tokens_changed
}

/// The session whose cache stamps a state should take over: the parent's, as long as it has
/// none of its own.
pub open spec fn heir_of(st: StateView) -> Option<Seq<char>> {
    if st.last_cache_hit is None {
        st.parent_session_id
    } else {
        None
    }
}

/// The session whose cache stamps a state should take over, if any.
pub fn parent_to_inherit_from(st: &State) -> (parent: Option<&str>)
    ensures
        parent.deep_view() == heir_of(st@),
{
    if st.last_cache_hit.is_none() {
        match &st.parent_session_id {
            Some(id) => Some(id.as_str()),
            None => None,
        }
    } else {
        None
    }
}

/// The state after it took over the cache stamps of a parent session, if that has any.
pub open spec fn after_inheritance(st: StateView, parent: StateView) -> StateView {
    if heir_of(st) is Some && parent.last_cache_hit is Some {
        StateView {
            last_cache_hit: parent.last_cache_hit,
            last_total_input_tokens: parent.last_total_input_tokens,
            ..st
        }
    } else {
        st
    }
}

/// Takes over the cache stamps of the parent session, so that the countdown goes on where
/// the parent's stood. The token count comes along, so that the repetition of the parent's
/// report is not taken for a new turn.
pub fn inherit_from_parent(st: &mut State, parent: &State)
    ensures
        final(st)@ == after_inheritance(old(st)@, parent@),
{
    if st.last_cache_hit.is_none() && st.parent_session_id.is_some() {
        if let Some(hit) = parent.last_cache_hit {
            st.last_cache_hit = Some(hit);
            st.last_total_input_tokens = parent.last_total_input_tokens;
        }
    }
}

/// Without a known token count nothing is stamped that was not stamped before: what a report
/// says of the cache may be long out of date.
pub proof fn law_no_baseline_no_stamp(
    st: StateView,
    window: ContextWindow,
    cost: Option<Double>,
    now: i64,
    cost_stamp_time: i64,
)
    requires
        st.last_total_input_tokens is None,
    ensures
        ({
            let after = after_update(st, window, cost, now, cost_stamp_time);
            &&& after.last_cache_miss == st.last_cache_miss
            &&& after.last_cache_hit is Some <==> st.last_cache_hit is Some
            &&& after.last_total_input_tokens == window.total_input_tokens
        }),
{
}

/// When the context was rebuilt, every stamp is dropped and the new count is the baseline,
/// whatever the cost did.
pub proof fn law_rebuilt_context_is_cold(
    st: StateView,
    window: ContextWindow,
    cost: Option<Double>,
    now: i64,
    cost_stamp_time: i64,
)
    requires
        is_compacted(st, window),
    ensures
        ({
            let after = after_update(st, window, cost, now, cost_stamp_time);
            &&& after.last_cache_hit is None
            &&& after.last_cache_miss is None
            &&& after.last_cost_usd is None
            &&& after.last_total_input_tokens == window.total_input_tokens
        }),
{
}

/// After the context was rebuilt, a report that repeats the new count makes up no hit, at
/// whatever cost; the first turn that reads from the cache is then stamped with its own time.
pub proof fn law_no_false_stamp_after_rebuild(
    st: StateView,
    window: ContextWindow,
    cost: Option<Double>,
    now: i64,
    cost_stamp_time: i64,
    next: ContextWindow,
    next_cost: Option<Double>,
    next_now: i64,
    next_stamp_time: i64,
)
    requires
        is_compacted(st, window),
    ensures
        ({
            let rebuilt = after_update(st, window, cost, now, cost_stamp_time);
            let after = after_update(rebuilt, next, next_cost, next_now, next_stamp_time);
            &&& next.total_input_tokens == window.total_input_tokens ==> after.last_cache_hit is None
                && after.last_cache_miss is None
            &&& is_new_turn(rebuilt, next) && is_warm(next.current_usage) ==> after.last_cache_hit
                == Some(next_now) && after.last_cache_miss is None
        }),
{
}

/// The same report a second time changes neither the stamps nor the token count.
pub proof fn law_second_look_changes_nothing(
    st: StateView,
    window: ContextWindow,
    cost: Option<Double>,
    now: i64,
    cost_stamp_time: i64,
    later: i64,
    later_stamp_time: i64,
)
    ensures
        ({
            let once = after_update(st, window, cost, now, cost_stamp_time);
            let twice = after_update(once, window, cost, later, later_stamp_time);
            &&& twice.last_cache_hit == once.last_cache_hit
            &&& twice.last_cache_miss == once.last_cache_miss
            &&& twice.last_total_input_tokens == once.last_total_input_tokens
        }),
{
}

/// A cold miss outlives the warm hits of the next thirty seconds, and no later one.
pub proof fn law_miss_outlives_a_burst(
    st: StateView,
    window: ContextWindow,
    cost: Option<Double>,
    now: i64,
    cost_stamp_time: i64,
)
    requires
        is_new_turn(st, window),
        is_warm(window.current_usage),
        st.last_cache_miss is Some,
    ensures
        ({
            let after = after_update(st, window, cost, now, cost_stamp_time);
            let age = now - st.last_cache_miss->0;
            &&& age <= 30 ==> after.last_cache_miss == st.last_cache_miss
            &&& age > 30 ==> after.last_cache_miss is None
        }),
{
}

/// A report that repeats the token count, at no higher cost, leaves the stamps alone.
pub proof fn law_repeated_report_changes_no_stamp(
    st: StateView,
    window: ContextWindow,
    cost: Option<Double>,
    now: i64,
    cost_stamp_time: i64,
)
    requires
        window.total_input_tokens is Some,
        window.total_input_tokens == st.last_total_input_tokens,
        !cost_rose(st.last_cost_usd, cost),
    ensures
        ({
            let after = after_update(st, window, cost, now, cost_stamp_time);
            &&& after.last_cache_hit == st.last_cache_hit
            &&& after.last_cache_miss == st.last_cache_miss
            &&& after.last_total_input_tokens == st.last_total_input_tokens
        }),
{
}

/// A rise of the cost at an unchanged token count dates the hit at the previous poll, and
/// only where a hit was known.
pub proof fn law_rise_of_cost_extends_a_hit(
    st: StateView,
    window: ContextWindow,
    cost: Option<Double>,
    now: i64,
    cost_stamp_time: i64,
)
    requires
        window.total_input_tokens == st.last_total_input_tokens,
        cost_rose(st.last_cost_usd, cost),
    ensures
        ({
            let after = after_update(st, window, cost, now, cost_stamp_time);
            &&& st.last_cache_hit is Some ==> after.last_cache_hit == Some(cost_stamp_time)
            &&& st.last_cache_hit is None ==> after.last_cache_hit is None
            &&& after.last_cache_miss == st.last_cache_miss
        }),
{
}

/// On a new turn the stamps follow from the tokens alone; what the cost did is overwritten.
pub proof fn law_turn_overrides_cost(
    st: StateView,
    window: ContextWindow,
    cost: Option<Double>,
    now: i64,
    cost_stamp_time: i64,
)
    requires
        is_new_turn(st, window),
    ensures
        ({
            let after = after_update(st, window, cost, now, cost_stamp_time);
            &&& is_warm(window.current_usage) ==> after.last_cache_hit == Some(now)
            &&& is_warm(window.current_usage) ==> (after.last_cache_miss == st.last_cache_miss
                || after.last_cache_miss is None)
            &&& is_cold(window.current_usage) ==> after.last_cache_hit == Some(now)
                && after.last_cache_miss == Some(now)
            &&& !is_warm(window.current_usage) && !is_cold(window.current_usage)
                ==> after.last_cache_miss == st.last_cache_miss && (after.last_cache_hit is Some
                <==> st.last_cache_hit is Some)
        }),
{
}

/// A poll touches nothing but the stamps, the baselines and the time of the poll.
pub proof fn law_poll_leaves_the_rest(st: StateView, data: StdinView, now: i64)
    ensures
        after_poll(st, data, now) == (StateView {
            last_cache_hit: after_poll(st, data, now).last_cache_hit,
            last_cache_miss: after_poll(st, data, now).last_cache_miss,
            last_cost_usd: after_poll(st, data, now).last_cost_usd,
            last_total_input_tokens: after_poll(st, data, now).last_total_input_tokens,
            last_poll_time: after_poll(st, data, now).last_poll_time,
            ..st
        }),
{
}

/// After taking over the stamps of a parent that knew a token count, a first report that
/// repeats that count, at no higher cost, leaves the countdown where the parent's stood.
pub proof fn law_inherited_countdown_goes_on(
    st: StateView,
    parent: StateView,
    window: ContextWindow,
    cost: Option<Double>,
    now: i64,
    cost_stamp_time: i64,
)
    requires
        heir_of(st) is Some,
        parent.last_cache_hit is Some,
        window.total_input_tokens is Some,
        window.total_input_tokens == parent.last_total_input_tokens,
        !cost_rose(st.last_cost_usd, cost),
    ensures
        after_update(
            after_inheritance(st, parent),
            window,
            cost,
            now,
            cost_stamp_time,
        ).last_cache_hit == parent.last_cache_hit,
{
}

} // verus!
