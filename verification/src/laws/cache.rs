//! The cache stamps, stated on the token counts and the costs themselves.

use crate::cache;
use crate::number::Double;
use crate::types::{ContextWindow, CurrentUsage, StateView, StdinView};
use vstd::prelude::*;

verus! {

/// Where the stamp of the last hit stands if only the cost has a say: at the previous poll
/// where the cost rose and a hit was known, else where it stood.
pub open spec fn hit_by_cost(
    hit: Option<i64>,
    last: Option<Double>,
    cost: Option<Double>,
    cost_stamp_time: i64,
) -> Option<i64> {
    if hit is Some && last is Some && cost is Some && !last->0.is_nan() && !cost->0.is_nan()
        && cost->0.scaled() > last->0.scaled() {
        Some(cost_stamp_time)
    } else {
        hit
    }
}

/// A turn that read from the cache is a hit, however much it wrote to the cache. It makes no
/// miss; one that is known outlives it for thirty seconds.
pub proof fn law_turn_that_reads_the_cache_is_a_hit(
    st: StateView,
    window: ContextWindow,
    cost: Option<Double>,
    now: i64,
    cost_stamp_time: i64,
    before: u64,
    tokens: u64,
    usage: CurrentUsage,
    read: u64,
)
    requires
        st.last_total_input_tokens == Some(before),
        window.total_input_tokens == Some(tokens),
        tokens > before,
        window.current_usage == Some(usage),
        usage.cache_read_input_tokens == Some(read),
        read > 0,
    ensures
        ({
            let after = cache::after_update(st, window, cost, now, cost_stamp_time);
            &&& after.last_cache_hit == Some(now)
            &&& st.last_cache_miss is None ==> after.last_cache_miss is None
            &&& st.last_cache_miss is Some && now - st.last_cache_miss->0 <= 30
                ==> after.last_cache_miss == st.last_cache_miss
            &&& st.last_cache_miss is Some && now - st.last_cache_miss->0 > 30
                ==> after.last_cache_miss is None
        }),
{
}

/// A turn that wrote to the cache without reading from it is a miss, and leaves a warm cache.
pub proof fn law_turn_that_only_writes_the_cache_is_a_miss(
    st: StateView,
    window: ContextWindow,
    cost: Option<Double>,
    now: i64,
    cost_stamp_time: i64,
    before: u64,
    tokens: u64,
    usage: CurrentUsage,
    created: u64,
)
    requires
        st.last_total_input_tokens == Some(before),
        window.total_input_tokens == Some(tokens),
        tokens > before,
        window.current_usage == Some(usage),
        usage.cache_read_input_tokens is None || usage.cache_read_input_tokens == Some(0u64),
        usage.cache_creation_input_tokens == Some(created),
        created > 0,
    ensures
        ({
            let after = cache::after_update(st, window, cost, now, cost_stamp_time);
            &&& after.last_cache_hit == Some(now)
            &&& after.last_cache_miss == Some(now)
        }),
{
}

/// A turn that neither read from the cache nor wrote to it leaves the stamps to the cost.
pub proof fn law_turn_past_the_cache_leaves_the_stamps(
    st: StateView,
    window: ContextWindow,
    cost: Option<Double>,
    now: i64,
    cost_stamp_time: i64,
    before: u64,
    tokens: u64,
)
    requires
        st.last_total_input_tokens == Some(before),
        window.total_input_tokens == Some(tokens),
        tokens > before,
        window.current_usage is Some ==> {
            let usage = window.current_usage->0;
            &&& usage.cache_read_input_tokens is None || usage.cache_read_input_tokens == Some(
                0u64,
            )
            &&& usage.cache_creation_input_tokens is None || usage.cache_creation_input_tokens
                == Some(0u64)
        },
    ensures
        ({
            let after = cache::after_update(st, window, cost, now, cost_stamp_time);
            &&& after.last_cache_hit == hit_by_cost(
                st.last_cache_hit,
                st.last_cost_usd,
                cost,
                cost_stamp_time,
            )
            &&& after.last_cache_miss == st.last_cache_miss
        }),
{
}

/// A miss is stamped only on a turn that wrote to the cache and read nothing from it, and then
/// with the time of that turn.
pub proof fn law_nothing_else_stamps_a_miss(
    st: StateView,
    window: ContextWindow,
    cost: Option<Double>,
    now: i64,
    cost_stamp_time: i64,
)
    requires
        ({
            let after = cache::after_update(st, window, cost, now, cost_stamp_time);
            after.last_cache_miss is Some && after.last_cache_miss != st.last_cache_miss
        }),
    ensures
        cache::after_update(st, window, cost, now, cost_stamp_time).last_cache_miss == Some(now),
        st.last_total_input_tokens is Some && window.total_input_tokens is Some,
        window.total_input_tokens->0 > st.last_total_input_tokens->0,
        window.current_usage is Some,
        window.current_usage->0.cache_read_input_tokens is Some
            ==> window.current_usage->0.cache_read_input_tokens->0 == 0,
        window.current_usage->0.cache_creation_input_tokens is Some,
        window.current_usage->0.cache_creation_input_tokens->0 > 0,
{
}

/// A lower token count drops every stamp and the cost, whatever else is reported.
pub proof fn law_lower_count_drops_all(
    st: StateView,
    window: ContextWindow,
    cost: Option<Double>,
    now: i64,
    cost_stamp_time: i64,
    before: u64,
    tokens: u64,
)
    requires
        st.last_total_input_tokens == Some(before),
        window.total_input_tokens == Some(tokens),
        tokens < before,
    ensures
        ({
            let after = cache::after_update(st, window, cost, now, cost_stamp_time);
            &&& after.last_cache_hit is None
            &&& after.last_cache_miss is None
            &&& after.last_cost_usd is None
            &&& after.last_total_input_tokens == Some(tokens)
        }),
{
}

/// Where there is no count to hold the reported one against, where none is reported, and where
/// it is the same, only the cost has a say: what is reported of the cache is not looked at.
pub proof fn law_without_another_count_only_the_cost_counts(
    st: StateView,
    window: ContextWindow,
    cost: Option<Double>,
    now: i64,
    cost_stamp_time: i64,
)
    requires
        st.last_total_input_tokens is None || window.total_input_tokens is None
            || st.last_total_input_tokens == window.total_input_tokens,
    ensures
        ({
            let after = cache::after_update(st, window, cost, now, cost_stamp_time);
            &&& after.last_cache_hit == hit_by_cost(
                st.last_cache_hit,
                st.last_cost_usd,
                cost,
                cost_stamp_time,
            )
            &&& after.last_cache_miss == st.last_cache_miss
        }),
{
}

/// The reported token count becomes the baseline, and the reported cost too unless the count
/// fell; what is not reported stays. Nothing but stamps and baselines changes.
pub proof fn law_report_becomes_the_baseline(
    st: StateView,
    window: ContextWindow,
    cost: Option<Double>,
    now: i64,
    cost_stamp_time: i64,
)
    ensures
        ({
            let after = cache::after_update(st, window, cost, now, cost_stamp_time);
            let fell = st.last_total_input_tokens is Some && window.total_input_tokens is Some
                && window.total_input_tokens->0 < st.last_total_input_tokens->0;
            &&& window.total_input_tokens is Some ==> after.last_total_input_tokens
                == window.total_input_tokens
            &&& window.total_input_tokens is None ==> after.last_total_input_tokens
                == st.last_total_input_tokens
            &&& !fell && cost is Some ==> after.last_cost_usd == cost
            &&& !fell && cost is None ==> after.last_cost_usd == st.last_cost_usd
            &&& after.version == st.version
            &&& after.byte_offset == st.byte_offset
            &&& after.inode == st.inode
            &&& after.file_size == st.file_size
            &&& after.work == st.work
            &&& after.git_index_mtime == st.git_index_mtime
            &&& after.cached_rate_limits == st.cached_rate_limits
            &&& after.next_seq == st.next_seq
            &&& after.last_poll_time == st.last_poll_time
            &&& after.parent_session_id == st.parent_session_id
        }),
{
}

/// A report with a context window is a poll: it is dated now, its cost is the one reported, and
/// a rise of the cost is dated at the previous poll, or now where there was none. A report
/// without a context window changes nothing.
pub proof fn law_poll_uses_what_is_reported(st: StateView, data: StdinView, now: i64)
    ensures
        data.context_window is None ==> cache::after_poll(st, data, now) == st,
        data.context_window is Some ==> {
            let cost = if data.cost is Some {
                data.cost->0.total_cost_usd
            } else {
                None
            };
            let previous = if st.last_poll_time is Some {
                st.last_poll_time->0
            } else {
                now
            };
            let updated = cache::after_update(
                st,
                data.context_window->0,
                cost,
                now,
                previous,
            );
            cache::after_poll(st, data, now) == (StateView {
                last_poll_time: Some(now),
                ..updated
            })
        },
{
}

/// A report is news where a cost comes in for the first time or above the last one, and where a
/// token count comes in for the first time or differs from the last one, and nowhere else.
pub proof fn law_news_is_a_change(st: StateView, data: StdinView)
    ensures
        ({
            let cost = if data.cost is Some {
                data.cost->0.total_cost_usd
            } else {
                None
            };
            let tokens = if data.context_window is Some {
                data.context_window->0.total_input_tokens
            } else {
                None
            };
            let cost_is_news = cost is Some && (st.last_cost_usd is None || (!cost->0.is_nan()
                && !st.last_cost_usd->0.is_nan() && cost->0.scaled()
                > st.last_cost_usd->0.scaled()));
            let tokens_are_news = tokens is Some && (st.last_total_input_tokens is None
                || tokens->0 != st.last_total_input_tokens->0);
            cache::is_news(st, data) <==> cost_is_news || tokens_are_news
        }),
{
}

/// A session without a hit of its own that has a parent takes over the parent's hit, where that
/// has one, with the parent's token count, and nothing else. Every other session stays as it is.
pub proof fn law_only_a_cold_branch_inherits(st: StateView, parent: StateView)
    ensures
        ({
            let after = cache::after_inheritance(st, parent);
            let heir = st.last_cache_hit is None && st.parent_session_id is Some;
            &&& heir && parent.last_cache_hit is Some ==> after == (StateView {
                last_cache_hit: parent.last_cache_hit,
                last_total_input_tokens: parent.last_total_input_tokens,
                ..st
            })
            &&& !heir || parent.last_cache_hit is None ==> after == st
            &&& heir ==> cache::heir_of(st) == st.parent_session_id
            &&& !heir ==> cache::heir_of(st) is None
        }),
{
}

/// A poll can be recorded unless it is a turn that read from the cache while the last miss is so
/// far off that its age is no 64-bit number.
pub proof fn law_poll_is_recordable_unless_the_miss_is_far(
    st: StateView,
    data: StdinView,
    now: i64,
)
    ensures
        !cache::poll_fits(st, data, now) ==> {
            &&& st.last_cache_miss is Some
            &&& now - st.last_cache_miss->0 > i64::MAX || now - st.last_cache_miss->0 < i64::MIN
            &&& data.context_window is Some
            &&& data.context_window->0.current_usage is Some
            &&& data.context_window->0.current_usage->0.cache_read_input_tokens is Some
            &&& data.context_window->0.current_usage->0.cache_read_input_tokens->0 > 0
            &&& data.context_window->0.total_input_tokens is Some
            &&& st.last_total_input_tokens is Some
            &&& data.context_window->0.total_input_tokens->0 > st.last_total_input_tokens->0
        },
        data.context_window is Some ==> (cache::poll_fits(st, data, now) <==> cache::miss_age_fits(
            st,
            data.context_window->0,
            now,
        )),
{
}

} // verus!
