//! Usage of the rate limits: from the report, or from what was last known.

use crate::clock;
use crate::clock::{difference_fits, utc_now};
use crate::number::Double;
use crate::state;
use crate::types::{
    CachedRateLimits, RateLimits, RateWindow, State, StateView, StdinData, StdinView, UsageInfo,
};
use vstd::prelude::*;

verus! {

/// The seconds until a reset, where it lies ahead.
pub open spec fn secs_until(resets_at: Option<i64>, now: int) -> Option<i64> {
    match resets_at {
        Some(time) => if time - now > 0 {
            Some((time - now) as i64)
        } else {
            None
        },
        None => None,
    }
}

/// Whether the seconds until a reset can be computed.
pub open spec fn reset_fits(resets_at: Option<i64>, now: int) -> bool {
    match resets_at {
        Some(time) => clock::fits(time - now),
        None => true,
    }
}

/// The seconds until a reset, where it is known and lies ahead.
pub fn reset_secs(resets_at: Option<i64>, now: i64) -> (secs: Option<i64>)
    requires
        reset_fits(resets_at, now as int),
    ensures
        secs == secs_until(resets_at, now as int),
{
    match resets_at {
        Some(time) => {
            let secs: i64 = time - now;
            if secs > 0 {
                Some(secs)
            } else {
                None
            }
        },
        None => None,
    }
}

/// The percentage of a window that is used.
pub open spec fn used(window: Option<RateWindow>) -> Option<Double> {
    match window {
        Some(w) => w.used_percentage,
        None => None,
    }
}

/// When a window resets.
pub open spec fn resets(window: Option<RateWindow>) -> Option<i64> {
    match window {
        Some(w) => w.resets_at,
        None => None,
    }
}

/// The limits to remember of a report: nothing where it gives no percentage.
pub open spec fn reported_limits(data: StdinView) -> Option<CachedRateLimits> {
    match data.rate_limits {
        Some(limits) => if used(limits.five_hour) is None && used(limits.seven_day) is None {
            None
        } else {
            Some(
                CachedRateLimits {
                    usage_5h: used(limits.five_hour),
                    usage_7d: used(limits.seven_day),
                    resets_at_5h: resets(limits.five_hour),
                    resets_at_7d: resets(limits.seven_day),
                },
            )
        },
        None => None,
    }
}

/// The usage that remembered limits amount to: nothing where they hold no percentage.
pub open spec fn usage_of_limits(limits: CachedRateLimits, now: int) -> Option<UsageInfo> {
    if limits.usage_5h is None && limits.usage_7d is None {
        None
    } else {
        Some(
            UsageInfo {
                usage_5h: limits.usage_5h,
                usage_7d: limits.usage_7d,
                reset_5h: secs_until(limits.resets_at_5h, now),
                reset_7d: secs_until(limits.resets_at_7d, now),
            },
        )
    }
}

/// The usage that limits that may be absent amount to.
pub open spec fn usage_of_option(limits: Option<CachedRateLimits>, now: int) -> Option<UsageInfo> {
    match limits {
        Some(l) => usage_of_limits(l, now),
        None => None,
    }
}

/// Whether the usage that limits amount to can be computed.
pub open spec fn limits_fit(limits: Option<CachedRateLimits>, now: int) -> bool {
    match limits {
        Some(l) => l.usage_5h is None && l.usage_7d is None || reset_fits(l.resets_at_5h, now)
            && reset_fits(l.resets_at_7d, now),
        None => true,
    }
}

fn is_reset_computable(resets_at: Option<i64>, now: i64) -> (holds: bool)
    ensures
        holds == reset_fits(resets_at, now as int),
{
    match resets_at {
        Some(time) => difference_fits(time, now),
        None => true,
    }
}

/// Whether the usage that limits amount to can be computed.
pub fn is_usage_computable(limits: Option<CachedRateLimits>, now: i64) -> (holds: bool)
    ensures
        holds == limits_fit(limits, now as int),
{
    match limits {
        Some(l) => l.usage_5h.is_none() && l.usage_7d.is_none() || is_reset_computable(
            l.resets_at_5h,
            now,
        ) && is_reset_computable(l.resets_at_7d, now),
        None => true,
    }
}

/// The limits to remember of a report: nothing where it gives no percentage.
pub fn limits_from_stdin(data: &StdinData) -> (limits: Option<CachedRateLimits>)
    ensures
        limits == reported_limits(data@),
{
    let limits: RateLimits = match data.rate_limits {
        Some(limits) => limits,
        None => {
            return None;
        },
    };
    let (usage_5h, resets_at_5h): (Option<Double>, Option<i64>) = match limits.five_hour {
        Some(window) => (window.used_percentage, window.resets_at),
        None => (None, None),
    };
    let (usage_7d, resets_at_7d): (Option<Double>, Option<i64>) = match limits.seven_day {
        Some(window) => (window.used_percentage, window.resets_at),
        None => (None, None),
    };
    if usage_5h.is_none() && usage_7d.is_none() {
        return None;
    }
    Some(CachedRateLimits { usage_5h, usage_7d, resets_at_5h, resets_at_7d })
}

/// The usage that remembered limits amount to at a given time.
pub fn usage_from_cache_at(cached: &CachedRateLimits, now: i64) -> (usage: Option<UsageInfo>)
    requires
        limits_fit(Some(*cached), now as int),
    ensures
        usage == usage_of_limits(*cached, now as int),
{
    if cached.usage_5h.is_none() && cached.usage_7d.is_none() {
        return None;
    }
    Some(
        UsageInfo {
            usage_5h: cached.usage_5h,
            usage_7d: cached.usage_7d,
            reset_5h: reset_secs(cached.resets_at_5h, now),
            reset_7d: reset_secs(cached.resets_at_7d, now),
        },
    )
}

/// The usage that remembered limits amount to now.
pub fn usage_from_cache(cached: &CachedRateLimits) -> (usage: Option<UsageInfo>)
    requires
        forall|now: int| clock::on_the_clock(now) ==> #[trigger] limits_fit(Some(*cached), now),
    ensures
        exists|now: int|
            clock::on_the_clock(now) && usage == #[trigger] usage_of_limits(*cached, now),
{
    let now: i64 = utc_now();
    assert(limits_fit(Some(*cached), now as int));
    usage_from_cache_at(cached, now)
}

/// Whether a usage and the limits to remember are those of a report: nothing exactly where
/// it gives no percentage.
pub open spec fn is_reported_usage(
    found: Option<(UsageInfo, CachedRateLimits)>,
    data: StdinView,
    now: int,
) -> bool {
    match found {
        Some((usage, limits)) => reported_limits(data) == Some(limits) && usage_of_limits(
            limits,
            now,
        ) == Some(usage),
        None => reported_limits(data) is None,
    }
}

/// The usage that a report gives at a given time, with the limits to remember.
pub fn usage_from_stdin_at(data: &StdinData, now: i64) -> (found: Option<
    (UsageInfo, CachedRateLimits),
>)
    requires
        limits_fit(reported_limits(data@), now as int),
    ensures
        is_reported_usage(found, data@, now as int),
{
    match limits_from_stdin(data) {
        Some(limits) => match usage_from_cache_at(&limits, now) {
            Some(usage) => Some((usage, limits)),
            None => None,
        },
        None => None,
    }
}

/// The usage that a report gives now, with the limits to remember.
pub fn usage_from_stdin(data: &StdinData) -> (found: Option<(UsageInfo, CachedRateLimits)>)
    requires
        forall|now: int|
            clock::on_the_clock(now) ==> #[trigger] limits_fit(reported_limits(data@), now),
    ensures
        exists|now: int|
            clock::on_the_clock(now) && #[trigger] is_reported_usage(found, data@, now),
{
    let now: i64 = utc_now();
    assert(limits_fit(reported_limits(data@), now as int));
    usage_from_stdin_at(data, now)
}

/// The limits that a session goes by: those of the report, or else the remembered ones.
pub open spec fn session_limits(st: StateView, data: StdinView) -> Option<CachedRateLimits> {
    match reported_limits(data) {
        Some(limits) => Some(limits),
        None => st.cached_rate_limits,
    }
}

/// The usage of a session at a given time: from the report, or else from the limits that the
/// session remembers. Limits that are reported are remembered.
pub fn session_usage_at(st: &mut State, data: &StdinData, now: i64) -> (usage: Option<UsageInfo>)
    requires
        limits_fit(session_limits(old(st)@, data@), now as int),
    ensures
        usage == usage_of_option(session_limits(old(st)@, data@), now as int),
        final(st)@ == (StateView {
            cached_rate_limits: session_limits(old(st)@, data@),
            ..old(st)@
        }),
{
    match usage_from_stdin_at(data, now) {
        Some((usage, limits)) => {
            st.cached_rate_limits = Some(limits);
            Some(usage)
        },
        None => match &st.cached_rate_limits {
            Some(cached) => usage_from_cache_at(cached, now),
            None => None,
        },
    }
}

/// The state after limits that any session saw last were taken over, where they hold a
/// percentage.
pub open spec fn after_adoption(st: StateView, global: Option<CachedRateLimits>) -> StateView {
    if global is Some && (global->0.usage_5h is Some || global->0.usage_7d is Some) {
        StateView { cached_rate_limits: global, ..st }
    } else {
        st
    }
}

/// The usage at a given time from the limits that any session saw last, for a session that
/// knows none; they are remembered.
pub fn adopt_global_limits_at(
    st: &mut State,
    global: Option<CachedRateLimits>,
    now: i64,
) -> (usage: Option<UsageInfo>)
    requires
        limits_fit(global, now as int),
    ensures
        usage == usage_of_option(global, now as int),
        final(st)@ == after_adoption(old(st)@, global),
{
    match global {
        Some(limits) => match usage_from_cache_at(&limits, now) {
            Some(usage) => {
                st.cached_rate_limits = Some(limits);
                Some(usage)
            },
            None => None,
        },
        None => None,
    }
}

/// The limits that a report gave stand in for it later: a report without limits then shows
/// the same percentages, with the time that has passed taken off the seconds that remain.
pub proof fn law_remembered_limits_stand_in(
    st: StateView,
    data: StdinView,
    later: StdinView,
    now: int,
)
    requires
        reported_limits(data) is Some,
        reported_limits(later) is None,
    ensures
        ({
            let after = StateView { cached_rate_limits: session_limits(st, data), ..st };
            &&& session_limits(after, later) == reported_limits(data)
            &&& usage_of_option(session_limits(after, later), now) == usage_of_option(
                reported_limits(data),
                now,
            )
            &&& usage_of_option(session_limits(after, later), now) is Some
        }),
{
}

/// What one session writes for all lets a new session, of which nothing is known, show usage
/// before any report gives some.
pub proof fn law_new_session_shows_saved_limits(
    saved: StateView,
    session_id: Option<Seq<char>>,
    ramdisk: bool,
    st: StateView,
    data: StdinView,
    now: int,
)
    requires
        saved.cached_rate_limits is Some,
        usage_of_option(saved.cached_rate_limits, now) is Some,
        st.cached_rate_limits is None,
        reported_limits(data) is None,
    ensures
        ({
            let written = state::to_write(saved, session_id, ramdisk).limits;
            &&& written == Some((state::limits_file(ramdisk), saved.cached_rate_limits->0))
            &&& usage_of_option(session_limits(st, data), now) is None
            &&& after_adoption(st, saved.cached_rate_limits).cached_rate_limits
                == saved.cached_rate_limits
        }),
{
}

/// A reset that is shown lies ahead; one that lies behind is not shown.
pub proof fn law_reset_lies_ahead(resets_at: Option<i64>, now: int)
    requires
        reset_fits(resets_at, now),
    ensures
        secs_until(resets_at, now) is Some <==> resets_at is Some && resets_at->0 > now,
        secs_until(resets_at, now) is Some ==> secs_until(resets_at, now)->0 > 0 && now
            + secs_until(resets_at, now)->0 == resets_at->0,
{
}

} // verus!
