//! Usage, stated on the fields of the report and of the remembered limits.

use crate::types::{CachedRateLimits, RateWindow, StateView, StdinView, UsageInfo};
use crate::usage;
use vstd::prelude::*;

verus! {

/// Whether the seconds until a reset are right: those from now to its time, and none where it
/// has no time or that does not lie ahead.
pub open spec fn are_secs_until(secs: Option<i64>, resets_at: Option<i64>, now: int) -> bool {
    if resets_at is Some && resets_at->0 > now {
        secs is Some && now + secs->0 == resets_at->0
    } else {
        secs is None
    }
}

/// Whether a window of a report gives a percentage.
pub open spec fn gives_percentage(window: Option<RateWindow>) -> bool {
    window is Some && window->0.used_percentage is Some
}

/// The usage of a report has the percentage and the reset of each window under that window's
/// name, and the limits that are remembered have the same percentages with the times of reset.
/// It comes back exactly where some window gives a percentage.
pub proof fn law_usage_comes_from_its_own_window(
    found: Option<(UsageInfo, CachedRateLimits)>,
    data: StdinView,
    now: int,
)
    requires
        usage::is_reported_usage(found, data, now),
        usage::limits_fit(usage::reported_limits(data), now),
    ensures
        found is Some <==> data.rate_limits is Some && (gives_percentage(
            data.rate_limits->0.five_hour,
        ) || gives_percentage(data.rate_limits->0.seven_day)),
        match found {
            Some((info, limits)) => {
                let five = data.rate_limits->0.five_hour;
                let seven = data.rate_limits->0.seven_day;
                &&& five is Some ==> info.usage_5h == five->0.used_percentage && are_secs_until(
                    info.reset_5h,
                    five->0.resets_at,
                    now,
                )
                &&& five is None ==> info.usage_5h is None && info.reset_5h is None
                &&& seven is Some ==> info.usage_7d == seven->0.used_percentage
                    && are_secs_until(info.reset_7d, seven->0.resets_at, now)
                &&& seven is None ==> info.usage_7d is None && info.reset_7d is None
                &&& limits.usage_5h == info.usage_5h
                &&& limits.usage_7d == info.usage_7d
                &&& five is Some ==> limits.resets_at_5h == five->0.resets_at
                &&& five is None ==> limits.resets_at_5h is None
                &&& seven is Some ==> limits.resets_at_7d == seven->0.resets_at
                &&& seven is None ==> limits.resets_at_7d is None
            },
            None => true,
        },
{
}

/// Two reports that agree on the five-hour window, and both give usage, show the same of it,
/// whatever they say of the week.
pub proof fn law_week_does_not_touch_the_five_hours(
    a: StdinView,
    b: StdinView,
    of_a: (UsageInfo, CachedRateLimits),
    of_b: (UsageInfo, CachedRateLimits),
    now: int,
)
    requires
        usage::is_reported_usage(Some(of_a), a, now),
        usage::is_reported_usage(Some(of_b), b, now),
        a.rate_limits is Some && b.rate_limits is Some,
        a.rate_limits->0.five_hour == b.rate_limits->0.five_hour,
    ensures
        match (of_a, of_b) {
            ((info_a, _), (info_b, _)) => info_a.usage_5h == info_b.usage_5h && info_a.reset_5h
                == info_b.reset_5h,
        },
{
}

/// Remembered limits give their percentages back as they are, with the seconds that remain until
/// each reset, and nothing where they hold no percentage.
pub proof fn law_remembered_limits_give_their_own(limits: CachedRateLimits, now: int)
    requires
        usage::limits_fit(Some(limits), now),
    ensures
        usage::usage_of_limits(limits, now) is Some <==> limits.usage_5h is Some
            || limits.usage_7d is Some,
        usage::usage_of_limits(limits, now) is Some ==> {
            let info = usage::usage_of_limits(limits, now)->0;
            &&& info.usage_5h == limits.usage_5h
            &&& info.usage_7d == limits.usage_7d
            &&& are_secs_until(info.reset_5h, limits.resets_at_5h, now)
            &&& are_secs_until(info.reset_7d, limits.resets_at_7d, now)
        },
{
}

/// A report that gives a percentage goes before what the session remembers, and is remembered in
/// its place; any other report leaves the session with what it remembers.
pub proof fn law_report_goes_before_memory(st: StateView, data: StdinView, now: int)
    ensures
        ({
            let reported = data.rate_limits is Some && (gives_percentage(
                data.rate_limits->0.five_hour,
            ) || gives_percentage(data.rate_limits->0.seven_day));
            &&& reported ==> usage::session_limits(st, data) == usage::reported_limits(data)
                && usage::reported_limits(data) is Some
            &&& !reported ==> usage::session_limits(st, data) == st.cached_rate_limits
            &&& usage::usage_of_option(usage::session_limits(st, data), now) is Some
                <==> usage::session_limits(st, data) is Some && usage::usage_of_limits(
                usage::session_limits(st, data)->0,
                now,
            ) is Some
            &&& usage::session_limits(st, data) is Some ==> usage::usage_of_option(
                usage::session_limits(st, data),
                now,
            ) == usage::usage_of_limits(usage::session_limits(st, data)->0, now)
        }),
{
}

/// Limits of other sessions are remembered exactly where they hold a percentage, as they are,
/// and change nothing else.
pub proof fn law_adoption_takes_limits_with_a_percentage(
    st: StateView,
    global: Option<CachedRateLimits>,
)
    ensures
        ({
            let after = usage::after_adoption(st, global);
            let usable = global is Some && (global->0.usage_5h is Some || global->0.usage_7d is Some);
            &&& usable ==> after == (StateView { cached_rate_limits: global, ..st })
            &&& !usable ==> after == st
        }),
{
}

/// The usage of limits can be computed unless a time of reset is so far off that the seconds
/// until it are no 64-bit number.
pub proof fn law_usage_is_computable_unless_a_reset_is_far(
    limits: CachedRateLimits,
    now: int,
)
    requires
        limits.resets_at_5h is Some ==> i64::MIN <= limits.resets_at_5h->0 - now <= i64::MAX,
        limits.resets_at_7d is Some ==> i64::MIN <= limits.resets_at_7d->0 - now <= i64::MAX,
    ensures
        usage::limits_fit(Some(limits), now),
        usage::limits_fit(None, now),
{
}

} // verus!
