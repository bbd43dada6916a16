//! Time: the current second, timestamps in transcripts, and the wall clock.

use crate::text;
use crate::text::push_decimal2;
use chrono::TimeZone;
use vstd::prelude::*;
use vstd::string::*;

verus! {

/// The first second that `chrono` can represent: the start of the year -262143.
pub const FIRST_SECOND: i64 = -8_334_601_228_800;

/// The last second that `chrono` can represent: the end of the year 262142.
pub const LAST_SECOND: i64 = 8_210_266_876_799;

/// Seconds that the system clock can show.
pub open spec fn on_the_clock(second: int) -> bool {
    0 <= second <= LAST_SECOND
}

/// Numbers that a 64-bit signed integer can hold.
pub open spec fn fits(n: int) -> bool {
    i64::MIN <= n <= i64::MAX
}

/// Whether a difference can be taken without leaving the 64-bit range.
pub fn difference_fits(a: i64, b: i64) -> (holds: bool)
    ensures
        holds == fits(a - b),
{
    a.checked_sub(b).is_some()
}

/// The Unix time at which a timestamp lies, where the text is one.
pub uninterp spec fn timestamp_of(text: Seq<char>) -> Option<i64>;

/// `chrono::Utc::now`, as Unix time. What it returns depends on the moment; it is never
/// before 1970 and never past the years that `chrono` can represent: on a machine whose clock
/// is set to such a time the call does not return.
#[verifier::external_body]
pub(crate) fn utc_now() -> (now: i64)
    ensures
        on_the_clock(now as int),
{
    chrono::Utc::now().timestamp()
}

/// Parsing a `chrono::DateTime<Utc>` from a text, as Unix time: nothing where the text
/// is no timestamp. The outcome depends on the text alone and lies within the years that
/// `chrono` can represent.
#[verifier::external_body]
pub(crate) fn parse_timestamp(text: &str) -> (time: Option<i64>)
    ensures
        time == timestamp_of(text@),
        time is Some ==> FIRST_SECOND <= time->0 <= LAST_SECOND,
{
    text.parse::<chrono::DateTime<chrono::Utc>>().ok().map(|time| time.timestamp())
}

/// The hour and the minute of a second, counted from midnight to midnight.
pub open spec fn wall_clock(second: int) -> Seq<char> {
    text::decimal2((second % 86400 / 3600) as nat) + ":"@ + text::decimal2(
        (second % 3600 / 60) as nat,
    )
}

/// What a clock shows at a second, where it is ahead of UTC by an offset. Without an offset
/// it shows nothing.
pub open spec fn clock_with(second: int, offset: Option<i64>) -> Seq<char> {
    match offset {
        Some(ahead) => wall_clock(second + ahead),
        None => seq![],
    }
}

/// Offsets that a time zone can have at a second: less than a day, and none exactly where
/// `chrono` cannot represent the second.
pub open spec fn is_offset_at(offset: Option<i64>, second: int) -> bool {
    match offset {
        Some(ahead) => FIRST_SECOND <= second <= LAST_SECOND && -86400 < ahead < 86400,
        None => !(FIRST_SECOND <= second <= LAST_SECOND),
    }
}

/// `chrono::Local`'s `timestamp_opt`: by how many seconds the machine's time zone is ahead of
/// UTC at a second, nothing exactly where the second cannot be represented. The machine
/// decides the offset; `chrono` holds it below a day and does not return on a machine whose
/// zone is further from UTC.
#[verifier::external_body]
pub(crate) fn local_offset(second: i64) -> (offset: Option<i64>)
    ensures
        is_offset_at(offset, second as int),
{
    chrono::Local.timestamp_opt(second, 0).single().map(|time| time.offset().local_minus_utc() as i64)
}

/// The hour and the minute that a clock shows at a second, where it is ahead of UTC by an
/// offset of less than a day. Without an offset it shows nothing.
pub fn format_clock(second: i64, offset: Option<i64>) -> (shown: String)
    requires
        offset is Some ==> -86400 < offset->0 < 86400,
    ensures
        shown@ == clock_with(second as int, offset),
{
    let mut shown: String = String::new();
    if let Some(ahead) = offset {
        let of_day: i64 = remainder(remainder(second, 86400) + ahead, 86400);
        assert(of_day == (second + ahead) % 86400);
        assert(of_day % 3600 == (second + ahead) % 3600);
        push_decimal2(&mut shown, (of_day / 3600) as u64);
        shown.append(":");
        push_decimal2(&mut shown, (of_day % 3600 / 60) as u64);
    }
    assert(shown@ =~= clock_with(second as int, offset));
    shown
}

/// The remainder that is never negative.
fn remainder(n: i64, by: i64) -> (rest: i64)
    requires
        0 < by,
    ensures
        rest == n as int % by as int,
        0 <= rest < by,
{
    if n >= 0 {
        n % by
    } else {
        let below: i64 = (-(n + 1)) % by;
        proof {
            let m = -(n + 1);
            let q = m / by as int;
            assert(m == q * by + below) by {
                vstd::arithmetic::div_mod::lemma_fundamental_div_mod(m, by as int);
                vstd::arithmetic::mul::lemma_mul_is_commutative(q, by as int);
            }
            assert(n == (-q - 1) * by + (by - 1 - below)) by (nonlinear_arith)
                requires
                    n == -1 - (q * by + below),
            ;
            vstd::arithmetic::div_mod::lemma_fundamental_div_mod_converse(
                n as int,
                by as int,
                -q - 1,
                by - 1 - below,
            );
        }
        by - 1 - below
    }
}

/// The whole minute nearest to a second; the later one from half a minute on.
pub open spec fn nearest_minute(second: int) -> int {
    (second + 30) / 60 * 60
}

/// Rounds a second to the nearest whole minute.
pub fn round_to_minute(second: i64) -> (minute: i64)
    ensures
        minute == nearest_minute(second as int),
{
    let part: i64 = remainder(second, 60);
    if part >= 30 {
        second + (60 - part)
    } else {
        second - part
    }
}

/// The second at which a reset happens, rounded to a whole minute.
pub open spec fn reset_minute(reset_secs: int, now: int) -> int {
    nearest_minute(now + reset_secs)
}

/// Whether the time of a reset can be computed.
pub open spec fn reset_fits(reset_secs: int, now: int) -> bool {
    fits(now + reset_secs)
}

/// Whether the time of a reset can be computed.
pub fn is_reset_computable(reset_secs: i64, now: i64) -> (holds: bool)
    ensures
        holds == reset_fits(reset_secs as int, now as int),
{
    now.checked_add(reset_secs).is_some()
}

/// The time of day, in hours and minutes, at which `reset_secs` seconds from `now` will
/// have passed, on a clock that is ahead of UTC by an offset of less than a day. Without an
/// offset it is empty.
pub fn format_reset_clock_with(reset_secs: i64, now: i64, offset: Option<i64>) -> (shown: String)
    requires
        reset_fits(reset_secs as int, now as int),
        offset is Some ==> -86400 < offset->0 < 86400,
    ensures
        shown@ == clock_with(reset_minute(reset_secs as int, now as int), offset),
{
    format_clock(round_to_minute(now + reset_secs), offset)
}

/// Whether a text is what a clock in some time zone shows at a second.
pub open spec fn clock_shows(shown: Seq<char>, second: int) -> bool {
    exists|offset: Option<i64>|
        #[trigger] is_offset_at(offset, second) && shown == clock_with(second, offset)
}

/// The time of day, in hours and minutes, at which `reset_secs` seconds from `now` will
/// have passed. The machine's time zone decides by how much it differs from UTC.
pub fn format_reset_clock_at(reset_secs: i64, now: i64) -> (shown: String)
    requires
        reset_fits(reset_secs as int, now as int),
    ensures
        clock_shows(shown@, reset_minute(reset_secs as int, now as int)),
{
    let offset: Option<i64> = local_offset(round_to_minute(now + reset_secs));
    format_reset_clock_with(reset_secs, now, offset)
}

/// The time of day, in hours and minutes, at which `reset_secs` seconds from now will
/// have passed.
pub fn format_reset_clock(reset_secs: i64) -> (shown: String)
    requires
        forall|now: int| on_the_clock(now) ==> #[trigger] reset_fits(reset_secs as int, now),
    ensures
        exists|now: int|
            on_the_clock(now) && clock_shows(
                shown@,
                #[trigger] reset_minute(reset_secs as int, now),
            ),
{
    let now: i64 = utc_now();
    assert(reset_fits(reset_secs as int, now as int));
    let shown: String = format_reset_clock_at(reset_secs, now);
    assert(clock_shows(shown@, reset_minute(reset_secs as int, now as int)));
    shown
}

/// Rounding to the minute moves a second by at most half a minute.
pub proof fn law_rounding_is_nearest(second: int)
    ensures
        nearest_minute(second) % 60 == 0,
        -30 <= second - nearest_minute(second) < 30,
{
}

} // verus!
