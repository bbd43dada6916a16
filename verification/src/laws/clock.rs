//! The time of day, and the minute of a reset.

use crate::clock;
use crate::text;
use vstd::arithmetic::div_mod::*;
use vstd::prelude::*;
use vstd::string::*;

verus! {

/// A clock shows the hour and the minute within which the second of the day falls, with two
/// digits each, and the same again a day later.
pub proof fn law_clock_shows_hour_and_minute(second: int, hour: nat, minute: nat)
    requires
        hour < 24,
        minute < 60,
        hour * 3600 + minute * 60 <= second % 86400 < hour * 3600 + minute * 60 + 60,
    ensures
        clock::wall_clock(second) == text::decimal2(hour) + ":"@ + text::decimal2(minute),
        clock::wall_clock(second + 86400) == clock::wall_clock(second),
        clock::clock_with(second, Some(0)) == clock::wall_clock(second),
{
    let of_day = second % 86400;
    lemma_mod_mod(second, 3600, 24);
    lemma_mod_mod(second + 86400, 3600, 24);
    lemma_mod_add_multiples_vanish(second, 86400);
    assert(of_day / 3600 == hour);
    assert(of_day % 3600 / 60 == minute);
}

/// A clock that is ahead shows what the clock of UTC will show so much later; without an
/// offset nothing is shown.
pub proof fn law_offset_moves_the_clock(second: int, ahead: i64)
    ensures
        clock::clock_with(second, Some(ahead)) == clock::clock_with(second + ahead, Some(0)),
        clock::clock_with(second, None) == Seq::<char>::empty(),
{
}

/// The minute of a reset is a whole one, at most half a minute from the time that lies the
/// given seconds ahead.
pub proof fn law_reset_minute_is_near(reset_secs: int, now: int)
    ensures
        clock::reset_minute(reset_secs, now) % 60 == 0,
        -30 <= now + reset_secs - clock::reset_minute(reset_secs, now) < 30,
{
}

/// The time of a reset can be computed exactly where it is a 64-bit number.
pub proof fn law_reset_is_computable_in_range(reset_secs: int, now: int)
    ensures
        clock::reset_fits(reset_secs, now) <==> -0x8000_0000_0000_0000 <= now + reset_secs
            <= 0x7fff_ffff_ffff_ffff,
{
}

} // verus!
