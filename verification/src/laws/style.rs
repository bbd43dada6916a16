//! Colors and durations.

use crate::style;
use crate::style::{
    BRIGHT, DIM, GREEN, PACE_COMFORTABLE, PACE_CRITICAL, PACE_ON_TRACK, PACE_PRESSING, PACE_RUNAWAY,
    PACE_WARMING, RED, RESET, USAGE_GRADIENT, YELLOW,
};
use crate::text;
use crate::types::ConfigView;
use vstd::prelude::*;
use vstd::string::*;

verus! {

/// The codes of the eight basic styles.
pub proof fn law_basic_codes()
    ensures
        RESET@ == seq!['\x1b', '[', '0', 'm'],
        BRIGHT@ == seq!['\x1b', '[', '1', ';', '3', '7', 'm'],
        DIM@ == seq!['\x1b', '[', '2', 'm'],
        RED@ == seq!['\x1b', '[', '3', '1', 'm'],
        YELLOW@ == seq!['\x1b', '[', '3', '3', 'm'],
        GREEN@ == seq!['\x1b', '[', '3', '2', 'm'],
{
    reveal_strlit("\x1b[0m");
    reveal_strlit("\x1b[1;37m");
    reveal_strlit("\x1b[2m");
    reveal_strlit("\x1b[31m");
    reveal_strlit("\x1b[33m");
    reveal_strlit("\x1b[32m");
    assert(RESET@ =~= seq!['\x1b', '[', '0', 'm']);
    assert(BRIGHT@ =~= seq!['\x1b', '[', '1', ';', '3', '7', 'm']);
    assert(DIM@ =~= seq!['\x1b', '[', '2', 'm']);
    assert(RED@ =~= seq!['\x1b', '[', '3', '1', 'm']);
    assert(YELLOW@ =~= seq!['\x1b', '[', '3', '3', 'm']);
    assert(GREEN@ =~= seq!['\x1b', '[', '3', '2', 'm']);
}

/// The code for a color of the palette of 256.
pub open spec fn palette(n: nat) -> Seq<char> {
    seq!['\x1b', '[', '3', '8', ';', '5', ';'] + text::decimal(n) + seq!['m']
}

proof fn lemma_decimal_digits(n: nat)
    requires
        10 <= n < 1000,
    ensures
        n < 100 ==> text::decimal(n) == seq![text::digit(n / 10), text::digit(n % 10)],
        n >= 100 ==> text::decimal(n) == seq![
            text::digit(n / 100),
            text::digit(n / 10 % 10),
            text::digit(n % 10),
        ],
{
    reveal_with_fuel(text::decimal, 3);
    if n < 100 {
        assert(text::decimal(n) =~= seq![text::digit(n / 10), text::digit(n % 10)]);
    } else {
        assert(n / 10 / 10 == n / 100);
        assert(text::decimal(n) =~= seq![
            text::digit(n / 100),
            text::digit(n / 10 % 10),
            text::digit(n % 10),
        ]);
    }
}

/// The colors of the gradient and of the pace in the palette.
pub proof fn law_palette_codes()
    ensures
        USAGE_GRADIENT[0]@ == palette(22),
        USAGE_GRADIENT[1]@ == palette(28),
        USAGE_GRADIENT[2]@ == palette(34),
        USAGE_GRADIENT[3]@ == palette(100),
        USAGE_GRADIENT[4]@ == palette(142),
        USAGE_GRADIENT[5]@ == palette(178),
        USAGE_GRADIENT[6]@ == palette(172),
        USAGE_GRADIENT[7]@ == palette(166),
        USAGE_GRADIENT[8]@ == palette(160),
        USAGE_GRADIENT[9]@ == palette(124),
        PACE_COMFORTABLE@ == palette(34),
        PACE_ON_TRACK@ == palette(37),
        PACE_WARMING@ == palette(178),
        PACE_PRESSING@ == palette(208),
        PACE_CRITICAL@ == palette(160),
        PACE_RUNAWAY@ == palette(96),
{
    reveal_strlit("\x1b[38;5;22m");
    reveal_strlit("\x1b[38;5;28m");
    reveal_strlit("\x1b[38;5;34m");
    reveal_strlit("\x1b[38;5;37m");
    reveal_strlit("\x1b[38;5;96m");
    reveal_strlit("\x1b[38;5;100m");
    reveal_strlit("\x1b[38;5;124m");
    reveal_strlit("\x1b[38;5;142m");
    reveal_strlit("\x1b[38;5;160m");
    reveal_strlit("\x1b[38;5;166m");
    reveal_strlit("\x1b[38;5;172m");
    reveal_strlit("\x1b[38;5;178m");
    reveal_strlit("\x1b[38;5;208m");
    lemma_decimal_digits(22);
    lemma_decimal_digits(28);
    lemma_decimal_digits(34);
    lemma_decimal_digits(37);
    lemma_decimal_digits(96);
    lemma_decimal_digits(100);
    lemma_decimal_digits(124);
    lemma_decimal_digits(142);
    lemma_decimal_digits(160);
    lemma_decimal_digits(166);
    lemma_decimal_digits(172);
    lemma_decimal_digits(178);
    lemma_decimal_digits(208);
    assert(USAGE_GRADIENT[0]@ =~= palette(22));
    assert(USAGE_GRADIENT[1]@ =~= palette(28));
    assert(USAGE_GRADIENT[2]@ =~= palette(34));
    assert(USAGE_GRADIENT[3]@ =~= palette(100));
    assert(USAGE_GRADIENT[4]@ =~= palette(142));
    assert(USAGE_GRADIENT[5]@ =~= palette(178));
    assert(USAGE_GRADIENT[6]@ =~= palette(172));
    assert(USAGE_GRADIENT[7]@ =~= palette(166));
    assert(USAGE_GRADIENT[8]@ =~= palette(160));
    assert(USAGE_GRADIENT[9]@ =~= palette(124));
    assert(PACE_COMFORTABLE@ =~= palette(34));
    assert(PACE_ON_TRACK@ =~= palette(37));
    assert(PACE_WARMING@ =~= palette(178));
    assert(PACE_PRESSING@ =~= palette(208));
    assert(PACE_CRITICAL@ =~= palette(160));
    assert(PACE_RUNAWAY@ =~= palette(96));
}

/// Color stands around a text: its code before, the end of all color behind; without colors the
/// text stands alone.
pub proof fn law_color_stands_around(shown: Seq<char>, color: Seq<char>)
    ensures
        style::colored(shown, color, true) == color + shown + seq!['\x1b', '[', '0', 'm'],
        style::colored(shown, color, false) == shown,
{
    law_basic_codes();
}

/// The separator of the settings, dim in colors and as it is without; a bar between two spaces
/// where none is set.
pub proof fn law_separator_is_that_of_the_settings(config: ConfigView)
    ensures
        config.separator is Some ==> config.separator() == config.separator->0,
        config.separator is None ==> config.separator() == seq![' ', '│', ' '],
        config.colors == Some(false) <==> !config.colors(),
        config.colors() ==> style::separator_shown(config) == DIM@ + config.separator() + RESET@,
        !config.colors() ==> style::separator_shown(config) == config.separator(),
{
    reveal_strlit(" │ ");
    assert(" │ "@ =~= seq![' ', '│', ' ']);
}

/// One to three components are shown: as many as are set, held in that range, and one where
/// nothing is set.
pub proof fn law_path_levels_are_one_to_three(config: ConfigView)
    ensures
        config.path_levels is None ==> config.path_levels() == 1,
        config.path_levels is Some && 1 <= config.path_levels->0 <= 3 ==> config.path_levels()
            == config.path_levels->0,
        config.path_levels is Some && config.path_levels->0 < 1 ==> config.path_levels() == 1,
        config.path_levels is Some && config.path_levels->0 > 3 ==> config.path_levels() == 3,
{
}

/// The context is red above the critical percentage, green below the warning one, and yellow
/// between: 85 and 70 where they are not set. The critical one goes before.
pub proof fn law_context_color_by_thresholds(pct: int, config: ConfigView)
    ensures
        ({
            let critical = if config.context_critical is Some {
                config.context_critical->0 as int
            } else {
                85
            };
            let warning = if config.context_warning is Some {
                config.context_warning->0 as int
            } else {
                70
            };
            &&& pct > critical ==> style::context_color(pct, config) == RED@
            &&& pct <= critical && pct >= warning ==> style::context_color(pct, config) == YELLOW@
            &&& pct <= critical && pct < warning ==> style::context_color(pct, config) == GREEN@
        }),
{
}

/// Each step of the gradient spans ten percent, counted from one; nothing used is the first
/// step, and the last goes on above a hundred.
pub proof fn law_gradient_steps_span_ten_percent(pct: int, step: int)
    requires
        0 <= step < 10,
    ensures
        10 * step < pct <= 10 * step + 10 ==> style::gradient_step(pct) == step,
        pct <= 0 ==> style::gradient_step(pct) == 0,
        pct > 100 ==> style::gradient_step(pct) == 9,
{
}

/// The pace is colored by the projected percentage: below 50, 75, 90, 100, 120, and from there
/// on.
pub proof fn law_pace_by_projection(pct: int)
    ensures
        pct < 50 ==> style::pace_tier(pct) == PACE_COMFORTABLE@,
        50 <= pct < 75 ==> style::pace_tier(pct) == PACE_ON_TRACK@,
        75 <= pct < 90 ==> style::pace_tier(pct) == PACE_WARMING@,
        90 <= pct < 100 ==> style::pace_tier(pct) == PACE_PRESSING@,
        100 <= pct < 120 ==> style::pace_tier(pct) == PACE_CRITICAL@,
        pct >= 120 ==> style::pace_tier(pct) == PACE_RUNAWAY@,
{
}

/// A span of time is shown in its two largest units, what is left over dropped: days and hours
/// from a day on, hours and minutes from an hour on, minutes from a minute on.
pub proof fn law_duration_in_two_units(seconds: int, big: nat, small: nat)
    ensures
        seconds < 60 ==> style::duration(seconds) == "<1m"@,
        small < 24 && big >= 1 && big * 86400 + small * 3600 <= seconds < big * 86400 + small
            * 3600 + 3600 ==> style::duration(seconds) == text::decimal(big) + "d "@
            + text::decimal(small) + "h"@,
        small < 60 && 1 <= big < 24 && big * 3600 + small * 60 <= seconds < big * 3600 + small * 60
            + 60 ==> style::duration(seconds) == text::decimal(big) + "h "@ + text::decimal(small)
            + "m"@,
        1 <= big < 60 && big * 60 <= seconds < big * 60 + 60 ==> style::duration(seconds)
            == text::decimal(big) + "m"@,
{
    let minutes = seconds / 60;
    let hours = minutes / 60;
    let days = hours / 24;
    if small < 24 && big >= 1 && big * 86400 + small * 3600 <= seconds < big * 86400 + small * 3600
        + 3600 {
        assert(hours == big * 24 + small);
        assert(days == big);
        assert(hours % 24 == small);
    }
    if small < 60 && 1 <= big < 24 && big * 3600 + small * 60 <= seconds < big * 3600 + small * 60
        + 60 {
        assert(minutes == big * 60 + small);
        assert(hours == big);
    }
}

/// The running time of an agent is shown in minutes and seconds, in seconds below a minute, and
/// as nothing where it lies ahead.
pub proof fn law_agent_duration_in_minutes_and_seconds(seconds: int, minutes: nat, secs: nat)
    ensures
        seconds < 0 ==> style::agent_duration(seconds) == "0s"@,
        secs < 60 && seconds == secs ==> style::agent_duration(seconds) == text::decimal(secs)
            + "s"@,
        secs < 60 && minutes >= 1 && seconds == minutes * 60 + secs ==> style::agent_duration(
            seconds,
        ) == text::decimal(minutes) + "m "@ + text::decimal(secs) + "s"@,
{
}

} // verus!
