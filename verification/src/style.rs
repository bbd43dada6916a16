//! Colors, and the pieces of text that sections are made of.

use crate::text;
use crate::text::push_decimal;
use crate::types::{Config, ConfigView};
use vstd::prelude::*;
use vstd::string::*;

verus! {

pub const RESET: &'static str = "\x1b[0m";

pub const BRIGHT: &'static str = "\x1b[1;37m";

pub const DIM: &'static str = "\x1b[2m";

pub const RED: &'static str = "\x1b[31m";

pub const YELLOW: &'static str = "\x1b[33m";

pub const GREEN: &'static str = "\x1b[32m";

/// From dark green to deep red, ten percent each.
pub const USAGE_GRADIENT: [&'static str; 10] = [
    "\x1b[38;5;22m",
    "\x1b[38;5;28m",
    "\x1b[38;5;34m",
    "\x1b[38;5;100m",
    "\x1b[38;5;142m",
    "\x1b[38;5;178m",
    "\x1b[38;5;172m",
    "\x1b[38;5;166m",
    "\x1b[38;5;160m",
    "\x1b[38;5;124m",
];

/// Green.
pub const PACE_COMFORTABLE: &'static str = "\x1b[38;5;34m";

/// Teal.
pub const PACE_ON_TRACK: &'static str = "\x1b[38;5;37m";

/// Yellow.
pub const PACE_WARMING: &'static str = "\x1b[38;5;178m";

/// Orange.
pub const PACE_PRESSING: &'static str = "\x1b[38;5;208m";

/// Red.
pub const PACE_CRITICAL: &'static str = "\x1b[38;5;160m";

/// Muted purple.
pub const PACE_RUNAWAY: &'static str = "\x1b[38;5;96m";

/// The color for how full the context is.
pub open spec fn context_color(pct: int, config: ConfigView) -> Seq<char> {
    if pct > config.context_critical() {
        RED@
    } else if pct >= config.context_warning() {
        YELLOW@
    } else {
        GREEN@
    }
}

/// Picks a color for how full the context is: red above the critical percentage, yellow
/// from the warning percentage on, green below.
pub fn color_for_percentage(pct: u8, config: &Config) -> (color: &'static str)
    ensures
        color@ == context_color(pct as int, config@),
{
    let warning: u8 = match config.context_warning {
        Some(n) => n,
        None => 70,
    };
    let critical: u8 = match config.context_critical {
        Some(n) => n,
        None => 85,
    };
    if pct > critical {
        RED
    } else if pct >= warning {
        YELLOW
    } else {
        GREEN
    }
}

/// The step of the gradient for a percentage: the first for 0 to 10, the second for 11
/// to 20, and so on; the last from 91 on.
pub open spec fn gradient_step(pct: int) -> int {
    if pct <= 10 {
        0
    } else if pct > 90 {
        9
    } else {
        (pct - 1) / 10
    }
}

/// Picks a color of the gradient for a percentage.
pub fn usage_color(pct: u8) -> (color: &'static str)
    ensures
        color@ == USAGE_GRADIENT[gradient_step(pct as int)]@,
{
    let step: usize = if pct == 0 {
        0
    } else {
        ((pct - 1) / 10) as usize
    };
    if step < 9 {
        USAGE_GRADIENT[step]
    } else {
        USAGE_GRADIENT[9]
    }
}

/// The color for a projected percentage at the end of the window.
pub open spec fn pace_tier(projected_pct: int) -> Seq<char> {
    if projected_pct < 50 {
        PACE_COMFORTABLE@
    } else if projected_pct < 75 {
        PACE_ON_TRACK@
    } else if projected_pct < 90 {
        PACE_WARMING@
    } else if projected_pct < 100 {
        PACE_PRESSING@
    } else if projected_pct < 120 {
        PACE_CRITICAL@
    } else {
        PACE_RUNAWAY@
    }
}

/// Picks a color for a projected percentage at the end of the window.
pub fn pace_color(projected_pct: u32) -> (color: &'static str)
    ensures
        color@ == pace_tier(projected_pct as int),
{
    if projected_pct < 50 {
        PACE_COMFORTABLE
    } else if projected_pct < 75 {
        PACE_ON_TRACK
    } else if projected_pct < 90 {
        PACE_WARMING
    } else if projected_pct < 100 {
        PACE_PRESSING
    } else if projected_pct < 120 {
        PACE_CRITICAL
    } else {
        PACE_RUNAWAY
    }
}

/// A text between a color code and the code that ends it, where colors are enabled.
pub open spec fn colored(text: Seq<char>, color: Seq<char>, enabled: bool) -> Seq<char> {
    if enabled {
        color + text + RESET@
    } else {
        text
    }
}

/// Puts a text in color, where colors are enabled.
pub fn colorize(text: String, color: &str, enabled: bool) -> (shown: String)
    ensures
        shown@ == colored(text@, color@, enabled),
{
    if enabled {
        let mut shown: String = String::new();
        shown.append(color);
        shown.append(text.as_str());
        shown.append(RESET);
        assert(shown@ =~= colored(text@, color@, enabled));
        shown
    } else {
        text
    }
}

/// The separator between sections as it is shown.
pub open spec fn separator_shown(config: ConfigView) -> Seq<char> {
    colored(config.separator(), DIM@, config.colors())
}

/// The separator between sections, dim where colors are enabled.
pub fn rendered_separator(config: &Config) -> (shown: String)
    ensures
        shown@ == separator_shown(config@),
{
    colorize(config.separator().to_owned(), DIM, config.colors())
}

/// A span of time: days and hours, hours and minutes, or minutes.
pub open spec fn duration(seconds: int) -> Seq<char> {
    let minutes = seconds / 60;
    let hours = minutes / 60;
    let days = hours / 24;
    if seconds < 60 {
        "<1m"@
    } else if days > 0 {
        text::decimal(days as nat) + "d "@ + text::decimal((hours % 24) as nat) + "h"@
    } else if hours > 0 {
        text::decimal(hours as nat) + "h "@ + text::decimal((minutes % 60) as nat) + "m"@
    } else {
        text::decimal(minutes as nat) + "m"@
    }
}

/// Formats a span of time in its two largest units of days, hours and minutes.
pub fn format_duration(seconds: i64) -> (shown: String)
    ensures
        shown@ == duration(seconds as int),
{
    if seconds < 60 {
        return "<1m".to_owned();
    }
    let minutes: i64 = seconds / 60;
    let hours: i64 = minutes / 60;
    let days: i64 = hours / 24;
    let mut shown: String = String::new();
    if days > 0 {
        push_decimal(&mut shown, days as u64);
        shown.append("d ");
        push_decimal(&mut shown, (hours % 24) as u64);
        shown.append("h");
    } else if hours > 0 {
        push_decimal(&mut shown, hours as u64);
        shown.append("h ");
        push_decimal(&mut shown, (minutes % 60) as u64);
        shown.append("m");
    } else {
        push_decimal(&mut shown, minutes as u64);
        shown.append("m");
    }
    assert(shown@ =~= duration(seconds as int));
    shown
}

/// The running time of an agent: minutes and seconds, or seconds.
pub open spec fn agent_duration(seconds: int) -> Seq<char> {
    if seconds < 0 {
        "0s"@
    } else if seconds < 60 {
        text::decimal(seconds as nat) + "s"@
    } else {
        text::decimal((seconds / 60) as nat) + "m "@ + text::decimal((seconds % 60) as nat) + "s"@
    }
}

/// Formats the running time of an agent.
pub fn format_agent_duration(seconds: i64) -> (shown: String)
    ensures
        shown@ == agent_duration(seconds as int),
{
    if seconds < 0 {
        return "0s".to_owned();
    }
    let minutes: i64 = seconds / 60;
    let secs: i64 = seconds % 60;
    let mut shown: String = String::new();
    if minutes > 0 {
        push_decimal(&mut shown, minutes as u64);
        shown.append("m ");
    }
    push_decimal(&mut shown, secs as u64);
    shown.append("s");
    assert(shown@ =~= agent_duration(seconds as int));
    shown
}

} // verus!
