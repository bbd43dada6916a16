//! Settings, reports and the log.

use crate::config;
use crate::config::ConfigFile;
use crate::laws;
use crate::stdin;
use crate::text;

use crate::types::StdinView;
use vstd::prelude::*;
use vstd::string::*;

verus! {

/// Settings that can be had apply as they are; in every other case nothing is set. Only a file
/// that is invalid is complained of, with its reason.
pub proof fn law_settings_apply_or_nothing_is_set(file: ConfigFile)
    ensures
        file is Parsed ==> config::applied(file) == file->Parsed_0@ && config::complaint(file)
            is None,
        file is NoPath || file is Unreadable ==> config::complaint(file) is None,
        file is Invalid ==> config::complaint(file) == Some(
            "cstat: invalid config: "@ + file->Invalid_0@,
        ),
        !(file is Parsed) ==> {
            let applied = config::applied(file);
            &&& applied.separator is None
            &&& applied.colors is None
            &&& applied.path_levels is None
            &&& applied.context_warning is None
            &&& applied.context_critical is None
        },
{
}

/// Input is blank exactly where it is white space alone.
pub proof fn law_blank_is_white_alone(input: Seq<char>)
    ensures
        stdin::is_blank(input) <==> laws::text::all_white(input),
{
    laws::text::law_trimming_takes_white_ends(input);
    let trimmed = text::trimmed(input);
    let (before, after) = choose|before: Seq<char>, after: Seq<char>|
        laws::text::all_white(before) && laws::text::all_white(after) && input
            == #[trigger] (before + trimmed + after);
    if trimmed.len() == 0 {
        assert forall|i: int| 0 <= i < input.len() implies text::white_space(
            #[trigger] input[i],
        ) by {
            if i < before.len() {
                assert(input[i] == before[i]);
            } else {
                assert(input[i] == after[i - before.len()]);
            }
        }
    } else {
        assert(input[before.len() as int] == trimmed[0]);
    }
}

/// A report that says nothing has nothing in it.
pub proof fn law_empty_report_says_nothing()
    ensures
        ({
            let data = stdin::empty_report();
            &&& data.model is None && data.context_window is None
            &&& data.transcript_path is None && data.session_id is None
            &&& data.session_name is None && data.cwd is None
            &&& data.cost is None && data.rate_limits is None
        }),
{
}

proof fn lemma_loggable(id: Seq<char>)
    ensures
        stdin::loggable(id) == id.filter(|c: char| text::alphanumeric(c) || c == '-'),
    decreases id.len(),
{
    reveal(Seq::filter);
    let keep = |c: char| text::alphanumeric(c) || c == '-';
    if id.len() > 0 {
        lemma_loggable(id.drop_last());
    } else {
        assert(id.filter(keep) =~= Seq::<char>::empty());
    }
}

/// A log is named by the first sixty-four letters, digits and hyphens of the session id, and
/// `unknown` where there are none.
pub proof fn law_log_is_named_by_session(data: StdinView)
    ensures
        ({
            let kept = if data.session_id is Some {
                data.session_id->0.filter(|c: char| text::alphanumeric(c) || c == '-')
            } else {
                seq![]
            };
            let start = "/Volumes/ramdisk/cstat-debug-"@;
            &&& kept.len() == 0 ==> stdin::log_file(data) == start + "unknown"@ + ".log"@
            &&& 0 < kept.len() <= 64 ==> stdin::log_file(data) == start + kept + ".log"@
            &&& kept.len() > 64 ==> stdin::log_file(data) == start + kept.take(64) + ".log"@
        }),
{
    if data.session_id is Some {
        lemma_loggable(data.session_id->0);
    }
}

/// The time of day in a log has hour, minute and second, two digits each.
pub proof fn law_log_is_timed(secs: int, hour: nat, minute: nat, second: nat)
    requires
        hour < 24,
        minute < 60,
        second < 60,
        secs % 86400 == hour * 3600 + minute * 60 + second,
    ensures
        stdin::utc_clock(secs) == text::decimal2(hour) + ":"@ + text::decimal2(minute) + ":"@
            + text::decimal2(second) + "Z"@,
{
    let of_day = secs % 86400;
    vstd::arithmetic::div_mod::lemma_mod_mod(secs, 3600, 24);
    vstd::arithmetic::div_mod::lemma_mod_mod(secs, 60, 1440);
    assert(of_day / 3600 == hour);
    assert(of_day % 3600 / 60 == minute);
    assert(of_day % 60 == second);
}

/// A count as it is logged: none where it is not reported.
pub open spec fn logged(n: Option<u64>) -> Seq<char> {
    text::decimal(
        if n is Some {
            n->0 as nat
        } else {
            0
        },
    )
}

/// The line of a log gives each figure of the report under its own name.
pub proof fn law_log_gives_each_figure(data: StdinView, secs: int, cost: Seq<char>)
    ensures
        ({
            let window = data.context_window;
            let usage = if window is Some {
                window->0.current_usage
            } else {
                None
            };
            let name = if data.session_name is Some {
                data.session_name->0
            } else {
                "?"@
            };
            let tokens = logged(
                if window is Some {
                    window->0.total_input_tokens
                } else {
                    None
                },
            );
            let pct = text::decimal(
                if window is Some && window->0.used_percentage is Some {
                    window->0.used_percentage->0 as nat
                } else {
                    0
                },
            );
            let read = logged(
                if usage is Some {
                    usage->0.cache_read_input_tokens
                } else {
                    None
                },
            );
            let created = logged(
                if usage is Some {
                    usage->0.cache_creation_input_tokens
                } else {
                    None
                },
            );
            stdin::log_line(data, secs, cost) == stdin::utc_clock(secs) + " | session=\""@ + name
                + "\" | tokens="@ + tokens + " ctx="@ + pct + "% | cache_read="@ + read
                + " cache_create="@ + created + " | cost=$"@ + cost
        }),
{
}

} // verus!
