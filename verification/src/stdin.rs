//! The report that comes in, and the line that is logged of it.

use crate::cache;
use crate::render;
use crate::text;
use crate::text::{chars_of, push_decimal, push_decimal2, trim};
use crate::types::{StdinData, StdinView};
use vstd::prelude::*;
use vstd::string::*;

verus! {

/// How many characters of a session id the name of a log has at most.
pub const LOG_NAME_CHARS: usize = 64;

/// A report that says nothing.
pub open spec fn empty_report() -> StdinView {
    StdinView {
        model: None,
        context_window: None,
        transcript_path: None,
        session_id: None,
        session_name: None,
        cwd: None,
        cost: None,
        rate_limits: None,
    }
}

/// Whether a text is nothing but white space.
pub open spec fn is_blank(input: Seq<char>) -> bool {
    text::trimmed(input).len() == 0
}

/// The report to work with. `input` is what came in, absent where it could not be read;
/// `parsed` is the report it denotes, absent where it denotes none. Whatever is wrong with
/// it, there is a report: one that says nothing.
pub fn read_stdin(input: Option<&str>, parsed: Option<StdinData>) -> (data: StdinData)
    ensures
        data@ == if input is Some && !is_blank(input->0@) && parsed is Some {
            parsed->0@
        } else {
            empty_report()
        },
{
    match input {
        Some(s) => {
            let rest: String = trim(s);
            if chars_of(rest.as_str()).len() == 0 {
                return StdinData::default();
            }
            match parsed {
                Some(data) => data,
                None => StdinData::default(),
            }
        },
        None => StdinData::default(),
    }
}

/// Characters of a session id that may stand in the name of a log.
pub open spec fn is_loggable(c: char) -> bool {
    text::alphanumeric(c) || c == '-'
}

/// The characters of a session id that may stand in the name of a log.
pub open spec fn loggable(id: Seq<char>) -> Seq<char>
    decreases id.len(),
{
    if id.len() == 0 {
        seq![]
    } else if is_loggable(id.last()) {
        loggable(id.drop_last()).push(id.last())
    } else {
        loggable(id.drop_last())
    }
}

/// The name of the log of a session: the first characters of its id that may stand there.
pub open spec fn log_name(session_id: Option<Seq<char>>) -> Seq<char> {
    let id = match session_id {
        Some(id) => loggable(id),
        None => seq![],
    };
    if id.len() == 0 {
        "unknown"@
    } else if id.len() > LOG_NAME_CHARS {
        id.take(LOG_NAME_CHARS as int)
    } else {
        id
    }
}

/// The file that a report is logged to.
pub open spec fn log_file(data: StdinView) -> Seq<char> {
    "/Volumes/ramdisk/cstat-debug-"@ + log_name(data.session_id) + ".log"@
}

fn debug_log_name(session_id: &Option<String>) -> (name: String)
    ensures
        name@ == log_name(session_id.deep_view()),
{
    let mut name: String = String::new();
    let mut kept: usize = 0;
    if let Some(id) = session_id {
        let chars: Vec<char> = chars_of(id.as_str());
        let mut i: usize = 0;
        while i < chars.len() && kept < LOG_NAME_CHARS
            invariant
                i <= chars@.len(),
                kept <= LOG_NAME_CHARS,
                kept == name@.len(),
                name@ == loggable(chars@.take(i as int)),
            decreases chars@.len() - i,
        {
            let c: char = chars[i];
            assert(chars@.take(i + 1).drop_last() =~= chars@.take(i as int));
            if c.is_alphanumeric() || c == '-' {
                name.push(c);
                kept = kept + 1;
            }
            i = i + 1;
        }
        proof {
            lemma_loggable_goes_on(chars@, i as int);
            assert(chars@.take(chars@.len() as int) =~= chars@);
            if i < chars@.len() {
                assert(name@ =~= loggable(chars@).take(LOG_NAME_CHARS as int));
            } else if loggable(chars@).len() > LOG_NAME_CHARS {
                assert(name@ =~= loggable(chars@).take(LOG_NAME_CHARS as int));
            }
            if kept == LOG_NAME_CHARS {
                assert(loggable(chars@).take(LOG_NAME_CHARS as int) =~= name@);
            }
        }
    }
    if kept == 0 {
        return "unknown".to_owned();
    }
    name
}

proof fn lemma_loggable_goes_on(id: Seq<char>, i: int)
    requires
        0 <= i <= id.len(),
    ensures
        loggable(id.take(i)).len() <= loggable(id).len(),
        loggable(id).take(loggable(id.take(i)).len() as int) == loggable(id.take(i)),
    decreases id.len() - i,
{
    if i < id.len() {
        lemma_loggable_goes_on(id, i + 1);
        assert(id.take(i + 1).drop_last() =~= id.take(i));
        let n = loggable(id.take(i)).len() as int;
        assert(loggable(id).take(n) =~= loggable(id.take(i + 1)).take(n));
        assert(loggable(id.take(i + 1)).take(n) =~= loggable(id.take(i)));
    } else {
        assert(id.take(i) =~= id);
        assert(loggable(id).take(loggable(id).len() as int) =~= loggable(id));
    }
}

/// A log has a name, and it is at most sixty-four characters long.
pub proof fn law_log_name_is_short(session_id: Option<Seq<char>>)
    ensures
        1 <= log_name(session_id).len() <= LOG_NAME_CHARS,
{
    reveal_strlit("unknown");
}

/// The file that a report is logged to.
pub fn debug_log_path(data: &StdinData) -> (path: String)
    ensures
        path@ == log_file(data@),
{
    let mut path: String = "/Volumes/ramdisk/cstat-debug-".to_owned();
    path.append(debug_log_name(&data.session_id).as_str());
    path.append(".log");
    path
}

/// The time of day of a second since 1970.
pub open spec fn utc_clock(secs: int) -> Seq<char> {
    text::decimal2((secs % 86400 / 3600) as nat) + ":"@ + text::decimal2(
        (secs % 3600 / 60) as nat,
    ) + ":"@ + text::decimal2((secs % 60) as nat) + "Z"@
}

/// The tokens that the context holds, none where they are not reported.
pub open spec fn tokens(data: StdinView) -> nat {
    match data.context_window {
        Some(window) => cache::count(window.total_input_tokens) as nat,
        None => 0,
    }
}

/// The tokens that the last call read from the cache, none where they are not reported.
pub open spec fn tokens_read(data: StdinView) -> nat {
    if data.context_window is Some && data.context_window->0.current_usage is Some {
        cache::count(data.context_window->0.current_usage->0.cache_read_input_tokens) as nat
    } else {
        0
    }
}

/// The tokens that the last call wrote to the cache, none where they are not reported.
pub open spec fn tokens_created(data: StdinView) -> nat {
    if data.context_window is Some && data.context_window->0.current_usage is Some {
        cache::count(data.context_window->0.current_usage->0.cache_creation_input_tokens) as nat
    } else {
        0
    }
}

/// The line that is logged of a report, where `cost` is the cost in dollars as text.
pub open spec fn log_line(data: StdinView, secs: int, cost: Seq<char>) -> Seq<char> {
    utc_clock(secs) + " | session=\""@ + (match data.session_name {
        Some(name) => name,
        None => "?"@,
    }) + "\" | tokens="@ + text::decimal(tokens(data)) + " ctx="@ + text::decimal(
        match render::context_pct(data) {
            Some(pct) => pct as nat,
            None => 0,
        },
    ) + "% | cache_read="@ + text::decimal(tokens_read(data)) + " cache_create="@ + text::decimal(
        tokens_created(data),
    ) + " | cost=$"@ + cost
}

fn or_none(n: Option<u64>) -> (value: u64)
    ensures
        value == cache::count(n),
{
    match n {
        Some(value) => value,
        None => 0,
    }
}

/// The line to log of a report that came in at `secs` seconds since 1970. `cost` is the cost
/// in dollars as text.
pub fn debug_log(data: &StdinData, secs: u64, cost: &str) -> (line: String)
    ensures
        line@ == log_line(data@, secs as int, cost@),
{
    let mut tokens: u64 = 0;
    let mut ctx_pct: u8 = 0;
    let mut cache_read: u64 = 0;
    let mut cache_create: u64 = 0;
    if let Some(window) = data.context_window {
        tokens = or_none(window.total_input_tokens);
        if let Some(pct) = window.used_percentage {
            ctx_pct = pct;
        }
        if let Some(usage) = window.current_usage {
            cache_read = or_none(usage.cache_read_input_tokens);
            cache_create = or_none(usage.cache_creation_input_tokens);
        }
    }
    let session_name: &str = match &data.session_name {
        Some(name) => name.as_str(),
        None => "?",
    };
    let mut line: String = String::new();
    push_decimal2(&mut line, secs % 86400 / 3600);
    line.append(":");
    push_decimal2(&mut line, secs % 3600 / 60);
    line.append(":");
    push_decimal2(&mut line, secs % 60);
    line.append("Z");
    assert(line@ =~= utc_clock(secs as int));
    line.append(" | session=\"");
    line.append(session_name);
    line.append("\" | tokens=");
    push_decimal(&mut line, tokens);
    line.append(" ctx=");
    push_decimal(&mut line, ctx_pct as u64);
    line.append("% | cache_read=");
    push_decimal(&mut line, cache_read);
    line.append(" cache_create=");
    push_decimal(&mut line, cache_create);
    line.append(" | cost=$");
    line.append(cost);
    line
}

} // verus!
