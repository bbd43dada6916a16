//! Where the kept state is stored, and which stored state is still good.

use crate::text;
use crate::text::chars_of;
use crate::types;
use crate::types::{CachedRateLimits, State, StateView};
use vstd::prelude::*;
use vstd::string::*;

verus! {

/// The version of the stored layout. A state of any other version is discarded.
pub const STATE_VERSION: u32 = 5;

pub const RAMDISK: &'static str = "/Volumes/ramdisk";

pub const FALLBACK: &'static str = "/tmp";

/// The directory that holds the stored files: the ramdisk, where there is one.
pub open spec fn directory(ramdisk: bool) -> Seq<char> {
    if ramdisk {
        RAMDISK@
    } else {
        FALLBACK@
    }
}

/// The directory that holds the stored files. `ramdisk` says whether the ramdisk is there.
pub fn state_dir(ramdisk: bool) -> (dir: &'static str)
    ensures
        dir@ == directory(ramdisk),
{
    if ramdisk {
        RAMDISK
    } else {
        FALLBACK
    }
}

/// The file that holds the limits that any session saw last.
pub open spec fn limits_file(ramdisk: bool) -> Seq<char> {
    directory(ramdisk) + "/cstat-rate-limits.bin"@
}

/// The file that holds the limits that any session saw last.
pub fn global_rate_limits_path(ramdisk: bool) -> (path: String)
    ensures
        path@ == limits_file(ramdisk),
{
    let mut path: String = state_dir(ramdisk).to_owned();
    path.append("/cstat-rate-limits.bin");
    path
}

/// Characters of a session id that may stand in a file name.
pub open spec fn is_safe(c: char) -> bool {
    text::ascii_alphanumeric(c) || c == '-'
}

/// A session id without the characters that may not stand in a file name.
pub open spec fn sanitized(id: Seq<char>) -> Seq<char>
    decreases id.len(),
{
    if id.len() == 0 {
        seq![]
    } else if is_safe(id.last()) {
        sanitized(id.drop_last()).push(id.last())
    } else {
        sanitized(id.drop_last())
    }
}

/// Drops the characters of a session id that may not stand in a file name.
pub fn sanitize(session_id: &str) -> (safe: String)
    ensures
        safe@ == sanitized(session_id@),
{
    let chars: Vec<char> = chars_of(session_id);
    let mut safe: String = String::new();
    let mut i: usize = 0;
    while i < chars.len()
        invariant
            i <= chars@.len(),
            safe@ == sanitized(chars@.take(i as int)),
        decreases chars@.len() - i,
    {
        let c: char = chars[i];
        assert(chars@.take(i + 1).drop_last() =~= chars@.take(i as int));
        if 'a' <= c && c <= 'z' || 'A' <= c && c <= 'Z' || '0' <= c && c <= '9' || c == '-' {
            safe.push(c);
        }
        i = i + 1;
    }
    assert(chars@.take(chars@.len() as int) =~= session_id@);
    safe
}

/// The file that holds the state of a session.
pub open spec fn state_file(session_id: Seq<char>, ramdisk: bool) -> Seq<char> {
    directory(ramdisk) + "/cstat-"@ + sanitized(session_id) + ".bin"@
}

/// The file that holds the state of a session.
pub fn state_path(session_id: &str, ramdisk: bool) -> (path: String)
    ensures
        path@ == state_file(session_id@, ramdisk),
{
    let mut path: String = state_dir(ramdisk).to_owned();
    path.append("/cstat-");
    path.append(sanitize(session_id).as_str());
    path.append(".bin");
    path
}

/// Whether a session has a state file: it has an id, and some of that may stand in a name.
pub open spec fn is_stored(session_id: Option<Seq<char>>) -> bool {
    session_id is Some && sanitized(session_id->0).len() > 0
}

/// The file to read or write the state of a session, where it has one.
pub fn state_path_of(session_id: Option<&str>, ramdisk: bool) -> (path: Option<String>)
    ensures
        path.deep_view() == if is_stored(session_id.deep_view()) {
            Some(state_file(session_id.deep_view()->0, ramdisk))
        } else {
            None::<Seq<char>>
        },
{
    match session_id {
        Some(id) => {
            let safe: String = sanitize(id);
            if chars_of(safe.as_str()).len() == 0 {
                None
            } else {
                Some(state_path(id, ramdisk))
            }
        },
        None => None,
    }
}

/// The state to go on with: the stored one where the session has a file and the version
/// fits, else a fresh one.
pub open spec fn loaded(session_id: Option<Seq<char>>, stored: Option<StateView>) -> StateView {
    if is_stored(session_id) && stored is Some && stored->0.version == STATE_VERSION {
        stored->0
    } else {
        types::fresh_state()
    }
}

/// A stored state that may be absent as the specifications see it.
pub open spec fn stored_view(stored: Option<State>) -> Option<StateView> {
    match stored {
        Some(state) => Some(state@),
        None => None,
    }
}

/// The state to go on with. `stored` is what the file of the session holds, and absent where
/// that cannot be read.
pub fn load_state(session_id: Option<&str>, stored: Option<State>) -> (state: State)
    ensures
        state@ == loaded(session_id.deep_view(), stored_view(stored)),
{
    let id: &str = match session_id {
        Some(id) => id,
        None => {
            return State::default();
        },
    };
    let safe: String = sanitize(id);
    if chars_of(safe.as_str()).len() == 0 {
        return State::default();
    }
    match stored {
        Some(state) => if state.version == STATE_VERSION {
            state
        } else {
            State::default()
        },
        None => State::default(),
    }
}

/// What to write, and where.
#[derive(Debug)]
pub struct SavePlan {
    /// The limits for all sessions, with their file.
    pub limits: Option<(String, CachedRateLimits)>,
    /// The file for the state of the session.
    pub state: Option<String>,
}

/// What to write, and where, as the specifications see it.
#[verifier::ext_equal]
pub struct SaveView {
    pub limits: Option<(Seq<char>, CachedRateLimits)>,
    pub state: Option<Seq<char>>,
}

impl View for SavePlan {
    type V = SaveView;

    open spec fn view(&self) -> SaveView {
        SaveView {
            limits: match self.limits {
                Some((path, limits)) => Some((path@, limits)),
                None => None,
            },
            state: self.state.deep_view(),
        }
    }
}

/// What to write of a state: its limits for all sessions, where it has any, and the state
/// itself, where the session has a file.
pub open spec fn to_write(
    state: StateView,
    session_id: Option<Seq<char>>,
    ramdisk: bool,
) -> SaveView {
    SaveView {
        limits: match state.cached_rate_limits {
            Some(limits) => Some((limits_file(ramdisk), limits)),
            None => None,
        },
        state: if is_stored(session_id) {
            Some(state_file(session_id->0, ramdisk))
        } else {
            None
        },
    }
}

/// The state as it is written: with the current version.
pub open spec fn as_written(state: StateView, session_id: Option<Seq<char>>) -> StateView {
    if is_stored(session_id) {
        StateView { version: STATE_VERSION, ..state }
    } else {
        state
    }
}

/// Prepares a state for being written, and says what to write where. The limits go to a file
/// that all sessions share, whether or not the session has a file of its own.
pub fn save_state(state: &mut State, session_id: Option<&str>, ramdisk: bool) -> (plan: SavePlan)
    ensures
        plan@ == to_write(old(state)@, session_id.deep_view(), ramdisk),
        final(state)@ == as_written(old(state)@, session_id.deep_view()),
{
    let limits: Option<(String, CachedRateLimits)> = match &state.cached_rate_limits {
        Some(cached) => Some((global_rate_limits_path(ramdisk), *cached)),
        None => None,
    };
    let path: Option<String> = state_path_of(session_id, ramdisk);
    if path.is_some() {
        state.version = STATE_VERSION;
    }
    SavePlan { limits, state: path }
}

/// What is left of a session id holds nothing but ASCII letters, digits and hyphens: neither
/// a slash nor a dot can come from it.
pub proof fn law_sanitized_is_safe(id: Seq<char>)
    ensures
        forall|i: int| 0 <= i < sanitized(id).len() ==> is_safe(#[trigger] sanitized(id)[i]),
    decreases id.len(),
{
    if id.len() > 0 {
        let rest = id.drop_last();
        law_sanitized_is_safe(rest);
        assert forall|i: int| 0 <= i < sanitized(id).len() implies is_safe(
            #[trigger] sanitized(id)[i],
        ) by {
            if i < sanitized(rest).len() {
                assert(sanitized(id)[i] == sanitized(rest)[i]);
            }
        }
    }
}

/// A session id that is already safe stays as it is.
pub proof fn law_safe_id_is_kept(id: Seq<char>)
    requires
        forall|i: int| 0 <= i < id.len() ==> is_safe(#[trigger] id[i]),
    ensures
        sanitized(id) == id,
    decreases id.len(),
{
    if id.len() > 0 {
        let rest = id.drop_last();
        assert forall|i: int| 0 <= i < rest.len() implies is_safe(#[trigger] rest[i]) by {
            assert(rest[i] == id[i]);
        }
        assert(is_safe(id[id.len() - 1]));
        law_safe_id_is_kept(rest);
        assert(sanitized(id) =~= id);
    }
}

/// Dropping unsafe characters a second time changes nothing.
pub proof fn law_sanitizing_is_idempotent(id: Seq<char>)
    ensures
        sanitized(sanitized(id)) == sanitized(id),
{
    law_sanitized_is_safe(id);
    law_safe_id_is_kept(sanitized(id));
}

/// The file of a session lies in the directory itself: behind its prefix a path holds no
/// slash, and no dot but the one of its ending.
pub proof fn law_state_file_stays_in_its_directory(id: Seq<char>, ramdisk: bool)
    ensures
        ({
            let prefix = directory(ramdisk) + "/cstat-"@;
            let name = sanitized(id) + ".bin"@;
            &&& state_file(id, ramdisk) == prefix + name
            &&& forall|i: int| 0 <= i < name.len() ==> #[trigger] name[i] != '/'
            &&& forall|i: int| 0 <= i < name.len() && #[trigger] name[i] == '.' ==> i
                == sanitized(id).len()
        }),
{
    reveal_strlit(".bin");
    law_sanitized_is_safe(id);
    let prefix = directory(ramdisk) + "/cstat-"@;
    let name = sanitized(id) + ".bin"@;
    assert(state_file(id, ramdisk) =~= prefix + name);
    assert forall|i: int| 0 <= i < name.len() implies #[trigger] name[i] != '/' && (name[i] == '.'
        ==> i == sanitized(id).len()) by {
        if i < sanitized(id).len() {
            assert(is_safe(sanitized(id)[i]));
        }
    }
}

/// Two sessions share a file exactly where their ids are the same once unsafe characters
/// are dropped.
pub proof fn law_sessions_do_not_collide(a: Seq<char>, b: Seq<char>, ramdisk: bool)
    ensures
        state_file(a, ramdisk) == state_file(b, ramdisk) <==> sanitized(a) == sanitized(b),
{
    let prefix = directory(ramdisk) + "/cstat-"@;
    let x = state_file(a, ramdisk);
    let y = state_file(b, ramdisk);
    assert(x.subrange(prefix.len() as int, x.len() - ".bin"@.len()) =~= sanitized(a));
    assert(y.subrange(prefix.len() as int, y.len() - ".bin"@.len()) =~= sanitized(b));
}

/// No session but one whose id reads `rate-limits` shares a file with the limits.
pub proof fn law_limits_have_their_own_file(id: Seq<char>, ramdisk: bool)
    ensures
        state_file(id, ramdisk) == limits_file(ramdisk) <==> sanitized(id) == "rate-limits"@,
{
    reveal_strlit("/cstat-rate-limits.bin");
    reveal_strlit("rate-limits");
    reveal_strlit("/cstat-");
    reveal_strlit(".bin");
    let prefix = directory(ramdisk) + "/cstat-"@;
    let x = state_file(id, ramdisk);
    let y = limits_file(ramdisk);
    assert(y =~= prefix + "rate-limits"@ + ".bin"@);
    assert(x.subrange(prefix.len() as int, x.len() - ".bin"@.len()) =~= sanitized(id));
    assert(y.subrange(prefix.len() as int, y.len() - ".bin"@.len()) =~= "rate-limits"@);
}

/// What was written for a session is loaded again, unchanged but for the version.
pub proof fn law_saved_state_is_loaded(state: StateView, session_id: Option<Seq<char>>)
    requires
        is_stored(session_id),
    ensures
        loaded(session_id, Some(as_written(state, session_id))) == (StateView {
            version: STATE_VERSION,
            ..state
        }),
{
}

/// A state of another version, a state that cannot be read, and a session without a file
/// all give a fresh state.
pub proof fn law_unusable_state_is_discarded(
    session_id: Option<Seq<char>>,
    stored: Option<StateView>,
)
    requires
        !is_stored(session_id) || stored is None || stored->0.version != STATE_VERSION,
    ensures
        loaded(session_id, stored) == types::fresh_state(),
{
}

} // verus!
