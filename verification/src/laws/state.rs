//! Files and stored state.

use crate::state;
use crate::types;
use crate::types::StateView;
use vstd::prelude::*;
use vstd::string::*;

verus! {

/// Characters that are kept of a session id: ASCII letters, digits and the hyphen.
pub open spec fn is_kept(c: char) -> bool {
    'a' <= c <= 'z' || 'A' <= c <= 'Z' || '0' <= c <= '9' || c == '-'
}

/// Of a session id every letter, digit and hyphen is kept, in order, and nothing else.
pub proof fn law_sanitizing_keeps_letters_digits_and_hyphens(id: Seq<char>)
    ensures
        state::sanitized(id) == id.filter(|c: char| is_kept(c)),
    decreases id.len(),
{
    reveal(Seq::filter);
    if id.len() > 0 {
        law_sanitizing_keeps_letters_digits_and_hyphens(id.drop_last());
    } else {
        assert(id.filter(|c: char| is_kept(c)) =~= Seq::<char>::empty());
    }
}

/// The files lie on the ramdisk where there is one, else in the directory for temporary files,
/// and are named by the session, or for the limits of all.
pub proof fn law_files_are_named_by_session(id: Seq<char>)
    ensures
        state::state_file(id, true) == "/Volumes/ramdisk/cstat-"@ + id.filter(
            |c: char| is_kept(c),
        ) + ".bin"@,
        state::state_file(id, false) == "/tmp/cstat-"@ + id.filter(|c: char| is_kept(c)) + ".bin"@,
        state::limits_file(true) == "/Volumes/ramdisk/cstat-rate-limits.bin"@,
        state::limits_file(false) == "/tmp/cstat-rate-limits.bin"@,
        state::directory(true) == "/Volumes/ramdisk"@,
        state::directory(false) == "/tmp"@,
{
    law_sanitizing_keeps_letters_digits_and_hyphens(id);
    reveal_strlit("/Volumes/ramdisk");
    reveal_strlit("/tmp");
    reveal_strlit("/cstat-");
    reveal_strlit("/cstat-rate-limits.bin");
    reveal_strlit("/Volumes/ramdisk/cstat-");
    reveal_strlit("/tmp/cstat-");
    reveal_strlit("/Volumes/ramdisk/cstat-rate-limits.bin");
    reveal_strlit("/tmp/cstat-rate-limits.bin");
    assert("/Volumes/ramdisk"@ + "/cstat-"@ =~= "/Volumes/ramdisk/cstat-"@);
    assert("/tmp"@ + "/cstat-"@ =~= "/tmp/cstat-"@);
    assert("/Volumes/ramdisk"@ + "/cstat-rate-limits.bin"@
        =~= "/Volumes/ramdisk/cstat-rate-limits.bin"@);
    assert("/tmp"@ + "/cstat-rate-limits.bin"@ =~= "/tmp/cstat-rate-limits.bin"@);
}

proof fn lemma_kept_some(id: Seq<char>)
    ensures
        state::sanitized(id).len() > 0 <==> exists|i: int|
            0 <= i < id.len() && is_kept(#[trigger] id[i]),
    decreases id.len(),
{
    if id.len() > 0 {
        let front = id.drop_last();
        lemma_kept_some(front);
        if exists|i: int| 0 <= i < front.len() && is_kept(#[trigger] front[i]) {
            let i = choose|i: int| 0 <= i < front.len() && is_kept(#[trigger] front[i]);
            assert(is_kept(id[i]));
        }
        if exists|i: int| 0 <= i < id.len() && is_kept(#[trigger] id[i]) {
            let i = choose|i: int| 0 <= i < id.len() && is_kept(#[trigger] id[i]);
            if i < front.len() {
                assert(is_kept(front[i]));
            }
        }
        if is_kept(id.last()) {
            assert(is_kept(id[id.len() - 1]));
        }
    }
}

/// The stored state is gone on with where the session id has a character to name a file by and
/// the state is of version five; in every other case all starts afresh.
pub proof fn law_only_version_five_of_a_named_session_is_loaded(
    session_id: Option<Seq<char>>,
    stored: Option<StateView>,
)
    ensures
        ({
            let named = session_id is Some && exists|i: int|
                0 <= i < session_id->0.len() && is_kept(#[trigger] session_id->0[i]);
            &&& named && stored is Some && stored->0.version == 5 ==> state::loaded(
                session_id,
                stored,
            ) == stored->0
            &&& !named || stored is None || stored->0.version != 5 ==> state::loaded(
                session_id,
                stored,
            ) == types::fresh_state()
        }),
{
    if session_id is Some {
        lemma_kept_some(session_id->0);
    }
}

/// A fresh state knows nothing: every count is zero, every table empty, everything else absent.
pub proof fn law_fresh_state_knows_nothing()
    ensures
        ({
            let st = types::fresh_state();
            &&& st.version == 0 && st.byte_offset == 0 && st.inode == 0 && st.file_size == 0
            &&& st.next_seq == 0
            &&& st.work.tools.len() == 0 && st.work.agents.len() == 0
            &&& st.work.todos.len() == 0 && st.work.tasks.len() == 0
            &&& st.git_index_mtime is None && st.cached_rate_limits is None
            &&& st.last_total_input_tokens is None && st.last_cost_usd is None
            &&& st.last_cache_hit is None && st.last_cache_miss is None
            &&& st.last_poll_time is None && st.parent_session_id is None
        }),
{
}

/// A state is written to the file of its session, with version five and otherwise as it is,
/// where the session id can name a file; its limits are written for all wherever it has any.
pub proof fn law_state_and_limits_are_written(
    st: StateView,
    session_id: Option<Seq<char>>,
    ramdisk: bool,
)
    ensures
        ({
            let named = session_id is Some && exists|i: int|
                0 <= i < session_id->0.len() && is_kept(#[trigger] session_id->0[i]);
            let plan = state::to_write(st, session_id, ramdisk);
            &&& named ==> plan.state == Some(state::state_file(session_id->0, ramdisk))
            &&& named ==> state::as_written(st, session_id) == (StateView { version: 5, ..st })
            &&& !named ==> plan.state is None && state::as_written(st, session_id) == st
            &&& st.cached_rate_limits is Some ==> plan.limits == Some(
                (state::limits_file(ramdisk), st.cached_rate_limits->0),
            )
            &&& st.cached_rate_limits is None ==> plan.limits is None
        }),
{
    if session_id is Some {
        lemma_kept_some(session_id->0);
    }
}

} // verus!
