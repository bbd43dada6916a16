use cstat::cache::update_cache_state;
use cstat::number::Double;
use cstat::types::{ContextWindow, CurrentUsage, State};

fn double(value: f64) -> Double {
    Double { bits: value.to_bits() }
}

fn ctx(total: u64, cache_read: u64, cache_creation: u64) -> ContextWindow {
    ContextWindow {
        used_percentage: None,
        total_input_tokens: Some(total),
        current_usage: Some(CurrentUsage {
            cache_creation_input_tokens: Some(cache_creation),
            cache_read_input_tokens: Some(cache_read),
        }),
    }
}

#[test]
fn first_warm_hit_sets_stamp() {
    let mut st = State::default();
    st.last_total_input_tokens = Some(500);
    update_cache_state(&mut st, &ctx(1000, 500, 200), None, 1_000_000, 1_000_000);
    assert_eq!(st.last_total_input_tokens, Some(1000));
    assert_eq!(st.last_cache_hit, Some(1_000_000));
    assert_eq!(st.last_cache_miss, None);
}

#[test]
fn cold_miss_sets_both_stamps() {
    let mut st = State::default();
    st.last_total_input_tokens = Some(500);
    update_cache_state(&mut st, &ctx(1000, 0, 500), None, 1_000_000, 1_000_000);
    assert_eq!(st.last_cache_hit, Some(1_000_000));
    assert_eq!(st.last_cache_miss, Some(1_000_000));
}

#[test]
fn no_cache_event_leaves_stamps_alone() {
    let mut st = State::default();
    st.last_cache_hit = Some(999);
    st.last_cache_miss = Some(888);
    update_cache_state(&mut st, &ctx(1000, 0, 0), None, 1_000_000, 1_000_000);
    // Tokens still update (round-trip happened) but stamps don't.
    assert_eq!(st.last_total_input_tokens, Some(1000));
    assert_eq!(st.last_cache_hit, Some(999));
    assert_eq!(st.last_cache_miss, Some(888));
}

#[test]
fn same_tokens_short_circuits() {
    let mut st = State::default();
    st.last_total_input_tokens = Some(1000);
    st.last_cache_hit = Some(500);
    update_cache_state(&mut st, &ctx(1000, 999, 0), None, 9_999_999, 9_999_999);
    // No update because total_input_tokens didn't change.
    assert_eq!(st.last_cache_hit, Some(500));
}

#[test]
fn warm_hit_clears_stale_miss() {
    let mut st = State::default();
    st.last_total_input_tokens = Some(900);
    st.last_cache_miss = Some(1_000_000);
    // 31s later, a warm hit
    update_cache_state(&mut st, &ctx(1100, 500, 0), None, 1_000_031, 1_000_031);
    assert_eq!(st.last_cache_miss, None);
    assert_eq!(st.last_cache_hit, Some(1_000_031));
}

#[test]
fn warm_hit_preserves_recent_miss() {
    let mut st = State::default();
    st.last_total_input_tokens = Some(900);
    st.last_cache_miss = Some(1_000_000);
    // 20s later, a warm hit (within the 30s window)
    update_cache_state(&mut st, &ctx(1100, 500, 0), None, 1_000_020, 1_000_020);
    assert_eq!(st.last_cache_miss, Some(1_000_000));
    assert_eq!(st.last_cache_hit, Some(1_000_020));
}

#[test]
fn cold_miss_overwrites_existing_miss() {
    let mut st = State::default();
    st.last_total_input_tokens = Some(900);
    st.last_cache_miss = Some(1_000_000);
    update_cache_state(&mut st, &ctx(1100, 0, 500), None, 1_000_500, 1_000_500);
    assert_eq!(st.last_cache_miss, Some(1_000_500));
}

#[test]
fn missing_total_tokens_skips_update() {
    let mut st = State::default();
    let ctx = ContextWindow {
        used_percentage: Some(45),
        total_input_tokens: None,
        current_usage: None,
    };
    update_cache_state(&mut st, &ctx, None, 1_000_000, 1_000_000);
    assert_eq!(st.last_total_input_tokens, None);
    assert_eq!(st.last_cache_hit, None);
}

#[test]
fn cost_delta_with_unchanged_tokens_stamps_hit() {
    // Simulates /recap: tokens and current_usage frozen from the prior real
    // turn, but cumulative cost increased. We should treat that as a cache hit,
    // stamped at cost_stamp_time (the prior poll), not at now.
    let mut st = State::default();
    st.last_total_input_tokens = Some(1000);
    st.last_cost_usd = Some(double(3.05));
    st.last_cache_hit = Some(500);
    // cost_stamp_time (999_990) < now (1_000_000): simulates prior-poll timestamp
    update_cache_state(&mut st, &ctx(1000, 999, 0), Some(double(3.10)), 1_000_000, 999_990);
    assert_eq!(st.last_cache_hit, Some(999_990));
    assert_eq!(st.last_cost_usd, Some(double(3.10)));
}

#[test]
fn first_poll_initializes_cost_without_stamping() {
    // First time we see cost, we have no baseline — don't stamp from cost path.
    // (Token path may still stamp; isolate it by passing 0/0 cache fields.)
    let mut st = State::default();
    update_cache_state(&mut st, &ctx(1000, 0, 0), Some(double(3.05)), 1_000_000, 1_000_000);
    assert_eq!(st.last_cost_usd, Some(double(3.05)));
    assert_eq!(st.last_cache_hit, None);
}

#[test]
fn no_baseline_skips_cache_stamp() {
    // Stale cache_read in stdin on fresh state must not produce a warm stamp.
    let mut st = State::default();
    update_cache_state(&mut st, &ctx(1000, 500, 0), None, 1_000_000, 1_000_000);
    assert_eq!(st.last_total_input_tokens, Some(1000));
    assert_eq!(st.last_cache_hit, None);
}

#[test]
fn unchanged_cost_does_not_stamp() {
    let mut st = State::default();
    st.last_total_input_tokens = Some(1000);
    st.last_cost_usd = Some(double(3.05));
    st.last_cache_hit = Some(500);
    update_cache_state(&mut st, &ctx(1000, 999, 0), Some(double(3.05)), 1_000_000, 1_000_000);
    assert_eq!(st.last_cache_hit, Some(500));
}

#[test]
fn token_drop_clears_cache_stamps() {
    // Simulates /compact: cost bumps (compact API call), then tokens drop
    // because the new context is just the compact summary. Any warm stamp
    // from the cost-delta path should be cleared.
    let mut st = State::default();
    st.last_total_input_tokens = Some(100_000);
    st.last_cost_usd = Some(double(5.00));
    st.last_cache_hit = Some(999);
    st.last_cache_miss = Some(888);
    // Cost increased (compact API call) AND tokens dropped to compact summary size.
    update_cache_state(&mut st, &ctx(12_000, 0, 0), Some(double(5.80)), 1_000_000, 1_000_000);
    assert_eq!(st.last_cache_hit, None);
    assert_eq!(st.last_cache_miss, None);
    assert_eq!(st.last_cost_usd, None);
    assert_eq!(st.last_total_input_tokens, Some(12_000));
}

#[test]
fn token_drop_without_prior_tokens_does_not_clear() {
    // No saved token baseline → can't tell if this is a drop, and can't trust
    // cache fields in stdin (they may be stale). Initialize the count and bail.
    let mut st = State::default();
    st.last_cache_hit = Some(999);
    update_cache_state(&mut st, &ctx(12_000, 500, 0), None, 1_000_000, 1_000_000);
    assert_eq!(st.last_total_input_tokens, Some(12_000));
    assert_eq!(st.last_cache_hit, Some(999)); // unchanged — no stamping without a baseline
}

#[test]
fn branch_inherited_tokens_prevent_spurious_restamp() {
    // Simulates a branched session's first cstat tick: last_cache_hit and
    // last_total_input_tokens were inherited from the parent (same token count
    // as what the host re-emits on the first branch invocation). The
    // equal-tokens short-circuit should fire, leaving last_cache_hit untouched.
    let mut st = State::default();
    st.last_cache_hit = Some(1_000_000); // inherited from parent
    st.last_total_input_tokens = Some(38383); // inherited from parent
    // First branch tick: same tokens as parent (verbatim re-emit), warm cache
    update_cache_state(&mut st, &ctx(38383, 27483, 10893), None, 9_999_999, 9_999_999);
    // Must NOT restamp to 9_999_999 — short-circuit should have fired
    assert_eq!(st.last_cache_hit, Some(1_000_000));
    assert_eq!(st.last_total_input_tokens, Some(38383));
}

#[test]
fn branch_first_real_api_call_stamps_normally() {
    // After the branch's first real API call, tokens differ from inherited baseline.
    // Normal warm-hit stamping should resume.
    let mut st = State::default();
    st.last_cache_hit = Some(1_000_000); // inherited from parent
    st.last_total_input_tokens = Some(38383); // inherited from parent
    // First real branch API call: new tokens
    update_cache_state(&mut st, &ctx(39000, 38376, 615), None, 2_000_000, 2_000_000);
    assert_eq!(st.last_cache_hit, Some(2_000_000));
    assert_eq!(st.last_total_input_tokens, Some(39000));
}
