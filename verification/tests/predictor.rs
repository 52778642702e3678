use branch_predictor::{
    record_outcome, simulate, update_state_for_not_taken, update_state_for_taken, PredictionState,
};

fn state_at(two_bit: u8) -> PredictionState {
    let mut s = PredictionState::new();
    s.two_bit_state = two_bit;
    s
}

#[test]
fn new_state_is_zeroed() {
    let s = PredictionState::new();
    assert_eq!(s.tally_always_taken, 0);
    assert_eq!(s.tally_always_not_taken, 0);
    assert_eq!(s.tally_one_bit, 0);
    assert_eq!(s.tally_two_bit, 0);
    assert_eq!(s.one_bit_state, false);
    assert_eq!(s.two_bit_state, 0);
}

#[test]
fn default_matches_new() {
    let s = PredictionState::default();
    assert_eq!(s.tally_always_taken, 0);
    assert_eq!(s.tally_always_not_taken, 0);
    assert_eq!(s.tally_one_bit, 0);
    assert_eq!(s.tally_two_bit, 0);
    assert_eq!(s.one_bit_state, false);
    assert_eq!(s.two_bit_state, 0);
}

#[test]
fn two_bit_transitions_on_taken() {
    // state -> (next state, tally credited)
    let expected: [(u8, u64); 4] = [(1, 0), (2, 0), (2, 1), (2, 1)];
    for start in 0u8..4 {
        let mut s = state_at(start);
        update_state_for_taken(&mut s);
        let (next, tally) = expected[start as usize];
        assert_eq!(s.two_bit_state, next, "taken from state {}", start);
        assert_eq!(s.tally_two_bit, tally, "taken tally from state {}", start);
        assert_eq!(s.tally_always_taken, 1);
        assert_eq!(s.tally_always_not_taken, 0);
    }
}

#[test]
fn two_bit_transitions_on_not_taken() {
    // state -> (next state, tally credited)
    let expected: [(u8, u64); 4] = [(0, 1), (1, 1), (3, 0), (0, 0)];
    for start in 0u8..4 {
        let mut s = state_at(start);
        update_state_for_not_taken(&mut s);
        let (next, tally) = expected[start as usize];
        assert_eq!(s.two_bit_state, next, "not-taken from state {}", start);
        assert_eq!(s.tally_two_bit, tally, "not-taken tally from state {}", start);
        assert_eq!(s.tally_always_taken, 0);
        assert_eq!(s.tally_always_not_taken, 1);
    }
}

#[test]
fn one_bit_credits_repetition_only() {
    let mut s = PredictionState::new();
    s.one_bit_state = true;
    update_state_for_taken(&mut s);
    assert_eq!(s.tally_one_bit, 1);
    update_state_for_not_taken(&mut s);
    assert_eq!(s.tally_one_bit, 1);

    let mut s = PredictionState::new();
    s.one_bit_state = false;
    update_state_for_not_taken(&mut s);
    assert_eq!(s.tally_one_bit, 1);
    update_state_for_taken(&mut s);
    assert_eq!(s.tally_one_bit, 1);
}

#[test]
fn update_functions_leave_one_bit_history_alone() {
    let mut s = PredictionState::new();
    update_state_for_taken(&mut s);
    assert_eq!(s.one_bit_state, false);
    s.one_bit_state = true;
    update_state_for_not_taken(&mut s);
    assert_eq!(s.one_bit_state, true);
}

#[test]
fn record_outcome_sets_one_bit_history() {
    let mut s = PredictionState::new();
    record_outcome(&mut s, true);
    assert_eq!(s.one_bit_state, true);
    record_outcome(&mut s, false);
    assert_eq!(s.one_bit_state, false);
}

#[test]
fn two_bit_deterministic_trace() {
    // Fixed sequence [taken, taken, not-taken, not-taken, taken] from state 0:
    // every step mispredicts, so the trace is 0,1,2,3,0,1 and no tally is
    // credited.
    let outcomes = [true, true, false, false, true];
    let expected_states = [1u8, 2, 3, 0, 1];
    let mut s = PredictionState::new();
    assert_eq!(s.two_bit_state, 0);
    for (outcome, expected) in outcomes.iter().zip(expected_states.iter()) {
        record_outcome(&mut s, *outcome);
        assert_eq!(s.two_bit_state, *expected);
    }
    assert_eq!(s.tally_two_bit, 0);
}

#[test]
fn tallies_partition_on_mixed_run() {
    let outcomes = vec![true, false, false, true, true, false, true];
    let s = simulate(&outcomes);
    assert_eq!(s.tally_always_taken, 4);
    assert_eq!(s.tally_always_not_taken, 3);
    assert_eq!(
        s.tally_always_taken + s.tally_always_not_taken,
        outcomes.len() as u64
    );
}

#[test]
fn all_taken_run_maxes_always_taken() {
    let n: usize = 10_000;
    let outcomes = vec![true; n];
    let s = simulate(&outcomes);
    assert_eq!(s.tally_always_taken, n as u64);
    assert_eq!(s.tally_always_not_taken, 0);
    // The two-bit counter misses only while warming up from state 0.
    assert_eq!(s.tally_two_bit, (n as u64) - 2);
    assert_eq!(s.two_bit_state, 2);
}

#[test]
fn all_not_taken_run_maxes_always_not_taken() {
    let n: usize = 10_000;
    let outcomes = vec![false; n];
    let s = simulate(&outcomes);
    assert_eq!(s.tally_always_taken, 0);
    assert_eq!(s.tally_always_not_taken, n as u64);
    // State stays 0, predicting not-taken: every step is credited.
    assert_eq!(s.tally_two_bit, n as u64);
    assert_eq!(s.two_bit_state, 0);
}

#[test]
fn one_bit_counts_repetitions() {
    // Starting history is not-taken; repeats are at indices 0, 1 and 3.
    let outcomes = vec![false, false, true, true, false];
    let s = simulate(&outcomes);
    assert_eq!(s.tally_one_bit, 3);
    assert_eq!(s.one_bit_state, false);
}

#[test]
fn empty_run_leaves_initial_state() {
    let outcomes: Vec<bool> = vec![];
    let s = simulate(&outcomes);
    assert_eq!(s.tally_always_taken, 0);
    assert_eq!(s.tally_always_not_taken, 0);
    assert_eq!(s.tally_one_bit, 0);
    assert_eq!(s.tally_two_bit, 0);
    assert_eq!(s.one_bit_state, false);
    assert_eq!(s.two_bit_state, 0);
}

#[test]
fn percentages_sum_to_one_hundred() {
    // Percentages as reported: tally / 10_000 * 100. The two stateless
    // strategies partition the outcomes, so their percentages sum to 100.
    let mut outcomes = vec![true; 3_333];
    outcomes.extend(vec![false; 6_667]);
    let s = simulate(&outcomes);
    let taken_pct = (s.tally_always_taken as f64 / 1e4) * 100.0;
    let not_taken_pct = (s.tally_always_not_taken as f64 / 1e4) * 100.0;
    assert!((taken_pct + not_taken_pct - 100.0).abs() < 1e-9);
}
