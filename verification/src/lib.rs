//! Branch-prediction strategy simulation.
//!
//! A fixed stream of branch outcomes (taken / not-taken) is fed through four
//! independent predictors — always-taken, always-not-taken, one-bit history,
//! and a two-bit saturating counter — each keeping a tally of its correct
//! predictions. The tallies are plain counters, incremented by one per hit,
//! so they are held as integers here; turning them into percentages is left
//! to the caller.

use vstd::prelude::*;

verus! {

/// Accumulated predictor state: one hit tally per strategy, plus the one-bit
/// and two-bit predictors' history.
pub struct PredictionState {
    pub tally_always_taken: u64,
    pub tally_always_not_taken: u64,
    pub tally_one_bit: u64,
    pub tally_two_bit: u64,

    /// Last observed outcome (`true` = taken).
    pub one_bit_state: bool,

    /// Saturating counter in `[0, 3]`: 0 and 1 predict not-taken,
    /// 2 and 3 predict taken.
    pub two_bit_state: u8,
}

/// Mathematical model of [`PredictionState`]: the same fields, free of
/// machine-integer bounds.
pub ghost struct PredictorModel {
    pub tally_always_taken: nat,
    pub tally_always_not_taken: nat,
    pub tally_one_bit: nat,
    pub tally_two_bit: nat,
    pub one_bit_state: bool,
    pub two_bit_state: nat,
}

impl View for PredictionState {
    type V = PredictorModel;

    open spec fn view(&self) -> PredictorModel {
        PredictorModel {
            tally_always_taken: self.tally_always_taken as nat,
            tally_always_not_taken: self.tally_always_not_taken as nat,
            tally_one_bit: self.tally_one_bit as nat,
            tally_two_bit: self.tally_two_bit as nat,
            one_bit_state: self.one_bit_state,
            two_bit_state: self.two_bit_state as nat,
        }
    }
}

impl PredictorModel {
    /// The two-bit counter never leaves `{0, 1, 2, 3}`.
    pub open spec fn wf(self) -> bool {
        self.two_bit_state <= 3
    }
}

/// The state every run starts from: all tallies zero, one-bit history
/// not-taken, two-bit counter at 0.
pub open spec fn initial_model() -> PredictorModel {
    PredictorModel {
        tally_always_taken: 0,
        tally_always_not_taken: 0,
        tally_one_bit: 0,
        tally_two_bit: 0,
        one_bit_state: false,
        two_bit_state: 0,
    }
}

/// Whether the two-bit counter currently predicts taken (states 2 and 3).
pub open spec fn two_bit_predicts_taken(state: nat) -> bool {
    state > 1
}

/// Two-bit counter transition on a taken outcome: 0 -> 1, 1 -> 2, 2 -> 2,
/// 3 -> 2. A correct prediction at 3 still steps back to 2; a wrong one
/// moves one step toward the taken side.
pub open spec fn two_bit_next_taken(state: nat) -> nat {
    if state > 1 {
        if state > 2 {
            (state - 1) as nat
        } else {
            state
        }
    } else {
        state + 1
    }
}

/// Two-bit counter transition on a not-taken outcome: 0 -> 0, 1 -> 1,
/// 2 -> 3, 3 -> 0. The mispredicting states move asymmetrically: 2 steps
/// deeper into the taken side, 3 jumps to the far not-taken side.
pub open spec fn two_bit_next_not_taken(state: nat) -> nat {
    if state == 2 {
        3
    } else if state == 3 {
        0
    } else {
        state
    }
}

/// Effect of a taken outcome on the tallies and the two-bit counter. The
/// one-bit history itself is updated separately, once the outcome has been
/// scored (see [`step`]).
pub open spec fn step_taken(m: PredictorModel) -> PredictorModel {
    PredictorModel {
        tally_always_taken: m.tally_always_taken + 1,
        tally_one_bit: m.tally_one_bit + if m.one_bit_state { 1nat } else { 0nat },
        tally_two_bit: m.tally_two_bit + if two_bit_predicts_taken(m.two_bit_state) {
            1nat
        } else {
            0nat
        },
        two_bit_state: two_bit_next_taken(m.two_bit_state),
        ..m
    }
}

/// Effect of a not-taken outcome on the tallies and the two-bit counter.
/// States 2 and 3 mispredict and earn no tally; every other state is
/// credited.
pub open spec fn step_not_taken(m: PredictorModel) -> PredictorModel {
    PredictorModel {
        tally_always_not_taken: m.tally_always_not_taken + 1,
        tally_one_bit: m.tally_one_bit + if !m.one_bit_state { 1nat } else { 0nat },
        tally_two_bit: m.tally_two_bit + if m.two_bit_state != 2 && m.two_bit_state != 3 {
            1nat
        } else {
            0nat
        },
        two_bit_state: two_bit_next_not_taken(m.two_bit_state),
        ..m
    }
}

/// One full simulation step: score the outcome against all four strategies,
/// then record it as the new one-bit history.
pub open spec fn step(m: PredictorModel, taken: bool) -> PredictorModel {
    let scored = if taken {
        step_taken(m)
    } else {
        step_not_taken(m)
    };
    PredictorModel { one_bit_state: taken, ..scored }
}

/// The state after feeding a whole outcome sequence through [`step`],
/// starting from `m`.
pub open spec fn run(m: PredictorModel, outcomes: Seq<bool>) -> PredictorModel
    decreases outcomes.len(),
{
    if outcomes.len() == 0 {
        m
    } else {
        step(run(m, outcomes.drop_last()), outcomes.last())
    }
}

impl PredictionState {
    /// Fresh state, as at the start of a run.
    pub fn new() -> (s: Self)
        ensures
            s@ == initial_model(),
    {
        PredictionState {
            tally_always_taken: 0,
            tally_always_not_taken: 0,
            tally_one_bit: 0,
            tally_two_bit: 0,
            one_bit_state: false,
            two_bit_state: 0,
        }
    }
}

impl Default for PredictionState {
    fn default() -> (s: Self)
        ensures
            s@ == initial_model(),
    {
        PredictionState::new()
    }
}

/// Scores a taken outcome: credits the always-taken tally, the one-bit tally
/// when the history already said taken, and the two-bit tally when the
/// counter sat on the taken side, then advances the two-bit counter.
pub fn update_state_for_taken(prediction_state: &mut PredictionState)
    requires
        old(prediction_state)@.wf(),
        old(prediction_state).tally_always_taken < u64::MAX,
        old(prediction_state).tally_one_bit < u64::MAX,
        old(prediction_state).tally_two_bit < u64::MAX,
    ensures
        final(prediction_state)@ == step_taken(old(prediction_state)@),
        final(prediction_state)@.wf(),
{
    prediction_state.tally_always_taken += 1;

    if prediction_state.one_bit_state {
        prediction_state.tally_one_bit += 1;
    }

    if prediction_state.two_bit_state > 1 {
        if prediction_state.two_bit_state > 2 {
            prediction_state.two_bit_state -= 1;
        }
        prediction_state.tally_two_bit += 1;
    } else {
        prediction_state.two_bit_state += 1;
    }
}

/// Scores a not-taken outcome: credits the always-not-taken tally, the
/// one-bit tally when the history said not-taken, and the two-bit tally when
/// the counter sat on the not-taken side, then advances the two-bit counter.
pub fn update_state_for_not_taken(prediction_state: &mut PredictionState)
    requires
        old(prediction_state)@.wf(),
        old(prediction_state).tally_always_not_taken < u64::MAX,
        old(prediction_state).tally_one_bit < u64::MAX,
        old(prediction_state).tally_two_bit < u64::MAX,
    ensures
        final(prediction_state)@ == step_not_taken(old(prediction_state)@),
        final(prediction_state)@.wf(),
{
    prediction_state.tally_always_not_taken += 1;

    if !prediction_state.one_bit_state {
        prediction_state.tally_one_bit += 1;
    }

    if prediction_state.two_bit_state == 2 {
        prediction_state.two_bit_state += 1;
    } else if prediction_state.two_bit_state == 3 {
        prediction_state.two_bit_state = 0;
    } else {
        prediction_state.tally_two_bit += 1;
    }
}

/// Feeds one outcome through all four predictors and records it as the new
/// one-bit history.
pub fn record_outcome(prediction_state: &mut PredictionState, taken: bool)
    requires
        old(prediction_state)@.wf(),
        old(prediction_state).tally_always_taken < u64::MAX,
        old(prediction_state).tally_always_not_taken < u64::MAX,
        old(prediction_state).tally_one_bit < u64::MAX,
        old(prediction_state).tally_two_bit < u64::MAX,
    ensures
        final(prediction_state)@ == step(old(prediction_state)@, taken),
        final(prediction_state)@.wf(),
{
    if taken {
        update_state_for_taken(prediction_state);
    } else {
        update_state_for_not_taken(prediction_state);
    }

    prediction_state.one_bit_state = taken;
}

/// How many outcomes of the sequence are taken.
pub open spec fn count_taken(outcomes: Seq<bool>) -> nat
    decreases outcomes.len(),
{
    if outcomes.len() == 0 {
        0
    } else {
        count_taken(outcomes.drop_last()) + if outcomes.last() {
            1nat
        } else {
            0nat
        }
    }
}

/// How many outcomes repeat the one immediately before them, with `prev`
/// standing before the first.
pub open spec fn count_repetitions(outcomes: Seq<bool>, prev: bool) -> nat
    decreases outcomes.len(),
{
    if outcomes.len() == 0 {
        0
    } else {
        count_repetitions(outcomes.drop_last(), prev) + if outcomes.last() == (if outcomes.len()
            == 1 {
            prev
        } else {
            outcomes[outcomes.len() - 2]
        }) {
            1nat
        } else {
            0nat
        }
    }
}

/// Law: the stateless predictors score exactly by classification. The
/// always-taken tally grows by the number of taken outcomes, the
/// always-not-taken tally by the number of not-taken ones.
pub proof fn lemma_always_predictor_counts(m: PredictorModel, outcomes: Seq<bool>)
    ensures
        count_taken(outcomes) <= outcomes.len(),
        run(m, outcomes).tally_always_taken == m.tally_always_taken + count_taken(outcomes),
        run(m, outcomes).tally_always_not_taken == m.tally_always_not_taken + (outcomes.len()
            - count_taken(outcomes)),
    decreases outcomes.len(),
{
    if outcomes.len() > 0 {
        lemma_always_predictor_counts(m, outcomes.drop_last());
    }
}

/// Law: every outcome is classified exactly once as taken or not-taken, so
/// over any run the always-taken and always-not-taken tallies sum to the
/// number of outcomes.
pub proof fn lemma_tallies_partition(outcomes: Seq<bool>)
    ensures
        run(initial_model(), outcomes).tally_always_taken + run(
            initial_model(),
            outcomes,
        ).tally_always_not_taken == outcomes.len(),
{
    lemma_always_predictor_counts(initial_model(), outcomes);
}

/// Law: the two-bit counter stays in `{0, 1, 2, 3}` after any sequence of
/// updates.
pub proof fn lemma_two_bit_state_bounded(m: PredictorModel, outcomes: Seq<bool>)
    requires
        m.wf(),
    ensures
        run(m, outcomes).wf(),
    decreases outcomes.len(),
{
    if outcomes.len() > 0 {
        lemma_two_bit_state_bounded(m, outcomes.drop_last());
    }
}

/// Law: the one-bit predictor's tally counts exactly the outcomes that equal
/// the immediately preceding one, the starting history standing before the
/// first outcome. Its accuracy over a run is therefore the fraction of such
/// repetitions.
pub proof fn lemma_one_bit_accuracy(m: PredictorModel, outcomes: Seq<bool>)
    ensures
        run(m, outcomes).tally_one_bit == m.tally_one_bit + count_repetitions(
            outcomes,
            m.one_bit_state,
        ),
    decreases outcomes.len(),
{
    if outcomes.len() > 0 {
        lemma_one_bit_accuracy(m, outcomes.drop_last());
        if outcomes.len() > 1 {
            assert(run(m, outcomes.drop_last()).one_bit_state == outcomes[outcomes.len() - 2]);
        }
    }
}

/// Law: an all-taken sequence of length `n` drives the always-taken tally to
/// `n` and the always-not-taken tally to 0.
pub proof fn lemma_all_taken_run(n: nat)
    ensures
        run(initial_model(), Seq::new(n, |i: int| true)).tally_always_taken == n,
        run(initial_model(), Seq::new(n, |i: int| true)).tally_always_not_taken == 0,
{
    lemma_count_taken_all_true(n);
    lemma_always_predictor_counts(initial_model(), Seq::new(n, |i: int| true));
}

proof fn lemma_count_taken_all_true(n: nat)
    ensures
        count_taken(Seq::new(n, |i: int| true)) == n,
    decreases n,
{
    if n > 0 {
        lemma_count_taken_all_true((n - 1) as nat);
        assert(Seq::new(n, |i: int| true).drop_last() =~= Seq::new((n - 1) as nat, |i: int| true));
    }
}

/// Each step credits a strategy at most once, so no tally can outgrow the
/// number of outcomes processed.
pub proof fn lemma_run_tally_bounds(m: PredictorModel, outcomes: Seq<bool>)
    ensures
        run(m, outcomes).tally_always_taken <= m.tally_always_taken + outcomes.len(),
        run(m, outcomes).tally_always_not_taken <= m.tally_always_not_taken + outcomes.len(),
        run(m, outcomes).tally_one_bit <= m.tally_one_bit + outcomes.len(),
        run(m, outcomes).tally_two_bit <= m.tally_two_bit + outcomes.len(),
    decreases outcomes.len(),
{
    if outcomes.len() > 0 {
        lemma_run_tally_bounds(m, outcomes.drop_last());
    }
}

/// Runs the whole simulation: every outcome of the stream is fed through the
/// four predictors in order, starting from the fresh state.
pub fn simulate(outcomes: &Vec<bool>) -> (s: PredictionState)
    ensures
        s@ == run(initial_model(), outcomes@),
        s@.wf(),
{
    let mut state = PredictionState::new();
    let mut i: usize = 0;

    while i < outcomes.len()
        invariant
            i <= outcomes@.len(),
            state@ == run(initial_model(), outcomes@.subrange(0, i as int)),
            state@.wf(),
        decreases outcomes@.len() - i,
    {
        proof {
            lemma_run_tally_bounds(initial_model(), outcomes@.subrange(0, i as int));
        }
        record_outcome(&mut state, outcomes[i]);
        proof {
            let extended = outcomes@.subrange(0, i + 1);
            assert(extended.drop_last() =~= outcomes@.subrange(0, i as int));
        }
        i += 1;
    }

    proof {
        assert(outcomes@.subrange(0, outcomes@.len() as int) =~= outcomes@);
    }
    state
}

} // verus!
