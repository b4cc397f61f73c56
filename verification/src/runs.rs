//! Laws over whole runs of a generator: the snowflakes it issues along a
//! sequence of clock readings, one reading per attempt.
use vstd::prelude::*;
use vstd::arithmetic::div_mod::lemma_small_mod;
use crate::layout::{
    fast_id, lemma_fast_id_order, lemma_fast_ids_distinct, lemma_slow_fields_roundtrip,
    lemma_slow_id_order, lemma_slow_ids_distinct, pair_lt, slow_id, slow_worker_of, time_range,
    FAST_GENERATOR_MASK, FAST_INCREMENT_MASK, FAST_WORKER_MASK, SLOW_INCREMENT_MASK,
    SLOW_WORKER_MASK,
};
use crate::state::{advanced, can_issue, lemma_issue_moves_forward, with_worker, GeneratorState};

verus! {

/// Lexicographic order or equality on (timestamp, increment) pairs.
pub open spec fn pair_le(t1: int, i1: int, t2: int, i2: int) -> bool {
    pair_lt(t1, i1, t2, i2) || (t1 == t2 && i1 == i2)
}

/// The state after a sequence of clock readings, one per attempt.
pub open spec fn run(state: GeneratorState, readings: Seq<u64>, max_increment: u64) -> GeneratorState
    decreases readings.len(),
{
    if readings.len() == 0 {
        state
    } else {
        advanced(run(state, readings.drop_last(), max_increment), readings.last(), max_increment)
    }
}

/// The (timestamp, increment) pairs issued along a sequence of clock
/// readings, in the order they were issued; attempts that issue nothing add
/// nothing.
pub open spec fn issued(state: GeneratorState, readings: Seq<u64>, max_increment: u64) -> Seq<(u64, u64)>
    decreases readings.len(),
{
    if readings.len() == 0 {
        Seq::empty()
    } else {
        let before = run(state, readings.drop_last(), max_increment);
        let earlier = issued(state, readings.drop_last(), max_increment);
        if can_issue(before, readings.last(), max_increment) {
            let after = advanced(before, readings.last(), max_increment);
            earlier.push((after.last_increment, after.increment))
        } else {
            earlier
        }
    }
}

/// The fast snowflakes a generator issues along a sequence of clock readings.
pub open spec fn fast_run_ids(state: GeneratorState, readings: Seq<u64>) -> Seq<int> {
    issued(state, readings, FAST_INCREMENT_MASK).map_values(
        |pair: (u64, u64)|
            fast_id(
                pair.0 as int % time_range(),
                state.worker_id as int,
                state.generator_id as int,
                pair.1 as int,
            ),
    )
}

/// The slow snowflakes a generator issues along a sequence of clock readings.
pub open spec fn slow_run_ids(state: GeneratorState, readings: Seq<u64>) -> Seq<int> {
    issued(state, readings, SLOW_INCREMENT_MASK).map_values(
        |pair: (u64, u64)| slow_id(pair.0 as int % time_range(), state.worker_id as int, pair.1 as int),
    )
}

/// Along a run the ids stay, the (timestamp, increment) pair of the state
/// never goes back, and the issued pairs are strictly increasing, all after
/// the starting pair and none after the final one, with increments in range.
pub proof fn lemma_run_facts(state: GeneratorState, readings: Seq<u64>, max_increment: u64)
    requires
        max_increment < u64::MAX,
    ensures
        ({
            let end = run(state, readings, max_increment);
            let pairs = issued(state, readings, max_increment);
            &&& end.worker_id == state.worker_id
            &&& end.generator_id == state.generator_id
            &&& pair_le(
                state.last_increment as int,
                state.increment as int,
                end.last_increment as int,
                end.increment as int,
            )
            &&& forall|i: int|
                0 <= i < pairs.len() ==> {
                    &&& pair_lt(
                        state.last_increment as int,
                        state.increment as int,
                        #[trigger] pairs[i].0 as int,
                        pairs[i].1 as int,
                    )
                    &&& pair_le(
                        pairs[i].0 as int,
                        pairs[i].1 as int,
                        end.last_increment as int,
                        end.increment as int,
                    )
                    &&& pairs[i].1 <= max_increment
                }
            &&& forall|i: int, j: int|
                0 <= i < j < pairs.len() ==> pair_lt(
                    #[trigger] pairs[i].0 as int,
                    pairs[i].1 as int,
                    #[trigger] pairs[j].0 as int,
                    pairs[j].1 as int,
                )
        }),
    decreases readings.len(),
{
    if readings.len() > 0 {
        let earlier_readings = readings.drop_last();
        lemma_run_facts(state, earlier_readings, max_increment);
        let before = run(state, earlier_readings, max_increment);
        let earlier = issued(state, earlier_readings, max_increment);
        let reading = readings.last();
        let end = run(state, readings, max_increment);
        let pairs = issued(state, readings, max_increment);
        if can_issue(before, reading, max_increment) {
            lemma_issue_moves_forward(before, reading, max_increment);
            assert(end == advanced(before, reading, max_increment));
            assert(pairs == earlier.push((end.last_increment, end.increment)));
            assert forall|i: int| 0 <= i < earlier.len() implies #[trigger] pairs[i] == earlier[i] by {}
            assert forall|i: int, j: int|
                0 <= i < j < pairs.len() implies pair_lt(
                #[trigger] pairs[i].0 as int,
                pairs[i].1 as int,
                #[trigger] pairs[j].0 as int,
                pairs[j].1 as int,
            ) by {
                if j < earlier.len() {
                    assert(pairs[i] == earlier[i]);
                    assert(pairs[j] == earlier[j]);
                } else {
                    assert(pairs[i] == earlier[i]);
                    assert(pair_le(
                        earlier[i].0 as int,
                        earlier[i].1 as int,
                        before.last_increment as int,
                        before.increment as int,
                    ));
                }
            }
        } else {
            assert(end == before);
            assert(pairs == earlier);
        }
    }
}

/// The fast snowflakes a generator issues along any run are strictly
/// increasing, so no two of them are equal, as long as its timestamps fit in
/// 42 bits.
pub proof fn lemma_fast_run_ids_increase(state: GeneratorState, readings: Seq<u64>)
    requires
        state.worker_id <= FAST_WORKER_MASK,
        state.generator_id <= FAST_GENERATOR_MASK,
        run(state, readings, FAST_INCREMENT_MASK).last_increment < time_range(),
    ensures
        forall|i: int, j: int|
            0 <= i < j < fast_run_ids(state, readings).len() ==> #[trigger] fast_run_ids(
                state,
                readings,
            )[i] < #[trigger] fast_run_ids(state, readings)[j],
{
    let pairs = issued(state, readings, FAST_INCREMENT_MASK);
    let end = run(state, readings, FAST_INCREMENT_MASK);
    lemma_run_facts(state, readings, FAST_INCREMENT_MASK);
    assert forall|i: int, j: int|
        0 <= i < j < fast_run_ids(state, readings).len() implies #[trigger] fast_run_ids(
        state,
        readings,
    )[i] < #[trigger] fast_run_ids(state, readings)[j] by {
        let (t1, i1) = pairs[i];
        let (t2, i2) = pairs[j];
        assert(pair_le(t1 as int, i1 as int, end.last_increment as int, end.increment as int));
        assert(pair_le(t2 as int, i2 as int, end.last_increment as int, end.increment as int));
        lemma_small_mod(t1 as nat, time_range() as nat);
        lemma_small_mod(t2 as nat, time_range() as nat);
        lemma_fast_id_order(state.worker_id, state.generator_id, t1, i1, t2, i2);
    }
}

/// Generators with different (worker, generator) ids never issue the same
/// fast snowflake, whatever their runs.
pub proof fn lemma_fast_runs_disjoint(
    state1: GeneratorState,
    readings1: Seq<u64>,
    state2: GeneratorState,
    readings2: Seq<u64>,
)
    requires
        state1.worker_id <= FAST_WORKER_MASK,
        state1.generator_id <= FAST_GENERATOR_MASK,
        state2.worker_id <= FAST_WORKER_MASK,
        state2.generator_id <= FAST_GENERATOR_MASK,
        (state1.worker_id, state1.generator_id) != (state2.worker_id, state2.generator_id),
    ensures
        forall|i: int, j: int|
            0 <= i < fast_run_ids(state1, readings1).len() && 0 <= j < fast_run_ids(
                state2,
                readings2,
            ).len() ==> #[trigger] fast_run_ids(state1, readings1)[i] != #[trigger] fast_run_ids(
                state2,
                readings2,
            )[j],
{
    let pairs1 = issued(state1, readings1, FAST_INCREMENT_MASK);
    let pairs2 = issued(state2, readings2, FAST_INCREMENT_MASK);
    lemma_run_facts(state1, readings1, FAST_INCREMENT_MASK);
    lemma_run_facts(state2, readings2, FAST_INCREMENT_MASK);
    assert forall|i: int, j: int|
        0 <= i < fast_run_ids(state1, readings1).len() && 0 <= j < fast_run_ids(
            state2,
            readings2,
        ).len() implies #[trigger] fast_run_ids(state1, readings1)[i] != #[trigger] fast_run_ids(
        state2,
        readings2,
    )[j] by {
        let (t1, i1) = pairs1[i];
        let (t2, i2) = pairs2[j];
        assert(i1 <= FAST_INCREMENT_MASK);
        assert(i2 <= FAST_INCREMENT_MASK);
        lemma_fast_ids_distinct(
            (t1 as int % time_range()) as u64,
            state1.worker_id,
            state1.generator_id,
            i1,
            (t2 as int % time_range()) as u64,
            state2.worker_id,
            state2.generator_id,
            i2,
        );
    }
}

/// The slow snowflakes a generator issues along any run are strictly
/// increasing, so no two of them are equal, as long as its timestamps fit in
/// 42 bits.
pub proof fn lemma_slow_run_ids_increase(state: GeneratorState, readings: Seq<u64>)
    requires
        state.worker_id <= SLOW_WORKER_MASK,
        run(state, readings, SLOW_INCREMENT_MASK).last_increment < time_range(),
    ensures
        forall|i: int, j: int|
            0 <= i < j < slow_run_ids(state, readings).len() ==> #[trigger] slow_run_ids(
                state,
                readings,
            )[i] < #[trigger] slow_run_ids(state, readings)[j],
{
    let pairs = issued(state, readings, SLOW_INCREMENT_MASK);
    let end = run(state, readings, SLOW_INCREMENT_MASK);
    lemma_run_facts(state, readings, SLOW_INCREMENT_MASK);
    assert forall|i: int, j: int|
        0 <= i < j < slow_run_ids(state, readings).len() implies #[trigger] slow_run_ids(
        state,
        readings,
    )[i] < #[trigger] slow_run_ids(state, readings)[j] by {
        let (t1, i1) = pairs[i];
        let (t2, i2) = pairs[j];
        assert(pair_le(t1 as int, i1 as int, end.last_increment as int, end.increment as int));
        assert(pair_le(t2 as int, i2 as int, end.last_increment as int, end.increment as int));
        lemma_small_mod(t1 as nat, time_range() as nat);
        lemma_small_mod(t2 as nat, time_range() as nat);
        lemma_slow_id_order(state.worker_id, t1, i1, t2, i2);
    }
}

/// A slow generator that is given a new worker id between two runs (a second
/// `init_slow`) keeps issuing distinct snowflakes: each run's snowflakes are
/// strictly increasing, no snowflake of the second run equals one of the
/// first, and every snowflake of the second run carries the new worker id,
/// as long as the timestamps fit in 42 bits.
pub proof fn lemma_slow_runs_across_new_worker(
    state: GeneratorState,
    first: Seq<u64>,
    worker_id: u64,
    second: Seq<u64>,
)
    requires
        state.worker_id <= SLOW_WORKER_MASK,
        worker_id <= SLOW_WORKER_MASK,
        run(
            with_worker(run(state, first, SLOW_INCREMENT_MASK), worker_id),
            second,
            SLOW_INCREMENT_MASK,
        ).last_increment < time_range(),
    ensures
        ({
            let middle = with_worker(run(state, first, SLOW_INCREMENT_MASK), worker_id);
            let ids1 = slow_run_ids(state, first);
            let ids2 = slow_run_ids(middle, second);
            &&& forall|i: int, j: int| 0 <= i < j < ids1.len() ==> #[trigger] ids1[i] < #[trigger] ids1[j]
            &&& forall|i: int, j: int| 0 <= i < j < ids2.len() ==> #[trigger] ids2[i] < #[trigger] ids2[j]
            &&& forall|i: int, j: int|
                0 <= i < ids1.len() && 0 <= j < ids2.len() ==> #[trigger] ids1[i] != #[trigger] ids2[j]
            &&& forall|j: int| 0 <= j < ids2.len() ==> slow_worker_of(#[trigger] ids2[j]) == worker_id
        }),
{
    let end1 = run(state, first, SLOW_INCREMENT_MASK);
    let middle = with_worker(end1, worker_id);
    let end2 = run(middle, second, SLOW_INCREMENT_MASK);
    let pairs1 = issued(state, first, SLOW_INCREMENT_MASK);
    let pairs2 = issued(middle, second, SLOW_INCREMENT_MASK);
    let ids1 = slow_run_ids(state, first);
    let ids2 = slow_run_ids(middle, second);
    lemma_run_facts(state, first, SLOW_INCREMENT_MASK);
    lemma_run_facts(middle, second, SLOW_INCREMENT_MASK);
    lemma_slow_run_ids_increase(middle, second);
    lemma_slow_run_ids_increase(state, first);
    assert forall|i: int, j: int|
        0 <= i < ids1.len() && 0 <= j < ids2.len() implies #[trigger] ids1[i] != #[trigger] ids2[j] by {
        let (t1, i1) = pairs1[i];
        let (t2, i2) = pairs2[j];
        assert(pair_le(t1 as int, i1 as int, end1.last_increment as int, end1.increment as int));
        assert(pair_le(t2 as int, i2 as int, end2.last_increment as int, end2.increment as int));
        lemma_small_mod(t1 as nat, time_range() as nat);
        lemma_small_mod(t2 as nat, time_range() as nat);
        lemma_slow_ids_distinct(t1, state.worker_id, i1, t2, worker_id, i2);
    }
    assert forall|j: int| 0 <= j < ids2.len() implies slow_worker_of(#[trigger] ids2[j]) == worker_id by {
        let (t2, i2) = pairs2[j];
        assert(pair_le(t2 as int, i2 as int, end2.last_increment as int, end2.increment as int));
        lemma_small_mod(t2 as nat, time_range() as nat);
        lemma_slow_fields_roundtrip(t2, worker_id, i2);
    }
}

} // verus!
