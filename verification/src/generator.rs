//! Generators as the callers hold them: fast generators shared between
//! threads behind a lock, the slot a thread keeps its fast generator in, and
//! the slot of the single slow generator of a worker.
use std::sync::Arc;
use vstd::prelude::*;
use vstd::rwlock::{RwLock, RwLockPredicate};
use crate::clock::get_timestamp;
use crate::error::SnowflakeError;
use crate::layout::{
    fast_generator_of, fast_id, fast_worker_of, lemma_fast_fields_roundtrip,
    lemma_slow_fields_roundtrip, lemma_slow_ids_distinct, pair_lt, slow_id, slow_worker_of, time_range,
    FastSnowflake, SlowSnowflake, FAST_GENERATOR_MASK, FAST_INCREMENT_MASK, FAST_WORKER_MASK,
    SLOW_INCREMENT_MASK, SLOW_WORKER_MASK,
};
use vstd::arithmetic::div_mod::lemma_small_mod;
use crate::runs::pair_le;
use crate::layout::{
    fast_increment_of, fast_timestamp_of, slow_increment_of, slow_timestamp_of, MY_OWN_EPOCH_TIME,
};
use crate::state::{
    advanced, can_issue, fresh_state, lemma_advance_by_reading, with_worker, lemma_issue_moves_forward, next_fast_snowflake, next_slow_snowflake,
    GeneratorState,
};

verus! {

/// The ids a fast generator was created with; the state behind its lock
/// always carries them.
pub struct FastIds {
    pub worker_id: u64,
    pub generator_id: u64,
}

impl RwLockPredicate<GeneratorState> for FastIds {
    open spec fn inv(self, state: GeneratorState) -> bool {
        &&& state.worker_id == self.worker_id
        &&& state.generator_id == self.generator_id
        &&& self.worker_id <= FAST_WORKER_MASK
        &&& self.generator_id <= FAST_GENERATOR_MASK
    }
}

/// A fast generator, shared by the threads that make snowflakes with it.
pub type FastGenerator = Arc<RwLock<GeneratorState, FastIds>>;

/// Creates a fast generator for the given worker and generator ids, with no
/// snowflake issued yet.
pub fn create_generator(worker_id: u64, generator_id: u64) -> (generator: FastGenerator)
    requires
        worker_id <= FAST_WORKER_MASK,
        generator_id <= FAST_GENERATOR_MASK,
    ensures
        generator.pred() == (FastIds { worker_id, generator_id }),
{
    let state = GeneratorState::new(worker_id, generator_id);
    Arc::new(RwLock::new(state, Ghost(FastIds { worker_id, generator_id })))
}

/// Calls `Arc::clone`, which makes a second pointer to the same allocation.
/// The contract claims that the new handle equals the given one, which for
/// Verus means that both point to the same lock.
#[verifier::external_body]
fn share_generator(generator: &FastGenerator) -> (shared: FastGenerator)
    ensures
        shared == *generator,
{
    Arc::clone(generator)
}

/// The fast generator a thread makes snowflakes with; it is set at most once.
pub struct FastThreadSlot {
    generator: Option<FastGenerator>,
}

impl View for FastThreadSlot {
    type V = Option<FastGenerator>;

    /// The generator the slot holds, if any.
    closed spec fn view(&self) -> Option<FastGenerator> {
        self.generator
    }
}

impl FastThreadSlot {
    /// A slot with no generator.
    pub fn new() -> (slot: Self)
        ensures
            slot@ is None,
    {
        FastThreadSlot { generator: None }
    }

    pub fn is_initialized(&self) -> (initialized: bool)
        ensures
            initialized == self@ is Some,
    {
        self.generator.is_some()
    }
}

/// Puts a fast generator in a thread's empty slot. The slot then shares the
/// given generator (the same lock, not a copy of it).
pub fn init_thread_fast(slot: &mut FastThreadSlot, generator: &FastGenerator)
    requires
        old(slot)@ is None,
    ensures
        final(slot)@ == Some(*generator),
{
    slot.generator = Some(share_generator(generator));
}

/// What a generator in `state` issues as a fast snowflake at a clock
/// reading of `timestamp_ms`: in a millisecond after its last one, that
/// millisecond with increment 0; at or before its last millisecond, the last
/// millisecond with the next increment, while one is left.
pub open spec fn fast_issued_at(state: GeneratorState, timestamp_ms: u64, snowflake: u64) -> bool {
    if timestamp_ms > state.last_increment {
        snowflake == fast_id(
            timestamp_ms as int % time_range(),
            state.worker_id as int,
            state.generator_id as int,
            0,
        )
    } else {
        &&& state.increment < FAST_INCREMENT_MASK
        &&& snowflake == fast_id(
            state.last_increment as int % time_range(),
            state.worker_id as int,
            state.generator_id as int,
            state.increment + 1,
        )
    }
}

/// What a generator in `state` issues as a slow snowflake at a clock reading
/// of `timestamp_ms`, by the same rule.
pub open spec fn slow_issued_at(state: GeneratorState, timestamp_ms: u64, snowflake: u64) -> bool {
    if timestamp_ms > state.last_increment {
        snowflake == slow_id(timestamp_ms as int % time_range(), state.worker_id as int, 0)
    } else {
        &&& state.increment < SLOW_INCREMENT_MASK
        &&& snowflake == slow_id(
            state.last_increment as int % time_range(),
            state.worker_id as int,
            state.increment + 1,
        )
    }
}

/// A reading at or before the last millisecond of a generator whose
/// increments there are used up.
pub open spec fn used_up_at(state: GeneratorState, timestamp_ms: u64, max_increment: u64) -> bool {
    timestamp_ms <= state.last_increment && max_increment <= state.increment
}

/// A fast snowflake issued at a clock reading is never stamped before that
/// reading: in a millisecond after the generator's last one it carries the
/// reading itself and increment 0, so decoding it gives the Unix time of the
/// reading; otherwise it carries the generator's later last millisecond and
/// an increment of at least 1.
pub proof fn lemma_fast_issue_stamps_reading(state: GeneratorState, timestamp_ms: u64, snowflake: u64)
    requires
        state.worker_id <= FAST_WORKER_MASK,
        state.generator_id <= FAST_GENERATOR_MASK,
        timestamp_ms < time_range(),
        state.last_increment < time_range(),
        fast_issued_at(state, timestamp_ms, snowflake),
    ensures
        fast_timestamp_of(snowflake as int) >= timestamp_ms,
        timestamp_ms > state.last_increment ==> {
            &&& fast_timestamp_of(snowflake as int) == timestamp_ms
            &&& fast_increment_of(snowflake as int) == 0
        },
        timestamp_ms <= state.last_increment ==> {
            &&& fast_timestamp_of(snowflake as int) == state.last_increment
            &&& fast_increment_of(snowflake as int) == state.increment + 1
        },
        fast_worker_of(snowflake as int) == state.worker_id,
        fast_generator_of(snowflake as int) == state.generator_id,
{
    if timestamp_ms > state.last_increment {
        lemma_small_mod(timestamp_ms as nat, time_range() as nat);
        lemma_fast_fields_roundtrip(timestamp_ms, state.worker_id, state.generator_id, 0);
    } else {
        lemma_small_mod(state.last_increment as nat, time_range() as nat);
        lemma_fast_fields_roundtrip(
            state.last_increment,
            state.worker_id,
            state.generator_id,
            (state.increment + 1) as u64,
        );
    }
}

/// A slow snowflake issued at a clock reading is never stamped before that
/// reading: in a millisecond after the generator's last one it carries the
/// reading itself and increment 0, so decoding it gives the Unix time of the
/// reading; otherwise it carries the generator's later last millisecond and
/// an increment of at least 1.
pub proof fn lemma_slow_issue_stamps_reading(state: GeneratorState, timestamp_ms: u64, snowflake: u64)
    requires
        state.worker_id <= SLOW_WORKER_MASK,
        timestamp_ms < time_range(),
        state.last_increment < time_range(),
        slow_issued_at(state, timestamp_ms, snowflake),
    ensures
        slow_timestamp_of(snowflake as int) >= timestamp_ms,
        timestamp_ms > state.last_increment ==> {
            &&& slow_timestamp_of(snowflake as int) == timestamp_ms
            &&& slow_increment_of(snowflake as int) == 0
        },
        timestamp_ms <= state.last_increment ==> {
            &&& slow_timestamp_of(snowflake as int) == state.last_increment
            &&& slow_increment_of(snowflake as int) == state.increment + 1
        },
        slow_worker_of(snowflake as int) == state.worker_id,
{
    if timestamp_ms > state.last_increment {
        lemma_small_mod(timestamp_ms as nat, time_range() as nat);
        lemma_slow_fields_roundtrip(timestamp_ms, state.worker_id, 0);
    } else {
        lemma_small_mod(state.last_increment as nat, time_range() as nat);
        lemma_slow_fields_roundtrip(state.last_increment, state.worker_id, (state.increment + 1) as u64);
    }
}

/// Makes a snowflake with the slot's fast generator at a clock reading of
/// `timestamp_ms` (milliseconds since the custom epoch).
pub fn create_fast_snowflake_at(slot: &FastThreadSlot, timestamp_ms: u64) -> (result: Result<FastSnowflake, SnowflakeError>)
    ensures
        slot@ is None ==> result == Err::<FastSnowflake, SnowflakeError>(
            SnowflakeError::ThreadNotInitProperly,
        ),
        slot@ matches Some(generator) ==> {
            &&& result matches Ok(snowflake) ==> {
                &&& fast_worker_of(snowflake as int) == generator.pred().worker_id
                &&& fast_generator_of(snowflake as int) == generator.pred().generator_id
                &&& exists|state: GeneratorState|
                    generator.inv(state) && #[trigger] fast_issued_at(state, timestamp_ms, snowflake)
            }
            &&& result matches Err(e) ==> {
                &&& e == SnowflakeError::IncrementsExhausted
                &&& exists|state: GeneratorState|
                    generator.inv(state) && #[trigger] used_up_at(state, timestamp_ms, FAST_INCREMENT_MASK)
            }
        },
{
    match &slot.generator {
        None => Err(SnowflakeError::ThreadNotInitProperly),
        Some(generator) => {
            let (mut state, handle) = generator.acquire_write();
            let ghost before = state;
            let result = next_fast_snowflake(&mut state, timestamp_ms);
            proof {
                assert(generator.inv(before));
                lemma_advance_by_reading(before, timestamp_ms, FAST_INCREMENT_MASK);
                if result is Ok {
                    assert(fast_issued_at(before, timestamp_ms, result->Ok_0));
                    lemma_fast_fields_roundtrip(
                        (state.last_increment as int % time_range()) as u64,
                        state.worker_id,
                        state.generator_id,
                        state.increment,
                    );
                } else {
                    assert(used_up_at(before, timestamp_ms, FAST_INCREMENT_MASK));
                }
            }
            handle.release_write(state);
            result
        },
    }
}

/// Makes a snowflake with the slot's fast generator at the current time.
pub fn create_fast_snowflake(slot: &FastThreadSlot) -> (result: Result<FastSnowflake, SnowflakeError>)
    ensures
        slot@ is None ==> result == Err::<FastSnowflake, SnowflakeError>(
            SnowflakeError::ThreadNotInitProperly,
        ),
        slot@ matches Some(generator) ==> {
            &&& result matches Ok(snowflake) ==> {
                &&& fast_worker_of(snowflake as int) == generator.pred().worker_id
                &&& fast_generator_of(snowflake as int) == generator.pred().generator_id
                &&& exists|state: GeneratorState, timestamp_ms: u64|
                    {
                        &&& generator.inv(state)
                        &&& 0 < timestamp_ms
                        &&& can_issue(state, timestamp_ms, FAST_INCREMENT_MASK)
                        &&& snowflake == fast_id(
                            #[trigger] advanced(state, timestamp_ms, FAST_INCREMENT_MASK).last_increment
                                as int % time_range(),
                            generator.pred().worker_id as int,
                            generator.pred().generator_id as int,
                            advanced(state, timestamp_ms, FAST_INCREMENT_MASK).increment as int,
                        )
                    }
                &&& exists|state: GeneratorState, timestamp_ms: u64|
                    {
                        &&& generator.inv(state)
                        &&& 0 < timestamp_ms
                        &&& #[trigger] fast_issued_at(state, timestamp_ms, snowflake)
                    }
            }
            &&& result matches Err(e) ==> e == SnowflakeError::ClockBeforeEpoch || {
                &&& e == SnowflakeError::IncrementsExhausted
                &&& exists|state: GeneratorState, timestamp_ms: u64|
                    generator.inv(state) && 0 < timestamp_ms && !#[trigger] can_issue(
                        state,
                        timestamp_ms,
                        FAST_INCREMENT_MASK,
                    )
            }
        },
{
    match &slot.generator {
        None => Err(SnowflakeError::ThreadNotInitProperly),
        Some(generator) => {
            let (mut state, handle) = generator.acquire_write();
            let ghost before = state;
            let result = match get_timestamp() {
                Err(e) => Err(e),
                Ok(timestamp_ms) => {
                    let result = next_fast_snowflake(&mut state, timestamp_ms);
                    proof {
                        assert(generator.inv(before));
                        lemma_advance_by_reading(before, timestamp_ms, FAST_INCREMENT_MASK);
                        if result is Ok {
                            assert(fast_issued_at(before, timestamp_ms, result->Ok_0));
                        }
                        if can_issue(before, timestamp_ms, FAST_INCREMENT_MASK) {
                            assert(advanced(before, timestamp_ms, FAST_INCREMENT_MASK) == state);
                            lemma_issue_moves_forward(before, timestamp_ms, FAST_INCREMENT_MASK);
                            lemma_fast_fields_roundtrip(
                                (state.last_increment as int % time_range()) as u64,
                                state.worker_id,
                                state.generator_id,
                                state.increment,
                            );
                        }
                    }
                    result
                },
            };
            handle.release_write(state);
            result
        },
    }
}

/// The slow generator of a worker; it is absent until it is initialised.
pub struct SlowGeneratorSlot {
    state: Option<GeneratorState>,
}

impl View for SlowGeneratorSlot {
    type V = Option<GeneratorState>;

    closed spec fn view(&self) -> Option<GeneratorState> {
        self.state
    }
}

impl SlowGeneratorSlot {
    #[verifier::type_invariant]
    spec fn worker_in_range(self) -> bool {
        self.state matches Some(state) ==> state.worker_id <= SLOW_WORKER_MASK
    }

    /// A slot with no slow generator.
    pub fn new() -> (slot: Self)
        ensures
            slot@ is None,
    {
        SlowGeneratorSlot { state: None }
    }

    pub fn is_initialized(&self) -> (initialized: bool)
        ensures
            initialized == self@ is Some,
    {
        self.state.is_some()
    }
}

/// Initialises the slow generator with a worker id. A generator that is
/// already there keeps its last millisecond and increment and takes the new
/// worker id.
pub fn init_slow(slot: &mut SlowGeneratorSlot, worker_id: u64)
    requires
        worker_id <= SLOW_WORKER_MASK,
    ensures
        old(slot)@ is None ==> final(slot)@ == Some(fresh_state(worker_id, 0)),
        old(slot)@ matches Some(state) ==> final(slot)@ == Some(with_worker(state, worker_id)),
{
    let state = match &slot.state {
        None => GeneratorState::new(worker_id, 0),
        Some(state) => GeneratorState {
            worker_id,
            generator_id: state.generator_id,
            last_increment: state.last_increment,
            increment: state.increment,
        },
    };
    slot.state = Some(state);
}

/// A `create_slow_snowflake` call that took the generator from `before` to
/// `after` and issued `snowflake`: for some clock reading after the custom
/// epoch the state machine issues, and the snowflake packs the new
/// (timestamp, increment) pair with the worker id.
pub open spec fn slow_call_issues(before: GeneratorState, after: GeneratorState, snowflake: u64) -> bool {
    exists|timestamp_ms: u64|
        {
            &&& 0 < timestamp_ms
            &&& can_issue(before, timestamp_ms, SLOW_INCREMENT_MASK)
            &&& after == #[trigger] advanced(before, timestamp_ms, SLOW_INCREMENT_MASK)
            &&& snowflake == slow_id(
                after.last_increment as int % time_range(),
                before.worker_id as int,
                after.increment as int,
            )
            &&& slow_issued_at(before, timestamp_ms, snowflake)
        }
}

/// One step in the life of the slow generator: a `create_slow_snowflake`
/// call that issued `issued`, or, with `issued` absent, a call that failed
/// and left the generator as it was, or an `init_slow` that gave it a new
/// worker id.
pub open spec fn slow_history_step(before: GeneratorState, after: GeneratorState, issued: Option<u64>) -> bool {
    match issued {
        Some(snowflake) => slow_call_issues(before, after, snowflake),
        None => after == before || exists|worker_id: u64|
            worker_id <= SLOW_WORKER_MASK && after == #[trigger] with_worker(before, worker_id),
    }
}

proof fn lemma_slow_call_moves_forward(before: GeneratorState, after: GeneratorState, snowflake: u64)
    requires
        slow_call_issues(before, after, snowflake),
    ensures
        pair_lt(
            before.last_increment as int,
            before.increment as int,
            after.last_increment as int,
            after.increment as int,
        ),
        after.increment <= SLOW_INCREMENT_MASK,
        after.worker_id == before.worker_id,
        snowflake == slow_id(
            after.last_increment as int % time_range(),
            before.worker_id as int,
            after.increment as int,
        ),
{
    let timestamp_ms = choose|timestamp_ms: u64|
        {
            &&& 0 < timestamp_ms
            &&& can_issue(before, timestamp_ms, SLOW_INCREMENT_MASK)
            &&& after == #[trigger] advanced(before, timestamp_ms, SLOW_INCREMENT_MASK)
            &&& snowflake == slow_id(
                after.last_increment as int % time_range(),
                before.worker_id as int,
                after.increment as int,
            )
        };
    lemma_issue_moves_forward(before, timestamp_ms, SLOW_INCREMENT_MASK);
}

proof fn lemma_slow_history_prefix(states: Seq<GeneratorState>, issued: Seq<Option<u64>>, m: int)
    requires
        states.len() == issued.len() + 1,
        0 <= m < states.len(),
        states[0].worker_id <= SLOW_WORKER_MASK,
        forall|k: int| 0 <= k < issued.len() ==> slow_history_step(#[trigger] states[k], states[k + 1], issued[k]),
    ensures
        forall|j: int| 0 <= j <= m ==> (#[trigger] states[j]).worker_id <= SLOW_WORKER_MASK,
        forall|i: int, j: int|
            0 <= i <= j <= m ==> pair_le(
                (#[trigger] states[i]).last_increment as int,
                states[i].increment as int,
                (#[trigger] states[j]).last_increment as int,
                states[j].increment as int,
            ),
    decreases m,
{
    if m > 0 {
        lemma_slow_history_prefix(states, issued, m - 1);
        let before = states[m - 1];
        let after = states[m];
        assert(slow_history_step(states[m - 1], states[m], issued[m - 1]));
        match issued[m - 1] {
            Some(snowflake) => {
                lemma_slow_call_moves_forward(before, after, snowflake);
            },
            None => {},
        }
        assert(pair_le(
            before.last_increment as int,
            before.increment as int,
            after.last_increment as int,
            after.increment as int,
        ));
    }
}

/// Over the whole life of the slow generator, every snowflake its
/// `create_slow_snowflake` calls issue is different from every other, across
/// failed calls and new worker ids given by `init_slow`, and each carries the
/// worker id the generator had when it was issued, as long as the timestamps
/// fit in 42 bits. `states` are the generator's states from its
/// initialisation on, and `issued[k]` is what the step from `states[k]` to
/// `states[k + 1]` issued.
pub proof fn lemma_slow_history_ids_distinct(states: Seq<GeneratorState>, issued: Seq<Option<u64>>)
    requires
        states.len() == issued.len() + 1,
        states[0].worker_id <= SLOW_WORKER_MASK,
        forall|k: int| 0 <= k < issued.len() ==> slow_history_step(#[trigger] states[k], states[k + 1], issued[k]),
        states.last().last_increment < time_range(),
    ensures
        forall|i: int, j: int|
            0 <= i < j < issued.len() && issued[i] is Some && issued[j] is Some ==> #[trigger] issued[i]->0
                != #[trigger] issued[j]->0,
        forall|k: int|
            0 <= k < issued.len() && issued[k] is Some ==> slow_worker_of(#[trigger] issued[k]->0 as int)
                == states[k].worker_id,
{
    let n = issued.len() as int;
    lemma_slow_history_prefix(states, issued, n);
    assert forall|k: int| 0 <= k < n && issued[k] is Some implies {
        &&& pair_lt(
            states[k].last_increment as int,
            states[k].increment as int,
            states[k + 1].last_increment as int,
            states[k + 1].increment as int,
        )
        &&& states[k + 1].increment <= SLOW_INCREMENT_MASK
        &&& states[k + 1].last_increment < time_range()
        &&& issued[k]->0 == slow_id(
            states[k + 1].last_increment as int,
            states[k].worker_id as int,
            states[k + 1].increment as int,
        )
        &&& slow_worker_of(#[trigger] issued[k]->0 as int) == states[k].worker_id
    } by {
        assert(slow_history_step(states[k], states[k + 1], issued[k]));
        lemma_slow_call_moves_forward(states[k], states[k + 1], issued[k]->0);
        assert(pair_le(
            states[k + 1].last_increment as int,
            states[k + 1].increment as int,
            states[n].last_increment as int,
            states[n].increment as int,
        ));
        lemma_small_mod(states[k + 1].last_increment as nat, time_range() as nat);
        lemma_slow_fields_roundtrip(states[k + 1].last_increment, states[k].worker_id, states[k + 1].increment);
    }
    assert forall|i: int, j: int|
        0 <= i < j < n && issued[i] is Some && issued[j] is Some implies #[trigger] issued[i]->0
            != #[trigger] issued[j]->0 by {
        assert(slow_worker_of(issued[i]->0 as int) == states[i].worker_id);
        assert(slow_worker_of(issued[j]->0 as int) == states[j].worker_id);
        assert(pair_le(
            states[i + 1].last_increment as int,
            states[i + 1].increment as int,
            states[j].last_increment as int,
            states[j].increment as int,
        ));
        lemma_slow_ids_distinct(
            states[i + 1].last_increment,
            states[i].worker_id,
            states[i + 1].increment,
            states[j + 1].last_increment,
            states[j].worker_id,
            states[j + 1].increment,
        );
    }
}

/// Fast snowflakes whose worker or generator ids differ, as those of
/// `create_fast_snowflake` calls on generators with different ids do, are
/// different.
pub proof fn lemma_fast_snowflakes_of_different_generators(first: FastSnowflake, second: FastSnowflake)
    requires
        (fast_worker_of(first as int), fast_generator_of(first as int)) != (fast_worker_of(
            second as int,
        ), fast_generator_of(second as int)),
    ensures
        first != second,
{
}

/// Makes a snowflake with the slow generator at a clock reading of
/// `timestamp_ms` (milliseconds since the custom epoch).
pub fn create_slow_snowflake_at(slot: &mut SlowGeneratorSlot, timestamp_ms: u64) -> (result: Result<SlowSnowflake, SnowflakeError>)
    ensures
        old(slot)@ is None ==> {
            &&& result == Err::<SlowSnowflake, SnowflakeError>(SnowflakeError::NotInitProperly)
            &&& final(slot)@ == old(slot)@
        },
        old(slot)@ matches Some(state) ==> {
            &&& timestamp_ms > state.last_increment ==> {
                &&& result == Ok::<SlowSnowflake, SnowflakeError>(
                    slow_id(timestamp_ms as int % time_range(), state.worker_id as int, 0) as u64,
                )
                &&& final(slot)@ == Some(
                    GeneratorState {
                        worker_id: state.worker_id,
                        generator_id: state.generator_id,
                        last_increment: timestamp_ms,
                        increment: 0,
                    },
                )
            }
            &&& timestamp_ms <= state.last_increment && state.increment < SLOW_INCREMENT_MASK ==> {
                &&& result == Ok::<SlowSnowflake, SnowflakeError>(
                    slow_id(
                        state.last_increment as int % time_range(),
                        state.worker_id as int,
                        state.increment + 1,
                    ) as u64,
                )
                &&& final(slot)@ == Some(
                    GeneratorState {
                        worker_id: state.worker_id,
                        generator_id: state.generator_id,
                        last_increment: state.last_increment,
                        increment: (state.increment + 1) as u64,
                    },
                )
            }
            &&& timestamp_ms <= state.last_increment && SLOW_INCREMENT_MASK <= state.increment ==> {
                &&& result == Err::<SlowSnowflake, SnowflakeError>(SnowflakeError::IncrementsExhausted)
                &&& final(slot)@ == old(slot)@
            }
            &&& result matches Ok(snowflake) ==> {
                &&& slow_issued_at(state, timestamp_ms, snowflake)
                &&& can_issue(state, timestamp_ms, SLOW_INCREMENT_MASK)
                &&& final(slot)@ == Some(advanced(state, timestamp_ms, SLOW_INCREMENT_MASK))
            }
        },
{
    proof {
        use_type_invariant(&*slot);
    }
    let mut state = match &slot.state {
        None => {
            return Err(SnowflakeError::NotInitProperly);
        },
        Some(state) => GeneratorState {
            worker_id: state.worker_id,
            generator_id: state.generator_id,
            last_increment: state.last_increment,
            increment: state.increment,
        },
    };
    let ghost before = state;
    let result = next_slow_snowflake(&mut state, timestamp_ms);
    proof {
        lemma_advance_by_reading(before, timestamp_ms, SLOW_INCREMENT_MASK);
        if can_issue(before, timestamp_ms, SLOW_INCREMENT_MASK) {
            assert(advanced(before, timestamp_ms, SLOW_INCREMENT_MASK) == state);
        }
    }
    slot.state = Some(state);
    result
}

/// Makes a snowflake with the slow generator at the current time.
pub fn create_slow_snowflake(slot: &mut SlowGeneratorSlot) -> (result: Result<SlowSnowflake, SnowflakeError>)
    ensures
        old(slot)@ is None ==> {
            &&& result == Err::<SlowSnowflake, SnowflakeError>(SnowflakeError::NotInitProperly)
            &&& final(slot)@ == old(slot)@
        },
        old(slot)@ matches Some(state) ==> {
            &&& result matches Err(e) ==> {
                &&& final(slot)@ == old(slot)@
                &&& e == SnowflakeError::ClockBeforeEpoch || {
                    &&& e == SnowflakeError::IncrementsExhausted
                    &&& exists|timestamp_ms: u64|
                        0 < timestamp_ms && !#[trigger] can_issue(state, timestamp_ms, SLOW_INCREMENT_MASK)
                }
            }
            &&& result matches Ok(snowflake) ==> {
                &&& final(slot)@ is Some
                &&& slow_call_issues(state, final(slot)@->0, snowflake)
            }
        },
{
    if !slot.is_initialized() {
        return Err(SnowflakeError::NotInitProperly);
    }
    let ghost state = slot@->0;
    match get_timestamp() {
        Err(e) => Err(e),
        Ok(timestamp_ms) => {
            let result = create_slow_snowflake_at(slot, timestamp_ms);
            proof {
                lemma_advance_by_reading(state, timestamp_ms, SLOW_INCREMENT_MASK);
                if result is Err {
                    assert(!can_issue(state, timestamp_ms, SLOW_INCREMENT_MASK));
                }
            }
            result
        },
    }
}

} // verus!
