//! The state of a generator and how a clock reading advances it.
use vstd::prelude::*;
use crate::error::SnowflakeError;
use crate::layout::{
    compose_fast_snowflake, compose_slow_snowflake, fast_id, lemma_fast_id_order, lemma_slow_id_order,
    pair_lt, slow_id, time_range, FastSnowflake, SlowSnowflake, FAST_GENERATOR_MASK,
    FAST_INCREMENT_MASK, FAST_WORKER_MASK, SLOW_INCREMENT_MASK, SLOW_WORKER_MASK,
};

verus! {

/// The state of one generator: its ids, the last millisecond it issued a
/// snowflake in, and the increment used in that millisecond.
pub struct GeneratorState {
    pub worker_id: u64,
    pub generator_id: u64,
    pub last_increment: u64,
    pub increment: u64,
}

/// The state of a generator with the given ids that has issued no snowflake
/// yet.
pub open spec fn fresh_state(worker_id: u64, generator_id: u64) -> GeneratorState {
    GeneratorState { worker_id, generator_id, last_increment: 0, increment: 0 }
}

impl GeneratorState {
    /// The state of a generator with the given ids that has issued no
    /// snowflake yet.
    pub fn new(worker_id: u64, generator_id: u64) -> (state: Self)
        ensures
            state == fresh_state(worker_id, generator_id),
    {
        GeneratorState { worker_id, generator_id, last_increment: 0, increment: 0 }
    }
}

/// The state with its worker id replaced; the last millisecond and the
/// increment stay.
pub open spec fn with_worker(state: GeneratorState, worker_id: u64) -> GeneratorState {
    GeneratorState {
        worker_id,
        generator_id: state.generator_id,
        last_increment: state.last_increment,
        increment: state.increment,
    }
}

/// `increment + 1`, saturating at `u64::MAX`.
pub open spec fn saturating_next(increment: u64) -> u64 {
    if increment == u64::MAX {
        increment
    } else {
        (increment + 1) as u64
    }
}

/// Whether a clock reading of `timestamp_ms` lets the state issue a snowflake
/// at once: either the clock is past the last millisecond, or that
/// millisecond still has an increment left.
pub open spec fn can_issue(state: GeneratorState, timestamp_ms: u64, max_increment: u64) -> bool {
    timestamp_ms > state.last_increment || saturating_next(state.increment) <= max_increment
}

/// The state after a clock reading of `timestamp_ms`. When a snowflake is
/// issued, its (timestamp, increment) pair is the new
/// (`last_increment`, `increment`); otherwise the state is unchanged.
pub open spec fn advanced(state: GeneratorState, timestamp_ms: u64, max_increment: u64) -> GeneratorState {
    if timestamp_ms > state.last_increment {
        GeneratorState {
            worker_id: state.worker_id,
            generator_id: state.generator_id,
            last_increment: timestamp_ms,
            increment: 0,
        }
    } else if saturating_next(state.increment) <= max_increment {
        GeneratorState {
            worker_id: state.worker_id,
            generator_id: state.generator_id,
            last_increment: state.last_increment,
            increment: saturating_next(state.increment),
        }
    } else {
        state
    }
}

/// Advances `state` by a clock reading. If the reading is past the last
/// millisecond, the increment restarts at 0 in the new millisecond; otherwise
/// the last millisecond is reused and the increment goes up by one. Returns
/// whether a snowflake is issued; when the increment would pass
/// `max_increment` nothing is issued and the state is left as it was: the
/// caller retries once the clock has moved past `last_increment`.
/// On return `timestamp_ms` holds the millisecond to issue in.
pub fn incrementation_logic(state: &mut GeneratorState, timestamp_ms: &mut u64, max_increment: u64) -> (issued: bool)
    ensures
        issued == can_issue(*old(state), *old(timestamp_ms), max_increment),
        *final(state) == advanced(*old(state), *old(timestamp_ms), max_increment),
        *final(timestamp_ms) == if *old(timestamp_ms) > old(state).last_increment {
            *old(timestamp_ms)
        } else {
            old(state).last_increment
        },
        issued ==> *final(timestamp_ms) == final(state).last_increment,
        *old(timestamp_ms) > old(state).last_increment ==> {
            &&& issued
            &&& final(state).last_increment == *old(timestamp_ms)
            &&& final(state).increment == 0
        },
        *old(timestamp_ms) <= old(state).last_increment && old(state).increment < max_increment ==> {
            &&& issued
            &&& final(state).last_increment == old(state).last_increment
            &&& final(state).increment == old(state).increment + 1
        },
        *old(timestamp_ms) <= old(state).last_increment && max_increment <= old(state).increment
            < u64::MAX ==> {
            &&& !issued
            &&& *final(state) == *old(state)
        },
        final(state).worker_id == old(state).worker_id,
        final(state).generator_id == old(state).generator_id,
{
    if *timestamp_ms > state.last_increment {
        state.last_increment = *timestamp_ms;
        state.increment = 0;
        true
    } else {
        *timestamp_ms = state.last_increment;
        let next = state.increment.saturating_add(1);
        if next > max_increment {
            false
        } else {
            state.increment = next;
            true
        }
    }
}

/// Advances a fast generator by a clock reading of `timestamp_ms`
/// (milliseconds since the custom epoch) and packs the snowflake it issues.
pub fn next_fast_snowflake(state: &mut GeneratorState, timestamp_ms: u64) -> (result: Result<FastSnowflake, SnowflakeError>)
    requires
        old(state).worker_id <= FAST_WORKER_MASK,
        old(state).generator_id <= FAST_GENERATOR_MASK,
    ensures
        can_issue(*old(state), timestamp_ms, FAST_INCREMENT_MASK) ==> {
            &&& *final(state) == advanced(*old(state), timestamp_ms, FAST_INCREMENT_MASK)
            &&& result == Ok::<FastSnowflake, SnowflakeError>(fast_id(
                final(state).last_increment as int % time_range(),
                final(state).worker_id as int,
                final(state).generator_id as int,
                final(state).increment as int,
            ) as u64)
        },
        !can_issue(*old(state), timestamp_ms, FAST_INCREMENT_MASK) ==> {
            &&& *final(state) == *old(state)
            &&& result == Err::<FastSnowflake, SnowflakeError>(SnowflakeError::IncrementsExhausted)
        },
        timestamp_ms > old(state).last_increment ==> result == Ok::<FastSnowflake, SnowflakeError>(
            fast_id(
                timestamp_ms as int % time_range(),
                old(state).worker_id as int,
                old(state).generator_id as int,
                0,
            ) as u64,
        ),
        timestamp_ms <= old(state).last_increment && old(state).increment < FAST_INCREMENT_MASK
            ==> result == Ok::<FastSnowflake, SnowflakeError>(
            fast_id(
                old(state).last_increment as int % time_range(),
                old(state).worker_id as int,
                old(state).generator_id as int,
                old(state).increment + 1,
            ) as u64,
        ),
        timestamp_ms <= old(state).last_increment && FAST_INCREMENT_MASK <= old(state).increment
            ==> result == Err::<FastSnowflake, SnowflakeError>(SnowflakeError::IncrementsExhausted),
{
    let mut timestamp_ms = timestamp_ms;
    if incrementation_logic(state, &mut timestamp_ms, FAST_INCREMENT_MASK) {
        Ok(compose_fast_snowflake(timestamp_ms, state.worker_id, state.generator_id, state.increment))
    } else {
        Err(SnowflakeError::IncrementsExhausted)
    }
}

/// Advances a slow generator by a clock reading of `timestamp_ms`
/// (milliseconds since the custom epoch) and packs the snowflake it issues.
pub fn next_slow_snowflake(state: &mut GeneratorState, timestamp_ms: u64) -> (result: Result<SlowSnowflake, SnowflakeError>)
    requires
        old(state).worker_id <= SLOW_WORKER_MASK,
    ensures
        can_issue(*old(state), timestamp_ms, SLOW_INCREMENT_MASK) ==> {
            &&& *final(state) == advanced(*old(state), timestamp_ms, SLOW_INCREMENT_MASK)
            &&& result == Ok::<SlowSnowflake, SnowflakeError>(slow_id(
                final(state).last_increment as int % time_range(),
                final(state).worker_id as int,
                final(state).increment as int,
            ) as u64)
        },
        !can_issue(*old(state), timestamp_ms, SLOW_INCREMENT_MASK) ==> {
            &&& *final(state) == *old(state)
            &&& result == Err::<SlowSnowflake, SnowflakeError>(SnowflakeError::IncrementsExhausted)
        },
        timestamp_ms > old(state).last_increment ==> result == Ok::<SlowSnowflake, SnowflakeError>(
            slow_id(timestamp_ms as int % time_range(), old(state).worker_id as int, 0) as u64,
        ),
        timestamp_ms <= old(state).last_increment && old(state).increment < SLOW_INCREMENT_MASK
            ==> result == Ok::<SlowSnowflake, SnowflakeError>(
            slow_id(
                old(state).last_increment as int % time_range(),
                old(state).worker_id as int,
                old(state).increment + 1,
            ) as u64,
        ),
        timestamp_ms <= old(state).last_increment && SLOW_INCREMENT_MASK <= old(state).increment
            ==> result == Err::<SlowSnowflake, SnowflakeError>(SnowflakeError::IncrementsExhausted),
{
    let mut timestamp_ms = timestamp_ms;
    if incrementation_logic(state, &mut timestamp_ms, SLOW_INCREMENT_MASK) {
        Ok(compose_slow_snowflake(timestamp_ms, state.worker_id, state.increment))
    } else {
        Err(SnowflakeError::IncrementsExhausted)
    }
}

/// How a clock reading advances a generator, case by case: a reading past
/// the last millisecond issues in that millisecond with increment 0; a
/// reading at or before it issues in the last millisecond with the next
/// increment while one is left below `max_increment`, and otherwise issues
/// nothing and leaves the state as it was.
pub proof fn lemma_advance_by_reading(state: GeneratorState, timestamp_ms: u64, max_increment: u64)
    ensures
        timestamp_ms > state.last_increment ==> {
            &&& can_issue(state, timestamp_ms, max_increment)
            &&& advanced(state, timestamp_ms, max_increment).last_increment == timestamp_ms
            &&& advanced(state, timestamp_ms, max_increment).increment == 0
        },
        timestamp_ms <= state.last_increment && state.increment < max_increment ==> {
            &&& can_issue(state, timestamp_ms, max_increment)
            &&& advanced(state, timestamp_ms, max_increment).last_increment == state.last_increment
            &&& advanced(state, timestamp_ms, max_increment).increment == state.increment + 1
        },
        timestamp_ms <= state.last_increment && max_increment <= state.increment < u64::MAX ==> {
            &&& !can_issue(state, timestamp_ms, max_increment)
            &&& advanced(state, timestamp_ms, max_increment) == state
        },
        advanced(state, timestamp_ms, max_increment).worker_id == state.worker_id,
        advanced(state, timestamp_ms, max_increment).generator_id == state.generator_id,
{
}

/// Each issue moves the (timestamp, increment) pair of a generator strictly
/// forward: the timestamp never goes back, the increment goes up by one
/// inside the same millisecond and restarts at 0 in a later one, and it
/// never passes `max_increment`. The ids stay as they were.
pub proof fn lemma_issue_moves_forward(state: GeneratorState, timestamp_ms: u64, max_increment: u64)
    requires
        can_issue(state, timestamp_ms, max_increment),
        max_increment < u64::MAX,
    ensures
        ({
            let next = advanced(state, timestamp_ms, max_increment);
            &&& pair_lt(
                state.last_increment as int,
                state.increment as int,
                next.last_increment as int,
                next.increment as int,
            )
            &&& next.last_increment >= state.last_increment
            &&& next.last_increment == state.last_increment ==> next.increment == state.increment + 1
            &&& next.last_increment != state.last_increment ==> next.increment == 0
            &&& next.increment <= max_increment
            &&& next.worker_id == state.worker_id
            &&& next.generator_id == state.generator_id
        }),
{
}

/// A reading past the last millisecond always issues, with the increment
/// restarting at 0: the retry a caller makes once the clock has moved on
/// succeeds and moves the (timestamp, increment) pair forward.
pub proof fn lemma_later_reading_issues(state: GeneratorState, timestamp_ms: u64, max_increment: u64)
    requires
        timestamp_ms > state.last_increment,
    ensures
        can_issue(state, timestamp_ms, max_increment),
        advanced(state, timestamp_ms, max_increment) == (GeneratorState {
            worker_id: state.worker_id,
            generator_id: state.generator_id,
            last_increment: timestamp_ms,
            increment: 0,
        }),
        pair_lt(state.last_increment as int, state.increment as int, timestamp_ms as int, 0),
{
}

/// Two snowflakes issued one after the other by a fast generator are
/// strictly increasing, as long as the timestamps fit in 42 bits.
pub proof fn lemma_fast_snowflakes_increase(state: GeneratorState, timestamp1: u64, timestamp2: u64)
    requires
        state.worker_id <= FAST_WORKER_MASK,
        state.generator_id <= FAST_GENERATOR_MASK,
        can_issue(state, timestamp1, FAST_INCREMENT_MASK),
        can_issue(advanced(state, timestamp1, FAST_INCREMENT_MASK), timestamp2, FAST_INCREMENT_MASK),
        advanced(advanced(state, timestamp1, FAST_INCREMENT_MASK), timestamp2, FAST_INCREMENT_MASK).last_increment < time_range(),
    ensures
        ({
            let first = advanced(state, timestamp1, FAST_INCREMENT_MASK);
            let second = advanced(first, timestamp2, FAST_INCREMENT_MASK);
            fast_id(
                first.last_increment as int % time_range(),
                state.worker_id as int,
                state.generator_id as int,
                first.increment as int,
            ) < fast_id(
                second.last_increment as int % time_range(),
                state.worker_id as int,
                state.generator_id as int,
                second.increment as int,
            )
        }),
{
    let first = advanced(state, timestamp1, FAST_INCREMENT_MASK);
    let second = advanced(first, timestamp2, FAST_INCREMENT_MASK);
    lemma_issue_moves_forward(state, timestamp1, FAST_INCREMENT_MASK);
    lemma_issue_moves_forward(first, timestamp2, FAST_INCREMENT_MASK);
    lemma_fast_id_order(
        state.worker_id,
        state.generator_id,
        first.last_increment,
        first.increment,
        second.last_increment,
        second.increment,
    );
}

/// Two snowflakes issued one after the other by a slow generator are
/// strictly increasing, as long as the timestamps fit in 42 bits.
pub proof fn lemma_slow_snowflakes_increase(state: GeneratorState, timestamp1: u64, timestamp2: u64)
    requires
        state.worker_id <= SLOW_WORKER_MASK,
        can_issue(state, timestamp1, SLOW_INCREMENT_MASK),
        can_issue(advanced(state, timestamp1, SLOW_INCREMENT_MASK), timestamp2, SLOW_INCREMENT_MASK),
        advanced(advanced(state, timestamp1, SLOW_INCREMENT_MASK), timestamp2, SLOW_INCREMENT_MASK).last_increment < time_range(),
    ensures
        ({
            let first = advanced(state, timestamp1, SLOW_INCREMENT_MASK);
            let second = advanced(first, timestamp2, SLOW_INCREMENT_MASK);
            slow_id(first.last_increment as int % time_range(), state.worker_id as int, first.increment as int)
                < slow_id(second.last_increment as int % time_range(), state.worker_id as int, second.increment as int)
        }),
{
    let first = advanced(state, timestamp1, SLOW_INCREMENT_MASK);
    let second = advanced(first, timestamp2, SLOW_INCREMENT_MASK);
    lemma_issue_moves_forward(state, timestamp1, SLOW_INCREMENT_MASK);
    lemma_issue_moves_forward(first, timestamp2, SLOW_INCREMENT_MASK);
    lemma_slow_id_order(
        state.worker_id,
        first.last_increment,
        first.increment,
        second.last_increment,
        second.increment,
    );
}

} // verus!
