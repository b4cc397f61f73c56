use std::collections::HashSet;
use std::sync::Mutex;

use snowflake::{
    create_fast_snowflake, create_generator, create_slow_snowflake, decode_fast_snowflake,
    decode_slow_snowflake, get_timestamp, incrementation_logic, init_slow, init_thread_fast,
    FastSnowflake, FastSnowflakeDecode, FastThreadSlot, GeneratorState, SlowGeneratorSlot,
    SlowSnowflake, SnowflakeError, FAST_GENERATOR_SHIFT, FAST_INCREMENT_MASK, FAST_WORKER_SHIFT,
    MY_OWN_EPOCH_TIME, SLOW_INCREMENT_MASK, SLOW_WORKER_SHIFT, TIME_MASK, TIME_SHIFT,
};

/// Retries while the generator's current millisecond has no increment left,
/// as a caller of the library does.
fn fast_snowflake(slot: &FastThreadSlot) -> FastSnowflake {
    loop {
        match create_fast_snowflake(slot) {
            Err(SnowflakeError::IncrementsExhausted) => std::hint::spin_loop(),
            result => return result.unwrap(),
        }
    }
}

fn slow_snowflake(slot: &Mutex<SlowGeneratorSlot>) -> SlowSnowflake {
    loop {
        match create_slow_snowflake(&mut slot.lock().unwrap()) {
            Err(SnowflakeError::IncrementsExhausted) => std::hint::spin_loop(),
            result => return result.unwrap(),
        }
    }
}

#[test]
fn decode_fast_extracts_correct_fields() {
    let timestamp = 0x123_4567_89AB & TIME_MASK;
    let worker_id = 0b10101;
    let generator_id = 0b11010;
    let increment = 0xABC;

    let snowflake = (timestamp << TIME_SHIFT)
        | (worker_id << FAST_WORKER_SHIFT)
        | (generator_id << FAST_GENERATOR_SHIFT)
        | increment;

    let decoded = decode_fast_snowflake(snowflake);

    assert_eq!(decoded.timestamp_ms - MY_OWN_EPOCH_TIME as u64, timestamp);
    assert_eq!(decoded.worker_id, worker_id);
    assert_eq!(decoded.generator_id, generator_id);
    assert_eq!(decoded.increment, increment);
}

#[test]
fn decode_slow_extracts_correct_fields() {
    let timestamp = 0x123_4567_89AB & TIME_MASK;
    let worker_id = 0b10_1010_1010;
    let increment = 0xABC;

    let snowflake = (timestamp << TIME_SHIFT) | (worker_id << SLOW_WORKER_SHIFT) | increment;

    let decoded = decode_slow_snowflake(snowflake);

    assert_eq!(decoded.timestamp_ms - MY_OWN_EPOCH_TIME as u64, timestamp);
    assert_eq!(decoded.worker_id, worker_id);
    assert_eq!(decoded.increment, increment);
}

#[test]
fn fast_returns_error_when_thread_is_not_initialized() {
    let slot = FastThreadSlot::new();
    let result = matches!(
        create_fast_snowflake(&slot),
        Err(SnowflakeError::ThreadNotInitProperly)
    );

    assert!(result);
}

#[test]
fn increment_resets_when_timestamp_moves_forward() {
    let mut state = GeneratorState {
        worker_id: 1,
        generator_id: 1,
        last_increment: 100,
        increment: 123,
    };

    let mut timestamp = 101;

    incrementation_logic(&mut state, &mut timestamp, FAST_INCREMENT_MASK);

    assert_eq!(timestamp, 101);
    assert_eq!(state.last_increment, 101);
    assert_eq!(state.increment, 0);
}

#[test]
fn increment_uses_last_timestamp_when_clock_moves_backwards() {
    let mut state = GeneratorState {
        worker_id: 1,
        generator_id: 1,
        last_increment: 100,
        increment: 7,
    };

    let mut timestamp = 99;

    incrementation_logic(&mut state, &mut timestamp, FAST_INCREMENT_MASK);

    assert_eq!(timestamp, 100);
    assert_eq!(state.last_increment, 100);
    assert_eq!(state.increment, 8);
}

#[test]
fn increment_increases_within_same_millisecond() {
    let mut state = GeneratorState {
        worker_id: 1,
        generator_id: 1,
        last_increment: 100,
        increment: 15,
    };

    let mut timestamp = 100;

    incrementation_logic(&mut state, &mut timestamp, FAST_INCREMENT_MASK);

    assert_eq!(timestamp, 100);
    assert_eq!(state.last_increment, 100);
    assert_eq!(state.increment, 16);
}

#[test]
fn increment_overflow_waits_for_next_millisecond() {
    let timestamp = get_timestamp().unwrap();

    let mut state = GeneratorState {
        worker_id: 1,
        generator_id: 1,
        last_increment: timestamp,
        increment: FAST_INCREMENT_MASK,
    };

    let mut new_timestamp = timestamp;

    // The increments of this millisecond are used up: nothing is issued, and
    // the caller waits for the clock to move past it before trying again.
    while !incrementation_logic(&mut state, &mut new_timestamp, FAST_INCREMENT_MASK) {
        while get_timestamp().unwrap() <= state.last_increment {
            std::hint::spin_loop();
        }
        new_timestamp = get_timestamp().unwrap();
    }

    assert!(
        new_timestamp > timestamp,
        "timestamp should move to the next millisecond"
    );

    assert_eq!(state.last_increment, new_timestamp);
    assert_eq!(state.increment, 0);
}

#[test]
fn fast_snowflakes_are_strictly_increasing_on_single_thread() {
    let worker_id = 17;
    let generator_id = 9;

    let generator = create_generator(worker_id, generator_id);
    let mut slot = FastThreadSlot::new();
    init_thread_fast(&mut slot, &generator);

    let mut previous_id = None;
    let mut previous_decoded: Option<FastSnowflakeDecode> = None;

    for _ in 0..10_000 {
        let snowflake = fast_snowflake(&slot);
        let decoded = decode_fast_snowflake(snowflake);

        assert_eq!(decoded.worker_id, worker_id);
        assert_eq!(decoded.generator_id, generator_id);
        assert!(decoded.timestamp_ms > 0);
        assert!(decoded.increment <= FAST_INCREMENT_MASK);

        let reconstructed = ((decoded.timestamp_ms - MY_OWN_EPOCH_TIME as u64) << TIME_SHIFT)
            | (decoded.worker_id << FAST_WORKER_SHIFT)
            | (decoded.generator_id << FAST_GENERATOR_SHIFT)
            | decoded.increment;

        assert_eq!(reconstructed, snowflake);

        if let Some(previous_id) = previous_id {
            assert!(
                snowflake > previous_id,
                "snowflakes should be strictly increasing"
            );
        }

        if let Some(previous) = previous_decoded {
            assert!(
                decoded.timestamp_ms >= previous.timestamp_ms,
                "timestamp must never move backwards"
            );

            if decoded.timestamp_ms == previous.timestamp_ms {
                assert_eq!(
                    decoded.increment,
                    previous.increment + 1,
                    "increment should increase inside the same millisecond"
                );
            } else {
                assert_eq!(
                    decoded.increment, 0,
                    "increment should reset after timestamp changes"
                );
            }
        }

        previous_id = Some(snowflake);
        previous_decoded = Some(decoded);
    }
}

// Threads are not available to these tests: the generators of the
// "threads" below are driven in turn from one thread.
#[test]
fn fast_snowflakes_are_unique_across_threads_with_unique_generator_ids() {
    const THREADS: usize = 8;
    const IDS_PER_THREAD: usize = 2_000;

    let worker_id = 3;

    let slots: Vec<FastThreadSlot> = (0..THREADS)
        .map(|generator_id| {
            let generator = create_generator(worker_id, generator_id as u64);
            let mut slot = FastThreadSlot::new();
            init_thread_fast(&mut slot, &generator);
            slot
        })
        .collect();

    let mut all_ids = Vec::with_capacity(THREADS * IDS_PER_THREAD);

    for _ in 0..IDS_PER_THREAD {
        for (generator_id, slot) in slots.iter().enumerate() {
            let snowflake = fast_snowflake(slot);

            let decoded = decode_fast_snowflake(snowflake);

            assert_eq!(decoded.worker_id, worker_id);
            assert_eq!(decoded.generator_id, generator_id as u64);

            all_ids.push(snowflake);
        }
    }

    let unique: HashSet<_> = all_ids.iter().copied().collect();

    assert_eq!(
        unique.len(),
        all_ids.len(),
        "duplicate FAST snowflakes detected"
    );
}

#[test]
fn slow_snowflakes_are_unique_under_concurrency() {
    const TASKS: usize = 8;
    const IDS_PER_TASK: usize = 2_000;

    let worker_id = 777;

    let slot = Mutex::new(SlowGeneratorSlot::new());
    init_slow(&mut slot.lock().unwrap(), worker_id);

    let mut all_ids = Vec::with_capacity(TASKS * IDS_PER_TASK);

    for _ in 0..IDS_PER_TASK {
        for _ in 0..TASKS {
            all_ids.push(slow_snowflake(&slot));
        }
    }

    assert_eq!(all_ids.len(), TASKS * IDS_PER_TASK);

    let unique: HashSet<_> = all_ids.iter().copied().collect();

    assert_eq!(
        unique.len(),
        all_ids.len(),
        "duplicate SLOW snowflakes detected"
    );

    for snowflake in all_ids {
        let decoded = decode_slow_snowflake(snowflake);

        assert_eq!(decoded.worker_id, worker_id);
        assert!(decoded.increment <= SLOW_INCREMENT_MASK);
        assert!(decoded.timestamp_ms > 0);
    }
}
