use snowflake::{
    compose_fast_snowflake, compose_slow_snowflake, create_fast_snowflake, create_generator,
    create_slow_snowflake, decode_fast_snowflake, decode_slow_snowflake, format_snowflake_text,
    get_timestamp, incrementation_logic, init_slow, init_thread_fast, next_fast_snowflake,
    next_slow_snowflake, parse_snowflake_text, read_snowflake_text, snowflake_text_is_valid, timestamp_since_epoch, FastThreadSlot,
    GeneratorState, SlowGeneratorSlot, SnowflakeError, FAST_INCREMENT_MASK, MY_OWN_EPOCH_TIME,
    SLOW_INCREMENT_MASK,
};

fn state(worker_id: u64, generator_id: u64, last_increment: u64, increment: u64) -> GeneratorState {
    GeneratorState { worker_id, generator_id, last_increment, increment }
}

#[test]
fn compose_fast_places_each_field() {
    assert_eq!(compose_fast_snowflake(100, 3, 4, 6), 419_840_006);
    assert_eq!(compose_fast_snowflake(0, 0, 0, 0), 0);
    assert_eq!(compose_fast_snowflake(1, 0, 0, 0), 1 << 22);
    assert_eq!(compose_fast_snowflake(0, 1, 0, 0), 1 << 17);
    assert_eq!(compose_fast_snowflake(0, 0, 1, 0), 1 << 12);
    assert_eq!(compose_fast_snowflake(0, 0, 0, 1), 1);
}

#[test]
fn compose_cuts_fields_to_their_width() {
    assert_eq!(compose_fast_snowflake(1 << 42, 32, 33, 4096), 1 << 12);
    assert_eq!(compose_slow_snowflake(1 << 42, 1024, 4097), 1);
    assert_eq!(compose_fast_snowflake(u64::MAX, u64::MAX, u64::MAX, u64::MAX), u64::MAX);
    assert_eq!(compose_slow_snowflake(u64::MAX, u64::MAX, u64::MAX), u64::MAX);
}

#[test]
fn compose_slow_places_each_field() {
    assert_eq!(compose_slow_snowflake(100, 777, 6), 100 * (1 << 22) + 777 * (1 << 12) + 6);
    assert_eq!(compose_slow_snowflake(0, 1, 0), 1 << 12);
}

#[test]
fn decode_gives_back_composed_fields() {
    let decoded = decode_fast_snowflake(compose_fast_snowflake(123_456, 31, 7, 4095));
    assert_eq!(decoded.timestamp_ms, 123_456 + MY_OWN_EPOCH_TIME as u64);
    assert_eq!(decoded.worker_id, 31);
    assert_eq!(decoded.generator_id, 7);
    assert_eq!(decoded.increment, 4095);

    let decoded = decode_slow_snowflake(compose_slow_snowflake(123_456, 1023, 17));
    assert_eq!(decoded.timestamp_ms, 123_456 + MY_OWN_EPOCH_TIME as u64);
    assert_eq!(decoded.worker_id, 1023);
    assert_eq!(decoded.increment, 17);
}

#[test]
fn compose_of_decoded_fields_is_the_snowflake() {
    for snowflake in [0u64, 1, 0xdead_beef_cafe_f00d, u64::MAX, 1 << 63] {
        let d = decode_fast_snowflake(snowflake);
        let timestamp = d.timestamp_ms - MY_OWN_EPOCH_TIME as u64;
        assert_eq!(compose_fast_snowflake(timestamp, d.worker_id, d.generator_id, d.increment), snowflake);
        let d = decode_slow_snowflake(snowflake);
        let timestamp = d.timestamp_ms - MY_OWN_EPOCH_TIME as u64;
        assert_eq!(compose_slow_snowflake(timestamp, d.worker_id, d.increment), snowflake);
    }
}

#[test]
fn fast_ids_follow_timestamp_then_increment() {
    assert!(compose_fast_snowflake(10, 3, 4, 4095) < compose_fast_snowflake(11, 3, 4, 0));
    assert!(compose_fast_snowflake(10, 3, 4, 5) < compose_fast_snowflake(10, 3, 4, 6));
    assert_ne!(compose_fast_snowflake(10, 3, 4, 5), compose_fast_snowflake(10, 3, 5, 5));
    assert_ne!(compose_fast_snowflake(10, 3, 4, 5), compose_fast_snowflake(10, 2, 4, 5));
}

#[test]
fn slow_ids_follow_timestamp_then_increment() {
    assert!(compose_slow_snowflake(10, 5, 4095) < compose_slow_snowflake(11, 5, 0));
    assert!(compose_slow_snowflake(10, 5, 5) < compose_slow_snowflake(10, 5, 6));
    assert_ne!(compose_slow_snowflake(10, 5, 5), compose_slow_snowflake(10, 6, 5));
}

#[test]
fn incrementation_stops_when_increments_are_used_up() {
    let mut s = state(1, 1, 100, FAST_INCREMENT_MASK);
    let mut timestamp = 100;
    assert!(!incrementation_logic(&mut s, &mut timestamp, FAST_INCREMENT_MASK));
    assert_eq!(timestamp, 100);
    assert_eq!(s.last_increment, 100);
    assert_eq!(s.increment, FAST_INCREMENT_MASK);

    let mut timestamp = 101;
    assert!(incrementation_logic(&mut s, &mut timestamp, FAST_INCREMENT_MASK));
    assert_eq!(s.last_increment, 101);
    assert_eq!(s.increment, 0);
}

#[test]
fn incrementation_saturates_at_u64_max() {
    let mut s = state(1, 1, 100, u64::MAX);
    let mut timestamp = 100;
    assert!(incrementation_logic(&mut s, &mut timestamp, u64::MAX));
    assert_eq!(s.increment, u64::MAX);
}

#[test]
fn next_fast_snowflake_issues_exact_ids() {
    let mut s = state(3, 4, 100, 5);
    assert_eq!(next_fast_snowflake(&mut s, 100), Ok(419_840_006));
    assert_eq!(s.increment, 6);
    assert_eq!(next_fast_snowflake(&mut s, 90), Ok(419_840_007));
    assert_eq!(next_fast_snowflake(&mut s, 101), Ok(compose_fast_snowflake(101, 3, 4, 0)));
    assert_eq!(s.last_increment, 101);
    assert_eq!(s.increment, 0);
}

#[test]
fn next_fast_snowflake_reports_used_up_increments() {
    let mut s = state(3, 4, 100, FAST_INCREMENT_MASK);
    assert_eq!(next_fast_snowflake(&mut s, 100), Err(SnowflakeError::IncrementsExhausted));
    assert_eq!(s.last_increment, 100);
    assert_eq!(s.increment, FAST_INCREMENT_MASK);
}

#[test]
fn next_slow_snowflake_issues_exact_ids() {
    let mut s = state(777, 0, 100, 0);
    assert_eq!(next_slow_snowflake(&mut s, 100), Ok(compose_slow_snowflake(100, 777, 1)));
    let mut s = state(777, 0, 100, SLOW_INCREMENT_MASK);
    assert_eq!(next_slow_snowflake(&mut s, 100), Err(SnowflakeError::IncrementsExhausted));
    assert_eq!(next_slow_snowflake(&mut s, 200), Ok(compose_slow_snowflake(200, 777, 0)));
}

#[test]
fn timestamps_before_the_epoch_are_refused() {
    assert_eq!(timestamp_since_epoch(MY_OWN_EPOCH_TIME), Err(SnowflakeError::ClockBeforeEpoch));
    assert_eq!(timestamp_since_epoch(0), Err(SnowflakeError::ClockBeforeEpoch));
    assert_eq!(timestamp_since_epoch(i64::MIN), Err(SnowflakeError::ClockBeforeEpoch));
    assert_eq!(timestamp_since_epoch(MY_OWN_EPOCH_TIME + 1), Ok(1));
    assert_eq!(timestamp_since_epoch(i64::MAX), Ok((i64::MAX - MY_OWN_EPOCH_TIME) as u64));
}

#[test]
fn current_timestamp_is_after_the_epoch() {
    let timestamp = get_timestamp().unwrap();
    assert!(timestamp > 0);
}

#[test]
fn slow_snowflake_needs_initialisation() {
    let mut slot = SlowGeneratorSlot::new();
    assert!(!slot.is_initialized());
    assert_eq!(create_slow_snowflake(&mut slot), Err(SnowflakeError::NotInitProperly));
    init_slow(&mut slot, 10);
    assert!(slot.is_initialized());
    let snowflake = create_slow_snowflake(&mut slot).unwrap();
    assert_eq!(decode_slow_snowflake(snowflake).worker_id, 10);
}

#[test]
fn init_slow_again_changes_only_the_worker() {
    let mut slot = SlowGeneratorSlot::new();
    init_slow(&mut slot, 10);
    let first = create_slow_snowflake(&mut slot).unwrap();
    init_slow(&mut slot, 11);
    let second = loop {
        match create_slow_snowflake(&mut slot) {
            Err(SnowflakeError::IncrementsExhausted) => continue,
            result => break result.unwrap(),
        }
    };
    let (a, b) = (decode_slow_snowflake(first), decode_slow_snowflake(second));
    assert_eq!(b.worker_id, 11);
    assert!((b.timestamp_ms, b.increment) > (a.timestamp_ms, a.increment));
}

#[test]
fn fast_generator_stamps_its_ids() {
    let generator = create_generator(31, 30);
    let mut slot = FastThreadSlot::new();
    assert!(!slot.is_initialized());
    init_thread_fast(&mut slot, &generator);
    assert!(slot.is_initialized());
    let decoded = decode_fast_snowflake(create_fast_snowflake(&slot).unwrap());
    assert_eq!(decoded.worker_id, 31);
    assert_eq!(decoded.generator_id, 30);
}

#[test]
fn threads_sharing_a_generator_get_increasing_ids() {
    let generator = create_generator(2, 3);
    let mut first = FastThreadSlot::new();
    let mut second = FastThreadSlot::new();
    init_thread_fast(&mut first, &generator);
    init_thread_fast(&mut second, &generator);
    let mut previous = 0;
    for i in 0..2_000 {
        let slot = if i % 2 == 0 { &first } else { &second };
        let snowflake = loop {
            match create_fast_snowflake(slot) {
                Err(SnowflakeError::IncrementsExhausted) => continue,
                result => break result.unwrap(),
            }
        };
        assert!(snowflake > previous);
        previous = snowflake;
    }
}

#[test]
fn text_accepts_digits_with_optional_plus() {
    assert_eq!(parse_snowflake_text(b"7499374726037504"), Some(7_499_374_726_037_504));
    assert_eq!(parse_snowflake_text(b"+42"), Some(42));
    assert_eq!(parse_snowflake_text(b"0"), Some(0));
    assert_eq!(parse_snowflake_text(b"007"), Some(7));
    assert_eq!(parse_snowflake_text(b"18446744073709551615"), Some(u64::MAX));
}

#[test]
fn text_refuses_everything_else() {
    assert_eq!(parse_snowflake_text(b"definitely-not-a-snowflake"), None);
    assert_eq!(parse_snowflake_text(b"18446744073709551616"), None);
    assert_eq!(parse_snowflake_text(b"99999999999999999999x"), None);
    assert_eq!(parse_snowflake_text(b""), None);
    assert_eq!(parse_snowflake_text(b"+"), None);
    assert_eq!(parse_snowflake_text(b"++1"), None);
    assert_eq!(parse_snowflake_text(b"-1"), None);
    assert_eq!(parse_snowflake_text(b" 1"), None);
    assert_eq!(parse_snowflake_text(b"1 "), None);
}

#[test]
fn text_is_written_as_shortest_digits() {
    assert_eq!(format_snowflake_text(0), b"0".to_vec());
    assert_eq!(format_snowflake_text(42), b"42".to_vec());
    assert_eq!(format_snowflake_text(u64::MAX), b"18446744073709551615".to_vec());
    assert_eq!(format_snowflake_text(7_499_374_724_685_824), b"7499374724685824".to_vec());
}

#[test]
fn text_roundtrip() {
    for value in [0u64, 9, 10, 42, 7_499_374_726_037_504, u64::MAX - 1, u64::MAX] {
        assert_eq!(parse_snowflake_text(&format_snowflake_text(value)), Some(value));
    }
    let parsed = parse_snowflake_text(b"+42").unwrap();
    assert_eq!(format_snowflake_text(parsed), b"42".to_vec());
}

#[test]
fn new_state_has_issued_nothing() {
    let s = GeneratorState::new(5, 6);
    assert_eq!((s.worker_id, s.generator_id, s.last_increment, s.increment), (5, 6, 0, 0));
}

#[test]
fn sequence_of_slow_snowflakes_across_a_new_worker_is_distinct() {
    let mut slot = SlowGeneratorSlot::new();
    init_slow(&mut slot, 1);
    let mut ids = Vec::new();
    for round in 0..2 {
        if round == 1 {
            init_slow(&mut slot, 2);
        }
        for _ in 0..5_000 {
            match create_slow_snowflake(&mut slot) {
                Err(SnowflakeError::IncrementsExhausted) => continue,
                result => ids.push(result.unwrap()),
            }
        }
        if round == 1 {
            assert_eq!(decode_slow_snowflake(*ids.last().unwrap()).worker_id, 2);
        }
    }
    let unique: std::collections::HashSet<_> = ids.iter().copied().collect();
    assert_eq!(unique.len(), ids.len());
}

#[test]
fn text_validity_matches_parsing() {
    for text in [&b"+42"[..], b"0", b"18446744073709551615", b"18446744073709551616", b"", b"+", b"x1", b"-1"] {
        assert_eq!(snowflake_text_is_valid(text), parse_snowflake_text(text).is_some());
    }
    assert!(!snowflake_text_is_valid(b"definitely-not-a-snowflake"));
    assert!(!snowflake_text_is_valid(b"18446744073709551616"));
}

#[test]
fn valid_text_reads_its_value() {
    assert_eq!(read_snowflake_text(b"+42"), 42);
    assert_eq!(read_snowflake_text(b"18446744073709551615"), u64::MAX);
    assert_eq!(read_snowflake_text(b"7499374724685824"), 7_499_374_724_685_824);
}
