//! Bit layouts of the two kinds of snowflake identifiers.
//!
//! A fast snowflake holds, from the most significant bit down, a 42-bit
//! timestamp, a 5-bit worker id, a 5-bit generator id and a 12-bit increment.
//! A slow snowflake holds a 42-bit timestamp, a 10-bit worker id and a 12-bit
//! increment. Timestamps count milliseconds since the custom epoch
//! 2026-08-01T00:00:00Z.
use vstd::prelude::*;
use vstd::arithmetic::div_mod::lemma_fundamental_div_mod_converse;

verus! {

/// The custom epoch, in milliseconds since the Unix epoch.
pub const MY_OWN_EPOCH_TIME: i64 = 1_785_542_400_000;

pub const TIME_BITS: u8 = 42;
pub const TIME_MASK: u64 = 0x3ff_ffff_ffff;
pub const TIME_SHIFT: u8 = 22;

pub const FAST_WORKER_BITS: u8 = 5;
pub const FAST_GENERATOR_BITS: u8 = 5;
pub const FAST_INCREMENT_BITS: u8 = 12;
pub const FAST_WORKER_MASK: u64 = 0x1f;
pub const FAST_GENERATOR_MASK: u64 = 0x1f;
pub const FAST_INCREMENT_MASK: u64 = 0xfff;
pub const FAST_WORKER_SHIFT: u8 = 17;
pub const FAST_GENERATOR_SHIFT: u8 = 12;

pub const SLOW_WORKER_BITS: u8 = 10;
pub const SLOW_INCREMENT_BITS: u8 = 12;
pub const SLOW_WORKER_MASK: u64 = 0x3ff;
pub const SLOW_INCREMENT_MASK: u64 = 0xfff;
pub const SLOW_WORKER_SHIFT: u8 = 12;

pub type FastSnowflake = u64;
pub type SlowSnowflake = u64;

/// The masks and shifts agree with the field widths, and each layout fills
/// the 64 bits of a snowflake.
pub proof fn lemma_layout_constants()
    ensures
        TIME_MASK == (1u64 << TIME_BITS) - 1,
        FAST_WORKER_MASK == (1u64 << FAST_WORKER_BITS) - 1,
        FAST_GENERATOR_MASK == (1u64 << FAST_GENERATOR_BITS) - 1,
        FAST_INCREMENT_MASK == (1u64 << FAST_INCREMENT_BITS) - 1,
        SLOW_WORKER_MASK == (1u64 << SLOW_WORKER_BITS) - 1,
        SLOW_INCREMENT_MASK == (1u64 << SLOW_INCREMENT_BITS) - 1,
        TIME_SHIFT == 64 - TIME_BITS,
        FAST_WORKER_SHIFT == FAST_GENERATOR_BITS + FAST_INCREMENT_BITS,
        FAST_GENERATOR_SHIFT == FAST_INCREMENT_BITS,
        SLOW_WORKER_SHIFT == SLOW_INCREMENT_BITS,
        TIME_BITS + FAST_WORKER_BITS + FAST_GENERATOR_BITS + FAST_INCREMENT_BITS == 64,
        TIME_BITS + SLOW_WORKER_BITS + SLOW_INCREMENT_BITS == 64,
{
    assert((1u64 << 42u8) - 1 == 0x3ff_ffff_ffff) by (bit_vector);
    assert((1u64 << 5u8) - 1 == 0x1f) by (bit_vector);
    assert((1u64 << 12u8) - 1 == 0xfff) by (bit_vector);
    assert((1u64 << 10u8) - 1 == 0x3ff) by (bit_vector);
}

/// Number of distinct timestamps a snowflake can hold (2^42).
pub open spec fn time_range() -> int {
    0x400_0000_0000
}

/// The fast snowflake with the given fields, each taken in range.
pub open spec fn fast_id(timestamp: int, worker_id: int, generator_id: int, increment: int) -> int {
    timestamp * 0x40_0000 + worker_id * 0x2_0000 + generator_id * 0x1000 + increment
}

/// The slow snowflake with the given fields, each taken in range.
pub open spec fn slow_id(timestamp: int, worker_id: int, increment: int) -> int {
    timestamp * 0x40_0000 + worker_id * 0x1000 + increment
}

/// Timestamp field of a fast snowflake (milliseconds since the custom epoch).
pub open spec fn fast_timestamp_of(snowflake: int) -> int {
    snowflake / 0x40_0000
}

pub open spec fn fast_worker_of(snowflake: int) -> int {
    (snowflake / 0x2_0000) % 0x20
}

pub open spec fn fast_generator_of(snowflake: int) -> int {
    (snowflake / 0x1000) % 0x20
}

pub open spec fn fast_increment_of(snowflake: int) -> int {
    snowflake % 0x1000
}

/// Timestamp field of a slow snowflake (milliseconds since the custom epoch).
pub open spec fn slow_timestamp_of(snowflake: int) -> int {
    snowflake / 0x40_0000
}

pub open spec fn slow_worker_of(snowflake: int) -> int {
    (snowflake / 0x1000) % 0x400
}

pub open spec fn slow_increment_of(snowflake: int) -> int {
    snowflake % 0x1000
}

/// Lexicographic order on (timestamp, increment) pairs.
pub open spec fn pair_lt(t1: int, i1: int, t2: int, i2: int) -> bool {
    t1 < t2 || (t1 == t2 && i1 < i2)
}

/// Packs the fields of a fast snowflake; each field is first cut to its width.
pub fn compose_fast_snowflake(timestamp_ms: u64, worker_id: u64, generator_id: u64, increment: u64) -> (snowflake: FastSnowflake)
    ensures
        snowflake == fast_id(
            timestamp_ms as int % 0x400_0000_0000,
            worker_id as int % 0x20,
            generator_id as int % 0x20,
            increment as int % 0x1000,
        ),
{
    let snowflake = ((timestamp_ms & TIME_MASK) << TIME_SHIFT) | ((worker_id & FAST_WORKER_MASK)
        << FAST_WORKER_SHIFT) | ((generator_id & FAST_GENERATOR_MASK) << FAST_GENERATOR_SHIFT) | (
    increment & FAST_INCREMENT_MASK);
    assert(snowflake == fast_id(
        timestamp_ms as int % 0x400_0000_0000,
        worker_id as int % 0x20,
        generator_id as int % 0x20,
        increment as int % 0x1000,
    )) by (bit_vector)
        requires
            snowflake == ((timestamp_ms & 0x3ff_ffff_ffff) << 22u8) | ((worker_id & 0x1f) << 17u8)
                | ((generator_id & 0x1f) << 12u8) | (increment & 0xfff),
    ;
    snowflake
}

/// Packs the fields of a slow snowflake; each field is first cut to its width.
pub fn compose_slow_snowflake(timestamp_ms: u64, worker_id: u64, increment: u64) -> (snowflake: SlowSnowflake)
    ensures
        snowflake == slow_id(
            timestamp_ms as int % 0x400_0000_0000,
            worker_id as int % 0x400,
            increment as int % 0x1000,
        ),
{
    let snowflake = ((timestamp_ms & TIME_MASK) << TIME_SHIFT) | ((worker_id & SLOW_WORKER_MASK)
        << SLOW_WORKER_SHIFT) | (increment & SLOW_INCREMENT_MASK);
    assert(snowflake == slow_id(
        timestamp_ms as int % 0x400_0000_0000,
        worker_id as int % 0x400,
        increment as int % 0x1000,
    )) by (bit_vector)
        requires
            snowflake == ((timestamp_ms & 0x3ff_ffff_ffff) << 22u8) | ((worker_id & 0x3ff) << 12u8)
                | (increment & 0xfff),
    ;
    snowflake
}

/// The fields of a fast snowflake; `timestamp_ms` is a Unix timestamp in milliseconds.
#[derive(Debug)]
pub struct FastSnowflakeDecode {
    pub timestamp_ms: u64,
    pub worker_id: u64,
    pub generator_id: u64,
    pub increment: u64,
}

/// Splits a fast snowflake into its fields. The timestamp is moved from the
/// custom epoch to the Unix epoch.
pub fn decode_fast_snowflake(snowflake: FastSnowflake) -> (decoded: FastSnowflakeDecode)
    ensures
        decoded.timestamp_ms == fast_timestamp_of(snowflake as int) + MY_OWN_EPOCH_TIME,
        decoded.worker_id == fast_worker_of(snowflake as int),
        decoded.generator_id == fast_generator_of(snowflake as int),
        decoded.increment == fast_increment_of(snowflake as int),
        decoded.worker_id <= FAST_WORKER_MASK,
        decoded.generator_id <= FAST_GENERATOR_MASK,
        decoded.increment <= FAST_INCREMENT_MASK,
        decoded.timestamp_ms >= MY_OWN_EPOCH_TIME,
{
    let mut rest = snowflake;
    let increment = rest & FAST_INCREMENT_MASK;
    rest = rest >> FAST_INCREMENT_BITS;
    let generator_id = rest & FAST_GENERATOR_MASK;
    rest = rest >> FAST_GENERATOR_BITS;
    let worker_id = rest & FAST_WORKER_MASK;
    rest = rest >> FAST_WORKER_BITS;
    let time = rest & TIME_MASK;
    assert(increment == snowflake % 0x1000 && generator_id == (snowflake / 0x1000) % 0x20
        && worker_id == (snowflake / 0x2_0000) % 0x20 && time == snowflake / 0x40_0000)
        by (bit_vector)
        requires
            increment == snowflake & 0xfff,
            generator_id == (snowflake >> 12u8) & 0x1f,
            worker_id == ((snowflake >> 12u8) >> 5u8) & 0x1f,
            time == (((snowflake >> 12u8) >> 5u8) >> 5u8) & 0x3ff_ffff_ffff,
    ;
    let timestamp_ms = time + MY_OWN_EPOCH_TIME as u64;
    FastSnowflakeDecode { timestamp_ms, worker_id, generator_id, increment }
}

/// The fields of a slow snowflake; `timestamp_ms` is a Unix timestamp in milliseconds.
#[derive(Debug)]
pub struct SlowSnowflakeDecode {
    pub timestamp_ms: u64,
    pub worker_id: u64,
    pub increment: u64,
}

/// Splits a slow snowflake into its fields. The timestamp is moved from the
/// custom epoch to the Unix epoch.
pub fn decode_slow_snowflake(snowflake: SlowSnowflake) -> (decoded: SlowSnowflakeDecode)
    ensures
        decoded.timestamp_ms == slow_timestamp_of(snowflake as int) + MY_OWN_EPOCH_TIME,
        decoded.worker_id == slow_worker_of(snowflake as int),
        decoded.increment == slow_increment_of(snowflake as int),
        decoded.worker_id <= SLOW_WORKER_MASK,
        decoded.increment <= SLOW_INCREMENT_MASK,
        decoded.timestamp_ms >= MY_OWN_EPOCH_TIME,
{
    let mut rest = snowflake;
    let increment = rest & SLOW_INCREMENT_MASK;
    rest = rest >> SLOW_INCREMENT_BITS;
    let worker_id = rest & SLOW_WORKER_MASK;
    rest = rest >> SLOW_WORKER_BITS;
    let time = rest & TIME_MASK;
    assert(increment == snowflake % 0x1000 && worker_id == (snowflake / 0x1000) % 0x400 && time
        == snowflake / 0x40_0000) by (bit_vector)
        requires
            increment == snowflake & 0xfff,
            worker_id == (snowflake >> 12u8) & 0x3ff,
            time == ((snowflake >> 12u8) >> 10u8) & 0x3ff_ffff_ffff,
    ;
    let timestamp_ms = time + MY_OWN_EPOCH_TIME as u64;
    SlowSnowflakeDecode { timestamp_ms, worker_id, increment }
}

/// Decoding a fast snowflake gives back the fields it was packed from, as
/// long as each field fits its width.
pub proof fn lemma_fast_fields_roundtrip(timestamp: u64, worker_id: u64, generator_id: u64, increment: u64)
    requires
        timestamp < time_range(),
        worker_id <= FAST_WORKER_MASK,
        generator_id <= FAST_GENERATOR_MASK,
        increment <= FAST_INCREMENT_MASK,
    ensures
        0 <= fast_id(timestamp as int, worker_id as int, generator_id as int, increment as int) <= u64::MAX,
        fast_timestamp_of(fast_id(timestamp as int, worker_id as int, generator_id as int, increment as int)) == timestamp,
        fast_worker_of(fast_id(timestamp as int, worker_id as int, generator_id as int, increment as int)) == worker_id,
        fast_generator_of(fast_id(timestamp as int, worker_id as int, generator_id as int, increment as int)) == generator_id,
        fast_increment_of(fast_id(timestamp as int, worker_id as int, generator_id as int, increment as int)) == increment,
{
    let s = fast_id(timestamp as int, worker_id as int, generator_id as int, increment as int);
    let low = worker_id * 0x2_0000 + generator_id * 0x1000 + increment;
    lemma_fundamental_div_mod_converse(s, 0x40_0000, timestamp as int, low);
    lemma_fundamental_div_mod_converse(s, 0x2_0000, timestamp * 0x20 + worker_id, generator_id * 0x1000 + increment);
    lemma_fundamental_div_mod_converse(timestamp * 0x20 + worker_id, 0x20, timestamp as int, worker_id as int);
    lemma_fundamental_div_mod_converse(s, 0x1000, timestamp * 0x400 + worker_id * 0x20 + generator_id, increment as int);
    lemma_fundamental_div_mod_converse(timestamp * 0x400 + worker_id * 0x20 + generator_id, 0x20, timestamp * 0x20 + worker_id, generator_id as int);
}

/// Every 64-bit value is the fast snowflake of its own decoded fields: the
/// layout uses all 64 bits, and the timestamp field always fits its width.
pub proof fn lemma_fast_snowflake_from_fields(snowflake: FastSnowflake)
    ensures
        fast_timestamp_of(snowflake as int) < time_range(),
        snowflake == fast_id(
            fast_timestamp_of(snowflake as int),
            fast_worker_of(snowflake as int),
            fast_generator_of(snowflake as int),
            fast_increment_of(snowflake as int),
        ),
{
    assert(snowflake / 0x40_0000 < 0x400_0000_0000 && snowflake == (snowflake / 0x40_0000) * 0x40_0000
        + ((snowflake / 0x2_0000) % 0x20) * 0x2_0000 + ((snowflake / 0x1000) % 0x20) * 0x1000
        + snowflake % 0x1000) by (bit_vector);
}

/// With the worker and generator fixed, fast snowflakes follow the
/// lexicographic order of their (timestamp, increment) pairs.
pub proof fn lemma_fast_id_order(
    worker_id: u64,
    generator_id: u64,
    timestamp1: u64,
    increment1: u64,
    timestamp2: u64,
    increment2: u64,
)
    requires
        worker_id <= FAST_WORKER_MASK,
        generator_id <= FAST_GENERATOR_MASK,
        increment1 <= FAST_INCREMENT_MASK,
        increment2 <= FAST_INCREMENT_MASK,
        pair_lt(timestamp1 as int, increment1 as int, timestamp2 as int, increment2 as int),
    ensures
        fast_id(timestamp1 as int, worker_id as int, generator_id as int, increment1 as int)
            < fast_id(timestamp2 as int, worker_id as int, generator_id as int, increment2 as int),
{
}

/// Fast snowflakes with different fields, each in range, are different.
pub proof fn lemma_fast_ids_distinct(
    timestamp1: u64,
    worker_id1: u64,
    generator_id1: u64,
    increment1: u64,
    timestamp2: u64,
    worker_id2: u64,
    generator_id2: u64,
    increment2: u64,
)
    requires
        timestamp1 < time_range(),
        timestamp2 < time_range(),
        worker_id1 <= FAST_WORKER_MASK,
        worker_id2 <= FAST_WORKER_MASK,
        generator_id1 <= FAST_GENERATOR_MASK,
        generator_id2 <= FAST_GENERATOR_MASK,
        increment1 <= FAST_INCREMENT_MASK,
        increment2 <= FAST_INCREMENT_MASK,
        (timestamp1, worker_id1, generator_id1, increment1) != (timestamp2, worker_id2, generator_id2, increment2),
    ensures
        fast_id(timestamp1 as int, worker_id1 as int, generator_id1 as int, increment1 as int)
            != fast_id(timestamp2 as int, worker_id2 as int, generator_id2 as int, increment2 as int),
{
    lemma_fast_fields_roundtrip(timestamp1, worker_id1, generator_id1, increment1);
    lemma_fast_fields_roundtrip(timestamp2, worker_id2, generator_id2, increment2);
}

/// Decoding a slow snowflake gives back the fields it was packed from, as
/// long as each field fits its width.
pub proof fn lemma_slow_fields_roundtrip(timestamp: u64, worker_id: u64, increment: u64)
    requires
        timestamp < time_range(),
        worker_id <= SLOW_WORKER_MASK,
        increment <= SLOW_INCREMENT_MASK,
    ensures
        0 <= slow_id(timestamp as int, worker_id as int, increment as int) <= u64::MAX,
        slow_timestamp_of(slow_id(timestamp as int, worker_id as int, increment as int)) == timestamp,
        slow_worker_of(slow_id(timestamp as int, worker_id as int, increment as int)) == worker_id,
        slow_increment_of(slow_id(timestamp as int, worker_id as int, increment as int)) == increment,
{
    let s = slow_id(timestamp as int, worker_id as int, increment as int);
    lemma_fundamental_div_mod_converse(s, 0x40_0000, timestamp as int, worker_id * 0x1000 + increment);
    lemma_fundamental_div_mod_converse(s, 0x1000, timestamp * 0x400 + worker_id, increment as int);
    lemma_fundamental_div_mod_converse(timestamp * 0x400 + worker_id, 0x400, timestamp as int, worker_id as int);
}

/// Every 64-bit value is the slow snowflake of its own decoded fields.
pub proof fn lemma_slow_snowflake_from_fields(snowflake: SlowSnowflake)
    ensures
        slow_timestamp_of(snowflake as int) < time_range(),
        snowflake == slow_id(
            slow_timestamp_of(snowflake as int),
            slow_worker_of(snowflake as int),
            slow_increment_of(snowflake as int),
        ),
{
    assert(snowflake / 0x40_0000 < 0x400_0000_0000 && snowflake == (snowflake / 0x40_0000) * 0x40_0000
        + ((snowflake / 0x1000) % 0x400) * 0x1000 + snowflake % 0x1000) by (bit_vector);
}

/// With the worker fixed, slow snowflakes follow the lexicographic order of
/// their (timestamp, increment) pairs.
pub proof fn lemma_slow_id_order(
    worker_id: u64,
    timestamp1: u64,
    increment1: u64,
    timestamp2: u64,
    increment2: u64,
)
    requires
        worker_id <= SLOW_WORKER_MASK,
        increment1 <= SLOW_INCREMENT_MASK,
        increment2 <= SLOW_INCREMENT_MASK,
        pair_lt(timestamp1 as int, increment1 as int, timestamp2 as int, increment2 as int),
    ensures
        slow_id(timestamp1 as int, worker_id as int, increment1 as int)
            < slow_id(timestamp2 as int, worker_id as int, increment2 as int),
{
}

/// Slow snowflakes with different fields, each in range, are different.
pub proof fn lemma_slow_ids_distinct(
    timestamp1: u64,
    worker_id1: u64,
    increment1: u64,
    timestamp2: u64,
    worker_id2: u64,
    increment2: u64,
)
    requires
        timestamp1 < time_range(),
        timestamp2 < time_range(),
        worker_id1 <= SLOW_WORKER_MASK,
        worker_id2 <= SLOW_WORKER_MASK,
        increment1 <= SLOW_INCREMENT_MASK,
        increment2 <= SLOW_INCREMENT_MASK,
        (timestamp1, worker_id1, increment1) != (timestamp2, worker_id2, increment2),
    ensures
        slow_id(timestamp1 as int, worker_id1 as int, increment1 as int)
            != slow_id(timestamp2 as int, worker_id2 as int, increment2 as int),
{
    lemma_slow_fields_roundtrip(timestamp1, worker_id1, increment1);
    lemma_slow_fields_roundtrip(timestamp2, worker_id2, increment2);
}

} // verus!
