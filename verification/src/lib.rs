//! Discord- and Twitter-style snowflake identifiers.
//!
//! Fast snowflakes come from many generators per worker, each shared by a
//! group of threads; slow snowflakes come from a single generator per worker.
pub mod clock;
pub mod error;
pub mod generator;
pub mod layout;
pub mod runs;
pub mod state;
pub mod text;

pub use clock::{get_timestamp, timestamp_since_epoch};
pub use error::SnowflakeError;
pub use generator::{
    create_fast_snowflake, create_fast_snowflake_at, create_generator, create_slow_snowflake,
    create_slow_snowflake_at, init_slow, init_thread_fast,
    FastGenerator, FastIds, FastThreadSlot, SlowGeneratorSlot,
};
pub use layout::{
    compose_fast_snowflake, compose_slow_snowflake, decode_fast_snowflake, decode_slow_snowflake,
    FastSnowflake, FastSnowflakeDecode, SlowSnowflake, SlowSnowflakeDecode, FAST_GENERATOR_BITS,
    FAST_GENERATOR_MASK, FAST_GENERATOR_SHIFT, FAST_INCREMENT_BITS, FAST_INCREMENT_MASK,
    FAST_WORKER_BITS, FAST_WORKER_MASK, FAST_WORKER_SHIFT, MY_OWN_EPOCH_TIME, SLOW_INCREMENT_BITS,
    SLOW_INCREMENT_MASK, SLOW_WORKER_BITS, SLOW_WORKER_MASK, SLOW_WORKER_SHIFT, TIME_BITS, TIME_MASK,
    TIME_SHIFT,
};
pub use state::{incrementation_logic, next_fast_snowflake, next_slow_snowflake, GeneratorState};
pub use text::{
    format_snowflake_text, parse_snowflake_text, read_snowflake_text, snowflake_text_is_valid,
};
