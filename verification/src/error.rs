use vstd::prelude::*;

verus! {

/// Why no snowflake could be created.
#[derive(Debug, Clone, Copy, PartialEq, Eq, Structural)]
pub enum SnowflakeError {
    /// The calling thread has no fast generator.
    ThreadNotInitProperly,
    /// The slow generator was never initialised.
    NotInitProperly,
    /// The clock reads a time that is not after the custom epoch.
    ClockBeforeEpoch,
    /// Every increment of the generator's last millisecond is used up; a new
    /// snowflake can be made once the clock has moved past that millisecond.
    IncrementsExhausted,
}

} // verus!
