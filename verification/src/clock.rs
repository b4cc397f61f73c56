//! Reading the clock, in milliseconds since the custom epoch.
use vstd::prelude::*;
use crate::error::SnowflakeError;
use crate::layout::MY_OWN_EPOCH_TIME;

verus! {

/// Reads the system clock with std's `SystemTime::now()`, converts it with
/// chrono's `From<SystemTime> for DateTime<Utc>` and takes
/// `DateTime::timestamp_millis`: milliseconds since the Unix epoch, negative
/// for a clock before 1970. Nothing is stated of the result: it is the
/// current time. The conversion panics only for a clock outside the range of
/// years chrono represents (about 262,000 years either side of year 0).
#[verifier::external_body]
fn unix_time_millis() -> i64 {
    chrono::DateTime::<chrono::Utc>::from(std::time::SystemTime::now()).timestamp_millis()
}

/// Moves a Unix timestamp in milliseconds to the custom epoch; times that are
/// not after the custom epoch are refused.
pub fn timestamp_since_epoch(unix_time_ms: i64) -> (result: Result<u64, SnowflakeError>)
    ensures
        unix_time_ms > MY_OWN_EPOCH_TIME ==> result == Ok::<u64, SnowflakeError>(
            (unix_time_ms - MY_OWN_EPOCH_TIME) as u64,
        ),
        unix_time_ms <= MY_OWN_EPOCH_TIME ==> result == Err::<u64, SnowflakeError>(
            SnowflakeError::ClockBeforeEpoch,
        ),
{
    if unix_time_ms <= MY_OWN_EPOCH_TIME {
        Err(SnowflakeError::ClockBeforeEpoch)
    } else {
        Ok((unix_time_ms - MY_OWN_EPOCH_TIME) as u64)
    }
}

/// The current time in milliseconds since the custom epoch.
pub fn get_timestamp() -> (result: Result<u64, SnowflakeError>)
    ensures
        result matches Ok(timestamp_ms) ==> 0 < timestamp_ms <= i64::MAX - MY_OWN_EPOCH_TIME,
        result matches Err(e) ==> e == SnowflakeError::ClockBeforeEpoch,
{
    timestamp_since_epoch(unix_time_millis())
}

} // verus!
