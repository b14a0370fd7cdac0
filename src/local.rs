//! The host's offset from UTC, as the `time` crate reads it.
use vstd::prelude::*;
use crate::datetime::{MAX_OFFSET, clamp_offset};

verus! {

#[verifier::external_type_specification]
#[verifier::external_body]
pub struct ExUtcOffset(time::UtcOffset);

#[verifier::external_type_specification]
#[verifier::external_body]
pub struct ExIndeterminateOffset(time::error::IndeterminateOffset);

/// Relies on `time::UtcOffset::current_local_offset`: the host's offset now, or an error
/// where it cannot be read safely; nothing is promised of which.
pub assume_specification[ time::UtcOffset::current_local_offset ]() -> Result<
    time::UtcOffset,
    time::error::IndeterminateOffset,
>;

/// Relies on `time::UtcOffset::whole_seconds`: hours, minutes and seconds of an offset
/// are each bounded (at most 25, 59 and 59), so the total lies within 93599 seconds.
pub assume_specification[ time::UtcOffset::whole_seconds ](o: time::UtcOffset) -> (r: i32)
    ensures
        -93599 <= r <= 93599,
;

/// The offset taken from what the host reports: its seconds limited to a day, or 0 where
/// the host could not tell.
pub fn host_offset(o: Option<i32>) -> (r: i32)
    ensures
        r == match o {
            Some(s) => clamp_offset(s as int),
            None => 0,
        },
{
    match o {
        Some(s) => {
            if s > MAX_OFFSET {
                MAX_OFFSET
            } else if s < -MAX_OFFSET {
                -MAX_OFFSET
            } else {
                s
            }
        },
        None => 0,
    }
}

/// The host's offset from UTC in seconds, limited to a day; 0 where it cannot be read.
pub fn offset_sec() -> (r: i32)
    ensures
        -MAX_OFFSET <= r <= MAX_OFFSET,
        r == 0 || exists|s: i32| -93599 <= s <= 93599 && r == clamp_offset(s as int),
{
    let reported = match time::UtcOffset::current_local_offset() {
        Ok(o) => Some(o.whole_seconds()),
        Err(_) => None,
    };
    host_offset(reported)
}

} // verus!
