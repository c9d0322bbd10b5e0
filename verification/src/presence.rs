//! Presence radar (LD2410C) readings: which reads are published to the rest of the
//! firmware. The firmware reads the frames and holds the signal.
use vstd::prelude::*;

verus! {

/// The reading to publish after one frame read: only a frame that was read and decoded
/// into target data is published; read errors and unknown frames are dropped.
pub fn presence_update<T, E>(frame: Result<Option<T>, E>) -> (r: Option<T>)
    ensures
        r == match frame {
            Ok(Some(data)) => Some(data),
            _ => None,
        },
{
    match frame {
        Ok(Some(data)) => Some(data),
        _ => None,
    }
}

} // verus!
