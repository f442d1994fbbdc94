//! The creation timestamp, set once by the server when a record is
//! created and never mutated afterwards.

use vstd::prelude::*;

verus! {

/// A point in time: whole seconds since the Unix epoch and the
/// nanosecond remainder.
#[derive(PartialEq, Eq, Structural, Clone, Copy, Debug)]
pub struct Timestamp {
    pub seconds: i64,
    pub nanos: i32,
}

/// Relies on std's `SystemTime::now` and `duration_since(UNIX_EPOCH)`:
/// `subsec_nanos` is documented to be below one billion.  A clock that
/// stands before the epoch yields the epoch itself.
#[verifier::external_body]
fn unix_now() -> (r: (i64, i32))
    ensures
        0 <= r.1 < 1_000_000_000,
{
    match std::time::SystemTime::now().duration_since(std::time::SystemTime::UNIX_EPOCH) {
        Ok(d) => (d.as_secs() as i64, d.subsec_nanos() as i32),
        Err(_) => (0, 0),
    }
}

/// The current time as a creation timestamp.  The clock decides the
/// value; only the nanosecond field's range is promised.
pub fn get_timestamp() -> (r: Timestamp)
    ensures
        0 <= r.nanos < 1_000_000_000,
{
    let (seconds, nanos) = unix_now();
    Timestamp { seconds, nanos }
}

} // verus!
