//! The calls that leave this crate: the random number generator, the
//! integer square root and the clock. Their contracts are believed, not
//! proved.

use vstd::prelude::*;
use num_integer::Roots;
use rand::Rng;

verus! {

/// A reading of the clock: whole seconds since the Unix epoch, and the
/// nanoseconds past that second.
#[derive(Clone, Copy, Debug, PartialEq, Eq, Structural)]
pub struct Timestamp {
    pub seconds: i64,
    pub nanoseconds: u32,
}

/// Calls `Rng::gen_range` of `rand` with the range `0..bound`, on the
/// generator that `thread_rng` hands out. The range must not be empty; the
/// value drawn lies in it.
#[verifier::external_body]
pub(crate) fn random_below(bound: u32) -> (value: u32)
    requires
        bound > 0,
    ensures
        value < bound,
{
    rand::thread_rng().gen_range(0..bound)
}

/// Calls `Roots::sqrt` of `num_integer` on a `u64`: the square root rounded
/// down, the `r` with `r * r <= n < (r + 1) * (r + 1)`.
#[verifier::external_body]
pub(crate) fn integer_sqrt(n: u64) -> (root: u64)
    ensures
        root * root <= n,
        n < (root + 1) * (root + 1),
{
    n.sqrt()
}

/// Reads the system clock with `SystemTime::now`, converts the reading with
/// chrono's `From<SystemTime>` for `DateTime<Utc>`, and takes it apart with
/// `timestamp` and `timestamp_subsec_nanos`. Nothing is claimed of the value.
#[verifier::external_body]
pub(crate) fn current_time() -> Timestamp {
    let now = chrono::DateTime::<chrono::Utc>::from(std::time::SystemTime::now());
    Timestamp { seconds: now.timestamp(), nanoseconds: now.timestamp_subsec_nanos() }
}

} // verus!
