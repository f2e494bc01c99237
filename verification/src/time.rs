//! Points in time.

use vstd::prelude::*;

verus! {

/// A point in time: whole seconds since the epoch, and nanoseconds within the
/// second.
#[derive(Debug, Clone, Copy, PartialEq, Eq, Structural)]
pub struct Timestamp {
    pub secs: i64,
    pub nanos: u32,
}

}
