//! Small pieces shared by the pool, the balancer and the connection
//! processor.

use std::sync::atomic::AtomicUsize;
use std::sync::atomic::Ordering;
use vstd::prelude::*;

verus! {

/// How a wait that races a cancellation signal ended.
#[derive(PartialEq, Eq)]
pub enum CancelResult<T> {
    /// The signal came first; what was waited for is abandoned.
    Cancelled,
    /// What was waited for came first, with this result.
    Success(T),
}

/// One step down for a counter that never goes below zero: the value below
/// `count`, or nothing where `count` is already zero.
pub open spec fn spec_retreat(count: usize) -> Option<usize> {
    if count > 0 {
        Some((count - 1) as usize)
    } else {
        None
    }
}

/// The value that a counter at `count` has after it stepped down, with zero
/// as its floor.
pub open spec fn retreated(count: nat) -> nat {
    if count > 0 {
        (count - 1) as nat
    } else {
        0
    }
}

#[verifier::when_used_as_spec(spec_retreat)]
pub fn retreat(count: usize) -> (r: Option<usize>)
    ensures
        r == spec_retreat(count),
        r matches Some(next) ==> next == retreated(count as nat),
        r is None ==> retreated(count as nat) == count,
{
    if count > 0 {
        Some(count - 1)
    } else {
        None
    }
}

/// `AtomicUsize::fetch_update` with `retreat` as the update: the counter steps
/// down by one unless it stands at zero. Other threads share the counter, so
/// nothing is said of the value it holds afterwards.
#[verifier::external_body]
pub(crate) fn step_down(counter: &AtomicUsize) {
    let _ = counter.fetch_update(Ordering::Relaxed, Ordering::Relaxed, |count| retreat(count));
}

} // verus!
