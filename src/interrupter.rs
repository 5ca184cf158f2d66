use vstd::prelude::*;
use std::sync::Arc;
use std::sync::atomic::AtomicBool;

verus! {

/// Relies on `Arc::clone`: the new handle points to the same allocation as `a`.
#[verifier::external_body]
fn share_flag(a: &Arc<AtomicBool>) -> (r: Arc<AtomicBool>)
    ensures
        r == *a,
{
    Arc::clone(a)
}

/// A shared cancellation flag: any holder may set it, once and for good, and the run polls it
/// at each epoch's end. Handles made by `share` refer to the same flag.
pub struct TrainingInterrupter {
    flag: Arc<AtomicBool>,
}

impl TrainingInterrupter {
    /// A flag that is not set.
    pub fn new() -> (r: TrainingInterrupter) {
        TrainingInterrupter { flag: Arc::new(AtomicBool::new(false)) }
    }

    /// Another handle on the same flag.
    pub fn share(&self) -> (r: TrainingInterrupter)
        ensures
            r == *self,
    {
        TrainingInterrupter { flag: share_flag(&self.flag) }
    }

    /// Sets the flag; nothing clears it.
    pub fn stop(&self) {
        self.flag.store(true, std::sync::atomic::Ordering::SeqCst);
    }

    /// Whether some holder has set the flag. Another thread may set it at any time, so
    /// nothing is promised of the answer.
    pub fn should_stop(&self) -> (r: bool) {
        self.flag.load(std::sync::atomic::Ordering::SeqCst)
    }
}

} // verus!
