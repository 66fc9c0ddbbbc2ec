//! Per-servo counting of consecutive missed replies.
use std::collections::HashMap;

use vstd::prelude::*;

use crate::error::{ServoResult, SmartServoError};
use crate::model::ServoId;

verus! {

broadcast use vstd::std_specs::hash::group_hash_axioms;

/// Per-servo consecutive reply-loss tracker.
///
/// `record_ok` resets a servo's count after a reply; `record_miss` counts a
/// missed reply and fails with `ConsecutiveLoss` once the count reaches the
/// threshold. A threshold of 0 disables the failure.
#[derive(Debug, Clone)]
pub struct LossTracker {
    counts: HashMap<ServoId, u32>,
    threshold: u32,
}

impl View for LossTracker {
    /// The recorded counts and the threshold.
    type V = (Map<ServoId, u32>, u32);

    closed spec fn view(&self) -> (Map<ServoId, u32>, u32) {
        (self.counts@, self.threshold)
    }
}

/// The recorded counts of a tracker and its threshold.
pub type LossView = (Map<ServoId, u32>, u32);

/// Consecutive misses recorded for `id` (0 when none was ever recorded).
pub open spec fn count_in(v: LossView, id: ServoId) -> u32 {
    if v.0.contains_key(id) {
        v.0[id]
    } else {
        0
    }
}

/// What recording a miss of `id` returns: the loss error once the new count
/// reaches a non-zero threshold.
pub open spec fn miss_outcome_in(v: LossView, id: ServoId) -> ServoResult<()> {
    if v.1 > 0 && count_in(v, id) + 1 >= v.1 {
        Err(SmartServoError::ConsecutiveLoss { id, count: (count_in(v, id) + 1) as u32 })
    } else {
        Ok(())
    }
}

/// The tracker after a missed reply of `id`.
pub open spec fn after_miss_in(v: LossView, id: ServoId) -> LossView {
    (v.0.insert(id, (count_in(v, id) + 1) as u32), v.1)
}

/// The tracker after a reply of `id`.
pub open spec fn after_ok_in(v: LossView, id: ServoId) -> LossView {
    (v.0.insert(id, 0), v.1)
}

impl LossTracker {
    /// The threshold at which `record_miss` fails (0: never).
    pub open spec fn threshold_spec(&self) -> u32 {
        self@.1
    }

    /// Consecutive misses recorded for `id`.
    pub open spec fn count(&self, id: ServoId) -> u32 {
        count_in(self@, id)
    }

    /// What `record_miss(id)` returns.
    pub open spec fn miss_outcome(&self, id: ServoId) -> ServoResult<()> {
        miss_outcome_in(self@, id)
    }

    /// The tracker after a missed reply of `id`.
    pub open spec fn after_miss(&self, id: ServoId) -> LossView {
        after_miss_in(self@, id)
    }

    /// The tracker after a reply of `id`.
    pub open spec fn after_ok(&self, id: ServoId) -> LossView {
        after_ok_in(self@, id)
    }

    /// A tracker with no counts and the given threshold.
    pub fn new(threshold: u32) -> (t: Self)
        ensures
            t@ == (Map::<ServoId, u32>::empty(), threshold),
    {
        LossTracker { counts: HashMap::new(), threshold }
    }

    /// Resets the miss count of `id` after a successful reply.
    pub fn record_ok(&mut self, id: ServoId)
        ensures
            final(self)@ == old(self).after_ok(id),
    {
        self.counts.insert(id, 0);
    }

    /// Counts a missed reply of `id`; fails with `ConsecutiveLoss` when the
    /// threshold is non-zero and the new count reaches it.
    pub fn record_miss(&mut self, id: ServoId) -> (r: ServoResult<()>)
        requires
            old(self).count(id) < u32::MAX,
        ensures
            final(self)@ == old(self).after_miss(id),
            r == old(self).miss_outcome(id),
    {
        let c: u32 = match self.counts.get(&id) {
            Some(v) => *v,
            None => 0,
        };
        let n: u32 = c + 1;
        self.counts.insert(id, n);
        if self.threshold > 0 && n >= self.threshold {
            Err(SmartServoError::ConsecutiveLoss { id, count: n })
        } else {
            Ok(())
        }
    }

    /// Current consecutive miss count of `id`.
    pub fn miss_count(&self, id: ServoId) -> (c: u32)
        ensures
            c == self.count(id),
    {
        match self.counts.get(&id) {
            Some(v) => *v,
            None => 0,
        }
    }

    /// A tracker with the same counts and threshold.
    pub fn duplicate(&self) -> (t: Self)
        ensures
            t@ == self@,
    {
        LossTracker { counts: self.counts.clone(), threshold: self.threshold }
    }
}

impl Default for LossTracker {
    /// Threshold 0: missed replies never fail, so a monitor keeps returning
    /// held values marked unreliable.
    fn default() -> (t: Self)
        ensures
            t@ == (Map::<ServoId, u32>::empty(), 0u32),
    {
        LossTracker::new(0)
    }
}

} // verus!
