//! Live-tunable parameters, passed explicitly to the decision layer
//! and the trackers instead of living in process-wide state: a change
//! takes effect on the next call that reads them.

use vstd::prelude::*;

verus! {

/// The tunable parameters of the classifier, in fixed-point units of
/// `numeric::SCALE`.
#[derive(Clone, Copy, PartialEq, Eq, Structural, Debug)]
pub struct Variables {
    /// Composite activity level above which a channel is judged
    /// active.
    pub activity_threshold: i64,
    /// Cap on the activity contribution of any single frequency bin.
    pub max_activity_contribution_per_frequency: i64,
}

impl Variables {
    /// Ranges under which all arithmetic on these parameters stays in
    /// bounds: the threshold is a positive divisor.
    pub open spec fn wf(&self) -> bool {
        &&& 1 <= self.activity_threshold <= 1_000_000_000_000
        &&& 0 <= self.max_activity_contribution_per_frequency <= 1_000_000_000
    }
}

impl Default for Variables {
    /// An activity threshold of 60 units and a per-frequency cap of 8
    /// units.
    fn default() -> (r: Variables)
        ensures
            r.activity_threshold == 60_000_000,
            r.max_activity_contribution_per_frequency == 8_000_000,
            r.wf(),
    {
        Variables {
            activity_threshold: 60_000_000,
            max_activity_contribution_per_frequency: 8_000_000,
        }
    }
}

} // verus!
