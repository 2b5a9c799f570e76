//! Multi-start simulated annealing: independent runs from several initial
//! states, keeping the best result.

use vstd::prelude::*;

verus! {

/// Multi-start annealer: runs one annealing process per initial state.
pub struct MultiStartAnnealer {
    pub num_starts: usize,
}

impl MultiStartAnnealer {
    /// Creates a multi-start annealer with `num_starts` independent starts.
    /// There must be at least one start.
    pub fn new(num_starts: usize) -> (r: Self)
        requires
            num_starts > 0,
        ensures
            r.num_starts == num_starts,
    {
        MultiStartAnnealer { num_starts }
    }
}

} // verus!
