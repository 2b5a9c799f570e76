//! Acceptance criteria for simulated annealing.

use vstd::prelude::*;

verus! {

/// Standard Metropolis-Hastings acceptance criterion: an improvement is
/// always taken, a worse candidate with probability `exp(-delta / temp)`.
#[derive(Clone)]
pub struct MetropolisAccept;

} // verus!
