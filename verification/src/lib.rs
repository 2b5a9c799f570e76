//! Simulated annealing toolkit: the deterministic random number generator
//! that drives every run, the Metropolis acceptance rule and the multi-start
//! driver's configuration.

pub mod rng;
pub mod accept;
pub mod multistart;

pub use rng::SimpleRng;
pub use accept::MetropolisAccept;
pub use multistart::MultiStartAnnealer;
