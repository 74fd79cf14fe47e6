//! Finite Markov decision processes with exact probabilities.
//!
//! An environment yields, for a state and an action, a distribution over
//! pairs of a next state and a reward. [`IEnvironment`] is the contract of
//! such an environment: the joint dynamics, the legal actions, the
//! successor states and, where they can be listed, the rewards. From these
//! it derives the transition probability and the expected rewards, and
//! declines to when the rewards are not listed.
//!
//! Probabilities are whole numbers of parts of the environment's unit
//! weight, and rewards are whole numbers, so every sum is exact: a
//! distribution adds up to one, not to something near it. [`Dynamics`] is
//! the mathematical model that the contracts speak of, `laws` holds what
//! follows for every well-formed environment, and `envs` holds small
//! environments that are proved well formed.

pub mod bounds;
pub mod dynamics;
pub mod environment;
pub mod envs;
pub mod laws;
pub mod summation;

pub use dynamics::Dynamics;
pub use environment::IEnvironment;
pub use envs::dull::{Always, DoNothing, Dull};
pub use envs::gamble::{Gamble, Move, Round};
pub use envs::till::{Collect, Till};
