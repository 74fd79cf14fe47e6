//! The mathematical model of a finite Markov decision process and the
//! quantities derived from its joint dynamics.
//!
//! Probabilities are exact: an environment fixes a positive whole number,
//! its unit weight, and measures every probability in parts of it, so that
//! a weight `w` stands for the probability `w / unit_weight`. Rewards are
//! whole numbers of whatever smallest amount the environment pays out.
//! Sums of weights and of weighted rewards are therefore exact integers,
//! and the quantities below carry the same denominator as the weights.

use vstd::prelude::*;
use crate::summation::sum;

verus! {

/// What an environment is: its state and action types and its dynamics,
/// as pure functions.
pub trait Dynamics: Sized {
    /// A situation the process can be in.
    type State;

    /// A choice that may be available in a state.
    type Action;

    /// The weight that stands for probability one.
    spec fn unit_weight() -> nat;

    /// Joint weight of moving from `from` to `to` and receiving exactly
    /// `with`, given that `take` was chosen.
    spec fn joint(from: Self::State, take: Self::Action, to: Self::State, with: i64) -> nat;

    /// The actions that are legal in `from`; none if `from` is terminal.
    spec fn actions(from: Self::State) -> Seq<Self::Action>;

    /// The states that `take` can lead to from `from`.
    spec fn successors(from: Self::State, take: Self::Action) -> Seq<Self::State>;

    /// Every reward the environment can pay, or nothing at all if the
    /// environment does not enumerate its rewards.
    spec fn reward_values() -> Seq<i64>;
}

/// `take` may be chosen in `from`.
pub open spec fn legal<E: Dynamics>(from: E::State, take: E::Action) -> bool {
    E::actions(from).contains(take)
}

/// Some reward has non-zero weight on the way from `from` to `to` under
/// `take`: the state `to` carries probability mass.
pub open spec fn reachable<E: Dynamics>(from: E::State, take: E::Action, to: E::State) -> bool {
    exists|with: i64| E::joint(from, take, to, with) > 0
}

/// The environment enumerates its rewards, so that sums over them are
/// exact marginals.
pub open spec fn enumerated<E: Dynamics>() -> bool {
    E::reward_values().len() > 0
}

/// Weight of reaching `to` with the `j`-th enumerated reward, as a function
/// of `j`.
pub open spec fn weight_by_reward<E: Dynamics>(
    from: E::State,
    take: E::Action,
    to: E::State,
) -> spec_fn(int) -> int {
    |j: int| E::joint(from, take, to, E::reward_values()[j]) as int
}

/// Weight of reaching `to`, whatever the reward: the joint weight summed
/// over the enumerated rewards.
pub open spec fn transition_weight<E: Dynamics>(
    from: E::State,
    take: E::Action,
    to: E::State,
) -> int {
    sum(E::reward_values().len(), weight_by_reward::<E>(from, take, to))
}

/// The `j`-th enumerated reward times the weight of reaching `to` with it,
/// as a function of `j`.
pub open spec fn gain_by_reward<E: Dynamics>(
    from: E::State,
    take: E::Action,
    to: E::State,
) -> spec_fn(int) -> int {
    |j: int| E::joint(from, take, to, E::reward_values()[j]) * E::reward_values()[j]
}

/// Reward collected on arriving at `to`, each enumerated reward weighted
/// by its joint weight.
pub open spec fn weighted_reward_at<E: Dynamics>(
    from: E::State,
    take: E::Action,
    to: E::State,
) -> int {
    sum(E::reward_values().len(), gain_by_reward::<E>(from, take, to))
}

/// The `j`-th enumerated reward times the weight of reaching the `i`-th
/// successor with it, as a function of `i`.
pub open spec fn gain_by_state<E: Dynamics>(
    from: E::State,
    take: E::Action,
    j: int,
) -> spec_fn(int) -> int {
    |i: int|
        E::joint(from, take, E::successors(from, take)[i], E::reward_values()[j])
            * E::reward_values()[j]
}

/// What the `j`-th enumerated reward contributes over all successors, as a
/// function of `j`.
pub open spec fn gain_of_reward<E: Dynamics>(from: E::State, take: E::Action) -> spec_fn(
    int,
) -> int {
    |j: int| sum(E::successors(from, take).len(), gain_by_state::<E>(from, take, j))
}

/// Reward collected on taking `take` in `from`: every pair of an
/// enumerated reward and a successor, the reward weighted by the pair's
/// joint weight.
pub open spec fn weighted_reward<E: Dynamics>(from: E::State, take: E::Action) -> int {
    sum(E::reward_values().len(), gain_of_reward::<E>(from, take))
}

/// Reward collected on arriving at the `i`-th successor, as a function of
/// `i`.
pub open spec fn reward_of_state<E: Dynamics>(from: E::State, take: E::Action) -> spec_fn(
    int,
) -> int {
    |i: int| weighted_reward_at::<E>(from, take, E::successors(from, take)[i])
}

/// Weight of reaching the `i`-th successor with the `j`-th enumerated
/// reward, as a function of `i`.
pub open spec fn weight_by_state<E: Dynamics>(
    from: E::State,
    take: E::Action,
    j: int,
) -> spec_fn(int) -> int {
    |i: int| E::joint(from, take, E::successors(from, take)[i], E::reward_values()[j]) as int
}

/// Weight of receiving the `j`-th enumerated reward, whatever the
/// successor, as a function of `j`.
pub open spec fn weight_of_reward<E: Dynamics>(from: E::State, take: E::Action) -> spec_fn(
    int,
) -> int {
    |j: int| sum(E::successors(from, take).len(), weight_by_state::<E>(from, take, j))
}

/// Weight of reaching the `i`-th successor, as a function of `i`.
pub open spec fn weight_of_state<E: Dynamics>(from: E::State, take: E::Action) -> spec_fn(
    int,
) -> int {
    |i: int| transition_weight::<E>(from, take, E::successors(from, take)[i])
}

/// All the weight that `take` spreads from `from`: the joint weight summed
/// over the successors and the enumerated rewards.
pub open spec fn total_weight<E: Dynamics>(from: E::State, take: E::Action) -> int {
    sum(E::successors(from, take).len(), weight_of_state::<E>(from, take))
}

/// The invariants of a well-formed environment.
pub open spec fn conforming<E: Dynamics>() -> bool {
    &&& 0 < E::unit_weight() <= u64::MAX
    &&& E::reward_values().no_duplicates()
    &&& forall|from: E::State| #[trigger] E::actions(from).no_duplicates()
    &&& forall|from: E::State, take: E::Action| #[trigger]
        E::successors(from, take).no_duplicates()
    // No outcome is more likely than certain.
    &&& forall|from: E::State, take: E::Action, to: E::State, with: i64| #[trigger]
        E::joint(from, take, to, with) <= E::unit_weight()
    // An action that is not legal has no outcome.
    &&& forall|from: E::State, take: E::Action, to: E::State, with: i64|
        !legal::<E>(from, take) ==> #[trigger] E::joint(from, take, to, with) == 0
    // The successors are the states that carry mass, no more and no fewer.
    &&& forall|from: E::State, take: E::Action, to: E::State|
        #![trigger E::successors(from, take).contains(to)]
        #![trigger reachable::<E>(from, take, to)]
        E::successors(from, take).contains(to) <==> reachable::<E>(from, take, to)
    // An enumeration of the rewards leaves out none that can occur.
    &&& forall|from: E::State, take: E::Action, to: E::State, with: i64|
        enumerated::<E>() && #[trigger] E::joint(from, take, to, with) > 0
            ==> E::reward_values().contains(with)
    // The outcomes of a legal action share out exactly probability one.
    &&& forall|from: E::State, take: E::Action|
        enumerated::<E>() && legal::<E>(from, take) ==> #[trigger] total_weight::<E>(from, take)
            == E::unit_weight()
}

} // verus!
