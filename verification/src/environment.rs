//! The executable interface of an environment: the primitive queries that
//! an environment provides, and the marginal and expected quantities that
//! every environment gets from them.

use vstd::prelude::*;
use crate::bounds::{
    lemma_gain_prefix_bounded, lemma_gain_within_span, lemma_reward_prefix_bounded,
    lemma_weight_prefix_bounded,
};
use crate::dynamics::{
    conforming, enumerated, gain_by_reward, gain_by_state, gain_of_reward, legal, reachable,
    transition_weight, weight_by_reward, weighted_reward, weighted_reward_at, Dynamics,
};
use crate::laws::lemma_illegal_action_zero;
use crate::summation::sum;

verus! {

/// A finite Markov decision process that can be queried.
///
/// An implementation gives the five primitive queries and proves that its
/// dynamics are well formed. The three derived queries are provided, and
/// their contracts leave an implementation no room to answer otherwise.
/// Each answers `None` exactly when the environment does not enumerate its
/// rewards, never a number that could be mistaken for a probability or an
/// expectation of zero.
///
/// The queries are associated functions: an environment is a fixed
/// definition, addressed by its type, with no state of its own.
pub trait IEnvironment: Dynamics {
    /// The dynamics obey the invariants of a well-formed environment.
    proof fn lemma_conforming()
        ensures
            conforming::<Self>(),
    ;

    /// The weight that stands for probability one; every weight returned
    /// by the other queries is measured in parts of it.
    fn unit() -> (unit: u64)
        ensures
            unit == Self::unit_weight(),
            unit > 0,
    ;

    /// The full dynamics of the environment: the weight of moving from
    /// `from` to `to` and receiving exactly `with`, given that `take` was
    /// chosen. Zero for every outcome of an action that is not legal in
    /// `from`, for every state that `take` does not lead to, and for every
    /// reward that an enumeration of the rewards leaves out.
    fn prob(from: &Self::State, take: &Self::Action, to: &Self::State, with: &i64) -> (weight: u64)
        ensures
            weight == Self::joint(*from, *take, *to, *with),
            weight <= Self::unit_weight(),
            !legal::<Self>(*from, *take) ==> weight == 0,
            !Self::successors(*from, *take).contains(*to) ==> weight == 0,
            enumerated::<Self>() && !Self::reward_values().contains(*with) ==> weight == 0,
    ;

    /// The actions that are legal in `from`, each once; none if `from` is
    /// terminal.
    fn actions_from(from: &Self::State) -> (actions: Vec<Self::Action>)
        ensures
            actions@ == Self::actions(*from),
            actions@.no_duplicates(),
    ;

    /// The states that are reached with non-zero weight when `take` is
    /// chosen in `from`, each once.
    fn states_from(from: &Self::State, take: &Self::Action) -> (states: Vec<Self::State>)
        ensures
            states@ == Self::successors(*from, *take),
            states@.no_duplicates(),
            forall|to: Self::State|
                #![trigger states@.contains(to)]
                #![trigger reachable::<Self>(*from, *take, to)]
                states@.contains(to) <==> reachable::<Self>(*from, *take, to),
    ;

    /// Every distinct reward that can occur anywhere in the environment.
    /// An environment that cannot list them all returns nothing at all
    /// rather than a part, and the derived queries then answer `None`.
    fn rewards() -> (rewards: Vec<i64>)
        ensures
            rewards@ == Self::reward_values(),
            rewards@.no_duplicates(),
            rewards@.len() > 0 ==> forall|
                from: Self::State,
                take: Self::Action,
                to: Self::State,
                with: i64,
            | #[trigger] Self::joint(from, take, to, with) > 0 ==> rewards@.contains(with),
    ;

    /// The transition probability: the weight of moving from `from` to
    /// `to` when `take` is chosen, whatever the reward. It is the sum of
    /// `prob(from, take, to, r)` over every `r` that `rewards` lists.
    fn prob_transition(from: &Self::State, take: &Self::Action, to: &Self::State) -> (result:
        Option<u64>)
        ensures
            result is Some <==> enumerated::<Self>(),
            result matches Some(weight) ==> weight == transition_weight::<Self>(*from, *take, *to),
            result matches Some(weight) ==> weight <= Self::unit_weight(),
            result matches Some(weight) ==> !legal::<Self>(*from, *take) ==> weight == 0,
    {
        let rewards = Self::rewards();
        if rewards.len() > 0 {
            proof {
                Self::lemma_conforming();
            }
            let mut total: u64 = 0;
            let mut j: usize = 0;
            while j < rewards.len()
                invariant
                    conforming::<Self>(),
                    rewards@ == Self::reward_values(),
                    j <= rewards.len(),
                    total == sum(j as nat, weight_by_reward::<Self>(*from, *take, *to)),
                decreases rewards.len() - j,
            {
                let weight = Self::prob(from, take, to, &rewards[j]);
                proof {
                    lemma_weight_prefix_bounded::<Self>(*from, *take, *to, (j + 1) as nat);
                }
                total = total + weight;
                j = j + 1;
            }
            proof {
                lemma_weight_prefix_bounded::<Self>(*from, *take, *to, j as nat);
                if !legal::<Self>(*from, *take) {
                    lemma_illegal_action_zero::<Self>(*from, *take);
                }
            }
            Some(total)
        } else {
            None
        }
    }

    /// The expected reward of taking `take` in `from`, marginalized over
    /// all resulting states. It is the sum of `prob(from, take, s, r) * r`
    /// over every `r` that `rewards` lists and every `s` that `states_from`
    /// lists, and so carries the denominator of the weights: the
    /// expectation itself is the result divided by `unit()`.
    fn expected_reward(from: &Self::State, take: &Self::Action) -> (result: Option<i128>)
        ensures
            result is Some <==> enumerated::<Self>(),
            result matches Some(reward) ==> reward == weighted_reward::<Self>(*from, *take),
            result matches Some(reward) ==> !legal::<Self>(*from, *take) ==> reward == 0,
    {
        let rewards = Self::rewards();
        if rewards.len() > 0 {
            proof {
                Self::lemma_conforming();
            }
            let to = Self::states_from(from, take);
            let mut total: i128 = 0;
            let mut j: usize = 0;
            while j < rewards.len()
                invariant
                    conforming::<Self>(),
                    rewards@ == Self::reward_values(),
                    to@ == Self::successors(*from, *take),
                    j <= rewards.len(),
                    total == sum(j as nat, gain_of_reward::<Self>(*from, *take)),
                decreases rewards.len() - j,
            {
                let mut i: usize = 0;
                while i < to.len()
                    invariant
                        conforming::<Self>(),
                        rewards@ == Self::reward_values(),
                        to@ == Self::successors(*from, *take),
                        j < rewards.len(),
                        i <= to.len(),
                        total == sum(j as nat, gain_of_reward::<Self>(*from, *take)) + sum(
                            i as nat,
                            gain_by_state::<Self>(*from, *take, j as int),
                        ),
                    decreases to.len() - i,
                {
                    let weight = Self::prob(from, take, &to[i], &rewards[j]);
                    proof {
                        lemma_gain_within_span(weight as nat, rewards[j as int]);
                        lemma_reward_prefix_bounded::<Self>(
                            *from,
                            *take,
                            j as nat,
                            (i + 1) as nat,
                        );
                    }
                    total = total + weight as i128 * rewards[j] as i128;
                    i = i + 1;
                }
                j = j + 1;
            }
            proof {
                if !legal::<Self>(*from, *take) {
                    lemma_illegal_action_zero::<Self>(*from, *take);
                }
            }
            Some(total)
        } else {
            None
        }
    }

    /// The expected reward of taking `take` in `from` and arriving at
    /// `to`. It is the sum of `prob(from, take, to, r) * r` over every `r`
    /// that `rewards` lists, and so carries the denominator of the
    /// weights, as `expected_reward` does.
    fn expected_reward_at(from: &Self::State, take: &Self::Action, to: &Self::State) -> (result:
        Option<i128>)
        ensures
            result is Some <==> enumerated::<Self>(),
            result matches Some(reward) ==> reward == weighted_reward_at::<Self>(
                *from,
                *take,
                *to,
            ),
            result matches Some(reward) ==> !legal::<Self>(*from, *take) ==> reward == 0,
    {
        let rewards = Self::rewards();
        if rewards.len() > 0 {
            proof {
                Self::lemma_conforming();
            }
            let mut total: i128 = 0;
            let mut j: usize = 0;
            while j < rewards.len()
                invariant
                    conforming::<Self>(),
                    rewards@ == Self::reward_values(),
                    j <= rewards.len(),
                    total == sum(j as nat, gain_by_reward::<Self>(*from, *take, *to)),
                decreases rewards.len() - j,
            {
                let weight = Self::prob(from, take, to, &rewards[j]);
                proof {
                    lemma_gain_within_span(weight as nat, rewards[j as int]);
                    lemma_gain_prefix_bounded::<Self>(*from, *take, *to, (j + 1) as nat);
                }
                total = total + weight as i128 * rewards[j] as i128;
                j = j + 1;
            }
            proof {
                if !legal::<Self>(*from, *take) {
                    lemma_illegal_action_zero::<Self>(*from, *take);
                }
            }
            Some(total)
        } else {
            None
        }
    }
}

} // verus!
