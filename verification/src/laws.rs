//! What holds of every well-formed environment, proved from the
//! invariants alone.

use vstd::prelude::*;
use crate::dynamics::{
    conforming, enumerated, gain_by_reward, gain_by_state, gain_of_reward, legal, reachable,
    reward_of_state, weighted_reward, weighted_reward_at, total_weight, transition_weight,
    weight_by_reward, weight_by_state, weight_of_reward, weight_of_state, Dynamics,
};
use crate::summation::{
    lemma_sum_congruent, lemma_sum_covers_term, lemma_sum_exchange, lemma_sum_monotone,
    lemma_sum_positive, lemma_sum_zero, non_negative, sum,
};

verus! {

/// The weight of a transition is a sum of non-negative joint weights.
pub proof fn lemma_weights_non_negative<E: Dynamics>(from: E::State, take: E::Action)
    ensures
        forall|to: E::State|
            non_negative(E::reward_values().len(), #[trigger] weight_by_reward::<E>(from, take, to)),
        non_negative(E::successors(from, take).len(), weight_of_state::<E>(from, take)),
{
    let states = E::successors(from, take);
    assert forall|i: int| 0 <= i < states.len() implies #[trigger] weight_of_state::<E>(
        from,
        take,
    )(i) >= 0 by {
        lemma_sum_monotone(
            0,
            E::reward_values().len(),
            weight_by_reward::<E>(from, take, states[i]),
        );
    }
}

/// An action that is not legal has no outcome: every joint weight under it
/// is zero, it has no successor, and every derived quantity is zero.
pub proof fn lemma_illegal_action_zero<E: Dynamics>(from: E::State, take: E::Action)
    requires
        conforming::<E>(),
        !legal::<E>(from, take),
    ensures
        forall|to: E::State, with: i64| #[trigger] E::joint(from, take, to, with) == 0,
        E::successors(from, take).len() == 0,
        forall|to: E::State| #[trigger] transition_weight::<E>(from, take, to) == 0,
        forall|to: E::State| #[trigger] weighted_reward_at::<E>(from, take, to) == 0,
        weighted_reward::<E>(from, take) == 0,
        total_weight::<E>(from, take) == 0,
{
    let states = E::successors(from, take);
    let rewards = E::reward_values();
    if states.len() > 0 {
        assert(states.contains(states[0]));
        assert(reachable::<E>(from, take, states[0]));
    }
    assert forall|to: E::State| #[trigger] transition_weight::<E>(from, take, to) == 0 by {
        lemma_sum_zero(rewards.len(), weight_by_reward::<E>(from, take, to));
    }
    assert forall|to: E::State| #[trigger] weighted_reward_at::<E>(from, take, to) == 0 by {
        lemma_sum_zero(rewards.len(), gain_by_reward::<E>(from, take, to));
    }
    lemma_sum_zero(rewards.len(), gain_of_reward::<E>(from, take));
}

/// An outcome that cannot be reached has no weight: neither a state that
/// is not among the successors, nor a reward that an enumeration of the
/// rewards leaves out.
pub proof fn lemma_unreachable_outcome_zero<E: Dynamics>(
    from: E::State,
    take: E::Action,
    to: E::State,
    with: i64,
)
    requires
        conforming::<E>(),
        !E::successors(from, take).contains(to) || (enumerated::<E>()
            && !E::reward_values().contains(with)),
    ensures
        E::joint(from, take, to, with) == 0,
{
    if !E::successors(from, take).contains(to) {
        assert(!reachable::<E>(from, take, to));
    }
}

/// The successors of a state under an action are exactly the states that
/// are reached with non-zero weight.
pub proof fn lemma_tight_support<E: Dynamics>(from: E::State, take: E::Action, to: E::State)
    requires
        conforming::<E>(),
        enumerated::<E>(),
    ensures
        E::successors(from, take).contains(to) <==> transition_weight::<E>(from, take, to) > 0,
{
    let rewards = E::reward_values();
    let by_reward = weight_by_reward::<E>(from, take, to);
    lemma_sum_positive(rewards.len(), by_reward);
    if transition_weight::<E>(from, take, to) > 0 {
        let k = choose|k: int| 0 <= k < rewards.len() && #[trigger] by_reward(k) > 0;
        assert(E::joint(from, take, to, rewards[k]) > 0);
        assert(reachable::<E>(from, take, to));
    }
    if E::successors(from, take).contains(to) {
        assert(reachable::<E>(from, take, to));
        let with = choose|with: i64| E::joint(from, take, to, with) > 0;
        assert(rewards.contains(with));
        let k = choose|k: int| 0 <= k < rewards.len() && rewards[k] == with;
        assert(by_reward(k) > 0);
    }
}

/// The joint weights under an action add up to the same total whether
/// they are taken successor by successor or reward by reward.
pub proof fn lemma_weight_by_reward_or_state<E: Dynamics>(from: E::State, take: E::Action)
    ensures
        sum(E::reward_values().len(), weight_of_reward::<E>(from, take)) == total_weight::<E>(
            from,
            take,
        ),
{
    let states = E::successors(from, take);
    lemma_sum_exchange(
        E::reward_values().len(),
        states.len(),
        |j: int| weight_by_state::<E>(from, take, j),
        |i: int| weight_by_reward::<E>(from, take, states[i]),
        weight_of_reward::<E>(from, take),
        weight_of_state::<E>(from, take),
    );
}

/// Under a legal action the joint weights over all successors and all
/// enumerated rewards add up to the unit weight: the outcomes share out
/// exactly probability one, in whichever order they are added.
pub proof fn lemma_normalized<E: Dynamics>(from: E::State, take: E::Action)
    requires
        conforming::<E>(),
        enumerated::<E>(),
        legal::<E>(from, take),
    ensures
        total_weight::<E>(from, take) == E::unit_weight(),
        sum(E::reward_values().len(), weight_of_reward::<E>(from, take)) == E::unit_weight(),
{
    lemma_weight_by_reward_or_state::<E>(from, take);
}

/// Whatever the action, the weights of the successors add up to no more
/// than the unit weight.
pub proof fn lemma_total_weight_bounded<E: Dynamics>(from: E::State, take: E::Action)
    requires
        conforming::<E>(),
    ensures
        0 <= total_weight::<E>(from, take) <= E::unit_weight(),
{
    lemma_weights_non_negative::<E>(from, take);
    lemma_sum_monotone(0, E::successors(from, take).len(), weight_of_state::<E>(from, take));
    if !legal::<E>(from, take) {
        lemma_illegal_action_zero::<E>(from, take);
    } else if !enumerated::<E>() {
        lemma_sum_zero(E::successors(from, take).len(), weight_of_state::<E>(from, take));
    }
}

/// The weight of a transition is a probability: it lies between zero and
/// the unit weight.
pub proof fn lemma_transition_weight_bounded<E: Dynamics>(
    from: E::State,
    take: E::Action,
    to: E::State,
)
    requires
        conforming::<E>(),
    ensures
        0 <= transition_weight::<E>(from, take, to) <= E::unit_weight(),
{
    let states = E::successors(from, take);
    lemma_weights_non_negative::<E>(from, take);
    lemma_sum_monotone(0, E::reward_values().len(), weight_by_reward::<E>(from, take, to));
    if enumerated::<E>() {
        lemma_tight_support::<E>(from, take, to);
        if states.contains(to) {
            let i = choose|i: int| 0 <= i < states.len() && states[i] == to;
            lemma_sum_covers_term(states.len(), weight_of_state::<E>(from, take), i);
            lemma_total_weight_bounded::<E>(from, take);
        }
    }
}

/// What the `i`-th successor adds to the expected reward by the law of
/// total expectation: its weight times the reward collected on arriving
/// there, divided by its weight again; nothing where the weight is zero.
pub open spec fn expectation_term<E: Dynamics>(from: E::State, take: E::Action) -> spec_fn(
    int,
) -> int {
    |i: int|
        {
            let to = E::successors(from, take)[i];
            let weight = transition_weight::<E>(from, take, to);
            if weight != 0 {
                weight * weighted_reward_at::<E>(from, take, to) / weight
            } else {
                0
            }
        }
}

/// A state that is reached with weight zero collects no reward.
pub proof fn lemma_zero_weight_zero_reward<E: Dynamics>(
    from: E::State,
    take: E::Action,
    to: E::State,
)
    requires
        transition_weight::<E>(from, take, to) == 0,
    ensures
        weighted_reward_at::<E>(from, take, to) == 0,
{
    let rewards = E::reward_values();
    lemma_weights_non_negative::<E>(from, take);
    lemma_sum_positive(rewards.len(), weight_by_reward::<E>(from, take, to));
    assert forall|j: int| 0 <= j < rewards.len() implies #[trigger] gain_by_reward::<E>(
        from,
        take,
        to,
    )(j) == 0 by {
        assert(weight_by_reward::<E>(from, take, to)(j) == 0);
    }
    lemma_sum_zero(rewards.len(), gain_by_reward::<E>(from, take, to));
}

/// The reward collected under an action is the sum, over the successors,
/// of the reward collected on arriving at each.
pub proof fn lemma_reward_by_successor<E: Dynamics>(from: E::State, take: E::Action)
    ensures
        weighted_reward::<E>(from, take) == sum(
            E::successors(from, take).len(),
            reward_of_state::<E>(from, take),
        ),
{
    let states = E::successors(from, take);
    lemma_sum_exchange(
        E::reward_values().len(),
        states.len(),
        |j: int| gain_by_state::<E>(from, take, j),
        |i: int| gain_by_reward::<E>(from, take, states[i]),
        gain_of_reward::<E>(from, take),
        reward_of_state::<E>(from, take),
    );
}

/// The law of total expectation: the reward collected under an action is
/// the sum of what each successor adds, and a successor of weight zero
/// adds nothing.
pub proof fn lemma_total_expectation<E: Dynamics>(from: E::State, take: E::Action)
    ensures
        weighted_reward::<E>(from, take) == sum(
            E::successors(from, take).len(),
            expectation_term::<E>(from, take),
        ),
{
    let states = E::successors(from, take);
    let arriving = reward_of_state::<E>(from, take);
    lemma_reward_by_successor::<E>(from, take);
    assert forall|i: int| 0 <= i < states.len() implies #[trigger] arriving(i)
        == expectation_term::<E>(from, take)(i) by {
        let weight = transition_weight::<E>(from, take, states[i]);
        let reward = weighted_reward_at::<E>(from, take, states[i]);
        if weight != 0 {
            lemma_weights_non_negative::<E>(from, take);
            lemma_sum_monotone(
                0,
                E::reward_values().len(),
                weight_by_reward::<E>(from, take, states[i]),
            );
            assert(weight * reward / weight == reward) by (nonlinear_arith)
                requires
                    weight > 0,
            ;
        } else {
            lemma_zero_weight_zero_reward::<E>(from, take, states[i]);
        }
    }
    lemma_sum_congruent(states.len(), arriving, expectation_term::<E>(from, take));
}

} // verus!
