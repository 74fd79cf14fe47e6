//! Bounds on the partial sums that the derived queries build up, so that
//! their running totals fit the machine integers that hold them.

use vstd::prelude::*;
use crate::dynamics::{
    conforming, gain_by_reward, gain_by_state, gain_of_reward, weight_by_reward, weight_by_state,
    weight_of_reward, Dynamics,
};
use crate::laws::{
    lemma_total_weight_bounded, lemma_transition_weight_bounded, lemma_weight_by_reward_or_state,
    lemma_weights_non_negative,
};
use crate::summation::{lemma_sum_monotone, lemma_sum_scaled_bound, sum};

verus! {

/// No reward is further from zero than `2^63`, so a weighted reward is
/// within `2^63` times its weight.
pub proof fn lemma_gain_within_span(weight: nat, with: i64)
    ensures
        -0x8000_0000_0000_0000 * weight <= weight * with <= 0x8000_0000_0000_0000 * weight,
{
    assert(-0x8000_0000_0000_0000 * weight <= weight * with <= 0x8000_0000_0000_0000 * weight)
        by (nonlinear_arith)
        requires
            -0x8000_0000_0000_0000 <= with <= 0x8000_0000_0000_0000,
            weight >= 0,
    ;
}

/// The first `k` joint weights towards `to` add up to no more than the
/// unit weight.
pub proof fn lemma_weight_prefix_bounded<E: Dynamics>(
    from: E::State,
    take: E::Action,
    to: E::State,
    k: nat,
)
    requires
        conforming::<E>(),
        k <= E::reward_values().len(),
    ensures
        0 <= sum(k, weight_by_reward::<E>(from, take, to)) <= E::unit_weight(),
{
    lemma_weights_non_negative::<E>(from, take);
    lemma_sum_monotone(k, E::reward_values().len(), weight_by_reward::<E>(from, take, to));
    lemma_transition_weight_bounded::<E>(from, take, to);
}

/// The first `k` weighted rewards towards `to` add up to no more, either
/// way, than `2^63` times the unit weight.
pub proof fn lemma_gain_prefix_bounded<E: Dynamics>(
    from: E::State,
    take: E::Action,
    to: E::State,
    k: nat,
)
    requires
        conforming::<E>(),
        k <= E::reward_values().len(),
    ensures
        -0x8000_0000_0000_0000 * E::unit_weight() <= sum(k, gain_by_reward::<E>(from, take, to))
            <= 0x8000_0000_0000_0000 * E::unit_weight(),
{
    let rewards = E::reward_values();
    let span: int = 0x8000_0000_0000_0000;
    let gains = gain_by_reward::<E>(from, take, to);
    let weights = weight_by_reward::<E>(from, take, to);
    assert forall|j: int| 0 <= j < k implies -span * #[trigger] weights(j) <= gains(j) <= span
        * weights(j) by {
        lemma_gain_within_span(E::joint(from, take, to, rewards[j]), rewards[j]);
    }
    lemma_sum_scaled_bound(k, gains, weights, span);
    lemma_weight_prefix_bounded::<E>(from, take, to, k);
}

/// The weighted rewards of the first `j` enumerated rewards over all
/// successors, and of the next reward over the first `i` successors, add
/// up to no more, either way, than `2^63` times the unit weight.
pub proof fn lemma_reward_prefix_bounded<E: Dynamics>(
    from: E::State,
    take: E::Action,
    j: nat,
    i: nat,
)
    requires
        conforming::<E>(),
        j < E::reward_values().len(),
        i <= E::successors(from, take).len(),
    ensures
        -0x8000_0000_0000_0000 * E::unit_weight() <= sum(j, gain_of_reward::<E>(from, take))
            + sum(i, gain_by_state::<E>(from, take, j as int)) <= 0x8000_0000_0000_0000
            * E::unit_weight(),
{
    let rewards = E::reward_values();
    let states = E::successors(from, take);
    let span: int = 0x8000_0000_0000_0000;
    let gains = gain_of_reward::<E>(from, take);
    let weights = weight_of_reward::<E>(from, take);
    // Within one reward, over any number of successors.
    assert forall|r: int, n: nat| 0 <= r < rewards.len() && n <= states.len() implies -span * sum(
        n,
        weight_by_state::<E>(from, take, r),
    ) <= #[trigger] sum(n, gain_by_state::<E>(from, take, r)) <= span * sum(
        n,
        weight_by_state::<E>(from, take, r),
    ) by {
        let row_gains = gain_by_state::<E>(from, take, r);
        let row_weights = weight_by_state::<E>(from, take, r);
        assert forall|s: int| 0 <= s < n implies -span * #[trigger] row_weights(s) <= row_gains(s)
            <= span * row_weights(s) by {
            lemma_gain_within_span(E::joint(from, take, states[s], rewards[r]), rewards[r]);
        }
        lemma_sum_scaled_bound(n, row_gains, row_weights, span);
    }
    // Over the rewards that are done with.
    assert forall|r: int| 0 <= r < j implies -span * #[trigger] weights(r) <= gains(r) <= span
        * weights(r) by {
        assert(gains(r) == sum(states.len(), gain_by_state::<E>(from, take, r)));
    }
    lemma_sum_scaled_bound(j, gains, weights, span);
    // All the weight met so far is part of the total, which is at most the unit.
    assert(sum(i, weight_by_state::<E>(from, take, j as int)) <= weights(j as int)) by {
        lemma_sum_monotone(i, states.len(), weight_by_state::<E>(from, take, j as int));
    }
    assert(sum(j, weights) + weights(j as int) <= sum(rewards.len(), weights)) by {
        assert forall|r: int| 0 <= r < rewards.len() implies #[trigger] weights(r) >= 0 by {
            lemma_sum_monotone(0, states.len(), weight_by_state::<E>(from, take, r));
        }
        lemma_sum_monotone(j + 1, rewards.len(), weights);
    }
    lemma_weight_by_reward_or_state::<E>(from, take);
    lemma_total_weight_bounded::<E>(from, take);
}

} // verus!
