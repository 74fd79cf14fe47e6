//! The smallest environment there is: one state, one action that leads
//! back to it for certain, and a reward of zero.

use vstd::prelude::*;
use crate::dynamics::{
    legal, reachable, total_weight, transition_weight, weight_by_reward, weight_of_state,
    Dynamics,
};
use crate::environment::IEnvironment;
use crate::summation::sum;

verus! {

/// The one action: to do nothing.
#[derive(Hash, Eq, PartialEq, Debug)]
pub enum DoNothing {
    Nothing,
}

/// The one state.
#[derive(Debug, Hash, Eq, PartialEq)]
pub enum Always {
    Same,
}

/// The environment in which nothing ever happens; certainty is its only
/// probability, so its unit weight is one.
#[derive(Debug)]
pub struct Dull;

impl Dynamics for Dull {
    type State = Always;

    type Action = DoNothing;

    open spec fn unit_weight() -> nat {
        1
    }

    open spec fn joint(from: Always, take: DoNothing, to: Always, with: i64) -> nat {
        if with == 0 {
            1
        } else {
            0
        }
    }

    open spec fn actions(from: Always) -> Seq<DoNothing> {
        seq![DoNothing::Nothing]
    }

    open spec fn successors(from: Always, take: DoNothing) -> Seq<Always> {
        seq![Always::Same]
    }

    open spec fn reward_values() -> Seq<i64> {
        seq![0i64]
    }
}

/// There is one action, and it is legal in the one state.
pub proof fn lemma_nothing_is_legal(from: Always, take: DoNothing)
    ensures
        take == DoNothing::Nothing,
        legal::<Dull>(from, take),
{
    assert(Dull::actions(from)[0] == take);
}

/// There is one state, and the one action leads to it with all the weight
/// there is.
pub proof fn lemma_same_is_certain(from: Always, take: DoNothing, to: Always)
    ensures
        to == Always::Same,
        Dull::successors(from, take).contains(to),
        reachable::<Dull>(from, take, to),
        transition_weight::<Dull>(from, take, to) == 1,
        total_weight::<Dull>(from, take) == 1,
{
    reveal_with_fuel(sum, 2);
    assert(Dull::successors(from, take)[0] == to);
    assert(Dull::joint(from, take, to, 0) > 0);
    assert(weight_by_reward::<Dull>(from, take, to)(0) == 1);
    assert(weight_of_state::<Dull>(from, take)(0) == transition_weight::<Dull>(from, take, to));
}

impl IEnvironment for Dull {
    proof fn lemma_conforming() {
        assert forall|from: Always, take: DoNothing| legal::<Dull>(from, take) by {
            lemma_nothing_is_legal(from, take);
        }
        assert forall|from: Always, take: DoNothing, to: Always|
            #![trigger Dull::successors(from, take).contains(to)]
            #![trigger reachable::<Dull>(from, take, to)]
            Dull::successors(from, take).contains(to) && reachable::<Dull>(from, take, to) by {
            lemma_same_is_certain(from, take, to);
        }
        assert forall|from: Always, take: DoNothing| #[trigger]
            total_weight::<Dull>(from, take) == 1 by {
            lemma_same_is_certain(from, take, Always::Same);
        }
        assert forall|from: Always, take: DoNothing, to: Always, with: i64| #[trigger]
            Dull::joint(from, take, to, with) > 0 implies Dull::reward_values().contains(with) by {
            assert(Dull::reward_values()[0] == with);
        }
    }

    fn unit() -> (unit: u64)
        ensures
            unit == 1,
    {
        1
    }

    fn prob(_from: &Always, _take: &DoNothing, _to: &Always, with: &i64) -> (weight: u64)
        ensures
            *with == 0 ==> weight == 1,
            *with != 0 ==> weight == 0,
    {
        proof {
            Self::lemma_conforming();
        }
        if *with == 0 {
            1
        } else {
            0
        }
    }

    fn actions_from(_from: &Always) -> (actions: Vec<DoNothing>)
        ensures
            actions@ == seq![DoNothing::Nothing],
    {
        vec![DoNothing::Nothing]
    }

    fn states_from(from: &Always, take: &DoNothing) -> (states: Vec<Always>)
        ensures
            states@ == seq![Always::Same],
    {
        let states = vec![Always::Same];
        proof {
            Self::lemma_conforming();
            assert(states@ == Self::successors(*from, *take));
        }
        states
    }

    fn rewards() -> (rewards: Vec<i64>)
        ensures
            rewards@ == seq![0i64],
    {
        proof {
            Self::lemma_conforming();
        }
        vec![0]
    }
}

} // verus!
