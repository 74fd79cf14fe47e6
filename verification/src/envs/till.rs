//! A till that is emptied: the reward is whatever the till holds.
//!
//! The state is the amount in the till. Collecting it pays that amount and
//! leaves the till at zero. Any amount may be a reward, far more values
//! than a list can hold, so the rewards are not enumerated and the
//! marginal and expected quantities are not available.

use vstd::prelude::*;
use crate::dynamics::{legal, reachable, Dynamics};
use crate::environment::IEnvironment;

verus! {

/// The one thing to do with a till.
#[derive(Clone, Copy, Debug, PartialEq, Eq, Hash)]
pub enum Collect {
    All,
}

/// The till itself; collecting is certain, so its unit weight is one.
#[derive(Debug)]
pub struct Till;

impl Dynamics for Till {
    type State = i64;

    type Action = Collect;

    open spec fn unit_weight() -> nat {
        1
    }

    open spec fn joint(from: i64, take: Collect, to: i64, with: i64) -> nat {
        if to == 0 && with == from {
            1
        } else {
            0
        }
    }

    open spec fn actions(from: i64) -> Seq<Collect> {
        seq![Collect::All]
    }

    open spec fn successors(from: i64, take: Collect) -> Seq<i64> {
        seq![0i64]
    }

    open spec fn reward_values() -> Seq<i64> {
        Seq::empty()
    }
}

impl IEnvironment for Till {
    proof fn lemma_conforming() {
        assert forall|from: i64, take: Collect| legal::<Till>(from, take) by {
            assert(Till::actions(from)[0] == take);
        }
        assert forall|from: i64, take: Collect, to: i64|
            #![trigger Till::successors(from, take).contains(to)]
            #![trigger reachable::<Till>(from, take, to)]
            Till::successors(from, take).contains(to) <==> reachable::<Till>(from, take, to) by {
            if to == 0 {
                assert(Till::successors(from, take)[0] == to);
                assert(Till::joint(from, take, to, from) > 0);
            }
        }
    }

    fn unit() -> (unit: u64)
        ensures
            unit == 1,
    {
        1
    }

    fn prob(from: &i64, take: &Collect, to: &i64, with: &i64) -> (weight: u64)
        ensures
            *to == 0 && *with == *from ==> weight == 1,
            *to != 0 || *with != *from ==> weight == 0,
    {
        proof {
            Self::lemma_conforming();
        }
        if *to == 0 && *with == *from {
            1
        } else {
            0
        }
    }

    fn actions_from(_from: &i64) -> (actions: Vec<Collect>)
        ensures
            actions@ == seq![Collect::All],
    {
        vec![Collect::All]
    }

    fn states_from(from: &i64, take: &Collect) -> (states: Vec<i64>)
        ensures
            states@ == seq![0i64],
    {
        let states = vec![0];
        proof {
            Self::lemma_conforming();
            assert(states@ == Self::successors(*from, *take));
        }
        states
    }

    fn rewards() -> (rewards: Vec<i64>)
        ensures
            rewards@.len() == 0,
    {
        Vec::new()
    }
}

} // verus!
