//! A game of chance with several outcomes, a terminal state and rewards of
//! both signs.
//!
//! While the round is open the player may bet or leave. A bet wins three
//! with one chance in four, loses one with one chance in four (the round
//! stays open either way), and with two chances in four loses two and
//! closes the round. Leaving closes the round and pays nothing. Nothing
//! can be done once the round is closed.

use vstd::prelude::*;
use crate::dynamics::{
    enumerated, legal, reachable, total_weight, transition_weight, weight_by_reward,
    weight_of_state, Dynamics,
};
use crate::environment::IEnvironment;
use crate::summation::sum;

verus! {

/// Whether the player may still act.
#[derive(Clone, Copy, Debug, PartialEq, Eq, Hash)]
pub enum Round {
    Open,
    Closed,
}

/// What the player may do while the round is open.
#[derive(Clone, Copy, Debug, PartialEq, Eq, Hash)]
pub enum Move {
    Bet,
    Leave,
}

/// The game itself; its weights are quarters.
#[derive(Debug)]
pub struct Gamble;

impl Dynamics for Gamble {
    type State = Round;

    type Action = Move;

    open spec fn unit_weight() -> nat {
        4
    }

    open spec fn joint(from: Round, take: Move, to: Round, with: i64) -> nat {
        match (from, take, to) {
            (Round::Open, Move::Bet, Round::Open) => if with == 3 || with == -1 {
                1
            } else {
                0
            },
            (Round::Open, Move::Bet, Round::Closed) => if with == -2 {
                2
            } else {
                0
            },
            (Round::Open, Move::Leave, Round::Closed) => if with == 0 {
                4
            } else {
                0
            },
            _ => 0,
        }
    }

    open spec fn actions(from: Round) -> Seq<Move> {
        match from {
            Round::Open => seq![Move::Bet, Move::Leave],
            Round::Closed => seq![],
        }
    }

    open spec fn successors(from: Round, take: Move) -> Seq<Round> {
        match (from, take) {
            (Round::Open, Move::Bet) => seq![Round::Open, Round::Closed],
            (Round::Open, Move::Leave) => seq![Round::Closed],
            _ => seq![],
        }
    }

    open spec fn reward_values() -> Seq<i64> {
        seq![0i64, 3i64, -1i64, -2i64]
    }
}

/// The weight of each transition of the game, whatever the reward.
pub open spec fn gamble_weight(from: Round, take: Move, to: Round) -> int {
    match (from, take, to) {
        (Round::Open, Move::Bet, Round::Open) => 2,
        (Round::Open, Move::Bet, Round::Closed) => 2,
        (Round::Open, Move::Leave, Round::Closed) => 4,
        _ => 0,
    }
}

/// The joint weights of the game add up, over its rewards, to the weights
/// of its transitions.
pub proof fn lemma_gamble_weights(from: Round, take: Move, to: Round)
    ensures
        transition_weight::<Gamble>(from, take, to) == gamble_weight(from, take, to),
{
    reveal_with_fuel(sum, 5);
    let by_reward = weight_by_reward::<Gamble>(from, take, to);
    let rewards = Gamble::reward_values();
    assert forall|j: int| 0 <= j < 4 implies #[trigger] by_reward(j) == Gamble::joint(
        from,
        take,
        to,
        rewards[j],
    ) by {}
}

impl IEnvironment for Gamble {
    proof fn lemma_conforming() {
        assert forall|from: Round, take: Move, to: Round|
            #![trigger Gamble::successors(from, take).contains(to)]
            #![trigger reachable::<Gamble>(from, take, to)]
            Gamble::successors(from, take).contains(to) <==> reachable::<Gamble>(
                from,
                take,
                to,
            ) by {
            let states = Gamble::successors(from, take);
            let rewards = Gamble::reward_values();
            if states.contains(to) {
                assert(Gamble::joint(from, take, to, rewards[0]) > 0 || Gamble::joint(
                    from,
                    take,
                    to,
                    rewards[1],
                ) > 0 || Gamble::joint(from, take, to, rewards[3]) > 0);
            }
            if reachable::<Gamble>(from, take, to) {
                assert(states.len() > 0 && (states[0] == to || (states.len() > 1 && states[1]
                    == to)));
            }
        }
        assert forall|from: Round, take: Move, to: Round, with: i64|
            !legal::<Gamble>(from, take) implies #[trigger] Gamble::joint(from, take, to, with)
            == 0 by {
            if from == Round::Open {
                assert(Gamble::actions(from)[0] == take || Gamble::actions(from)[1] == take);
            }
        }
        assert forall|from: Round, take: Move, to: Round, with: i64|
            enumerated::<Gamble>() && #[trigger] Gamble::joint(from, take, to, with)
                > 0 implies Gamble::reward_values().contains(with) by {
            let rewards = Gamble::reward_values();
            assert(rewards[0] == with || rewards[1] == with || rewards[2] == with || rewards[3]
                == with);
        }
        assert forall|from: Round, take: Move|
            enumerated::<Gamble>() && legal::<Gamble>(from, take) implies #[trigger] total_weight::<
                Gamble,
            >(from, take) == Gamble::unit_weight() by {
            reveal_with_fuel(sum, 3);
            let states = Gamble::successors(from, take);
            assert forall|i: int| 0 <= i < states.len() implies #[trigger] weight_of_state::<
                Gamble,
            >(from, take)(i) == transition_weight::<Gamble>(from, take, states[i]) by {}
            lemma_gamble_weights(from, take, Round::Open);
            lemma_gamble_weights(from, take, Round::Closed);
        }
    }

    fn unit() -> (unit: u64)
        ensures
            unit == 4,
    {
        4
    }

    fn prob(from: &Round, take: &Move, to: &Round, with: &i64) -> (weight: u64)
        ensures
            weight == Gamble::joint(*from, *take, *to, *with),
    {
        proof {
            Self::lemma_conforming();
        }
        match (*from, *take, *to) {
            (Round::Open, Move::Bet, Round::Open) => if *with == 3 || *with == -1 {
                1
            } else {
                0
            },
            (Round::Open, Move::Bet, Round::Closed) => if *with == -2 {
                2
            } else {
                0
            },
            (Round::Open, Move::Leave, Round::Closed) => if *with == 0 {
                4
            } else {
                0
            },
            _ => 0,
        }
    }

    fn actions_from(from: &Round) -> (actions: Vec<Move>)
        ensures
            actions@ == Gamble::actions(*from),
    {
        match *from {
            Round::Open => vec![Move::Bet, Move::Leave],
            Round::Closed => vec![],
        }
    }

    fn states_from(from: &Round, take: &Move) -> (states: Vec<Round>)
        ensures
            states@ == Gamble::successors(*from, *take),
    {
        proof {
            Self::lemma_conforming();
        }
        match (*from, *take) {
            (Round::Open, Move::Bet) => vec![Round::Open, Round::Closed],
            (Round::Open, Move::Leave) => vec![Round::Closed],
            _ => vec![],
        }
    }

    fn rewards() -> (rewards: Vec<i64>)
        ensures
            rewards@ == seq![0i64, 3i64, -1i64, -2i64],
    {
        proof {
            Self::lemma_conforming();
        }
        vec![0, 3, -1, -2]
    }
}

} // verus!
