use mdp::{Gamble, IEnvironment, Move, Round};

const STATES: [Round; 2] = [Round::Open, Round::Closed];
const MOVES: [Move; 2] = [Move::Bet, Move::Leave];

#[test]
fn gamble_unit_weight_is_four() {
    assert_eq!(Gamble::unit(), 4);
}

#[test]
fn gamble_joint_weights() {
    let open = Round::Open;
    let closed = Round::Closed;
    assert_eq!(Gamble::prob(&open, &Move::Bet, &open, &3), 1);
    assert_eq!(Gamble::prob(&open, &Move::Bet, &open, &-1), 1);
    assert_eq!(Gamble::prob(&open, &Move::Bet, &closed, &-2), 2);
    assert_eq!(Gamble::prob(&open, &Move::Leave, &closed, &0), 4);
    assert_eq!(Gamble::prob(&open, &Move::Bet, &open, &0), 0);
    assert_eq!(Gamble::prob(&open, &Move::Bet, &open, &-2), 0);
    assert_eq!(Gamble::prob(&open, &Move::Bet, &closed, &3), 0);
    assert_eq!(Gamble::prob(&open, &Move::Leave, &open, &0), 0);
    assert_eq!(Gamble::prob(&open, &Move::Leave, &closed, &7), 0);
}

#[test]
fn gamble_weights_are_probabilities() {
    for from in STATES {
        for take in MOVES {
            for to in STATES {
                for r in [0, 3, -1, -2, 1, 100, i64::MIN, i64::MAX] {
                    assert!(Gamble::prob(&from, &take, &to, &r) <= Gamble::unit());
                }
                let weight = Gamble::prob_transition(&from, &take, &to).unwrap();
                assert!(weight <= Gamble::unit());
            }
        }
    }
}

#[test]
fn gamble_legal_actions() {
    assert_eq!(Gamble::actions_from(&Round::Open), vec![Move::Bet, Move::Leave]);
}

#[test]
fn gamble_closed_round_is_terminal() {
    assert_eq!(Gamble::actions_from(&Round::Closed), vec![]);
}

#[test]
fn gamble_successors() {
    assert_eq!(Gamble::states_from(&Round::Open, &Move::Bet), vec![Round::Open, Round::Closed]);
    assert_eq!(Gamble::states_from(&Round::Open, &Move::Leave), vec![Round::Closed]);
    assert_eq!(Gamble::states_from(&Round::Closed, &Move::Bet), vec![]);
    assert_eq!(Gamble::states_from(&Round::Closed, &Move::Leave), vec![]);
}

#[test]
fn gamble_rewards_are_distinct() {
    let rewards = Gamble::rewards();
    assert_eq!(rewards, vec![0, 3, -1, -2]);
    for (j, r) in rewards.iter().enumerate() {
        for s in &rewards[j + 1..] {
            assert_ne!(r, s);
        }
    }
}

#[test]
fn gamble_rewards_are_complete() {
    let rewards = Gamble::rewards();
    for from in STATES {
        for take in MOVES {
            for to in STATES {
                for r in -10..=10 {
                    if Gamble::prob(&from, &take, &to, &r) > 0 {
                        assert!(rewards.contains(&r));
                    }
                }
            }
        }
    }
}

#[test]
fn gamble_enumerations_hold_nothing_twice() {
    for from in STATES {
        let actions = Gamble::actions_from(&from);
        for (k, a) in actions.iter().enumerate() {
            assert!(!actions[k + 1..].contains(a));
        }
        for take in MOVES {
            let states = Gamble::states_from(&from, &take);
            for (k, s) in states.iter().enumerate() {
                assert!(!states[k + 1..].contains(s));
            }
        }
    }
}

#[test]
fn gamble_transition_probabilities() {
    let open = Round::Open;
    let closed = Round::Closed;
    assert_eq!(Gamble::prob_transition(&open, &Move::Bet, &open), Some(2));
    assert_eq!(Gamble::prob_transition(&open, &Move::Bet, &closed), Some(2));
    assert_eq!(Gamble::prob_transition(&open, &Move::Leave, &closed), Some(4));
    assert_eq!(Gamble::prob_transition(&open, &Move::Leave, &open), Some(0));
}

#[test]
fn gamble_transition_probability_as_a_fraction() {
    let weight = Gamble::prob_transition(&Round::Open, &Move::Bet, &Round::Open).unwrap();
    assert_eq!(weight as f64 / Gamble::unit() as f64, 0.5);
}

#[test]
fn gamble_expected_rewards() {
    // 1 * 3 + 1 * -1 + 2 * -2 = -2, in quarters.
    assert_eq!(Gamble::expected_reward(&Round::Open, &Move::Bet), Some(-2));
    assert_eq!(Gamble::expected_reward(&Round::Open, &Move::Leave), Some(0));
}

#[test]
fn gamble_expected_reward_as_a_fraction() {
    let reward = Gamble::expected_reward(&Round::Open, &Move::Bet).unwrap();
    assert_eq!(reward as f64 / Gamble::unit() as f64, -0.5);
}

#[test]
fn gamble_expected_rewards_on_arrival() {
    let open = Round::Open;
    let closed = Round::Closed;
    // 1 * 3 + 1 * -1 = 2 and 2 * -2 = -4, in quarters.
    assert_eq!(Gamble::expected_reward_at(&open, &Move::Bet, &open), Some(2));
    assert_eq!(Gamble::expected_reward_at(&open, &Move::Bet, &closed), Some(-4));
    assert_eq!(Gamble::expected_reward_at(&open, &Move::Leave, &closed), Some(0));
    assert_eq!(Gamble::expected_reward_at(&open, &Move::Leave, &open), Some(0));
}

#[test]
fn gamble_is_normalized() {
    for from in STATES {
        for take in Gamble::actions_from(&from) {
            let mut total: u64 = 0;
            for to in Gamble::states_from(&from, &take) {
                for r in Gamble::rewards() {
                    total += Gamble::prob(&from, &take, &to, &r);
                }
            }
            assert_eq!(total, Gamble::unit());
        }
    }
}

#[test]
fn gamble_transition_probabilities_add_up_to_one() {
    for from in STATES {
        for take in Gamble::actions_from(&from) {
            let mut total: u64 = 0;
            for to in Gamble::states_from(&from, &take) {
                total += Gamble::prob_transition(&from, &take, &to).unwrap();
            }
            assert_eq!(total, Gamble::unit());
        }
    }
}

#[test]
fn gamble_support_is_tight() {
    for from in STATES {
        for take in MOVES {
            let states = Gamble::states_from(&from, &take);
            for to in STATES {
                let weight = Gamble::prob_transition(&from, &take, &to).unwrap();
                assert_eq!(states.contains(&to), weight > 0);
            }
        }
    }
}

#[test]
fn gamble_transition_probability_is_the_marginal() {
    for from in STATES {
        for take in MOVES {
            for to in STATES {
                let mut total: u64 = 0;
                for r in Gamble::rewards() {
                    total += Gamble::prob(&from, &take, &to, &r);
                }
                assert_eq!(Gamble::prob_transition(&from, &take, &to), Some(total));
            }
        }
    }
}

#[test]
fn gamble_expected_reward_on_arrival_is_the_weighted_sum() {
    for from in STATES {
        for take in MOVES {
            for to in STATES {
                let mut total: i128 = 0;
                for r in Gamble::rewards() {
                    total += Gamble::prob(&from, &take, &to, &r) as i128 * r as i128;
                }
                assert_eq!(Gamble::expected_reward_at(&from, &take, &to), Some(total));
            }
        }
    }
}

#[test]
fn gamble_expected_reward_is_the_sum_over_all_pairs() {
    for from in STATES {
        for take in MOVES {
            let mut total: i128 = 0;
            for r in Gamble::rewards() {
                for to in Gamble::states_from(&from, &take) {
                    total += Gamble::prob(&from, &take, &to, &r) as i128 * r as i128;
                }
            }
            assert_eq!(Gamble::expected_reward(&from, &take), Some(total));
        }
    }
}

#[test]
fn gamble_obeys_total_expectation() {
    for from in STATES {
        for take in MOVES {
            let mut total: i128 = 0;
            for to in Gamble::states_from(&from, &take) {
                let weight = Gamble::prob_transition(&from, &take, &to).unwrap() as i128;
                let reward = Gamble::expected_reward_at(&from, &take, &to).unwrap();
                if weight != 0 {
                    total += weight * reward / weight;
                }
            }
            assert_eq!(Gamble::expected_reward(&from, &take), Some(total));
        }
    }
}

#[test]
fn gamble_zero_weight_collects_no_reward() {
    for from in STATES {
        for take in MOVES {
            for to in STATES {
                if Gamble::prob_transition(&from, &take, &to) == Some(0) {
                    assert_eq!(Gamble::expected_reward_at(&from, &take, &to), Some(0));
                }
            }
        }
    }
}

#[test]
fn gamble_illegal_action_has_no_outcome() {
    let closed = Round::Closed;
    for take in MOVES {
        assert!(!Gamble::actions_from(&closed).contains(&take));
        for to in STATES {
            for r in [0, 3, -1, -2, 1, -3, i64::MIN, i64::MAX] {
                assert_eq!(Gamble::prob(&closed, &take, &to, &r), 0);
            }
            assert_eq!(Gamble::prob_transition(&closed, &take, &to), Some(0));
            assert_eq!(Gamble::expected_reward_at(&closed, &take, &to), Some(0));
        }
        assert_eq!(Gamble::expected_reward(&closed, &take), Some(0));
    }
}

#[test]
fn gamble_derived_queries_are_supported() {
    for from in STATES {
        for take in MOVES {
            assert!(Gamble::expected_reward(&from, &take).is_some());
            for to in STATES {
                assert!(Gamble::prob_transition(&from, &take, &to).is_some());
                assert!(Gamble::expected_reward_at(&from, &take, &to).is_some());
            }
        }
    }
}

#[test]
fn gamble_is_normalized_within_tolerance() {
    for from in STATES {
        for take in Gamble::actions_from(&from) {
            let mut total: f64 = 0.0;
            for to in Gamble::states_from(&from, &take) {
                for r in Gamble::rewards() {
                    total += Gamble::prob(&from, &take, &to, &r) as f64 / Gamble::unit() as f64;
                }
            }
            assert!((total - 1.0).abs() < 1e-6);
        }
    }
}

#[test]
fn gamble_unreachable_outcome_has_no_weight() {
    let rewards = Gamble::rewards();
    for from in STATES {
        for take in MOVES {
            let states = Gamble::states_from(&from, &take);
            for to in STATES {
                for r in -10..=10 {
                    if !states.contains(&to) || !rewards.contains(&r) {
                        assert_eq!(Gamble::prob(&from, &take, &to, &r), 0);
                    }
                }
            }
        }
    }
}
