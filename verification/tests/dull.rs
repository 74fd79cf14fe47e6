use mdp::{Always, DoNothing, Dull, IEnvironment};

#[test]
fn dull_unit_weight_is_one() {
    assert_eq!(Dull::unit(), 1);
}

#[test]
fn dull_prob_of_zero_reward_is_certain() {
    let z = Always::Same;
    let a = DoNothing::Nothing;
    assert_eq!(Dull::prob(&z, &a, &z, &0), 1);
    assert_eq!(Dull::prob(&z, &a, &z, &0), Dull::unit());
}

#[test]
fn dull_prob_of_any_other_reward_is_zero() {
    let z = Always::Same;
    let a = DoNothing::Nothing;
    assert_eq!(Dull::prob(&z, &a, &z, &1), 0);
    assert_eq!(Dull::prob(&z, &a, &z, &-1), 0);
    assert_eq!(Dull::prob(&z, &a, &z, &i64::MAX), 0);
    assert_eq!(Dull::prob(&z, &a, &z, &i64::MIN), 0);
}

#[test]
fn dull_transition_probability_is_one() {
    let z = Always::Same;
    let a = DoNothing::Nothing;
    assert_eq!(Dull::prob_transition(&z, &a, &z), Some(1));
    let weight = Dull::prob_transition(&z, &a, &z).unwrap();
    assert_eq!(weight as f32 / Dull::unit() as f32, 1.0);
}

#[test]
fn dull_expected_reward_is_zero() {
    let z = Always::Same;
    let a = DoNothing::Nothing;
    assert_eq!(Dull::expected_reward(&z, &a), Some(0));
    let reward = Dull::expected_reward(&z, &a).unwrap();
    assert_eq!(reward as f32 / Dull::unit() as f32, 0.0);
}

#[test]
fn dull_expected_reward_at_is_zero() {
    let z = Always::Same;
    let a = DoNothing::Nothing;
    assert_eq!(Dull::expected_reward_at(&z, &a, &z), Some(0));
}

#[test]
fn dull_has_one_action_one_successor_one_reward() {
    let z = Always::Same;
    let a = DoNothing::Nothing;
    assert_eq!(Dull::actions_from(&z), vec![DoNothing::Nothing]);
    assert_eq!(Dull::states_from(&z, &a), vec![Always::Same]);
    assert_eq!(Dull::rewards(), vec![0]);
}

#[test]
fn dull_is_normalized() {
    let z = Always::Same;
    for a in Dull::actions_from(&z) {
        let mut total: u64 = 0;
        for to in Dull::states_from(&z, &a) {
            for r in Dull::rewards() {
                total += Dull::prob(&z, &a, &to, &r);
            }
        }
        assert_eq!(total, Dull::unit());
    }
}

#[test]
fn dull_queries_answer_the_same_every_time() {
    let z = Always::Same;
    let a = DoNothing::Nothing;
    assert_eq!(Dull::prob_transition(&z, &a, &z), Dull::prob_transition(&z, &a, &z));
    assert_eq!(Dull::expected_reward(&z, &a), Dull::expected_reward(&z, &a));
    assert_eq!(Dull::expected_reward_at(&z, &a, &z), Dull::expected_reward_at(&z, &a, &z));
}
