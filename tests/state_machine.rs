use trading_engine::state_machine::{StateMachine, SystemState};

#[test]
fn indices_and_order() {
    let all = SystemState::all();
    assert_eq!(all.len(), 5);
    for (i, s) in all.iter().enumerate() {
        assert_eq!(s.to_index(), i);
    }
    assert_eq!(SystemState::default(), SystemState::Booting);
}

#[test]
fn self_transition_changes_nothing() {
    let mut sm = StateMachine::new(1_000);
    sm.transition_to(SystemState::Accumulating, 2_000);
    let before = sm.transition_matrix.clone();
    sm.transition_to(SystemState::Accumulating, 9_000);
    assert_eq!(sm.transition_matrix, before);
    assert_eq!(sm.last_transition_ms, 2_000);
    assert_eq!(sm.get_state(), SystemState::Accumulating);
}

#[test]
fn observed_rows_sum_to_one() {
    let mut sm = StateMachine::new(0);
    sm.transition_to(SystemState::Accumulating, 1);
    sm.transition_to(SystemState::Trading, 2);
    sm.transition_to(SystemState::Cooldown, 3);
    sm.transition_to(SystemState::Trading, 4);
    sm.transition_to(SystemState::Analyzing, 5);
    let rows = sm.get_transition_probabilities();
    assert_eq!(rows[0].numerators, vec![0, 1, 0, 0, 0]);
    assert_eq!(rows[0].denominator, 1);
    assert_eq!(rows[3].numerators, vec![0, 0, 1, 0, 1]);
    assert_eq!(rows[3].denominator, 2);
    assert_eq!(rows[2].denominator, 0);
    for r in &rows {
        if r.denominator > 0 {
            assert_eq!(r.numerators.iter().map(|&x| x as u128).sum::<u128>(), r.denominator);
        }
    }
}

#[test]
fn stability_waits_five_seconds() {
    let mut sm = StateMachine::new(0);
    assert!(sm.is_stable(0));
    sm.transition_to(SystemState::Accumulating, 1_000);
    assert!(!sm.is_stable(5_999));
    assert!(sm.is_stable(6_000));
}

#[test]
fn inferred_row_is_normalized() {
    let mut sm = StateMachine::new(0);
    sm.transition_to(SystemState::Trading, 1);
    sm.update_inferred_probabilities(0, 0, 300_000);
    let rows = sm.get_inferred_probabilities();
    assert_eq!(rows[3].numerators, vec![0, 0, 0, 700_000, 300_000]);
    assert_eq!(rows[3].denominator, 1_000_000);
    assert_eq!(rows[0].denominator, 0);
    sm.transition_to(SystemState::Analyzing, 2);
    sm.update_inferred_probabilities(0, -2_000_000, 800_000);
    let rows = sm.get_inferred_probabilities();
    assert_eq!(rows[2].numerators, vec![0, 0, 100_000, 900_000, 800_000]);
    assert_eq!(rows[2].denominator, 1_800_000);
}
