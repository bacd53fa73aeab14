use logic::input::{
    decode_input, handle_inputs, local_input, Action, INPUT_FIRE, INPUT_RELOAD, INPUT_SHIELD,
    INPUT_SIZE,
};
use logic::logic::{spawn_players, RoundState, RoundWait};

#[test]
fn input_bits() {
    assert_eq!(INPUT_SIZE, 1);
    assert_eq!(INPUT_RELOAD, 1);
    assert_eq!(INPUT_SHIELD, 2);
    assert_eq!(INPUT_FIRE, 4);
}

#[test]
fn decode_single_bits() {
    assert_eq!(decode_input(0), None);
    assert_eq!(decode_input(1), Some(Action::Reload));
    assert_eq!(decode_input(2), Some(Action::Shield));
    assert_eq!(decode_input(4), Some(Action::Fire));
}

#[test]
fn decode_priority_and_reserved_bits() {
    assert_eq!(decode_input(7), Some(Action::Reload));
    assert_eq!(decode_input(6), Some(Action::Shield));
    assert_eq!(decode_input(5), Some(Action::Reload));
    assert_eq!(decode_input(0b1111_1000), None);
    assert_eq!(decode_input(0b1000_0100), Some(Action::Fire));
}

#[test]
fn local_input_encodes_keys() {
    assert_eq!(local_input(false, false, false), vec![0u8]);
    assert_eq!(local_input(true, false, false), vec![1u8]);
    assert_eq!(local_input(false, true, false), vec![2u8]);
    assert_eq!(local_input(false, false, true), vec![4u8]);
    assert_eq!(local_input(true, true, true), vec![7u8]);
    assert_eq!(decode_input(local_input(false, true, true)[0]), Some(Action::Shield));
}

fn collecting() -> RoundState {
    RoundState::WaitUntil(RoundWait { from: 0, until: 120 })
}

#[test]
fn inputs_set_exactly_one_flag() {
    let mut players = spawn_players();
    handle_inputs(&collecting(), &[4, 2], &mut players);
    assert!(!players[0].reload.is_active && !players[0].shield.is_active && players[0].fire.is_active);
    assert!(!players[1].reload.is_active && players[1].shield.is_active && !players[1].fire.is_active);
    handle_inputs(&collecting(), &[7, 1], &mut players);
    assert!(players[0].reload.is_active && !players[0].shield.is_active && !players[0].fire.is_active);
    assert!(players[1].reload.is_active && !players[1].shield.is_active && !players[1].fire.is_active);
}

#[test]
fn empty_input_keeps_choice() {
    let mut players = spawn_players();
    handle_inputs(&collecting(), &[4, 0], &mut players);
    handle_inputs(&collecting(), &[0, 0b1000], &mut players);
    assert!(players[0].fire.is_active && !players[0].reload.is_active);
    assert!(!players[1].reload.is_active && !players[1].shield.is_active && !players[1].fire.is_active);
    handle_inputs(&collecting(), &[0, 1], &mut players);
    handle_inputs(&collecting(), &[0, 0], &mut players);
    assert!(players[0].fire.is_active);
    assert!(players[1].reload.is_active);
}

#[test]
fn inputs_locked_outside_collection() {
    let start = spawn_players();
    for st in [
        RoundState::NotReady,
        RoundState::DisplayUntil(RoundWait { from: 0, until: 60 }),
        RoundState::Compute,
        RoundState::NextRound,
    ] {
        let mut players = start;
        handle_inputs(&st, &[4, 2], &mut players);
        assert_eq!(players, start);
    }
}
