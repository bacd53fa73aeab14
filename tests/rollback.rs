use logic::logic::{RoundState, RoundWait};
use logic::rollback::{RollbackSession, Simulation};

fn run(sim: &mut Simulation, frames: std::ops::Range<i32>, inputs_at: &dyn Fn(i32) -> [u8; 2]) {
    for f in frames {
        sim.advance_frame(f, &inputs_at(f));
    }
}

#[test]
fn new_match_is_not_ready() {
    let sim = Simulation::new();
    assert_eq!(sim.round, RoundState::NotReady);
    assert_eq!(sim.players[0].health.amount, 3);
    assert_eq!(sim.players[1].ammo.amount, 0);
    assert!(!sim.players[0].reload.is_active && !sim.players[0].shield.is_active && !sim.players[0].fire.is_active);
}

#[test]
fn first_frame_opens_window_and_takes_input() {
    let mut sim = Simulation::new();
    sim.advance_frame(0, &[4, 0]);
    assert_eq!(sim.round, RoundState::WaitUntil(RoundWait { from: 0, until: 120 }));
    assert!(sim.players[0].fire.is_active);
    assert!(!sim.players[1].reload.is_active && !sim.players[1].shield.is_active && !sim.players[1].fire.is_active);
}

#[test]
fn closing_frame_takes_no_input() {
    let mut sim = Simulation::new();
    run(&mut sim, 0..120, &|f| if f == 119 { [2, 0] } else { [0, 0] });
    sim.advance_frame(120, &[4, 4]);
    assert_eq!(sim.round, RoundState::DisplayUntil(RoundWait { from: 120, until: 180 }));
    assert!(sim.players[0].shield.is_active && !sim.players[0].fire.is_active);
    assert!(!sim.players[1].fire.is_active);
}

#[test]
fn undeclared_round_changes_nothing() {
    let mut sim = Simulation::new();
    run(&mut sim, 0..181, &|_| [0, 0]);
    assert_eq!(sim.players, Simulation::new().players);
    assert_eq!(sim.round, RoundState::WaitUntil(RoundWait { from: 180, until: 300 }));
}

#[test]
fn two_rounds_example() {
    let mut sim = Simulation::new();
    run(&mut sim, 0..180, &|f| if f == 5 { [1, 1] } else { [0, 0] });
    assert_eq!(sim.round, RoundState::DisplayUntil(RoundWait { from: 120, until: 180 }));
    sim.advance_frame(180, &[0, 0]);
    assert_eq!(sim.round, RoundState::WaitUntil(RoundWait { from: 180, until: 300 }));
    assert_eq!(sim.players[0].ammo.amount, 1);
    assert_eq!(sim.players[1].ammo.amount, 1);
    assert_eq!(sim.players[0].health.amount, 3);
    assert_eq!(sim.players[1].health.amount, 3);

    run(&mut sim, 181..361, &|f| if f == 200 { [4, 1] } else { [0, 0] });
    assert_eq!(sim.round, RoundState::WaitUntil(RoundWait { from: 360, until: 480 }));
    assert_eq!(sim.players[0].ammo.amount, 0);
    assert_eq!(sim.players[1].ammo.amount, 2);
    assert_eq!(sim.players[0].health.amount, 3);
    assert_eq!(sim.players[1].health.amount, 2);
}

#[test]
fn input_during_reveal_is_ignored() {
    let mut sim = Simulation::new();
    run(&mut sim, 0..150, &|f| if f == 10 { [1, 1] } else if f == 130 { [4, 4] } else { [0, 0] });
    assert!(sim.players[0].reload.is_active);
    assert!(!sim.players[0].fire.is_active);
}

#[test]
fn end_session_resets_round() {
    let mut sim = Simulation::new();
    run(&mut sim, 0..10, &|_| [2, 0]);
    let players = sim.players;
    sim.end_session();
    assert_eq!(sim.round, RoundState::NotReady);
    assert_eq!(sim.players, players);
}

fn script(f: i32) -> [u8; 2] {
    match f {
        30 => [4, 2],
        150 => [1, 1],
        200 => [0, 4],
        _ => [0, 0],
    }
}

#[test]
fn identical_histories_agree() {
    let mut a = RollbackSession::new(Simulation::new(), 0);
    let mut b = RollbackSession::new(Simulation::new(), 0);
    for f in 0..400 {
        a.advance(script(f));
        b.advance(script(f));
        assert_eq!(a.current_state(), b.current_state());
    }
    assert_eq!(a.current_frame(), 400);
}

#[test]
fn correction_matches_continuous_simulation() {
    let mut predicted = RollbackSession::new(Simulation::new(), 0);
    for f in 0..240 {
        let mut inputs = script(f);
        if f == 200 {
            inputs[1] = 0;
        }
        predicted.advance(inputs);
    }
    let mut truth = Simulation::new();
    run(&mut truth, 0..240, &script);
    assert_ne!(predicted.current_state(), truth);
    predicted.correct(200, script(200));
    assert_eq!(predicted.current_state(), truth);
    assert_eq!(predicted.current_frame(), 240);
}

#[test]
fn correction_across_resolution() {
    let mut predicted = RollbackSession::new(Simulation::new(), 0);
    for f in 0..200 {
        let inputs = if f == 100 { [0, 0] } else { script(f) };
        predicted.advance(inputs);
    }
    predicted.correct(100, [0, 4]);
    let mut truth = Simulation::new();
    run(&mut truth, 0..200, &|f| if f == 100 { [0, 4] } else { script(f) });
    assert_eq!(predicted.current_state(), truth);
    assert_eq!(truth.players[1].ammo.amount, 0);
    assert_eq!(truth.players[0].ammo.amount, 0);
}

#[test]
fn session_from_later_frame() {
    let mut sim = Simulation::new();
    run(&mut sim, 0..50, &script);
    let mut session = RollbackSession::new(sim, 50);
    assert_eq!(session.current_frame(), 50);
    session.advance([4, 0]);
    sim.advance_frame(50, &[4, 0]);
    assert_eq!(session.current_state(), sim);
}

#[test]
fn confirmed_frames_are_dropped() {
    let mut session = RollbackSession::new(Simulation::new(), 0);
    for f in 0..220 {
        let inputs = if f == 210 { [0, 0] } else { script(f) };
        session.advance(inputs);
    }
    let before = session.current_state();
    session.confirm(208);
    assert_eq!(session.current_state(), before);
    assert_eq!(session.current_frame(), 220);
    session.correct(210, [1, 1]);
    let mut truth = Simulation::new();
    run(&mut truth, 0..220, &|f| if f == 210 { [1, 1] } else { script(f) });
    assert_eq!(session.current_state(), truth);
}

#[test]
fn confirm_everything_keeps_current_state() {
    let mut session = RollbackSession::new(Simulation::new(), 5);
    session.advance([1, 2]);
    session.advance([4, 0]);
    let before = session.current_state();
    session.confirm(7);
    assert_eq!(session.current_state(), before);
    assert_eq!(session.current_frame(), 7);
    session.advance([0, 0]);
    assert_eq!(session.current_frame(), 8);
}
