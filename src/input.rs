use vstd::prelude::*;
use crate::logic::{ActionFire, ActionReload, ActionShield, PlayerState, RoundState, at_most_one_action};

verus! {

/// Bytes of input each player sends per frame.
pub const INPUT_SIZE: usize = 1;

pub const INPUT_RELOAD: u8 = 1;

pub const INPUT_SHIELD: u8 = 2;

pub const INPUT_FIRE: u8 = 4;

/// The three choices a player can make in a round.
#[derive(Clone, Copy, PartialEq, Eq, Structural, Debug)]
pub enum Action {
    Reload,
    Shield,
    Fire,
}

/// The choice an input byte carries: the first set bit in the order reload,
/// shield, fire wins, and the other bits are ignored.
pub open spec fn decoded(input: u8) -> Option<Action> {
    if input & INPUT_RELOAD != 0 {
        Some(Action::Reload)
    } else if input & INPUT_SHIELD != 0 {
        Some(Action::Shield)
    } else if input & INPUT_FIRE != 0 {
        Some(Action::Fire)
    } else {
        None
    }
}

/// The byte that carries the keys pressed this frame.
pub open spec fn encoded(reload: bool, shield: bool, fire: bool) -> u8 {
    ((if reload { 1int } else { 0 }) + (if shield { 2int } else { 0 }) + (if fire { 4int } else { 0 })) as u8
}

/// The player with exactly the flag of `action` set.
pub open spec fn with_action(p: PlayerState, action: Action) -> PlayerState {
    PlayerState {
        reload: ActionReload { is_active: action is Reload },
        shield: ActionShield { is_active: action is Shield },
        fire: ActionFire { is_active: action is Fire },
        health: p.health,
        ammo: p.ammo,
    }
}

/// A byte without any choice leaves the previous choice standing.
pub open spec fn apply_input(p: PlayerState, input: u8) -> PlayerState {
    match decoded(input) {
        Some(action) => with_action(p, action),
        None => p,
    }
}

/// Players after the inputs of a frame: choices are only taken while the
/// round collects them.
pub open spec fn inputs_applied(s: RoundState, ps: [PlayerState; 2], inputs: [u8; 2]) -> [PlayerState; 2] {
    if s is WaitUntil {
        [apply_input(ps[0], inputs[0]), apply_input(ps[1], inputs[1])]
    } else {
        ps
    }
}

/// Reads the choice carried by one input byte.
pub fn decode_input(input: u8) -> (r: Option<Action>)
    ensures
        r == decoded(input),
{
    if input & INPUT_RELOAD != 0 {
        Some(Action::Reload)
    } else if input & INPUT_SHIELD != 0 {
        Some(Action::Shield)
    } else if input & INPUT_FIRE != 0 {
        Some(Action::Fire)
    } else {
        None
    }
}

/// The input payload of the local player for one frame, from the keys that
/// were just pressed.
pub fn local_input(reload: bool, shield: bool, fire: bool) -> (r: Vec<u8>)
    ensures
        r@ == seq![encoded(reload, shield, fire)],
        r@.len() == INPUT_SIZE,
{
    let mut input: u8 = 0;
    if reload {
        input = input | INPUT_RELOAD;
    }
    if shield {
        input = input | INPUT_SHIELD;
    }
    if fire {
        input = input | INPUT_FIRE;
    }
    assert(0u8 | 1u8 == 1u8 && 0u8 | 2u8 == 2u8 && 1u8 | 2u8 == 3u8 && 0u8 | 4u8 == 4u8 && 1u8 | 4u8 == 5u8
        && 2u8 | 4u8 == 6u8 && 3u8 | 4u8 == 7u8) by (bit_vector);
    vec![input]
}

/// Records each player's choice for the frame while the round collects choices.
pub fn handle_inputs(round_state: &RoundState, inputs: &[u8; 2], players: &mut [PlayerState; 2])
    ensures
        *final(players) == inputs_applied(*round_state, *old(players), *inputs),
        forall|i: int|
            0 <= i < 2 && at_most_one_action(old(players)[i]) ==> #[trigger] at_most_one_action(
                final(players)[i],
            ),
{
    if !matches!(*round_state, RoundState::WaitUntil(_)) {
        return;
    }
    let ghost start = *players;
    let mut h: usize = 0;
    while h < 2
        invariant
            h <= 2,
            round_state is WaitUntil,
            forall|j: int|
                0 <= j < 2 ==> #[trigger] players[j] == if j < h {
                    apply_input(start[j], inputs[j])
                } else {
                    start[j]
                },
        decreases 2 - h,
    {
        let input = inputs[h];
        if let Some(action) = decode_input(input) {
            players[h].reload.is_active = false;
            players[h].shield.is_active = false;
            players[h].fire.is_active = false;
            match action {
                Action::Reload => players[h].reload.is_active = true,
                Action::Shield => players[h].shield.is_active = true,
                Action::Fire => players[h].fire.is_active = true,
            }
        }
        h = h + 1;
    }
    assert(*players =~= inputs_applied(*round_state, start, *inputs));
}

/// The byte of the pressed keys decodes to the first of them in the order
/// reload, shield, fire, and to no choice when none was pressed.
pub proof fn lemma_decode_local_input(reload: bool, shield: bool, fire: bool)
    ensures
        decoded(encoded(reload, shield, fire)) == if reload {
            Some(Action::Reload)
        } else if shield {
            Some(Action::Shield)
        } else if fire {
            Some(Action::Fire)
        } else {
            None
        },
{
    let b = encoded(reload, shield, fire);
    assert(b <= 7);
    assert(forall|x: u8|
        x <= 7 ==> ((x & 1 != 0) == (x % 2 == 1) && (x & 2 != 0) == ((x / 2) % 2 == 1) && (x & 4 != 0) == (x
            >= 4))) by (bit_vector);
}

} // verus!
