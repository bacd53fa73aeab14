use vstd::prelude::*;

verus! {

/// Simulation time, as the rollback session counts it.
pub type Frame = i32;

/// Frames during which choices are collected (two seconds at 60 Hz).
pub const WAIT_FRAMES: i32 = 120;

/// Frames during which the committed choices are shown before resolution.
pub const DISPLAY_FRAMES: i32 = 60;

/// Largest frame at which a fresh collection window still fits in a `Frame`.
pub const LAST_FRAME: i32 = 2147483647 - WAIT_FRAMES;

/// A window of frames `[from, until)`.
#[derive(Clone, Copy, PartialEq, Eq, Structural, Debug)]
pub struct RoundWait {
    pub from: Frame,
    pub until: Frame,
}

/// Where the current round stands.
#[derive(Clone, Copy, PartialEq, Eq, Structural, Debug)]
pub enum RoundState {
    /// No session is running.
    NotReady,
    /// Choices are accepted until the window closes.
    WaitUntil(RoundWait),
    /// Choices are locked and shown until the window closes.
    DisplayUntil(RoundWait),
    /// The round is resolved on this evaluation.
    Compute,
    /// The round was resolved; a new one starts on the next evaluation.
    NextRound,
}

pub open spec fn frame_in_range(f: Frame) -> bool {
    f <= LAST_FRAME
}

/// A window is well formed when it ends after it starts.
pub open spec fn round_wf(s: RoundState) -> bool {
    match s {
        RoundState::WaitUntil(w) => w.from < w.until,
        RoundState::DisplayUntil(w) => w.from < w.until,
        _ => true,
    }
}

/// The collection window opened at frame `f`.
pub open spec fn collect_window(f: Frame) -> RoundState {
    RoundState::WaitUntil(RoundWait { from: f, until: (f + WAIT_FRAMES) as i32 })
}

/// The reveal window opened at frame `f`.
pub open spec fn reveal_window(f: Frame) -> RoundState {
    RoundState::DisplayUntil(RoundWait { from: f, until: (f + DISPLAY_FRAMES) as i32 })
}

/// The round state after the timer evaluation of a frame; `session` is the
/// session's current frame, or `None` when no session is running.
pub open spec fn round_after_update(s: RoundState, session: Option<Frame>) -> RoundState {
    match session {
        None => RoundState::NotReady,
        Some(f) => match s {
            RoundState::NotReady => collect_window(f),
            RoundState::WaitUntil(w) => if w.until <= f {
                reveal_window(f)
            } else {
                s
            },
            RoundState::DisplayUntil(w) => if w.until <= f {
                RoundState::Compute
            } else {
                s
            },
            _ => s,
        },
    }
}

/// The round state after a resolved round is followed up.
pub open spec fn round_after_react(s: RoundState, session: Option<Frame>) -> RoundState {
    match session {
        Some(f) => if s is NextRound {
            collect_window(f)
        } else {
            s
        },
        None => s,
    }
}

/// The window the timer opens at the session frame fits in a `Frame`: a
/// collection window from `NotReady`, a reveal window from `WaitUntil`.
pub open spec fn update_in_range(s: RoundState, session: Option<Frame>) -> bool {
    match session {
        Some(f) => match s {
            RoundState::NotReady => f <= i32::MAX - WAIT_FRAMES,
            RoundState::WaitUntil(_) => f <= i32::MAX - DISPLAY_FRAMES,
            _ => true,
        },
        None => true,
    }
}

/// The collection window the follow-up opens after `NextRound` fits in a
/// `Frame`.
pub open spec fn react_in_range(s: RoundState, session: Option<Frame>) -> bool {
    match session {
        Some(f) => s is NextRound ==> f <= i32::MAX - WAIT_FRAMES,
        None => true,
    }
}

/// Health every player starts a match with.
pub const STARTING_HEALTH: i32 = 3;

/// Whether the player chose to reload this round.
#[derive(Clone, Copy, PartialEq, Eq, Structural, Debug)]
pub struct ActionReload {
    pub is_active: bool,
}

/// Whether the player chose to shield this round.
#[derive(Clone, Copy, PartialEq, Eq, Structural, Debug)]
pub struct ActionShield {
    pub is_active: bool,
}

/// Whether the player chose to fire this round.
#[derive(Clone, Copy, PartialEq, Eq, Structural, Debug)]
pub struct ActionFire {
    pub is_active: bool,
}

#[derive(Clone, Copy, PartialEq, Eq, Structural, Debug)]
pub struct Health {
    pub amount: i32,
}

#[derive(Clone, Copy, PartialEq, Eq, Structural, Debug)]
pub struct Ammunition {
    pub amount: i32,
}

/// Everything the simulation holds for one player; the players of a match sit
/// in an array indexed by their handle.
#[derive(Clone, Copy, PartialEq, Eq, Structural, Debug)]
pub struct PlayerState {
    pub reload: ActionReload,
    pub shield: ActionShield,
    pub fire: ActionFire,
    pub health: Health,
    pub ammo: Ammunition,
}

/// At most one of reload, shield and fire is active.
pub open spec fn at_most_one_action(p: PlayerState) -> bool {
    &&& !(p.reload.is_active && p.shield.is_active)
    &&& !(p.reload.is_active && p.fire.is_active)
    &&& !(p.shield.is_active && p.fire.is_active)
}

/// A player as a settled frame leaves it.
pub open spec fn player_wf(p: PlayerState) -> bool {
    at_most_one_action(p) && p.ammo.amount >= 0
}

/// A round can be resolved without leaving the range of `i32`.
pub open spec fn player_in_range(p: PlayerState) -> bool {
    p.ammo.amount < i32::MAX && p.health.amount > i32::MIN
}

pub open spec fn players_in_range(ps: [PlayerState; 2]) -> bool {
    player_in_range(ps[0]) && player_in_range(ps[1])
}

/// The player of a fresh match: no choice declared yet, full health, no
/// ammunition.
pub open spec fn fresh_player() -> PlayerState {
    PlayerState {
        reload: ActionReload { is_active: false },
        shield: ActionShield { is_active: false },
        fire: ActionFire { is_active: false },
        health: Health { amount: STARTING_HEALTH },
        ammo: Ammunition { amount: 0 },
    }
}

/// The handle of the other player.
pub open spec fn opponent_of(handle: int) -> int {
    1 - handle
}

/// Ammunition once a reload, if chosen, has been counted.
pub open spec fn ammo_after_reload(p: PlayerState) -> int {
    p.ammo.amount + if p.reload.is_active { 1int } else { 0 }
}

/// Only a player who reloads can be hit.
pub open spec fn vulnerable(p: PlayerState) -> bool {
    p.reload.is_active
}

/// A shot leaves when the player fires with ammunition in hand.
pub open spec fn shoots(p: PlayerState) -> bool {
    p.fire.is_active && ammo_after_reload(p) > 0
}

/// The player `p` after resolution against `other`: both effects are taken
/// from the state before resolution, so the order of the players is immaterial.
pub open spec fn resolved(p: PlayerState, other: PlayerState) -> PlayerState {
    PlayerState {
        reload: p.reload,
        shield: p.shield,
        fire: p.fire,
        health: Health {
            amount: (p.health.amount - if shoots(other) && vulnerable(p) { 1int } else { 0 }) as i32,
        },
        ammo: Ammunition {
            amount: (ammo_after_reload(p) - if shoots(p) { 1int } else { 0 }) as i32,
        },
    }
}

pub open spec fn resolve_round(ps: [PlayerState; 2]) -> [PlayerState; 2] {
    [resolved(ps[0], ps[1]), resolved(ps[1], ps[0])]
}

/// Round state and players after the combat resolver has run: it acts on
/// `Compute` alone and leaves `NextRound` behind.
pub open spec fn end_round(s: RoundState, ps: [PlayerState; 2]) -> (RoundState, [PlayerState; 2]) {
    if s is Compute {
        (RoundState::NextRound, resolve_round(ps))
    } else {
        (s, ps)
    }
}

/// The two players of a new match, indexed by handle.
pub fn spawn_players() -> (r: [PlayerState; 2])
    ensures
        r == [fresh_player(), fresh_player()],
{
    let p = PlayerState {
        reload: ActionReload { is_active: false },
        shield: ActionShield { is_active: false },
        fire: ActionFire { is_active: false },
        health: Health { amount: STARTING_HEALTH },
        ammo: Ammunition { amount: 0 },
    };
    [p, p]
}

/// The handle of the other player of a two-player roster.
pub fn opponent(handle: usize) -> (r: usize)
    requires
        handle < 2,
    ensures
        r == opponent_of(handle as int),
{
    assert((handle ^ 1usize) == 1usize - handle) by (bit_vector)
        requires
            handle < 2usize,
    ;
    handle ^ 1
}

/// Resolves the round when the state is `Compute`: reloads are counted and
/// vulnerability decided first, then shots are fired, then hits applied.
pub fn compute_end_round(round_state: &mut RoundState, players: &mut [PlayerState; 2])
    requires
        players_in_range(*old(players)),
    ensures
        (*final(round_state), *final(players)) == end_round(*old(round_state), *old(players)),
        forall|i: int|
            0 <= i < 2 && old(players)[i].ammo.amount >= 0 ==> #[trigger] final(players)[i].ammo.amount >= 0,
{
    if !matches!(*round_state, RoundState::Compute) {
        return;
    }
    let ghost start = *players;
    let mut vulnerables: [bool; 2] = [true, true];
    let mut h: usize = 0;
    while h < 2
        invariant
            h <= 2,
            forall|j: int|
                0 <= j < 2 ==> #[trigger] vulnerables[j] == (j >= h || vulnerable(start[j])),
            forall|j: int|
                0 <= j < 2 ==> (#[trigger] players[j]).ammo.amount == if j < h {
                    ammo_after_reload(start[j])
                } else {
                    start[j].ammo.amount as int
                },
            forall|j: int|
                0 <= j < 2 ==> (#[trigger] players[j]).reload == start[j].reload
                    && players[j].shield == start[j].shield && players[j].fire == start[j].fire
                    && players[j].health == start[j].health,
            players_in_range(start),
        decreases 2 - h,
    {
        if players[h].reload.is_active {
            players[h].ammo.amount = players[h].ammo.amount + 1;
        } else {
            vulnerables[h] = false;
        }
        h = h + 1;
    }
    let mut damages: [bool; 2] = [false, false];
    let mut h: usize = 0;
    while h < 2
        invariant
            h <= 2,
            forall|j: int| 0 <= j < 2 ==> #[trigger] vulnerables[j] == vulnerable(start[j]),
            forall|j: int|
                0 <= j < 2 ==> #[trigger] damages[j] == (opponent_of(j) < h && shoots(
                    start[opponent_of(j)],
                ) && vulnerable(start[j])),
            forall|j: int|
                0 <= j < 2 ==> (#[trigger] players[j]).ammo.amount == ammo_after_reload(start[j])
                    - if j < h && shoots(start[j]) { 1int } else { 0 },
            forall|j: int|
                0 <= j < 2 ==> (#[trigger] players[j]).reload == start[j].reload
                    && players[j].shield == start[j].shield && players[j].fire == start[j].fire
                    && players[j].health == start[j].health,
        decreases 2 - h,
    {
        if players[h].fire.is_active && players[h].ammo.amount > 0 {
            players[h].ammo.amount = players[h].ammo.amount - 1;
            let attacked = opponent(h);
            if vulnerables[attacked] {
                damages[attacked] = true;
            }
        }
        h = h + 1;
    }
    let mut h: usize = 0;
    while h < 2
        invariant
            h <= 2,
            forall|j: int|
                0 <= j < 2 ==> #[trigger] damages[j] == (shoots(start[opponent_of(j)]) && vulnerable(
                    start[j],
                )),
            forall|j: int|
                0 <= j < 2 ==> (#[trigger] players[j]).health.amount == start[j].health.amount
                    - if j < h && damages[j] { 1int } else { 0 },
            forall|j: int|
                0 <= j < 2 ==> (#[trigger] players[j]).ammo == resolved(start[j], start[opponent_of(j)]).ammo
                    && players[j].reload == start[j].reload && players[j].shield == start[j].shield
                    && players[j].fire == start[j].fire,
            players_in_range(start),
        decreases 2 - h,
    {
        if damages[h] {
            players[h].health.amount = players[h].health.amount - 1;
        }
        h = h + 1;
    }
    *round_state = RoundState::NextRound;
    assert(players[0] == resolved(start[0], start[1]));
    assert(players[1] == resolved(start[1], start[0]));
    assert(*players =~= resolve_round(start));
}

/// Advances the round timer for one evaluation. Without a session the round
/// falls back to `NotReady`.
pub fn update_round(round_state: &mut RoundState, session: Option<Frame>)
    requires
        update_in_range(*old(round_state), session),
    ensures
        *final(round_state) == round_after_update(*old(round_state), session),
{
    match session {
        None => {
            if !matches!(*round_state, RoundState::NotReady) {
                *round_state = RoundState::NotReady;
            }
        },
        Some(frame) => {
            *round_state = match *round_state {
                RoundState::NotReady => RoundState::WaitUntil(
                    RoundWait { from: frame, until: frame + WAIT_FRAMES },
                ),
                RoundState::WaitUntil(wait) => {
                    if wait.until <= frame {
                        RoundState::DisplayUntil(
                            RoundWait { from: frame, until: frame + DISPLAY_FRAMES },
                        )
                    } else {
                        *round_state
                    }
                },
                RoundState::DisplayUntil(wait) => {
                    if wait.until <= frame {
                        RoundState::Compute
                    } else {
                        *round_state
                    }
                },
                _ => *round_state,
            };
        },
    }
}

/// Opens the next collection window once a round has been resolved.
pub fn react_end_round(round_state: &mut RoundState, session: Option<Frame>)
    requires
        react_in_range(*old(round_state), session),
    ensures
        *final(round_state) == round_after_react(*old(round_state), session),
{
    if let Some(frame) = session {
        if matches!(*round_state, RoundState::NextRound) {
            *round_state = RoundState::WaitUntil(RoundWait { from: frame, until: frame + WAIT_FRAMES });
        }
    }
}

/// Resolution never leaves a player in ammunition debt, and a shot fired
/// without ammunition changes nothing: the shooter keeps its (zero)
/// ammunition and the opponent's health stands.
pub proof fn lemma_ammunition_never_negative(ps: [PlayerState; 2], i: int)
    requires
        0 <= i < 2,
        player_wf(ps[0]),
        player_wf(ps[1]),
        players_in_range(ps),
    ensures
        resolve_round(ps)[i].ammo.amount >= 0,
        ps[i].fire.is_active && ps[i].ammo.amount == 0 ==> resolve_round(ps)[i].ammo == ps[i].ammo
            && resolve_round(ps)[opponent_of(i)].health == ps[opponent_of(i)].health,
{
}

/// The resolver acts once per round: run a second time on what it left
/// behind, it changes nothing.
pub proof fn lemma_compute_once(s: RoundState, ps: [PlayerState; 2])
    ensures
        end_round(s, ps).0 !is Compute,
        end_round(end_round(s, ps).0, end_round(s, ps).1) == end_round(s, ps),
{
}

} // verus!
