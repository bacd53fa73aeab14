use vstd::prelude::*;
use crate::input::INPUT_SIZE;
use crate::states::GameState;

verus! {

/// Players of a match.
pub const NUM_PLAYERS: usize = 2;

/// Frames the session may simulate ahead of confirmed inputs.
pub const MAX_PREDICTION: usize = 12;

/// Frames by which the local player's input is delayed.
pub const LOCAL_INPUT_DELAY: usize = 2;

/// Whether a player of the session sits at this peer or at the other one.
#[derive(Clone, Copy, PartialEq, Eq, Structural, Debug)]
pub enum PlayerRole {
    Local,
    Remote,
}

/// The parameters a peer-to-peer rollback session is started with.
#[derive(Clone, Copy, PartialEq, Eq, Structural, Debug)]
pub struct SessionConfig {
    pub num_players: u32,
    pub input_size: usize,
    pub max_prediction: usize,
}

/// What one poll of matchmaking decides.
#[derive(Clone, Copy, PartialEq, Eq, Structural, Debug)]
pub enum MatchmakingStep {
    /// The socket was handed to the session already: nothing left to do.
    AlreadyStarted,
    /// Fewer peers than players have joined.
    WaitForPeers,
    /// Every player is there: start the session and enter the match.
    StartSession,
}

/// The session parameters: two players, one byte of input, twelve frames of
/// prediction.
pub fn session_config() -> (r: SessionConfig)
    ensures
        r.num_players == NUM_PLAYERS,
        r.input_size == INPUT_SIZE,
        r.max_prediction == MAX_PREDICTION,
{
    SessionConfig { num_players: NUM_PLAYERS as u32, input_size: INPUT_SIZE, max_prediction: MAX_PREDICTION }
}

/// Decides one poll of matchmaking from whether the socket is still held and
/// how many peers have joined.
pub fn wait_for_players(has_socket: bool, joined: usize) -> (r: MatchmakingStep)
    ensures
        !has_socket ==> r == MatchmakingStep::AlreadyStarted,
        has_socket && joined < NUM_PLAYERS ==> r == MatchmakingStep::WaitForPeers,
        has_socket && joined >= NUM_PLAYERS ==> r == MatchmakingStep::StartSession,
{
    if !has_socket {
        return MatchmakingStep::AlreadyStarted;
    }
    if joined < NUM_PLAYERS {
        return MatchmakingStep::WaitForPeers;
    }
    MatchmakingStep::StartSession
}

/// The phase the application enters after a poll of matchmaking.
pub fn state_after(current: GameState, step: MatchmakingStep) -> (r: GameState)
    ensures
        step == MatchmakingStep::StartSession ==> r == GameState::InGame,
        step != MatchmakingStep::StartSession ==> r == current,
{
    match step {
        MatchmakingStep::StartSession => GameState::InGame,
        _ => current,
    }
}

/// The input delay a player of the session is given: local players wait
/// `LOCAL_INPUT_DELAY` frames, remote ones are left as they are.
pub fn frame_delay(role: PlayerRole) -> (r: Option<usize>)
    ensures
        role == PlayerRole::Local ==> r == Some(LOCAL_INPUT_DELAY),
        role == PlayerRole::Remote ==> r is None,
{
    match role {
        PlayerRole::Local => Some(LOCAL_INPUT_DELAY),
        PlayerRole::Remote => None,
    }
}

} // verus!
