use vstd::prelude::*;

verus! {

/// The phases of the application: assets load, then peers are matched, then
/// the match runs.
#[derive(Clone, Copy, PartialEq, Eq, Structural, Debug, Hash)]
pub enum GameState {
    AssetLoading,
    Matchmaking,
    InGame,
}

} // verus!
