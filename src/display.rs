use vstd::prelude::*;
use crate::input::Action;
use crate::logic::{Frame, PlayerState, RoundState};

verus! {

/// Texture ids under which the action images are registered with the UI.
#[derive(Clone, Copy, PartialEq, Eq, Structural, Debug)]
pub struct TexturesEgui {
    pub gunshot: u64,
    pub shield: u64,
    pub reload: u64,
}

impl Default for TexturesEgui {
    fn default() -> (r: Self)
        ensures
            r == (TexturesEgui { gunshot: 2, shield: 3, reload: 4 }),
    {
        TexturesEgui { gunshot: 2, shield: 3, reload: 4 }
    }
}

/// Marks the sprite that shows the player with this handle.
#[derive(Clone, Copy, PartialEq, Eq, Structural, Debug)]
pub struct DisplayPlayer {
    pub handle: usize,
}

/// How far the collection window has run at `frame`, as frames elapsed over
/// the window's length; `None` outside a collection window.
pub fn round_time_progress(round_state: &RoundState, frame: Frame) -> (r: Option<(i64, i64)>)
    ensures
        match *round_state {
            RoundState::WaitUntil(w) => r == Some(
                ((frame - w.from) as i64, (w.until - w.from) as i64),
            ),
            _ => r is None,
        },
{
    match round_state {
        RoundState::WaitUntil(wait) => {
            let duration = wait.until as i64 - wait.from as i64;
            let elapsed = frame as i64 - wait.from as i64;
            Some((elapsed, duration))
        },
        _ => None,
    }
}

/// Whether choices are shown, and how: `Some(true)` while they are still
/// being made, `Some(false)` while they are revealed, `None` otherwise.
pub fn actions_phase(round_state: &RoundState) -> (r: Option<bool>)
    ensures
        round_state is WaitUntil ==> r == Some(true),
        round_state is DisplayUntil ==> r == Some(false),
        !(round_state is WaitUntil || round_state is DisplayUntil) ==> r is None,
{
    match round_state {
        RoundState::WaitUntil(_) => Some(true),
        RoundState::DisplayUntil(_) => Some(false),
        _ => None,
    }
}

/// The active choices of a player, in the order reload, shield, fire.
pub open spec fn active_actions_of(p: PlayerState) -> Seq<Action> {
    (if p.reload.is_active { seq![Action::Reload] } else { Seq::empty() })
        + (if p.shield.is_active { seq![Action::Shield] } else { Seq::empty() })
        + (if p.fire.is_active { seq![Action::Fire] } else { Seq::empty() })
}

pub fn active_actions(p: &PlayerState) -> (r: Vec<Action>)
    ensures
        r@ == active_actions_of(*p),
{
    let mut r: Vec<Action> = Vec::new();
    if p.reload.is_active {
        r.push(Action::Reload);
    }
    if p.shield.is_active {
        r.push(Action::Shield);
    }
    if p.fire.is_active {
        r.push(Action::Fire);
    }
    assert(r@ =~= active_actions_of(*p));
    r
}

pub open spec fn action_title_of(action: Action, is_wait: bool) -> Seq<char> {
    match action {
        Action::Reload => if is_wait { "Will reload"@ } else { "Reloading"@ },
        Action::Shield => if is_wait { "Will shield"@ } else { "Shielding"@ },
        Action::Fire => if is_wait { "Will fire"@ } else { "Firing"@ },
    }
}

/// The caption of a choice: announced while choices are made, in the
/// progressive once they are revealed.
pub fn action_title(action: Action, is_wait: bool) -> (r: &'static str)
    ensures
        r@ == action_title_of(action, is_wait),
{
    match action {
        Action::Reload => if is_wait { "Will reload" } else { "Reloading" },
        Action::Shield => if is_wait { "Will shield" } else { "Shielding" },
        Action::Fire => if is_wait { "Will fire" } else { "Firing" },
    }
}

} // verus!
