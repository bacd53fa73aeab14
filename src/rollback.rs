use vstd::prelude::*;
use crate::input::{handle_inputs, inputs_applied};
use crate::logic::{
    Frame, LAST_FRAME, PlayerState, RoundState, compute_end_round, end_round, frame_in_range,
    fresh_player, lemma_ammunition_never_negative, player_wf, players_in_range, react_end_round,
    round_after_react, round_after_update, round_wf, spawn_players, update_round,
};

verus! {

/// Everything a rollback saves and restores: the players and the round.
#[derive(Clone, Copy, PartialEq, Eq, Debug)]
pub struct Simulation {
    pub players: [PlayerState; 2],
    pub round: RoundState,
}

/// A new match, before any session frame.
pub open spec fn new_match() -> Simulation {
    Simulation { players: [fresh_player(), fresh_player()], round: RoundState::NotReady }
}

/// A state that settled frames keep: windows end after they start, every
/// player holds at most one choice and no debt of ammunition.
pub open spec fn sim_wf(s: Simulation) -> bool {
    round_wf(s.round) && player_wf(s.players[0]) && player_wf(s.players[1])
}

/// One simulated frame: the round timer, then the combat resolver, then the
/// follow-up that opens the next round, and last the frame's inputs. Inputs
/// are thus taken on the frames `[from, until)` of a collection window: on the
/// frame that opens it, and not on the frame that closes it.
pub open spec fn frame_step(s: Simulation, frame: Frame, inputs: [u8; 2]) -> Simulation {
    let updated = round_after_update(s.round, Some(frame));
    let (resolved_round, resolved_players) = end_round(updated, s.players);
    let round = round_after_react(resolved_round, Some(frame));
    Simulation { players: inputs_applied(round, resolved_players, inputs), round }
}

pub open spec fn step_in_range(s: Simulation, frame: Frame) -> bool {
    frame_in_range(frame) && players_in_range(s.players)
}

/// The state reached from `s` by simulating `inputs[k]` at frame `first + k`,
/// for each `k` in turn.
pub open spec fn replay(s: Simulation, first: int, inputs: Seq<[u8; 2]>) -> Simulation
    decreases inputs.len(),
{
    if inputs.len() == 0 {
        s
    } else {
        frame_step(
            replay(s, first, inputs.drop_last()),
            (first + inputs.len() - 1) as i32,
            inputs.last(),
        )
    }
}

/// Every frame of the replay stays within the range of the integer types.
pub open spec fn replay_in_range(s: Simulation, first: int, inputs: Seq<[u8; 2]>) -> bool {
    &&& i32::MIN <= first
    &&& first + inputs.len() <= LAST_FRAME + 1
    &&& forall|k: int|
        0 <= k < inputs.len() ==> step_in_range(
            #[trigger] replay(s, first, inputs.take(k)),
            (first + k) as i32,
        )
}

impl Simulation {
    /// A new match: both players spawned, no round running yet.
    pub fn new() -> (r: Self)
        ensures
            r == new_match(),
            sim_wf(r),
    {
        Simulation { players: spawn_players(), round: RoundState::NotReady }
    }

    /// Simulates one frame of an active session.
    pub fn advance_frame(&mut self, frame: Frame, inputs: &[u8; 2])
        requires
            step_in_range(*old(self), frame),
        ensures
            *final(self) == frame_step(*old(self), frame, *inputs),
    {
        update_round(&mut self.round, Some(frame));
        compute_end_round(&mut self.round, &mut self.players);
        react_end_round(&mut self.round, Some(frame));
        let round = self.round;
        handle_inputs(&round, inputs, &mut self.players);
    }

    /// The session ended: the round falls back to `NotReady`.
    pub fn end_session(&mut self)
        ensures
            final(self).players == old(self).players,
            final(self).round == RoundState::NotReady,
    {
        update_round(&mut self.round, None);
    }
}

/// Simulating a history in one run, or up to frame `first + c` and then on
/// from the state saved there, reaches the same state: resuming from a
/// snapshot loses nothing.
pub proof fn lemma_replay_split(s: Simulation, first: int, inputs: Seq<[u8; 2]>, c: int)
    requires
        0 <= c <= inputs.len(),
    ensures
        replay(s, first, inputs) == replay(replay(s, first, inputs.take(c)), first + c, inputs.skip(c)),
    decreases inputs.len(),
{
    if inputs.len() == c {
        assert(inputs.take(c) =~= inputs);
        assert(inputs.skip(c) =~= Seq::<[u8; 2]>::empty());
    } else {
        let shorter = inputs.drop_last();
        lemma_replay_split(s, first, shorter, c);
        assert(shorter.take(c) =~= inputs.take(c));
        assert(inputs.skip(c).drop_last() =~= shorter.skip(c));
    }
}

/// Simulating a prefix of a history is simulating the history's first frames.
proof fn lemma_replay_prefix(s: Simulation, first: int, inputs: Seq<[u8; 2]>, k: int)
    requires
        0 <= k < inputs.len(),
    ensures
        replay(s, first, inputs.take(k + 1)) == frame_step(
            replay(s, first, inputs.take(k)),
            (first + k) as i32,
            inputs[k],
        ),
{
    assert(inputs.take(k + 1).drop_last() =~= inputs.take(k));
}

/// The frames of a match kept for rollback: the state saved before each frame
/// since `first`, and the inputs each frame was simulated with.
pub struct RollbackSession {
    first_frame: Frame,
    snapshots: Vec<Simulation>,
    inputs: Vec<[u8; 2]>,
}

impl RollbackSession {
    /// The frame of the oldest saved state.
    pub closed spec fn first(&self) -> Frame {
        self.first_frame
    }

    /// The saved states, one before each frame, and the current one last.
    pub closed spec fn states(&self) -> Seq<Simulation> {
        self.snapshots@
    }

    /// The inputs of each frame since `first`.
    pub closed spec fn history(&self) -> Seq<[u8; 2]> {
        self.inputs@
    }

    pub open spec fn origin(&self) -> Simulation {
        self.states()[0]
    }

    pub open spec fn current(&self) -> Simulation {
        self.states().last()
    }

    /// The next frame to be simulated.
    pub open spec fn next_frame(&self) -> int {
        self.first() + self.history().len()
    }

    /// Each saved state is what the history makes of the oldest one.
    pub open spec fn wf(&self) -> bool {
        &&& self.states().len() == self.history().len() + 1
        &&& self.next_frame() <= LAST_FRAME + 1
        &&& forall|k: int|
            0 <= k <= self.history().len() ==> #[trigger] self.states()[k] == replay(
                self.origin(),
                self.first() as int,
                self.history().take(k),
            )
    }

    /// Starts keeping frames from `first_frame` on, with `start` as its state.
    pub fn new(start: Simulation, first_frame: Frame) -> (r: Self)
        requires
            frame_in_range(first_frame),
        ensures
            r.wf(),
            r.origin() == start,
            r.first() == first_frame,
            r.history() == Seq::<[u8; 2]>::empty(),
    {
        let r = RollbackSession { first_frame, snapshots: vec![start], inputs: Vec::new() };
        assert(r.history().take(0) =~= Seq::<[u8; 2]>::empty());
        r
    }

    /// The state after the last simulated frame.
    pub fn current_state(&self) -> (r: Simulation)
        requires
            self.wf(),
        ensures
            r == self.current(),
            r == replay(self.origin(), self.first() as int, self.history()),
    {
        assert(self.history().take(self.history().len() as int) =~= self.history());
        self.snapshots[self.snapshots.len() - 1]
    }

    /// The frame the session simulates next.
    pub fn current_frame(&self) -> (r: Frame)
        requires
            self.wf(),
        ensures
            r == self.next_frame(),
    {
        (self.first_frame as i64 + self.inputs.len() as i64) as i32
    }

    /// Simulates the next frame with the given inputs, confirmed or predicted.
    pub fn advance(&mut self, inputs: [u8; 2])
        requires
            old(self).wf(),
            step_in_range(old(self).current(), old(self).next_frame() as i32),
        ensures
            final(self).wf(),
            final(self).origin() == old(self).origin(),
            final(self).first() == old(self).first(),
            final(self).history() == old(self).history().push(inputs),
            final(self).current() == frame_step(old(self).current(), old(self).next_frame() as i32, inputs),
    {
        let frame = self.current_frame();
        let mut next = self.current_state();
        next.advance_frame(frame, &inputs);
        let ghost old_history = self.history();
        let ghost old_states = self.states();
        self.snapshots.push(next);
        self.inputs.push(inputs);
        proof {
            let h = self.history();
            assert forall|k: int| 0 <= k <= h.len() implies #[trigger] self.states()[k] == replay(
                self.origin(),
                self.first() as int,
                h.take(k),
            ) by {
                if k < h.len() {
                    assert(old_states[k] == replay(self.origin(), self.first() as int, old_history.take(k)));
                    assert(h.take(k) =~= old_history.take(k));
                } else {
                    assert(old_history.take(old_history.len() as int) =~= old_history);
                    lemma_replay_prefix(self.origin(), self.first() as int, h, old_history.len() as int);
                    assert(h.take(old_history.len() as int) =~= old_history);
                }
            }
        }
    }

    /// Every peer confirmed the frames before `frame`: they can no longer be
    /// corrected, and the states saved before them are dropped.
    pub fn confirm(&mut self, frame: Frame)
        requires
            old(self).wf(),
            old(self).first() <= frame <= old(self).next_frame(),
        ensures
            final(self).wf(),
            final(self).first() == frame,
            final(self).states() == old(self).states().skip(frame - old(self).first()),
            final(self).history() == old(self).history().skip(frame - old(self).first()),
            final(self).current() == old(self).current(),
    {
        let ghost old_states = self.states();
        let ghost old_history = self.history();
        let ghost first = self.first() as int;
        let c = (frame as i64 - self.first_frame as i64) as usize;
        let mut snapshots: Vec<Simulation> = Vec::new();
        let mut inputs: Vec<[u8; 2]> = Vec::new();
        let mut j: usize = c;
        while j < self.snapshots.len()
            invariant
                c <= j <= self.snapshots.len(),
                self.states() == old_states,
                self.history() == old_history,
                old_states.len() == old_history.len() + 1,
                snapshots@ == old_states.subrange(c as int, j as int),
                inputs@ == old_history.subrange(
                    c as int,
                    if j <= old_history.len() { j as int } else { old_history.len() as int },
                ),
            decreases self.snapshots.len() - j,
        {
            snapshots.push(self.snapshots[j]);
            if j < self.inputs.len() {
                inputs.push(self.inputs[j]);
            }
            proof {
                assert(snapshots@ =~= old_states.subrange(c as int, j + 1));
                if j < old_history.len() {
                    assert(inputs@ =~= old_history.subrange(c as int, j + 1));
                }
            }
            j = j + 1;
        }
        self.snapshots = snapshots;
        self.inputs = inputs;
        self.first_frame = frame;
        proof {
            let h = self.history();
            assert(self.states() =~= old_states.skip(c as int));
            assert(h =~= old_history.skip(c as int));
            assert forall|k: int| 0 <= k <= h.len() implies #[trigger] self.states()[k] == replay(
                self.origin(),
                self.first() as int,
                h.take(k),
            ) by {
                let whole = old_history.take(c + k);
                assert(old_states[c + k] == replay(old_states[0], first, whole));
                assert(old_states[c as int] == replay(old_states[0], first, old_history.take(c as int)));
                lemma_replay_split(old_states[0], first, whole, c as int);
                assert(whole.take(c as int) =~= old_history.take(c as int));
                assert(whole.skip(c as int) =~= h.take(k));
            }
        }
    }

    /// The true inputs of `frame` arrived and replace those it was simulated
    /// with: every frame from there on is simulated again from the state saved
    /// before it.
    pub fn correct(&mut self, frame: Frame, inputs: [u8; 2])
        requires
            old(self).wf(),
            old(self).first() <= frame < old(self).next_frame(),
            replay_in_range(
                old(self).origin(),
                old(self).first() as int,
                old(self).history().update(frame - old(self).first(), inputs),
            ),
        ensures
            final(self).wf(),
            final(self).origin() == old(self).origin(),
            final(self).first() == old(self).first(),
            final(self).history() == old(self).history().update(frame - old(self).first(), inputs),
            final(self).current() == replay(old(self).origin(), old(self).first() as int, final(self).history()),
    {
        let ghost origin = self.origin();
        let ghost first = self.first() as int;
        let ghost old_history = self.history();
        let ghost old_states = self.states();
        let index = (frame as i64 - self.first_frame as i64) as usize;
        self.snapshots.truncate(index + 1);
        self.inputs.set(index, inputs);
        let ghost h = self.history();
        assert(h.take(index as int) =~= old_history.take(index as int));
        assert forall|k: int| 0 <= k <= index implies #[trigger] self.states()[k] == replay(
            origin,
            first,
            h.take(k),
        ) by {
            assert(old_states[k] == replay(origin, first, old_history.take(k)));
            assert(h.take(k) =~= old_history.take(k));
        }
        let mut j: usize = index;
        while j < self.inputs.len()
            invariant
                index <= j <= self.inputs.len(),
                self.history() == h,
                h == old_history.update(index as int, inputs),
                self.states().len() == j + 1,
                self.states()[0] == origin,
                self.first() == first,
                first + h.len() <= LAST_FRAME + 1,
                replay_in_range(origin, first, h),
                forall|k: int|
                    0 <= k <= j ==> #[trigger] self.states()[k] == replay(origin, first, h.take(k)),
            decreases self.inputs.len() - j,
        {
            let mut next = self.snapshots[j];
            let frame_j = (self.first_frame as i64 + j as i64) as i32;
            let step_inputs = self.inputs[j];
            assert(step_in_range(replay(origin, first, h.take(j as int)), (first + j) as i32));
            next.advance_frame(frame_j, &step_inputs);
            let ghost before = self.states();
            self.snapshots.push(next);
            proof {
                lemma_replay_prefix(origin, first, h, j as int);
                assert forall|k: int| 0 <= k <= j + 1 implies #[trigger] self.states()[k] == replay(
                    origin,
                    first,
                    h.take(k),
                ) by {
                    if k <= j {
                        assert(before[k] == replay(origin, first, h.take(k)));
                    }
                }
            }
            j = j + 1;
        }
        proof {
            assert(h.take(h.len() as int) =~= h);
        }
    }
}

/// Two sessions that start from the same state at the same frame and are fed
/// the same inputs hold the same state at every frame.
pub proof fn lemma_identical_histories(a: &RollbackSession, b: &RollbackSession)
    requires
        a.wf(),
        b.wf(),
        a.origin() == b.origin(),
        a.first() == b.first(),
        a.history() == b.history(),
    ensures
        a.states() == b.states(),
{
    assert(a.states() =~= b.states());
}

/// A simulated frame keeps the invariants of the state: windows end after
/// they start, no player holds more than one choice or owes ammunition.
pub proof fn lemma_step_preserves_wf(s: Simulation, frame: Frame, inputs: [u8; 2])
    requires
        sim_wf(s),
        step_in_range(s, frame),
    ensures
        sim_wf(frame_step(s, frame, inputs)),
{
    lemma_ammunition_never_negative(s.players, 0);
    lemma_ammunition_never_negative(s.players, 1);
}

/// A window is left only once its last frame has passed, and a frame of an
/// active session never ends with a round waiting to be resolved.
pub proof fn lemma_round_advances_when_due(s: Simulation, frame: Frame, inputs: [u8; 2])
    requires
        frame_in_range(frame),
    ensures
        s.round matches RoundState::WaitUntil(w) && frame < w.until ==> frame_step(s, frame, inputs).round
            == s.round,
        s.round matches RoundState::DisplayUntil(w) && frame < w.until ==> frame_step(s, frame, inputs).round
            == s.round,
        frame_step(s, frame, inputs).round !is Compute,
        frame_step(s, frame, inputs).round !is NextRound,
        frame_step(s, frame, inputs).round !is NotReady,
{
}

} // verus!
