//! The transition scene: it stands between two scenes and masks the switch
//! with the wipe.
//!
//! While the wipe runs `In`, the last frame of the scene that left is kept on
//! the screen. While it runs `Out`, the scene that comes draws underneath.
//! When `Out` is over the scene that comes is handed to the host.

use crate::input::{Input, InputState};
use crate::screen::{Cell, Frame, Screen};
use crate::state_machine::State;
use crate::transition::{
    lemma_step_settles, steps_to_settle, Transition, TransitionState as Phase, Wipe, SETTLE_TICKS,
};
use vstd::prelude::*;

verus! {

/// The mathematical content of a transition scene.
pub struct Handover<S> {
    /// The scene that comes; none once it is handed over.
    pub next: Option<S>,
    /// The wipe.
    pub wipe: Wipe,
    /// The cells of the screen as they were when the scene was entered.
    pub snapshot: Seq<Cell>,
}

/// The frame with a snapshot put back: cell by cell, as far as the frame and
/// the snapshot both reach.
pub open spec fn restored(frame: Frame, snapshot: Seq<Cell>) -> Frame {
    restored_upto(frame, snapshot, snapshot.len() as int)
}

/// The frame with the first `n` cells of a snapshot put back.
pub open spec fn restored_upto(frame: Frame, snapshot: Seq<Cell>, n: int) -> Frame {
    Frame {
        cells: Seq::new(
            frame.cells.len(),
            |i: int|
                if i < n && i < snapshot.len() {
                    snapshot[i]
                } else {
                    frame.cells[i]
                },
        ),
        ..frame
    }
}

/// The wipe after a step of the `In` phase: where the step ended the phase,
/// `Out` begins.
pub open spec fn turned(wipe: Wipe) -> Wipe {
    if wipe.phase.is_none() {
        wipe.armed(Phase::Out)
    } else {
        wipe
    }
}

/// A scene that wraps the scene to come and shows the wipe before it hands
/// that scene to the host.
#[verifier::reject_recursive_types(S)]
pub struct TransitionState<S: State<Scene = S>> {
    next_state: Option<S>,
    transition: Transition,
    prev_cells: Vec<Cell>,
}

impl<S: State<Scene = S>> View for TransitionState<S> {
    type V = Handover<S>;

    closed spec fn view(&self) -> Handover<S> {
        Handover { next: self.next_state, wipe: self.transition@, snapshot: self.prev_cells@ }
    }
}

impl<S: State<Scene = S>> TransitionState<S> {
    /// A transition to `next_state`, with the wipe at rest and no snapshot
    /// yet.
    pub fn new(next_state: S) -> (scene: Self)
        ensures
            scene@ == (Handover { next: Some(next_state), wipe: Wipe::idle(), snapshot: Seq::empty() }),
    {
        TransitionState {
            next_state: Some(next_state),
            transition: Transition::new(),
            prev_cells: Vec::new(),
        }
    }

    /// The phase of the wipe, if one is running.
    pub fn phase(&self) -> (phase: Option<Phase>)
        ensures
            phase == self@.wipe.phase,
    {
        self.transition.state()
    }

    /// Whether the scene still holds the scene to come.
    pub fn holds_next(&self) -> (holds: bool)
        ensures
            holds == self@.next.is_some(),
    {
        self.next_state.is_some()
    }

    /// Puts the snapshot back on the screen.
    fn redraw_snapshot(&self, screen: &mut Screen)
        ensures
            final(screen)@ == restored(old(screen)@, self@.snapshot),
    {
        let width = screen.width();
        let height = screen.height();
        assert(width * height <= 0xffff * 0xffff) by (nonlinear_arith)
            requires
                0 <= width <= 0xffff,
                0 <= height <= 0xffff,
        ;
        let area: usize = width as usize * height as usize;
        let n: usize = self.prev_cells.len();
        let ghost frame = screen@;
        assert(restored_upto(frame, self.prev_cells@, 0).cells =~= frame.cells);
        let mut i: usize = 0;
        while i < n
            invariant
                n == self.prev_cells@.len(),
                0 <= i <= n,
                frame.wf(),
                area == frame.width * frame.height,
                screen@ == restored_upto(frame, self.prev_cells@, i as int),
            decreases n - i,
        {
            let ghost before = screen@;
            if i < area {
                let position = screen.index_to_xy(i);
                let cell = self.prev_cells[i];
                screen.set_cell(position.0, position.1, cell.rune, cell.color);
                assert(screen@.cells =~= before.cells.update(i as int, cell));
            }
            assert(screen@.cells =~= restored_upto(frame, self.prev_cells@, i + 1).cells);
            i += 1;
        }
    }
}

/// What one frame of a transition scene does.
///
/// In `In` the wipe advances, the snapshot is put back on the screen, and
/// `Out` begins where the step ended `In`. In `Out` the wipe advances and the
/// scene to come runs its `update` on the screen, whatever it may ask for
/// being dropped; where the step ended `Out`, that scene is handed over. At
/// rest nothing moves. The wipe is drawn last in each case.
pub open spec fn frame_of_transition<S: State<Scene = S>>(
    before: Handover<S>,
    after: Handover<S>,
    shown: Frame,
    drawn: Frame,
    input: InputState,
    dt: u64,
    next: Option<S>,
) -> bool {
    let stepped = before.wipe.fitted(shown.width, shown.height).stepped(dt as int);
    match before.wipe.phase {
        Some(Phase::In) => {
            &&& after == Handover { wipe: turned(stepped), ..before }
            &&& drawn == after.wipe.painted(restored(shown, before.snapshot))
            &&& next.is_none()
        },
        Some(Phase::Out) => {
            &&& after.wipe == stepped
            &&& after.snapshot == before.snapshot
            &&& match before.next {
                Some(coming) => exists|updated: S, content: Frame, asked: Option<S>| #[trigger]
                    S::updated(coming, updated, shown, content, input, dt, asked) && drawn
                        == stepped.painted(content) && if stepped.phase.is_none() {
                        next == Some(updated) && after.next.is_none()
                    } else {
                        next.is_none() && after.next == Some(updated)
                    },
                None => drawn == stepped.painted(shown) && next.is_none() && after.next.is_none(),
            }
        },
        None => {
            &&& after == before
            &&& drawn == before.wipe.painted(shown)
            &&& next.is_none()
        },
    }
}

impl<S: State<Scene = S>> State for TransitionState<S> {
    type Scene = S;

    /// Entering sizes the wipe to the screen, starts `In` and takes the
    /// snapshot. The screen itself is left alone.
    open spec fn entered(
        before: Self,
        after: Self,
        shown: Frame,
        drawn: Frame,
        input: InputState,
    ) -> bool {
        &&& drawn == shown
        &&& after@ == Handover {
            next: before@.next,
            wipe: before@.wipe.resized(shown.width, shown.height).armed(Phase::In),
            snapshot: shown.cells,
        }
    }

    open spec fn updated(
        before: Self,
        after: Self,
        shown: Frame,
        drawn: Frame,
        input: InputState,
        dt: u64,
        next: Option<S>,
    ) -> bool {
        frame_of_transition(before@, after@, shown, drawn, input, dt, next)
    }

    /// Leaving does nothing.
    open spec fn exited(
        before: Self,
        after: Self,
        shown: Frame,
        drawn: Frame,
        input: InputState,
    ) -> bool {
        after == before && drawn == shown
    }

    fn enter(&mut self, screen: &mut Screen, input: &Input) {
        self.transition.resize(screen.width(), screen.height());
        self.transition.change_state(Phase::In);
        self.prev_cells = screen.clone_buffer();
    }

    fn update(&mut self, screen: &mut Screen, input: &Input, dt: u64) -> (next: Option<S>) {
        let mut handed: Option<S> = None;
        match self.transition.state() {
            Some(Phase::In) => {
                let done = self.transition.update(screen, dt);
                self.redraw_snapshot(screen);
                if done {
                    self.transition.change_state(Phase::Out);
                }
            },
            Some(Phase::Out) => {
                let done = self.transition.update(screen, dt);
                let ghost asked: Option<S> = None;
                let ghost coming = self.next_state;
                if let Some(scene) = &mut self.next_state {
                    let request = scene.update(screen, input, dt);
                    proof {
                        asked = request;
                    }
                }
                let ghost content = screen@;
                let ghost updated = self.next_state;
                if done {
                    handed = self.next_state.take();
                }
                proof {
                    if coming.is_some() {
                        assert(S::updated(
                            coming.unwrap(),
                            updated.unwrap(),
                            old(screen)@,
                            content,
                            input@,
                            dt,
                            asked,
                        ));
                    }
                }
            },
            None => {},
        }
        self.transition.draw(screen);
        handed
    }

    fn exit(&mut self, screen: &mut Screen, input: &Input) {
    }
}

/// The wipe of a transition scene after one frame of `dt` ticks on a screen
/// of the given dimensions.
pub open spec fn wipe_after_frame(wipe: Wipe, width: int, height: int, dt: int) -> Wipe {
    let stepped = wipe.fitted(width, height).stepped(dt);
    match wipe.phase {
        Some(Phase::In) => turned(stepped),
        Some(Phase::Out) => stepped,
        None => wipe,
    }
}

/// The wipe of a transition scene after `n` frames of `dt` ticks each.
pub open spec fn wipe_after_frames(wipe: Wipe, width: int, height: int, dt: int, n: nat) -> Wipe
    decreases n,
{
    if n == 0 {
        wipe
    } else {
        wipe_after_frames(wipe_after_frame(wipe, width, height, dt), width, height, dt, (n - 1) as nat)
    }
}

/// In every frame of a transition scene the wipe moves as
/// [`wipe_after_frame`] says, whatever the scene to come does; and the scene
/// to come is handed over in exactly one case: it is still held, the wipe was
/// in `Out`, and the frame brought it to rest.
pub proof fn lemma_frame_moves_the_wipe<S: State<Scene = S>>(
    before: Handover<S>,
    after: Handover<S>,
    shown: Frame,
    drawn: Frame,
    input: InputState,
    dt: u64,
    next: Option<S>,
)
    requires
        frame_of_transition(before, after, shown, drawn, input, dt, next),
    ensures
        after.wipe == wipe_after_frame(before.wipe, shown.width, shown.height, dt as int),
        after.snapshot == before.snapshot,
        next.is_some() <==> before.next.is_some() && before.wipe.phase == Some(Phase::Out)
            && after.wipe.phase.is_none(),
        next.is_some() ==> after.next.is_none(),
        next.is_none() ==> (after.next.is_some() <==> before.next.is_some()),
{
}

/// How a wipe in `In` fares over the frames of a transition scene: within as
/// many frames as bring the timer to [`SETTLE_TICKS`], `Out` begins.
proof fn lemma_in_turns_to_out(wipe: Wipe, dt: int, n: nat)
    requires
        wipe.wf(),
        wipe.phase == Some(Phase::In),
        0 < dt,
        1 <= n,
        wipe.timer + n * dt >= SETTLE_TICKS,
    ensures
        exists|k: nat|
            1 <= k <= n && (#[trigger] wipe_after_frames(wipe, wipe.width, wipe.height, dt, k))
                == wipe.armed(Phase::Out),
    decreases n,
{
    let width = wipe.width;
    let height = wipe.height;
    let stepped = wipe.stepped(dt);
    let next = wipe_after_frame(wipe, width, height, dt);
    if stepped.phase.is_none() {
        assert(next.flags =~= wipe.armed(Phase::Out).flags);
        assert(next == wipe.armed(Phase::Out));
        assert(wipe_after_frames(next, width, height, dt, 0) == next);
        assert(wipe_after_frames(wipe, width, height, dt, 1) == next);
    } else {
        assert(next == stepped);
        assert(n * dt == (n - 1) * dt + dt) by (nonlinear_arith);
        assert((n - 1) * dt >= 0) by (nonlinear_arith)
            requires
                n >= 1,
                dt > 0,
        ;
        if n == 1 {
            assert(n * dt == dt) by (nonlinear_arith)
                requires
                    n == 1,
            ;
            lemma_step_settles(wipe, dt);
        }
        lemma_in_turns_to_out(stepped, dt, (n - 1) as nat);
        let k = choose|k: nat|
            1 <= k <= n - 1 && (#[trigger] wipe_after_frames(stepped, width, height, dt, k))
                == stepped.armed(Phase::Out);
        assert(stepped.armed(Phase::Out).flags =~= wipe.armed(Phase::Out).flags);
        assert(wipe_after_frames(wipe, width, height, dt, (k + 1) as nat) == wipe.armed(
            Phase::Out,
        ));
    }
}

/// How a wipe in `Out` fares over the frames of a transition scene: within as
/// many frames as bring the timer to [`SETTLE_TICKS`], it comes to rest.
proof fn lemma_out_comes_to_rest(wipe: Wipe, dt: int, n: nat)
    requires
        wipe.wf(),
        wipe.phase == Some(Phase::Out),
        0 < dt,
        1 <= n,
        wipe.timer + n * dt >= SETTLE_TICKS,
    ensures
        exists|k: nat|
            1 <= k <= n && (#[trigger] wipe_after_frames(
                wipe,
                wipe.width,
                wipe.height,
                dt,
                k,
            )).phase.is_none(),
    decreases n,
{
    let width = wipe.width;
    let height = wipe.height;
    let stepped = wipe.stepped(dt);
    let next = wipe_after_frame(wipe, width, height, dt);
    assert(next == stepped);
    if stepped.phase.is_none() {
        assert(wipe_after_frames(next, width, height, dt, 0) == next);
        assert(wipe_after_frames(wipe, width, height, dt, 1) == next);
    } else {
        assert(n * dt == (n - 1) * dt + dt) by (nonlinear_arith);
        assert((n - 1) * dt >= 0) by (nonlinear_arith)
            requires
                n >= 1,
                dt > 0,
        ;
        if n == 1 {
            assert(n * dt == dt) by (nonlinear_arith)
                requires
                    n == 1,
            ;
            lemma_step_settles(wipe, dt);
        }
        lemma_out_comes_to_rest(stepped, dt, (n - 1) as nat);
        let k = choose|k: nat|
            1 <= k <= n - 1 && (#[trigger] wipe_after_frames(
                stepped,
                width,
                height,
                dt,
                k,
            )).phase.is_none();
        assert(wipe_after_frames(wipe, width, height, dt, (k + 1) as nat).phase.is_none());
    }
}

/// Frames add up: `a + b` frames are `a` frames and then `b` more.
proof fn lemma_frames_add(wipe: Wipe, width: int, height: int, dt: int, a: nat, b: nat)
    ensures
        wipe_after_frames(wipe, width, height, dt, a + b) == wipe_after_frames(
            wipe_after_frames(wipe, width, height, dt, a),
            width,
            height,
            dt,
            b,
        ),
    decreases a,
{
    if a > 0 {
        lemma_frames_add(
            wipe_after_frame(wipe, width, height, dt),
            width,
            height,
            dt,
            (a - 1) as nat,
            b,
        );
    }
}

/// A transition always runs to completion, and in a bounded number of
/// frames. On a screen that keeps its size, with frames of `dt` ticks each,
/// the wipe that `enter` has started is at rest after at most twice
/// `steps_to_settle(dt)` frames: `In` has turned to `Out`, and `Out` has
/// ended, which is the frame in which the scene to come is handed over.
pub proof fn lemma_transition_runs_to_completion(wipe: Wipe, dt: int)
    requires
        wipe.wf(),
        0 < dt <= u64::MAX,
    ensures
        exists|k: nat|
            1 <= k <= 2 * steps_to_settle(dt) && (#[trigger] wipe_after_frames(
                wipe.armed(Phase::In),
                wipe.width,
                wipe.height,
                dt,
                k,
            )).phase.is_none(),
{
    let width = wipe.width;
    let height = wipe.height;
    let n = steps_to_settle(dt);
    let total = SETTLE_TICKS + dt - 1;
    vstd::arithmetic::div_mod::lemma_fundamental_div_mod(total, dt);
    vstd::arithmetic::div_mod::lemma_mod_bound(total, dt);
    assert(n * dt == dt * (total / dt)) by (nonlinear_arith)
        requires
            n == total / dt,
    ;
    assert(n >= 1) by (nonlinear_arith)
        requires
            n * dt >= 1,
            dt > 0,
    ;
    let start = wipe.armed(Phase::In);
    lemma_in_turns_to_out(start, dt, n);
    let a = choose|k: nat|
        1 <= k <= n && (#[trigger] wipe_after_frames(start, width, height, dt, k)) == start.armed(
            Phase::Out,
        );
    let out = start.armed(Phase::Out);
    lemma_out_comes_to_rest(out, dt, n);
    let b = choose|k: nat|
        1 <= k <= n && (#[trigger] wipe_after_frames(out, width, height, dt, k)).phase.is_none();
    lemma_frames_add(start, width, height, dt, a, b);
    assert(wipe_after_frames(start, width, height, dt, a + b).phase.is_none());
}

} // verus!
