//! The transition effect: a radial wipe that is driven by time alone.
//!
//! Every position of the screen has a distance from the screen's centre,
//! measured so that the left and the upper edge lie at distance 1 along their
//! axis: with `dx = (2x - width) / width` and `dy = (2y - height) / height`
//! the distance is `sqrt(dx^2 + dy^2)`. A cell is flagged by comparing that
//! distance with the timer. Both are compared by their squares, cleared of
//! denominators, so that the comparison is exact integer arithmetic.
//!
//! Time is counted in ticks, [`TICKS_PER_SECOND`] to the second.

use crate::screen::{Cell, Color, Frame, Screen, lemma_position_index};
use vstd::prelude::*;

verus! {

/// How many ticks of the timer make one second.
pub const TICKS_PER_SECOND: u64 = 1_000_000;

/// The number of ticks after which a phase is over on every screen: the
/// least timer value that is no less than the greatest distance, `sqrt(2)`.
pub const SETTLE_TICKS: u64 = 1_414_214;

/// The two phases of the wipe.
#[derive(Clone, Copy, Debug, PartialEq, Eq, Structural)]
pub enum TransitionState {
    /// Starts with every cell flagged; the flags go, the centre first.
    In,
    /// Starts with no cell flagged; the flags come, the centre first.
    Out,
}

/// The glyph that a flagged cell is painted with.
pub open spec fn wipe_cell() -> Cell {
    Cell { rune: 'O', color: Color::White }
}

/// The squared distance of `(x, y)` from the centre of a grid of the given
/// dimensions, multiplied by `width^2 * height^2`.
pub open spec fn radial_weight(width: int, height: int, x: int, y: int) -> int {
    (2 * x - width) * (2 * x - width) * (height * height) + (2 * y - height) * (2 * y - height)
        * (width * width)
}

/// The square of a timer value, brought to the scale of [`radial_weight`]
/// times `TICKS_PER_SECOND^2`.
pub open spec fn timer_weight(width: int, height: int, timer: int) -> int {
    timer * timer * (width * width) * (height * height)
}

/// Whether the distance of `(x, y)` from the centre is greater than the
/// timer.
pub open spec fn farther_than(width: int, height: int, x: int, y: int, timer: int) -> bool {
    radial_weight(width, height, x, y) * (TICKS_PER_SECOND * TICKS_PER_SECOND) > timer_weight(
        width,
        height,
        timer,
    )
}

/// Whether the distance of `(x, y)` from the centre is less than the timer.
pub open spec fn nearer_than(width: int, height: int, x: int, y: int, timer: int) -> bool {
    radial_weight(width, height, x, y) * (TICKS_PER_SECOND * TICKS_PER_SECOND) < timer_weight(
        width,
        height,
        timer,
    )
}

/// The flag that a cell gets in a phase at a timer value: in `In`, whether it
/// lies farther out than the timer; in `Out`, whether it lies nearer. Without
/// a phase it keeps the flag that it has.
pub open spec fn flag_in_phase(
    phase: Option<TransitionState>,
    width: int,
    height: int,
    x: int,
    y: int,
    timer: int,
    current: bool,
) -> bool {
    match phase {
        Some(TransitionState::In) => farther_than(width, height, x, y, timer),
        Some(TransitionState::Out) => nearer_than(width, height, x, y, timer),
        None => current,
    }
}

/// The flag that every cell has when a phase starts.
pub open spec fn initial_flag(phase: TransitionState) -> bool {
    phase == TransitionState::In
}

/// Whether all flags are equal: all set or all clear.
pub open spec fn uniform(flags: Seq<bool>) -> bool {
    (forall|i: int| 0 <= i < flags.len() ==> flags[i]) || (forall|i: int|
        0 <= i < flags.len() ==> !flags[i])
}

/// The sum of a timer value and a time step, held at the greatest value that
/// the timer can take.
pub open spec fn advance(timer: int, dt: int) -> int {
    if timer + dt > u64::MAX {
        u64::MAX as int
    } else {
        timer + dt
    }
}

/// The mathematical content of the effect: a grid of flags, stored column by
/// column, a timer and the phase that is running, if one is.
pub struct Wipe {
    pub width: int,
    pub height: int,
    pub flags: Seq<bool>,
    pub timer: int,
    pub phase: Option<TransitionState>,
}

impl Wipe {
    /// There is one flag for each position, and the timer is in range.
    pub open spec fn wf(self) -> bool {
        &&& 0 <= self.width <= u16::MAX
        &&& 0 <= self.height <= u16::MAX
        &&& self.flags.len() == self.width * self.height
        &&& 0 <= self.timer <= u64::MAX
    }

    /// Whether `(x, y)` is a position of the grid.
    pub open spec fn contains(self, x: int, y: int) -> bool {
        0 <= x < self.width && 0 <= y < self.height
    }

    /// The flag of the cell at `(x, y)`.
    pub open spec fn flag(self, x: int, y: int) -> bool
        recommends
            self.contains(x, y),
    {
        self.flags[x * self.height + y]
    }

    /// Whether `(x, y)` is a position of the grid whose cell is flagged.
    pub open spec fn covers(self, x: int, y: int) -> bool {
        self.contains(x, y) && self.flag(x, y)
    }

    /// The effect as it is created: no grid, the timer at zero, no phase.
    pub open spec fn idle() -> Wipe {
        Wipe { width: 0, height: 0, flags: Seq::empty(), timer: 0, phase: None }
    }

    /// The effect with a new grid of the given dimensions, no cell flagged.
    /// Timer and phase stay.
    pub open spec fn resized(self, width: int, height: int) -> Wipe {
        Wipe { width, height, flags: Seq::new((width * height) as nat, |i: int| false), ..self }
    }

    /// The effect at the start of `phase`: the timer at zero, every cell with
    /// the initial flag of the phase.
    pub open spec fn armed(self, phase: TransitionState) -> Wipe {
        Wipe {
            flags: Seq::new(self.flags.len(), |i: int| initial_flag(phase)),
            timer: 0,
            phase: Some(phase),
            ..self
        }
    }

    /// The effect brought to the dimensions of the screen. Where they are its
    /// own already, nothing changes. Otherwise the grid is rebuilt, and a
    /// phase that is running starts again.
    pub open spec fn fitted(self, width: int, height: int) -> Wipe {
        if self.width == width && self.height == height {
            self
        } else {
            match self.phase {
                Some(phase) => self.resized(width, height).armed(phase),
                None => self.resized(width, height),
            }
        }
    }

    /// The flags after the timer has reached `timer`.
    pub open spec fn flags_at(self, timer: int) -> Seq<bool> {
        Seq::new(
            self.flags.len(),
            |i: int|
                flag_in_phase(
                    self.phase,
                    self.width,
                    self.height,
                    i / self.height,
                    i % self.height,
                    timer,
                    self.flags[i],
                ),
        )
    }

    /// The effect after a time step of `dt` ticks: the timer advanced, every
    /// flag set as the phase says, and the phase over once all flags are
    /// equal.
    pub open spec fn stepped(self, dt: int) -> Wipe {
        let timer = advance(self.timer, dt);
        let flags = self.flags_at(timer);
        Wipe {
            flags,
            timer,
            phase: if uniform(flags) {
                None
            } else {
                self.phase
            },
            ..self
        }
    }

    /// The effect after `n` time steps of `dt` ticks each.
    pub open spec fn stepped_times(self, dt: int, n: nat) -> Wipe
        decreases n,
    {
        if n == 0 {
            self
        } else {
            self.stepped_times(dt, (n - 1) as nat).stepped(dt)
        }
    }

    /// The frame with the wipe drawn over it: every position that the wipe
    /// covers holds the wipe's glyph, every other position is as it was.
    pub open spec fn painted(self, frame: Frame) -> Frame {
        Frame {
            cells: Seq::new(
                frame.cells.len(),
                |j: int|
                    if self.covers(j % frame.width, j / frame.width) {
                        wipe_cell()
                    } else {
                        frame.cells[j]
                    },
            ),
            ..frame
        }
    }

    /// The frame with the first `n` cells of the wipe drawn over it, in the
    /// order in which the grid is stored.
    pub open spec fn painted_upto(self, frame: Frame, n: int) -> Frame {
        Frame {
            cells: Seq::new(
                frame.cells.len(),
                |j: int|
                    if self.covers(j % frame.width, j / frame.width) && (j % frame.width)
                        * self.height + j / frame.width < n {
                        wipe_cell()
                    } else {
                        frame.cells[j]
                    },
            ),
            ..frame
        }
    }
}

/// The square of a difference of a doubled coordinate and the dimension is at
/// most the square of the dimension.
proof fn lemma_axis_bound(size: int, at: int)
    requires
        0 <= at < size,
    ensures
        0 <= (2 * at - size) * (2 * at - size) <= size * size,
{
    let d = 2 * at - size;
    assert(0 <= d * d <= size * size) by (nonlinear_arith)
        requires
            -size <= d < size,
    ;
}

/// No position of a grid lies farther from the centre than `sqrt(2)`: its
/// weight is at most twice `width^2 * height^2`.
pub proof fn lemma_weight_bounds(width: int, height: int, x: int, y: int)
    requires
        0 <= x < width,
        0 <= y < height,
    ensures
        0 <= radial_weight(width, height, x, y) <= 2 * ((width * width) * (height * height)),
{
    lemma_axis_bound(width, x);
    lemma_axis_bound(height, y);
    let a = (2 * x - width) * (2 * x - width);
    let b = (2 * y - height) * (2 * y - height);
    let ww = width * width;
    let hh = height * height;
    assert(0 <= a * hh <= ww * hh) by (nonlinear_arith)
        requires
            0 <= a <= ww,
            0 <= hh,
    ;
    assert(0 <= b * ww <= ww * hh) by (nonlinear_arith)
        requires
            0 <= b <= hh,
            0 <= ww,
    ;
}

/// Once the timer has reached [`SETTLE_TICKS`], no position of the grid lies
/// farther out than the timer, and every one lies nearer.
pub proof fn lemma_settled(width: int, height: int, x: int, y: int, timer: int)
    requires
        0 <= x < width,
        0 <= y < height,
        timer >= SETTLE_TICKS,
    ensures
        !farther_than(width, height, x, y, timer),
        nearer_than(width, height, x, y, timer),
{
    lemma_weight_bounds(width, height, x, y);
    let area = (width * width) * (height * height);
    let weight = radial_weight(width, height, x, y);
    let second: int = TICKS_PER_SECOND * TICKS_PER_SECOND;
    assert(area >= 1) by (nonlinear_arith)
        requires
            width >= 1,
            height >= 1,
            area == (width * width) * (height * height),
    ;
    assert(timer * timer >= 2 * second + 1) by (nonlinear_arith)
        requires
            timer >= 1_414_214,
            second == 1_000_000 * 1_000_000,
    ;
    assert(weight * second <= 2 * second * area) by (nonlinear_arith)
        requires
            0 <= weight <= 2 * area,
            second >= 0,
    ;
    assert(timer * timer * (width * width) * (height * height) == (timer * timer) * area)
        by (nonlinear_arith)
        requires
            area == (width * width) * (height * height),
    ;
    assert((timer * timer) * area > 2 * second * area) by (nonlinear_arith)
        requires
            timer * timer >= 2 * second + 1,
            area >= 1,
    ;
}

/// The weight of the cell at `(x, y)`.
fn cell_weight(width: u16, height: u16, x: u16, y: u16) -> (weight: u128)
    requires
        x < width,
        y < height,
    ensures
        weight == radial_weight(width as int, height as int, x as int, y as int),
        weight <= 2 * ((width * width) * (height * height)),
{
    let w: u128 = width as u128;
    let h: u128 = height as u128;
    let across: u128 = if 2 * (x as u128) >= w {
        2 * (x as u128) - w
    } else {
        w - 2 * (x as u128)
    };
    let along: u128 = if 2 * (y as u128) >= h {
        2 * (y as u128) - h
    } else {
        h - 2 * (y as u128)
    };
    proof {
        lemma_weight_bounds(width as int, height as int, x as int, y as int);
        lemma_axis_bound(width as int, x as int);
        lemma_axis_bound(height as int, y as int);
        assert(across * across == (2 * x - width) * (2 * x - width)) by (nonlinear_arith)
            requires
                across == 2 * x - width || across == width - 2 * x,
        ;
        assert(along * along == (2 * y - height) * (2 * y - height)) by (nonlinear_arith)
            requires
                along == 2 * y - height || along == height - 2 * y,
        ;
        assert(w * w <= 0xffff * 0xffff && h * h <= 0xffff * 0xffff) by (nonlinear_arith)
            requires
                0 <= w <= 0xffff,
                0 <= h <= 0xffff,
        ;
    }
    let ww: u128 = w * w;
    let hh: u128 = h * h;
    let aa: u128 = across * across;
    let bb: u128 = along * along;
    assert(aa * hh <= 0x1_0000_0000_0000_0000 && bb * ww <= 0x1_0000_0000_0000_0000)
        by (nonlinear_arith)
        requires
            0 <= aa <= 0xffff * 0xffff,
            0 <= bb <= 0xffff * 0xffff,
            0 <= ww <= 0xffff * 0xffff,
            0 <= hh <= 0xffff * 0xffff,
    ;
    aa * hh + bb * ww
}

/// The square of the timer on the scale of the weights. A timer beyond two
/// seconds is taken as two seconds, which no distance reaches.
fn timer_scaled(width: u16, height: u16, timer: u64) -> (scaled: u128)
    ensures
        scaled == timer_weight(
            width as int,
            height as int,
            if timer > 2 * TICKS_PER_SECOND {
                2 * TICKS_PER_SECOND as int
            } else {
                timer as int
            },
        ),
{
    let w: u128 = width as u128;
    let h: u128 = height as u128;
    let t: u128 = if timer > 2 * TICKS_PER_SECOND {
        2 * TICKS_PER_SECOND as u128
    } else {
        timer as u128
    };
    proof {
        assert(t * t <= 2_000_000 * 2_000_000) by (nonlinear_arith)
            requires
                0 <= t <= 2_000_000,
        ;
        assert(w * w <= 0xffff * 0xffff && h * h <= 0xffff * 0xffff) by (nonlinear_arith)
            requires
                0 <= w <= 0xffff,
                0 <= h <= 0xffff,
        ;
        assert((t * t) * (w * w) <= (2_000_000 * 2_000_000) * (0xffff * 0xffff))
            by (nonlinear_arith)
            requires
                0 <= t * t <= 2_000_000 * 2_000_000,
                0 <= w * w <= 0xffff * 0xffff,
        ;
        assert(((t * t) * (w * w)) * (h * h) <= ((2_000_000 * 2_000_000) * (0xffff * 0xffff)) * (
        0xffff * 0xffff)) by (nonlinear_arith)
            requires
                0 <= (t * t) * (w * w) <= (2_000_000 * 2_000_000) * (0xffff * 0xffff),
                0 <= h * h <= 0xffff * 0xffff,
        ;
    }
    let tt: u128 = t * t;
    let ww: u128 = w * w;
    let hh: u128 = h * h;
    tt * ww * hh
}

/// The flag of the cell at `(x, y)` in `phase` at the timer value `timer`.
fn flag_at(phase: TransitionState, width: u16, height: u16, x: u16, y: u16, timer: u64) -> (flag:
    bool)
    requires
        x < width,
        y < height,
    ensures
        flag == flag_in_phase(
            Some(phase),
            width as int,
            height as int,
            x as int,
            y as int,
            timer as int,
            false,
        ),
{
    let weight: u128 = cell_weight(width, height, x, y);
    let scaled: u128 = timer_scaled(width, height, timer);
    proof {
        assert((width * width) * (height * height) <= (0xffff * 0xffff) * (0xffff * 0xffff))
            by (nonlinear_arith)
            requires
                0 <= width <= 0xffff,
                0 <= height <= 0xffff,
        ;
        if timer > 2 * TICKS_PER_SECOND {
            lemma_settled(width as int, height as int, x as int, y as int, timer as int);
            lemma_settled(
                width as int,
                height as int,
                x as int,
                y as int,
                2 * TICKS_PER_SECOND as int,
            );
        }
    }
    let square: u128 = 1_000_000_000_000;
    assert(weight * square <= 0x2_0000_0000_0000_0000 * 1_000_000_000_000) by (nonlinear_arith)
        requires
            0 <= weight <= 2 * ((width * width) * (height * height)),
            (width * width) * (height * height) <= (0xffff * 0xffff) * (0xffff * 0xffff),
            square == 1_000_000_000_000,
    ;
    let reach: u128 = weight * square;
    match phase {
        TransitionState::In => reach > scaled,
        TransitionState::Out => reach < scaled,
    }
}

/// `n` flags, all equal to `value`.
fn filled(n: usize, value: bool) -> (flags: Vec<bool>)
    ensures
        flags@ == Seq::new(n as nat, |i: int| value),
{
    let mut flags: Vec<bool> = Vec::new();
    let mut i: usize = 0;
    while i < n
        invariant
            0 <= i <= n,
            flags@.len() == i,
            forall|k: int| 0 <= k < i ==> flags@[k] == value,
        decreases n - i,
    {
        flags.push(value);
        i += 1;
    }
    assert(flags@ =~= Seq::new(n as nat, |i: int| value));
    flags
}

/// The product of two dimensions fits the index type.
proof fn lemma_area_fits(width: u16, height: u16)
    ensures
        0 <= width * height <= 0xffff * 0xffff,
        width * height <= usize::MAX,
{
    assert(0 <= width * height <= 0xffff * 0xffff) by (nonlinear_arith)
        requires
            0 <= width <= 0xffff,
            0 <= height <= 0xffff,
    ;
}

/// The column and the row of the `i`-th cell of a grid that is stored column
/// by column.
proof fn lemma_column_row(width: int, height: int, i: int)
    requires
        0 <= i < width * height,
        0 <= width,
        0 <= height,
    ensures
        height > 0,
        0 <= i / height < width,
        0 <= i % height < height,
        (i / height) * height + i % height == i,
{
    assert(height > 0) by (nonlinear_arith)
        requires
            0 <= i < width * height,
            0 <= height,
    ;
    vstd::arithmetic::div_mod::lemma_fundamental_div_mod(i, height);
    vstd::arithmetic::div_mod::lemma_mod_bound(i, height);
    let q = i / height;
    assert(0 <= q < width) by (nonlinear_arith)
        requires
            i == height * q + i % height,
            0 <= i % height < height,
            0 <= i < width * height,
            height > 0,
    ;
    assert(height * q == q * height) by (nonlinear_arith);
}

/// The flags of all cells in `phase` at the timer value `timer`, and whether
/// they are all equal.
fn flags_in_phase(phase: TransitionState, width: u16, height: u16, timer: u64) -> (result: (
    Vec<bool>,
    bool,
))
    ensures
        result.0@.len() == width * height,
        forall|i: int|
            0 <= i < result.0@.len() ==> result.0@[i] == flag_in_phase(
                Some(phase),
                width as int,
                height as int,
                i / (height as int),
                i % (height as int),
                timer as int,
                false,
            ),
        result.1 == uniform(result.0@),
{
    proof {
        lemma_area_fits(width, height);
    }
    let n: usize = width as usize * height as usize;
    let mut flags: Vec<bool> = Vec::new();
    let mut all_set: bool = true;
    let mut all_clear: bool = true;
    let mut i: usize = 0;
    while i < n
        invariant
            n == width * height,
            0 <= i <= n,
            flags@.len() == i,
            forall|k: int|
                0 <= k < i ==> flags@[k] == flag_in_phase(
                    Some(phase),
                    width as int,
                    height as int,
                    k / (height as int),
                    k % (height as int),
                    timer as int,
                    false,
                ),
            all_set <==> (forall|k: int| 0 <= k < i ==> flags@[k]),
            all_clear <==> (forall|k: int| 0 <= k < i ==> !flags@[k]),
        decreases n - i,
    {
        proof {
            lemma_column_row(width as int, height as int, i as int);
        }
        let x: u16 = (i / height as usize) as u16;
        let y: u16 = (i % height as usize) as u16;
        let flag = flag_at(phase, width, height, x, y, timer);
        let ghost before = flags@;
        flags.push(flag);
        assert(forall|k: int| 0 <= k < i ==> flags@[k] == before[k]);
        if flag {
            all_clear = false;
            assert(flags@[i as int]);
        } else {
            all_set = false;
            assert(!flags@[i as int]);
        }
        i += 1;
    }
    (flags, all_set || all_clear)
}

/// The transition effect: one flag for each position of the screen, a timer
/// and the phase that is running.
pub struct Transition {
    width: u16,
    height: u16,
    cells: Vec<bool>,
    timer: u64,
    state: Option<TransitionState>,
}

impl View for Transition {
    type V = Wipe;

    closed spec fn view(&self) -> Wipe {
        Wipe {
            width: self.width as int,
            height: self.height as int,
            flags: self.cells@,
            timer: self.timer as int,
            phase: self.state,
        }
    }
}

impl Transition {
    #[verifier::type_invariant]
    spec fn inv(self) -> bool {
        self.cells@.len() == self.width * self.height
    }

    /// An effect without a grid, at rest.
    pub fn new() -> (effect: Transition)
        ensures
            effect@ == Wipe::idle(),
    {
        Transition { width: 0, height: 0, cells: Vec::new(), timer: 0, state: None }
    }

    /// Rebuilds the grid for a screen of the given dimensions, with no cell
    /// flagged.
    pub fn resize(&mut self, width: u16, height: u16)
        ensures
            final(self)@ == old(self)@.resized(width as int, height as int),
    {
        proof {
            lemma_area_fits(width, height);
        }
        let cells = filled(width as usize * height as usize, false);
        *self = Transition { width, height, cells, timer: self.timer, state: self.state };
    }

    /// Whether a phase is running.
    pub fn running(&self) -> (running: bool)
        ensures
            running == self@.phase.is_some(),
            self@.wf(),
    {
        proof {
            use_type_invariant(self);
        }
        self.state.is_some()
    }

    /// The phase that is running, if one is.
    pub fn state(&self) -> (phase: Option<TransitionState>)
        ensures
            phase == self@.phase,
            self@.wf(),
    {
        proof {
            use_type_invariant(self);
        }
        self.state
    }

    /// The ticks that have passed since the phase began.
    pub fn timer(&self) -> (timer: u64)
        ensures
            timer == self@.timer,
            self@.wf(),
    {
        proof {
            use_type_invariant(self);
        }
        self.timer
    }

    /// Whether `(x, y)` is a position of the grid whose cell is flagged.
    pub fn is_revealed(&self, x: u16, y: u16) -> (flagged: bool)
        ensures
            flagged == self@.covers(x as int, y as int),
    {
        proof {
            use_type_invariant(self);
            lemma_area_fits(self.width, self.height);
        }
        if x < self.width && y < self.height {
            proof {
                lemma_position_index(self.height as int, self.width as int, y as int, x as int);
            }
            let column: usize = x as usize * self.height as usize;
            self.cells[column + y as usize]
        } else {
            false
        }
    }

    /// Starts `state`: the timer goes back to zero and every cell gets the
    /// flag with which the phase begins.
    pub fn change_state(&mut self, state: TransitionState)
        ensures
            final(self)@ == old(self)@.armed(state),
    {
        proof {
            use_type_invariant(&*self);
        }
        let initial = match state {
            TransitionState::In => true,
            TransitionState::Out => false,
        };
        let cells = filled(self.cells.len(), initial);
        *self = Transition {
            width: self.width,
            height: self.height,
            cells,
            timer: 0,
            state: Some(state),
        };
    }

    /// Advances the effect by `dt` ticks and says whether it is at rest.
    ///
    /// The grid is first brought to the dimensions of `screen`; a phase that
    /// is running then starts again. The timer advances, every cell gets the
    /// flag that the phase gives it at the new timer value, and the phase is
    /// over as soon as all flags are equal. On a screen without cells that is
    /// at once.
    pub fn update(&mut self, screen: &Screen, dt: u64) -> (done: bool)
        ensures
            final(self)@ == old(self)@.fitted(screen@.width, screen@.height).stepped(dt as int),
            final(self)@.width == screen@.width,
            final(self)@.height == screen@.height,
            done == final(self)@.phase.is_none(),
    {
        let width = screen.width();
        let height = screen.height();
        if self.width != width || self.height != height {
            self.resize(width, height);
            match self.state {
                Some(phase) => {
                    self.change_state(phase);
                },
                None => {},
            }
        }
        proof {
            use_type_invariant(&*self);
        }
        let ghost fitted = self@;
        let timer: u64 = self.timer.saturating_add(dt);
        match self.state {
            Some(phase) => {
                let (cells, settled) = flags_in_phase(phase, width, height, timer);
                assert(cells@ =~= fitted.flags_at(timer as int));
                *self = Transition {
                    width,
                    height,
                    cells,
                    timer,
                    state: if settled {
                        None
                    } else {
                        Some(phase)
                    },
                };
            },
            None => {
                assert(self.cells@ =~= fitted.flags_at(timer as int));
                self.timer = timer;
            },
        }
        self.state.is_none()
    }
}

impl Transition {
    /// Paints the wipe over `screen`: every flagged cell gets the wipe's
    /// glyph, whatever was drawn there before. Nothing else changes.
    pub fn draw(&self, screen: &mut Screen)
        ensures
            final(screen)@ == self@.painted(old(screen)@),
    {
        proof {
            use_type_invariant(self);
            lemma_area_fits(self.width, self.height);
        }
        let screen_width = screen.width();
        let n: usize = self.cells.len();
        let ghost frame = screen@;
        let ghost wipe = self@;
        assert(wipe.painted_upto(frame, 0).cells =~= frame.cells);
        let mut i: usize = 0;
        while i < n
            invariant
                n == self.cells@.len(),
                n == self.width * self.height,
                wipe == self@,
                frame.wf(),
                0 <= i <= n,
                screen@ == wipe.painted_upto(frame, i as int),
            decreases n - i,
        {
            proof {
                lemma_column_row(self.width as int, self.height as int, i as int);
            }
            let x: u16 = (i / self.height as usize) as u16;
            let y: u16 = (i % self.height as usize) as u16;
            if self.cells[i] {
                screen.set_cell(x, y, 'O', Color::White);
            }
            proof {
                lemma_painted_next(wipe, frame, i as int);
            }
            i += 1;
        }
        proof {
            lemma_painted_all(wipe, frame);
        }
    }
}

/// Drawing one more cell of the wipe puts its glyph at the cell's position,
/// if the cell is flagged, and changes nothing otherwise.
proof fn lemma_painted_next(wipe: Wipe, frame: Frame, i: int)
    requires
        wipe.wf(),
        frame.wf(),
        0 <= i < wipe.width * wipe.height,
    ensures
        wipe.painted_upto(frame, i + 1) == if wipe.flags[i] {
            wipe.painted_upto(frame, i).put(i / wipe.height, i % wipe.height, wipe_cell())
        } else {
            wipe.painted_upto(frame, i)
        },
{
    lemma_column_row(wipe.width, wipe.height, i);
    let x = i / wipe.height;
    let y = i % wipe.height;
    let before = wipe.painted_upto(frame, i);
    let after = wipe.painted_upto(frame, i + 1);
    let expected = if wipe.flags[i] {
        before.put(x, y, wipe_cell())
    } else {
        before
    };
    if frame.contains(x, y) {
        lemma_position_index(frame.width, frame.height, x, y);
    }
    assert forall|j: int| 0 <= j < frame.cells.len() implies after.cells[j] == expected.cells[j] by {
        assert(frame.height * frame.width == frame.width * frame.height) by (nonlinear_arith);
        lemma_column_row(frame.height, frame.width, j);
        let jx = j % frame.width;
        let jy = j / frame.width;
        if wipe.contains(jx, jy) {
            lemma_position_index(wipe.height, wipe.width, jy, jx);
        }
        if wipe.covers(jx, jy) && jx * wipe.height + jy == i {
            assert(jx == x && jy == y);
            assert(j == y * frame.width + x);
            assert(frame.contains(x, y));
            assert(wipe.flags[i]);
            assert(expected.cells[j] == wipe_cell());
        } else {
            assert(after.cells[j] == before.cells[j]);
            if wipe.flags[i] && frame.contains(x, y) && j == y * frame.width + x {
                lemma_position_index(frame.width, frame.height, x, y);
                assert(jx == x && jy == y);
                assert(wipe.covers(jx, jy));
                assert(false);
            }
        }
    }
    assert(after.cells =~= expected.cells);
}

/// Once all cells of the wipe are drawn, the whole wipe is.
proof fn lemma_painted_all(wipe: Wipe, frame: Frame)
    requires
        wipe.wf(),
    ensures
        wipe.painted_upto(frame, wipe.width * wipe.height) == wipe.painted(frame),
{
    assert forall|j: int| 0 <= j < frame.cells.len() implies wipe.painted_upto(
        frame,
        wipe.width * wipe.height,
    ).cells[j] == wipe.painted(frame).cells[j] by {
        let jx = j % frame.width;
        let jy = j / frame.width;
        if wipe.contains(jx, jy) {
            lemma_position_index(wipe.height, wipe.width, jy, jx);
            assert(wipe.height * wipe.width == wipe.width * wipe.height) by (nonlinear_arith);
        }
    }
    assert(wipe.painted_upto(frame, wipe.width * wipe.height).cells =~= wipe.painted(frame).cells);
}

/// Drawing is idempotent: the wipe drawn over a frame that already shows it
/// changes nothing.
pub proof fn lemma_draw_idempotent(wipe: Wipe, frame: Frame)
    ensures
        wipe.painted(wipe.painted(frame)) == wipe.painted(frame),
{
    assert(wipe.painted(wipe.painted(frame)).cells =~= wipe.painted(frame).cells);
}

/// Drawing touches flagged positions only, and leaves the dimensions alone.
pub proof fn lemma_draw_keeps_the_rest(wipe: Wipe, frame: Frame, x: int, y: int)
    requires
        frame.wf(),
        frame.contains(x, y),
    ensures
        wipe.painted(frame).width == frame.width,
        wipe.painted(frame).height == frame.height,
        wipe.painted(frame).at(x, y) == if wipe.covers(x, y) {
            wipe_cell()
        } else {
            frame.at(x, y)
        },
{
    lemma_position_index(frame.width, frame.height, x, y);
}

/// The wipe is ordered by distance. Of two positions, the one that lies no
/// nearer to the centre keeps its flag in `In` at least as long as the other,
/// and gets it in `Out` no earlier.
pub proof fn lemma_ordered_by_distance(
    width: int,
    height: int,
    near: (int, int),
    far: (int, int),
    timer: int,
)
    requires
        radial_weight(width, height, near.0, near.1) <= radial_weight(
            width,
            height,
            far.0,
            far.1,
        ),
    ensures
        farther_than(width, height, near.0, near.1, timer) ==> farther_than(
            width,
            height,
            far.0,
            far.1,
            timer,
        ),
        nearer_than(width, height, far.0, far.1, timer) ==> nearer_than(
            width,
            height,
            near.0,
            near.1,
            timer,
        ),
{
    let a = radial_weight(width, height, near.0, near.1);
    let b = radial_weight(width, height, far.0, far.1);
    let second: int = TICKS_PER_SECOND * TICKS_PER_SECOND;
    assert(a * second <= b * second) by (nonlinear_arith)
        requires
            a <= b,
            second >= 0,
    ;
}

/// The wipe is ordered by time. In `In` a flag that is gone stays gone as the
/// timer grows; in `Out` a flag that has come stays.
pub proof fn lemma_ordered_by_time(
    width: int,
    height: int,
    x: int,
    y: int,
    earlier: int,
    later: int,
)
    requires
        0 <= earlier <= later,
    ensures
        farther_than(width, height, x, y, later) ==> farther_than(width, height, x, y, earlier),
        nearer_than(width, height, x, y, earlier) ==> nearer_than(width, height, x, y, later),
{
    let area = (width * width) * (height * height);
    assert(area >= 0) by (nonlinear_arith)
        requires
            area == (width * width) * (height * height),
    ;
    assert(earlier * earlier <= later * later) by (nonlinear_arith)
        requires
            0 <= earlier <= later,
    ;
    assert((earlier * earlier) * area <= (later * later) * area) by (nonlinear_arith)
        requires
            earlier * earlier <= later * later,
            area >= 0,
    ;
    assert(timer_weight(width, height, earlier) == (earlier * earlier) * area)
        by (nonlinear_arith)
        requires
            area == (width * width) * (height * height),
            timer_weight(width, height, earlier) == earlier * earlier * (width * width) * (height
                * height),
    ;
    assert(timer_weight(width, height, later) == (later * later) * area) by (nonlinear_arith)
        requires
            area == (width * width) * (height * height),
            timer_weight(width, height, later) == later * later * (width * width) * (height
                * height),
    ;
}

/// Along one axis no coordinate lies nearer to the middle than `size / 2`.
proof fn lemma_axis_centre(size: int, at: int)
    requires
        0 <= at < size,
    ensures
        (2 * (size / 2) - size) * (2 * (size / 2) - size) <= (2 * at - size) * (2 * at - size),
{
    let c = 2 * (size / 2) - size;
    let d = 2 * at - size;
    assert(c == 0 || c == -1);
    if c != 0 {
        assert(d != 0);
        assert(d * d >= 1) by (nonlinear_arith)
            requires
                d != 0,
        ;
    } else {
        assert(d * d >= 0) by (nonlinear_arith);
    }
}

/// The cell at `(width / 2, height / 2)` lies nearest to the centre: no
/// position of the grid has a smaller weight.
pub proof fn lemma_centre_nearest(width: int, height: int, x: int, y: int)
    requires
        0 <= x < width,
        0 <= y < height,
    ensures
        0 <= width / 2 < width,
        0 <= height / 2 < height,
        radial_weight(width, height, width / 2, height / 2) <= radial_weight(width, height, x, y),
{
    lemma_axis_centre(width, x);
    lemma_axis_centre(height, y);
    let a0 = (2 * (width / 2) - width) * (2 * (width / 2) - width);
    let b0 = (2 * (height / 2) - height) * (2 * (height / 2) - height);
    let a = (2 * x - width) * (2 * x - width);
    let b = (2 * y - height) * (2 * y - height);
    let ww = width * width;
    let hh = height * height;
    assert(a0 * hh <= a * hh) by (nonlinear_arith)
        requires
            a0 <= a,
            hh == height * height,
    ;
    assert(b0 * ww <= b * ww) by (nonlinear_arith)
        requires
            b0 <= b,
            ww == width * width,
    ;
}

/// The corner at the origin lies farthest from the centre: its distance is
/// `sqrt(2)`, and no position of the grid has a greater weight.
pub proof fn lemma_origin_farthest(width: int, height: int, x: int, y: int)
    requires
        0 <= x < width,
        0 <= y < height,
    ensures
        radial_weight(width, height, 0, 0) == 2 * ((width * width) * (height * height)),
        radial_weight(width, height, x, y) <= radial_weight(width, height, 0, 0),
{
    lemma_weight_bounds(width, height, x, y);
    assert((0 - width) * (0 - width) == width * width) by (nonlinear_arith);
    assert((0 - height) * (0 - height) == height * height) by (nonlinear_arith);
    assert((width * width) * (height * height) == (height * height) * (width * width))
        by (nonlinear_arith);
}

/// In `In` the flags go from the centre outwards. As long as the cell in the
/// middle has its flag, every cell has, each of the four corners among them:
/// the middle is never the last to lose it, and no corner is ever the first.
/// And once the corner at the origin has lost its flag, every cell has.
pub proof fn lemma_in_goes_centre_first(width: int, height: int, x: int, y: int, timer: int)
    requires
        0 <= x < width,
        0 <= y < height,
    ensures
        farther_than(width, height, width / 2, height / 2, timer) ==> farther_than(
            width,
            height,
            x,
            y,
            timer,
        ),
        farther_than(width, height, x, y, timer) ==> farther_than(width, height, 0, 0, timer),
{
    lemma_centre_nearest(width, height, x, y);
    lemma_origin_farthest(width, height, x, y);
    lemma_ordered_by_distance(width, height, (width / 2, height / 2), (x, y), timer);
    lemma_ordered_by_distance(width, height, (x, y), (0, 0), timer);
}

/// In `Out` the flags come from the centre outwards: a cell that has its flag
/// shows that the cell in the middle has it too, and the corner at the origin
/// is the last to get it.
pub proof fn lemma_out_comes_centre_first(width: int, height: int, x: int, y: int, timer: int)
    requires
        0 <= x < width,
        0 <= y < height,
    ensures
        nearer_than(width, height, x, y, timer) ==> nearer_than(
            width,
            height,
            width / 2,
            height / 2,
            timer,
        ),
        nearer_than(width, height, 0, 0, timer) ==> nearer_than(width, height, x, y, timer),
{
    lemma_centre_nearest(width, height, x, y);
    lemma_origin_farthest(width, height, x, y);
    lemma_ordered_by_distance(width, height, (width / 2, height / 2), (x, y), timer);
    lemma_ordered_by_distance(width, height, (x, y), (0, 0), timer);
}

/// What `n` time steps keep and where they bring the timer.
proof fn lemma_stepped_times_shape(wipe: Wipe, dt: int, n: nat)
    requires
        wipe.wf(),
        0 <= dt,
    ensures
        wipe.stepped_times(dt, n).wf(),
        wipe.stepped_times(dt, n).width == wipe.width,
        wipe.stepped_times(dt, n).height == wipe.height,
        wipe.stepped_times(dt, n).timer == if wipe.timer + n * dt > u64::MAX {
            u64::MAX as int
        } else {
            wipe.timer + n * dt
        },
        wipe.stepped_times(dt, n).phase.is_none() || wipe.stepped_times(dt, n).phase == wipe.phase,
    decreases n,
{
    if n > 0 {
        lemma_stepped_times_shape(wipe, dt, (n - 1) as nat);
        assert(n * dt == (n - 1) * dt + dt) by (nonlinear_arith);
        assert((n - 1) * dt >= 0) by (nonlinear_arith)
            requires
                n >= 1,
                dt >= 0,
        ;
    } else {
        assert(n * dt == 0) by (nonlinear_arith)
            requires
                n == 0,
        ;
    }
}

/// A step that brings the timer to [`SETTLE_TICKS`] or beyond ends the phase.
pub proof fn lemma_step_settles(wipe: Wipe, dt: int)
    requires
        wipe.wf(),
        0 <= dt,
        wipe.timer + dt >= SETTLE_TICKS,
    ensures
        wipe.stepped(dt).phase.is_none(),
        uniform(wipe.stepped(dt).flags) || wipe.phase.is_none(),
{
    let timer = advance(wipe.timer, dt);
    let flags = wipe.flags_at(timer);
    match wipe.phase {
        Some(TransitionState::In) => {
            assert forall|i: int| 0 <= i < flags.len() implies !flags[i] by {
                lemma_column_row(wipe.width, wipe.height, i);
                lemma_settled(wipe.width, wipe.height, i / wipe.height, i % wipe.height, timer);
            }
        },
        Some(TransitionState::Out) => {
            assert forall|i: int| 0 <= i < flags.len() implies flags[i] by {
                lemma_column_row(wipe.width, wipe.height, i);
                lemma_settled(wipe.width, wipe.height, i / wipe.height, i % wipe.height, timer);
            }
        },
        None => {},
    }
}

/// Every phase ends, whatever the size of the screen, after a number of steps
/// that is bounded by the greatest distance over the step: as soon as the
/// steps add up to [`SETTLE_TICKS`], the effect is at rest.
pub proof fn lemma_phase_ends(wipe: Wipe, dt: int, n: nat)
    requires
        wipe.wf(),
        0 < dt <= u64::MAX,
        n * dt >= SETTLE_TICKS,
    ensures
        wipe.stepped_times(dt, n).phase.is_none(),
{
    assert(n >= 1) by (nonlinear_arith)
        requires
            n * dt >= 1,
            dt > 0,
    ;
    let m = (n - 1) as nat;
    lemma_stepped_times_shape(wipe, dt, m);
    let before = wipe.stepped_times(dt, m);
    assert(n * dt == m * dt + dt) by (nonlinear_arith)
        requires
            m == n - 1,
    ;
    lemma_step_settles(before, dt);
}

/// The number of steps of `dt` ticks that [`lemma_phase_ends`] asks for:
/// [`SETTLE_TICKS`] over `dt`, rounded up.
pub open spec fn steps_to_settle(dt: int) -> nat {
    ((SETTLE_TICKS + dt - 1) / dt) as nat
}

/// After `steps_to_settle(dt)` steps of `dt` ticks the effect is at rest.
pub proof fn lemma_settles_in_bounded_steps(wipe: Wipe, dt: int)
    requires
        wipe.wf(),
        0 < dt <= u64::MAX,
    ensures
        wipe.stepped_times(dt, steps_to_settle(dt)).phase.is_none(),
{
    let total = SETTLE_TICKS + dt - 1;
    let n = total / dt;
    vstd::arithmetic::div_mod::lemma_fundamental_div_mod(total, dt);
    vstd::arithmetic::div_mod::lemma_mod_bound(total, dt);
    assert(n * dt == dt * n) by (nonlinear_arith);
    assert(n >= 0) by (nonlinear_arith)
        requires
            dt * n >= 1,
            dt > 0,
    ;
    lemma_phase_ends(wipe, dt, n as nat);
}

/// A grid without cells is at rest after any step: all of its flags are
/// equal, there being none.
pub proof fn lemma_empty_grid_settles(wipe: Wipe, dt: int)
    requires
        wipe.wf(),
        wipe.width == 0 || wipe.height == 0,
    ensures
        wipe.stepped(dt).phase.is_none(),
{
    assert(wipe.width * wipe.height == 0) by (nonlinear_arith)
        requires
            wipe.width == 0 || wipe.height == 0,
    ;
}

/// After a step the flag of each cell is what the phase gives it at the new
/// timer value.
pub proof fn lemma_step_flags(wipe: Wipe, dt: int, x: int, y: int)
    requires
        wipe.wf(),
        wipe.contains(x, y),
    ensures
        wipe.stepped(dt).contains(x, y),
        wipe.stepped(dt).flag(x, y) == flag_in_phase(
            wipe.phase,
            wipe.width,
            wipe.height,
            x,
            y,
            advance(wipe.timer, dt),
            wipe.flag(x, y),
        ),
{
    lemma_position_index(wipe.height, wipe.width, y, x);
    assert(wipe.height * wipe.width == wipe.width * wipe.height) by (nonlinear_arith);
}

/// The order in which the cells of an effect lose their flags in `In`: at no
/// step does the cell in the middle have its flag while another cell has
/// lost it, and at no step has the corner at the origin lost its flag while
/// another cell, one of the other corners say, still has it.
pub proof fn lemma_in_step_goes_centre_first(wipe: Wipe, dt: int, x: int, y: int)
    requires
        wipe.wf(),
        wipe.phase == Some(TransitionState::In),
        wipe.contains(x, y),
    ensures
        wipe.stepped(dt).flag(wipe.width / 2, wipe.height / 2) ==> wipe.stepped(dt).flag(x, y),
        wipe.stepped(dt).flag(x, y) ==> wipe.stepped(dt).flag(0, 0),
{
    let timer = advance(wipe.timer, dt);
    lemma_centre_nearest(wipe.width, wipe.height, x, y);
    lemma_in_goes_centre_first(wipe.width, wipe.height, x, y, timer);
    lemma_step_flags(wipe, dt, x, y);
    lemma_step_flags(wipe, dt, wipe.width / 2, wipe.height / 2);
    lemma_step_flags(wipe, dt, 0, 0);
}

/// The order in which the cells of an effect get their flags in `Out`: at no
/// step does a cell have its flag while the cell in the middle has none, and
/// at no step has the corner at the origin its flag while another cell has
/// none.
pub proof fn lemma_out_step_comes_centre_first(wipe: Wipe, dt: int, x: int, y: int)
    requires
        wipe.wf(),
        wipe.phase == Some(TransitionState::Out),
        wipe.contains(x, y),
    ensures
        wipe.stepped(dt).flag(x, y) ==> wipe.stepped(dt).flag(wipe.width / 2, wipe.height / 2),
        wipe.stepped(dt).flag(0, 0) ==> wipe.stepped(dt).flag(x, y),
{
    let timer = advance(wipe.timer, dt);
    lemma_centre_nearest(wipe.width, wipe.height, x, y);
    lemma_out_comes_centre_first(wipe.width, wipe.height, x, y, timer);
    lemma_step_flags(wipe, dt, x, y);
    lemma_step_flags(wipe, dt, wipe.width / 2, wipe.height / 2);
    lemma_step_flags(wipe, dt, 0, 0);
}

} // verus!
