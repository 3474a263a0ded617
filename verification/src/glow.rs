//! The glow animation engine: one small state machine per key, advanced once
//! per frame, emitting renderable instances.
//!
//! The animation clock runs in microseconds and advances at three times wall
//! time while a key is held. Sizes, coordinates and color channels are in
//! fixed-point thousandths. The exponential decay of the press burst is the
//! rational curve `1000 / (1 + x + x^2/2 + x^3/6)` in thousandths, which is
//! exact at zero, stays within `[0, 1000]`, never increases, and vanishes for
//! large arguments.

use vstd::prelude::*;

use vstd::arithmetic::div_mod::lemma_div_is_ordered;
use vstd::arithmetic::div_mod::lemma_div_is_ordered_by_denominator;
use vstd::arithmetic::div_mod::lemma_div_pos_is_pos;

verus! {

/// The animation clock saturates here: far beyond the point where burst and
/// flash have fully decayed, so the visible output no longer changes.
pub const GLOW_TIME_CAP: u64 = 1_000_000_000;

/// Coordinate bound accepted by `push`, thousandths of a pixel.
pub const MAX_COORD_MILLI: i64 = 1_000_000_000_000;

// ---------------------------------------------------------------------------
// The decay curve.
// ---------------------------------------------------------------------------

/// `1000 * exp(-x/1000)`, approximated by the reciprocal of the cubic Taylor
/// polynomial of the exponential; argument and result in thousandths. From an
/// argument of 100 000 (a real argument of 100) on it is defined as zero,
/// where the quotient has long since rounded to zero anyway.
pub open spec fn spec_exp_decay_milli(x: int) -> int {
    if x >= 100_000 {
        0
    } else {
        6_000_000_000_000int / (6_000_000_000 + 6_000_000 * x + 3_000 * (x * x) + (x * x) * x)
    }
}

pub fn exp_decay_milli(x: u64) -> (r: u64)
    ensures
        r == spec_exp_decay_milli(x as int),
        r <= 1000,
{
    if x >= 100_000 {
        0
    } else {
        proof {
            assert(x * x <= 99_999 * 99_999) by (nonlinear_arith)
                requires
                    x < 100_000,
            ;
            assert((x * x) * x <= (99_999 * 99_999) * 99_999) by (nonlinear_arith)
                requires
                    x < 100_000,
            ;
        }
        let xx = x * x;
        let d = 6_000_000_000 + 6_000_000 * x + 3_000 * xx + xx * x;
        let r = 6_000_000_000_000 / d;
        proof {
            assert(6_000_000 * x >= 0 && 3_000 * (x * x) >= 0 && (x * x) * x >= 0)
                by (nonlinear_arith);
            lemma_div_is_ordered_by_denominator(6_000_000_000_000, 6_000_000_000, d as int);
        }
        r
    }
}

pub proof fn lemma_exp_decay_bounds(x: int)
    requires
        0 <= x,
    ensures
        0 <= spec_exp_decay_milli(x) <= 1000,
        x == 0 ==> spec_exp_decay_milli(x) == 1000,
        x >= 100_000 ==> spec_exp_decay_milli(x) == 0,
{
    if x < 100_000 {
        let d = 6_000_000_000 + 6_000_000 * x + 3_000 * (x * x) + (x * x) * x;
        assert(6_000_000 * x >= 0 && 3_000 * (x * x) >= 0 && (x * x) * x >= 0)
            by (nonlinear_arith)
            requires
                x >= 0,
        ;
        lemma_div_pos_is_pos(6_000_000_000_000, d);
        lemma_div_is_ordered_by_denominator(6_000_000_000_000, 6_000_000_000, d);
    }
}

/// The decay curve never increases.
pub proof fn lemma_exp_decay_monotone(x1: int, x2: int)
    requires
        0 <= x1 <= x2,
    ensures
        spec_exp_decay_milli(x1) >= spec_exp_decay_milli(x2),
{
    lemma_exp_decay_bounds(x1);
    lemma_exp_decay_bounds(x2);
    if x2 < 100_000 {
        let d1 = 6_000_000_000 + 6_000_000 * x1 + 3_000 * (x1 * x1) + (x1 * x1) * x1;
        let d2 = 6_000_000_000 + 6_000_000 * x2 + 3_000 * (x2 * x2) + (x2 * x2) * x2;
        assert(6_000_000_000 + 6_000_000 * x1 + 3_000 * (x1 * x1) + (x1 * x1) * x1
            <= 6_000_000_000 + 6_000_000 * x2 + 3_000 * (x2 * x2) + (x2 * x2) * x2)
            by (nonlinear_arith)
            requires
                0 <= x1 <= x2,
        ;
        lemma_div_is_ordered_by_denominator(6_000_000_000_000, d1, d2);
    }
}

// ---------------------------------------------------------------------------
// Per-key state.
// ---------------------------------------------------------------------------

/// Animation state of one key: its clock and the previous frame's activation.
#[derive(Debug, Clone, Copy, PartialEq, Eq, Structural)]
pub struct GlowState {
    /// Scaled clock, microseconds; advances at three times wall time.
    pub time: u64,
    pub was_active: bool,
}

/// The clock after an active frame: saturating at the cap.
pub open spec fn spec_advance(t: int, d: int) -> int {
    if t + 3 * d >= GLOW_TIME_CAP {
        GLOW_TIME_CAP as int
    } else {
        t + 3 * d
    }
}

/// One frame step. A press edge restarts the clock before advancing; an
/// inactive frame resets it outright.
pub open spec fn spec_update(s: GlowState, d: u64, active: bool) -> GlowState {
    if active {
        if s.was_active {
            GlowState { time: spec_advance(s.time as int, d as int) as u64, was_active: true }
        } else {
            GlowState { time: spec_advance(0, d as int) as u64, was_active: true }
        }
    } else {
        GlowState { time: 0, was_active: false }
    }
}

fn advance_time(t: u64, d: u64) -> (r: u64)
    ensures
        r == spec_advance(t as int, d as int),
        r <= GLOW_TIME_CAP,
{
    if t >= GLOW_TIME_CAP || d > GLOW_TIME_CAP / 3 {
        GLOW_TIME_CAP
    } else {
        let nt = t + d * 3;
        if nt >= GLOW_TIME_CAP {
            GLOW_TIME_CAP
        } else {
            nt
        }
    }
}

/// The size of the glow square: a large burst contracting toward the base
/// radius as the key stays held, thousandths of a pixel.
pub open spec fn spec_size_milli(t: int) -> int {
    350_000 + 150 * spec_exp_decay_milli(t / 500)
}

/// The press flash intensity, thousandths: half the decay at five times the
/// clock.
pub open spec fn spec_flash_milli(t: int) -> int {
    spec_exp_decay_milli(t / 200) / 2
}

/// An RGBA color in fixed-point thousandths of linear intensity.
#[derive(Debug, Clone, Copy, PartialEq, Eq, Structural)]
pub struct GlowColor {
    pub r: u32,
    pub g: u32,
    pub b: u32,
}

#[derive(Debug, Clone, Copy, PartialEq, Eq, Structural)]
pub struct GlowRgba {
    pub r: u32,
    pub g: u32,
    pub b: u32,
    pub a: u32,
}

/// One channel: scale by `num` thousandths, add the flash share, clamp.
pub open spec fn spec_scale_clamp(c: int, num: int, flash: int, bound: int) -> int {
    if c * num / 1000 + flash >= bound {
        bound
    } else {
        c * num / 1000 + flash
    }
}

/// The emitted color: channels brightened and flashed, each clamped to its
/// bound; alpha fixed at 0.8.
pub open spec fn spec_calc_color(t: int, c: GlowColor) -> GlowRgba {
    GlowRgba {
        r: spec_scale_clamp(c.r as int, 1300, spec_flash_milli(t), 1500) as u32,
        g: spec_scale_clamp(c.g as int, 1200, spec_flash_milli(t) * 800 / 1000, 1300) as u32,
        b: spec_scale_clamp(c.b as int, 1100, spec_flash_milli(t) * 500 / 1000, 1200) as u32,
        a: 800,
    }
}

fn clamp_channel(c: u32, num: u64, flash: u64, bound: u64) -> (r: u32)
    requires
        num <= 2000,
        flash <= 1000,
        1 <= bound <= 2000,
    ensures
        r == spec_scale_clamp(c as int, num as int, flash as int, bound as int),
        r <= bound,
{
    proof {
        assert((c as int) * (num as int) <= 4_294_967_295int * 2000) by (nonlinear_arith)
            requires
                c as int <= 4_294_967_295 && 0 <= num as int <= 2000,
        ;
    }
    let v = (c as u64) * num / 1000 + flash;
    if v >= bound {
        bound as u32
    } else {
        v as u32
    }
}

impl GlowState {
    pub fn new() -> (r: Self)
        ensures
            r == (GlowState { time: 0, was_active: false }),
    {
        GlowState { time: 0, was_active: false }
    }

    /// Advances this key's state by one frame.
    pub fn update(&mut self, delta_micros: u64, is_active: bool)
        ensures
            *final(self) == spec_update(*old(self), delta_micros, is_active),
    {
        if is_active {
            if !self.was_active {
                self.time = 0;
            }
            self.time = advance_time(self.time, delta_micros);
        } else {
            self.time = 0;
        }
        self.was_active = is_active;
    }

    pub fn size(&self) -> (r: u64)
        ensures
            r == spec_size_milli(self.time as int),
            350_000 <= r <= 500_000,
    {
        let dec = exp_decay_milli(self.time / 500);
        proof {
            lemma_exp_decay_bounds(self.time as int / 500);
        }
        350_000 + 150 * dec
    }

    pub fn calc_color(&self, color: GlowColor) -> (r: GlowRgba)
        ensures
            r == spec_calc_color(self.time as int, color),
            r.a == 800,
    {
        let dec = exp_decay_milli(self.time / 200);
        let flash = dec / 2;
        let rv = clamp_channel(color.r, 1300, flash, 1500);
        let gv = clamp_channel(color.g, 1200, flash * 800 / 1000, 1300);
        let bv = clamp_channel(color.b, 1100, flash * 500 / 1000, 1200);
        GlowRgba { r: rv, g: gv, b: bv, a: 800 }
    }

    pub fn get_time(&self) -> (r: u64)
        ensures
            r == self.time,
    {
        self.time
    }
}

// ---------------------------------------------------------------------------
// Laws of the state machine.
// ---------------------------------------------------------------------------

/// A press edge restarts the burst: whatever the clock held before, the frame
/// behaves as if the key had been at rest with a zero clock.
pub proof fn lemma_press_restarts_clock(s: GlowState, d: u64)
    requires
        !s.was_active,
    ensures
        spec_update(s, d, true) == spec_update(GlowState { time: 0, was_active: false }, d, true),
        spec_update(s, d, true).time == spec_advance(0, d as int),
{
}

/// While a key stays held with positive frame deltas, the clock strictly
/// increases until it saturates.
pub proof fn lemma_held_clock_increases(s: GlowState, d: u64)
    requires
        s.was_active,
        d >= 1,
        s.time + 3 * d <= GLOW_TIME_CAP,
    ensures
        spec_update(s, d, true).time > s.time,
{
}

/// Releasing a key resets its clock on the very next update, whatever its
/// value was.
pub proof fn lemma_release_resets(s: GlowState, d: u64)
    ensures
        spec_update(s, d, false) == (GlowState { time: 0, was_active: false }),
{
}

/// At the moment of a press the glow is largest: base plus full burst.
pub proof fn lemma_size_at_press()
    ensures
        spec_size_milli(0) == 500_000,
{
    lemma_exp_decay_bounds(0);
    assert(0int / 500 == 0);
}

/// The size stays within the base radius and the initial burst, shrinks as
/// the clock grows, and settles exactly at the base radius once the burst
/// has decayed.
pub proof fn lemma_size_settles(t1: int, t2: int)
    requires
        0 <= t1 <= t2,
    ensures
        350_000 <= spec_size_milli(t1) <= 500_000,
        spec_size_milli(t1) >= spec_size_milli(t2),
        t1 >= 50_000_000 ==> spec_size_milli(t1) == 350_000,
{
    lemma_div_is_ordered(t1, t2, 500);
    lemma_exp_decay_bounds(t1 / 500);
    lemma_exp_decay_bounds(t2 / 500);
    lemma_exp_decay_monotone(t1 / 500, t2 / 500);
    if t1 >= 50_000_000 {
        lemma_div_is_ordered(50_000_000, t1, 500);
    }
}

/// A channel already at or above its clamp bound after scaling comes out at
/// exactly the bound, never beyond it.
pub proof fn lemma_color_clamped(t: u64, c: GlowColor)
    ensures
        c.r as int * 1300 / 1000 >= 1500 ==> spec_calc_color(t as int, c).r == 1500,
        c.g as int * 1200 / 1000 >= 1300 ==> spec_calc_color(t as int, c).g == 1300,
        c.b as int * 1100 / 1000 >= 1200 ==> spec_calc_color(t as int, c).b == 1200,
        spec_calc_color(t as int, c).r <= 1500,
        spec_calc_color(t as int, c).g <= 1300,
        spec_calc_color(t as int, c).b <= 1200,
        spec_calc_color(t as int, c).a == 800,
{
    lemma_exp_decay_bounds(t as int / 200);
    lemma_div_pos_is_pos(t as int, 200);
    lemma_div_pos_is_pos(c.r as int * 1300, 1000);
    lemma_div_pos_is_pos(c.g as int * 1200, 1000);
    lemma_div_pos_is_pos(c.b as int * 1100, 1000);
    assert(c.r as int * 1300 >= 0 && c.g as int * 1200 >= 0 && c.b as int * 1100 >= 0)
        by (nonlinear_arith);
    assert(spec_flash_milli(t as int) >= 0);
    assert(spec_flash_milli(t as int) * 800 / 1000 >= 0);
    assert(spec_flash_milli(t as int) * 500 / 1000 >= 0);
}

// ---------------------------------------------------------------------------
// The renderer: per-key states and the frame's instance buffer.
// ---------------------------------------------------------------------------

/// One renderable glow quad: a square of side `size`, centered on the key's
/// horizontal midpoint, carrying the clock for further shaping downstream.
#[derive(Debug, Clone, Copy, PartialEq, Eq, Structural)]
pub struct GlowInstance {
    /// Left edge, thousandths of a pixel.
    pub pos_x: i64,
    /// Top edge, thousandths of a pixel.
    pub pos_y: i64,
    /// Side of the square, thousandths of a pixel.
    pub size: u64,
    pub color: GlowRgba,
    /// The key's animation clock when this instance was emitted.
    pub time_micros: u64,
}

/// The instance `push` emits for a key in state `st`.
pub open spec fn spec_instance(st: GlowState, c: GlowColor, key_x: int, key_y: int, key_w: int) -> GlowInstance {
    let size = spec_size_milli(st.time as int);
    GlowInstance {
        pos_x: (key_x + key_w / 2 - size / 2) as i64,
        pos_y: (key_y - size / 2) as i64,
        size: size as u64,
        color: spec_calc_color(st.time as int, c),
        time_micros: st.time,
    }
}

pub struct GlowRenderer {
    pub states: Vec<GlowState>,
    pub instances: Vec<GlowInstance>,
}

impl GlowRenderer {
    /// An engine for a keyboard of `key_count` keys, all at rest, with an
    /// empty instance buffer.
    pub fn new(key_count: usize) -> (r: Self)
        ensures
            r.states@.len() == key_count,
            forall|i: int|
                0 <= i < key_count ==> r.states@[i] == (GlowState {
                    time: 0,
                    was_active: false,
                }),
            r.instances@.len() == 0,
    {
        let mut states: Vec<GlowState> = Vec::new();
        let mut i: usize = 0;
        while i < key_count
            invariant
                i <= key_count,
                states@.len() == i,
                forall|j: int|
                    0 <= j < i ==> states@[j] == (GlowState { time: 0, was_active: false }),
            decreases key_count - i,
        {
            states.push(GlowState::new());
            i = i + 1;
        }
        GlowRenderer { states, instances: Vec::new() }
    }

    /// Drops the previous frame's instances; the key states are untouched.
    pub fn clear(&mut self)
        ensures
            final(self).states == old(self).states,
            final(self).instances@.len() == 0,
    {
        self.instances.clear();
    }

    /// Advances the pressed key `id` and emits its instance for this frame.
    /// An index outside the keyboard is a caller error, excluded here.
    pub fn push(
        &mut self,
        id: usize,
        color: GlowColor,
        key_x: i64,
        key_y: i64,
        key_w: i64,
        delta_micros: u64,
    )
        requires
            id < old(self).states@.len(),
            -MAX_COORD_MILLI <= key_x <= MAX_COORD_MILLI,
            -MAX_COORD_MILLI <= key_y <= MAX_COORD_MILLI,
            0 <= key_w <= MAX_COORD_MILLI,
        ensures
            final(self).states@ == old(self).states@.update(
                id as int,
                spec_update(old(self).states@[id as int], delta_micros, true),
            ),
            final(self).instances@ == old(self).instances@.push(
                spec_instance(
                    spec_update(old(self).states@[id as int], delta_micros, true),
                    color,
                    key_x as int,
                    key_y as int,
                    key_w as int,
                ),
            ),
    {
        let mut st = self.states[id];
        st.update(delta_micros, true);
        self.states.set(id, st);
        let size = st.size();
        let colr = st.calc_color(color);
        let half = (size / 2) as i64;
        let inst = GlowInstance {
            pos_x: key_x + key_w / 2 - half,
            pos_y: key_y - half,
            size,
            color: colr,
            time_micros: st.get_time(),
        };
        self.instances.push(inst);
    }

    /// The end-of-frame decay pass: keys that were active and are no longer
    /// pressed get one inactive update, resetting them cleanly; keys already
    /// at rest are untouched.
    pub fn update_inactive(&mut self, delta_micros: u64)
        ensures
            final(self).instances == old(self).instances,
            final(self).states@.len() == old(self).states@.len(),
            forall|i: int|
                0 <= i < old(self).states@.len() ==> final(self).states@[i] == (
                if old(self).states@[i].was_active {
                    spec_update(old(self).states@[i], delta_micros, false)
                } else {
                    old(self).states@[i]
                }),
    {
        let mut i: usize = 0;
        while i < self.states.len()
            invariant
                i <= self.states@.len(),
                self.instances == old(self).instances,
                self.states@.len() == old(self).states@.len(),
                forall|j: int|
                    i <= j < old(self).states@.len() ==> self.states@[j] == old(self).states@[j],
                forall|j: int|
                    0 <= j < i ==> self.states@[j] == (if old(self).states@[j].was_active {
                        spec_update(old(self).states@[j], delta_micros, false)
                    } else {
                        old(self).states@[j]
                    }),
            decreases self.states@.len() - i,
        {
            if self.states[i].was_active {
                let mut st = self.states[i];
                st.update(delta_micros, false);
                self.states.set(i, st);
            }
            i = i + 1;
        }
    }

    /// The instances accumulated since the last `clear`, for upload.
    pub fn instances(&self) -> (r: &Vec<GlowInstance>)
        ensures
            r == &self.instances,
    {
        &self.instances
    }
}

} // verus!
