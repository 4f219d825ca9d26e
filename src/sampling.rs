//! Bounded sampling from a source of uniformly distributed 32-bit draws.
use vstd::prelude::*;

verus! {

/// A source of uniformly distributed 32-bit draws; the only entropy the engine uses.
/// `drawn` records every draw handed out so far, oldest first.
pub trait RandomSource {
    spec fn drawn(&self) -> Seq<u32>;

    fn next_u32(&mut self) -> (r: u32)
        ensures
            final(self).drawn() == old(self).drawn().push(r),
    ;
}

/// Relies on turbo's `random::u32`: a draw from the host's generator, of which
/// nothing is known.
#[verifier::external_body]
fn host_u32() -> (r: u32) {
    turbo_genesis_sdk::random::u32()
}

/// The host's generator.
pub struct HostRandom {
    pub history: Ghost<Seq<u32>>,
}

impl HostRandom {
    pub fn new() -> (r: HostRandom)
        ensures
            r.drawn() == Seq::<u32>::empty(),
    {
        HostRandom { history: Ghost(Seq::empty()) }
    }
}

impl RandomSource for HostRandom {
    open spec fn drawn(&self) -> Seq<u32> {
        self.history@
    }

    fn next_u32(&mut self) -> (r: u32) {
        let r = host_u32();
        self.history = Ghost(self.history@.push(r));
        r
    }
}

/// A deterministic source that replays a fixed list of draws, cycling through it.
pub struct ScriptedRandom {
    pub draws: Vec<u32>,
    pub next: usize,
    pub history: Ghost<Seq<u32>>,
}

impl ScriptedRandom {
    pub open spec fn wf(&self) -> bool {
        self.draws@.len() > 0 && self.next < self.draws@.len()
    }

    pub fn new(draws: Vec<u32>) -> (r: ScriptedRandom)
        requires
            draws@.len() > 0,
        ensures
            r.wf(),
            r.draws@ == draws@,
            r.next == 0,
            r.drawn() == Seq::<u32>::empty(),
    {
        ScriptedRandom { draws, next: 0, history: Ghost(Seq::empty()) }
    }

    /// Hands out the draw at the cursor and moves the cursor on, wrapping at the end.
    pub fn draw(&mut self) -> (r: u32)
        requires
            old(self).wf(),
        ensures
            final(self).wf(),
            r == old(self).draws@[old(self).next as int],
            final(self).draws@ == old(self).draws@,
            final(self).next == if old(self).next + 1 == old(self).draws@.len() {
                0
            } else {
                old(self).next + 1
            },
            final(self).drawn() == old(self).drawn().push(r),
    {
        let r = self.draws[self.next];
        if self.next == self.draws.len() - 1 {
            self.next = 0;
        } else {
            self.next = self.next + 1;
        }
        self.history = Ghost(self.history@.push(r));
        r
    }
}

impl RandomSource for ScriptedRandom {
    open spec fn drawn(&self) -> Seq<u32> {
        self.history@
    }

    fn next_u32(&mut self) -> (r: u32) {
        if self.draws.len() == 0 {
            self.history = Ghost(self.history@.push(0));
            0
        } else {
            if self.next >= self.draws.len() {
                self.next = 0;
            }
            self.draw()
        }
    }
}

/// Quantum of the fixed-point scale: one thousandth.
pub const SCALE: i64 = 1000;

/// The span `|max - min|` of a range.
pub open spec fn span_of(min: int, max: int) -> int {
    if max >= min {
        max - min
    } else {
        min - max
    }
}

/// Whether sampling from `[min, max]` takes a draw: not when the span is below a
/// thousandth.
pub open spec fn float_needs_draw(min: int, max: int) -> bool {
    span_of(min, max) != 0
}

/// The `k`-th of the thousand evenly spaced values from `min` over the span.
pub open spec fn float_step(min: int, max: int, k: int) -> int {
    min + k * span_of(min, max) / 1000
}

/// `min + k * span / 1000` with `k = draw mod 1000`, where `span = |max - min|`:
/// one of at most a thousand evenly spaced values, anchored at `min`; `min` itself
/// when the span is below one thousandth.
pub open spec fn float_sample(min: int, max: int, draw: u32) -> int {
    let span = span_of(min, max);
    if span == 0 {
        min
    } else {
        min + ((draw as int) % 1000) * span / 1000
    }
}

/// Whether sampling from `[min, max)` takes a draw: only when `max > min`.
pub open spec fn int_needs_draw(min: u32, max: u32) -> bool {
    max > min
}

/// `min + draw mod (max - min)` when `max > min`, else `min`.
pub open spec fn int_sample(min: u32, max: u32, draw: u32) -> u32 {
    if max <= min {
        min
    } else {
        (min + (draw as int) % ((max - min) as int)) as u32
    }
}

/// A fixed-point value drawn from `[min, max]` at a resolution of a thousandth of
/// the range: at most a thousand distinct outcomes, anchored at `min`.
pub fn sample_float(min: i32, max: i32, draw: u32) -> (r: i64)
    ensures
        r == float_sample(min as int, max as int, draw),
        min <= r <= min + span_of(min as int, max as int),
{
    let lo = min as i64;
    let hi = max as i64;
    let span: i64 = if hi >= lo { hi - lo } else { lo - hi };
    if span == 0 {
        return lo;
    }
    let k = (draw % 1000) as i64;
    proof {
        assert(0 <= k * span <= 999 * 4294967295) by (nonlinear_arith)
            requires
                0 <= k < 1000,
                0 < span <= 4294967295,
        ;
        assert(0 <= k * span / 1000 <= span) by (nonlinear_arith)
            requires
                0 <= k < 1000,
                0 < span,
        ;
    }
    lo + k * span / 1000
}

/// An integer drawn from `[min, max)`, or `min` when the range is empty.
pub fn sample_int(min: u32, max: u32, draw: u32) -> (r: u32)
    ensures
        r == int_sample(min, max, draw),
{
    if max <= min {
        return min;
    }
    min + draw % (max - min)
}

/// A fixed-point value sampled from an ordered range lies in `[min, max]`, one
/// sampled from an empty span is exactly `min`, and every sample is one of the
/// thousand steps `min + k * span / 1000`.
pub proof fn lemma_sample_float_in_range(min: i32, max: i32, draw: u32)
    ensures
        min <= max ==> min <= float_sample(min as int, max as int, draw) <= max,
        min == max ==> float_sample(min as int, max as int, draw) == min,
        exists|k: int|
            0 <= k < 1000 && float_sample(min as int, max as int, draw) == #[trigger] float_step(
                min as int,
                max as int,
                k,
            ),
{
    let span = span_of(min as int, max as int);
    let k = (draw as int) % 1000;
    assert(0 <= k * span / 1000 <= span) by (nonlinear_arith)
        requires
            0 <= k < 1000,
            0 <= span,
    ;
    if span == 0 {
        assert(float_sample(min as int, max as int, draw) == float_step(min as int, max as int, 0));
    } else {
        assert(float_sample(min as int, max as int, draw) == float_step(min as int, max as int, k));
    }
}

/// A sampled integer lies in `[min, max)` when `max > min`, and is `min` otherwise.
pub proof fn lemma_sample_int_in_range(min: u32, max: u32, draw: u32)
    ensures
        max > min ==> min <= int_sample(min, max, draw) < max,
        max <= min ==> int_sample(min, max, draw) == min,
{
}

} // verus!
