//! The waveform model: pin levels, timed steps, pulses, and the spec-level
//! encoding of a bit pattern into a waveform.

use vstd::prelude::*;

verus! {

/// The level an output pin is driven to.
#[derive(Clone, Copy, PartialEq, Eq, Structural, Debug)]
pub enum Level {
    High,
    Low,
}

/// One timed segment of a waveform: the pin is held at `level` for
/// `micros` microseconds.
#[derive(Clone, Copy, PartialEq, Eq, Structural, Debug)]
pub struct Step {
    pub level: Level,
    pub micros: u32,
}

/// One data pulse: the pin is driven high for `high_us` microseconds and
/// then low for `low_us` microseconds.
#[derive(Clone, Copy, PartialEq, Eq, Structural, Debug)]
pub struct Pulse {
    pub high_us: u32,
    pub low_us: u32,
}

/// Preamble pulse: high duration.
pub const PREAMBLE_HIGH_US: u32 = 1500;

/// Preamble pulse: low duration.
pub const PREAMBLE_LOW_US: u32 = 741;

/// One-bit pulse: high duration.
pub const ONE_HIGH_US: u32 = 741;

/// One-bit pulse: low duration.
pub const ONE_LOW_US: u32 = 247;

/// Zero-bit pulse: high duration.
pub const ZERO_HIGH_US: u32 = 247;

/// Zero-bit pulse: low duration.
pub const ZERO_LOW_US: u32 = 741;

/// Both data pulses span the same total time.
pub const BIT_PERIOD_US: u32 = 988;

/// Low period appended after the last symbol of every frame, so the
/// receiver can re-synchronize.
pub const FRAME_GAP_US: u32 = 7000;

/// The symbols that produce a pulse; every other character is a separator.
pub open spec fn is_bit(c: char) -> bool {
    c == '0' || c == '1'
}

/// The pulse emitted for a `'0'` or `'1'` symbol.
pub open spec fn pulse_of_symbol(c: char) -> Pulse
    recommends
        is_bit(c),
{
    if c == '1' {
        Pulse { high_us: ONE_HIGH_US, low_us: ONE_LOW_US }
    } else {
        Pulse { high_us: ZERO_HIGH_US, low_us: ZERO_LOW_US }
    }
}

/// The two steps that play one pulse.
pub open spec fn steps_of_pulse(p: Pulse) -> Seq<Step> {
    seq![
        Step { level: Level::High, micros: p.high_us },
        Step { level: Level::Low, micros: p.low_us },
    ]
}

/// The steps emitted for one symbol: a pulse for `'0'` or `'1'`, nothing
/// for a separator.
pub open spec fn symbol_steps(c: char) -> Seq<Step> {
    if is_bit(c) {
        steps_of_pulse(pulse_of_symbol(c))
    } else {
        Seq::empty()
    }
}

/// The steps emitted for a whole pattern, left to right, without the
/// trailing frame gap.
pub open spec fn frame_steps(p: Seq<char>) -> Seq<Step>
    decreases p.len(),
{
    if p.len() == 0 {
        Seq::empty()
    } else {
        symbol_steps(p[0]) + frame_steps(p.drop_first())
    }
}

/// The trailing inter-frame gap.
pub open spec fn gap_step() -> Step {
    Step { level: Level::Low, micros: FRAME_GAP_US }
}

/// Everything a `send` call emits: the pattern's steps, then one gap.
pub open spec fn send_steps(p: Seq<char>) -> Seq<Step> {
    frame_steps(p).push(gap_step())
}

/// The sync pulse that opens a message.
pub open spec fn preamble_pulse() -> Pulse {
    Pulse { high_us: PREAMBLE_HIGH_US, low_us: PREAMBLE_LOW_US }
}

/// Everything a `start` call emits: exactly one preamble pulse.
pub open spec fn start_steps() -> Seq<Step> {
    steps_of_pulse(preamble_pulse())
}

/// The pulses a pattern encodes to, left to right; separators contribute
/// nothing.
pub open spec fn frame_pulses(p: Seq<char>) -> Seq<Pulse>
    decreases p.len(),
{
    if p.len() == 0 {
        Seq::empty()
    } else if is_bit(p[0]) {
        seq![pulse_of_symbol(p[0])] + frame_pulses(p.drop_first())
    } else {
        frame_pulses(p.drop_first())
    }
}

/// The steps that play a sequence of pulses back to back.
pub open spec fn steps_of_pulses(ps: Seq<Pulse>) -> Seq<Step>
    decreases ps.len(),
{
    if ps.len() == 0 {
        Seq::empty()
    } else {
        steps_of_pulse(ps[0]) + steps_of_pulses(ps.drop_first())
    }
}

/// How many symbols of a pattern are `'0'` or `'1'`.
pub open spec fn bit_count(p: Seq<char>) -> nat
    decreases p.len(),
{
    if p.len() == 0 {
        0
    } else {
        (if is_bit(p[0]) { 1nat } else { 0nat }) + bit_count(p.drop_first())
    }
}

/// Total time a sequence of steps occupies, in microseconds.
pub open spec fn steps_micros(s: Seq<Step>) -> int
    decreases s.len(),
{
    if s.len() == 0 {
        0
    } else {
        s[0].micros + steps_micros(s.drop_first())
    }
}

/// Total time a waveform occupies, in microseconds. The bound on the sum
/// only keeps the machine arithmetic in range; every waveform the encoder
/// emits is far below it.
pub fn total_micros(steps: &Vec<Step>) -> (t: u64)
    requires
        steps_micros(steps@) <= u64::MAX,
    ensures
        t == steps_micros(steps@),
{
    let mut t: u64 = 0;
    let mut i: usize = 0;
    while i < steps.len()
        invariant
            i <= steps@.len(),
            steps_micros(steps@) <= u64::MAX,
            t == steps_micros(steps@.take(i as int)),
        decreases steps@.len() - i,
    {
        proof {
            let ghost prefix = steps@.take(i as int);
            assert(steps@.take(i + 1 as int) =~= prefix.push(steps@[i as int]));
            lemma_steps_micros_push(prefix, steps@[i as int]);
            assert(steps@ =~= steps@.take(i + 1 as int) + steps@.skip(i + 1 as int));
            lemma_steps_micros_concat(steps@.take(i + 1 as int), steps@.skip(i + 1 as int));
            lemma_steps_micros_nonneg(steps@.skip(i + 1 as int));
        }
        t = t + steps[i].micros as u64;
        i = i + 1;
    }
    proof {
        assert(steps@.take(steps@.len() as int) =~= steps@);
    }
    t
}

/// A sequence of steps never occupies negative time.
pub proof fn lemma_steps_micros_nonneg(s: Seq<Step>)
    ensures
        steps_micros(s) >= 0,
    decreases s.len(),
{
    if s.len() > 0 {
        lemma_steps_micros_nonneg(s.drop_first());
    }
}

/// The time of two waveforms played back to back is the sum of their times.
pub proof fn lemma_steps_micros_concat(a: Seq<Step>, b: Seq<Step>)
    ensures
        steps_micros(a + b) == steps_micros(a) + steps_micros(b),
    decreases a.len(),
{
    if a.len() == 0 {
        assert(a + b =~= b);
    } else {
        assert((a + b).drop_first() =~= a.drop_first() + b);
        lemma_steps_micros_concat(a.drop_first(), b);
    }
}

/// Appending one step adds its duration.
pub proof fn lemma_steps_micros_push(s: Seq<Step>, x: Step)
    ensures
        steps_micros(s.push(x)) == steps_micros(s) + x.micros,
    decreases s.len(),
{
    if s.len() == 0 {
        assert(s.push(x).drop_first() =~= s);
    } else {
        assert(s.push(x).drop_first() =~= s.drop_first().push(x));
        lemma_steps_micros_push(s.drop_first(), x);
    }
}

/// Appending a symbol to a pattern appends that symbol's steps to the frame.
pub proof fn lemma_frame_steps_push(p: Seq<char>, c: char)
    ensures
        frame_steps(p.push(c)) == frame_steps(p) + symbol_steps(c),
    decreases p.len(),
{
    if p.len() == 0 {
        assert(p.push(c).drop_first() =~= p);
        assert(frame_steps(p.push(c)) =~= frame_steps(p) + symbol_steps(c));
    } else {
        assert(p.push(c).drop_first() =~= p.drop_first().push(c));
        lemma_frame_steps_push(p.drop_first(), c);
        assert(frame_steps(p.push(c)) =~= frame_steps(p) + symbol_steps(c));
    }
}

} // verus!
