//! The encoder's guarantees, stated and proved once over the waveform
//! model of [`crate::steps`].

use vstd::prelude::*;

use crate::steps::{
    bit_count, frame_pulses, frame_steps, gap_step, is_bit, lemma_steps_micros_concat,
    lemma_steps_micros_push, preamble_pulse, send_steps, start_steps, steps_micros,
    steps_of_pulses, symbol_steps, Level, Pulse, Step, BIT_PERIOD_US, FRAME_GAP_US,
    PREAMBLE_HIGH_US, PREAMBLE_LOW_US,
};

verus! {

/// Playing pulses back to back takes two steps per pulse.
pub proof fn lemma_steps_of_pulses_len(ps: Seq<Pulse>)
    ensures
        steps_of_pulses(ps).len() == 2 * ps.len(),
    decreases ps.len(),
{
    if ps.len() > 0 {
        lemma_steps_of_pulses_len(ps.drop_first());
    }
}

/// A frame is exactly its pulses played left to right: one pulse per `'0'`
/// or `'1'` symbol of the pattern, in the pattern's order, carrying that
/// symbol's duration pair, and nothing for any other character.
pub proof fn lemma_frame_is_its_pulses(p: Seq<char>)
    ensures
        frame_steps(p) == steps_of_pulses(frame_pulses(p)),
        frame_pulses(p).len() == bit_count(p),
    decreases p.len(),
{
    if p.len() > 0 {
        lemma_frame_is_its_pulses(p.drop_first());
        if is_bit(p[0]) {
            let ps = frame_pulses(p);
            assert(ps.drop_first() =~= frame_pulses(p.drop_first()));
            assert(frame_steps(p) =~= steps_of_pulses(ps));
        } else {
            assert(frame_steps(p) =~= steps_of_pulses(frame_pulses(p)));
        }
    }
}

/// Patterns encode left to right: one pattern followed by another encodes
/// to the first pattern's waveform followed by the second's, and likewise
/// for their pulses and bit counts.
pub proof fn lemma_frame_concat(a: Seq<char>, b: Seq<char>)
    ensures
        frame_steps(a + b) == frame_steps(a) + frame_steps(b),
        frame_pulses(a + b) == frame_pulses(a) + frame_pulses(b),
        bit_count(a + b) == bit_count(a) + bit_count(b),
    decreases a.len(),
{
    if a.len() == 0 {
        assert(a + b =~= b);
        assert(frame_steps(a) + frame_steps(b) =~= frame_steps(b));
        assert(frame_pulses(a) + frame_pulses(b) =~= frame_pulses(b));
    } else {
        assert((a + b).drop_first() =~= a.drop_first() + b);
        lemma_frame_concat(a.drop_first(), b);
        assert(frame_steps(a + b) =~= frame_steps(a) + frame_steps(b));
        assert(frame_pulses(a + b) =~= frame_pulses(a) + frame_pulses(b));
    }
}

/// A send is the pattern's pulses, one per `'0'`/`'1'` symbol in original
/// order, followed by exactly one low frame gap as the final step.
pub proof fn lemma_send_shape(p: Seq<char>)
    ensures
        send_steps(p) == steps_of_pulses(frame_pulses(p)).push(gap_step()),
        send_steps(p).len() == 2 * bit_count(p) + 1,
        send_steps(p).last() == gap_step(),
{
    lemma_frame_is_its_pulses(p);
    lemma_steps_of_pulses_len(frame_pulses(p));
}

/// A pattern without `'0'` or `'1'` produces no pulse: the send is the
/// frame gap alone.
pub proof fn lemma_separators_send_only_gap(p: Seq<char>)
    requires
        bit_count(p) == 0,
    ensures
        send_steps(p) == seq![gap_step()],
{
    lemma_frame_is_its_pulses(p);
    assert(frame_pulses(p) =~= Seq::<Pulse>::empty());
    assert(send_steps(p) =~= seq![gap_step()]);
}

/// The preamble is exactly one pulse: 1500 us high, then 741 us low.
pub proof fn lemma_start_is_one_pulse()
    ensures
        start_steps() == steps_of_pulses(seq![preamble_pulse()]),
        start_steps().len() == 2,
        start_steps()[0] == (Step { level: Level::High, micros: PREAMBLE_HIGH_US }),
        start_steps()[1] == (Step { level: Level::Low, micros: PREAMBLE_LOW_US }),
{
    assert(seq![preamble_pulse()].drop_first() =~= Seq::<Pulse>::empty());
    assert(steps_of_pulses(Seq::<Pulse>::empty()) == Seq::<Step>::empty());
    assert(start_steps() =~= steps_of_pulses(seq![preamble_pulse()]));
}

/// The encoder keeps no state between calls: two sends of one pattern
/// yield the same waveform.
pub proof fn lemma_send_repeatable(p: Seq<char>, first: Seq<Step>, second: Seq<Step>)
    requires
        first == send_steps(p),
        second == send_steps(p),
    ensures
        first == second,
{
}

/// Both data pulses span the same fixed period, so a frame's active time
/// is that period times its bit count; a send adds one frame gap on top,
/// and a pattern's separators add no time at all.
pub proof fn lemma_send_micros(p: Seq<char>)
    ensures
        steps_micros(frame_steps(p)) == bit_count(p) * BIT_PERIOD_US,
        steps_micros(send_steps(p)) == bit_count(p) * BIT_PERIOD_US + FRAME_GAP_US,
    decreases p.len(),
{
    if p.len() > 0 {
        lemma_send_micros(p.drop_first());
        lemma_steps_micros_concat(symbol_steps(p[0]), frame_steps(p.drop_first()));
        if is_bit(p[0]) {
            let ss = symbol_steps(p[0]);
            let rest = ss.drop_first();
            assert(rest.drop_first() =~= Seq::<Step>::empty());
            assert(steps_micros(Seq::<Step>::empty()) == 0);
            assert(steps_micros(rest) == rest[0].micros + steps_micros(rest.drop_first()));
            assert(steps_micros(ss) == BIT_PERIOD_US);
        }
    }
    lemma_steps_micros_push(frame_steps(p), gap_step());
}

} // verus!
