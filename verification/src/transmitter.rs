//! The transmitter: turns a bit pattern into the exact waveform the
//! receiving hardware expects.

use vstd::prelude::*;
use vstd::string::StrSliceExecFns;

use crate::steps::{
    frame_steps, send_steps, start_steps, Level, Step, FRAME_GAP_US, ONE_HIGH_US, ONE_LOW_US,
    PREAMBLE_HIGH_US, PREAMBLE_LOW_US, ZERO_HIGH_US, ZERO_LOW_US,
};

verus! {

/// A fixed-function OOK transmitter.
///
/// Its operations compute the waveform as a sequence of timed steps; a
/// driver that owns the output pin and a blocking microsecond delay plays
/// each step in order, holding the pin at the step's level for the step's
/// duration. The encoder keeps no state between calls.
pub struct Beeper {}

impl Beeper {
    /// The preamble: exactly one sync pulse, 1500 us high then 741 us low.
    pub fn start(&self) -> (r: Vec<Step>)
        ensures
            r@ == start_steps(),
    {
        let mut out: Vec<Step> = Vec::new();
        out.push(Step { level: Level::High, micros: PREAMBLE_HIGH_US });
        out.push(Step { level: Level::Low, micros: PREAMBLE_LOW_US });
        proof {
            assert(out@ =~= start_steps());
        }
        out
    }

    /// One frame: the pattern's symbols left to right — a `'1'` gives
    /// 741 us high then 247 us low, a `'0'` gives 247 us high then 741 us
    /// low, any other character gives nothing — and then one 7000 us low
    /// gap, whether or not the pattern was empty.
    pub fn send(&self, output: &str) -> (r: Vec<Step>)
        ensures
            r@ == send_steps(output@),
    {
        let mut out: Vec<Step> = Vec::new();
        let len: usize = output.unicode_len();
        let mut i: usize = 0;
        while i < len
            invariant
                i <= len,
                len == output@.len(),
                out@ == frame_steps(output@.take(i as int)),
            decreases len - i,
        {
            let c = output.get_char(i);
            if c == '1' {
                out.push(Step { level: Level::High, micros: ONE_HIGH_US });
                out.push(Step { level: Level::Low, micros: ONE_LOW_US });
            } else if c == '0' {
                out.push(Step { level: Level::High, micros: ZERO_HIGH_US });
                out.push(Step { level: Level::Low, micros: ZERO_LOW_US });
            }
            proof {
                let ghost prefix = output@.take(i as int);
                assert(output@.take(i + 1 as int) =~= prefix.push(output@[i as int]));
                crate::steps::lemma_frame_steps_push(prefix, output@[i as int]);
                assert(out@ =~= frame_steps(output@.take(i + 1 as int)));
            }
            i = i + 1;
        }
        proof {
            assert(output@.take(len as int) =~= output@);
        }
        out.push(Step { level: Level::Low, micros: FRAME_GAP_US });
        proof {
            assert(out@ =~= send_steps(output@));
        }
        out
    }
}

} // verus!

