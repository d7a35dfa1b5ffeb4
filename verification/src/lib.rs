//! An on-off-keyed (OOK) radio signal encoder.
//!
//! A bit pattern such as `"1 000 0001"` is turned into the exact sequence of
//! timed pin levels that a remote-controlled RF receiver expects: a fixed
//! preamble pulse, one pulse per `'0'` or `'1'` symbol, and a fixed
//! inter-frame gap. Every duration is a protocol constant in microseconds.
//!
//! The encoder is pure: it returns the waveform as a sequence of [`steps::Step`]
//! values, and a driver (which owns the output pin and a blocking delay
//! source) plays them back one by one.

pub mod laws;
pub mod steps;
pub mod transmitter;
