use beeper::steps::total_micros;
use beeper::steps::Level;
use beeper::steps::Step;
use beeper::transmitter::Beeper;

fn high(micros: u32) -> Step {
    Step { level: Level::High, micros }
}

fn low(micros: u32) -> Step {
    Step { level: Level::Low, micros }
}

const FRAME: &str = "1 000 0001 00110101001000100 0000001 0111 111 00";

#[test]
fn start_is_one_preamble_pulse() {
    let b = Beeper {};
    assert_eq!(b.start(), vec![high(1500), low(741)]);
}

#[test]
fn send_empty_is_gap_only() {
    let b = Beeper {};
    assert_eq!(b.send(""), vec![low(7000)]);
}

#[test]
fn send_separators_only_is_gap_only() {
    let b = Beeper {};
    assert_eq!(b.send("   "), vec![low(7000)]);
}

#[test]
fn send_one_then_zero() {
    let b = Beeper {};
    let expected = vec![high(741), low(247), high(247), low(741), low(7000)];
    assert_eq!(b.send("10"), expected);
}

#[test]
fn send_emits_one_pulse_per_bit_in_order() {
    let b = Beeper {};
    let got = b.send("0 1 10");
    let expected = vec![
        high(247),
        low(741),
        high(741),
        low(247),
        high(741),
        low(247),
        high(247),
        low(741),
        low(7000),
    ];
    assert_eq!(got, expected);
    assert_eq!(got.len(), 2 * 4 + 1);
}

#[test]
fn send_twice_gives_identical_waveforms() {
    let b = Beeper {};
    let first = b.send(FRAME);
    let second = b.send(FRAME);
    assert_eq!(first, second);
    assert_eq!(b.start(), b.start());
}

#[test]
fn known_frame_shape_and_active_time() {
    let b = Beeper {};
    let got = b.send(FRAME);

    let mut bits: u64 = 0;
    for c in FRAME.chars() {
        if c == '0' || c == '1' {
            bits += 1;
        }
    }
    assert_eq!(bits, 41);
    assert_eq!(got.len() as u64, 2 * bits + 1);
    assert_eq!(got[got.len() - 1], low(7000));

    // Every data bit spans 988 us; the trailing gap is on top of that.
    let total: u64 = total_micros(&got);
    assert_eq!(total, bits * 988 + 7000);
    assert_eq!(total, 47508);
}

#[test]
fn other_characters_are_no_ops() {
    let b = Beeper {};
    assert_eq!(b.send("ab1cd0ef"), b.send("10"));
    assert_eq!(b.send("?!x\ty\nz2345678"), vec![low(7000)]);
}

#[test]
fn total_micros_sums_durations() {
    let b = Beeper {};
    assert_eq!(total_micros(&Vec::new()), 0);
    assert_eq!(total_micros(&b.start()), 1500 + 741);
    assert_eq!(total_micros(&b.send("")), 7000);
}
