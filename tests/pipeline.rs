use fil::assembler::ByteAssembler;
use fil::edge::ClockEdge;
use fil::symbol::{classify_amplitude, classify_top_bottom, Symbol};
use fil::util::Mean;

fn level(v: u128) -> Mean {
    Mean { total: v, count: 1 }
}

#[test]
fn amplitude_both_dark_is_neither() {
    assert_eq!(classify_amplitude(&level(19), &level(0)), Symbol::Neither);
}

#[test]
fn amplitude_at_low_threshold_is_not_dark() {
    assert_eq!(classify_amplitude(&level(20), &level(0)), Symbol::Clock);
}

#[test]
fn amplitude_both_bright_is_both() {
    assert_eq!(classify_amplitude(&level(61), &level(200)), Symbol::Both);
    assert_eq!(classify_amplitude(&level(60), &level(200)), Symbol::Signal);
}

#[test]
fn amplitude_brighter_region_wins() {
    assert_eq!(classify_amplitude(&level(200), &level(10)), Symbol::Clock);
    assert_eq!(classify_amplitude(&level(10), &level(200)), Symbol::Signal);
}

#[test]
fn amplitude_tie_is_signal() {
    assert_eq!(classify_amplitude(&level(40), &level(40)), Symbol::Signal);
}

#[test]
fn amplitude_uses_exact_means() {
    let clock = Mean { total: 41, count: 2 };
    let signal = Mean { total: 20, count: 1 };
    assert_eq!(classify_amplitude(&clock, &signal), Symbol::Clock);
}

#[test]
fn luma_classification() {
    assert_eq!(classify_top_bottom(250, 241), Symbol::Both);
    assert_eq!(classify_top_bottom(250, 240), Symbol::Signal);
    assert_eq!(classify_top_bottom(150, 200), Symbol::Clock);
    assert_eq!(classify_top_bottom(150, 150), Symbol::Clock);
    assert_eq!(classify_top_bottom(128, 250), Symbol::Neither);
}

#[test]
fn symbol_components() {
    assert_eq!(Symbol::Signal.components(), (true, false));
    assert_eq!(Symbol::Clock.components(), (false, true));
    assert_eq!(Symbol::Both.components(), (true, true));
    assert_eq!(Symbol::Neither.components(), (false, false));
}

#[test]
fn clock_edge_stable_pair_emits_once() {
    let mut e = ClockEdge::new();
    assert_eq!(e.push(true, true), Some(true));
    for _ in 0..4 {
        assert_eq!(e.push(true, true), None);
    }
    assert!(e.prev_clock());
}

#[test]
fn clock_edge_stable_low_clock_emits_nothing() {
    let mut e = ClockEdge::new();
    for _ in 0..5 {
        assert_eq!(e.push(true, false), None);
    }
    assert!(!e.prev_clock());
}

fn run_edges(pairs: &[(bool, bool)]) -> Vec<bool> {
    let mut e = ClockEdge::new();
    let mut bits = Vec::new();
    for &(signal, clock) in pairs {
        if let Some(b) = e.push(signal, clock) {
            bits.push(b);
        }
    }
    bits
}

#[test]
fn clock_edge_two_toggles() {
    let pairs = [
        (true, false),
        (true, false),
        (true, true),
        (false, true),
        (false, true),
        (false, false),
        (true, false),
        (true, false),
    ];
    assert_eq!(run_edges(&pairs), vec![true, false]);
}

#[test]
fn clock_edge_three_toggles() {
    let pairs = [
        (true, false),
        (true, false),
        (true, true),
        (false, true),
        (false, true),
        (false, false),
        (true, false),
        (true, false),
        (true, true),
    ];
    let bits = run_edges(&pairs);
    assert_eq!(bits.len(), 3);
    assert_eq!(bits, vec![true, false, true]);
}

fn feed(packer: &mut ByteAssembler, bits: &[bool]) -> Vec<u8> {
    let mut out = Vec::new();
    for &b in bits {
        if let Some(byte) = packer.push(b) {
            out.push(byte);
        }
    }
    out
}

#[test]
fn byte_first_bit_is_most_significant() {
    let mut packer = ByteAssembler::new();
    let out = feed(&mut packer, &[true, false, false, false, false, false, false, true]);
    assert_eq!(out, vec![129]);
    assert_eq!(packer.pending_len(), 0);
}

#[test]
fn byte_ascii_letter() {
    let mut packer = ByteAssembler::new();
    let out = feed(&mut packer, &[false, true, false, false, false, false, false, true]);
    assert_eq!(out, vec![b'A']);
    assert_eq!(packer.pending_len(), 0);
}

#[test]
fn byte_seven_bits_stay_pending() {
    let mut packer = ByteAssembler::new();
    let out = feed(&mut packer, &[true; 7]);
    assert!(out.is_empty());
    assert_eq!(packer.pending_len(), 7);
    assert_eq!(packer.push(true), Some(255));
    assert_eq!(packer.pending_len(), 0);
}

#[test]
fn byte_sixteen_bits_make_two_bytes() {
    let mut packer = ByteAssembler::new();
    let mut bits = vec![false; 8];
    bits.extend_from_slice(&[true, true, true, true, false, false, false, false]);
    assert_eq!(feed(&mut packer, &bits), vec![0, 0xf0]);
}
