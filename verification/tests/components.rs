//! Tests for the machine's components: the rate accumulator, the countdown
//! timers, the keypad and the instruction-word decoder.

use chip8::{Chip8Timer, KeyPad, Opcode, Timer};

#[test]
fn timer_test_timer() {
    let t: u64 = 10_000;
    let interval: u64 = 5_000;
    let mut timer = Timer::new(t, interval);
    assert_eq!(timer.step(t), 0);

    assert_eq!(timer.step(t + (99 * interval) / 100), 0);
    assert_eq!(timer.step(t + (110 * interval) / 100), 1);

    assert_eq!(timer.step(t + (301 * interval) / 100), 2);

    let t = t + (501 * interval) / 100;
    assert_eq!(timer.step(t), 2);

    let interval: u64 = 15_000;
    timer.set_interval(interval);
    assert_eq!(timer.step(t + (99 * interval) / 100), 0);
    assert_eq!(timer.step(t + (299 * interval) / 100), 2);
}

#[test]
fn test_ticks_split_exactly() {
    // Splitting a span into two queries hands out exactly the ticks one
    // query over the whole span would have.
    let mut split = Timer::new(0, 7);
    let first = split.step(10);
    let second = split.step(23);

    let mut whole = Timer::new(0, 7);
    let total = whole.step(23);

    assert_eq!(first, 1);
    assert_eq!(second, 2);
    assert_eq!(first + second, total);
}

#[test]
fn chip8timer_test_timer() {
    let t: u64 = 10_000;
    let interval: u64 = 1_000_000 / 60;
    let mut timer = Chip8Timer::new(t);
    assert_eq!(timer.value(), 0);
    timer.set_value(5);

    timer.step(t + (99 * interval) / 100);
    assert_eq!(timer.value(), 5);
    timer.step(t + (110 * interval) / 100);
    assert_eq!(timer.value(), 4);

    timer.step(t + (301 * interval) / 100);
    assert_eq!(timer.value(), 2);

    timer.step(t + (501 * interval) / 100);
    assert_eq!(timer.value(), 0);
}

#[test]
fn test_timer_saturates_at_zero() {
    // A countdown set to v and stepped after v + k whole periods reads
    // zero: it never wraps around to 255.
    let interval: u64 = 1_000_000 / 60;
    let mut timer = Chip8Timer::new(0);
    timer.set_value(3);
    timer.step(10 * interval);
    assert_eq!(timer.value(), 0);
    timer.step(20 * interval);
    assert_eq!(timer.value(), 0);
}

#[test]
fn test_keypad() {
    let mut keypad = KeyPad::new();
    assert!(!keypad.is_key_down(0xa));

    keypad.keydown(0xa);
    assert!(keypad.is_key_down(0xa));

    keypad.keyup(0xa);
    assert!(!keypad.is_key_down(0xa));
}

#[test]
fn test_keypad_queries_are_idempotent() {
    let mut keypad = KeyPad::new();
    keypad.keydown(3);
    assert!(keypad.is_key_down(3));
    assert!(keypad.is_key_down(3));
    assert!(!keypad.is_key_down(4));
    assert!(!keypad.is_key_down(4));
}

#[test]
fn test_get_nibbles() {
    let opcode = Opcode::new(0x3a7b);
    assert_eq!(opcode.get_nibbles(1, 3), 0xa7);
    assert_eq!(opcode.get_nibbles(2, 3), 0x7);
    assert_eq!(opcode.get_nibbles(2, 4), 0x7b);
    assert_eq!(opcode.get_nibbles(0, 4), 0x3a7b);
    assert_eq!(opcode.get_nibble(0), 0x3);
    assert_eq!(opcode.get_nibble(3), 0xb);
}
