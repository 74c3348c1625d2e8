//! Tests for the interpreter: loading programs, instruction semantics,
//! sprite drawing, timing, input, and the fatal-error cases.

use chip8::chip8emulator::FONT_MEMORY_START;
use chip8::{Chip8Emulator, Fault, Graphics, Opcode};

const PROGRAM_MEMORY_START: usize = 0x200;

#[test]
fn test_load_rom() {
    let mut chip8 = Chip8Emulator::new(0);
    let data = [1u8, 5, 3, 5, 1, 255, 9];
    chip8.load_rom(&data);

    for i in 0..data.len() {
        assert_eq!(chip8.get_memory(PROGRAM_MEMORY_START + i), data[i]);
    }

    for i in 0..5 {
        assert_eq!(chip8.get_memory(PROGRAM_MEMORY_START - i - 1), 0);
        assert_eq!(chip8.get_memory(PROGRAM_MEMORY_START + data.len() + i), 0);
    }
}

#[test]
fn test_reset() {
    let mut chip8 = Chip8Emulator::new(0);
    let data = [1u8, 5, 3, 5, 1, 255, 9];
    chip8.load_rom(&data);
    chip8.reset(1);
    for i in 0..data.len() {
        assert_eq!(chip8.get_memory(PROGRAM_MEMORY_START + i), 0);
    }
}

#[test]
fn test_gfx() {
    let mut chip8 = Chip8Emulator::new(0);

    assert_eq!(chip8.get_gfx_width(), 64);
    assert_eq!(chip8.get_gfx_height(), 32);
    assert!(chip8.gfx_needs_rerender());
    assert!(!chip8.gfx_needs_rerender());
    assert!(!chip8.get_gfx_pixel(5, 5));

    // Toggle the pixel at (5, 5) through a one-bit sprite draw: stage the
    // row byte 0x80 in memory and draw it at (V0, V1) = (5, 5).
    chip8.store(0, 5);
    chip8.store(1, 5);
    chip8.store(2, 0x80);
    chip8.store_address(0x300);
    chip8.store_regs_in_memory(2).unwrap();
    chip8.store_address(0x302);
    chip8.draw_sprite(0, 1, 1).unwrap();
    assert!(chip8.get_gfx_pixel(5, 5));
    assert!(chip8.gfx_needs_rerender());

    // Drawing the same bit again toggles the lit pixel off: a collision.
    chip8.draw_sprite(0, 1, 1).unwrap();
    assert!(!chip8.get_gfx_pixel(5, 5));
    assert_eq!(chip8.get_reg(0xf), 1);
}

#[test]
fn test_graphics_toggle() {
    let mut gfx = Graphics::new(2, 2);

    assert_eq!(gfx.get_width(), 2);
    assert_eq!(gfx.get_height(), 2);

    // Light the pixel at (0, 1); the display starts clear.
    gfx.toggle(0, 1);
    assert_eq!(gfx.toggle(0, 1), true);
    assert!(gfx.needs_rerender());
    assert!(!gfx.needs_rerender());
    assert_eq!(gfx.toggle(0, 1), false);
    assert!(gfx.get_pixel(0, 1));
    assert!(gfx.needs_rerender());
    assert_eq!(gfx.toggle(0, 1), true);
    assert_eq!(gfx.toggle(1, 1), false);
    assert!(gfx.get_pixel(1, 1));
    assert_eq!(gfx.toggle(0, 0), false);
    assert_eq!(gfx.toggle(1, 1), true);
    assert!(
        gfx.get_pixel(0, 0)
            && !gfx.get_pixel(0, 1)
            && !gfx.get_pixel(1, 0)
            && !gfx.get_pixel(1, 1)
    );

    gfx.clear();
    assert!(
        !gfx.get_pixel(0, 0)
            && !gfx.get_pixel(0, 1)
            && !gfx.get_pixel(1, 0)
            && !gfx.get_pixel(1, 1)
    );
}

#[test]
fn graphics_test_graphics_toggle() {
    let mut gfx = Graphics::new(2, 2);

    // Light the pixel at (0, 1); the display starts clear.
    gfx.toggle(0, 1);
    assert_eq!(gfx.toggle(0, 1), true);
    assert_eq!(gfx.toggle(0, 1), false);
    assert!(gfx.get_pixel(0, 1));
    assert_eq!(gfx.toggle(0, 1), true);
    assert_eq!(gfx.toggle(1, 1), false);
    assert!(gfx.get_pixel(1, 1));
    assert_eq!(gfx.toggle(0, 0), false);
    assert_eq!(gfx.toggle(1, 1), true);
    assert!(
        gfx.get_pixel(0, 0)
            && !gfx.get_pixel(0, 1)
            && !gfx.get_pixel(1, 0)
            && !gfx.get_pixel(1, 1)
    );
}

#[test]
fn test_get_next_opcode() {
    let mut chip8 = Chip8Emulator::new(0);
    let data = [
        0xf1, 0x7d, 0x05, 0x00, 0x13, 0x5c, 0x1a, 0xc4, 0x58, 0xdf, 0x00, 0x01, 0x00, 0x00,
        0x1a, 0x43,
    ];

    let opcodes = [
        0xf17du16, 0x0500, 0x135c, 0x1ac4, 0x58df, 0x0001, 0x0000, 0x1a43,
    ];

    chip8.load_rom(&data);
    for opcode in opcodes.iter() {
        assert_eq!(chip8.get_next_opcode().value(), *opcode)
    }
}

#[test]
fn test_subroutine() {
    let mut chip8 = Chip8Emulator::new(0);
    chip8.jump_to(0xaaaa);
    chip8.execute_subroutine(0x1111).unwrap();
    assert_eq!(chip8.stack_entry(0), 0xaaaa);
    chip8.return_subroutine().unwrap();
    assert_eq!(chip8.get_pc(), 0xaaaa);
    assert!(chip8.stack_depth() == 0)
}

#[test]
fn test_skip() {
    let mut chip8 = Chip8Emulator::new(0);
    chip8.jump_to(0);
    chip8.store(0, 5);
    chip8.skip_if_eq(0, 4);
    assert_eq!(chip8.get_pc(), 0);
    chip8.skip_if_eq(0, 5);
    assert_eq!(chip8.get_pc(), 2);
    chip8.skip_if_ne(0, 5);
    assert_eq!(chip8.get_pc(), 2);
    chip8.skip_if_ne(0, 4);
    assert_eq!(chip8.get_pc(), 4);
    chip8.store(1, 5);
    chip8.store(2, 6);
    chip8.skip_if_eq_reg(0, 2);
    assert_eq!(chip8.get_pc(), 4);
    chip8.skip_if_eq_reg(0, 1);
    assert_eq!(chip8.get_pc(), 6);
    chip8.skip_if_ne_reg(0, 1);
    assert_eq!(chip8.get_pc(), 6);
    chip8.skip_if_ne_reg(0, 2);
    assert_eq!(chip8.get_pc(), 8);

    chip8.store_address(0xad13);
    assert_eq!(chip8.get_i(), 0xad13);
    chip8.store(0, 5);
    chip8.jump_to_plus_v0(10);
    assert_eq!(chip8.get_pc(), 15);

    chip8.store(0xa, 0xa);
    chip8.store(0xb, 0xb);

    chip8.keydown(0xa);
    chip8.skip_if_pressed(0xb).unwrap();
    assert_eq!(chip8.get_pc(), 15);
    chip8.skip_if_not_pressed(0xa).unwrap();
    assert_eq!(chip8.get_pc(), 15);
    chip8.skip_if_pressed(0xa).unwrap();
    assert_eq!(chip8.get_pc(), 17);
    chip8.skip_if_not_pressed(0xb).unwrap();
    assert_eq!(chip8.get_pc(), 19);
    chip8.keyup(0xa);
    chip8.skip_if_pressed(0xa).unwrap();
    assert_eq!(chip8.get_pc(), 19);
}

#[test]
fn test_arithmetic() {
    let mut chip8 = Chip8Emulator::new(0);

    let x = 0;
    let y = 1;

    chip8.store(x, 10);
    assert_eq!(chip8.get_reg(0), 10);
    chip8.add(x, 5);
    assert_eq!(chip8.get_reg(0), 15);
    chip8.add(x, Opcode::new(0x7005).get_nibbles_from(2) as u8);
    assert_eq!(chip8.get_reg(0), 20);
    chip8.store(y, 25);
    chip8.store_reg(x, y);
    assert_eq!(chip8.get_reg(x), 25);
    chip8.store_reg(3, x);
    assert_eq!(chip8.get_reg(3), 25);

    chip8.store(x, 10);
    chip8.store_reg_or(x, y);
    assert_eq!(chip8.get_reg(x), 10 | 25);

    chip8.store(x, 10);
    chip8.store_reg_and(x, y);
    assert_eq!(chip8.get_reg(x), 10 & 25);

    chip8.store(x, 10);
    chip8.store_reg_xor(x, y);
    assert_eq!(chip8.get_reg(x), 10 ^ 25);

    chip8.store(x, 254);
    chip8.store(y, 3);
    chip8.add_reg(x, y);
    assert_eq!(chip8.get_reg(x), 1);
    assert_eq!(chip8.get_reg(0xf), 1);
    chip8.add_reg(x, y);
    assert_eq!(chip8.get_reg(x), 4);
    assert_eq!(chip8.get_reg(0xf), 0);
    chip8.sub_reg(x, y);
    assert_eq!(chip8.get_reg(x), 1);
    assert_eq!(chip8.get_reg(0xf), 1);
    chip8.sub_reg(x, y);
    assert_eq!(chip8.get_reg(x), 254);
    assert_eq!(chip8.get_reg(0xf), 0);

    chip8.store(y, 0b10);
    chip8.store_reg_shr1(x, y);
    assert_eq!(chip8.get_reg(x), 1);
    assert_eq!(chip8.get_reg(0xf), 0);

    chip8.store(x, 10);
    chip8.store(y, 5);
    chip8.store_reg_sub(x, y);
    assert_eq!(chip8.get_reg(x), 251);
    assert_eq!(chip8.get_reg(0xf), 0);

    chip8.store(y, 0x80);
    chip8.store_reg_shl1(x, y);
    assert_eq!(chip8.get_reg(x), 0);
    assert_eq!(chip8.get_reg(0xf), 1);
}

#[test]
fn test_rand() {
    let mut chip8 = Chip8Emulator::new(0);
    for _ in 1..10 {
        chip8.store_random(0, 0xff);
        assert!(chip8.get_reg(0) <= u8::MAX);
        assert!(chip8.get_reg(0) >= u8::MIN);
    }
}

#[test]
fn test_rand_masked() {
    let mut chip8 = Chip8Emulator::new(0);
    for _ in 0..10 {
        chip8.store_random(0, 0x0f);
        assert_eq!(chip8.get_reg(0) & 0xf0, 0);
    }
}

#[test]
fn test_draw_sprite() {
    let mut chip8 = Chip8Emulator::new(0);
    assert!(chip8.gfx_needs_rerender());

    chip8.store(0, 10);
    chip8.store(1, 10);

    chip8.draw_sprite(0, 1, 3).unwrap();
    assert!(!chip8.gfx_needs_rerender());
    assert_eq!(chip8.get_reg(0xf), 0);

    // memory[5..8] = {0b11110000, 0b00001111, 0b10101010}: stage the bytes
    // in V0..V2 and copy them out, then restore the draw coordinates.
    chip8.store(0, 0b11110000);
    chip8.store(1, 0b00001111);
    chip8.store(2, 0b10101010);
    chip8.store_address(5);
    chip8.store_regs_in_memory(2).unwrap();
    chip8.store(0, 10);
    chip8.store(1, 10);

    chip8.store_address(2);
    chip8.store(8, 3);
    chip8.add_to_i(8);
    // Now, I == 5

    chip8.draw_sprite(0, 1, 3).unwrap();
    assert!(chip8.gfx_needs_rerender());
    assert_eq!(chip8.get_reg(0xf), 0);
    assert_eq!(chip8.get_gfx_pixel(10, 10), true);
    assert_eq!(chip8.get_gfx_pixel(11, 10), true);
    assert_eq!(chip8.get_gfx_pixel(14, 10), false);
    assert_eq!(chip8.get_gfx_pixel(14, 11), true);
    assert_eq!(chip8.get_gfx_pixel(13, 11), false);
    assert_eq!(chip8.get_gfx_pixel(10, 12), true);
    assert_eq!(chip8.get_gfx_pixel(11, 12), false);

    chip8.draw_sprite(0, 1, 3).unwrap();
    assert!(chip8.gfx_needs_rerender());
    assert_eq!(chip8.get_reg(0xf), 1);
    assert_eq!(chip8.get_gfx_pixel(10, 10), false);
    assert_eq!(chip8.get_gfx_pixel(11, 10), false);
    assert_eq!(chip8.get_gfx_pixel(14, 10), false);
    assert_eq!(chip8.get_gfx_pixel(14, 11), false);
    assert_eq!(chip8.get_gfx_pixel(13, 11), false);
    assert_eq!(chip8.get_gfx_pixel(10, 12), false);
    assert_eq!(chip8.get_gfx_pixel(11, 12), false);
}

#[test]
fn test_digit_address() {
    let mut chip8 = Chip8Emulator::new(0);
    chip8.store(0, 0);
    chip8.store_digit_address(0);
    assert_eq!(chip8.get_i(), FONT_MEMORY_START as u16);
    chip8.store(0, 0x9);
    chip8.store_digit_address(0);
    assert_eq!(chip8.get_i(), FONT_MEMORY_START as u16 + 45);
    chip8.store(0, 0xf);
    chip8.store_digit_address(0);
    assert_eq!(chip8.get_i(), FONT_MEMORY_START as u16 + 75);
}

#[test]
fn test_store_bcd() {
    let mut chip8 = Chip8Emulator::new(0);
    chip8.store(5, 142);
    chip8.store_address(10);
    chip8.store_bcd(5).unwrap();
    assert_eq!(chip8.get_memory(10), 1);
    assert_eq!(chip8.get_memory(11), 4);
    assert_eq!(chip8.get_memory(12), 2);
}

#[test]
fn test_store_reg_mem() {
    let mut chip8 = Chip8Emulator::new(0);
    chip8.store_address(FONT_MEMORY_START as u16);
    chip8.store_memory_in_regs(0xf).unwrap();
    assert_eq!(chip8.get_reg(0), 0xF0);
    assert_eq!(chip8.get_reg(0x9), 0x70);
    assert_eq!(chip8.get_reg(0xf), 0xF0);

    chip8.store_address(0);
    chip8.store_regs_in_memory(0xf).unwrap();
    assert_eq!(chip8.get_memory(0), 0xF0);
    assert_eq!(chip8.get_memory(0x9), 0x70);
    assert_eq!(chip8.get_memory(0xf), 0xF0);
    assert_eq!(chip8.get_memory(0xf + 1), 0);
}

#[test]
fn test_program_draw_scenario() {
    // memory[5..8] = {0xF0, 0x0F, 0xAA}, then a four-instruction program:
    // V0 <- 10, V1 <- 10, I <- 5, draw a 3-row sprite at (V0, V1).
    let mut chip8 = Chip8Emulator::new(0);
    chip8.store(0, 0xF0);
    chip8.store(1, 0x0F);
    chip8.store(2, 0xAA);
    chip8.store_address(5);
    chip8.store_regs_in_memory(2).unwrap();

    chip8.load_rom(&[0x60, 0x0A, 0x61, 0x0A, 0xA0, 0x05, 0xD0, 0x13]);
    // The default instruction clock runs at 800 per second: 1250
    // microseconds per instruction, so 5000 microseconds cover all four.
    chip8.tick(5000).unwrap();

    assert_eq!(chip8.get_gfx_pixel(10, 10), true);
    assert_eq!(chip8.get_gfx_pixel(14, 10), false);
    assert_eq!(chip8.get_reg(0xf), 0);

    // Executing the draw again toggles the same cells off and collides.
    chip8.draw_sprite(0, 1, 3).unwrap();
    assert_eq!(chip8.get_gfx_pixel(10, 10), false);
    assert_eq!(chip8.get_reg(0xf), 1);
}

#[test]
fn test_wait_for_key_scenario() {
    // Wait-for-key with no key down suspends execution; a later press
    // fills the register and execution resumes.
    let mut chip8 = Chip8Emulator::new(0);
    chip8.load_rom(&[0xF0, 0x0A, 0x61, 0x05]);

    chip8.tick(1250).unwrap();
    assert!(chip8.is_waiting_for_key());
    assert_eq!(chip8.get_pc(), 0x202);

    // A further step executes zero instructions while suspended.
    chip8.tick(2500).unwrap();
    assert_eq!(chip8.get_pc(), 0x202);
    assert!(chip8.is_waiting_for_key());

    chip8.keydown(7);
    assert!(!chip8.is_waiting_for_key());
    assert_eq!(chip8.get_reg(0), 7);

    // Execution resumes normally.
    chip8.tick(3750).unwrap();
    assert_eq!(chip8.get_reg(1), 5);
    assert_eq!(chip8.get_pc(), 0x204);
}

#[test]
fn test_wait_for_key_resolves_immediately() {
    // If a key is already down, the lowest such key resolves the wait at
    // once, with no suspension.
    let mut chip8 = Chip8Emulator::new(0);
    chip8.keydown(9);
    chip8.keydown(4);
    chip8.wait_for_keypress(2);
    assert!(!chip8.is_waiting_for_key());
    assert_eq!(chip8.get_reg(2), 4);
}

#[test]
fn test_return_with_empty_stack_is_fatal() {
    // A "return" instruction with zero calls on the stack is a fatal error.
    let mut chip8 = Chip8Emulator::new(0);
    chip8.load_rom(&[0x00, 0xEE]);
    assert_eq!(chip8.tick(1250), Err(Fault::StackUnderflow));

    let mut direct = Chip8Emulator::new(0);
    assert_eq!(direct.return_subroutine(), Err(Fault::StackUnderflow));
}

#[test]
fn test_stack_overflow_is_fatal() {
    let mut chip8 = Chip8Emulator::new(0);
    for _ in 0..16 {
        chip8.execute_subroutine(0x300).unwrap();
    }
    assert_eq!(chip8.execute_subroutine(0x300), Err(Fault::StackOverflow));
    assert_eq!(chip8.stack_depth(), 16);
}

#[test]
fn test_fetch_out_of_range_is_fatal() {
    let mut chip8 = Chip8Emulator::new(0);
    chip8.jump_to(4095);
    assert_eq!(chip8.execute_next_instruction(), Err(Fault::AddressOutOfRange));
}

#[test]
fn test_bcd_out_of_range_is_fatal() {
    let mut chip8 = Chip8Emulator::new(0);
    chip8.store_address(4094);
    assert_eq!(chip8.store_bcd(0), Err(Fault::AddressOutOfRange));
}

#[test]
fn test_key_out_of_range_is_fatal() {
    let mut chip8 = Chip8Emulator::new(0);
    chip8.store(0, 16);
    assert_eq!(chip8.skip_if_pressed(0), Err(Fault::KeyOutOfRange));
    assert_eq!(chip8.skip_if_not_pressed(0), Err(Fault::KeyOutOfRange));
}

#[test]
fn test_set_ticks_per_second() {
    // At 1000 instructions per second each tick is 1000 microseconds, so
    // 3000 microseconds execute three of them.
    let mut chip8 = Chip8Emulator::new(0);
    chip8.set_ticks_per_second(1000);
    chip8.load_rom(&[0x70, 0x01, 0x70, 0x01, 0x70, 0x01]);
    chip8.tick(3000).unwrap();
    assert_eq!(chip8.get_reg(0), 3);
    assert_eq!(chip8.get_pc(), 0x206);
}

#[test]
fn test_pixel_queries_are_idempotent() {
    let mut chip8 = Chip8Emulator::new(0);
    chip8.store(0, 3);
    chip8.store(1, 4);
    chip8.store(2, 0x80);
    chip8.store_address(0x300);
    chip8.store_regs_in_memory(2).unwrap();
    chip8.store_address(0x302);
    chip8.draw_sprite(0, 1, 1).unwrap();
    assert_eq!(chip8.get_gfx_pixel(3, 4), chip8.get_gfx_pixel(3, 4));
    assert!(chip8.get_gfx_pixel(3, 4));
    assert!(chip8.get_gfx_pixel(3, 4));
    chip8.keydown(2);
    assert_eq!(chip8.is_down(2), chip8.is_down(2));
    assert!(chip8.is_down(2));
    assert!(chip8.is_down(2));
}

#[test]
fn test_load_rom_fills_memory_to_the_end() {
    let mut chip8 = Chip8Emulator::new(0);
    let data = vec![0xABu8; 4096 - PROGRAM_MEMORY_START];
    chip8.load_rom(&data);
    assert_eq!(chip8.get_memory(PROGRAM_MEMORY_START), 0xAB);
    assert_eq!(chip8.get_memory(4095), 0xAB);
    assert_eq!(chip8.get_memory(PROGRAM_MEMORY_START - 1), 0);
}

#[test]
fn test_draw_wraps_around_the_display() {
    // A full row byte drawn at column 62 covers columns 62, 63 and then
    // wraps to 0 through 5; a row at the bottom edge wraps to the top.
    let mut chip8 = Chip8Emulator::new(0);
    chip8.store(0, 0xFF);
    chip8.store(1, 0xFF);
    chip8.store_address(0x300);
    chip8.store_regs_in_memory(1).unwrap();

    chip8.store(0, 62);
    chip8.store(1, 31);
    chip8.store_address(0x300);
    chip8.draw_sprite(0, 1, 2).unwrap();

    assert!(chip8.get_gfx_pixel(62, 31));
    assert!(chip8.get_gfx_pixel(63, 31));
    assert!(chip8.get_gfx_pixel(0, 31));
    assert!(chip8.get_gfx_pixel(5, 31));
    assert!(!chip8.get_gfx_pixel(6, 31));
    // The second sprite row wraps from row 31 to row 0.
    assert!(chip8.get_gfx_pixel(62, 0));
    assert!(chip8.get_gfx_pixel(1, 0));
    assert!(!chip8.get_gfx_pixel(6, 0));
    assert_eq!(chip8.get_reg(0xf), 0);
}

#[test]
fn test_invalid_instruction_is_skipped() {
    // 0x5xy1 matches no known instruction: it is skipped and execution
    // continues at the already-advanced program counter.
    let mut chip8 = Chip8Emulator::new(0);
    chip8.load_rom(&[0x50, 0x11, 0x60, 0x2A]);
    chip8.tick(2500).unwrap();
    assert_eq!(chip8.get_pc(), 0x204);
    assert_eq!(chip8.get_reg(0), 0x2A);
}
