//! An interpreter for the classic CHIP-8 virtual machine.
//!
//! The crate models the machine's full state (memory, registers, program
//! counter, call stack, two countdown timers, a monochrome framebuffer and a
//! sixteen-key input device) and advances it one instruction at a time under a
//! caller-driven time base.  All time values are taken as explicit arguments,
//! measured in microseconds on a monotonically non-decreasing clock.

pub mod bitset;
pub mod callstack;
pub mod chip8emulator;
pub mod chip8timer;
pub mod graphics;
pub mod keypad;
pub mod machine;
pub mod opcode;
pub mod timer;

pub use chip8emulator::Chip8Emulator;
pub use chip8timer::Chip8Timer;
pub use graphics::Graphics;
pub use keypad::KeyPad;
pub use machine::Fault;
pub use opcode::Opcode;
pub use timer::Timer;
