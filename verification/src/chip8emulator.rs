//! The interpreter itself: fetch, decode and dispatch of instructions over
//! the machine state, plus the event and data-access operations the host
//! drives it with.

use vstd::prelude::*;
use arrayvec::ArrayVec;
use rand::distr::{Distribution, StandardUniform};
use crate::callstack::{stack_entries, stack_get, stack_len, stack_new, stack_pop, stack_push};
use crate::chip8timer::Chip8Timer;
use crate::graphics::Graphics;
use crate::keypad::{first_key_down, KeyPad};
use crate::machine::{
    cell_index, covers_index, draw_collision, draw_px, draw_result, fetch_word, instr_rel,
    lemma_run_absorb_waiting, lemma_run_extend_err, lemma_run_extend_ok, machine_wf, rand_masked,
    run_rel, sprite_bit, sprite_has_set_bit, step_rel, Fault, MachineView,
};
use crate::chip8timer::{saturating_countdown, TICK_INTERVAL_MICROS};
use crate::timer::{advanced_reference, whole_ticks};
use vstd::arithmetic::div_mod::{lemma_fundamental_div_mod, lemma_mod_bound};
use vstd::wrapping::{u16_specs, u8_specs};
use crate::opcode::Opcode;
use crate::timer::Timer;

verus! {

/// The display is 64 columns by 32 rows.
pub const DISPLAY_WIDTH: u32 = 64;

pub const DISPLAY_HEIGHT: u32 = 32;

/// Programs are copied in starting at this offset.
pub const PROGRAM_MEMORY_START: usize = 0x200;

/// The hexadecimal font table is preloaded at this offset.
pub const FONT_MEMORY_START: usize = 0x50;

/// The instruction clock's default interval: 1250 microseconds, i.e. 800
/// instructions per second.
pub const DEFAULT_CLOCK_INTERVAL_MICROS: u64 = 1250;

/// Byte `k` of the 16-glyph, 5-byte-per-glyph hexadecimal font table.
pub open spec fn font_byte(k: int) -> u8 {
    if k == 0 {
        0xF0
    } else if k == 1 {
        0x90
    } else if k == 2 {
        0x90
    } else if k == 3 {
        0x90
    } else if k == 4 {
        0xF0
    } else if k == 5 {
        0x20
    } else if k == 6 {
        0x60
    } else if k == 7 {
        0x20
    } else if k == 8 {
        0x20
    } else if k == 9 {
        0x70
    } else if k == 10 {
        0xF0
    } else if k == 11 {
        0x10
    } else if k == 12 {
        0xF0
    } else if k == 13 {
        0x80
    } else if k == 14 {
        0xF0
    } else if k == 15 {
        0xF0
    } else if k == 16 {
        0x10
    } else if k == 17 {
        0xF0
    } else if k == 18 {
        0x10
    } else if k == 19 {
        0xF0
    } else if k == 20 {
        0x90
    } else if k == 21 {
        0x90
    } else if k == 22 {
        0xF0
    } else if k == 23 {
        0x10
    } else if k == 24 {
        0x10
    } else if k == 25 {
        0xF0
    } else if k == 26 {
        0x80
    } else if k == 27 {
        0xF0
    } else if k == 28 {
        0x10
    } else if k == 29 {
        0xF0
    } else if k == 30 {
        0xF0
    } else if k == 31 {
        0x80
    } else if k == 32 {
        0xF0
    } else if k == 33 {
        0x90
    } else if k == 34 {
        0xF0
    } else if k == 35 {
        0xF0
    } else if k == 36 {
        0x10
    } else if k == 37 {
        0x20
    } else if k == 38 {
        0x40
    } else if k == 39 {
        0x40
    } else if k == 40 {
        0xF0
    } else if k == 41 {
        0x90
    } else if k == 42 {
        0xF0
    } else if k == 43 {
        0x90
    } else if k == 44 {
        0xF0
    } else if k == 45 {
        0xF0
    } else if k == 46 {
        0x90
    } else if k == 47 {
        0xF0
    } else if k == 48 {
        0x10
    } else if k == 49 {
        0xF0
    } else if k == 50 {
        0xF0
    } else if k == 51 {
        0x90
    } else if k == 52 {
        0xF0
    } else if k == 53 {
        0x90
    } else if k == 54 {
        0x90
    } else if k == 55 {
        0xE0
    } else if k == 56 {
        0x90
    } else if k == 57 {
        0xE0
    } else if k == 58 {
        0x90
    } else if k == 59 {
        0xE0
    } else if k == 60 {
        0xF0
    } else if k == 61 {
        0x80
    } else if k == 62 {
        0x80
    } else if k == 63 {
        0x80
    } else if k == 64 {
        0xF0
    } else if k == 65 {
        0xE0
    } else if k == 66 {
        0x90
    } else if k == 67 {
        0x90
    } else if k == 68 {
        0x90
    } else if k == 69 {
        0xE0
    } else if k == 70 {
        0xF0
    } else if k == 71 {
        0x80
    } else if k == 72 {
        0xF0
    } else if k == 73 {
        0x80
    } else if k == 74 {
        0xF0
    } else if k == 75 {
        0xF0
    } else if k == 76 {
        0x80
    } else if k == 77 {
        0xF0
    } else if k == 78 {
        0x80
    } else {
        0x80
    }
}

fn font_byte_at(k: usize) -> (r: u8)
    ensures
        r == font_byte(k as int),
{
    if k == 0 {
        0xF0
    } else if k == 1 {
        0x90
    } else if k == 2 {
        0x90
    } else if k == 3 {
        0x90
    } else if k == 4 {
        0xF0
    } else if k == 5 {
        0x20
    } else if k == 6 {
        0x60
    } else if k == 7 {
        0x20
    } else if k == 8 {
        0x20
    } else if k == 9 {
        0x70
    } else if k == 10 {
        0xF0
    } else if k == 11 {
        0x10
    } else if k == 12 {
        0xF0
    } else if k == 13 {
        0x80
    } else if k == 14 {
        0xF0
    } else if k == 15 {
        0xF0
    } else if k == 16 {
        0x10
    } else if k == 17 {
        0xF0
    } else if k == 18 {
        0x10
    } else if k == 19 {
        0xF0
    } else if k == 20 {
        0x90
    } else if k == 21 {
        0x90
    } else if k == 22 {
        0xF0
    } else if k == 23 {
        0x10
    } else if k == 24 {
        0x10
    } else if k == 25 {
        0xF0
    } else if k == 26 {
        0x80
    } else if k == 27 {
        0xF0
    } else if k == 28 {
        0x10
    } else if k == 29 {
        0xF0
    } else if k == 30 {
        0xF0
    } else if k == 31 {
        0x80
    } else if k == 32 {
        0xF0
    } else if k == 33 {
        0x90
    } else if k == 34 {
        0xF0
    } else if k == 35 {
        0xF0
    } else if k == 36 {
        0x10
    } else if k == 37 {
        0x20
    } else if k == 38 {
        0x40
    } else if k == 39 {
        0x40
    } else if k == 40 {
        0xF0
    } else if k == 41 {
        0x90
    } else if k == 42 {
        0xF0
    } else if k == 43 {
        0x90
    } else if k == 44 {
        0xF0
    } else if k == 45 {
        0xF0
    } else if k == 46 {
        0x90
    } else if k == 47 {
        0xF0
    } else if k == 48 {
        0x10
    } else if k == 49 {
        0xF0
    } else if k == 50 {
        0xF0
    } else if k == 51 {
        0x90
    } else if k == 52 {
        0xF0
    } else if k == 53 {
        0x90
    } else if k == 54 {
        0x90
    } else if k == 55 {
        0xE0
    } else if k == 56 {
        0x90
    } else if k == 57 {
        0xE0
    } else if k == 58 {
        0x90
    } else if k == 59 {
        0xE0
    } else if k == 60 {
        0xF0
    } else if k == 61 {
        0x80
    } else if k == 62 {
        0x80
    } else if k == 63 {
        0x80
    } else if k == 64 {
        0xF0
    } else if k == 65 {
        0xE0
    } else if k == 66 {
        0x90
    } else if k == 67 {
        0x90
    } else if k == 68 {
        0x90
    } else if k == 69 {
        0xE0
    } else if k == 70 {
        0xF0
    } else if k == 71 {
        0x80
    } else if k == 72 {
        0xF0
    } else if k == 73 {
        0x80
    } else if k == 74 {
        0xF0
    } else if k == 75 {
        0xF0
    } else if k == 76 {
        0x80
    } else if k == 77 {
        0xF0
    } else if k == 78 {
        0x80
    } else {
        0x80
    }
}

/// Memory at power-on: all zero except the font table at its fixed offset.
pub open spec fn initial_memory() -> Seq<u8> {
    Seq::new(
        4096,
        |j: int|
            if 0x50 <= j < 0xa0 {
                font_byte(j - 0x50)
            } else {
                0u8
            },
    )
}

/// The machine's state right after construction or reset at `now`.
pub open spec fn initial_state(now: u64, shift_source_vx: bool) -> MachineView {
    MachineView {
        mem: initial_memory(),
        regs: Seq::new(16, |j: int| 0u8),
        i: 0,
        pc: 0x200,
        ret_stack: Seq::empty(),
        px: Seq::new(2048, |j: int| false),
        dirty: true,
        delay: 0,
        sound: 0,
        keys: Seq::new(16, |j: int| false),
        waiting: None,
        shift_source_vx,
        delay_ref: now,
        sound_ref: now,
        clock_ref: now,
        clock_interval: DEFAULT_CLOCK_INTERVAL_MICROS,
    }
}

/// The machine after its two 60 Hz countdown timers and the instruction
/// clock all consume the time elapsed up to `now`: each timer value loses
/// one per whole period, flooring at zero, and each accumulator's reference
/// time advances by the whole periods it consumed.
pub open spec fn timers_advanced(s: MachineView, now: u64) -> MachineView {
    MachineView {
        delay: saturating_countdown(
            s.delay,
            whole_ticks(s.delay_ref as int, TICK_INTERVAL_MICROS as int, now as int),
        ),
        delay_ref: (advanced_reference(
            s.delay_ref as int,
            TICK_INTERVAL_MICROS as int,
            now as int,
        ) as u64),
        sound: saturating_countdown(
            s.sound,
            whole_ticks(s.sound_ref as int, TICK_INTERVAL_MICROS as int, now as int),
        ),
        sound_ref: (advanced_reference(
            s.sound_ref as int,
            TICK_INTERVAL_MICROS as int,
            now as int,
        ) as u64),
        clock_ref: (advanced_reference(s.clock_ref as int, s.clock_interval as int, now as int)
            as u64),
        ..s
    }
}

/// How many instructions the clock owes at `now`: the whole clock intervals
/// elapsed since its reference time.
pub open spec fn clock_ticks(s: MachineView, now: u64) -> int {
    whole_ticks(s.clock_ref as int, s.clock_interval as int, now as int)
}

/// The virtual machine: memory, registers, index register, program counter,
/// call stack, framebuffer, two countdown timers, keypad and the instruction
/// clock.
pub struct Chip8Emulator {
    memory: Vec<u8>,
    regs: Vec<u8>,
    i: u16,
    pc: u16,
    gfx: Graphics,
    delay_timer: Chip8Timer,
    sound_timer: Chip8Timer,
    stack: ArrayVec<u16, 16>,
    keypad: KeyPad,
    timer: Timer,
    waiting_for_keypress: Option<u8>,
    shift_source_vx: bool,
}

impl View for Chip8Emulator {
    type V = MachineView;

    closed spec fn view(&self) -> MachineView {
        MachineView {
            mem: self.memory@,
            regs: self.regs@,
            i: self.i,
            pc: self.pc,
            ret_stack: stack_entries(self.stack),
            px: self.gfx@.px,
            dirty: self.gfx@.dirty,
            delay: self.delay_timer.spec_value(),
            sound: self.sound_timer.spec_value(),
            keys: self.keypad@,
            waiting: self.waiting_for_keypress,
            shift_source_vx: self.shift_source_vx,
            delay_ref: self.delay_timer.reference_time(),
            sound_ref: self.sound_timer.reference_time(),
            clock_ref: self.timer.prev_time(),
            clock_interval: self.timer.interval(),
        }
    }
}

impl Chip8Emulator {
    pub closed spec fn wf(&self) -> bool {
        &&& machine_wf(self@)
        &&& self.gfx.wf()
        &&& self.gfx@.width == 64
        &&& self.gfx@.height == 32
        &&& self.delay_timer.wf()
        &&& self.sound_timer.wf()
        &&& self.timer.wf()
        &&& self.keypad.wf()
    }

    /// A fresh machine seeded at `current_time`, with the shift instructions
    /// reading their source register from Vy (the older of the two historical
    /// variants; see [`Chip8Emulator::with_shift_source_vx`]).
    pub fn new(current_time: u64) -> (r: Chip8Emulator)
        ensures
            r.wf(),
            r@ == initial_state(current_time, false),
    {
        Chip8Emulator::with_shift_source_vx(current_time, false)
    }

    /// A fresh machine seeded at `current_time`.  The flag selects the
    /// historical variant of the two shift instructions: set, they read Vx;
    /// clear, they read Vy.
    pub fn with_shift_source_vx(current_time: u64, shift_source_vx: bool) -> (r: Chip8Emulator)
        ensures
            r.wf(),
            r@ == initial_state(current_time, shift_source_vx),
    {
        let mut memory: Vec<u8> = Vec::new();
        let mut j: usize = 0;
        while j < 4096
            invariant
                j <= 4096,
                memory@.len() == j,
                forall|t: int| 0 <= t < j ==> memory@[t] == 0u8,
            decreases 4096 - j,
        {
            memory.push(0);
            j = j + 1;
        }
        let mut k: usize = 0;
        while k < 80
            invariant
                k <= 80,
                memory@.len() == 4096,
                forall|t: int|
                    0 <= t < 4096 ==> memory@[t] == (if 0x50 <= t < 0x50 + k {
                        font_byte(t - 0x50)
                    } else {
                        0u8
                    }),
            decreases 80 - k,
        {
            let b = font_byte_at(k);
            memory.set(FONT_MEMORY_START + k, b);
            k = k + 1;
        }
        let mut regs: Vec<u8> = Vec::new();
        let mut v: usize = 0;
        while v < 16
            invariant
                v <= 16,
                regs@.len() == v,
                forall|t: int| 0 <= t < v ==> regs@[t] == 0u8,
            decreases 16 - v,
        {
            regs.push(0);
            v = v + 1;
        }
        let r = Chip8Emulator {
            memory,
            regs,
            i: 0,
            pc: 0x200,
            gfx: Graphics::new(DISPLAY_WIDTH, DISPLAY_HEIGHT),
            delay_timer: Chip8Timer::new(current_time),
            sound_timer: Chip8Timer::new(current_time),
            stack: stack_new(),
            keypad: KeyPad::new(),
            timer: Timer::new(current_time, DEFAULT_CLOCK_INTERVAL_MICROS),
            waiting_for_keypress: None,
            shift_source_vx,
        };
        proof {
            let s = initial_state(current_time, shift_source_vx);
            assert(r@.mem =~= s.mem);
            assert(r@.regs =~= s.regs);
            assert(r@.px =~= s.px);
            assert(r@.keys =~= s.keys);
            assert(r@ == s);
        }
        r
    }

    /// Discards the whole state and reseeds every accumulator at
    /// `current_time`, keeping only the configured shift variant.
    pub fn reset(&mut self, current_time: u64)
        ensures
            final(self).wf(),
            final(self)@ == initial_state(current_time, old(self)@.shift_source_vx),
    {
        *self = Chip8Emulator::with_shift_source_vx(current_time, self.shift_source_vx);
    }

    /// Copies the program into memory at the program origin.  The caller
    /// guarantees the program fits within remaining memory.
    pub fn load_rom(&mut self, rom_data: &[u8])
        requires
            old(self).wf(),
            rom_data@.len() <= 4096 - 0x200,
        ensures
            final(self).wf(),
            final(self)@ == (MachineView {
                mem: Seq::new(
                    4096,
                    |j: int|
                        if 0x200 <= j < 0x200 + rom_data@.len() {
                            rom_data@[j - 0x200]
                        } else {
                            old(self)@.mem[j]
                        },
                ),
                ..old(self)@
            }),
    {
        let ghost pre = self@;
        let n = rom_data.len();
        let mut k: usize = 0;
        while k < n
            invariant
                k <= n,
                n == rom_data@.len(),
                n <= 4096 - 0x200,
                self.wf(),
                self@.mem.len() == 4096,
                forall|j: int|
                    0 <= j < 4096 ==> self@.mem[j] == (if 0x200 <= j < 0x200 + k {
                        rom_data@[j - 0x200]
                    } else {
                        pre.mem[j]
                    }),
                self@ == (MachineView { mem: self@.mem, ..pre }),
            decreases n - k,
        {
            let b = rom_data[k];
            self.memory.set(PROGRAM_MEMORY_START + k, b);
            k = k + 1;
        }
        proof {
            assert(self@.mem =~= (Seq::new(
                4096,
                |j: int|
                    if 0x200 <= j < 0x200 + rom_data@.len() {
                        rom_data@[j - 0x200]
                    } else {
                        pre.mem[j]
                    },
            )));
        }
    }

    pub fn get_gfx_width(&self) -> (r: u32)
        requires
            self.wf(),
        ensures
            r == 64,
    {
        self.gfx.get_width()
    }

    pub fn get_gfx_height(&self) -> (r: u32)
        requires
            self.wf(),
        ensures
            r == 32,
    {
        self.gfx.get_height()
    }

    /// Reads one pixel of the framebuffer without mutating anything.
    pub fn get_gfx_pixel(&self, x: u32, y: u32) -> (r: bool)
        requires
            self.wf(),
            x < 64,
            y < 32,
        ensures
            r == self@.px[y * 64 + x],
    {
        self.gfx.get_pixel(x, y)
    }

    /// Returns and resets the framebuffer's dirty flag.
    pub fn gfx_needs_rerender(&mut self) -> (r: bool)
        requires
            old(self).wf(),
        ensures
            final(self).wf(),
            r == old(self)@.dirty,
            final(self)@ == (MachineView { dirty: false, ..old(self)@ }),
    {
        self.gfx.needs_rerender()
    }

    /// Injects a key-press event.  If the machine is suspended waiting for a
    /// key, the press fills the awaited register and resumes execution.
    pub fn keydown(&mut self, key: u8)
        requires
            old(self).wf(),
            key <= 0xf,
        ensures
            final(self).wf(),
            final(self)@ == (MachineView {
                keys: old(self)@.keys.update(key as int, true),
                regs: match old(self)@.waiting {
                    Some(x) => old(self)@.regs.update(x as int, key),
                    None => old(self)@.regs,
                },
                waiting: None,
                ..old(self)@
            }),
    {
        match self.waiting_for_keypress {
            Some(x) => {
                self.regs.set(x as usize, key);
                self.waiting_for_keypress = None;
            },
            None => {},
        }
        self.keypad.keydown(key);
    }

    /// Injects a key-release event.
    pub fn keyup(&mut self, key: u8)
        requires
            old(self).wf(),
            key <= 0xf,
        ensures
            final(self).wf(),
            final(self)@ == (MachineView {
                keys: old(self)@.keys.update(key as int, false),
                ..old(self)@
            }),
    {
        self.keypad.keyup(key);
    }

    /// Reconfigures the instruction clock's interval without resetting any
    /// machine state: the clock will run at `ticks_per_second` instructions
    /// per second of supplied time.
    pub fn set_ticks_per_second(&mut self, ticks_per_second: u64)
        requires
            old(self).wf(),
            1 <= ticks_per_second <= 1000000,
        ensures
            final(self).wf(),
            final(self)@ == (MachineView {
                clock_interval: ((1000000int / ticks_per_second as int) as u64),
                ..old(self)@
            }),
    {
        proof {
            vstd::arithmetic::div_mod::lemma_div_is_ordered(
                ticks_per_second as int,
                1000000,
                ticks_per_second as int,
            );
            assert(ticks_per_second as int / ticks_per_second as int == 1) by {
                vstd::arithmetic::div_mod::lemma_div_multiples_vanish(
                    1,
                    ticks_per_second as int,
                );
                assert(ticks_per_second as int * 1 == ticks_per_second as int);
            }
        }
        let interval = 1000000u64 / ticks_per_second;
        self.timer.set_interval(interval);
    }

    /// The program counter.
    pub fn get_pc(&self) -> (r: u16)
        ensures
            r == self@.pc,
    {
        self.pc
    }

    /// The index register.
    pub fn get_i(&self) -> (r: u16)
        ensures
            r == self@.i,
    {
        self.i
    }

    /// Register Vx.
    pub fn get_reg(&self, x: u8) -> (r: u8)
        requires
            self.wf(),
            x <= 0xf,
        ensures
            r == self@.regs[x as int],
    {
        self.regs[x as usize]
    }

    /// One byte of memory.
    pub fn get_memory(&self, addr: usize) -> (r: u8)
        requires
            self.wf(),
            addr < 4096,
        ensures
            r == self@.mem[addr as int],
    {
        self.memory[addr]
    }

    /// How many return addresses the call stack holds.
    pub fn stack_depth(&self) -> (r: usize)
        ensures
            r == self@.ret_stack.len(),
    {
        stack_len(&self.stack)
    }

    /// The return address at depth `d`, counting from the bottom.
    pub fn stack_entry(&self, d: usize) -> (r: u16)
        requires
            d < self@.ret_stack.len(),
        ensures
            r == self@.ret_stack[d as int],
    {
        stack_get(&self.stack, d)
    }

    /// Whether the key with index `key` is currently down.
    pub fn is_down(&self, key: u8) -> (r: bool)
        requires
            self.wf(),
            key <= 0xf,
        ensures
            r == self@.keys[key as int],
    {
        self.keypad.is_key_down(key)
    }

    /// Whether the machine is suspended waiting for a key press.
    pub fn is_waiting_for_key(&self) -> (r: bool)
        ensures
            r == (self@.waiting is Some),
    {
        self.waiting_for_keypress.is_some()
    }

    /// Advances the timers to `current_time` and executes as many
    /// instructions as the instruction clock owes, unless the machine is
    /// suspended waiting for a key.  The first fault stops execution and is
    /// returned, with the machine left in the state the fault found it in.
    /// Timestamps must never move backwards.
    pub fn tick(&mut self, current_time: u64) -> (r: Result<(), Fault>)
        requires
            old(self).wf(),
            old(self)@.delay_ref <= current_time,
            old(self)@.sound_ref <= current_time,
            old(self)@.clock_ref <= current_time,
        ensures
            final(self).wf(),
            run_rel(
                timers_advanced(old(self)@, current_time),
                final(self)@,
                clock_ticks(old(self)@, current_time) as nat,
                r,
            ),
    {
        self.delay_timer.step(current_time);
        self.sound_timer.step(current_time);
        let ticks = self.timer.step(current_time);
        let ghost s1 = self@;
        proof {
            assert(s1 == timers_advanced(old(self)@, current_time));
            assert(ticks as int == clock_ticks(old(self)@, current_time));
        }
        let mut executed: u64 = 0;
        while executed < ticks
            invariant
                self.wf(),
                executed <= ticks,
                s1 == timers_advanced(old(self)@, current_time),
                ticks as int == clock_ticks(old(self)@, current_time),
                run_rel(s1, self@, executed as nat, Ok(())),
            decreases ticks - executed,
        {
            if self.waiting_for_keypress.is_some() {
                proof {
                    lemma_run_absorb_waiting(s1, self@, executed as nat, ticks as nat);
                }
                return Ok(());
            }
            let ghost before = self@;
            let res = self.execute_next_instruction();
            match res {
                Ok(()) => {
                    proof {
                        assert(res == Ok::<(), Fault>(res->Ok_0));
                        lemma_run_extend_ok(s1, before, self@, executed as nat);
                    }
                    executed = executed + 1;
                },
                Err(f) => {
                    proof {
                        lemma_run_extend_err(
                            s1,
                            before,
                            self@,
                            executed as nat,
                            ticks as nat,
                            f,
                        );
                    }
                    return Err(f);
                },
            }
        }
        Ok(())
    }

    /// Fetches, decodes and executes one instruction.  The fetch advances
    /// the program counter by two before the instruction takes effect; an
    /// unrecognized opcode is skipped and execution continues.
    pub fn execute_next_instruction(&mut self) -> (r: Result<(), Fault>)
        requires
            old(self).wf(),
        ensures
            final(self).wf(),
            step_rel(old(self)@, final(self)@, r),
    {
        proof {
            reveal(crate::machine::instr_rel);
        }
        if self.pc > 4094 {
            return Err(Fault::AddressOutOfRange);
        }
        let ghost pre = self@;
        let opcode = self.get_next_opcode();
        let ghost s = self@;
        let ghost w = opcode.word();
        match opcode.get_nibble(0) {
            0 => match opcode.get_nibbles_from(1) {
                0x0e0 => {
                    self.clear_screen();
                    proof {
                        assert(instr_rel(s, w, self@, Ok::<(), Fault>(())));
                    }
                    Ok(())
                },
                0x0ee => {
                    let rr = self.return_subroutine();
                    proof {
                        assert(instr_rel(s, w, self@, rr));
                    }
                    rr
                },
                address => {
                    let rr = self.execute_subroutine(address);
                    proof {
                        assert(instr_rel(s, w, self@, rr));
                    }
                    rr
                },
            },
            1 => {
                self.jump_to(opcode.get_nibbles_from(1));
                proof {
                    assert(instr_rel(s, w, self@, Ok::<(), Fault>(())));
                }
                Ok(())
            },
            2 => {
                let rr = self.execute_subroutine(opcode.get_nibbles_from(1));
                proof {
                    assert(instr_rel(s, w, self@, rr));
                }
                rr
            },
            3 => {
                self.skip_if_eq(opcode.get_nibble(1), opcode.get_nibbles_from(2) as u8);
                proof {
                    assert(instr_rel(s, w, self@, Ok::<(), Fault>(())));
                }
                Ok(())
            },
            4 => {
                self.skip_if_ne(opcode.get_nibble(1), opcode.get_nibbles_from(2) as u8);
                proof {
                    assert(instr_rel(s, w, self@, Ok::<(), Fault>(())));
                }
                Ok(())
            },
            5 => {
                match opcode.get_nibble(3) {
                    0 => {
                        self.skip_if_eq_reg(opcode.get_nibble(1), opcode.get_nibble(2));
                    },
                    _ => {},
                }
                proof {
                    assert(instr_rel(s, w, self@, Ok::<(), Fault>(())));
                }
                Ok(())
            },
            6 => {
                self.store(opcode.get_nibble(1), opcode.get_nibbles_from(2) as u8);
                proof {
                    assert(instr_rel(s, w, self@, Ok::<(), Fault>(())));
                }
                Ok(())
            },
            7 => {
                self.add(opcode.get_nibble(1), opcode.get_nibbles_from(2) as u8);
                proof {
                    assert(instr_rel(s, w, self@, Ok::<(), Fault>(())));
                }
                Ok(())
            },
            8 => {
                match opcode.get_nibble(3) {
                    0 => self.store_reg(opcode.get_nibble(1), opcode.get_nibble(2)),
                    1 => self.store_reg_or(opcode.get_nibble(1), opcode.get_nibble(2)),
                    2 => self.store_reg_and(opcode.get_nibble(1), opcode.get_nibble(2)),
                    3 => self.store_reg_xor(opcode.get_nibble(1), opcode.get_nibble(2)),
                    4 => self.add_reg(opcode.get_nibble(1), opcode.get_nibble(2)),
                    5 => self.sub_reg(opcode.get_nibble(1), opcode.get_nibble(2)),
                    6 => self.store_reg_shr1(opcode.get_nibble(1), opcode.get_nibble(2)),
                    7 => self.store_reg_sub(opcode.get_nibble(1), opcode.get_nibble(2)),
                    0xe => self.store_reg_shl1(opcode.get_nibble(1), opcode.get_nibble(2)),
                    _ => {},
                }
                proof {
                    assert(instr_rel(s, w, self@, Ok::<(), Fault>(())));
                }
                Ok(())
            },
            9 => {
                match opcode.get_nibble(3) {
                    0 => {
                        self.skip_if_ne_reg(opcode.get_nibble(1), opcode.get_nibble(2));
                    },
                    _ => {},
                }
                proof {
                    assert(instr_rel(s, w, self@, Ok::<(), Fault>(())));
                }
                Ok(())
            },
            0xa => {
                self.store_address(opcode.get_nibbles_from(1));
                proof {
                    assert(instr_rel(s, w, self@, Ok::<(), Fault>(())));
                }
                Ok(())
            },
            0xb => {
                self.jump_to_plus_v0(opcode.get_nibbles_from(1));
                proof {
                    assert(instr_rel(s, w, self@, Ok::<(), Fault>(())));
                }
                Ok(())
            },
            0xc => {
                self.store_random(opcode.get_nibble(1), opcode.get_nibbles_from(2) as u8);
                proof {
                    assert(instr_rel(s, w, self@, Ok::<(), Fault>(())));
                }
                Ok(())
            },
            0xd => {
                let rr = self.draw_sprite(
                    opcode.get_nibble(1),
                    opcode.get_nibble(2),
                    opcode.get_nibble(3),
                );
                proof {
                    assert(instr_rel(s, w, self@, rr));
                }
                rr
            },
            0xe => match opcode.get_nibbles_from(2) {
                0x9e => {
                    let rr = self.skip_if_pressed(opcode.get_nibble(1));
                    proof {
                        assert(instr_rel(s, w, self@, rr));
                    }
                    rr
                },
                0xa1 => {
                    let rr = self.skip_if_not_pressed(opcode.get_nibble(1));
                    proof {
                        assert(instr_rel(s, w, self@, rr));
                    }
                    rr
                },
                _ => {
                    proof {
                        assert(instr_rel(s, w, self@, Ok::<(), Fault>(())));
                    }
                    Ok(())
                },
            },
            _ => match opcode.get_nibbles_from(2) {
                0x07 => {
                    self.store_delay(opcode.get_nibble(1));
                    proof {
                        assert(instr_rel(s, w, self@, Ok::<(), Fault>(())));
                    }
                    Ok(())
                },
                0x0a => {
                    self.wait_for_keypress(opcode.get_nibble(1));
                    proof {
                        assert(instr_rel(s, w, self@, Ok::<(), Fault>(())));
                    }
                    Ok(())
                },
                0x15 => {
                    self.set_delay(opcode.get_nibble(1));
                    proof {
                        assert(instr_rel(s, w, self@, Ok::<(), Fault>(())));
                    }
                    Ok(())
                },
                0x18 => {
                    self.set_sound(opcode.get_nibble(1));
                    proof {
                        assert(instr_rel(s, w, self@, Ok::<(), Fault>(())));
                    }
                    Ok(())
                },
                0x1e => {
                    self.add_to_i(opcode.get_nibble(1));
                    proof {
                        assert(instr_rel(s, w, self@, Ok::<(), Fault>(())));
                    }
                    Ok(())
                },
                0x29 => {
                    self.store_digit_address(opcode.get_nibble(1));
                    proof {
                        assert(instr_rel(s, w, self@, Ok::<(), Fault>(())));
                    }
                    Ok(())
                },
                0x33 => {
                    let rr = self.store_bcd(opcode.get_nibble(1));
                    proof {
                        assert(instr_rel(s, w, self@, rr));
                    }
                    rr
                },
                0x55 => {
                    let rr = self.store_regs_in_memory(opcode.get_nibble(1));
                    proof {
                        assert(instr_rel(s, w, self@, rr));
                    }
                    rr
                },
                0x65 => {
                    let rr = self.store_memory_in_regs(opcode.get_nibble(1));
                    proof {
                        assert(instr_rel(s, w, self@, rr));
                    }
                    rr
                },
                _ => {
                    proof {
                        assert(instr_rel(s, w, self@, Ok::<(), Fault>(())));
                    }
                    Ok(())
                },
            },
        }
    }

    /// Fetches the two memory bytes at the program counter as one big-endian
    /// instruction word and advances the counter by two.
    pub fn get_next_opcode(&mut self) -> (r: Opcode)
        requires
            old(self).wf(),
            old(self)@.pc <= 4094,
        ensures
            final(self).wf(),
            r.word() == fetch_word(old(self)@),
            final(self)@ == (MachineView { pc: ((old(self)@.pc + 2) as u16), ..old(self)@ }),
    {
        let hi = self.memory[self.pc as usize];
        let lo = self.memory[self.pc as usize + 1];
        self.pc = self.pc + 2;
        Opcode::new((hi as u16) * 0x100 + (lo as u16))
    }

    /// Turns every pixel off and marks the framebuffer dirty.
    pub fn clear_screen(&mut self)
        requires
            old(self).wf(),
        ensures
            final(self).wf(),
            final(self)@ == (MachineView {
                px: Seq::new(old(self)@.px.len(), |idx: int| false),
                dirty: true,
                ..old(self)@
            }),
    {
        self.gfx.clear();
        proof {
            assert(self@.px =~= Seq::new(old(self)@.px.len(), |idx: int| false));
        }
    }

    /// Pops the return address off the call stack into the program counter.
    /// Popping an empty stack is the fatal error a malformed program causes.
    pub fn return_subroutine(&mut self) -> (r: Result<(), Fault>)
        requires
            old(self).wf(),
        ensures
            final(self).wf(),
            old(self)@.ret_stack.len() == 0 ==> r == Err::<(), Fault>(Fault::StackUnderflow)
                && final(self)@ == old(self)@,
            old(self)@.ret_stack.len() > 0 ==> r is Ok && final(self)@ == (MachineView {
                pc: old(self)@.ret_stack.last(),
                ret_stack: old(self)@.ret_stack.drop_last(),
                ..old(self)@
            }),
    {
        match stack_pop(&mut self.stack) {
            Some(address) => {
                self.pc = address;
                Ok(())
            },
            None => Err(Fault::StackUnderflow),
        }
    }

    /// Pushes the current program counter and jumps to `address`.  A
    /// seventeenth nested call is the stack-overflow fault.
    pub fn execute_subroutine(&mut self, address: u16) -> (r: Result<(), Fault>)
        requires
            old(self).wf(),
        ensures
            final(self).wf(),
            old(self)@.ret_stack.len() >= 16 ==> r == Err::<(), Fault>(Fault::StackOverflow)
                && final(self)@ == old(self)@,
            old(self)@.ret_stack.len() < 16 ==> r is Ok && final(self)@ == (MachineView {
                pc: address,
                ret_stack: old(self)@.ret_stack.push(old(self)@.pc),
                ..old(self)@
            }),
    {
        if stack_push(&mut self.stack, self.pc) {
            self.jump_to(address);
            Ok(())
        } else {
            Err(Fault::StackOverflow)
        }
    }

    /// Sets the program counter.
    pub fn jump_to(&mut self, address: u16)
        requires
            old(self).wf(),
        ensures
            final(self).wf(),
            final(self)@ == (MachineView { pc: address, ..old(self)@ }),
    {
        self.pc = address;
    }

    /// Skips the next instruction if Vx equals the immediate.
    pub fn skip_if_eq(&mut self, x: u8, value: u8)
        requires
            old(self).wf(),
            x <= 0xf,
            old(self)@.pc + 2 <= u16::MAX,
        ensures
            final(self).wf(),
            final(self)@ == (MachineView {
                pc: if old(self)@.regs[x as int] == value {
                    ((old(self)@.pc + 2) as u16)
                } else {
                    old(self)@.pc
                },
                ..old(self)@
            }),
    {
        if self.regs[x as usize] == value {
            self.pc = self.pc + 2;
        }
    }

    /// Skips the next instruction if Vx differs from the immediate.
    pub fn skip_if_ne(&mut self, x: u8, value: u8)
        requires
            old(self).wf(),
            x <= 0xf,
            old(self)@.pc + 2 <= u16::MAX,
        ensures
            final(self).wf(),
            final(self)@ == (MachineView {
                pc: if old(self)@.regs[x as int] != value {
                    ((old(self)@.pc + 2) as u16)
                } else {
                    old(self)@.pc
                },
                ..old(self)@
            }),
    {
        if self.regs[x as usize] != value {
            self.pc = self.pc + 2;
        }
    }

    /// Skips the next instruction if Vx equals Vy.
    pub fn skip_if_eq_reg(&mut self, x: u8, y: u8)
        requires
            old(self).wf(),
            x <= 0xf,
            y <= 0xf,
            old(self)@.pc + 2 <= u16::MAX,
        ensures
            final(self).wf(),
            final(self)@ == (MachineView {
                pc: if old(self)@.regs[x as int] == old(self)@.regs[y as int] {
                    ((old(self)@.pc + 2) as u16)
                } else {
                    old(self)@.pc
                },
                ..old(self)@
            }),
    {
        if self.regs[x as usize] == self.regs[y as usize] {
            self.pc = self.pc + 2;
        }
    }

    /// Skips the next instruction if Vx differs from Vy.
    pub fn skip_if_ne_reg(&mut self, x: u8, y: u8)
        requires
            old(self).wf(),
            x <= 0xf,
            y <= 0xf,
            old(self)@.pc + 2 <= u16::MAX,
        ensures
            final(self).wf(),
            final(self)@ == (MachineView {
                pc: if old(self)@.regs[x as int] != old(self)@.regs[y as int] {
                    ((old(self)@.pc + 2) as u16)
                } else {
                    old(self)@.pc
                },
                ..old(self)@
            }),
    {
        if self.regs[x as usize] != self.regs[y as usize] {
            self.pc = self.pc + 2;
        }
    }

    /// Vx <- the immediate.
    pub fn store(&mut self, x: u8, val: u8)
        requires
            old(self).wf(),
            x <= 0xf,
        ensures
            final(self).wf(),
            final(self)@ == (MachineView {
                regs: old(self)@.regs.update(x as int, val),
                ..old(self)@
            }),
    {
        self.regs.set(x as usize, val);
    }

    /// Vx <- Vx + immediate, wrapping, with no flag.
    pub fn add(&mut self, x: u8, val: u8)
        requires
            old(self).wf(),
            x <= 0xf,
        ensures
            final(self).wf(),
            final(self)@ == (MachineView {
                regs: old(self)@.regs.update(
                    x as int,
                    u8_specs::wrapping_add(old(self)@.regs[x as int], val),
                ),
                ..old(self)@
            }),
    {
        let cur = self.regs[x as usize];
        self.regs.set(x as usize, cur.wrapping_add(val));
    }

    /// Vx <- Vy.
    pub fn store_reg(&mut self, x: u8, y: u8)
        requires
            old(self).wf(),
            x <= 0xf,
            y <= 0xf,
        ensures
            final(self).wf(),
            final(self)@ == (MachineView {
                regs: old(self)@.regs.update(x as int, old(self)@.regs[y as int]),
                ..old(self)@
            }),
    {
        let v = self.regs[y as usize];
        self.regs.set(x as usize, v);
    }

    /// Vx <- Vx | Vy, with no flag.
    pub fn store_reg_or(&mut self, x: u8, y: u8)
        requires
            old(self).wf(),
            x <= 0xf,
            y <= 0xf,
        ensures
            final(self).wf(),
            final(self)@ == (MachineView {
                regs: old(self)@.regs.update(
                    x as int,
                    old(self)@.regs[x as int] | old(self)@.regs[y as int],
                ),
                ..old(self)@
            }),
    {
        let v = self.regs[x as usize] | self.regs[y as usize];
        self.regs.set(x as usize, v);
    }

    /// Vx <- Vx & Vy, with no flag.
    pub fn store_reg_and(&mut self, x: u8, y: u8)
        requires
            old(self).wf(),
            x <= 0xf,
            y <= 0xf,
        ensures
            final(self).wf(),
            final(self)@ == (MachineView {
                regs: old(self)@.regs.update(
                    x as int,
                    old(self)@.regs[x as int] & old(self)@.regs[y as int],
                ),
                ..old(self)@
            }),
    {
        let v = self.regs[x as usize] & self.regs[y as usize];
        self.regs.set(x as usize, v);
    }

    /// Vx <- Vx ^ Vy, with no flag.
    pub fn store_reg_xor(&mut self, x: u8, y: u8)
        requires
            old(self).wf(),
            x <= 0xf,
            y <= 0xf,
        ensures
            final(self).wf(),
            final(self)@ == (MachineView {
                regs: old(self)@.regs.update(
                    x as int,
                    old(self)@.regs[x as int] ^ old(self)@.regs[y as int],
                ),
                ..old(self)@
            }),
    {
        let v = self.regs[x as usize] ^ self.regs[y as usize];
        self.regs.set(x as usize, v);
    }

    /// Vx <- Vx + Vy wrapping; VF <- 1 on unsigned overflow, else 0.
    pub fn add_reg(&mut self, x: u8, y: u8)
        requires
            old(self).wf(),
            x <= 0xf,
            y <= 0xf,
        ensures
            final(self).wf(),
            final(self)@ == (MachineView {
                regs: old(self)@.regs.update(
                    x as int,
                    u8_specs::wrapping_add(old(self)@.regs[x as int], old(self)@.regs[y as int]),
                ).update(
                    15,
                    if old(self)@.regs[x as int] + old(self)@.regs[y as int] > 0xff {
                        1u8
                    } else {
                        0u8
                    },
                ),
                ..old(self)@
            }),
    {
        let a = self.regs[x as usize];
        let b = self.regs[y as usize];
        self.regs.set(x as usize, a.wrapping_add(b));
        let carry: u8 = if (a as u16) + (b as u16) > 0xff {
            1
        } else {
            0
        };
        self.regs.set(15, carry);
    }

    /// Vx <- Vx - Vy wrapping; VF <- 1 if there is no borrow (Vx >= Vy),
    /// else 0.
    pub fn sub_reg(&mut self, x: u8, y: u8)
        requires
            old(self).wf(),
            x <= 0xf,
            y <= 0xf,
        ensures
            final(self).wf(),
            final(self)@ == (MachineView {
                regs: old(self)@.regs.update(
                    x as int,
                    u8_specs::wrapping_sub(old(self)@.regs[x as int], old(self)@.regs[y as int]),
                ).update(
                    15,
                    if old(self)@.regs[x as int] >= old(self)@.regs[y as int] {
                        1u8
                    } else {
                        0u8
                    },
                ),
                ..old(self)@
            }),
    {
        let a = self.regs[x as usize];
        let b = self.regs[y as usize];
        self.regs.set(x as usize, a.wrapping_sub(b));
        let no_borrow: u8 = if a >= b {
            1
        } else {
            0
        };
        self.regs.set(15, no_borrow);
    }

    /// Vx <- Vy - Vx wrapping; VF <- 1 if there is no borrow (Vy >= Vx),
    /// else 0.
    pub fn store_reg_sub(&mut self, x: u8, y: u8)
        requires
            old(self).wf(),
            x <= 0xf,
            y <= 0xf,
        ensures
            final(self).wf(),
            final(self)@ == (MachineView {
                regs: old(self)@.regs.update(
                    x as int,
                    u8_specs::wrapping_sub(old(self)@.regs[y as int], old(self)@.regs[x as int]),
                ).update(
                    15,
                    if old(self)@.regs[y as int] >= old(self)@.regs[x as int] {
                        1u8
                    } else {
                        0u8
                    },
                ),
                ..old(self)@
            }),
    {
        let a = self.regs[x as usize];
        let b = self.regs[y as usize];
        self.regs.set(x as usize, b.wrapping_sub(a));
        let no_borrow: u8 = if b >= a {
            1
        } else {
            0
        };
        self.regs.set(15, no_borrow);
    }

    /// VF <- the low bit of the source register, then Vx <- source >> 1.
    /// The source is Vy, or Vx under the Vx shift variant.
    pub fn store_reg_shr1(&mut self, x: u8, y: u8)
        requires
            old(self).wf(),
            x <= 0xf,
            y <= 0xf,
        ensures
            final(self).wf(),
            final(self)@ == (MachineView {
                regs: old(self)@.regs.update(
                    15,
                    (if old(self)@.shift_source_vx {
                        old(self)@.regs[x as int]
                    } else {
                        old(self)@.regs[y as int]
                    }) & 1,
                ).update(
                    x as int,
                    (if old(self)@.shift_source_vx {
                        old(self)@.regs[x as int]
                    } else {
                        old(self)@.regs[y as int]
                    }) >> 1u8,
                ),
                ..old(self)@
            }),
    {
        let src = if self.shift_source_vx {
            self.regs[x as usize]
        } else {
            self.regs[y as usize]
        };
        self.regs.set(15, src & 1);
        self.regs.set(x as usize, src >> 1);
    }

    /// VF <- the top bit of the source register (as 0 or 1), then
    /// Vx <- source << 1 keeping the low eight bits.  The source is Vy, or
    /// Vx under the Vx shift variant.
    pub fn store_reg_shl1(&mut self, x: u8, y: u8)
        requires
            old(self).wf(),
            x <= 0xf,
            y <= 0xf,
        ensures
            final(self).wf(),
            final(self)@ == (MachineView {
                regs: old(self)@.regs.update(
                    15,
                    (if old(self)@.shift_source_vx {
                        old(self)@.regs[x as int]
                    } else {
                        old(self)@.regs[y as int]
                    }) >> 7u8,
                ).update(
                    x as int,
                    (((if old(self)@.shift_source_vx {
                        old(self)@.regs[x as int]
                    } else {
                        old(self)@.regs[y as int]
                    }) << 1u8) as u8),
                ),
                ..old(self)@
            }),
    {
        let src = if self.shift_source_vx {
            self.regs[x as usize]
        } else {
            self.regs[y as usize]
        };
        self.regs.set(15, src >> 7);
        self.regs.set(x as usize, src << 1);
    }

    /// I <- nnn.
    pub fn store_address(&mut self, address: u16)
        requires
            old(self).wf(),
        ensures
            final(self).wf(),
            final(self)@ == (MachineView { i: address, ..old(self)@ }),
    {
        self.i = address;
    }

    /// pc <- nnn + V0.
    pub fn jump_to_plus_v0(&mut self, address: u16)
        requires
            old(self).wf(),
            address <= 0xfff,
        ensures
            final(self).wf(),
            final(self)@ == (MachineView {
                pc: ((address + old(self)@.regs[0]) as u16),
                ..old(self)@
            }),
    {
        let target = address + (self.regs[0] as u16);
        self.jump_to(target);
    }

    /// Vx <- a uniformly random byte masked with the immediate.
    pub fn store_random(&mut self, x: u8, mask: u8)
        requires
            old(self).wf(),
            x <= 0xf,
        ensures
            final(self).wf(),
            exists|b: u8|
                final(self)@ == (MachineView {
                    regs: old(self)@.regs.update(x as int, #[trigger] rand_masked(b, mask)),
                    ..old(self)@
                }),
    {
        let b: u8 = random_byte();
        self.regs.set(x as usize, b & mask);
        proof {
            assert(rand_masked(b, mask) == b & mask);
        }
    }

    /// Skips the next instruction if the key named by Vx is down.  A value
    /// in Vx above 0xF is the out-of-range-key fault.
    pub fn skip_if_pressed(&mut self, x: u8) -> (r: Result<(), Fault>)
        requires
            old(self).wf(),
            x <= 0xf,
            old(self)@.pc + 2 <= u16::MAX,
        ensures
            final(self).wf(),
            old(self)@.regs[x as int] > 0xf ==> r == Err::<(), Fault>(Fault::KeyOutOfRange)
                && final(self)@ == old(self)@,
            old(self)@.regs[x as int] <= 0xf ==> r is Ok && final(self)@ == (MachineView {
                pc: if old(self)@.keys[old(self)@.regs[x as int] as int] {
                    ((old(self)@.pc + 2) as u16)
                } else {
                    old(self)@.pc
                },
                ..old(self)@
            }),
    {
        let key = self.regs[x as usize];
        if key > 0xf {
            return Err(Fault::KeyOutOfRange);
        }
        if self.keypad.is_key_down(key) {
            self.pc = self.pc + 2;
        }
        Ok(())
    }

    /// Skips the next instruction if the key named by Vx is not down.  A
    /// value in Vx above 0xF is the out-of-range-key fault.
    pub fn skip_if_not_pressed(&mut self, x: u8) -> (r: Result<(), Fault>)
        requires
            old(self).wf(),
            x <= 0xf,
            old(self)@.pc + 2 <= u16::MAX,
        ensures
            final(self).wf(),
            old(self)@.regs[x as int] > 0xf ==> r == Err::<(), Fault>(Fault::KeyOutOfRange)
                && final(self)@ == old(self)@,
            old(self)@.regs[x as int] <= 0xf ==> r is Ok && final(self)@ == (MachineView {
                pc: if !old(self)@.keys[old(self)@.regs[x as int] as int] {
                    ((old(self)@.pc + 2) as u16)
                } else {
                    old(self)@.pc
                },
                ..old(self)@
            }),
    {
        let key = self.regs[x as usize];
        if key > 0xf {
            return Err(Fault::KeyOutOfRange);
        }
        if !self.keypad.is_key_down(key) {
            self.pc = self.pc + 2;
        }
        Ok(())
    }

    /// Vx <- the delay timer's value.
    pub fn store_delay(&mut self, x: u8)
        requires
            old(self).wf(),
            x <= 0xf,
        ensures
            final(self).wf(),
            final(self)@ == (MachineView {
                regs: old(self)@.regs.update(x as int, old(self)@.delay),
                ..old(self)@
            }),
    {
        let v = self.delay_timer.value();
        self.regs.set(x as usize, v);
    }

    /// If a key is already down, stores the lowest such key in Vx at once;
    /// otherwise suspends execution until a key press arrives for Vx.
    pub fn wait_for_keypress(&mut self, x: u8)
        requires
            old(self).wf(),
            x <= 0xf,
        ensures
            final(self).wf(),
            first_key_down(old(self)@.keys) < 16 ==> final(self)@ == (MachineView {
                regs: old(self)@.regs.update(
                    x as int,
                    first_key_down(old(self)@.keys) as u8,
                ),
                ..old(self)@
            }),
            first_key_down(old(self)@.keys) >= 16 ==> final(self)@ == (MachineView {
                waiting: Some(x),
                ..old(self)@
            }),
    {
        match self.keypad.resolve_wait() {
            Some(key) => {
                self.regs.set(x as usize, key);
            },
            None => {
                self.waiting_for_keypress = Some(x);
            },
        }
    }

    /// Delay timer <- Vx.
    pub fn set_delay(&mut self, x: u8)
        requires
            old(self).wf(),
            x <= 0xf,
        ensures
            final(self).wf(),
            final(self)@ == (MachineView { delay: old(self)@.regs[x as int], ..old(self)@ }),
    {
        let v = self.regs[x as usize];
        self.delay_timer.set_value(v);
    }

    /// Sound timer <- Vx.
    pub fn set_sound(&mut self, x: u8)
        requires
            old(self).wf(),
            x <= 0xf,
        ensures
            final(self).wf(),
            final(self)@ == (MachineView { sound: old(self)@.regs[x as int], ..old(self)@ }),
    {
        let v = self.regs[x as usize];
        self.sound_timer.set_value(v);
    }

    /// I <- I + Vx, keeping the low sixteen bits.
    pub fn add_to_i(&mut self, x: u8)
        requires
            old(self).wf(),
            x <= 0xf,
        ensures
            final(self).wf(),
            final(self)@ == (MachineView {
                i: u16_specs::wrapping_add(old(self)@.i, old(self)@.regs[x as int] as u16),
                ..old(self)@
            }),
    {
        let v = self.regs[x as usize] as u16;
        self.i = self.i.wrapping_add(v);
    }

    /// I <- the address of the 5-byte font glyph for the digit in Vx (only
    /// digits 0 through F have defined sprites).
    pub fn store_digit_address(&mut self, x: u8)
        requires
            old(self).wf(),
            x <= 0xf,
        ensures
            final(self).wf(),
            final(self)@ == (MachineView {
                i: ((0x50 + old(self)@.regs[x as int] * 5) as u16),
                ..old(self)@
            }),
    {
        let v = self.regs[x as usize] as u16;
        self.i = (FONT_MEMORY_START as u16) + v * 5;
    }

    /// Stores the three decimal digits of Vx at memory I, I+1 and I+2.
    /// Address arithmetic that would leave memory is a fault.
    pub fn store_bcd(&mut self, x: u8) -> (r: Result<(), Fault>)
        requires
            old(self).wf(),
            x <= 0xf,
        ensures
            final(self).wf(),
            old(self)@.i + 2 > 4095 ==> r == Err::<(), Fault>(Fault::AddressOutOfRange)
                && final(self)@ == old(self)@,
            old(self)@.i + 2 <= 4095 ==> r is Ok && final(self)@ == (MachineView {
                mem: old(self)@.mem.update(
                    old(self)@.i as int,
                    ((old(self)@.regs[x as int] / 100) as u8),
                ).update(
                    old(self)@.i as int + 1,
                    (((old(self)@.regs[x as int] / 10) % 10) as u8),
                ).update(old(self)@.i as int + 2, ((old(self)@.regs[x as int] % 10) as u8)),
                ..old(self)@
            }),
    {
        if self.i > 4093 {
            return Err(Fault::AddressOutOfRange);
        }
        let value = self.regs[x as usize];
        self.memory.set(self.i as usize, value / 100);
        self.memory.set(self.i as usize + 1, (value / 10) % 10);
        self.memory.set(self.i as usize + 2, value % 10);
        Ok(())
    }

    /// Draws the `n`-row, 8-column sprite read from memory at I at position
    /// (Vx mod 64, Vy mod 32): each set bit XOR-toggles its pixel, with
    /// coordinates wrapped modulo the display size; VF <- 1 if any toggle
    /// turned a lit pixel off, else 0.  A sprite that would be read from
    /// beyond memory is a fault.
    pub fn draw_sprite(&mut self, x: u8, y: u8, n: u8) -> (r: Result<(), Fault>)
        requires
            old(self).wf(),
            x <= 0xf,
            y <= 0xf,
            n <= 0xf,
        ensures
            final(self).wf(),
            (n > 0 && old(self)@.i + n > 4096) ==> r == Err::<(), Fault>(Fault::AddressOutOfRange)
                && final(self)@ == old(self)@,
            !(n > 0 && old(self)@.i + n > 4096) ==> r is Ok && final(self)@ == draw_result(
                old(self)@,
                x,
                y,
                n,
            ),
    {
        if n > 0 && self.i > 4096 - (n as u16) {
            return Err(Fault::AddressOutOfRange);
        }
        let ghost pre = self@;
        let ghost sprite = if pre.i + n <= pre.mem.len() {
            pre.mem.subrange(pre.i as int, pre.i + n)
        } else {
            Seq::empty()
        };
        let x0 = self.regs[x as usize] % 64;
        let y0 = self.regs[y as usize] % 32;
        let ghost gx = x0 as int;
        let ghost gy = y0 as int;
        self.regs.set(15, 0);
        let mut row: u8 = 0;
        while row < n
            invariant
                self.wf(),
                row <= n,
                n <= 0xf,
                x0 < 64,
                y0 < 32,
                gx == x0 as int,
                gy == y0 as int,
                machine_wf(pre),
                n > 0 ==> pre.i + n <= 4096,
                n > 0 ==> sprite == pre.mem.subrange(pre.i as int, pre.i + n),
                sprite.len() == n as int,
                self@.px.len() == 2048,
                self@.regs.len() == 16,
                forall|idx: int|
                    0 <= idx < 2048 ==> self@.px[idx] == (pre.px[idx] != covers_index_upto(
                        sprite,
                        gx,
                        gy,
                        idx,
                        row as int,
                        0,
                    )),
                self@.regs == pre.regs.update(
                    15,
                    if collision_upto(pre.px, sprite, gx, gy, row as int, 0) {
                        1u8
                    } else {
                        0u8
                    },
                ),
                self@.dirty == (pre.dirty || set_bit_upto(sprite, row as int, 0)),
                self@ == (MachineView {
                    px: self@.px,
                    dirty: self@.dirty,
                    regs: self@.regs,
                    ..pre
                }),
            decreases n - row,
        {
            let row_byte = self.memory[self.i as usize + row as usize];
            assert(row_byte == sprite[row as int]);
            let mut col: u8 = 0;
            while col < 8
                invariant
                    self.wf(),
                    row < n,
                    n <= 0xf,
                    col <= 8,
                    x0 < 64,
                    y0 < 32,
                    gx == x0 as int,
                    gy == y0 as int,
                    machine_wf(pre),
                    pre.i + n <= 4096,
                    n > 0 ==> sprite == pre.mem.subrange(pre.i as int, pre.i + n),
                    sprite.len() == n as int,
                    row_byte == sprite[row as int],
                    self@.px.len() == 2048,
                    self@.regs.len() == 16,
                    forall|idx: int|
                        0 <= idx < 2048 ==> self@.px[idx] == (pre.px[idx] != covers_index_upto(
                            sprite,
                            gx,
                            gy,
                            idx,
                            row as int,
                            col as int,
                        )),
                    self@.regs == pre.regs.update(
                        15,
                        if collision_upto(pre.px, sprite, gx, gy, row as int, col as int) {
                            1u8
                        } else {
                            0u8
                        },
                    ),
                    self@.dirty == (pre.dirty || set_bit_upto(sprite, row as int, col as int)),
                    self@ == (MachineView {
                        px: self@.px,
                        dirty: self@.dirty,
                        regs: self@.regs,
                        ..pre
                    }),
                decreases 8 - col,
            {
                if (row_byte >> (7 - col)) & 1 == 1 {
                    assert(sprite_bit(sprite, row as int, col as int));
                    let cx = (x0 + col) % 64;
                    let cy = (y0 + row) % 32;
                    let ghost cell = cell_index(gx, gy, row as int, col as int);
                    proof {
                        lemma_cell_index_range(gx, gy, row as int, col as int);
                        assert(cell == cy * 64 + cx);
                        lemma_not_covered_yet(
                            sprite,
                            gx,
                            gy,
                            row as int,
                            col as int,
                            row as int,
                            col as int,
                        );
                        assert(self@.px[cell] == pre.px[cell]);
                    }
                    let was_lit = self.gfx.toggle(cx as u32, cy as u32);
                    assert(was_lit == pre.px[cell]);
                    if was_lit {
                        self.regs.set(15, 1);
                        proof {
                            assert(self@.regs =~= pre.regs.update(15, 1u8));
                        }
                    }
                    proof {
                        assert(px_at(pre.px, cell) == was_lit);
                        assert(collision_upto(pre.px, sprite, gx, gy, row as int, col as int + 1)
                            == (collision_upto(pre.px, sprite, gx, gy, row as int, col as int)
                            || was_lit));
                        assert forall|idx: int| 0 <= idx < 2048 implies self@.px[idx] == (
                        pre.px[idx] != covers_index_upto(
                            sprite,
                            gx,
                            gy,
                            idx,
                            row as int,
                            col as int + 1,
                        )) by {
                            if idx != cell {
                                assert(covers_index_upto(
                                    sprite,
                                    gx,
                                    gy,
                                    idx,
                                    row as int,
                                    col as int + 1,
                                ) == covers_index_upto(
                                    sprite,
                                    gx,
                                    gy,
                                    idx,
                                    row as int,
                                    col as int,
                                ));
                            }
                        }
                    }
                } else {
                    assert(!sprite_bit(sprite, row as int, col as int));
                }
                col = col + 1;
            }
            row = row + 1;
        }
        proof {
            lemma_covers_upto_complete(sprite, gx, gy, 0, n as int, 0);
            assert forall|idx: int| 0 <= idx < 2048 implies self@.px[idx] == (pre.px[idx]
                != covers_index(sprite, gx, gy, idx)) by {
                lemma_covers_upto_complete(sprite, gx, gy, idx, n as int, 0);
            }
            assert(self@.px =~= draw_px(pre.px, sprite, gx, gy));
            lemma_collision_full(pre.px, sprite, gx, gy);
            lemma_set_bit_upto_complete(sprite, n as int, 0);
            assert(set_bit_upto(sprite, n as int, 0) == sprite_has_set_bit(sprite));
            assert(self@ == draw_result(pre, x, y, n));
        }
        Ok(())
    }

    /// Copies V0 through Vx (inclusive) into memory starting at I, leaving
    /// I unchanged.  Address arithmetic that would leave memory is a fault.
    pub fn store_regs_in_memory(&mut self, x: u8) -> (r: Result<(), Fault>)
        requires
            old(self).wf(),
            x <= 0xf,
        ensures
            final(self).wf(),
            old(self)@.i + x > 4095 ==> r == Err::<(), Fault>(Fault::AddressOutOfRange)
                && final(self)@ == old(self)@,
            old(self)@.i + x <= 4095 ==> r is Ok && final(self)@ == (MachineView {
                mem: Seq::new(
                    4096,
                    |j: int|
                        if old(self)@.i <= j <= old(self)@.i + x {
                            old(self)@.regs[j - old(self)@.i]
                        } else {
                            old(self)@.mem[j]
                        },
                ),
                ..old(self)@
            }),
    {
        if self.i as usize > 4095 - x as usize {
            return Err(Fault::AddressOutOfRange);
        }
        let ghost pre = self@;
        let base = self.i as usize;
        let mut j: usize = 0;
        while j <= x as usize
            invariant
                self.wf(),
                j <= x as usize + 1,
                x <= 0xf,
                base == pre.i as int,
                base + x as int <= 4095,
                self@.mem.len() == 4096,
                forall|t: int|
                    0 <= t < 4096 ==> self@.mem[t] == (if base <= t < base + j {
                        pre.regs[t - base]
                    } else {
                        pre.mem[t]
                    }),
                self@ == (MachineView { mem: self@.mem, ..pre }),
            decreases x as int + 1 - j,
        {
            let v = self.regs[j];
            self.memory.set(base + j, v);
            j = j + 1;
        }
        proof {
            assert(self@.mem =~= (Seq::new(
                4096,
                |t: int|
                    if pre.i <= t <= pre.i + x {
                        pre.regs[t - pre.i]
                    } else {
                        pre.mem[t]
                    },
            )));
        }
        Ok(())
    }

    /// Copies memory I through I+x (inclusive) into V0 through Vx, leaving
    /// I unchanged.  Address arithmetic that would leave memory is a fault.
    pub fn store_memory_in_regs(&mut self, x: u8) -> (r: Result<(), Fault>)
        requires
            old(self).wf(),
            x <= 0xf,
        ensures
            final(self).wf(),
            old(self)@.i + x > 4095 ==> r == Err::<(), Fault>(Fault::AddressOutOfRange)
                && final(self)@ == old(self)@,
            old(self)@.i + x <= 4095 ==> r is Ok && final(self)@ == (MachineView {
                regs: Seq::new(
                    16,
                    |j: int|
                        if j <= x {
                            old(self)@.mem[old(self)@.i + j]
                        } else {
                            old(self)@.regs[j]
                        },
                ),
                ..old(self)@
            }),
    {
        if self.i as usize > 4095 - x as usize {
            return Err(Fault::AddressOutOfRange);
        }
        let ghost pre = self@;
        let base = self.i as usize;
        let mut j: usize = 0;
        while j <= x as usize
            invariant
                self.wf(),
                j <= x as usize + 1,
                x <= 0xf,
                base == pre.i as int,
                base + x as int <= 4095,
                self@.regs.len() == 16,
                forall|t: int|
                    0 <= t < 16 ==> self@.regs[t] == (if 0 <= t < j {
                        pre.mem[base + t]
                    } else {
                        pre.regs[t]
                    }),
                self@ == (MachineView { regs: self@.regs, ..pre }),
            decreases x as int + 1 - j,
        {
            let v = self.memory[base + j];
            self.regs.set(j, v);
            j = j + 1;
        }
        proof {
            assert(self@.regs =~= (Seq::new(
                16,
                |t: int|
                    if t <= x {
                        pre.mem[pre.i + t]
                    } else {
                        pre.regs[t]
                    },
            )));
        }
        Ok(())
    }
}

/// Whether `c` is a valid index of `px` holding a lit pixel.
spec fn px_at(px: Seq<bool>, c: int) -> bool {
    0 <= c < px.len() && px[c]
}

/// Like [`covers_index`], but over only the sprite cells a row-major scan
/// has processed: all of the first `rows` rows and the first `cols` cells of
/// row `rows`.
spec fn covers_index_upto(
    sprite: Seq<u8>,
    x0: int,
    y0: int,
    idx: int,
    rows: int,
    cols: int,
) -> bool
    decreases rows, cols,
{
    if cols > 0 {
        covers_index_upto(sprite, x0, y0, idx, rows, cols - 1) || (rows < sprite.len()
            && sprite_bit(sprite, rows, cols - 1) && idx == cell_index(x0, y0, rows, cols - 1))
    } else if rows > 0 {
        covers_index_upto(sprite, x0, y0, idx, rows - 1, 8)
    } else {
        false
    }
}

/// Whether any processed sprite cell is a set bit landing on a lit pixel.
spec fn collision_upto(
    px: Seq<bool>,
    sprite: Seq<u8>,
    x0: int,
    y0: int,
    rows: int,
    cols: int,
) -> bool
    decreases rows, cols,
{
    if cols > 0 {
        collision_upto(px, sprite, x0, y0, rows, cols - 1) || (rows < sprite.len()
            && sprite_bit(sprite, rows, cols - 1) && px_at(px, cell_index(x0, y0, rows, cols - 1)))
    } else if rows > 0 {
        collision_upto(px, sprite, x0, y0, rows - 1, 8)
    } else {
        false
    }
}

/// Whether any processed sprite cell is a set bit.
spec fn set_bit_upto(sprite: Seq<u8>, rows: int, cols: int) -> bool
    decreases rows, cols,
{
    if cols > 0 {
        set_bit_upto(sprite, rows, cols - 1) || (rows < sprite.len() && sprite_bit(
            sprite,
            rows,
            cols - 1,
        ))
    } else if rows > 0 {
        set_bit_upto(sprite, rows - 1, 8)
    } else {
        false
    }
}

/// Every framebuffer index a sprite cell lands on is inside the display.
proof fn lemma_cell_index_range(x0: int, y0: int, dy: int, dx: int)
    requires
        0 <= x0 < 64,
        0 <= y0 < 32,
        0 <= dy,
        0 <= dx,
    ensures
        0 <= cell_index(x0, y0, dy, dx) < 2048,
{
    lemma_mod_bound(y0 + dy, 32);
    lemma_mod_bound(x0 + dx, 64);
    assert(0 <= ((y0 + dy) % 32) * 64 + ((x0 + dx) % 64) < 2048) by (nonlinear_arith)
        requires
            0 <= (y0 + dy) % 32 < 32,
            0 <= (x0 + dx) % 64 < 64,
    ;
}

/// Within one draw, distinct sprite cells land on distinct framebuffer
/// indices: the row offsets stay below the display height and the column
/// offsets below its width, so the wrapped coordinates cannot coincide.
proof fn lemma_cell_index_injective(x0: int, y0: int, dy1: int, dx1: int, dy2: int, dx2: int)
    requires
        0 <= x0 < 64,
        0 <= y0 < 32,
        0 <= dy1 < 16,
        0 <= dx1 < 8,
        0 <= dy2 < 16,
        0 <= dx2 < 8,
    ensures
        cell_index(x0, y0, dy1, dx1) == cell_index(x0, y0, dy2, dx2) ==> (dy1 == dy2 && dx1
            == dx2),
{
    if cell_index(x0, y0, dy1, dx1) == cell_index(x0, y0, dy2, dx2) {
        let r1 = (y0 + dy1) % 32;
        let c1 = (x0 + dx1) % 64;
        let r2 = (y0 + dy2) % 32;
        let c2 = (x0 + dx2) % 64;
        lemma_mod_bound(y0 + dy1, 32);
        lemma_mod_bound(x0 + dx1, 64);
        lemma_mod_bound(y0 + dy2, 32);
        lemma_mod_bound(x0 + dx2, 64);
        assert(r1 == r2 && c1 == c2) by (nonlinear_arith)
            requires
                r1 * 64 + c1 == r2 * 64 + c2,
                0 <= r1 < 32,
                0 <= r2 < 32,
                0 <= c1 < 64,
                0 <= c2 < 64,
        ;
        lemma_fundamental_div_mod(y0 + dy1, 32);
        lemma_fundamental_div_mod(y0 + dy2, 32);
        let q1 = (y0 + dy1) / 32;
        let q2 = (y0 + dy2) / 32;
        assert(dy1 == dy2) by (nonlinear_arith)
            requires
                y0 + dy1 == 32 * q1 + r1,
                y0 + dy2 == 32 * q2 + r1,
                -16 < dy1 - dy2 < 16,
        ;
        lemma_fundamental_div_mod(x0 + dx1, 64);
        lemma_fundamental_div_mod(x0 + dx2, 64);
        let p1 = (x0 + dx1) / 64;
        let p2 = (x0 + dx2) / 64;
        assert(dx1 == dx2) by (nonlinear_arith)
            requires
                x0 + dx1 == 64 * p1 + c1,
                x0 + dx2 == 64 * p2 + c1,
                -8 < dx1 - dx2 < 8,
        ;
    }
}

/// A sprite cell the row-major scan has not reached yet is not covered by
/// the processed prefix.
proof fn lemma_not_covered_yet(
    sprite: Seq<u8>,
    x0: int,
    y0: int,
    rows: int,
    cols: int,
    row: int,
    col: int,
)
    requires
        0 <= x0 < 64,
        0 <= y0 < 32,
        sprite.len() <= 16,
        0 <= row < sprite.len(),
        0 <= col < 8,
        0 <= rows,
        0 <= cols <= 8,
        rows < row || (rows == row && cols <= col),
    ensures
        !covers_index_upto(sprite, x0, y0, cell_index(x0, y0, row, col), rows, cols),
    decreases rows, cols,
{
    if cols > 0 {
        lemma_not_covered_yet(sprite, x0, y0, rows, cols - 1, row, col);
        if rows < sprite.len() && sprite_bit(sprite, rows, cols - 1) {
            lemma_cell_index_injective(x0, y0, rows, cols - 1, row, col);
        }
    } else if rows > 0 {
        lemma_not_covered_yet(sprite, x0, y0, rows - 1, 8, row, col);
    }
}

/// The processed-prefix cover, at the end of the scan, is exactly the cover
/// of the whole sprite.
proof fn lemma_covers_upto_complete(sprite: Seq<u8>, x0: int, y0: int, idx: int, rows: int, cols: int)
    requires
        0 <= rows <= sprite.len(),
        0 <= cols <= 8,
    ensures
        covers_index_upto(sprite, x0, y0, idx, rows, cols) == (exists|dy: int, dx: int|
            0 <= dy < sprite.len() && 0 <= dx < 8 && (dy < rows || (dy == rows && dx < cols))
                && sprite_bit(sprite, dy, dx) && idx == #[trigger] cell_index(x0, y0, dy, dx)),
    decreases rows, cols,
{
    if cols > 0 {
        lemma_covers_upto_complete(sprite, x0, y0, idx, rows, cols - 1);
    } else if rows > 0 {
        lemma_covers_upto_complete(sprite, x0, y0, idx, rows - 1, 8);
    }
}

/// The processed-prefix collision, at the end of the scan, is exactly the
/// collision flag of the whole draw.
proof fn lemma_collision_upto_complete(
    px: Seq<bool>,
    sprite: Seq<u8>,
    x0: int,
    y0: int,
    rows: int,
    cols: int,
)
    requires
        0 <= x0 < 64,
        0 <= y0 < 32,
        0 <= rows <= sprite.len(),
        0 <= cols <= 8,
    ensures
        collision_upto(px, sprite, x0, y0, rows, cols) == (exists|dy: int, dx: int|
            0 <= dy < sprite.len() && 0 <= dx < 8 && (dy < rows || (dy == rows && dx < cols))
                && sprite_bit(sprite, dy, dx) && px_at(px, #[trigger] cell_index(x0, y0, dy, dx))),
    decreases rows, cols,
{
    if cols > 0 {
        lemma_collision_upto_complete(px, sprite, x0, y0, rows, cols - 1);
    } else if rows > 0 {
        lemma_collision_upto_complete(px, sprite, x0, y0, rows - 1, 8);
    }
}

/// The processed-prefix set-bit test, at the end of the scan, is exactly
/// whether the sprite has any set bit.
proof fn lemma_set_bit_upto_complete(sprite: Seq<u8>, rows: int, cols: int)
    requires
        0 <= rows <= sprite.len(),
        0 <= cols <= 8,
    ensures
        set_bit_upto(sprite, rows, cols) == (exists|dy: int, dx: int|
            0 <= dy < sprite.len() && 0 <= dx < 8 && (dy < rows || (dy == rows && dx < cols))
                && #[trigger] sprite_bit(sprite, dy, dx)),
    decreases rows, cols,
{
    if cols > 0 {
        lemma_set_bit_upto_complete(sprite, rows, cols - 1);
    } else if rows > 0 {
        lemma_set_bit_upto_complete(sprite, rows - 1, 8);
    }
}

/// The full-sprite collision in its per-cell form equals [`draw_collision`],
/// which quantifies over framebuffer indices.
proof fn lemma_collision_full(px: Seq<bool>, sprite: Seq<u8>, x0: int, y0: int)
    requires
        0 <= x0 < 64,
        0 <= y0 < 32,
        px.len() == 2048,
        sprite.len() <= 16,
    ensures
        collision_upto(px, sprite, x0, y0, sprite.len() as int, 0) == draw_collision(
            px,
            sprite,
            x0,
            y0,
        ),
{
    lemma_collision_upto_complete(px, sprite, x0, y0, sprite.len() as int, 0);
    if collision_upto(px, sprite, x0, y0, sprite.len() as int, 0) {
        let (dy, dx) = choose|dy: int, dx: int|
            0 <= dy < sprite.len() && 0 <= dx < 8 && (dy < sprite.len() || (dy == sprite.len()
                && dx < 0)) && sprite_bit(sprite, dy, dx) && px_at(
                px,
                #[trigger] cell_index(x0, y0, dy, dx),
            );
        let idx = cell_index(x0, y0, dy, dx);
        lemma_cell_index_range(x0, y0, dy, dx);
        assert(covers_index(sprite, x0, y0, idx));
        assert(draw_collision(px, sprite, x0, y0));
    }
    if draw_collision(px, sprite, x0, y0) {
        let idx = choose|idx: int|
            0 <= idx < px.len() && #[trigger] covers_index(sprite, x0, y0, idx) && px[idx];
        let (dy, dx) = choose|dy: int, dx: int|
            0 <= dy < sprite.len() && 0 <= dx < 8 && sprite_bit(sprite, dy, dx) && idx
                == #[trigger] cell_index(x0, y0, dy, dx);
        assert(px_at(px, cell_index(x0, y0, dy, dx)));
        assert(collision_upto(px, sprite, x0, y0, sprite.len() as int, 0));
    }
}

/// Relies on `rand::random`: a value drawn from the thread-local generator.
/// Nothing can be promised of a random value.
pub assume_specification<T>[ rand::random::<T> ]() -> T
    where
        StandardUniform: Distribution<T>,
;

/// Draws one uniformly random byte.
fn random_byte() -> u8 {
    rand::random::<u8>()
}

} // verus!

