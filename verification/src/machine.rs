//! The mathematical model of the machine: its state as plain mathematical
//! values, the decoded instruction set, and the state-transition relation
//! that one fetched and executed instruction induces.

use vstd::prelude::*;
use crate::keypad::first_key_down;
use crate::opcode::nibbles_of;
use vstd::wrapping::{u16_specs, u8_specs};

verus! {

/// A fatal condition: a malformed program or impossible host input.  The
/// interpreter surfaces these as distinguishable error values and never
/// attempts recovery.
#[derive(Clone, Copy, Debug, PartialEq, Eq, Structural)]
pub enum Fault {
    /// A "return" instruction executed with an empty call stack.
    StackUnderflow,
    /// A "call" instruction executed with the sixteen-entry call stack full.
    StackOverflow,
    /// Address arithmetic that would read or write outside memory.
    AddressOutOfRange,
    /// A key-conditional instruction naming a key above 0xF.
    KeyOutOfRange,
}

/// The machine's full state, as mathematical values.
pub ghost struct MachineView {
    /// 4096 bytes of memory.
    pub mem: Seq<u8>,
    /// The sixteen general-purpose 8-bit registers; index 0xF doubles as the
    /// carry/borrow/collision flag.
    pub regs: Seq<u8>,
    /// The 16-bit index register.
    pub i: u16,
    /// The program counter.
    pub pc: u16,
    /// The call stack of return addresses, at most sixteen deep.
    pub ret_stack: Seq<u16>,
    /// The 64x32 framebuffer, row-major.
    pub px: Seq<bool>,
    /// Whether any pixel changed since the renderer last asked.
    pub dirty: bool,
    /// The delay timer's 8-bit value.
    pub delay: u8,
    /// The sound timer's 8-bit value.
    pub sound: u8,
    /// The sixteen key states.
    pub keys: Seq<bool>,
    /// When set, execution is suspended until a key press fills the named
    /// register.
    pub waiting: Option<u8>,
    /// Compatibility switch: when set, the shift instructions read their
    /// source from Vx rather than Vy.
    pub shift_source_vx: bool,
    /// The delay timer accumulator's reference time.
    pub delay_ref: u64,
    /// The sound timer accumulator's reference time.
    pub sound_ref: u64,
    /// The instruction clock's reference time.
    pub clock_ref: u64,
    /// The instruction clock's tick duration in microseconds.
    pub clock_interval: u64,
}

pub open spec fn machine_wf(s: MachineView) -> bool {
    &&& s.mem.len() == 4096
    &&& s.regs.len() == 16
    &&& s.keys.len() == 16
    &&& s.px.len() == 2048
    &&& s.ret_stack.len() <= 16
    &&& s.clock_interval >= 1
    &&& (s.waiting matches Some(x) ==> x <= 0xf)
}

// ---------------------------------------------------------------------------
// Instruction decoding
// ---------------------------------------------------------------------------

/// The nibble of `w` at position `k`, counting from the most significant.
pub open spec fn nib(w: u16, k: int) -> u8 {
    nibbles_of(w, k, k + 1) as u8
}

/// The low twelve bits of `w`: an address field.
pub open spec fn addr_field(w: u16) -> u16 {
    nibbles_of(w, 1, 4) as u16
}

/// The low byte of `w`: an immediate field.
pub open spec fn imm_field(w: u16) -> u8 {
    nibbles_of(w, 2, 4) as u8
}

/// A decoded instruction.  `x` and `y` are 4-bit register selectors;
/// address and immediate fields come from the remaining nibbles.
pub ghost enum Instr {
    ClearScreen,
    Return,
    Call(u16),
    Jump(u16),
    SkipEqImm(u8, u8),
    SkipNeImm(u8, u8),
    SkipEqReg(u8, u8),
    StoreImm(u8, u8),
    AddImm(u8, u8),
    MoveReg(u8, u8),
    OrReg(u8, u8),
    AndReg(u8, u8),
    XorReg(u8, u8),
    AddReg(u8, u8),
    SubReg(u8, u8),
    ShrReg(u8, u8),
    SubnReg(u8, u8),
    ShlReg(u8, u8),
    SkipNeReg(u8, u8),
    StoreI(u16),
    JumpV0(u16),
    RandomMask(u8, u8),
    Draw(u8, u8, u8),
    SkipKeyDown(u8),
    SkipKeyUp(u8),
    StoreDelay(u8),
    WaitKey(u8),
    SetDelay(u8),
    SetSound(u8),
    AddI(u8),
    DigitSprite(u8),
    StoreBcd(u8),
    StoreRegs(u8),
    LoadRegs(u8),
    Invalid,
}

/// Splits a 16-bit word into its instruction.  An opcode whose secondary
/// selector matches nothing known decodes to `Invalid`.
pub open spec fn decode(w: u16) -> Instr {
    let x = nib(w, 1);
    let y = nib(w, 2);
    let n = nib(w, 3);
    let nnn = addr_field(w);
    let kk = imm_field(w);
    if nib(w, 0) == 0 {
        if nnn == 0x0e0 {
            Instr::ClearScreen
        } else if nnn == 0x0ee {
            Instr::Return
        } else {
            Instr::Call(nnn)
        }
    } else if nib(w, 0) == 1 {
        Instr::Jump(nnn)
    } else if nib(w, 0) == 2 {
        Instr::Call(nnn)
    } else if nib(w, 0) == 3 {
        Instr::SkipEqImm(x, kk)
    } else if nib(w, 0) == 4 {
        Instr::SkipNeImm(x, kk)
    } else if nib(w, 0) == 5 {
        if n == 0 {
            Instr::SkipEqReg(x, y)
        } else {
            Instr::Invalid
        }
    } else if nib(w, 0) == 6 {
        Instr::StoreImm(x, kk)
    } else if nib(w, 0) == 7 {
        Instr::AddImm(x, kk)
    } else if nib(w, 0) == 8 {
        if n == 0 {
            Instr::MoveReg(x, y)
        } else if n == 1 {
            Instr::OrReg(x, y)
        } else if n == 2 {
            Instr::AndReg(x, y)
        } else if n == 3 {
            Instr::XorReg(x, y)
        } else if n == 4 {
            Instr::AddReg(x, y)
        } else if n == 5 {
            Instr::SubReg(x, y)
        } else if n == 6 {
            Instr::ShrReg(x, y)
        } else if n == 7 {
            Instr::SubnReg(x, y)
        } else if n == 0xe {
            Instr::ShlReg(x, y)
        } else {
            Instr::Invalid
        }
    } else if nib(w, 0) == 9 {
        if n == 0 {
            Instr::SkipNeReg(x, y)
        } else {
            Instr::Invalid
        }
    } else if nib(w, 0) == 0xa {
        Instr::StoreI(nnn)
    } else if nib(w, 0) == 0xb {
        Instr::JumpV0(nnn)
    } else if nib(w, 0) == 0xc {
        Instr::RandomMask(x, kk)
    } else if nib(w, 0) == 0xd {
        Instr::Draw(x, y, n)
    } else if nib(w, 0) == 0xe {
        if kk == 0x9e {
            Instr::SkipKeyDown(x)
        } else if kk == 0xa1 {
            Instr::SkipKeyUp(x)
        } else {
            Instr::Invalid
        }
    } else {
        if kk == 0x07 {
            Instr::StoreDelay(x)
        } else if kk == 0x0a {
            Instr::WaitKey(x)
        } else if kk == 0x15 {
            Instr::SetDelay(x)
        } else if kk == 0x18 {
            Instr::SetSound(x)
        } else if kk == 0x1e {
            Instr::AddI(x)
        } else if kk == 0x29 {
            Instr::DigitSprite(x)
        } else if kk == 0x33 {
            Instr::StoreBcd(x)
        } else if kk == 0x55 {
            Instr::StoreRegs(x)
        } else if kk == 0x65 {
            Instr::LoadRegs(x)
        } else {
            Instr::Invalid
        }
    }
}

// ---------------------------------------------------------------------------
// Sprite drawing
// ---------------------------------------------------------------------------

/// Whether row `dy`, column `dx` of the sprite is a set bit (column 0 is the
/// most significant bit of the row byte).
pub open spec fn sprite_bit(sprite: Seq<u8>, dy: int, dx: int) -> bool {
    (sprite[dy] >> ((7 - dx) as u8)) & 1 == 1
}

/// The framebuffer index that sprite cell (`dy`, `dx`) lands on when drawn at
/// (`x0`, `y0`), with both coordinates wrapped modulo the display size.
pub open spec fn cell_index(x0: int, y0: int, dy: int, dx: int) -> int {
    ((y0 + dy) % 32) * 64 + ((x0 + dx) % 64)
}

/// Whether any set bit of the sprite, drawn at (`x0`, `y0`), lands on
/// framebuffer index `idx`.
pub open spec fn covers_index(sprite: Seq<u8>, x0: int, y0: int, idx: int) -> bool {
    exists|dy: int, dx: int|
        0 <= dy < sprite.len() && 0 <= dx < 8 && sprite_bit(sprite, dy, dx) && idx
            == #[trigger] cell_index(x0, y0, dy, dx)
}

/// The framebuffer after XOR-drawing the sprite at (`x0`, `y0`): every
/// covered cell is toggled, every other cell is untouched.
pub open spec fn draw_px(px: Seq<bool>, sprite: Seq<u8>, x0: int, y0: int) -> Seq<bool> {
    Seq::new(px.len(), |idx: int| px[idx] != covers_index(sprite, x0, y0, idx))
}

/// Whether the draw toggles any lit pixel off: the collision flag.
pub open spec fn draw_collision(px: Seq<bool>, sprite: Seq<u8>, x0: int, y0: int) -> bool {
    exists|idx: int|
        0 <= idx < px.len() && #[trigger] covers_index(sprite, x0, y0, idx) && px[idx]
}

/// Whether the sprite has any set bit at all (only then does a draw touch
/// the framebuffer and raise the dirty flag).
pub open spec fn sprite_has_set_bit(sprite: Seq<u8>) -> bool {
    exists|dy: int, dx: int| 0 <= dy < sprite.len() && 0 <= dx < 8 && #[trigger] sprite_bit(
        sprite,
        dy,
        dx,
    )
}

/// The machine after XOR-drawing an `n`-row sprite read from memory at I at
/// position (Vx mod 64, Vy mod 32): covered pixels toggle, the dirty flag
/// rises if the sprite has any set bit, and VF records whether any lit pixel
/// was toggled off.
pub open spec fn draw_result(s: MachineView, x: u8, y: u8, n: u8) -> MachineView {
    let sprite = if s.i + n <= s.mem.len() {
        s.mem.subrange(s.i as int, s.i + n)
    } else {
        Seq::empty()
    };
    let x0 = (s.regs[x as int] % 64) as int;
    let y0 = (s.regs[y as int] % 32) as int;
    MachineView {
        px: draw_px(s.px, sprite, x0, y0),
        dirty: s.dirty || sprite_has_set_bit(sprite),
        regs: s.regs.update(
            15,
            if draw_collision(s.px, sprite, x0, y0) {
                1u8
            } else {
                0u8
            },
        ),
        ..s
    }
}

/// Draw round-trip: drawing the same sprite at the same position twice with
/// no intervening draws restores every pixel to its value before the first
/// draw (XOR is self-inverse), and the second draw's collision flag is set
/// exactly when some covered pixel was lit after the first draw.
pub proof fn lemma_draw_round_trip(px: Seq<bool>, sprite: Seq<u8>, x0: int, y0: int)
    ensures
        draw_px(draw_px(px, sprite, x0, y0), sprite, x0, y0) =~= px,
        draw_collision(draw_px(px, sprite, x0, y0), sprite, x0, y0) <==> (exists|idx: int|
            0 <= idx < px.len() && #[trigger] covers_index(sprite, x0, y0, idx) && draw_px(
                px,
                sprite,
                x0,
                y0,
            )[idx]),
{
    let once = draw_px(px, sprite, x0, y0);
    assert(once.len() == px.len());
    assert forall|idx: int| 0 <= idx < px.len() implies draw_px(once, sprite, x0, y0)[idx]
        == px[idx] by {
        assert(once[idx] == (px[idx] != covers_index(sprite, x0, y0, idx)));
    }
}

/// The result a random-masked store may produce from the random byte `b`.
pub open spec fn rand_masked(b: u8, mask: u8) -> u8 {
    b & mask
}

// ---------------------------------------------------------------------------
// The instruction-step relation
// ---------------------------------------------------------------------------

/// The instruction word stored big-endian at the program counter.
pub open spec fn fetch_word(s: MachineView) -> u16 {
    (s.mem[s.pc as int] * 0x100 + s.mem[s.pc as int + 1]) as u16
}

/// What executing the already-fetched word `w` does to the machine `s` (in
/// which the program counter has already advanced past `w`): relates the
/// state after, `post`, and the outcome `r`.  Every arm but the random store
/// is deterministic.
#[verifier::opaque]
pub open spec fn instr_rel(
    s: MachineView,
    w: u16,
    post: MachineView,
    r: Result<(), Fault>,
) -> bool {
    match decode(w) {
        Instr::ClearScreen => r is Ok && post == (MachineView {
            px: Seq::new(s.px.len(), |idx: int| false),
            dirty: true,
            ..s
        }),
        Instr::Return => if s.ret_stack.len() == 0 {
            r == Err::<(), Fault>(Fault::StackUnderflow) && post == s
        } else {
            r is Ok && post == (MachineView {
                pc: s.ret_stack.last(),
                ret_stack: s.ret_stack.drop_last(),
                ..s
            })
        },
        Instr::Call(nnn) => if s.ret_stack.len() >= 16 {
            r == Err::<(), Fault>(Fault::StackOverflow) && post == s
        } else {
            r is Ok && post == (MachineView { pc: nnn, ret_stack: s.ret_stack.push(s.pc), ..s })
        },
        Instr::Jump(nnn) => r is Ok && post == (MachineView { pc: nnn, ..s }),
        Instr::SkipEqImm(x, kk) => r is Ok && post == (MachineView {
            pc: if s.regs[x as int] == kk {
                ((s.pc + 2) as u16)
            } else {
                s.pc
            },
            ..s
        }),
        Instr::SkipNeImm(x, kk) => r is Ok && post == (MachineView {
            pc: if s.regs[x as int] != kk {
                ((s.pc + 2) as u16)
            } else {
                s.pc
            },
            ..s
        }),
        Instr::SkipEqReg(x, y) => r is Ok && post == (MachineView {
            pc: if s.regs[x as int] == s.regs[y as int] {
                ((s.pc + 2) as u16)
            } else {
                s.pc
            },
            ..s
        }),
        Instr::StoreImm(x, kk) => r is Ok && post == (MachineView {
            regs: s.regs.update(x as int, kk),
            ..s
        }),
        Instr::AddImm(x, kk) => r is Ok && post == (MachineView {
            regs: s.regs.update(x as int, u8_specs::wrapping_add(s.regs[x as int], kk)),
            ..s
        }),
        Instr::MoveReg(x, y) => r is Ok && post == (MachineView {
            regs: s.regs.update(x as int, s.regs[y as int]),
            ..s
        }),
        Instr::OrReg(x, y) => r is Ok && post == (MachineView {
            regs: s.regs.update(x as int, s.regs[x as int] | s.regs[y as int]),
            ..s
        }),
        Instr::AndReg(x, y) => r is Ok && post == (MachineView {
            regs: s.regs.update(x as int, s.regs[x as int] & s.regs[y as int]),
            ..s
        }),
        Instr::XorReg(x, y) => r is Ok && post == (MachineView {
            regs: s.regs.update(x as int, s.regs[x as int] ^ s.regs[y as int]),
            ..s
        }),
        Instr::AddReg(x, y) => r is Ok && post == (MachineView {
            regs: s.regs.update(
                x as int,
                u8_specs::wrapping_add(s.regs[x as int], s.regs[y as int]),
            ).update(
                15,
                if s.regs[x as int] + s.regs[y as int] > 0xff {
                    1u8
                } else {
                    0u8
                },
            ),
            ..s
        }),
        Instr::SubReg(x, y) => r is Ok && post == (MachineView {
            regs: s.regs.update(
                x as int,
                u8_specs::wrapping_sub(s.regs[x as int], s.regs[y as int]),
            ).update(
                15,
                if s.regs[x as int] >= s.regs[y as int] {
                    1u8
                } else {
                    0u8
                },
            ),
            ..s
        }),
        Instr::ShrReg(x, y) => {
            let src = if s.shift_source_vx {
                s.regs[x as int]
            } else {
                s.regs[y as int]
            };
            r is Ok && post == (MachineView {
                regs: s.regs.update(15, src & 1).update(x as int, src >> 1u8),
                ..s
            })
        },
        Instr::SubnReg(x, y) => r is Ok && post == (MachineView {
            regs: s.regs.update(
                x as int,
                u8_specs::wrapping_sub(s.regs[y as int], s.regs[x as int]),
            ).update(
                15,
                if s.regs[y as int] >= s.regs[x as int] {
                    1u8
                } else {
                    0u8
                },
            ),
            ..s
        }),
        Instr::ShlReg(x, y) => {
            let src = if s.shift_source_vx {
                s.regs[x as int]
            } else {
                s.regs[y as int]
            };
            r is Ok && post == (MachineView {
                regs: s.regs.update(15, src >> 7u8).update(x as int, (src << 1u8) as u8),
                ..s
            })
        },
        Instr::SkipNeReg(x, y) => r is Ok && post == (MachineView {
            pc: if s.regs[x as int] != s.regs[y as int] {
                ((s.pc + 2) as u16)
            } else {
                s.pc
            },
            ..s
        }),
        Instr::StoreI(nnn) => r is Ok && post == (MachineView { i: nnn, ..s }),
        Instr::JumpV0(nnn) => r is Ok && post == (MachineView {
            pc: ((nnn + s.regs[0]) as u16),
            ..s
        }),
        Instr::RandomMask(x, kk) => r is Ok && (exists|b: u8|
            post == (MachineView { regs: s.regs.update(x as int, #[trigger] rand_masked(b, kk)), ..s })),
        Instr::Draw(x, y, n) => {
            if n > 0 && s.i + n > 4096 {
                r == Err::<(), Fault>(Fault::AddressOutOfRange) && post == s
            } else {
                r is Ok && post == draw_result(s, x, y, n)
            }
        },
        Instr::SkipKeyDown(x) => if s.regs[x as int] > 0xf {
            r == Err::<(), Fault>(Fault::KeyOutOfRange) && post == s
        } else {
            r is Ok && post == (MachineView {
                pc: if s.keys[s.regs[x as int] as int] {
                    ((s.pc + 2) as u16)
                } else {
                    s.pc
                },
                ..s
            })
        },
        Instr::SkipKeyUp(x) => if s.regs[x as int] > 0xf {
            r == Err::<(), Fault>(Fault::KeyOutOfRange) && post == s
        } else {
            r is Ok && post == (MachineView {
                pc: if !s.keys[s.regs[x as int] as int] {
                    ((s.pc + 2) as u16)
                } else {
                    s.pc
                },
                ..s
            })
        },
        Instr::StoreDelay(x) => r is Ok && post == (MachineView {
            regs: s.regs.update(x as int, s.delay),
            ..s
        }),
        Instr::WaitKey(x) => if first_key_down(s.keys) < 16 {
            r is Ok && post == (MachineView {
                regs: s.regs.update(x as int, first_key_down(s.keys) as u8),
                ..s
            })
        } else {
            r is Ok && post == (MachineView { waiting: Some(x), ..s })
        },
        Instr::SetDelay(x) => r is Ok && post == (MachineView { delay: s.regs[x as int], ..s }),
        Instr::SetSound(x) => r is Ok && post == (MachineView { sound: s.regs[x as int], ..s }),
        Instr::AddI(x) => r is Ok && post == (MachineView {
            i: u16_specs::wrapping_add(s.i, s.regs[x as int] as u16),
            ..s
        }),
        Instr::DigitSprite(x) => r is Ok && post == (MachineView {
            i: ((0x50 + s.regs[x as int] * 5) as u16),
            ..s
        }),
        Instr::StoreBcd(x) => if s.i + 2 > 4095 {
            r == Err::<(), Fault>(Fault::AddressOutOfRange) && post == s
        } else {
            let v = s.regs[x as int];
            r is Ok && post == (MachineView {
                mem: s.mem.update(s.i as int, ((v / 100) as u8)).update(
                    s.i as int + 1,
                    (((v / 10) % 10) as u8),
                ).update(s.i as int + 2, ((v % 10) as u8)),
                ..s
            })
        },
        Instr::StoreRegs(x) => if s.i + x > 4095 {
            r == Err::<(), Fault>(Fault::AddressOutOfRange) && post == s
        } else {
            r is Ok && post == (MachineView {
                mem: Seq::new(
                    4096,
                    |j: int|
                        if s.i <= j <= s.i + x {
                            s.regs[j - s.i]
                        } else {
                            s.mem[j]
                        },
                ),
                ..s
            })
        },
        Instr::LoadRegs(x) => if s.i + x > 4095 {
            r == Err::<(), Fault>(Fault::AddressOutOfRange) && post == s
        } else {
            r is Ok && post == (MachineView {
                regs: Seq::new(
                    16,
                    |j: int|
                        if j <= x {
                            s.mem[s.i + j]
                        } else {
                            s.regs[j]
                        },
                ),
                ..s
            })
        },
        Instr::Invalid => r is Ok && post == s,
    }
}

/// One whole instruction step from `pre`: fetch the word at the program
/// counter (a fault if the fetch would leave memory), advance the counter by
/// two, and execute the word.
pub open spec fn step_rel(pre: MachineView, post: MachineView, r: Result<(), Fault>) -> bool {
    if pre.pc > 4094 {
        r == Err::<(), Fault>(Fault::AddressOutOfRange) && post == pre
    } else {
        instr_rel((MachineView { pc: ((pre.pc + 2) as u16), ..pre }), fetch_word(pre), post, r)
    }
}

/// One successful instruction step.
pub open spec fn step_ok(pre: MachineView, mid: MachineView) -> bool {
    step_rel(pre, mid, Ok(()))
}

/// One faulting instruction step.
pub open spec fn step_err(pre: MachineView, post: MachineView, r: Result<(), Fault>) -> bool {
    r is Err && step_rel(pre, post, r)
}

/// Running up to `n` instruction steps: while the machine is not suspended
/// waiting for a key, steps execute in order; the first fault stops the run;
/// once the machine suspends, the remaining steps do nothing.
pub open spec fn run_rel(pre: MachineView, post: MachineView, n: nat, r: Result<(), Fault>) -> bool
    decreases n,
{
    if n == 0 {
        post == pre && r is Ok
    } else if pre.waiting is Some {
        post == pre && r is Ok
    } else {
        (exists|mid: MachineView| #[trigger] step_ok(pre, mid) && run_rel(mid, post, (n - 1) as nat, r))
            || step_err(pre, post, r)
    }
}

/// A successful run of `j` steps followed by one more successful step is a
/// successful run of `j + 1` steps.
pub proof fn lemma_run_extend_ok(a: MachineView, b: MachineView, c: MachineView, j: nat)
    requires
        run_rel(a, b, j, Ok(())),
        b.waiting is None,
        step_rel(b, c, Ok(())),
    ensures
        run_rel(a, c, j + 1, Ok(())),
    decreases j,
{
    assert(step_ok(b, c));
    if j == 0 {
        assert(b == a);
        assert(run_rel(c, c, 0, Ok(())));
    } else {
        if a.waiting is Some {
            assert(b == a);
            assert(false);
        } else {
            assert(!step_err(a, b, Ok::<(), Fault>(())));
            let mid = choose|mid: MachineView|
                #[trigger] step_ok(a, mid) && run_rel(mid, b, (j - 1) as nat, Ok(()));
            assert(step_ok(a, mid) && run_rel(mid, b, (j - 1) as nat, Ok(())));
            lemma_run_extend_ok(mid, b, c, (j - 1) as nat);
        }
    }
}

/// A successful run of `j` steps followed by a faulting step is a faulting
/// run of any larger step budget `n`: the fault stops the run early.
pub proof fn lemma_run_extend_err(
    a: MachineView,
    b: MachineView,
    c: MachineView,
    j: nat,
    n: nat,
    f: Fault,
)
    requires
        run_rel(a, b, j, Ok(())),
        b.waiting is None,
        step_rel(b, c, Err(f)),
        j < n,
    ensures
        run_rel(a, c, n, Err(f)),
    decreases j,
{
    assert(step_err(b, c, Err::<(), Fault>(f)));
    if j == 0 {
        assert(b == a);
    } else {
        if a.waiting is Some {
            assert(b == a);
            assert(false);
        } else {
            assert(!step_err(a, b, Ok::<(), Fault>(())));
            let mid = choose|mid: MachineView|
                #[trigger] step_ok(a, mid) && run_rel(mid, b, (j - 1) as nat, Ok(()));
            assert(step_ok(a, mid) && run_rel(mid, b, (j - 1) as nat, Ok(())));
            lemma_run_extend_err(mid, b, c, (j - 1) as nat, (n - 1) as nat, f);
        }
    }
}

/// Once a successful run reaches a state suspended on a key, any larger step
/// budget reaches the same state: the remaining steps do nothing.
pub proof fn lemma_run_absorb_waiting(a: MachineView, b: MachineView, j: nat, n: nat)
    requires
        run_rel(a, b, j, Ok(())),
        b.waiting is Some,
        j <= n,
    ensures
        run_rel(a, b, n, Ok(())),
    decreases j,
{
    if j == 0 {
        assert(b == a);
    } else {
        if a.waiting is Some {
            assert(b == a);
        } else {
            assert(!step_err(a, b, Ok::<(), Fault>(())));
            let mid = choose|mid: MachineView|
                #[trigger] step_ok(a, mid) && run_rel(mid, b, (j - 1) as nat, Ok(()));
            assert(step_ok(a, mid) && run_rel(mid, b, (j - 1) as nat, Ok(())));
            lemma_run_absorb_waiting(mid, b, (j - 1) as nat, (n - 1) as nat);
        }
    }
}

} // verus!
