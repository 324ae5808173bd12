//! Mathematical model of the CHIP-8 interpreter core: the machine state as a
//! ghost record of sequences and scalars, and a step function giving the exact
//! semantics of every instruction.

use vstd::prelude::*;

verus! {

/// Size of the addressable memory image in bytes.
pub const MEM_SIZE: usize = 0xFFF;

/// Address at which a program is loaded and at which execution starts.
pub const PC_START: u16 = 0x200;

/// Maximum number of return addresses the call stack may hold.
pub const STACK_LIMIT: usize = 16;

/// Number of general-purpose registers V0..VF.
pub const NUM_REGS: usize = 16;

/// Number of bytes of the built-in font (16 glyphs of 5 bytes each).
pub const FONTSET_SIZE: usize = 80;

/// Width of the monochrome display in pixels.
pub const SCREEN_WIDTH: usize = 64;

/// Height of the monochrome display in pixels.
pub const SCREEN_HEIGHT: usize = 32;

/// Total number of display pixels; the display is stored row-major, so the
/// pixel at column `x` of row `y` sits at index `y * SCREEN_WIDTH + x`.
pub const NUM_PIXELS: usize = 2048;

/// The error conditions the core reports to its host.
#[derive(Clone, Copy, PartialEq, Eq, Structural, Debug)]
pub enum Chip8Error {
    /// A load or an executed instruction would touch memory outside the image.
    OutOfBounds,
    /// The fetched opcode matches no instruction of the set.
    InvalidOpcode,
    /// A call was made with a full stack, or a return with an empty one.
    StackFault,
}

/// The abstract state of the machine: what the contracts speak of.
#[verifier::ext_equal]
pub ghost struct CpuView {
    /// The 4095-byte memory image.
    pub memory: Seq<u8>,
    /// The sixteen 8-bit registers V0..VF.
    pub v: Seq<u8>,
    /// The call stack of return addresses, most recent last.
    pub stack: Seq<u16>,
    /// The 64x32 pixel grid, row-major.
    pub display: Seq<bool>,
    /// The 16-bit index register I.
    pub i: u16,
    /// The delay timer.
    pub dt: u8,
    /// The sound timer.
    pub st: u8,
    /// The program counter.
    pub pc: u16,
    /// The state of the pseudo-random generator used by the random opcode.
    pub rng: u16,
}

impl CpuView {
    /// Structural well-formedness: the fixed sizes of the state components.
    pub open spec fn wf(self) -> bool {
        &&& self.memory.len() == MEM_SIZE
        &&& self.v.len() == NUM_REGS
        &&& self.stack.len() <= STACK_LIMIT
        &&& self.display.len() == NUM_PIXELS
    }
}

/// The built-in bitmap font: one 5-byte glyph per hexadecimal digit.
pub open spec fn font_seq() -> Seq<u8> {
    seq![
        0xF0u8, 0x90u8, 0x90u8, 0x90u8, 0xF0u8, // 0
        0x20u8, 0x60u8, 0x20u8, 0x20u8, 0x70u8, // 1
        0xF0u8, 0x10u8, 0xF0u8, 0x80u8, 0xF0u8, // 2
        0xF0u8, 0x10u8, 0xF0u8, 0x10u8, 0xF0u8, // 3
        0x90u8, 0x90u8, 0xF0u8, 0x10u8, 0x10u8, // 4
        0xF0u8, 0x80u8, 0xF0u8, 0x10u8, 0xF0u8, // 5
        0xF0u8, 0x80u8, 0xF0u8, 0x90u8, 0xF0u8, // 6
        0xF0u8, 0x10u8, 0x20u8, 0x40u8, 0x40u8, // 7
        0xF0u8, 0x90u8, 0xF0u8, 0x90u8, 0xF0u8, // 8
        0xF0u8, 0x90u8, 0xF0u8, 0x10u8, 0xF0u8, // 9
        0xF0u8, 0x90u8, 0xF0u8, 0x90u8, 0x90u8, // A
        0xE0u8, 0x90u8, 0xE0u8, 0x90u8, 0xE0u8, // B
        0xF0u8, 0x80u8, 0x80u8, 0x80u8, 0xF0u8, // C
        0xE0u8, 0x90u8, 0x90u8, 0x90u8, 0xE0u8, // D
        0xF0u8, 0x80u8, 0xF0u8, 0x80u8, 0xF0u8, // E
        0xF0u8, 0x80u8, 0xF0u8, 0x80u8, 0x80u8, // F
    ]
}

/// An all-off display.
pub open spec fn blank_display() -> Seq<bool> {
    Seq::new(NUM_PIXELS as nat, |k: int| false)
}

/// The state a freshly constructed core is in: font in memory, all else zero.
pub open spec fn init_view() -> CpuView {
    CpuView {
        memory: Seq::new(MEM_SIZE as nat, |k: int| if k < FONTSET_SIZE { font_seq()[k] } else { 0u8 }),
        v: Seq::new(NUM_REGS as nat, |j: int| 0u8),
        stack: Seq::empty(),
        display: blank_display(),
        i: 0u16,
        dt: 0u8,
        st: 0u8,
        pc: PC_START,
        rng: 0u16,
    }
}

/// What loading a ROM does: splice the bytes in at the load address, or
/// reject a ROM that does not fit, leaving the state untouched.
pub open spec fn load_spec(s: CpuView, data: Seq<u8>) -> Result<CpuView, Chip8Error> {
    if data.len() > MEM_SIZE - PC_START {
        Err(Chip8Error::OutOfBounds)
    } else {
        Ok(CpuView {
            memory: Seq::new(MEM_SIZE as nat, |k: int| {
                if PC_START <= k < PC_START + data.len() {
                    data[k - PC_START]
                } else {
                    s.memory[k]
                }
            }),
            ..s
        })
    }
}

/// One decrement of a countdown timer: toward zero, floored at zero.
pub open spec fn dec_timer(t: u8) -> u8 {
    if t > 0 {
        (t - 1) as u8
    } else {
        0u8
    }
}

/// The successor of the pseudo-random generator state (a 16-bit linear
/// congruential generator).
pub open spec fn rng_next(r: u16) -> u16 {
    ((r as int * 25173 + 13849) % 0x10000) as u16
}

/// The byte drawn from a generator state.
pub open spec fn rand_byte(r: u16) -> u8 {
    (r / 256) as u8
}

/// 128, 64, .., 1: the place value of sprite column `col` within a sprite
/// row byte (column 0 is the most significant bit).
pub open spec fn sprite_place(col: int) -> int {
    if col == 0 {
        128
    } else if col == 1 {
        64
    } else if col == 2 {
        32
    } else if col == 3 {
        16
    } else if col == 4 {
        8
    } else if col == 5 {
        4
    } else if col == 6 {
        2
    } else {
        1
    }
}

/// Whether sprite column `col` of row byte `b` is on.
pub open spec fn sprite_bit(b: u8, col: int) -> bool {
    (b as int / sprite_place(col)) % 2 == 1
}

/// Whether display pixel `k` is written by a sprite of height `n` drawn at
/// `(x0, y0)` from memory address `i`, with wrap-around at the screen edges.
pub open spec fn covered(mem: Seq<u8>, i: int, x0: int, y0: int, n: int, k: int) -> bool {
    let row = (k / 64 + 32 - y0) % 32;
    let col = (k % 64 + 64 - x0) % 64;
    row < n && col < 8 && sprite_bit(mem[i + row], col)
}

/// The display after XOR-compositing the sprite onto `d`.
pub open spec fn draw_display(d: Seq<bool>, mem: Seq<u8>, i: int, x0: int, y0: int, n: int) -> Seq<
    bool,
> {
    Seq::new(NUM_PIXELS as nat, |k: int| {
        if covered(mem, i, x0, y0, n, k) {
            !d[k]
        } else {
            d[k]
        }
    })
}

/// Whether the draw turns any lit pixel off (the collision condition that
/// sets VF).
pub open spec fn draw_collision(d: Seq<bool>, mem: Seq<u8>, i: int, x0: int, y0: int, n: int) -> bool {
    exists|k: int| 0 <= k < NUM_PIXELS && #[trigger] covered(mem, i, x0, y0, n, k) && d[k]
}

/// The opcode in memory at the program counter, composed big-endian.
pub open spec fn opcode_at(s: CpuView) -> u16 {
    (s.memory[s.pc as int] as int * 256 + s.memory[s.pc as int + 1] as int) as u16
}

/// `s` with the program counter moved past one instruction.
pub open spec fn adv(s: CpuView) -> CpuView {
    CpuView { pc: (s.pc + 2) as u16, ..s }
}

/// The effect of executing opcode `op` on state `s`: the next state, or the
/// error the instruction raises. The program counter of `s` still points at
/// `op`; every instruction accounts for its own advance.
pub open spec fn exec_op(s: CpuView, op: u16) -> Result<CpuView, Chip8Error> {
    let d1 = op / 0x1000;
    let x = ((op / 0x100) % 0x10) as int;
    let y = ((op / 0x10) % 0x10) as int;
    let d4 = op % 0x10;
    let nn = (op % 0x100) as u8;
    let nnn = op % 0x1000;
    let sn = adv(s);
    if op == 0x00E0 {
        Ok(CpuView { display: blank_display(), ..sn })
    } else if op == 0x00EE {
        if s.stack.len() == 0 {
            Err(Chip8Error::StackFault)
        } else {
            Ok(CpuView { pc: s.stack.last(), stack: s.stack.drop_last(), ..s })
        }
    } else if d1 == 1 {
        Ok(CpuView { pc: nnn, ..s })
    } else if d1 == 2 {
        if s.stack.len() >= STACK_LIMIT {
            Err(Chip8Error::StackFault)
        } else {
            Ok(CpuView { pc: nnn, stack: s.stack.push(sn.pc), ..s })
        }
    } else if d1 == 3 {
        Ok(if s.v[x] == nn { adv(sn) } else { sn })
    } else if d1 == 4 {
        Ok(if s.v[x] != nn { adv(sn) } else { sn })
    } else if d1 == 5 {
        if d4 == 0 {
            Ok(if s.v[x] == s.v[y] { adv(sn) } else { sn })
        } else {
            Err(Chip8Error::InvalidOpcode)
        }
    } else if d1 == 6 {
        Ok(CpuView { v: s.v.update(x, nn), ..sn })
    } else if d1 == 7 {
        // Add-immediate wraps modulo 256 and, unlike register-to-register
        // add, deliberately leaves VF alone.
        Ok(CpuView { v: s.v.update(x, ((s.v[x] + nn) % 256) as u8), ..sn })
    } else if d1 == 8 {
        if d4 == 0 {
            Ok(CpuView { v: s.v.update(x, s.v[y]), ..sn })
        } else if d4 == 1 {
            Ok(CpuView { v: s.v.update(x, s.v[x] | s.v[y]), ..sn })
        } else if d4 == 2 {
            Ok(CpuView { v: s.v.update(x, s.v[x] & s.v[y]), ..sn })
        } else if d4 == 3 {
            Ok(CpuView { v: s.v.update(x, s.v[x] ^ s.v[y]), ..sn })
        } else if d4 == 4 {
            let sum = s.v[x] + s.v[y];
            let flag: u8 = if sum >= 256 { 1u8 } else { 0u8 };
            Ok(CpuView { v: s.v.update(x, (sum % 256) as u8).update(15, flag), ..sn })
        } else if d4 == 5 {
            let flag: u8 = if s.v[x] >= s.v[y] { 1u8 } else { 0u8 };
            Ok(
                CpuView {
                    v: s.v.update(x, ((s.v[x] - s.v[y] + 256) % 256) as u8).update(15, flag),
                    ..sn
                },
            )
        } else if d4 == 6 {
            // Shift policy: VX itself is shifted (not copied from VY first),
            // and VF receives the bit that fell off.
            let flag: u8 = (s.v[x] % 2) as u8;
            Ok(CpuView { v: s.v.update(x, (s.v[x] / 2) as u8).update(15, flag), ..sn })
        } else if d4 == 7 {
            let flag: u8 = if s.v[y] >= s.v[x] { 1u8 } else { 0u8 };
            Ok(
                CpuView {
                    v: s.v.update(x, ((s.v[y] - s.v[x] + 256) % 256) as u8).update(15, flag),
                    ..sn
                },
            )
        } else if d4 == 0xE {
            let flag: u8 = (s.v[x] / 128) as u8;
            Ok(CpuView { v: s.v.update(x, ((s.v[x] * 2) % 256) as u8).update(15, flag), ..sn })
        } else {
            Err(Chip8Error::InvalidOpcode)
        }
    } else if d1 == 9 {
        if d4 == 0 {
            Ok(if s.v[x] != s.v[y] { adv(sn) } else { sn })
        } else {
            Err(Chip8Error::InvalidOpcode)
        }
    } else if d1 == 0xA {
        Ok(CpuView { i: nnn, ..sn })
    } else if d1 == 0xB {
        Ok(CpuView { pc: (nnn + s.v[0]) as u16, ..s })
    } else if d1 == 0xC {
        let r2 = rng_next(s.rng);
        Ok(CpuView { v: s.v.update(x, rand_byte(r2) & nn), rng: r2, ..sn })
    } else if d1 == 0xD {
        let x0 = s.v[x] % 64;
        let y0 = s.v[y] % 32;
        let n = d4 as int;
        if n > 0 && s.i + n > MEM_SIZE {
            Err(Chip8Error::OutOfBounds)
        } else {
            let hit = draw_collision(s.display, s.memory, s.i as int, x0 as int, y0 as int, n);
            Ok(
                CpuView {
                    display: draw_display(s.display, s.memory, s.i as int, x0 as int, y0 as int, n),
                    v: s.v.update(15, if hit { 1u8 } else { 0u8 }),
                    ..sn
                },
            )
        }
    } else if d1 == 0xE {
        // No key source crosses the core's interface, so no key is ever down:
        // skip-if-key-down never skips, skip-if-key-up always skips.
        if nn == 0x9E {
            Ok(sn)
        } else if nn == 0xA1 {
            Ok(adv(sn))
        } else {
            Err(Chip8Error::InvalidOpcode)
        }
    } else if d1 == 0xF {
        if nn == 0x07 {
            Ok(CpuView { v: s.v.update(x, s.dt), ..sn })
        } else if nn == 0x0A {
            // Wait for a key press: with no key source, the instruction
            // repeats, leaving the state as it is.
            Ok(s)
        } else if nn == 0x15 {
            Ok(CpuView { dt: s.v[x], ..sn })
        } else if nn == 0x18 {
            Ok(CpuView { st: s.v[x], ..sn })
        } else if nn == 0x1E {
            Ok(CpuView { i: ((s.i + s.v[x]) % 0x10000) as u16, ..sn })
        } else if nn == 0x29 {
            Ok(CpuView { i: (5 * (s.v[x] % 16)) as u16, ..sn })
        } else if nn == 0x33 {
            if s.i + 2 >= MEM_SIZE {
                Err(Chip8Error::OutOfBounds)
            } else {
                let m1 = s.memory.update(s.i as int, (s.v[x] / 100) as u8);
                let m2 = m1.update(s.i as int + 1, ((s.v[x] / 10) % 10) as u8);
                let m3 = m2.update(s.i as int + 2, (s.v[x] % 10) as u8);
                Ok(CpuView { memory: m3, ..sn })
            }
        } else if nn == 0x55 {
            // Register dump and load leave the index register unchanged.
            if s.i + x >= MEM_SIZE {
                Err(Chip8Error::OutOfBounds)
            } else {
                Ok(
                    CpuView {
                        memory: Seq::new(MEM_SIZE as nat, |k: int| {
                            if s.i <= k <= s.i + x {
                                s.v[k - s.i]
                            } else {
                                s.memory[k]
                            }
                        }),
                        ..sn
                    },
                )
            }
        } else if nn == 0x65 {
            if s.i + x >= MEM_SIZE {
                Err(Chip8Error::OutOfBounds)
            } else {
                Ok(
                    CpuView {
                        v: Seq::new(NUM_REGS as nat, |j: int| {
                            if j <= x {
                                s.memory[s.i + j]
                            } else {
                                s.v[j]
                            }
                        }),
                        ..sn
                    },
                )
            }
        } else {
            Err(Chip8Error::InvalidOpcode)
        }
    } else {
        Err(Chip8Error::InvalidOpcode)
    }
}

/// One full execution step: fetch the opcode under the program counter and
/// execute it. A program counter too near the end of memory to hold an
/// instruction is an out-of-bounds fetch.
pub open spec fn step(s: CpuView) -> Result<CpuView, Chip8Error> {
    if s.pc + 1 >= MEM_SIZE {
        Err(Chip8Error::OutOfBounds)
    } else {
        exec_op(s, opcode_at(s))
    }
}

} // verus!
