//! The executable interpreter core, verified against the model in `state`.

use vstd::prelude::*;

use crate::state::{
    blank_display, covered, dec_timer, draw_collision, draw_display, exec_op, font_seq, init_view,
    load_spec, opcode_at, rng_next, sprite_place, step, Chip8Error, CpuView, FONTSET_SIZE,
    MEM_SIZE, NUM_PIXELS, NUM_REGS, PC_START, STACK_LIMIT,
};

verus! {

/// The CHIP-8 machine: memory image, registers, call stack, timers and the
/// monochrome framebuffer. The host constructs it once, loads a ROM, then
/// drives it through `tick` and `decrement_timers` and renders what
/// `get_display` returns.
pub struct Cpu {
    memory: Vec<u8>,
    v_reg: Vec<u8>,
    stack: Vec<u16>,
    display: Vec<bool>,
    i_reg: u16,
    dt_reg: u8,
    st_reg: u8,
    pc: u16,
    rng: u16,
}

impl View for Cpu {
    type V = CpuView;

    closed spec fn view(&self) -> CpuView {
        CpuView {
            memory: self.memory@,
            v: self.v_reg@,
            stack: self.stack@,
            display: self.display@,
            i: self.i_reg,
            dt: self.dt_reg,
            st: self.st_reg,
            pc: self.pc,
            rng: self.rng,
        }
    }
}

impl Cpu {
    /// The machine is well formed: all state components have their fixed sizes.
    pub open spec fn wf(&self) -> bool {
        self@.wf()
    }

    /// Construct a fresh core: the font in the low bytes of memory, the
    /// program counter at the load address, everything else zeroed.
    #[verifier::loop_isolation(false)]
    pub fn new() -> (c: Self)
        ensures
            c.wf(),
            c@ == init_view(),
    {
        let mut memory: Vec<u8> = vec![0u8; MEM_SIZE];
        let font: [u8; FONTSET_SIZE] = [
            0xF0, 0x90, 0x90, 0x90, 0xF0, // 0
            0x20, 0x60, 0x20, 0x20, 0x70, // 1
            0xF0, 0x10, 0xF0, 0x80, 0xF0, // 2
            0xF0, 0x10, 0xF0, 0x10, 0xF0, // 3
            0x90, 0x90, 0xF0, 0x10, 0x10, // 4
            0xF0, 0x80, 0xF0, 0x10, 0xF0, // 5
            0xF0, 0x80, 0xF0, 0x90, 0xF0, // 6
            0xF0, 0x10, 0x20, 0x40, 0x40, // 7
            0xF0, 0x90, 0xF0, 0x90, 0xF0, // 8
            0xF0, 0x90, 0xF0, 0x10, 0xF0, // 9
            0xF0, 0x90, 0xF0, 0x90, 0x90, // A
            0xE0, 0x90, 0xE0, 0x90, 0xE0, // B
            0xF0, 0x80, 0x80, 0x80, 0xF0, // C
            0xE0, 0x90, 0x90, 0x90, 0xE0, // D
            0xF0, 0x80, 0xF0, 0x80, 0xF0, // E
            0xF0, 0x80, 0xF0, 0x80, 0x80, // F
        ];
        proof {
            assert(font@ =~= font_seq());
        }
        for k in 0..FONTSET_SIZE
            invariant
                memory@.len() == MEM_SIZE,
                forall|j: int| 0 <= j < k ==> memory@[j] == font_seq()[j],
                forall|j: int| k <= j < MEM_SIZE ==> memory@[j] == 0u8,
        {
            memory[k] = font[k];
        }
        let cpu = Cpu {
            memory,
            v_reg: vec![0u8; NUM_REGS],
            stack: Vec::new(),
            display: vec![false; NUM_PIXELS],
            i_reg: 0,
            dt_reg: 0,
            st_reg: 0,
            pc: PC_START,
            rng: 0,
        };
        proof {
            assert(cpu@.memory =~= init_view().memory);
            assert(cpu@.v =~= init_view().v);
            assert(cpu@.stack =~= init_view().stack);
            assert(cpu@.display =~= init_view().display);
            assert(cpu@ =~~= init_view());
        }
        cpu
    }

    /// Copy a ROM into memory at the load address. A ROM longer than the
    /// space from the load address to the end of memory is rejected and the
    /// state is left untouched; registers, stack and display are never
    /// affected, so a program may be reloaded over an earlier one.
    #[verifier::loop_isolation(false)]
    pub fn load(&mut self, data: &[u8]) -> (r: Result<(), Chip8Error>)
        requires
            old(self).wf(),
        ensures
            final(self).wf(),
            ({
                match load_spec(old(self)@, data@) {
                    Ok(s2) => r is Ok && final(self)@ == s2,
                    Err(e) => r == Err::<(), Chip8Error>(e) && final(self)@ == old(self)@,
                }
            }),
    {
        let ghost s0: CpuView = self@;
        if data.len() > MEM_SIZE - (PC_START as usize) {
            return Err(Chip8Error::OutOfBounds);
        }
        let start = PC_START as usize;
        for j in 0..data.len()
            invariant
                self@.memory.len() == MEM_SIZE,
                self@.v == s0.v,
                self@.stack == s0.stack,
                self@.display == s0.display,
                self@.i == s0.i,
                self@.dt == s0.dt,
                self@.st == s0.st,
                self@.pc == s0.pc,
                self@.rng == s0.rng,
                forall|t: int| 0 <= t < j ==> self@.memory[start + t] == data@[t],
                forall|t: int|
                    0 <= t < MEM_SIZE && !(start <= t < start + j) ==> self@.memory[t]
                        == s0.memory[t],
        {
            self.memory[start + j] = data[j];
        }
        proof {
            let s2 = match load_spec(s0, data@) {
                Ok(t) => t,
                Err(_) => s0,
            };
            assert(self@.memory =~= s2.memory);
            assert(self@ =~~= s2);
        }
        Ok(())
    }

    /// Push a return address; a full stack is a fault and leaves the state
    /// unchanged.
    fn push(&mut self, val: u16) -> (r: Result<(), Chip8Error>)
        requires
            old(self).wf(),
        ensures
            final(self).wf(),
            old(self)@.stack.len() < STACK_LIMIT ==> r is Ok && final(self)@ == (CpuView {
                stack: old(self)@.stack.push(val),
                ..old(self)@
            }),
            old(self)@.stack.len() >= STACK_LIMIT ==> r == Err::<(), Chip8Error>(
                Chip8Error::StackFault,
            ) && final(self)@ == old(self)@,
    {
        if self.stack.len() < STACK_LIMIT {
            self.stack.push(val);
            Ok(())
        } else {
            Err(Chip8Error::StackFault)
        }
    }

    /// Pop a return address; an empty stack is a fault and leaves the state
    /// unchanged.
    fn pop(&mut self) -> (r: Result<u16, Chip8Error>)
        requires
            old(self).wf(),
        ensures
            final(self).wf(),
            old(self)@.stack.len() > 0 ==> r == Ok::<u16, Chip8Error>(old(self)@.stack.last())
                && final(self)@ == (CpuView { stack: old(self)@.stack.drop_last(), ..old(self)@ }),
            old(self)@.stack.len() == 0 ==> r == Err::<u16, Chip8Error>(Chip8Error::StackFault)
                && final(self)@ == old(self)@,
    {
        if self.stack.len() == 0 {
            return Err(Chip8Error::StackFault);
        }
        match self.stack.pop() {
            Some(a) => Ok(a),
            None => Err(Chip8Error::StackFault),
        }
    }

    /// Read the two bytes under the program counter as one big-endian opcode.
    /// The program counter itself is not moved here: each instruction
    /// accounts for its own advance during execution.
    fn fetch(&self) -> (r: Result<u16, Chip8Error>)
        requires
            self.wf(),
        ensures
            self@.pc + 1 < MEM_SIZE ==> r == Ok::<u16, Chip8Error>(opcode_at(self@)),
            self@.pc + 1 >= MEM_SIZE ==> r == Err::<u16, Chip8Error>(Chip8Error::OutOfBounds),
    {
        let pc = self.pc as usize;
        if pc + 1 >= MEM_SIZE {
            return Err(Chip8Error::OutOfBounds);
        }
        let hi = self.memory[pc] as u16;
        let lo = self.memory[pc + 1] as u16;
        Ok(hi * 256 + lo)
    }

    /// Perform one fetch/decode/execute cycle, the unit of execution the
    /// host drives. On any error the state is left exactly as it was.
    pub fn tick(&mut self) -> (r: Result<(), Chip8Error>)
        requires
            old(self).wf(),
        ensures
            final(self).wf(),
            ({
                match step(old(self)@) {
                    Ok(s2) => r is Ok && final(self)@ == s2,
                    Err(e) => r == Err::<(), Chip8Error>(e) && final(self)@ == old(self)@,
                }
            }),
    {
        match self.fetch() {
            Err(e) => Err(e),
            Ok(op) => self.decode_and_execute(op),
        }
    }

    /// Decrement both timers toward zero, floored at zero. Invoked by the
    /// host at its fixed timer cadence, independently of `tick`.
    pub fn decrement_timers(&mut self)
        requires
            old(self).wf(),
        ensures
            final(self).wf(),
            final(self)@ == (CpuView {
                dt: dec_timer(old(self)@.dt),
                st: dec_timer(old(self)@.st),
                ..old(self)@
            }),
    {
        if self.dt_reg > 0 {
            self.dt_reg = self.dt_reg - 1;
        }
        if self.st_reg > 0 {
            self.st_reg = self.st_reg - 1;
        }
    }

    /// A read-only view of the 64x32 pixel grid, row-major: the pixel at
    /// column `x` of row `y` is at index `y * SCREEN_WIDTH + x`.
    pub fn get_display(&self) -> (r: &Vec<bool>)
        ensures
            r@ == self@.display,
    {
        &self.display
    }

    /// One pixel of the display.
    pub fn get_pixel(&self, x: usize, y: usize) -> (r: bool)
        requires
            self.wf(),
            x < 64,
            y < 32,
        ensures
            r == self@.display[y * 64 + x],
    {
        self.display[y * 64 + x]
    }

    /// One general-purpose register.
    pub fn get_v(&self, j: usize) -> (r: u8)
        requires
            self.wf(),
            j < NUM_REGS,
        ensures
            r == self@.v[j as int],
    {
        self.v_reg[j]
    }

    /// The program counter.
    pub fn get_pc(&self) -> (r: u16)
        ensures
            r == self@.pc,
    {
        self.pc
    }

    /// The index register I.
    pub fn get_i(&self) -> (r: u16)
        ensures
            r == self@.i,
    {
        self.i_reg
    }

    /// The delay timer.
    pub fn get_dt(&self) -> (r: u8)
        ensures
            r == self@.dt,
    {
        self.dt_reg
    }

    /// The sound timer.
    pub fn get_st(&self) -> (r: u8)
        ensures
            r == self@.st,
    {
        self.st_reg
    }

    /// The number of return addresses on the call stack.
    pub fn stack_depth(&self) -> (r: usize)
        ensures
            r == self@.stack.len(),
    {
        self.stack.len()
    }

    /// One byte of the memory image.
    pub fn read_mem(&self, addr: usize) -> (r: u8)
        requires
            self.wf(),
            addr < MEM_SIZE,
        ensures
            r == self@.memory[addr as int],
    {
        self.memory[addr]
    }

    /// Draw the `n`-byte sprite at memory address I at screen position
    /// `(VX mod 64, VY mod 32)`, XOR-compositing with wrap-around at the
    /// screen edges, and set VF to 1 exactly when a lit pixel is turned off.
    #[verifier::loop_isolation(false)]
    fn exec_draw(&mut self, x: usize, y: usize, n: usize) -> (r: Result<(), Chip8Error>)
        requires
            old(self).wf(),
            x < NUM_REGS,
            y < NUM_REGS,
            n <= 15,
            old(self)@.pc <= MEM_SIZE - 2,
        ensures
            final(self).wf(),
            ({
                let s = old(self)@;
                let x0 = (s.v[x as int] % 64) as int;
                let y0 = (s.v[y as int] % 32) as int;
                if n > 0 && s.i + n > MEM_SIZE {
                    r == Err::<(), Chip8Error>(Chip8Error::OutOfBounds) && final(self)@ == s
                } else {
                    let hit = draw_collision(s.display, s.memory, s.i as int, x0, y0, n as int);
                    r is Ok && final(self)@ == (CpuView {
                        display: draw_display(s.display, s.memory, s.i as int, x0, y0, n as int),
                        v: s.v.update(15, if hit { 1u8 } else { 0u8 }),
                        pc: (s.pc + 2) as u16,
                        ..s
                    })
                }
            }),
    {
        let ghost s0: CpuView = self@;
        if n > 0 && self.i_reg as usize + n > MEM_SIZE {
            return Err(Chip8Error::OutOfBounds);
        }
        let x0 = (self.v_reg[x] % 64) as usize;
        let y0 = (self.v_reg[y] % 32) as usize;
        let i = self.i_reg as usize;
        let ghost d0 = self.display@;
        let mut hit = false;
        for k in 0..NUM_PIXELS
            invariant
                self@.memory == s0.memory,
                self@.v == s0.v,
                self@.stack == s0.stack,
                self@.i == s0.i,
                self@.dt == s0.dt,
                self@.st == s0.st,
                self@.pc == s0.pc,
                self@.rng == s0.rng,
                self@.display.len() == NUM_PIXELS,
                forall|t: int|
                    0 <= t < k ==> self@.display[t] == (if covered(
                        s0.memory,
                        i as int,
                        x0 as int,
                        y0 as int,
                        n as int,
                        t,
                    ) {
                        !d0[t]
                    } else {
                        d0[t]
                    }),
                forall|t: int| k <= t < NUM_PIXELS ==> self@.display[t] == d0[t],
                hit == exists|t: int|
                    0 <= t < k && #[trigger] covered(
                        s0.memory,
                        i as int,
                        x0 as int,
                        y0 as int,
                        n as int,
                        t,
                    ) && d0[t],
        {
            let py = k / 64;
            let px = k % 64;
            let row = (py + 32 - y0) % 32;
            let col = (px + 64 - x0) % 64;
            if row < n && col < 8 {
                let byte = self.memory[i + row];
                let mask: u8 = if col == 0 {
                    128
                } else if col == 1 {
                    64
                } else if col == 2 {
                    32
                } else if col == 3 {
                    16
                } else if col == 4 {
                    8
                } else if col == 5 {
                    4
                } else if col == 6 {
                    2
                } else {
                    1
                };
                proof {
                    assert(mask as int == sprite_place(col as int));
                }
                if (byte / mask) % 2 == 1 {
                    proof {
                        assert(covered(s0.memory, i as int, x0 as int, y0 as int, n as int, k as int));
                    }
                    let cur = self.display[k];
                    if cur {
                        hit = true;
                    }
                    self.display[k] = !cur;
                } else {
                    proof {
                        assert(!covered(s0.memory, i as int, x0 as int, y0 as int, n as int, k as int));
                    }
                }
            } else {
                proof {
                    assert(!covered(s0.memory, i as int, x0 as int, y0 as int, n as int, k as int));
                }
            }
        }
        self.v_reg[15] = if hit {
            1
        } else {
            0
        };
        self.pc = self.pc + 2;
        proof {
            assert(hit == draw_collision(d0, s0.memory, i as int, x0 as int, y0 as int, n as int));
            assert(self@.display =~= draw_display(
                d0,
                s0.memory,
                i as int,
                x0 as int,
                y0 as int,
                n as int,
            ));
        }
        Ok(())
    }

    /// Split the opcode into its nibble pattern and carry out the matching
    /// instruction; a pattern outside the instruction set is rejected and
    /// the state is left exactly as it was.
    #[verifier::loop_isolation(false)]
    #[verifier::rlimit(60)]
    fn decode_and_execute(&mut self, op: u16) -> (r: Result<(), Chip8Error>)
        requires
            old(self).wf(),
            old(self)@.pc <= MEM_SIZE - 2,
        ensures
            final(self).wf(),
            ({
                match exec_op(old(self)@, op) {
                    Ok(s2) => r is Ok && final(self)@ == s2,
                    Err(e) => r == Err::<(), Chip8Error>(e) && final(self)@ == old(self)@,
                }
            }),
    {
        let ghost s0: CpuView = self@;
        let d1 = op / 0x1000;
        let x = ((op / 0x100) % 0x10) as usize;
        let y = ((op / 0x10) % 0x10) as usize;
        let d4 = op % 0x10;
        let nn = (op % 0x100) as u8;
        let nnn = op % 0x1000;
        if op == 0x00E0 {
            self.display = vec![false; NUM_PIXELS];
            self.pc = self.pc + 2;
            proof {
                assert(self@.display =~= blank_display());
            }
            Ok(())
        } else if op == 0x00EE {
            match self.pop() {
                Ok(a) => {
                    self.pc = a;
                    Ok(())
                },
                Err(e) => Err(e),
            }
        } else if d1 == 1 {
            self.pc = nnn;
            Ok(())
        } else if d1 == 2 {
            let ret = self.pc + 2;
            match self.push(ret) {
                Ok(_) => {
                    self.pc = nnn;
                    Ok(())
                },
                Err(e) => Err(e),
            }
        } else if d1 == 3 {
            self.pc = self.pc + 2;
            if self.v_reg[x] == nn {
                self.pc = self.pc + 2;
            }
            Ok(())
        } else if d1 == 4 {
            self.pc = self.pc + 2;
            if self.v_reg[x] != nn {
                self.pc = self.pc + 2;
            }
            Ok(())
        } else if d1 == 5 {
            if d4 == 0 {
                self.pc = self.pc + 2;
                if self.v_reg[x] == self.v_reg[y] {
                    self.pc = self.pc + 2;
                }
                Ok(())
            } else {
                Err(Chip8Error::InvalidOpcode)
            }
        } else if d1 == 6 {
            self.v_reg[x] = nn;
            self.pc = self.pc + 2;
            Ok(())
        } else if d1 == 7 {
            let sum = self.v_reg[x] as u16 + nn as u16;
            self.v_reg[x] = (sum % 256) as u8;
            self.pc = self.pc + 2;
            Ok(())
        } else if d1 == 8 {
            let vx = self.v_reg[x];
            let vy = self.v_reg[y];
            if d4 == 0 {
                self.v_reg[x] = vy;
            } else if d4 == 1 {
                self.v_reg[x] = vx | vy;
            } else if d4 == 2 {
                self.v_reg[x] = vx & vy;
            } else if d4 == 3 {
                self.v_reg[x] = vx ^ vy;
            } else if d4 == 4 {
                let sum = vx as u16 + vy as u16;
                self.v_reg[x] = (sum % 256) as u8;
                self.v_reg[15] = if sum >= 256 {
                    1
                } else {
                    0
                };
            } else if d4 == 5 {
                self.v_reg[x] = (((vx as u16 + 256) - vy as u16) % 256) as u8;
                self.v_reg[15] = if vx >= vy {
                    1
                } else {
                    0
                };
            } else if d4 == 6 {
                self.v_reg[x] = vx / 2;
                self.v_reg[15] = vx % 2;
            } else if d4 == 7 {
                self.v_reg[x] = (((vy as u16 + 256) - vx as u16) % 256) as u8;
                self.v_reg[15] = if vy >= vx {
                    1
                } else {
                    0
                };
            } else if d4 == 0xE {
                self.v_reg[x] = ((vx as u16 * 2) % 256) as u8;
                self.v_reg[15] = vx / 128;
            } else {
                return Err(Chip8Error::InvalidOpcode);
            }
            self.pc = self.pc + 2;
            Ok(())
        } else if d1 == 9 {
            if d4 == 0 {
                self.pc = self.pc + 2;
                if self.v_reg[x] != self.v_reg[y] {
                    self.pc = self.pc + 2;
                }
                Ok(())
            } else {
                Err(Chip8Error::InvalidOpcode)
            }
        } else if d1 == 0xA {
            self.i_reg = nnn;
            self.pc = self.pc + 2;
            Ok(())
        } else if d1 == 0xB {
            self.pc = nnn + self.v_reg[0] as u16;
            Ok(())
        } else if d1 == 0xC {
            let next = ((self.rng as u32 * 25173 + 13849) % 0x10000) as u16;
            self.rng = next;
            self.v_reg[x] = ((next / 256) as u8) & nn;
            self.pc = self.pc + 2;
            proof {
                assert(next == rng_next(s0.rng));
            }
            Ok(())
        } else if d1 == 0xD {
            self.exec_draw(x, y, d4 as usize)
        } else if d1 == 0xE {
            // No key source crosses the core's interface, so no key is ever
            // down: skip-if-key-down never skips, skip-if-key-up always skips.
            if nn == 0x9E {
                self.pc = self.pc + 2;
                Ok(())
            } else if nn == 0xA1 {
                self.pc = self.pc + 4;
                Ok(())
            } else {
                Err(Chip8Error::InvalidOpcode)
            }
        } else if d1 == 0xF {
            if nn == 0x07 {
                self.v_reg[x] = self.dt_reg;
                self.pc = self.pc + 2;
                Ok(())
            } else if nn == 0x0A {
                // Wait for a key press: with no key source the instruction
                // repeats, so nothing changes.
                Ok(())
            } else if nn == 0x15 {
                self.dt_reg = self.v_reg[x];
                self.pc = self.pc + 2;
                Ok(())
            } else if nn == 0x18 {
                self.st_reg = self.v_reg[x];
                self.pc = self.pc + 2;
                Ok(())
            } else if nn == 0x1E {
                self.i_reg = ((self.i_reg as u32 + self.v_reg[x] as u32) % 0x10000) as u16;
                self.pc = self.pc + 2;
                Ok(())
            } else if nn == 0x29 {
                self.i_reg = 5 * (self.v_reg[x] % 16) as u16;
                self.pc = self.pc + 2;
                Ok(())
            } else if nn == 0x33 {
                if self.i_reg as usize + 2 >= MEM_SIZE {
                    return Err(Chip8Error::OutOfBounds);
                }
                let vx = self.v_reg[x];
                let i = self.i_reg as usize;
                self.memory[i] = vx / 100;
                self.memory[i + 1] = (vx / 10) % 10;
                self.memory[i + 2] = vx % 10;
                self.pc = self.pc + 2;
                Ok(())
            } else if nn == 0x55 {
                if self.i_reg as usize + x >= MEM_SIZE {
                    return Err(Chip8Error::OutOfBounds);
                }
                let i = self.i_reg as usize;
                for j in 0..x + 1
                    invariant
                        self@.memory.len() == MEM_SIZE,
                        self@.v == s0.v,
                        self@.stack == s0.stack,
                        self@.display == s0.display,
                        self@.i == s0.i,
                        self@.dt == s0.dt,
                        self@.st == s0.st,
                        self@.pc == s0.pc,
                        self@.rng == s0.rng,
                        forall|t: int| 0 <= t < j ==> self@.memory[i + t] == s0.v[t],
                        forall|t: int|
                            0 <= t < MEM_SIZE && !(i <= t < i + j) ==> self@.memory[t]
                                == s0.memory[t],
                {
                    self.memory[i + j] = self.v_reg[j];
                }
                self.pc = self.pc + 2;
                proof {
                    let s2 = match exec_op(s0, op) {
                        Ok(t) => t,
                        Err(_) => s0,
                    };
                    assert(self@.memory =~= s2.memory);
                }
                Ok(())
            } else if nn == 0x65 {
                if self.i_reg as usize + x >= MEM_SIZE {
                    return Err(Chip8Error::OutOfBounds);
                }
                let i = self.i_reg as usize;
                for j in 0..x + 1
                    invariant
                        self@.v.len() == NUM_REGS,
                        self@.memory == s0.memory,
                        self@.stack == s0.stack,
                        self@.display == s0.display,
                        self@.i == s0.i,
                        self@.dt == s0.dt,
                        self@.st == s0.st,
                        self@.pc == s0.pc,
                        self@.rng == s0.rng,
                        forall|t: int| 0 <= t < j ==> self@.v[t] == s0.memory[i + t],
                        forall|t: int| j <= t < NUM_REGS ==> self@.v[t] == s0.v[t],
                {
                    self.v_reg[j] = self.memory[i + j];
                }
                self.pc = self.pc + 2;
                proof {
                    let s2 = match exec_op(s0, op) {
                        Ok(t) => t,
                        Err(_) => s0,
                    };
                    assert(self@.v =~= s2.v);
                }
                Ok(())
            } else {
                Err(Chip8Error::InvalidOpcode)
            }
        } else {
            Err(Chip8Error::InvalidOpcode)
        }
    }
}

impl Default for Cpu {
    /// The same state `new` constructs.
    fn default() -> (c: Self)
        ensures
            c.wf(),
            c@ == init_view(),
    {
        Cpu::new()
    }
}

} // verus!
