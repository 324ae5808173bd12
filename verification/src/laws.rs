//! General properties of the instruction semantics, stated over the model
//! and proved once and for all.

use vstd::prelude::*;

use crate::state::{
    blank_display, draw_collision, draw_display, exec_op, load_spec, opcode_at, step, Chip8Error,
    CpuView, MEM_SIZE, NUM_PIXELS, NUM_REGS, PC_START, STACK_LIMIT,
};

verus! {

/// Add-immediate (7XNN) wraps modulo 256 and writes no other register, so
/// in particular it never sets a flag: every register but the target,
/// VF included, is left as it was.
pub proof fn lemma_add_immediate_wraps(s: CpuView, op: u16)
    requires
        s.wf(),
        op / 0x1000 == 7,
    ensures
        ({
            let x = ((op / 0x100) % 0x10) as int;
            let nn = (op % 0x100) as u8;
            &&& exec_op(s, op) matches Ok(s2)
            &&& exec_op(s, op) matches Ok(s2) ==> {
                &&& s2.v[x] == (s.v[x] + nn) % 256
                &&& forall|j: int| 0 <= j < NUM_REGS && j != x ==> s2.v[j] == s.v[j]
                &&& s2.memory == s.memory
                &&& s2.stack == s.stack
                &&& s2.display == s.display
                &&& s2.i == s.i
                &&& s2.dt == s.dt
                &&& s2.st == s.st
                &&& s2.pc == (s.pc + 2) as u16
            }
        }),
{
}

/// Register-to-register add (8XY4) wraps modulo 256 and sets VF to 1
/// exactly when the true sum reaches 256. The wrapped sum lands in the
/// target only when the target is not VF itself, which the flag overwrites;
/// that register is left out here.
pub proof fn lemma_register_add_carry(s: CpuView, op: u16)
    requires
        s.wf(),
        op / 0x1000 == 8,
        op % 0x10 == 4,
        (op / 0x100) % 0x10 != 15,
    ensures
        ({
            let x = ((op / 0x100) % 0x10) as int;
            let y = ((op / 0x10) % 0x10) as int;
            &&& exec_op(s, op) matches Ok(s2)
            &&& exec_op(s, op) matches Ok(s2) ==> {
                &&& s2.v[x] == (s.v[x] + s.v[y]) % 256
                &&& s2.v[15] == (if s.v[x] + s.v[y] >= 256 { 1u8 } else { 0u8 })
                &&& forall|j: int| 0 <= j < NUM_REGS && j != x && j != 15 ==> s2.v[j] == s.v[j]
            }
        }),
{
}

/// Clear-screen leaves every one of the 64x32 pixels off, whatever the
/// display held before, and touches neither registers nor timers.
pub proof fn lemma_clear_screen_blanks(s: CpuView)
    requires
        s.wf(),
        s.pc + 1 < MEM_SIZE,
        opcode_at(s) == 0x00E0,
    ensures
        ({
            &&& step(s) matches Ok(s2)
            &&& step(s) matches Ok(s2) ==> {
                &&& forall|k: int| 0 <= k < NUM_PIXELS ==> !s2.display[k]
                &&& s2.v == s.v
                &&& s2.dt == s.dt
                &&& s2.st == s.st
                &&& s2.memory == s.memory
                &&& s2.stack == s.stack
            }
        }),
{
}

/// A ROM that fits is spliced in at the load address and reads back
/// exactly, with every other byte of memory and all other state untouched;
/// one that does not fit is rejected out of bounds.
pub proof fn lemma_load_round_trip(s: CpuView, data: Seq<u8>)
    requires
        s.wf(),
    ensures
        data.len() <= MEM_SIZE - PC_START ==> ({
            &&& load_spec(s, data) matches Ok(s2)
            &&& load_spec(s, data) matches Ok(s2) ==> {
                &&& s2.memory.subrange(PC_START as int, PC_START + data.len()) == data
                &&& forall|k: int|
                    0 <= k < MEM_SIZE && !(PC_START <= k < PC_START + data.len())
                        ==> s2.memory[k] == s.memory[k]
                &&& s2.v == s.v
                &&& s2.stack == s.stack
                &&& s2.display == s.display
                &&& s2.pc == s.pc
                &&& s2.i == s.i
            }
        }),
        data.len() > MEM_SIZE - PC_START ==> load_spec(s, data) == Err::<CpuView, Chip8Error>(
            Chip8Error::OutOfBounds,
        ),
{
    if data.len() <= MEM_SIZE - PC_START {
        let s2 = match load_spec(s, data) {
            Ok(t) => t,
            Err(_) => s,
        };
        assert(s2.memory.subrange(PC_START as int, PC_START + data.len()) =~= data);
    }
}

/// The jump opcode 1NNN sets the program counter to exactly its low twelve
/// bits and changes nothing else, for every NNN.
pub proof fn lemma_jump_sets_pc(s: CpuView, op: u16)
    requires
        s.wf(),
        op / 0x1000 == 1,
    ensures
        ({
            &&& exec_op(s, op) matches Ok(s2)
            &&& exec_op(s, op) matches Ok(s2) ==> {
                &&& s2.pc == op % 0x1000
                &&& s2.memory == s.memory
                &&& s2.v == s.v
                &&& s2.stack == s.stack
                &&& s2.display == s.display
                &&& s2.i == s.i
                &&& s2.dt == s.dt
                &&& s2.st == s.st
                &&& s2.rng == s.rng
            }
        }),
{
}

/// XOR-compositing the same sprite at the same position twice restores the
/// display it started from.
pub proof fn lemma_draw_twice_restores(
    d: Seq<bool>,
    mem: Seq<u8>,
    i: int,
    x0: int,
    y0: int,
    n: int,
)
    requires
        d.len() == NUM_PIXELS,
    ensures
        draw_display(draw_display(d, mem, i, x0, y0, n), mem, i, x0, y0, n) == d,
{
    assert(draw_display(draw_display(d, mem, i, x0, y0, n), mem, i, x0, y0, n) =~= d);
}

/// Executing the same in-bounds sprite draw twice in a row restores the
/// pre-draw pixel state, and VF afterwards reflects exactly the second
/// draw's collisions. The coordinate registers must not be VF, which the
/// first draw overwrites.
pub proof fn lemma_draw_twice_step(s: CpuView, op: u16)
    requires
        s.wf(),
        op / 0x1000 == 0xD,
        (op / 0x100) % 0x10 != 15,
        (op / 0x10) % 0x10 != 15,
        !(op % 0x10 > 0 && s.i + (op % 0x10) > MEM_SIZE),
    ensures
        ({
            &&& exec_op(s, op) matches Ok(s1)
            &&& exec_op(s, op) matches Ok(s1) ==> ({
                &&& exec_op(s1, op) matches Ok(s2)
                &&& exec_op(s1, op) matches Ok(s2) ==> {
                    &&& s2.display == s.display
                    &&& s2.v[15] == (if draw_collision(
                        s1.display,
                        s.memory,
                        s.i as int,
                        (s.v[((op / 0x100) % 0x10) as int] % 64) as int,
                        (s.v[((op / 0x10) % 0x10) as int] % 32) as int,
                        (op % 0x10) as int,
                    ) {
                        1u8
                    } else {
                        0u8
                    })
                }
            })
        }),
{
    let x = ((op / 0x100) % 0x10) as int;
    let y = ((op / 0x10) % 0x10) as int;
    let x0 = (s.v[x] % 64) as int;
    let y0 = (s.v[y] % 32) as int;
    let n = (op % 0x10) as int;
    let s1 = match exec_op(s, op) {
        Ok(t) => t,
        Err(_) => s,
    };
    assert(s1.v[x] == s.v[x]);
    assert(s1.v[y] == s.v[y]);
    lemma_draw_twice_restores(s.display, s.memory, s.i as int, x0, y0, n);
    let s2 = match exec_op(s1, op) {
        Ok(t) => t,
        Err(_) => s1,
    };
    assert(s2.display =~= s.display);
}

/// A call followed immediately by a return brings the program counter to
/// the instruction directly after the call site and the stack back to its
/// depth before the call, with memory, registers and display untouched.
pub proof fn lemma_call_return_round_trip(s: CpuView)
    requires
        s.wf(),
        s.pc + 1 < MEM_SIZE,
        opcode_at(s) / 0x1000 == 2,
        s.stack.len() < STACK_LIMIT,
        (opcode_at(s) % 0x1000) + 1 < MEM_SIZE,
        s.memory[(opcode_at(s) % 0x1000) as int] == 0x00,
        s.memory[(opcode_at(s) % 0x1000) as int + 1] == 0xEE,
    ensures
        ({
            &&& step(s) matches Ok(s1)
            &&& step(s) matches Ok(s1) ==> ({
                &&& step(s1) matches Ok(s2)
                &&& step(s1) matches Ok(s2) ==> {
                    &&& s2.pc == s.pc + 2
                    &&& s2.stack == s.stack
                    &&& s2.memory == s.memory
                    &&& s2.v == s.v
                    &&& s2.display == s.display
                }
            })
        }),
{
    let op = opcode_at(s);
    let nnn = op % 0x1000;
    let s1 = match step(s) {
        Ok(t) => t,
        Err(_) => s,
    };
    assert(opcode_at(s1) == 0x00EE);
    let pushed = s.stack.push((s.pc + 2) as u16);
    assert(pushed.last() == (s.pc + 2) as u16);
    assert(pushed.drop_last() =~= s.stack);
}

} // verus!
