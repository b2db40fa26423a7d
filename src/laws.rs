//! Laws of the machine that relate several steps or hold of every state.
use vstd::prelude::*;
use crate::error::EmulatorError;
use crate::machine::{
    initial_machine, is_loaded, op_a, op_n, op_nn, op_nnn, op_x, op_y, opcode_at, step_spec,
    with_font, with_program, Machine, StepEvent, STACK_DEPTH,
};
use crate::memory::{spliced, MEMORY_SIZE, PROGRAM_START};

verus! {

/// The instruction `op` matches one of the machine's patterns.
pub open spec fn decodes(op: u16) -> bool {
    let a = op_a(op);
    let n = op_n(op);
    let nn = op_nn(op);
    ||| a == 0 || a == 1 || a == 2 || a == 3 || a == 4 || a == 6 || a == 7
    ||| a == 0xA || a == 0xB || a == 0xC || a == 0xD
    ||| (a == 5 || a == 9) && n == 0
    ||| a == 8 && (n <= 7 || n == 0xE)
    ||| a == 0xE && (nn == 0x9E || nn == 0xA1)
    ||| a == 0xF && (nn == 0x07 || nn == 0x0A || nn == 0x15 || nn == 0x18 || nn == 0x1E || nn
        == 0x29 || nn == 0x33 || nn == 0x55 || nn == 0x65)
}

/// A machine that is about to fetch an instruction.
pub open spec fn ready(m: Machine) -> bool {
    m.wf() && m.waiting is None && m.pc + 1 < MEMORY_SIZE
}

/// `8xy0` leaves in `Vx` the value that `Vy` held before.
pub proof fn law_copy_register(m: Machine, x: int, y: int)
    requires
        ready(m),
        m.pc + 2 < MEMORY_SIZE,
        op_a(opcode_at(m)) == 8,
        op_x(opcode_at(m)) == x,
        op_y(opcode_at(m)) == y,
        op_n(opcode_at(m)) == 0,
    ensures
        step_spec(m).1 == Ok::<StepEvent, EmulatorError>(StepEvent::Continue),
        step_spec(m).0.v[x] == m.v[y],
{
    reveal(step_spec);
}

/// `8xy4` sets `VF` to one exactly when the unsigned sum of `Vx` and `Vy`
/// exceeds 255, and leaves the sum modulo 256 in `Vx` unless `x` is `F`.
pub proof fn law_add_carry(m: Machine, x: int, y: int)
    requires
        ready(m),
        m.pc + 2 < MEMORY_SIZE,
        op_a(opcode_at(m)) == 8,
        op_x(opcode_at(m)) == x,
        op_y(opcode_at(m)) == y,
        op_n(opcode_at(m)) == 4,
    ensures
        step_spec(m).1 == Ok::<StepEvent, EmulatorError>(StepEvent::Continue),
        step_spec(m).0.v[15] == if m.v[x] + m.v[y] > 255 { 1u8 } else { 0u8 },
        x != 15 ==> step_spec(m).0.v[x] == (m.v[x] + m.v[y]) % 256,
{
    reveal(step_spec);
}

/// `8xy5` sets `VF` to one exactly when `Vx >= Vy` (no borrow), and leaves
/// the difference modulo 256 in `Vx` unless `x` is `F`.
pub proof fn law_sub_borrow(m: Machine, x: int, y: int)
    requires
        ready(m),
        m.pc + 2 < MEMORY_SIZE,
        op_a(opcode_at(m)) == 8,
        op_x(opcode_at(m)) == x,
        op_y(opcode_at(m)) == y,
        op_n(opcode_at(m)) == 5,
    ensures
        step_spec(m).1 == Ok::<StepEvent, EmulatorError>(StepEvent::Continue),
        step_spec(m).0.v[15] == if m.v[x] >= m.v[y] { 1u8 } else { 0u8 },
        x != 15 ==> step_spec(m).0.v[x] == (m.v[x] - m.v[y] + 256) % 256,
{
    reveal(step_spec);
}

/// `Fx55` followed by `Fx65` with the same `x` and `I` gives every register
/// back the value it had before the store.
pub proof fn law_store_load_round_trip(m: Machine, x: int)
    requires
        ready(m),
        m.pc + 4 < MEMORY_SIZE,
        m.i + x + 1 <= MEMORY_SIZE,
        op_a(opcode_at(m)) == 0xF,
        op_x(opcode_at(m)) == x,
        op_nn(opcode_at(m)) == 0x55,
        op_a(opcode_at(step_spec(m).0)) == 0xF,
        op_x(opcode_at(step_spec(m).0)) == x,
        op_nn(opcode_at(step_spec(m).0)) == 0x65,
    ensures
        step_spec(m).1 == Ok::<StepEvent, EmulatorError>(StepEvent::Continue),
        step_spec(step_spec(m).0).1 == Ok::<StepEvent, EmulatorError>(StepEvent::Continue),
        step_spec(step_spec(m).0).0.v == m.v,
        step_spec(step_spec(m).0).0.i == m.i,
{
    reveal(step_spec);
    let m1 = step_spec(m).0;
    let saved = m.v.subrange(0, x + 1);
    assert(m1.mem == spliced(m.mem, m.i as int, saved));
    assert(m1.mem.subrange(m.i as int, m.i + x + 1) =~= saved);
    assert(spliced(m.v, 0, saved) =~= m.v);
}

/// A call to an address that holds a return comes back to the instruction
/// after the call, with the call stack as it was.
pub proof fn law_call_return(m: Machine)
    requires
        ready(m),
        m.stack.len() < STACK_DEPTH,
        m.pc + 2 < MEMORY_SIZE,
        op_a(opcode_at(m)) == 2,
        op_nnn(opcode_at(m)) + 1 < MEMORY_SIZE,
        opcode_at(step_spec(m).0) == 0x00EE,
    ensures
        step_spec(m).1 == Ok::<StepEvent, EmulatorError>(StepEvent::Continue),
        step_spec(step_spec(m).0).1 == Ok::<StepEvent, EmulatorError>(StepEvent::Continue),
        step_spec(step_spec(m).0).0.pc == m.pc + 2,
        step_spec(step_spec(m).0).0.stack == m.stack,
{
    reveal(step_spec);
    let m1 = step_spec(m).0;
    assert(m1.stack.drop_last() =~= m.stack);
}

/// A call with a full call stack fails with `StackOverflow`, and a return
/// with an empty one with `StackUnderflow`; either leaves the machine as it
/// was.
pub proof fn law_stack_limits(m: Machine)
    requires
        ready(m),
    ensures
        op_a(opcode_at(m)) == 2 && m.stack.len() == STACK_DEPTH ==> step_spec(m) == (
        m,
        Err::<StepEvent, EmulatorError>(EmulatorError::StackOverflow),
        ),
        opcode_at(m) == 0x00EE && m.stack.len() == 0 ==> step_spec(m) == (
        m,
        Err::<StepEvent, EmulatorError>(EmulatorError::StackUnderflow),
        ),
{
    reveal(step_spec);
}

/// A step fails with `InvalidOpcode`, carrying the program counter and the
/// raw word, exactly when the word matches no pattern.
pub proof fn law_invalid_opcode(m: Machine)
    requires
        ready(m),
    ensures
        step_spec(m).1 == Err::<StepEvent, EmulatorError>(
            EmulatorError::InvalidOpcode { pc: m.pc as usize, opcode: opcode_at(m) },
        ) <==> !decodes(opcode_at(m)),
{
    reveal(step_spec);
    let op = opcode_at(m);
    assert(op_a(op) < 16) by {
        assert(op / 4096 < 16) by (bit_vector);
    }
}

/// A step that fails leaves the whole machine as it was.
pub proof fn law_failed_step_changes_nothing(m: Machine)
    requires
        m.wf(),
    ensures
        step_spec(m).1 is Err ==> step_spec(m).0 == m,
{
    reveal(step_spec);
}

/// A machine with only a program loaded, or only a font that stays inside
/// the font region, is not runnable.
pub proof fn law_one_region_not_runnable(rom: Seq<u8>, font: Seq<u8>)
    requires
        rom.len() + PROGRAM_START <= MEMORY_SIZE,
        font.len() <= PROGRAM_START,
    ensures
        !is_loaded(with_program(initial_machine(), rom)),
        !is_loaded(with_font(initial_machine(), font)),
{
    let p = with_program(initial_machine(), rom);
    assert(!is_loaded(initial_machine()));
    assert forall|i: int| 0 <= i < PROGRAM_START implies p.mem[i] == 0 by {}
    let f = with_font(initial_machine(), font);
    assert forall|i: int| PROGRAM_START <= i < MEMORY_SIZE implies f.mem[i] == 0 by {}
}

} // verus!
