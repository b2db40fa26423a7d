//! The mathematical model of the whole machine and the meaning of each
//! instruction over it.
use vstd::prelude::*;
use crate::display::{blank_screen, draw_collides, draw_screen};
use crate::error::EmulatorError;
use crate::memory::{any_nonzero, spliced, zero_memory, MEMORY_SIZE, PROGRAM_START};
use crate::registers::zero_registers;

verus! {

/// Most return addresses the call stack holds.
pub const STACK_DEPTH: usize = 16;

/// Number of keys on the keypad.
pub const KEY_COUNT: usize = 16;

/// Bytes of one glyph of the built-in font, which starts at address zero.
pub const GLYPH_SIZE: u16 = 5;

/// Multiplier of the random-number generator's linear congruence.
pub const RNG_MULTIPLIER: u64 = 6364136223846793005;

/// Increment of the random-number generator's linear congruence.
pub const RNG_INCREMENT: u64 = 1442695040888963407;

/// What a step of the engine ended in, when it did not fail.
#[derive(Debug, Clone, Copy, PartialEq, Eq, Structural)]
pub enum StepEvent {
    /// The instruction completed; the machine can go on.
    Continue,
    /// An exit-trap instruction ran; it carries the instruction's low 12 bits.
    Halt(u16),
    /// The machine waits for a key to go down before it goes on.
    AwaitingKey,
}

/// The state of the machine, as mathematical values.
pub struct Machine {
    /// The sixteen registers `V0`..`VF`.
    pub v: Seq<u8>,
    /// The memory bytes.
    pub mem: Seq<u8>,
    /// The program counter.
    pub pc: int,
    /// Return addresses, the latest last.
    pub stack: Seq<u16>,
    /// The index register `I`.
    pub i: u16,
    /// The delay timer.
    pub delay: u8,
    /// The sound timer.
    pub sound: u8,
    /// The pixels, row after row.
    pub screen: Seq<bool>,
    /// Which keys are down.
    pub keys: Seq<bool>,
    /// The random-number generator's state.
    pub rng: u64,
    /// The register that receives the next key press, while one is awaited.
    pub waiting: Option<u8>,
}

impl Machine {
    /// Sizes fit the hardware, and every address held lies in memory.
    pub open spec fn wf(self) -> bool {
        &&& self.v.len() == 16
        &&& self.mem.len() == MEMORY_SIZE
        &&& 0 <= self.pc < MEMORY_SIZE
        &&& self.stack.len() <= STACK_DEPTH
        &&& forall|k: int| 0 <= k < self.stack.len() ==> #[trigger] self.stack[k] < MEMORY_SIZE
        &&& self.screen.len() == 2048
        &&& self.keys.len() == KEY_COUNT
        &&& (self.waiting matches Some(x) ==> x < 16)
    }
}

/// The machine as it is built: everything zero, no key down.
pub open spec fn initial_machine() -> Machine {
    Machine {
        v: zero_registers(),
        mem: zero_memory(),
        pc: 0,
        stack: Seq::empty(),
        i: 0,
        delay: 0,
        sound: 0,
        screen: blank_screen(),
        keys: Seq::new(KEY_COUNT as nat, |k: int| false),
        rng: 0,
        waiting: None,
    }
}

/// The machine after a reset: registers, memory, stack, timers and screen
/// cleared; the keys and the random-number generator as they were.
pub open spec fn reset_machine(m: Machine) -> Machine {
    Machine { keys: m.keys, rng: m.rng, ..initial_machine() }
}

/// The machine after `rom` is loaded as its program: reset first where it
/// was loaded already, then the bytes placed at `PROGRAM_START` and the
/// program counter pointed there.
pub open spec fn with_program(m: Machine, rom: Seq<u8>) -> Machine {
    let base = if is_loaded(m) {
        reset_machine(m)
    } else {
        m
    };
    Machine { mem: spliced(base.mem, PROGRAM_START as int, rom), pc: PROGRAM_START as int, ..base }
}

/// The machine after `font` is placed at address zero.
pub open spec fn with_font(m: Machine, font: Seq<u8>) -> Machine {
    Machine { mem: spliced(m.mem, 0, font), ..m }
}

/// Both the font region and the program region hold a nonzero byte.
pub open spec fn is_loaded(m: Machine) -> bool {
    any_nonzero(m.mem, 0, PROGRAM_START as int) && any_nonzero(
        m.mem,
        PROGRAM_START as int,
        MEMORY_SIZE as int,
    )
}

/// The next state of the random-number generator.
pub open spec fn next_rng(s: u64) -> u64 {
    vstd::wrapping::u64_specs::wrapping_add(
        vstd::wrapping::u64_specs::wrapping_mul(s, RNG_MULTIPLIER),
        RNG_INCREMENT,
    )
}

/// The random byte drawn from a generator state: its top eight bits.
pub open spec fn random_byte(s: u64) -> u8 {
    (s >> 56u64) as u8
}

/// The 16-bit word at the program counter.
pub open spec fn opcode_at(m: Machine) -> u16 {
    (m.mem[m.pc] as int * 256 + m.mem[m.pc + 1] as int) as u16
}

/// Whether key `k` is down; there is no key above fifteen.
pub open spec fn key_down(m: Machine, k: int) -> bool {
    0 <= k < KEY_COUNT && m.keys[k]
}

/// A step's outcome: the state after it, and what it returned.
pub type Outcome = (Machine, Result<StepEvent, EmulatorError>);

/// A failed step: the machine stays as it was.
pub open spec fn fail(m: Machine, e: EmulatorError) -> Outcome {
    (m, Err(e))
}

/// `after` with the program counter at `pc`, or a failure on `m` where `pc`
/// lies outside memory.
pub open spec fn goto(m: Machine, after: Machine, pc: int, ev: StepEvent) -> Outcome {
    if 0 <= pc < MEMORY_SIZE {
        (Machine { pc, ..after }, Ok(ev))
    } else {
        fail(m, EmulatorError::OutOfBounds)
    }
}

/// `after`, with the program counter on the instruction after the current one.
pub open spec fn next(m: Machine, after: Machine) -> Outcome {
    goto(m, after, m.pc + 2, StepEvent::Continue)
}

/// Skips the next instruction where `cond` holds.
pub open spec fn skip_if(m: Machine, cond: bool) -> Outcome {
    goto(m, m, m.pc + if cond { 4int } else { 2int }, StepEvent::Continue)
}

/// `m` with register `x` set to `val`.
pub open spec fn set_v(m: Machine, x: int, val: u8) -> Machine {
    Machine { v: m.v.update(x, val), ..m }
}

/// An instruction that matches no pattern.
pub open spec fn invalid(m: Machine, op: u16) -> Outcome {
    fail(m, EmulatorError::InvalidOpcode { pc: m.pc as usize, opcode: op })
}

/// Leading nibble of an instruction.
pub open spec fn op_a(op: u16) -> int {
    op as int / 4096
}

/// Second nibble of an instruction, usually a register `x`.
pub open spec fn op_x(op: u16) -> int {
    (op as int / 256) % 16
}

/// Third nibble of an instruction, usually a register `y`.
pub open spec fn op_y(op: u16) -> int {
    (op as int / 16) % 16
}

/// Last nibble of an instruction.
pub open spec fn op_n(op: u16) -> int {
    op as int % 16
}

/// Low byte of an instruction.
pub open spec fn op_nn(op: u16) -> int {
    op as int % 256
}

/// Low twelve bits of an instruction, usually an address.
pub open spec fn op_nnn(op: u16) -> int {
    op as int % 4096
}

/// Instructions that start with nibble 0: clear, return, exit trap.
pub open spec fn system_spec(m: Machine, op: u16) -> Outcome {
    if op == 0x00E0 {
        next(m, Machine { screen: blank_screen(), ..m })
    } else if op == 0x00EE {
        if m.stack.len() == 0 {
            fail(m, EmulatorError::StackUnderflow)
        } else {
            (
                Machine { pc: m.stack.last() as int, stack: m.stack.drop_last(), ..m },
                Ok(StepEvent::Continue),
            )
        }
    } else {
        goto(m, m, m.pc + 2, StepEvent::Halt(op_nnn(op) as u16))
    }
}

/// Jumps and calls: `1nnn`, `2nnn`, `Bnnn`.
pub open spec fn flow_spec(m: Machine, op: u16) -> Outcome {
    let a = op_a(op);
    let nnn = op_nnn(op);
    if a == 1 {
        (Machine { pc: nnn, ..m }, Ok(StepEvent::Continue))
    } else if a == 2 {
        if m.stack.len() >= STACK_DEPTH {
            fail(m, EmulatorError::StackOverflow)
        } else if m.pc + 2 >= MEMORY_SIZE {
            fail(m, EmulatorError::OutOfBounds)
        } else {
            (
                Machine { pc: nnn, stack: m.stack.push((m.pc + 2) as u16), ..m },
                Ok(StepEvent::Continue),
            )
        }
    } else {
        goto(m, m, nnn + m.v[0], StepEvent::Continue)
    }
}

/// Conditional skips: `3xnn`, `4xnn`, `5xy0`, `9xy0`, `Ex9E`, `ExA1`.
pub open spec fn skip_spec(m: Machine, op: u16) -> Outcome {
    let a = op_a(op);
    let vx = m.v[op_x(op)];
    let vy = m.v[op_y(op)];
    if a == 3 {
        skip_if(m, vx == op_nn(op))
    } else if a == 4 {
        skip_if(m, vx != op_nn(op))
    } else if a == 5 && op_n(op) == 0 {
        skip_if(m, vx == vy)
    } else if a == 9 && op_n(op) == 0 {
        skip_if(m, vx != vy)
    } else if a == 0xE && op_nn(op) == 0x9E {
        skip_if(m, key_down(m, vx as int))
    } else if a == 0xE && op_nn(op) == 0xA1 {
        skip_if(m, !key_down(m, vx as int))
    } else {
        invalid(m, op)
    }
}

/// Loads of registers and of `I`: `6xnn`, `7xnn`, `Annn`, `Cxnn`.
pub open spec fn load_spec(m: Machine, op: u16) -> Outcome {
    let a = op_a(op);
    let x = op_x(op);
    let nn = op_nn(op);
    if a == 6 {
        next(m, set_v(m, x, nn as u8))
    } else if a == 7 {
        next(m, set_v(m, x, ((m.v[x] + nn) % 256) as u8))
    } else if a == 0xA {
        next(m, Machine { i: op_nnn(op) as u16, ..m })
    } else {
        let s = next_rng(m.rng);
        next(m, Machine { rng: s, ..set_v(m, x, random_byte(s) & (nn as u8)) })
    }
}

/// Register arithmetic and logic: `8xy0` to `8xyE`.
pub open spec fn alu_spec(m: Machine, op: u16) -> Outcome {
    let x = op_x(op);
    let n = op_n(op);
    let vx = m.v[x];
    let vy = m.v[op_y(op)];
    if n == 0 {
        next(m, set_v(m, x, vy))
    } else if n == 1 {
        next(m, set_v(m, x, vx | vy))
    } else if n == 2 {
        next(m, set_v(m, x, vx & vy))
    } else if n == 3 {
        next(m, set_v(m, x, vx ^ vy))
    } else if n == 4 {
        next(
            m,
            set_v(set_v(m, x, ((vx + vy) % 256) as u8), 15, if vx + vy > 255 { 1u8 } else { 0u8 }),
        )
    } else if n == 5 {
        next(
            m,
            set_v(set_v(m, x, ((vx - vy + 256) % 256) as u8), 15, if vx >= vy { 1u8 } else { 0u8 }),
        )
    } else if n == 6 {
        next(m, set_v(set_v(m, 15, vx & 1), x, vx >> 1u8))
    } else if n == 7 {
        next(
            m,
            set_v(set_v(m, x, ((vy - vx + 256) % 256) as u8), 15, if vy >= vx { 1u8 } else { 0u8 }),
        )
    } else if n == 0xE {
        next(m, set_v(set_v(m, 15, (vx >> 7u8) & 1), x, ((vx * 2) % 256) as u8))
    } else {
        invalid(m, op)
    }
}

/// The sprite-draw instruction `Dxyn`.
pub open spec fn draw_spec(m: Machine, op: u16) -> Outcome {
    let n = op_n(op);
    if m.i + n > MEMORY_SIZE {
        fail(m, EmulatorError::OutOfBounds)
    } else {
        let sprite = m.mem.subrange(m.i as int, m.i + n);
        let x0 = m.v[op_x(op)] % 64;
        let y0 = m.v[op_y(op)] % 32;
        let hit = draw_collides(m.screen, sprite, x0 as int, y0 as int);
        next(
            m,
            Machine {
                screen: draw_screen(m.screen, sprite, x0 as int, y0 as int),
                ..set_v(m, 15, if hit { 1u8 } else { 0u8 })
            },
        )
    }
}

/// The decimal digits of `v`, hundreds first.
pub open spec fn bcd(v: u8) -> Seq<u8> {
    seq![v / 100, (v / 10) % 10, v % 10]
}

/// Timers, `I` arithmetic, key wait and memory transfers: `Fx..`.
pub open spec fn misc_spec(m: Machine, op: u16) -> Outcome {
    let x = op_x(op);
    let nn = op_nn(op);
    let vx = m.v[x];
    if nn == 0x07 {
        next(m, set_v(m, x, m.delay))
    } else if nn == 0x0A {
        goto(m, Machine { waiting: Some(x as u8), ..m }, m.pc + 2, StepEvent::AwaitingKey)
    } else if nn == 0x15 {
        next(m, Machine { delay: vx, ..m })
    } else if nn == 0x18 {
        next(m, Machine { sound: vx, ..m })
    } else if nn == 0x1E {
        next(m, Machine { i: ((m.i + vx) % 65536) as u16, ..m })
    } else if nn == 0x29 {
        next(m, Machine { i: (vx * GLYPH_SIZE) as u16, ..m })
    } else if nn == 0x33 {
        if m.i + 3 > MEMORY_SIZE {
            fail(m, EmulatorError::OutOfBounds)
        } else {
            next(m, Machine { mem: spliced(m.mem, m.i as int, bcd(vx)), ..m })
        }
    } else if nn == 0x55 {
        if m.i + x + 1 > MEMORY_SIZE {
            fail(m, EmulatorError::OutOfBounds)
        } else {
            next(m, Machine { mem: spliced(m.mem, m.i as int, m.v.subrange(0, x + 1)), ..m })
        }
    } else if nn == 0x65 {
        if m.i + x + 1 > MEMORY_SIZE {
            fail(m, EmulatorError::OutOfBounds)
        } else {
            next(m, Machine { v: spliced(m.v, 0, m.mem.subrange(m.i as int, m.i + x + 1)), ..m })
        }
    } else {
        invalid(m, op)
    }
}

/// The effect of the instruction `op`, fetched at the program counter.
pub open spec fn execute_spec(m: Machine, op: u16) -> Outcome {
    let a = op_a(op);
    if a == 0 {
        system_spec(m, op)
    } else if a == 1 || a == 2 || a == 0xB {
        flow_spec(m, op)
    } else if a == 3 || a == 4 || a == 5 || a == 9 || a == 0xE {
        skip_spec(m, op)
    } else if a == 6 || a == 7 || a == 0xA || a == 0xC {
        load_spec(m, op)
    } else if a == 8 {
        alu_spec(m, op)
    } else if a == 0xD {
        draw_spec(m, op)
    } else {
        misc_spec(m, op)
    }
}

/// One step: while a key is awaited nothing happens; otherwise the word at
/// the program counter is fetched and executed.
#[verifier::opaque]
pub open spec fn step_spec(m: Machine) -> Outcome {
    if m.waiting is Some {
        (m, Ok(StepEvent::AwaitingKey))
    } else if m.pc + 1 >= MEMORY_SIZE {
        fail(m, EmulatorError::OutOfBounds)
    } else {
        execute_spec(m, opcode_at(m))
    }
}

/// Up to `fuel` steps, stopping at the first that does not return
/// `Continue`; `Continue` where the steps ran out.
pub open spec fn run_spec(m: Machine, fuel: nat) -> Outcome
    decreases fuel,
{
    if fuel == 0 {
        (m, Ok(StepEvent::Continue))
    } else {
        let (m2, r) = step_spec(m);
        if r == Ok::<StepEvent, EmulatorError>(StepEvent::Continue) {
            run_spec(m2, (fuel - 1) as nat)
        } else {
            (m2, r)
        }
    }
}

/// The machine after key `k` is set to `down`; a key that goes down while one
/// is awaited lands in the waiting register and ends the wait.
pub open spec fn key_spec(m: Machine, k: int, down: bool) -> Machine {
    let m2 = Machine { keys: m.keys.update(k, down), ..m };
    match m.waiting {
        Some(x) => if down && !m.keys[k] {
            Machine { waiting: None, ..set_v(m2, x as int, k as u8) }
        } else {
            m2
        },
        None => m2,
    }
}

} // verus!
