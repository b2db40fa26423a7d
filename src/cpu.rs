//! The machine itself and its fetch-decode-execute engine.
use vstd::prelude::*;
use crate::display::{Display, HEIGHT, WIDTH};
use crate::error::EmulatorError;
use crate::machine::{
    alu_spec, bcd, draw_spec, execute_spec, flow_spec, initial_machine, is_loaded, key_down,
    key_spec, load_spec, misc_spec, op_a, op_n, op_nn, op_nnn, op_x, op_y, opcode_at, reset_machine,
    run_spec, skip_spec, step_spec, system_spec, with_font, with_program, Machine, StepEvent,
    GLYPH_SIZE, KEY_COUNT, RNG_INCREMENT, RNG_MULTIPLIER, STACK_DEPTH,
};
use crate::memory::{spliced, Memory, MEMORY_SIZE, PROGRAM_START};
use crate::registers::Registers;
use crate::timers::Timers;
use crate::util::{nibbles_to_u16, nibbles_to_u8, u8_2_to_nibbles};

verus! {

/// A CHIP-8 machine: registers, memory, call stack, timers, display, keypad
/// latch and the engine that runs instructions over them.
#[derive(Debug)]
pub struct CPU {
    registers: Registers,
    memory: Memory,
    pc: usize,
    stack: Vec<u16>,
    i: u16,
    timers: Timers,
    display: Display,
    keys: Vec<bool>,
    rng: u64,
    waiting: Option<u8>,
}

impl View for CPU {
    type V = Machine;

    closed spec fn view(&self) -> Machine {
        Machine {
            v: self.registers@,
            mem: self.memory@,
            pc: self.pc as int,
            stack: self.stack@,
            i: self.i,
            delay: self.timers.delay,
            sound: self.timers.sound,
            screen: self.display@,
            keys: self.keys@,
            rng: self.rng,
            waiting: self.waiting,
        }
    }
}

impl CPU {
    /// The machine's state is well formed.
    pub open spec fn wf(&self) -> bool {
        self@.wf()
    }

    /// A machine with everything zero and nothing loaded.
    pub fn new() -> (r: CPU)
        ensures
            r.wf(),
            r@ == initial_machine(),
    {
        let mut keys: Vec<bool> = Vec::new();
        while keys.len() < KEY_COUNT
            invariant
                keys.len() <= KEY_COUNT,
                forall|k: int| 0 <= k < keys.len() ==> !keys@[k],
            decreases KEY_COUNT - keys.len(),
        {
            keys.push(false);
        }
        let cpu = CPU {
            registers: Registers::new(),
            memory: Memory::new(),
            pc: 0,
            stack: Vec::new(),
            i: 0,
            timers: Timers::new(),
            display: Display::new(),
            keys,
            rng: 0,
            waiting: None,
        };
        assert(cpu@.keys =~= initial_machine().keys);
        assert(cpu@.stack =~= Seq::<u16>::empty());
        cpu
    }

    /// A new machine with `rom` loaded as its program.
    pub fn with_rom(rom: &[u8]) -> (r: Result<CPU, EmulatorError>)
        ensures
            rom@.len() + PROGRAM_START > MEMORY_SIZE ==> r == Err::<CPU, EmulatorError>(
                EmulatorError::OutOfBounds,
            ),
            rom@.len() + PROGRAM_START <= MEMORY_SIZE ==> (r matches Ok(c) && c.wf() && c@
                == with_program(initial_machine(), rom@)),
    {
        let mut cpu = Self::new();
        match cpu.load_rom(rom) {
            Ok(()) => Ok(cpu),
            Err(e) => Err(e),
        }
    }

    /// Places `rom` at the start of the program region and points the
    /// program counter at it. A machine that already had both a font and a
    /// program is reset first. Fails, changing nothing, where `rom` does not
    /// fit in memory.
    pub fn load_rom(&mut self, rom: &[u8]) -> (r: Result<(), EmulatorError>)
        requires
            old(self).wf(),
        ensures
            final(self).wf(),
            rom@.len() + PROGRAM_START > MEMORY_SIZE ==> r == Err::<(), EmulatorError>(
                EmulatorError::OutOfBounds,
            ) && final(self)@ == old(self)@,
            rom@.len() + PROGRAM_START <= MEMORY_SIZE ==> r is Ok && final(self)@ == with_program(
                old(self)@,
                rom@,
            ),
    {
        if rom.len() > MEMORY_SIZE - PROGRAM_START {
            return Err(EmulatorError::OutOfBounds);
        }
        if self.loaded() {
            self.reset();
        }
        let r = self.memory.load(PROGRAM_START, rom);
        self.pc = PROGRAM_START;
        r
    }

    /// Places `font` at address zero. Fails, changing nothing, where it
    /// does not fit in memory.
    pub fn load_font(&mut self, font: &[u8]) -> (r: Result<(), EmulatorError>)
        requires
            old(self).wf(),
        ensures
            final(self).wf(),
            font@.len() > MEMORY_SIZE ==> r == Err::<(), EmulatorError>(EmulatorError::OutOfBounds)
                && final(self)@ == old(self)@,
            font@.len() <= MEMORY_SIZE ==> r is Ok && final(self)@ == with_font(old(self)@, font@),
    {
        self.memory.load(0, font)
    }

    /// Runs at most `max_steps` steps, stopping at the first that halts,
    /// waits for a key or fails. Fails with `NoProgramLoaded`, changing
    /// nothing, unless both the font and the program regions are loaded.
    pub fn run_for(&mut self, max_steps: u64) -> (r: Result<StepEvent, EmulatorError>)
        requires
            old(self).wf(),
        ensures
            final(self).wf(),
            !is_loaded(old(self)@) ==> r == Err::<StepEvent, EmulatorError>(
                EmulatorError::NoProgramLoaded,
            ) && final(self)@ == old(self)@,
            is_loaded(old(self)@) ==> (final(self)@, r) == run_spec(old(self)@, max_steps as nat),
    {
        if !self.loaded() {
            return Err(EmulatorError::NoProgramLoaded);
        }
        let ghost start = self@;
        let mut fuel: u64 = max_steps;
        loop
            invariant
                self.wf(),
                is_loaded(start),
                start == old(self)@,
                run_spec(self@, fuel as nat) == run_spec(start, max_steps as nat),
            decreases fuel,
        {
            if fuel == 0 {
                return Ok(StepEvent::Continue);
            }
            let ghost before = self@;
            let r = self.step();
            assert(run_spec(before, fuel as nat) == if r == Ok::<StepEvent, EmulatorError>(
                StepEvent::Continue,
            ) {
                run_spec(self@, (fuel - 1) as nat)
            } else {
                (self@, r)
            });
            match r {
                Ok(StepEvent::Continue) => {
                    fuel = fuel - 1;
                },
                _ => {
                    return r;
                },
            }
        }
    }

    /// Runs until an exit trap, a key wait or a failure, for at most
    /// `u64::MAX` steps. Fails with `NoProgramLoaded` unless both the font and
    /// the program regions are loaded.
    pub fn run(&mut self) -> (r: Result<StepEvent, EmulatorError>)
        requires
            old(self).wf(),
        ensures
            final(self).wf(),
            !is_loaded(old(self)@) ==> r == Err::<StepEvent, EmulatorError>(
                EmulatorError::NoProgramLoaded,
            ) && final(self)@ == old(self)@,
            is_loaded(old(self)@) ==> (final(self)@, r) == run_spec(old(self)@, u64::MAX as nat),
    {
        self.run_for(u64::MAX)
    }

    /// Clears registers, memory, stack, timers and screen, and ends any key
    /// wait; the keys and the random-number generator stay.
    pub fn reset(&mut self)
        requires
            old(self).wf(),
        ensures
            final(self).wf(),
            final(self)@ == reset_machine(old(self)@),
    {
        self.registers.reset();
        self.memory.clear();
        self.pc = 0;
        self.stack = Vec::new();
        self.i = 0;
        self.timers.reset();
        self.display.clear();
        self.waiting = None;
        assert(self.stack@ =~= Seq::<u16>::empty());
    }

    /// Whether both a font and a program are loaded.
    pub fn loaded(&self) -> (r: bool)
        requires
            self.wf(),
        ensures
            r == is_loaded(self@),
    {
        self.rom_loaded() && self.font_loaded()
    }

    /// Whether some byte of the program region is nonzero.
    fn rom_loaded(&self) -> (r: bool)
        requires
            self.wf(),
        ensures
            r == crate::memory::any_nonzero(self@.mem, PROGRAM_START as int, MEMORY_SIZE as int),
    {
        self.memory.region_nonzero(PROGRAM_START, MEMORY_SIZE)
    }

    /// Whether some byte of the font region is nonzero.
    fn font_loaded(&self) -> (r: bool)
        requires
            self.wf(),
        ensures
            r == crate::memory::any_nonzero(self@.mem, 0, PROGRAM_START as int),
    {
        self.memory.region_nonzero(0, PROGRAM_START)
    }

    /// Runs one instruction, or reports the key wait that holds the machine.
    /// A failed step changes nothing.
    pub fn step(&mut self) -> (r: Result<StepEvent, EmulatorError>)
        requires
            old(self).wf(),
        ensures
            final(self).wf(),
            (final(self)@, r) == step_spec(old(self)@),
    {
        reveal(step_spec);
        if self.waiting.is_some() {
            return Ok(StepEvent::AwaitingKey);
        }
        if self.pc + 1 >= MEMORY_SIZE {
            return Err(EmulatorError::OutOfBounds);
        }
        let hi = self.memory.at(self.pc);
        let lo = self.memory.at(self.pc + 1);
        let nib = u8_2_to_nibbles([hi, lo]);
        let op: u16 = (hi as u16) * 256 + (lo as u16);
        proof {
            assert(op == opcode_at(self@));
            assert(nib@[0] == op_a(op) && nib@[1] == op_x(op) && nib@[2] == op_y(op) && nib@[3]
                == op_n(op));
        }
        self.execute(op, nib[0], nib[1], nib[2], nib[3])
    }
}

} // verus!

verus! {

/// How an instruction word splits into its nibbles and fields.
proof fn lemma_decode(op: u16)
    ensures
        op_a(op) < 16,
        op_nnn(op) == op_x(op) * 256 + op_y(op) * 16 + op_n(op),
        op_nn(op) == op_y(op) * 16 + op_n(op),
{
    assert(op / 4096 < 16) by (bit_vector);
    assert(op % 4096 == ((op / 256) % 16) * 256 + ((op / 16) % 16) * 16 + op % 16) by (bit_vector);
    assert(op % 256 == ((op / 16) % 16) * 16 + op % 16) by (bit_vector);
}

impl CPU {
    /// Executes `op`, whose nibbles are `a`, `x`, `y`, `n`.
    fn execute(&mut self, op: u16, a: u8, x: u8, y: u8, n: u8) -> (r: Result<
        StepEvent,
        EmulatorError,
    >)
        requires
            old(self).wf(),
            a == op_a(op),
            x == op_x(op),
            y == op_y(op),
            n == op_n(op),
        ensures
            final(self).wf(),
            (final(self)@, r) == execute_spec(old(self)@, op),
    {
        proof {
            lemma_decode(op);
        }
        if a == 0x0 {
            self.exec_system(op, x, y, n)
        } else if a == 0x1 || a == 0x2 || a == 0xB {
            self.exec_flow(op, a, x, y, n)
        } else if a == 0x3 || a == 0x4 || a == 0x5 || a == 0x9 || a == 0xE {
            self.exec_skip(op, a, x, y, n)
        } else if a == 0x6 || a == 0x7 || a == 0xA || a == 0xC {
            self.exec_load(op, a, x, y, n)
        } else if a == 0x8 {
            self.exec_alu(op, x, y, n)
        } else if a == 0xD {
            self.exec_draw(op, x, y, n)
        } else {
            self.exec_misc(op, x, y, n)
        }
    }

    /// Clear, return and exit trap.
    fn exec_system(&mut self, op: u16, x: u8, y: u8, n: u8) -> (r: Result<StepEvent, EmulatorError>)
        requires
            old(self).wf(),
            op_a(op) == 0,
            x == op_x(op),
            y == op_y(op),
            n == op_n(op),
        ensures
            final(self).wf(),
            (final(self)@, r) == system_spec(old(self)@, op),
    {
        proof {
            lemma_decode(op);
        }
        if op == 0x00E0 {
            if self.pc + 2 >= MEMORY_SIZE {
                return Err(EmulatorError::OutOfBounds);
            }
            self.display.clear();
            self.pc = self.pc + 2;
            Ok(StepEvent::Continue)
        } else if op == 0x00EE {
            match self.stack.pop() {
                None => Err(EmulatorError::StackUnderflow),
                Some(addr) => {
                    self.pc = addr as usize;
                    Ok(StepEvent::Continue)
                },
            }
        } else {
            if self.pc + 2 >= MEMORY_SIZE {
                return Err(EmulatorError::OutOfBounds);
            }
            let code = nibbles_to_u16(x, y, n);
            self.pc = self.pc + 2;
            Ok(StepEvent::Halt(code))
        }
    }

    /// Jump, call, and jump offset by `V0`.
    fn exec_flow(&mut self, op: u16, a: u8, x: u8, y: u8, n: u8) -> (r: Result<
        StepEvent,
        EmulatorError,
    >)
        requires
            old(self).wf(),
            a == op_a(op),
            a == 1 || a == 2 || a == 0xB,
            x == op_x(op),
            y == op_y(op),
            n == op_n(op),
        ensures
            final(self).wf(),
            (final(self)@, r) == flow_spec(old(self)@, op),
    {
        proof {
            lemma_decode(op);
        }
        let nnn = nibbles_to_u16(x, y, n);
        if a == 0x1 {
            self.pc = nnn as usize;
            Ok(StepEvent::Continue)
        } else if a == 0x2 {
            if self.stack.len() >= STACK_DEPTH {
                return Err(EmulatorError::StackOverflow);
            }
            if self.pc + 2 >= MEMORY_SIZE {
                return Err(EmulatorError::OutOfBounds);
            }
            self.stack.push((self.pc + 2) as u16);
            self.pc = nnn as usize;
            Ok(StepEvent::Continue)
        } else {
            let target = nnn as usize + self.registers.at(0) as usize;
            if target >= MEMORY_SIZE {
                return Err(EmulatorError::OutOfBounds);
            }
            self.pc = target;
            Ok(StepEvent::Continue)
        }
    }

    /// Whether key `k` is down.
    fn key_is_down(&self, k: u8) -> (r: bool)
        requires
            self.wf(),
        ensures
            r == key_down(self@, k as int),
    {
        (k as usize) < KEY_COUNT && self.keys[k as usize]
    }

    /// The conditional skips.
    fn exec_skip(&mut self, op: u16, a: u8, x: u8, y: u8, n: u8) -> (r: Result<
        StepEvent,
        EmulatorError,
    >)
        requires
            old(self).wf(),
            a == op_a(op),
            a == 3 || a == 4 || a == 5 || a == 9 || a == 0xE,
            x == op_x(op),
            y == op_y(op),
            n == op_n(op),
        ensures
            final(self).wf(),
            (final(self)@, r) == skip_spec(old(self)@, op),
    {
        proof {
            lemma_decode(op);
        }
        let vx = self.registers.at(x);
        let cond: bool;
        if a == 0x3 {
            cond = vx == nibbles_to_u8(y, n);
        } else if a == 0x4 {
            cond = vx != nibbles_to_u8(y, n);
        } else if a == 0x5 && n == 0 {
            cond = vx == self.registers.at(y);
        } else if a == 0x9 && n == 0 {
            cond = vx != self.registers.at(y);
        } else if a == 0xE && y == 0x9 && n == 0xE {
            cond = self.key_is_down(vx);
        } else if a == 0xE && y == 0xA && n == 0x1 {
            cond = !self.key_is_down(vx);
        } else {
            return Err(EmulatorError::InvalidOpcode { pc: self.pc, opcode: op });
        }
        let adv: usize = if cond {
            4
        } else {
            2
        };
        if self.pc + adv >= MEMORY_SIZE {
            return Err(EmulatorError::OutOfBounds);
        }
        self.pc = self.pc + adv;
        Ok(StepEvent::Continue)
    }

    /// Loads of a register or of `I`, and the random byte.
    fn exec_load(&mut self, op: u16, a: u8, x: u8, y: u8, n: u8) -> (r: Result<
        StepEvent,
        EmulatorError,
    >)
        requires
            old(self).wf(),
            a == op_a(op),
            a == 6 || a == 7 || a == 0xA || a == 0xC,
            x == op_x(op),
            y == op_y(op),
            n == op_n(op),
        ensures
            final(self).wf(),
            (final(self)@, r) == load_spec(old(self)@, op),
    {
        proof {
            lemma_decode(op);
        }
        if self.pc + 2 >= MEMORY_SIZE {
            return Err(EmulatorError::OutOfBounds);
        }
        let nn = nibbles_to_u8(y, n);
        if a == 0x6 {
            self.registers.put(x, nn);
        } else if a == 0x7 {
            let vx = self.registers.at(x);
            self.registers.put(x, vx.wrapping_add(nn));
        } else if a == 0xA {
            self.i = nibbles_to_u16(x, y, n);
        } else {
            let s = self.rng.wrapping_mul(RNG_MULTIPLIER).wrapping_add(RNG_INCREMENT);
            self.rng = s;
            let b = (s >> 56u64) as u8;
            self.registers.put(x, b & nn);
        }
        self.pc = self.pc + 2;
        Ok(StepEvent::Continue)
    }

    /// Register arithmetic and logic.
    fn exec_alu(&mut self, op: u16, x: u8, y: u8, n: u8) -> (r: Result<StepEvent, EmulatorError>)
        requires
            old(self).wf(),
            op_a(op) == 8,
            x == op_x(op),
            y == op_y(op),
            n == op_n(op),
        ensures
            final(self).wf(),
            (final(self)@, r) == alu_spec(old(self)@, op),
    {
        if n > 0x7 && n != 0xE {
            return Err(EmulatorError::InvalidOpcode { pc: self.pc, opcode: op });
        }
        if self.pc + 2 >= MEMORY_SIZE {
            return Err(EmulatorError::OutOfBounds);
        }
        if n <= 0x3 {
            self.exec_logic(op, x, y, n)
        } else if n == 0x6 || n == 0xE {
            self.exec_shift(op, x, n)
        } else {
            self.exec_arith(op, x, y, n)
        }
    }

    /// Copy, or, and, xor of registers.
    fn exec_logic(&mut self, op: u16, x: u8, y: u8, n: u8) -> (r: Result<StepEvent, EmulatorError>)
        requires
            old(self).wf(),
            op_a(op) == 8,
            x == op_x(op),
            y == op_y(op),
            n == op_n(op),
            old(self)@.pc + 2 < MEMORY_SIZE,
            n <= 3,
        ensures
            final(self).wf(),
            (final(self)@, r) == alu_spec(old(self)@, op),
    {
        let vx = self.registers.at(x);
        let vy = self.registers.at(y);
        let val = if n == 0x0 {
            vy
        } else if n == 0x1 {
            vx | vy
        } else if n == 0x2 {
            vx & vy
        } else {
            vx ^ vy
        };
        self.registers.put(x, val);
        self.pc = self.pc + 2;
        Ok(StepEvent::Continue)
    }

    /// Shifts by one bit, the bit shifted out going to `VF`.
    fn exec_shift(&mut self, op: u16, x: u8, n: u8) -> (r: Result<StepEvent, EmulatorError>)
        requires
            old(self).wf(),
            op_a(op) == 8,
            x == op_x(op),
            n == op_n(op),
            old(self)@.pc + 2 < MEMORY_SIZE,
            n == 6 || n == 0xE,
        ensures
            final(self).wf(),
            (final(self)@, r) == alu_spec(old(self)@, op),
    {
        let vx = self.registers.at(x);
        if n == 0x6 {
            self.registers.put(0xF, vx & 1);
            self.registers.put(x, vx >> 1u8);
        } else {
            self.registers.put(0xF, (vx >> 7u8) & 1);
            self.registers.put(x, vx.wrapping_mul(2));
        }
        self.pc = self.pc + 2;
        Ok(StepEvent::Continue)
    }

    /// Addition and the two subtractions, with carry or no-borrow in `VF`.
    fn exec_arith(&mut self, op: u16, x: u8, y: u8, n: u8) -> (r: Result<StepEvent, EmulatorError>)
        requires
            old(self).wf(),
            op_a(op) == 8,
            x == op_x(op),
            y == op_y(op),
            n == op_n(op),
            old(self)@.pc + 2 < MEMORY_SIZE,
            n == 4 || n == 5 || n == 7,
        ensures
            final(self).wf(),
            (final(self)@, r) == alu_spec(old(self)@, op),
    {
        let vx = self.registers.at(x);
        let vy = self.registers.at(y);
        let (val, flag) = if n == 0x4 {
            (vx.wrapping_add(vy), (vx as u16) + (vy as u16) > 255)
        } else if n == 0x5 {
            (vx.wrapping_sub(vy), vx >= vy)
        } else {
            (vy.wrapping_sub(vx), vy >= vx)
        };
        self.registers.put(x, val);
        self.registers.put(
            0xF,
            if flag {
                1
            } else {
                0
            },
        );
        self.pc = self.pc + 2;
        Ok(StepEvent::Continue)
    }

    /// Draws the sprite of `n` bytes at `I` at `(Vx, Vy)`.
    fn exec_draw(&mut self, op: u16, x: u8, y: u8, n: u8) -> (r: Result<StepEvent, EmulatorError>)
        requires
            old(self).wf(),
            op_a(op) == 0xD,
            x == op_x(op),
            y == op_y(op),
            n == op_n(op),
        ensures
            final(self).wf(),
            (final(self)@, r) == draw_spec(old(self)@, op),
    {
        let count = n as usize;
        if self.i as usize + count > MEMORY_SIZE {
            return Err(EmulatorError::OutOfBounds);
        }
        if self.pc + 2 >= MEMORY_SIZE {
            return Err(EmulatorError::OutOfBounds);
        }
        let sprite = self.memory.read_range(self.i as usize, count);
        let vx = self.registers.at(x);
        let vy = self.registers.at(y);
        let hit = self.display.draw((vx % 64) as usize, (vy % 32) as usize, sprite.as_slice());
        self.registers.put(
            0xF,
            if hit {
                1
            } else {
                0
            },
        );
        self.pc = self.pc + 2;
        Ok(StepEvent::Continue)
    }

    /// Timers, `I` arithmetic, key wait and memory transfers.
    fn exec_misc(&mut self, op: u16, x: u8, y: u8, n: u8) -> (r: Result<StepEvent, EmulatorError>)
        requires
            old(self).wf(),
            op_a(op) == 0xF,
            x == op_x(op),
            y == op_y(op),
            n == op_n(op),
        ensures
            final(self).wf(),
            (final(self)@, r) == misc_spec(old(self)@, op),
    {
        proof {
            lemma_decode(op);
        }
        let nn = nibbles_to_u8(y, n);
        let vx = self.registers.at(x);
        if nn != 0x07 && nn != 0x0A && nn != 0x15 && nn != 0x18 && nn != 0x1E && nn != 0x29 && nn
            != 0x33 && nn != 0x55 && nn != 0x65 {
            return Err(EmulatorError::InvalidOpcode { pc: self.pc, opcode: op });
        }
        let base = self.i as usize;
        if nn == 0x33 && base + 3 > MEMORY_SIZE {
            return Err(EmulatorError::OutOfBounds);
        }
        if (nn == 0x55 || nn == 0x65) && base + (x as usize) + 1 > MEMORY_SIZE {
            return Err(EmulatorError::OutOfBounds);
        }
        if self.pc + 2 >= MEMORY_SIZE {
            return Err(EmulatorError::OutOfBounds);
        }
        let ghost m0 = self@;
        if nn == 0x07 {
            self.registers.put(x, self.timers.delay);
        } else if nn == 0x0A {
            self.waiting = Some(x);
            self.pc = self.pc + 2;
            return Ok(StepEvent::AwaitingKey);
        } else if nn == 0x15 {
            self.timers.delay = vx;
        } else if nn == 0x18 {
            self.timers.sound = vx;
        } else if nn == 0x1E {
            self.i = self.i.wrapping_add(vx as u16);
        } else if nn == 0x29 {
            self.i = (vx as u16) * GLYPH_SIZE;
        } else if nn == 0x33 {
            self.memory.put(base, vx / 100);
            self.memory.put(base + 1, (vx / 10) % 10);
            self.memory.put(base + 2, vx % 10);
            assert(self.memory@ =~= spliced(m0.mem, base as int, bcd(vx)));
        } else if nn == 0x55 {
            assert(spliced(m0.mem, base as int, m0.v.subrange(0, 0)) =~= m0.mem);
            let mut k: usize = 0;
            while k <= x as usize
                invariant
                    self.wf(),
                    x < 16,
                    base + x + 1 <= MEMORY_SIZE,
                    0 <= k <= x + 1,
                    self@ == (Machine {
                        mem: spliced(m0.mem, base as int, m0.v.subrange(0, k as int)),
                        ..m0
                    }),
                decreases x + 1 - k,
            {
                let val = self.registers.at(k as u8);
                self.memory.put(base + k, val);
                assert(spliced(m0.mem, base as int, m0.v.subrange(0, k + 1)) =~= spliced(
                    m0.mem,
                    base as int,
                    m0.v.subrange(0, k as int),
                ).update(base + k, m0.v[k as int]));
                k += 1;
            }
        } else {
            assert(spliced(m0.v, 0, m0.mem.subrange(base as int, base as int)) =~= m0.v);
            let mut k: usize = 0;
            while k <= x as usize
                invariant
                    self.wf(),
                    x < 16,
                    base + x + 1 <= MEMORY_SIZE,
                    0 <= k <= x + 1,
                    self@ == (Machine {
                        v: spliced(m0.v, 0, m0.mem.subrange(base as int, base + k)),
                        ..m0
                    }),
                decreases x + 1 - k,
            {
                let val = self.memory.at(base + k);
                self.registers.put(k as u8, val);
                assert(spliced(m0.v, 0, m0.mem.subrange(base as int, base + k + 1)) =~= spliced(
                    m0.v,
                    0,
                    m0.mem.subrange(base as int, base + k),
                ).update(k as int, m0.mem[base + k]));
                k += 1;
            }
        }
        self.pc = self.pc + 2;
        Ok(StepEvent::Continue)
    }
}

} // verus!

verus! {

impl CPU {
    /// The value of register `x`; fails for an index above fifteen.
    pub fn register(&self, x: u8) -> (r: Result<u8, EmulatorError>)
        requires
            self.wf(),
        ensures
            x < 16 ==> r == Ok::<u8, EmulatorError>(self@.v[x as int]),
            x >= 16 ==> r == Err::<u8, EmulatorError>(EmulatorError::InvalidRegister(x)),
    {
        self.registers.get(x)
    }

    /// The byte at `addr`; fails outside memory.
    pub fn memory_byte(&self, addr: usize) -> (r: Result<u8, EmulatorError>)
        requires
            self.wf(),
        ensures
            addr < MEMORY_SIZE ==> r == Ok::<u8, EmulatorError>(self@.mem[addr as int]),
            addr >= MEMORY_SIZE ==> r == Err::<u8, EmulatorError>(EmulatorError::OutOfBounds),
    {
        self.memory.read_byte(addr)
    }

    /// The program counter.
    pub fn pc(&self) -> (r: usize)
        ensures
            r == self@.pc,
    {
        self.pc
    }

    /// The index register `I`.
    pub fn index(&self) -> (r: u16)
        ensures
            r == self@.i,
    {
        self.i
    }

    /// How many return addresses the call stack holds.
    pub fn stack_depth(&self) -> (r: usize)
        ensures
            r == self@.stack.len(),
    {
        self.stack.len()
    }

    /// The delay timer.
    pub fn delay_timer(&self) -> (r: u8)
        ensures
            r == self@.delay,
    {
        self.timers.delay
    }

    /// The sound timer.
    pub fn sound_timer(&self) -> (r: u8)
        ensures
            r == self@.sound,
    {
        self.timers.sound
    }

    /// Whether sound plays: the sound timer is above zero.
    pub fn sound_active(&self) -> (r: bool)
        ensures
            r == (self@.sound > 0),
    {
        self.timers.sound_active()
    }

    /// One tick of the outside clock: each timer above zero goes down by one.
    pub fn tick_timers(&mut self)
        requires
            old(self).wf(),
        ensures
            final(self).wf(),
            final(self)@ == (Machine {
                delay: if old(self)@.delay > 0 {
                    (old(self)@.delay - 1) as u8
                } else {
                    0
                },
                sound: if old(self)@.sound > 0 {
                    (old(self)@.sound - 1) as u8
                } else {
                    0
                },
                ..old(self)@
            }),
    {
        self.timers.tick();
    }

    /// Whether the pixel at column `x`, row `y` is lit.
    pub fn pixel(&self, x: usize, y: usize) -> (r: bool)
        requires
            self.wf(),
            x < WIDTH,
            y < HEIGHT,
        ensures
            r == self@.screen[y * 64 + x],
    {
        self.display.pixel(x, y)
    }

    /// Whether key `k` is down; there is no key above fifteen.
    pub fn key_pressed(&self, k: u8) -> (r: bool)
        requires
            self.wf(),
        ensures
            r == key_down(self@, k as int),
    {
        self.key_is_down(k)
    }

    /// Sets key `k` down or up. A key that goes down while a key is awaited
    /// is written to the waiting register and ends the wait.
    pub fn set_key(&mut self, k: usize, down: bool)
        requires
            old(self).wf(),
            k < KEY_COUNT,
        ensures
            final(self).wf(),
            final(self)@ == key_spec(old(self)@, k as int, down),
    {
        let was_down = self.keys[k];
        self.keys.set(k, down);
        match self.waiting {
            Some(x) => {
                if down && !was_down {
                    self.registers.put(x, k as u8);
                    self.waiting = None;
                }
            },
            None => {},
        }
    }

    /// The register that receives the next key press, while one is awaited.
    pub fn awaiting_key(&self) -> (r: Option<u8>)
        ensures
            r == self@.waiting,
    {
        self.waiting
    }

    /// Sets the state of the random-number generator.
    pub fn seed_random(&mut self, seed: u64)
        requires
            old(self).wf(),
        ensures
            final(self).wf(),
            final(self)@ == (Machine { rng: seed, ..old(self)@ }),
    {
        self.rng = seed;
    }
}

} // verus!
