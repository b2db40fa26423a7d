//! The sixteen general-purpose 8-bit registers `V0` to `VF`.
use vstd::prelude::*;
use crate::error::EmulatorError;

verus! {

/// Number of general-purpose registers.
pub const REGISTER_COUNT: usize = 16;

/// Sixteen zero registers.
pub open spec fn zero_registers() -> Seq<u8> {
    Seq::new(REGISTER_COUNT as nat, |i: int| 0u8)
}

/// The register file, as a vector of exactly sixteen values.
#[derive(Debug)]
pub struct Registers {
    regs: Vec<u8>,
}

impl View for Registers {
    type V = Seq<u8>;

    closed spec fn view(&self) -> Seq<u8> {
        self.regs@
    }
}

impl Registers {
    /// There are exactly sixteen registers.
    pub open spec fn wf(&self) -> bool {
        self@.len() == REGISTER_COUNT
    }

    /// Sixteen registers holding zero.
    pub fn new() -> (r: Registers)
        ensures
            r.wf(),
            r@ == zero_registers(),
    {
        let regs: Vec<u8> = vec![0, 0, 0, 0, 0, 0, 0, 0, 0, 0, 0, 0, 0, 0, 0, 0];
        assert(regs@ =~= zero_registers());
        Registers { regs }
    }

    /// Sets every register to zero.
    pub fn reset(&mut self)
        requires
            old(self).wf(),
        ensures
            final(self).wf(),
            final(self)@ == zero_registers(),
    {
        let mut i: usize = 0;
        while i < REGISTER_COUNT
            invariant
                self.regs.len() == REGISTER_COUNT,
                0 <= i <= REGISTER_COUNT,
                forall|j: int| 0 <= j < i ==> self.regs@[j] == 0,
            decreases REGISTER_COUNT - i,
        {
            self.regs.set(i, 0);
            i += 1;
        }
        assert(self.regs@ =~= zero_registers());
    }

    /// The value of register `x`.
    pub fn get(&self, x: u8) -> (r: Result<u8, EmulatorError>)
        requires
            self.wf(),
        ensures
            x < 16 ==> r == Ok::<u8, EmulatorError>(self@[x as int]),
            x >= 16 ==> r == Err::<u8, EmulatorError>(EmulatorError::InvalidRegister(x)),
    {
        if Self::index_valid(x) {
            Ok(self.regs[x as usize])
        } else {
            Err(EmulatorError::InvalidRegister(x))
        }
    }

    /// Writes `v` into register `x`.
    pub fn set(&mut self, x: u8, v: u8) -> (r: Result<(), EmulatorError>)
        requires
            old(self).wf(),
        ensures
            final(self).wf(),
            x < 16 ==> r is Ok && final(self)@ == old(self)@.update(x as int, v),
            x >= 16 ==> r == Err::<(), EmulatorError>(EmulatorError::InvalidRegister(x))
                && final(self)@ == old(self)@,
    {
        if Self::index_valid(x) {
            self.regs.set(x as usize, v);
            Ok(())
        } else {
            Err(EmulatorError::InvalidRegister(x))
        }
    }

    /// Whether `x` names a register.
    pub fn index_valid(x: u8) -> (r: bool)
        ensures
            r == (x < 16),
    {
        x < 16
    }

    /// The value of register `x`, which must name a register.
    pub fn at(&self, x: u8) -> (r: u8)
        requires
            self.wf(),
            x < 16,
        ensures
            r == self@[x as int],
    {
        self.regs[x as usize]
    }

    /// Writes `v` into register `x`, which must name a register.
    pub fn put(&mut self, x: u8, v: u8)
        requires
            old(self).wf(),
            x < 16,
        ensures
            final(self).wf(),
            final(self)@ == old(self)@.update(x as int, v),
    {
        self.regs.set(x as usize, v);
    }
}

} // verus!
