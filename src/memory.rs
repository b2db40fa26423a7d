//! The flat byte memory of the machine.
use vstd::prelude::*;
use crate::error::EmulatorError;

verus! {

/// Number of addressable bytes.
pub const MEMORY_SIZE: usize = 4096;

/// First address of the program region; below it lies the font region.
pub const PROGRAM_START: usize = 0x200;

/// A memory of `MEMORY_SIZE` zero bytes.
pub open spec fn zero_memory() -> Seq<u8> {
    Seq::new(MEMORY_SIZE as nat, |i: int| 0u8)
}

/// `mem` with `bytes` copied over it from `offset` on.
pub open spec fn spliced(mem: Seq<u8>, offset: int, bytes: Seq<u8>) -> Seq<u8> {
    Seq::new(
        mem.len(),
        |i: int|
            if offset <= i < offset + bytes.len() {
                bytes[i - offset]
            } else {
                mem[i]
            },
    )
}

/// Some byte in `lo..hi` is nonzero.
pub open spec fn any_nonzero(mem: Seq<u8>, lo: int, hi: int) -> bool {
    exists|i: int| lo <= i < hi && #[trigger] mem[i] != 0
}

/// The memory, as a vector of exactly `MEMORY_SIZE` bytes.
#[derive(Debug)]
pub struct Memory {
    bytes: Vec<u8>,
}

impl View for Memory {
    type V = Seq<u8>;

    closed spec fn view(&self) -> Seq<u8> {
        self.bytes@
    }
}

impl Memory {
    /// The memory holds exactly `MEMORY_SIZE` bytes.
    pub open spec fn wf(&self) -> bool {
        self@.len() == MEMORY_SIZE
    }

    /// A zeroed memory.
    pub fn new() -> (r: Memory)
        ensures
            r.wf(),
            r@ == zero_memory(),
    {
        let mut bytes: Vec<u8> = Vec::new();
        while bytes.len() < MEMORY_SIZE
            invariant
                bytes.len() <= MEMORY_SIZE,
                forall|i: int| 0 <= i < bytes.len() ==> bytes@[i] == 0,
            decreases MEMORY_SIZE - bytes.len(),
        {
            bytes.push(0);
        }
        assert(bytes@ =~= zero_memory());
        Memory { bytes }
    }

    /// Sets every byte to zero.
    pub fn clear(&mut self)
        requires
            old(self).wf(),
        ensures
            final(self).wf(),
            final(self)@ == zero_memory(),
    {
        let mut i: usize = 0;
        while i < self.bytes.len()
            invariant
                self.bytes.len() == MEMORY_SIZE,
                0 <= i <= MEMORY_SIZE,
                forall|j: int| 0 <= j < i ==> self.bytes@[j] == 0,
            decreases MEMORY_SIZE - i,
        {
            self.bytes.set(i, 0);
            i += 1;
        }
        assert(self.bytes@ =~= zero_memory());
    }

    /// Copies `bytes` into memory from `offset` on; fails, writing nothing,
    /// where they would run past the end.
    pub fn load(&mut self, offset: usize, bytes: &[u8]) -> (r: Result<(), EmulatorError>)
        requires
            old(self).wf(),
        ensures
            final(self).wf(),
            offset + bytes@.len() > MEMORY_SIZE ==> r == Err::<(), EmulatorError>(
                EmulatorError::OutOfBounds,
            ) && final(self)@ == old(self)@,
            offset + bytes@.len() <= MEMORY_SIZE ==> r is Ok && final(self)@ == spliced(
                old(self)@,
                offset as int,
                bytes@,
            ),
    {
        if offset > MEMORY_SIZE || bytes.len() > MEMORY_SIZE - offset {
            return Err(EmulatorError::OutOfBounds);
        }
        let ghost before = self.bytes@;
        let mut k: usize = 0;
        while k < bytes.len()
            invariant
                self.bytes.len() == MEMORY_SIZE,
                offset + bytes@.len() <= MEMORY_SIZE,
                0 <= k <= bytes@.len(),
                forall|i: int|
                    0 <= i < MEMORY_SIZE ==> #[trigger] self.bytes@[i] == if offset <= i < offset
                        + k {
                        bytes@[i - offset]
                    } else {
                        before[i]
                    },
            decreases bytes@.len() - k,
        {
            self.bytes.set(offset + k, bytes[k]);
            k += 1;
        }
        assert(self.bytes@ =~= spliced(before, offset as int, bytes@));
        Ok(())
    }

    /// The byte at `addr`.
    pub fn read_byte(&self, addr: usize) -> (r: Result<u8, EmulatorError>)
        requires
            self.wf(),
        ensures
            addr < MEMORY_SIZE ==> r == Ok::<u8, EmulatorError>(self@[addr as int]),
            addr >= MEMORY_SIZE ==> r == Err::<u8, EmulatorError>(EmulatorError::OutOfBounds),
    {
        if addr < self.bytes.len() {
            Ok(self.bytes[addr])
        } else {
            Err(EmulatorError::OutOfBounds)
        }
    }

    /// Writes `v` at `addr`.
    pub fn write_byte(&mut self, addr: usize, v: u8) -> (r: Result<(), EmulatorError>)
        requires
            old(self).wf(),
        ensures
            final(self).wf(),
            addr < MEMORY_SIZE ==> r is Ok && final(self)@ == old(self)@.update(addr as int, v),
            addr >= MEMORY_SIZE ==> r == Err::<(), EmulatorError>(EmulatorError::OutOfBounds)
                && final(self)@ == old(self)@,
    {
        if addr < self.bytes.len() {
            self.bytes.set(addr, v);
            Ok(())
        } else {
            Err(EmulatorError::OutOfBounds)
        }
    }

    /// The byte at `addr`, which must lie in memory.
    pub fn at(&self, addr: usize) -> (r: u8)
        requires
            self.wf(),
            addr < MEMORY_SIZE,
        ensures
            r == self@[addr as int],
    {
        self.bytes[addr]
    }

    /// Writes `v` at `addr`, which must lie in memory.
    pub fn put(&mut self, addr: usize, v: u8)
        requires
            old(self).wf(),
            addr < MEMORY_SIZE,
        ensures
            final(self).wf(),
            final(self)@ == old(self)@.update(addr as int, v),
    {
        self.bytes.set(addr, v);
    }

    /// A copy of the `len` bytes from `addr` on, which must lie in memory.
    pub fn read_range(&self, addr: usize, len: usize) -> (r: Vec<u8>)
        requires
            self.wf(),
            addr + len <= MEMORY_SIZE,
        ensures
            r@ == self@.subrange(addr as int, addr + len),
    {
        let mut out: Vec<u8> = Vec::new();
        let mut k: usize = 0;
        while k < len
            invariant
                self.wf(),
                addr + len <= MEMORY_SIZE,
                0 <= k <= len,
                out@ == self@.subrange(addr as int, addr + k),
            decreases len - k,
        {
            out.push(self.bytes[addr + k]);
            k += 1;
            assert(out@ =~= self@.subrange(addr as int, addr + k));
        }
        out
    }

    /// Whether some byte in `lo..hi` is nonzero.
    pub fn region_nonzero(&self, lo: usize, hi: usize) -> (r: bool)
        requires
            self.wf(),
            lo <= hi <= MEMORY_SIZE,
        ensures
            r == any_nonzero(self@, lo as int, hi as int),
    {
        let mut i: usize = lo;
        while i < hi
            invariant
                self.wf(),
                lo <= i <= hi <= MEMORY_SIZE,
                forall|j: int| lo <= j < i ==> self@[j] == 0,
            decreases hi - i,
        {
            if self.bytes[i] != 0 {
                return true;
            }
            i += 1;
        }
        false
    }
}

} // verus!
