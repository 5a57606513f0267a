//! stvec register: the trap-vector base address and the trap mode, packed
//! into one machine word.
use vstd::prelude::*;

verus! {

/// Trap mode held in the two low bits of the register.
#[derive(Clone, Copy, Debug, PartialEq, Eq, Structural)]
pub enum TrapMode {
    /// All traps set `pc` to the base address (mode bits `0`).
    Direct,
    /// Asynchronous interrupts set `pc` to the base address plus four times
    /// the interrupt cause (mode bits `1`).
    Vectored,
}

/// Raw code of a trap mode, as it stands in the low bits of the register.
pub open spec fn mode_code(mode: TrapMode) -> usize {
    match mode {
        TrapMode::Direct => 0,
        TrapMode::Vectored => 1,
    }
}

/// Base address held in a raw word: the word with its two low bits cleared.
pub open spec fn address_of(bits: usize) -> usize {
    (bits - bits % 4) as usize
}

/// Whether the two low bits of a raw word name a defined trap mode.
pub open spec fn mode_defined(bits: usize) -> bool {
    bits % 4 < 2
}

/// Trap mode held in a raw word whose mode bits are defined.
pub open spec fn mode_of(bits: usize) -> TrapMode {
    if bits % 4 == 0 {
        TrapMode::Direct
    } else {
        TrapMode::Vectored
    }
}

/// Raw word that holds an aligned base address and a trap mode.
pub open spec fn encoded(addr: usize, mode: TrapMode) -> usize {
    (addr + mode_code(mode)) as usize
}

/// stvec register
#[derive(Clone, Copy, Debug)]
pub struct Stvec {
    bits: usize,
}

impl Stvec {
    /// Raw word of the register.
    pub closed spec fn spec_bits(&self) -> usize {
        self.bits
    }

    /// Wraps a raw word read from the register.
    pub fn from_bits(bits: usize) -> (r: Stvec)
        ensures
            r.spec_bits() == bits,
    {
        Stvec { bits }
    }

    /// Returns the contents of the register as raw bits
    pub fn bits(&self) -> (r: usize)
        ensures
            r == self.spec_bits(),
    {
        self.bits
    }

    /// Returns the trap-vector base-address
    pub fn address(&self) -> (r: usize)
        ensures
            r == address_of(self.spec_bits()),
            r % 4 == 0,
            r == self.spec_bits() & !3usize,
    {
        let low = self.bits & 0b11;
        proof {
            let b = self.bits;
            assert(b & 3 == b % 4) by (bit_vector);
            assert(b - (b & 3) == b & !3usize) by (bit_vector);
        }
        self.bits - low
    }

    /// Returns the trap-vector mode
    pub fn trap_mode(&self) -> (r: TrapMode)
        requires
            mode_defined(self.spec_bits()),
        ensures
            r == mode_of(self.spec_bits()),
            mode_code(r) == self.spec_bits() % 4,
    {
        let mode = self.bits & 0b11;
        proof {
            let b = self.bits;
            assert(b & 3 == b % 4) by (bit_vector);
        }
        if mode == 0 {
            TrapMode::Direct
        } else {
            TrapMode::Vectored
        }
    }
}

/// Raw word to write to the register for an aligned base address and a trap
/// mode.
pub fn encode(addr: usize, mode: TrapMode) -> (r: usize)
    requires
        addr % 4 == 0,
    ensures
        r == encoded(addr, mode),
        r == addr | mode_code(mode),
{
    proof {
        assert(addr % 4 == 0 ==> (addr + 1) as usize == addr + 1) by (bit_vector);
        assert(addr % 4 == 0 ==> addr + 1 == addr | 1usize) by (bit_vector);
        assert(addr | 0usize == addr) by (bit_vector);
    }
    match mode {
        TrapMode::Direct => addr,
        TrapMode::Vectored => addr + 1,
    }
}

/// Decoding the word that [`encode`] gives returns the base address and the
/// trap mode that went in.
pub proof fn lemma_decode_encoded(addr: usize, mode: TrapMode)
    requires
        addr % 4 == 0,
    ensures
        mode_defined(encoded(addr, mode)),
        address_of(encoded(addr, mode)) == addr,
        mode_of(encoded(addr, mode)) == mode,
{
    assert(addr % 4 == 0 ==> (addr + 1) as usize == addr + 1) by (bit_vector);
}

/// Encoding the base address and the trap mode read from a register value
/// gives back its raw word, so writing back what was read leaves the
/// register's address and mode as they were.
pub proof fn lemma_encode_decoded(s: Stvec)
    requires
        mode_defined(s.spec_bits()),
    ensures
        address_of(s.spec_bits()) % 4 == 0,
        encoded(address_of(s.spec_bits()), mode_of(s.spec_bits())) == s.spec_bits(),
{
}

} // verus!
