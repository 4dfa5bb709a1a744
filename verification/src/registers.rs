//! The register file: eight general-purpose 16-bit registers, a program
//! counter, and a three-valued condition flag.
use vstd::prelude::*;

verus! {

/// Address at which the program counter starts.
pub const PC_START: u16 = 0x3000;

/// Condition flag: the last flag-setting write stored a positive value.
pub const FL_POS: u16 = 1;

/// Condition flag: the last flag-setting write stored zero.
pub const FL_ZRO: u16 = 2;

/// Condition flag: the last flag-setting write stored a value with its
/// most significant bit set.
pub const FL_NEG: u16 = 4;

/// The condition flag is always exactly one of the three defined values.
pub open spec fn flag_wf(cond: u16) -> bool {
    cond == FL_POS || cond == FL_ZRO || cond == FL_NEG
}

/// The flag value that describes a register value: ZERO for zero,
/// NEGATIVE when the most significant bit is set, POSITIVE otherwise.
pub open spec fn flag_for(value: u16) -> u16 {
    if value == 0 {
        FL_ZRO
    } else if (value >> 15) != 0 {
        FL_NEG
    } else {
        FL_POS
    }
}

/// The three flag values are mutually exclusive: exactly one describes any
/// register value, ZERO exactly for zero, NEGATIVE exactly when bit 15 is
/// set, POSITIVE for the rest.
pub proof fn lemma_flag_for_exclusive(value: u16)
    ensures
        (flag_for(value) == FL_ZRO) <==> (value == 0),
        (flag_for(value) == FL_NEG) <==> ((value >> 15) & 1 == 1),
        (flag_for(value) == FL_POS) <==> (value != 0 && (value >> 15) & 1 == 0),
        flag_wf(flag_for(value)),
{
    assert(((value >> 15) != 0) == ((value >> 15) & 1 == 1)) by (bit_vector);
    assert((value >> 15) & 1 == 0 || (value >> 15) & 1 == 1) by (bit_vector);
    assert((value >> 15) & 1 == 1 ==> value != 0) by (bit_vector);
}

/// The register file. The condition flag is mutated only by
/// [`Registers::update_cond_reg`], which every flag-setting instruction
/// calls on its destination register.
pub struct Registers {
    /// The eight general-purpose registers.
    pub regs: Vec<u16>,
    /// The program counter.
    pub pc: u16,
    /// The condition flag, one of [`FL_POS`], [`FL_ZRO`], [`FL_NEG`].
    pub cond: u16,
}

impl View for Registers {
    type V = Seq<u16>;

    open spec fn view(&self) -> Seq<u16> {
        self.regs@
    }
}

impl Registers {
    /// There are eight general-purpose registers and the flag holds one of
    /// its three defined values.
    pub open spec fn wf(&self) -> bool {
        self@.len() == 8 && flag_wf(self.cond)
    }

    /// A fresh register file: all general-purpose registers zero, the
    /// program counter at the start address, the flag ZERO.
    pub fn new() -> (r: Registers)
        ensures
            r.wf(),
            r@ == Seq::new(8, |i: int| 0u16),
            r.pc == PC_START,
            r.cond == FL_ZRO,
    {
        let mut regs: Vec<u16> = Vec::new();
        let mut i: usize = 0;
        while i < 8
            invariant
                i <= 8,
                regs@.len() == i,
                forall|j: int| 0 <= j < i ==> regs@[j] == 0u16,
            decreases 8 - i,
        {
            regs.push(0);
            i += 1;
        }
        let r = Registers { regs, pc: PC_START, cond: FL_ZRO };
        proof {
            assert(r@ =~= Seq::new(8, |i: int| 0u16));
        }
        r
    }

    /// Reads the general-purpose register at `idx`.
    pub fn get(&self, idx: usize) -> (r: &u16)
        requires
            idx < 8,
            self.wf(),
        ensures
            *r == self@[idx as int],
    {
        &self.regs[idx]
    }

    /// Borrows the general-purpose register at `idx` for writing.
    pub fn get_mut(&mut self, idx: usize) -> (r: &mut u16)
        requires
            idx < 8,
            old(self).wf(),
        ensures
            *r == old(self)@[idx as int],
            final(self)@ == old(self)@.update(idx as int, *final(r)),
            final(self).pc == old(self).pc,
            final(self).cond == old(self).cond,
            final(self).wf(),
    {
        &mut self.regs[idx]
    }

    /// Recomputes the condition flag from the current value of register
    /// `idx`: ZERO if it is zero, NEGATIVE if its most significant bit is
    /// set, POSITIVE otherwise.
    pub fn update_cond_reg(&mut self, idx: usize)
        requires
            idx < 8,
            old(self).wf(),
        ensures
            final(self).wf(),
            final(self)@ == old(self)@,
            final(self).pc == old(self).pc,
            final(self).cond == flag_for(old(self)@[idx as int]),
    {
        if *self.get(idx) == 0 {
            self.cond = FL_ZRO;
        } else if (*self.get(idx) >> 15) != 0 {
            self.cond = FL_NEG;
        } else {
            self.cond = FL_POS;
        }
    }
}

} // verus!
