//! The executable machine: memory, register file, the modelled keyboard
//! queue and output buffer, the program loader, and the
//! fetch-decode-execute engine. Every operation is proved to follow the
//! transition function of [`crate::isa`].
use vstd::prelude::*;

use crate::bits::{low_byte, high_byte, sign_extend, test_bit, bit, reg_field, wrapping_add16};
use crate::bits::{low8, high8, wadd};
use crate::isa::{
    MEM_SIZE, MR_KBDR, MR_KBSR, OP_ADD, OP_AND, OP_BR, OP_JMP, OP_JSR, OP_LD, OP_LDI, OP_LDR,
    OP_LEA, OP_NOT, OP_ST, OP_STI, OP_STR, OP_TRAP, TRAP_GETC, TRAP_HALT, TRAP_IN, TRAP_OUT,
    TRAP_PUTS, TRAP_PUTSP,
};
use crate::isa::{
    exec_instr_view, halt_seq, lemma_run_n_extend, mem_read_view, prompt_seq, puts_seq, putsp_seq,
    run_matches, run_n, step_needs_key, step_view, trap_view, with_mem, with_out, with_pc,
    with_reg, with_reg_flags, RunStatus, StepOutcome, VmError, VmView,
};
use crate::registers::{Registers, FL_ZRO, PC_START};

verus! {

/// Turns a raw byte image into the word image the loader takes: each
/// pair of bytes becomes one word, the first byte of the pair most
/// significant. A trailing odd byte is dropped.
pub fn program_form_u8(bin: Vec<u8>) -> (r: Vec<u16>)
    ensures
        r@.len() == bin@.len() / 2,
        forall|j: int| 0 <= j < r@.len() ==> r@[j] == bin@[2 * j] * 256 + bin@[2 * j + 1],
{
    let mut r: Vec<u16> = Vec::new();
    let mut i: usize = 0;
    while i + 1 < bin.len()
        invariant
            i % 2 == 0,
            i <= bin@.len(),
            r@.len() == i / 2,
            forall|j: int| 0 <= j < r@.len() ==> r@[j] == bin@[2 * j] * 256 + bin@[2 * j + 1],
        decreases bin@.len() - i,
    {
        let w = crate::bits::word_from_be_bytes(bin[i], bin[i + 1]);
        r.push(w);
        i += 2;
    }
    proof {
        assert(i == bin@.len() || i + 1 == bin@.len());
        assert(i / 2 == bin@.len() / 2);
    }
    r
}

/// Why a program image was rejected by the loader.
#[derive(Clone, Copy, Debug, PartialEq, Eq, Structural)]
pub enum LoadError {
    /// The image holds no words at all, not even an origin.
    EmptyProgram,
    /// The payload does not fit between its origin and the end of memory.
    DoesNotFit,
}

/// The machine. Host input is a queue of pending key bytes; host output
/// is a byte buffer the front end drains. Both make every cycle a
/// deterministic transition on the state.
pub struct VM {
    memory: Vec<u16>,
    regs: Registers,
    input: Vec<u8>,
    output: Vec<u8>,
    halted: bool,
}

impl View for VM {
    type V = VmView;

    closed spec fn view(&self) -> VmView {
        VmView {
            mem: self.memory@,
            regs: self.regs@,
            pc: self.regs.pc,
            cond: self.regs.cond,
            input: self.input@,
            output: self.output@,
            halted: self.halted,
        }
    }
}

/// The view of a fresh machine: zeroed memory and registers, the program
/// counter at the start address, flag ZERO, no pending keys, no output.
pub open spec fn init_view() -> VmView {
    VmView {
        mem: Seq::new(MEM_SIZE as nat, |i: int| 0u16),
        regs: Seq::new(8, |i: int| 0u16),
        pc: PC_START,
        cond: FL_ZRO,
        input: Seq::empty(),
        output: Seq::empty(),
        halted: false,
    }
}

/// The view after loading a program image: the payload words sit at
/// consecutive addresses from the origin (the image's first word), and
/// the program counter is at the origin.
pub open spec fn load_view(v: VmView, prog: Seq<u16>) -> VmView {
    VmView {
        mem: Seq::new(
            v.mem.len(),
            |i: int|
                if prog[0] <= i < prog[0] + prog.len() - 1 {
                    prog[i - prog[0] + 1]
                } else {
                    v.mem[i]
                },
        ),
        pc: prog[0],
        ..v
    }
}

impl VM {
    /// The machine state is well formed.
    pub open spec fn wf(&self) -> bool {
        self@.wf()
    }

    /// A fresh machine.
    pub fn new() -> (vm: VM)
        ensures
            vm.wf(),
            vm@ == init_view(),
    {
        let mut memory: Vec<u16> = Vec::new();
        let mut i: usize = 0;
        while i < MEM_SIZE
            invariant
                i <= MEM_SIZE,
                memory@.len() == i,
                forall|j: int| 0 <= j < i ==> memory@[j] == 0u16,
            decreases MEM_SIZE - i,
        {
            memory.push(0);
            i += 1;
        }
        let vm = VM {
            memory,
            regs: Registers::new(),
            input: Vec::new(),
            output: Vec::new(),
            halted: false,
        };
        proof {
            assert(vm@.mem =~= init_view().mem);
            assert(vm@ =~= init_view());
        }
        vm
    }

    /// A fresh machine with a program image already loaded, or the
    /// loader's error for a rejected image.
    pub fn with_program(self, program: Vec<u16>) -> (r: Result<VM, LoadError>)
        requires
            self.wf(),
        ensures
            match r {
                Ok(vm) => {
                    &&& vm.wf()
                    &&& program@.len() >= 1
                    &&& program@[0] + program@.len() - 1 <= MEM_SIZE
                    &&& vm@ == load_view(self@, program@)
                },
                Err(LoadError::EmptyProgram) => program@.len() == 0,
                Err(LoadError::DoesNotFit) => {
                    &&& program@.len() >= 1
                    &&& program@[0] + program@.len() - 1 > MEM_SIZE
                },
            },
    {
        let mut vm = self;
        match vm.load_program(program) {
            Ok(()) => Ok(vm),
            Err(e) => Err(e),
        }
    }

    /// Copies the payload of a program image into memory starting at its
    /// origin word and puts the program counter at the origin. An image
    /// without an origin word, or whose payload would run past the end of
    /// memory, is rejected unchanged: addresses are not wrapped.
    pub fn load_program(&mut self, program: Vec<u16>) -> (r: Result<(), LoadError>)
        requires
            old(self).wf(),
        ensures
            final(self).wf(),
            match r {
                Ok(()) => {
                    &&& program@.len() >= 1
                    &&& program@[0] + program@.len() - 1 <= MEM_SIZE
                    &&& final(self)@ == load_view(old(self)@, program@)
                },
                Err(LoadError::EmptyProgram) => {
                    &&& program@.len() == 0
                    &&& final(self)@ == old(self)@
                },
                Err(LoadError::DoesNotFit) => {
                    &&& program@.len() >= 1
                    &&& program@[0] + program@.len() - 1 > MEM_SIZE
                    &&& final(self)@ == old(self)@
                },
            },
    {
        if program.len() == 0 {
            return Err(LoadError::EmptyProgram);
        }
        let base = program[0];
        if program.len() - 1 > MEM_SIZE - base as usize {
            return Err(LoadError::DoesNotFit);
        }
        let mut i: usize = 0;
        while i < program.len() - 1
            invariant
                old(self).wf(),
                self.wf(),
                program@.len() >= 1,
                base == program@[0],
                i <= program@.len() - 1,
                base + program@.len() - 1 <= MEM_SIZE,
                self@.regs == old(self)@.regs,
                self@.pc == old(self)@.pc,
                self@.cond == old(self)@.cond,
                self@.input == old(self)@.input,
                self@.output == old(self)@.output,
                self@.halted == old(self)@.halted,
                self@.mem.len() == MEM_SIZE,
                forall|j: int|
                    0 <= j < MEM_SIZE && !(base <= j < base + i) ==> self@.mem[j] == old(
                        self,
                    )@.mem[j],
                forall|j: int| 0 <= j < i ==> self@.mem[base + j] == #[trigger] program@[j + 1],
            decreases program@.len() - 1 - i,
        {
            self.memory.set(base as usize + i, program[i + 1]);
            i += 1;
        }
        self.regs.pc = base;
        proof {
            assert(self@.mem =~= load_view(old(self)@, program@).mem);
            assert(self@ =~= load_view(old(self)@, program@));
        }
        Ok(())
    }

    /// Queues one host key byte for the keyboard device.
    pub fn push_key(&mut self, key: u8)
        requires
            old(self).wf(),
        ensures
            final(self).wf(),
            final(self)@ == (VmView { input: old(self)@.input.push(key), ..old(self)@ }),
    {
        self.input.push(key);
    }

    /// Hands out everything written to the host output so far and clears
    /// the buffer.
    pub fn take_output(&mut self) -> (out: Vec<u8>)
        requires
            old(self).wf(),
        ensures
            final(self).wf(),
            out@ == old(self)@.output,
            final(self)@ == (VmView { output: Seq::empty(), ..old(self)@ }),
    {
        let mut out: Vec<u8> = Vec::new();
        core::mem::swap(&mut out, &mut self.output);
        out
    }

    /// The program counter.
    pub fn pc(&self) -> (pc: u16)
        ensures
            pc == self@.pc,
    {
        self.regs.pc
    }

    /// The condition flag.
    pub fn cond(&self) -> (cond: u16)
        ensures
            cond == self@.cond,
    {
        self.regs.cond
    }

    /// The value of general-purpose register `idx`.
    pub fn reg(&self, idx: usize) -> (r: u16)
        requires
            idx < 8,
            self.wf(),
        ensures
            r == self@.regs[idx as int],
    {
        *self.regs.get(idx)
    }

    /// Whether a HALT trap has stopped the machine.
    pub fn is_halted(&self) -> (h: bool)
        ensures
            h == self@.halted,
    {
        self.halted
    }

    /// The word stored at `addr`, without the keyboard side effect of an
    /// executed read.
    pub fn mem_at(&self, addr: u16) -> (w: u16)
        requires
            self.wf(),
        ensures
            w == self@.mem[addr as int],
    {
        self.memory[addr as usize]
    }

    /// A memory read as the running machine performs it, keyboard side
    /// effect included: reading the keyboard status address polls the key
    /// queue and updates the two device registers first.
    pub fn read_from_mem(&mut self, addr: u16) -> (r: u16)
        requires
            old(self).wf(),
        ensures
            final(self).wf(),
            final(self)@ == mem_read_view(old(self)@, addr).0,
            r == mem_read_view(old(self)@, addr).1,
    {
        if addr == MR_KBSR {
            if self.input.len() > 0 {
                let key = self.input.remove(0);
                self.memory.set(MR_KBSR as usize, 0x8000);
                self.memory.set(MR_KBDR as usize, key as u16);
                proof {
                    assert(self@.input =~= old(self)@.input.skip(1));
                    assert(self@ =~= mem_read_view(old(self)@, addr).0);
                }
            } else {
                self.memory.set(MR_KBSR as usize, 0);
                proof {
                    assert(self@ =~= mem_read_view(old(self)@, addr).0);
                }
            }
        }
        self.memory[addr as usize]
    }

    /// Stores `value` at `addr` unconditionally; a store to a device
    /// address simply overwrites the device state.
    pub fn write_to_mem(&mut self, addr: u16, value: u16)
        requires
            old(self).wf(),
        ensures
            final(self).wf(),
            final(self)@ == with_mem(old(self)@, addr as int, value),
    {
        self.memory.set(addr as usize, value);
        proof {
            assert(self@ =~= with_mem(old(self)@, addr as int, value));
        }
    }

    /// Appends one byte to the host output.
    fn push_output_byte(&mut self, b: u8)
        requires
            old(self).wf(),
        ensures
            final(self).wf(),
            final(self)@ == with_out(old(self)@, seq![b]),
    {
        self.output.push(b);
        proof {
            assert(self@.output =~= old(self)@.output + seq![b]);
            assert(self@ =~= with_out(old(self)@, seq![b]));
        }
    }

    /// Writes the prompt of the IN trap to the host output.
    fn push_prompt(&mut self)
        requires
            old(self).wf(),
        ensures
            final(self).wf(),
            final(self)@ == with_out(old(self)@, prompt_seq()),
    {
        self.output.push(69);
        self.output.push(110);
        self.output.push(116);
        self.output.push(101);
        self.output.push(114);
        self.output.push(32);
        self.output.push(97);
        self.output.push(32);
        self.output.push(99);
        self.output.push(104);
        self.output.push(97);
        self.output.push(114);
        self.output.push(97);
        self.output.push(99);
        self.output.push(116);
        self.output.push(101);
        self.output.push(114);
        self.output.push(58);
        self.output.push(32);
        proof {
            assert(self@.output =~= old(self)@.output + prompt_seq());
            assert(self@ =~= with_out(old(self)@, prompt_seq()));
        }
    }

    /// Writes the HALT message to the host output.
    fn push_halt_msg(&mut self)
        requires
            old(self).wf(),
        ensures
            final(self).wf(),
            final(self)@ == with_out(old(self)@, halt_seq()),
    {
        self.output.push(10);
        self.output.push(72);
        self.output.push(65);
        self.output.push(76);
        self.output.push(84);
        self.output.push(10);
        proof {
            assert(self@.output =~= old(self)@.output + halt_seq());
            assert(self@ =~= with_out(old(self)@, halt_seq()));
        }
    }

    /// The PUTS trap: writes the low byte of each word from the address
    /// in register 0 up to the first zero word.
    fn trap_puts(&mut self)
        requires
            old(self).wf(),
        ensures
            final(self).wf(),
            final(self)@ == with_out(
                old(self)@,
                puts_seq(old(self)@.mem, old(self)@.regs[0] as int),
            ),
    {
        let start = *self.regs.get(0);
        let mut addr: usize = start as usize;
        while addr < MEM_SIZE && self.memory[addr] != 0
            invariant
                self.wf(),
                start == old(self)@.regs[0],
                start as int <= addr <= MEM_SIZE,
                self@.mem == old(self)@.mem,
                self@.regs == old(self)@.regs,
                self@.pc == old(self)@.pc,
                self@.cond == old(self)@.cond,
                self@.input == old(self)@.input,
                self@.halted == old(self)@.halted,
                old(self)@.output + puts_seq(old(self)@.mem, start as int) == self@.output
                    + puts_seq(old(self)@.mem, addr as int),
            decreases MEM_SIZE - addr,
        {
            let w = self.memory[addr];
            let b = low_byte(w);
            self.output.push(b);
            proof {
                assert(puts_seq(old(self)@.mem, addr as int) =~= seq![low8(w)] + puts_seq(
                    old(self)@.mem,
                    addr + 1,
                ));
                assert(old(self)@.output + puts_seq(old(self)@.mem, start as int) =~= self@.output
                    + puts_seq(old(self)@.mem, addr + 1));
            }
            addr += 1;
        }
        proof {
            assert(puts_seq(old(self)@.mem, addr as int) =~= Seq::<u8>::empty());
            assert(self@.output =~= old(self)@.output + puts_seq(
                old(self)@.mem,
                old(self)@.regs[0] as int,
            ));
            assert(self@ =~= with_out(
                old(self)@,
                puts_seq(old(self)@.mem, old(self)@.regs[0] as int),
            ));
        }
    }

    /// The PUTSP trap: writes the low byte then the high byte of each word
    /// from the address in register 0 up to the first zero word.
    fn trap_putsp(&mut self)
        requires
            old(self).wf(),
        ensures
            final(self).wf(),
            final(self)@ == with_out(
                old(self)@,
                putsp_seq(old(self)@.mem, old(self)@.regs[0] as int),
            ),
    {
        let start = *self.regs.get(0);
        let mut addr: usize = start as usize;
        while addr < MEM_SIZE && self.memory[addr] != 0
            invariant
                self.wf(),
                start == old(self)@.regs[0],
                start as int <= addr <= MEM_SIZE,
                self@.mem == old(self)@.mem,
                self@.regs == old(self)@.regs,
                self@.pc == old(self)@.pc,
                self@.cond == old(self)@.cond,
                self@.input == old(self)@.input,
                self@.halted == old(self)@.halted,
                old(self)@.output + putsp_seq(old(self)@.mem, start as int) == self@.output
                    + putsp_seq(old(self)@.mem, addr as int),
            decreases MEM_SIZE - addr,
        {
            let w = self.memory[addr];
            self.output.push(low_byte(w));
            self.output.push(high_byte(w));
            proof {
                assert(putsp_seq(old(self)@.mem, addr as int) =~= seq![low8(w), high8(w)]
                    + putsp_seq(old(self)@.mem, addr + 1));
                assert(old(self)@.output + putsp_seq(old(self)@.mem, start as int) =~= self@.output
                    + putsp_seq(old(self)@.mem, addr + 1));
            }
            addr += 1;
        }
        proof {
            assert(putsp_seq(old(self)@.mem, addr as int) =~= Seq::<u8>::empty());
            assert(self@.output =~= old(self)@.output + putsp_seq(
                old(self)@.mem,
                old(self)@.regs[0] as int,
            ));
            assert(self@ =~= with_out(
                old(self)@,
                putsp_seq(old(self)@.mem, old(self)@.regs[0] as int),
            ));
        }
    }

    /// Advances the program counter by one, wrapping modulo 2^16.
    pub fn inc_pc(&mut self)
        requires
            old(self).wf(),
        ensures
            final(self).wf(),
            final(self)@ == with_pc(old(self)@, wadd(old(self)@.pc, 1)),
    {
        self.regs.pc = wrapping_add16(self.regs.pc, 1);
        proof {
            assert(self@ =~= with_pc(old(self)@, wadd(old(self)@.pc, 1)));
        }
    }
    /// One fetch-decode-execute cycle, as [`step_view`] describes it.
    ///
    /// When the next instruction is a key-consuming trap and no key is
    /// queued, nothing changes and the outcome asks for input: queue a key
    /// with [`VM::push_key`] and step again. A fetch of the keyboard
    /// status address never decodes to such a trap, so any other cycle
    /// runs to its outcome without blocking.
    pub fn step(&mut self) -> (o: StepOutcome)
        requires
            old(self).wf(),
        ensures
            final(self).wf(),
            final(self)@ == step_view(old(self)@).0,
            o == step_view(old(self)@).1,
            o is Halted ==> final(self)@.halted,
            !(o is Halted) ==> final(self)@.halted == old(self)@.halted,
    {
        let pc0 = self.regs.pc;
        if pc0 != MR_KBSR {
            let peek = self.memory[pc0 as usize];
            if (peek >> 12) == OP_TRAP {
                let t = peek & 0xFF;
                if (t == TRAP_GETC || t == TRAP_IN) && self.input.len() == 0 {
                    proof {
                        assert(step_needs_key(self@));
                    }
                    return StepOutcome::NeedInput;
                }
            }
        }
        proof {
            assert(!step_needs_key(old(self)@));
        }
        let instr = self.read_from_mem(pc0);
        self.inc_pc();
        let ghost v1 = self@;
        proof {
            assert(step_view(old(self)@) == exec_instr_view(v1, instr));
        }
        let op = instr >> 12;
        if op == OP_BR {
            let cond_flags = (instr >> 9) & 7;
            let offset = sign_extend(instr & 0x1FF, 9);
            if (cond_flags & self.regs.cond) > 0 {
                let npc = wrapping_add16(self.regs.pc, offset);
                self.regs.pc = npc;
            }
            proof {
                assert(self@ =~= exec_instr_view(v1, instr).0);
            }
            StepOutcome::Ran
        } else if op == OP_ADD {
            let dr = reg_field(instr, 9);
            let sr1 = reg_field(instr, 6);
            let a = *self.regs.get(sr1 as usize);
            let val: u16;
            if test_bit(instr, bit(5)) {
                let imm5 = sign_extend(instr & 0x1F, 5);
                val = wrapping_add16(a, imm5);
            } else {
                let sr2 = instr & 7;
                proof {
                    assert(instr & 7 < 8) by (bit_vector);
                }
                val = wrapping_add16(a, *self.regs.get(sr2 as usize));
            }
            *self.regs.get_mut(dr as usize) = val;
            self.regs.update_cond_reg(dr as usize);
            proof {
                assert((1u16 << 5u16) == 0x20) by (bit_vector);
                assert(self@ =~= exec_instr_view(v1, instr).0);
            }
            StepOutcome::Ran
        } else if op == OP_LD {
            let offset = sign_extend(instr & 0x1FF, 9);
            let dr = reg_field(instr, 9);
            let addr = wrapping_add16(self.regs.pc, offset);
            let w = self.read_from_mem(addr);
            *self.regs.get_mut(dr as usize) = w;
            self.regs.update_cond_reg(dr as usize);
            proof {
                assert(self@ =~= exec_instr_view(v1, instr).0);
            }
            StepOutcome::Ran
        } else if op == OP_ST {
            let offset = sign_extend(instr & 0x1FF, 9);
            let sr = reg_field(instr, 9);
            let addr = wrapping_add16(self.regs.pc, offset);
            let val = *self.regs.get(sr as usize);
            self.write_to_mem(addr, val);
            proof {
                assert(self@ =~= exec_instr_view(v1, instr).0);
            }
            StepOutcome::Ran
        } else if op == OP_JSR {
            let pc_now = self.regs.pc;
            *self.regs.get_mut(7) = pc_now;
            if !test_bit(instr, bit(11)) {
                let base_reg = reg_field(instr, 6);
                let target = *self.regs.get(base_reg as usize);
                self.regs.pc = target;
            } else {
                let offset = sign_extend(instr & 0x7FF, 11);
                let npc = wrapping_add16(self.regs.pc, offset);
                self.regs.pc = npc;
            }
            proof {
                assert((1u16 << 11u16) == 0x800) by (bit_vector);
                assert(self@ =~= exec_instr_view(v1, instr).0);
            }
            StepOutcome::Ran
        } else if op == OP_AND {
            let dr = reg_field(instr, 9);
            let sr1 = reg_field(instr, 6);
            let a = *self.regs.get(sr1 as usize);
            let val: u16;
            if test_bit(instr, bit(5)) {
                let imm5 = sign_extend(instr & 0x1F, 5);
                val = a & imm5;
            } else {
                let sr2 = instr & 7;
                proof {
                    assert(instr & 7 < 8) by (bit_vector);
                }
                val = a & *self.regs.get(sr2 as usize);
            }
            *self.regs.get_mut(dr as usize) = val;
            self.regs.update_cond_reg(dr as usize);
            proof {
                assert((1u16 << 5u16) == 0x20) by (bit_vector);
                assert(self@ =~= exec_instr_view(v1, instr).0);
            }
            StepOutcome::Ran
        } else if op == OP_LDR {
            let offset = sign_extend(instr & 0x3F, 6);
            let base_reg = reg_field(instr, 6);
            let dr = reg_field(instr, 9);
            let base = *self.regs.get(base_reg as usize);
            let addr = wrapping_add16(base, offset);
            let w = self.read_from_mem(addr);
            *self.regs.get_mut(dr as usize) = w;
            self.regs.update_cond_reg(dr as usize);
            proof {
                assert(self@ =~= exec_instr_view(v1, instr).0);
            }
            StepOutcome::Ran
        } else if op == OP_STR {
            let offset = sign_extend(instr & 0x3F, 6);
            let base_reg = reg_field(instr, 6);
            let sr = reg_field(instr, 9);
            let base = *self.regs.get(base_reg as usize);
            let addr = wrapping_add16(base, offset);
            let val = *self.regs.get(sr as usize);
            self.write_to_mem(addr, val);
            proof {
                assert(self@ =~= exec_instr_view(v1, instr).0);
            }
            StepOutcome::Ran
        } else if op == OP_NOT {
            let dr = reg_field(instr, 9);
            let sr = reg_field(instr, 6);
            let val = !*self.regs.get(sr as usize);
            *self.regs.get_mut(dr as usize) = val;
            self.regs.update_cond_reg(dr as usize);
            proof {
                assert(self@ =~= exec_instr_view(v1, instr).0);
            }
            StepOutcome::Ran
        } else if op == OP_LDI {
            let dr = reg_field(instr, 9);
            let offset = sign_extend(instr & 0x1FF, 9);
            let addr = wrapping_add16(self.regs.pc, offset);
            let indirect = self.read_from_mem(addr);
            let w = self.read_from_mem(indirect);
            *self.regs.get_mut(dr as usize) = w;
            self.regs.update_cond_reg(dr as usize);
            proof {
                assert(self@ =~= exec_instr_view(v1, instr).0);
            }
            StepOutcome::Ran
        } else if op == OP_STI {
            let offset = sign_extend(instr & 0x1FF, 9);
            let sr = reg_field(instr, 9);
            let addr = wrapping_add16(self.regs.pc, offset);
            let indirect = self.read_from_mem(addr);
            let val = *self.regs.get(sr as usize);
            self.write_to_mem(indirect, val);
            proof {
                assert(self@ =~= exec_instr_view(v1, instr).0);
            }
            StepOutcome::Ran
        } else if op == OP_JMP {
            let base_reg = reg_field(instr, 6);
            let target = *self.regs.get(base_reg as usize);
            self.regs.pc = target;
            proof {
                assert(self@ =~= exec_instr_view(v1, instr).0);
            }
            StepOutcome::Ran
        } else if op == OP_LEA {
            let offset = sign_extend(instr & 0x1FF, 9);
            let dr = reg_field(instr, 9);
            let val = wrapping_add16(self.regs.pc, offset);
            *self.regs.get_mut(dr as usize) = val;
            self.regs.update_cond_reg(dr as usize);
            proof {
                assert(self@ =~= exec_instr_view(v1, instr).0);
            }
            StepOutcome::Ran
        } else if op == OP_TRAP {
            let pc_now = self.regs.pc;
            *self.regs.get_mut(7) = pc_now;
            let t = instr & 0xFF;
            if t == TRAP_GETC {
                if self.input.len() > 0 {
                    let key = self.input.remove(0);
                    *self.regs.get_mut(0) = key as u16;
                    self.regs.update_cond_reg(0);
                    proof {
                        assert(self@.input =~= v1.input.skip(1));
                        assert(self@ =~= trap_view(v1, instr).0);
                    }
                    StepOutcome::Ran
                } else {
                    proof {
                        assert(self@ =~= trap_view(v1, instr).0);
                    }
                    StepOutcome::NeedInput
                }
            } else if t == TRAP_OUT {
                let b = low_byte(*self.regs.get(0));
                self.push_output_byte(b);
                proof {
                    assert(self@ =~= trap_view(v1, instr).0);
                }
                StepOutcome::Ran
            } else if t == TRAP_PUTS {
                self.trap_puts();
                proof {
                    assert(self@ =~= trap_view(v1, instr).0);
                }
                StepOutcome::Ran
            } else if t == TRAP_IN {
                self.push_prompt();
                if self.input.len() > 0 {
                    let key = self.input.remove(0);
                    *self.regs.get_mut(0) = key as u16;
                    self.regs.update_cond_reg(0);
                    proof {
                        assert(self@.input =~= v1.input.skip(1));
                        assert(self@ =~= trap_view(v1, instr).0);
                    }
                    StepOutcome::Ran
                } else {
                    proof {
                        assert(self@ =~= trap_view(v1, instr).0);
                    }
                    StepOutcome::NeedInput
                }
            } else if t == TRAP_PUTSP {
                self.trap_putsp();
                proof {
                    assert(self@ =~= trap_view(v1, instr).0);
                }
                StepOutcome::Ran
            } else if t == TRAP_HALT {
                self.push_halt_msg();
                self.halted = true;
                proof {
                    assert(self@ =~= trap_view(v1, instr).0);
                }
                StepOutcome::Halted
            } else {
                proof {
                    assert(self@ =~= trap_view(v1, instr).0);
                }
                StepOutcome::Fatal(VmError::UnsupportedTrap(t))
            }
        } else {
            proof {
                assert(self@ =~= exec_instr_view(v1, instr).0);
            }
            StepOutcome::Fatal(VmError::UnsupportedOpcode(op))
        }
    }

    /// Drives the machine for at most `max_steps` cycles: until a HALT
    /// trap ends the run cleanly, a fatal condition ends it with its
    /// error, a trap demands a key with none queued (an exhausted input),
    /// or the budget runs out with the machine ready to be driven on.
    pub fn run(&mut self, max_steps: u64) -> (r: RunStatus)
        requires
            old(self).wf(),
        ensures
            final(self).wf(),
            match r {
                RunStatus::OutOfSteps => {
                    &&& final(self)@ == run_n(old(self)@, max_steps as nat)
                    &&& forall|k: nat|
                        k < max_steps ==> #[trigger] step_view(run_n(old(self)@, k)).1 is Ran
                },
                _ => exists|n: nat|
                    n <= max_steps && #[trigger] run_matches(old(self)@, n, final(self)@, r),
            },
    {
        let ghost v0 = self@;
        let mut steps: u64 = 0;
        while steps < max_steps
            invariant
                self.wf(),
                steps <= max_steps,
                v0 == old(self)@,
                self@ == run_n(v0, steps as nat),
                forall|k: nat| k < steps ==> #[trigger] step_view(run_n(v0, k)).1 is Ran,
            decreases max_steps - steps,
        {
            let o = self.step();
            match o {
                StepOutcome::Ran => {
                    proof {
                        lemma_run_n_extend(v0, steps as nat);
                    }
                    steps += 1;
                },
                StepOutcome::Halted => {
                    proof {
                        assert(run_matches(v0, steps as nat, self@, RunStatus::Halted));
                    }
                    return RunStatus::Halted;
                },
                StepOutcome::NeedInput => {
                    proof {
                        assert(run_matches(
                            v0,
                            steps as nat,
                            self@,
                            RunStatus::Failed(VmError::InputExhausted),
                        ));
                    }
                    return RunStatus::Failed(VmError::InputExhausted);
                },
                StepOutcome::Fatal(e) => {
                    proof {
                        assert(run_matches(v0, steps as nat, self@, RunStatus::Failed(e)));
                    }
                    return RunStatus::Failed(e);
                },
            }
        }
        RunStatus::OutOfSteps
    }
}

} // verus!
