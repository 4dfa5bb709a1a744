//! The instruction-set model: a mathematical view of the whole machine
//! state and the transition function that one fetch-decode-execute cycle
//! performs on it. The executable engine in [`crate::vm`] is proved to
//! follow this transition function exactly.
use vstd::prelude::*;

use crate::bits::{high8, low8, sign_ext, wadd};
use crate::registers::{flag_for, flag_wf};

verus! {

/// Opcode: conditional branch.
pub const OP_BR: u16 = 0;

/// Opcode: add.
pub const OP_ADD: u16 = 1;

/// Opcode: load.
pub const OP_LD: u16 = 2;

/// Opcode: store.
pub const OP_ST: u16 = 3;

/// Opcode: jump to subroutine.
pub const OP_JSR: u16 = 4;

/// Opcode: bitwise and.
pub const OP_AND: u16 = 5;

/// Opcode: load base + offset.
pub const OP_LDR: u16 = 6;

/// Opcode: store base + offset.
pub const OP_STR: u16 = 7;

/// Opcode: return from interrupt; unsupported, fatal.
pub const OP_RTI: u16 = 8;

/// Opcode: bitwise not.
pub const OP_NOT: u16 = 9;

/// Opcode: load indirect.
pub const OP_LDI: u16 = 10;

/// Opcode: store indirect.
pub const OP_STI: u16 = 11;

/// Opcode: jump.
pub const OP_JMP: u16 = 12;

/// Opcode: reserved; unsupported, fatal.
pub const OP_RES: u16 = 13;

/// Opcode: load effective address.
pub const OP_LEA: u16 = 14;

/// Opcode: execute trap.
pub const OP_TRAP: u16 = 15;

/// Trap code: read one key, without echo.
pub const TRAP_GETC: u16 = 0x20;

/// Trap code: write one character.
pub const TRAP_OUT: u16 = 0x21;

/// Trap code: write a word string, one character per word.
pub const TRAP_PUTS: u16 = 0x22;

/// Trap code: prompt and read one key.
pub const TRAP_IN: u16 = 0x23;

/// Trap code: write a byte string, two characters per word.
pub const TRAP_PUTSP: u16 = 0x24;

/// Trap code: halt the program.
pub const TRAP_HALT: u16 = 0x25;

/// Memory-mapped keyboard status register: bit 15 set means a key is
/// available.
pub const MR_KBSR: u16 = 0xFE00;

/// Memory-mapped keyboard data register: holds the last key read.
pub const MR_KBDR: u16 = 0xFE02;

/// Number of addressable memory words.
pub const MEM_SIZE: usize = 0x10000;

/// A fatal condition met while executing instructions.
#[derive(Clone, Copy, Debug, PartialEq, Eq, Structural)]
pub enum VmError {
    /// A reserved or unknown opcode was decoded.
    UnsupportedOpcode(u16),
    /// A trap instruction carried a code outside the six known routines.
    UnsupportedTrap(u16),
    /// A trap demanded a key but the host input queue was exhausted.
    InputExhausted,
}

/// What one execution cycle did.
#[derive(Clone, Copy, Debug, PartialEq, Eq, Structural)]
pub enum StepOutcome {
    /// An instruction was executed; the machine keeps running.
    Ran,
    /// The next instruction demands a key and none is queued; nothing was
    /// changed. Queue a key and step again.
    NeedInput,
    /// A HALT trap was executed; the machine is stopped.
    Halted,
    /// A fatal condition; the machine is left at the point of the error.
    Fatal(VmError),
}

/// The mathematical view of the whole machine: memory, register file,
/// pending host keys, host output bytes, and whether a HALT was executed.
#[verifier::ext_equal]
pub struct VmView {
    /// The 65536 memory words.
    pub mem: Seq<u16>,
    /// The eight general-purpose registers.
    pub regs: Seq<u16>,
    /// The program counter.
    pub pc: u16,
    /// The condition flag.
    pub cond: u16,
    /// Host keys not yet consumed, oldest first.
    pub input: Seq<u8>,
    /// Host output bytes, oldest first.
    pub output: Seq<u8>,
    /// Whether a HALT trap has stopped the machine.
    pub halted: bool,
}

impl VmView {
    /// Memory and register file have their fixed sizes and the condition
    /// flag is one of its three values.
    pub open spec fn wf(self) -> bool {
        &&& self.mem.len() == MEM_SIZE
        &&& self.regs.len() == 8
        &&& flag_wf(self.cond)
    }
}

/// The view with the program counter replaced.
pub open spec fn with_pc(v: VmView, pc: u16) -> VmView {
    VmView { pc, ..v }
}

/// The view with general-purpose register `r` replaced.
pub open spec fn with_reg(v: VmView, r: int, val: u16) -> VmView {
    VmView { regs: v.regs.update(r, val), ..v }
}

/// The view with register `r` replaced and the condition flag updated
/// from the written value.
pub open spec fn with_reg_flags(v: VmView, r: int, val: u16) -> VmView {
    VmView { regs: v.regs.update(r, val), cond: flag_for(val), ..v }
}

/// The view with the word at `addr` replaced.
pub open spec fn with_mem(v: VmView, addr: int, val: u16) -> VmView {
    VmView { mem: v.mem.update(addr, val), ..v }
}

/// The view with `bytes` appended to the host output.
pub open spec fn with_out(v: VmView, bytes: Seq<u8>) -> VmView {
    VmView { output: v.output + bytes, ..v }
}

/// A memory read and its side effect. A read of the keyboard status
/// address first polls the host: with a key pending, status gains bit 15,
/// the data register receives the key, and the key is consumed; with none
/// pending the status register is cleared. Every other address is plain
/// storage.
pub open spec fn mem_read_view(v: VmView, addr: u16) -> (VmView, u16) {
    if addr == MR_KBSR {
        if v.input.len() > 0 {
            let m = v.mem.update(MR_KBSR as int, 0x8000u16).update(
                MR_KBDR as int,
                v.input[0] as u16,
            );
            (VmView { mem: m, input: v.input.skip(1), ..v }, 0x8000u16)
        } else {
            (VmView { mem: v.mem.update(MR_KBSR as int, 0u16), ..v }, 0u16)
        }
    } else {
        (v, v.mem[addr as int])
    }
}

/// Opcode field: bits 15 to 12.
pub open spec fn op_of(i: u16) -> u16 {
    i >> 12
}

/// Destination (or source, for stores) register field: bits 11 to 9.
pub open spec fn dr_of(i: u16) -> int {
    ((i >> 9) & 7) as int
}

/// First source (or base) register field: bits 8 to 6.
pub open spec fn sr1_of(i: u16) -> int {
    ((i >> 6) & 7) as int
}

/// Second source register field: bits 2 to 0.
pub open spec fn sr2_of(i: u16) -> int {
    (i & 7) as int
}

/// Sign-extended 9-bit offset field.
pub open spec fn off9_of(i: u16) -> u16 {
    sign_ext(i & 0x1FF, 9)
}

/// Sign-extended 6-bit offset field.
pub open spec fn off6_of(i: u16) -> u16 {
    sign_ext(i & 0x3F, 6)
}

/// Sign-extended 11-bit offset field.
pub open spec fn off11_of(i: u16) -> u16 {
    sign_ext(i & 0x7FF, 11)
}

/// Sign-extended 5-bit immediate field.
pub open spec fn imm5_of(i: u16) -> u16 {
    sign_ext(i & 0x1F, 5)
}

/// Trap code field: the low byte.
pub open spec fn trap_of(i: u16) -> u16 {
    i & 0xFF
}

/// Whether the instruction selects immediate mode for ADD and AND: bit 5.
pub open spec fn imm_mode(i: u16) -> bool {
    (i & 0x20) > 0
}

/// The word string starting at `addr`: the low byte of each word before
/// the first zero word, within the memory bounds.
pub open spec fn puts_seq(mem: Seq<u16>, addr: int) -> Seq<u8>
    decreases MEM_SIZE - addr,
{
    if addr < 0 || addr >= MEM_SIZE as int || mem[addr] == 0 {
        Seq::empty()
    } else {
        seq![low8(mem[addr])] + puts_seq(mem, addr + 1)
    }
}

/// The byte string starting at `addr`: low byte then high byte of each
/// word before the first zero word, within the memory bounds.
pub open spec fn putsp_seq(mem: Seq<u16>, addr: int) -> Seq<u8>
    decreases MEM_SIZE - addr,
{
    if addr < 0 || addr >= MEM_SIZE as int || mem[addr] == 0 {
        Seq::empty()
    } else {
        seq![low8(mem[addr]), high8(mem[addr])] + putsp_seq(mem, addr + 1)
    }
}

/// The bytes of the prompt the IN trap writes before reading a key.
pub open spec fn prompt_seq() -> Seq<u8> {
    seq![
        69u8,
        110u8,
        116u8,
        101u8,
        114u8,
        32u8,
        97u8,
        32u8,
        99u8,
        104u8,
        97u8,
        114u8,
        97u8,
        99u8,
        116u8,
        101u8,
        114u8,
        58u8,
        32u8,
    ]
}

/// The bytes the HALT trap writes: a line break, the word HALT, a line
/// break.
pub open spec fn halt_seq() -> Seq<u8> {
    seq![10u8, 72u8, 65u8, 76u8, 84u8, 10u8]
}

/// The trap dispatcher: register 7 receives the return address, then the
/// low byte of the instruction selects the routine.
pub open spec fn trap_view(v: VmView, i: u16) -> (VmView, StepOutcome) {
    let v1 = with_reg(v, 7, v.pc);
    let t = trap_of(i);
    if t == TRAP_GETC {
        if v1.input.len() > 0 {
            let v2 = with_reg_flags(v1, 0, v1.input[0] as u16);
            (VmView { input: v1.input.skip(1), ..v2 }, StepOutcome::Ran)
        } else {
            (v1, StepOutcome::NeedInput)
        }
    } else if t == TRAP_OUT {
        (with_out(v1, seq![low8(v1.regs[0])]), StepOutcome::Ran)
    } else if t == TRAP_PUTS {
        (with_out(v1, puts_seq(v1.mem, v1.regs[0] as int)), StepOutcome::Ran)
    } else if t == TRAP_IN {
        let v2 = with_out(v1, prompt_seq());
        if v2.input.len() > 0 {
            let v3 = with_reg_flags(v2, 0, v2.input[0] as u16);
            (VmView { input: v2.input.skip(1), ..v3 }, StepOutcome::Ran)
        } else {
            (v2, StepOutcome::NeedInput)
        }
    } else if t == TRAP_PUTSP {
        (with_out(v1, putsp_seq(v1.mem, v1.regs[0] as int)), StepOutcome::Ran)
    } else if t == TRAP_HALT {
        (VmView { halted: true, ..with_out(v1, halt_seq()) }, StepOutcome::Halted)
    } else {
        (v1, StepOutcome::Fatal(VmError::UnsupportedTrap(t)))
    }
}

/// Executes one decoded instruction on the view reached after the fetch
/// and the program-counter increment.
pub open spec fn exec_instr_view(v: VmView, i: u16) -> (VmView, StepOutcome) {
    let op = op_of(i);
    if op == OP_BR {
        let mask = (i >> 9) & 7;
        if (mask & v.cond) > 0 {
            (with_pc(v, wadd(v.pc, off9_of(i))), StepOutcome::Ran)
        } else {
            (v, StepOutcome::Ran)
        }
    } else if op == OP_ADD {
        let a = v.regs[sr1_of(i)];
        let b = if imm_mode(i) {
            imm5_of(i)
        } else {
            v.regs[sr2_of(i)]
        };
        (with_reg_flags(v, dr_of(i), wadd(a, b)), StepOutcome::Ran)
    } else if op == OP_LD {
        let r = mem_read_view(v, wadd(v.pc, off9_of(i)));
        (with_reg_flags(r.0, dr_of(i), r.1), StepOutcome::Ran)
    } else if op == OP_ST {
        (with_mem(v, wadd(v.pc, off9_of(i)) as int, v.regs[dr_of(i)]), StepOutcome::Ran)
    } else if op == OP_JSR {
        let v1 = with_reg(v, 7, v.pc);
        if (i & 0x800) > 0 {
            (with_pc(v1, wadd(v1.pc, off11_of(i))), StepOutcome::Ran)
        } else {
            (with_pc(v1, v1.regs[sr1_of(i)]), StepOutcome::Ran)
        }
    } else if op == OP_AND {
        let a = v.regs[sr1_of(i)];
        let b = if imm_mode(i) {
            imm5_of(i)
        } else {
            v.regs[sr2_of(i)]
        };
        (with_reg_flags(v, dr_of(i), a & b), StepOutcome::Ran)
    } else if op == OP_LDR {
        let r = mem_read_view(v, wadd(v.regs[sr1_of(i)], off6_of(i)));
        (with_reg_flags(r.0, dr_of(i), r.1), StepOutcome::Ran)
    } else if op == OP_STR {
        (
            with_mem(v, wadd(v.regs[sr1_of(i)], off6_of(i)) as int, v.regs[dr_of(i)]),
            StepOutcome::Ran,
        )
    } else if op == OP_NOT {
        (with_reg_flags(v, dr_of(i), !v.regs[sr1_of(i)]), StepOutcome::Ran)
    } else if op == OP_LDI {
        let r1 = mem_read_view(v, wadd(v.pc, off9_of(i)));
        let r2 = mem_read_view(r1.0, r1.1);
        (with_reg_flags(r2.0, dr_of(i), r2.1), StepOutcome::Ran)
    } else if op == OP_STI {
        let r1 = mem_read_view(v, wadd(v.pc, off9_of(i)));
        (with_mem(r1.0, r1.1 as int, r1.0.regs[dr_of(i)]), StepOutcome::Ran)
    } else if op == OP_JMP {
        (with_pc(v, v.regs[sr1_of(i)]), StepOutcome::Ran)
    } else if op == OP_LEA {
        (with_reg_flags(v, dr_of(i), wadd(v.pc, off9_of(i))), StepOutcome::Ran)
    } else if op == OP_TRAP {
        trap_view(v, i)
    } else {
        (v, StepOutcome::Fatal(VmError::UnsupportedOpcode(op)))
    }
}

/// Whether an instruction word is a trap that consumes a key.
pub open spec fn is_input_trap(i: u16) -> bool {
    op_of(i) == OP_TRAP && (trap_of(i) == TRAP_GETC || trap_of(i) == TRAP_IN)
}

/// Whether the next cycle would block on the keyboard: the word under the
/// program counter is a key-consuming trap and no key is queued. A fetch
/// from the keyboard status address never yields a trap instruction, so
/// it is excluded.
pub open spec fn step_needs_key(v: VmView) -> bool {
    v.pc != MR_KBSR && is_input_trap(v.mem[v.pc as int]) && v.input.len() == 0
}

/// One full cycle: when the cycle would block on input, nothing changes;
/// otherwise the instruction is fetched (with the keyboard side effect of
/// the fetch address), the program counter advances by one, and the
/// instruction executes.
pub open spec fn step_view(v: VmView) -> (VmView, StepOutcome) {
    if step_needs_key(v) {
        (v, StepOutcome::NeedInput)
    } else {
        let f = mem_read_view(v, v.pc);
        let v1 = with_pc(f.0, wadd(f.0.pc, 1));
        exec_instr_view(v1, f.1)
    }
}

/// The view after `n` cycles, stopping early at the first cycle that does
/// not simply run on.
pub open spec fn run_n(v: VmView, n: nat) -> VmView
    decreases n,
{
    if n == 0 {
        v
    } else {
        let s = step_view(v);
        if s.1 is Ran {
            run_n(s.0, (n - 1) as nat)
        } else {
            v
        }
    }
}

/// How a bounded run of the machine ended.
#[derive(Clone, Copy, Debug, PartialEq, Eq, Structural)]
pub enum RunStatus {
    /// A HALT trap stopped the machine: the designed termination.
    Halted,
    /// The step budget ran out first; the machine can be driven further.
    OutOfSteps,
    /// A fatal condition stopped the run.
    Failed(VmError),
}

/// A finished run: after `n` plain cycles from `v0` the next cycle does
/// not simply run on, the machine ends in that cycle's state, and the
/// status names its outcome — a clean halt, or the error: a key demanded
/// with none queued is an exhausted input, and a fatal cycle carries its
/// own error.
pub open spec fn run_matches(v0: VmView, n: nat, vf: VmView, r: RunStatus) -> bool {
    let v = run_n(v0, n);
    &&& vf == step_view(v).0
    &&& match r {
        RunStatus::Halted => step_view(v).1 is Halted,
        RunStatus::Failed(e) => match step_view(v).1 {
            StepOutcome::NeedInput => e == VmError::InputExhausted,
            StepOutcome::Fatal(e2) => e == e2,
            _ => false,
        },
        RunStatus::OutOfSteps => false,
    }
}

/// Appending one more cycle: when the cycle after `n` cycles runs on, the
/// view after `n + 1` cycles is its result.
pub proof fn lemma_run_n_extend(v: VmView, n: nat)
    requires
        step_view(run_n(v, n)).1 is Ran,
    ensures
        run_n(v, n + 1) == step_view(run_n(v, n)).0,
    decreases n,
{
    reveal_with_fuel(run_n, 3);
    if n > 0 {
        if step_view(v).1 is Ran {
            lemma_run_n_extend(step_view(v).0, (n - 1) as nat);
        }
    }
}

/// A read of the keyboard status address returns 0 when no key is
/// pending; with a key pending it returns a value with bit 15 set and
/// leaves the key's code in the keyboard data address.
pub proof fn lemma_keyboard_status_read(v: VmView)
    requires
        v.wf(),
    ensures
        v.input.len() == 0 ==> mem_read_view(v, MR_KBSR).1 == 0,
        v.input.len() > 0 ==> (mem_read_view(v, MR_KBSR).1 >> 15) & 1 == 1,
        v.input.len() > 0 ==> mem_read_view(v, MR_KBSR).0.mem[MR_KBDR as int] == v.input[0] as u16,
{
    assert((0x8000u16 >> 15) & 1 == 1) by (bit_vector);
}

/// ADD takes its second operand from the 5-bit sign-extended immediate
/// when bit 5 of the instruction is set, and from the register named by
/// the low 3 bits otherwise; either way it updates the condition flag
/// from the value written to the destination register.
pub proof fn lemma_add_modes(v: VmView, i: u16)
    requires
        v.wf(),
        op_of(i) == OP_ADD,
    ensures
        exec_instr_view(v, i).1 is Ran,
        exec_instr_view(v, i).0.regs == v.regs.update(
            dr_of(i),
            wadd(
                v.regs[sr1_of(i)],
                if imm_mode(i) {
                    imm5_of(i)
                } else {
                    v.regs[sr2_of(i)]
                },
            ),
        ),
        exec_instr_view(v, i).0.cond == flag_for(exec_instr_view(v, i).0.regs[dr_of(i)]),
{
    assert((i >> 9) & 7 < 8) by (bit_vector);
}

/// AND takes its second operand from the 5-bit sign-extended immediate
/// when bit 5 of the instruction is set, and from the register named by
/// the low 3 bits otherwise; either way it updates the condition flag
/// from the value written to the destination register.
pub proof fn lemma_and_modes(v: VmView, i: u16)
    requires
        v.wf(),
        op_of(i) == OP_AND,
    ensures
        exec_instr_view(v, i).1 is Ran,
        exec_instr_view(v, i).0.regs == v.regs.update(
            dr_of(i),
            v.regs[sr1_of(i)] & (if imm_mode(i) {
                imm5_of(i)
            } else {
                v.regs[sr2_of(i)]
            }),
        ),
        exec_instr_view(v, i).0.cond == flag_for(exec_instr_view(v, i).0.regs[dr_of(i)]),
{
    assert((i >> 9) & 7 < 8) by (bit_vector);
}

} // verus!
