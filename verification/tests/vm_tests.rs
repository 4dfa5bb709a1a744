use lc3_vm::isa::{RunStatus, StepOutcome, VmError};
use lc3_vm::registers::{FL_NEG, FL_POS, FL_ZRO};
use lc3_vm::vm::{program_form_u8, LoadError, VM};

fn loaded(words: Vec<u16>) -> VM {
    match VM::new().with_program(words) {
        Ok(vm) => vm,
        Err(_) => panic!("program rejected"),
    }
}

#[test]
fn program_from_bytes_pairs_big_endian() {
    let words = program_form_u8(vec![0x30, 0x00, 0x00, 0x01, 0xF0, 0x25]);
    assert_eq!(words, vec![0x3000, 0x0001, 0xF025]);
}

#[test]
fn program_from_bytes_drops_a_trailing_odd_byte() {
    let words = program_form_u8(vec![0x30, 0x00, 0xFF]);
    assert_eq!(words, vec![0x3000]);
    assert_eq!(program_form_u8(vec![]), vec![]);
}

#[test]
fn loading_places_payload_at_origin_and_sets_pc() {
    let vm = loaded(vec![0x3000, 0x1, 0x2]);
    assert_eq!(vm.mem_at(0x3000), 0x1);
    assert_eq!(vm.mem_at(0x3001), 0x2);
    assert_eq!(vm.pc(), 0x3000);
    // Surrounding memory is untouched.
    assert_eq!(vm.mem_at(0x2FFF), 0);
    assert_eq!(vm.mem_at(0x3002), 0);
}

#[test]
fn loading_rejects_an_empty_image() {
    let mut vm = VM::new();
    assert_eq!(vm.load_program(vec![]), Err(LoadError::EmptyProgram));
}

#[test]
fn loading_rejects_a_payload_past_the_end_of_memory() {
    let mut vm = VM::new();
    assert_eq!(vm.load_program(vec![0xFFFF, 1, 2]), Err(LoadError::DoesNotFit));
    // The boundary case still fits.
    assert_eq!(vm.load_program(vec![0xFFFF, 1]), Ok(()));
    assert_eq!(vm.mem_at(0xFFFF), 1);
    assert_eq!(vm.pc(), 0xFFFF);
}

#[test]
fn trap_halt_terminates_with_no_further_instructions() {
    // HALT, then an ADD that must never run.
    let mut vm = loaded(vec![0x3000, 0xF025, 0x1025]);
    assert_eq!(vm.run(10), RunStatus::Halted);
    assert!(vm.is_halted());
    assert_eq!(vm.pc(), 0x3001);
    assert_eq!(vm.reg(0), 0); // the ADD after HALT did not execute
    assert_eq!(vm.take_output(), b"\nHALT\n".to_vec());
}

#[test]
fn keyboard_status_read_polls_the_key_queue() {
    let mut vm = VM::new();
    assert_eq!(vm.read_from_mem(0xFE00), 0);
    vm.push_key(65);
    let status = vm.read_from_mem(0xFE00);
    assert_eq!(status & 0x8000, 0x8000);
    assert_eq!(vm.mem_at(0xFE02), 65);
    assert_eq!(vm.read_from_mem(0xFE02), 65);
    // The key was consumed: the next poll reports none pending.
    assert_eq!(vm.read_from_mem(0xFE00), 0);
}

#[test]
fn lea_puts_halt_prints_hi_then_halts() {
    // LEA R0 at the string, PUTS, HALT, then "HI" zero-terminated.
    let mut vm = loaded(vec![0x3000, 0xE002, 0xF022, 0xF025, 72, 73, 0]);
    assert_eq!(vm.run(100), RunStatus::Halted);
    assert_eq!(vm.take_output(), b"HI\nHALT\n".to_vec());
    assert_eq!(vm.take_output(), Vec::<u8>::new());
}

#[test]
fn getc_stores_the_key_and_updates_flags() {
    let mut vm = loaded(vec![0x3000, 0xF020, 0xF025]);
    vm.push_key(b'a');
    assert_eq!(vm.run(10), RunStatus::Halted);
    assert_eq!(vm.reg(0), 97);
    // GETC leaves no echo; only the HALT message is printed.
    assert_eq!(vm.take_output(), b"\nHALT\n".to_vec());
}

#[test]
fn getc_with_no_key_is_an_exhausted_input() {
    let mut vm = loaded(vec![0x3000, 0xF020, 0xF025]);
    assert_eq!(vm.run(10), RunStatus::Failed(VmError::InputExhausted));
    assert_eq!(vm.pc(), 0x3000); // nothing was consumed or advanced
}

#[test]
fn step_asks_for_input_without_consuming_the_cycle() {
    let mut vm = loaded(vec![0x3000, 0xF020, 0xF025]);
    assert_eq!(vm.step(), StepOutcome::NeedInput);
    assert_eq!(vm.pc(), 0x3000);
    vm.push_key(b'Q');
    assert_eq!(vm.step(), StepOutcome::Ran);
    assert_eq!(vm.reg(0), b'Q' as u16);
    assert_eq!(vm.cond(), FL_POS);
    assert_eq!(vm.step(), StepOutcome::Halted);
    assert!(vm.is_halted());
}

#[test]
fn trap_in_prompts_then_reads_a_key() {
    let mut vm = loaded(vec![0x3000, 0xF023, 0xF025]);
    vm.push_key(66);
    assert_eq!(vm.run(10), RunStatus::Halted);
    assert_eq!(vm.reg(0), 66);
    assert_eq!(vm.take_output(), b"Enter a character: \nHALT\n".to_vec());
}

#[test]
fn trap_out_writes_one_character() {
    // GETC fills register 0, OUT echoes it, HALT.
    let mut vm = loaded(vec![0x3000, 0xF020, 0xF021, 0xF025]);
    vm.push_key(b'Z');
    assert_eq!(vm.run(10), RunStatus::Halted);
    assert_eq!(vm.take_output(), b"Z\nHALT\n".to_vec());
}

#[test]
fn trap_putsp_packs_two_characters_per_word() {
    // "HI" in one word (low byte first), then "!" with a zero high byte,
    // then the terminating zero word.
    let mut vm = loaded(vec![0x3000, 0xE002, 0xF024, 0xF025, 0x4948, 0x0021, 0]);
    assert_eq!(vm.run(10), RunStatus::Halted);
    assert_eq!(vm.take_output(), vec![72, 73, 33, 0, 10, 72, 65, 76, 84, 10]);
}

#[test]
fn add_immediate_and_register_modes() {
    // ADD R0,R0,#5 ; ADD R1,R0,R0 ; ADD R2,R1,#-1 ; HALT
    let mut vm = loaded(vec![0x3000, 0x1025, 0x1200, 0x147F, 0xF025]);
    assert_eq!(vm.run(10), RunStatus::Halted);
    assert_eq!(vm.reg(0), 5);
    assert_eq!(vm.reg(1), 10);
    assert_eq!(vm.reg(2), 9);
    assert_eq!(vm.cond(), FL_POS);
}

#[test]
fn add_wraps_and_sets_the_negative_flag() {
    // ADD R0,R0,#-1 -> 0xFFFF, flag NEGATIVE.
    let mut vm = loaded(vec![0x3000, 0x103F, 0xF025]);
    assert_eq!(vm.run(10), RunStatus::Halted);
    assert_eq!(vm.reg(0), 0xFFFF);
    assert_eq!(vm.cond(), FL_NEG);
}

#[test]
fn and_immediate_clears_and_sets_zero_flag() {
    // ADD R0,R0,#5 ; AND R3,R0,#0 ; HALT
    let mut vm = loaded(vec![0x3000, 0x1025, 0x5620, 0xF025]);
    assert_eq!(vm.run(10), RunStatus::Halted);
    assert_eq!(vm.reg(3), 0);
    assert_eq!(vm.cond(), FL_ZRO);
}

#[test]
fn and_register_mode_masks() {
    // ADD R0,R0,#5 ; ADD R1,R1,#3 ; AND R2,R0,R1 ; HALT
    let mut vm = loaded(vec![0x3000, 0x1025, 0x1263, 0x5440, 0xF025]);
    assert_eq!(vm.run(10), RunStatus::Halted);
    assert_eq!(vm.reg(2), 1);
}

#[test]
fn not_complements_and_sets_negative_flag() {
    // ADD R0,R0,#5 ; NOT R4,R0 ; HALT
    let mut vm = loaded(vec![0x3000, 0x1025, 0x983F, 0xF025]);
    assert_eq!(vm.run(10), RunStatus::Halted);
    assert_eq!(vm.reg(4), 0xFFFA);
    assert_eq!(vm.cond(), FL_NEG);
}

#[test]
fn branch_taken_only_when_the_mask_meets_the_flag() {
    // AND R0,R0,#0 (flag ZERO) ; BRz +1 ; ADD R0,R0,#1 (skipped) ; HALT
    let mut vm = loaded(vec![0x3000, 0x5020, 0x0401, 0x1021, 0xF025]);
    assert_eq!(vm.run(10), RunStatus::Halted);
    assert_eq!(vm.reg(0), 0);

    // The same program with BRp: not taken, so the ADD runs.
    let mut vm = loaded(vec![0x3000, 0x5020, 0x0201, 0x1021, 0xF025]);
    assert_eq!(vm.run(10), RunStatus::Halted);
    assert_eq!(vm.reg(0), 1);
}

#[test]
fn store_and_load_round_through_memory() {
    // ADD R0,R0,#7 ; ST R0,+2 ; LD R5,+1 ; HALT ; (slot)
    let mut vm = loaded(vec![0x3000, 0x1027, 0x3002, 0x2A01, 0xF025, 0]);
    assert_eq!(vm.run(10), RunStatus::Halted);
    assert_eq!(vm.mem_at(0x3004), 7);
    assert_eq!(vm.reg(5), 7);
    assert_eq!(vm.cond(), FL_POS);
}

#[test]
fn base_offset_store_and_load() {
    // LEA R1,+3 ; ADD R0,R0,#9 ; STR R0,R1,#1 ; LDR R2,R1,#1 ; HALT
    let mut vm = loaded(vec![0x3000, 0xE203, 0x1029, 0x7041, 0x6441, 0xF025]);
    assert_eq!(vm.run(10), RunStatus::Halted);
    assert_eq!(vm.mem_at(0x3005), 9);
    assert_eq!(vm.reg(2), 9);
}

#[test]
fn indirect_store_and_load() {
    // ADD R0,R0,#6 ; STI R0,+3 ; LDI R3,+2 ; HALT ; (slot) ; pointer
    // at 0x3005 aiming at 0x3006.
    let mut vm = loaded(vec![0x3000, 0x1026, 0xB003, 0xA602, 0xF025, 0, 0x3006]);
    assert_eq!(vm.run(10), RunStatus::Halted);
    assert_eq!(vm.mem_at(0x3006), 6);
    assert_eq!(vm.reg(3), 6);
}

#[test]
fn jsr_saves_the_return_address_and_jumps() {
    // JSR +2 ; HALT ; (skipped) ; ADD R0,R0,#2 ; JMP R7
    let mut vm = loaded(vec![0x3000, 0x4802, 0xF025, 0, 0x1022, 0xC1C0]);
    assert_eq!(vm.run(10), RunStatus::Halted);
    // Reaching the ADD and coming back to the HALT proves JSR saved
    // 0x3001 in R7; the HALT trap then overwrote R7 with its own return
    // address, the word after the HALT.
    assert_eq!(vm.reg(0), 2);
    assert_eq!(vm.reg(7), 0x3002);
}

#[test]
fn jsrr_jumps_through_a_base_register() {
    // LEA R1,+2 ; JSRR R1 ; HALT ; a zero word (a branch never taken) ;
    // ADD R0,R0,#3 ; JMP R7
    let mut vm = loaded(vec![0x3000, 0xE202, 0x4040, 0xF025, 0, 0x1023, 0xC1C0]);
    assert_eq!(vm.run(10), RunStatus::Halted);
    // As above: JSRR saved 0x3002, and the HALT trap at 0x3002 then put
    // its own return address 0x3003 in R7.
    assert_eq!(vm.reg(0), 3);
    assert_eq!(vm.reg(7), 0x3003);
}

#[test]
fn reserved_opcodes_are_fatal() {
    let mut vm = loaded(vec![0x3000, 0x8000]);
    assert_eq!(vm.run(10), RunStatus::Failed(VmError::UnsupportedOpcode(8)));

    let mut vm = loaded(vec![0x3000, 0xD000]);
    assert_eq!(vm.run(10), RunStatus::Failed(VmError::UnsupportedOpcode(13)));
}

#[test]
fn unknown_trap_codes_are_fatal() {
    let mut vm = loaded(vec![0x3000, 0xF0FF]);
    assert_eq!(vm.run(10), RunStatus::Failed(VmError::UnsupportedTrap(0xFF)));
}

#[test]
fn a_tight_loop_runs_out_of_steps() {
    // BRnzp -1: branches to itself forever.
    let mut vm = loaded(vec![0x3000, 0x0FFF]);
    assert_eq!(vm.run(5), RunStatus::OutOfSteps);
    assert_eq!(vm.pc(), 0x3000);
    assert!(!vm.is_halted());
}

#[test]
fn the_program_counter_wraps_at_the_top_of_memory() {
    let mut vm = loaded(vec![0xFFFF, 0xF025]);
    assert_eq!(vm.run(10), RunStatus::Halted);
    assert_eq!(vm.pc(), 0x0000);
}

#[test]
fn a_load_instruction_polls_the_keyboard_device() {
    // LDI R0,+1 reads through the pointer at 0x3002 = keyboard status.
    let mut vm = loaded(vec![0x3000, 0xA001, 0xF025, 0xFE00]);
    vm.push_key(b'x');
    assert_eq!(vm.run(10), RunStatus::Halted);
    assert_eq!(vm.reg(0), 0x8000);
    assert_eq!(vm.cond(), FL_NEG);
    assert_eq!(vm.mem_at(0xFE02), b'x' as u16);
}

#[test]
fn writes_to_device_addresses_overwrite_device_state() {
    let mut vm = VM::new();
    vm.write_to_mem(0xFE00, 0x1234);
    assert_eq!(vm.mem_at(0xFE00), 0x1234);
    // An executed read of the status address re-polls and overwrites it.
    assert_eq!(vm.read_from_mem(0xFE00), 0);
}
