use lc3vm::vm::{DiagnosticStatus, RunResult, StepOutcome, VirtualMachine};

const ADD_R1_R1_IMM1: u16 = 0b0001_001_001_1_00001;
const ADD_R1_R1_IMM_NEG1: u16 = 0b0001_001_001_1_11111;
const AND_R1_R1_IMM0: u16 = 0b0101_001_001_1_00000;
const HALT: u16 = 0xF025;

/// Builds a binary image: the origin, big-endian, then each word big-endian.
fn image_bytes(origin: u16, words: &[u16]) -> Vec<u8> {
    let mut bytes = vec![(origin >> 8) as u8, origin as u8];
    for w in words {
        bytes.push((*w >> 8) as u8);
        bytes.push(*w as u8);
    }
    bytes
}

fn machine_with(words: &[u16]) -> VirtualMachine {
    let mut vm = VirtualMachine::with_memory(0x10000).unwrap();
    vm.read_image(&image_bytes(0x3000, words));
    vm
}

fn registers_of(vm: &VirtualMachine) -> Vec<u16> {
    vm.diagnostics(0, 0).registers
}

#[test]
fn construction_fails_below_the_address_space() {
    assert!(VirtualMachine::with_memory(0).is_none());
    assert!(VirtualMachine::with_memory(0xFFFF).is_none());
    assert!(VirtualMachine::with_memory(0x10000).is_some());
    assert!(VirtualMachine::with_memory(0x10001).is_some());
}

#[test]
fn fresh_machine_is_zeroed_and_not_running() {
    let vm = VirtualMachine::with_memory(0x10000).unwrap();
    assert!(!vm.is_running());
    let d = vm.diagnostics(0x2FFF, 2);
    assert_eq!(d.registers, vec![0; 11]);
    assert_eq!(d.memory_view_range, (0x2FFF, 2));
    assert_eq!(d.memory_view, vec![0, 0, 0]);
}

#[test]
fn round_trip_a_loaded_program_halts_past_its_words() {
    // three straight-line words, then HALT: PC must rest at 0x3000 + 3 + 1
    let n: u16 = 3;
    let mut vm = machine_with(&[ADD_R1_R1_IMM1, ADD_R1_R1_IMM1, ADD_R1_R1_IMM1, HALT]);
    let mut out = Vec::new();
    let r = vm.run(&[], &mut out, 100);
    assert_eq!(r, RunResult::Halted);
    assert!(!vm.is_running());
    assert!(out.is_empty());
    let regs = registers_of(&vm);
    assert_eq!(regs[8], 0x3000 + n + 1);
    assert_eq!(regs[1], 3);
}

#[test]
fn add_immediate_wraps_and_sets_the_zero_flag() {
    // R1 = 0; R1 += -1 (now 0xFFFF); R1 += 1 wraps to 0 and sets ZERO
    let mut vm = machine_with(&[AND_R1_R1_IMM0, ADD_R1_R1_IMM_NEG1, ADD_R1_R1_IMM1, HALT]);
    let mut out = Vec::new();
    assert_eq!(vm.run(&[], &mut out, 100), RunResult::Halted);
    let regs = registers_of(&vm);
    assert_eq!(regs[1], 0x0000);
    assert_eq!(regs[9], 2); // ZERO
}

#[test]
fn add_negative_sets_the_negative_flag_and_and_leaves_flags_alone() {
    // ADD to 0xFFFF sets NEG; the AND after it must not touch the flags
    let mut vm = machine_with(&[AND_R1_R1_IMM0, ADD_R1_R1_IMM_NEG1, AND_R1_R1_IMM0, HALT]);
    let mut out = Vec::new();
    assert_eq!(vm.run(&[], &mut out, 100), RunResult::Halted);
    let regs = registers_of(&vm);
    assert_eq!(regs[1], 0);
    assert_eq!(regs[9], 4); // still NEGATIVE, from the ADD
}

#[test]
fn keyboard_status_reads_zero_with_no_input_pending() {
    // LDI R1 through the word at 0x3002, which holds the keyboard-status
    // address
    let mut vm = machine_with(&[0b1010_001_000000001, HALT, 0xFE00]);
    let mut out = Vec::new();
    assert_eq!(vm.run(&[], &mut out, 100), RunResult::Halted);
    let regs = registers_of(&vm);
    assert_eq!(regs[1], 0);
    assert_eq!(regs[9], 2); // the loaded zero sets ZERO
    let d = vm.diagnostics(0xFE00, 2);
    assert_eq!(d.memory_view, vec![0, 0, 0]);
}

#[test]
fn keyboard_status_read_consumes_the_pending_byte() {
    let mut vm = machine_with(&[0b1010_001_000000001, HALT, 0xFE00]);
    let mut out = Vec::new();
    assert_eq!(vm.run(&[0x41], &mut out, 100), RunResult::Halted);
    let regs = registers_of(&vm);
    assert_eq!(regs[1], 0x8000); // bit 15 set
    assert_eq!(regs[9], 4); // NEGATIVE
    let d = vm.diagnostics(0xFE00, 2);
    assert_eq!(d.memory_view, vec![0x8000, 0, 0x41]);
}

#[test]
fn puts_stops_at_the_first_zero_word() {
    // R0 = 0x3003 via LEA; the string "Hi" ends in a zero word with
    // non-zero words after it, which must not be emitted
    let words = [
        0b1110_000_000000010, // LEA R0, #2
        0xF022,               // TRAP PUTS
        HALT,
        'H' as u16,
        'i' as u16,
        0x0000,
        'X' as u16,
        'Y' as u16,
    ];
    let mut vm = machine_with(&words);
    let mut out = Vec::new();
    assert_eq!(vm.run(&[], &mut out, 100), RunResult::Halted);
    assert_eq!(out, b"Hi".to_vec());
}

#[test]
fn putsp_unpacks_two_bytes_per_word_and_stops_at_a_zero_byte() {
    let words = [
        0b1110_000_000000010, // LEA R0, #2
        0xF024,               // TRAP PUTSP
        HALT,
        0x4241,               // "AB", low byte first
        0x0043,               // "C" then a zero high byte: stop
        0x4545,               // must not be emitted
    ];
    let mut vm = machine_with(&words);
    let mut out = Vec::new();
    assert_eq!(vm.run(&[], &mut out, 100), RunResult::Halted);
    assert_eq!(out, b"ABC".to_vec());
}

#[test]
fn getc_and_out_round_a_byte_through_r0() {
    let mut vm = machine_with(&[0xF020, 0xF021, HALT]);
    let mut out = Vec::new();
    assert_eq!(vm.run(&[0x5A], &mut out, 100), RunResult::Halted);
    assert_eq!(out, vec![0x5A]);
    assert_eq!(registers_of(&vm)[0], 0x5A);
}

#[test]
fn trap_in_prompts_before_reading() {
    let mut vm = machine_with(&[0xF023, 0xF021, HALT]);
    let mut out = Vec::new();
    assert_eq!(vm.run(&[b'Q'], &mut out, 100), RunResult::Halted);
    assert_eq!(out, b"IN: Q".to_vec());
}

#[test]
fn run_reports_exhausted_input() {
    let mut vm = machine_with(&[0xF020, HALT]);
    let mut out = Vec::new();
    assert_eq!(vm.run(&[], &mut out, 100), RunResult::OutOfInput);
    assert!(vm.is_running());
}

#[test]
fn run_reports_its_step_budget() {
    // an empty memory fetches BR words forever
    let mut vm = VirtualMachine::with_memory(0x10000).unwrap();
    let mut out = Vec::new();
    assert_eq!(vm.run(&[], &mut out, 10), RunResult::StepLimit);
    assert!(vm.is_running());
}

#[test]
fn a_step_needing_input_changes_nothing_and_can_be_retried() {
    let mut vm = machine_with(&[0xF020, HALT]);
    vm.start();
    let mut out = Vec::new();
    assert_eq!(vm.step(None, &mut out), StepOutcome::NeedInput);
    assert_eq!(registers_of(&vm)[8], 0x3000); // the fetch was undone
    assert_eq!(vm.step(Some(7), &mut out), StepOutcome::RanConsumedInput);
    assert_eq!(registers_of(&vm)[0], 7);
    assert_eq!(registers_of(&vm)[8], 0x3001);
    assert_eq!(vm.step(None, &mut out), StepOutcome::Ran); // the HALT
    assert!(!vm.is_running());
    assert!(out.is_empty());
}

#[test]
fn an_odd_trailing_image_byte_is_dropped() {
    let mut vm = VirtualMachine::with_memory(0x10000).unwrap();
    vm.read_image(&[0x30, 0x00, 0x12, 0x34, 0x56]);
    let d = vm.diagnostics(0x3000, 1);
    assert_eq!(d.memory_view, vec![0x1234, 0x0000]);
}

#[test]
fn an_unrecognized_opcode_is_skipped_counted_and_the_run_continues() {
    let mut vm = machine_with(&[0b1101_0000_0000_0000, HALT]);
    assert_eq!(vm.bad_opcode_count(), 0);
    let mut out = Vec::new();
    assert_eq!(vm.run(&[], &mut out, 100), RunResult::Halted);
    assert_eq!(registers_of(&vm)[8], 0x3002);
    assert_eq!(vm.bad_opcode_count(), 1);
}

#[test]
fn an_unrecognized_trap_vector_is_skipped_and_counted_too() {
    let mut vm = machine_with(&[0xF0FF, HALT]);
    let mut out = Vec::new();
    assert_eq!(vm.run(&[], &mut out, 100), RunResult::Halted);
    assert!(out.is_empty());
    assert_eq!(vm.bad_opcode_count(), 1);
}

#[test]
fn recognized_instructions_count_no_bad_opcodes() {
    let mut vm = machine_with(&[ADD_R1_R1_IMM1, HALT]);
    let mut out = Vec::new();
    assert_eq!(vm.run(&[], &mut out, 100), RunResult::Halted);
    assert_eq!(vm.bad_opcode_count(), 0);
}

#[test]
fn default_snapshot_holds_eleven_zero_registers() {
    let d = DiagnosticStatus::default();
    assert_eq!(d.registers, vec![0u16; 11]);
    assert_eq!(d.memory_view_range, (0, 0));
    assert!(d.memory_view.is_empty());
}

#[test]
fn branch_is_taken_on_a_matching_flag() {
    let words = [
        ADD_R1_R1_IMM1,       // R1 = 1, POSITIVE
        0b0000_001_000000001, // BRp #1: skip the next word
        ADD_R1_R1_IMM1,       // skipped
        HALT,
    ];
    let mut vm = machine_with(&words);
    let mut out = Vec::new();
    assert_eq!(vm.run(&[], &mut out, 100), RunResult::Halted);
    let regs = registers_of(&vm);
    assert_eq!(regs[1], 1);
    assert_eq!(regs[8], 0x3004);
}

#[test]
fn jsr_saves_the_return_address() {
    let mut vm = machine_with(&[0b0100_1_00000000001, HALT, HALT]);
    let mut out = Vec::new();
    assert_eq!(vm.run(&[], &mut out, 100), RunResult::Halted);
    let regs = registers_of(&vm);
    assert_eq!(regs[7], 0x3001);
    assert_eq!(regs[8], 0x3003); // jumped to 0x3002, halted there
}

#[test]
fn store_and_load_round_a_value_through_memory() {
    let words = [
        ADD_R1_R1_IMM1,       // R1 = 1
        0b0011_001_000000010, // ST R1, #2 -> memory[0x3004]
        0b0010_010_000000001, // LD R2, #1 <- memory[0x3004]
        HALT,
        0x0000,               // the cell written and read back
    ];
    let mut vm = machine_with(&words);
    let mut out = Vec::new();
    assert_eq!(vm.run(&[], &mut out, 100), RunResult::Halted);
    let regs = registers_of(&vm);
    assert_eq!(regs[2], 1);
    assert_eq!(vm.diagnostics(0x3004, 0).memory_view, vec![1]);
}

#[test]
fn disassemble_region_renders_both_forms() {
    let vm = machine_with(&[0b0001_001_001_0_00_001]);
    assert_eq!(
        vm.disassemble_region(0x3000, 0, false),
        "ADD R1, R1, R1\n"
    );
    assert_eq!(
        vm.disassemble_region(0x3000, 0, true),
        "3000 | 0001001001000001 | ADD R1, R1, R1\n"
    );
}
