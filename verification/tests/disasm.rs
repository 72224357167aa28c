use lc3vm::disasm::{disassemble_instruction, disassemble_program};

#[test]
fn test_simple() {
    assert_eq!(
        disassemble_instruction(0b0001_001_001_0_00001),
        Some("ADD R1, R1, R1".to_owned())
    );
    assert_eq!(
        disassemble_instruction(0b0001_001_001_1_00001),
        Some("ADD R1, R1, #1".to_owned())
    );
    assert_eq!(
        disassemble_instruction(0b0001_001_001_1_11111),
        Some("ADD R1, R1, #-1".to_owned())
    );
    assert_eq!(
        disassemble_instruction(0b0001_001_001_1_10001),
        Some("ADD R1, R1, #-15".to_owned())
    );
    assert_eq!(
        disassemble_instruction(0b0110_001_001_111111),
        Some("LDR R1, R1, #-1".to_owned())
    );
    assert_eq!(
        disassemble_instruction(0b1111_0000_0000_0000),
        Some("TRAP x0000".to_owned())
    );
}

#[test]
fn test_simple_program() {
    assert_eq!(
        &disassemble_program(&[0b0001_001_001_0_00_001, 0b0101_001_001_0_00_001,]),
        "ADD R1, R1, R1
AND R1, R1, R1
"
    );
}

#[test]
fn reserved_opcode_is_unrecognized() {
    assert_eq!(disassemble_instruction(0b1101_0000_0000_0000), None);
    assert_eq!(disassemble_instruction(0b1101_1111_1111_1111), None);
}

#[test]
fn program_substitutes_bad_opcode_line() {
    assert_eq!(
        &disassemble_program(&[0b1101_0000_0000_0000, 0b1001_001_001_111111]),
        "BAD OPCODE\nNOT R1, R1\n"
    );
}

#[test]
fn empty_program_disassembles_to_nothing() {
    assert_eq!(&disassemble_program(&[]), "");
}

#[test]
fn ldi_renders_with_the_form_of_ld() {
    // the LDI quirk: both decode to the LD text
    assert_eq!(
        disassemble_instruction(0b1010_010_000000011),
        Some("LD R2, #3".to_owned())
    );
    assert_eq!(
        disassemble_instruction(0b0010_010_000000011),
        Some("LD R2, #3".to_owned())
    );
}

#[test]
fn ldr_extends_one_bit_narrower_than_str() {
    // the same 6-bit offset field 0b100000: LDR extends from width 5 and
    // reads 32, STR extends from width 6 and reads -32
    assert_eq!(
        disassemble_instruction(0b0110_001_001_100000),
        Some("LDR R1, R1, #32".to_owned())
    );
    assert_eq!(
        disassemble_instruction(0b0111_001_001_100000),
        Some("STR R1, R1, #-32".to_owned())
    );
    assert_eq!(
        disassemble_instruction(0b0111_001_001_111111),
        Some("STR R1, R1, #-1".to_owned())
    );
}

#[test]
fn jsr_forms() {
    assert_eq!(
        disassemble_instruction(0b0100_1_00000000101),
        Some("JSR 0x0005".to_owned())
    );
    assert_eq!(
        disassemble_instruction(0b0100_1_11111111111),
        Some("JSR 0xFFFF".to_owned())
    );
    assert_eq!(
        disassemble_instruction(0b0100_0_00_010_000000),
        Some("JSRR R2".to_owned())
    );
}

#[test]
fn br_marks_only_the_positive_bit() {
    // the n and z flag bits compare against 1, so only the p bit ever shows
    assert_eq!(
        disassemble_instruction(0b0000_111_000000101),
        Some("BRp #5".to_owned())
    );
    assert_eq!(
        disassemble_instruction(0b0000_110_000000101),
        Some("BR #5".to_owned())
    );
    assert_eq!(
        disassemble_instruction(0b0000_000_111111011),
        Some("BR #-5".to_owned())
    );
}

#[test]
fn remaining_opcode_texts() {
    assert_eq!(
        disassemble_instruction(0b1100_000_011_000000),
        Some("JMP R3".to_owned())
    );
    assert_eq!(
        disassemble_instruction(0b1001_100_101_111111),
        Some("NOT R4, R5".to_owned())
    );
    assert_eq!(disassemble_instruction(0b1000_000_000000000), Some("RTI".to_owned()));
    assert_eq!(
        disassemble_instruction(0b0011_110_000001000),
        Some("ST R6, #8".to_owned())
    );
    assert_eq!(
        disassemble_instruction(0b1011_110_111111000),
        Some("STI R6, #-8".to_owned())
    );
    assert_eq!(
        disassemble_instruction(0b1110_111_000000001),
        Some("LEA R7, #1".to_owned())
    );
    assert_eq!(
        disassemble_instruction(0b0101_000_001_1_01010),
        Some("AND R0, R1, #10".to_owned())
    );
    assert_eq!(
        disassemble_instruction(0b1111_0000_0010_0101),
        Some("TRAP x0025".to_owned())
    );
}
