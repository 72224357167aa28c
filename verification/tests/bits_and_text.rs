use lc3vm::bits::{sign_extend, ConditionFlags, MemoryMappedRegister, Opcode, Register, TrapCode};
use lc3vm::text::DisplayFormat;

#[test]
fn sign_extend_widens_two_complement_fields() {
    // a set sign bit fills every higher bit
    assert_eq!(sign_extend(0b11111, 5), 0xFFFF);
    assert_eq!(sign_extend(0b10001, 5), 0xFFF1);
    assert_eq!(sign_extend(1, 1), 0xFFFF);
    assert_eq!(sign_extend(0b100000000, 9), 0xFF00);
    // a clear sign bit leaves the value as it is
    assert_eq!(sign_extend(0b01111, 5), 15);
    assert_eq!(sign_extend(0, 5), 0);
    assert_eq!(sign_extend(0b011111111, 9), 255);
    // a 16-bit field already fills the word
    assert_eq!(sign_extend(0x8000, 16), 0x8000);
    assert_eq!(sign_extend(0x1234, 16), 0x1234);
}

#[test]
fn opcode_codes_round_trip() {
    for code in 0..16u16 {
        let op = Opcode::from_u16(code).unwrap();
        assert_eq!(
            match op {
                Opcode::BR => 0,
                Opcode::ADD => 1,
                Opcode::LD => 2,
                Opcode::ST => 3,
                Opcode::JSR => 4,
                Opcode::AND => 5,
                Opcode::LDR => 6,
                Opcode::STR => 7,
                Opcode::RTI => 8,
                Opcode::NOT => 9,
                Opcode::LDI => 10,
                Opcode::STI => 11,
                Opcode::JMP => 12,
                Opcode::RES => 13,
                Opcode::LEA => 14,
                Opcode::TRAP => 15,
            },
            code
        );
    }
    assert!(Opcode::from_u16(16).is_none());
}

#[test]
fn trap_codes_cover_the_vector_table() {
    assert!(matches!(TrapCode::from_u16(0x20), Some(TrapCode::GetC)));
    assert!(matches!(TrapCode::from_u16(0x21), Some(TrapCode::Out)));
    assert!(matches!(TrapCode::from_u16(0x22), Some(TrapCode::Puts)));
    assert!(matches!(TrapCode::from_u16(0x23), Some(TrapCode::In)));
    assert!(matches!(TrapCode::from_u16(0x24), Some(TrapCode::PutSp)));
    assert!(matches!(TrapCode::from_u16(0x25), Some(TrapCode::Halt)));
    assert!(TrapCode::from_u16(0x1F).is_none());
    assert!(TrapCode::from_u16(0x26).is_none());
}

#[test]
fn condition_flags_are_bit_disjoint() {
    assert_eq!(ConditionFlags::POS.bits(), 1);
    assert_eq!(ConditionFlags::ZRO.bits(), 2);
    assert_eq!(ConditionFlags::NEG.bits(), 4);
}

#[test]
fn memory_mapped_register_addresses() {
    assert_eq!(MemoryMappedRegister::KBSR.address(), 0xFE00);
    assert_eq!(MemoryMappedRegister::KBDR.address(), 0xFE02);
}

#[test]
fn registers_index_their_slots() {
    assert_eq!(Register::R0.index(), 0);
    assert_eq!(Register::R7.index(), 7);
    assert_eq!(Register::PC.index(), 8);
    assert_eq!(Register::COND.index(), 9);
    assert_eq!(Register::PSR.index(), 10);
    for value in 0..11u16 {
        assert_eq!(Register::from_u16(value).index(), value as usize);
    }
}

#[test]
fn display_formats_render_registers() {
    assert_eq!(DisplayFormat::Decimal.format(48879), "48879");
    assert_eq!(DisplayFormat::Decimal.format(0), "0");
    assert_eq!(DisplayFormat::Hexadecimal.format(0xBEEF), "BEEF");
    assert_eq!(DisplayFormat::Hexadecimal.format(0x001A), "001A");
    assert_eq!(DisplayFormat::Octal.format(8), "10");
    assert_eq!(DisplayFormat::Octal.format(0xFFFF), "177777");
    assert_eq!(DisplayFormat::Binary.format(5), "0000000000000101");
    assert_eq!(DisplayFormat::Binary.format(0x8000), "1000000000000000");
}
