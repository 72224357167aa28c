//! Bit-field utilities shared by the interpreter and the disassembler: sign
//! extension, the opcode, trap-code, condition-flag and register enumerations,
//! and the operand-field extraction functions.
//!
//! Both the interpreter and the disassembler decode instruction words through
//! the extraction functions of this module and nothing else, so the two apply
//! bit-identical field layouts by construction.

use vstd::prelude::*;

verus! {

/// The value of `sign_extend(x, bit_count)`: the low `bit_count` bits of `x`
/// read as a two's-complement field of that width, widened to 16 bits.
///
/// When the field's sign bit is clear the value is returned unchanged; high
/// bits of `x` above the field are not masked off.
pub open spec fn spec_sign_extend(x: u16, bit_count: u16) -> u16 {
    if 1 <= bit_count && bit_count <= 15 && (x >> (bit_count - 1) as u16) & 1 == 1 {
        x | (0xFFFFu16 << bit_count)
    } else {
        x
    }
}

/// Treats the low `bit_count` bits of `x` as a two's-complement field and
/// fills every higher bit with a copy of the field's sign bit, producing the
/// 16-bit two's-complement equivalent of the field.
pub fn sign_extend(x: u16, bit_count: usize) -> (r: u16)
    requires
        1 <= bit_count <= 16,
    ensures
        r == spec_sign_extend(x, bit_count as u16),
{
    if bit_count <= 15 {
        let shift: u16 = (bit_count - 1) as u16;
        if (x >> shift) & 1 == 1 {
            x | (0xFFFFu16 << (bit_count as u16))
        } else {
            x
        }
    } else {
        // A 16-bit field already fills the whole word.
        x
    }
}

/// Bit `i` of `x`.
pub open spec fn bit16(x: u16, i: u16) -> u16 {
    (x >> i) & 1
}

/// Sign extension preserves the field and replicates its sign bit: for a
/// `w`-bit field `x` (no bits set above the field), every bit of the result
/// below `w` equals the same bit of `x`, and every bit at or above `w` equals
/// the field's sign bit `w - 1`.
pub proof fn lemma_sign_extend_bits(x: u16, w: u16, i: u16)
    requires
        1 <= w <= 16,
        w < 16 ==> x >> w == 0,
        i < 16,
    ensures
        i < w ==> bit16(spec_sign_extend(x, w), i) == bit16(x, i),
        i >= w ==> bit16(spec_sign_extend(x, w), i) == bit16(x, (w - 1) as u16),
{
    assert(i < w ==> bit16(spec_sign_extend(x, w), i) == bit16(x, i)) by (bit_vector)
        requires
            1 <= w <= 16,
            w < 16 ==> x >> w == 0,
            i < 16,
    ;
    assert(i >= w ==> bit16(spec_sign_extend(x, w), i) == bit16(x, (w - 1) as u16))
        by (bit_vector)
        requires
            1 <= w <= 16,
            w < 16 ==> x >> w == 0,
            i < 16,
    ;
}

/// The eleven registers of the machine: eight general-purpose registers, the
/// program counter, the condition-flags register and the processor-status
/// register.
#[derive(Clone, Copy, PartialEq, Eq, Structural, Debug)]
pub enum Register {
    R0,
    R1,
    R2,
    R3,
    R4,
    R5,
    R6,
    R7,
    PC,
    COND,
    PSR,
}

impl Register {
    /// The register's slot in the register file.
    pub open spec fn idx(self) -> int {
        match self {
            Register::R0 => 0,
            Register::R1 => 1,
            Register::R2 => 2,
            Register::R3 => 3,
            Register::R4 => 4,
            Register::R5 => 5,
            Register::R6 => 6,
            Register::R7 => 7,
            Register::PC => 8,
            Register::COND => 9,
            Register::PSR => 10,
        }
    }

    pub fn index(self) -> (r: usize)
        ensures
            r == self.idx(),
    {
        match self {
            Register::R0 => 0,
            Register::R1 => 1,
            Register::R2 => 2,
            Register::R3 => 3,
            Register::R4 => 4,
            Register::R5 => 5,
            Register::R6 => 6,
            Register::R7 => 7,
            Register::PC => 8,
            Register::COND => 9,
            Register::PSR => 10,
        }
    }

    pub open spec fn spec_from_u16(value: u16) -> Register {
        if value == 0 {
            Register::R0
        } else if value == 1 {
            Register::R1
        } else if value == 2 {
            Register::R2
        } else if value == 3 {
            Register::R3
        } else if value == 4 {
            Register::R4
        } else if value == 5 {
            Register::R5
        } else if value == 6 {
            Register::R6
        } else if value == 7 {
            Register::R7
        } else if value == 8 {
            Register::PC
        } else if value == 9 {
            Register::COND
        } else {
            Register::PSR
        }
    }

    /// The register in slot `value` of the register file.
    pub fn from_u16(value: u16) -> (r: Register)
        requires
            value < 11,
        ensures
            r == Register::spec_from_u16(value),
            r.idx() == value,
    {
        match value {
            0 => Register::R0,
            1 => Register::R1,
            2 => Register::R2,
            3 => Register::R3,
            4 => Register::R4,
            5 => Register::R5,
            6 => Register::R6,
            7 => Register::R7,
            8 => Register::PC,
            9 => Register::COND,
            _ => Register::PSR,
        }
    }
}

/// The sixteen opcodes, in the order of their 4-bit codes 0b0000 to 0b1111.
#[derive(Clone, Copy, PartialEq, Eq, Structural, Debug)]
pub enum Opcode {
    /// branch
    BR,
    /// add
    ADD,
    /// load
    LD,
    /// store
    ST,
    /// jump register
    JSR,
    /// bitwise and
    AND,
    /// load register
    LDR,
    /// store register
    STR,
    /// return from interrupt
    RTI,
    /// bitwise not
    NOT,
    /// load indirect
    LDI,
    /// store indirect
    STI,
    /// jump
    JMP,
    /// reserved (unused)
    RES,
    /// load effective address
    LEA,
    /// execute trap
    TRAP,
}

impl Opcode {
    /// The opcode's 4-bit code.
    pub open spec fn spec_code(self) -> u16 {
        match self {
            Opcode::BR => 0,
            Opcode::ADD => 1,
            Opcode::LD => 2,
            Opcode::ST => 3,
            Opcode::JSR => 4,
            Opcode::AND => 5,
            Opcode::LDR => 6,
            Opcode::STR => 7,
            Opcode::RTI => 8,
            Opcode::NOT => 9,
            Opcode::LDI => 10,
            Opcode::STI => 11,
            Opcode::JMP => 12,
            Opcode::RES => 13,
            Opcode::LEA => 14,
            Opcode::TRAP => 15,
        }
    }

    pub open spec fn spec_from_u16(value: u16) -> Option<Opcode> {
        if value == 0 {
            Some(Opcode::BR)
        } else if value == 1 {
            Some(Opcode::ADD)
        } else if value == 2 {
            Some(Opcode::LD)
        } else if value == 3 {
            Some(Opcode::ST)
        } else if value == 4 {
            Some(Opcode::JSR)
        } else if value == 5 {
            Some(Opcode::AND)
        } else if value == 6 {
            Some(Opcode::LDR)
        } else if value == 7 {
            Some(Opcode::STR)
        } else if value == 8 {
            Some(Opcode::RTI)
        } else if value == 9 {
            Some(Opcode::NOT)
        } else if value == 10 {
            Some(Opcode::LDI)
        } else if value == 11 {
            Some(Opcode::STI)
        } else if value == 12 {
            Some(Opcode::JMP)
        } else if value == 13 {
            Some(Opcode::RES)
        } else if value == 14 {
            Some(Opcode::LEA)
        } else if value == 15 {
            Some(Opcode::TRAP)
        } else {
            None
        }
    }

    /// Decodes a 4-bit code to its opcode; codes above 15 decode to `None`.
    pub fn from_u16(value: u16) -> (r: Option<Opcode>)
        ensures
            r == Opcode::spec_from_u16(value),
            r is Some <==> value < 16,
            r is Some ==> r->0.spec_code() == value,
    {
        match value {
            0 => Some(Opcode::BR),
            1 => Some(Opcode::ADD),
            2 => Some(Opcode::LD),
            3 => Some(Opcode::ST),
            4 => Some(Opcode::JSR),
            5 => Some(Opcode::AND),
            6 => Some(Opcode::LDR),
            7 => Some(Opcode::STR),
            8 => Some(Opcode::RTI),
            9 => Some(Opcode::NOT),
            10 => Some(Opcode::LDI),
            11 => Some(Opcode::STI),
            12 => Some(Opcode::JMP),
            13 => Some(Opcode::RES),
            14 => Some(Opcode::LEA),
            15 => Some(Opcode::TRAP),
            _ => None,
        }
    }
}

/// The condition flags. Exactly one is stored in the COND register at any
/// time; their values are bit-disjoint so a branch instruction can test them
/// with a bitwise AND.
#[derive(Clone, Copy, PartialEq, Eq, Structural, Debug)]
pub enum ConditionFlags {
    /// the last written value was positive
    POS,
    /// the last written value was zero
    ZRO,
    /// the last written value was negative
    NEG,
}

impl ConditionFlags {
    /// The flag's bit: POS = 1, ZRO = 2, NEG = 4.
    pub open spec fn spec_bits(self) -> u16 {
        match self {
            ConditionFlags::POS => 1,
            ConditionFlags::ZRO => 2,
            ConditionFlags::NEG => 4,
        }
    }

    pub fn bits(self) -> (r: u16)
        ensures
            r == self.spec_bits(),
    {
        match self {
            ConditionFlags::POS => 1,
            ConditionFlags::ZRO => 2,
            ConditionFlags::NEG => 4,
        }
    }
}

/// The two memory-mapped device registers: keyboard status and keyboard data.
#[derive(Clone, Copy, PartialEq, Eq, Structural, Debug)]
pub enum MemoryMappedRegister {
    /// keyboard status, address 0xFE00
    KBSR,
    /// keyboard data, address 0xFE02
    KBDR,
}

impl MemoryMappedRegister {
    pub open spec fn spec_address(self) -> u16 {
        match self {
            MemoryMappedRegister::KBSR => 0xFE00,
            MemoryMappedRegister::KBDR => 0xFE02,
        }
    }

    pub fn address(self) -> (r: u16)
        ensures
            r == self.spec_address(),
    {
        match self {
            MemoryMappedRegister::KBSR => 0xFE00,
            MemoryMappedRegister::KBDR => 0xFE02,
        }
    }
}

/// The six trap vectors of the I/O service table, codes 0x20 to 0x25.
#[derive(Clone, Copy, PartialEq, Eq, Structural, Debug)]
pub enum TrapCode {
    /// get one character from the keyboard
    GetC,
    /// output one character
    Out,
    /// output a word string
    Puts,
    /// prompt, then get one character from the keyboard
    In,
    /// output a byte string
    PutSp,
    /// halt the program
    Halt,
}

impl TrapCode {
    /// The trap's 8-bit vector.
    pub open spec fn spec_code(self) -> u16 {
        match self {
            TrapCode::GetC => 0x20,
            TrapCode::Out => 0x21,
            TrapCode::Puts => 0x22,
            TrapCode::In => 0x23,
            TrapCode::PutSp => 0x24,
            TrapCode::Halt => 0x25,
        }
    }

    pub open spec fn spec_from_u16(value: u16) -> Option<TrapCode> {
        if value == 0x20 {
            Some(TrapCode::GetC)
        } else if value == 0x21 {
            Some(TrapCode::Out)
        } else if value == 0x22 {
            Some(TrapCode::Puts)
        } else if value == 0x23 {
            Some(TrapCode::In)
        } else if value == 0x24 {
            Some(TrapCode::PutSp)
        } else if value == 0x25 {
            Some(TrapCode::Halt)
        } else {
            None
        }
    }

    /// Decodes a trap vector; any vector outside 0x20..=0x25 is unrecognized.
    pub fn from_u16(value: u16) -> (r: Option<TrapCode>)
        ensures
            r == TrapCode::spec_from_u16(value),
            r is Some <==> 0x20 <= value <= 0x25,
            r is Some ==> r->0.spec_code() == value,
    {
        match value {
            0x20 => Some(TrapCode::GetC),
            0x21 => Some(TrapCode::Out),
            0x22 => Some(TrapCode::Puts),
            0x23 => Some(TrapCode::In),
            0x24 => Some(TrapCode::PutSp),
            0x25 => Some(TrapCode::Halt),
            _ => None,
        }
    }
}

// ----------------------------------------------------------------------------
// Operand-field extraction. The interpreter and the disassembler both decode
// every operand through these functions, so their field layouts agree
// bit-for-bit on every instruction word.
// ----------------------------------------------------------------------------

/// The opcode field: the top 4 bits.
pub open spec fn spec_op(w: u16) -> u16 {
    w >> 12
}

pub fn op_field(w: u16) -> (r: u16)
    ensures
        r == spec_op(w),
        r < 16,
{
    proof {
        assert(w >> 12 < 16) by (bit_vector);
    }
    w >> 12
}

/// The destination-register field, bits 11..9; also the source register of
/// the store instructions and the condition field of BR.
pub open spec fn spec_dr(w: u16) -> u16 {
    (w >> 9) & 0x7
}

pub fn dr_field(w: u16) -> (r: u16)
    ensures
        r == spec_dr(w),
        r < 8,
{
    proof {
        assert((w >> 9) & 0x7 < 8) by (bit_vector);
    }
    (w >> 9) & 0x7
}

/// The first source-register field, bits 8..6; also the base register of the
/// register-offset instructions and of JSRR and JMP.
pub open spec fn spec_sr1(w: u16) -> u16 {
    (w >> 6) & 0x7
}

pub fn sr1_field(w: u16) -> (r: u16)
    ensures
        r == spec_sr1(w),
        r < 8,
{
    proof {
        assert((w >> 6) & 0x7 < 8) by (bit_vector);
    }
    (w >> 6) & 0x7
}

/// The second source-register field, bits 2..0.
pub open spec fn spec_sr2(w: u16) -> u16 {
    w & 0x7
}

pub fn sr2_field(w: u16) -> (r: u16)
    ensures
        r == spec_sr2(w),
        r < 8,
{
    proof {
        assert(w & 0x7 < 8) by (bit_vector);
    }
    w & 0x7
}

/// The immediate-mode flag of ADD and AND, bit 5.
pub open spec fn spec_imm_flag(w: u16) -> u16 {
    (w >> 5) & 0x1
}

pub fn imm_flag_field(w: u16) -> (r: u16)
    ensures
        r == spec_imm_flag(w),
{
    (w >> 5) & 0x1
}

/// The sign-extended 5-bit immediate of ADD and AND.
pub open spec fn spec_imm5(w: u16) -> u16 {
    spec_sign_extend(w & 0x1F, 5)
}

pub fn imm5_field(w: u16) -> (r: u16)
    ensures
        r == spec_imm5(w),
{
    sign_extend(w & 0x1F, 5)
}

/// The sign-extended 9-bit PC-relative offset.
pub open spec fn spec_off9(w: u16) -> u16 {
    spec_sign_extend(w & 0x1FF, 9)
}

pub fn off9_field(w: u16) -> (r: u16)
    ensures
        r == spec_off9(w),
{
    sign_extend(w & 0x1FF, 9)
}

/// The sign-extended 11-bit offset of the long form of JSR.
pub open spec fn spec_off11(w: u16) -> u16 {
    spec_sign_extend(w & 0x7FF, 11)
}

pub fn off11_field(w: u16) -> (r: u16)
    ensures
        r == spec_off11(w),
{
    sign_extend(w & 0x7FF, 11)
}

/// The sign-extended 6-bit register offset of STR.
pub open spec fn spec_off6(w: u16) -> u16 {
    spec_sign_extend(w & 0x3F, 6)
}

pub fn off6_field(w: u16) -> (r: u16)
    ensures
        r == spec_off6(w),
{
    sign_extend(w & 0x3F, 6)
}

/// The 6-bit register offset of LDR, sign-extended from width 5. LDR extends
/// its offset field one bit narrower than STR does; the asymmetry is kept as
/// the instruction set defines the machine here.
pub open spec fn spec_off6_narrow(w: u16) -> u16 {
    spec_sign_extend(w & 0x3F, 5)
}

pub fn off6_narrow_field(w: u16) -> (r: u16)
    ensures
        r == spec_off6_narrow(w),
{
    sign_extend(w & 0x3F, 5)
}

/// The long-form flag of JSR, bit 11.
pub open spec fn spec_long_flag(w: u16) -> u16 {
    (w >> 11) & 0x1
}

pub fn long_flag_field(w: u16) -> (r: u16)
    ensures
        r == spec_long_flag(w),
{
    (w >> 11) & 0x1
}

/// The trap-vector field of TRAP: the low 8 bits.
pub open spec fn spec_trapvect(w: u16) -> u16 {
    w & 0xFF
}

pub fn trapvect_field(w: u16) -> (r: u16)
    ensures
        r == spec_trapvect(w),
{
    w & 0xFF
}

} // verus!
