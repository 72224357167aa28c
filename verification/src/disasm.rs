//! The disassembler: a pure function from a 16-bit instruction word to its
//! mnemonic text, and a program-level wrapper that renders one line per word.
//!
//! Operand fields are decoded through `crate::bits`, the same functions the
//! interpreter uses, so the two agree bit-for-bit on every operand field.

use vstd::prelude::*;

use crate::bits::{
    dr_field, imm5_field, imm_flag_field, long_flag_field, off11_field, off6_field,
    off6_narrow_field, off9_field, op_field, sr1_field, sr2_field, spec_dr, spec_imm5,
    spec_imm_flag, spec_long_flag, spec_off11, spec_off6, spec_off6_narrow, spec_off9, spec_op,
    spec_sr1, spec_sr2, spec_trapvect, trapvect_field, ConditionFlags, Opcode,
};
use crate::text::{
    hex4_string, radix_string, signed_decimal_string, spec_hex4, spec_radix, spec_signed_decimal,
};

verus! {

/// The mnemonic text of the instruction word `w`, or `None` when the opcode
/// field decodes to the reserved opcode.
///
/// Two quirks of the instruction set are part of the definition: LDI renders
/// with the same textual form as LD, and LDR sign-extends its 6-bit offset
/// field from width 5 while STR extends it from width 6.
pub open spec fn spec_disassemble(w: u16) -> Option<Seq<char>> {
    match Opcode::spec_from_u16(spec_op(w)) {
        Some(Opcode::ADD) => Some(
            if spec_imm_flag(w) == 1 {
                "ADD R"@ + spec_radix(spec_dr(w), 10) + ", R"@ + spec_radix(spec_sr1(w), 10)
                    + ", #"@ + spec_signed_decimal(spec_imm5(w))
            } else {
                "ADD R"@ + spec_radix(spec_dr(w), 10) + ", R"@ + spec_radix(spec_sr1(w), 10)
                    + ", R"@ + spec_radix(spec_sr2(w), 10)
            },
        ),
        Some(Opcode::AND) => Some(
            if spec_imm_flag(w) == 1 {
                "AND R"@ + spec_radix(spec_dr(w), 10) + ", R"@ + spec_radix(spec_sr1(w), 10)
                    + ", #"@ + spec_signed_decimal(spec_imm5(w))
            } else {
                "AND R"@ + spec_radix(spec_dr(w), 10) + ", R"@ + spec_radix(spec_sr1(w), 10)
                    + ", R"@ + spec_radix(spec_sr2(w), 10)
            },
        ),
        Some(Opcode::BR) => Some(
            "BR"@ + (if spec_dr(w) & 4 == 1 {
                "n"@
            } else {
                ""@
            }) + (if spec_dr(w) & 2 == 1 {
                "z"@
            } else {
                ""@
            }) + (if spec_dr(w) & 1 == 1 {
                "p"@
            } else {
                ""@
            }) + " #"@ + spec_signed_decimal(spec_off9(w)),
        ),
        Some(Opcode::JMP) => Some("JMP R"@ + spec_radix(spec_sr1(w), 10)),
        Some(Opcode::JSR) => Some(
            if spec_long_flag(w) == 0 {
                "JSRR R"@ + spec_radix(spec_sr1(w), 10)
            } else {
                "JSR 0x"@ + spec_hex4(spec_off11(w))
            },
        ),
        Some(Opcode::LD) => Some(
            "LD R"@ + spec_radix(spec_dr(w), 10) + ", #"@ + spec_signed_decimal(spec_off9(w)),
        ),
        Some(Opcode::LDI) => Some(
            "LD R"@ + spec_radix(spec_dr(w), 10) + ", #"@ + spec_signed_decimal(spec_off9(w)),
        ),
        Some(Opcode::LDR) => Some(
            "LDR R"@ + spec_radix(spec_dr(w), 10) + ", R"@ + spec_radix(spec_sr1(w), 10) + ", #"@
                + spec_signed_decimal(spec_off6_narrow(w)),
        ),
        Some(Opcode::LEA) => Some(
            "LEA R"@ + spec_radix(spec_dr(w), 10) + ", #"@ + spec_signed_decimal(spec_off9(w)),
        ),
        Some(Opcode::NOT) => Some(
            "NOT R"@ + spec_radix(spec_dr(w), 10) + ", R"@ + spec_radix(spec_sr1(w), 10),
        ),
        Some(Opcode::RTI) => Some("RTI"@),
        Some(Opcode::ST) => Some(
            "ST R"@ + spec_radix(spec_dr(w), 10) + ", #"@ + spec_signed_decimal(spec_off9(w)),
        ),
        Some(Opcode::STI) => Some(
            "STI R"@ + spec_radix(spec_dr(w), 10) + ", #"@ + spec_signed_decimal(spec_off9(w)),
        ),
        Some(Opcode::STR) => Some(
            "STR R"@ + spec_radix(spec_dr(w), 10) + ", R"@ + spec_radix(spec_sr1(w), 10) + ", #"@
                + spec_signed_decimal(spec_off6(w)),
        ),
        Some(Opcode::TRAP) => Some("TRAP x"@ + spec_hex4(spec_trapvect(w))),
        _ => None,
    }
}

/// Disassembles one instruction word; `None` exactly for the words whose
/// opcode field is the reserved code 0b1101.
pub fn disassemble_instruction(instr: u16) -> (r: Option<String>)
    ensures
        r is Some <==> spec_disassemble(instr) is Some,
        r is Some ==> r->0@ == spec_disassemble(instr)->0,
        r is None <==> spec_op(instr) == 13,
{
    let op = op_field(instr);
    match Opcode::from_u16(op) {
        Some(Opcode::ADD) => {
            let r0 = dr_field(instr);
            let sr1 = sr1_field(instr);
            let imm_flag = imm_flag_field(instr);
            let mut s = String::from_str("ADD R");
            s.append(radix_string(r0, 10).as_str());
            s.append(", R");
            s.append(radix_string(sr1, 10).as_str());
            if imm_flag == 1 {
                let imm5 = imm5_field(instr);
                s.append(", #");
                s.append(signed_decimal_string(imm5).as_str());
            } else {
                let sr2 = sr2_field(instr);
                s.append(", R");
                s.append(radix_string(sr2, 10).as_str());
            }
            Some(s)
        }
        Some(Opcode::AND) => {
            let r0 = dr_field(instr);
            let sr1 = sr1_field(instr);
            let imm_flag = imm_flag_field(instr);
            let mut s = String::from_str("AND R");
            s.append(radix_string(r0, 10).as_str());
            s.append(", R");
            s.append(radix_string(sr1, 10).as_str());
            if imm_flag == 1 {
                let imm5 = imm5_field(instr);
                s.append(", #");
                s.append(signed_decimal_string(imm5).as_str());
            } else {
                let sr2 = sr2_field(instr);
                s.append(", R");
                s.append(radix_string(sr2, 10).as_str());
            }
            Some(s)
        }
        Some(Opcode::BR) => {
            let cond_flag = dr_field(instr);
            let n = if cond_flag & ConditionFlags::NEG.bits() == 1 {
                "n"
            } else {
                ""
            };
            let z = if cond_flag & ConditionFlags::ZRO.bits() == 1 {
                "z"
            } else {
                ""
            };
            let p = if cond_flag & ConditionFlags::POS.bits() == 1 {
                "p"
            } else {
                ""
            };
            let pc_offset = off9_field(instr);
            let mut s = String::from_str("BR");
            s.append(n);
            s.append(z);
            s.append(p);
            s.append(" #");
            s.append(signed_decimal_string(pc_offset).as_str());
            Some(s)
        }
        Some(Opcode::JMP) => {
            let r0 = sr1_field(instr);
            let mut s = String::from_str("JMP R");
            s.append(radix_string(r0, 10).as_str());
            Some(s)
        }
        Some(Opcode::JSR) => {
            let long_flag = long_flag_field(instr);
            if long_flag == 0 {
                let base_r = sr1_field(instr);
                let mut s = String::from_str("JSRR R");
                s.append(radix_string(base_r, 10).as_str());
                Some(s)
            } else {
                let pc_offset = off11_field(instr);
                let mut s = String::from_str("JSR 0x");
                s.append(hex4_string(pc_offset).as_str());
                Some(s)
            }
        }
        Some(Opcode::LD) => {
            let dr = dr_field(instr);
            let pc_offset = off9_field(instr);
            let mut s = String::from_str("LD R");
            s.append(radix_string(dr, 10).as_str());
            s.append(", #");
            s.append(signed_decimal_string(pc_offset).as_str());
            Some(s)
        }
        Some(Opcode::LDI) => {
            // Renders with the same textual form as LD; the quirk is part of
            // the instruction set as this machine defines it.
            let dr = dr_field(instr);
            let pc_offset = off9_field(instr);
            let mut s = String::from_str("LD R");
            s.append(radix_string(dr, 10).as_str());
            s.append(", #");
            s.append(signed_decimal_string(pc_offset).as_str());
            Some(s)
        }
        Some(Opcode::LDR) => {
            let dr = dr_field(instr);
            let base_r = sr1_field(instr);
            let offset = off6_narrow_field(instr);
            let mut s = String::from_str("LDR R");
            s.append(radix_string(dr, 10).as_str());
            s.append(", R");
            s.append(radix_string(base_r, 10).as_str());
            s.append(", #");
            s.append(signed_decimal_string(offset).as_str());
            Some(s)
        }
        Some(Opcode::LEA) => {
            let dr = dr_field(instr);
            let pc_offset = off9_field(instr);
            let mut s = String::from_str("LEA R");
            s.append(radix_string(dr, 10).as_str());
            s.append(", #");
            s.append(signed_decimal_string(pc_offset).as_str());
            Some(s)
        }
        Some(Opcode::NOT) => {
            let dr = dr_field(instr);
            let sr = sr1_field(instr);
            let mut s = String::from_str("NOT R");
            s.append(radix_string(dr, 10).as_str());
            s.append(", R");
            s.append(radix_string(sr, 10).as_str());
            Some(s)
        }
        Some(Opcode::RTI) => Some(String::from_str("RTI")),
        Some(Opcode::ST) => {
            let sr = dr_field(instr);
            let pc_offset = off9_field(instr);
            let mut s = String::from_str("ST R");
            s.append(radix_string(sr, 10).as_str());
            s.append(", #");
            s.append(signed_decimal_string(pc_offset).as_str());
            Some(s)
        }
        Some(Opcode::STI) => {
            let sr = dr_field(instr);
            let pc_offset = off9_field(instr);
            let mut s = String::from_str("STI R");
            s.append(radix_string(sr, 10).as_str());
            s.append(", #");
            s.append(signed_decimal_string(pc_offset).as_str());
            Some(s)
        }
        Some(Opcode::STR) => {
            let sr = dr_field(instr);
            let base_r = sr1_field(instr);
            let offset = off6_field(instr);
            let mut s = String::from_str("STR R");
            s.append(radix_string(sr, 10).as_str());
            s.append(", R");
            s.append(radix_string(base_r, 10).as_str());
            s.append(", #");
            s.append(signed_decimal_string(offset).as_str());
            Some(s)
        }
        Some(Opcode::TRAP) => {
            let trapvect = trapvect_field(instr);
            let mut s = String::from_str("TRAP x");
            s.append(hex4_string(trapvect).as_str());
            Some(s)
        }
        _ => None,
    }
}

/// The line a word contributes to a program listing: its mnemonic text, or
/// the marker line for an undecodable word, followed by a newline.
pub open spec fn spec_instruction_line(w: u16) -> Seq<char> {
    (match spec_disassemble(w) {
        Some(t) => t,
        None => "BAD OPCODE"@,
    }) + "\n"@
}

/// The listing of a program: the line of each word in order.
pub open spec fn spec_program_text(ws: Seq<u16>) -> Seq<char>
    decreases ws.len(),
{
    if ws.len() == 0 {
        Seq::empty()
    } else {
        spec_program_text(ws.drop_last()) + spec_instruction_line(ws.last())
    }
}

/// Disassembles an ordered sequence of instruction words, one line per word,
/// substituting a literal "BAD OPCODE" line for undecodable words.
pub fn disassemble_program(program: &[u16]) -> (r: String)
    ensures
        r@ == spec_program_text(program@),
{
    let mut output = String::new();
    let mut i: usize = 0;
    while i < program.len()
        invariant
            i <= program@.len(),
            output@ == spec_program_text(program@.take(i as int)),
        decreases program@.len() - i,
    {
        match disassemble_instruction(program[i]) {
            Some(text) => output.append(text.as_str()),
            None => output.append("BAD OPCODE"),
        }
        output.append("\n");
        i = i + 1;
        proof {
            assert(program@.take(i as int).drop_last() =~= program@.take(i - 1));
            assert(program@.take(i as int).last() == program@[i - 1]);
        }
    }
    proof {
        assert(program@.take(program@.len() as int) =~= program@);
    }
    output
}

} // verus!
