//! The virtual machine: the register file, the flat word-addressed memory
//! with its memory-mapped keyboard registers, and the fetch-decode-execute
//! interpreter over the 16-opcode instruction set.
//!
//! The interpreter performs no I/O of its own. Each cycle receives the
//! pending input byte (if one is available) as a value and appends whatever
//! characters it emits to an output buffer; a host loop feeds it real
//! streams. The whole behaviour of a cycle is the spec function `spec_step`,
//! and `step` is proved to implement it exactly.

use vstd::prelude::*;

use crate::bits::{
    dr_field, imm5_field, imm_flag_field, long_flag_field, off11_field, off6_field,
    off6_narrow_field, off9_field, op_field, sr1_field, sr2_field, spec_dr, spec_imm5,
    spec_imm_flag, spec_long_flag, spec_off11, spec_off6, spec_off6_narrow, spec_off9, spec_op,
    spec_sr1, spec_sr2, spec_trapvect, trapvect_field, ConditionFlags, MemoryMappedRegister,
    Opcode, Register, TrapCode,
};

verus! {

/// The address execution starts at.
pub const PC_START: u16 = 0x3000;

/// The number of words in the 16-bit address space.
pub const ADDRESS_SPACE: usize = 0x10000;

/// The mathematical state of the machine: the eleven register slots in the
/// order of `Register::idx`, the memory words, and the running flag.
pub ghost struct VmView {
    pub regs: Seq<u16>,
    pub mem: Seq<u16>,
    pub running: bool,
    pub bad_opcodes: u64,
}

impl VmView {
    /// Well-formedness: exactly eleven register slots, and memory that covers
    /// the whole 16-bit address space.
    pub open spec fn wf(self) -> bool {
        &&& self.regs.len() == 11
        &&& self.mem.len() >= ADDRESS_SPACE
    }

}

/// Addition modulo 65536, the arithmetic of every address and register
/// computation of the machine.
pub open spec fn wadd(a: u16, b: u16) -> u16 {
    if a + b > 0xFFFF {
        (a + b - 0x10000) as u16
    } else {
        (a + b) as u16
    }
}

/// The condition flag for a value just written to a register: ZRO for zero,
/// NEG when the sign bit is set, POS otherwise.
pub open spec fn spec_flag_for(v: u16) -> u16 {
    if v == 0 {
        ConditionFlags::ZRO.spec_bits()
    } else if v >> 15 == 1 {
        ConditionFlags::NEG.spec_bits()
    } else {
        ConditionFlags::POS.spec_bits()
    }
}

/// Register-file update of a destination register together with the
/// condition-flag recomputation that follows it.
pub open spec fn set_and_flag(regs: Seq<u16>, dst: int, v: u16) -> Seq<u16> {
    regs.update(dst, v).update(Register::COND.idx(), spec_flag_for(v))
}

/// The outcome of one memory read: the memory afterwards (a read of the
/// keyboard-status address writes the status and data words), the input byte
/// still pending afterwards, and the value read.
pub ghost struct ReadEffect {
    pub mem: Seq<u16>,
    pub avail: Option<u8>,
    pub val: u16,
}

/// One memory read. A read of the keyboard-status address consumes the
/// pending input byte: with a byte pending it sets the status word's top bit
/// and stores the byte, zero-extended, in the keyboard-data word; with none
/// pending it clears the status word. Every other address is a plain array
/// read.
pub open spec fn spec_mem_read(mem: Seq<u16>, avail: Option<u8>, addr: u16) -> ReadEffect {
    if addr == MemoryMappedRegister::KBSR.spec_address() {
        match avail {
            Some(b) => ReadEffect {
                mem: mem.update(
                    MemoryMappedRegister::KBSR.spec_address() as int,
                    0x8000u16,
                ).update(MemoryMappedRegister::KBDR.spec_address() as int, b as u16),
                avail: None,
                val: 0x8000,
            },
            None => ReadEffect {
                mem: mem.update(MemoryMappedRegister::KBSR.spec_address() as int, 0u16),
                avail: None,
                val: 0,
            },
        }
    } else {
        ReadEffect { mem, avail, val: mem[addr as int] }
    }
}

/// The virtual machine. Construct it with `with_memory`, load a program
/// image with `read_image`, then drive it with `run` or step by step with
/// `start` and `step`.
#[derive(Debug)]
pub struct VirtualMachine {
    memory: Vec<u16>,
    registers: Vec<u16>,
    running: bool,
    bad_opcodes: u64,
}

impl View for VirtualMachine {
    type V = VmView;

    closed spec fn view(&self) -> VmView {
        VmView {
            regs: self.registers@,
            mem: self.memory@,
            running: self.running,
            bad_opcodes: self.bad_opcodes,
        }
    }
}

impl VirtualMachine {
    /// Allocates a machine with `amount` words of memory, all registers zero,
    /// not running. Fails, returning `None`, when `amount` does not cover the
    /// 16-bit address space: every address is taken modulo 65536, so a
    /// smaller memory is a configuration error caught at construction.
    pub fn with_memory(amount: usize) -> (r: Option<VirtualMachine>)
        ensures
            r is Some <==> amount >= ADDRESS_SPACE,
            r is Some ==> {
                let v = r->0@;
                &&& v.wf()
                &&& v.mem == Seq::new(amount as nat, |i: int| 0u16)
                &&& v.regs == Seq::new(11, |i: int| 0u16)
                &&& !v.running
                &&& v.bad_opcodes == 0
            },
    {
        if amount < ADDRESS_SPACE {
            return None;
        }
        let memory = zero_words(amount);
        let registers = zero_words(11);
        Some(VirtualMachine { memory, registers, running: false, bad_opcodes: 0 })
    }

    /// Whether the machine is in the RUNNING state.
    pub fn is_running(&self) -> (r: bool)
        ensures
            r == self@.running,
    {
        self.running
    }

    /// How many unrecognized opcodes and trap vectors the machine has
    /// absorbed so far. Each such cycle is a no-op apart from the fetch, and
    /// the count lets a host log or display the events the machine survived.
    pub fn bad_opcode_count(&self) -> (r: u64)
        ensures
            r == self@.bad_opcodes,
    {
        self.bad_opcodes
    }

    /// One plain memory write; stores never have device side effects.
    fn mem_write(&mut self, addr: u16, val: u16)
        requires
            old(self)@.wf(),
        ensures
            final(self)@.mem == old(self)@.mem.update(addr as int, val),
            final(self)@.regs == old(self)@.regs,
            final(self)@.running == old(self)@.running,
            final(self)@.bad_opcodes == old(self)@.bad_opcodes,
            final(self)@.wf(),
    {
        self.memory[addr as usize] = val;
    }

    /// One memory read, with the keyboard-status side effect described by
    /// `spec_mem_read`.
    fn mem_read(&mut self, avail: &mut Option<u8>, addr: u16) -> (r: u16)
        requires
            old(self)@.wf(),
        ensures
            ({
                let e = spec_mem_read(old(self)@.mem, *old(avail), addr);
                &&& final(self)@.mem == e.mem
                &&& *final(avail) == e.avail
                &&& r == e.val
            }),
            final(self)@.regs == old(self)@.regs,
            final(self)@.running == old(self)@.running,
            final(self)@.bad_opcodes == old(self)@.bad_opcodes,
            final(self)@.wf(),
    {
        proof {
            assert(1u16 << 15u16 == 0x8000u16) by (bit_vector);
        }
        if addr == MemoryMappedRegister::KBSR.address() {
            match *avail {
                Some(b) => {
                    self.memory[0xFE00] = 1 << 15;
                    self.memory[0xFE02] = b as u16;
                    *avail = None;
                }
                None => {
                    self.memory[0xFE00] = 0;
                }
            }
        }
        self.memory[addr as usize]
    }

    /// Recomputes the condition flags from the value last written to `reg`.
    fn update_flags(&mut self, reg: Register)
        requires
            old(self)@.wf(),
        ensures
            final(self)@.regs == old(self)@.regs.update(
                Register::COND.idx(),
                spec_flag_for(old(self)@.regs[reg.idx()]),
            ),
            final(self)@.mem == old(self)@.mem,
            final(self)@.running == old(self)@.running,
            final(self)@.bad_opcodes == old(self)@.bad_opcodes,
            final(self)@.wf(),
    {
        let v = self.registers[reg.index()];
        let flag = if v == 0 {
            ConditionFlags::ZRO.bits()
        } else if v >> 15 == 1 {
            // a 1 in the left-most bit indicates negative
            ConditionFlags::NEG.bits()
        } else {
            ConditionFlags::POS.bits()
        };
        let cond = Register::COND.index();
        self.registers[cond] = flag;
    }
}

/// A vector of `n` zero words.
fn zero_words(n: usize) -> (r: Vec<u16>)
    ensures
        r@ == Seq::new(n as nat, |i: int| 0u16),
{
    let mut v: Vec<u16> = Vec::new();
    let mut i: usize = 0;
    while i < n
        invariant
            i <= n,
            v@ == Seq::new(i as nat, |j: int| 0u16),
        decreases n - i,
    {
        v.push(0);
        i = i + 1;
        proof {
            assert(v@ =~= Seq::new(i as nat, |j: int| 0u16));
        }
    }
    v
}

// ----------------------------------------------------------------------------
// Image loading
// ----------------------------------------------------------------------------

/// The load origin of an image: its first two bytes, big-endian.
pub open spec fn spec_image_origin(image: Seq<u8>) -> u16 {
    (image[0] * 256 + image[1]) as u16
}

/// The program words of an image: every full big-endian 2-byte chunk after
/// the origin, in order. A trailing odd byte forms no word and is dropped.
pub open spec fn spec_image_words(image: Seq<u8>) -> Seq<u16> {
    Seq::new(
        (((image.len() - 2) / 2) as nat),
        |i: int| (image[2 + 2 * i] * 256 + image[2 + 2 * i + 1]) as u16,
    )
}

/// The address `i` words past `origin`, modulo the address space.
pub open spec fn addr_of(origin: u16, i: int) -> int {
    (origin + i) % 0x10000
}

/// Memory after writing `words` sequentially starting at `origin`, each
/// address taken modulo the address space; later writes win.
pub open spec fn spec_load(mem: Seq<u16>, origin: u16, words: Seq<u16>) -> Seq<u16>
    decreases words.len(),
{
    if words.len() == 0 {
        mem
    } else {
        spec_load(mem, origin, words.drop_last()).update(
            addr_of(origin, words.len() - 1),
            words.last(),
        )
    }
}

impl VirtualMachine {
    /// Loads a binary image: the first two bytes, big-endian, are the load
    /// origin, and every following full 2-byte big-endian chunk is one word,
    /// written sequentially from the origin. A trailing odd byte is dropped
    /// silently; registers and the running flag are untouched.
    pub fn read_image(&mut self, image: &[u8])
        requires
            old(self)@.wf(),
            image@.len() >= 2,
        ensures
            final(self)@.mem == spec_load(
                old(self)@.mem,
                spec_image_origin(image@),
                spec_image_words(image@),
            ),
            final(self)@.regs == old(self)@.regs,
            final(self)@.running == old(self)@.running,
            final(self)@.bad_opcodes == old(self)@.bad_opcodes,
            final(self)@.wf(),
    {
        let origin: u16 = ((image[0] as u16) << 8u16) | (image[1] as u16);
        proof {
            let b0 = image@[0];
            let b1 = image@[1];
            assert(((b0 as u16) << 8u16) | (b1 as u16) == (b0 * 256 + b1) as u16) by (bit_vector);
        }
        let ilen: usize = image.len();
        let count: usize = (ilen - 2) / 2;
        proof {
            vstd::arithmetic::div_mod::lemma_fundamental_div_mod(ilen as int - 2, 2);
        }
        let ghost words = spec_image_words(image@);
        let mut offset: usize = 0;
        let mut addr: u16 = origin;
        while offset < count
            invariant
                offset <= count,
                ilen == image@.len(),
                2 <= ilen,
                count == (ilen - 2) / 2,
                2 * count <= ilen - 2,
                words == spec_image_words(image@),
                words.len() == count,
                addr as int == addr_of(origin, offset as int),
                self@.mem == spec_load(old(self)@.mem, origin, words.take(offset as int)),
                self@.regs == old(self)@.regs,
                self@.running == old(self)@.running,
                self@.bad_opcodes == old(self)@.bad_opcodes,
                self@.wf(),
            decreases count - offset,
        {
            let hi = image[2 + 2 * offset];
            let lo = image[2 + 2 * offset + 1];
            let word: u16 = ((hi as u16) << 8u16) | ((lo) as u16);
            proof {
                let h = image@[2 + 2 * offset];
                let l = image@[2 + 2 * offset + 1];
                assert(((h as u16) << 8u16) | (l as u16) == (h * 256 + l) as u16) by (bit_vector);
            }
            self.mem_write(addr, word);
            addr = addr.wrapping_add(1);
            offset = offset + 1;
            proof {
                assert(words.take(offset as int).drop_last() =~= words.take(offset - 1));
                assert(words.take(offset as int).last() == words[offset - 1]);
                vstd::arithmetic::div_mod::lemma_add_mod_noop(
                    origin + offset - 1,
                    1,
                    0x10000,
                );
            }
        }
        proof {
            assert(words.take(count as int) =~= words);
        }
    }
}

// ----------------------------------------------------------------------------
// Opcode semantics. Each spec function takes the machine view after the
// fetch, whose PC has already been incremented.
// ----------------------------------------------------------------------------

/// ADD: DR = SR1 + (5-bit immediate or SR2), modulo 65536; flags updated.
pub open spec fn spec_op_add(v: VmView, w: u16) -> VmView {
    let a = v.regs[spec_sr1(w) as int];
    let b = if spec_imm_flag(w) == 1 {
        spec_imm5(w)
    } else {
        v.regs[spec_sr2(w) as int]
    };
    VmView { regs: set_and_flag(v.regs, spec_dr(w) as int, wadd(a, b)), ..v }
}

/// AND: DR = SR1 AND (5-bit immediate or SR2); the flags are not updated,
/// an asymmetry of this machine that is kept deliberately.
pub open spec fn spec_op_and(v: VmView, w: u16) -> VmView {
    let a = v.regs[spec_sr1(w) as int];
    let b = if spec_imm_flag(w) == 1 {
        spec_imm5(w)
    } else {
        v.regs[spec_sr2(w) as int]
    };
    VmView { regs: v.regs.update(spec_dr(w) as int, a & b), ..v }
}

/// BR: adds the 9-bit offset to PC when the condition field intersects the
/// stored flags.
pub open spec fn spec_op_br(v: VmView, w: u16) -> VmView {
    if spec_dr(w) & v.regs[Register::COND.idx()] != 0 {
        VmView {
            regs: v.regs.update(Register::PC.idx(), wadd(v.regs[Register::PC.idx()], spec_off9(w))),
            ..v
        }
    } else {
        v
    }
}

/// JMP: PC = base register.
pub open spec fn spec_op_jmp(v: VmView, w: u16) -> VmView {
    VmView { regs: v.regs.update(Register::PC.idx(), v.regs[spec_sr1(w) as int]), ..v }
}

/// JSR/JSRR: saves PC in R7, then jumps PC-relative (long form) or to the
/// base register. JSRR through R7 reads the just-saved value.
pub open spec fn spec_op_jsr(v: VmView, w: u16) -> VmView {
    let saved = v.regs.update(Register::R7.idx(), v.regs[Register::PC.idx()]);
    let target = if spec_long_flag(w) == 0 {
        saved[spec_sr1(w) as int]
    } else {
        wadd(v.regs[Register::PC.idx()], spec_off11(w))
    };
    VmView { regs: saved.update(Register::PC.idx(), target), ..v }
}

/// LEA: DR = PC + 9-bit offset; flags updated.
pub open spec fn spec_op_lea(v: VmView, w: u16) -> VmView {
    VmView {
        regs: set_and_flag(
            v.regs,
            spec_dr(w) as int,
            wadd(v.regs[Register::PC.idx()], spec_off9(w)),
        ),
        ..v
    }
}

/// NOT: DR = bitwise complement of SR; flags updated.
pub open spec fn spec_op_not(v: VmView, w: u16) -> VmView {
    VmView { regs: set_and_flag(v.regs, spec_dr(w) as int, !v.regs[spec_sr1(w) as int]), ..v }
}

/// ST: memory[PC + 9-bit offset] = SR.
pub open spec fn spec_op_st(v: VmView, w: u16) -> VmView {
    VmView {
        mem: v.mem.update(
            wadd(v.regs[Register::PC.idx()], spec_off9(w)) as int,
            v.regs[spec_dr(w) as int],
        ),
        ..v
    }
}

/// STR: memory[base + 6-bit offset] = SR.
pub open spec fn spec_op_str(v: VmView, w: u16) -> VmView {
    VmView {
        mem: v.mem.update(
            wadd(v.regs[spec_sr1(w) as int], spec_off6(w)) as int,
            v.regs[spec_dr(w) as int],
        ),
        ..v
    }
}

/// LD: DR = memory[PC + 9-bit offset]; flags updated. The read can touch the
/// keyboard-status address, so the pending input byte threads through.
pub open spec fn spec_op_ld(v: VmView, avail: Option<u8>, w: u16) -> (VmView, Option<u8>) {
    let e = spec_mem_read(v.mem, avail, wadd(v.regs[Register::PC.idx()], spec_off9(w)));
    (
        VmView { regs: set_and_flag(v.regs, spec_dr(w) as int, e.val), mem: e.mem, ..v },
        e.avail,
    )
}

/// LDI: reads the address at PC + offset, then loads through it; flags
/// updated.
pub open spec fn spec_op_ldi(v: VmView, avail: Option<u8>, w: u16) -> (VmView, Option<u8>) {
    let e1 = spec_mem_read(v.mem, avail, wadd(v.regs[Register::PC.idx()], spec_off9(w)));
    let e2 = spec_mem_read(e1.mem, e1.avail, e1.val);
    (
        VmView { regs: set_and_flag(v.regs, spec_dr(w) as int, e2.val), mem: e2.mem, ..v },
        e2.avail,
    )
}

/// LDR: DR = memory[base + offset], the offset sign-extended from width 5;
/// flags updated.
pub open spec fn spec_op_ldr(v: VmView, avail: Option<u8>, w: u16) -> (VmView, Option<u8>) {
    let e = spec_mem_read(v.mem, avail, wadd(v.regs[spec_sr1(w) as int], spec_off6_narrow(w)));
    (
        VmView { regs: set_and_flag(v.regs, spec_dr(w) as int, e.val), mem: e.mem, ..v },
        e.avail,
    )
}

/// STI: reads the address at PC + offset, then stores SR through it.
pub open spec fn spec_op_sti(v: VmView, avail: Option<u8>, w: u16) -> (VmView, Option<u8>) {
    let e = spec_mem_read(v.mem, avail, wadd(v.regs[Register::PC.idx()], spec_off9(w)));
    (
        VmView {
            mem: e.mem.update(e.val as int, v.regs[spec_dr(w) as int]),
            ..v
        },
        e.avail,
    )
}

/// RTI with the privilege bit of PSR clear pops PC and then PSR from the
/// stack R6 points to, incrementing R6 after each read. With the privilege
/// bit set a privilege-mode exception would be due; that branch is left as a
/// no-op here, explicitly and deliberately.
pub open spec fn spec_op_rti(v: VmView, avail: Option<u8>, w: u16) -> (VmView, Option<u8>) {
    if (v.regs[Register::PSR.idx()] >> 15) & 1 == 0 {
        let r6 = v.regs[Register::R6.idx()];
        let e1 = spec_mem_read(v.mem, avail, r6);
        let e2 = spec_mem_read(e1.mem, e1.avail, wadd(r6, 1));
        (
            VmView {
                regs: v.regs.update(Register::PC.idx(), e1.val).update(
                    Register::R6.idx(),
                    wadd(wadd(r6, 1), 1),
                ).update(Register::PSR.idx(), e2.val),
                mem: e2.mem,
                ..v
            },
            e2.avail,
        )
    } else {
        (v, avail)
    }
}

/// The effect of an unrecognized opcode or trap vector: the machine absorbs
/// it, counting the event (the count saturates rather than wrap).
pub open spec fn spec_bad_opcode(v: VmView) -> VmView {
    VmView {
        bad_opcodes: if v.bad_opcodes < u64::MAX {
            (v.bad_opcodes + 1) as u64
        } else {
            v.bad_opcodes
        },
        ..v
    }
}

// ----------------------------------------------------------------------------
// Trap semantics
// ----------------------------------------------------------------------------

/// The characters PUTS emits: the low byte of each word from `i` on, stopping
/// at the first zero word or at the end of the address space.
pub open spec fn spec_puts_output(mem: Seq<u16>, i: int) -> Seq<u8>
    decreases 0x10000 - i,
{
    if i < 0 || i >= 0x10000 || mem[i] == 0 {
        Seq::empty()
    } else {
        seq![(mem[i] & 0xFF) as u8] + spec_puts_output(mem, i + 1)
    }
}

/// The characters PUTSP emits: two packed bytes per word, low byte first,
/// stopping as soon as either byte of a word is zero or at the end of the
/// address space.
pub open spec fn spec_putsp_output(mem: Seq<u16>, i: int) -> Seq<u8>
    decreases 0x10000 - i,
{
    if i < 0 || i >= 0x10000 {
        Seq::empty()
    } else {
        let lo = (mem[i] & 0xFF) as u8;
        let hi = (mem[i] >> 8) as u8;
        if lo == 0 {
            Seq::empty()
        } else if hi == 0 {
            seq![lo]
        } else {
            seq![lo, hi] + spec_putsp_output(mem, i + 1)
        }
    }
}

/// What executing one instruction does, beyond the machine state: the input
/// byte still pending, the characters emitted, and whether the instruction
/// needs an input byte that is not there (in which case nothing happened).
pub ghost struct StepBits {
    pub v: VmView,
    pub avail: Option<u8>,
    pub out: Seq<u8>,
    pub need_input: bool,
}

/// TRAP: dispatch on the low 8 bits. GETC and IN consume the pending input
/// byte into R0, zero-extended, and report `need_input` when none is there;
/// IN emits its prompt first. OUT emits the low byte of R0; PUTS and PUTSP
/// emit the string R0 points to; HALT clears the running flag; an
/// unrecognized vector is a no-op.
pub open spec fn spec_trap(v: VmView, avail: Option<u8>, w: u16) -> StepBits {
    match TrapCode::spec_from_u16(spec_trapvect(w)) {
        Some(TrapCode::GetC) => match avail {
            Some(b) => StepBits {
                v: VmView { regs: v.regs.update(Register::R0.idx(), b as u16), ..v },
                avail: None,
                out: Seq::empty(),
                need_input: false,
            },
            None => StepBits { v, avail, out: Seq::empty(), need_input: true },
        },
        Some(TrapCode::Out) => StepBits {
            v,
            avail,
            out: seq![(v.regs[Register::R0.idx()] & 0xFF) as u8],
            need_input: false,
        },
        Some(TrapCode::Puts) => StepBits {
            v,
            avail,
            out: spec_puts_output(v.mem, v.regs[Register::R0.idx()] as int),
            need_input: false,
        },
        Some(TrapCode::In) => match avail {
            Some(b) => StepBits {
                v: VmView { regs: v.regs.update(Register::R0.idx(), b as u16), ..v },
                avail: None,
                // the prompt "IN: "
                out: seq![73u8, 78u8, 58u8, 32u8],
                need_input: false,
            },
            None => StepBits { v, avail, out: Seq::empty(), need_input: true },
        },
        Some(TrapCode::PutSp) => StepBits {
            v,
            avail,
            out: spec_putsp_output(v.mem, v.regs[Register::R0.idx()] as int),
            need_input: false,
        },
        Some(TrapCode::Halt) => StepBits {
            v: VmView { running: false, ..v },
            avail,
            out: Seq::empty(),
            need_input: false,
        },
        None => StepBits { v: spec_bad_opcode(v), avail, out: Seq::empty(), need_input: false },
    }
}

/// Executes the already-fetched instruction word on the post-fetch view. An
/// unrecognized opcode (the reserved code) is a no-op: the machine is
/// fail-soft and keeps running.
pub open spec fn spec_execute(v: VmView, avail: Option<u8>, instr: u16) -> StepBits {
    match Opcode::spec_from_u16(spec_op(instr)) {
        Some(Opcode::BR) => StepBits {
            v: spec_op_br(v, instr),
            avail,
            out: Seq::empty(),
            need_input: false,
        },
        Some(Opcode::ADD) => StepBits {
            v: spec_op_add(v, instr),
            avail,
            out: Seq::empty(),
            need_input: false,
        },
        Some(Opcode::LD) => {
            let r = spec_op_ld(v, avail, instr);
            StepBits { v: r.0, avail: r.1, out: Seq::empty(), need_input: false }
        },
        Some(Opcode::ST) => StepBits {
            v: spec_op_st(v, instr),
            avail,
            out: Seq::empty(),
            need_input: false,
        },
        Some(Opcode::JSR) => StepBits {
            v: spec_op_jsr(v, instr),
            avail,
            out: Seq::empty(),
            need_input: false,
        },
        Some(Opcode::AND) => StepBits {
            v: spec_op_and(v, instr),
            avail,
            out: Seq::empty(),
            need_input: false,
        },
        Some(Opcode::LDR) => {
            let r = spec_op_ldr(v, avail, instr);
            StepBits { v: r.0, avail: r.1, out: Seq::empty(), need_input: false }
        },
        Some(Opcode::STR) => StepBits {
            v: spec_op_str(v, instr),
            avail,
            out: Seq::empty(),
            need_input: false,
        },
        Some(Opcode::RTI) => {
            let r = spec_op_rti(v, avail, instr);
            StepBits { v: r.0, avail: r.1, out: Seq::empty(), need_input: false }
        },
        Some(Opcode::NOT) => StepBits {
            v: spec_op_not(v, instr),
            avail,
            out: Seq::empty(),
            need_input: false,
        },
        Some(Opcode::LDI) => {
            let r = spec_op_ldi(v, avail, instr);
            StepBits { v: r.0, avail: r.1, out: Seq::empty(), need_input: false }
        },
        Some(Opcode::STI) => {
            let r = spec_op_sti(v, avail, instr);
            StepBits { v: r.0, avail: r.1, out: Seq::empty(), need_input: false }
        },
        Some(Opcode::JMP) => StepBits {
            v: spec_op_jmp(v, instr),
            avail,
            out: Seq::empty(),
            need_input: false,
        },
        Some(Opcode::LEA) => StepBits {
            v: spec_op_lea(v, instr),
            avail,
            out: Seq::empty(),
            need_input: false,
        },
        Some(Opcode::TRAP) => spec_trap(v, avail, instr),
        _ => StepBits { v: spec_bad_opcode(v), avail, out: Seq::empty(), need_input: false },
    }
}

/// What a call of `step` reports: whether the instruction ran, ran and
/// consumed the pending input byte, or needs an input byte that was not
/// supplied (the machine state is then unchanged and the instruction will be
/// retried).
#[derive(Clone, Copy, PartialEq, Eq, Structural, Debug)]
pub enum StepOutcome {
    Ran,
    RanConsumedInput,
    NeedInput,
}

/// The full effect of one cycle: the machine afterwards, the characters
/// emitted, and the outcome reported.
pub ghost struct StepEffect {
    pub v: VmView,
    pub out: Seq<u8>,
    pub outcome: StepOutcome,
}

/// One fetch-decode-execute cycle from `pre` with `input` pending: fetch the
/// word at PC (a fetch from the keyboard-status address has the usual device
/// side effects), increment PC modulo 65536, and execute. A cycle that needs
/// input leaves the machine exactly as it was.
pub open spec fn spec_step(pre: VmView, input: Option<u8>) -> StepEffect {
    let fetch = spec_mem_read(pre.mem, input, pre.regs[Register::PC.idx()]);
    let s1 = VmView {
        regs: pre.regs.update(Register::PC.idx(), wadd(pre.regs[Register::PC.idx()], 1)),
        mem: fetch.mem,
        running: pre.running,
        bad_opcodes: pre.bad_opcodes,
    };
    let sb = spec_execute(s1, fetch.avail, fetch.val);
    if sb.need_input {
        StepEffect { v: pre, out: Seq::empty(), outcome: StepOutcome::NeedInput }
    } else {
        StepEffect {
            v: sb.v,
            out: sb.out,
            outcome: if input is Some && sb.avail is None {
                StepOutcome::RanConsumedInput
            } else {
                StepOutcome::Ran
            },
        }
    }
}

// ----------------------------------------------------------------------------
// Diagnostics snapshot
// ----------------------------------------------------------------------------

/// A point-in-time copy of machine state for a passive external observer:
/// the register file in the order of `Register::idx`, plus the requested
/// memory window and its contents.
#[derive(Debug)]
pub struct DiagnosticStatus {
    pub registers: Vec<u16>,
    pub memory_view_range: (usize, usize),
    pub memory_view: Vec<u16>,
}

impl Default for DiagnosticStatus {
    /// An empty snapshot: the eleven register slots all zero, an empty
    /// window at address zero.
    fn default() -> (d: DiagnosticStatus)
        ensures
            d.registers@ == Seq::new(11, |i: int| 0u16),
            d.memory_view_range == (0usize, 0usize),
            d.memory_view@ == Seq::<u16>::empty(),
    {
        DiagnosticStatus {
            registers: zero_words(11),
            memory_view_range: (0, 0),
            memory_view: Vec::new(),
        }
    }
}

impl VirtualMachine {
    /// Produces the diagnostics snapshot for the memory window that starts at
    /// `range_start` and spans `range_length + 1` words (the window bounds
    /// are inclusive).
    pub fn diagnostics(&self, range_start: usize, range_length: usize) -> (d: DiagnosticStatus)
        requires
            self@.wf(),
            range_start + range_length < self@.mem.len(),
        ensures
            d.registers@ == self@.regs,
            d.memory_view_range == (range_start, range_length),
            d.memory_view@ == self@.mem.subrange(
                range_start as int,
                range_start + range_length + 1,
            ),
    {
        let mut registers: Vec<u16> = Vec::new();
        let mut i: usize = 0;
        while i < self.registers.len()
            invariant
                i <= self@.regs.len(),
                registers@ == self@.regs.take(i as int),
                self@.wf(),
            decreases self@.regs.len() - i,
        {
            registers.push(self.registers[i]);
            i = i + 1;
            proof {
                assert(registers@ =~= self@.regs.take(i as int));
            }
        }
        proof {
            assert(self@.regs.take(self@.regs.len() as int) =~= self@.regs);
        }
        let mem_len: usize = self.memory.len();
        let end: usize = range_start + range_length;
        let mut memory_view: Vec<u16> = Vec::new();
        let mut j: usize = range_start;
        while j <= end
            invariant
                range_start <= j <= end + 1,
                end == range_start + range_length,
                end < mem_len,
                mem_len == self@.mem.len(),
                memory_view@ == self@.mem.subrange(range_start as int, j as int),
                self@.wf(),
            decreases end + 1 - j,
        {
            memory_view.push(self.memory[j]);
            j = j + 1;
            proof {
                assert(memory_view@ =~= self@.mem.subrange(range_start as int, j as int));
            }
        }
        DiagnosticStatus {
            registers,
            memory_view_range: (range_start, range_length),
            memory_view,
        }
    }
}

// ----------------------------------------------------------------------------
// The opcode handlers
// ----------------------------------------------------------------------------

impl VirtualMachine {
    fn op_add(&mut self, instr: u16)
        requires
            old(self)@.wf(),
        ensures
            final(self)@ == spec_op_add(old(self)@, instr),
            final(self)@.wf(),
    {
        let r0 = dr_field(instr);
        let r1 = sr1_field(instr);
        let imm_flag = imm_flag_field(instr);
        let a = self.registers[Register::from_u16(r1).index()];
        let value = if imm_flag == 1 {
            a.wrapping_add(imm5_field(instr))
        } else {
            let r2 = sr2_field(instr);
            a.wrapping_add(self.registers[Register::from_u16(r2).index()])
        };
        let dst = Register::from_u16(r0);
        self.registers[dst.index()] = value;
        self.update_flags(dst);
    }

    fn op_and(&mut self, instr: u16)
        requires
            old(self)@.wf(),
        ensures
            final(self)@ == spec_op_and(old(self)@, instr),
            final(self)@.wf(),
    {
        let r0 = dr_field(instr);
        let r1 = sr1_field(instr);
        let imm_flag = imm_flag_field(instr);
        let a = self.registers[Register::from_u16(r1).index()];
        let value = if imm_flag == 1 {
            a & imm5_field(instr)
        } else {
            let r2 = sr2_field(instr);
            a & self.registers[Register::from_u16(r2).index()]
        };
        let dst = Register::from_u16(r0);
        self.registers[dst.index()] = value;
        // AND leaves the condition flags alone; see `spec_op_and`.
    }

    fn op_br(&mut self, instr: u16)
        requires
            old(self)@.wf(),
        ensures
            final(self)@ == spec_op_br(old(self)@, instr),
            final(self)@.wf(),
    {
        let cond_flag = dr_field(instr);
        let cond = self.registers[Register::COND.index()];
        if cond_flag & cond != 0 {
            let pc = self.registers[Register::PC.index()];
            let pci = Register::PC.index();
            self.registers[pci] = pc.wrapping_add(off9_field(instr));
        }
    }

    fn op_jmp(&mut self, instr: u16)
        requires
            old(self)@.wf(),
        ensures
            final(self)@ == spec_op_jmp(old(self)@, instr),
            final(self)@.wf(),
    {
        let r0 = sr1_field(instr);
        let value = self.registers[Register::from_u16(r0).index()];
        let pci = Register::PC.index();
        self.registers[pci] = value;
    }

    fn op_jsr(&mut self, instr: u16)
        requires
            old(self)@.wf(),
        ensures
            final(self)@ == spec_op_jsr(old(self)@, instr),
            final(self)@.wf(),
    {
        let pc = self.registers[Register::PC.index()];
        let r7i = Register::R7.index();
        self.registers[r7i] = pc;
        let pci = Register::PC.index();
        if long_flag_field(instr) == 0 {
            let base_r = sr1_field(instr);
            let target = self.registers[Register::from_u16(base_r).index()];
            self.registers[pci] = target;
        } else {
            self.registers[pci] = pc.wrapping_add(off11_field(instr));
        }
    }

    fn op_lea(&mut self, instr: u16)
        requires
            old(self)@.wf(),
        ensures
            final(self)@ == spec_op_lea(old(self)@, instr),
            final(self)@.wf(),
    {
        let dr = dr_field(instr);
        let pc = self.registers[Register::PC.index()];
        let dst = Register::from_u16(dr);
        self.registers[dst.index()] = pc.wrapping_add(off9_field(instr));
        self.update_flags(dst);
    }

    fn op_not(&mut self, instr: u16)
        requires
            old(self)@.wf(),
        ensures
            final(self)@ == spec_op_not(old(self)@, instr),
            final(self)@.wf(),
    {
        let dr = dr_field(instr);
        let sr = sr1_field(instr);
        let value = !self.registers[Register::from_u16(sr).index()];
        let dst = Register::from_u16(dr);
        self.registers[dst.index()] = value;
        self.update_flags(dst);
    }

    fn op_st(&mut self, instr: u16)
        requires
            old(self)@.wf(),
        ensures
            final(self)@ == spec_op_st(old(self)@, instr),
            final(self)@.wf(),
    {
        let sr = self.registers[Register::from_u16(dr_field(instr)).index()];
        let pc = self.registers[Register::PC.index()];
        self.mem_write(pc.wrapping_add(off9_field(instr)), sr);
    }

    fn op_str(&mut self, instr: u16)
        requires
            old(self)@.wf(),
        ensures
            final(self)@ == spec_op_str(old(self)@, instr),
            final(self)@.wf(),
    {
        let sr = dr_field(instr);
        let base_r = sr1_field(instr);
        let offset = off6_field(instr);
        let base_r_contents = self.registers[Register::from_u16(base_r).index()];
        let data_to_write = self.registers[Register::from_u16(sr).index()];
        self.mem_write(base_r_contents.wrapping_add(offset), data_to_write);
    }

    fn op_ld(&mut self, avail: &mut Option<u8>, instr: u16)
        requires
            old(self)@.wf(),
        ensures
            ({
                let r = spec_op_ld(old(self)@, *old(avail), instr);
                final(self)@ == r.0 && *final(avail) == r.1
            }),
            final(self)@.wf(),
    {
        let dr = dr_field(instr);
        let pc = self.registers[Register::PC.index()];
        let value = self.mem_read(avail, pc.wrapping_add(off9_field(instr)));
        let dst = Register::from_u16(dr);
        self.registers[dst.index()] = value;
        self.update_flags(dst);
    }

    fn op_ldi(&mut self, avail: &mut Option<u8>, instr: u16)
        requires
            old(self)@.wf(),
        ensures
            ({
                let r = spec_op_ldi(old(self)@, *old(avail), instr);
                final(self)@ == r.0 && *final(avail) == r.1
            }),
            final(self)@.wf(),
    {
        let r0 = dr_field(instr);
        let pc = self.registers[Register::PC.index()];
        // add the offset to PC, and look at that memory location to get the
        // final address
        let indirect = self.mem_read(avail, pc.wrapping_add(off9_field(instr)));
        let value = self.mem_read(avail, indirect);
        let dst = Register::from_u16(r0);
        self.registers[dst.index()] = value;
        self.update_flags(dst);
    }

    fn op_ldr(&mut self, avail: &mut Option<u8>, instr: u16)
        requires
            old(self)@.wf(),
        ensures
            ({
                let r = spec_op_ldr(old(self)@, *old(avail), instr);
                final(self)@ == r.0 && *final(avail) == r.1
            }),
            final(self)@.wf(),
    {
        let dr = dr_field(instr);
        let base_r = self.registers[Register::from_u16(sr1_field(instr)).index()];
        let offset = off6_narrow_field(instr);
        let value = self.mem_read(avail, base_r.wrapping_add(offset));
        let dst = Register::from_u16(dr);
        self.registers[dst.index()] = value;
        self.update_flags(dst);
    }

    fn op_sti(&mut self, avail: &mut Option<u8>, instr: u16)
        requires
            old(self)@.wf(),
        ensures
            ({
                let r = spec_op_sti(old(self)@, *old(avail), instr);
                final(self)@ == r.0 && *final(avail) == r.1
            }),
            final(self)@.wf(),
    {
        let sr = dr_field(instr);
        let pc = self.registers[Register::PC.index()];
        let target = self.mem_read(avail, pc.wrapping_add(off9_field(instr)));
        let value = self.registers[Register::from_u16(sr).index()];
        self.mem_write(target, value);
    }

    fn op_rti(&mut self, avail: &mut Option<u8>, instr: u16)
        requires
            old(self)@.wf(),
        ensures
            ({
                let r = spec_op_rti(old(self)@, *old(avail), instr);
                final(self)@ == r.0 && *final(avail) == r.1
            }),
            final(self)@.wf(),
    {
        if (self.registers[Register::PSR.index()] >> 15u16) & 1 == 0 {
            // R6 is the supervisor stack pointer
            let r6 = self.registers[Register::R6.index()];
            let pc_value = self.mem_read(avail, r6);
            let pci = Register::PC.index();
            self.registers[pci] = pc_value;
            let r6i = Register::R6.index();
            self.registers[r6i] = r6.wrapping_add(1);
            let temp = self.mem_read(avail, r6.wrapping_add(1));
            self.registers[r6i] = r6.wrapping_add(1).wrapping_add(1);
            let psri = Register::PSR.index();
            self.registers[psri] = temp;
            // the privilege mode and condition codes of the interrupted
            // process are restored
            proof {
                let r = spec_op_rti(old(self)@, *old(avail), instr);
                assert(self@.regs =~= r.0.regs);
            }
        } else {
            // a privilege-mode exception would start here; the machine leaves
            // this branch as a no-op, explicitly
        }
    }
}

// ----------------------------------------------------------------------------
// The trap handlers
// ----------------------------------------------------------------------------

impl VirtualMachine {
    fn trap_getc(&mut self, avail: &mut Option<u8>) -> (need: bool)
        requires
            old(self)@.wf(),
        ensures
            !need ==> *old(avail) is Some && final(self)@ == (VmView {
                regs: old(self)@.regs.update(Register::R0.idx(), (old(avail)->0) as u16),
                ..old(self)@
            }) && *final(avail) is None,
            need ==> *old(avail) is None && final(self)@ == old(self)@ && *final(avail) == *old(
                avail,
            ),
            final(self)@.wf(),
    {
        match *avail {
            Some(b) => {
                let r0i = Register::R0.index();
                self.registers[r0i] = b as u16;
                *avail = None;
                false
            }
            None => true,
        }
    }

    fn trap_out(&self, output: &mut Vec<u8>)
        requires
            self@.wf(),
        ensures
            final(output)@ == old(output)@ + seq![(self@.regs[Register::R0.idx()] & 0xFF) as u8],
    {
        let r0_contents = self.registers[Register::R0.index()];
        let bottom_half = (r0_contents & 0xFF) as u8;
        output.push(bottom_half);
        proof {
            assert(final(output)@ =~= old(output)@ + seq![
                (self@.regs[Register::R0.idx()] & 0xFF) as u8,
            ]);
        }
    }

    fn trap_puts(&self, output: &mut Vec<u8>)
        requires
            self@.wf(),
        ensures
            final(output)@ == old(output)@ + spec_puts_output(
                self@.mem,
                self@.regs[Register::R0.idx()] as int,
            ),
    {
        let r0_contents = self.registers[Register::R0.index()];
        let ghost out0 = output@;
        let mut i: usize = r0_contents as usize;
        loop
            invariant_except_break
                self@.wf(),
                r0_contents as int <= i as int <= 0x10000,
                out0 + spec_puts_output(self@.mem, r0_contents as int) == output@
                    + spec_puts_output(self@.mem, i as int),
            ensures
                output@ == out0 + spec_puts_output(self@.mem, r0_contents as int),
            decreases 0x10000 - i,
        {
            if i >= ADDRESS_SPACE {
                proof {
                    assert(output@ + spec_puts_output(self@.mem, i as int) =~= output@);
                }
                break;
            }
            let word = self.memory[i];
            if word == 0 {
                proof {
                    assert(output@ + spec_puts_output(self@.mem, i as int) =~= output@);
                }
                break;
            }
            proof {
                assert(word & 0xFF < 256) by (bit_vector);
            }
            output.push((word & 0xFF) as u8);
            proof {
                assert(spec_puts_output(self@.mem, i as int) == seq![
                    (self@.mem[i as int] & 0xFF) as u8,
                ] + spec_puts_output(self@.mem, i + 1));
                assert(out0 + spec_puts_output(self@.mem, r0_contents as int) =~= output@
                    + spec_puts_output(self@.mem, i + 1));
            }
            i = i + 1;
        }
    }

    fn trap_in(&mut self, avail: &mut Option<u8>, output: &mut Vec<u8>) -> (need: bool)
        requires
            old(self)@.wf(),
        ensures
            !need ==> *old(avail) is Some && final(self)@ == (VmView {
                regs: old(self)@.regs.update(Register::R0.idx(), (old(avail)->0) as u16),
                ..old(self)@
            }) && *final(avail) is None && final(output)@ == old(output)@ + seq![
                73u8,
                78u8,
                58u8,
                32u8,
            ],
            need ==> *old(avail) is None && final(self)@ == old(self)@ && *final(avail) == *old(
                avail,
            ) && final(output)@ == old(output)@,
            final(self)@.wf(),
    {
        match *avail {
            Some(b) => {
                // the prompt "IN: "
                output.push(73);
                output.push(78);
                output.push(58);
                output.push(32);
                let r0i = Register::R0.index();
                self.registers[r0i] = b as u16;
                *avail = None;
                proof {
                    assert(final(output)@ =~= old(output)@ + seq![73u8, 78u8, 58u8, 32u8]);
                }
                false
            }
            None => true,
        }
    }

    fn trap_putsp(&self, output: &mut Vec<u8>)
        requires
            self@.wf(),
        ensures
            final(output)@ == old(output)@ + spec_putsp_output(
                self@.mem,
                self@.regs[Register::R0.idx()] as int,
            ),
    {
        let r0_contents = self.registers[Register::R0.index()];
        let ghost out0 = output@;
        let mut i: usize = r0_contents as usize;
        loop
            invariant_except_break
                self@.wf(),
                r0_contents as int <= i as int <= 0x10000,
                out0 + spec_putsp_output(self@.mem, r0_contents as int) == output@
                    + spec_putsp_output(self@.mem, i as int),
            ensures
                output@ == out0 + spec_putsp_output(self@.mem, r0_contents as int),
            decreases 0x10000 - i,
        {
            if i >= ADDRESS_SPACE {
                proof {
                    assert(output@ + spec_putsp_output(self@.mem, i as int) =~= output@);
                }
                break;
            }
            let word = self.memory[i];
            proof {
                assert(word & 0xFF < 256) by (bit_vector);
                assert(word >> 8u16 < 256) by (bit_vector);
            }
            let first_char = (word & 0xFF) as u8;
            if first_char == 0 {
                proof {
                    assert(output@ + spec_putsp_output(self@.mem, i as int) =~= output@);
                }
                break;
            }
            output.push(first_char);
            let second_char = (word >> 8u16) as u8;
            if second_char == 0 {
                proof {
                    assert(spec_putsp_output(self@.mem, i as int) =~= seq![first_char]);
                    assert(output@ =~= out0 + spec_putsp_output(
                        self@.mem,
                        r0_contents as int,
                    ));
                }
                break;
            }
            output.push(second_char);
            proof {
                assert(spec_putsp_output(self@.mem, i as int) == seq![first_char, second_char]
                    + spec_putsp_output(self@.mem, i + 1));
                assert(out0 + spec_putsp_output(self@.mem, r0_contents as int) =~= output@
                    + spec_putsp_output(self@.mem, i + 1));
            }
            i = i + 1;
        }
    }

    /// Absorbs an unrecognized opcode or trap vector: the cycle is a no-op
    /// and the event is counted, so the run keeps going (fail-soft).
    fn bad_opcode(&mut self)
        requires
            old(self)@.wf(),
        ensures
            final(self)@ == spec_bad_opcode(old(self)@),
            final(self)@.wf(),
    {
        if self.bad_opcodes < u64::MAX {
            self.bad_opcodes = self.bad_opcodes + 1;
        }
    }

    fn trap_halt(&mut self)
        requires
            old(self)@.wf(),
        ensures
            final(self)@ == (VmView { running: false, ..old(self)@ }),
            final(self)@.wf(),
    {
        self.running = false;
    }

    /// Dispatches a TRAP instruction. Returns whether the trap needs an input
    /// byte that is not there; the machine, the pending byte and the output
    /// are then untouched.
    fn op_trap(&mut self, avail: &mut Option<u8>, output: &mut Vec<u8>, instr: u16) -> (need: bool)
        requires
            old(self)@.wf(),
        ensures
            ({
                let sb = spec_trap(old(self)@, *old(avail), instr);
                &&& need == sb.need_input
                &&& final(self)@ == sb.v
                &&& *final(avail) == sb.avail
                &&& final(output)@ == old(output)@ + sb.out
            }),
            final(self)@.wf(),
    {
        let trapvect = trapvect_field(instr);
        let need = match TrapCode::from_u16(trapvect) {
            Some(TrapCode::GetC) => self.trap_getc(avail),
            Some(TrapCode::Out) => {
                self.trap_out(output);
                false
            }
            Some(TrapCode::Puts) => {
                self.trap_puts(output);
                false
            }
            Some(TrapCode::In) => self.trap_in(avail, output),
            Some(TrapCode::PutSp) => {
                self.trap_putsp(output);
                false
            }
            Some(TrapCode::Halt) => {
                self.trap_halt();
                false
            }
            None => {
                // an unrecognized trap vector is absorbed; the loop continues
                self.bad_opcode();
                false
            }
        };
        proof {
            assert(final(output)@ =~= old(output)@ + spec_trap(
                old(self)@,
                *old(avail),
                instr,
            ).out);
        }
        need
    }
}


// ----------------------------------------------------------------------------
// The run loop
// ----------------------------------------------------------------------------

/// The machine as `start` leaves it: RUNNING, with PC at the start address.
pub open spec fn spec_started(v: VmView) -> VmView {
    VmView { regs: v.regs.update(Register::PC.idx(), PC_START), running: true, ..v }
}

/// What a call of `run` reports: the machine reached HALT, it needed input
/// beyond the supplied bytes, or it was still running when the step budget
/// ran out.
#[derive(Clone, Copy, PartialEq, Eq, Structural, Debug)]
pub enum RunResult {
    Halted,
    OutOfInput,
    StepLimit,
}

/// The run loop's state after some number of cycles over a fixed queue of
/// input bytes: the machine, how many input bytes were consumed, the output
/// so far, and whether the loop is stuck wanting input past the queue's end.
pub ghost struct RunSnap {
    pub v: VmView,
    pub pos: int,
    pub out: Seq<u8>,
    pub stuck: bool,
}

/// One iteration of the run loop: a halted or stuck snapshot stays as it is;
/// otherwise the machine steps with the next unconsumed input byte pending,
/// and a cycle that wants input past the queue's end makes the loop stuck.
pub open spec fn spec_run_step(s: RunSnap, input: Seq<u8>) -> RunSnap {
    if !s.v.running || s.stuck {
        s
    } else {
        let avail = if 0 <= s.pos < input.len() {
            Some(input[s.pos])
        } else {
            None
        };
        let e = spec_step(s.v, avail);
        if e.outcome == StepOutcome::NeedInput {
            RunSnap { stuck: true, ..s }
        } else {
            RunSnap {
                v: e.v,
                pos: s.pos + if e.outcome == StepOutcome::RanConsumedInput {
                    1int
                } else {
                    0int
                },
                out: s.out + e.out,
                stuck: false,
            }
        }
    }
}

/// The run loop's state after `n` iterations from the machine `v0` with the
/// input queue `input`.
pub open spec fn spec_run_from(v0: VmView, input: Seq<u8>, n: nat) -> RunSnap
    decreases n,
{
    if n == 0 {
        RunSnap { v: v0, pos: 0, out: Seq::empty(), stuck: false }
    } else {
        spec_run_step(spec_run_from(v0, input, (n - 1) as nat), input)
    }
}

impl VirtualMachine {
    /// Puts the machine in the RUNNING state with PC at the start address,
    /// ready to be stepped.
    pub fn start(&mut self)
        requires
            old(self)@.wf(),
        ensures
            final(self)@ == spec_started(old(self)@),
            final(self)@.wf(),
    {
        self.running = true;
        let pci = Register::PC.index();
        self.registers[pci] = PC_START;
    }

    /// One fetch-decode-execute cycle, exactly `spec_step`: fetch the word at
    /// PC with `input` pending, increment PC modulo 65536, dispatch on the
    /// top 4 bits, and execute; an unrecognized opcode is absorbed and the
    /// machine keeps running. Characters the cycle emits are appended to
    /// `output`. When the instruction needs an input byte and none is
    /// pending, nothing at all happens and the caller retries with a byte.
    pub fn step(&mut self, input: Option<u8>, output: &mut Vec<u8>) -> (outcome: StepOutcome)
        requires
            old(self)@.wf(),
        ensures
            ({
                let e = spec_step(old(self)@, input);
                &&& final(self)@ == e.v
                &&& final(output)@ == old(output)@ + e.out
                &&& outcome == e.outcome
            }),
            final(self)@.wf(),
    {
        let ghost pre = self@;
        let mut avail = input;
        let pc = self.registers[Register::PC.index()];
        let instr = self.mem_read(&mut avail, pc);
        let pci = Register::PC.index();
        self.registers[pci] = pc.wrapping_add(1);
        let op = op_field(instr);
        let mut need = false;
        match Opcode::from_u16(op) {
            Some(Opcode::ADD) => self.op_add(instr),
            Some(Opcode::AND) => self.op_and(instr),
            Some(Opcode::BR) => self.op_br(instr),
            Some(Opcode::JMP) => self.op_jmp(instr),
            Some(Opcode::JSR) => self.op_jsr(instr),
            Some(Opcode::LD) => self.op_ld(&mut avail, instr),
            Some(Opcode::LDI) => self.op_ldi(&mut avail, instr),
            Some(Opcode::LDR) => self.op_ldr(&mut avail, instr),
            Some(Opcode::LEA) => self.op_lea(instr),
            Some(Opcode::NOT) => self.op_not(instr),
            Some(Opcode::RTI) => self.op_rti(&mut avail, instr),
            Some(Opcode::ST) => self.op_st(instr),
            Some(Opcode::STI) => self.op_sti(&mut avail, instr),
            Some(Opcode::STR) => self.op_str(instr),
            Some(Opcode::TRAP) => {
                need = self.op_trap(&mut avail, output, instr);
            }
            _ => {
                // the reserved opcode is absorbed; the machine keeps running
                self.bad_opcode();
            }
        }
        proof {
            assert(old(output)@ + Seq::<u8>::empty() =~= old(output)@);
        }
        if need {
            // the trap wants an input byte that is not there: undo the fetch
            // increment so the same instruction is retried once one arrives
            self.registers[pci] = pc;
            proof {
                // the fetched word decodes to TRAP, so the fetch cannot have
                // been a keyboard-status read (those yield 0 or 0x8000), and
                // memory and the pending byte were untouched
                assert(0u16 >> 12u16 == 0) by (bit_vector);
                assert(0x8000u16 >> 12u16 == 8) by (bit_vector);
                assert(self@.regs =~= pre.regs);
            }
            return StepOutcome::NeedInput;
        }
        if input.is_some() && avail.is_none() {
            StepOutcome::RanConsumedInput
        } else {
            StepOutcome::Ran
        }
    }

    /// Sets PC to the start address, sets the machine RUNNING, and executes
    /// cycles until a HALT trap stops it, a cycle needs input beyond the
    /// supplied bytes, or `max_steps` cycles have run. Input bytes are
    /// consumed from `input` in order as the machine asks for them; emitted
    /// characters are appended to `output`. The result is the state after
    /// some number of run-loop iterations within the budget.
    #[verifier::loop_isolation(false)]
    pub fn run(&mut self, input: &[u8], output: &mut Vec<u8>, max_steps: usize) -> (r: RunResult)
        requires
            old(self)@.wf(),
        ensures
            ({
                let v0 = spec_started(old(self)@);
                exists|n: int|
                    {
                        &&& 0 <= n <= max_steps
                        &&& (r == RunResult::StepLimit ==> n == max_steps)
                        &&& final(self)@ == (#[trigger] spec_run_from(v0, input@, n as nat)).v
                        &&& final(output)@ == old(output)@ + spec_run_from(v0, input@, n as nat).out
                        &&& r == (if !spec_run_from(v0, input@, n as nat).v.running {
                            RunResult::Halted
                        } else if spec_run_from(v0, input@, n as nat).stuck {
                            RunResult::OutOfInput
                        } else {
                            RunResult::StepLimit
                        })
                    }
            }),
            r == RunResult::Halted <==> !final(self)@.running,
            final(self)@.wf(),
    {
        self.start();
        let ghost v0 = self@;
        let mut pos: usize = 0;
        let mut steps: usize = 0;
        while steps < max_steps
            invariant
                self@.wf(),
                pos <= input@.len(),
                steps <= max_steps,
                ({
                    let s = spec_run_from(v0, input@, steps as nat);
                    &&& self@ == s.v
                    &&& output@ == old(output)@ + s.out
                    &&& pos == s.pos
                    &&& !s.stuck
                }),
            decreases max_steps - steps,
        {
            if !self.is_running() {
                proof {
                    let v00 = spec_started(old(self)@);
                    let n: int = steps as int;
                    assert(spec_run_from(v00, input@, n as nat) == spec_run_from(
                        v0,
                        input@,
                        steps as nat,
                    ));
                    assert(0 <= n <= max_steps && self@ == spec_run_from(v00, input@, n as nat).v
                        && output@ == old(output)@ + spec_run_from(v00, input@, n as nat).out
                        && !spec_run_from(v00, input@, n as nat).v.running);
                }
                return RunResult::Halted;
            }
            let avail = if pos < input.len() {
                Some(input[pos])
            } else {
                None
            };
            let outcome = self.step(avail, output);
            match outcome {
                StepOutcome::NeedInput => {
                    proof {
                        let s = spec_run_from(v0, input@, steps as nat);
                        let s2 = spec_run_from(v0, input@, (steps + 1) as nat);
                        assert(s2 == spec_run_step(s, input@));
                        assert(s2.stuck && s2.v == s.v && s2.out == s.out);
                    }
                    return RunResult::OutOfInput;
                }
                StepOutcome::RanConsumedInput => {
                    pos = pos + 1;
                }
                StepOutcome::Ran => {}
            }
            steps = steps + 1;
            proof {
                let s = spec_run_from(v0, input@, (steps - 1) as nat);
                let s2 = spec_run_from(v0, input@, steps as nat);
                assert(s2 == spec_run_step(s, input@));
                assert(output@ =~= old(output)@ + s2.out);
            }
        }
        if !self.is_running() {
            proof {
                let v00 = spec_started(old(self)@);
                let n: int = steps as int;
                assert(spec_run_from(v00, input@, n as nat) == spec_run_from(
                    v0,
                    input@,
                    steps as nat,
                ));
                assert(0 <= n <= max_steps && self@ == spec_run_from(v00, input@, n as nat).v
                    && output@ == old(output)@ + spec_run_from(v00, input@, n as nat).out
                    && !spec_run_from(v00, input@, n as nat).v.running);
            }
            return RunResult::Halted;
        }
        proof {
            let v00 = spec_started(old(self)@);
            let n: int = steps as int;
            assert(spec_run_from(v00, input@, n as nat) == spec_run_from(
                v0,
                input@,
                steps as nat,
            ));
            assert(0 <= n <= max_steps && self@ == spec_run_from(v00, input@, n as nat).v
                && output@ == old(output)@ + spec_run_from(v00, input@, n as nat).out
                && spec_run_from(v00, input@, n as nat).v.running
                && !spec_run_from(v00, input@, n as nat).stuck);
        }
        RunResult::StepLimit
    }
}


// ----------------------------------------------------------------------------
// Region disassembly
// ----------------------------------------------------------------------------

/// The listing line of the word at address `a`: the address as four hex
/// digits, the word as sixteen binary digits, and its mnemonic text (or the
/// marker for an undecodable word), separated by bars.
pub open spec fn spec_region_line(mem: Seq<u16>, a: int) -> Seq<char> {
    crate::text::spec_hex4(a as u16) + " | "@ + crate::text::spec_bin16(mem[a]) + " | "@ + (match
        crate::disasm::spec_disassemble(mem[a]) {
        Some(t) => t,
        None => "BAD OPCODE"@,
    }) + "\n"@
}

/// The `count` listing lines of the addresses from `start` on, in order.
pub open spec fn spec_region_lines(mem: Seq<u16>, start: int, count: int) -> Seq<char>
    decreases count,
{
    if count <= 0 {
        Seq::empty()
    } else {
        spec_region_lines(mem, start, count - 1) + spec_region_line(mem, start + count - 1)
    }
}

impl VirtualMachine {
    /// Renders the `length + 1` memory words from `start` on (the bounds are
    /// inclusive) as an assembly listing: with `print_address`, one line per
    /// word with its address, its bits and its mnemonic; without, the plain
    /// program listing of the window.
    pub fn disassemble_region(&self, start: usize, length: usize, print_address: bool) -> (r:
        String)
        requires
            self@.wf(),
            start + length < 0x10000,
        ensures
            print_address ==> r@ == spec_region_lines(self@.mem, start as int, length + 1),
            !print_address ==> r@ == crate::disasm::spec_program_text(
                self@.mem.subrange(start as int, start + length + 1),
            ),
    {
        if print_address {
            let mut out = String::new();
            let mut i: usize = 0;
            while i <= length
                invariant
                    i <= length + 1,
                    start + length < 0x10000,
                    self@.wf(),
                    out@ == spec_region_lines(self@.mem, start as int, i as int),
                decreases length + 1 - i,
            {
                let a = start + i;
                out.append(crate::text::hex4_string(a as u16).as_str());
                out.append(" | ");
                let word = self.memory[a];
                out.append(crate::text::bin16_string(word).as_str());
                out.append(" | ");
                match crate::disasm::disassemble_instruction(word) {
                    Some(t) => out.append(t.as_str()),
                    None => out.append("BAD OPCODE"),
                }
                out.append("\n");
                i = i + 1;
                proof {
                    assert(out@ =~= spec_region_lines(self@.mem, start as int, i as int));
                }
            }
            out
        } else {
            let ghost window = self@.mem.subrange(start as int, start + length + 1);
            let mut out = String::new();
            let mut i: usize = 0;
            while i <= length
                invariant
                    i <= length + 1,
                    start + length < 0x10000,
                    self@.wf(),
                    window == self@.mem.subrange(start as int, start + length + 1),
                    out@ == crate::disasm::spec_program_text(window.take(i as int)),
                decreases length + 1 - i,
            {
                let word = self.memory[start + i];
                match crate::disasm::disassemble_instruction(word) {
                    Some(t) => out.append(t.as_str()),
                    None => out.append("BAD OPCODE"),
                }
                out.append("\n");
                i = i + 1;
                proof {
                    assert(window.take(i as int).drop_last() =~= window.take(i - 1));
                    assert(window.take(i as int).last() == self@.mem[start + i - 1]);
                }
            }
            proof {
                assert(window.take((length + 1) as int) =~= window);
            }
            out
        }
    }
}

// ----------------------------------------------------------------------------
// Laws
// ----------------------------------------------------------------------------

/// A memory-mapped keyboard read: with no input pending, reading the
/// keyboard-status address yields 0; with a byte pending, it yields a word
/// with bit 15 set and leaves the keyboard-data word holding the byte,
/// zero-extended.
pub proof fn lemma_keyboard_status_read(mem: Seq<u16>, avail: Option<u8>)
    requires
        mem.len() >= 0x10000,
    ensures
        avail is None ==> ({
            let e = spec_mem_read(mem, avail, 0xFE00);
            &&& e.val == 0
            &&& e.mem[0xFE00] == 0
            &&& forall|a: int| 0 <= a < mem.len() && a != 0xFE00 ==> e.mem[a] == mem[a]
        }),
        avail is Some ==> ({
            let e = spec_mem_read(mem, avail, 0xFE00);
            &&& e.val == 0x8000
            &&& crate::bits::bit16(e.val, 15) == 1
            &&& e.mem[0xFE00] == 0x8000
            &&& e.mem[0xFE02] == (avail->0) as u16
            &&& forall|a: int|
                0 <= a < mem.len() && a != 0xFE00 && a != 0xFE02 ==> e.mem[a] == mem[a]
        }),
{
    assert(crate::bits::bit16(0x8000u16, 15) == 1) by (bit_vector);
}

/// ADD in immediate mode wraps modulo 65536: a register holding 0xFFFF plus
/// immediate 1 yields 0x0000 in the destination and sets the ZERO flag.
pub proof fn lemma_add_immediate_wraps(v: VmView, w: u16)
    requires
        v.wf(),
        spec_op(w) == Opcode::ADD.spec_code(),
        spec_imm_flag(w) == 1,
        spec_imm5(w) == 1,
        v.regs[spec_sr1(w) as int] == 0xFFFF,
    ensures
        spec_op_add(v, w).regs[spec_dr(w) as int] == 0,
        spec_op_add(v, w).regs[Register::COND.idx()] == ConditionFlags::ZRO.spec_bits(),
{
    assert((w >> 9) & 0x7 < 8) by (bit_vector);
}

/// PUTS halts at the first zero word: when the `k` words from `start` on are
/// non-zero and the word at `start + k` is zero, the emitted characters are
/// exactly the low bytes of those `k` words — whatever non-zero words may
/// follow the zero word in memory.
pub proof fn lemma_puts_stops_at_first_zero(mem: Seq<u16>, start: int, k: int)
    requires
        0 <= start,
        0 <= k,
        start + k < 0x10000,
        forall|j: int| start <= j < start + k ==> mem[j] != 0,
        mem[start + k] == 0,
    ensures
        spec_puts_output(mem, start) == Seq::new(
            k as nat,
            |j: int| (mem[start + j] & 0xFF) as u8,
        ),
    decreases k,
{
    if k == 0 {
        assert(spec_puts_output(mem, start) =~= Seq::new(
            0,
            |j: int| (mem[start + j] & 0xFF) as u8,
        ));
    } else {
        lemma_puts_stops_at_first_zero(mem, start + 1, k - 1);
        assert(spec_puts_output(mem, start) =~= Seq::new(
            k as nat,
            |j: int| (mem[start + j] & 0xFF) as u8,
        ));
    }
}

/// An instruction word that only writes general-purpose registers and the
/// condition flags: ADD, AND, NOT or LEA. Executing one advances PC by
/// exactly one and touches neither memory, the running flag, nor the input.
pub open spec fn is_straight_line(w: u16) -> bool {
    ||| spec_op(w) == Opcode::ADD.spec_code()
    ||| spec_op(w) == Opcode::AND.spec_code()
    ||| spec_op(w) == Opcode::NOT.spec_code()
    ||| spec_op(w) == Opcode::LEA.spec_code()
}

/// One cycle over a straight-line instruction: the machine keeps running,
/// memory is untouched, nothing is emitted, and PC moves one ahead.
proof fn lemma_straight_line_step(v: VmView)
    requires
        v.wf(),
        v.running,
        v.regs[Register::PC.idx()] < 0xFE00,
        is_straight_line(v.mem[v.regs[Register::PC.idx()] as int]),
    ensures
        ({
            let e = spec_step(v, None);
            &&& e.outcome == StepOutcome::Ran
            &&& e.out == Seq::<u8>::empty()
            &&& e.v.mem == v.mem
            &&& e.v.running
            &&& e.v.wf()
            &&& e.v.regs[Register::PC.idx()] == v.regs[Register::PC.idx()] + 1
        }),
{
    let pc = v.regs[Register::PC.idx()];
    let w = v.mem[pc as int];
    assert((w >> 9) & 0x7 < 8) by (bit_vector);
}

/// The first `k` cycles of a straight-line program leave the machine running
/// with PC at `0x3000 + k`, memory untouched and nothing emitted: each
/// cycle is absorbed and the loop continues.
pub proof fn lemma_straight_line_prefix(v0: VmView, n: nat, k: nat)
    requires
        v0.wf(),
        v0.running,
        v0.regs[Register::PC.idx()] == 0x3000,
        0x3000 + n < 0xFE00,
        forall|i: int| 0 <= i < n ==> is_straight_line(#[trigger] v0.mem[0x3000 + i]),
        k <= n,
    ensures
        ({
            let s = spec_run_from(v0, Seq::empty(), k);
            &&& s.v.wf()
            &&& s.v.running
            &&& !s.stuck
            &&& s.pos == 0
            &&& s.out == Seq::<u8>::empty()
            &&& s.v.mem == v0.mem
            &&& s.v.regs[Register::PC.idx()] == 0x3000 + k
        }),
    decreases k,
{
    if k > 0 {
        lemma_straight_line_prefix(v0, n, (k - 1) as nat);
        let s = spec_run_from(v0, Seq::empty(), (k - 1) as nat);
        lemma_straight_line_step(s.v);
        let e = spec_step(s.v, None);
        assert(s.out + e.out =~= Seq::<u8>::empty());
    }
}

/// Round trip of a loaded program: with `n` straight-line words at the start
/// address followed by a HALT trap, a run from a fresh start terminates in
/// exactly `n + 1` cycles — the machine has halted, consumed no input,
/// emitted nothing, left memory untouched, and PC rests at `0x3000 + n + 1`.
pub proof fn lemma_straight_line_program_halts(v0: VmView, n: nat)
    requires
        v0.wf(),
        v0.running,
        v0.regs[Register::PC.idx()] == 0x3000,
        0x3000 + n < 0xFE00,
        forall|i: int| 0 <= i < n ==> is_straight_line(#[trigger] v0.mem[0x3000 + i]),
        v0.mem[0x3000 + n as int] == 0xF025,
    ensures
        ({
            let s = spec_run_from(v0, Seq::empty(), n + 1);
            &&& !s.v.running
            &&& !s.stuck
            &&& s.out == Seq::<u8>::empty()
            &&& s.v.mem == v0.mem
            &&& s.v.regs[Register::PC.idx()] == 0x3000 + n + 1
        }),
{
    lemma_straight_line_prefix(v0, n, n);
    let s = spec_run_from(v0, Seq::empty(), n);
    assert(0xF025u16 >> 12u16 == 15) by (bit_vector);
    assert(0xF025u16 & 0xFF == 0x25) by (bit_vector);
    let e = spec_step(s.v, None);
    assert(s.out + e.out =~= Seq::<u8>::empty());
}

/// Once the run loop has halted or got stuck, its state is final: every
/// later iteration leaves it exactly as it is.
pub proof fn lemma_run_stutters(v0: VmView, input: Seq<u8>, n: nat, m: nat)
    requires
        n <= m,
        !spec_run_from(v0, input, n).v.running || spec_run_from(v0, input, n).stuck,
    ensures
        spec_run_from(v0, input, m) == spec_run_from(v0, input, n),
    decreases m - n,
{
    if m > n {
        lemma_run_stutters(v0, input, n, (m - 1) as nat);
    }
}

/// The round trip at the level of `run`'s contract: on a straight-line
/// program of `n` words followed by a HALT trap, every run-loop state from
/// `n + 1` cycles on is the halted one — so a `run` whose budget covers
/// `n + 1` cycles cannot report `StepLimit` (that would pin the witness to
/// the exhausted budget, whose state has halted) and returns `Halted`, with
/// PC at `0x3000 + n + 1`, nothing emitted and memory untouched.
pub proof fn lemma_run_halts_on_straight_line(v0: VmView, n: nat, m: nat)
    requires
        v0.wf(),
        v0.running,
        v0.regs[Register::PC.idx()] == 0x3000,
        0x3000 + n < 0xFE00,
        forall|i: int| 0 <= i < n ==> is_straight_line(#[trigger] v0.mem[0x3000 + i]),
        v0.mem[0x3000 + n as int] == 0xF025,
        n + 1 <= m,
    ensures
        ({
            let s = spec_run_from(v0, Seq::empty(), m);
            &&& !s.v.running
            &&& !s.stuck
            &&& s.out == Seq::<u8>::empty()
            &&& s.v.mem == v0.mem
            &&& s.v.regs[Register::PC.idx()] == 0x3000 + n + 1
        }),
{
    lemma_straight_line_program_halts(v0, n);
    lemma_run_stutters(v0, Seq::empty(), n + 1, m);
}


} // verus!
