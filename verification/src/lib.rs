//! An emulator for the Triangle Abstract Machine (TAM), the stack machine
//! targeted by the Triangle compiler.
//!
//! The machine owns a code store of 32-bit instruction words, a data store of
//! 16-bit signed words holding stack and heap, and a file of 16 unsigned
//! 16-bit registers. A driver loads a program with [`TamEmulator::set_program`]
//! and then repeatedly calls [`TamEmulator::fetch_decode`] and
//! [`TamEmulator::execute`] until a `HALT` instruction or a fault.
//!
//! Every operation is specified against the abstract machine state in
//! [`model`]: each method's contract says exactly which [`model::VmView`]
//! it leaves behind and which outcome it returns, faults included.

pub mod errors;
pub mod execute;
pub mod model;
pub mod trace;

use vstd::prelude::*;

use crate::errors::{TamError, TamResult};
use crate::model::{be_word, fetch_s, pop_s, push_s, set_program_s, step_s, VmView};

verus! {

/// Number of words in each of the two stores.
pub const MEMORY_SIZE: usize = 65536;

/// The highest address in either store.
pub const MEMORY_MAX: usize = 65535;

/// Register index: code base, always 0.
pub const CB: usize = 0;

/// Register index: code top, the number of valid instructions.
pub const CT: usize = 1;

/// Register index: primitive base.
pub const PB: usize = 2;

/// Register index: primitive top.
pub const PT: usize = 3;

/// Register index: stack base, always 0.
pub const SB: usize = 4;

/// Register index: stack top, the first free slot.
pub const ST: usize = 5;

/// Register index: heap base, the high end of memory.
pub const HB: usize = 6;

/// Register index: heap top; the heap grows downward from `HB`.
pub const HT: usize = 7;

/// Register index: local base of the current frame.
pub const LB: usize = 8;

/// Register index: code pointer.
pub const CP: usize = 15;

/// A single TAM instruction, unpacked into its four fields.
#[derive(Copy, Clone, Debug, PartialEq, Eq, Structural)]
pub struct TamInstruction {
    /// Opcode, from bits 31-28 of the instruction word.
    pub op: u8,
    /// Register selector, from bits 27-24.
    pub r: u8,
    /// Unsigned operand, from bits 23-16.
    pub n: u8,
    /// Signed operand/offset, from bits 15-0.
    pub d: i16,
}

/// The instruction a 32-bit word unpacks to.
pub open spec fn spec_decode(w: u32) -> TamInstruction {
    TamInstruction {
        op: ((w & 0xf0000000) >> 28) as u8,
        r: ((w & 0x0f000000) >> 24) as u8,
        n: ((w & 0x00ff0000) >> 16) as u8,
        d: (w & 0x0000ffff) as i16,
    }
}

/// The 32-bit word an instruction packs to; masks enforce the field widths.
pub open spec fn spec_encode(i: TamInstruction) -> u32 {
    (((i.op & 0xf) as u32) << 28) | (((i.r & 0xf) as u32) << 24) | ((i.n as u32) << 16) | (
    (i.d as u16) as u32)
}

impl From<u32> for TamInstruction {
    /// Unpacks an instruction word by the machine's bit layout.
    fn from(value: u32) -> (instr: Self) {
        let op = (value & 0xf0000000) >> 28;
        let r = (value & 0x0f000000) >> 24;
        let n = (value & 0x00ff0000) >> 16;
        let d = value & 0x0000ffff;
        TamInstruction {
            op: #[verifier::truncate] (op as u8),
            r: #[verifier::truncate] (r as u8),
            n: #[verifier::truncate] (n as u8),
            d: #[verifier::truncate] (d as i16),
        }
    }
}

impl vstd::std_specs::convert::FromSpecImpl<u32> for TamInstruction {
    open spec fn obeys_from_spec() -> bool {
        true
    }

    open spec fn from_spec(v: u32) -> TamInstruction {
        spec_decode(v)
    }
}

impl TamInstruction {
    /// Decoded instructions have 4-bit opcode and register fields.
    pub open spec fn fields_in_range(self) -> bool {
        self.op < 16 && self.r < 16
    }

    /// Every operand the instruction uses as a register index names one of
    /// the 16 registers: the selector `r` for the families that address
    /// memory through `calc`, and `n` for `CALL`, whose `n` picks the
    /// static-link register. Unpacking always puts `r` in range; `n` of a
    /// `CALL` is the program's responsibility.
    pub open spec fn operands_in_range(self) -> bool {
        &&& (self.op == 0 || self.op == 1 || self.op == 4 || self.op == 6 || self.op == 12
            || self.op == 14) ==> self.r < 16
        &&& self.op == 6 ==> self.n < 16
    }

    /// Packs the instruction back into a 32-bit word.
    pub fn encode(&self) -> (w: u32)
        ensures
            w == spec_encode(*self),
    {
        (((self.op & 0xf) as u32) << 28) | (((self.r & 0xf) as u32) << 24) | ((self.n as u32) << 16)
            | ((self.d as u16) as u32)
    }
}

/// Unpacking a packed instruction gives back the instruction, for any
/// instruction whose opcode and register fields fit their 4-bit layout --
/// in particular for anything `spec_decode` produced.
pub proof fn lemma_encode_decode_roundtrip(i: TamInstruction)
    requires
        i.fields_in_range(),
    ensures
        spec_decode(spec_encode(i)) == i,
{
    let op = i.op;
    let r = i.r;
    let n = i.n;
    let d = i.d;
    let w = spec_encode(i);
    assert(((w & 0xf0000000) >> 28) as u8 == op) by (bit_vector)
        requires
            w == (((op & 0xf) as u32) << 28) | (((r & 0xf) as u32) << 24) | ((n as u32) << 16) | (
            (d as u16) as u32),
            op < 16,
    ;
    assert(((w & 0x0f000000) >> 24) as u8 == r) by (bit_vector)
        requires
            w == (((op & 0xf) as u32) << 28) | (((r & 0xf) as u32) << 24) | ((n as u32) << 16) | (
            (d as u16) as u32),
            r < 16,
    ;
    assert(((w & 0x00ff0000) >> 16) as u8 == n) by (bit_vector)
        requires
            w == (((op & 0xf) as u32) << 28) | (((r & 0xf) as u32) << 24) | ((n as u32) << 16) | (
            (d as u16) as u32),
    ;
    assert((w & 0x0000ffff) as i16 == d) by (bit_vector)
        requires
            w == (((op & 0xf) as u32) << 28) | (((r & 0xf) as u32) << 24) | ((n as u32) << 16) | (
            (d as u16) as u32),
    ;
}

/// Every unpacked word has its opcode and register fields in range.
pub proof fn lemma_decode_fields_in_range(w: u32)
    ensures
        spec_decode(w).fields_in_range(),
        spec_decode(w).op < 16,
        spec_decode(w).r < 16,
{
    assert((((w & 0xf0000000) >> 28) as u8) < 16) by (bit_vector);
    assert((((w & 0x0f000000) >> 24) as u8) < 16) by (bit_vector);
}

/// The TAM machine: both stores, the register file, and the trace switch.
#[derive(Debug)]
pub struct TamEmulator {
    /// The code store; always `MEMORY_SIZE` words long.
    pub code_store: Vec<u32>,
    /// The data store; always `MEMORY_SIZE` words long.
    pub data_store: Vec<i16>,
    /// The register file; always 16 registers long.
    pub registers: Vec<u16>,
    /// Whether the driver asked for a trace of executed instructions.
    pub trace: bool,
}

impl View for TamEmulator {
    type V = VmView;

    open spec fn view(&self) -> VmView {
        VmView { code: self.code_store@, data: self.data_store@, regs: self.registers@ }
    }
}

impl TamEmulator {
    /// The stores have their fixed sizes.
    pub open spec fn wf(&self) -> bool {
        self@.wf()
    }

    /// Constructs a TAM emulator with zeroed memory and default registers.
    pub fn new(trace: bool) -> (emu: TamEmulator)
        ensures
            emu@ == VmView::init(),
            emu.wf(),
            emu.trace == trace,
    {
        let mut emu = TamEmulator {
            code_store: vec![0u32; MEMORY_SIZE],
            data_store: vec![0i16; MEMORY_SIZE],
            registers: vec![0u16; 16],
            trace,
        };

        emu.registers[HB] = 0xffff;
        emu.registers[HT] = 0xffff;
        proof {
            assert(emu@.code =~= VmView::init().code);
            assert(emu@.data =~= VmView::init().data);
            assert(emu@.regs =~= VmView::init().regs);
        }
        emu
    }

    /// Gets the next instruction to be executed and increments `CP`.
    pub fn fetch_decode(&mut self) -> (res: TamResult<TamInstruction>)
        requires
            old(self).wf(),
        ensures
            final(self)@ == fetch_s(old(self)@).0,
            res == fetch_s(old(self)@).1,
            final(self).wf(),
            final(self).trace == old(self).trace,
    {
        let addr = self.registers[CP];
        if addr >= self.registers[CT] {
            return Err(TamError::CodeAccessViolation);
        }
        self.registers[CP] = addr + 1;
        let code = self.code_store[addr as usize];
        Ok(TamInstruction::from(code))
    }

    /// Pushes a word onto the stack; faults with a stack overflow if the
    /// stack has met the heap.
    pub fn push(&mut self, value: i16) -> (res: TamResult<()>)
        requires
            old(self).wf(),
        ensures
            final(self)@ == push_s(old(self)@, value).0,
            res == push_s(old(self)@, value).1,
            final(self).wf(),
            final(self).trace == old(self).trace,
    {
        let addr = self.registers[ST];
        if addr >= self.registers[HT] {
            return Err(TamError::StackOverflow);
        }
        self.data_store[addr as usize] = value;
        self.registers[ST] = addr + 1;
        Ok(())
    }

    /// Pops a word off the stack; faults with a stack underflow if the
    /// stack is empty.
    pub fn pop(&mut self) -> (res: TamResult<i16>)
        requires
            old(self).wf(),
        ensures
            final(self)@ == pop_s(old(self)@).0,
            res == pop_s(old(self)@).1,
            final(self).wf(),
            final(self).trace == old(self).trace,
    {
        if self.registers[ST] == 0 {
            return Err(TamError::StackUnderflow);
        }
        let addr = self.registers[ST] - 1;
        self.registers[ST] = addr;
        let val = self.data_store[addr as usize];
        Ok(val)
    }

    /// Sets the program to be executed on this emulator.
    ///
    /// Zeroes the code store, decodes the bytes as big-endian 32-bit words
    /// beginning at word 0 (a trailing partial word is ignored), and sets
    /// `CT`, `PB` and `PT` from the size of the program. A program of more
    /// than `MEMORY_SIZE` words is rejected with `OutOfMemory`.
    pub fn set_program(&mut self, code: &Vec<u8>) -> (res: TamResult<()>)
        requires
            old(self).wf(),
        ensures
            final(self)@ == set_program_s(old(self)@, code@).0,
            res == set_program_s(old(self)@, code@).1,
            final(self).wf(),
            final(self).trace == old(self).trace,
    {
        if code.len() / 4 > MEMORY_SIZE {
            return Err(TamError::OutOfMemory);
        }
        let instr_count = code.len() / 4;

        let mut i: usize = 0;
        while i < MEMORY_SIZE
            invariant
                self.wf(),
                self.trace == old(self).trace,
                i <= MEMORY_SIZE,
                self@.data == old(self)@.data,
                self@.regs == old(self)@.regs,
                forall|j: int| 0 <= j < i ==> self@.code[j] == 0u32,
            decreases MEMORY_SIZE - i,
        {
            self.code_store[i] = 0;
            i = i + 1;
        }

        let mut i: usize = 0;
        while i < instr_count
            invariant
                self.wf(),
                self.trace == old(self).trace,
                i <= instr_count,
                instr_count == code@.len() as int / 4,
                instr_count <= MEMORY_SIZE,
                self@.data == old(self)@.data,
                self@.regs == old(self)@.regs,
                forall|j: int| 0 <= j < i ==> self@.code[j] == be_word(code@, j),
                forall|j: int| i <= j < MEMORY_SIZE ==> self@.code[j] == 0u32,
            decreases instr_count - i,
        {
            let b0 = code[4 * i];
            let b1 = code[4 * i + 1];
            let b2 = code[4 * i + 2];
            let b3 = code[4 * i + 3];
            let w = ((b0 as u32) << 24) | ((b1 as u32) << 16) | ((b2 as u32) << 8) | (b3 as u32);
            self.code_store[i] = w;
            i = i + 1;
        }

        let ct: u16 = if instr_count == MEMORY_SIZE {
            0
        } else {
            instr_count as u16
        };
        self.registers[CT] = ct;
        self.registers[PB] = ct;
        self.registers[PT] = ct.wrapping_add(29);

        proof {
            assert(self@.code =~= set_program_s(old(self)@, code@).0.code);
            assert(self@.regs =~= set_program_s(old(self)@, code@).0.regs);
        }
        Ok(())
    }

    /// Executes one instruction, dispatching on its opcode. Returns whether
    /// the machine is still running: `HALT` reports `false`, every other
    /// implemented opcode `true` or its family's fault; an opcode outside
    /// the table faults with `UnknownOpcode`.
    pub fn execute(&mut self, instr: TamInstruction) -> (res: TamResult<bool>)
        requires
            old(self).wf(),
            instr.operands_in_range(),
        ensures
            final(self)@ == step_s(old(self)@, instr).0,
            res == step_s(old(self)@, instr).1,
            final(self).wf(),
            final(self).trace == old(self).trace,
    {
        match instr.op {
            0 => self.exec_load(instr)?,
            1 => self.exec_loada(instr)?,
            2 => self.exec_loadi(instr)?,
            3 => self.exec_loadl(instr)?,
            4 => self.exec_store(instr)?,
            5 => self.exec_storei(instr)?,
            6 => self.exec_call(instr)?,
            7 => self.exec_calli()?,
            8 => self.exec_return(instr)?,
            10 => self.exec_push(instr)?,
            11 => self.exec_pop(instr)?,
            12 => self.exec_jump(instr)?,
            13 => self.exec_jumpi()?,
            14 => self.exec_jumpif(instr)?,
            15 => return Ok(false),
            _ => return Err(TamError::UnknownOpcode(instr.op)),
        }
        Ok(true)
    }
}

} // verus!
