//! The mathematical model of the TAM machine.
//!
//! A [`VmView`] is the abstract state of an emulator: the code store, the
//! data store and the register file, each as a sequence. Every instruction
//! of the machine is given a *total* spec-level transition here, returning
//! both the state after the instruction and its outcome. The executable
//! methods on [`crate::TamEmulator`] are proved to follow these transitions
//! exactly, including the state they leave behind on a fault.

use vstd::prelude::*;

use crate::errors::TamError;
use crate::{spec_decode, TamInstruction};
use crate::{CP, CT, HB, HT, LB, MEMORY_SIZE, PB, PT, ST};

verus! {

/// The abstract state of a TAM machine.
pub ghost struct VmView {
    /// The code store: one 32-bit word per instruction.
    pub code: Seq<u32>,
    /// The data store: 16-bit signed words holding stack and heap.
    pub data: Seq<i16>,
    /// The register file: 16 unsigned 16-bit registers.
    pub regs: Seq<u16>,
}

impl VmView {
    /// The sizes the three stores always have.
    pub open spec fn wf(self) -> bool {
        &&& self.code.len() == MEMORY_SIZE
        &&& self.data.len() == MEMORY_SIZE
        &&& self.regs.len() == 16
    }

    /// The state a freshly constructed emulator is in: zeroed stores and
    /// zeroed registers, except `HB` and `HT` which sit at the top of memory.
    pub open spec fn init() -> VmView {
        VmView {
            code: Seq::new(MEMORY_SIZE as nat, |i: int| 0u32),
            data: Seq::new(MEMORY_SIZE as nat, |i: int| 0i16),
            regs: Seq::new(
                16,
                |i: int| if i == HB as int || i == HT as int { 0xffffu16 } else { 0u16 },
            ),
        }
    }

    pub open spec fn ct(self) -> u16 {
        self.regs[CT as int]
    }

    pub open spec fn pb(self) -> u16 {
        self.regs[PB as int]
    }

    pub open spec fn pt(self) -> u16 {
        self.regs[PT as int]
    }

    pub open spec fn st(self) -> u16 {
        self.regs[ST as int]
    }

    pub open spec fn ht(self) -> u16 {
        self.regs[HT as int]
    }

    pub open spec fn lb(self) -> u16 {
        self.regs[LB as int]
    }

    pub open spec fn cp(self) -> u16 {
        self.regs[CP as int]
    }

    /// The state with one register replaced.
    pub open spec fn with_reg(self, i: int, x: u16) -> VmView {
        VmView { regs: self.regs.update(i, x), ..self }
    }

    /// The state with one data word replaced.
    pub open spec fn with_data(self, a: int, x: i16) -> VmView {
        VmView { data: self.data.update(a, x), ..self }
    }
}

/// Reduction of an address computation into the 16-bit address space.
/// Defined for any `x` that one register plus one signed offset (and the
/// small increments the machine makes) can produce.
pub open spec fn wrap16(x: int) -> u16 {
    (if x < 0 {
        x + 0x10000
    } else if x >= 0x10000 {
        x - 0x10000
    } else {
        x
    }) as u16
}

/// `wrap16` is exactly arithmetic modulo 2^16 on its intended domain.
pub proof fn lemma_wrap16_is_mod(x: int)
    requires
        -0x10000 <= x < 0x20000,
    ensures
        wrap16(x) == x % 0x10000,
{
}

/// The effective address `register[r] + d`, with 16-bit wrap-around.
pub open spec fn calc_s(v: VmView, r: u8, d: i16) -> u16 {
    wrap16(v.regs[r as int] + d)
}

/// `calc_s` is congruent to `register[r] + d` modulo 2^16.
pub proof fn lemma_calc_is_mod(v: VmView, r: u8, d: i16)
    requires
        v.wf(),
        r < 16,
    ensures
        calc_s(v, r, d) == (v.regs[r as int] + d) % 0x10000,
{
    lemma_wrap16_is_mod(v.regs[r as int] + d);
}

/// Whether address `a` falls in the free gap `[ST, HT]` between stack and
/// heap. A load or store into the gap is a data access violation; both the
/// stack below it and the heap above it are legal targets.
pub open spec fn in_gap(v: VmView, a: u16) -> bool {
    v.st() <= a <= v.ht()
}

/// One push: faults if the stack has met the heap, otherwise writes the
/// value at `ST` and bumps `ST`.
pub open spec fn push_s(v: VmView, x: i16) -> (VmView, Result<(), TamError>) {
    if v.st() >= v.ht() {
        (v, Err(TamError::StackOverflow))
    } else {
        (v.with_data(v.st() as int, x).with_reg(ST as int, (v.st() + 1) as u16), Ok(()))
    }
}

/// One pop: faults if the stack is empty, otherwise steps `ST` back and
/// returns the word it uncovered.
pub open spec fn pop_s(v: VmView) -> (VmView, Result<i16, TamError>) {
    if v.st() == 0 {
        (v, Err(TamError::StackUnderflow))
    } else {
        (v.with_reg(ST as int, (v.st() - 1) as u16), Ok(v.data[v.st() - 1]))
    }
}

/// Loads `n` words beginning at `base` onto the stack, one at a time in
/// ascending address order. Each address is checked against the free gap
/// before its word is pushed; a fault leaves the words already pushed in
/// place. Addresses wrap around the top of memory.
pub open spec fn load_words_s(v: VmView, base: u16, n: nat) -> (VmView, Result<(), TamError>)
    decreases n,
{
    if n == 0 {
        (v, Ok(()))
    } else if in_gap(v, base) {
        (v, Err(TamError::DataAccessViolation))
    } else {
        match push_s(v, v.data[base as int]) {
            (v1, Ok(_)) => load_words_s(v1, wrap16(base + 1), (n - 1) as nat),
            (v1, Err(e)) => (v1, Err(e)),
        }
    }
}

/// `LOAD(n) d[r]`: loads the `n` words at the effective address.
pub open spec fn load_s(v: VmView, instr: TamInstruction) -> (VmView, Result<(), TamError>) {
    load_words_s(v, calc_s(v, instr.r, instr.d), instr.n as nat)
}

/// `LOADA d[r]`: pushes the effective address itself, reinterpreted as a
/// signed word.
pub open spec fn loada_s(v: VmView, instr: TamInstruction) -> (VmView, Result<(), TamError>) {
    push_s(v, calc_s(v, instr.r, instr.d) as i16)
}

/// `LOADI(n)`: pops an address off the stack, then loads the `n` words
/// there.
pub open spec fn loadi_s(v: VmView, instr: TamInstruction) -> (VmView, Result<(), TamError>) {
    match pop_s(v) {
        (v1, Ok(a)) => load_words_s(v1, a as u16, instr.n as nat),
        (v1, Err(e)) => (v1, Err(e)),
    }
}

/// `LOADL d`: pushes the literal operand.
pub open spec fn loadl_s(v: VmView, instr: TamInstruction) -> (VmView, Result<(), TamError>) {
    push_s(v, instr.d)
}

/// Pops `n` words off the stack, returning them in pop order: index 0 is
/// the word that was on top. A fault leaves the words already popped gone.
pub open spec fn pop_words_s(v: VmView, n: nat) -> (VmView, Result<Seq<i16>, TamError>)
    decreases n,
{
    if n == 0 {
        (v, Ok(Seq::empty()))
    } else {
        match pop_s(v) {
            (v1, Ok(x)) => match pop_words_s(v1, (n - 1) as nat) {
                (v2, Ok(s)) => (v2, Ok(seq![x] + s)),
                (v2, Err(e)) => (v2, Err(e)),
            },
            (v1, Err(e)) => (v1, Err(e)),
        }
    }
}

/// Whether address `a` falls in the free gap `[st0, HT]` for a given
/// stack-top bound `st0`. A store's targets are judged against the `ST`
/// the instruction began with, before its operands were popped, so the
/// words may legally land where those operands sat.
pub open spec fn in_gap_at(st0: u16, v: VmView, a: u16) -> bool {
    st0 <= a <= v.ht()
}

/// Glues words already popped onto the front of the outcome of the
/// remaining pops.
pub open spec fn with_popped(prefix: Seq<i16>, step: (VmView, Result<Seq<i16>, TamError>)) -> (
    VmView,
    Result<Seq<i16>, TamError>,
) {
    match step {
        (v, Ok(s)) => (v, Ok(prefix + s)),
        (v, Err(e)) => (v, Err(e)),
    }
}

/// Writes the words of `vals` beginning at `base`, one at a time in
/// ascending address order. Each address is checked against the free gap
/// whose stack-top bound is `st0`, the `ST` the instruction began with; a
/// fault leaves the words already written in place. Addresses wrap around
/// the top of memory.
pub open spec fn store_words_s(v: VmView, st0: u16, base: u16, vals: Seq<i16>) -> (
    VmView,
    Result<(), TamError>,
)
    decreases vals.len(),
{
    if vals.len() == 0 {
        (v, Ok(()))
    } else if in_gap_at(st0, v, base) {
        (v, Err(TamError::DataAccessViolation))
    } else {
        store_words_s(v.with_data(base as int, vals[0]), st0, wrap16(base + 1), vals.skip(1))
    }
}

/// `STORE(n) d[r]`: pops `n` words, then writes them at the effective
/// address in their original stack order (the deepest popped word lands at
/// the lowest address). The targets are judged against the `ST` the
/// instruction began with, so storing into the slots the operands just
/// left is legal.
pub open spec fn store_s(v: VmView, instr: TamInstruction) -> (VmView, Result<(), TamError>) {
    match pop_words_s(v, instr.n as nat) {
        (v1, Ok(popped)) => store_words_s(
            v1,
            v.st(),
            calc_s(v1, instr.r, instr.d),
            popped.reverse(),
        ),
        (v1, Err(e)) => (v1, Err(e)),
    }
}

/// `STOREI(n)`: pops a target address, then pops `n` words and writes them
/// there as `STORE` does, judging the targets against the `ST` the
/// instruction began with.
pub open spec fn storei_s(v: VmView, instr: TamInstruction) -> (VmView, Result<(), TamError>) {
    match pop_s(v) {
        (v1, Ok(a)) => match pop_words_s(v1, instr.n as nat) {
            (v2, Ok(popped)) => store_words_s(v2, v.st(), a as u16, popped.reverse()),
            (v2, Err(e)) => (v2, Err(e)),
        },
        (v1, Err(e)) => (v1, Err(e)),
    }
}

/// Pushes the words of `vals` in order; a fault leaves the words already
/// pushed in place.
pub open spec fn push_words_s(v: VmView, vals: Seq<i16>) -> (VmView, Result<(), TamError>)
    decreases vals.len(),
{
    if vals.len() == 0 {
        (v, Ok(()))
    } else {
        match push_s(v, vals[0]) {
            (v1, Ok(_)) => push_words_s(v1, vals.skip(1)),
            (v1, Err(e)) => (v1, Err(e)),
        }
    }
}

/// Primitive `and`: pops two words and pushes 1 exactly when both are
/// non-zero.
pub open spec fn prim_and_s(v: VmView) -> (VmView, Result<(), TamError>) {
    match pop_s(v) {
        (v1, Ok(b)) => match pop_s(v1) {
            (v2, Ok(a)) => push_s(
                v2,
                if a != 0 && b != 0 {
                    1i16
                } else {
                    0i16
                },
            ),
            (v2, Err(e)) => (v2, Err(e)),
        },
        (v1, Err(e)) => (v1, Err(e)),
    }
}

/// Primitive `or`: pops two words and pushes 1 exactly when either is
/// non-zero.
pub open spec fn prim_or_s(v: VmView) -> (VmView, Result<(), TamError>) {
    match pop_s(v) {
        (v1, Ok(b)) => match pop_s(v1) {
            (v2, Ok(a)) => push_s(
                v2,
                if a != 0 || b != 0 {
                    1i16
                } else {
                    0i16
                },
            ),
            (v2, Err(e)) => (v2, Err(e)),
        },
        (v1, Err(e)) => (v1, Err(e)),
    }
}

/// Primitive `not`: pops one word and pushes 1 exactly when it is zero.
pub open spec fn prim_not_s(v: VmView) -> (VmView, Result<(), TamError>) {
    match pop_s(v) {
        (v1, Ok(a)) => push_s(
            v1,
            if a == 0 {
                1i16
            } else {
                0i16
            },
        ),
        (v1, Err(e)) => (v1, Err(e)),
    }
}

/// The primitive routine at offset `k` into the primitive area. Offsets
/// without a routine of their own are reserved and act as successful
/// no-ops.
pub open spec fn prim_s(v: VmView, k: u16) -> (VmView, Result<(), TamError>) {
    if k == 2 {
        prim_and_s(v)
    } else if k == 3 {
        prim_or_s(v)
    } else if k == 4 {
        prim_not_s(v)
    } else {
        (v, Ok(()))
    }
}

/// A call to target `addr` with static link `sl`. A target inside the
/// primitive area `[PB, PT)` runs the primitive at that offset and pushes
/// no frame. Any other target gets a frame header -- static link, dynamic
/// link, return address -- pushed in that order, `LB` pointed at it, and is
/// then checked against `CT` before `CP` moves there.
pub open spec fn call_with_s(v: VmView, sl: u16, addr: u16) -> (VmView, Result<(), TamError>) {
    if v.pb() <= addr < v.pt() {
        prim_s(v, (addr - v.pb()) as u16)
    } else {
        match push_s(v, sl as i16) {
            (v1, Ok(_)) => match push_s(v1, v.lb() as i16) {
                (v2, Ok(_)) => match push_s(v2, v.cp() as i16) {
                    (v3, Ok(_)) => {
                        let v4 = v3.with_reg(LB as int, (v3.st() - 3) as u16);
                        if addr >= v4.ct() {
                            (v4, Err(TamError::CodeAccessViolation))
                        } else {
                            (v4.with_reg(CP as int, addr), Ok(()))
                        }
                    },
                    (v3, Err(e)) => (v3, Err(e)),
                },
                (v2, Err(e)) => (v2, Err(e)),
            },
            (v1, Err(e)) => (v1, Err(e)),
        }
    }
}

/// `CALL(n) d[r]`: calls the effective address, with the current value of
/// register `n` as static link.
pub open spec fn call_s(v: VmView, instr: TamInstruction) -> (VmView, Result<(), TamError>) {
    call_with_s(v, v.regs[instr.n as int], calc_s(v, instr.r, instr.d))
}

/// `CALLI`: pops the target address, then the static link, and calls.
pub open spec fn calli_s(v: VmView) -> (VmView, Result<(), TamError>) {
    match pop_s(v) {
        (v1, Ok(a)) => match pop_s(v1) {
            (v2, Ok(sl)) => call_with_s(v2, sl as u16, a as u16),
            (v2, Err(e)) => (v2, Err(e)),
        },
        (v1, Err(e)) => (v1, Err(e)),
    }
}

/// Discarding `d` stack words (for `d <= 0` there is nothing to discard):
/// `ST` steps down by `d`, or collapses to 0 with an underflow fault if
/// fewer than `d` words are on the stack.
pub open spec fn discard_s(v: VmView, d: i16) -> (VmView, Result<(), TamError>) {
    if d <= 0 {
        (v, Ok(()))
    } else if v.st() < d {
        (v.with_reg(ST as int, 0), Err(TamError::StackUnderflow))
    } else {
        (v.with_reg(ST as int, (v.st() - d) as u16), Ok(()))
    }
}

/// `RETURN(n) d`: pops `n` result words, reads the dynamic link and return
/// address out of the frame header at `LB`, discards the stack down to `LB`
/// and then `d` argument words more, pushes the results back in their
/// original order, and finally restores `LB` and `CP` from the header.
pub open spec fn return_s(v: VmView, instr: TamInstruction) -> (VmView, Result<(), TamError>) {
    match pop_words_s(v, instr.n as nat) {
        (v1, Ok(results)) => {
            let dl = v1.data[wrap16(v1.lb() + 1) as int];
            let ra = v1.data[wrap16(v1.lb() + 2) as int];
            if v1.st() < v1.lb() {
                (v1.with_reg(ST as int, 0), Err(TamError::StackUnderflow))
            } else {
                let v2 = v1.with_reg(ST as int, v1.lb());
                match discard_s(v2, instr.d) {
                    (v3, Ok(_)) => match push_words_s(v3, results.reverse()) {
                        (v4, Ok(_)) => (
                            v4.with_reg(LB as int, dl as u16).with_reg(CP as int, ra as u16),
                            Ok(()),
                        ),
                        (v4, Err(e)) => (v4, Err(e)),
                    },
                    (v3, Err(e)) => (v3, Err(e)),
                }
            }
        },
        (v1, Err(e)) => (v1, Err(e)),
    }
}

/// `PUSH d`: reserves `d` stack words without writing them; `ST` moves by
/// `d` with 16-bit wrap, faulting if it would land above `HT`.
pub open spec fn push_op_s(v: VmView, instr: TamInstruction) -> (VmView, Result<(), TamError>) {
    let st2 = wrap16(v.st() + instr.d);
    if st2 > v.ht() {
        (v, Err(TamError::StackOverflow))
    } else {
        (v.with_reg(ST as int, st2), Ok(()))
    }
}

/// `POP(n) d`: saves the top `n` words, discards the next `d`, and pushes
/// the saved words back in their original order.
pub open spec fn pop_op_s(v: VmView, instr: TamInstruction) -> (VmView, Result<(), TamError>) {
    match pop_words_s(v, instr.n as nat) {
        (v1, Ok(saved)) => match discard_s(v1, instr.d) {
            (v2, Ok(_)) => push_words_s(v2, saved.reverse()),
            (v2, Err(e)) => (v2, Err(e)),
        },
        (v1, Err(e)) => (v1, Err(e)),
    }
}

/// A jump to `addr`: checked against `CT`, then `CP` moves there.
pub open spec fn jump_to_s(v: VmView, addr: u16) -> (VmView, Result<(), TamError>) {
    if addr >= v.ct() {
        (v, Err(TamError::CodeAccessViolation))
    } else {
        (v.with_reg(CP as int, addr), Ok(()))
    }
}

/// `JUMP d[r]`: jumps to the effective address.
pub open spec fn jump_s(v: VmView, instr: TamInstruction) -> (VmView, Result<(), TamError>) {
    jump_to_s(v, calc_s(v, instr.r, instr.d))
}

/// `JUMPI`: pops the target address and jumps there.
pub open spec fn jumpi_s(v: VmView) -> (VmView, Result<(), TamError>) {
    match pop_s(v) {
        (v1, Ok(a)) => jump_to_s(v1, a as u16),
        (v1, Err(e)) => (v1, Err(e)),
    }
}

/// `JUMPIF(n) d[r]`: pops a word; if it equals `n` the machine jumps to
/// the effective address, otherwise it falls through.
pub open spec fn jumpif_s(v: VmView, instr: TamInstruction) -> (VmView, Result<(), TamError>) {
    match pop_s(v) {
        (v1, Ok(x)) => if x == instr.n as i16 {
            jump_to_s(v1, calc_s(v1, instr.r, instr.d))
        } else {
            (v1, Ok(()))
        },
        (v1, Err(e)) => (v1, Err(e)),
    }
}

/// One instruction of the dispatcher: `HALT` reports that the machine has
/// stopped; every implemented opcode reports that it is still running or
/// faults as its family says; an opcode outside the table faults with
/// `UnknownOpcode`.
pub open spec fn step_s(v: VmView, instr: TamInstruction) -> (VmView, Result<bool, TamError>) {
    if instr.op == 15 {
        (v, Ok(false))
    } else if instr.op == 9 || instr.op > 15 {
        (v, Err(TamError::UnknownOpcode(instr.op)))
    } else {
        let outcome = if instr.op == 0 {
            load_s(v, instr)
        } else if instr.op == 1 {
            loada_s(v, instr)
        } else if instr.op == 2 {
            loadi_s(v, instr)
        } else if instr.op == 3 {
            loadl_s(v, instr)
        } else if instr.op == 4 {
            store_s(v, instr)
        } else if instr.op == 5 {
            storei_s(v, instr)
        } else if instr.op == 6 {
            call_s(v, instr)
        } else if instr.op == 7 {
            calli_s(v)
        } else if instr.op == 8 {
            return_s(v, instr)
        } else if instr.op == 10 {
            push_op_s(v, instr)
        } else if instr.op == 11 {
            pop_op_s(v, instr)
        } else if instr.op == 12 {
            jump_s(v, instr)
        } else if instr.op == 13 {
            jumpi_s(v)
        } else {
            jumpif_s(v, instr)
        };
        match outcome {
            (v1, Ok(_)) => (v1, Ok(true)),
            (v1, Err(e)) => (v1, Err(e)),
        }
    }
}

/// The register identities the loader establishes and every instruction
/// preserves: the stack never overlaps the heap, and the primitive area
/// sits right above the code, 29 entries wide.
pub open spec fn regs_consistent(v: VmView) -> bool {
    &&& v.st() <= v.ht() + 1
    &&& v.pb() == v.ct()
    &&& v.pt() == wrap16(v.pb() + 29)
}

/// Whatever `load_words_s` runs into, it only pushes: the stack stays
/// below the heap, no other register moves, and the code store is
/// untouched.
proof fn lemma_load_words_frame(v: VmView, base: u16, n: nat)
    requires
        v.wf(),
        v.st() <= v.ht() + 1,
    ensures
        ({
            let v1 = load_words_s(v, base, n).0;
            &&& v1.wf()
            &&& v1.st() <= v.ht() + 1
            &&& forall|i: int| 0 <= i < 16 && i != ST ==> v1.regs[i] == v.regs[i]
            &&& v1.code == v.code
        }),
    decreases n,
{
    if n > 0 && !in_gap(v, base) {
        let (v1, r) = push_s(v, v.data[base as int]);
        if r is Ok {
            lemma_load_words_frame(v1, wrap16(base + 1), (n - 1) as nat);
        }
    }
}

/// Whatever `pop_words_s` runs into, it only pops: `ST` never grows, no
/// other register moves, and neither store is touched.
proof fn lemma_pop_words_frame(v: VmView, n: nat)
    requires
        v.wf(),
    ensures
        ({
            let v1 = pop_words_s(v, n).0;
            &&& v1.wf()
            &&& v1.st() <= v.st()
            &&& forall|i: int| 0 <= i < 16 && i != ST ==> v1.regs[i] == v.regs[i]
            &&& v1.code == v.code
            &&& v1.data == v.data
        }),
    decreases n,
{
    if n > 0 {
        let (v1, r) = pop_s(v);
        if r is Ok {
            lemma_pop_words_frame(v1, (n - 1) as nat);
        }
    }
}

/// Whatever `push_words_s` runs into, it only pushes: the stack stays
/// below the heap, no other register moves, and the code store is
/// untouched.
proof fn lemma_push_words_frame(v: VmView, vals: Seq<i16>)
    requires
        v.wf(),
        v.st() <= v.ht() + 1,
    ensures
        ({
            let v1 = push_words_s(v, vals).0;
            &&& v1.wf()
            &&& v1.st() <= v.ht() + 1
            &&& forall|i: int| 0 <= i < 16 && i != ST ==> v1.regs[i] == v.regs[i]
            &&& v1.code == v.code
        }),
    decreases vals.len(),
{
    if vals.len() > 0 {
        let (v1, r) = push_s(v, vals[0]);
        if r is Ok {
            lemma_push_words_frame(v1, vals.skip(1));
        }
    }
}

/// Whatever `store_words_s` runs into, it only writes data words: every
/// register and the code store are untouched.
proof fn lemma_store_words_frame(v: VmView, st0: u16, base: u16, vals: Seq<i16>)
    requires
        v.wf(),
    ensures
        ({
            let v1 = store_words_s(v, st0, base, vals).0;
            &&& v1.wf()
            &&& v1.regs == v.regs
            &&& v1.code == v.code
        }),
    decreases vals.len(),
{
    if vals.len() > 0 && !in_gap_at(st0, v, base) {
        lemma_store_words_frame(
            v.with_data(base as int, vals[0]),
            st0,
            wrap16(base + 1),
            vals.skip(1),
        );
    }
}

/// Every instruction that completes without fault preserves the machine's
/// region invariants: the stores keep their sizes, `ST` stays at most one
/// past `HT`, and the register identities `PB == CT` and
/// `PT == PB + 29 (mod 2^16)` still hold. `CP` stays within `[0, CT]` for
/// every opcode but `RETURN`, whose return address comes unchecked off the
/// stack frame.
#[verifier::rlimit(100)]
pub proof fn lemma_step_preserves_invariants(v: VmView, instr: TamInstruction)
    requires
        v.wf(),
        regs_consistent(v),
        step_s(v, instr).1 is Ok,
    ensures
        step_s(v, instr).0.wf(),
        regs_consistent(step_s(v, instr).0),
        instr.op != 8 && v.cp() <= v.ct() ==> step_s(v, instr).0.cp() <= step_s(v, instr).0.ct(),
{
    let op = instr.op;
    if op == 0 {
        lemma_load_words_frame(v, calc_s(v, instr.r, instr.d), instr.n as nat);
    } else if op == 2 {
        let (v1, r) = pop_s(v);
        if r is Ok {
            lemma_load_words_frame(v1, r->Ok_0 as u16, instr.n as nat);
        }
    } else if op == 4 {
        let (v1, r) = pop_words_s(v, instr.n as nat);
        lemma_pop_words_frame(v, instr.n as nat);
        if r is Ok {
            lemma_store_words_frame(v1, v.st(), calc_s(v1, instr.r, instr.d), r->Ok_0.reverse());
        }
    } else if op == 5 {
        let (v1, r1) = pop_s(v);
        if r1 is Ok {
            let (v2, r2) = pop_words_s(v1, instr.n as nat);
            lemma_pop_words_frame(v1, instr.n as nat);
            if r2 is Ok {
                lemma_store_words_frame(v2, v.st(), r1->Ok_0 as u16, r2->Ok_0.reverse());
            }
        }
    } else if op == 8 {
        let (v1, r1) = pop_words_s(v, instr.n as nat);
        lemma_pop_words_frame(v, instr.n as nat);
        if r1 is Ok && v1.st() >= v1.lb() {
            let v2 = v1.with_reg(ST as int, v1.lb());
            let (v3, r3) = discard_s(v2, instr.d);
            if r3 is Ok {
                lemma_push_words_frame(v3, r1->Ok_0.reverse());
            }
        }
    } else if op == 11 {
        let (v1, r1) = pop_words_s(v, instr.n as nat);
        lemma_pop_words_frame(v, instr.n as nat);
        if r1 is Ok {
            let (v2, r2) = discard_s(v1, instr.d);
            if r2 is Ok {
                lemma_push_words_frame(v2, r1->Ok_0.reverse());
            }
        }
    }
}

/// Loading a program establishes the register identities that every
/// instruction preserves, provided the stack was not already overlapping
/// the heap.
pub proof fn lemma_set_program_establishes_invariants(v: VmView, bytes: Seq<u8>)
    requires
        v.wf(),
        v.st() <= v.ht() + 1,
        set_program_s(v, bytes).1 is Ok,
    ensures
        set_program_s(v, bytes).0.wf(),
        regs_consistent(set_program_s(v, bytes).0),
{
}

/// A fetch preserves the register identities, and a successful fetch
/// leaves `CP` within `[0, CT]`.
pub proof fn lemma_fetch_preserves_invariants(v: VmView)
    requires
        v.wf(),
        regs_consistent(v),
    ensures
        fetch_s(v).0.wf(),
        regs_consistent(fetch_s(v).0),
        fetch_s(v).1 is Ok ==> fetch_s(v).0.cp() <= fetch_s(v).0.ct(),
{
}

/// A push followed by a pop hands back the pushed value and restores `ST`;
/// the only lasting change is the pushed word sitting in the old free slot.
pub proof fn lemma_push_then_pop(v: VmView, x: i16)
    requires
        v.wf(),
        push_s(v, x).1 is Ok,
    ensures
        ({
            let after = pop_s(push_s(v, x).0);
            &&& after.1 == Ok::<i16, TamError>(x)
            &&& after.0.regs == v.regs
            &&& after.0.st() == v.st()
            &&& after.0.code == v.code
            &&& after.0.data == v.data.update(v.st() as int, x)
        }),
{
    assert(pop_s(push_s(v, x).0).0.regs =~= v.regs);
}

/// A push while `ST` has reached `HT` changes nothing and reports a stack
/// overflow.
pub proof fn lemma_push_overflow(v: VmView, x: i16)
    requires
        v.st() >= v.ht(),
    ensures
        push_s(v, x) == (v, Err::<(), TamError>(TamError::StackOverflow)),
{
}

/// A one-word load at an address in the free gap `[ST, HT]` faults with a
/// data access violation and changes nothing.
pub proof fn lemma_load_in_gap_faults(v: VmView, a: u16)
    requires
        v.wf(),
        in_gap(v, a),
    ensures
        load_words_s(v, a, 1) == (v, Err::<(), TamError>(TamError::DataAccessViolation)),
{
}

/// With room on the stack, a one-word load just below the gap (at
/// `ST - 1`) or just above it (at `HT + 1`) succeeds.
pub proof fn lemma_load_beside_gap_succeeds(v: VmView)
    requires
        v.wf(),
        v.st() < v.ht(),
    ensures
        v.st() >= 1 ==> load_words_s(v, (v.st() - 1) as u16, 1).1 is Ok,
        v.ht() < 0xffff ==> load_words_s(v, (v.ht() + 1) as u16, 1).1 is Ok,
{
    reveal_with_fuel(load_words_s, 2);
}

/// Writing any words over a legal region that does not wrap around memory
/// succeeds; every word lands at its address and nothing else changes.
/// `st0` is the stack-top bound the targets are judged against.
pub proof fn lemma_store_words_ok(v: VmView, st0: u16, base: u16, vals: Seq<i16>)
    requires
        v.wf(),
        base + vals.len() <= MEMORY_SIZE,
        forall|k: int| 0 <= k < vals.len() ==> !in_gap_at(st0, v, #[trigger] ((base + k) as u16)),
    ensures
        ({
            let (v1, r) = store_words_s(v, st0, base, vals);
            &&& r is Ok
            &&& v1.regs == v.regs
            &&& v1.code == v.code
            &&& v1.data.len() == v.data.len()
            &&& forall|k: int| 0 <= k < vals.len() ==> v1.data[base + k] == vals[k]
            &&& forall|j: int|
                0 <= j < v.data.len() && !(base <= j < base + vals.len()) ==> v1.data[j]
                    == v.data[j]
        }),
    decreases vals.len(),
{
    if vals.len() > 0 {
        assert((base + 0) as u16 == base);
        assert(!in_gap_at(st0, v, base));
        let v2 = v.with_data(base as int, vals[0]);
        let b2 = wrap16(base + 1);
        assert forall|k: int| 0 <= k < vals.skip(1).len() implies !in_gap_at(
            st0,
            v2,
            #[trigger] ((b2 + k) as u16),
        ) by {
            assert(!in_gap_at(st0, v, ((base + (k + 1)) as u16)));
            assert(b2 + k == base + (k + 1));
        }
        lemma_store_words_ok(v2, st0, b2, vals.skip(1));
        let (v1, r) = store_words_s(v, st0, base, vals);
        assert forall|k: int| 0 <= k < vals.len() implies v1.data[base + k] == vals[k] by {
            if k > 0 {
                assert(v1.data[b2 + (k - 1)] == vals.skip(1)[k - 1]);
            }
        }
    }
}

/// Loading a legal region that does not wrap, with room on the stack for
/// the copy, succeeds: the loaded words appear above the old stack top in
/// address order, and nothing else changes. The region must be legal
/// throughout the load, so it lies wholly below the stack top or wholly
/// above the heap top.
pub proof fn lemma_load_words_ok(v: VmView, base: u16, n: nat)
    requires
        v.wf(),
        base + n <= MEMORY_SIZE,
        v.st() + n <= v.ht(),
        base + n <= v.st() || base > v.ht(),
    ensures
        ({
            let (v1, r) = load_words_s(v, base, n);
            &&& r is Ok
            &&& v1.regs == v.regs.update(ST as int, (v.st() + n) as u16)
            &&& v1.code == v.code
            &&& v1.data.len() == v.data.len()
            &&& forall|j: int|
                v.st() <= j < v.st() + n ==> #[trigger] v1.data[j] == v.data[base + j - v.st()]
            &&& forall|j: int|
                0 <= j < v.data.len() && !(v.st() <= j < v.st() + n) ==> v1.data[j] == v.data[j]
        }),
    decreases n,
{
    if n == 0 {
        assert(v.regs.update(ST as int, (v.st() + 0) as u16) =~= v.regs);
    } else {
        let (v2, r2) = push_s(v, v.data[base as int]);
        let b2 = wrap16(base + 1);
        lemma_load_words_ok(v2, b2, (n - 1) as nat);
        let (v1, r) = load_words_s(v, base, n);
        assert(v1.regs =~= v.regs.update(ST as int, (v.st() + n) as u16));
        assert forall|j: int| v.st() <= j < v.st() + n implies #[trigger] v1.data[j] == v.data[base
            + j - v.st()] by {
            if j == v.st() {
                assert(v1.data[j] == v2.data[j]);
            } else {
                assert(v1.data[j] == v2.data[b2 + j - v2.st()]);
            }
        }
    }
}

/// A `STORE` of any words over a valid region followed by a `LOAD` of the
/// same width at the same address succeeds and pushes exactly those words
/// back, in their original order. The region is valid here when it does
/// not wrap around memory and lies wholly on one side of the free gap,
/// which must also leave room for the loaded copy.
pub proof fn lemma_store_then_load_roundtrip(v: VmView, base: u16, vals: Seq<i16>)
    requires
        v.wf(),
        base + vals.len() <= MEMORY_SIZE,
        v.st() + vals.len() <= v.ht(),
        base + vals.len() <= v.st() || base > v.ht(),
    ensures
        ({
            let (v1, r1) = store_words_s(v, v.st(), base, vals);
            let (v2, r2) = load_words_s(v1, base, vals.len());
            &&& r1 is Ok
            &&& r2 is Ok
            &&& v2.data.subrange(v.st() as int, v.st() + vals.len()) == vals
        }),
{
    assert forall|k: int| 0 <= k < vals.len() implies !in_gap_at(
        v.st(),
        v,
        #[trigger] ((base + k) as u16),
    ) by {
        assert((base + k) as u16 == base + k);
    }
    lemma_store_words_ok(v, v.st(), base, vals);
    let (v1, r1) = store_words_s(v, v.st(), base, vals);
    lemma_load_words_ok(v1, base, vals.len());
    let (v2, r2) = load_words_s(v1, base, vals.len());
    assert forall|k: int| 0 <= k < vals.len() implies v2.data[v.st() + k] == vals[k] by {
        assert(v2.data[v1.st() + k] == v1.data[base + (v1.st() + k) - v1.st()]);
    }
    assert(v2.data.subrange(v.st() as int, v.st() + vals.len()) =~= vals);
}

/// With enough words on the stack, popping `n` of them yields exactly the
/// top `n` words, topmost first, and only moves `ST` down by `n`.
proof fn lemma_pop_words_ok(v: VmView, n: nat)
    requires
        v.wf(),
        n <= v.st(),
    ensures
        ({
            let (v1, r) = pop_words_s(v, n);
            &&& v1.regs == v.regs.update(ST as int, (v.st() - n) as u16)
            &&& v1.code == v.code
            &&& v1.data == v.data
            &&& r == Ok::<Seq<i16>, TamError>(Seq::new(n, |i: int| v.data[v.st() - 1 - i]))
        }),
    decreases n,
{
    if n == 0 {
        assert(v.regs.update(ST as int, (v.st() - 0) as u16) =~= v.regs);
        assert(Seq::new(0, |i: int| v.data[v.st() - 1 - i]) =~= Seq::<i16>::empty());
    } else {
        let (v1, r1) = pop_s(v);
        lemma_pop_words_ok(v1, (n - 1) as nat);
        let (v2, r2) = pop_words_s(v1, (n - 1) as nat);
        assert(v2.regs =~= v.regs.update(ST as int, (v.st() - n) as u16));
        assert(seq![r1->Ok_0] + Seq::new((n - 1) as nat, |i: int| v1.data[v1.st() - 1 - i]) =~= Seq::new(
            n,
            |i: int| v.data[v.st() - 1 - i],
        ));
    }
}

/// The instruction-level round trip: `STORE(n) d[r]` followed by
/// `LOAD(n) d[r]` succeeds, copies the `n` words that sat on top of the
/// stack to the effective address, pushes them back unchanged, and leaves
/// every register and every other data word exactly as before. It holds
/// whenever the stack holds the words and has not met the heap, `r` is not
/// `ST` itself (the pops move `ST`), and the target region does not wrap
/// around memory and lies wholly on one side of the free gap left after
/// the pops.
pub proof fn lemma_store_instr_then_load_instr(v: VmView, instr: TamInstruction)
    requires
        v.wf(),
        instr.r < 16,
        instr.r as int != ST as int,
        instr.n <= v.st(),
        v.st() <= v.ht(),
        ({
            let base = calc_s(v, instr.r, instr.d);
            &&& base + instr.n <= MEMORY_SIZE
            &&& (base + instr.n <= v.st() - instr.n || base > v.ht())
        }),
    ensures
        ({
            let st1 = v.st() - instr.n;
            let base = calc_s(v, instr.r, instr.d);
            let (v1, r1) = store_s(v, instr);
            let (v2, r2) = load_s(v1, instr);
            &&& r1 is Ok
            &&& r2 is Ok
            &&& v2.regs == v.regs
            &&& v2.code == v.code
            &&& v2.data.len() == v.data.len()
            &&& forall|j: int|
                base <= j < base + instr.n ==> #[trigger] v2.data[j] == v.data[v.st() - instr.n + (
                j - base)]
            &&& forall|j: int|
                0 <= j < v.data.len() && !(base <= j < base + instr.n) ==> v2.data[j] == v.data[j]
        }),
{
    let n = instr.n as nat;
    let st = v.st() as int;
    let st1 = st - n;
    let base = calc_s(v, instr.r, instr.d);

    lemma_pop_words_ok(v, n);
    let (vp, rp) = pop_words_s(v, n);
    let popped = rp->Ok_0;
    assert(vp.regs[instr.r as int] == v.regs[instr.r as int]);
    assert(calc_s(vp, instr.r, instr.d) == base);

    let vals = popped.reverse();
    assert forall|i: int| 0 <= i < n implies vals[i] == v.data[st1 + i] by {
        assert(popped[n - 1 - i] == v.data[v.st() - 1 - (n - 1 - i)]);
    }

    assert forall|k: int| 0 <= k < vals.len() implies !in_gap_at(
        v.st(),
        vp,
        #[trigger] ((base + k) as u16),
    ) by {
        assert((base + k) as u16 == base + k);
    }
    lemma_store_words_ok(vp, v.st(), base, vals);
    let (v1, r1) = store_words_s(vp, v.st(), base, vals);

    lemma_load_words_ok(v1, base, n);
    let (v2, r2) = load_words_s(v1, base, n);
    assert(v2.regs =~= v.regs);
    assert(calc_s(v1, instr.r, instr.d) == base);

    assert forall|j: int| base <= j < base + instr.n implies #[trigger] v2.data[j] == v.data[st1 + (
    j - base)] by {
        assert(v1.data[base + (j - base)] == vals[j - base]);
    }
    assert forall|j: int|
        0 <= j < v.data.len() && !(base <= j < base + instr.n) implies v2.data[j] == v.data[j] by {
        if st1 <= j < st {
            assert(v2.data[j] == v1.data[base + j - v1.st()]);
            assert(v1.data[base + (j - st1)] == vals[j - st1]);
        }
    }
}

/// A pop from an empty stack changes nothing and reports a stack underflow.
pub proof fn lemma_pop_underflow(v: VmView)
    requires
        v.st() == 0,
    ensures
        pop_s(v) == (v, Err::<i16, TamError>(TamError::StackUnderflow)),
{
}

/// The 32-bit word sitting big-endian at byte offset `4*i` of a program.
pub open spec fn be_word(bytes: Seq<u8>, i: int) -> u32 {
    ((bytes[4 * i] as u32) << 24) | ((bytes[4 * i + 1] as u32) << 16) | ((bytes[4 * i + 2]
        as u32) << 8) | (bytes[4 * i + 3] as u32)
}

/// Loading a program: rejects one of more words than the code store holds;
/// otherwise zeroes the code store, writes the program's big-endian words
/// (a trailing partial word is ignored), and points `CT`, `PB` and `PT` at
/// the end of the program. A program of exactly `MEMORY_SIZE` words leaves
/// `CT` wrapped to 0, as a 16-bit register cannot hold that count.
pub open spec fn set_program_s(v: VmView, bytes: Seq<u8>) -> (VmView, Result<(), TamError>) {
    let count = bytes.len() as int / 4;
    if count > MEMORY_SIZE {
        (v, Err(TamError::OutOfMemory))
    } else {
        let ct: u16 = if count == MEMORY_SIZE {
            0u16
        } else {
            count as u16
        };
        let code2 = Seq::new(
            MEMORY_SIZE as nat,
            |i: int|
                if i < count {
                    be_word(bytes, i)
                } else {
                    0u32
                },
        );
        let regs2 = v.regs.update(CT as int, ct).update(PB as int, ct).update(
            PT as int,
            wrap16(ct + 29),
        );
        (VmView { code: code2, regs: regs2, ..v }, Ok(()))
    }
}

/// One fetch: faults if `CP` has reached `CT`, otherwise unpacks the word at
/// `CP` and advances `CP` past it.
pub open spec fn fetch_s(v: VmView) -> (VmView, Result<TamInstruction, TamError>) {
    if v.cp() >= v.ct() {
        (v, Err(TamError::CodeAccessViolation))
    } else {
        (v.with_reg(CP as int, (v.cp() + 1) as u16), Ok(spec_decode(v.code[v.cp() as int])))
    }
}

/// A fetch with `CP` at `CT` faults with a code access violation and changes
/// nothing; a fetch with `CP` just below `CT` succeeds and advances `CP`
/// to `CT`.
pub proof fn lemma_fetch_boundary(v: VmView)
    requires
        v.wf(),
    ensures
        v.cp() == v.ct() ==> fetch_s(v) == (
            v,
            Err::<TamInstruction, TamError>(TamError::CodeAccessViolation),
        ),
        v.cp() + 1 == v.ct() ==> fetch_s(v).1 == Ok::<TamInstruction, TamError>(
            spec_decode(v.code[v.cp() as int]),
        ) && fetch_s(v).0 == v.with_reg(CP as int, v.ct()),
{
}

} // verus!
