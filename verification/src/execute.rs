//! The opcode executors: one method per opcode family, each proved to
//! follow its spec-level transition from [`crate::model`].

pub mod primitive;

use vstd::prelude::*;

use crate::errors::{TamError, TamResult};
use crate::model::{
    calc_s, call_s, call_with_s, calli_s, discard_s, jump_s, jumpi_s, jumpif_s, load_s,
    load_words_s, loada_s, loadi_s, loadl_s, pop_op_s, pop_words_s, prim_s, push_op_s,
    push_words_s, return_s, store_s, store_words_s, storei_s, with_popped,
};
use crate::{TamEmulator, TamInstruction};
use crate::{CP, CT, HT, LB, PB, PT, ST};

verus! {

impl TamEmulator {
    /// Computes the effective address `register[r] + d`, wrapping around
    /// the 16-bit address space.
    pub fn calc_address(&self, instr: TamInstruction) -> (addr: u16)
        requires
            self.wf(),
            instr.r < 16,
        ensures
            addr == calc_s(self@, instr.r, instr.d),
    {
        self.registers[instr.r as usize].wrapping_add_signed(instr.d)
    }

    /// `LOAD(n) d[r]`: pushes the `n` words at the effective address, in
    /// ascending address order, checking each against the free gap.
    pub fn exec_load(&mut self, instr: TamInstruction) -> (res: TamResult<()>)
        requires
            old(self).wf(),
            instr.r < 16,
        ensures
            final(self)@ == load_s(old(self)@, instr).0,
            res == load_s(old(self)@, instr).1,
            final(self).wf(),
            final(self).trace == old(self).trace,
    {
        let mut addr = self.calc_address(instr);
        let mut i: u8 = 0;
        while i < instr.n
            invariant
                self.wf(),
                self.trace == old(self).trace,
                i <= instr.n,
                load_s(old(self)@, instr) == load_words_s(self@, addr, (instr.n - i) as nat),
            decreases instr.n - i,
        {
            if addr >= self.registers[ST] && addr <= self.registers[HT] {
                return Err(TamError::DataAccessViolation);
            }
            let val = self.data_store[addr as usize];
            self.push(val)?;
            addr = addr.wrapping_add(1);
            i = i + 1;
        }
        Ok(())
    }

    /// `LOADA d[r]`: pushes the effective address itself, reinterpreted as
    /// a signed word.
    pub fn exec_loada(&mut self, instr: TamInstruction) -> (res: TamResult<()>)
        requires
            old(self).wf(),
            instr.r < 16,
        ensures
            final(self)@ == loada_s(old(self)@, instr).0,
            res == loada_s(old(self)@, instr).1,
            final(self).wf(),
            final(self).trace == old(self).trace,
    {
        let addr = self.calc_address(instr);
        self.push(#[verifier::truncate] (addr as i16))
    }

    /// `LOADI(n)`: pops an address off the stack, then behaves as `LOAD`
    /// with that address as base.
    pub fn exec_loadi(&mut self, instr: TamInstruction) -> (res: TamResult<()>)
        requires
            old(self).wf(),
        ensures
            final(self)@ == loadi_s(old(self)@, instr).0,
            res == loadi_s(old(self)@, instr).1,
            final(self).wf(),
            final(self).trace == old(self).trace,
    {
        let popped = self.pop()?;
        let mut addr = #[verifier::truncate] (popped as u16);
        let mut i: u8 = 0;
        while i < instr.n
            invariant
                self.wf(),
                self.trace == old(self).trace,
                i <= instr.n,
                loadi_s(old(self)@, instr) == load_words_s(self@, addr, (instr.n - i) as nat),
            decreases instr.n - i,
        {
            if addr >= self.registers[ST] && addr <= self.registers[HT] {
                return Err(TamError::DataAccessViolation);
            }
            let val = self.data_store[addr as usize];
            self.push(val)?;
            addr = addr.wrapping_add(1);
            i = i + 1;
        }
        Ok(())
    }

    /// Pops `instr.n` words into a buffer, in pop order. Shared front half
    /// of `STORE` and `STOREI`.
    fn pop_into_buffer(&mut self, count: u8) -> (res: TamResult<Vec<i16>>)
        requires
            old(self).wf(),
        ensures
            final(self)@ == pop_words_s(old(self)@, count as nat).0,
            (match res {
                Ok(buf) => pop_words_s(old(self)@, count as nat).1 == Ok::<Seq<i16>, TamError>(
                    buf@,
                ) && buf@.len() == count as nat,
                Err(e) => pop_words_s(old(self)@, count as nat).1 == Err::<Seq<i16>, TamError>(e),
            }),
            final(self).wf(),
            final(self).trace == old(self).trace,
    {
        let mut buf: Vec<i16> = Vec::new();
        let mut i: u8 = 0;
        while i < count
            invariant
                self.wf(),
                self.trace == old(self).trace,
                i <= count,
                buf@.len() == i as nat,
                pop_words_s(old(self)@, count as nat) == with_popped(
                    buf@,
                    pop_words_s(self@, (count - i) as nat),
                ),
            decreases count - i,
        {
            let ghost prefix = buf@;
            let x = self.pop()?;
            proof {
                let step = pop_words_s(self@, (count - i - 1) as nat);
                if step.1 is Ok {
                    let s = step.1->Ok_0;
                    assert(prefix + (seq![x] + s) =~= (prefix + seq![x]) + s);
                }
                assert(prefix.push(x) =~= prefix + seq![x]);
            }
            buf.push(x);
            i = i + 1;
        }
        proof {
            assert(buf@ + Seq::<i16>::empty() =~= buf@);
        }
        Ok(buf)
    }

    /// Writes the buffered words beginning at `base`, restoring their
    /// original stack order at the target. Shared back half of `STORE` and
    /// `STOREI`; `buf` is in pop order, so it is drained from its end.
    /// `gap_st` is the stack-top bound the targets are judged against: the
    /// `ST` the instruction began with, not the one its pops left behind.
    fn store_from_buffer(&mut self, gap_st: u16, base: u16, buf: Vec<i16>) -> (res: TamResult<()>)
        requires
            old(self).wf(),
        ensures
            final(self)@ == store_words_s(old(self)@, gap_st, base, buf@.reverse()).0,
            res == store_words_s(old(self)@, gap_st, base, buf@.reverse()).1,
            final(self).wf(),
            final(self).trace == old(self).trace,
    {
        let mut rest = buf;
        let ghost popped = rest@;
        let ghost rev = popped.reverse();
        proof {
            assert(rev.skip(0) =~= rev);
            assert(popped.take(popped.len() as int) =~= popped);
        }
        let n = rest.len();
        let mut a = base;
        let mut j: usize = 0;
        while j < n
            invariant
                self.wf(),
                self.trace == old(self).trace,
                j <= n,
                popped == buf@,
                popped.len() == n as nat,
                rev == popped.reverse(),
                rest@ == popped.take((n - j) as int),
                store_words_s(old(self)@, gap_st, base, rev) == store_words_s(
                    self@,
                    gap_st,
                    a,
                    rev.skip(j as int),
                ),
            decreases n - j,
        {
            proof {
                assert(rev.skip(j as int).len() == n - j);
            }
            if a >= gap_st && a <= self.registers[HT] {
                return Err(TamError::DataAccessViolation);
            }
            let val = rest.pop().unwrap();
            proof {
                let m = (n - j) as int;
                assert(val == popped[m - 1]);
                assert(rev.skip(j as int)[0] == rev[j as int]);
                assert(rev[j as int] == popped[m - 1]);
                assert(rest@ =~= popped.take(m - 1));
                assert(rev.skip(j as int).skip(1) =~= rev.skip(j as int + 1));
            }
            self.data_store[a as usize] = val;
            a = a.wrapping_add(1);
            j = j + 1;
        }
        proof {
            assert(rev.skip(n as int) =~= Seq::<i16>::empty());
        }
        Ok(())
    }

    /// `STORE(n) d[r]`: pops `n` words, then writes them at the effective
    /// address in their original stack order. The targets are judged
    /// against the `ST` the instruction began with, so storing into the
    /// slots the operands just left is legal.
    pub fn exec_store(&mut self, instr: TamInstruction) -> (res: TamResult<()>)
        requires
            old(self).wf(),
            instr.r < 16,
        ensures
            final(self)@ == store_s(old(self)@, instr).0,
            res == store_s(old(self)@, instr).1,
            final(self).wf(),
            final(self).trace == old(self).trace,
    {
        let st0 = self.registers[ST];
        let buf = self.pop_into_buffer(instr.n)?;
        let addr = self.calc_address(instr);
        self.store_from_buffer(st0, addr, buf)
    }

    /// `STOREI(n)`: pops the target address, then pops `n` words and writes
    /// them there in their original stack order, judging the targets
    /// against the `ST` the instruction began with.
    pub fn exec_storei(&mut self, instr: TamInstruction) -> (res: TamResult<()>)
        requires
            old(self).wf(),
        ensures
            final(self)@ == storei_s(old(self)@, instr).0,
            res == storei_s(old(self)@, instr).1,
            final(self).wf(),
            final(self).trace == old(self).trace,
    {
        let st0 = self.registers[ST];
        let popped = self.pop()?;
        let addr = #[verifier::truncate] (popped as u16);
        let buf = self.pop_into_buffer(instr.n)?;
        self.store_from_buffer(st0, addr, buf)
    }

    /// `LOADL d`: pushes the literal operand.
    pub fn exec_loadl(&mut self, instr: TamInstruction) -> (res: TamResult<()>)
        requires
            old(self).wf(),
        ensures
            final(self)@ == loadl_s(old(self)@, instr).0,
            res == loadl_s(old(self)@, instr).1,
            final(self).wf(),
            final(self).trace == old(self).trace,
    {
        self.push(instr.d)
    }

    /// Runs the primitive routine at offset `k` into the primitive area.
    /// Offsets without a routine of their own are reserved and succeed
    /// without doing anything.
    pub fn exec_call_primitive(&mut self, offset: u16) -> (res: TamResult<()>)
        requires
            old(self).wf(),
        ensures
            final(self)@ == prim_s(old(self)@, offset).0,
            res == prim_s(old(self)@, offset).1,
            final(self).wf(),
            final(self).trace == old(self).trace,
    {
        match offset {
            2 => self.exec_prim_and(),
            3 => self.exec_prim_or(),
            4 => self.exec_prim_not(),
            _ => Ok(()),
        }
    }

    /// The shared tail of `CALL` and `CALLI`: dispatches a target in the
    /// primitive area to its routine, and gives any other target a frame
    /// header before moving `CP` there.
    fn call_to(&mut self, static_link: u16, addr: u16) -> (res: TamResult<()>)
        requires
            old(self).wf(),
        ensures
            final(self)@ == call_with_s(old(self)@, static_link, addr).0,
            res == call_with_s(old(self)@, static_link, addr).1,
            final(self).wf(),
            final(self).trace == old(self).trace,
    {
        if addr >= self.registers[PB] && addr < self.registers[PT] {
            let offset = addr - self.registers[PB];
            return self.exec_call_primitive(offset);
        }
        let dynamic_link = self.registers[LB];
        let return_address = self.registers[CP];
        self.push(#[verifier::truncate] (static_link as i16))?;
        self.push(#[verifier::truncate] (dynamic_link as i16))?;
        self.push(#[verifier::truncate] (return_address as i16))?;
        let st = self.registers[ST];
        self.registers[LB] = st - 3;
        if addr >= self.registers[CT] {
            return Err(TamError::CodeAccessViolation);
        }
        self.registers[CP] = addr;
        Ok(())
    }

    /// `CALL(n) d[r]`: calls the effective address, with the current value
    /// of register `n` as static link.
    pub fn exec_call(&mut self, instr: TamInstruction) -> (res: TamResult<()>)
        requires
            old(self).wf(),
            instr.r < 16,
            instr.n < 16,
        ensures
            final(self)@ == call_s(old(self)@, instr).0,
            res == call_s(old(self)@, instr).1,
            final(self).wf(),
            final(self).trace == old(self).trace,
    {
        let static_link = self.registers[instr.n as usize];
        let addr = self.calc_address(instr);
        self.call_to(static_link, addr)
    }

    /// `CALLI`: pops the target address, then the static link, and calls.
    pub fn exec_calli(&mut self) -> (res: TamResult<()>)
        requires
            old(self).wf(),
        ensures
            final(self)@ == calli_s(old(self)@).0,
            res == calli_s(old(self)@).1,
            final(self).wf(),
            final(self).trace == old(self).trace,
    {
        let addr = self.pop()?;
        let static_link = self.pop()?;
        self.call_to(
            #[verifier::truncate] (static_link as u16),
            #[verifier::truncate] (addr as u16),
        )
    }

    /// Discards `d` stack words (none for `d <= 0`), faulting with an
    /// underflow that empties the stack if fewer than `d` are there.
    fn discard(&mut self, d: i16) -> (res: TamResult<()>)
        requires
            old(self).wf(),
        ensures
            final(self)@ == discard_s(old(self)@, d).0,
            res == discard_s(old(self)@, d).1,
            final(self).wf(),
            final(self).trace == old(self).trace,
    {
        if d <= 0 {
            return Ok(());
        }
        let d = #[verifier::truncate] (d as u16);
        let st = self.registers[ST];
        if st < d {
            self.registers[ST] = 0;
            return Err(TamError::StackUnderflow);
        }
        self.registers[ST] = st - d;
        Ok(())
    }

    /// Pushes the buffered words back in their original stack order;
    /// `buf` is in pop order, so it is drained from its end.
    fn push_back_buffer(&mut self, buf: Vec<i16>) -> (res: TamResult<()>)
        requires
            old(self).wf(),
        ensures
            final(self)@ == push_words_s(old(self)@, buf@.reverse()).0,
            res == push_words_s(old(self)@, buf@.reverse()).1,
            final(self).wf(),
            final(self).trace == old(self).trace,
    {
        let mut rest = buf;
        let ghost popped = rest@;
        let ghost rev = popped.reverse();
        proof {
            assert(rev.skip(0) =~= rev);
            assert(popped.take(popped.len() as int) =~= popped);
        }
        let n = rest.len();
        let mut j: usize = 0;
        while j < n
            invariant
                self.wf(),
                self.trace == old(self).trace,
                j <= n,
                popped == buf@,
                popped.len() == n as nat,
                rev == popped.reverse(),
                rest@ == popped.take((n - j) as int),
                push_words_s(old(self)@, rev) == push_words_s(self@, rev.skip(j as int)),
            decreases n - j,
        {
            proof {
                assert(rev.skip(j as int).len() == n - j);
            }
            let val = rest.pop().unwrap();
            proof {
                let m = (n - j) as int;
                assert(val == popped[m - 1]);
                assert(rev.skip(j as int)[0] == rev[j as int]);
                assert(rev[j as int] == popped[m - 1]);
                assert(rest@ =~= popped.take(m - 1));
                assert(rev.skip(j as int).skip(1) =~= rev.skip(j as int + 1));
            }
            self.push(val)?;
            j = j + 1;
        }
        proof {
            assert(rev.skip(n as int) =~= Seq::<i16>::empty());
        }
        Ok(())
    }

    /// `RETURN(n) d`: pops `n` result words, reads the frame header at
    /// `LB`, discards the frame and `d` argument words, pushes the results
    /// back, and restores `LB` and `CP` from the header.
    pub fn exec_return(&mut self, instr: TamInstruction) -> (res: TamResult<()>)
        requires
            old(self).wf(),
        ensures
            final(self)@ == return_s(old(self)@, instr).0,
            res == return_s(old(self)@, instr).1,
            final(self).wf(),
            final(self).trace == old(self).trace,
    {
        let results = self.pop_into_buffer(instr.n)?;

        let lb = self.registers[LB];
        let dynamic_link = self.data_store[lb.wrapping_add(1) as usize];
        let return_addr = self.data_store[lb.wrapping_add(2) as usize];

        // discard the stack down to the frame header
        let st = self.registers[ST];
        if st < lb {
            self.registers[ST] = 0;
            return Err(TamError::StackUnderflow);
        }
        self.registers[ST] = lb;

        self.discard(instr.d)?;
        self.push_back_buffer(results)?;

        self.registers[LB] = #[verifier::truncate] (dynamic_link as u16);
        self.registers[CP] = #[verifier::truncate] (return_addr as u16);
        Ok(())
    }

    /// `PUSH d`: reserves `d` stack words without writing them.
    pub fn exec_push(&mut self, instr: TamInstruction) -> (res: TamResult<()>)
        requires
            old(self).wf(),
        ensures
            final(self)@ == push_op_s(old(self)@, instr).0,
            res == push_op_s(old(self)@, instr).1,
            final(self).wf(),
            final(self).trace == old(self).trace,
    {
        let st2 = self.registers[ST].wrapping_add_signed(instr.d);
        if st2 > self.registers[HT] {
            return Err(TamError::StackOverflow);
        }
        self.registers[ST] = st2;
        Ok(())
    }

    /// `POP(n) d`: saves the top `n` words, discards the next `d`, and
    /// pushes the saved words back in their original order.
    pub fn exec_pop(&mut self, instr: TamInstruction) -> (res: TamResult<()>)
        requires
            old(self).wf(),
        ensures
            final(self)@ == pop_op_s(old(self)@, instr).0,
            res == pop_op_s(old(self)@, instr).1,
            final(self).wf(),
            final(self).trace == old(self).trace,
    {
        let saved = self.pop_into_buffer(instr.n)?;
        self.discard(instr.d)?;
        self.push_back_buffer(saved)
    }

    /// `JUMP d[r]`: jumps to the effective address.
    pub fn exec_jump(&mut self, instr: TamInstruction) -> (res: TamResult<()>)
        requires
            old(self).wf(),
            instr.r < 16,
        ensures
            final(self)@ == jump_s(old(self)@, instr).0,
            res == jump_s(old(self)@, instr).1,
            final(self).wf(),
            final(self).trace == old(self).trace,
    {
        let target = self.calc_address(instr);
        if target >= self.registers[CT] {
            return Err(TamError::CodeAccessViolation);
        }
        self.registers[CP] = target;
        Ok(())
    }

    /// `JUMPI`: pops the target address and jumps there.
    pub fn exec_jumpi(&mut self) -> (res: TamResult<()>)
        requires
            old(self).wf(),
        ensures
            final(self)@ == jumpi_s(old(self)@).0,
            res == jumpi_s(old(self)@).1,
            final(self).wf(),
            final(self).trace == old(self).trace,
    {
        let popped = self.pop()?;
        let target = #[verifier::truncate] (popped as u16);
        if target >= self.registers[CT] {
            return Err(TamError::CodeAccessViolation);
        }
        self.registers[CP] = target;
        Ok(())
    }

    /// `JUMPIF(n) d[r]`: pops a word; if it equals `n` the machine jumps
    /// to the effective address, otherwise it falls through.
    pub fn exec_jumpif(&mut self, instr: TamInstruction) -> (res: TamResult<()>)
        requires
            old(self).wf(),
            instr.r < 16,
        ensures
            final(self)@ == jumpif_s(old(self)@, instr).0,
            res == jumpif_s(old(self)@, instr).1,
            final(self).wf(),
            final(self).trace == old(self).trace,
    {
        let popped = self.pop()?;
        if popped != instr.n as i16 {
            return Ok(());
        }
        let target = self.calc_address(instr);
        if target >= self.registers[CT] {
            return Err(TamError::CodeAccessViolation);
        }
        self.registers[CP] = target;
        Ok(())
    }
}

} // verus!
