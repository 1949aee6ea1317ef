//! The primitive routines reached through the primitive area of the code
//! address space.

use vstd::prelude::*;

use crate::errors::TamResult;
use crate::model::{prim_and_s, prim_not_s, prim_or_s};
use crate::TamEmulator;

verus! {

impl TamEmulator {
    /// Primitive `and`: pops two words and pushes 1 exactly when both are
    /// non-zero.
    pub fn exec_prim_and(&mut self) -> (res: TamResult<()>)
        requires
            old(self).wf(),
        ensures
            final(self)@ == prim_and_s(old(self)@).0,
            res == prim_and_s(old(self)@).1,
            final(self).wf(),
            final(self).trace == old(self).trace,
    {
        let op2 = self.pop()?;
        let op1 = self.pop()?;
        self.push(
            if op1 != 0 && op2 != 0 {
                1
            } else {
                0
            },
        )
    }

    /// Primitive `or`: pops two words and pushes 1 exactly when either is
    /// non-zero.
    pub fn exec_prim_or(&mut self) -> (res: TamResult<()>)
        requires
            old(self).wf(),
        ensures
            final(self)@ == prim_or_s(old(self)@).0,
            res == prim_or_s(old(self)@).1,
            final(self).wf(),
            final(self).trace == old(self).trace,
    {
        let op2 = self.pop()?;
        let op1 = self.pop()?;
        self.push(
            if op1 != 0 || op2 != 0 {
                1
            } else {
                0
            },
        )
    }

    /// Primitive `not`: pops one word and pushes 1 exactly when it is zero.
    pub fn exec_prim_not(&mut self) -> (res: TamResult<()>)
        requires
            old(self).wf(),
        ensures
            final(self)@ == prim_not_s(old(self)@).0,
            res == prim_not_s(old(self)@).1,
            final(self).wf(),
            final(self).trace == old(self).trace,
    {
        let op = self.pop()?;
        self.push(
            if op == 0 {
                1
            } else {
                0
            },
        )
    }
}

} // verus!
