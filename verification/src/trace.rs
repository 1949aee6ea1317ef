//! Rendering of instructions for the execution trace.
//!
//! A traced instruction appears as one line `0xCCCC: MNEMONIC`, where
//! `CCCC` is the code pointer the instruction was fetched from, in
//! zero-padded hexadecimal, and the mnemonic spells the opcode with its
//! operands. The renderers are specified down to the exact character
//! sequence they produce.

use vstd::prelude::*;

use crate::TamInstruction;

verus! {

/// The character for one digit value, decimal or hexadecimal.
pub open spec fn spec_digit_char(d: int) -> char {
    if d == 0 {
        '0'
    } else if d == 1 {
        '1'
    } else if d == 2 {
        '2'
    } else if d == 3 {
        '3'
    } else if d == 4 {
        '4'
    } else if d == 5 {
        '5'
    } else if d == 6 {
        '6'
    } else if d == 7 {
        '7'
    } else if d == 8 {
        '8'
    } else if d == 9 {
        '9'
    } else if d == 10 {
        'a'
    } else if d == 11 {
        'b'
    } else if d == 12 {
        'c'
    } else if d == 13 {
        'd'
    } else if d == 14 {
        'e'
    } else {
        'f'
    }
}

/// The decimal digits of `x`, most significant first, without leading
/// zeroes.
pub open spec fn spec_dec(x: int) -> Seq<char>
    decreases x,
{
    if x < 10 {
        seq![spec_digit_char(x)]
    } else {
        spec_dec(x / 10).push(spec_digit_char(x % 10))
    }
}

/// A signed operand in decimal: a minus sign ahead of the magnitude for
/// negative values.
pub open spec fn spec_dec_i16(d: i16) -> Seq<char> {
    if d < 0 {
        seq!['-'] + spec_dec(-(d as int))
    } else {
        spec_dec(d as int)
    }
}

/// Four hexadecimal digits, most significant first, zero-padded.
pub open spec fn spec_hex4(x: int) -> Seq<char> {
    seq![
        spec_digit_char((x / 0x1000) % 16),
        spec_digit_char((x / 0x100) % 16),
        spec_digit_char((x / 0x10) % 16),
        spec_digit_char(x % 16),
    ]
}

/// The `d[r]` operand suffix of the memory-addressing opcodes.
pub open spec fn spec_operand_suffix(d: i16, r: u8) -> Seq<char> {
    spec_dec_i16(d) + "["@ + spec_dec(r as int) + "]"@
}

/// The mnemonic of an instruction, operands spelled out. Opcodes outside
/// the table render as unrecognised.
pub open spec fn spec_mnemonic(i: TamInstruction) -> Seq<char> {
    if i.op == 0 {
        "LOAD("@ + spec_dec(i.n as int) + ") "@ + spec_operand_suffix(i.d, i.r)
    } else if i.op == 1 {
        "LOADA "@ + spec_operand_suffix(i.d, i.r)
    } else if i.op == 2 {
        "LOADI("@ + spec_dec(i.n as int) + ")"@
    } else if i.op == 3 {
        "LOADL "@ + spec_dec_i16(i.d)
    } else if i.op == 4 {
        "STORE("@ + spec_dec(i.n as int) + ") "@ + spec_operand_suffix(i.d, i.r)
    } else if i.op == 5 {
        "STOREI("@ + spec_dec(i.n as int) + ")"@
    } else if i.op == 6 {
        "CALL("@ + spec_dec(i.n as int) + ") "@ + spec_operand_suffix(i.d, i.r)
    } else if i.op == 7 {
        "CALLI"@
    } else if i.op == 8 {
        "RETURN("@ + spec_dec(i.n as int) + ") "@ + spec_dec_i16(i.d)
    } else if i.op == 10 {
        "PUSH "@ + spec_dec_i16(i.d)
    } else if i.op == 11 {
        "POP("@ + spec_dec(i.n as int) + ") "@ + spec_dec_i16(i.d)
    } else if i.op == 12 {
        "JUMP "@ + spec_operand_suffix(i.d, i.r)
    } else if i.op == 13 {
        "JUMPI"@
    } else if i.op == 14 {
        "JUMPIF("@ + spec_dec(i.n as int) + ") "@ + spec_operand_suffix(i.d, i.r)
    } else if i.op == 15 {
        "HALT"@
    } else {
        "unrecognised opcode "@ + spec_dec(i.op as int)
    }
}

/// One trace line: the code pointer the instruction came from, then its
/// mnemonic.
pub open spec fn spec_trace_line(cp: u16, i: TamInstruction) -> Seq<char> {
    "0x"@ + spec_hex4(cp as int) + ": "@ + spec_mnemonic(i)
}

/// The one-character string for a digit value.
fn digit_str(d: u16) -> (s: &'static str)
    requires
        d < 16,
    ensures
        s@ == seq![spec_digit_char(d as int)],
{
    if d == 0 {
        proof {
            reveal_strlit("0");
            assert("0"@ =~= seq![spec_digit_char(d as int)]);
        }
        "0"
    } else if d == 1 {
        proof {
            reveal_strlit("1");
            assert("1"@ =~= seq![spec_digit_char(d as int)]);
        }
        "1"
    } else if d == 2 {
        proof {
            reveal_strlit("2");
            assert("2"@ =~= seq![spec_digit_char(d as int)]);
        }
        "2"
    } else if d == 3 {
        proof {
            reveal_strlit("3");
            assert("3"@ =~= seq![spec_digit_char(d as int)]);
        }
        "3"
    } else if d == 4 {
        proof {
            reveal_strlit("4");
            assert("4"@ =~= seq![spec_digit_char(d as int)]);
        }
        "4"
    } else if d == 5 {
        proof {
            reveal_strlit("5");
            assert("5"@ =~= seq![spec_digit_char(d as int)]);
        }
        "5"
    } else if d == 6 {
        proof {
            reveal_strlit("6");
            assert("6"@ =~= seq![spec_digit_char(d as int)]);
        }
        "6"
    } else if d == 7 {
        proof {
            reveal_strlit("7");
            assert("7"@ =~= seq![spec_digit_char(d as int)]);
        }
        "7"
    } else if d == 8 {
        proof {
            reveal_strlit("8");
            assert("8"@ =~= seq![spec_digit_char(d as int)]);
        }
        "8"
    } else if d == 9 {
        proof {
            reveal_strlit("9");
            assert("9"@ =~= seq![spec_digit_char(d as int)]);
        }
        "9"
    } else if d == 10 {
        proof {
            reveal_strlit("a");
            assert("a"@ =~= seq![spec_digit_char(d as int)]);
        }
        "a"
    } else if d == 11 {
        proof {
            reveal_strlit("b");
            assert("b"@ =~= seq![spec_digit_char(d as int)]);
        }
        "b"
    } else if d == 12 {
        proof {
            reveal_strlit("c");
            assert("c"@ =~= seq![spec_digit_char(d as int)]);
        }
        "c"
    } else if d == 13 {
        proof {
            reveal_strlit("d");
            assert("d"@ =~= seq![spec_digit_char(d as int)]);
        }
        "d"
    } else if d == 14 {
        proof {
            reveal_strlit("e");
            assert("e"@ =~= seq![spec_digit_char(d as int)]);
        }
        "e"
    } else {
        proof {
            reveal_strlit("f");
            assert("f"@ =~= seq![spec_digit_char(d as int)]);
        }
        "f"
    }
}

/// Renders an unsigned value in decimal.
fn dec_u16(x: u16) -> (s: String)
    ensures
        s@ == spec_dec(x as int),
    decreases x,
{
    if x < 10 {
        String::from_str(digit_str(x))
    } else {
        let mut s = dec_u16(x / 10);
        s.append(digit_str(x % 10));
        proof {
            assert(s@ =~= spec_dec(x as int));
        }
        s
    }
}

/// Renders a signed operand in decimal.
fn dec_i16(d: i16) -> (s: String)
    ensures
        s@ == spec_dec_i16(d),
{
    if d >= 0 {
        dec_u16(d as u16)
    } else {
        let mag = (-(d as i32)) as u16;
        let mut s = String::from_str("-");
        let m = dec_u16(mag);
        s.append(m.as_str());
        proof {
            reveal_strlit("-");
            assert("-"@ =~= seq!['-']);
        }
        s
    }
}

/// Renders a code address as four zero-padded hexadecimal digits.
fn hex4(x: u16) -> (s: String)
    ensures
        s@ == spec_hex4(x as int),
{
    let mut s = String::from_str(digit_str(x / 0x1000));
    s.append(digit_str((x / 0x100) % 16));
    s.append(digit_str((x / 0x10) % 16));
    s.append(digit_str(x % 16));
    proof {
        assert(s@ =~= spec_hex4(x as int));
    }
    s
}

/// Renders the `d[r]` operand suffix.
fn operand_suffix(d: i16, r: u8) -> (s: String)
    ensures
        s@ == spec_operand_suffix(d, r),
{
    let mut s = dec_i16(d);
    s.append("[");
    let rs = dec_u16(r as u16);
    s.append(rs.as_str());
    s.append("]");
    s
}

impl TamInstruction {
    /// The human-readable mnemonic of this instruction.
    pub fn mnemonic(&self) -> (s: String)
        ensures
            s@ == spec_mnemonic(*self),
    {
        match self.op {
            0 => {
                let mut s = String::from_str("LOAD(");
                let ns = dec_u16(self.n as u16);
                s.append(ns.as_str());
                s.append(") ");
                let os = operand_suffix(self.d, self.r);
                s.append(os.as_str());
                s
            },
            1 => {
                let mut s = String::from_str("LOADA ");
                let os = operand_suffix(self.d, self.r);
                s.append(os.as_str());
                s
            },
            2 => {
                let mut s = String::from_str("LOADI(");
                let ns = dec_u16(self.n as u16);
                s.append(ns.as_str());
                s.append(")");
                s
            },
            3 => {
                let mut s = String::from_str("LOADL ");
                let ds = dec_i16(self.d);
                s.append(ds.as_str());
                s
            },
            4 => {
                let mut s = String::from_str("STORE(");
                let ns = dec_u16(self.n as u16);
                s.append(ns.as_str());
                s.append(") ");
                let os = operand_suffix(self.d, self.r);
                s.append(os.as_str());
                s
            },
            5 => {
                let mut s = String::from_str("STOREI(");
                let ns = dec_u16(self.n as u16);
                s.append(ns.as_str());
                s.append(")");
                s
            },
            6 => {
                let mut s = String::from_str("CALL(");
                let ns = dec_u16(self.n as u16);
                s.append(ns.as_str());
                s.append(") ");
                let os = operand_suffix(self.d, self.r);
                s.append(os.as_str());
                s
            },
            7 => String::from_str("CALLI"),
            8 => {
                let mut s = String::from_str("RETURN(");
                let ns = dec_u16(self.n as u16);
                s.append(ns.as_str());
                s.append(") ");
                let ds = dec_i16(self.d);
                s.append(ds.as_str());
                s
            },
            10 => {
                let mut s = String::from_str("PUSH ");
                let ds = dec_i16(self.d);
                s.append(ds.as_str());
                s
            },
            11 => {
                let mut s = String::from_str("POP(");
                let ns = dec_u16(self.n as u16);
                s.append(ns.as_str());
                s.append(") ");
                let ds = dec_i16(self.d);
                s.append(ds.as_str());
                s
            },
            12 => {
                let mut s = String::from_str("JUMP ");
                let os = operand_suffix(self.d, self.r);
                s.append(os.as_str());
                s
            },
            13 => String::from_str("JUMPI"),
            14 => {
                let mut s = String::from_str("JUMPIF(");
                let ns = dec_u16(self.n as u16);
                s.append(ns.as_str());
                s.append(") ");
                let os = operand_suffix(self.d, self.r);
                s.append(os.as_str());
                s
            },
            15 => String::from_str("HALT"),
            _ => {
                let mut s = String::from_str("unrecognised opcode ");
                let xs = dec_u16(self.op as u16);
                s.append(xs.as_str());
                s
            },
        }
    }
}

/// Renders the trace line for an instruction fetched from code address
/// `cp`.
pub fn trace_line(cp: u16, instr: &TamInstruction) -> (s: String)
    ensures
        s@ == spec_trace_line(cp, *instr),
{
    let mut s = String::from_str("0x");
    let h = hex4(cp);
    s.append(h.as_str());
    s.append(": ");
    let m = instr.mnemonic();
    s.append(m.as_str());
    s
}

} // verus!
