use tam_rs::trace::trace_line;
use tam_rs::TamInstruction;

#[test]
fn test_taminstruction_from_u32() {
    assert_eq!(
        TamInstruction { op: 0, r: 0, n: 0, d: 0 },
        TamInstruction::from(0x00000000)
    );
    assert_eq!(
        TamInstruction { op: 1, r: 2, n: 52, d: 22136 },
        TamInstruction::from(0x12345678)
    );
    assert_eq!(
        TamInstruction { op: 10, r: 8, n: 118, d: 21554 },
        TamInstruction::from(0xa8765432)
    );
    assert_eq!(
        TamInstruction { op: 15, r: 15, n: 255, d: -1 },
        TamInstruction::from(0xffffffff)
    );
}

#[test]
fn test_encode_inverts_decode() {
    for word in [0x00000000u32, 0x12345678, 0xa8765432, 0xffffffff, 0x30001234] {
        assert_eq!(word, TamInstruction::from(word).encode());
    }
}

#[test]
fn test_decode_inverts_encode() {
    let instr = TamInstruction { op: 6, r: 0, n: 4, d: -3 };
    assert_eq!(instr, TamInstruction::from(instr.encode()));
}

#[test]
fn test_encode_masks_field_widths() {
    // an opcode or register selector above 15 is cut to its low four bits
    let instr = TamInstruction { op: 0x1f, r: 0xff, n: 7, d: 1 };
    let decoded = TamInstruction::from(instr.encode());
    assert_eq!(15, decoded.op);
    assert_eq!(15, decoded.r);
    assert_eq!(7, decoded.n);
    assert_eq!(1, decoded.d);
}

#[test]
fn test_mnemonic_load_family() {
    assert_eq!(
        "LOAD(2) -1[4]",
        TamInstruction { op: 0, r: 4, n: 2, d: -1 }.mnemonic()
    );
    assert_eq!(
        "LOADA 3[4]",
        TamInstruction { op: 1, r: 4, n: 0, d: 3 }.mnemonic()
    );
    assert_eq!(
        "LOADI(2)",
        TamInstruction { op: 2, r: 0, n: 2, d: 0 }.mnemonic()
    );
    assert_eq!(
        "LOADL 4660",
        TamInstruction { op: 3, r: 0, n: 0, d: 4660 }.mnemonic()
    );
}

#[test]
fn test_mnemonic_store_family() {
    assert_eq!(
        "STORE(2) 10[4]",
        TamInstruction { op: 4, r: 4, n: 2, d: 10 }.mnemonic()
    );
    assert_eq!(
        "STOREI(3)",
        TamInstruction { op: 5, r: 0, n: 3, d: 0 }.mnemonic()
    );
}

#[test]
fn test_mnemonic_control_family() {
    assert_eq!(
        "CALL(4) 2[0]",
        TamInstruction { op: 6, r: 0, n: 4, d: 2 }.mnemonic()
    );
    assert_eq!(
        "CALLI",
        TamInstruction { op: 7, r: 0, n: 0, d: 0 }.mnemonic()
    );
    assert_eq!(
        "RETURN(1) -2",
        TamInstruction { op: 8, r: 0, n: 1, d: -2 }.mnemonic()
    );
    assert_eq!(
        "PUSH 5",
        TamInstruction { op: 10, r: 0, n: 0, d: 5 }.mnemonic()
    );
    assert_eq!(
        "POP(1) 2",
        TamInstruction { op: 11, r: 0, n: 1, d: 2 }.mnemonic()
    );
    assert_eq!(
        "JUMP 10[0]",
        TamInstruction { op: 12, r: 0, n: 0, d: 10 }.mnemonic()
    );
    assert_eq!(
        "JUMPI",
        TamInstruction { op: 13, r: 0, n: 0, d: 0 }.mnemonic()
    );
    assert_eq!(
        "JUMPIF(1) 10[0]",
        TamInstruction { op: 14, r: 0, n: 1, d: 10 }.mnemonic()
    );
    assert_eq!(
        "HALT",
        TamInstruction { op: 15, r: 0, n: 0, d: 0 }.mnemonic()
    );
}

#[test]
fn test_mnemonic_unrecognised_opcode() {
    assert_eq!(
        "unrecognised opcode 9",
        TamInstruction { op: 9, r: 0, n: 0, d: 0 }.mnemonic()
    );
}

#[test]
fn test_mnemonic_extreme_operands() {
    assert_eq!(
        "LOADL -32768",
        TamInstruction { op: 3, r: 0, n: 0, d: -32768 }.mnemonic()
    );
    assert_eq!(
        "LOADL 32767",
        TamInstruction { op: 3, r: 0, n: 0, d: 32767 }.mnemonic()
    );
    assert_eq!(
        "LOAD(255) 0[15]",
        TamInstruction { op: 0, r: 15, n: 255, d: 0 }.mnemonic()
    );
}

#[test]
fn test_trace_line_format() {
    let halt = TamInstruction { op: 15, r: 0, n: 0, d: 0 };
    assert_eq!("0x0007: HALT", trace_line(0x0007, &halt));

    let loadl = TamInstruction { op: 3, r: 0, n: 0, d: 4660 };
    assert_eq!("0x0000: LOADL 4660", trace_line(0, &loadl));

    let jump = TamInstruction { op: 12, r: 0, n: 0, d: 10 };
    assert_eq!("0xbeef: JUMP 10[0]", trace_line(0xbeef, &jump));
    assert_eq!("0xffff: JUMP 10[0]", trace_line(0xffff, &jump));
}
