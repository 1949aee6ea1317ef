use tam_rs::errors::TamError;
use tam_rs::{TamEmulator, TamInstruction, CP, CT, HT, LB, SB, ST};

fn emulator() -> TamEmulator {
    TamEmulator::new(false)
}

fn set_test_data(emu: &mut TamEmulator, data: &[i16]) {
    for (i, &word) in data.iter().enumerate() {
        emu.data_store[i] = word;
    }
    emu.registers[ST] = data.len() as u16;
}

#[test]
fn test_exec_load_all_in_range_ok() {
    let mut emulator = emulator();
    set_test_data(&mut emulator, &[0x12, 0x98]);

    let instr = TamInstruction { op: 0, r: 4, n: 2, d: 0 };
    let res = emulator.exec_load(instr);
    assert!(res.is_ok());

    assert_eq!(4, emulator.registers[ST], "ST register incorrect");
    assert_eq!(0x12, emulator.data_store[2], "first value incorrectly loaded");
    assert_eq!(0x98, emulator.data_store[3], "second value incorrectly loaded");
}

#[test]
fn test_exec_load_addr_out_of_range_data_access_violation() {
    let mut emulator = emulator();
    set_test_data(&mut emulator, &[0x12, 0x98]);

    let instr = TamInstruction { op: 0, r: 4, n: 2, d: 20 };
    let res = emulator.exec_load(instr);
    assert_eq!(TamError::DataAccessViolation, res.unwrap_err());
}

#[test]
fn test_exec_load_stack_full_stack_overflow() {
    let mut emulator = emulator();
    emulator.registers[ST] = 2;
    emulator.registers[HT] = 1;

    let res = emulator.exec_load(TamInstruction { op: 0, r: 0, n: 1, d: 0 });
    assert_eq!(TamError::StackOverflow, res.unwrap_err());
}

#[test]
fn test_exec_load_boundary_addresses_succeed() {
    // an address just below the gap (ST - 1) and just above it (HT + 1)
    // are both legal
    let mut emulator = emulator();
    set_test_data(&mut emulator, &[5, 6]);
    emulator.registers[HT] = 100;
    emulator.data_store[101] = 42;

    let below = TamInstruction { op: 0, r: 4, n: 1, d: 1 };
    assert!(emulator.exec_load(below).is_ok(), "load at ST - 1 should succeed");
    assert_eq!(6, emulator.data_store[2]);

    let above = TamInstruction { op: 0, r: 4, n: 1, d: 101 };
    assert!(emulator.exec_load(above).is_ok(), "load at HT + 1 should succeed");
    assert_eq!(42, emulator.data_store[3]);
}

#[test]
fn text_exec_loada_ok() {
    let mut emulator = emulator();
    emulator.registers[SB] = 5;
    let instr = TamInstruction { op: 1, r: SB as u8, n: 0, d: 3 };

    let res = emulator.exec_loada(instr);
    assert!(res.is_ok());
    assert_eq!(8, emulator.data_store[0]);
}

#[test]
fn test_exec_loada_stack_full_stack_overflow() {
    let mut emulator = emulator();
    emulator.registers[ST] = 3;
    emulator.registers[HT] = 3;

    let res = emulator.exec_loada(TamInstruction { op: 1, r: 0, n: 1, d: 0 });
    assert_eq!(TamError::StackOverflow, res.unwrap_err());
}

#[test]
fn test_exec_loadi_all_in_range_ok() {
    let mut emulator = emulator();
    set_test_data(&mut emulator, &[5, 10, 15, 1]);

    let instr = TamInstruction { op: 2, r: SB as u8, n: 2, d: 1 };
    let res = emulator.exec_loadi(instr);

    assert!(res.is_ok());
    assert_eq!(10, emulator.data_store[3], "Wrong first value loaded");
    assert_eq!(15, emulator.data_store[4], "Wrong second value loaded");
    assert_eq!(5, emulator.registers[ST], "ST incorrect");
}

#[test]
fn test_exec_loadi_empty_stack_stack_underflow() {
    let mut emulator = emulator();
    let res = emulator.exec_loadi(TamInstruction { op: 0, r: 0, n: 0, d: 0 });
    assert_eq!(TamError::StackUnderflow, res.unwrap_err());
}

#[test]
fn test_exec_loadi_full_stack_stack_overflow() {
    let mut emulator = emulator();
    emulator.registers[ST] = 2;
    emulator.registers[HT] = 2;

    let res = emulator.exec_loadi(TamInstruction { op: 0, r: 0, n: 2, d: 0 });
    assert_eq!(TamError::StackOverflow, res.unwrap_err());
}

#[test]
fn test_exec_loadi_addr_out_of_range_data_access_violation() {
    let mut emulator = emulator();
    emulator.data_store[0] = 25;
    emulator.registers[ST] = 1;

    let res = emulator.exec_loadi(TamInstruction { op: 0, r: 0, n: 1, d: 0 });
    assert_eq!(TamError::DataAccessViolation, res.unwrap_err());
}

#[test]
fn test_exec_loadl_all_in_range_ok() {
    let mut emulator = emulator();
    let instr = TamInstruction { op: 3, r: 0, n: 0, d: 84 };
    let res = emulator.exec_loadl(instr);

    assert!(res.is_ok());
    assert_eq!(84, emulator.data_store[0]);
    assert_eq!(1, emulator.registers[ST]);
}

#[test]
fn test_exec_loadl_stack_full_stack_overflow() {
    let mut emulator = emulator();
    emulator.registers[ST] = 2;
    emulator.registers[HT] = 2;

    let instr = TamInstruction { op: 3, r: 0, n: 0, d: 84 };
    let res = emulator.exec_loadl(instr);

    assert_eq!(TamError::StackOverflow, res.unwrap_err());
}

#[test]
fn test_exec_store_all_in_range_ok() {
    let mut emulator = emulator();
    set_test_data(&mut emulator, &[0, 1, 2, 3, 4, 5]);

    let instr = TamInstruction { op: 4, r: SB as u8, n: 2, d: 1 };
    let res = emulator.exec_store(instr);

    assert!(res.is_ok());
    assert_eq!(4, emulator.data_store[1]);
    assert_eq!(5, emulator.data_store[2]);
    assert_eq!(4, emulator.registers[ST]);
}

#[test]
fn test_exec_store_not_enough_data_stack_underflow() {
    let mut emulator = emulator();
    let instr = TamInstruction { op: 4, r: SB as u8, n: 2, d: 1 };
    let res = emulator.exec_store(instr);
    assert_eq!(TamError::StackUnderflow, res.unwrap_err());
}

#[test]
fn test_exec_store_addr_out_of_range_data_access_violation() {
    let mut emulator = emulator();
    emulator.data_store[0] = 1;
    emulator.registers[ST] = 1;
    let instr = TamInstruction { op: 4, r: SB as u8, n: 1, d: 10 };
    let res = emulator.exec_store(instr);
    assert_eq!(
        TamError::DataAccessViolation,
        res.expect_err("result should not have been Ok")
    );
}

#[test]
fn test_exec_storei_all_in_range_ok() {
    let mut emulator = emulator();
    set_test_data(&mut emulator, &[0, 1, 2, 3, 4, 5, 1]);

    let instr = TamInstruction { op: 5, r: SB as u8, n: 2, d: 1 };
    let res = emulator.exec_storei(instr);

    assert!(res.is_ok());
    assert_eq!(4, emulator.data_store[1]);
    assert_eq!(5, emulator.data_store[2]);
    assert_eq!(4, emulator.registers[ST]);
}

#[test]
fn test_exec_storei_not_enough_data_stack_underflow() {
    let mut emulator = emulator();
    let instr = TamInstruction { op: 5, r: SB as u8, n: 2, d: 1 };
    let res = emulator.exec_storei(instr);
    assert_eq!(TamError::StackUnderflow, res.unwrap_err());
}

#[test]
fn test_exec_call_all_in_range_ok() {
    let mut emulator = emulator();
    emulator.registers[CT] = 20;
    emulator.registers[LB] = 3;
    emulator.registers[CP] = 7;

    let instr = TamInstruction { op: 6, r: 0, n: 4, d: 2 };
    let res = emulator.exec_call(instr);

    assert!(res.is_ok());
    assert_eq!(0, emulator.data_store[0], "wrong static link");
    assert_eq!(3, emulator.data_store[1], "wrong dynamic link");
    assert_eq!(7, emulator.data_store[2], "wrong return address");
    assert_eq!(2, emulator.registers[CP], "jumped to wrong location");
}

#[test]
fn test_exec_call_stack_full_stack_overflow() {
    let mut emulator = emulator();
    emulator.registers[CT] = 20;
    emulator.registers[LB] = 3;
    emulator.registers[CP] = 7;
    emulator.registers[ST] = 4;
    emulator.registers[HT] = 4;

    let instr = TamInstruction { op: 6, r: 0, n: 4, d: 2 };
    let res = emulator.exec_call(instr);

    assert_eq!(TamError::StackOverflow, res.unwrap_err());
}

#[test]
fn test_exec_call_invalid_target_code_access_violation() {
    let mut emulator = emulator();
    emulator.registers[CT] = 20;
    emulator.registers[LB] = 3;
    emulator.registers[CP] = 7;

    let instr = TamInstruction { op: 6, r: 0, n: 4, d: 22 };
    let res = emulator.exec_call(instr);

    assert_eq!(TamError::CodeAccessViolation, res.unwrap_err());
}

#[test]
fn test_exec_push_reserves_space() {
    let mut emulator = emulator();
    let res = emulator.exec_push(TamInstruction { op: 10, r: 0, n: 0, d: 5 });
    assert!(res.is_ok());
    assert_eq!(5, emulator.registers[ST]);
}

#[test]
fn test_exec_push_past_heap_top_stack_overflow() {
    let mut emulator = emulator();
    emulator.registers[HT] = 4;
    let res = emulator.exec_push(TamInstruction { op: 10, r: 0, n: 0, d: 5 });
    assert_eq!(TamError::StackOverflow, res.unwrap_err());
    assert_eq!(0, emulator.registers[ST]);
}

#[test]
fn test_exec_pop_keeps_result_discards_locals() {
    let mut emulator = emulator();
    set_test_data(&mut emulator, &[10, 20, 30, 40]);

    // save the top word, discard the next two, restore the saved word
    let res = emulator.exec_pop(TamInstruction { op: 11, r: 0, n: 1, d: 2 });
    assert!(res.is_ok());
    assert_eq!(2, emulator.registers[ST]);
    assert_eq!(40, emulator.data_store[1]);
    assert_eq!(10, emulator.data_store[0]);
}

#[test]
fn test_exec_jump_sets_cp() {
    let mut emulator = emulator();
    emulator.registers[CT] = 20;
    let res = emulator.exec_jump(TamInstruction { op: 12, r: 0, n: 0, d: 10 });
    assert!(res.is_ok());
    assert_eq!(10, emulator.registers[CP]);
}

#[test]
fn test_exec_jump_invalid_target_code_access_violation() {
    let mut emulator = emulator();
    emulator.registers[CT] = 20;
    let res = emulator.exec_jump(TamInstruction { op: 12, r: 0, n: 0, d: 20 });
    assert_eq!(TamError::CodeAccessViolation, res.unwrap_err());
}

#[test]
fn test_exec_jumpi_pops_target() {
    let mut emulator = emulator();
    emulator.registers[CT] = 20;
    set_test_data(&mut emulator, &[13]);
    let res = emulator.exec_jumpi();
    assert!(res.is_ok());
    assert_eq!(13, emulator.registers[CP]);
    assert_eq!(0, emulator.registers[ST]);
}

#[test]
fn test_exec_calli_pops_target_and_static_link() {
    let mut emulator = emulator();
    emulator.registers[CT] = 20;
    emulator.registers[LB] = 3;
    emulator.registers[CP] = 7;
    set_test_data(&mut emulator, &[9, 2]);

    let res = emulator.exec_calli();
    assert!(res.is_ok());
    assert_eq!(9, emulator.data_store[0], "wrong static link");
    assert_eq!(3, emulator.data_store[1], "wrong dynamic link");
    assert_eq!(7, emulator.data_store[2], "wrong return address");
    assert_eq!(0, emulator.registers[LB]);
    assert_eq!(2, emulator.registers[CP]);
    assert_eq!(3, emulator.registers[ST]);
}

#[test]
fn test_exec_return_restores_caller_frame() {
    let mut emulator = emulator();
    // frame header at LB = 2: static link 0, dynamic link 1, return address 9,
    // below it two argument words, above it one local and one result word
    set_test_data(&mut emulator, &[11, 22, 0, 1, 9, 33, 44]);
    emulator.registers[LB] = 2;
    emulator.registers[CP] = 4;

    let res = emulator.exec_return(TamInstruction { op: 8, r: 0, n: 1, d: 2 });
    assert!(res.is_ok());
    assert_eq!(1, emulator.registers[ST], "result should sit alone on the stack");
    assert_eq!(44, emulator.data_store[0], "wrong result word");
    assert_eq!(1, emulator.registers[LB], "dynamic link not restored");
    assert_eq!(9, emulator.registers[CP], "return address not restored");
}

#[test]
fn test_exec_return_without_results_or_args() {
    let mut emulator = emulator();
    set_test_data(&mut emulator, &[0, 3, 7]);
    emulator.registers[LB] = 0;
    emulator.registers[CP] = 2;

    let res = emulator.exec_return(TamInstruction { op: 8, r: 0, n: 0, d: 0 });
    assert!(res.is_ok());
    assert_eq!(0, emulator.registers[ST]);
    assert_eq!(3, emulator.registers[LB]);
    assert_eq!(7, emulator.registers[CP]);
}

#[test]
fn test_exec_prim_and_truth_table() {
    for (a, b, expect) in [(0, 0, 0), (0, 5, 0), (5, 0, 0), (5, 7, 1)] {
        let mut emulator = emulator();
        set_test_data(&mut emulator, &[a, b]);
        emulator.exec_prim_and().expect("primitive should succeed");
        assert_eq!(1, emulator.registers[ST]);
        assert_eq!(expect, emulator.data_store[0], "and({}, {})", a, b);
    }
}

#[test]
fn test_exec_prim_or_truth_table() {
    for (a, b, expect) in [(0, 0, 0), (0, 5, 1), (5, 0, 1), (5, 7, 1)] {
        let mut emulator = emulator();
        set_test_data(&mut emulator, &[a, b]);
        emulator.exec_prim_or().expect("primitive should succeed");
        assert_eq!(1, emulator.registers[ST]);
        assert_eq!(expect, emulator.data_store[0], "or({}, {})", a, b);
    }
}

#[test]
fn test_exec_prim_not_truth_table() {
    for (a, expect) in [(0, 1), (5, 0), (-3, 0)] {
        let mut emulator = emulator();
        set_test_data(&mut emulator, &[a]);
        emulator.exec_prim_not().expect("primitive should succeed");
        assert_eq!(1, emulator.registers[ST]);
        assert_eq!(expect, emulator.data_store[0], "not({})", a);
    }
}

#[test]
fn test_exec_prim_empty_stack_underflow() {
    let mut emulator = emulator();
    assert_eq!(TamError::StackUnderflow, emulator.exec_prim_and().unwrap_err());
}

#[test]
fn test_exec_call_primitive_reserved_offset_is_noop() {
    let mut emulator = emulator();
    set_test_data(&mut emulator, &[5]);
    let res = emulator.exec_call_primitive(17);
    assert!(res.is_ok());
    assert_eq!(1, emulator.registers[ST]);
    assert_eq!(5, emulator.data_store[0]);
}
