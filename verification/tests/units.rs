use swpp_interpreter::bytes::{get_byte, read_le};
use swpp_interpreter::common::{
    div_toward_zero, rem_toward_zero, AccessSize, Arg, BitWidth, HEAP_OFFSET, ICMP,
    MEM_STACK_SIZE,
};
use swpp_interpreter::debt::DebtList;
use swpp_interpreter::error::{SwppError, SwppErrorKind};
use swpp_interpreter::function::SwppFunction;
use swpp_interpreter::heat::HeatMap;
use swpp_interpreter::inst::{InstRet, SwppInst, SwppInstKind};
use swpp_interpreter::logger::DummyLogger;
use swpp_interpreter::memory::SwppMemory;
use swpp_interpreter::program::{SwppBlock, SwppProgram, SwppState};
use swpp_interpreter::register::{SwppRegisterName, SwppRegisterSet};
use swpp_interpreter::text::{push_list, u64_to_decimal};

#[test]
fn bitwidth_bits_round_trip() {
    for bits in [1u64, 8, 16, 32, 64] {
        assert_eq!(BitWidth::from_bits(bits).bits(), bits);
    }
}

#[test]
fn bitwidth_reads_low_bits() {
    assert_eq!(BitWidth::Byte.read_u64(0x1ff), 0xff);
    assert_eq!(BitWidth::Short.read_u64(0x12345), 0x2345);
    assert_eq!(BitWidth::Quad.read_u64(0x1_0000_0005), 5);
    assert_eq!(BitWidth::Full.read_u64(u64::MAX), u64::MAX);
    assert_eq!(BitWidth::Bit.read_u64(3), 1);
}

#[test]
fn bitwidth_sign_extends() {
    assert_eq!(BitWidth::Byte.sign_extend_u64(0xff), -1);
    assert_eq!(BitWidth::Byte.sign_extend_u64(0x7f), 127);
    assert_eq!(BitWidth::Short.sign_extend_u64(0x8000), -32768);
    assert_eq!(BitWidth::Quad.sign_extend_u64(0xffff_fffe), -2);
    assert_eq!(BitWidth::Full.sign_extend_u64(u64::MAX), -1);
    // read_i64 keeps the low bits without extending the sign
    assert_eq!(BitWidth::Byte.read_i64(-1), 255);
    assert_eq!(BitWidth::Byte.read_i64(0x180), 128);
    assert_eq!(BitWidth::Full.read_i64(-5), -5);
}

#[test]
fn access_size_bytes_and_four_phobia() {
    for n in [1u64, 2, 4, 8] {
        assert_eq!(AccessSize::from_bytes(n).bytes(), n);
    }
    assert_eq!(u64::from(AccessSize::Four), 4);
    assert_eq!(usize::from(AccessSize::Two), 2);
    assert_eq!(u64::from(BitWidth::Quad), 32);
    assert_eq!(usize::from(BitWidth::Bit), 1);
    assert!(AccessSize::Four.is_four_phobia());
    assert!(!AccessSize::Eight.is_four_phobia());
    assert!(Arg::Const(4).is_const_four());
    assert!(!Arg::Const(5).is_const_four());
    assert!(!Arg::Reg(SwppRegisterName::Gen(4)).is_const_four());
}

#[test]
fn icmp_unsigned_and_signed() {
    assert!(ICMP::Ugt.compare_u64(u64::MAX, 1));
    assert!(!ICMP::Sgt.compare_u64(u64::MAX, 1));
    assert!(ICMP::Slt.compare_u64(u64::MAX, 0));
    assert!(ICMP::Eq.compare_u64(7, 7));
    assert!(ICMP::Ne.compare_u32(7, 8));
    assert!(ICMP::Sle.compare_u16(0x8000, 0));
    assert!(ICMP::Uge.compare_u8(0x80, 0x7f));
    assert!(!ICMP::Sge.compare_u8(0x80, 0x7f));
    // single bits compare as unsigned, whatever the predicate's sign
    assert!(ICMP::Ugt.compare_bit(true, false));
    assert!(ICMP::Sgt.compare_bit(true, false));
    assert!(!ICMP::Slt.compare_bit(true, false));
}

#[test]
fn division_rounds_toward_zero() {
    assert_eq!(div_toward_zero(-7, 2), -3);
    assert_eq!(rem_toward_zero(-7, 2), -1);
    assert_eq!(div_toward_zero(7, -2), -3);
    assert_eq!(rem_toward_zero(7, -2), 1);
    assert_eq!(div_toward_zero(i64::MIN, 1), i64::MIN);
}

#[test]
fn register_names_as_text() {
    assert_eq!(SwppRegisterName::Gen(12).to_string(), "r12");
    assert_eq!(SwppRegisterName::StackPointer.to_string(), "sp");
    assert_eq!(SwppRegisterName::Argument(3).to_string(), "arg3");
    assert!(SwppRegisterName::Argument(3).is_arg());
    assert!(!SwppRegisterName::StackPointer.is_arg());
}

#[test]
fn register_read_after_write() {
    let mut regs = SwppRegisterSet::new();
    regs.write_register_word(&SwppRegisterName::Gen(5), 42).unwrap();
    assert_eq!(regs.read_register_word(&SwppRegisterName::Gen(5)).unwrap(), 42);
    assert_eq!(regs.read_register_word(&SwppRegisterName::Gen(6)).unwrap(), 0);
    assert_eq!(
        regs.read_register_word(&SwppRegisterName::StackPointer).unwrap(),
        MEM_STACK_SIZE
    );
}

#[test]
fn register_error_text() {
    assert_eq!(
        SwppError::new(SwppErrorKind::WrongRegisterName(SwppRegisterName::Gen(33)), 4).to_string(),
        "Register r33 doesn't exist in system : line 4"
    );
}

#[test]
fn register_word_through_mutable_reference() {
    let mut regs = SwppRegisterSet::new();
    *regs.get_register_word_mut(&SwppRegisterName::Argument(2)).unwrap() = 9;
    assert_eq!(regs.read_register_word(&SwppRegisterName::Argument(2)).unwrap(), 9);
    assert_eq!(regs.read_register_word(&SwppRegisterName::Argument(1)).unwrap(), 0);
}

#[test]
fn set_arg_register_fills_in_order() {
    let mut regs = SwppRegisterSet::new();
    regs.set_arg_register(&vec![4, 5, 6]);
    assert_eq!(regs.read_register_word(&SwppRegisterName::Argument(1)).unwrap(), 4);
    assert_eq!(regs.read_register_word(&SwppRegisterName::Argument(3)).unwrap(), 6);
    assert_eq!(regs.read_register_word(&SwppRegisterName::Argument(4)).unwrap(), 0);
}

#[test]
fn general_registers_as_text() {
    let mut regs = SwppRegisterSet::new();
    regs.write_register_word(&SwppRegisterName::Gen(1), 7).unwrap();
    regs.write_register_word(&SwppRegisterName::Gen(32), 1234).unwrap();
    let mut expected = String::from("r : [7");
    for _ in 0..30 {
        expected.push_str(", 0");
    }
    expected.push_str(", 1234]");
    assert_eq!(regs.print_gen_register(), expected);
}

#[test]
fn error_texts() {
    assert_eq!(
        SwppError::new(SwppErrorKind::NoMainFn, 0).to_string(),
        "Main Function does not exists : line 0"
    );
    assert_eq!(
        SwppErrorKind::WrongArgNum("f".to_string(), 2, 3).desc(),
        "Function f takes 2 arguments but you give 3"
    );
    assert_eq!(
        SwppErrorKind::InvalidCondVal(2).desc(),
        "Condition register must have 0 or 1 but you use 2"
    );
    assert_eq!(
        SwppErrorKind::InvalidHeapAllocSize(12).desc(),
        "Size for heap allocation 12 should be non-zero and multiple of 8"
    );
    assert_eq!(
        SwppErrorKind::ArgRegAssign(SwppRegisterName::Argument(1)).desc(),
        "You cannot assign the value directly to the argument register arg1"
    );
    let inner = SwppError::new(SwppErrorKind::UnknownBlockName("x".to_string()), 5);
    assert_eq!(
        SwppError::new(
            SwppErrorKind::FunctionCallCrash("f".to_string(), inner.to_string()),
            2
        )
        .to_string(),
        "While running f, following error occurs \n-------------------------------------------------\n Block x isn't declared : line 5 \n-------------------------------------------------\n : line 2"
    );
    let e = SwppError::new(SwppErrorKind::AssignNoValue("g".to_string()), 9);
    assert_eq!(e.get_loc(), 9);
    assert!(matches!(e.get_kind(), SwppErrorKind::AssignNoValue(_)));
}

#[test]
fn error_texts_of_the_other_kinds() {
    let sp = SwppRegisterName::StackPointer;
    let cases: Vec<(SwppErrorKind, &str)> = vec![
        (SwppErrorKind::UnknownFnName("g".to_string()), "Function g isn't declared"),
        (SwppErrorKind::IllFormedBlock("b".to_string()), "Block b is not well formed"),
        (SwppErrorKind::ExpectVecReg(sp), "Expected Vector Register but find sp"),
        (SwppErrorKind::ExpectNonVecReg(sp), "Expected non-Vector Register but find sp"),
        (SwppErrorKind::AssignNoValue("h".to_string()), "h returns nothing."),
        (SwppErrorKind::RecursiveMainCall, "Main function cannot be recursively called"),
        (
            SwppErrorKind::InvalidRecursiveCall("f".to_string(), "main".to_string()),
            "You cannot recursively call f in the function main",
        ),
        (
            SwppErrorKind::AssertionFailed(1, 2),
            "Assertion Failed. Right side has value 1 while left side has value 2",
        ),
        (SwppErrorKind::NOMEMHEAP, "Heap Memory is actually limited with size of 2^64 bytes."),
        (SwppErrorKind::InvalidAddr(7), "Error occurs while trying to access adress 7"),
        (SwppErrorKind::InvalidAlignment(6, 4), "6 should be multiple of 4"),
        (SwppErrorKind::IOFails, "fail to read or write to stdstream"),
        (SwppErrorKind::InvalidIOValue("x1".to_string()), "Read Invalid value x1"),
        (SwppErrorKind::SubtractOverFlow, "Overflow occurs while subtract"),
    ];
    for (kind, text) in cases {
        assert_eq!(kind.desc(), text);
    }
}

#[test]
fn decimal_text() {
    assert_eq!(u64_to_decimal(0), "0");
    assert_eq!(u64_to_decimal(1234), "1234");
    assert_eq!(u64_to_decimal(u64::MAX), "18446744073709551615");
    let mut out = String::from("x");
    push_list(&mut out, &[1, 22, 333]);
    assert_eq!(out, "x[1, 22, 333]");
    let mut out = String::new();
    push_list(&mut out, &[]);
    assert_eq!(out, "[]");
}

#[test]
fn little_endian_bytes() {
    let b = vec![0x78, 0x56, 0x34, 0x12, 0xff];
    assert_eq!(read_le(&b, 0, 4), 0x1234_5678);
    assert_eq!(read_le(&b, 1, 2), 0x3456);
    assert_eq!(read_le(&b, 4, 0), 0);
    assert_eq!(get_byte(0x1122_3344_5566_7788, 0), 0x88);
    assert_eq!(get_byte(0x1122_3344_5566_7788, 7), 0x11);
}

#[test]
fn stack_read_after_write() {
    let mut mem = SwppMemory::new();
    mem.write_to_stack(16, 0x0102_0304_0506_0708, AccessSize::Eight).unwrap();
    assert_eq!(mem.read_from_stack(16, AccessSize::Eight).unwrap(), 0x0102_0304_0506_0708);
    assert_eq!(mem.read_from_stack(16, AccessSize::Two).unwrap(), 0x0708);
    mem.write_to_stack(24, 0xffff_ffff_ffff, AccessSize::Four).unwrap();
    assert_eq!(mem.read_from_stack(24, AccessSize::Eight).unwrap(), 0xffff_ffff);
    // a write elsewhere leaves the first value alone
    assert_eq!(mem.read_from_stack(16, AccessSize::Eight).unwrap(), 0x0102_0304_0506_0708);
}

#[test]
fn heap_read_after_write_and_free() {
    let mut mem = SwppMemory::new();
    assert_eq!(mem.get_heap_top(), HEAP_OFFSET);
    let a = mem.malloc(16).unwrap();
    assert_eq!(a, HEAP_OFFSET);
    let b = mem.malloc(8).unwrap();
    assert_eq!(b, HEAP_OFFSET + 16);
    assert_eq!(mem.get_max_heap_size(), 24);
    mem.write_to_heap(a + 8, 77, AccessSize::Eight).unwrap();
    assert_eq!(mem.read_from_heap(a + 8, AccessSize::Eight).unwrap(), 77);
    assert_eq!(mem.read_from_heap(b, AccessSize::Eight).unwrap(), 0);
    mem.free(a).unwrap();
    assert!(mem.read_from_heap(a + 8, AccessSize::Eight).is_err());
    assert_eq!(mem.read_from_heap(b, AccessSize::Eight).unwrap(), 0);
}

#[test]
fn memory_as_text() {
    let mut mem = SwppMemory::new();
    let a = mem.malloc(8).unwrap();
    mem.write_to_heap(a, 3, AccessSize::One).unwrap();
    let text = mem.print_memory();
    assert!(text.starts_with("Stack : [0, 0, "));
    assert!(text.ends_with("]\nHeap:{204800: [3, 0, 0, 0, 0, 0, 0, 0]}"));
}

#[test]
fn heat_map_bumps_and_cools() {
    let mut h = HeatMap::new();
    assert_eq!(h.get(3), 0);
    h.bump(3);
    assert_eq!(h.get(3), 400);
    for _ in 0..10 {
        h.bump(3);
    }
    assert_eq!(h.get(3), 2000);
    h.cool(100, None);
    assert!(h.get(3) < 2000);
    h.clear_range(0, 10);
    assert_eq!(h.get(3), 0);
}

#[test]
fn debts_set_get_and_reduce() {
    let mut d = DebtList::new();
    let r1 = SwppRegisterName::Gen(1);
    let r2 = SwppRegisterName::Gen(2);
    d.set(r1.clone(), 36);
    d.set(r2.clone(), 60);
    assert_eq!(d.get(&r1), 36);
    d.reduce_all(30, Some(&r2));
    assert_eq!(d.get(&r1), 6);
    assert_eq!(d.get(&r2), 60);
    d.reduce_all(100, None);
    assert_eq!(d.get(&r1), 0);
    assert_eq!(d.get(&r2), 0);
}

#[test]
fn running_and_total_cost_queries() {
    let main = SwppFunction::new(
        "main".to_string(),
        0,
        vec![SwppBlock {
            block_name: "entry".to_string(),
            inst_vec: vec![SwppInst::new(SwppInstKind::Ret(InstRet::new(None)), 1)],
            start_loc: 1,
        }],
    );
    let mut program = SwppProgram::new(SwppState::new(vec![main]), DummyLogger::new());
    assert!(!program.is_running());
    program.start().unwrap();
    assert!(program.is_running());
    program.step().unwrap();
    assert!(!program.is_running());
    assert!(program.total_cost_fits());
    assert_eq!(program.total_cost(), 1);
}

#[test]
fn fresh_allocation_reads_zero_at_every_width() {
    let mut mem = SwppMemory::new();
    let a = mem.malloc(16).unwrap();
    mem.write_to_heap(a, u64::MAX, AccessSize::Eight).unwrap();
    mem.write_to_heap(a + 8, u64::MAX, AccessSize::Eight).unwrap();
    mem.free(a).unwrap();
    let b = mem.malloc(16).unwrap();
    assert_eq!(b, a + 16);
    assert_eq!(mem.read_from_heap(b, AccessSize::One).unwrap(), 0);
    assert_eq!(mem.read_from_heap(b + 1, AccessSize::Two).unwrap(), 0);
    assert_eq!(mem.read_from_heap(b + 4, AccessSize::Four).unwrap(), 0);
    assert_eq!(mem.read_from_heap(b + 8, AccessSize::Eight).unwrap(), 0);
    assert!(mem.read_from_heap(b + 12, AccessSize::Eight).is_err());
}
