use std::collections::HashMap;

use swpp_interpreter::common::{AccessSize, Arg, BitWidth, ICMP};
use swpp_interpreter::error::{SwppError, SwppErrorKind};
use swpp_interpreter::function::SwppFunction;
use swpp_interpreter::inst::{
    InstAssertion, InstAsyncLoad, InstBitwiseAnd, InstComparison, InstCondBr, InstEAdd, InstESub,
    InstFunctionCall, InstHeapAllocation, InstHeapFree, InstLoad, InstMultiplication, InstOAdd,
    InstRet, InstShiftLeft, InstShiftRightArithmetic, InstStore, InstSwitch, InstTernary,
    InstUncondBr, InstUnsignedDivision, InstUnsignedRemainder, SwppInst, SwppInstKind,
};
use swpp_interpreter::logger::{DummyLogger, SwppLogger};
use swpp_interpreter::program::{StepAction, SwppBlock, SwppContext, SwppProgram, SwppState};
use swpp_interpreter::register::SwppRegisterName;

fn r(i: usize) -> SwppRegisterName {
    SwppRegisterName::Gen(i)
}

fn reg(i: usize) -> Arg {
    Arg::Reg(r(i))
}

fn arg(i: usize) -> Arg {
    Arg::Reg(SwppRegisterName::Argument(i))
}

fn c(v: u64) -> Arg {
    Arg::Const(v)
}

fn inst(loc: u64, kind: SwppInstKind) -> SwppInst {
    SwppInst::new(kind, loc)
}

fn block(name: &str, loc: u64, insts: Vec<SwppInst>) -> SwppBlock {
    SwppBlock { block_name: name.to_string(), inst_vec: insts, start_loc: loc }
}

fn call(loc: u64, target: Option<SwppRegisterName>, fname: &str, args: Vec<Arg>) -> SwppInst {
    inst(loc, SwppInstKind::FnCall(InstFunctionCall::new(target, fname.to_string(), args)))
}

fn write(loc: u64, a: Arg) -> SwppInst {
    call(loc, None, "write", vec![a])
}

fn ret(loc: u64, val: Option<Arg>) -> SwppInst {
    inst(loc, SwppInstKind::Ret(InstRet::new(val)))
}

fn br(loc: u64, target: &str) -> SwppInst {
    inst(loc, SwppInstKind::UBranch(InstUncondBr::new(target.to_string())))
}

fn cbr(loc: u64, cond: Arg, t: &str, f: &str) -> SwppInst {
    inst(loc, SwppInstKind::Branch(InstCondBr::new(cond, t.to_string(), f.to_string())))
}

fn eadd(loc: u64, t: SwppRegisterName, a: Arg, b: Arg) -> SwppInst {
    inst(loc, SwppInstKind::EAdd(InstEAdd::new(a, b, t, BitWidth::Full)))
}

fn esub(loc: u64, t: SwppRegisterName, a: Arg, b: Arg) -> SwppInst {
    inst(loc, SwppInstKind::ESub(InstESub::new(a, b, t, BitWidth::Full)))
}

fn store(loc: u64, size: AccessSize, val: Arg, addr: Arg) -> SwppInst {
    inst(loc, SwppInstKind::Store(InstStore::new(val, addr, size)))
}

fn load(loc: u64, t: SwppRegisterName, size: AccessSize, addr: Arg) -> SwppInst {
    inst(loc, SwppInstKind::Load(InstLoad::new(t, addr, size)))
}

fn aload(loc: u64, t: SwppRegisterName, size: AccessSize, addr: Arg) -> SwppInst {
    inst(loc, SwppInstKind::ALoad(InstAsyncLoad::new(t, addr, size)))
}

fn malloc(loc: u64, t: SwppRegisterName, size: Arg) -> SwppInst {
    inst(loc, SwppInstKind::Malloc(InstHeapAllocation::new(t, size)))
}

fn function(name: &str, nargs: u64, blocks: Vec<SwppBlock>) -> SwppFunction {
    SwppFunction::new(name.to_string(), nargs, blocks)
}

fn main_fn(insts: Vec<SwppInst>) -> SwppFunction {
    function("main", 0, vec![block("entry", 1, insts)])
}

/// Runs the program with `input` as what `read` returns, in order; gives the
/// result, what `write` wrote, and the total cost.
fn run(functions: Vec<SwppFunction>, input: &[u64]) -> (Result<(), SwppError>, Vec<u64>, u64) {
    let mut program = SwppProgram::new(SwppState::new(functions), DummyLogger::new());
    let mut output = Vec::new();
    let mut next_input = 0;
    let result = (|| {
        program.start()?;
        loop {
            assert!(program.has_cost_headroom());
            assert!(!program.step_would_fault());
            match program.step()? {
                StepAction::Continue => {}
                StepAction::Finished => break,
                StepAction::Read => {
                    let v = input[next_input];
                    next_input += 1;
                    program.complete_return(Some(v))?;
                }
                StepAction::Write(v) => {
                    output.push(v);
                    program.complete_return(None)?;
                }
            }
        }
        Ok(())
    })();
    let cost = program.total_cost();
    (result, output, cost)
}

fn run_ok(functions: Vec<SwppFunction>, input: &[u64]) -> (Vec<u64>, u64) {
    let (result, output, cost) = run(functions, input);
    if let Err(e) = result {
        panic!("unexpected error: {}", e.to_string());
    }
    (output, cost)
}

#[test]
fn write_of_an_even_sum() {
    // eadd of an even result costs 10, the call 30, the return 1.
    let main = main_fn(vec![eadd(1, r(1), c(3), c(5)), write(2, reg(1)), ret(3, None)]);
    assert_eq!(run_ok(vec![main], &[]), (vec![8], 41));
}

#[test]
fn branch_forward_unconditional() {
    let main = function(
        "main",
        0,
        vec![block("entry", 1, vec![br(1, "next")]), block("next", 2, vec![ret(2, None)])],
    );
    assert_eq!(run_ok(vec![main], &[]), (vec![], 45 + 1));
}

#[test]
fn branch_backward_unconditional() {
    // entry -> b is forward (45), b -> a is backward (30), then ret.
    let main = function(
        "main",
        0,
        vec![
            block("entry", 1, vec![br(1, "b")]),
            block("a", 2, vec![ret(2, None)]),
            block("b", 3, vec![br(3, "a")]),
        ],
    );
    assert_eq!(run_ok(vec![main], &[]), (vec![], 45 + 30 + 1));
}

#[test]
fn branch_forward_cond_true() {
    let main = function(
        "main",
        0,
        vec![
            block("entry", 1, vec![cbr(1, c(1), "t", "f")]),
            block("t", 2, vec![ret(2, None)]),
            block("f", 3, vec![ret(3, None)]),
        ],
    );
    assert_eq!(run_ok(vec![main], &[]), (vec![], 135 + 1));
}

#[test]
fn branch_forward_cond_false() {
    let main = function(
        "main",
        0,
        vec![
            block("entry", 1, vec![cbr(1, c(0), "t", "f")]),
            block("t", 2, vec![ret(2, None)]),
            block("f", 3, vec![ret(3, None)]),
        ],
    );
    assert_eq!(run_ok(vec![main], &[]), (vec![], 45 + 1));
}

#[test]
fn branch_backward_cond_true_keeps_base_cost() {
    // entry jumps forward to `b` (45); `b` jumps back to `a` on true (90).
    let main = function(
        "main",
        0,
        vec![
            block("entry", 1, vec![br(1, "b")]),
            block("a", 2, vec![ret(2, None)]),
            block("b", 3, vec![cbr(3, c(1), "a", "b")]),
        ],
    );
    assert_eq!(run_ok(vec![main], &[]), (vec![], 45 + 90 + 1));
}

#[test]
fn switch_base_cost() {
    let mut map = HashMap::new();
    map.insert(1, "a".to_string());
    map.insert(2, "b".to_string());
    let sw = inst(1, SwppInstKind::Switch(InstSwitch::new(c(2), map, "d".to_string())));
    let main = function(
        "main",
        0,
        vec![
            block("entry", 1, vec![sw]),
            block("a", 2, vec![write(2, c(1)), ret(3, None)]),
            block("b", 4, vec![write(4, c(2)), ret(5, None)]),
            block("d", 6, vec![write(6, c(3)), ret(7, None)]),
        ],
    );
    assert_eq!(run_ok(vec![main], &[]), (vec![2], 60 + 30 + 1));
}

#[test]
fn switch_takes_default() {
    let mut map = HashMap::new();
    map.insert(1, "a".to_string());
    let sw = inst(1, SwppInstKind::Switch(InstSwitch::new(c(9), map, "d".to_string())));
    let main = function(
        "main",
        0,
        vec![
            block("entry", 1, vec![sw]),
            block("a", 2, vec![write(2, c(1)), ret(3, None)]),
            block("d", 4, vec![write(4, c(3)), ret(5, None)]),
        ],
    );
    assert_eq!(run_ok(vec![main], &[]), (vec![3], 60 + 30 + 1));
}

#[test]
fn call_restore_registers() {
    // The callee changes its own r1 and sp; the caller's stay as they were.
    let main = main_fn(vec![
        eadd(1, r(1), c(0), c(2)),
        call(2, Some(r(2)), "f", vec![reg(1)]),
        write(3, reg(1)),
        write(4, reg(2)),
        write(5, Arg::Reg(SwppRegisterName::StackPointer)),
        ret(6, None),
    ]);
    let f = function(
        "f",
        1,
        vec![block(
            "entry",
            10,
            vec![
                eadd(10, r(1), arg(1), arg(1)),
                esub(11, SwppRegisterName::StackPointer, Arg::Reg(SwppRegisterName::StackPointer), c(8)),
                ret(12, Some(reg(1))),
            ],
        )],
    );
    assert_eq!(
        run_ok(vec![main, f], &[]),
        (vec![2, 4, 102400], 10 + 30 + 10 + 10 + 1 + 30 + 30 + 30 + 1)
    );
}

#[test]
fn call_restore_args_nested() {
    let main = main_fn(vec![call(1, Some(r(1)), "f", vec![c(2)]), write(2, reg(1)), ret(3, None)]);
    let f = function(
        "f",
        1,
        vec![block(
            "entry",
            10,
            vec![
                call(10, Some(r(1)), "g", vec![c(7)]),
                eadd(11, r(2), arg(1), c(0)),
                ret(12, Some(reg(2))),
            ],
        )],
    );
    let g = function("g", 1, vec![block("entry", 20, vec![ret(20, Some(arg(1)))])]);
    assert_eq!(run_ok(vec![main, f, g], &[]), (vec![2], 30 + 30 + 1 + 10 + 1 + 30 + 1));
}

#[test]
fn branch_after_call_uses_caller_block() {
    // After returning, the branch in `main` is forward relative to main's blocks.
    let main = function(
        "main",
        0,
        vec![
            block("entry", 1, vec![call(1, None, "f", vec![]), br(2, "next")]),
            block("next", 3, vec![ret(3, None)]),
        ],
    );
    let f = function(
        "f",
        0,
        vec![
            block("x", 10, vec![br(10, "y")]),
            block("y", 11, vec![br(11, "z")]),
            block("z", 12, vec![ret(12, None)]),
        ],
    );
    assert_eq!(run_ok(vec![main, f], &[]), (vec![], 30 + 45 + 45 + 1 + 45 + 1));
}

#[test]
fn aload_wait_on_operand_use() {
    let main = main_fn(vec![
        store(1, AccessSize::Eight, c(42), c(16)),
        aload(2, r(1), AccessSize::Eight, c(16)),
        eadd(3, r(2), reg(1), c(0)),
        write(4, reg(2)),
        ret(5, None),
    ]);
    // store 30, aload 1, the use waits 36, eadd 10, call 30, ret 1
    assert_eq!(run_ok(vec![main], &[]), (vec![42], 30 + 1 + 36 + 10 + 30 + 1));
}

#[test]
fn aload_overwrite_cancels_debt() {
    let main = main_fn(vec![
        store(1, AccessSize::Eight, c(42), c(16)),
        aload(2, r(1), AccessSize::Eight, c(16)),
        eadd(3, r(1), c(0), c(0)),
        write(4, reg(1)),
        ret(5, None),
    ]);
    assert_eq!(run_ok(vec![main], &[]), (vec![0], 30 + 1 + 10 + 30 + 1));
}

#[test]
fn aload_wait_paid_by_intervening_instruction() {
    let main = main_fn(vec![
        store(1, AccessSize::Eight, c(42), c(16)),
        aload(2, r(1), AccessSize::Eight, c(16)),
        eadd(3, r(2), c(0), c(2)),
        eadd(4, r(3), reg(1), c(0)),
        ret(5, None),
    ]);
    // the eadd at line 3 pays 10 of the 36; the use waits the other 26
    assert_eq!(run_ok(vec![main], &[]), (vec![], 30 + 1 + 10 + 26 + 10 + 1));
}

#[test]
fn aload_parallel_resolve_multiple() {
    let main = main_fn(vec![
        aload(1, r(1), AccessSize::Eight, c(16)),
        aload(2, r(2), AccessSize::Eight, c(24)),
        eadd(3, r(3), c(0), c(0)),
        eadd(4, r(4), c(0), c(0)),
        eadd(5, r(5), c(0), c(0)),
        eadd(6, r(6), reg(1), reg(2)),
        ret(7, None),
    ]);
    // r1 owes 36, less 1 for the second aload and 30 for three adds: 5 left;
    // r2 owes 36, less 30: 6 left. Reading r1 pays 5 (r2 drops to 1), then r2 pays 1.
    assert_eq!(run_ok(vec![main], &[]), (vec![], 1 + 1 + 10 + 10 + 10 + 5 + 1 + 10 + 1));
}

#[test]
fn heat_repeat_heap_loads() {
    let main = main_fn(vec![
        malloc(1, r(1), c(16)),
        load(2, r(2), AccessSize::Eight, reg(1)),
        load(3, r(3), AccessSize::Eight, reg(1)),
        ret(4, None),
    ]);
    // the second load pays 400 / 10 for the heat the first one left
    assert_eq!(run_ok(vec![main], &[]), (vec![], 150 + 50 + 90 + 1 + 16 * 1024));
}

#[test]
fn heat_repeat_stack_loads() {
    let main = main_fn(vec![
        load(1, r(2), AccessSize::Eight, c(16)),
        load(2, r(3), AccessSize::Eight, c(16)),
        load(3, r(3), AccessSize::Eight, c(16)),
        ret(4, None),
    ]);
    assert_eq!(run_ok(vec![main], &[]), (vec![], 30 + 30 + 30 + 1));
}

#[test]
fn heat_heap_allocation_boundary() {
    let main = main_fn(vec![
        malloc(1, r(1), c(8)),
        malloc(2, r(2), c(8)),
        load(3, r(3), AccessSize::Eight, reg(1)),
        load(4, r(4), AccessSize::Eight, reg(2)),
        ret(5, None),
    ]);
    assert_eq!(run_ok(vec![main], &[]), (vec![], 150 + 150 + 50 + 50 + 1 + 16 * 1024));
}

#[test]
fn heat_neighbor_spread() {
    // An 8-byte access heats the sectors around it within the allocation.
    let main = main_fn(vec![
        malloc(1, r(1), c(64)),
        load(2, r(2), AccessSize::Eight, reg(1)),
        eadd(3, r(3), reg(1), c(8)),
        load(4, r(4), AccessSize::Eight, reg(3)),
        ret(5, None),
    ]);
    // the first load heats the next sector to 400; the add cools it by 10
    assert_eq!(run_ok(vec![main], &[]), (vec![], 150 + 50 + 10 + 50 + 39 + 1 + 64 * 1024));
}

#[test]
fn fma_cancels_multiply_cost() {
    let main = main_fn(vec![
        inst(1, SwppInstKind::Mul(InstMultiplication::new(c(3), c(5), r(1), BitWidth::Full))),
        eadd(2, r(2), reg(1), c(1)),
        write(3, reg(2)),
        ret(4, None),
    ]);
    assert_eq!(run_ok(vec![main], &[]), (vec![16], 10 + 30 + 1));
}

#[test]
fn fma_cancels_division_cost() {
    let main = main_fn(vec![
        inst(1, SwppInstKind::UDiv(InstUnsignedDivision::new(c(12), c(2), r(1), BitWidth::Full))),
        eadd(2, r(2), reg(1), c(0)),
        write(3, reg(2)),
        ret(4, None),
    ]);
    assert_eq!(run_ok(vec![main], &[]), (vec![6], 10 + 30 + 1));
}

#[test]
fn fma_cancels_remainder_cost() {
    let main = main_fn(vec![
        inst(
            1,
            SwppInstKind::URem(InstUnsignedRemainder::new(c(12), c(6), r(1), BitWidth::Full)),
        ),
        eadd(2, r(2), reg(1), c(0)),
        write(3, reg(2)),
        ret(4, None),
    ]);
    assert_eq!(run_ok(vec![main], &[]), (vec![0], 10 + 30 + 1));
}

#[test]
fn fma_preserves_mul_four_phobia() {
    let main = main_fn(vec![
        inst(1, SwppInstKind::Mul(InstMultiplication::new(c(4), c(3), r(1), BitWidth::Full))),
        eadd(2, r(2), reg(1), c(2)),
        write(3, reg(2)),
        ret(4, None),
    ]);
    assert_eq!(run_ok(vec![main], &[]), (vec![14], 10 + 10 + 30 + 1));
}

#[test]
fn deferred_cost_charged_before_other_instruction() {
    let main = main_fn(vec![
        inst(1, SwppInstKind::Mul(InstMultiplication::new(c(3), c(5), r(1), BitWidth::Full))),
        inst(2, SwppInstKind::Shl(InstShiftLeft::new(reg(1), c(1), r(2), BitWidth::Full))),
        write(3, reg(2)),
        ret(4, None),
    ]);
    assert_eq!(run_ok(vec![main], &[]), (vec![30], 2 + 10 + 30 + 1));
}

#[test]
fn four_phobia_basic() {
    let main = main_fn(vec![eadd(1, r(1), c(4), c(1)), write(2, reg(1)), ret(3, None)]);
    // 5 is odd: eadd pays 20, plus 10 for the operand 4
    assert_eq!(run_ok(vec![main], &[]), (vec![5], 20 + 10 + 30 + 1));
}

#[test]
fn four_phobia_once_with_two_values() {
    let main = main_fn(vec![eadd(1, r(1), c(4), c(4)), write(2, reg(1)), ret(3, None)]);
    assert_eq!(run_ok(vec![main], &[]), (vec![8], 10 + 10 + 30 + 1));
}

#[test]
fn four_phobia_once_with_size() {
    let main = main_fn(vec![
        store(1, AccessSize::Four, c(4), c(16)),
        load(2, r(1), AccessSize::Four, c(16)),
        write(3, reg(1)),
        ret(4, None),
    ]);
    // store: 30 + 10 once, although both its value and its size are 4; load: 30 + 10
    assert_eq!(run_ok(vec![main], &[]), (vec![4], 40 + 40 + 30 + 1));
}

#[test]
fn four_phobia_on_call_argument() {
    let main = main_fn(vec![write(1, c(4)), ret(2, None)]);
    assert_eq!(run_ok(vec![main], &[]), (vec![4], 30 + 10 + 1));
}

#[test]
fn signed_ashr_sign_extend_bw8() {
    let main = main_fn(vec![
        inst(
            1,
            SwppInstKind::Ashr(InstShiftRightArithmetic::new(c(255), c(1), r(1), BitWidth::Byte)),
        ),
        write(2, reg(1)),
        ret(3, None),
    ]);
    assert_eq!(run_ok(vec![main], &[]), (vec![255], 10 + 30 + 1));
}

#[test]
fn stdin_sum_to_n() {
    let main = function(
        "main",
        0,
        vec![
            block(
                "entry",
                1,
                vec![call(1, Some(r(1)), "read", vec![]), eadd(2, r(2), c(0), c(0)), br(3, "loop")],
            ),
            block(
                "loop",
                4,
                vec![
                    inst(
                        4,
                        SwppInstKind::Comp(
                            InstComparison::new(reg(1), c(0), ICMP::Eq, r(3), BitWidth::Full),
                        ),
                    ),
                    cbr(5, reg(3), "exit", "body"),
                ],
            ),
            block(
                "body",
                6,
                vec![eadd(6, r(2), reg(2), reg(1)), esub(7, r(1), reg(1), c(1)), br(8, "loop")],
            ),
            block("exit", 9, vec![write(9, reg(2)), ret(10, None)]),
        ],
    );
    assert_eq!(run_ok(vec![main], &[3]), (vec![6], 85 + 108 + 118 + 98 + 138 + 31));
}

#[test]
fn select_picks_by_condition() {
    let main = main_fn(vec![
        inst(1, SwppInstKind::Select(InstTernary::new(c(10), c(20), c(1), r(1)))),
        inst(2, SwppInstKind::Select(InstTernary::new(c(10), c(20), c(0), r(2)))),
        write(3, reg(1)),
        write(4, reg(2)),
        ret(5, None),
    ]);
    assert_eq!(run_ok(vec![main], &[]), (vec![20, 10], 3 + 3 + 30 + 30 + 1));
}

#[test]
fn heap_store_then_load() {
    let main = main_fn(vec![
        malloc(1, r(1), c(16)),
        store(2, AccessSize::Two, c(0x1234), reg(1)),
        load(3, r(2), AccessSize::Two, reg(1)),
        write(4, reg(2)),
        inst(5, SwppInstKind::Free(InstHeapFree::new(reg(1)))),
        ret(6, None),
    ]);
    // the store heats the accessed sector to 400; the load pays 400 / 10
    assert_eq!(
        run_ok(vec![main], &[]),
        (vec![0x1234], 150 + 50 + 90 + 30 + 150 + 1 + 16 * 1024)
    );
}

#[test]
fn bitwise_and_truncates_to_width() {
    let main = main_fn(vec![
        inst(1, SwppInstKind::And(InstBitwiseAnd::new(c(0x1ff), c(0xfff), r(1), BitWidth::Byte))),
        write(2, reg(1)),
        ret(3, None),
    ]);
    assert_eq!(run_ok(vec![main], &[]), (vec![0xff], 10 + 30 + 1));
}

#[test]
fn oadd_of_an_even_result_pays_more() {
    let main = main_fn(vec![
        inst(1, SwppInstKind::OAdd(InstOAdd::new(c(2), c(2), r(1), BitWidth::Full))),
        ret(2, None),
    ]);
    assert_eq!(run_ok(vec![main], &[]), (vec![], 20 + 1));
}

#[test]
fn error_invalid_condition_value() {
    let main = function(
        "main",
        0,
        vec![
            block("entry", 1, vec![cbr(7, c(2), "a", "a")]),
            block("a", 2, vec![ret(2, None)]),
        ],
    );
    let (result, _, _) = run(vec![main], &[]);
    let err = result.unwrap_err();
    assert!(matches!(err.get_kind(), SwppErrorKind::InvalidCondVal(2)));
    assert_eq!(err.get_loc(), 7);
}

#[test]
fn error_assign_to_argument_register() {
    let main = main_fn(vec![eadd(3, SwppRegisterName::Argument(1), c(1), c(1)), ret(4, None)]);
    let (result, _, _) = run(vec![main], &[]);
    let err = result.unwrap_err();
    assert!(matches!(err.get_kind(), SwppErrorKind::ArgRegAssign(SwppRegisterName::Argument(1))));
    assert_eq!(
        err.to_string(),
        "You cannot assign the value directly to the argument register arg1 : line 3"
    );
}

#[test]
fn error_unknown_function() {
    let main = main_fn(vec![call(2, None, "nothere", vec![]), ret(3, None)]);
    let (result, _, _) = run(vec![main], &[]);
    assert_eq!(result.unwrap_err().to_string(), "Function nothere isn't declared : line 2");
}

#[test]
fn error_wrong_argument_number() {
    let main = main_fn(vec![call(2, None, "write", vec![]), ret(3, None)]);
    let (result, _, _) = run(vec![main], &[]);
    assert_eq!(
        result.unwrap_err().to_string(),
        "Function write takes 1 arguments but you give 0 : line 2"
    );
}

#[test]
fn error_assign_from_function_without_value() {
    let main = main_fn(vec![call(2, Some(r(1)), "write", vec![c(5)]), ret(3, None)]);
    let (result, output, _) = run(vec![main], &[]);
    assert_eq!(output, vec![5]);
    assert_eq!(result.unwrap_err().to_string(), "write returns nothing. : line 2");
}

#[test]
fn error_no_main() {
    let f = function("f", 0, vec![block("entry", 1, vec![ret(1, None)])]);
    let (result, _, _) = run(vec![f], &[]);
    let err = result.unwrap_err();
    assert!(matches!(err.get_kind(), SwppErrorKind::NoMainFn));
    assert_eq!(err.to_string(), "Main Function does not exists : line 0");
}

#[test]
fn error_recursive_main_call() {
    let main = main_fn(vec![eadd(1, r(1), c(1), c(1)), call(2, None, "main", vec![]), ret(3, None)]);
    let (result, _, _) = run(vec![main], &[]);
    let err = result.unwrap_err();
    assert!(matches!(err.get_kind(), SwppErrorKind::RecursiveMainCall));
    assert_eq!(err.get_loc(), 2);
    assert_eq!(err.to_string(), "Main function cannot be recursively called : line 2");
}

#[test]
fn error_inside_call_is_reported_at_call() {
    let main = main_fn(vec![call(2, None, "f", vec![]), ret(3, None)]);
    let f = function(
        "f",
        0,
        vec![block(
            "entry",
            10,
            vec![inst(11, SwppInstKind::Assert(InstAssertion::new(c(1), c(2)))), ret(12, None)],
        )],
    );
    let (result, _, _) = run(vec![main, f], &[]);
    let err = result.unwrap_err();
    assert_eq!(err.get_loc(), 2);
    let dashes = "-------------------------------------------------";
    assert_eq!(
        err.to_string(),
        format!(
            "While running f, following error occurs \n{}\n Assertion Failed. Right side has value 2 while left side has value 1 : line 11 \n{}\n : line 2",
            dashes, dashes
        )
    );
}

#[test]
fn error_unknown_block() {
    let main = main_fn(vec![br(4, "missing")]);
    let (result, _, _) = run(vec![main], &[]);
    assert_eq!(result.unwrap_err().to_string(), "Block missing isn't declared : line 4");
}

#[test]
fn error_block_without_terminator() {
    let main = main_fn(vec![eadd(1, r(1), c(0), c(0))]);
    let (result, _, _) = run(vec![main], &[]);
    assert_eq!(result.unwrap_err().to_string(), "Block entry is not well formed : line 1");
}

#[test]
fn error_misaligned_load() {
    let main = main_fn(vec![load(5, r(1), AccessSize::Eight, c(4)), ret(6, None)]);
    let (result, _, _) = run(vec![main], &[]);
    assert_eq!(result.unwrap_err().to_string(), "4 should be multiple of 8 : line 5");
}

#[test]
fn error_address_between_stack_and_heap() {
    let main = main_fn(vec![load(5, r(1), AccessSize::Eight, c(150000)), ret(6, None)]);
    let (result, _, _) = run(vec![main], &[]);
    assert_eq!(
        result.unwrap_err().to_string(),
        "Error occurs while trying to access adress 150000 : line 5"
    );
}

#[test]
fn error_heap_alloc_size() {
    let main = main_fn(vec![malloc(5, r(1), c(12)), ret(6, None)]);
    let (result, _, _) = run(vec![main], &[]);
    assert_eq!(
        result.unwrap_err().to_string(),
        "Size for heap allocation 12 should be non-zero and multiple of 8 : line 5"
    );
}

#[test]
fn error_free_of_unallocated_address() {
    let main = main_fn(vec![inst(5, SwppInstKind::Free(InstHeapFree::new(c(204808)))), ret(6, None)]);
    let (result, _, _) = run(vec![main], &[]);
    assert_eq!(
        result.unwrap_err().to_string(),
        "Error occurs while trying to access adress 204808 : line 5"
    );
}

#[test]
fn free_of_null_is_allowed() {
    let main = main_fn(vec![inst(5, SwppInstKind::Free(InstHeapFree::new(c(153600)))), ret(6, None)]);
    assert_eq!(run_ok(vec![main], &[]), (vec![], 150 + 1));
}

#[test]
fn division_by_zero_would_fault() {
    let main = main_fn(vec![
        inst(1, SwppInstKind::UDiv(InstUnsignedDivision::new(c(1), c(0), r(1), BitWidth::Full))),
        ret(2, None),
    ]);
    let mut program = SwppProgram::new(SwppState::new(vec![main]), DummyLogger::new());
    program.start().unwrap();
    assert!(program.step_would_fault());
}

#[test]
fn shift_by_width_would_fault() {
    let main = main_fn(vec![
        inst(1, SwppInstKind::Shl(InstShiftLeft::new(c(1), c(64), r(1), BitWidth::Full))),
        ret(2, None),
    ]);
    let mut program = SwppProgram::new(SwppState::new(vec![main]), DummyLogger::new());
    program.start().unwrap();
    assert!(program.step_would_fault());
}

#[test]
fn call_with_seventeen_arguments_would_fault() {
    let args: Vec<Arg> = (0..17).map(c).collect();
    let main = main_fn(vec![call(1, None, "many", args), ret(2, None)]);
    let many = function("many", 17, vec![block("entry", 5, vec![ret(5, None)])]);
    let mut program = SwppProgram::new(SwppState::new(vec![main, many]), DummyLogger::new());
    program.start().unwrap();
    assert!(program.step_would_fault());
}

/// Keeps every record: line, instruction, cost, total cost, function; and the
/// depth of calls entered and not yet left.
struct RecordingLogger {
    rows: std::rc::Rc<std::cell::RefCell<Vec<(u64, String, u64, u64, String)>>>,
    depth: std::rc::Rc<std::cell::Cell<i64>>,
}

impl SwppLogger for RecordingLogger {
    fn log(&mut self, line_num: u64, inst: &str, cost: u64, total_cost: u64, ctxt: &SwppContext) {
        self.rows.borrow_mut().push((line_num, inst.to_string(), cost, total_cost, ctxt.get_fname()));
    }

    fn enter_fn(&mut self) {
        self.depth.set(self.depth.get() + 1);
    }

    fn exit_fn(&mut self) {
        self.depth.set(self.depth.get() - 1);
    }
}

#[test]
fn call_cost_before_callee() {
    let main = main_fn(vec![call(1, None, "f", vec![]), ret(2, None)]);
    let f = function("f", 0, vec![block("entry", 10, vec![eadd(10, r(1), c(1), c(1)), ret(11, None)])]);
    let rows = std::rc::Rc::new(std::cell::RefCell::new(Vec::new()));
    let depth = std::rc::Rc::new(std::cell::Cell::new(0));
    let logger = RecordingLogger { rows: rows.clone(), depth: depth.clone() };
    let mut program = SwppProgram::new(SwppState::new(vec![main, f]), logger);
    program.start().unwrap();
    loop {
        match program.step().unwrap() {
            StepAction::Finished => break,
            StepAction::Continue => {}
            _ => panic!("no input or output here"),
        }
    }
    assert_eq!(program.total_cost(), 30 + 10 + 1 + 1);
    assert_eq!(depth.get(), 0);
    let rows = rows.borrow();
    // the call is charged, in main, before the callee's first instruction
    assert_eq!(rows[0].0, 1);
    assert_eq!(rows[0].2, 30);
    assert_eq!(rows[0].3, 30);
    assert_eq!(rows[0].4, "main");
    assert_eq!(rows[1].0, 10);
    assert_eq!(rows[1].3, 40);
    assert_eq!(rows[1].4, "f");
}

fn recorded_run(functions: Vec<SwppFunction>) -> (Vec<(u64, String, u64, u64, String)>, i64) {
    let rows = std::rc::Rc::new(std::cell::RefCell::new(Vec::new()));
    let depth = std::rc::Rc::new(std::cell::Cell::new(0));
    let logger = RecordingLogger { rows: rows.clone(), depth: depth.clone() };
    let mut program = SwppProgram::new(SwppState::new(functions), logger);
    program.start().unwrap();
    loop {
        match program.step().unwrap() {
            StepAction::Finished => break,
            StepAction::Continue => {}
            _ => panic!("no input or output here"),
        }
    }
    let rows = rows.borrow().clone();
    (rows, depth.get())
}

fn row(line: u64, name: &str, cost: u64, total: u64) -> (u64, String, u64, u64, String) {
    (line, name.to_string(), cost, total, "main".to_string())
}

#[test]
fn fused_multiply_logs_its_cancelled_cost() {
    let mul = inst(1, SwppInstKind::Mul(InstMultiplication::new(c(3), c(5), r(1), BitWidth::Full)));
    let main = main_fn(vec![mul, eadd(2, r(2), reg(1), c(1)), ret(3, None)]);
    let (rows, depth) = recorded_run(vec![main]);
    assert_eq!(rows, vec![row(1, "Mul-FMA", 0, 0), row(2, "EAdd", 10, 10), row(3, "Ret", 1, 11)]);
    assert_eq!(depth, 0);
}

#[test]
fn deferred_cost_is_logged_when_charged() {
    let mul = inst(1, SwppInstKind::Mul(InstMultiplication::new(c(3), c(5), r(1), BitWidth::Full)));
    let main = main_fn(vec![mul, ret(2, None)]);
    let (rows, _) = recorded_run(vec![main]);
    assert_eq!(rows, vec![row(1, "Mul", 2, 2), row(2, "Ret", 1, 3)]);
}

#[test]
fn four_phobia_is_logged_before_the_base_cost() {
    let main = main_fn(vec![eadd(1, r(1), c(4), c(0)), ret(2, None)]);
    let (rows, _) = recorded_run(vec![main]);
    assert_eq!(rows, vec![row(1, "EAdd-4phobia", 10, 10), row(1, "EAdd", 10, 20), row(2, "Ret", 1, 21)]);
}

#[test]
fn instruction_naming_a_missing_register_faults_when_it_runs() {
    // a block that never runs may name a register that does not exist
    let main = function(
        "main",
        0,
        vec![
            block("entry", 1, vec![br(1, "ok")]),
            block("bad", 2, vec![eadd(2, r(33), c(1), c(1)), ret(3, None)]),
            block("ok", 4, vec![ret(4, None)]),
        ],
    );
    assert_eq!(run_ok(vec![main], &[]), (vec![], 45 + 1));
    let main = main_fn(vec![eadd(1, r(33), c(1), c(1)), ret(2, None)]);
    let mut program = SwppProgram::new(SwppState::new(vec![main]), DummyLogger::new());
    program.start().unwrap();
    assert!(program.step_would_fault());
}
