//! What an instruction does, as the specification sees it: the machine after
//! it, the register it writes, and what it returns; and the values computed
//! by the arithmetic instructions.
use vstd::prelude::*;

use crate::common::{
    trunc_div, trunc_rem, wrap64, AccessSize, Arg, BitWidth, ICMP,
    BASIC_COST_ARITH_INT_ADDSUB_RIGHT, BASIC_COST_ARITH_INT_ADDSUB_WRONG,
    BASIC_COST_MISC_FOUR_PHOBIA, FORWARD_BRANCH_COST_DENOMINATOR, FORWARD_BRANCH_COST_NUMERATOR,
};
use crate::error::ErrorKindView;
use crate::program::{raw_block_index, Machine};
use crate::register::{SwppRegisterName, SwppRegisterSet};

verus! {

/// The machine after a step, the register it wrote (if any) and its result.
pub struct Effect<T> {
    pub machine: Machine,
    pub write: Option<(SwppRegisterName, u64)>,
    pub result: Result<T, ErrorKindView>,
}

/// A step that stops with error `e`, leaving the machine at `m` and the registers alone.
pub open spec fn failed<T>(m: Machine, e: ErrorKindView) -> Effect<T> {
    Effect { machine: m, write: None, result: Err(e) }
}

/// `after` is `before` with the write `w`, if any, applied.
pub open spec fn regs_after(
    before: SwppRegisterSet,
    after: SwppRegisterSet,
    w: Option<(SwppRegisterName, u64)>,
) -> bool {
    match w {
        Some((r, v)) => before.is_update(after, r, v),
        None => after == before,
    }
}

/// Writing `v` to `t`: argument registers cannot be written; any other drops
/// its pending load debt and takes the value.
pub open spec fn write_effect<T>(m: Machine, t: SwppRegisterName, v: u64, ok: T) -> Effect<T> {
    if t.spec_is_arg() {
        failed(m, ErrorKindView::ArgRegAssign(t))
    } else {
        Effect { machine: m.set_debt(t, 0), write: Some((t, v)), result: Ok(ok) }
    }
}

/// The operands are read in order, `a` first; then `v` is written to `t`.
pub open spec fn binop_effect<T>(
    m: Machine,
    a: Arg,
    b: Arg,
    t: SwppRegisterName,
    v: u64,
    ok: T,
) -> Effect<T> {
    write_effect(m.read_arg(a).read_arg(b), t, v, ok)
}

/// The machine after reading the operands `args` in order.
pub open spec fn read_args(m: Machine, args: Seq<Arg>) -> Machine
    decreases args.len(),
{
    if args.len() == 0 {
        m
    } else {
        read_args(m, args.drop_last()).read_arg(args.last())
    }
}

/// The 4-phobia surcharge: charged once when an operand is the constant 4 or,
/// failing that, when the access moves four bytes.
pub open spec fn phobia_extra(args: Seq<Arg>, size: Option<AccessSize>) -> u64 {
    if args.contains(Arg::Const(4)) || (size matches Some(s) && s.spec_is_four_phobia()) {
        BASIC_COST_MISC_FOUR_PHOBIA
    } else {
        0
    }
}

/// The end of an instruction: its cost and surcharge are charged and elapse
/// for heat and debts, but for the excluded sectors and register.
pub open spec fn finished(
    m: Machine,
    cost: u64,
    extra: u64,
    sectors: Option<Seq<u64>>,
    excl: Option<SwppRegisterName>,
) -> Machine {
    let elapsed = (cost + extra) as u64;
    m.add_cost(elapsed as int).elapse(elapsed, sectors, excl)
}

/// The cost of a jump forward, given the cost of the same jump backward.
pub open spec fn forward_cost(base: u64) -> u64 {
    ((base * FORWARD_BRANCH_COST_NUMERATOR) as int / FORWARD_BRANCH_COST_DENOMINATOR as int) as u64
}

/// The cost of an add or sub: the cheap one when the parity of the result is
/// the one the instruction promised.
pub open spec fn parity_cost(v: u64, odd: bool) -> u64 {
    if (v % 2 == 1) == odd {
        BASIC_COST_ARITH_INT_ADDSUB_RIGHT
    } else {
        BASIC_COST_ARITH_INT_ADDSUB_WRONG
    }
}

pub open spec fn udiv_value(bw: BitWidth, x: u64, y: u64) -> u64 {
    bw.spec_read_u64(bw.spec_read_u64(x) / bw.spec_read_u64(y))
}

pub open spec fn urem_value(bw: BitWidth, x: u64, y: u64) -> u64 {
    bw.spec_read_u64(bw.spec_read_u64(x) % bw.spec_read_u64(y))
}

/// Signed division rounding toward zero, of the operands read as signed numbers
/// of the width; the low bits of the quotient.
pub open spec fn sdiv_value(bw: BitWidth, x: u64, y: u64) -> u64 {
    bw.spec_read_i64(
        trunc_div(bw.spec_sign_extend(x) as int, bw.spec_sign_extend(y) as int) as i64,
    ) as u64
}

pub open spec fn srem_value(bw: BitWidth, x: u64, y: u64) -> u64 {
    bw.spec_read_i64(
        trunc_rem(bw.spec_sign_extend(x) as int, bw.spec_sign_extend(y) as int) as i64,
    ) as u64
}

pub open spec fn mul_value(bw: BitWidth, x: u64, y: u64) -> u64 {
    bw.spec_read_u64(wrap64(bw.spec_read_u64(x) * bw.spec_read_u64(y)))
}

pub open spec fn shl_value(bw: BitWidth, x: u64, y: u64) -> u64 {
    bw.spec_read_u64(bw.spec_read_u64(x) << bw.spec_read_u64(y))
}

pub open spec fn lshr_value(bw: BitWidth, x: u64, y: u64) -> u64 {
    bw.spec_read_u64(bw.spec_read_u64(x) >> bw.spec_read_u64(y))
}

pub open spec fn ashr_value(bw: BitWidth, x: u64, y: u64) -> u64 {
    bw.spec_read_i64(bw.spec_sign_extend(x) >> bw.spec_read_u64(y)) as u64
}

pub open spec fn and_value(bw: BitWidth, x: u64, y: u64) -> u64 {
    bw.spec_read_u64(bw.spec_read_u64(x) & bw.spec_read_u64(y))
}

pub open spec fn or_value(bw: BitWidth, x: u64, y: u64) -> u64 {
    bw.spec_read_u64(bw.spec_read_u64(x) | bw.spec_read_u64(y))
}

pub open spec fn xor_value(bw: BitWidth, x: u64, y: u64) -> u64 {
    bw.spec_read_u64(bw.spec_read_u64(x) ^ bw.spec_read_u64(y))
}

pub open spec fn add_value(bw: BitWidth, x: u64, y: u64) -> u64 {
    bw.spec_read_u64(wrap64(bw.spec_read_u64(x) + bw.spec_read_u64(y)))
}

pub open spec fn sub_value(bw: BitWidth, x: u64, y: u64) -> u64 {
    bw.spec_read_u64(wrap64(bw.spec_read_u64(x) - bw.spec_read_u64(y)))
}

/// 1 when `cond` holds between the operands truncated to the width (read as
/// two's complement numbers for the signed predicates), else 0. At width 1
/// the signed predicates compare the bits as unsigned values.
pub open spec fn compare_value(cond: ICMP, bw: BitWidth, x: u64, y: u64) -> u64 {
    let xu = bw.spec_read_u64(x) as int;
    let yu = bw.spec_read_u64(y) as int;
    let holds = if bw == BitWidth::Bit {
        cond.spec_holds(xu, yu, xu, yu)
    } else {
        cond.spec_holds(xu, yu, bw.spec_sign_extend(x) as int, bw.spec_sign_extend(y) as int)
    };
    if holds {
        1
    } else {
        0
    }
}

/// Signed division of these operands would fault: by zero, or the most
/// negative number by -1.
pub open spec fn signed_div_faults(bw: BitWidth, x: u64, y: u64) -> bool {
    bw.spec_sign_extend(y) == 0 || (bw.spec_sign_extend(x) == i64::MIN && bw.spec_sign_extend(y)
        == -1)
}

/// Whether `target` lies after the current block of the current function,
/// or why the blocks cannot be found.
pub open spec fn forward_jump(m: Machine, target: Seq<char>) -> Result<bool, ErrorKindView> {
    match raw_block_index(m, m.fname, m.bname) {
        Err(e) => Err(e),
        Ok(cur) => match raw_block_index(m, m.fname, target) {
            Err(e) => Err(e),
            Ok(t) => Ok(t > cur),
        },
    }
}

} // verus!
