//! Instructions: one per numbered line, `N: ret`, `N: r1 = eadd r2 4 64`, ...
use std::collections::HashMap;

use vstd::prelude::*;

use crate::common::{AccessSize, Arg, BitWidth, ICMP};
use crate::inst::{
    InstAssertion, InstAsyncLoad, InstBitwiseAnd, InstBitwiseOr, InstBitwiseXor, InstComparison,
    InstCondBr, InstEAdd, InstESub, InstFunctionCall, InstHeapAllocation, InstHeapFree, InstLoad,
    InstMultiplication, InstOAdd, InstOSub, InstRet, InstShiftLeft, InstShiftRightArithmetic,
    InstShiftRightLogical, InstSignedDivision, InstSignedRemainder, InstStore, InstSwitch,
    InstTernary, InstUncondBr, InstUnsignedDivision, InstUnsignedRemainder, SwppInst, SwppInstKind,
};
use crate::parser::block::{bname_parser, spec_bname};
use crate::parser::common::{
    chars_of, has_tag, is_alpha, lemma_letters, number, read_number, scan_alpha, scan_line,
    scan_spaces, skip_alpha,
    skip_line, skip_spaces, slice_text, source, tag, text, ParsePanic, Parsed,
};
use crate::parser::function::{fname_parser, spec_fname};
use crate::parser::reg::{reg_parser, spec_reg};
use crate::parser::{line_num_parser, spec_line_num};
use crate::register::SwppRegisterName;

verus! {

/// The two-operand arithmetic operations.
#[derive(Debug, Clone, Copy, PartialEq, Eq, Structural)]
pub enum BinOp {
    UDiv,
    SDiv,
    URem,
    SRem,
    Mul,
    Shl,
    Lshr,
    Ashr,
    And,
    Or,
    Xor,
    EAdd,
    OAdd,
    ESub,
    OSub,
}

/// An instruction as written.
pub enum InstSyntax {
    Ret(Option<Arg>),
    UBranch(Seq<char>),
    /// condition, block if true, block if false
    Branch(Arg, Seq<char>, Seq<char>),
    /// condition, the cases in order, default block
    Switch(Arg, Seq<(u64, Seq<char>)>, Seq<char>),
    /// target, callee, arguments
    Call(Option<SwppRegisterName>, Seq<char>, Seq<Arg>),
    /// left, right
    Assert(Arg, Arg),
    /// target, size
    Malloc(SwppRegisterName, Arg),
    Free(Arg),
    /// target, size, address
    Load(SwppRegisterName, AccessSize, Arg),
    ALoad(SwppRegisterName, AccessSize, Arg),
    /// size, value, address
    Store(AccessSize, Arg, Arg),
    /// target, operation, operands, width
    Binary(SwppRegisterName, BinOp, Arg, Arg, BitWidth),
    /// target, predicate, operands, width
    Compare(SwppRegisterName, ICMP, Arg, Arg, BitWidth),
    /// target, condition, value if true, value if false
    Select(SwppRegisterName, Arg, Arg, Arg),
}

/// The jump table of the cases in order: a later case for a value replaces an earlier one.
pub open spec fn jump_table(cases: Seq<(u64, Seq<char>)>) -> Map<u64, Seq<char>>
    decreases cases.len(),
{
    if cases.len() == 0 {
        Map::empty()
    } else {
        jump_table(cases.drop_last()).insert(cases.last().0, cases.last().1)
    }
}

/// `k` is the two-operand operation `op` with these operands, target and width.
pub open spec fn binary_written_as(
    k: SwppInstKind,
    op: BinOp,
    ops: (Arg, Arg, SwppRegisterName, BitWidth),
) -> bool {
    match op {
        BinOp::UDiv => k matches SwppInstKind::UDiv(x) && x.operands() == ops,
        BinOp::SDiv => k matches SwppInstKind::SDiv(x) && x.operands() == ops,
        BinOp::URem => k matches SwppInstKind::URem(x) && x.operands() == ops,
        BinOp::SRem => k matches SwppInstKind::SRem(x) && x.operands() == ops,
        BinOp::Mul => k matches SwppInstKind::Mul(x) && x.operands() == ops,
        BinOp::Shl => k matches SwppInstKind::Shl(x) && x.operands() == ops,
        BinOp::Lshr => k matches SwppInstKind::Lshr(x) && x.operands() == ops,
        BinOp::Ashr => k matches SwppInstKind::Ashr(x) && x.operands() == ops,
        BinOp::And => k matches SwppInstKind::And(x) && x.operands() == ops,
        BinOp::Or => k matches SwppInstKind::Or(x) && x.operands() == ops,
        BinOp::Xor => k matches SwppInstKind::Xor(x) && x.operands() == ops,
        BinOp::EAdd => k matches SwppInstKind::EAdd(x) && x.operands() == ops,
        BinOp::OAdd => k matches SwppInstKind::OAdd(x) && x.operands() == ops,
        BinOp::ESub => k matches SwppInstKind::ESub(x) && x.operands() == ops,
        BinOp::OSub => k matches SwppInstKind::OSub(x) && x.operands() == ops,
    }
}

/// The instruction `i` is `syn` on line `line`.
pub open spec fn written_as(i: SwppInst, syn: InstSyntax, line: u64) -> bool {
    &&& i.spec_loc() == line
    &&& match syn {
        InstSyntax::Ret(v) => i.spec_kind() matches SwppInstKind::Ret(x) && x.spec_val() == v,
        InstSyntax::UBranch(t) => i.spec_kind() matches SwppInstKind::UBranch(x)
            && x.spec_target() == t,
        InstSyntax::Branch(c, t, f) => i.spec_kind() matches SwppInstKind::Branch(x)
            && x.spec_cond() == c && x.spec_true_target() == t && x.spec_false_target() == f,
        InstSyntax::Switch(c, cases, d) => i.spec_kind() matches SwppInstKind::Switch(x)
            && x.spec_cond() == c && x.spec_default() == d && x.spec_jump_map().dom()
            == jump_table(cases).dom() && forall|v: u64| #[trigger]
            jump_table(cases).contains_key(v) ==> x.spec_jump_map()[v]@ == jump_table(cases)[v],
        InstSyntax::Call(t, f, a) => i.spec_kind() matches SwppInstKind::FnCall(x)
            && x.spec_target() == t && x.spec_fname() == f && x.spec_args() == a,
        InstSyntax::Assert(l, r) => i.spec_kind() matches SwppInstKind::Assert(x) && x.spec_lhs()
            == l && x.spec_rhs() == r,
        InstSyntax::Malloc(t, a) => i.spec_kind() matches SwppInstKind::Malloc(x)
            && x.spec_target() == t && x.spec_size() == a,
        InstSyntax::Free(a) => i.spec_kind() matches SwppInstKind::Free(x) && x.spec_addr() == a,
        InstSyntax::Load(t, sz, a) => i.spec_kind() matches SwppInstKind::Load(x)
            && x.spec_target() == t && x.spec_size() == sz && x.spec_addr() == a,
        InstSyntax::ALoad(t, sz, a) => i.spec_kind() matches SwppInstKind::ALoad(x)
            && x.spec_target() == t && x.spec_size() == sz && x.spec_addr() == a,
        InstSyntax::Store(sz, v, a) => i.spec_kind() matches SwppInstKind::Store(x)
            && x.spec_size() == sz && x.spec_val() == v && x.spec_addr() == a,
        InstSyntax::Binary(t, op, a, b, bw) => binary_written_as(i.spec_kind(), op, (a, b, t, bw)),
        InstSyntax::Compare(t, c, a, b, bw) => i.spec_kind() matches SwppInstKind::Comp(x)
            && x.operands() == (a, b, t, bw) && x.spec_cond() == c,
        InstSyntax::Select(t, c, tv, fv) => i.spec_kind() matches SwppInstKind::Select(x)
            && x.spec_target() == t && x.spec_cond() == c && x.spec_true() == tv && x.spec_false()
            == fv,
    }
}

/// An operand: a register, or a constant in decimal (one too large for 64 bits crashes).
pub open spec fn spec_arg(s: Seq<u8>, i: int, e: int) -> Parsed<Arg> {
    match spec_reg(s, i, e) {
        Some((r, j)) => Parsed::Done(Arg::Reg(r), j),
        None => match number(s, i, e) {
            None => Parsed::NoMatch,
            Some((v, j)) => if v <= u64::MAX {
                Parsed::Done(Arg::Const(v as u64), j)
            } else {
                Parsed::Crash
            },
        },
    }
}

/// An operand after spaces.
pub open spec fn spec_sarg(s: Seq<u8>, i: int, e: int) -> Parsed<Arg> {
    spec_arg(s, scan_spaces(s, i, e), e)
}

/// `exec` found what `spec` describes.
pub open spec fn arg_found(spec: Parsed<Arg>, exec: Result<Option<(Arg, usize)>, ParsePanic>) -> bool {
    match spec {
        Parsed::Done(a, j) => exec matches Ok(Some((b, k))) && b == a && k == j,
        Parsed::NoMatch => exec matches Ok(None),
        Parsed::Crash => exec is Err,
    }
}

/// Parses an operand at `i`, before `e`.
fn arg_parser(s: &[u8], i: usize, e: usize) -> (res: Result<Option<(Arg, usize)>, ParsePanic>)
    requires
        i <= e <= s@.len(),
    ensures
        arg_found(spec_arg(s@, i as int, e as int), res),
        res matches Ok(Some((a, j))) ==> i < j <= e && a.wf(),
{
    match reg_parser(s, i, e) {
        Some((r, j)) => Ok(Some((Arg::Reg(r), j))),
        None => match read_number(s, i, e) {
            Some((Some(v), j)) => Ok(Some((Arg::Const(v), j))),
            Some((None, _)) => Err(ParsePanic),
            None => Ok(None),
        },
    }
}

/// Parses an operand after spaces at `i`, before `e`.
fn sarg_parser(s: &[u8], i: usize, e: usize) -> (res: Result<Option<(Arg, usize)>, ParsePanic>)
    requires
        i <= e <= s@.len(),
    ensures
        arg_found(spec_sarg(s@, i as int, e as int), res),
        res matches Ok(Some((a, j))) ==> i < j <= e && a.wf(),
{
    let j = skip_spaces(s, i, e);
    arg_parser(s, j, e)
}

/// Operands after spaces, as many as there are.
pub open spec fn spec_args(s: Seq<u8>, i: int, e: int) -> Parsed<Seq<Arg>>
    decreases e - i,
{
    match spec_sarg(s, i, e) {
        Parsed::Done(a, j) => if j <= i || j > e {
            Parsed::NoMatch
        } else {
            match spec_args(s, j, e) {
                Parsed::Done(rest, k) => Parsed::Done(seq![a] + rest, k),
                Parsed::NoMatch => Parsed::NoMatch,
                Parsed::Crash => Parsed::Crash,
            }
        },
        Parsed::NoMatch => Parsed::Done(Seq::empty(), i),
        Parsed::Crash => Parsed::Crash,
    }
}

/// The line number, the target register and `=`: `N: r1 = `.
pub open spec fn spec_assign(s: Seq<u8>, i: int, e: int) -> Option<(u64, SwppRegisterName, int)> {
    match spec_line_num(s, i, e) {
        None => None,
        Some((l, j)) => match spec_reg(s, j, e) {
            None => None,
            Some((t, k)) => {
                let p = scan_spaces(s, k, e);
                if has_tag(s, p, e, text("="@)) {
                    Some((l, t, scan_spaces(s, p + "="@.len(), e)))
                } else {
                    None
                }
            },
        },
    }
}

/// An access size after spaces: 1, 2, 4 or 8.
pub open spec fn spec_size(s: Seq<u8>, i: int, e: int) -> Option<(AccessSize, int)> {
    match number(s, scan_spaces(s, i, e), e) {
        None => None,
        Some((v, j)) => if v == 1 {
            Some((AccessSize::One, j))
        } else if v == 2 {
            Some((AccessSize::Two, j))
        } else if v == 4 {
            Some((AccessSize::Four, j))
        } else if v == 8 {
            Some((AccessSize::Eight, j))
        } else {
            None
        },
    }
}

/// A width after spaces: 1, 8, 16, 32 or 64.
pub open spec fn spec_bitwidth(s: Seq<u8>, i: int, e: int) -> Option<(BitWidth, int)> {
    match number(s, scan_spaces(s, i, e), e) {
        None => None,
        Some((v, j)) => if v == 1 {
            Some((BitWidth::Bit, j))
        } else if v == 8 {
            Some((BitWidth::Byte, j))
        } else if v == 16 {
            Some((BitWidth::Short, j))
        } else if v == 32 {
            Some((BitWidth::Quad, j))
        } else if v == 64 {
            Some((BitWidth::Full, j))
        } else {
            None
        },
    }
}

/// The name of a two-operand operation.
pub open spec fn spec_binop(s: Seq<u8>, i: int, e: int) -> Option<(BinOp, int)> {
    if has_tag(s, i, e, text("udiv"@)) {
        Some((BinOp::UDiv, i + "udiv"@.len()))
    } else if has_tag(s, i, e, text("sdiv"@)) {
        Some((BinOp::SDiv, i + "sdiv"@.len()))
    } else if has_tag(s, i, e, text("urem"@)) {
        Some((BinOp::URem, i + "urem"@.len()))
    } else if has_tag(s, i, e, text("srem"@)) {
        Some((BinOp::SRem, i + "srem"@.len()))
    } else if has_tag(s, i, e, text("mul"@)) {
        Some((BinOp::Mul, i + "mul"@.len()))
    } else if has_tag(s, i, e, text("shl"@)) {
        Some((BinOp::Shl, i + "shl"@.len()))
    } else if has_tag(s, i, e, text("lshr"@)) {
        Some((BinOp::Lshr, i + "lshr"@.len()))
    } else if has_tag(s, i, e, text("ashr"@)) {
        Some((BinOp::Ashr, i + "ashr"@.len()))
    } else if has_tag(s, i, e, text("and"@)) {
        Some((BinOp::And, i + "and"@.len()))
    } else if has_tag(s, i, e, text("or"@)) {
        Some((BinOp::Or, i + "or"@.len()))
    } else if has_tag(s, i, e, text("xor"@)) {
        Some((BinOp::Xor, i + "xor"@.len()))
    } else if has_tag(s, i, e, text("eadd"@)) {
        Some((BinOp::EAdd, i + "eadd"@.len()))
    } else if has_tag(s, i, e, text("oadd"@)) {
        Some((BinOp::OAdd, i + "oadd"@.len()))
    } else if has_tag(s, i, e, text("esub"@)) {
        Some((BinOp::ESub, i + "esub"@.len()))
    } else if has_tag(s, i, e, text("osub"@)) {
        Some((BinOp::OSub, i + "osub"@.len()))
    } else {
        None
    }
}

/// The predicate named by the letters `w`, if any.
pub open spec fn predicate_named(w: Seq<char>) -> Option<ICMP> {
    if w == "eq"@ {
        Some(ICMP::Eq)
    } else if w == "ne"@ {
        Some(ICMP::Ne)
    } else if w == "ugt"@ {
        Some(ICMP::Ugt)
    } else if w == "uge"@ {
        Some(ICMP::Uge)
    } else if w == "ult"@ {
        Some(ICMP::Ult)
    } else if w == "ule"@ {
        Some(ICMP::Ule)
    } else if w == "sgt"@ {
        Some(ICMP::Sgt)
    } else if w == "sge"@ {
        Some(ICMP::Sge)
    } else if w == "slt"@ {
        Some(ICMP::Slt)
    } else if w == "sle"@ {
        Some(ICMP::Sle)
    } else {
        None
    }
}

/// A parse that continues with `k` once `p` is done.
pub open spec fn and_then<A, B>(p: Parsed<A>, k: spec_fn(A, int) -> Parsed<B>) -> Parsed<B> {
    match p {
        Parsed::Done(a, j) => k(a, j),
        Parsed::NoMatch => Parsed::NoMatch,
        Parsed::Crash => Parsed::Crash,
    }
}

/// `N: ret` or `N: ret <val>`.
pub open spec fn spec_ret(s: Seq<u8>, i: int, e: int) -> Parsed<(InstSyntax, u64)> {
    match spec_line_num(s, i, e) {
        None => Parsed::NoMatch,
        Some((l, j)) => if !has_tag(s, j, e, text("ret"@)) {
            Parsed::NoMatch
        } else {
            let k = scan_spaces(s, j + "ret"@.len(), e);
            if k == e {
                Parsed::Done((InstSyntax::Ret(None), l), k)
            } else {
                and_then(
                    spec_arg(s, k, e),
                    |a: Arg, m: int| Parsed::Done((InstSyntax::Ret(Some(a)), l), m),
                )
            }
        },
    }
}


/// `N: br .<block>`.
pub open spec fn spec_ubranch(tx: Seq<char>, s: Seq<u8>, i: int, e: int) -> Parsed<(InstSyntax, u64)> {
    match spec_line_num(s, i, e) {
        None => Parsed::NoMatch,
        Some((l, j)) => if !has_tag(s, j, e, text("br"@)) {
            Parsed::NoMatch
        } else {
            match spec_bname(tx, s, scan_spaces(s, j + "br"@.len(), e), e) {
                None => Parsed::NoMatch,
                Some((t, k)) => Parsed::Done((InstSyntax::UBranch(t), l), k),
            }
        },
    }
}

/// `N: br <cond> .<true block> .<false block>`.
pub open spec fn spec_branch(tx: Seq<char>, s: Seq<u8>, i: int, e: int) -> Parsed<(InstSyntax, u64)> {
    match spec_line_num(s, i, e) {
        None => Parsed::NoMatch,
        Some((l, j)) => if !has_tag(s, j, e, text("br"@)) {
            Parsed::NoMatch
        } else {
            and_then(
                spec_sarg(s, j + "br"@.len(), e),
                |c: Arg, k: int|
                    match spec_bname(tx, s, scan_spaces(s, k, e), e) {
                        None => Parsed::NoMatch,
                        Some((t, m)) => match spec_bname(tx, s, scan_spaces(s, m, e), e) {
                            None => Parsed::NoMatch,
                            Some((f, q)) => Parsed::Done((InstSyntax::Branch(c, t, f), l), q),
                        },
                    },
            )
        },
    }
}

/// The cases of a switch, `<value> .<block>` each, up to the default block:
/// the cases with their values, the default, and the position after it.
pub open spec fn spec_cases(tx: Seq<char>, s: Seq<u8>, i: int, e: int) -> Option<
    (Seq<(nat, Seq<char>)>, Seq<char>, int),
>
    decreases e - i,
{
    match spec_bname(tx, s, scan_spaces(s, i, e), e) {
        Some((d, j)) => Some((Seq::empty(), d, j)),
        None => match number(s, scan_spaces(s, i, e), e) {
            None => None,
            Some((v, j)) => match spec_bname(tx, s, scan_spaces(s, j, e), e) {
                None => None,
                Some((b, k)) => if k <= i || k > e {
                    None
                } else {
                    match spec_cases(tx, s, k, e) {
                        None => None,
                        Some((rest, d, m)) => Some((seq![(v, b)] + rest, d, m)),
                    }
                },
            },
        },
    }
}

/// Every case value fits in 64 bits.
pub open spec fn cases_fit(cases: Seq<(nat, Seq<char>)>) -> bool {
    forall|k: int| 0 <= k < cases.len() ==> #[trigger] cases[k].0 <= u64::MAX
}

/// The cases with their values as 64-bit numbers.
pub open spec fn cases_u64(cases: Seq<(nat, Seq<char>)>) -> Seq<(u64, Seq<char>)> {
    cases.map_values(|c: (nat, Seq<char>)| (c.0 as u64, c.1))
}

/// `N: switch <cond> <value> .<block> ... .<default block>`.
pub open spec fn spec_switch(tx: Seq<char>, s: Seq<u8>, i: int, e: int) -> Parsed<(InstSyntax, u64)> {
    match spec_line_num(s, i, e) {
        None => Parsed::NoMatch,
        Some((l, j)) => if !has_tag(s, j, e, text("switch"@)) {
            Parsed::NoMatch
        } else {
            and_then(
                spec_sarg(s, j + "switch"@.len(), e),
                |c: Arg, k: int|
                    match spec_cases(tx, s, k, e) {
                        None => Parsed::NoMatch,
                        Some((cases, d, m)) => if cases_fit(cases) {
                            Parsed::Done((InstSyntax::Switch(c, cases_u64(cases), d), l), m)
                        } else {
                            Parsed::NoMatch
                        },
                    },
            )
        },
    }
}

/// `call <name> <args>` at `i`, with `target` taking the value.
pub open spec fn spec_call_rest(
    tx: Seq<char>,
    s: Seq<u8>,
    i: int,
    e: int,
    l: u64,
    target: Option<SwppRegisterName>,
) -> Parsed<(InstSyntax, u64)> {
    if !has_tag(s, i, e, text("call"@)) {
        Parsed::NoMatch
    } else {
        match spec_fname(tx, s, scan_spaces(s, i + "call"@.len(), e), e) {
            None => Parsed::NoMatch,
            Some((f, k)) => and_then(
                spec_args(s, k, e),
                |a: Seq<Arg>, m: int| Parsed::Done((InstSyntax::Call(target, f, a), l), m),
            ),
        }
    }
}

/// `N: call <name> <args>`.
pub open spec fn spec_fcall(tx: Seq<char>, s: Seq<u8>, i: int, e: int) -> Parsed<(InstSyntax, u64)> {
    match spec_line_num(s, i, e) {
        None => Parsed::NoMatch,
        Some((l, j)) => spec_call_rest(tx, s, j, e, l, None),
    }
}

/// `N: <reg> = call <name> <args>`.
pub open spec fn spec_fcall_assign(tx: Seq<char>, s: Seq<u8>, i: int, e: int) -> Parsed<(InstSyntax, u64)> {
    match spec_assign(s, i, e) {
        None => Parsed::NoMatch,
        Some((l, t, j)) => spec_call_rest(tx, s, j, e, l, Some(t)),
    }
}

/// `N: assert_eq <lhs> <rhs>`.
pub open spec fn spec_assert(s: Seq<u8>, i: int, e: int) -> Parsed<(InstSyntax, u64)> {
    match spec_line_num(s, i, e) {
        None => Parsed::NoMatch,
        Some((l, j)) => if !has_tag(s, j, e, text("assert_eq"@)) {
            Parsed::NoMatch
        } else {
            and_then(
                spec_sarg(s, j + "assert_eq"@.len(), e),
                |a: Arg, k: int|
                    and_then(
                        spec_sarg(s, k, e),
                        |b: Arg, m: int| Parsed::Done((InstSyntax::Assert(a, b), l), m),
                    ),
            )
        },
    }
}

/// `N: <reg> = malloc <size>`.
pub open spec fn spec_malloc(s: Seq<u8>, i: int, e: int) -> Parsed<(InstSyntax, u64)> {
    match spec_assign(s, i, e) {
        None => Parsed::NoMatch,
        Some((l, t, j)) => if !has_tag(s, j, e, text("malloc"@)) {
            Parsed::NoMatch
        } else {
            and_then(
                spec_sarg(s, j + "malloc"@.len(), e),
                |a: Arg, k: int| Parsed::Done((InstSyntax::Malloc(t, a), l), k),
            )
        },
    }
}

/// `N: free <addr>`.
pub open spec fn spec_free(s: Seq<u8>, i: int, e: int) -> Parsed<(InstSyntax, u64)> {
    match spec_line_num(s, i, e) {
        None => Parsed::NoMatch,
        Some((l, j)) => if !has_tag(s, j, e, text("free"@)) {
            Parsed::NoMatch
        } else {
            and_then(
                spec_sarg(s, j + "free"@.len(), e),
                |a: Arg, k: int| Parsed::Done((InstSyntax::Free(a), l), k),
            )
        },
    }
}

/// `N: <reg> = load <size> <addr>`, or `aload` when `asynchronous`.
pub open spec fn spec_load(s: Seq<u8>, i: int, e: int, asynchronous: bool) -> Parsed<
    (InstSyntax, u64),
> {
    match spec_assign(s, i, e) {
        None => Parsed::NoMatch,
        Some((l, t, j)) => {
            let word = if asynchronous {
                "aload"@
            } else {
                "load"@
            };
            if !has_tag(s, j, e, text(word)) {
                Parsed::NoMatch
            } else {
                match spec_size(s, j + word.len(), e) {
                    None => Parsed::NoMatch,
                    Some((sz, k)) => and_then(
                        spec_sarg(s, k, e),
                        |a: Arg, m: int|
                            Parsed::Done(
                                (
                                    if asynchronous {
                                        InstSyntax::ALoad(t, sz, a)
                                    } else {
                                        InstSyntax::Load(t, sz, a)
                                    },
                                    l,
                                ),
                                m,
                            ),
                    ),
                }
            }
        },
    }
}

/// `N: store <size> <value> <addr>`.
pub open spec fn spec_store(s: Seq<u8>, i: int, e: int) -> Parsed<(InstSyntax, u64)> {
    match spec_line_num(s, i, e) {
        None => Parsed::NoMatch,
        Some((l, j)) => if !has_tag(s, j, e, text("store"@)) {
            Parsed::NoMatch
        } else {
            match spec_size(s, j + "store"@.len(), e) {
                None => Parsed::NoMatch,
                Some((sz, k)) => and_then(
                    spec_sarg(s, k, e),
                    |v: Arg, m: int|
                        and_then(
                            spec_sarg(s, m, e),
                            |a: Arg, q: int| Parsed::Done((InstSyntax::Store(sz, v, a), l), q),
                        ),
                ),
            }
        },
    }
}

/// `N: <reg> = <op> <lhs> <rhs> <width>`.
pub open spec fn spec_binary(s: Seq<u8>, i: int, e: int) -> Parsed<(InstSyntax, u64)> {
    match spec_assign(s, i, e) {
        None => Parsed::NoMatch,
        Some((l, t, j)) => match spec_binop(s, j, e) {
            None => Parsed::NoMatch,
            Some((op, k)) => and_then(
                spec_sarg(s, k, e),
                |a: Arg, m: int|
                    and_then(
                        spec_sarg(s, m, e),
                        |b: Arg, q: int|
                            match spec_bitwidth(s, q, e) {
                                None => Parsed::NoMatch,
                                Some((bw, r)) => Parsed::Done(
                                    (InstSyntax::Binary(t, op, a, b, bw), l),
                                    r,
                                ),
                            },
                    ),
            ),
        },
    }
}

/// `N: <reg> = icmp <pred> <lhs> <rhs> <width>`. An unknown predicate crashes,
/// and so do the vector forms `vicmp` and `vpicmp`.
pub open spec fn spec_comparison(s: Seq<u8>, i: int, e: int) -> Parsed<(InstSyntax, u64)> {
    match spec_assign(s, i, e) {
        None => Parsed::NoMatch,
        Some((l, t, j)) => {
            let op = if has_tag(s, j, e, text("icmp"@)) {
                Some((true, j + "icmp"@.len()))
            } else if has_tag(s, j, e, text("vicmp"@)) {
                Some((false, j + "vicmp"@.len()))
            } else if has_tag(s, j, e, text("vpicmp"@)) {
                Some((false, j + "vpicmp"@.len()))
            } else {
                None
            };
            match op {
                None => Parsed::NoMatch,
                Some((scalar, k)) => {
                    let p = scan_spaces(s, k, e);
                    let q = scan_alpha(s, p, e);
                    if q == p {
                        Parsed::NoMatch
                    } else {
                        match predicate_named(chars_of(s.subrange(p, q))) {
                            None => Parsed::Crash,
                            Some(c) => and_then(
                                spec_sarg(s, q, e),
                                |a: Arg, m: int|
                                    and_then(
                                        spec_sarg(s, m, e),
                                        |b: Arg, r: int|
                                            match spec_bitwidth(s, r, e) {
                                                None => Parsed::NoMatch,
                                                Some((bw, u)) => if scalar {
                                                    Parsed::Done(
                                                        (InstSyntax::Compare(t, c, a, b, bw), l),
                                                        u,
                                                    )
                                                } else {
                                                    Parsed::Crash
                                                },
                                            },
                                    ),
                            ),
                        }
                    }
                },
            }
        },
    }
}

/// `N: <reg> = select <cond> <if true> <if false>`.
pub open spec fn spec_select(s: Seq<u8>, i: int, e: int) -> Parsed<(InstSyntax, u64)> {
    match spec_assign(s, i, e) {
        None => Parsed::NoMatch,
        Some((l, t, j)) => if !has_tag(s, j, e, text("select"@)) {
            Parsed::NoMatch
        } else {
            and_then(
                spec_sarg(s, j + "select"@.len(), e),
                |c: Arg, k: int|
                    and_then(
                        spec_sarg(s, k, e),
                        |tv: Arg, m: int|
                            and_then(
                                spec_sarg(s, m, e),
                                |fv: Arg, q: int|
                                    Parsed::Done((InstSyntax::Select(t, c, tv, fv), l), q),
                            ),
                    ),
            )
        },
    }
}

/// `p`, unless it found no match; then `q`.
pub open spec fn or_else<T>(p: Parsed<T>, q: Parsed<T>) -> Parsed<T> {
    if p is NoMatch {
        q
    } else {
        p
    }
}

/// The first of the instruction forms that matches the line `s[i..e]`, tried
/// in this order.
pub open spec fn spec_inst_line(tx: Seq<char>, s: Seq<u8>, i: int, e: int) -> Parsed<(InstSyntax, u64)> {
    or_else(spec_ret(s, i, e),
    or_else(spec_ubranch(tx, s, i, e),
    or_else(spec_branch(tx, s, i, e),
    or_else(spec_switch(tx, s, i, e),
    or_else(spec_fcall(tx, s, i, e),
    or_else(spec_fcall_assign(tx, s, i, e),
    or_else(spec_assert(s, i, e),
    or_else(spec_malloc(s, i, e),
    or_else(spec_free(s, i, e),
    or_else(spec_load(s, i, e, false),
    or_else(spec_load(s, i, e, true),
    or_else(spec_store(s, i, e),
    or_else(spec_binary(s, i, e),
    or_else(spec_comparison(s, i, e),
    spec_select(s, i, e)))))))))))))))
}

/// An instruction line at `i`: after spaces, the line up to its end is one of
/// the instruction forms; the position after it is the end of the line.
#[verifier::opaque]
pub open spec fn spec_inst(tx: Seq<char>, s: Seq<u8>, i: int, e: int) -> Parsed<(InstSyntax, u64)> {
    let j = scan_spaces(s, i, e);
    let k = scan_line(s, j, e);
    if k == j {
        Parsed::NoMatch
    } else {
        match spec_inst_line(tx, s, j, k) {
            Parsed::Done(v, _) => Parsed::Done(v, k),
            Parsed::NoMatch => Parsed::NoMatch,
            Parsed::Crash => Parsed::Crash,
        }
    }
}

/// `exec` built the instruction that `spec` describes.
pub open spec fn inst_found(
    spec: Parsed<(InstSyntax, u64)>,
    exec: Result<Option<(SwppInst, usize)>, ParsePanic>,
) -> bool {
    match spec {
        Parsed::Done((syn, l), j) => exec matches Ok(Some((inst, k))) && k == j && written_as(
            inst,
            syn,
            l,
        ),
        Parsed::NoMatch => exec matches Ok(None),
        Parsed::Crash => exec is Err,
    }
}


/// Parses the line number, the target register and `=` at `i`, before `e`.
fn assign_parser(s: &[u8], i: usize, e: usize) -> (res: Option<(u64, SwppRegisterName, usize)>)
    requires
        i <= e <= s@.len(),
    ensures
        match spec_assign(s@, i as int, e as int) {
            Some((l, t, j)) => res matches Some((l2, t2, k)) && l2 == l && t2 == t && k == j,
            None => res is None,
        },
        res matches Some((_, t, j)) ==> i < j <= e && t.wf(),
{
    proof {
        reveal_strlit("=");
    }
    let (l, j) = match line_num_parser(s, i, e) {
        Some(r) => r,
        None => return None,
    };
    let (t, k) = match reg_parser(s, j, e) {
        Some(r) => r,
        None => return None,
    };
    let p = skip_spaces(s, k, e);
    match tag(s, p, e, "=") {
        Some(q) => Some((l, t, skip_spaces(s, q, e))),
        None => None,
    }
}

/// Parses an access size after spaces at `i`, before `e`.
fn size_parser(s: &[u8], i: usize, e: usize) -> (res: Option<(AccessSize, usize)>)
    requires
        i <= e <= s@.len(),
    ensures
        match spec_size(s@, i as int, e as int) {
            Some((sz, j)) => res matches Some((sz2, k)) && sz2 == sz && k == j,
            None => res is None,
        },
        res matches Some((_, j)) ==> i < j <= e,
{
    let p = skip_spaces(s, i, e);
    match read_number(s, p, e) {
        Some((Some(v), j)) => if v == 1 {
            Some((AccessSize::One, j))
        } else if v == 2 {
            Some((AccessSize::Two, j))
        } else if v == 4 {
            Some((AccessSize::Four, j))
        } else if v == 8 {
            Some((AccessSize::Eight, j))
        } else {
            None
        },
        _ => None,
    }
}

/// Parses a width after spaces at `i`, before `e`.
fn bitwidth_parser(s: &[u8], i: usize, e: usize) -> (res: Option<(BitWidth, usize)>)
    requires
        i <= e <= s@.len(),
    ensures
        match spec_bitwidth(s@, i as int, e as int) {
            Some((bw, j)) => res matches Some((bw2, k)) && bw2 == bw && k == j,
            None => res is None,
        },
        res matches Some((_, j)) ==> i < j <= e,
{
    let p = skip_spaces(s, i, e);
    match read_number(s, p, e) {
        Some((Some(v), j)) => if v == 1 {
            Some((BitWidth::Bit, j))
        } else if v == 8 {
            Some((BitWidth::Byte, j))
        } else if v == 16 {
            Some((BitWidth::Short, j))
        } else if v == 32 {
            Some((BitWidth::Quad, j))
        } else if v == 64 {
            Some((BitWidth::Full, j))
        } else {
            None
        },
        _ => None,
    }
}

/// Parses the operands after spaces at `i`, before `e`, as many as there are.
fn args_parser(s: &[u8], i: usize, e: usize) -> (res: Result<Option<(Vec<Arg>, usize)>, ParsePanic>)
    requires
        i <= e <= s@.len(),
    ensures
        match spec_args(s@, i as int, e as int) {
            Parsed::Done(a, j) => res matches Ok(Some((v, k))) && v@ == a && k == j,
            Parsed::NoMatch => res matches Ok(None),
            Parsed::Crash => res is Err,
        },
        res matches Ok(Some((v, j))) ==> i <= j <= e && forall|k: int|
            0 <= k < v@.len() ==> (#[trigger] v@[k]).wf(),
{
    let mut acc: Vec<Arg> = Vec::new();
    let mut p = i;
    loop
        invariant
            i <= p <= e <= s@.len(),
            forall|k: int| 0 <= k < acc@.len() ==> (#[trigger] acc@[k]).wf(),
            match spec_args(s@, p as int, e as int) {
                Parsed::Done(rest, q) => spec_args(s@, i as int, e as int) == Parsed::Done(
                    acc@ + rest,
                    q,
                ),
                Parsed::NoMatch => spec_args(s@, i as int, e as int) is NoMatch,
                Parsed::Crash => spec_args(s@, i as int, e as int) is Crash,
            },
        decreases e - p,
    {
        match sarg_parser(s, p, e)? {
            Some((a, j)) => {
                proof {
                    let tail = spec_args(s@, j as int, e as int);
                    if let Parsed::Done(rest, q) = tail {
                        assert(acc@ + (seq![a] + rest) =~= acc@.push(a) + rest);
                    }
                }
                acc.push(a);
                p = j;
            },
            None => {
                proof {
                    assert(acc@ + Seq::<Arg>::empty() =~= acc@);
                }
                return Ok(Some((acc, p)));
            },
        }
    }
}

/// Parses `N: ret` or `N: ret <val>` at `i`, before `e`.
fn ret_parser(src: &[char], s: &[u8], i: usize, e: usize) -> (res: Result<
    Option<(SwppInst, usize)>,
    ParsePanic,
>)
    requires
        source(src, s@),
        i <= e <= s@.len(),
    ensures
        inst_found(spec_ret(s@, i as int, e as int), res),
        res matches Ok(Some((inst, j))) ==> i < j <= e && inst.wf(),
{
    proof {
        reveal_strlit("ret");
    }
    let (l, j) = match line_num_parser(s, i, e) {
        Some(r) => r,
        None => return Ok(None),
    };
    let k = match tag(s, j, e, "ret") {
        Some(k) => skip_spaces(s, k, e),
        None => return Ok(None),
    };
    if k == e {
        Ok(Some((SwppInst::new(SwppInstKind::Ret(InstRet::new(None)), l), k)))
    } else {
        match arg_parser(s, k, e)? {
            Some((a, m)) => Ok(Some((SwppInst::new(SwppInstKind::Ret(InstRet::new(Some(a))), l), m))),
            None => Ok(None),
        }
    }
}

/// Parses `N: br .<block>` at `i`, before `e`.
fn ubranch_parser(src: &[char], s: &[u8], i: usize, e: usize) -> (res: Result<
    Option<(SwppInst, usize)>,
    ParsePanic,
>)
    requires
        source(src, s@),
        i <= e <= s@.len(),
    ensures
        inst_found(spec_ubranch(src@, s@, i as int, e as int), res),
        res matches Ok(Some((inst, j))) ==> i < j <= e && inst.wf(),
{
    proof {
        reveal_strlit("br");
    }
    let (l, j) = match line_num_parser(s, i, e) {
        Some(r) => r,
        None => return Ok(None),
    };
    let k = match tag(s, j, e, "br") {
        Some(k) => skip_spaces(s, k, e),
        None => return Ok(None),
    };
    match bname_parser(src, s, k, e) {
        Some((t, m)) => Ok(Some((SwppInst::new(SwppInstKind::UBranch(InstUncondBr::new(t)), l), m))),
        None => Ok(None),
    }
}

/// Parses `N: br <cond> .<true block> .<false block>` at `i`, before `e`.
fn branch_parser(src: &[char], s: &[u8], i: usize, e: usize) -> (res: Result<
    Option<(SwppInst, usize)>,
    ParsePanic,
>)
    requires
        source(src, s@),
        i <= e <= s@.len(),
    ensures
        inst_found(spec_branch(src@, s@, i as int, e as int), res),
        res matches Ok(Some((inst, j))) ==> i < j <= e && inst.wf(),
{
    proof {
        reveal_strlit("br");
    }
    let (l, j) = match line_num_parser(s, i, e) {
        Some(r) => r,
        None => return Ok(None),
    };
    let k = match tag(s, j, e, "br") {
        Some(k) => k,
        None => return Ok(None),
    };
    let (c, m) = match sarg_parser(s, k, e)? {
        Some(r) => r,
        None => return Ok(None),
    };
    let p = skip_spaces(s, m, e);
    let (t, q) = match bname_parser(src, s, p, e) {
        Some(r) => r,
        None => return Ok(None),
    };
    let p2 = skip_spaces(s, q, e);
    match bname_parser(src, s, p2, e) {
        Some((f, r)) => Ok(Some((SwppInst::new(SwppInstKind::Branch(InstCondBr::new(c, t, f)), l), r))),
        None => Ok(None),
    }
}

/// Parses `N: assert_eq <lhs> <rhs>` at `i`, before `e`.
fn assertion_parser(src: &[char], s: &[u8], i: usize, e: usize) -> (res: Result<
    Option<(SwppInst, usize)>,
    ParsePanic,
>)
    requires
        source(src, s@),
        i <= e <= s@.len(),
    ensures
        inst_found(spec_assert(s@, i as int, e as int), res),
        res matches Ok(Some((inst, j))) ==> i < j <= e && inst.wf(),
{
    proof {
        reveal_strlit("assert_eq");
    }
    let (l, j) = match line_num_parser(s, i, e) {
        Some(r) => r,
        None => return Ok(None),
    };
    let k = match tag(s, j, e, "assert_eq") {
        Some(k) => k,
        None => return Ok(None),
    };
    let (a, m) = match sarg_parser(s, k, e)? {
        Some(r) => r,
        None => return Ok(None),
    };
    match sarg_parser(s, m, e)? {
        Some((b, q)) => Ok(Some((SwppInst::new(SwppInstKind::Assert(InstAssertion::new(a, b)), l), q))),
        None => Ok(None),
    }
}

/// Parses `N: <reg> = malloc <size>` at `i`, before `e`.
fn malloc_parser(src: &[char], s: &[u8], i: usize, e: usize) -> (res: Result<
    Option<(SwppInst, usize)>,
    ParsePanic,
>)
    requires
        source(src, s@),
        i <= e <= s@.len(),
    ensures
        inst_found(spec_malloc(s@, i as int, e as int), res),
        res matches Ok(Some((inst, j))) ==> i < j <= e && inst.wf(),
{
    proof {
        reveal_strlit("malloc");
    }
    let (l, t, j) = match assign_parser(s, i, e) {
        Some(r) => r,
        None => return Ok(None),
    };
    let k = match tag(s, j, e, "malloc") {
        Some(k) => k,
        None => return Ok(None),
    };
    match sarg_parser(s, k, e)? {
        Some((a, m)) => Ok(Some(
            (SwppInst::new(SwppInstKind::Malloc(InstHeapAllocation::new(t, a)), l), m),
        )),
        None => Ok(None),
    }
}

/// Parses `N: free <addr>` at `i`, before `e`.
fn free_parser(src: &[char], s: &[u8], i: usize, e: usize) -> (res: Result<
    Option<(SwppInst, usize)>,
    ParsePanic,
>)
    requires
        source(src, s@),
        i <= e <= s@.len(),
    ensures
        inst_found(spec_free(s@, i as int, e as int), res),
        res matches Ok(Some((inst, j))) ==> i < j <= e && inst.wf(),
{
    proof {
        reveal_strlit("free");
    }
    let (l, j) = match line_num_parser(s, i, e) {
        Some(r) => r,
        None => return Ok(None),
    };
    let k = match tag(s, j, e, "free") {
        Some(k) => k,
        None => return Ok(None),
    };
    match sarg_parser(s, k, e)? {
        Some((a, m)) => Ok(Some((SwppInst::new(SwppInstKind::Free(InstHeapFree::new(a)), l), m))),
        None => Ok(None),
    }
}

/// Parses `N: <reg> = load <size> <addr>` at `i`, before `e`.
fn load_parser(src: &[char], s: &[u8], i: usize, e: usize) -> (res: Result<
    Option<(SwppInst, usize)>,
    ParsePanic,
>)
    requires
        source(src, s@),
        i <= e <= s@.len(),
    ensures
        inst_found(spec_load(s@, i as int, e as int, false), res),
        res matches Ok(Some((inst, j))) ==> i < j <= e && inst.wf(),
{
    proof {
        reveal_strlit("load");
    }
    let (l, t, j) = match assign_parser(s, i, e) {
        Some(r) => r,
        None => return Ok(None),
    };
    let k = match tag(s, j, e, "load") {
        Some(k) => k,
        None => return Ok(None),
    };
    let (sz, m) = match size_parser(s, k, e) {
        Some(r) => r,
        None => return Ok(None),
    };
    match sarg_parser(s, m, e)? {
        Some((a, q)) => Ok(Some((SwppInst::new(SwppInstKind::Load(InstLoad::new(t, a, sz)), l), q))),
        None => Ok(None),
    }
}

/// Parses `N: <reg> = aload <size> <addr>` at `i`, before `e`.
fn aload_parser(src: &[char], s: &[u8], i: usize, e: usize) -> (res: Result<
    Option<(SwppInst, usize)>,
    ParsePanic,
>)
    requires
        source(src, s@),
        i <= e <= s@.len(),
    ensures
        inst_found(spec_load(s@, i as int, e as int, true), res),
        res matches Ok(Some((inst, j))) ==> i < j <= e && inst.wf(),
{
    proof {
        reveal_strlit("aload");
    }
    let (l, t, j) = match assign_parser(s, i, e) {
        Some(r) => r,
        None => return Ok(None),
    };
    let k = match tag(s, j, e, "aload") {
        Some(k) => k,
        None => return Ok(None),
    };
    let (sz, m) = match size_parser(s, k, e) {
        Some(r) => r,
        None => return Ok(None),
    };
    match sarg_parser(s, m, e)? {
        Some((a, q)) => Ok(Some(
            (SwppInst::new(SwppInstKind::ALoad(InstAsyncLoad::new(t, a, sz)), l), q),
        )),
        None => Ok(None),
    }
}

/// Parses `N: store <size> <value> <addr>` at `i`, before `e`.
fn store_parser(src: &[char], s: &[u8], i: usize, e: usize) -> (res: Result<
    Option<(SwppInst, usize)>,
    ParsePanic,
>)
    requires
        source(src, s@),
        i <= e <= s@.len(),
    ensures
        inst_found(spec_store(s@, i as int, e as int), res),
        res matches Ok(Some((inst, j))) ==> i < j <= e && inst.wf(),
{
    proof {
        reveal_strlit("store");
    }
    let (l, j) = match line_num_parser(s, i, e) {
        Some(r) => r,
        None => return Ok(None),
    };
    let k = match tag(s, j, e, "store") {
        Some(k) => k,
        None => return Ok(None),
    };
    let (sz, m) = match size_parser(s, k, e) {
        Some(r) => r,
        None => return Ok(None),
    };
    let (v, q) = match sarg_parser(s, m, e)? {
        Some(r) => r,
        None => return Ok(None),
    };
    match sarg_parser(s, q, e)? {
        Some((a, r)) => Ok(Some((SwppInst::new(SwppInstKind::Store(InstStore::new(v, a, sz)), l), r))),
        None => Ok(None),
    }
}

/// Parses `N: <reg> = select <cond> <if true> <if false>` at `i`, before `e`.
fn ternary_parser(src: &[char], s: &[u8], i: usize, e: usize) -> (res: Result<
    Option<(SwppInst, usize)>,
    ParsePanic,
>)
    requires
        source(src, s@),
        i <= e <= s@.len(),
    ensures
        inst_found(spec_select(s@, i as int, e as int), res),
        res matches Ok(Some((inst, j))) ==> i < j <= e && inst.wf(),
{
    proof {
        reveal_strlit("select");
    }
    let (l, t, j) = match assign_parser(s, i, e) {
        Some(r) => r,
        None => return Ok(None),
    };
    let k = match tag(s, j, e, "select") {
        Some(k) => k,
        None => return Ok(None),
    };
    let (c, m) = match sarg_parser(s, k, e)? {
        Some(r) => r,
        None => return Ok(None),
    };
    let (tv, q) = match sarg_parser(s, m, e)? {
        Some(r) => r,
        None => return Ok(None),
    };
    match sarg_parser(s, q, e)? {
        Some((fv, r)) => Ok(Some(
            (SwppInst::new(SwppInstKind::Select(InstTernary::new(fv, tv, c, t)), l), r),
        )),
        None => Ok(None),
    }
}


/// Parses the name of a two-operand operation at `i`, before `e`.
fn binop_parser(s: &[u8], i: usize, e: usize) -> (res: Option<(BinOp, usize)>)
    requires
        i <= e <= s@.len(),
    ensures
        match spec_binop(s@, i as int, e as int) {
            Some((op, j)) => res matches Some((op2, k)) && op2 == op && k == j,
            None => res is None,
        },
        res matches Some((_, j)) ==> i < j <= e,
{
    proof {
        reveal_strlit("udiv");
        reveal_strlit("sdiv");
        reveal_strlit("urem");
        reveal_strlit("srem");
        reveal_strlit("mul");
        reveal_strlit("shl");
        reveal_strlit("lshr");
        reveal_strlit("ashr");
        reveal_strlit("and");
        reveal_strlit("or");
        reveal_strlit("xor");
        reveal_strlit("eadd");
        reveal_strlit("oadd");
        reveal_strlit("esub");
        reveal_strlit("osub");
    }
    if let Some(j) = tag(s, i, e, "udiv") {
        Some((BinOp::UDiv, j))
    } else if let Some(j) = tag(s, i, e, "sdiv") {
        Some((BinOp::SDiv, j))
    } else if let Some(j) = tag(s, i, e, "urem") {
        Some((BinOp::URem, j))
    } else if let Some(j) = tag(s, i, e, "srem") {
        Some((BinOp::SRem, j))
    } else if let Some(j) = tag(s, i, e, "mul") {
        Some((BinOp::Mul, j))
    } else if let Some(j) = tag(s, i, e, "shl") {
        Some((BinOp::Shl, j))
    } else if let Some(j) = tag(s, i, e, "lshr") {
        Some((BinOp::Lshr, j))
    } else if let Some(j) = tag(s, i, e, "ashr") {
        Some((BinOp::Ashr, j))
    } else if let Some(j) = tag(s, i, e, "and") {
        Some((BinOp::And, j))
    } else if let Some(j) = tag(s, i, e, "or") {
        Some((BinOp::Or, j))
    } else if let Some(j) = tag(s, i, e, "xor") {
        Some((BinOp::Xor, j))
    } else if let Some(j) = tag(s, i, e, "eadd") {
        Some((BinOp::EAdd, j))
    } else if let Some(j) = tag(s, i, e, "oadd") {
        Some((BinOp::OAdd, j))
    } else if let Some(j) = tag(s, i, e, "esub") {
        Some((BinOp::ESub, j))
    } else if let Some(j) = tag(s, i, e, "osub") {
        Some((BinOp::OSub, j))
    } else {
        None
    }
}

/// The two-operand instruction `op` with these operands, target and width.
fn binary_kind(op: BinOp, a: Arg, b: Arg, t: SwppRegisterName, bw: BitWidth) -> (res: SwppInstKind)
    ensures
        binary_written_as(res, op, (a, b, t, bw)),
{
    match op {
        BinOp::UDiv => SwppInstKind::UDiv(InstUnsignedDivision::new(a, b, t, bw)),
        BinOp::SDiv => SwppInstKind::SDiv(InstSignedDivision::new(a, b, t, bw)),
        BinOp::URem => SwppInstKind::URem(InstUnsignedRemainder::new(a, b, t, bw)),
        BinOp::SRem => SwppInstKind::SRem(InstSignedRemainder::new(a, b, t, bw)),
        BinOp::Mul => SwppInstKind::Mul(InstMultiplication::new(a, b, t, bw)),
        BinOp::Shl => SwppInstKind::Shl(InstShiftLeft::new(a, b, t, bw)),
        BinOp::Lshr => SwppInstKind::Lshr(InstShiftRightLogical::new(a, b, t, bw)),
        BinOp::Ashr => SwppInstKind::Ashr(InstShiftRightArithmetic::new(a, b, t, bw)),
        BinOp::And => SwppInstKind::And(InstBitwiseAnd::new(a, b, t, bw)),
        BinOp::Or => SwppInstKind::Or(InstBitwiseOr::new(a, b, t, bw)),
        BinOp::Xor => SwppInstKind::Xor(InstBitwiseXor::new(a, b, t, bw)),
        BinOp::EAdd => SwppInstKind::EAdd(InstEAdd::new(a, b, t, bw)),
        BinOp::OAdd => SwppInstKind::OAdd(InstOAdd::new(a, b, t, bw)),
        BinOp::ESub => SwppInstKind::ESub(InstESub::new(a, b, t, bw)),
        BinOp::OSub => SwppInstKind::OSub(InstOSub::new(a, b, t, bw)),
    }
}

/// Parses `N: <reg> = <op> <lhs> <rhs> <width>` at `i`, before `e`.
fn binary_parser(src: &[char], s: &[u8], i: usize, e: usize) -> (res: Result<
    Option<(SwppInst, usize)>,
    ParsePanic,
>)
    requires
        source(src, s@),
        i <= e <= s@.len(),
    ensures
        inst_found(spec_binary(s@, i as int, e as int), res),
        res matches Ok(Some((inst, j))) ==> i < j <= e && inst.wf(),
{
    let (l, t, j) = match assign_parser(s, i, e) {
        Some(r) => r,
        None => return Ok(None),
    };
    let (op, k) = match binop_parser(s, j, e) {
        Some(r) => r,
        None => return Ok(None),
    };
    let (a, m) = match sarg_parser(s, k, e)? {
        Some(r) => r,
        None => return Ok(None),
    };
    let (b, q) = match sarg_parser(s, m, e)? {
        Some(r) => r,
        None => return Ok(None),
    };
    match bitwidth_parser(s, q, e) {
        Some((bw, r)) => Ok(Some((SwppInst::new(binary_kind(op, a, b, t, bw), l), r))),
        None => Ok(None),
    }
}

/// The predicate named by the letters `s[p..q]`, if any.
fn predicate_word(src: &[char], s: &[u8], p: usize, q: usize) -> (res: Option<ICMP>)
    requires
        source(src, s@),
        p <= q <= s@.len(),
        forall|k: int| p <= k < q ==> is_alpha(#[trigger] s@[k]),
    ensures
        res == predicate_named(chars_of(s@.subrange(p as int, q as int))),
{
    proof {
        lemma_letters(src@, s@, p as int, q as int);
    }
    let w = slice_text(src, p, q);
    if w == String::from_str("eq") {
        Some(ICMP::Eq)
    } else if w == String::from_str("ne") {
        Some(ICMP::Ne)
    } else if w == String::from_str("ugt") {
        Some(ICMP::Ugt)
    } else if w == String::from_str("uge") {
        Some(ICMP::Uge)
    } else if w == String::from_str("ult") {
        Some(ICMP::Ult)
    } else if w == String::from_str("ule") {
        Some(ICMP::Ule)
    } else if w == String::from_str("sgt") {
        Some(ICMP::Sgt)
    } else if w == String::from_str("sge") {
        Some(ICMP::Sge)
    } else if w == String::from_str("slt") {
        Some(ICMP::Slt)
    } else if w == String::from_str("sle") {
        Some(ICMP::Sle)
    } else {
        None
    }
}

/// Parses `N: <reg> = icmp <pred> <lhs> <rhs> <width>` at `i`, before `e`.
fn comparison_parser(src: &[char], s: &[u8], i: usize, e: usize) -> (res: Result<
    Option<(SwppInst, usize)>,
    ParsePanic,
>)
    requires
        source(src, s@),
        i <= e <= s@.len(),
    ensures
        inst_found(spec_comparison(s@, i as int, e as int), res),
        res matches Ok(Some((inst, j))) ==> i < j <= e && inst.wf(),
{
    proof {
        reveal_strlit("icmp");
        reveal_strlit("vicmp");
        reveal_strlit("vpicmp");
    }
    let (l, t, j) = match assign_parser(s, i, e) {
        Some(r) => r,
        None => return Ok(None),
    };
    let (scalar, k) = if let Some(k) = tag(s, j, e, "icmp") {
        (true, k)
    } else if let Some(k) = tag(s, j, e, "vicmp") {
        (false, k)
    } else if let Some(k) = tag(s, j, e, "vpicmp") {
        (false, k)
    } else {
        return Ok(None);
    };
    let p = skip_spaces(s, k, e);
    let q = skip_alpha(s, p, e);
    if q == p {
        return Ok(None);
    }
    let cond = match predicate_word(src, s, p, q) {
        Some(c) => c,
        None => return Err(ParsePanic),
    };
    let (a, m) = match sarg_parser(s, q, e)? {
        Some(r) => r,
        None => return Ok(None),
    };
    let (b, r) = match sarg_parser(s, m, e)? {
        Some(r) => r,
        None => return Ok(None),
    };
    match bitwidth_parser(s, r, e) {
        Some((bw, u)) => if scalar {
            Ok(Some(
                (SwppInst::new(SwppInstKind::Comp(InstComparison::new(a, b, cond, t, bw)), l), u),
            ))
        } else {
            Err(ParsePanic)
        },
        None => Ok(None),
    }
}

/// Parses `call <name> <args>` at `i`, before `e`.
fn call_rest_parser(
    src: &[char],
    s: &[u8],
    i: usize,
    e: usize,
    l: u64,
    target: Option<SwppRegisterName>,
) -> (res: Result<Option<(SwppInst, usize)>, ParsePanic>)
    requires
        source(src, s@),
        i <= e <= s@.len(),
        target matches Some(t) ==> t.wf(),
    ensures
        inst_found(spec_call_rest(src@, s@, i as int, e as int, l, target), res),
        res matches Ok(Some((inst, j))) ==> i < j <= e && inst.wf(),
{
    proof {
        reveal_strlit("call");
    }
    let k = match tag(s, i, e, "call") {
        Some(k) => skip_spaces(s, k, e),
        None => return Ok(None),
    };
    let (f, m) = match fname_parser(src, s, k, e) {
        Some(r) => r,
        None => return Ok(None),
    };
    match args_parser(s, m, e)? {
        Some((a, q)) => Ok(Some(
            (SwppInst::new(SwppInstKind::FnCall(InstFunctionCall::new(target, f, a)), l), q),
        )),
        None => Ok(None),
    }
}

/// Parses `N: call <name> <args>` at `i`, before `e`.
fn fcall_parser(src: &[char], s: &[u8], i: usize, e: usize) -> (res: Result<
    Option<(SwppInst, usize)>,
    ParsePanic,
>)
    requires
        source(src, s@),
        i <= e <= s@.len(),
    ensures
        inst_found(spec_fcall(src@, s@, i as int, e as int), res),
        res matches Ok(Some((inst, j))) ==> i < j <= e && inst.wf(),
{
    match line_num_parser(s, i, e) {
        Some((l, j)) => call_rest_parser(src, s, j, e, l, None),
        None => Ok(None),
    }
}

/// Parses `N: <reg> = call <name> <args>` at `i`, before `e`.
fn fcall_assign_parser(src: &[char], s: &[u8], i: usize, e: usize) -> (res: Result<
    Option<(SwppInst, usize)>,
    ParsePanic,
>)
    requires
        source(src, s@),
        i <= e <= s@.len(),
    ensures
        inst_found(spec_fcall_assign(src@, s@, i as int, e as int), res),
        res matches Ok(Some((inst, j))) ==> i < j <= e && inst.wf(),
{
    match assign_parser(s, i, e) {
        Some((l, t, j)) => call_rest_parser(src, s, j, e, l, Some(t)),
        None => Ok(None),
    }
}

/// `map` holds the jump table of `cases`, names by their text.
pub open spec fn holds_table(map: Map<u64, String>, cases: Seq<(u64, Seq<char>)>) -> bool {
    &&& map.dom() == jump_table(cases).dom()
    &&& forall|v: u64| #[trigger] jump_table(cases).contains_key(v) ==> map[v]@ == jump_table(
        cases,
    )[v]
}

/// Parses the cases of a switch and its default block at `i`, before `e`.
fn cases_parser(src: &[char], s: &[u8], i: usize, e: usize) -> (res: Option<
    (HashMap<u64, String>, String, usize),
>)
    requires
        source(src, s@),
        i <= e <= s@.len(),
    ensures
        match spec_cases(src@, s@, i as int, e as int) {
            Some((cases, d, m)) => if cases_fit(cases) {
                res matches Some((map, dn, k)) && k == m && dn@ == d && holds_table(
                    map@,
                    cases_u64(cases),
                )
            } else {
                res is None
            },
            None => res is None,
        },
        res matches Some((_, _, k)) ==> i < k <= e,
{
    let mut map: HashMap<u64, String> = HashMap::new();
    let ghost mut done: Seq<(nat, Seq<char>)> = Seq::empty();
    let mut pos = i;
    proof {
        assert(cases_u64(done) =~= Seq::<(u64, Seq<char>)>::empty());
        assert(map@.dom() =~= jump_table(cases_u64(done)).dom());
        assert(Seq::<(nat, Seq<char>)>::empty() + Seq::<(nat, Seq<char>)>::empty() =~= Seq::<
            (nat, Seq<char>),
        >::empty());
    }
    loop
        invariant
            i <= pos <= e <= s@.len(),
            source(src, s@),
            cases_fit(done),
            holds_table(map@, cases_u64(done)),
            spec_cases(src@, s@, i as int, e as int) == match spec_cases(src@, s@, pos as int, e as int) {
                Some((rest, d, m)) => Some((done + rest, d, m)),
                None => None,
            },
        decreases e - pos,
    {
        let j = skip_spaces(s, pos, e);
        if let Some((d, k)) = bname_parser(src, s, j, e) {
            proof {
                assert(done + Seq::<(nat, Seq<char>)>::empty() =~= done);
            }
            return Some((map, d, k));
        }
        let (v, k) = match read_number(s, j, e) {
            Some(r) => r,
            None => return None,
        };
        let k2 = skip_spaces(s, k, e);
        let (b, m) = match bname_parser(src, s, k2, e) {
            Some(r) => r,
            None => return None,
        };
        let ghost vn: nat = number(s@, j as int, e as int)->Some_0.0;
        let ghost tail = spec_cases(src@, s@, m as int, e as int);
        let v = match v {
            Some(v) => v,
            None => {
                proof {
                    if let Some((rest, d, q)) = tail {
                        let all = done + (seq![(vn, b@)] + rest);
                        assert(vn > u64::MAX);
                        assert(all[done.len() as int] == (vn, b@));
                        assert(!(all[done.len() as int].0 <= u64::MAX));
                    }
                }
                return None;
            },
        };
        proof {
            let c = (vn, b@);
            let done2 = done.push(c);
            if let Some((rest, d, q)) = tail {
                assert(done + (seq![c] + rest) =~= done2 + rest);
            }
            assert(cases_u64(done2) =~= cases_u64(done).push((v, b@)));
            assert(cases_u64(done).push((v, b@)).drop_last() =~= cases_u64(done));
            done = done2;
        }
        map.insert(v, b);
        proof {
            assert(map@.dom() =~= jump_table(cases_u64(done)).dom());
        }
        pos = m;
    }
}

/// Parses `N: switch <cond> <value> .<block> ... .<default block>` at `i`, before `e`.
fn switch_parser(src: &[char], s: &[u8], i: usize, e: usize) -> (res: Result<
    Option<(SwppInst, usize)>,
    ParsePanic,
>)
    requires
        source(src, s@),
        i <= e <= s@.len(),
    ensures
        inst_found(spec_switch(src@, s@, i as int, e as int), res),
        res matches Ok(Some((inst, j))) ==> i < j <= e && inst.wf(),
{
    proof {
        reveal_strlit("switch");
    }
    let (l, j) = match line_num_parser(s, i, e) {
        Some(r) => r,
        None => return Ok(None),
    };
    let k = match tag(s, j, e, "switch") {
        Some(k) => k,
        None => return Ok(None),
    };
    let (c, m) = match sarg_parser(s, k, e)? {
        Some(r) => r,
        None => return Ok(None),
    };
    match cases_parser(src, s, m, e) {
        Some((map, d, q)) => Ok(Some(
            (SwppInst::new(SwppInstKind::Switch(InstSwitch::new(c, map, d)), l), q),
        )),
        None => Ok(None),
    }
}

/// Parses an instruction line at `i`, before `e`: spaces, then the line up to
/// its end holds one of the instruction forms (what follows the form on that
/// line is not read). The position returned is the end of the line.
pub fn inst_parser(src: &[char], s: &[u8], i: usize, e: usize) -> (res: Result<
    Option<(SwppInst, usize)>,
    ParsePanic,
>)
    requires
        source(src, s@),
        i <= e <= s@.len(),
    ensures
        inst_found(spec_inst(src@, s@, i as int, e as int), res),
        res matches Ok(Some((inst, j))) ==> i < j <= e && inst.wf(),
{
    proof {
        reveal(spec_inst);
    }
    let j = skip_spaces(s, i, e);
    let k = skip_line(s, j, e);
    if k == j {
        return Ok(None);
    }
    let found = if let Some(r) = ret_parser(src, s, j, k)? {
        r
    } else if let Some(r) = ubranch_parser(src, s, j, k)? {
        r
    } else if let Some(r) = branch_parser(src, s, j, k)? {
        r
    } else if let Some(r) = switch_parser(src, s, j, k)? {
        r
    } else if let Some(r) = fcall_parser(src, s, j, k)? {
        r
    } else if let Some(r) = fcall_assign_parser(src, s, j, k)? {
        r
    } else if let Some(r) = assertion_parser(src, s, j, k)? {
        r
    } else if let Some(r) = malloc_parser(src, s, j, k)? {
        r
    } else if let Some(r) = free_parser(src, s, j, k)? {
        r
    } else if let Some(r) = load_parser(src, s, j, k)? {
        r
    } else if let Some(r) = aload_parser(src, s, j, k)? {
        r
    } else if let Some(r) = store_parser(src, s, j, k)? {
        r
    } else if let Some(r) = binary_parser(src, s, j, k)? {
        r
    } else if let Some(r) = comparison_parser(src, s, j, k)? {
        r
    } else if let Some(r) = ternary_parser(src, s, j, k)? {
        r
    } else {
        return Ok(None);
    };
    Ok(Some((found.0, k)))
}

} // verus!
