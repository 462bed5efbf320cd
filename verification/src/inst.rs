use std::collections::HashMap;

use vstd::prelude::*;

use crate::common::{
    BASIC_COST_ARITH_BITWISE, BASIC_COST_ARITH_CMP, BASIC_COST_ARITH_INT_MULDIV, BASIC_COST_ARITH_INT_SHIFT,
    BASIC_COST_ARITH_SELECT, BASIC_COST_CONTROL_FNCALL, BASIC_COST_CONTROL_RET,
    BASIC_COST_CONTROL_SWITCH, BASIC_COST_CONTROL_UBRANCH, BASIC_COST_MEM_HEAP_OP,
    BASIC_COST_MISC_FOUR_PHOBIA, STEP_COST_BOUND, div_toward_zero, rem_toward_zero, AccessSize, ALOAD_DEBT_HEAP, ALOAD_DEBT_STACK, Arg, BitWidth, ICMP,
    BASIC_COST_ARITH_INT_ADDSUB_RIGHT, BASIC_COST_ARITH_INT_ADDSUB_WRONG,
    BASIC_COST_CONTROL_BRANCH_FALSE, BASIC_COST_CONTROL_BRANCH_TRUE,
    FORWARD_BRANCH_COST_DENOMINATOR, FORWARD_BRANCH_COST_NUMERATOR, HEAP_OFFSET, MAX_HEAP_SIZE,
    MEMORY_ACCESS_COST_HEAP, MEMORY_ACCESS_COST_STACK, MEM_STACK_SIZE,
};
use crate::heat::{HEAT_CAP_PER_SECTOR, HEAT_COST_DIVISOR};
use crate::memory::{
    heap_after_write, heap_read_result, heap_write_result, stack_read_result, stack_write_result,
    write_bytes,
};
use crate::effect::{
    compare_value, failed, finished, phobia_extra, forward_cost, forward_jump, read_args, write_effect, add_value, and_value, ashr_value, binop_effect, lshr_value, mul_value, or_value,
    parity_cost, regs_after, sdiv_value, shl_value, signed_div_faults, srem_value, sub_value,
    udiv_value, urem_value, xor_value, Effect,
};
use crate::error::{raw_view, ErrorKindView, SwppError, SwppErrorKind, SwppRawResult, SwppResult};
use crate::logger::{LogEvent, SwppLogger};
use crate::program::{BlockResult, BlockResultView, CallRequest, CallView, Machine, SwppState};
use crate::register::{SwppRegisterName, SwppRegisterSet};

verus! {

/// General form of instruction: what it does and its line in the source.
#[derive(Debug)]
pub struct SwppInst {
    kind: SwppInstKind,
    loc: u64,
}

impl SwppInst {
    pub fn new(kind: SwppInstKind, loc: u64) -> (res: Self)
        ensures
            res.spec_kind() == kind,
            res.spec_loc() == loc,
    {
        Self { kind, loc }
    }

    pub closed spec fn spec_kind(self) -> SwppInstKind {
        self.kind
    }

    pub closed spec fn spec_loc(self) -> u64 {
        self.loc
    }
}

#[derive(Debug)]
pub enum SwppInstKind {
    Ret(InstRet),
    UBranch(InstUncondBr),
    Branch(InstCondBr),
    Switch(InstSwitch),
    FnCall(InstFunctionCall),
    Assert(InstAssertion),
    Malloc(InstHeapAllocation),
    Free(InstHeapFree),
    Load(InstLoad),
    Store(InstStore),
    ALoad(InstAsyncLoad),
    UDiv(InstUnsignedDivision),
    SDiv(InstSignedDivision),
    URem(InstUnsignedRemainder),
    SRem(InstSignedRemainder),
    Mul(InstMultiplication),
    Shl(InstShiftLeft),
    Lshr(InstShiftRightLogical),
    Ashr(InstShiftRightArithmetic),
    And(InstBitwiseAnd),
    Or(InstBitwiseOr),
    Xor(InstBitwiseXor),
    EAdd(InstEAdd),
    OAdd(InstOAdd),
    ESub(InstESub),
    OSub(InstOSub),
    Comp(InstComparison),
    Select(InstTernary),
    Read(InstStdRead),
    Write(InstStdWrite),
}

impl SwppInstKind {
    pub open spec fn spec_variant_name(self) -> Seq<char> {
        match self {
            SwppInstKind::Ret(_) => "Ret"@,
            SwppInstKind::UBranch(_) => "UBranch"@,
            SwppInstKind::Branch(_) => "Branch"@,
            SwppInstKind::Switch(_) => "Switch"@,
            SwppInstKind::FnCall(_) => "FnCall"@,
            SwppInstKind::Assert(_) => "Assert"@,
            SwppInstKind::Malloc(_) => "Malloc"@,
            SwppInstKind::Free(_) => "Free"@,
            SwppInstKind::Load(_) => "Load"@,
            SwppInstKind::Store(_) => "Store"@,
            SwppInstKind::ALoad(_) => "ALoad"@,
            SwppInstKind::UDiv(_) => "UDiv"@,
            SwppInstKind::SDiv(_) => "SDiv"@,
            SwppInstKind::URem(_) => "URem"@,
            SwppInstKind::SRem(_) => "SRem"@,
            SwppInstKind::Mul(_) => "Mul"@,
            SwppInstKind::Shl(_) => "Shl"@,
            SwppInstKind::Lshr(_) => "Lshr"@,
            SwppInstKind::Ashr(_) => "Ashr"@,
            SwppInstKind::And(_) => "And"@,
            SwppInstKind::Or(_) => "Or"@,
            SwppInstKind::Xor(_) => "Xor"@,
            SwppInstKind::EAdd(_) => "EAdd"@,
            SwppInstKind::OAdd(_) => "OAdd"@,
            SwppInstKind::ESub(_) => "ESub"@,
            SwppInstKind::OSub(_) => "OSub"@,
            SwppInstKind::Comp(_) => "Comp"@,
            SwppInstKind::Select(_) => "Select"@,
            SwppInstKind::Read(_) => "Read"@,
            SwppInstKind::Write(_) => "Write"@,
        }
    }

    /// The name of the variant, as used in logs.
    pub fn variant_name(&self) -> (res: &'static str)
        ensures
            res@ == self.spec_variant_name(),
    {
        match self {
            SwppInstKind::Ret(_) => "Ret",
            SwppInstKind::UBranch(_) => "UBranch",
            SwppInstKind::Branch(_) => "Branch",
            SwppInstKind::Switch(_) => "Switch",
            SwppInstKind::FnCall(_) => "FnCall",
            SwppInstKind::Assert(_) => "Assert",
            SwppInstKind::Malloc(_) => "Malloc",
            SwppInstKind::Free(_) => "Free",
            SwppInstKind::Load(_) => "Load",
            SwppInstKind::Store(_) => "Store",
            SwppInstKind::ALoad(_) => "ALoad",
            SwppInstKind::UDiv(_) => "UDiv",
            SwppInstKind::SDiv(_) => "SDiv",
            SwppInstKind::URem(_) => "URem",
            SwppInstKind::SRem(_) => "SRem",
            SwppInstKind::Mul(_) => "Mul",
            SwppInstKind::Shl(_) => "Shl",
            SwppInstKind::Lshr(_) => "Lshr",
            SwppInstKind::Ashr(_) => "Ashr",
            SwppInstKind::And(_) => "And",
            SwppInstKind::Or(_) => "Or",
            SwppInstKind::Xor(_) => "Xor",
            SwppInstKind::EAdd(_) => "EAdd",
            SwppInstKind::OAdd(_) => "OAdd",
            SwppInstKind::ESub(_) => "ESub",
            SwppInstKind::OSub(_) => "OSub",
            SwppInstKind::Comp(_) => "Comp",
            SwppInstKind::Select(_) => "Select",
            SwppInstKind::Read(_) => "Read",
            SwppInstKind::Write(_) => "Write",
        }
    }

    /// The registers the instruction names exist.
    pub open spec fn wf(self) -> bool {
        match self {
            SwppInstKind::Ret(x) => x.spec_val() matches Some(a) ==> a.wf(),
            SwppInstKind::Branch(x) => x.wf(),
            SwppInstKind::Switch(x) => x.wf(),
            SwppInstKind::FnCall(x) => x.wf(),
            SwppInstKind::Assert(x) => x.wf(),
            SwppInstKind::Malloc(x) => x.wf(),
            SwppInstKind::Free(x) => x.wf(),
            SwppInstKind::Load(x) => x.wf(),
            SwppInstKind::Store(x) => x.wf(),
            SwppInstKind::ALoad(x) => x.wf(),
            SwppInstKind::UDiv(x) => x.wf(),
            SwppInstKind::SDiv(x) => x.wf(),
            SwppInstKind::URem(x) => x.wf(),
            SwppInstKind::SRem(x) => x.wf(),
            SwppInstKind::Mul(x) => x.wf(),
            SwppInstKind::Shl(x) => x.wf(),
            SwppInstKind::Lshr(x) => x.wf(),
            SwppInstKind::Ashr(x) => x.wf(),
            SwppInstKind::And(x) => x.wf(),
            SwppInstKind::Or(x) => x.wf(),
            SwppInstKind::Xor(x) => x.wf(),
            SwppInstKind::EAdd(x) => x.wf(),
            SwppInstKind::OAdd(x) => x.wf(),
            SwppInstKind::ESub(x) => x.wf(),
            SwppInstKind::OSub(x) => x.wf(),
            SwppInstKind::Comp(x) => x.wf(),
            SwppInstKind::Select(x) => x.wf(),
            _ => true,
        }
    }

    /// An add or a sub, which can fuse with a preceding multiplication, division
    /// or remainder.
    pub open spec fn is_addsub(self) -> bool {
        self is EAdd || self is OAdd || self is ESub || self is OSub
    }
}

/// Return, with an optional value
#[derive(Debug, Clone, Copy)]
pub struct InstRet {
    val: Option<Arg>,
}

impl InstRet {
    pub fn new(val: Option<Arg>) -> (res: Self)
        ensures
            res.spec_val() == val,
    {
        Self { val }
    }

    pub closed spec fn spec_val(self) -> Option<Arg> {
        self.val
    }
}

/// Unconditional Branch
#[derive(Debug)]
pub struct InstUncondBr {
    target: String,
}

impl InstUncondBr {
    pub fn new(target: String) -> (res: Self)
        ensures
            res.spec_target() == target@,
    {
        Self { target }
    }

    pub closed spec fn spec_target(self) -> Seq<char> {
        self.target@
    }
}

/// Conditional Branch
#[derive(Debug)]
pub struct InstCondBr {
    cond_reg: Arg,
    true_target: String,
    false_target: String,
}

impl InstCondBr {
    pub fn new(cond_reg: Arg, true_target: String, false_target: String) -> (res: Self)
        ensures
            res.spec_cond() == cond_reg,
            res.spec_true_target() == true_target@,
            res.spec_false_target() == false_target@,
    {
        Self { cond_reg, true_target, false_target }
    }

    pub closed spec fn spec_cond(self) -> Arg {
        self.cond_reg
    }

    pub closed spec fn spec_true_target(self) -> Seq<char> {
        self.true_target@
    }

    pub closed spec fn spec_false_target(self) -> Seq<char> {
        self.false_target@
    }
}

/// Switch
#[derive(Debug)]
pub struct InstSwitch {
    cond_reg: Arg,
    /// Mapping from the value of condition register to the name of next block
    jump_map: HashMap<u64, String>,
    default_block: String,
}

impl InstSwitch {
    pub fn new(cond_reg: Arg, jump_map: HashMap<u64, String>, default_block: String) -> (res: Self)
        ensures
            res.spec_cond() == cond_reg,
            res.spec_jump_map() == jump_map@,
            res.spec_default() == default_block@,
    {
        Self { cond_reg, jump_map, default_block }
    }

    pub closed spec fn spec_cond(self) -> Arg {
        self.cond_reg
    }

    pub closed spec fn spec_jump_map(self) -> Map<u64, String> {
        self.jump_map@
    }

    pub closed spec fn spec_default(self) -> Seq<char> {
        self.default_block@
    }
}

/// Function call
#[derive(Debug)]
pub struct InstFunctionCall {
    target: Option<SwppRegisterName>,
    fname: String,
    args: Vec<Arg>,
}

impl InstFunctionCall {
    pub fn new(target: Option<SwppRegisterName>, fname: String, args: Vec<Arg>) -> (res: Self)
        ensures
            res.spec_target() == target,
            res.spec_fname() == fname@,
            res.spec_args() == args@,
    {
        Self { target, fname, args }
    }

    pub closed spec fn spec_target(self) -> Option<SwppRegisterName> {
        self.target
    }

    pub closed spec fn spec_fname(self) -> Seq<char> {
        self.fname@
    }

    pub closed spec fn spec_args(self) -> Seq<Arg> {
        self.args@
    }
}

/// Assertion that two operands are equal
#[derive(Debug, Clone, Copy)]
pub struct InstAssertion {
    lhs: Arg,
    rhs: Arg,
}

impl InstAssertion {
    pub fn new(lhs: Arg, rhs: Arg) -> (res: Self)
        ensures
            res.spec_lhs() == lhs,
            res.spec_rhs() == rhs,
    {
        Self { lhs, rhs }
    }

    pub closed spec fn spec_lhs(self) -> Arg {
        self.lhs
    }

    pub closed spec fn spec_rhs(self) -> Arg {
        self.rhs
    }
}

/// Malloc
#[derive(Debug, Clone, Copy)]
pub struct InstHeapAllocation {
    target_reg: SwppRegisterName,
    size_reg: Arg,
}

impl InstHeapAllocation {
    pub fn new(target_reg: SwppRegisterName, size_reg: Arg) -> (res: Self)
        ensures
            res.spec_target() == target_reg,
            res.spec_size() == size_reg,
    {
        Self { target_reg, size_reg }
    }

    pub closed spec fn spec_target(self) -> SwppRegisterName {
        self.target_reg
    }

    pub closed spec fn spec_size(self) -> Arg {
        self.size_reg
    }
}

/// Free
#[derive(Debug, Clone, Copy)]
pub struct InstHeapFree {
    addr_reg: Arg,
}

impl InstHeapFree {
    pub fn new(addr_reg: Arg) -> (res: Self)
        ensures
            res.spec_addr() == addr_reg,
    {
        Self { addr_reg }
    }

    pub closed spec fn spec_addr(self) -> Arg {
        self.addr_reg
    }
}

/// Load
#[derive(Debug, Clone, Copy)]
pub struct InstLoad {
    target_reg: SwppRegisterName,
    addr_reg: Arg,
    size: AccessSize,
}

impl InstLoad {
    pub fn new(target_reg: SwppRegisterName, addr_reg: Arg, size: AccessSize) -> (res: Self)
        ensures
            res.spec_target() == target_reg,
            res.spec_addr() == addr_reg,
            res.spec_size() == size,
    {
        Self { target_reg, addr_reg, size }
    }

    pub closed spec fn spec_target(self) -> SwppRegisterName {
        self.target_reg
    }

    pub closed spec fn spec_addr(self) -> Arg {
        self.addr_reg
    }

    pub closed spec fn spec_size(self) -> AccessSize {
        self.size
    }
}

/// Store
#[derive(Debug, Clone, Copy)]
pub struct InstStore {
    val_reg: Arg,
    addr_reg: Arg,
    size: AccessSize,
}

impl InstStore {
    pub fn new(val_reg: Arg, addr_reg: Arg, size: AccessSize) -> (res: Self)
        ensures
            res.spec_val() == val_reg,
            res.spec_addr() == addr_reg,
            res.spec_size() == size,
    {
        Self { val_reg, addr_reg, size }
    }

    pub closed spec fn spec_val(self) -> Arg {
        self.val_reg
    }

    pub closed spec fn spec_addr(self) -> Arg {
        self.addr_reg
    }

    pub closed spec fn spec_size(self) -> AccessSize {
        self.size
    }
}

/// Async Load
#[derive(Debug, Clone, Copy)]
pub struct InstAsyncLoad {
    target_reg: SwppRegisterName,
    addr_reg: Arg,
    size: AccessSize,
}

impl InstAsyncLoad {
    pub fn new(target_reg: SwppRegisterName, addr_reg: Arg, size: AccessSize) -> (res: Self)
        ensures
            res.spec_target() == target_reg,
            res.spec_addr() == addr_reg,
            res.spec_size() == size,
    {
        Self { target_reg, addr_reg, size }
    }

    pub closed spec fn spec_target(self) -> SwppRegisterName {
        self.target_reg
    }

    pub closed spec fn spec_addr(self) -> Arg {
        self.addr_reg
    }

    pub closed spec fn spec_size(self) -> AccessSize {
        self.size
    }
}

#[derive(Debug, Clone, Copy)]
pub struct InstUnsignedDivision {
    reg1: Arg,
    reg2: Arg,
    target_reg: SwppRegisterName,
    bw: BitWidth,
}

impl InstUnsignedDivision {
    pub fn new(reg1: Arg, reg2: Arg, target_reg: SwppRegisterName, bw: BitWidth) -> (res: Self)
        ensures
            res.operands() == (reg1, reg2, target_reg, bw),
    {
        Self { reg1, reg2, target_reg, bw }
    }

    /// The two operands, the target register and the width.
    pub closed spec fn operands(self) -> (Arg, Arg, SwppRegisterName, BitWidth) {
        (self.reg1, self.reg2, self.target_reg, self.bw)
    }
}

#[derive(Debug, Clone, Copy)]
pub struct InstSignedDivision {
    reg1: Arg,
    reg2: Arg,
    target_reg: SwppRegisterName,
    bw: BitWidth,
}

impl InstSignedDivision {
    pub fn new(reg1: Arg, reg2: Arg, target_reg: SwppRegisterName, bw: BitWidth) -> (res: Self)
        ensures
            res.operands() == (reg1, reg2, target_reg, bw),
    {
        Self { reg1, reg2, target_reg, bw }
    }

    /// The two operands, the target register and the width.
    pub closed spec fn operands(self) -> (Arg, Arg, SwppRegisterName, BitWidth) {
        (self.reg1, self.reg2, self.target_reg, self.bw)
    }
}

#[derive(Debug, Clone, Copy)]
pub struct InstUnsignedRemainder {
    reg1: Arg,
    reg2: Arg,
    target_reg: SwppRegisterName,
    bw: BitWidth,
}

impl InstUnsignedRemainder {
    pub fn new(reg1: Arg, reg2: Arg, target_reg: SwppRegisterName, bw: BitWidth) -> (res: Self)
        ensures
            res.operands() == (reg1, reg2, target_reg, bw),
    {
        Self { reg1, reg2, target_reg, bw }
    }

    /// The two operands, the target register and the width.
    pub closed spec fn operands(self) -> (Arg, Arg, SwppRegisterName, BitWidth) {
        (self.reg1, self.reg2, self.target_reg, self.bw)
    }
}

#[derive(Debug, Clone, Copy)]
pub struct InstSignedRemainder {
    reg1: Arg,
    reg2: Arg,
    target_reg: SwppRegisterName,
    bw: BitWidth,
}

impl InstSignedRemainder {
    pub fn new(reg1: Arg, reg2: Arg, target_reg: SwppRegisterName, bw: BitWidth) -> (res: Self)
        ensures
            res.operands() == (reg1, reg2, target_reg, bw),
    {
        Self { reg1, reg2, target_reg, bw }
    }

    /// The two operands, the target register and the width.
    pub closed spec fn operands(self) -> (Arg, Arg, SwppRegisterName, BitWidth) {
        (self.reg1, self.reg2, self.target_reg, self.bw)
    }
}

#[derive(Debug, Clone, Copy)]
pub struct InstMultiplication {
    reg1: Arg,
    reg2: Arg,
    target_reg: SwppRegisterName,
    bw: BitWidth,
}

impl InstMultiplication {
    pub fn new(reg1: Arg, reg2: Arg, target_reg: SwppRegisterName, bw: BitWidth) -> (res: Self)
        ensures
            res.operands() == (reg1, reg2, target_reg, bw),
    {
        Self { reg1, reg2, target_reg, bw }
    }

    /// The two operands, the target register and the width.
    pub closed spec fn operands(self) -> (Arg, Arg, SwppRegisterName, BitWidth) {
        (self.reg1, self.reg2, self.target_reg, self.bw)
    }
}

#[derive(Debug, Clone, Copy)]
pub struct InstShiftLeft {
    reg1: Arg,
    reg2: Arg,
    target_reg: SwppRegisterName,
    bw: BitWidth,
}

impl InstShiftLeft {
    pub fn new(reg1: Arg, reg2: Arg, target_reg: SwppRegisterName, bw: BitWidth) -> (res: Self)
        ensures
            res.operands() == (reg1, reg2, target_reg, bw),
    {
        Self { reg1, reg2, target_reg, bw }
    }

    /// The two operands, the target register and the width.
    pub closed spec fn operands(self) -> (Arg, Arg, SwppRegisterName, BitWidth) {
        (self.reg1, self.reg2, self.target_reg, self.bw)
    }
}

#[derive(Debug, Clone, Copy)]
pub struct InstShiftRightLogical {
    reg1: Arg,
    reg2: Arg,
    target_reg: SwppRegisterName,
    bw: BitWidth,
}

impl InstShiftRightLogical {
    pub fn new(reg1: Arg, reg2: Arg, target_reg: SwppRegisterName, bw: BitWidth) -> (res: Self)
        ensures
            res.operands() == (reg1, reg2, target_reg, bw),
    {
        Self { reg1, reg2, target_reg, bw }
    }

    /// The two operands, the target register and the width.
    pub closed spec fn operands(self) -> (Arg, Arg, SwppRegisterName, BitWidth) {
        (self.reg1, self.reg2, self.target_reg, self.bw)
    }
}

#[derive(Debug, Clone, Copy)]
pub struct InstShiftRightArithmetic {
    reg1: Arg,
    reg2: Arg,
    target_reg: SwppRegisterName,
    bw: BitWidth,
}

impl InstShiftRightArithmetic {
    pub fn new(reg1: Arg, reg2: Arg, target_reg: SwppRegisterName, bw: BitWidth) -> (res: Self)
        ensures
            res.operands() == (reg1, reg2, target_reg, bw),
    {
        Self { reg1, reg2, target_reg, bw }
    }

    /// The two operands, the target register and the width.
    pub closed spec fn operands(self) -> (Arg, Arg, SwppRegisterName, BitWidth) {
        (self.reg1, self.reg2, self.target_reg, self.bw)
    }
}

#[derive(Debug, Clone, Copy)]
pub struct InstBitwiseAnd {
    reg1: Arg,
    reg2: Arg,
    target_reg: SwppRegisterName,
    bw: BitWidth,
}

impl InstBitwiseAnd {
    pub fn new(reg1: Arg, reg2: Arg, target_reg: SwppRegisterName, bw: BitWidth) -> (res: Self)
        ensures
            res.operands() == (reg1, reg2, target_reg, bw),
    {
        Self { reg1, reg2, target_reg, bw }
    }

    /// The two operands, the target register and the width.
    pub closed spec fn operands(self) -> (Arg, Arg, SwppRegisterName, BitWidth) {
        (self.reg1, self.reg2, self.target_reg, self.bw)
    }
}

#[derive(Debug, Clone, Copy)]
pub struct InstBitwiseOr {
    reg1: Arg,
    reg2: Arg,
    target_reg: SwppRegisterName,
    bw: BitWidth,
}

impl InstBitwiseOr {
    pub fn new(reg1: Arg, reg2: Arg, target_reg: SwppRegisterName, bw: BitWidth) -> (res: Self)
        ensures
            res.operands() == (reg1, reg2, target_reg, bw),
    {
        Self { reg1, reg2, target_reg, bw }
    }

    /// The two operands, the target register and the width.
    pub closed spec fn operands(self) -> (Arg, Arg, SwppRegisterName, BitWidth) {
        (self.reg1, self.reg2, self.target_reg, self.bw)
    }
}

#[derive(Debug, Clone, Copy)]
pub struct InstBitwiseXor {
    reg1: Arg,
    reg2: Arg,
    target_reg: SwppRegisterName,
    bw: BitWidth,
}

impl InstBitwiseXor {
    pub fn new(reg1: Arg, reg2: Arg, target_reg: SwppRegisterName, bw: BitWidth) -> (res: Self)
        ensures
            res.operands() == (reg1, reg2, target_reg, bw),
    {
        Self { reg1, reg2, target_reg, bw }
    }

    /// The two operands, the target register and the width.
    pub closed spec fn operands(self) -> (Arg, Arg, SwppRegisterName, BitWidth) {
        (self.reg1, self.reg2, self.target_reg, self.bw)
    }
}

#[derive(Debug, Clone, Copy)]
pub struct InstEAdd {
    reg1: Arg,
    reg2: Arg,
    target_reg: SwppRegisterName,
    bw: BitWidth,
}

impl InstEAdd {
    pub fn new(reg1: Arg, reg2: Arg, target_reg: SwppRegisterName, bw: BitWidth) -> (res: Self)
        ensures
            res.operands() == (reg1, reg2, target_reg, bw),
    {
        Self { reg1, reg2, target_reg, bw }
    }

    /// The two operands, the target register and the width.
    pub closed spec fn operands(self) -> (Arg, Arg, SwppRegisterName, BitWidth) {
        (self.reg1, self.reg2, self.target_reg, self.bw)
    }
}

#[derive(Debug, Clone, Copy)]
pub struct InstOAdd {
    reg1: Arg,
    reg2: Arg,
    target_reg: SwppRegisterName,
    bw: BitWidth,
}

impl InstOAdd {
    pub fn new(reg1: Arg, reg2: Arg, target_reg: SwppRegisterName, bw: BitWidth) -> (res: Self)
        ensures
            res.operands() == (reg1, reg2, target_reg, bw),
    {
        Self { reg1, reg2, target_reg, bw }
    }

    /// The two operands, the target register and the width.
    pub closed spec fn operands(self) -> (Arg, Arg, SwppRegisterName, BitWidth) {
        (self.reg1, self.reg2, self.target_reg, self.bw)
    }
}

#[derive(Debug, Clone, Copy)]
pub struct InstESub {
    reg1: Arg,
    reg2: Arg,
    target_reg: SwppRegisterName,
    bw: BitWidth,
}

impl InstESub {
    pub fn new(reg1: Arg, reg2: Arg, target_reg: SwppRegisterName, bw: BitWidth) -> (res: Self)
        ensures
            res.operands() == (reg1, reg2, target_reg, bw),
    {
        Self { reg1, reg2, target_reg, bw }
    }

    /// The two operands, the target register and the width.
    pub closed spec fn operands(self) -> (Arg, Arg, SwppRegisterName, BitWidth) {
        (self.reg1, self.reg2, self.target_reg, self.bw)
    }
}

#[derive(Debug, Clone, Copy)]
pub struct InstOSub {
    reg1: Arg,
    reg2: Arg,
    target_reg: SwppRegisterName,
    bw: BitWidth,
}

impl InstOSub {
    pub fn new(reg1: Arg, reg2: Arg, target_reg: SwppRegisterName, bw: BitWidth) -> (res: Self)
        ensures
            res.operands() == (reg1, reg2, target_reg, bw),
    {
        Self { reg1, reg2, target_reg, bw }
    }

    /// The two operands, the target register and the width.
    pub closed spec fn operands(self) -> (Arg, Arg, SwppRegisterName, BitWidth) {
        (self.reg1, self.reg2, self.target_reg, self.bw)
    }
}

/// Integer comparison
#[derive(Debug, Clone, Copy)]
pub struct InstComparison {
    reg1: Arg,
    reg2: Arg,
    cond: ICMP,
    target_reg: SwppRegisterName,
    bw: BitWidth,
}

impl InstComparison {
    pub fn new(reg1: Arg, reg2: Arg, cond: ICMP, target_reg: SwppRegisterName, bw: BitWidth) -> (res:
        Self)
        ensures
            res.operands() == (reg1, reg2, target_reg, bw),
            res.spec_cond() == cond,
    {
        Self { reg1, reg2, cond, target_reg, bw }
    }

    /// The two operands, the target register and the width.
    pub closed spec fn operands(self) -> (Arg, Arg, SwppRegisterName, BitWidth) {
        (self.reg1, self.reg2, self.target_reg, self.bw)
    }

    pub closed spec fn spec_cond(self) -> ICMP {
        self.cond
    }
}

/// Select between two operands by a condition
#[derive(Debug, Clone, Copy)]
pub struct InstTernary {
    false_reg: Arg,
    true_reg: Arg,
    cond_reg: Arg,
    target_reg: SwppRegisterName,
}

impl InstTernary {
    pub fn new(false_reg: Arg, true_reg: Arg, cond_reg: Arg, target_reg: SwppRegisterName) -> (res:
        Self)
        ensures
            res.spec_false() == false_reg,
            res.spec_true() == true_reg,
            res.spec_cond() == cond_reg,
            res.spec_target() == target_reg,
    {
        Self { false_reg, true_reg, cond_reg, target_reg }
    }

    pub closed spec fn spec_false(self) -> Arg {
        self.false_reg
    }

    pub closed spec fn spec_true(self) -> Arg {
        self.true_reg
    }

    pub closed spec fn spec_cond(self) -> Arg {
        self.cond_reg
    }

    pub closed spec fn spec_target(self) -> SwppRegisterName {
        self.target_reg
    }
}

/// Only for the predefined function read
#[derive(Debug, Clone, Copy)]
pub struct InstStdRead {}

impl InstStdRead {
    pub fn new() -> (res: Self) {
        Self {  }
    }
}

/// Only for the predefined function write
#[derive(Debug, Clone, Copy)]
pub struct InstStdWrite {}

impl InstStdWrite {
    pub fn new() -> (res: Self) {
        Self {  }
    }
}


impl InstUnsignedDivision {
    /// The registers named exist.
    pub open spec fn wf(self) -> bool {
        self.operands().0.wf() && self.operands().1.wf() && self.operands().2.wf()
    }

    /// The operation would fault on these operand values.
    pub open spec fn faults(self, regs: SwppRegisterSet) -> bool {
        let (a, b, t, bw) = self.operands();
        let x = a.value(regs);
        let y = b.value(regs);
        bw.spec_read_u64(y) == 0
    }

    /// The value written to the target register.
    pub open spec fn value(self, regs: SwppRegisterSet) -> u64 {
        let (a, b, t, bw) = self.operands();
        udiv_value(bw, a.value(regs), b.value(regs))
    }

    pub open spec fn effect(self, m: Machine, regs: SwppRegisterSet) -> Effect<()> {
        let (a, b, t, bw) = self.operands();
        let v = self.value(regs);
        binop_effect(m, a, b, t, v, ())
    }

    pub fn run(&self, state: &mut SwppState, reg_set: &mut SwppRegisterSet) -> (res: SwppRawResult<()>)
        requires
            old(state).wf(),
            self.wf(),
            !self.faults(*old(reg_set)),
            old(state).budget() <= u64::MAX,
        ensures
            final(state).wf(),
            final(state).budget() <= old(state).budget(),
            final(state)@ == self.effect(old(state)@, *old(reg_set)).machine,
            regs_after(*old(reg_set), *final(reg_set), self.effect(old(state)@, *old(reg_set)).write),
            raw_view(res) == self.effect(old(state)@, *old(reg_set)).result,
    {
        let val1 = self.bw.read_u64(self.reg1.read_value_with_state(state, reg_set)?);
        let val2 = self.bw.read_u64(self.reg2.read_value_with_state(state, reg_set)?);
        let val = self.bw.read_u64(val1 / val2);
        state.write_register_with_debt(reg_set, &self.target_reg, val)
    }
}

impl InstSignedDivision {
    /// The registers named exist.
    pub open spec fn wf(self) -> bool {
        self.operands().0.wf() && self.operands().1.wf() && self.operands().2.wf()
    }

    /// The operation would fault on these operand values.
    pub open spec fn faults(self, regs: SwppRegisterSet) -> bool {
        let (a, b, t, bw) = self.operands();
        let x = a.value(regs);
        let y = b.value(regs);
        signed_div_faults(bw, x, y)
    }

    /// The value written to the target register.
    pub open spec fn value(self, regs: SwppRegisterSet) -> u64 {
        let (a, b, t, bw) = self.operands();
        sdiv_value(bw, a.value(regs), b.value(regs))
    }

    pub open spec fn effect(self, m: Machine, regs: SwppRegisterSet) -> Effect<()> {
        let (a, b, t, bw) = self.operands();
        let v = self.value(regs);
        binop_effect(m, a, b, t, v, ())
    }

    pub fn run(&self, state: &mut SwppState, reg_set: &mut SwppRegisterSet) -> (res: SwppRawResult<()>)
        requires
            old(state).wf(),
            self.wf(),
            !self.faults(*old(reg_set)),
            old(state).budget() <= u64::MAX,
        ensures
            final(state).wf(),
            final(state).budget() <= old(state).budget(),
            final(state)@ == self.effect(old(state)@, *old(reg_set)).machine,
            regs_after(*old(reg_set), *final(reg_set), self.effect(old(state)@, *old(reg_set)).write),
            raw_view(res) == self.effect(old(state)@, *old(reg_set)).result,
    {
        let val1 = self.bw.sign_extend_u64(self.reg1.read_value_with_state(state, reg_set)?);
        let val2 = self.bw.sign_extend_u64(self.reg2.read_value_with_state(state, reg_set)?);
        let val = self.bw.read_i64(div_toward_zero(val1, val2));
        let val = val as u64;
        state.write_register_with_debt(reg_set, &self.target_reg, val)
    }
}

impl InstUnsignedRemainder {
    /// The registers named exist.
    pub open spec fn wf(self) -> bool {
        self.operands().0.wf() && self.operands().1.wf() && self.operands().2.wf()
    }

    /// The operation would fault on these operand values.
    pub open spec fn faults(self, regs: SwppRegisterSet) -> bool {
        let (a, b, t, bw) = self.operands();
        let x = a.value(regs);
        let y = b.value(regs);
        bw.spec_read_u64(y) == 0
    }

    /// The value written to the target register.
    pub open spec fn value(self, regs: SwppRegisterSet) -> u64 {
        let (a, b, t, bw) = self.operands();
        urem_value(bw, a.value(regs), b.value(regs))
    }

    pub open spec fn effect(self, m: Machine, regs: SwppRegisterSet) -> Effect<()> {
        let (a, b, t, bw) = self.operands();
        let v = self.value(regs);
        binop_effect(m, a, b, t, v, ())
    }

    pub fn run(&self, state: &mut SwppState, reg_set: &mut SwppRegisterSet) -> (res: SwppRawResult<()>)
        requires
            old(state).wf(),
            self.wf(),
            !self.faults(*old(reg_set)),
            old(state).budget() <= u64::MAX,
        ensures
            final(state).wf(),
            final(state).budget() <= old(state).budget(),
            final(state)@ == self.effect(old(state)@, *old(reg_set)).machine,
            regs_after(*old(reg_set), *final(reg_set), self.effect(old(state)@, *old(reg_set)).write),
            raw_view(res) == self.effect(old(state)@, *old(reg_set)).result,
    {
        let val1 = self.bw.read_u64(self.reg1.read_value_with_state(state, reg_set)?);
        let val2 = self.bw.read_u64(self.reg2.read_value_with_state(state, reg_set)?);
        let val = self.bw.read_u64(val1 % val2);
        state.write_register_with_debt(reg_set, &self.target_reg, val)
    }
}

impl InstSignedRemainder {
    /// The registers named exist.
    pub open spec fn wf(self) -> bool {
        self.operands().0.wf() && self.operands().1.wf() && self.operands().2.wf()
    }

    /// The operation would fault on these operand values.
    pub open spec fn faults(self, regs: SwppRegisterSet) -> bool {
        let (a, b, t, bw) = self.operands();
        let x = a.value(regs);
        let y = b.value(regs);
        signed_div_faults(bw, x, y)
    }

    /// The value written to the target register.
    pub open spec fn value(self, regs: SwppRegisterSet) -> u64 {
        let (a, b, t, bw) = self.operands();
        srem_value(bw, a.value(regs), b.value(regs))
    }

    pub open spec fn effect(self, m: Machine, regs: SwppRegisterSet) -> Effect<()> {
        let (a, b, t, bw) = self.operands();
        let v = self.value(regs);
        binop_effect(m, a, b, t, v, ())
    }

    pub fn run(&self, state: &mut SwppState, reg_set: &mut SwppRegisterSet) -> (res: SwppRawResult<()>)
        requires
            old(state).wf(),
            self.wf(),
            !self.faults(*old(reg_set)),
            old(state).budget() <= u64::MAX,
        ensures
            final(state).wf(),
            final(state).budget() <= old(state).budget(),
            final(state)@ == self.effect(old(state)@, *old(reg_set)).machine,
            regs_after(*old(reg_set), *final(reg_set), self.effect(old(state)@, *old(reg_set)).write),
            raw_view(res) == self.effect(old(state)@, *old(reg_set)).result,
    {
        let val1 = self.bw.sign_extend_u64(self.reg1.read_value_with_state(state, reg_set)?);
        let val2 = self.bw.sign_extend_u64(self.reg2.read_value_with_state(state, reg_set)?);
        let val = self.bw.read_i64(rem_toward_zero(val1, val2));
        let val = val as u64;
        state.write_register_with_debt(reg_set, &self.target_reg, val)
    }
}

impl InstMultiplication {
    /// The registers named exist.
    pub open spec fn wf(self) -> bool {
        self.operands().0.wf() && self.operands().1.wf() && self.operands().2.wf()
    }

    /// The value written to the target register.
    pub open spec fn value(self, regs: SwppRegisterSet) -> u64 {
        let (a, b, t, bw) = self.operands();
        mul_value(bw, a.value(regs), b.value(regs))
    }

    pub open spec fn effect(self, m: Machine, regs: SwppRegisterSet) -> Effect<()> {
        let (a, b, t, bw) = self.operands();
        let v = self.value(regs);
        binop_effect(m, a, b, t, v, ())
    }

    pub fn run(&self, state: &mut SwppState, reg_set: &mut SwppRegisterSet) -> (res: SwppRawResult<()>)
        requires
            old(state).wf(),
            self.wf(),
            old(state).budget() <= u64::MAX,
        ensures
            final(state).wf(),
            final(state).budget() <= old(state).budget(),
            final(state)@ == self.effect(old(state)@, *old(reg_set)).machine,
            regs_after(*old(reg_set), *final(reg_set), self.effect(old(state)@, *old(reg_set)).write),
            raw_view(res) == self.effect(old(state)@, *old(reg_set)).result,
    {
        let val1 = self.bw.read_u64(self.reg1.read_value_with_state(state, reg_set)?);
        let val2 = self.bw.read_u64(self.reg2.read_value_with_state(state, reg_set)?);
        let val = self.bw.read_u64(val1.wrapping_mul(val2));
        state.write_register_with_debt(reg_set, &self.target_reg, val)
    }
}

impl InstShiftLeft {
    /// The registers named exist.
    pub open spec fn wf(self) -> bool {
        self.operands().0.wf() && self.operands().1.wf() && self.operands().2.wf()
    }

    /// The operation would fault on these operand values.
    pub open spec fn faults(self, regs: SwppRegisterSet) -> bool {
        let (a, b, t, bw) = self.operands();
        let x = a.value(regs);
        let y = b.value(regs);
        bw.spec_read_u64(y) >= 64
    }

    /// The value written to the target register.
    pub open spec fn value(self, regs: SwppRegisterSet) -> u64 {
        let (a, b, t, bw) = self.operands();
        shl_value(bw, a.value(regs), b.value(regs))
    }

    pub open spec fn effect(self, m: Machine, regs: SwppRegisterSet) -> Effect<()> {
        let (a, b, t, bw) = self.operands();
        let v = self.value(regs);
        binop_effect(m, a, b, t, v, ())
    }

    pub fn run(&self, state: &mut SwppState, reg_set: &mut SwppRegisterSet) -> (res: SwppRawResult<()>)
        requires
            old(state).wf(),
            self.wf(),
            !self.faults(*old(reg_set)),
            old(state).budget() <= u64::MAX,
        ensures
            final(state).wf(),
            final(state).budget() <= old(state).budget(),
            final(state)@ == self.effect(old(state)@, *old(reg_set)).machine,
            regs_after(*old(reg_set), *final(reg_set), self.effect(old(state)@, *old(reg_set)).write),
            raw_view(res) == self.effect(old(state)@, *old(reg_set)).result,
    {
        let val1 = self.bw.read_u64(self.reg1.read_value_with_state(state, reg_set)?);
        let val2 = self.bw.read_u64(self.reg2.read_value_with_state(state, reg_set)?);
        let val = self.bw.read_u64(val1 << val2);
        state.write_register_with_debt(reg_set, &self.target_reg, val)
    }
}

impl InstShiftRightLogical {
    /// The registers named exist.
    pub open spec fn wf(self) -> bool {
        self.operands().0.wf() && self.operands().1.wf() && self.operands().2.wf()
    }

    /// The operation would fault on these operand values.
    pub open spec fn faults(self, regs: SwppRegisterSet) -> bool {
        let (a, b, t, bw) = self.operands();
        let x = a.value(regs);
        let y = b.value(regs);
        bw.spec_read_u64(y) >= 64
    }

    /// The value written to the target register.
    pub open spec fn value(self, regs: SwppRegisterSet) -> u64 {
        let (a, b, t, bw) = self.operands();
        lshr_value(bw, a.value(regs), b.value(regs))
    }

    pub open spec fn effect(self, m: Machine, regs: SwppRegisterSet) -> Effect<()> {
        let (a, b, t, bw) = self.operands();
        let v = self.value(regs);
        binop_effect(m, a, b, t, v, ())
    }

    pub fn run(&self, state: &mut SwppState, reg_set: &mut SwppRegisterSet) -> (res: SwppRawResult<()>)
        requires
            old(state).wf(),
            self.wf(),
            !self.faults(*old(reg_set)),
            old(state).budget() <= u64::MAX,
        ensures
            final(state).wf(),
            final(state).budget() <= old(state).budget(),
            final(state)@ == self.effect(old(state)@, *old(reg_set)).machine,
            regs_after(*old(reg_set), *final(reg_set), self.effect(old(state)@, *old(reg_set)).write),
            raw_view(res) == self.effect(old(state)@, *old(reg_set)).result,
    {
        let val1 = self.bw.read_u64(self.reg1.read_value_with_state(state, reg_set)?);
        let val2 = self.bw.read_u64(self.reg2.read_value_with_state(state, reg_set)?);
        let val = self.bw.read_u64(val1 >> val2);
        state.write_register_with_debt(reg_set, &self.target_reg, val)
    }
}

impl InstShiftRightArithmetic {
    /// The registers named exist.
    pub open spec fn wf(self) -> bool {
        self.operands().0.wf() && self.operands().1.wf() && self.operands().2.wf()
    }

    /// The operation would fault on these operand values.
    pub open spec fn faults(self, regs: SwppRegisterSet) -> bool {
        let (a, b, t, bw) = self.operands();
        let x = a.value(regs);
        let y = b.value(regs);
        bw.spec_read_u64(y) >= 64
    }

    /// The value written to the target register.
    pub open spec fn value(self, regs: SwppRegisterSet) -> u64 {
        let (a, b, t, bw) = self.operands();
        ashr_value(bw, a.value(regs), b.value(regs))
    }

    pub open spec fn effect(self, m: Machine, regs: SwppRegisterSet) -> Effect<()> {
        let (a, b, t, bw) = self.operands();
        let v = self.value(regs);
        binop_effect(m, a, b, t, v, ())
    }

    pub fn run(&self, state: &mut SwppState, reg_set: &mut SwppRegisterSet) -> (res: SwppRawResult<()>)
        requires
            old(state).wf(),
            self.wf(),
            !self.faults(*old(reg_set)),
            old(state).budget() <= u64::MAX,
        ensures
            final(state).wf(),
            final(state).budget() <= old(state).budget(),
            final(state)@ == self.effect(old(state)@, *old(reg_set)).machine,
            regs_after(*old(reg_set), *final(reg_set), self.effect(old(state)@, *old(reg_set)).write),
            raw_view(res) == self.effect(old(state)@, *old(reg_set)).result,
    {
        let val1 = self.bw.sign_extend_u64(self.reg1.read_value_with_state(state, reg_set)?);
        let val2 = self.bw.read_u64(self.reg2.read_value_with_state(state, reg_set)?);
        let val = self.bw.read_i64(val1 >> val2);
        let val = val as u64;
        state.write_register_with_debt(reg_set, &self.target_reg, val)
    }
}

impl InstBitwiseAnd {
    /// The registers named exist.
    pub open spec fn wf(self) -> bool {
        self.operands().0.wf() && self.operands().1.wf() && self.operands().2.wf()
    }

    /// The value written to the target register.
    pub open spec fn value(self, regs: SwppRegisterSet) -> u64 {
        let (a, b, t, bw) = self.operands();
        and_value(bw, a.value(regs), b.value(regs))
    }

    pub open spec fn effect(self, m: Machine, regs: SwppRegisterSet) -> Effect<()> {
        let (a, b, t, bw) = self.operands();
        let v = self.value(regs);
        binop_effect(m, a, b, t, v, ())
    }

    pub fn run(&self, state: &mut SwppState, reg_set: &mut SwppRegisterSet) -> (res: SwppRawResult<()>)
        requires
            old(state).wf(),
            self.wf(),
            old(state).budget() <= u64::MAX,
        ensures
            final(state).wf(),
            final(state).budget() <= old(state).budget(),
            final(state)@ == self.effect(old(state)@, *old(reg_set)).machine,
            regs_after(*old(reg_set), *final(reg_set), self.effect(old(state)@, *old(reg_set)).write),
            raw_view(res) == self.effect(old(state)@, *old(reg_set)).result,
    {
        let val1 = self.bw.read_u64(self.reg1.read_value_with_state(state, reg_set)?);
        let val2 = self.bw.read_u64(self.reg2.read_value_with_state(state, reg_set)?);
        let val = self.bw.read_u64(val1 & val2);
        state.write_register_with_debt(reg_set, &self.target_reg, val)
    }
}

impl InstBitwiseOr {
    /// The registers named exist.
    pub open spec fn wf(self) -> bool {
        self.operands().0.wf() && self.operands().1.wf() && self.operands().2.wf()
    }

    /// The value written to the target register.
    pub open spec fn value(self, regs: SwppRegisterSet) -> u64 {
        let (a, b, t, bw) = self.operands();
        or_value(bw, a.value(regs), b.value(regs))
    }

    pub open spec fn effect(self, m: Machine, regs: SwppRegisterSet) -> Effect<()> {
        let (a, b, t, bw) = self.operands();
        let v = self.value(regs);
        binop_effect(m, a, b, t, v, ())
    }

    pub fn run(&self, state: &mut SwppState, reg_set: &mut SwppRegisterSet) -> (res: SwppRawResult<()>)
        requires
            old(state).wf(),
            self.wf(),
            old(state).budget() <= u64::MAX,
        ensures
            final(state).wf(),
            final(state).budget() <= old(state).budget(),
            final(state)@ == self.effect(old(state)@, *old(reg_set)).machine,
            regs_after(*old(reg_set), *final(reg_set), self.effect(old(state)@, *old(reg_set)).write),
            raw_view(res) == self.effect(old(state)@, *old(reg_set)).result,
    {
        let val1 = self.bw.read_u64(self.reg1.read_value_with_state(state, reg_set)?);
        let val2 = self.bw.read_u64(self.reg2.read_value_with_state(state, reg_set)?);
        let val = self.bw.read_u64(val1 | val2);
        state.write_register_with_debt(reg_set, &self.target_reg, val)
    }
}

impl InstBitwiseXor {
    /// The registers named exist.
    pub open spec fn wf(self) -> bool {
        self.operands().0.wf() && self.operands().1.wf() && self.operands().2.wf()
    }

    /// The value written to the target register.
    pub open spec fn value(self, regs: SwppRegisterSet) -> u64 {
        let (a, b, t, bw) = self.operands();
        xor_value(bw, a.value(regs), b.value(regs))
    }

    pub open spec fn effect(self, m: Machine, regs: SwppRegisterSet) -> Effect<()> {
        let (a, b, t, bw) = self.operands();
        let v = self.value(regs);
        binop_effect(m, a, b, t, v, ())
    }

    pub fn run(&self, state: &mut SwppState, reg_set: &mut SwppRegisterSet) -> (res: SwppRawResult<()>)
        requires
            old(state).wf(),
            self.wf(),
            old(state).budget() <= u64::MAX,
        ensures
            final(state).wf(),
            final(state).budget() <= old(state).budget(),
            final(state)@ == self.effect(old(state)@, *old(reg_set)).machine,
            regs_after(*old(reg_set), *final(reg_set), self.effect(old(state)@, *old(reg_set)).write),
            raw_view(res) == self.effect(old(state)@, *old(reg_set)).result,
    {
        let val1 = self.bw.read_u64(self.reg1.read_value_with_state(state, reg_set)?);
        let val2 = self.bw.read_u64(self.reg2.read_value_with_state(state, reg_set)?);
        let val = self.bw.read_u64(val1 ^ val2);
        state.write_register_with_debt(reg_set, &self.target_reg, val)
    }
}

impl InstEAdd {
    /// The registers named exist.
    pub open spec fn wf(self) -> bool {
        self.operands().0.wf() && self.operands().1.wf() && self.operands().2.wf()
    }

    /// The value written to the target register.
    pub open spec fn value(self, regs: SwppRegisterSet) -> u64 {
        let (a, b, t, bw) = self.operands();
        add_value(bw, a.value(regs), b.value(regs))
    }

    pub open spec fn effect(self, m: Machine, regs: SwppRegisterSet) -> Effect<u64> {
        let (a, b, t, bw) = self.operands();
        let v = self.value(regs);
        binop_effect(m, a, b, t, v, parity_cost(v, false))
    }

    pub fn run(&self, state: &mut SwppState, reg_set: &mut SwppRegisterSet) -> (res: SwppRawResult<u64>)
        requires
            old(state).wf(),
            self.wf(),
            old(state).budget() <= u64::MAX,
        ensures
            final(state).wf(),
            final(state).budget() <= old(state).budget(),
            final(state)@ == self.effect(old(state)@, *old(reg_set)).machine,
            regs_after(*old(reg_set), *final(reg_set), self.effect(old(state)@, *old(reg_set)).write),
            raw_view(res) == self.effect(old(state)@, *old(reg_set)).result,
    {
        let val1 = self.bw.read_u64(self.reg1.read_value_with_state(state, reg_set)?);
        let val2 = self.bw.read_u64(self.reg2.read_value_with_state(state, reg_set)?);
        proof {
            assert(vstd::wrapping::u64_specs::wrapping_add(val1, val2) == crate::common::wrap64(val1 + val2));
        }
        let val = self.bw.read_u64(val1.wrapping_add(val2));
        let cost = if val % 2 == 0 {
            BASIC_COST_ARITH_INT_ADDSUB_RIGHT
        } else {
            BASIC_COST_ARITH_INT_ADDSUB_WRONG
        };
        state.write_register_with_debt(reg_set, &self.target_reg, val)?;
        Ok(cost)
    }
}

impl InstOAdd {
    /// The registers named exist.
    pub open spec fn wf(self) -> bool {
        self.operands().0.wf() && self.operands().1.wf() && self.operands().2.wf()
    }

    /// The value written to the target register.
    pub open spec fn value(self, regs: SwppRegisterSet) -> u64 {
        let (a, b, t, bw) = self.operands();
        add_value(bw, a.value(regs), b.value(regs))
    }

    pub open spec fn effect(self, m: Machine, regs: SwppRegisterSet) -> Effect<u64> {
        let (a, b, t, bw) = self.operands();
        let v = self.value(regs);
        binop_effect(m, a, b, t, v, parity_cost(v, true))
    }

    pub fn run(&self, state: &mut SwppState, reg_set: &mut SwppRegisterSet) -> (res: SwppRawResult<u64>)
        requires
            old(state).wf(),
            self.wf(),
            old(state).budget() <= u64::MAX,
        ensures
            final(state).wf(),
            final(state).budget() <= old(state).budget(),
            final(state)@ == self.effect(old(state)@, *old(reg_set)).machine,
            regs_after(*old(reg_set), *final(reg_set), self.effect(old(state)@, *old(reg_set)).write),
            raw_view(res) == self.effect(old(state)@, *old(reg_set)).result,
    {
        let val1 = self.bw.read_u64(self.reg1.read_value_with_state(state, reg_set)?);
        let val2 = self.bw.read_u64(self.reg2.read_value_with_state(state, reg_set)?);
        proof {
            assert(vstd::wrapping::u64_specs::wrapping_add(val1, val2) == crate::common::wrap64(val1 + val2));
        }
        let val = self.bw.read_u64(val1.wrapping_add(val2));
        let cost = if val % 2 == 1 {
            BASIC_COST_ARITH_INT_ADDSUB_RIGHT
        } else {
            BASIC_COST_ARITH_INT_ADDSUB_WRONG
        };
        state.write_register_with_debt(reg_set, &self.target_reg, val)?;
        Ok(cost)
    }
}

impl InstESub {
    /// The registers named exist.
    pub open spec fn wf(self) -> bool {
        self.operands().0.wf() && self.operands().1.wf() && self.operands().2.wf()
    }

    /// The value written to the target register.
    pub open spec fn value(self, regs: SwppRegisterSet) -> u64 {
        let (a, b, t, bw) = self.operands();
        sub_value(bw, a.value(regs), b.value(regs))
    }

    pub open spec fn effect(self, m: Machine, regs: SwppRegisterSet) -> Effect<u64> {
        let (a, b, t, bw) = self.operands();
        let v = self.value(regs);
        binop_effect(m, a, b, t, v, parity_cost(v, false))
    }

    pub fn run(&self, state: &mut SwppState, reg_set: &mut SwppRegisterSet) -> (res: SwppRawResult<u64>)
        requires
            old(state).wf(),
            self.wf(),
            old(state).budget() <= u64::MAX,
        ensures
            final(state).wf(),
            final(state).budget() <= old(state).budget(),
            final(state)@ == self.effect(old(state)@, *old(reg_set)).machine,
            regs_after(*old(reg_set), *final(reg_set), self.effect(old(state)@, *old(reg_set)).write),
            raw_view(res) == self.effect(old(state)@, *old(reg_set)).result,
    {
        let val1 = self.bw.read_u64(self.reg1.read_value_with_state(state, reg_set)?);
        let val2 = self.bw.read_u64(self.reg2.read_value_with_state(state, reg_set)?);
        proof {
            assert(vstd::wrapping::u64_specs::wrapping_sub(val1, val2) == crate::common::wrap64(val1 - val2));
        }
        let val = self.bw.read_u64(val1.wrapping_sub(val2));
        let cost = if val % 2 == 0 {
            BASIC_COST_ARITH_INT_ADDSUB_RIGHT
        } else {
            BASIC_COST_ARITH_INT_ADDSUB_WRONG
        };
        state.write_register_with_debt(reg_set, &self.target_reg, val)?;
        Ok(cost)
    }
}

impl InstOSub {
    /// The registers named exist.
    pub open spec fn wf(self) -> bool {
        self.operands().0.wf() && self.operands().1.wf() && self.operands().2.wf()
    }

    /// The value written to the target register.
    pub open spec fn value(self, regs: SwppRegisterSet) -> u64 {
        let (a, b, t, bw) = self.operands();
        sub_value(bw, a.value(regs), b.value(regs))
    }

    pub open spec fn effect(self, m: Machine, regs: SwppRegisterSet) -> Effect<u64> {
        let (a, b, t, bw) = self.operands();
        let v = self.value(regs);
        binop_effect(m, a, b, t, v, parity_cost(v, true))
    }

    pub fn run(&self, state: &mut SwppState, reg_set: &mut SwppRegisterSet) -> (res: SwppRawResult<u64>)
        requires
            old(state).wf(),
            self.wf(),
            old(state).budget() <= u64::MAX,
        ensures
            final(state).wf(),
            final(state).budget() <= old(state).budget(),
            final(state)@ == self.effect(old(state)@, *old(reg_set)).machine,
            regs_after(*old(reg_set), *final(reg_set), self.effect(old(state)@, *old(reg_set)).write),
            raw_view(res) == self.effect(old(state)@, *old(reg_set)).result,
    {
        let val1 = self.bw.read_u64(self.reg1.read_value_with_state(state, reg_set)?);
        let val2 = self.bw.read_u64(self.reg2.read_value_with_state(state, reg_set)?);
        proof {
            assert(vstd::wrapping::u64_specs::wrapping_sub(val1, val2) == crate::common::wrap64(val1 - val2));
        }
        let val = self.bw.read_u64(val1.wrapping_sub(val2));
        let cost = if val % 2 == 1 {
            BASIC_COST_ARITH_INT_ADDSUB_RIGHT
        } else {
            BASIC_COST_ARITH_INT_ADDSUB_WRONG
        };
        state.write_register_with_debt(reg_set, &self.target_reg, val)?;
        Ok(cost)
    }
}


/// The cost of a jump forward, given the cost of the same jump backward.
fn scaled_forward_branch_cost(base_cost: u64) -> (res: u64)
    requires
        base_cost <= 0x1000_0000,
    ensures
        res == forward_cost(base_cost),
{
    base_cost * FORWARD_BRANCH_COST_NUMERATOR / FORWARD_BRANCH_COST_DENOMINATOR
}

/// Whether `target_block` lies after the current block of the current function.
fn is_forward_jump(state: &SwppState, target_block: &str) -> (res: SwppRawResult<bool>)
    ensures
        raw_view(res) == forward_jump(state@, target_block@),
{
    let fname = state.get_context().get_fname();
    let current_block = state.get_context().get_bname();
    let current_block_num = state.get_block_index(fname.as_str(), current_block.as_str())?;
    let target_block_num = state.get_block_index(fname.as_str(), target_block)?;
    Ok(target_block_num > current_block_num)
}

impl InstCondBr {
    pub open spec fn wf(self) -> bool {
        self.spec_cond().wf()
    }

    /// The block taken and the cost of the jump, or why there is none.
    pub open spec fn effect(self, m: Machine, regs: SwppRegisterSet) -> Effect<(Seq<char>, u64)> {
        let m1 = m.read_arg(self.spec_cond());
        let c = self.spec_cond().value(regs);
        if c != 0 && c != 1 {
            failed(m1, ErrorKindView::InvalidCondVal(c))
        } else {
            let target = if c == 0 {
                self.spec_false_target()
            } else {
                self.spec_true_target()
            };
            let base = if c == 0 {
                BASIC_COST_CONTROL_BRANCH_FALSE
            } else {
                BASIC_COST_CONTROL_BRANCH_TRUE
            };
            match forward_jump(m1, target) {
                Err(e) => failed(m1, e),
                Ok(fwd) => Effect {
                    machine: m1,
                    write: None,
                    result: Ok(
                        (
                            target,
                            if fwd {
                                forward_cost(base)
                            } else {
                                base
                            },
                        ),
                    ),
                },
            }
        }
    }

    /// Returns the name of the next block and the cost, by the value of the condition.
    pub fn run(&self, state: &mut SwppState, reg_set: &SwppRegisterSet) -> (res: SwppRawResult<
        (String, u64),
    >)
        requires
            old(state).wf(),
            self.wf(),
            old(state).budget() <= u64::MAX,
        ensures
            final(state).wf(),
            final(state).budget() <= old(state).budget(),
            final(state)@ == self.effect(old(state)@, *reg_set).machine,
            self.effect(old(state)@, *reg_set).write is None,
            match res {
                Ok((b, c)) => self.effect(old(state)@, *reg_set).result == Ok::<
                    (Seq<char>, u64),
                    ErrorKindView,
                >((b@, c)),
                Err(e) => self.effect(old(state)@, *reg_set).result == Err::<
                    (Seq<char>, u64),
                    ErrorKindView,
                >(e@),
            },
    {
        let cond = self.cond_reg.read_value_with_state(state, reg_set)?;
        let next_block = if cond == 0 {
            &self.false_target
        } else {
            &self.true_target
        };
        let mut cost = if cond == 0 {
            BASIC_COST_CONTROL_BRANCH_FALSE
        } else if cond == 1 {
            BASIC_COST_CONTROL_BRANCH_TRUE
        } else {
            return Err(SwppErrorKind::InvalidCondVal(cond));
        };
        if is_forward_jump(state, next_block.as_str())? {
            cost = scaled_forward_branch_cost(cost);
        }
        Ok((next_block.clone(), cost))
    }
}

impl InstSwitch {
    pub open spec fn wf(self) -> bool {
        self.spec_cond().wf()
    }

    /// The block the value of the condition maps to, or the default block.
    pub open spec fn next_block(self, c: u64) -> Seq<char> {
        if self.spec_jump_map().contains_key(c) {
            self.spec_jump_map()[c]@
        } else {
            self.spec_default()
        }
    }

    pub fn run(&self, state: &mut SwppState, reg_set: &SwppRegisterSet) -> (res: SwppRawResult<String>)
        requires
            old(state).wf(),
            self.wf(),
            old(state).budget() <= u64::MAX,
        ensures
            final(state).wf(),
            final(state).budget() <= old(state).budget(),
            final(state)@ == old(state)@.read_arg(self.spec_cond()),
            res matches Ok(b) && b@ == self.next_block(self.spec_cond().value(*reg_set)),
    {
        let cond = self.cond_reg.read_value_with_state(state, reg_set)?;
        let next_block = match self.jump_map.get(&cond) {
            Some(b) => b.clone(),
            None => self.default_block.clone(),
        };
        Ok(next_block)
    }
}

impl InstFunctionCall {
    pub open spec fn wf(self) -> bool {
        &&& forall|i: int| 0 <= i < self.spec_args().len() ==> (#[trigger] self.spec_args()[i]).wf()
        &&& self.spec_target() matches Some(t) ==> t.wf()
    }

    /// The values of the arguments, read in order, once the callee is known and
    /// takes that many arguments.
    pub open spec fn effect(self, m: Machine, regs: SwppRegisterSet) -> Effect<Seq<u64>> {
        match m.function(self.spec_fname()) {
            None => failed(m, ErrorKindView::UnknownFnName(self.spec_fname())),
            Some(f) => if self.spec_args().len() != f.spec_nargs() {
                failed(
                    m,
                    ErrorKindView::WrongArgNum(
                        self.spec_fname(),
                        f.spec_nargs(),
                        self.spec_args().len() as u64,
                    ),
                )
            } else {
                Effect {
                    machine: read_args(m, self.spec_args()),
                    write: None,
                    result: Ok(self.spec_args().map_values(|a: Arg| a.value(regs))),
                }
            },
        }
    }

    pub fn evaluate_args(&self, state: &mut SwppState, reg_set: &SwppRegisterSet) -> (res:
        SwppRawResult<Vec<u64>>)
        requires
            old(state).wf(),
            self.wf(),
            old(state).budget() <= u64::MAX,
        ensures
            final(state).wf(),
            final(state).budget() <= old(state).budget(),
            final(state)@ == self.effect(old(state)@, *reg_set).machine,
            match res {
                Ok(v) => self.effect(old(state)@, *reg_set).result == Ok::<
                    Seq<u64>,
                    ErrorKindView,
                >(v@),
                Err(e) => self.effect(old(state)@, *reg_set).result == Err::<
                    Seq<u64>,
                    ErrorKindView,
                >(e@),
            },
    {
        let function = state.get_fn_ref(self.fname.as_str())?;
        let nargs = function.nargs();
        if self.args.len() as u64 != nargs {
            return Err(
                SwppErrorKind::WrongArgNum(self.fname.clone(), nargs, self.args.len() as u64),
            );
        }
        let ghost m0 = state@;
        let mut vals: Vec<u64> = Vec::new();
        let mut i: usize = 0;
        while i < self.args.len()
            invariant
                self.wf(),
                i <= self.args@.len(),
                state.wf(),
                state.budget() <= old(state).budget(),
                old(state).budget() <= u64::MAX,
                m0 == old(state)@,
                state@ == read_args(m0, self.args@.subrange(0, i as int)),
                vals@ == self.args@.subrange(0, i as int).map_values(|a: Arg| a.value(*reg_set)),
            decreases self.args@.len() - i,
        {
            let v = self.args[i].read_value_with_state(state, reg_set)?;
            proof {
                let s = self.args@.subrange(0, i + 1);
                assert(s.drop_last() =~= self.args@.subrange(0, i as int));
                assert(s.last() == self.args@[i as int]);
            }
            vals.push(v);
            i = i + 1;
            proof {
                assert(vals@ =~= self.args@.subrange(0, i as int).map_values(
                    |a: Arg| a.value(*reg_set),
                ));
            }
        }
        proof {
            assert(self.args@.subrange(0, self.args@.len() as int) =~= self.args@);
        }
        Ok(vals)
    }
}

impl InstAssertion {
    pub open spec fn wf(self) -> bool {
        self.spec_lhs().wf() && self.spec_rhs().wf()
    }

    pub open spec fn effect(self, m: Machine, regs: SwppRegisterSet) -> Effect<()> {
        let m2 = m.read_arg(self.spec_lhs()).read_arg(self.spec_rhs());
        let l = self.spec_lhs().value(regs);
        let r = self.spec_rhs().value(regs);
        if r == l {
            Effect { machine: m2, write: None, result: Ok(()) }
        } else {
            failed(m2, ErrorKindView::AssertionFailed(r, l))
        }
    }

    pub fn run(&self, state: &mut SwppState, reg_set: &SwppRegisterSet) -> (res: SwppRawResult<()>)
        requires
            old(state).wf(),
            self.wf(),
            old(state).budget() <= u64::MAX,
        ensures
            final(state).wf(),
            final(state).budget() <= old(state).budget(),
            final(state)@ == self.effect(old(state)@, *reg_set).machine,
            raw_view(res) == self.effect(old(state)@, *reg_set).result,
    {
        let lhs_val = self.lhs.read_value_with_state(state, reg_set)?;
        let rhs_val = self.rhs.read_value_with_state(state, reg_set)?;
        if rhs_val == lhs_val {
            Ok(())
        } else {
            Err(SwppErrorKind::AssertionFailed(rhs_val, lhs_val))
        }
    }
}

impl InstHeapAllocation {
    pub open spec fn wf(self) -> bool {
        self.spec_target().wf() && self.spec_size().wf()
    }

    /// The allocation would overflow the address arithmetic.
    pub open spec fn faults(self, m: Machine, regs: SwppRegisterSet) -> bool {
        let s = self.spec_size().value(regs);
        s != 0 && s % 8 == 0 && s + m.top > u64::MAX
    }

    pub open spec fn effect(self, m: Machine, regs: SwppRegisterSet) -> Effect<()> {
        let m1 = m.read_arg(self.spec_size());
        let s = self.spec_size().value(regs);
        if s == 0 || s % 8 != 0 {
            failed(m1, ErrorKindView::InvalidHeapAllocSize(s))
        } else if s + m1.top > MAX_HEAP_SIZE || s > usize::MAX {
            failed(m1, ErrorKindView::NOMEMHEAP)
        } else {
            write_effect(m1.malloced(s), self.spec_target(), m1.top, ())
        }
    }

    pub fn run(&self, state: &mut SwppState, reg_set: &mut SwppRegisterSet) -> (res: SwppRawResult<()>)
        requires
            old(state).wf(),
            self.wf(),
            !self.faults(old(state)@, *old(reg_set)),
            old(state).budget() <= u64::MAX,
        ensures
            final(state).wf(),
            final(state).budget() <= old(state).budget(),
            final(state)@ == self.effect(old(state)@, *old(reg_set)).machine,
            regs_after(*old(reg_set), *final(reg_set), self.effect(old(state)@, *old(reg_set)).write),
            raw_view(res) == self.effect(old(state)@, *old(reg_set)).result,
    {
        let size_u64 = self.size_reg.read_value_with_state(state, reg_set)?;
        if size_u64 == 0 || size_u64 % 8 != 0 {
            return Err(SwppErrorKind::InvalidHeapAllocSize(size_u64));
        }
        let addr = state.malloc(size_u64)?;
        state.write_register_with_debt(reg_set, &self.target_reg, addr)
    }
}

impl InstHeapFree {
    pub open spec fn wf(self) -> bool {
        self.spec_addr().wf()
    }

    pub open spec fn effect(self, m: Machine, regs: SwppRegisterSet) -> Effect<()> {
        let after = m.read_arg(self.spec_addr()).freed(self.spec_addr().value(regs));
        Effect { machine: after.0, write: None, result: after.1 }
    }

    pub fn run(&self, state: &mut SwppState, reg_set: &SwppRegisterSet) -> (res: SwppRawResult<()>)
        requires
            old(state).wf(),
            self.wf(),
            old(state).budget() <= u64::MAX,
        ensures
            final(state).wf(),
            final(state).budget() <= old(state).budget(),
            final(state)@ == self.effect(old(state)@, *reg_set).machine,
            raw_view(res) == self.effect(old(state)@, *reg_set).result,
    {
        let addr = self.addr_reg.read_value_with_state(state, reg_set)?;
        state.free(addr)
    }
}

impl InstStdWrite {
    /// The value to write out: that of the first argument register.
    pub fn run(&self, reg_set: &SwppRegisterSet) -> (res: SwppRawResult<u64>)
        ensures
            res == Ok::<u64, SwppErrorKind>(reg_set.value_of(SwppRegisterName::Argument(1))),
    {
        let arg = SwppRegisterName::Argument(1);
        reg_set.read_register_word(&arg)
    }
}


impl InstLoad {
    pub open spec fn wf(self) -> bool {
        self.spec_target().wf() && self.spec_addr().wf()
    }

    /// The value loaded is written to the target; the result is the cost of the
    /// access and the heap sectors it heated.
    pub open spec fn effect(self, m: Machine, regs: SwppRegisterSet) -> Effect<(u64, Seq<u64>)> {
        let t = self.spec_target();
        let sz = self.spec_size();
        let n = sz.spec_bytes();
        if t.spec_is_arg() {
            failed(m, ErrorKindView::ArgRegAssign(t))
        } else {
            let m1 = m.read_arg(self.spec_addr());
            let addr = self.spec_addr().value(regs);
            if addr % n != 0 {
                failed(m1, ErrorKindView::InvalidAlignment(addr, n))
            } else if addr <= MEM_STACK_SIZE {
                match stack_read_result(m1.stack, addr, n) {
                    Err(e) => failed(m1, e@),
                    Ok(v) => write_effect(
                        m1,
                        t,
                        v,
                        (MEMORY_ACCESS_COST_STACK, Seq::<u64>::empty()),
                    ),
                }
            } else if addr >= HEAP_OFFSET {
                match heap_read_result(m1.blocks, addr, n) {
                    Err(e) => failed(m1, e@),
                    Ok(v) => {
                        let sectors = m1.heap_access_sectors(addr, sz);
                        write_effect(
                            m1.heat_access(sectors),
                            t,
                            v,
                            ((MEMORY_ACCESS_COST_HEAP + m1.heap_access_extra(addr)) as u64, sectors),
                        )
                    },
                }
            } else {
                failed(m1, ErrorKindView::InvalidAddr(addr))
            }
        }
    }

    pub fn run(&self, state: &mut SwppState, reg_set: &mut SwppRegisterSet) -> (res: SwppRawResult<
        (u64, Vec<u64>),
    >)
        requires
            old(state).wf(),
            self.wf(),
            old(state).budget() <= u64::MAX,
        ensures
            final(state).wf(),
            final(state).budget() <= old(state).budget(),
            final(state)@ == self.effect(old(state)@, *old(reg_set)).machine,
            regs_after(*old(reg_set), *final(reg_set), self.effect(old(state)@, *old(reg_set)).write),
            res matches Ok((c, _)) ==> c <= MEMORY_ACCESS_COST_HEAP + HEAT_CAP_PER_SECTOR
                / HEAT_COST_DIVISOR,
            match res {
                Ok((c, s)) => self.effect(old(state)@, *old(reg_set)).result == Ok::<
                    (u64, Seq<u64>),
                    ErrorKindView,
                >((c, s@)),
                Err(e) => self.effect(old(state)@, *old(reg_set)).result == Err::<
                    (u64, Seq<u64>),
                    ErrorKindView,
                >(e@),
            },
    {
        if self.target_reg.is_arg() {
            return Err(SwppErrorKind::ArgRegAssign(self.target_reg));
        }
        let addr = self.addr_reg.read_value_with_state(state, reg_set)?;
        let size: u64 = self.size.bytes();
        if addr % size != 0 {
            return Err(SwppErrorKind::InvalidAlignment(addr, size));
        }
        let (val, base_cost) = if addr <= MEM_STACK_SIZE {
            (state.read_from_stack(addr, self.size)?, MEMORY_ACCESS_COST_STACK)
        } else if addr >= HEAP_OFFSET {
            (state.read_from_heap(addr, self.size)?, MEMORY_ACCESS_COST_HEAP)
        } else {
            return Err(SwppErrorKind::InvalidAddr(addr));
        };
        let (heat_cost, affected_sectors) = if addr <= MEM_STACK_SIZE {
            state.cost_stack(addr, self.size)
        } else {
            proof {
                state.lemma_heat_bound();
            }
            state.cost_heap(addr, self.size)
        };
        let total_cost = base_cost + heat_cost;
        state.write_register_with_debt(reg_set, &self.target_reg, val)?;
        Ok((total_cost, affected_sectors))
    }
}

impl InstStore {
    pub open spec fn wf(self) -> bool {
        self.spec_val().wf() && self.spec_addr().wf()
    }

    /// The result is the cost of the access and the heap sectors it heated.
    pub open spec fn effect(self, m: Machine, regs: SwppRegisterSet) -> Effect<(u64, Seq<u64>)> {
        let sz = self.spec_size();
        let n = sz.spec_bytes();
        let m2 = m.read_arg(self.spec_val()).read_arg(self.spec_addr());
        let v = self.spec_val().value(regs);
        let addr = self.spec_addr().value(regs);
        if addr % n != 0 {
            failed(m2, ErrorKindView::InvalidAlignment(addr, n))
        } else if addr <= MEM_STACK_SIZE {
            let m3 = Machine { stack: write_bytes(m2.stack, addr as int, v, n as nat), ..m2 };
            match stack_write_result(m2.stack, addr, n) {
                Err(e) => failed(m3, e@),
                Ok(_) => Effect {
                    machine: m3,
                    write: None,
                    result: Ok((MEMORY_ACCESS_COST_STACK, Seq::<u64>::empty())),
                },
            }
        } else if addr >= HEAP_OFFSET {
            let m3 = Machine { blocks: heap_after_write(m2.blocks, addr, v, n), ..m2 };
            match heap_write_result(m2.blocks, addr, n) {
                Err(e) => failed(m3, e@),
                Ok(_) => {
                    let sectors = m3.heap_access_sectors(addr, sz);
                    Effect {
                        machine: m3.heat_access(sectors),
                        write: None,
                        result: Ok(
                            ((MEMORY_ACCESS_COST_HEAP + m3.heap_access_extra(addr)) as u64, sectors),
                        ),
                    }
                },
            }
        } else {
            failed(m2, ErrorKindView::InvalidAddr(addr))
        }
    }

    pub fn run(&self, state: &mut SwppState, reg_set: &SwppRegisterSet) -> (res: SwppRawResult<
        (u64, Vec<u64>),
    >)
        requires
            old(state).wf(),
            self.wf(),
            old(state).budget() <= u64::MAX,
        ensures
            final(state).wf(),
            final(state).budget() <= old(state).budget(),
            final(state)@ == self.effect(old(state)@, *reg_set).machine,
            res matches Ok((c, _)) ==> c <= MEMORY_ACCESS_COST_HEAP + HEAT_CAP_PER_SECTOR
                / HEAT_COST_DIVISOR,
            match res {
                Ok((c, s)) => self.effect(old(state)@, *reg_set).result == Ok::<
                    (u64, Seq<u64>),
                    ErrorKindView,
                >((c, s@)),
                Err(e) => self.effect(old(state)@, *reg_set).result == Err::<
                    (u64, Seq<u64>),
                    ErrorKindView,
                >(e@),
            },
    {
        let val = self.val_reg.read_value_with_state(state, reg_set)?;
        let addr = self.addr_reg.read_value_with_state(state, reg_set)?;
        let size: u64 = self.size.bytes();
        if addr % size != 0 {
            return Err(SwppErrorKind::InvalidAlignment(addr, size));
        }
        let ghost blocks_before = state@.blocks;
        let base_cost = if addr <= MEM_STACK_SIZE {
            state.write_to_stack(addr, val, self.size)?;
            MEMORY_ACCESS_COST_STACK
        } else if addr >= HEAP_OFFSET {
            state.write_to_heap(addr, val, self.size)?;
            MEMORY_ACCESS_COST_HEAP
        } else {
            return Err(SwppErrorKind::InvalidAddr(addr));
        };
        let (heat_cost, affected_sectors) = if addr <= MEM_STACK_SIZE {
            state.cost_stack(addr, self.size)
        } else {
            proof {
                // the write kept every allocation where it was
                let k = crate::memory::block_of(blocks_before, addr as int);
                assert(crate::memory::holds(state@.blocks, k, addr as int));
                state.lemma_heat_bound();
            }
            state.cost_heap(addr, self.size)
        };
        let total_cost = base_cost + heat_cost;
        Ok((total_cost, affected_sectors))
    }
}

impl InstAsyncLoad {
    pub open spec fn wf(self) -> bool {
        self.spec_target().wf() && self.spec_addr().wf()
    }

    /// Like a load, but the base cost is 1 and the target owes a debt (36 on
    /// the stack, 60 on the heap) until enough cost elapses or it is read.
    pub open spec fn effect(self, m: Machine, regs: SwppRegisterSet) -> Effect<(u64, Seq<u64>)> {
        let t = self.spec_target();
        let sz = self.spec_size();
        let n = sz.spec_bytes();
        if t.spec_is_arg() {
            failed(m, ErrorKindView::ArgRegAssign(t))
        } else {
            let m1 = m.read_arg(self.spec_addr());
            let addr = self.spec_addr().value(regs);
            if addr % n != 0 {
                failed(m1, ErrorKindView::InvalidAlignment(addr, n))
            } else if addr <= MEM_STACK_SIZE {
                match stack_read_result(m1.stack, addr, n) {
                    Err(e) => failed(m1, e@),
                    Ok(v) => Effect {
                        machine: m1.set_debt(t, ALOAD_DEBT_STACK),
                        write: Some((t, v)),
                        result: Ok((1, Seq::<u64>::empty())),
                    },
                }
            } else if addr >= HEAP_OFFSET {
                match heap_read_result(m1.blocks, addr, n) {
                    Err(e) => failed(m1, e@),
                    Ok(v) => {
                        let sectors = m1.heap_access_sectors(addr, sz);
                        Effect {
                            machine: m1.heat_access(sectors).set_debt(t, ALOAD_DEBT_HEAP),
                            write: Some((t, v)),
                            result: Ok(((1 + m1.heap_access_extra(addr)) as u64, sectors)),
                        }
                    },
                }
            } else {
                failed(m1, ErrorKindView::InvalidAddr(addr))
            }
        }
    }

    pub fn run(&self, state: &mut SwppState, reg_set: &mut SwppRegisterSet) -> (res: SwppRawResult<
        (u64, Vec<u64>),
    >)
        requires
            old(state).wf(),
            self.wf(),
            old(state).budget() <= u64::MAX,
        ensures
            final(state).wf(),
            final(state).budget() <= old(state).budget() + ALOAD_DEBT_HEAP,
            final(state)@ == self.effect(old(state)@, *old(reg_set)).machine,
            regs_after(*old(reg_set), *final(reg_set), self.effect(old(state)@, *old(reg_set)).write),
            res matches Ok((c, _)) ==> c <= MEMORY_ACCESS_COST_HEAP + HEAT_CAP_PER_SECTOR
                / HEAT_COST_DIVISOR,
            match res {
                Ok((c, s)) => self.effect(old(state)@, *old(reg_set)).result == Ok::<
                    (u64, Seq<u64>),
                    ErrorKindView,
                >((c, s@)),
                Err(e) => self.effect(old(state)@, *old(reg_set)).result == Err::<
                    (u64, Seq<u64>),
                    ErrorKindView,
                >(e@),
            },
    {
        if self.target_reg.is_arg() {
            return Err(SwppErrorKind::ArgRegAssign(self.target_reg));
        }
        let addr = self.addr_reg.read_value_with_state(state, reg_set)?;
        let size: u64 = self.size.bytes();
        if addr % size != 0 {
            return Err(SwppErrorKind::InvalidAlignment(addr, size));
        }
        let val = if addr <= MEM_STACK_SIZE {
            state.read_from_stack(addr, self.size)?
        } else if addr >= HEAP_OFFSET {
            state.read_from_heap(addr, self.size)?
        } else {
            return Err(SwppErrorKind::InvalidAddr(addr));
        };
        let (heat_cost, affected_sectors) = if addr <= MEM_STACK_SIZE {
            state.cost_stack(addr, self.size)
        } else {
            proof {
                state.lemma_heat_bound();
            }
            state.cost_heap(addr, self.size)
        };
        let base_cost: u64 = 1;
        let debt = if addr <= MEM_STACK_SIZE {
            ALOAD_DEBT_STACK
        } else {
            ALOAD_DEBT_HEAP
        };
        let total_cost = base_cost + heat_cost;
        // A new value replaces the target's old one, and with it any debt the old one owed.
        state.write_register_with_debt(reg_set, &self.target_reg, val)?;
        state.create_aload_debt(self.target_reg, debt);
        proof {
            assert(state@ =~= self.effect(old(state)@, *old(reg_set)).machine);
        }
        Ok((total_cost, affected_sectors))
    }
}

impl InstComparison {
    pub open spec fn wf(self) -> bool {
        self.operands().0.wf() && self.operands().1.wf() && self.operands().2.wf()
    }

    pub open spec fn value(self, regs: SwppRegisterSet) -> u64 {
        let (a, b, t, bw) = self.operands();
        compare_value(self.spec_cond(), bw, a.value(regs), b.value(regs))
    }

    pub open spec fn effect(self, m: Machine, regs: SwppRegisterSet) -> Effect<()> {
        let (a, b, t, bw) = self.operands();
        binop_effect(m, a, b, t, self.value(regs), ())
    }

    pub fn run(&self, state: &mut SwppState, reg_set: &mut SwppRegisterSet) -> (res: SwppRawResult<()>)
        requires
            old(state).wf(),
            self.wf(),
            old(state).budget() <= u64::MAX,
        ensures
            final(state).wf(),
            final(state).budget() <= old(state).budget(),
            final(state)@ == self.effect(old(state)@, *old(reg_set)).machine,
            regs_after(*old(reg_set), *final(reg_set), self.effect(old(state)@, *old(reg_set)).write),
            raw_view(res) == self.effect(old(state)@, *old(reg_set)).result,
    {
        let val1 = self.bw.read_u64(self.reg1.read_value_with_state(state, reg_set)?);
        let val2 = self.bw.read_u64(self.reg2.read_value_with_state(state, reg_set)?);
        proof {
            self.bw.lemma_modulus();
        }
        let holds = match self.bw {
            BitWidth::Bit => {
                let val1 = val1 != 0;
                let val2 = val2 != 0;
                self.cond.compare_bit(val1, val2)
            },
            BitWidth::Byte => {
                let val1 = val1 as u8;
                let val2 = val2 as u8;
                proof {
                    assert((val1 as i8) as int == if val1 < 0x80 {
                        val1 as int
                    } else {
                        val1 as int - 0x100
                    }) by (bit_vector);
                    assert((val2 as i8) as int == if val2 < 0x80 {
                        val2 as int
                    } else {
                        val2 as int - 0x100
                    }) by (bit_vector);
                }
                self.cond.compare_u8(val1, val2)
            },
            BitWidth::Short => {
                let val1 = val1 as u16;
                let val2 = val2 as u16;
                proof {
                    assert((val1 as i16) as int == if val1 < 0x8000 {
                        val1 as int
                    } else {
                        val1 as int - 0x1_0000
                    }) by (bit_vector);
                    assert((val2 as i16) as int == if val2 < 0x8000 {
                        val2 as int
                    } else {
                        val2 as int - 0x1_0000
                    }) by (bit_vector);
                }
                self.cond.compare_u16(val1, val2)
            },
            BitWidth::Quad => {
                let val1 = val1 as u32;
                let val2 = val2 as u32;
                proof {
                    assert((val1 as i32) as int == if val1 < 0x8000_0000 {
                        val1 as int
                    } else {
                        val1 as int - 0x1_0000_0000
                    }) by (bit_vector);
                    assert((val2 as i32) as int == if val2 < 0x8000_0000 {
                        val2 as int
                    } else {
                        val2 as int - 0x1_0000_0000
                    }) by (bit_vector);
                }
                self.cond.compare_u32(val1, val2)
            },
            BitWidth::Full => {
                proof {
                    assert((val1 as i64) as int == if val1 < 0x8000_0000_0000_0000 {
                        val1 as int
                    } else {
                        val1 as int - 0x1_0000_0000_0000_0000
                    }) by (bit_vector);
                    assert((val2 as i64) as int == if val2 < 0x8000_0000_0000_0000 {
                        val2 as int
                    } else {
                        val2 as int - 0x1_0000_0000_0000_0000
                    }) by (bit_vector);
                }
                self.cond.compare_u64(val1, val2)
            },
        };
        let val: u64 = if holds {
            1
        } else {
            0
        };
        state.write_register_with_debt(reg_set, &self.target_reg, val)
    }
}

impl InstTernary {
    pub open spec fn wf(self) -> bool {
        &&& self.spec_false().wf()
        &&& self.spec_true().wf()
        &&& self.spec_cond().wf()
        &&& self.spec_target().wf()
    }

    /// The condition is read; then the operand it selects is read and written to the target.
    pub open spec fn effect(self, m: Machine, regs: SwppRegisterSet) -> Effect<()> {
        let m1 = m.read_arg(self.spec_cond());
        let c = self.spec_cond().value(regs);
        if c == 0 {
            write_effect(
                m1.read_arg(self.spec_false()),
                self.spec_target(),
                self.spec_false().value(regs),
                (),
            )
        } else if c == 1 {
            write_effect(
                m1.read_arg(self.spec_true()),
                self.spec_target(),
                self.spec_true().value(regs),
                (),
            )
        } else {
            failed(m1, ErrorKindView::InvalidCondVal(c))
        }
    }

    pub fn run(&self, state: &mut SwppState, reg_set: &mut SwppRegisterSet) -> (res: SwppRawResult<()>)
        requires
            old(state).wf(),
            self.wf(),
            old(state).budget() <= u64::MAX,
        ensures
            final(state).wf(),
            final(state).budget() <= old(state).budget(),
            final(state)@ == self.effect(old(state)@, *old(reg_set)).machine,
            regs_after(*old(reg_set), *final(reg_set), self.effect(old(state)@, *old(reg_set)).write),
            raw_view(res) == self.effect(old(state)@, *old(reg_set)).result,
    {
        let cond = self.cond_reg.read_value_with_state(state, reg_set)?;
        let val = if cond == 0 {
            self.false_reg.read_value_with_state(state, reg_set)?
        } else if cond == 1 {
            self.true_reg.read_value_with_state(state, reg_set)?
        } else {
            return Err(SwppErrorKind::InvalidCondVal(cond));
        };
        state.write_register_with_debt(reg_set, &self.target_reg, val)
    }
}


/// The step ends after `e`: on success `cost` and the 4-phobia surcharge of

/// What the logger is handed when an instruction's end is charged from the
/// state `m`: the 4-phobia surcharge, if paid, then the base cost when it is
/// logged, each with the total cost after it.
pub open spec fn end_log(
    m: Machine,
    loc: u64,
    inst_name: Seq<char>,
    log_name: Seq<char>,
    cost: u64,
    extra: u64,
    log_base: bool,
) -> Seq<LogEvent> {
    (if extra > 0 {
        seq![
            LogEvent::Record {
                line: loc,
                inst: inst_name + "-4phobia"@,
                cost: extra,
                total: (m.cost + extra) as u64,
                fname: m.fname,
            },
        ]
    } else {
        Seq::empty()
    }) + (if log_base {
        seq![
            LogEvent::Record {
                line: loc,
                inst: log_name,
                cost: cost,
                total: (m.cost + extra + cost) as u64,
                fname: m.fname,
            },
        ]
    } else {
        Seq::empty()
    })
}

/// What the logger is handed when the deferred cost, if any, is charged.
pub open spec fn flush_log(m: Machine) -> Seq<LogEvent> {
    match m.pending {
        Some(p) => seq![
            LogEvent::Record {
                line: p.loc,
                inst: p.name,
                cost: BASIC_COST_ARITH_INT_MULDIV,
                total: (m.cost + BASIC_COST_ARITH_INT_MULDIV) as u64,
                fname: p.fname,
            },
        ],
        None => Seq::empty(),
    }
}

/// What the logger is handed when the deferred cost, if any, is dropped.
pub open spec fn cancel_log(m: Machine) -> Seq<LogEvent> {
    match m.pending {
        Some(p) => seq![
            LogEvent::Record {
                line: p.loc,
                inst: p.name + "-FMA"@,
                cost: 0,
                total: m.cost as u64,
                fname: p.fname,
            },
        ],
        None => Seq::empty(),
    }
}

/// The log of an instruction end after the effect `e`, when it succeeds.
pub open spec fn finish_log<T>(
    e: Effect<T>,
    loc: u64,
    name: Seq<char>,
    cost: u64,
    args: Seq<Arg>,
    size: Option<AccessSize>,
) -> Seq<LogEvent> {
    match e.result {
        Err(_) => Seq::empty(),
        Ok(_) => end_log(e.machine, loc, name, name, cost, phobia_extra(args, size), true),
    }
}

/// The log of a memory access's end: its cost is the effect's result.
pub open spec fn access_log(
    e: Effect<(u64, Seq<u64>)>,
    loc: u64,
    name: Seq<char>,
    args: Seq<Arg>,
    size: AccessSize,
) -> Seq<LogEvent> {
    match e.result {
        Err(_) => Seq::empty(),
        Ok((c, _)) => end_log(e.machine, loc, name, name, c, phobia_extra(args, Some(size)), true),
    }
}

/// The log of a multiplication, division or remainder's end: only the
/// surcharge, as its own cost is deferred.
pub open spec fn defer_log<T>(e: Effect<T>, loc: u64, name: Seq<char>, args: Seq<Arg>) -> Seq<
    LogEvent,
> {
    match e.result {
        Err(_) => Seq::empty(),
        Ok(_) => end_log(e.machine, loc, name, name, 0, phobia_extra(args, None), false),
    }
}

/// The log of an add or sub's end: when it fuses, the deferred cost is
/// dropped first.
pub open spec fn addsub_log(
    e: Effect<u64>,
    loc: u64,
    name: Seq<char>,
    args: Seq<Arg>,
    fused: bool,
) -> Seq<LogEvent> {
    match e.result {
        Err(_) => Seq::empty(),
        Ok(c) => if fused {
            cancel_log(e.machine) + end_log(
                e.machine.cancel_pending(),
                loc,
                name,
                name,
                c,
                phobia_extra(args, None),
                true,
            )
        } else {
            end_log(e.machine, loc, name, name, c, phobia_extra(args, None), true)
        },
    }
}

/// `args` and `size` are charged and elapse.
pub open spec fn then_finish<T>(
    e: Effect<T>,
    cost: u64,
    args: Seq<Arg>,
    size: Option<AccessSize>,
) -> Effect<Option<BlockResultView>> {
    match e.result {
        Err(err) => Effect { machine: e.machine, write: e.write, result: Err(err) },
        Ok(_) => Effect {
            machine: finished(e.machine, cost, phobia_extra(args, size), None, None),
            write: e.write,
            result: Ok(None),
        },
    }
}

/// The step ends after `e`, a multiplication, division or remainder: on success
/// only the surcharge is charged now, and the cost of the operation is deferred.
pub open spec fn then_defer<T>(e: Effect<T>, args: Seq<Arg>, loc: u64, name: Seq<char>) -> Effect<
    Option<BlockResultView>,
> {
    match e.result {
        Err(err) => Effect { machine: e.machine, write: e.write, result: Err(err) },
        Ok(_) => Effect {
            machine: finished(e.machine, 0, phobia_extra(args, None), None, None).defer(loc, name),
            write: e.write,
            result: Ok(None),
        },
    }
}

/// The step ends after `e`, an add or sub whose result is its cost; when it
/// fuses with a deferred operation, that operation's cost is dropped.
pub open spec fn then_addsub(e: Effect<u64>, args: Seq<Arg>, fused: bool) -> Effect<
    Option<BlockResultView>,
> {
    match e.result {
        Err(err) => Effect { machine: e.machine, write: e.write, result: Err(err) },
        Ok(c) => Effect {
            machine: finished(
                if fused {
                    e.machine.cancel_pending()
                } else {
                    e.machine
                },
                c,
                phobia_extra(args, None),
                None,
                None,
            ),
            write: e.write,
            result: Ok(None),
        },
    }
}

/// The step ends after `e`, a memory access whose result is its cost and the
/// sectors it heated; those sectors do not cool during the access.
pub open spec fn then_access(
    e: Effect<(u64, Seq<u64>)>,
    args: Seq<Arg>,
    size: AccessSize,
    excl: Option<SwppRegisterName>,
) -> Effect<Option<BlockResultView>> {
    match e.result {
        Err(err) => Effect { machine: e.machine, write: e.write, result: Err(err) },
        Ok((c, sectors)) => Effect {
            machine: finished(e.machine, c, phobia_extra(args, Some(size)), Some(sectors), excl),
            write: e.write,
            result: Ok(None),
        },
    }
}

/// The view of the result of running an instruction: what it asks of the
/// program loop, or the kind of its error.
pub open spec fn step_result_view(res: SwppResult<Option<BlockResult>>) -> Result<
    Option<BlockResultView>,
    ErrorKindView,
> {
    match res {
        Ok(Some(b)) => Ok(Some(b@)),
        Ok(None) => Ok(None),
        Err(e) => Err(e.spec_kind()@),
    }
}

/// What running `Ret` does, from the machine `m0` where any deferred cost
/// has been dealt with.
#[verifier::opaque]
pub open spec fn ret_outcome(
    x: InstRet,
    m0: Machine,
    regs: SwppRegisterSet,
    loc: u64,
    name: Seq<char>,
    fused: bool,
) -> Effect<Option<BlockResultView>> {
    match x.spec_val() {
        None => Effect {
            machine: finished(m0, BASIC_COST_CONTROL_RET, 0, None, None),
            write: None,
            result: Ok(Some(BlockResultView::Return(None))),
        },
        Some(a) => Effect {
            machine: finished(
                m0.read_arg(a),
                BASIC_COST_CONTROL_RET,
                phobia_extra(seq![a], None),
                None,
                None,
            ),
            write: None,
            result: Ok(Some(BlockResultView::Return(Some(a.value(regs))))),
        },
    }
}

/// What running `UBranch` does, from the machine `m0` where any deferred cost
/// has been dealt with.
#[verifier::opaque]
pub open spec fn ubranch_outcome(
    x: InstUncondBr,
    m0: Machine,
    regs: SwppRegisterSet,
    loc: u64,
    name: Seq<char>,
    fused: bool,
) -> Effect<Option<BlockResultView>> {
    match forward_jump(m0, x.spec_target()) {
        Err(e) => failed(m0, e),
        Ok(fwd) => Effect {
            machine: finished(
                m0,
                if fwd {
                    forward_cost(BASIC_COST_CONTROL_UBRANCH)
                } else {
                    BASIC_COST_CONTROL_UBRANCH
                },
                0,
                None,
                None,
            ),
            write: None,
            result: Ok(Some(BlockResultView::NextBlock(x.spec_target(), loc))),
        },
    }
}

/// What running `Branch` does, from the machine `m0` where any deferred cost
/// has been dealt with.
#[verifier::opaque]
pub open spec fn branch_outcome(
    x: InstCondBr,
    m0: Machine,
    regs: SwppRegisterSet,
    loc: u64,
    name: Seq<char>,
    fused: bool,
) -> Effect<Option<BlockResultView>> {
    {
        let e = x.effect(m0, regs);
        match e.result {
            Err(err) => failed(e.machine, err),
            Ok((b, c)) => Effect {
                machine: finished(
                    e.machine,
                    c,
                    phobia_extra(seq![x.spec_cond()], None),
                    None,
                    None,
                ),
                write: None,
                result: Ok(Some(BlockResultView::NextBlock(b, loc))),
            },
        }
    }
}

/// What running `Switch` does, from the machine `m0` where any deferred cost
/// has been dealt with.
#[verifier::opaque]
pub open spec fn switch_outcome(
    x: InstSwitch,
    m0: Machine,
    regs: SwppRegisterSet,
    loc: u64,
    name: Seq<char>,
    fused: bool,
) -> Effect<Option<BlockResultView>> {
    Effect {
        machine: finished(
            m0.read_arg(x.spec_cond()),
            BASIC_COST_CONTROL_SWITCH,
            phobia_extra(seq![x.spec_cond()], None),
            None,
            None,
        ),
        write: None,
        result: Ok(
            Some(BlockResultView::NextBlock(x.next_block(x.spec_cond().value(regs)), loc)),
        ),
    }
}

/// What running `FnCall` does, from the machine `m0` where any deferred cost
/// has been dealt with.
#[verifier::opaque]
pub open spec fn fncall_outcome(
    x: InstFunctionCall,
    m0: Machine,
    regs: SwppRegisterSet,
    loc: u64,
    name: Seq<char>,
    fused: bool,
) -> Effect<Option<BlockResultView>> {
    {
        let e = x.effect(m0, regs);
        match e.result {
            Err(err) => failed(e.machine, err),
            Ok(vals) => Effect {
                machine: finished(
                    e.machine,
                    BASIC_COST_CONTROL_FNCALL,
                    phobia_extra(x.spec_args(), None),
                    None,
                    None,
                ),
                write: None,
                result: Ok(
                    Some(
                        BlockResultView::Call(
                            CallView {
                                fname: x.spec_fname(),
                                args: vals,
                                target: x.spec_target(),
                                loc: loc,
                            },
                        ),
                    ),
                ),
            },
        }
    }
}

/// What running `Assert` does, from the machine `m0` where any deferred cost
/// has been dealt with.
#[verifier::opaque]
pub open spec fn assert_outcome(
    x: InstAssertion,
    m0: Machine,
    regs: SwppRegisterSet,
    loc: u64,
    name: Seq<char>,
    fused: bool,
) -> Effect<Option<BlockResultView>> {
    then_finish(x.effect(m0, regs), 0, seq![], None)
}

/// What running `Malloc` does, from the machine `m0` where any deferred cost
/// has been dealt with.
#[verifier::opaque]
pub open spec fn malloc_outcome(
    x: InstHeapAllocation,
    m0: Machine,
    regs: SwppRegisterSet,
    loc: u64,
    name: Seq<char>,
    fused: bool,
) -> Effect<Option<BlockResultView>> {
    then_finish(
        x.effect(m0, regs),
        BASIC_COST_MEM_HEAP_OP,
        seq![x.spec_size()],
        None,
    )
}

/// What running `Free` does, from the machine `m0` where any deferred cost
/// has been dealt with.
#[verifier::opaque]
pub open spec fn free_outcome(
    x: InstHeapFree,
    m0: Machine,
    regs: SwppRegisterSet,
    loc: u64,
    name: Seq<char>,
    fused: bool,
) -> Effect<Option<BlockResultView>> {
    then_finish(
        x.effect(m0, regs),
        BASIC_COST_MEM_HEAP_OP,
        seq![x.spec_addr()],
        None,
    )
}

/// What running `Load` does, from the machine `m0` where any deferred cost
/// has been dealt with.
#[verifier::opaque]
pub open spec fn load_outcome(
    x: InstLoad,
    m0: Machine,
    regs: SwppRegisterSet,
    loc: u64,
    name: Seq<char>,
    fused: bool,
) -> Effect<Option<BlockResultView>> {
    then_access(
        x.effect(m0, regs),
        seq![x.spec_addr()],
        x.spec_size(),
        None,
    )
}

/// What running `Store` does, from the machine `m0` where any deferred cost
/// has been dealt with.
#[verifier::opaque]
pub open spec fn store_outcome(
    x: InstStore,
    m0: Machine,
    regs: SwppRegisterSet,
    loc: u64,
    name: Seq<char>,
    fused: bool,
) -> Effect<Option<BlockResultView>> {
    then_access(
        x.effect(m0, regs),
        seq![x.spec_val(), x.spec_addr()],
        x.spec_size(),
        None,
    )
}

/// What running `ALoad` does, from the machine `m0` where any deferred cost
/// has been dealt with.
#[verifier::opaque]
pub open spec fn aload_outcome(
    x: InstAsyncLoad,
    m0: Machine,
    regs: SwppRegisterSet,
    loc: u64,
    name: Seq<char>,
    fused: bool,
) -> Effect<Option<BlockResultView>> {
    then_access(
        x.effect(m0, regs),
        seq![x.spec_addr()],
        x.spec_size(),
        Some(x.spec_target()),
    )
}

/// What running `UDiv` does, from the machine `m0` where any deferred cost
/// has been dealt with.
#[verifier::opaque]
pub open spec fn udiv_outcome(
    x: InstUnsignedDivision,
    m0: Machine,
    regs: SwppRegisterSet,
    loc: u64,
    name: Seq<char>,
    fused: bool,
) -> Effect<Option<BlockResultView>> {
    then_defer(
        x.effect(m0, regs),
        seq![x.operands().0, x.operands().1],
        loc,
        name,
    )
}

/// What running `SDiv` does, from the machine `m0` where any deferred cost
/// has been dealt with.
#[verifier::opaque]
pub open spec fn sdiv_outcome(
    x: InstSignedDivision,
    m0: Machine,
    regs: SwppRegisterSet,
    loc: u64,
    name: Seq<char>,
    fused: bool,
) -> Effect<Option<BlockResultView>> {
    then_defer(
        x.effect(m0, regs),
        seq![x.operands().0, x.operands().1],
        loc,
        name,
    )
}

/// What running `URem` does, from the machine `m0` where any deferred cost
/// has been dealt with.
#[verifier::opaque]
pub open spec fn urem_outcome(
    x: InstUnsignedRemainder,
    m0: Machine,
    regs: SwppRegisterSet,
    loc: u64,
    name: Seq<char>,
    fused: bool,
) -> Effect<Option<BlockResultView>> {
    then_defer(
        x.effect(m0, regs),
        seq![x.operands().0, x.operands().1],
        loc,
        name,
    )
}

/// What running `SRem` does, from the machine `m0` where any deferred cost
/// has been dealt with.
#[verifier::opaque]
pub open spec fn srem_outcome(
    x: InstSignedRemainder,
    m0: Machine,
    regs: SwppRegisterSet,
    loc: u64,
    name: Seq<char>,
    fused: bool,
) -> Effect<Option<BlockResultView>> {
    then_defer(
        x.effect(m0, regs),
        seq![x.operands().0, x.operands().1],
        loc,
        name,
    )
}

/// What running `Mul` does, from the machine `m0` where any deferred cost
/// has been dealt with.
#[verifier::opaque]
pub open spec fn mul_outcome(
    x: InstMultiplication,
    m0: Machine,
    regs: SwppRegisterSet,
    loc: u64,
    name: Seq<char>,
    fused: bool,
) -> Effect<Option<BlockResultView>> {
    then_defer(
        x.effect(m0, regs),
        seq![x.operands().0, x.operands().1],
        loc,
        name,
    )
}

/// What running `Shl` does, from the machine `m0` where any deferred cost
/// has been dealt with.
#[verifier::opaque]
pub open spec fn shl_outcome(
    x: InstShiftLeft,
    m0: Machine,
    regs: SwppRegisterSet,
    loc: u64,
    name: Seq<char>,
    fused: bool,
) -> Effect<Option<BlockResultView>> {
    then_finish(
        x.effect(m0, regs),
        BASIC_COST_ARITH_INT_SHIFT,
        seq![x.operands().0, x.operands().1],
        None,
    )
}

/// What running `Lshr` does, from the machine `m0` where any deferred cost
/// has been dealt with.
#[verifier::opaque]
pub open spec fn lshr_outcome(
    x: InstShiftRightLogical,
    m0: Machine,
    regs: SwppRegisterSet,
    loc: u64,
    name: Seq<char>,
    fused: bool,
) -> Effect<Option<BlockResultView>> {
    then_finish(
        x.effect(m0, regs),
        BASIC_COST_ARITH_INT_SHIFT,
        seq![x.operands().0, x.operands().1],
        None,
    )
}

/// What running `Ashr` does, from the machine `m0` where any deferred cost
/// has been dealt with.
#[verifier::opaque]
pub open spec fn ashr_outcome(
    x: InstShiftRightArithmetic,
    m0: Machine,
    regs: SwppRegisterSet,
    loc: u64,
    name: Seq<char>,
    fused: bool,
) -> Effect<Option<BlockResultView>> {
    then_finish(
        x.effect(m0, regs),
        BASIC_COST_ARITH_INT_SHIFT,
        seq![x.operands().0, x.operands().1],
        None,
    )
}

/// What running `And` does, from the machine `m0` where any deferred cost
/// has been dealt with.
#[verifier::opaque]
pub open spec fn and_outcome(
    x: InstBitwiseAnd,
    m0: Machine,
    regs: SwppRegisterSet,
    loc: u64,
    name: Seq<char>,
    fused: bool,
) -> Effect<Option<BlockResultView>> {
    then_finish(
        x.effect(m0, regs),
        BASIC_COST_ARITH_BITWISE,
        seq![x.operands().0, x.operands().1],
        None,
    )
}

/// What running `Or` does, from the machine `m0` where any deferred cost
/// has been dealt with.
#[verifier::opaque]
pub open spec fn or_outcome(
    x: InstBitwiseOr,
    m0: Machine,
    regs: SwppRegisterSet,
    loc: u64,
    name: Seq<char>,
    fused: bool,
) -> Effect<Option<BlockResultView>> {
    then_finish(
        x.effect(m0, regs),
        BASIC_COST_ARITH_BITWISE,
        seq![x.operands().0, x.operands().1],
        None,
    )
}

/// What running `Xor` does, from the machine `m0` where any deferred cost
/// has been dealt with.
#[verifier::opaque]
pub open spec fn xor_outcome(
    x: InstBitwiseXor,
    m0: Machine,
    regs: SwppRegisterSet,
    loc: u64,
    name: Seq<char>,
    fused: bool,
) -> Effect<Option<BlockResultView>> {
    then_finish(
        x.effect(m0, regs),
        BASIC_COST_ARITH_BITWISE,
        seq![x.operands().0, x.operands().1],
        None,
    )
}

/// What running `EAdd` does, from the machine `m0` where any deferred cost
/// has been dealt with.
#[verifier::opaque]
pub open spec fn eadd_outcome(
    x: InstEAdd,
    m0: Machine,
    regs: SwppRegisterSet,
    loc: u64,
    name: Seq<char>,
    fused: bool,
) -> Effect<Option<BlockResultView>> {
    then_addsub(
        x.effect(m0, regs),
        seq![x.operands().0, x.operands().1],
        fused,
    )
}

/// What running `OAdd` does, from the machine `m0` where any deferred cost
/// has been dealt with.
#[verifier::opaque]
pub open spec fn oadd_outcome(
    x: InstOAdd,
    m0: Machine,
    regs: SwppRegisterSet,
    loc: u64,
    name: Seq<char>,
    fused: bool,
) -> Effect<Option<BlockResultView>> {
    then_addsub(
        x.effect(m0, regs),
        seq![x.operands().0, x.operands().1],
        fused,
    )
}

/// What running `ESub` does, from the machine `m0` where any deferred cost
/// has been dealt with.
#[verifier::opaque]
pub open spec fn esub_outcome(
    x: InstESub,
    m0: Machine,
    regs: SwppRegisterSet,
    loc: u64,
    name: Seq<char>,
    fused: bool,
) -> Effect<Option<BlockResultView>> {
    then_addsub(
        x.effect(m0, regs),
        seq![x.operands().0, x.operands().1],
        fused,
    )
}

/// What running `OSub` does, from the machine `m0` where any deferred cost
/// has been dealt with.
#[verifier::opaque]
pub open spec fn osub_outcome(
    x: InstOSub,
    m0: Machine,
    regs: SwppRegisterSet,
    loc: u64,
    name: Seq<char>,
    fused: bool,
) -> Effect<Option<BlockResultView>> {
    then_addsub(
        x.effect(m0, regs),
        seq![x.operands().0, x.operands().1],
        fused,
    )
}

/// What running `Comp` does, from the machine `m0` where any deferred cost
/// has been dealt with.
#[verifier::opaque]
pub open spec fn comp_outcome(
    x: InstComparison,
    m0: Machine,
    regs: SwppRegisterSet,
    loc: u64,
    name: Seq<char>,
    fused: bool,
) -> Effect<Option<BlockResultView>> {
    then_finish(
        x.effect(m0, regs),
        BASIC_COST_ARITH_CMP,
        seq![x.operands().0, x.operands().1],
        None,
    )
}

/// What running `Select` does, from the machine `m0` where any deferred cost
/// has been dealt with.
#[verifier::opaque]
pub open spec fn select_outcome(
    x: InstTernary,
    m0: Machine,
    regs: SwppRegisterSet,
    loc: u64,
    name: Seq<char>,
    fused: bool,
) -> Effect<Option<BlockResultView>> {
    then_finish(
        x.effect(m0, regs),
        BASIC_COST_ARITH_SELECT,
        seq![x.spec_cond(), x.spec_true(), x.spec_false()],
        None,
    )
}

/// What running `Read` does, from the machine `m0` where any deferred cost
/// has been dealt with.
#[verifier::opaque]
pub open spec fn read_outcome(
    _x: InstStdRead,
    m0: Machine,
    regs: SwppRegisterSet,
    loc: u64,
    name: Seq<char>,
    fused: bool,
) -> Effect<Option<BlockResultView>> {
    Effect { machine: m0, write: None, result: Ok(None) }
}

/// What running `Write` does, from the machine `m0` where any deferred cost
/// has been dealt with.
#[verifier::opaque]
pub open spec fn write_outcome(
    _x: InstStdWrite,
    m0: Machine,
    regs: SwppRegisterSet,
    loc: u64,
    name: Seq<char>,
    fused: bool,
) -> Effect<Option<BlockResultView>> {
    Effect { machine: m0, write: None, result: Ok(None) }
}

proof fn lemma_call_outcome_ret(inst: SwppInst, m: Machine, regs: SwppRegisterSet)
    requires
        inst.spec_kind() is Ret,
    ensures
        inst.outcome(m, regs).result matches Ok(Some(BlockResultView::Call(c))) ==> {
            &&& inst.outcome(m, regs).write is None
            &&& inst.spec_kind() matches SwppInstKind::FnCall(x)
            &&& c.args.len() == x.spec_args().len()
            &&& c.target == x.spec_target()
            &&& c.fname == x.spec_fname()
            &&& m.function(x.spec_fname()) matches Some(f)
            &&& f.spec_nargs() == x.spec_args().len()
        },
{
    reveal(ret_outcome);
}

proof fn lemma_call_outcome_ubranch(inst: SwppInst, m: Machine, regs: SwppRegisterSet)
    requires
        inst.spec_kind() is UBranch,
    ensures
        inst.outcome(m, regs).result matches Ok(Some(BlockResultView::Call(c))) ==> {
            &&& inst.outcome(m, regs).write is None
            &&& inst.spec_kind() matches SwppInstKind::FnCall(x)
            &&& c.args.len() == x.spec_args().len()
            &&& c.target == x.spec_target()
            &&& c.fname == x.spec_fname()
            &&& m.function(x.spec_fname()) matches Some(f)
            &&& f.spec_nargs() == x.spec_args().len()
        },
{
    reveal(ubranch_outcome);
}

proof fn lemma_call_outcome_branch(inst: SwppInst, m: Machine, regs: SwppRegisterSet)
    requires
        inst.spec_kind() is Branch,
    ensures
        inst.outcome(m, regs).result matches Ok(Some(BlockResultView::Call(c))) ==> {
            &&& inst.outcome(m, regs).write is None
            &&& inst.spec_kind() matches SwppInstKind::FnCall(x)
            &&& c.args.len() == x.spec_args().len()
            &&& c.target == x.spec_target()
            &&& c.fname == x.spec_fname()
            &&& m.function(x.spec_fname()) matches Some(f)
            &&& f.spec_nargs() == x.spec_args().len()
        },
{
    reveal(branch_outcome);
}

proof fn lemma_call_outcome_switch(inst: SwppInst, m: Machine, regs: SwppRegisterSet)
    requires
        inst.spec_kind() is Switch,
    ensures
        inst.outcome(m, regs).result matches Ok(Some(BlockResultView::Call(c))) ==> {
            &&& inst.outcome(m, regs).write is None
            &&& inst.spec_kind() matches SwppInstKind::FnCall(x)
            &&& c.args.len() == x.spec_args().len()
            &&& c.target == x.spec_target()
            &&& c.fname == x.spec_fname()
            &&& m.function(x.spec_fname()) matches Some(f)
            &&& f.spec_nargs() == x.spec_args().len()
        },
{
    reveal(switch_outcome);
}

proof fn lemma_call_outcome_fncall(inst: SwppInst, m: Machine, regs: SwppRegisterSet)
    requires
        inst.spec_kind() is FnCall,
    ensures
        inst.outcome(m, regs).result matches Ok(Some(BlockResultView::Call(c))) ==> {
            &&& inst.outcome(m, regs).write is None
            &&& inst.spec_kind() matches SwppInstKind::FnCall(x)
            &&& c.args.len() == x.spec_args().len()
            &&& c.target == x.spec_target()
            &&& c.fname == x.spec_fname()
            &&& m.function(x.spec_fname()) matches Some(f)
            &&& f.spec_nargs() == x.spec_args().len()
        },
{
    reveal(fncall_outcome);
}

proof fn lemma_call_outcome_assert(inst: SwppInst, m: Machine, regs: SwppRegisterSet)
    requires
        inst.spec_kind() is Assert,
    ensures
        inst.outcome(m, regs).result matches Ok(Some(BlockResultView::Call(c))) ==> {
            &&& inst.outcome(m, regs).write is None
            &&& inst.spec_kind() matches SwppInstKind::FnCall(x)
            &&& c.args.len() == x.spec_args().len()
            &&& c.target == x.spec_target()
            &&& c.fname == x.spec_fname()
            &&& m.function(x.spec_fname()) matches Some(f)
            &&& f.spec_nargs() == x.spec_args().len()
        },
{
    reveal(assert_outcome);
}

proof fn lemma_call_outcome_malloc(inst: SwppInst, m: Machine, regs: SwppRegisterSet)
    requires
        inst.spec_kind() is Malloc,
    ensures
        inst.outcome(m, regs).result matches Ok(Some(BlockResultView::Call(c))) ==> {
            &&& inst.outcome(m, regs).write is None
            &&& inst.spec_kind() matches SwppInstKind::FnCall(x)
            &&& c.args.len() == x.spec_args().len()
            &&& c.target == x.spec_target()
            &&& c.fname == x.spec_fname()
            &&& m.function(x.spec_fname()) matches Some(f)
            &&& f.spec_nargs() == x.spec_args().len()
        },
{
    reveal(malloc_outcome);
}

proof fn lemma_call_outcome_free(inst: SwppInst, m: Machine, regs: SwppRegisterSet)
    requires
        inst.spec_kind() is Free,
    ensures
        inst.outcome(m, regs).result matches Ok(Some(BlockResultView::Call(c))) ==> {
            &&& inst.outcome(m, regs).write is None
            &&& inst.spec_kind() matches SwppInstKind::FnCall(x)
            &&& c.args.len() == x.spec_args().len()
            &&& c.target == x.spec_target()
            &&& c.fname == x.spec_fname()
            &&& m.function(x.spec_fname()) matches Some(f)
            &&& f.spec_nargs() == x.spec_args().len()
        },
{
    reveal(free_outcome);
}

proof fn lemma_call_outcome_load(inst: SwppInst, m: Machine, regs: SwppRegisterSet)
    requires
        inst.spec_kind() is Load,
    ensures
        inst.outcome(m, regs).result matches Ok(Some(BlockResultView::Call(c))) ==> {
            &&& inst.outcome(m, regs).write is None
            &&& inst.spec_kind() matches SwppInstKind::FnCall(x)
            &&& c.args.len() == x.spec_args().len()
            &&& c.target == x.spec_target()
            &&& c.fname == x.spec_fname()
            &&& m.function(x.spec_fname()) matches Some(f)
            &&& f.spec_nargs() == x.spec_args().len()
        },
{
    reveal(load_outcome);
}

proof fn lemma_call_outcome_store(inst: SwppInst, m: Machine, regs: SwppRegisterSet)
    requires
        inst.spec_kind() is Store,
    ensures
        inst.outcome(m, regs).result matches Ok(Some(BlockResultView::Call(c))) ==> {
            &&& inst.outcome(m, regs).write is None
            &&& inst.spec_kind() matches SwppInstKind::FnCall(x)
            &&& c.args.len() == x.spec_args().len()
            &&& c.target == x.spec_target()
            &&& c.fname == x.spec_fname()
            &&& m.function(x.spec_fname()) matches Some(f)
            &&& f.spec_nargs() == x.spec_args().len()
        },
{
    reveal(store_outcome);
}

proof fn lemma_call_outcome_aload(inst: SwppInst, m: Machine, regs: SwppRegisterSet)
    requires
        inst.spec_kind() is ALoad,
    ensures
        inst.outcome(m, regs).result matches Ok(Some(BlockResultView::Call(c))) ==> {
            &&& inst.outcome(m, regs).write is None
            &&& inst.spec_kind() matches SwppInstKind::FnCall(x)
            &&& c.args.len() == x.spec_args().len()
            &&& c.target == x.spec_target()
            &&& c.fname == x.spec_fname()
            &&& m.function(x.spec_fname()) matches Some(f)
            &&& f.spec_nargs() == x.spec_args().len()
        },
{
    reveal(aload_outcome);
}

proof fn lemma_call_outcome_udiv(inst: SwppInst, m: Machine, regs: SwppRegisterSet)
    requires
        inst.spec_kind() is UDiv,
    ensures
        inst.outcome(m, regs).result matches Ok(Some(BlockResultView::Call(c))) ==> {
            &&& inst.outcome(m, regs).write is None
            &&& inst.spec_kind() matches SwppInstKind::FnCall(x)
            &&& c.args.len() == x.spec_args().len()
            &&& c.target == x.spec_target()
            &&& c.fname == x.spec_fname()
            &&& m.function(x.spec_fname()) matches Some(f)
            &&& f.spec_nargs() == x.spec_args().len()
        },
{
    reveal(udiv_outcome);
}

proof fn lemma_call_outcome_sdiv(inst: SwppInst, m: Machine, regs: SwppRegisterSet)
    requires
        inst.spec_kind() is SDiv,
    ensures
        inst.outcome(m, regs).result matches Ok(Some(BlockResultView::Call(c))) ==> {
            &&& inst.outcome(m, regs).write is None
            &&& inst.spec_kind() matches SwppInstKind::FnCall(x)
            &&& c.args.len() == x.spec_args().len()
            &&& c.target == x.spec_target()
            &&& c.fname == x.spec_fname()
            &&& m.function(x.spec_fname()) matches Some(f)
            &&& f.spec_nargs() == x.spec_args().len()
        },
{
    reveal(sdiv_outcome);
}

proof fn lemma_call_outcome_urem(inst: SwppInst, m: Machine, regs: SwppRegisterSet)
    requires
        inst.spec_kind() is URem,
    ensures
        inst.outcome(m, regs).result matches Ok(Some(BlockResultView::Call(c))) ==> {
            &&& inst.outcome(m, regs).write is None
            &&& inst.spec_kind() matches SwppInstKind::FnCall(x)
            &&& c.args.len() == x.spec_args().len()
            &&& c.target == x.spec_target()
            &&& c.fname == x.spec_fname()
            &&& m.function(x.spec_fname()) matches Some(f)
            &&& f.spec_nargs() == x.spec_args().len()
        },
{
    reveal(urem_outcome);
}

proof fn lemma_call_outcome_srem(inst: SwppInst, m: Machine, regs: SwppRegisterSet)
    requires
        inst.spec_kind() is SRem,
    ensures
        inst.outcome(m, regs).result matches Ok(Some(BlockResultView::Call(c))) ==> {
            &&& inst.outcome(m, regs).write is None
            &&& inst.spec_kind() matches SwppInstKind::FnCall(x)
            &&& c.args.len() == x.spec_args().len()
            &&& c.target == x.spec_target()
            &&& c.fname == x.spec_fname()
            &&& m.function(x.spec_fname()) matches Some(f)
            &&& f.spec_nargs() == x.spec_args().len()
        },
{
    reveal(srem_outcome);
}

proof fn lemma_call_outcome_mul(inst: SwppInst, m: Machine, regs: SwppRegisterSet)
    requires
        inst.spec_kind() is Mul,
    ensures
        inst.outcome(m, regs).result matches Ok(Some(BlockResultView::Call(c))) ==> {
            &&& inst.outcome(m, regs).write is None
            &&& inst.spec_kind() matches SwppInstKind::FnCall(x)
            &&& c.args.len() == x.spec_args().len()
            &&& c.target == x.spec_target()
            &&& c.fname == x.spec_fname()
            &&& m.function(x.spec_fname()) matches Some(f)
            &&& f.spec_nargs() == x.spec_args().len()
        },
{
    reveal(mul_outcome);
}

proof fn lemma_call_outcome_shl(inst: SwppInst, m: Machine, regs: SwppRegisterSet)
    requires
        inst.spec_kind() is Shl,
    ensures
        inst.outcome(m, regs).result matches Ok(Some(BlockResultView::Call(c))) ==> {
            &&& inst.outcome(m, regs).write is None
            &&& inst.spec_kind() matches SwppInstKind::FnCall(x)
            &&& c.args.len() == x.spec_args().len()
            &&& c.target == x.spec_target()
            &&& c.fname == x.spec_fname()
            &&& m.function(x.spec_fname()) matches Some(f)
            &&& f.spec_nargs() == x.spec_args().len()
        },
{
    reveal(shl_outcome);
}

proof fn lemma_call_outcome_lshr(inst: SwppInst, m: Machine, regs: SwppRegisterSet)
    requires
        inst.spec_kind() is Lshr,
    ensures
        inst.outcome(m, regs).result matches Ok(Some(BlockResultView::Call(c))) ==> {
            &&& inst.outcome(m, regs).write is None
            &&& inst.spec_kind() matches SwppInstKind::FnCall(x)
            &&& c.args.len() == x.spec_args().len()
            &&& c.target == x.spec_target()
            &&& c.fname == x.spec_fname()
            &&& m.function(x.spec_fname()) matches Some(f)
            &&& f.spec_nargs() == x.spec_args().len()
        },
{
    reveal(lshr_outcome);
}

proof fn lemma_call_outcome_ashr(inst: SwppInst, m: Machine, regs: SwppRegisterSet)
    requires
        inst.spec_kind() is Ashr,
    ensures
        inst.outcome(m, regs).result matches Ok(Some(BlockResultView::Call(c))) ==> {
            &&& inst.outcome(m, regs).write is None
            &&& inst.spec_kind() matches SwppInstKind::FnCall(x)
            &&& c.args.len() == x.spec_args().len()
            &&& c.target == x.spec_target()
            &&& c.fname == x.spec_fname()
            &&& m.function(x.spec_fname()) matches Some(f)
            &&& f.spec_nargs() == x.spec_args().len()
        },
{
    reveal(ashr_outcome);
}

proof fn lemma_call_outcome_and(inst: SwppInst, m: Machine, regs: SwppRegisterSet)
    requires
        inst.spec_kind() is And,
    ensures
        inst.outcome(m, regs).result matches Ok(Some(BlockResultView::Call(c))) ==> {
            &&& inst.outcome(m, regs).write is None
            &&& inst.spec_kind() matches SwppInstKind::FnCall(x)
            &&& c.args.len() == x.spec_args().len()
            &&& c.target == x.spec_target()
            &&& c.fname == x.spec_fname()
            &&& m.function(x.spec_fname()) matches Some(f)
            &&& f.spec_nargs() == x.spec_args().len()
        },
{
    reveal(and_outcome);
}

proof fn lemma_call_outcome_or(inst: SwppInst, m: Machine, regs: SwppRegisterSet)
    requires
        inst.spec_kind() is Or,
    ensures
        inst.outcome(m, regs).result matches Ok(Some(BlockResultView::Call(c))) ==> {
            &&& inst.outcome(m, regs).write is None
            &&& inst.spec_kind() matches SwppInstKind::FnCall(x)
            &&& c.args.len() == x.spec_args().len()
            &&& c.target == x.spec_target()
            &&& c.fname == x.spec_fname()
            &&& m.function(x.spec_fname()) matches Some(f)
            &&& f.spec_nargs() == x.spec_args().len()
        },
{
    reveal(or_outcome);
}

proof fn lemma_call_outcome_xor(inst: SwppInst, m: Machine, regs: SwppRegisterSet)
    requires
        inst.spec_kind() is Xor,
    ensures
        inst.outcome(m, regs).result matches Ok(Some(BlockResultView::Call(c))) ==> {
            &&& inst.outcome(m, regs).write is None
            &&& inst.spec_kind() matches SwppInstKind::FnCall(x)
            &&& c.args.len() == x.spec_args().len()
            &&& c.target == x.spec_target()
            &&& c.fname == x.spec_fname()
            &&& m.function(x.spec_fname()) matches Some(f)
            &&& f.spec_nargs() == x.spec_args().len()
        },
{
    reveal(xor_outcome);
}

proof fn lemma_call_outcome_eadd(inst: SwppInst, m: Machine, regs: SwppRegisterSet)
    requires
        inst.spec_kind() is EAdd,
    ensures
        inst.outcome(m, regs).result matches Ok(Some(BlockResultView::Call(c))) ==> {
            &&& inst.outcome(m, regs).write is None
            &&& inst.spec_kind() matches SwppInstKind::FnCall(x)
            &&& c.args.len() == x.spec_args().len()
            &&& c.target == x.spec_target()
            &&& c.fname == x.spec_fname()
            &&& m.function(x.spec_fname()) matches Some(f)
            &&& f.spec_nargs() == x.spec_args().len()
        },
{
    reveal(eadd_outcome);
}

proof fn lemma_call_outcome_oadd(inst: SwppInst, m: Machine, regs: SwppRegisterSet)
    requires
        inst.spec_kind() is OAdd,
    ensures
        inst.outcome(m, regs).result matches Ok(Some(BlockResultView::Call(c))) ==> {
            &&& inst.outcome(m, regs).write is None
            &&& inst.spec_kind() matches SwppInstKind::FnCall(x)
            &&& c.args.len() == x.spec_args().len()
            &&& c.target == x.spec_target()
            &&& c.fname == x.spec_fname()
            &&& m.function(x.spec_fname()) matches Some(f)
            &&& f.spec_nargs() == x.spec_args().len()
        },
{
    reveal(oadd_outcome);
}

proof fn lemma_call_outcome_esub(inst: SwppInst, m: Machine, regs: SwppRegisterSet)
    requires
        inst.spec_kind() is ESub,
    ensures
        inst.outcome(m, regs).result matches Ok(Some(BlockResultView::Call(c))) ==> {
            &&& inst.outcome(m, regs).write is None
            &&& inst.spec_kind() matches SwppInstKind::FnCall(x)
            &&& c.args.len() == x.spec_args().len()
            &&& c.target == x.spec_target()
            &&& c.fname == x.spec_fname()
            &&& m.function(x.spec_fname()) matches Some(f)
            &&& f.spec_nargs() == x.spec_args().len()
        },
{
    reveal(esub_outcome);
}

proof fn lemma_call_outcome_osub(inst: SwppInst, m: Machine, regs: SwppRegisterSet)
    requires
        inst.spec_kind() is OSub,
    ensures
        inst.outcome(m, regs).result matches Ok(Some(BlockResultView::Call(c))) ==> {
            &&& inst.outcome(m, regs).write is None
            &&& inst.spec_kind() matches SwppInstKind::FnCall(x)
            &&& c.args.len() == x.spec_args().len()
            &&& c.target == x.spec_target()
            &&& c.fname == x.spec_fname()
            &&& m.function(x.spec_fname()) matches Some(f)
            &&& f.spec_nargs() == x.spec_args().len()
        },
{
    reveal(osub_outcome);
}

proof fn lemma_call_outcome_comp(inst: SwppInst, m: Machine, regs: SwppRegisterSet)
    requires
        inst.spec_kind() is Comp,
    ensures
        inst.outcome(m, regs).result matches Ok(Some(BlockResultView::Call(c))) ==> {
            &&& inst.outcome(m, regs).write is None
            &&& inst.spec_kind() matches SwppInstKind::FnCall(x)
            &&& c.args.len() == x.spec_args().len()
            &&& c.target == x.spec_target()
            &&& c.fname == x.spec_fname()
            &&& m.function(x.spec_fname()) matches Some(f)
            &&& f.spec_nargs() == x.spec_args().len()
        },
{
    reveal(comp_outcome);
}

proof fn lemma_call_outcome_select(inst: SwppInst, m: Machine, regs: SwppRegisterSet)
    requires
        inst.spec_kind() is Select,
    ensures
        inst.outcome(m, regs).result matches Ok(Some(BlockResultView::Call(c))) ==> {
            &&& inst.outcome(m, regs).write is None
            &&& inst.spec_kind() matches SwppInstKind::FnCall(x)
            &&& c.args.len() == x.spec_args().len()
            &&& c.target == x.spec_target()
            &&& c.fname == x.spec_fname()
            &&& m.function(x.spec_fname()) matches Some(f)
            &&& f.spec_nargs() == x.spec_args().len()
        },
{
    reveal(select_outcome);
}

proof fn lemma_call_outcome_read(inst: SwppInst, m: Machine, regs: SwppRegisterSet)
    requires
        inst.spec_kind() is Read,
    ensures
        inst.outcome(m, regs).result matches Ok(Some(BlockResultView::Call(c))) ==> {
            &&& inst.outcome(m, regs).write is None
            &&& inst.spec_kind() matches SwppInstKind::FnCall(x)
            &&& c.args.len() == x.spec_args().len()
            &&& c.target == x.spec_target()
            &&& c.fname == x.spec_fname()
            &&& m.function(x.spec_fname()) matches Some(f)
            &&& f.spec_nargs() == x.spec_args().len()
        },
{
    reveal(read_outcome);
}

proof fn lemma_call_outcome_write(inst: SwppInst, m: Machine, regs: SwppRegisterSet)
    requires
        inst.spec_kind() is Write,
    ensures
        inst.outcome(m, regs).result matches Ok(Some(BlockResultView::Call(c))) ==> {
            &&& inst.outcome(m, regs).write is None
            &&& inst.spec_kind() matches SwppInstKind::FnCall(x)
            &&& c.args.len() == x.spec_args().len()
            &&& c.target == x.spec_target()
            &&& c.fname == x.spec_fname()
            &&& m.function(x.spec_fname()) matches Some(f)
            &&& f.spec_nargs() == x.spec_args().len()
        },
{
    reveal(write_outcome);
}

/// Only a call instruction asks for a call, with one value for each of its
/// arguments, and only when the callee takes that many.
pub proof fn lemma_call_outcome(inst: SwppInst, m: Machine, regs: SwppRegisterSet)
    ensures
        inst.outcome(m, regs).result matches Ok(Some(BlockResultView::Call(c))) ==> {
            &&& inst.outcome(m, regs).write is None
            &&& inst.spec_kind() matches SwppInstKind::FnCall(x)
            &&& c.args.len() == x.spec_args().len()
            &&& c.target == x.spec_target()
            &&& c.fname == x.spec_fname()
            &&& m.function(x.spec_fname()) matches Some(f)
            &&& f.spec_nargs() == x.spec_args().len()
        },
{
    match inst.spec_kind() {
        SwppInstKind::Ret(_) => lemma_call_outcome_ret(inst, m, regs),
        SwppInstKind::UBranch(_) => lemma_call_outcome_ubranch(inst, m, regs),
        SwppInstKind::Branch(_) => lemma_call_outcome_branch(inst, m, regs),
        SwppInstKind::Switch(_) => lemma_call_outcome_switch(inst, m, regs),
        SwppInstKind::FnCall(_) => lemma_call_outcome_fncall(inst, m, regs),
        SwppInstKind::Assert(_) => lemma_call_outcome_assert(inst, m, regs),
        SwppInstKind::Malloc(_) => lemma_call_outcome_malloc(inst, m, regs),
        SwppInstKind::Free(_) => lemma_call_outcome_free(inst, m, regs),
        SwppInstKind::Load(_) => lemma_call_outcome_load(inst, m, regs),
        SwppInstKind::Store(_) => lemma_call_outcome_store(inst, m, regs),
        SwppInstKind::ALoad(_) => lemma_call_outcome_aload(inst, m, regs),
        SwppInstKind::UDiv(_) => lemma_call_outcome_udiv(inst, m, regs),
        SwppInstKind::SDiv(_) => lemma_call_outcome_sdiv(inst, m, regs),
        SwppInstKind::URem(_) => lemma_call_outcome_urem(inst, m, regs),
        SwppInstKind::SRem(_) => lemma_call_outcome_srem(inst, m, regs),
        SwppInstKind::Mul(_) => lemma_call_outcome_mul(inst, m, regs),
        SwppInstKind::Shl(_) => lemma_call_outcome_shl(inst, m, regs),
        SwppInstKind::Lshr(_) => lemma_call_outcome_lshr(inst, m, regs),
        SwppInstKind::Ashr(_) => lemma_call_outcome_ashr(inst, m, regs),
        SwppInstKind::And(_) => lemma_call_outcome_and(inst, m, regs),
        SwppInstKind::Or(_) => lemma_call_outcome_or(inst, m, regs),
        SwppInstKind::Xor(_) => lemma_call_outcome_xor(inst, m, regs),
        SwppInstKind::EAdd(_) => lemma_call_outcome_eadd(inst, m, regs),
        SwppInstKind::OAdd(_) => lemma_call_outcome_oadd(inst, m, regs),
        SwppInstKind::ESub(_) => lemma_call_outcome_esub(inst, m, regs),
        SwppInstKind::OSub(_) => lemma_call_outcome_osub(inst, m, regs),
        SwppInstKind::Comp(_) => lemma_call_outcome_comp(inst, m, regs),
        SwppInstKind::Select(_) => lemma_call_outcome_select(inst, m, regs),
        SwppInstKind::Read(_) => lemma_call_outcome_read(inst, m, regs),
        SwppInstKind::Write(_) => lemma_call_outcome_write(inst, m, regs),
    }
}

impl SwppInstKind {
    /// Whether every register the instruction names exists.
    pub fn names_existing_registers(&self) -> (res: bool)
        ensures
            res == self.wf(),
    {
        match self {
            SwppInstKind::Ret(x) => match &x.val {
                Some(a) => a.names_existing_register(),
                None => true,
            },
            SwppInstKind::UBranch(_) => true,
            SwppInstKind::Branch(x) => x.cond_reg.names_existing_register(),
            SwppInstKind::Switch(x) => x.cond_reg.names_existing_register(),
            SwppInstKind::FnCall(x) => {
                let target_ok = match &x.target {
                    Some(t) => t.is_valid(),
                    None => true,
                };
                if !target_ok {
                    return false;
                }
                let mut i: usize = 0;
                while i < x.args.len()
                    invariant
                        i <= x.args@.len(),
                        forall|j: int| 0 <= j < i ==> (#[trigger] x.args@[j]).wf(),
                        self.wf() == x.wf(),
                        x.spec_target() matches Some(t) ==> t.wf(),
                    decreases x.args@.len() - i,
                {
                    if !x.args[i].names_existing_register() {
                        proof {
                            assert(!x.spec_args()[i as int].wf());
                        }
                        return false;
                    }
                    i = i + 1;
                }
                true
            },
            SwppInstKind::Assert(x) => x.lhs.names_existing_register()
                && x.rhs.names_existing_register(),
            SwppInstKind::Malloc(x) => x.target_reg.is_valid() && x.size_reg.names_existing_register(),
            SwppInstKind::Free(x) => x.addr_reg.names_existing_register(),
            SwppInstKind::Load(x) => x.target_reg.is_valid() && x.addr_reg.names_existing_register(),
            SwppInstKind::Store(x) => x.val_reg.names_existing_register()
                && x.addr_reg.names_existing_register(),
            SwppInstKind::ALoad(x) => x.target_reg.is_valid() && x.addr_reg.names_existing_register(),
            SwppInstKind::UDiv(x) => x.reg1.names_existing_register() && x.reg2.names_existing_register()
                && x.target_reg.is_valid(),
            SwppInstKind::SDiv(x) => x.reg1.names_existing_register() && x.reg2.names_existing_register()
                && x.target_reg.is_valid(),
            SwppInstKind::URem(x) => x.reg1.names_existing_register() && x.reg2.names_existing_register()
                && x.target_reg.is_valid(),
            SwppInstKind::SRem(x) => x.reg1.names_existing_register() && x.reg2.names_existing_register()
                && x.target_reg.is_valid(),
            SwppInstKind::Mul(x) => x.reg1.names_existing_register() && x.reg2.names_existing_register()
                && x.target_reg.is_valid(),
            SwppInstKind::Shl(x) => x.reg1.names_existing_register() && x.reg2.names_existing_register()
                && x.target_reg.is_valid(),
            SwppInstKind::Lshr(x) => x.reg1.names_existing_register() && x.reg2.names_existing_register()
                && x.target_reg.is_valid(),
            SwppInstKind::Ashr(x) => x.reg1.names_existing_register() && x.reg2.names_existing_register()
                && x.target_reg.is_valid(),
            SwppInstKind::And(x) => x.reg1.names_existing_register() && x.reg2.names_existing_register()
                && x.target_reg.is_valid(),
            SwppInstKind::Or(x) => x.reg1.names_existing_register() && x.reg2.names_existing_register()
                && x.target_reg.is_valid(),
            SwppInstKind::Xor(x) => x.reg1.names_existing_register() && x.reg2.names_existing_register()
                && x.target_reg.is_valid(),
            SwppInstKind::EAdd(x) => x.reg1.names_existing_register() && x.reg2.names_existing_register()
                && x.target_reg.is_valid(),
            SwppInstKind::OAdd(x) => x.reg1.names_existing_register() && x.reg2.names_existing_register()
                && x.target_reg.is_valid(),
            SwppInstKind::ESub(x) => x.reg1.names_existing_register() && x.reg2.names_existing_register()
                && x.target_reg.is_valid(),
            SwppInstKind::OSub(x) => x.reg1.names_existing_register() && x.reg2.names_existing_register()
                && x.target_reg.is_valid(),
            SwppInstKind::Comp(x) => x.reg1.names_existing_register() && x.reg2.names_existing_register()
                && x.target_reg.is_valid(),
            SwppInstKind::Select(x) => x.false_reg.names_existing_register()
                && x.true_reg.names_existing_register() && x.cond_reg.names_existing_register()
                && x.target_reg.is_valid(),
            SwppInstKind::Read(_) => true,
            SwppInstKind::Write(_) => true,
        }
    }
}

impl SwppInst {
    pub open spec fn wf(self) -> bool {
        self.spec_kind().wf()
    }

    /// The instruction reads and writes no standard stream.
    pub open spec fn is_internal(self) -> bool {
        !(self.spec_kind() is Read || self.spec_kind() is Write)
    }

    /// Running the instruction at this state would fault: a division by zero,
    /// a shift by 64 or more, or an allocation whose end overflows.
    pub open spec fn faults(self, m: Machine, regs: SwppRegisterSet) -> bool {
        match self.spec_kind() {
            SwppInstKind::UDiv(x) => x.faults(regs),
            SwppInstKind::SDiv(x) => x.faults(regs),
            SwppInstKind::URem(x) => x.faults(regs),
            SwppInstKind::SRem(x) => x.faults(regs),
            SwppInstKind::Shl(x) => x.faults(regs),
            SwppInstKind::Lshr(x) => x.faults(regs),
            SwppInstKind::Ashr(x) => x.faults(regs),
            SwppInstKind::Malloc(x) => x.faults(m, regs),
            _ => false,
        }
    }

    /// A call that would pass more than 16 arguments: the callee exists and takes
    /// that many, so the arguments would not fit the argument registers.
    pub open spec fn passes_too_many_args(self, m: Machine) -> bool {
        &&& self.spec_kind() matches SwppInstKind::FnCall(x)
        &&& x.spec_args().len() > 16
        &&& m.function(x.spec_fname()) matches Some(f)
        &&& f.spec_nargs() == x.spec_args().len()
    }

    /// Whether running the instruction at this state would fault, or pass more
    /// arguments than there are argument registers.
    pub fn would_fault(&self, state: &SwppState, reg_set: &SwppRegisterSet) -> (res: bool)
        requires
            self.wf(),
        ensures
            res == (self.faults(state@, *reg_set) || self.passes_too_many_args(state@)),
    {
        match &self.kind {
            SwppInstKind::UDiv(x) => x.bw.read_u64(x.reg2.read_value(reg_set).unwrap()) == 0,
            SwppInstKind::URem(x) => x.bw.read_u64(x.reg2.read_value(reg_set).unwrap()) == 0,
            SwppInstKind::SDiv(x) => {
                let a = x.bw.sign_extend_u64(x.reg1.read_value(reg_set).unwrap());
                let b = x.bw.sign_extend_u64(x.reg2.read_value(reg_set).unwrap());
                b == 0 || (a == i64::MIN && b == -1)
            },
            SwppInstKind::SRem(x) => {
                let a = x.bw.sign_extend_u64(x.reg1.read_value(reg_set).unwrap());
                let b = x.bw.sign_extend_u64(x.reg2.read_value(reg_set).unwrap());
                b == 0 || (a == i64::MIN && b == -1)
            },
            SwppInstKind::Shl(x) => x.bw.read_u64(x.reg2.read_value(reg_set).unwrap()) >= 64,
            SwppInstKind::Lshr(x) => x.bw.read_u64(x.reg2.read_value(reg_set).unwrap()) >= 64,
            SwppInstKind::Ashr(x) => x.bw.read_u64(x.reg2.read_value(reg_set).unwrap()) >= 64,
            SwppInstKind::Malloc(x) => {
                let s = x.size_reg.read_value(reg_set).unwrap();
                s != 0 && s % 8 == 0 && s > u64::MAX - state.get_heap_top()
            },
            SwppInstKind::FnCall(x) => {
                if x.args.len() <= 16 {
                    false
                } else {
                    match state.get_fn_of(&x.fname) {
                        Ok(f) => f.nargs() == x.args.len() as u64,
                        Err(_) => false,
                    }
                }
            },
            _ => false,
        }
    }

    /// An add or sub right after a deferred multiplication, division or remainder.
    pub open spec fn is_fma_addsub(self, m: Machine) -> bool {
        self.spec_kind().is_addsub() && m.pending is Some
    }

    /// What running the instruction hands the logger: the deferred cost when
    /// it is charged (or, for an add or sub that fuses with it, dropped once the
    /// operands are read), then the surcharge and the cost of the instruction
    /// itself when it succeeds.
    #[verifier::opaque]
    pub open spec fn log_of(self, m: Machine, regs: SwppRegisterSet) -> Seq<LogEvent> {
        let fused = self.is_fma_addsub(m);
        let m0 = if fused {
            m
        } else {
            m.flush()
        };
        let pre = if fused {
            Seq::empty()
        } else {
            flush_log(m)
        };
        let loc = self.spec_loc();
        let name = self.spec_kind().spec_variant_name();
        pre + match self.spec_kind() {
            SwppInstKind::Ret(x) => match x.spec_val() {
                None => end_log(m0, loc, name, name, BASIC_COST_CONTROL_RET, 0, true),
                Some(a) => end_log(
                    m0.read_arg(a),
                    loc,
                    name,
                    name,
                    BASIC_COST_CONTROL_RET,
                    phobia_extra(seq![a], None),
                    true,
                ),
            },
            SwppInstKind::UBranch(x) => match forward_jump(m0, x.spec_target()) {
                Err(_) => Seq::empty(),
                Ok(fwd) => end_log(
                    m0,
                    loc,
                    name,
                    name,
                    if fwd {
                        forward_cost(BASIC_COST_CONTROL_UBRANCH)
                    } else {
                        BASIC_COST_CONTROL_UBRANCH
                    },
                    0,
                    true,
                ),
            },
            SwppInstKind::Branch(x) => {
                let e = x.effect(m0, regs);
                match e.result {
                    Err(_) => Seq::empty(),
                    Ok((_, c)) => end_log(
                        e.machine,
                        loc,
                        name,
                        name,
                        c,
                        phobia_extra(seq![x.spec_cond()], None),
                        true,
                    ),
                }
            },
            SwppInstKind::Switch(x) => end_log(
                m0.read_arg(x.spec_cond()),
                loc,
                name,
                name,
                BASIC_COST_CONTROL_SWITCH,
                phobia_extra(seq![x.spec_cond()], None),
                true,
            ),
            SwppInstKind::FnCall(x) => {
                let e = x.effect(m0, regs);
                match e.result {
                    Err(_) => Seq::empty(),
                    Ok(_) => end_log(
                        e.machine,
                        loc,
                        name,
                        name + "-"@ + x.spec_fname(),
                        BASIC_COST_CONTROL_FNCALL,
                        phobia_extra(x.spec_args(), None),
                        true,
                    ),
                }
            },
            SwppInstKind::Assert(x) => finish_log(x.effect(m0, regs), loc, name, 0, seq![], None),
            SwppInstKind::Malloc(x) => finish_log(
                x.effect(m0, regs),
                loc,
                name,
                BASIC_COST_MEM_HEAP_OP,
                seq![x.spec_size()],
                None,
            ),
            SwppInstKind::Free(x) => finish_log(
                x.effect(m0, regs),
                loc,
                name,
                BASIC_COST_MEM_HEAP_OP,
                seq![x.spec_addr()],
                None,
            ),
            SwppInstKind::Load(x) => access_log(
                x.effect(m0, regs),
                loc,
                name,
                seq![x.spec_addr()],
                x.spec_size(),
            ),
            SwppInstKind::Store(x) => access_log(
                x.effect(m0, regs),
                loc,
                name,
                seq![x.spec_val(), x.spec_addr()],
                x.spec_size(),
            ),
            SwppInstKind::ALoad(x) => access_log(
                x.effect(m0, regs),
                loc,
                name,
                seq![x.spec_addr()],
                x.spec_size(),
            ),
            SwppInstKind::UDiv(x) => defer_log(x.effect(m0, regs), loc, name, seq![x.operands().0, x.operands().1]),
            SwppInstKind::SDiv(x) => defer_log(x.effect(m0, regs), loc, name, seq![x.operands().0, x.operands().1]),
            SwppInstKind::URem(x) => defer_log(x.effect(m0, regs), loc, name, seq![x.operands().0, x.operands().1]),
            SwppInstKind::SRem(x) => defer_log(x.effect(m0, regs), loc, name, seq![x.operands().0, x.operands().1]),
            SwppInstKind::Mul(x) => defer_log(x.effect(m0, regs), loc, name, seq![x.operands().0, x.operands().1]),
            SwppInstKind::Shl(x) => finish_log(x.effect(m0, regs), loc, name, BASIC_COST_ARITH_INT_SHIFT, seq![x.operands().0, x.operands().1], None),
            SwppInstKind::Lshr(x) => finish_log(x.effect(m0, regs), loc, name, BASIC_COST_ARITH_INT_SHIFT, seq![x.operands().0, x.operands().1], None),
            SwppInstKind::Ashr(x) => finish_log(x.effect(m0, regs), loc, name, BASIC_COST_ARITH_INT_SHIFT, seq![x.operands().0, x.operands().1], None),
            SwppInstKind::And(x) => finish_log(x.effect(m0, regs), loc, name, BASIC_COST_ARITH_BITWISE, seq![x.operands().0, x.operands().1], None),
            SwppInstKind::Or(x) => finish_log(x.effect(m0, regs), loc, name, BASIC_COST_ARITH_BITWISE, seq![x.operands().0, x.operands().1], None),
            SwppInstKind::Xor(x) => finish_log(x.effect(m0, regs), loc, name, BASIC_COST_ARITH_BITWISE, seq![x.operands().0, x.operands().1], None),
            SwppInstKind::EAdd(x) => addsub_log(x.effect(m0, regs), loc, name, seq![x.operands().0, x.operands().1], fused),
            SwppInstKind::OAdd(x) => addsub_log(x.effect(m0, regs), loc, name, seq![x.operands().0, x.operands().1], fused),
            SwppInstKind::ESub(x) => addsub_log(x.effect(m0, regs), loc, name, seq![x.operands().0, x.operands().1], fused),
            SwppInstKind::OSub(x) => addsub_log(x.effect(m0, regs), loc, name, seq![x.operands().0, x.operands().1], fused),
            SwppInstKind::Comp(x) => finish_log(x.effect(m0, regs), loc, name, BASIC_COST_ARITH_CMP, seq![x.operands().0, x.operands().1], None),
            SwppInstKind::Select(x) => finish_log(
                x.effect(m0, regs),
                loc,
                name,
                BASIC_COST_ARITH_SELECT,
                seq![x.spec_cond(), x.spec_true(), x.spec_false()],
                None,
            ),
            SwppInstKind::Read(_) => Seq::empty(),
            SwppInstKind::Write(_) => Seq::empty(),
        }
    }

    /// What running the instruction does. Any deferred cost is charged first,
    /// unless the instruction is an add or sub that fuses with it. `read` and
    /// `write` are carried out by the program loop, not here.
    pub open spec fn outcome(self, m: Machine, regs: SwppRegisterSet) -> Effect<
        Option<BlockResultView>,
    > {
        let fused = self.is_fma_addsub(m);
        let m0 = if fused {
            m
        } else {
            m.flush()
        };
        let loc = self.spec_loc();
        let name = self.spec_kind().spec_variant_name();
        match self.spec_kind() {
            SwppInstKind::Ret(x) => ret_outcome(x, m0, regs, loc, name, fused),
            SwppInstKind::UBranch(x) => ubranch_outcome(x, m0, regs, loc, name, fused),
            SwppInstKind::Branch(x) => branch_outcome(x, m0, regs, loc, name, fused),
            SwppInstKind::Switch(x) => switch_outcome(x, m0, regs, loc, name, fused),
            SwppInstKind::FnCall(x) => fncall_outcome(x, m0, regs, loc, name, fused),
            SwppInstKind::Assert(x) => assert_outcome(x, m0, regs, loc, name, fused),
            SwppInstKind::Malloc(x) => malloc_outcome(x, m0, regs, loc, name, fused),
            SwppInstKind::Free(x) => free_outcome(x, m0, regs, loc, name, fused),
            SwppInstKind::Load(x) => load_outcome(x, m0, regs, loc, name, fused),
            SwppInstKind::Store(x) => store_outcome(x, m0, regs, loc, name, fused),
            SwppInstKind::ALoad(x) => aload_outcome(x, m0, regs, loc, name, fused),
            SwppInstKind::UDiv(x) => udiv_outcome(x, m0, regs, loc, name, fused),
            SwppInstKind::SDiv(x) => sdiv_outcome(x, m0, regs, loc, name, fused),
            SwppInstKind::URem(x) => urem_outcome(x, m0, regs, loc, name, fused),
            SwppInstKind::SRem(x) => srem_outcome(x, m0, regs, loc, name, fused),
            SwppInstKind::Mul(x) => mul_outcome(x, m0, regs, loc, name, fused),
            SwppInstKind::Shl(x) => shl_outcome(x, m0, regs, loc, name, fused),
            SwppInstKind::Lshr(x) => lshr_outcome(x, m0, regs, loc, name, fused),
            SwppInstKind::Ashr(x) => ashr_outcome(x, m0, regs, loc, name, fused),
            SwppInstKind::And(x) => and_outcome(x, m0, regs, loc, name, fused),
            SwppInstKind::Or(x) => or_outcome(x, m0, regs, loc, name, fused),
            SwppInstKind::Xor(x) => xor_outcome(x, m0, regs, loc, name, fused),
            SwppInstKind::EAdd(x) => eadd_outcome(x, m0, regs, loc, name, fused),
            SwppInstKind::OAdd(x) => oadd_outcome(x, m0, regs, loc, name, fused),
            SwppInstKind::ESub(x) => esub_outcome(x, m0, regs, loc, name, fused),
            SwppInstKind::OSub(x) => osub_outcome(x, m0, regs, loc, name, fused),
            SwppInstKind::Comp(x) => comp_outcome(x, m0, regs, loc, name, fused),
            SwppInstKind::Select(x) => select_outcome(x, m0, regs, loc, name, fused),
            SwppInstKind::Read(_x) => read_outcome(_x, m0, regs, loc, name, fused),
            SwppInstKind::Write(_x) => write_outcome(_x, m0, regs, loc, name, fused),
        }
    }

    pub fn get_kind(&self) -> (res: &SwppInstKind)
        ensures
            *res == self.spec_kind(),
    {
        &self.kind
    }

    pub fn get_loc(&self) -> (res: u64)
        ensures
            res == self.spec_loc(),
    {
        self.loc
    }

    fn finalize_instruction<L: SwppLogger>(
        &self,
        state: &mut SwppState,
        logger: &mut L,
        inst_name: &str,
        log_name: &str,
        cost: u64,
        four_phobia_args: &[Arg],
        four_phobia_size: Option<AccessSize>,
        exclude_sectors: Option<&[u64]>,
    )
        requires
            old(state).wf(),
            old(state).budget() + cost + BASIC_COST_MISC_FOUR_PHOBIA <= u64::MAX,
        ensures
            final(state).wf(),
            final(state).budget() <= old(state).budget() + cost + BASIC_COST_MISC_FOUR_PHOBIA,
            final(state)@ == finished(
                old(state)@,
                cost,
                phobia_extra(four_phobia_args@, four_phobia_size),
                match exclude_sectors {
                    Some(l) => Some(l@),
                    None => None,
                },
                None,
            ),
            L::obeys_history() ==> final(logger).history() == old(logger).history() + end_log(
                old(state)@,
                self.spec_loc(),
                inst_name@,
                log_name@,
                cost,
                phobia_extra(four_phobia_args@, four_phobia_size),
                true,
            ),
    {
        self.finalize_instruction_inner(
            state,
            logger,
            inst_name,
            log_name,
            cost,
            four_phobia_args,
            four_phobia_size,
            None,
            exclude_sectors,
            true,
        );
    }

    fn finalize_instruction_without_base_log<L: SwppLogger>(
        &self,
        state: &mut SwppState,
        logger: &mut L,
        inst_name: &str,
        cost: u64,
        four_phobia_args: &[Arg],
        four_phobia_size: Option<AccessSize>,
        exclude_sectors: Option<&[u64]>,
    )
        requires
            old(state).wf(),
            old(state).budget() + cost + BASIC_COST_MISC_FOUR_PHOBIA <= u64::MAX,
        ensures
            final(state).wf(),
            final(state).budget() <= old(state).budget() + cost + BASIC_COST_MISC_FOUR_PHOBIA,
            final(state)@ == finished(
                old(state)@,
                cost,
                phobia_extra(four_phobia_args@, four_phobia_size),
                match exclude_sectors {
                    Some(l) => Some(l@),
                    None => None,
                },
                None,
            ),
            L::obeys_history() ==> final(logger).history() == old(logger).history() + end_log(
                old(state)@,
                self.spec_loc(),
                inst_name@,
                inst_name@,
                cost,
                phobia_extra(four_phobia_args@, four_phobia_size),
                false,
            ),
    {
        self.finalize_instruction_inner(
            state,
            logger,
            inst_name,
            inst_name,
            cost,
            four_phobia_args,
            four_phobia_size,
            None,
            exclude_sectors,
            false,
        );
    }

    fn finalize_instruction_preserving_aload_debt<L: SwppLogger>(
        &self,
        state: &mut SwppState,
        logger: &mut L,
        inst_name: &str,
        log_name: &str,
        cost: u64,
        four_phobia_args: &[Arg],
        four_phobia_size: Option<AccessSize>,
        preserved_reg: &SwppRegisterName,
        exclude_sectors: Option<&[u64]>,
    )
        requires
            old(state).wf(),
            old(state).budget() + cost + BASIC_COST_MISC_FOUR_PHOBIA <= u64::MAX,
        ensures
            final(state).wf(),
            final(state).budget() <= old(state).budget() + cost + BASIC_COST_MISC_FOUR_PHOBIA,
            final(state)@ == finished(
                old(state)@,
                cost,
                phobia_extra(four_phobia_args@, four_phobia_size),
                match exclude_sectors {
                    Some(l) => Some(l@),
                    None => None,
                },
                Some(*preserved_reg),
            ),
            L::obeys_history() ==> final(logger).history() == old(logger).history() + end_log(
                old(state)@,
                self.spec_loc(),
                inst_name@,
                log_name@,
                cost,
                phobia_extra(four_phobia_args@, four_phobia_size),
                true,
            ),
    {
        self.finalize_instruction_inner(
            state,
            logger,
            inst_name,
            log_name,
            cost,
            four_phobia_args,
            four_phobia_size,
            Some(preserved_reg),
            exclude_sectors,
            true,
        );
    }

    /// Charges the instruction's cost, and the 4-phobia surcharge when an operand
    /// is the constant 4 or else the access moves four bytes; then lets the whole
    /// of it elapse for heat (but for `exclude_sectors`) and debts (but for `exclude_reg`).
    fn finalize_instruction_inner<L: SwppLogger>(
        &self,
        state: &mut SwppState,
        logger: &mut L,
        inst_name: &str,
        log_name: &str,
        cost: u64,
        four_phobia_args: &[Arg],
        four_phobia_size: Option<AccessSize>,
        exclude_reg: Option<&SwppRegisterName>,
        exclude_sectors: Option<&[u64]>,
        log_base_cost: bool,
    )
        requires
            old(state).wf(),
            old(state).budget() + cost + BASIC_COST_MISC_FOUR_PHOBIA <= u64::MAX,
        ensures
            final(state).wf(),
            final(state).budget() <= old(state).budget() + cost + BASIC_COST_MISC_FOUR_PHOBIA,
            final(state)@ == finished(
                old(state)@,
                cost,
                phobia_extra(four_phobia_args@, four_phobia_size),
                match exclude_sectors {
                    Some(l) => Some(l@),
                    None => None,
                },
                match exclude_reg {
                    Some(r) => Some(*r),
                    None => None,
                },
            ),
            L::obeys_history() ==> final(logger).history() == old(logger).history() + end_log(
                old(state)@,
                self.spec_loc(),
                inst_name@,
                log_name@,
                cost,
                phobia_extra(four_phobia_args@, four_phobia_size),
                log_base_cost,
            ),
    {
        proof {
            state.lemma_budget();
        }
        let cost_before = state.get_cost();
        let mut extra_cost: u64 = 0;
        let mut i: usize = 0;
        while i < four_phobia_args.len() && extra_cost == 0
            invariant
                i <= four_phobia_args@.len(),
                state.wf(),
                cost_before == old(state)@.cost,
                extra_cost == 0 || extra_cost == BASIC_COST_MISC_FOUR_PHOBIA,
                extra_cost == 0 ==> state@ == old(state)@,
                extra_cost == 0 ==> forall|j: int|
                    0 <= j < i ==> four_phobia_args@[j] != Arg::Const(4),
                extra_cost != 0 ==> state@ == old(state)@.add_cost(extra_cost as int),
                extra_cost != 0 ==> four_phobia_args@.contains(Arg::Const(4)),
                state.budget() == old(state).budget() + extra_cost,
                old(state).budget() + cost + BASIC_COST_MISC_FOUR_PHOBIA <= u64::MAX,
                L::obeys_history() ==> logger.history() == old(logger).history() + end_log(
                    old(state)@,
                    self.loc,
                    inst_name@,
                    log_name@,
                    cost,
                    extra_cost,
                    false,
                ),
            decreases four_phobia_args@.len() - i,
        {
            proof {
                state.lemma_budget();
            }
            extra_cost = four_phobia_args[i].add_cost_if_four_phobia(
                state,
                logger,
                self.loc,
                inst_name,
            );
            proof {
                if extra_cost != 0 {
                    assert(four_phobia_args@[i as int] == Arg::Const(4));
                }
            }
            i = i + 1;
        }
        if extra_cost == 0 {
            if let Some(size) = four_phobia_size {
                proof {
                    state.lemma_budget();
                }
                extra_cost = size.add_cost_if_four_phobia(state, logger, self.loc, inst_name);
            }
        }
        proof {
            if extra_cost == 0 {
                assert(!four_phobia_args@.contains(Arg::Const(4)));
            }
            assert(extra_cost == phobia_extra(four_phobia_args@, four_phobia_size));
            state.lemma_budget();
        }
        let elapsed_cost = cost + extra_cost;
        state.add_cost(cost);
        state.cool_down(elapsed_cost, exclude_sectors);
        state.resolve_aload_debts(elapsed_cost, exclude_reg);
        if log_base_cost {
            logger.log(self.loc, log_name, cost, state.get_cost(), state.get_context());
        }
        proof {
            assert(old(state)@.add_cost(extra_cost as int).add_cost(cost as int) =~= old(
                state,
            )@.add_cost(elapsed_cost as int));
        }
    }
}



impl SwppInst {
    fn run_ret<L: SwppLogger>(
        &self,
        ret: &InstRet,
        state: &mut SwppState,
        reg_set: &mut SwppRegisterSet,
        logger: &mut L,
    ) -> (res: SwppResult<Option<BlockResult>>)
        requires
            self.spec_kind() == SwppInstKind::Ret(*ret),
            old(state).wf(),
            self.wf(),
            !self.faults(old(state)@, *old(reg_set)),
            old(state).budget() + STEP_COST_BOUND <= u64::MAX,
        ensures
            final(state).wf(),
            final(state).budget() <= old(state).budget() + STEP_COST_BOUND,
            final(state)@ == self.outcome(old(state)@, *old(reg_set)).machine,
            regs_after(*old(reg_set), *final(reg_set), self.outcome(old(state)@, *old(reg_set)).write),
            step_result_view(res) == self.outcome(old(state)@, *old(reg_set)).result,
            L::obeys_history() ==> final(logger).history() == old(logger).history() + self.log_of(old(state)@, *old(reg_set)),
            res matches Err(e) ==> e.spec_loc() == self.spec_loc(),
            self.outcome(old(state)@, *old(reg_set)).write matches Some((r, _)) ==> r.wf(),
            self.outcome(old(state)@, *old(reg_set)).result matches Ok(
                Some(BlockResultView::Call(c)),
            ) ==> (c.target matches Some(t) ==> t.wf()),
    {
        proof {
            reveal(SwppInst::log_of);
            reveal(ret_outcome);
        }
        let inst_name = self.kind.variant_name();
        state.flush_pending_fma_cost(logger);
        proof {
            state.lemma_budget();
        }
        let cost = BASIC_COST_CONTROL_RET;
        let ghost m0 = state@;
        proof {
            assert(m0 == old(state)@.flush());
            assert(!self.is_fma_addsub(old(state)@));
        }
        match ret.val {
            Some(arg) => {
                let ret_val = match arg.read_value_with_state(state, reg_set) {
                    Ok(v) => v,
                    Err(err) => return Err(SwppError::new(err, self.loc)),
                };
                let args = [arg];
                proof {
                    assert(args@ =~= seq![arg]);
                }
                self.finalize_instruction(state, logger, inst_name, inst_name, cost, &args, None, None);
                proof {
                    assert(state@ == finished(m0.read_arg(arg), cost, phobia_extra(seq![arg], None), None, None));
                }
                Ok(Some(BlockResult::Return(Some(ret_val))))
            },
            None => {
                self.finalize_instruction(state, logger, inst_name, inst_name, cost, &[], None, None);
                Ok(Some(BlockResult::Return(None)))
            },
        }
    }

    fn run_ubranch<L: SwppLogger>(
        &self,
        br: &InstUncondBr,
        state: &mut SwppState,
        reg_set: &mut SwppRegisterSet,
        logger: &mut L,
    ) -> (res: SwppResult<Option<BlockResult>>)
        requires
            self.spec_kind() == SwppInstKind::UBranch(*br),
            old(state).wf(),
            self.wf(),
            !self.faults(old(state)@, *old(reg_set)),
            old(state).budget() + STEP_COST_BOUND <= u64::MAX,
        ensures
            final(state).wf(),
            final(state).budget() <= old(state).budget() + STEP_COST_BOUND,
            final(state)@ == self.outcome(old(state)@, *old(reg_set)).machine,
            regs_after(*old(reg_set), *final(reg_set), self.outcome(old(state)@, *old(reg_set)).write),
            step_result_view(res) == self.outcome(old(state)@, *old(reg_set)).result,
            L::obeys_history() ==> final(logger).history() == old(logger).history() + self.log_of(old(state)@, *old(reg_set)),
            res matches Err(e) ==> e.spec_loc() == self.spec_loc(),
            self.outcome(old(state)@, *old(reg_set)).write matches Some((r, _)) ==> r.wf(),
            self.outcome(old(state)@, *old(reg_set)).result matches Ok(
                Some(BlockResultView::Call(c)),
            ) ==> (c.target matches Some(t) ==> t.wf()),
    {
        proof {
            reveal(SwppInst::log_of);
            reveal(ubranch_outcome);
        }
        let inst_name = self.kind.variant_name();
        state.flush_pending_fma_cost(logger);
        proof {
            state.lemma_budget();
        }
        let forward = match is_forward_jump(state, br.target.as_str()) {
            Ok(f) => f,
            Err(err) => return Err(SwppError::new(err, self.loc)),
        };
        let cost = if forward {
            scaled_forward_branch_cost(BASIC_COST_CONTROL_UBRANCH)
        } else {
            BASIC_COST_CONTROL_UBRANCH
        };
        self.finalize_instruction(state, logger, inst_name, inst_name, cost, &[], None, None);
        Ok(Some(BlockResult::NextBlock(br.target.clone(), self.loc)))
    }

    fn run_branch<L: SwppLogger>(
        &self,
        br: &InstCondBr,
        state: &mut SwppState,
        reg_set: &mut SwppRegisterSet,
        logger: &mut L,
    ) -> (res: SwppResult<Option<BlockResult>>)
        requires
            self.spec_kind() == SwppInstKind::Branch(*br),
            old(state).wf(),
            self.wf(),
            !self.faults(old(state)@, *old(reg_set)),
            old(state).budget() + STEP_COST_BOUND <= u64::MAX,
        ensures
            final(state).wf(),
            final(state).budget() <= old(state).budget() + STEP_COST_BOUND,
            final(state)@ == self.outcome(old(state)@, *old(reg_set)).machine,
            regs_after(*old(reg_set), *final(reg_set), self.outcome(old(state)@, *old(reg_set)).write),
            step_result_view(res) == self.outcome(old(state)@, *old(reg_set)).result,
            L::obeys_history() ==> final(logger).history() == old(logger).history() + self.log_of(old(state)@, *old(reg_set)),
            res matches Err(e) ==> e.spec_loc() == self.spec_loc(),
            self.outcome(old(state)@, *old(reg_set)).write matches Some((r, _)) ==> r.wf(),
            self.outcome(old(state)@, *old(reg_set)).result matches Ok(
                Some(BlockResultView::Call(c)),
            ) ==> (c.target matches Some(t) ==> t.wf()),
    {
        proof {
            reveal(SwppInst::log_of);
            reveal(branch_outcome);
        }
        let inst_name = self.kind.variant_name();
        state.flush_pending_fma_cost(logger);
        proof {
            state.lemma_budget();
        }
        let (next_block, cost) = match br.run(state, reg_set) {
            Ok(r) => r,
            Err(err) => return Err(SwppError::new(err, self.loc)),
        };
        self.finalize_instruction(state, logger, inst_name, inst_name, cost, &[br.cond_reg], None, None);
        Ok(Some(BlockResult::NextBlock(next_block, self.loc)))
    }

    fn run_switch<L: SwppLogger>(
        &self,
        sw: &InstSwitch,
        state: &mut SwppState,
        reg_set: &mut SwppRegisterSet,
        logger: &mut L,
    ) -> (res: SwppResult<Option<BlockResult>>)
        requires
            self.spec_kind() == SwppInstKind::Switch(*sw),
            old(state).wf(),
            self.wf(),
            !self.faults(old(state)@, *old(reg_set)),
            old(state).budget() + STEP_COST_BOUND <= u64::MAX,
        ensures
            final(state).wf(),
            final(state).budget() <= old(state).budget() + STEP_COST_BOUND,
            final(state)@ == self.outcome(old(state)@, *old(reg_set)).machine,
            regs_after(*old(reg_set), *final(reg_set), self.outcome(old(state)@, *old(reg_set)).write),
            step_result_view(res) == self.outcome(old(state)@, *old(reg_set)).result,
            L::obeys_history() ==> final(logger).history() == old(logger).history() + self.log_of(old(state)@, *old(reg_set)),
            res matches Err(e) ==> e.spec_loc() == self.spec_loc(),
            self.outcome(old(state)@, *old(reg_set)).write matches Some((r, _)) ==> r.wf(),
            self.outcome(old(state)@, *old(reg_set)).result matches Ok(
                Some(BlockResultView::Call(c)),
            ) ==> (c.target matches Some(t) ==> t.wf()),
    {
        proof {
            reveal(SwppInst::log_of);
            reveal(switch_outcome);
        }
        let inst_name = self.kind.variant_name();
        state.flush_pending_fma_cost(logger);
        proof {
            state.lemma_budget();
        }
        let next_block = match sw.run(state, reg_set) {
            Ok(b) => b,
            Err(err) => return Err(SwppError::new(err, self.loc)),
        };
        let cost = BASIC_COST_CONTROL_SWITCH;
        let args = [sw.cond_reg];
        proof {
            assert(args@ =~= seq![sw.cond_reg]);
        }
        self.finalize_instruction(state, logger, inst_name, inst_name, cost, &args, None, None);
        Ok(Some(BlockResult::NextBlock(next_block, self.loc)))
    }

    fn run_call<L: SwppLogger>(
        &self,
        fcall: &InstFunctionCall,
        state: &mut SwppState,
        reg_set: &mut SwppRegisterSet,
        logger: &mut L,
    ) -> (res: SwppResult<Option<BlockResult>>)
        requires
            self.spec_kind() == SwppInstKind::FnCall(*fcall),
            old(state).wf(),
            self.wf(),
            !self.faults(old(state)@, *old(reg_set)),
            old(state).budget() + STEP_COST_BOUND <= u64::MAX,
        ensures
            final(state).wf(),
            final(state).budget() <= old(state).budget() + STEP_COST_BOUND,
            final(state)@ == self.outcome(old(state)@, *old(reg_set)).machine,
            regs_after(*old(reg_set), *final(reg_set), self.outcome(old(state)@, *old(reg_set)).write),
            step_result_view(res) == self.outcome(old(state)@, *old(reg_set)).result,
            L::obeys_history() ==> final(logger).history() == old(logger).history() + self.log_of(old(state)@, *old(reg_set)),
            res matches Err(e) ==> e.spec_loc() == self.spec_loc(),
            self.outcome(old(state)@, *old(reg_set)).write matches Some((r, _)) ==> r.wf(),
            self.outcome(old(state)@, *old(reg_set)).result matches Ok(
                Some(BlockResultView::Call(c)),
            ) ==> (c.target matches Some(t) ==> t.wf()),
    {
        proof {
            reveal(SwppInst::log_of);
            reveal(fncall_outcome);
        }
        let inst_name = self.kind.variant_name();
        state.flush_pending_fma_cost(logger);
        proof {
            state.lemma_budget();
        }
        let cost = BASIC_COST_CONTROL_FNCALL;
        let arg_set = match fcall.evaluate_args(state, reg_set) {
            Ok(a) => a,
            Err(err) => return Err(SwppError::new(err, self.loc)),
        };
        let mut log_name = inst_name.to_owned();
        log_name.append("-");
        log_name.append(fcall.fname.as_str());
        self.finalize_instruction(
            state,
            logger,
            inst_name,
            log_name.as_str(),
            cost,
            fcall.args.as_slice(),
            None,
            None,
        );
        let request = CallRequest {
            fname: fcall.fname.clone(),
            args: arg_set,
            target: fcall.target,
            loc: self.loc,
        };
        Ok(Some(BlockResult::Call(request)))
    }

    fn run_assert<L: SwppLogger>(
        &self,
        assertion: &InstAssertion,
        state: &mut SwppState,
        reg_set: &mut SwppRegisterSet,
        logger: &mut L,
    ) -> (res: SwppResult<Option<BlockResult>>)
        requires
            self.spec_kind() == SwppInstKind::Assert(*assertion),
            old(state).wf(),
            self.wf(),
            !self.faults(old(state)@, *old(reg_set)),
            old(state).budget() + STEP_COST_BOUND <= u64::MAX,
        ensures
            final(state).wf(),
            final(state).budget() <= old(state).budget() + STEP_COST_BOUND,
            final(state)@ == self.outcome(old(state)@, *old(reg_set)).machine,
            regs_after(*old(reg_set), *final(reg_set), self.outcome(old(state)@, *old(reg_set)).write),
            step_result_view(res) == self.outcome(old(state)@, *old(reg_set)).result,
            L::obeys_history() ==> final(logger).history() == old(logger).history() + self.log_of(old(state)@, *old(reg_set)),
            res matches Err(e) ==> e.spec_loc() == self.spec_loc(),
            self.outcome(old(state)@, *old(reg_set)).write matches Some((r, _)) ==> r.wf(),
            self.outcome(old(state)@, *old(reg_set)).result matches Ok(
                Some(BlockResultView::Call(c)),
            ) ==> (c.target matches Some(t) ==> t.wf()),
    {
        proof {
            reveal(SwppInst::log_of);
            reveal(assert_outcome);
        }
        let inst_name = self.kind.variant_name();
        state.flush_pending_fma_cost(logger);
        proof {
            state.lemma_budget();
        }
        match assertion.run(state, reg_set) {
            Ok(_) => {},
            Err(err) => return Err(SwppError::new(err, self.loc)),
        }
        // An assertion only serves testing, so it never invokes 4-phobia.
        self.finalize_instruction(state, logger, inst_name, inst_name, 0, &[], None, None);
        Ok(None)
    }

    fn run_malloc<L: SwppLogger>(
        &self,
        malloc: &InstHeapAllocation,
        state: &mut SwppState,
        reg_set: &mut SwppRegisterSet,
        logger: &mut L,
    ) -> (res: SwppResult<Option<BlockResult>>)
        requires
            self.spec_kind() == SwppInstKind::Malloc(*malloc),
            old(state).wf(),
            self.wf(),
            !self.faults(old(state)@, *old(reg_set)),
            old(state).budget() + STEP_COST_BOUND <= u64::MAX,
        ensures
            final(state).wf(),
            final(state).budget() <= old(state).budget() + STEP_COST_BOUND,
            final(state)@ == self.outcome(old(state)@, *old(reg_set)).machine,
            regs_after(*old(reg_set), *final(reg_set), self.outcome(old(state)@, *old(reg_set)).write),
            step_result_view(res) == self.outcome(old(state)@, *old(reg_set)).result,
            L::obeys_history() ==> final(logger).history() == old(logger).history() + self.log_of(old(state)@, *old(reg_set)),
            res matches Err(e) ==> e.spec_loc() == self.spec_loc(),
            self.outcome(old(state)@, *old(reg_set)).write matches Some((r, _)) ==> r.wf(),
            self.outcome(old(state)@, *old(reg_set)).result matches Ok(
                Some(BlockResultView::Call(c)),
            ) ==> (c.target matches Some(t) ==> t.wf()),
    {
        proof {
            reveal(SwppInst::log_of);
            reveal(malloc_outcome);
        }
        let inst_name = self.kind.variant_name();
        state.flush_pending_fma_cost(logger);
        proof {
            state.lemma_budget();
        }
        let cost = BASIC_COST_MEM_HEAP_OP;
        match malloc.run(state, reg_set) {
            Ok(_) => {},
            Err(err) => return Err(SwppError::new(err, self.loc)),
        }
        self.finalize_instruction(state, logger, inst_name, inst_name, cost, &[malloc.size_reg], None, None);
        Ok(None)
    }

    fn run_free<L: SwppLogger>(
        &self,
        free: &InstHeapFree,
        state: &mut SwppState,
        reg_set: &mut SwppRegisterSet,
        logger: &mut L,
    ) -> (res: SwppResult<Option<BlockResult>>)
        requires
            self.spec_kind() == SwppInstKind::Free(*free),
            old(state).wf(),
            self.wf(),
            !self.faults(old(state)@, *old(reg_set)),
            old(state).budget() + STEP_COST_BOUND <= u64::MAX,
        ensures
            final(state).wf(),
            final(state).budget() <= old(state).budget() + STEP_COST_BOUND,
            final(state)@ == self.outcome(old(state)@, *old(reg_set)).machine,
            regs_after(*old(reg_set), *final(reg_set), self.outcome(old(state)@, *old(reg_set)).write),
            step_result_view(res) == self.outcome(old(state)@, *old(reg_set)).result,
            L::obeys_history() ==> final(logger).history() == old(logger).history() + self.log_of(old(state)@, *old(reg_set)),
            res matches Err(e) ==> e.spec_loc() == self.spec_loc(),
            self.outcome(old(state)@, *old(reg_set)).write matches Some((r, _)) ==> r.wf(),
            self.outcome(old(state)@, *old(reg_set)).result matches Ok(
                Some(BlockResultView::Call(c)),
            ) ==> (c.target matches Some(t) ==> t.wf()),
    {
        proof {
            reveal(SwppInst::log_of);
            reveal(free_outcome);
        }
        let inst_name = self.kind.variant_name();
        state.flush_pending_fma_cost(logger);
        proof {
            state.lemma_budget();
        }
        let cost = BASIC_COST_MEM_HEAP_OP;
        match free.run(state, reg_set) {
            Ok(_) => {},
            Err(err) => return Err(SwppError::new(err, self.loc)),
        }
        self.finalize_instruction(state, logger, inst_name, inst_name, cost, &[free.addr_reg], None, None);
        Ok(None)
    }

    fn run_load<L: SwppLogger>(
        &self,
        load: &InstLoad,
        state: &mut SwppState,
        reg_set: &mut SwppRegisterSet,
        logger: &mut L,
    ) -> (res: SwppResult<Option<BlockResult>>)
        requires
            self.spec_kind() == SwppInstKind::Load(*load),
            old(state).wf(),
            self.wf(),
            !self.faults(old(state)@, *old(reg_set)),
            old(state).budget() + STEP_COST_BOUND <= u64::MAX,
        ensures
            final(state).wf(),
            final(state).budget() <= old(state).budget() + STEP_COST_BOUND,
            final(state)@ == self.outcome(old(state)@, *old(reg_set)).machine,
            regs_after(*old(reg_set), *final(reg_set), self.outcome(old(state)@, *old(reg_set)).write),
            step_result_view(res) == self.outcome(old(state)@, *old(reg_set)).result,
            L::obeys_history() ==> final(logger).history() == old(logger).history() + self.log_of(old(state)@, *old(reg_set)),
            res matches Err(e) ==> e.spec_loc() == self.spec_loc(),
            self.outcome(old(state)@, *old(reg_set)).write matches Some((r, _)) ==> r.wf(),
            self.outcome(old(state)@, *old(reg_set)).result matches Ok(
                Some(BlockResultView::Call(c)),
            ) ==> (c.target matches Some(t) ==> t.wf()),
    {
        proof {
            reveal(SwppInst::log_of);
            reveal(load_outcome);
        }
        let inst_name = self.kind.variant_name();
        state.flush_pending_fma_cost(logger);
        proof {
            state.lemma_budget();
        }
        let (cost, affected_sectors) = match load.run(state, reg_set) {
            Ok(r) => r,
            Err(err) => return Err(SwppError::new(err, self.loc)),
        };
        let args = [load.addr_reg];
        proof {
            assert(args@ =~= seq![load.addr_reg]);
        }
        self.finalize_instruction(
            state,
            logger,
            inst_name,
            inst_name,
            cost,
            &args,
            Some(load.size),
            Some(affected_sectors.as_slice()),
        );
        Ok(None)
    }

    fn run_store<L: SwppLogger>(
        &self,
        store: &InstStore,
        state: &mut SwppState,
        reg_set: &mut SwppRegisterSet,
        logger: &mut L,
    ) -> (res: SwppResult<Option<BlockResult>>)
        requires
            self.spec_kind() == SwppInstKind::Store(*store),
            old(state).wf(),
            self.wf(),
            !self.faults(old(state)@, *old(reg_set)),
            old(state).budget() + STEP_COST_BOUND <= u64::MAX,
        ensures
            final(state).wf(),
            final(state).budget() <= old(state).budget() + STEP_COST_BOUND,
            final(state)@ == self.outcome(old(state)@, *old(reg_set)).machine,
            regs_after(*old(reg_set), *final(reg_set), self.outcome(old(state)@, *old(reg_set)).write),
            step_result_view(res) == self.outcome(old(state)@, *old(reg_set)).result,
            L::obeys_history() ==> final(logger).history() == old(logger).history() + self.log_of(old(state)@, *old(reg_set)),
            res matches Err(e) ==> e.spec_loc() == self.spec_loc(),
            self.outcome(old(state)@, *old(reg_set)).write matches Some((r, _)) ==> r.wf(),
            self.outcome(old(state)@, *old(reg_set)).result matches Ok(
                Some(BlockResultView::Call(c)),
            ) ==> (c.target matches Some(t) ==> t.wf()),
    {
        proof {
            reveal(SwppInst::log_of);
            reveal(store_outcome);
        }
        let inst_name = self.kind.variant_name();
        state.flush_pending_fma_cost(logger);
        proof {
            state.lemma_budget();
        }
        let (cost, affected_sectors) = match store.run(state, reg_set) {
            Ok(r) => r,
            Err(err) => return Err(SwppError::new(err, self.loc)),
        };
        self.finalize_instruction(
            state,
            logger,
            inst_name,
            inst_name,
            cost,
            &[store.val_reg, store.addr_reg],
            Some(store.size),
            Some(affected_sectors.as_slice()),
        );
        Ok(None)
    }

    fn run_aload<L: SwppLogger>(
        &self,
        aload: &InstAsyncLoad,
        state: &mut SwppState,
        reg_set: &mut SwppRegisterSet,
        logger: &mut L,
    ) -> (res: SwppResult<Option<BlockResult>>)
        requires
            self.spec_kind() == SwppInstKind::ALoad(*aload),
            old(state).wf(),
            self.wf(),
            !self.faults(old(state)@, *old(reg_set)),
            old(state).budget() + STEP_COST_BOUND <= u64::MAX,
        ensures
            final(state).wf(),
            final(state).budget() <= old(state).budget() + STEP_COST_BOUND,
            final(state)@ == self.outcome(old(state)@, *old(reg_set)).machine,
            regs_after(*old(reg_set), *final(reg_set), self.outcome(old(state)@, *old(reg_set)).write),
            step_result_view(res) == self.outcome(old(state)@, *old(reg_set)).result,
            L::obeys_history() ==> final(logger).history() == old(logger).history() + self.log_of(old(state)@, *old(reg_set)),
            res matches Err(e) ==> e.spec_loc() == self.spec_loc(),
            self.outcome(old(state)@, *old(reg_set)).write matches Some((r, _)) ==> r.wf(),
            self.outcome(old(state)@, *old(reg_set)).result matches Ok(
                Some(BlockResultView::Call(c)),
            ) ==> (c.target matches Some(t) ==> t.wf()),
    {
        proof {
            reveal(SwppInst::log_of);
            reveal(aload_outcome);
        }
        let inst_name = self.kind.variant_name();
        state.flush_pending_fma_cost(logger);
        proof {
            state.lemma_budget();
        }
        let (cost, affected_sectors) = match aload.run(state, reg_set) {
            Ok(r) => r,
            Err(err) => return Err(SwppError::new(err, self.loc)),
        };
        let args = [aload.addr_reg];
        proof {
            assert(args@ =~= seq![aload.addr_reg]);
        }
        self.finalize_instruction_preserving_aload_debt(
            state,
            logger,
            inst_name,
            inst_name,
            cost,
            &args,
            Some(aload.size),
            &aload.target_reg,
            Some(affected_sectors.as_slice()),
        );
        Ok(None)
    }

    fn run_select<L: SwppLogger>(
        &self,
        select: &InstTernary,
        state: &mut SwppState,
        reg_set: &mut SwppRegisterSet,
        logger: &mut L,
    ) -> (res: SwppResult<Option<BlockResult>>)
        requires
            self.spec_kind() == SwppInstKind::Select(*select),
            old(state).wf(),
            self.wf(),
            !self.faults(old(state)@, *old(reg_set)),
            old(state).budget() + STEP_COST_BOUND <= u64::MAX,
        ensures
            final(state).wf(),
            final(state).budget() <= old(state).budget() + STEP_COST_BOUND,
            final(state)@ == self.outcome(old(state)@, *old(reg_set)).machine,
            regs_after(*old(reg_set), *final(reg_set), self.outcome(old(state)@, *old(reg_set)).write),
            step_result_view(res) == self.outcome(old(state)@, *old(reg_set)).result,
            L::obeys_history() ==> final(logger).history() == old(logger).history() + self.log_of(old(state)@, *old(reg_set)),
            res matches Err(e) ==> e.spec_loc() == self.spec_loc(),
            self.outcome(old(state)@, *old(reg_set)).write matches Some((r, _)) ==> r.wf(),
            self.outcome(old(state)@, *old(reg_set)).result matches Ok(
                Some(BlockResultView::Call(c)),
            ) ==> (c.target matches Some(t) ==> t.wf()),
    {
        proof {
            reveal(SwppInst::log_of);
            reveal(select_outcome);
        }
        let inst_name = self.kind.variant_name();
        state.flush_pending_fma_cost(logger);
        proof {
            state.lemma_budget();
        }
        let cost = BASIC_COST_ARITH_SELECT;
        match select.run(state, reg_set) {
            Ok(_) => {},
            Err(err) => return Err(SwppError::new(err, self.loc)),
        }
        self.finalize_instruction(
            state,
            logger,
            inst_name,
            inst_name,
            cost,
            &[select.cond_reg, select.true_reg, select.false_reg],
            None,
            None,
        );
        Ok(None)
    }

    fn run_udiv<L: SwppLogger>(
        &self,
        udiv: &InstUnsignedDivision,
        state: &mut SwppState,
        reg_set: &mut SwppRegisterSet,
        logger: &mut L,
    ) -> (res: SwppResult<Option<BlockResult>>)
        requires
            self.spec_kind() == SwppInstKind::UDiv(*udiv),
            old(state).wf(),
            self.wf(),
            !self.faults(old(state)@, *old(reg_set)),
            old(state).budget() + STEP_COST_BOUND <= u64::MAX,
        ensures
            final(state).wf(),
            final(state).budget() <= old(state).budget() + STEP_COST_BOUND,
            final(state)@ == self.outcome(old(state)@, *old(reg_set)).machine,
            regs_after(*old(reg_set), *final(reg_set), self.outcome(old(state)@, *old(reg_set)).write),
            step_result_view(res) == self.outcome(old(state)@, *old(reg_set)).result,
            L::obeys_history() ==> final(logger).history() == old(logger).history() + self.log_of(old(state)@, *old(reg_set)),
            res matches Err(e) ==> e.spec_loc() == self.spec_loc(),
            self.outcome(old(state)@, *old(reg_set)).write matches Some((r, _)) ==> r.wf(),
            self.outcome(old(state)@, *old(reg_set)).result matches Ok(
                Some(BlockResultView::Call(c)),
            ) ==> (c.target matches Some(t) ==> t.wf()),
    {
        proof {
            reveal(SwppInst::log_of);
            reveal(udiv_outcome);
        }
        let inst_name = self.kind.variant_name();
        state.flush_pending_fma_cost(logger);
        proof {
            state.lemma_budget();
        }
        match udiv.run(state, reg_set) {
            Ok(_) => {},
            Err(err) => return Err(SwppError::new(err, self.loc)),
        }
        self.finalize_instruction_without_base_log(state, logger, inst_name, 0, &[udiv.reg1, udiv.reg2], None, None);
        state.defer_fma_cost(self.loc, inst_name);
        Ok(None)
    }

    fn run_sdiv<L: SwppLogger>(
        &self,
        sdiv: &InstSignedDivision,
        state: &mut SwppState,
        reg_set: &mut SwppRegisterSet,
        logger: &mut L,
    ) -> (res: SwppResult<Option<BlockResult>>)
        requires
            self.spec_kind() == SwppInstKind::SDiv(*sdiv),
            old(state).wf(),
            self.wf(),
            !self.faults(old(state)@, *old(reg_set)),
            old(state).budget() + STEP_COST_BOUND <= u64::MAX,
        ensures
            final(state).wf(),
            final(state).budget() <= old(state).budget() + STEP_COST_BOUND,
            final(state)@ == self.outcome(old(state)@, *old(reg_set)).machine,
            regs_after(*old(reg_set), *final(reg_set), self.outcome(old(state)@, *old(reg_set)).write),
            step_result_view(res) == self.outcome(old(state)@, *old(reg_set)).result,
            L::obeys_history() ==> final(logger).history() == old(logger).history() + self.log_of(old(state)@, *old(reg_set)),
            res matches Err(e) ==> e.spec_loc() == self.spec_loc(),
            self.outcome(old(state)@, *old(reg_set)).write matches Some((r, _)) ==> r.wf(),
            self.outcome(old(state)@, *old(reg_set)).result matches Ok(
                Some(BlockResultView::Call(c)),
            ) ==> (c.target matches Some(t) ==> t.wf()),
    {
        proof {
            reveal(SwppInst::log_of);
            reveal(sdiv_outcome);
        }
        let inst_name = self.kind.variant_name();
        state.flush_pending_fma_cost(logger);
        proof {
            state.lemma_budget();
        }
        match sdiv.run(state, reg_set) {
            Ok(_) => {},
            Err(err) => return Err(SwppError::new(err, self.loc)),
        }
        self.finalize_instruction_without_base_log(state, logger, inst_name, 0, &[sdiv.reg1, sdiv.reg2], None, None);
        state.defer_fma_cost(self.loc, inst_name);
        Ok(None)
    }

    fn run_urem<L: SwppLogger>(
        &self,
        urem: &InstUnsignedRemainder,
        state: &mut SwppState,
        reg_set: &mut SwppRegisterSet,
        logger: &mut L,
    ) -> (res: SwppResult<Option<BlockResult>>)
        requires
            self.spec_kind() == SwppInstKind::URem(*urem),
            old(state).wf(),
            self.wf(),
            !self.faults(old(state)@, *old(reg_set)),
            old(state).budget() + STEP_COST_BOUND <= u64::MAX,
        ensures
            final(state).wf(),
            final(state).budget() <= old(state).budget() + STEP_COST_BOUND,
            final(state)@ == self.outcome(old(state)@, *old(reg_set)).machine,
            regs_after(*old(reg_set), *final(reg_set), self.outcome(old(state)@, *old(reg_set)).write),
            step_result_view(res) == self.outcome(old(state)@, *old(reg_set)).result,
            L::obeys_history() ==> final(logger).history() == old(logger).history() + self.log_of(old(state)@, *old(reg_set)),
            res matches Err(e) ==> e.spec_loc() == self.spec_loc(),
            self.outcome(old(state)@, *old(reg_set)).write matches Some((r, _)) ==> r.wf(),
            self.outcome(old(state)@, *old(reg_set)).result matches Ok(
                Some(BlockResultView::Call(c)),
            ) ==> (c.target matches Some(t) ==> t.wf()),
    {
        proof {
            reveal(SwppInst::log_of);
            reveal(urem_outcome);
        }
        let inst_name = self.kind.variant_name();
        state.flush_pending_fma_cost(logger);
        proof {
            state.lemma_budget();
        }
        match urem.run(state, reg_set) {
            Ok(_) => {},
            Err(err) => return Err(SwppError::new(err, self.loc)),
        }
        self.finalize_instruction_without_base_log(state, logger, inst_name, 0, &[urem.reg1, urem.reg2], None, None);
        state.defer_fma_cost(self.loc, inst_name);
        Ok(None)
    }

    fn run_srem<L: SwppLogger>(
        &self,
        srem: &InstSignedRemainder,
        state: &mut SwppState,
        reg_set: &mut SwppRegisterSet,
        logger: &mut L,
    ) -> (res: SwppResult<Option<BlockResult>>)
        requires
            self.spec_kind() == SwppInstKind::SRem(*srem),
            old(state).wf(),
            self.wf(),
            !self.faults(old(state)@, *old(reg_set)),
            old(state).budget() + STEP_COST_BOUND <= u64::MAX,
        ensures
            final(state).wf(),
            final(state).budget() <= old(state).budget() + STEP_COST_BOUND,
            final(state)@ == self.outcome(old(state)@, *old(reg_set)).machine,
            regs_after(*old(reg_set), *final(reg_set), self.outcome(old(state)@, *old(reg_set)).write),
            step_result_view(res) == self.outcome(old(state)@, *old(reg_set)).result,
            L::obeys_history() ==> final(logger).history() == old(logger).history() + self.log_of(old(state)@, *old(reg_set)),
            res matches Err(e) ==> e.spec_loc() == self.spec_loc(),
            self.outcome(old(state)@, *old(reg_set)).write matches Some((r, _)) ==> r.wf(),
            self.outcome(old(state)@, *old(reg_set)).result matches Ok(
                Some(BlockResultView::Call(c)),
            ) ==> (c.target matches Some(t) ==> t.wf()),
    {
        proof {
            reveal(SwppInst::log_of);
            reveal(srem_outcome);
        }
        let inst_name = self.kind.variant_name();
        state.flush_pending_fma_cost(logger);
        proof {
            state.lemma_budget();
        }
        match srem.run(state, reg_set) {
            Ok(_) => {},
            Err(err) => return Err(SwppError::new(err, self.loc)),
        }
        self.finalize_instruction_without_base_log(state, logger, inst_name, 0, &[srem.reg1, srem.reg2], None, None);
        state.defer_fma_cost(self.loc, inst_name);
        Ok(None)
    }

    fn run_mul<L: SwppLogger>(
        &self,
        mul: &InstMultiplication,
        state: &mut SwppState,
        reg_set: &mut SwppRegisterSet,
        logger: &mut L,
    ) -> (res: SwppResult<Option<BlockResult>>)
        requires
            self.spec_kind() == SwppInstKind::Mul(*mul),
            old(state).wf(),
            self.wf(),
            !self.faults(old(state)@, *old(reg_set)),
            old(state).budget() + STEP_COST_BOUND <= u64::MAX,
        ensures
            final(state).wf(),
            final(state).budget() <= old(state).budget() + STEP_COST_BOUND,
            final(state)@ == self.outcome(old(state)@, *old(reg_set)).machine,
            regs_after(*old(reg_set), *final(reg_set), self.outcome(old(state)@, *old(reg_set)).write),
            step_result_view(res) == self.outcome(old(state)@, *old(reg_set)).result,
            L::obeys_history() ==> final(logger).history() == old(logger).history() + self.log_of(old(state)@, *old(reg_set)),
            res matches Err(e) ==> e.spec_loc() == self.spec_loc(),
            self.outcome(old(state)@, *old(reg_set)).write matches Some((r, _)) ==> r.wf(),
            self.outcome(old(state)@, *old(reg_set)).result matches Ok(
                Some(BlockResultView::Call(c)),
            ) ==> (c.target matches Some(t) ==> t.wf()),
    {
        proof {
            reveal(SwppInst::log_of);
            reveal(mul_outcome);
        }
        let inst_name = self.kind.variant_name();
        state.flush_pending_fma_cost(logger);
        proof {
            state.lemma_budget();
        }
        match mul.run(state, reg_set) {
            Ok(_) => {},
            Err(err) => return Err(SwppError::new(err, self.loc)),
        }
        self.finalize_instruction_without_base_log(state, logger, inst_name, 0, &[mul.reg1, mul.reg2], None, None);
        state.defer_fma_cost(self.loc, inst_name);
        Ok(None)
    }

    fn run_shl<L: SwppLogger>(
        &self,
        shl: &InstShiftLeft,
        state: &mut SwppState,
        reg_set: &mut SwppRegisterSet,
        logger: &mut L,
    ) -> (res: SwppResult<Option<BlockResult>>)
        requires
            self.spec_kind() == SwppInstKind::Shl(*shl),
            old(state).wf(),
            self.wf(),
            !self.faults(old(state)@, *old(reg_set)),
            old(state).budget() + STEP_COST_BOUND <= u64::MAX,
        ensures
            final(state).wf(),
            final(state).budget() <= old(state).budget() + STEP_COST_BOUND,
            final(state)@ == self.outcome(old(state)@, *old(reg_set)).machine,
            regs_after(*old(reg_set), *final(reg_set), self.outcome(old(state)@, *old(reg_set)).write),
            step_result_view(res) == self.outcome(old(state)@, *old(reg_set)).result,
            L::obeys_history() ==> final(logger).history() == old(logger).history() + self.log_of(old(state)@, *old(reg_set)),
            res matches Err(e) ==> e.spec_loc() == self.spec_loc(),
            self.outcome(old(state)@, *old(reg_set)).write matches Some((r, _)) ==> r.wf(),
            self.outcome(old(state)@, *old(reg_set)).result matches Ok(
                Some(BlockResultView::Call(c)),
            ) ==> (c.target matches Some(t) ==> t.wf()),
    {
        proof {
            reveal(SwppInst::log_of);
            reveal(shl_outcome);
        }
        let inst_name = self.kind.variant_name();
        state.flush_pending_fma_cost(logger);
        proof {
            state.lemma_budget();
        }
        let cost = BASIC_COST_ARITH_INT_SHIFT;
        match shl.run(state, reg_set) {
            Ok(_) => {},
            Err(err) => return Err(SwppError::new(err, self.loc)),
        }
        self.finalize_instruction(state, logger, inst_name, inst_name, cost, &[shl.reg1, shl.reg2], None, None);
        Ok(None)
    }

    fn run_lshr<L: SwppLogger>(
        &self,
        lshr: &InstShiftRightLogical,
        state: &mut SwppState,
        reg_set: &mut SwppRegisterSet,
        logger: &mut L,
    ) -> (res: SwppResult<Option<BlockResult>>)
        requires
            self.spec_kind() == SwppInstKind::Lshr(*lshr),
            old(state).wf(),
            self.wf(),
            !self.faults(old(state)@, *old(reg_set)),
            old(state).budget() + STEP_COST_BOUND <= u64::MAX,
        ensures
            final(state).wf(),
            final(state).budget() <= old(state).budget() + STEP_COST_BOUND,
            final(state)@ == self.outcome(old(state)@, *old(reg_set)).machine,
            regs_after(*old(reg_set), *final(reg_set), self.outcome(old(state)@, *old(reg_set)).write),
            step_result_view(res) == self.outcome(old(state)@, *old(reg_set)).result,
            L::obeys_history() ==> final(logger).history() == old(logger).history() + self.log_of(old(state)@, *old(reg_set)),
            res matches Err(e) ==> e.spec_loc() == self.spec_loc(),
            self.outcome(old(state)@, *old(reg_set)).write matches Some((r, _)) ==> r.wf(),
            self.outcome(old(state)@, *old(reg_set)).result matches Ok(
                Some(BlockResultView::Call(c)),
            ) ==> (c.target matches Some(t) ==> t.wf()),
    {
        proof {
            reveal(SwppInst::log_of);
            reveal(lshr_outcome);
        }
        let inst_name = self.kind.variant_name();
        state.flush_pending_fma_cost(logger);
        proof {
            state.lemma_budget();
        }
        let cost = BASIC_COST_ARITH_INT_SHIFT;
        match lshr.run(state, reg_set) {
            Ok(_) => {},
            Err(err) => return Err(SwppError::new(err, self.loc)),
        }
        self.finalize_instruction(state, logger, inst_name, inst_name, cost, &[lshr.reg1, lshr.reg2], None, None);
        Ok(None)
    }

    fn run_ashr<L: SwppLogger>(
        &self,
        ashr: &InstShiftRightArithmetic,
        state: &mut SwppState,
        reg_set: &mut SwppRegisterSet,
        logger: &mut L,
    ) -> (res: SwppResult<Option<BlockResult>>)
        requires
            self.spec_kind() == SwppInstKind::Ashr(*ashr),
            old(state).wf(),
            self.wf(),
            !self.faults(old(state)@, *old(reg_set)),
            old(state).budget() + STEP_COST_BOUND <= u64::MAX,
        ensures
            final(state).wf(),
            final(state).budget() <= old(state).budget() + STEP_COST_BOUND,
            final(state)@ == self.outcome(old(state)@, *old(reg_set)).machine,
            regs_after(*old(reg_set), *final(reg_set), self.outcome(old(state)@, *old(reg_set)).write),
            step_result_view(res) == self.outcome(old(state)@, *old(reg_set)).result,
            L::obeys_history() ==> final(logger).history() == old(logger).history() + self.log_of(old(state)@, *old(reg_set)),
            res matches Err(e) ==> e.spec_loc() == self.spec_loc(),
            self.outcome(old(state)@, *old(reg_set)).write matches Some((r, _)) ==> r.wf(),
            self.outcome(old(state)@, *old(reg_set)).result matches Ok(
                Some(BlockResultView::Call(c)),
            ) ==> (c.target matches Some(t) ==> t.wf()),
    {
        proof {
            reveal(SwppInst::log_of);
            reveal(ashr_outcome);
        }
        let inst_name = self.kind.variant_name();
        state.flush_pending_fma_cost(logger);
        proof {
            state.lemma_budget();
        }
        let cost = BASIC_COST_ARITH_INT_SHIFT;
        match ashr.run(state, reg_set) {
            Ok(_) => {},
            Err(err) => return Err(SwppError::new(err, self.loc)),
        }
        self.finalize_instruction(state, logger, inst_name, inst_name, cost, &[ashr.reg1, ashr.reg2], None, None);
        Ok(None)
    }

    fn run_and<L: SwppLogger>(
        &self,
        and: &InstBitwiseAnd,
        state: &mut SwppState,
        reg_set: &mut SwppRegisterSet,
        logger: &mut L,
    ) -> (res: SwppResult<Option<BlockResult>>)
        requires
            self.spec_kind() == SwppInstKind::And(*and),
            old(state).wf(),
            self.wf(),
            !self.faults(old(state)@, *old(reg_set)),
            old(state).budget() + STEP_COST_BOUND <= u64::MAX,
        ensures
            final(state).wf(),
            final(state).budget() <= old(state).budget() + STEP_COST_BOUND,
            final(state)@ == self.outcome(old(state)@, *old(reg_set)).machine,
            regs_after(*old(reg_set), *final(reg_set), self.outcome(old(state)@, *old(reg_set)).write),
            step_result_view(res) == self.outcome(old(state)@, *old(reg_set)).result,
            L::obeys_history() ==> final(logger).history() == old(logger).history() + self.log_of(old(state)@, *old(reg_set)),
            res matches Err(e) ==> e.spec_loc() == self.spec_loc(),
            self.outcome(old(state)@, *old(reg_set)).write matches Some((r, _)) ==> r.wf(),
            self.outcome(old(state)@, *old(reg_set)).result matches Ok(
                Some(BlockResultView::Call(c)),
            ) ==> (c.target matches Some(t) ==> t.wf()),
    {
        proof {
            reveal(SwppInst::log_of);
            reveal(and_outcome);
        }
        let inst_name = self.kind.variant_name();
        state.flush_pending_fma_cost(logger);
        proof {
            state.lemma_budget();
        }
        let cost = BASIC_COST_ARITH_BITWISE;
        match and.run(state, reg_set) {
            Ok(_) => {},
            Err(err) => return Err(SwppError::new(err, self.loc)),
        }
        self.finalize_instruction(state, logger, inst_name, inst_name, cost, &[and.reg1, and.reg2], None, None);
        Ok(None)
    }

    fn run_or<L: SwppLogger>(
        &self,
        or: &InstBitwiseOr,
        state: &mut SwppState,
        reg_set: &mut SwppRegisterSet,
        logger: &mut L,
    ) -> (res: SwppResult<Option<BlockResult>>)
        requires
            self.spec_kind() == SwppInstKind::Or(*or),
            old(state).wf(),
            self.wf(),
            !self.faults(old(state)@, *old(reg_set)),
            old(state).budget() + STEP_COST_BOUND <= u64::MAX,
        ensures
            final(state).wf(),
            final(state).budget() <= old(state).budget() + STEP_COST_BOUND,
            final(state)@ == self.outcome(old(state)@, *old(reg_set)).machine,
            regs_after(*old(reg_set), *final(reg_set), self.outcome(old(state)@, *old(reg_set)).write),
            step_result_view(res) == self.outcome(old(state)@, *old(reg_set)).result,
            L::obeys_history() ==> final(logger).history() == old(logger).history() + self.log_of(old(state)@, *old(reg_set)),
            res matches Err(e) ==> e.spec_loc() == self.spec_loc(),
            self.outcome(old(state)@, *old(reg_set)).write matches Some((r, _)) ==> r.wf(),
            self.outcome(old(state)@, *old(reg_set)).result matches Ok(
                Some(BlockResultView::Call(c)),
            ) ==> (c.target matches Some(t) ==> t.wf()),
    {
        proof {
            reveal(SwppInst::log_of);
            reveal(or_outcome);
        }
        let inst_name = self.kind.variant_name();
        state.flush_pending_fma_cost(logger);
        proof {
            state.lemma_budget();
        }
        let cost = BASIC_COST_ARITH_BITWISE;
        match or.run(state, reg_set) {
            Ok(_) => {},
            Err(err) => return Err(SwppError::new(err, self.loc)),
        }
        self.finalize_instruction(state, logger, inst_name, inst_name, cost, &[or.reg1, or.reg2], None, None);
        Ok(None)
    }

    fn run_xor<L: SwppLogger>(
        &self,
        xor: &InstBitwiseXor,
        state: &mut SwppState,
        reg_set: &mut SwppRegisterSet,
        logger: &mut L,
    ) -> (res: SwppResult<Option<BlockResult>>)
        requires
            self.spec_kind() == SwppInstKind::Xor(*xor),
            old(state).wf(),
            self.wf(),
            !self.faults(old(state)@, *old(reg_set)),
            old(state).budget() + STEP_COST_BOUND <= u64::MAX,
        ensures
            final(state).wf(),
            final(state).budget() <= old(state).budget() + STEP_COST_BOUND,
            final(state)@ == self.outcome(old(state)@, *old(reg_set)).machine,
            regs_after(*old(reg_set), *final(reg_set), self.outcome(old(state)@, *old(reg_set)).write),
            step_result_view(res) == self.outcome(old(state)@, *old(reg_set)).result,
            L::obeys_history() ==> final(logger).history() == old(logger).history() + self.log_of(old(state)@, *old(reg_set)),
            res matches Err(e) ==> e.spec_loc() == self.spec_loc(),
            self.outcome(old(state)@, *old(reg_set)).write matches Some((r, _)) ==> r.wf(),
            self.outcome(old(state)@, *old(reg_set)).result matches Ok(
                Some(BlockResultView::Call(c)),
            ) ==> (c.target matches Some(t) ==> t.wf()),
    {
        proof {
            reveal(SwppInst::log_of);
            reveal(xor_outcome);
        }
        let inst_name = self.kind.variant_name();
        state.flush_pending_fma_cost(logger);
        proof {
            state.lemma_budget();
        }
        let cost = BASIC_COST_ARITH_BITWISE;
        match xor.run(state, reg_set) {
            Ok(_) => {},
            Err(err) => return Err(SwppError::new(err, self.loc)),
        }
        self.finalize_instruction(state, logger, inst_name, inst_name, cost, &[xor.reg1, xor.reg2], None, None);
        Ok(None)
    }

    fn run_eadd<L: SwppLogger>(
        &self,
        eadd: &InstEAdd,
        state: &mut SwppState,
        reg_set: &mut SwppRegisterSet,
        logger: &mut L,
    ) -> (res: SwppResult<Option<BlockResult>>)
        requires
            self.spec_kind() == SwppInstKind::EAdd(*eadd),
            old(state).wf(),
            self.wf(),
            !self.faults(old(state)@, *old(reg_set)),
            old(state).budget() + STEP_COST_BOUND <= u64::MAX,
        ensures
            final(state).wf(),
            final(state).budget() <= old(state).budget() + STEP_COST_BOUND,
            final(state)@ == self.outcome(old(state)@, *old(reg_set)).machine,
            regs_after(*old(reg_set), *final(reg_set), self.outcome(old(state)@, *old(reg_set)).write),
            step_result_view(res) == self.outcome(old(state)@, *old(reg_set)).result,
            L::obeys_history() ==> final(logger).history() == old(logger).history() + self.log_of(old(state)@, *old(reg_set)),
            res matches Err(e) ==> e.spec_loc() == self.spec_loc(),
            self.outcome(old(state)@, *old(reg_set)).write matches Some((r, _)) ==> r.wf(),
            self.outcome(old(state)@, *old(reg_set)).result matches Ok(
                Some(BlockResultView::Call(c)),
            ) ==> (c.target matches Some(t) ==> t.wf()),
    {
        proof {
            reveal(SwppInst::log_of);
            reveal(eadd_outcome);
        }
        let inst_name = self.kind.variant_name();
        let is_fma_addsub = state.has_pending_fma_cost();
        if !is_fma_addsub {
            state.flush_pending_fma_cost(logger);
        }
        proof {
            state.lemma_budget();
        }
        let cost = match eadd.run(state, reg_set) {
            Ok(c) => c,
            Err(err) => return Err(SwppError::new(err, self.loc)),
        };
        if is_fma_addsub {
            state.cancel_pending_fma_cost(logger);
        }
        self.finalize_instruction(state, logger, inst_name, inst_name, cost, &[eadd.reg1, eadd.reg2], None, None);
        Ok(None)
    }

    fn run_oadd<L: SwppLogger>(
        &self,
        oadd: &InstOAdd,
        state: &mut SwppState,
        reg_set: &mut SwppRegisterSet,
        logger: &mut L,
    ) -> (res: SwppResult<Option<BlockResult>>)
        requires
            self.spec_kind() == SwppInstKind::OAdd(*oadd),
            old(state).wf(),
            self.wf(),
            !self.faults(old(state)@, *old(reg_set)),
            old(state).budget() + STEP_COST_BOUND <= u64::MAX,
        ensures
            final(state).wf(),
            final(state).budget() <= old(state).budget() + STEP_COST_BOUND,
            final(state)@ == self.outcome(old(state)@, *old(reg_set)).machine,
            regs_after(*old(reg_set), *final(reg_set), self.outcome(old(state)@, *old(reg_set)).write),
            step_result_view(res) == self.outcome(old(state)@, *old(reg_set)).result,
            L::obeys_history() ==> final(logger).history() == old(logger).history() + self.log_of(old(state)@, *old(reg_set)),
            res matches Err(e) ==> e.spec_loc() == self.spec_loc(),
            self.outcome(old(state)@, *old(reg_set)).write matches Some((r, _)) ==> r.wf(),
            self.outcome(old(state)@, *old(reg_set)).result matches Ok(
                Some(BlockResultView::Call(c)),
            ) ==> (c.target matches Some(t) ==> t.wf()),
    {
        proof {
            reveal(SwppInst::log_of);
            reveal(oadd_outcome);
        }
        let inst_name = self.kind.variant_name();
        let is_fma_addsub = state.has_pending_fma_cost();
        if !is_fma_addsub {
            state.flush_pending_fma_cost(logger);
        }
        proof {
            state.lemma_budget();
        }
        let cost = match oadd.run(state, reg_set) {
            Ok(c) => c,
            Err(err) => return Err(SwppError::new(err, self.loc)),
        };
        if is_fma_addsub {
            state.cancel_pending_fma_cost(logger);
        }
        self.finalize_instruction(state, logger, inst_name, inst_name, cost, &[oadd.reg1, oadd.reg2], None, None);
        Ok(None)
    }

    fn run_esub<L: SwppLogger>(
        &self,
        esub: &InstESub,
        state: &mut SwppState,
        reg_set: &mut SwppRegisterSet,
        logger: &mut L,
    ) -> (res: SwppResult<Option<BlockResult>>)
        requires
            self.spec_kind() == SwppInstKind::ESub(*esub),
            old(state).wf(),
            self.wf(),
            !self.faults(old(state)@, *old(reg_set)),
            old(state).budget() + STEP_COST_BOUND <= u64::MAX,
        ensures
            final(state).wf(),
            final(state).budget() <= old(state).budget() + STEP_COST_BOUND,
            final(state)@ == self.outcome(old(state)@, *old(reg_set)).machine,
            regs_after(*old(reg_set), *final(reg_set), self.outcome(old(state)@, *old(reg_set)).write),
            step_result_view(res) == self.outcome(old(state)@, *old(reg_set)).result,
            L::obeys_history() ==> final(logger).history() == old(logger).history() + self.log_of(old(state)@, *old(reg_set)),
            res matches Err(e) ==> e.spec_loc() == self.spec_loc(),
            self.outcome(old(state)@, *old(reg_set)).write matches Some((r, _)) ==> r.wf(),
            self.outcome(old(state)@, *old(reg_set)).result matches Ok(
                Some(BlockResultView::Call(c)),
            ) ==> (c.target matches Some(t) ==> t.wf()),
    {
        proof {
            reveal(SwppInst::log_of);
            reveal(esub_outcome);
        }
        let inst_name = self.kind.variant_name();
        let is_fma_addsub = state.has_pending_fma_cost();
        if !is_fma_addsub {
            state.flush_pending_fma_cost(logger);
        }
        proof {
            state.lemma_budget();
        }
        let cost = match esub.run(state, reg_set) {
            Ok(c) => c,
            Err(err) => return Err(SwppError::new(err, self.loc)),
        };
        if is_fma_addsub {
            state.cancel_pending_fma_cost(logger);
        }
        self.finalize_instruction(state, logger, inst_name, inst_name, cost, &[esub.reg1, esub.reg2], None, None);
        Ok(None)
    }

    fn run_osub<L: SwppLogger>(
        &self,
        osub: &InstOSub,
        state: &mut SwppState,
        reg_set: &mut SwppRegisterSet,
        logger: &mut L,
    ) -> (res: SwppResult<Option<BlockResult>>)
        requires
            self.spec_kind() == SwppInstKind::OSub(*osub),
            old(state).wf(),
            self.wf(),
            !self.faults(old(state)@, *old(reg_set)),
            old(state).budget() + STEP_COST_BOUND <= u64::MAX,
        ensures
            final(state).wf(),
            final(state).budget() <= old(state).budget() + STEP_COST_BOUND,
            final(state)@ == self.outcome(old(state)@, *old(reg_set)).machine,
            regs_after(*old(reg_set), *final(reg_set), self.outcome(old(state)@, *old(reg_set)).write),
            step_result_view(res) == self.outcome(old(state)@, *old(reg_set)).result,
            L::obeys_history() ==> final(logger).history() == old(logger).history() + self.log_of(old(state)@, *old(reg_set)),
            res matches Err(e) ==> e.spec_loc() == self.spec_loc(),
            self.outcome(old(state)@, *old(reg_set)).write matches Some((r, _)) ==> r.wf(),
            self.outcome(old(state)@, *old(reg_set)).result matches Ok(
                Some(BlockResultView::Call(c)),
            ) ==> (c.target matches Some(t) ==> t.wf()),
    {
        proof {
            reveal(SwppInst::log_of);
            reveal(osub_outcome);
        }
        let inst_name = self.kind.variant_name();
        let is_fma_addsub = state.has_pending_fma_cost();
        if !is_fma_addsub {
            state.flush_pending_fma_cost(logger);
        }
        proof {
            state.lemma_budget();
        }
        let cost = match osub.run(state, reg_set) {
            Ok(c) => c,
            Err(err) => return Err(SwppError::new(err, self.loc)),
        };
        if is_fma_addsub {
            state.cancel_pending_fma_cost(logger);
        }
        self.finalize_instruction(state, logger, inst_name, inst_name, cost, &[osub.reg1, osub.reg2], None, None);
        Ok(None)
    }

    fn run_comp<L: SwppLogger>(
        &self,
        comp: &InstComparison,
        state: &mut SwppState,
        reg_set: &mut SwppRegisterSet,
        logger: &mut L,
    ) -> (res: SwppResult<Option<BlockResult>>)
        requires
            self.spec_kind() == SwppInstKind::Comp(*comp),
            old(state).wf(),
            self.wf(),
            !self.faults(old(state)@, *old(reg_set)),
            old(state).budget() + STEP_COST_BOUND <= u64::MAX,
        ensures
            final(state).wf(),
            final(state).budget() <= old(state).budget() + STEP_COST_BOUND,
            final(state)@ == self.outcome(old(state)@, *old(reg_set)).machine,
            regs_after(*old(reg_set), *final(reg_set), self.outcome(old(state)@, *old(reg_set)).write),
            step_result_view(res) == self.outcome(old(state)@, *old(reg_set)).result,
            L::obeys_history() ==> final(logger).history() == old(logger).history() + self.log_of(old(state)@, *old(reg_set)),
            res matches Err(e) ==> e.spec_loc() == self.spec_loc(),
            self.outcome(old(state)@, *old(reg_set)).write matches Some((r, _)) ==> r.wf(),
            self.outcome(old(state)@, *old(reg_set)).result matches Ok(
                Some(BlockResultView::Call(c)),
            ) ==> (c.target matches Some(t) ==> t.wf()),
    {
        proof {
            reveal(SwppInst::log_of);
            reveal(comp_outcome);
        }
        let inst_name = self.kind.variant_name();
        state.flush_pending_fma_cost(logger);
        proof {
            state.lemma_budget();
        }
        let cost = BASIC_COST_ARITH_CMP;
        match comp.run(state, reg_set) {
            Ok(_) => {},
            Err(err) => return Err(SwppError::new(err, self.loc)),
        }
        self.finalize_instruction(state, logger, inst_name, inst_name, cost, &[comp.reg1, comp.reg2], None, None);
        Ok(None)
    }

    /// Runs the instruction on the state and the registers of the current frame,
    /// and says what the program loop does next: nothing (go on with the next
    /// instruction), jump, return or call. Any deferred cost is charged first,
    /// unless this is an add or sub that fuses with it.
    /// The cost and the debts must leave `STEP_COST_BOUND` of room below
    /// `u64::MAX`, a limit of the machine: no instruction adds more.
    pub fn run<L: SwppLogger>(
        &self,
        state: &mut SwppState,
        reg_set: &mut SwppRegisterSet,
        logger: &mut L,
    ) -> (res: SwppResult<Option<BlockResult>>)
        requires
            old(state).wf(),
            self.wf(),
            self.is_internal(),
            !self.faults(old(state)@, *old(reg_set)),
            old(state).budget() + STEP_COST_BOUND <= u64::MAX,
        ensures
            final(state).wf(),
            final(state).budget() <= old(state).budget() + STEP_COST_BOUND,
            final(state)@ == self.outcome(old(state)@, *old(reg_set)).machine,
            regs_after(*old(reg_set), *final(reg_set), self.outcome(old(state)@, *old(reg_set)).write),
            step_result_view(res) == self.outcome(old(state)@, *old(reg_set)).result,
            L::obeys_history() ==> final(logger).history() == old(logger).history() + self.log_of(old(state)@, *old(reg_set)),
            res matches Err(e) ==> e.spec_loc() == self.spec_loc(),
            self.outcome(old(state)@, *old(reg_set)).write matches Some((r, _)) ==> r.wf(),
            self.outcome(old(state)@, *old(reg_set)).result matches Ok(
                Some(BlockResultView::Call(c)),
            ) ==> (c.target matches Some(t) ==> t.wf()),
    {
        proof {
            reveal(SwppInst::log_of);
        }
        match &self.kind {
            SwppInstKind::Ret(ret) => self.run_ret(ret, state, reg_set, logger),
            SwppInstKind::UBranch(br) => self.run_ubranch(br, state, reg_set, logger),
            SwppInstKind::Branch(br) => self.run_branch(br, state, reg_set, logger),
            SwppInstKind::Switch(sw) => self.run_switch(sw, state, reg_set, logger),
            SwppInstKind::FnCall(fcall) => self.run_call(fcall, state, reg_set, logger),
            SwppInstKind::Assert(assertion) => self.run_assert(assertion, state, reg_set, logger),
            SwppInstKind::Malloc(malloc) => self.run_malloc(malloc, state, reg_set, logger),
            SwppInstKind::Free(free) => self.run_free(free, state, reg_set, logger),
            SwppInstKind::Load(load) => self.run_load(load, state, reg_set, logger),
            SwppInstKind::Store(store) => self.run_store(store, state, reg_set, logger),
            SwppInstKind::ALoad(aload) => self.run_aload(aload, state, reg_set, logger),
            SwppInstKind::Select(select) => self.run_select(select, state, reg_set, logger),
            SwppInstKind::UDiv(udiv) => self.run_udiv(udiv, state, reg_set, logger),
            SwppInstKind::SDiv(sdiv) => self.run_sdiv(sdiv, state, reg_set, logger),
            SwppInstKind::URem(urem) => self.run_urem(urem, state, reg_set, logger),
            SwppInstKind::SRem(srem) => self.run_srem(srem, state, reg_set, logger),
            SwppInstKind::Mul(mul) => self.run_mul(mul, state, reg_set, logger),
            SwppInstKind::Shl(shl) => self.run_shl(shl, state, reg_set, logger),
            SwppInstKind::Lshr(lshr) => self.run_lshr(lshr, state, reg_set, logger),
            SwppInstKind::Ashr(ashr) => self.run_ashr(ashr, state, reg_set, logger),
            SwppInstKind::And(and) => self.run_and(and, state, reg_set, logger),
            SwppInstKind::Or(or) => self.run_or(or, state, reg_set, logger),
            SwppInstKind::Xor(xor) => self.run_xor(xor, state, reg_set, logger),
            SwppInstKind::EAdd(eadd) => self.run_eadd(eadd, state, reg_set, logger),
            SwppInstKind::OAdd(oadd) => self.run_oadd(oadd, state, reg_set, logger),
            SwppInstKind::ESub(esub) => self.run_esub(esub, state, reg_set, logger),
            SwppInstKind::OSub(osub) => self.run_osub(osub, state, reg_set, logger),
            SwppInstKind::Comp(comp) => self.run_comp(comp, state, reg_set, logger),
            SwppInstKind::Read(_) => {
                proof {
                    reveal(read_outcome);
                }
                state.flush_pending_fma_cost(logger);
                Ok(None)
            },
            SwppInstKind::Write(_) => {
                proof {
                    reveal(write_outcome);
                }
                state.flush_pending_fma_cost(logger);
                Ok(None)
            },
        }
    }
}

} // verus!
