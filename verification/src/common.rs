use vstd::prelude::*;

use crate::error::{SwppErrorKind, SwppRawResult};
use crate::logger::{LogEvent, SwppLogger};
use crate::program::SwppState;
use crate::register::{SwppRegisterName, SwppRegisterSet};

verus! {

pub const MEM_STACK_SIZE: u64 = 102400;
pub const MAIN_NAME: &'static str = "main";
pub const INTERNAL_ERROR_MSG: &'static str =
    "Internal Logic Error. If students find this bug, please tell TAs.";
pub const HEAP_OFFSET: u64 = 204800;
pub const MAX_HEAP_SIZE: u64 = u64::MAX - HEAP_OFFSET;
pub const NULL_ADDR: u64 = 153600;

// Memory access costs
pub const MEMORY_ACCESS_COST_STACK: u64 = 30;
pub const MEMORY_ACCESS_COST_HEAP: u64 = 50;

// What an asynchronous load leaves its target owing, on the stack and on the heap
pub const ALOAD_DEBT_STACK: u64 = 36;
pub const ALOAD_DEBT_HEAP: u64 = 60;

// Basic instruction costs
pub const BASIC_COST_CONTROL_RET: u64 = 1;
pub const BASIC_COST_CONTROL_UBRANCH: u64 = 30;
pub const BASIC_COST_CONTROL_BRANCH_TRUE: u64 = 90;
pub const BASIC_COST_CONTROL_BRANCH_FALSE: u64 = 30;
/// A forward jump costs its base cost times 3/2 (rounded down).
pub const FORWARD_BRANCH_COST_NUMERATOR: u64 = 3;
pub const FORWARD_BRANCH_COST_DENOMINATOR: u64 = 2;
pub const BASIC_COST_CONTROL_SWITCH: u64 = 60;
pub const BASIC_COST_CONTROL_FNCALL: u64 = 30;
pub const BASIC_COST_MEM_HEAP_OP: u64 = 150;
pub const BASIC_COST_ARITH_INT_MULDIV: u64 = 2;
pub const BASIC_COST_ARITH_INT_SHIFT: u64 = 10;
pub const BASIC_COST_ARITH_BITWISE: u64 = 10;
pub const BASIC_COST_ARITH_INT_ADDSUB_RIGHT: u64 = 10;
pub const BASIC_COST_ARITH_INT_ADDSUB_WRONG: u64 = 20;
pub const BASIC_COST_ARITH_INT_ADDSUB_FMA: u64 = 0;
pub const BASIC_COST_ARITH_CMP: u64 = 3;
pub const BASIC_COST_ARITH_SELECT: u64 = 3;
pub const BASIC_COST_MISC_FOUR_PHOBIA: u64 = 10;

/// More than what one instruction can add to the cost and the outstanding debts:
/// a deferred cost, a heap access at full heat, the surcharge and a new debt.
/// This is a limit of the machine, not of the cost model: a step is taken only
/// while the cost and the debts are at least this far below `u64::MAX`, so that
/// no sum overflows. A program stops on it at most this many units before the
/// sums would wrap.
pub const STEP_COST_BOUND: u64 = 512;

/// Number of bytes moved by one memory access.
#[derive(Debug, Clone, Copy, PartialEq, Eq, Structural)]
pub enum AccessSize {
    One,
    Two,
    Four,
    Eight,
}

impl AccessSize {
    pub open spec fn spec_bytes(self) -> u64 {
        match self {
            AccessSize::One => 1,
            AccessSize::Two => 2,
            AccessSize::Four => 4,
            AccessSize::Eight => 8,
        }
    }

    /// The access size of `value` bytes; only 1, 2, 4 and 8 name one.
    pub fn from_bytes(value: u64) -> (res: AccessSize)
        requires
            value == 1 || value == 2 || value == 4 || value == 8,
        ensures
            res.spec_bytes() == value,
    {
        if value == 1 {
            AccessSize::One
        } else if value == 2 {
            AccessSize::Two
        } else if value == 4 {
            AccessSize::Four
        } else {
            AccessSize::Eight
        }
    }

    /// The number of bytes of this access size.
    pub fn bytes(&self) -> (res: u64)
        ensures
            res == self.spec_bytes(),
    {
        match self {
            AccessSize::One => 1,
            AccessSize::Two => 2,
            AccessSize::Four => 4,
            AccessSize::Eight => 8,
        }
    }

    pub open spec fn spec_is_four_phobia(self) -> bool {
        self.spec_bytes() == 4
    }

    pub fn is_four_phobia(&self) -> (res: bool)
        ensures
            res == self.spec_is_four_phobia(),
    {
        self.bytes() == 4
    }

    /// Charges the 4-phobia surcharge when the access moves four bytes; returns it.
    pub fn add_cost_if_four_phobia<L: SwppLogger>(
        &self,
        state: &mut SwppState,
        logger: &mut L,
        loc: u64,
        inst_name: &str,
    ) -> (res: u64)
        requires
            old(state).wf(),
            old(state)@.cost + BASIC_COST_MISC_FOUR_PHOBIA <= u64::MAX,
        ensures
            final(state).wf(),
            res == if self.spec_is_four_phobia() {
                BASIC_COST_MISC_FOUR_PHOBIA
            } else {
                0
            },
            final(state)@ == old(state)@.add_cost(res as int),
            final(state).budget() == old(state).budget() + res,
            L::obeys_history() ==> final(logger).history() == if self.spec_is_four_phobia() {
                old(logger).history().push(
                    LogEvent::Record {
                        line: loc,
                        inst: inst_name@ + "-4phobia"@,
                        cost: BASIC_COST_MISC_FOUR_PHOBIA,
                        total: (old(state)@.cost + BASIC_COST_MISC_FOUR_PHOBIA) as u64,
                        fname: old(state)@.fname,
                    },
                )
            } else {
                old(logger).history()
            },
    {
        if self.is_four_phobia() {
            let cost = BASIC_COST_MISC_FOUR_PHOBIA;
            state.add_cost(cost);
            let mut log_name = inst_name.to_owned();
            log_name.append("-4phobia");
            logger.log(loc, log_name.as_str(), cost, state.get_cost(), state.get_context());
            cost
        } else {
            proof {
                assert(state@ =~= old(state)@.add_cost(0));
            }
            0
        }
    }
}

/// The width in bits of an arithmetic operation.
#[derive(Debug, Clone, Copy, PartialEq, Eq, Structural)]
pub enum BitWidth {
    Bit,
    Byte,
    Short,
    Quad,
    Full,
}

/// Two to the power `n`.
pub open spec fn pow2(n: nat) -> nat
    decreases n,
{
    if n == 0 {
        1
    } else {
        2 * pow2((n - 1) as nat)
    }
}

/// `v` read as a two's complement number of `bits` bits.
pub open spec fn to_signed(v: int, bits: nat) -> int {
    if v < pow2((bits - 1) as nat) {
        v
    } else {
        v - pow2(bits)
    }
}

impl BitWidth {
    pub open spec fn spec_bits(self) -> u64 {
        match self {
            BitWidth::Bit => 1,
            BitWidth::Byte => 8,
            BitWidth::Short => 16,
            BitWidth::Quad => 32,
            BitWidth::Full => 64,
        }
    }

    /// Two to the power of the width: the number of values of this width.
    pub open spec fn modulus(self) -> nat {
        pow2(self.spec_bits() as nat)
    }

    /// The value of `val` truncated to this width.
    pub open spec fn spec_read_u64(self, val: u64) -> u64 {
        (val as int % self.modulus() as int) as u64
    }

    /// The value of `val` truncated to this width and read as a signed number.
    pub open spec fn spec_sign_extend(self, val: u64) -> i64 {
        to_signed(self.spec_read_u64(val) as int, self.spec_bits() as nat) as i64
    }

    /// The low bits of a signed value, as a non-negative number below the modulus
    /// (the value itself at full width).
    pub open spec fn spec_read_i64(self, val: i64) -> i64 {
        if self == BitWidth::Full {
            val
        } else {
            (val as int % self.modulus() as int) as i64
        }
    }

    /// The width named by `value` bits; only 1, 8, 16, 32 and 64 name one.
    pub fn from_bits(value: u64) -> (res: BitWidth)
        requires
            value == 1 || value == 8 || value == 16 || value == 32 || value == 64,
        ensures
            res.spec_bits() == value,
    {
        if value == 1 {
            BitWidth::Bit
        } else if value == 8 {
            BitWidth::Byte
        } else if value == 16 {
            BitWidth::Short
        } else if value == 32 {
            BitWidth::Quad
        } else {
            BitWidth::Full
        }
    }

    /// The number of bits of this width.
    pub fn bits(&self) -> (res: u64)
        ensures
            res == self.spec_bits(),
    {
        match self {
            BitWidth::Bit => 1,
            BitWidth::Byte => 8,
            BitWidth::Short => 16,
            BitWidth::Quad => 32,
            BitWidth::Full => 64,
        }
    }

    pub proof fn lemma_modulus(self)
        ensures
            self == BitWidth::Bit ==> self.modulus() == 2,
            self == BitWidth::Byte ==> self.modulus() == 0x100,
            self == BitWidth::Short ==> self.modulus() == 0x1_0000,
            self == BitWidth::Quad ==> self.modulus() == 0x1_0000_0000,
            self == BitWidth::Full ==> self.modulus() == 0x1_0000_0000_0000_0000,
            self == BitWidth::Bit ==> pow2((self.spec_bits() - 1) as nat) == 1,
            self == BitWidth::Byte ==> pow2((self.spec_bits() - 1) as nat) == 0x80,
            self == BitWidth::Short ==> pow2((self.spec_bits() - 1) as nat) == 0x8000,
            self == BitWidth::Quad ==> pow2((self.spec_bits() - 1) as nat) == 0x8000_0000,
            self == BitWidth::Full ==> pow2((self.spec_bits() - 1) as nat) == 0x8000_0000_0000_0000,
    {
        assert(pow2(0) == 1);
        assert(pow2(7) == 0x80) by {
            reveal_with_fuel(pow2, 8);
        }
        assert(pow2(15) == 0x8000) by {
            reveal_with_fuel(pow2, 9);
        }
        assert(pow2(23) == 0x80_0000) by {
            reveal_with_fuel(pow2, 9);
        }
        assert(pow2(31) == 0x8000_0000) by {
            reveal_with_fuel(pow2, 9);
        }
        assert(pow2(39) == 0x80_0000_0000) by {
            reveal_with_fuel(pow2, 9);
        }
        assert(pow2(47) == 0x8000_0000_0000) by {
            reveal_with_fuel(pow2, 9);
        }
        assert(pow2(55) == 0x80_0000_0000_0000) by {
            reveal_with_fuel(pow2, 9);
        }
        assert(pow2(63) == 0x8000_0000_0000_0000) by {
            reveal_with_fuel(pow2, 9);
        }
        assert(pow2(8) == 0x100) by {
            reveal_with_fuel(pow2, 9);
        }
        assert(pow2(16) == 0x1_0000) by {
            reveal_with_fuel(pow2, 9);
        }
        assert(pow2(24) == 0x100_0000) by {
            reveal_with_fuel(pow2, 9);
        }
        assert(pow2(32) == 0x1_0000_0000) by {
            reveal_with_fuel(pow2, 9);
        }
        assert(pow2(40) == 0x100_0000_0000) by {
            reveal_with_fuel(pow2, 9);
        }
        assert(pow2(48) == 0x1_0000_0000_0000) by {
            reveal_with_fuel(pow2, 9);
        }
        assert(pow2(56) == 0x100_0000_0000_0000) by {
            reveal_with_fuel(pow2, 9);
        }
        assert(pow2(64) == 0x1_0000_0000_0000_0000) by {
            reveal_with_fuel(pow2, 9);
        }
        assert(pow2(1) == 2) by {
            reveal_with_fuel(pow2, 2);
        }
    }

    pub fn read_u64(&self, val: u64) -> (res: u64)
        ensures
            res == self.spec_read_u64(val),
    {
        proof {
            self.lemma_modulus();
        }
        let bit = self.bits();
        let shift = 64 - bit;
        if shift == 0 {
            val
        } else {
            let one_shifted = 1u64 << bit;
            proof {
                match *self {
                    BitWidth::Bit => {
                        assert(1u64 << bit == 2) by (bit_vector)
                            requires
                                bit == 1u64,
                        ;
                        assert(val & 1 == val % 2) by (bit_vector);
                    },
                    BitWidth::Byte => {
                        assert(1u64 << bit == 0x100) by (bit_vector)
                            requires
                                bit == 8u64,
                        ;
                        assert(val & 0xff == val % 0x100) by (bit_vector);
                    },
                    BitWidth::Short => {
                        assert(1u64 << bit == 0x1_0000) by (bit_vector)
                            requires
                                bit == 16u64,
                        ;
                        assert(val & 0xffff == val % 0x1_0000) by (bit_vector);
                    },
                    BitWidth::Quad => {
                        assert(1u64 << bit == 0x1_0000_0000) by (bit_vector)
                            requires
                                bit == 32u64,
                        ;
                        assert(val & 0xffff_ffff == val % 0x1_0000_0000) by (bit_vector);
                    },
                    BitWidth::Full => {},
                }
            }
            let mask = one_shifted - 1;
            val & mask
        }
    }

    pub fn read_i64(&self, val: i64) -> (res: i64)
        ensures
            res == self.spec_read_i64(val),
    {
        proof {
            self.lemma_modulus();
        }
        let bit = self.bits();
        let shift = 64 - bit;
        if shift == 0 {
            val
        } else {
            let one_shifted = 1i64 << bit;
            proof {
                match *self {
                    BitWidth::Bit => {
                        assert(1i64 << bit == 2) by (bit_vector)
                            requires
                                bit == 1u64,
                        ;
                        assert(val & 1 == val % 2) by (bit_vector);
                    },
                    BitWidth::Byte => {
                        assert(1i64 << bit == 0x100) by (bit_vector)
                            requires
                                bit == 8u64,
                        ;
                        assert(val & 0xff == val % 0x100) by (bit_vector);
                    },
                    BitWidth::Short => {
                        assert(1i64 << bit == 0x1_0000) by (bit_vector)
                            requires
                                bit == 16u64,
                        ;
                        assert(val & 0xffff == val % 0x1_0000) by (bit_vector);
                    },
                    BitWidth::Quad => {
                        assert(1i64 << bit == 0x1_0000_0000) by (bit_vector)
                            requires
                                bit == 32u64,
                        ;
                        assert(val & 0xffff_ffff == val % 0x1_0000_0000) by (bit_vector);
                    },
                    BitWidth::Full => {},
                }
            }
            let mask = one_shifted - 1;
            val & mask
        }
    }

    pub fn sign_extend_u64(&self, val: u64) -> (res: i64)
        ensures
            res == self.spec_sign_extend(val),
    {
        proof {
            self.lemma_modulus();
            reveal_with_fuel(pow2, 65);
        }
        let bit = self.bits();
        let shift = 64 - bit;
        let masked = self.read_u64(val);
        if shift == 0 {
            proof {
                assert((masked as i64) as int == if masked < 0x8000_0000_0000_0000 {
                    masked as int
                } else {
                    masked as int - 0x1_0000_0000_0000_0000
                }) by (bit_vector);
            }
            masked as i64
        } else {
            proof {
                match *self {
                    BitWidth::Bit => {
                        assert(masked < 2 ==> (((masked << 63u64) as i64) >> 63u64) as int == if masked
                            < 1 {
                            masked as int
                        } else {
                            masked as int - 2
                        }) by (bit_vector);
                    },
                    BitWidth::Byte => {
                        assert(masked < 0x100 ==> (((masked << 56u64) as i64) >> 56u64) as int
                            == if masked < 0x80 {
                            masked as int
                        } else {
                            masked as int - 0x100
                        }) by (bit_vector);
                    },
                    BitWidth::Short => {
                        assert(masked < 0x1_0000 ==> (((masked << 48u64) as i64) >> 48u64) as int
                            == if masked < 0x8000 {
                            masked as int
                        } else {
                            masked as int - 0x1_0000
                        }) by (bit_vector);
                    },
                    BitWidth::Quad => {
                        assert(masked < 0x1_0000_0000 ==> (((masked << 32u64) as i64) >> 32u64)
                            as int == if masked < 0x8000_0000 {
                            masked as int
                        } else {
                            masked as int - 0x1_0000_0000
                        }) by (bit_vector);
                    },
                    BitWidth::Full => {},
                }
            }
            ((masked << shift) as i64) >> shift
        }
    }
}

/// Integer comparison predicates.
#[derive(Debug, Clone, Copy, PartialEq, Eq, Structural)]
pub enum ICMP {
    Eq,
    Ne,
    Ugt,
    Uge,
    Ult,
    Ule,
    Sgt,
    Sge,
    Slt,
    Sle,
}

impl ICMP {
    /// Whether the predicate holds between `rhs` and `lhs`, given as unsigned
    /// values `u_rhs`, `u_lhs` and signed values `s_rhs`, `s_lhs`.
    pub open spec fn spec_holds(self, u_rhs: int, u_lhs: int, s_rhs: int, s_lhs: int) -> bool {
        match self {
            Self::Eq => u_rhs == u_lhs,
            Self::Ne => u_rhs != u_lhs,
            Self::Ugt => u_rhs > u_lhs,
            Self::Uge => u_rhs >= u_lhs,
            Self::Ult => u_rhs < u_lhs,
            Self::Ule => u_rhs <= u_lhs,
            Self::Sgt => s_rhs > s_lhs,
            Self::Sge => s_rhs >= s_lhs,
            Self::Slt => s_rhs < s_lhs,
            Self::Sle => s_rhs <= s_lhs,
        }
    }

    pub fn compare_u64(&self, rhs: u64, lhs: u64) -> (res: bool)
        ensures
            res == self.spec_holds(rhs as int, lhs as int, (rhs as i64) as int, (lhs as i64) as int),
    {
        let rhs_s: i64 = rhs as i64;
        let lhs_s: i64 = lhs as i64;
        match self {
            Self::Eq => rhs == lhs,
            Self::Ne => rhs != lhs,
            Self::Ugt => rhs > lhs,
            Self::Uge => rhs >= lhs,
            Self::Ult => rhs < lhs,
            Self::Ule => rhs <= lhs,
            Self::Sgt => rhs_s > lhs_s,
            Self::Sge => rhs_s >= lhs_s,
            Self::Slt => rhs_s < lhs_s,
            Self::Sle => rhs_s <= lhs_s,
        }
    }

    pub fn compare_u32(&self, rhs: u32, lhs: u32) -> (res: bool)
        ensures
            res == self.spec_holds(rhs as int, lhs as int, (rhs as i32) as int, (lhs as i32) as int),
    {
        let rhs_s: i32 = rhs as i32;
        let lhs_s: i32 = lhs as i32;
        match self {
            Self::Eq => rhs == lhs,
            Self::Ne => rhs != lhs,
            Self::Ugt => rhs > lhs,
            Self::Uge => rhs >= lhs,
            Self::Ult => rhs < lhs,
            Self::Ule => rhs <= lhs,
            Self::Sgt => rhs_s > lhs_s,
            Self::Sge => rhs_s >= lhs_s,
            Self::Slt => rhs_s < lhs_s,
            Self::Sle => rhs_s <= lhs_s,
        }
    }

    pub fn compare_u16(&self, rhs: u16, lhs: u16) -> (res: bool)
        ensures
            res == self.spec_holds(rhs as int, lhs as int, (rhs as i16) as int, (lhs as i16) as int),
    {
        let rhs_s: i16 = rhs as i16;
        let lhs_s: i16 = lhs as i16;
        match self {
            Self::Eq => rhs == lhs,
            Self::Ne => rhs != lhs,
            Self::Ugt => rhs > lhs,
            Self::Uge => rhs >= lhs,
            Self::Ult => rhs < lhs,
            Self::Ule => rhs <= lhs,
            Self::Sgt => rhs_s > lhs_s,
            Self::Sge => rhs_s >= lhs_s,
            Self::Slt => rhs_s < lhs_s,
            Self::Sle => rhs_s <= lhs_s,
        }
    }

    pub fn compare_u8(&self, rhs: u8, lhs: u8) -> (res: bool)
        ensures
            res == self.spec_holds(rhs as int, lhs as int, (rhs as i8) as int, (lhs as i8) as int),
    {
        let rhs_s: i8 = rhs as i8;
        let lhs_s: i8 = lhs as i8;
        match self {
            Self::Eq => rhs == lhs,
            Self::Ne => rhs != lhs,
            Self::Ugt => rhs > lhs,
            Self::Uge => rhs >= lhs,
            Self::Ult => rhs < lhs,
            Self::Ule => rhs <= lhs,
            Self::Sgt => rhs_s > lhs_s,
            Self::Sge => rhs_s >= lhs_s,
            Self::Slt => rhs_s < lhs_s,
            Self::Sle => rhs_s <= lhs_s,
        }
    }

    /// Booleans compare as 0 and 1; the signed predicates compare them the same way.
    pub fn compare_bit(&self, rhs: bool, lhs: bool) -> (res: bool)
        ensures
            res == self.spec_holds(
                if rhs { 1 } else { 0 },
                if lhs { 1 } else { 0 },
                if rhs { 1 } else { 0 },
                if lhs { 1 } else { 0 },
            ),
    {
        let rhs: u8 = if rhs { 1 } else { 0 };
        let lhs: u8 = if lhs { 1 } else { 0 };
        match self {
            Self::Eq => rhs == lhs,
            Self::Ne => rhs != lhs,
            Self::Ugt => rhs > lhs,
            Self::Uge => rhs >= lhs,
            Self::Ult => rhs < lhs,
            Self::Ule => rhs <= lhs,
            Self::Sgt => rhs > lhs,
            Self::Sge => rhs >= lhs,
            Self::Slt => rhs < lhs,
            Self::Sle => rhs <= lhs,
        }
    }
}

/// Operands can be either a register or a constant value.
#[derive(Debug, Clone, Copy, PartialEq, Eq, Structural)]
pub enum Arg {
    Reg(SwppRegisterName),
    Const(u64),
}

impl Arg {
    /// The register, if any, is one that exists.
    pub open spec fn wf(self) -> bool {
        match self {
            Arg::Reg(r) => r.wf(),
            Arg::Const(_) => true,
        }
    }

    /// The value of the operand under the registers `regs`.
    pub open spec fn value(self, regs: crate::register::SwppRegisterSet) -> u64 {
        match self {
            Arg::Reg(r) => regs.value_of(r),
            Arg::Const(v) => v,
        }
    }

    pub open spec fn spec_is_const_four(self) -> bool {
        self == Arg::Const(4)
    }

    /// This function is required for implementing 4-Phobia
    /// Whether the operand names no register that does not exist.
    pub fn names_existing_register(&self) -> (res: bool)
        ensures
            res == self.wf(),
    {
        match self {
            Arg::Reg(r) => r.is_valid(),
            Arg::Const(_) => true,
        }
    }

    pub fn is_const_four(&self) -> (res: bool)
        ensures
            res == self.spec_is_const_four(),
    {
        match self {
            Arg::Const(val) => *val == 4,
            _ => false,
        }
    }

    /// The value of the operand.
    pub fn read_value(&self, reg_set: &SwppRegisterSet) -> (res: SwppRawResult<u64>)
        requires
            self.wf(),
        ensures
            res == Ok::<u64, SwppErrorKind>(self.value(*reg_set)),
    {
        match self {
            Arg::Reg(reg) => reg_set.read_register_word(reg),
            Arg::Const(val) => Ok(*val),
        }
    }

    /// The value of the operand; a register still waiting for an asynchronous
    /// load pays its debt first.
    pub fn read_value_with_state(&self, state: &mut SwppState, reg_set: &SwppRegisterSet) -> (res:
        SwppRawResult<u64>)
        requires
            old(state).wf(),
            self.wf(),
            old(state).budget() <= u64::MAX,
        ensures
            final(state).wf(),
            res == Ok::<u64, SwppErrorKind>(self.value(*reg_set)),
            final(state)@ == old(state)@.read_arg(*self),
            final(state).budget() <= old(state).budget(),
    {
        match self {
            Arg::Reg(reg) => state.read_register_with_debt(reg_set, reg),
            Arg::Const(val) => Ok(*val),
        }
    }

    /// Charges the 4-phobia surcharge when the operand is the constant 4; returns it.
    pub fn add_cost_if_four_phobia<L: SwppLogger>(
        &self,
        state: &mut SwppState,
        logger: &mut L,
        loc: u64,
        inst_name: &str,
    ) -> (res: u64)
        requires
            old(state).wf(),
            old(state)@.cost + BASIC_COST_MISC_FOUR_PHOBIA <= u64::MAX,
        ensures
            final(state).wf(),
            res == if self.spec_is_const_four() {
                BASIC_COST_MISC_FOUR_PHOBIA
            } else {
                0
            },
            final(state)@ == old(state)@.add_cost(res as int),
            final(state).budget() == old(state).budget() + res,
            L::obeys_history() ==> final(logger).history() == if self.spec_is_const_four() {
                old(logger).history().push(
                    LogEvent::Record {
                        line: loc,
                        inst: inst_name@ + "-4phobia"@,
                        cost: BASIC_COST_MISC_FOUR_PHOBIA,
                        total: (old(state)@.cost + BASIC_COST_MISC_FOUR_PHOBIA) as u64,
                        fname: old(state)@.fname,
                    },
                )
            } else {
                old(logger).history()
            },
    {
        if self.is_const_four() {
            let cost = BASIC_COST_MISC_FOUR_PHOBIA;
            state.add_cost(cost);
            let mut log_name = inst_name.to_owned();
            log_name.append("-4phobia");
            logger.log(loc, log_name.as_str(), cost, state.get_cost(), state.get_context());
            cost
        } else {
            proof {
                assert(state@ =~= old(state)@.add_cost(0));
            }
            0
        }
    }
}

/// `x` reduced to 64 bits.
pub open spec fn wrap64(x: int) -> u64 {
    (x % 0x1_0000_0000_0000_0000) as u64
}

pub open spec fn abs_int(a: int) -> int {
    if a < 0 {
        -a
    } else {
        a
    }
}

/// Division rounding toward zero.
pub open spec fn trunc_div(a: int, b: int) -> int {
    if (a < 0) != (b < 0) {
        -(abs_int(a) / abs_int(b))
    } else {
        abs_int(a) / abs_int(b)
    }
}

/// The remainder of division rounding toward zero; it has the sign of `a`.
pub open spec fn trunc_rem(a: int, b: int) -> int {
    if a < 0 {
        -(abs_int(a) % abs_int(b))
    } else {
        abs_int(a) % abs_int(b)
    }
}

fn magnitude(a: i64) -> (res: u64)
    ensures
        res == abs_int(a as int),
{
    if a < 0 {
        (0i128 - a as i128) as u64
    } else {
        a as u64
    }
}

/// Signed division rounding toward zero, as `i64` division does.
pub fn div_toward_zero(a: i64, b: i64) -> (res: i64)
    requires
        b != 0,
        !(a == i64::MIN && b == -1),
    ensures
        res == trunc_div(a as int, b as int),
{
    let q = magnitude(a) / magnitude(b);
    proof {
        assert(abs_int(a as int) / abs_int(b as int) <= abs_int(a as int)) by (nonlinear_arith)
            requires
                abs_int(b as int) >= 1,
                abs_int(a as int) >= 0,
        ;
        if (a < 0) == (b < 0) && a == i64::MIN {
            assert(abs_int(b as int) >= 2);
            assert(abs_int(a as int) / abs_int(b as int) <= abs_int(a as int) / 2) by (
            nonlinear_arith)
                requires
                    abs_int(b as int) >= 2,
                    abs_int(a as int) >= 0,
            ;
        }
    }
    if (a < 0) != (b < 0) {
        (0i128 - q as i128) as i64
    } else {
        q as i64
    }
}

/// The remainder of signed division rounding toward zero, as `i64` remainder does.
pub fn rem_toward_zero(a: i64, b: i64) -> (res: i64)
    requires
        b != 0,
    ensures
        res == trunc_rem(a as int, b as int),
{
    let r = magnitude(a) % magnitude(b);
    proof {
        assert(abs_int(a as int) % abs_int(b as int) < abs_int(b as int)) by (nonlinear_arith)
            requires
                abs_int(b as int) >= 1,
        ;
    }
    if a < 0 {
        (0i128 - r as i128) as i64
    } else {
        r as i64
    }
}


impl From<AccessSize> for u64 {
    fn from(value: AccessSize) -> (res: u64) {
        value.bytes()
    }
}

impl vstd::std_specs::convert::FromSpecImpl<AccessSize> for u64 {
    open spec fn obeys_from_spec() -> bool {
        true
    }

    open spec fn from_spec(value: AccessSize) -> u64 {
        value.spec_bytes()
    }
}

impl From<AccessSize> for usize {
    fn from(value: AccessSize) -> (res: usize) {
        value.bytes() as usize
    }
}

impl vstd::std_specs::convert::FromSpecImpl<AccessSize> for usize {
    open spec fn obeys_from_spec() -> bool {
        true
    }

    open spec fn from_spec(value: AccessSize) -> usize {
        value.spec_bytes() as usize
    }
}

impl From<BitWidth> for u64 {
    fn from(value: BitWidth) -> (res: u64) {
        value.bits()
    }
}

impl vstd::std_specs::convert::FromSpecImpl<BitWidth> for u64 {
    open spec fn obeys_from_spec() -> bool {
        true
    }

    open spec fn from_spec(value: BitWidth) -> u64 {
        value.spec_bits()
    }
}

impl From<BitWidth> for usize {
    fn from(value: BitWidth) -> (res: usize) {
        value.bits() as usize
    }
}

impl vstd::std_specs::convert::FromSpecImpl<BitWidth> for usize {
    open spec fn obeys_from_spec() -> bool {
        true
    }

    open spec fn from_spec(value: BitWidth) -> usize {
        value.spec_bits() as usize
    }
}

} // verus!
