//! What the arithmetic, bitwise and comparison instructions compute, stated
//! over the operands read as plain numbers of the width, and the meaning of
//! the comparison predicate names.
use vstd::prelude::*;
use vstd::arithmetic::power2::pow2;

use crate::common::{abs_int, trunc_div, trunc_rem, BitWidth, ICMP};
use crate::inst::{
    InstBitwiseAnd, InstBitwiseOr, InstBitwiseXor, InstComparison, InstShiftRightLogical,
    InstSignedDivision, InstSignedRemainder, InstUnsignedDivision, InstUnsignedRemainder,
    InstMultiplication, InstEAdd, InstOAdd, InstESub, InstOSub, InstShiftLeft,
    InstShiftRightArithmetic, InstTernary,
};
use crate::parser::inst::predicate_named;
use crate::error::ErrorKindView;
use crate::program::Machine;
use crate::register::SwppRegisterSet;

verus! {

/// The number of values of the width `bw`, written out.
pub open spec fn width_size(bw: BitWidth) -> int {
    match bw {
        BitWidth::Bit => 2,
        BitWidth::Byte => 0x100,
        BitWidth::Short => 0x1_0000,
        BitWidth::Quad => 0x1_0000_0000,
        BitWidth::Full => 0x1_0000_0000_0000_0000,
    }
}

/// `x` cut to its low bits of the width, as an unsigned number.
pub open spec fn unsigned_at(bw: BitWidth, x: u64) -> int {
    x as int % width_size(bw)
}

/// `x` cut to its low bits of the width, as a two's complement number.
pub open spec fn signed_at(bw: BitWidth, x: u64) -> int {
    let u = unsigned_at(bw, x);
    if 2 * u < width_size(bw) {
        u
    } else {
        u - width_size(bw)
    }
}

/// The reading of operands and results by width agrees with the numbers above.
proof fn lemma_reads(bw: BitWidth, x: u64)
    ensures
        bw.spec_read_u64(x) as int == unsigned_at(bw, x),
        bw.spec_sign_extend(x) as int == signed_at(bw, x),
        0 <= unsigned_at(bw, x) < width_size(bw),
        -width_size(bw) <= 2 * signed_at(bw, x) < width_size(bw),
        bw.modulus() as int == width_size(bw),
{
    bw.lemma_modulus();
}

/// The operands a comparison orders by: unsigned for the unsigned
/// predicates, two's complement for the signed ones (at width 1 the bits are
/// ordered as unsigned numbers by both).
pub open spec fn ordered_at(bw: BitWidth, x: u64, signed: bool) -> int {
    if signed && bw != BitWidth::Bit {
        signed_at(bw, x)
    } else {
        unsigned_at(bw, x)
    }
}

/// `icmp <cond> a b`: the result is 1 when `a` stands in the relation to `b`
/// (the first operand on the left), else 0; the unsigned predicates compare
/// the operands as unsigned numbers of the width, the signed ones as two's
/// complement numbers.
pub proof fn law_comparison(inst: InstComparison, regs: SwppRegisterSet)
    ensures
        ({
            let (a, b, t, bw) = inst.operands();
            let x = a.value(regs);
            let y = b.value(regs);
            let r = inst.value(regs);
            let c = inst.spec_cond();
            let (ux, uy) = (ordered_at(bw, x, false), ordered_at(bw, y, false));
            let (sx, sy) = (ordered_at(bw, x, true), ordered_at(bw, y, true));
            &&& r == 0 || r == 1
            &&& c == ICMP::Eq ==> (r == 1 <==> ux == uy)
            &&& c == ICMP::Ne ==> (r == 1 <==> ux != uy)
            &&& c == ICMP::Ugt ==> (r == 1 <==> ux > uy)
            &&& c == ICMP::Uge ==> (r == 1 <==> ux >= uy)
            &&& c == ICMP::Ult ==> (r == 1 <==> ux < uy)
            &&& c == ICMP::Ule ==> (r == 1 <==> ux <= uy)
            &&& c == ICMP::Sgt ==> (r == 1 <==> sx > sy)
            &&& c == ICMP::Sge ==> (r == 1 <==> sx >= sy)
            &&& c == ICMP::Slt ==> (r == 1 <==> sx < sy)
            &&& c == ICMP::Sle ==> (r == 1 <==> sx <= sy)
        }),
{
    let (a, b, t, bw) = inst.operands();
    lemma_reads(bw, a.value(regs));
    lemma_reads(bw, b.value(regs));
}

/// The predicate compares as unsigned numbers.
pub open spec fn is_unsigned_order(c: ICMP) -> bool {
    c == ICMP::Ugt || c == ICMP::Uge || c == ICMP::Ult || c == ICMP::Ule
}

/// The predicate compares as signed numbers.
pub open spec fn is_signed_order(c: ICMP) -> bool {
    c == ICMP::Sgt || c == ICMP::Sge || c == ICMP::Slt || c == ICMP::Sle
}

/// The predicate holds when the left operand is the greater.
pub open spec fn holds_when_greater(c: ICMP) -> bool {
    c == ICMP::Ne || c == ICMP::Ugt || c == ICMP::Uge || c == ICMP::Sgt || c == ICMP::Sge
}

/// The predicate holds when the operands are equal.
pub open spec fn holds_when_equal(c: ICMP) -> bool {
    c == ICMP::Eq || c == ICMP::Uge || c == ICMP::Ule || c == ICMP::Sge || c == ICMP::Sle
}

/// The names of the comparison predicates say what they mean: `eq` and `ne`
/// for equality and its negation; otherwise three letters, `u` or `s` for
/// unsigned or signed order, then `gt`, `ge`, `lt` or `le`, where `g` means the
/// predicate holds when the left operand is the greater and a last `e` that it
/// holds on equal operands. Distinct names name distinct predicates, and every
/// predicate has a name.
pub proof fn law_predicate_names(w: Seq<char>, v: Seq<char>, c: ICMP)
    ensures
        predicate_named(w) == Some(c) ==> {
            &&& (w.len() == 2 <==> !is_unsigned_order(c) && !is_signed_order(c))
            &&& w.len() == 2 ==> (w[0] == 'e' <==> c == ICMP::Eq)
            &&& w.len() == 3 ==> (w[0] == 'u' <==> is_unsigned_order(c))
            &&& w.len() == 3 ==> (w[0] == 's' <==> is_signed_order(c))
            &&& w.len() == 3 ==> (w[1] == 'g' <==> holds_when_greater(c))
            &&& w.len() == 3 ==> (w[2] == 'e' <==> holds_when_equal(c))
        },
        predicate_named(w) is Some && predicate_named(w) == predicate_named(v) ==> w == v,
        exists|n: Seq<char>| predicate_named(n) == Some(c),
{
    reveal_strlit("eq");
    reveal_strlit("ne");
    reveal_strlit("ugt");
    reveal_strlit("uge");
    reveal_strlit("ult");
    reveal_strlit("ule");
    reveal_strlit("sgt");
    reveal_strlit("sge");
    reveal_strlit("slt");
    reveal_strlit("sle");
    match c {
        ICMP::Eq => {
            assert(predicate_named("eq"@) == Some(c));
        },
        ICMP::Ne => {
            assert("ne"@[0] != "eq"@[0]);
            assert(predicate_named("ne"@) == Some(c));
        },
        ICMP::Ugt => {
            assert("ugt"@.len() != "eq"@.len());
            assert("ugt"@.len() != "ne"@.len());
            assert(predicate_named("ugt"@) == Some(c));
        },
        ICMP::Uge => {
            assert("uge"@.len() != "eq"@.len());
            assert("uge"@.len() != "ne"@.len());
            assert("uge"@[2] != "ugt"@[2]);
            assert(predicate_named("uge"@) == Some(c));
        },
        ICMP::Ult => {
            assert("ult"@.len() != "eq"@.len());
            assert("ult"@.len() != "ne"@.len());
            assert("ult"@[1] != "ugt"@[1]);
            assert("ult"@[1] != "uge"@[1]);
            assert(predicate_named("ult"@) == Some(c));
        },
        ICMP::Ule => {
            assert("ule"@.len() != "eq"@.len());
            assert("ule"@.len() != "ne"@.len());
            assert("ule"@[1] != "ugt"@[1]);
            assert("ule"@[1] != "uge"@[1]);
            assert("ule"@[2] != "ult"@[2]);
            assert(predicate_named("ule"@) == Some(c));
        },
        ICMP::Sgt => {
            assert("sgt"@.len() != "eq"@.len());
            assert("sgt"@.len() != "ne"@.len());
            assert("sgt"@[0] != "ugt"@[0]);
            assert("sgt"@[0] != "uge"@[0]);
            assert("sgt"@[0] != "ult"@[0]);
            assert("sgt"@[0] != "ule"@[0]);
            assert(predicate_named("sgt"@) == Some(c));
        },
        ICMP::Sge => {
            assert("sge"@.len() != "eq"@.len());
            assert("sge"@.len() != "ne"@.len());
            assert("sge"@[0] != "ugt"@[0]);
            assert("sge"@[0] != "uge"@[0]);
            assert("sge"@[0] != "ult"@[0]);
            assert("sge"@[0] != "ule"@[0]);
            assert("sge"@[2] != "sgt"@[2]);
            assert(predicate_named("sge"@) == Some(c));
        },
        ICMP::Slt => {
            assert("slt"@.len() != "eq"@.len());
            assert("slt"@.len() != "ne"@.len());
            assert("slt"@[0] != "ugt"@[0]);
            assert("slt"@[0] != "uge"@[0]);
            assert("slt"@[0] != "ult"@[0]);
            assert("slt"@[0] != "ule"@[0]);
            assert("slt"@[1] != "sgt"@[1]);
            assert("slt"@[1] != "sge"@[1]);
            assert(predicate_named("slt"@) == Some(c));
        },
        ICMP::Sle => {
            assert("sle"@.len() != "eq"@.len());
            assert("sle"@.len() != "ne"@.len());
            assert("sle"@[0] != "ugt"@[0]);
            assert("sle"@[0] != "uge"@[0]);
            assert("sle"@[0] != "ult"@[0]);
            assert("sle"@[0] != "ule"@[0]);
            assert("sle"@[1] != "sgt"@[1]);
            assert("sle"@[1] != "sge"@[1]);
            assert("sle"@[2] != "slt"@[2]);
            assert(predicate_named("sle"@) == Some(c));
        },
    }
}

/// A non-negative number whose quotient by `d` is zero is below `d`.
proof fn lemma_small_quotient(x: int, d: int)
    requires
        0 <= x,
        0 < d,
        x / d == 0,
    ensures
        x < d,
{
    vstd::arithmetic::div_mod::lemma_fundamental_div_mod(x, d);
    vstd::arithmetic::div_mod::lemma_mod_bound(x, d);
    assert(d * 0 == 0);
}

/// Bitwise operations on numbers of the width stay within the width.
proof fn lemma_bitwise_fit(bw: BitWidth, p: u64, q: u64)
    requires
        p < width_size(bw),
        q < width_size(bw),
    ensures
        ((p | q) as int) < width_size(bw),
        ((p & q) as int) < width_size(bw),
        ((p ^ q) as int) < width_size(bw),
        (p | q) as int % width_size(bw) == (p | q) as int,
        (p & q) as int % width_size(bw) == (p & q) as int,
        (p ^ q) as int % width_size(bw) == (p ^ q) as int,
{
    if bw != BitWidth::Full {
        let k: u64 = match bw {
            BitWidth::Bit => 1,
            BitWidth::Byte => 8,
            BitWidth::Short => 16,
            BitWidth::Quad => 32,
            BitWidth::Full => 0,
        };
        vstd::arithmetic::power2::lemma2_to64();
        assert(pow2(k as nat) as int == width_size(bw));
        assert((p | q) >> k == (p >> k) | (q >> k) && (p & q) >> k == (p >> k) & (q >> k) && (p ^ q)
            >> k == (p >> k) ^ (q >> k) && (0u64 | 0u64) == 0 && (0u64 & 0u64) == 0 && (0u64 ^ 0u64)
            == 0) by (bit_vector);
        vstd::bits::lemma_u64_shr_is_div(p, k);
        vstd::bits::lemma_u64_shr_is_div(q, k);
        vstd::bits::lemma_u64_shr_is_div(p | q, k);
        vstd::bits::lemma_u64_shr_is_div(p & q, k);
        vstd::bits::lemma_u64_shr_is_div(p ^ q, k);
        vstd::arithmetic::div_mod::lemma_basic_div(p as int, pow2(k as nat) as int);
        vstd::arithmetic::div_mod::lemma_basic_div(q as int, pow2(k as nat) as int);
        lemma_small_quotient((p | q) as int, pow2(k as nat) as int);
        lemma_small_quotient((p & q) as int, pow2(k as nat) as int);
        lemma_small_quotient((p ^ q) as int, pow2(k as nat) as int);
    }
    vstd::arithmetic::div_mod::lemma_small_mod((p | q) as nat, width_size(bw) as nat);
    vstd::arithmetic::div_mod::lemma_small_mod((p & q) as nat, width_size(bw) as nat);
    vstd::arithmetic::div_mod::lemma_small_mod((p ^ q) as nat, width_size(bw) as nat);
}

/// `or a b`: every bit set in either operand (cut to the width) is set in the
/// result, and no other.
pub proof fn law_or(inst: InstBitwiseOr, regs: SwppRegisterSet)
    ensures
        ({
            let (a, b, t, bw) = inst.operands();
            let ux = unsigned_at(bw, a.value(regs)) as u64;
            let uy = unsigned_at(bw, b.value(regs)) as u64;
            let r = inst.value(regs);
            &&& r & ux == ux
            &&& r & uy == uy
            &&& (r & !ux) & !uy == 0
            &&& (r as int) < width_size(bw)
        }),
{
    let (a, b, t, bw) = inst.operands();
    lemma_reads(bw, a.value(regs));
    lemma_reads(bw, b.value(regs));
    let ux = unsigned_at(bw, a.value(regs)) as u64;
    let uy = unsigned_at(bw, b.value(regs)) as u64;
    lemma_bitwise_fit(bw, ux, uy);
    let r = inst.value(regs);
    assert(bw.spec_read_u64(a.value(regs)) == ux);
    assert(bw.spec_read_u64(b.value(regs)) == uy);
    assert((ux | uy) as int % width_size(bw) == (ux | uy) as int);
    assert(r == ux | uy);
    assert((ux | uy) & ux == ux && (ux | uy) & uy == uy && ((ux | uy) & !ux) & !uy == 0)
        by (bit_vector);
}

/// `and a b`: a bit is set in the result exactly when it is set in both
/// operands (cut to the width).
pub proof fn law_and(inst: InstBitwiseAnd, regs: SwppRegisterSet)
    ensures
        ({
            let (a, b, t, bw) = inst.operands();
            let ux = unsigned_at(bw, a.value(regs)) as u64;
            let uy = unsigned_at(bw, b.value(regs)) as u64;
            let r = inst.value(regs);
            &&& r & ux == r
            &&& r & uy == r
            &&& (!r & ux) & uy == 0
        }),
{
    let (a, b, t, bw) = inst.operands();
    lemma_reads(bw, a.value(regs));
    lemma_reads(bw, b.value(regs));
    let ux = unsigned_at(bw, a.value(regs)) as u64;
    let uy = unsigned_at(bw, b.value(regs)) as u64;
    lemma_bitwise_fit(bw, ux, uy);
    let r = inst.value(regs);
    assert(bw.spec_read_u64(a.value(regs)) == ux);
    assert(bw.spec_read_u64(b.value(regs)) == uy);
    assert((ux & uy) as int % width_size(bw) == (ux & uy) as int);
    assert(r == ux & uy);
    assert((ux & uy) & ux == (ux & uy) && (ux & uy) & uy == (ux & uy) && (!(ux & uy) & ux) & uy
        == 0) by (bit_vector);
}

/// `xor a b`: the result undoes either operand to give the other (all cut to
/// the width).
pub proof fn law_xor(inst: InstBitwiseXor, regs: SwppRegisterSet)
    ensures
        ({
            let (a, b, t, bw) = inst.operands();
            let ux = unsigned_at(bw, a.value(regs)) as u64;
            let uy = unsigned_at(bw, b.value(regs)) as u64;
            let r = inst.value(regs);
            &&& r ^ ux == uy
            &&& r ^ uy == ux
        }),
{
    let (a, b, t, bw) = inst.operands();
    lemma_reads(bw, a.value(regs));
    lemma_reads(bw, b.value(regs));
    let ux = unsigned_at(bw, a.value(regs)) as u64;
    let uy = unsigned_at(bw, b.value(regs)) as u64;
    lemma_bitwise_fit(bw, ux, uy);
    let r = inst.value(regs);
    assert(bw.spec_read_u64(a.value(regs)) == ux);
    assert(bw.spec_read_u64(b.value(regs)) == uy);
    assert((ux ^ uy) as int % width_size(bw) == (ux ^ uy) as int);
    assert(r == ux ^ uy);
    assert((ux ^ uy) ^ ux == uy && (ux ^ uy) ^ uy == ux) by (bit_vector);
}

/// `lshr a b`: the first operand, as an unsigned number of the width, divided
/// by two to the power of the second and rounded down: zeros come in from the
/// top, so the result is never above the first operand.
pub proof fn law_lshr(inst: InstShiftRightLogical, regs: SwppRegisterSet)
    requires
        unsigned_at(inst.operands().3, inst.operands().1.value(regs)) < 64,
    ensures
        ({
            let (a, b, t, bw) = inst.operands();
            let ux = unsigned_at(bw, a.value(regs));
            let s = unsigned_at(bw, b.value(regs));
            let r = inst.value(regs);
            &&& r as int == ux / pow2(s as nat) as int
            &&& r as int <= ux
        }),
{
    let (a, b, t, bw) = inst.operands();
    lemma_reads(bw, a.value(regs));
    lemma_reads(bw, b.value(regs));
    let ux = unsigned_at(bw, a.value(regs)) as u64;
    let s = unsigned_at(bw, b.value(regs)) as u64;
    assert(bw.spec_read_u64(a.value(regs)) == ux);
    assert(bw.spec_read_u64(b.value(regs)) == s);
    vstd::bits::lemma_u64_shr_is_div(ux, s);
    vstd::arithmetic::power2::lemma_pow2_pos(s as nat);
    vstd::arithmetic::div_mod::lemma_div_is_ordered_by_denominator(ux as int, 1, pow2(s as nat) as int);
    assert(ux as int / 1 == ux as int);
    let q = ux >> s;
    assert(q as int <= ux as int);
    vstd::arithmetic::div_mod::lemma_small_mod(q as nat, width_size(bw) as nat);
}

/// The distance of `a` from zero.
pub open spec fn magnitude(a: int) -> int {
    if a < 0 {
        -a
    } else {
        a
    }
}

/// Division rounding toward zero: the remainder it leaves is smaller than the
/// divisor and has the sign of the dividend; the quotient is no larger than
/// the dividend, and as large only when the divisor is 1 or -1.
proof fn lemma_trunc_div(n: int, d: int)
    requires
        d != 0,
    ensures
        abs_int(n - trunc_div(n, d) * d) < abs_int(d),
        n - trunc_div(n, d) * d == 0 || (n - trunc_div(n, d) * d < 0) == (n < 0),
        n - trunc_div(n, d) * d == trunc_rem(n, d),
        abs_int(trunc_div(n, d)) <= abs_int(n),
        abs_int(trunc_div(n, d)) == abs_int(n) && n != 0 ==> abs_int(d) == 1,
        (trunc_div(n, d) < 0) ==> (n < 0) != (d < 0),
{
    let a = abs_int(n);
    let b = abs_int(d);
    let k = a / b;
    let m = a % b;
    vstd::arithmetic::div_mod::lemma_fundamental_div_mod(a, b);
    assert(0 <= m < b);
    assert(0 <= k) by {
        vstd::arithmetic::div_mod::lemma_div_pos_is_pos(a, b);
    }
    assert(k <= a) by {
        vstd::arithmetic::div_mod::lemma_div_is_ordered_by_denominator(a, 1, b);
    }
    if a > 0 && b > 1 {
        vstd::arithmetic::div_mod::lemma_div_is_strictly_smaller(a, b);
    }
    assert(a == b * k + m);
    let q = trunc_div(n, d);
    if (n < 0) != (d < 0) {
        assert(q == -k);
        if n < 0 {
            assert(q * d == -(k * b)) by (nonlinear_arith)
                requires
                    q == -k,
                    d == b,
            ;
        } else {
            assert(q * d == k * b) by (nonlinear_arith)
                requires
                    q == -k,
                    d == -b,
            ;
        }
    } else {
        assert(q == k);
        if n < 0 {
            assert(q * d == -(k * b)) by (nonlinear_arith)
                requires
                    q == k,
                    d == -b,
            ;
        } else {
            assert(q * d == k * b) by (nonlinear_arith)
                requires
                    q == k,
                    d == b,
            ;
        }
    }
    assert(b * k == k * b) by (nonlinear_arith);
}

/// A two's complement number `q` of the width, kept as the low bits `v`
/// (below the size of the width), reads back as `q`.
proof fn lemma_low_bits_read_back(bw: BitWidth, q: int)
    requires
        bw != BitWidth::Full,
        -width_size(bw) <= 2 * q < width_size(bw),
    ensures
        ({
            let v = (q % width_size(bw)) as u64;
            &&& v as int == q % width_size(bw)
            &&& signed_at(bw, v) == q
        }),
{
    let w = width_size(bw);
    if q >= 0 {
        vstd::arithmetic::div_mod::lemma_small_mod(q as nat, w as nat);
    } else {
        vstd::arithmetic::div_mod::lemma_fundamental_div_mod_converse(q, w, -1, q + w);
    }
    let v = (q % w) as u64;
    vstd::arithmetic::div_mod::lemma_small_mod(v as nat, w as nat);
}

/// A 64-bit two's complement number kept as its bits reads back as itself.
proof fn lemma_full_read_back(q: i64)
    ensures
        signed_at(BitWidth::Full, q as u64) == q,
{
    assert((q < 0 ==> (q as u64) as int == q as int + 0x1_0000_0000_0000_0000) && (q >= 0 ==> (
    q as u64) as int == q as int)) by (bit_vector);
}

/// `sdiv a b` on operands that do not fault (a divisor that is not zero, and
/// at width 64 not the most negative number divided by -1): the operands and
/// the result read as two's complement numbers of the width, the quotient is
/// rounded toward zero, so the remainder it leaves is smaller than the divisor
/// and has the sign of the dividend. The one quotient that does not fit, the
/// most negative number divided by -1 at a narrower width, wraps to the
/// dividend.
pub proof fn law_sdiv(inst: InstSignedDivision, regs: SwppRegisterSet)
    requires
        signed_at(inst.operands().3, inst.operands().1.value(regs)) != 0,
        !(inst.operands().3 == BitWidth::Full && signed_at(BitWidth::Full, inst.operands().0.value(regs))
            == -0x8000_0000_0000_0000 && signed_at(BitWidth::Full, inst.operands().1.value(regs))
            == -1),
    ensures
        ({
            let (a, b, t, bw) = inst.operands();
            let n = signed_at(bw, a.value(regs));
            let d = signed_at(bw, b.value(regs));
            let r = inst.value(regs);
            let q = signed_at(bw, r);
            &&& (r as int) < width_size(bw)
            &&& 2 * n == -width_size(bw) && d == -1 ==> q == n
            &&& !(2 * n == -width_size(bw) && d == -1) ==> {
                &&& magnitude(n - q * d) < magnitude(d)
                &&& n - q * d == 0 || (n - q * d < 0) == (n < 0)
            }
        }),
{
    let (a, b, t, bw) = inst.operands();
    let x = a.value(regs);
    let y = b.value(regs);
    lemma_reads(bw, x);
    lemma_reads(bw, y);
    let n = signed_at(bw, x);
    let d = signed_at(bw, y);
    lemma_trunc_div(n, d);
    let tq = trunc_div(n, d);
    let w = width_size(bw);
    assert(-w <= 2 * tq <= w);
    if 2 * tq == w {
        assert(2 * n == -w && d == -1);
    }
    let r = inst.value(regs);
    if bw == BitWidth::Full {
        assert(2 * tq < w);
        lemma_full_read_back(tq as i64);
        assert(r == (tq as i64) as u64);
    } else {
        if 2 * n == -w && d == -1 {
            assert(tq == -n);
            lemma_low_bits_read_back(bw, n);
            vstd::arithmetic::div_mod::lemma_fundamental_div_mod_converse(tq, w, 0, tq);
            vstd::arithmetic::div_mod::lemma_fundamental_div_mod_converse(n, w, -1, n + w);
            assert(tq % w == n % w);
            assert(r as int == (n % w));
        } else {
            lemma_low_bits_read_back(bw, tq);
            assert(r as int == tq % w);
        }
    }
}

/// `srem a b` on operands that do not fault: the remainder of the division
/// rounding toward zero, of the operands read as two's complement numbers of
/// the width. It is smaller than the divisor, has the sign of the dividend,
/// and the dividend less the remainder is a multiple of the divisor.
pub proof fn law_srem(inst: InstSignedRemainder, regs: SwppRegisterSet)
    requires
        signed_at(inst.operands().3, inst.operands().1.value(regs)) != 0,
        !(inst.operands().3 == BitWidth::Full && signed_at(BitWidth::Full, inst.operands().0.value(regs))
            == -0x8000_0000_0000_0000 && signed_at(BitWidth::Full, inst.operands().1.value(regs))
            == -1),
    ensures
        ({
            let (a, b, t, bw) = inst.operands();
            let n = signed_at(bw, a.value(regs));
            let d = signed_at(bw, b.value(regs));
            let r = inst.value(regs);
            let m = signed_at(bw, r);
            &&& (r as int) < width_size(bw)
            &&& magnitude(m) < magnitude(d)
            &&& m == 0 || (m < 0) == (n < 0)
            &&& exists|k: int| n - m == #[trigger] (k * d)
        }),
{
    let (a, b, t, bw) = inst.operands();
    let x = a.value(regs);
    let y = b.value(regs);
    lemma_reads(bw, x);
    lemma_reads(bw, y);
    let n = signed_at(bw, x);
    let d = signed_at(bw, y);
    lemma_trunc_div(n, d);
    let tq = trunc_div(n, d);
    let tr = trunc_rem(n, d);
    let w = width_size(bw);
    assert(-w <= 2 * tr < w);
    let r = inst.value(regs);
    if bw == BitWidth::Full {
        lemma_full_read_back(tr as i64);
        assert(r == (tr as i64) as u64);
    } else {
        lemma_low_bits_read_back(bw, tr);
        assert(r as int == tr % w);
    }
    assert(n - tr == tq * d);
}

/// A number cut to 64 bits and then to the width is the number cut to the
/// width.
proof fn lemma_wrap_then_cut(bw: BitWidth, v: int)
    ensures
        ((v % 0x1_0000_0000_0000_0000) as u64) as int % width_size(bw) == v % width_size(bw),
        0 <= v % width_size(bw) < width_size(bw),
{
    let w = width_size(bw);
    let k = 0x1_0000_0000_0000_0000int / w;
    assert(w * k == 0x1_0000_0000_0000_0000int);
    vstd::arithmetic::div_mod::lemma_mod_mod(v, w, k);
    vstd::arithmetic::div_mod::lemma_mod_bound(v, 0x1_0000_0000_0000_0000int);
    vstd::arithmetic::div_mod::lemma_mod_bound(v, w);
}

/// `udiv a b` with a divisor that is not zero: the operands as unsigned numbers
/// of the width; the quotient is rounded down, so it leaves a remainder below
/// the divisor.
pub proof fn law_udiv(inst: InstUnsignedDivision, regs: SwppRegisterSet)
    requires
        unsigned_at(inst.operands().3, inst.operands().1.value(regs)) != 0,
    ensures
        ({
            let (a, b, t, bw) = inst.operands();
            let ux = unsigned_at(bw, a.value(regs));
            let uy = unsigned_at(bw, b.value(regs));
            let r = inst.value(regs) as int;
            &&& 0 <= ux - r * uy < uy
        }),
{
    let (a, b, t, bw) = inst.operands();
    lemma_reads(bw, a.value(regs));
    lemma_reads(bw, b.value(regs));
    let ux = unsigned_at(bw, a.value(regs));
    let uy = unsigned_at(bw, b.value(regs));
    vstd::arithmetic::div_mod::lemma_fundamental_div_mod(ux, uy);
    vstd::arithmetic::div_mod::lemma_div_is_ordered_by_denominator(ux, 1, uy);
    vstd::arithmetic::div_mod::lemma_div_pos_is_pos(ux, uy);
    vstd::arithmetic::div_mod::lemma_small_mod((ux / uy) as nat, width_size(bw) as nat);
    assert(uy * (ux / uy) == (ux / uy) * uy) by (nonlinear_arith);
}

/// `urem a b` with a divisor that is not zero: the operands as unsigned
/// numbers of the width; the result is below the divisor and the dividend less
/// it is a multiple of the divisor.
pub proof fn law_urem(inst: InstUnsignedRemainder, regs: SwppRegisterSet)
    requires
        unsigned_at(inst.operands().3, inst.operands().1.value(regs)) != 0,
    ensures
        ({
            let (a, b, t, bw) = inst.operands();
            let ux = unsigned_at(bw, a.value(regs));
            let uy = unsigned_at(bw, b.value(regs));
            let r = inst.value(regs) as int;
            &&& 0 <= r < uy
            &&& exists|k: int| ux - r == #[trigger] (k * uy)
        }),
{
    let (a, b, t, bw) = inst.operands();
    lemma_reads(bw, a.value(regs));
    lemma_reads(bw, b.value(regs));
    let ux = unsigned_at(bw, a.value(regs));
    let uy = unsigned_at(bw, b.value(regs));
    vstd::arithmetic::div_mod::lemma_fundamental_div_mod(ux, uy);
    vstd::arithmetic::div_mod::lemma_mod_bound(ux, uy);
    vstd::arithmetic::div_mod::lemma_small_mod((ux % uy) as nat, width_size(bw) as nat);
    assert(uy * (ux / uy) == (ux / uy) * uy) by (nonlinear_arith);
    assert(ux - ux % uy == (ux / uy) * uy);
}

/// `mul a b`: the product of the operands, as unsigned numbers of the width,
/// cut to the width.
pub proof fn law_mul(inst: InstMultiplication, regs: SwppRegisterSet)
    ensures
        ({
            let (a, b, t, bw) = inst.operands();
            let ux = unsigned_at(bw, a.value(regs));
            let uy = unsigned_at(bw, b.value(regs));
            inst.value(regs) as int == (ux * uy) % width_size(bw)
        }),
{
    let (a, b, t, bw) = inst.operands();
    lemma_reads(bw, a.value(regs));
    lemma_reads(bw, b.value(regs));
    let ux = unsigned_at(bw, a.value(regs));
    let uy = unsigned_at(bw, b.value(regs));
    lemma_wrap_then_cut(bw, ux * uy);
}

/// The sum of the operands, as unsigned numbers of the width, cut to the width.
pub open spec fn sum_at(bw: BitWidth, x: u64, y: u64) -> int {
    (unsigned_at(bw, x) + unsigned_at(bw, y)) % width_size(bw)
}

/// The difference of the operands, as unsigned numbers of the width, cut to the
/// width (wrapping below zero).
pub open spec fn difference_at(bw: BitWidth, x: u64, y: u64) -> int {
    (unsigned_at(bw, x) - unsigned_at(bw, y)) % width_size(bw)
}

/// `add a b`, whichever parity it promises: the sum cut to the width; the
/// result less the second operand gives back the first.
pub proof fn law_add(e: InstEAdd, o: InstOAdd, regs: SwppRegisterSet)
    ensures
        ({
            let (a, b, t, bw) = e.operands();
            e.value(regs) as int == sum_at(bw, a.value(regs), b.value(regs))
        }),
        ({
            let (a, b, t, bw) = o.operands();
            o.value(regs) as int == sum_at(bw, a.value(regs), b.value(regs))
        }),
{
    let (a, b, t, bw) = e.operands();
    lemma_reads(bw, a.value(regs));
    lemma_reads(bw, b.value(regs));
    lemma_wrap_then_cut(bw, unsigned_at(bw, a.value(regs)) + unsigned_at(bw, b.value(regs)));
    let (a, b, t, bw) = o.operands();
    lemma_reads(bw, a.value(regs));
    lemma_reads(bw, b.value(regs));
    lemma_wrap_then_cut(bw, unsigned_at(bw, a.value(regs)) + unsigned_at(bw, b.value(regs)));
}

/// `sub a b`, whichever parity it promises: the difference cut to the width,
/// wrapping below zero.
pub proof fn law_sub(e: InstESub, o: InstOSub, regs: SwppRegisterSet)
    ensures
        ({
            let (a, b, t, bw) = e.operands();
            e.value(regs) as int == difference_at(bw, a.value(regs), b.value(regs))
        }),
        ({
            let (a, b, t, bw) = o.operands();
            o.value(regs) as int == difference_at(bw, a.value(regs), b.value(regs))
        }),
{
    let (a, b, t, bw) = e.operands();
    lemma_reads(bw, a.value(regs));
    lemma_reads(bw, b.value(regs));
    lemma_wrap_then_cut(bw, unsigned_at(bw, a.value(regs)) - unsigned_at(bw, b.value(regs)));
    let (a, b, t, bw) = o.operands();
    lemma_reads(bw, a.value(regs));
    lemma_reads(bw, b.value(regs));
    lemma_wrap_then_cut(bw, unsigned_at(bw, a.value(regs)) - unsigned_at(bw, b.value(regs)));
}

/// Shifting a 64-bit number left multiplies it by a power of two, keeping the
/// low 64 bits.
proof fn lemma_shl_wraps(x: u64, s: u64)
    requires
        s < 64,
    ensures
        (x << s) as int == (x as int * pow2(s as nat) as int) % 0x1_0000_0000_0000_0000int,
    decreases s,
{
    let n = 0x1_0000_0000_0000_0000int;
    vstd::arithmetic::power2::lemma2_to64();
    if s == 0 {
        assert(x << 0u64 == x) by (bit_vector);
        vstd::arithmetic::div_mod::lemma_small_mod(x as nat, n as nat);
    } else {
        let t = (s - 1) as u64;
        lemma_shl_wraps(x, t);
        let y = x << t;
        assert(x << s == (x << t) << 1u64) by (bit_vector)
            requires
                0 < s < 64,
                t == s - 1,
        ;
        if y < 0x8000_0000_0000_0000 {
            vstd::bits::lemma_u64_shl_is_mul(y, 1);
            vstd::arithmetic::div_mod::lemma_small_mod((2 * y) as nat, n as nat);
        } else {
            let z = (y - 0x8000_0000_0000_0000) as u64;
            assert(y >= 0x8000_0000_0000_0000 ==> y << 1u64 == ((y - 0x8000_0000_0000_0000) as u64)
                << 1u64) by (bit_vector);
            vstd::bits::lemma_u64_shl_is_mul(z, 1);
            vstd::arithmetic::div_mod::lemma_fundamental_div_mod_converse(2 * y, n, 1, 2 * z);
        }
        assert((y << 1u64) as int == (2 * y) % n);
        let p = pow2(t as nat) as int;
        vstd::arithmetic::div_mod::lemma_mul_mod_noop_right(2, x as int * p, n);
        vstd::arithmetic::power2::lemma_pow2_adds(t as nat, 1);
        assert(2 * (x as int * p) == x as int * (p * 2)) by (nonlinear_arith);
    }
}

/// `shl a b` with a shift below 64: the first operand, as an unsigned number of
/// the width, multiplied by two to the power of the second, cut to the width.
pub proof fn law_shl(inst: InstShiftLeft, regs: SwppRegisterSet)
    requires
        unsigned_at(inst.operands().3, inst.operands().1.value(regs)) < 64,
    ensures
        ({
            let (a, b, t, bw) = inst.operands();
            let ux = unsigned_at(bw, a.value(regs));
            let s = unsigned_at(bw, b.value(regs));
            inst.value(regs) as int == (ux * pow2(s as nat) as int) % width_size(bw)
        }),
{
    let (a, b, t, bw) = inst.operands();
    lemma_reads(bw, a.value(regs));
    lemma_reads(bw, b.value(regs));
    let ux = unsigned_at(bw, a.value(regs)) as u64;
    let s = unsigned_at(bw, b.value(regs)) as u64;
    assert(bw.spec_read_u64(a.value(regs)) == ux);
    assert(bw.spec_read_u64(b.value(regs)) == s);
    lemma_shl_wraps(ux, s);
    lemma_wrap_then_cut(bw, ux as int * pow2(s as nat) as int);
    vstd::arithmetic::div_mod::lemma_mod_bound(ux as int * pow2(s as nat) as int, 0x1_0000_0000_0000_0000int);
}

/// Shifting a 64-bit two's complement number right, copying its sign bit,
/// divides it by a power of two rounding down.
proof fn lemma_ashr_floors(v: i64, s: u64)
    requires
        s < 64,
    ensures
        (v >> s) as int == v as int / pow2(s as nat) as int,
{
    let p = pow2(s as nat) as int;
    vstd::arithmetic::power2::lemma_pow2_pos(s as nat);
    assert((v >= 0 ==> (v >> s) as u64 == (v as u64) >> s && (v >> s) >= 0) && (v < 0 ==> !v >= 0
        && (!v) as int == -(v as int) - 1 && v >> s == !((!v) >> s) && ((!v) >> s) as u64 == ((!v)
        as u64) >> s && ((!v) >> s) >= 0 && ((!v) as u64) as int == (!v) as int && (!((!v) >> s))
        as int == -(((!v) >> s) as int) - 1)) by (bit_vector)
        requires
            s < 64,
    ;
    if v >= 0 {
        let u = v as u64;
        vstd::bits::lemma_u64_shr_is_div(u, s);
    } else {
        let w = !v;
        let u = w as u64;
        vstd::bits::lemma_u64_shr_is_div(u, s);
        let k = u as int / p;
        let m = u as int % p;
        vstd::arithmetic::div_mod::lemma_fundamental_div_mod(u as int, p);
        vstd::arithmetic::div_mod::lemma_mod_bound(u as int, p);
        assert((-k - 1) * p == -(p * k) - p) by (nonlinear_arith);
        assert(v as int == (-k - 1) * p + (p - m - 1));
        vstd::arithmetic::div_mod::lemma_fundamental_div_mod_converse_div(v as int, p, -k - 1, p - m - 1);
    }
}

/// `ashr a b` with a shift below 64: the first operand, as a two's complement
/// number of the width, divided by two to the power of the second and rounded
/// down: the sign bit is copied in from the top.
pub proof fn law_ashr(inst: InstShiftRightArithmetic, regs: SwppRegisterSet)
    requires
        unsigned_at(inst.operands().3, inst.operands().1.value(regs)) < 64,
    ensures
        ({
            let (a, b, t, bw) = inst.operands();
            let sx = signed_at(bw, a.value(regs));
            let s = unsigned_at(bw, b.value(regs));
            let r = inst.value(regs);
            &&& signed_at(bw, r) == sx / pow2(s as nat) as int
            &&& (r as int) < width_size(bw)
        }),
{
    let (a, b, t, bw) = inst.operands();
    lemma_reads(bw, a.value(regs));
    lemma_reads(bw, b.value(regs));
    let sx = bw.spec_sign_extend(a.value(regs));
    let s = unsigned_at(bw, b.value(regs)) as u64;
    assert(bw.spec_read_u64(b.value(regs)) == s);
    lemma_ashr_floors(sx, s);
    let p = pow2(s as nat) as int;
    vstd::arithmetic::power2::lemma_pow2_pos(s as nat);
    let q = sx >> s;
    if sx >= 0 {
        vstd::arithmetic::div_mod::lemma_div_is_ordered_by_denominator(sx as int, 1, p);
        vstd::arithmetic::div_mod::lemma_div_pos_is_pos(sx as int, p);
    } else {
        vstd::arithmetic::div_mod::lemma_fundamental_div_mod(sx as int, p);
        vstd::arithmetic::div_mod::lemma_mod_bound(sx as int, p);
        let qi = q as int;
        let ri = sx as int % p;
        assert(qi >= sx as int) by (nonlinear_arith)
            requires
                sx as int == p * qi + ri,
                0 <= ri < p,
                p >= 1,
                sx < 0,
        ;
        assert(qi < 0) by (nonlinear_arith)
            requires
                sx as int == p * qi + ri,
                0 <= ri < p,
                p >= 1,
                sx < 0,
        ;
    }
    let w = width_size(bw);
    assert(-w <= 2 * (q as int) < w);
    if bw == BitWidth::Full {
        lemma_full_read_back(q);
    } else {
        lemma_low_bits_read_back(bw, q as int);
    }
}

/// `select c t f`: a condition of 1 writes the second operand, 0 the third;
/// any other condition is refused with its value and writes nothing.
pub proof fn law_select(inst: InstTernary, m: Machine, regs: SwppRegisterSet)
    requires
        !inst.spec_target().spec_is_arg(),
    ensures
        ({
            let c = inst.spec_cond().value(regs);
            let e = inst.effect(m, regs);
            &&& c == 1 ==> e.write == Some((inst.spec_target(), inst.spec_true().value(regs)))
            &&& c == 0 ==> e.write == Some((inst.spec_target(), inst.spec_false().value(regs)))
            &&& c > 1 ==> e.write is None && e.result == Err::<(), ErrorKindView>(
                ErrorKindView::InvalidCondVal(c),
            )
        }),
{
}

} // verus!
