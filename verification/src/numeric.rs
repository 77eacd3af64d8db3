//! The integer operators, at 32 and at 64 bits: what each yields, and the
//! functions that compute it.

use vstd::prelude::*;
use vstd::std_specs::bits::{
    u32_leading_zeros, u32_trailing_zeros, u64_leading_zeros, u64_trailing_zeros,
};
use crate::error::{Trap, TrapKind};
use crate::value::{
    StackValue, cell32, cell64, signed32, signed64, unsigned32, wrap_i32, wrap_i64,
};

verus! {

/// The width of the integers an operator works on.
#[derive(Clone, Copy, Debug, PartialEq, Eq, Structural)]
pub enum Width {
    W32,
    W64,
}

/// The operators that take two operands.
#[derive(Clone, Copy, Debug, PartialEq, Eq, Structural)]
pub enum BinOp {
    Add,
    Sub,
    Mul,
    DivS,
    DivU,
    RemS,
    RemU,
    And,
    Or,
    Xor,
    Shl,
    ShrS,
    ShrU,
    Rotl,
    Rotr,
    Eq,
    Ne,
    LtS,
    LtU,
    GtS,
    GtU,
    LeS,
    LeU,
    GeS,
    GeU,
}

/// The operators that take one operand.
#[derive(Clone, Copy, Debug, PartialEq, Eq, Structural)]
pub enum UnOp {
    Clz,
    Ctz,
    Popcnt,
    Eqz,
}

/// The magnitude of `x`.
pub open spec fn magnitude(x: int) -> int {
    if x < 0 {
        -x
    } else {
        x
    }
}

/// `a / b` rounded toward zero, for `b != 0`.
pub open spec fn truncated_quotient(a: int, b: int) -> int {
    if (a < 0) == (b < 0) {
        magnitude(a) / magnitude(b)
    } else {
        -(magnitude(a) / magnitude(b))
    }
}

/// What is left of `a` after `truncated_quotient(a, b)` times `b`, for `b != 0`:
/// it has the sign of `a`.
pub open spec fn truncated_remainder(a: int, b: int) -> int {
    if a < 0 {
        -(magnitude(a) % magnitude(b))
    } else {
        magnitude(a) % magnitude(b)
    }
}

/// The number of one bits in `x`.
pub open spec fn popcount(x: u64) -> nat
    decreases x,
{
    if x == 0 {
        0
    } else {
        (x % 2) as nat + popcount(x / 2)
    }
}

/// One for `true`, zero for `false`, as a cell.
pub open spec fn truth(b: bool) -> StackValue {
    StackValue(if b { 1u64 } else { 0u64 })
}

/// `x` rotated left by `k` bits within 32 bits, for `k < 32`.
pub open spec fn rotated_left32(x: u32, k: u32) -> u32 {
    if k == 0 {
        x
    } else {
        (x << k) | (x >> ((32 - k) as u32))
    }
}

/// `x` rotated left by `k` bits within 64 bits, for `k < 64`.
pub open spec fn rotated_left64(x: u64, k: u32) -> u64 {
    if k == 0 {
        x
    } else {
        (x << k) | (x >> ((64 - k) as u32))
    }
}

/// What a two-operand operator yields on 32-bit operands.
///
/// Arithmetic wraps modulo 2^32. Division and remainder trap on a zero divisor,
/// the signed ones also where the quotient would be 2^31. Shifts and rotations
/// take their amount modulo 32. Comparisons yield one or zero.
pub open spec fn binary32(op: BinOp, left: StackValue, right: StackValue) -> Trap<StackValue> {
    let a = signed32(left.0);
    let b = signed32(right.0);
    let ua = unsigned32(left.0);
    let ub = unsigned32(right.0);
    let pa = ua as u32;
    let pb = ub as u32;
    let k = (ub % 32) as u32;
    match op {
        BinOp::Add => Ok(StackValue(cell32(a + b))),
        BinOp::Sub => Ok(StackValue(cell32(a - b))),
        BinOp::Mul => Ok(StackValue(cell32(a * b))),
        BinOp::DivS => if b == 0 {
            Err(TrapKind::DivisionByZero)
        } else if a == -0x8000_0000 && b == -1 {
            Err(TrapKind::InvalidConversionToInt)
        } else {
            Ok(StackValue(cell32(truncated_quotient(a, b))))
        },
        BinOp::DivU => if ub == 0 {
            Err(TrapKind::DivisionByZero)
        } else {
            Ok(StackValue(cell32(ua / ub)))
        },
        BinOp::RemS => if b == 0 {
            Err(TrapKind::DivisionByZero)
        } else if a == -0x8000_0000 && b == -1 {
            Err(TrapKind::InvalidConversionToInt)
        } else {
            Ok(StackValue(cell32(truncated_remainder(a, b))))
        },
        BinOp::RemU => if ub == 0 {
            Err(TrapKind::DivisionByZero)
        } else {
            Ok(StackValue(cell32(ua % ub)))
        },
        BinOp::And => Ok(StackValue(cell32((pa & pb) as int))),
        BinOp::Or => Ok(StackValue(cell32((pa | pb) as int))),
        BinOp::Xor => Ok(StackValue(cell32((pa ^ pb) as int))),
        BinOp::Shl => Ok(StackValue(cell32((pa << k) as int))),
        BinOp::ShrS => Ok(StackValue(cell32(((a as i32) >> k) as int))),
        BinOp::ShrU => Ok(StackValue(cell32((pa >> k) as int))),
        BinOp::Rotl => Ok(StackValue(cell32(rotated_left32(pa, k) as int))),
        BinOp::Rotr => Ok(StackValue(cell32(rotated_left32(pa, ((32 - k) % 32) as u32) as int))),
        BinOp::Eq => Ok(truth(a == b)),
        BinOp::Ne => Ok(truth(a != b)),
        BinOp::LtS => Ok(truth(a < b)),
        BinOp::LtU => Ok(truth(ua < ub)),
        BinOp::GtS => Ok(truth(a > b)),
        BinOp::GtU => Ok(truth(ua > ub)),
        BinOp::LeS => Ok(truth(a <= b)),
        BinOp::LeU => Ok(truth(ua <= ub)),
        BinOp::GeS => Ok(truth(a >= b)),
        BinOp::GeU => Ok(truth(ua >= ub)),
    }
}

/// What a one-operand operator yields on a 32-bit operand.
pub open spec fn unary32(op: UnOp, operand: StackValue) -> StackValue {
    let p = unsigned32(operand.0) as u32;
    match op {
        UnOp::Clz => StackValue(cell32(u32_leading_zeros(p) as int)),
        UnOp::Ctz => StackValue(cell32(u32_trailing_zeros(p) as int)),
        UnOp::Popcnt => StackValue(cell32(popcount(p as u64) as int)),
        UnOp::Eqz => truth(p == 0),
    }
}

/// What a two-operand operator yields on 64-bit operands.
///
/// Arithmetic wraps modulo 2^64. Division and remainder trap on a zero divisor,
/// the signed ones also where the quotient would be 2^63. Shifts and rotations
/// take their amount modulo 64. Comparisons yield one or zero.
pub open spec fn binary64(op: BinOp, left: StackValue, right: StackValue) -> Trap<StackValue> {
    let a = signed64(left.0);
    let b = signed64(right.0);
    let ua = left.0 as int;
    let ub = right.0 as int;
    let pa = left.0;
    let pb = right.0;
    let k = (ub % 64) as u32;
    match op {
        BinOp::Add => Ok(StackValue(cell64(a + b))),
        BinOp::Sub => Ok(StackValue(cell64(a - b))),
        BinOp::Mul => Ok(StackValue(cell64(a * b))),
        BinOp::DivS => if b == 0 {
            Err(TrapKind::DivisionByZero)
        } else if a == -0x8000_0000_0000_0000 && b == -1 {
            Err(TrapKind::InvalidConversionToInt)
        } else {
            Ok(StackValue(cell64(truncated_quotient(a, b))))
        },
        BinOp::DivU => if ub == 0 {
            Err(TrapKind::DivisionByZero)
        } else {
            Ok(StackValue(cell64(ua / ub)))
        },
        BinOp::RemS => if b == 0 {
            Err(TrapKind::DivisionByZero)
        } else if a == -0x8000_0000_0000_0000 && b == -1 {
            Err(TrapKind::InvalidConversionToInt)
        } else {
            Ok(StackValue(cell64(truncated_remainder(a, b))))
        },
        BinOp::RemU => if ub == 0 {
            Err(TrapKind::DivisionByZero)
        } else {
            Ok(StackValue(cell64(ua % ub)))
        },
        BinOp::And => Ok(StackValue(cell64((pa & pb) as int))),
        BinOp::Or => Ok(StackValue(cell64((pa | pb) as int))),
        BinOp::Xor => Ok(StackValue(cell64((pa ^ pb) as int))),
        BinOp::Shl => Ok(StackValue(cell64((pa << k) as int))),
        BinOp::ShrS => Ok(StackValue(cell64(((a as i64) >> k) as int))),
        BinOp::ShrU => Ok(StackValue(cell64((pa >> k) as int))),
        BinOp::Rotl => Ok(StackValue(cell64(rotated_left64(pa, k) as int))),
        BinOp::Rotr => Ok(StackValue(cell64(rotated_left64(pa, ((64 - k) % 64) as u32) as int))),
        BinOp::Eq => Ok(truth(a == b)),
        BinOp::Ne => Ok(truth(a != b)),
        BinOp::LtS => Ok(truth(a < b)),
        BinOp::LtU => Ok(truth(ua < ub)),
        BinOp::GtS => Ok(truth(a > b)),
        BinOp::GtU => Ok(truth(ua > ub)),
        BinOp::LeS => Ok(truth(a <= b)),
        BinOp::LeU => Ok(truth(ua <= ub)),
        BinOp::GeS => Ok(truth(a >= b)),
        BinOp::GeU => Ok(truth(ua >= ub)),
    }
}

/// What a one-operand operator yields on a 64-bit operand.
pub open spec fn unary64(op: UnOp, operand: StackValue) -> StackValue {
    let p = operand.0;
    match op {
        UnOp::Clz => StackValue(cell64(u64_leading_zeros(p))),
        UnOp::Ctz => StackValue(cell64(u64_trailing_zeros(p) as int)),
        UnOp::Popcnt => StackValue(cell64(popcount(p) as int)),
        UnOp::Eqz => truth(p == 0),
    }
}

/// What a two-operand operator yields at the given width.
pub open spec fn binary_spec(width: Width, op: BinOp, left: StackValue, right: StackValue) -> Trap<
    StackValue,
> {
    match width {
        Width::W32 => binary32(op, left, right),
        Width::W64 => binary64(op, left, right),
    }
}

/// What a one-operand operator yields at the given width.
pub open spec fn unary_spec(width: Width, op: UnOp, operand: StackValue) -> StackValue {
    match width {
        Width::W32 => unary32(op, operand),
        Width::W64 => unary64(op, operand),
    }
}

/// The number of one bits in `x`, counted bit by bit.
fn count_ones(x: u64) -> (n: u32)
    ensures
        n == popcount(x),
        n <= 64,
{
    let mut rest: u64 = x;
    let mut n: u32 = 0;
    let mut seen: u32 = 0;
    proof {
        vstd::arithmetic::power2::lemma2_to64();
    }
    while rest != 0
        invariant
            n + popcount(rest) == popcount(x),
            n <= seen <= 64,
            rest < vstd::arithmetic::power2::pow2((64 - seen) as nat),
        decreases rest,
    {
        proof {
            if seen < 64 {
                vstd::arithmetic::power2::lemma_pow2_unfold((64 - seen) as nat);
            } else {
                vstd::arithmetic::power2::lemma2_to64();
            }
        }
        if rest % 2 == 1 {
            n = n + 1;
        }
        rest = rest / 2;
        seen = seen + 1;
    }
    n
}

/// Bounds on the quotient and remainder of two magnitudes.
proof fn lemma_magnitude_division(a: int, b: int)
    requires
        b != 0,
    ensures
        0 <= magnitude(a) / magnitude(b) <= magnitude(a),
        0 <= magnitude(a) % magnitude(b) < magnitude(b),
        magnitude(a) % magnitude(b) <= magnitude(a),
        magnitude(b) == 1 ==> magnitude(a) / magnitude(b) == magnitude(a),
        magnitude(b) >= 2 ==> 2 * (magnitude(a) / magnitude(b)) <= magnitude(a),
{
    let x = magnitude(a);
    let d = magnitude(b);
    vstd::arithmetic::div_mod::lemma_fundamental_div_mod(x, d);
    vstd::arithmetic::div_mod::lemma_mod_bound(x, d);
    vstd::arithmetic::div_mod::lemma_div_pos_is_pos(x, d);
    let q = x / d;
    let r = x % d;
    assert(d * q >= q) by (nonlinear_arith)
        requires
            d >= 1,
            q >= 0,
    ;
    if d >= 2 {
        assert(d * q >= 2 * q) by (nonlinear_arith)
            requires
                d >= 2,
                q >= 0,
        ;
    }
    if d == 1 {
        assert(d * q == q) by (nonlinear_arith)
            requires
                d == 1,
        ;
    }
}

fn rotate_left32(x: u32, k: u32) -> (r: u32)
    requires
        k < 32,
    ensures
        r == rotated_left32(x, k),
{
    if k == 0 {
        x
    } else {
        (x << k) | (x >> (32 - k))
    }
}

/// Applies a two-operand operator to 32-bit operands.
pub fn apply_binary32(op: BinOp, left: StackValue, right: StackValue) -> (res: Trap<StackValue>)
    ensures
        res == binary32(op, left, right),
{
    let a: i32 = left.as_i32();
    let b: i32 = right.as_i32();
    let ua: u32 = left.as_u32();
    let ub: u32 = right.as_u32();
    let k: u32 = ub % 32;
    proof {
        if b != 0 {
            lemma_magnitude_division(a as int, b as int);
        }
    }
    match op {
        BinOp::Add => Ok(StackValue::from_i32(a.wrapping_add(b))),
        BinOp::Sub => Ok(StackValue::from_i32(a.wrapping_sub(b))),
        BinOp::Mul => Ok(StackValue::from_i32(a.wrapping_mul(b))),
        BinOp::DivS => match a.checked_div(b) {
            Some(q) => Ok(StackValue::from_i32(q)),
            None => if b == 0 {
                Err(TrapKind::DivisionByZero)
            } else {
                Err(TrapKind::InvalidConversionToInt)
            },
        },
        BinOp::DivU => if ub == 0 {
            Err(TrapKind::DivisionByZero)
        } else {
            Ok(StackValue::from_u32(ua / ub))
        },
        BinOp::RemS => match a.checked_rem(b) {
            Some(m) => Ok(StackValue::from_i32(m)),
            None => if b == 0 {
                Err(TrapKind::DivisionByZero)
            } else {
                Err(TrapKind::InvalidConversionToInt)
            },
        },
        BinOp::RemU => if ub == 0 {
            Err(TrapKind::DivisionByZero)
        } else {
            Ok(StackValue::from_u32(ua % ub))
        },
        BinOp::And => Ok(StackValue::from_u32(ua & ub)),
        BinOp::Or => Ok(StackValue::from_u32(ua | ub)),
        BinOp::Xor => Ok(StackValue::from_u32(ua ^ ub)),
        BinOp::Shl => Ok(StackValue::from_u32(ua << k)),
        BinOp::ShrS => Ok(StackValue::from_i32(a >> k)),
        BinOp::ShrU => Ok(StackValue::from_u32(ua >> k)),
        BinOp::Rotl => Ok(StackValue::from_u32(rotate_left32(ua, k))),
        BinOp::Rotr => Ok(StackValue::from_u32(rotate_left32(ua, (32 - k) % 32))),
        BinOp::Eq => Ok(StackValue::from_bool(a == b)),
        BinOp::Ne => Ok(StackValue::from_bool(a != b)),
        BinOp::LtS => Ok(StackValue::from_bool(a < b)),
        BinOp::LtU => Ok(StackValue::from_bool(ua < ub)),
        BinOp::GtS => Ok(StackValue::from_bool(a > b)),
        BinOp::GtU => Ok(StackValue::from_bool(ua > ub)),
        BinOp::LeS => Ok(StackValue::from_bool(a <= b)),
        BinOp::LeU => Ok(StackValue::from_bool(ua <= ub)),
        BinOp::GeS => Ok(StackValue::from_bool(a >= b)),
        BinOp::GeU => Ok(StackValue::from_bool(ua >= ub)),
    }
}

/// Applies a one-operand operator to a 32-bit operand.
pub fn apply_unary32(op: UnOp, operand: StackValue) -> (res: StackValue)
    ensures
        res == unary32(op, operand),
{
    let p: u32 = operand.as_u32();
    match op {
        UnOp::Clz => StackValue::from_u32(p.leading_zeros()),
        UnOp::Ctz => StackValue::from_u32(p.trailing_zeros()),
        UnOp::Popcnt => StackValue::from_u32(count_ones(p as u64)),
        UnOp::Eqz => StackValue::from_bool(p == 0),
    }
}

fn rotate_left64(x: u64, k: u32) -> (r: u64)
    requires
        k < 64,
    ensures
        r == rotated_left64(x, k),
{
    if k == 0 {
        x
    } else {
        (x << k) | (x >> (64 - k))
    }
}

/// Applies a two-operand operator to 64-bit operands.
pub fn apply_binary64(op: BinOp, left: StackValue, right: StackValue) -> (res: Trap<StackValue>)
    ensures
        res == binary64(op, left, right),
{
    let a: i64 = left.as_i64();
    let b: i64 = right.as_i64();
    let ua: u64 = left.as_u64();
    let ub: u64 = right.as_u64();
    let k: u32 = (ub % 64) as u32;
    proof {
        if b != 0 {
            lemma_magnitude_division(a as int, b as int);
        }
    }
    match op {
        BinOp::Add => Ok(StackValue::from_i64(a.wrapping_add(b))),
        BinOp::Sub => Ok(StackValue::from_i64(a.wrapping_sub(b))),
        BinOp::Mul => Ok(StackValue::from_i64(a.wrapping_mul(b))),
        BinOp::DivS => match a.checked_div(b) {
            Some(q) => Ok(StackValue::from_i64(q)),
            None => if b == 0 {
                Err(TrapKind::DivisionByZero)
            } else {
                Err(TrapKind::InvalidConversionToInt)
            },
        },
        BinOp::DivU => if ub == 0 {
            Err(TrapKind::DivisionByZero)
        } else {
            Ok(StackValue::from_u64(ua / ub))
        },
        BinOp::RemS => match a.checked_rem(b) {
            Some(m) => Ok(StackValue::from_i64(m)),
            None => if b == 0 {
                Err(TrapKind::DivisionByZero)
            } else {
                Err(TrapKind::InvalidConversionToInt)
            },
        },
        BinOp::RemU => if ub == 0 {
            Err(TrapKind::DivisionByZero)
        } else {
            Ok(StackValue::from_u64(ua % ub))
        },
        BinOp::And => Ok(StackValue::from_u64(ua & ub)),
        BinOp::Or => Ok(StackValue::from_u64(ua | ub)),
        BinOp::Xor => Ok(StackValue::from_u64(ua ^ ub)),
        BinOp::Shl => Ok(StackValue::from_u64(ua << k)),
        BinOp::ShrS => Ok(StackValue::from_i64(a >> k)),
        BinOp::ShrU => Ok(StackValue::from_u64(ua >> k)),
        BinOp::Rotl => Ok(StackValue::from_u64(rotate_left64(ua, k))),
        BinOp::Rotr => Ok(StackValue::from_u64(rotate_left64(ua, (64 - k) % 64))),
        BinOp::Eq => Ok(StackValue::from_bool(a == b)),
        BinOp::Ne => Ok(StackValue::from_bool(a != b)),
        BinOp::LtS => Ok(StackValue::from_bool(a < b)),
        BinOp::LtU => Ok(StackValue::from_bool(ua < ub)),
        BinOp::GtS => Ok(StackValue::from_bool(a > b)),
        BinOp::GtU => Ok(StackValue::from_bool(ua > ub)),
        BinOp::LeS => Ok(StackValue::from_bool(a <= b)),
        BinOp::LeU => Ok(StackValue::from_bool(ua <= ub)),
        BinOp::GeS => Ok(StackValue::from_bool(a >= b)),
        BinOp::GeU => Ok(StackValue::from_bool(ua >= ub)),
    }
}

/// Applies a one-operand operator to a 64-bit operand.
pub fn apply_unary64(op: UnOp, operand: StackValue) -> (res: StackValue)
    ensures
        res == unary64(op, operand),
{
    let p: u64 = operand.as_u64();
    match op {
        UnOp::Clz => StackValue::from_u64(p.leading_zeros() as u64),
        UnOp::Ctz => StackValue::from_u64(p.trailing_zeros() as u64),
        UnOp::Popcnt => StackValue::from_u64(count_ones(p) as u64),
        UnOp::Eqz => StackValue::from_bool(p == 0),
    }
}

/// Applies a two-operand operator at the given width.
pub fn apply_binary(width: Width, op: BinOp, left: StackValue, right: StackValue) -> (res: Trap<
    StackValue,
>)
    ensures
        res == binary_spec(width, op, left, right),
{
    match width {
        Width::W32 => apply_binary32(op, left, right),
        Width::W64 => apply_binary64(op, left, right),
    }
}

/// Applies a one-operand operator at the given width.
pub fn apply_unary(width: Width, op: UnOp, operand: StackValue) -> (res: StackValue)
    ensures
        res == unary_spec(width, op, operand),
{
    match width {
        Width::W32 => apply_unary32(op, operand),
        Width::W64 => apply_unary64(op, operand),
    }
}

/// The exact result of addition, subtraction or multiplication, before it is
/// cut to the operand width.
pub open spec fn exact_arithmetic(op: BinOp, a: int, b: int) -> int {
    match op {
        BinOp::Add => a + b,
        BinOp::Sub => a - b,
        _ => a * b,
    }
}

/// Reading a cell made by `cell32` gives back the value, wrapped to 32 bits.
pub proof fn lemma_signed32_of_cell32(x: int)
    ensures
        signed32(cell32(x)) == wrap_i32(x),
{
}

/// Reading a cell made by `cell64` gives back the value, wrapped to 64 bits.
pub proof fn lemma_signed64_of_cell64(x: int)
    ensures
        signed64(cell64(x)) == wrap_i64(x),
{
}

/// Addition, subtraction and multiplication never trap. Their result, read as a
/// signed number of the operand width, is the exact result wrapped to that
/// width: one past the largest number is the smallest, and one before the
/// smallest is the largest.
pub proof fn lemma_arithmetic_wraps(width: Width, op: BinOp, left: StackValue, right: StackValue)
    requires
        op is Add || op is Sub || op is Mul,
    ensures
        binary_spec(width, op, left, right) is Ok,
        width is W32 ==> signed32(binary_spec(width, op, left, right)->Ok_0.0) == wrap_i32(
            exact_arithmetic(op, signed32(left.0), signed32(right.0)),
        ),
        width is W64 ==> signed64(binary_spec(width, op, left, right)->Ok_0.0) == wrap_i64(
            exact_arithmetic(op, signed64(left.0), signed64(right.0)),
        ),
        wrap_i32(0x7fff_ffffint + 1) == -0x8000_0000,
        wrap_i32(-0x8000_0000int - 1) == 0x7fff_ffff,
        wrap_i64(0x7fff_ffff_ffff_ffffint + 1) == -0x8000_0000_0000_0000,
        wrap_i64(-0x8000_0000_0000_0000int - 1) == 0x7fff_ffff_ffff_ffff,
{
    match width {
        Width::W32 => lemma_signed32_of_cell32(
            exact_arithmetic(op, signed32(left.0), signed32(right.0)),
        ),
        Width::W64 => lemma_signed64_of_cell64(
            exact_arithmetic(op, signed64(left.0), signed64(right.0)),
        ),
    }
}

/// The divisor of a division at the given width, as an unsigned number.
pub open spec fn divisor(width: Width, right: StackValue) -> int {
    match width {
        Width::W32 => unsigned32(right.0),
        Width::W64 => right.0 as int,
    }
}

/// The operand of an operator at the given width, as a signed number.
pub open spec fn signed_operand(width: Width, operand: StackValue) -> int {
    match width {
        Width::W32 => signed32(operand.0),
        Width::W64 => signed64(operand.0),
    }
}

/// The smallest signed number of the given width.
pub open spec fn smallest(width: Width) -> int {
    match width {
        Width::W32 => -0x8000_0000,
        Width::W64 => -0x8000_0000_0000_0000,
    }
}

/// Division and remainder, signed or unsigned, trap with `DivisionByZero` on a
/// zero divisor whatever the dividend. Signed division of the smallest number
/// by minus one traps with `InvalidConversionToInt`. Every other division
/// yields a value.
pub proof fn lemma_division_traps(width: Width, op: BinOp, left: StackValue, right: StackValue)
    requires
        op is DivS || op is DivU || op is RemS || op is RemU,
    ensures
        divisor(width, right) == 0 ==> binary_spec(width, op, left, right) == Err::<
            StackValue,
            TrapKind,
        >(TrapKind::DivisionByZero),
        op is DivS && signed_operand(width, left) == smallest(width) && signed_operand(
            width,
            right,
        ) == -1 ==> binary_spec(width, op, left, right) == Err::<StackValue, TrapKind>(
            TrapKind::InvalidConversionToInt,
        ),
        (op is DivU || op is RemU) && divisor(width, right) != 0 ==> binary_spec(
            width,
            op,
            left,
            right,
        ) is Ok,
{
}

/// The amount a shift or rotation moves by: the right operand modulo the width.
pub open spec fn shift_amount(width: Width, right: StackValue) -> int {
    match width {
        Width::W32 => unsigned32(right.0) % 32,
        Width::W64 => right.0 as int % 64,
    }
}

/// A shift or rotation depends on its right operand only through the amount
/// modulo the operand width: shifting by the width is shifting by zero.
pub proof fn lemma_shift_amount_is_masked(
    width: Width,
    op: BinOp,
    left: StackValue,
    right: StackValue,
    other: StackValue,
)
    requires
        op is Shl || op is ShrS || op is ShrU || op is Rotl || op is Rotr,
        shift_amount(width, right) == shift_amount(width, other),
    ensures
        binary_spec(width, op, left, right) == binary_spec(width, op, left, other),
        shift_amount(width, StackValue(shift_amount(width, right) as u64)) == shift_amount(
            width,
            right,
        ),
{
}

} // verus!
