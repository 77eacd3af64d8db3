use wasm_compiler::error::TrapKind;
use wasm_compiler::numeric::{apply_binary, apply_unary, BinOp, UnOp, Width};
use wasm_compiler::value::StackValue;

fn i32v(v: i32) -> StackValue {
    StackValue::from_i32(v)
}

fn i64v(v: i64) -> StackValue {
    StackValue::from_i64(v)
}

fn bin32(op: BinOp, a: i32, b: i32) -> i32 {
    apply_binary(Width::W32, op, i32v(a), i32v(b)).unwrap().as_i32()
}

fn bin64(op: BinOp, a: i64, b: i64) -> i64 {
    apply_binary(Width::W64, op, i64v(a), i64v(b)).unwrap().as_i64()
}

const SAMPLES32: [i32; 11] =
    [0, 1, -1, 2, -2, 31, 32, 33, i32::MAX, i32::MIN, 0x1234_5678];

const SAMPLES64: [i64; 11] =
    [0, 1, -1, 2, -2, 63, 64, 65, i64::MAX, i64::MIN, 0x1234_5678_9abc_def0];

#[test]
fn add_wraps_at_the_upper_bound() {
    assert_eq!(bin32(BinOp::Add, i32::MAX, 1), i32::MIN);
    assert_eq!(bin64(BinOp::Add, i64::MAX, 1), i64::MIN);
}

#[test]
fn sub_wraps_at_the_lower_bound() {
    assert_eq!(bin32(BinOp::Sub, i32::MIN, 1), i32::MAX);
    assert_eq!(bin64(BinOp::Sub, i64::MIN, 1), i64::MAX);
}

#[test]
fn mul_wraps() {
    assert_eq!(bin32(BinOp::Mul, 0x4000_0000, 4), 0);
    assert_eq!(bin32(BinOp::Mul, i32::MAX, 2), -2);
    assert_eq!(bin64(BinOp::Mul, i64::MAX, 2), -2);
    assert_eq!(bin64(BinOp::Mul, 1 << 62, 4), 0);
}

#[test]
fn arithmetic_agrees_with_wrapping_arithmetic_on_samples() {
    for &a in SAMPLES32.iter() {
        for &b in SAMPLES32.iter() {
            assert_eq!(bin32(BinOp::Add, a, b), a.wrapping_add(b));
            assert_eq!(bin32(BinOp::Sub, a, b), a.wrapping_sub(b));
            assert_eq!(bin32(BinOp::Mul, a, b), a.wrapping_mul(b));
        }
    }
    for &a in SAMPLES64.iter() {
        for &b in SAMPLES64.iter() {
            assert_eq!(bin64(BinOp::Add, a, b), a.wrapping_add(b));
            assert_eq!(bin64(BinOp::Sub, a, b), a.wrapping_sub(b));
            assert_eq!(bin64(BinOp::Mul, a, b), a.wrapping_mul(b));
        }
    }
}

#[test]
fn division_by_zero_traps() {
    for op in [BinOp::DivS, BinOp::DivU, BinOp::RemS, BinOp::RemU] {
        for &dividend in SAMPLES32.iter() {
            assert_eq!(
                apply_binary(Width::W32, op, i32v(dividend), i32v(0)),
                Err(TrapKind::DivisionByZero)
            );
        }
        for &dividend in SAMPLES64.iter() {
            assert_eq!(
                apply_binary(Width::W64, op, i64v(dividend), i64v(0)),
                Err(TrapKind::DivisionByZero)
            );
        }
    }
}

#[test]
fn zero_divisor_is_judged_at_the_operand_width() {
    // The low 32 bits of the divisor are zero, the cell is not.
    let divisor = StackValue(0x1_0000_0000);
    assert_eq!(
        apply_binary(Width::W32, BinOp::DivU, i32v(7), divisor),
        Err(TrapKind::DivisionByZero)
    );
    assert_eq!(
        apply_binary(Width::W64, BinOp::DivU, i64v(0x2_0000_0000), divisor),
        Ok(StackValue(2))
    );
}

#[test]
fn signed_division_overflow_traps() {
    assert_eq!(
        apply_binary(Width::W32, BinOp::DivS, i32v(i32::MIN), i32v(-1)),
        Err(TrapKind::InvalidConversionToInt)
    );
    assert_eq!(
        apply_binary(Width::W64, BinOp::DivS, i64v(i64::MIN), i64v(-1)),
        Err(TrapKind::InvalidConversionToInt)
    );
    assert_eq!(
        apply_binary(Width::W32, BinOp::RemS, i32v(i32::MIN), i32v(-1)),
        Err(TrapKind::InvalidConversionToInt)
    );
    assert_eq!(
        apply_binary(Width::W64, BinOp::RemS, i64v(i64::MIN), i64v(-1)),
        Err(TrapKind::InvalidConversionToInt)
    );
}

#[test]
fn signed_division_rounds_toward_zero() {
    assert_eq!(bin32(BinOp::DivS, 7, 2), 3);
    assert_eq!(bin32(BinOp::DivS, -7, 2), -3);
    assert_eq!(bin32(BinOp::DivS, 7, -2), -3);
    assert_eq!(bin32(BinOp::DivS, -7, -2), 3);
    assert_eq!(bin32(BinOp::DivS, i32::MIN, 1), i32::MIN);
    assert_eq!(bin32(BinOp::DivS, i32::MIN, 2), -0x4000_0000);
    assert_eq!(bin64(BinOp::DivS, -7, 2), -3);
    assert_eq!(bin64(BinOp::DivS, i64::MIN, 1), i64::MIN);
}

#[test]
fn signed_remainder_has_the_sign_of_the_dividend() {
    assert_eq!(bin32(BinOp::RemS, 7, 2), 1);
    assert_eq!(bin32(BinOp::RemS, -7, 2), -1);
    assert_eq!(bin32(BinOp::RemS, 7, -2), 1);
    assert_eq!(bin32(BinOp::RemS, -7, -2), -1);
    assert_eq!(bin32(BinOp::RemS, i32::MIN, 3), -2);
    assert_eq!(bin64(BinOp::RemS, -7, 2), -1);
    assert_eq!(bin64(BinOp::RemS, 7, -2), 1);
}

#[test]
fn unsigned_division_reads_the_bits_as_unsigned() {
    assert_eq!(bin32(BinOp::DivU, -1, 2), 0x7fff_ffff);
    assert_eq!(bin32(BinOp::RemU, -1, 2), 1);
    assert_eq!(bin32(BinOp::DivU, -1, -1), 1);
    assert_eq!(bin32(BinOp::DivU, i32::MIN, -1), 0);
    assert_eq!(bin32(BinOp::RemU, i32::MIN, -1), i32::MIN);
    assert_eq!(bin64(BinOp::DivU, -1, 2), i64::MAX);
    assert_eq!(bin64(BinOp::RemU, -1, 2), 1);
    assert_eq!(bin64(BinOp::DivU, i64::MIN, -1), 0);
}

#[test]
fn division_agrees_with_checked_division_on_samples() {
    for &a in SAMPLES32.iter() {
        for &b in SAMPLES32.iter() {
            let got = apply_binary(Width::W32, BinOp::DivS, i32v(a), i32v(b));
            match a.checked_div(b) {
                Some(q) => assert_eq!(got.unwrap().as_i32(), q),
                None => assert!(got.is_err()),
            }
            let got = apply_binary(Width::W32, BinOp::RemS, i32v(a), i32v(b));
            match a.checked_rem(b) {
                Some(r) => assert_eq!(got.unwrap().as_i32(), r),
                None => assert!(got.is_err()),
            }
            let got = apply_binary(Width::W32, BinOp::DivU, i32v(a), i32v(b));
            match (a as u32).checked_div(b as u32) {
                Some(q) => assert_eq!(got.unwrap().as_u32(), q),
                None => assert!(got.is_err()),
            }
            let got = apply_binary(Width::W32, BinOp::RemU, i32v(a), i32v(b));
            match (a as u32).checked_rem(b as u32) {
                Some(r) => assert_eq!(got.unwrap().as_u32(), r),
                None => assert!(got.is_err()),
            }
        }
    }
    for &a in SAMPLES64.iter() {
        for &b in SAMPLES64.iter() {
            let got = apply_binary(Width::W64, BinOp::DivS, i64v(a), i64v(b));
            match a.checked_div(b) {
                Some(q) => assert_eq!(got.unwrap().as_i64(), q),
                None => assert!(got.is_err()),
            }
            let got = apply_binary(Width::W64, BinOp::RemU, i64v(a), i64v(b));
            match (a as u64).checked_rem(b as u64) {
                Some(r) => assert_eq!(got.unwrap().as_u64(), r),
                None => assert!(got.is_err()),
            }
        }
    }
}

#[test]
fn bitwise_operators() {
    assert_eq!(bin32(BinOp::And, 0b1100, 0b1010), 0b1000);
    assert_eq!(bin32(BinOp::Or, 0b1100, 0b1010), 0b1110);
    assert_eq!(bin32(BinOp::Xor, 0b1100, 0b1010), 0b0110);
    assert_eq!(bin32(BinOp::And, -1, i32::MIN), i32::MIN);
    assert_eq!(bin64(BinOp::And, 0b1100, 0b1010), 0b1000);
    assert_eq!(bin64(BinOp::Or, i64::MIN, 1), i64::MIN + 1);
    assert_eq!(bin64(BinOp::Xor, -1, i64::MAX), i64::MIN);
}

#[test]
fn shift_by_the_width_is_shift_by_zero() {
    for &a in SAMPLES32.iter() {
        for op in [BinOp::Shl, BinOp::ShrS, BinOp::ShrU, BinOp::Rotl, BinOp::Rotr] {
            assert_eq!(bin32(op, a, 32), a);
            assert_eq!(bin32(op, a, 32), bin32(op, a, 0));
            assert_eq!(bin32(op, a, 33), bin32(op, a, 1));
            assert_eq!(bin32(op, a, -1), bin32(op, a, 31));
        }
    }
    for &a in SAMPLES64.iter() {
        for op in [BinOp::Shl, BinOp::ShrS, BinOp::ShrU, BinOp::Rotl, BinOp::Rotr] {
            assert_eq!(bin64(op, a, 64), a);
            assert_eq!(bin64(op, a, 65), bin64(op, a, 1));
            assert_eq!(bin64(op, a, -1), bin64(op, a, 63));
        }
    }
}

#[test]
fn a_64_bit_shift_takes_amounts_up_to_63() {
    assert_eq!(bin64(BinOp::Shl, 1, 32), 1 << 32);
    assert_eq!(bin64(BinOp::Shl, 1, 63), i64::MIN);
    assert_eq!(bin64(BinOp::ShrU, i64::MIN, 63), 1);
    assert_eq!(bin64(BinOp::ShrS, i64::MIN, 63), -1);
}

#[test]
fn shifts_agree_with_wrapping_shifts_on_samples() {
    for &a in SAMPLES32.iter() {
        for &b in SAMPLES32.iter() {
            assert_eq!(bin32(BinOp::Shl, a, b), a.wrapping_shl(b as u32));
            assert_eq!(bin32(BinOp::ShrS, a, b), a.wrapping_shr(b as u32));
            assert_eq!(bin32(BinOp::ShrU, a, b), (a as u32).wrapping_shr(b as u32) as i32);
            assert_eq!(bin32(BinOp::Rotl, a, b), a.rotate_left(b as u32));
            assert_eq!(bin32(BinOp::Rotr, a, b), a.rotate_right(b as u32));
        }
    }
    for &a in SAMPLES64.iter() {
        for &b in SAMPLES64.iter() {
            assert_eq!(bin64(BinOp::Shl, a, b), a.wrapping_shl(b as u32));
            assert_eq!(bin64(BinOp::ShrS, a, b), a.wrapping_shr(b as u32));
            assert_eq!(bin64(BinOp::ShrU, a, b), (a as u64).wrapping_shr(b as u32) as i64);
            assert_eq!(bin64(BinOp::Rotl, a, b), a.rotate_left(b as u32));
            assert_eq!(bin64(BinOp::Rotr, a, b), a.rotate_right(b as u32));
        }
    }
}

#[test]
fn shift_right_signed_keeps_the_sign() {
    assert_eq!(bin32(BinOp::ShrS, -8, 1), -4);
    assert_eq!(bin32(BinOp::ShrU, -8, 1), 0x7fff_fffc);
    assert_eq!(bin32(BinOp::ShrS, i32::MIN, 31), -1);
    assert_eq!(bin32(BinOp::ShrU, i32::MIN, 31), 1);
}

#[test]
fn rotations() {
    assert_eq!(bin32(BinOp::Rotl, 0x8000_0001u32 as i32, 1), 3);
    assert_eq!(bin32(BinOp::Rotr, 3, 1), 0x8000_0001u32 as i32);
    assert_eq!(bin32(BinOp::Rotl, 0x1234_5678, 8), 0x3456_7812);
    assert_eq!(bin64(BinOp::Rotl, i64::MIN + 1, 1), 3);
    assert_eq!(bin64(BinOp::Rotr, 3, 1), i64::MIN + 1);
}

#[test]
fn comparisons_yield_one_or_zero() {
    assert_eq!(bin32(BinOp::Eq, 3, 3), 1);
    assert_eq!(bin32(BinOp::Eq, 3, 4), 0);
    assert_eq!(bin32(BinOp::Ne, 3, 4), 1);
    assert_eq!(bin32(BinOp::LtS, -1, 0), 1);
    assert_eq!(bin32(BinOp::LtU, -1, 0), 0);
    assert_eq!(bin32(BinOp::GtS, -1, 0), 0);
    assert_eq!(bin32(BinOp::GtU, -1, 0), 1);
    assert_eq!(bin32(BinOp::LeS, 5, 5), 1);
    assert_eq!(bin32(BinOp::LeU, 0, -1), 1);
    assert_eq!(bin32(BinOp::GeS, i32::MIN, i32::MAX), 0);
    assert_eq!(bin32(BinOp::GeU, i32::MIN, i32::MAX), 1);
    assert_eq!(bin64(BinOp::LtS, -1, 0), 1);
    assert_eq!(bin64(BinOp::LtU, -1, 0), 0);
    assert_eq!(bin64(BinOp::GeU, i64::MIN, i64::MAX), 1);
}

#[test]
fn comparisons_agree_with_the_native_ones_on_samples() {
    for &a in SAMPLES32.iter() {
        for &b in SAMPLES32.iter() {
            let (ua, ub) = (a as u32, b as u32);
            assert_eq!(bin32(BinOp::Eq, a, b), (a == b) as i32);
            assert_eq!(bin32(BinOp::Ne, a, b), (a != b) as i32);
            assert_eq!(bin32(BinOp::LtS, a, b), (a < b) as i32);
            assert_eq!(bin32(BinOp::LtU, a, b), (ua < ub) as i32);
            assert_eq!(bin32(BinOp::GtS, a, b), (a > b) as i32);
            assert_eq!(bin32(BinOp::GtU, a, b), (ua > ub) as i32);
            assert_eq!(bin32(BinOp::LeS, a, b), (a <= b) as i32);
            assert_eq!(bin32(BinOp::LeU, a, b), (ua <= ub) as i32);
            assert_eq!(bin32(BinOp::GeS, a, b), (a >= b) as i32);
            assert_eq!(bin32(BinOp::GeU, a, b), (ua >= ub) as i32);
        }
    }
    for &a in SAMPLES64.iter() {
        for &b in SAMPLES64.iter() {
            let (ua, ub) = (a as u64, b as u64);
            assert_eq!(bin64(BinOp::Eq, a, b), (a == b) as i64);
            assert_eq!(bin64(BinOp::LtS, a, b), (a < b) as i64);
            assert_eq!(bin64(BinOp::LtU, a, b), (ua < ub) as i64);
            assert_eq!(bin64(BinOp::GtU, a, b), (ua > ub) as i64);
            assert_eq!(bin64(BinOp::LeS, a, b), (a <= b) as i64);
            assert_eq!(bin64(BinOp::GeU, a, b), (ua >= ub) as i64);
        }
    }
}

#[test]
fn bit_counts() {
    assert_eq!(apply_unary(Width::W32, UnOp::Clz, i32v(0)).as_i32(), 32);
    assert_eq!(apply_unary(Width::W32, UnOp::Clz, i32v(1)).as_i32(), 31);
    assert_eq!(apply_unary(Width::W32, UnOp::Clz, i32v(-1)).as_i32(), 0);
    assert_eq!(apply_unary(Width::W32, UnOp::Ctz, i32v(0)).as_i32(), 32);
    assert_eq!(apply_unary(Width::W32, UnOp::Ctz, i32v(8)).as_i32(), 3);
    assert_eq!(apply_unary(Width::W32, UnOp::Ctz, i32v(i32::MIN)).as_i32(), 31);
    assert_eq!(apply_unary(Width::W32, UnOp::Popcnt, i32v(0)).as_i32(), 0);
    assert_eq!(apply_unary(Width::W32, UnOp::Popcnt, i32v(-1)).as_i32(), 32);
    assert_eq!(apply_unary(Width::W32, UnOp::Popcnt, i32v(0x0f0f)).as_i32(), 8);
    assert_eq!(apply_unary(Width::W64, UnOp::Clz, i64v(0)).as_i64(), 64);
    assert_eq!(apply_unary(Width::W64, UnOp::Clz, i64v(1)).as_i64(), 63);
    assert_eq!(apply_unary(Width::W64, UnOp::Ctz, i64v(0)).as_i64(), 64);
    assert_eq!(apply_unary(Width::W64, UnOp::Ctz, i64v(1 << 40)).as_i64(), 40);
    assert_eq!(apply_unary(Width::W64, UnOp::Popcnt, i64v(-1)).as_i64(), 64);
    for &a in SAMPLES32.iter() {
        assert_eq!(
            apply_unary(Width::W32, UnOp::Popcnt, i32v(a)).as_u32(),
            a.count_ones()
        );
        assert_eq!(
            apply_unary(Width::W32, UnOp::Clz, i32v(a)).as_u32(),
            a.leading_zeros()
        );
        assert_eq!(
            apply_unary(Width::W32, UnOp::Ctz, i32v(a)).as_u32(),
            a.trailing_zeros()
        );
    }
    for &a in SAMPLES64.iter() {
        assert_eq!(
            apply_unary(Width::W64, UnOp::Popcnt, i64v(a)).as_u64(),
            a.count_ones() as u64
        );
    }
}

#[test]
fn eqz_tests_for_zero() {
    assert_eq!(apply_unary(Width::W32, UnOp::Eqz, i32v(0)), StackValue(1));
    assert_eq!(apply_unary(Width::W32, UnOp::Eqz, i32v(5)), StackValue(0));
    assert_eq!(apply_unary(Width::W32, UnOp::Eqz, StackValue(0x1_0000_0000)), StackValue(1));
    assert_eq!(apply_unary(Width::W64, UnOp::Eqz, StackValue(0x1_0000_0000)), StackValue(0));
    assert_eq!(apply_unary(Width::W64, UnOp::Eqz, i64v(0)), StackValue(1));
}

#[test]
fn a_32_bit_result_is_kept_sign_extended() {
    assert_eq!(
        apply_binary(Width::W32, BinOp::Sub, i32v(0), i32v(1)),
        Ok(StackValue(u64::MAX))
    );
    assert_eq!(
        apply_binary(Width::W32, BinOp::Or, i32v(i32::MIN), i32v(0)),
        Ok(StackValue(0xffff_ffff_8000_0000))
    );
    assert_eq!(
        apply_binary(Width::W32, BinOp::Add, StackValue(0x7_0000_0001), StackValue(0x9_0000_0002)),
        Ok(StackValue(3))
    );
}

#[test]
fn cells_convert_both_ways() {
    assert_eq!(StackValue::from_i32(-1), StackValue(u64::MAX));
    assert_eq!(StackValue::from_i32(5), StackValue(5));
    assert_eq!(StackValue::from_u32(0xffff_ffff), StackValue(u64::MAX));
    assert_eq!(StackValue::from_u32(0x7fff_ffff), StackValue(0x7fff_ffff));
    assert_eq!(StackValue::from_i64(-2), StackValue(u64::MAX - 1));
    assert_eq!(StackValue::from_i64(i64::MIN), StackValue(1 << 63));
    assert_eq!(StackValue::from_u64(9), StackValue(9));
    assert_eq!(StackValue::from_bool(true), StackValue(1));
    assert_eq!(StackValue::from_bool(false), StackValue(0));
    assert_eq!(StackValue(0x1_8000_0000).as_u32(), 0x8000_0000);
    assert_eq!(StackValue(0x1_8000_0000).as_i32(), i32::MIN);
    assert_eq!(StackValue(0x1_8000_0000).as_u64(), 0x1_8000_0000);
    assert_eq!(StackValue(u64::MAX).as_i64(), -1);
    assert_eq!(StackValue(1 << 63).as_i64(), i64::MIN);
    for &a in SAMPLES32.iter() {
        assert_eq!(StackValue::from_i32(a).as_i32(), a);
        assert_eq!(StackValue::from_u32(a as u32).as_u32(), a as u32);
    }
    for &a in SAMPLES64.iter() {
        assert_eq!(StackValue::from_i64(a).as_i64(), a);
    }
}
