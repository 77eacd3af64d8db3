//! The cell of run-time storage, and how numbers are read from it and written
//! to it.

use vstd::prelude::*;

verus! {

/// The numeric types a function signature can name.
#[derive(Clone, Copy, Debug, PartialEq, Eq, Structural)]
pub enum ValueType {
    I32,
    I64,
    F32,
    F64,
}

/// One cell of run-time storage: 64 bits, read as whatever numeric type the
/// operator at hand works on.
///
/// A 32-bit value is kept sign-extended, so the whole cell is zero exactly
/// when the 32-bit value is.
#[derive(Clone, Copy, Debug, PartialEq, Eq, Structural)]
pub struct StackValue(pub u64);

/// The low 32 bits of a cell, as an unsigned number.
pub open spec fn unsigned32(cell: u64) -> int {
    cell as int % 0x1_0000_0000
}

/// The signed number in `-2^31 .. 2^31` that is congruent to `x` modulo 2^32.
pub open spec fn wrap_i32(x: int) -> int {
    let low = x % 0x1_0000_0000;
    if low >= 0x8000_0000 {
        low - 0x1_0000_0000
    } else {
        low
    }
}

/// The signed number in `-2^63 .. 2^63` that is congruent to `x` modulo 2^64.
pub open spec fn wrap_i64(x: int) -> int {
    let low = x % 0x1_0000_0000_0000_0000;
    if low >= 0x8000_0000_0000_0000 {
        low - 0x1_0000_0000_0000_0000
    } else {
        low
    }
}

/// The low 32 bits of a cell, as a signed number.
pub open spec fn signed32(cell: u64) -> int {
    wrap_i32(cell as int)
}

/// The cell as a signed 64-bit number.
pub open spec fn signed64(cell: u64) -> int {
    wrap_i64(cell as int)
}

/// The cell whose 64 bits are `x` modulo 2^64.
pub open spec fn cell64(x: int) -> u64 {
    (x % 0x1_0000_0000_0000_0000) as u64
}

/// The cell that holds the 32-bit value `x` modulo 2^32, sign-extended.
pub open spec fn cell32(x: int) -> u64 {
    cell64(wrap_i32(x))
}

impl StackValue {
    /// The cell of a signed 64-bit number.
    pub fn from_i64(v: i64) -> (r: StackValue)
        ensures
            r.0 == cell64(v as int),
            signed64(r.0) == v,
    {
        if v < 0 {
            StackValue((v as i128 + 0x1_0000_0000_0000_0000) as u64)
        } else {
            StackValue(v as u64)
        }
    }

    /// The cell of an unsigned 64-bit number.
    pub fn from_u64(v: u64) -> (r: StackValue)
        ensures
            r.0 == v,
            r.0 == cell64(v as int),
    {
        StackValue(v)
    }

    /// The cell of a signed 32-bit number, sign-extended.
    pub fn from_i32(v: i32) -> (r: StackValue)
        ensures
            r.0 == cell32(v as int),
            signed32(r.0) == v,
    {
        StackValue::from_i64(v as i64)
    }

    /// The cell of the 32-bit pattern `v`, sign-extended from bit 31.
    pub fn from_u32(v: u32) -> (r: StackValue)
        ensures
            r.0 == cell32(v as int),
            unsigned32(r.0) == v,
    {
        if v >= 0x8000_0000 {
            StackValue::from_i64(v as i64 - 0x1_0000_0000)
        } else {
            StackValue(v as u64)
        }
    }

    /// One for `true`, zero for `false`.
    pub fn from_bool(b: bool) -> (r: StackValue)
        ensures
            r.0 == (if b { 1u64 } else { 0u64 }),
    {
        if b {
            StackValue(1)
        } else {
            StackValue(0)
        }
    }

    /// The low 32 bits, unsigned.
    pub fn as_u32(self) -> (r: u32)
        ensures
            r == unsigned32(self.0),
    {
        (self.0 % 0x1_0000_0000) as u32
    }

    /// The low 32 bits, signed.
    pub fn as_i32(self) -> (r: i32)
        ensures
            r == signed32(self.0),
    {
        let low: u32 = self.as_u32();
        if low >= 0x8000_0000 {
            (low as i64 - 0x1_0000_0000) as i32
        } else {
            low as i32
        }
    }

    /// All 64 bits, unsigned.
    pub fn as_u64(self) -> (r: u64)
        ensures
            r == self.0,
    {
        self.0
    }

    /// All 64 bits, signed.
    pub fn as_i64(self) -> (r: i64)
        ensures
            r == signed64(self.0),
    {
        if self.0 >= 0x8000_0000_0000_0000 {
            (self.0 as i128 - 0x1_0000_0000_0000_0000) as i64
        } else {
            self.0 as i64
        }
    }
}

} // verus!
