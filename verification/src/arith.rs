//! Saturating integer helpers shared by the engines.

use vstd::prelude::*;

verus! {

/// Clamps an integer into the range of `i32`.
pub open spec fn clamp_i32(v: int) -> int {
    if v > i32::MAX { i32::MAX as int } else if v < i32::MIN { i32::MIN as int } else { v }
}

/// Clamps an integer into the range of `u32`.
pub open spec fn clamp_u32(v: int) -> int {
    if v > u32::MAX { u32::MAX as int } else if v < 0 { 0 } else { v }
}

/// Narrows an integer to `i32`, saturating at the bounds.
pub fn saturate_i32(v: i64) -> (r: i32)
    ensures
        r == clamp_i32(v as int),
{
    if v > i32::MAX as i64 {
        i32::MAX
    } else if v < i32::MIN as i64 {
        i32::MIN
    } else {
        v as i32
    }
}

/// `a + b` kept within the range of `i32`.
pub fn sat_add_i32(a: i32, b: i32) -> (r: i32)
    ensures
        r == clamp_i32(a + b),
{
    saturate_i32(a as i64 + b as i64)
}

/// `a - b` kept within the range of `i32`.
pub fn sat_sub_i32(a: i32, b: i32) -> (r: i32)
    ensures
        r == clamp_i32(a - b),
{
    saturate_i32(a as i64 - b as i64)
}

/// `a + b` kept within the range of `u32`.
pub fn sat_add_u32(a: u32, b: u32) -> (r: u32)
    ensures
        r == clamp_u32(a + b),
{
    if a as u64 + b as u64 > u32::MAX as u64 { u32::MAX } else { a + b }
}

pub open spec fn min_int(a: int, b: int) -> int {
    if a <= b { a } else { b }
}

pub open spec fn max_int(a: int, b: int) -> int {
    if a >= b { a } else { b }
}

/// Clamps an integer into the range of `i64`.
pub open spec fn clamp_i64(v: int) -> int {
    if v > i64::MAX { i64::MAX as int } else if v < i64::MIN { i64::MIN as int } else { v }
}

/// `a + b` kept within the range of `i64`.
pub fn sat_add_i64(a: i64, b: i64) -> (r: i64)
    ensures
        r == clamp_i64(a + b),
{
    if b > 0 && a > i64::MAX - b {
        i64::MAX
    } else if b < 0 && a < i64::MIN - b {
        i64::MIN
    } else {
        a + b
    }
}

} // verus!
