//! The integer core of the quadrature encoder: resolving the wrap-around of
//! the hardware counter.  The counter is sampled as an unsigned 16- or
//! 32-bit value; the difference between two samples is taken in the
//! counter's native signed width, so that a wrap between samples yields the
//! short way around.  Scaling the delta into revolutions is left to the
//! caller, which owns the pulses-per-revolution constant.

use vstd::prelude::*;

verus! {

/// The signed distance from `current` to `last` on a circle of size
/// `modulus`: the representative of `last - current` in
/// `[-modulus / 2, modulus / 2)`.
pub open spec fn wrap_diff(last: int, current: int, modulus: int) -> int {
    let d = (last - current) % modulus;
    if d < modulus / 2 {
        d
    } else {
        d - modulus
    }
}

/// The wrap-aware count delta of a 16-bit counter between two samples.
pub fn wrap_delta_u16(last: u16, current: u16) -> (r: i16)
    ensures
        r as int == wrap_diff(last as int, current as int, 0x1_0000),
{
    let d: u16 = last.wrapping_sub(current);
    if d < 0x8000 {
        d as i16
    } else {
        ((d as i32) - 0x1_0000) as i16
    }
}

/// The wrap-aware count delta of a 32-bit counter between two samples.
pub fn wrap_delta_u32(last: u32, current: u32) -> (r: i32)
    ensures
        r as int == wrap_diff(last as int, current as int, 0x1_0000_0000),
{
    let d: u32 = last.wrapping_sub(current);
    if d < 0x8000_0000 {
        d as i32
    } else {
        ((d as i64) - 0x1_0000_0000) as i32
    }
}

} // verus!
