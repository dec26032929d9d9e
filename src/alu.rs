use vstd::prelude::*;

verus! {

/// `a + b` with carry: the sum modulo 256, and 1 exactly when it overflowed.
pub open spec fn add_spec(a: u8, b: u8) -> (u8, u8) {
    (((a + b) % 256) as u8, if a + b > 255 { 1u8 } else { 0u8 })
}

/// `a - b` with borrow: the difference modulo 256, and 1 exactly when no
/// borrow was needed.
pub open spec fn sub_spec(a: u8, b: u8) -> (u8, u8) {
    (((a - b + 256) % 256) as u8, if a >= b { 1u8 } else { 0u8 })
}

/// A right shift by one, and the bit shifted out.
pub open spec fn shr_spec(a: u8) -> (u8, u8) {
    ((a / 2) as u8, (a % 2) as u8)
}

/// A left shift by one, and the bit shifted out.
pub open spec fn shl_spec(a: u8) -> (u8, u8) {
    ((a * 2 % 256) as u8, (a / 128) as u8)
}

/// The result and the flag of the register operation `8XYn`, given the values
/// of `VX` and `VY`; `None` where `n` names no operation. With `shift_vy` the
/// shifts read `VY`, otherwise `VX`.
pub open spec fn alu(n: u8, vx: u8, vy: u8, shift_vy: bool) -> Option<(u8, u8)> {
    let shifted = if shift_vy { vy } else { vx };
    if n == 0x0 {
        Some((vy, 0u8))
    } else if n == 0x1 {
        Some((vx | vy, 0u8))
    } else if n == 0x2 {
        Some((vx & vy, 0u8))
    } else if n == 0x3 {
        Some((vx ^ vy, 0u8))
    } else if n == 0x4 {
        Some(add_spec(vx, vy))
    } else if n == 0x5 {
        Some(sub_spec(vx, vy))
    } else if n == 0x6 {
        Some(shr_spec(shifted))
    } else if n == 0x7 {
        Some(sub_spec(vy, vx))
    } else if n == 0xE {
        Some(shl_spec(shifted))
    } else {
        None
    }
}

/// Adds two register values, returning the sum modulo 256 and the carry.
pub fn sum_overflow(a: u8, b: u8) -> (r: (u8, u8))
    ensures
        r.0 == (a + b) % 256,
        r.1 == (if a + b > 255 { 1u8 } else { 0u8 }),
        r == add_spec(a, b),
{
    let sum = a as u16 + b as u16;
    if sum > 255 {
        ((sum - 256) as u8, 1)
    } else {
        (sum as u8, 0)
    }
}

/// Subtracts `b` from `a`, returning the difference modulo 256 and 1 when
/// `a >= b` (no borrow), else 0.
pub fn subtract_overflow(a: u8, b: u8) -> (r: (u8, u8))
    ensures
        r.0 == (a - b + 256) % 256,
        r.1 == (if a >= b { 1u8 } else { 0u8 }),
        r == sub_spec(a, b),
{
    if a >= b {
        (a - b, 1)
    } else {
        ((a as u16 + 256 - b as u16) as u8, 0)
    }
}

/// Shifts right by one; the flag is the low bit of `a`.
pub fn shift_right(a: u8) -> (r: (u8, u8))
    ensures
        r == shr_spec(a),
{
    assert(a >> 1u8 == a / 2 && a & 1 == a % 2) by (bit_vector);
    (a >> 1, a & 1)
}

/// Shifts left by one, dropping the high bit; the flag is that high bit.
pub fn shift_left(a: u8) -> (r: (u8, u8))
    ensures
        r == shl_spec(a),
{
    assert(a << 1u8 == a * 2 % 256 && (a & 0x80) >> 7u8 == a / 128) by (bit_vector);
    (a << 1, (a & 0x80) >> 7)
}

/// The register operation `8XYn` on the values of `VX` and `VY`.
pub fn logic_op(n: u8, vx: u8, vy: u8, shift_vy: bool) -> (r: Option<(u8, u8)>)
    ensures
        r == alu(n, vx, vy, shift_vy),
{
    let shifted = if shift_vy {
        vy
    } else {
        vx
    };
    match n {
        0x0 => Some((vy, 0)),
        0x1 => Some((vx | vy, 0)),
        0x2 => Some((vx & vy, 0)),
        0x3 => Some((vx ^ vy, 0)),
        0x4 => Some(sum_overflow(vx, vy)),
        0x5 => Some(subtract_overflow(vx, vy)),
        0x6 => Some(shift_right(shifted)),
        0x7 => Some(subtract_overflow(vy, vx)),
        0xE => Some(shift_left(shifted)),
        _ => None,
    }
}

/// `8XY7` (`VX = VY - VX`) is `8XY5` (`VX = VX - VY`) with its operands
/// exchanged, flag included.
pub proof fn lemma_subn_is_swapped_sub(a: u8, b: u8, shift_vy: bool)
    ensures
        alu(7, a, b, shift_vy) == alu(5, b, a, shift_vy),
        alu(5, a, b, shift_vy) == Some(sub_spec(a, b)),
{
}

} // verus!
