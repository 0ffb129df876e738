//! The register-to-register arithmetic of the `8xyN` family.
use vstd::prelude::*;
use crate::decode::AluOp;

verus! {

/// The value written to Vx by `op` on operands `a = Vx` and `b = Vy`, and the
/// value written to VF afterwards for the operations that set it.
pub open spec fn alu_spec(op: AluOp, a: u8, b: u8) -> (u8, Option<u8>) {
    match op {
        AluOp::Assign => (b, None),
        AluOp::Or => (a | b, None),
        AluOp::And => (a & b, None),
        AluOp::Xor => (a ^ b, None),
        AluOp::Add => (((a + b) % 256) as u8, Some(if a + b > 255 { 1u8 } else { 0u8 })),
        AluOp::Sub => (((a - b) % 256) as u8, Some(if a >= b { 1u8 } else { 0u8 })),
        AluOp::ShiftRight => (a / 2, Some(a % 2)),
        AluOp::SubReverse => (((b - a) % 256) as u8, Some(if b >= a { 1u8 } else { 0u8 })),
        AluOp::ShiftLeft => (((a * 2) % 256) as u8, Some(a / 128)),
    }
}

/// Apply `op` to `a = Vx` and `b = Vy`: the new Vx, and the new VF where
/// the operation sets it. Both operands are read before anything is written.
pub fn alu(op: AluOp, a: u8, b: u8) -> (r: (u8, Option<u8>))
    ensures
        r == alu_spec(op, a, b),
{
    match op {
        AluOp::Assign => (b, None),
        AluOp::Or => (a | b, None),
        AluOp::And => (a & b, None),
        AluOp::Xor => (a ^ b, None),
        AluOp::Add => {
            let carry: u8 = if a > 0xff - b {
                1
            } else {
                0
            };
            (a.wrapping_add(b), Some(carry))
        },
        AluOp::Sub => {
            let no_borrow: u8 = if b > a {
                0
            } else {
                1
            };
            (a.wrapping_sub(b), Some(no_borrow))
        },
        AluOp::ShiftRight => {
            assert(a >> 1u8 == a / 2 && a & 1u8 == a % 2) by (bit_vector);
            (a >> 1, Some(a & 0x1))
        },
        AluOp::SubReverse => {
            let no_borrow: u8 = if a > b {
                0
            } else {
                1
            };
            (b.wrapping_sub(a), Some(no_borrow))
        },
        AluOp::ShiftLeft => {
            assert(a << 1u8 == ((a * 2) % 256) as u8 && a >> 7u8 == a / 128) by (bit_vector);
            (a << 1, Some(a >> 7))
        },
    }
}

} // verus!
