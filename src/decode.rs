//! Opcode fields and the decoding of 16-bit opcodes into instructions.
use vstd::prelude::*;

verus! {

/// The register-to-register operations of the `8xyN` family.
#[derive(Clone, Copy, Debug, PartialEq, Eq, Structural)]
pub enum AluOp {
    /// `8xy0`: Vx := Vy.
    Assign,
    /// `8xy1`: Vx := Vx | Vy.
    Or,
    /// `8xy2`: Vx := Vx & Vy.
    And,
    /// `8xy3`: Vx := Vx ^ Vy.
    Xor,
    /// `8xy4`: Vx := Vx + Vy, VF := carry.
    Add,
    /// `8xy5`: Vx := Vx - Vy, VF := no borrow.
    Sub,
    /// `8xy6`: Vx := Vx >> 1, VF := the bit shifted out.
    ShiftRight,
    /// `8xy7`: Vx := Vy - Vx, VF := no borrow.
    SubReverse,
    /// `8xyE`: Vx := Vx << 1, VF := the bit shifted out.
    ShiftLeft,
}

/// One decoded instruction. Register operands `x` and `y` are below 16,
/// `n` below 16 and `nnn` below 0x1000 when they come from [`decode`].
#[derive(Clone, Copy, Debug, PartialEq, Eq, Structural)]
pub enum Instruction {
    /// `00E0`: clear the framebuffer.
    ClearScreen,
    /// `00EE`: return from a subroutine.
    Return,
    /// `1nnn`: PC := nnn.
    Jump { nnn: u16 },
    /// `2nnn`: push PC, PC := nnn.
    Call { nnn: u16 },
    /// `3xnn`: skip the next instruction if Vx == nn.
    SkipIfEqImm { x: u8, nn: u8 },
    /// `4xnn`: skip the next instruction if Vx != nn.
    SkipIfNeImm { x: u8, nn: u8 },
    /// `5xy0`: skip the next instruction if Vx == Vy.
    SkipIfEqReg { x: u8, y: u8 },
    /// `6xnn`: Vx := nn.
    SetImm { x: u8, nn: u8 },
    /// `7xnn`: Vx := Vx + nn, wrapping; VF untouched.
    AddImm { x: u8, nn: u8 },
    /// `8xyN`: a register-to-register operation.
    Alu { op: AluOp, x: u8, y: u8 },
    /// `9xy0`: skip the next instruction if Vx != Vy.
    SkipIfNeReg { x: u8, y: u8 },
    /// `Annn`: I := nnn.
    SetIndex { nnn: u16 },
    /// `Bnnn`: PC := V0 + nnn.
    JumpOffset { nnn: u16 },
    /// `Cxnn`: Vx := a random byte & nn.
    Random { x: u8, nn: u8 },
    /// `Dxyn`: draw the n-row sprite at I at (Vx, Vy); VF := collision.
    Draw { x: u8, y: u8, n: u8 },
    /// `Ex9E`: skip the next instruction if key Vx is down.
    SkipIfKey { x: u8 },
    /// `ExA1`: skip the next instruction if key Vx is up.
    SkipIfNotKey { x: u8 },
    /// `Fx07`: Vx := delay timer.
    GetDelay { x: u8 },
    /// `Fx0A`: wait until a key is down, then Vx := its index.
    WaitKey { x: u8 },
    /// `Fx15`: delay timer := Vx.
    SetDelay { x: u8 },
    /// `Fx18`: sound timer := Vx.
    SetSound { x: u8 },
    /// `Fx1E`: I := I + Vx; VF := whether the sum passes 0xFFF.
    AddIndex { x: u8 },
    /// `Fx29`: I := address of the font glyph for digit Vx.
    FontChar { x: u8 },
    /// `Fx33`: store the decimal digits of Vx at I, I + 1, I + 2.
    StoreBcd { x: u8 },
    /// `Fx55`: store V0..=Vx at I..=I + x; I := I + x + 1.
    StoreRegs { x: u8 },
    /// `Fx65`: load V0..=Vx from I..=I + x; I := I + x + 1.
    LoadRegs { x: u8 },
    /// Any other opcode: does nothing but move on.
    Unknown,
}

/// The instruction family: the top nibble.
pub open spec fn op_family(op: u16) -> u16 {
    op / 4096
}

/// Bits 8..12: the first register operand.
pub open spec fn op_x(op: u16) -> u8 {
    ((op / 256) % 16) as u8
}

/// Bits 4..8: the second register operand.
pub open spec fn op_y(op: u16) -> u8 {
    ((op / 16) % 16) as u8
}

/// Bits 0..4.
pub open spec fn op_n(op: u16) -> u8 {
    (op % 16) as u8
}

/// The low byte.
pub open spec fn op_nn(op: u16) -> u8 {
    (op % 256) as u8
}

/// The low twelve bits: an address.
pub open spec fn op_nnn(op: u16) -> u16 {
    op % 4096
}

/// The `8xyN` operation that `n` selects, if any.
pub open spec fn alu_op_of(n: u8) -> Option<AluOp> {
    if n == 0 {
        Some(AluOp::Assign)
    } else if n == 1 {
        Some(AluOp::Or)
    } else if n == 2 {
        Some(AluOp::And)
    } else if n == 3 {
        Some(AluOp::Xor)
    } else if n == 4 {
        Some(AluOp::Add)
    } else if n == 5 {
        Some(AluOp::Sub)
    } else if n == 6 {
        Some(AluOp::ShiftRight)
    } else if n == 7 {
        Some(AluOp::SubReverse)
    } else if n == 0xE {
        Some(AluOp::ShiftLeft)
    } else {
        None
    }
}

/// The `Fx..` instruction that the low byte `nn` selects.
pub open spec fn misc_of(x: u8, nn: u8) -> Instruction {
    if nn == 0x07 {
        Instruction::GetDelay { x }
    } else if nn == 0x0A {
        Instruction::WaitKey { x }
    } else if nn == 0x15 {
        Instruction::SetDelay { x }
    } else if nn == 0x18 {
        Instruction::SetSound { x }
    } else if nn == 0x1E {
        Instruction::AddIndex { x }
    } else if nn == 0x29 {
        Instruction::FontChar { x }
    } else if nn == 0x33 {
        Instruction::StoreBcd { x }
    } else if nn == 0x55 {
        Instruction::StoreRegs { x }
    } else if nn == 0x65 {
        Instruction::LoadRegs { x }
    } else {
        Instruction::Unknown
    }
}

/// What opcode `op` means. Within a family, only the field that tells the
/// members apart is looked at: the low byte for `0`, `E` and `F`, the low
/// nibble for `8`; `5xyN` and `9xyN` ignore `N`.
pub open spec fn decode_spec(op: u16) -> Instruction {
    let f = op_family(op);
    let x = op_x(op);
    let y = op_y(op);
    let nn = op_nn(op);
    let nnn = op_nnn(op);
    if f == 0x0 {
        if nn == 0xE0 {
            Instruction::ClearScreen
        } else if nn == 0xEE {
            Instruction::Return
        } else {
            Instruction::Unknown
        }
    } else if f == 0x1 {
        Instruction::Jump { nnn }
    } else if f == 0x2 {
        Instruction::Call { nnn }
    } else if f == 0x3 {
        Instruction::SkipIfEqImm { x, nn }
    } else if f == 0x4 {
        Instruction::SkipIfNeImm { x, nn }
    } else if f == 0x5 {
        Instruction::SkipIfEqReg { x, y }
    } else if f == 0x6 {
        Instruction::SetImm { x, nn }
    } else if f == 0x7 {
        Instruction::AddImm { x, nn }
    } else if f == 0x8 {
        match alu_op_of(op_n(op)) {
            Some(alu) => Instruction::Alu { op: alu, x, y },
            None => Instruction::Unknown,
        }
    } else if f == 0x9 {
        Instruction::SkipIfNeReg { x, y }
    } else if f == 0xA {
        Instruction::SetIndex { nnn }
    } else if f == 0xB {
        Instruction::JumpOffset { nnn }
    } else if f == 0xC {
        Instruction::Random { x, nn }
    } else if f == 0xD {
        Instruction::Draw { x, y, n: op_n(op) }
    } else if f == 0xE {
        if nn == 0x9E {
            Instruction::SkipIfKey { x }
        } else if nn == 0xA1 {
            Instruction::SkipIfNotKey { x }
        } else {
            Instruction::Unknown
        }
    } else {
        misc_of(x, nn)
    }
}

/// Register fields below 16, addresses below 0x1000: true of every decoded
/// instruction.
pub open spec fn operands_in_range(ins: Instruction) -> bool {
    match ins {
        Instruction::Jump { nnn } | Instruction::Call { nnn } | Instruction::SetIndex { nnn }
        | Instruction::JumpOffset { nnn } => nnn < 0x1000,
        Instruction::SkipIfEqImm { x, .. } | Instruction::SkipIfNeImm { x, .. }
        | Instruction::SetImm { x, .. } | Instruction::AddImm { x, .. }
        | Instruction::Random { x, .. } | Instruction::SkipIfKey { x }
        | Instruction::SkipIfNotKey { x } | Instruction::GetDelay { x }
        | Instruction::WaitKey { x } | Instruction::SetDelay { x } | Instruction::SetSound { x }
        | Instruction::AddIndex { x } | Instruction::FontChar { x } | Instruction::StoreBcd { x }
        | Instruction::StoreRegs { x } | Instruction::LoadRegs { x } => x < 16,
        Instruction::SkipIfEqReg { x, y } | Instruction::SkipIfNeReg { x, y }
        | Instruction::Alu { x, y, .. } => x < 16 && y < 16,
        Instruction::Draw { x, y, n } => x < 16 && y < 16 && n < 16,
        _ => true,
    }
}

/// Every decoded instruction has its operands in range.
pub proof fn lemma_decode_in_range(op: u16)
    ensures
        operands_in_range(decode_spec(op)),
{
}

/// Bits 8..12 of an opcode.
pub fn opcode_x(op: u16) -> (r: u8)
    ensures
        r == op_x(op),
        r < 16,
{
    assert((op & 0x0f00u16) >> 8u16 == (op / 256) % 16) by (bit_vector);
    ((op & 0x0f00) >> 8) as u8
}

/// Bits 4..8 of an opcode.
pub fn opcode_y(op: u16) -> (r: u8)
    ensures
        r == op_y(op),
        r < 16,
{
    assert((op & 0x00f0u16) >> 4u16 == (op / 16) % 16) by (bit_vector);
    ((op & 0x00f0) >> 4) as u8
}

/// Bits 0..4 of an opcode.
pub fn opcode_n(op: u16) -> (r: u8)
    ensures
        r == op_n(op),
        r < 16,
{
    assert(op & 0x000fu16 == op % 16) by (bit_vector);
    (op & 0x000f) as u8
}

/// The low byte of an opcode.
pub fn opcode_nn(op: u16) -> (r: u8)
    ensures
        r == op_nn(op),
{
    assert(op & 0x00ffu16 == op % 256) by (bit_vector);
    (op & 0x00ff) as u8
}

/// The low twelve bits of an opcode.
pub fn opcode_nnn(op: u16) -> (r: u16)
    ensures
        r == op_nnn(op),
        r < 0x1000,
{
    assert(op & 0x0fffu16 == op % 4096) by (bit_vector);
    op & 0x0fff
}

/// The `8xyN` operation selected by `n`.
fn alu_op(n: u8) -> (r: Option<AluOp>)
    ensures
        r == alu_op_of(n),
{
    match n {
        0x0 => Some(AluOp::Assign),
        0x1 => Some(AluOp::Or),
        0x2 => Some(AluOp::And),
        0x3 => Some(AluOp::Xor),
        0x4 => Some(AluOp::Add),
        0x5 => Some(AluOp::Sub),
        0x6 => Some(AluOp::ShiftRight),
        0x7 => Some(AluOp::SubReverse),
        0xE => Some(AluOp::ShiftLeft),
        _ => None,
    }
}

/// The `Fx..` instruction selected by the low byte.
fn misc(x: u8, nn: u8) -> (r: Instruction)
    ensures
        r == misc_of(x, nn),
{
    match nn {
        0x07 => Instruction::GetDelay { x },
        0x0A => Instruction::WaitKey { x },
        0x15 => Instruction::SetDelay { x },
        0x18 => Instruction::SetSound { x },
        0x1E => Instruction::AddIndex { x },
        0x29 => Instruction::FontChar { x },
        0x33 => Instruction::StoreBcd { x },
        0x55 => Instruction::StoreRegs { x },
        0x65 => Instruction::LoadRegs { x },
        _ => Instruction::Unknown,
    }
}

/// Decode one opcode.
pub fn decode(op: u16) -> (r: Instruction)
    ensures
        r == decode_spec(op),
{
    let x = opcode_x(op);
    let y = opcode_y(op);
    let nn = opcode_nn(op);
    let nnn = opcode_nnn(op);
    assert(op >> 12u16 == op / 4096) by (bit_vector);
    match op >> 12 {
        0x0 => {
            if nn == 0xE0 {
                Instruction::ClearScreen
            } else if nn == 0xEE {
                Instruction::Return
            } else {
                Instruction::Unknown
            }
        },
        0x1 => Instruction::Jump { nnn },
        0x2 => Instruction::Call { nnn },
        0x3 => Instruction::SkipIfEqImm { x, nn },
        0x4 => Instruction::SkipIfNeImm { x, nn },
        0x5 => Instruction::SkipIfEqReg { x, y },
        0x6 => Instruction::SetImm { x, nn },
        0x7 => Instruction::AddImm { x, nn },
        0x8 => match alu_op(opcode_n(op)) {
            Some(alu) => Instruction::Alu { op: alu, x, y },
            None => Instruction::Unknown,
        },
        0x9 => Instruction::SkipIfNeReg { x, y },
        0xA => Instruction::SetIndex { nnn },
        0xB => Instruction::JumpOffset { nnn },
        0xC => Instruction::Random { x, nn },
        0xD => Instruction::Draw { x, y, n: opcode_n(op) },
        0xE => {
            if nn == 0x9E {
                Instruction::SkipIfKey { x }
            } else if nn == 0xA1 {
                Instruction::SkipIfNotKey { x }
            } else {
                Instruction::Unknown
            }
        },
        _ => misc(x, nn),
    }
}

} // verus!
