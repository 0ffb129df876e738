use chip8::alu::alu;
use chip8::decode::{decode, opcode_n, opcode_nn, opcode_nnn, opcode_x, opcode_y, AluOp, Instruction};

#[test]
fn opcode_fields() {
    assert_eq!(opcode_x(0xD7A3), 0x7);
    assert_eq!(opcode_y(0xD7A3), 0xA);
    assert_eq!(opcode_n(0xD7A3), 0x3);
    assert_eq!(opcode_nn(0xD7A3), 0xA3);
    assert_eq!(opcode_nnn(0xD7A3), 0x7A3);
}

#[test]
fn decodes_every_family() {
    assert_eq!(decode(0x00E0), Instruction::ClearScreen);
    assert_eq!(decode(0x00EE), Instruction::Return);
    assert_eq!(decode(0x0123), Instruction::Unknown);
    assert_eq!(decode(0x1ABC), Instruction::Jump { nnn: 0xABC });
    assert_eq!(decode(0x2ABC), Instruction::Call { nnn: 0xABC });
    assert_eq!(decode(0x3A12), Instruction::SkipIfEqImm { x: 0xA, nn: 0x12 });
    assert_eq!(decode(0x4A12), Instruction::SkipIfNeImm { x: 0xA, nn: 0x12 });
    assert_eq!(decode(0x5AB0), Instruction::SkipIfEqReg { x: 0xA, y: 0xB });
    assert_eq!(decode(0x6A12), Instruction::SetImm { x: 0xA, nn: 0x12 });
    assert_eq!(decode(0x7A12), Instruction::AddImm { x: 0xA, nn: 0x12 });
    assert_eq!(decode(0x9AB0), Instruction::SkipIfNeReg { x: 0xA, y: 0xB });
    assert_eq!(decode(0xA123), Instruction::SetIndex { nnn: 0x123 });
    assert_eq!(decode(0xB123), Instruction::JumpOffset { nnn: 0x123 });
    assert_eq!(decode(0xC3FF), Instruction::Random { x: 3, nn: 0xFF });
    assert_eq!(decode(0xD12F), Instruction::Draw { x: 1, y: 2, n: 0xF });
    assert_eq!(decode(0xE59E), Instruction::SkipIfKey { x: 5 });
    assert_eq!(decode(0xE5A1), Instruction::SkipIfNotKey { x: 5 });
    assert_eq!(decode(0xE5A2), Instruction::Unknown);
    assert_eq!(decode(0xF107), Instruction::GetDelay { x: 1 });
    assert_eq!(decode(0xF10A), Instruction::WaitKey { x: 1 });
    assert_eq!(decode(0xF115), Instruction::SetDelay { x: 1 });
    assert_eq!(decode(0xF118), Instruction::SetSound { x: 1 });
    assert_eq!(decode(0xF11E), Instruction::AddIndex { x: 1 });
    assert_eq!(decode(0xF129), Instruction::FontChar { x: 1 });
    assert_eq!(decode(0xF133), Instruction::StoreBcd { x: 1 });
    assert_eq!(decode(0xF155), Instruction::StoreRegs { x: 1 });
    assert_eq!(decode(0xF165), Instruction::LoadRegs { x: 1 });
    assert_eq!(decode(0xF166), Instruction::Unknown);
}

#[test]
fn decodes_alu_family() {
    let ops = [
        (0x0, AluOp::Assign),
        (0x1, AluOp::Or),
        (0x2, AluOp::And),
        (0x3, AluOp::Xor),
        (0x4, AluOp::Add),
        (0x5, AluOp::Sub),
        (0x6, AluOp::ShiftRight),
        (0x7, AluOp::SubReverse),
        (0xE, AluOp::ShiftLeft),
    ];
    for (n, op) in ops {
        assert_eq!(decode(0x8340 | n), Instruction::Alu { op, x: 3, y: 4 });
    }
    for n in [0x8u16, 0x9, 0xA, 0xB, 0xC, 0xD, 0xF] {
        assert_eq!(decode(0x8340 | n), Instruction::Unknown);
    }
}

#[test]
fn every_opcode_decodes_with_operands_in_range() {
    for op in 0..=u16::MAX {
        match decode(op) {
            Instruction::Alu { x, y, .. } | Instruction::SkipIfEqReg { x, y } | Instruction::SkipIfNeReg { x, y } => {
                assert!(x < 16 && y < 16)
            }
            Instruction::Draw { x, y, n } => assert!(x < 16 && y < 16 && n < 16),
            Instruction::Jump { nnn } | Instruction::Call { nnn } | Instruction::SetIndex { nnn } | Instruction::JumpOffset { nnn } => {
                assert!(nnn < 0x1000)
            }
            _ => {}
        }
    }
}

#[test]
fn alu_results() {
    assert_eq!(alu(AluOp::Add, 255, 1), (0, Some(1)));
    assert_eq!(alu(AluOp::Add, 128, 128), (0, Some(1)));
    assert_eq!(alu(AluOp::Add, 0, 0), (0, Some(0)));
    assert_eq!(alu(AluOp::Sub, 0, 0), (0, Some(1)));
    assert_eq!(alu(AluOp::Sub, 0, 255), (1, Some(0)));
    assert_eq!(alu(AluOp::Sub, 255, 0), (255, Some(1)));
    assert_eq!(alu(AluOp::SubReverse, 255, 0), (1, Some(0)));
    assert_eq!(alu(AluOp::ShiftRight, 0x81, 0), (0x40, Some(1)));
    assert_eq!(alu(AluOp::ShiftLeft, 0x81, 0), (0x02, Some(1)));
    assert_eq!(alu(AluOp::Xor, 0xF0, 0xFF), (0x0F, None));
}
