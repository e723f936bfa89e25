use yac8::instructions::Instruction;

#[test]
fn decodes_clear_screen() {
    assert_eq!(Instruction::from_op_code(0x00E0), Some(Instruction::ClearScreen));
}

#[test]
fn decodes_jump() {
    assert_eq!(Instruction::from_op_code(0x1ABC), Some(Instruction::Jump(0xABC)));
    assert_eq!(Instruction::from_op_code(0x1000), Some(Instruction::Jump(0)));
}

#[test]
fn decodes_set_and_add_register() {
    assert_eq!(
        Instruction::from_op_code(0x6A42),
        Some(Instruction::SetRegister { reg: 0xA, val: 0x42 })
    );
    assert_eq!(
        Instruction::from_op_code(0x7F01),
        Some(Instruction::AddRegister { reg: 0xF, val: 0x01 })
    );
}

#[test]
fn decodes_set_index_and_draw() {
    assert_eq!(Instruction::from_op_code(0xA123), Some(Instruction::SetI(0x123)));
    assert_eq!(
        Instruction::from_op_code(0xD12F),
        Some(Instruction::Draw { x: 1, y: 2, sprite_size: 0xF })
    );
}

#[test]
fn other_opcodes_are_not_decoded() {
    for op in [0x00EE_u16, 0x00E1, 0x0123, 0x2234, 0x3000, 0x8124, 0xB000, 0xC0FF, 0xE09E, 0xF065] {
        assert_eq!(Instruction::from_op_code(op), None, "{:#x}", op);
    }
}

#[test]
fn decoding_round_trips_on_every_opcode() {
    for op in 0..=u16::MAX {
        if let Some(i) = Instruction::from_op_code(op) {
            let encoded: u16 = match i {
                Instruction::ClearScreen => 0x00E0,
                Instruction::Jump(a) => 0x1000 + a,
                Instruction::SetRegister { reg, val } => 0x6000 + (reg as u16) * 0x100 + val as u16,
                Instruction::AddRegister { reg, val } => 0x7000 + (reg as u16) * 0x100 + val as u16,
                Instruction::SetI(a) => 0xA000 + a,
                Instruction::Draw { x, y, sprite_size } => {
                    0xD000 + (x as u16) * 0x100 + (y as u16) * 0x10 + sprite_size as u16
                }
            };
            assert_eq!(encoded, op);
        }
    }
}
