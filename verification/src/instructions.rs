use vstd::prelude::*;

verus! {

/// The first (most significant) nibble of an opcode.
pub open spec fn op_nib1(op: u16) -> int {
    op as int / 0x1000
}

/// The second nibble of an opcode (usually the register `X`).
pub open spec fn op_nib2(op: u16) -> int {
    (op as int / 0x100) % 0x10
}

/// The third nibble of an opcode (usually the register `Y`).
pub open spec fn op_nib3(op: u16) -> int {
    (op as int / 0x10) % 0x10
}

/// The fourth (least significant) nibble of an opcode (`N`).
pub open spec fn op_nib4(op: u16) -> int {
    op as int % 0x10
}

/// The low byte of an opcode (`NN`).
pub open spec fn op_nn(op: u16) -> int {
    op as int % 0x100
}

/// The low twelve bits of an opcode (`NNN`, an address).
pub open spec fn op_nnn(op: u16) -> int {
    op as int % 0x1000
}

/// The four nibbles of an opcode, computed with masks and shifts, agree with
/// their arithmetic definitions.
pub proof fn lemma_nibbles(op: u16)
    ensures
        (op & 0xF000) >> 12 == op_nib1(op),
        (op & 0x0F00) >> 8 == op_nib2(op),
        (op & 0x00F0) >> 4 == op_nib3(op),
        op & 0x000F == op_nib4(op),
        op & 0x00FF == op_nn(op),
        op & 0x0FFF == op_nnn(op),
        op_nib1(op) < 16,
{
    assert((op & 0xF000) >> 12 == op / 0x1000) by (bit_vector);
    assert((op & 0x0F00) >> 8 == (op / 0x100) % 0x10) by (bit_vector);
    assert((op & 0x00F0) >> 4 == (op / 0x10) % 0x10) by (bit_vector);
    assert(op & 0x000F == op % 0x10) by (bit_vector);
    assert(op & 0x00FF == op % 0x100) by (bit_vector);
    assert(op & 0x0FFF == op % 0x1000) by (bit_vector);
}

/// The instructions that the decoder recognises.
#[derive(Debug, Clone, Copy, PartialEq, Eq, Structural)]
pub enum Instruction {
    /// `00E0`
    ClearScreen,
    /// `1NNN`, with a twelve-bit address.
    Jump(u16),
    /// `6XNN`
    SetRegister { reg: u8, val: u8 },
    /// `7XNN`
    AddRegister { reg: u8, val: u8 },
    /// `ANNN`, with a twelve-bit address.
    SetI(u16),
    /// `DXYN`
    Draw { x: u8, y: u8, sprite_size: u8 },
}

/// What `from_op_code` makes of an opcode.
pub open spec fn decode(op: u16) -> Option<Instruction> {
    let n1 = op_nib1(op);
    let n2 = op_nib2(op);
    let n3 = op_nib3(op);
    let n4 = op_nib4(op);
    if n1 == 0x0 && n2 == 0x0 && n3 == 0xE && n4 == 0x0 {
        Some(Instruction::ClearScreen)
    } else if n1 == 0x1 {
        Some(Instruction::Jump(op_nnn(op) as u16))
    } else if n1 == 0x6 {
        Some(Instruction::SetRegister { reg: n2 as u8, val: op_nn(op) as u8 })
    } else if n1 == 0x7 {
        Some(Instruction::AddRegister { reg: n2 as u8, val: op_nn(op) as u8 })
    } else if n1 == 0xA {
        Some(Instruction::SetI(op_nnn(op) as u16))
    } else if n1 == 0xD {
        Some(Instruction::Draw { x: n2 as u8, y: n3 as u8, sprite_size: n4 as u8 })
    } else {
        None
    }
}

/// An instruction whose operands fit the fields of an opcode.
pub open spec fn encodable(i: Instruction) -> bool {
    match i {
        Instruction::ClearScreen => true,
        Instruction::Jump(a) => a < 0x1000,
        Instruction::SetRegister { reg, val } => reg < 16,
        Instruction::AddRegister { reg, val } => reg < 16,
        Instruction::SetI(a) => a < 0x1000,
        Instruction::Draw { x, y, sprite_size } => x < 16 && y < 16 && sprite_size < 16,
    }
}

/// The opcode that stands for an instruction.
pub open spec fn encode(i: Instruction) -> int {
    match i {
        Instruction::ClearScreen => 0x00E0,
        Instruction::Jump(a) => 0x1000 + a,
        Instruction::SetRegister { reg, val } => 0x6000 + reg * 0x100 + val,
        Instruction::AddRegister { reg, val } => 0x7000 + reg * 0x100 + val,
        Instruction::SetI(a) => 0xA000 + a,
        Instruction::Draw { x, y, sprite_size } => 0xD000 + x * 0x100 + y * 0x10 + sprite_size,
    }
}

impl Instruction {
    /// Decodes an opcode into one of the supported instructions, or `None`
    /// where the opcode is not one of them.
    pub fn from_op_code(op_code: u16) -> (res: Option<Instruction>)
        ensures
            res == decode(op_code),
    {
        proof {
            lemma_nibbles(op_code);
        }
        let nib1 = (op_code & 0xF000) >> 12;
        let nib2 = (op_code & 0x0F00) >> 8;
        let nib3 = (op_code & 0x00F0) >> 4;
        let nib4 = op_code & 0x000F;

        if nib1 == 0x0 && nib2 == 0x0 && nib3 == 0xE && nib4 == 0x0 {
            Some(Instruction::ClearScreen)
        } else if nib1 == 0x1 {
            let address = op_code & 0x0FFF;
            Some(Instruction::Jump(address))
        } else if nib1 == 0x6 {
            let val = op_code & 0x00FF;
            Some(Instruction::SetRegister { reg: nib2 as u8, val: val as u8 })
        } else if nib1 == 0x7 {
            let val = op_code & 0x00FF;
            Some(Instruction::AddRegister { reg: nib2 as u8, val: val as u8 })
        } else if nib1 == 0xA {
            let val = op_code & 0x0FFF;
            Some(Instruction::SetI(val))
        } else if nib1 == 0xD {
            Some(Instruction::Draw { x: nib2 as u8, y: nib3 as u8, sprite_size: nib4 as u8 })
        } else {
            None
        }
    }
}

/// Decoding loses nothing: an opcode that decodes to an instruction is the
/// opcode of that instruction, and the instruction's operands fit an opcode.
pub proof fn lemma_decode_then_encode(op: u16)
    ensures
        decode(op) matches Some(i) ==> encodable(i) && encode(i) == op,
{
}

/// Every instruction with operands that fit an opcode decodes back from its
/// own opcode.
pub proof fn lemma_encode_then_decode(i: Instruction)
    requires
        encodable(i),
    ensures
        0 <= encode(i) <= 0xFFFF,
        decode(encode(i) as u16) == Some(i),
{
    match i {
        Instruction::SetRegister { reg, val } => {
            let r = reg as int;
            let v = val as int;
            assert((0x6000 + r * 0x100 + v) / 0x1000 == 6 && ((0x6000 + r * 0x100 + v) / 0x100)
                % 0x10 == r && (0x6000 + r * 0x100 + v) % 0x100 == v) by (nonlinear_arith)
                requires
                    0 <= r < 16,
                    0 <= v < 256,
            ;
        },
        Instruction::AddRegister { reg, val } => {
            let r = reg as int;
            let v = val as int;
            assert((0x7000 + r * 0x100 + v) / 0x1000 == 7 && ((0x7000 + r * 0x100 + v) / 0x100)
                % 0x10 == r && (0x7000 + r * 0x100 + v) % 0x100 == v) by (nonlinear_arith)
                requires
                    0 <= r < 16,
                    0 <= v < 256,
            ;
        },
        Instruction::Draw { x, y, sprite_size } => {
            let a = x as int;
            let b = y as int;
            let c = sprite_size as int;
            let op = 0xD000 + a * 0x100 + b * 0x10 + c;
            assert(op / 0x1000 == 0xD && (op / 0x100) % 0x10 == a && (op / 0x10) % 0x10 == b
                && op % 0x10 == c) by (nonlinear_arith)
                requires
                    op == 0xD000 + a * 0x100 + b * 0x10 + c,
                    0 <= a < 16,
                    0 <= b < 16,
                    0 <= c < 16,
            ;
        },
        _ => {},
    }
}

} // verus!
