//! The instruction set and its decoder.

use vstd::prelude::*;

verus! {

/// One decoded instruction.
///
/// `x` and `y` select registers, `nn` is an immediate byte, `nnn` an immediate
/// address and `n` an immediate nibble.
#[derive(Clone, Copy, Debug, PartialEq, Eq, Structural)]
pub enum Instruction {
    /// `00E0`
    ClearScreen,
    /// `00EE`
    Return,
    /// `1nnn`
    Jump { nnn: u16 },
    /// `2nnn`
    Call { nnn: u16 },
    /// `3xnn`
    SkipIfEqual { x: u8, nn: u8 },
    /// `4xnn`
    SkipIfNotEqual { x: u8, nn: u8 },
    /// `5xy0`
    SkipIfRegistersEqual { x: u8, y: u8 },
    /// `6xnn`
    Load { x: u8, nn: u8 },
    /// `7xnn`
    Add { x: u8, nn: u8 },
    /// `8xy0`
    Move { x: u8, y: u8 },
    /// `8xy1`
    Or { x: u8, y: u8 },
    /// `8xy2`
    And { x: u8, y: u8 },
    /// `8xy3`
    Xor { x: u8, y: u8 },
    /// `8xy4`
    AddRegisters { x: u8, y: u8 },
    /// `8xy5`
    Subtract { x: u8, y: u8 },
    /// `8xy6`
    ShiftRight { x: u8 },
    /// `8xy7`
    SubtractReversed { x: u8, y: u8 },
    /// `8xyE`
    ShiftLeft { x: u8 },
    /// `9xy0`
    SkipIfRegistersNotEqual { x: u8, y: u8 },
    /// `Annn`
    LoadIndex { nnn: u16 },
    /// `Bnnn`
    JumpOffset { nnn: u16 },
    /// `Cxnn`
    Random { x: u8, nn: u8 },
    /// `Dxyn`
    Draw { x: u8, y: u8, n: u8 },
    /// `Ex9E`
    SkipIfKey { x: u8 },
    /// `ExA1`
    SkipIfNotKey { x: u8 },
    /// `Fx07`
    ReadDelay { x: u8 },
    /// `Fx0A`
    WaitKey { x: u8 },
    /// `Fx15`
    SetDelay { x: u8 },
    /// `Fx18`
    SetSound { x: u8 },
    /// `Fx1E`
    AddIndex { x: u8 },
    /// `Fx29`
    Glyph { x: u8 },
    /// `Fx33`
    Bcd { x: u8 },
    /// `Fx55`
    Store { x: u8 },
    /// `Fx65`
    Restore { x: u8 },
    /// Any other opcode.
    Unknown,
}

/// Bits 12-15 of an opcode: the primary selector.
pub open spec fn field_top(opcode: u16) -> int {
    opcode as int / 0x1000
}

/// Bits 8-11 of an opcode: the first register selector.
pub open spec fn field_x(opcode: u16) -> u8 {
    ((opcode as int / 0x100) % 0x10) as u8
}

/// Bits 4-7 of an opcode: the second register selector.
pub open spec fn field_y(opcode: u16) -> u8 {
    ((opcode as int / 0x10) % 0x10) as u8
}

/// Bits 0-3 of an opcode: the immediate nibble.
pub open spec fn field_n(opcode: u16) -> u8 {
    (opcode as int % 0x10) as u8
}

/// Bits 0-7 of an opcode: the immediate byte.
pub open spec fn field_nn(opcode: u16) -> u8 {
    (opcode as int % 0x100) as u8
}

/// Bits 0-11 of an opcode: the immediate address.
pub open spec fn field_nnn(opcode: u16) -> u16 {
    (opcode as int % 0x1000) as u16
}

/// The instruction that an opcode stands for.
pub open spec fn decode_spec(opcode: u16) -> Instruction {
    let x = field_x(opcode);
    let y = field_y(opcode);
    let n = field_n(opcode);
    let nn = field_nn(opcode);
    let nnn = field_nnn(opcode);
    let top = field_top(opcode);
    if top == 0x0 {
        if opcode == 0x00E0 {
            Instruction::ClearScreen
        } else if opcode == 0x00EE {
            Instruction::Return
        } else {
            Instruction::Unknown
        }
    } else if top == 0x1 {
        Instruction::Jump { nnn }
    } else if top == 0x2 {
        Instruction::Call { nnn }
    } else if top == 0x3 {
        Instruction::SkipIfEqual { x, nn }
    } else if top == 0x4 {
        Instruction::SkipIfNotEqual { x, nn }
    } else if top == 0x5 {
        if n == 0 {
            Instruction::SkipIfRegistersEqual { x, y }
        } else {
            Instruction::Unknown
        }
    } else if top == 0x6 {
        Instruction::Load { x, nn }
    } else if top == 0x7 {
        Instruction::Add { x, nn }
    } else if top == 0x8 {
        if n == 0x0 {
            Instruction::Move { x, y }
        } else if n == 0x1 {
            Instruction::Or { x, y }
        } else if n == 0x2 {
            Instruction::And { x, y }
        } else if n == 0x3 {
            Instruction::Xor { x, y }
        } else if n == 0x4 {
            Instruction::AddRegisters { x, y }
        } else if n == 0x5 {
            Instruction::Subtract { x, y }
        } else if n == 0x6 {
            Instruction::ShiftRight { x }
        } else if n == 0x7 {
            Instruction::SubtractReversed { x, y }
        } else if n == 0xE {
            Instruction::ShiftLeft { x }
        } else {
            Instruction::Unknown
        }
    } else if top == 0x9 {
        if n == 0 {
            Instruction::SkipIfRegistersNotEqual { x, y }
        } else {
            Instruction::Unknown
        }
    } else if top == 0xA {
        Instruction::LoadIndex { nnn }
    } else if top == 0xB {
        Instruction::JumpOffset { nnn }
    } else if top == 0xC {
        Instruction::Random { x, nn }
    } else if top == 0xD {
        Instruction::Draw { x, y, n }
    } else if top == 0xE {
        if nn == 0x9E {
            Instruction::SkipIfKey { x }
        } else if nn == 0xA1 {
            Instruction::SkipIfNotKey { x }
        } else {
            Instruction::Unknown
        }
    } else {
        if nn == 0x07 {
            Instruction::ReadDelay { x }
        } else if nn == 0x0A {
            Instruction::WaitKey { x }
        } else if nn == 0x15 {
            Instruction::SetDelay { x }
        } else if nn == 0x18 {
            Instruction::SetSound { x }
        } else if nn == 0x1E {
            Instruction::AddIndex { x }
        } else if nn == 0x29 {
            Instruction::Glyph { x }
        } else if nn == 0x33 {
            Instruction::Bcd { x }
        } else if nn == 0x55 {
            Instruction::Store { x }
        } else if nn == 0x65 {
            Instruction::Restore { x }
        } else {
            Instruction::Unknown
        }
    }
}

impl Instruction {
    /// Every register selector and immediate lies within its field's width.
    pub open spec fn wf(self) -> bool {
        match self {
            Instruction::ClearScreen | Instruction::Return | Instruction::Unknown => true,
            Instruction::Jump { nnn }
            | Instruction::Call { nnn }
            | Instruction::LoadIndex { nnn }
            | Instruction::JumpOffset { nnn } => nnn < 0x1000,
            Instruction::SkipIfEqual { x, nn }
            | Instruction::SkipIfNotEqual { x, nn }
            | Instruction::Load { x, nn }
            | Instruction::Add { x, nn }
            | Instruction::Random { x, nn } => x < 16,
            Instruction::SkipIfRegistersEqual { x, y }
            | Instruction::Move { x, y }
            | Instruction::Or { x, y }
            | Instruction::And { x, y }
            | Instruction::Xor { x, y }
            | Instruction::AddRegisters { x, y }
            | Instruction::Subtract { x, y }
            | Instruction::SubtractReversed { x, y }
            | Instruction::SkipIfRegistersNotEqual { x, y } => x < 16 && y < 16,
            Instruction::Draw { x, y, n } => x < 16 && y < 16 && n < 16,
            Instruction::ShiftRight { x }
            | Instruction::ShiftLeft { x }
            | Instruction::SkipIfKey { x }
            | Instruction::SkipIfNotKey { x }
            | Instruction::ReadDelay { x }
            | Instruction::WaitKey { x }
            | Instruction::SetDelay { x }
            | Instruction::SetSound { x }
            | Instruction::AddIndex { x }
            | Instruction::Glyph { x }
            | Instruction::Bcd { x }
            | Instruction::Store { x }
            | Instruction::Restore { x } => x < 16,
        }
    }
}

/// Decodes one opcode. Total: an opcode outside the instruction set, or one
/// whose primary selector is known but whose sub-selector is not, decodes to
/// `Instruction::Unknown`.
pub fn decode(opcode: u16) -> (instruction: Instruction)
    ensures
        instruction == decode_spec(opcode),
        instruction.wf(),
{
    let top: u16 = opcode >> 12;
    let x: u8 = ((opcode >> 8) & 0xF) as u8;
    let y: u8 = ((opcode >> 4) & 0xF) as u8;
    let n: u8 = (opcode & 0xF) as u8;
    let nn: u8 = (opcode & 0xFF) as u8;
    let nnn: u16 = opcode & 0xFFF;
    proof {
        assert(opcode >> 12 == opcode / 0x1000) by (bit_vector);
        assert((opcode >> 8) & 0xF == (opcode / 0x100) % 0x10) by (bit_vector);
        assert((opcode >> 4) & 0xF == (opcode / 0x10) % 0x10) by (bit_vector);
        assert(opcode & 0xF == opcode % 0x10) by (bit_vector);
        assert(opcode & 0xFF == opcode % 0x100) by (bit_vector);
        assert(opcode & 0xFFF == opcode % 0x1000) by (bit_vector);
    }
    match top {
        0x0 => match opcode {
            0x00E0 => Instruction::ClearScreen,
            0x00EE => Instruction::Return,
            _ => Instruction::Unknown,
        },
        0x1 => Instruction::Jump { nnn },
        0x2 => Instruction::Call { nnn },
        0x3 => Instruction::SkipIfEqual { x, nn },
        0x4 => Instruction::SkipIfNotEqual { x, nn },
        0x5 => match n {
            0x0 => Instruction::SkipIfRegistersEqual { x, y },
            _ => Instruction::Unknown,
        },
        0x6 => Instruction::Load { x, nn },
        0x7 => Instruction::Add { x, nn },
        0x8 => match n {
            0x0 => Instruction::Move { x, y },
            0x1 => Instruction::Or { x, y },
            0x2 => Instruction::And { x, y },
            0x3 => Instruction::Xor { x, y },
            0x4 => Instruction::AddRegisters { x, y },
            0x5 => Instruction::Subtract { x, y },
            0x6 => Instruction::ShiftRight { x },
            0x7 => Instruction::SubtractReversed { x, y },
            0xE => Instruction::ShiftLeft { x },
            _ => Instruction::Unknown,
        },
        0x9 => match n {
            0x0 => Instruction::SkipIfRegistersNotEqual { x, y },
            _ => Instruction::Unknown,
        },
        0xA => Instruction::LoadIndex { nnn },
        0xB => Instruction::JumpOffset { nnn },
        0xC => Instruction::Random { x, nn },
        0xD => Instruction::Draw { x, y, n },
        0xE => match nn {
            0x9E => Instruction::SkipIfKey { x },
            0xA1 => Instruction::SkipIfNotKey { x },
            _ => Instruction::Unknown,
        },
        _ => match nn {
            0x07 => Instruction::ReadDelay { x },
            0x0A => Instruction::WaitKey { x },
            0x15 => Instruction::SetDelay { x },
            0x18 => Instruction::SetSound { x },
            0x1E => Instruction::AddIndex { x },
            0x29 => Instruction::Glyph { x },
            0x33 => Instruction::Bcd { x },
            0x55 => Instruction::Store { x },
            0x65 => Instruction::Restore { x },
            _ => Instruction::Unknown,
        },
    }
}

} // verus!
