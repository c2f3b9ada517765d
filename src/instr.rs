use vstd::prelude::*;

verus! {

/// One decoded CHIP-8 instruction. Register operands are nibbles (0..=15),
/// addresses are 12-bit values.
#[derive(Clone, Copy, Debug, PartialEq, Eq, Structural)]
pub enum Instr {
    /// 0000
    Nop,
    /// 00E0
    Cls,
    /// 00EE
    Ret,
    /// 1NNN
    Jump(u16),
    /// 2NNN
    Call(u16),
    /// 3XNN
    SkipEqImm(u8, u8),
    /// 4XNN
    SkipNeImm(u8, u8),
    /// 5XY0
    SkipEqReg(u8, u8),
    /// 6XNN
    SetImm(u8, u8),
    /// 7XNN
    AddImm(u8, u8),
    /// 8XY0
    Mov(u8, u8),
    /// 8XY1
    Or(u8, u8),
    /// 8XY2
    And(u8, u8),
    /// 8XY3
    Xor(u8, u8),
    /// 8XY4
    AddReg(u8, u8),
    /// 8XY5
    Sub(u8, u8),
    /// 8XY6
    Shr(u8),
    /// 8XY7
    SubRev(u8, u8),
    /// 8XYE
    Shl(u8),
    /// 9XY0
    SkipNeReg(u8, u8),
    /// ANNN
    SetIndex(u16),
    /// BNNN
    JumpV0(u16),
    /// CXNN
    Rand(u8, u8),
    /// DXYN
    Draw(u8, u8, u8),
    /// EX9E
    SkipKey(u8),
    /// EXA1
    SkipNoKey(u8),
    /// FX07
    GetDelay(u8),
    /// FX0A
    WaitKey(u8),
    /// FX15
    SetDelay(u8),
    /// FX18
    SetSound(u8),
    /// FX1E
    AddIndex(u8),
    /// FX29
    Font(u8),
    /// FX33
    Bcd(u8),
    /// FX55
    Store(u8),
    /// FX65
    Load(u8),
}

/// The `k`-th nibble of an instruction word, most significant first.
pub open spec fn nibble(op: u16, k: int) -> u8 {
    if k == 0 {
        (op / 4096) as u8
    } else if k == 1 {
        (op / 256 % 16) as u8
    } else if k == 2 {
        (op / 16 % 16) as u8
    } else {
        (op % 16) as u8
    }
}

/// The CHIP-8 encoding table: which instruction, if any, a word denotes.
pub open spec fn decode_spec(op: u16) -> Option<Instr> {
    let a = nibble(op, 0);
    let x = nibble(op, 1);
    let y = nibble(op, 2);
    let n = nibble(op, 3);
    let nn = (op % 256) as u8;
    let nnn = op % 4096;
    if op == 0x0000 {
        Some(Instr::Nop)
    } else if op == 0x00E0 {
        Some(Instr::Cls)
    } else if op == 0x00EE {
        Some(Instr::Ret)
    } else if a == 1 {
        Some(Instr::Jump(nnn))
    } else if a == 2 {
        Some(Instr::Call(nnn))
    } else if a == 3 {
        Some(Instr::SkipEqImm(x, nn))
    } else if a == 4 {
        Some(Instr::SkipNeImm(x, nn))
    } else if a == 5 && n == 0 {
        Some(Instr::SkipEqReg(x, y))
    } else if a == 6 {
        Some(Instr::SetImm(x, nn))
    } else if a == 7 {
        Some(Instr::AddImm(x, nn))
    } else if a == 8 && n == 0 {
        Some(Instr::Mov(x, y))
    } else if a == 8 && n == 1 {
        Some(Instr::Or(x, y))
    } else if a == 8 && n == 2 {
        Some(Instr::And(x, y))
    } else if a == 8 && n == 3 {
        Some(Instr::Xor(x, y))
    } else if a == 8 && n == 4 {
        Some(Instr::AddReg(x, y))
    } else if a == 8 && n == 5 {
        Some(Instr::Sub(x, y))
    } else if a == 8 && n == 6 {
        Some(Instr::Shr(x))
    } else if a == 8 && n == 7 {
        Some(Instr::SubRev(x, y))
    } else if a == 8 && n == 0xE {
        Some(Instr::Shl(x))
    } else if a == 9 && n == 0 {
        Some(Instr::SkipNeReg(x, y))
    } else if a == 0xA {
        Some(Instr::SetIndex(nnn))
    } else if a == 0xB {
        Some(Instr::JumpV0(nnn))
    } else if a == 0xC {
        Some(Instr::Rand(x, nn))
    } else if a == 0xD {
        Some(Instr::Draw(x, y, n))
    } else if a == 0xE && nn == 0x9E {
        Some(Instr::SkipKey(x))
    } else if a == 0xE && nn == 0xA1 {
        Some(Instr::SkipNoKey(x))
    } else if a == 0xF && nn == 0x07 {
        Some(Instr::GetDelay(x))
    } else if a == 0xF && nn == 0x0A {
        Some(Instr::WaitKey(x))
    } else if a == 0xF && nn == 0x15 {
        Some(Instr::SetDelay(x))
    } else if a == 0xF && nn == 0x18 {
        Some(Instr::SetSound(x))
    } else if a == 0xF && nn == 0x1E {
        Some(Instr::AddIndex(x))
    } else if a == 0xF && nn == 0x29 {
        Some(Instr::Font(x))
    } else if a == 0xF && nn == 0x33 {
        Some(Instr::Bcd(x))
    } else if a == 0xF && nn == 0x55 {
        Some(Instr::Store(x))
    } else if a == 0xF && nn == 0x65 {
        Some(Instr::Load(x))
    } else {
        None
    }
}

/// Register and count operands of a decoded instruction are nibbles.
pub open spec fn operands_in_range(ins: Instr) -> bool {
    match ins {
        Instr::Jump(a) | Instr::Call(a) | Instr::SetIndex(a) | Instr::JumpV0(a) => a < 4096,
        Instr::SkipEqImm(x, _) | Instr::SkipNeImm(x, _) | Instr::SetImm(x, _)
        | Instr::AddImm(x, _) | Instr::Rand(x, _) => x < 16,
        Instr::SkipEqReg(x, y) | Instr::Mov(x, y) | Instr::Or(x, y) | Instr::And(x, y)
        | Instr::Xor(x, y) | Instr::AddReg(x, y) | Instr::Sub(x, y) | Instr::SubRev(x, y)
        | Instr::SkipNeReg(x, y) => x < 16 && y < 16,
        Instr::Draw(x, y, n) => x < 16 && y < 16 && n < 16,
        Instr::Shr(x) | Instr::Shl(x) | Instr::SkipKey(x) | Instr::SkipNoKey(x)
        | Instr::GetDelay(x) | Instr::WaitKey(x) | Instr::SetDelay(x) | Instr::SetSound(x)
        | Instr::AddIndex(x) | Instr::Font(x) | Instr::Bcd(x) | Instr::Store(x)
        | Instr::Load(x) => x < 16,
        _ => true,
    }
}

/// The instructions that only write general registers.
pub open spec fn is_register_op(ins: Instr) -> bool {
    match ins {
        Instr::SetImm(..) | Instr::AddImm(..) | Instr::Mov(..) | Instr::Or(..)
        | Instr::And(..) | Instr::Xor(..) | Instr::AddReg(..) | Instr::Sub(..)
        | Instr::SubRev(..) | Instr::Shr(..) | Instr::Shl(..) | Instr::Rand(..)
        | Instr::GetDelay(..) => true,
        _ => false,
    }
}

/// Splits an instruction word into its four nibbles, most significant first.
pub fn nibbles(op: u16) -> (r: (u8, u8, u8, u8))
    ensures
        r.0 == nibble(op, 0),
        r.1 == nibble(op, 1),
        r.2 == nibble(op, 2),
        r.3 == nibble(op, 3),
        r.0 < 16 && r.1 < 16 && r.2 < 16 && r.3 < 16,
{
    assert((op >> 12u16) == op / 4096) by (bit_vector);
    assert(((op >> 8u16) & 0xFu16) == op / 256 % 16) by (bit_vector);
    assert(((op >> 4u16) & 0xFu16) == op / 16 % 16) by (bit_vector);
    assert((op & 0xFu16) == op % 16) by (bit_vector);
    (
        (op >> 12u16) as u8,
        ((op >> 8u16) & 0xF) as u8,
        ((op >> 4u16) & 0xF) as u8,
        (op & 0xF) as u8,
    )
}

/// Decodes an instruction word; `None` when it matches no CHIP-8 instruction.
pub fn decode(op: u16) -> (r: Option<Instr>)
    ensures
        r == decode_spec(op),
        r matches Some(ins) ==> operands_in_range(ins),
{
    let (a, x, y, n) = nibbles(op);
    let nn = (op & 0xFF) as u8;
    let nnn = op & 0x0FFF;
    assert((op & 0xFFu16) == op % 256) by (bit_vector);
    assert((op & 0x0FFFu16) == op % 4096) by (bit_vector);
    match (a, x, y, n) {
        (0, 0, 0, 0) => Some(Instr::Nop),
        (0, 0, 0xE, 0) => Some(Instr::Cls),
        (0, 0, 0xE, 0xE) => Some(Instr::Ret),
        (1, _, _, _) => Some(Instr::Jump(nnn)),
        (2, _, _, _) => Some(Instr::Call(nnn)),
        (3, _, _, _) => Some(Instr::SkipEqImm(x, nn)),
        (4, _, _, _) => Some(Instr::SkipNeImm(x, nn)),
        (5, _, _, 0) => Some(Instr::SkipEqReg(x, y)),
        (6, _, _, _) => Some(Instr::SetImm(x, nn)),
        (7, _, _, _) => Some(Instr::AddImm(x, nn)),
        (8, _, _, 0) => Some(Instr::Mov(x, y)),
        (8, _, _, 1) => Some(Instr::Or(x, y)),
        (8, _, _, 2) => Some(Instr::And(x, y)),
        (8, _, _, 3) => Some(Instr::Xor(x, y)),
        (8, _, _, 4) => Some(Instr::AddReg(x, y)),
        (8, _, _, 5) => Some(Instr::Sub(x, y)),
        (8, _, _, 6) => Some(Instr::Shr(x)),
        (8, _, _, 7) => Some(Instr::SubRev(x, y)),
        (8, _, _, 0xE) => Some(Instr::Shl(x)),
        (9, _, _, 0) => Some(Instr::SkipNeReg(x, y)),
        (0xA, _, _, _) => Some(Instr::SetIndex(nnn)),
        (0xB, _, _, _) => Some(Instr::JumpV0(nnn)),
        (0xC, _, _, _) => Some(Instr::Rand(x, nn)),
        (0xD, _, _, _) => Some(Instr::Draw(x, y, n)),
        (0xE, _, 0x9, 0xE) => Some(Instr::SkipKey(x)),
        (0xE, _, 0xA, 0x1) => Some(Instr::SkipNoKey(x)),
        (0xF, _, 0x0, 0x7) => Some(Instr::GetDelay(x)),
        (0xF, _, 0x0, 0xA) => Some(Instr::WaitKey(x)),
        (0xF, _, 0x1, 0x5) => Some(Instr::SetDelay(x)),
        (0xF, _, 0x1, 0x8) => Some(Instr::SetSound(x)),
        (0xF, _, 0x1, 0xE) => Some(Instr::AddIndex(x)),
        (0xF, _, 0x2, 0x9) => Some(Instr::Font(x)),
        (0xF, _, 0x3, 0x3) => Some(Instr::Bcd(x)),
        (0xF, _, 0x5, 0x5) => Some(Instr::Store(x)),
        (0xF, _, 0x6, 0x5) => Some(Instr::Load(x)),
        _ => None,
    }
}

} // verus!
