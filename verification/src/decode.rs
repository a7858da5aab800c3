//! Instruction decoding.
//!
//! A 16-bit opcode splits into four 4-bit fields; the highest selects the
//! operation class.  `spec_decode` is the authoritative mapping from opcode
//! words to instructions; the executable `decode` is proved to agree with it.

use vstd::prelude::*;

verus! {

/// A decoded instruction.  Operand meaning: `x`, `y` are register indices
/// (always below 16), `nn` an immediate byte, `nnn` a 12-bit address,
/// `n` a 4-bit sprite height.
pub enum Instr {
    /// 0000: no operation.
    Nop,
    /// 00E0: clear the display.
    Cls,
    /// 00EE: return from a subroutine.
    Ret,
    /// 1NNN: jump.
    Jump(u16),
    /// 2NNN: call a subroutine.
    Call(u16),
    /// 3XNN: skip next instruction if `VX == NN`.
    SkipEqImm(u8, u8),
    /// 4XNN: skip next instruction if `VX != NN`.
    SkipNeImm(u8, u8),
    /// 5XY0: skip next instruction if `VX == VY`.
    SkipEqReg(u8, u8),
    /// 6XNN: `VX := NN`.
    MovImm(u8, u8),
    /// 7XNN: `VX := VX + NN` wrapping.
    AddImm(u8, u8),
    /// 8XY0: `VX := VY`.
    MovReg(u8, u8),
    /// 8XY1: `VX := VX | VY`.
    OrReg(u8, u8),
    /// 8XY2: `VX := VX & VY`.
    AndReg(u8, u8),
    /// 8XY3: `VX := VX ^ VY`.
    XorReg(u8, u8),
    /// 8XY4: `VX := VX + VY` wrapping, `VF` = carry.
    AddReg(u8, u8),
    /// 8XY5: `VX := VX - VY` wrapping, `VF` = 1 on no borrow.
    SubReg(u8, u8),
    /// 8XY6: `VF` = low bit of `VX`, `VX := VX >> 1`.
    ShrReg(u8),
    /// 8XY7: `VX := VY - VX` wrapping, `VF` = 1 on no borrow.
    SubFrom(u8, u8),
    /// 8XYE: `VF` = high bit of `VX`, `VX := VX << 1` (low 8 bits kept).
    ShlReg(u8),
    /// 9XY0: skip next instruction if `VX != VY`.
    SkipNeReg(u8, u8),
    /// ANNN: `I := NNN`.
    MovI(u16),
    /// BNNN: jump to `V0 + NNN`.
    JumpV0(u16),
    /// CXNN: `VX :=` random byte `& NN`.
    Rand(u8, u8),
    /// DXYN: draw an `N`-row sprite from `I` at `(VX, VY)`, `VF` = collision.
    Draw(u8, u8, u8),
    /// EX9E: skip next instruction if key `VX` is pressed.
    SkipKey(u8),
    /// EXA1: skip next instruction if key `VX` is not pressed.
    SkipNoKey(u8),
    /// FX07: `VX := delay_timer`.
    ReadDelay(u8),
    /// FX0A: idle until a key is pressed, then `VX :=` its index.
    WaitKey(u8),
    /// FX15: `delay_timer := VX`.
    WriteDelay(u8),
    /// FX18: `sound_timer := VX`.
    WriteSound(u8),
    /// FX1E: `I := I + VX` wrapping.
    AddI(u8),
    /// FX29: `I :=` address of the font glyph for digit `VX`.
    FontAddr(u8),
    /// FX33: store the decimal digits of `VX` at `I`, `I+1`, `I+2`.
    Bcd(u8),
    /// FX55: store `V0..=VX` into memory at `I`.
    StoreRegs(u8),
    /// FX65: load `V0..=VX` from memory at `I`.
    LoadRegs(u8),
}

/// Highest 4-bit field of an opcode: the operation class.
pub open spec fn nib1(op: u16) -> u16 {
    op / 0x1000
}

/// Second 4-bit field: the `X` register index.
pub open spec fn nib2(op: u16) -> u16 {
    (op / 0x100) % 0x10
}

/// Third 4-bit field: the `Y` register index.
pub open spec fn nib3(op: u16) -> u16 {
    (op / 0x10) % 0x10
}

/// Lowest 4-bit field: `N`.
pub open spec fn nib4(op: u16) -> u16 {
    op % 0x10
}

/// Low byte of an opcode: `NN`.
pub open spec fn low_byte(op: u16) -> u8 {
    (op % 0x100) as u8
}

/// Low 12 bits of an opcode: the address `NNN`.
pub open spec fn addr12(op: u16) -> u16 {
    op % 0x1000
}

/// The instruction an opcode word denotes, or `None` for a pattern outside
/// the recognized set (a fatal decode error in a running machine).
pub open spec fn spec_decode(op: u16) -> Option<Instr> {
    let d1 = nib1(op);
    let d3 = nib3(op);
    let d4 = nib4(op);
    let x = nib2(op) as u8;
    let y = d3 as u8;
    let n = d4 as u8;
    let nn = low_byte(op);
    let nnn = addr12(op);
    if op == 0x0000 {
        Some(Instr::Nop)
    } else if op == 0x00E0 {
        Some(Instr::Cls)
    } else if op == 0x00EE {
        Some(Instr::Ret)
    } else if d1 == 0x1 {
        Some(Instr::Jump(nnn))
    } else if d1 == 0x2 {
        Some(Instr::Call(nnn))
    } else if d1 == 0x3 {
        Some(Instr::SkipEqImm(x, nn))
    } else if d1 == 0x4 {
        Some(Instr::SkipNeImm(x, nn))
    } else if d1 == 0x5 && d4 == 0x0 {
        Some(Instr::SkipEqReg(x, y))
    } else if d1 == 0x6 {
        Some(Instr::MovImm(x, nn))
    } else if d1 == 0x7 {
        Some(Instr::AddImm(x, nn))
    } else if d1 == 0x8 && d4 == 0x0 {
        Some(Instr::MovReg(x, y))
    } else if d1 == 0x8 && d4 == 0x1 {
        Some(Instr::OrReg(x, y))
    } else if d1 == 0x8 && d4 == 0x2 {
        Some(Instr::AndReg(x, y))
    } else if d1 == 0x8 && d4 == 0x3 {
        Some(Instr::XorReg(x, y))
    } else if d1 == 0x8 && d4 == 0x4 {
        Some(Instr::AddReg(x, y))
    } else if d1 == 0x8 && d4 == 0x5 {
        Some(Instr::SubReg(x, y))
    } else if d1 == 0x8 && d4 == 0x6 {
        Some(Instr::ShrReg(x))
    } else if d1 == 0x8 && d4 == 0x7 {
        Some(Instr::SubFrom(x, y))
    } else if d1 == 0x8 && d4 == 0xE {
        Some(Instr::ShlReg(x))
    } else if d1 == 0x9 && d4 == 0x0 {
        Some(Instr::SkipNeReg(x, y))
    } else if d1 == 0xA {
        Some(Instr::MovI(nnn))
    } else if d1 == 0xB {
        Some(Instr::JumpV0(nnn))
    } else if d1 == 0xC {
        Some(Instr::Rand(x, nn))
    } else if d1 == 0xD {
        Some(Instr::Draw(x, y, n))
    } else if d1 == 0xE && d3 == 0x9 && d4 == 0xE {
        Some(Instr::SkipKey(x))
    } else if d1 == 0xE && d3 == 0xA && d4 == 0x1 {
        Some(Instr::SkipNoKey(x))
    } else if d1 == 0xF && d3 == 0x0 && d4 == 0x7 {
        Some(Instr::ReadDelay(x))
    } else if d1 == 0xF && d3 == 0x0 && d4 == 0xA {
        Some(Instr::WaitKey(x))
    } else if d1 == 0xF && d3 == 0x1 && d4 == 0x5 {
        Some(Instr::WriteDelay(x))
    } else if d1 == 0xF && d3 == 0x1 && d4 == 0x8 {
        Some(Instr::WriteSound(x))
    } else if d1 == 0xF && d3 == 0x1 && d4 == 0xE {
        Some(Instr::AddI(x))
    } else if d1 == 0xF && d3 == 0x2 && d4 == 0x9 {
        Some(Instr::FontAddr(x))
    } else if d1 == 0xF && d3 == 0x3 && d4 == 0x3 {
        Some(Instr::Bcd(x))
    } else if d1 == 0xF && d3 == 0x5 && d4 == 0x5 {
        Some(Instr::StoreRegs(x))
    } else if d1 == 0xF && d3 == 0x6 && d4 == 0x5 {
        Some(Instr::LoadRegs(x))
    } else {
        None
    }
}

/// Whether an instruction's operands lie in their decoded ranges: register
/// indices below 16 and addresses below 0x1000.
pub open spec fn instr_wf(inst: Instr) -> bool {
    match inst {
        Instr::Jump(nnn) => nnn < 0x1000,
        Instr::Call(nnn) => nnn < 0x1000,
        Instr::MovI(nnn) => nnn < 0x1000,
        Instr::JumpV0(nnn) => nnn < 0x1000,
        Instr::SkipEqImm(x, _) => x < 16,
        Instr::SkipNeImm(x, _) => x < 16,
        Instr::SkipEqReg(x, y) => x < 16 && y < 16,
        Instr::MovImm(x, _) => x < 16,
        Instr::AddImm(x, _) => x < 16,
        Instr::MovReg(x, y) => x < 16 && y < 16,
        Instr::OrReg(x, y) => x < 16 && y < 16,
        Instr::AndReg(x, y) => x < 16 && y < 16,
        Instr::XorReg(x, y) => x < 16 && y < 16,
        Instr::AddReg(x, y) => x < 16 && y < 16,
        Instr::SubReg(x, y) => x < 16 && y < 16,
        Instr::ShrReg(x) => x < 16,
        Instr::SubFrom(x, y) => x < 16 && y < 16,
        Instr::ShlReg(x) => x < 16,
        Instr::SkipNeReg(x, y) => x < 16 && y < 16,
        Instr::Rand(x, _) => x < 16,
        Instr::Draw(x, y, n) => x < 16 && y < 16 && n < 16,
        Instr::SkipKey(x) => x < 16,
        Instr::SkipNoKey(x) => x < 16,
        Instr::ReadDelay(x) => x < 16,
        Instr::WaitKey(x) => x < 16,
        Instr::WriteDelay(x) => x < 16,
        Instr::WriteSound(x) => x < 16,
        Instr::AddI(x) => x < 16,
        Instr::FontAddr(x) => x < 16,
        Instr::Bcd(x) => x < 16,
        Instr::StoreRegs(x) => x < 16,
        Instr::LoadRegs(x) => x < 16,
        _ => true,
    }
}

/// Every instruction that `spec_decode` yields carries in-range operands.
pub proof fn lemma_decode_wf(op: u16)
    ensures
        match spec_decode(op) {
            Some(inst) => instr_wf(inst),
            None => true,
        },
{
}

/// Decode an opcode word, agreeing exactly with `spec_decode`.
pub fn decode(op: u16) -> (r: Option<Instr>)
    ensures
        r == spec_decode(op),
{
    let d1: u16 = op / 0x1000;
    let d3: u16 = (op / 0x10) % 0x10;
    let d4: u16 = op % 0x10;
    let x: u8 = ((op / 0x100) % 0x10) as u8;
    let y: u8 = d3 as u8;
    let n: u8 = d4 as u8;
    let nn: u8 = (op % 0x100) as u8;
    let nnn: u16 = op % 0x1000;
    if op == 0x0000 {
        Some(Instr::Nop)
    } else if op == 0x00E0 {
        Some(Instr::Cls)
    } else if op == 0x00EE {
        Some(Instr::Ret)
    } else if d1 == 0x1 {
        Some(Instr::Jump(nnn))
    } else if d1 == 0x2 {
        Some(Instr::Call(nnn))
    } else if d1 == 0x3 {
        Some(Instr::SkipEqImm(x, nn))
    } else if d1 == 0x4 {
        Some(Instr::SkipNeImm(x, nn))
    } else if d1 == 0x5 && d4 == 0x0 {
        Some(Instr::SkipEqReg(x, y))
    } else if d1 == 0x6 {
        Some(Instr::MovImm(x, nn))
    } else if d1 == 0x7 {
        Some(Instr::AddImm(x, nn))
    } else if d1 == 0x8 && d4 == 0x0 {
        Some(Instr::MovReg(x, y))
    } else if d1 == 0x8 && d4 == 0x1 {
        Some(Instr::OrReg(x, y))
    } else if d1 == 0x8 && d4 == 0x2 {
        Some(Instr::AndReg(x, y))
    } else if d1 == 0x8 && d4 == 0x3 {
        Some(Instr::XorReg(x, y))
    } else if d1 == 0x8 && d4 == 0x4 {
        Some(Instr::AddReg(x, y))
    } else if d1 == 0x8 && d4 == 0x5 {
        Some(Instr::SubReg(x, y))
    } else if d1 == 0x8 && d4 == 0x6 {
        Some(Instr::ShrReg(x))
    } else if d1 == 0x8 && d4 == 0x7 {
        Some(Instr::SubFrom(x, y))
    } else if d1 == 0x8 && d4 == 0xE {
        Some(Instr::ShlReg(x))
    } else if d1 == 0x9 && d4 == 0x0 {
        Some(Instr::SkipNeReg(x, y))
    } else if d1 == 0xA {
        Some(Instr::MovI(nnn))
    } else if d1 == 0xB {
        Some(Instr::JumpV0(nnn))
    } else if d1 == 0xC {
        Some(Instr::Rand(x, nn))
    } else if d1 == 0xD {
        Some(Instr::Draw(x, y, n))
    } else if d1 == 0xE && d3 == 0x9 && d4 == 0xE {
        Some(Instr::SkipKey(x))
    } else if d1 == 0xE && d3 == 0xA && d4 == 0x1 {
        Some(Instr::SkipNoKey(x))
    } else if d1 == 0xF && d3 == 0x0 && d4 == 0x7 {
        Some(Instr::ReadDelay(x))
    } else if d1 == 0xF && d3 == 0x0 && d4 == 0xA {
        Some(Instr::WaitKey(x))
    } else if d1 == 0xF && d3 == 0x1 && d4 == 0x5 {
        Some(Instr::WriteDelay(x))
    } else if d1 == 0xF && d3 == 0x1 && d4 == 0x8 {
        Some(Instr::WriteSound(x))
    } else if d1 == 0xF && d3 == 0x1 && d4 == 0xE {
        Some(Instr::AddI(x))
    } else if d1 == 0xF && d3 == 0x2 && d4 == 0x9 {
        Some(Instr::FontAddr(x))
    } else if d1 == 0xF && d3 == 0x3 && d4 == 0x3 {
        Some(Instr::Bcd(x))
    } else if d1 == 0xF && d3 == 0x5 && d4 == 0x5 {
        Some(Instr::StoreRegs(x))
    } else if d1 == 0xF && d3 == 0x6 && d4 == 0x5 {
        Some(Instr::LoadRegs(x))
    } else {
        None
    }
}

} // verus!
