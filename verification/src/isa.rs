//! Decoding of 16-bit instruction words. A word is split into its four
//! hexadecimal nibbles and mapped to a tagged instruction; any word that
//! matches no pattern of the dialect decodes to `None`.

use vstd::prelude::*;

verus! {

/// One decoded instruction. Operand conventions: `x` and `y` are register
/// indices taken from the second and third nibble, `nn` is the low byte,
/// `nnn` the low 12 bits, and `n` the low nibble.
#[derive(Clone, Copy, PartialEq, Eq, Structural, Debug)]
pub enum Instr {
    /// 0000: do nothing.
    Nop,
    /// 00E0: clear the framebuffer.
    Cls,
    /// 00EE: return from a subroutine.
    Ret,
    /// 1NNN: jump to NNN.
    Jump(u16),
    /// 2NNN: call the subroutine at NNN.
    Call(u16),
    /// 3XNN: skip the next instruction if Vx == NN.
    SkipEqImm(u8, u8),
    /// 4XNN: skip the next instruction if Vx != NN.
    SkipNeImm(u8, u8),
    /// 5XY0: skip the next instruction if Vx == Vy.
    SkipEqReg(u8, u8),
    /// 6XNN: Vx = NN.
    SetImm(u8, u8),
    /// 7XNN: Vx = Vx + NN, wrapping.
    AddImm(u8, u8),
    /// 8XY0: Vx = Vy.
    Copy(u8, u8),
    /// 8XY1: Vx |= Vy.
    Or(u8, u8),
    /// 8XY2: Vx &= Vy.
    And(u8, u8),
    /// 8XY3: Vx ^= Vy.
    Xor(u8, u8),
    /// 8XY4: Vx += Vy; VF = 1 on carry, else 0.
    Add(u8, u8),
    /// 8XY5: Vx -= Vy; VF = 0 on borrow, else 1.
    Sub(u8, u8),
    /// 8XY6: VF = least-significant bit of Vx; Vx >>= 1.
    ShiftRight(u8),
    /// 8XY7: Vx = Vy - Vx; VF = 0 on borrow, else 1.
    SubFrom(u8, u8),
    /// 8XYE: VF = most-significant bit of Vx; Vx <<= 1.
    ShiftLeft(u8),
    /// 9XY0: skip the next instruction if Vx != Vy.
    SkipNeReg(u8, u8),
    /// ANNN: I = NNN.
    SetIndex(u16),
    /// BNNN: jump to V0 + NNN (no 12-bit mask on the sum).
    JumpPlusV0(u16),
    /// CXNN: Vx = random byte & NN.
    Random(u8, u8),
    /// DXYN: draw the N-row sprite at I at origin (Vx, Vy).
    Draw(u8, u8, u8),
    /// EX9E: skip the next instruction if key Vx is pressed.
    SkipKey(u8),
    /// EXA1: skip the next instruction if key Vx is not pressed.
    SkipNoKey(u8),
    /// FX07: Vx = delay timer.
    ReadDelay(u8),
    /// FX0A: wait for a key press; retry this instruction until one comes.
    WaitKey(u8),
    /// FX15: delay timer = Vx.
    SetDelay(u8),
    /// FX18: sound timer = Vx.
    SetSound(u8),
    /// FX1E: I = I + Vx, wrapping 16-bit.
    AddIndex(u8),
    /// FX29: I = 5 * Vx, the font glyph base address.
    FontIndex(u8),
    /// FX33: store the decimal digits of Vx at I, I+1, I+2.
    StoreBcd(u8),
    /// FX55: store V0..=Vx into memory starting at I.
    StoreRegs(u8),
    /// FX65: load V0..=Vx from memory starting at I.
    LoadRegs(u8),
}

/// First (most significant) nibble of an instruction word.
pub open spec fn nib1(op: u16) -> u16 {
    (op >> 12) & 0xF
}

/// Second nibble: the X register index.
pub open spec fn nib2(op: u16) -> u16 {
    (op >> 8) & 0xF
}

/// Third nibble: the Y register index.
pub open spec fn nib3(op: u16) -> u16 {
    (op >> 4) & 0xF
}

/// Fourth (least significant) nibble: the N count operand.
pub open spec fn nib4(op: u16) -> u16 {
    op & 0xF
}

/// The 12-bit address operand NNN.
pub open spec fn addr_of(op: u16) -> u16 {
    op & 0xFFF
}

/// The 8-bit immediate operand NN.
pub open spec fn imm_of(op: u16) -> u8 {
    (op & 0xFF) as u8
}

/// Ranges of the pieces of an instruction word.
pub proof fn lemma_operand_bounds(op: u16)
    ensures
        nib1(op) < 16,
        nib2(op) < 16,
        nib3(op) < 16,
        nib4(op) < 16,
        addr_of(op) < 4096,
{
    assert((op >> 12) & 0xF < 16 && (op >> 8) & 0xF < 16 && (op >> 4) & 0xF < 16 && op & 0xF < 16
        && op & 0xFFF < 4096) by (bit_vector);
}

/// What a decoded instruction's operands satisfy by construction:
/// register indices below 16, addresses below 4096, counts below 16.
pub open spec fn instr_wf(instr: Instr) -> bool {
    match instr {
        Instr::Nop => true,
        Instr::Cls => true,
        Instr::Ret => true,
        Instr::Jump(nnn) => nnn < 4096,
        Instr::Call(nnn) => nnn < 4096,
        Instr::SkipEqImm(x, nn) => x < 16,
        Instr::SkipNeImm(x, nn) => x < 16,
        Instr::SkipEqReg(x, y) => x < 16 && y < 16,
        Instr::SetImm(x, nn) => x < 16,
        Instr::AddImm(x, nn) => x < 16,
        Instr::Copy(x, y) => x < 16 && y < 16,
        Instr::Or(x, y) => x < 16 && y < 16,
        Instr::And(x, y) => x < 16 && y < 16,
        Instr::Xor(x, y) => x < 16 && y < 16,
        Instr::Add(x, y) => x < 16 && y < 16,
        Instr::Sub(x, y) => x < 16 && y < 16,
        Instr::ShiftRight(x) => x < 16,
        Instr::SubFrom(x, y) => x < 16 && y < 16,
        Instr::ShiftLeft(x) => x < 16,
        Instr::SkipNeReg(x, y) => x < 16 && y < 16,
        Instr::SetIndex(nnn) => nnn < 4096,
        Instr::JumpPlusV0(nnn) => nnn < 4096,
        Instr::Random(x, nn) => x < 16,
        Instr::Draw(x, y, n) => x < 16 && y < 16 && n < 16,
        Instr::SkipKey(x) => x < 16,
        Instr::SkipNoKey(x) => x < 16,
        Instr::ReadDelay(x) => x < 16,
        Instr::WaitKey(x) => x < 16,
        Instr::SetDelay(x) => x < 16,
        Instr::SetSound(x) => x < 16,
        Instr::AddIndex(x) => x < 16,
        Instr::FontIndex(x) => x < 16,
        Instr::StoreBcd(x) => x < 16,
        Instr::StoreRegs(x) => x < 16,
        Instr::LoadRegs(x) => x < 16,
    }
}

/// The dispatch table over the four nibbles, as a function: the decoded
/// instruction, or `None` for a word outside the dialect.
pub open spec fn spec_decode(op: u16) -> Option<Instr> {
    let d1 = nib1(op);
    let d2 = nib2(op);
    let d3 = nib3(op);
    let d4 = nib4(op);
    let x = d2 as u8;
    let y = d3 as u8;
    let n = d4 as u8;
    let nn = imm_of(op);
    let nnn = addr_of(op);
    if d1 == 0 && d2 == 0 && d3 == 0 && d4 == 0 {
        Some(Instr::Nop)
    } else if d1 == 0 && d2 == 0 && d3 == 0xE && d4 == 0 {
        Some(Instr::Cls)
    } else if d1 == 0 && d2 == 0 && d3 == 0xE && d4 == 0xE {
        Some(Instr::Ret)
    } else if d1 == 1 {
        Some(Instr::Jump(nnn))
    } else if d1 == 2 {
        Some(Instr::Call(nnn))
    } else if d1 == 3 {
        Some(Instr::SkipEqImm(x, nn))
    } else if d1 == 4 {
        Some(Instr::SkipNeImm(x, nn))
    } else if d1 == 5 && d4 == 0 {
        Some(Instr::SkipEqReg(x, y))
    } else if d1 == 6 {
        Some(Instr::SetImm(x, nn))
    } else if d1 == 7 {
        Some(Instr::AddImm(x, nn))
    } else if d1 == 8 && d4 == 0 {
        Some(Instr::Copy(x, y))
    } else if d1 == 8 && d4 == 1 {
        Some(Instr::Or(x, y))
    } else if d1 == 8 && d4 == 2 {
        Some(Instr::And(x, y))
    } else if d1 == 8 && d4 == 3 {
        Some(Instr::Xor(x, y))
    } else if d1 == 8 && d4 == 4 {
        Some(Instr::Add(x, y))
    } else if d1 == 8 && d4 == 5 {
        Some(Instr::Sub(x, y))
    } else if d1 == 8 && d4 == 6 {
        Some(Instr::ShiftRight(x))
    } else if d1 == 8 && d4 == 7 {
        Some(Instr::SubFrom(x, y))
    } else if d1 == 8 && d4 == 0xE {
        Some(Instr::ShiftLeft(x))
    } else if d1 == 9 && d4 == 0 {
        Some(Instr::SkipNeReg(x, y))
    } else if d1 == 0xA {
        Some(Instr::SetIndex(nnn))
    } else if d1 == 0xB {
        Some(Instr::JumpPlusV0(nnn))
    } else if d1 == 0xC {
        Some(Instr::Random(x, nn))
    } else if d1 == 0xD {
        Some(Instr::Draw(x, y, n))
    } else if d1 == 0xE && d3 == 9 && d4 == 0xE {
        Some(Instr::SkipKey(x))
    } else if d1 == 0xE && d3 == 0xA && d4 == 1 {
        Some(Instr::SkipNoKey(x))
    } else if d1 == 0xF && d3 == 0 && d4 == 7 {
        Some(Instr::ReadDelay(x))
    } else if d1 == 0xF && d3 == 0 && d4 == 0xA {
        Some(Instr::WaitKey(x))
    } else if d1 == 0xF && d3 == 1 && d4 == 5 {
        Some(Instr::SetDelay(x))
    } else if d1 == 0xF && d3 == 1 && d4 == 8 {
        Some(Instr::SetSound(x))
    } else if d1 == 0xF && d3 == 1 && d4 == 0xE {
        Some(Instr::AddIndex(x))
    } else if d1 == 0xF && d3 == 2 && d4 == 9 {
        Some(Instr::FontIndex(x))
    } else if d1 == 0xF && d3 == 3 && d4 == 3 {
        Some(Instr::StoreBcd(x))
    } else if d1 == 0xF && d3 == 5 && d4 == 5 {
        Some(Instr::StoreRegs(x))
    } else if d1 == 0xF && d3 == 6 && d4 == 5 {
        Some(Instr::LoadRegs(x))
    } else {
        None
    }
}

/// Every instruction the table yields has well-formed operands.
pub proof fn lemma_decode_wf(op: u16)
    ensures
        spec_decode(op) matches Some(instr) ==> instr_wf(instr),
{
    lemma_operand_bounds(op);
}

/// Split an instruction word into its four nibbles and look it up in the
/// dispatch table.
pub fn decode(op: u16) -> (r: Option<Instr>)
    ensures
        r == spec_decode(op),
        r matches Some(instr) ==> instr_wf(instr),
{
    proof {
        lemma_operand_bounds(op);
    }
    let d1 = (op >> 12) & 0xF;
    let d2 = (op >> 8) & 0xF;
    let d3 = (op >> 4) & 0xF;
    let d4 = op & 0xF;
    let x = d2 as u8;
    let y = d3 as u8;
    let n = d4 as u8;
    let nn = (op & 0xFF) as u8;
    let nnn = op & 0xFFF;
    match (d1, d2, d3, d4) {
        (0, 0, 0, 0) => Some(Instr::Nop),
        (0, 0, 0xE, 0) => Some(Instr::Cls),
        (0, 0, 0xE, 0xE) => Some(Instr::Ret),
        (1, _, _, _) => Some(Instr::Jump(nnn)),
        (2, _, _, _) => Some(Instr::Call(nnn)),
        (3, _, _, _) => Some(Instr::SkipEqImm(x, nn)),
        (4, _, _, _) => Some(Instr::SkipNeImm(x, nn)),
        (5, _, _, 0) => Some(Instr::SkipEqReg(x, y)),
        (6, _, _, _) => Some(Instr::SetImm(x, nn)),
        (7, _, _, _) => Some(Instr::AddImm(x, nn)),
        (8, _, _, 0) => Some(Instr::Copy(x, y)),
        (8, _, _, 1) => Some(Instr::Or(x, y)),
        (8, _, _, 2) => Some(Instr::And(x, y)),
        (8, _, _, 3) => Some(Instr::Xor(x, y)),
        (8, _, _, 4) => Some(Instr::Add(x, y)),
        (8, _, _, 5) => Some(Instr::Sub(x, y)),
        (8, _, _, 6) => Some(Instr::ShiftRight(x)),
        (8, _, _, 7) => Some(Instr::SubFrom(x, y)),
        (8, _, _, 0xE) => Some(Instr::ShiftLeft(x)),
        (9, _, _, 0) => Some(Instr::SkipNeReg(x, y)),
        (0xA, _, _, _) => Some(Instr::SetIndex(nnn)),
        (0xB, _, _, _) => Some(Instr::JumpPlusV0(nnn)),
        (0xC, _, _, _) => Some(Instr::Random(x, nn)),
        (0xD, _, _, _) => Some(Instr::Draw(x, y, n)),
        (0xE, _, 9, 0xE) => Some(Instr::SkipKey(x)),
        (0xE, _, 0xA, 1) => Some(Instr::SkipNoKey(x)),
        (0xF, _, 0, 7) => Some(Instr::ReadDelay(x)),
        (0xF, _, 0, 0xA) => Some(Instr::WaitKey(x)),
        (0xF, _, 1, 5) => Some(Instr::SetDelay(x)),
        (0xF, _, 1, 8) => Some(Instr::SetSound(x)),
        (0xF, _, 1, 0xE) => Some(Instr::AddIndex(x)),
        (0xF, _, 2, 9) => Some(Instr::FontIndex(x)),
        (0xF, _, 3, 3) => Some(Instr::StoreBcd(x)),
        (0xF, _, 5, 5) => Some(Instr::StoreRegs(x)),
        (0xF, _, 6, 5) => Some(Instr::LoadRegs(x)),
        (_, _, _, _) => None,
    }
}

} // verus!
