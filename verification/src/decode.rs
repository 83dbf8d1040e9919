use vstd::prelude::*;

verus! {

/// A decoded instruction word. Each variant carries the operand fields the
/// instruction uses: `x` and `y` name general registers (operand nibbles,
/// below sixteen), `n` is the low nibble, `nn` the low byte and `nnn` the
/// twelve-bit address immediate. Instruction words that match no known
/// pattern decode to `Illegal`.
#[derive(Clone, Copy, PartialEq, Eq, Structural, Debug)]
pub enum Instr {
    /// 00E0: clear the display.
    Cls,
    /// 00EE: return from a subroutine.
    Ret,
    /// 1NNN: jump to nnn.
    Jump { nnn: u16 },
    /// 2NNN: call the subroutine at nnn.
    Call { nnn: u16 },
    /// 3XNN: skip the next instruction if VX equals nn.
    SkipEqImm { x: u8, nn: u8 },
    /// 4XNN: skip the next instruction if VX differs from nn.
    SkipNeImm { x: u8, nn: u8 },
    /// 5XY0: skip the next instruction if VX equals VY.
    SkipEqReg { x: u8, y: u8 },
    /// 6XNN: VX := nn.
    LoadImm { x: u8, nn: u8 },
    /// 7XNN: VX := VX + nn, wrapping, carry flag untouched.
    AddImm { x: u8, nn: u8 },
    /// 8XY0: VX := VY.
    Assign { x: u8, y: u8 },
    /// 8XY1: VX := VX | VY.
    Or { x: u8, y: u8 },
    /// 8XY2: VX := VX & VY.
    And { x: u8, y: u8 },
    /// 8XY3: VX := VX ^ VY.
    Xor { x: u8, y: u8 },
    /// 8XY4: VX := VX + VY, wrapping; VF := carry.
    AddReg { x: u8, y: u8 },
    /// 8XY5: VX := VX - VY, wrapping; VF := 1 when no borrow.
    SubReg { x: u8, y: u8 },
    /// 8XY6: shift right by one; VF := the bit shifted out.
    ShiftRight { x: u8, y: u8 },
    /// 8XY7: VX := VY - VX, wrapping; VF := 1 when no borrow.
    SubRev { x: u8, y: u8 },
    /// 8XYE: shift left by one; VF := the bit shifted out.
    ShiftLeft { x: u8, y: u8 },
    /// 9XY0: skip the next instruction if VX differs from VY.
    SkipNeReg { x: u8, y: u8 },
    /// ANNN: I := nnn.
    LoadIndex { nnn: u16 },
    /// BNNN: jump to nnn plus an offset register.
    JumpOffset { nnn: u16 },
    /// CXNN: VX := random byte & nn.
    Random { x: u8, nn: u8 },
    /// DXYN: draw an n-row sprite at (VX, VY); VF := collision.
    Draw { x: u8, y: u8, n: u8 },
    /// EX9E: skip the next instruction if the key named by VX is pressed.
    SkipKey { x: u8 },
    /// EXA1: skip the next instruction if the key named by VX is released.
    SkipNoKey { x: u8 },
    /// FX07: VX := delay timer.
    GetDelay { x: u8 },
    /// FX0A: wait for a key press and store its index in VX.
    WaitKey { x: u8 },
    /// FX15: delay timer := VX.
    SetDelay { x: u8 },
    /// FX18: sound timer := VX.
    SetSound { x: u8 },
    /// FX1E: I := I + VX.
    AddIndex { x: u8 },
    /// FX29: I := the glyph address of the digit in VX.
    FontAddr { x: u8 },
    /// FX33: store the decimal digits of VX at I, I+1, I+2.
    StoreBcd { x: u8 },
    /// FX55: store V0..=VX to memory starting at I.
    StoreRegs { x: u8 },
    /// FX65: load V0..=VX from memory starting at I.
    LoadRegs { x: u8 },
    /// An instruction word that matches no known pattern.
    Illegal,
}

/// The X operand: the low nibble of the high byte.
pub open spec fn op_x(hi: u8) -> u8 {
    hi & 0x0F
}

/// The Y operand: the high nibble of the low byte.
pub open spec fn op_y(lo: u8) -> u8 {
    lo >> 4
}

/// The N operand: the low nibble of the low byte.
pub open spec fn op_n(lo: u8) -> u8 {
    lo & 0x0F
}

/// The twelve-bit address immediate: the low twelve bits of the word.
pub open spec fn op_nnn(hi: u8, lo: u8) -> u16 {
    (((hi & 0x0F) as u16) << 8) | (lo as u16)
}

/// Every operand field of a decoded instruction lies in its range: register
/// operands and the low nibble below sixteen, the address immediate below
/// the memory size.
pub open spec fn instr_wf(ins: Instr) -> bool {
    match ins {
        Instr::Cls => true,
        Instr::Ret => true,
        Instr::Jump { nnn } => nnn < 4096,
        Instr::Call { nnn } => nnn < 4096,
        Instr::SkipEqImm { x, nn } => x < 16,
        Instr::SkipNeImm { x, nn } => x < 16,
        Instr::SkipEqReg { x, y } => x < 16 && y < 16,
        Instr::LoadImm { x, nn } => x < 16,
        Instr::AddImm { x, nn } => x < 16,
        Instr::Assign { x, y } => x < 16 && y < 16,
        Instr::Or { x, y } => x < 16 && y < 16,
        Instr::And { x, y } => x < 16 && y < 16,
        Instr::Xor { x, y } => x < 16 && y < 16,
        Instr::AddReg { x, y } => x < 16 && y < 16,
        Instr::SubReg { x, y } => x < 16 && y < 16,
        Instr::ShiftRight { x, y } => x < 16 && y < 16,
        Instr::SubRev { x, y } => x < 16 && y < 16,
        Instr::ShiftLeft { x, y } => x < 16 && y < 16,
        Instr::SkipNeReg { x, y } => x < 16 && y < 16,
        Instr::LoadIndex { nnn } => nnn < 4096,
        Instr::JumpOffset { nnn } => nnn < 4096,
        Instr::Random { x, nn } => x < 16,
        Instr::Draw { x, y, n } => x < 16 && y < 16 && n < 16,
        Instr::SkipKey { x } => x < 16,
        Instr::SkipNoKey { x } => x < 16,
        Instr::GetDelay { x } => x < 16,
        Instr::WaitKey { x } => x < 16,
        Instr::SetDelay { x } => x < 16,
        Instr::SetSound { x } => x < 16,
        Instr::AddIndex { x } => x < 16,
        Instr::FontAddr { x } => x < 16,
        Instr::StoreBcd { x } => x < 16,
        Instr::StoreRegs { x } => x < 16,
        Instr::LoadRegs { x } => x < 16,
        Instr::Illegal => true,
    }
}

/// The meaning of the two instruction bytes at the program counter: a total
/// map from the instruction word to its decoded form. This is a pure
/// transformation; no machine state is involved.
pub open spec fn decode(hi: u8, lo: u8) -> Instr {
    let x = op_x(hi);
    let y = op_y(lo);
    let n = op_n(lo);
    let nn = lo;
    let nnn = op_nnn(hi, lo);
    let fam = hi >> 4;
    if hi == 0x00 && lo == 0xE0 {
        Instr::Cls
    } else if hi == 0x00 && lo == 0xEE {
        Instr::Ret
    } else if fam == 0x1 {
        Instr::Jump { nnn }
    } else if fam == 0x2 {
        Instr::Call { nnn }
    } else if fam == 0x3 {
        Instr::SkipEqImm { x, nn }
    } else if fam == 0x4 {
        Instr::SkipNeImm { x, nn }
    } else if fam == 0x5 && n == 0x0 {
        Instr::SkipEqReg { x, y }
    } else if fam == 0x6 {
        Instr::LoadImm { x, nn }
    } else if fam == 0x7 {
        Instr::AddImm { x, nn }
    } else if fam == 0x8 && n == 0x0 {
        Instr::Assign { x, y }
    } else if fam == 0x8 && n == 0x1 {
        Instr::Or { x, y }
    } else if fam == 0x8 && n == 0x2 {
        Instr::And { x, y }
    } else if fam == 0x8 && n == 0x3 {
        Instr::Xor { x, y }
    } else if fam == 0x8 && n == 0x4 {
        Instr::AddReg { x, y }
    } else if fam == 0x8 && n == 0x5 {
        Instr::SubReg { x, y }
    } else if fam == 0x8 && n == 0x6 {
        Instr::ShiftRight { x, y }
    } else if fam == 0x8 && n == 0x7 {
        Instr::SubRev { x, y }
    } else if fam == 0x8 && n == 0xE {
        Instr::ShiftLeft { x, y }
    } else if fam == 0x9 && n == 0x0 {
        Instr::SkipNeReg { x, y }
    } else if fam == 0xA {
        Instr::LoadIndex { nnn }
    } else if fam == 0xB {
        Instr::JumpOffset { nnn }
    } else if fam == 0xC {
        Instr::Random { x, nn }
    } else if fam == 0xD {
        Instr::Draw { x, y, n }
    } else if fam == 0xE && lo == 0x9E {
        Instr::SkipKey { x }
    } else if fam == 0xE && lo == 0xA1 {
        Instr::SkipNoKey { x }
    } else if fam == 0xF && lo == 0x07 {
        Instr::GetDelay { x }
    } else if fam == 0xF && lo == 0x0A {
        Instr::WaitKey { x }
    } else if fam == 0xF && lo == 0x15 {
        Instr::SetDelay { x }
    } else if fam == 0xF && lo == 0x18 {
        Instr::SetSound { x }
    } else if fam == 0xF && lo == 0x1E {
        Instr::AddIndex { x }
    } else if fam == 0xF && lo == 0x29 {
        Instr::FontAddr { x }
    } else if fam == 0xF && lo == 0x33 {
        Instr::StoreBcd { x }
    } else if fam == 0xF && lo == 0x55 {
        Instr::StoreRegs { x }
    } else if fam == 0xF && lo == 0x65 {
        Instr::LoadRegs { x }
    } else {
        Instr::Illegal
    }
}

/// Every operand field that `decode` extracts is in range.
pub proof fn lemma_decode_wf(hi: u8, lo: u8)
    ensures
        instr_wf(decode(hi, lo)),
{
    assert(hi & 0x0F < 16) by (bit_vector);
    assert(lo >> 4 < 16) by (bit_vector);
    assert(lo & 0x0F < 16) by (bit_vector);
    assert((((hi & 0x0F) as u16) << 8) | (lo as u16) < 4096) by (bit_vector);
}

/// Decodes the two bytes of one instruction word. Pure and side-effect free.
pub fn decode_bytes(hi: u8, lo: u8) -> (r: Instr)
    ensures
        r == decode(hi, lo),
        instr_wf(r),
{
    proof {
        lemma_decode_wf(hi, lo);
    }
    let x = hi & 0x0F;
    let y = lo >> 4;
    let n = lo & 0x0F;
    let nn = lo;
    let nnn: u16 = (((hi & 0x0F) as u16) << 8) | (lo as u16);
    let fam = hi >> 4;
    if hi == 0x00 && lo == 0xE0 {
        Instr::Cls
    } else if hi == 0x00 && lo == 0xEE {
        Instr::Ret
    } else if fam == 0x1 {
        Instr::Jump { nnn }
    } else if fam == 0x2 {
        Instr::Call { nnn }
    } else if fam == 0x3 {
        Instr::SkipEqImm { x, nn }
    } else if fam == 0x4 {
        Instr::SkipNeImm { x, nn }
    } else if fam == 0x5 && n == 0x0 {
        Instr::SkipEqReg { x, y }
    } else if fam == 0x6 {
        Instr::LoadImm { x, nn }
    } else if fam == 0x7 {
        Instr::AddImm { x, nn }
    } else if fam == 0x8 && n == 0x0 {
        Instr::Assign { x, y }
    } else if fam == 0x8 && n == 0x1 {
        Instr::Or { x, y }
    } else if fam == 0x8 && n == 0x2 {
        Instr::And { x, y }
    } else if fam == 0x8 && n == 0x3 {
        Instr::Xor { x, y }
    } else if fam == 0x8 && n == 0x4 {
        Instr::AddReg { x, y }
    } else if fam == 0x8 && n == 0x5 {
        Instr::SubReg { x, y }
    } else if fam == 0x8 && n == 0x6 {
        Instr::ShiftRight { x, y }
    } else if fam == 0x8 && n == 0x7 {
        Instr::SubRev { x, y }
    } else if fam == 0x8 && n == 0xE {
        Instr::ShiftLeft { x, y }
    } else if fam == 0x9 && n == 0x0 {
        Instr::SkipNeReg { x, y }
    } else if fam == 0xA {
        Instr::LoadIndex { nnn }
    } else if fam == 0xB {
        Instr::JumpOffset { nnn }
    } else if fam == 0xC {
        Instr::Random { x, nn }
    } else if fam == 0xD {
        Instr::Draw { x, y, n }
    } else if fam == 0xE && lo == 0x9E {
        Instr::SkipKey { x }
    } else if fam == 0xE && lo == 0xA1 {
        Instr::SkipNoKey { x }
    } else if fam == 0xF && lo == 0x07 {
        Instr::GetDelay { x }
    } else if fam == 0xF && lo == 0x0A {
        Instr::WaitKey { x }
    } else if fam == 0xF && lo == 0x15 {
        Instr::SetDelay { x }
    } else if fam == 0xF && lo == 0x18 {
        Instr::SetSound { x }
    } else if fam == 0xF && lo == 0x1E {
        Instr::AddIndex { x }
    } else if fam == 0xF && lo == 0x29 {
        Instr::FontAddr { x }
    } else if fam == 0xF && lo == 0x33 {
        Instr::StoreBcd { x }
    } else if fam == 0xF && lo == 0x55 {
        Instr::StoreRegs { x }
    } else if fam == 0xF && lo == 0x65 {
        Instr::LoadRegs { x }
    } else {
        Instr::Illegal
    }
}

} // verus!
