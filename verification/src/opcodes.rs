//! The instruction decoder: a total, side-effect-free function from a raw
//! 16-bit instruction word to a tagged operation with its operands
//! extracted by nibble position.

use vstd::prelude::*;

verus! {

/// One decoded instruction with its extracted operands.
///
/// `vx` and `vy` are general-register indices (always below 16), `value` an
/// immediate byte, `addr` a 12-bit address, and `n` a 4-bit sprite height.
/// A bit pattern outside the recognized set decodes to `Unrecognized`,
/// which carries the raw word for diagnostic purposes.
#[derive(Debug, Clone, Copy, PartialEq, Eq, Structural)]
pub enum Opcode {
    Clear,
    Return,
    Jump { addr: usize },
    Call { addr: usize },
    SkipIfEqValue { vx: usize, value: u8 },
    SkipIfNotEqValue { vx: usize, value: u8 },
    SkipIfEqRegister { vx: usize, vy: usize },
    SetValue { vx: usize, value: u8 },
    AddValue { vx: usize, value: u8 },
    SetFromRegister { vx: usize, vy: usize },
    BitwiseOr { vx: usize, vy: usize },
    BitwiseAnd { vx: usize, vy: usize },
    BitwiseXor { vx: usize, vy: usize },
    Add { vx: usize, vy: usize },
    Subtract { vx: usize, vy: usize },
    BitwiseShiftRight { vx: usize },
    SubtractReversed { vx: usize, vy: usize },
    BitwiseShiftLeft { vx: usize },
    SkipIfNotEqRegister { vx: usize, vy: usize },
    SetI { addr: usize },
    Draw { vx: usize, vy: usize, n: usize },
    AddIFromRegister { vx: usize },
    StoreBCD { vx: usize },
    StoreRegistersInMemory { vx: usize },
    ReadRegistersFromMemory { vx: usize },
    GetDelayTimerValue { vx: usize },
    SetDelayTimerFromRegister { vx: usize },
    WaitForKeyPress { vx: usize },
    SetIToDigitSpriteLocation { vx: usize },
    SkipIfKeyPressed { vx: usize },
    SkipIfKeyNotPressed { vx: usize },
    Unrecognized { word: u16 },
}

/// Every operand extracted by the decoder is in range: register indices
/// below 16, addresses below 4096, sprite heights below 16.
pub open spec fn wf_opcode(op: Opcode) -> bool {
    match op {
        Opcode::Clear => true,
        Opcode::Return => true,
        Opcode::Jump { addr } => addr < 4096,
        Opcode::Call { addr } => addr < 4096,
        Opcode::SkipIfEqValue { vx, value } => vx < 16,
        Opcode::SkipIfNotEqValue { vx, value } => vx < 16,
        Opcode::SkipIfEqRegister { vx, vy } => vx < 16 && vy < 16,
        Opcode::SetValue { vx, value } => vx < 16,
        Opcode::AddValue { vx, value } => vx < 16,
        Opcode::SetFromRegister { vx, vy } => vx < 16 && vy < 16,
        Opcode::BitwiseOr { vx, vy } => vx < 16 && vy < 16,
        Opcode::BitwiseAnd { vx, vy } => vx < 16 && vy < 16,
        Opcode::BitwiseXor { vx, vy } => vx < 16 && vy < 16,
        Opcode::Add { vx, vy } => vx < 16 && vy < 16,
        Opcode::Subtract { vx, vy } => vx < 16 && vy < 16,
        Opcode::BitwiseShiftRight { vx } => vx < 16,
        Opcode::SubtractReversed { vx, vy } => vx < 16 && vy < 16,
        Opcode::BitwiseShiftLeft { vx } => vx < 16,
        Opcode::SkipIfNotEqRegister { vx, vy } => vx < 16 && vy < 16,
        Opcode::SetI { addr } => addr < 4096,
        Opcode::Draw { vx, vy, n } => vx < 16 && vy < 16 && n < 16,
        Opcode::AddIFromRegister { vx } => vx < 16,
        Opcode::StoreBCD { vx } => vx < 16,
        Opcode::StoreRegistersInMemory { vx } => vx < 16,
        Opcode::ReadRegistersFromMemory { vx } => vx < 16,
        Opcode::GetDelayTimerValue { vx } => vx < 16,
        Opcode::SetDelayTimerFromRegister { vx } => vx < 16,
        Opcode::WaitForKeyPress { vx } => vx < 16,
        Opcode::SetIToDigitSpriteLocation { vx } => vx < 16,
        Opcode::SkipIfKeyPressed { vx } => vx < 16,
        Opcode::SkipIfKeyNotPressed { vx } => vx < 16,
        Opcode::Unrecognized { word } => true,
    }
}

/// What `translate_instruction` returns: the operation selected by the
/// first nibble of the word, with operands taken from the remaining
/// nibble positions.
pub open spec fn spec_decode(word: u16) -> Opcode {
    let family = (word >> 12) & 0xF;
    let vx = ((word >> 8) & 0xF) as usize;
    let vy = ((word >> 4) & 0xF) as usize;
    let n = (word & 0xF) as usize;
    let value = (word & 0xFF) as u8;
    let addr = (word & 0xFFF) as usize;
    if word == 0x00E0 {
        Opcode::Clear
    } else if word == 0x00EE {
        Opcode::Return
    } else if family == 0x1 {
        Opcode::Jump { addr }
    } else if family == 0x2 {
        Opcode::Call { addr }
    } else if family == 0x3 {
        Opcode::SkipIfEqValue { vx, value }
    } else if family == 0x4 {
        Opcode::SkipIfNotEqValue { vx, value }
    } else if family == 0x5 && n == 0 {
        Opcode::SkipIfEqRegister { vx, vy }
    } else if family == 0x6 {
        Opcode::SetValue { vx, value }
    } else if family == 0x7 {
        Opcode::AddValue { vx, value }
    } else if family == 0x8 && n == 0x0 {
        Opcode::SetFromRegister { vx, vy }
    } else if family == 0x8 && n == 0x1 {
        Opcode::BitwiseOr { vx, vy }
    } else if family == 0x8 && n == 0x2 {
        Opcode::BitwiseAnd { vx, vy }
    } else if family == 0x8 && n == 0x3 {
        Opcode::BitwiseXor { vx, vy }
    } else if family == 0x8 && n == 0x4 {
        Opcode::Add { vx, vy }
    } else if family == 0x8 && n == 0x5 {
        Opcode::Subtract { vx, vy }
    } else if family == 0x8 && n == 0x6 {
        Opcode::BitwiseShiftRight { vx }
    } else if family == 0x8 && n == 0x7 {
        Opcode::SubtractReversed { vx, vy }
    } else if family == 0x8 && n == 0xE {
        Opcode::BitwiseShiftLeft { vx }
    } else if family == 0x9 && n == 0 {
        Opcode::SkipIfNotEqRegister { vx, vy }
    } else if family == 0xA {
        Opcode::SetI { addr }
    } else if family == 0xD {
        Opcode::Draw { vx, vy, n }
    } else if family == 0xE && value == 0x9E {
        Opcode::SkipIfKeyPressed { vx }
    } else if family == 0xE && value == 0xA1 {
        Opcode::SkipIfKeyNotPressed { vx }
    } else if family == 0xF && value == 0x07 {
        Opcode::GetDelayTimerValue { vx }
    } else if family == 0xF && value == 0x0A {
        Opcode::WaitForKeyPress { vx }
    } else if family == 0xF && value == 0x15 {
        Opcode::SetDelayTimerFromRegister { vx }
    } else if family == 0xF && value == 0x1E {
        Opcode::AddIFromRegister { vx }
    } else if family == 0xF && value == 0x29 {
        Opcode::SetIToDigitSpriteLocation { vx }
    } else if family == 0xF && value == 0x33 {
        Opcode::StoreBCD { vx }
    } else if family == 0xF && value == 0x55 {
        Opcode::StoreRegistersInMemory { vx }
    } else if family == 0xF && value == 0x65 {
        Opcode::ReadRegistersFromMemory { vx }
    } else {
        Opcode::Unrecognized { word }
    }
}

/// Decoding is total and never fails; every operand comes out in range.
pub fn translate_instruction(word: u16) -> (r: Opcode)
    ensures
        r == spec_decode(word),
        wf_opcode(r),
{
    proof {
        assert(((word >> 12) & 0xF) < 16) by (bit_vector);
        assert(((word >> 8) & 0xF) < 16) by (bit_vector);
        assert(((word >> 4) & 0xF) < 16) by (bit_vector);
        assert((word & 0xF) < 16) by (bit_vector);
        assert((word & 0xFF) < 256) by (bit_vector);
        assert((word & 0xFFF) < 4096) by (bit_vector);
    }
    let family = (word >> 12) & 0xF;
    let vx = ((word >> 8) & 0xF) as usize;
    let vy = ((word >> 4) & 0xF) as usize;
    let n = (word & 0xF) as usize;
    let value = (word & 0xFF) as u8;
    let addr = (word & 0xFFF) as usize;
    if word == 0x00E0 {
        Opcode::Clear
    } else if word == 0x00EE {
        Opcode::Return
    } else if family == 0x1 {
        Opcode::Jump { addr }
    } else if family == 0x2 {
        Opcode::Call { addr }
    } else if family == 0x3 {
        Opcode::SkipIfEqValue { vx, value }
    } else if family == 0x4 {
        Opcode::SkipIfNotEqValue { vx, value }
    } else if family == 0x5 && n == 0 {
        Opcode::SkipIfEqRegister { vx, vy }
    } else if family == 0x6 {
        Opcode::SetValue { vx, value }
    } else if family == 0x7 {
        Opcode::AddValue { vx, value }
    } else if family == 0x8 && n == 0x0 {
        Opcode::SetFromRegister { vx, vy }
    } else if family == 0x8 && n == 0x1 {
        Opcode::BitwiseOr { vx, vy }
    } else if family == 0x8 && n == 0x2 {
        Opcode::BitwiseAnd { vx, vy }
    } else if family == 0x8 && n == 0x3 {
        Opcode::BitwiseXor { vx, vy }
    } else if family == 0x8 && n == 0x4 {
        Opcode::Add { vx, vy }
    } else if family == 0x8 && n == 0x5 {
        Opcode::Subtract { vx, vy }
    } else if family == 0x8 && n == 0x6 {
        Opcode::BitwiseShiftRight { vx }
    } else if family == 0x8 && n == 0x7 {
        Opcode::SubtractReversed { vx, vy }
    } else if family == 0x8 && n == 0xE {
        Opcode::BitwiseShiftLeft { vx }
    } else if family == 0x9 && n == 0 {
        Opcode::SkipIfNotEqRegister { vx, vy }
    } else if family == 0xA {
        Opcode::SetI { addr }
    } else if family == 0xD {
        Opcode::Draw { vx, vy, n }
    } else if family == 0xE && value == 0x9E {
        Opcode::SkipIfKeyPressed { vx }
    } else if family == 0xE && value == 0xA1 {
        Opcode::SkipIfKeyNotPressed { vx }
    } else if family == 0xF && value == 0x07 {
        Opcode::GetDelayTimerValue { vx }
    } else if family == 0xF && value == 0x0A {
        Opcode::WaitForKeyPress { vx }
    } else if family == 0xF && value == 0x15 {
        Opcode::SetDelayTimerFromRegister { vx }
    } else if family == 0xF && value == 0x1E {
        Opcode::AddIFromRegister { vx }
    } else if family == 0xF && value == 0x29 {
        Opcode::SetIToDigitSpriteLocation { vx }
    } else if family == 0xF && value == 0x33 {
        Opcode::StoreBCD { vx }
    } else if family == 0xF && value == 0x55 {
        Opcode::StoreRegistersInMemory { vx }
    } else if family == 0xF && value == 0x65 {
        Opcode::ReadRegistersFromMemory { vx }
    } else {
        Opcode::Unrecognized { word }
    }
}

} // verus!
