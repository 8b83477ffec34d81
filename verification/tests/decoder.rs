//! Table-driven decoder checks: one constructed bit pattern per
//! recognized instruction family, with the expected operand values.

use chip8::opcodes::{translate_instruction, Opcode};

#[test]
fn decode_clear_and_return() {
    assert_eq!(translate_instruction(0x00E0), Opcode::Clear);
    assert_eq!(translate_instruction(0x00EE), Opcode::Return);
}

#[test]
fn decode_jump_and_call() {
    assert_eq!(translate_instruction(0x1234), Opcode::Jump { addr: 0x234 });
    assert_eq!(translate_instruction(0x2ABC), Opcode::Call { addr: 0xABC });
}

#[test]
fn decode_skip_immediate_family() {
    assert_eq!(
        translate_instruction(0x3A7F),
        Opcode::SkipIfEqValue { vx: 0xA, value: 0x7F }
    );
    assert_eq!(
        translate_instruction(0x4B01),
        Opcode::SkipIfNotEqValue { vx: 0xB, value: 0x01 }
    );
    assert_eq!(
        translate_instruction(0x5120),
        Opcode::SkipIfEqRegister { vx: 1, vy: 2 }
    );
    assert_eq!(
        translate_instruction(0x9340),
        Opcode::SkipIfNotEqRegister { vx: 3, vy: 4 }
    );
}

#[test]
fn decode_immediate_family() {
    assert_eq!(
        translate_instruction(0x6C55),
        Opcode::SetValue { vx: 0xC, value: 0x55 }
    );
    assert_eq!(
        translate_instruction(0x7D10),
        Opcode::AddValue { vx: 0xD, value: 0x10 }
    );
}

#[test]
fn decode_register_alu_family() {
    assert_eq!(
        translate_instruction(0x8120),
        Opcode::SetFromRegister { vx: 1, vy: 2 }
    );
    assert_eq!(translate_instruction(0x8341), Opcode::BitwiseOr { vx: 3, vy: 4 });
    assert_eq!(translate_instruction(0x8562), Opcode::BitwiseAnd { vx: 5, vy: 6 });
    assert_eq!(translate_instruction(0x8783), Opcode::BitwiseXor { vx: 7, vy: 8 });
    assert_eq!(translate_instruction(0x89A4), Opcode::Add { vx: 9, vy: 0xA });
    assert_eq!(translate_instruction(0x8BC5), Opcode::Subtract { vx: 0xB, vy: 0xC });
    assert_eq!(translate_instruction(0x8D06), Opcode::BitwiseShiftRight { vx: 0xD });
    assert_eq!(
        translate_instruction(0x8EF7),
        Opcode::SubtractReversed { vx: 0xE, vy: 0xF }
    );
    assert_eq!(translate_instruction(0x810E), Opcode::BitwiseShiftLeft { vx: 1 });
}

#[test]
fn decode_index_and_draw() {
    assert_eq!(translate_instruction(0xA9E5), Opcode::SetI { addr: 0x9E5 });
    assert_eq!(translate_instruction(0xD125), Opcode::Draw { vx: 1, vy: 2, n: 5 });
}

#[test]
fn decode_key_family() {
    assert_eq!(translate_instruction(0xE29E), Opcode::SkipIfKeyPressed { vx: 2 });
    assert_eq!(translate_instruction(0xE3A1), Opcode::SkipIfKeyNotPressed { vx: 3 });
    assert_eq!(translate_instruction(0xF50A), Opcode::WaitForKeyPress { vx: 5 });
}

#[test]
fn decode_timer_family() {
    assert_eq!(translate_instruction(0xF407), Opcode::GetDelayTimerValue { vx: 4 });
    assert_eq!(
        translate_instruction(0xF615),
        Opcode::SetDelayTimerFromRegister { vx: 6 }
    );
}

#[test]
fn decode_memory_family() {
    assert_eq!(translate_instruction(0xF71E), Opcode::AddIFromRegister { vx: 7 });
    assert_eq!(
        translate_instruction(0xF829),
        Opcode::SetIToDigitSpriteLocation { vx: 8 }
    );
    assert_eq!(translate_instruction(0xF933), Opcode::StoreBCD { vx: 9 });
    assert_eq!(
        translate_instruction(0xFA55),
        Opcode::StoreRegistersInMemory { vx: 0xA }
    );
    assert_eq!(
        translate_instruction(0xFB65),
        Opcode::ReadRegistersFromMemory { vx: 0xB }
    );
}

#[test]
fn decode_unrecognized_patterns() {
    assert_eq!(
        translate_instruction(0xB123),
        Opcode::Unrecognized { word: 0xB123 }
    );
    assert_eq!(
        translate_instruction(0xC077),
        Opcode::Unrecognized { word: 0xC077 }
    );
    assert_eq!(
        translate_instruction(0x5121),
        Opcode::Unrecognized { word: 0x5121 }
    );
    assert_eq!(
        translate_instruction(0x8128),
        Opcode::Unrecognized { word: 0x8128 }
    );
    assert_eq!(
        translate_instruction(0xF018),
        Opcode::Unrecognized { word: 0xF018 }
    );
    assert_eq!(
        translate_instruction(0x0123),
        Opcode::Unrecognized { word: 0x0123 }
    );
}
