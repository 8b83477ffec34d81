//! Executing small programs through whole fetch-decode-execute cycles
//! and checking registers, memory, timers, the stack and the display.

use chip8::machine::{Emulator, Fault};
use chip8::opcodes::Opcode;

fn boot(rom: Vec<u8>) -> Emulator {
    Emulator::init(rom).unwrap()
}

fn step_n(emulator: &mut Emulator, n: usize) {
    for _ in 0..n {
        emulator.next_instruction().unwrap();
    }
}

#[test]
fn clear_set_add_scenario() {
    // clear, set register 0 to 5, add 3 to register 0
    let mut emulator = boot(vec![0x00, 0xE0, 0x60, 0x05, 0x70, 0x03]);
    step_n(&mut emulator, 3);
    assert_eq!(emulator.get_register(0), 8);
    let fb = emulator.get_framebuffer();
    assert_eq!(fb.len(), 32);
    for row in fb {
        assert_eq!(row.len(), 64);
        assert!(row.iter().all(|&pixel| !pixel));
    }
}

#[test]
fn add_registers_with_carry() {
    let mut emulator = boot(vec![0x60, 200, 0x61, 100, 0x80, 0x14]);
    step_n(&mut emulator, 3);
    assert_eq!(emulator.get_register(0), 44); // (200 + 100) mod 256
    assert_eq!(emulator.get_register(0xF), 1);
}

#[test]
fn add_registers_without_carry() {
    let mut emulator = boot(vec![0x60, 10, 0x61, 20, 0x80, 0x14]);
    step_n(&mut emulator, 3);
    assert_eq!(emulator.get_register(0), 30);
    assert_eq!(emulator.get_register(0xF), 0);
}

#[test]
fn add_immediate_wraps_without_flag() {
    let mut emulator = boot(vec![0x60, 0xFF, 0x6F, 0x07, 0x70, 0x02]);
    step_n(&mut emulator, 3);
    assert_eq!(emulator.get_register(0), 1); // 255 + 2 wraps
    assert_eq!(emulator.get_register(0xF), 7); // add-immediate leaves the flag alone
}

#[test]
fn subtract_borrow_flag_is_strict() {
    // 50 - 60: borrow needed, flag 0, wrapped result
    let mut emulator = boot(vec![0x60, 50, 0x61, 60, 0x80, 0x15]);
    step_n(&mut emulator, 3);
    assert_eq!(emulator.get_register(0), 246);
    assert_eq!(emulator.get_register(0xF), 0);
    // 60 - 50: no borrow, flag 1
    let mut emulator = boot(vec![0x60, 60, 0x61, 50, 0x80, 0x15]);
    step_n(&mut emulator, 3);
    assert_eq!(emulator.get_register(0), 10);
    assert_eq!(emulator.get_register(0xF), 1);
    // equal operands: not strictly greater, flag 0
    let mut emulator = boot(vec![0x60, 50, 0x61, 50, 0x80, 0x15]);
    step_n(&mut emulator, 3);
    assert_eq!(emulator.get_register(0), 0);
    assert_eq!(emulator.get_register(0xF), 0);
}

#[test]
fn subtract_reversed_borrow_flag() {
    // register 1 minus register 0: 60 - 10
    let mut emulator = boot(vec![0x60, 10, 0x61, 60, 0x80, 0x17]);
    step_n(&mut emulator, 3);
    assert_eq!(emulator.get_register(0), 50);
    assert_eq!(emulator.get_register(0xF), 1);
}

#[test]
fn shift_right_carries_low_bit_out() {
    let mut emulator = boot(vec![0x60, 0x05, 0x80, 0x06]);
    step_n(&mut emulator, 2);
    assert_eq!(emulator.get_register(0), 2);
    assert_eq!(emulator.get_register(0xF), 1);
    let mut emulator = boot(vec![0x60, 0x04, 0x80, 0x06]);
    step_n(&mut emulator, 2);
    assert_eq!(emulator.get_register(0), 2);
    assert_eq!(emulator.get_register(0xF), 0);
}

#[test]
fn shift_left_carries_high_bit_out() {
    let mut emulator = boot(vec![0x60, 0x81, 0x80, 0x0E]);
    step_n(&mut emulator, 2);
    assert_eq!(emulator.get_register(0), 0x02);
    assert_eq!(emulator.get_register(0xF), 1);
    let mut emulator = boot(vec![0x60, 0x41, 0x80, 0x0E]);
    step_n(&mut emulator, 2);
    assert_eq!(emulator.get_register(0), 0x82);
    assert_eq!(emulator.get_register(0xF), 0);
}

#[test]
fn bitwise_or_and_xor() {
    let mut emulator = boot(vec![0x60, 0b1100, 0x61, 0b1010, 0x80, 0x11]);
    step_n(&mut emulator, 3);
    assert_eq!(emulator.get_register(0), 0b1110);
    let mut emulator = boot(vec![0x60, 0b1100, 0x61, 0b1010, 0x80, 0x12]);
    step_n(&mut emulator, 3);
    assert_eq!(emulator.get_register(0), 0b1000);
    let mut emulator = boot(vec![0x60, 0b1100, 0x61, 0b1010, 0x80, 0x13]);
    step_n(&mut emulator, 3);
    assert_eq!(emulator.get_register(0), 0b0110);
}

#[test]
fn copy_register() {
    let mut emulator = boot(vec![0x61, 99, 0x80, 0x10]);
    step_n(&mut emulator, 2);
    assert_eq!(emulator.get_register(0), 99);
}

#[test]
fn jump_sets_program_counter() {
    let mut emulator = boot(vec![0x12, 0x34]);
    step_n(&mut emulator, 1);
    assert_eq!(emulator.get_pc(), 0x234);
}

#[test]
fn call_then_return_round_trip() {
    // call 0x300; at 0x300 a return
    let mut rom = vec![0u8; 0x102];
    rom[0] = 0x23;
    rom[1] = 0x00;
    rom[0x100] = 0x00;
    rom[0x101] = 0xEE;
    let mut emulator = boot(rom);
    assert_eq!(emulator.get_stack_pointer(), 0);
    step_n(&mut emulator, 1);
    assert_eq!(emulator.get_pc(), 0x300);
    assert_eq!(emulator.get_stack_pointer(), 1);
    step_n(&mut emulator, 1);
    assert_eq!(emulator.get_pc(), 0x202); // instruction right after the call
    assert_eq!(emulator.get_stack_pointer(), 0);
}

#[test]
fn skip_if_equal_immediate() {
    let mut emulator = boot(vec![0x60, 0x07, 0x30, 0x07]);
    step_n(&mut emulator, 2);
    assert_eq!(emulator.get_pc(), 0x206); // skipped one instruction
    let mut emulator = boot(vec![0x60, 0x07, 0x30, 0x08]);
    step_n(&mut emulator, 2);
    assert_eq!(emulator.get_pc(), 0x204);
}

#[test]
fn skip_register_comparisons() {
    let mut emulator = boot(vec![0x60, 5, 0x61, 5, 0x50, 0x10]);
    step_n(&mut emulator, 3);
    assert_eq!(emulator.get_pc(), 0x208); // equal registers: skip
    let mut emulator = boot(vec![0x60, 5, 0x61, 6, 0x90, 0x10]);
    step_n(&mut emulator, 3);
    assert_eq!(emulator.get_pc(), 0x208); // unequal registers: skip
    let mut emulator = boot(vec![0x60, 5, 0x61, 6, 0x40, 0x05]);
    step_n(&mut emulator, 3);
    assert_eq!(emulator.get_pc(), 0x206); // "not equal 5" is false: no skip
}

#[test]
fn store_bcd_zero_pads_small_values() {
    // value 7 must come out as the three bytes 0, 0, 7
    let mut emulator = boot(vec![0x60, 0x07, 0xA3, 0x00, 0xF0, 0x33]);
    step_n(&mut emulator, 3);
    assert_eq!(emulator.read_memory(0x300), 0);
    assert_eq!(emulator.read_memory(0x301), 0);
    assert_eq!(emulator.read_memory(0x302), 7);
}

#[test]
fn store_bcd_three_digits() {
    let mut emulator = boot(vec![0x60, 234, 0xA3, 0x00, 0xF0, 0x33]);
    step_n(&mut emulator, 3);
    assert_eq!(emulator.read_memory(0x300), 2);
    assert_eq!(emulator.read_memory(0x301), 3);
    assert_eq!(emulator.read_memory(0x302), 4);
}

#[test]
fn block_store_then_load_round_trips() {
    let mut emulator = boot(vec![
        0x60, 11, 0x61, 22, 0x62, 33, 0x63, 44, // registers 0..=3
        0xA3, 0x00, // index register to 0x300
        0xF3, 0x55, // store registers 0..=3
        0x60, 9, 0x61, 9, 0x62, 9, 0x63, 9, // clobber them
        0xF3, 0x65, // load registers 0..=3 back
    ]);
    step_n(&mut emulator, 11);
    assert_eq!(emulator.get_register(0), 11);
    assert_eq!(emulator.get_register(1), 22);
    assert_eq!(emulator.get_register(2), 33);
    assert_eq!(emulator.get_register(3), 44);
    assert_eq!(emulator.read_memory(0x300), 11);
    assert_eq!(emulator.read_memory(0x303), 44);
    assert_eq!(emulator.get_register(4), 0); // register 4 stays untouched
}

#[test]
fn delay_timer_floors_at_zero() {
    let mut emulator = boot(vec![]);
    assert_eq!(emulator.get_delay_timer(), 0);
    emulator.decrement_delay_timer();
    assert_eq!(emulator.get_delay_timer(), 0);
}

#[test]
fn delay_timer_set_read_and_decrement() {
    let mut emulator = boot(vec![0x60, 0x05, 0xF0, 0x15, 0xF1, 0x07]);
    step_n(&mut emulator, 2);
    emulator.decrement_delay_timer();
    step_n(&mut emulator, 1);
    assert_eq!(emulator.get_register(1), 4);
}

#[test]
fn index_register_operations() {
    let mut emulator = boot(vec![0xA1, 0x23, 0x60, 0x10, 0xF0, 0x1E]);
    step_n(&mut emulator, 1);
    assert_eq!(emulator.get_index_register(), 0x123);
    step_n(&mut emulator, 2);
    assert_eq!(emulator.get_index_register(), 0x133);
}

#[test]
fn digit_sprite_address_uses_five_byte_stride() {
    let mut emulator = boot(vec![0x60, 0x0A, 0xF0, 0x29]);
    step_n(&mut emulator, 2);
    assert_eq!(emulator.get_index_register(), 50);
}

#[test]
fn draw_twice_restores_display_and_reports_collision() {
    // index register to glyph 0 of the font, draw 5 rows at (0, 0), twice
    let mut emulator = boot(vec![0xA0, 0x00, 0xD0, 0x05, 0xD0, 0x05]);
    step_n(&mut emulator, 2);
    let fb = emulator.get_framebuffer();
    assert!(fb[0][0] && fb[0][1] && fb[0][2] && fb[0][3]); // 0xF0: four set pixels
    assert!(!fb[0][4]);
    assert_eq!(emulator.get_register(0xF), 0); // nothing was unset
    step_n(&mut emulator, 1);
    let fb = emulator.get_framebuffer();
    for row in fb {
        assert!(row.iter().all(|&pixel| !pixel));
    }
    assert_eq!(emulator.get_register(0xF), 1); // the first draw set pixels
}

#[test]
fn draw_wraps_coordinates() {
    // draw glyph 0 at x = 62, y = 30: wraps around both edges
    let mut emulator = boot(vec![0x60, 62, 0x61, 30, 0xA0, 0x00, 0xD0, 0x15]);
    step_n(&mut emulator, 4);
    let fb = emulator.get_framebuffer();
    assert!(fb[30][62] && fb[30][63] && fb[30][0] && fb[30][1]); // 0xF0 across the seam
    assert!(fb[0][62]); // 0x90 row landed on row (30 + 2) mod 32
}

#[test]
fn wait_for_key_busy_waits_then_captures_highest_key() {
    let mut emulator = boot(vec![0xF0, 0x0A]);
    emulator.next_instruction().unwrap();
    assert_eq!(emulator.get_pc(), 0x200); // re-fetches the same instruction
    emulator.set_key_state(2, true);
    emulator.set_key_state(4, true);
    emulator.next_instruction().unwrap();
    assert_eq!(emulator.get_register(0), 4); // highest-indexed pressed key
    assert_eq!(emulator.get_pc(), 0x202);
}

#[test]
fn skip_on_key_state() {
    let mut emulator = boot(vec![0x60, 0x05, 0xE0, 0x9E]);
    emulator.set_key_state(5, true);
    step_n(&mut emulator, 2);
    assert_eq!(emulator.get_pc(), 0x206);
    let mut emulator = boot(vec![0x60, 0x05, 0xE0, 0xA1]);
    emulator.set_key_state(5, true);
    emulator.set_key_state(5, false);
    step_n(&mut emulator, 2);
    assert_eq!(emulator.get_pc(), 0x206);
}

#[test]
fn unrecognized_instruction_is_reported_and_skipped() {
    let mut emulator = boot(vec![0xB1, 0x23, 0x60, 0x09]);
    let decoded = emulator.next_instruction().unwrap();
    assert_eq!(decoded, Opcode::Unrecognized { word: 0xB123 });
    assert_eq!(emulator.get_pc(), 0x202); // default advance, no other effect
    step_n(&mut emulator, 1);
    assert_eq!(emulator.get_register(0), 9);
}

#[test]
fn program_too_large_is_rejected() {
    let rom = vec![0u8; 4096 - 0x200 + 1];
    assert_eq!(Emulator::init(rom).unwrap_err(), Fault::ProgramTooLarge);
    let rom = vec![0u8; 4096 - 0x200];
    assert!(Emulator::init(rom).is_ok());
}

#[test]
fn return_on_empty_stack_is_a_fault() {
    let mut emulator = boot(vec![0x00, 0xEE]);
    assert_eq!(emulator.next_instruction().unwrap_err(), Fault::StackUnderflow);
    assert_eq!(emulator.get_pc(), 0x200); // the fault left the state untouched
}

#[test]
fn seventeenth_nested_call_overflows_the_stack() {
    // a call that targets itself pushes one frame per cycle
    let mut emulator = boot(vec![0x22, 0x00]);
    for _ in 0..16 {
        emulator.next_instruction().unwrap();
    }
    assert_eq!(emulator.get_stack_pointer(), 16);
    assert_eq!(emulator.next_instruction().unwrap_err(), Fault::StackOverflow);
}

#[test]
fn bcd_beyond_memory_is_a_fault() {
    let mut emulator = boot(vec![0xAF, 0xFF, 0xF0, 0x33]);
    step_n(&mut emulator, 1);
    assert_eq!(emulator.next_instruction().unwrap_err(), Fault::MemoryOutOfRange);
}

#[test]
fn block_store_beyond_memory_is_a_fault() {
    let mut emulator = boot(vec![0xAF, 0xFE, 0xF3, 0x55]);
    step_n(&mut emulator, 1);
    assert_eq!(emulator.next_instruction().unwrap_err(), Fault::MemoryOutOfRange);
}

#[test]
fn key_skip_with_register_beyond_keypad_is_a_fault() {
    let mut emulator = boot(vec![0x60, 200, 0xE0, 0x9E]);
    step_n(&mut emulator, 1);
    assert_eq!(emulator.next_instruction().unwrap_err(), Fault::KeyOutOfRange);
}

#[test]
fn fetching_past_end_of_memory_is_a_fault() {
    // jump to the last two bytes of memory, execute there, then the
    // advanced program counter no longer references two bytes
    let mut emulator = boot(vec![0x1F, 0xFE]);
    step_n(&mut emulator, 1);
    assert_eq!(emulator.get_pc(), 0xFFE);
    step_n(&mut emulator, 1); // bytes there are zero: unrecognized no-op
    assert_eq!(emulator.get_pc(), 0x1000);
    assert_eq!(emulator.next_instruction().unwrap_err(), Fault::PcOutOfRange);
}

#[test]
fn sound_timer_stays_untouched() {
    let mut emulator = boot(vec![0x60, 0x05, 0xF0, 0x15]);
    step_n(&mut emulator, 2);
    emulator.decrement_delay_timer();
    assert_eq!(emulator.get_sound_timer(), 0);
}

#[test]
fn font_is_loaded_at_address_zero() {
    let emulator = boot(vec![]);
    assert_eq!(emulator.read_memory(0), 0xF0); // glyph 0 starts with 0xF0
    assert_eq!(emulator.read_memory(79), 0x80); // last byte of glyph F
    assert_eq!(emulator.read_memory(80), 0); // memory past the font is zeroed
}

#[test]
fn rom_is_loaded_at_program_origin() {
    let emulator = boot(vec![0xAB, 0xCD]);
    assert_eq!(emulator.read_memory(0x200), 0xAB);
    assert_eq!(emulator.read_memory(0x201), 0xCD);
    assert_eq!(emulator.get_pc(), 0x200);
}

#[test]
fn key_setter_updates_only_that_key() {
    let mut emulator = boot(vec![0x60, 0x00, 0xE0, 0x9E]);
    emulator.set_key_state(0, true);
    step_n(&mut emulator, 2);
    assert_eq!(emulator.get_pc(), 0x206); // key 0 seen as pressed
}
