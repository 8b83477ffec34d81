//! General properties of the engine, proved once and for all from the
//! step semantics: arithmetic and shift flag rules, draw idempotence,
//! and the call/return round trip. (That the delay timer floors at zero
//! is stated directly on `Emulator::decrement_delay_timer`.)

use vstd::prelude::*;
use crate::engine::{
    draw_collision, draw_fb, row_collision, spec_step, sprite_bit, sprite_row_collides,
    sprite_row_hits, sprite_toggles,
};
use crate::machine::{
    MachineSpec, CHIP8_HEIGHT, CHIP8_WIDTH, NUM_REGISTERS, RAM_CAPACITY, STACK_CAPACITY,
};
use crate::opcodes::Opcode;

verus! {

/// Adding two registers stores their sum modulo 256, and the flags
/// register becomes 1 exactly when the true sum reaches 256. (When the
/// destination is the flags register itself, the stored sum overwrites
/// the flag, so the flag clause holds for the other destinations.)
pub proof fn lemma_add_carry(s: MachineSpec, vx: usize, vy: usize)
    requires
        s.wf(),
        vx < NUM_REGISTERS,
        vy < NUM_REGISTERS,
    ensures
        spec_step(s, Opcode::Add { vx, vy }) is Ok,
        ({
            let s2 = spec_step(s, Opcode::Add { vx, vy })->Ok_0;
            s2.v[vx as int] == (s.v[vx as int] + s.v[vy as int]) % 256
        }),
        vx != 15 ==> ({
            let s2 = spec_step(s, Opcode::Add { vx, vy })->Ok_0;
            s2.v[15] == if s.v[vx as int] + s.v[vy as int] >= 256 {
                1u8
            } else {
                0u8
            }
        }),
{
}

/// Subtracting sets the flags register to 1 exactly when the minuend is
/// strictly greater than the subtrahend, whatever wrapped difference is
/// stored. (A destination of the flags register itself overwrites the
/// flag, so that destination is excluded.)
pub proof fn lemma_subtract_borrow(s: MachineSpec, vx: usize, vy: usize)
    requires
        s.wf(),
        vx < NUM_REGISTERS,
        vy < NUM_REGISTERS,
        vx != 15,
    ensures
        spec_step(s, Opcode::Subtract { vx, vy }) is Ok,
        ({
            let s2 = spec_step(s, Opcode::Subtract { vx, vy })->Ok_0;
            s2.v[15] == if s.v[vx as int] > s.v[vy as int] {
                1u8
            } else {
                0u8
            }
        }),
{
}

/// Shifting right sets the flags register to the bit shifted out of the
/// low end, whatever shifted value is stored. (A destination of the
/// flags register itself overwrites the flag, so it is excluded.)
pub proof fn lemma_shift_right_carry(s: MachineSpec, vx: usize)
    requires
        s.wf(),
        vx < NUM_REGISTERS,
        vx != 15,
    ensures
        spec_step(s, Opcode::BitwiseShiftRight { vx }) is Ok,
        ({
            let s2 = spec_step(s, Opcode::BitwiseShiftRight { vx })->Ok_0;
            s2.v[15] == s.v[vx as int] & 1
        }),
{
}

/// Shifting left sets the flags register to the bit shifted out of the
/// high end, whatever shifted value is stored. (A destination of the
/// flags register itself overwrites the flag, so it is excluded.)
pub proof fn lemma_shift_left_carry(s: MachineSpec, vx: usize)
    requires
        s.wf(),
        vx < NUM_REGISTERS,
        vx != 15,
    ensures
        spec_step(s, Opcode::BitwiseShiftLeft { vx }) is Ok,
        ({
            let s2 = spec_step(s, Opcode::BitwiseShiftLeft { vx })->Ok_0;
            s2.v[15] == (s.v[vx as int] >> 7u8) & 1
        }),
{
}

/// Drawing the identical sprite at the identical location twice restores
/// the pre-draw display surface (XOR is self-inverse), and the second
/// draw collides exactly when the first draw set some pixel.
pub proof fn lemma_draw_idempotent(
    ram: Seq<u8>,
    i: int,
    n: int,
    x0: int,
    y0: int,
    fb: Seq<Seq<bool>>,
)
    requires
        0 <= x0,
        0 <= y0,
        fb.len() == CHIP8_HEIGHT,
        forall|y: int| 0 <= y < CHIP8_HEIGHT ==> (#[trigger] fb[y]).len() == CHIP8_WIDTH,
    ensures
        draw_fb(ram, i, n, x0, y0, draw_fb(ram, i, n, x0, y0, fb)) == fb,
        draw_collision(ram, i, n, x0, y0, draw_fb(ram, i, n, x0, y0, fb)) == (exists|y: int, x: int|
            0 <= y < CHIP8_HEIGHT && 0 <= x < CHIP8_WIDTH && !fb[y][x] && #[trigger] draw_fb(
                ram,
                i,
                n,
                x0,
                y0,
                fb,
            )[y][x]),
{
    let d1 = draw_fb(ram, i, n, x0, y0, fb);
    assert forall|y: int, x: int| 0 <= y < CHIP8_HEIGHT && 0 <= x < CHIP8_WIDTH implies #[trigger] draw_fb(
        ram,
        i,
        n,
        x0,
        y0,
        d1,
    )[y][x] == fb[y][x] by {
        assert(d1[y][x] == (fb[y][x] != sprite_toggles(ram, i, n, x0, y0, x, y)));
    }
    assert(draw_fb(ram, i, n, x0, y0, d1) =~~= fb);
    let set_a_pixel = (exists|y: int, x: int|
        0 <= y < CHIP8_HEIGHT && 0 <= x < CHIP8_WIDTH && !fb[y][x] && #[trigger] d1[y][x]);
    if draw_collision(ram, i, n, x0, y0, d1) {
        let r = choose|r: int|
            0 <= r < n && #[trigger] sprite_row_collides(ram, i, x0, y0, r, d1);
        let yt = (y0 + r) % (CHIP8_HEIGHT as int);
        let c = choose|c: int|
            0 <= c < 8 && #[trigger] sprite_bit(ram[i + r], c) && d1[yt][(x0 + c) % (
            CHIP8_WIDTH as int)];
        let xt = (x0 + c) % (CHIP8_WIDTH as int);
        assert(sprite_row_hits(ram, i, x0, r, xt));
        assert(sprite_toggles(ram, i, n, x0, y0, xt, yt));
        assert(d1[yt][xt] == (fb[yt][xt] != sprite_toggles(ram, i, n, x0, y0, xt, yt)));
        assert(!fb[yt][xt]);
        assert(set_a_pixel);
    }
    if set_a_pixel {
        let (yt, xt) = choose|y: int, x: int|
            0 <= y < CHIP8_HEIGHT && 0 <= x < CHIP8_WIDTH && !fb[y][x] && #[trigger] d1[y][x];
        assert(d1[yt][xt] == (fb[yt][xt] != sprite_toggles(ram, i, n, x0, y0, xt, yt)));
        assert(sprite_toggles(ram, i, n, x0, y0, xt, yt));
        let r = choose|r: int|
            0 <= r < n && (y0 + r) % (CHIP8_HEIGHT as int) == yt && #[trigger] sprite_row_hits(
                ram,
                i,
                x0,
                r,
                xt,
            );
        let c = choose|c: int|
            0 <= c < 8 && #[trigger] sprite_bit(ram[i + r], c) && (x0 + c) % (CHIP8_WIDTH as int)
                == xt;
        assert(row_collision(ram[i + r], x0, 8, d1[yt]));
        assert(sprite_row_collides(ram, i, x0, y0, r, d1));
        assert(draw_collision(ram, i, n, x0, y0, d1));
    }
}

/// Executing the identical draw twice in succession restores the
/// pre-draw display surface, and the second draw's collision flag is 1
/// exactly when the first draw set some pixel. (Coordinate registers
/// must not be the flags register, which the first draw overwrites.)
pub proof fn lemma_draw_twice(s: MachineSpec, vx: usize, vy: usize, n: usize)
    requires
        s.wf(),
        vx < NUM_REGISTERS,
        vy < NUM_REGISTERS,
        n < 16,
        vx != 15,
        vy != 15,
        n > 0 ==> s.i + n <= RAM_CAPACITY,
    ensures
        spec_step(s, Opcode::Draw { vx, vy, n }) is Ok,
        ({
            let s1 = spec_step(s, Opcode::Draw { vx, vy, n })->Ok_0;
            &&& spec_step(s1, Opcode::Draw { vx, vy, n }) is Ok
            &&& ({
                let s2 = spec_step(s1, Opcode::Draw { vx, vy, n })->Ok_0;
                &&& s2.framebuffer == s.framebuffer
                &&& s2.v[15] == (if (exists|y: int, x: int|
                    0 <= y < CHIP8_HEIGHT && 0 <= x < CHIP8_WIDTH && !s.framebuffer[y][x]
                        && #[trigger] s1.framebuffer[y][x]) {
                    1u8
                } else {
                    0u8
                })
            })
        }),
{
    let x0 = s.v[vx as int] as int;
    let y0 = s.v[vy as int] as int;
    let s1 = spec_step(s, Opcode::Draw { vx, vy, n })->Ok_0;
    assert(s1.v[vx as int] == s.v[vx as int]);
    assert(s1.v[vy as int] == s.v[vy as int]);
    lemma_draw_idempotent(s.ram, s.i as int, n as int, x0, y0, s.framebuffer);
}

/// A block store followed immediately by a block load through the same
/// register range reads back exactly the register values that were
/// stored: the register file round-trips unchanged.
pub proof fn lemma_block_store_load_round_trip(s: MachineSpec, vx: usize)
    requires
        s.wf(),
        vx < NUM_REGISTERS,
        s.i + vx + 1 <= RAM_CAPACITY,
    ensures
        spec_step(s, Opcode::StoreRegistersInMemory { vx }) is Ok,
        ({
            let s1 = spec_step(s, Opcode::StoreRegistersInMemory { vx })->Ok_0;
            &&& spec_step(s1, Opcode::ReadRegistersFromMemory { vx }) is Ok
            &&& spec_step(s1, Opcode::ReadRegistersFromMemory { vx })->Ok_0.v == s.v
        }),
{
    let s1 = spec_step(s, Opcode::StoreRegistersInMemory { vx })->Ok_0;
    let s2 = spec_step(s1, Opcode::ReadRegistersFromMemory { vx })->Ok_0;
    assert(s2.v =~= s.v);
}

/// A call followed immediately by a return leaves the program counter at
/// the instruction after the call site, with the stack pointer and every
/// other part of the machine unchanged.
pub proof fn lemma_call_return_round_trip(s: MachineSpec, addr: usize)
    requires
        s.wf(),
        s.sp < STACK_CAPACITY,
        addr < RAM_CAPACITY,
    ensures
        spec_step(s, Opcode::Call { addr }) is Ok,
        ({
            let s1 = spec_step(s, Opcode::Call { addr })->Ok_0;
            &&& spec_step(s1, Opcode::Return) is Ok
            &&& ({
                let s2 = spec_step(s1, Opcode::Return)->Ok_0;
                &&& s2.pc == s.pc + 2
                &&& s2.sp == s.sp
                &&& s2.ram == s.ram
                &&& s2.v == s.v
                &&& s2.framebuffer == s.framebuffer
                &&& s2.i == s.i
                &&& s2.delay_timer == s.delay_timer
            })
        }),
{
    let s1 = spec_step(s, Opcode::Call { addr })->Ok_0;
    assert(s1.stack[s.sp as int] == s.pc);
}

} // verus!
