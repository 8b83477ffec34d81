//! The machine-state container: memory, register file, stack, timers,
//! display surface and input latch, with its initialization and the
//! narrow accessors exposed to collaborators.

use vstd::prelude::*;
use crate::engine::{
    block_load_v, block_store_ram, draw_collision, draw_fb, last_pressed, lemma_mod_small_inj,
    row_collision, row_toggles, spec_fetch, spec_next, spec_step, sprite_bit, sprite_row_collides,
    sprite_row_hits, sprite_toggles,
};
use crate::opcodes::{spec_decode, translate_instruction, wf_opcode, Opcode};

verus! {

/// Bytes of addressable memory.
pub const RAM_CAPACITY: usize = 4096;
/// General-purpose 8-bit registers; the last one is the flags register.
pub const NUM_REGISTERS: usize = 16;
/// Saved return addresses the call stack can hold.
pub const STACK_CAPACITY: usize = 16;
/// Display surface width in pixels.
pub const CHIP8_WIDTH: usize = 64;
/// Display surface height in pixels.
pub const CHIP8_HEIGHT: usize = 32;
/// Keys on the hexadecimal keypad.
pub const NUM_KEYS: usize = 16;
/// Address where loaded program bytes begin execution.
pub const PROGRAM_ORIGIN: usize = 0x200;
/// Bytes per glyph in the built-in font table.
pub const FONT_GLYPH_STRIDE: usize = 5;
/// Total bytes of the built-in font table (16 glyphs of 5 bytes).
pub const FONT_SET_LEN: usize = 80;

/// A fatal condition the engine reports to its caller instead of
/// terminating: a caller-contract violation per the error taxonomy.
#[derive(Debug, Clone, Copy, PartialEq, Eq, Structural)]
pub enum Fault {
    /// The program image does not fit between the program origin and the
    /// end of memory.
    ProgramTooLarge,
    /// The program counter does not reference two bytes inside memory.
    PcOutOfRange,
    /// A call would push beyond the stack's capacity.
    StackOverflow,
    /// A return would pop from an empty stack.
    StackUnderflow,
    /// A memory access relative to the index register reaches beyond
    /// memory's capacity.
    MemoryOutOfRange,
    /// Adding to the index register would overflow its representation.
    IndexOverflow,
    /// A key-indexed operation names a register value outside the keypad.
    KeyOutOfRange,
}

/// The mathematical model of the machine: every field of the state as a
/// plain mathematical value.
#[verifier::ext_equal]
pub ghost struct MachineSpec {
    pub ram: Seq<u8>,
    pub v: Seq<u8>,
    pub i: usize,
    pub delay_timer: u8,
    pub sound_timer: u8,
    pub pc: usize,
    pub sp: usize,
    pub stack: Seq<usize>,
    pub framebuffer: Seq<Seq<bool>>,
    pub keys: Seq<bool>,
}

impl MachineSpec {
    /// Well-formedness: all containers have their fixed capacities, the
    /// stack pointer stays within the stack, and the program counter and
    /// every saved address stay near memory so that advancing them can
    /// never wrap.
    pub open spec fn wf(self) -> bool {
        &&& self.ram.len() == RAM_CAPACITY
        &&& self.v.len() == NUM_REGISTERS
        &&& self.stack.len() == STACK_CAPACITY
        &&& self.framebuffer.len() == CHIP8_HEIGHT
        &&& forall|y: int|
            0 <= y < CHIP8_HEIGHT ==> (#[trigger] self.framebuffer[y]).len() == CHIP8_WIDTH
        &&& self.keys.len() == NUM_KEYS
        &&& self.sp <= STACK_CAPACITY
        &&& self.pc <= RAM_CAPACITY + 2
        &&& forall|j: int|
            0 <= j < STACK_CAPACITY ==> #[trigger] self.stack[j] <= RAM_CAPACITY - 2
    }
}

/// The built-in font table: 16 hexadecimal glyphs, 5 bytes each, loaded
/// at address 0.
pub open spec fn font_seq() -> Seq<u8> {
    seq![
        0xF0u8, 0x90, 0x90, 0x90, 0xF0,
        0x20, 0x60, 0x20, 0x20, 0x70,
        0xF0, 0x10, 0xF0, 0x80, 0xF0,
        0xF0, 0x10, 0xF0, 0x10, 0xF0,
        0x90, 0x90, 0xF0, 0x10, 0x10,
        0xF0, 0x80, 0xF0, 0x10, 0xF0,
        0xF0, 0x80, 0xF0, 0x90, 0xF0,
        0xF0, 0x10, 0x20, 0x40, 0x40,
        0xF0, 0x90, 0xF0, 0x90, 0xF0,
        0xF0, 0x90, 0xF0, 0x10, 0xF0,
        0xF0, 0x90, 0xF0, 0x90, 0x90,
        0xE0, 0x90, 0xE0, 0x90, 0xE0,
        0xF0, 0x80, 0x80, 0x80, 0xF0,
        0xE0, 0x90, 0x90, 0x90, 0xE0,
        0xF0, 0x80, 0xF0, 0x80, 0x80,
        0xF0, 0x80, 0xF0, 0x90, 0x80,
    ]
}

/// The machine state right after initialization from the given program
/// bytes: font at address 0, the program at the program origin, all else
/// zeroed or cleared, the program counter at the origin.
pub open spec fn init_spec(rom: Seq<u8>) -> MachineSpec {
    MachineSpec {
        ram: Seq::new(
            RAM_CAPACITY as nat,
            |j: int|
                if j < FONT_SET_LEN {
                    font_seq()[j]
                } else if PROGRAM_ORIGIN <= j < PROGRAM_ORIGIN + rom.len() {
                    rom[j - PROGRAM_ORIGIN]
                } else {
                    0u8
                },
        ),
        v: Seq::new(NUM_REGISTERS as nat, |j: int| 0u8),
        i: 0,
        delay_timer: 0,
        sound_timer: 0,
        pc: PROGRAM_ORIGIN,
        sp: 0,
        stack: Seq::new(STACK_CAPACITY as nat, |j: int| 0usize),
        framebuffer: blank_framebuffer_spec(),
        keys: Seq::new(NUM_KEYS as nat, |j: int| false),
    }
}

/// A display surface with every pixel unset.
pub open spec fn blank_framebuffer_spec() -> Seq<Seq<bool>> {
    Seq::new(CHIP8_HEIGHT as nat, |y: int| Seq::new(CHIP8_WIDTH as nat, |x: int| false))
}

/// The register file, memory, stack, timers, display surface and input
/// latch of one machine, mutated in place by the engine for the life of
/// the process.
#[derive(Debug)]
pub struct Emulator {
    pub(crate) ram: Vec<u8>,
    pub(crate) v: Vec<u8>,
    pub(crate) i: usize,
    pub(crate) delay_timer: u8,
    pub(crate) sound_timer: u8,
    pub(crate) pc: usize,
    pub(crate) sp: usize,
    pub(crate) stack: Vec<usize>,
    pub(crate) framebuffer: Vec<Vec<bool>>,
    pub(crate) input_buffer: Vec<bool>,
}

impl View for Emulator {
    type V = MachineSpec;

    closed spec fn view(&self) -> MachineSpec {
        MachineSpec {
            ram: self.ram@,
            v: self.v@,
            i: self.i,
            delay_timer: self.delay_timer,
            sound_timer: self.sound_timer,
            pc: self.pc,
            sp: self.sp,
            stack: self.stack@,
            framebuffer: self.framebuffer@.map_values(|row: Vec<bool>| row@),
            keys: self.input_buffer@,
        }
    }
}

fn filled_u8(n: usize, value: u8) -> (r: Vec<u8>)
    ensures
        r@ == Seq::new(n as nat, |j: int| value),
{
    let mut r: Vec<u8> = Vec::new();
    let mut k: usize = 0;
    while k < n
        invariant
            k <= n,
            r@.len() == k,
            forall|j: int| 0 <= j < k ==> r@[j] == value,
        decreases n - k,
    {
        r.push(value);
        k = k + 1;
    }
    proof {
        assert(r@ =~= Seq::new(n as nat, |j: int| value));
    }
    r
}

fn filled_usize(n: usize, value: usize) -> (r: Vec<usize>)
    ensures
        r@ == Seq::new(n as nat, |j: int| value),
{
    let mut r: Vec<usize> = Vec::new();
    let mut k: usize = 0;
    while k < n
        invariant
            k <= n,
            r@.len() == k,
            forall|j: int| 0 <= j < k ==> r@[j] == value,
        decreases n - k,
    {
        r.push(value);
        k = k + 1;
    }
    proof {
        assert(r@ =~= Seq::new(n as nat, |j: int| value));
    }
    r
}

fn filled_bool(n: usize, value: bool) -> (r: Vec<bool>)
    ensures
        r@ == Seq::new(n as nat, |j: int| value),
{
    let mut r: Vec<bool> = Vec::new();
    let mut k: usize = 0;
    while k < n
        invariant
            k <= n,
            r@.len() == k,
            forall|j: int| 0 <= j < k ==> r@[j] == value,
        decreases n - k,
    {
        r.push(value);
        k = k + 1;
    }
    proof {
        assert(r@ =~= Seq::new(n as nat, |j: int| value));
    }
    r
}

/// A freshly allocated display surface with every pixel unset.
pub(crate) fn blank_framebuffer() -> (r: Vec<Vec<bool>>)
    ensures
        r@.map_values(|row: Vec<bool>| row@) == blank_framebuffer_spec(),
{
    let mut r: Vec<Vec<bool>> = Vec::new();
    let mut y: usize = 0;
    while y < CHIP8_HEIGHT
        invariant
            y <= CHIP8_HEIGHT,
            r@.len() == y,
            forall|yy: int|
                0 <= yy < y ==> (#[trigger] r@[yy])@ == Seq::new(CHIP8_WIDTH as nat, |x: int| false),
        decreases CHIP8_HEIGHT - y,
    {
        r.push(filled_bool(CHIP8_WIDTH, false));
        y = y + 1;
    }
    proof {
        assert(r@.map_values(|row: Vec<bool>| row@) =~~= blank_framebuffer_spec());
    }
    r
}

/// The font table as bytes, in glyph order.
fn font_bytes() -> (r: Vec<u8>)
    ensures
        r@ == font_seq(),
{
    let mut r: Vec<u8> = Vec::new();
    r.push(0xF0); r.push(0x90); r.push(0x90); r.push(0x90); r.push(0xF0);
    r.push(0x20); r.push(0x60); r.push(0x20); r.push(0x20); r.push(0x70);
    r.push(0xF0); r.push(0x10); r.push(0xF0); r.push(0x80); r.push(0xF0);
    r.push(0xF0); r.push(0x10); r.push(0xF0); r.push(0x10); r.push(0xF0);
    r.push(0x90); r.push(0x90); r.push(0xF0); r.push(0x10); r.push(0x10);
    r.push(0xF0); r.push(0x80); r.push(0xF0); r.push(0x10); r.push(0xF0);
    r.push(0xF0); r.push(0x80); r.push(0xF0); r.push(0x90); r.push(0xF0);
    r.push(0xF0); r.push(0x10); r.push(0x20); r.push(0x40); r.push(0x40);
    r.push(0xF0); r.push(0x90); r.push(0xF0); r.push(0x90); r.push(0xF0);
    r.push(0xF0); r.push(0x90); r.push(0xF0); r.push(0x10); r.push(0xF0);
    r.push(0xF0); r.push(0x90); r.push(0xF0); r.push(0x90); r.push(0x90);
    r.push(0xE0); r.push(0x90); r.push(0xE0); r.push(0x90); r.push(0xE0);
    r.push(0xF0); r.push(0x80); r.push(0x80); r.push(0x80); r.push(0xF0);
    r.push(0xE0); r.push(0x90); r.push(0x90); r.push(0x90); r.push(0xE0);
    r.push(0xF0); r.push(0x80); r.push(0xF0); r.push(0x80); r.push(0x80);
    r.push(0xF0); r.push(0x80); r.push(0xF0); r.push(0x90); r.push(0x80);
    proof {
        assert(r@ =~= font_seq());
    }
    r
}

impl Emulator {
    /// Create a machine with the font table at address 0 and the program
    /// bytes loaded at the program origin; everything else is zeroed.
    /// A program too large to fit in memory is rejected.
    pub fn init(rom: Vec<u8>) -> (r: Result<Emulator, Fault>)
        ensures
            rom@.len() <= RAM_CAPACITY - PROGRAM_ORIGIN ==> {
                &&& r is Ok
                &&& r->Ok_0@ == init_spec(rom@)
                &&& r->Ok_0@.wf()
            },
            rom@.len() > RAM_CAPACITY - PROGRAM_ORIGIN ==> r == Err::<Emulator, Fault>(
                Fault::ProgramTooLarge,
            ),
    {
        if rom.len() > RAM_CAPACITY - PROGRAM_ORIGIN {
            return Err(Fault::ProgramTooLarge);
        }
        let mut ram = filled_u8(RAM_CAPACITY, 0);
        let font = font_bytes();
        let mut k: usize = 0;
        while k < FONT_SET_LEN
            invariant
                k <= FONT_SET_LEN,
                font@ == font_seq(),
                ram@.len() == RAM_CAPACITY,
                forall|j: int| 0 <= j < k ==> ram@[j] == font_seq()[j],
                forall|j: int| k <= j < RAM_CAPACITY ==> ram@[j] == 0u8,
            decreases FONT_SET_LEN - k,
        {
            ram.set(k, font[k]);
            k = k + 1;
        }
        let mut m: usize = 0;
        while m < rom.len()
            invariant
                m <= rom@.len(),
                rom@.len() <= RAM_CAPACITY - PROGRAM_ORIGIN,
                ram@.len() == RAM_CAPACITY,
                forall|j: int| 0 <= j < FONT_SET_LEN ==> ram@[j] == font_seq()[j],
                forall|j: int|
                    PROGRAM_ORIGIN <= j < PROGRAM_ORIGIN + m ==> ram@[j] == rom@[j - PROGRAM_ORIGIN],
                forall|j: int|
                    FONT_SET_LEN <= j < RAM_CAPACITY && !(PROGRAM_ORIGIN <= j < PROGRAM_ORIGIN + m)
                        ==> ram@[j] == 0u8,
            decreases rom@.len() - m,
        {
            ram.set(PROGRAM_ORIGIN + m, rom[m]);
            m = m + 1;
        }
        let emulator = Emulator {
            ram,
            v: filled_u8(NUM_REGISTERS, 0),
            i: 0,
            delay_timer: 0,
            sound_timer: 0,
            pc: PROGRAM_ORIGIN,
            sp: 0,
            stack: filled_usize(STACK_CAPACITY, 0),
            framebuffer: blank_framebuffer(),
            input_buffer: filled_bool(NUM_KEYS, false),
        };
        proof {
            assert(emulator@.ram =~= init_spec(rom@).ram);
            assert(emulator@ =~~= init_spec(rom@));
        }
        Ok(emulator)
    }

    /// A read-only snapshot of the display surface, row-major,
    /// `CHIP8_HEIGHT` rows of `CHIP8_WIDTH` pixels.
    pub fn get_framebuffer(&self) -> (r: Vec<Vec<bool>>)
        requires
            self@.wf(),
        ensures
            r@.map_values(|row: Vec<bool>| row@) == self@.framebuffer,
    {
        let mut r: Vec<Vec<bool>> = Vec::new();
        let mut y: usize = 0;
        while y < CHIP8_HEIGHT
            invariant
                self@.wf(),
                y <= CHIP8_HEIGHT,
                r@.len() == y,
                forall|yy: int| 0 <= yy < y ==> (#[trigger] r@[yy])@ == self@.framebuffer[yy],
            decreases CHIP8_HEIGHT - y,
        {
            let mut row: Vec<bool> = Vec::new();
            let mut x: usize = 0;
            while x < CHIP8_WIDTH
                invariant
                    self@.wf(),
                    y < CHIP8_HEIGHT,
                    x <= CHIP8_WIDTH,
                    row@.len() == x,
                    forall|xx: int| 0 <= xx < x ==> row@[xx] == self@.framebuffer[y as int][xx],
                decreases CHIP8_WIDTH - x,
            {
                proof {
                    assert(self@.framebuffer[y as int] == self.framebuffer@[y as int]@);
                }
                row.push(self.framebuffer[y][x]);
                x = x + 1;
            }
            proof {
                assert(row@ =~= self@.framebuffer[y as int]);
            }
            r.push(row);
            y = y + 1;
        }
        proof {
            assert(r@.map_values(|row: Vec<bool>| row@) =~~= self@.framebuffer);
        }
        r
    }

    /// Record one key of the input latch as pressed or released.
    /// Out-of-range key indices are a caller-contract violation.
    pub fn set_key_state(&mut self, key: usize, pressed: bool)
        requires
            old(self)@.wf(),
            key < NUM_KEYS,
        ensures
            final(self)@ == (MachineSpec {
                keys: old(self)@.keys.update(key as int, pressed),
                ..old(self)@
            }),
            final(self)@.wf(),
    {
        self.input_buffer.set(key, pressed);
    }

    /// Count the delay timer down by one; at zero it stays at zero.
    pub fn decrement_delay_timer(&mut self)
        ensures
            final(self)@ == (MachineSpec {
                delay_timer: if old(self)@.delay_timer > 0 {
                    (old(self)@.delay_timer - 1) as u8
                } else {
                    0u8
                },
                ..old(self)@
            }),
            old(self)@.wf() ==> final(self)@.wf(),
    {
        if self.delay_timer > 0 {
            self.delay_timer = self.delay_timer - 1;
        }
        proof {
            assert(self@ =~~= MachineSpec {
                delay_timer: if old(self)@.delay_timer > 0 {
                    (old(self)@.delay_timer - 1) as u8
                } else {
                    0u8
                },
                ..old(self)@
            });
        }
    }

    /// The value of one general register.
    pub fn get_register(&self, index: usize) -> (r: u8)
        requires
            self@.wf(),
            index < NUM_REGISTERS,
        ensures
            r == self@.v[index as int],
    {
        self.v[index]
    }

    /// One byte of memory.
    pub fn read_memory(&self, addr: usize) -> (r: u8)
        requires
            self@.wf(),
            addr < RAM_CAPACITY,
        ensures
            r == self@.ram[addr as int],
    {
        self.ram[addr]
    }

    /// The current program counter.
    pub fn get_pc(&self) -> (r: usize)
        ensures
            r == self@.pc,
    {
        self.pc
    }

    /// The current index register.
    pub fn get_index_register(&self) -> (r: usize)
        ensures
            r == self@.i,
    {
        self.i
    }

    /// The current stack pointer.
    pub fn get_stack_pointer(&self) -> (r: usize)
        ensures
            r == self@.sp,
    {
        self.sp
    }

    /// The current delay-timer value.
    pub fn get_delay_timer(&self) -> (r: u8)
        ensures
            r == self@.delay_timer,
    {
        self.delay_timer
    }

    /// The current sound-timer value.
    pub fn get_sound_timer(&self) -> (r: u8)
        ensures
            r == self@.sound_timer,
    {
        self.sound_timer
    }
}

impl Emulator {
    /// Decompose the source register's value into hundreds, tens and
    /// ones, zero-padded, at three consecutive memory addresses starting
    /// at the index register.
    fn op_store_bcd(&mut self, vx: usize) -> (r: Result<(), Fault>)
        requires
            old(self)@.wf(),
            vx < NUM_REGISTERS,
            old(self)@.pc + 4 <= RAM_CAPACITY + 2,
        ensures
            final(self)@.wf(),
            (match spec_step(old(self)@, Opcode::StoreBCD { vx }) {
                Ok(s2) => r is Ok && final(self)@ == s2,
                Err(f) => r is Err && r->Err_0 == f && final(self)@ == old(self)@,
            }),
    {
        if self.i > RAM_CAPACITY - 3 {
            return Err(Fault::MemoryOutOfRange);
        }
        let value = self.v[vx];
        self.ram.set(self.i, value / 100);
        self.ram.set(self.i + 1, (value / 10) % 10);
        self.ram.set(self.i + 2, value % 10);
        self.pc = self.pc + 2;
        proof {
            assert(self@ =~~= spec_step(old(self)@, Opcode::StoreBCD { vx })->Ok_0);
        }
        Ok(())
    }

    /// Copy registers 0 through `vx` inclusive to memory starting at the
    /// index register, in ascending register order.
    fn op_block_store(&mut self, vx: usize) -> (r: Result<(), Fault>)
        requires
            old(self)@.wf(),
            vx < NUM_REGISTERS,
            old(self)@.pc + 4 <= RAM_CAPACITY + 2,
        ensures
            final(self)@.wf(),
            (match spec_step(old(self)@, Opcode::StoreRegistersInMemory { vx }) {
                Ok(s2) => r is Ok && final(self)@ == s2,
                Err(f) => r is Err && r->Err_0 == f && final(self)@ == old(self)@,
            }),
    {
        if self.i > RAM_CAPACITY - (vx + 1) {
            return Err(Fault::MemoryOutOfRange);
        }
        let mut k: usize = 0;
        while k < vx + 1
            invariant
                old(self)@.wf(),
                vx < NUM_REGISTERS,
                k <= vx + 1,
                self.i + vx + 1 <= RAM_CAPACITY,
                self@ == (MachineSpec { ram: self@.ram, ..old(self)@ }),
                self@.ram.len() == RAM_CAPACITY,
                forall|j: int|
                    0 <= j < RAM_CAPACITY && !(self@.i <= j < self@.i + k) ==> self@.ram[j]
                        == old(self)@.ram[j],
                forall|j: int|
                    self@.i <= j < self@.i + k ==> self@.ram[j] == old(self)@.v[j - self@.i],
            decreases vx + 1 - k,
        {
            let byte = self.v[k];
            self.ram.set(self.i + k, byte);
            k = k + 1;
        }
        self.pc = self.pc + 2;
        proof {
            assert(self@.ram =~= block_store_ram(
                old(self)@.ram,
                old(self)@.v,
                old(self)@.i as int,
                vx as int,
            ));
            assert(self@ =~~= spec_step(old(self)@, Opcode::StoreRegistersInMemory { vx })->Ok_0);
        }
        Ok(())
    }

    /// Fill registers 0 through `vx` inclusive from memory starting at
    /// the index register, in ascending register order.
    fn op_block_load(&mut self, vx: usize) -> (r: Result<(), Fault>)
        requires
            old(self)@.wf(),
            vx < NUM_REGISTERS,
            old(self)@.pc + 4 <= RAM_CAPACITY + 2,
        ensures
            final(self)@.wf(),
            (match spec_step(old(self)@, Opcode::ReadRegistersFromMemory { vx }) {
                Ok(s2) => r is Ok && final(self)@ == s2,
                Err(f) => r is Err && r->Err_0 == f && final(self)@ == old(self)@,
            }),
    {
        if self.i > RAM_CAPACITY - (vx + 1) {
            return Err(Fault::MemoryOutOfRange);
        }
        let mut k: usize = 0;
        while k < vx + 1
            invariant
                old(self)@.wf(),
                vx < NUM_REGISTERS,
                k <= vx + 1,
                self.i + vx + 1 <= RAM_CAPACITY,
                self@ == (MachineSpec { v: self@.v, ..old(self)@ }),
                self@.v.len() == NUM_REGISTERS,
                forall|j: int| k <= j < NUM_REGISTERS ==> self@.v[j] == old(self)@.v[j],
                forall|j: int| 0 <= j < k ==> self@.v[j] == old(self)@.ram[self@.i + j],
            decreases vx + 1 - k,
        {
            let byte = self.ram[self.i + k];
            self.v.set(k, byte);
            k = k + 1;
        }
        self.pc = self.pc + 2;
        proof {
            assert(self@.v =~= block_load_v(
                old(self)@.ram,
                old(self)@.v,
                old(self)@.i as int,
                vx as int,
            ));
            assert(self@ =~~= spec_step(old(self)@, Opcode::ReadRegistersFromMemory { vx })->Ok_0);
        }
        Ok(())
    }

    /// Draw one 8-pixel-wide sprite row onto display row `y`: every set
    /// bit toggles its pixel, columns wrapping modulo the display width.
    /// Reports whether some toggle turned a set pixel unset.
    fn op_draw_row(&mut self, y: usize, byte: u8, x0: u8) -> (collided: bool)
        requires
            old(self)@.framebuffer.len() == CHIP8_HEIGHT,
            y < CHIP8_HEIGHT,
            old(self)@.framebuffer[y as int].len() == CHIP8_WIDTH,
        ensures
            final(self)@ == (MachineSpec { framebuffer: final(self)@.framebuffer, ..old(self)@ }),
            final(self)@.framebuffer.len() == CHIP8_HEIGHT,
            forall|yy: int|
                0 <= yy < CHIP8_HEIGHT && yy != y ==> final(self)@.framebuffer[yy] == old(
                    self,
                )@.framebuffer[yy],
            (final(self)@.framebuffer[y as int] == Seq::new(
                CHIP8_WIDTH as nat,
                |x: int| old(self)@.framebuffer[y as int][x] != row_toggles(byte, x0 as int, 8, x),
            )),
            collided == row_collision(byte, x0 as int, 8, old(self)@.framebuffer[y as int]),
    {
        let ghost row0 = old(self)@.framebuffer[y as int];
        let mut collided = false;
        let mut c: usize = 0;
        while c < 8
            invariant
                c <= 8,
                y < CHIP8_HEIGHT,
                self@ == (MachineSpec { framebuffer: self@.framebuffer, ..old(self)@ }),
                self@.framebuffer.len() == CHIP8_HEIGHT,
                forall|yy: int|
                    0 <= yy < CHIP8_HEIGHT && yy != y ==> self@.framebuffer[yy] == old(
                        self,
                    )@.framebuffer[yy],
                row0 == old(self)@.framebuffer[y as int],
                row0.len() == CHIP8_WIDTH,
                self@.framebuffer[y as int].len() == CHIP8_WIDTH,
                forall|x: int|
                    0 <= x < CHIP8_WIDTH ==> #[trigger] self@.framebuffer[y as int][x] == (row0[x]
                        != row_toggles(byte, x0 as int, c as int, x)),
                collided == row_collision(byte, x0 as int, c as int, row0),
            decreases 8 - c,
        {
            proof {
                assert forall|yy: int| 0 <= yy < CHIP8_HEIGHT implies self@.framebuffer[yy] == (
                #[trigger] self.framebuffer@[yy])@ by {}
            }
            let sh: u8 = (7 - c) as u8;
            if (byte >> sh) & 1 == 1 {
                proof {
                    assert(sprite_bit(byte, c as int));
                }
                let x = (x0 as usize + c) % CHIP8_WIDTH;
                proof {
                    if row_toggles(byte, x0 as int, c as int, x as int) {
                        let cc = choose|cc: int|
                            0 <= cc < c && #[trigger] sprite_bit(byte, cc) && (x0 as int + cc) % (
                            CHIP8_WIDTH as int) == x as int;
                        lemma_mod_small_inj(x0 as int, cc, c as int, CHIP8_WIDTH as int);
                        assert(false);
                    }
                }
                let cur = self.framebuffer[y][x];
                let row = &mut self.framebuffer[y];
                row.set(x, !cur);
                if cur {
                    collided = true;
                }
                proof {
                    assert forall|xx: int| 0 <= xx < CHIP8_WIDTH implies row_toggles(
                        byte,
                        x0 as int,
                        c + 1,
                        xx,
                    ) == (row_toggles(byte, x0 as int, c as int, xx) || xx == x as int) by {
                        if row_toggles(byte, x0 as int, c + 1, xx) {
                            let cc = choose|cc: int|
                                0 <= cc < c + 1 && #[trigger] sprite_bit(byte, cc) && (x0 as int
                                    + cc) % (CHIP8_WIDTH as int) == xx;
                            if cc != c as int {
                                assert(row_toggles(byte, x0 as int, c as int, xx));
                            }
                        }
                        if row_toggles(byte, x0 as int, c as int, xx) {
                            let cc = choose|cc: int|
                                0 <= cc < c && #[trigger] sprite_bit(byte, cc) && (x0 as int + cc)
                                    % (CHIP8_WIDTH as int) == xx;
                            assert(row_toggles(byte, x0 as int, c + 1, xx));
                        }
                        if xx == x as int {
                            assert(row_toggles(byte, x0 as int, c + 1, xx));
                        }
                    }
                    assert(row_collision(byte, x0 as int, c + 1, row0) == (row_collision(
                        byte,
                        x0 as int,
                        c as int,
                        row0,
                    ) || row0[x as int])) by {
                        if row_collision(byte, x0 as int, c + 1, row0) {
                            let cc = choose|cc: int|
                                0 <= cc < c + 1 && #[trigger] sprite_bit(byte, cc) && row0[(
                                x0 as int + cc) % (CHIP8_WIDTH as int)];
                            if cc != c as int {
                                assert(row_collision(byte, x0 as int, c as int, row0));
                            }
                        }
                        if row_collision(byte, x0 as int, c as int, row0) {
                            let cc = choose|cc: int|
                                0 <= cc < c && #[trigger] sprite_bit(byte, cc) && row0[(x0 as int
                                    + cc) % (CHIP8_WIDTH as int)];
                            assert(row_collision(byte, x0 as int, c + 1, row0));
                        }
                        if row0[x as int] {
                            assert(row_collision(byte, x0 as int, c + 1, row0));
                        }
                    }
                    assert(cur == row0[x as int]);
                }
            } else {
                proof {
                    assert(!sprite_bit(byte, c as int));
                    assert forall|xx: int| 0 <= xx < CHIP8_WIDTH implies row_toggles(
                        byte,
                        x0 as int,
                        c + 1,
                        xx,
                    ) == row_toggles(byte, x0 as int, c as int, xx) by {
                        if row_toggles(byte, x0 as int, c + 1, xx) {
                            let cc = choose|cc: int|
                                0 <= cc < c + 1 && #[trigger] sprite_bit(byte, cc) && (x0 as int
                                    + cc) % (CHIP8_WIDTH as int) == xx;
                            assert(cc != c as int);
                            assert(row_toggles(byte, x0 as int, c as int, xx));
                        }
                        if row_toggles(byte, x0 as int, c as int, xx) {
                            let cc = choose|cc: int|
                                0 <= cc < c && #[trigger] sprite_bit(byte, cc) && (x0 as int + cc)
                                    % (CHIP8_WIDTH as int) == xx;
                            assert(row_toggles(byte, x0 as int, c + 1, xx));
                        }
                    }
                    assert(row_collision(byte, x0 as int, c + 1, row0) == row_collision(
                        byte,
                        x0 as int,
                        c as int,
                        row0,
                    )) by {
                        if row_collision(byte, x0 as int, c + 1, row0) {
                            let cc = choose|cc: int|
                                0 <= cc < c + 1 && #[trigger] sprite_bit(byte, cc) && row0[(
                                x0 as int + cc) % (CHIP8_WIDTH as int)];
                            assert(cc != c as int);
                            assert(row_collision(byte, x0 as int, c as int, row0));
                        }
                        if row_collision(byte, x0 as int, c as int, row0) {
                            let cc = choose|cc: int|
                                0 <= cc < c && #[trigger] sprite_bit(byte, cc) && row0[(x0 as int
                                    + cc) % (CHIP8_WIDTH as int)];
                            assert(row_collision(byte, x0 as int, c + 1, row0));
                        }
                    }
                }
            }
            c = c + 1;
        }
        proof {
            assert(self@.framebuffer[y as int] =~= Seq::new(
                CHIP8_WIDTH as nat,
                |x: int| old(self)@.framebuffer[y as int][x] != row_toggles(byte, x0 as int, 8, x),
            ));
        }
        collided
    }

    /// Read `n` consecutive sprite bytes at the index register and XOR
    /// them onto the display surface at the origin the two registers
    /// give; the flags register records whether any pixel was unset.
    fn op_draw(&mut self, vx: usize, vy: usize, n: usize) -> (r: Result<(), Fault>)
        requires
            old(self)@.wf(),
            vx < NUM_REGISTERS,
            vy < NUM_REGISTERS,
            n < 16,
            old(self)@.pc + 4 <= RAM_CAPACITY + 2,
        ensures
            final(self)@.wf(),
            (match spec_step(old(self)@, Opcode::Draw { vx, vy, n }) {
                Ok(s2) => r is Ok && final(self)@ == s2,
                Err(f) => r is Err && r->Err_0 == f && final(self)@ == old(self)@,
            }),
    {
        if n > 0 && self.i > RAM_CAPACITY - n {
            return Err(Fault::MemoryOutOfRange);
        }
        let x0 = self.v[vx];
        let y0 = self.v[vy];
        let ghost s0 = self@;
        let mut collided = false;
        let mut r: usize = 0;
        proof {
            assert(self@.framebuffer =~~= draw_fb(
                s0.ram,
                s0.i as int,
                0,
                x0 as int,
                y0 as int,
                s0.framebuffer,
            ));
        }
        while r < n
            invariant
                s0.wf(),
                r <= n,
                n < 16,
                vx < NUM_REGISTERS,
                vy < NUM_REGISTERS,
                n > 0 ==> s0.i + n <= RAM_CAPACITY,
                x0 == s0.v[vx as int],
                y0 == s0.v[vy as int],
                self@ == (MachineSpec { framebuffer: self@.framebuffer, ..s0 }),
                self@.framebuffer == draw_fb(
                    s0.ram,
                    s0.i as int,
                    r as int,
                    x0 as int,
                    y0 as int,
                    s0.framebuffer,
                ),
                collided == draw_collision(
                    s0.ram,
                    s0.i as int,
                    r as int,
                    x0 as int,
                    y0 as int,
                    s0.framebuffer,
                ),
            decreases n - r,
        {
            let byte = self.ram[self.i + r];
            let y = (y0 as usize + r) % CHIP8_HEIGHT;
            proof {
                assert forall|x: int| 0 <= x < CHIP8_WIDTH implies !sprite_toggles(
                    s0.ram,
                    s0.i as int,
                    r as int,
                    x0 as int,
                    y0 as int,
                    x,
                    y as int,
                ) by {
                    if sprite_toggles(s0.ram, s0.i as int, r as int, x0 as int, y0 as int, x, y as int) {
                        let rr = choose|rr: int|
                            0 <= rr < r && (y0 as int + rr) % (CHIP8_HEIGHT as int) == y as int
                                && #[trigger] sprite_row_hits(s0.ram, s0.i as int, x0 as int, rr, x);
                        lemma_mod_small_inj(y0 as int, rr, r as int, CHIP8_HEIGHT as int);
                        assert(false);
                    }
                }
                assert(self@.framebuffer[y as int] =~= s0.framebuffer[y as int]);
            }
            let row_hit = self.op_draw_row(y, byte, x0);
            if row_hit {
                collided = true;
            }
            proof {
                assert(byte == s0.ram[s0.i + r]);
                assert(row_hit == sprite_row_collides(
                    s0.ram,
                    s0.i as int,
                    x0 as int,
                    y0 as int,
                    r as int,
                    s0.framebuffer,
                ));
                assert forall|yy: int, x: int|
                    0 <= yy < CHIP8_HEIGHT && 0 <= x < CHIP8_WIDTH implies #[trigger] self@.framebuffer[yy][x]
                    == (s0.framebuffer[yy][x] != sprite_toggles(
                    s0.ram,
                    s0.i as int,
                    r + 1,
                    x0 as int,
                    y0 as int,
                    x,
                    yy,
                )) by {
                    if yy == y as int {
                        if sprite_toggles(s0.ram, s0.i as int, r + 1, x0 as int, y0 as int, x, yy) {
                            let rr = choose|rr: int|
                                0 <= rr < r + 1 && (y0 as int + rr) % (CHIP8_HEIGHT as int) == yy
                                    && #[trigger] sprite_row_hits(
                                    s0.ram,
                                    s0.i as int,
                                    x0 as int,
                                    rr,
                                    x,
                                );
                            if rr != r as int {
                                lemma_mod_small_inj(y0 as int, rr, r as int, CHIP8_HEIGHT as int);
                            }
                            assert(sprite_row_hits(s0.ram, s0.i as int, x0 as int, r as int, x));
                        }
                        if row_toggles(byte, x0 as int, 8, x) {
                            assert(sprite_row_hits(s0.ram, s0.i as int, x0 as int, r as int, x));
                            assert(sprite_toggles(
                                s0.ram,
                                s0.i as int,
                                r + 1,
                                x0 as int,
                                y0 as int,
                                x,
                                yy,
                            ));
                        }
                    } else {
                        if sprite_toggles(s0.ram, s0.i as int, r + 1, x0 as int, y0 as int, x, yy) {
                            let rr = choose|rr: int|
                                0 <= rr < r + 1 && (y0 as int + rr) % (CHIP8_HEIGHT as int) == yy
                                    && #[trigger] sprite_row_hits(
                                    s0.ram,
                                    s0.i as int,
                                    x0 as int,
                                    rr,
                                    x,
                                );
                            assert(rr != r as int);
                            assert(sprite_toggles(
                                s0.ram,
                                s0.i as int,
                                r as int,
                                x0 as int,
                                y0 as int,
                                x,
                                yy,
                            ));
                        }
                        if sprite_toggles(s0.ram, s0.i as int, r as int, x0 as int, y0 as int, x, yy) {
                            let rr = choose|rr: int|
                                0 <= rr < r && (y0 as int + rr) % (CHIP8_HEIGHT as int) == yy
                                    && #[trigger] sprite_row_hits(
                                    s0.ram,
                                    s0.i as int,
                                    x0 as int,
                                    rr,
                                    x,
                                );
                            assert(sprite_toggles(
                                s0.ram,
                                s0.i as int,
                                r + 1,
                                x0 as int,
                                y0 as int,
                                x,
                                yy,
                            ));
                        }
                    }
                }
                assert(self@.framebuffer =~~= draw_fb(
                    s0.ram,
                    s0.i as int,
                    r + 1,
                    x0 as int,
                    y0 as int,
                    s0.framebuffer,
                ));
                assert(draw_collision(s0.ram, s0.i as int, r + 1, x0 as int, y0 as int, s0.framebuffer)
                    == (draw_collision(s0.ram, s0.i as int, r as int, x0 as int, y0 as int, s0.framebuffer)
                    || sprite_row_collides(s0.ram, s0.i as int, x0 as int, y0 as int, r as int, s0.framebuffer)))
                    by {
                    if draw_collision(s0.ram, s0.i as int, r + 1, x0 as int, y0 as int, s0.framebuffer) {
                        let rr = choose|rr: int|
                            0 <= rr < r + 1 && #[trigger] sprite_row_collides(
                                s0.ram,
                                s0.i as int,
                                x0 as int,
                                y0 as int,
                                rr,
                                s0.framebuffer,
                            );
                        if rr != r as int {
                            assert(draw_collision(
                                s0.ram,
                                s0.i as int,
                                r as int,
                                x0 as int,
                                y0 as int,
                                s0.framebuffer,
                            ));
                        }
                    }
                    if draw_collision(s0.ram, s0.i as int, r as int, x0 as int, y0 as int, s0.framebuffer) {
                        let rr = choose|rr: int|
                            0 <= rr < r && #[trigger] sprite_row_collides(
                                s0.ram,
                                s0.i as int,
                                x0 as int,
                                y0 as int,
                                rr,
                                s0.framebuffer,
                            );
                        assert(draw_collision(
                            s0.ram,
                            s0.i as int,
                            r + 1,
                            x0 as int,
                            y0 as int,
                            s0.framebuffer,
                        ));
                    }
                    if sprite_row_collides(s0.ram, s0.i as int, x0 as int, y0 as int, r as int, s0.framebuffer) {
                        assert(draw_collision(
                            s0.ram,
                            s0.i as int,
                            r + 1,
                            x0 as int,
                            y0 as int,
                            s0.framebuffer,
                        ));
                    }
                }
            }
            r = r + 1;
        }
        let flag: u8 = if collided {
            1
        } else {
            0
        };
        self.v.set(15, flag);
        self.pc = self.pc + 2;
        proof {
            assert(self@ =~~= spec_step(old(self)@, Opcode::Draw { vx, vy, n })->Ok_0);
        }
        Ok(())
    }

    /// Scan the input latch; capture the highest-indexed pressed key into
    /// the destination register, or leave the program counter in place so
    /// the same instruction is re-fetched next cycle.
    fn op_wait_key(&mut self, vx: usize) -> (r: Result<(), Fault>)
        requires
            old(self)@.wf(),
            vx < NUM_REGISTERS,
            old(self)@.pc + 4 <= RAM_CAPACITY + 2,
        ensures
            final(self)@.wf(),
            (match spec_step(old(self)@, Opcode::WaitForKeyPress { vx }) {
                Ok(s2) => r is Ok && final(self)@ == s2,
                Err(f) => r is Err && r->Err_0 == f && final(self)@ == old(self)@,
            }),
    {
        let mut key_pressed = false;
        let mut k: usize = 0;
        while k < NUM_KEYS
            invariant
                old(self)@.wf(),
                vx < NUM_REGISTERS,
                k <= NUM_KEYS,
                self@ == (MachineSpec { v: self@.v, ..old(self)@ }),
                self@.v.len() == NUM_REGISTERS,
                key_pressed == (last_pressed(old(self)@.keys, k as int) >= 0),
                key_pressed ==> self@.v == old(self)@.v.update(
                    vx as int,
                    last_pressed(old(self)@.keys, k as int) as u8,
                ),
                !key_pressed ==> self@.v == old(self)@.v,
            decreases NUM_KEYS - k,
        {
            if self.input_buffer[k] {
                proof {
                    if key_pressed {
                        assert(old(self)@.v.update(
                            vx as int,
                            last_pressed(old(self)@.keys, k as int) as u8,
                        ).update(vx as int, k as u8) =~= old(self)@.v.update(vx as int, k as u8));
                    }
                }
                self.v.set(vx, k as u8);
                key_pressed = true;
            }
            k = k + 1;
        }
        if key_pressed {
            self.pc = self.pc + 2;
        }
        proof {
            assert(self@ =~~= spec_step(old(self)@, Opcode::WaitForKeyPress { vx })->Ok_0);
        }
        Ok(())
    }

    /// Apply one decoded operation to the machine state, including its
    /// program-counter policy, exactly as `spec_step` says; a fatal
    /// condition is reported to the caller and leaves the state
    /// untouched.
    pub fn execute(&mut self, op: Opcode) -> (r: Result<(), Fault>)
        requires
            old(self)@.wf(),
            wf_opcode(op),
            old(self)@.pc + 4 <= RAM_CAPACITY + 2,
        ensures
            final(self)@.wf(),
            (match spec_step(old(self)@, op) {
                Ok(s2) => r is Ok && final(self)@ == s2,
                Err(f) => r is Err && r->Err_0 == f && final(self)@ == old(self)@,
            }),
    {
        match op {
            Opcode::Clear => {
                self.framebuffer = blank_framebuffer();
                self.pc = self.pc + 2;
                proof {
                    assert(self@ =~~= spec_step(old(self)@, op)->Ok_0);
                }
                Ok(())
            },
            Opcode::Return => {
                if self.sp == 0 {
                    return Err(Fault::StackUnderflow);
                }
                self.pc = self.stack[self.sp - 1] + 2;
                self.sp = self.sp - 1;
                proof {
                    assert(self@ =~~= spec_step(old(self)@, op)->Ok_0);
                }
                Ok(())
            },
            Opcode::Jump { addr } => {
                self.pc = addr;
                proof {
                    assert(self@ =~~= spec_step(old(self)@, op)->Ok_0);
                }
                Ok(())
            },
            Opcode::Call { addr } => {
                if self.sp >= STACK_CAPACITY {
                    return Err(Fault::StackOverflow);
                }
                self.stack.set(self.sp, self.pc);
                self.sp = self.sp + 1;
                self.pc = addr;
                proof {
                    assert(self@ =~~= spec_step(old(self)@, op)->Ok_0);
                }
                Ok(())
            },
            Opcode::SkipIfEqValue { vx, value } => {
                if self.v[vx] == value {
                    self.pc = self.pc + 4;
                } else {
                    self.pc = self.pc + 2;
                }
                proof {
                    assert(self@ =~~= spec_step(old(self)@, op)->Ok_0);
                }
                Ok(())
            },
            Opcode::SkipIfNotEqValue { vx, value } => {
                if self.v[vx] != value {
                    self.pc = self.pc + 4;
                } else {
                    self.pc = self.pc + 2;
                }
                proof {
                    assert(self@ =~~= spec_step(old(self)@, op)->Ok_0);
                }
                Ok(())
            },
            Opcode::SkipIfEqRegister { vx, vy } => {
                if self.v[vx] == self.v[vy] {
                    self.pc = self.pc + 4;
                } else {
                    self.pc = self.pc + 2;
                }
                proof {
                    assert(self@ =~~= spec_step(old(self)@, op)->Ok_0);
                }
                Ok(())
            },
            Opcode::SetValue { vx, value } => {
                self.v.set(vx, value);
                self.pc = self.pc + 2;
                proof {
                    assert(self@ =~~= spec_step(old(self)@, op)->Ok_0);
                }
                Ok(())
            },
            Opcode::AddValue { vx, value } => {
                let sum: u16 = self.v[vx] as u16 + value as u16;
                self.v.set(vx, (sum % 256) as u8);
                self.pc = self.pc + 2;
                proof {
                    assert(self@ =~~= spec_step(old(self)@, op)->Ok_0);
                }
                Ok(())
            },
            Opcode::SetFromRegister { vx, vy } => {
                let byte: u8 = self.v[vy];
                self.v.set(vx, byte);
                self.pc = self.pc + 2;
                proof {
                    assert(self@ =~~= spec_step(old(self)@, op)->Ok_0);
                }
                Ok(())
            },
            Opcode::BitwiseOr { vx, vy } => {
                let byte: u8 = self.v[vx] | self.v[vy];
                self.v.set(vx, byte);
                self.pc = self.pc + 2;
                proof {
                    assert(self@ =~~= spec_step(old(self)@, op)->Ok_0);
                }
                Ok(())
            },
            Opcode::BitwiseAnd { vx, vy } => {
                let byte: u8 = self.v[vx] & self.v[vy];
                self.v.set(vx, byte);
                self.pc = self.pc + 2;
                proof {
                    assert(self@ =~~= spec_step(old(self)@, op)->Ok_0);
                }
                Ok(())
            },
            Opcode::BitwiseXor { vx, vy } => {
                let byte: u8 = self.v[vx] ^ self.v[vy];
                self.v.set(vx, byte);
                self.pc = self.pc + 2;
                proof {
                    assert(self@ =~~= spec_step(old(self)@, op)->Ok_0);
                }
                Ok(())
            },
            Opcode::Add { vx, vy } => {
                let sum: u16 = self.v[vx] as u16 + self.v[vy] as u16;
                let flag: u8 = if sum > 0xFF {
                    1
                } else {
                    0
                };
                self.v.set(15, flag);
                self.v.set(vx, (sum % 256) as u8);
                self.pc = self.pc + 2;
                proof {
                    assert(self@ =~~= spec_step(old(self)@, op)->Ok_0);
                }
                Ok(())
            },
            Opcode::Subtract { vx, vy } => {
                let flag: u8 = if self.v[vx] > self.v[vy] {
                    1
                } else {
                    0
                };
                self.v.set(15, flag);
                let a: u8 = self.v[vx];
                let b: u8 = self.v[vy];
                let diff: u8 = if a >= b {
                    a - b
                } else {
                    (a as u16 + 256 - b as u16) as u8
                };
                self.v.set(vx, diff);
                self.pc = self.pc + 2;
                proof {
                    assert(self@ =~~= spec_step(old(self)@, op)->Ok_0);
                }
                Ok(())
            },
            Opcode::BitwiseShiftRight { vx } => {
                let flag: u8 = self.v[vx] & 1;
                self.v.set(15, flag);
                let a: u8 = self.v[vx];
                self.v.set(vx, a >> 1u8);
                self.pc = self.pc + 2;
                proof {
                    assert(self@ =~~= spec_step(old(self)@, op)->Ok_0);
                }
                Ok(())
            },
            Opcode::SubtractReversed { vx, vy } => {
                let flag: u8 = if self.v[vy] > self.v[vx] {
                    1
                } else {
                    0
                };
                self.v.set(15, flag);
                let a: u8 = self.v[vy];
                let b: u8 = self.v[vx];
                let diff: u8 = if a >= b {
                    a - b
                } else {
                    (a as u16 + 256 - b as u16) as u8
                };
                self.v.set(vx, diff);
                self.pc = self.pc + 2;
                proof {
                    assert(self@ =~~= spec_step(old(self)@, op)->Ok_0);
                }
                Ok(())
            },
            Opcode::BitwiseShiftLeft { vx } => {
                let flag: u8 = (self.v[vx] >> 7u8) & 1;
                self.v.set(15, flag);
                let a: u8 = self.v[vx];
                self.v.set(vx, a << 1u8);
                self.pc = self.pc + 2;
                proof {
                    assert(self@ =~~= spec_step(old(self)@, op)->Ok_0);
                }
                Ok(())
            },
            Opcode::SkipIfNotEqRegister { vx, vy } => {
                if self.v[vx] != self.v[vy] {
                    self.pc = self.pc + 4;
                } else {
                    self.pc = self.pc + 2;
                }
                proof {
                    assert(self@ =~~= spec_step(old(self)@, op)->Ok_0);
                }
                Ok(())
            },
            Opcode::SetI { addr } => {
                self.i = addr;
                self.pc = self.pc + 2;
                proof {
                    assert(self@ =~~= spec_step(old(self)@, op)->Ok_0);
                }
                Ok(())
            },
            Opcode::Draw { vx, vy, n } => self.op_draw(vx, vy, n),
            Opcode::AddIFromRegister { vx } => {
                let delta: usize = self.v[vx] as usize;
                if delta > usize::MAX - self.i {
                    return Err(Fault::IndexOverflow);
                }
                self.i = self.i + delta;
                self.pc = self.pc + 2;
                proof {
                    assert(self@ =~~= spec_step(old(self)@, op)->Ok_0);
                }
                Ok(())
            },
            Opcode::StoreBCD { vx } => self.op_store_bcd(vx),
            Opcode::StoreRegistersInMemory { vx } => self.op_block_store(vx),
            Opcode::ReadRegistersFromMemory { vx } => self.op_block_load(vx),
            Opcode::GetDelayTimerValue { vx } => {
                let byte: u8 = self.delay_timer;
                self.v.set(vx, byte);
                self.pc = self.pc + 2;
                proof {
                    assert(self@ =~~= spec_step(old(self)@, op)->Ok_0);
                }
                Ok(())
            },
            Opcode::SetDelayTimerFromRegister { vx } => {
                self.delay_timer = self.v[vx];
                self.pc = self.pc + 2;
                proof {
                    assert(self@ =~~= spec_step(old(self)@, op)->Ok_0);
                }
                Ok(())
            },
            Opcode::WaitForKeyPress { vx } => self.op_wait_key(vx),
            Opcode::SetIToDigitSpriteLocation { vx } => {
                self.i = self.v[vx] as usize * FONT_GLYPH_STRIDE;
                self.pc = self.pc + 2;
                proof {
                    assert(self@ =~~= spec_step(old(self)@, op)->Ok_0);
                }
                Ok(())
            },
            Opcode::SkipIfKeyPressed { vx } => {
                let key: usize = self.v[vx] as usize;
                if key >= NUM_KEYS {
                    return Err(Fault::KeyOutOfRange);
                }
                if self.input_buffer[key] {
                    self.pc = self.pc + 4;
                } else {
                    self.pc = self.pc + 2;
                }
                proof {
                    assert(self@ =~~= spec_step(old(self)@, op)->Ok_0);
                }
                Ok(())
            },
            Opcode::SkipIfKeyNotPressed { vx } => {
                let key: usize = self.v[vx] as usize;
                if key >= NUM_KEYS {
                    return Err(Fault::KeyOutOfRange);
                }
                if !self.input_buffer[key] {
                    self.pc = self.pc + 4;
                } else {
                    self.pc = self.pc + 2;
                }
                proof {
                    assert(self@ =~~= spec_step(old(self)@, op)->Ok_0);
                }
                Ok(())
            },
            Opcode::Unrecognized { word } => {
                self.pc = self.pc + 2;
                proof {
                    assert(self@ =~~= spec_step(old(self)@, op)->Ok_0);
                }
                Ok(())
            },
        }
    }

    /// One whole cycle: fetch the two bytes at the program counter,
    /// decode them, execute the operation. Returns the decoded operation
    /// (an `Unrecognized` one is the diagnostic signal for a no-op), or
    /// the fatal condition, which leaves the state untouched.
    pub fn next_instruction(&mut self) -> (r: Result<Opcode, Fault>)
        requires
            old(self)@.wf(),
        ensures
            final(self)@.wf(),
            (match spec_next(old(self)@) {
                Ok(s2) => {
                    &&& r is Ok
                    &&& r->Ok_0 == spec_decode(spec_fetch(old(self)@))
                    &&& final(self)@ == s2
                },
                Err(f) => r is Err && r->Err_0 == f && final(self)@ == old(self)@,
            }),
    {
        if self.pc > RAM_CAPACITY - 2 {
            return Err(Fault::PcOutOfRange);
        }
        let hi: u8 = self.ram[self.pc];
        let lo: u8 = self.ram[self.pc + 1];
        let word: u16 = ((hi as u16) << 8u16) | (lo as u16);
        let opcode = translate_instruction(word);
        proof {
            assert(word == spec_fetch(old(self)@));
        }
        match self.execute(opcode) {
            Ok(()) => Ok(opcode),
            Err(f) => Err(f),
        }
    }
}

} // verus!
