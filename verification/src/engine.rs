//! The execution engine's semantics: what applying one decoded operation
//! does to the machine state, as a mathematical step function. The
//! executable engine in `machine` is verified against `spec_step`, and the
//! laws in `laws` are proved from it.

use vstd::prelude::*;
use crate::machine::{
    blank_framebuffer_spec, Fault, MachineSpec, CHIP8_HEIGHT, CHIP8_WIDTH, NUM_KEYS,
    RAM_CAPACITY, STACK_CAPACITY,
};
use crate::opcodes::Opcode;

verus! {

/// The sum of two registers wrapped to a byte.
pub open spec fn sum_wrapped(a: u8, b: u8) -> u8 {
    ((a + b) % 256) as u8
}

/// The difference of two registers wrapped to a byte.
pub open spec fn diff_wrapped(a: u8, b: u8) -> u8 {
    if a >= b {
        (a - b) as u8
    } else {
        (a + 256 - b) as u8
    }
}

/// Bit `c` of a sprite byte counted from the most significant end:
/// column `c` of the 8-pixel-wide sprite row.
pub open spec fn sprite_bit(byte: u8, c: int) -> bool {
    ((byte >> ((7 - c) as u8)) & 1) == 1
}

/// Whether drawing the sprite row `byte` with horizontal origin `x0`
/// toggles the pixel at column `x`, considering only the sprite's first
/// `cb` columns. Column math wraps modulo the display width.
pub open spec fn row_toggles(byte: u8, x0: int, cb: int, x: int) -> bool {
    exists|c: int|
        0 <= c < cb && #[trigger] sprite_bit(byte, c) && (x0 + c) % (CHIP8_WIDTH as int) == x
}

/// Whether drawing the sprite row `byte` with horizontal origin `x0` over
/// the display row `row` turns some set pixel unset, considering only the
/// sprite's first `cb` columns.
pub open spec fn row_collision(byte: u8, x0: int, cb: int, row: Seq<bool>) -> bool {
    exists|c: int|
        0 <= c < cb && #[trigger] sprite_bit(byte, c) && row[(x0 + c) % (CHIP8_WIDTH as int)]
}

/// Whether sprite row `r` (stored at `ram[i + r]`) toggles the pixel at
/// column `x` of its display row.
pub open spec fn sprite_row_hits(ram: Seq<u8>, i: int, x0: int, r: int, x: int) -> bool {
    row_toggles(ram[i + r], x0, 8, x)
}

/// Whether drawing the `n`-row sprite stored at `ram[i ..]` with origin
/// `(x0, y0)` toggles the pixel at `(x, y)`. Row math wraps modulo the
/// display height.
pub open spec fn sprite_toggles(
    ram: Seq<u8>,
    i: int,
    n: int,
    x0: int,
    y0: int,
    x: int,
    y: int,
) -> bool {
    exists|r: int|
        0 <= r < n && (y0 + r) % (CHIP8_HEIGHT as int) == y && #[trigger] sprite_row_hits(
            ram,
            i,
            x0,
            r,
            x,
        )
}

/// The display surface after drawing the `n`-row sprite stored at
/// `ram[i ..]` with origin `(x0, y0)`: every pixel a sprite bit lands on
/// is toggled (drawing is XOR).
pub open spec fn draw_fb(
    ram: Seq<u8>,
    i: int,
    n: int,
    x0: int,
    y0: int,
    fb: Seq<Seq<bool>>,
) -> Seq<Seq<bool>> {
    Seq::new(
        CHIP8_HEIGHT as nat,
        |y: int|
            Seq::new(
                CHIP8_WIDTH as nat,
                |x: int| fb[y][x] != sprite_toggles(ram, i, n, x0, y0, x, y),
            ),
    )
}

/// Whether sprite row `r` collides on `fb`: some set bit of it lands on a
/// pixel of `fb` that is already set.
pub open spec fn sprite_row_collides(
    ram: Seq<u8>,
    i: int,
    x0: int,
    y0: int,
    r: int,
    fb: Seq<Seq<bool>>,
) -> bool {
    row_collision(ram[i + r], x0, 8, fb[(y0 + r) % (CHIP8_HEIGHT as int)])
}

/// The collision indicator of a draw: whether any toggle turned a set
/// pixel unset, that is, whether some sprite bit landed on a set pixel.
pub open spec fn draw_collision(
    ram: Seq<u8>,
    i: int,
    n: int,
    x0: int,
    y0: int,
    fb: Seq<Seq<bool>>,
) -> bool {
    exists|r: int| 0 <= r < n && #[trigger] sprite_row_collides(ram, i, x0, y0, r, fb)
}

/// The highest-indexed pressed key below `k`, or -1 if none is pressed:
/// the key the input-latch scan reports.
pub open spec fn last_pressed(keys: Seq<bool>, k: int) -> int
    decreases k,
{
    if k <= 0 {
        -1
    } else if keys[k - 1] {
        k - 1
    } else {
        last_pressed(keys, k - 1)
    }
}

/// Memory after a block store: registers `0 ..= vx` copied to
/// `ram[i ..= i + vx]`, the rest untouched.
pub open spec fn block_store_ram(ram: Seq<u8>, v: Seq<u8>, i: int, vx: int) -> Seq<u8> {
    Seq::new(
        RAM_CAPACITY as nat,
        |j: int|
            if i <= j <= i + vx {
                v[j - i]
            } else {
                ram[j]
            },
    )
}

/// The register file after a block load: registers `0 ..= vx` read from
/// `ram[i ..= i + vx]`, the rest untouched.
pub open spec fn block_load_v(ram: Seq<u8>, v: Seq<u8>, i: int, vx: int) -> Seq<u8> {
    Seq::new(
        16,
        |j: int|
            if j <= vx {
                ram[i + j]
            } else {
                v[j]
            },
    )
}

/// What applying one operation does to the machine state: the new state,
/// or the fatal condition the engine reports. The program counter gets
/// the default two-byte advance unless the operation's own policy says
/// otherwise.
pub open spec fn spec_step(s: MachineSpec, op: Opcode) -> Result<MachineSpec, Fault> {
    match op {
        Opcode::Clear => Ok(
            MachineSpec { framebuffer: blank_framebuffer_spec(), pc: (s.pc + 2) as usize, ..s },
        ),
        Opcode::Return => {
            if s.sp == 0 {
                Err(Fault::StackUnderflow)
            } else {
                Ok(
                    MachineSpec {
                        pc: (s.stack[s.sp - 1] + 2) as usize,
                        sp: (s.sp - 1) as usize,
                        ..s
                    },
                )
            }
        },
        Opcode::Jump { addr } => Ok(MachineSpec { pc: addr, ..s }),
        Opcode::Call { addr } => {
            if s.sp >= STACK_CAPACITY {
                Err(Fault::StackOverflow)
            } else {
                Ok(
                    MachineSpec {
                        stack: s.stack.update(s.sp as int, s.pc),
                        sp: (s.sp + 1) as usize,
                        pc: addr,
                        ..s
                    },
                )
            }
        },
        Opcode::SkipIfEqValue { vx, value } => Ok(
            MachineSpec {
                pc: if s.v[vx as int] == value {
                    (s.pc + 4) as usize
                } else {
                    (s.pc + 2) as usize
                },
                ..s
            },
        ),
        Opcode::SkipIfNotEqValue { vx, value } => Ok(
            MachineSpec {
                pc: if s.v[vx as int] != value {
                    (s.pc + 4) as usize
                } else {
                    (s.pc + 2) as usize
                },
                ..s
            },
        ),
        Opcode::SkipIfEqRegister { vx, vy } => Ok(
            MachineSpec {
                pc: if s.v[vx as int] == s.v[vy as int] {
                    (s.pc + 4) as usize
                } else {
                    (s.pc + 2) as usize
                },
                ..s
            },
        ),
        Opcode::SetValue { vx, value } => Ok(
            MachineSpec { v: s.v.update(vx as int, value), pc: (s.pc + 2) as usize, ..s },
        ),
        Opcode::AddValue { vx, value } => Ok(
            MachineSpec {
                v: s.v.update(vx as int, sum_wrapped(s.v[vx as int], value)),
                pc: (s.pc + 2) as usize,
                ..s
            },
        ),
        Opcode::SetFromRegister { vx, vy } => Ok(
            MachineSpec { v: s.v.update(vx as int, s.v[vy as int]), pc: (s.pc + 2) as usize, ..s },
        ),
        Opcode::BitwiseOr { vx, vy } => Ok(
            MachineSpec {
                v: s.v.update(vx as int, s.v[vx as int] | s.v[vy as int]),
                pc: (s.pc + 2) as usize,
                ..s
            },
        ),
        Opcode::BitwiseAnd { vx, vy } => Ok(
            MachineSpec {
                v: s.v.update(vx as int, s.v[vx as int] & s.v[vy as int]),
                pc: (s.pc + 2) as usize,
                ..s
            },
        ),
        Opcode::BitwiseXor { vx, vy } => Ok(
            MachineSpec {
                v: s.v.update(vx as int, s.v[vx as int] ^ s.v[vy as int]),
                pc: (s.pc + 2) as usize,
                ..s
            },
        ),
        Opcode::Add { vx, vy } => {
            let total = s.v[vx as int] + s.v[vy as int];
            let flag: u8 = if total > 255 {
                1
            } else {
                0
            };
            Ok(
                MachineSpec {
                    v: s.v.update(15, flag).update(vx as int, (total % 256) as u8),
                    pc: (s.pc + 2) as usize,
                    ..s
                },
            )
        },
        Opcode::Subtract { vx, vy } => {
            let flag: u8 = if s.v[vx as int] > s.v[vy as int] {
                1
            } else {
                0
            };
            let v1 = s.v.update(15, flag);
            Ok(
                MachineSpec {
                    v: v1.update(vx as int, diff_wrapped(v1[vx as int], v1[vy as int])),
                    pc: (s.pc + 2) as usize,
                    ..s
                },
            )
        },
        Opcode::BitwiseShiftRight { vx } => {
            let flag: u8 = s.v[vx as int] & 1;
            let v1 = s.v.update(15, flag);
            Ok(
                MachineSpec {
                    v: v1.update(vx as int, v1[vx as int] >> 1u8),
                    pc: (s.pc + 2) as usize,
                    ..s
                },
            )
        },
        Opcode::SubtractReversed { vx, vy } => {
            let flag: u8 = if s.v[vy as int] > s.v[vx as int] {
                1
            } else {
                0
            };
            let v1 = s.v.update(15, flag);
            Ok(
                MachineSpec {
                    v: v1.update(vx as int, diff_wrapped(v1[vy as int], v1[vx as int])),
                    pc: (s.pc + 2) as usize,
                    ..s
                },
            )
        },
        Opcode::BitwiseShiftLeft { vx } => {
            let flag: u8 = (s.v[vx as int] >> 7u8) & 1;
            let v1 = s.v.update(15, flag);
            Ok(
                MachineSpec {
                    v: v1.update(vx as int, v1[vx as int] << 1u8),
                    pc: (s.pc + 2) as usize,
                    ..s
                },
            )
        },
        Opcode::SkipIfNotEqRegister { vx, vy } => Ok(
            MachineSpec {
                pc: if s.v[vx as int] != s.v[vy as int] {
                    (s.pc + 4) as usize
                } else {
                    (s.pc + 2) as usize
                },
                ..s
            },
        ),
        Opcode::SetI { addr } => Ok(MachineSpec { i: addr, pc: (s.pc + 2) as usize, ..s }),
        Opcode::Draw { vx, vy, n } => {
            if n > 0 && s.i + n > RAM_CAPACITY {
                Err(Fault::MemoryOutOfRange)
            } else {
                let x0 = s.v[vx as int] as int;
                let y0 = s.v[vy as int] as int;
                let flag: u8 = if draw_collision(s.ram, s.i as int, n as int, x0, y0, s.framebuffer) {
                    1
                } else {
                    0
                };
                Ok(
                    MachineSpec {
                        framebuffer: draw_fb(s.ram, s.i as int, n as int, x0, y0, s.framebuffer),
                        v: s.v.update(15, flag),
                        pc: (s.pc + 2) as usize,
                        ..s
                    },
                )
            }
        },
        Opcode::AddIFromRegister { vx } => {
            if s.i + s.v[vx as int] > usize::MAX {
                Err(Fault::IndexOverflow)
            } else {
                Ok(
                    MachineSpec {
                        i: (s.i + s.v[vx as int]) as usize,
                        pc: (s.pc + 2) as usize,
                        ..s
                    },
                )
            }
        },
        Opcode::StoreBCD { vx } => {
            if s.i + 3 > RAM_CAPACITY {
                Err(Fault::MemoryOutOfRange)
            } else {
                let value = s.v[vx as int];
                Ok(
                    MachineSpec {
                        ram: s.ram.update(s.i as int, (value / 100) as u8).update(
                            s.i + 1,
                            ((value / 10) % 10) as u8,
                        ).update(s.i + 2, (value % 10) as u8),
                        pc: (s.pc + 2) as usize,
                        ..s
                    },
                )
            }
        },
        Opcode::StoreRegistersInMemory { vx } => {
            if s.i + vx + 1 > RAM_CAPACITY {
                Err(Fault::MemoryOutOfRange)
            } else {
                Ok(
                    MachineSpec {
                        ram: block_store_ram(s.ram, s.v, s.i as int, vx as int),
                        pc: (s.pc + 2) as usize,
                        ..s
                    },
                )
            }
        },
        Opcode::ReadRegistersFromMemory { vx } => {
            if s.i + vx + 1 > RAM_CAPACITY {
                Err(Fault::MemoryOutOfRange)
            } else {
                Ok(
                    MachineSpec {
                        v: block_load_v(s.ram, s.v, s.i as int, vx as int),
                        pc: (s.pc + 2) as usize,
                        ..s
                    },
                )
            }
        },
        Opcode::GetDelayTimerValue { vx } => Ok(
            MachineSpec { v: s.v.update(vx as int, s.delay_timer), pc: (s.pc + 2) as usize, ..s },
        ),
        Opcode::SetDelayTimerFromRegister { vx } => Ok(
            MachineSpec { delay_timer: s.v[vx as int], pc: (s.pc + 2) as usize, ..s },
        ),
        Opcode::WaitForKeyPress { vx } => {
            let k = last_pressed(s.keys, NUM_KEYS as int);
            if k >= 0 {
                Ok(
                    MachineSpec {
                        v: s.v.update(vx as int, k as u8),
                        pc: (s.pc + 2) as usize,
                        ..s
                    },
                )
            } else {
                Ok(s)
            }
        },
        Opcode::SetIToDigitSpriteLocation { vx } => Ok(
            MachineSpec { i: (s.v[vx as int] * 5) as usize, pc: (s.pc + 2) as usize, ..s },
        ),
        Opcode::SkipIfKeyPressed { vx } => {
            if s.v[vx as int] >= NUM_KEYS {
                Err(Fault::KeyOutOfRange)
            } else {
                Ok(
                    MachineSpec {
                        pc: if s.keys[s.v[vx as int] as int] {
                            (s.pc + 4) as usize
                        } else {
                            (s.pc + 2) as usize
                        },
                        ..s
                    },
                )
            }
        },
        Opcode::SkipIfKeyNotPressed { vx } => {
            if s.v[vx as int] >= NUM_KEYS {
                Err(Fault::KeyOutOfRange)
            } else {
                Ok(
                    MachineSpec {
                        pc: if !s.keys[s.v[vx as int] as int] {
                            (s.pc + 4) as usize
                        } else {
                            (s.pc + 2) as usize
                        },
                        ..s
                    },
                )
            }
        },
        Opcode::Unrecognized { word } => Ok(MachineSpec { pc: (s.pc + 2) as usize, ..s }),
    }
}

/// Adding distinct offsets below the modulus to the same base lands on
/// distinct residues: the coordinate wrap of a draw never makes two
/// sprite cells collide.
pub proof fn lemma_mod_small_inj(b: int, r1: int, r2: int, m: int)
    requires
        m > 0,
        0 <= b,
        0 <= r1 < m,
        0 <= r2 < m,
        (b + r1) % m == (b + r2) % m,
    ensures
        r1 == r2,
{
    let q1 = (b + r1) / m;
    let q2 = (b + r2) / m;
    vstd::arithmetic::div_mod::lemma_fundamental_div_mod(b + r1, m);
    vstd::arithmetic::div_mod::lemma_fundamental_div_mod(b + r2, m);
    assert(r1 == r2) by (nonlinear_arith)
        requires
            b + r1 == m * q1 + ((b + r1) % m),
            b + r2 == m * q2 + ((b + r2) % m),
            (b + r1) % m == (b + r2) % m,
            0 <= r1 < m,
            0 <= r2 < m,
    ;
}

/// The instruction word fetched at the program counter: two bytes,
/// big-endian.
pub open spec fn spec_fetch(s: MachineSpec) -> u16 {
    ((s.ram[s.pc as int] as u16) << 8u16) | (s.ram[s.pc + 1] as u16)
}

/// One whole cycle: fetch the word at the program counter, decode it,
/// apply it. A program counter that does not reference two bytes inside
/// memory is a fatal condition.
pub open spec fn spec_next(s: MachineSpec) -> Result<MachineSpec, Fault> {
    if s.pc + 2 > RAM_CAPACITY {
        Err(Fault::PcOutOfRange)
    } else {
        spec_step(s, crate::opcodes::spec_decode(spec_fetch(s)))
    }
}

} // verus!
