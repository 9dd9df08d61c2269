use vstd::prelude::*;
use crate::machine::{
    CrispView, CrispError, Status, ISA, pixel_at, all_off, MEM_SIZE, FONT_START, STACK_LIMIT,
    DISPLAY_WIDTH, DISPLAY_HEIGHT,
};
use crate::decode::{op_w, op_x, op_y, op_z, op_nn, op_nnn};

verus! {

/// The state after the uniform advance to the next instruction.
pub open spec fn advance(s: CrispView) -> CrispView {
    CrispView { pc: (s.pc + 2) as u16, ..s }
}

/// An instruction that does not set the program counter itself: its effects,
/// then the uniform advance.
pub open spec fn done(s: CrispView) -> (CrispView, Result<(), CrispError>) {
    (advance(s), Ok(()))
}

/// An instruction that sets the program counter itself: no further advance.
pub open spec fn jumped(s: CrispView, target: u16) -> (CrispView, Result<(), CrispError>) {
    (CrispView { pc: target, ..s }, Ok(()))
}

/// A fatal condition: the state is left exactly as it was.
pub open spec fn fail(s: CrispView, e: CrispError) -> (CrispView, Result<(), CrispError>) {
    (s, Err(e))
}

/// A conditional skip: past the next instruction if `cond` holds, else just
/// the uniform advance.
pub open spec fn skip_if(s: CrispView, cond: bool) -> (CrispView, Result<(), CrispError>) {
    (CrispView { pc: (s.pc + if cond { 4int } else { 2int }) as u16, ..s }, Ok(()))
}

/// The register-to-register group, keyed by nibble `z`: the new value of
/// `Vx` and, where the operation defines one, the new value of the flag
/// register `VF`. `None` when `z` names no operation.
pub open spec fn alu_step(z: u8, vx: u8, vy: u8) -> Option<(u8, Option<u8>)> {
    if z == 0 {
        Some((vy, None))
    } else if z == 1 {
        Some(((vx | vy) as u8, None))
    } else if z == 2 {
        Some(((vx & vy) as u8, None))
    } else if z == 3 {
        Some(((vx ^ vy) as u8, None))
    } else if z == 4 {
        Some((((vx + vy) % 256) as u8, Some(if vx + vy > 255 { 1u8 } else { 0u8 })))
    } else if z == 5 {
        Some((
            if vx >= vy { (vx - vy) as u8 } else { (vx - vy + 256) as u8 },
            Some(if vx < vy { 1u8 } else { 0u8 }),
        ))
    } else if z == 6 {
        Some(((vx / 2) as u8, Some((vx % 2) as u8)))
    } else if z == 7 {
        Some((
            if vy >= vx { (vy - vx) as u8 } else { (vy - vx + 256) as u8 },
            Some(if vy < vx { 1u8 } else { 0u8 }),
        ))
    } else if z == 0xE {
        Some((((vx * 2) % 256) as u8, Some((vx / 128) as u8)))
    } else {
        None
    }
}

/// Registers after an ALU operation: `Vx` first, then — as the last step, so
/// that `VF` may itself be an operand — the flag.
pub open spec fn apply_alu(regs: Seq<u8>, x: int, res: u8, flag: Option<u8>) -> Seq<u8> {
    let with_res = regs.update(x, res);
    match flag {
        Some(f) => with_res.update(15, f),
        None => with_res,
    }
}

/// Whether the sprite drawn at `(vx, vy)` with `rows` rows covers the display
/// cell at row `r`, column `c` (both already inside the grid).
pub open spec fn draw_covers(vx: u8, vy: u8, rows: u8, r: int, c: int) -> bool {
    vy <= r < vy + rows && vx <= c < vx + 8
}

/// Bit `k` of a sprite byte, most significant first: bit 0 is the leftmost
/// pixel.
pub open spec fn sprite_bit(b: u8, k: int) -> bool {
    (b >> ((7 - k) as u8)) & 1 == 1
}

/// The sprite bit aimed at display cell `(r, c)` by a draw at `(vx, vy)`.
pub open spec fn sprite_bit_at(s: CrispView, vx: u8, vy: u8, r: int, c: int) -> bool {
    sprite_bit(s.memory[s.i + (r - vy)], c - vx)
}

/// One display pixel after a draw: covered cells take the XOR of the sprite
/// bit aimed at them, all others are untouched. Sprite pixels aimed outside
/// the grid fall on no cell at all: they are dropped, not wrapped.
pub open spec fn draw_pixel(s: CrispView, vx: u8, vy: u8, rows: u8, r: int, c: int) -> bool {
    if draw_covers(vx, vy, rows, r, c) {
        pixel_at(s.display, r, c) != sprite_bit_at(s, vx, vy, r, c)
    } else {
        pixel_at(s.display, r, c)
    }
}

/// The whole display after a draw.
pub open spec fn draw_display(s: CrispView, vx: u8, vy: u8, rows: u8) -> Seq<bool> {
    Seq::new(s.display.len(), |p: int| draw_pixel(s, vx, vy, rows, p / 64, p % 64))
}

/// Whether the draw turned any pixel from on to off: a set sprite bit aimed
/// at a cell that was already on.
pub open spec fn draw_collision(s: CrispView, vx: u8, vy: u8, rows: u8) -> bool {
    exists|r: int, c: int|
        0 <= r < DISPLAY_HEIGHT && 0 <= c < DISPLAY_WIDTH && draw_covers(vx, vy, rows, r, c)
            && pixel_at(s.display, r, c) && sprite_bit_at(s, vx, vy, r, c)
}

/// Memory after the block store: registers `V0..Vx` inclusive written in
/// ascending order starting at `base`; everything else untouched.
pub open spec fn store_regs(mem: Seq<u8>, base: int, x: int, regs: Seq<u8>) -> Seq<u8> {
    Seq::new(mem.len(), |a: int| if base <= a <= base + x {
        regs[a - base]
    } else {
        mem[a]
    })
}

/// Registers after the block load: `V0..Vx` inclusive read in ascending order
/// starting at `base`; the higher registers untouched.
pub open spec fn load_regs(regs: Seq<u8>, mem: Seq<u8>, base: int, x: int) -> Seq<u8> {
    Seq::new(regs.len(), |k: int| if k <= x {
        mem[base + k]
    } else {
        regs[k]
    })
}

/// Memory after the decimal decomposition of `v`: hundreds, tens, ones at
/// `base`, `base + 1`, `base + 2`.
pub open spec fn bcd_memory(mem: Seq<u8>, base: int, v: u8) -> Seq<u8> {
    mem.update(base, (v / 100) as u8).update(base + 1, ((v / 10) % 10) as u8).update(
        base + 2,
        (v % 10) as u8,
    )
}

/// One instruction of the base instruction set: fetch the two bytes at the
/// program counter, decode, execute, and advance — by exactly 2 unless the
/// instruction sets the program counter itself. `rb` is the byte the random
/// source supplied for this cycle; only the random-mask instruction reads it.
/// On every `Err` the state is exactly the input state.
pub open spec fn chip8_step_spec(s: CrispView, rb: u8) -> (CrispView, Result<(), CrispError>) {
    if s.pc + 1 >= MEM_SIZE {
        fail(s, CrispError::FetchOutOfBounds)
    } else {
        let w = op_w(s);
        let x = op_x(s) as int;
        let z = op_z(s);
        let nn = op_nn(s);
        let nnn = op_nnn(s);
        let vx = s.regs[x];
        let vy = s.regs[op_y(s) as int];
        if w == 0 {
            if nnn == 0x0E0 {
                done(CrispView { display: all_off(), ..s })
            } else if nnn == 0x0EE {
                if s.stack.len() == 0 {
                    fail(s, CrispError::StackUnderflow)
                } else {
                    jumped(CrispView { stack: s.stack.drop_last(), ..s }, s.stack.last())
                }
            } else {
                fail(s, CrispError::UnknownOpcode)
            }
        } else if w == 1 {
            jumped(s, nnn)
        } else if w == 2 {
            if s.stack.len() >= STACK_LIMIT {
                fail(s, CrispError::StackOverflow)
            } else {
                jumped(CrispView { stack: s.stack.push((s.pc + 2) as u16), ..s }, nnn)
            }
        } else if w == 3 {
            skip_if(s, vx == nn)
        } else if w == 4 {
            skip_if(s, vx != nn)
        } else if w == 5 {
            if z == 0 {
                skip_if(s, vx == vy)
            } else {
                fail(s, CrispError::UnknownOpcode)
            }
        } else if w == 6 {
            done(CrispView { regs: s.regs.update(x, nn), ..s })
        } else if w == 7 {
            done(CrispView { regs: s.regs.update(x, ((vx + nn) % 256) as u8), ..s })
        } else if w == 8 {
            match alu_step(z, vx, vy) {
                Some((res, flag)) => done(CrispView { regs: apply_alu(s.regs, x, res, flag), ..s }),
                None => fail(s, CrispError::UnknownOpcode),
            }
        } else if w == 9 {
            if z == 0 {
                skip_if(s, vx != vy)
            } else {
                fail(s, CrispError::UnknownOpcode)
            }
        } else if w == 0xA {
            done(CrispView { i: nnn, ..s })
        } else if w == 0xB {
            jumped(s, (nnn + s.regs[0]) as u16)
        } else if w == 0xC {
            done(CrispView { regs: s.regs.update(x, (rb & nn) as u8), ..s })
        } else if w == 0xD {
            if z > 0 && s.i + z > MEM_SIZE {
                fail(s, CrispError::FetchOutOfBounds)
            } else {
                done(CrispView {
                    display: draw_display(s, vx, vy, z),
                    regs: s.regs.update(15, if draw_collision(s, vx, vy, z) { 1u8 } else { 0u8 }),
                    ..s
                })
            }
        } else if w == 0xE {
            if nn == 0x9E {
                skip_if(s, s.keys[(vx % 16) as int])
            } else if nn == 0xA1 {
                skip_if(s, !s.keys[(vx % 16) as int])
            } else {
                fail(s, CrispError::UnknownOpcode)
            }
        } else {
            if nn == 0x07 {
                done(CrispView { regs: s.regs.update(x, s.delay), ..s })
            } else if nn == 0x0A {
                (CrispView { status: Status::AwaitingKey { dest: op_x(s) }, ..s }, Ok(()))
            } else if nn == 0x15 {
                done(CrispView { delay: vx, ..s })
            } else if nn == 0x18 {
                done(CrispView { sound: vx, ..s })
            } else if nn == 0x1E {
                done(CrispView { i: ((s.i + vx) % 0x10000) as u16, ..s })
            } else if nn == 0x29 {
                done(CrispView { i: (FONT_START + 5 * (vx % 16)) as u16, ..s })
            } else if nn == 0x33 {
                if s.i + 2 >= MEM_SIZE {
                    fail(s, CrispError::FetchOutOfBounds)
                } else {
                    done(CrispView { memory: bcd_memory(s.memory, s.i as int, vx), ..s })
                }
            } else if nn == 0x55 {
                if s.i + x >= MEM_SIZE {
                    fail(s, CrispError::FetchOutOfBounds)
                } else {
                    done(CrispView { memory: store_regs(s.memory, s.i as int, x, s.regs), ..s })
                }
            } else if nn == 0x65 {
                if s.i + x >= MEM_SIZE {
                    fail(s, CrispError::FetchOutOfBounds)
                } else {
                    done(CrispView { regs: load_regs(s.regs, s.memory, s.i as int, x), ..s })
                }
            } else {
                fail(s, CrispError::UnknownOpcode)
            }
        }
    }
}

/// One call of the engine, whatever the machine's condition: a variant other
/// than the base instruction set has no decode table and reports every
/// instruction unknown; a machine suspended on the key wait does nothing
/// until the key arrives; otherwise one base instruction executes.
pub open spec fn step_spec(s: CrispView, rb: u8) -> (CrispView, Result<(), CrispError>) {
    if !(s.isa == ISA::Chip8) {
        (s, Err(CrispError::UnknownOpcode))
    } else if s.status is AwaitingKey {
        (s, Ok(()))
    } else {
        chip8_step_spec(s, rb)
    }
}

} // verus!
