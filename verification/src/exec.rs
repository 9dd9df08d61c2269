use vstd::prelude::*;
use vstd::pervasive::VecAdditionalExecFns;
use crate::machine::{
    Crisp, CrispView, CrispError, Status, ISA, pixel_at, cell, MEM_SIZE, DISPLAY_WIDTH,
    DISPLAY_HEIGHT, DISPLAY_CELLS, FONT_START, STACK_LIMIT,
};
use crate::semantics::{
    alu_step, draw_covers, sprite_bit_at, draw_pixel, draw_display, draw_collision, store_regs,
    load_regs, chip8_step_spec, step_spec,
};
use crate::decode::{op_w, op_x, op_y, op_z, op_nn, op_nnn, fetched_lo};

verus! {

/// Every display index names exactly one grid cell, and the cell names the
/// index back.
proof fn lemma_grid_bijection(p: int)
    requires
        0 <= p < DISPLAY_CELLS,
    ensures
        0 <= p / 64 < DISPLAY_HEIGHT,
        0 <= p % 64 < DISPLAY_WIDTH,
        cell(p / 64, p % 64) == p,
{
    vstd::arithmetic::div_mod::lemma_fundamental_div_mod(p, 64);
    vstd::arithmetic::div_mod::lemma_mod_bound(p, 64);
}

/// The register-to-register group, computed exactly as `alu_step` states it.
fn alu_compute(z: u8, vx: u8, vy: u8) -> (r: Option<(u8, Option<u8>)>)
    ensures
        r == alu_step(z, vx, vy),
{
    match z {
        0 => Some((vy, None)),
        1 => Some((vx | vy, None)),
        2 => Some((vx & vy, None)),
        3 => Some((vx ^ vy, None)),
        4 => {
            let sum: u16 = vx as u16 + vy as u16;
            Some((((sum % 256) as u8), Some(if sum > 255 { 1 } else { 0 })))
        },
        5 => {
            if vx >= vy {
                Some((vx - vy, Some(0)))
            } else {
                Some((((vx as u16 + 256 - vy as u16) as u8), Some(1)))
            }
        },
        6 => {
            proof {
                assert(vx >> 1u8 == vx / 2 && vx & 1 == vx % 2) by (bit_vector);
            }
            Some((vx >> 1, Some(vx & 1)))
        },
        7 => {
            if vy >= vx {
                Some((vy - vx, Some(0)))
            } else {
                Some((((vy as u16 + 256 - vx as u16) as u8), Some(1)))
            }
        },
        0xE => {
            proof {
                assert(vx >> 7u8 == vx / 128) by (bit_vector);
            }
            let dbl: u16 = vx as u16 * 2;
            Some((((dbl % 256) as u8), Some(vx >> 7)))
        },
        _ => None,
    }
}

impl Crisp {
    /// Block-copy registers `V0..Vx` inclusive into memory at the index
    /// register, which itself stays untouched.
    fn op_store(&mut self, x: u8)
        requires
            old(self).wf(),
            x < 16,
            old(self)@.i + x < MEM_SIZE,
        ensures
            final(self).wf(),
            final(self)@ == (CrispView {
                memory: store_regs(old(self)@.memory, old(self)@.i as int, x as int, old(self)@.regs),
                ..old(self)@
            }),
    {
        let base = self.i as usize;
        let mut k: usize = 0;
        while k <= x as usize
            invariant
                old(self).wf(),
                x < 16,
                base == old(self)@.i,
                base + x < MEM_SIZE,
                k <= x + 1,
                self@ == (CrispView { memory: self.memory@, ..old(self)@ }),
                self.memory@.len() == MEM_SIZE,
                forall|a: int| 0 <= a < MEM_SIZE ==> self.memory@[a] == (
                    if base <= a < base + k {
                        old(self)@.regs[a - base]
                    } else {
                        old(self)@.memory[a]
                    }
                ),
            decreases x + 1 - k,
        {
            let val = self.variable_register[k];
            self.memory.set(base + k, val);
            k += 1;
        }
        proof {
            assert(self.memory@ =~= store_regs(
                old(self)@.memory,
                old(self)@.i as int,
                x as int,
                old(self)@.regs,
            ));
        }
    }

    /// Block-load registers `V0..Vx` inclusive from memory at the index
    /// register, which itself stays untouched.
    fn op_load(&mut self, x: u8)
        requires
            old(self).wf(),
            x < 16,
            old(self)@.i + x < MEM_SIZE,
        ensures
            final(self).wf(),
            final(self)@ == (CrispView {
                regs: load_regs(old(self)@.regs, old(self)@.memory, old(self)@.i as int, x as int),
                ..old(self)@
            }),
    {
        let base = self.i as usize;
        let mut k: usize = 0;
        while k <= x as usize
            invariant
                old(self).wf(),
                x < 16,
                base == old(self)@.i,
                base + x < MEM_SIZE,
                k <= x + 1,
                self@ == (CrispView { regs: self.variable_register@, ..old(self)@ }),
                self.variable_register@.len() == 16,
                forall|j: int| 0 <= j < 16 ==> self.variable_register@[j] == (
                    if j < k {
                        old(self)@.memory[base + j]
                    } else {
                        old(self)@.regs[j]
                    }
                ),
            decreases x + 1 - k,
        {
            let val = self.memory[base + k];
            self.variable_register.set(k, val);
            k += 1;
        }
        proof {
            assert(self.variable_register@ =~= load_regs(
                old(self)@.regs,
                old(self)@.memory,
                old(self)@.i as int,
                x as int,
            ));
        }
    }

    /// Draw the sprite of `z` rows at `memory[I..I + z]` at position
    /// `(Vx, Vy)`, XOR-composited; pixels aimed outside the grid are dropped.
    /// `VF` reports whether any pixel went from on to off.
    fn op_draw(&mut self, x: u8, y: u8, z: u8) -> (r: Result<(), CrispError>)
        requires
            old(self).wf(),
            x < 16,
            y < 16,
            z < 16,
        ensures
            final(self).wf(),
            match r {
                Ok(()) => !(z > 0 && old(self)@.i + z > MEM_SIZE) && final(self)@ == (CrispView {
                    display: draw_display(
                        old(self)@,
                        old(self)@.regs[x as int],
                        old(self)@.regs[y as int],
                        z,
                    ),
                    regs: old(self)@.regs.update(
                        15,
                        if draw_collision(
                            old(self)@,
                            old(self)@.regs[x as int],
                            old(self)@.regs[y as int],
                            z,
                        ) {
                            1u8
                        } else {
                            0u8
                        },
                    ),
                    ..old(self)@
                }),
                Err(e) => e == CrispError::FetchOutOfBounds && final(self)@ == old(self)@ && z > 0
                    && old(self)@.i + z > MEM_SIZE,
            },
    {
        if z > 0 && self.i as usize + z as usize > MEM_SIZE {
            return Err(CrispError::FetchOutOfBounds);
        }
        let vx = self.variable_register[x as usize];
        let vy = self.variable_register[y as usize];
        let base = self.i as usize;
        let mut collided: bool = false;
        let mut ii: usize = 0;
        while ii < z as usize
            invariant
                old(self).wf(),
                z < 16,
                vx == old(self)@.regs[x as int],
                vy == old(self)@.regs[y as int],
                base == old(self)@.i,
                z > 0 ==> base + z <= MEM_SIZE,
                ii <= z,
                self@ == (CrispView { display: self.display@, ..old(self)@ }),
                self.display@.len() == DISPLAY_CELLS,
                forall|rr: int, cc: int|
                    0 <= rr < DISPLAY_HEIGHT && 0 <= cc < DISPLAY_WIDTH
                        ==> self.display@[#[trigger] cell(rr, cc)] == (
                        if draw_covers(vx, vy, z, rr, cc) && rr - vy < ii {
                            draw_pixel(old(self)@, vx, vy, z, rr, cc)
                        } else {
                            old(self)@.display[cell(rr, cc)]
                        }
                    ),
                collided == (exists|rr: int, cc: int|
                    0 <= rr < DISPLAY_HEIGHT && 0 <= cc < DISPLAY_WIDTH && #[trigger] draw_covers(
                        vx,
                        vy,
                        z,
                        rr,
                        cc,
                    ) && rr - vy < ii && pixel_at(old(self)@.display, rr, cc) && sprite_bit_at(
                        old(self)@,
                        vx,
                        vy,
                        rr,
                        cc,
                    )),
            decreases z - ii,
        {
            let sprite_byte = self.memory[base + ii];
            let row = vy as usize + ii;
            if row < DISPLAY_HEIGHT {
                let mut jj: usize = 0;
                while jj < 8
                    invariant
                        old(self).wf(),
                        z < 16,
                        vx == old(self)@.regs[x as int],
                        vy == old(self)@.regs[y as int],
                        base == old(self)@.i,
                        z > 0 ==> base + z <= MEM_SIZE,
                        ii < z,
                        row == vy + ii,
                        row < DISPLAY_HEIGHT,
                        sprite_byte == old(self)@.memory[old(self)@.i + ii],
                        jj <= 8,
                        self@ == (CrispView { display: self.display@, ..old(self)@ }),
                        self.display@.len() == DISPLAY_CELLS,
                        forall|rr: int, cc: int|
                            0 <= rr < DISPLAY_HEIGHT && 0 <= cc < DISPLAY_WIDTH
                                ==> self.display@[#[trigger] cell(rr, cc)] == (
                                if draw_covers(vx, vy, z, rr, cc) && (rr - vy < ii || (rr == row
                                    && cc - vx < jj)) {
                                    draw_pixel(old(self)@, vx, vy, z, rr, cc)
                                } else {
                                    old(self)@.display[cell(rr, cc)]
                                }
                            ),
                        collided == (exists|rr: int, cc: int|
                            0 <= rr < DISPLAY_HEIGHT && 0 <= cc < DISPLAY_WIDTH
                                && #[trigger] draw_covers(vx, vy, z, rr, cc) && (rr - vy < ii || (
                            rr == row && cc - vx < jj)) && pixel_at(old(self)@.display, rr, cc)
                                && sprite_bit_at(old(self)@, vx, vy, rr, cc)),
                    decreases 8 - jj,
                {
                    let ghost p_ii = ii as int;
                    let ghost p_jj = jj as int;
                    let ghost collided0 = collided;
                    let ghost d0 = self.display@;
                    let col = vx as usize + jj;
                    if col < DISPLAY_WIDTH {
                        let sh: u8 = (7 - jj) as u8;
                        let bit = ((sprite_byte >> sh) & 1) == 1;
                        let idx = row * DISPLAY_WIDTH + col;
                        proof {
                            assert(idx == cell(row as int, col as int));
                            assert(draw_covers(vx, vy, z, row as int, col as int));
                            assert(d0[cell(row as int, col as int)] == old(self)@.display[cell(
                                row as int,
                                col as int,
                            )]);
                            assert(sprite_bit_at(old(self)@, vx, vy, row as int, col as int)
                                == bit);
                        }
                        let cur = self.display[idx];
                        if bit {
                            if cur {
                                collided = true;
                            }
                            self.display.set(idx, !cur);
                        }
                        proof {
                            assert(pixel_at(old(self)@.display, row as int, col as int) == cur);
                            assert(self.display@[cell(row as int, col as int)] == draw_pixel(
                                old(self)@,
                                vx,
                                vy,
                                z,
                                row as int,
                                col as int,
                            ));
                            assert forall|rr: int, cc: int|
                                0 <= rr < DISPLAY_HEIGHT && 0 <= cc < DISPLAY_WIDTH
                                    implies self.display@[#[trigger] cell(rr, cc)] == (
                                    if draw_covers(vx, vy, z, rr, cc) && (rr - vy < p_ii || (rr
                                        == row && cc - vx < p_jj + 1)) {
                                        draw_pixel(old(self)@, vx, vy, z, rr, cc)
                                    } else {
                                        old(self)@.display[cell(rr, cc)]
                                    }
                                ) by {
                                if rr == row && cc == col {
                                } else {
                                    assert(cell(rr, cc) != cell(row as int, col as int));
                                    assert(self.display@[cell(rr, cc)] == d0[cell(rr, cc)]);
                                }
                            };
                            // the collision flag keeps counting exactly the
                            // on-pixels a set sprite bit has hit so far
                            if collided0 {
                                let (rr0, cc0) = choose|rr: int, cc: int|
                                    0 <= rr < DISPLAY_HEIGHT && 0 <= cc < DISPLAY_WIDTH
                                        && #[trigger] draw_covers(vx, vy, z, rr, cc) && (rr - vy
                                        < p_ii || (rr == row && cc - vx < p_jj)) && pixel_at(
                                        old(self)@.display,
                                        rr,
                                        cc,
                                    ) && sprite_bit_at(old(self)@, vx, vy, rr, cc);
                                assert(draw_covers(vx, vy, z, rr0, cc0) && (rr0 - vy < p_ii || (
                                rr0 == row && cc0 - vx < p_jj + 1)) && pixel_at(
                                    old(self)@.display,
                                    rr0,
                                    cc0,
                                ) && sprite_bit_at(old(self)@, vx, vy, rr0, cc0));
                            } else if bit && cur {
                                assert(draw_covers(vx, vy, z, row as int, col as int) && (
                                (row as int) - vy < p_ii || ((row as int) == row && (col as int)
                                    - vx < p_jj + 1)) && pixel_at(
                                    old(self)@.display,
                                    row as int,
                                    col as int,
                                ) && sprite_bit_at(old(self)@, vx, vy, row as int, col as int));
                            } else {
                                assert forall|rr: int, cc: int|
                                    0 <= rr < DISPLAY_HEIGHT && 0 <= cc < DISPLAY_WIDTH
                                        && #[trigger] draw_covers(vx, vy, z, rr, cc) && (rr - vy
                                        < p_ii || (rr == row && cc - vx < p_jj + 1)) && pixel_at(
                                        old(self)@.display,
                                        rr,
                                        cc,
                                    ) implies !sprite_bit_at(old(self)@, vx, vy, rr, cc) by {
                                    if rr - vy < p_ii || (rr == row && cc - vx < p_jj) {
                                        assert(!collided0);
                                    } else {
                                        assert(rr == row && cc == col);
                                    }
                                };
                            }
                        }
                    } else {
                        proof {
                            assert forall|rr: int, cc: int|
                                0 <= rr < DISPLAY_HEIGHT && 0 <= cc < DISPLAY_WIDTH && #[trigger]
                            draw_covers(vx, vy, z, rr, cc) implies !(rr == row && cc - vx == p_jj)
                                by {
                                if rr == row && cc - vx == p_jj {
                                    assert(cc >= DISPLAY_WIDTH);
                                }
                            };
                        }
                    }
                    jj += 1;
                }
                proof {
                    // a full row means: processed exactly the rows below ii + 1
                    assert forall|rr: int, cc: int|
                        0 <= rr < DISPLAY_HEIGHT && 0 <= cc < DISPLAY_WIDTH && #[trigger]
                    draw_covers(vx, vy, z, rr, cc) implies ((rr - vy < ii || (rr == row && cc - vx
                        < 8)) == (rr - vy < ii + 1)) by {};
                }
            } else {
                proof {
                    // the whole row is below the bottom edge: nothing to draw
                    assert forall|rr: int, cc: int|
                        0 <= rr < DISPLAY_HEIGHT && 0 <= cc < DISPLAY_WIDTH && #[trigger]
                    draw_covers(vx, vy, z, rr, cc) implies ((rr - vy < ii) == (rr - vy < ii + 1))
                        by {
                        if rr - vy == ii {
                            assert(rr >= DISPLAY_HEIGHT);
                        }
                    };
                }
            }
            ii += 1;
        }
        proof {
            let s0 = old(self)@;
            assert forall|p: int| 0 <= p < DISPLAY_CELLS implies self.display@[p] == draw_pixel(
                s0,
                vx,
                vy,
                z,
                p / 64,
                p % 64,
            ) by {
                lemma_grid_bijection(p);
                let rr = p / 64;
                let cc = p % 64;
                assert(self.display@[cell(rr, cc)] == (
                    if draw_covers(vx, vy, z, rr, cc) && rr - vy < z as int {
                        draw_pixel(s0, vx, vy, z, rr, cc)
                    } else {
                        s0.display[cell(rr, cc)]
                    }
                ));
            };
            assert(self.display@ =~= draw_display(s0, vx, vy, z));
            if collided {
                let (rr0, cc0) = choose|rr: int, cc: int|
                    0 <= rr < DISPLAY_HEIGHT && 0 <= cc < DISPLAY_WIDTH && #[trigger] draw_covers(
                        vx,
                        vy,
                        z,
                        rr,
                        cc,
                    ) && rr - vy < z as int && pixel_at(s0.display, rr, cc) && sprite_bit_at(
                        s0,
                        vx,
                        vy,
                        rr,
                        cc,
                    );
                assert(draw_collision(s0, vx, vy, z));
            } else {
                assert(!draw_collision(s0, vx, vy, z)) by {
                    if draw_collision(s0, vx, vy, z) {
                        let (rr0, cc0) = choose|rr: int, cc: int|
                            0 <= rr < DISPLAY_HEIGHT && 0 <= cc < DISPLAY_WIDTH && #[trigger]
                        draw_covers(vx, vy, z, rr, cc) && pixel_at(s0.display, rr, cc)
                            && sprite_bit_at(s0, vx, vy, rr, cc);
                        assert(rr0 - vy < z as int);
                    }
                };
            }
        }
        let flag: u8 = if collided {
            1
        } else {
            0
        };
        self.variable_register.set(15, flag);
        Ok(())
    }

    /// Execute one instruction of the base instruction set against this
    /// state: fetch at the program counter, decode, execute, and advance by
    /// exactly 2 — applied here once, centrally — unless the instruction set
    /// the program counter itself. `rb` is the byte the random source
    /// supplied for this cycle, so a caller that fixes it gets a fully
    /// deterministic step. On `Err` the state is untouched.
    pub fn chip8_op(&mut self, rb: u8) -> (r: Result<(), CrispError>)
        requires
            old(self).wf(),
            old(self)@.isa == ISA::Chip8,
            old(self)@.status == Status::Running,
        ensures
            final(self).wf(),
            (final(self)@, r) == chip8_step_spec(old(self)@, rb),
    {
        if self.program_counter as usize + 1 >= MEM_SIZE {
            return Err(CrispError::FetchOutOfBounds);
        }
        let op = self.read_op_array();
        let w = op[0];
        let x = op[1];
        let y = op[2];
        let z = op[3];
        let nn: u8 = y * 16 + z;
        let nnn: u16 = (x as u16) * 256 + (nn as u16);
        proof {
            let s0 = old(self)@;
            vstd::arithmetic::div_mod::lemma_fundamental_div_mod(fetched_lo(s0) as int, 16);
            assert(w == op_w(s0) && x == op_x(s0) && y == op_y(s0) && z == op_z(s0));
            assert(nn == op_nn(s0));
            assert(nnn == op_nnn(s0));
        }
        let vx = self.variable_register[x as usize];
        let vy = self.variable_register[y as usize];
        let mut took_jump: bool = false;
        match w {
            0x0 => {
                if nnn == 0x0E0 {
                    self.clear();
                } else if nnn == 0x0EE {
                    match self.stack.pop() {
                        Some(addr) => {
                            self.program_counter = addr;
                            took_jump = true;
                        },
                        None => {
                            return Err(CrispError::StackUnderflow);
                        },
                    }
                } else {
                    return Err(CrispError::UnknownOpcode);
                }
            },
            0x1 => {
                self.program_counter = nnn;
                took_jump = true;
            },
            0x2 => {
                if self.stack.len() >= STACK_LIMIT {
                    return Err(CrispError::StackOverflow);
                }
                let ret = self.program_counter + 2;
                self.stack.push(ret);
                self.program_counter = nnn;
                took_jump = true;
            },
            0x3 => {
                if vx == nn {
                    self.program_counter = self.program_counter + 2;
                }
            },
            0x4 => {
                if vx != nn {
                    self.program_counter = self.program_counter + 2;
                }
            },
            0x5 => {
                if z != 0 {
                    return Err(CrispError::UnknownOpcode);
                }
                if vx == vy {
                    self.program_counter = self.program_counter + 2;
                }
            },
            0x6 => {
                self.variable_register.set(x as usize, nn);
            },
            0x7 => {
                let sum = ((vx as u16 + nn as u16) % 256) as u8;
                self.variable_register.set(x as usize, sum);
            },
            0x8 => {
                match alu_compute(z, vx, vy) {
                    Some((res, flag)) => {
                        self.variable_register.set(x as usize, res);
                        match flag {
                            Some(f) => {
                                self.variable_register.set(15, f);
                            },
                            None => {},
                        }
                    },
                    None => {
                        return Err(CrispError::UnknownOpcode);
                    },
                }
            },
            0x9 => {
                if z != 0 {
                    return Err(CrispError::UnknownOpcode);
                }
                if vx != vy {
                    self.program_counter = self.program_counter + 2;
                }
            },
            0xA => {
                self.i = nnn;
            },
            0xB => {
                let v0 = self.variable_register[0];
                self.program_counter = nnn + v0 as u16;
                took_jump = true;
            },
            0xC => {
                self.variable_register.set(x as usize, rb & nn);
            },
            0xD => {
                match self.op_draw(x, y, z) {
                    Ok(()) => {},
                    Err(e) => {
                        return Err(e);
                    },
                }
            },
            0xE => {
                if nn == 0x9E {
                    if self.keys[(vx % 16) as usize] {
                        self.program_counter = self.program_counter + 2;
                    }
                } else if nn == 0xA1 {
                    if !self.keys[(vx % 16) as usize] {
                        self.program_counter = self.program_counter + 2;
                    }
                } else {
                    return Err(CrispError::UnknownOpcode);
                }
            },
            _ => {
                proof {
                    assert(w == 0xF);
                }
                if nn == 0x07 {
                    self.variable_register.set(x as usize, self.delay_timer);
                } else if nn == 0x0A {
                    self.status = Status::AwaitingKey { dest: x };
                    took_jump = true;
                } else if nn == 0x15 {
                    self.delay_timer = vx;
                } else if nn == 0x18 {
                    self.sound_timer = vx;
                } else if nn == 0x1E {
                    self.i = ((self.i as u32 + vx as u32) % 0x10000) as u16;
                } else if nn == 0x29 {
                    self.i = FONT_START as u16 + 5 * (vx % 16) as u16;
                } else if nn == 0x33 {
                    if self.i as usize + 2 >= MEM_SIZE {
                        return Err(CrispError::FetchOutOfBounds);
                    }
                    let base = self.i as usize;
                    self.memory.set(base, vx / 100);
                    self.memory.set(base + 1, (vx / 10) % 10);
                    self.memory.set(base + 2, vx % 10);
                } else if nn == 0x55 {
                    if self.i as usize + x as usize >= MEM_SIZE {
                        return Err(CrispError::FetchOutOfBounds);
                    }
                    self.op_store(x);
                } else if nn == 0x65 {
                    if self.i as usize + x as usize >= MEM_SIZE {
                        return Err(CrispError::FetchOutOfBounds);
                    }
                    self.op_load(x);
                } else {
                    return Err(CrispError::UnknownOpcode);
                }
            },
        }
        if !took_jump {
            self.program_counter = self.program_counter + 2;
        }
        Ok(())
    }

    /// One call of the engine: a variant other than the base instruction set
    /// reports every instruction unknown; a machine suspended on the key
    /// wait does nothing until the key arrives; otherwise one instruction
    /// executes, with the random byte drawn fresh from the thread-local
    /// generator.
    pub fn cycle(&mut self) -> (r: Result<(), CrispError>)
        requires
            old(self).wf(),
        ensures
            final(self).wf(),
            exists|rb: u8| (final(self)@, r) == step_spec(old(self)@, rb),
    {
        match self.isa {
            ISA::Chip8 => {
                match self.status {
                    Status::AwaitingKey { .. } => {
                        proof {
                            assert((self@, Ok::<(), CrispError>(())) == step_spec(old(self)@, 0u8));
                        }
                        Ok(())
                    },
                    Status::Running => {
                        let rb = random_byte();
                        let r = self.chip8_op(rb);
                        proof {
                            assert((self@, r) == step_spec(old(self)@, rb));
                        }
                        r
                    },
                }
            },
            _ => {
                proof {
                    assert((self@, Err::<(), CrispError>(CrispError::UnknownOpcode)) == step_spec(
                        old(self)@,
                        0u8,
                    ));
                }
                Err(CrispError::UnknownOpcode)
            },
        }
    }
}

/// Relies on `rand::random`: one byte drawn from the thread-local generator.
/// Any value can come back, so nothing is promised of it; callers state what
/// holds of every outcome.
#[verifier::external_body]
fn random_byte() -> u8 {
    rand::random::<u8>()
}

} // verus!
