use vstd::prelude::*;
use crate::machine::{
    CrispView, CrispError, Status, ISA, pixel_at, cell, MEM_SIZE, DISPLAY_WIDTH, DISPLAY_HEIGHT,
    DISPLAY_CELLS, NUM_REGISTERS,
};
use crate::decode::{op_w, op_x, op_y, op_z, op_nn, op_nnn};
use crate::semantics::{
    alu_step, draw_covers, sprite_bit_at, draw_display, store_regs, load_regs, chip8_step_spec,
};

verus! {

/// Law: when `Vx < Vy`, subtract (`8xy5`) borrows — the flag value is 1 and
/// the result is the two's-complement wraparound — while reverse subtract
/// (`8xy7`) on the same operands does not borrow: flag value 0 and the exact
/// difference.
pub proof fn lemma_sub_borrow(vx: u8, vy: u8)
    requires
        vx < vy,
    ensures
        alu_step(5, vx, vy) == Some(((vx - vy + 256) as u8, Some(1u8))),
        alu_step(7, vx, vy) == Some(((vy - vx) as u8, Some(0u8))),
{
}

/// Law: an `8xy5` instruction with `Vx < Vy` executes successfully, leaves
/// the wrapped difference in `Vx` and raises the borrow flag.
pub proof fn lemma_sub_borrow_step(s: CrispView, rb: u8)
    requires
        s.wf(),
        s.isa == ISA::Chip8,
        s.status == Status::Running,
        s.pc + 1 < MEM_SIZE,
        op_w(s) == 8,
        op_z(s) == 5,
        op_x(s) != 15,
        s.regs[op_x(s) as int] < s.regs[op_y(s) as int],
    ensures
        chip8_step_spec(s, rb).1 == Ok::<(), CrispError>(()),
        chip8_step_spec(s, rb).0.regs[op_x(s) as int] == (s.regs[op_x(s) as int] - s.regs[
            op_y(s) as int
        ] + 256) as u8,
        chip8_step_spec(s, rb).0.regs[15] == 1,
{
}

/// Law: an `8xy7` instruction with `Vx < Vy` executes successfully, leaves
/// `Vy - Vx` in `Vx` and reports no borrow.
pub proof fn lemma_rsub_no_borrow_step(s: CrispView, rb: u8)
    requires
        s.wf(),
        s.isa == ISA::Chip8,
        s.status == Status::Running,
        s.pc + 1 < MEM_SIZE,
        op_w(s) == 8,
        op_z(s) == 7,
        op_x(s) != 15,
        s.regs[op_x(s) as int] < s.regs[op_y(s) as int],
    ensures
        chip8_step_spec(s, rb).1 == Ok::<(), CrispError>(()),
        chip8_step_spec(s, rb).0.regs[op_x(s) as int] == (s.regs[op_y(s) as int] - s.regs[
            op_x(s) as int
        ]) as u8,
        chip8_step_spec(s, rb).0.regs[15] == 0,
{
}

/// Law: storing `V0..Vx` to memory and loading the same range back with the
/// same base reproduces all sixteen registers exactly.
pub proof fn lemma_store_load_round_trip(mem: Seq<u8>, base: int, x: int, regs: Seq<u8>)
    requires
        mem.len() == MEM_SIZE,
        regs.len() == NUM_REGISTERS,
        0 <= x < 16,
        0 <= base,
        base + x < MEM_SIZE,
    ensures
        load_regs(regs, store_regs(mem, base, x, regs), base, x) == regs,
{
    let stored = store_regs(mem, base, x, regs);
    assert forall|k: int| 0 <= k < NUM_REGISTERS implies load_regs(regs, stored, base, x)[k]
        == regs[k] by {
        if k <= x {
            assert(stored[base + k] == regs[k]);
        }
    };
    assert(load_regs(regs, stored, base, x) =~= regs);
}

/// Law: `Fx55` then `Fx65` — store `V0..Vx`, then, provided the store did
/// not overwrite the second instruction, load the same range back with the
/// index register unchanged in between — returns every register, and the
/// index register itself, to its original value.
pub proof fn lemma_store_load_steps(s: CrispView, rb1: u8, rb2: u8)
    requires
        s.wf(),
        s.isa == ISA::Chip8,
        s.status == Status::Running,
        s.pc + 3 < MEM_SIZE,
        op_w(s) == 0xF,
        op_nn(s) == 0x55,
        s.i + op_x(s) < MEM_SIZE,
        s.memory[s.pc + 2] == 0xF0 + op_x(s),
        s.memory[s.pc + 3] == 0x65,
        s.i + op_x(s) < s.pc + 2 || s.i > s.pc + 3,
    ensures
        ({
            let (s1, r1) = chip8_step_spec(s, rb1);
            let (s2, r2) = chip8_step_spec(s1, rb2);
            r1 == Ok::<(), CrispError>(()) && r2 == Ok::<(), CrispError>(()) && s1.i == s.i
                && s2.i == s.i && s2.regs == s.regs
        }),
{
    let x = op_x(s) as int;
    let (s1, r1) = chip8_step_spec(s, rb1);
    assert(s1.memory == store_regs(s.memory, s.i as int, x, s.regs));
    assert(s1.pc == s.pc + 2);
    assert(s1.memory[s.pc + 2] == s.memory[s.pc + 2]);
    assert(s1.memory[s.pc + 3] == s.memory[s.pc + 3]);
    let b0 = (0xF0 + x) as u8;
    assert(op_w(s1) == b0 / 16 && op_x(s1) == b0 % 16);
    assert(b0 / 16 == 15 && b0 % 16 == x) by (nonlinear_arith)
        requires
            0 <= x < 16,
            b0 == 0xF0 + x,
    ;
    assert(op_nn(s1) == 0x65);
    lemma_store_load_round_trip(s.memory, s.i as int, x, s.regs);
    let (s2, r2) = chip8_step_spec(s1, rb2);
    assert(s2.regs == load_regs(s.regs, s1.memory, s.i as int, x));
}

/// Law: the clear instruction leaves every pixel off, and clearing twice in
/// a row leaves the display all-off both times.
pub proof fn lemma_clear_twice(s: CrispView, rb1: u8, rb2: u8)
    requires
        s.wf(),
        s.isa == ISA::Chip8,
        s.status == Status::Running,
        s.pc + 3 < MEM_SIZE,
        s.memory[s.pc as int] == 0x00,
        s.memory[s.pc + 1] == 0xE0,
        s.memory[s.pc + 2] == 0x00,
        s.memory[s.pc + 3] == 0xE0,
    ensures
        ({
            let (s1, r1) = chip8_step_spec(s, rb1);
            let (s2, r2) = chip8_step_spec(s1, rb2);
            r1 == Ok::<(), CrispError>(()) && r2 == Ok::<(), CrispError>(()) && (forall|p: int|
                0 <= p < DISPLAY_CELLS ==> !s1.display[p]) && (forall|p: int|
                0 <= p < DISPLAY_CELLS ==> !s2.display[p])
        }),
{
    let (s1, r1) = chip8_step_spec(s, rb1);
    assert(op_w(s) == 0 && op_nnn(s) == 0x0E0);
    assert(s1.memory == s.memory && s1.pc == s.pc + 2);
    assert(op_w(s1) == 0 && op_nnn(s1) == 0x0E0);
}

/// Law: a sprite draw changes exactly the grid cells the sprite covers —
/// each XORed with the sprite bit aimed at it — and leaves every other cell
/// untouched; sprite pixels aimed beyond the grid edge fall on no cell at
/// all, so they are dropped rather than wrapped.
pub proof fn lemma_draw_clips(s: CrispView, vx: u8, vy: u8, rows: u8, r: int, c: int)
    requires
        s.wf(),
        0 <= r < DISPLAY_HEIGHT,
        0 <= c < DISPLAY_WIDTH,
    ensures
        draw_display(s, vx, vy, rows).len() == s.display.len(),
        draw_covers(vx, vy, rows, r, c) ==> pixel_at(draw_display(s, vx, vy, rows), r, c) == (
        pixel_at(s.display, r, c) != sprite_bit_at(s, vx, vy, r, c)),
        !draw_covers(vx, vy, rows, r, c) ==> pixel_at(draw_display(s, vx, vy, rows), r, c)
            == pixel_at(s.display, r, c),
{
    assert((r * 64 + c) / 64 == r && (r * 64 + c) % 64 == c) by (nonlinear_arith)
        requires
            0 <= c < 64,
    ;
    assert(0 <= cell(r, c) < DISPLAY_CELLS);
}

/// Law: a jump whose target is its own address executes successfully and
/// leaves the machine state exactly as it was, so stepping it again and
/// again loops forever — valid program behaviour, never an engine error.
pub proof fn lemma_self_jump(s: CrispView, rb: u8)
    requires
        s.wf(),
        s.isa == ISA::Chip8,
        s.status == Status::Running,
        s.pc + 1 < MEM_SIZE,
        op_w(s) == 1,
        op_nnn(s) == s.pc,
    ensures
        chip8_step_spec(s, rb).0 == s,
        chip8_step_spec(s, rb).1 == Ok::<(), CrispError>(()),
{
    assert(chip8_step_spec(s, rb).0 =~= s);
}

} // verus!
