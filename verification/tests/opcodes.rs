use crisp8::{Crisp, CrispBuilder};

fn machine_with(program: Vec<u8>) -> Crisp {
    CrispBuilder::new().load(program).build()
}

fn run_ops(c: &mut Crisp, n: usize) {
    for _ in 0..n {
        assert_eq!(c.chip8_op(0), Ok(()));
    }
}

#[test]
fn op_subtract_borrows_when_smaller() {
    // V0 := 5; V1 := 9; V0 := V0 - V1 — borrows and wraps
    let mut c = machine_with(vec![0x60, 0x05, 0x61, 0x09, 0x80, 0x15]);
    run_ops(&mut c, 3);
    assert_eq!(c.variable_register[0], 252);
    assert_eq!(c.variable_register[0xF], 1);
}

#[test]
fn op_reverse_subtract_exact_when_smaller() {
    // V0 := 5; V1 := 9; V0 := V1 - V0 — no borrow
    let mut c = machine_with(vec![0x60, 0x05, 0x61, 0x09, 0x80, 0x17]);
    run_ops(&mut c, 3);
    assert_eq!(c.variable_register[0], 4);
    assert_eq!(c.variable_register[0xF], 0);
}

#[test]
fn op_subtract_no_borrow_when_larger() {
    let mut c = machine_with(vec![0x60, 0x09, 0x61, 0x05, 0x80, 0x15]);
    run_ops(&mut c, 3);
    assert_eq!(c.variable_register[0], 4);
    assert_eq!(c.variable_register[0xF], 0);
}

#[test]
fn op_add_with_carry() {
    // 200 + 100 wraps to 44 with the carry flag set
    let mut c = machine_with(vec![0x60, 0xC8, 0x61, 0x64, 0x80, 0x14]);
    run_ops(&mut c, 3);
    assert_eq!(c.variable_register[0], 44);
    assert_eq!(c.variable_register[0xF], 1);
}

#[test]
fn op_add_without_carry() {
    let mut c = machine_with(vec![0x60, 0x14, 0x61, 0x28, 0x80, 0x14]);
    run_ops(&mut c, 3);
    assert_eq!(c.variable_register[0], 0x3C);
    assert_eq!(c.variable_register[0xF], 0);
}

#[test]
fn op_add_immediate_wraps_without_flag() {
    // V0 := 250; V0 += 16 wraps to 10 and VF stays 0
    let mut c = machine_with(vec![0x60, 0xFA, 0x70, 0x10]);
    run_ops(&mut c, 2);
    assert_eq!(c.variable_register[0], 10);
    assert_eq!(c.variable_register[0xF], 0);
}

#[test]
fn op_bitwise_group() {
    // V0 := 0b1100; V1 := 0b1010; then OR, AND, XOR in turn on fresh pairs
    let mut c = machine_with(vec![0x60, 0x0C, 0x61, 0x0A, 0x80, 0x11]);
    run_ops(&mut c, 3);
    assert_eq!(c.variable_register[0], 0b1110);
    let mut c = machine_with(vec![0x60, 0x0C, 0x61, 0x0A, 0x80, 0x12]);
    run_ops(&mut c, 3);
    assert_eq!(c.variable_register[0], 0b1000);
    let mut c = machine_with(vec![0x60, 0x0C, 0x61, 0x0A, 0x80, 0x13]);
    run_ops(&mut c, 3);
    assert_eq!(c.variable_register[0], 0b0110);
    let mut c = machine_with(vec![0x60, 0x0C, 0x61, 0x0A, 0x80, 0x10]);
    run_ops(&mut c, 3);
    assert_eq!(c.variable_register[0], 0b1010);
}

#[test]
fn op_shift_right_carries_low_bit() {
    let mut c = machine_with(vec![0x60, 0x05, 0x80, 0x06]);
    run_ops(&mut c, 2);
    assert_eq!(c.variable_register[0], 2);
    assert_eq!(c.variable_register[0xF], 1);
}

#[test]
fn op_shift_left_carries_high_bit() {
    let mut c = machine_with(vec![0x60, 0x81, 0x80, 0x0E]);
    run_ops(&mut c, 2);
    assert_eq!(c.variable_register[0], 2);
    assert_eq!(c.variable_register[0xF], 1);
}

#[test]
fn op_shift_flag_written_last_when_vf_is_target() {
    // VF := 3; VF >>= 1 — the carry-out overwrites the shifted value
    let mut c = machine_with(vec![0x6F, 0x03, 0x8F, 0x06]);
    run_ops(&mut c, 2);
    assert_eq!(c.variable_register[0xF], 1);
}

#[test]
fn op_skip_equal_immediate() {
    // V0 := 7; skip if V0 == 7 — lands at 0x206
    let mut c = machine_with(vec![0x60, 0x07, 0x30, 0x07]);
    run_ops(&mut c, 2);
    assert_eq!(c.program_counter, 0x206);
    let mut c = machine_with(vec![0x60, 0x07, 0x30, 0x08]);
    run_ops(&mut c, 2);
    assert_eq!(c.program_counter, 0x204);
}

#[test]
fn op_skip_not_equal_immediate() {
    let mut c = machine_with(vec![0x60, 0x07, 0x40, 0x08]);
    run_ops(&mut c, 2);
    assert_eq!(c.program_counter, 0x206);
    let mut c = machine_with(vec![0x60, 0x07, 0x40, 0x07]);
    run_ops(&mut c, 2);
    assert_eq!(c.program_counter, 0x204);
}

#[test]
fn op_skip_register_compare() {
    let mut c = machine_with(vec![0x60, 0x07, 0x61, 0x07, 0x50, 0x10]);
    run_ops(&mut c, 3);
    assert_eq!(c.program_counter, 0x208);
    let mut c = machine_with(vec![0x60, 0x07, 0x61, 0x08, 0x90, 0x10]);
    run_ops(&mut c, 3);
    assert_eq!(c.program_counter, 0x208);
    let mut c = machine_with(vec![0x60, 0x07, 0x61, 0x07, 0x90, 0x10]);
    run_ops(&mut c, 3);
    assert_eq!(c.program_counter, 0x206);
}

#[test]
fn op_assign_register() {
    let mut c = machine_with(vec![0x61, 0x2A, 0x80, 0x10]);
    run_ops(&mut c, 2);
    assert_eq!(c.variable_register[0], 0x2A);
}

#[test]
fn op_set_index() {
    let mut c = machine_with(vec![0xA1, 0x23]);
    run_ops(&mut c, 1);
    assert_eq!(c.i, 0x123);
}

#[test]
fn op_jump_with_offset() {
    // V0 := 4; jump to 0x300 + V0
    let mut c = machine_with(vec![0x60, 0x04, 0xB3, 0x00]);
    run_ops(&mut c, 2);
    assert_eq!(c.program_counter, 0x304);
}

#[test]
fn op_random_masks_supplied_byte() {
    let mut c = machine_with(vec![0xC0, 0x0F]);
    assert_eq!(c.chip8_op(0xAB), Ok(()));
    assert_eq!(c.variable_register[0], 0x0B);
}

#[test]
fn op_random_with_zero_mask_is_zero() {
    // whatever byte the generator yields, the mask pins V0 to zero
    let mut c = machine_with(vec![0xC0, 0x00]);
    c.variable_register[0] = 0x55;
    assert_eq!(c.cycle(), Ok(()));
    assert_eq!(c.variable_register[0], 0);
}

#[test]
fn op_add_to_index_wraps() {
    // I := 0xFFF; V0 := 0xFF; I += V0 — 16-bit wrap would need more, so sum
    let mut c = machine_with(vec![0xAF, 0xFF, 0x60, 0xFF, 0xF0, 0x1E]);
    run_ops(&mut c, 3);
    assert_eq!(c.i, 0x10FE);
    assert_eq!(c.variable_register[0xF], 0, "no flag on index overflow");
}

#[test]
fn op_bcd_decomposes_decimal_digits() {
    let mut c = machine_with(vec![0x63, 0xFE, 0xA5, 0x00, 0xF3, 0x33]);
    run_ops(&mut c, 3);
    assert_eq!(&c.memory[0x500..0x503], &[2, 5, 4]);
    assert_eq!(c.i, 0x500);
}

#[test]
fn op_timers_set_and_read() {
    // V0 := 0x30; delay := V0; sound := V0; V5 := delay
    let mut c = machine_with(vec![0x60, 0x30, 0xF0, 0x15, 0xF0, 0x18, 0xF5, 0x07]);
    run_ops(&mut c, 4);
    assert_eq!(c.delay_timer, 0x30);
    assert_eq!(c.sound_timer, 0x30);
    assert_eq!(c.variable_register[5], 0x30);
    c.tick_timers();
    assert_eq!(c.delay_timer, 0x2F);
    assert_eq!(c.sound_timer, 0x2F);
}

#[test]
fn op_timer_tick_floors_at_zero() {
    let mut c = CrispBuilder::new().build();
    c.tick_timers();
    assert_eq!(c.delay_timer, 0);
    assert_eq!(c.sound_timer, 0);
}

#[test]
fn op_font_address_of_low_nibble() {
    // V0 := 0x2B — only the low nibble names the glyph
    let mut c = machine_with(vec![0x60, 0x2B, 0xF0, 0x29]);
    run_ops(&mut c, 2);
    assert_eq!(c.i, 0x50 + 5 * 0xB);
}

#[test]
fn op_skip_if_key_held() {
    let mut c = machine_with(vec![0x60, 0x07, 0xE0, 0x9E]);
    c.key_down(7);
    run_ops(&mut c, 2);
    assert_eq!(c.program_counter, 0x206);
    let mut c = machine_with(vec![0x60, 0x07, 0xE0, 0x9E]);
    run_ops(&mut c, 2);
    assert_eq!(c.program_counter, 0x204);
}

#[test]
fn op_skip_if_key_not_held() {
    let mut c = machine_with(vec![0x60, 0x07, 0xE0, 0xA1]);
    run_ops(&mut c, 2);
    assert_eq!(c.program_counter, 0x206);
    let mut c = machine_with(vec![0x60, 0x07, 0xE0, 0xA1]);
    c.key_down(7);
    run_ops(&mut c, 2);
    assert_eq!(c.program_counter, 0x204);
}

#[test]
fn op_store_leaves_higher_registers_alone() {
    // store V0..V1 only, then clobber V0..V1, then load them back
    let mut c = machine_with(vec![0x60, 0x11, 0x61, 0x22, 0x62, 0x33, 0xA6, 0x00, 0xF1, 0x55]);
    run_ops(&mut c, 5);
    assert_eq!(&c.memory[0x600..0x603], &[0x11, 0x22, 0]);
    assert_eq!(c.variable_register[2], 0x33);
}
