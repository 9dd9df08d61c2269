use crisp8::{Crisp, CrispBuilder, CrispError, Status};

fn machine_with(program: Vec<u8>) -> Crisp {
    CrispBuilder::new().load(program).build()
}

#[test]
fn scenario_set_add_then_underflow() {
    // 0x200: V0 := 5; 0x202: V0 += 3; 0x204: return with empty stack
    let mut c = machine_with(vec![0x60, 0x05, 0x70, 0x03, 0x00, 0xEE]);
    assert_eq!(c.chip8_op(0), Ok(()));
    assert_eq!(c.variable_register[0], 5);
    assert_eq!(c.chip8_op(0), Ok(()));
    assert_eq!(c.variable_register[0], 8);
    assert_eq!(c.program_counter, 0x204);
    assert_eq!(c.chip8_op(0), Err(CrispError::StackUnderflow));
    // the failed instruction left the state untouched
    assert_eq!(c.program_counter, 0x204);
    assert_eq!(c.variable_register[0], 8);
}

#[test]
fn scenario_draw_two_pixels() {
    // program at 0x300 so the sprite byte at 0x200 is free to differ from it
    let mut b = CrispBuilder::new();
    let mut mem = vec![0u8; 4096];
    mem[0x200] = 0b1010_0000;
    mem[0x300] = 0xA2; // I := 0x200
    mem[0x301] = 0x00;
    mem[0x302] = 0xD0; // draw 1 row at (V0, V0) = (0, 0)
    mem[0x303] = 0x01;
    b.memory = Some(mem);
    b.program_counter = Some(0x300);
    let mut c = b.build();
    assert_eq!(c.chip8_op(0), Ok(()));
    assert_eq!(c.i, 0x200);
    assert_eq!(c.chip8_op(0), Ok(()));
    assert!(c.pixel(0, 0));
    assert!(c.pixel(0, 2));
    for col in [1usize, 3, 4, 5, 6, 7] {
        assert!(!c.pixel(0, col));
    }
    for col in 0..64 {
        assert!(!c.pixel(1, col));
    }
    assert_eq!(c.variable_register[0xF], 0);
}

#[test]
fn scenario_self_jump_loops_forever() {
    // 0x200: jump to 0x200 — a legal infinite loop, never an error
    let mut c = machine_with(vec![0x12, 0x00]);
    for _ in 0..10 {
        assert_eq!(c.cycle(), Ok(()));
        assert_eq!(c.program_counter, 0x200);
    }
}

#[test]
fn scenario_call_and_return() {
    // 0x200: call 0x206; 0x206: return — lands after the call
    let mut c = machine_with(vec![0x22, 0x06, 0x00, 0x00, 0x00, 0x00, 0x00, 0xEE]);
    assert_eq!(c.chip8_op(0), Ok(()));
    assert_eq!(c.program_counter, 0x206);
    assert_eq!(c.stack, vec![0x202]);
    assert_eq!(c.chip8_op(0), Ok(()));
    assert_eq!(c.program_counter, 0x202);
    assert!(c.stack.is_empty());
}

#[test]
fn scenario_key_wait_suspends_until_key() {
    // 0x200: wait for a key into V3
    let mut c = machine_with(vec![0xF3, 0x0A]);
    assert_eq!(c.cycle(), Ok(()));
    assert_eq!(c.status, Status::AwaitingKey { dest: 3 });
    assert_eq!(c.program_counter, 0x200);
    // stepping while suspended does nothing
    assert_eq!(c.cycle(), Ok(()));
    assert_eq!(c.status, Status::AwaitingKey { dest: 3 });
    assert_eq!(c.program_counter, 0x200);
    // the key press lands atomically: register write, advance, resume
    c.key_down(0xA);
    assert_eq!(c.variable_register[3], 0xA);
    assert_eq!(c.program_counter, 0x202);
    assert_eq!(c.status, Status::Running);
    assert!(c.is_key_held(0xA));
    c.key_up(0xA);
    assert!(!c.is_key_held(0xA));
}

#[test]
fn scenario_store_then_load_round_trip() {
    // V0..V2 := 5, 7, 11; I := 0x500; store V0..V2; load V0..V2 back
    let mut c = machine_with(vec![
        0x60, 0x05, 0x61, 0x07, 0x62, 0x0B, 0xA5, 0x00, 0xF2, 0x55, 0xF2, 0x65,
    ]);
    for _ in 0..4 {
        assert_eq!(c.chip8_op(0), Ok(()));
    }
    assert_eq!(c.chip8_op(0), Ok(()));
    assert_eq!(&c.memory[0x500..0x503], &[5, 7, 11]);
    assert_eq!(c.i, 0x500, "the store leaves I untouched");
    assert_eq!(c.chip8_op(0), Ok(()));
    assert_eq!(c.variable_register[0], 5);
    assert_eq!(c.variable_register[1], 7);
    assert_eq!(c.variable_register[2], 11);
    assert_eq!(c.i, 0x500, "the load leaves I untouched");
}

#[test]
fn scenario_clear_twice_stays_off() {
    let mut b = CrispBuilder::new();
    b.display = Some(vec![true; 2048]);
    let mut c = b.load(vec![0x00, 0xE0, 0x00, 0xE0]).build();
    assert!(c.pixel(5, 40));
    assert_eq!(c.cycle(), Ok(()));
    for row in 0..32 {
        for col in 0..64 {
            assert!(!c.pixel(row, col));
        }
    }
    assert_eq!(c.cycle(), Ok(()));
    for row in 0..32 {
        for col in 0..64 {
            assert!(!c.pixel(row, col));
        }
    }
}

#[test]
fn scenario_draw_clipped_at_corner() {
    // an 8x2 all-on sprite at (62, 30): only the 2x2 corner lands on screen
    let mut b = CrispBuilder::new();
    let mut mem = vec![0u8; 4096];
    mem[0x400] = 0xFF;
    mem[0x401] = 0xFF;
    mem[0x200] = 0x60; // V0 := 62
    mem[0x201] = 62;
    mem[0x202] = 0x61; // V1 := 30
    mem[0x203] = 30;
    mem[0x204] = 0xA4; // I := 0x400
    mem[0x205] = 0x00;
    mem[0x206] = 0xD0; // draw 2 rows at (V0, V1)
    mem[0x207] = 0x12;
    b.memory = Some(mem);
    let mut c = b.build();
    for _ in 0..4 {
        assert_eq!(c.chip8_op(0), Ok(()));
    }
    let mut on_count = 0;
    for row in 0..32 {
        for col in 0..64 {
            if c.pixel(row, col) {
                on_count += 1;
            }
        }
    }
    assert_eq!(on_count, 4, "only the in-bounds pixels were drawn");
    assert!(c.pixel(30, 62));
    assert!(c.pixel(30, 63));
    assert!(c.pixel(31, 62));
    assert!(c.pixel(31, 63));
    assert_eq!(c.variable_register[0xF], 0);
}

#[test]
fn scenario_draw_collision_sets_flag() {
    // drawing the same sprite twice: second draw erases it and reports the
    // collision
    let mut b = CrispBuilder::new();
    let mut mem = vec![0u8; 4096];
    mem[0x400] = 0xFF;
    mem[0x200] = 0xA4; // I := 0x400
    mem[0x201] = 0x00;
    mem[0x202] = 0xD0; // draw 1 row at (0, 0)
    mem[0x203] = 0x01;
    mem[0x204] = 0xD0; // draw it again
    mem[0x205] = 0x01;
    b.memory = Some(mem);
    let mut c = b.build();
    assert_eq!(c.chip8_op(0), Ok(()));
    assert_eq!(c.chip8_op(0), Ok(()));
    assert_eq!(c.variable_register[0xF], 0);
    assert!(c.pixel(0, 0));
    assert_eq!(c.chip8_op(0), Ok(()));
    assert_eq!(c.variable_register[0xF], 1, "a pixel went from on to off");
    for col in 0..8 {
        assert!(!c.pixel(0, col));
    }
}
