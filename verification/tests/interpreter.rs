use chip8::Cpu;
use chip8::Fault;

fn fresh() -> Cpu {
    let mut c = Cpu::default();
    c.init();
    c
}

fn put_op(c: &mut Cpu, addr: usize, op: u16) {
    c.memory[addr] = (op >> 8) as u8;
    c.memory[addr + 1] = (op & 0xFF) as u8;
}

/// A machine whose next instruction is `op`, stepped once.
fn step_one(op: u16, setup: impl FnOnce(&mut Cpu)) -> (Cpu, Result<(), Fault>) {
    let mut c = fresh();
    put_op(&mut c, 0x200, op);
    setup(&mut c);
    let r = c.step();
    (c, r)
}

#[test]
fn add_imm_wraps_around() {
    let (c, r) = step_one(0x710A, |c| c.v[1] = 250);
    assert_eq!(r, Ok(()));
    assert_eq!(c.v[1], 4);
    assert_eq!(c.pc, 0x202);
}

#[test]
fn add_imm_without_wrap() {
    let (c, r) = step_one(0x7105, |c| c.v[1] = 10);
    assert_eq!(r, Ok(()));
    assert_eq!(c.v[1], 15);
    assert_eq!(c.v[15], 0);
}

#[test]
fn call_then_ret_returns_past_the_call() {
    let mut c = fresh();
    put_op(&mut c, 0x200, 0x2300);
    put_op(&mut c, 0x300, 0x00EE);
    c.v[3] = 77;
    assert_eq!(c.step(), Ok(()));
    assert_eq!(c.pc, 0x300);
    assert_eq!(c.sp, 1);
    assert_eq!(c.stack[0], 0x202);
    assert_eq!(c.step(), Ok(()));
    assert_eq!(c.pc, 0x202);
    assert_eq!(c.sp, 0);
    assert_eq!(c.v[3], 77);
}

#[test]
fn clear_screen_clears_and_marks_dirty() {
    let (c, r) = step_one(0x00E0, |c| {
        c.gfx[100] = 1;
        c.gfx[2047] = 1;
    });
    assert_eq!(r, Ok(()));
    assert!(c.gfx.iter().all(|&b| b == 0));
    assert!(c.draw_flag);
    assert_eq!(c.pc, 0x202);
}

#[test]
fn jump_sets_pc() {
    let (c, r) = step_one(0x1ABC, |_| {});
    assert_eq!(r, Ok(()));
    assert_eq!(c.pc, 0xABC);
}

#[test]
fn jump_plus_v0() {
    let (c, r) = step_one(0xB300, |c| c.v[0] = 0x21);
    assert_eq!(r, Ok(()));
    assert_eq!(c.pc, 0x321);
}

#[test]
fn skip_eq_imm_taken_and_not() {
    let (c, r) = step_one(0x3142, |c| c.v[1] = 0x42);
    assert_eq!(r, Ok(()));
    assert_eq!(c.pc, 0x204);
    let (c, r) = step_one(0x3142, |c| c.v[1] = 0x41);
    assert_eq!(r, Ok(()));
    assert_eq!(c.pc, 0x202);
}

#[test]
fn skip_ne_imm_taken_and_not() {
    let (c, _) = step_one(0x4142, |c| c.v[1] = 0x41);
    assert_eq!(c.pc, 0x204);
    let (c, _) = step_one(0x4142, |c| c.v[1] = 0x42);
    assert_eq!(c.pc, 0x202);
}

#[test]
fn skip_eq_and_ne_reg() {
    let (c, _) = step_one(0x5120, |c| {
        c.v[1] = 7;
        c.v[2] = 7;
    });
    assert_eq!(c.pc, 0x204);
    let (c, _) = step_one(0x9120, |c| {
        c.v[1] = 7;
        c.v[2] = 8;
    });
    assert_eq!(c.pc, 0x204);
    let (c, _) = step_one(0x9120, |c| {
        c.v[1] = 7;
        c.v[2] = 7;
    });
    assert_eq!(c.pc, 0x202);
}

#[test]
fn load_imm_and_move() {
    let (c, _) = step_one(0x61AB, |_| {});
    assert_eq!(c.v[1], 0xAB);
    let (c, _) = step_one(0x8120, |c| c.v[2] = 0x55);
    assert_eq!(c.v[1], 0x55);
}

#[test]
fn alu_or_and_xor() {
    let (c, _) = step_one(0x8121, |c| {
        c.v[1] = 0b1100;
        c.v[2] = 0b1010;
    });
    assert_eq!(c.v[1], 0b1110);
    let (c, _) = step_one(0x8122, |c| {
        c.v[1] = 0b1100;
        c.v[2] = 0b1010;
    });
    assert_eq!(c.v[1], 0b1000);
    let (c, _) = step_one(0x8123, |c| {
        c.v[1] = 0b1100;
        c.v[2] = 0b1010;
    });
    assert_eq!(c.v[1], 0b0110);
}

#[test]
fn add_reg_sets_carry_iff_sum_exceeds_255() {
    let (c, _) = step_one(0x8124, |c| {
        c.v[1] = 200;
        c.v[2] = 100;
    });
    assert_eq!(c.v[1], 44);
    assert_eq!(c.v[15], 1);
    let (c, _) = step_one(0x8124, |c| {
        c.v[1] = 200;
        c.v[2] = 55;
    });
    assert_eq!(c.v[1], 255);
    assert_eq!(c.v[15], 0);
}

#[test]
fn sub_reg_sets_not_borrow() {
    let (c, _) = step_one(0x8125, |c| {
        c.v[1] = 10;
        c.v[2] = 3;
    });
    assert_eq!(c.v[1], 7);
    assert_eq!(c.v[15], 1);
    let (c, _) = step_one(0x8125, |c| {
        c.v[1] = 3;
        c.v[2] = 10;
    });
    assert_eq!(c.v[1], 249);
    assert_eq!(c.v[15], 0);
}

#[test]
fn subn_reg_reverses_operands() {
    let (c, _) = step_one(0x8127, |c| {
        c.v[1] = 3;
        c.v[2] = 10;
    });
    assert_eq!(c.v[1], 7);
    assert_eq!(c.v[15], 1);
    let (c, _) = step_one(0x8127, |c| {
        c.v[1] = 10;
        c.v[2] = 3;
    });
    assert_eq!(c.v[1], 249);
    assert_eq!(c.v[15], 0);
}

#[test]
fn shifts_save_the_shifted_out_bit() {
    let (c, _) = step_one(0x8106, |c| c.v[1] = 0b101);
    assert_eq!(c.v[1], 0b10);
    assert_eq!(c.v[15], 1);
    let (c, _) = step_one(0x810E, |c| c.v[1] = 0b1000_0001);
    assert_eq!(c.v[1], 0b10);
    assert_eq!(c.v[15], 1);
    let (c, _) = step_one(0x810E, |c| c.v[1] = 0b0100_0001);
    assert_eq!(c.v[1], 0b1000_0010);
    assert_eq!(c.v[15], 0);
}

#[test]
fn load_index_and_add_index() {
    let (c, _) = step_one(0xA123, |_| {});
    assert_eq!(c.i, 0x123);
    let (c, _) = step_one(0xF11E, |c| {
        c.i = 0x123;
        c.v[1] = 0x10;
    });
    assert_eq!(c.i, 0x133);
    let (c, _) = step_one(0xF11E, |c| {
        c.i = 0xFFFF;
        c.v[1] = 2;
    });
    assert_eq!(c.i, 1);
}

#[test]
fn font_index_is_five_bytes_per_glyph() {
    let (c, _) = step_one(0xF129, |c| c.v[1] = 3);
    assert_eq!(c.i, 15);
    assert_eq!(c.memory[c.i as usize], 0xF0);
}

#[test]
fn random_masks_with_nn() {
    let mut c = fresh();
    put_op(&mut c, 0x200, 0xC10F);
    assert_eq!(c.step_with(0xAB), Ok(()));
    assert_eq!(c.v[1], 0x0B);
    assert_eq!(c.pc, 0x202);
    let mut c = fresh();
    put_op(&mut c, 0x200, 0xC1F0);
    assert_eq!(c.step(), Ok(()));
    assert_eq!(c.v[1] & !0xF0, 0);
}

#[test]
fn timers_read_and_write() {
    let (c, _) = step_one(0xF107, |c| c.delay_timer = 42);
    assert_eq!(c.v[1], 42);
    let (c, _) = step_one(0xF115, |c| c.v[1] = 9);
    assert_eq!(c.delay_timer, 9);
    let (c, _) = step_one(0xF118, |c| c.v[1] = 8);
    assert_eq!(c.sound_timer, 8);
}

#[test]
fn skip_if_key_pressed_and_not() {
    let (c, _) = step_one(0xE19E, |c| {
        c.v[1] = 7;
        c.keys[7] = 1;
    });
    assert_eq!(c.pc, 0x204);
    let (c, _) = step_one(0xE19E, |c| c.v[1] = 7);
    assert_eq!(c.pc, 0x202);
    let (c, _) = step_one(0xE1A1, |c| c.v[1] = 7);
    assert_eq!(c.pc, 0x204);
    let (c, _) = step_one(0xE1A1, |c| {
        c.v[1] = 7;
        c.keys[7] = 1;
    });
    assert_eq!(c.pc, 0x202);
}

#[test]
fn wait_key_blocks_until_a_key_is_down() {
    let mut c = fresh();
    put_op(&mut c, 0x200, 0xF10A);
    assert_eq!(c.step(), Ok(()));
    assert_eq!(c.pc, 0x200);
    assert_eq!(c.v[1], 0);
    assert_eq!(c.step(), Ok(()));
    assert_eq!(c.pc, 0x200);
    c.keys[9] = 1;
    assert_eq!(c.step(), Ok(()));
    assert_eq!(c.pc, 0x202);
    assert_eq!(c.v[1], 9);
}

#[test]
fn wait_key_stores_the_lowest_pressed_key() {
    let mut c = fresh();
    put_op(&mut c, 0x200, 0xF30A);
    c.keys[4] = 1;
    c.keys[11] = 1;
    assert_eq!(c.step(), Ok(()));
    assert_eq!(c.v[3], 4);
}

#[test]
fn bcd_stores_three_decimal_digits() {
    let (c, r) = step_one(0xF133, |c| {
        c.v[1] = 156;
        c.i = 0x300;
    });
    assert_eq!(r, Ok(()));
    assert_eq!(c.memory[0x300], 1);
    assert_eq!(c.memory[0x301], 5);
    assert_eq!(c.memory[0x302], 6);
}

#[test]
fn bcd_out_of_bounds_faults_without_writing() {
    let (c, r) = step_one(0xF133, |c| {
        c.v[1] = 255;
        c.i = 4094;
    });
    assert_eq!(r, Err(Fault::MemoryOutOfBounds));
    assert_eq!(c.pc, 0x200);
    assert_eq!(c.memory[4094], 0);
}

#[test]
fn store_then_load_recovers_registers() {
    let mut c = fresh();
    put_op(&mut c, 0x200, 0xF555);
    put_op(&mut c, 0x202, 0xF565);
    for k in 0..6 {
        c.v[k] = 10 * k as u8 + 1;
    }
    c.v[6] = 99;
    c.i = 0x300;
    assert_eq!(c.step(), Ok(()));
    for k in 0..6 {
        assert_eq!(c.memory[0x300 + k], 10 * k as u8 + 1);
    }
    assert_eq!(c.i, 0x300);
    for k in 0..6 {
        c.v[k] = 0xEE;
    }
    assert_eq!(c.step(), Ok(()));
    for k in 0..6 {
        assert_eq!(c.v[k], 10 * k as u8 + 1);
    }
    assert_eq!(c.v[6], 99);
}

#[test]
fn store_regs_out_of_bounds_faults() {
    let (_, r) = step_one(0xFF55, |c| c.i = 4090);
    assert_eq!(r, Err(Fault::MemoryOutOfBounds));
    let (_, r) = step_one(0xFF65, |c| c.i = 4090);
    assert_eq!(r, Err(Fault::MemoryOutOfBounds));
}

#[test]
fn draw_sets_pixels_and_collision_on_second_pass() {
    let mut c = fresh();
    put_op(&mut c, 0x200, 0xD122);
    put_op(&mut c, 0x202, 0x1200);
    c.v[1] = 5;
    c.v[2] = 5;
    c.i = 0;
    assert_eq!(c.step(), Ok(()));
    assert!(c.draw_flag);
    assert_eq!(c.v[15], 0);
    // Two rows of glyph 0: 0xF0 then 0x90, drawn at (5, 5).
    for col in 0..8 {
        assert_eq!(c.gfx[5 * 64 + 5 + col], if col < 4 { 1 } else { 0 });
    }
    assert_eq!(c.gfx[6 * 64 + 5], 1);
    assert_eq!(c.gfx[6 * 64 + 6], 0);
    assert_eq!(c.gfx[6 * 64 + 8], 1);
    // Jump back and draw the same sprite again: XOR restores every cell.
    assert_eq!(c.step(), Ok(()));
    assert_eq!(c.pc, 0x200);
    assert_eq!(c.step(), Ok(()));
    assert_eq!(c.v[15], 1);
    assert!(c.gfx.iter().all(|&b| b == 0));
}

#[test]
fn draw_wraps_at_the_screen_edges() {
    let mut c = fresh();
    put_op(&mut c, 0x200, 0xD122);
    c.v[1] = 62;
    c.v[2] = 31;
    c.i = 0;
    assert_eq!(c.step(), Ok(()));
    // Row 0 (0xF0) lands on screen row 31, columns 62, 63, 0, 1.
    assert_eq!(c.gfx[31 * 64 + 62], 1);
    assert_eq!(c.gfx[31 * 64 + 63], 1);
    assert_eq!(c.gfx[31 * 64 + 0], 1);
    assert_eq!(c.gfx[31 * 64 + 1], 1);
    // Row 1 (0x90) wraps to screen row 0, columns 62 and 1.
    assert_eq!(c.gfx[0 * 64 + 62], 1);
    assert_eq!(c.gfx[0 * 64 + 63], 0);
    assert_eq!(c.gfx[0 * 64 + 1], 1);
}

#[test]
fn draw_position_is_taken_modulo_the_screen_size() {
    let mut c = fresh();
    put_op(&mut c, 0x200, 0xD121);
    c.v[1] = 64 + 5;
    c.v[2] = 32 + 5;
    c.i = 0;
    assert_eq!(c.step(), Ok(()));
    assert_eq!(c.gfx[5 * 64 + 5], 1);
}

#[test]
fn draw_out_of_memory_faults_untouched() {
    let (c, r) = step_one(0xD12F, |c| c.i = 4090);
    assert_eq!(r, Err(Fault::MemoryOutOfBounds));
    assert_eq!(c.pc, 0x200);
    assert!(!c.draw_flag);
}

#[test]
fn skip_eq_reg_not_taken() {
    let (c, _) = step_one(0x5120, |c| {
        c.v[1] = 7;
        c.v[2] = 8;
    });
    assert_eq!(c.pc, 0x202);
}

#[test]
fn key_tests_mask_the_register_to_a_key_code() {
    let (c, _) = step_one(0xE19E, |c| {
        c.v[1] = 0x17;
        c.keys[7] = 1;
    });
    assert_eq!(c.pc, 0x204);
}

#[test]
fn draw_with_zero_rows_touches_nothing_but_the_flags() {
    let (c, r) = step_one(0xD120, |c| {
        c.v[1] = 5;
        c.v[2] = 5;
        c.i = 0;
    });
    assert_eq!(r, Ok(()));
    assert!(c.draw_flag);
    assert_eq!(c.v[15], 0);
    assert!(c.gfx.iter().all(|&b| b == 0));
    assert_eq!(c.pc, 0x202);
}

#[test]
fn draw_with_zero_rows_reads_no_memory_and_never_faults() {
    let (c, r) = step_one(0xD120, |c| {
        c.v[1] = 5;
        c.v[2] = 5;
        c.i = 0xFFFF;
    });
    assert_eq!(r, Ok(()));
    assert!(c.draw_flag);
    assert_eq!(c.v[15], 0);
    assert!(c.gfx.iter().all(|&b| b == 0));
    assert_eq!(c.pc, 0x202);
}

#[test]
fn stack_overflows_on_the_seventeenth_call() {
    let mut c = fresh();
    put_op(&mut c, 0x200, 0x2200);
    for _ in 0..16 {
        assert_eq!(c.step(), Ok(()));
    }
    assert_eq!(c.sp, 16);
    assert_eq!(c.step(), Err(Fault::StackOverflow));
    assert_eq!(c.sp, 16);
    assert_eq!(c.pc, 0x200);
}

#[test]
fn ret_on_empty_stack_underflows() {
    let (c, r) = step_one(0x00EE, |_| {});
    assert_eq!(r, Err(Fault::StackUnderflow));
    assert_eq!(c.pc, 0x200);
    assert_eq!(c.sp, 0);
}

#[test]
fn unknown_opcodes_are_decode_faults() {
    let (c, r) = step_one(0xFFFF, |_| {});
    assert_eq!(r, Err(Fault::DecodeFault));
    assert_eq!(c.pc, 0x200);
    let (_, r) = step_one(0x0123, |_| {});
    assert_eq!(r, Err(Fault::DecodeFault));
    let (_, r) = step_one(0x5121, |_| {});
    assert_eq!(r, Err(Fault::DecodeFault));
    let (_, r) = step_one(0x8128, |_| {});
    assert_eq!(r, Err(Fault::DecodeFault));
    let (_, r) = step_one(0xE100, |_| {});
    assert_eq!(r, Err(Fault::DecodeFault));
}

#[test]
fn fetch_past_memory_faults() {
    let mut c = fresh();
    c.pc = 4095;
    assert_eq!(c.step(), Err(Fault::MemoryOutOfBounds));
    assert_eq!(c.pc, 4095);
}

#[test]
fn looping_draw_program_stays_in_bounds() {
    let mut c = fresh();
    let prog: Vec<u8> = vec![
        0x00, 0xE0, // clear screen
        0xA0, 0x00, // I = 0
        0x61, 0x05, // V1 = 5
        0x62, 0x05, // V2 = 5
        0xD1, 0x22, // draw 2 rows of glyph 0 at (5, 5)
        0x12, 0x00, // jump back to 0x200
    ];
    let len = prog.len() as u16;
    assert_eq!(c.load_program(&prog), Ok(()));
    for _ in 0..5 {
        assert_eq!(c.step(), Ok(()));
    }
    assert!(c.draw_flag);
    assert!(c.gfx.iter().any(|&b| b == 1));
    assert_eq!(c.pc, 0x200 + len - 2);
    for _ in 0..97 {
        assert_eq!(c.step(), Ok(()));
        assert!(c.pc >= 0x200 && c.pc < 0x200 + len);
    }
}
