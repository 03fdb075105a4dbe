use chip8::chip8::Chip8;
use chip8::state::CycleStatus;

/// A machine with the font loaded and `rom` placed at 0x200.
fn boot(rom: &[u8]) -> Chip8 {
    let mut c = Chip8::new();
    c.load_font();
    assert!(c.load_rom(&rom.to_vec()));
    c
}

fn run(c: &mut Chip8, cycles: usize) {
    for _ in 0..cycles {
        assert_eq!(c.cycle(), CycleStatus::Ran);
    }
}

#[test]
fn fresh_machine_starts_at_0x200() {
    let c = Chip8::new();
    assert_eq!(c.program_counter(), 0x200);
    assert_eq!(c.index_reg(), 0);
    assert_eq!(c.delay_timer(), 0);
    assert_eq!(c.sound_timer(), 0);
    assert_eq!(c.stack_depth(), 0);
    assert!(!c.draw_flag);
    assert!(!c.is_waiting());
    for r in 0..16 {
        assert_eq!(c.reg(r), 0);
    }
    for p in 0..64 * 32 {
        assert_eq!(c.gfx[p], 0);
    }
}

#[test]
fn font_occupies_the_first_80_bytes() {
    let mut c = Chip8::new();
    c.load_font();
    assert_eq!(c.mem_byte(0), 0xF0);
    assert_eq!(c.mem_byte(4), 0xF0);
    assert_eq!(c.mem_byte(5), 0x20);
    assert_eq!(c.mem_byte(79), 0x80);
    assert_eq!(c.mem_byte(80), 0x00);
}

#[test]
fn rom_loads_at_0x200_and_oversized_rom_is_rejected() {
    let mut c = Chip8::new();
    assert!(c.load_rom(&vec![0xDE, 0xAD, 0xBE, 0xEF]));
    assert_eq!(c.mem_byte(0x200), 0xDE);
    assert_eq!(c.mem_byte(0x203), 0xEF);
    assert_eq!(c.mem_byte(0x204), 0x00);

    let mut d = Chip8::new();
    assert!(d.load_rom(&vec![0xAA; 3584]));
    assert_eq!(d.mem_byte(0xFFF), 0xAA);
    let mut e = Chip8::new();
    assert!(!e.load_rom(&vec![0xAA; 3585]));
    assert_eq!(e.mem_byte(0x200), 0x00);
}

#[test]
fn load_and_add_immediate_wrap() {
    // P1: 7xkk leaves (a + kk) mod 256 in Vx.
    let mut c = boot(&[0x6A, 0xC8, 0x7A, 0x64]); // VA = 200; VA += 100
    run(&mut c, 2);
    assert_eq!(c.reg(0xA), 44); // 300 mod 256
    assert_eq!(c.program_counter(), 0x204);
}

#[test]
fn add_register_sets_carry_iff_sum_exceeds_255() {
    // P1: 8xy4 carry flag.
    let mut c = boot(&[0x6A, 0xFF, 0x6B, 0x02, 0x8A, 0xB4]);
    run(&mut c, 3);
    assert_eq!(c.reg(0xA), 1);
    assert_eq!(c.reg(0xF), 1);

    let mut d = boot(&[0x6A, 0x10, 0x6B, 0x02, 0x8A, 0xB4]);
    run(&mut d, 3);
    assert_eq!(d.reg(0xA), 0x12);
    assert_eq!(d.reg(0xF), 0);
}

#[test]
fn sub_sets_flag_iff_no_borrow() {
    // P2: 8xy5 in both directions.
    let mut c = boot(&[0x6A, 0x05, 0x6B, 0x03, 0x8A, 0xB5]);
    run(&mut c, 3);
    assert_eq!(c.reg(0xA), 2);
    assert_eq!(c.reg(0xF), 1);

    let mut d = boot(&[0x6A, 0x03, 0x6B, 0x05, 0x8A, 0xB5]);
    run(&mut d, 3);
    assert_eq!(d.reg(0xA), 254);
    assert_eq!(d.reg(0xF), 0);
}

#[test]
fn subn_sets_flag_iff_no_borrow_reversed() {
    // P2: 8xy7 in both directions.
    let mut c = boot(&[0x6A, 0x03, 0x6B, 0x05, 0x8A, 0xB7]);
    run(&mut c, 3);
    assert_eq!(c.reg(0xA), 2);
    assert_eq!(c.reg(0xF), 1);

    let mut d = boot(&[0x6A, 0x05, 0x6B, 0x03, 0x8A, 0xB7]);
    run(&mut d, 3);
    assert_eq!(d.reg(0xA), 254);
    assert_eq!(d.reg(0xF), 0);
}

#[test]
fn shift_right_preserves_lsb_in_vf() {
    // P3: 8xy6.
    let mut c = boot(&[0x6A, 0x05, 0x8A, 0x06]);
    run(&mut c, 2);
    assert_eq!(c.reg(0xA), 2);
    assert_eq!(c.reg(0xF), 1);

    let mut d = boot(&[0x6A, 0x04, 0x8A, 0x06]);
    run(&mut d, 2);
    assert_eq!(d.reg(0xA), 2);
    assert_eq!(d.reg(0xF), 0);
}

#[test]
fn shift_left_preserves_msb_in_vf() {
    // P3: 8xyE.
    let mut c = boot(&[0x6A, 0x81, 0x8A, 0x0E]);
    run(&mut c, 2);
    assert_eq!(c.reg(0xA), 2);
    assert_eq!(c.reg(0xF), 1);

    let mut d = boot(&[0x6A, 0x41, 0x8A, 0x0E]);
    run(&mut d, 2);
    assert_eq!(d.reg(0xA), 0x82);
    assert_eq!(d.reg(0xF), 0);
}

#[test]
fn alu_bitwise_ops() {
    let mut c = boot(&[
        0x6A, 0b1100, 0x6B, 0b1010, // VA, VB
        0x8C, 0xA0, // VC = VA
        0x8A, 0xB1, // VA |= VB
        0x6A, 0b1100, 0x8A, 0xB2, // VA &= VB
        0x6A, 0b1100, 0x8A, 0xB3, // VA ^= VB
    ]);
    run(&mut c, 3);
    assert_eq!(c.reg(0xC), 0b1100);
    run(&mut c, 1);
    assert_eq!(c.reg(0xA), 0b1110);
    run(&mut c, 2);
    assert_eq!(c.reg(0xA), 0b1000);
    run(&mut c, 2);
    assert_eq!(c.reg(0xA), 0b0110);
}

#[test]
fn store_then_load_restores_registers() {
    // P4: Fx55 then Fx65 with the same x and I.
    let mut c = boot(&[
        0x60, 0x11, 0x61, 0x22, 0x62, 0x33, // V0..V2
        0xA3, 0x00, // I = 0x300
        0xF2, 0x55, // store V0..=V2
        0x60, 0x00, 0x61, 0x00, 0x62, 0x00, // clobber
        0xF2, 0x65, // load V0..=V2
    ]);
    run(&mut c, 5);
    assert_eq!(c.mem_byte(0x300), 0x11);
    assert_eq!(c.mem_byte(0x301), 0x22);
    assert_eq!(c.mem_byte(0x302), 0x33);
    assert_eq!(c.index_reg(), 0x300); // I itself is untouched
    run(&mut c, 3);
    assert_eq!(c.reg(0), 0);
    run(&mut c, 1);
    assert_eq!(c.reg(0), 0x11);
    assert_eq!(c.reg(1), 0x22);
    assert_eq!(c.reg(2), 0x33);
}

#[test]
fn bcd_of_205_writes_2_0_5() {
    // P5.
    let mut c = boot(&[0x6A, 0xCD, 0xA3, 0x00, 0xFA, 0x33]);
    run(&mut c, 3);
    assert_eq!(c.mem_byte(0x300), 2);
    assert_eq!(c.mem_byte(0x301), 0);
    assert_eq!(c.mem_byte(0x302), 5);
}

#[test]
fn clear_screen_zeroes_the_buffer_and_sets_draw_flag() {
    // P6: draw a glyph, render, then clear.
    let mut c = boot(&[0xA0, 0x00, 0xD0, 0x05, 0x00, 0xE0]);
    run(&mut c, 2);
    assert!(c.gfx.iter().any(|&p| p != 0));
    c.draw_flag = false; // the renderer consumed the first draw
    run(&mut c, 1);
    assert!(c.gfx.iter().all(|&p| p == 0));
    assert!(c.draw_flag);
}

#[test]
fn drawing_the_same_sprite_twice_cancels_and_collides() {
    // P7: glyph 0 at the origin, drawn twice.
    let mut c = boot(&[0xA0, 0x00, 0xD0, 0x05, 0xD0, 0x05]);
    run(&mut c, 2);
    assert_eq!(c.reg(0xF), 0);
    assert!(c.gfx.iter().any(|&p| p != 0));
    run(&mut c, 1);
    assert_eq!(c.reg(0xF), 1);
    assert!(c.gfx.iter().all(|&p| p == 0));
    assert!(c.draw_flag);
}

#[test]
fn draw_places_the_glyph_pixels() {
    // Glyph 0 is 0xF0,0x90,0x90,0x90,0xF0: its top row sets cells 0..4.
    let mut c = boot(&[0xA0, 0x00, 0xD0, 0x05]);
    run(&mut c, 2);
    assert_eq!(&c.gfx[0..8], &[1, 1, 1, 1, 0, 0, 0, 0]);
    assert_eq!(&c.gfx[64..72], &[1, 0, 0, 1, 0, 0, 0, 0]);
    assert_eq!(c.gfx[4 * 64], 1);
    assert_eq!(c.gfx[5 * 64], 0);
}

#[test]
fn draw_clips_at_the_right_edge_and_wraps_the_anchor() {
    // An 0xFF row drawn at x = 60 sets only columns 60..63.
    let mut c = Chip8::new();
    assert!(c.load_rom(&vec![0x6A, 60, 0xA2, 0x06, 0xDA, 0x01, 0xFF, 0x00]));
    run(&mut c, 3);
    let set: Vec<usize> = (0..64 * 32).filter(|&p| c.gfx[p] != 0).collect();
    assert_eq!(set, vec![60, 61, 62, 63]);

    // Anchor 64 reduces to 0: the same row lands on columns 0..7.
    let mut d = Chip8::new();
    assert!(d.load_rom(&vec![0x6A, 64, 0xA2, 0x06, 0xDA, 0x01, 0xFF, 0x00]));
    run(&mut d, 3);
    let set: Vec<usize> = (0..64 * 32).filter(|&p| d.gfx[p] != 0).collect();
    assert_eq!(set, vec![0, 1, 2, 3, 4, 5, 6, 7]);
}

#[test]
fn call_and_return_round_trip() {
    // P8: 2nnn then 00EE resumes just past the call.
    let mut c = boot(&[0x22, 0x04, 0x00, 0x00, 0x00, 0xEE]);
    run(&mut c, 1);
    assert_eq!(c.program_counter(), 0x204);
    assert_eq!(c.stack_depth(), 1);
    run(&mut c, 1);
    assert_eq!(c.program_counter(), 0x202);
    assert_eq!(c.stack_depth(), 0);
}

#[test]
fn skips_advance_by_four_or_two() {
    // P9: each skip instruction, taken and not taken.
    let mut c = boot(&[0x6A, 0x07, 0x3A, 0x07]);
    run(&mut c, 2);
    assert_eq!(c.program_counter(), 0x206);
    let mut c = boot(&[0x6A, 0x07, 0x3A, 0x08]);
    run(&mut c, 2);
    assert_eq!(c.program_counter(), 0x204);

    let mut c = boot(&[0x6A, 0x07, 0x4A, 0x08]);
    run(&mut c, 2);
    assert_eq!(c.program_counter(), 0x206);
    let mut c = boot(&[0x6A, 0x07, 0x4A, 0x07]);
    run(&mut c, 2);
    assert_eq!(c.program_counter(), 0x204);

    let mut c = boot(&[0x6A, 0x07, 0x6B, 0x07, 0x5A, 0xB0]);
    run(&mut c, 3);
    assert_eq!(c.program_counter(), 0x208);
    let mut c = boot(&[0x6A, 0x07, 0x6B, 0x08, 0x5A, 0xB0]);
    run(&mut c, 3);
    assert_eq!(c.program_counter(), 0x206);

    let mut c = boot(&[0x6A, 0x07, 0x6B, 0x08, 0x9A, 0xB0]);
    run(&mut c, 3);
    assert_eq!(c.program_counter(), 0x208);
    let mut c = boot(&[0x6A, 0x07, 0x6B, 0x07, 0x9A, 0xB0]);
    run(&mut c, 3);
    assert_eq!(c.program_counter(), 0x206);
}

#[test]
fn two_instruction_program_end_to_end() {
    // P10.
    let mut c = boot(&[0x6A, 0x05, 0x7A, 0x03]);
    run(&mut c, 2);
    assert_eq!(c.reg(0xA), 8);
    assert_eq!(c.program_counter(), 0x200 + 4);
}

#[test]
fn jumps_reach_their_target() {
    let mut c = boot(&[0x12, 0x08]);
    run(&mut c, 1);
    assert_eq!(c.program_counter(), 0x208);

    let mut d = boot(&[0x60, 0x10, 0xB2, 0x08]);
    run(&mut d, 2);
    assert_eq!(d.program_counter(), 0x218);
}

#[test]
fn random_masked_with_zero_is_zero() {
    let mut c = boot(&[0x6A, 0x55, 0xCA, 0x00]);
    run(&mut c, 2);
    assert_eq!(c.reg(0xA), 0);
    assert_eq!(c.program_counter(), 0x204);
}

#[test]
fn random_byte_is_below_0xff() {
    // The generator draws below 0xFF, so Vx can never be 255.
    let mut c = boot(&[0xCA, 0xFF]);
    run(&mut c, 1);
    assert_ne!(c.reg(0xA), 0xFF);
}

#[test]
fn key_skips_read_the_keypad() {
    let mut c = boot(&[0x6A, 0x05, 0xEA, 0x9E]);
    c.keys[5] = true;
    run(&mut c, 2);
    assert_eq!(c.program_counter(), 0x206);

    let mut d = boot(&[0x6A, 0x05, 0xEA, 0x9E]);
    run(&mut d, 2);
    assert_eq!(d.program_counter(), 0x204);

    let mut e = boot(&[0x6A, 0x05, 0xEA, 0xA1]);
    run(&mut e, 2);
    assert_eq!(e.program_counter(), 0x206);

    let mut f = boot(&[0x6A, 0x05, 0xEA, 0xA1]);
    f.keys[5] = true;
    run(&mut f, 2);
    assert_eq!(f.program_counter(), 0x204);
}

#[test]
fn key_wait_suspends_until_a_key_is_supplied() {
    let mut c = boot(&[0xF5, 0x0A, 0x6B, 0x01]);
    assert_eq!(c.cycle(), CycleStatus::Waiting);
    assert!(c.is_waiting());
    assert_eq!(c.program_counter(), 0x202);
    // Further cycles change nothing while suspended.
    assert_eq!(c.cycle(), CycleStatus::Waiting);
    assert_eq!(c.program_counter(), 0x202);
    assert_eq!(c.reg(5), 0);
    // An out-of-range key index is not consumed.
    assert!(!c.supply_key(16));
    assert!(c.is_waiting());
    // A real key lands in V5 and resumes execution.
    assert!(c.supply_key(0xC));
    assert!(!c.is_waiting());
    assert_eq!(c.reg(5), 0xC);
    run(&mut c, 1);
    assert_eq!(c.reg(0xB), 1);
}

#[test]
fn supply_key_without_waiting_changes_nothing() {
    let mut c = Chip8::new();
    assert!(!c.supply_key(3));
    for r in 0..16 {
        assert_eq!(c.reg(r), 0);
    }
}

#[test]
fn timers_load_store_and_tick_to_zero() {
    let mut c = boot(&[0x6A, 0x02, 0xFA, 0x15, 0xFA, 0x18, 0xFB, 0x07]);
    run(&mut c, 3);
    assert_eq!(c.delay_timer(), 2);
    assert_eq!(c.sound_timer(), 2);
    run(&mut c, 1);
    assert_eq!(c.reg(0xB), 2); // Fx07 read the delay timer
    c.count_dt();
    assert_eq!(c.delay_timer(), 1);
    assert_eq!(c.sound_timer(), 1);
    c.count_dt();
    c.count_dt();
    assert_eq!(c.delay_timer(), 0); // floored at zero
    assert_eq!(c.sound_timer(), 0);
}

#[test]
fn index_register_instructions() {
    let mut c = boot(&[0xA1, 0x23, 0x6A, 0x10, 0xFA, 0x1E, 0x6B, 0x05, 0xFB, 0x29]);
    run(&mut c, 1);
    assert_eq!(c.index_reg(), 0x123);
    run(&mut c, 2);
    assert_eq!(c.index_reg(), 0x133); // Fx1E added VA
    run(&mut c, 2);
    assert_eq!(c.index_reg(), 25); // Fx29: glyph 5 sits at 5 * 5
}

#[test]
fn invalid_opcode_is_reported_and_skipped() {
    let mut c = boot(&[0x00, 0x00, 0x6A, 0x07]);
    assert_eq!(c.cycle(), CycleStatus::InvalidOpcode);
    assert_eq!(c.program_counter(), 0x202);
    run(&mut c, 1);
    assert_eq!(c.reg(0xA), 7);

    let mut d = boot(&[0x8A, 0xB8]); // 8xy8 is undefined
    assert_eq!(d.cycle(), CycleStatus::InvalidOpcode);
    assert_eq!(d.program_counter(), 0x202);

    let mut e = boot(&[0xFA, 0xFF]); // FxFF is undefined
    assert_eq!(e.cycle(), CycleStatus::InvalidOpcode);

    let mut f = boot(&[0x5A, 0xB1]); // 5xy1 is undefined
    assert_eq!(f.cycle(), CycleStatus::InvalidOpcode);
}

#[test]
fn return_on_empty_stack_reports_underflow() {
    let mut c = boot(&[0x00, 0xEE]);
    assert_eq!(c.cycle(), CycleStatus::StackUnderflow);
    // The machine is untouched: the faulting cycle can be observed.
    assert_eq!(c.program_counter(), 0x200);
    assert_eq!(c.stack_depth(), 0);
}

#[test]
fn memory_reaching_instructions_fault_instead_of_escaping_the_bank() {
    // BCD at I = 0xFFE would write 0xFFE..0x1000.
    let mut c = boot(&[0xAF, 0xFE, 0xFA, 0x33]);
    run(&mut c, 1);
    assert_eq!(c.cycle(), CycleStatus::MemoryFault);
    assert_eq!(c.program_counter(), 0x202);

    // Fx55 with I = 0xFFE and x = 2 would write three bytes.
    let mut d = boot(&[0xAF, 0xFE, 0xF2, 0x55]);
    run(&mut d, 1);
    assert_eq!(d.cycle(), CycleStatus::MemoryFault);

    // A sprite read of 5 rows from I = 0xFFE.
    let mut e = boot(&[0xAF, 0xFE, 0xD0, 0x05]);
    run(&mut e, 1);
    assert_eq!(e.cycle(), CycleStatus::MemoryFault);

    // A fetch at the last byte of the bank cannot read two bytes.
    let mut f = boot(&[0x1F, 0xFF]);
    run(&mut f, 1);
    assert_eq!(f.program_counter(), 0xFFF);
    assert_eq!(f.cycle(), CycleStatus::MemoryFault);
    assert_eq!(f.program_counter(), 0xFFF);

    // At the very edge everything still works.
    let mut g = boot(&[0xAF, 0xFD, 0xFA, 0x33]);
    run(&mut g, 2);
    assert_eq!(g.mem_byte(0xFFF), 0);
}
