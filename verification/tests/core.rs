use chip8_core::cpu::Cpu;
use chip8_core::state::Chip8Error;

/// Construct a core and load the given ROM, which must fit.
fn boot(rom: &[u8]) -> Cpu {
    let mut cpu = Cpu::new();
    cpu.load(rom).unwrap();
    cpu
}

#[test]
fn construct_initial_state() {
    let cpu = Cpu::new();
    assert_eq!(cpu.get_pc(), 0x200);
    assert_eq!(cpu.get_i(), 0);
    assert_eq!(cpu.get_dt(), 0);
    assert_eq!(cpu.get_st(), 0);
    assert_eq!(cpu.stack_depth(), 0);
    for j in 0..16 {
        assert_eq!(cpu.get_v(j), 0);
    }
    assert_eq!(cpu.get_display().len(), 64 * 32);
    assert!(cpu.get_display().iter().all(|p| !p));
    // The first bytes of the font: glyph 0 starts with 0xF0, 0x90.
    assert_eq!(cpu.read_mem(0), 0xF0);
    assert_eq!(cpu.read_mem(1), 0x90);
    assert_eq!(cpu.read_mem(79), 0x80);
    assert_eq!(cpu.read_mem(80), 0);
}

#[test]
fn default_matches_new() {
    let a = Cpu::new();
    let b = Cpu::default();
    assert_eq!(a.get_pc(), b.get_pc());
    assert_eq!(a.get_i(), b.get_i());
    for j in 0..16 {
        assert_eq!(a.get_v(j), b.get_v(j));
    }
    for addr in 0..0xFFF {
        assert_eq!(a.read_mem(addr), b.read_mem(addr));
    }
}

#[test]
fn load_round_trip() {
    let rom = [0x12, 0x34, 0x56, 0x78, 0x9A];
    let cpu = boot(&rom);
    for (k, b) in rom.iter().enumerate() {
        assert_eq!(cpu.read_mem(0x200 + k), *b);
    }
    // Bytes around the loaded region are untouched.
    assert_eq!(cpu.read_mem(0x1FF), 0);
    assert_eq!(cpu.read_mem(0x200 + rom.len()), 0);
}

#[test]
fn load_too_large_fails_and_leaves_memory() {
    let mut cpu = Cpu::new();
    cpu.load(&[0xAB, 0xCD]).unwrap();
    // One byte more than the space from 0x200 to the end of the 0xFFF-byte image.
    let big = vec![0xFFu8; 0xFFF - 0x200 + 1];
    assert_eq!(cpu.load(&big), Err(Chip8Error::OutOfBounds));
    assert_eq!(cpu.read_mem(0x200), 0xAB);
    assert_eq!(cpu.read_mem(0x201), 0xCD);
}

#[test]
fn load_largest_fitting_rom() {
    let mut cpu = Cpu::new();
    let big = vec![0x77u8; 0xFFF - 0x200];
    assert!(cpu.load(&big).is_ok());
    assert_eq!(cpu.read_mem(0xFFE), 0x77);
}

#[test]
fn reload_overwrites_program_region() {
    let mut cpu = boot(&[0x11, 0x22]);
    cpu.load(&[0x33, 0x44]).unwrap();
    assert_eq!(cpu.read_mem(0x200), 0x33);
    assert_eq!(cpu.read_mem(0x201), 0x44);
}

#[test]
fn set_then_add_immediate() {
    // Set V0 = 10, add 5 to V0, then an undefined pattern.
    let mut cpu = boot(&[0x60, 0x0A, 0x70, 0x05, 0x00, 0x00]);
    cpu.tick().unwrap();
    cpu.tick().unwrap();
    assert_eq!(cpu.get_v(0), 15);
    assert_eq!(cpu.get_pc(), 0x204);
    assert_eq!(cpu.tick(), Err(Chip8Error::InvalidOpcode));
}

#[test]
fn load_index_then_clear_screen() {
    let mut cpu = boot(&[0xA2, 0x00, 0x00, 0xE0]);
    cpu.tick().unwrap();
    cpu.tick().unwrap();
    assert_eq!(cpu.get_i(), 0x200);
    assert!(cpu.get_display().iter().all(|p| !p));
    assert_eq!(cpu.get_pc(), 0x204);
}

#[test]
fn add_immediate_wraps_without_flag() {
    // V0 = 200, add 100: wraps to 44, VF stays 0.
    let mut cpu = boot(&[0x60, 0xC8, 0x70, 0x64]);
    cpu.tick().unwrap();
    cpu.tick().unwrap();
    assert_eq!(cpu.get_v(0), 44);
    assert_eq!(cpu.get_v(0xF), 0);
}

#[test]
fn register_add_sets_carry() {
    // V0 = 255, V1 = 1, V0 += V1: wraps to 0 and VF = 1.
    let mut cpu = boot(&[0x60, 0xFF, 0x61, 0x01, 0x80, 0x14]);
    cpu.tick().unwrap();
    cpu.tick().unwrap();
    cpu.tick().unwrap();
    assert_eq!(cpu.get_v(0), 0);
    assert_eq!(cpu.get_v(0xF), 1);
}

#[test]
fn register_add_without_carry() {
    let mut cpu = boot(&[0x60, 0x14, 0x61, 0x28, 0x80, 0x14]);
    cpu.tick().unwrap();
    cpu.tick().unwrap();
    cpu.tick().unwrap();
    assert_eq!(cpu.get_v(0), 60);
    assert_eq!(cpu.get_v(0xF), 0);
}

#[test]
fn jump_sets_pc_only() {
    let mut cpu = boot(&[0x12, 0x34]);
    cpu.tick().unwrap();
    assert_eq!(cpu.get_pc(), 0x234);
    assert_eq!(cpu.stack_depth(), 0);
    for j in 0..16 {
        assert_eq!(cpu.get_v(j), 0);
    }
    assert_eq!(cpu.get_i(), 0);
}

#[test]
fn jump_to_low_address() {
    let mut cpu = boot(&[0x10, 0x00]);
    cpu.tick().unwrap();
    assert_eq!(cpu.get_pc(), 0x000);
}

#[test]
fn skip_if_equal_immediate() {
    // V0 = 7; skip over the next instruction since V0 == 7.
    let mut cpu = boot(&[0x60, 0x07, 0x30, 0x07]);
    cpu.tick().unwrap();
    cpu.tick().unwrap();
    assert_eq!(cpu.get_pc(), 0x206);
}

#[test]
fn no_skip_if_equal_immediate_differs() {
    let mut cpu = boot(&[0x60, 0x07, 0x30, 0x08]);
    cpu.tick().unwrap();
    cpu.tick().unwrap();
    assert_eq!(cpu.get_pc(), 0x204);
}

#[test]
fn skip_if_not_equal_immediate() {
    let mut cpu = boot(&[0x60, 0x07, 0x40, 0x08]);
    cpu.tick().unwrap();
    cpu.tick().unwrap();
    assert_eq!(cpu.get_pc(), 0x206);
}

#[test]
fn skip_if_registers_equal() {
    let mut cpu = boot(&[0x60, 0x05, 0x61, 0x05, 0x50, 0x10]);
    cpu.tick().unwrap();
    cpu.tick().unwrap();
    cpu.tick().unwrap();
    assert_eq!(cpu.get_pc(), 0x208);
}

#[test]
fn skip_if_registers_not_equal() {
    let mut cpu = boot(&[0x60, 0x05, 0x61, 0x06, 0x90, 0x10]);
    cpu.tick().unwrap();
    cpu.tick().unwrap();
    cpu.tick().unwrap();
    assert_eq!(cpu.get_pc(), 0x208);
}

#[test]
fn register_copy_and_bitwise() {
    // V0 = 0b1100 and V1 = 0b1010; copy V0 into V2, V3, V4, then OR, AND
    // and XOR each with V1.
    let mut cpu = boot(&[0x60, 0x0C, 0x61, 0x0A, 0x82, 0x00, 0x82, 0x11, 0x83, 0x01, 0x83, 0x12,
        0x84, 0x01, 0x84, 0x13]);
    for _ in 0..8 {
        cpu.tick().unwrap();
    }
    assert_eq!(cpu.get_v(2), 0x0C | 0x0A);
    assert_eq!(cpu.get_v(3), 0x0C & 0x0A);
    assert_eq!(cpu.get_v(4), 0x0C ^ 0x0A);
}

#[test]
fn register_sub_sets_no_borrow_flag() {
    // V0 = 9, V1 = 5, V0 -= V1: 4 with VF = 1 (no borrow).
    let mut cpu = boot(&[0x60, 0x09, 0x61, 0x05, 0x80, 0x15]);
    cpu.tick().unwrap();
    cpu.tick().unwrap();
    cpu.tick().unwrap();
    assert_eq!(cpu.get_v(0), 4);
    assert_eq!(cpu.get_v(0xF), 1);
}

#[test]
fn register_sub_borrow_wraps() {
    // V0 = 5, V1 = 9, V0 -= V1: wraps to 252 with VF = 0 (borrow).
    let mut cpu = boot(&[0x60, 0x05, 0x61, 0x09, 0x80, 0x15]);
    cpu.tick().unwrap();
    cpu.tick().unwrap();
    cpu.tick().unwrap();
    assert_eq!(cpu.get_v(0), 252);
    assert_eq!(cpu.get_v(0xF), 0);
}

#[test]
fn register_subn_reversed() {
    // V0 = 5, V1 = 9, V0 = V1 - V0: 4 with VF = 1.
    let mut cpu = boot(&[0x60, 0x05, 0x61, 0x09, 0x80, 0x17]);
    cpu.tick().unwrap();
    cpu.tick().unwrap();
    cpu.tick().unwrap();
    assert_eq!(cpu.get_v(0), 4);
    assert_eq!(cpu.get_v(0xF), 1);
}

#[test]
fn shift_right_keeps_low_bit() {
    // V0 = 5: shifted right gives 2, VF holds the dropped bit 1.
    let mut cpu = boot(&[0x60, 0x05, 0x80, 0x06]);
    cpu.tick().unwrap();
    cpu.tick().unwrap();
    assert_eq!(cpu.get_v(0), 2);
    assert_eq!(cpu.get_v(0xF), 1);
}

#[test]
fn shift_left_keeps_high_bit() {
    // V0 = 0x81: shifted left gives 0x02, VF holds the dropped bit 1.
    let mut cpu = boot(&[0x60, 0x81, 0x80, 0x0E]);
    cpu.tick().unwrap();
    cpu.tick().unwrap();
    assert_eq!(cpu.get_v(0), 0x02);
    assert_eq!(cpu.get_v(0xF), 1);
}

#[test]
fn jump_with_offset() {
    // V0 = 4, then jump to 0x300 + V0.
    let mut cpu = boot(&[0x60, 0x04, 0xB3, 0x00]);
    cpu.tick().unwrap();
    cpu.tick().unwrap();
    assert_eq!(cpu.get_pc(), 0x304);
}

#[test]
fn random_is_masked() {
    // Whatever byte the generator yields, CX0F leaves only the low nibble.
    let mut cpu = boot(&[0xC0, 0x0F]);
    cpu.tick().unwrap();
    assert!(cpu.get_v(0) <= 0x0F);
    // The generator is a fixed linear congruence seeded at zero, so the
    // first draw is reproducible: (0 * 25173 + 13849) / 256 = 0x36.
    assert_eq!(cpu.get_v(0), 0x36 & 0x0F);
}

#[test]
fn call_then_return_round_trip() {
    // Call 0x204; there, return.
    let mut cpu = boot(&[0x22, 0x04, 0x00, 0x00, 0x00, 0xEE]);
    cpu.tick().unwrap();
    assert_eq!(cpu.get_pc(), 0x204);
    assert_eq!(cpu.stack_depth(), 1);
    cpu.tick().unwrap();
    assert_eq!(cpu.get_pc(), 0x202);
    assert_eq!(cpu.stack_depth(), 0);
}

#[test]
fn return_on_empty_stack_faults() {
    let mut cpu = boot(&[0x00, 0xEE]);
    assert_eq!(cpu.tick(), Err(Chip8Error::StackFault));
    // The fault left the state as it was.
    assert_eq!(cpu.get_pc(), 0x200);
    assert_eq!(cpu.stack_depth(), 0);
}

#[test]
fn call_overflow_faults() {
    // A call that targets its own address fills the stack, then faults.
    let mut cpu = boot(&[0x22, 0x00]);
    for _ in 0..16 {
        cpu.tick().unwrap();
    }
    assert_eq!(cpu.stack_depth(), 16);
    assert_eq!(cpu.tick(), Err(Chip8Error::StackFault));
    assert_eq!(cpu.stack_depth(), 16);
}

#[test]
fn invalid_opcodes_are_rejected() {
    for rom in [
        [0x00u8, 0x00u8],
        [0x00, 0xE1],
        [0x50, 0x11],
        [0x80, 0x0F],
        [0x90, 0x12],
        [0xE0, 0x55],
        [0xF0, 0xFF],
    ] {
        let mut cpu = boot(&rom);
        assert_eq!(cpu.tick(), Err(Chip8Error::InvalidOpcode));
        assert_eq!(cpu.get_pc(), 0x200);
    }
}

#[test]
fn fetch_past_end_of_memory_faults() {
    // Jump to the last byte of the image: no whole opcode fits there.
    let mut cpu = boot(&[0x1F, 0xFE]);
    cpu.tick().unwrap();
    assert_eq!(cpu.get_pc(), 0xFFE);
    assert_eq!(cpu.tick(), Err(Chip8Error::OutOfBounds));
    assert_eq!(cpu.get_pc(), 0xFFE);
}

#[test]
fn timers_decrement_to_zero_and_stay() {
    // V3 = 3, delay timer = V3, sound timer = V3.
    let mut cpu = boot(&[0x63, 0x03, 0xF3, 0x15, 0xF3, 0x18]);
    cpu.tick().unwrap();
    cpu.tick().unwrap();
    cpu.tick().unwrap();
    assert_eq!(cpu.get_dt(), 3);
    assert_eq!(cpu.get_st(), 3);
    cpu.decrement_timers();
    cpu.decrement_timers();
    cpu.decrement_timers();
    assert_eq!(cpu.get_dt(), 0);
    assert_eq!(cpu.get_st(), 0);
    cpu.decrement_timers();
    assert_eq!(cpu.get_dt(), 0);
    assert_eq!(cpu.get_st(), 0);
}

#[test]
fn ticks_do_not_touch_timers() {
    let mut cpu = boot(&[0x63, 0x03, 0xF3, 0x15, 0x60, 0x01, 0x60, 0x02]);
    for _ in 0..4 {
        cpu.tick().unwrap();
    }
    assert_eq!(cpu.get_dt(), 3);
}

#[test]
fn read_delay_timer_into_register() {
    let mut cpu = boot(&[0x63, 0x07, 0xF3, 0x15, 0xF5, 0x07]);
    cpu.tick().unwrap();
    cpu.tick().unwrap();
    cpu.tick().unwrap();
    assert_eq!(cpu.get_v(5), 7);
}

#[test]
fn wait_for_key_spins() {
    // With no key source, the wait-for-key instruction repeats forever.
    let mut cpu = boot(&[0xF0, 0x0A]);
    cpu.tick().unwrap();
    assert_eq!(cpu.get_pc(), 0x200);
    cpu.tick().unwrap();
    assert_eq!(cpu.get_pc(), 0x200);
}

#[test]
fn skip_key_opcodes_with_no_key_down() {
    // Skip-if-key-down never skips; skip-if-key-up always skips.
    let mut cpu = boot(&[0xE0, 0x9E]);
    cpu.tick().unwrap();
    assert_eq!(cpu.get_pc(), 0x202);
    let mut cpu2 = boot(&[0xE0, 0xA1]);
    cpu2.tick().unwrap();
    assert_eq!(cpu2.get_pc(), 0x204);
}

#[test]
fn add_to_index() {
    let mut cpu = boot(&[0xA1, 0x00, 0x60, 0x22, 0xF0, 0x1E]);
    cpu.tick().unwrap();
    cpu.tick().unwrap();
    cpu.tick().unwrap();
    assert_eq!(cpu.get_i(), 0x122);
}

#[test]
fn font_address_for_digit() {
    // The glyph for digit 0xA sits at 5 * 10.
    let mut cpu = boot(&[0x60, 0x0A, 0xF0, 0x29]);
    cpu.tick().unwrap();
    cpu.tick().unwrap();
    assert_eq!(cpu.get_i(), 50);
}

#[test]
fn bcd_of_register() {
    // V0 = 254, I = 0x300: memory gets 2, 5, 4.
    let mut cpu = boot(&[0x60, 0xFE, 0xA3, 0x00, 0xF0, 0x33]);
    cpu.tick().unwrap();
    cpu.tick().unwrap();
    cpu.tick().unwrap();
    assert_eq!(cpu.read_mem(0x300), 2);
    assert_eq!(cpu.read_mem(0x301), 5);
    assert_eq!(cpu.read_mem(0x302), 4);
}

#[test]
fn bcd_out_of_bounds_faults() {
    // I = 0xFFD: the three digits would run past the end of memory.
    let mut cpu = boot(&[0xAF, 0xFD, 0xF0, 0x33]);
    cpu.tick().unwrap();
    assert_eq!(cpu.tick(), Err(Chip8Error::OutOfBounds));
}

#[test]
fn dump_and_restore_registers() {
    // V0 = 3, V1 = 9; dump V0..V1 at 0x300; clear V0, V1; load them back.
    let mut cpu = boot(&[0x60, 0x03, 0x61, 0x09, 0xA3, 0x00, 0xF1, 0x55, 0x60, 0x00, 0x61, 0x00,
        0xF1, 0x65]);
    for _ in 0..7 {
        cpu.tick().unwrap();
    }
    assert_eq!(cpu.read_mem(0x300), 3);
    assert_eq!(cpu.read_mem(0x301), 9);
    assert_eq!(cpu.get_v(0), 3);
    assert_eq!(cpu.get_v(1), 9);
    // Registers past X are untouched by the restore.
    assert_eq!(cpu.get_v(2), 0);
}

#[test]
fn register_dump_out_of_bounds_faults() {
    let mut cpu = boot(&[0xAF, 0xFE, 0xF1, 0x55]);
    cpu.tick().unwrap();
    assert_eq!(cpu.tick(), Err(Chip8Error::OutOfBounds));
}

#[test]
fn draw_glyph_and_collision_on_redraw() {
    // I = 0 (glyph 0), draw 5 rows at (V0, V1) = (0, 0).
    let mut cpu = boot(&[0xA0, 0x00, 0xD0, 0x15, 0xD0, 0x15]);
    cpu.tick().unwrap();
    cpu.tick().unwrap();
    // Glyph 0 row 0 is 0xF0: four lit pixels.
    assert!(cpu.get_pixel(0, 0));
    assert!(cpu.get_pixel(1, 0));
    assert!(cpu.get_pixel(2, 0));
    assert!(cpu.get_pixel(3, 0));
    assert!(!cpu.get_pixel(4, 0));
    // Glyph 0 row 1 is 0x90: edges lit, middle dark.
    assert!(cpu.get_pixel(0, 1));
    assert!(!cpu.get_pixel(1, 1));
    assert_eq!(cpu.get_v(0xF), 0);
    // The second identical draw erases everything and reports collision.
    cpu.tick().unwrap();
    assert!(cpu.get_display().iter().all(|p| !p));
    assert_eq!(cpu.get_v(0xF), 1);
}

#[test]
fn draw_wraps_at_screen_edges() {
    // Draw glyph 0 at (62, 30): it wraps onto columns 62, 63, 0, 1 and rows 30, 31, 0, 1, 2.
    let mut cpu = boot(&[0x60, 0x3E, 0x61, 0x1E, 0xA0, 0x00, 0xD0, 0x15]);
    for _ in 0..4 {
        cpu.tick().unwrap();
    }
    // Row 0 of the glyph (0xF0) lands on screen row 30, columns 62, 63, 0, 1.
    assert!(cpu.get_pixel(62, 30));
    assert!(cpu.get_pixel(63, 30));
    assert!(cpu.get_pixel(0, 30));
    assert!(cpu.get_pixel(1, 30));
    // Row 2 of the glyph wraps to screen row 0.
    assert!(cpu.get_pixel(62, 0));
}

#[test]
fn draw_sprite_out_of_bounds_faults() {
    // I = 0xFFF and a one-row sprite: the row byte lies past the end.
    let mut cpu = boot(&[0xAF, 0xFF, 0xD0, 0x11]);
    cpu.tick().unwrap();
    assert_eq!(cpu.tick(), Err(Chip8Error::OutOfBounds));
}

#[test]
fn draw_zero_rows_changes_nothing() {
    let mut cpu = boot(&[0xA0, 0x00, 0xD0, 0x10]);
    cpu.tick().unwrap();
    cpu.tick().unwrap();
    assert!(cpu.get_display().iter().all(|p| !p));
    assert_eq!(cpu.get_v(0xF), 0);
}

#[test]
fn clear_screen_after_draw() {
    let mut cpu = boot(&[0xA0, 0x00, 0xD0, 0x15, 0x00, 0xE0]);
    cpu.tick().unwrap();
    cpu.tick().unwrap();
    assert!(cpu.get_display().iter().any(|p| *p));
    cpu.tick().unwrap();
    assert!(cpu.get_display().iter().all(|p| !p));
    assert_eq!(cpu.get_pc(), 0x206);
}
