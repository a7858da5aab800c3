use chip8_backend::Emu;
use chip8_backend::SCREEN_WIDTH;

fn machine_with(image: &[u8]) -> Emu {
    let mut e = Emu::new();
    e.load(image);
    e
}

fn run(e: &mut Emu, steps: usize) {
    for _ in 0..steps {
        assert!(e.can_tick());
        e.tick();
    }
}

#[test]
fn mov_then_add_wraps_without_flag() {
    // V0 := 0xFF; V0 := V0 + 0x02 — wraps to 0x01, VF untouched.
    let mut e = machine_with(&[0x60, 0xFF, 0x70, 0x02]);
    run(&mut e, 2);
    assert_eq!(e.v_reg[0], 0x01);
    assert_eq!(e.v_reg[0xF], 0);
}

#[test]
fn add_reg_sets_carry_on_overflow() {
    // V0 := 0xFF; V1 := 0x01; V0 := V0 + V1.
    let mut e = machine_with(&[0x60, 0xFF, 0x61, 0x01, 0x80, 0x14]);
    run(&mut e, 3);
    assert_eq!(e.v_reg[0], 0x00);
    assert_eq!(e.v_reg[0xF], 1);
}

#[test]
fn add_reg_clears_carry_without_overflow() {
    let mut e = machine_with(&[0x60, 0x01, 0x61, 0x01, 0x80, 0x14]);
    run(&mut e, 3);
    assert_eq!(e.v_reg[0], 0x02);
    assert_eq!(e.v_reg[0xF], 0);
}

#[test]
fn sub_reg_sets_flag_on_no_borrow() {
    // V0 := 5; V1 := 3; V0 := V0 - V1.
    let mut e = machine_with(&[0x60, 0x05, 0x61, 0x03, 0x80, 0x15]);
    run(&mut e, 3);
    assert_eq!(e.v_reg[0], 0x02);
    assert_eq!(e.v_reg[0xF], 1);
}

#[test]
fn sub_reg_clears_flag_on_borrow() {
    let mut e = machine_with(&[0x60, 0x03, 0x61, 0x05, 0x80, 0x15]);
    run(&mut e, 3);
    assert_eq!(e.v_reg[0], 0xFE);
    assert_eq!(e.v_reg[0xF], 0);
}

#[test]
fn sub_from_reverses_operands() {
    // V0 := 3; V1 := 5; V0 := V1 - V0.
    let mut e = machine_with(&[0x60, 0x03, 0x61, 0x05, 0x80, 0x17]);
    run(&mut e, 3);
    assert_eq!(e.v_reg[0], 0x02);
    assert_eq!(e.v_reg[0xF], 1);
}

#[test]
fn shr_keeps_low_bit_in_flag() {
    let mut e = machine_with(&[0x60, 0x05, 0x80, 0x06]);
    run(&mut e, 2);
    assert_eq!(e.v_reg[0], 0x02);
    assert_eq!(e.v_reg[0xF], 1);
}

#[test]
fn shl_keeps_high_bit_in_flag() {
    let mut e = machine_with(&[0x60, 0x81, 0x80, 0x0E]);
    run(&mut e, 2);
    assert_eq!(e.v_reg[0], 0x02);
    assert_eq!(e.v_reg[0xF], 1);
}

#[test]
fn bitwise_or_and_xor() {
    let mut e = machine_with(&[0x60, 0x0C, 0x61, 0x0A, 0x80, 0x11]);
    run(&mut e, 3);
    assert_eq!(e.v_reg[0], 0x0E);
    let mut e = machine_with(&[0x60, 0x0C, 0x61, 0x0A, 0x80, 0x12]);
    run(&mut e, 3);
    assert_eq!(e.v_reg[0], 0x08);
    let mut e = machine_with(&[0x60, 0x0C, 0x61, 0x0A, 0x80, 0x13]);
    run(&mut e, 3);
    assert_eq!(e.v_reg[0], 0x06);
}

#[test]
fn skip_if_equal_immediate() {
    // V0 := 7; skip if V0 == 7 — lands on 0x206.
    let mut e = machine_with(&[0x60, 0x07, 0x30, 0x07]);
    run(&mut e, 2);
    assert_eq!(e.pc, 0x206);
    // V0 := 7; skip if V0 == 8 — not taken.
    let mut e = machine_with(&[0x60, 0x07, 0x30, 0x08]);
    run(&mut e, 2);
    assert_eq!(e.pc, 0x204);
}

#[test]
fn skip_if_registers_differ() {
    let mut e = machine_with(&[0x60, 0x07, 0x61, 0x07, 0x90, 0x10]);
    run(&mut e, 3);
    assert_eq!(e.pc, 0x206);
    let mut e = machine_with(&[0x60, 0x07, 0x61, 0x08, 0x90, 0x10]);
    run(&mut e, 3);
    assert_eq!(e.pc, 0x208);
}

#[test]
fn jump_sets_program_counter() {
    let mut e = machine_with(&[0x13, 0x45]);
    run(&mut e, 1);
    assert_eq!(e.pc, 0x345);
}

#[test]
fn jump_with_offset_adds_v0() {
    let mut e = machine_with(&[0x60, 0x10, 0xB3, 0x00]);
    run(&mut e, 2);
    assert_eq!(e.pc, 0x310);
}

#[test]
fn call_then_return_resumes_after_call() {
    // 0x200: call 0x206; 0x206: return.
    let mut e = machine_with(&[0x22, 0x06, 0x00, 0x00, 0x00, 0x00, 0x00, 0xEE]);
    run(&mut e, 1);
    assert_eq!(e.pc, 0x206);
    assert_eq!(e.sp, 1);
    assert_eq!(e.stack[0], 0x202);
    run(&mut e, 1);
    assert_eq!(e.pc, 0x202);
    assert_eq!(e.sp, 0);
}

#[test]
fn random_byte_is_masked() {
    // V0 := random & 0x00 — always zero whatever the random byte.
    let mut e = machine_with(&[0xC0, 0x00]);
    run(&mut e, 1);
    assert_eq!(e.v_reg[0], 0);
    // V0 := random & 0x0F — always below 16.
    let mut e = machine_with(&[0xC0, 0x0F]);
    run(&mut e, 1);
    assert!(e.v_reg[0] < 16);
}

#[test]
fn mov_i_and_add_i() {
    let mut e = machine_with(&[0xA1, 0x23, 0x60, 0x02, 0xF0, 0x1E]);
    run(&mut e, 3);
    assert_eq!(e.i_reg, 0x125);
}

#[test]
fn font_address_is_five_times_digit() {
    let mut e = machine_with(&[0x60, 0x0A, 0xF0, 0x29]);
    run(&mut e, 2);
    assert_eq!(e.i_reg, 50);
}

#[test]
fn bcd_stores_decimal_digits() {
    // V0 := 234; I := 0x300; digits of V0 to memory.
    let mut e = machine_with(&[0x60, 0xEA, 0xA3, 0x00, 0xF0, 0x33]);
    run(&mut e, 3);
    assert_eq!(&e.ram[0x300..0x303], &[2, 3, 4]);
}

#[test]
fn store_and_load_registers() {
    let mut e = machine_with(&[
        0x60, 0x11, 0x61, 0x22, 0x62, 0x33, 0xA3, 0x00, 0xF2, 0x55,
    ]);
    run(&mut e, 5);
    assert_eq!(&e.ram[0x300..0x303], &[0x11, 0x22, 0x33]);
    assert_eq!(e.ram[0x303], 0);

    let mut e = machine_with(&[0xA2, 0x06, 0xF1, 0x65, 0x00, 0x00, 0x07, 0x09]);
    run(&mut e, 2);
    assert_eq!(e.v_reg[0], 0x07);
    assert_eq!(e.v_reg[1], 0x09);
    assert_eq!(e.v_reg[2], 0);
}

#[test]
fn read_delay_timer_into_register() {
    let mut e = machine_with(&[0x60, 0x04, 0xF0, 0x15, 0xF1, 0x07]);
    run(&mut e, 3);
    assert_eq!(e.v_reg[1], 4);
}

#[test]
fn skip_if_key_pressed() {
    let mut e = machine_with(&[0x60, 0x05, 0xE0, 0x9E]);
    e.keypress(5, true);
    run(&mut e, 2);
    assert_eq!(e.pc, 0x206);
    let mut e = machine_with(&[0x60, 0x05, 0xE0, 0x9E]);
    run(&mut e, 2);
    assert_eq!(e.pc, 0x204);
}

#[test]
fn skip_if_key_not_pressed() {
    let mut e = machine_with(&[0x60, 0x05, 0xE0, 0xA1]);
    run(&mut e, 2);
    assert_eq!(e.pc, 0x206);
}

#[test]
fn wait_key_idles_until_keypress() {
    let mut e = machine_with(&[0xF0, 0x0A]);
    for _ in 0..3 {
        run(&mut e, 1);
        assert_eq!(e.pc, 0x200);
    }
    e.keypress(0x5, true);
    e.keypress(0x3, true);
    run(&mut e, 1);
    assert_eq!(e.v_reg[0], 0x3);
    assert_eq!(e.pc, 0x202);
}

#[test]
fn clear_screen_blanks_every_cell() {
    // Draw the zero glyph, then clear.
    let mut e = machine_with(&[0xA0, 0x00, 0xD0, 0x15, 0x00, 0xE0]);
    run(&mut e, 2);
    assert!(e.get_display().iter().any(|&p| p));
    run(&mut e, 1);
    assert!(e.get_display().iter().all(|&p| !p));
}

#[test]
fn draw_renders_glyph_rows() {
    // I := 0 (zero glyph, top row 0xF0); draw 5 rows at (0, 0).
    let mut e = machine_with(&[0xA0, 0x00, 0xD0, 0x15]);
    run(&mut e, 2);
    let d = e.get_display();
    // Top row: bits 11110000.
    for x in 0..4 {
        assert!(d[x]);
    }
    for x in 4..8 {
        assert!(!d[x]);
    }
    // Second row of the zero glyph is 0x90: bits 10010000.
    assert!(d[SCREEN_WIDTH]);
    assert!(!d[SCREEN_WIDTH + 1]);
    assert!(!d[SCREEN_WIDTH + 2]);
    assert!(d[SCREEN_WIDTH + 3]);
    assert_eq!(e.v_reg[0xF], 0);
}

#[test]
fn draw_twice_erases_and_reports_collision() {
    let mut e = machine_with(&[0xA0, 0x00, 0xD0, 0x15, 0xD0, 0x15]);
    run(&mut e, 2);
    assert_eq!(e.v_reg[0xF], 0);
    run(&mut e, 1);
    assert_eq!(e.v_reg[0xF], 1);
    assert!(e.get_display().iter().all(|&p| !p));
}

#[test]
fn draw_wraps_around_right_edge() {
    // V0 := 63; draw one row of the zero glyph (0xF0) at (63, 0).
    let mut e = machine_with(&[0x60, 0x3F, 0xA0, 0x00, 0xD0, 0x11]);
    run(&mut e, 3);
    let d = e.get_display();
    assert!(d[63]);
    assert!(d[0]);
    assert!(d[1]);
    assert!(d[2]);
    assert!(!d[3]);
}

#[test]
fn nop_only_advances() {
    let mut e = machine_with(&[0x00, 0x00]);
    run(&mut e, 1);
    assert_eq!(e.pc, 0x202);
    let fresh = Emu::new();
    assert_eq!(e.v_reg, fresh.v_reg);
    assert_eq!(e.screen, fresh.screen);
}
