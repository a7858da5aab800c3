use chip8_backend::Emu;
use chip8_backend::SCREEN_HEIGHT;
use chip8_backend::SCREEN_WIDTH;

const FONT_FIRST_GLYPH: [u8; 5] = [0xF0, 0x90, 0x90, 0x90, 0xF0];
const FONT_LAST_GLYPH: [u8; 5] = [0xF0, 0x80, 0xF0, 0x80, 0x80];

#[test]
fn new_starts_at_entry_point() {
    let e = Emu::new();
    assert_eq!(e.pc, 0x200);
    assert_eq!(e.i_reg, 0);
    assert_eq!(e.sp, 0);
    assert_eq!(e.dt, 0);
    assert_eq!(e.st, 0);
    assert!(e.v_reg.iter().all(|&v| v == 0));
    assert!(e.stack.iter().all(|&v| v == 0));
    assert!(e.keys.iter().all(|&k| !k));
    assert!(e.get_display().iter().all(|&p| !p));
    assert_eq!(e.get_display().len(), SCREEN_WIDTH * SCREEN_HEIGHT);
}

#[test]
fn new_writes_font_table() {
    let e = Emu::new();
    assert_eq!(&e.ram[0..5], &FONT_FIRST_GLYPH);
    assert_eq!(&e.ram[75..80], &FONT_LAST_GLYPH);
    assert!(e.ram[80..].iter().all(|&b| b == 0));
}

#[test]
fn reset_restores_initial_state() {
    let mut e = Emu::new();
    e.load(&[0x60, 0x07, 0xA3, 0x00]);
    e.tick();
    e.keypress(4, true);
    e.dt = 9;
    e.st = 3;
    e.reset();
    let fresh = Emu::new();
    assert_eq!(e.pc, fresh.pc);
    assert_eq!(e.ram, fresh.ram);
    assert_eq!(e.screen, fresh.screen);
    assert_eq!(e.v_reg, fresh.v_reg);
    assert_eq!(e.i_reg, fresh.i_reg);
    assert_eq!(e.sp, fresh.sp);
    assert_eq!(e.stack, fresh.stack);
    assert_eq!(e.keys, fresh.keys);
    assert_eq!(e.dt, fresh.dt);
    assert_eq!(e.st, fresh.st);
}

#[test]
fn reset_is_idempotent() {
    let mut e = Emu::new();
    e.load(&[0x12, 0x00]);
    e.reset();
    let once = e.ram.clone();
    e.reset();
    assert_eq!(e.ram, once);
    assert_eq!(e.pc, 0x200);
}

#[test]
fn load_copies_image_at_entry_point() {
    let mut e = Emu::new();
    let image = [0xDE, 0xAD, 0xBE, 0xEF, 0x01];
    e.load(&image);
    assert_eq!(&e.ram[0x200..0x205], &image);
}

#[test]
fn load_leaves_other_memory_untouched() {
    let mut e = Emu::new();
    e.load(&[0xAA, 0xBB]);
    assert_eq!(&e.ram[0..5], &FONT_FIRST_GLYPH);
    assert!(e.ram[80..0x200].iter().all(|&b| b == 0));
    assert!(e.ram[0x202..].iter().all(|&b| b == 0));
}

#[test]
fn load_accepts_largest_image() {
    let mut e = Emu::new();
    let image = vec![0x55u8; 4096 - 0x200];
    e.load(&image);
    assert_eq!(&e.ram[0x200..], &image[..]);
}

#[test]
fn timers_decrement_and_saturate() {
    let mut e = Emu::new();
    // delay_timer := 5, sound_timer := 2
    e.load(&[0x60, 0x05, 0xF0, 0x15, 0x60, 0x02, 0xF0, 0x18]);
    for _ in 0..4 {
        e.tick();
    }
    assert_eq!(e.dt, 5);
    assert_eq!(e.st, 2);
    e.tick_timers();
    e.tick_timers();
    e.tick_timers();
    assert_eq!(e.dt, 2);
    assert_eq!(e.st, 0);
}

#[test]
fn timer_at_zero_stays_at_zero() {
    let mut e = Emu::new();
    assert_eq!(e.dt, 0);
    e.tick_timers();
    assert_eq!(e.dt, 0);
    assert_eq!(e.st, 0);
}

#[test]
fn sound_is_audible_while_sound_timer_positive() {
    let mut e = Emu::new();
    e.load(&[0x60, 0x02, 0xF0, 0x18]);
    e.tick();
    e.tick();
    assert!(e.get_sound());
    e.tick_timers();
    assert!(e.get_sound());
    e.tick_timers();
    assert!(!e.get_sound());
    e.tick_timers();
    assert!(!e.get_sound());
}

#[test]
fn keypress_records_one_key() {
    let mut e = Emu::new();
    e.keypress(0xB, true);
    assert!(e.keys[0xB]);
    assert!(e.keys.iter().enumerate().all(|(i, &k)| k == (i == 0xB)));
    e.keypress(0xB, false);
    assert!(e.keys.iter().all(|&k| !k));
}

#[test]
fn can_tick_rejects_unrecognized_opcode() {
    let mut e = Emu::new();
    e.load(&[0xFF, 0xFF]);
    assert!(!e.can_tick());
    e.reset();
    e.load(&[0x00, 0xE0]);
    assert!(e.can_tick());
}

#[test]
fn can_tick_detects_stack_overflow() {
    let mut e = Emu::new();
    // 0x200: call 0x200 — every step pushes another return address.
    e.load(&[0x22, 0x00]);
    for _ in 0..16 {
        assert!(e.can_tick());
        e.tick();
    }
    assert_eq!(e.sp, 16);
    assert!(!e.can_tick());
}

#[test]
fn can_tick_detects_stack_underflow() {
    let mut e = Emu::new();
    e.load(&[0x00, 0xEE]);
    assert!(!e.can_tick());
}
