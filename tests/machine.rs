use chip8_core::emu::Emu;
use chip8_core::instr::{decode, Instr};
use chip8_core::model::EmuError;

const FONT: [u8; 80] = [
    0xF0, 0x90, 0x90, 0x90, 0xF0, 0x20, 0x60, 0x20, 0x20, 0x70, 0xF0, 0x10, 0xF0, 0x80, 0xF0,
    0xF0, 0x10, 0xF0, 0x10, 0xF0, 0x90, 0x90, 0xF0, 0x10, 0x10, 0xF0, 0x80, 0xF0, 0x10, 0xF0,
    0xF0, 0x80, 0xF0, 0x90, 0xF0, 0xF0, 0x10, 0x20, 0x40, 0x40, 0xF0, 0x90, 0xF0, 0x90, 0xF0,
    0xF0, 0x90, 0xF0, 0x10, 0xF0, 0xF0, 0x90, 0xF0, 0x90, 0x90, 0xE0, 0x90, 0xE0, 0x90, 0xE0,
    0xF0, 0x80, 0x80, 0x80, 0xF0, 0xE0, 0x90, 0x90, 0x90, 0xE0, 0xF0, 0x80, 0xF0, 0x80, 0xF0,
    0xF0, 0x80, 0xF0, 0x80, 0x80,
];

fn machine(rom: &[u8]) -> Emu {
    let mut emu = Emu::new();
    emu.load(rom).unwrap();
    emu
}

fn run(emu: &mut Emu, steps: usize) {
    for _ in 0..steps {
        emu.step(0).unwrap();
    }
}

fn lit(emu: &Emu) -> Vec<usize> {
    let d = emu.get_display();
    (0..d.len()).filter(|&p| d[p]).collect()
}

#[test]
fn new_machine_is_powered_on() {
    let emu = Emu::new();
    assert_eq!(emu.get_pc(), 0x200);
    for a in 0..80 {
        assert_eq!(emu.get_memory(a), FONT[a]);
    }
    for a in 80..4096 {
        assert_eq!(emu.get_memory(a), 0);
    }
    for r in 0..16 {
        assert_eq!(emu.get_v(r), 0);
        assert!(!emu.is_key_pressed(r));
    }
    assert_eq!(emu.get_index(), 0);
    assert_eq!(emu.get_sp(), 0);
    assert_eq!(emu.get_delay_timer(), 0);
    assert_eq!(emu.get_sound_timer(), 0);
    assert_eq!(emu.get_display().len(), 64 * 32);
    assert!(lit(&emu).is_empty());
}

#[test]
fn reset_restores_power_on_state() {
    // V0 = 0x0A, VF = 3, I = 0, FX55 overwrites the font, DT = ST = 10, draw, call
    let mut emu = machine(&[
        0x60, 0x0A, 0x6F, 0x03, 0xA0, 0x00, 0xFF, 0x55, 0xF0, 0x15, 0xF0, 0x18, 0xD0, 0x05,
        0x22, 0x00,
    ]);
    emu.keypress(5, true).unwrap();
    run(&mut emu, 8);
    assert_ne!(emu.get_memory(0), FONT[0]);
    assert_eq!(emu.get_sp(), 1);
    emu.reset();
    assert_eq!(emu.get_pc(), 0x200);
    for a in 0..80 {
        assert_eq!(emu.get_memory(a), FONT[a]);
    }
    assert_eq!(emu.get_memory(0x200), 0);
    for r in 0..16 {
        assert_eq!(emu.get_v(r), 0);
        assert!(!emu.is_key_pressed(r));
    }
    assert_eq!(emu.get_index(), 0);
    assert_eq!(emu.get_sp(), 0);
    assert_eq!(emu.get_delay_timer(), 0);
    assert_eq!(emu.get_sound_timer(), 0);
    assert!(lit(&emu).is_empty());
}

#[test]
fn clear_screen_unlights_everything() {
    // I = font glyph 0, draw it at (0, 0), then clear
    let mut emu = machine(&[0xA0, 0x00, 0xD0, 0x05, 0x00, 0xE0]);
    run(&mut emu, 2);
    assert!(!lit(&emu).is_empty());
    run(&mut emu, 1);
    assert!(lit(&emu).is_empty());
    assert_eq!(emu.get_pc(), 0x206);
}

#[test]
fn add_immediate_wraps_and_keeps_flag() {
    let mut emu = machine(&[0x6F, 0x07, 0x6A, 0xFF, 0x7A, 0x02]);
    run(&mut emu, 3);
    assert_eq!(emu.get_v(0xA), 0x01);
    assert_eq!(emu.get_v(0xF), 0x07);
}

#[test]
fn add_registers_sets_carry() {
    let mut emu = machine(&[0x6A, 200, 0x6B, 100, 0x8A, 0xB4]);
    run(&mut emu, 3);
    assert_eq!(emu.get_v(0xA), 44);
    assert_eq!(emu.get_v(0xF), 1);
    let mut emu = machine(&[0x6A, 200, 0x6B, 55, 0x6F, 9, 0x8A, 0xB4]);
    run(&mut emu, 4);
    assert_eq!(emu.get_v(0xA), 255);
    assert_eq!(emu.get_v(0xF), 0);
}

#[test]
fn subtract_sets_inverted_borrow() {
    let mut emu = machine(&[0x6A, 5, 0x6B, 3, 0x8A, 0xB5]);
    run(&mut emu, 3);
    assert_eq!(emu.get_v(0xA), 2);
    assert_eq!(emu.get_v(0xF), 1);
    let mut emu = machine(&[0x6A, 3, 0x6B, 5, 0x8A, 0xB5]);
    run(&mut emu, 3);
    assert_eq!(emu.get_v(0xA), 254);
    assert_eq!(emu.get_v(0xF), 0);
    let mut emu = machine(&[0x6A, 7, 0x6B, 7, 0x8A, 0xB5]);
    run(&mut emu, 3);
    assert_eq!(emu.get_v(0xA), 0);
    assert_eq!(emu.get_v(0xF), 1);
}

#[test]
fn reverse_subtract_sets_inverted_borrow() {
    let mut emu = machine(&[0x6A, 3, 0x6B, 5, 0x8A, 0xB7]);
    run(&mut emu, 3);
    assert_eq!(emu.get_v(0xA), 2);
    assert_eq!(emu.get_v(0xF), 1);
    let mut emu = machine(&[0x6A, 5, 0x6B, 3, 0x8A, 0xB7]);
    run(&mut emu, 3);
    assert_eq!(emu.get_v(0xA), 254);
    assert_eq!(emu.get_v(0xF), 0);
}

#[test]
fn shift_right_flags_low_bit() {
    let mut emu = machine(&[0x6A, 0xFF, 0x8A, 0x06]);
    run(&mut emu, 2);
    assert_eq!(emu.get_v(0xA), 0x7F);
    assert_eq!(emu.get_v(0xF), 1);
    let mut emu = machine(&[0x6A, 0x02, 0x8A, 0x06]);
    run(&mut emu, 2);
    assert_eq!(emu.get_v(0xA), 0x01);
    assert_eq!(emu.get_v(0xF), 0);
}

#[test]
fn shift_left_flags_high_bit() {
    let mut emu = machine(&[0x6A, 0x81, 0x8A, 0x0E]);
    run(&mut emu, 2);
    assert_eq!(emu.get_v(0xA), 0x02);
    assert_eq!(emu.get_v(0xF), 1);
    let mut emu = machine(&[0x6A, 0x41, 0x8A, 0x0E]);
    run(&mut emu, 2);
    assert_eq!(emu.get_v(0xA), 0x82);
    assert_eq!(emu.get_v(0xF), 0);
}

#[test]
fn bitwise_and_moves() {
    let mut emu = machine(&[
        0x6A, 0xC3, 0x6B, 0x0F, 0x8C, 0xA0, 0x8C, 0xB1, 0x8D, 0xA0, 0x8D, 0xB2, 0x8E, 0xA0,
        0x8E, 0xB3,
    ]);
    run(&mut emu, 8);
    assert_eq!(emu.get_v(0xC), 0xCF);
    assert_eq!(emu.get_v(0xD), 0x03);
    assert_eq!(emu.get_v(0xE), 0xCC);
}

#[test]
fn drawing_twice_restores_and_flags_second() {
    let mut emu = machine(&[0xA0, 0x00, 0xD0, 0x05, 0xD0, 0x05]);
    run(&mut emu, 2);
    assert_eq!(emu.get_v(0xF), 0);
    // glyph 0 is F0 90 90 90 F0: 4 + 2 + 2 + 2 + 4 pixels
    assert_eq!(lit(&emu).len(), 14);
    assert!(emu.get_display()[0] && emu.get_display()[3] && !emu.get_display()[4]);
    run(&mut emu, 1);
    assert_eq!(emu.get_v(0xF), 1);
    assert!(lit(&emu).is_empty());
}

#[test]
fn draw_wraps_horizontally() {
    // V0 = 60, V1 = 0, I = 0x300 where the row 0xFF lies
    let mut rom = vec![0x60, 60, 0x61, 0, 0xA3, 0x00, 0xD0, 0x11];
    rom.resize(0x100, 0);
    rom.push(0xFF);
    let mut emu = machine(&rom);
    run(&mut emu, 4);
    assert_eq!(lit(&emu), vec![0, 1, 2, 3, 60, 61, 62, 63]);
    assert_eq!(emu.get_v(0xF), 0);
}

#[test]
fn draw_wraps_vertically() {
    // V0 = 2, V1 = 30, glyph 1 (20 60 20 20 70) at rows 30, 31, 0, 1, 2
    let mut emu = machine(&[0x60, 2, 0x61, 30, 0xA0, 0x05, 0xD0, 0x15]);
    run(&mut emu, 4);
    let mut expected = vec![64 * 30 + 4, 64 * 31 + 3, 64 * 31 + 4, 4, 64 + 4, 128 + 3, 128 + 4, 128 + 5];
    expected.sort();
    assert_eq!(lit(&emu), expected);
}

#[test]
fn draw_origin_is_taken_modulo_screen() {
    // V0 = 200 (column 8), V1 = 70 (row 6), one row 0x80 at I = 0x300
    let mut rom = vec![0x60, 200, 0x61, 70, 0xA3, 0x00, 0xD0, 0x11];
    rom.resize(0x100, 0);
    rom.push(0x80);
    let mut emu = machine(&rom);
    run(&mut emu, 4);
    assert_eq!(lit(&emu), vec![6 * 64 + 8]);
}

#[test]
fn bcd_of_234() {
    let mut emu = machine(&[0x6A, 234, 0xA3, 0x00, 0xFA, 0x33]);
    run(&mut emu, 3);
    assert_eq!(emu.get_memory(0x300), 2);
    assert_eq!(emu.get_memory(0x301), 3);
    assert_eq!(emu.get_memory(0x302), 4);
}

#[test]
fn bcd_of_small_values() {
    let mut emu = machine(&[0x6A, 7, 0xA3, 0x00, 0xFA, 0x33]);
    run(&mut emu, 3);
    assert_eq!(emu.get_memory(0x300), 0);
    assert_eq!(emu.get_memory(0x301), 0);
    assert_eq!(emu.get_memory(0x302), 7);
}

#[test]
fn wait_key_blocks_until_pressed() {
    let mut emu = machine(&[0x6A, 0x55, 0xFA, 0x0A]);
    run(&mut emu, 1);
    for _ in 0..5 {
        emu.step(0).unwrap();
        assert_eq!(emu.get_pc(), 0x202);
        assert_eq!(emu.get_v(0xA), 0x55);
    }
    emu.keypress(3, true).unwrap();
    emu.keypress(9, true).unwrap();
    emu.step(0).unwrap();
    assert_eq!(emu.get_v(0xA), 3);
    assert_eq!(emu.get_pc(), 0x204);
}

#[test]
fn call_then_return() {
    let mut emu = machine(&[0x22, 0x06, 0x00, 0x00, 0x00, 0x00, 0x00, 0xEE]);
    emu.step(0).unwrap();
    assert_eq!(emu.get_pc(), 0x206);
    assert_eq!(emu.get_sp(), 1);
    emu.step(0).unwrap();
    assert_eq!(emu.get_pc(), 0x202);
    assert_eq!(emu.get_sp(), 0);
}

#[test]
fn sound_timer_signals_once() {
    let mut emu = machine(&[0x6A, 0x01, 0xFA, 0x18, 0x6B, 0x02, 0xFB, 0x15]);
    run(&mut emu, 4);
    assert_eq!(emu.get_sound_timer(), 1);
    assert_eq!(emu.get_delay_timer(), 2);
    assert!(emu.tick_timers());
    assert_eq!(emu.get_sound_timer(), 0);
    assert_eq!(emu.get_delay_timer(), 1);
    assert!(!emu.tick_timers());
    assert_eq!(emu.get_sound_timer(), 0);
    assert_eq!(emu.get_delay_timer(), 0);
    assert!(!emu.tick_timers());
    assert_eq!(emu.get_delay_timer(), 0);
}

#[test]
fn delay_timer_read_back() {
    let mut emu = machine(&[0x6A, 0x09, 0xFA, 0x15, 0xFB, 0x07]);
    run(&mut emu, 2);
    emu.tick_timers();
    run(&mut emu, 1);
    assert_eq!(emu.get_v(0xB), 8);
}

#[test]
fn skips() {
    // 3XNN taken, 4XNN not taken, 5XY0 taken, 9XY0 not taken
    let mut emu = machine(&[0x6A, 0x11, 0x3A, 0x11]);
    run(&mut emu, 2);
    assert_eq!(emu.get_pc(), 0x206);
    let mut emu = machine(&[0x6A, 0x11, 0x4A, 0x11]);
    run(&mut emu, 2);
    assert_eq!(emu.get_pc(), 0x204);
    let mut emu = machine(&[0x6A, 0x11, 0x6B, 0x11, 0x5A, 0xB0]);
    run(&mut emu, 3);
    assert_eq!(emu.get_pc(), 0x208);
    let mut emu = machine(&[0x6A, 0x11, 0x6B, 0x11, 0x9A, 0xB0]);
    run(&mut emu, 3);
    assert_eq!(emu.get_pc(), 0x206);
}

#[test]
fn key_skips() {
    let mut emu = machine(&[0x6A, 0x04, 0xEA, 0x9E]);
    emu.keypress(4, true).unwrap();
    run(&mut emu, 2);
    assert_eq!(emu.get_pc(), 0x206);
    let mut emu = machine(&[0x6A, 0x04, 0xEA, 0xA1]);
    emu.keypress(4, true).unwrap();
    run(&mut emu, 2);
    assert_eq!(emu.get_pc(), 0x204);
    emu.keypress(4, false).unwrap();
    assert!(!emu.is_key_pressed(4));
}

#[test]
fn jumps_and_index() {
    let mut emu = machine(&[0x12, 0x04, 0x00, 0x00, 0x60, 0x04, 0xB3, 0x00]);
    run(&mut emu, 3);
    assert_eq!(emu.get_pc(), 0x304);
    let mut emu = machine(&[0xA1, 0x23, 0x60, 0x10, 0xF0, 0x1E]);
    run(&mut emu, 3);
    assert_eq!(emu.get_index(), 0x133);
    let mut emu = machine(&[0x60, 0x0A, 0xF0, 0x29]);
    run(&mut emu, 2);
    assert_eq!(emu.get_index(), 50);
}

#[test]
fn store_and_load_registers() {
    let mut emu = machine(&[0x60, 1, 0x61, 2, 0x62, 3, 0x63, 4, 0xA3, 0x00, 0xF2, 0x55]);
    run(&mut emu, 6);
    assert_eq!(emu.get_memory(0x300), 1);
    assert_eq!(emu.get_memory(0x301), 2);
    assert_eq!(emu.get_memory(0x302), 3);
    assert_eq!(emu.get_memory(0x303), 0);
    let mut emu = machine(&[0x63, 9, 0xA0, 0x05, 0xF2, 0x65]);
    run(&mut emu, 3);
    assert_eq!(emu.get_v(0), 0x20);
    assert_eq!(emu.get_v(1), 0x60);
    assert_eq!(emu.get_v(2), 0x20);
    assert_eq!(emu.get_v(3), 9);
}

#[test]
fn random_byte_is_masked() {
    let mut emu = machine(&[0xC0, 0x0F]);
    emu.step(0xAB).unwrap();
    assert_eq!(emu.get_v(0), 0x0B);
    let mut emu = machine(&[0xC0, 0xF0, 0xC1, 0x00]);
    emu.tick().unwrap();
    assert_eq!(emu.get_v(0) & 0x0F, 0);
    emu.tick().unwrap();
    assert_eq!(emu.get_v(1), 0);
    assert_eq!(emu.get_pc(), 0x204);
}

#[test]
fn tick_runs_one_instruction() {
    let mut emu = machine(&[0x6A, 0x2A, 0x7A, 0x01]);
    emu.tick().unwrap();
    emu.tick().unwrap();
    assert_eq!(emu.get_v(0xA), 0x2B);
    assert_eq!(emu.get_pc(), 0x204);
}

#[test]
fn unknown_opcode_leaves_machine_unchanged() {
    let mut emu = machine(&[0x51, 0x21]);
    assert_eq!(emu.step(0), Err(EmuError::UnknownOpcode(0x5121)));
    assert_eq!(emu.get_pc(), 0x200);
    let mut emu = machine(&[0xE0, 0x00]);
    assert_eq!(emu.tick(), Err(EmuError::UnknownOpcode(0xE000)));
}

#[test]
fn stack_errors() {
    let mut emu = machine(&[0x00, 0xEE]);
    assert_eq!(emu.step(0), Err(EmuError::StackUnderflow));
    assert_eq!(emu.get_pc(), 0x200);
    let mut emu = machine(&[0x22, 0x00]);
    for _ in 0..16 {
        emu.step(0).unwrap();
    }
    assert_eq!(emu.get_sp(), 16);
    assert_eq!(emu.step(0), Err(EmuError::StackOverflow));
    assert_eq!(emu.get_sp(), 16);
    assert_eq!(emu.get_pc(), 0x200);
}

#[test]
fn memory_errors() {
    // jump to the last byte: the fetch runs off the end
    let mut emu = machine(&[0x1F, 0xFF]);
    run(&mut emu, 1);
    assert_eq!(emu.step(0), Err(EmuError::MemoryOutOfBounds));
    assert_eq!(emu.get_pc(), 0xFFF);
    // sprite rows past the end
    let mut emu = machine(&[0xAF, 0xFE, 0xD0, 0x03]);
    run(&mut emu, 1);
    assert_eq!(emu.step(0), Err(EmuError::MemoryOutOfBounds));
    assert!(lit(&emu).is_empty());
    // digits past the end
    let mut emu = machine(&[0xAF, 0xFE, 0xF0, 0x33]);
    run(&mut emu, 1);
    assert_eq!(emu.step(0), Err(EmuError::MemoryOutOfBounds));
    // register dump past the end
    let mut emu = machine(&[0xAF, 0xFE, 0xF2, 0x55]);
    run(&mut emu, 1);
    assert_eq!(emu.step(0), Err(EmuError::MemoryOutOfBounds));
    assert_eq!(emu.get_memory(0xFFE), 0);
    let mut emu = machine(&[0xAF, 0xFE, 0xF2, 0x65]);
    run(&mut emu, 1);
    assert_eq!(emu.step(0), Err(EmuError::MemoryOutOfBounds));
}

#[test]
fn key_index_errors() {
    let mut emu = Emu::new();
    assert_eq!(emu.keypress(16, true), Err(EmuError::InvalidKeyIndex));
    assert_eq!(emu.keypress(15, true), Ok(()));
    assert!(emu.is_key_pressed(15));
    let mut emu = machine(&[0x6A, 0x10, 0xEA, 0x9E]);
    run(&mut emu, 1);
    assert_eq!(emu.step(0), Err(EmuError::InvalidKeyIndex));
    assert_eq!(emu.get_pc(), 0x202);
}

#[test]
fn load_bounds() {
    let mut emu = Emu::new();
    assert_eq!(emu.load(&vec![1u8; 4096 - 0x200 + 1]), Err(EmuError::OversizedLoad));
    assert_eq!(emu.get_memory(0x200), 0);
    assert_eq!(emu.load(&vec![7u8; 4096 - 0x200]), Ok(()));
    assert_eq!(emu.get_memory(0x200), 7);
    assert_eq!(emu.get_memory(0xFFF), 7);
    assert_eq!(emu.get_memory(0x1FF), 0);
    assert_eq!(emu.get_memory(0), FONT[0]);
    assert_eq!(emu.load(&[]), Ok(()));
}

#[test]
fn decoding_table() {
    assert_eq!(decode(0x0000), Some(Instr::Nop));
    assert_eq!(decode(0x00E0), Some(Instr::Cls));
    assert_eq!(decode(0x00EE), Some(Instr::Ret));
    assert_eq!(decode(0x1ABC), Some(Instr::Jump(0xABC)));
    assert_eq!(decode(0x8126), Some(Instr::Shr(1)));
    assert_eq!(decode(0xD12F), Some(Instr::Draw(1, 2, 0xF)));
    assert_eq!(decode(0xF733), Some(Instr::Bcd(7)));
    assert_eq!(decode(0x0123), None);
    assert_eq!(decode(0x8128), None);
    assert_eq!(decode(0xF0FF), None);
}
