use chip_8::{Chip8, Chip8Error};

fn ready() -> Chip8 {
    let mut chip = Chip8::new();
    chip.initialize().unwrap();
    chip.load_program(vec![0x00, 0xE0]).unwrap();
    chip
}

fn lit(chip: &Chip8) -> usize {
    chip.clone_frame().iter().filter(|p| **p).count()
}

#[test]
fn draw_twice_turns_pixels_off_and_flags_collision() {
    let mut chip = ready();
    // glyph "0" of the font: F0 90 90 90 F0
    chip.instruction_set_index_register(0x050);
    chip.instruction_set_immediate(0, 3);
    chip.instruction_set_immediate(1, 4);
    chip.instruction_draw(0, 1, 5).unwrap();
    assert_eq!(chip.register(0xF), 0);
    assert_eq!(lit(&chip), 14);
    assert!(chip.pixel(3, 4));
    assert!(chip.pixel(6, 4));
    assert!(!chip.pixel(7, 4));
    assert!(chip.pixel(3, 5));
    assert!(!chip.pixel(4, 5));
    chip.instruction_draw(0, 1, 5).unwrap();
    assert_eq!(chip.register(0xF), 1);
    assert_eq!(lit(&chip), 0);
}

#[test]
fn draw_clips_at_the_right_and_bottom_edges() {
    let mut chip = ready();
    chip.instruction_set_index_register(0x300);
    for r in 0..4u8 {
        chip.instruction_set_immediate(r, 0xFF);
    }
    chip.instruction_dump_registers(3).unwrap();
    chip.instruction_set_immediate(0, 60);
    chip.instruction_set_immediate(1, 30);
    chip.instruction_draw(0, 1, 4).unwrap();
    assert_eq!(lit(&chip), 8);
    assert!(chip.pixel(63, 31));
    assert!(!chip.pixel(0, 30));
    assert!(!chip.pixel(60, 0));
}

#[test]
fn draw_origin_wraps() {
    let mut chip = ready();
    chip.instruction_set_index_register(0x300);
    chip.instruction_set_immediate(0, 0x80);
    chip.instruction_dump_registers(0).unwrap();
    chip.instruction_set_immediate(0, 64 + 5);
    chip.instruction_set_immediate(1, 32 + 2);
    chip.instruction_draw(0, 1, 1).unwrap();
    assert_eq!(lit(&chip), 1);
    assert!(chip.pixel(5, 2));
}

#[test]
fn draw_reading_past_memory_fails_without_change() {
    let mut chip = ready();
    chip.instruction_set_immediate(0xF, 9);
    chip.instruction_set_index_register(0xFFF);
    assert_eq!(chip.instruction_draw(0, 1, 2), Err(Chip8Error::AddressOutOfRange { address: 0xFFF }));
    assert_eq!(chip.register(0xF), 9);
    assert_eq!(chip.instruction_draw(0, 1, 1), Ok(()));
}

#[test]
fn clear_blanks_the_display() {
    let mut chip = ready();
    chip.instruction_set_index_register(0x050);
    chip.instruction_draw(0, 0, 5).unwrap();
    assert!(lit(&chip) > 0);
    chip.instruction_clear();
    assert_eq!(lit(&chip), 0);
}

#[test]
fn frames_are_taken_once_per_change() {
    let mut chip = ready();
    let first = chip.take_frame().unwrap();
    assert_eq!(first.len(), 2048);
    assert!(chip.take_frame().is_none());
    chip.instruction_set_index_register(0x050);
    chip.instruction_draw(0, 0, 1).unwrap();
    let frame = chip.take_frame().unwrap();
    assert!(frame[0] && frame[3] && !frame[4]);
    assert!(chip.take_frame().is_none());
}
