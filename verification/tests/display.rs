use chip8::chip8::Chip8;
use chip8::fault::Fault;

/// A fresh machine that is about to draw `rows` rows at (`x`, `y`), the
/// sprite being the glyph for zero.
fn about_to_draw(x: u8, y: u8, rows: u8) -> Chip8 {
    let mut chip = Chip8::create();
    assert_eq!(chip.load_rom(&[0xD0, 0x10 | rows, 0xD0, 0x10 | rows]), Ok(()));
    chip.registers[0] = x;
    chip.registers[1] = y;
    chip.index_register = 0x50;
    chip
}

/// The pixels that are on, as (column, row) pairs in framebuffer order.
fn lit(chip: &Chip8) -> Vec<(usize, usize)> {
    let mut pixels = Vec::new();
    for (at, &pixel) in chip.video.iter().enumerate() {
        assert!(pixel == 0x00 || pixel == 0xFF);
        if pixel == 0xFF {
            pixels.push((at % 64, at / 64));
        }
    }
    pixels
}

#[test]
fn draw_puts_the_sprite_on_a_clear_screen() {
    let mut chip = about_to_draw(0, 0, 5);
    let mut expected = chip.clone();
    assert_eq!(chip.run(), Ok(()));
    // F0 90 90 90 F0
    assert_eq!(
        lit(&chip),
        vec![
            (0, 0), (1, 0), (2, 0), (3, 0),
            (0, 1), (3, 1),
            (0, 2), (3, 2),
            (0, 3), (3, 3),
            (0, 4), (1, 4), (2, 4), (3, 4),
        ]
    );
    assert_eq!(chip.registers[0xF], 0);
    expected.video = chip.video;
    expected.program_counter = 0x202;
    expected.opcode = 0xD015;
    assert_eq!(chip, expected);
}

#[test]
fn draw_starts_at_the_registers_modulo_the_screen_size() {
    let mut chip = about_to_draw(64 + 10, 32 + 20, 1);
    assert_eq!(chip.run(), Ok(()));
    assert_eq!(lit(&chip), vec![(10, 20), (11, 20), (12, 20), (13, 20)]);

    let mut chip = about_to_draw(255, 255, 1);
    assert_eq!(chip.run(), Ok(()));
    assert_eq!(lit(&chip), vec![(63, 31)]);
}

#[test]
fn draw_clips_at_the_right_and_bottom_edges() {
    let mut chip = about_to_draw(62, 30, 5);
    assert_eq!(chip.run(), Ok(()));
    assert_eq!(lit(&chip), vec![(62, 30), (63, 30), (62, 31)]);
    assert_eq!(chip.registers[0xF], 0);
}

#[test]
fn clear_then_draw_leaves_exactly_the_sprite() {
    let mut chip = Chip8::create();
    assert_eq!(chip.load_rom(&[0x00, 0xE0, 0xD0, 0x15]), Ok(()));
    chip.registers[0] = 8;
    chip.registers[1] = 4;
    chip.index_register = 0x50 + 5;
    for (at, pixel) in chip.video.iter_mut().enumerate() {
        *pixel = if at % 3 == 0 { 0xFF } else { 0x00 };
    }
    chip.registers[0xF] = 1;
    assert_eq!(chip.run(), Ok(()));
    assert!(lit(&chip).is_empty());
    assert_eq!(chip.run(), Ok(()));
    // 20 60 20 20 70
    assert_eq!(
        lit(&chip),
        vec![
            (10, 4),
            (9, 5), (10, 5),
            (10, 6),
            (10, 7),
            (9, 8), (10, 8), (11, 8),
        ]
    );
    assert_eq!(chip.registers[0xF], 0);
}

#[test]
fn drawing_twice_restores_the_screen_and_reports_a_collision() {
    let mut chip = about_to_draw(30, 12, 5);
    for (at, pixel) in chip.video.iter_mut().enumerate() {
        *pixel = if at % 64 >= 40 { 0xFF } else { 0x00 };
    }
    let before = chip.video;
    assert_eq!(chip.run(), Ok(()));
    assert_ne!(chip.video, before);
    assert_eq!(chip.registers[0xF], 0);
    assert_eq!(chip.run(), Ok(()));
    assert_eq!(chip.video, before);
    assert_eq!(chip.registers[0xF], 1);
}

#[test]
fn drawing_twice_over_lit_pixels_collides_the_first_time_only() {
    let mut chip = about_to_draw(0, 0, 1);
    chip.video = [0xFF; 2048];
    let before = chip.video;
    assert_eq!(chip.run(), Ok(()));
    assert_eq!(&chip.video[0..8], &[0, 0, 0, 0, 0xFF, 0xFF, 0xFF, 0xFF]);
    assert_eq!(chip.registers[0xF], 1);
    assert_eq!(chip.run(), Ok(()));
    assert_eq!(chip.video, before);
    assert_eq!(chip.registers[0xF], 0);
}

#[test]
fn a_partial_overlap_is_a_collision() {
    let mut chip = about_to_draw(0, 0, 1);
    chip.video[3] = 0xFF;
    assert_eq!(chip.run(), Ok(()));
    assert_eq!(lit(&chip), vec![(0, 0), (1, 0), (2, 0)]);
    assert_eq!(chip.registers[0xF], 1);
}

#[test]
fn the_flag_from_an_earlier_draw_does_not_linger() {
    let mut chip = about_to_draw(0, 0, 1);
    chip.registers[0xF] = 1;
    assert_eq!(chip.run(), Ok(()));
    assert_eq!(chip.registers[0xF], 0);
}

#[test]
fn any_nonzero_pixel_counts_as_on() {
    let mut chip = about_to_draw(0, 0, 1);
    chip.video[1] = 0x01;
    assert_eq!(chip.run(), Ok(()));
    assert_eq!(&chip.video[0..4], &[0xFF, 0x00, 0xFF, 0xFF]);
    assert_eq!(chip.registers[0xF], 1);
}

#[test]
fn a_sprite_with_no_rows_draws_nothing() {
    let mut chip = about_to_draw(5, 5, 0);
    chip.index_register = 0xFFFF;
    chip.registers[0xF] = 1;
    chip.video[100] = 0xFF;
    assert_eq!(chip.run(), Ok(()));
    assert_eq!(lit(&chip), vec![(36, 1)]);
    assert_eq!(chip.registers[0xF], 0);
}

#[test]
fn a_position_taken_from_the_flag_register_is_read_before_the_flag_is_reset() {
    let mut chip = Chip8::create();
    assert_eq!(chip.load_rom(&[0xDF, 0x11]), Ok(()));
    chip.registers[0xF] = 20;
    chip.registers[1] = 3;
    chip.index_register = 0x50;
    assert_eq!(chip.run(), Ok(()));
    assert_eq!(lit(&chip), vec![(20, 3), (21, 3), (22, 3), (23, 3)]);
    assert_eq!(chip.registers[0xF], 0);
}

#[test]
fn a_sprite_that_reaches_past_memory_faults() {
    let mut chip = about_to_draw(0, 0, 2);
    chip.index_register = 0xFFF;
    let before = chip.clone();
    assert_eq!(chip.run(), Err(Fault::OutOfBounds));
    assert_eq!(chip, before);

    let mut chip = about_to_draw(0, 0, 1);
    chip.index_register = 0xFFF;
    chip.memory[0xFFF] = 0x80;
    assert_eq!(chip.run(), Ok(()));
    assert_eq!(lit(&chip), vec![(0, 0)]);

    let mut chip = about_to_draw(0, 31, 2);
    chip.index_register = 0xFFF;
    assert_eq!(chip.run(), Err(Fault::OutOfBounds));
}

#[test]
fn a_fifteen_row_sprite_is_drawn_row_by_row() {
    let mut chip = about_to_draw(56, 16, 15);
    chip.index_register = 0x300;
    for row in 0..15 {
        chip.memory[0x300 + row] = 1 << (row % 8);
    }
    assert_eq!(chip.run(), Ok(()));
    let expected: Vec<(usize, usize)> = (0..15).map(|row| (56 + 7 - row % 8, 16 + row)).collect();
    assert_eq!(lit(&chip), expected);
}
