use chip8::chip8::Chip8;
use chip8::fault::Fault;
use chip8::font::{FONTSET_START_ADDRESS, FONT_DATA, START_ADDRESS};

fn booted(program: &[u8]) -> Chip8 {
    let mut chip = Chip8::create();
    assert_eq!(chip.load_rom(program), Ok(()));
    chip
}

#[test]
fn create_gives_a_zeroed_machine_with_the_font() {
    let chip = Chip8::create();
    assert_eq!(chip.program_counter, 0x200);
    assert_eq!(chip.program_counter, START_ADDRESS);
    assert_eq!(chip.index_register, 0);
    assert_eq!(chip.stack_pointer, 0);
    assert_eq!(chip.delay_timer, 0);
    assert_eq!(chip.sound_timer, 0);
    assert_eq!(chip.opcode, 0);
    assert_eq!(chip.registers, [0u8; 16]);
    assert_eq!(chip.stack, [0u16; 16]);
    assert_eq!(chip.keypad, [false; 16]);
    assert!(chip.video.iter().all(|&pixel| pixel == 0));
    for address in 0..4096usize {
        let expected = if (0x50..0xA0).contains(&address) {
            FONT_DATA[address - 0x50]
        } else {
            0
        };
        assert_eq!(chip.memory[address], expected, "address {address:#05x}");
    }
    assert_eq!(FONTSET_START_ADDRESS, 0x50);
    assert_eq!(&chip.memory[0x50..0x55], &[0xF0, 0x90, 0x90, 0x90, 0xF0]);
    assert_eq!(&chip.memory[0x9B..0xA0], &[0xF0, 0x80, 0xF0, 0x80, 0x80]);
}

#[test]
fn load_then_add_takes_two_cycles() {
    let mut chip = booted(&[0x6A, 0x05, 0x7A, 0x03]);
    assert_eq!(chip.run(), Ok(()));
    assert_eq!(chip.registers[0xA], 5);
    assert_eq!(chip.program_counter, 0x202);
    assert_eq!(chip.opcode, 0x6A05);
    assert_eq!(chip.run(), Ok(()));
    assert_eq!(chip.registers[0xA], 8);
    assert_eq!(chip.program_counter, 0x204);
    assert_eq!(chip.opcode, 0x7A03);
}

#[test]
fn delay_timer_runs_down_and_rests_at_zero() {
    // V0 = 2; DT = V0; then three loads that touch no timer.
    let mut chip = booted(&[0x60, 0x02, 0xF0, 0x15, 0x61, 0x00, 0x61, 0x00, 0x61, 0x00]);
    assert_eq!(chip.run(), Ok(()));
    assert_eq!(chip.run(), Ok(()));
    assert_eq!(chip.run(), Ok(()));
    assert_eq!(chip.run(), Ok(()));
    assert_eq!(chip.delay_timer, 0);
    assert_eq!(chip.run(), Ok(()));
    assert_eq!(chip.delay_timer, 0);
}

#[test]
fn a_timer_set_in_a_cycle_is_counted_down_in_that_cycle() {
    let mut chip = booted(&[0x60, 0x05, 0xF0, 0x15, 0xF0, 0x18, 0x61, 0x00]);
    chip.run().unwrap();
    chip.run().unwrap();
    assert_eq!(chip.delay_timer, 4);
    assert_eq!(chip.sound_timer, 0);
    chip.run().unwrap();
    assert_eq!(chip.delay_timer, 3);
    assert_eq!(chip.sound_timer, 4);
    chip.run().unwrap();
    assert_eq!(chip.delay_timer, 2);
    assert_eq!(chip.sound_timer, 3);
}

#[test]
fn call_then_return_comes_back_after_the_call() {
    // 0x200: CALL 0x2A0 ... 0x2A0: RET
    let mut program = vec![0u8; 0xA2];
    program[0] = 0x22;
    program[1] = 0xA0;
    program[0xA0] = 0x00;
    program[0xA1] = 0xEE;
    let mut chip = booted(&program);
    assert_eq!(chip.run(), Ok(()));
    assert_eq!(chip.program_counter, 0x2A0);
    assert_eq!(chip.stack_pointer, 1);
    assert_eq!(chip.stack[0], 0x202);
    assert_eq!(chip.run(), Ok(()));
    assert_eq!(chip.program_counter, 0x202);
    assert_eq!(chip.stack_pointer, 0);
}

#[test]
fn nested_calls_return_in_reverse_order() {
    // 0x200: CALL 0x210; 0x210: CALL 0x220; 0x220: RET; 0x212: RET
    let mut program = vec![0u8; 0x30];
    program[0x00..0x02].copy_from_slice(&[0x22, 0x10]);
    program[0x10..0x12].copy_from_slice(&[0x22, 0x20]);
    program[0x12..0x14].copy_from_slice(&[0x00, 0xEE]);
    program[0x20..0x22].copy_from_slice(&[0x00, 0xEE]);
    let mut chip = booted(&program);
    chip.run().unwrap();
    chip.run().unwrap();
    assert_eq!(chip.stack_pointer, 2);
    assert_eq!(&chip.stack[0..2], &[0x202, 0x212]);
    chip.run().unwrap();
    assert_eq!(chip.program_counter, 0x212);
    chip.run().unwrap();
    assert_eq!(chip.program_counter, 0x202);
    assert_eq!(chip.stack_pointer, 0);
}

#[test]
fn the_seventeenth_nested_call_overflows_the_stack() {
    // CALL 0x200 calls itself for ever.
    let mut chip = booted(&[0x22, 0x00]);
    for depth in 0..16u16 {
        assert_eq!(chip.run(), Ok(()), "call {depth}");
        assert_eq!(chip.stack_pointer, depth + 1);
    }
    let before = chip.clone();
    assert_eq!(chip.run(), Err(Fault::StackOverflow));
    assert_eq!(chip, before);
}

#[test]
fn return_with_an_empty_stack_underflows() {
    let mut chip = booted(&[0x00, 0xEE]);
    let before = chip.clone();
    assert_eq!(chip.run(), Err(Fault::StackUnderflow));
    assert_eq!(chip, before);
}

#[test]
fn return_with_a_stack_pointer_past_the_stack_is_an_overflow() {
    let mut chip = booted(&[0x00, 0xEE]);
    chip.stack_pointer = 17;
    let before = chip.clone();
    assert_eq!(chip.run(), Err(Fault::StackOverflow));
    assert_eq!(chip, before);

    chip.stack_pointer = 16;
    chip.stack[15] = 0x456;
    assert_eq!(chip.run(), Ok(()));
    assert_eq!(chip.program_counter, 0x456);
    assert_eq!(chip.stack_pointer, 15);
}

#[test]
fn words_that_match_no_pattern_are_invalid() {
    let words: [u16; 13] = [
        0x0000, 0x0123, 0x00E1, 0x00EF, 0x5121, 0x512F, 0x8128, 0x812F, 0x9121, 0xE19F, 0xE1A0,
        0xF100, 0xF1FF,
    ];
    for word in words {
        let mut chip = booted(&[(word >> 8) as u8, word as u8]);
        chip.opcode = 0x1234;
        let before = chip.clone();
        assert_eq!(chip.run(), Err(Fault::InvalidInstruction(word)), "word {word:#06x}");
        assert_eq!(chip, before, "word {word:#06x}");
    }
}

#[test]
fn every_listed_pattern_is_an_instruction() {
    let words: [u16; 35] = [
        0x00E0, 0x1234, 0x2234, 0x3012, 0x4012, 0x5120, 0x6012, 0x7012, 0x8120, 0x8121, 0x8122,
        0x8123, 0x8124, 0x8125, 0x8126, 0x8127, 0x812E, 0x9120, 0xA123, 0xB123, 0xC1FF, 0xD121,
        0xE19E, 0xE1A1, 0xF107, 0xF10A, 0xF115, 0xF118, 0xF11E, 0xF129, 0xF133, 0xF155, 0xF165,
        0xD120, 0xDFFF,
    ];
    for word in words {
        let mut chip = booted(&[(word >> 8) as u8, word as u8]);
        assert_eq!(chip.run(), Ok(()), "word {word:#06x}");
        assert_eq!(chip.opcode, word);
    }
}

#[test]
fn fetching_past_the_end_of_memory_faults() {
    let mut chip = Chip8::create();
    chip.program_counter = 4095;
    let before = chip.clone();
    assert_eq!(chip.run(), Err(Fault::OutOfBounds));
    assert_eq!(chip, before);

    chip.program_counter = 4096;
    assert_eq!(chip.run(), Err(Fault::OutOfBounds));
    chip.program_counter = 0xFFFF;
    assert_eq!(chip.run(), Err(Fault::OutOfBounds));

    // The last word of memory can still be fetched.
    chip.program_counter = 4094;
    chip.memory[4094] = 0x6A;
    chip.memory[4095] = 0x05;
    assert_eq!(chip.run(), Ok(()));
    assert_eq!(chip.registers[0xA], 5);
    assert_eq!(chip.program_counter, 4096);
}

#[test]
fn load_rom_copies_the_image_to_the_program_offset() {
    let image: Vec<u8> = (0..=255u8).collect();
    let mut chip = Chip8::create();
    let fresh = Chip8::create();
    assert_eq!(chip.load_rom(&image), Ok(()));
    assert_eq!(&chip.memory[0x200..0x300], &image[..]);
    assert_eq!(&chip.memory[..0x200], &fresh.memory[..0x200]);
    assert_eq!(&chip.memory[0x300..], &fresh.memory[0x300..]);
    chip.memory = fresh.memory;
    assert_eq!(chip, fresh);
}

#[test]
fn load_rom_accepts_an_empty_image() {
    let mut chip = Chip8::create();
    assert_eq!(chip.load_rom(&[]), Ok(()));
    assert_eq!(chip, Chip8::create());
}

#[test]
fn load_rom_fills_memory_to_the_last_byte() {
    let image = vec![0xABu8; 3584];
    let mut chip = Chip8::create();
    assert_eq!(chip.load_rom(&image), Ok(()));
    assert_eq!(chip.memory[0x1FF], 0);
    assert_eq!(chip.memory[0x200], 0xAB);
    assert_eq!(chip.memory[0xFFF], 0xAB);
}

#[test]
fn load_rom_refuses_an_image_that_is_too_large() {
    let image = vec![0xABu8; 3585];
    let mut chip = Chip8::create();
    assert_eq!(chip.load_rom(&image), Err(Fault::ProgramTooLarge));
    assert_eq!(chip, Chip8::create());
}

#[test]
fn temp_lists_the_next_words_and_moves_past_them() {
    let mut chip = booted(&[0x6A, 0x05, 0x7A, 0x03]);
    chip.memory[0x200 + 490] = 0x12;
    chip.memory[0x200 + 491] = 0x34;
    chip.memory[0x200 + 492] = 0xFF;
    let words = chip.temp().unwrap();
    assert_eq!(words.len(), 246);
    assert_eq!(words[0], 0x6A05);
    assert_eq!(words[1], 0x7A03);
    assert!(words[2..245].iter().all(|&word| word == 0));
    assert_eq!(words[245], 0x1234);
    assert_eq!(chip.program_counter, 0x200 + 492);
    let mut expected = booted(&[0x6A, 0x05, 0x7A, 0x03]);
    expected.memory = chip.memory;
    expected.program_counter = 0x200 + 492;
    assert_eq!(chip, expected);
}

#[test]
fn temp_needs_all_words_within_memory() {
    let mut chip = Chip8::create();
    chip.program_counter = 4096 - 492;
    assert_eq!(chip.temp().map(|words| words.len()), Ok(246));
    assert_eq!(chip.program_counter, 4096);

    chip.program_counter = 4096 - 491;
    let before = chip.clone();
    assert_eq!(chip.temp(), Err(Fault::OutOfBounds));
    assert_eq!(chip, before);
}

#[test]
fn clone_gives_a_second_machine_in_the_same_state() {
    let mut chip = booted(&[0x6A, 0x05, 0x7A, 0x03]);
    chip.run().unwrap();
    chip.keypad[3] = true;
    chip.video[70] = 0xFF;
    let mut copy = chip.clone();
    assert_eq!(copy, chip);
    copy.run().unwrap();
    assert_eq!(copy.registers[0xA], 8);
    assert_eq!(chip.registers[0xA], 5);
}
