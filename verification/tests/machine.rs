use chip8::chip::Chip8;
use chip8::Chip8Error;

#[test]
fn new_seeds_font_and_program_counter() {
    let c = Chip8::new();
    assert_eq!(c.pc, 0x200);
    assert_eq!(c.sp, 0);
    assert_eq!(c.index, 0);
    assert_eq!(c.opcode, 0);
    assert_eq!(c.delay_timer, 0);
    assert_eq!(c.sound_timer, 0);
    assert_eq!(c.registers.len(), 16);
    assert_eq!(c.memory.len(), 4096);
    assert_eq!(c.stack.len(), 16);
    assert_eq!(c.keypad.len(), 16);
    assert_eq!(c.video.len(), 64 * 32);
    for i in 0..16 {
        assert_eq!(c.registers[i], 0);
        assert!(!c.keypad[i]);
    }
    // the first glyph (digit 0) and the last byte of the last glyph
    assert_eq!(c.memory[0], 0xF0);
    assert_eq!(c.memory[4], 0xF0);
    assert_eq!(c.memory[79], 0x80);
    // nothing beyond the font
    assert_eq!(c.memory[80], 0);
    assert_eq!(c.memory[0x200], 0);
    for cell in 0..64 * 32 {
        assert!(!c.video[cell]);
    }
    assert!(c.well_formed());
}

#[test]
fn reset_restores_initial_state() {
    let mut c = Chip8::new();
    c.registers[3] = 42;
    c.pc = 0x400;
    c.delay_timer = 9;
    c.video[17] = true;
    c.reset();
    assert_eq!(c.registers[3], 0);
    assert_eq!(c.pc, 0x200);
    assert_eq!(c.delay_timer, 0);
    assert!(!c.video[17]);
    assert_eq!(c.memory[0], 0xF0);
}

#[test]
fn load_rom_copies_bytes_at_origin() {
    let mut c = Chip8::new();
    let rom = vec![0x12u8, 0x34, 0x56];
    assert_eq!(c.load_rom(&rom), Ok(()));
    assert_eq!(c.memory[0x200], 0x12);
    assert_eq!(c.memory[0x201], 0x34);
    assert_eq!(c.memory[0x202], 0x56);
    assert_eq!(c.memory[0x203], 0x00);
}

#[test]
fn load_rom_exact_fit_succeeds() {
    let mut c = Chip8::new();
    let rom = vec![0xABu8; 3584];
    assert_eq!(c.load_rom(&rom), Ok(()));
    assert_eq!(c.memory[0x200], 0xAB);
    assert_eq!(c.memory[4095], 0xAB);
    // the font below the origin is untouched
    assert_eq!(c.memory[0], 0xF0);
}

#[test]
fn load_rom_one_byte_too_large_fails_and_leaves_memory_unchanged() {
    let mut c = Chip8::new();
    let rom = vec![0xABu8; 3585];
    assert_eq!(c.load_rom(&rom), Err(Chip8Error::ImageTooLarge));
    assert_eq!(c.memory[0x200], 0);
    assert_eq!(c.memory[4095], 0);
    assert_eq!(c.memory[0], 0xF0);
    assert_eq!(c.pc, 0x200);
}

#[test]
fn cycle_fetches_and_executes() {
    let mut c = Chip8::new();
    // 61AB: load 0xAB into register 1
    assert_eq!(c.load_rom(&vec![0x61, 0xAB]), Ok(()));
    assert_eq!(c.cycle(), Ok(()));
    assert_eq!(c.registers[1], 0xAB);
    assert_eq!(c.pc, 0x202);
    assert_eq!(c.opcode, 0x61AB);
}

#[test]
fn cycle_surfaces_decode_error_and_continues() {
    let mut c = Chip8::new();
    // FFFF matches no opcode pattern
    assert_eq!(c.load_rom(&vec![0xFF, 0xFF, 0xFF, 0xFF]), Ok(()));
    assert_eq!(c.cycle(), Err(Chip8Error::DecodeError));
    // the fetch still advanced the program counter; nothing else moved
    assert_eq!(c.pc, 0x202);
    assert_eq!(c.registers[0xF], 0);
    // the machine can keep stepping afterwards
    assert_eq!(c.cycle(), Err(Chip8Error::DecodeError));
    assert_eq!(c.pc, 0x204);
}

#[test]
fn cycle_unknown_family_8_pattern_is_a_decode_error() {
    let mut c = Chip8::new();
    // 8xy9 is not an operation
    assert_eq!(c.load_rom(&vec![0x80, 0x19]), Ok(()));
    assert_eq!(c.cycle(), Err(Chip8Error::DecodeError));
}

#[test]
fn timers_tick_once_per_cycle_and_floor_at_zero() {
    let mut c = Chip8::new();
    // 00E0 (clear screen) twice
    assert_eq!(c.load_rom(&vec![0x00, 0xE0, 0x00, 0xE0]), Ok(()));
    c.delay_timer = 2;
    c.sound_timer = 1;
    assert_eq!(c.cycle(), Ok(()));
    assert_eq!(c.delay_timer, 1);
    assert_eq!(c.sound_timer, 0);
    assert_eq!(c.cycle(), Ok(()));
    assert_eq!(c.delay_timer, 0);
    assert_eq!(c.sound_timer, 0);
}

#[test]
fn wait_for_key_never_advances_without_input() {
    let mut c = Chip8::new();
    // F00A: wait for a key into register 0
    assert_eq!(c.load_rom(&vec![0xF0, 0x0A]), Ok(()));
    for _ in 0..5 {
        assert_eq!(c.cycle(), Ok(()));
        assert_eq!(c.pc, 0x200);
        assert_eq!(c.registers[0], 0);
    }
}

#[test]
fn wait_for_key_takes_lowest_pressed_index() {
    let mut c = Chip8::new();
    assert_eq!(c.load_rom(&vec![0xF0, 0x0A]), Ok(()));
    assert_eq!(c.cycle(), Ok(()));
    assert_eq!(c.pc, 0x200);
    c.keypad[5] = true;
    c.keypad[3] = true;
    assert_eq!(c.cycle(), Ok(()));
    assert_eq!(c.registers[0], 3);
    assert_eq!(c.pc, 0x202);
}

#[test]
fn call_then_return_round_trips_program_counter() {
    let mut c = Chip8::new();
    c.pc = 0x250;
    c.opcode = 0x2300;
    assert_eq!(c.OP_2nnn(), Ok(()));
    assert_eq!(c.pc, 0x300);
    assert_eq!(c.sp, 1);
    assert_eq!(c.OP_00EE(), Ok(()));
    assert_eq!(c.pc, 0x250);
    assert_eq!(c.sp, 0);
}

#[test]
fn seventeenth_nested_call_is_a_stack_overflow() {
    let mut c = Chip8::new();
    c.opcode = 0x2300;
    for _ in 0..16 {
        assert_eq!(c.OP_2nnn(), Ok(()));
    }
    assert_eq!(c.sp, 16);
    let pc_before = c.pc;
    assert_eq!(c.OP_2nnn(), Err(Chip8Error::StackOverflow));
    assert_eq!(c.pc, pc_before);
    assert_eq!(c.sp, 16);
}

#[test]
fn return_with_empty_stack_is_a_stack_underflow() {
    let mut c = Chip8::new();
    let pc_before = c.pc;
    assert_eq!(c.OP_00EE(), Err(Chip8Error::StackUnderflow));
    assert_eq!(c.pc, pc_before);
    assert_eq!(c.sp, 0);
}
