use chip8::chip::Chip8;

#[test]
fn add_immediate_wraps_and_leaves_flag_alone() {
    let mut c = Chip8::new();
    c.registers[2] = 200;
    c.registers[0xF] = 9;
    c.opcode = 0x723C; // add 60 into register 2
    c.OP_7xkk();
    assert_eq!(c.registers[2], 4); // (200 + 60) % 256
    assert_eq!(c.registers[0xF], 9); // flag untouched
}

#[test]
fn add_register_sets_carry_iff_sum_exceeds_255() {
    let mut c = Chip8::new();
    c.registers[0] = 0xFF;
    c.registers[1] = 0x02;
    c.opcode = 0x8014;
    c.OP_8xy4();
    assert_eq!(c.registers[0], 0x01);
    assert_eq!(c.registers[0xF], 1);

    c.registers[0] = 10;
    c.registers[1] = 20;
    c.OP_8xy4();
    assert_eq!(c.registers[0], 30);
    assert_eq!(c.registers[0xF], 0);
}

#[test]
fn shift_right_flag_is_pre_shift_low_bit() {
    let mut c = Chip8::new();
    c.registers[3] = 0b0000_0011;
    c.opcode = 0x8306;
    c.OP_8xy6();
    assert_eq!(c.registers[3], 0b0000_0001);
    assert_eq!(c.registers[0xF], 1);

    c.registers[3] = 4;
    c.OP_8xy6();
    assert_eq!(c.registers[3], 2);
    assert_eq!(c.registers[0xF], 0);
}

#[test]
fn shift_left_flag_is_pre_shift_high_bit() {
    let mut c = Chip8::new();
    c.registers[0] = 0x81;
    c.opcode = 0x800E;
    c.OP_8xyE();
    assert_eq!(c.registers[0], 0x02);
    assert_eq!(c.registers[0xF], 1);

    c.registers[0] = 0x02;
    c.OP_8xyE();
    assert_eq!(c.registers[0], 0x04);
    assert_eq!(c.registers[0xF], 0);
}

#[test]
fn subtract_wraps_and_flags_no_borrow() {
    let mut c = Chip8::new();
    c.registers[0] = 5;
    c.registers[1] = 3;
    c.opcode = 0x8015;
    c.OP_8xy5();
    assert_eq!(c.registers[0], 2);
    assert_eq!(c.registers[0xF], 1);

    c.registers[0] = 3;
    c.registers[1] = 5;
    c.OP_8xy5();
    assert_eq!(c.registers[0], 254);
    assert_eq!(c.registers[0xF], 0);
}

#[test]
fn reverse_subtract_wraps_and_flags_no_borrow() {
    let mut c = Chip8::new();
    c.registers[0] = 3;
    c.registers[1] = 5;
    c.opcode = 0x8017;
    c.OP_8xy7();
    assert_eq!(c.registers[0], 2);
    assert_eq!(c.registers[0xF], 1);

    c.registers[0] = 5;
    c.registers[1] = 3;
    c.OP_8xy7();
    assert_eq!(c.registers[0], 254);
    assert_eq!(c.registers[0xF], 0);
}

#[test]
fn bitwise_ops_write_destination_only() {
    let mut c = Chip8::new();
    c.registers[0] = 0b1100;
    c.registers[1] = 0b1010;
    c.opcode = 0x8011;
    c.OP_8xy1();
    assert_eq!(c.registers[0], 0b1110);
    assert_eq!(c.registers[1], 0b1010);
    assert_eq!(c.registers[0xF], 0);

    c.registers[0] = 0b1100;
    c.opcode = 0x8012;
    c.OP_8xy2();
    assert_eq!(c.registers[0], 0b1000);

    c.registers[0] = 0b1100;
    c.opcode = 0x8013;
    c.OP_8xy3();
    assert_eq!(c.registers[0], 0b0110);
}

#[test]
fn load_and_copy_registers() {
    let mut c = Chip8::new();
    c.opcode = 0x6A77;
    c.OP_6xkk();
    assert_eq!(c.registers[0xA], 0x77);
    c.opcode = 0x80A0;
    c.OP_8xy0();
    assert_eq!(c.registers[0], 0x77);
}

#[test]
fn skip_if_equal_immediate() {
    let mut c = Chip8::new();
    c.registers[4] = 0x20;
    c.opcode = 0x3420;
    c.OP_3xkk();
    assert_eq!(c.pc, 0x202);
    c.opcode = 0x3421;
    c.OP_3xkk();
    assert_eq!(c.pc, 0x202);
}

#[test]
fn skip_if_not_equal_immediate() {
    let mut c = Chip8::new();
    c.registers[4] = 0x20;
    c.opcode = 0x4420;
    c.OP_4xkk();
    assert_eq!(c.pc, 0x200);
    c.opcode = 0x4421;
    c.OP_4xkk();
    assert_eq!(c.pc, 0x202);
}

#[test]
fn skip_on_register_comparison() {
    let mut c = Chip8::new();
    c.registers[1] = 7;
    c.registers[2] = 7;
    c.opcode = 0x5120;
    c.OP_5xy0();
    assert_eq!(c.pc, 0x202);
    c.opcode = 0x9120;
    c.OP_9xy0();
    assert_eq!(c.pc, 0x202);
    c.registers[2] = 8;
    c.OP_9xy0();
    assert_eq!(c.pc, 0x204);
}

#[test]
fn jumps_set_program_counter() {
    let mut c = Chip8::new();
    c.opcode = 0x1ABC;
    c.OP_1nnn();
    assert_eq!(c.pc, 0xABC);
    c.registers[0] = 0x10;
    c.opcode = 0xB200;
    c.OP_Bnnn();
    assert_eq!(c.pc, 0x210);
}

#[test]
fn index_register_load_and_wrapping_add() {
    let mut c = Chip8::new();
    c.opcode = 0xA123;
    c.OP_Annn();
    assert_eq!(c.index, 0x123);
    c.index = 0xFFFF;
    c.registers[0] = 2;
    c.opcode = 0xF01E;
    c.OP_Fx1E();
    assert_eq!(c.index, 1);
}

#[test]
fn font_address_is_five_bytes_per_glyph() {
    let mut c = Chip8::new();
    c.registers[0] = 0xA;
    c.opcode = 0xF029;
    c.OP_Fx29();
    assert_eq!(c.index, 50);
    // the glyph for 0xA starts there
    assert_eq!(c.memory[50], 0xF0);
}

#[test]
fn bcd_store_splits_decimal_digits() {
    let mut c = Chip8::new();
    c.registers[0] = 234;
    c.index = 0x300;
    c.opcode = 0xF033;
    c.OP_Fx33();
    assert_eq!(c.memory[0x300], 2);
    assert_eq!(c.memory[0x301], 3);
    assert_eq!(c.memory[0x302], 4);

    c.registers[0] = 7;
    c.OP_Fx33();
    assert_eq!(c.memory[0x300], 0);
    assert_eq!(c.memory[0x301], 0);
    assert_eq!(c.memory[0x302], 7);
}

#[test]
fn register_dump_and_load_are_inclusive_of_x() {
    let mut c = Chip8::new();
    c.registers[0] = 11;
    c.registers[1] = 22;
    c.registers[2] = 33;
    c.registers[3] = 44;
    c.index = 0x320;
    c.opcode = 0xF255; // dump registers 0..=2
    c.OP_Fx55();
    assert_eq!(c.memory[0x320], 11);
    assert_eq!(c.memory[0x321], 22);
    assert_eq!(c.memory[0x322], 33);
    assert_eq!(c.memory[0x323], 0); // register 3 not dumped

    let mut d = Chip8::new();
    d.memory[0x320] = 5;
    d.memory[0x321] = 6;
    d.memory[0x322] = 7;
    d.memory[0x323] = 8;
    d.index = 0x320;
    d.registers[3] = 99;
    d.opcode = 0xF265; // load registers 0..=2
    d.OP_Fx65();
    assert_eq!(d.registers[0], 5);
    assert_eq!(d.registers[1], 6);
    assert_eq!(d.registers[2], 7);
    assert_eq!(d.registers[3], 99); // register 3 not loaded
}

#[test]
fn random_byte_is_masked_by_immediate() {
    let mut c = Chip8::new();
    c.opcode = 0xC00F;
    c.OP_Cxkk();
    assert!(c.registers[0] < 16);
    c.opcode = 0xC100; // mask 0x00 forces 0 whatever the byte
    c.OP_Cxkk();
    assert_eq!(c.registers[1], 0);
}

#[test]
fn random_opcode_with_injected_byte_is_exact() {
    let mut c = Chip8::new();
    c.opcode = 0xC20F;
    c.OP_Cxkk_with(0xAB);
    assert_eq!(c.registers[2], 0x0B);
    c.opcode = 0xC2FF;
    c.OP_Cxkk_with(0xAB);
    assert_eq!(c.registers[2], 0xAB);
}

#[test]
fn timer_reads_and_writes() {
    let mut c = Chip8::new();
    c.registers[2] = 42;
    c.opcode = 0xF215;
    c.OP_Fx15();
    assert_eq!(c.delay_timer, 42);
    c.opcode = 0xF218;
    c.OP_Fx18();
    assert_eq!(c.sound_timer, 42);
    c.opcode = 0xF307;
    c.OP_Fx07();
    assert_eq!(c.registers[3], 42);
}

#[test]
fn key_skips_read_the_key_named_by_register() {
    let mut c = Chip8::new();
    c.registers[0] = 7;
    c.keypad[7] = true;
    c.opcode = 0xE09E;
    c.OP_Ex9E();
    assert_eq!(c.pc, 0x202);
    c.opcode = 0xE0A1;
    c.OP_ExA1();
    assert_eq!(c.pc, 0x202);
    c.keypad[7] = false;
    c.OP_ExA1();
    assert_eq!(c.pc, 0x204);
}

#[test]
fn wait_key_opcode_picks_lowest_pressed() {
    let mut c = Chip8::new();
    c.keypad[7] = true;
    c.keypad[2] = true;
    c.opcode = 0xF50A;
    c.OP_Fx0A();
    assert_eq!(c.registers[5], 2);
}

#[test]
fn clear_screen_turns_every_pixel_off() {
    let mut c = Chip8::new();
    c.video[0] = true;
    c.video[2047] = true;
    c.OP_00E0();
    for cell in 0..64 * 32 {
        assert!(!c.video[cell]);
    }
}

#[test]
fn draw_twice_collides_on_the_second_draw_only() {
    let mut c = Chip8::new();
    c.index = 0x300;
    c.memory[0x300] = 0xFF;
    c.registers[0] = 0;
    c.registers[1] = 0;
    c.opcode = 0xD011; // one row at (0, 0)
    c.OP_Dxyn();
    for col in 0..8 {
        assert!(c.video[col]);
    }
    assert_eq!(c.registers[0xF], 0);

    c.OP_Dxyn();
    for col in 0..8 {
        assert!(!c.video[col]);
    }
    assert_eq!(c.registers[0xF], 1);
}

#[test]
fn draw_is_toroidal_at_both_edges() {
    let mut c = Chip8::new();
    c.index = 0x300;
    c.memory[0x300] = 0xFF;
    c.memory[0x301] = 0xFF;
    c.registers[0] = 62; // two pixels from the right edge
    c.registers[1] = 31; // on the bottom row
    c.opcode = 0xD012; // two rows
    c.OP_Dxyn();
    // bottom row: columns 62, 63 then wrapping to 0..6
    assert!(c.video[31 * 64 + 62]);
    assert!(c.video[31 * 64 + 63]);
    assert!(c.video[31 * 64 + 0]);
    assert!(c.video[31 * 64 + 5]);
    assert!(!c.video[31 * 64 + 6]);
    // second row wraps to the top row
    assert!(c.video[0 * 64 + 62]);
    assert!(c.video[0 * 64 + 1]);
    assert_eq!(c.registers[0xF], 0);
}

#[test]
fn draw_only_toggles_where_sprite_bits_are_set() {
    let mut c = Chip8::new();
    c.index = 0x300;
    c.memory[0x300] = 0b1010_0000;
    c.registers[0] = 8;
    c.registers[1] = 2;
    c.opcode = 0xD011;
    c.OP_Dxyn();
    assert!(c.video[2 * 64 + 8]);
    assert!(!c.video[2 * 64 + 9]);
    assert!(c.video[2 * 64 + 10]);
    assert!(!c.video[2 * 64 + 11]);
    assert_eq!(c.registers[0xF], 0);
}

#[test]
fn partial_overlap_collides_and_xors() {
    let mut c = Chip8::new();
    c.index = 0x300;
    c.memory[0x300] = 0b1111_0000;
    c.registers[0] = 0;
    c.registers[1] = 0;
    c.opcode = 0xD011;
    c.OP_Dxyn();
    // shift right by two and draw again: columns 2..=3 overlap
    c.registers[0] = 2;
    c.OP_Dxyn();
    assert!(c.video[0]);
    assert!(c.video[1]);
    assert!(!c.video[2]); // toggled off
    assert!(!c.video[3]);
    assert!(c.video[4]); // toggled on by the second draw
    assert!(c.video[5]);
    assert_eq!(c.registers[0xF], 1);
}
