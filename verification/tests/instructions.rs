use chip8::chip::Chip8;
use chip8::instruction::OpCode;

fn run(chip: &mut Chip8, op: OpCode) {
    chip.execute_opcode(Some(op));
}

#[test]
fn add_with_carry_sets_the_flag() {
    let mut chip = Chip8::new();
    chip.v[1] = 0xFF;
    chip.v[2] = 0x01;
    run(&mut chip, OpCode::ADD2(1, 2));
    assert_eq!(chip.v[1], 0x00);
    assert_eq!(chip.v[0xF], 1);
    assert_eq!(chip.v[2], 0x01);
    assert_eq!(chip.pc, 0x202);
}

#[test]
fn add_without_carry_clears_the_flag() {
    let mut chip = Chip8::new();
    chip.v[1] = 0x10;
    chip.v[2] = 0x20;
    chip.v[0xF] = 1;
    run(&mut chip, OpCode::ADD2(1, 2));
    assert_eq!(chip.v[1], 0x30);
    assert_eq!(chip.v[0xF], 0);
    chip.v[3] = 0xFF;
    chip.v[4] = 0x00;
    run(&mut chip, OpCode::ADD2(3, 4));
    assert_eq!(chip.v[3], 0xFF);
    assert_eq!(chip.v[0xF], 0);
}

#[test]
fn add_into_the_flag_register_keeps_the_sum() {
    let mut chip = Chip8::new();
    chip.v[0xF] = 0xF0;
    chip.v[1] = 0x20;
    run(&mut chip, OpCode::ADD2(0xF, 1));
    assert_eq!(chip.v[0xF], 0x10);
}

#[test]
fn subtract_with_borrow_wraps_and_clears_the_flag() {
    let mut chip = Chip8::new();
    chip.v[1] = 0x05;
    chip.v[2] = 0x09;
    chip.v[0xF] = 1;
    run(&mut chip, OpCode::SUB(1, 2));
    assert_eq!(chip.v[1], 0xFC);
    assert_eq!(chip.v[0xF], 0);
    assert_eq!(chip.pc, 0x202);
}

#[test]
fn subtract_without_borrow_sets_the_flag() {
    let mut chip = Chip8::new();
    chip.v[1] = 0x09;
    chip.v[2] = 0x05;
    run(&mut chip, OpCode::SUB(1, 2));
    assert_eq!(chip.v[1], 0x04);
    assert_eq!(chip.v[0xF], 1);
}

#[test]
fn subtract_equal_values_gives_zero_and_no_flag() {
    let mut chip = Chip8::new();
    chip.v[1] = 0x42;
    chip.v[2] = 0x42;
    chip.v[0xF] = 1;
    run(&mut chip, OpCode::SUB(1, 2));
    assert_eq!(chip.v[1], 0);
    assert_eq!(chip.v[0xF], 0);
}

#[test]
fn reverse_subtract_computes_vy_minus_vx() {
    let mut chip = Chip8::new();
    chip.v[1] = 0x05;
    chip.v[2] = 0x09;
    run(&mut chip, OpCode::SUBN(1, 2));
    assert_eq!(chip.v[1], 0x04);
    assert_eq!(chip.v[2], 0x09);
    assert_eq!(chip.v[0xF], 1);
    assert_eq!(chip.pc, 0x202);
}

#[test]
fn reverse_subtract_wraps_on_borrow() {
    let mut chip = Chip8::new();
    chip.v[1] = 0x09;
    chip.v[2] = 0x05;
    chip.v[0xF] = 1;
    run(&mut chip, OpCode::SUBN(1, 2));
    assert_eq!(chip.v[1], 0xFC);
    assert_eq!(chip.v[0xF], 0);
    chip.v[3] = 0x01;
    chip.v[4] = 0x00;
    run(&mut chip, OpCode::SUBN(3, 4));
    assert_eq!(chip.v[3], 0xFF);
    assert_eq!(chip.v[0xF], 0);
}

#[test]
fn reverse_subtract_at_the_zero_boundary() {
    let mut chip = Chip8::new();
    chip.v[1] = 0x07;
    chip.v[2] = 0x07;
    chip.v[0xF] = 1;
    run(&mut chip, OpCode::SUBN(1, 2));
    assert_eq!(chip.v[1], 0x00);
    assert_eq!(chip.v[0xF], 0);
    chip.v[3] = 0x00;
    chip.v[4] = 0x00;
    run(&mut chip, OpCode::SUBN(3, 4));
    assert_eq!(chip.v[3], 0x00);
    assert_eq!(chip.v[0xF], 0);
    chip.v[5] = 0x06;
    chip.v[6] = 0x07;
    run(&mut chip, OpCode::SUBN(5, 6));
    assert_eq!(chip.v[5], 0x01);
    assert_eq!(chip.v[0xF], 1);
}

#[test]
fn add_immediate_wraps_and_leaves_the_flag() {
    let mut chip = Chip8::new();
    chip.v[3] = 0xFF;
    chip.v[0xF] = 0x77;
    run(&mut chip, OpCode::ADD(3, 0x02));
    assert_eq!(chip.v[3], 0x01);
    assert_eq!(chip.v[0xF], 0x77);
    run(&mut chip, OpCode::ADD(3, 0x10));
    assert_eq!(chip.v[3], 0x11);
    assert_eq!(chip.pc, 0x204);
}

#[test]
fn load_immediate_and_register_copy() {
    let mut chip = Chip8::new();
    run(&mut chip, OpCode::LD(0xA, 0x07));
    assert_eq!(chip.v[0xA], 0x07);
    run(&mut chip, OpCode::LD2(0xB, 0xA));
    assert_eq!(chip.v[0xB], 0x07);
    assert_eq!(chip.v[0xA], 0x07);
    assert_eq!(chip.pc, 0x204);
}

#[test]
fn bitwise_operations_leave_the_flag() {
    let mut chip = Chip8::new();
    chip.v[0xF] = 0x5A;
    chip.v[1] = 0b1100_1010;
    chip.v[2] = 0b1010_0110;
    run(&mut chip, OpCode::OR(1, 2));
    assert_eq!(chip.v[1], 0b1110_1110);
    chip.v[1] = 0b1100_1010;
    run(&mut chip, OpCode::AND(1, 2));
    assert_eq!(chip.v[1], 0b1000_0010);
    chip.v[1] = 0b1100_1010;
    run(&mut chip, OpCode::XOR(1, 2));
    assert_eq!(chip.v[1], 0b0110_1100);
    assert_eq!(chip.v[2], 0b1010_0110);
    assert_eq!(chip.v[0xF], 0x5A);
    assert_eq!(chip.pc, 0x206);
}

#[test]
fn shift_right_moves_the_low_bit_into_the_flag() {
    let mut chip = Chip8::new();
    chip.v[1] = 0b0000_0101;
    run(&mut chip, OpCode::SHR(1, 2));
    assert_eq!(chip.v[1], 0b0000_0010);
    assert_eq!(chip.v[0xF], 1);
    run(&mut chip, OpCode::SHR(1, 2));
    assert_eq!(chip.v[1], 0b0000_0001);
    assert_eq!(chip.v[0xF], 0);
    chip.v[3] = 0xFF;
    run(&mut chip, OpCode::SHR(3, 0));
    assert_eq!(chip.v[3], 0x7F);
    assert_eq!(chip.v[0xF], 1);
}

#[test]
fn shift_left_moves_the_high_bit_into_the_flag() {
    let mut chip = Chip8::new();
    chip.v[1] = 0x81;
    run(&mut chip, OpCode::SHL(1, 2));
    assert_eq!(chip.v[1], 0x02);
    assert_eq!(chip.v[0xF], 1);
    run(&mut chip, OpCode::SHL(1, 2));
    assert_eq!(chip.v[1], 0x04);
    assert_eq!(chip.v[0xF], 0);
    chip.v[3] = 0x7F;
    run(&mut chip, OpCode::SHL(3, 0));
    assert_eq!(chip.v[3], 0xFE);
    assert_eq!(chip.v[0xF], 0);
}

#[test]
fn shifts_of_the_flag_register_shift_the_flag() {
    let mut chip = Chip8::new();
    chip.v[0xF] = 0x03;
    run(&mut chip, OpCode::SHR(0xF, 0));
    assert_eq!(chip.v[0xF], 0);
    chip.v[0xF] = 0x80;
    run(&mut chip, OpCode::SHL(0xF, 0));
    assert_eq!(chip.v[0xF], 2);
}

#[test]
fn jump_sets_the_program_counter() {
    let mut chip = Chip8::new();
    run(&mut chip, OpCode::JP(0xABC));
    assert_eq!(chip.pc, 0xABC);
    assert_eq!(chip.sp, 0);
}

#[test]
fn jump_with_offset_adds_register_zero() {
    let mut chip = Chip8::new();
    chip.v[0] = 0x10;
    run(&mut chip, OpCode::JP2(0x300));
    assert_eq!(chip.pc, 0x310);
    chip.v[0] = 0xFF;
    run(&mut chip, OpCode::JP2(0xFFF));
    assert_eq!(chip.pc, 0x10FE);
}

#[test]
fn call_and_return() {
    let mut chip = Chip8::new();
    chip.pc = 0x234;
    run(&mut chip, OpCode::CALL(0x400));
    assert_eq!(chip.pc, 0x400);
    assert_eq!(chip.sp, 1);
    assert_eq!(chip.stack[0], 0x234);
    run(&mut chip, OpCode::CALL(0x500));
    assert_eq!(chip.pc, 0x500);
    assert_eq!(chip.sp, 2);
    assert_eq!(chip.stack[1], 0x400);
    run(&mut chip, OpCode::RET);
    assert_eq!(chip.pc, 0x402);
    assert_eq!(chip.sp, 1);
    run(&mut chip, OpCode::RET);
    assert_eq!(chip.pc, 0x236);
    assert_eq!(chip.sp, 0);
}

#[test]
fn sixteen_nested_calls_return_in_order() {
    let mut chip = Chip8::new();
    for depth in 0..16u16 {
        chip.pc = 0x200 + 2 * depth;
        run(&mut chip, OpCode::CALL(0x300 + depth));
    }
    assert_eq!(chip.sp, 0);
    for depth in (0..16u16).rev() {
        run(&mut chip, OpCode::RET);
        assert_eq!(chip.pc, 0x200 + 2 * depth + 2);
        assert_eq!(chip.sp, depth as u8);
    }
}

#[test]
fn stack_is_a_ring_of_sixteen_slots() {
    let mut chip = Chip8::new();
    for depth in 0..17u16 {
        chip.pc = 0x200 + 2 * depth;
        run(&mut chip, OpCode::CALL(0x300));
    }
    assert_eq!(chip.sp, 1);
    assert_eq!(chip.stack[0], 0x220);
    assert_eq!(chip.stack[1], 0x202);
    assert_eq!(chip.stack[15], 0x21E);
}

#[test]
fn return_on_an_empty_stack_steps_back_around_the_ring() {
    let mut chip = Chip8::new();
    chip.stack[15] = 0x345;
    run(&mut chip, OpCode::RET);
    assert_eq!(chip.sp, 15);
    assert_eq!(chip.pc, 0x347);
}

#[test]
fn skip_if_equal_immediate() {
    let mut chip = Chip8::new();
    chip.v[4] = 0x33;
    run(&mut chip, OpCode::SE(4, 0x33));
    assert_eq!(chip.pc, 0x204);
    run(&mut chip, OpCode::SE(4, 0x34));
    assert_eq!(chip.pc, 0x206);
}

#[test]
fn skip_if_not_equal_immediate() {
    let mut chip = Chip8::new();
    chip.v[4] = 0x33;
    run(&mut chip, OpCode::SNE(4, 0x34));
    assert_eq!(chip.pc, 0x204);
    run(&mut chip, OpCode::SNE(4, 0x33));
    assert_eq!(chip.pc, 0x206);
}

#[test]
fn skip_on_register_comparison() {
    let mut chip = Chip8::new();
    chip.v[1] = 7;
    chip.v[2] = 7;
    chip.v[3] = 8;
    run(&mut chip, OpCode::SE2(1, 2));
    assert_eq!(chip.pc, 0x204);
    run(&mut chip, OpCode::SE2(1, 3));
    assert_eq!(chip.pc, 0x206);
    run(&mut chip, OpCode::SNE2(1, 3));
    assert_eq!(chip.pc, 0x20A);
    run(&mut chip, OpCode::SNE2(1, 2));
    assert_eq!(chip.pc, 0x20C);
}

#[test]
fn skip_on_key_state() {
    let mut chip = Chip8::new();
    chip.v[1] = 0xB;
    run(&mut chip, OpCode::SKP(1));
    assert_eq!(chip.pc, 0x202);
    run(&mut chip, OpCode::SKNP(1));
    assert_eq!(chip.pc, 0x206);
    chip.press_key(0xB);
    run(&mut chip, OpCode::SKP(1));
    assert_eq!(chip.pc, 0x20A);
    run(&mut chip, OpCode::SKNP(1));
    assert_eq!(chip.pc, 0x20C);
}

#[test]
fn a_value_that_names_no_key_is_never_down() {
    let mut chip = Chip8::new();
    for key in 0..16u8 {
        chip.press_key(key);
    }
    chip.v[1] = 0x10;
    run(&mut chip, OpCode::SKP(1));
    assert_eq!(chip.pc, 0x202);
    chip.v[1] = 0xFF;
    run(&mut chip, OpCode::SKNP(1));
    assert_eq!(chip.pc, 0x206);
}

#[test]
fn program_counter_wraps_around() {
    let mut chip = Chip8::new();
    chip.pc = 0xFFFE;
    run(&mut chip, OpCode::SYS(0));
    assert_eq!(chip.pc, 0x0000);
    chip.pc = 0xFFFE;
    chip.v[1] = 1;
    run(&mut chip, OpCode::SE(1, 1));
    assert_eq!(chip.pc, 0x0002);
}

#[test]
fn index_register_instructions() {
    let mut chip = Chip8::new();
    run(&mut chip, OpCode::LD3(0x123));
    assert_eq!(chip.index, 0x123);
    chip.v[2] = 0x10;
    run(&mut chip, OpCode::ADD3(2));
    assert_eq!(chip.index, 0x133);
    assert_eq!(chip.v[0xF], 0);
    assert_eq!(chip.pc, 0x204);
}

#[test]
fn index_register_wraps_without_flag() {
    let mut chip = Chip8::new();
    chip.index = 0xFFFF;
    chip.v[2] = 2;
    run(&mut chip, OpCode::ADD3(2));
    assert_eq!(chip.index, 0x0001);
    assert_eq!(chip.v[0xF], 0);
}

#[test]
fn glyph_address_is_five_times_the_digit() {
    let mut chip = Chip8::new();
    chip.v[1] = 0xA;
    run(&mut chip, OpCode::LD8(1));
    assert_eq!(chip.index, 50);
    assert_eq!(chip.memory[chip.index as usize], 0xF0);
    assert_eq!(chip.memory[chip.index as usize + 4], 0x90);
    chip.v[1] = 0xFF;
    run(&mut chip, OpCode::LD8(1));
    assert_eq!(chip.index, 1275);
    chip.v[1] = 0;
    run(&mut chip, OpCode::LD8(1));
    assert_eq!(chip.index, 0);
}

#[test]
fn decimal_digits_are_stored_at_the_index() {
    let mut chip = Chip8::new();
    chip.index = 0x300;
    chip.v[1] = 254;
    run(&mut chip, OpCode::LD9(1));
    assert_eq!(&chip.memory[0x300..0x303], &[2, 5, 4]);
    chip.v[1] = 7;
    run(&mut chip, OpCode::LD9(1));
    assert_eq!(&chip.memory[0x300..0x303], &[0, 0, 7]);
    chip.v[1] = 100;
    run(&mut chip, OpCode::LD9(1));
    assert_eq!(&chip.memory[0x300..0x303], &[1, 0, 0]);
    assert_eq!(chip.index, 0x300);
    assert_eq!(chip.pc, 0x206);
}

#[test]
fn decimal_digits_beyond_memory_are_dropped() {
    let mut chip = Chip8::new();
    chip.index = 4094;
    chip.v[1] = 123;
    run(&mut chip, OpCode::LD9(1));
    assert_eq!(chip.memory[4094], 1);
    assert_eq!(chip.memory[4095], 2);
    assert_eq!(chip.memory[0], 0xF0);
    assert_eq!(chip.pc, 0x202);
}

#[test]
fn timer_registers() {
    let mut chip = Chip8::new();
    chip.v[1] = 0x20;
    run(&mut chip, OpCode::LD6(1));
    assert_eq!(chip.delay_timer, 0x20);
    assert_eq!(chip.sound_timer, 0);
    chip.v[2] = 0x30;
    run(&mut chip, OpCode::LD7(2));
    assert_eq!(chip.sound_timer, 0x30);
    run(&mut chip, OpCode::LD4(3));
    assert_eq!(chip.v[3], 0x20);
    assert_eq!(chip.pc, 0x206);
}

#[test]
fn clear_display_turns_every_pixel_off() {
    let mut chip = Chip8::new();
    chip.display[0][0] = true;
    chip.display[63][31] = true;
    chip.display[10][20] = true;
    run(&mut chip, OpCode::CLS);
    assert!(chip.display.iter().all(|col| col.iter().all(|p| !*p)));
    assert_eq!(chip.pc, 0x202);
}

#[test]
fn store_then_load_recovers_all_registers() {
    let mut chip = Chip8::new();
    for i in 0..16u8 {
        chip.v[i as usize] = 0xA0 + i;
    }
    chip.index = 0x400;
    run(&mut chip, OpCode::LD10(0xF));
    for i in 0..16usize {
        assert_eq!(chip.memory[0x400 + i], 0xA0 + i as u8);
    }
    assert_eq!(chip.index, 0x400);
    chip.v = [0; 16];
    run(&mut chip, OpCode::LD11(0xF));
    for i in 0..16u8 {
        assert_eq!(chip.v[i as usize], 0xA0 + i);
    }
    assert_eq!(chip.index, 0x400);
    assert_eq!(chip.pc, 0x204);
}

#[test]
fn store_and_load_stop_at_the_named_register() {
    let mut chip = Chip8::new();
    for i in 0..16u8 {
        chip.v[i as usize] = i + 1;
    }
    chip.index = 0x400;
    run(&mut chip, OpCode::LD10(2));
    assert_eq!(&chip.memory[0x400..0x404], &[1, 2, 3, 0]);
    chip.v = [0x99; 16];
    run(&mut chip, OpCode::LD11(1));
    assert_eq!(&chip.v[..4], &[1, 2, 0x99, 0x99]);
    run(&mut chip, OpCode::LD10(0));
    assert_eq!(&chip.memory[0x400..0x404], &[1, 2, 3, 0]);
}

#[test]
fn store_beyond_memory_is_dropped_and_load_reads_zero() {
    let mut chip = Chip8::new();
    for i in 0..16u8 {
        chip.v[i as usize] = 0x10 + i;
    }
    chip.index = 4094;
    run(&mut chip, OpCode::LD10(3));
    assert_eq!(chip.memory[4094], 0x10);
    assert_eq!(chip.memory[4095], 0x11);
    assert_eq!(chip.memory[0], 0xF0);
    assert_eq!(chip.memory[1], 0x90);
    chip.v = [0x77; 16];
    run(&mut chip, OpCode::LD11(3));
    assert_eq!(&chip.v[..5], &[0x10, 0x11, 0, 0, 0x77]);
    chip.index = 0xFFFF;
    run(&mut chip, OpCode::LD10(3));
    run(&mut chip, OpCode::LD11(1));
    assert_eq!(&chip.v[..3], &[0, 0, 0]);
    assert_eq!(chip.memory[0], 0xF0);
    assert_eq!(chip.memory[4095], 0x11);
}

#[test]
fn random_is_masked_by_the_immediate() {
    let mut chip = Chip8::new();
    for _ in 0..200 {
        chip.v[1] = 0xFF;
        run(&mut chip, OpCode::RND(1, 0x0F));
        assert_eq!(chip.v[1] & 0xF0, 0);
        chip.v[2] = 0xFF;
        run(&mut chip, OpCode::RND(2, 0x00));
        assert_eq!(chip.v[2], 0);
    }
    assert_eq!(chip.pc, 0x200 + 2 * 400);
}

#[test]
fn random_bytes_vary() {
    let mut chip = Chip8::new();
    let mut seen = [false; 256];
    for _ in 0..256 {
        run(&mut chip, OpCode::RND(1, 0xFF));
        seen[chip.v[1] as usize] = true;
    }
    assert!(seen.iter().filter(|s| **s).count() > 1);
}

#[test]
fn execute_with_uses_the_given_random_byte() {
    let mut chip = Chip8::new();
    chip.execute_with(Some(OpCode::RND(1, 0x3C)), 0xA5);
    assert_eq!(chip.v[1], 0x24);
    chip.execute_with(Some(OpCode::RND(2, 0xFF)), 0xA5);
    assert_eq!(chip.v[2], 0xA5);
    chip.execute_with(Some(OpCode::LD(3, 0x11)), 0xA5);
    assert_eq!(chip.v[3], 0x11);
    assert_eq!(chip.pc, 0x206);
}
