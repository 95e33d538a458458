use chip8::chip::Chip8;
use chip8::instruction::{decode_opcode, fetch_opcode, OpCode};

/// The word of an instruction, written out independently of the decoder.
fn word_of(op: OpCode) -> u16 {
    let reg = |x: u8| (x as u16) << 8;
    let reg2 = |x: u8, y: u8| ((x as u16) << 8) | ((y as u16) << 4);
    match op {
        OpCode::CLS => 0x00E0,
        OpCode::RET => 0x00EE,
        OpCode::SYS(a) => a,
        OpCode::JP(a) => 0x1000 | a,
        OpCode::CALL(a) => 0x2000 | a,
        OpCode::SE(x, kk) => 0x3000 | reg(x) | kk as u16,
        OpCode::SNE(x, kk) => 0x4000 | reg(x) | kk as u16,
        OpCode::SE2(x, y) => 0x5000 | reg2(x, y),
        OpCode::LD(x, kk) => 0x6000 | reg(x) | kk as u16,
        OpCode::ADD(x, kk) => 0x7000 | reg(x) | kk as u16,
        OpCode::LD2(x, y) => 0x8000 | reg2(x, y),
        OpCode::OR(x, y) => 0x8001 | reg2(x, y),
        OpCode::AND(x, y) => 0x8002 | reg2(x, y),
        OpCode::XOR(x, y) => 0x8003 | reg2(x, y),
        OpCode::ADD2(x, y) => 0x8004 | reg2(x, y),
        OpCode::SUB(x, y) => 0x8005 | reg2(x, y),
        OpCode::SHR(x, y) => 0x8006 | reg2(x, y),
        OpCode::SUBN(x, y) => 0x8007 | reg2(x, y),
        OpCode::SHL(x, y) => 0x800E | reg2(x, y),
        OpCode::SNE2(x, y) => 0x9000 | reg2(x, y),
        OpCode::LD3(a) => 0xA000 | a,
        OpCode::JP2(a) => 0xB000 | a,
        OpCode::RND(x, kk) => 0xC000 | reg(x) | kk as u16,
        OpCode::DRW(x, y, n) => 0xD000 | reg2(x, y) | n as u16,
        OpCode::SKP(x) => 0xE09E | reg(x),
        OpCode::SKNP(x) => 0xE0A1 | reg(x),
        OpCode::LD4(x) => 0xF007 | reg(x),
        OpCode::LD5(x) => 0xF00A | reg(x),
        OpCode::LD6(x) => 0xF015 | reg(x),
        OpCode::LD7(x) => 0xF018 | reg(x),
        OpCode::ADD3(x) => 0xF01E | reg(x),
        OpCode::LD8(x) => 0xF029 | reg(x),
        OpCode::LD9(x) => 0xF033 | reg(x),
        OpCode::LD10(x) => 0xF055 | reg(x),
        OpCode::LD11(x) => 0xF065 | reg(x),
    }
}

#[test]
fn decode_boundary_words() {
    assert_eq!(decode_opcode(0x00E0), Some(OpCode::CLS));
    assert_eq!(decode_opcode(0x00EE), Some(OpCode::RET));
    assert_eq!(decode_opcode(0x1ABC), Some(OpCode::JP(0xABC)));
    assert_eq!(decode_opcode(0x6A07), Some(OpCode::LD(0xA, 0x07)));
}

#[test]
fn decode_system_calls_keep_the_word() {
    assert_eq!(decode_opcode(0x0000), Some(OpCode::SYS(0x000)));
    assert_eq!(decode_opcode(0x0123), Some(OpCode::SYS(0x123)));
    assert_eq!(decode_opcode(0x00E1), Some(OpCode::SYS(0x0E1)));
    assert_eq!(decode_opcode(0x0FFF), Some(OpCode::SYS(0xFFF)));
}

#[test]
fn decode_address_families() {
    assert_eq!(decode_opcode(0x1000), Some(OpCode::JP(0x000)));
    assert_eq!(decode_opcode(0x1FFF), Some(OpCode::JP(0xFFF)));
    assert_eq!(decode_opcode(0x2345), Some(OpCode::CALL(0x345)));
    assert_eq!(decode_opcode(0xA123), Some(OpCode::LD3(0x123)));
    assert_eq!(decode_opcode(0xBFFE), Some(OpCode::JP2(0xFFE)));
}

#[test]
fn decode_register_and_byte_families() {
    assert_eq!(decode_opcode(0x3A12), Some(OpCode::SE(0xA, 0x12)));
    assert_eq!(decode_opcode(0x4BFF), Some(OpCode::SNE(0xB, 0xFF)));
    assert_eq!(decode_opcode(0x6000), Some(OpCode::LD(0, 0)));
    assert_eq!(decode_opcode(0x6FFF), Some(OpCode::LD(0xF, 0xFF)));
    assert_eq!(decode_opcode(0x7C01), Some(OpCode::ADD(0xC, 0x01)));
    assert_eq!(decode_opcode(0xC30F), Some(OpCode::RND(3, 0x0F)));
}

#[test]
fn decode_register_pair_families() {
    assert_eq!(decode_opcode(0x5120), Some(OpCode::SE2(1, 2)));
    assert_eq!(decode_opcode(0x9EF0), Some(OpCode::SNE2(0xE, 0xF)));
    assert_eq!(decode_opcode(0x8120), Some(OpCode::LD2(1, 2)));
    assert_eq!(decode_opcode(0x8121), Some(OpCode::OR(1, 2)));
    assert_eq!(decode_opcode(0x8122), Some(OpCode::AND(1, 2)));
    assert_eq!(decode_opcode(0x8123), Some(OpCode::XOR(1, 2)));
    assert_eq!(decode_opcode(0x8124), Some(OpCode::ADD2(1, 2)));
    assert_eq!(decode_opcode(0x8125), Some(OpCode::SUB(1, 2)));
    assert_eq!(decode_opcode(0x8126), Some(OpCode::SHR(1, 2)));
    assert_eq!(decode_opcode(0x8127), Some(OpCode::SUBN(1, 2)));
    assert_eq!(decode_opcode(0x812E), Some(OpCode::SHL(1, 2)));
    assert_eq!(decode_opcode(0xD125), Some(OpCode::DRW(1, 2, 5)));
    assert_eq!(decode_opcode(0xDFF0), Some(OpCode::DRW(0xF, 0xF, 0)));
}

#[test]
fn decode_ignores_the_low_nibble_of_register_comparisons() {
    assert_eq!(decode_opcode(0x5127), Some(OpCode::SE2(1, 2)));
    assert_eq!(decode_opcode(0x912F), Some(OpCode::SNE2(1, 2)));
}

#[test]
fn decode_key_and_timer_families() {
    assert_eq!(decode_opcode(0xE59E), Some(OpCode::SKP(5)));
    assert_eq!(decode_opcode(0xE5A1), Some(OpCode::SKNP(5)));
    assert_eq!(decode_opcode(0xF507), Some(OpCode::LD4(5)));
    assert_eq!(decode_opcode(0xF30A), Some(OpCode::LD5(3)));
    assert_eq!(decode_opcode(0xF515), Some(OpCode::LD6(5)));
    assert_eq!(decode_opcode(0xF518), Some(OpCode::LD7(5)));
    assert_eq!(decode_opcode(0xF51E), Some(OpCode::ADD3(5)));
    assert_eq!(decode_opcode(0xF529), Some(OpCode::LD8(5)));
    assert_eq!(decode_opcode(0xF533), Some(OpCode::LD9(5)));
    assert_eq!(decode_opcode(0xFF55), Some(OpCode::LD10(0xF)));
    assert_eq!(decode_opcode(0xFF65), Some(OpCode::LD11(0xF)));
}

#[test]
fn decode_unknown_selectors_give_none() {
    assert_eq!(decode_opcode(0x8008), None);
    assert_eq!(decode_opcode(0x812F), None);
    assert_eq!(decode_opcode(0x8129), None);
    assert_eq!(decode_opcode(0xE000), None);
    assert_eq!(decode_opcode(0xE19F), None);
    assert_eq!(decode_opcode(0xE1A0), None);
    assert_eq!(decode_opcode(0xF000), None);
    assert_eq!(decode_opcode(0xF0FF), None);
    assert_eq!(decode_opcode(0xF108), None);
}

#[test]
fn decode_is_total_and_extracts_every_field() {
    let mut recognized: u32 = 0;
    for code in 0..=0xFFFFu16 {
        match decode_opcode(code) {
            Some(op) => {
                recognized += 1;
                let family = code >> 12;
                let expected = if family == 5 || family == 9 {
                    code & 0xFFF0
                } else {
                    code
                };
                assert_eq!(word_of(op), expected, "word {:#06x}", code);
            }
            None => {
                let family = code >> 12;
                assert!(family == 8 || family == 0xE || family == 0xF, "word {:#06x}", code);
            }
        }
    }
    // Families 0-7, 9-D are recognized whole; family 8 has nine selectors of
    // sixteen; family E two of 256; family F nine of 256.
    let expected = 13 * 4096 + 9 * 256 + 2 * 16 + 9 * 16;
    assert_eq!(recognized, expected);
}

#[test]
fn decode_is_a_function_of_the_word_alone() {
    for code in [0x0000u16, 0x00E0, 0x1ABC, 0x8AB4, 0xD015, 0xF065, 0xFFFF] {
        assert_eq!(decode_opcode(code), decode_opcode(code));
    }
}

#[test]
fn fetch_reads_the_high_byte_first() {
    let mut chip = Chip8::new();
    chip.load_game(&[0x6A, 0x07, 0x12, 0x34]);
    assert_eq!(fetch_opcode(&chip), 0x6A07);
    chip.pc = 0x202;
    assert_eq!(fetch_opcode(&chip), 0x1234);
    chip.pc = 0x201;
    assert_eq!(fetch_opcode(&chip), 0x0712);
}

#[test]
fn fetch_reads_the_font_at_address_zero() {
    let mut chip = Chip8::new();
    chip.pc = 0;
    assert_eq!(fetch_opcode(&chip), 0xF090);
}

#[test]
fn fetch_beyond_memory_reads_zero() {
    let mut chip = Chip8::new();
    chip.memory[4094] = 0xAB;
    chip.memory[4095] = 0xCD;
    chip.pc = 4094;
    assert_eq!(fetch_opcode(&chip), 0xABCD);
    chip.pc = 4095;
    assert_eq!(fetch_opcode(&chip), 0xCD00);
    chip.pc = 4096;
    assert_eq!(fetch_opcode(&chip), 0x0000);
    chip.pc = 0xFFFF;
    assert_eq!(fetch_opcode(&chip), 0x0000);
}
