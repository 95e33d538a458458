//! Instruction words and their decoding.

use vstd::prelude::*;
use crate::chip::Chip8;
use vstd::std_specs::bits::u16_trailing_zeros;
use vstd::std_specs::bits::axiom_u16_trailing_zeros;

verus! {

/// A memory address operand.
pub type Addr = u16;

/// A register index operand.
pub type Reg = u8;

/// One decoded instruction with its operand fields.
#[derive(Debug, Clone, Copy, PartialEq, Eq, Structural)]
pub enum OpCode {
    /// `00E0`: clear the display.
    CLS,
    /// `00EE`: return from a subroutine.
    RET,
    /// `0nnn`: machine-code call, ignored.
    SYS(Addr),
    /// `1nnn`: jump to `nnn`.
    JP(Addr),
    /// `2nnn`: call the subroutine at `nnn`.
    CALL(Addr),
    /// `3xkk`: skip the next instruction if `Vx == kk`.
    SE(Reg, u8),
    /// `4xkk`: skip the next instruction if `Vx != kk`.
    SNE(Reg, u8),
    /// `5xy_`: skip the next instruction if `Vx == Vy`.
    SE2(Reg, Reg),
    /// `6xkk`: `Vx = kk`.
    LD(Reg, u8),
    /// `7xkk`: `Vx = Vx + kk`, no flag.
    ADD(Reg, u8),
    /// `8xy0`: `Vx = Vy`.
    LD2(Reg, Reg),
    /// `8xy1`: `Vx = Vx | Vy`.
    OR(Reg, Reg),
    /// `8xy2`: `Vx = Vx & Vy`.
    AND(Reg, Reg),
    /// `8xy3`: `Vx = Vx ^ Vy`.
    XOR(Reg, Reg),
    /// `8xy4`: `Vx = Vx + Vy`, `VF` = carry.
    ADD2(Reg, Reg),
    /// `8xy5`: `Vx = Vx - Vy`, `VF` = no borrow.
    SUB(Reg, Reg),
    /// `8xy6`: `Vx = Vx >> 1`, `VF` = the bit shifted out.
    SHR(Reg, Reg),
    /// `8xy7`: `Vx = Vy - Vx`, `VF` = no borrow.
    SUBN(Reg, Reg),
    /// `8xyE`: `Vx = Vx << 1`, `VF` = the bit shifted out.
    SHL(Reg, Reg),
    /// `9xy_`: skip the next instruction if `Vx != Vy`.
    SNE2(Reg, Reg),
    /// `Annn`: `I = nnn`.
    LD3(Addr),
    /// `Bnnn`: jump to `nnn + V0`.
    JP2(Addr),
    /// `Cxkk`: `Vx` = random byte `& kk`.
    RND(Reg, u8),
    /// `Dxyn`: draw the `n`-row sprite at `I` to `(Vx, Vy)`, `VF` = collision.
    DRW(Reg, Reg, u8),
    /// `Ex9E`: skip the next instruction if key `Vx` is down.
    SKP(Reg),
    /// `ExA1`: skip the next instruction if key `Vx` is up.
    SKNP(Reg),
    /// `Fx07`: `Vx` = delay timer.
    LD4(Reg),
    /// `Fx0A`: wait for a key press and store the key in `Vx`.
    LD5(Reg),
    /// `Fx15`: delay timer = `Vx`.
    LD6(Reg),
    /// `Fx18`: sound timer = `Vx`.
    LD7(Reg),
    /// `Fx1E`: `I = I + Vx`.
    ADD3(Reg),
    /// `Fx29`: `I` = address of the glyph for digit `Vx`.
    LD8(Reg),
    /// `Fx33`: store the decimal digits of `Vx` at `I`, `I + 1`, `I + 2`.
    LD9(Reg),
    /// `Fx55`: store `V0..=Vx` at `I..`.
    LD10(Reg),
    /// `Fx65`: load `V0..=Vx` from `I..`.
    LD11(Reg),
}

impl OpCode {
    /// An instruction is well formed when every register that it names
    /// exists: the machine has sixteen.
    pub open spec fn wf(self) -> bool {
        match self {
            OpCode::CLS
            | OpCode::RET
            | OpCode::SYS(_)
            | OpCode::JP(_)
            | OpCode::CALL(_)
            | OpCode::LD3(_)
            | OpCode::JP2(_) => true,
            OpCode::SE(x, _)
            | OpCode::SNE(x, _)
            | OpCode::LD(x, _)
            | OpCode::ADD(x, _)
            | OpCode::RND(x, _)
            | OpCode::SKP(x)
            | OpCode::SKNP(x)
            | OpCode::LD4(x)
            | OpCode::LD5(x)
            | OpCode::LD6(x)
            | OpCode::LD7(x)
            | OpCode::ADD3(x)
            | OpCode::LD8(x)
            | OpCode::LD9(x)
            | OpCode::LD10(x)
            | OpCode::LD11(x) => x < 16,
            OpCode::SE2(x, y)
            | OpCode::LD2(x, y)
            | OpCode::OR(x, y)
            | OpCode::AND(x, y)
            | OpCode::XOR(x, y)
            | OpCode::ADD2(x, y)
            | OpCode::SUB(x, y)
            | OpCode::SHR(x, y)
            | OpCode::SUBN(x, y)
            | OpCode::SHL(x, y)
            | OpCode::SNE2(x, y)
            | OpCode::DRW(x, y, _) => x < 16 && y < 16,
        }
    }
}

impl OpCode {
    /// An instruction is canonical when it is what some word decodes to:
    /// registers below sixteen, addresses of twelve bits, a row count of four
    /// bits, and `SYS` not at the two addresses that mean `CLS` and `RET`.
    pub open spec fn canonical(self) -> bool {
        &&& self.wf()
        &&& match self {
            OpCode::SYS(addr) => addr < 0x1000 && addr != 0x0E0 && addr != 0x0EE,
            OpCode::JP(addr) | OpCode::CALL(addr) | OpCode::LD3(addr) | OpCode::JP2(addr) => addr
                < 0x1000,
            OpCode::DRW(_, _, n) => n < 16,
            _ => true,
        }
    }

    /// The word of an instruction. The unused low nibble of the two
    /// register comparisons is zero.
    pub open spec fn encode(self) -> int {
        match self {
            OpCode::CLS => 0x00E0,
            OpCode::RET => 0x00EE,
            OpCode::SYS(addr) => addr as int,
            OpCode::JP(addr) => 0x1000 + addr,
            OpCode::CALL(addr) => 0x2000 + addr,
            OpCode::SE(x, kk) => 0x3000 + x * 0x100 + kk,
            OpCode::SNE(x, kk) => 0x4000 + x * 0x100 + kk,
            OpCode::SE2(x, y) => 0x5000 + x * 0x100 + y * 0x10,
            OpCode::LD(x, kk) => 0x6000 + x * 0x100 + kk,
            OpCode::ADD(x, kk) => 0x7000 + x * 0x100 + kk,
            OpCode::LD2(x, y) => 0x8000 + x * 0x100 + y * 0x10,
            OpCode::OR(x, y) => 0x8001 + x * 0x100 + y * 0x10,
            OpCode::AND(x, y) => 0x8002 + x * 0x100 + y * 0x10,
            OpCode::XOR(x, y) => 0x8003 + x * 0x100 + y * 0x10,
            OpCode::ADD2(x, y) => 0x8004 + x * 0x100 + y * 0x10,
            OpCode::SUB(x, y) => 0x8005 + x * 0x100 + y * 0x10,
            OpCode::SHR(x, y) => 0x8006 + x * 0x100 + y * 0x10,
            OpCode::SUBN(x, y) => 0x8007 + x * 0x100 + y * 0x10,
            OpCode::SHL(x, y) => 0x800E + x * 0x100 + y * 0x10,
            OpCode::SNE2(x, y) => 0x9000 + x * 0x100 + y * 0x10,
            OpCode::LD3(addr) => 0xA000 + addr,
            OpCode::JP2(addr) => 0xB000 + addr,
            OpCode::RND(x, kk) => 0xC000 + x * 0x100 + kk,
            OpCode::DRW(x, y, n) => 0xD000 + x * 0x100 + y * 0x10 + n,
            OpCode::SKP(x) => 0xE09E + x * 0x100,
            OpCode::SKNP(x) => 0xE0A1 + x * 0x100,
            OpCode::LD4(x) => 0xF007 + x * 0x100,
            OpCode::LD5(x) => 0xF00A + x * 0x100,
            OpCode::LD6(x) => 0xF015 + x * 0x100,
            OpCode::LD7(x) => 0xF018 + x * 0x100,
            OpCode::ADD3(x) => 0xF01E + x * 0x100,
            OpCode::LD8(x) => 0xF029 + x * 0x100,
            OpCode::LD9(x) => 0xF033 + x * 0x100,
            OpCode::LD10(x) => 0xF055 + x * 0x100,
            OpCode::LD11(x) => 0xF065 + x * 0x100,
        }
    }
}

/// Bits 8 to 11 of an instruction word: the first register operand.
pub open spec fn word_x(code: u16) -> u8 {
    ((code / 256) % 16) as u8
}

/// Bits 4 to 7 of an instruction word: the second register operand.
pub open spec fn word_y(code: u16) -> u8 {
    ((code / 16) % 16) as u8
}

/// Bits 0 to 3 of an instruction word: a row count.
pub open spec fn word_n(code: u16) -> u8 {
    (code % 16) as u8
}

/// Bits 0 to 7 of an instruction word: an immediate byte.
pub open spec fn word_kk(code: u16) -> u8 {
    (code % 256) as u8
}

/// Bits 0 to 11 of an instruction word: an address.
pub open spec fn word_nnn(code: u16) -> u16 {
    code % 4096
}

/// The instruction that a word stands for, `None` where it stands for none.
pub open spec fn decode(code: u16) -> Option<OpCode> {
    let x = word_x(code);
    let y = word_y(code);
    let n = word_n(code);
    let kk = word_kk(code);
    let nnn = word_nnn(code);
    let family = code / 4096;
    if family == 0 {
        if code == 0x00E0 {
            Some(OpCode::CLS)
        } else if code == 0x00EE {
            Some(OpCode::RET)
        } else {
            Some(OpCode::SYS(code))
        }
    } else if family == 1 {
        Some(OpCode::JP(nnn))
    } else if family == 2 {
        Some(OpCode::CALL(nnn))
    } else if family == 3 {
        Some(OpCode::SE(x, kk))
    } else if family == 4 {
        Some(OpCode::SNE(x, kk))
    } else if family == 5 {
        Some(OpCode::SE2(x, y))
    } else if family == 6 {
        Some(OpCode::LD(x, kk))
    } else if family == 7 {
        Some(OpCode::ADD(x, kk))
    } else if family == 8 {
        if n == 0 {
            Some(OpCode::LD2(x, y))
        } else if n == 1 {
            Some(OpCode::OR(x, y))
        } else if n == 2 {
            Some(OpCode::AND(x, y))
        } else if n == 3 {
            Some(OpCode::XOR(x, y))
        } else if n == 4 {
            Some(OpCode::ADD2(x, y))
        } else if n == 5 {
            Some(OpCode::SUB(x, y))
        } else if n == 6 {
            Some(OpCode::SHR(x, y))
        } else if n == 7 {
            Some(OpCode::SUBN(x, y))
        } else if n == 0xE {
            Some(OpCode::SHL(x, y))
        } else {
            None
        }
    } else if family == 9 {
        Some(OpCode::SNE2(x, y))
    } else if family == 0xA {
        Some(OpCode::LD3(nnn))
    } else if family == 0xB {
        Some(OpCode::JP2(nnn))
    } else if family == 0xC {
        Some(OpCode::RND(x, kk))
    } else if family == 0xD {
        Some(OpCode::DRW(x, y, n))
    } else if family == 0xE {
        if kk == 0x9E {
            Some(OpCode::SKP(x))
        } else if kk == 0xA1 {
            Some(OpCode::SKNP(x))
        } else {
            None
        }
    } else {
        if kk == 0x07 {
            Some(OpCode::LD4(x))
        } else if kk == 0x0A {
            Some(OpCode::LD5(x))
        } else if kk == 0x15 {
            Some(OpCode::LD6(x))
        } else if kk == 0x18 {
            Some(OpCode::LD7(x))
        } else if kk == 0x1E {
            Some(OpCode::ADD3(x))
        } else if kk == 0x29 {
            Some(OpCode::LD8(x))
        } else if kk == 0x33 {
            Some(OpCode::LD9(x))
        } else if kk == 0x55 {
            Some(OpCode::LD10(x))
        } else if kk == 0x65 {
            Some(OpCode::LD11(x))
        } else {
            None
        }
    }
}

/// The bits of `code` that the mask `bits` selects, moved down so that the
/// lowest selected bit comes to stand at bit 0. An empty mask selects the
/// whole word.
pub open spec fn field(code: u16, bits: u16) -> u16 {
    if bits == 0 {
        code
    } else {
        (code >> u16_trailing_zeros(bits)) & (bits >> u16_trailing_zeros(bits))
    }
}

/// A mask whose lowest set bit is bit `k` has `k` trailing zeros.
proof fn lemma_trailing_zeros(bits: u16, k: u32)
    requires
        k < 16,
        (bits >> k) & 1 == 1,
        (bits >> k) << k == bits,
    ensures
        u16_trailing_zeros(bits) == k,
{
    axiom_u16_trailing_zeros(bits);
    let t = u16_trailing_zeros(bits);
    assert(bits != 0) by (bit_vector)
        requires
            (bits >> k) & 1 == 1,
    ;
    if t < k {
        let tt = t as u16;
        assert((bits >> tt) & 1 == 0) by (bit_vector)
            requires
                tt < k,
                k < 16,
                (bits >> k) << k == bits,
        ;
    } else if t > k {
        let kk = k as u16;
        assert((bits >> kk) & 1u16 == 0u16);
        assert((bits >> kk) & 1 == (bits >> k) & 1) by (bit_vector)
            requires
                kk == k,
        ;
    }
}

fn shift_and_u16(code: u16, bits: u16) -> (r: u16)
    ensures
        r == field(code, bits),
{
    if bits == 0 {
        code
    } else {
        proof {
            axiom_u16_trailing_zeros(bits);
        }
        (code >> bits.trailing_zeros()) & (bits >> bits.trailing_zeros())
    }
}

fn shift_and_u8(code: u16, bits: u16) -> (r: u8)
    ensures
        r == field(code, bits) as u8,
{
    #[verifier::truncate]
    (shift_and_u16(code, bits) as u8)
}

/// The instruction word at the program counter: two bytes, the high one
/// first. A byte beyond the end of memory reads as zero.
pub fn fetch_opcode(chip: &Chip8) -> (code: u16)
    ensures
        code == chip@.fetch(),
{
    let pc = chip.pc as usize;
    let hi: u8 = if pc < 4096 {
        chip.memory[pc]
    } else {
        0
    };
    let lo: u8 = if pc + 1 < 4096 {
        chip.memory[pc + 1]
    } else {
        0
    };
    assert((hi as u16) << 8 | (lo as u16) == hi * 256 + lo) by (bit_vector);
    (hi as u16) << 8 | (lo as u16)
}

/// What the five operand masks select, in arithmetic.
proof fn lemma_operand_fields(code: u16)
    ensures
        field(code, 0x0FFF) == word_nnn(code),
        field(code, 0x0F00) == word_x(code),
        field(code, 0x00F0) == word_y(code),
        field(code, 0x00FF) == word_kk(code),
        field(code, 0x000F) == word_n(code),
{
    assert((0x0FFFu16 >> 0u32) & 1 == 1 && (0x0FFFu16 >> 0u32) << 0u32 == 0x0FFFu16
        && (0x00FFu16 >> 0u32) & 1 == 1 && (0x00FFu16 >> 0u32) << 0u32 == 0x00FFu16
        && (0x000Fu16 >> 0u32) & 1 == 1 && (0x000Fu16 >> 0u32) << 0u32 == 0x000Fu16
        && (0x0F00u16 >> 8u32) & 1 == 1 && (0x0F00u16 >> 8u32) << 8u32 == 0x0F00u16
        && (0x00F0u16 >> 4u32) & 1 == 1 && (0x00F0u16 >> 4u32) << 4u32 == 0x00F0u16)
        by (bit_vector);
    lemma_trailing_zeros(0x0FFF, 0);
    lemma_trailing_zeros(0x00FF, 0);
    lemma_trailing_zeros(0x000F, 0);
    lemma_trailing_zeros(0x0F00, 8);
    lemma_trailing_zeros(0x00F0, 4);
    assert((code >> 0u32) & (0x0FFFu16 >> 0u32) == code % 4096
        && (code >> 0u32) & (0x00FFu16 >> 0u32) == code % 256
        && (code >> 0u32) & (0x000Fu16 >> 0u32) == code % 16
        && (code >> 8u32) & (0x0F00u16 >> 8u32) == (code / 256) % 16
        && (code >> 4u32) & (0x00F0u16 >> 4u32) == (code / 16) % 16) by (bit_vector);
}

/// Decodes an instruction word. Every word either stands for exactly one
/// instruction, whose operands are the fixed bit fields of the word, or for
/// none: a word of family `8`, `E` or `F` with an unknown selector gives
/// `None`.
pub fn decode_opcode(code: u16) -> (r: Option<OpCode>)
    ensures
        r == decode(code),
        r matches Some(op) ==> op.wf(),
{
    proof {
        lemma_operand_fields(code);
        assert(code >> 12 == code / 4096 && code & 0x000F == code % 16 && code & 0x00FF == code
            % 256) by (bit_vector);
    }
    match code >> 12 {
        0 => match code {
            0x00E0 => Some(OpCode::CLS),
            0x00EE => Some(OpCode::RET),
            _ => Some(OpCode::SYS(code)),
        },
        1 => Some(OpCode::JP(shift_and_u16(code, 0x0FFF))),
        2 => Some(OpCode::CALL(shift_and_u16(code, 0x0FFF))),
        3 => Some(OpCode::SE(shift_and_u8(code, 0x0F00), shift_and_u8(code, 0x00FF))),
        4 => Some(OpCode::SNE(shift_and_u8(code, 0x0F00), shift_and_u8(code, 0x00FF))),
        5 => Some(OpCode::SE2(shift_and_u8(code, 0x0F00), shift_and_u8(code, 0x00F0))),
        6 => Some(OpCode::LD(shift_and_u8(code, 0x0F00), shift_and_u8(code, 0x00FF))),
        7 => Some(OpCode::ADD(shift_and_u8(code, 0x0F00), shift_and_u8(code, 0x00FF))),
        8 => match code & 0x000F {
            0 => Some(OpCode::LD2(shift_and_u8(code, 0x0F00), shift_and_u8(code, 0x00F0))),
            1 => Some(OpCode::OR(shift_and_u8(code, 0x0F00), shift_and_u8(code, 0x00F0))),
            2 => Some(OpCode::AND(shift_and_u8(code, 0x0F00), shift_and_u8(code, 0x00F0))),
            3 => Some(OpCode::XOR(shift_and_u8(code, 0x0F00), shift_and_u8(code, 0x00F0))),
            4 => Some(OpCode::ADD2(shift_and_u8(code, 0x0F00), shift_and_u8(code, 0x00F0))),
            5 => Some(OpCode::SUB(shift_and_u8(code, 0x0F00), shift_and_u8(code, 0x00F0))),
            6 => Some(OpCode::SHR(shift_and_u8(code, 0x0F00), shift_and_u8(code, 0x00F0))),
            7 => Some(OpCode::SUBN(shift_and_u8(code, 0x0F00), shift_and_u8(code, 0x00F0))),
            0xE => Some(OpCode::SHL(shift_and_u8(code, 0x0F00), shift_and_u8(code, 0x00F0))),
            _ => None,
        },
        9 => Some(OpCode::SNE2(shift_and_u8(code, 0x0F00), shift_and_u8(code, 0x00F0))),
        0xA => Some(OpCode::LD3(shift_and_u16(code, 0x0FFF))),
        0xB => Some(OpCode::JP2(shift_and_u16(code, 0x0FFF))),
        0xC => Some(OpCode::RND(shift_and_u8(code, 0x0F00), shift_and_u8(code, 0x00FF))),
        0xD => Some(
            OpCode::DRW(
                shift_and_u8(code, 0x0F00),
                shift_and_u8(code, 0x00F0),
                shift_and_u8(code, 0x000F),
            ),
        ),
        0xE => match code & 0x00FF {
            0x9E => Some(OpCode::SKP(shift_and_u8(code, 0x0F00))),
            0xA1 => Some(OpCode::SKNP(shift_and_u8(code, 0x0F00))),
            _ => None,
        },
        0xF => match code & 0x00FF {
            7 => Some(OpCode::LD4(shift_and_u8(code, 0x0F00))),
            0xA => Some(OpCode::LD5(shift_and_u8(code, 0x0F00))),
            0x15 => Some(OpCode::LD6(shift_and_u8(code, 0x0F00))),
            0x18 => Some(OpCode::LD7(shift_and_u8(code, 0x0F00))),
            0x1E => Some(OpCode::ADD3(shift_and_u8(code, 0x0F00))),
            0x29 => Some(OpCode::LD8(shift_and_u8(code, 0x0F00))),
            0x33 => Some(OpCode::LD9(shift_and_u8(code, 0x0F00))),
            0x55 => Some(OpCode::LD10(shift_and_u8(code, 0x0F00))),
            0x65 => Some(OpCode::LD11(shift_and_u8(code, 0x0F00))),
            _ => None,
        },
        _ => None,
    }
}

} // verus!
