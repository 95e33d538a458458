//! The mathematical model of the machine: its state as plain sequences and
//! the effect of every operation as a function from state to state.

use vstd::prelude::*;
use crate::instruction::OpCode;
use crate::instruction::Reg;
use crate::instruction::decode;

verus! {

/// The built-in font: sixteen glyphs of five bytes, one per hexadecimal digit.
pub open spec fn font() -> Seq<u8> {
    seq![
        0xF0u8, 0x90, 0x90, 0x90, 0xF0,
        0x20, 0x60, 0x20, 0x20, 0x70,
        0xF0, 0x10, 0xF0, 0x80, 0xF0,
        0xF0, 0x10, 0xF0, 0x10, 0xF0,
        0x90, 0x90, 0xF0, 0x10, 0x10,
        0xF0, 0x80, 0xF0, 0x10, 0xF0,
        0xF0, 0x80, 0xF0, 0x90, 0xF0,
        0xF0, 0x10, 0x20, 0x40, 0x40,
        0xF0, 0x90, 0xF0, 0x90, 0xF0,
        0xF0, 0x90, 0xF0, 0x10, 0xF0,
        0xF0, 0x90, 0xF0, 0x90, 0x90,
        0xE0, 0x90, 0xE0, 0x90, 0xE0,
        0xF0, 0x80, 0x80, 0x80, 0xF0,
        0xF0, 0x90, 0x90, 0x90, 0xE0,
        0xF0, 0x80, 0xF0, 0x80, 0xF0,
        0xF0, 0x80, 0xF0, 0x80, 0x80,
    ]
}

/// A display with every pixel off.
pub open spec fn blank_display() -> Seq<Seq<bool>> {
    Seq::new(64, |x: int| Seq::new(32, |y: int| false))
}

/// Bit `col` of a sprite row, counted from the most significant bit: the
/// leftmost pixel of the row is column 0.
pub open spec fn sprite_bit(line: u8, col: int) -> bool {
    (line >> ((7 - col) as u8)) & 1 == 1
}

/// A 16-bit value after wraparound.
pub open spec fn wrap16(n: int) -> u16 {
    (n % 0x1_0000) as u16
}

/// An 8-bit value after wraparound.
pub open spec fn wrap8(n: int) -> u8 {
    (n % 0x100) as u8
}

/// A timer that stood at `t`, after `n` ticks: it counts down and stops at
/// zero.
pub open spec fn count_down(t: u8, n: nat) -> u8 {
    if t > n {
        (t - n) as u8
    } else {
        0
    }
}

/// The whole state of the machine.
///
/// Memory beyond the last address does not exist: a read there gives zero and
/// a write there is dropped. The program counter and the index register are
/// 16-bit counters that wrap around. The stack is a ring of sixteen slots: the
/// stack pointer is always below sixteen and steps around the ring.
#[verifier::ext_equal]
pub struct Machine {
    /// 4096 bytes.
    pub memory: Seq<u8>,
    /// The registers `V0` to `VF`.
    pub v: Seq<u8>,
    /// The index register `I`.
    pub index: u16,
    /// The program counter.
    pub pc: u16,
    /// 64 columns of 32 pixels: `display[x][y]`.
    pub display: Seq<Seq<bool>>,
    pub delay_timer: u8,
    pub sound_timer: u8,
    /// Sixteen return addresses.
    pub stack: Seq<u16>,
    /// The next free stack slot.
    pub sp: u8,
    /// Which of the sixteen keys are down.
    pub keys: Seq<bool>,
    /// Set by every draw, for the renderer to clear.
    pub draw_flag: bool,
    /// The register that waits for a key, while the machine is blocked.
    pub wait_key: Option<Reg>,
}

impl Machine {
    /// The shape of a state: the sizes of its parts, a stack pointer inside
    /// the ring, and a waiting register that exists.
    pub open spec fn wf(self) -> bool {
        &&& self.memory.len() == 4096
        &&& self.v.len() == 16
        &&& self.display.len() == 64
        &&& forall|x: int| 0 <= x < 64 ==> (#[trigger] self.display[x]).len() == 32
        &&& self.stack.len() == 16
        &&& self.keys.len() == 16
        &&& self.sp < 16
        &&& (self.wait_key matches Some(r) ==> r < 16)
    }

    /// The state after power-on: the font at address 0, the program counter at
    /// `0x200`, everything else zero, the machine running.
    pub open spec fn initial() -> Machine {
        Machine {
            memory: Seq::new(4096, |a: int| if a < 80 { font()[a] } else { 0u8 }),
            v: Seq::new(16, |i: int| 0u8),
            index: 0,
            pc: 0x200,
            display: blank_display(),
            delay_timer: 0,
            sound_timer: 0,
            stack: Seq::new(16, |i: int| 0u16),
            sp: 0,
            keys: Seq::new(16, |i: int| false),
            draw_flag: false,
            wait_key: None,
        }
    }

    /// The byte at an address; zero beyond the end of memory.
    pub open spec fn byte_at(self, addr: int) -> u8 {
        if 0 <= addr < 4096 {
            self.memory[addr]
        } else {
            0
        }
    }

    /// Writes a byte; a write beyond the end of memory is dropped.
    pub open spec fn store(self, addr: int, val: u8) -> Machine {
        if 0 <= addr < 4096 {
            Machine { memory: self.memory.update(addr, val), ..self }
        } else {
            self
        }
    }

    /// A program image laid over memory from address `0x200` on; what does not
    /// fit below the end of memory is dropped.
    pub open spec fn load(self, rom: Seq<u8>) -> Machine {
        Machine {
            memory: Seq::new(
                4096,
                |a: int|
                    if 0x200 <= a < 0x200 + rom.len() {
                        rom[a - 0x200]
                    } else {
                        self.memory[a]
                    },
            ),
            ..self
        }
    }

    /// The instruction word at the program counter, high byte first.
    pub open spec fn fetch(self) -> u16 {
        (self.byte_at(self.pc as int) * 256 + self.byte_at(self.pc + 1)) as u16
    }

    /// Moves the program counter forward.
    pub open spec fn advance(self, by: int) -> Machine {
        Machine { pc: wrap16(self.pc + by), ..self }
    }

    /// Steps over the next instruction if `cond` holds.
    pub open spec fn skip_if(self, cond: bool) -> Machine {
        if cond {
            self.advance(4)
        } else {
            self.advance(2)
        }
    }

    /// Writes one register.
    pub open spec fn set_reg(self, x: Reg, val: u8) -> Machine {
        Machine { v: self.v.update(x as int, val), ..self }
    }

    /// Whether key `k` is down. A value that names no key is never down.
    pub open spec fn key_down(self, k: u8) -> bool {
        k < 16 && self.keys[k as int]
    }

    /// Whether the sprite of `n` rows at the index register, drawn with its
    /// top left corner at `(x0, y0)`, sets pixel `(x, y)`. What falls outside
    /// the display is clipped.
    pub open spec fn sprite_covers(self, x0: u8, y0: u8, n: u8, x: int, y: int) -> bool {
        &&& 0 <= x < 64
        &&& 0 <= y < 32
        &&& x0 <= x < x0 + 8
        &&& y0 <= y < y0 + n
        &&& sprite_bit(self.byte_at(self.index + (y - y0)), x - x0)
    }

    /// Whether drawing the sprite turns a lit pixel off.
    pub open spec fn collides(self, x0: u8, y0: u8, n: u8) -> bool {
        exists|x: int, y: int|
            #![trigger self.sprite_covers(x0, y0, n, x, y)]
            self.sprite_covers(x0, y0, n, x, y) && self.display[x][y]
    }

    /// Draws a sprite: every pixel that it covers is toggled, `VF` tells
    /// whether a lit pixel went off, and the redraw signal is raised.
    pub open spec fn draw(self, x0: u8, y0: u8, n: u8) -> Machine {
        Machine {
            display: Seq::new(
                64,
                |x: int|
                    Seq::new(
                        32,
                        |y: int| self.display[x][y] != self.sprite_covers(x0, y0, n, x, y),
                    ),
            ),
            v: self.v.update(
                0xF,
                if self.collides(x0, y0, n) {
                    1u8
                } else {
                    0u8
                },
            ),
            draw_flag: true,
            ..self
        }
    }

    /// Stores `V0..=Vx` at the index register and the addresses after it.
    pub open spec fn store_registers(self, x: Reg) -> Machine {
        Machine {
            memory: Seq::new(
                4096,
                |a: int|
                    if self.index <= a <= self.index + x {
                        self.v[a - self.index]
                    } else {
                        self.memory[a]
                    },
            ),
            ..self
        }
    }

    /// Loads `V0..=Vx` from the index register and the addresses after it.
    pub open spec fn load_registers(self, x: Reg) -> Machine {
        Machine {
            v: Seq::new(
                16,
                |i: int|
                    if i <= x {
                        self.byte_at(self.index + i)
                    } else {
                        self.v[i]
                    },
            ),
            ..self
        }
    }

    /// Stores the three decimal digits of `val` at the index register.
    pub open spec fn store_bcd(self, val: u8) -> Machine {
        self.store(self.index as int, val / 100).store(self.index + 1, (val / 10) % 10).store(
            self.index + 2,
            val % 10,
        )
    }

    /// Returns from a subroutine: steps the stack pointer back around the
    /// ring and continues behind the call that is stored there.
    pub open spec fn ret(self) -> Machine {
        let sp = if self.sp == 0 {
            15u8
        } else {
            (self.sp - 1) as u8
        };
        Machine { sp, pc: wrap16(self.stack[sp as int] + 2), ..self }
    }

    /// Calls a subroutine: stores the program counter in the free slot and
    /// steps the stack pointer forward around the ring.
    pub open spec fn call(self, addr: u16) -> Machine {
        Machine {
            stack: self.stack.update(self.sp as int, self.pc),
            sp: if self.sp == 15 {
                0u8
            } else {
                (self.sp + 1) as u8
            },
            pc: addr,
            ..self
        }
    }

    /// The state after one instruction. `rnd` is the random byte that the
    /// instruction draws, if it draws one. `None` stands for a word that is no
    /// instruction and is stepped over.
    pub open spec fn execute(self, opcode: Option<OpCode>, rnd: u8) -> Machine {
        match opcode {
            None => self.advance(2),
            Some(OpCode::CLS) => Machine { display: blank_display(), ..self }.advance(2),
            Some(OpCode::RET) => self.ret(),
            Some(OpCode::SYS(_)) => self.advance(2),
            Some(OpCode::JP(addr)) => Machine { pc: addr, ..self },
            Some(OpCode::CALL(addr)) => self.call(addr),
            Some(OpCode::SE(x, kk)) => self.skip_if(self.v[x as int] == kk),
            Some(OpCode::SNE(x, kk)) => self.skip_if(self.v[x as int] != kk),
            Some(OpCode::SE2(x, y)) => self.skip_if(self.v[x as int] == self.v[y as int]),
            Some(OpCode::LD(x, kk)) => self.set_reg(x, kk).advance(2),
            Some(OpCode::ADD(x, kk)) => self.set_reg(x, wrap8(self.v[x as int] + kk)).advance(2),
            Some(OpCode::LD2(x, y)) => self.set_reg(x, self.v[y as int]).advance(2),
            Some(OpCode::OR(x, y)) => self.set_reg(x, self.v[x as int] | self.v[y as int]).advance(
                2,
            ),
            Some(OpCode::AND(x, y)) => self.set_reg(
                x,
                self.v[x as int] & self.v[y as int],
            ).advance(2),
            Some(OpCode::XOR(x, y)) => self.set_reg(
                x,
                self.v[x as int] ^ self.v[y as int],
            ).advance(2),
            Some(OpCode::ADD2(x, y)) => {
                let sum = self.v[x as int] + self.v[y as int];
                self.set_reg(
                    0xF,
                    if sum > 0xFF {
                        1
                    } else {
                        0
                    },
                ).set_reg(x, wrap8(sum)).advance(2)
            },
            Some(OpCode::SUB(x, y)) => {
                let vx = self.v[x as int];
                let vy = self.v[y as int];
                self.set_reg(
                    0xF,
                    if vx > vy {
                        1
                    } else {
                        0
                    },
                ).set_reg(x, wrap8(vx - vy)).advance(2)
            },
            Some(OpCode::SHR(x, _)) => {
                let flagged = self.set_reg(0xF, self.v[x as int] % 2);
                flagged.set_reg(x, flagged.v[x as int] / 2).advance(2)
            },
            Some(OpCode::SUBN(x, y)) => {
                let vx = self.v[x as int];
                let vy = self.v[y as int];
                self.set_reg(
                    0xF,
                    if vy > vx {
                        1
                    } else {
                        0
                    },
                ).set_reg(x, wrap8(vy - vx)).advance(2)
            },
            Some(OpCode::SHL(x, _)) => {
                let flagged = self.set_reg(0xF, self.v[x as int] / 128);
                flagged.set_reg(x, wrap8(flagged.v[x as int] * 2)).advance(2)
            },
            Some(OpCode::SNE2(x, y)) => self.skip_if(self.v[x as int] != self.v[y as int]),
            Some(OpCode::LD3(addr)) => Machine { index: addr, ..self }.advance(2),
            Some(OpCode::JP2(addr)) => Machine { pc: wrap16(addr + self.v[0]), ..self },
            Some(OpCode::RND(x, kk)) => self.set_reg(x, rnd & kk).advance(2),
            Some(OpCode::DRW(x, y, n)) => self.draw(self.v[x as int], self.v[y as int], n).advance(
                2,
            ),
            Some(OpCode::SKP(x)) => self.skip_if(self.key_down(self.v[x as int])),
            Some(OpCode::SKNP(x)) => self.skip_if(!self.key_down(self.v[x as int])),
            Some(OpCode::LD4(x)) => self.set_reg(x, self.delay_timer).advance(2),
            Some(OpCode::LD5(x)) => Machine { wait_key: Some(x), ..self }.advance(2),
            Some(OpCode::LD6(x)) => Machine { delay_timer: self.v[x as int], ..self }.advance(2),
            Some(OpCode::LD7(x)) => Machine { sound_timer: self.v[x as int], ..self }.advance(2),
            Some(OpCode::ADD3(x)) => Machine {
                index: wrap16(self.index + self.v[x as int]),
                ..self
            }.advance(2),
            Some(OpCode::LD8(x)) => Machine {
                index: (self.v[x as int] * 5) as u16,
                ..self
            }.advance(2),
            Some(OpCode::LD9(x)) => self.store_bcd(self.v[x as int]).advance(2),
            Some(OpCode::LD10(x)) => self.store_registers(x).advance(2),
            Some(OpCode::LD11(x)) => self.load_registers(x).advance(2),
        }
    }

    /// Whether the sound is due in the coming cycle: the sound timer is about
    /// to go from one to zero.
    pub open spec fn beeps(self) -> bool {
        self.sound_timer == 1
    }

    /// Both timers count down by one and stop at zero.
    pub open spec fn tick(self) -> Machine {
        Machine {
            sound_timer: if self.sound_timer > 0 {
                (self.sound_timer - 1) as u8
            } else {
                0
            },
            delay_timer: if self.delay_timer > 0 {
                (self.delay_timer - 1) as u8
            } else {
                0
            },
            ..self
        }
    }

    /// Whether the machine is blocked on a key.
    pub open spec fn blocked(self) -> bool {
        self.wait_key is Some
    }

    /// One cycle: the timers tick, and unless the machine is blocked on a key
    /// the instruction at the program counter is executed.
    pub open spec fn cycle(self, rnd: u8) -> Machine {
        if self.blocked() {
            self.tick()
        } else {
            self.tick().execute(decode(self.fetch()), rnd)
        }
    }

    /// The state after as many cycles as `rnds` is long, the `i`-th cycle
    /// drawing `rnds[i]`.
    pub open spec fn run(self, rnds: Seq<u8>) -> Machine
        decreases rnds.len(),
    {
        if rnds.len() == 0 {
            self
        } else {
            self.run(rnds.drop_last()).cycle(rnds.last())
        }
    }

    /// Whether the coming cycle draws a random byte: the machine runs and the
    /// instruction at the program counter asks for one.
    pub open spec fn draws(self) -> bool {
        !self.blocked() && decode(self.fetch()) matches Some(OpCode::RND(_, _))
    }

    /// Whether no cycle of that run draws a random byte.
    pub open spec fn never_draws(self, rnds: Seq<u8>) -> bool
        decreases rnds.len(),
    {
        rnds.len() == 0 || (self.never_draws(rnds.drop_last()) && !self.run(
            rnds.drop_last(),
        ).draws())
    }

    /// Whether no cycle of that run executes the instruction that sets the
    /// sound timer.
    pub open spec fn leaves_sound_timer(self, rnds: Seq<u8>) -> bool
        decreases rnds.len(),
    {
        rnds.len() == 0 || {
            let before = self.run(rnds.drop_last());
            &&& self.leaves_sound_timer(rnds.drop_last())
            &&& (before.blocked() || !(decode(before.fetch()) matches Some(OpCode::LD7(_))))
        }
    }

    /// How often the sound is due during those cycles.
    pub open spec fn run_beeps(self, rnds: Seq<u8>) -> nat
        decreases rnds.len(),
    {
        if rnds.len() == 0 {
            0
        } else {
            self.run_beeps(rnds.drop_last()) + if self.run(rnds.drop_last()).beeps() {
                1nat
            } else {
                0nat
            }
        }
    }

    /// A key goes down. A machine that is blocked on a key stores the key in
    /// the waiting register and runs again.
    pub open spec fn press(self, key: u8) -> Machine {
        let keys = self.keys.update(key as int, true);
        match self.wait_key {
            Some(r) => Machine { keys, v: self.v.update(r as int, key), wait_key: None, ..self },
            None => Machine { keys, ..self },
        }
    }

    /// A key goes up.
    pub open spec fn release(self, key: u8) -> Machine {
        Machine { keys: self.keys.update(key as int, false), ..self }
    }
}

} // verus!
