//! The CPU: the machine state in fixed arrays and the operations on it.

use vstd::prelude::*;
use crate::machine::Machine;
use crate::machine::font;
use crate::machine::blank_display;
use crate::instruction::OpCode;
use crate::instruction::decode;
use crate::instruction::decode_opcode;
use crate::instruction::fetch_opcode;
use crate::ChipSound;
use crate::machine::wrap8;
use crate::machine::wrap16;

verus! {

/// The width of the display in pixels.
pub const WIDTH: u32 = 64;

/// The height of the display in pixels.
pub const HEIGHT: u32 = 32;

/// A CHIP-8 machine. Its view is the `Machine` that the fields spell out.
///
/// The fields are open: a host reads the display and the redraw signal from
/// them and may set up any state. The operations ask for a well-formed
/// machine (`wf`), which `new` gives and every operation keeps.
pub struct Chip8 {
    /// The memory, with the font in its first eighty bytes.
    pub memory: [u8; 4096],
    /// The registers `V0` to `VF`; `VF` doubles as the flag.
    pub v: [u8; 16],
    /// The index register `I`.
    pub index: u16,
    /// The program counter.
    pub pc: u16,
    /// `display[x][y]`, `x` below `WIDTH` and `y` below `HEIGHT`.
    pub display: [[bool; 32]; 64],
    pub delay_timer: u8,
    pub sound_timer: u8,
    /// The return addresses, a ring of sixteen slots.
    pub stack: [u16; 16],
    /// The next free slot of the stack, below sixteen.
    pub sp: u8,
    /// Which keys are down.
    pub keys: [bool; 16],
    /// Raised by every draw; the renderer clears it.
    pub draw_flag: bool,
    /// The register that waits for a key, while the machine is blocked.
    pub wait_key: Option<u8>,
}

/// The built-in font, five bytes for each hexadecimal digit.
const SPRITES: [u8; 80] = [
    0xF0, 0x90, 0x90, 0x90, 0xF0,  // 0
    0x20, 0x60, 0x20, 0x20, 0x70,  // 1
    0xF0, 0x10, 0xF0, 0x80, 0xF0,  // 2
    0xF0, 0x10, 0xF0, 0x10, 0xF0,  // 3
    0x90, 0x90, 0xF0, 0x10, 0x10,  // 4
    0xF0, 0x80, 0xF0, 0x10, 0xF0,  // 5
    0xF0, 0x80, 0xF0, 0x90, 0xF0,  // 6
    0xF0, 0x10, 0x20, 0x40, 0x40,  // 7
    0xF0, 0x90, 0xF0, 0x90, 0xF0,  // 8
    0xF0, 0x90, 0xF0, 0x10, 0xF0,  // 9
    0xF0, 0x90, 0xF0, 0x90, 0x90,  // A
    0xE0, 0x90, 0xE0, 0x90, 0xE0,  // B
    0xF0, 0x80, 0x80, 0x80, 0xF0,  // C
    0xF0, 0x90, 0x90, 0x90, 0xE0,  // D
    0xF0, 0x80, 0xF0, 0x80, 0xF0,  // E
    0xF0, 0x80, 0xF0, 0x80, 0x80,  // F
];

impl View for Chip8 {
    type V = Machine;

    open spec fn view(&self) -> Machine {
        Machine {
            memory: self.memory@,
            v: self.v@,
            index: self.index,
            pc: self.pc,
            display: Seq::new(64, |x: int| self.display[x]@),
            delay_timer: self.delay_timer,
            sound_timer: self.sound_timer,
            stack: self.stack@,
            sp: self.sp,
            keys: self.keys@,
            draw_flag: self.draw_flag,
            wait_key: self.wait_key,
        }
    }
}

/// The sum of two bytes after wraparound.
proof fn lemma_wrap8_add(a: u8, b: u8)
    ensures
        wrap8(a + b) == if a + b >= 0x100 {
            a + b - 0x100
        } else {
            a + b
        },
{
}

/// The sum of two 16-bit values after wraparound.
proof fn lemma_wrap16_add(a: u16, b: u16)
    ensures
        wrap16(a + b) == if a + b >= 0x1_0000 {
            a + b - 0x1_0000
        } else {
            a + b
        },
{
}

/// The difference of two bytes after wraparound.
proof fn lemma_wrap8_sub(a: u8, b: u8)
    ensures
        wrap8(a - b) == if a >= b {
            a - b
        } else {
            a - b + 0x100
        },
{
}

/// A byte from `rand::random`, which asks the thread-local generator of the
/// `rand` crate. Nothing is claimed of the byte: two calls may differ.
#[verifier::external_body]
fn random_byte() -> (byte: u8) {
    rand::random()
}

impl Chip8 {
    /// A machine is well formed when its stack pointer is below sixteen and
    /// the register that waits for a key, if any, exists.
    pub open spec fn wf(&self) -> bool {
        self@.wf()
    }

    /// Tells whether the machine is well formed. The fields are open to the
    /// caller, who can ask here before handing the machine back.
    pub fn is_wf(&self) -> (ok: bool)
        ensures
            ok == self.wf(),
    {
        self.sp < 16 && match self.wait_key {
            Some(r) => r < 16,
            None => true,
        }
    }

    /// A machine after power-on.
    pub fn new() -> (chip: Chip8)
        ensures
            chip@ == Machine::initial(),
            chip.wf(),
    {
        let mut chip = Chip8 {
            memory: [0;4096],
            v: [0;16],
            index: 0,
            pc: 0x200,
            display: [[false;32];64],
            delay_timer: 0,
            sound_timer: 0,
            stack: [0;16],
            sp: 0,
            keys: [false;16],
            draw_flag: false,
            wait_key: None,
        };
        chip.reset_memory();
        assert(chip@.display =~~= blank_display());
        assert(chip@ =~~= Machine::initial());
        chip
    }

    /// Puts the machine back into its state after power-on. A loaded program
    /// is gone with the rest, and a machine that was blocked on a key runs
    /// again.
    pub fn reset(&mut self)
        ensures
            final(self)@ == Machine::initial(),
            final(self).wf(),
    {
        self.reset_memory();
        self.v = [0;16];
        self.index = 0;
        self.pc = 0x200;
        self.display = [[false;32];64];
        self.delay_timer = 0;
        self.sound_timer = 0;
        self.stack = [0;16];
        self.sp = 0;
        self.keys = [false;16];
        self.draw_flag = false;
        self.wait_key = None;
        assert(self@.display =~~= blank_display());
        assert(self@ =~~= Machine::initial());
    }

    fn reset_memory(&mut self)
        ensures
            final(self)@ == (Machine { memory: Machine::initial().memory, ..old(self)@ }),
    {
        self.memory = [0;4096];
        let mut ind: usize = 0;
        while ind < 80
            invariant
                ind <= 80,
                forall|a: int| 0 <= a < ind ==> self.memory[a] == font()[a],
                forall|a: int| ind <= a < 4096 ==> self.memory[a] == 0,
                self.v == old(self).v,
                self.index == old(self).index,
                self.pc == old(self).pc,
                self.display == old(self).display,
                self.delay_timer == old(self).delay_timer,
                self.sound_timer == old(self).sound_timer,
                self.stack == old(self).stack,
                self.sp == old(self).sp,
                self.keys == old(self).keys,
                self.draw_flag == old(self).draw_flag,
                self.wait_key == old(self).wait_key,
            decreases 80 - ind,
        {
            self.memory[ind] = SPRITES[ind];
            ind += 1;
        }
        assert(self@.memory =~= Machine::initial().memory);
        assert(self@ =~~= (Machine { memory: Machine::initial().memory, ..old(self)@ }));
    }

    /// Lays a program image over memory from address `0x200` on. Bytes that
    /// would come to lie beyond the end of memory are dropped. Nothing else
    /// changes: the caller resets the machine first where a fresh start is
    /// wanted.
    pub fn load_game(&mut self, rom: &[u8])
        ensures
            final(self)@ == old(self)@.load(rom@),
    {
        let mut ind: usize = 0;
        while ind < rom.len() && ind < 4096 - 0x200
            invariant
                ind <= 4096 - 0x200,
                ind <= rom.len(),
                forall|a: int|
                    0 <= a < 4096 ==> self.memory[a] == if 0x200 <= a < 0x200 + ind {
                        rom[a - 0x200]
                    } else {
                        old(self).memory[a]
                    },
                self.v == old(self).v,
                self.index == old(self).index,
                self.pc == old(self).pc,
                self.display == old(self).display,
                self.delay_timer == old(self).delay_timer,
                self.sound_timer == old(self).sound_timer,
                self.stack == old(self).stack,
                self.sp == old(self).sp,
                self.keys == old(self).keys,
                self.draw_flag == old(self).draw_flag,
                self.wait_key == old(self).wait_key,
            decreases rom.len() - ind,
        {
            self.memory[ind + 0x200] = rom[ind];
            ind += 1;
        }
        assert(self@.memory =~= old(self)@.load(rom@).memory);
        assert(self@ =~~= old(self)@.load(rom@));
    }

    /// Key `key` goes down. A machine that is blocked on a key stores `key` in
    /// the waiting register and runs again from the next cycle on.
    pub fn press_key(&mut self, key: u8)
        requires
            old(self).wf(),
            key < 16,
        ensures
            final(self)@ == old(self)@.press(key),
            final(self).wf(),
    {
        self.keys[key as usize] = true;
        if let Some(r) = self.wait_key {
            self.v[r as usize] = key;
            self.wait_key = None;
        }
        assert(self@ =~~= old(self)@.press(key));
    }

    /// Key `key` goes up.
    pub fn release_key(&mut self, key: u8)
        requires
            key < 16,
        ensures
            final(self)@ == old(self)@.release(key),
            old(self).wf() ==> final(self).wf(),
    {
        self.keys[key as usize] = false;
        assert(self@ =~~= old(self)@.release(key));
    }

    /// Reads a byte of memory; zero beyond its end.
    fn read(&self, addr: usize) -> (byte: u8)
        ensures
            byte == self@.byte_at(addr as int),
    {
        if addr < 4096 {
            self.memory[addr]
        } else {
            0
        }
    }

    /// Writes a byte of memory; beyond its end the write is dropped.
    fn write(&mut self, addr: usize, byte: u8)
        ensures
            final(self)@ == old(self)@.store(addr as int, byte),
    {
        if addr < 4096 {
            self.memory[addr] = byte;
        }
        assert(self@ =~~= old(self)@.store(addr as int, byte));
    }

    /// Lets both timers count down by one. Tells whether the sound is due: it
    /// is when the sound timer goes from one to zero.
    fn tick(&mut self) -> (beep: bool)
        ensures
            final(self)@ == old(self)@.tick(),
            beep == old(self)@.beeps(),
    {
        let mut beep = false;
        if self.sound_timer > 0 {
            if self.sound_timer == 1 {
                beep = true;
            }
            self.sound_timer -= 1;
        }
        if self.delay_timer > 0 {
            self.delay_timer -= 1;
        }
        assert(self@ =~~= old(self)@.tick());
        beep
    }

    /// Runs the machine for `cycles` cycles. In each cycle the timers tick,
    /// the sound is made if the sound timer has gone from one to zero, and,
    /// unless the machine is blocked on a key, the instruction at the program
    /// counter is executed. Returns how often the sound was made.
    ///
    /// Instructions that ask for a random byte draw it as they come, so the
    /// outcome is that of `Machine::run` for some sequence of such bytes.
    pub fn emulate_cycle<T: ChipSound>(&mut self, sound: &T, cycles: u64) -> (beeps: u64)
        requires
            old(self).wf(),
        ensures
            final(self).wf(),
            exists|rnds: Seq<u8>|
                #![trigger old(self)@.run(rnds)]
                rnds.len() == cycles && final(self)@ == old(self)@.run(rnds) && beeps == old(
                    self,
                )@.run_beeps(rnds),
    {
        let ghost mut rnds = Seq::<u8>::empty();
        let mut beeps: u64 = 0;
        let mut done: u64 = 0;
        while done < cycles
            invariant
                done <= cycles,
                self.wf(),
                rnds.len() == done,
                self@ == old(self)@.run(rnds),
                beeps == old(self)@.run_beeps(rnds),
                beeps <= done,
            decreases cycles - done,
        {
            let ghost start = self@;
            let ghost drawn = rnds;
            let opcode = fetch_opcode(self);
            if self.tick() {
                sound.make_sound();
                beeps += 1;
            }
            if self.wait_key.is_none() {
                let ghost ticked = self@;
                self.execute_opcode(decode_opcode(opcode));
                proof {
                    let rnd = choose|rnd: u8| self@ == ticked.execute(decode(opcode), rnd);
                    rnds = rnds.push(rnd);
                }
            } else {
                proof {
                    rnds = rnds.push(0);
                }
            }
            proof {
                assert(rnds.drop_last() =~= drawn);
                assert(self@ == start.cycle(rnds.last()));
            }
            done += 1;
        }
        beeps
    }

    /// Executes one instruction, drawing a random byte where the instruction
    /// asks for one. `None` stands for a word that is no instruction: it is
    /// stepped over.
    pub fn execute_opcode(&mut self, opcode: Option<OpCode>)
        requires
            old(self).wf(),
            opcode matches Some(op) ==> op.wf(),
        ensures
            final(self).wf(),
            exists|rnd: u8| final(self)@ == old(self)@.execute(opcode, rnd),
            !(opcode matches Some(OpCode::RND(_, _))) ==> final(self)@ == old(self)@.execute(
                opcode,
                0,
            ),
    {
        let rnd = match opcode {
            Some(OpCode::RND(_, _)) => random_byte(),
            _ => 0,
        };
        self.execute_with(opcode, rnd);
    }

    /// Executes one instruction with `rnd` as the random byte that the
    /// instruction draws, if it draws one.
    pub fn execute_with(&mut self, opcode: Option<OpCode>, rnd: u8)
        requires
            old(self).wf(),
            opcode matches Some(op) ==> op.wf(),
        ensures
            final(self)@ == old(self)@.execute(opcode, rnd),
            final(self).wf(),
    {
        if let Some(opcode) = opcode {
            match opcode {
                OpCode::CLS => {
                    self.display = [[false;32];64];
                    assert(self@.display =~~= blank_display());
                    self.advance();
                },
                OpCode::RET => {
                    self.sp = if self.sp == 0 {
                        15
                    } else {
                        self.sp - 1
                    };
                    proof {
                        lemma_wrap16_add(self.stack[self.sp as int], 2);
                    }
                    self.pc = self.stack[self.sp as usize].wrapping_add(2);
                },
                OpCode::SYS(..) => {
                    self.advance();
                },
                OpCode::JP(addr) => self.pc = addr,
                OpCode::CALL(addr) => {
                    self.stack[self.sp as usize] = self.pc;
                    self.sp = if self.sp == 15 {
                        0
                    } else {
                        self.sp + 1
                    };
                    self.pc = addr;
                },
                OpCode::SE(vx, byte) => {
                    self.skip_if(self.v[vx as usize] == byte);
                },
                OpCode::SNE(vx, byte) => {
                    self.skip_if(self.v[vx as usize] != byte);
                },
                OpCode::SE2(vx, vy) => {
                    self.skip_if(self.v[vx as usize] == self.v[vy as usize]);
                },
                OpCode::LD(vx, byte) => {
                    self.set_reg(vx, byte);
                    self.advance();
                },
                OpCode::ADD(vx, byte) => {
                    proof {
                        lemma_wrap8_add(self.v[vx as int], byte);
                    }
                    self.set_reg(vx, self.v[vx as usize].wrapping_add(byte));
                    self.advance();
                },
                OpCode::LD2(vx, vy) => {
                    self.set_reg(vx, self.v[vy as usize]);
                    self.advance();
                },
                OpCode::OR(vx, vy) => {
                    self.set_reg(vx, self.v[vx as usize] | self.v[vy as usize]);
                    self.advance();
                },
                OpCode::AND(vx, vy) => {
                    self.set_reg(vx, self.v[vx as usize] & self.v[vy as usize]);
                    self.advance();
                },
                OpCode::XOR(vx, vy) => {
                    self.set_reg(vx, self.v[vx as usize] ^ self.v[vy as usize]);
                    self.advance();
                },
                OpCode::ADD2(vx, vy) => {
                    let sum: u16 = self.v[vx as usize] as u16 + self.v[vy as usize] as u16;
                    self.set_reg(
                        0xF,
                        if sum > 0xFF {
                            1
                        } else {
                            0
                        },
                    );
                    self.set_reg(vx, (sum % 0x100) as u8);
                    self.advance();
                },
                OpCode::SUB(vx, vy) => {
                    let x = self.v[vx as usize];
                    let y = self.v[vy as usize];
                    self.set_reg(
                        0xF,
                        if x > y {
                            1
                        } else {
                            0
                        },
                    );
                    proof {
                        lemma_wrap8_sub(x, y);
                    }
                    self.set_reg(vx, x.wrapping_sub(y));
                    self.advance();
                },
                OpCode::SHR(vx, ..) => {
                    self.set_reg(0xF, self.v[vx as usize] % 2);
                    self.set_reg(vx, self.v[vx as usize] / 2);
                    self.advance();
                },
                OpCode::SUBN(vx, vy) => {
                    let x = self.v[vx as usize];
                    let y = self.v[vy as usize];
                    self.set_reg(
                        0xF,
                        if y > x {
                            1
                        } else {
                            0
                        },
                    );
                    proof {
                        lemma_wrap8_sub(y, x);
                    }
                    self.set_reg(vx, y.wrapping_sub(x));
                    self.advance();
                },
                OpCode::SHL(vx, ..) => {
                    let before = self.v[vx as usize];
                    assert(before >> 7 == before / 128) by (bit_vector);
                    self.set_reg(0xF, before >> 7);
                    let flagged = self.v[vx as usize];
                    assert(flagged << 1 == wrap8(flagged * 2)) by (bit_vector);
                    self.set_reg(vx, flagged << 1);
                    self.advance();
                },
                OpCode::SNE2(vx, vy) => {
                    self.skip_if(self.v[vx as usize] != self.v[vy as usize]);
                },
                OpCode::LD3(addr) => {
                    self.index = addr;
                    self.advance();
                },
                OpCode::JP2(addr) => {
                    proof {
                        lemma_wrap16_add(addr, self.v[0] as u16);
                    }
                    self.pc = addr.wrapping_add(self.v[0] as u16);
                },
                OpCode::RND(vx, byte) => {
                    self.set_reg(vx, rnd & byte);
                    self.advance();
                },
                OpCode::DRW(vx, vy, height) => {
                    let x0 = self.v[vx as usize];
                    let y0 = self.v[vy as usize];
                    self.draw_sprite(x0, y0, height);
                    self.advance();
                },
                OpCode::SKP(vx) => {
                    let key = self.v[vx as usize];
                    self.skip_if(key < 16 && self.keys[key as usize]);
                },
                OpCode::SKNP(vx) => {
                    let key = self.v[vx as usize];
                    self.skip_if(!(key < 16 && self.keys[key as usize]));
                },
                OpCode::LD4(vx) => {
                    self.set_reg(vx, self.delay_timer);
                    self.advance();
                },
                OpCode::LD5(vx) => {
                    self.wait_key = Some(vx);
                    self.advance();
                },
                OpCode::LD6(vx) => {
                    self.delay_timer = self.v[vx as usize];
                    self.advance();
                },
                OpCode::LD7(vx) => {
                    self.sound_timer = self.v[vx as usize];
                    self.advance();
                },
                OpCode::ADD3(vx) => {
                    proof {
                        lemma_wrap16_add(self.index, self.v[vx as int] as u16);
                    }
                    self.index = self.index.wrapping_add(self.v[vx as usize] as u16);
                    self.advance();
                },
                OpCode::LD8(vx) => {
                    self.index = (self.v[vx as usize] as u16) * 5;
                    self.advance();
                },
                OpCode::LD9(vx) => {
                    let val = self.v[vx as usize];
                    let at = self.index as usize;
                    self.write(at, val / 100);
                    self.write(at + 1, (val / 10) % 10);
                    self.write(at + 2, val % 10);
                    self.advance();
                },
                OpCode::LD10(vx) => {
                    self.store_registers(vx);
                    self.advance();
                },
                OpCode::LD11(vx) => {
                    self.load_registers(vx);
                    self.advance();
                },
            };
        } else {
            self.advance();
        }
    }

    /// Moves the program counter to the next instruction.
    fn advance(&mut self)
        ensures
            final(self)@ == old(self)@.advance(2),
    {
        proof {
            lemma_wrap16_add(self.pc, 2);
        }
        self.pc = self.pc.wrapping_add(2);
    }

    /// Moves the program counter to the next instruction, or to the one after
    /// it if `cond` holds.
    fn skip_if(&mut self, cond: bool)
        ensures
            final(self)@ == old(self)@.skip_if(cond),
    {
        proof {
            lemma_wrap16_add(self.pc, 2);
            lemma_wrap16_add(self.pc, 4);
        }
        if cond {
            self.pc = self.pc.wrapping_add(2);
        }
        self.pc = self.pc.wrapping_add(2);
    }

    /// Writes one register.
    fn set_reg(&mut self, x: u8, val: u8)
        requires
            x < 16,
        ensures
            final(self)@ == old(self)@.set_reg(x, val),
    {
        self.v[x as usize] = val;
        assert(self@.v =~= old(self)@.v.update(x as int, val));
    }

    /// Stores `V0..=Vx` in memory from the index register on.
    fn store_registers(&mut self, x: u8)
        requires
            x < 16,
        ensures
            final(self)@ == old(self)@.store_registers(x),
    {
        let mut ind: u8 = 0;
        while ind <= x
            invariant
                x < 16,
                ind <= x + 1,
                forall|a: int|
                    0 <= a < 4096 ==> self.memory[a] == if self.index <= a < self.index + ind {
                        self.v[a - self.index]
                    } else {
                        old(self).memory[a]
                    },
                self.v == old(self).v,
                self.index == old(self).index,
                self.pc == old(self).pc,
                self.display == old(self).display,
                self.delay_timer == old(self).delay_timer,
                self.sound_timer == old(self).sound_timer,
                self.stack == old(self).stack,
                self.sp == old(self).sp,
                self.keys == old(self).keys,
                self.draw_flag == old(self).draw_flag,
                self.wait_key == old(self).wait_key,
            decreases x + 1 - ind,
        {
            let byte = self.v[ind as usize];
            let addr = self.index as usize + ind as usize;
            if addr < 4096 {
                self.memory[addr] = byte;
            }
            ind += 1;
        }
        assert(self@.memory =~= old(self)@.store_registers(x).memory);
        assert(self@ =~~= old(self)@.store_registers(x));
    }

    /// Loads `V0..=Vx` from memory from the index register on.
    fn load_registers(&mut self, x: u8)
        requires
            x < 16,
        ensures
            final(self)@ == old(self)@.load_registers(x),
    {
        let mut ind: u8 = 0;
        while ind <= x
            invariant
                x < 16,
                ind <= x + 1,
                forall|i: int|
                    0 <= i < 16 ==> self.v[i] == if i < ind {
                        old(self)@.byte_at(self.index + i)
                    } else {
                        old(self).v[i]
                    },
                self.memory == old(self).memory,
                self.index == old(self).index,
                self.pc == old(self).pc,
                self.display == old(self).display,
                self.delay_timer == old(self).delay_timer,
                self.sound_timer == old(self).sound_timer,
                self.stack == old(self).stack,
                self.sp == old(self).sp,
                self.keys == old(self).keys,
                self.draw_flag == old(self).draw_flag,
                self.wait_key == old(self).wait_key,
            decreases x + 1 - ind,
        {
            let byte = self.read(self.index as usize + ind as usize);
            self.v[ind as usize] = byte;
            ind += 1;
        }
        assert(self@.v =~= old(self)@.load_registers(x).v);
        assert(self@ =~~= old(self)@.load_registers(x));
    }

    /// Draws the sprite of `height` rows at the index register with its top
    /// left corner at `(x0, y0)`.
    fn draw_sprite(&mut self, x0: u8, y0: u8, height: u8)
        ensures
            final(self)@ == old(self)@.draw(x0, y0, height),
    {
        let ghost before = old(self)@;
        let ghost mut hit: Option<(int, int)> = None;
        self.v[0xF] = 0;
        let mut y: u8 = 0;
        while y < height && y0 + y < 32
            invariant
                y <= height,
                y == 0 || y0 + y <= 32,
                before == old(self)@,
                self.memory == old(self).memory,
                self.index == old(self).index,
                self.pc == old(self).pc,
                self.delay_timer == old(self).delay_timer,
                self.sound_timer == old(self).sound_timer,
                self.stack == old(self).stack,
                self.sp == old(self).sp,
                self.keys == old(self).keys,
                self.draw_flag == old(self).draw_flag,
                self.wait_key == old(self).wait_key,
                forall|i: int| 0 <= i < 15 ==> self.v[i] == old(self).v[i],
                self.v[15] == if hit is Some {
                    1u8
                } else {
                    0u8
                },
                hit matches Some((wx, wy)) ==> before.sprite_covers(x0, y0, height, wx, wy)
                    && before.display[wx][wy],
                hit is None ==> forall|px: int, py: int|
                    #![trigger before.sprite_covers(x0, y0, height, px, py)]
                    before.sprite_covers(x0, y0, height, px, py) && py - y0 < y
                        ==> !before.display[px][py],
                forall|px: int, py: int|
                    #![trigger self.display[px][py]]
                    0 <= px < 64 && 0 <= py < 32 ==> self.display[px][py] == (
                    before.display[px][py] != (before.sprite_covers(x0, y0, height, px, py) && py
                        - y0 < y)),
            decreases height - y,
        {
            let line = self.read(self.index as usize + y as usize);
            let py = y0 + y;
            let mut x: u8 = 0;
            while x < 8 && x0 + x < 64
                invariant
                    x <= 8,
                    x == 0 || x0 + x <= 64,
                    y < height,
                    py == y0 + y,
                    py < 32,
                    line == before.byte_at(before.index + y),
                    before == old(self)@,
                    self.memory == old(self).memory,
                    self.index == old(self).index,
                    self.pc == old(self).pc,
                    self.delay_timer == old(self).delay_timer,
                    self.sound_timer == old(self).sound_timer,
                    self.stack == old(self).stack,
                    self.sp == old(self).sp,
                    self.keys == old(self).keys,
                    self.draw_flag == old(self).draw_flag,
                    self.wait_key == old(self).wait_key,
                    forall|i: int| 0 <= i < 15 ==> self.v[i] == old(self).v[i],
                    self.v[15] == if hit is Some {
                        1u8
                    } else {
                        0u8
                    },
                    hit matches Some((wx, wy)) ==> before.sprite_covers(x0, y0, height, wx, wy)
                        && before.display[wx][wy],
                    hit is None ==> forall|px: int, qy: int|
                        #![trigger before.sprite_covers(x0, y0, height, px, qy)]
                        before.sprite_covers(x0, y0, height, px, qy) && (qy - y0 < y || (qy - y0
                            == y && px - x0 < x)) ==> !before.display[px][qy],
                    forall|px: int, qy: int|
                        #![trigger self.display[px][qy]]
                        0 <= px < 64 && 0 <= qy < 32 ==> self.display[px][qy] == (
                        before.display[px][qy] != (before.sprite_covers(x0, y0, height, px, qy)
                            && (qy - y0 < y || (qy - y0 == y && px - x0 < x)))),
                decreases 8 - x,
            {
                let px = x0 + x;
                if (line >> (7 - x)) & 1 == 1 {
                    assert(before.sprite_covers(x0, y0, height, px as int, py as int));
                    if self.display[px as usize][py as usize] {
                        self.v[0xF] = 1;
                        proof {
                            hit = Some((px as int, py as int));
                        }
                    }
                    self.display[px as usize][py as usize] = !self.display[px as usize][py as usize];
                } else {
                    assert(!before.sprite_covers(x0, y0, height, px as int, py as int));
                }
                x += 1;
            }
            y += 1;
        }
        self.draw_flag = true;
        proof {
            let after = before.draw(x0, y0, height);
            assert(before.collides(x0, y0, height) <==> hit is Some);
            assert(self@.v =~= after.v);
            assert(self@.display =~~= after.display);
            assert(self@ =~~= after);
        }
    }
}

} // verus!
