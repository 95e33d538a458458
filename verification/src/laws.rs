//! What holds of the machine beyond the contract of any single operation.

use vstd::prelude::*;
use crate::instruction::OpCode;
use crate::instruction::decode;
use crate::instruction::word_x;
use crate::instruction::word_y;
use crate::instruction::word_n;
use crate::instruction::word_kk;
use crate::instruction::word_nnn;
use crate::machine::Machine;
use crate::machine::blank_display;
use crate::machine::count_down;
use crate::instruction::Reg;

verus! {

/// The fields of the word that four nibbles make.
proof fn lemma_join(f: u16, x: u16, y: u16, n: u16)
    requires
        f < 16,
        x < 16,
        y < 16,
        n < 16,
    ensures
        ({
            let c = f * 0x1000 + x * 0x100 + y * 0x10 + n;
            &&& 0 <= c < 0x1_0000
            &&& c / 0x1000 == f
            &&& (c / 0x100) % 0x10 == x
            &&& (c / 0x10) % 0x10 == y
            &&& c % 0x10 == n
            &&& c % 0x100 == y * 0x10 + n
            &&& c % 0x1000 == x * 0x100 + y * 0x10 + n
        }),
{
    assert(f < 16 && x < 16 && y < 16 && n < 16 ==> {
        let c = f * 0x1000 + x * 0x100 + y * 0x10 + n;
        &&& 0 <= c < 0x1_0000
        &&& c / 0x1000 == f
        &&& (c / 0x100) % 0x10 == x
        &&& (c / 0x10) % 0x10 == y
        &&& c % 0x10 == n
        &&& c % 0x100 == y * 0x10 + n
        &&& c % 0x1000 == x * 0x100 + y * 0x10 + n
    }) by (bit_vector);
}

/// A word is made of its four nibbles.
proof fn lemma_split(code: u16)
    ensures
        code == (code / 0x1000) * 0x1000 + word_x(code) * 0x100 + word_y(code) * 0x10 + word_n(
            code,
        ),
        word_kk(code) == word_y(code) * 0x10 + word_n(code),
        word_nnn(code) == word_x(code) * 0x100 + word_y(code) * 0x10 + word_n(code),
        code / 0x1000 < 16,
        word_x(code) < 16,
        word_y(code) < 16,
        word_n(code) < 16,
{
    assert(code == (code / 0x1000) * 0x1000 + ((code / 0x100) % 0x10) * 0x100 + ((code / 0x10)
        % 0x10) * 0x10 + code % 0x10 && code % 0x100 == ((code / 0x10) % 0x10) * 0x10 + code
        % 0x10 && code % 0x1000 == ((code / 0x100) % 0x10) * 0x100 + ((code / 0x10) % 0x10) * 0x10
        + code % 0x10 && code / 0x1000 < 16) by (bit_vector);
}

/// Decoding finds every canonical instruction back from its word.
pub proof fn lemma_decode_of_encode(op: OpCode)
    requires
        op.canonical(),
    ensures
        0 <= op.encode() < 0x1_0000,
        decode(op.encode() as u16) == Some(op),
{
    match op {
        OpCode::CLS => {},
        OpCode::RET => {},
        OpCode::SYS(a) => lemma_join(0, a / 0x100, (a / 0x10) % 0x10, a % 0x10),
        OpCode::JP(a) => lemma_join(1, a / 0x100, (a / 0x10) % 0x10, a % 0x10),
        OpCode::CALL(a) => lemma_join(
            2,
            a / 0x100,
            (a / 0x10) % 0x10,
            a % 0x10,
        ),
        OpCode::SE(x, kk) => lemma_join(3, x as u16, (kk / 0x10) as u16, (kk % 0x10) as u16),
        OpCode::SNE(x, kk) => lemma_join(4, x as u16, (kk / 0x10) as u16, (kk % 0x10) as u16),
        OpCode::SE2(x, y) => lemma_join(5, x as u16, y as u16, 0),
        OpCode::LD(x, kk) => lemma_join(6, x as u16, (kk / 0x10) as u16, (kk % 0x10) as u16),
        OpCode::ADD(x, kk) => lemma_join(7, x as u16, (kk / 0x10) as u16, (kk % 0x10) as u16),
        OpCode::LD2(x, y) => lemma_join(8, x as u16, y as u16, 0),
        OpCode::OR(x, y) => lemma_join(8, x as u16, y as u16, 1),
        OpCode::AND(x, y) => lemma_join(8, x as u16, y as u16, 2),
        OpCode::XOR(x, y) => lemma_join(8, x as u16, y as u16, 3),
        OpCode::ADD2(x, y) => lemma_join(8, x as u16, y as u16, 4),
        OpCode::SUB(x, y) => lemma_join(8, x as u16, y as u16, 5),
        OpCode::SHR(x, y) => lemma_join(8, x as u16, y as u16, 6),
        OpCode::SUBN(x, y) => lemma_join(8, x as u16, y as u16, 7),
        OpCode::SHL(x, y) => lemma_join(8, x as u16, y as u16, 0xE),
        OpCode::SNE2(x, y) => lemma_join(9, x as u16, y as u16, 0),
        OpCode::LD3(a) => lemma_join(
            0xA,
            a / 0x100,
            (a / 0x10) % 0x10,
            a % 0x10,
        ),
        OpCode::JP2(a) => lemma_join(
            0xB,
            a / 0x100,
            (a / 0x10) % 0x10,
            a % 0x10,
        ),
        OpCode::RND(x, kk) => lemma_join(0xC, x as u16, (kk / 0x10) as u16, (kk % 0x10) as u16),
        OpCode::DRW(x, y, n) => lemma_join(0xD, x as u16, y as u16, n as u16),
        OpCode::SKP(x) => lemma_join(0xE, x as u16, 9, 0xE),
        OpCode::SKNP(x) => lemma_join(0xE, x as u16, 0xA, 1),
        OpCode::LD4(x) => lemma_join(0xF, x as u16, 0, 7),
        OpCode::LD5(x) => lemma_join(0xF, x as u16, 0, 0xA),
        OpCode::LD6(x) => lemma_join(0xF, x as u16, 1, 5),
        OpCode::LD7(x) => lemma_join(0xF, x as u16, 1, 8),
        OpCode::ADD3(x) => lemma_join(0xF, x as u16, 1, 0xE),
        OpCode::LD8(x) => lemma_join(0xF, x as u16, 2, 9),
        OpCode::LD9(x) => lemma_join(0xF, x as u16, 3, 3),
        OpCode::LD10(x) => lemma_join(0xF, x as u16, 5, 5),
        OpCode::LD11(x) => lemma_join(0xF, x as u16, 6, 5),
    }
}

/// What a word decodes to is canonical, and its word is the word that was
/// decoded; only the low nibble of the two register comparisons, which no
/// instruction reads, is lost.
pub proof fn lemma_encode_of_decode(code: u16)
    ensures
        decode(code) matches Some(op) ==> op.canonical() && op.encode() == if code / 0x1000 == 5
            || code / 0x1000 == 9 {
            code - code % 0x10
        } else {
            code as int
        },
{
    lemma_split(code);
}

/// An instruction leaves a well-formed state well formed.
pub proof fn lemma_execute_wf(s: Machine, op: Option<OpCode>, rnd: u8)
    requires
        s.wf(),
        op matches Some(o) ==> o.wf(),
    ensures
        s.execute(op, rnd).wf(),
{
}

/// However long the machine runs, its state stays well formed.
pub proof fn lemma_run_wf(s: Machine, rnds: Seq<u8>)
    requires
        s.wf(),
    ensures
        s.run(rnds).wf(),
    decreases rnds.len(),
{
    if rnds.len() > 0 {
        lemma_run_wf(s, rnds.drop_last());
        let before = s.run(rnds.drop_last());
        lemma_split(before.fetch());
        lemma_execute_wf(before.tick(), decode(before.fetch()), rnds.last());
    }
}

/// A cycle that draws no random byte does not depend on the byte on offer.
pub proof fn lemma_cycle_without_random(s: Machine, rnd1: u8, rnd2: u8)
    requires
        !s.draws(),
    ensures
        s.cycle(rnd1) == s.cycle(rnd2),
{
}

/// A run in which no cycle draws a random byte is determined by the state it
/// starts from and by its length alone: the state that it ends in and the
/// number of times that the sound is due are the same for every sequence of
/// bytes on offer.
pub proof fn lemma_run_without_random(s: Machine, rnds1: Seq<u8>, rnds2: Seq<u8>)
    requires
        rnds1.len() == rnds2.len(),
        s.never_draws(rnds1),
    ensures
        s.never_draws(rnds2),
        s.run(rnds1) == s.run(rnds2),
        s.run_beeps(rnds1) == s.run_beeps(rnds2),
    decreases rnds1.len(),
{
    if rnds1.len() > 0 {
        lemma_run_without_random(s, rnds1.drop_last(), rnds2.drop_last());
        lemma_cycle_without_random(s.run(rnds1.drop_last()), rnds1.last(), rnds2.last());
    }
}

/// On a blank display a sprite lights exactly the pixels that it covers, and
/// nothing collides.
pub proof fn lemma_draw_on_blank(s: Machine, vx: Reg, vy: Reg, n: u8, rnd: u8)
    requires
        s.wf(),
        vx < 16,
        vy < 16,
        s.display == blank_display(),
    ensures
        ({
            let drawn = s.execute(Some(OpCode::DRW(vx, vy, n)), rnd);
            &&& forall|x: int, y: int|
                0 <= x < 64 && 0 <= y < 32 ==> #[trigger] drawn.display[x][y] == s.sprite_covers(
                    s.v[vx as int],
                    s.v[vy as int],
                    n,
                    x,
                    y,
                )
            &&& drawn.v[0xF] == 0
        }),
{
}

/// A draw reports a collision as soon as the sprite covers one lit pixel.
pub proof fn lemma_draw_collides(s: Machine, vx: Reg, vy: Reg, n: u8, rnd: u8, x: int, y: int)
    requires
        s.wf(),
        vx < 16,
        vy < 16,
        s.sprite_covers(s.v[vx as int], s.v[vy as int], n, x, y),
        s.display[x][y],
    ensures
        s.execute(Some(OpCode::DRW(vx, vy, n)), rnd).v[0xF] == 1,
{
}

/// Drawing the same sprite twice at the same place gives the display back.
/// The second draw reports a collision exactly if the first one lit a pixel;
/// it reports none only where the sprite covers no dark pixel. The place is
/// the same where neither coordinate is taken from `VF`, which the first
/// draw overwrites.
pub proof fn lemma_draw_twice(s: Machine, vx: Reg, vy: Reg, n: u8, rnd1: u8, rnd2: u8)
    requires
        s.wf(),
        vx < 15,
        vy < 15,
    ensures
        ({
            let op = Some(OpCode::DRW(vx, vy, n));
            let twice = s.execute(op, rnd1).execute(op, rnd2);
            &&& twice.display == s.display
            &&& twice.v[0xF] == if exists|x: int, y: int|
                #![trigger s.sprite_covers(s.v[vx as int], s.v[vy as int], n, x, y)]
                s.sprite_covers(s.v[vx as int], s.v[vy as int], n, x, y) && !s.display[x][y] {
                1u8
            } else {
                0u8
            }
        }),
{
    let x0 = s.v[vx as int];
    let y0 = s.v[vy as int];
    let op = Some(OpCode::DRW(vx, vy, n));
    let once = s.execute(op, rnd1);
    let twice = once.execute(op, rnd2);
    assert(once.v[vx as int] == x0 && once.v[vy as int] == y0);
    assert forall|x: int, y: int| once.sprite_covers(x0, y0, n, x, y) == s.sprite_covers(
        x0,
        y0,
        n,
        x,
        y,
    ) by {}
    assert(twice.display =~~= s.display);
    if once.collides(x0, y0, n) {
        let (x, y) = choose|x: int, y: int|
            #![trigger once.sprite_covers(x0, y0, n, x, y)]
            once.sprite_covers(x0, y0, n, x, y) && once.display[x][y];
        assert(s.sprite_covers(x0, y0, n, x, y) && !s.display[x][y]);
    }
    if exists|x: int, y: int|
        #![trigger s.sprite_covers(x0, y0, n, x, y)]
        s.sprite_covers(x0, y0, n, x, y) && !s.display[x][y] {
        let (x, y) = choose|x: int, y: int|
            #![trigger s.sprite_covers(x0, y0, n, x, y)]
            s.sprite_covers(x0, y0, n, x, y) && !s.display[x][y];
        assert(once.sprite_covers(x0, y0, n, x, y) && once.display[x][y]);
    }
}

/// A machine that is blocked on a key stands still: however many cycles
/// pass, no instruction is executed and only the timers move.
pub proof fn lemma_blocked_stands_still(s: Machine, rnds: Seq<u8>)
    requires
        s.blocked(),
    ensures
        s.run(rnds) == (Machine {
            sound_timer: count_down(s.sound_timer, rnds.len()),
            delay_timer: count_down(s.delay_timer, rnds.len()),
            ..s
        }),
    decreases rnds.len(),
{
    if rnds.len() > 0 {
        lemma_blocked_stands_still(s, rnds.drop_last());
    }
}

/// The key wait: the instruction that waits for a key blocks the machine,
/// the machine then stands still until a key goes down, and the press puts
/// the key into the waiting register and lets the machine run on from where
/// it stood.
pub proof fn lemma_key_wait(s: Machine, x: Reg, rnds: Seq<u8>, key: u8, rnd: u8)
    requires
        s.wf(),
        x < 16,
        key < 16,
    ensures
        ({
            let blocked = s.execute(Some(OpCode::LD5(x)), rnd);
            let waited = blocked.run(rnds);
            let resumed = waited.press(key);
            &&& blocked.wait_key == Some(x)
            &&& waited.wait_key == Some(x)
            &&& waited.pc == blocked.pc
            &&& waited.v == blocked.v
            &&& waited.memory == blocked.memory
            &&& waited.display == blocked.display
            &&& resumed.v == blocked.v.update(x as int, key)
            &&& resumed.pc == blocked.pc
            &&& !resumed.blocked()
            &&& forall|r: u8|
                #[trigger] resumed.cycle(r) == resumed.tick().execute(decode(resumed.fetch()), r)
        }),
{
    lemma_blocked_stands_still(s.execute(Some(OpCode::LD5(x)), rnd), rnds);
}

/// Only the instruction that sets the sound timer changes it.
proof fn lemma_execute_keeps_sound_timer(s: Machine, op: Option<OpCode>, rnd: u8)
    requires
        !(op matches Some(OpCode::LD7(_))),
    ensures
        s.execute(op, rnd).sound_timer == s.sound_timer,
{
}

/// The sound timer counts down by one in every cycle and stops at zero, and
/// the sound is due once, in the cycle that brings it from one to zero, as
/// long as the program does not set the timer anew.
pub proof fn lemma_sound_timer_counts_down(s: Machine, rnds: Seq<u8>)
    requires
        s.leaves_sound_timer(rnds),
    ensures
        s.run(rnds).sound_timer == count_down(s.sound_timer, rnds.len()),
        s.run_beeps(rnds) == if 1 <= s.sound_timer <= rnds.len() {
            1nat
        } else {
            0nat
        },
    decreases rnds.len(),
{
    if rnds.len() > 0 {
        lemma_sound_timer_counts_down(s, rnds.drop_last());
        let before = s.run(rnds.drop_last());
        if !before.blocked() {
            lemma_execute_keeps_sound_timer(before.tick(), decode(before.fetch()), rnds.last());
        }
    }
}

/// Registers that were stored come back: after `V0..=Vx` were stored at the
/// index register, a load of `V0..=Vx` from the same address gives every one
/// of them its stored value, whatever the registers held in between. The
/// block has to lie inside memory.
pub proof fn lemma_store_load_round_trip(s: Machine, t: Machine, x: Reg, rnd1: u8, rnd2: u8)
    requires
        s.wf(),
        t.wf(),
        x < 16,
        s.index + x < 4096,
        t.memory == s.execute(Some(OpCode::LD10(x)), rnd1).memory,
        t.index == s.index,
    ensures
        forall|i: int|
            0 <= i <= x ==> #[trigger] t.execute(Some(OpCode::LD11(x)), rnd2).v[i] == s.v[i],
{
}

} // verus!
