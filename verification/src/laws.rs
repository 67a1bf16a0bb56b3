//! Properties of the machine that hold of every state and every instruction
//! word, proved from the definitions in `semantics` and `display`.

use vstd::prelude::*;
use crate::arith::low_byte;
use crate::decode::{lemma_field_ranges, op_class, op_n, op_nn, op_x, op_y};
use crate::display::{blit, collides, sprite_covers};
use crate::errors::Fault;
use crate::semantics::{
    cycle, execute, fetch, first_key, is_first_key, no_key_set, tick,
};
use crate::state::{fetchable, Machine};

verus! {

/// The machine after the first `count` cycles of a run in which cycle `k`
/// takes `randoms[k]` as its random byte, or the fault that stopped the run
/// before that.
pub open spec fn after(m: Machine, randoms: Seq<u8>, count: nat) -> Result<Machine, Fault>
    decreases count,
{
    if count == 0 {
        Ok(m)
    } else {
        match after(m, randoms, (count - 1) as nat) {
            Ok(reached) => cycle(reached, randoms[count - 1]),
            Err(fault) => Err(fault),
        }
    }
}

/// A cycle succeeds only from an even program counter inside memory; from any
/// other it ends in a fault and changes nothing.
pub proof fn lemma_cycle_needs_fetchable_counter(m: Machine, random: u8)
    ensures
        cycle(m, random) is Ok ==> m.pc % 2 == 0 && 0 <= m.pc < 4096,
        m.pc + 1 >= 4096 ==> cycle(m, random) == Err::<Machine, Fault>(Fault::FetchOutOfBounds),
        m.pc + 1 < 4096 && m.pc % 2 == 1 ==> cycle(m, random) == Err::<Machine, Fault>(
            Fault::MisalignedProgramCounter,
        ),
{
}

/// In a run without a fault, every state that a cycle started from had an
/// even program counter inside memory.
pub proof fn lemma_counter_stays_fetchable(m: Machine, randoms: Seq<u8>, count: nat, k: nat)
    requires
        after(m, randoms, count) is Ok,
        k < count,
    ensures
        after(m, randoms, k) is Ok,
        fetchable(after(m, randoms, k)->Ok_0.pc),
    decreases count,
{
    if k + 1 < count {
        lemma_counter_stays_fetchable(m, randoms, (count - 1) as nat, k);
    }
}

/// The machine at power-on meets the invariant, and so does every machine
/// that a program was loaded into.
pub proof fn lemma_loaded_is_valid(image: Seq<u8>)
    ensures
        Machine::initial().valid(),
        Machine::initial().with_image(image).valid(),
{
}

/// A cycle keeps the invariant of the machine: the stack pointer within the
/// stack, only fetched addresses on the stack, one bit in every display cell.
pub proof fn lemma_cycle_keeps_valid(m: Machine, random: u8)
    requires
        m.valid(),
        cycle(m, random) is Ok,
    ensures
        cycle(m, random)->Ok_0.valid(),
{
    let word = fetch(m)->Ok_0;
    let next = execute(m, word, random)->Ok_0;
    lemma_field_ranges(word);
    assert(next.well_sized());
    assert(next.sp <= 16);
    assert forall|k: int| 0 <= k < next.sp implies fetchable(#[trigger] next.stack[k]) by {
        if op_class(word) == 0x2000 && k == m.sp {
            assert(next.stack[k] == m.pc);
        } else {
            assert(next.stack[k] == m.stack[k]);
        }
    }
    assert forall|p: int| 0 <= p < 2048 implies #[trigger] next.gfx[p] <= 1 by {
        let cell = m.gfx[p];
        assert(cell <= 1 ==> cell ^ 1 <= 1) by (bit_vector);
    }
    assert(tick(next).valid());
}

/// `7XNN` leaves in `VX` the sum of `VX` and `NN` modulo 256, and leaves every
/// other register, the flag too, as it was.
pub proof fn lemma_add_immediate(m: Machine, word: u16, random: u8)
    requires
        m.well_sized(),
        op_class(word) == 0x7000,
    ensures
        execute(m, word, random) is Ok,
        execute(m, word, random)->Ok_0.v == m.v.update(
            op_x(word) as int,
            ((m.v[op_x(word) as int] + op_nn(word)) % 256) as u8,
        ),
{
    lemma_field_ranges(word);
}

/// `8XY4`, `8XY5` and `8XY7`, on registers other than the flag register:
/// `VX` becomes the sum or difference modulo 256, and `VF` becomes 1 exactly
/// when the sum has a carry, or the difference has no borrow.
pub proof fn lemma_add_subtract(m: Machine, word: u16, random: u8)
    requires
        m.well_sized(),
        op_class(word) == 0x8000,
        op_n(word) == 0x4 || op_n(word) == 0x5 || op_n(word) == 0x7,
        op_x(word) != 0xF,
        op_y(word) != 0xF,
    ensures
        execute(m, word, random) is Ok,
        ({
            let x = op_x(word) as int;
            let a = m.v[x] as int;
            let b = m.v[op_y(word) as int] as int;
            let exact = if op_n(word) == 0x4 {
                a + b
            } else if op_n(word) == 0x5 {
                a - b
            } else {
                b - a
            };
            let flag: u8 = if (op_n(word) == 0x4 && exact > 255) || (op_n(word) != 0x4 && exact
                >= 0) {
                1
            } else {
                0
            };
            let after = execute(m, word, random)->Ok_0;
            &&& after.v[x] == exact % 256
            &&& after.v[15] == flag
            &&& after.v == m.v.update(15, flag).update(x, low_byte(exact))
        }),
{
    lemma_field_ranges(word);
}

/// `8XYE`, on a register other than the flag register: `VX` becomes twice
/// its value modulo 256, and `VF` the bit that was shifted out.
pub proof fn lemma_shift_left(m: Machine, word: u16, random: u8)
    requires
        m.well_sized(),
        op_class(word) == 0x8000,
        op_n(word) == 0xE,
        op_x(word) != 0xF,
    ensures
        execute(m, word, random) is Ok,
        ({
            let x = op_x(word) as int;
            let after = execute(m, word, random)->Ok_0;
            &&& after.v[x] == (m.v[x] * 2) % 256
            &&& after.v[15] == m.v[x] / 128
            &&& m.v[x] * 2 == 256 * after.v[15] + after.v[x]
        }),
{
    lemma_field_ranges(word);
    let a = m.v[op_x(word) as int];
    assert(a >> 7 == a / 128) by (bit_vector);
}

/// After `DXYN` the flag register holds 1 if some set bit of the sprite
/// fell on a cell that held 1, and 0 if none did.
pub proof fn lemma_draw_flags_collision(m: Machine, word: u16, random: u8)
    requires
        m.well_sized(),
        op_class(word) == 0xD000,
        execute(m, word, random) is Ok,
    ensures
        ({
            let after = execute(m, word, random)->Ok_0;
            let vx = m.v[op_x(word) as int];
            let vy = m.v[op_y(word) as int];
            let hit = exists|p: int|
                0 <= p < 2048 && #[trigger] sprite_covers(
                    m.memory,
                    m.i as int,
                    op_n(word) as int,
                    vx,
                    vy,
                    p,
                ) && m.gfx[p] == 1;
            &&& hit ==> after.v[15] == 1
            &&& !hit ==> after.v[15] == 0
            &&& after.draw_flag
        }),
{
    lemma_field_ranges(word);
}

/// Drawing a sprite twice at one place gives back the display as it was.
pub proof fn lemma_blit_twice(
    gfx: Seq<u8>,
    memory: Seq<u8>,
    index: int,
    height: int,
    vx: u8,
    vy: u8,
)
    requires
        gfx.len() == 2048,
    ensures
        blit(blit(gfx, memory, index, height, vx, vy), memory, index, height, vx, vy) == gfx,
{
    let once = blit(gfx, memory, index, height, vx, vy);
    let twice = blit(once, memory, index, height, vx, vy);
    assert forall|p: int| 0 <= p < 2048 implies twice[p] == gfx[p] by {
        let cell = gfx[p];
        assert((cell ^ 1) ^ 1 == cell) by (bit_vector);
    }
    assert(twice =~= gfx);
}

/// Executing one `DXYN` twice in succession, with coordinates from registers
/// other than the flag register, leaves the display as it was before the
/// first; the second draw raises the flag exactly when the first lit a cell.
pub proof fn lemma_draw_twice(m: Machine, word: u16, random: u8)
    requires
        m.valid(),
        op_class(word) == 0xD000,
        op_x(word) != 0xF,
        op_y(word) != 0xF,
        execute(m, word, random) is Ok,
    ensures
        ({
            let once = execute(m, word, random)->Ok_0;
            let twice = execute(once, word, random);
            let lit = exists|p: int|
                0 <= p < 2048 && #[trigger] sprite_covers(
                    m.memory,
                    m.i as int,
                    op_n(word) as int,
                    m.v[op_x(word) as int],
                    m.v[op_y(word) as int],
                    p,
                ) && m.gfx[p] == 0;
            &&& twice is Ok
            &&& twice->Ok_0.gfx == m.gfx
            &&& twice->Ok_0.v[15] == if lit {
                1u8
            } else {
                0u8
            }
        }),
{
    lemma_field_ranges(word);
    let vx = m.v[op_x(word) as int];
    let vy = m.v[op_y(word) as int];
    let n = op_n(word) as int;
    let once = execute(m, word, random)->Ok_0;
    lemma_blit_twice(m.gfx, m.memory, m.i as int, n, vx, vy);
    assert(once.gfx == blit(m.gfx, m.memory, m.i as int, n, vx, vy));
    assert forall|p: int|
        0 <= p < 2048 && sprite_covers(m.memory, m.i as int, n, vx, vy, p) implies (once.gfx[p]
        == 1 <==> m.gfx[p] == 0) by {
        let cell = m.gfx[p];
        assert(cell <= 1 ==> (cell ^ 1 == 1 <==> cell == 0)) by (bit_vector);
    }
    let lit = exists|p: int|
        0 <= p < 2048 && #[trigger] sprite_covers(m.memory, m.i as int, n, vx, vy, p) && m.gfx[p]
            == 0;
    let hit = collides(once.gfx, m.memory, m.i as int, n, vx, vy);
    if lit {
        let p = choose|p: int|
            0 <= p < 2048 && #[trigger] sprite_covers(m.memory, m.i as int, n, vx, vy, p)
                && m.gfx[p] == 0;
        assert(sprite_covers(m.memory, m.i as int, n, vx, vy, p) && once.gfx[p] == 1);
    }
    if hit {
        let p = choose|p: int|
            0 <= p < 2048 && #[trigger] sprite_covers(m.memory, m.i as int, n, vx, vy, p)
                && once.gfx[p] == 1;
        assert(sprite_covers(m.memory, m.i as int, n, vx, vy, p) && m.gfx[p] == 0);
    }
}

/// Where some key latch is set, one of them is the lowest.
pub proof fn lemma_first_key_exists(key: Seq<u8>, k: int)
    requires
        0 <= k < 16,
        key[k] != 0,
    ensures
        is_first_key(key, first_key(key)),
        first_key(key) <= k,
    decreases k,
{
    if exists|j: int| 0 <= j < k && key[j] != 0 {
        let j = choose|j: int| 0 <= j < k && key[j] != 0;
        lemma_first_key_exists(key, j);
    } else {
        assert(is_first_key(key, k));
        let chosen = first_key(key);
        if k < chosen {
            assert(key[k] == 0);
        }
    }
}

/// The key wait `FX0A`: a cycle on it with no latch set leaves the program
/// counter where it is, so that the next cycle meets the same instruction,
/// and only ticks the timers; a cycle with a latch set stores the lowest set
/// key in `VX` and moves on to the next instruction.
pub proof fn lemma_key_wait(m: Machine, random: u8)
    requires
        m.well_sized(),
        fetch(m) is Ok,
        op_class(fetch(m)->Ok_0) == 0xF000,
        op_nn(fetch(m)->Ok_0) == 0x0A,
    ensures
        no_key_set(m.key) ==> cycle(m, random) == Ok::<Machine, Fault>(tick(m)) && tick(m).pc
            == m.pc,
        !no_key_set(m.key) ==> ({
            let after = cycle(m, random)->Ok_0;
            let x = op_x(fetch(m)->Ok_0) as int;
            &&& cycle(m, random) is Ok
            &&& after.pc == m.pc + 2
            &&& is_first_key(m.key, after.v[x] as int)
            &&& after.key == m.key
        }),
{
    lemma_field_ranges(fetch(m)->Ok_0);
    if !no_key_set(m.key) {
        let k = choose|k: int| 0 <= k < 16 && m.key[k] != 0;
        lemma_first_key_exists(m.key, k);
    }
}

/// An instruction other than `CXNN` does the same whatever the random byte.
pub proof fn lemma_random_only_in_cxnn(m: Machine, word: u16, one: u8, other: u8)
    requires
        op_class(word) != 0xC000,
    ensures
        execute(m, word, one) == execute(m, word, other),
{
}

} // verus!
