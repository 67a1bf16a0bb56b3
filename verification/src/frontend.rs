//! The rules of the program around the machine that need no terminal: which
//! keyboard character stands for which key, what an input does to the
//! machine, where the screen goes, and how long to wait after a cycle.

use vstd::prelude::*;
use crate::chip8::Chip8;
use crate::state::Machine;

verus! {

/// Cycles run per second.
pub const CYCLES_PER_SECOND: u32 = 500;

/// Milliseconds that one cycle may take.
pub const TICKS_PER_CYCLE: u32 = 2;

/// The character that ends the program: escape.
pub const ESC: char = '\u{1b}';

/// The keyboard character of each key, by the key's number.
pub const KEY_MAP: [char; 16] = [
    'x', '1', '2', '3',
    'q', 'w', 'e', 'a',
    's', 'd', 'z', 'c',
    '4', 'r', 'f', 'v',
];

/// The key that the keyboard character `c` stands for, if it stands for one.
pub fn key_for(c: char) -> (found: Option<usize>)
    ensures
        found matches Some(k) ==> k < 16 && KEY_MAP[k as int] == c,
        found is None ==> forall|k: int| 0 <= k < 16 ==> KEY_MAP[k] != c,
{
    let mut k: usize = 0;
    while k < 16
        invariant
            k <= 16,
            forall|j: int| 0 <= j < k ==> KEY_MAP[j] != c,
        decreases 16 - k,
    {
        if KEY_MAP[k] == c {
            return Some(k);
        }
        k += 1;
    }
    None
}

/// What an input does to the key latches: a character that stands for a key
/// sets that key's latch to 1; anything else, escape too, changes nothing.
pub open spec fn pressed(m: Machine, input: Option<char>) -> Machine {
    Machine {
        key: Seq::new(
            16,
            |k: int|
                if input == Some(KEY_MAP[k]) {
                    1u8
                } else {
                    m.key[k]
                },
        ),
        ..m
    }
}

/// No two keys share a keyboard character, and escape is the character of
/// none.
pub proof fn lemma_keys_differ()
    ensures
        forall|j: int, k: int| 0 <= j < k < 16 ==> KEY_MAP[j] != KEY_MAP[k],
        forall|k: int| 0 <= k < 16 ==> KEY_MAP[k] != ESC,
{
}

/// Applies one input, `None` where there was none or it was no character, and
/// tells whether the program goes on: it does unless the input is escape.
pub fn process_input(chip8: &mut Chip8, input: Option<char>) -> (go_on: bool)
    ensures
        go_on == (input != Some(ESC)),
        final(chip8)@ == pressed(old(chip8)@, input),
{
    proof {
        lemma_keys_differ();
    }
    let go_on = match input {
        None => true,
        Some(c) => {
            if c == ESC {
                false
            } else {
                match key_for(c) {
                    Some(k) => {
                        chip8.key[k] = 1;
                    },
                    None => {},
                }
                true
            }
        },
    };
    assert(chip8.key@ =~= pressed(old(chip8)@, input).key);
    go_on
}

/// The row and column of the terminal at which the top left corner of the
/// framed screen goes, so that the screen stands in the middle of a terminal
/// of `rows` rows and `cols` columns. A terminal has no negative size.
pub fn get_offsets(rows: i32, cols: i32) -> (origin: (i32, i32))
    requires
        rows >= 0,
        cols >= 0,
    ensures
        origin.0 == rows / 2 - 16,
        origin.1 == cols / 2 - 32,
{
    (rows / 2 - 16, cols / 2 - 32)
}

/// The milliseconds still to wait after a cycle that took `elapsed`
/// milliseconds, or `None` where the cycle used up its time.
pub fn time_left(elapsed: u128) -> (left: Option<u64>)
    ensures
        elapsed < TICKS_PER_CYCLE ==> left == Some((TICKS_PER_CYCLE - elapsed) as u64),
        elapsed >= TICKS_PER_CYCLE ==> left is None,
{
    if elapsed < TICKS_PER_CYCLE as u128 {
        Some((TICKS_PER_CYCLE as u128 - elapsed) as u64)
    } else {
        None
    }
}

} // verus!
