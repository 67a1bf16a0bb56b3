//! Fetching an instruction word from memory and splitting it into the fields
//! that the instruction table speaks of.

use vstd::prelude::*;
use crate::errors::Fault;

verus! {

/// The family of an instruction: the word with all but its top nibble cleared.
pub open spec fn op_class(word: u16) -> u16 {
    word & 0xF000
}

/// The first register operand, `X`.
pub open spec fn op_x(word: u16) -> u16 {
    (word & 0x0F00) >> 8
}

/// The second register operand, `Y`.
pub open spec fn op_y(word: u16) -> u16 {
    (word & 0x00F0) >> 4
}

/// The four-bit immediate, `N`.
pub open spec fn op_n(word: u16) -> u16 {
    word & 0x000F
}

/// The eight-bit immediate, `NN`.
pub open spec fn op_nn(word: u16) -> u16 {
    word & 0x00FF
}

/// The twelve-bit address, `NNN`.
pub open spec fn op_nnn(word: u16) -> u16 {
    word & 0x0FFF
}

/// The big-endian word made of the two bytes at `at` and `at + 1`.
pub open spec fn word_at(memory: Seq<u8>, at: int) -> u16 {
    (memory[at] as u16) << 8 | (memory[at + 1] as u16)
}

/// The fields of an instruction word are as narrow as their names say, and
/// each is made of the hexadecimal digits of the word that its name stands
/// for.
pub proof fn lemma_field_ranges(word: u16)
    ensures
        op_x(word) < 16,
        op_y(word) < 16,
        op_n(word) < 16,
        op_nn(word) < 256,
        op_nnn(word) < 4096,
        op_nn(word) == word % 256,
        op_nnn(word) == word % 4096,
        op_n(word) == word % 16,
        op_x(word) == (word / 256) % 16,
        op_y(word) == (word / 16) % 16,
        op_class(word) == (word / 4096) * 4096,
{
    assert(((word & 0x0F00) >> 8) < 16 && ((word & 0x00F0) >> 4) < 16 && (word & 0x000F) < 16
        && (word & 0x00FF) < 256 && (word & 0x0FFF) < 4096 && (word & 0x00FF) == word % 256
        && (word & 0x0FFF) == word % 4096 && (word & 0x000F) == word % 16 && ((word & 0x0F00)
        >> 8) == (word / 256) % 16 && ((word & 0x00F0) >> 4) == (word / 16) % 16 && (word
        & 0xF000) == (word / 4096) * 4096) by (bit_vector);
}

/// An instruction word with its operand fields.
#[derive(Debug, Clone, Copy)]
pub struct Instruction {
    /// The word itself.
    pub word: u16,
    /// The family, `word & 0xF000`.
    pub class: u16,
    /// Register operand `X`.
    pub x: usize,
    /// Register operand `Y`.
    pub y: usize,
    /// Immediate `N`.
    pub n: u8,
    /// Immediate `NN`.
    pub nn: u8,
    /// Address `NNN`.
    pub nnn: u16,
}

impl Instruction {
    /// The fields are those of `self.word`.
    pub open spec fn decoded(self) -> bool {
        &&& self.class == op_class(self.word)
        &&& self.x == op_x(self.word)
        &&& self.y == op_y(self.word)
        &&& self.n == op_n(self.word)
        &&& self.nn == op_nn(self.word)
        &&& self.nnn == op_nnn(self.word)
    }
}

/// Splits `word` into its fields.
pub fn decode(word: u16) -> (ins: Instruction)
    ensures
        ins.word == word,
        ins.decoded(),
        ins.x < 16,
        ins.y < 16,
        ins.n < 16,
        ins.nnn < 4096,
{
    proof {
        lemma_field_ranges(word);
    }
    Instruction {
        word,
        class: word & 0xF000,
        x: ((word & 0x0F00) >> 8) as usize,
        y: ((word & 0x00F0) >> 4) as usize,
        n: (word & 0x000F) as u8,
        nn: (word & 0x00FF) as u8,
        nnn: word & 0x0FFF,
    }
}

/// Reads the instruction word at `index`: the byte there is the high half,
/// the next byte the low half. Fails exactly when the second byte would lie
/// outside memory.
pub fn read_word(memory: &[u8; 4096], index: u16) -> (res: Result<u16, Fault>)
    ensures
        index + 1 < 4096 ==> res == Ok::<u16, Fault>(word_at(memory@, index as int)),
        index + 1 >= 4096 ==> res == Err::<u16, Fault>(Fault::FetchOutOfBounds),
{
    if index >= 4095 {
        return Err(Fault::FetchOutOfBounds);
    }
    let high: u16 = memory[index as usize] as u16;
    let low: u16 = memory[index as usize + 1] as u16;
    Ok(high << 8 | low)
}

} // verus!
