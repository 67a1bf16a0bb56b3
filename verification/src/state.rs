//! The mathematical model of the machine: every architectural register and
//! array as a plain value or a sequence.

use vstd::prelude::*;

verus! {

/// Number of memory cells.
pub const MEMORY_SIZE: usize = 4096;

/// Address of the first byte of a loaded program.
pub const LOWER_MEMORY_BOUNDARY: usize = 512;

/// Width of the display in pixels.
pub const GRAPHICS_COLUMNS: usize = 64;

/// Height of the display in pixels.
pub const GRAPHICS_ROWS: usize = 32;

/// Number of display cells, one per pixel, row after row.
pub const GRAPHICS_ARRAY_SIZE: usize = 2048;

/// Number of return addresses the call stack holds.
pub const STACK_SIZE: usize = 16;

/// Number of keys on the keypad.
pub const KEYBOARD_ARRAY_SIZE: usize = 16;

/// Number of general-purpose registers.
pub const REGISTERS: usize = 16;

/// Number of bytes of the built-in font: sixteen glyphs of five rows each.
pub const FONT_SIZE: usize = 80;

/// The built-in font. Glyph `k` occupies the five bytes from `5 * k`; each
/// byte is one row, its high nibble the four pixels of the row.
pub const CHIP8_FONTSET: [u8; 80] = [
    0xF0, 0x90, 0x90, 0x90, 0xF0,
    0x20, 0x60, 0x20, 0x20, 0x70,
    0xF0, 0x10, 0xF0, 0x80, 0xF0,
    0xF0, 0x10, 0xF0, 0x10, 0xF0,
    0x90, 0x90, 0xF0, 0x10, 0x10,
    0xF0, 0x80, 0xF0, 0x10, 0xF0,
    0xF0, 0x80, 0xF0, 0x90, 0xF0,
    0xF0, 0x10, 0x20, 0x40, 0x40,
    0xF0, 0x90, 0xF0, 0x90, 0xF0,
    0xF0, 0x90, 0xF0, 0x10, 0xF0,
    0xF0, 0x90, 0xF0, 0x90, 0x90,
    0xE0, 0x90, 0xE0, 0x90, 0xE0,
    0xF0, 0x80, 0x80, 0x80, 0xF0,
    0xE0, 0x90, 0x90, 0x90, 0xE0,
    0xF0, 0x80, 0xF0, 0x80, 0xF0,
    0xF0, 0x80, 0xF0, 0x80, 0x80,
];

/// The whole state of the machine as mathematical values.
pub struct Machine {
    /// Memory, 4096 cells.
    pub memory: Seq<u8>,
    /// The sixteen registers `V0` to `VF`.
    pub v: Seq<u8>,
    /// The index register.
    pub i: u16,
    /// The program counter.
    pub pc: u16,
    /// The display, one cell per pixel, row after row; a lit pixel holds 1.
    pub gfx: Seq<u8>,
    /// The delay timer.
    pub delay_timer: u8,
    /// The sound timer.
    pub sound_timer: u8,
    /// The slots of the call stack.
    pub stack: Seq<u16>,
    /// Number of return addresses on the call stack.
    pub sp: u8,
    /// The key latches; a set latch holds a value other than 0.
    pub key: Seq<u8>,
    /// Whether the display changed since the flag was last cleared.
    pub draw_flag: bool,
}

impl Machine {
    /// Every array has the size the machine gives it.
    pub open spec fn well_sized(self) -> bool {
        &&& self.memory.len() == 4096
        &&& self.v.len() == 16
        &&& self.gfx.len() == 2048
        &&& self.stack.len() == 16
        &&& self.key.len() == 16
    }

    /// The invariant of a running machine: the stack pointer stays within the
    /// stack, every return address on the stack is one an instruction was
    /// fetched from, and every display cell is one bit.
    pub open spec fn valid(self) -> bool {
        &&& self.well_sized()
        &&& self.sp <= 16
        &&& forall|k: int| 0 <= k < self.sp ==> fetchable(#[trigger] self.stack[k])
        &&& forall|p: int| 0 <= p < 2048 ==> #[trigger] self.gfx[p] <= 1
    }

    /// The machine at power-on: the font at the bottom of memory, everything
    /// else zero, and the program counter at the load address.
    pub open spec fn initial() -> Machine {
        Machine {
            memory: Seq::new(4096, |a: int| if a < 80 { CHIP8_FONTSET@[a] } else { 0u8 }),
            v: Seq::new(16, |k: int| 0u8),
            i: 0,
            pc: 0x200,
            gfx: Seq::new(2048, |p: int| 0u8),
            delay_timer: 0,
            sound_timer: 0,
            stack: Seq::new(16, |k: int| 0u16),
            sp: 0,
            key: Seq::new(16, |k: int| 0u8),
            draw_flag: false,
        }
    }

    /// This machine with `image` copied into memory from the load address on.
    pub open spec fn with_image(self, image: Seq<u8>) -> Machine {
        Machine {
            memory: Seq::new(
                4096,
                |a: int| if 512 <= a < 512 + image.len() { image[a - 512] } else { self.memory[a] },
            ),
            ..self
        }
    }
}

/// An address an instruction can be fetched from: even, with both bytes of
/// the instruction inside memory.
pub open spec fn fetchable(pc: u16) -> bool {
    pc % 2 == 0 && pc + 1 < 4096
}

} // verus!
