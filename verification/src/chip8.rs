//! The machine itself: its state as one plain value, and the operations that
//! load a program into it and run it one cycle at a time.

use vstd::prelude::*;
use crate::arith::wrapping_sum;
use crate::decode::{decode, read_word};
use crate::display::{render, rendered};
use crate::entropy::random_byte;
use crate::errors::{Fault, ProgramTooLargeError};
use crate::laws::{lemma_cycle_keeps_valid, lemma_loaded_is_valid};
use crate::semantics::{cycle, delivered, execute, fetch, tick, wants_random};
use crate::state::{Machine, CHIP8_FONTSET};

verus! {

/// The state of the machine. Memory holds the font in its first 80 cells and
/// the program from cell 512 on.
pub struct Chip8 {
    /// Program memory.
    pub memory: [u8; 4096],
    /// The registers `V0` to `VF`.
    pub v: [u8; 16],
    /// The index register.
    pub i: u16,
    /// The program counter.
    pub pc: u16,
    /// The display, one cell per pixel, row after row; a lit pixel holds 1.
    pub gfx: [u8; 2048],
    /// The delay timer.
    pub delay_timer: u8,
    /// The sound timer; a tone sounds while it is not zero.
    pub sound_timer: u8,
    /// The call stack.
    pub stack: [u16; 16],
    /// Number of return addresses on the call stack.
    pub sp: u8,
    /// The key latches; the embedding program sets a latch to 1 on a press.
    pub key: [u8; 16],
    /// Set when an instruction changed the display; cleared by whoever
    /// renders it.
    pub draw_flag: bool,
}

impl View for Chip8 {
    type V = Machine;

    open spec fn view(&self) -> Machine {
        Machine {
            memory: self.memory@,
            v: self.v@,
            i: self.i,
            pc: self.pc,
            gfx: self.gfx@,
            delay_timer: self.delay_timer,
            sound_timer: self.sound_timer,
            stack: self.stack@,
            sp: self.sp,
            key: self.key@,
            draw_flag: self.draw_flag,
        }
    }
}

impl Chip8 {
    /// A machine at power-on.
    pub fn new() -> (chip8: Self)
        ensures
            chip8@ == Machine::initial(),
            chip8@.valid(),
    {
        proof {
            lemma_loaded_is_valid(Seq::empty());
        }
        let mut chip8 = Chip8 {
            memory: [0u8; 4096],
            v: [0u8; 16],
            i: 0,
            pc: 0x200,
            gfx: [0u8; 2048],
            delay_timer: 0,
            sound_timer: 0,
            stack: [0u16; 16],
            sp: 0,
            key: [0u8; 16],
            draw_flag: false,
        };
        proof {
            let power_on = Machine::initial();
            assert(chip8.v@ =~= power_on.v);
            assert(chip8.gfx@ =~= power_on.gfx);
            assert(chip8.stack@ =~= power_on.stack);
            assert(chip8.key@ =~= power_on.key);
        }
        let mut at: usize = 0;
        while at < 80
            invariant
                at <= 80,
                forall|a: int| 0 <= a < at ==> chip8.memory[a] == CHIP8_FONTSET[a],
                forall|a: int| at <= a < 4096 ==> chip8.memory[a] == 0,
                chip8@ == (Machine { memory: chip8.memory@, ..Machine::initial() }),
            decreases 80 - at,
        {
            chip8.memory[at] = CHIP8_FONTSET[at];
            at += 1;
        }
        assert(chip8.memory@ =~= Machine::initial().memory);
        chip8
    }

    /// Resets the machine to power-on and copies `program` into memory from
    /// cell 512 on. A program longer than the 3584 cells from there to the
    /// end of memory is refused, and the machine stays as it is.
    pub fn load_program(&mut self, program: Vec<u8>) -> (res: Result<(), ProgramTooLargeError>)
        ensures
            program.len() <= 4096 - 512 ==> res is Ok && final(self)@ == Machine::initial().with_image(
                program@,
            ),
            program.len() > 4096 - 512 ==> res is Err && final(self)@ == old(self)@,
            res is Ok ==> final(self)@.valid(),
    {
        proof {
            lemma_loaded_is_valid(program@);
        }
        if program.len() > 4096 - 512 {
            return Err(ProgramTooLargeError);
        }
        *self = Chip8::new();
        let ghost fresh = self@;
        let mut at: usize = 0;
        while at < program.len()
            invariant
                at <= program.len() <= 4096 - 512,
                fresh == Machine::initial(),
                self@ == (Machine { memory: self.memory@, ..fresh }),
                forall|a: int| 512 <= a < 512 + at ==> self.memory[a] == program[a - 512],
                forall|a: int|
                    0 <= a < 4096 && !(512 <= a < 512 + at) ==> self.memory[a] == fresh.memory[a],
            decreases program.len() - at,
        {
            self.memory[at + 512] = program[at];
            at += 1;
        }
        assert(self.memory@ =~= fresh.with_image(program@).memory);
        Ok(())
    }

    /// Runs one cycle: fetches the instruction at the program counter,
    /// executes it and ticks the timers. Only `CXNN` draws a byte from the
    /// random source; for every other instruction the outcome is the one
    /// that `cycle` gives for any byte. A cycle succeeds only from an even
    /// program counter inside memory, and a fault leaves the machine as it
    /// was.
    pub fn execute_cycle(&mut self) -> (res: Result<(), Fault>)
        ensures
            exists|random: u8|
                delivered(#[trigger] cycle(old(self)@, random), old(self)@, final(self)@, res),
            !wants_random(old(self)@) ==> delivered(
                cycle(old(self)@, 0),
                old(self)@,
                final(self)@,
                res,
            ),
            res is Ok ==> old(self).pc % 2 == 0 && old(self).pc + 1 < 4096,
            old(self)@.valid() ==> final(self)@.valid(),
    {
        let word = match self.fetch() {
            Ok(word) => word,
            Err(fault) => {
                return Err(fault);
            },
        };
        let random = if word & 0xF000 == 0xC000 {
            random_byte()
        } else {
            0
        };
        self.finish_cycle(word, random)
    }

    /// Runs one cycle in which `CXNN`, if that is the instruction, takes
    /// `random` as its random byte.
    pub fn execute_cycle_with(&mut self, random: u8) -> (res: Result<(), Fault>)
        ensures
            delivered(cycle(old(self)@, random), old(self)@, final(self)@, res),
            old(self)@.valid() ==> final(self)@.valid(),
    {
        match self.fetch() {
            Ok(word) => self.finish_cycle(word, random),
            Err(fault) => Err(fault),
        }
    }

    /// The instruction word at the program counter.
    pub fn fetch(&self) -> (res: Result<u16, Fault>)
        ensures
            res == fetch(self@),
    {
        let word = match read_word(&self.memory, self.pc) {
            Ok(word) => word,
            Err(fault) => {
                return Err(fault);
            },
        };
        if self.pc % 2 != 0 {
            return Err(Fault::MisalignedProgramCounter);
        }
        Ok(word)
    }

    /// The rest of a cycle after the fetch of `word`: executes the
    /// instruction and, unless it ended in a fault, ticks the timers.
    fn finish_cycle(&mut self, word: u16, random: u8) -> (res: Result<(), Fault>)
        requires
            fetch(old(self)@) == Ok::<u16, Fault>(word),
        ensures
            delivered(cycle(old(self)@, random), old(self)@, final(self)@, res),
            old(self)@.valid() ==> final(self)@.valid(),
    {
        proof {
            if old(self)@.valid() && cycle(old(self)@, random) is Ok {
                lemma_cycle_keeps_valid(old(self)@, random);
            }
        }
        match self.process_opcode(word, random) {
            Ok(()) => {
                self.update_timers();
                Ok(())
            },
            Err(fault) => Err(fault),
        }
    }

    /// Counts both timers down by one, stopping at zero.
    pub fn update_timers(&mut self)
        ensures
            final(self)@ == tick(old(self)@),
    {
        if self.delay_timer > 0 {
            self.delay_timer -= 1;
        }
        if self.sound_timer > 0 {
            self.sound_timer -= 1;
        }
    }

    /// Executes the instruction `opcode`, with `random` as the byte that
    /// `CXNN` takes from the random source.
    pub fn process_opcode(&mut self, opcode: u16, random: u8) -> (res: Result<(), Fault>)
        ensures
            delivered(execute(old(self)@, opcode, random), old(self)@, final(self)@, res),
    {
        let ins = decode(opcode);
        let x = ins.x;
        let y = ins.y;
        match ins.class {
            0x0000 => self.run_system(&ins),
            0x1000 => {
                self.pc = ins.nnn;
                Ok(())
            },
            0x2000 => {
                if self.sp >= 16 {
                    return Err(Fault::StackOverflow);
                }
                self.stack[self.sp as usize] = self.pc;
                self.sp += 1;
                self.pc = ins.nnn;
                Ok(())
            },
            0x3000 => {
                self.skip_if(self.v[x] == ins.nn);
                Ok(())
            },
            0x4000 => {
                self.skip_if(self.v[x] != ins.nn);
                Ok(())
            },
            0x5000 => {
                self.skip_if(self.v[x] == self.v[y]);
                Ok(())
            },
            0x6000 => {
                self.v[x] = ins.nn;
                self.advance(2);
                Ok(())
            },
            0x7000 => {
                self.v[x] = wrapping_sum(self.v[x], ins.nn);
                self.advance(2);
                Ok(())
            },
            0x8000 => self.run_alu(&ins),
            0x9000 => {
                self.skip_if(self.v[x] != self.v[y]);
                Ok(())
            },
            0xA000 => {
                self.i = ins.nnn;
                self.advance(2);
                Ok(())
            },
            0xB000 => {
                self.pc = ins.nnn + self.v[0] as u16;
                Ok(())
            },
            0xC000 => {
                self.v[x] = random & ins.nn;
                self.advance(2);
                Ok(())
            },
            0xD000 => self.run_draw(&ins),
            0xE000 => self.run_key(&ins),
            0xF000 => self.run_misc(&ins),
            _ => Err(Fault::UnknownOpcode),
        }
    }

    /// Clears every key latch.
    pub fn clear_keys(&mut self)
        ensures
            final(self)@ == (Machine { key: Seq::new(16, |k: int| 0u8), ..old(self)@ }),
    {
        let mut k: usize = 0;
        while k < 16
            invariant
                k <= 16,
                self@ == (Machine { key: self.key@, ..old(self)@ }),
                forall|j: int| 0 <= j < k ==> self.key[j] == 0,
            decreases 16 - k,
        {
            self.key[k] = 0;
            k += 1;
        }
        assert(self.key@ =~= Seq::new(16, |k: int| 0u8));
    }

    /// The display as text: one line of 64 characters per row, `*` for a lit
    /// pixel and a blank for a dark one, the lines joined by newlines.
    pub fn to_string(&self) -> (text: String)
        ensures
            text@ == rendered(self.gfx@),
    {
        render(&self.gfx)
    }
}

} // verus!
