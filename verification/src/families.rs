//! The instruction families that take more than a line: each as a method that
//! brings about what its spec function in `semantics` says.

use vstd::prelude::*;
use crate::arith::{wrapping_difference, wrapping_double, wrapping_sum};
use crate::chip8::Chip8;
use crate::decode::{lemma_field_ranges, Instruction};
use crate::display::draw_sprite;
use crate::errors::Fault;
use crate::semantics::{
    delivered, execute_alu, execute_draw, execute_key, execute_misc, execute_system, first_key,
    is_first_key, no_key_set,
};
use crate::state::Machine;

verus! {

impl Chip8 {
    /// Moves the program counter on by `by` bytes.
    pub(crate) fn advance(&mut self, by: u16)
        requires
            by <= 4,
        ensures
            final(self)@ == old(self)@.advance(by as int),
    {
        self.pc = ((self.pc as u32 + by as u32) % 0x10000) as u16;
    }

    /// Skips the next instruction when `taken`, and goes on to it otherwise.
    pub(crate) fn skip_if(&mut self, taken: bool)
        ensures
            final(self)@ == old(self)@.skip_if(taken),
    {
        if taken {
            self.advance(4);
        } else {
            self.advance(2);
        }
    }

    /// Writes the flag register.
    pub(crate) fn set_flag(&mut self, raised: bool)
        ensures
            final(self)@ == old(self)@.set_flag(raised),
    {
        self.v[15] = if raised {
            1
        } else {
            0
        };
    }

    /// The lowest key whose latch is set.
    pub(crate) fn first_pressed(&self) -> (found: Option<u8>)
        ensures
            found is None ==> no_key_set(self.key@),
            found matches Some(k) ==> is_first_key(self.key@, k as int) && first_key(self.key@)
                == k,
    {
        let mut k: u8 = 0;
        while k < 16
            invariant
                k <= 16,
                forall|j: int| 0 <= j < k ==> self.key@[j] == 0,
            decreases 16 - k,
        {
            if self.key[k as usize] != 0 {
                proof {
                    assert(is_first_key(self.key@, k as int));
                }
                return Some(k);
            }
            k += 1;
        }
        None
    }

    /// Family `0x0`.
    pub(crate) fn run_system(&mut self, ins: &Instruction) -> (res: Result<(), Fault>)
        requires
            ins.decoded(),
        ensures
            delivered(execute_system(old(self)@, ins.word), old(self)@, final(self)@, res),
    {
        if ins.n == 0x0 {
            let mut p: usize = 0;
            while p < 2048
                invariant
                    p <= 2048,
                    self@ == (Machine { gfx: self.gfx@, ..old(self)@ }),
                    forall|q: int| 0 <= q < p ==> self.gfx[q] == 0,
                decreases 2048 - p,
            {
                self.gfx[p] = 0;
                p += 1;
            }
            assert(self.gfx@ =~= Seq::new(2048, |p: int| 0u8));
            self.draw_flag = true;
            self.advance(2);
            Ok(())
        } else if ins.n == 0xE {
            if self.sp == 0 {
                return Err(Fault::StackUnderflow);
            }
            if self.sp > 16 {
                return Err(Fault::StackOverflow);
            }
            let back: u16 = self.stack[self.sp as usize - 1];
            if back > 0xFFFF - 2 {
                return Err(Fault::FetchOutOfBounds);
            }
            self.sp -= 1;
            self.pc = back + 2;
            Ok(())
        } else {
            self.pc = ins.nnn;
            Ok(())
        }
    }

    /// Family `0x8`.
    pub(crate) fn run_alu(&mut self, ins: &Instruction) -> (res: Result<(), Fault>)
        requires
            ins.decoded(),
        ensures
            delivered(execute_alu(old(self)@, ins.word), old(self)@, final(self)@, res),
    {
        proof {
            lemma_field_ranges(ins.word);
        }
        let x = ins.x;
        let y = ins.y;
        match ins.n {
            0x0 => {
                self.v[x] = self.v[y];
            },
            0x1 => {
                self.v[x] = self.v[x] | self.v[y];
            },
            0x2 => {
                self.v[x] = self.v[x] & self.v[y];
            },
            0x3 => {
                self.v[x] = self.v[x] ^ self.v[y];
            },
            0x4 => {
                self.set_flag(self.v[x] as u16 + self.v[y] as u16 > 255);
                self.v[x] = wrapping_sum(self.v[x], self.v[y]);
            },
            0x5 => {
                self.set_flag(self.v[x] >= self.v[y]);
                self.v[x] = wrapping_difference(self.v[x], self.v[y]);
            },
            0x6 => {
                self.v[15] = self.v[x] & 1;
                self.v[x] = self.v[x] >> 1;
            },
            0x7 => {
                self.set_flag(self.v[y] >= self.v[x]);
                self.v[x] = wrapping_difference(self.v[y], self.v[x]);
            },
            0xE => {
                self.v[15] = self.v[x] >> 7;
                self.v[x] = wrapping_double(self.v[x]);
            },
            _ => {
                return Err(Fault::UnknownOpcode);
            },
        }
        self.advance(2);
        Ok(())
    }

    /// `DXYN`.
    pub(crate) fn run_draw(&mut self, ins: &Instruction) -> (res: Result<(), Fault>)
        requires
            ins.decoded(),
        ensures
            delivered(execute_draw(old(self)@, ins.word), old(self)@, final(self)@, res),
    {
        proof {
            lemma_field_ranges(ins.word);
        }
        let vx = self.v[ins.x];
        let vy = self.v[ins.y];
        if ins.n > 0 && self.i as u32 + ins.n as u32 > 4096 {
            return Err(Fault::MemoryOutOfBounds);
        }
        let hit = draw_sprite(&mut self.gfx, &self.memory, self.i, ins.n, vx, vy);
        self.draw_flag = true;
        self.set_flag(hit);
        self.advance(2);
        Ok(())
    }

    /// Family `0xE`.
    pub(crate) fn run_key(&mut self, ins: &Instruction) -> (res: Result<(), Fault>)
        requires
            ins.decoded(),
        ensures
            delivered(execute_key(old(self)@, ins.word), old(self)@, final(self)@, res),
    {
        proof {
            lemma_field_ranges(ins.word);
        }
        if ins.nn != 0x9E && ins.nn != 0xA1 {
            return Err(Fault::UnknownOpcode);
        }
        let k = self.v[ins.x] as usize;
        if k >= 16 {
            return Err(Fault::InvalidKey);
        }
        if self.key[k] != 0 {
            self.key[k] = 0;
            self.skip_if(ins.nn == 0x9E);
        } else {
            self.skip_if(ins.nn == 0xA1);
        }
        Ok(())
    }

    /// Family `0xF`.
    pub(crate) fn run_misc(&mut self, ins: &Instruction) -> (res: Result<(), Fault>)
        requires
            ins.decoded(),
        ensures
            delivered(execute_misc(old(self)@, ins.word), old(self)@, final(self)@, res),
    {
        proof {
            lemma_field_ranges(ins.word);
        }
        let x = ins.x;
        match ins.nn {
            0x07 => {
                self.v[x] = self.delay_timer;
            },
            0x0A => {
                match self.first_pressed() {
                    None => {
                        return Ok(());
                    },
                    Some(k) => {
                        self.v[x] = k;
                    },
                }
            },
            0x15 => {
                self.delay_timer = self.v[x];
            },
            0x18 => {
                self.sound_timer = self.v[x];
            },
            0x1E => {
                self.set_flag(self.i as u32 + self.v[x] as u32 > 0xFFF);
                self.i = ((self.i as u32 + self.v[x] as u32) % 0x10000) as u16;
            },
            0x29 => {
                self.i = self.v[x] as u16 * 5;
            },
            0x33 => {
                if self.i as usize + 2 >= 4096 {
                    return Err(Fault::MemoryOutOfBounds);
                }
                let at = self.i as usize;
                let value = self.v[x];
                self.memory[at] = value / 100;
                self.memory[at + 1] = (value / 10) % 10;
                self.memory[at + 2] = value % 10;
            },
            0x55 => {
                if x > 0 && self.i as usize + x > 4096 {
                    return Err(Fault::MemoryOutOfBounds);
                }
                let at = self.i as usize;
                let mut k: usize = 0;
                while k < x
                    invariant
                        k <= x < 16,
                        at == self.i,
                        x > 0 ==> at + x <= 4096,
                        self@ == (Machine { memory: self.memory@, ..old(self)@ }),
                        forall|a: int| at <= a < at + k ==> self.memory[a] == self.v[a - at],
                        forall|a: int|
                            0 <= a < 4096 && !(at <= a < at + k) ==> self.memory[a] == old(
                                self,
                            ).memory[a],
                    decreases x - k,
                {
                    self.memory[at + k] = self.v[k];
                    k += 1;
                }
                assert(self.memory@ =~= Seq::new(
                    4096,
                    |a: int|
                        if at <= a < at + x {
                            old(self).v@[a - at]
                        } else {
                            old(self).memory@[a]
                        },
                ));
            },
            0x65 => {
                if x > 0 && self.i as usize + x > 4096 {
                    return Err(Fault::MemoryOutOfBounds);
                }
                let at = self.i as usize;
                let mut k: usize = 0;
                while k < x
                    invariant
                        k <= x < 16,
                        at == self.i,
                        x > 0 ==> at + x <= 4096,
                        self@ == (Machine { v: self.v@, ..old(self)@ }),
                        forall|j: int| 0 <= j < k ==> self.v[j] == self.memory[at + j],
                        forall|j: int| k <= j < 16 ==> self.v[j] == old(self).v[j],
                    decreases x - k,
                {
                    self.v[k] = self.memory[at + k];
                    k += 1;
                }
                assert(self.v@ =~= Seq::new(
                    16,
                    |k: int|
                        if k < x {
                            old(self).memory@[at + k]
                        } else {
                            old(self).v@[k]
                        },
                ));
            },
            _ => {
                return Err(Fault::UnknownOpcode);
            },
        }
        self.advance(2);
        Ok(())
    }
}

} // verus!
