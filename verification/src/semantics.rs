//! What one instruction, and one cycle, does to the machine, as functions on
//! the mathematical model.

use vstd::prelude::*;
use crate::arith::low_byte;
use crate::decode::{op_class, op_n, op_nn, op_nnn, op_x, op_y, word_at};
use crate::display::{blit, collides};
use crate::errors::Fault;
use crate::state::Machine;

verus! {

impl Machine {
    /// This machine with the program counter moved on by `by` bytes, wrapping
    /// at 16 bits.
    pub open spec fn advance(self, by: int) -> Machine {
        Machine { pc: ((self.pc + by) % 0x10000) as u16, ..self }
    }

    /// This machine with the program counter set to `to`.
    pub open spec fn jump(self, to: u16) -> Machine {
        Machine { pc: to, ..self }
    }

    /// This machine after a conditional skip: past the next instruction when
    /// `taken`, on to the next instruction otherwise.
    pub open spec fn skip_if(self, taken: bool) -> Machine {
        self.advance(
            if taken {
                4
            } else {
                2
            },
        )
    }

    /// This machine with register `x` holding `value`.
    pub open spec fn set_v(self, x: int, value: u8) -> Machine {
        Machine { v: self.v.update(x, value), ..self }
    }

    /// This machine with the flag register `VF` holding 1 when `raised` and 0
    /// otherwise.
    pub open spec fn set_flag(self, raised: bool) -> Machine {
        self.set_v(
            15,
            if raised {
                1u8
            } else {
                0u8
            },
        )
    }

    /// This machine with key latch `k` cleared.
    pub open spec fn release(self, k: int) -> Machine {
        Machine { key: self.key.update(k, 0u8), ..self }
    }
}

/// No key latch is set.
pub open spec fn no_key_set(key: Seq<u8>) -> bool {
    forall|k: int| 0 <= k < 16 ==> key[k] == 0
}

/// Latch `k` is set and no latch below it is.
pub open spec fn is_first_key(key: Seq<u8>, k: int) -> bool {
    &&& 0 <= k < 16
    &&& key[k] != 0
    &&& forall|j: int| 0 <= j < k ==> key[j] == 0
}

/// The lowest key whose latch is set, where there is one.
pub open spec fn first_key(key: Seq<u8>) -> int {
    choose|k: int| is_first_key(key, k)
}

/// Family `0x0`: the low nibble selects clearing the screen (`0`), returning
/// from a subroutine (`0xE`), or else the legacy jump to `NNN`.
pub open spec fn execute_system(m: Machine, word: u16) -> Result<Machine, Fault> {
    if op_n(word) == 0x0 {
        Ok(Machine { gfx: Seq::new(2048, |p: int| 0u8), draw_flag: true, ..m }.advance(2))
    } else if op_n(word) == 0xE {
        if m.sp == 0 {
            Err(Fault::StackUnderflow)
        } else if m.sp > 16 {
            Err(Fault::StackOverflow)
        } else if m.stack[m.sp - 1] + 2 > 0xFFFF {
            Err(Fault::FetchOutOfBounds)
        } else {
            Ok(Machine { sp: (m.sp - 1) as u8, ..m }.jump((m.stack[m.sp - 1] + 2) as u16))
        }
    } else {
        Ok(m.jump(op_nnn(word)))
    }
}

/// `2NNN`: pushes the address of the call and jumps to `NNN`.
pub open spec fn execute_call(m: Machine, word: u16) -> Result<Machine, Fault> {
    if m.sp >= 16 {
        Err(Fault::StackOverflow)
    } else {
        Ok(
            Machine { stack: m.stack.update(m.sp as int, m.pc), sp: (m.sp + 1) as u8, ..m }.jump(
                op_nnn(word),
            ),
        )
    }
}

/// Family `0x8`: register-to-register arithmetic and logic. An instruction
/// that sets the flag writes `VF` first and computes its result from the
/// registers as they then stand, so with `X` or `Y` equal to `0xF` the
/// result is made from the flag.
pub open spec fn execute_alu(m: Machine, word: u16) -> Result<Machine, Fault> {
    let x = op_x(word) as int;
    let y = op_y(word) as int;
    let n = op_n(word);
    if n == 0x0 {
        Ok(m.set_v(x, m.v[y]).advance(2))
    } else if n == 0x1 {
        Ok(m.set_v(x, m.v[x] | m.v[y]).advance(2))
    } else if n == 0x2 {
        Ok(m.set_v(x, m.v[x] & m.v[y]).advance(2))
    } else if n == 0x3 {
        Ok(m.set_v(x, m.v[x] ^ m.v[y]).advance(2))
    } else if n == 0x4 {
        let f = m.set_flag(m.v[x] + m.v[y] > 255);
        Ok(f.set_v(x, low_byte(f.v[x] + f.v[y])).advance(2))
    } else if n == 0x5 {
        let f = m.set_flag(m.v[x] >= m.v[y]);
        Ok(f.set_v(x, low_byte(f.v[x] - f.v[y])).advance(2))
    } else if n == 0x6 {
        let f = m.set_v(15, m.v[x] & 1);
        Ok(f.set_v(x, f.v[x] >> 1).advance(2))
    } else if n == 0x7 {
        let f = m.set_flag(m.v[y] >= m.v[x]);
        Ok(f.set_v(x, low_byte(f.v[y] - f.v[x])).advance(2))
    } else if n == 0xE {
        let f = m.set_v(15, m.v[x] >> 7);
        Ok(f.set_v(x, low_byte(f.v[x] * 2)).advance(2))
    } else {
        Err(Fault::UnknownOpcode)
    }
}

/// `DXYN`: draws the `N` sprite rows at the index register with the top left
/// corner at `(VX, VY)`, both read before the flag is written, and sets `VF`
/// to 1 exactly when the sprite hit a lit cell. A sprite of no rows reads no
/// memory.
pub open spec fn execute_draw(m: Machine, word: u16) -> Result<Machine, Fault> {
    let n = op_n(word) as int;
    let vx = m.v[op_x(word) as int];
    let vy = m.v[op_y(word) as int];
    if n > 0 && m.i + n > 4096 {
        Err(Fault::MemoryOutOfBounds)
    } else {
        Ok(
            Machine {
                gfx: blit(m.gfx, m.memory, m.i as int, n, vx, vy),
                draw_flag: true,
                ..m
            }.set_flag(collides(m.gfx, m.memory, m.i as int, n, vx, vy)).advance(2),
        )
    }
}

/// Family `0xE`: skips on the state of the key latch that `VX` names, and
/// clears that latch where it was set.
pub open spec fn execute_key(m: Machine, word: u16) -> Result<Machine, Fault> {
    let k = m.v[op_x(word) as int] as int;
    let nn = op_nn(word);
    if nn != 0x9E && nn != 0xA1 {
        Err(Fault::UnknownOpcode)
    } else if k >= 16 {
        Err(Fault::InvalidKey)
    } else if m.key[k] != 0 {
        Ok(m.release(k).skip_if(nn == 0x9E))
    } else {
        Ok(m.skip_if(nn == 0xA1))
    }
}

/// Family `0xF`: timers, the key wait, the index register and the transfers
/// between registers and memory.
pub open spec fn execute_misc(m: Machine, word: u16) -> Result<Machine, Fault> {
    let x = op_x(word) as int;
    let nn = op_nn(word);
    let i = m.i as int;
    if nn == 0x07 {
        Ok(m.set_v(x, m.delay_timer).advance(2))
    } else if nn == 0x0A {
        if no_key_set(m.key) {
            Ok(m)
        } else {
            Ok(m.set_v(x, first_key(m.key) as u8).advance(2))
        }
    } else if nn == 0x15 {
        Ok(Machine { delay_timer: m.v[x], ..m }.advance(2))
    } else if nn == 0x18 {
        Ok(Machine { sound_timer: m.v[x], ..m }.advance(2))
    } else if nn == 0x1E {
        let f = m.set_flag(m.i + m.v[x] > 0xFFF);
        Ok(Machine { i: ((f.i + f.v[x]) % 0x10000) as u16, ..f }.advance(2))
    } else if nn == 0x29 {
        Ok(Machine { i: (m.v[x] * 5) as u16, ..m }.advance(2))
    } else if nn == 0x33 {
        if i + 2 >= 4096 {
            Err(Fault::MemoryOutOfBounds)
        } else {
            Ok(
                Machine {
                    memory: m.memory.update(i, m.v[x] / 100).update(
                        i + 1,
                        (m.v[x] / 10) % 10,
                    ).update(i + 2, m.v[x] % 10),
                    ..m
                }.advance(2),
            )
        }
    } else if nn == 0x55 {
        if x > 0 && i + x > 4096 {
            Err(Fault::MemoryOutOfBounds)
        } else {
            Ok(
                Machine {
                    memory: Seq::new(
                        4096,
                        |a: int|
                            if i <= a < i + x {
                                m.v[a - i]
                            } else {
                                m.memory[a]
                            },
                    ),
                    ..m
                }.advance(2),
            )
        }
    } else if nn == 0x65 {
        if x > 0 && i + x > 4096 {
            Err(Fault::MemoryOutOfBounds)
        } else {
            Ok(
                Machine {
                    v: Seq::new(
                        16,
                        |k: int|
                            if k < x {
                                m.memory[i + k]
                            } else {
                                m.v[k]
                            },
                    ),
                    ..m
                }.advance(2),
            )
        }
    } else {
        Err(Fault::UnknownOpcode)
    }
}

/// Whether `word` is the instruction that draws a random byte, `CXNN`.
pub open spec fn draws_random(word: u16) -> bool {
    op_class(word) == 0xC000
}

/// The machine after the instruction `word`, or the fault that the
/// instruction ends in. `random` is the byte that `CXNN` takes from the
/// random source; no other instruction looks at it.
pub open spec fn execute(m: Machine, word: u16, random: u8) -> Result<Machine, Fault> {
    let c = op_class(word);
    let x = op_x(word) as int;
    let y = op_y(word) as int;
    let nn = op_nn(word) as u8;
    let nnn = op_nnn(word);
    if c == 0x0000 {
        execute_system(m, word)
    } else if c == 0x1000 {
        Ok(m.jump(nnn))
    } else if c == 0x2000 {
        execute_call(m, word)
    } else if c == 0x3000 {
        Ok(m.skip_if(m.v[x] == nn))
    } else if c == 0x4000 {
        Ok(m.skip_if(m.v[x] != nn))
    } else if c == 0x5000 {
        Ok(m.skip_if(m.v[x] == m.v[y]))
    } else if c == 0x6000 {
        Ok(m.set_v(x, nn).advance(2))
    } else if c == 0x7000 {
        Ok(m.set_v(x, low_byte(m.v[x] + nn)).advance(2))
    } else if c == 0x8000 {
        execute_alu(m, word)
    } else if c == 0x9000 {
        Ok(m.skip_if(m.v[x] != m.v[y]))
    } else if c == 0xA000 {
        Ok(Machine { i: nnn, ..m }.advance(2))
    } else if c == 0xB000 {
        Ok(m.jump((nnn + m.v[0]) as u16))
    } else if c == 0xC000 {
        Ok(m.set_v(x, random & nn).advance(2))
    } else if c == 0xD000 {
        execute_draw(m, word)
    } else if c == 0xE000 {
        execute_key(m, word)
    } else if c == 0xF000 {
        execute_misc(m, word)
    } else {
        Err(Fault::UnknownOpcode)
    }
}

/// The machine after one tick of both timers: each goes down by one unless
/// it is already zero.
pub open spec fn tick(m: Machine) -> Machine {
    Machine {
        delay_timer: if m.delay_timer > 0 {
            (m.delay_timer - 1) as u8
        } else {
            0
        },
        sound_timer: if m.sound_timer > 0 {
            (m.sound_timer - 1) as u8
        } else {
            0
        },
        ..m
    }
}

/// The instruction word at the program counter, or the fault that stops the
/// fetch: the counter must leave room for both bytes, and must be even.
pub open spec fn fetch(m: Machine) -> Result<u16, Fault> {
    if m.pc + 1 >= 4096 {
        Err(Fault::FetchOutOfBounds)
    } else if m.pc % 2 != 0 {
        Err(Fault::MisalignedProgramCounter)
    } else {
        Ok(word_at(m.memory, m.pc as int))
    }
}

/// Whether the cycle that starts in `m` draws a byte from the random source:
/// the fetch succeeds and the instruction is `CXNN`.
pub open spec fn wants_random(m: Machine) -> bool {
    match fetch(m) {
        Ok(word) => draws_random(word),
        Err(_) => false,
    }
}

/// One cycle: fetch, execute, then tick the timers. A fault in the fetch or
/// in the instruction ends the cycle before anything has changed.
pub open spec fn cycle(m: Machine, random: u8) -> Result<Machine, Fault> {
    match fetch(m) {
        Err(fault) => Err(fault),
        Ok(word) => match execute(m, word, random) {
            Err(fault) => Err(fault),
            Ok(next) => Ok(tick(next)),
        },
    }
}

/// Whether a call that was to bring about `expected` did so: on success the
/// machine is the expected one, on a fault the result names the fault and the
/// machine is as it was.
pub open spec fn delivered(
    expected: Result<Machine, Fault>,
    before: Machine,
    after: Machine,
    res: Result<(), Fault>,
) -> bool {
    match expected {
        Ok(m) => res is Ok && after == m,
        Err(fault) => res == Err::<(), Fault>(fault) && after == before,
    }
}

} // verus!
