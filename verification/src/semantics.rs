//! The meaning of every instruction word, as a function from machine state
//! to machine state.

use vstd::prelude::*;
use crate::machine::{Fault, Machine};
use crate::sprite::{collides, draw};

verus! {

/// The highest four bits of an instruction word: its family.
pub open spec fn op_family(op: u16) -> int {
    op as int / 4096
}

/// The second four bits: the index of the first register operand.
pub open spec fn op_x(op: u16) -> int {
    (op as int / 256) % 16
}

/// The third four bits: the index of the second register operand.
pub open spec fn op_y(op: u16) -> int {
    (op as int / 16) % 16
}

/// The lowest four bits.
pub open spec fn op_n(op: u16) -> int {
    op as int % 16
}

/// The low byte: an immediate value, or a selector within a family.
pub open spec fn op_nn(op: u16) -> u8 {
    (op as int % 256) as u8
}

/// The low twelve bits: an address.
pub open spec fn op_nnn(op: u16) -> int {
    op as int % 4096
}

/// 1 for `true`, 0 for `false`: the value a flag takes in register 15.
pub open spec fn flag(b: bool) -> u8 {
    if b {
        1u8
    } else {
        0u8
    }
}

/// Whether any key is held down.
pub open spec fn any_key_down(keys: Seq<bool>) -> bool {
    exists|k: int| 0 <= k < 16 && #[trigger] keys[k]
}

/// Whether `k` is the lowest index of a key held down.
pub open spec fn is_lowest_down(keys: Seq<bool>, k: int) -> bool {
    &&& 0 <= k < 16
    &&& keys[k]
    &&& forall|j: int| 0 <= j < k ==> !#[trigger] keys[j]
}

/// The lowest index of a key held down, where there is one.
pub open spec fn lowest_down(keys: Seq<bool>) -> int {
    choose|k: int| is_lowest_down(keys, k)
}

impl Machine {
    /// Whether both bytes of the next instruction lie within memory.
    pub open spec fn can_fetch(self) -> bool {
        self.pc + 1 < 4096
    }

    /// The instruction word at the program counter, high byte first.
    pub open spec fn word_at_pc(self) -> u16 {
        (self.ram[self.pc] as int * 256 + self.ram[self.pc + 1] as int) as u16
    }

    /// The state with the program counter moved to `pc`.
    pub open spec fn jump(self, pc: int) -> Machine {
        Machine { pc, ..self }
    }

    /// The state with the program counter past one more instruction where
    /// `cond` holds, the state itself where it does not.
    pub open spec fn skip_if(self, cond: bool) -> Machine {
        if cond {
            self.jump(self.pc + 2)
        } else {
            self
        }
    }

    /// The state with register `x` holding `val`.
    pub open spec fn set_reg(self, x: int, val: u8) -> Machine {
        Machine { v: self.v.update(x, val), ..self }
    }

    /// The state with register `x` holding `val` and then register 15
    /// holding `f`: where `x` is 15, the flag is what stays.
    pub open spec fn set_reg_flag(self, x: int, val: u8, f: u8) -> Machine {
        Machine { v: self.v.update(x, val).update(15, f), ..self }
    }

    /// The state with the address register holding `i`.
    pub open spec fn set_index(self, i: int) -> Machine {
        Machine { i, ..self }
    }

    /// The state with every cell of the display off.
    pub open spec fn clear_display(self) -> Machine {
        Machine { display: Seq::new(2048, |p: int| false), ..self }
    }

    /// The state after a call to `target`: the program counter is pushed.
    pub open spec fn call(self, target: int) -> Machine {
        Machine { pc: target, stack: self.stack.push(self.pc), ..self }
    }

    /// The state after a return: the newest return address is popped into
    /// the program counter.
    pub open spec fn ret(self) -> Machine {
        Machine { pc: self.stack.last(), stack: self.stack.drop_last(), ..self }
    }

    /// The state after the three decimal digits of `val` are stored at the
    /// address register: hundreds, then tens, then ones.
    pub open spec fn store_decimal(self, val: u8) -> Machine {
        Machine {
            ram: self.ram.update(self.i, (val / 100) as u8).update(
                self.i + 1,
                ((val / 10) % 10) as u8,
            ).update(self.i + 2, (val % 10) as u8),
            ..self
        }
    }

    /// The state after registers 0 to `x` are stored at the address register.
    pub open spec fn store_regs(self, x: int) -> Machine {
        Machine {
            ram: Seq::new(
                4096,
                |a: int|
                    if self.i <= a <= self.i + x {
                        self.v[a - self.i]
                    } else {
                        self.ram[a]
                    },
            ),
            ..self
        }
    }

    /// The state after registers 0 to `x` are loaded from the address register.
    pub open spec fn load_regs(self, x: int) -> Machine {
        Machine {
            v: Seq::new(
                16,
                |k: int|
                    if k <= x {
                        self.ram[self.i + k]
                    } else {
                        self.v[k]
                    },
            ),
            ..self
        }
    }

    /// The state after the sprite of `rows` rows at the address register is
    /// drawn at the cell that registers `x` and `y` give. Register 15 tells
    /// whether a cell went from on to off.
    pub open spec fn draw_sprite(self, x: int, y: int, rows: int) -> Machine {
        let vx = self.v[x] as int;
        let vy = self.v[y] as int;
        Machine {
            display: draw(self.display, self.ram, self.i, rows, vx, vy),
            v: self.v.update(15, flag(collides(self.display, self.ram, self.i, rows, vx, vy))),
            ..self
        }
    }

    /// The state after program image `data` is copied to address 0x200.
    pub open spec fn load(self, data: Seq<u8>) -> Machine {
        Machine {
            ram: Seq::new(
                4096,
                |a: int|
                    if 0x200 <= a < 0x200 + data.len() {
                        data[a - 0x200]
                    } else {
                        self.ram[a]
                    },
            ),
            ..self
        }
    }

    /// The state after one decay of the timers: each goes down by one
    /// unless it is already zero.
    pub open spec fn decay(self) -> Machine {
        Machine {
            delay: if self.delay > 0 {
                (self.delay - 1) as u8
            } else {
                0u8
            },
            sound: if self.sound > 0 {
                (self.sound - 1) as u8
            } else {
                0u8
            },
            ..self
        }
    }
}

/// Family 0: no operation, clear the display, return from a subroutine.
pub open spec fn exec_system(s: Machine, op: u16) -> Result<Machine, Fault> {
    if op == 0x0000 {
        Ok(s)
    } else if op == 0x00E0 {
        Ok(s.clear_display())
    } else if op == 0x00EE {
        if s.stack.len() > 0 {
            Ok(s.ret())
        } else {
            Err(Fault::StackUnderflow)
        }
    } else {
        Err(Fault::Unimplemented)
    }
}

/// Family 8: register to register arithmetic and logic, selected by `n`.
/// Sums and differences keep their low eight bits. Register 15 receives the
/// carry of a sum, 1 for a difference that needed no borrow, and the bit
/// that a shift pushes out.
pub open spec fn exec_alu(s: Machine, x: int, y: int, n: int) -> Result<Machine, Fault> {
    let vx = s.v[x];
    let vy = s.v[y];
    if n == 0 {
        Ok(s.set_reg(x, vy))
    } else if n == 1 {
        Ok(s.set_reg(x, vx | vy))
    } else if n == 2 {
        Ok(s.set_reg(x, vx & vy))
    } else if n == 3 {
        Ok(s.set_reg(x, vx ^ vy))
    } else if n == 4 {
        Ok(s.set_reg_flag(x, ((vx + vy) % 256) as u8, flag(vx + vy >= 256)))
    } else if n == 5 {
        Ok(s.set_reg_flag(x, ((vx - vy) % 256) as u8, flag(vx >= vy)))
    } else if n == 6 {
        Ok(s.set_reg_flag(x, (vx / 2) as u8, (vx % 2) as u8))
    } else if n == 7 {
        Ok(s.set_reg_flag(x, ((vy - vx) % 256) as u8, flag(vy >= vx)))
    } else if n == 0xE {
        Ok(s.set_reg_flag(x, ((vx * 2) % 256) as u8, (vx / 128) as u8))
    } else {
        Err(Fault::Unimplemented)
    }
}

/// Family D: draw a sprite of `n` rows, read from the address register on.
pub open spec fn exec_draw(s: Machine, x: int, y: int, n: int) -> Result<Machine, Fault> {
    if n > 0 && s.i + n > 4096 {
        Err(Fault::OutOfBounds)
    } else {
        Ok(s.draw_sprite(x, y, n))
    }
}

/// Family E: skip the next instruction on the state of the key that
/// register `x` names.
pub open spec fn exec_key(s: Machine, x: int, nn: u8) -> Result<Machine, Fault> {
    let key = s.v[x] as int;
    if nn != 0x9E && nn != 0xA1 {
        Err(Fault::Unimplemented)
    } else if key >= 16 {
        Err(Fault::InvalidKey)
    } else if nn == 0x9E {
        Ok(s.skip_if(s.keys[key]))
    } else {
        Ok(s.skip_if(!s.keys[key]))
    }
}

/// Family F: timers, the wait for a key, the address register and the
/// transfers between registers and memory, selected by the low byte.
pub open spec fn exec_misc(s: Machine, x: int, nn: u8) -> Result<Machine, Fault> {
    let vx = s.v[x];
    if nn == 0x07 {
        Ok(s.set_reg(x, s.delay))
    } else if nn == 0x0A {
        if any_key_down(s.keys) {
            Ok(s.set_reg(x, lowest_down(s.keys) as u8))
        } else {
            Ok(s.jump(s.pc - 2))
        }
    } else if nn == 0x15 {
        Ok(Machine { delay: vx, ..s })
    } else if nn == 0x18 {
        Ok(Machine { sound: vx, ..s })
    } else if nn == 0x1E {
        Ok(s.set_index((s.i + vx) % 0x10000))
    } else if nn == 0x29 {
        Ok(s.set_index(vx * 5))
    } else if nn == 0x33 {
        if s.i + 2 < 4096 {
            Ok(s.store_decimal(vx))
        } else {
            Err(Fault::OutOfBounds)
        }
    } else if nn == 0x55 {
        if s.i + x < 4096 {
            Ok(s.store_regs(x))
        } else {
            Err(Fault::OutOfBounds)
        }
    } else if nn == 0x65 {
        if s.i + x < 4096 {
            Ok(s.load_regs(x))
        } else {
            Err(Fault::OutOfBounds)
        }
    } else {
        Err(Fault::Unimplemented)
    }
}

/// What instruction word `op` does to state `s`, whose program counter is
/// already past the word. `random` is the byte that the random instruction
/// draws; no other instruction looks at it.
pub open spec fn execute(s: Machine, op: u16, random: u8) -> Result<Machine, Fault> {
    let f = op_family(op);
    let x = op_x(op);
    let y = op_y(op);
    let n = op_n(op);
    let nn = op_nn(op);
    let nnn = op_nnn(op);
    if f == 0 {
        exec_system(s, op)
    } else if f == 1 {
        Ok(s.jump(nnn))
    } else if f == 2 {
        if s.stack.len() < 16 {
            Ok(s.call(nnn))
        } else {
            Err(Fault::StackOverflow)
        }
    } else if f == 3 {
        Ok(s.skip_if(s.v[x] == nn))
    } else if f == 4 {
        Ok(s.skip_if(s.v[x] != nn))
    } else if f == 5 {
        if n == 0 {
            Ok(s.skip_if(s.v[x] == s.v[y]))
        } else {
            Err(Fault::Unimplemented)
        }
    } else if f == 6 {
        Ok(s.set_reg(x, nn))
    } else if f == 7 {
        Ok(s.set_reg(x, ((s.v[x] + nn) % 256) as u8))
    } else if f == 8 {
        exec_alu(s, x, y, n)
    } else if f == 9 {
        if n == 0 {
            Ok(s.skip_if(s.v[x] != s.v[y]))
        } else {
            Err(Fault::Unimplemented)
        }
    } else if f == 0xA {
        Ok(s.set_index(nnn))
    } else if f == 0xB {
        Ok(s.jump(nnn + s.v[0]))
    } else if f == 0xC {
        Ok(s.set_reg(x, random & nn))
    } else if f == 0xD {
        exec_draw(s, x, y, n)
    } else if f == 0xE {
        exec_key(s, x, nn)
    } else {
        exec_misc(s, x, nn)
    }
}

/// One fetch, decode and execute cycle. The program counter moves past the
/// instruction word before the word takes effect.
pub open spec fn step(s: Machine, random: u8) -> Result<Machine, Fault> {
    if s.can_fetch() {
        execute(s.jump(s.pc + 2), s.word_at_pc(), random)
    } else {
        Err(Fault::OutOfBounds)
    }
}

/// Whether the next instruction of `s` is the one that draws a random byte.
pub open spec fn draws_random(s: Machine) -> bool {
    s.can_fetch() && op_family(s.word_at_pc()) == 0xC
}

/// Whether a machine that was in state `before` and on which an operation
/// with the outcome `outcome` was tried is now in state `after`, with `res`
/// reported: a fault leaves the machine as it was.
pub open spec fn settles(
    before: Machine,
    outcome: Result<Machine, Fault>,
    after: Machine,
    res: Result<(), Fault>,
) -> bool {
    match outcome {
        Ok(s) => res is Ok && after == s,
        Err(e) => res == Err::<(), Fault>(e) && after == before,
    }
}

} // verus!
