//! The interpreter: the machine state as it is stored, and the operations
//! that advance it.

use vstd::prelude::*;
use crate::machine::{
    font, Fault, Machine, FLAG_REG, FONTSET_SIZE, NUM_KEYS, RAM_SIZE, REG_NUMBERS, SCREEN_CELLS,
    STACK_SIZE, START_ADDR,
};
use crate::rng::random_byte;
use crate::semantics::{
    any_key_down, draws_random, exec_alu, exec_draw, exec_key, exec_misc, exec_system,
    is_lowest_down, lowest_down, op_family, settles, step,
};
use crate::sprite::blit;

verus! {

/// The built-in font: five bytes for each of the glyphs 0 to F.
const FONTSET: [u8; FONTSET_SIZE] = [
    0xF0, 0x90, 0x90, 0x90, 0xF0,
    0x20, 0x60, 0x20, 0x20, 0x70,
    0xF0, 0x10, 0xF0, 0x80, 0xF0,
    0xF0, 0x10, 0xF0, 0x10, 0xF0,
    0x90, 0x90, 0xF0, 0x10, 0x10,
    0xF0, 0x80, 0xF0, 0x10, 0xF0,
    0xF0, 0x80, 0xF0, 0x90, 0xF0,
    0xF0, 0x10, 0x20, 0x40, 0x40,
    0xF0, 0x90, 0xF0, 0x90, 0xF0,
    0xF0, 0x90, 0xF0, 0x10, 0xF0,
    0xF0, 0x90, 0xF0, 0x90, 0x90,
    0xE0, 0x90, 0xE0, 0x90, 0xE0,
    0xF0, 0x80, 0x80, 0x80, 0xF0,
    0xE0, 0x90, 0x90, 0x90, 0xE0,
    0xF0, 0x80, 0xF0, 0x80, 0xF0,
    0xF0, 0x80, 0xF0, 0x80, 0x80,
];

/// The fields of an instruction word, cut out with masks and shifts, are
/// its digits in base sixteen.
proof fn lemma_fields(op: u16)
    by (bit_vector)
    ensures
        (op & 0xF000) >> 12 == op / 4096,
        (op & 0x0F00) >> 8 == (op / 256) % 16,
        (op & 0x00F0) >> 4 == (op / 16) % 16,
        op & 0x000F == op % 16,
        op & 0x00FF == op % 256,
        op & 0x0FFF == op % 4096,
{
}

/// Shifting a byte right by one place halves it; its lowest bit is its
/// parity and its highest bit tells whether it is 128 or more.
proof fn lemma_shift_right(b: u8)
    by (bit_vector)
    ensures
        b & 1 == b % 2,
        b >> 1 == b / 2,
        (b >> 7) & 1 == b / 128,
{
}

/// Shifting a byte left by one place doubles it and drops what no longer
/// fits.
proof fn lemma_shift_left(b: u8)
    by (bit_vector)
    ensures
        b << 1 == (b * 2) % 256,
{
}

/// The font that is copied into memory is the font of the model.
proof fn lemma_fontset()
    ensures
        FONTSET@ =~= font(),
{
}

/// A CHIP-8 machine.
pub struct Emu {
    program_counter: u16,
    ram: [u8; RAM_SIZE],
    screen: [bool; SCREEN_CELLS],
    v_reg: [u8; REG_NUMBERS],
    i_reg: u16,
    stack_pointer: u16,
    stack: [u16; STACK_SIZE],
    keys: [bool; NUM_KEYS],
    delay_timer: u8,
    sound_timer: u8,
}

impl View for Emu {
    type V = Machine;

    /// The machine state that the fields hold. Of the stack only the slots
    /// in use count.
    closed spec fn view(&self) -> Machine {
        Machine {
            pc: self.program_counter as int,
            ram: self.ram@,
            display: self.screen@,
            v: self.v_reg@,
            i: self.i_reg as int,
            stack: Seq::new(self.stack_pointer as nat, |k: int| self.stack@[k] as int),
            keys: self.keys@,
            delay: self.delay_timer,
            sound: self.sound_timer,
        }
    }
}

impl Emu {
    /// The stack pointer counts the slots in use, so it never passes their
    /// number.
    #[verifier::type_invariant]
    spec fn inv(&self) -> bool {
        self.stack_pointer <= STACK_SIZE
    }

    /// A machine that was just switched on: the font in low memory, the
    /// program counter at 0x200, everything else zero.
    pub fn new() -> (res: Self)
        ensures
            res@ == Machine::initial(),
            res@.wf(),
    {
        let mut res = Emu {
            program_counter: START_ADDR,
            ram: [0; RAM_SIZE],
            screen: [false; SCREEN_CELLS],
            v_reg: [0; REG_NUMBERS],
            i_reg: 0,
            stack_pointer: 0,
            stack: [0; STACK_SIZE],
            keys: [false; NUM_KEYS],
            delay_timer: 0,
            sound_timer: 0,
        };
        res.install_font();
        assert(res@ =~= Machine::initial());
        res
    }

    /// Puts the machine back into the state of one that was just switched
    /// on. Nothing of the earlier state is kept.
    pub fn reset(&mut self)
        ensures
            final(self)@ == Machine::initial(),
            final(self)@.wf(),
    {
        *self = Emu::new();
    }

    /// Pushes `val` onto the call stack, unless all sixteen slots are in use.
    pub fn push(&mut self, val: u16) -> (res: Result<(), Fault>)
        ensures
            final(self)@.wf(),
            old(self)@.stack.len() < 16 ==> res is Ok && final(self)@ == (Machine {
                stack: old(self)@.stack.push(val as int),
                ..old(self)@
            }),
            old(self)@.stack.len() >= 16 ==> res == Err::<(), Fault>(Fault::StackOverflow)
                && final(self)@ == old(self)@,
    {
        proof {
            use_type_invariant(&*self);
        }
        if self.stack_pointer as usize >= STACK_SIZE {
            return Err(Fault::StackOverflow);
        }
        self.stack[self.stack_pointer as usize] = val;
        self.stack_pointer += 1;
        assert(self@ =~= (Machine {
            stack: old(self)@.stack.push(val as int),
            ..old(self)@
        }));
        Ok(())
    }

    /// Pops the newest value off the call stack, unless the stack is empty.
    pub fn pop(&mut self) -> (res: Result<u16, Fault>)
        ensures
            final(self)@.wf(),
            old(self)@.stack.len() > 0 ==> res == Ok::<u16, Fault>(
                old(self)@.stack.last() as u16,
            ) && final(self)@ == (Machine {
                stack: old(self)@.stack.drop_last(),
                ..old(self)@
            }),
            old(self)@.stack.len() == 0 ==> res == Err::<u16, Fault>(Fault::StackUnderflow)
                && final(self)@ == old(self)@,
    {
        proof {
            use_type_invariant(&*self);
        }
        if self.stack_pointer == 0 {
            return Err(Fault::StackUnderflow);
        }
        self.stack_pointer -= 1;
        let val: u16 = self.stack[self.stack_pointer as usize];
        assert(self@ =~= (Machine { stack: old(self)@.stack.drop_last(), ..old(self)@ }));
        Ok(val)
    }

    /// Lets the timers decay once: each goes down by one unless it is
    /// already zero. Returns whether the sound timer went from one to zero,
    /// which is the moment for a beep.
    pub fn tick_timer(&mut self) -> (beep: bool)
        ensures
            final(self)@ == old(self)@.decay(),
            final(self)@.wf(),
            old(self)@.delay == 0 ==> final(self)@.delay == 0,
            old(self)@.sound == 0 ==> final(self)@.sound == 0,
            old(self)@.delay > 0 ==> final(self)@.delay == old(self)@.delay - 1,
            old(self)@.sound > 0 ==> final(self)@.sound == old(self)@.sound - 1,
            beep == (old(self)@.sound == 1),
    {
        proof {
            use_type_invariant(&*self);
        }
        let mut beep: bool = false;
        if self.delay_timer > 0 {
            self.delay_timer -= 1;
        }
        if self.sound_timer > 0 {
            if self.sound_timer == 1 {
                beep = true;
            }
            self.sound_timer -= 1;
        }
        assert(self@ =~= old(self)@.decay());
        beep
    }

    /// The display, row by row: cell `(x, y)` is at `x + 64 * y`.
    pub fn get_display(&self) -> (res: &[bool])
        ensures
            res@ == self@.display,
            self@.wf(),
    {
        proof {
            use_type_invariant(self);
        }
        &self.screen
    }

    /// The address of the next instruction.
    pub fn program_counter(&self) -> (res: u16)
        ensures
            res == self@.pc,
            self@.wf(),
    {
        proof {
            use_type_invariant(self);
        }
        self.program_counter
    }

    /// The address register.
    pub fn index_register(&self) -> (res: u16)
        ensures
            res == self@.i,
            self@.wf(),
    {
        proof {
            use_type_invariant(self);
        }
        self.i_reg
    }

    /// The sixteen general-purpose registers.
    pub fn registers(&self) -> (res: &[u8])
        ensures
            res@ == self@.v,
            self@.wf(),
    {
        proof {
            use_type_invariant(self);
        }
        &self.v_reg
    }

    /// The 4096 bytes of memory.
    pub fn memory(&self) -> (res: &[u8])
        ensures
            res@ == self@.ram,
            self@.wf(),
    {
        proof {
            use_type_invariant(self);
        }
        &self.ram
    }

    /// The sixteen key states, `true` for a key held down.
    pub fn keys(&self) -> (res: &[bool])
        ensures
            res@ == self@.keys,
            self@.wf(),
    {
        proof {
            use_type_invariant(self);
        }
        &self.keys
    }

    /// The number of return addresses on the call stack.
    pub fn stack_depth(&self) -> (res: usize)
        ensures
            res == self@.stack.len(),
            self@.wf(),
    {
        proof {
            use_type_invariant(self);
        }
        self.stack_pointer as usize
    }

    /// The delay timer.
    pub fn delay_timer(&self) -> (res: u8)
        ensures
            res == self@.delay,
            self@.wf(),
    {
        proof {
            use_type_invariant(self);
        }
        self.delay_timer
    }

    /// The sound timer. A sound is due while it is not zero.
    pub fn sound_timer(&self) -> (res: u8)
        ensures
            res == self@.sound,
            self@.wf(),
    {
        proof {
            use_type_invariant(self);
        }
        self.sound_timer
    }

    /// Records that key `idx` went down (`pressed`) or up.
    pub fn keypress(&mut self, idx: usize, pressed: bool)
        requires
            idx < 16,
        ensures
            final(self)@ == (Machine {
                keys: old(self)@.keys.update(idx as int, pressed),
                ..old(self)@
            }),
            final(self)@.wf(),
    {
        proof {
            use_type_invariant(&*self);
        }
        self.keys[idx] = pressed;
        assert(self@ =~= (Machine {
            keys: old(self)@.keys.update(idx as int, pressed),
            ..old(self)@
        }));
    }

    /// Copies the program image `data` into memory from address 0x200 on,
    /// unless it is too long to fit.
    pub fn load(&mut self, data: &[u8]) -> (res: Result<(), Fault>)
        ensures
            final(self)@.wf(),
            0x200 + data@.len() <= 4096 ==> res is Ok && final(self)@ == old(self)@.load(data@),
            0x200 + data@.len() > 4096 ==> res == Err::<(), Fault>(Fault::OutOfBounds)
                && final(self)@ == old(self)@,
    {
        proof {
            use_type_invariant(&*self);
        }
        let start: usize = START_ADDR as usize;
        if data.len() > RAM_SIZE - start {
            return Err(Fault::OutOfBounds);
        }
        let mut k: usize = 0;
        while k < data.len()
            invariant
                k <= data@.len(),
                start == 0x200,
                start + data@.len() <= 4096,
                self.stack_pointer <= STACK_SIZE,
                forall|a: int| 0x200 <= a < 0x200 + k ==> self.ram@[a] == data@[a - 0x200],
                forall|a: int|
                    0 <= a < 4096 && !(0x200 <= a < 0x200 + k) ==> self.ram@[a] == old(self).ram@[a],
                self.program_counter == old(self).program_counter,
                self.screen == old(self).screen,
                self.v_reg == old(self).v_reg,
                self.i_reg == old(self).i_reg,
                self.stack_pointer == old(self).stack_pointer,
                self.stack == old(self).stack,
                self.keys == old(self).keys,
                self.delay_timer == old(self).delay_timer,
                self.sound_timer == old(self).sound_timer,
            decreases data@.len() - k,
        {
            self.ram[start + k] = data[k];
            k += 1;
        }
        assert(self@ =~= old(self)@.load(data@));
        Ok(())
    }

    /// Reads the instruction word at the program counter, high byte first,
    /// and moves the program counter past it.
    fn fetch(&mut self) -> (res: Result<u16, Fault>)
        ensures
            final(self)@.wf(),
            old(self)@.can_fetch() ==> res == Ok::<u16, Fault>(old(self)@.word_at_pc())
                && final(self)@ == old(self)@.jump(old(self)@.pc + 2),
            !old(self)@.can_fetch() ==> res == Err::<u16, Fault>(Fault::OutOfBounds)
                && final(self)@ == old(self)@,
    {
        proof {
            use_type_invariant(&*self);
        }
        let pc: usize = self.program_counter as usize;
        if pc + 1 >= RAM_SIZE {
            return Err(Fault::OutOfBounds);
        }
        let first_digit: u16 = self.ram[pc] as u16;
        let second_digit: u16 = self.ram[pc + 1] as u16;
        let op_code: u16 = first_digit * 256 + second_digit;
        self.program_counter += 2;
        assert(self@ =~= old(self)@.jump(old(self)@.pc + 2));
        Ok(op_code)
    }

    /// Stores the lowest index of a key held down into register `x`, or
    /// moves the program counter back by one instruction where no key is
    /// down, so that the wait is tried again.
    fn wait_key(&mut self, x: usize)
        requires
            x < 16,
            old(self)@.pc >= 2,
        ensures
            final(self)@.wf(),
            any_key_down(old(self)@.keys) ==> final(self)@ == old(self)@.set_reg(
                x as int,
                lowest_down(old(self)@.keys) as u8,
            ),
            !any_key_down(old(self)@.keys) ==> final(self)@ == old(self)@.jump(old(self)@.pc - 2),
    {
        proof {
            use_type_invariant(&*self);
        }
        let mut k: usize = 0;
        while k < NUM_KEYS
            invariant
                k <= NUM_KEYS,
                x < 16,
                old(self)@.pc >= 2,
                *self == *old(self),
                self.stack_pointer <= STACK_SIZE,
                forall|j: int| 0 <= j < k ==> !#[trigger] self.keys@[j],
            decreases NUM_KEYS - k,
        {
            if self.keys[k] {
                assert(is_lowest_down(self.keys@, k as int));
                assert(any_key_down(self.keys@));
                assert(is_lowest_down(self.keys@, lowest_down(self.keys@)));
                assert(lowest_down(self.keys@) == k);
                self.v_reg[x] = k as u8;
                assert(self@ =~= old(self)@.set_reg(x as int, k as u8));
                return ;
            }
            k += 1;
        }
        assert(!any_key_down(self.keys@));
        self.program_counter -= 2;
        assert(self@ =~= old(self)@.jump(old(self)@.pc - 2));
    }

    /// Stores the decimal digits of `val` at the address register:
    /// hundreds, then tens, then ones.
    fn store_decimal(&mut self, val: u8)
        requires
            old(self)@.i + 2 < 4096,
        ensures
            final(self)@.wf(),
            final(self)@ == old(self)@.store_decimal(val),
    {
        proof {
            use_type_invariant(&*self);
        }
        let base: usize = self.i_reg as usize;
        self.ram[base] = val / 100;
        self.ram[base + 1] = (val / 10) % 10;
        self.ram[base + 2] = val % 10;
        assert(self@ =~= old(self)@.store_decimal(val));
    }

    /// Stores registers 0 to `x` in memory from the address register on.
    fn store_regs(&mut self, x: usize)
        requires
            x < 16,
            old(self)@.i + x < 4096,
        ensures
            final(self)@.wf(),
            final(self)@ == old(self)@.store_regs(x as int),
    {
        proof {
            use_type_invariant(&*self);
        }
        let base: usize = self.i_reg as usize;
        let mut k: usize = 0;
        while k <= x
            invariant
                k <= x + 1,
                x < 16,
                base + x < 4096,
                base == old(self).i_reg,
                self.stack_pointer <= STACK_SIZE,
                forall|a: int| base <= a < base + k ==> self.ram@[a] == old(self).v_reg@[a - base],
                forall|a: int|
                    0 <= a < 4096 && !(base <= a < base + k) ==> self.ram@[a] == old(self).ram@[a],
                self.program_counter == old(self).program_counter,
                self.screen == old(self).screen,
                self.v_reg == old(self).v_reg,
                self.i_reg == old(self).i_reg,
                self.stack_pointer == old(self).stack_pointer,
                self.stack == old(self).stack,
                self.keys == old(self).keys,
                self.delay_timer == old(self).delay_timer,
                self.sound_timer == old(self).sound_timer,
            decreases x + 1 - k,
        {
            self.ram[base + k] = self.v_reg[k];
            k += 1;
        }
        assert(self@ =~= old(self)@.store_regs(x as int));
    }

    /// Loads registers 0 to `x` from memory from the address register on.
    fn load_regs(&mut self, x: usize)
        requires
            x < 16,
            old(self)@.i + x < 4096,
        ensures
            final(self)@.wf(),
            final(self)@ == old(self)@.load_regs(x as int),
    {
        proof {
            use_type_invariant(&*self);
        }
        let base: usize = self.i_reg as usize;
        let mut k: usize = 0;
        while k <= x
            invariant
                k <= x + 1,
                x < 16,
                base + x < 4096,
                base == old(self).i_reg,
                self.stack_pointer <= STACK_SIZE,
                forall|j: int| 0 <= j < k ==> self.v_reg@[j] == old(self).ram@[base + j],
                forall|j: int| k <= j < 16 ==> self.v_reg@[j] == old(self).v_reg@[j],
                self.program_counter == old(self).program_counter,
                self.screen == old(self).screen,
                self.ram == old(self).ram,
                self.i_reg == old(self).i_reg,
                self.stack_pointer == old(self).stack_pointer,
                self.stack == old(self).stack,
                self.keys == old(self).keys,
                self.delay_timer == old(self).delay_timer,
                self.sound_timer == old(self).sound_timer,
            decreases x + 1 - k,
        {
            self.v_reg[k] = self.ram[base + k];
            k += 1;
        }
        assert(self@ =~= old(self)@.load_regs(x as int));
    }

    /// Draws the sprite of `rows` rows at the address register at the cell
    /// that registers `x` and `y` give, and sets register 15 to whether a
    /// cell went from on to off.
    fn draw_sprite(&mut self, x: usize, y: usize, rows: usize)
        requires
            x < 16,
            y < 16,
            rows < 16,
            rows > 0 ==> old(self)@.i + rows <= 4096,
        ensures
            final(self)@.wf(),
            final(self)@ == old(self)@.draw_sprite(x as int, y as int, rows as int),
    {
        proof {
            use_type_invariant(&*self);
        }
        let x_coord: u8 = self.v_reg[x];
        let y_coord: u8 = self.v_reg[y];
        let flipped: bool = blit(
            &mut self.screen,
            &self.ram,
            self.i_reg as usize,
            rows,
            x_coord,
            y_coord,
        );
        if flipped {
            self.v_reg[FLAG_REG] = 1;
        } else {
            self.v_reg[FLAG_REG] = 0;
        }
        assert(self@ =~= old(self)@.draw_sprite(x as int, y as int, rows as int));
    }

    /// The value of register `x`.
    fn reg(&self, x: usize) -> (res: u8)
        requires
            x < 16,
        ensures
            res == self@.v[x as int],
            self@.wf(),
    {
        proof {
            use_type_invariant(self);
        }
        self.v_reg[x]
    }

    /// Sets register `x` to `val`.
    fn write_reg(&mut self, x: usize, val: u8)
        requires
            x < 16,
        ensures
            final(self)@.wf(),
            final(self)@ == old(self)@.set_reg(x as int, val),
    {
        proof {
            use_type_invariant(&*self);
        }
        self.v_reg[x] = val;
        assert(self@ =~= old(self)@.set_reg(x as int, val));
    }

    /// Sets register `x` to `val` and then register 15 to `f`.
    fn write_reg_flag(&mut self, x: usize, val: u8, f: u8)
        requires
            x < 16,
        ensures
            final(self)@.wf(),
            final(self)@ == old(self)@.set_reg_flag(x as int, val, f),
    {
        proof {
            use_type_invariant(&*self);
        }
        self.v_reg[x] = val;
        self.v_reg[FLAG_REG] = f;
        assert(self@ =~= old(self)@.set_reg_flag(x as int, val, f));
    }

    /// Sets the address register to `i`.
    fn write_index(&mut self, i: u16)
        ensures
            final(self)@.wf(),
            final(self)@ == old(self)@.set_index(i as int),
    {
        proof {
            use_type_invariant(&*self);
        }
        self.i_reg = i;
        assert(self@ =~= old(self)@.set_index(i as int));
    }

    /// Moves the program counter to `pc`.
    fn goto(&mut self, pc: u16)
        ensures
            final(self)@.wf(),
            final(self)@ == old(self)@.jump(pc as int),
    {
        proof {
            use_type_invariant(&*self);
        }
        self.program_counter = pc;
        assert(self@ =~= old(self)@.jump(pc as int));
    }

    /// Moves the program counter past one more instruction where `cond`
    /// holds.
    fn skip_if(&mut self, cond: bool)
        requires
            old(self)@.pc <= 4096,
        ensures
            final(self)@.wf(),
            final(self)@ == old(self)@.skip_if(cond),
    {
        proof {
            use_type_invariant(&*self);
        }
        if cond {
            self.program_counter += 2;
        }
        assert(self@ =~= old(self)@.skip_if(cond));
    }

    /// Family 0: no operation, clear the display, return from a subroutine.
    fn system(&mut self, op: u16) -> (res: Result<(), Fault>)
        ensures
            final(self)@.wf(),
            settles(old(self)@, exec_system(old(self)@, op), final(self)@, res),
    {
        proof {
            use_type_invariant(&*self);
        }
        if op == 0x0000 {
            Ok(())
        } else if op == 0x00E0 {
            self.screen = [false; SCREEN_CELLS];
            assert(self@ =~= old(self)@.clear_display());
            Ok(())
        } else if op == 0x00EE {
            if self.stack_pointer == 0 {
                return Err(Fault::StackUnderflow);
            }
            self.stack_pointer -= 1;
            self.program_counter = self.stack[self.stack_pointer as usize];
            assert(self@ =~= old(self)@.ret());
            Ok(())
        } else {
            Err(Fault::Unimplemented)
        }
    }

    /// Family 2: call the subroutine at `target`.
    fn call(&mut self, target: u16) -> (res: Result<(), Fault>)
        ensures
            final(self)@.wf(),
            old(self)@.stack.len() < 16 ==> res is Ok && final(self)@ == old(self)@.call(
                target as int,
            ),
            old(self)@.stack.len() >= 16 ==> res == Err::<(), Fault>(Fault::StackOverflow)
                && final(self)@ == old(self)@,
    {
        proof {
            use_type_invariant(&*self);
        }
        if self.stack_pointer as usize >= STACK_SIZE {
            return Err(Fault::StackOverflow);
        }
        self.stack[self.stack_pointer as usize] = self.program_counter;
        self.stack_pointer += 1;
        self.program_counter = target;
        assert(self@ =~= old(self)@.call(target as int));
        Ok(())
    }

    /// Family 8: register to register arithmetic and logic, selected by `n`.
    fn alu(&mut self, x: usize, y: usize, n: u16) -> (res: Result<(), Fault>)
        requires
            x < 16,
            y < 16,
        ensures
            final(self)@.wf(),
            settles(old(self)@, exec_alu(old(self)@, x as int, y as int, n as int), final(self)@, res),
    {
        let vx: u8 = self.reg(x);
        let vy: u8 = self.reg(y);
        match n {
            0 => self.write_reg(x, vy),
            1 => self.write_reg(x, vx | vy),
            2 => self.write_reg(x, vx & vy),
            3 => self.write_reg(x, vx ^ vy),
            4 => {
                let carry: bool = vx as u16 + vy as u16 > 255;
                self.write_reg_flag(
                    x,
                    vx.wrapping_add(vy),
                    if carry {
                        1
                    } else {
                        0
                    },
                );
            },
            5 => {
                let borrow: bool = vx < vy;
                self.write_reg_flag(
                    x,
                    vx.wrapping_sub(vy),
                    if borrow {
                        0
                    } else {
                        1
                    },
                );
            },
            6 => {
                proof {
                    lemma_shift_right(vx);
                }
                self.write_reg_flag(x, vx >> 1, vx & 1);
            },
            7 => {
                let borrow: bool = vy < vx;
                self.write_reg_flag(
                    x,
                    vy.wrapping_sub(vx),
                    if borrow {
                        0
                    } else {
                        1
                    },
                );
            },
            0xE => {
                proof {
                    lemma_shift_right(vx);
                    lemma_shift_left(vx);
                }
                self.write_reg_flag(x, vx << 1, (vx >> 7) & 1);
            },
            _ => {
                return Err(Fault::Unimplemented);
            },
        }
        Ok(())
    }

    /// Family E: skip the next instruction on the state of the key that
    /// register `x` names.
    fn key_skip(&mut self, x: usize, nn: u8) -> (res: Result<(), Fault>)
        requires
            x < 16,
            old(self)@.pc <= 4096,
        ensures
            final(self)@.wf(),
            settles(old(self)@, exec_key(old(self)@, x as int, nn), final(self)@, res),
    {
        proof {
            use_type_invariant(&*self);
        }
        if nn != 0x9E && nn != 0xA1 {
            return Err(Fault::Unimplemented);
        }
        let key: usize = self.reg(x) as usize;
        if key >= NUM_KEYS {
            return Err(Fault::InvalidKey);
        }
        let down: bool = self.keys[key];
        if nn == 0x9E {
            self.skip_if(down);
        } else {
            self.skip_if(!down);
        }
        Ok(())
    }

    /// Family F: timers, the wait for a key, the address register and the
    /// transfers between registers and memory, selected by the low byte.
    fn misc(&mut self, x: usize, nn: u8) -> (res: Result<(), Fault>)
        requires
            x < 16,
            old(self)@.pc >= 2,
        ensures
            final(self)@.wf(),
            settles(old(self)@, exec_misc(old(self)@, x as int, nn), final(self)@, res),
    {
        proof {
            use_type_invariant(&*self);
        }
        let vx: u8 = self.reg(x);
        match nn {
            0x07 => {
                let delay: u8 = self.delay_timer;
                self.write_reg(x, delay);
            },
            0x0A => {
                self.wait_key(x);
            },
            0x15 => {
                self.delay_timer = vx;
                assert(self@ =~= (Machine { delay: vx, ..old(self)@ }));
            },
            0x18 => {
                self.sound_timer = vx;
                assert(self@ =~= (Machine { sound: vx, ..old(self)@ }));
            },
            0x1E => {
                let i: u16 = self.i_reg.wrapping_add(vx as u16);
                self.write_index(i);
            },
            0x29 => {
                self.write_index(vx as u16 * 5);
            },
            0x33 => {
                if self.i_reg as usize + 2 >= RAM_SIZE {
                    return Err(Fault::OutOfBounds);
                }
                self.store_decimal(vx);
            },
            0x55 => {
                if self.i_reg as usize + x >= RAM_SIZE {
                    return Err(Fault::OutOfBounds);
                }
                self.store_regs(x);
            },
            0x65 => {
                if self.i_reg as usize + x >= RAM_SIZE {
                    return Err(Fault::OutOfBounds);
                }
                self.load_regs(x);
            },
            _ => {
                return Err(Fault::Unimplemented);
            },
        }
        Ok(())
    }

    /// Family D: draw a sprite of `rows` rows at the cell that registers
    /// `x` and `y` give.
    fn draw(&mut self, x: usize, y: usize, rows: usize) -> (res: Result<(), Fault>)
        requires
            x < 16,
            y < 16,
            rows < 16,
        ensures
            final(self)@.wf(),
            settles(
                old(self)@,
                exec_draw(old(self)@, x as int, y as int, rows as int),
                final(self)@,
                res,
            ),
    {
        proof {
            use_type_invariant(&*self);
        }
        if rows > 0 && self.i_reg as usize + rows > RAM_SIZE {
            return Err(Fault::OutOfBounds);
        }
        self.draw_sprite(x, y, rows);
        Ok(())
    }

    /// Carries out instruction word `op` on a machine whose program counter
    /// is already past the word. `random` is the byte that the random
    /// instruction uses. A fault leaves the machine as it was.
    fn execute(&mut self, op: u16, random: u8) -> (res: Result<(), Fault>)
        requires
            2 <= old(self)@.pc <= 4096,
        ensures
            final(self)@.wf(),
            settles(
                old(self)@,
                crate::semantics::execute(old(self)@, op, random),
                final(self)@,
                res,
            ),
    {
        proof {
            use_type_invariant(&*self);
            lemma_fields(op);
        }
        let digit1: u16 = (op & 0xF000) >> 12;
        let digit2: u16 = (op & 0x0F00) >> 8;
        let digit3: u16 = (op & 0x00F0) >> 4;
        let digit4: u16 = op & 0x000F;
        let x: usize = digit2 as usize;
        let y: usize = digit3 as usize;
        let nn: u8 = (op & 0x00FF) as u8;
        let nnn: u16 = op & 0x0FFF;

        match digit1 {
            0 => {
                return self.system(op);
            },
            1 => self.goto(nnn),
            2 => {
                return self.call(nnn);
            },
            3 => {
                let vx: u8 = self.reg(x);
                self.skip_if(vx == nn);
            },
            4 => {
                let vx: u8 = self.reg(x);
                self.skip_if(vx != nn);
            },
            5 => {
                if digit4 != 0 {
                    return Err(Fault::Unimplemented);
                }
                let vx: u8 = self.reg(x);
                let vy: u8 = self.reg(y);
                self.skip_if(vx == vy);
            },
            6 => self.write_reg(x, nn),
            7 => {
                let vx: u8 = self.reg(x);
                self.write_reg(x, vx.wrapping_add(nn));
            },
            8 => {
                return self.alu(x, y, digit4);
            },
            9 => {
                if digit4 != 0 {
                    return Err(Fault::Unimplemented);
                }
                let vx: u8 = self.reg(x);
                let vy: u8 = self.reg(y);
                self.skip_if(vx != vy);
            },
            0xA => self.write_index(nnn),
            0xB => {
                let v0: u8 = self.reg(0);
                self.goto(v0 as u16 + nnn);
            },
            0xC => self.write_reg(x, random & nn),
            0xD => {
                return self.draw(x, y, digit4 as usize);
            },
            0xE => {
                return self.key_skip(x, nn);
            },
            _ => {
                return self.misc(x, nn);
            },
        }
        Ok(())
    }

    /// Performs one fetch, decode and execute cycle, in which the random
    /// instruction, if it is the one fetched, uses the byte `random`. A
    /// fault leaves the machine as it was.
    pub fn tick_with(&mut self, random: u8) -> (res: Result<(), Fault>)
        ensures
            final(self)@.wf(),
            settles(old(self)@, step(old(self)@, random), final(self)@, res),
    {
        proof {
            use_type_invariant(&*self);
        }
        let start: u16 = self.program_counter;
        let op: u16 = match self.fetch() {
            Ok(op) => op,
            Err(e) => {
                return Err(e);
            },
        };
        match self.execute(op, random) {
            Ok(()) => Ok(()),
            Err(e) => {
                self.program_counter = start;
                assert(self@ =~= old(self)@);
                Err(e)
            },
        }
    }

    /// Whether the next instruction is the one that draws a random byte.
    fn next_draws_random(&self) -> (res: bool)
        ensures
            res == draws_random(self@),
    {
        let pc: usize = self.program_counter as usize;
        if pc + 1 >= RAM_SIZE {
            return false;
        }
        let high: u8 = self.ram[pc];
        assert(op_family(self@.word_at_pc()) == high as int / 16);
        high / 16 == 0xC
    }

    /// Performs one fetch, decode and execute cycle. The random instruction
    /// draws its byte from the random number generator, so for it the new
    /// state is what some byte gives; every other instruction has one
    /// outcome. A fault leaves the machine as it was.
    pub fn tick(&mut self) -> (res: Result<(), Fault>)
        ensures
            final(self)@.wf(),
            exists|random: u8|
                settles(old(self)@, #[trigger] step(old(self)@, random), final(self)@, res),
            !draws_random(old(self)@) ==> forall|random: u8|
                settles(old(self)@, #[trigger] step(old(self)@, random), final(self)@, res),
    {
        let random: u8 = if self.next_draws_random() {
            random_byte()
        } else {
            0
        };
        let res = self.tick_with(random);
        proof {
            if !draws_random(old(self)@) {
                assert forall|other: u8|
                    settles(
                        old(self)@,
                        #[trigger] step(old(self)@, other),
                        self@,
                        res,
                    ) by {
                    assert(step(old(self)@, other) == step(old(self)@, random));
                }
            }
        }
        res
    }

    /// Copies the font to the start of a memory that holds zeros only.
    fn install_font(&mut self)
        requires
            forall|a: int| 0 <= a < 4096 ==> old(self).ram@[a] == 0,
        ensures
            final(self).ram@ =~= crate::machine::initial_ram(),
            final(self).program_counter == old(self).program_counter,
            final(self).screen == old(self).screen,
            final(self).v_reg == old(self).v_reg,
            final(self).i_reg == old(self).i_reg,
            final(self).stack_pointer == old(self).stack_pointer,
            final(self).stack == old(self).stack,
            final(self).keys == old(self).keys,
            final(self).delay_timer == old(self).delay_timer,
            final(self).sound_timer == old(self).sound_timer,
    {
        proof {
            use_type_invariant(&*self);
            lemma_fontset();
        }
        let mut k: usize = 0;
        while k < FONTSET_SIZE
            invariant
                k <= FONTSET_SIZE,
                FONTSET@ =~= font(),
                self.stack_pointer <= STACK_SIZE,
                forall|a: int| 0 <= a < k ==> self.ram@[a] == font()[a],
                forall|a: int| k <= a < 4096 ==> self.ram@[a] == 0,
                self.program_counter == old(self).program_counter,
                self.screen == old(self).screen,
                self.v_reg == old(self).v_reg,
                self.i_reg == old(self).i_reg,
                self.stack_pointer == old(self).stack_pointer,
                self.stack == old(self).stack,
                self.keys == old(self).keys,
                self.delay_timer == old(self).delay_timer,
                self.sound_timer == old(self).sound_timer,
            decreases FONTSET_SIZE - k,
        {
            self.ram[k] = FONTSET[k];
            k += 1;
        }
    }
}

} // verus!
