//! The mathematical model of the virtual machine: what a machine state is,
//! independently of how the interpreter stores it.

use vstd::prelude::*;

verus! {

/// Number of bytes of addressable memory.
pub const RAM_SIZE: usize = 4096;

/// Number of bytes taken by the built-in hexadecimal font, at the start of memory.
pub const FONTSET_SIZE: usize = 80;

/// Number of general-purpose registers.
pub const REG_NUMBERS: usize = 16;

/// Number of return addresses the call stack can hold.
pub const STACK_SIZE: usize = 16;

/// Number of keys of the hexadecimal keypad.
pub const NUM_KEYS: usize = 16;

/// Address at which programs are loaded and at which execution starts.
pub const START_ADDR: u16 = 0x200;

/// Height of the display, in cells.
pub const SCREEN_HEIGHT: usize = 32;

/// Width of the display, in cells.
pub const SCREEN_WIDTH: usize = 64;

/// Number of cells of the display.
pub const SCREEN_CELLS: usize = 2048;

/// Index of the register that receives carry, borrow, shift and collision flags.
pub const FLAG_REG: usize = 15;

/// The conditions that stop an instruction, a load or a stack operation.
#[derive(Clone, Copy, Debug, PartialEq, Eq, Structural)]
pub enum Fault {
    /// A memory access through the program counter or the address register,
    /// or a program image, reaches past the end of memory.
    OutOfBounds,
    /// A call was made with all sixteen stack slots in use.
    StackOverflow,
    /// A return was made with an empty call stack.
    StackUnderflow,
    /// A key instruction named a key outside the sixteen-key pad.
    InvalidKey,
    /// The instruction word matches no instruction.
    Unimplemented,
}

/// A machine state as a mathematical value.
#[verifier::ext_equal]
pub struct Machine {
    /// Address of the next instruction.
    pub pc: int,
    /// The 4096 bytes of memory.
    pub ram: Seq<u8>,
    /// The 64 x 32 cells of the display, row by row; cell `(x, y)` is at `x + 64 * y`.
    pub display: Seq<bool>,
    /// The sixteen general-purpose registers.
    pub v: Seq<u8>,
    /// The address register.
    pub i: int,
    /// The return addresses in use, oldest first.
    pub stack: Seq<int>,
    /// The sixteen key states, `true` for a key held down.
    pub keys: Seq<bool>,
    /// The delay timer.
    pub delay: u8,
    /// The sound timer.
    pub sound: u8,
}

/// The bytes of the built-in font: five bytes for each of the glyphs 0 to F.
pub open spec fn font() -> Seq<u8> {
    seq![
        0xF0u8, 0x90u8, 0x90u8, 0x90u8, 0xF0u8,
        0x20u8, 0x60u8, 0x20u8, 0x20u8, 0x70u8,
        0xF0u8, 0x10u8, 0xF0u8, 0x80u8, 0xF0u8,
        0xF0u8, 0x10u8, 0xF0u8, 0x10u8, 0xF0u8,
        0x90u8, 0x90u8, 0xF0u8, 0x10u8, 0x10u8,
        0xF0u8, 0x80u8, 0xF0u8, 0x10u8, 0xF0u8,
        0xF0u8, 0x80u8, 0xF0u8, 0x90u8, 0xF0u8,
        0xF0u8, 0x10u8, 0x20u8, 0x40u8, 0x40u8,
        0xF0u8, 0x90u8, 0xF0u8, 0x90u8, 0xF0u8,
        0xF0u8, 0x90u8, 0xF0u8, 0x10u8, 0xF0u8,
        0xF0u8, 0x90u8, 0xF0u8, 0x90u8, 0x90u8,
        0xE0u8, 0x90u8, 0xE0u8, 0x90u8, 0xE0u8,
        0xF0u8, 0x80u8, 0x80u8, 0x80u8, 0xF0u8,
        0xE0u8, 0x90u8, 0x90u8, 0x90u8, 0xE0u8,
        0xF0u8, 0x80u8, 0xF0u8, 0x80u8, 0xF0u8,
        0xF0u8, 0x80u8, 0xF0u8, 0x80u8, 0x80u8,
    ]
}

/// Memory as it is before any program is loaded: the font, then zeros.
pub open spec fn initial_ram() -> Seq<u8> {
    Seq::new(4096, |a: int| if 0 <= a < 80 { font()[a] } else { 0u8 })
}

impl Machine {
    /// The lengths and ranges that every machine state has.
    pub open spec fn wf(self) -> bool {
        &&& 0 <= self.pc <= 0xFFFF
        &&& 0 <= self.i <= 0xFFFF
        &&& self.ram.len() == 4096
        &&& self.display.len() == 2048
        &&& self.v.len() == 16
        &&& self.keys.len() == 16
        &&& self.stack.len() <= 16
        &&& forall|k: int| 0 <= k < self.stack.len() ==> 0 <= #[trigger] self.stack[k] <= 0xFFFF
    }

    /// The state of a machine that was just switched on.
    pub open spec fn initial() -> Machine {
        Machine {
            pc: 0x200,
            ram: initial_ram(),
            display: Seq::new(2048, |p: int| false),
            v: Seq::new(16, |k: int| 0u8),
            i: 0,
            stack: Seq::empty(),
            keys: Seq::new(16, |k: int| false),
            delay: 0,
            sound: 0,
        }
    }
}

} // verus!
