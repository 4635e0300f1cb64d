//! What holds of the instruction set as a whole, proved from the meaning of
//! the instructions.

use vstd::prelude::*;
use crate::machine::Machine;
use crate::semantics::{exec_misc, flag, op_family, op_n, op_x, op_y, step};
use crate::sprite::{collides, draw, lights, sprite_covers};

verus! {

/// The instruction that adds register y to register x (8xy4) never faults.
/// It leaves 1 in register 15 if the sum of the two registers is 256 or
/// more and 0 if it is not, and the sum modulo 256 in register x, unless x
/// is 15: then the flag is what register 15 keeps.
pub proof fn law_add_carry(s: Machine, random: u8)
    requires
        s.wf(),
        s.can_fetch(),
        op_family(s.word_at_pc()) == 8,
        op_n(s.word_at_pc()) == 4,
    ensures
        step(s, random) is Ok,
        ({
            let t = step(s, random)->Ok_0;
            let x = op_x(s.word_at_pc());
            let a = s.v[x];
            let b = s.v[op_y(s.word_at_pc())];
            &&& t.v[15] == flag(a + b >= 256)
            &&& x != 15 ==> t.v[x] == (a + b) % 256
        }),
{
}

/// The instruction that subtracts register y from register x (8xy5) never
/// faults. It leaves 1 in register 15 if register x is at least register y,
/// so that nothing is borrowed, and 0 if it is not, and the difference
/// modulo 256 in register x, unless x is 15: then the flag is what register
/// 15 keeps.
pub proof fn law_sub_borrow(s: Machine, random: u8)
    requires
        s.wf(),
        s.can_fetch(),
        op_family(s.word_at_pc()) == 8,
        op_n(s.word_at_pc()) == 5,
    ensures
        step(s, random) is Ok,
        ({
            let t = step(s, random)->Ok_0;
            let x = op_x(s.word_at_pc());
            let a = s.v[x];
            let b = s.v[op_y(s.word_at_pc())];
            &&& t.v[15] == flag(a >= b)
            &&& x != 15 ==> t.v[x] == (a - b) % 256
        }),
{
}

/// The shift instructions (8xy6 to the right, 8xyE to the left) never
/// fault, and leave in register 15 the bit of register x that the shift
/// pushes out: the lowest bit for a shift to the right, the highest for a
/// shift to the left. Where x is not 15, what register 15 held before,
/// here `before` in place of its value in `s`, has no part in that.
pub proof fn law_shift_flag(s: Machine, random: u8, before: u8)
    requires
        s.wf(),
        s.can_fetch(),
        op_family(s.word_at_pc()) == 8,
        op_n(s.word_at_pc()) == 6 || op_n(s.word_at_pc()) == 0xE,
    ensures
        step(s, random) is Ok,
        step(s.set_reg(15, before), random) is Ok,
        ({
            let t = step(s, random)->Ok_0;
            let u = step(s.set_reg(15, before), random)->Ok_0;
            let x = op_x(s.word_at_pc());
            let out = if op_n(s.word_at_pc()) == 6 {
                s.v[x] % 2
            } else {
                s.v[x] / 128
            };
            &&& t.v[15] == out
            &&& x != 15 ==> u.v[15] == out
        }),
{
}

/// Drawing a sprite a second time at the same place puts the display back
/// as it was before the first drawing, and the second drawing turns a cell
/// off exactly if the first one turned a cell on.
pub proof fn law_draw_twice(
    display: Seq<bool>,
    ram: Seq<u8>,
    base: int,
    rows: int,
    vx: int,
    vy: int,
)
    requires
        display.len() == 2048,
    ensures
        draw(draw(display, ram, base, rows, vx, vy), ram, base, rows, vx, vy) == display,
        collides(draw(display, ram, base, rows, vx, vy), ram, base, rows, vx, vy) == lights(
            display,
            ram,
            base,
            rows,
            vx,
            vy,
        ),
{
    let once = draw(display, ram, base, rows, vx, vy);
    assert(draw(once, ram, base, rows, vx, vy) =~= display);
    if collides(once, ram, base, rows, vx, vy) {
        let p = choose|p: int|
            0 <= p < 2048 && #[trigger] once[p] && sprite_covers(
                ram,
                base,
                rows,
                vx,
                vy,
                p % 64,
                p / 64,
            );
        assert(!display[p] && sprite_covers(ram, base, rows, vx, vy, p % 64, p / 64));
    }
    if lights(display, ram, base, rows, vx, vy) {
        let p = choose|p: int|
            0 <= p < 2048 && !#[trigger] display[p] && sprite_covers(
                ram,
                base,
                rows,
                vx,
                vy,
                p % 64,
                p / 64,
            );
        assert(once[p] && sprite_covers(ram, base, rows, vx, vy, p % 64, p / 64));
    }
}

/// The place at which a sprite is drawn counts modulo the size of the
/// display: 64 across and 32 down.
pub proof fn law_draw_wraps(
    display: Seq<bool>,
    ram: Seq<u8>,
    base: int,
    rows: int,
    vx: int,
    vy: int,
)
    requires
        display.len() == 2048,
    ensures
        draw(display, ram, base, rows, vx, vy) == draw(display, ram, base, rows, vx % 64, vy % 32),
        collides(display, ram, base, rows, vx, vy) == collides(
            display,
            ram,
            base,
            rows,
            vx % 64,
            vy % 32,
        ),
{
    assert forall|x: int, y: int| #[trigger]
        sprite_covers(ram, base, rows, vx, vy, x, y) == sprite_covers(
            ram,
            base,
            rows,
            vx % 64,
            vy % 32,
            x,
            y,
        ) by {}
    assert(draw(display, ram, base, rows, vx, vy) =~= draw(
        display,
        ram,
        base,
        rows,
        vx % 64,
        vy % 32,
    ));
    if collides(display, ram, base, rows, vx, vy) {
        let p = choose|p: int|
            0 <= p < 2048 && #[trigger] display[p] && sprite_covers(
                ram,
                base,
                rows,
                vx,
                vy,
                p % 64,
                p / 64,
            );
        assert(display[p] && sprite_covers(ram, base, rows, vx % 64, vy % 32, p % 64, p / 64));
    }
    if collides(display, ram, base, rows, vx % 64, vy % 32) {
        let p = choose|p: int|
            0 <= p < 2048 && #[trigger] display[p] && sprite_covers(
                ram,
                base,
                rows,
                vx % 64,
                vy % 32,
                p % 64,
                p / 64,
            );
        assert(display[p] && sprite_covers(ram, base, rows, vx, vy, p % 64, p / 64));
    }
}

/// Storing registers 0 to x (Fx55) and loading them again (Fx65) from the
/// same address gives back what the registers held, whatever they were
/// given to hold in between, here `cleared`. Neither instruction faults
/// where the last of the bytes lies within memory.
pub proof fn law_store_load(s: Machine, x: int, cleared: Seq<u8>)
    requires
        s.wf(),
        0 <= x < 16,
        s.i + x < 4096,
        cleared.len() == 16,
    ensures
        exec_misc(s, x, 0x55) is Ok,
        exec_misc(Machine { v: cleared, ..exec_misc(s, x, 0x55)->Ok_0 }, x, 0x65) is Ok,
        ({
            let stored = exec_misc(s, x, 0x55)->Ok_0;
            let loaded = exec_misc(Machine { v: cleared, ..stored }, x, 0x65)->Ok_0;
            &&& forall|k: int| 0 <= k <= x ==> loaded.v[k] == s.v[k]
            &&& forall|k: int| x < k < 16 ==> loaded.v[k] == cleared[k]
            &&& loaded.ram == stored.ram
            &&& loaded.i == s.i
        }),
{
}

/// On a machine, too, drawing a sprite twice over puts the display back:
/// where neither coordinate register is register 15, which the first
/// drawing overwrites, the second drawing finds the same place, restores
/// the display, and leaves 1 in register 15 exactly if the first drawing
/// turned a cell on.
pub proof fn law_draw_twice_on_machine(s: Machine, x: int, y: int, rows: int)
    requires
        s.wf(),
        0 <= x < 15,
        0 <= y < 15,
    ensures
        s.draw_sprite(x, y, rows).draw_sprite(x, y, rows).display == s.display,
        s.draw_sprite(x, y, rows).draw_sprite(x, y, rows).v[15] == flag(
            lights(s.display, s.ram, s.i, rows, s.v[x] as int, s.v[y] as int),
        ),
{
    law_draw_twice(s.display, s.ram, s.i, rows, s.v[x] as int, s.v[y] as int);
}

} // verus!
