//! What drawing a sprite does to the display, stated cell by cell.

use vstd::prelude::*;
use crate::machine::{RAM_SIZE, SCREEN_CELLS, SCREEN_WIDTH};

verus! {

/// Whether column `col` of a sprite row is lit. A row is one byte, eight
/// cells wide, and its most significant bit is column 0.
pub open spec fn row_bit(bits: u8, col: int) -> bool {
    0 <= col < 8 && (bits & (0x80u8 >> (col as u8))) != 0
}

/// Whether the sprite of `rows` rows stored at `base`, drawn with its top
/// left corner at `(vx, vy)`, has a lit cell at the display cell `(x, y)`.
/// Columns wrap round at 64 and rows at 32.
pub open spec fn sprite_covers(
    ram: Seq<u8>,
    base: int,
    rows: int,
    vx: int,
    vy: int,
    x: int,
    y: int,
) -> bool {
    let col = (x - vx) % 64;
    let row = (y - vy) % 32;
    row < rows && row_bit(ram[base + row], col)
}

/// The display after the sprite is drawn: each cell the sprite covers is
/// toggled, every other cell is kept.
pub open spec fn draw(
    display: Seq<bool>,
    ram: Seq<u8>,
    base: int,
    rows: int,
    vx: int,
    vy: int,
) -> Seq<bool> {
    Seq::new(
        2048,
        |p: int| display[p] != sprite_covers(ram, base, rows, vx, vy, p % 64, p / 64),
    )
}

/// Whether drawing the sprite turns off a cell that was on.
pub open spec fn collides(
    display: Seq<bool>,
    ram: Seq<u8>,
    base: int,
    rows: int,
    vx: int,
    vy: int,
) -> bool {
    exists|p: int|
        0 <= p < 2048 && #[trigger] display[p] && sprite_covers(
            ram,
            base,
            rows,
            vx,
            vy,
            p % 64,
            p / 64,
        )
}

/// Whether drawing the sprite turns on a cell that was off.
pub open spec fn lights(
    display: Seq<bool>,
    ram: Seq<u8>,
    base: int,
    rows: int,
    vx: int,
    vy: int,
) -> bool {
    exists|p: int|
        0 <= p < 2048 && !#[trigger] display[p] && sprite_covers(
            ram,
            base,
            rows,
            vx,
            vy,
            p % 64,
            p / 64,
        )
}

/// The index of the display cell that column `col` of row `row` of a sprite
/// drawn at `(vx, vy)` falls on.
pub open spec fn target_cell(vx: int, vy: int, row: int, col: int) -> int {
    (vx + col) % 64 + 64 * ((vy + row) % 32)
}

/// Whether the sprite covers cell `p` with one of the sprite positions that
/// come before column `col` of row `row`, rows taken from the top and each
/// row from the left.
pub open spec fn covered_before(
    ram: Seq<u8>,
    base: int,
    rows: int,
    vx: int,
    vy: int,
    p: int,
    row: int,
    col: int,
) -> bool {
    let c = (p % 64 - vx) % 64;
    let r = (p / 64 - vy) % 32;
    sprite_covers(ram, base, rows, vx, vy, p % 64, p / 64) && (r < row || (r == row && c < col))
}

/// The display when the sprite positions before column `col` of row `row`
/// have been drawn.
pub open spec fn partial_draw(
    display: Seq<bool>,
    ram: Seq<u8>,
    base: int,
    rows: int,
    vx: int,
    vy: int,
    row: int,
    col: int,
) -> Seq<bool> {
    Seq::new(2048, |p: int| display[p] != covered_before(ram, base, rows, vx, vy, p, row, col))
}

/// Whether one of the sprite positions before column `col` of row `row`
/// falls on a cell that was on.
pub open spec fn partial_collides(
    display: Seq<bool>,
    ram: Seq<u8>,
    base: int,
    rows: int,
    vx: int,
    vy: int,
    row: int,
    col: int,
) -> bool {
    exists|p: int|
        0 <= p < 2048 && #[trigger] display[p] && covered_before(
            ram,
            base,
            rows,
            vx,
            vy,
            p,
            row,
            col,
        )
}

/// A sprite position falls on exactly one cell, and no two positions of a
/// sprite fall on the same cell.
pub proof fn lemma_target_cell(vx: int, vy: int, row: int, col: int, p: int)
    requires
        0 <= vx,
        0 <= vy,
        0 <= row < 32,
        0 <= col < 64,
        0 <= p < 2048,
    ensures
        0 <= target_cell(vx, vy, row, col) < 2048,
        ((p % 64 - vx) % 64 == col && (p / 64 - vy) % 32 == row) <==> p == target_cell(
            vx,
            vy,
            row,
            col,
        ),
{
}

/// Before anything is drawn the display is as it was.
pub proof fn lemma_draw_start(
    display: Seq<bool>,
    ram: Seq<u8>,
    base: int,
    rows: int,
    vx: int,
    vy: int,
)
    requires
        display.len() == 2048,
    ensures
        partial_draw(display, ram, base, rows, vx, vy, 0, 0) == display,
        !partial_collides(display, ram, base, rows, vx, vy, 0, 0),
{
    assert(partial_draw(display, ram, base, rows, vx, vy, 0, 0) =~= display);
}

/// Drawing one sprite position toggles its cell where the sprite is lit
/// there, and collides where that cell was on.
pub proof fn lemma_draw_cell(
    display: Seq<bool>,
    ram: Seq<u8>,
    base: int,
    rows: int,
    vx: int,
    vy: int,
    row: int,
    col: int,
)
    requires
        display.len() == 2048,
        0 <= vx,
        0 <= vy,
        0 <= row < rows <= 32,
        0 <= col < 8,
    ensures
        ({
            let idx = target_cell(vx, vy, row, col);
            let lit = row_bit(ram[base + row], col);
            let now = partial_draw(display, ram, base, rows, vx, vy, row, col);
            let next = partial_draw(display, ram, base, rows, vx, vy, row, col + 1);
            &&& 0 <= idx < 2048
            &&& now[idx] == display[idx]
            &&& next == if lit {
                now.update(idx, !now[idx])
            } else {
                now
            }
            &&& partial_collides(display, ram, base, rows, vx, vy, row, col + 1) == (
            partial_collides(display, ram, base, rows, vx, vy, row, col) || (lit && display[idx]))
        }),
{
    let idx = target_cell(vx, vy, row, col);
    let lit = row_bit(ram[base + row], col);
    let now = partial_draw(display, ram, base, rows, vx, vy, row, col);
    let next = partial_draw(display, ram, base, rows, vx, vy, row, col + 1);
    lemma_target_cell(vx, vy, row, col, idx);
    assert forall|p: int| 0 <= p < 2048 implies covered_before(
        ram,
        base,
        rows,
        vx,
        vy,
        p,
        row,
        col + 1,
    ) == (covered_before(ram, base, rows, vx, vy, p, row, col) || (p == idx && lit)) by {
        lemma_target_cell(vx, vy, row, col, p);
    }
    assert(!covered_before(ram, base, rows, vx, vy, idx, row, col));
    if lit {
        assert(next =~= now.update(idx, !now[idx]));
    } else {
        assert(next =~= now);
    }
    let before = partial_collides(display, ram, base, rows, vx, vy, row, col);
    let after = partial_collides(display, ram, base, rows, vx, vy, row, col + 1);
    if before {
        let p = choose|p: int|
            0 <= p < 2048 && #[trigger] display[p] && covered_before(
                ram,
                base,
                rows,
                vx,
                vy,
                p,
                row,
                col,
            );
        assert(display[p] && covered_before(ram, base, rows, vx, vy, p, row, col + 1));
    }
    if lit && display[idx] {
        assert(display[idx] && covered_before(ram, base, rows, vx, vy, idx, row, col + 1));
    }
    if after {
        let p = choose|p: int|
            0 <= p < 2048 && #[trigger] display[p] && covered_before(
                ram,
                base,
                rows,
                vx,
                vy,
                p,
                row,
                col + 1,
            );
        if p != idx {
            assert(display[p] && covered_before(ram, base, rows, vx, vy, p, row, col));
        }
    }
}

/// A row that is drawn to its end is a finished row.
pub proof fn lemma_draw_row_end(
    display: Seq<bool>,
    ram: Seq<u8>,
    base: int,
    rows: int,
    vx: int,
    vy: int,
    row: int,
)
    requires
        display.len() == 2048,
    ensures
        partial_draw(display, ram, base, rows, vx, vy, row, 8) == partial_draw(
            display,
            ram,
            base,
            rows,
            vx,
            vy,
            row + 1,
            0,
        ),
        partial_collides(display, ram, base, rows, vx, vy, row, 8) == partial_collides(
            display,
            ram,
            base,
            rows,
            vx,
            vy,
            row + 1,
            0,
        ),
{
    assert forall|p: int| 0 <= p < 2048 implies covered_before(
        ram,
        base,
        rows,
        vx,
        vy,
        p,
        row,
        8,
    ) == covered_before(ram, base, rows, vx, vy, p, row + 1, 0) by {}
    assert(partial_draw(display, ram, base, rows, vx, vy, row, 8) =~= partial_draw(
        display,
        ram,
        base,
        rows,
        vx,
        vy,
        row + 1,
        0,
    ));
    if partial_collides(display, ram, base, rows, vx, vy, row, 8) {
        let p = choose|p: int|
            0 <= p < 2048 && #[trigger] display[p] && covered_before(
                ram,
                base,
                rows,
                vx,
                vy,
                p,
                row,
                8,
            );
        assert(display[p] && covered_before(ram, base, rows, vx, vy, p, row + 1, 0));
    }
    if partial_collides(display, ram, base, rows, vx, vy, row + 1, 0) {
        let p = choose|p: int|
            0 <= p < 2048 && #[trigger] display[p] && covered_before(
                ram,
                base,
                rows,
                vx,
                vy,
                p,
                row + 1,
                0,
            );
        assert(display[p] && covered_before(ram, base, rows, vx, vy, p, row, 8));
    }
}

/// When the last row is finished the sprite is drawn.
pub proof fn lemma_draw_end(
    display: Seq<bool>,
    ram: Seq<u8>,
    base: int,
    rows: int,
    vx: int,
    vy: int,
)
    requires
        display.len() == 2048,
    ensures
        partial_draw(display, ram, base, rows, vx, vy, rows, 0) == draw(
            display,
            ram,
            base,
            rows,
            vx,
            vy,
        ),
        partial_collides(display, ram, base, rows, vx, vy, rows, 0) == collides(
            display,
            ram,
            base,
            rows,
            vx,
            vy,
        ),
{
    assert(partial_draw(display, ram, base, rows, vx, vy, rows, 0) =~= draw(
        display,
        ram,
        base,
        rows,
        vx,
        vy,
    ));
    if partial_collides(display, ram, base, rows, vx, vy, rows, 0) {
        let p = choose|p: int|
            0 <= p < 2048 && #[trigger] display[p] && covered_before(
                ram,
                base,
                rows,
                vx,
                vy,
                p,
                rows,
                0,
            );
        assert(display[p] && sprite_covers(ram, base, rows, vx, vy, p % 64, p / 64));
    }
    if collides(display, ram, base, rows, vx, vy) {
        let p = choose|p: int|
            0 <= p < 2048 && #[trigger] display[p] && sprite_covers(
                ram,
                base,
                rows,
                vx,
                vy,
                p % 64,
                p / 64,
            );
        assert(display[p] && covered_before(ram, base, rows, vx, vy, p, rows, 0));
    }
}

/// Draws the sprite of `rows` rows stored at `base` onto `screen` with its
/// top left corner at `(vx, vy)`, and tells whether a cell went from on to
/// off.
pub fn blit(
    screen: &mut [bool; SCREEN_CELLS],
    ram: &[u8; RAM_SIZE],
    base: usize,
    rows: usize,
    vx: u8,
    vy: u8,
) -> (hit: bool)
    requires
        rows <= 32,
        rows > 0 ==> base + rows <= 4096,
    ensures
        final(screen)@ == draw(old(screen)@, ram@, base as int, rows as int, vx as int, vy as int),
        hit == collides(old(screen)@, ram@, base as int, rows as int, vx as int, vy as int),
    no_unwind
{
    let ghost before = screen@;
    let ghost b = base as int;
    let ghost n = rows as int;
    let mut hit: bool = false;
    let mut row: usize = 0;
    proof {
        lemma_draw_start(before, ram@, b, n, vx as int, vy as int);
    }
    while row < rows
        invariant
            row <= rows <= 32,
            base + rows <= 4096 || rows == 0,
            b == base,
            n == rows,
            before.len() == 2048,
            screen@ == partial_draw(before, ram@, b, n, vx as int, vy as int, row as int, 0),
            hit == partial_collides(before, ram@, b, n, vx as int, vy as int, row as int, 0),
        decreases rows - row,
    {
        let bits: u8 = ram[base + row];
        let mut col: u8 = 0;
        while col < 8
            invariant
                col <= 8,
                row < rows <= 32,
                b == base,
                n == rows,
                bits == ram@[base + row],
                before.len() == 2048,
                screen@ == partial_draw(
                    before,
                    ram@,
                    b,
                    n,
                    vx as int,
                    vy as int,
                    row as int,
                    col as int,
                ),
                hit == partial_collides(
                    before,
                    ram@,
                    b,
                    n,
                    vx as int,
                    vy as int,
                    row as int,
                    col as int,
                ),
            decreases 8 - col,
        {
            proof {
                lemma_draw_cell(before, ram@, b, n, vx as int, vy as int, row as int, col as int);
            }
            if bits & (0x80u8 >> col) != 0 {
                let x: usize = (vx as usize + col as usize) % 64;
                let y: usize = (vy as usize + row) % 32;
                let idx: usize = x + 64 * y;
                let lit: bool = screen[idx];
                hit = hit || lit;
                screen[idx] = !lit;
            }
            col += 1;
        }
        proof {
            lemma_draw_row_end(before, ram@, b, n, vx as int, vy as int, row as int);
        }
        row += 1;
    }
    proof {
        lemma_draw_end(before, ram@, b, n, vx as int, vy as int);
    }
    hit
}

/// The column and the row of the display cell at `index`.
pub fn cell_coords(index: usize) -> (res: (usize, usize))
    ensures
        res.0 == index % 64,
        res.1 == index / 64,
        res.0 < 64,
        index == res.0 + 64 * res.1,
        index < 2048 ==> res.1 < 32,
{
    (index % SCREEN_WIDTH, index / SCREEN_WIDTH)
}

} // verus!
