//! The 64x32 monochrome framebuffer and the effect of drawing a sprite on it.
//!
//! A sprite is a column of bytes, one per row, most significant bit on the
//! left. Drawing toggles the cells under the sprite's set bits. Coordinates
//! wrap: a sprite that runs past the right or the bottom edge continues at
//! the opposite edge.

use vstd::prelude::*;
use crate::memory::Memory;
use crate::memory::MEMORY_SIZE;

verus! {

/// Cells in a row.
pub const SCREEN_WIDTH: usize = 64;

/// Rows on the screen.
pub const SCREEN_HEIGHT: usize = 32;

/// Cells on the screen; the cell at column `x` of row `y` has index `x + 64 * y`.
pub const SCREEN_CELLS: usize = 2048;

/// Every cell of `gfx` is 0 (off) or 1 (on), and there are `SCREEN_CELLS` of them.
pub open spec fn is_frame(gfx: Seq<u8>) -> bool {
    &&& gfx.len() == SCREEN_CELLS
    &&& forall|p: int| 0 <= p < SCREEN_CELLS ==> #[trigger] gfx[p] == 0 || gfx[p] == 1
}

/// The screen with every cell off.
pub open spec fn blank() -> Seq<u8> {
    Seq::new(SCREEN_CELLS as nat, |p: int| 0u8)
}

/// Whether bit `col` of a sprite row is set, counting from the left.
pub open spec fn sprite_bit(row: u8, col: u8) -> bool {
    row & (0x80u8 >> col) != 0
}

/// Whether the cell with index `p` lies under a set bit of the first `rows`
/// full rows of `sprite`, or of the first `cols` bits of the row after them,
/// when the sprite's top left corner is at `(x, y)`.
#[verifier::opaque]
pub open spec fn toggled_within(
    sprite: Seq<u8>,
    x: u8,
    y: u8,
    p: int,
    rows: int,
    cols: int,
) -> bool {
    let col = (p % (SCREEN_WIDTH as int) - x) % (SCREEN_WIDTH as int);
    let row = (p / (SCREEN_WIDTH as int) - y) % (SCREEN_HEIGHT as int);
    &&& col < 8
    &&& row < sprite.len()
    &&& row < rows || (row == rows && col < cols)
    &&& sprite_bit(sprite[row], col as u8)
}

/// The screen after the part of `sprite` that [`toggled_within`] describes
/// was drawn at `(x, y)` on `gfx`.
pub open spec fn drawn_within(
    gfx: Seq<u8>,
    sprite: Seq<u8>,
    x: u8,
    y: u8,
    rows: int,
    cols: int,
) -> Seq<u8> {
    Seq::new(
        SCREEN_CELLS as nat,
        |p: int| if toggled_within(sprite, x, y, p, rows, cols) { gfx[p] ^ 1 } else { gfx[p] },
    )
}

/// Whether drawing that part of `sprite` turns a lit cell of `gfx` off.
pub open spec fn collides_within(
    gfx: Seq<u8>,
    sprite: Seq<u8>,
    x: u8,
    y: u8,
    rows: int,
    cols: int,
) -> bool {
    exists|p: int|
        0 <= p < SCREEN_CELLS && gfx[p] == 1 && #[trigger] toggled_within(
            sprite,
            x,
            y,
            p,
            rows,
            cols,
        )
}

/// Whether drawing `sprite` at `(x, y)` toggles the cell with index `p`: the
/// cell lies `col < 8` columns to the right of `x` and `row < sprite.len()`
/// rows below `y`, both counted round the edges, and bit `col` of that row of
/// the sprite is set.
pub open spec fn toggled(sprite: Seq<u8>, x: u8, y: u8, p: int) -> bool {
    toggled_within(sprite, x, y, p, sprite.len() as int, 0)
}

/// The screen after `sprite` was drawn at `(x, y)` on `gfx`: the toggled
/// cells are flipped, the others are kept.
pub open spec fn drawn(gfx: Seq<u8>, sprite: Seq<u8>, x: u8, y: u8) -> Seq<u8> {
    drawn_within(gfx, sprite, x, y, sprite.len() as int, 0)
}

/// Whether drawing `sprite` at `(x, y)` on `gfx` turns a lit cell off.
pub open spec fn collides(gfx: Seq<u8>, sprite: Seq<u8>, x: u8, y: u8) -> bool {
    collides_within(gfx, sprite, x, y, sprite.len() as int, 0)
}

/// The index of the cell under bit `col` of row `row` of a sprite drawn at
/// `(x, y)`.
pub open spec fn target_cell(x: u8, y: u8, row: int, col: int) -> int {
    (x + col) % (SCREEN_WIDTH as int) + ((y + row) % (SCREEN_HEIGHT as int)) * (
    SCREEN_WIDTH as int)
}

/// Taking one more bit of a row into account flips at most the cell under
/// that bit, which no earlier bit has reached.
#[verifier::rlimit(40)]
proof fn lemma_next_bit(gfx: Seq<u8>, sprite: Seq<u8>, x: u8, y: u8, row: int, col: int)
    requires
        gfx.len() == SCREEN_CELLS,
        0 <= row < sprite.len() <= SCREEN_HEIGHT,
        0 <= col < 8,
    ensures
        0 <= target_cell(x, y, row, col) < SCREEN_CELLS,
        drawn_within(gfx, sprite, x, y, row, col)[target_cell(x, y, row, col)] == gfx[target_cell(
            x,
            y,
            row,
            col,
        )],
        sprite_bit(sprite[row], col as u8) ==> drawn_within(gfx, sprite, x, y, row, col + 1)
            == drawn_within(gfx, sprite, x, y, row, col).update(
            target_cell(x, y, row, col),
            gfx[target_cell(x, y, row, col)] ^ 1,
        ),
        sprite_bit(sprite[row], col as u8) ==> (collides_within(gfx, sprite, x, y, row, col + 1)
            <==> collides_within(gfx, sprite, x, y, row, col) || gfx[target_cell(x, y, row, col)]
            == 1),
        !sprite_bit(sprite[row], col as u8) ==> drawn_within(gfx, sprite, x, y, row, col + 1)
            == drawn_within(gfx, sprite, x, y, row, col),
        !sprite_bit(sprite[row], col as u8) ==> (collides_within(gfx, sprite, x, y, row, col + 1)
            <==> collides_within(gfx, sprite, x, y, row, col)),
{
    reveal(toggled_within);
    let t = target_cell(x, y, row, col);
    let bit = sprite_bit(sprite[row], col as u8);
    assert(!toggled_within(sprite, x, y, t, row, col));
    assert forall|p: int| 0 <= p < SCREEN_CELLS implies (#[trigger] toggled_within(
        sprite,
        x,
        y,
        p,
        row,
        col + 1,
    ) <==> toggled_within(sprite, x, y, p, row, col) || (p == t && bit)) by {}
    assert forall|p: int| 0 <= p < SCREEN_CELLS && #[trigger] toggled_within(
        sprite,
        x,
        y,
        p,
        row,
        col,
    ) implies toggled_within(sprite, x, y, p, row, col + 1) by {}
    if bit {
        assert(toggled_within(sprite, x, y, t, row, col + 1));
        assert(drawn_within(gfx, sprite, x, y, row, col + 1) =~= drawn_within(
            gfx,
            sprite,
            x,
            y,
            row,
            col,
        ).update(t, gfx[t] ^ 1));
    } else {
        assert(drawn_within(gfx, sprite, x, y, row, col + 1) =~= drawn_within(
            gfx,
            sprite,
            x,
            y,
            row,
            col,
        ));
    }
}

/// A row taken whole is the same as the next row not yet begun.
proof fn lemma_next_row(gfx: Seq<u8>, sprite: Seq<u8>, x: u8, y: u8, row: int)
    requires
        0 <= row < sprite.len(),
    ensures
        drawn_within(gfx, sprite, x, y, row + 1, 0) == drawn_within(gfx, sprite, x, y, row, 8),
        collides_within(gfx, sprite, x, y, row + 1, 0) <==> collides_within(
            gfx,
            sprite,
            x,
            y,
            row,
            8,
        ),
{
    reveal(toggled_within);
    assert forall|p: int| 0 <= p < SCREEN_CELLS implies (#[trigger] toggled_within(
        sprite,
        x,
        y,
        p,
        row + 1,
        0,
    ) <==> toggled_within(sprite, x, y, p, row, 8)) by {}
    assert forall|p: int| 0 <= p < SCREEN_CELLS && #[trigger] toggled_within(
        sprite,
        x,
        y,
        p,
        row,
        8,
    ) implies toggled_within(sprite, x, y, p, row + 1, 0) by {}
    assert(drawn_within(gfx, sprite, x, y, row + 1, 0) =~= drawn_within(
        gfx,
        sprite,
        x,
        y,
        row,
        8,
    ));
}

/// Before any bit is taken into account nothing has changed.
proof fn lemma_nothing_drawn(gfx: Seq<u8>, sprite: Seq<u8>, x: u8, y: u8)
    requires
        gfx.len() == SCREEN_CELLS,
    ensures
        drawn_within(gfx, sprite, x, y, 0, 0) == gfx,
        !collides_within(gfx, sprite, x, y, 0, 0),
{
    reveal(toggled_within);
    assert(drawn_within(gfx, sprite, x, y, 0, 0) =~= gfx);
}

/// Draws the `rows` bytes that `memory` holds from `start` on as a sprite
/// with its top left corner at `(x, y)`, and tells whether a lit cell went
/// off.
pub fn draw_sprite(
    gfx: &mut [u8; SCREEN_CELLS],
    memory: &Memory,
    start: u16,
    rows: u8,
    x: u8,
    y: u8,
) -> (collision: bool)
    requires
        is_frame(old(gfx)@),
        rows <= SCREEN_HEIGHT,
        start + rows <= MEMORY_SIZE,
    ensures
        final(gfx)@ == drawn(
            old(gfx)@,
            memory@.subrange(start as int, start + rows),
            x,
            y,
        ),
        collision == collides(old(gfx)@, memory@.subrange(start as int, start + rows), x, y),
        is_frame(final(gfx)@),
{
    let ghost before = gfx@;
    let ghost sprite = memory@.subrange(start as int, start + rows);
    proof {
        memory.lemma_size();
        lemma_nothing_drawn(before, sprite, x, y);
    }
    let mut collision = false;
    let mut r: u8 = 0;
    while r < rows
        invariant
            r <= rows <= SCREEN_HEIGHT,
            start + rows <= MEMORY_SIZE,
            memory@.len() == MEMORY_SIZE,
            sprite == memory@.subrange(start as int, start + rows),
            is_frame(before),
            is_frame(gfx@),
            gfx@ == drawn_within(before, sprite, x, y, r as int, 0),
            collision == collides_within(before, sprite, x, y, r as int, 0),
        decreases rows - r,
    {
        let byte = memory.read(start + r as u16);
        let py: usize = (y as usize + r as usize) % SCREEN_HEIGHT;
        let mut c: u8 = 0;
        while c < 8
            invariant
                r < rows <= SCREEN_HEIGHT,
                c <= 8,
                sprite.len() == rows,
                byte == sprite[r as int],
                py == (y + r) % (SCREEN_HEIGHT as int),
                is_frame(before),
                is_frame(gfx@),
                gfx@ == drawn_within(before, sprite, x, y, r as int, c as int),
                collision == collides_within(before, sprite, x, y, r as int, c as int),
            decreases 8 - c,
        {
            proof {
                lemma_next_bit(before, sprite, x, y, r as int, c as int);
            }
            if byte & (0x80u8 >> c) != 0 {
                let px: usize = (x as usize + c as usize) % SCREEN_WIDTH;
                let idx: usize = px + py * SCREEN_WIDTH;
                let cell = gfx[idx];
                if cell == 1 {
                    collision = true;
                }
                assert(0u8 ^ 1u8 == 1u8 && 1u8 ^ 1u8 == 0u8) by (bit_vector);
                gfx[idx] = cell ^ 1;
            }
            c += 1;
        }
        proof {
            lemma_next_row(before, sprite, x, y, r as int);
        }
        r += 1;
    }
    collision
}

} // verus!
