//! The display: drawing a sprite by exclusive-or, and rendering the screen as
//! text.

use vstd::prelude::*;
use vstd::string::*;

verus! {

/// Whether bit `column` of a sprite row is set, counting from the most
/// significant bit.
pub open spec fn sprite_bit(row: u8, column: u8) -> bool {
    row & (0x80u8 >> column) != 0
}

/// The column of the sprite that falls on display cell `p` when the sprite's
/// left edge is at `vx`: a value below 8 where the sprite reaches the cell.
pub open spec fn sprite_column(vx: u8, p: int) -> int {
    (p % 64 - vx) % 64
}

/// The row of the sprite that falls on display cell `p` when the sprite's top
/// edge is at `vy`.
pub open spec fn sprite_row(vy: u8, p: int) -> int {
    (p / 64 - vy) % 32
}

/// Whether a sprite of `height` rows, read from `memory` at `index` and drawn
/// with its top left corner at `(vx, vy)`, has a set bit on display cell `p`.
/// Coordinates wrap at the edges of the display.
pub open spec fn sprite_covers(
    memory: Seq<u8>,
    index: int,
    height: int,
    vx: u8,
    vy: u8,
    p: int,
) -> bool {
    let column = sprite_column(vx, p);
    let row = sprite_row(vy, p);
    column < 8 && row < height && sprite_bit(memory[index + row], column as u8)
}

/// The display after the sprite is drawn: every cell under a set bit of the
/// sprite is flipped, every other cell is kept.
pub open spec fn blit(
    gfx: Seq<u8>,
    memory: Seq<u8>,
    index: int,
    height: int,
    vx: u8,
    vy: u8,
) -> Seq<u8> {
    Seq::new(
        2048,
        |p: int|
            if sprite_covers(memory, index, height, vx, vy, p) {
                gfx[p] ^ 1
            } else {
                gfx[p]
            },
    )
}

/// Whether the sprite has a set bit on a cell that is lit before the draw.
pub open spec fn collides(
    gfx: Seq<u8>,
    memory: Seq<u8>,
    index: int,
    height: int,
    vx: u8,
    vy: u8,
) -> bool {
    exists|p: int| 0 <= p < 2048 && #[trigger] sprite_covers(memory, index, height, vx, vy, p)
        && gfx[p] == 1
}

/// Whether the draw loop has already passed the sprite bit that falls on cell
/// `p` when it stands before bit `column` of row `row`.
pub open spec fn passed(vx: u8, vy: u8, row: int, column: int, p: int) -> bool {
    sprite_row(vy, p) < row || (sprite_row(vy, p) == row && sprite_column(vx, p) < column)
}

/// The display cell that bit `column` of sprite row `row` falls on.
pub open spec fn target(vx: u8, vy: u8, row: int, column: int) -> int {
    ((vy + row) % 32) * 64 + (vx + column) % 64
}

/// Adding `offset` to `origin` and wrapping at 64 is undone by subtracting
/// `origin` and wrapping again.
pub proof fn lemma_wrap_columns(origin: int, offset: int, at: int)
    requires
        0 <= offset < 64,
        0 <= at < 64,
    ensures
        at == (origin + offset) % 64 <==> (at - origin) % 64 == offset,
{
}

/// Adding `offset` to `origin` and wrapping at 32 is undone by subtracting
/// `origin` and wrapping again.
pub proof fn lemma_wrap_rows(origin: int, offset: int, at: int)
    requires
        0 <= offset < 32,
        0 <= at < 32,
    ensures
        at == (origin + offset) % 32 <==> (at - origin) % 32 == offset,
{
}

/// `target` and the pair `sprite_row`, `sprite_column` are inverse to each
/// other: the sprite never reaches one cell twice.
pub proof fn lemma_target(vx: u8, vy: u8, row: int, column: int, p: int)
    requires
        0 <= row < 32,
        0 <= column < 64,
        0 <= p < 2048,
    ensures
        0 <= target(vx, vy, row, column) < 2048,
        p == target(vx, vy, row, column) <==> (sprite_row(vy, p) == row && sprite_column(vx, p)
            == column),
{
    let x = (vx + column) % 64;
    let y = (vy + row) % 32;
    lemma_wrap_columns(vx as int, column, p % 64);
    lemma_wrap_rows(vy as int, row, p / 64);
    assert(p == y * 64 + x <==> (p / 64 == y && p % 64 == x));
}

/// Draws a sprite of `height` rows, read from `memory` at `index`, with its
/// top left corner at `(vx, vy)`, and tells whether it hit a lit cell.
pub fn draw_sprite(
    gfx: &mut [u8; 2048],
    memory: &[u8; 4096],
    index: u16,
    height: u8,
    vx: u8,
    vy: u8,
) -> (hit: bool)
    requires
        height <= 15,
        height > 0 ==> index + height <= 4096,
    ensures
        final(gfx)@ == blit(old(gfx)@, memory@, index as int, height as int, vx, vy),
        hit == collides(old(gfx)@, memory@, index as int, height as int, vx, vy),
{
    let ghost before = gfx@;
    let ghost mem = memory@;
    let ghost idx = index as int;
    let ghost h = height as int;
    let mut hit = false;
    let mut row: u8 = 0;
    while row < height
        invariant
            row <= height <= 15,
            height > 0 ==> index + height <= 4096,
            before.len() == 2048,
            forall|p: int|
                0 <= p < 2048 ==> #[trigger] gfx@[p] == if sprite_covers(mem, idx, h, vx, vy, p)
                    && passed(vx, vy, row as int, 0, p) {
                    before[p] ^ 1
                } else {
                    before[p]
                },
            hit ==> collides(before, mem, idx, h, vx, vy),
            !hit ==> forall|p: int|
                0 <= p < 2048 && #[trigger] sprite_covers(mem, idx, h, vx, vy, p) && passed(
                    vx,
                    vy,
                    row as int,
                    0,
                    p,
                ) ==> before[p] != 1,
            mem == memory@,
            idx == index as int,
            h == height as int,
        decreases height - row,
    {
        let bits: u8 = memory[index as usize + row as usize];
        let mut column: u8 = 0;
        while column < 8
            invariant
                row < height <= 15,
                column <= 8,
                index + height <= 4096,
                before.len() == 2048,
                bits == mem[idx + row],
                forall|p: int|
                    0 <= p < 2048 ==> #[trigger] gfx@[p] == if sprite_covers(
                        mem,
                        idx,
                        h,
                        vx,
                        vy,
                        p,
                    ) && passed(vx, vy, row as int, column as int, p) {
                        before[p] ^ 1
                    } else {
                        before[p]
                    },
                hit ==> collides(before, mem, idx, h, vx, vy),
                !hit ==> forall|p: int|
                    0 <= p < 2048 && #[trigger] sprite_covers(mem, idx, h, vx, vy, p) && passed(
                        vx,
                        vy,
                        row as int,
                        column as int,
                        p,
                    ) ==> before[p] != 1,
                mem == memory@,
                idx == index as int,
                h == height as int,
            decreases 8 - column,
        {
            if bits & (0x80u8 >> column) != 0 {
                let x: usize = (vx as usize + column as usize) % 64;
                let y: usize = (vy as usize + row as usize) % 32;
                let cell: usize = y * 64 + x;
                proof {
                    lemma_target(vx, vy, row as int, column as int, cell as int);
                    assert(sprite_covers(mem, idx, h, vx, vy, cell as int));
                }
                if gfx[cell] == 1 {
                    hit = true;
                }
                gfx[cell] = gfx[cell] ^ 1;
            }
            proof {
                assert forall|p: int| 0 <= p < 2048 implies #[trigger] gfx@[p] == if sprite_covers(
                    mem,
                    idx,
                    h,
                    vx,
                    vy,
                    p,
                ) && passed(vx, vy, row as int, column + 1, p) {
                    before[p] ^ 1
                } else {
                    before[p]
                } by {
                    lemma_target(vx, vy, row as int, column as int, p);
                }
                if !hit {
                    assert forall|p: int|
                        0 <= p < 2048 && #[trigger] sprite_covers(mem, idx, h, vx, vy, p)
                            && passed(vx, vy, row as int, column + 1, p) implies before[p]
                        != 1 by {
                        lemma_target(vx, vy, row as int, column as int, p);
                    }
                }
            }
            column += 1;
        }
        proof {
            assert forall|p: int| 0 <= p < 2048 implies (passed(vx, vy, row as int, 8, p)
                && sprite_covers(mem, idx, h, vx, vy, p)) == (passed(vx, vy, row + 1, 0, p)
                && sprite_covers(mem, idx, h, vx, vy, p)) by {}
        }
        row += 1;
    }
    proof {
        assert forall|p: int| 0 <= p < 2048 && sprite_covers(mem, idx, h, vx, vy, p) implies passed(
            vx,
            vy,
            height as int,
            0,
            p,
        ) by {}
        assert(gfx@ =~= blit(before, mem, idx, h, vx, vy));
    }
    hit
}

/// The character that shows a display cell: `*` for a cell that holds 1, a
/// blank for any other.
pub open spec fn pixel_glyph(cell: u8) -> char {
    if cell == 1 {
        '*'
    } else {
        ' '
    }
}

/// The character that shows a display cell.
pub fn pixel_char(cell: u8) -> (glyph: char)
    ensures
        glyph == pixel_glyph(cell),
{
    if cell == 1 {
        '*'
    } else {
        ' '
    }
}

/// The display as text: 32 lines of 64 characters, one per cell, with a
/// newline between one line and the next.
pub open spec fn rendered(gfx: Seq<u8>) -> Seq<char> {
    Seq::new(
        (32 * 65 - 1) as nat,
        |k: int|
            if k % 65 == 64 {
                '\n'
            } else {
                pixel_glyph(gfx[(k / 65) * 64 + k % 65])
            },
    )
}

/// Renders the display as text.
pub fn render(gfx: &[u8; 2048]) -> (text: String)
    ensures
        text@ == rendered(gfx@),
{
    let mut text = String::new();
    let mut row: usize = 0;
    proof {
        reveal_strlit("*");
        reveal_strlit(" ");
        reveal_strlit("\n");
    }
    while row < 32
        invariant
            row <= 32,
            "*"@ == seq!['*'],
            " "@ == seq![' '],
            "\n"@ == seq!['\n'],
            text@.len() == if row == 0 {
                0
            } else {
                row * 65 - 1
            },
            forall|k: int| 0 <= k < text@.len() ==> text@[k] == rendered(gfx@)[k],
        decreases 32 - row,
    {
        if row > 0 {
            text.append("\n");
        }
        let mut column: usize = 0;
        while column < 64
            invariant
                row < 32,
                column <= 64,
                "*"@ == seq!['*'],
                " "@ == seq![' '],
                text@.len() == row * 65 + column,
                forall|k: int| 0 <= k < text@.len() ==> text@[k] == rendered(gfx@)[k],
            decreases 64 - column,
        {
            if gfx[row * 64 + column] == 1 {
                text.append("*");
            } else {
                text.append(" ");
            }
            column += 1;
        }
        row += 1;
    }
    assert(text@ =~= rendered(gfx@));
    text
}

} // verus!
