use crate::ram::{wrap_address, Ram};
use vstd::prelude::*;

verus! {

/// Pixels in one row of the output bitmap. The bitmap holds one byte for each
/// pixel, row by row, 0 for off.
pub const WIDTH: usize = 64;

/// Rows of the output bitmap.
pub const HEIGHT: usize = 32;

/// Colour that the presenter shows for a pixel that is off.
pub const COLOR_OFF: u32 = 0x000000;

/// Colour that the presenter shows for a pixel that is on.
pub const COLOR_ON: u32 = 0xFFFFFF;

/// The pixel of a sprite row in the given column, 0 or 1; column 0 is the
/// most significant bit.
pub open spec fn sprite_bit(row_byte: u8, column: int) -> u8 {
    (row_byte >> ((7 - column) as u8)) & 1u8
}

/// The sprite row that lands on bitmap position `p` when the sprite's top is
/// at row `vy`, rows wrapping at the bottom edge.
pub open spec fn sprite_row(vy: u8, p: int) -> int {
    (p / 64 - vy) % 32
}

/// The sprite column that lands on bitmap position `p` when the sprite's left
/// edge is at column `vx`, columns wrapping at the right edge.
pub open spec fn sprite_column(vx: u8, p: int) -> int {
    (p % 64 - vx) % 64
}

/// Position `p` lies under the part of the sprite that is made of its first
/// `rows` rows and the first `columns` pixels of the row after them.
pub open spec fn under_sprite(vx: u8, vy: u8, rows: int, columns: int, p: int) -> bool {
    let row = sprite_row(vy, p);
    let column = sprite_column(vx, p);
    column < 8 && (row < rows || (row == rows && column < columns))
}

/// The sprite pixel that lands on position `p`, for a sprite whose rows are
/// the bytes of `memory` from address `index` on.
pub open spec fn sprite_pixel(memory: Seq<u8>, index: u16, vx: u8, vy: u8, p: int) -> u8 {
    sprite_bit(memory[wrap_address(index + sprite_row(vy, p))], sprite_column(vx, p))
}

/// The bitmap after the first `rows` rows of a sprite, and the first `columns`
/// pixels of the next row, were XORed onto `display`.
pub open spec fn drawn_partly(
    display: Seq<u8>,
    memory: Seq<u8>,
    index: u16,
    vx: u8,
    vy: u8,
    rows: int,
    columns: int,
) -> Seq<u8> {
    Seq::new(
        2048,
        |p: int|
            if under_sprite(vx, vy, rows, columns, p) {
                display[p] ^ sprite_pixel(memory, index, vx, vy, p)
            } else {
                display[p]
            },
    )
}

/// The bitmap after a sprite of `rows` rows was XORed onto `display` with its
/// top left corner at `(vx % 64, vy % 32)`.
#[verifier::opaque]
pub open spec fn drawn(display: Seq<u8>, memory: Seq<u8>, index: u16, rows: int, vx: u8, vy: u8) -> Seq<
    u8,
> {
    drawn_partly(display, memory, index, vx, vy, rows, 0)
}

/// Drawing `bit` onto a pixel that holds `before` turns a lit pixel off.
pub open spec fn erases(before: u8, bit: u8) -> bool {
    before != 0 && before ^ bit == 0
}

/// Some pixel under the first `rows` rows of the sprite, or under the first
/// `columns` pixels of the next row, is turned off by the drawing.
pub open spec fn collides_partly(
    display: Seq<u8>,
    memory: Seq<u8>,
    index: u16,
    vx: u8,
    vy: u8,
    rows: int,
    columns: int,
) -> bool {
    exists|p: int|
        0 <= p < 2048 && #[trigger] under_sprite(vx, vy, rows, columns, p) && erases(
            display[p],
            sprite_pixel(memory, index, vx, vy, p),
        )
}

/// Drawing the sprite turns at least one lit pixel off.
#[verifier::opaque]
pub open spec fn collides(display: Seq<u8>, memory: Seq<u8>, index: u16, rows: int, vx: u8, vy: u8) -> bool {
    collides_partly(display, memory, index, vx, vy, rows, 0)
}

/// A blank bitmap.
pub open spec fn blank() -> Seq<u8> {
    Seq::new(2048, |p: int| 0u8)
}

/// Turns every pixel off.
pub fn clear(display: &mut [u8; 2048])
    ensures
        final(display)@ == blank(),
{
    *display = [0u8; 2048];
    assert(display@ =~= blank());
}

/// The bitmap position that pixel `column` of sprite row `row` lands on.
pub open spec fn landing(vx: u8, vy: u8, row: int, column: int) -> int {
    ((vy + row) % 32) * 64 + (vx + column) % 64
}

/// Distinct sprite pixels land on distinct positions, and the position tells
/// which sprite pixel landed there.
proof fn lemma_landing(vx: u8, vy: u8, row: int, column: int)
    requires
        0 <= row < 32,
        0 <= column < 8,
    ensures
        0 <= landing(vx, vy, row, column) < 2048,
        sprite_row(vy, landing(vx, vy, row, column)) == row,
        sprite_column(vx, landing(vx, vy, row, column)) == column,
        forall|p: int|
            0 <= p < 2048 && sprite_row(vy, p) == row && sprite_column(vx, p) == column ==> p
                == landing(vx, vy, row, column),
{
    let py = (vy + row) % 32;
    let px = (vx + column) % 64;
    let q = py * 64 + px;
    assert(q / 64 == py && q % 64 == px);
    assert((py - vy) % 32 == row);
    assert((px - vx) % 64 == column);
    assert forall|p: int|
        0 <= p < 2048 && sprite_row(vy, p) == row && sprite_column(vx, p) == column implies p
        == q by {
        assert(p / 64 == py);
        assert(p % 64 == px);
    }
}

/// What one more sprite pixel adds to a partly drawn sprite.
proof fn lemma_draw_pixel(
    display: Seq<u8>,
    memory: Seq<u8>,
    index: u16,
    vx: u8,
    vy: u8,
    row: int,
    column: int,
)
    requires
        display.len() == 2048,
        0 <= row < 32,
        0 <= column < 8,
    ensures
        ({
            let q = landing(vx, vy, row, column);
            let bit = sprite_bit(memory[wrap_address(index + row)], column);
            let so_far = drawn_partly(display, memory, index, vx, vy, row, column);
            &&& 0 <= q < 2048
            &&& so_far[q] == display[q]
            &&& drawn_partly(display, memory, index, vx, vy, row, column + 1) == so_far.update(
                q,
                display[q] ^ bit,
            )
            &&& collides_partly(display, memory, index, vx, vy, row, column + 1) == (
            collides_partly(display, memory, index, vx, vy, row, column) || erases(display[q], bit))
        }),
{
    let q = landing(vx, vy, row, column);
    let bit = sprite_bit(memory[wrap_address(index + row)], column);
    let so_far = drawn_partly(display, memory, index, vx, vy, row, column);
    let further = drawn_partly(display, memory, index, vx, vy, row, column + 1);
    lemma_landing(vx, vy, row, column);
    assert(!under_sprite(vx, vy, row, column, q));
    assert(under_sprite(vx, vy, row, column + 1, q));
    assert(bit == sprite_pixel(memory, index, vx, vy, q));
    assert forall|p: int| 0 <= p < 2048 && p != q implies under_sprite(vx, vy, row, column + 1, p)
        == under_sprite(vx, vy, row, column, p) by {}
    assert(further =~= so_far.update(q, display[q] ^ bit));
    if collides_partly(display, memory, index, vx, vy, row, column) {
        let w = choose|p: int|
            0 <= p < 2048 && #[trigger] under_sprite(vx, vy, row, column, p) && erases(
                display[p],
                sprite_pixel(memory, index, vx, vy, p),
            );
        assert(under_sprite(vx, vy, row, column + 1, w));
    }
    if collides_partly(display, memory, index, vx, vy, row, column + 1) {
        let w = choose|p: int|
            0 <= p < 2048 && #[trigger] under_sprite(vx, vy, row, column + 1, p) && erases(
                display[p],
                sprite_pixel(memory, index, vx, vy, p),
            );
        if w != q {
            assert(under_sprite(vx, vy, row, column, w));
        }
    }
}

/// A sprite row is done after its eighth pixel.
proof fn lemma_draw_row_done(
    display: Seq<u8>,
    memory: Seq<u8>,
    index: u16,
    vx: u8,
    vy: u8,
    row: int,
)
    requires
        display.len() == 2048,
        0 <= row < 32,
    ensures
        drawn_partly(display, memory, index, vx, vy, row, 8) == drawn_partly(
            display,
            memory,
            index,
            vx,
            vy,
            row + 1,
            0,
        ),
        collides_partly(display, memory, index, vx, vy, row, 8) == collides_partly(
            display,
            memory,
            index,
            vx,
            vy,
            row + 1,
            0,
        ),
{
    assert forall|p: int| 0 <= p < 2048 implies under_sprite(vx, vy, row, 8, p) == under_sprite(
        vx,
        vy,
        row + 1,
        0,
        p,
    ) by {}
    assert(drawn_partly(display, memory, index, vx, vy, row, 8) =~= drawn_partly(
        display,
        memory,
        index,
        vx,
        vy,
        row + 1,
        0,
    ));
    if collides_partly(display, memory, index, vx, vy, row, 8) {
        let w = choose|p: int|
            0 <= p < 2048 && #[trigger] under_sprite(vx, vy, row, 8, p) && erases(
                display[p],
                sprite_pixel(memory, index, vx, vy, p),
            );
        assert(under_sprite(vx, vy, row + 1, 0, w));
    }
    if collides_partly(display, memory, index, vx, vy, row + 1, 0) {
        let w = choose|p: int|
            0 <= p < 2048 && #[trigger] under_sprite(vx, vy, row + 1, 0, p) && erases(
                display[p],
                sprite_pixel(memory, index, vx, vy, p),
            );
        assert(under_sprite(vx, vy, row, 8, w));
    }
}

/// Before its first pixel is drawn a sprite has changed nothing.
proof fn lemma_draw_nothing(display: Seq<u8>, memory: Seq<u8>, index: u16, vx: u8, vy: u8)
    requires
        display.len() == 2048,
    ensures
        drawn_partly(display, memory, index, vx, vy, 0, 0) == display,
        !collides_partly(display, memory, index, vx, vy, 0, 0),
{
    assert(drawn_partly(display, memory, index, vx, vy, 0, 0) =~= display);
}

/// XORs a sprite onto the bitmap.
///
/// The sprite's rows are the `rows` bytes of memory from address `index` on,
/// most significant bit leftmost. Its top left pixel lands on column
/// `vx % 64` of row `vy % 32`; pixels that would fall off an edge wrap round
/// to the opposite one. Returns whether a lit pixel was turned off.
///
/// A sprite has at most `HEIGHT` rows, so that no row of it lands on
/// another; an instruction can ask for 15 at most.
pub fn draw_sprite(
    display: &mut [u8; 2048],
    ram: &Ram,
    index: u16,
    rows: u8,
    vx: u8,
    vy: u8,
) -> (collision: bool)
    requires
        rows <= 32,
    ensures
        final(display)@ == drawn(old(display)@, ram@, index, rows as int, vx, vy),
        collision == collides(old(display)@, ram@, index, rows as int, vx, vy),
{
    let ghost before = display@;
    let ghost memory = ram@;
    let mut collision = false;
    let mut row: u8 = 0;
    proof {
        reveal(drawn);
        reveal(collides);
        lemma_draw_nothing(before, memory, index, vx, vy);
    }
    while row < rows
        invariant
            row <= rows <= 32,
            before.len() == 2048,
            memory == ram@,
            display@ == drawn_partly(before, memory, index, vx, vy, row as int, 0),
            collision == collides_partly(before, memory, index, vx, vy, row as int, 0),
        decreases rows - row,
    {
        let row_byte: u8 = ram.read_byte(index.wrapping_add(row as u16));
        let py: usize = (vy as usize + row as usize) % 32;
        let mut column: u8 = 0;
        while column < 8
            invariant
                row < rows <= 32,
                column <= 8,
                before.len() == 2048,
                py == (vy + row) % 32,
                row_byte == memory[wrap_address(index + row)],
                display@ == drawn_partly(
                    before,
                    memory,
                    index,
                    vx,
                    vy,
                    row as int,
                    column as int,
                ),
                collision == collides_partly(
                    before,
                    memory,
                    index,
                    vx,
                    vy,
                    row as int,
                    column as int,
                ),
            decreases 8 - column,
        {
            let bit: u8 = (row_byte >> (7 - column)) & 1;
            let px: usize = (vx as usize + column as usize) % 64;
            let position: usize = py * 64 + px;
            proof {
                lemma_draw_pixel(before, memory, index, vx, vy, row as int, column as int);
            }
            let lit: u8 = display[position];
            display[position] = lit ^ bit;
            if lit != 0 && lit ^ bit == 0 {
                collision = true;
            }
            column = column + 1;
        }
        proof {
            lemma_draw_row_done(before, memory, index, vx, vy, row as int);
        }
        row = row + 1;
    }
    collision
}

/// The sprite of `rows` rows at address `index` has a pixel that is set.
pub open spec fn sprite_has_pixel(memory: Seq<u8>, index: u16, rows: int) -> bool {
    exists|row: int, column: int|
        0 <= row < rows && 0 <= column < 8 && #[trigger] sprite_bit(
            memory[wrap_address(index + row)],
            column,
        ) == 1
}

/// XOR with the same byte twice gives the first byte back, and the bytes 0
/// and 1 behave under XOR as bits do.
proof fn lemma_xor(a: u8, b: u8)
    by (bit_vector)
    ensures
        (a ^ b) ^ b == a,
        0u8 ^ 1u8 == 1u8,
        1u8 ^ 1u8 == 0u8,
        0u8 ^ 0u8 == 0u8,
{
}

/// Drawing the same sprite twice at the same place gives the bitmap back,
/// whatever it held.
pub proof fn lemma_draw_twice_restores(
    display: Seq<u8>,
    memory: Seq<u8>,
    index: u16,
    rows: int,
    vx: u8,
    vy: u8,
)
    requires
        display.len() == 2048,
    ensures
        drawn(drawn(display, memory, index, rows, vx, vy), memory, index, rows, vx, vy)
            == display,
{
    reveal(drawn);
    let once = drawn(display, memory, index, rows, vx, vy);
    let twice = drawn(once, memory, index, rows, vx, vy);
    assert forall|p: int| 0 <= p < 2048 implies twice[p] == display[p] by {
        lemma_xor(display[p], sprite_pixel(memory, index, vx, vy, p));
    }
    assert(twice =~= display);
}

/// On a blank bitmap the first drawing of a sprite turns no pixel off. If the
/// sprite has a pixel that is set, drawing it a second time at the same place
/// does, and leaves the bitmap blank again.
pub proof fn lemma_redraw_collides(memory: Seq<u8>, index: u16, rows: int, vx: u8, vy: u8)
    requires
        0 <= rows <= 32,
        sprite_has_pixel(memory, index, rows),
    ensures
        !collides(blank(), memory, index, rows, vx, vy),
        collides(drawn(blank(), memory, index, rows, vx, vy), memory, index, rows, vx, vy),
        drawn(drawn(blank(), memory, index, rows, vx, vy), memory, index, rows, vx, vy)
            == blank(),
{
    reveal(drawn);
    reveal(collides);
    let once = drawn(blank(), memory, index, rows, vx, vy);
    lemma_draw_twice_restores(blank(), memory, index, rows, vx, vy);
    let (row, column) = choose|row: int, column: int|
        0 <= row < rows && 0 <= column < 8 && #[trigger] sprite_bit(
            memory[wrap_address(index + row)],
            column,
        ) == 1;
    let q = landing(vx, vy, row, column);
    lemma_landing(vx, vy, row, column);
    lemma_xor(0, 0);
    assert(under_sprite(vx, vy, rows, 0, q));
    assert(sprite_pixel(memory, index, vx, vy, q) == 1);
    assert(once[q] == 1);
    assert(erases(once[q], sprite_pixel(memory, index, vx, vy, q)));
}

/// The colours that the presenter shows for a bitmap: `COLOR_OFF` for a
/// pixel that is 0 and `COLOR_ON` for any other.
pub fn pixel_colors(display: &[u8; 2048]) -> (colors: [u32; 2048])
    ensures
        forall|p: int|
            0 <= p < 2048 ==> #[trigger] colors@[p] == if display@[p] == 0 {
                COLOR_OFF
            } else {
                COLOR_ON
            },
{
    let mut colors: [u32; 2048] = [COLOR_OFF; 2048];
    let mut p: usize = 0;
    while p < 2048
        invariant
            p <= 2048,
            forall|k: int|
                0 <= k < p ==> #[trigger] colors@[k] == if display@[k] == 0 {
                    COLOR_OFF
                } else {
                    COLOR_ON
                },
        decreases 2048 - p,
    {
        if display[p] != 0 {
            colors[p] = COLOR_ON;
        } else {
            colors[p] = COLOR_OFF;
        }
        p = p + 1;
    }
    colors
}

} // verus!
