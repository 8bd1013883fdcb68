//! The framebuffer and the sprite blitter.

use vstd::prelude::*;

verus! {

/// Framebuffer width in pixels.
pub const SCREEN_WIDTH: usize = 64;

/// Framebuffer height in pixels.
pub const SCREEN_HEIGHT: usize = 32;

/// Number of pixels in the framebuffer.
pub const SCREEN_SIZE: usize = 2048;

/// Width of a sprite in pixels: one byte per row.
pub const SPRITE_WIDTH: usize = 8;

/// Greatest height of a sprite in rows.
pub const MAX_SPRITE_ROWS: usize = 15;

/// Character that stands for a lit pixel in a text frame: `#`.
pub const LIT: u8 = 0x23;

/// Character that stands for a dark pixel in a text frame: `.`.
pub const DARK: u8 = 0x2E;

/// Character that ends each row of a text frame: a line feed.
pub const ROW_END: u8 = 0x0A;

/// Length of one row of a text frame: the pixels and the line feed.
pub const TEXT_ROW: usize = 65;

/// Length of a text frame.
pub const TEXT_SIZE: usize = 2080;

/// The framebuffer as text: row after row, one character per pixel, `#` for
/// lit and `.` for dark, each row ended by a line feed.
pub open spec fn text_frame(screen: Seq<bool>) -> Seq<u8> {
    Seq::new(
        TEXT_SIZE as nat,
        |i: int|
            {
                let x = i % (TEXT_ROW as int);
                let y = i / (TEXT_ROW as int);
                if x == SCREEN_WIDTH {
                    ROW_END
                } else if screen[x + SCREEN_WIDTH * y] {
                    LIT
                } else {
                    DARK
                }
            },
    )
}

/// Whether the pixel at `column` (0 is leftmost) of a sprite row is on: the
/// most significant bit of the byte is the leftmost pixel.
pub open spec fn sprite_bit(row: u8, column: int) -> bool {
    (row >> ((7 - column) as u8)) & 1u8 == 1u8
}

/// Whether a sprite drawn at `(cx, cy)` has a set bit on pixel `(px, py)`.
///
/// Sprites wrap around both edges, so the bit at `column` of `row` lands on
/// `((cx + column) mod 64, (cy + row) mod 32)`; seen from the pixel, the only
/// bit that can land on it is the one at column `(px - cx) mod 64` of row
/// `(py - cy) mod 32`.
pub open spec fn sprite_covers(sprite: Seq<u8>, cx: int, cy: int, px: int, py: int) -> bool {
    let column = (px - cx) % 64;
    let row = (py - cy) % 32;
    column < 8 && row < sprite.len() && sprite_bit(sprite[row], column)
}

/// Whether a sprite drawn at `(cx, cy)` has a set bit on the pixel stored at
/// index `k` of the framebuffer, that is on column `k mod 64` of row `k / 64`.
pub open spec fn sprite_covers_index(sprite: Seq<u8>, cx: int, cy: int, k: int) -> bool {
    sprite_covers(sprite, cx, cy, k % 64, k / 64)
}

/// The framebuffer after a sprite is XORed onto it at `(cx, cy)`.
pub open spec fn blit(screen: Seq<bool>, sprite: Seq<u8>, cx: int, cy: int) -> Seq<bool> {
    Seq::new(screen.len(), |k: int| screen[k] != sprite_covers_index(sprite, cx, cy, k))
}

/// Whether XORing a sprite onto the framebuffer at `(cx, cy)` turns any lit
/// pixel off.
pub open spec fn collides(screen: Seq<bool>, sprite: Seq<u8>, cx: int, cy: int) -> bool {
    exists|k: int|
        0 <= k < screen.len() && screen[k] && #[trigger] sprite_covers_index(sprite, cx, cy, k)
}

/// The all-off framebuffer.
pub open spec fn blank() -> Seq<bool> {
    Seq::new(SCREEN_SIZE as nat, |k: int| false)
}

/// Index in the framebuffer of the pixel on which the bit at `column` of
/// `row` lands when a sprite is drawn at `(cx, cy)`.
pub open spec fn landing(cx: int, cy: int, row: int, column: int) -> int {
    (cx + column) % 64 + 64 * ((cy + row) % 32)
}

/// The part of a sprite already drawn once all rows before `rows_done` and
/// the first `columns_done` pixels of row `rows_done` have been handled.
spec fn covered_so_far(
    sprite: Seq<u8>,
    cx: int,
    cy: int,
    k: int,
    rows_done: int,
    columns_done: int,
) -> bool {
    let column = (k % 64 - cx) % 64;
    let row = (k / 64 - cy) % 32;
    sprite_covers_index(sprite, cx, cy, k) && (row < rows_done || (row == rows_done && column
        < columns_done))
}

/// Whether the part of a sprite already drawn has turned a lit pixel off.
spec fn collided_so_far(
    screen: Seq<bool>,
    sprite: Seq<u8>,
    cx: int,
    cy: int,
    rows_done: int,
    columns_done: int,
) -> bool {
    exists|k: int|
        0 <= k < screen.len() && screen[k] && #[trigger] covered_so_far(
            sprite,
            cx,
            cy,
            k,
            rows_done,
            columns_done,
        )
}

/// A pixel is where a sprite bit lands exactly when, seen from the pixel,
/// that bit is the one that can reach it.
pub proof fn lemma_landing_unique(cx: int, cy: int, row: int, column: int, k: int)
    requires
        0 <= k < SCREEN_SIZE,
        0 <= cx,
        0 <= cy,
        0 <= column < 64,
        0 <= row < 32,
    ensures
        0 <= landing(cx, cy, row, column) < SCREEN_SIZE,
        ((k % 64 - cx) % 64 == column && (k / 64 - cy) % 32 == row) <==> k == landing(
            cx,
            cy,
            row,
            column,
        ),
{
    let x = (cx + column) % 64;
    let y = (cy + row) % 32;
    assert((x + 64 * y) % 64 == x && (x + 64 * y) / 64 == y);
    assert((x - cx) % 64 == column);
    assert((y - cy) % 32 == row);
    if (k % 64 - cx) % 64 == column && (k / 64 - cy) % 32 == row {
        assert(k % 64 == x);
        assert(k / 64 == y);
    }
}

/// Handling one more sprite bit adds to the drawn part the pixel on which the
/// bit lands, if the bit is set, and nothing else.
proof fn lemma_cover_step(sprite: Seq<u8>, cx: int, cy: int, row: int, column: int, k: int)
    requires
        0 <= k < SCREEN_SIZE,
        0 <= cx,
        0 <= cy,
        0 <= column < 8,
        0 <= row < sprite.len(),
        sprite.len() <= 32,
    ensures
        covered_so_far(sprite, cx, cy, k, row, column + 1) == (covered_so_far(
            sprite,
            cx,
            cy,
            k,
            row,
            column,
        ) || (k == landing(cx, cy, row, column) && sprite_bit(sprite[row], column))),
        k == landing(cx, cy, row, column) ==> !covered_so_far(sprite, cx, cy, k, row, column),
{
    lemma_landing_unique(cx, cy, row, column, k);
}

/// One step of the blitter, seen as a change of the whole framebuffer.
proof fn lemma_draw_step(
    before: Seq<bool>,
    shown: Seq<bool>,
    next: Seq<bool>,
    sprite: Seq<u8>,
    cx: int,
    cy: int,
    row: int,
    column: int,
)
    requires
        before.len() == SCREEN_SIZE,
        shown.len() == SCREEN_SIZE,
        0 <= cx,
        0 <= cy,
        0 <= column < 8,
        0 <= row < sprite.len(),
        sprite.len() <= 32,
        forall|k: int|
            0 <= k < SCREEN_SIZE ==> #[trigger] shown[k] == (before[k] != covered_so_far(
                sprite,
                cx,
                cy,
                k,
                row,
                column,
            )),
        next == if sprite_bit(sprite[row], column) {
            shown.update(landing(cx, cy, row, column), !shown[landing(cx, cy, row, column)])
        } else {
            shown
        },
    ensures
        shown[landing(cx, cy, row, column)] == before[landing(cx, cy, row, column)],
        next.len() == SCREEN_SIZE,
        forall|k: int|
            0 <= k < SCREEN_SIZE ==> #[trigger] next[k] == (before[k] != covered_so_far(
                sprite,
                cx,
                cy,
                k,
                row,
                column + 1,
            )),
        collided_so_far(before, sprite, cx, cy, row, column + 1) == (collided_so_far(
            before,
            sprite,
            cx,
            cy,
            row,
            column,
        ) || (sprite_bit(sprite[row], column) && before[landing(cx, cy, row, column)])),
{
    let at = landing(cx, cy, row, column);
    let lit = sprite_bit(sprite[row], column);
    lemma_landing_unique(cx, cy, row, column, 0);
    lemma_cover_step(sprite, cx, cy, row, column, at);
    assert forall|k: int| 0 <= k < SCREEN_SIZE implies #[trigger] next[k] == (before[k]
        != covered_so_far(sprite, cx, cy, k, row, column + 1)) by {
        lemma_cover_step(sprite, cx, cy, row, column, k);
    }
    if collided_so_far(before, sprite, cx, cy, row, column + 1) {
        let k = choose|k: int|
            0 <= k < before.len() && before[k] && #[trigger] covered_so_far(
                sprite,
                cx,
                cy,
                k,
                row,
                column + 1,
            );
        lemma_cover_step(sprite, cx, cy, row, column, k);
        if k != at || !lit {
            assert(covered_so_far(sprite, cx, cy, k, row, column));
        }
    }
    if collided_so_far(before, sprite, cx, cy, row, column) {
        let k = choose|k: int|
            0 <= k < before.len() && before[k] && #[trigger] covered_so_far(
                sprite,
                cx,
                cy,
                k,
                row,
                column,
            );
        lemma_cover_step(sprite, cx, cy, row, column, k);
        assert(covered_so_far(sprite, cx, cy, k, row, column + 1));
    }
    if lit && before[at] {
        assert(covered_so_far(sprite, cx, cy, at, row, column + 1));
    }
}

/// Passing to the next row changes nothing of what has been drawn.
proof fn lemma_next_row(before: Seq<bool>, sprite: Seq<u8>, cx: int, cy: int, row: int)
    requires
        before.len() == SCREEN_SIZE,
    ensures
        forall|k: int|
            0 <= k < SCREEN_SIZE ==> #[trigger] covered_so_far(sprite, cx, cy, k, row, 8)
                == covered_so_far(sprite, cx, cy, k, row + 1, 0),
        collided_so_far(before, sprite, cx, cy, row, 8) == collided_so_far(
            before,
            sprite,
            cx,
            cy,
            row + 1,
            0,
        ),
{
    assert forall|k: int| 0 <= k < SCREEN_SIZE implies #[trigger] covered_so_far(
        sprite,
        cx,
        cy,
        k,
        row,
        8,
    ) == covered_so_far(sprite, cx, cy, k, row + 1, 0) by {}
    if collided_so_far(before, sprite, cx, cy, row, 8) {
        let k = choose|k: int|
            0 <= k < before.len() && before[k] && #[trigger] covered_so_far(
                sprite,
                cx,
                cy,
                k,
                row,
                8,
            );
        assert(covered_so_far(sprite, cx, cy, k, row + 1, 0));
    }
    if collided_so_far(before, sprite, cx, cy, row + 1, 0) {
        let k = choose|k: int|
            0 <= k < before.len() && before[k] && #[trigger] covered_so_far(
                sprite,
                cx,
                cy,
                k,
                row + 1,
                0,
            );
        assert(covered_so_far(sprite, cx, cy, k, row, 8));
    }
}

/// Before the first bit nothing has been drawn; after the last row the whole
/// sprite has.
proof fn lemma_cover_ends(before: Seq<bool>, sprite: Seq<u8>, cx: int, cy: int)
    requires
        before.len() == SCREEN_SIZE,
    ensures
        forall|k: int|
            0 <= k < SCREEN_SIZE ==> !#[trigger] covered_so_far(sprite, cx, cy, k, 0, 0),
        !collided_so_far(before, sprite, cx, cy, 0, 0),
        forall|k: int|
            0 <= k < SCREEN_SIZE ==> #[trigger] covered_so_far(
                sprite,
                cx,
                cy,
                k,
                sprite.len() as int,
                0,
            ) == sprite_covers_index(sprite, cx, cy, k),
        collided_so_far(before, sprite, cx, cy, sprite.len() as int, 0) == collides(
            before,
            sprite,
            cx,
            cy,
        ),
{
    let n = sprite.len() as int;
    if collided_so_far(before, sprite, cx, cy, n, 0) {
        let k = choose|k: int|
            0 <= k < before.len() && before[k] && #[trigger] covered_so_far(
                sprite,
                cx,
                cy,
                k,
                n,
                0,
            );
        assert(sprite_covers_index(sprite, cx, cy, k));
    }
    if collides(before, sprite, cx, cy) {
        let k = choose|k: int|
            0 <= k < before.len() && before[k] && #[trigger] sprite_covers_index(
                sprite,
                cx,
                cy,
                k,
            );
        assert(covered_so_far(sprite, cx, cy, k, n, 0));
    }
}

/// A 64 by 32 grid of monochrome pixels, stored row by row.
#[derive(Debug)]
pub struct Framebuffer {
    pixels: [bool; SCREEN_SIZE],
}

impl View for Framebuffer {
    type V = Seq<bool>;

    closed spec fn view(&self) -> Seq<bool> {
        self.pixels@
    }
}

impl Framebuffer {
    /// An all-off framebuffer.
    pub fn new() -> (screen: Framebuffer)
        ensures
            screen@ == blank(),
    {
        let screen = Framebuffer { pixels: [false; SCREEN_SIZE] };
        assert(screen@ =~= blank());
        screen
    }

    /// Turns every pixel off.
    pub fn clear(&mut self)
        ensures
            final(self)@ == blank(),
    {
        let mut k: usize = 0;
        while k < SCREEN_SIZE
            invariant
                k <= SCREEN_SIZE,
                self.pixels@.len() == SCREEN_SIZE,
                forall|j: int| 0 <= j < k ==> !self.pixels@[j],
            decreases SCREEN_SIZE - k,
        {
            self.pixels[k] = false;
            k += 1;
        }
        assert(self@ =~= blank());
    }

    /// Whether the pixel at column `x` of row `y` is on.
    pub fn pixel(&self, x: usize, y: usize) -> (on: bool)
        requires
            x < SCREEN_WIDTH,
            y < SCREEN_HEIGHT,
        ensures
            on == self@[x + 64 * y],
    {
        self.pixels[x + y * SCREEN_WIDTH]
    }

    /// The whole grid, row by row.
    pub fn pixels(&self) -> (pixels: &[bool; SCREEN_SIZE])
        ensures
            pixels@ == self@,
            self@.len() == SCREEN_SIZE,
    {
        &self.pixels
    }

    /// The framebuffer as text, for a terminal.
    pub fn to_text(&self) -> (text: Vec<u8>)
        ensures
            text@ == text_frame(self@),
    {
        let mut text: Vec<u8> = Vec::with_capacity(TEXT_SIZE);
        let mut y: usize = 0;
        while y < SCREEN_HEIGHT
            invariant
                y <= SCREEN_HEIGHT,
                text@.len() == 65 * y,
                forall|i: int| 0 <= i < text@.len() ==> text@[i] == text_frame(self@)[i],
            decreases SCREEN_HEIGHT - y,
        {
            let mut x: usize = 0;
            while x < SCREEN_WIDTH
                invariant
                    x <= SCREEN_WIDTH,
                    y < SCREEN_HEIGHT,
                    text@.len() == 65 * y + x,
                    forall|i: int| 0 <= i < text@.len() ==> text@[i] == text_frame(self@)[i],
                decreases SCREEN_WIDTH - x,
            {
                let on: bool = self.pixels[x + y * SCREEN_WIDTH];
                assert((65 * y + x) % 65 == x && (65 * y + x) / 65 == y);
                text.push(if on { LIT } else { DARK });
                x += 1;
            }
            assert((65 * y + 64) % 65 == 64);
            text.push(ROW_END);
            y += 1;
        }
        assert(text@ =~= text_frame(self@));
        text
    }

    /// XORs onto the framebuffer, at `(cx, cy)`, the sprite whose rows are the
    /// `count` bytes of `rows` from `start` on, wrapping around both edges.
    /// Returns whether any lit pixel was turned off.
    pub fn draw(&mut self, rows: &[u8], start: usize, count: usize, cx: u8, cy: u8) -> (collision:
        bool)
        requires
            count <= MAX_SPRITE_ROWS,
            start + count <= rows.len(),
        ensures
            final(self)@ == blit(
                old(self)@,
                rows@.subrange(start as int, start + count),
                cx as int,
                cy as int,
            ),
            collision == collides(
                old(self)@,
                rows@.subrange(start as int, start + count),
                cx as int,
                cy as int,
            ),
    {
        let ghost before = self@;
        let ghost sprite = rows@.subrange(start as int, start + count);
        let mut collision = false;
        let mut row: usize = 0;
        proof {
            lemma_cover_ends(before, sprite, cx as int, cy as int);
        }
        while row < count
            invariant
                row <= count,
                count <= MAX_SPRITE_ROWS,
                start + count <= rows.len(),
                sprite == rows@.subrange(start as int, start + count),
                before.len() == SCREEN_SIZE,
                self.pixels@.len() == SCREEN_SIZE,
                forall|k: int|
                    0 <= k < SCREEN_SIZE ==> #[trigger] self.pixels@[k] == (before[k]
                        != covered_so_far(sprite, cx as int, cy as int, k, row as int, 0)),
                collision == collided_so_far(before, sprite, cx as int, cy as int, row as int, 0),
            decreases count - row,
        {
            let bits: u8 = rows[start + row];
            let y: usize = (cy as usize + row) % SCREEN_HEIGHT;
            let mut column: usize = 0;
            while column < SPRITE_WIDTH
                invariant
                    column <= SPRITE_WIDTH,
                    row < count,
                    count <= MAX_SPRITE_ROWS,
                    sprite.len() == count,
                    bits == sprite[row as int],
                    y == (cy + row) % 32,
                    before.len() == SCREEN_SIZE,
                    self.pixels@.len() == SCREEN_SIZE,
                    forall|k: int|
                        0 <= k < SCREEN_SIZE ==> #[trigger] self.pixels@[k] == (before[k]
                            != covered_so_far(
                            sprite,
                            cx as int,
                            cy as int,
                            k,
                            row as int,
                            column as int,
                        )),
                    collision == collided_so_far(
                        before,
                        sprite,
                        cx as int,
                        cy as int,
                        row as int,
                        column as int,
                    ),
                decreases SPRITE_WIDTH - column,
            {
                let x: usize = (cx as usize + column) % SCREEN_WIDTH;
                let at: usize = x + y * SCREEN_WIDTH;
                let lit: bool = (bits >> ((7 - column) as u8)) & 1u8 == 1u8;
                let ghost shown = self.pixels@;
                if lit {
                    if self.pixels[at] {
                        collision = true;
                    }
                    let flipped: bool = !self.pixels[at];
                    self.pixels[at] = flipped;
                }
                proof {
                    lemma_draw_step(
                        before,
                        shown,
                        self.pixels@,
                        sprite,
                        cx as int,
                        cy as int,
                        row as int,
                        column as int,
                    );
                }
                column += 1;
            }
            proof {
                lemma_next_row(before, sprite, cx as int, cy as int, row as int);
            }
            row += 1;
        }
        proof {
            lemma_cover_ends(before, sprite, cx as int, cy as int);
            assert(self@ =~= blit(before, sprite, cx as int, cy as int));
        }
        collision
    }
}

} // verus!
