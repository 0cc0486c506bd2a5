//! The 64x32 monochrome frame buffer and sprite drawing by exclusive or.

use vstd::prelude::*;
use crate::text;

verus! {

/// Pixels in a row of the screen.
pub const SCREEN_WIDTH: usize = 64;

/// Rows of the screen.
pub const SCREEN_HEIGHT: usize = 32;

/// Most rows a sprite can have.
pub const MAX_SPRITE_SIZE: usize = 15;

/// Whether a draw turned off a pixel that was on.
pub type IsPixelOverwritten = bool;

/// A draw was asked for a sprite of more rows than a sprite can have.
#[derive(Copy, Clone, Debug, PartialEq, Eq, Structural)]
pub struct InvalidSpriteSizeError {
    /// Number of rows of the sprite that was refused.
    pub size: usize,
}

impl InvalidSpriteSizeError {
    /// The error for a sprite of `size` rows.
    pub fn new(size: usize) -> (error: InvalidSpriteSizeError)
        ensures
            error == (InvalidSpriteSizeError { size }),
    {
        InvalidSpriteSizeError { size }
    }

    /// The message: it names the size in decimal.
    pub open spec fn spec_message(self) -> Seq<char> {
        "Draw attempted using invalid sprite size "@ + text::decimal(self.size as nat)
    }

    /// What happened, in words.
    pub fn message(&self) -> (text: String)
        ensures
            text@ == self.spec_message(),
    {
        let mut text = "Draw attempted using invalid sprite size ".to_owned();
        text::push_decimal(&mut text, self.size);
        text
    }
}

/// Value of the bit that stands for pixel `j` of a sprite row, the leftmost
/// pixel being the most significant bit.
pub open spec fn weight(j: int) -> int {
    if j == 0 {
        128
    } else if j == 1 {
        64
    } else if j == 2 {
        32
    } else if j == 3 {
        16
    } else if j == 4 {
        8
    } else if j == 5 {
        4
    } else if j == 6 {
        2
    } else if j == 7 {
        1
    } else {
        0
    }
}

/// Whether pixel `j` of the sprite row `line` is set; a row has eight pixels.
pub open spec fn sprite_bit(line: u8, j: int) -> bool {
    0 <= j < 8 && (line as int / weight(j)) % 2 == 1
}

/// Whether the sprite row `line`, drawn from column `x`, sets the pixel in
/// column `c`. Columns wrap round at the right edge.
pub open spec fn line_pixel(line: u8, x: int, c: int) -> bool {
    sprite_bit(line, (c - x) % 64)
}

/// The number whose bits are the first `k` of `bits`, most significant first
/// in a byte.
pub open spec fn packed(bits: Seq<bool>, k: int) -> int
    decreases k,
{
    if k <= 0 {
        0
    } else {
        packed(bits, k - 1) + if bits[k - 1] {
            weight(k - 1)
        } else {
            0
        }
    }
}

/// The eight pixels of `row` from column `x` on, wrapping round the right edge.
pub open spec fn bits_under(row: Seq<bool>, x: int) -> Seq<bool> {
    Seq::new(8, |j: int| row[(x + j) % 64])
}

/// The eight pixels of `row` from column `x` on, wrapping, as one byte.
pub open spec fn row_byte(row: Seq<bool>, x: int) -> u8 {
    packed(bits_under(row, x), 8) as u8
}

/// Whether the first `rows` rows of `sprite`, drawn at column `x` and row `y`,
/// set the pixel in row `r` and column `c`. Rows wrap round at the bottom.
pub open spec fn covered(sprite: Seq<u8>, rows: int, x: int, y: int, r: int, c: int) -> bool {
    let i = (r - y) % 32;
    i < rows && i < sprite.len() && line_pixel(sprite[i], x, c)
}

/// `pixels` after the first `rows` rows of `sprite` were drawn at `(x, y)`:
/// each pixel that the sprite sets is flipped.
pub open spec fn blit(pixels: Seq<Seq<bool>>, sprite: Seq<u8>, rows: int, x: int, y: int) -> Seq<
    Seq<bool>,
> {
    Seq::new(32, |r: int| Seq::new(64, |c: int| pixels[r][c] ^ covered(sprite, rows, x, y, r, c)))
}

/// Whether the first `rows` rows of `sprite`, drawn at `(x, y)`, set a pixel
/// that is on in `pixels`.
pub open spec fn overlaps(pixels: Seq<Seq<bool>>, sprite: Seq<u8>, rows: int, x: int, y: int) -> bool {
    exists|r: int, c: int|
        0 <= r < 32 && 0 <= c < 64 && #[trigger] pixels[r][c] && covered(sprite, rows, x, y, r, c)
}

/// The pixels of `pixels` that lie under row `i` of a sprite at `(x, y)`, as one byte.
pub open spec fn under(pixels: Seq<Seq<bool>>, x: int, y: int, i: int) -> u8 {
    row_byte(pixels[(y + i) % 32], x)
}

/// What a screen holds, as mathematical values.
pub struct ScreenView {
    /// The pixels, row by row from the top; 32 rows of 64.
    pub pixels: Seq<Seq<bool>>,
    /// Whether anything was drawn or cleared since the flag was last reset.
    pub changed: bool,
    /// The rows of the sprite drawn last.
    pub last_drawn_sprite: Option<Seq<u8>>,
    /// What lay under each row of that sprite before it was drawn.
    pub last_draw_area: Option<Seq<u8>>,
    /// What lay under each row of that sprite after it was drawn.
    pub last_draw_result: Option<Seq<u8>>,
}

impl ScreenView {
    /// The screen has 32 rows of 64 pixels.
    pub open spec fn wf(self) -> bool {
        &&& self.pixels.len() == 32
        &&& forall|r: int| 0 <= r < 32 ==> (#[trigger] self.pixels[r]).len() == 64
    }

    /// A dark screen on which nothing was drawn yet.
    pub open spec fn blank() -> ScreenView {
        ScreenView {
            pixels: Seq::new(32, |r: int| Seq::new(64, |c: int| false)),
            changed: false,
            last_drawn_sprite: None,
            last_draw_area: None,
            last_draw_result: None,
        }
    }

    /// The screen with every pixel off, marked as changed.
    pub open spec fn clear(self) -> ScreenView {
        ScreenView {
            pixels: Seq::new(32, |r: int| Seq::new(64, |c: int| false)),
            changed: true,
            ..self
        }
    }

    /// Whether drawing `sprite` at `(x, y)` turns off a pixel that is on.
    pub open spec fn collides(self, x: int, y: int, sprite: Seq<u8>) -> bool {
        overlaps(self.pixels, sprite, sprite.len() as int, x, y)
    }

    /// The screen after `sprite` was drawn at `(x, y)`.
    pub open spec fn draw(self, x: int, y: int, sprite: Seq<u8>) -> ScreenView {
        let after = blit(self.pixels, sprite, sprite.len() as int, x, y);
        ScreenView {
            pixels: after,
            changed: true,
            last_drawn_sprite: Some(sprite),
            last_draw_area: Some(Seq::new(sprite.len(), |i: int| under(self.pixels, x, y, i))),
            last_draw_result: Some(Seq::new(sprite.len(), |i: int| under(after, x, y, i))),
        }
    }

    /// The screen with the changed flag taken down.
    pub open spec fn reset_changed(self) -> ScreenView {
        ScreenView { changed: false, ..self }
    }
}

/// The view of an optional byte vector.
pub open spec fn bytes_view(bytes: Option<Vec<u8>>) -> Option<Seq<u8>> {
    match bytes {
        Some(v) => Some(v@),
        None => None,
    }
}

/// Whether one of the first `k` pixels of the sprite row `line`, drawn from
/// column `x`, falls on a pixel of `row` that is on.
pub open spec fn line_hits(row: Seq<bool>, line: u8, x: int, k: int) -> bool {
    exists|c: int| 0 <= c < 64 && #[trigger] row[c] && (c - x) % 64 < k && line_pixel(line, x, c)
}

/// `row` after the first `k` pixels of the sprite row `line` were drawn from column `x`.
pub open spec fn line_blit(row: Seq<bool>, line: u8, x: int, k: int) -> Seq<bool> {
    Seq::new(64, |c: int| row[c] ^ ((c - x) % 64 < k && line_pixel(line, x, c)))
}

/// One more pixel of a sprite row hits what the pixels before it hit, or the
/// pixel under it.
proof fn lemma_line_hits_step(row: Seq<bool>, line: u8, x: int, k: int)
    requires
        0 <= k < 8,
        0 <= x < 256,
    ensures
        line_hits(row, line, x, k + 1) <==> line_hits(row, line, x, k) || (row[(x + k) % 64]
            && sprite_bit(line, k)),
{
    let at = (x + k) % 64;
    assert((at - x) % 64 == k);
    if line_hits(row, line, x, k + 1) {
        let c = choose|c: int|
            0 <= c < 64 && #[trigger] row[c] && (c - x) % 64 < k + 1 && line_pixel(line, x, c);
        if (c - x) % 64 == k {
            assert(c == at);
        } else {
            assert(row[c] && (c - x) % 64 < k && line_pixel(line, x, c));
        }
    }
    if line_hits(row, line, x, k) {
        let c = choose|c: int|
            0 <= c < 64 && #[trigger] row[c] && (c - x) % 64 < k && line_pixel(line, x, c);
        assert(row[c] && (c - x) % 64 < k + 1 && line_pixel(line, x, c));
    }
    if row[at] && sprite_bit(line, k) {
        assert(row[at] && (at - x) % 64 < k + 1 && line_pixel(line, x, at));
    }
}

/// One more row of a sprite overlaps what the rows before it overlap, or what
/// the row itself hits.
proof fn lemma_overlaps_step(pixels: Seq<Seq<bool>>, sprite: Seq<u8>, i: int, x: int, y: int)
    requires
        0 <= i < sprite.len(),
        i < 32,
        0 <= y < 256,
    ensures
        overlaps(pixels, sprite, i + 1, x, y) <==> overlaps(pixels, sprite, i, x, y) || line_hits(
            pixels[(y + i) % 32],
            sprite[i],
            x,
            8,
        ),
{
    let at = (y + i) % 32;
    assert((at - y) % 32 == i);
    if overlaps(pixels, sprite, i + 1, x, y) {
        let (r, c) = choose|r: int, c: int|
            0 <= r < 32 && 0 <= c < 64 && #[trigger] pixels[r][c] && covered(
                sprite,
                i + 1,
                x,
                y,
                r,
                c,
            );
        if (r - y) % 32 == i {
            assert(r == at);
            assert(pixels[at][c] && (c - x) % 64 < 8 && line_pixel(sprite[i], x, c));
        } else {
            assert(pixels[r][c] && covered(sprite, i, x, y, r, c));
        }
    }
    if overlaps(pixels, sprite, i, x, y) {
        let (r, c) = choose|r: int, c: int|
            0 <= r < 32 && 0 <= c < 64 && #[trigger] pixels[r][c] && covered(sprite, i, x, y, r, c);
        assert(pixels[r][c] && covered(sprite, i + 1, x, y, r, c));
    }
    if line_hits(pixels[at], sprite[i], x, 8) {
        let c = choose|c: int|
            0 <= c < 64 && #[trigger] pixels[at][c] && (c - x) % 64 < 8 && line_pixel(
                sprite[i],
                x,
                c,
            );
        assert(pixels[at][c] && covered(sprite, i + 1, x, y, at, c));
    }
}

/// Where a sprite is drawn depends on its column modulo 64 and its row modulo
/// 32 only: the pixels it sets are the same.
pub proof fn lemma_covered_wraps(sprite: Seq<u8>, rows: int, x: int, y: int, r: int, c: int)
    ensures
        covered(sprite, rows, x, y, r, c) == covered(sprite, rows, x % 64, y % 32, r, c),
{
    assert((r - y) % 32 == (r - y % 32) % 32);
    assert((c - x) % 64 == (c - x % 64) % 64);
}

/// Pixels and overlap are those of the position taken modulo the screen.
proof fn lemma_blit_wraps(pixels: Seq<Seq<bool>>, sprite: Seq<u8>, rows: int, x: int, y: int)
    ensures
        blit(pixels, sprite, rows, x, y) == blit(pixels, sprite, rows, x % 64, y % 32),
        overlaps(pixels, sprite, rows, x, y) == overlaps(pixels, sprite, rows, x % 64, y % 32),
{
    assert forall|r: int, c: int| #[trigger]
        covered(sprite, rows, x, y, r, c) == covered(sprite, rows, x % 64, y % 32, r, c) by {
        lemma_covered_wraps(sprite, rows, x, y, r, c);
    }
    assert(blit(pixels, sprite, rows, x, y) =~~= blit(pixels, sprite, rows, x % 64, y % 32));
    if overlaps(pixels, sprite, rows, x, y) {
        let (r, c) = choose|r: int, c: int|
            0 <= r < 32 && 0 <= c < 64 && #[trigger] pixels[r][c] && covered(sprite, rows, x, y, r, c);
        assert(pixels[r][c] && covered(sprite, rows, x % 64, y % 32, r, c));
    }
    if overlaps(pixels, sprite, rows, x % 64, y % 32) {
        let (r, c) = choose|r: int, c: int|
            0 <= r < 32 && 0 <= c < 64 && #[trigger] pixels[r][c] && covered(
                sprite,
                rows,
                x % 64,
                y % 32,
                r,
                c,
            );
        lemma_covered_wraps(sprite, rows, x, y, r, c);
        assert(pixels[r][c] && covered(sprite, rows, x, y, r, c));
    }
}

/// The pixels under a sprite row are those of the position taken modulo the screen.
proof fn lemma_under_wraps(pixels: Seq<Seq<bool>>, x: int, y: int, i: int)
    ensures
        under(pixels, x, y, i) == under(pixels, x % 64, y % 32, i),
{
    assert((y + i) % 32 == (y % 32 + i) % 32);
    let row = pixels[(y + i) % 32];
    assert forall|j: int| 0 <= j < 8 implies #[trigger] bits_under(row, x)[j] == bits_under(
        row,
        x % 64,
    )[j] by {
        assert((x + j) % 64 == (x % 64 + j) % 64);
    }
    assert(bits_under(row, x) =~= bits_under(row, x % 64));
}

/// Drawing at `(x, y)` is drawing at `(x mod 64, y mod 32)`: the same pixels
/// change, the same collision is reported and the same record is kept.
pub proof fn lemma_draw_wraps(screen: ScreenView, x: u8, y: u8, sprite: Seq<u8>)
    ensures
        screen.draw(x as int, y as int, sprite) == screen.draw(x as int % 64, y as int % 32, sprite),
        screen.collides(x as int, y as int, sprite) == screen.collides(
            x as int % 64,
            y as int % 32,
            sprite,
        ),
{
    let n = sprite.len() as int;
    let (xi, yi) = (x as int, y as int);
    let (xw, yw) = (x as int % 64, y as int % 32);
    lemma_blit_wraps(screen.pixels, sprite, n, xi, yi);
    let after = blit(screen.pixels, sprite, n, xi, yi);
    assert forall|i: int| #[trigger]
        under(screen.pixels, xi, yi, i) == under(screen.pixels, xw, yw, i) by {
        lemma_under_wraps(screen.pixels, xi, yi, i);
    }
    assert forall|i: int| #[trigger] under(after, xi, yi, i) == under(after, xw, yw, i) by {
        lemma_under_wraps(after, xi, yi, i);
    }
    assert(Seq::new(sprite.len(), |i: int| under(screen.pixels, xi, yi, i)) =~= Seq::new(
        sprite.len(),
        |i: int| under(screen.pixels, xw, yw, i),
    ));
    assert(Seq::new(sprite.len(), |i: int| under(after, xi, yi, i)) =~= Seq::new(
        sprite.len(),
        |i: int| under(after, xw, yw, i),
    ));
}

/// Drawing a sprite a second time at the same place puts every pixel back as
/// it was before the first draw. The second draw reports a collision exactly
/// when the sprite sets a pixel that was off before the first: that pixel is
/// on in between, and goes off again.
pub proof fn lemma_draw_twice(screen: ScreenView, x: u8, y: u8, sprite: Seq<u8>)
    requires
        screen.wf(),
        sprite.len() <= 15,
    ensures
        screen.draw(x as int, y as int, sprite).draw(x as int, y as int, sprite).pixels
            == screen.pixels,
        screen.draw(x as int, y as int, sprite).collides(x as int, y as int, sprite) <==> exists|
            r: int,
            c: int,
        |
            0 <= r < 32 && 0 <= c < 64 && !(#[trigger] screen.pixels[r][c]) && covered(
                sprite,
                sprite.len() as int,
                x as int,
                y as int,
                r,
                c,
            ),
{
    let n = sprite.len() as int;
    let (xi, yi) = (x as int, y as int);
    let once = screen.draw(xi, yi, sprite);
    let twice = once.draw(xi, yi, sprite);
    assert forall|r: int| 0 <= r < 32 implies #[trigger] twice.pixels[r] == screen.pixels[r] by {
        assert(twice.pixels[r] =~= screen.pixels[r]);
    }
    assert(twice.pixels =~= screen.pixels);
    if once.collides(xi, yi, sprite) {
        let (r, c) = choose|r: int, c: int|
            0 <= r < 32 && 0 <= c < 64 && #[trigger] once.pixels[r][c] && covered(
                sprite,
                n,
                xi,
                yi,
                r,
                c,
            );
        assert(!screen.pixels[r][c] && covered(sprite, n, xi, yi, r, c));
    }
    if exists|r: int, c: int|
        0 <= r < 32 && 0 <= c < 64 && !(#[trigger] screen.pixels[r][c]) && covered(
            sprite,
            n,
            xi,
            yi,
            r,
            c,
        ) {
        let (r, c) = choose|r: int, c: int|
            0 <= r < 32 && 0 <= c < 64 && !(#[trigger] screen.pixels[r][c]) && covered(
                sprite,
                n,
                xi,
                yi,
                r,
                c,
            );
        assert(once.pixels[r][c] && covered(sprite, n, xi, yi, r, c));
    }
}

/// The mask `0x80 >> i` is the weight of pixel `i`, and picks that pixel out
/// of a sprite row.
proof fn lemma_mask(line: u8, i: u8)
    requires
        i < 8,
    ensures
        (0x80u8 >> i) == weight(i as int),
        ((line & (0x80u8 >> i)) != 0) == sprite_bit(line, i as int),
{
    let mask = 0x80u8 >> i;
    assert(i < 8 ==> 0x80u8 >> i == (if i == 0 {
        128u8
    } else if i == 1 {
        64u8
    } else if i == 2 {
        32u8
    } else if i == 3 {
        16u8
    } else if i == 4 {
        8u8
    } else if i == 5 {
        4u8
    } else if i == 6 {
        2u8
    } else {
        1u8
    })) by (bit_vector);
    assert((mask == 128 || mask == 64 || mask == 32 || mask == 16 || mask == 8 || mask == 4 || mask
        == 2 || mask == 1) ==> (((line & mask) != 0) == ((line / mask) % 2 == 1)))
        by (bit_vector);
}

/// What drawing pixel `k` of a sprite row adds to the row drawn so far, to
/// the collision and to the two record bytes.
proof fn lemma_line_step(before: Seq<bool>, line: u8, x: int, k: int)
    requires
        0 <= k < 8,
        0 <= x < 256,
        before.len() == 64,
    ensures
        ({
            let at = (x + k) % 64;
            let now = line_blit(before, line, x, k);
            let done = line_blit(before, line, x, 8);
            &&& 0 <= at < 64
            &&& now[at] == before[at]
            &&& now.update(at, before[at] != sprite_bit(line, k)) == line_blit(before, line, x, k + 1)
            &&& line_hits(before, line, x, k + 1) <==> line_hits(before, line, x, k) || (
            sprite_bit(line, k) && before[at])
            &&& packed(bits_under(before, x), k + 1) == packed(bits_under(before, x), k) + (
            if before[at] {
                weight(k)
            } else {
                0
            })
            &&& packed(bits_under(done, x), k + 1) == packed(bits_under(done, x), k) + (if before[at]
                != sprite_bit(line, k) {
                weight(k)
            } else {
                0
            })
        }),
{
    let at = (x + k) % 64;
    let now = line_blit(before, line, x, k);
    let done = line_blit(before, line, x, 8);
    assert((at - x) % 64 == k);
    assert(now.update(at, before[at] != sprite_bit(line, k)) =~= line_blit(before, line, x, k + 1))
        by {
        let next = line_blit(before, line, x, k + 1);
        let flipped = now.update(at, before[at] != sprite_bit(line, k));
        assert forall|c: int| 0 <= c < 64 implies #[trigger] flipped[c] == next[c] by {
            if c != at && (c - x) % 64 == k {
                assert(c == (x + k) % 64);
            }
        }
    }
    lemma_line_hits_step(before, line, x, k);
    assert(bits_under(before, x)[k] == before[at]);
    assert(bits_under(done, x)[k] == (before[at] != sprite_bit(line, k)));
}

/// The frame buffer, with a record of the last draw for inspection.
pub struct Screen {
    screen: [[bool; SCREEN_WIDTH]; SCREEN_HEIGHT],
    has_changed: bool,
    last_drawn_sprite: Option<Vec<u8>>,
    last_draw_result: Option<Vec<u8>>,
    last_draw_area: Option<Vec<u8>>,
}

impl View for Screen {
    type V = ScreenView;

    closed spec fn view(&self) -> ScreenView {
        ScreenView {
            pixels: Seq::new(32, |r: int| Seq::new(64, |c: int| self.screen@[r]@[c])),
            changed: self.has_changed,
            last_drawn_sprite: bytes_view(self.last_drawn_sprite),
            last_draw_area: bytes_view(self.last_draw_area),
            last_draw_result: bytes_view(self.last_draw_result),
        }
    }
}

/// A copy of an optional byte vector.
fn copy_bytes(bytes: &Option<Vec<u8>>) -> (copy: Option<Vec<u8>>)
    ensures
        bytes_view(copy) == bytes_view(*bytes),
{
    match bytes {
        Some(v) => {
            let c = v.clone();
            assert(c@ =~= v@);
            Some(c)
        },
        None => None,
    }
}

impl Screen {
    /// Every screen has 32 rows of 64 pixels.
    pub proof fn lemma_wf(&self)
        ensures
            self@.wf(),
    {
    }

    /// A dark screen.
    pub fn new() -> (screen: Screen)
        ensures
            screen@ == ScreenView::blank(),
    {
        let screen = Screen {
            screen: [[false; SCREEN_WIDTH]; SCREEN_HEIGHT],
            has_changed: false,
            last_drawn_sprite: None,
            last_draw_result: None,
            last_draw_area: None,
        };
        assert(screen@.pixels =~~= ScreenView::blank().pixels);
        screen
    }

    /// The rows of the sprite drawn last, if any was drawn.
    pub fn inspect_last_drawn_sprite(&self) -> (sprite: Option<Vec<u8>>)
        ensures
            bytes_view(sprite) == self@.last_drawn_sprite,
    {
        copy_bytes(&self.last_drawn_sprite)
    }

    /// What lay under the sprite drawn last, before it was drawn.
    pub fn inspect_last_draw_area(&self) -> (area: Option<Vec<u8>>)
        ensures
            bytes_view(area) == self@.last_draw_area,
    {
        copy_bytes(&self.last_draw_area)
    }

    /// What lay under the sprite drawn last, after it was drawn.
    pub fn inspect_last_draw_result(&self) -> (result: Option<Vec<u8>>)
        ensures
            bytes_view(result) == self@.last_draw_result,
    {
        copy_bytes(&self.last_draw_result)
    }

    /// Turns every pixel off and marks the screen as changed.
    pub fn clear(&mut self)
        ensures
            final(self)@ == old(self)@.clear(),
    {
        self.screen = [[false; SCREEN_WIDTH]; SCREEN_HEIGHT];
        self.has_changed = true;
        assert(self@.pixels =~~= old(self)@.clear().pixels);
    }

    /// Draws one row of a sprite into row `y mod 32` from column `x` on, and
    /// appends to the record what lay under it before and after. Tells
    /// whether a pixel that was on went off.
    fn draw_sprite_line(&mut self, x: u8, y: u8, sprite_line: u8) -> (hit: bool)
        requires
            old(self).last_draw_area is Some,
            old(self).last_draw_result is Some,
        ensures
            final(self)@.pixels.len() == 32,
            forall|r: int|
                0 <= r < 32 ==> #[trigger] final(self)@.pixels[r] == (if r == y % 32 {
                    line_blit(old(self)@.pixels[r], sprite_line, x as int, 8)
                } else {
                    old(self)@.pixels[r]
                }),
            final(self)@.changed,
            final(self)@.last_drawn_sprite == old(self)@.last_drawn_sprite,
            final(self)@.last_draw_area == Some(
                old(self)@.last_draw_area->Some_0.push(
                    row_byte(old(self)@.pixels[y as int % 32], x as int),
                ),
            ),
            final(self)@.last_draw_result == Some(
                old(self)@.last_draw_result->Some_0.push(
                    row_byte(final(self)@.pixels[y as int % 32], x as int),
                ),
            ),
            hit == line_hits(old(self)@.pixels[y as int % 32], sprite_line, x as int, 8),
    {
        let mut is_pixel_overwritten = false;
        let wrapped_y = (y as usize) % SCREEN_HEIGHT;

        let mut draw_line: u8 = 0;
        let mut draw_area: u8 = 0;

        let ghost before = self.screen@[wrapped_y as int]@;
        let ghost after = line_blit(before, sprite_line, x as int, 8);
        assert(self.screen@[wrapped_y as int]@ =~= line_blit(before, sprite_line, x as int, 0));

        let mut i: u8 = 0;
        while i < 8
            invariant
                i <= 8,
                wrapped_y < 32,
                before.len() == 64,
                forall|r: int|
                    0 <= r < 32 && r != wrapped_y ==> #[trigger] self.screen@[r] == old(
                        self,
                    ).screen@[r],
                self.screen@[wrapped_y as int]@ == line_blit(
                    before,
                    sprite_line,
                    x as int,
                    i as int,
                ),
                draw_area == packed(bits_under(before, x as int), i as int),
                draw_line == packed(
                    bits_under(line_blit(before, sprite_line, x as int, 8), x as int),
                    i as int,
                ),
                draw_area + 2 * weight(i as int) <= 256,
                draw_line + 2 * weight(i as int) <= 256,
                is_pixel_overwritten == line_hits(before, sprite_line, x as int, i as int),
                self.has_changed == old(self).has_changed,
                self.last_drawn_sprite == old(self).last_drawn_sprite,
                self.last_draw_area == old(self).last_draw_area,
                self.last_draw_result == old(self).last_draw_result,
            decreases 8 - i,
        {
            let wrapped_x = ((x as usize) + (i as usize)) % SCREEN_WIDTH;
            let mask: u8 = 0x80u8 >> i;
            let sprite_pixel = (sprite_line & mask) != 0;
            proof {
                lemma_mask(sprite_line, i);
                lemma_line_step(before, sprite_line, x as int, i as int);
            }
            let current = self.screen[wrapped_y][wrapped_x];
            let final_value = current != sprite_pixel;
            if current {
                draw_area = draw_area + mask;
            }
            self.screen[wrapped_y][wrapped_x] = final_value;
            if final_value {
                draw_line = draw_line + mask;
            }
            is_pixel_overwritten = is_pixel_overwritten || (sprite_pixel && current);
            i = i + 1;
        }

        match &mut self.last_draw_result {
            Some(result) => result.push(draw_line),
            None => {},
        }
        match &mut self.last_draw_area {
            Some(area) => area.push(draw_area),
            None => {},
        }

        self.has_changed = true;

        proof {
            assert(self@.pixels[wrapped_y as int] =~= after);
            assert(old(self)@.pixels[wrapped_y as int] =~= before);
            assert forall|r: int| 0 <= r < 32 && r != wrapped_y implies #[trigger] self@.pixels[r]
                == old(self)@.pixels[r] by {
                assert(self@.pixels[r] =~= old(self)@.pixels[r]);
            }
        }

        is_pixel_overwritten
    }

    /// Draws `sprite` at column `x` and row `y`, one byte per row and the
    /// leftmost pixel in the top bit: each pixel that the sprite sets is
    /// flipped, and columns and rows wrap round the edges. Tells whether a
    /// pixel that was on went off. A sprite of more than fifteen rows is
    /// refused and the screen stays as it was.
    pub fn draw(&mut self, x: u8, y: u8, sprite: Vec<u8>) -> (drawn: Result<
        IsPixelOverwritten,
        InvalidSpriteSizeError,
    >)
        ensures
            sprite@.len() > 15 ==> drawn == Err::<bool, InvalidSpriteSizeError>(
                InvalidSpriteSizeError { size: sprite@.len() as usize },
            ) && final(self)@ == old(self)@,
            sprite@.len() <= 15 ==> drawn == Ok::<bool, InvalidSpriteSizeError>(
                old(self)@.collides(x as int, y as int, sprite@),
            ) && final(self)@ == old(self)@.draw(x as int, y as int, sprite@),
    {
        let mut is_pixel_overwritten = false;
        if sprite.len() > MAX_SPRITE_SIZE {
            return Err(InvalidSpriteSizeError::new(sprite.len()));
        }
        let ghost before = self@.pixels;

        self.last_draw_area = Some(Vec::new());
        self.last_draw_result = Some(Vec::new());
        self.has_changed = true;

        let mut i: usize = 0;
        while i < sprite.len()
            invariant
                i <= sprite@.len() <= 15,
                before == old(self)@.pixels,
                self@.pixels =~~= blit(before, sprite@, i as int, x as int, y as int),
                self@.changed,
                self@.last_draw_area is Some,
                self@.last_draw_result is Some,
                self@.last_draw_area->Some_0 =~= Seq::new(
                    i as nat,
                    |k: int| under(before, x as int, y as int, k),
                ),
                self@.last_draw_result->Some_0 =~= Seq::new(
                    i as nat,
                    |k: int| under(self@.pixels, x as int, y as int, k),
                ),
                is_pixel_overwritten == overlaps(before, sprite@, i as int, x as int, y as int),
            decreases sprite@.len() - i,
        {
            let row = (((y as usize) + i) % SCREEN_HEIGHT) as u8;
            let ghost prior = self@.pixels;
            assert(prior[row as int] =~= before[row as int]) by {
                assert forall|c: int| 0 <= c < 64 implies !covered(
                    sprite@,
                    i as int,
                    x as int,
                    y as int,
                    row as int,
                    c,
                ) by {
                    assert((row - y) % 32 == i);
                }
            }
            let does_line_overwrite_pixel = self.draw_sprite_line(x, row, sprite[i]);
            is_pixel_overwritten = is_pixel_overwritten || does_line_overwrite_pixel;
            proof {
                lemma_overlaps_step(before, sprite@, i as int, x as int, y as int);
                let now = self@.pixels;
                let next = blit(before, sprite@, i + 1, x as int, y as int);
                assert forall|r: int| 0 <= r < 32 implies #[trigger] now[r] =~= next[r] by {
                    if r == row {
                        assert((r - y) % 32 == i);
                    } else {
                        assert((r - y) % 32 != i);
                    }
                }
                assert(now =~~= next);
                assert forall|k: int| 0 <= k < i implies under(now, x as int, y as int, k) == under(
                    prior,
                    x as int,
                    y as int,
                    k,
                ) by {
                    assert((y + k) % 32 != row);
                }
            }
            i = i + 1;
        }
        self.last_drawn_sprite = Some(sprite);

        Ok(is_pixel_overwritten)
    }

    /// The pixels, row by row.
    pub fn inspect_screen<'a>(&'a self) -> (pixels: &'a [[bool; SCREEN_WIDTH]; SCREEN_HEIGHT])
        ensures
            forall|r: int, c: int|
                0 <= r < 32 && 0 <= c < 64 ==> #[trigger] pixels@[r]@[c] == self@.pixels[r][c],
    {
        &self.screen
    }

    /// Whether the screen was drawn on or cleared since the flag was last reset.
    pub fn has_changed(&self) -> (changed: bool)
        ensures
            changed == self@.changed,
    {
        self.has_changed
    }

    /// Takes the changed flag down.
    pub fn reset_changed(&mut self)
        ensures
            final(self)@ == old(self)@.reset_changed(),
    {
        self.has_changed = false;
    }
}

} // verus!
