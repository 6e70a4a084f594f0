//! The framebuffer: 32 rows of 64 monochrome pixels, and the sprite drawing
//! that XORs a bit pattern onto it, clipped at the right and bottom edges.

use vstd::prelude::*;

verus! {

/// The number of pixel columns.
pub const DISPLAY_WIDTH: usize = 64;

/// The number of pixel rows.
pub const DISPLAY_HEIGHT: usize = 32;

/// Whether `grid` has the shape of the screen: 32 rows of 64 pixels each.
/// A grid is indexed by row first: `grid[y][x]`.
pub open spec fn is_grid(grid: Seq<Seq<bool>>) -> bool {
    &&& grid.len() == DISPLAY_HEIGHT
    &&& forall|y: int| 0 <= y < DISPLAY_HEIGHT ==> (#[trigger] grid[y]).len() == DISPLAY_WIDTH
}

/// Whether `(x, y)` names a pixel of the screen.
pub open spec fn on_screen(x: int, y: int) -> bool {
    0 <= x < DISPLAY_WIDTH && 0 <= y < DISPLAY_HEIGHT
}

/// The screen with every pixel off.
pub open spec fn blank() -> Seq<Seq<bool>> {
    Seq::new(DISPLAY_HEIGHT as nat, |y: int| Seq::new(DISPLAY_WIDTH as nat, |x: int| false))
}

/// Whether a sprite row holds a one in `column`, counted from the most
/// significant bit (column 0) to the least significant (column 7).
pub open spec fn sprite_bit(row: u8, column: int) -> bool {
    0 <= column < 8 && (row >> ((7 - column) as u8)) & 1 == 1
}

/// Whether `sprite`, placed with its top left corner at `(x0, y0)`, has a set
/// bit over the position `(x, y)`. Nothing here wraps around: a position left
/// of, right of, above or below the sprite's 8-wide rectangle is not marked.
pub open spec fn sprite_marks(sprite: Seq<u8>, x0: int, y0: int, x: int, y: int) -> bool {
    &&& 0 <= y - y0 < sprite.len()
    &&& sprite_bit(sprite[y - y0], x - x0)
}

/// The screen after `sprite` has been drawn onto `grid` at `(x0, y0)`: every
/// pixel that the sprite marks is flipped, every other pixel is kept. The part
/// of the sprite that would lie beyond the right or the bottom edge marks no
/// pixel of the screen, so it is clipped and never reappears on the other side.
pub open spec fn drawn(grid: Seq<Seq<bool>>, sprite: Seq<u8>, x0: int, y0: int) -> Seq<Seq<bool>> {
    Seq::new(
        DISPLAY_HEIGHT as nat,
        |y: int|
            Seq::new(
                DISPLAY_WIDTH as nat,
                |x: int| grid[y][x] != sprite_marks(sprite, x0, y0, x, y),
            ),
    )
}

/// Whether drawing `sprite` at `(x0, y0)` turns the lit pixel `(x, y)` off.
pub open spec fn erases(
    grid: Seq<Seq<bool>>,
    sprite: Seq<u8>,
    x0: int,
    y0: int,
    x: int,
    y: int,
) -> bool {
    on_screen(x, y) && grid[y][x] && sprite_marks(sprite, x0, y0, x, y)
}

/// Whether drawing `sprite` onto `grid` at `(x0, y0)` turns at least one lit
/// pixel off: the collision that the flag register reports.
pub open spec fn collides(grid: Seq<Seq<bool>>, sprite: Seq<u8>, x0: int, y0: int) -> bool {
    exists|x: int, y: int| #[trigger] erases(grid, sprite, x0, y0, x, y)
}

/// Whether drawing has already passed `(x, y)` when it is about to handle
/// column `x_next` of row `y_next`: rows go top to bottom, columns left to
/// right.
spec fn passed(x_next: int, y_next: int, x: int, y: int) -> bool {
    y < y_next || (y == y_next && x < x_next)
}

/// Whether `now` is `before` with the sprite drawn as far as drawing has come
/// when it is about to handle column `x_next` of row `y_next`.
spec fn drawn_up_to(
    before: Seq<Seq<bool>>,
    now: Seq<Seq<bool>>,
    sprite: Seq<u8>,
    x0: int,
    y0: int,
    x_next: int,
    y_next: int,
) -> bool {
    forall|x: int, y: int| #[trigger]
        on_screen(x, y) ==> now[y][x] == (before[y][x] != (sprite_marks(sprite, x0, y0, x, y)
            && passed(x_next, y_next, x, y)))
}

/// Whether the sprite has turned a lit pixel off before drawing has come to
/// column `x_next` of row `y_next`.
spec fn collided_up_to(
    before: Seq<Seq<bool>>,
    sprite: Seq<u8>,
    x0: int,
    y0: int,
    x_next: int,
    y_next: int,
) -> bool {
    exists|x: int, y: int| #[trigger]
        erases(before, sprite, x0, y0, x, y) && passed(x_next, y_next, x, y)
}

/// Before the first row is handled nothing has been drawn: no position that
/// the sprite marks lies above its first row.
proof fn lemma_nothing_drawn(grid: Seq<Seq<bool>>, sprite: Seq<u8>, x0: int, y0: int)
    ensures
        drawn_up_to(grid, grid, sprite, x0, y0, 0, y0),
        !collided_up_to(grid, sprite, x0, y0, 0, y0),
{
}

/// Coming to a new row is as good as coming to the sprite's first column in
/// it: the sprite marks no position left of that column.
proof fn lemma_row_begun(
    before: Seq<Seq<bool>>,
    now: Seq<Seq<bool>>,
    sprite: Seq<u8>,
    x0: int,
    y0: int,
    y: int,
)
    requires
        drawn_up_to(before, now, sprite, x0, y0, 0, y),
    ensures
        drawn_up_to(before, now, sprite, x0, y0, x0, y),
        collided_up_to(before, sprite, x0, y0, x0, y) == collided_up_to(
            before,
            sprite,
            x0,
            y0,
            0,
            y,
        ),
{
    assert forall|a: int, b: int|
        on_screen(a, b) && sprite_marks(sprite, x0, y0, a, b) implies passed(0, y, a, b)
        == passed(x0, y, a, b) by {}
    if collided_up_to(before, sprite, x0, y0, x0, y) {
        let (a, b) = choose|a: int, b: int| #[trigger]
            erases(before, sprite, x0, y0, a, b) && passed(x0, y, a, b);
        assert(erases(before, sprite, x0, y0, a, b) && passed(0, y, a, b));
    }
    if collided_up_to(before, sprite, x0, y0, 0, y) {
        let (a, b) = choose|a: int, b: int| #[trigger]
            erases(before, sprite, x0, y0, a, b) && passed(0, y, a, b);
        assert(erases(before, sprite, x0, y0, a, b) && passed(x0, y, a, b));
    }
}

/// Handling one more position: if `now` differs from `entry` at `(x, y)`
/// alone, and there exactly when the sprite marks it, drawing has come one
/// column further, and a collision is one from before or one at `(x, y)`.
proof fn lemma_position_done(
    before: Seq<Seq<bool>>,
    entry: Seq<Seq<bool>>,
    now: Seq<Seq<bool>>,
    sprite: Seq<u8>,
    x0: int,
    y0: int,
    x: int,
    y: int,
)
    requires
        on_screen(x, y),
        is_grid(entry),
        drawn_up_to(before, entry, sprite, x0, y0, x, y),
        now == entry || now == entry.update(y, entry[y].update(x, !entry[y][x])),
        (now == entry) == !sprite_marks(sprite, x0, y0, x, y),
    ensures
        entry[y][x] == before[y][x],
        drawn_up_to(before, now, sprite, x0, y0, x + 1, y),
        collided_up_to(before, sprite, x0, y0, x + 1, y) == (collided_up_to(
            before,
            sprite,
            x0,
            y0,
            x,
            y,
        ) || erases(before, sprite, x0, y0, x, y)),
{
    assert(on_screen(x, y));
    assert forall|a: int, b: int| #[trigger] on_screen(a, b) implies now[b][a] == (before[b][a] != (
    sprite_marks(sprite, x0, y0, a, b) && passed(x + 1, y, a, b))) by {
        assert(passed(x + 1, y, a, b) == (passed(x, y, a, b) || (a == x && b == y)));
    }
    if collided_up_to(before, sprite, x0, y0, x, y) {
        let (a, b) = choose|a: int, b: int| #[trigger]
            erases(before, sprite, x0, y0, a, b) && passed(x, y, a, b);
        assert(erases(before, sprite, x0, y0, a, b) && passed(x + 1, y, a, b));
    }
    if erases(before, sprite, x0, y0, x, y) {
        assert(passed(x + 1, y, x, y));
    }
    if collided_up_to(before, sprite, x0, y0, x + 1, y) {
        let (a, b) = choose|a: int, b: int| #[trigger]
            erases(before, sprite, x0, y0, a, b) && passed(x + 1, y, a, b);
        if !(a == x && b == y) {
            assert(erases(before, sprite, x0, y0, a, b) && passed(x, y, a, b));
        }
    }
}

/// Once a row has been handled up to the right edge of the screen or up to
/// the sprite's eighth column, it has been handled whole: no further position
/// of that row is marked.
proof fn lemma_row_done(
    before: Seq<Seq<bool>>,
    now: Seq<Seq<bool>>,
    sprite: Seq<u8>,
    x0: int,
    y0: int,
    x_next: int,
    y: int,
)
    requires
        x_next == DISPLAY_WIDTH || x_next == x0 + 8,
        drawn_up_to(before, now, sprite, x0, y0, x_next, y),
    ensures
        drawn_up_to(before, now, sprite, x0, y0, 0, y + 1),
        collided_up_to(before, sprite, x0, y0, 0, y + 1) == collided_up_to(
            before,
            sprite,
            x0,
            y0,
            x_next,
            y,
        ),
{
    assert forall|a: int, b: int|
        on_screen(a, b) && sprite_marks(sprite, x0, y0, a, b) implies passed(x_next, y, a, b)
        == passed(0, y + 1, a, b) by {}
    if collided_up_to(before, sprite, x0, y0, x_next, y) {
        let (a, b) = choose|a: int, b: int| #[trigger]
            erases(before, sprite, x0, y0, a, b) && passed(x_next, y, a, b);
        assert(erases(before, sprite, x0, y0, a, b) && passed(0, y + 1, a, b));
    }
    if collided_up_to(before, sprite, x0, y0, 0, y + 1) {
        let (a, b) = choose|a: int, b: int| #[trigger]
            erases(before, sprite, x0, y0, a, b) && passed(0, y + 1, a, b);
        assert(erases(before, sprite, x0, y0, a, b) && passed(x_next, y, a, b));
    }
}

/// Once drawing has come to the row below the sprite's last row, or to the
/// row below the screen's last row, the whole sprite has been drawn.
proof fn lemma_sprite_done(
    before: Seq<Seq<bool>>,
    now: Seq<Seq<bool>>,
    sprite: Seq<u8>,
    x0: int,
    y0: int,
    y_next: int,
)
    requires
        is_grid(now),
        y_next == DISPLAY_HEIGHT || y_next == y0 + sprite.len(),
        drawn_up_to(before, now, sprite, x0, y0, 0, y_next),
    ensures
        now == drawn(before, sprite, x0, y0),
        collided_up_to(before, sprite, x0, y0, 0, y_next) == collides(before, sprite, x0, y0),
{
    let want = drawn(before, sprite, x0, y0);
    assert forall|b: int| 0 <= b < DISPLAY_HEIGHT implies #[trigger] now[b] == want[b] by {
        assert forall|a: int| 0 <= a < DISPLAY_WIDTH implies now[b][a] == want[b][a] by {
            assert(on_screen(a, b));
            if sprite_marks(sprite, x0, y0, a, b) {
                assert(passed(0, y_next, a, b));
            }
        }
        assert(now[b] =~= want[b]);
    }
    assert(now =~= want);
    if collided_up_to(before, sprite, x0, y0, 0, y_next) {
        let (a, b) = choose|a: int, b: int| #[trigger]
            erases(before, sprite, x0, y0, a, b) && passed(0, y_next, a, b);
        assert(erases(before, sprite, x0, y0, a, b));
    }
    if collides(before, sprite, x0, y0) {
        let (a, b) = choose|a: int, b: int| #[trigger] erases(before, sprite, x0, y0, a, b);
        assert(erases(before, sprite, x0, y0, a, b) && passed(0, y_next, a, b));
    }
}

/// Drawing the same sprite at the same place twice gives back the screen that
/// was there before the first draw: XOR is its own inverse.
pub proof fn lemma_draw_twice_restores(grid: Seq<Seq<bool>>, sprite: Seq<u8>, x0: int, y0: int)
    requires
        is_grid(grid),
    ensures
        drawn(drawn(grid, sprite, x0, y0), sprite, x0, y0) == grid,
{
    let once = drawn(grid, sprite, x0, y0);
    let twice = drawn(once, sprite, x0, y0);
    assert forall|y: int| 0 <= y < DISPLAY_HEIGHT implies #[trigger] twice[y] == grid[y] by {
        assert forall|x: int| 0 <= x < DISPLAY_WIDTH implies twice[y][x] == grid[y][x] by {
            assert(once[y][x] == (grid[y][x] != sprite_marks(sprite, x0, y0, x, y)));
        }
        assert(twice[y] =~= grid[y]);
    }
    assert(twice =~= grid);
}

/// A sprite leaves every pixel outside its own rectangle as it was: the
/// columns left of `x0` and from `x0 + 8` on, and the rows above `y0` and
/// from `y0 + sprite.len()` on. An 8-wide row placed at column 62 therefore
/// reaches columns 62 and 63 only, and column 0 is not touched.
pub proof fn lemma_draw_stays_in_rectangle(
    grid: Seq<Seq<bool>>,
    sprite: Seq<u8>,
    x0: int,
    y0: int,
    x: int,
    y: int,
)
    requires
        is_grid(grid),
        on_screen(x, y),
        x < x0 || x >= x0 + 8 || y < y0 || y >= y0 + sprite.len(),
    ensures
        drawn(grid, sprite, x0, y0)[y][x] == grid[y][x],
{
}

/// The framebuffer.
#[derive(Clone, Copy, Debug)]
pub struct Display {
    pixels: [[bool; 64]; 32],
}

impl View for Display {
    type V = Seq<Seq<bool>>;

    /// The pixels as rows of columns: `self@[y][x]` is whether the pixel in
    /// column `x` of row `y` is lit.
    closed spec fn view(&self) -> Seq<Seq<bool>> {
        Seq::new(DISPLAY_HEIGHT as nat, |y: int| self.pixels@[y]@)
    }
}

impl Display {
    /// The view always has the shape of the screen.
    pub proof fn lemma_shape(&self)
        ensures
            is_grid(self@),
    {
    }

    /// A screen with every pixel off.
    pub fn new() -> (display: Self)
        ensures
            display@ == blank(),
    {
        let display = Self { pixels: [[false; 64]; 32] };
        assert(display@ =~~= blank());
        display
    }

    /// Turns every pixel off.
    pub fn clear(&mut self)
        ensures
            final(self)@ == blank(),
    {
        let mut y: usize = 0;
        while y < DISPLAY_HEIGHT
            invariant
                y <= DISPLAY_HEIGHT,
                is_grid(self@),
                forall|b: int, a: int| 0 <= b < y && 0 <= a < DISPLAY_WIDTH ==> !self@[b][a],
            decreases DISPLAY_HEIGHT - y,
        {
            let mut x: usize = 0;
            while x < DISPLAY_WIDTH
                invariant
                    y < DISPLAY_HEIGHT,
                    x <= DISPLAY_WIDTH,
                    is_grid(self@),
                    forall|b: int, a: int| 0 <= b < y && 0 <= a < DISPLAY_WIDTH ==> !self@[b][a],
                    forall|a: int| 0 <= a < x ==> !self@[y as int][a],
                decreases DISPLAY_WIDTH - x,
            {
                self.un_set_pixel(x, y);
                x += 1;
            }
            y += 1;
        }
        assert(self@ =~~= blank());
    }

    /// Whether the pixel in column `x` of row `y` is lit.
    pub fn is_pixel_on(&self, x: usize, y: usize) -> (on: bool)
        requires
            on_screen(x as int, y as int),
        ensures
            on == self@[y as int][x as int],
    {
        self.pixels[y][x]
    }

    /// Lights the pixel in column `x` of row `y`.
    pub fn set_pixel(&mut self, x: usize, y: usize)
        requires
            on_screen(x as int, y as int),
        ensures
            final(self)@ == old(self)@.update(y as int, old(self)@[y as int].update(x as int, true)),
    {
        self.pixels[y][x] = true;
        assert(self@ =~~= old(self)@.update(y as int, old(self)@[y as int].update(x as int, true)));
    }

    /// Turns the pixel in column `x` of row `y` off.
    pub fn un_set_pixel(&mut self, x: usize, y: usize)
        requires
            on_screen(x as int, y as int),
        ensures
            final(self)@ == old(self)@.update(
                y as int,
                old(self)@[y as int].update(x as int, false),
            ),
    {
        self.pixels[y][x] = false;
        assert(self@ =~~= old(self)@.update(
            y as int,
            old(self)@[y as int].update(x as int, false),
        ));
    }

    /// Whether column `x` is the last column of the screen, or beyond it: a
    /// sprite row that has reached it goes no further.
    pub fn is_right_edge(&self, x: usize) -> (edge: bool)
        ensures
            edge == (x >= DISPLAY_WIDTH - 1),
    {
        x >= DISPLAY_WIDTH - 1
    }

    /// Whether row `y` lies below the last row of the screen: a sprite that
    /// has reached it draws no further row.
    pub fn is_bottom_edge(&self, y: usize) -> (edge: bool)
        ensures
            edge == (y >= DISPLAY_HEIGHT),
    {
        y >= DISPLAY_HEIGHT
    }

    /// A copy of the whole grid for a renderer to read, indexed by row and
    /// then by column.
    pub fn get_pixels(&self) -> (pixels: [[bool; 64]; 32])
        ensures
            pixels@.len() == DISPLAY_HEIGHT,
            forall|y: int| 0 <= y < DISPLAY_HEIGHT ==> (#[trigger] pixels@[y])@ == self@[y],
    {
        self.pixels
    }

    /// Draws `sprite`, one byte per row and the most significant bit leftmost,
    /// with its top left corner at column `vx mod 64` of row `vy mod 32`.
    /// Each set bit flips the pixel under it. What would fall beyond the right
    /// or the bottom edge is left out. The result says whether any lit pixel
    /// was turned off.
    pub fn draw_sprite(&mut self, vx: u8, vy: u8, sprite: &[u8]) -> (collision: bool)
        ensures
            final(self)@ == drawn(
                old(self)@,
                sprite@,
                vx as int % DISPLAY_WIDTH as int,
                vy as int % DISPLAY_HEIGHT as int,
            ),
            collision == collides(
                old(self)@,
                sprite@,
                vx as int % DISPLAY_WIDTH as int,
                vy as int % DISPLAY_HEIGHT as int,
            ),
    {
        let x0: usize = vx as usize % DISPLAY_WIDTH;
        let y0: usize = vy as usize % DISPLAY_HEIGHT;
        let ghost before = self@;
        let mut collision = false;
        let mut y: usize = y0;
        let mut row: usize = 0;
        proof {
            self.lemma_shape();
            lemma_nothing_drawn(before, sprite@, x0 as int, y0 as int);
        }
        while row < sprite.len()
            invariant_except_break
                y < DISPLAY_HEIGHT,
            invariant
                x0 < DISPLAY_WIDTH,
                y0 < DISPLAY_HEIGHT,
                row <= sprite.len(),
                y == y0 + row,
                is_grid(self@),
                drawn_up_to(before, self@, sprite@, x0 as int, y0 as int, 0, y as int),
                collision == collided_up_to(before, sprite@, x0 as int, y0 as int, 0, y as int),
            ensures
                y == DISPLAY_HEIGHT || y == y0 + sprite.len(),
            decreases sprite.len() - row,
        {
            let bits = sprite[row];
            let mut x: usize = x0;
            let mut column: u8 = 0;
            proof {
                lemma_row_begun(before, self@, sprite@, x0 as int, y0 as int, y as int);
            }
            while column < 8
                invariant_except_break
                    x < DISPLAY_WIDTH,
                    column < 8 ==> drawn_up_to(
                        before,
                        self@,
                        sprite@,
                        x0 as int,
                        y0 as int,
                        x as int,
                        y as int,
                    ),
                    column < 8 ==> collision == collided_up_to(
                        before,
                        sprite@,
                        x0 as int,
                        y0 as int,
                        x as int,
                        y as int,
                    ),
                    column == 8 ==> drawn_up_to(
                        before,
                        self@,
                        sprite@,
                        x0 as int,
                        y0 as int,
                        0,
                        y + 1,
                    ),
                    column == 8 ==> collision == collided_up_to(
                        before,
                        sprite@,
                        x0 as int,
                        y0 as int,
                        0,
                        y + 1,
                    ),
                invariant
                    x0 < DISPLAY_WIDTH,
                    y0 < DISPLAY_HEIGHT,
                    y < DISPLAY_HEIGHT,
                    row < sprite.len(),
                    bits == sprite@[row as int],
                    y == y0 + row,
                    column <= 8,
                    x == x0 + column,
                    is_grid(self@),
                ensures
                    drawn_up_to(before, self@, sprite@, x0 as int, y0 as int, 0, y + 1),
                    collision == collided_up_to(before, sprite@, x0 as int, y0 as int, 0, y + 1),
                decreases 8 - column,
            {
                let ghost entry = self@;
                if (bits >> (7 - column)) & 1 == 1 {
                    if self.is_pixel_on(x, y) {
                        self.un_set_pixel(x, y);
                        collision = true;
                    } else {
                        self.set_pixel(x, y);
                    }
                }
                proof {
                    assert(sprite_marks(sprite@, x0 as int, y0 as int, x as int, y as int)
                        == sprite_bit(bits, column as int));
                    lemma_position_done(
                        before,
                        entry,
                        self@,
                        sprite@,
                        x0 as int,
                        y0 as int,
                        x as int,
                        y as int,
                    );
                }
                let at_edge = self.is_right_edge(x);
                proof {
                    if at_edge || column == 7 {
                        lemma_row_done(before, self@, sprite@, x0 as int, y0 as int, x + 1, y as int);
                    }
                }
                if at_edge {
                    break ;
                }
                x += 1;
                column += 1;
            }
            y += 1;
            row += 1;
            if self.is_bottom_edge(y) {
                break ;
            }
        }
        proof {
            lemma_sprite_done(before, self@, sprite@, x0 as int, y0 as int, y as int);
        }
        collision
    }
}

} // verus!
