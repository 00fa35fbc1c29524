use vstd::prelude::*;
use crate::memory::{Memory, RAM_SIZE, lemma_memory_len};

verus! {

/// Width of the framebuffer in pixels.
pub const WIDTH: usize = 64;

/// Height of the framebuffer in pixels.
pub const HEIGHT: usize = 32;

/// Number of cells of the framebuffer.
pub const SIZE: usize = WIDTH * HEIGHT;

/// A 64×32 monochrome framebuffer, row-major: cell `x + 64 * y` is column `x` of row `y`.
pub struct Screen([bool; SIZE]);

impl View for Screen {
    type V = Seq<bool>;

    closed spec fn view(&self) -> Seq<bool> {
        self.0@
    }
}

/// Every screen holds exactly `SIZE` cells.
pub broadcast proof fn lemma_screen_len(s: &Screen)
    ensures
        #[trigger] s@.len() == SIZE,
{
}

/// A framebuffer with every pixel off.
pub open spec fn blank() -> Seq<bool> {
    Seq::new(SIZE as nat, |k: int| false)
}

/// Whether column `col` (0 is leftmost) of a sprite row is set: bit `7 - col` of the byte.
pub open spec fn sprite_bit(row: u8, col: int) -> bool {
    (row >> ((7 - col) as u8)) & 1u8 == 1u8
}

/// The cell that column `x` and row `y` land on, both wrapped around the edges.
pub open spec fn pixel_index(x: int, y: int) -> int {
    x % (WIDTH as int) + (WIDTH as int) * (y % (HEIGHT as int))
}

/// The first `c` columns of the sprite row `bits` XOR-drawn with its left edge at
/// column `x` of row `y`, one column after the other: the new cells, and whether a
/// set bit met a lit pixel.
pub open spec fn draw_row(s: Seq<bool>, bits: u8, x: int, y: int, c: nat) -> (Seq<bool>, bool)
    decreases c,
{
    if c == 0 {
        (s, false)
    } else {
        let (s1, f1) = draw_row(s, bits, x, y, (c - 1) as nat);
        let k = pixel_index(x + c - 1, y);
        if sprite_bit(bits, c - 1) {
            (s1.update(k, !s1[k]), f1 || s1[k])
        } else {
            (s1, f1)
        }
    }
}

/// The first `r` rows of the sprite stored from address `i` XOR-drawn at `(x, y)`,
/// one row after the other: the new cells, and whether any set bit met a lit pixel.
pub open spec fn draw_rows(s: Seq<bool>, mem: Seq<u8>, i: int, x: int, y: int, r: nat) -> (
    Seq<bool>,
    bool,
)
    decreases r,
{
    if r == 0 {
        (s, false)
    } else {
        let (s1, f1) = draw_rows(s, mem, i, x, y, (r - 1) as nat);
        let (s2, f2) = draw_row(s1, mem[i + r - 1], x, y + r - 1, 8);
        (s2, f1 || f2)
    }
}

/// Whether the sprite row `bits` at `(x, y)` has a set bit, among its first `c`
/// columns, that lands on cell `k`.
pub open spec fn row_hits(bits: u8, x: int, y: int, c: int, k: int) -> bool {
    exists|j: int| 0 <= j < c && sprite_bit(bits, j) && k == #[trigger] pixel_index(x + j, y)
}

proof fn lemma_pixel_index_bounds(x: int, y: int)
    ensures
        0 <= pixel_index(x, y) < SIZE,
{
}

proof fn lemma_draw_row_len(s: Seq<bool>, bits: u8, x: int, y: int, c: nat)
    requires
        s.len() == SIZE,
    ensures
        draw_row(s, bits, x, y, c).0.len() == SIZE,
    decreases c,
{
    if c > 0 {
        lemma_draw_row_len(s, bits, x, y, (c - 1) as nat);
        lemma_pixel_index_bounds(x + c - 1, y);
    }
}

/// Two columns of one row less than a screen width apart land on different cells.
proof fn lemma_pixel_index_distinct(x: int, y: int, a: int, b: int)
    requires
        0 <= a < b < WIDTH,
    ensures
        pixel_index(x + a, y) != pixel_index(x + b, y),
{
    assert((x + a) % 64 != (x + b) % 64) by {
        vstd::arithmetic::div_mod::lemma_fundamental_div_mod(x + a, 64);
        vstd::arithmetic::div_mod::lemma_fundamental_div_mod(x + b, 64);
        if (x + a) % 64 == (x + b) % 64 {
            assert(64 * ((x + b) / 64) - 64 * ((x + a) / 64) == b - a);
            assert(64 * ((x + b) / 64 - (x + a) / 64) == b - a) by (nonlinear_arith)
                requires 64 * ((x + b) / 64) - 64 * ((x + a) / 64) == b - a;
            if (x + b) / 64 - (x + a) / 64 >= 1 {
                assert(64 * ((x + b) / 64 - (x + a) / 64) >= 64) by (nonlinear_arith)
                    requires (x + b) / 64 - (x + a) / 64 >= 1;
            } else {
                assert(64 * ((x + b) / 64 - (x + a) / 64) <= 0) by (nonlinear_arith)
                    requires (x + b) / 64 - (x + a) / 64 <= 0;
            }
        }
    }
}

/// Drawing the first `c` columns of a sprite row toggles exactly the cells that
/// its set bits land on, and reports a collision exactly when one of those cells
/// was lit before.
pub proof fn lemma_draw_row_effect(s: Seq<bool>, bits: u8, x: int, y: int, c: nat)
    requires
        s.len() == SIZE,
        c <= 8,
    ensures
        draw_row(s, bits, x, y, c).0.len() == SIZE,
        forall|k: int|
            0 <= k < SIZE ==> #[trigger] draw_row(s, bits, x, y, c).0[k] == (s[k] != row_hits(
                bits,
                x,
                y,
                c as int,
                k,
            )),
        draw_row(s, bits, x, y, c).1 == exists|j: int|
            0 <= j < c && sprite_bit(bits, j) && #[trigger] s[pixel_index(x + j, y)],
    decreases c,
{
    lemma_draw_row_len(s, bits, x, y, c);
    if c > 0 {
        let c1 = (c - 1) as nat;
        lemma_draw_row_effect(s, bits, x, y, c1);
        let s1 = draw_row(s, bits, x, y, c1).0;
        let k0 = pixel_index(x + c1, y);
        lemma_pixel_index_bounds(x + c1, y);
        assert(!row_hits(bits, x, y, c1 as int, k0)) by {
            if row_hits(bits, x, y, c1 as int, k0) {
                let j = choose|j: int|
                    0 <= j < c1 && sprite_bit(bits, j) && k0 == #[trigger] pixel_index(x + j, y);
                lemma_pixel_index_distinct(x, y, j, c1 as int);
            }
        }
        assert forall|k: int| 0 <= k < SIZE implies #[trigger] draw_row(s, bits, x, y, c).0[k] == (
        s[k] != row_hits(bits, x, y, c as int, k)) by {
            if row_hits(bits, x, y, c as int, k) && k != k0 {
                let j = choose|j: int|
                    0 <= j < c && sprite_bit(bits, j) && k == #[trigger] pixel_index(x + j, y);
                assert(j != c1);
                assert(row_hits(bits, x, y, c1 as int, k));
            }
            if row_hits(bits, x, y, c1 as int, k) {
                let j = choose|j: int|
                    0 <= j < c1 && sprite_bit(bits, j) && k == #[trigger] pixel_index(x + j, y);
                assert(row_hits(bits, x, y, c as int, k));
            }
            if k == k0 && sprite_bit(bits, c1 as int) {
                assert(row_hits(bits, x, y, c as int, k));
            }
        }
        let e1 = exists|j: int| 0 <= j < c1 && sprite_bit(bits, j) && #[trigger] s[pixel_index(x + j, y)];
        let e = exists|j: int| 0 <= j < c && sprite_bit(bits, j) && #[trigger] s[pixel_index(x + j, y)];
        if e && !e1 {
            let j = choose|j: int| 0 <= j < c && sprite_bit(bits, j) && #[trigger] s[pixel_index(x + j, y)];
            assert(j == c1);
        }
        if e1 {
            let j = choose|j: int| 0 <= j < c1 && sprite_bit(bits, j) && #[trigger] s[pixel_index(x + j, y)];
            assert(0 <= j < c);
        }
    }
}

proof fn lemma_full_byte_bits(j: int)
    requires
        0 <= j < 8,
    ensures
        sprite_bit(0xFF, j),
{
    let sh = (7 - j) as u8;
    assert((0xFFu8 >> sh) & 1u8 == 1u8) by (bit_vector)
        requires
            sh < 8,
    ;
}

/// A full 8×1 sprite drawn on a blank screen where it fits within the row lights
/// exactly the 8 consecutive cells from `(x, y)` on and reports no collision;
/// drawn again at the same place it turns them all off and reports a collision.
pub proof fn lemma_full_row_drawn_twice(mem: Seq<u8>, i: int, x: int, y: int)
    requires
        mem.len() == RAM_SIZE,
        0 <= i < RAM_SIZE,
        mem[i] == 0xFF,
        0 <= x <= WIDTH - 8,
        0 <= y < HEIGHT,
    ensures
        ({
            let (s1, f1) = draw_rows(blank(), mem, i, x, y, 1);
            let (s2, f2) = draw_rows(s1, mem, i, x, y, 1);
            &&& s1.len() == SIZE
            &&& forall|k: int| 0 <= k < SIZE ==> #[trigger] s1[k] == (x + WIDTH * y <= k < x + WIDTH * y + 8)
            &&& !f1
            &&& s2 == blank()
            &&& f2
        }),
{
    let base = x + 64 * y;
    lemma_draw_row_effect(blank(), 0xFF, x, y, 8);
    let s1 = draw_row(blank(), 0xFF, x, y, 8).0;
    assert(draw_rows(blank(), mem, i, x, y, 0) == (blank(), false));
    assert(draw_rows(blank(), mem, i, x, y, 1) == (s1, false || draw_row(blank(), 0xFF, x, y, 8).1));
    assert forall|k: int| 0 <= k < SIZE implies #[trigger] s1[k] == (base <= k < base + 8) by {
        if base <= k < base + 8 {
            lemma_full_byte_bits(k - base);
            assert(pixel_index(x + (k - base), y) == k);
            assert(row_hits(0xFF, x, y, 8, k));
        }
        if row_hits(0xFF, x, y, 8, k) {
            let j = choose|j: int| 0 <= j < 8 && sprite_bit(0xFF, j) && k == #[trigger] pixel_index(x + j, y);
            assert(pixel_index(x + j, y) == base + j);
        }
    }
    lemma_draw_row_effect(s1, 0xFF, x, y, 8);
    let s2 = draw_row(s1, 0xFF, x, y, 8).0;
    assert(draw_rows(s1, mem, i, x, y, 0) == (s1, false));
    assert(draw_rows(s1, mem, i, x, y, 1) == (s2, false || draw_row(s1, 0xFF, x, y, 8).1));
    lemma_full_byte_bits(0);
    assert(pixel_index(x, y) == base);
    assert(s1[pixel_index(x + 0, y)]);
    assert forall|k: int| 0 <= k < SIZE implies #[trigger] s2[k] == blank()[k] by {
        if base <= k < base + 8 {
            lemma_full_byte_bits(k - base);
            assert(pixel_index(x + (k - base), y) == k);
            assert(row_hits(0xFF, x, y, 8, k));
        }
        if row_hits(0xFF, x, y, 8, k) {
            let j = choose|j: int| 0 <= j < 8 && sprite_bit(0xFF, j) && k == #[trigger] pixel_index(x + j, y);
            assert(pixel_index(x + j, y) == base + j);
        }
    }
    assert(s2 =~= blank());
}

/// A full 8×1 sprite drawn at column 60 wraps around the right edge: on a blank
/// screen it lights columns 60 to 63 and 0 to 3 of its row, and nothing else.
pub proof fn lemma_full_row_wraps(mem: Seq<u8>, i: int, y: int)
    requires
        mem.len() == RAM_SIZE,
        0 <= i < RAM_SIZE,
        mem[i] == 0xFF,
        0 <= y < HEIGHT,
    ensures
        ({
            let (s1, f1) = draw_rows(blank(), mem, i, 60, y, 1);
            &&& s1.len() == SIZE
            &&& forall|k: int|
                0 <= k < SIZE ==> #[trigger] s1[k] == (WIDTH * y + 60 <= k < WIDTH * y + 64 || WIDTH * y
                    <= k < WIDTH * y + 4)
            &&& !f1
        }),
{
    let row = 64 * y;
    lemma_draw_row_effect(blank(), 0xFF, 60, y, 8);
    let s1 = draw_row(blank(), 0xFF, 60, y, 8).0;
    assert(draw_rows(blank(), mem, i, 60, y, 0) == (blank(), false));
    assert(draw_rows(blank(), mem, i, 60, y, 1) == (s1, false || draw_row(blank(), 0xFF, 60, y, 8).1));
    assert forall|k: int| 0 <= k < SIZE implies #[trigger] s1[k] == (row + 60 <= k < row + 64 || row <= k
        < row + 4) by {
        if row + 60 <= k < row + 64 {
            lemma_full_byte_bits(k - row - 60);
            assert(pixel_index(60 + (k - row - 60), y) == k);
            assert(row_hits(0xFF, 60, y, 8, k));
        }
        if row <= k < row + 4 {
            lemma_full_byte_bits(k - row + 4);
            assert(pixel_index(60 + (k - row + 4), y) == k);
            assert(row_hits(0xFF, 60, y, 8, k));
        }
        if row_hits(0xFF, 60, y, 8, k) {
            let j = choose|j: int| 0 <= j < 8 && sprite_bit(0xFF, j) && k == #[trigger] pixel_index(60 + j, y);
            if j < 4 {
                assert(pixel_index(60 + j, y) == row + 60 + j);
            } else {
                assert(pixel_index(60 + j, y) == row + j - 4);
            }
        }
    }
}

impl Screen {
    pub fn new() -> (r: Screen)
        ensures
            r@ == blank(),
    {
        let r = Screen([false; SIZE]);
        assert(r@ =~= blank());
        r
    }

    /// The framebuffer, for presentation.
    pub fn buffer(&self) -> (r: &[bool; SIZE])
        ensures
            r@ == self@,
    {
        &self.0
    }

    /// Turns every pixel off.
    pub fn clear(&mut self)
        ensures
            final(self)@ == blank(),
    {
        self.0 = [false; SIZE];
        assert(self@ =~= blank());
    }

    /// XOR-draws the 8-pixel-wide, `rows`-tall sprite stored from address `i` with its
    /// top-left corner at `(x, y)`, wrapping around the edges. Returns whether a set
    /// sprite bit turned a lit pixel off.
    pub fn draw(&mut self, memory: &Memory, i: u16, x: u8, y: u8, rows: u8) -> (r: bool)
        requires
            rows == 0 || i as int + rows as int <= RAM_SIZE,
        ensures
            (final(self)@, r) == draw_rows(old(self)@, memory@, i as int, x as int, y as int, rows as nat),
    {
        broadcast use lemma_memory_len;

        let mut f_flag = false;
        let mut y_line: u16 = 0;
        while y_line < rows as u16
            invariant
                y_line <= rows,
                rows == 0 || i as int + rows as int <= RAM_SIZE,
                self@.len() == SIZE,
                (self@, f_flag) == draw_rows(old(self)@, memory@, i as int, x as int, y as int, y_line as nat),
            decreases rows - y_line,
        {
            let pixels = memory.read_u8(i + y_line);
            let ghost s1 = self@;
            let ghost f1 = f_flag;
            let mut x_line: u8 = 0;
            while x_line < 8
                invariant
                    x_line <= 8,
                    y_line < rows,
                    s1.len() == SIZE,
                    pixels == memory@[i + y_line],
                    (s1, f1) == draw_rows(old(self)@, memory@, i as int, x as int, y as int, y_line as nat),
                    self@ == draw_row(s1, pixels, x as int, y as int + y_line, x_line as nat).0,
                    f_flag == (f1 || draw_row(s1, pixels, x as int, y as int + y_line, x_line as nat).1),
                decreases 8 - x_line,
            {
                proof {
                    lemma_draw_row_len(s1, pixels, x as int, y as int + y_line, x_line as nat);
                }
                if (pixels >> (7 - x_line)) & 1 == 1 {
                    let px = (x as u16 + x_line as u16) as usize % WIDTH;
                    let py = (y as u16 + y_line) as usize % HEIGHT;
                    let idx = px + WIDTH * py;
                    assert(idx == pixel_index(x as int + x_line, y as int + y_line));
                    f_flag = f_flag || self.0[idx];
                    self.0[idx] = !self.0[idx];
                }
                x_line = x_line + 1;
            }
            y_line = y_line + 1;
        }
        f_flag
    }
}

} // verus!
