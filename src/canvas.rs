//! A rectangular grid of pixels, and its export as a plain-text portable
//! pixmap.
use vstd::prelude::*;

use crate::text::{decimal, limit_line_length, limited_line, push_decimal};

verus! {

/// A `width` by `height` grid of pixels, stored row by row.
pub struct Canvas<P> {
    width: usize,
    height: usize,
    pixels: Vec<P>,
}

/// A pixel as it is written out: each channel a level in `0..=255`.
#[derive(Clone, Copy, Debug, PartialEq, Eq, Structural)]
pub struct Rgb {
    pub red: u8,
    pub green: u8,
    pub blue: u8,
}

/// Highest level of an exported channel.
pub const MAX_LEVEL: u8 = 255;

/// The level of a channel whose value, scaled to the 0..=255 range and
/// rounded up, is `scaled`: clamped to that range.
pub fn clamp_channel(scaled: i64) -> (level: u8)
    ensures
        level == if scaled <= 0 {
            0
        } else if scaled >= 255 {
            255
        } else {
            scaled
        },
{
    if scaled >= 255 {
        MAX_LEVEL
    } else if scaled <= 0 {
        0
    } else {
        scaled as u8
    }
}

proof fn lemma_index_in_grid(x: int, y: int, width: int, height: int)
    requires
        0 <= x < width,
        0 <= y < height,
    ensures
        0 <= y * width + x < width * height,
{
    assert(0 <= y * width + x < width * height) by (nonlinear_arith)
        requires
            0 <= x < width,
            0 <= y < height,
    ;
}

impl<P> Canvas<P> {
    /// The pixels fill the grid exactly.
    pub closed spec fn wf(&self) -> bool {
        &&& self.pixels@.len() == self.width * self.height
        &&& self.width * self.height <= usize::MAX
    }

    /// Number of columns.
    pub closed spec fn columns(&self) -> nat {
        self.width as nat
    }

    /// Number of rows.
    pub closed spec fn rows(&self) -> nat {
        self.height as nat
    }

    /// The pixel in column `x` of row `y`.
    pub closed spec fn pixel(&self, x: int, y: int) -> P {
        self.pixels@[y * self.width + x]
    }

    /// Whether `(x, y)` lies on the canvas.
    pub open spec fn contains(&self, x: int, y: int) -> bool {
        0 <= x < self.columns() && 0 <= y < self.rows()
    }

    /// Number of columns.
    pub fn width(&self) -> (w: usize)
        ensures
            w == self.columns(),
    {
        self.width
    }

    /// Number of rows.
    pub fn height(&self) -> (h: usize)
        ensures
            h == self.rows(),
    {
        self.height
    }
}

impl<P: Copy> Canvas<P> {
    /// A canvas of `width` columns and `height` rows, every pixel `background`.
    pub fn new(width: usize, height: usize, background: P) -> (c: Self)
        requires
            width * height <= usize::MAX,
        ensures
            c.wf(),
            c.columns() == width,
            c.rows() == height,
            forall|x: int, y: int| c.contains(x, y) ==> c.pixel(x, y) == background,
    {
        let total: usize = width * height;
        let mut pixels: Vec<P> = Vec::new();
        for i in 0..total
            invariant
                pixels@.len() == i,
                forall|k: int| 0 <= k < i ==> pixels@[k] == background,
        {
            pixels.push(background);
        }
        let c = Canvas { width, height, pixels };
        assert forall|x: int, y: int| c.contains(x, y) implies c.pixel(x, y) == background by {
            lemma_index_in_grid(x, y, width as int, height as int);
        }
        c
    }

    /// The pixel at `(x, y)`, or `None` off the canvas.
    pub fn get_pixel(&self, x: usize, y: usize) -> (r: Option<P>)
        requires
            self.wf(),
        ensures
            r == if self.contains(x as int, y as int) {
                Some(self.pixel(x as int, y as int))
            } else {
                None::<P>
            },
    {
        if x >= self.width || y >= self.height {
            None
        } else {
            proof {
                lemma_index_in_grid(x as int, y as int, self.width as int, self.height as int);
            }
            Some(self.pixels[y * self.width + x])
        }
    }

    /// Sets the pixel at `(x, y)` to `colour` when that point lies on the
    /// canvas, and says whether it did; off the canvas nothing changes.
    pub fn set_pixel(&mut self, x: usize, y: usize, colour: P) -> (set: bool)
        requires
            old(self).wf(),
        ensures
            final(self).wf(),
            set == old(self).contains(x as int, y as int),
            final(self).columns() == old(self).columns(),
            final(self).rows() == old(self).rows(),
            forall|i: int, j: int|
                final(self).contains(i, j) ==> final(self).pixel(i, j) == if set && i == x && j
                    == y {
                    colour
                } else {
                    old(self).pixel(i, j)
                },
    {
        if x >= self.width || y >= self.height {
            false
        } else {
            proof {
                lemma_index_in_grid(x as int, y as int, self.width as int, self.height as int);
            }
            let k: usize = y * self.width + x;
            self.pixels.set(k, colour);
            proof {
                assert forall|i: int, j: int| self.contains(i, j) implies self.pixel(i, j) == if i
                    == x && j == y {
                    colour
                } else {
                    old(self).pixel(i, j)
                } by {
                    lemma_index_in_grid(i, j, self.width as int, self.height as int);
                    if j * self.width + i == k {
                        lemma_same_index(i, j, x as int, y as int, self.width as int);
                    }
                }
            }
            true
        }
    }
}

/// A pixel as written out: its three levels, each followed by a space.
pub open spec fn rgb_text(p: Rgb) -> Seq<char> {
    decimal(p.red as nat) + seq![' '] + decimal(p.green as nat) + seq![' '] + decimal(
        p.blue as nat,
    ) + seq![' ']
}

fn push_rgb(out: &mut String, p: Rgb)
    ensures
        final(out)@ == old(out)@ + rgb_text(p),
{
    push_decimal(out, p.red as u64);
    out.push(' ');
    push_decimal(out, p.green as u64);
    out.push(' ');
    push_decimal(out, p.blue as u64);
    out.push(' ');
    assert(final(out)@ =~= old(out)@ + rgb_text(p));
}

impl Canvas<Rgb> {
    /// The first `n` pixels of row `y`, written out one after the other.
    pub open spec fn row_text(&self, y: int, n: int) -> Seq<char>
        decreases n,
    {
        if n <= 0 {
            Seq::empty()
        } else {
            self.row_text(y, n - 1) + rgb_text(self.pixel(n - 1, y))
        }
    }

    /// The first `m` rows, each written out, wrapped at the line limit and
    /// ended by a line break.
    pub open spec fn grid_text(&self, m: int) -> Seq<char>
        decreases m,
    {
        if m <= 0 {
            Seq::empty()
        } else {
            self.grid_text(m - 1) + limited_line(self.row_text(m - 1, self.columns() as int))
                + seq!['\n']
        }
    }

    /// The whole canvas as a plain-text portable pixmap: the magic number,
    /// the size, the highest level, the pixel rows and a closing line break.
    pub open spec fn ppm_text(&self) -> Seq<char> {
        seq!['P', '3', '\n'] + decimal(self.columns()) + seq![' '] + decimal(self.rows())
            + seq!['\n', '2', '5', '5', '\n'] + self.grid_text(self.rows() as int) + seq!['\n']
    }

    /// The pixel rows as text: each row's pixels in order, wrapped at the
    /// line limit, followed by a line break.
    pub fn get_pixel_grid(&self) -> (r: String)
        requires
            self.wf(),
        ensures
            r@ == self.grid_text(self.rows() as int),
    {
        let mut out = String::new();
        for y in 0..self.height
            invariant
                self.wf(),
                out@ == self.grid_text(y as int),
        {
            let mut row = String::new();
            for x in 0..self.width
                invariant
                    self.wf(),
                    0 <= y < self.rows(),
                    row@ == self.row_text(y as int, x as int),
            {
                proof {
                    lemma_index_in_grid(x as int, y as int, self.width as int, self.height as int);
                }
                push_rgb(&mut row, self.pixels[y * self.width + x]);
            }
            let limited = limit_line_length(row.as_str());
            out.append(limited.as_str());
            out.push('\n');
            assert(out@ =~= self.grid_text(y + 1));
        }
        out
    }

    /// The canvas as a plain-text portable pixmap.
    pub fn to_ppm(&self) -> (r: String)
        requires
            self.wf(),
        ensures
            r@ == self.ppm_text(),
    {
        let mut out = String::new();
        out.push('P');
        out.push('3');
        out.push('\n');
        push_decimal(&mut out, self.width as u64);
        out.push(' ');
        push_decimal(&mut out, self.height as u64);
        out.push('\n');
        push_decimal(&mut out, MAX_LEVEL as u64);
        out.push('\n');
        let grid = self.get_pixel_grid();
        out.append(grid.as_str());
        out.push('\n');
        proof {
            reveal_with_fuel(decimal, 3);
            assert(decimal(255) =~= seq!['2', '5', '5']);
        }
        assert(out@ =~= self.ppm_text());
        out
    }
}

proof fn lemma_same_index(i: int, j: int, x: int, y: int, width: int)
    requires
        0 <= i < width,
        0 <= x < width,
        0 <= j,
        0 <= y,
        j * width + i == y * width + x,
    ensures
        i == x,
        j == y,
{
    assert(j == y) by (nonlinear_arith)
        requires
            0 <= i < width,
            0 <= x < width,
            0 <= j,
            0 <= y,
            j * width + i == y * width + x,
    ;
}

} // verus!
