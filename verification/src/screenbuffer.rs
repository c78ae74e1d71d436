//! The shared character grid all views render into before terminal output.
//!
//! The buffer owns a `width * height` array of cells, row-major. Any write
//! outside `[0,width) x [0,height)` is silently dropped: writes clip, they
//! never fail. Serialization re-emits the whole frame, one cursor-positioning
//! sequence per row.

use vstd::prelude::*;
use vstd::arithmetic::div_mod::lemma_fundamental_div_mod;
use vstd::arithmetic::div_mod::lemma_fundamental_div_mod_converse;
use crate::text::dec_str;
use crate::text::dec_chars;
use crate::text::push_char;

verus! {

/// A single displayable character; the default is a space.
#[derive(Clone, Copy, Debug, PartialEq, Eq, Structural)]
pub struct Cell {
    pub ch: char,
}

impl Default for Cell {
    fn default() -> (c: Self)
        ensures
            c.ch == ' ',
    {
        Self { ch: ' ' }
    }
}

/// The grid after writing the characters `cs` starting at column `x` of row
/// `y`, each cell write clipped to the grid's bounds. A row at or beyond the
/// grid's height, or a column at or beyond `w`, is simply never represented
/// in the flat sequence, so clipping falls out of the indexing.
pub open spec fn grid_write(grid: Seq<char>, w: int, y: int, x: int, cs: Seq<char>) -> Seq<char> {
    Seq::new(
        grid.len(),
        |i: int|
            {
                let r = i / w;
                let c = i % w;
                if w > 0 && r == y && c >= x && c - x < cs.len() {
                    cs[c - x]
                } else {
                    grid[i]
                }
            },
    )
}

/// The cursor-positioning sequence that addresses row `y + 1`, column 1.
pub open spec fn row_prefix(y: int) -> Seq<char> {
    seq!['\x1b', '['] + dec_str((y + 1) as nat) + seq![';', '1', 'H']
}

/// The serialized form of the first `h` rows of the grid: for each row, its
/// cursor-positioning sequence followed by every cell's character in column
/// order. Rows are not separated by newlines; the positioning sequences
/// serve that purpose.
pub open spec fn flush_spec(grid: Seq<char>, w: int, h: int) -> Seq<char>
    decreases h,
{
    if h <= 0 {
        Seq::empty()
    } else {
        flush_spec(grid, w, h - 1) + row_prefix(h - 1) + grid.subrange((h - 1) * w, (h - 1) * w + w)
    }
}

/// The flat position of the cell at column `x` of row `y`, with its bounds
/// and its row and column recovered by division.
proof fn lemma_grid_index(x: int, y: int, w: int, h: int)
    requires
        0 <= x < w,
        0 <= y < h,
    ensures
        0 <= y * w,
        y * w + x < w * h,
        (y * w + x) / w == y,
        (y * w + x) % w == x,
{
    assert(0 <= y * w && y * w + x < w * h) by (nonlinear_arith)
        requires
            0 <= x < w,
            0 <= y < h,
    ;
    lemma_fundamental_div_mod_converse(y * w + x, w, y, x);
}

/// Every flat position below `w * h` lies in a row below `h` and a column
/// below `w`.
proof fn lemma_flat_coords(j: int, w: int, h: int)
    requires
        w > 0,
        0 <= j < w * h,
    ensures
        0 <= j / w < h,
        0 <= j % w < w,
        j == (j / w) * w + (j % w),
{
    lemma_fundamental_div_mod(j, w);
    vstd::arithmetic::div_mod::lemma_mod_pos_bound(j, w);
    assert(0 <= j / w < h && j == (j / w) * w + (j % w)) by (nonlinear_arith)
        requires
            w > 0,
            0 <= j < w * h,
            j == w * (j / w) + (j % w),
            0 <= j % w < w,
    ;
}

/// One more character written at column `x + i` extends a partial write by
/// one cell when the row is on the grid, and does nothing when it is not.
proof fn lemma_grid_write_step(grid: Seq<char>, w: int, h: int, y: int, x: int, cs: Seq<char>, i: int)
    requires
        grid.len() == w * h,
        w >= 0,
        h >= 0,
        0 <= y,
        0 <= x,
        0 <= i < cs.len(),
        x + i < w,
    ensures
        y < h ==> grid_write(grid, w, y, x, cs.take(i)).update(y * w + (x + i), cs[i]) =~= grid_write(
            grid,
            w,
            y,
            x,
            cs.take(i + 1),
        ),
        y >= h ==> grid_write(grid, w, y, x, cs.take(i)) =~= grid_write(grid, w, y, x, cs.take(i + 1)),
{
    if y < h {
        lemma_grid_index(x + i, y, w, h);
        let idx = y * w + (x + i);
        let a = grid_write(grid, w, y, x, cs.take(i)).update(idx, cs[i]);
        let b = grid_write(grid, w, y, x, cs.take(i + 1));
        assert forall|j: int| 0 <= j < grid.len() implies a[j] == b[j] by {
            lemma_flat_coords(j, w, h);
            if j != idx && j / w == y && j % w == x + i {
                assert(j == (j / w) * w + (j % w));
                assert(false);
            }
        };
    } else {
        let a = grid_write(grid, w, y, x, cs.take(i));
        let b = grid_write(grid, w, y, x, cs.take(i + 1));
        assert forall|j: int| 0 <= j < grid.len() implies a[j] == b[j] by {
            lemma_flat_coords(j, w, h);
        };
    }
}

/// Once the write has reached the right edge, the remaining characters all
/// clip: the partial write already equals the whole one.
proof fn lemma_grid_write_stop(grid: Seq<char>, w: int, h: int, y: int, x: int, cs: Seq<char>, i: int)
    requires
        grid.len() == w * h,
        w >= 0,
        h >= 0,
        0 <= x,
        0 <= i <= cs.len(),
        x + i >= w,
    ensures
        grid_write(grid, w, y, x, cs.take(i)) =~= grid_write(grid, w, y, x, cs),
{
    let a = grid_write(grid, w, y, x, cs.take(i));
    let b = grid_write(grid, w, y, x, cs);
    assert forall|j: int| 0 <= j < grid.len() implies a[j] == b[j] by {
        if w > 0 {
            lemma_flat_coords(j, w, h);
        }
    };
}

/// A write whose starting column lies at or beyond the right edge changes
/// nothing: every cell of it clips.
pub proof fn lemma_grid_write_offscreen(grid: Seq<char>, w: int, h: int, y: int, x: int, cs: Seq<char>)
    requires
        grid.len() == w * h,
        w >= 0,
        h >= 0,
        x >= w,
    ensures
        grid_write(grid, w, y, x, cs) =~= grid,
{
    let a = grid_write(grid, w, y, x, cs);
    assert forall|j: int| 0 <= j < grid.len() implies a[j] == grid[j] by {
        if w > 0 {
            lemma_flat_coords(j, w, h);
        }
    };
}

/// A write to a row at or below the bottom edge changes nothing.
pub proof fn lemma_grid_write_offrow(grid: Seq<char>, w: int, h: int, y: int, x: int, cs: Seq<char>)
    requires
        grid.len() == w * h,
        w >= 0,
        h >= 0,
        y >= h || y < 0,
    ensures
        grid_write(grid, w, y, x, cs) =~= grid,
{
    let a = grid_write(grid, w, y, x, cs);
    assert forall|j: int| 0 <= j < grid.len() implies a[j] == grid[j] by {
        if w > 0 {
            lemma_flat_coords(j, w, h);
        }
    };
}

/// Clipping law: a write at `(x, y)` changes no cell of any other row, no
/// cell of row `y` left of `x` or past the written characters, and puts
/// character `i` of the line at column `x + i` wherever that column is on
/// the grid — a line overrunning the right edge stops at the last column.
pub proof fn lemma_write_clips(grid: Seq<char>, w: int, h: int, y: int, x: int, cs: Seq<char>)
    requires
        grid.len() == w * h,
        w >= 0,
        h >= 0,
        x >= 0,
    ensures
        forall|cx: int, cy: int|
            0 <= cx < w && 0 <= cy < h && cy != y ==> #[trigger] grid_write(grid, w, y, x, cs)[cy
                * w + cx] == grid[cy * w + cx],
        forall|cx: int|
            0 <= cx < w && 0 <= y < h && (cx < x || cx - x >= cs.len()) ==> #[trigger] grid_write(
                grid,
                w,
                y,
                x,
                cs,
            )[y * w + cx] == grid[y * w + cx],
        forall|cx: int|
            x <= cx < w && 0 <= y < h && cx - x < cs.len() ==> #[trigger] grid_write(
                grid,
                w,
                y,
                x,
                cs,
            )[y * w + cx] == cs[cx - x],
{
    assert forall|cx: int, cy: int| 0 <= cx < w && 0 <= cy < h implies #[trigger] grid_write(
        grid,
        w,
        y,
        x,
        cs,
    )[cy * w + cx] == (if cy == y && cx >= x && cx - x < cs.len() {
        cs[cx - x]
    } else {
        grid[cy * w + cx]
    }) by {
        lemma_grid_index(cx, cy, w, h);
    }
}

/// The serialized form of a blank frame: for each row in order, its
/// cursor-positioning sequence followed by a full row of spaces.
pub open spec fn blank_frame(w: int, h: int) -> Seq<char>
    decreases h,
{
    if h <= 0 {
        Seq::empty()
    } else {
        blank_frame(w, h - 1) + row_prefix(h - 1) + crate::text::spaces(w)
    }
}

/// Serialization law: a freshly cleared buffer serializes to exactly one
/// cursor-positioning sequence per row, in row order, each followed by a
/// row of spaces as wide as the buffer.
pub proof fn lemma_flush_cleared(grid: Seq<char>, w: int, h: int)
    requires
        grid.len() == w * h,
        w >= 0,
        h >= 0,
        forall|i: int| 0 <= i < grid.len() ==> grid[i] == ' ',
    ensures
        flush_spec(grid, w, h) == blank_frame(w, h),
    decreases h,
{
    if h > 0 {
        assert((h - 1) * w >= 0 && h * w == grid.len() && (h - 1) * w + w == h * w && w * (h - 1)
            == (h - 1) * w) by (nonlinear_arith)
            requires
                grid.len() == w * h,
                w >= 0,
                h >= 1,
        ;
        lemma_flush_cleared(grid.subrange(0, (h - 1) * w), w, h - 1);
        assert(flush_spec(grid, w, h - 1) == flush_spec(grid.subrange(0, (h - 1) * w), w, h - 1))
            by {
            lemma_flush_prefix(grid, w, h - 1);
        }
        assert(grid.subrange((h - 1) * w, (h - 1) * w + w) =~= crate::text::spaces(w));
    }
}

/// Serializing the first `h` rows reads only the first `h * w` cells.
proof fn lemma_flush_prefix(grid: Seq<char>, w: int, h: int)
    requires
        w >= 0,
        h >= 0,
        h * w <= grid.len(),
    ensures
        flush_spec(grid, w, h) == flush_spec(grid.subrange(0, h * w), w, h),
    decreases h,
{
    if h > 0 {
        assert((h - 1) * w >= 0 && (h - 1) * w + w == h * w) by (nonlinear_arith)
            requires
                w >= 0,
                h >= 1,
        ;
        lemma_flush_prefix(grid, w, h - 1);
        lemma_flush_prefix(grid.subrange(0, h * w), w, h - 1);
        assert(grid.subrange(0, h * w).subrange(0, (h - 1) * w) =~= grid.subrange(0, (h - 1) * w));
        assert(grid.subrange(0, h * w).subrange((h - 1) * w, (h - 1) * w + w) =~= grid.subrange(
            (h - 1) * w,
            (h - 1) * w + w,
        ));
    }
}

/// A flat grid of character cells sized once at construction.
pub struct ScreenBuffer {
    width: u16,
    height: u16,
    cells: Vec<Cell>,
}

impl ScreenBuffer {
    /// The characters of the grid, row-major.
    pub closed spec fn grid(self) -> Seq<char> {
        self.cells@.map(|i: int, c: Cell| c.ch)
    }

    pub closed spec fn spec_width(self) -> u16 {
        self.width
    }

    pub closed spec fn spec_height(self) -> u16 {
        self.height
    }

    /// The grid always holds exactly `width * height` cells.
    pub open spec fn wf(self) -> bool {
        self.grid().len() == self.spec_width() * self.spec_height()
    }

    /// The character at a cell, for stating what draws and writes did.
    pub open spec fn char_at(self, x: int, y: int) -> char {
        self.grid()[y * self.spec_width() + x]
    }

    /// Allocates a cleared grid.
    pub fn new(width: u16, height: u16) -> (sb: Self)
        ensures
            sb.wf(),
            sb.spec_width() == width,
            sb.spec_height() == height,
            forall|i: int| 0 <= i < sb.grid().len() ==> sb.grid()[i] == ' ',
    {
        proof {
            assert((width as int) * (height as int) <= 0xffff * 0xffff) by (nonlinear_arith)
                requires
                    width <= 0xffff,
                    height <= 0xffff,
            ;
        }
        let n: usize = (width as usize) * (height as usize);
        let mut cells: Vec<Cell> = Vec::new();
        let mut i: usize = 0;
        while i < n
            invariant
                i <= n,
                cells@.len() == i,
                forall|j: int| 0 <= j < i ==> cells@[j].ch == ' ',
            decreases n - i,
        {
            cells.push(Cell { ch: ' ' });
            i = i + 1;
        }
        let sb = Self { width, height, cells };
        assert forall|i: int| 0 <= i < sb.grid().len() implies sb.grid()[i] == ' ' by {
            assert(sb.grid()[i] == sb.cells@[i].ch);
        }
        sb
    }

    /// Resets every cell to the default space character.
    pub fn clear(&mut self)
        requires
            old(self).wf(),
        ensures
            final(self).wf(),
            final(self).spec_width() == old(self).spec_width(),
            final(self).spec_height() == old(self).spec_height(),
            final(self).grid().len() == old(self).grid().len(),
            forall|i: int| 0 <= i < final(self).grid().len() ==> final(self).grid()[i] == ' ',
    {
        let n: usize = self.cells.len();
        let mut i: usize = 0;
        while i < n
            invariant
                i <= n,
                self.cells@.len() == n,
                self.width == old(self).width,
                self.height == old(self).height,
                forall|j: int| 0 <= j < i ==> self.cells@[j].ch == ' ',
            decreases n - i,
        {
            self.cells[i] = Cell { ch: ' ' };
            i = i + 1;
        }
        assert forall|i: int| 0 <= i < self.grid().len() implies self.grid()[i] == ' ' by {
            assert(self.grid()[i] == self.cells@[i].ch);
        }
    }

    /// Writes one character if `(x, y)` is in bounds, else is a silent no-op.
    pub fn set(&mut self, x: u16, y: u16, ch: char)
        requires
            old(self).wf(),
        ensures
            final(self).wf(),
            final(self).spec_width() == old(self).spec_width(),
            final(self).spec_height() == old(self).spec_height(),
            x < old(self).spec_width() && y < old(self).spec_height() ==> final(self).grid() == old(
                self,
            ).grid().update(y * old(self).spec_width() + x, ch),
            !(x < old(self).spec_width() && y < old(self).spec_height()) ==> final(self).grid()
                == old(self).grid(),
    {
        if x < self.width && y < self.height {
            proof {
                lemma_grid_index(x as int, y as int, self.width as int, self.height as int);
            }
            let n: usize = self.cells.len();
            assert((y as int) * (self.width as int) + (x as int) < n);
            let idx: usize = (y as usize) * (self.width as usize) + (x as usize);
            self.cells[idx] = Cell { ch };
            assert(final(self).grid() =~= old(self).grid().update(
                y * old(self).spec_width() + x,
                ch,
            ));
        } else {
            assert(final(self).grid() =~= old(self).grid());
        }
    }

    /// Writes successive characters starting at `(x, y)`, advancing one
    /// column per character. Each individual cell write clips, so a string
    /// that runs past the right edge is truncated one cell at a time, never
    /// rejected as a whole.
    pub fn write_str(&mut self, x: u16, y: u16, s: &str)
        requires
            old(self).wf(),
        ensures
            final(self).wf(),
            final(self).spec_width() == old(self).spec_width(),
            final(self).spec_height() == old(self).spec_height(),
            final(self).grid() == grid_write(
                old(self).grid(),
                old(self).spec_width() as int,
                y as int,
                x as int,
                s@,
            ),
    {
        let cs = crate::text::str_to_chars(s);
        self.write_chars(x, y, &cs);
    }

    /// As `write_str`, for a character vector already in hand.
    pub fn write_chars(&mut self, x: u16, y: u16, cs: &Vec<char>)
        requires
            old(self).wf(),
        ensures
            final(self).wf(),
            final(self).spec_width() == old(self).spec_width(),
            final(self).spec_height() == old(self).spec_height(),
            final(self).grid() == grid_write(
                old(self).grid(),
                old(self).spec_width() as int,
                y as int,
                x as int,
                cs@,
            ),
    {
        let ghost w = old(self).spec_width() as int;
        let ghost h = old(self).spec_height() as int;
        let n: usize = cs.len();
        let limit: usize = if (x as usize) < (self.width as usize) {
            (self.width as usize) - (x as usize)
        } else {
            0
        };
        let mut i: usize = 0;
        assert(self.grid() =~= grid_write(old(self).grid(), w, y as int, x as int, cs@.take(0)));
        while i < n && i < limit
            invariant
                old(self).wf(),
                self.wf(),
                i <= n,
                n == cs@.len(),
                limit <= usize::MAX,
                x as int + limit <= w || limit == 0,
                limit == if x < w { w - x } else { 0int },
                self.spec_width() == old(self).spec_width(),
                self.spec_height() == old(self).spec_height(),
                w == old(self).spec_width() as int,
                h == old(self).spec_height() as int,
                self.grid() == grid_write(old(self).grid(), w, y as int, x as int, cs@.take(i as int)),
            decreases n - i,
        {
            let gx: u16 = x + (i as u16);
            proof {
                lemma_grid_write_step(
                    old(self).grid(),
                    w,
                    h,
                    y as int,
                    x as int,
                    cs@,
                    i as int,
                );
            }
            self.set(gx, y, cs[i]);
            i = i + 1;
        }
        proof {
            if i < n {
                lemma_grid_write_stop(old(self).grid(), w, h, y as int, x as int, cs@, i as int);
            } else {
                assert(cs@.take(i as int) =~= cs@);
            }
        }
    }

    /// As `write_chars`, for coordinates that may already have left the
    /// 16-bit range: such a write lies wholly off screen and clips away.
    pub fn write_chars_at(&mut self, x: u32, y: u32, cs: &Vec<char>)
        requires
            old(self).wf(),
        ensures
            final(self).wf(),
            final(self).spec_width() == old(self).spec_width(),
            final(self).spec_height() == old(self).spec_height(),
            final(self).grid() == grid_write(
                old(self).grid(),
                old(self).spec_width() as int,
                y as int,
                x as int,
                cs@,
            ),
    {
        if x <= 0xffff && y <= 0xffff {
            self.write_chars(x as u16, y as u16, cs);
        } else if x > 0xffff {
            proof {
                lemma_grid_write_offscreen(
                    old(self).grid(),
                    old(self).spec_width() as int,
                    old(self).spec_height() as int,
                    y as int,
                    x as int,
                    cs@,
                );
            }
        } else {
            proof {
                lemma_grid_write_offrow(
                    old(self).grid(),
                    old(self).spec_width() as int,
                    old(self).spec_height() as int,
                    y as int,
                    x as int,
                    cs@,
                );
            }
        }
    }

    /// Writes one character at coordinates that may have left the 16-bit
    /// range, clipped like every other write.
    pub fn set_at(&mut self, x: u32, y: u32, ch: char)
        requires
            old(self).wf(),
        ensures
            final(self).wf(),
            final(self).spec_width() == old(self).spec_width(),
            final(self).spec_height() == old(self).spec_height(),
            final(self).grid() == grid_write(
                old(self).grid(),
                old(self).spec_width() as int,
                y as int,
                x as int,
                seq![ch],
            ),
    {
        let ghost w = old(self).spec_width() as int;
        let ghost h = old(self).spec_height() as int;
        let ghost cs = seq![ch];
        assert(grid_write(old(self).grid(), w, y as int, x as int, cs.take(0)) =~= old(self).grid());
        if x < self.width as u32 && y <= 0xffff {
            proof {
                lemma_grid_write_step(old(self).grid(), w, h, y as int, x as int, cs, 0);
                assert(cs.take(1) =~= cs);
            }
            self.set(x as u16, y as u16, ch);
        } else if x >= self.width as u32 {
            proof {
                lemma_grid_write_offscreen(old(self).grid(), w, h, y as int, x as int, cs);
            }
        } else {
            proof {
                lemma_grid_write_offrow(old(self).grid(), w, h, y as int, x as int, cs);
            }
        }
    }

    /// Produces one terminal-ready payload: for each row, a
    /// cursor-positioning sequence addressing row `y + 1`, column 1, followed
    /// by that row's characters in column order. Always a full-frame
    /// re-emission; there is no diffing against a previous frame.
    pub fn flush_to_string(&self) -> (out: String)
        requires
            self.wf(),
        ensures
            out@ == flush_spec(self.grid(), self.spec_width() as int, self.spec_height() as int),
    {
        let ghost w = self.spec_width() as int;
        let mut out = String::new();
        let mut y: u16 = 0;
        assert(out@ =~= flush_spec(self.grid(), w, 0));
        while y < self.height
            invariant
                self.wf(),
                y <= self.spec_height(),
                w == self.spec_width() as int,
                out@ == flush_spec(self.grid(), w, y as int),
            decreases self.spec_height() - y,
        {
            let digits = dec_chars((y as u32) + 1);
            push_char(&mut out, '\x1b');
            push_char(&mut out, '[');
            assert(out@ =~= flush_spec(self.grid(), w, y as int) + seq!['\x1b', '[']
                + digits@.take(0));
            let mut d: usize = 0;
            while d < digits.len()
                invariant
                    self.wf(),
                    w == self.spec_width() as int,
                    digits@ == dec_str((y + 1) as nat),
                    d <= digits@.len(),
                    out@ == flush_spec(self.grid(), w, y as int) + seq!['\x1b', '[']
                        + digits@.take(d as int),
                decreases digits@.len() - d,
            {
                push_char(&mut out, digits[d]);
                d = d + 1;
                assert(out@ =~= flush_spec(self.grid(), w, y as int) + seq!['\x1b', '[']
                    + digits@.take(d as int));
            }
            assert(digits@.take(digits@.len() as int) =~= digits@);
            push_char(&mut out, ';');
            push_char(&mut out, '1');
            push_char(&mut out, 'H');
            assert(out@ =~= flush_spec(self.grid(), w, y as int) + row_prefix(y as int));
            let mut x: u16 = 0;
            let ncells: usize = self.cells.len();
            proof {
                assert(0 <= y as int * w && y as int * w + w <= w * (self.spec_height() as int))
                    by (nonlinear_arith)
                    requires
                        w >= 0,
                        0 <= y as int,
                        (y as int) < (self.spec_height() as int),
                ;
            }
            assert(self.grid().subrange(y as int * w, y as int * w + 0) =~= Seq::<char>::empty());
            while x < self.width
                invariant
                    self.wf(),
                    y < self.spec_height(),
                    x <= self.spec_width(),
                    w == self.spec_width() as int,
                    ncells == self.grid().len(),
                    0 <= y as int * w,
                    y as int * w + w <= ncells,
                    out@ == flush_spec(self.grid(), w, y as int) + row_prefix(y as int)
                        + self.grid().subrange(y as int * w, y as int * w + x as int),
                decreases self.spec_width() - x,
            {
                let idx: usize = (y as usize) * (self.width as usize) + (x as usize);
                let c = self.cells[idx].ch;
                push_char(&mut out, c);
                x = x + 1;
                assert(out@ =~= flush_spec(self.grid(), w, y as int) + row_prefix(y as int)
                    + self.grid().subrange(y as int * w, y as int * w + x as int));
            }
            y = y + 1;
            assert(out@ =~= flush_spec(self.grid(), w, y as int));
        }
        out
    }
}

} // verus!
