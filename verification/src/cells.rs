//! Cells and the grid that holds them.

use vstd::arithmetic::div_mod::{
    lemma_fundamental_div_mod, lemma_fundamental_div_mod_converse, lemma_mod_bound,
};
use vstd::prelude::*;

verus! {

/// The largest number of columns or rows a grid can have.
pub const MAX_SIDE: usize = 0xFFFF;

/// One screen position: a code point with a foreground and a background
/// attribute. The foreground holds a palette color in its low three bits and
/// the bold and underline bits above them; the background holds a color.
#[derive(Clone, Copy, Debug, PartialEq, Eq, Structural)]
pub struct Cell {
    pub ch: u32,
    pub fg: u16,
    pub bg: u16,
}

/// The cell of an empty screen: a space, white on black.
pub open spec fn blank_cell() -> Cell {
    Cell { ch: 0x20, fg: 0x07, bg: 0x00 }
}

impl Default for Cell {
    /// The blank cell.
    fn default() -> (c: Cell)
        ensures
            c == blank_cell(),
    {
        Cell { ch: 0x20, fg: 0x07, bg: 0x00 }
    }
}

/// A grid of cells as a mathematical value: `cells` holds the rows one after
/// another, each `width` cells long.
pub struct Grid {
    pub width: nat,
    pub height: nat,
    pub cells: Seq<Cell>,
}

impl Grid {
    /// The cells fill the grid exactly, and neither side is beyond the limit.
    pub open spec fn wf(self) -> bool {
        &&& self.width <= MAX_SIDE
        &&& self.height <= MAX_SIDE
        &&& self.cells.len() == self.width * self.height
    }

    /// Whether column `x`, row `y` lies inside the grid.
    pub open spec fn holds(self, x: int, y: int) -> bool {
        0 <= x < self.width && 0 <= y < self.height
    }

    /// The cell at column `x`, row `y`.
    pub open spec fn at(self, x: int, y: int) -> Cell
        recommends
            self.holds(x, y),
    {
        self.cells[y * self.width + x]
    }

    /// The grid of the given size whose cells all equal `c`.
    pub open spec fn filled(width: nat, height: nat, c: Cell) -> Grid {
        Grid { width, height, cells: Seq::new(width * height, |i: int| c) }
    }

    /// The grid with the cell at column `x`, row `y` replaced by `c`, or the
    /// grid itself where that position lies outside it.
    pub open spec fn with_cell(self, x: int, y: int, c: Cell) -> Grid {
        if self.holds(x, y) {
            Grid { cells: self.cells.update(y * self.width + x, c), ..self }
        } else {
            self
        }
    }

    /// The grid with `text` written into row `y` from column `x` rightwards,
    /// one cell per character with the given attributes. What falls outside
    /// the row is dropped.
    pub open spec fn with_text(self, x: int, y: int, fg: u16, bg: u16, text: Seq<char>) -> Grid {
        Grid {
            cells: Seq::new(
                self.cells.len(),
                |i: int|
                    if self.width > 0 && i / (self.width as int) == y && x <= i % (
                    self.width as int) < x + text.len() {
                        Cell { ch: text[i % (self.width as int) - x] as u32, fg, bg }
                    } else {
                        self.cells[i]
                    },
            ),
            ..self
        }
    }
}

/// Positions inside a grid have an index inside its cells, and two positions
/// share an index only if they are the same.
pub proof fn index_in_grid(g: Grid, x: int, y: int)
    requires
        g.wf(),
        g.holds(x, y),
    ensures
        0 <= y * g.width + x < g.cells.len() <= 0xFFFE_0001,
        (y * g.width + x) / (g.width as int) == y,
        (y * g.width + x) % (g.width as int) == x,
{
    let w = g.width as int;
    let h = g.height as int;
    assert(y * w + x < w * h <= 0xFFFE_0001) by (nonlinear_arith)
        requires
            0 <= x < w <= 0xFFFF,
            0 <= y < h <= 0xFFFF,
    ;
    assert(0 <= y * w) by (nonlinear_arith)
        requires
            0 <= y,
            0 <= w,
    ;
    lemma_fundamental_div_mod_converse(y * w + x, w, y, x);
}

/// Every index into the cells of a grid is that of a position inside it.
pub proof fn position_in_grid(g: Grid, i: int)
    requires
        g.wf(),
        0 <= i < g.cells.len(),
    ensures
        g.width > 0,
        g.holds(i % (g.width as int), i / (g.width as int)),
        i == (i / (g.width as int)) * g.width + i % (g.width as int),
{
    let w = g.width as int;
    let h = g.height as int;
    assert(w > 0) by (nonlinear_arith)
        requires
            0 <= i < w * h,
            0 <= w,
    ;
    lemma_fundamental_div_mod(i, w);
    lemma_mod_bound(i, w);
    let q = i / w;
    let r = i % w;
    assert(i == w * q + r);
    assert(0 <= q < h) by (nonlinear_arith)
        requires
            i == w * q + r,
            0 <= r < w,
            0 <= i < w * h,
    ;
    assert(w * q == q * w) by (nonlinear_arith);
}

/// Changing one cell changes that cell and no other, and asking for a cell
/// outside the grid changes nothing.
pub proof fn with_cell_touches_one(g: Grid, x: int, y: int, c: Cell, ox: int, oy: int)
    requires
        g.wf(),
        g.holds(ox, oy),
    ensures
        g.with_cell(x, y, c).wf(),
        g.with_cell(x, y, c).width == g.width,
        g.with_cell(x, y, c).height == g.height,
        !g.holds(x, y) ==> g.with_cell(x, y, c) == g,
        g.with_cell(x, y, c).at(ox, oy) == (if ox == x && oy == y {
            c
        } else {
            g.at(ox, oy)
        }),
{
    index_in_grid(g, ox, oy);
    if g.holds(x, y) {
        index_in_grid(g, x, y);
    }
}

/// Writing one more character of a text sets one more cell, the one `k`
/// columns to the right of where the text starts.
pub proof fn with_text_grows(g: Grid, x: int, y: int, fg: u16, bg: u16, text: Seq<char>, k: int)
    requires
        g.wf(),
        0 <= x,
        0 <= k < text.len(),
    ensures
        g.with_text(x, y, fg, bg, text.take(k + 1)) == g.with_text(
            x,
            y,
            fg,
            bg,
            text.take(k),
        ).with_cell(x + k, y, Cell { ch: text[k] as u32, fg, bg }),
{
    let shorter = g.with_text(x, y, fg, bg, text.take(k));
    let longer = g.with_text(x, y, fg, bg, text.take(k + 1));
    let c = Cell { ch: text[k] as u32, fg, bg };
    let set = shorter.with_cell(x + k, y, c);
    assert(shorter.wf());
    if shorter.holds(x + k, y) {
        index_in_grid(shorter, x + k, y);
    }
    assert forall|i: int| 0 <= i < longer.cells.len() implies longer.cells[i] == set.cells[i] by {
        position_in_grid(g, i);
    }
    assert(longer.cells =~= set.cells);
}

/// Writing no text changes nothing.
pub proof fn with_text_of_none(g: Grid, x: int, y: int, fg: u16, bg: u16)
    ensures
        g.with_text(x, y, fg, bg, Seq::<char>::empty()) == g,
{
    assert(g.with_text(x, y, fg, bg, Seq::<char>::empty()).cells =~= g.cells);
}

/// A grid of cells, at most `MAX_SIDE` columns by `MAX_SIDE` rows.
///
/// Every buffer this module hands out holds a well-formed grid, and its
/// methods keep it so.
#[derive(Debug)]
pub struct CellBuffer {
    width: usize,
    height: usize,
    cells: Vec<Cell>,
}

impl View for CellBuffer {
    type V = Grid;

    closed spec fn view(&self) -> Grid {
        Grid { width: self.width as nat, height: self.height as nat, cells: self.cells@ }
    }
}

impl CellBuffer {
    /// A buffer of the given size with every cell equal to `c`.
    pub fn filled(width: u16, height: u16, c: Cell) -> (buffer: CellBuffer)
        ensures
            buffer@ == Grid::filled(width as nat, height as nat, c),
            buffer@.wf(),
    {
        let w: usize = width as usize;
        let h: usize = height as usize;
        assert(w * h <= 0xFFFF * 0xFFFF) by (nonlinear_arith)
            requires
                0 <= w <= 0xFFFF,
                0 <= h <= 0xFFFF,
        ;
        let n: usize = w * h;
        let mut cells: Vec<Cell> = Vec::new();
        let mut i: usize = 0;
        while i < n
            invariant
                i <= n,
                cells@ == Seq::new(i as nat, |j: int| c),
            decreases n - i,
        {
            cells.push(c);
            i += 1;
            assert(cells@ =~= Seq::new(i as nat, |j: int| c));
        }
        CellBuffer { width: w, height: h, cells }
    }

    /// A blank buffer of the given size.
    pub fn new(width: u16, height: u16) -> (buffer: CellBuffer)
        ensures
            buffer@ == Grid::filled(width as nat, height as nat, blank_cell()),
            buffer@.wf(),
    {
        CellBuffer::filled(width, height, Cell::default())
    }

    /// Gives the buffer a new size. Nothing of the old content is kept: every
    /// cell is blank afterwards.
    pub fn resize(&mut self, width: u16, height: u16)
        ensures
            final(self)@ == Grid::filled(width as nat, height as nat, blank_cell()),
            final(self)@.wf(),
    {
        *self = CellBuffer::new(width, height);
    }

    /// The index of the cell at column `x`, row `y`, counting row by row.
    fn index(&self, x: usize, y: usize) -> (i: usize)
        requires
            self@.wf(),
            self@.holds(x as int, y as int),
        ensures
            i == y * self@.width + x,
            i < self@.cells.len(),
    {
        proof {
            index_in_grid(self@, x as int, y as int);
            assert(0 <= y * self.width) by (nonlinear_arith);
            assert(y * self.width + x < self.cells@.len());
        }
        y * self.width + x
    }

    /// The number of columns and of rows.
    pub fn get_size(&self) -> (size: (usize, usize))
        ensures
            size.0 == self@.width,
            size.1 == self@.height,
    {
        (self.width, self.height)
    }

    /// Sets the cell at column `x`, row `y`. A position outside the buffer is
    /// ignored.
    pub fn set_cell(&mut self, x: usize, y: usize, ch: u32, fg: u16, bg: u16)
        requires
            old(self)@.wf(),
        ensures
            final(self)@ == old(self)@.with_cell(x as int, y as int, Cell { ch, fg, bg }),
            final(self)@.wf(),
    {
        if x < self.width && y < self.height {
            let i: usize = self.index(x, y);
            self.cells.set(i, Cell { ch, fg, bg });
        }
    }

    /// Sets every cell to a space with the given attributes.
    pub fn clear(&mut self, fg: u16, bg: u16)
        requires
            old(self)@.wf(),
        ensures
            final(self)@ == Grid::filled(
                old(self)@.width,
                old(self)@.height,
                Cell { ch: 0x20, fg, bg },
            ),
            final(self)@.wf(),
    {
        let c = Cell { ch: 0x20, fg, bg };
        let n: usize = self.cells.len();
        let mut i: usize = 0;
        while i < n
            invariant
                i <= n,
                n == self.cells.len(),
                self.width == old(self).width,
                self.height == old(self).height,
                n == self.width * self.height,
                forall|j: int| 0 <= j < i ==> self.cells[j] == c,
            decreases n - i,
        {
            self.cells.set(i, c);
            i += 1;
        }
        assert(self@.cells =~= Grid::filled(old(self)@.width, old(self)@.height, c).cells);
    }

    /// Writes `text` into row `y` from column `x` rightwards, one cell per
    /// character. The text does not wrap: what falls outside the row is
    /// dropped.
    pub fn set_text(&mut self, x: usize, y: usize, fg: u16, bg: u16, text: &str)
        requires
            old(self)@.wf(),
        ensures
            final(self)@ == old(self)@.with_text(x as int, y as int, fg, bg, text@),
            final(self)@.wf(),
    {
        proof {
            with_text_of_none(self@, x as int, y as int, fg, bg);
            assert(text@.take(0) =~= Seq::<char>::empty());
        }
        let mut k: usize = 0;
        for c in it: text.chars()
            invariant
                self@.wf(),
                k == it.index() || (k < it.index() && x + k >= self@.width),
                k <= self@.width,
                self@ == old(self)@.with_text(x as int, y as int, fg, bg, text@.take(it.index())),
                it.seq() == text@,
        {
            proof {
                with_text_grows(old(self)@, x as int, y as int, fg, bg, text@, it.index());
            }
            if x < self.width && k < self.width - x {
                self.set_cell(x + k, y, c as u32, fg, bg);
                k += 1;
            }
        }
        assert(text@.take(text@.len() as int) =~= text@);
    }

    /// The cell at column `x`, row `y`, or `None` outside the buffer.
    pub fn get(&self, x: usize, y: usize) -> (cell: Option<Cell>)
        requires
            self@.wf(),
        ensures
            cell == (if self@.holds(x as int, y as int) {
                Some(self@.at(x as int, y as int))
            } else {
                None
            }),
    {
        if x < self.width && y < self.height {
            Some(self.cells[self.index(x, y)])
        } else {
            None
        }
    }

    /// The number of cells.
    pub fn len(&self) -> (n: usize)
        ensures
            n == self@.cells.len(),
    {
        self.cells.len()
    }

    /// The cell at index `i`, counting row by row.
    pub fn cell(&self, i: usize) -> (c: Cell)
        requires
            i < self@.cells.len(),
        ensures
            c == self@.cells[i as int],
    {
        self.cells[i]
    }

    /// Replaces the cell at index `i`, counting row by row.
    pub fn put(&mut self, i: usize, c: Cell)
        requires
            i < old(self)@.cells.len(),
        ensures
            final(self)@ == (Grid { cells: old(self)@.cells.update(i as int, c), ..old(self)@ }),
    {
        self.cells.set(i, c);
    }
}

} // verus!
