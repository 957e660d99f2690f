//! The fixed-size grid of glyph cells that one rendered frame occupies.
use vstd::prelude::*;

verus! {

/// Side length of the square glyph grid.
pub const GRID_SIDE: usize = 64;

/// Number of cells in one grid (`GRID_SIDE * GRID_SIDE`).
pub const GRID_CELLS: usize = 4096;

/// One cell of the grid: either a pair of colored glyphs or empty background.
#[derive(Clone, Copy, Debug)]
pub enum Cell {
    Foreground {
        /// True when the glyphs were chosen explicitly (word override or
        /// pictographic pick) and so are exempt from luminance substitution.
        custom_glyph: bool,
        glyph0: char,
        glyph1: Option<char>,
        color: (u8, u8, u8),
    },
    Background,
}

impl PartialEq for Cell {
    fn eq(&self, other: &Cell) -> (r: bool) {
        match (self, other) {
            (Cell::Background, Cell::Background) => true,
            (
                Cell::Foreground { custom_glyph: ca, glyph0: ga, glyph1: oa, color: ka },
                Cell::Foreground { custom_glyph: cb, glyph0: gb, glyph1: ob, color: kb },
            ) => {
                let opt_eq = match (oa, ob) {
                    (None, None) => true,
                    (Some(a), Some(b)) => *a == *b,
                    _ => false,
                };
                *ca == *cb && *ga == *gb && opt_eq && ka.0 == kb.0 && ka.1 == kb.1 && ka.2
                    == kb.2
            },
            _ => false,
        }
    }
}

impl vstd::std_specs::cmp::PartialEqSpecImpl for Cell {
    open spec fn obeys_eq_spec() -> bool {
        true
    }

    open spec fn eq_spec(&self, other: &Cell) -> bool {
        *self == *other
    }
}

/// Flat index of grid coordinate `(x, y)` in row-major order (`y` outer).
pub open spec fn grid_index(x: int, y: int) -> int {
    y * 64 + x
}

/// One renderable frame: a `GRID_SIDE` x `GRID_SIDE` matrix of cells stored
/// row-major, together with the population counter of the tick that filled it.
pub struct Term {
    pub count: usize,
    pub cells: Vec<Cell>,
}

impl View for Term {
    type V = Seq<Cell>;

    open spec fn view(&self) -> Seq<Cell> {
        self.cells@
    }
}

impl Term {
    /// Every coordinate holds exactly one cell.
    pub open spec fn wf(&self) -> bool {
        self@.len() == GRID_CELLS
    }

    /// A fresh grid: all background, counter zero.
    pub fn new() -> (t: Term)
        ensures
            t.wf(),
            t.count == 0,
            forall|i: int| 0 <= i < GRID_CELLS ==> t@[i] == Cell::Background,
    {
        let mut cells: Vec<Cell> = Vec::new();
        let mut i: usize = 0;
        while i < GRID_CELLS
            invariant
                i <= GRID_CELLS,
                cells@.len() == i,
                forall|j: int| 0 <= j < i ==> cells@[j] == Cell::Background,
            decreases GRID_CELLS - i,
        {
            cells.push(Cell::Background);
            i = i + 1;
        }
        Term { count: 0, cells }
    }

    /// Direct assignment of one cell; coordinates outside the grid are a
    /// programming error and ruled out by the precondition.
    pub fn set_cell(&mut self, x: usize, y: usize, cell: Cell)
        requires
            old(self).wf(),
            x < GRID_SIDE,
            y < GRID_SIDE,
        ensures
            final(self).wf(),
            final(self)@ == old(self)@.update(grid_index(x as int, y as int), cell),
            final(self).count == old(self).count,
    {
        self.cells.set(y * 64 + x, cell);
    }

    /// Write a foreground cell at `(x, y)`.
    pub fn write(
        &mut self,
        x: usize,
        y: usize,
        custom_glyph: bool,
        glyph0: char,
        glyph1: Option<char>,
        color: (u8, u8, u8),
    )
        requires
            old(self).wf(),
            x < GRID_SIDE,
            y < GRID_SIDE,
        ensures
            final(self).wf(),
            final(self)@ == old(self)@.update(
                grid_index(x as int, y as int),
                Cell::Foreground { custom_glyph, glyph0, glyph1, color },
            ),
            final(self).count == old(self).count,
    {
        self.set_cell(x, y, Cell::Foreground { custom_glyph, glyph0, glyph1, color });
    }

    /// Read the cell at `(x, y)`.
    pub fn get(&self, x: usize, y: usize) -> (c: Cell)
        requires
            self.wf(),
            x < GRID_SIDE,
            y < GRID_SIDE,
        ensures
            c == self@[grid_index(x as int, y as int)],
    {
        *self.cells.get(y * 64 + x).unwrap()
    }

    /// Overwrite this grid with a cell-wise copy of `other`.
    pub fn copy_from(&mut self, other: &Term)
        requires
            old(self).wf(),
            other.wf(),
        ensures
            final(self).wf(),
            final(self)@ == other@,
            final(self).count == other.count,
    {
        let mut i: usize = 0;
        while i < GRID_CELLS
            invariant
                i <= GRID_CELLS,
                self.wf(),
                other.wf(),
                self@.len() == GRID_CELLS,
                forall|j: int| 0 <= j < i ==> self@[j] == other@[j],
            decreases GRID_CELLS - i,
        {
            let c = *other.cells.get(i).unwrap();
            self.cells.set(i, c);
            i = i + 1;
        }
        proof {
            assert(self@ =~= other@);
        }
        self.count = other.count;
    }
}

} // verus!
