//! The grid: one alive flag for each coordinate of a fixed rectangle.

use crate::board::{all_dead, populated, rectangular};
use crate::error::SetupError;
use vstd::prelude::*;

verus! {

/// A rectangle of cells, each alive or dead. Its size is fixed when it is
/// made; cells are never added or removed.
#[derive(Debug)]
pub struct Grid {
    cells: Vec<Vec<bool>>,
}

impl View for Grid {
    type V = Seq<Seq<bool>>;

    /// The board: `self@[x][y]` is the alive flag of the cell at `(x, y)`.
    closed spec fn view(&self) -> Seq<Seq<bool>> {
        self.cells.deep_view()
    }
}

impl Grid {
    /// The grid holds a rectangle with at least one cell.
    pub open spec fn wf(&self) -> bool {
        populated(self@)
    }

    /// A grid of `width` by `height` cells, all of them dead. A grid with no
    /// cells is refused.
    pub fn new(width: usize, height: usize) -> (made: Result<Grid, SetupError>)
        ensures
            made is Ok <==> width > 0 && height > 0,
            made matches Ok(grid) ==> {
                &&& grid.wf()
                &&& rectangular(grid@, width as nat, height as nat)
                &&& all_dead(grid@)
            },
            made matches Err(error) ==> error == SetupError::InvalidConfiguration,
    {
        if width == 0 || height == 0 {
            return Err(SetupError::InvalidConfiguration);
        }
        let mut cells: Vec<Vec<bool>> = Vec::new();
        let mut x: usize = 0;
        while x < width
            invariant
                x <= width,
                cells.len() == x,
                forall|a: int| 0 <= a < x ==> cells[a]@ == Seq::new(height as nat, |c: int| false),
            decreases width - x,
        {
            cells.push(vec![false; height]);
            x = x + 1;
        }
        let grid = Grid { cells };
        assert(grid@ =~~= Seq::new(width as nat, |a: int| Seq::new(height as nat, |c: int| false)));
        Ok(grid)
    }

    /// The number of columns.
    pub fn width(&self) -> (width: usize)
        requires
            self.wf(),
        ensures
            width == self@.len(),
            width > 0,
    {
        self.cells.len()
    }

    /// The number of cells in each column.
    pub fn height(&self) -> (height: usize)
        requires
            self.wf(),
        ensures
            height == self@[0].len(),
            height > 0,
    {
        self.cells[0].len()
    }

    /// Whether the cell at `(x, y)` is alive.
    pub fn get(&self, x: usize, y: usize) -> (alive: bool)
        requires
            self.wf(),
            x < self@.len(),
            y < self@[0].len(),
        ensures
            alive == self@[x as int][y as int],
    {
        assert(self@[x as int] == self.cells[x as int]@);
        self.cells[x][y]
    }

    /// Makes the cell at `(x, y)` alive or dead, and changes no other cell.
    pub fn set(&mut self, x: usize, y: usize, alive: bool)
        requires
            old(self).wf(),
            x < old(self)@.len(),
            y < old(self)@[0].len(),
        ensures
            final(self).wf(),
            final(self)@ == old(self)@.update(
                x as int,
                old(self)@[x as int].update(y as int, alive),
            ),
    {
        assert(self@[x as int] == self.cells[x as int]@);
        self.cells[x][y] = alive;
        assert(self@ =~~= old(self)@.update(
            x as int,
            old(self)@[x as int].update(y as int, alive),
        ));
    }
}

} // verus!
