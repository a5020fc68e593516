//! The spatial collaborator: a rectangular grid whose cells each hold the
//! list of entities currently occupying them.

use vstd::prelude::*;

use crate::components::{EntityId, Point};

verus! {

/// A rectangular world grid with a per-cell occupant index.
///
/// Cells are stored row by row: the cell at `(x, y)` lives at index
/// `y * width + x` of `tile_content`.
pub struct GameMap {
    pub width: i32,
    pub height: i32,
    pub tile_content: Vec<Vec<EntityId>>,
}

impl GameMap {
    /// The grid is non-degenerate and the occupant index covers every cell.
    pub open spec fn wf(self) -> bool {
        &&& 0 < self.width
        &&& 0 < self.height
        &&& self.width * self.height <= usize::MAX
        &&& self.tile_content@.len() == self.width * self.height
    }

    pub open spec fn spec_in_bounds(self, p: Point) -> bool {
        &&& 0 <= p.x < self.width
        &&& 0 <= p.y < self.height
    }

    /// A point strictly inside the map, touching no outer border cell.
    /// Area effects never reach border cells, which prevents out-of-bounds
    /// effect leakage.
    pub open spec fn spec_interior(self, p: Point) -> bool {
        &&& 0 < p.x < self.width - 1
        &&& 0 < p.y < self.height - 1
    }

    pub open spec fn spec_idx(self, p: Point) -> int {
        p.y * self.width + p.x
    }

    /// The entities occupying the cell at `p`.
    pub open spec fn spec_occupants(self, p: Point) -> Seq<EntityId> {
        self.tile_content@[self.spec_idx(p)]@
    }

    pub fn in_bounds(&self, p: Point) -> (r: bool)
        ensures
            r == self.spec_in_bounds(p),
    {
        0 <= p.x && p.x < self.width && 0 <= p.y && p.y < self.height
    }

    pub fn interior(&self, p: Point) -> (r: bool)
        requires
            self.wf(),
        ensures
            r == self.spec_interior(p),
    {
        0 < p.x && p.x < self.width - 1 && 0 < p.y && p.y < self.height - 1
    }

    /// Convert a grid position to its cell index.
    pub fn xy_idx(&self, x: i32, y: i32) -> (r: usize)
        requires
            self.wf(),
            self.spec_in_bounds(Point { x, y }),
        ensures
            r == self.spec_idx(Point { x, y }),
            r < self.tile_content@.len(),
    {
        proof {
            lemma_grid_index(x as int, y as int, self.width as int, self.height as int);
        }
        (y as usize) * (self.width as usize) + (x as usize)
    }
}

/// A cell index computed from in-bounds coordinates stays within the grid.
pub proof fn lemma_grid_index(x: int, y: int, w: int, h: int)
    by (nonlinear_arith)
    requires
        0 <= x < w,
        0 <= y < h,
    ensures
        0 <= y * w + x < w * h,
{
}

} // verus!
