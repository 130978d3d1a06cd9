use crate::mv::MotionVector;
use crate::plane::{lemma_grid_index, Plane};
use vstd::prelude::*;

verus! {

/// Dense row-major grid of per-block motion vectors for one frame, in
/// units of 4x4 minimum-inter blocks.
#[derive(Debug, Clone)]
pub struct FrameMotionVectors {
    pub mvs: Vec<MotionVector>,
    pub cols: usize,
    pub rows: usize,
}

impl FrameMotionVectors {
    /// Storage holds exactly `cols * rows` vectors, row-major.
    pub open spec fn wf(self) -> bool {
        &&& self.cols <= 0x8000
        &&& self.rows <= 0x8000
        &&& self.mvs.len() == self.cols * self.rows
    }

    /// The vector of the block at column `x` of row `y`.
    pub open spec fn mv_spec(self, y: int, x: int) -> MotionVector {
        self.mvs@[y * self.cols + x]
    }

    /// A fresh grid holds the neutral vector everywhere.
    pub fn new(cols: usize, rows: usize) -> (g: Self)
        requires
            cols <= 0x8000,
            rows <= 0x8000,
        ensures
            g.wf(),
            g.cols == cols,
            g.rows == rows,
            forall|y: int, x: int|
                0 <= y < rows && 0 <= x < cols ==> #[trigger] g.mv_spec(y, x)
                    == (MotionVector { row: 0i16, col: 0i16 }),
    {
        proof {
            assert(cols * rows <= 0x8000 * 0x8000) by (nonlinear_arith)
                requires
                    cols <= 0x8000,
                    rows <= 0x8000,
            ;
        }
        let n: usize = cols * rows;
        let mut mvs: Vec<MotionVector> = Vec::new();
        while mvs.len() < n
            invariant
                mvs.len() <= n,
                forall|i: int|
                    0 <= i < mvs.len() ==> mvs@[i] == (MotionVector { row: 0i16, col: 0i16 }),
            decreases n - mvs.len(),
        {
            mvs.push(MotionVector { row: 0, col: 0 });
        }
        let g = FrameMotionVectors { mvs, cols, rows };
        proof {
            assert forall|y: int, x: int| 0 <= y < rows && 0 <= x < cols implies #[trigger] g
                .mv_spec(y, x) == (MotionVector { row: 0i16, col: 0i16 }) by {
                lemma_grid_index(y, x, cols as int, rows as int);
                assert(0 <= y * (cols as int) + x < (rows as int) * (cols as int));
                assert((rows as int) * (cols as int) == (cols as int) * (rows as int))
                    by (nonlinear_arith);
                assert(g.mvs@[y * (cols as int) + x] == (MotionVector { row: 0i16, col: 0i16 }));
            }
        }
        g
    }

    /// Read the vector of the block at `(x, y)`.
    pub fn get(&self, y: usize, x: usize) -> (mv: MotionVector)
        requires
            self.wf(),
            x < self.cols,
            y < self.rows,
        ensures
            mv == self.mv_spec(y as int, x as int),
    {
        proof {
            lemma_grid_index(y as int, x as int, self.cols as int, self.rows as int);
        }
        let idx: usize = y * self.cols + x;
        self.mvs[idx]
    }

    /// Commit the vector of the block at `(x, y)`; every other cell keeps
    /// its value.
    pub fn set(&mut self, y: usize, x: usize, mv: MotionVector)
        requires
            old(self).wf(),
            x < old(self).cols,
            y < old(self).rows,
        ensures
            final(self).wf(),
            final(self).cols == old(self).cols,
            final(self).rows == old(self).rows,
            final(self).mv_spec(y as int, x as int) == mv,
            forall|yy: int, xx: int|
                0 <= yy < old(self).rows && 0 <= xx < old(self).cols && !(yy == y && xx == x)
                    ==> #[trigger] final(self).mv_spec(yy, xx) == old(self).mv_spec(yy, xx),
    {
        proof {
            lemma_grid_index(y as int, x as int, self.cols as int, self.rows as int);
        }
        let idx: usize = y * self.cols + x;
        self.mvs.set(idx, mv);
        proof {
            assert forall|yy: int, xx: int|
                0 <= yy < self.rows && 0 <= xx < self.cols && !(yy == y && xx == x)
                    implies #[trigger] self.mv_spec(yy, xx) == old(self).mv_spec(yy, xx) by {
                lemma_grid_index(yy, xx, self.cols as int, self.rows as int);
                assert(yy * self.cols + xx != y * self.cols + x) by (nonlinear_arith)
                    requires
                        0 <= yy < self.rows,
                        0 <= xx < self.cols,
                        0 <= y < self.rows,
                        0 <= x < self.cols,
                        !(yy == y && xx == x),
                ;
            }
        }
    }

    /// A mutable view of the whole grid: the full-frame tile is the
    /// grid itself, so writes go through `set` on the returned grid.
    pub fn as_tile_motion_vectors_mut(&mut self) -> (t: &mut FrameMotionVectors)
        ensures
            *t == *old(self),
            *final(self) == *final(t),
    {
        self
    }

    /// A read-only tile view of the whole grid.
    pub fn as_tile_motion_vectors(&self) -> (t: TileMotionVectors<'_>)
        requires
            self.wf(),
        ensures
            t.frame_mvs == self,
            t.x == 0,
            t.y == 0,
            t.cols == self.cols,
            t.rows == self.rows,
            t.wf(),
    {
        TileMotionVectors::new(self, 0, 0, self.cols, self.rows)
    }
}

/// A read-only view of a rectangular tile of a frame's motion-vector
/// grid, at offset `(x, y)` in block units.
pub struct TileMotionVectors<'a> {
    pub frame_mvs: &'a FrameMotionVectors,
    pub x: usize,
    pub y: usize,
    pub cols: usize,
    pub rows: usize,
}

impl<'a> TileMotionVectors<'a> {
    /// The tile lies inside its grid.
    pub open spec fn wf(self) -> bool {
        &&& self.frame_mvs.wf()
        &&& self.x + self.cols <= self.frame_mvs.cols
        &&& self.y + self.rows <= self.frame_mvs.rows
    }

    /// The vector of the tile-local block at `(x, y)`.
    pub open spec fn mv_spec(self, y: int, x: int) -> MotionVector {
        self.frame_mvs.mv_spec(self.y + y, self.x + x)
    }

    pub fn new(
        frame_mvs: &'a FrameMotionVectors,
        x: usize,
        y: usize,
        cols: usize,
        rows: usize,
    ) -> (t: Self)
        requires
            frame_mvs.wf(),
            x + cols <= frame_mvs.cols,
            y + rows <= frame_mvs.rows,
        ensures
            t.frame_mvs == frame_mvs,
            t.x == x,
            t.y == y,
            t.cols == cols,
            t.rows == rows,
            t.wf(),
    {
        TileMotionVectors { frame_mvs, x, y, cols, rows }
    }

    /// Read the vector of the tile-local block at `(x, y)`.
    pub fn get(&self, y: usize, x: usize) -> (mv: MotionVector)
        requires
            self.wf(),
            x < self.cols,
            y < self.rows,
        ensures
            mv == self.mv_spec(y as int, x as int),
    {
        self.frame_mvs.get(self.y + y, self.x + x)
    }
}

/// The planes of one frame; index 0 is luma.
#[derive(Debug, Clone)]
pub struct Frame {
    pub planes: Vec<Plane>,
}

impl Frame {
    pub open spec fn wf(self) -> bool {
        &&& self.planes.len() >= 1
        &&& forall|i: int| 0 <= i < self.planes.len() ==> (#[trigger] self.planes@[i]).wf()
    }
}

/// A reconstructed reference frame: full-resolution planes, the half- and
/// quarter-resolution luma used by the coarse passes, and the motion
/// vectors committed when the frame itself was encoded, one grid per
/// reference slot.
#[derive(Debug, Clone)]
pub struct ReferenceFrame {
    pub frame: Frame,
    pub input_hres: Plane,
    pub input_qres: Plane,
    pub frame_mvs: Vec<FrameMotionVectors>,
}

impl ReferenceFrame {
    pub open spec fn wf(self) -> bool {
        &&& self.frame.wf()
        &&& self.input_hres.wf()
        &&& self.input_qres.wf()
        &&& forall|i: int| 0 <= i < self.frame_mvs.len() ==> (#[trigger] self.frame_mvs@[i]).wf()
    }
}

} // verus!
