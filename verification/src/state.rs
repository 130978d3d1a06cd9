use crate::grid::{Frame, FrameMotionVectors, ReferenceFrame};
use crate::plane::Plane;
use crate::types::BlockOffset;
use vstd::prelude::*;

verus! {

/// Sequence-level coding parameters the estimator reads.
#[derive(Debug, Clone)]
pub struct Sequence {
    /// Sample depth of the coded video: 8, 10 or 12 bits.
    pub bit_depth: usize,
}

/// The pool of reconstructed frames that searches may reference.
#[derive(Debug, Clone)]
pub struct ReferenceFramesSet {
    pub frames: Vec<Option<ReferenceFrame>>,
}

impl ReferenceFramesSet {
    pub open spec fn wf(self) -> bool {
        forall|i: int|
            0 <= i < self.frames.len() ==> match #[trigger] self.frames@[i] {
                Option::Some(r) => r.wf(),
                Option::None => true,
            }
    }
}

/// Frame-constant parameters consumed by the estimator.
#[derive(Debug, Clone)]
pub struct FrameInvariants {
    pub sequence: Sequence,
    pub rec_buffer: ReferenceFramesSet,
    /// Mapping from an inter reference's index to a slot of `rec_buffer`.
    pub ref_frames: Vec<usize>,
    /// Frame width in 4x4 minimum-inter blocks.
    pub w_in_b: usize,
    /// Frame height in 4x4 minimum-inter blocks.
    pub h_in_b: usize,
    /// The Lagrange multiplier of motion search, in fixed point with
    /// eight fractional bits (so 256 is a multiplier of one).
    pub me_lambda_q8: u32,
    /// Widens the coarse quarter-resolution search window.
    pub me_range_scale: usize,
    /// Whether eighth-pel motion vectors may be coded.
    pub allow_high_precision_mv: bool,
}

impl FrameInvariants {
    pub open spec fn wf(self) -> bool {
        &&& self.rec_buffer.wf()
        &&& self.ref_frames.len() == 7
        &&& forall|i: int|
            0 <= i < 7 ==> #[trigger] self.ref_frames@[i] < self.rec_buffer.frames.len()
        &&& 1 <= self.sequence.bit_depth <= 16
        &&& self.w_in_b <= 0x2000
        &&& self.h_in_b <= 0x2000
        &&& self.me_range_scale <= 16
    }
}

/// Per-tile encoding state: the tile's position and size in the frame,
/// the input planes, and the motion-vector grids being filled for the
/// current frame, one per reference.
#[derive(Debug, Clone)]
pub struct TileState {
    pub input: Frame,
    pub input_hres: Plane,
    pub input_qres: Plane,
    pub mvs: Vec<FrameMotionVectors>,
    /// Tile origin within the frame, in 4x4 blocks.
    pub mi_x: usize,
    pub mi_y: usize,
    /// Tile size, in 4x4 blocks.
    pub mi_width: usize,
    pub mi_height: usize,
}

impl TileState {
    pub open spec fn wf(self) -> bool {
        &&& self.input.wf()
        &&& self.input_hres.wf()
        &&& self.input_qres.wf()
        &&& self.mi_x + self.mi_width <= 0x2000
        &&& self.mi_y + self.mi_height <= 0x2000
        &&& 1 <= self.mi_width
        &&& 1 <= self.mi_height
        &&& forall|i: int|
            0 <= i < self.mvs.len() ==> {
                &&& (#[trigger] self.mvs@[i]).wf()
                &&& self.mi_x + self.mi_width <= self.mvs@[i].cols
                &&& self.mi_y + self.mi_height <= self.mvs@[i].rows
            }
    }

    /// Translate a tile-local block position to frame coordinates.
    pub fn to_frame_block_offset(&self, tile_bo: BlockOffset) -> (bo: BlockOffset)
        requires
            self.wf(),
            tile_bo.x <= self.mi_width,
            tile_bo.y <= self.mi_height,
        ensures
            bo.x == self.mi_x + tile_bo.x,
            bo.y == self.mi_y + tile_bo.y,
    {
        BlockOffset { x: self.mi_x + tile_bo.x, y: self.mi_y + tile_bo.y }
    }
}

} // verus!
