use vstd::prelude::*;

verus! {

/// Side of the minimum inter-prediction block, in pixels.
pub const MI_SIZE: usize = 4;

/// A block position in units of 4x4 minimum-inter blocks.
#[derive(Clone, Copy, Debug, PartialEq, Eq, Structural)]
pub struct BlockOffset {
    pub x: usize,
    pub y: usize,
}

/// A position in integer pixel coordinates within a plane.
#[derive(Clone, Copy, Debug, PartialEq, Eq, Structural)]
pub struct PlaneOffset {
    pub x: i64,
    pub y: i64,
}

impl BlockOffset {
    /// Pixel position of this block inside the luma plane.
    pub fn to_luma_plane_offset(self) -> (po: PlaneOffset)
        requires
            self.x <= 0x1000_0000,
            self.y <= 0x1000_0000,
        ensures
            po.x == self.x * 4,
            po.y == self.y * 4,
    {
        PlaneOffset { x: (self.x as i64) * 4, y: (self.y as i64) * 4 }
    }
}

/// The fixed set of supported prediction block sizes.
#[allow(non_camel_case_types)]
#[derive(Clone, Copy, Debug, PartialEq, Eq, Structural)]
pub enum BlockSize {
    BLOCK_4X4,
    BLOCK_4X8,
    BLOCK_8X4,
    BLOCK_8X8,
    BLOCK_8X16,
    BLOCK_16X8,
    BLOCK_16X16,
    BLOCK_16X32,
    BLOCK_32X16,
    BLOCK_32X32,
    BLOCK_32X64,
    BLOCK_64X32,
    BLOCK_64X64,
    BLOCK_64X128,
    BLOCK_128X64,
    BLOCK_128X128,
    BLOCK_4X16,
    BLOCK_16X4,
    BLOCK_8X32,
    BLOCK_32X8,
    BLOCK_16X64,
    BLOCK_64X16,
}

impl BlockSize {
    /// Block width in pixels.
    pub open spec fn width_spec(self) -> usize {
        match self {
            BlockSize::BLOCK_4X4 => 4,
            BlockSize::BLOCK_4X8 => 4,
            BlockSize::BLOCK_8X4 => 8,
            BlockSize::BLOCK_8X8 => 8,
            BlockSize::BLOCK_8X16 => 8,
            BlockSize::BLOCK_16X8 => 16,
            BlockSize::BLOCK_16X16 => 16,
            BlockSize::BLOCK_16X32 => 16,
            BlockSize::BLOCK_32X16 => 32,
            BlockSize::BLOCK_32X32 => 32,
            BlockSize::BLOCK_32X64 => 32,
            BlockSize::BLOCK_64X32 => 64,
            BlockSize::BLOCK_64X64 => 64,
            BlockSize::BLOCK_64X128 => 64,
            BlockSize::BLOCK_128X64 => 128,
            BlockSize::BLOCK_128X128 => 128,
            BlockSize::BLOCK_4X16 => 4,
            BlockSize::BLOCK_16X4 => 16,
            BlockSize::BLOCK_8X32 => 8,
            BlockSize::BLOCK_32X8 => 32,
            BlockSize::BLOCK_16X64 => 16,
            BlockSize::BLOCK_64X16 => 64,
        }
    }

    /// Block height in pixels.
    pub open spec fn height_spec(self) -> usize {
        match self {
            BlockSize::BLOCK_4X4 => 4,
            BlockSize::BLOCK_4X8 => 8,
            BlockSize::BLOCK_8X4 => 4,
            BlockSize::BLOCK_8X8 => 8,
            BlockSize::BLOCK_8X16 => 16,
            BlockSize::BLOCK_16X8 => 8,
            BlockSize::BLOCK_16X16 => 16,
            BlockSize::BLOCK_16X32 => 32,
            BlockSize::BLOCK_32X16 => 16,
            BlockSize::BLOCK_32X32 => 32,
            BlockSize::BLOCK_32X64 => 64,
            BlockSize::BLOCK_64X32 => 32,
            BlockSize::BLOCK_64X64 => 64,
            BlockSize::BLOCK_64X128 => 128,
            BlockSize::BLOCK_128X64 => 64,
            BlockSize::BLOCK_128X128 => 128,
            BlockSize::BLOCK_4X16 => 16,
            BlockSize::BLOCK_16X4 => 4,
            BlockSize::BLOCK_8X32 => 32,
            BlockSize::BLOCK_32X8 => 8,
            BlockSize::BLOCK_16X64 => 64,
            BlockSize::BLOCK_64X16 => 16,
        }
    }

    /// Block width in pixels: a multiple of 4 between 4 and 128.
    #[verifier::when_used_as_spec(width_spec)]
    pub fn width(self) -> (w: usize)
        ensures
            w == self.width_spec(),
            4 <= w <= 128,
            w % 4 == 0,
    {
        match self {
            BlockSize::BLOCK_4X4 => 4,
            BlockSize::BLOCK_4X8 => 4,
            BlockSize::BLOCK_8X4 => 8,
            BlockSize::BLOCK_8X8 => 8,
            BlockSize::BLOCK_8X16 => 8,
            BlockSize::BLOCK_16X8 => 16,
            BlockSize::BLOCK_16X16 => 16,
            BlockSize::BLOCK_16X32 => 16,
            BlockSize::BLOCK_32X16 => 32,
            BlockSize::BLOCK_32X32 => 32,
            BlockSize::BLOCK_32X64 => 32,
            BlockSize::BLOCK_64X32 => 64,
            BlockSize::BLOCK_64X64 => 64,
            BlockSize::BLOCK_64X128 => 64,
            BlockSize::BLOCK_128X64 => 128,
            BlockSize::BLOCK_128X128 => 128,
            BlockSize::BLOCK_4X16 => 4,
            BlockSize::BLOCK_16X4 => 16,
            BlockSize::BLOCK_8X32 => 8,
            BlockSize::BLOCK_32X8 => 32,
            BlockSize::BLOCK_16X64 => 16,
            BlockSize::BLOCK_64X16 => 64,
        }
    }

    /// Block height in pixels: a multiple of 4 between 4 and 128.
    #[verifier::when_used_as_spec(height_spec)]
    pub fn height(self) -> (h: usize)
        ensures
            h == self.height_spec(),
            4 <= h <= 128,
            h % 4 == 0,
    {
        match self {
            BlockSize::BLOCK_4X4 => 4,
            BlockSize::BLOCK_4X8 => 8,
            BlockSize::BLOCK_8X4 => 4,
            BlockSize::BLOCK_8X8 => 8,
            BlockSize::BLOCK_8X16 => 16,
            BlockSize::BLOCK_16X8 => 8,
            BlockSize::BLOCK_16X16 => 16,
            BlockSize::BLOCK_16X32 => 32,
            BlockSize::BLOCK_32X16 => 16,
            BlockSize::BLOCK_32X32 => 32,
            BlockSize::BLOCK_32X64 => 64,
            BlockSize::BLOCK_64X32 => 32,
            BlockSize::BLOCK_64X64 => 64,
            BlockSize::BLOCK_64X128 => 128,
            BlockSize::BLOCK_128X64 => 64,
            BlockSize::BLOCK_128X128 => 128,
            BlockSize::BLOCK_4X16 => 16,
            BlockSize::BLOCK_16X4 => 4,
            BlockSize::BLOCK_8X32 => 32,
            BlockSize::BLOCK_32X8 => 8,
            BlockSize::BLOCK_16X64 => 64,
            BlockSize::BLOCK_64X16 => 16,
        }
    }
}

/// Which reference a search runs against.
#[allow(non_camel_case_types)]
#[derive(Clone, Copy, Debug, PartialEq, Eq, Structural)]
pub enum RefType {
    INTRA_FRAME,
    LAST_FRAME,
    LAST2_FRAME,
    LAST3_FRAME,
    GOLDEN_FRAME,
    BWDREF_FRAME,
    ALTREF2_FRAME,
    ALTREF_FRAME,
    NONE_FRAME,
}

impl RefType {
    /// True of the seven forward/backward inter references.
    pub open spec fn is_inter(self) -> bool {
        self != RefType::INTRA_FRAME && self != RefType::NONE_FRAME
    }

    pub open spec fn index_spec(self) -> usize {
        match self {
            RefType::INTRA_FRAME => 0,
            RefType::LAST_FRAME => 0,
            RefType::LAST2_FRAME => 1,
            RefType::LAST3_FRAME => 2,
            RefType::GOLDEN_FRAME => 3,
            RefType::BWDREF_FRAME => 4,
            RefType::ALTREF2_FRAME => 5,
            RefType::ALTREF_FRAME => 6,
            RefType::NONE_FRAME => 0,
        }
    }

    /// Position of an inter reference in the reference-slot mapping.
    pub fn to_index(self) -> (i: usize)
        requires
            self.is_inter(),
        ensures
            i == self.index_spec(),
            i < 7,
    {
        match self {
            RefType::INTRA_FRAME => 0,
            RefType::LAST_FRAME => 0,
            RefType::LAST2_FRAME => 1,
            RefType::LAST3_FRAME => 2,
            RefType::GOLDEN_FRAME => 3,
            RefType::BWDREF_FRAME => 4,
            RefType::ALTREF2_FRAME => 5,
            RefType::ALTREF_FRAME => 6,
            RefType::NONE_FRAME => 0,
        }
    }
}

} // verus!
