use crate::mv::abs_int;
use vstd::prelude::*;

verus! {

/// Clamp `v` into `[lo, hi]`.
pub open spec fn clamp_int(v: int, lo: int, hi: int) -> int
    recommends
        lo <= hi,
{
    if v < lo {
        lo
    } else if v > hi {
        hi
    } else {
        v
    }
}

/// A two-dimensional index into a row-major grid stays inside the storage.
pub proof fn lemma_grid_index(ay: int, ax: int, stride: int, rows: int)
    requires
        0 <= ay < rows,
        0 <= ax < stride,
    ensures
        0 <= ay * stride + ax < rows * stride,
{
    assert(0 <= ay * stride + ax < rows * stride) by (nonlinear_arith)
        requires
            0 <= ay < rows,
            0 <= ax < stride,
    ;
}

/// Geometry of a plane's sample storage.  The visible `width x height`
/// area sits at `(xorigin, yorigin)` inside a padded allocation of
/// `stride` samples per row and `alloc_height` rows.
#[derive(Clone, Copy, Debug, PartialEq, Eq, Structural)]
pub struct PlaneConfig {
    pub width: usize,
    pub height: usize,
    pub xpad: usize,
    pub ypad: usize,
    pub xorigin: usize,
    pub yorigin: usize,
    pub stride: usize,
    pub alloc_height: usize,
}

/// A rectangular array of luma samples.  Samples are stored as 16-bit
/// values; 8-bit content simply stays below 256.
#[derive(Clone, Debug)]
pub struct Plane {
    pub data: Vec<u16>,
    pub cfg: PlaneConfig,
}

impl Plane {
    /// Well-formed storage: the padded allocation is fully backed and the
    /// visible area lies inside it.  Sizes are kept below 2^15 so that all
    /// index arithmetic stays comfortably inside machine integers.
    pub open spec fn wf(self) -> bool {
        &&& 1 <= self.cfg.stride <= 0x8000
        &&& 1 <= self.cfg.alloc_height <= 0x8000
        &&& self.cfg.xorigin + self.cfg.width <= self.cfg.stride
        &&& self.cfg.yorigin + self.cfg.height <= self.cfg.alloc_height
        &&& self.data.len() == self.cfg.stride * self.cfg.alloc_height
    }

    /// The sample at `(x, y)` in coordinates relative to the origin.
    pub open spec fn sample(self, x: int, y: int) -> u16 {
        self.data@[(self.cfg.yorigin + y) * self.cfg.stride + self.cfg.xorigin + x]
    }

    /// The sample at `(x, y)`, with the position clamped to the padded
    /// allocation, as motion-compensated prediction reads it.
    pub open spec fn sample_clamped(self, x: int, y: int) -> u16 {
        let ax = clamp_int(self.cfg.xorigin + x, 0, self.cfg.stride - 1);
        let ay = clamp_int(self.cfg.yorigin + y, 0, self.cfg.alloc_height - 1);
        self.data@[ay * self.cfg.stride + ax]
    }

    /// The `w x h` rectangle at `(x, y)` lies inside the padded allocation.
    pub open spec fn slot_in_bounds(self, x: int, y: int, w: int, h: int) -> bool {
        &&& 0 <= self.cfg.xorigin + x
        &&& self.cfg.xorigin + x + w <= self.cfg.stride
        &&& 0 <= self.cfg.yorigin + y
        &&& self.cfg.yorigin + y + h <= self.cfg.alloc_height
    }

    /// Allocate a zeroed plane of `width x height` visible samples with
    /// `xpad` columns and `ypad` rows of padding on each side.
    pub fn new(width: usize, height: usize, xpad: usize, ypad: usize) -> (p: Plane)
        requires
            1 <= width,
            1 <= height,
            width + 2 * xpad <= 0x8000,
            height + 2 * ypad <= 0x8000,
        ensures
            p.wf(),
            p.cfg == (PlaneConfig {
                width,
                height,
                xpad,
                ypad,
                xorigin: xpad,
                yorigin: ypad,
                stride: (width + 2 * xpad) as usize,
                alloc_height: (height + 2 * ypad) as usize,
            }),
            forall|i: int| 0 <= i < p.data.len() ==> p.data@[i] == 0,
    {
        let stride: usize = width + 2 * xpad;
        let alloc_height: usize = height + 2 * ypad;
        proof {
            assert(stride * alloc_height <= 0x8000 * 0x8000) by (nonlinear_arith)
                requires
                    stride <= 0x8000,
                    alloc_height <= 0x8000,
            ;
        }
        let n: usize = stride * alloc_height;
        let mut data: Vec<u16> = Vec::new();
        while data.len() < n
            invariant
                data.len() <= n,
                forall|i: int| 0 <= i < data.len() ==> data@[i] == 0,
            decreases n - data.len(),
        {
            data.push(0);
        }
        Plane {
            data,
            cfg: PlaneConfig {
                width,
                height,
                xpad,
                ypad,
                xorigin: xpad,
                yorigin: ypad,
                stride,
                alloc_height,
            },
        }
    }

    /// Write one sample at absolute storage coordinates (padding included).
    pub fn set_abs(&mut self, ax: usize, ay: usize, v: u16)
        requires
            old(self).wf(),
            ax < old(self).cfg.stride,
            ay < old(self).cfg.alloc_height,
        ensures
            final(self).wf(),
            final(self).cfg == old(self).cfg,
            final(self).data@ == old(self).data@.update(
                (ay * old(self).cfg.stride + ax) as int,
                v,
            ),
    {
        proof {
            lemma_grid_index(ay as int, ax as int, self.cfg.stride as int,
                self.cfg.alloc_height as int);
        }
        let idx: usize = ay * self.cfg.stride + ax;
        self.data.set(idx, v);
    }

    /// Read one sample at absolute storage coordinates (padding included).
    pub fn get_abs(&self, ax: usize, ay: usize) -> (v: u16)
        requires
            self.wf(),
            ax < self.cfg.stride,
            ay < self.cfg.alloc_height,
        ensures
            v == self.data@[(ay * self.cfg.stride + ax) as int],
    {
        proof {
            lemma_grid_index(ay as int, ax as int, self.cfg.stride as int,
                self.cfg.alloc_height as int);
        }
        let idx: usize = ay * self.cfg.stride + ax;
        self.data[idx]
    }

    /// Read the sample at `(x, y)` relative to the origin.
    pub fn sample_at(&self, x: i64, y: i64) -> (v: u16)
        requires
            self.wf(),
            self.slot_in_bounds(x as int, y as int, 1, 1),
        ensures
            v == self.sample(x as int, y as int),
    {
        let ax: usize = ((self.cfg.xorigin as i64) + x) as usize;
        let ay: usize = ((self.cfg.yorigin as i64) + y) as usize;
        self.get_abs(ax, ay)
    }

    /// Decide whether the `w x h` rectangle at `(x, y)` lies inside the
    /// padded allocation.
    pub fn check_slot(&self, x: i64, y: i64, w: usize, h: usize) -> (b: bool)
        requires
            self.wf(),
            -0x7FFF_FFFF <= x <= 0x7FFF_FFFF,
            -0x7FFF_FFFF <= y <= 0x7FFF_FFFF,
            w <= 0x8000,
            h <= 0x8000,
        ensures
            b == self.slot_in_bounds(x as int, y as int, w as int, h as int),
    {
        let xo: i64 = self.cfg.xorigin as i64;
        let yo: i64 = self.cfg.yorigin as i64;
        0 <= xo + x && xo + x + (w as i64) <= self.cfg.stride as i64 && 0 <= yo + y && yo + y + (
        h as i64) <= self.cfg.alloc_height as i64
    }

    /// Read the sample at `(x, y)` relative to the origin, clamping the
    /// position to the padded allocation.
    pub fn sample_clamped_at(&self, x: i64, y: i64) -> (v: u16)
        requires
            self.wf(),
            -0x1_0000_0000 <= x <= 0x1_0000_0000,
            -0x1_0000_0000 <= y <= 0x1_0000_0000,
        ensures
            v == self.sample_clamped(x as int, y as int),
    {
        let mut ax: i64 = (self.cfg.xorigin as i64) + x;
        let mut ay: i64 = (self.cfg.yorigin as i64) + y;
        if ax < 0 {
            ax = 0;
        }
        if ax > (self.cfg.stride as i64) - 1 {
            ax = (self.cfg.stride as i64) - 1;
        }
        if ay < 0 {
            ay = 0;
        }
        if ay > (self.cfg.alloc_height as i64) - 1 {
            ay = (self.cfg.alloc_height as i64) - 1;
        }
        self.get_abs(ax as usize, ay as usize)
    }
}

/// A view of a plane starting at `(x, y)` relative to the plane's origin.
pub struct PlaneRegion<'a> {
    pub plane: &'a Plane,
    pub x: i64,
    pub y: i64,
}

impl Plane {
    /// The region of this plane starting at `(x, y)`.
    pub fn region(&self, x: i64, y: i64) -> (r: PlaneRegion<'_>)
        ensures
            r.plane == self,
            r.x == x,
            r.y == y,
    {
        PlaneRegion { plane: self, x, y }
    }
}

impl<'a> PlaneRegion<'a> {
    /// The `w x h` block at this region's start lies inside the padded
    /// allocation.
    pub open spec fn block_in_bounds(self, w: int, h: int) -> bool {
        self.plane.slot_in_bounds(self.x as int, self.y as int, w, h)
    }
}

/// Samples differ by at most the largest 16-bit value.
pub proof fn lemma_sample_diff_bound(a: u16, b: u16)
    ensures
        0 <= abs_int(a - b) <= 0xFFFF,
{
}

} // verus!
