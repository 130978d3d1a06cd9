use crate::mv::abs_int;
use crate::plane::{Plane, PlaneRegion};
use vstd::arithmetic::power2::pow2;
use vstd::prelude::*;

verus! {

/// Sum of absolute sample differences over one row of `w` samples.
pub open spec fn row_sad(a: Plane, ax: int, ay: int, b: Plane, bx: int, by: int, w: nat) -> int
    decreases w,
{
    if w == 0 {
        0
    } else {
        row_sad(a, ax, ay, b, bx, by, (w - 1) as nat) + abs_int(
            a.sample(ax + w - 1, ay) - b.sample(bx + w - 1, by),
        )
    }
}

/// Sum of absolute sample differences over a `w x h` block taken at
/// `(ax, ay)` of plane `a` and `(bx, by)` of plane `b`.
pub open spec fn sad_spec(
    a: Plane,
    ax: int,
    ay: int,
    b: Plane,
    bx: int,
    by: int,
    w: nat,
    h: nat,
) -> int
    decreases h,
{
    if h == 0 {
        0
    } else {
        sad_spec(a, ax, ay, b, bx, by, w, (h - 1) as nat) + row_sad(
            a,
            ax,
            ay + h - 1,
            b,
            bx,
            by + h - 1,
            w,
        )
    }
}

/// A row's distortion is non-negative and at most `0xFFFF` per sample.
pub proof fn lemma_row_sad_range(a: Plane, ax: int, ay: int, b: Plane, bx: int, by: int, w: nat)
    ensures
        0 <= row_sad(a, ax, ay, b, bx, by, w) <= 0xFFFF * w,
    decreases w,
{
    if w > 0 {
        lemma_row_sad_range(a, ax, ay, b, bx, by, (w - 1) as nat);
    }
}

/// A block's distortion is non-negative and at most `0xFFFF` per sample.
pub proof fn lemma_sad_range(
    a: Plane,
    ax: int,
    ay: int,
    b: Plane,
    bx: int,
    by: int,
    w: nat,
    h: nat,
)
    ensures
        0 <= sad_spec(a, ax, ay, b, bx, by, w, h) <= 0xFFFF * w * h,
    decreases h,
{
    if h == 0 {
        assert(0xFFFF * w * h == 0) by (nonlinear_arith)
            requires
                h == 0,
        ;
    } else {
        lemma_sad_range(a, ax, ay, b, bx, by, w, (h - 1) as nat);
        lemma_row_sad_range(a, ax, ay + h - 1, b, bx, by + h - 1, w);
        assert(0xFFFF * w * ((h - 1) as nat) + 0xFFFF * w == 0xFFFF * w * h
            && 0xFFFF * w * ((h - 1) as nat) >= 0) by (nonlinear_arith)
            requires
                h >= 1,
        ;
    }
}

proof fn lemma_row_sad_depth_bound(
    a: Plane,
    ax: int,
    ay: int,
    b: Plane,
    bx: int,
    by: int,
    w: nat,
    max: int,
)
    requires
        forall|c: int| 0 <= c < w ==> #[trigger] a.sample(ax + c, ay) <= max,
        forall|c: int| 0 <= c < w ==> #[trigger] b.sample(bx + c, by) <= max,
        max >= 0,
    ensures
        row_sad(a, ax, ay, b, bx, by, w) <= max * w,
    decreases w,
{
    if w > 0 {
        lemma_row_sad_depth_bound(a, ax, ay, b, bx, by, (w - 1) as nat, max);
        assert(a.sample(ax + w - 1, ay) <= max);
        assert(b.sample(bx + w - 1, by) <= max);
        assert(max * ((w - 1) as nat) + max == max * w) by (nonlinear_arith)
            requires
                w >= 1,
        ;
    } else {
        assert(max * w == 0) by (nonlinear_arith)
            requires
                w == 0,
        ;
    }
}

/// Distortion bound from the sample depth: when every sample of both
/// blocks is below `2^bit_depth`, the block's distortion is at most
/// `(2^bit_depth - 1) * w * h`.  The premise takes the place a narrower
/// element type would hold: planes store 16-bit samples whatever the
/// coded depth, so staying below the depth is a property of the content.
pub proof fn lemma_sad_depth_bound(
    a: Plane,
    ax: int,
    ay: int,
    b: Plane,
    bx: int,
    by: int,
    w: nat,
    h: nat,
    bit_depth: nat,
)
    requires
        forall|c: int, r: int|
            0 <= c < w && 0 <= r < h ==> #[trigger] a.sample(ax + c, ay + r) < pow2(bit_depth),
        forall|c: int, r: int|
            0 <= c < w && 0 <= r < h ==> #[trigger] b.sample(bx + c, by + r) < pow2(bit_depth),
    ensures
        0 <= sad_spec(a, ax, ay, b, bx, by, w, h) <= (pow2(bit_depth) - 1) * w * h,
    decreases h,
{
    lemma_sad_range(a, ax, ay, b, bx, by, w, h);
    let max = pow2(bit_depth) - 1;
    vstd::arithmetic::power2::lemma_pow2_pos(bit_depth);
    if h == 0 {
        assert(max * w * h == 0) by (nonlinear_arith)
            requires
                h == 0,
        ;
    } else {
        lemma_sad_depth_bound(a, ax, ay, b, bx, by, w, (h - 1) as nat, bit_depth);
        assert(forall|c: int| 0 <= c < w ==> #[trigger] a.sample(ax + c, ay + h - 1) <= max);
        assert(forall|c: int| 0 <= c < w ==> #[trigger] b.sample(bx + c, by + h - 1) <= max);
        lemma_row_sad_depth_bound(a, ax, ay + h - 1, b, bx, by + h - 1, w, max);
        assert(max * w * ((h - 1) as nat) + max * w == max * w * h) by (nonlinear_arith)
            requires
                h >= 1,
        ;
    }
}

/// Distortion does not depend on the order of the two blocks.
pub proof fn lemma_sad_symmetry(
    a: Plane,
    ax: int,
    ay: int,
    b: Plane,
    bx: int,
    by: int,
    w: nat,
    h: nat,
)
    ensures
        sad_spec(a, ax, ay, b, bx, by, w, h) == sad_spec(b, bx, by, a, ax, ay, w, h),
    decreases h,
{
    if h > 0 {
        lemma_sad_symmetry(a, ax, ay, b, bx, by, w, (h - 1) as nat);
        lemma_row_sad_symmetry(a, ax, ay + h - 1, b, bx, by + h - 1, w);
    }
}

proof fn lemma_row_sad_symmetry(a: Plane, ax: int, ay: int, b: Plane, bx: int, by: int, w: nat)
    ensures
        row_sad(a, ax, ay, b, bx, by, w) == row_sad(b, bx, by, a, ax, ay, w),
    decreases w,
{
    if w > 0 {
        lemma_row_sad_symmetry(a, ax, ay, b, bx, by, (w - 1) as nat);
    }
}

/// Sum of absolute differences between the `blk_w x blk_h` blocks at the
/// two regions.  `bit_depth` does not change the value; it is part of the
/// kernel interface because dispatch over vectorized variants keys on it,
/// and this scalar reference is the variant every dispatch must match.
pub fn get_sad(
    plane_org: &PlaneRegion<'_>,
    plane_ref: &PlaneRegion<'_>,
    blk_w: usize,
    blk_h: usize,
    _bit_depth: usize,
) -> (sad: u32)
    requires
        plane_org.plane.wf(),
        plane_ref.plane.wf(),
        blk_w <= 128,
        blk_h <= 128,
        plane_org.block_in_bounds(blk_w as int, blk_h as int),
        plane_ref.block_in_bounds(blk_w as int, blk_h as int),
    ensures
        sad as int == sad_spec(
            *plane_org.plane,
            plane_org.x as int,
            plane_org.y as int,
            *plane_ref.plane,
            plane_ref.x as int,
            plane_ref.y as int,
            blk_w as nat,
            blk_h as nat,
        ),
{
    let a = plane_org.plane;
    let b = plane_ref.plane;
    let ghost ga = *a;
    let ghost gb = *b;
    let ghost ax = plane_org.x as int;
    let ghost ay = plane_org.y as int;
    let ghost bx = plane_ref.x as int;
    let ghost by = plane_ref.y as int;
    let mut sum: u32 = 0;
    let mut r: usize = 0;
    while r < blk_h
        invariant
            r <= blk_h,
            blk_w <= 128,
            blk_h <= 128,
            a.wf(),
            b.wf(),
            ga == *a,
            gb == *b,
            ax == plane_org.x as int,
            ay == plane_org.y as int,
            bx == plane_ref.x as int,
            by == plane_ref.y as int,
            ga.slot_in_bounds(ax, ay, blk_w as int, blk_h as int),
            gb.slot_in_bounds(bx, by, blk_w as int, blk_h as int),
            sum as int == sad_spec(ga, ax, ay, gb, bx, by, blk_w as nat, r as nat),
        decreases blk_h - r,
    {
        let mut c: usize = 0;
        let mut row_acc: u32 = 0;
        while c < blk_w
            invariant
                c <= blk_w,
                blk_w <= 128,
                r < blk_h,
                a.wf(),
                b.wf(),
                ga == *a,
                gb == *b,
                ax == plane_org.x as int,
                ay == plane_org.y as int,
                bx == plane_ref.x as int,
                by == plane_ref.y as int,
                ga.slot_in_bounds(ax, ay, blk_w as int, blk_h as int),
                gb.slot_in_bounds(bx, by, blk_w as int, blk_h as int),
                row_acc as int == row_sad(ga, ax, ay + r, gb, bx, by + r, c as nat),
            decreases blk_w - c,
        {
            proof {
                lemma_row_sad_range(ga, ax, ay + r, gb, bx, by + r, c as nat);
            }
            let av: u16 = a.sample_at(plane_org.x + (c as i64), plane_org.y + (r as i64));
            let bv: u16 = b.sample_at(plane_ref.x + (c as i64), plane_ref.y + (r as i64));
            let d: i32 = (av as i32) - (bv as i32);
            let ad: u32 = if d >= 0 {
                d as u32
            } else {
                (-d) as u32
            };
            assert(ad as int == abs_int(ga.sample(ax + c, ay + r) - gb.sample(bx + c, by + r)));
            row_acc = row_acc + ad;
            c = c + 1;
        }
        proof {
            lemma_sad_range(ga, ax, ay, gb, bx, by, blk_w as nat, r as nat);
            lemma_row_sad_range(ga, ax, ay + r, gb, bx, by + r, blk_w as nat);
            assert(0xFFFF * (blk_w as nat) * (r as nat) + 0xFFFF * (blk_w as nat)
                <= 0xFFFF * 128 * 128) by (nonlinear_arith)
                requires
                    blk_w <= 128,
                    r < 128,
            ;
        }
        sum = sum + row_acc;
        r = r + 1;
    }
    sum
}

} // verus!
