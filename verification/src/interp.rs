use crate::mv::MotionVector;
use crate::plane::{lemma_grid_index, Plane};
use crate::types::PlaneOffset;
use vstd::prelude::*;

verus! {

/// Whole-pixel part of an eighth-pel coordinate (floors, as an arithmetic
/// shift right by three does).
pub open spec fn floor8(v: int) -> int {
    v / 8
}

/// Fractional eighth-pel part of a coordinate, in `[0, 8)`.
pub open spec fn frac8(v: int) -> int {
    v % 8
}

/// Bilinear blend of the four whole-pixel samples around position
/// `(x + fx/8, y + fy/8)` of `p`, with rounding; reads are clamped to the
/// plane's padded allocation.
pub open spec fn interp_sample(p: Plane, x: int, y: int, fx: int, fy: int) -> int {
    ((8 - fx) * (8 - fy) * p.sample_clamped(x, y) + fx * (8 - fy) * p.sample_clamped(x + 1, y) + (
    8 - fx) * fy * p.sample_clamped(x, y + 1) + fx * fy * p.sample_clamped(x + 1, y + 1) + 32)
        / 64
}

/// The motion-compensated sample predicted for block position `(c, r)`
/// of the block at `po`, displaced by the eighth-pel vector `mv`.
pub open spec fn pred_sample(p_ref: Plane, po: PlaneOffset, mv: MotionVector, c: int, r: int) -> int {
    interp_sample(
        p_ref,
        po.x + c + floor8(mv.col as int),
        po.y + r + floor8(mv.row as int),
        frac8(mv.col as int),
        frac8(mv.row as int),
    )
}

/// A predicted sample is itself a valid 16-bit sample.
pub proof fn lemma_pred_sample_range(p_ref: Plane, po: PlaneOffset, mv: MotionVector, c: int, r: int)
    ensures
        0 <= pred_sample(p_ref, po, mv, c, r) <= 0xFFFF,
{
    let fx = frac8(mv.col as int);
    let fy = frac8(mv.row as int);
    let x = po.x + c + floor8(mv.col as int);
    let y = po.y + r + floor8(mv.row as int);
    let s00 = p_ref.sample_clamped(x, y) as int;
    let s01 = p_ref.sample_clamped(x + 1, y) as int;
    let s10 = p_ref.sample_clamped(x, y + 1) as int;
    let s11 = p_ref.sample_clamped(x + 1, y + 1) as int;
    assert(0 <= fx < 8 && 0 <= fy < 8);
    let w00 = (8 - fx) * (8 - fy);
    let w01 = fx * (8 - fy);
    let w10 = (8 - fx) * fy;
    let w11 = fx * fy;
    lemma_weight_sum(fx, fy, w00, w01, w10, w11);
    lemma_weighted_bounds(w00, s00, w01, s01, w10, s10, w11, s11);
    let num = w00 * s00 + w01 * s01 + w10 * s10 + w11 * s11 + 32;
    assert(0 <= num <= 64 * 0xFFFF + 32);
    assert(0 <= num / 64 <= 0xFFFF);
}

proof fn lemma_weight_sum(fx: int, fy: int, w00: int, w01: int, w10: int, w11: int)
    requires
        0 <= fx < 8,
        0 <= fy < 8,
        w00 == (8 - fx) * (8 - fy),
        w01 == fx * (8 - fy),
        w10 == (8 - fx) * fy,
        w11 == fx * fy,
    ensures
        w00 + w01 + w10 + w11 == 64,
        0 <= w00 <= 64,
        0 <= w01 <= 64,
        0 <= w10 <= 64,
        0 <= w11 <= 64,
{
    assert(w00 + w01 + w10 + w11 == 64 && 0 <= w00 <= 64 && 0 <= w01 <= 64 && 0 <= w10 <= 64 && 0
        <= w11 <= 64) by (nonlinear_arith)
        requires
            0 <= fx < 8,
            0 <= fy < 8,
            w00 == (8 - fx) * (8 - fy),
            w01 == fx * (8 - fy),
            w10 == (8 - fx) * fy,
            w11 == fx * fy,
    ;
}

proof fn lemma_weighted_bounds(
    w00: int,
    s00: int,
    w01: int,
    s01: int,
    w10: int,
    s10: int,
    w11: int,
    s11: int,
)
    requires
        0 <= w00,
        0 <= w01,
        0 <= w10,
        0 <= w11,
        w00 + w01 + w10 + w11 == 64,
        0 <= s00 <= 0xFFFF,
        0 <= s01 <= 0xFFFF,
        0 <= s10 <= 0xFFFF,
        0 <= s11 <= 0xFFFF,
    ensures
        0 <= w00 * s00 + w01 * s01 + w10 * s10 + w11 * s11 <= 64 * 0xFFFF,
{
    assert(w00 * s00 <= w00 * 0xFFFF && w00 * s00 >= 0) by (nonlinear_arith)
        requires
            0 <= w00,
            0 <= s00 <= 0xFFFF,
    ;
    assert(w01 * s01 <= w01 * 0xFFFF && w01 * s01 >= 0) by (nonlinear_arith)
        requires
            0 <= w01,
            0 <= s01 <= 0xFFFF,
    ;
    assert(w10 * s10 <= w10 * 0xFFFF && w10 * s10 >= 0) by (nonlinear_arith)
        requires
            0 <= w10,
            0 <= s10 <= 0xFFFF,
    ;
    assert(w11 * s11 <= w11 * 0xFFFF && w11 * s11 >= 0) by (nonlinear_arith)
        requires
            0 <= w11,
            0 <= s11 <= 0xFFFF,
    ;
}

fn floor8_i64(v: i64) -> (f: i64)
    requires
        -0x10_0000 <= v <= 0x10_0000,
    ensures
        f as int == floor8(v as int),
        v as int - 8 * f == frac8(v as int),
{
    if v >= 0 {
        ((v as u64) / 8) as i64
    } else {
        let m: u64 = (-v) as u64;
        let q: i64 = -(((m + 7) / 8) as i64);
        assert((v as int) / 8 == -(((m as int) + 7) / 8));
        q
    }
}

fn interp_pixel(p_ref: &Plane, x: i64, y: i64, fx: u32, fy: u32) -> (v: u16)
    requires
        p_ref.wf(),
        fx < 8,
        fy < 8,
        -0x1000_0000 <= x <= 0x1000_0000,
        -0x1000_0000 <= y <= 0x1000_0000,
    ensures
        v as int == interp_sample(*p_ref, x as int, y as int, fx as int, fy as int),
{
    let s00: u32 = p_ref.sample_clamped_at(x, y) as u32;
    let s01: u32 = p_ref.sample_clamped_at(x + 1, y) as u32;
    let s10: u32 = p_ref.sample_clamped_at(x, y + 1) as u32;
    let s11: u32 = p_ref.sample_clamped_at(x + 1, y + 1) as u32;
    proof {
        assert((8 - fx) * (8 - fy) <= 64 && fx * (8 - fy) <= 64 && (8 - fx) * fy <= 64 && fx * fy
            <= 64) by (nonlinear_arith)
            requires
                fx < 8,
                fy < 8,
        ;
    }
    let w00: u32 = (8 - fx) * (8 - fy);
    let w01: u32 = fx * (8 - fy);
    let w10: u32 = (8 - fx) * fy;
    let w11: u32 = fx * fy;
    proof {
        lemma_weight_sum(fx as int, fy as int, w00 as int, w01 as int, w10 as int, w11 as int);
        lemma_weighted_bounds(
            w00 as int,
            s00 as int,
            w01 as int,
            s01 as int,
            w10 as int,
            s10 as int,
            w11 as int,
            s11 as int,
        );
        assert(w00 * s00 <= w00 * 0xFFFF) by (nonlinear_arith)
            requires
                s00 <= 0xFFFF,
        ;
        assert(w01 * s01 <= w01 * 0xFFFF) by (nonlinear_arith)
            requires
                s01 <= 0xFFFF,
        ;
        assert(w10 * s10 <= w10 * 0xFFFF) by (nonlinear_arith)
            requires
                s10 <= 0xFFFF,
        ;
        assert(w11 * s11 <= w11 * 0xFFFF) by (nonlinear_arith)
            requires
                s11 <= 0xFFFF,
        ;
    }
    let num: u32 = w00 * s00 + w01 * s01 + w10 * s10 + w11 * s11 + 32;
    let v: u32 = num / 64;
    v as u16
}

/// Synthesize into `dst` the motion-compensated reference samples for the
/// eighth-pel vector `mv`, for the `blk_w x blk_h` block at `po` of
/// `p_ref`.  Stands in for the encoder's inter-prediction call: sub-pixel
/// positions are bilinearly interpolated and reads are clamped to the
/// reference plane's padded allocation.
pub fn predict_inter(
    p_ref: &Plane,
    po: PlaneOffset,
    mv: MotionVector,
    blk_w: usize,
    blk_h: usize,
    dst: &mut Plane,
)
    requires
        p_ref.wf(),
        1 <= blk_w <= 128,
        1 <= blk_h <= 128,
        -0x10_0000 <= po.x <= 0x10_0000,
        -0x10_0000 <= po.y <= 0x10_0000,
        old(dst).wf(),
        old(dst).cfg.xorigin == 0,
        old(dst).cfg.yorigin == 0,
        old(dst).cfg.stride == blk_w,
        old(dst).cfg.alloc_height == blk_h,
    ensures
        final(dst).wf(),
        final(dst).cfg == old(dst).cfg,
        forall|c: int, r: int|
            0 <= c < blk_w && 0 <= r < blk_h ==> (#[trigger] final(dst).sample(c, r)) as int
                == pred_sample(*p_ref, po, mv, c, r),
{
    let fcol: i64 = floor8_i64(mv.col as i64);
    let frow: i64 = floor8_i64(mv.row as i64);
    let fx: u32 = ((mv.col as i64) - 8 * fcol) as u32;
    let fy: u32 = ((mv.row as i64) - 8 * frow) as u32;
    let mut r: usize = 0;
    while r < blk_h
        invariant
            r <= blk_h,
            1 <= blk_w <= 128,
            1 <= blk_h <= 128,
            p_ref.wf(),
            -0x10_0000 <= po.x <= 0x10_0000,
            -0x10_0000 <= po.y <= 0x10_0000,
            fcol as int == floor8(mv.col as int),
            frow as int == floor8(mv.row as int),
            fx as int == frac8(mv.col as int),
            fy as int == frac8(mv.row as int),
            dst.wf(),
            dst.cfg == old(dst).cfg,
            dst.cfg.xorigin == 0,
            dst.cfg.yorigin == 0,
            dst.cfg.stride == blk_w,
            dst.cfg.alloc_height == blk_h,
            forall|c2: int, r2: int|
                0 <= c2 < blk_w && 0 <= r2 < r ==> (#[trigger] dst.sample(c2, r2)) as int
                    == pred_sample(*p_ref, po, mv, c2, r2),
        decreases blk_h - r,
    {
        let mut c: usize = 0;
        while c < blk_w
            invariant
                c <= blk_w,
                r < blk_h,
                1 <= blk_w <= 128,
                1 <= blk_h <= 128,
                p_ref.wf(),
                -0x10_0000 <= po.x <= 0x10_0000,
                -0x10_0000 <= po.y <= 0x10_0000,
                fcol as int == floor8(mv.col as int),
                frow as int == floor8(mv.row as int),
                fx as int == frac8(mv.col as int),
                fy as int == frac8(mv.row as int),
                dst.wf(),
                dst.cfg == old(dst).cfg,
                dst.cfg.xorigin == 0,
                dst.cfg.yorigin == 0,
                dst.cfg.stride == blk_w,
                dst.cfg.alloc_height == blk_h,
                forall|c2: int, r2: int|
                    0 <= c2 < blk_w && 0 <= r2 < r ==> (#[trigger] dst.sample(c2, r2)) as int
                        == pred_sample(*p_ref, po, mv, c2, r2),
                forall|c2: int|
                    0 <= c2 < c ==> (#[trigger] dst.sample(c2, r as int)) as int == pred_sample(
                        *p_ref,
                        po,
                        mv,
                        c2,
                        r as int,
                    ),
            decreases blk_w - c,
        {
            let x: i64 = po.x + (c as i64) + fcol;
            let y: i64 = po.y + (r as i64) + frow;
            let v: u16 = interp_pixel(p_ref, x, y, fx, fy);
            let ghost prev = *dst;
            dst.set_abs(c, r, v);
            proof {
                lemma_grid_index(r as int, c as int, blk_w as int, blk_h as int);
                assert forall|c2: int, r2: int|
                    0 <= c2 < blk_w && 0 <= r2 < blk_h && !(c2 == c && r2 == r) implies #[trigger]
                    dst.sample(c2, r2) == prev.sample(c2, r2) by {
                    lemma_grid_index(r2, c2, blk_w as int, blk_h as int);
                    assert(r2 * (blk_w as int) + c2 != (r as int) * (blk_w as int) + c)
                        by (nonlinear_arith)
                        requires
                            0 <= r2 < blk_h,
                            0 <= c2 < blk_w,
                            0 <= r < blk_h,
                            0 <= c < blk_w,
                            !(c2 == c && r2 == r),
                    ;
                }
                assert(dst.sample(c as int, r as int) == v);
            }
            c = c + 1;
        }
        r = r + 1;
    }
}

} // verus!
