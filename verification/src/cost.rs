use crate::interp::{pred_sample, predict_inter};
use crate::mv::{
    abs_int, div_trunc_i32, lemma_mv_rate_bound, mv_rate_spec, trunc_div, MotionVector,
};
use crate::plane::{Plane, PlaneRegion};
use crate::sad::{get_sad, lemma_sad_range, sad_spec};
use crate::state::FrameInvariants;
use crate::types::{PlaneOffset, RefType};
use vstd::prelude::*;

verus! {

/// Everything a cost evaluation depends on besides the candidate vector:
/// the two planes, the block position and size, the reference vectors of
/// the rate model, the Lagrange multiplier, the vector precision, and the
/// allowed vector rectangle in eighth-pels.
pub ghost struct MeCtx {
    pub p_org: Plane,
    pub p_ref: Plane,
    pub po: PlaneOffset,
    pub pmv0: MotionVector,
    pub pmv1: MotionVector,
    pub lambda: int,
    pub hp: bool,
    pub mvx_min: int,
    pub mvx_max: int,
    pub mvy_min: int,
    pub mvy_max: int,
    pub w: nat,
    pub h: nat,
}

/// The candidate lies inside the allowed rectangle.
pub open spec fn mv_in_range(
    mv: MotionVector,
    mvx_min: int,
    mvx_max: int,
    mvy_min: int,
    mvy_max: int,
) -> bool {
    &&& mvx_min <= mv.col <= mvx_max
    &&& mvy_min <= mv.row <= mvy_max
}

/// The rate charged to a candidate: against the first reference vector,
/// or against the second plus a one-bit bias toward the first.
pub open spec fn min_rate_spec(
    cand: MotionVector,
    pmv0: MotionVector,
    pmv1: MotionVector,
    hp: bool,
) -> int {
    let r1 = mv_rate_spec(cand, pmv0, hp);
    let r2 = mv_rate_spec(cand, pmv1, hp) + 1;
    if r1 <= r2 {
        r1
    } else {
        r2
    }
}

/// A sane evaluation context: well-formed planes, a supported block
/// size, the block readable in the source plane, and bounded positions.
pub open spec fn ctx_wf(c: MeCtx) -> bool {
    &&& c.p_org.wf()
    &&& c.p_ref.wf()
    &&& 1 <= c.w <= 128
    &&& 1 <= c.h <= 128
    &&& 0 <= c.lambda <= u32::MAX
    &&& -0x10_0000 <= c.po.x <= 0x10_0000
    &&& -0x10_0000 <= c.po.y <= 0x10_0000
    &&& -0x7F00 <= c.mvx_min <= c.mvx_max <= 0x7F00
    &&& -0x7F00 <= c.mvy_min <= c.mvy_max <= 0x7F00
    &&& c.p_org.slot_in_bounds(c.po.x as int, c.po.y as int, c.w as int, c.h as int)
}

/// The whole-pixel reference block a candidate selects lies inside the
/// reference plane's padded allocation.  An in-range candidate that
/// fails this test is charged the sentinel rather than read out of
/// bounds; encoders pad their reference planes so that no candidate a
/// search visits is affected.
pub open spec fn fullpel_ref_ok(c: MeCtx, mv: MotionVector) -> bool {
    c.p_ref.slot_in_bounds(
        c.po.x + trunc_div(mv.col as int, 8),
        c.po.y + trunc_div(mv.row as int, 8),
        c.w as int,
        c.h as int,
    )
}

/// Rate-distortion cost of a whole-pixel candidate: the scaled distortion
/// of the displaced reference block plus the rate term, or the sentinel
/// `u64::MAX` for a candidate out of range or unreadable.
pub open spec fn fullpel_cost_spec(c: MeCtx, mv: MotionVector) -> int {
    if !mv_in_range(mv, c.mvx_min, c.mvx_max, c.mvy_min, c.mvy_max) || !fullpel_ref_ok(c, mv) {
        u64::MAX as int
    } else {
        256 * sad_spec(
            c.p_org,
            c.po.x as int,
            c.po.y as int,
            c.p_ref,
            c.po.x + trunc_div(mv.col as int, 8),
            c.po.y + trunc_div(mv.row as int, 8),
            c.w,
            c.h,
        ) + min_rate_spec(mv, c.pmv0, c.pmv1, c.hp) * c.lambda
    }
}

/// Distortion of one row of the source block against the synthesized
/// (sub-pixel interpolated) prediction.
pub open spec fn pred_row_sad(
    p_org: Plane,
    p_ref: Plane,
    po: PlaneOffset,
    mv: MotionVector,
    r: int,
    w: nat,
) -> int
    decreases w,
{
    if w == 0 {
        0
    } else {
        pred_row_sad(p_org, p_ref, po, mv, r, (w - 1) as nat) + abs_int(
            p_org.sample(po.x + w - 1, po.y + r) - pred_sample(p_ref, po, mv, w - 1, r),
        )
    }
}

/// Distortion of the source block against the synthesized prediction.
pub open spec fn pred_sad(
    p_org: Plane,
    p_ref: Plane,
    po: PlaneOffset,
    mv: MotionVector,
    w: nat,
    h: nat,
) -> int
    decreases h,
{
    if h == 0 {
        0
    } else {
        pred_sad(p_org, p_ref, po, mv, w, (h - 1) as nat) + pred_row_sad(
            p_org,
            p_ref,
            po,
            mv,
            h - 1,
            w,
        )
    }
}

/// Rate-distortion cost of a sub-pixel candidate, evaluated through the
/// synthesized prediction; `u64::MAX` for a candidate out of range.
pub open spec fn subpel_cost_spec(c: MeCtx, mv: MotionVector) -> int {
    if !mv_in_range(mv, c.mvx_min, c.mvx_max, c.mvy_min, c.mvy_max) {
        u64::MAX as int
    } else {
        256 * pred_sad(c.p_org, c.p_ref, c.po, mv, c.w, c.h) + min_rate_spec(
            mv,
            c.pmv0,
            c.pmv1,
            c.hp,
        ) * c.lambda
    }
}

proof fn lemma_pred_row_sad_range(
    p_org: Plane,
    p_ref: Plane,
    po: PlaneOffset,
    mv: MotionVector,
    r: int,
    w: nat,
)
    ensures
        0 <= pred_row_sad(p_org, p_ref, po, mv, r, w) <= 0xFFFF * w,
    decreases w,
{
    if w > 0 {
        lemma_pred_row_sad_range(p_org, p_ref, po, mv, r, (w - 1) as nat);
        crate::interp::lemma_pred_sample_range(p_ref, po, mv, w - 1, r);
    }
}

/// Synthesized-prediction distortion has the same per-sample bound as the
/// plain kernel.
pub proof fn lemma_pred_sad_range(
    p_org: Plane,
    p_ref: Plane,
    po: PlaneOffset,
    mv: MotionVector,
    w: nat,
    h: nat,
)
    ensures
        0 <= pred_sad(p_org, p_ref, po, mv, w, h) <= 0xFFFF * w * h,
    decreases h,
{
    if h == 0 {
        assert(0xFFFF * w * h == 0) by (nonlinear_arith)
            requires
                h == 0,
        ;
    } else {
        lemma_pred_sad_range(p_org, p_ref, po, mv, w, (h - 1) as nat);
        lemma_pred_row_sad_range(p_org, p_ref, po, mv, h - 1, w);
        assert(0xFFFF * w * ((h - 1) as nat) + 0xFFFF * w == 0xFFFF * w * h
            && 0xFFFF * w * ((h - 1) as nat) >= 0) by (nonlinear_arith)
            requires
                h >= 1,
        ;
    }
}

/// Both cost forms stay between 0 and the sentinel, and a candidate that
/// is in range (and, for whole-pixel costs, readable) costs strictly
/// less than the sentinel.
pub proof fn lemma_cost_bounds(c: MeCtx, mv: MotionVector)
    requires
        ctx_wf(c),
    ensures
        0 <= fullpel_cost_spec(c, mv) <= u64::MAX as int,
        0 <= subpel_cost_spec(c, mv) <= u64::MAX as int,
        mv_in_range(mv, c.mvx_min, c.mvx_max, c.mvy_min, c.mvy_max) && fullpel_ref_ok(c, mv)
            ==> fullpel_cost_spec(c, mv) < u64::MAX as int,
        mv_in_range(mv, c.mvx_min, c.mvx_max, c.mvy_min, c.mvy_max) ==> subpel_cost_spec(c, mv)
            < u64::MAX as int,
{
    lemma_sad_range(
        c.p_org,
        c.po.x as int,
        c.po.y as int,
        c.p_ref,
        c.po.x + trunc_div(mv.col as int, 8),
        c.po.y + trunc_div(mv.row as int, 8),
        c.w,
        c.h,
    );
    lemma_pred_sad_range(c.p_org, c.p_ref, c.po, mv, c.w, c.h);
    lemma_mv_rate_bound(mv, c.pmv0, c.hp);
    lemma_mv_rate_bound(mv, c.pmv1, c.hp);
    assert(0xFFFF * c.w * c.h <= 0xFFFF * 128 * 128) by (nonlinear_arith)
        requires
            0 <= c.w <= 128,
            0 <= c.h <= 128,
    ;
    let rate = min_rate_spec(mv, c.pmv0, c.pmv1, c.hp);
    assert(0 <= rate * c.lambda <= 69 * (u32::MAX as int)) by (nonlinear_arith)
        requires
            0 <= rate <= 69,
            0 <= c.lambda <= u32::MAX,
    ;
}

/// The rate-distortion cost formula is monotone: at a fixed multiplier,
/// lowering distortion and rate never raises the cost.
pub proof fn lemma_rd_cost_monotonic(sad1: int, rate1: int, sad2: int, rate2: int, lambda: int)
    requires
        0 <= lambda,
        sad2 <= sad1,
        rate2 <= rate1,
    ensures
        256 * sad2 + rate2 * lambda <= 256 * sad1 + rate1 * lambda,
{
    assert(rate2 * lambda <= rate1 * lambda) by (nonlinear_arith)
        requires
            0 <= lambda,
            rate2 <= rate1,
    ;
}

/// The evaluation context assembled from the arguments the search
/// functions carry.
pub open spec fn make_ctx(
    p_org: Plane,
    p_ref: Plane,
    po: PlaneOffset,
    pmv: [MotionVector; 2],
    lambda: u32,
    hp: bool,
    mvx_min: i64,
    mvx_max: i64,
    mvy_min: i64,
    mvy_max: i64,
    blk_w: usize,
    blk_h: usize,
) -> MeCtx {
    MeCtx {
        p_org,
        p_ref,
        po,
        pmv0: pmv[0],
        pmv1: pmv[1],
        lambda: lambda as int,
        hp,
        mvx_min: mvx_min as int,
        mvx_max: mvx_max as int,
        mvy_min: mvy_min as int,
        mvy_max: mvy_max as int,
        w: blk_w as nat,
        h: blk_h as nat,
    }
}

/// Scaled distortion plus rate of the candidate, over two given regions.
pub fn compute_mv_rd_cost(
    fi: &FrameInvariants,
    pmv: [MotionVector; 2],
    lambda: u32,
    bit_depth: usize,
    blk_w: usize,
    blk_h: usize,
    cand_mv: MotionVector,
    plane_org: &PlaneRegion<'_>,
    plane_ref: &PlaneRegion<'_>,
) -> (cost: u64)
    requires
        plane_org.plane.wf(),
        plane_ref.plane.wf(),
        1 <= blk_w <= 128,
        1 <= blk_h <= 128,
        plane_org.block_in_bounds(blk_w as int, blk_h as int),
        plane_ref.block_in_bounds(blk_w as int, blk_h as int),
    ensures
        cost as int == 256 * sad_spec(
            *plane_org.plane,
            plane_org.x as int,
            plane_org.y as int,
            *plane_ref.plane,
            plane_ref.x as int,
            plane_ref.y as int,
            blk_w as nat,
            blk_h as nat,
        ) + min_rate_spec(cand_mv, pmv[0], pmv[1], fi.allow_high_precision_mv) * lambda,
        cost < u64::MAX,
{
    let sad = get_sad(plane_org, plane_ref, blk_w, blk_h, bit_depth);
    proof {
        lemma_sad_range(
            *plane_org.plane,
            plane_org.x as int,
            plane_org.y as int,
            *plane_ref.plane,
            plane_ref.x as int,
            plane_ref.y as int,
            blk_w as nat,
            blk_h as nat,
        );
        assert(0xFFFF * (blk_w as nat) * (blk_h as nat) <= 0xFFFF * 128 * 128) by (nonlinear_arith)
            requires
                0 <= blk_w <= 128,
                0 <= blk_h <= 128,
        ;
    }
    let rate1 = crate::mv::get_mv_rate(cand_mv, pmv[0], fi.allow_high_precision_mv);
    let rate2 = crate::mv::get_mv_rate(cand_mv, pmv[1], fi.allow_high_precision_mv);
    let rate: u32 = if rate1 <= rate2 + 1 {
        rate1
    } else {
        rate2 + 1
    };
    proof {
        assert((rate as int) * (lambda as int) <= 69 * (u32::MAX as int)) by (nonlinear_arith)
            requires
                0 <= rate <= 69,
                0 <= lambda <= u32::MAX,
        ;
    }
    256 * (sad as u64) + (rate as u64) * (lambda as u64)
}

proof fn lemma_pred_row_sad_via_tmp(
    p_org: Plane,
    tmp: Plane,
    p_ref: Plane,
    po: PlaneOffset,
    mv: MotionVector,
    r: int,
    w: nat,
    blk_w: nat,
    blk_h: nat,
)
    requires
        tmp.cfg.xorigin == 0,
        tmp.cfg.yorigin == 0,
        w <= blk_w,
        0 <= r < blk_h,
        forall|c2: int, r2: int|
            0 <= c2 < blk_w && 0 <= r2 < blk_h ==> (#[trigger] tmp.sample(c2, r2)) as int
                == pred_sample(p_ref, po, mv, c2, r2),
    ensures
        crate::sad::row_sad(p_org, po.x as int, po.y + r, tmp, 0, r, w) == pred_row_sad(
            p_org,
            p_ref,
            po,
            mv,
            r,
            w,
        ),
    decreases w,
{
    if w > 0 {
        lemma_pred_row_sad_via_tmp(p_org, tmp, p_ref, po, mv, r, (w - 1) as nat, blk_w, blk_h);
        assert(tmp.sample(w - 1, r) as int == pred_sample(p_ref, po, mv, w - 1, r));
    }
}

/// Distortion against the block synthesized into a scratch plane equals
/// the synthesized-prediction distortion.
pub proof fn lemma_pred_sad_via_tmp(
    p_org: Plane,
    tmp: Plane,
    p_ref: Plane,
    po: PlaneOffset,
    mv: MotionVector,
    h: nat,
    blk_w: nat,
    blk_h: nat,
)
    requires
        tmp.cfg.xorigin == 0,
        tmp.cfg.yorigin == 0,
        h <= blk_h,
        forall|c2: int, r2: int|
            0 <= c2 < blk_w && 0 <= r2 < blk_h ==> (#[trigger] tmp.sample(c2, r2)) as int
                == pred_sample(p_ref, po, mv, c2, r2),
    ensures
        sad_spec(p_org, po.x as int, po.y as int, tmp, 0, 0, blk_w, h) == pred_sad(
            p_org,
            p_ref,
            po,
            mv,
            blk_w,
            h,
        ),
    decreases h,
{
    if h > 0 {
        lemma_pred_sad_via_tmp(p_org, tmp, p_ref, po, mv, (h - 1) as nat, blk_w, blk_h);
        lemma_pred_row_sad_via_tmp(p_org, tmp, p_ref, po, mv, h - 1, blk_w, blk_w, blk_h);
    }
}

/// Rate-distortion cost of one candidate vector.  With a scratch plane at
/// hand the candidate is evaluated at sub-pixel precision through the
/// synthesized prediction; without one, against the whole-pixel displaced
/// reference region.  A candidate outside the allowed rectangle (or, at
/// whole pixels, pointing at samples outside the reference's allocation)
/// costs the sentinel `u64::MAX` and is thereby never chosen.
pub fn get_mv_rd_cost(
    fi: &FrameInvariants,
    po: PlaneOffset,
    p_org: &Plane,
    p_ref: &Plane,
    bit_depth: usize,
    pmv: [MotionVector; 2],
    lambda: u32,
    mvx_min: i64,
    mvx_max: i64,
    mvy_min: i64,
    mvy_max: i64,
    blk_w: usize,
    blk_h: usize,
    cand_mv: MotionVector,
    tmp_plane_opt: &mut Option<Plane>,
    _ref_frame: RefType,
) -> (cost: u64)
    requires
        ctx_wf(
            (make_ctx(
                *p_org,
                *p_ref,
                po,
                pmv,
                lambda,
                fi.allow_high_precision_mv,
                mvx_min,
                mvx_max,
                mvy_min,
                mvy_max,
                blk_w,
                blk_h,
            )),
        ),
        match *old(tmp_plane_opt) {
            Option::Some(t) => {
                &&& t.wf()
                &&& t.cfg.xorigin == 0
                &&& t.cfg.yorigin == 0
                &&& t.cfg.stride == blk_w
                &&& t.cfg.alloc_height == blk_h
            },
            Option::None => true,
        },
    ensures
        ({
            let c = make_ctx(
                *p_org,
                *p_ref,
                po,
                pmv,
                lambda,
                fi.allow_high_precision_mv,
                mvx_min,
                mvx_max,
                mvy_min,
                mvy_max,
                blk_w,
                blk_h,
            );
            match *old(tmp_plane_opt) {
                Option::Some(t) => {
                    &&& cost as int == subpel_cost_spec(c, cand_mv)
                    &&& match *final(tmp_plane_opt) {
                        Option::Some(t2) => t2.wf() && t2.cfg == t.cfg,
                        Option::None => false,
                    }
                },
                Option::None => {
                    &&& cost as int == fullpel_cost_spec(c, cand_mv)
                    &&& *final(tmp_plane_opt) is None
                },
            }
        }),
{
    let ghost c = make_ctx(
        *p_org,
        *p_ref,
        po,
        pmv,
        lambda,
        fi.allow_high_precision_mv,
        mvx_min,
        mvx_max,
        mvy_min,
        mvy_max,
        blk_w,
        blk_h,
    );
    if (cand_mv.col as i64) < mvx_min || (cand_mv.col as i64) > mvx_max {
        return u64::MAX;
    }
    if (cand_mv.row as i64) < mvy_min || (cand_mv.row as i64) > mvy_max {
        return u64::MAX;
    }
    let plane_org = p_org.region(po.x, po.y);
    match tmp_plane_opt {
        Option::Some(tmp_plane) => {
            predict_inter(p_ref, po, cand_mv, blk_w, blk_h, tmp_plane);
            let plane_ref = tmp_plane.region(0, 0);
            let cost = compute_mv_rd_cost(
                fi,
                pmv,
                lambda,
                bit_depth,
                blk_w,
                blk_h,
                cand_mv,
                &plane_org,
                &plane_ref,
            );
            proof {
                lemma_pred_sad_via_tmp(
                    *p_org,
                    *tmp_plane,
                    *p_ref,
                    po,
                    cand_mv,
                    blk_h as nat,
                    blk_w as nat,
                    blk_h as nat,
                );
            }
            cost
        },
        Option::None => {
            // Whole-pixel candidate: read the displaced reference region.
            let dx: i64 = div_trunc_i32(cand_mv.col as i32, 8) as i64;
            let dy: i64 = div_trunc_i32(cand_mv.row as i32, 8) as i64;
            let rx: i64 = po.x + dx;
            let ry: i64 = po.y + dy;
            if !p_ref.check_slot(rx, ry, blk_w, blk_h) {
                return u64::MAX;
            }
            let plane_ref = p_ref.region(rx, ry);
            compute_mv_rd_cost(
                fi,
                pmv,
                lambda,
                bit_depth,
                blk_w,
                blk_h,
                cand_mv,
                &plane_org,
                &plane_ref,
            )
        },
    }
}

} // verus!
