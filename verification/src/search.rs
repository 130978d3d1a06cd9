use crate::cost::{
    ctx_wf, fullpel_cost_spec, fullpel_ref_ok, get_mv_rd_cost, lemma_cost_bounds, make_ctx,
    min_rate_spec, mv_in_range, subpel_cost_spec, MeCtx,
};
use crate::mv::{zero_mv, MotionVector};
use crate::plane::Plane;
use crate::sad::{get_sad, lemma_sad_range, sad_spec};
use crate::state::FrameInvariants;
use crate::types::{PlaneOffset, RefType};
use vstd::prelude::*;
use vstd::slice::slice_index_get;

verus! {

/// Cost of a candidate under the mode the search runs in: through the
/// synthesized prediction at sub-pixel precision, or against the
/// displaced reference region at whole pixels.
pub open spec fn cand_cost(c: MeCtx, subpel: bool, mv: MotionVector) -> int {
    if subpel {
        subpel_cost_spec(c, mv)
    } else {
        fullpel_cost_spec(c, mv)
    }
}

/// A candidate the search can actually evaluate: in range and, at whole
/// pixels, pointing at readable reference samples.
pub open spec fn cand_ok(c: MeCtx, subpel: bool, mv: MotionVector) -> bool {
    &&& mv_in_range(mv, c.mvx_min, c.mvx_max, c.mvy_min, c.mvy_max)
    &&& (subpel || fullpel_ref_ok(c, mv))
}

/// A candidate costs the sentinel exactly when it cannot be evaluated.
pub proof fn lemma_cand_cost(c: MeCtx, subpel: bool, mv: MotionVector)
    requires
        ctx_wf(c),
    ensures
        0 <= cand_cost(c, subpel, mv) <= u64::MAX as int,
        cand_ok(c, subpel, mv) <==> cand_cost(c, subpel, mv) < u64::MAX as int,
{
    lemma_cost_bounds(c, mv);
}

/// Folding a candidate list to its cheapest entry, earliest first on
/// ties: the running best is replaced only by a strictly cheaper one.
pub open spec fn best_pred_spec(c: MeCtx, subpel: bool, preds: Seq<MotionVector>) -> (
    MotionVector,
    int,
)
    decreases preds.len(),
{
    if preds.len() == 0 {
        (zero_mv(), u64::MAX as int)
    } else {
        let prev = best_pred_spec(c, subpel, preds.drop_last());
        let lc = cand_cost(c, subpel, preds.last());
        if lc < prev.1 {
            (preds.last(), lc)
        } else {
            prev
        }
    }
}

/// What the fold guarantees: its cost is a lower bound on every
/// candidate's cost, it is exact for the vector it settles on, and it
/// beats the sentinel as soon as any candidate can be evaluated.
pub proof fn lemma_best_pred_props(c: MeCtx, subpel: bool, preds: Seq<MotionVector>)
    requires
        ctx_wf(c),
    ensures
        0 <= best_pred_spec(c, subpel, preds).1 <= u64::MAX as int,
        forall|i: int|
            0 <= i < preds.len() ==> best_pred_spec(c, subpel, preds).1 <= cand_cost(
                c,
                subpel,
                #[trigger] preds[i],
            ),
        best_pred_spec(c, subpel, preds).1 < u64::MAX as int ==> {
            &&& best_pred_spec(c, subpel, preds).1 == cand_cost(
                c,
                subpel,
                best_pred_spec(c, subpel, preds).0,
            )
            &&& cand_ok(c, subpel, best_pred_spec(c, subpel, preds).0)
        },
        (exists|i: int| 0 <= i < preds.len() && cand_ok(c, subpel, #[trigger] preds[i]))
            ==> best_pred_spec(c, subpel, preds).1 < u64::MAX as int,
        best_pred_spec(c, subpel, preds).1 < u64::MAX as int ==> exists|i: int|
            0 <= i < preds.len() && #[trigger] preds[i] == best_pred_spec(c, subpel, preds).0,
    decreases preds.len(),
{
    if preds.len() == 0 {
    } else {
        let rest = preds.drop_last();
        lemma_best_pred_props(c, subpel, rest);
        lemma_cand_cost(c, subpel, preds.last());
        assert(forall|i: int| 0 <= i < rest.len() ==> rest[i] == #[trigger] preds[i]);
        let cur = best_pred_spec(c, subpel, preds);
        if cur.1 < u64::MAX as int {
            if cand_cost(c, subpel, preds.last()) < best_pred_spec(c, subpel, rest).1 {
                assert(preds[preds.len() - 1] == cur.0);
            } else {
                let j = choose|j: int|
                    0 <= j < rest.len() && #[trigger] rest[j] == best_pred_spec(c, subpel, rest).0;
                assert(preds[j] == cur.0);
            }
        }
        if exists|i: int| 0 <= i < preds.len() && cand_ok(c, subpel, #[trigger] preds[i]) {
            let i = choose|i: int| 0 <= i < preds.len() && cand_ok(c, subpel, #[trigger] preds[i]);
            if i < preds.len() - 1 {
                assert(cand_ok(c, subpel, rest[i]));
                assert(best_pred_spec(c, subpel, rest).1 < u64::MAX as int);
            } else {
                assert(cand_cost(c, subpel, preds.last()) < u64::MAX as int);
            }
        }
    }
}

/// Evaluate each candidate seed in order and settle on the cheapest,
/// earliest first on ties; with no evaluable seed the cost stays at the
/// sentinel and the center at the neutral vector.
pub fn get_best_predictor(
    fi: &FrameInvariants,
    po: PlaneOffset,
    p_org: &Plane,
    p_ref: &Plane,
    predictors: &[MotionVector],
    bit_depth: usize,
    pmv: [MotionVector; 2],
    lambda: u32,
    mvx_min: i64,
    mvx_max: i64,
    mvy_min: i64,
    mvy_max: i64,
    blk_w: usize,
    blk_h: usize,
    center_mv: &mut MotionVector,
    center_mv_cost: &mut u64,
    tmp_plane_opt: &mut Option<Plane>,
    ref_frame: RefType,
)
    requires
        ctx_wf(
            (make_ctx(
                *p_org,
                *p_ref,
                po,
                pmv,
                lambda,
                fi.allow_high_precision_mv,
                mvx_min,
                mvx_max,
                mvy_min,
                mvy_max,
                blk_w,
                blk_h,
            )),
        ),
        match *old(tmp_plane_opt) {
            Option::Some(t) => {
                &&& t.wf()
                &&& t.cfg.xorigin == 0
                &&& t.cfg.yorigin == 0
                &&& t.cfg.stride == blk_w
                &&& t.cfg.alloc_height == blk_h
            },
            Option::None => true,
        },
    ensures
        ({
            let c = make_ctx(
                *p_org,
                *p_ref,
                po,
                pmv,
                lambda,
                fi.allow_high_precision_mv,
                mvx_min,
                mvx_max,
                mvy_min,
                mvy_max,
                blk_w,
                blk_h,
            );
            let subpel = *old(tmp_plane_opt) is Some;
            &&& *final(center_mv) == best_pred_spec(c, subpel, predictors@).0
            &&& (*final(center_mv_cost)) as int == best_pred_spec(c, subpel, predictors@).1
        }),
        match *old(tmp_plane_opt) {
            Option::Some(t) => match *final(tmp_plane_opt) {
                Option::Some(t2) => t2.wf() && t2.cfg == t.cfg,
                Option::None => false,
            },
            Option::None => *final(tmp_plane_opt) is None,
        },
{
    let ghost c = make_ctx(
        *p_org,
        *p_ref,
        po,
        pmv,
        lambda,
        fi.allow_high_precision_mv,
        mvx_min,
        mvx_max,
        mvy_min,
        mvy_max,
        blk_w,
        blk_h,
    );
    let ghost subpel = *old(tmp_plane_opt) is Some;
    *center_mv = MotionVector::default();
    *center_mv_cost = u64::MAX;
    let mut i: usize = 0;
    while i < predictors.len()
        invariant
            i <= predictors@.len(),
            ctx_wf(c),
            c == make_ctx(
                *p_org,
                *p_ref,
                po,
                pmv,
                lambda,
                fi.allow_high_precision_mv,
                mvx_min,
                mvx_max,
                mvy_min,
                mvy_max,
                blk_w,
                blk_h,
            ),
            *center_mv == best_pred_spec(c, subpel, predictors@.take(i as int)).0,
            (*center_mv_cost) as int == best_pred_spec(c, subpel, predictors@.take(i as int)).1,
            match *old(tmp_plane_opt) {
                Option::Some(t) => {
                    &&& t.wf()
                    &&& t.cfg.xorigin == 0
                    &&& t.cfg.yorigin == 0
                    &&& t.cfg.stride == blk_w
                    &&& t.cfg.alloc_height == blk_h
                    &&& match *tmp_plane_opt {
                        Option::Some(t2) => t2.wf() && t2.cfg == t.cfg,
                        Option::None => false,
                    }
                },
                Option::None => *tmp_plane_opt is None,
            },
            subpel == (*old(tmp_plane_opt) is Some),
        decreases predictors@.len() - i,
    {
        let init_mv = *slice_index_get(predictors, i);
        let cost = get_mv_rd_cost(
            fi,
            po,
            p_org,
            p_ref,
            bit_depth,
            pmv,
            lambda,
            mvx_min,
            mvx_max,
            mvy_min,
            mvy_max,
            blk_w,
            blk_h,
            init_mv,
            tmp_plane_opt,
            ref_frame,
        );
        proof {
            assert(predictors@.take(i + 1).drop_last() =~= predictors@.take(i as int));
            assert(predictors@.take(i + 1).last() == predictors@[i as int]);
        }
        if cost < *center_mv_cost {
            *center_mv = init_mv;
            *center_mv_cost = cost;
        }
        i = i + 1;
    }
    proof {
        assert(predictors@.take(predictors@.len() as int) =~= predictors@);
    }
}

/// The compass candidate at `radius` eighth-pels from the center in
/// direction `(dy, dx)`.
pub open spec fn diamond_cand(center: MotionVector, radius: int, dy: int, dx: int) -> MotionVector {
    MotionVector {
        row: (center.row + radius * dy) as i16,
        col: (center.col + radius * dx) as i16,
    }
}

/// Evaluate one compass candidate and fold it into the running best of
/// this round (strictly cheaper replaces).
#[allow(clippy::too_many_arguments)]
fn try_diamond_cand(
    fi: &FrameInvariants,
    po: PlaneOffset,
    p_org: &Plane,
    p_ref: &Plane,
    bit_depth: usize,
    pmv: [MotionVector; 2],
    lambda: u32,
    mvx_min: i64,
    mvx_max: i64,
    mvy_min: i64,
    mvy_max: i64,
    blk_w: usize,
    blk_h: usize,
    center: MotionVector,
    radius: i16,
    dy: i16,
    dx: i16,
    best_cost: &mut u64,
    best_mv: &mut MotionVector,
    tmp_plane_opt: &mut Option<Plane>,
    ref_frame: RefType,
)
    requires
        ctx_wf(
            (make_ctx(
                *p_org,
                *p_ref,
                po,
                pmv,
                lambda,
                fi.allow_high_precision_mv,
                mvx_min,
                mvx_max,
                mvy_min,
                mvy_max,
                blk_w,
                blk_h,
            )),
        ),
        -0x7F00 <= center.row <= 0x7F00,
        -0x7F00 <= center.col <= 0x7F00,
        1 <= radius <= 16,
        -1 <= dy <= 1,
        -1 <= dx <= 1,
        match *old(tmp_plane_opt) {
            Option::Some(t) => {
                &&& t.wf()
                &&& t.cfg.xorigin == 0
                &&& t.cfg.yorigin == 0
                &&& t.cfg.stride == blk_w
                &&& t.cfg.alloc_height == blk_h
            },
            Option::None => true,
        },
    ensures
        ({
            let c = make_ctx(
                *p_org,
                *p_ref,
                po,
                pmv,
                lambda,
                fi.allow_high_precision_mv,
                mvx_min,
                mvx_max,
                mvy_min,
                mvy_max,
                blk_w,
                blk_h,
            );
            let subpel = *old(tmp_plane_opt) is Some;
            let cand = diamond_cand(center, radius as int, dy as int, dx as int);
            let cc = cand_cost(c, subpel, cand);
            if cc < *old(best_cost) {
                (*final(best_cost)) as int == cc && *final(best_mv) == cand
            } else {
                *final(best_cost) == *old(best_cost) && *final(best_mv) == *old(best_mv)
            }
        }),
        match *old(tmp_plane_opt) {
            Option::Some(t) => match *final(tmp_plane_opt) {
                Option::Some(t2) => t2.wf() && t2.cfg == t.cfg,
                Option::None => false,
            },
            Option::None => *final(tmp_plane_opt) is None,
        },
{
    proof {
        assert(-16 <= (radius as int) * (dy as int) <= 16 && -16 <= (radius as int) * (dx as int)
            <= 16) by (nonlinear_arith)
            requires
                1 <= radius <= 16,
                -1 <= dy <= 1,
                -1 <= dx <= 1,
        ;
    }
    let cr: i32 = (center.row as i32) + (radius as i32) * (dy as i32);
    let cc_: i32 = (center.col as i32) + (radius as i32) * (dx as i32);
    let cand_mv = MotionVector { row: cr as i16, col: cc_ as i16 };
    let rd_cost = get_mv_rd_cost(
        fi,
        po,
        p_org,
        p_ref,
        bit_depth,
        pmv,
        lambda,
        mvx_min,
        mvx_max,
        mvy_min,
        mvy_max,
        blk_w,
        blk_h,
        cand_mv,
        tmp_plane_opt,
        ref_frame,
    );
    if rd_cost < *best_cost {
        *best_cost = rd_cost;
        *best_mv = cand_mv;
    }
}

/// One compass move keeps the center congruent to the winning seed
/// modulo the end radius: every radius the walk uses is a multiple of it.
proof fn lemma_diamond_step_congruent(
    center: MotionVector,
    b0: MotionVector,
    radius: int,
    rend: int,
    dy: int,
    dx: int,
)
    requires
        1 <= rend <= radius <= 16,
        radius % rend == 0,
        (center.row - b0.row) % rend == 0,
        (center.col - b0.col) % rend == 0,
        -1 <= dy <= 1,
        -1 <= dx <= 1,
        -0x7F00 <= center.row <= 0x7F00,
        -0x7F00 <= center.col <= 0x7F00,
    ensures
        (diamond_cand(center, radius, dy, dx).row - b0.row) % rend == 0,
        (diamond_cand(center, radius, dy, dx).col - b0.col) % rend == 0,
{
    assert(-16 <= radius * dy <= 16 && -16 <= radius * dx <= 16) by (nonlinear_arith)
        requires
            1 <= radius <= 16,
            -1 <= dy <= 1,
            -1 <= dx <= 1,
    ;
    crate::mv::lemma_mod_step(center.row - b0.row, radius, dy, rend);
    crate::mv::lemma_mod_step(center.col - b0.col, radius, dx, rend);
    assert(diamond_cand(center, radius, dy, dx).row as int == center.row + radius * dy);
    assert(diamond_cand(center, radius, dy, dx).col as int == center.col + radius * dx);
}

/// Diamond refinement around the best seed.  Starting from the cheapest
/// predictor, the four compass neighbors at the current radius are tried;
/// a strict improvement re-centers the search, otherwise the radius
/// shrinks until it reaches its end value.  The cost strictly falls with
/// every move and the radius with every shrink, which bounds the work by
/// the number of strict improvements plus the number of radius halvings.
#[verifier::rlimit(100)]
pub fn diamond_me_search(
    fi: &FrameInvariants,
    po: PlaneOffset,
    p_org: &Plane,
    p_ref: &Plane,
    predictors: &[MotionVector],
    bit_depth: usize,
    pmv: [MotionVector; 2],
    lambda: u32,
    mvx_min: i64,
    mvx_max: i64,
    mvy_min: i64,
    mvy_max: i64,
    blk_w: usize,
    blk_h: usize,
    center_mv: &mut MotionVector,
    center_mv_cost: &mut u64,
    subpixel: bool,
    ref_frame: RefType,
)
    requires
        ctx_wf(
            (make_ctx(
                *p_org,
                *p_ref,
                po,
                pmv,
                lambda,
                fi.allow_high_precision_mv,
                mvx_min,
                mvx_max,
                mvy_min,
                mvy_max,
                blk_w,
                blk_h,
            )),
        ),
        exists|i: int|
            0 <= i < predictors@.len() && cand_ok(
                (make_ctx(
                    *p_org,
                    *p_ref,
                    po,
                    pmv,
                    lambda,
                    fi.allow_high_precision_mv,
                    mvx_min,
                    mvx_max,
                    mvy_min,
                    mvy_max,
                    blk_w,
                    blk_h,
                )),
                subpixel,
                #[trigger] predictors@[i],
            ),
    ensures
        ({
            let c = make_ctx(
                *p_org,
                *p_ref,
                po,
                pmv,
                lambda,
                fi.allow_high_precision_mv,
                mvx_min,
                mvx_max,
                mvy_min,
                mvy_max,
                blk_w,
                blk_h,
            );
            let b0 = best_pred_spec(c, subpixel, predictors@).0;
            let rend = if subpixel {
                if fi.allow_high_precision_mv {
                    1int
                } else {
                    2int
                }
            } else {
                8int
            };
            &&& (*final(center_mv_cost)) as int == cand_cost(c, subpixel, *final(center_mv))
            &&& *final(center_mv_cost) < u64::MAX
            &&& mv_in_range(*final(center_mv), mvx_min as int, mvx_max as int, mvy_min as int, mvy_max as int)
            &&& forall|i: int|
                0 <= i < predictors@.len() ==> (*final(center_mv_cost)) as int <= cand_cost(
                    c,
                    subpixel,
                    #[trigger] predictors@[i],
                )
            &&& ((*final(center_mv)).row - b0.row) % rend == 0
            &&& ((*final(center_mv)).col - b0.col) % rend == 0
            &&& (*final(center_mv_cost)) as int <= cand_cost(
                c,
                subpixel,
                (diamond_cand(*final(center_mv), rend, 1, 0)),
            )
            &&& (*final(center_mv_cost)) as int <= cand_cost(
                c,
                subpixel,
                (diamond_cand(*final(center_mv), rend, 0, 1)),
            )
            &&& (*final(center_mv_cost)) as int <= cand_cost(
                c,
                subpixel,
                (diamond_cand(*final(center_mv), rend, -1, 0)),
            )
            &&& (*final(center_mv_cost)) as int <= cand_cost(
                c,
                subpixel,
                (diamond_cand(*final(center_mv), rend, 0, -1)),
            )
            &&& (!subpixel && (forall|i: int|
                0 <= i < predictors@.len() ==> ((#[trigger] predictors@[i]).row % 8 == 0
                    && predictors@[i].col % 8 == 0))) ==> ((*final(center_mv)).row % 8 == 0 && (
            *final(center_mv)).col % 8 == 0)
        }),
{
    let ghost c = make_ctx(
        *p_org,
        *p_ref,
        po,
        pmv,
        lambda,
        fi.allow_high_precision_mv,
        mvx_min,
        mvx_max,
        mvy_min,
        mvy_max,
        blk_w,
        blk_h,
    );
    let (mut diamond_radius, diamond_radius_end, mut tmp_plane_opt): (i16, i16, Option<Plane>) = {
        if subpixel {
            // Sub-pixel motion estimation through synthesized prediction.
            (
                4i16,
                if fi.allow_high_precision_mv {
                    1i16
                } else {
                    2i16
                },
                Option::Some(Plane::new(blk_w, blk_h, 0, 0)),
            )
        } else {
            // Whole-pixel motion estimation.
            (16i16, 8i16, Option::None)
        }
    };

    get_best_predictor(
        fi,
        po,
        p_org,
        p_ref,
        predictors,
        bit_depth,
        pmv,
        lambda,
        mvx_min,
        mvx_max,
        mvy_min,
        mvy_max,
        blk_w,
        blk_h,
        center_mv,
        center_mv_cost,
        &mut tmp_plane_opt,
        ref_frame,
    );
    let ghost b0 = best_pred_spec(c, subpixel, predictors@).0;
    proof {
        lemma_best_pred_props(c, subpixel, predictors@);
        lemma_cand_cost(c, subpixel, *center_mv);
        assert((b0.row - b0.row) % (diamond_radius_end as int) == 0);
    }

    loop
        invariant
            ctx_wf(c),
            c == make_ctx(
                *p_org,
                *p_ref,
                po,
                pmv,
                lambda,
                fi.allow_high_precision_mv,
                mvx_min,
                mvx_max,
                mvy_min,
                mvy_max,
                blk_w,
                blk_h,
            ),
            subpixel ==> match tmp_plane_opt {
                Option::Some(t) => {
                    &&& t.wf()
                    &&& t.cfg.xorigin == 0
                    &&& t.cfg.yorigin == 0
                    &&& t.cfg.stride == blk_w
                    &&& t.cfg.alloc_height == blk_h
                },
                Option::None => false,
            },
            !subpixel ==> tmp_plane_opt is None,
            1 <= diamond_radius_end <= diamond_radius <= 16,
            !subpixel ==> diamond_radius_end == 8 && (diamond_radius == 8 || diamond_radius == 16),
            subpixel ==> (diamond_radius_end == 1 || diamond_radius_end == 2) && (diamond_radius
                == 1 || diamond_radius == 2 || diamond_radius == 4),
            (*center_mv_cost) as int == cand_cost(c, subpixel, *center_mv),
            *center_mv_cost < u64::MAX,
            mv_in_range(*center_mv, mvx_min as int, mvx_max as int, mvy_min as int, mvy_max as int),
            forall|i: int|
                0 <= i < predictors@.len() ==> (*center_mv_cost) as int <= cand_cost(
                    c,
                    subpixel,
                    #[trigger] predictors@[i],
                ),
            b0 == best_pred_spec(c, subpixel, predictors@).0,
            (diamond_radius as int) % (diamond_radius_end as int) == 0,
            ((*center_mv).row - b0.row) % (diamond_radius_end as int) == 0,
            ((*center_mv).col - b0.col) % (diamond_radius_end as int) == 0,
        ensures
            (*center_mv_cost) as int == cand_cost(c, subpixel, *center_mv),
            *center_mv_cost < u64::MAX,
            mv_in_range(*center_mv, mvx_min as int, mvx_max as int, mvy_min as int, mvy_max as int),
            forall|i: int|
                0 <= i < predictors@.len() ==> (*center_mv_cost) as int <= cand_cost(
                    c,
                    subpixel,
                    #[trigger] predictors@[i],
                ),
            ((*center_mv).row - b0.row) % (diamond_radius_end as int) == 0,
            ((*center_mv).col - b0.col) % (diamond_radius_end as int) == 0,
            (*center_mv_cost) as int <= cand_cost(
                c,
                subpixel,
                (diamond_cand(*center_mv, diamond_radius_end as int, 1, 0)),
            ),
            (*center_mv_cost) as int <= cand_cost(
                c,
                subpixel,
                (diamond_cand(*center_mv, diamond_radius_end as int, 0, 1)),
            ),
            (*center_mv_cost) as int <= cand_cost(
                c,
                subpixel,
                (diamond_cand(*center_mv, diamond_radius_end as int, -1, 0)),
            ),
            (*center_mv_cost) as int <= cand_cost(
                c,
                subpixel,
                (diamond_cand(*center_mv, diamond_radius_end as int, 0, -1)),
            ),
        decreases *center_mv_cost, diamond_radius,
    {
        let mut best_diamond_rd_cost: u64 = u64::MAX;
        let mut best_diamond_mv: MotionVector = MotionVector::default();
        let center = *center_mv;

        try_diamond_cand(
            fi, po, p_org, p_ref, bit_depth, pmv, lambda, mvx_min, mvx_max, mvy_min, mvy_max,
            blk_w, blk_h, center, diamond_radius, 1, 0, &mut best_diamond_rd_cost,
            &mut best_diamond_mv, &mut tmp_plane_opt, ref_frame,
        );
        try_diamond_cand(
            fi, po, p_org, p_ref, bit_depth, pmv, lambda, mvx_min, mvx_max, mvy_min, mvy_max,
            blk_w, blk_h, center, diamond_radius, 0, 1, &mut best_diamond_rd_cost,
            &mut best_diamond_mv, &mut tmp_plane_opt, ref_frame,
        );
        try_diamond_cand(
            fi, po, p_org, p_ref, bit_depth, pmv, lambda, mvx_min, mvx_max, mvy_min, mvy_max,
            blk_w, blk_h, center, diamond_radius, -1, 0, &mut best_diamond_rd_cost,
            &mut best_diamond_mv, &mut tmp_plane_opt, ref_frame,
        );
        try_diamond_cand(
            fi, po, p_org, p_ref, bit_depth, pmv, lambda, mvx_min, mvx_max, mvy_min, mvy_max,
            blk_w, blk_h, center, diamond_radius, 0, -1, &mut best_diamond_rd_cost,
            &mut best_diamond_mv, &mut tmp_plane_opt, ref_frame,
        );

        if *center_mv_cost <= best_diamond_rd_cost {
            if diamond_radius == diamond_radius_end {
                proof {
                    lemma_cand_cost(c, subpixel, diamond_cand(center, diamond_radius as int, 1, 0));
                    lemma_cand_cost(c, subpixel, diamond_cand(center, diamond_radius as int, 0, 1));
                    lemma_cand_cost(
                        c,
                        subpixel,
                        diamond_cand(center, diamond_radius as int, -1, 0),
                    );
                    lemma_cand_cost(
                        c,
                        subpixel,
                        diamond_cand(center, diamond_radius as int, 0, -1),
                    );
                    assert(best_diamond_rd_cost as int <= cand_cost(
                        c,
                        subpixel,
                        diamond_cand(center, diamond_radius as int, 1, 0),
                    ));
                    assert(best_diamond_rd_cost as int <= cand_cost(
                        c,
                        subpixel,
                        diamond_cand(center, diamond_radius as int, 0, 1),
                    ));
                    assert(best_diamond_rd_cost as int <= cand_cost(
                        c,
                        subpixel,
                        diamond_cand(center, diamond_radius as int, -1, 0),
                    ));
                    assert(best_diamond_rd_cost as int <= cand_cost(
                        c,
                        subpixel,
                        diamond_cand(center, diamond_radius as int, 0, -1),
                    ));
                }
                break ;
            } else {
                diamond_radius = diamond_radius / 2;
            }
        } else {
            proof {
                lemma_cand_cost(c, subpixel, best_diamond_mv);
                if best_diamond_mv == diamond_cand(center, diamond_radius as int, 1, 0) {
                    lemma_diamond_step_congruent(
                        center,
                        b0,
                        diamond_radius as int,
                        diamond_radius_end as int,
                        1,
                        0,
                    );
                } else if best_diamond_mv == diamond_cand(center, diamond_radius as int, 0, 1) {
                    lemma_diamond_step_congruent(
                        center,
                        b0,
                        diamond_radius as int,
                        diamond_radius_end as int,
                        0,
                        1,
                    );
                } else if best_diamond_mv == diamond_cand(center, diamond_radius as int, -1, 0) {
                    lemma_diamond_step_congruent(
                        center,
                        b0,
                        diamond_radius as int,
                        diamond_radius_end as int,
                        -1,
                        0,
                    );
                } else {
                    assert(best_diamond_mv == diamond_cand(center, diamond_radius as int, 0, -1));
                    lemma_diamond_step_congruent(
                        center,
                        b0,
                        diamond_radius as int,
                        diamond_radius_end as int,
                        0,
                        -1,
                    );
                }
            }
            *center_mv = best_diamond_mv;
            *center_mv_cost = best_diamond_rd_cost;
        }
    }
    proof {
        // With whole-pel seeds in whole-pixel mode, the walk's moves of
        // 16 and 8 eighth-pels keep the result whole-pel.
        if !subpixel && (forall|i: int|
            0 <= i < predictors@.len() ==> ((#[trigger] predictors@[i]).row % 8 == 0
                && predictors@[i].col % 8 == 0)) {
            lemma_best_pred_props(c, subpixel, predictors@);
            let i = choose|i: int|
                0 <= i < predictors@.len() && #[trigger] predictors@[i] == best_pred_spec(
                    c,
                    subpixel,
                    predictors@,
                ).0;
            assert(b0.row % 8 == 0 && b0.col % 8 == 0);
            crate::mv::lemma_mod_add((*center_mv).row - b0.row, b0.row as int, 8);
            crate::mv::lemma_mod_add((*center_mv).col - b0.col, b0.col as int, 8);
        }
    }
}

/// The motion vector that selects the reference block at `(x, y)` in a
/// dense scan anchored at `po`.
pub open spec fn fs_mv(po: PlaneOffset, x: int, y: int) -> MotionVector {
    MotionVector { row: (8 * (y - po.y)) as i16, col: (8 * (x - po.x)) as i16 }
}

/// The context of a dense scan; the vector rectangle plays no part, the
/// window having been clipped by the caller.
pub open spec fn fs_ctx(
    p_org: Plane,
    p_ref: Plane,
    po: PlaneOffset,
    pmv: [MotionVector; 2],
    lambda: u32,
    hp: bool,
    blk_w: usize,
    blk_h: usize,
) -> MeCtx {
    make_ctx(p_org, p_ref, po, pmv, lambda, hp, 0, 0, 0, 0, blk_w, blk_h)
}

/// Cost of the scan point `(x, y)`: distortion of the reference block
/// there plus the rate of its vector, or the sentinel where that block
/// leaves the reference's allocation.
pub open spec fn fs_cost(c: MeCtx, x: int, y: int) -> int {
    if c.p_ref.slot_in_bounds(x, y, c.w as int, c.h as int) {
        256 * sad_spec(c.p_org, c.po.x as int, c.po.y as int, c.p_ref, x, y, c.w, c.h)
            + min_rate_spec(fs_mv(c.po, x, y), c.pmv0, c.pmv1, c.hp) * c.lambda
    } else {
        u64::MAX as int
    }
}

/// `v` is a point of the scan from `lo` to `hi` at the given stride.
pub open spec fn on_grid(lo: int, hi: int, step: int, v: int) -> bool {
    lo <= v <= hi && (v - lo) % step == 0
}

/// Two points of one scan lattice less than a stride apart are ordered.
proof fn lemma_grid_gap(lo: int, step: int, a: int, b: int)
    requires
        1 <= step,
        (a - lo) % step == 0,
        (b - lo) % step == 0,
        a < b + step,
    ensures
        a <= b,
{
    vstd::arithmetic::div_mod::lemma_fundamental_div_mod(a - lo, step);
    vstd::arithmetic::div_mod::lemma_fundamental_div_mod(b - lo, step);
    let ka = (a - lo) / step;
    let kb = (b - lo) / step;
    assert(a - b == step * (ka - kb)) by (nonlinear_arith)
        requires
            a - lo == step * ka + 0,
            b - lo == step * kb + 0,
    ;
    assert(step * (ka - kb) < step ==> ka - kb <= 0) by (nonlinear_arith)
        requires
            step >= 1,
    ;
    assert(ka - kb <= 0 ==> step * (ka - kb) <= 0) by (nonlinear_arith)
        requires
            step >= 1,
    ;
}

fn fs_eval(
    p_org: &Plane,
    p_ref: &Plane,
    po: PlaneOffset,
    x: i64,
    y: i64,
    blk_w: usize,
    blk_h: usize,
    pmv: [MotionVector; 2],
    lambda: u32,
    hp: bool,
    bit_depth: usize,
) -> (r: (u64, MotionVector))
    requires
        ctx_wf((fs_ctx(*p_org, *p_ref, po, pmv, lambda, hp, blk_w, blk_h))),
        -0xFE0 <= x - po.x <= 0xFE0,
        -0xFE0 <= y - po.y <= 0xFE0,
    ensures
        r.0 as int == fs_cost(
            (fs_ctx(*p_org, *p_ref, po, pmv, lambda, hp, blk_w, blk_h)),
            x as int,
            y as int,
        ),
        r.1 == fs_mv(po, x as int, y as int),
{
    let mv = MotionVector { row: (8 * (y - po.y)) as i16, col: (8 * (x - po.x)) as i16 };
    if p_ref.check_slot(x, y, blk_w, blk_h) {
        let plane_org = p_org.region(po.x, po.y);
        let plane_ref = p_ref.region(x, y);
        let sad = get_sad(&plane_org, &plane_ref, blk_w, blk_h, bit_depth);
        proof {
            lemma_sad_range(
                *p_org,
                po.x as int,
                po.y as int,
                *p_ref,
                x as int,
                y as int,
                blk_w as nat,
                blk_h as nat,
            );
            assert(0xFFFF * (blk_w as nat) * (blk_h as nat) <= 0xFFFF * 128 * 128)
                by (nonlinear_arith)
                requires
                    0 <= blk_w <= 128,
                    0 <= blk_h <= 128,
            ;
        }
        let rate1 = crate::mv::get_mv_rate(mv, pmv[0], hp);
        let rate2 = crate::mv::get_mv_rate(mv, pmv[1], hp);
        let rate: u32 = if rate1 <= rate2 + 1 {
            rate1
        } else {
            rate2 + 1
        };
        proof {
            assert((rate as int) * (lambda as int) <= 69 * (u32::MAX as int)) by (nonlinear_arith)
                requires
                    0 <= rate <= 69,
                    0 <= lambda <= u32::MAX,
            ;
        }
        (256 * (sad as u64) + (rate as u64) * (lambda as u64), mv)
    } else {
        (u64::MAX, mv)
    }
}

/// Exhaustive scan of the rectangle `[x_lo, x_hi] x [y_lo, y_hi]` at the
/// given stride, in row-major order.  The result is the cheapest point,
/// the earliest on ties; both out-parameters are overwritten.  Any
/// positive stride is accepted, up to a bound that keeps the position
/// arithmetic inside machine integers.
pub fn full_search(
    x_lo: i64,
    x_hi: i64,
    y_lo: i64,
    y_hi: i64,
    blk_h: usize,
    blk_w: usize,
    p_org: &Plane,
    p_ref: &Plane,
    best_mv: &mut MotionVector,
    lowest_cost: &mut u64,
    po: PlaneOffset,
    step: usize,
    bit_depth: usize,
    lambda: u32,
    pmv: [MotionVector; 2],
    allow_high_precision_mv: bool,
)
    requires
        ctx_wf((fs_ctx(*p_org, *p_ref, po, pmv, lambda, allow_high_precision_mv, blk_w, blk_h))),
        1 <= step <= 0x1000,
        x_lo <= x_hi,
        y_lo <= y_hi,
        -0xFE0 <= x_lo - po.x,
        x_hi - po.x <= 0xFE0,
        -0xFE0 <= y_lo - po.y,
        y_hi - po.y <= 0xFE0,
    ensures
        ({
            let c = fs_ctx(*p_org, *p_ref, po, pmv, lambda, allow_high_precision_mv, blk_w, blk_h);
            &&& forall|gx: int, gy: int|
                on_grid(x_lo as int, x_hi as int, step as int, gx) && on_grid(
                    y_lo as int,
                    y_hi as int,
                    step as int,
                    gy,
                ) ==> (*final(lowest_cost)) as int <= #[trigger] fs_cost(c, gx, gy)
            &&& exists|bx: int, by: int|
                {
                    &&& on_grid(x_lo as int, x_hi as int, step as int, bx)
                    &&& on_grid(y_lo as int, y_hi as int, step as int, by)
                    &&& *final(best_mv) == fs_mv(po, bx, by)
                    &&& (*final(lowest_cost)) as int == #[trigger] fs_cost(c, bx, by)
                    &&& forall|gx: int, gy: int|
                        on_grid(x_lo as int, x_hi as int, step as int, gx) && on_grid(
                            y_lo as int,
                            y_hi as int,
                            step as int,
                            gy,
                        ) && (gy < by || (gy == by && gx < bx)) ==> #[trigger] fs_cost(c, gx, gy)
                            > (*final(lowest_cost)) as int
                }
        }),
{
    let ghost c = fs_ctx(*p_org, *p_ref, po, pmv, lambda, allow_high_precision_mv, blk_w, blk_h);
    let mut best_cost: u64 = u64::MAX;
    let mut bmv: MotionVector = MotionVector::default();
    let mut found: bool = false;
    let ghost mut gbx: int = 0;
    let ghost mut gby: int = 0;
    proof {
        vstd::arithmetic::div_mod::lemma_small_mod(0, step as nat);
        assert((y_lo - y_lo) % (step as int) == 0);
    }
    let mut y: i64 = y_lo;
    while y <= y_hi
        invariant
            ctx_wf(c),
            c == fs_ctx(*p_org, *p_ref, po, pmv, lambda, allow_high_precision_mv, blk_w, blk_h),
            1 <= step <= 0x1000,
            x_lo <= x_hi,
            y_lo <= y_hi,
            -0xFE0 <= x_lo - po.x,
            x_hi - po.x <= 0xFE0,
            -0xFE0 <= y_lo - po.y,
            y_hi - po.y <= 0xFE0,
            y_lo <= y <= y_hi + step,
            (y - y_lo) % (step as int) == 0,
            found == (y > y_lo),
            !found ==> best_cost == u64::MAX,
            found ==> {
                &&& on_grid(x_lo as int, x_hi as int, step as int, gbx)
                &&& on_grid(y_lo as int, y_hi as int, step as int, gby)
                &&& gby < y
                &&& bmv == fs_mv(po, gbx, gby)
                &&& best_cost as int == fs_cost(c, gbx, gby)
                &&& forall|gx: int, gy: int|
                    on_grid(x_lo as int, x_hi as int, step as int, gx) && on_grid(
                        y_lo as int,
                        y_hi as int,
                        step as int,
                        gy,
                    ) && (gy < gby || (gy == gby && gx < gbx)) ==> #[trigger] fs_cost(c, gx, gy)
                        > best_cost as int
            },
            forall|gx: int, gy: int|
                on_grid(x_lo as int, x_hi as int, step as int, gx) && on_grid(
                    y_lo as int,
                    y_hi as int,
                    step as int,
                    gy,
                ) && gy < y ==> best_cost as int <= #[trigger] fs_cost(c, gx, gy),
        decreases y_hi + step - y,
    {
        proof {
            vstd::arithmetic::div_mod::lemma_small_mod(0, step as nat);
            assert((x_lo - x_lo) % (step as int) == 0);
        }
        let mut x: i64 = x_lo;
        while x <= x_hi
            invariant
                ctx_wf(c),
                c == fs_ctx(
                    *p_org,
                    *p_ref,
                    po,
                    pmv,
                    lambda,
                    allow_high_precision_mv,
                    blk_w,
                    blk_h,
                ),
                1 <= step <= 0x1000,
                x_lo <= x_hi,
                y_lo <= y <= y_hi,
                -0xFE0 <= x_lo - po.x,
                x_hi - po.x <= 0xFE0,
                -0xFE0 <= y_lo - po.y,
                y_hi - po.y <= 0xFE0,
                x_lo <= x <= x_hi + step,
                (x - x_lo) % (step as int) == 0,
                (y - y_lo) % (step as int) == 0,
                found == (y > y_lo || x > x_lo),
                !found ==> best_cost == u64::MAX,
                found ==> {
                    &&& on_grid(x_lo as int, x_hi as int, step as int, gbx)
                    &&& on_grid(y_lo as int, y_hi as int, step as int, gby)
                    &&& (gby < y || (gby == y && gbx < x))
                    &&& bmv == fs_mv(po, gbx, gby)
                    &&& best_cost as int == fs_cost(c, gbx, gby)
                    &&& forall|gx: int, gy: int|
                        on_grid(x_lo as int, x_hi as int, step as int, gx) && on_grid(
                            y_lo as int,
                            y_hi as int,
                            step as int,
                            gy,
                        ) && (gy < gby || (gy == gby && gx < gbx)) ==> #[trigger] fs_cost(c, gx, gy)
                            > best_cost as int
                },
                forall|gx: int, gy: int|
                    on_grid(x_lo as int, x_hi as int, step as int, gx) && on_grid(
                        y_lo as int,
                        y_hi as int,
                        step as int,
                        gy,
                    ) && (gy < y || (gy == y && gx < x)) ==> best_cost as int <= #[trigger] fs_cost(
                        c,
                        gx,
                        gy,
                    ),
            decreases x_hi + step - x,
        {
            let r = fs_eval(
                p_org,
                p_ref,
                po,
                x,
                y,
                blk_w,
                blk_h,
                pmv,
                lambda,
                allow_high_precision_mv,
                bit_depth,
            );
            if !found || r.0 < best_cost {
                best_cost = r.0;
                bmv = r.1;
                found = true;
                proof {
                    gbx = x as int;
                    gby = y as int;
                }
            }
            proof {
                assert forall|gx: int, gy: int|
                    on_grid(x_lo as int, x_hi as int, step as int, gx) && on_grid(
                        y_lo as int,
                        y_hi as int,
                        step as int,
                        gy,
                    ) && (gy < y || (gy == y && gx < x + step)) implies best_cost as int
                    <= #[trigger] fs_cost(c, gx, gy) by {
                    if gy == y && gx >= x {
                        lemma_grid_gap(x_lo as int, step as int, gx, x as int);
                    }
                }
            }
            proof {
                vstd::arithmetic::div_mod::lemma_mod_multiples_vanish(
                    1,
                    x as int - x_lo as int,
                    step as int,
                );
            }
            x = x + step as i64;
        }
        proof {
            assert forall|gx: int, gy: int|
                on_grid(x_lo as int, x_hi as int, step as int, gx) && on_grid(
                    y_lo as int,
                    y_hi as int,
                    step as int,
                    gy,
                ) && gy < y + step implies best_cost as int <= #[trigger] fs_cost(c, gx, gy) by {
                if gy >= y {
                    lemma_grid_gap(y_lo as int, step as int, gy, y as int);
                }
            }
        }
        proof {
            vstd::arithmetic::div_mod::lemma_mod_multiples_vanish(
                1,
                y as int - y_lo as int,
                step as int,
            );
        }
        y = y + step as i64;
    }
    *lowest_cost = best_cost;
    *best_mv = bmv;
}

/// Telescopic sub-pixel refinement: around the current best vector, the
/// eight neighbors at each step of 8, 4, 2 (and 1 when eighth-pel vectors
/// are allowed) eighth-pels are evaluated through the synthesized
/// prediction; a strict improvement moves the best.  The cost never
/// rises, the result beats every step-8 neighbor of the starting vector,
/// and without eighth-pel vectors the result keeps the start's parity.
pub fn telescopic_subpel_search(
    fi: &FrameInvariants,
    ts: &crate::state::TileState,
    p_ref: &Plane,
    po: PlaneOffset,
    lambda: u32,
    ref_frame: RefType,
    pmv: [MotionVector; 2],
    mvx_min: i64,
    mvx_max: i64,
    mvy_min: i64,
    mvy_max: i64,
    blk_w: usize,
    blk_h: usize,
    best_mv: &mut MotionVector,
    lowest_cost: &mut u64,
)
    requires
        ts.wf(),
        ctx_wf(
            (make_ctx(
                ts.input.planes@[0],
                *p_ref,
                po,
                pmv,
                lambda,
                fi.allow_high_precision_mv,
                mvx_min,
                mvx_max,
                mvy_min,
                mvy_max,
                blk_w,
                blk_h,
            )),
        ),
        mv_in_range(*old(best_mv), mvx_min as int, mvx_max as int, mvy_min as int, mvy_max as int),
    ensures
        ({
            let c = make_ctx(
                ts.input.planes@[0],
                *p_ref,
                po,
                pmv,
                lambda,
                fi.allow_high_precision_mv,
                mvx_min,
                mvx_max,
                mvy_min,
                mvy_max,
                blk_w,
                blk_h,
            );
            &&& (*final(lowest_cost) <= *old(lowest_cost))
            &&& (fi.allow_high_precision_mv || (((*final(best_mv)).row - (*old(best_mv)).row) % 2
                == 0 && ((*final(best_mv)).col - (*old(best_mv)).col) % 2 == 0))
            &&& forall|dy: int, dx: int|
                -1 <= dy <= 1 && -1 <= dx <= 1 && !(dy == 0 && dx == 0)
                    ==> (*final(lowest_cost)) as int <= subpel_cost_spec(
                    c,
                    #[trigger] diamond_cand(*old(best_mv), 8, dy, dx),
                )
            &&& ({
                ||| (*final(best_mv) == *old(best_mv) && *final(lowest_cost) == *old(lowest_cost))
                ||| {
                    &&& (*final(lowest_cost)) as int == subpel_cost_spec(c, *final(best_mv))
                    &&& *final(lowest_cost) < *old(lowest_cost)
                    &&& mv_in_range(
                        *final(best_mv),
                        mvx_min as int,
                        mvx_max as int,
                        mvy_min as int,
                        mvy_max as int,
                    )
                }
            })
        }),
{
    let ghost c = make_ctx(
        ts.input.planes@[0],
        *p_ref,
        po,
        pmv,
        lambda,
        fi.allow_high_precision_mv,
        mvx_min,
        mvx_max,
        mvy_min,
        mvy_max,
        blk_w,
        blk_h,
    );
    let ghost ob = *old(best_mv);
    let p_org: &Plane = &ts.input.planes[0];
    let mut tmp_plane_opt: Option<Plane> = Option::Some(Plane::new(blk_w, blk_h, 0, 0));
    let nsteps: usize = if fi.allow_high_precision_mv {
        4
    } else {
        3
    };
    let mut si: usize = 0;
    while si < nsteps
        invariant
            si <= nsteps <= 4,
            ctx_wf(c),
            c == make_ctx(
                ts.input.planes@[0],
                *p_ref,
                po,
                pmv,
                lambda,
                fi.allow_high_precision_mv,
                mvx_min,
                mvx_max,
                mvy_min,
                mvy_max,
                blk_w,
                blk_h,
            ),
            ob == *old(best_mv),
            fi.allow_high_precision_mv || nsteps == 3,
            *p_org == ts.input.planes@[0],
            match tmp_plane_opt {
                Option::Some(t) => {
                    &&& t.wf()
                    &&& t.cfg.xorigin == 0
                    &&& t.cfg.yorigin == 0
                    &&& t.cfg.stride == blk_w
                    &&& t.cfg.alloc_height == blk_h
                },
                Option::None => false,
            },
            mv_in_range(*best_mv, mvx_min as int, mvx_max as int, mvy_min as int, mvy_max as int),
            *lowest_cost <= *old(lowest_cost),
            fi.allow_high_precision_mv || (((*best_mv).row - ob.row) % 2 == 0 && ((*best_mv).col
                - ob.col) % 2 == 0),
            si == 0 ==> *best_mv == ob,
            si >= 1 ==> forall|dy: int, dx: int|
                -1 <= dy <= 1 && -1 <= dx <= 1 && !(dy == 0 && dx == 0) ==> (*lowest_cost) as int
                    <= subpel_cost_spec(c, #[trigger] diamond_cand(ob, 8, dy, dx)),
            (*best_mv == *old(best_mv) && *lowest_cost == *old(lowest_cost)) || ((*lowest_cost)
                as int == subpel_cost_spec(c, *best_mv) && *lowest_cost < *old(lowest_cost)),
        decreases nsteps - si,
    {
        let step: i16 = if si == 0 {
            8
        } else if si == 1 {
            4
        } else if si == 2 {
            2
        } else {
            1
        };
        let center_mv_h = *best_mv;
        let mut i: usize = 0;
        while i < 3
            invariant
                i <= 3,
                1 <= step <= 8,
                si == 0 ==> step == 8,
                fi.allow_high_precision_mv || (step as int) % 2 == 0,
                ctx_wf(c),
                c == make_ctx(
                    ts.input.planes@[0],
                    *p_ref,
                    po,
                    pmv,
                    lambda,
                    fi.allow_high_precision_mv,
                    mvx_min,
                    mvx_max,
                    mvy_min,
                    mvy_max,
                    blk_w,
                    blk_h,
                ),
                ob == *old(best_mv),
                *p_org == ts.input.planes@[0],
                match tmp_plane_opt {
                    Option::Some(t) => {
                        &&& t.wf()
                        &&& t.cfg.xorigin == 0
                        &&& t.cfg.yorigin == 0
                        &&& t.cfg.stride == blk_w
                        &&& t.cfg.alloc_height == blk_h
                    },
                    Option::None => false,
                },
                mv_in_range(
                    center_mv_h,
                    mvx_min as int,
                    mvx_max as int,
                    mvy_min as int,
                    mvy_max as int,
                ),
                mv_in_range(
                    *best_mv,
                    mvx_min as int,
                    mvx_max as int,
                    mvy_min as int,
                    mvy_max as int,
                ),
                *lowest_cost <= *old(lowest_cost),
                fi.allow_high_precision_mv || ((center_mv_h.row - ob.row) % 2 == 0 && (
                center_mv_h.col - ob.col) % 2 == 0),
                fi.allow_high_precision_mv || (((*best_mv).row - ob.row) % 2 == 0 && ((
                *best_mv).col - ob.col) % 2 == 0),
                si == 0 ==> center_mv_h == ob,
                si == 0 ==> forall|dy: int, dx: int|
                    -1 <= dy <= 1 && -1 <= dx <= 1 && !(dy == 0 && dx == 0) && dy < i - 1
                        ==> (*lowest_cost) as int <= subpel_cost_spec(
                        c,
                        #[trigger] diamond_cand(ob, 8, dy, dx),
                    ),
                si >= 1 ==> forall|dy: int, dx: int|
                    -1 <= dy <= 1 && -1 <= dx <= 1 && !(dy == 0 && dx == 0) ==> (*lowest_cost)
                        as int <= subpel_cost_spec(c, #[trigger] diamond_cand(ob, 8, dy, dx)),
                (*best_mv == *old(best_mv) && *lowest_cost == *old(lowest_cost)) || ((*lowest_cost)
                    as int == subpel_cost_spec(c, *best_mv) && *lowest_cost < *old(lowest_cost)),
            decreases 3 - i,
        {
            let mut j: usize = 0;
            while j < 3
                invariant
                    j <= 3,
                    i < 3,
                    1 <= step <= 8,
                    si == 0 ==> step == 8,
                    fi.allow_high_precision_mv || (step as int) % 2 == 0,
                    ctx_wf(c),
                    c == make_ctx(
                        ts.input.planes@[0],
                        *p_ref,
                        po,
                        pmv,
                        lambda,
                        fi.allow_high_precision_mv,
                        mvx_min,
                        mvx_max,
                        mvy_min,
                        mvy_max,
                        blk_w,
                        blk_h,
                    ),
                    ob == *old(best_mv),
                    *p_org == ts.input.planes@[0],
                    match tmp_plane_opt {
                        Option::Some(t) => {
                            &&& t.wf()
                            &&& t.cfg.xorigin == 0
                            &&& t.cfg.yorigin == 0
                            &&& t.cfg.stride == blk_w
                            &&& t.cfg.alloc_height == blk_h
                        },
                        Option::None => false,
                    },
                    mv_in_range(
                        center_mv_h,
                        mvx_min as int,
                        mvx_max as int,
                        mvy_min as int,
                        mvy_max as int,
                    ),
                    mv_in_range(
                        *best_mv,
                        mvx_min as int,
                        mvx_max as int,
                        mvy_min as int,
                        mvy_max as int,
                    ),
                    *lowest_cost <= *old(lowest_cost),
                    fi.allow_high_precision_mv || ((center_mv_h.row - ob.row) % 2 == 0 && (
                    center_mv_h.col - ob.col) % 2 == 0),
                    fi.allow_high_precision_mv || (((*best_mv).row - ob.row) % 2 == 0 && ((
                    *best_mv).col - ob.col) % 2 == 0),
                    si == 0 ==> center_mv_h == ob,
                    si == 0 ==> forall|dy: int, dx: int|
                        -1 <= dy <= 1 && -1 <= dx <= 1 && !(dy == 0 && dx == 0) && (dy < i - 1 || (
                        dy == i - 1 && dx < j - 1)) ==> (*lowest_cost) as int <= subpel_cost_spec(
                            c,
                            #[trigger] diamond_cand(ob, 8, dy, dx),
                        ),
                    si >= 1 ==> forall|dy: int, dx: int|
                        -1 <= dy <= 1 && -1 <= dx <= 1 && !(dy == 0 && dx == 0) ==> (*lowest_cost)
                            as int <= subpel_cost_spec(c, #[trigger] diamond_cand(ob, 8, dy, dx)),
                    (*best_mv == *old(best_mv) && *lowest_cost == *old(lowest_cost)) || ((
                    *lowest_cost) as int == subpel_cost_spec(c, *best_mv) && *lowest_cost < *old(
                        lowest_cost,
                    )),
                decreases 3 - j,
            {
                // Skip the center point: it carries the current best cost.
                if !(i == 1 && j == 1) {
                    proof {
                        assert(-8 <= (step as int) * ((i as int) - 1) <= 8 && -8 <= (step as int)
                            * ((j as int) - 1) <= 8) by (nonlinear_arith)
                            requires
                                1 <= step <= 8,
                                0 <= i < 3,
                                0 <= j < 3,
                        ;
                    }
                    let cr: i32 = (center_mv_h.row as i32) + (step as i32) * ((i as i32) - 1);
                    let cc_: i32 = (center_mv_h.col as i32) + (step as i32) * ((j as i32) - 1);
                    let cand_mv = MotionVector { row: cr as i16, col: cc_ as i16 };
                    let cost = get_mv_rd_cost(
                        fi,
                        po,
                        p_org,
                        p_ref,
                        fi.sequence.bit_depth,
                        pmv,
                        lambda,
                        mvx_min,
                        mvx_max,
                        mvy_min,
                        mvy_max,
                        blk_w,
                        blk_h,
                        cand_mv,
                        &mut tmp_plane_opt,
                        ref_frame,
                    );
                    proof {
                        if si == 0 {
                            assert(cand_mv == diamond_cand(ob, 8, (i as int) - 1, (j as int) - 1));
                        }
                        if !fi.allow_high_precision_mv {
                            crate::mv::lemma_mod_step(
                                center_mv_h.row - ob.row,
                                step as int,
                                (i as int) - 1,
                                2,
                            );
                            crate::mv::lemma_mod_step(
                                center_mv_h.col - ob.col,
                                step as int,
                                (j as int) - 1,
                                2,
                            );
                        }
                    }
                    if cost < *lowest_cost {
                        proof {
                            lemma_cand_cost(c, true, cand_mv);
                        }
                        *lowest_cost = cost;
                        *best_mv = cand_mv;
                    }
                }
                j = j + 1;
            }
            i = i + 1;
        }
        si = si + 1;
    }
}

} // verus!
