use crate::cost::{ctx_wf, fullpel_cost_spec, make_ctx, mv_in_range, subpel_cost_spec, MeCtx};
use crate::grid::{FrameMotionVectors, ReferenceFrame, TileMotionVectors};
use crate::mv::{
    div_trunc_i32, floor_div_i64, lemma_trunc_div_bound, trunc_div, zero_mv, MotionVector,
};
use crate::predictors::{get_subset_predictors, mv_list_slice};
use crate::plane::clamp_int;
use crate::search::{
    best_pred_spec, cand_cost, cand_ok, diamond_cand, diamond_me_search, fs_ctx, fs_cost, fs_mv,
    full_search, lemma_cand_cost, on_grid, telescopic_subpel_search,
};
use crate::state::{FrameInvariants, TileState};
use crate::types::{BlockOffset, BlockSize, PlaneOffset, RefType};
use vstd::prelude::*;

verus! {

/// The vector rectangle a block may search, in eighth-pels: the block
/// may move to anywhere in the frame plus a border of 16 pixels and one
/// block dimension on each side.
pub open spec fn mv_range_spec(
    w_in_b: int,
    h_in_b: int,
    bo_x: int,
    bo_y: int,
    blk_w: int,
    blk_h: int,
) -> (int, int, int, int) {
    let border_w = 128 + blk_w * 8;
    let border_h = 128 + blk_h * 8;
    let mvx_min = -bo_x * 32 - border_w;
    let mvx_max = (w_in_b - bo_x - blk_w / 4) * 32 + border_w;
    let mvy_min = -bo_y * 32 - border_h;
    let mvy_max = (h_in_b - bo_y - blk_h / 4) * 32 + border_h;
    (mvx_min, mvx_max, mvy_min, mvy_max)
}

fn get_mv_range(
    w_in_b: usize,
    h_in_b: usize,
    bo: BlockOffset,
    blk_w: usize,
    blk_h: usize,
) -> (r: (i64, i64, i64, i64))
    requires
        w_in_b <= 0x2000,
        h_in_b <= 0x2000,
        bo.x + blk_w / 4 <= w_in_b,
        bo.y + blk_h / 4 <= h_in_b,
        blk_w <= 128,
        blk_h <= 128,
    ensures
        (r.0 as int, r.1 as int, r.2 as int, r.3 as int) == mv_range_spec(
            w_in_b as int,
            h_in_b as int,
            bo.x as int,
            bo.y as int,
            blk_w as int,
            blk_h as int,
        ),
        r.0 <= 0 <= r.1,
        r.2 <= 0 <= r.3,
{
    let border_w: i64 = 128 + (blk_w as i64) * 8;
    let border_h: i64 = 128 + (blk_h as i64) * 8;
    let mvx_min: i64 = -(bo.x as i64) * 32 - border_w;
    let mvx_max: i64 = ((w_in_b - bo.x - blk_w / 4) as i64) * 32 + border_w;
    let mvy_min: i64 = -(bo.y as i64) * 32 - border_h;
    let mvy_max: i64 = ((h_in_b - bo.y - blk_h / 4) as i64) * 32 + border_h;
    (mvx_min, mvx_max, mvy_min, mvy_max)
}

/// The block offset clamped so the whole block lies inside the tile.
pub open spec fn adjust_bo_spec(
    bo: BlockOffset,
    mi_width: int,
    mi_height: int,
    blk_w: int,
    blk_h: int,
) -> BlockOffset {
    let limit_x = mi_width - blk_w / 4;
    let limit_y = mi_height - blk_h / 4;
    BlockOffset {
        x: (if bo.x > limit_x {
            if limit_x < 0 {
                0
            } else {
                limit_x
            }
        } else {
            bo.x as int
        }) as usize,
        y: (if bo.y > limit_y {
            if limit_y < 0 {
                0
            } else {
                limit_y
            }
        } else {
            bo.y as int
        }) as usize,
    }
}

fn adjust_bo(
    bo: BlockOffset,
    mi_width: usize,
    mi_height: usize,
    blk_w: usize,
    blk_h: usize,
) -> (adj: BlockOffset)
    requires
        mi_width <= 0x2000,
        mi_height <= 0x2000,
        bo.x <= 0x2000,
        bo.y <= 0x2000,
        blk_w <= 128,
        blk_h <= 128,
    ensures
        adj == adjust_bo_spec(bo, mi_width as int, mi_height as int, blk_w as int, blk_h as int),
        blk_w / 4 <= mi_width ==> adj.x + blk_w / 4 <= mi_width,
        blk_h / 4 <= mi_height ==> adj.y + blk_h / 4 <= mi_height,
        adj.x <= 0x2000 && adj.y <= 0x2000,
{
    let limit_x: i64 = (mi_width as i64) - (blk_w as i64) / 4;
    let limit_y: i64 = (mi_height as i64) - (blk_h as i64) / 4;
    let ax: i64 = if (bo.x as i64) > limit_x {
        if limit_x < 0 {
            0
        } else {
            limit_x
        }
    } else {
        bo.x as i64
    };
    let ay: i64 = if (bo.y as i64) > limit_y {
        if limit_y < 0 {
            0
        } else {
            limit_y
        }
    } else {
        bo.y as i64
    };
    BlockOffset { x: ax as usize, y: ay as usize }
}

/// Rounding an eighth-pel bound toward zero to whole pixels and scaling
/// back never leaves the bound's side of zero, nor tightens past it.
proof fn lemma_trunc8_range(m: int)
    ensures
        m <= 0 ==> m <= 8 * trunc_div(m, 8) <= 0,
        m >= 0 ==> 0 <= 8 * trunc_div(m, 8) <= m,
{
    if m >= 0 {
        vstd::arithmetic::div_mod::lemma_fundamental_div_mod(m, 8);
        vstd::arithmetic::div_mod::lemma_div_pos_is_pos(m, 8);
    } else {
        vstd::arithmetic::div_mod::lemma_fundamental_div_mod(-m, 8);
        vstd::arithmetic::div_mod::lemma_div_pos_is_pos(-m, 8);
    }
}

/// A point of a dense scan whose vector stays inside the allowed
/// rectangle has the scan cost of the matching whole-pixel candidate.
proof fn lemma_fs_fullpel(c: MeCtx, czero: MeCtx, x: int, y: int)
    requires
        ctx_wf(c),
        czero == (MeCtx { mvx_min: 0, mvx_max: 0, mvy_min: 0, mvy_max: 0, ..c }),
        c.mvx_min <= 8 * (x - c.po.x) <= c.mvx_max,
        c.mvy_min <= 8 * (y - c.po.y) <= c.mvy_max,
    ensures
        fs_cost(czero, x, y) == fullpel_cost_spec(c, fs_mv(c.po, x, y)),
        mv_in_range(fs_mv(c.po, x, y), c.mvx_min, c.mvx_max, c.mvy_min, c.mvy_max),
{
    let tx = x - c.po.x;
    let ty = y - c.po.y;
    let mv = fs_mv(c.po, x, y);
    assert(mv.col == 8 * tx && mv.row == 8 * ty);
    assert(trunc_div(8 * tx, 8) == tx && trunc_div(8 * ty, 8) == ty) by {
        assert((8 * tx) / 8 == tx && (8 * ty) / 8 == ty && (8 * (-tx)) / 8 == -tx && (8 * (-ty))
            / 8 == -ty) by (nonlinear_arith);
        assert(-(8 * tx) == 8 * (-tx) && -(8 * ty) == 8 * (-ty));
    }
}

/// Pixel position of the block at `tile_bo` in the full-resolution luma.
pub open spec fn luma_po(ts: TileState, tile_bo: BlockOffset) -> PlaneOffset {
    PlaneOffset {
        x: (4 * (ts.mi_x + tile_bo.x)) as i64,
        y: (4 * (ts.mi_y + tile_bo.y)) as i64,
    }
}

/// Pixel position of the block at `tile_bo` in the half-resolution luma.
pub open spec fn hres_po(ts: TileState, tile_bo: BlockOffset) -> PlaneOffset {
    PlaneOffset {
        x: (2 * (ts.mi_x + tile_bo.x)) as i64,
        y: (2 * (ts.mi_y + tile_bo.y)) as i64,
    }
}

/// The evaluation context of a full-resolution search for the block at
/// `tile_bo` against reference `rec`.
pub open spec fn fullres_ctx(
    fi: FrameInvariants,
    ts: TileState,
    rec: ReferenceFrame,
    tile_bo: BlockOffset,
    lambda: u32,
    pmv: [MotionVector; 2],
    mvx_min: i64,
    mvx_max: i64,
    mvy_min: i64,
    mvy_max: i64,
    blk_w: usize,
    blk_h: usize,
) -> MeCtx {
    make_ctx(
        ts.input.planes@[0],
        rec.frame.planes@[0],
        luma_po(ts, tile_bo),
        pmv,
        lambda,
        fi.allow_high_precision_mv,
        mvx_min,
        mvx_max,
        mvy_min,
        mvy_max,
        blk_w,
        blk_h,
    )
}

/// The evaluation context of a half-resolution search: halved block,
/// halved position, halved vector rectangle.
pub open spec fn hres_ctx(
    fi: FrameInvariants,
    ts: TileState,
    rec: ReferenceFrame,
    tile_bo_adj: BlockOffset,
    global_mv: [MotionVector; 2],
    lambda: u32,
    mvx_min: i64,
    mvx_max: i64,
    mvy_min: i64,
    mvy_max: i64,
    blk_w: usize,
    blk_h: usize,
) -> MeCtx {
    make_ctx(
        ts.input_hres,
        rec.input_hres,
        hres_po(ts, tile_bo_adj),
        global_mv,
        lambda,
        fi.allow_high_precision_mv,
        (((mvx_min as int) / 2) as i64),
        (((mvx_max as int) / 2) as i64),
        (((mvy_min as int) / 2) as i64),
        (((mvy_max as int) / 2) as i64),
        ((blk_w / 2) as usize),
        ((blk_h / 2) as usize),
    )
}

/// Both components arithmetically shifted right by one (floored), as
/// seeds are rescaled for the half-resolution planes.
pub open spec fn halve_mv(v: MotionVector) -> MotionVector {
    MotionVector { row: ((v.row as int) / 2) as i16, col: ((v.col as int) / 2) as i16 }
}

/// Every vector of a sequence halved.
pub open spec fn halve_seq(s: Seq<MotionVector>) -> Seq<MotionVector> {
    s.map_values(|v: MotionVector| halve_mv(v))
}

/// One axis bound of a whole-pixel scan window: the seed rounded toward
/// zero to whole pixels, stepped by `offset`, clamped into the vector
/// rectangle rounded likewise.
pub open spec fn scan_bound(seed: int, offset: int, lo: int, hi: int) -> int {
    clamp_int(trunc_div(seed, 8) + offset, trunc_div(lo, 8), trunc_div(hi, 8))
}

/// No seed at all.
pub open spec fn all_seeds_none(pmvs: [Option<MotionVector>; 3]) -> bool {
    &&& pmvs[0] is None
    &&& pmvs[1] is None
    &&& pmvs[2] is None
}

/// Index of the last present seed among the first `n`; -1 with none.
pub open spec fn last_seed_idx(pmvs: [Option<MotionVector>; 3], n: int) -> int
    decreases n,
{
    if n <= 0 {
        -1
    } else if pmvs[n - 1] is Some {
        n - 1
    } else {
        last_seed_idx(pmvs, n - 1)
    }
}

/// The last-seed index is the sentinel or a real position.
proof fn lemma_last_seed_idx_range(pmvs: [Option<MotionVector>; 3], n: int)
    requires
        0 <= n,
    ensures
        last_seed_idx(pmvs, n) == -1 || 0 <= last_seed_idx(pmvs, n) < n,
    decreases n,
{
    if n > 0 {
        lemma_last_seed_idx_range(pmvs, n - 1);
    }
}

/// The last present seed; the coarse searches run in seed order, so its
/// search wrote the surviving result.
pub open spec fn last_seed(pmvs: [Option<MotionVector>; 3]) -> MotionVector {
    match pmvs[last_seed_idx(pmvs, 3)] {
        Option::Some(v) => v,
        Option::None => zero_mv(),
    }
}

/// The half-resolution evaluation context, over explicit rate vectors:
/// halved planes, position, rectangle and block.
pub open spec fn hres_ctx2(
    fi: FrameInvariants,
    ts: TileState,
    rec: ReferenceFrame,
    tile_bo_adj: BlockOffset,
    pmv0: MotionVector,
    pmv1: MotionVector,
    lambda: u32,
    mvx_min: i64,
    mvx_max: i64,
    mvy_min: i64,
    mvy_max: i64,
    blk_w: usize,
    blk_h: usize,
) -> MeCtx {
    MeCtx {
        p_org: ts.input_hres,
        p_ref: rec.input_hres,
        po: hres_po(ts, tile_bo_adj),
        pmv0,
        pmv1,
        lambda: lambda as int,
        hp: fi.allow_high_precision_mv,
        mvx_min: (mvx_min as int) / 2,
        mvx_max: (mvx_max as int) / 2,
        mvy_min: (mvy_min as int) / 2,
        mvy_max: (mvy_max as int) / 2,
        w: (blk_w / 2) as nat,
        h: (blk_h / 2) as nat,
    }
}

/// What one half-resolution diamond pass leaves behind: an exact, finite
/// whole-pixel cost inside the halved rectangle.
pub open spec fn hres_diamond_facts(
    fi: FrameInvariants,
    ts: TileState,
    rec: ReferenceFrame,
    tile_bo_adj: BlockOffset,
    gmv0: MotionVector,
    gmv1: MotionVector,
    lambda: u32,
    mvx_min: i64,
    mvx_max: i64,
    mvy_min: i64,
    mvy_max: i64,
    blk_w: usize,
    blk_h: usize,
    best: MotionVector,
    cost: int,
) -> bool {
    let ch = hres_ctx2(
        fi,
        ts,
        rec,
        tile_bo_adj,
        gmv0,
        gmv1,
        lambda,
        mvx_min,
        mvx_max,
        mvy_min,
        mvy_max,
        blk_w,
        blk_h,
    );
    &&& cost == fullpel_cost_spec(ch, best)
    &&& cost < u64::MAX as int
    &&& mv_in_range(best, ch.mvx_min, ch.mvx_max, ch.mvy_min, ch.mvy_max)
}

/// What one half-resolution diamond pass leaves behind, tied to the
/// seeds it ran on: the facts above, a cost no greater than that of any
/// of the seed's halved predictors, and local optimality against the
/// compass neighbors at the end radius.
pub open spec fn hres_diamond_seed_facts(
    fi: FrameInvariants,
    ts: TileState,
    rec: ReferenceFrame,
    tile_bo_adj: BlockOffset,
    tile_grid: FrameMotionVectors,
    tx: int,
    ty: int,
    tcols: int,
    prev: Option<FrameMotionVectors>,
    seed: MotionVector,
    gmv0: MotionVector,
    gmv1: MotionVector,
    lambda: u32,
    mvx_min: i64,
    mvx_max: i64,
    mvy_min: i64,
    mvy_max: i64,
    blk_w: usize,
    blk_h: usize,
    best: MotionVector,
    cost: int,
) -> bool {
    let ch = hres_ctx2(
        fi,
        ts,
        rec,
        tile_bo_adj,
        gmv0,
        gmv1,
        lambda,
        mvx_min,
        mvx_max,
        mvy_min,
        mvy_max,
        blk_w,
        blk_h,
    );
    let preds = halve_seq(
        crate::predictors::predictors_spec(tile_grid, tx, ty, tcols, tile_bo_adj, seed, prev),
    );
    &&& hres_diamond_facts(
        fi,
        ts,
        rec,
        tile_bo_adj,
        gmv0,
        gmv1,
        lambda,
        mvx_min,
        mvx_max,
        mvy_min,
        mvy_max,
        blk_w,
        blk_h,
        best,
        cost,
    )
    &&& forall|i: int| 0 <= i < preds.len() ==> cost <= cand_cost(ch, false, #[trigger] preds[i])
    &&& cost <= cand_cost(ch, false, (diamond_cand(best, 8, 1, 0)))
    &&& cost <= cand_cost(ch, false, (diamond_cand(best, 8, 0, 1)))
    &&& cost <= cand_cost(ch, false, (diamond_cand(best, 8, -1, 0)))
    &&& cost <= cand_cost(ch, false, (diamond_cand(best, 8, 0, -1)))
}

/// What one half-resolution dense scan over `seed`'s window leaves
/// behind: the row-major-earliest minimum of the stride-1 scan, with
/// whole-pel components.
pub open spec fn hres_scan_facts(
    fi: FrameInvariants,
    ts: TileState,
    rec: ReferenceFrame,
    tile_bo_adj: BlockOffset,
    seed: MotionVector,
    lambda: u32,
    mvx_min: i64,
    mvx_max: i64,
    mvy_min: i64,
    mvy_max: i64,
    blk_w: usize,
    blk_h: usize,
    best: MotionVector,
    cost: int,
) -> bool {
    let po2 = hres_po(ts, tile_bo_adj);
    let czero = MeCtx {
        p_org: ts.input_hres,
        p_ref: rec.input_hres,
        po: po2,
        pmv0: zero_mv(),
        pmv1: zero_mv(),
        lambda: lambda as int,
        hp: fi.allow_high_precision_mv,
        mvx_min: 0,
        mvx_max: 0,
        mvy_min: 0,
        mvy_max: 0,
        w: (blk_w / 2) as nat,
        h: (blk_h / 2) as nat,
    };
    let x_lo = po2.x + scan_bound(seed.col as int, -16, mvx_min as int, mvx_max as int) / 2;
    let x_hi = po2.x + scan_bound(seed.col as int, 16, mvx_min as int, mvx_max as int) / 2;
    let y_lo = po2.y + scan_bound(seed.row as int, -16, mvy_min as int, mvy_max as int) / 2;
    let y_hi = po2.y + scan_bound(seed.row as int, 16, mvy_min as int, mvy_max as int) / 2;
    &&& best.row % 8 == 0
    &&& best.col % 8 == 0
    &&& forall|gx: int, gy: int|
        on_grid(x_lo, x_hi, 1, gx) && on_grid(y_lo, y_hi, 1, gy) ==> cost <= #[trigger] fs_cost(
            czero,
            gx,
            gy,
        )
    &&& exists|bx: int, by: int|
        {
            &&& on_grid(x_lo, x_hi, 1, bx)
            &&& on_grid(y_lo, y_hi, 1, by)
            &&& best == fs_mv(po2, bx, by)
            &&& cost == #[trigger] fs_cost(czero, bx, by)
            &&& forall|gx: int, gy: int|
                on_grid(x_lo, x_hi, 1, gx) && on_grid(y_lo, y_hi, 1, gy) && (gy < by || (gy == by
                    && gx < bx)) ==> #[trigger] fs_cost(czero, gx, gy) > cost
        }
}

/// The previous frame, from which temporal predictor candidates come.
pub open spec fn prev_ref_spec(fi: FrameInvariants) -> Option<ReferenceFrame> {
    fi.rec_buffer.frames@[fi.ref_frames@[0] as int]
}

/// The previous frame's first-reference grid, from which the coarse
/// drivers draw temporal candidates.
pub open spec fn prev_grid0(fi: FrameInvariants) -> Option<FrameMotionVectors> {
    match prev_ref_spec(fi) {
        Option::Some(fr) => Option::Some(fr.frame_mvs@[0]),
        Option::None => Option::None,
    }
}

/// The co-located reads of the predictor collector stay inside the
/// previous frame's grid for reference `ref_id`.
pub open spec fn predictors_pre(
    fi: FrameInvariants,
    ts: TileState,
    tile_bo: BlockOffset,
    ref_id: int,
) -> bool {
    match prev_ref_spec(fi) {
        Option::Some(fr) => {
            &&& ref_id < fr.frame_mvs.len()
            &&& ts.mi_x + tile_bo.x < fr.frame_mvs@[ref_id].cols
            &&& ts.mi_y + tile_bo.y < fr.frame_mvs@[ref_id].rows
        },
        Option::None => true,
    }
}

/// What a whole-pixel search step needs of its inputs.
pub open spec fn fullpel_me_pre(
    fi: FrameInvariants,
    ts: TileState,
    rec: ReferenceFrame,
    tile_bo: BlockOffset,
    lambda: u32,
    pmv: [MotionVector; 2],
    mvx_min: i64,
    mvx_max: i64,
    mvy_min: i64,
    mvy_max: i64,
    blk_w: usize,
    blk_h: usize,
    ref_frame: RefType,
) -> bool {
    &&& fi.wf()
    &&& ts.wf()
    &&& rec.wf()
    &&& ref_frame.is_inter()
    &&& ref_frame.index_spec() < ts.mvs.len()
    &&& tile_bo.x < ts.mi_width
    &&& tile_bo.y < ts.mi_height
    &&& ctx_wf(
        fullres_ctx(
            fi,
            ts,
            rec,
            tile_bo,
            lambda,
            pmv,
            mvx_min,
            mvx_max,
            mvy_min,
            mvy_max,
            blk_w,
            blk_h,
        ),
    )
    &&& mvx_min <= 0 <= mvx_max
    &&& mvy_min <= 0 <= mvy_max
    &&& rec.frame.planes@[0].slot_in_bounds(
        luma_po(ts, tile_bo).x as int,
        luma_po(ts, tile_bo).y as int,
        blk_w as int,
        blk_h as int,
    )
    &&& predictors_pre(fi, ts, tile_bo, ref_frame.index_spec() as int)
}

/// What a sub-pixel refinement step needs of its inputs.
pub open spec fn subpel_me_pre(
    fi: FrameInvariants,
    ts: TileState,
    rec: ReferenceFrame,
    tile_bo: BlockOffset,
    lambda: u32,
    pmv: [MotionVector; 2],
    mvx_min: i64,
    mvx_max: i64,
    mvy_min: i64,
    mvy_max: i64,
    blk_w: usize,
    blk_h: usize,
    best_mv: MotionVector,
) -> bool {
    &&& fi.wf()
    &&& ts.wf()
    &&& rec.wf()
    &&& tile_bo.x < ts.mi_width
    &&& tile_bo.y < ts.mi_height
    &&& ctx_wf(
        fullres_ctx(
            fi,
            ts,
            rec,
            tile_bo,
            lambda,
            pmv,
            mvx_min,
            mvx_max,
            mvy_min,
            mvy_max,
            blk_w,
            blk_h,
        ),
    )
    &&& mv_in_range(best_mv, mvx_min as int, mvx_max as int, mvy_min as int, mvy_max as int)
}

/// What the half-resolution coarse step needs of its inputs.
pub open spec fn me_ss2_pre(
    fi: FrameInvariants,
    ts: TileState,
    rec: ReferenceFrame,
    tile_bo_adj: BlockOffset,
    tile_mvs: TileMotionVectors<'_>,
    frame_ref_opt: Option<&ReferenceFrame>,
    global_mv: [MotionVector; 2],
    lambda: u32,
    mvx_min: i64,
    mvx_max: i64,
    mvy_min: i64,
    mvy_max: i64,
    blk_w: usize,
    blk_h: usize,
) -> bool {
    &&& fi.wf()
    &&& ts.wf()
    &&& rec.wf()
    &&& tile_mvs.wf()
    &&& tile_bo_adj.x < tile_mvs.cols
    &&& tile_bo_adj.y < tile_mvs.rows
    &&& tile_bo_adj.x < ts.mi_width
    &&& tile_bo_adj.y < ts.mi_height
    &&& tile_mvs.x == ts.mi_x
    &&& tile_mvs.y == ts.mi_y
    &&& 1 <= blk_w <= 128
    &&& 1 <= blk_h <= 128
    &&& -0x7F00 <= mvx_min && mvx_max <= 0x7F00
    &&& -0x7F00 <= mvy_min && mvy_max <= 0x7F00
    &&& ctx_wf(
        hres_ctx(
            fi,
            ts,
            rec,
            tile_bo_adj,
            global_mv,
            lambda,
            mvx_min,
            mvx_max,
            mvy_min,
            mvy_max,
            blk_w,
            blk_h,
        ),
    )
    &&& mvx_min <= 0 <= mvx_max
    &&& mvy_min <= 0 <= mvy_max
    &&& rec.input_hres.slot_in_bounds(
        hres_po(ts, tile_bo_adj).x as int,
        hres_po(ts, tile_bo_adj).y as int,
        (blk_w / 2) as int,
        (blk_h / 2) as int,
    )
    &&& match frame_ref_opt {
        Option::Some(fr) => {
            &&& fr.wf()
            &&& 0 < fr.frame_mvs.len()
            &&& ts.mi_x + tile_bo_adj.x < fr.frame_mvs@[0].cols
            &&& ts.mi_y + tile_bo_adj.y < fr.frame_mvs@[0].rows
        },
        Option::None => true,
    }
}

/// A full-pixel search strategy together with its sub-pixel refinement
/// and half-resolution coarse step.  The two implementations — diamond
/// refinement and exhaustive scanning — are interchangeable behind this
/// trait.
pub trait MotionEstimation {
    /// What this strategy's whole-pixel step guarantees of its result
    /// beyond cost exactness and range: the diamond bounds the cost by
    /// every collected seed's cost and by the compass neighbors at the
    /// end radius; the exhaustive scan names the row-major-earliest
    /// minimum of its window.
    spec fn full_pixel_guarantee(
        fi: FrameInvariants,
        ts: TileState,
        rec: ReferenceFrame,
        tile_bo: BlockOffset,
        lambda: u32,
        cmv: MotionVector,
        pmv: [MotionVector; 2],
        mvx_min: i64,
        mvx_max: i64,
        mvy_min: i64,
        mvy_max: i64,
        blk_w: usize,
        blk_h: usize,
        ref_frame: RefType,
        best: MotionVector,
        cost: int,
    ) -> bool;

    /// What this strategy's sub-pixel step guarantees: the diamond
    /// refines the incoming vector and never does worse than it; the
    /// telescopic pass never raises the cost and beats every step-8
    /// neighbor of the start.
    spec fn sub_pixel_guarantee(
        fi: FrameInvariants,
        ts: TileState,
        rec: ReferenceFrame,
        tile_bo: BlockOffset,
        lambda: u32,
        pmv: [MotionVector; 2],
        mvx_min: i64,
        mvx_max: i64,
        mvy_min: i64,
        mvy_max: i64,
        blk_w: usize,
        blk_h: usize,
        old_best: MotionVector,
        old_cost: int,
        best: MotionVector,
        cost: int,
    ) -> bool;

    /// What this strategy's half-resolution coarse step guarantees when
    /// at least one seed is present (with none at all, both
    /// out-parameters are unchanged, stated separately): the diamond
    /// leaves an exact, finite cost inside the halved rectangle; the
    /// scan names the row-major-earliest minimum of the last seed's
    /// window.
    spec fn me_ss2_guarantee(
        fi: FrameInvariants,
        ts: TileState,
        rec: ReferenceFrame,
        tile_bo_adj: BlockOffset,
        tile_grid: FrameMotionVectors,
        tx: int,
        ty: int,
        tcols: int,
        prev: Option<FrameMotionVectors>,
        pmvs: [Option<MotionVector>; 3],
        gmv0: MotionVector,
        gmv1: MotionVector,
        lambda: u32,
        mvx_min: i64,
        mvx_max: i64,
        mvy_min: i64,
        mvy_max: i64,
        blk_w: usize,
        blk_h: usize,
        best: MotionVector,
        cost: int,
    ) -> bool;

    /// Whole-pixel search for the block at `tile_bo`.  Overwrites both
    /// out-parameters; the final cost is exactly the whole-pixel cost of
    /// the final vector, which lies inside the vector rectangle.
    fn full_pixel_me(
        fi: &FrameInvariants,
        ts: &TileState,
        rec: &ReferenceFrame,
        tile_bo: BlockOffset,
        lambda: u32,
        cmv: MotionVector,
        pmv: [MotionVector; 2],
        mvx_min: i64,
        mvx_max: i64,
        mvy_min: i64,
        mvy_max: i64,
        blk_w: usize,
        blk_h: usize,
        best_mv: &mut MotionVector,
        lowest_cost: &mut u64,
        ref_frame: RefType,
    )
        requires
            fullpel_me_pre(
                *fi,
                *ts,
                *rec,
                tile_bo,
                lambda,
                pmv,
                mvx_min,
                mvx_max,
                mvy_min,
                mvy_max,
                blk_w,
                blk_h,
                ref_frame,
            ),
        ensures
            ({
                let c = fullres_ctx(
                    *fi,
                    *ts,
                    *rec,
                    tile_bo,
                    lambda,
                    pmv,
                    mvx_min,
                    mvx_max,
                    mvy_min,
                    mvy_max,
                    blk_w,
                    blk_h,
                );
                &&& (*final(lowest_cost)) as int == fullpel_cost_spec(c, *final(best_mv))
                &&& mv_in_range(
                    *final(best_mv),
                    mvx_min as int,
                    mvx_max as int,
                    mvy_min as int,
                    mvy_max as int,
                )
                &&& Self::full_pixel_guarantee(
                    *fi,
                    *ts,
                    *rec,
                    tile_bo,
                    lambda,
                    cmv,
                    pmv,
                    mvx_min,
                    mvx_max,
                    mvy_min,
                    mvy_max,
                    blk_w,
                    blk_h,
                    ref_frame,
                    *final(best_mv),
                    (*final(lowest_cost)) as int,
                )
            }),
    ;

    /// Sub-pixel refinement of the current best vector.  Either leaves
    /// both out-parameters untouched or moves to an in-range vector whose
    /// sub-pixel cost is exactly the final cost.
    fn sub_pixel_me(
        fi: &FrameInvariants,
        ts: &TileState,
        rec: &ReferenceFrame,
        tile_bo: BlockOffset,
        lambda: u32,
        pmv: [MotionVector; 2],
        mvx_min: i64,
        mvx_max: i64,
        mvy_min: i64,
        mvy_max: i64,
        blk_w: usize,
        blk_h: usize,
        best_mv: &mut MotionVector,
        lowest_cost: &mut u64,
        ref_frame: RefType,
    )
        requires
            subpel_me_pre(
                *fi,
                *ts,
                *rec,
                tile_bo,
                lambda,
                pmv,
                mvx_min,
                mvx_max,
                mvy_min,
                mvy_max,
                blk_w,
                blk_h,
                *old(best_mv),
            ),
        ensures
            ({
                let c = fullres_ctx(
                    *fi,
                    *ts,
                    *rec,
                    tile_bo,
                    lambda,
                    pmv,
                    mvx_min,
                    mvx_max,
                    mvy_min,
                    mvy_max,
                    blk_w,
                    blk_h,
                );
                &&& ({
                    ||| (*final(best_mv) == *old(best_mv) && *final(lowest_cost) == *old(
                        lowest_cost,
                    ))
                    ||| {
                        &&& (*final(lowest_cost)) as int == subpel_cost_spec(c, *final(best_mv))
                        &&& mv_in_range(
                            *final(best_mv),
                            mvx_min as int,
                            mvx_max as int,
                            mvy_min as int,
                            mvy_max as int,
                        )
                    }
                })
                &&& Self::sub_pixel_guarantee(
                    *fi,
                    *ts,
                    *rec,
                    tile_bo,
                    lambda,
                    pmv,
                    mvx_min,
                    mvx_max,
                    mvy_min,
                    mvy_max,
                    blk_w,
                    blk_h,
                    *old(best_mv),
                    (*old(lowest_cost)) as int,
                    *final(best_mv),
                    (*final(lowest_cost)) as int,
                )
            }),
    ;

    /// Half-resolution coarse step driven by the given seeds.  On this
    /// shared surface it promises only that an untouched result stays
    /// untouched and a touched one stays small enough to rescale; the
    /// searches each strategy runs underneath carry the exact contracts.
    fn me_ss2(
        fi: &FrameInvariants,
        ts: &TileState,
        pmvs: &[Option<MotionVector>; 3],
        tile_bo_adj: BlockOffset,
        tile_mvs: &TileMotionVectors<'_>,
        frame_ref_opt: Option<&ReferenceFrame>,
        rec: &ReferenceFrame,
        global_mv: [MotionVector; 2],
        lambda: u32,
        mvx_min: i64,
        mvx_max: i64,
        mvy_min: i64,
        mvy_max: i64,
        blk_w: usize,
        blk_h: usize,
        best_mv: &mut MotionVector,
        lowest_cost: &mut u64,
    )
        requires
            me_ss2_pre(
                *fi,
                *ts,
                *rec,
                tile_bo_adj,
                *tile_mvs,
                frame_ref_opt,
                global_mv,
                lambda,
                mvx_min,
                mvx_max,
                mvy_min,
                mvy_max,
                blk_w,
                blk_h,
            ),
        ensures
            (pmvs[0] is None && pmvs[1] is None && pmvs[2] is None) ==> (*final(best_mv) == *old(
                best_mv,
            ) && *final(lowest_cost) == *old(lowest_cost)),
            Self::me_ss2_guarantee(
                *fi,
                *ts,
                *rec,
                tile_bo_adj,
                *tile_mvs.frame_mvs,
                tile_mvs.x as int,
                tile_mvs.y as int,
                tile_mvs.cols as int,
                (match frame_ref_opt {
                    Option::Some(fr) => Option::Some(fr.frame_mvs@[0]),
                    Option::None => Option::None,
                }),
                *pmvs,
                global_mv[0],
                global_mv[1],
                lambda,
                mvx_min,
                mvx_max,
                mvy_min,
                mvy_max,
                blk_w,
                blk_h,
                *final(best_mv),
                (*final(lowest_cost)) as int,
            ),
            ({
                ||| (*final(best_mv) == *old(best_mv) && *final(lowest_cost) == *old(lowest_cost))
                ||| (-0x3F80 <= final(best_mv).row <= 0x3F80 && -0x3F80 <= final(best_mv).col
                    <= 0x3F80)
            }),
    ;

    /// Find the motion vector of the block at `tile_bo` against
    /// `ref_frame`: a whole-pixel search seeded by `cmv` and the
    /// neighborhood predictors, then sub-pixel refinement.  Returns the
    /// neutral vector when the requested reference frame is absent; the
    /// returned vector always lies inside the block's vector rectangle.
    fn motion_estimation(
        fi: &FrameInvariants,
        ts: &TileState,
        bsize: BlockSize,
        tile_bo: BlockOffset,
        ref_frame: RefType,
        cmv: MotionVector,
        pmv: [MotionVector; 2],
    ) -> (mv: MotionVector)
        requires
            motion_estimation_pre(*fi, *ts, bsize, tile_bo, ref_frame),
        ensures
            ({
                let slot = fi.ref_frames@[ref_frame.index_spec() as int];
                match fi.rec_buffer.frames@[slot as int] {
                    Option::None => mv == zero_mv(),
                    Option::Some(rec) => {
                        let r = mv_range_spec(
                            fi.w_in_b as int,
                            fi.h_in_b as int,
                            (ts.mi_x + tile_bo.x) as int,
                            (ts.mi_y + tile_bo.y) as int,
                            bsize.width_spec() as int,
                            bsize.height_spec() as int,
                        );
                        &&& mv_in_range(mv, r.0, r.1, r.2, r.3)
                        &&& exists|b1: MotionVector, c1: int, c2: int|
                            {
                                &&& Self::full_pixel_guarantee(
                                    *fi,
                                    *ts,
                                    rec,
                                    tile_bo,
                                    ((fi.me_lambda_q8 / 2) as u32),
                                    cmv,
                                    pmv,
                                    (r.0 as i64),
                                    (r.1 as i64),
                                    (r.2 as i64),
                                    (r.3 as i64),
                                    bsize.width_spec(),
                                    bsize.height_spec(),
                                    ref_frame,
                                    b1,
                                    c1,
                                )
                                &&& #[trigger] Self::sub_pixel_guarantee(
                                    *fi,
                                    *ts,
                                    rec,
                                    tile_bo,
                                    ((fi.me_lambda_q8 / 2) as u32),
                                    pmv,
                                    (r.0 as i64),
                                    (r.1 as i64),
                                    (r.2 as i64),
                                    (r.3 as i64),
                                    bsize.width_spec(),
                                    bsize.height_spec(),
                                    b1,
                                    c1,
                                    mv,
                                    c2,
                                )
                            }
                    },
                }
            }),
    {
        let ridx = ref_frame.to_index();
        let slot = fi.ref_frames[ridx];
        assert(slot < fi.rec_buffer.frames.len());
        match &fi.rec_buffer.frames[slot] {
            Option::Some(rec) => {
                let blk_w = bsize.width();
                let blk_h = bsize.height();
                let frame_bo = ts.to_frame_block_offset(tile_bo);
                let (mvx_min, mvx_max, mvy_min, mvy_max) = get_mv_range(
                    fi.w_in_b,
                    fi.h_in_b,
                    frame_bo,
                    blk_w,
                    blk_h,
                );

                // Half of the multiplier: a fudge factor of the search.
                let lambda = fi.me_lambda_q8 / 2;

                let mut lowest_cost = u64::MAX;
                let mut best_mv = MotionVector::default();

                Self::full_pixel_me(
                    fi, ts, rec, tile_bo, lambda, cmv, pmv, mvx_min, mvx_max, mvy_min, mvy_max,
                    blk_w, blk_h, &mut best_mv, &mut lowest_cost, ref_frame,
                );
                let ghost b1 = best_mv;
                let ghost c1 = lowest_cost as int;

                Self::sub_pixel_me(
                    fi, ts, rec, tile_bo, lambda, pmv, mvx_min, mvx_max, mvy_min, mvy_max, blk_w,
                    blk_h, &mut best_mv, &mut lowest_cost, ref_frame,
                );
                proof {
                    let rr = mv_range_spec(
                        fi.w_in_b as int,
                        fi.h_in_b as int,
                        (ts.mi_x + tile_bo.x) as int,
                        (ts.mi_y + tile_bo.y) as int,
                        blk_w as int,
                        blk_h as int,
                    );
                    assert(mvx_min == rr.0 as i64 && mvx_max == rr.1 as i64 && mvy_min == rr.2
                        as i64 && mvy_max == rr.3 as i64);
                    assert(lambda == (fi.me_lambda_q8 / 2) as u32);
                    assert(blk_w == bsize.width_spec() && blk_h == bsize.height_spec());
                    assert(Self::full_pixel_guarantee(
                        *fi,
                        *ts,
                        *rec,
                        tile_bo,
                        ((fi.me_lambda_q8 / 2) as u32),
                        cmv,
                        pmv,
                        (rr.0 as i64),
                        (rr.1 as i64),
                        (rr.2 as i64),
                        (rr.3 as i64),
                        bsize.width_spec(),
                        bsize.height_spec(),
                        ref_frame,
                        b1,
                        c1,
                    ));
                    assert(Self::sub_pixel_guarantee(
                        *fi,
                        *ts,
                        *rec,
                        tile_bo,
                        ((fi.me_lambda_q8 / 2) as u32),
                        pmv,
                        (rr.0 as i64),
                        (rr.1 as i64),
                        (rr.2 as i64),
                        (rr.3 as i64),
                        bsize.width_spec(),
                        bsize.height_spec(),
                        b1,
                        c1,
                        best_mv,
                        lowest_cost as int,
                    ));
                }

                best_mv
            },
            Option::None => MotionVector::default(),
        }
    }

    /// Half-resolution coarse search: each seed in `pmvs` (already in
    /// full-resolution eighth-pels) drives the strategy's coarse step on
    /// the half-resolution planes; the result is scaled back, so both of
    /// its components are even.  `None` when the reference is absent.
    #[verifier::rlimit(100)]
    fn estimate_motion_ss2(
        fi: &FrameInvariants,
        ts: &TileState,
        bsize: BlockSize,
        ref_idx: usize,
        tile_bo: BlockOffset,
        pmvs: &[Option<MotionVector>; 3],
        ref_frame: usize,
    ) -> (r: Option<MotionVector>)
        requires
            estimate_motion_ss2_pre(*fi, *ts, bsize, ref_idx, tile_bo, ref_frame),
        ensures
            (r is Some) <==> (fi.rec_buffer.frames@[ref_idx as int] is Some),
            match r {
                Option::Some(v) => v.row % 2 == 0 && v.col % 2 == 0,
                Option::None => true,
            },
            ({
                let blk_w = bsize.width_spec();
                let blk_h = bsize.height_spec();
                let adj = adjust_bo_spec(
                    tile_bo,
                    ts.mi_width as int,
                    ts.mi_height as int,
                    blk_w as int,
                    blk_h as int,
                );
                let rr = mv_range_spec(
                    fi.w_in_b as int,
                    fi.h_in_b as int,
                    (ts.mi_x + adj.x) as int,
                    (ts.mi_y + adj.y) as int,
                    blk_w as int,
                    blk_h as int,
                );
                match fi.rec_buffer.frames@[ref_idx as int] {
                    Option::Some(rec) => {
                        &&& (all_seeds_none(*pmvs) ==> r == Option::Some(zero_mv()))
                        &&& exists|b: MotionVector, cost: int|
                            {
                                &&& #[trigger] Self::me_ss2_guarantee(
                                    *fi,
                                    *ts,
                                    rec,
                                    adj,
                                    ts.mvs@[ref_frame as int],
                                    ts.mi_x as int,
                                    ts.mi_y as int,
                                    ts.mi_width as int,
                                    (prev_grid0(*fi)),
                                    *pmvs,
                                    (zero_mv()),
                                    (zero_mv()),
                                    ((fi.me_lambda_q8 / 32) as u32),
                                    (rr.0 as i64),
                                    (rr.1 as i64),
                                    (rr.2 as i64),
                                    (rr.3 as i64),
                                    blk_w,
                                    blk_h,
                                    b,
                                    cost,
                                )
                                &&& match r {
                                    Option::Some(v) => v.row as int == 2 * b.row && v.col as int
                                        == 2 * b.col,
                                    Option::None => false,
                                }
                            }
                    },
                    Option::None => true,
                }
            }),
    {
        match &fi.rec_buffer.frames[ref_idx] {
            Option::Some(rec) => {
                let blk_w = bsize.width();
                let blk_h = bsize.height();
                let tile_bo_adj = adjust_bo(tile_bo, ts.mi_width, ts.mi_height, blk_w, blk_h);
                let frame_bo_adj = ts.to_frame_block_offset(tile_bo_adj);
                let (mvx_min, mvx_max, mvy_min, mvy_max) = get_mv_range(
                    fi.w_in_b,
                    fi.h_in_b,
                    frame_bo_adj,
                    blk_w,
                    blk_h,
                );

                let global_mv: [MotionVector; 2] = [MotionVector { row: 0, col: 0 }, MotionVector {
                    row: 0,
                    col: 0,
                }];
                let tile_mvs = TileMotionVectors::new(
                    &ts.mvs[ref_frame],
                    ts.mi_x,
                    ts.mi_y,
                    ts.mi_width,
                    ts.mi_height,
                );
                let frame_ref_opt = fi.rec_buffer.frames[fi.ref_frames[0]].as_ref();

                let mut lowest_cost = u64::MAX;
                let mut best_mv = MotionVector::default();

                // An eighth of a quarter of the multiplier: subsampling
                // correction and a fudge factor.
                let lambda = fi.me_lambda_q8 / 32;

                Self::me_ss2(
                    fi, ts, pmvs, tile_bo_adj, &tile_mvs, frame_ref_opt, rec, global_mv, lambda,
                    mvx_min, mvx_max, mvy_min, mvy_max, blk_w, blk_h, &mut best_mv,
                    &mut lowest_cost,
                );

                proof {
                    assert((2 * (best_mv.row as int)) % 2 == 0 && (2 * (best_mv.col as int)) % 2
                        == 0) by (nonlinear_arith);
                    let adj = adjust_bo_spec(
                        tile_bo,
                        ts.mi_width as int,
                        ts.mi_height as int,
                        blk_w as int,
                        blk_h as int,
                    );
                    let rr = mv_range_spec(
                        fi.w_in_b as int,
                        fi.h_in_b as int,
                        (ts.mi_x + adj.x) as int,
                        (ts.mi_y + adj.y) as int,
                        blk_w as int,
                        blk_h as int,
                    );
                    assert(tile_bo_adj == adj);
                    assert(mvx_min == rr.0 as i64 && mvx_max == rr.1 as i64 && mvy_min == rr.2
                        as i64 && mvy_max == rr.3 as i64);
                    assert(global_mv[0] == zero_mv() && global_mv[1] == zero_mv());
                    assert(lambda == (fi.me_lambda_q8 / 32) as u32);
                    assert(blk_w == bsize.width_spec() && blk_h == bsize.height_spec());
                    assert((match frame_ref_opt {
                        Option::Some(fr) => Option::Some(fr.frame_mvs@[0]),
                        Option::None => Option::None,
                    }) == prev_grid0(*fi));
                    assert(*tile_mvs.frame_mvs == ts.mvs@[ref_frame as int]);
                    assert(Self::me_ss2_guarantee(
                        *fi,
                        *ts,
                        *rec,
                        adj,
                        ts.mvs@[ref_frame as int],
                        ts.mi_x as int,
                        ts.mi_y as int,
                        ts.mi_width as int,
                        (prev_grid0(*fi)),
                        *pmvs,
                        (zero_mv()),
                        (zero_mv()),
                        ((fi.me_lambda_q8 / 32) as u32),
                        (rr.0 as i64),
                        (rr.1 as i64),
                        (rr.2 as i64),
                        (rr.3 as i64),
                        blk_w,
                        blk_h,
                        best_mv,
                        lowest_cost as int,
                    ));
                }
                Option::Some(MotionVector { row: best_mv.row * 2, col: best_mv.col * 2 })
            },
            Option::None => Option::None,
        }
    }
}

/// What the full-resolution entry point needs of its inputs.
pub open spec fn motion_estimation_pre(
    fi: FrameInvariants,
    ts: TileState,
    bsize: BlockSize,
    tile_bo: BlockOffset,
    ref_frame: RefType,
) -> bool {
    let blk_w = bsize.width_spec() as int;
    let blk_h = bsize.height_spec() as int;
    let fbo_x = (ts.mi_x + tile_bo.x) as int;
    let fbo_y = (ts.mi_y + tile_bo.y) as int;
    let r = mv_range_spec(fi.w_in_b as int, fi.h_in_b as int, fbo_x, fbo_y, blk_w, blk_h);
    &&& fi.wf()
    &&& ts.wf()
    &&& ref_frame.is_inter()
    &&& ref_frame.index_spec() < ts.mvs.len()
    &&& tile_bo.x < ts.mi_width
    &&& tile_bo.y < ts.mi_height
    &&& fbo_x + blk_w / 4 <= fi.w_in_b
    &&& fbo_y + blk_h / 4 <= fi.h_in_b
    &&& -0x7F00 <= r.0 && r.1 <= 0x7F00
    &&& -0x7F00 <= r.2 && r.3 <= 0x7F00
    &&& match fi.rec_buffer.frames@[fi.ref_frames@[ref_frame.index_spec() as int] as int] {
        Option::Some(rec) => {
            &&& ts.input.planes@[0].slot_in_bounds(
                luma_po(ts, tile_bo).x as int,
                luma_po(ts, tile_bo).y as int,
                blk_w,
                blk_h,
            )
            &&& rec.frame.planes@[0].slot_in_bounds(
                luma_po(ts, tile_bo).x as int,
                luma_po(ts, tile_bo).y as int,
                blk_w,
                blk_h,
            )
            &&& predictors_pre(fi, ts, tile_bo, ref_frame.index_spec() as int)
        },
        Option::None => true,
    }
}

/// What the half-resolution entry point needs of its inputs.
pub open spec fn estimate_motion_ss2_pre(
    fi: FrameInvariants,
    ts: TileState,
    bsize: BlockSize,
    ref_idx: usize,
    tile_bo: BlockOffset,
    ref_frame: usize,
) -> bool {
    let blk_w = bsize.width_spec();
    let blk_h = bsize.height_spec();
    let adj = adjust_bo_spec(
        tile_bo,
        ts.mi_width as int,
        ts.mi_height as int,
        blk_w as int,
        blk_h as int,
    );
    let fbo_x = (ts.mi_x + adj.x) as int;
    let fbo_y = (ts.mi_y + adj.y) as int;
    let r = mv_range_spec(
        fi.w_in_b as int,
        fi.h_in_b as int,
        fbo_x,
        fbo_y,
        blk_w as int,
        blk_h as int,
    );
    &&& fi.wf()
    &&& ts.wf()
    &&& ref_idx < fi.rec_buffer.frames.len()
    &&& ref_frame < ts.mvs.len()
    &&& tile_bo.x <= 0x2000
    &&& tile_bo.y <= 0x2000
    &&& blk_w / 4 <= ts.mi_width
    &&& blk_h / 4 <= ts.mi_height
    &&& ts.mi_x + ts.mi_width <= fi.w_in_b
    &&& ts.mi_y + ts.mi_height <= fi.h_in_b
    &&& -0x7F00 <= r.0 && r.1 <= 0x7F00
    &&& -0x7F00 <= r.2 && r.3 <= 0x7F00
    &&& match fi.rec_buffer.frames@[ref_idx as int] {
        Option::Some(rec) => {
            &&& ts.input_hres.slot_in_bounds(
                hres_po(ts, adj).x as int,
                hres_po(ts, adj).y as int,
                (blk_w / 2) as int,
                (blk_h / 2) as int,
            )
            &&& rec.input_hres.slot_in_bounds(
                hres_po(ts, adj).x as int,
                hres_po(ts, adj).y as int,
                (blk_w / 2) as int,
                (blk_h / 2) as int,
            )
            &&& predictors_pre(fi, ts, adj, 0)
        },
        Option::None => true,
    }
}

/// The diamond strategy: predictor-seeded diamond refinement at whole
/// pixels, shrinking-radius diamond refinement at sub-pixel resolution.
pub struct DiamondSearch {}

/// The exhaustive strategy: a dense rectangular scan at whole pixels,
/// telescopic stepping at sub-pixel resolution.
pub struct FullSearch {}

impl MotionEstimation for DiamondSearch {
    /// The final cost undercuts every collected seed's whole-pixel cost
    /// and every compass neighbor of the result at the end radius of 8
    /// eighth-pels, and beats the sentinel.
    open spec fn full_pixel_guarantee(
        fi: FrameInvariants,
        ts: TileState,
        rec: ReferenceFrame,
        tile_bo: BlockOffset,
        lambda: u32,
        cmv: MotionVector,
        pmv: [MotionVector; 2],
        mvx_min: i64,
        mvx_max: i64,
        mvy_min: i64,
        mvy_max: i64,
        blk_w: usize,
        blk_h: usize,
        ref_frame: RefType,
        best: MotionVector,
        cost: int,
    ) -> bool {
        let c = fullres_ctx(
            fi,
            ts,
            rec,
            tile_bo,
            lambda,
            pmv,
            mvx_min,
            mvx_max,
            mvy_min,
            mvy_max,
            blk_w,
            blk_h,
        );
        let preds = crate::predictors::predictors_spec(
            ts.mvs@[ref_frame.index_spec() as int],
            ts.mi_x as int,
            ts.mi_y as int,
            ts.mi_width as int,
            tile_bo,
            cmv,
            (match prev_ref_spec(fi) {
                Option::Some(fr) => Option::Some(fr.frame_mvs@[ref_frame.index_spec() as int]),
                Option::None => Option::None,
            }),
        );
        &&& cost == fullpel_cost_spec(c, best)
        &&& cost < u64::MAX as int
        &&& mv_in_range(best, mvx_min as int, mvx_max as int, mvy_min as int, mvy_max as int)
        &&& forall|i: int| 0 <= i < preds.len() ==> cost <= cand_cost(c, false, #[trigger] preds[i])
        &&& cost <= cand_cost(c, false, (diamond_cand(best, 8, 1, 0)))
        &&& cost <= cand_cost(c, false, (diamond_cand(best, 8, 0, 1)))
        &&& cost <= cand_cost(c, false, (diamond_cand(best, 8, -1, 0)))
        &&& cost <= cand_cost(c, false, (diamond_cand(best, 8, 0, -1)))
    }

    /// The sub-pixel diamond is seeded with exactly the incoming vector:
    /// the final cost is exact, finite, no worse than the seed's
    /// sub-pixel cost, and without eighth-pel vectors the result keeps
    /// the seed's parity.
    open spec fn sub_pixel_guarantee(
        fi: FrameInvariants,
        ts: TileState,
        rec: ReferenceFrame,
        tile_bo: BlockOffset,
        lambda: u32,
        pmv: [MotionVector; 2],
        mvx_min: i64,
        mvx_max: i64,
        mvy_min: i64,
        mvy_max: i64,
        blk_w: usize,
        blk_h: usize,
        old_best: MotionVector,
        old_cost: int,
        best: MotionVector,
        cost: int,
    ) -> bool {
        let c = fullres_ctx(
            fi,
            ts,
            rec,
            tile_bo,
            lambda,
            pmv,
            mvx_min,
            mvx_max,
            mvy_min,
            mvy_max,
            blk_w,
            blk_h,
        );
        &&& cost == subpel_cost_spec(c, best)
        &&& cost < u64::MAX as int
        &&& cost <= subpel_cost_spec(c, old_best)
        &&& (fi.allow_high_precision_mv || ((best.row - old_best.row) % 2 == 0 && (best.col
            - old_best.col) % 2 == 0))
        &&& ({
            ||| (best == old_best && cost == old_cost)
            ||| (cost == subpel_cost_spec(c, best) && mv_in_range(
                best,
                mvx_min as int,
                mvx_max as int,
                mvy_min as int,
                mvy_max as int,
            ))
        })
    }

    #[verifier::rlimit(100)]
    fn full_pixel_me(
        fi: &FrameInvariants,
        ts: &TileState,
        rec: &ReferenceFrame,
        tile_bo: BlockOffset,
        lambda: u32,
        cmv: MotionVector,
        pmv: [MotionVector; 2],
        mvx_min: i64,
        mvx_max: i64,
        mvy_min: i64,
        mvy_max: i64,
        blk_w: usize,
        blk_h: usize,
        best_mv: &mut MotionVector,
        lowest_cost: &mut u64,
        ref_frame: RefType,
    ) {
        let ghost c = fullres_ctx(
            *fi,
            *ts,
            *rec,
            tile_bo,
            lambda,
            pmv,
            mvx_min,
            mvx_max,
            mvy_min,
            mvy_max,
            blk_w,
            blk_h,
        );
        let ridx = ref_frame.to_index();
        let tile_mvs = TileMotionVectors::new(
            &ts.mvs[ridx],
            ts.mi_x,
            ts.mi_y,
            ts.mi_width,
            ts.mi_height,
        );
        let frame_ref = fi.rec_buffer.frames[fi.ref_frames[0]].as_ref();
        let predictors = get_subset_predictors(tile_bo, cmv, &tile_mvs, frame_ref, ridx);

        let frame_bo = ts.to_frame_block_offset(tile_bo);
        let po = frame_bo.to_luma_plane_offset();
        let preds = mv_list_slice(&predictors);
        proof {
            assert(preds@[0] == zero_mv());
            assert(trunc_div(0, 8) == 0);
            assert(cand_ok(c, false, preds@[0]));
        }
        diamond_me_search(
            fi,
            po,
            &ts.input.planes[0],
            &rec.frame.planes[0],
            preds,
            fi.sequence.bit_depth,
            pmv,
            lambda,
            mvx_min,
            mvx_max,
            mvy_min,
            mvy_max,
            blk_w,
            blk_h,
            best_mv,
            lowest_cost,
            false,
            ref_frame,
        );
        proof {
            let sp = crate::predictors::predictors_spec(
                ts.mvs@[ridx as int],
                ts.mi_x as int,
                ts.mi_y as int,
                ts.mi_width as int,
                tile_bo,
                cmv,
                (match prev_ref_spec(*fi) {
                    Option::Some(fr) => Option::Some(fr.frame_mvs@[ridx as int]),
                    Option::None => Option::None,
                }),
            );
            assert(preds@ == sp);
            assert forall|i: int| 0 <= i < sp.len() implies (*lowest_cost) as int <= cand_cost(
                c,
                false,
                #[trigger] sp[i],
            ) by {
                assert(sp[i] == preds@[i]);
            }
            assert(Self::full_pixel_guarantee(
                *fi,
                *ts,
                *rec,
                tile_bo,
                lambda,
                cmv,
                pmv,
                mvx_min,
                mvx_max,
                mvy_min,
                mvy_max,
                blk_w,
                blk_h,
                ref_frame,
                *best_mv,
                (*lowest_cost) as int,
            ));
        }
    }

    #[verifier::rlimit(100)]
    fn sub_pixel_me(
        fi: &FrameInvariants,
        ts: &TileState,
        rec: &ReferenceFrame,
        tile_bo: BlockOffset,
        lambda: u32,
        pmv: [MotionVector; 2],
        mvx_min: i64,
        mvx_max: i64,
        mvy_min: i64,
        mvy_max: i64,
        blk_w: usize,
        blk_h: usize,
        best_mv: &mut MotionVector,
        lowest_cost: &mut u64,
        ref_frame: RefType,
    ) {
        let ghost c = fullres_ctx(
            *fi,
            *ts,
            *rec,
            tile_bo,
            lambda,
            pmv,
            mvx_min,
            mvx_max,
            mvy_min,
            mvy_max,
            blk_w,
            blk_h,
        );
        let mut predictors: Vec<MotionVector> = Vec::new();
        predictors.push(*best_mv);
        let frame_bo = ts.to_frame_block_offset(tile_bo);
        let po = frame_bo.to_luma_plane_offset();
        proof {
            assert(predictors@[0] == *old(best_mv));
            assert(cand_ok(c, true, predictors@[0]));
        }
        diamond_me_search(
            fi,
            po,
            &ts.input.planes[0],
            &rec.frame.planes[0],
            predictors.as_slice(),
            fi.sequence.bit_depth,
            pmv,
            lambda,
            mvx_min,
            mvx_max,
            mvy_min,
            mvy_max,
            blk_w,
            blk_h,
            best_mv,
            lowest_cost,
            true,
            ref_frame,
        );
        proof {
            // The seed list holds exactly the incoming vector, which is
            // in range, so the fold settles on it.
            lemma_cand_cost(c, true, *old(best_mv));
            assert(predictors@.len() == 1);
            assert(predictors@.drop_last() =~= Seq::<MotionVector>::empty());
            assert(best_pred_spec(c, true, Seq::<MotionVector>::empty()) == (
                zero_mv(),
                u64::MAX as int,
            ));
            assert(best_pred_spec(c, true, predictors@.drop_last()) == (
                zero_mv(),
                u64::MAX as int,
            ));
            assert(predictors@.last() == *old(best_mv));
            assert(predictors@[0] == *old(best_mv));
            assert(cand_cost(c, true, *old(best_mv)) < u64::MAX as int);
            assert(best_pred_spec(c, true, predictors@).0 == *old(best_mv));
            assert((*lowest_cost) as int <= cand_cost(c, true, predictors@[0]));
            assert(Self::sub_pixel_guarantee(
                *fi,
                *ts,
                *rec,
                tile_bo,
                lambda,
                pmv,
                mvx_min,
                mvx_max,
                mvy_min,
                mvy_max,
                blk_w,
                blk_h,
                *old(best_mv),
                (*old(lowest_cost)) as int,
                *best_mv,
                (*lowest_cost) as int,
            ));
        }
    }

    /// One half-resolution diamond pass per present seed; the last one
    /// leaves an exact, finite cost inside the halved rectangle.
    open spec fn me_ss2_guarantee(
        fi: FrameInvariants,
        ts: TileState,
        rec: ReferenceFrame,
        tile_bo_adj: BlockOffset,
        tile_grid: FrameMotionVectors,
        tx: int,
        ty: int,
        tcols: int,
        prev: Option<FrameMotionVectors>,
        pmvs: [Option<MotionVector>; 3],
        gmv0: MotionVector,
        gmv1: MotionVector,
        lambda: u32,
        mvx_min: i64,
        mvx_max: i64,
        mvy_min: i64,
        mvy_max: i64,
        blk_w: usize,
        blk_h: usize,
        best: MotionVector,
        cost: int,
    ) -> bool {
        if all_seeds_none(pmvs) {
            true
        } else {
            hres_diamond_seed_facts(
                fi,
                ts,
                rec,
                tile_bo_adj,
                tile_grid,
                tx,
                ty,
                tcols,
                prev,
                (last_seed(pmvs)),
                gmv0,
                gmv1,
                lambda,
                mvx_min,
                mvx_max,
                mvy_min,
                mvy_max,
                blk_w,
                blk_h,
                best,
                cost,
            )
        }
    }

    #[verifier::rlimit(100)]
    fn me_ss2(
        fi: &FrameInvariants,
        ts: &TileState,
        pmvs: &[Option<MotionVector>; 3],
        tile_bo_adj: BlockOffset,
        tile_mvs: &TileMotionVectors<'_>,
        frame_ref_opt: Option<&ReferenceFrame>,
        rec: &ReferenceFrame,
        global_mv: [MotionVector; 2],
        lambda: u32,
        mvx_min: i64,
        mvx_max: i64,
        mvy_min: i64,
        mvy_max: i64,
        blk_w: usize,
        blk_h: usize,
        best_mv: &mut MotionVector,
        lowest_cost: &mut u64,
    ) {
        let ghost ch = hres_ctx(
            *fi,
            *ts,
            *rec,
            tile_bo_adj,
            global_mv,
            lambda,
            mvx_min,
            mvx_max,
            mvy_min,
            mvy_max,
            blk_w,
            blk_h,
        );
        let frame_bo_adj = ts.to_frame_block_offset(tile_bo_adj);
        let frame_po = PlaneOffset {
            x: (frame_bo_adj.x as i64) * 2,
            y: (frame_bo_adj.y as i64) * 2,
        };
        let hx_min = floor_div_i64(mvx_min, 2);
        let hx_max = floor_div_i64(mvx_max, 2);
        let hy_min = floor_div_i64(mvy_min, 2);
        let hy_max = floor_div_i64(mvy_max, 2);
        let mut pi: usize = 0;
        while pi < 3
            invariant
                pi <= 3,
                ctx_wf(ch),
                ch == hres_ctx(
                    *fi,
                    *ts,
                    *rec,
                    tile_bo_adj,
                    global_mv,
                    lambda,
                    mvx_min,
                    mvx_max,
                    mvy_min,
                    mvy_max,
                    blk_w,
                    blk_h,
                ),
                me_ss2_pre(
                    *fi,
                    *ts,
                    *rec,
                    tile_bo_adj,
                    *tile_mvs,
                    frame_ref_opt,
                    global_mv,
                    lambda,
                    mvx_min,
                    mvx_max,
                    mvy_min,
                    mvy_max,
                    blk_w,
                    blk_h,
                ),
                frame_po == hres_po(*ts, tile_bo_adj),
                hx_min as int == (mvx_min as int) / 2,
                hx_max as int == (mvx_max as int) / 2,
                hy_min as int == (mvy_min as int) / 2,
                hy_max as int == (mvy_max as int) / 2,
                (*best_mv == *old(best_mv) && *lowest_cost == *old(lowest_cost)) || (-0x3F80
                    <= best_mv.row <= 0x3F80 && -0x3F80 <= best_mv.col <= 0x3F80),
                last_seed_idx(*pmvs, pi as int) == -1 ==> (*best_mv == *old(best_mv)
                    && *lowest_cost == *old(lowest_cost)),
                last_seed_idx(*pmvs, pi as int) >= 0 ==> hres_diamond_seed_facts(
                    *fi,
                    *ts,
                    *rec,
                    tile_bo_adj,
                    *tile_mvs.frame_mvs,
                    tile_mvs.x as int,
                    tile_mvs.y as int,
                    tile_mvs.cols as int,
                    (match frame_ref_opt {
                        Option::Some(fr) => Option::Some(fr.frame_mvs@[0]),
                        Option::None => Option::None,
                    }),
                    (match pmvs[last_seed_idx(*pmvs, pi as int)] {
                        Option::Some(v) => v,
                        Option::None => zero_mv(),
                    }),
                    global_mv[0],
                    global_mv[1],
                    lambda,
                    mvx_min,
                    mvx_max,
                    mvy_min,
                    mvy_max,
                    blk_w,
                    blk_h,
                    *best_mv,
                    (*lowest_cost) as int,
                ),
            decreases 3 - pi,
        {
            if let Option::Some(pmv_seed) = pmvs[pi] {
                let predictors = get_subset_predictors(
                    tile_bo_adj,
                    pmv_seed,
                    tile_mvs,
                    frame_ref_opt,
                    0,
                );
                let preds = mv_list_slice(&predictors);
                // Seeds are in full-resolution eighth-pels; halve them
                // for the half-resolution planes.
                let mut halved: Vec<MotionVector> = Vec::new();
                let mut k: usize = 0;
                while k < preds.len()
                    invariant
                        k <= preds@.len(),
                        halved@.len() == k,
                        preds@[0] == zero_mv(),
                        preds@.len() >= 1,
                        forall|j: int|
                            0 <= j < k ==> (#[trigger] halved@[j]).row as int == (preds@[j].row
                                as int) / 2 && halved@[j].col as int == (preds@[j].col as int) / 2,
                    decreases preds@.len() - k,
                {
                    let p = *vstd::slice::slice_index_get(preds, k);
                    let hr = floor_div_i64(p.row as i64, 2);
                    let hc = floor_div_i64(p.col as i64, 2);
                    halved.push(MotionVector { row: hr as i16, col: hc as i16 });
                    k = k + 1;
                }
                proof {
                    assert(halved@[0].row as int == 0 && halved@[0].col as int == 0);
                    assert(halved@[0] == zero_mv());
                    assert(trunc_div(0, 8) == 0);
                    assert(cand_ok(ch, false, halved@[0]));
                }
                diamond_me_search(
                    fi,
                    frame_po,
                    &ts.input_hres,
                    &rec.input_hres,
                    halved.as_slice(),
                    fi.sequence.bit_depth,
                    global_mv,
                    lambda,
                    hx_min,
                    hx_max,
                    hy_min,
                    hy_max,
                    blk_w / 2,
                    blk_h / 2,
                    best_mv,
                    lowest_cost,
                    false,
                    RefType::LAST_FRAME,
                );
                proof {
                    assert(ch == hres_ctx2(
                        *fi,
                        *ts,
                        *rec,
                        tile_bo_adj,
                        global_mv[0],
                        global_mv[1],
                        lambda,
                        mvx_min,
                        mvx_max,
                        mvy_min,
                        mvy_max,
                        blk_w,
                        blk_h,
                    ));
                    // The halved exec list is the halved spec seed list.
                    let sp = crate::predictors::predictors_spec(
                        *tile_mvs.frame_mvs,
                        tile_mvs.x as int,
                        tile_mvs.y as int,
                        tile_mvs.cols as int,
                        tile_bo_adj,
                        pmv_seed,
                        crate::predictors::prev_grid_spec(frame_ref_opt, 0),
                    );
                    assert(preds@ == sp);
                    assert forall|j: int| 0 <= j < sp.len() implies halved@[j] == #[trigger] halve_seq(
                        sp,
                    )[j] by {
                        assert(halve_seq(sp)[j] == halve_mv(sp[j]));
                        assert(halved@[j].row as int == (sp[j].row as int) / 2);
                        assert(halved@[j].col as int == (sp[j].col as int) / 2);
                    }
                    assert(halved@ =~= halve_seq(sp));
                    assert forall|i: int| 0 <= i < halve_seq(sp).len() implies (*lowest_cost)
                        as int <= cand_cost(ch, false, #[trigger] halve_seq(sp)[i]) by {
                        assert(halve_seq(sp)[i] == halved@[i]);
                    }
                    assert(hres_diamond_seed_facts(
                        *fi,
                        *ts,
                        *rec,
                        tile_bo_adj,
                        *tile_mvs.frame_mvs,
                        tile_mvs.x as int,
                        tile_mvs.y as int,
                        tile_mvs.cols as int,
                        (match frame_ref_opt {
                            Option::Some(fr) => Option::Some(fr.frame_mvs@[0]),
                            Option::None => Option::None,
                        }),
                        pmv_seed,
                        global_mv[0],
                        global_mv[1],
                        lambda,
                        mvx_min,
                        mvx_max,
                        mvy_min,
                        mvy_max,
                        blk_w,
                        blk_h,
                        *best_mv,
                        (*lowest_cost) as int,
                    ));
                    assert(last_seed_idx(*pmvs, pi + 1) == pi as int);
                }
            } else {
                proof {
                    assert(last_seed_idx(*pmvs, pi + 1) == last_seed_idx(*pmvs, pi as int));
                }
            }
            pi = pi + 1;
        }
        proof {
            if last_seed_idx(*pmvs, 3) == -1 {
                assert(pmvs[2] is None && last_seed_idx(*pmvs, 2) == -1);
                assert(pmvs[1] is None && last_seed_idx(*pmvs, 1) == -1);
                assert(pmvs[0] is None);
                assert(all_seeds_none(*pmvs));
            } else {
                lemma_last_seed_idx_range(*pmvs, 3);
                if all_seeds_none(*pmvs) {
                    assert(last_seed_idx(*pmvs, 0) == -1);
                    assert(last_seed_idx(*pmvs, 1) == -1);
                    assert(last_seed_idx(*pmvs, 2) == -1);
                    assert(last_seed_idx(*pmvs, 3) == -1);
                }
                assert(!all_seeds_none(*pmvs));
            }
            assert(Self::me_ss2_guarantee(
                *fi,
                *ts,
                *rec,
                tile_bo_adj,
                *tile_mvs.frame_mvs,
                tile_mvs.x as int,
                tile_mvs.y as int,
                tile_mvs.cols as int,
                (match frame_ref_opt {
                    Option::Some(fr) => Option::Some(fr.frame_mvs@[0]),
                    Option::None => Option::None,
                }),
                *pmvs,
                global_mv[0],
                global_mv[1],
                lambda,
                mvx_min,
                mvx_max,
                mvy_min,
                mvy_max,
                blk_w,
                blk_h,
                *best_mv,
                (*lowest_cost) as int,
            ));
        }
    }
}

fn clamp_i64(v: i64, lo: i64, hi: i64) -> (r: i64)
    requires
        lo <= hi,
    ensures
        r as int == crate::plane::clamp_int(v as int, lo as int, hi as int),
        lo <= r <= hi,
        v <= r || r == hi,
        r <= v || r == lo,
{
    if v < lo {
        lo
    } else if v > hi {
        hi
    } else {
        v
    }
}

impl MotionEstimation for FullSearch {
    /// The result is the row-major-earliest minimum of the stride-2
    /// whole-pixel scan of the window around `cmv`, clipped to the
    /// vector rectangle; both of its components are whole-pel.
    open spec fn full_pixel_guarantee(
        fi: FrameInvariants,
        ts: TileState,
        rec: ReferenceFrame,
        tile_bo: BlockOffset,
        lambda: u32,
        cmv: MotionVector,
        pmv: [MotionVector; 2],
        mvx_min: i64,
        mvx_max: i64,
        mvy_min: i64,
        mvy_max: i64,
        blk_w: usize,
        blk_h: usize,
        ref_frame: RefType,
        best: MotionVector,
        cost: int,
    ) -> bool {
        let c = fullres_ctx(
            fi,
            ts,
            rec,
            tile_bo,
            lambda,
            pmv,
            mvx_min,
            mvx_max,
            mvy_min,
            mvy_max,
            blk_w,
            blk_h,
        );
        let czero = MeCtx { mvx_min: 0, mvx_max: 0, mvy_min: 0, mvy_max: 0, ..c };
        let po = luma_po(ts, tile_bo);
        let x_lo = po.x + scan_bound(cmv.col as int, -16, mvx_min as int, mvx_max as int);
        let x_hi = po.x + scan_bound(cmv.col as int, 16, mvx_min as int, mvx_max as int);
        let y_lo = po.y + scan_bound(cmv.row as int, -16, mvy_min as int, mvy_max as int);
        let y_hi = po.y + scan_bound(cmv.row as int, 16, mvy_min as int, mvy_max as int);
        &&& best.row % 8 == 0
        &&& best.col % 8 == 0
        &&& forall|gx: int, gy: int|
            on_grid(x_lo, x_hi, 2, gx) && on_grid(y_lo, y_hi, 2, gy) ==> cost
                <= #[trigger] fs_cost(czero, gx, gy)
        &&& exists|bx: int, by: int|
            {
                &&& on_grid(x_lo, x_hi, 2, bx)
                &&& on_grid(y_lo, y_hi, 2, by)
                &&& best == fs_mv(po, bx, by)
                &&& cost == #[trigger] fs_cost(czero, bx, by)
                &&& forall|gx: int, gy: int|
                    on_grid(x_lo, x_hi, 2, gx) && on_grid(y_lo, y_hi, 2, gy) && (gy < by || (gy
                        == by && gx < bx)) ==> #[trigger] fs_cost(czero, gx, gy) > cost
            }
    }

    /// The telescopic pass never raises the cost, undercuts the
    /// sub-pixel cost of each step-8 neighbor of the incoming vector,
    /// and without eighth-pel vectors keeps the incoming parity; when it
    /// moves at all, the final cost is the exact sub-pixel cost of an
    /// in-range vector.
    open spec fn sub_pixel_guarantee(
        fi: FrameInvariants,
        ts: TileState,
        rec: ReferenceFrame,
        tile_bo: BlockOffset,
        lambda: u32,
        pmv: [MotionVector; 2],
        mvx_min: i64,
        mvx_max: i64,
        mvy_min: i64,
        mvy_max: i64,
        blk_w: usize,
        blk_h: usize,
        old_best: MotionVector,
        old_cost: int,
        best: MotionVector,
        cost: int,
    ) -> bool {
        let c = fullres_ctx(
            fi,
            ts,
            rec,
            tile_bo,
            lambda,
            pmv,
            mvx_min,
            mvx_max,
            mvy_min,
            mvy_max,
            blk_w,
            blk_h,
        );
        &&& cost <= old_cost
        &&& (fi.allow_high_precision_mv || ((best.row - old_best.row) % 2 == 0 && (best.col
            - old_best.col) % 2 == 0))
        &&& forall|dy: int, dx: int|
            -1 <= dy <= 1 && -1 <= dx <= 1 && !(dy == 0 && dx == 0) ==> cost <= subpel_cost_spec(
                c,
                #[trigger] diamond_cand(old_best, 8, dy, dx),
            )
        &&& ({
            ||| (best == old_best && cost == old_cost)
            ||| (cost == subpel_cost_spec(c, best) && mv_in_range(
                best,
                mvx_min as int,
                mvx_max as int,
                mvy_min as int,
                mvy_max as int,
            ))
        })
    }

    fn full_pixel_me(
        fi: &FrameInvariants,
        ts: &TileState,
        rec: &ReferenceFrame,
        tile_bo: BlockOffset,
        lambda: u32,
        cmv: MotionVector,
        pmv: [MotionVector; 2],
        mvx_min: i64,
        mvx_max: i64,
        mvy_min: i64,
        mvy_max: i64,
        blk_w: usize,
        blk_h: usize,
        best_mv: &mut MotionVector,
        lowest_cost: &mut u64,
        _ref_frame: RefType,
    ) {
        let ghost c = fullres_ctx(
            *fi,
            *ts,
            *rec,
            tile_bo,
            lambda,
            pmv,
            mvx_min,
            mvx_max,
            mvy_min,
            mvy_max,
            blk_w,
            blk_h,
        );
        let frame_bo = ts.to_frame_block_offset(tile_bo);
        let frame_po = frame_bo.to_luma_plane_offset();
        let range: i64 = 16;
        let c8: i64 = div_trunc_i32(cmv.col as i32, 8) as i64;
        let r8: i64 = div_trunc_i32(cmv.row as i32, 8) as i64;
        let mvx_min8: i64 = div_trunc_i32(mvx_min as i32, 8) as i64;
        let mvx_max8: i64 = div_trunc_i32(mvx_max as i32, 8) as i64;
        let mvy_min8: i64 = div_trunc_i32(mvy_min as i32, 8) as i64;
        let mvy_max8: i64 = div_trunc_i32(mvy_max as i32, 8) as i64;
        proof {
            lemma_trunc_div_bound(mvx_min as int, 8, 0xFE0);
            lemma_trunc_div_bound(mvx_max as int, 8, 0xFE0);
            lemma_trunc_div_bound(mvy_min as int, 8, 0xFE0);
            lemma_trunc_div_bound(mvy_max as int, 8, 0xFE0);
            lemma_trunc8_range(mvx_min as int);
            lemma_trunc8_range(mvx_max as int);
            lemma_trunc8_range(mvy_min as int);
            lemma_trunc8_range(mvy_max as int);
        }
        let x_lo: i64 = frame_po.x + clamp_i64(-range + c8, mvx_min8, mvx_max8);
        let x_hi: i64 = frame_po.x + clamp_i64(range + c8, mvx_min8, mvx_max8);
        let y_lo: i64 = frame_po.y + clamp_i64(-range + r8, mvy_min8, mvy_max8);
        let y_hi: i64 = frame_po.y + clamp_i64(range + r8, mvy_min8, mvy_max8);

        full_search(
            x_lo,
            x_hi,
            y_lo,
            y_hi,
            blk_h,
            blk_w,
            &ts.input.planes[0],
            &rec.frame.planes[0],
            best_mv,
            lowest_cost,
            frame_po,
            2,
            fi.sequence.bit_depth,
            lambda,
            pmv,
            fi.allow_high_precision_mv,
        );
        proof {
            let czero = fs_ctx(
                ts.input.planes@[0],
                rec.frame.planes@[0],
                frame_po,
                pmv,
                lambda,
                fi.allow_high_precision_mv,
                blk_w,
                blk_h,
            );
            let (bx, by) = choose|bx: int, by: int|
                {
                    &&& on_grid(x_lo as int, x_hi as int, 2, bx)
                    &&& on_grid(y_lo as int, y_hi as int, 2, by)
                    &&& *best_mv == fs_mv(frame_po, bx, by)
                    &&& (*lowest_cost) as int == #[trigger] fs_cost(czero, bx, by)
                    &&& forall|gx: int, gy: int|
                        on_grid(x_lo as int, x_hi as int, 2, gx) && on_grid(
                            y_lo as int,
                            y_hi as int,
                            2,
                            gy,
                        ) && (gy < by || (gy == by && gx < bx)) ==> #[trigger] fs_cost(czero, gx, gy)
                            > (*lowest_cost) as int
                };
            assert(mvx_min <= 8 * (bx - frame_po.x) <= mvx_max);
            assert(mvy_min <= 8 * (by - frame_po.y) <= mvy_max);
            lemma_fs_fullpel(c, czero, bx, by);

            // Expose the scan structure through the strategy guarantee.
            let czero_g = MeCtx { mvx_min: 0, mvx_max: 0, mvy_min: 0, mvy_max: 0, ..c };
            assert(czero_g == czero);
            assert(frame_po == luma_po(*ts, tile_bo));
            assert forall|gx: int, gy: int|
                on_grid(x_lo as int, x_hi as int, 2, gx) && on_grid(
                    y_lo as int,
                    y_hi as int,
                    2,
                    gy,
                ) implies (*lowest_cost) as int <= #[trigger] fs_cost(czero_g, gx, gy) by {
                assert(fs_cost(czero_g, gx, gy) == fs_cost(czero, gx, gy));
            }
            assert forall|gx: int, gy: int|
                on_grid(x_lo as int, x_hi as int, 2, gx) && on_grid(
                    y_lo as int,
                    y_hi as int,
                    2,
                    gy,
                ) && (gy < by || (gy == by && gx < bx)) implies #[trigger] fs_cost(czero_g, gx, gy)
                > (*lowest_cost) as int by {
                assert(fs_cost(czero_g, gx, gy) == fs_cost(czero, gx, gy));
            }
            assert((*lowest_cost) as int == fs_cost(czero_g, bx, by));
            assert(x_lo as int == frame_po.x + scan_bound(
                cmv.col as int,
                -16,
                mvx_min as int,
                mvx_max as int,
            ));
            assert(x_hi as int == frame_po.x + scan_bound(
                cmv.col as int,
                16,
                mvx_min as int,
                mvx_max as int,
            ));
            assert(y_lo as int == frame_po.y + scan_bound(
                cmv.row as int,
                -16,
                mvy_min as int,
                mvy_max as int,
            ));
            assert(y_hi as int == frame_po.y + scan_bound(
                cmv.row as int,
                16,
                mvy_min as int,
                mvy_max as int,
            ));
            assert((*best_mv).col as int == 8 * (bx - frame_po.x));
            assert((*best_mv).row as int == 8 * (by - frame_po.y));
            vstd::arithmetic::div_mod::lemma_mod_multiples_basic(bx - frame_po.x, 8);
            vstd::arithmetic::div_mod::lemma_mod_multiples_basic(by - frame_po.y, 8);
            assert((bx - frame_po.x) * 8 == 8 * (bx - frame_po.x));
            assert((by - frame_po.y) * 8 == 8 * (by - frame_po.y));
            assert(Self::full_pixel_guarantee(
                *fi,
                *ts,
                *rec,
                tile_bo,
                lambda,
                cmv,
                pmv,
                mvx_min,
                mvx_max,
                mvy_min,
                mvy_max,
                blk_w,
                blk_h,
                _ref_frame,
                *best_mv,
                (*lowest_cost) as int,
            ));
        }
    }

    fn sub_pixel_me(
        fi: &FrameInvariants,
        ts: &TileState,
        rec: &ReferenceFrame,
        tile_bo: BlockOffset,
        lambda: u32,
        pmv: [MotionVector; 2],
        mvx_min: i64,
        mvx_max: i64,
        mvy_min: i64,
        mvy_max: i64,
        blk_w: usize,
        blk_h: usize,
        best_mv: &mut MotionVector,
        lowest_cost: &mut u64,
        ref_frame: RefType,
    ) {
        let ghost c = fullres_ctx(
            *fi,
            *ts,
            *rec,
            tile_bo,
            lambda,
            pmv,
            mvx_min,
            mvx_max,
            mvy_min,
            mvy_max,
            blk_w,
            blk_h,
        );
        let frame_bo = ts.to_frame_block_offset(tile_bo);
        let po = frame_bo.to_luma_plane_offset();
        proof {
            assert(po == luma_po(*ts, tile_bo));
        }
        let ghost ct = make_ctx(
            ts.input.planes@[0],
            rec.frame.planes@[0],
            po,
            pmv,
            lambda,
            fi.allow_high_precision_mv,
            mvx_min,
            mvx_max,
            mvy_min,
            mvy_max,
            blk_w,
            blk_h,
        );
        telescopic_subpel_search(
            fi,
            ts,
            &rec.frame.planes[0],
            po,
            lambda,
            ref_frame,
            pmv,
            mvx_min,
            mvx_max,
            mvy_min,
            mvy_max,
            blk_w,
            blk_h,
            best_mv,
            lowest_cost,
        );
        proof {
            assert(c == ct);
            assert forall|dy: int, dx: int|
                -1 <= dy <= 1 && -1 <= dx <= 1 && !(dy == 0 && dx == 0) implies (*lowest_cost)
                as int <= subpel_cost_spec(c, #[trigger] diamond_cand(*old(best_mv), 8, dy, dx)) by {
                assert(subpel_cost_spec(c, diamond_cand(*old(best_mv), 8, dy, dx))
                    == subpel_cost_spec(ct, diamond_cand(*old(best_mv), 8, dy, dx)));
            }
            assert(Self::sub_pixel_guarantee(
                *fi,
                *ts,
                *rec,
                tile_bo,
                lambda,
                pmv,
                mvx_min,
                mvx_max,
                mvy_min,
                mvy_max,
                blk_w,
                blk_h,
                *old(best_mv),
                (*old(lowest_cost)) as int,
                *best_mv,
                (*lowest_cost) as int,
            ));
        }
    }

    /// One half-resolution dense scan per present seed; the last one
    /// names the row-major-earliest minimum of its window.
    open spec fn me_ss2_guarantee(
        fi: FrameInvariants,
        ts: TileState,
        rec: ReferenceFrame,
        tile_bo_adj: BlockOffset,
        tile_grid: FrameMotionVectors,
        tx: int,
        ty: int,
        tcols: int,
        prev: Option<FrameMotionVectors>,
        pmvs: [Option<MotionVector>; 3],
        gmv0: MotionVector,
        gmv1: MotionVector,
        lambda: u32,
        mvx_min: i64,
        mvx_max: i64,
        mvy_min: i64,
        mvy_max: i64,
        blk_w: usize,
        blk_h: usize,
        best: MotionVector,
        cost: int,
    ) -> bool {
        if all_seeds_none(pmvs) {
            true
        } else {
            hres_scan_facts(
                fi,
                ts,
                rec,
                tile_bo_adj,
                (last_seed(pmvs)),
                lambda,
                mvx_min,
                mvx_max,
                mvy_min,
                mvy_max,
                blk_w,
                blk_h,
                best,
                cost,
            )
        }
    }

    #[verifier::rlimit(100)]
    fn me_ss2(
        fi: &FrameInvariants,
        ts: &TileState,
        pmvs: &[Option<MotionVector>; 3],
        tile_bo_adj: BlockOffset,
        _tile_mvs: &TileMotionVectors<'_>,
        _frame_ref_opt: Option<&ReferenceFrame>,
        rec: &ReferenceFrame,
        _global_mv: [MotionVector; 2],
        lambda: u32,
        mvx_min: i64,
        mvx_max: i64,
        mvy_min: i64,
        mvy_max: i64,
        blk_w: usize,
        blk_h: usize,
        best_mv: &mut MotionVector,
        lowest_cost: &mut u64,
    ) {
        let frame_bo_adj = ts.to_frame_block_offset(tile_bo_adj);
        let frame_po = PlaneOffset {
            x: (frame_bo_adj.x as i64) * 2,
            y: (frame_bo_adj.y as i64) * 2,
        };
        let range: i64 = 16;
        let mvx_min8: i64 = div_trunc_i32(mvx_min as i32, 8) as i64;
        let mvx_max8: i64 = div_trunc_i32(mvx_max as i32, 8) as i64;
        let mvy_min8: i64 = div_trunc_i32(mvy_min as i32, 8) as i64;
        let mvy_max8: i64 = div_trunc_i32(mvy_max as i32, 8) as i64;
        proof {
            lemma_trunc_div_bound(mvx_min as int, 8, 0xFE0);
            lemma_trunc_div_bound(mvx_max as int, 8, 0xFE0);
            lemma_trunc_div_bound(mvy_min as int, 8, 0xFE0);
            lemma_trunc_div_bound(mvy_max as int, 8, 0xFE0);
        }
        let mut pi: usize = 0;
        while pi < 3
            invariant
                pi <= 3,
                ts.wf(),
                ts.input_hres.wf(),
                rec.input_hres.wf(),
                1 <= blk_w <= 128,
                1 <= blk_h <= 128,
                1 <= blk_w / 2 && 1 <= blk_h / 2,
                range == 16,
                0 <= lambda <= u32::MAX,
                ts.input_hres.slot_in_bounds(
                    frame_po.x as int,
                    frame_po.y as int,
                    (blk_w / 2) as int,
                    (blk_h / 2) as int,
                ),
                -0x10_0000 <= frame_po.x <= 0x10_0000,
                -0x10_0000 <= frame_po.y <= 0x10_0000,
                mvx_min8 as int == trunc_div(mvx_min as int, 8),
                mvx_max8 as int == trunc_div(mvx_max as int, 8),
                mvy_min8 as int == trunc_div(mvy_min as int, 8),
                mvy_max8 as int == trunc_div(mvy_max as int, 8),
                -0xFE0 <= mvx_min8 <= 0 <= mvx_max8 <= 0xFE0,
                -0xFE0 <= mvy_min8 <= 0 <= mvy_max8 <= 0xFE0,
                frame_po == hres_po(*ts, tile_bo_adj),
                (*best_mv == *old(best_mv) && *lowest_cost == *old(lowest_cost)) || (-0x3F80
                    <= best_mv.row <= 0x3F80 && -0x3F80 <= best_mv.col <= 0x3F80),
                last_seed_idx(*pmvs, pi as int) == -1 ==> (*best_mv == *old(best_mv)
                    && *lowest_cost == *old(lowest_cost)),
                last_seed_idx(*pmvs, pi as int) >= 0 ==> hres_scan_facts(
                    *fi,
                    *ts,
                    *rec,
                    tile_bo_adj,
                    (match pmvs[last_seed_idx(*pmvs, pi as int)] {
                        Option::Some(v) => v,
                        Option::None => zero_mv(),
                    }),
                    lambda,
                    mvx_min,
                    mvx_max,
                    mvy_min,
                    mvy_max,
                    blk_w,
                    blk_h,
                    *best_mv,
                    (*lowest_cost) as int,
                ),
            decreases 3 - pi,
        {
            if let Option::Some(pmv_seed) = pmvs[pi] {
                let c8: i64 = div_trunc_i32(pmv_seed.col as i32, 8) as i64;
                let r8: i64 = div_trunc_i32(pmv_seed.row as i32, 8) as i64;
                proof {
                    lemma_trunc_div_bound(pmv_seed.col as int, 8, 4096);
                    lemma_trunc_div_bound(pmv_seed.row as int, 8, 4096);
                }
                let x_lo: i64 = frame_po.x + floor_div_i64(
                    clamp_i64(c8 - range, mvx_min8, mvx_max8),
                    2,
                );
                let x_hi: i64 = frame_po.x + floor_div_i64(
                    clamp_i64(c8 + range, mvx_min8, mvx_max8),
                    2,
                );
                let y_lo: i64 = frame_po.y + floor_div_i64(
                    clamp_i64(r8 - range, mvy_min8, mvy_max8),
                    2,
                );
                let y_hi: i64 = frame_po.y + floor_div_i64(
                    clamp_i64(r8 + range, mvy_min8, mvy_max8),
                    2,
                );
                proof {
                    vstd::arithmetic::div_mod::lemma_div_is_ordered(
                        crate::plane::clamp_int((c8 - range) as int, mvx_min8 as int,
                            mvx_max8 as int),
                        crate::plane::clamp_int((c8 + range) as int, mvx_min8 as int,
                            mvx_max8 as int),
                        2,
                    );
                    vstd::arithmetic::div_mod::lemma_div_is_ordered(
                        crate::plane::clamp_int((r8 - range) as int, mvy_min8 as int,
                            mvy_max8 as int),
                        crate::plane::clamp_int((r8 + range) as int, mvy_min8 as int,
                            mvy_max8 as int),
                        2,
                    );
                }
                let zero_pmv: [MotionVector; 2] = [MotionVector { row: 0, col: 0 }, MotionVector {
                    row: 0,
                    col: 0,
                }];
                full_search(
                    x_lo,
                    x_hi,
                    y_lo,
                    y_hi,
                    blk_h / 2,
                    blk_w / 2,
                    &ts.input_hres,
                    &rec.input_hres,
                    best_mv,
                    lowest_cost,
                    frame_po,
                    1,
                    fi.sequence.bit_depth,
                    lambda,
                    zero_pmv,
                    fi.allow_high_precision_mv,
                );
                proof {
                    let czero = fs_ctx(
                        ts.input_hres,
                        rec.input_hres,
                        frame_po,
                        zero_pmv,
                        lambda,
                        fi.allow_high_precision_mv,
                        (blk_w / 2) as usize,
                        (blk_h / 2) as usize,
                    );
                    let (bx, by) = choose|bx: int, by: int|
                        {
                            &&& on_grid(x_lo as int, x_hi as int, 1, bx)
                            &&& on_grid(y_lo as int, y_hi as int, 1, by)
                            &&& *best_mv == fs_mv(frame_po, bx, by)
                            &&& (*lowest_cost) as int == #[trigger] fs_cost(czero, bx, by)
                        };
                    assert(-0x7F0 <= bx - frame_po.x <= 0x7F0);
                    assert(-0x7F0 <= by - frame_po.y <= 0x7F0);
                    assert(best_mv.col as int == 8 * (bx - frame_po.x));
                    assert(best_mv.row as int == 8 * (by - frame_po.y));

                    // Restate the scan's result over the seed's window.
                    let czero_g = MeCtx {
                        p_org: ts.input_hres,
                        p_ref: rec.input_hres,
                        po: frame_po,
                        pmv0: zero_mv(),
                        pmv1: zero_mv(),
                        lambda: lambda as int,
                        hp: fi.allow_high_precision_mv,
                        mvx_min: 0,
                        mvx_max: 0,
                        mvy_min: 0,
                        mvy_max: 0,
                        w: (blk_w / 2) as nat,
                        h: (blk_h / 2) as nat,
                    };
                    assert(czero_g == czero);
                    assert(x_lo as int == frame_po.x + scan_bound(
                        pmv_seed.col as int,
                        -16,
                        mvx_min as int,
                        mvx_max as int,
                    ) / 2);
                    assert(x_hi as int == frame_po.x + scan_bound(
                        pmv_seed.col as int,
                        16,
                        mvx_min as int,
                        mvx_max as int,
                    ) / 2);
                    assert(y_lo as int == frame_po.y + scan_bound(
                        pmv_seed.row as int,
                        -16,
                        mvy_min as int,
                        mvy_max as int,
                    ) / 2);
                    assert(y_hi as int == frame_po.y + scan_bound(
                        pmv_seed.row as int,
                        16,
                        mvy_min as int,
                        mvy_max as int,
                    ) / 2);
                    vstd::arithmetic::div_mod::lemma_mod_multiples_basic(bx - frame_po.x, 8);
                    vstd::arithmetic::div_mod::lemma_mod_multiples_basic(by - frame_po.y, 8);
                    assert((bx - frame_po.x) * 8 == 8 * (bx - frame_po.x));
                    assert((by - frame_po.y) * 8 == 8 * (by - frame_po.y));
                    assert forall|gx: int, gy: int|
                        on_grid(x_lo as int, x_hi as int, 1, gx) && on_grid(
                            y_lo as int,
                            y_hi as int,
                            1,
                            gy,
                        ) implies (*lowest_cost) as int <= #[trigger] fs_cost(czero_g, gx, gy) by {
                        assert(fs_cost(czero_g, gx, gy) == fs_cost(czero, gx, gy));
                    }
                    assert forall|gx: int, gy: int|
                        on_grid(x_lo as int, x_hi as int, 1, gx) && on_grid(
                            y_lo as int,
                            y_hi as int,
                            1,
                            gy,
                        ) && (gy < by || (gy == by && gx < bx)) implies #[trigger] fs_cost(
                        czero_g,
                        gx,
                        gy,
                    ) > (*lowest_cost) as int by {
                        assert(fs_cost(czero_g, gx, gy) == fs_cost(czero, gx, gy));
                    }
                    assert((*lowest_cost) as int == fs_cost(czero_g, bx, by));
                    assert(hres_scan_facts(
                        *fi,
                        *ts,
                        *rec,
                        tile_bo_adj,
                        pmv_seed,
                        lambda,
                        mvx_min,
                        mvx_max,
                        mvy_min,
                        mvy_max,
                        blk_w,
                        blk_h,
                        *best_mv,
                        (*lowest_cost) as int,
                    ));
                    assert(last_seed_idx(*pmvs, pi + 1) == pi as int);
                }
            } else {
                proof {
                    assert(last_seed_idx(*pmvs, pi + 1) == last_seed_idx(*pmvs, pi as int));
                }
            }
            pi = pi + 1;
        }
        proof {
            if last_seed_idx(*pmvs, 3) == -1 {
                assert(pmvs[2] is None && last_seed_idx(*pmvs, 2) == -1);
                assert(pmvs[1] is None && last_seed_idx(*pmvs, 1) == -1);
                assert(pmvs[0] is None);
                assert(all_seeds_none(*pmvs));
            } else {
                lemma_last_seed_idx_range(*pmvs, 3);
                if all_seeds_none(*pmvs) {
                    assert(last_seed_idx(*pmvs, 0) == -1);
                    assert(last_seed_idx(*pmvs, 1) == -1);
                    assert(last_seed_idx(*pmvs, 2) == -1);
                    assert(last_seed_idx(*pmvs, 3) == -1);
                }
                assert(!all_seeds_none(*pmvs));
            }
            assert(Self::me_ss2_guarantee(
                *fi,
                *ts,
                *rec,
                tile_bo_adj,
                *_tile_mvs.frame_mvs,
                _tile_mvs.x as int,
                _tile_mvs.y as int,
                _tile_mvs.cols as int,
                (match _frame_ref_opt {
                    Option::Some(fr) => Option::Some(fr.frame_mvs@[0]),
                    Option::None => Option::None,
                }),
                *pmvs,
                _global_mv[0],
                _global_mv[1],
                lambda,
                mvx_min,
                mvx_max,
                mvy_min,
                mvy_max,
                blk_w,
                blk_h,
                *best_mv,
                (*lowest_cost) as int,
            ));
        }
    }
}

/// Pixel position of the block at `tile_bo` in the quarter-resolution
/// luma.
pub open spec fn qres_po(ts: TileState, tile_bo: BlockOffset) -> PlaneOffset {
    PlaneOffset { x: (ts.mi_x + tile_bo.x) as i64, y: (ts.mi_y + tile_bo.y) as i64 }
}

pub open spec fn max_int(a: int, b: int) -> int {
    if a >= b {
        a
    } else {
        b
    }
}

pub open spec fn min_int(a: int, b: int) -> int {
    if a <= b {
        a
    } else {
        b
    }
}

/// What the quarter-resolution dense scan leaves behind: the
/// row-major-earliest minimum of the stride-1 scan of the window
/// spanned by the scaled search range, clipped to the vector rectangle
/// and scaled to quarter resolution; components are whole-pel.
pub open spec fn qres_scan_facts(
    fi: FrameInvariants,
    ts: TileState,
    rec: ReferenceFrame,
    adj: BlockOffset,
    blk_w: usize,
    blk_h: usize,
    best: MotionVector,
    cost: int,
) -> bool {
    let po = qres_po(ts, adj);
    let rr = mv_range_spec(
        fi.w_in_b as int,
        fi.h_in_b as int,
        (ts.mi_x + adj.x) as int,
        (ts.mi_y + adj.y) as int,
        blk_w as int,
        blk_h as int,
    );
    let rx = 192 * (fi.me_range_scale as int);
    let ry = 64 * (fi.me_range_scale as int);
    let czero = MeCtx {
        p_org: ts.input_qres,
        p_ref: rec.input_qres,
        po,
        pmv0: zero_mv(),
        pmv1: zero_mv(),
        lambda: ((fi.me_lambda_q8 / 128) as u32) as int,
        hp: fi.allow_high_precision_mv,
        mvx_min: 0,
        mvx_max: 0,
        mvy_min: 0,
        mvy_max: 0,
        w: (blk_w / 4) as nat,
        h: (blk_h / 4) as nat,
    };
    let x_lo = po.x + max_int(-rx, trunc_div(rr.0, 8)) / 4;
    let x_hi = po.x + min_int(rx, trunc_div(rr.1, 8)) / 4;
    let y_lo = po.y + max_int(-ry, trunc_div(rr.2, 8)) / 4;
    let y_hi = po.y + min_int(ry, trunc_div(rr.3, 8)) / 4;
    &&& best.row % 8 == 0
    &&& best.col % 8 == 0
    &&& forall|gx: int, gy: int|
        on_grid(x_lo, x_hi, 1, gx) && on_grid(y_lo, y_hi, 1, gy) ==> cost <= #[trigger] fs_cost(
            czero,
            gx,
            gy,
        )
    &&& exists|bx: int, by: int|
        {
            &&& on_grid(x_lo, x_hi, 1, bx)
            &&& on_grid(y_lo, y_hi, 1, by)
            &&& best == fs_mv(po, bx, by)
            &&& cost == #[trigger] fs_cost(czero, bx, by)
            &&& forall|gx: int, gy: int|
                on_grid(x_lo, x_hi, 1, gx) && on_grid(y_lo, y_hi, 1, gy) && (gy < by || (gy == by
                    && gx < bx)) ==> #[trigger] fs_cost(czero, gx, gy) > cost
        }
}

/// What the quarter-resolution entry point needs of its inputs.
pub open spec fn estimate_motion_ss4_pre(
    fi: FrameInvariants,
    ts: TileState,
    bsize: BlockSize,
    ref_idx: usize,
    tile_bo: BlockOffset,
) -> bool {
    let blk_w = bsize.width_spec();
    let blk_h = bsize.height_spec();
    let adj = adjust_bo_spec(
        tile_bo,
        ts.mi_width as int,
        ts.mi_height as int,
        blk_w as int,
        blk_h as int,
    );
    let fbo_x = (ts.mi_x + adj.x) as int;
    let fbo_y = (ts.mi_y + adj.y) as int;
    let r = mv_range_spec(
        fi.w_in_b as int,
        fi.h_in_b as int,
        fbo_x,
        fbo_y,
        blk_w as int,
        blk_h as int,
    );
    &&& fi.wf()
    &&& ts.wf()
    &&& ref_idx < fi.rec_buffer.frames.len()
    &&& tile_bo.x <= 0x2000
    &&& tile_bo.y <= 0x2000
    &&& blk_w / 4 <= ts.mi_width
    &&& blk_h / 4 <= ts.mi_height
    &&& ts.mi_x + ts.mi_width <= fi.w_in_b
    &&& ts.mi_y + ts.mi_height <= fi.h_in_b
    &&& -0x7F00 <= r.0 && r.1 <= 0x7F00
    &&& -0x7F00 <= r.2 && r.3 <= 0x7F00
    &&& match fi.rec_buffer.frames@[ref_idx as int] {
        Option::Some(rec) => {
            &&& ts.input_qres.slot_in_bounds(
                qres_po(ts, adj).x as int,
                qres_po(ts, adj).y as int,
                (blk_w / 4) as int,
                (blk_h / 4) as int,
            )
            &&& rec.input_qres.slot_in_bounds(
                qres_po(ts, adj).x as int,
                qres_po(ts, adj).y as int,
                (blk_w / 4) as int,
                (blk_h / 4) as int,
            )
        },
        Option::None => true,
    }
}

/// Quarter-resolution coarse search: a dense scan over a wide window of
/// the quarter-resolution planes, whose result is scaled back to
/// full-resolution eighth-pels, so both components are multiples of
/// four.  `None` when the reference is absent.
#[verifier::rlimit(100)]
fn qres_scan(
    fi: &FrameInvariants,
    ts: &TileState,
    rec: &ReferenceFrame,
    tile_bo_adj: BlockOffset,
    blk_w: usize,
    blk_h: usize,
) -> (r: (MotionVector, u64))
    requires
        fi.wf(),
        ts.wf(),
        rec.wf(),
        4 <= blk_w <= 128,
        4 <= blk_h <= 128,
        tile_bo_adj.x + blk_w / 4 <= ts.mi_width,
        tile_bo_adj.y + blk_h / 4 <= ts.mi_height,
        ts.mi_x + ts.mi_width <= fi.w_in_b,
        ts.mi_y + ts.mi_height <= fi.h_in_b,
        ({
            let rr = mv_range_spec(
                fi.w_in_b as int,
                fi.h_in_b as int,
                (ts.mi_x + tile_bo_adj.x) as int,
                (ts.mi_y + tile_bo_adj.y) as int,
                blk_w as int,
                blk_h as int,
            );
            &&& -0x7F00 <= rr.0 && rr.1 <= 0x7F00
            &&& -0x7F00 <= rr.2 && rr.3 <= 0x7F00
        }),
        ts.input_qres.slot_in_bounds(
            qres_po(*ts, tile_bo_adj).x as int,
            qres_po(*ts, tile_bo_adj).y as int,
            (blk_w / 4) as int,
            (blk_h / 4) as int,
        ),
        rec.input_qres.slot_in_bounds(
            qres_po(*ts, tile_bo_adj).x as int,
            qres_po(*ts, tile_bo_adj).y as int,
            (blk_w / 4) as int,
            (blk_h / 4) as int,
        ),
    ensures
        qres_scan_facts(*fi, *ts, *rec, tile_bo_adj, blk_w, blk_h, r.0, r.1 as int),
        -0x1FC0 <= r.0.row <= 0x1FC0,
        -0x1FC0 <= r.0.col <= 0x1FC0,
{
    let frame_bo_adj = ts.to_frame_block_offset(tile_bo_adj);
    let po = PlaneOffset { x: frame_bo_adj.x as i64, y: frame_bo_adj.y as i64 };

    let range_x: i64 = 192 * (fi.me_range_scale as i64);
    let range_y: i64 = 64 * (fi.me_range_scale as i64);
    let (mvx_min, mvx_max, mvy_min, mvy_max) = get_mv_range(
        fi.w_in_b,
        fi.h_in_b,
        frame_bo_adj,
        blk_w,
        blk_h,
    );
    let mvx_min8: i64 = div_trunc_i32(mvx_min as i32, 8) as i64;
    let mvx_max8: i64 = div_trunc_i32(mvx_max as i32, 8) as i64;
    let mvy_min8: i64 = div_trunc_i32(mvy_min as i32, 8) as i64;
    let mvy_max8: i64 = div_trunc_i32(mvy_max as i32, 8) as i64;
    proof {
        lemma_trunc_div_bound(mvx_min as int, 8, 0xFE0);
        lemma_trunc_div_bound(mvx_max as int, 8, 0xFE0);
        lemma_trunc_div_bound(mvy_min as int, 8, 0xFE0);
        lemma_trunc_div_bound(mvy_max as int, 8, 0xFE0);
    }
    let lo_x: i64 = if -range_x > mvx_min8 {
        -range_x
    } else {
        mvx_min8
    };
    let hi_x: i64 = if range_x < mvx_max8 {
        range_x
    } else {
        mvx_max8
    };
    let lo_y: i64 = if -range_y > mvy_min8 {
        -range_y
    } else {
        mvy_min8
    };
    let hi_y: i64 = if range_y < mvy_max8 {
        range_y
    } else {
        mvy_max8
    };
    let x_lo: i64 = po.x + floor_div_i64(lo_x, 4);
    let x_hi: i64 = po.x + floor_div_i64(hi_x, 4);
    let y_lo: i64 = po.y + floor_div_i64(lo_y, 4);
    let y_hi: i64 = po.y + floor_div_i64(hi_y, 4);
    proof {
        vstd::arithmetic::div_mod::lemma_div_is_ordered(lo_x as int, hi_x as int, 4);
        vstd::arithmetic::div_mod::lemma_div_is_ordered(lo_y as int, hi_y as int, 4);
    }

    let mut lowest_cost = u64::MAX;
    let mut best_mv = MotionVector::default();

    // A quarter of a sixteenth of the multiplier: subsampling
    // correction and a fudge factor.
    let lambda = fi.me_lambda_q8 / 128;

    let zero_pmv: [MotionVector; 2] = [MotionVector { row: 0, col: 0 }, MotionVector {
        row: 0,
        col: 0,
    }];
    full_search(
        x_lo,
        x_hi,
        y_lo,
        y_hi,
        blk_h / 4,
        blk_w / 4,
        &ts.input_qres,
        &rec.input_qres,
        &mut best_mv,
        &mut lowest_cost,
        po,
        1,
        fi.sequence.bit_depth,
        lambda,
        zero_pmv,
        fi.allow_high_precision_mv,
    );
    proof {
        let czero = fs_ctx(
            ts.input_qres,
            rec.input_qres,
            po,
            zero_pmv,
            lambda,
            fi.allow_high_precision_mv,
            (blk_w / 4) as usize,
            (blk_h / 4) as usize,
        );
        let (bx, by) = choose|bx: int, by: int|
            {
                &&& on_grid(x_lo as int, x_hi as int, 1, bx)
                &&& on_grid(y_lo as int, y_hi as int, 1, by)
                &&& best_mv == fs_mv(po, bx, by)
                &&& lowest_cost as int == #[trigger] fs_cost(czero, bx, by)
            };
        assert(-0x3F8 <= bx - po.x <= 0x3F8);
        assert(-0x3F8 <= by - po.y <= 0x3F8);
        assert(best_mv.col as int == 8 * (bx - po.x));
        assert(best_mv.row as int == 8 * (by - po.y));

        // Restate the scan's result over the derived window.
        let rr = mv_range_spec(
            fi.w_in_b as int,
            fi.h_in_b as int,
            (ts.mi_x + tile_bo_adj.x) as int,
            (ts.mi_y + tile_bo_adj.y) as int,
            blk_w as int,
            blk_h as int,
        );
        assert(po == qres_po(*ts, tile_bo_adj));
        assert(mvx_min == rr.0 as i64 && mvx_max == rr.1 as i64 && mvy_min == rr.2 as i64
            && mvy_max == rr.3 as i64);
        let czero_g = MeCtx {
            p_org: ts.input_qres,
            p_ref: rec.input_qres,
            po,
            pmv0: zero_mv(),
            pmv1: zero_mv(),
            lambda: ((fi.me_lambda_q8 / 128) as u32) as int,
            hp: fi.allow_high_precision_mv,
            mvx_min: 0,
            mvx_max: 0,
            mvy_min: 0,
            mvy_max: 0,
            w: (blk_w / 4) as nat,
            h: (blk_h / 4) as nat,
        };
        assert(czero_g == czero);
        assert(x_lo as int == po.x + max_int(
            -(192 * (fi.me_range_scale as int)),
            trunc_div(rr.0, 8),
        ) / 4);
        assert(x_hi as int == po.x + min_int(
            192 * (fi.me_range_scale as int),
            trunc_div(rr.1, 8),
        ) / 4);
        assert(y_lo as int == po.y + max_int(
            -(64 * (fi.me_range_scale as int)),
            trunc_div(rr.2, 8),
        ) / 4);
        assert(y_hi as int == po.y + min_int(
            64 * (fi.me_range_scale as int),
            trunc_div(rr.3, 8),
        ) / 4);
        vstd::arithmetic::div_mod::lemma_mod_multiples_basic(bx - po.x, 8);
        vstd::arithmetic::div_mod::lemma_mod_multiples_basic(by - po.y, 8);
        assert((bx - po.x) * 8 == 8 * (bx - po.x));
        assert((by - po.y) * 8 == 8 * (by - po.y));
        assert forall|gx: int, gy: int|
            on_grid(x_lo as int, x_hi as int, 1, gx) && on_grid(
                y_lo as int,
                y_hi as int,
                1,
                gy,
            ) implies lowest_cost as int <= #[trigger] fs_cost(czero_g, gx, gy) by {
            assert(fs_cost(czero_g, gx, gy) == fs_cost(czero, gx, gy));
        }
        assert forall|gx: int, gy: int|
            on_grid(x_lo as int, x_hi as int, 1, gx) && on_grid(
                y_lo as int,
                y_hi as int,
                1,
                gy,
            ) && (gy < by || (gy == by && gx < bx)) implies #[trigger] fs_cost(czero_g, gx, gy)
            > lowest_cost as int by {
            assert(fs_cost(czero_g, gx, gy) == fs_cost(czero, gx, gy));
        }
        assert(lowest_cost as int == fs_cost(czero_g, bx, by));
        assert(qres_scan_facts(
            *fi,
            *ts,
            *rec,
            tile_bo_adj,
            blk_w,
            blk_h,
            best_mv,
            lowest_cost as int,
        ));
    }
    (best_mv, lowest_cost)
}

/// Quarter-resolution coarse search: a dense scan over a wide window of
/// the quarter-resolution planes, whose result is scaled back to
/// full-resolution eighth-pels, so both components are multiples of
/// four.  `None` when the reference is absent; otherwise the result is
/// four times the row-major-earliest minimum of the derived window.
pub fn estimate_motion_ss4(
    fi: &FrameInvariants,
    ts: &TileState,
    bsize: BlockSize,
    ref_idx: usize,
    tile_bo: BlockOffset,
) -> (r: Option<MotionVector>)
    requires
        estimate_motion_ss4_pre(*fi, *ts, bsize, ref_idx, tile_bo),
    ensures
        (r is Some) <==> (fi.rec_buffer.frames@[ref_idx as int] is Some),
        match r {
            Option::Some(v) => v.row % 4 == 0 && v.col % 4 == 0,
            Option::None => true,
        },
        ({
            let adj = adjust_bo_spec(
                tile_bo,
                ts.mi_width as int,
                ts.mi_height as int,
                bsize.width_spec() as int,
                bsize.height_spec() as int,
            );
            match fi.rec_buffer.frames@[ref_idx as int] {
                Option::Some(rec) => match r {
                    Option::Some(v) => exists|b: MotionVector, cost: int|
                        {
                            &&& #[trigger] qres_scan_facts(
                                *fi,
                                *ts,
                                rec,
                                adj,
                                bsize.width_spec(),
                                bsize.height_spec(),
                                b,
                                cost,
                            )
                            &&& v.row as int == 4 * b.row
                            &&& v.col as int == 4 * b.col
                        },
                    Option::None => false,
                },
                Option::None => true,
            }
        }),
{
    match &fi.rec_buffer.frames[ref_idx] {
        Option::Some(rec) => {
            let blk_w = bsize.width();
            let blk_h = bsize.height();
            let tile_bo_adj = adjust_bo(tile_bo, ts.mi_width, ts.mi_height, blk_w, blk_h);
            let (best_mv, lowest_cost) = qres_scan(fi, ts, rec, tile_bo_adj, blk_w, blk_h);
            proof {
                assert((4 * (best_mv.row as int)) % 4 == 0 && (4 * (best_mv.col as int)) % 4 == 0)
                    by (nonlinear_arith);
                assert(blk_w == bsize.width_spec() && blk_h == bsize.height_spec());
                assert(qres_scan_facts(
                    *fi,
                    *ts,
                    *rec,
                    tile_bo_adj,
                    bsize.width_spec(),
                    bsize.height_spec(),
                    best_mv,
                    lowest_cost as int,
                ));
            }
            Option::Some(MotionVector { row: best_mv.row * 4, col: best_mv.col * 4 })
        },
        Option::None => Option::None,
    }
}

} // verus!
