use crate::grid::{FrameMotionVectors, ReferenceFrame, TileMotionVectors};
use crate::mv::{
    div_trunc_i32, lemma_trunc_div_bound, quantize_mv, trunc_div, zero_mv, MotionVector,
};
use crate::types::BlockOffset;
use vstd::prelude::*;

verus! {

/// Bounded in-place vector from the arrayvec crate, holding the
/// candidate motion vectors of one search.  Declared opaque; its contents
/// are reached through `mv_list_mvs` below.
#[verifier::external_type_specification]
#[verifier::external_body]
#[verifier::reject_recursive_types(T)]
pub struct ExArrayVec<T, const CAP: usize>(arrayvec::ArrayVec<T, CAP>);

/// The motion vectors held by a candidate list, in insertion order.
pub uninterp spec fn mv_list_mvs(v: arrayvec::ArrayVec<MotionVector, 11>) -> Seq<MotionVector>;

/// Relies on arrayvec::ArrayVec::new: a fresh list holds no elements.
#[verifier::external_body]
pub fn mv_list_new() -> (v: arrayvec::ArrayVec<MotionVector, 11>)
    ensures
        mv_list_mvs(v) == Seq::<MotionVector>::empty(),
{
    arrayvec::ArrayVec::new()
}

/// Relies on arrayvec::ArrayVec::push: appends the element at the end.
/// The crate's `push` panics on a full list, so room is required here.
#[verifier::external_body]
pub fn mv_list_push(v: &mut arrayvec::ArrayVec<MotionVector, 11>, mv: MotionVector)
    requires
        mv_list_mvs(*old(v)).len() < 11,
    ensures
        mv_list_mvs(*final(v)) == mv_list_mvs(*old(v)).push(mv),
{
    v.push(mv)
}

/// Relies on arrayvec::ArrayVec::as_slice: all elements, in order.
#[verifier::external_body]
pub fn mv_list_slice(v: &arrayvec::ArrayVec<MotionVector, 11>) -> (s: &[MotionVector])
    ensures
        s@ == mv_list_mvs(*v),
{
    v.as_slice()
}

/// Candidates seeded from the current frame: the neutral vector, the
/// coarse vector rounded to a whole pixel, the three already-coded
/// spatial neighbors when present and non-zero, and their component-wise
/// arithmetic mean rounded to a whole pixel when non-zero.  The tile is
/// the `tcols`-wide window of grid `g` at `(tx, ty)`.
pub open spec fn spatial_predictors_spec(
    g: FrameMotionVectors,
    tx: int,
    ty: int,
    tcols: int,
    bo: BlockOffset,
    cmv: MotionVector,
) -> Seq<MotionVector> {
    let base = seq![zero_mv(), quantize_mv(cmv)];
    let has_left = bo.x > 0;
    let has_top = bo.y > 0;
    let has_tr = bo.y > 0 && bo.x < tcols - 1;
    let left = g.mv_spec(ty + bo.y, tx + bo.x - 1);
    let top = g.mv_spec(ty + bo.y - 1, tx + bo.x);
    let tr = g.mv_spec(ty + bo.y - 1, tx + bo.x + 1);
    let s1 = if has_left && left != zero_mv() {
        base.push(left)
    } else {
        base
    };
    let s2 = if has_top && top != zero_mv() {
        s1.push(top)
    } else {
        s1
    };
    let s3 = if has_tr && tr != zero_mv() {
        s2.push(tr)
    } else {
        s2
    };
    let cnt = (if has_left {
        1int
    } else {
        0int
    }) + (if has_top {
        1int
    } else {
        0int
    }) + (if has_tr {
        1int
    } else {
        0int
    });
    if cnt > 0 {
        let sr = (if has_left {
            left.row as int
        } else {
            0int
        }) + (if has_top {
            top.row as int
        } else {
            0int
        }) + (if has_tr {
            tr.row as int
        } else {
            0int
        });
        let sc = (if has_left {
            left.col as int
        } else {
            0int
        }) + (if has_top {
            top.col as int
        } else {
            0int
        }) + (if has_tr {
            tr.col as int
        } else {
            0int
        });
        let mean = MotionVector {
            row: trunc_div(sr, cnt) as i16,
            col: trunc_div(sc, cnt) as i16,
        };
        let med = quantize_mv(mean);
        if med != zero_mv() {
            s3.push(med)
        } else {
            s3
        }
    } else {
        s3
    }
}

/// Candidates read from the co-located position of the previous frame's
/// grid: the four compass neighbors and the co-located vector itself,
/// each when in bounds and non-zero.
pub open spec fn temporal_predictors_spec(
    tx: int,
    ty: int,
    bo: BlockOffset,
    prev: Option<FrameMotionVectors>,
) -> Seq<MotionVector> {
    match prev {
        Option::None => Seq::<MotionVector>::empty(),
        Option::Some(p) => {
            let fx = tx + bo.x;
            let fy = ty + bo.y;
            let e = Seq::<MotionVector>::empty();
            let left = p.mv_spec(fy as int, fx - 1);
            let top = p.mv_spec(fy - 1, fx as int);
            let right = p.mv_spec(fy as int, fx + 1);
            let bottom = p.mv_spec(fy + 1, fx as int);
            let colocated = p.mv_spec(fy as int, fx as int);
            let s1 = if fx > 0 && left != zero_mv() {
                e.push(left)
            } else {
                e
            };
            let s2 = if fy > 0 && top != zero_mv() {
                s1.push(top)
            } else {
                s1
            };
            let s3 = if fx < p.cols - 1 && right != zero_mv() {
                s2.push(right)
            } else {
                s2
            };
            let s4 = if fy < p.rows - 1 && bottom != zero_mv() {
                s3.push(bottom)
            } else {
                s3
            };
            if colocated != zero_mv() {
                s4.push(colocated)
            } else {
                s4
            }
        },
    }
}

/// All candidate seeds for one block, in the order a search prefers them.
pub open spec fn predictors_spec(
    g: FrameMotionVectors,
    tx: int,
    ty: int,
    tcols: int,
    bo: BlockOffset,
    cmv: MotionVector,
    prev: Option<FrameMotionVectors>,
) -> Seq<MotionVector> {
    spatial_predictors_spec(g, tx, ty, tcols, bo, cmv) + temporal_predictors_spec(tx, ty, bo, prev)
}

/// The grid of the previous frame used for temporal candidates, when a
/// reference frame is at hand.
pub open spec fn prev_grid_spec(
    frame_ref_opt: Option<&ReferenceFrame>,
    ref_frame_id: usize,
) -> Option<FrameMotionVectors> {
    match frame_ref_opt {
        Option::None => Option::None,
        Option::Some(fr) => Option::Some(fr.frame_mvs@[ref_frame_id as int]),
    }
}

/// Gather the candidate seeds for the block at `tile_bo`: the neutral
/// vector, the coarse seed `cmv` rounded to a whole pixel, spatial
/// neighbors of the current frame with their mean, and co-located
/// neighbors of the previous frame.  Insertion order is kept; downstream
/// consumers prefer earlier candidates on ties.
/// The spatial stage emits at least the two fixed seeds and at most six
/// candidates; the temporal stage emits at most five.
pub proof fn lemma_predictor_counts(
    g: FrameMotionVectors,
    tx: int,
    ty: int,
    tcols: int,
    bo: BlockOffset,
    cmv: MotionVector,
    prev: Option<FrameMotionVectors>,
)
    ensures
        2 <= spatial_predictors_spec(g, tx, ty, tcols, bo, cmv).len() <= 6,
        temporal_predictors_spec(tx, ty, bo, prev).len() <= 5,
        spatial_predictors_spec(g, tx, ty, tcols, bo, cmv)[0] == zero_mv(),
        predictors_spec(g, tx, ty, tcols, bo, cmv, prev)[0] == zero_mv(),
        2 <= predictors_spec(g, tx, ty, tcols, bo, cmv, prev).len() <= 11,
{
}

/// Gather the candidate seeds for the block at `tile_bo`: the neutral
/// vector, the coarse seed `cmv` rounded to a whole pixel, spatial
/// neighbors of the current frame with their mean, and co-located
/// neighbors of the previous frame.  Insertion order is kept; downstream
/// consumers prefer earlier candidates on ties.
pub fn get_subset_predictors(
    tile_bo: BlockOffset,
    cmv: MotionVector,
    tile_mvs: &TileMotionVectors<'_>,
    frame_ref_opt: Option<&ReferenceFrame>,
    ref_frame_id: usize,
) -> (predictors: arrayvec::ArrayVec<MotionVector, 11>)
    requires
        tile_mvs.wf(),
        tile_bo.x < tile_mvs.cols,
        tile_bo.y < tile_mvs.rows,
        match frame_ref_opt {
            Option::Some(fr) => {
                &&& fr.wf()
                &&& ref_frame_id < fr.frame_mvs.len()
                &&& tile_mvs.x + tile_bo.x < fr.frame_mvs@[ref_frame_id as int].cols
                &&& tile_mvs.y + tile_bo.y < fr.frame_mvs@[ref_frame_id as int].rows
            },
            Option::None => true,
        },
    ensures
        mv_list_mvs(predictors) == predictors_spec(
            *tile_mvs.frame_mvs,
            tile_mvs.x as int,
            tile_mvs.y as int,
            tile_mvs.cols as int,
            tile_bo,
            cmv,
            prev_grid_spec(frame_ref_opt, ref_frame_id),
        ),
        1 <= mv_list_mvs(predictors).len() <= 11,
        mv_list_mvs(predictors)[0] == zero_mv(),
{
    let mut predictors: arrayvec::ArrayVec<MotionVector, 11> = mv_list_new();
    push_spatial_predictors(&mut predictors, tile_bo, cmv, tile_mvs);
    push_temporal_predictors(&mut predictors, tile_bo, tile_mvs, frame_ref_opt, ref_frame_id);
    proof {
        lemma_predictor_counts(
            *tile_mvs.frame_mvs,
            tile_mvs.x as int,
            tile_mvs.y as int,
            tile_mvs.cols as int,
            tile_bo,
            cmv,
            prev_grid_spec(frame_ref_opt, ref_frame_id),
        );
    }
    predictors
}

/// The fixed seeds and the spatial-neighbor stage of the collector.
fn push_spatial_predictors(
    predictors: &mut arrayvec::ArrayVec<MotionVector, 11>,
    tile_bo: BlockOffset,
    cmv: MotionVector,
    tile_mvs: &TileMotionVectors<'_>,
)
    requires
        tile_mvs.wf(),
        tile_bo.x < tile_mvs.cols,
        tile_bo.y < tile_mvs.rows,
        mv_list_mvs(*old(predictors)).len() == 0,
    ensures
        mv_list_mvs(*final(predictors)) == spatial_predictors_spec(
            *tile_mvs.frame_mvs,
            tile_mvs.x as int,
            tile_mvs.y as int,
            tile_mvs.cols as int,
            tile_bo,
            cmv,
        ),
{
    let ghost g = *tile_mvs.frame_mvs;
    let ghost tx = tile_mvs.x as int;
    let ghost ty = tile_mvs.y as int;
    let ghost tcols = tile_mvs.cols as int;

    // Zero motion vector.
    mv_list_push(predictors, MotionVector::default());

    // Coarse motion estimation seed.
    mv_list_push(predictors, cmv.quantize_to_fullpel());
    assert(mv_list_mvs(*predictors) =~= seq![zero_mv(), quantize_mv(cmv)]);

    // Spatial neighbors of the current frame, with their mean.
    let mut sum_row: i32 = 0;
    let mut sum_col: i32 = 0;
    let mut count: i32 = 0;
    if tile_bo.x > 0 {
        let left = tile_mvs.get(tile_bo.y, tile_bo.x - 1);
        sum_row = sum_row + (left.row as i32);
        sum_col = sum_col + (left.col as i32);
        count = count + 1;
        if !left.is_zero() {
            mv_list_push(predictors, left);
        }
    }
    if tile_bo.y > 0 {
        let top = tile_mvs.get(tile_bo.y - 1, tile_bo.x);
        sum_row = sum_row + (top.row as i32);
        sum_col = sum_col + (top.col as i32);
        count = count + 1;
        if !top.is_zero() {
            mv_list_push(predictors, top);
        }
        if tile_bo.x < tile_mvs.cols - 1 {
            let top_right = tile_mvs.get(tile_bo.y - 1, tile_bo.x + 1);
            sum_row = sum_row + (top_right.row as i32);
            sum_col = sum_col + (top_right.col as i32);
            count = count + 1;
            if !top_right.is_zero() {
                mv_list_push(predictors, top_right);
            }
        }
    }
    if count > 0 {
        proof {
            lemma_trunc_div_bound(sum_row as int, count as int, 0x8000);
            lemma_trunc_div_bound(sum_col as int, count as int, 0x8000);
        }
        let mean = MotionVector {
            row: div_trunc_i32(sum_row, count) as i16,
            col: div_trunc_i32(sum_col, count) as i16,
        };
        let median_mv_quant = mean.quantize_to_fullpel();
        if !median_mv_quant.is_zero() {
            mv_list_push(predictors, median_mv_quant);
        }
    }
    assert(mv_list_mvs(*predictors) =~= spatial_predictors_spec(g, tx, ty, tcols, tile_bo, cmv));
}

/// The temporal-neighbor stage of the collector.
fn push_temporal_predictors(
    predictors: &mut arrayvec::ArrayVec<MotionVector, 11>,
    tile_bo: BlockOffset,
    tile_mvs: &TileMotionVectors<'_>,
    frame_ref_opt: Option<&ReferenceFrame>,
    ref_frame_id: usize,
)
    requires
        tile_mvs.wf(),
        tile_bo.x < tile_mvs.cols,
        tile_bo.y < tile_mvs.rows,
        mv_list_mvs(*old(predictors)).len() <= 6,
        match frame_ref_opt {
            Option::Some(fr) => {
                &&& fr.wf()
                &&& ref_frame_id < fr.frame_mvs.len()
                &&& tile_mvs.x + tile_bo.x < fr.frame_mvs@[ref_frame_id as int].cols
                &&& tile_mvs.y + tile_bo.y < fr.frame_mvs@[ref_frame_id as int].rows
            },
            Option::None => true,
        },
    ensures
        mv_list_mvs(*final(predictors)) == mv_list_mvs(*old(predictors))
            + temporal_predictors_spec(
            tile_mvs.x as int,
            tile_mvs.y as int,
            tile_bo,
            prev_grid_spec(frame_ref_opt, ref_frame_id),
        ),
{
    let ghost tx = tile_mvs.x as int;
    let ghost ty = tile_mvs.y as int;
    if let Option::Some(frame_ref) = frame_ref_opt {
        let prev_frame_mvs = &frame_ref.frame_mvs[ref_frame_id];
        let frame_bo_x: usize = tile_mvs.x + tile_bo.x;
        let frame_bo_y: usize = tile_mvs.y + tile_bo.y;
        if frame_bo_x > 0 {
            let left = prev_frame_mvs.get(frame_bo_y, frame_bo_x - 1);
            if !left.is_zero() {
                mv_list_push(predictors, left);
            }
        }
        if frame_bo_y > 0 {
            let top = prev_frame_mvs.get(frame_bo_y - 1, frame_bo_x);
            if !top.is_zero() {
                mv_list_push(predictors, top);
            }
        }
        if frame_bo_x < prev_frame_mvs.cols - 1 {
            let right = prev_frame_mvs.get(frame_bo_y, frame_bo_x + 1);
            if !right.is_zero() {
                mv_list_push(predictors, right);
            }
        }
        if frame_bo_y < prev_frame_mvs.rows - 1 {
            let bottom = prev_frame_mvs.get(frame_bo_y + 1, frame_bo_x);
            if !bottom.is_zero() {
                mv_list_push(predictors, bottom);
            }
        }
        let previous = prev_frame_mvs.get(frame_bo_y, frame_bo_x);
        if !previous.is_zero() {
            mv_list_push(predictors, previous);
        }
    }
    assert(mv_list_mvs(*predictors) =~= mv_list_mvs(*old(predictors))
        + temporal_predictors_spec(tx, ty, tile_bo, prev_grid_spec(frame_ref_opt, ref_frame_id)));
}

} // verus!
