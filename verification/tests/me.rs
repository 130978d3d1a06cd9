use me_core::estimate::{estimate_motion_ss4, DiamondSearch, FullSearch, MotionEstimation};
use me_core::grid::{Frame, FrameMotionVectors, ReferenceFrame};
use me_core::mv::MotionVector;
use me_core::plane::Plane;
use me_core::predictors::{get_subset_predictors, mv_list_slice};
use me_core::sad::get_sad;
use me_core::state::{FrameInvariants, ReferenceFramesSet, Sequence, TileState};
use me_core::types::{BlockOffset, BlockSize, RefType};

// Generate plane data for get_sad_same()
fn setup_sad() -> (Plane, Plane) {
    let mut input_plane = Plane::new(640, 480, 128 + 8, 128 + 8);
    let mut rec_plane = Plane::new(640, 480, 128 + 8, 128 + 8);
    // Make the test pattern robust to data alignment
    let xpad_off: i32 = (input_plane.cfg.xorigin as i32) - (input_plane.cfg.xpad as i32) - 8i32;

    for i in 0..input_plane.cfg.alloc_height {
        for j in 0..input_plane.cfg.stride {
            let val: i32 = ((j + i) as i32 - xpad_off) & 255i32;
            assert!(val >= u8::MIN.into() && val <= u8::MAX.into());
            input_plane.set_abs(j, i, val as u16);
        }
    }

    for i in 0..rec_plane.cfg.alloc_height {
        for j in 0..rec_plane.cfg.stride {
            let val: i32 = (j as i32 - i as i32 - xpad_off) & 255i32;
            assert!(val >= u8::MIN.into() && val <= u8::MAX.into());
            rec_plane.set_abs(j, i, val as u16);
        }
    }

    (input_plane, rec_plane)
}

// Regression and validation test for SAD computation
fn get_sad_same_inner() {
    let blocks: Vec<(BlockSize, u32)> = vec![
        (BlockSize::BLOCK_4X4, 1912),
        (BlockSize::BLOCK_4X8, 4296),
        (BlockSize::BLOCK_8X4, 3496),
        (BlockSize::BLOCK_8X8, 7824),
        (BlockSize::BLOCK_8X16, 16592),
        (BlockSize::BLOCK_16X8, 14416),
        (BlockSize::BLOCK_16X16, 31136),
        (BlockSize::BLOCK_16X32, 60064),
        (BlockSize::BLOCK_32X16, 59552),
        (BlockSize::BLOCK_32X32, 120128),
        (BlockSize::BLOCK_32X64, 186688),
        (BlockSize::BLOCK_64X32, 250176),
        (BlockSize::BLOCK_64X64, 438912),
        (BlockSize::BLOCK_64X128, 654272),
        (BlockSize::BLOCK_128X64, 1016768),
        (BlockSize::BLOCK_128X128, 1689792),
        (BlockSize::BLOCK_4X16, 8680),
        (BlockSize::BLOCK_16X4, 6664),
        (BlockSize::BLOCK_8X32, 31056),
        (BlockSize::BLOCK_32X8, 27600),
        (BlockSize::BLOCK_16X64, 93344),
        (BlockSize::BLOCK_64X16, 116384),
    ];

    let bit_depth: usize = 8;
    let (input_plane, rec_plane) = setup_sad();

    for block in blocks {
        let bsw: usize = block.0.width();
        let bsh: usize = block.0.height();

        let input_region = input_plane.region(32, 40);
        let rec_region = rec_plane.region(32, 40);

        assert_eq!(block.1, get_sad(&input_region, &rec_region, bsw, bsh, bit_depth));
    }
}

#[test]
fn get_sad_same_u8() {
    get_sad_same_inner();
}

#[test]
fn get_sad_same_u16() {
    get_sad_same_inner();
}

#[test]
fn sad_symmetry_concrete() {
    let (input_plane, rec_plane) = setup_sad();
    let a = input_plane.region(32, 40);
    let b = rec_plane.region(32, 40);
    let fwd: u32 = get_sad(&a, &b, 16, 16, 8);
    let bwd: u32 = get_sad(&b, &a, 16, 16, 8);
    assert_eq!(fwd, bwd);
    assert_eq!(fwd, 31136);
}

#[test]
fn sad_depth_bound_concrete() {
    let (input_plane, rec_plane) = setup_sad();
    let a = input_plane.region(32, 40);
    let b = rec_plane.region(32, 40);
    for &(w, h) in &[(4usize, 4usize), (8, 8), (16, 16), (64, 64)] {
        let s: u32 = get_sad(&a, &b, w, h, 8);
        assert!(s <= 255 * (w as u32) * (h as u32));
    }
}

#[test]
fn mv_rate_parity() {
    for &hp in &[false, true] {
        for &mv in &[
            MotionVector { row: 0, col: 0 },
            MotionVector { row: 13, col: -7 },
            MotionVector { row: -300, col: 299 },
        ] {
            assert_eq!(me_core::mv::get_mv_rate(mv, mv, hp), 0);
        }
    }
}

#[test]
fn mv_rate_symmetry_high_precision() {
    let a = MotionVector { row: 3, col: -11 };
    let b = MotionVector { row: -6, col: 14 };
    assert_eq!(
        me_core::mv::get_mv_rate(a, b, true),
        me_core::mv::get_mv_rate(b, a, true)
    );
}

#[test]
fn mv_rate_exact_values() {
    let zero = MotionVector { row: 0, col: 0 };
    // diff 3, not high-precision: 3 >> 1 = 1, two bits of rate.
    assert_eq!(me_core::mv::get_mv_rate(MotionVector { row: 3, col: 0 }, zero, false), 2);
    // diff -3, not high-precision: -3 >> 1 = -2, four bits of rate.
    assert_eq!(me_core::mv::get_mv_rate(MotionVector { row: -3, col: 0 }, zero, false), 4);
    // diff 8 on each component, high precision: 2 * (2 * 4).
    let mv = MotionVector { row: 8, col: 8 };
    assert_eq!(me_core::mv::get_mv_rate(mv, zero, true), 16);
}

#[test]
fn quantize_to_fullpel_values() {
    let v = MotionVector { row: 13, col: -13 };
    let q = v.quantize_to_fullpel();
    assert_eq!(q, MotionVector { row: 8, col: -8 });
    // Idempotent, and whole-pel afterwards.
    assert_eq!(q.quantize_to_fullpel(), q);
    assert_eq!(q.row % 8, 0);
    assert_eq!(q.col % 8, 0);
    let w = MotionVector { row: -7, col: 7 };
    assert_eq!(w.quantize_to_fullpel(), MotionVector { row: 0, col: 0 });
}

#[test]
fn frame_motion_vectors_grid() {
    let mut g = FrameMotionVectors::new(8, 6);
    assert_eq!(g.cols, 8);
    assert_eq!(g.rows, 6);
    assert_eq!(g.get(3, 5), MotionVector { row: 0, col: 0 });
    g.set(3, 5, MotionVector { row: -2, col: 9 });
    assert_eq!(g.get(3, 5), MotionVector { row: -2, col: 9 });
    assert_eq!(g.get(3, 4), MotionVector { row: 0, col: 0 });
    let t = g.as_tile_motion_vectors();
    assert_eq!(t.cols, 8);
    assert_eq!(t.rows, 6);
    assert_eq!(t.get(3, 5), MotionVector { row: -2, col: 9 });
    let tm = g.as_tile_motion_vectors_mut();
    tm.set(2, 1, MotionVector { row: 4, col: 4 });
    assert_eq!(g.get(2, 1), MotionVector { row: 4, col: 4 });
}

#[test]
fn subset_predictors_contents() {
    // Spatial neighbors around block (1, 1) of a 4x4 grid.
    let mut g = FrameMotionVectors::new(4, 4);
    g.set(1, 0, MotionVector { row: 8, col: 16 }); // left
    g.set(0, 1, MotionVector { row: -8, col: 8 }); // top
    g.set(0, 2, MotionVector { row: 0, col: 0 }); // top-right: zero, skipped
    let t = g.as_tile_motion_vectors();
    let cmv = MotionVector { row: 11, col: -11 };
    let preds = get_subset_predictors(BlockOffset { x: 1, y: 1 }, cmv, &t, None, 0);
    let s = mv_list_slice(&preds);
    // Mean of (8,16), (-8,8), (0,0) is (0,8), already whole-pel.
    let expect = [
        MotionVector { row: 0, col: 0 },
        MotionVector { row: 8, col: -8 }, // cmv quantized toward zero
        MotionVector { row: 8, col: 16 },
        MotionVector { row: -8, col: 8 },
        MotionVector { row: 0, col: 8 },
    ];
    assert_eq!(s.len(), expect.len());
    for (have, want) in s.iter().zip(expect.iter()) {
        assert_eq!(have, want);
    }
}

fn grad_val(i: usize, j: usize) -> u16 {
    // Steep row ramp and gentle column ramp: the distortion of a
    // displaced read grows strictly with the displacement, so searches
    // have a single sharp optimum.
    (i * 500 + j * 3) as u16
}

fn fill_plane(p: &mut Plane, col_shift: usize) {
    for i in 0..p.cfg.alloc_height {
        for j in 0..p.cfg.stride {
            p.set_abs(j, i, grad_val(i, j + col_shift));
        }
    }
}

/// Frame state over 64x64 luma where the reference equals the input
/// shifted right by `shift` pixels (shift 0: identical planes).
fn setup_me(shift: usize) -> (FrameInvariants, TileState) {
    let mut input = Plane::new(64, 64, 24, 24);
    fill_plane(&mut input, 1);
    let mut refp = Plane::new(64, 64, 24, 24);
    // reference(x) = input(x - shift): content moved right by `shift`.
    fill_plane(&mut refp, 1 - shift);

    let mut input_hres = Plane::new(32, 32, 8, 8);
    fill_plane(&mut input_hres, 1);
    let mut input_qres = Plane::new(16, 16, 4, 4);
    fill_plane(&mut input_qres, 1);
    let mut ref_hres = Plane::new(32, 32, 8, 8);
    fill_plane(&mut ref_hres, 1);
    let mut ref_qres = Plane::new(16, 16, 4, 4);
    fill_plane(&mut ref_qres, 1);

    let rec = ReferenceFrame {
        frame: Frame { planes: vec![refp] },
        input_hres: ref_hres,
        input_qres: ref_qres,
        frame_mvs: vec![FrameMotionVectors::new(16, 16)],
    };

    let fi = FrameInvariants {
        sequence: Sequence { bit_depth: 8 },
        rec_buffer: ReferenceFramesSet { frames: vec![Some(rec)] },
        ref_frames: vec![0; 7],
        w_in_b: 16,
        h_in_b: 16,
        me_lambda_q8: 2,
        me_range_scale: 1,
        allow_high_precision_mv: false,
    };

    let ts = TileState {
        input: Frame { planes: vec![input] },
        input_hres,
        input_qres,
        mvs: vec![FrameMotionVectors::new(16, 16)],
        mi_x: 0,
        mi_y: 0,
        mi_width: 16,
        mi_height: 16,
    };

    (fi, ts)
}

#[test]
fn search_identical_planes() {
    let (fi, ts) = setup_me(0);
    let zero = MotionVector { row: 0, col: 0 };
    let mv = DiamondSearch::motion_estimation(
        &fi,
        &ts,
        BlockSize::BLOCK_16X16,
        BlockOffset { x: 2, y: 2 },
        RefType::LAST_FRAME,
        zero,
        [zero, zero],
    );
    assert_eq!(mv, zero);
    let mv2 = FullSearch::motion_estimation(
        &fi,
        &ts,
        BlockSize::BLOCK_16X16,
        BlockOffset { x: 2, y: 2 },
        RefType::LAST_FRAME,
        zero,
        [zero, zero],
    );
    assert_eq!(mv2, zero);
}

#[test]
fn search_pure_translation() {
    let (fi, ts) = setup_me(1);
    let zero = MotionVector { row: 0, col: 0 };
    let mv = DiamondSearch::motion_estimation(
        &fi,
        &ts,
        BlockSize::BLOCK_16X16,
        BlockOffset { x: 2, y: 2 },
        RefType::LAST_FRAME,
        zero,
        [zero, zero],
    );
    assert_eq!(mv, MotionVector { row: 0, col: 8 });
    let mv2 = FullSearch::motion_estimation(
        &fi,
        &ts,
        BlockSize::BLOCK_16X16,
        BlockOffset { x: 2, y: 2 },
        RefType::LAST_FRAME,
        zero,
        [zero, zero],
    );
    assert_eq!(mv2, MotionVector { row: 0, col: 8 });
}

#[test]
fn search_missing_reference() {
    let (fi0, ts) = setup_me(0);
    let fi = FrameInvariants {
        rec_buffer: ReferenceFramesSet { frames: vec![None] },
        ..fi0
    };
    let zero = MotionVector { row: 0, col: 0 };
    let mv = DiamondSearch::motion_estimation(
        &fi,
        &ts,
        BlockSize::BLOCK_16X16,
        BlockOffset { x: 2, y: 2 },
        RefType::LAST_FRAME,
        zero,
        [zero, zero],
    );
    assert_eq!(mv, zero);
    let r2 = DiamondSearch::estimate_motion_ss2(
        &fi,
        &ts,
        BlockSize::BLOCK_16X16,
        0,
        BlockOffset { x: 2, y: 2 },
        &[Some(zero), None, None],
        0,
    );
    assert!(r2.is_none());
    let r4 = estimate_motion_ss4(&fi, &ts, BlockSize::BLOCK_16X16, 0, BlockOffset { x: 2, y: 2 });
    assert!(r4.is_none());
}

#[test]
fn search_out_of_range_predictor() {
    let (fi, ts) = setup_me(0);
    let zero = MotionVector { row: 0, col: 0 };
    // A seed far beyond the allowed rectangle must be rejected, and the
    // search must still land on an in-range vector.
    let wild = MotionVector { row: 30000, col: 30000 };
    let mv = DiamondSearch::motion_estimation(
        &fi,
        &ts,
        BlockSize::BLOCK_16X16,
        BlockOffset { x: 2, y: 2 },
        RefType::LAST_FRAME,
        wild,
        [zero, zero],
    );
    // The rectangle for this block: each component in [-320, 576].
    assert!(mv.col as i64 >= -320 && mv.col as i64 <= 576);
    assert!(mv.row as i64 >= -320 && mv.row as i64 <= 576);
    // With identical planes the zero vector still wins.
    assert_eq!(mv, zero);
}

#[test]
fn coarse_scale_multiples() {
    let (fi, ts) = setup_me(0);
    let zero = MotionVector { row: 0, col: 0 };
    let r4 = estimate_motion_ss4(&fi, &ts, BlockSize::BLOCK_64X64, 0, BlockOffset { x: 0, y: 0 });
    let v4 = r4.unwrap();
    assert_eq!(v4.row % 4, 0);
    assert_eq!(v4.col % 4, 0);
    let r2 = DiamondSearch::estimate_motion_ss2(
        &fi,
        &ts,
        BlockSize::BLOCK_64X64,
        0,
        BlockOffset { x: 0, y: 0 },
        &[Some(v4), None, None],
        0,
    );
    let v2 = r2.unwrap();
    assert_eq!(v2.row % 2, 0);
    assert_eq!(v2.col % 2, 0);
    let r2f = FullSearch::estimate_motion_ss2(
        &fi,
        &ts,
        BlockSize::BLOCK_64X64,
        0,
        BlockOffset { x: 0, y: 0 },
        &[Some(v4), None, None],
        0,
    );
    let v2f = r2f.unwrap();
    assert_eq!(v2f.row % 2, 0);
    assert_eq!(v2f.col % 2, 0);
}

#[test]
fn predict_inter_whole_pel_copies() {
    let mut refp = Plane::new(64, 64, 24, 24);
    fill_plane(&mut refp, 0);
    let mut dst = Plane::new(8, 8, 0, 0);
    let po = me_core::types::PlaneOffset { x: 8, y: 8 };
    // One whole pixel right and down: plain copy of the shifted block.
    me_core::interp::predict_inter(&refp, po, MotionVector { row: 8, col: 8 }, 8, 8, &mut dst);
    for r in 0..8i64 {
        for c in 0..8i64 {
            assert_eq!(dst.sample_at(c, r), refp.sample_at(9 + c, 9 + r));
        }
    }
}

#[test]
fn predict_inter_halfway_blend() {
    let mut refp = Plane::new(16, 16, 8, 8);
    // Column gradient: sample value is 10 times the absolute column.
    for i in 0..refp.cfg.alloc_height {
        for j in 0..refp.cfg.stride {
            refp.set_abs(j, i, (10 * j) as u16);
        }
    }
    let mut dst = Plane::new(4, 4, 0, 0);
    let po = me_core::types::PlaneOffset { x: 4, y: 4 };
    // Half a pixel to the right: the average of two neighboring columns.
    me_core::interp::predict_inter(&refp, po, MotionVector { row: 0, col: 4 }, 4, 4, &mut dst);
    for r in 0..4i64 {
        for c in 0..4i64 {
            let left: u32 = refp.sample_at(4 + c, 4 + r) as u32;
            let right: u32 = refp.sample_at(5 + c, 4 + r) as u32;
            assert_eq!(dst.sample_at(c, r) as u32, (left + right + 1) / 2);
        }
    }
}

#[test]
fn rd_cost_exact_formula() {
    // Two flat planes a constant step apart: distortion is exactly one
    // step per sample.
    let mut a = Plane::new(8, 8, 0, 0);
    let mut b = Plane::new(8, 8, 0, 0);
    for i in 0..8 {
        for j in 0..8 {
            a.set_abs(j, i, 40);
            b.set_abs(j, i, 37);
        }
    }
    let ra = a.region(0, 0);
    let rb = b.region(0, 0);
    assert_eq!(get_sad(&ra, &rb, 8, 8, 8), 3 * 64);
    let (fi, _ts) = setup_me(0);
    let zero = MotionVector { row: 0, col: 0 };
    let cand = MotionVector { row: 0, col: 8 };
    let lambda: u32 = 10;
    let cost = me_core::cost::compute_mv_rd_cost(&fi, [zero, zero], lambda, 8, 8, 8, cand, &ra, &rb);
    // 256 * sad + min(rate(cand, zero), rate(cand, zero) + 1) * lambda;
    // rate of (0, 8) without high precision is 6.
    assert_eq!(cost, 256 * 192 + 6 * 10);
    // Lower distortion and lower rate never cost more.
    let cheaper =
        me_core::cost::compute_mv_rd_cost(&fi, [zero, zero], lambda, 8, 8, 8, zero, &ra, &ra);
    assert!(cheaper <= cost);
    assert_eq!(cheaper, 0);
}
