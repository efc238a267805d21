use termviz::angle::{cos, normalize, sin, DEGREE, FULL_TURN, HALF_TURN, QUARTER_TURN, UNIT};
use termviz::canvas::CellPos;
use termviz::geometry::{Point, Pose3, Stamp};
use termviz::viewport::{Viewport, CELL_BOUND, MAX_ZOOM, MIN_ZOOM};

fn pose(x: i64, y: i64, yaw: i64) -> Pose3 {
    Pose3 { x, y, z: 0, yaw, stamp: Stamp { sec: 0, nsec: 0 } }
}

#[test]
fn sines_at_the_axes_are_exact() {
    assert_eq!(sin(0), 0);
    assert_eq!(sin(QUARTER_TURN), UNIT);
    assert_eq!(sin(HALF_TURN), 0);
    assert_eq!(sin(3 * QUARTER_TURN), -UNIT);
    assert_eq!(cos(0), UNIT);
    assert_eq!(cos(QUARTER_TURN), 0);
    assert_eq!(cos(HALF_TURN), -UNIT);
    assert_eq!(cos(3 * QUARTER_TURN), 0);
}

#[test]
fn sines_of_whole_degrees_come_from_the_table() {
    assert_eq!(sin(30 * DEGREE), 500_000);
    assert_eq!(cos(60 * DEGREE), 500_000);
    assert_eq!(sin(45 * DEGREE), 707_107);
    assert_eq!(cos(45 * DEGREE), 707_107);
    assert_eq!(sin(1 * DEGREE), 17_452);
    assert_eq!(sin(150 * DEGREE), 500_000);
    assert_eq!(sin(210 * DEGREE), -500_000);
    assert_eq!(sin(330 * DEGREE), -500_000);
    assert_eq!(cos(120 * DEGREE), -500_000);
}

#[test]
fn sines_between_whole_degrees_are_interpolated() {
    assert_eq!(sin(DEGREE / 2), 8_726);
    assert_eq!(sin(30 * DEGREE + DEGREE / 4), 500_000 + (515_038 - 500_000) / 4);
    assert_eq!(sin(89 * DEGREE + 999_999), 999_848 + (152 * 999_999) / 1_000_000);
}

#[test]
fn sines_wrap_around_the_full_turn() {
    assert_eq!(sin(-QUARTER_TURN), -UNIT);
    assert_eq!(sin(FULL_TURN + 30 * DEGREE), 500_000);
    assert_eq!(sin(-330 * DEGREE), 500_000);
    assert_eq!(cos(-60 * DEGREE), 500_000);
    assert_eq!(cos(i64::MAX), cos(i64::MAX % FULL_TURN));
    assert_eq!(sin(i64::MIN), sin(i64::MIN.rem_euclid(FULL_TURN)));
}

#[test]
fn sines_stay_within_one() {
    let mut angle = -FULL_TURN;
    while angle <= FULL_TURN {
        let s = sin(angle);
        let c = cos(angle);
        assert!(-UNIT <= s && s <= UNIT);
        assert!(-UNIT <= c && c <= UNIT);
        assert_eq!(sin(angle + HALF_TURN), -s);
        assert_eq!(sin(angle + QUARTER_TURN), c);
        assert_eq!(cos(angle + QUARTER_TURN), -s);
        angle += 1_234_567;
    }
}

#[test]
fn angles_are_wrapped_into_one_turn() {
    assert_eq!(normalize(0), 0);
    assert_eq!(normalize(FULL_TURN), 0);
    assert_eq!(normalize(-1), FULL_TURN - 1);
    assert_eq!(normalize(FULL_TURN + 5), 5);
    assert_eq!(normalize(i64::MIN), i64::MIN.rem_euclid(FULL_TURN));
}

#[test]
fn pose_turns_then_moves() {
    let p = Point { x: 1000, y: 0 };
    assert_eq!(pose(0, 0, 0).apply(p), p);
    assert_eq!(pose(10, 20, 0).apply(p), Point { x: 1010, y: 20 });
    assert_eq!(pose(0, 0, QUARTER_TURN).apply(p), Point { x: 0, y: 1000 });
    assert_eq!(pose(5, 5, HALF_TURN).apply(p), Point { x: -995, y: 5 });
    assert_eq!(pose(0, 0, 30 * DEGREE).apply(p), Point { x: 866, y: 500 });
    assert_eq!(pose(0, 0, -QUARTER_TURN).apply(Point { x: 2, y: 3 }), Point { x: 3, y: -2 });
}

#[test]
fn pose_is_undone_at_the_axes() {
    for yaw in [0, QUARTER_TURN, HALF_TURN, 3 * QUARTER_TURN] {
        let t = pose(123, -456, yaw);
        for p in [Point { x: 7, y: 9 }, Point { x: -1000, y: 250 }, Point { x: 0, y: 0 }] {
            assert_eq!(t.unapply(t.apply(p)), p);
        }
    }
}

#[test]
fn pose_saturates_at_the_edge_of_the_world() {
    let far = pose(i64::MAX, i64::MIN, 0);
    assert_eq!(far.apply(Point { x: 10, y: -10 }), Point { x: i64::MAX, y: i64::MIN });
}

#[test]
fn viewport_clamps_zoom_and_wraps_rotation() {
    let v = Viewport::new(Point { x: 1, y: 2 }, 0, -QUARTER_TURN, 80, 24);
    assert_eq!(v.zoom(), MIN_ZOOM);
    assert_eq!(v.rotation(), 3 * QUARTER_TURN);
    assert_eq!(v.center(), Point { x: 1, y: 2 });
    assert_eq!(v.width(), 80);
    assert_eq!(v.height(), 24);
    let w = Viewport::new(Point { x: 0, y: 0 }, i64::MAX, FULL_TURN, 1, 1);
    assert_eq!(w.zoom(), MAX_ZOOM);
    assert_eq!(w.rotation(), 0);
}

#[test]
fn center_projects_to_the_center_cell() {
    for zoom in [1, 7, 1000, MAX_ZOOM] {
        for rotation in [0, 1, 33 * DEGREE, QUARTER_TURN, 200 * DEGREE + 17, FULL_TURN - 1] {
            for (w, h) in [(80u16, 24u16), (81, 25), (1, 1)] {
                let c = Point { x: 12_345, y: -6_789 };
                let v = Viewport::new(c, zoom, rotation, w, h);
                assert_eq!(
                    v.world_to_cell(c),
                    Some(CellPos { col: (w / 2) as i64, row: (h / 2) as i64 })
                );
            }
        }
    }
    let nothing = Viewport::new(Point { x: 0, y: 0 }, 1, 0, 0, 0);
    assert_eq!(nothing.world_to_cell(Point { x: 0, y: 0 }), None);
}

#[test]
fn cells_follow_the_world_axes() {
    let v = Viewport::new(Point { x: 0, y: 0 }, 1000, 0, 11, 11);
    assert_eq!(v.world_to_cell(Point { x: 1000, y: 0 }), Some(CellPos { col: 6, row: 5 }));
    assert_eq!(v.world_to_cell(Point { x: 0, y: 3000 }), Some(CellPos { col: 5, row: 2 }));
    assert_eq!(v.world_to_cell(Point { x: -3000, y: 0 }), Some(CellPos { col: 2, row: 5 }));
    assert_eq!(v.world_to_cell(Point { x: 999, y: -1 }), Some(CellPos { col: 5, row: 5 }));
    assert_eq!(v.world_to_cell(Point { x: -1, y: 1 }), Some(CellPos { col: 4, row: 4 }));
    assert_eq!(v.world_to_cell(Point { x: 5999, y: 0 }), Some(CellPos { col: 10, row: 5 }));
    assert_eq!(v.world_to_cell(Point { x: 6000, y: 0 }), None);
    assert_eq!(v.world_to_cell(Point { x: -5001, y: 0 }), None);
    assert_eq!(v.world_to_cell(Point { x: 0, y: 5001 }), None);
    assert_eq!(v.world_to_cell(Point { x: 0, y: -6000 }), None);
    assert_eq!(v.world_to_cell(Point { x: i64::MAX, y: i64::MIN }), None);
}

#[test]
fn doubling_zoom_halves_offsets() {
    let near = Viewport::new(Point { x: 0, y: 0 }, 100, 0, 200, 200);
    let wide = Viewport::new(Point { x: 0, y: 0 }, 200, 0, 200, 200);
    let p = Point { x: 4_250, y: -2_130 };
    let q = Point { x: -1_990, y: 3_370 };
    let (np, nq) = (near.world_to_cell(p).unwrap(), near.world_to_cell(q).unwrap());
    let (wp, wq) = (wide.world_to_cell(p).unwrap(), wide.world_to_cell(q).unwrap());
    assert_eq!(np, CellPos { col: 142, row: 121 });
    assert_eq!(wp, CellPos { col: 121, row: 110 });
    assert_eq!(nq, CellPos { col: 80, row: 66 });
    assert_eq!(wq, CellPos { col: 90, row: 83 });
    assert_eq!(wp.col - 100, (np.col - 100).div_euclid(2));
    assert_eq!(wq.col - 100, (nq.col - 100).div_euclid(2));
    assert_eq!(wp.row - 100, (np.row - 100).div_euclid(2));
    assert_eq!(wq.row - 100, (nq.row - 100).div_euclid(2));
    assert!((2 * (wp.col - wq.col) - (np.col - nq.col)).abs() <= 1);
    assert!((2 * (wp.row - wq.row) - (np.row - nq.row)).abs() <= 1);
}

#[test]
fn quarter_turn_maps_x_to_rows() {
    let flat = Viewport::new(Point { x: 50, y: 60 }, 10, 0, 41, 41);
    let turned = Viewport::new(Point { x: 50, y: 60 }, 10, QUARTER_TURN, 41, 41);
    for d in [-200i64, -15, -1, 0, 9, 10, 57, 200] {
        let p = Point { x: 50 + d, y: 60 };
        assert_eq!(
            flat.world_to_cell(p),
            Some(CellPos { col: 20 + d.div_euclid(10), row: 20 })
        );
        assert_eq!(
            turned.world_to_cell(p),
            Some(CellPos { col: 20, row: 20 + d.div_euclid(10) })
        );
    }
}

#[test]
fn projection_is_clamped_far_away() {
    let v = Viewport::new(Point { x: 0, y: 0 }, 1, 0, 10, 10);
    assert_eq!(v.project(Point { x: 3, y: -4 }), CellPos { col: 8, row: 9 });
    assert_eq!(v.project(Point { x: -300, y: 400 }), CellPos { col: -295, row: -395 });
    assert_eq!(
        v.project(Point { x: i64::MAX, y: i64::MAX }),
        CellPos { col: CELL_BOUND, row: -CELL_BOUND }
    );
    assert_eq!(
        v.project(Point { x: i64::MIN, y: i64::MIN }),
        CellPos { col: -CELL_BOUND, row: CELL_BOUND }
    );
}

#[test]
fn cells_map_back_to_their_middle() {
    let v = Viewport::new(Point { x: 100, y: 200 }, 10, 0, 20, 20);
    assert_eq!(v.cell_to_world(10, 10), Point { x: 105, y: 195 });
    assert_eq!(v.cell_to_world(0, 0), Point { x: 5, y: 295 });
    assert_eq!(v.cell_to_world(19, 19), Point { x: 195, y: 105 });
    for rotation in [0, QUARTER_TURN, HALF_TURN, 3 * QUARTER_TURN] {
        let t = Viewport::new(Point { x: -7, y: 13 }, 10, rotation, 20, 12);
        for col in 0..20 {
            for row in 0..12 {
                assert_eq!(
                    t.world_to_cell(t.cell_to_world(col, row)),
                    Some(CellPos { col, row })
                );
            }
        }
    }
}

#[test]
fn viewport_mutators() {
    let mut v = Viewport::new(Point { x: 0, y: 0 }, 100, 0, 80, 24);
    v.pan(5, -7);
    assert_eq!(v.center(), Point { x: 5, y: -7 });
    v.pan(i64::MAX, i64::MIN);
    assert_eq!(v.center(), Point { x: i64::MAX, y: i64::MIN });
    v.recenter(Point { x: 1, y: 2 });
    assert_eq!(v.center(), Point { x: 1, y: 2 });
    v.zoom_by(1500);
    assert_eq!(v.zoom(), 150);
    v.zoom_by(333);
    assert_eq!(v.zoom(), 49);
    v.zoom_by(0);
    assert_eq!(v.zoom(), MIN_ZOOM);
    v.zoom_by(-1000);
    assert_eq!(v.zoom(), MIN_ZOOM);
    v.zoom_by(i64::MAX);
    assert_eq!(v.zoom(), MAX_ZOOM);
    v.zoom_by(i64::MAX);
    assert_eq!(v.zoom(), MAX_ZOOM);
    v.rotate_by(QUARTER_TURN);
    assert_eq!(v.rotation(), QUARTER_TURN);
    v.rotate_by(-HALF_TURN);
    assert_eq!(v.rotation(), 3 * QUARTER_TURN);
    v.rotate_by(FULL_TURN + QUARTER_TURN);
    assert_eq!(v.rotation(), 0);
    v.rotate_by(i64::MIN);
    assert_eq!(v.rotation(), i64::MIN.rem_euclid(FULL_TURN));
    v.resize(10, 5);
    assert_eq!((v.width(), v.height()), (10, 5));
}
