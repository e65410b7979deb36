use rand::Rng;
use surface_bounds::oriented::{OrientedPlaneSurface, Projection};
use surface_bounds::plane::PlaneSurface;
use surface_bounds::rectangle::RectangleBound;
use surface_bounds::vector::{Vector2, Vector3};

/// The raw value nearest to `v` units of length.
fn raw(v: f64) -> i64 {
    (v * 1_000_000.0).round() as i64
}

fn point(x: f64, y: f64, z: f64) -> Vector3 {
    Vector3::new(raw(x), raw(y), raw(z)).unwrap()
}

/// The plane at height one whose frame is the frame of space moved to (1, 1, 1).
fn level_plane() -> OrientedPlaneSurface {
    let origin1 = point(1.0, 1.0, 1.0);
    let hz1 = point(1.0, 1.0, 2.0);
    let hy1 = point(1.0, 2.0, 1.0);
    let hx1 = point(2.0, 1.0, 1.0);
    OrientedPlaneSurface::new(origin1, hx1, hy1, hz1)
}

/// The plane at height one whose frame is turned by 30 degrees about (1, 1, 1).
fn turned_plane() -> OrientedPlaneSurface {
    let angle = std::f64::consts::PI / 6.0;
    let origin1 = point(1.0, 1.0, 1.0);
    let hz1 = point(1.0, 1.0, 2.0);
    let hx1 = point(1.0 + angle.cos(), 2.0 - angle.sin(), 1.0);
    let hy1 = point(2.0 + angle.sin(), 1.0 + angle.cos(), 1.0);
    OrientedPlaneSurface::new(origin1, hx1, hy1, hz1)
}

#[test]
fn test_point_on_plane() {
    let oriented1 = level_plane();

    let mut rng = rand::thread_rng();

    let mut flag = true;
    for _i in 0..100 {
        let x = 2.0 * rng.gen::<f64>();
        let y = 2.0 * rng.gen::<f64>();
        let point = point(x, y, 1.0);
        flag = flag & oriented1.point_on_plane(point);
        if flag == false {
            println!("Test fails for points ({}, {}, 1)", x, y);
        }
    }
    assert_eq!(flag, true);
}

#[test]
fn test_point_on_rectangle() {
    let oriented1 = level_plane();

    let h_x1 = 1.0;
    let h_y1 = 1.0;
    let rectbound = RectangleBound::new(oriented1, raw(h_x1), raw(h_y1));

    let mut rng = rand::thread_rng();

    let mut flag = true;
    for _i in 0..100 {
        let x = 2.0 * rng.gen::<f64>();
        let y = 2.0 * rng.gen::<f64>();
        let point = point(x, y, 1.0);
        flag = flag & rectbound.point_on_rectangle(point);
        if flag == false {
            println!("Test fails for points ({}, {}, 1)", x, y);
        }
    }
    assert_eq!(flag, true);
}

#[test]
fn level_plane_holds_points_at_its_height() {
    let plane = level_plane();
    for (x, y) in [(0.0, 0.0), (-999.0, 999.0), (1000.0, -1000.0), (0.000001, 123.456789)] {
        assert!(plane.point_on_plane(point(x, y, 1.0)));
    }
    assert!(!plane.point_on_plane(point(0.0, 0.0, 0.0)));
    assert!(plane.point_on_plane(point(0.0, 0.0, 1.0)));
}

#[test]
fn one_raw_step_off_the_plane_is_off() {
    let plane = level_plane();
    assert!(!plane.point_on_plane(Vector3::new(1_500_000, 1_000_000, 1_000_001).unwrap()));
    assert!(!plane.point_on_plane(Vector3::new(1_500_000, 1_000_000, 999_999).unwrap()));
    assert!(plane.point_on_plane(Vector3::new(1_500_000, 1_000_000, 1_000_000).unwrap()));
}

#[test]
fn tolerance_is_absolute_so_a_short_normal_widens_the_plane() {
    let origin = point(0.0, 0.0, 0.0);
    let short = OrientedPlaneSurface::new(
        origin,
        point(1.0, 0.0, 0.0),
        point(0.0, 1.0, 0.0),
        Vector3::new(0, 0, 1).unwrap(),
    );
    // normal . (origin - p) is 1 * 999_999 raw, below the tolerance of 1_000_000
    assert!(short.point_on_plane(Vector3::new(0, 0, 999_999).unwrap()));
    assert!(short.point_on_plane(Vector3::new(0, 0, -999_999).unwrap()));
    assert!(!short.point_on_plane(Vector3::new(0, 0, 1_000_000).unwrap()));
    assert!(!short.point_on_plane(Vector3::new(0, 0, -1_000_000).unwrap()));
}

#[test]
fn rectangle_on_the_level_plane_inside_and_outside() {
    let rectbound = RectangleBound::new(level_plane(), raw(1.0), raw(1.0));
    assert!(rectbound.point_on_rectangle(point(1.5, 1.0, 1.0)));
    assert!(!rectbound.point_on_rectangle(point(2.5, 1.0, 1.0)));
    assert_eq!(
        level_plane().three_d_to_two_d(point(1.5, 1.0, 1.0)),
        Projection::Local(Vector2::new(500_000, 0))
    );
    assert_eq!(
        level_plane().three_d_to_two_d(point(2.5, 1.0, 1.0)),
        Projection::Local(Vector2::new(1_500_000, 0))
    );
}

#[test]
fn points_off_the_plane_are_never_in_the_rectangle() {
    for (h_x, h_y) in [(1, 1), (1_000_000, 1_000_000), (i64::MAX, i64::MAX)] {
        let rectbound = RectangleBound::new(level_plane(), h_x, h_y);
        assert!(!rectbound.point_on_rectangle(point(1.5, 1.0, 1.000001)));
        assert!(!rectbound.point_on_rectangle(point(1.5, 1.0, 0.0)));
        assert!(!rectbound.point_on_rectangle(point(1.0, 1.0, 2.0)));
        assert!(!rectbound.point_on_rectangle(point(1.5, 1.0, -1000.0)));
    }
    assert_eq!(level_plane().three_d_to_two_d(point(1.5, 1.0, 0.0)), Projection::OffPlane);
    assert_eq!(level_plane().three_d_to_two_d(point(1.5, 1.0, 0.0)).coordinates(), None);
}

#[test]
fn sides_and_corners_belong_to_the_rectangle() {
    let plane = level_plane();
    let rectbound = RectangleBound::new(plane, raw(1.0), raw(0.5));
    // at local (half_x, 0)
    assert_eq!(
        plane.three_d_to_two_d(point(2.0, 1.0, 1.0)),
        Projection::Local(Vector2::new(1_000_000, 0))
    );
    assert!(rectbound.point_on_rectangle(point(2.0, 1.0, 1.0)));
    // at local (0, half_y)
    assert_eq!(
        plane.three_d_to_two_d(point(1.0, 1.5, 1.0)),
        Projection::Local(Vector2::new(0, 500_000))
    );
    assert!(rectbound.point_on_rectangle(point(1.0, 1.5, 1.0)));
    // at local (-half_x, 0) and at the corner
    assert!(rectbound.point_on_rectangle(point(0.0, 1.0, 1.0)));
    assert!(rectbound.point_on_rectangle(point(2.0, 1.5, 1.0)));
    // one raw step beyond each side
    assert!(!rectbound.point_on_rectangle(point(2.000001, 1.0, 1.0)));
    assert!(!rectbound.point_on_rectangle(point(-0.000001, 1.0, 1.0)));
    assert!(!rectbound.point_on_rectangle(point(1.0, 1.500001, 1.0)));
}

#[test]
fn second_coordinate_does_not_tell_the_sides_of_the_first_axis_apart() {
    let plane = level_plane();
    let above = plane.three_d_to_two_d(point(1.5, 1.25, 1.0));
    let below = plane.three_d_to_two_d(point(1.5, 0.75, 1.0));
    assert_eq!(above, Projection::Local(Vector2::new(500_000, 250_000)));
    assert_eq!(below, above);
    let rectbound = RectangleBound::new(plane, raw(1.0), raw(1.0));
    assert!(rectbound.point_on_rectangle(point(1.5, 0.0, 1.0)));
    assert!(!rectbound.point_on_rectangle(point(1.5, -0.000001, 1.0)));
}

#[test]
fn corner_of_the_turned_rectangle_is_inside() {
    let angle = std::f64::consts::PI / 6.0;
    let plane = turned_plane();
    let rectbound = RectangleBound::new(plane, raw(1.0), raw(1.0));
    let corner = point(angle.cos() - angle.sin() + 1.0, angle.cos() + angle.sin() + 1.0, 1.0);
    assert_eq!(corner, Vector3::new(1_366_025, 2_366_025, 1_000_000).unwrap());
    // On the grid the first axis is (866_025, 500_000, 0), a little short of one
    // unit, so the corner comes to rest just inside both half-extents.
    assert_eq!(plane.three_d_to_two_d(corner), Projection::Local(Vector2::new(999_999, 999_999)));
    assert!(rectbound.point_on_rectangle(corner));
    // its mirror image across the first axis has the same local coordinates
    let mirror = point(angle.cos() + angle.sin() + 1.0, 1.0 + angle.sin() - angle.cos(), 1.0);
    assert_eq!(plane.three_d_to_two_d(mirror), Projection::Local(Vector2::new(999_999, 999_999)));
    assert!(rectbound.point_on_rectangle(mirror));
    // the same corner of a rectangle one raw step smaller is outside
    let smaller = RectangleBound::new(plane, 999_998, 999_998);
    assert!(!smaller.point_on_rectangle(corner));
}

#[test]
fn collapsed_first_axis_gives_no_coordinates() {
    let origin = point(1.0, 1.0, 1.0);
    let plane = OrientedPlaneSurface::new(origin, origin, point(1.0, 2.0, 1.0), point(1.0, 1.0, 2.0));
    for p in [point(1.5, 1.0, 1.0), point(0.0, 0.0, 1.0), point(1.0, 1.0, 1.0)] {
        assert!(plane.point_on_plane(p));
        assert_eq!(plane.three_d_to_two_d(p), Projection::Undefined);
        assert_eq!(plane.three_d_to_two_d(p).coordinates(), None);
        assert!(!RectangleBound::new(plane, i64::MAX, i64::MAX).point_on_rectangle(p));
    }
    // off the plane the answer is still that the point is off the plane
    assert_eq!(plane.three_d_to_two_d(point(1.0, 1.0, 3.0)), Projection::OffPlane);
}

#[test]
fn origin_of_the_frame_has_no_coordinates() {
    let plane = level_plane();
    assert!(plane.point_on_plane(point(1.0, 1.0, 1.0)));
    assert_eq!(plane.three_d_to_two_d(point(1.0, 1.0, 1.0)), Projection::Undefined);
    assert!(!RectangleBound::new(plane, raw(1.0), raw(1.0)).point_on_rectangle(point(1.0, 1.0, 1.0)));
    // one raw step away they are defined
    assert_eq!(
        plane.three_d_to_two_d(Vector3::new(1_000_001, 1_000_000, 1_000_000).unwrap()),
        Projection::Local(Vector2::new(1, 0))
    );
}

#[test]
fn first_coordinate_carries_the_sign_of_the_dot_product() {
    let plane = level_plane();
    assert_eq!(
        plane.three_d_to_two_d(point(0.25, 1.0, 1.0)),
        Projection::Local(Vector2::new(-750_000, 0))
    );
    assert_eq!(
        plane.three_d_to_two_d(point(0.25, 3.0, 1.0)),
        Projection::Local(Vector2::new(-750_000, 2_000_000))
    );
    assert_eq!(
        plane.three_d_to_two_d(point(0.25, 3.0, 1.0)).coordinates(),
        Some(Vector2::new(-750_000, 2_000_000))
    );
}

#[test]
fn coordinates_are_rounded_toward_zero() {
    // first axis (3, 4, 0) of length 5; the point is 1 raw step along the first
    // axis of space, so its first coordinate is 3/5 and its second 4/5 of a step
    let origin = Vector3::new(0, 0, 0).unwrap();
    let plane = OrientedPlaneSurface::new(
        origin,
        Vector3::new(3, 4, 0).unwrap(),
        Vector3::new(-4, 3, 0).unwrap(),
        Vector3::new(0, 0, 5).unwrap(),
    );
    assert_eq!(
        plane.three_d_to_two_d(Vector3::new(1, 0, 0).unwrap()),
        Projection::Local(Vector2::new(0, 0))
    );
    assert_eq!(
        plane.three_d_to_two_d(Vector3::new(-1, 0, 0).unwrap()),
        Projection::Local(Vector2::new(0, 0))
    );
    // 10 steps along the first axis of space: 6 along the local axis, 8 across
    assert_eq!(
        plane.three_d_to_two_d(Vector3::new(10, 0, 0).unwrap()),
        Projection::Local(Vector2::new(6, 8))
    );
    assert_eq!(
        plane.three_d_to_two_d(Vector3::new(-10, 0, 0).unwrap()),
        Projection::Local(Vector2::new(-6, 8))
    );
    // 7 steps: 4.2 and 5.6
    assert_eq!(
        plane.three_d_to_two_d(Vector3::new(7, 0, 0).unwrap()),
        Projection::Local(Vector2::new(4, 5))
    );
    assert_eq!(
        plane.three_d_to_two_d(Vector3::new(-7, 0, 0).unwrap()),
        Projection::Local(Vector2::new(-4, 5))
    );
}

#[test]
fn projection_at_the_limits_of_the_grid() {
    let m = 1_000_000_000;
    let plane = OrientedPlaneSurface::new(
        Vector3::new(-m, -m, -m).unwrap(),
        Vector3::new(m, -m, -m).unwrap(),
        Vector3::new(-m, m, -m).unwrap(),
        Vector3::new(-m, -m, m).unwrap(),
    );
    let far = Vector3::new(m, m, -m).unwrap();
    assert!(plane.point_on_plane(far));
    assert_eq!(
        plane.three_d_to_two_d(far),
        Projection::Local(Vector2::new(2_000_000_000, 2_000_000_000))
    );
    assert!(RectangleBound::new(plane, 2 * m, 2 * m).point_on_rectangle(far));
    assert!(!RectangleBound::new(plane, 2 * m - 1, 2 * m).point_on_rectangle(far));
    // a first axis along the diagonal: the far corner is 2 * sqrt(2) * m along it
    let diagonal = OrientedPlaneSurface::new(
        Vector3::new(-m, -m, -m).unwrap(),
        Vector3::new(m, m, -m).unwrap(),
        Vector3::new(-m, m, -m).unwrap(),
        Vector3::new(-m, -m, m).unwrap(),
    );
    assert_eq!(
        diagonal.three_d_to_two_d(far),
        Projection::Local(Vector2::new(2_828_427_124, 0))
    );
}

#[test]
fn local_points_go_to_the_floor_of_space() {
    let plane = level_plane();
    let placed = plane.two_d_to_three_d(Vector2::new(500_000, -250_000)).unwrap();
    assert_eq!(placed, Vector3::new(500_000, -250_000, 0).unwrap());
    assert_eq!((placed.x(), placed.y(), placed.z()), (500_000, -250_000, 0));
    let turned = turned_plane().two_d_to_three_d(Vector2::new(500_000, -250_000)).unwrap();
    assert_eq!(turned, placed);
    assert_eq!(
        plane.two_d_to_three_d(Vector2::new(1_000_000_000, -1_000_000_000)),
        Vector3::new(1_000_000_000, -1_000_000_000, 0)
    );
    assert_eq!(plane.two_d_to_three_d(Vector2::new(1_000_000_001, 0)), None);
    assert_eq!(plane.two_d_to_three_d(Vector2::new(0, -1_000_000_001)), None);
    assert_eq!(plane.two_d_to_three_d(Vector2::new(i64::MAX, i64::MIN)), None);
}

#[test]
fn placing_undoes_projecting_only_in_the_frame_of_space() {
    let zero = Vector3::new(0, 0, 0).unwrap();
    let plain = OrientedPlaneSurface::new(
        zero,
        point(1.0, 0.0, 0.0),
        point(0.0, 1.0, 0.0),
        point(0.0, 0.0, 1.0),
    );
    let p = point(0.5, 0.25, 0.0);
    let local = plain.three_d_to_two_d(p).coordinates().unwrap();
    assert_eq!(plain.two_d_to_three_d(local), Some(p));
    // in the moved frame the round trip ends elsewhere
    let moved = level_plane();
    let q = point(1.5, 1.25, 1.0);
    let local = moved.three_d_to_two_d(q).coordinates().unwrap();
    assert_eq!(moved.two_d_to_three_d(local), Some(point(0.5, 0.25, 0.0)));
}

#[test]
fn unbounded_plane_membership() {
    // x + 2y + 3z = 0
    let plane1 = PlaneSurface::new(point(1.0, 2.0, 3.0), raw(0.0));
    assert!(plane1.point_on_plane(point(0.0, 0.0, 0.0)));
    assert!(plane1.point_on_plane(point(1.0, 1.0, -1.0)));
    assert!(plane1.point_on_plane(point(3.0, 0.0, -1.0)));
    assert!(!plane1.point_on_plane(point(1.0, 1.0, 1.0)));
    assert!(!plane1.point_on_plane(Vector3::new(1, 0, 0).unwrap()));
    // z = 2, as z - 2 = 0
    let plane2 = PlaneSurface::new(point(0.0, 0.0, 1.0), raw(-2.0));
    assert!(plane2.point_on_plane(point(5.0, -7.0, 2.0)));
    assert!(!plane2.point_on_plane(point(5.0, -7.0, 2.000001)));
    assert!(!plane2.point_on_plane(point(5.0, -7.0, -2.0)));
    assert_eq!(plane2.normal(), point(0.0, 0.0, 1.0));
    assert_eq!(plane2.offset(), -2_000_000);
    // offsets of any size are taken
    let plane3 = PlaneSurface::new(point(0.0, 0.0, 1.0), i64::MIN);
    assert!(!plane3.point_on_plane(point(0.0, 0.0, 1000.0)));
}

#[test]
fn parts_of_planes_and_rectangles_can_be_read_back() {
    let plane = turned_plane();
    assert_eq!(plane.origin(), point(1.0, 1.0, 1.0));
    assert_eq!(plane.hx(), Vector3::new(1_866_025, 1_500_000, 1_000_000).unwrap());
    assert_eq!(plane.hy(), Vector3::new(2_500_000, 1_866_025, 1_000_000).unwrap());
    assert_eq!(plane.hz(), point(1.0, 1.0, 2.0));
    let rectbound = RectangleBound::new(plane, 3, 4);
    assert_eq!(rectbound.plane(), plane);
    assert_eq!((rectbound.half_x(), rectbound.half_y()), (3, 4));
}
