use plane_hit::click::{process_click, Marker, MarkerColor, SurfaceCoords};
use plane_hit::hit::{hit_test, Plane, PointR, Ray};
use plane_hit::rat::{hundredths, Rat};
use plane_hit::vec3::{Vec3i, MAX_COORD};

fn v(x: i64, y: i64, z: i64) -> Vec3i {
    Vec3i::new(x, y, z)
}

/// A plane centered at the origin with normal (0,1,0), axis-aligned basis
/// and the given side length.
fn floor_plane(size: i64) -> Plane {
    Plane::new(v(0, 0, 0), v(0, 1, 0), v(1, 0, 0), v(0, 0, 1), 1, size).unwrap()
}

#[test]
fn straight_down_hit_is_centered_and_within() {
    // Ray straight down from (0,5,0): intersection (0,0,0), normalized
    // coordinates (0.5, 0.5), within bounds.
    let plane = floor_plane(2);
    let ray = Ray::new(v(0, 5, 0), v(0, -1, 0));
    let hit = hit_test(&ray, &plane).unwrap();
    assert!(hit.within);
    assert_eq!(hit.point, PointR { num_x: 0, num_y: 0, num_z: 0, den: 1 });
    // t == 5
    assert_eq!(hit.t.num, 5 * hit.t.den);
    // u == v == 0
    assert_eq!(hit.u.num, 0);
    assert_eq!(hit.v.num, 0);
    // su == sv == 1/2
    assert_eq!(2 * hit.su.num, hit.su.den);
    assert_eq!(2 * hit.sv.num, hit.sv.den);
    assert_eq!(hundredths(&hit.su), 50);
    assert_eq!(hundredths(&hit.sv), 50);
}

#[test]
fn offset_hit_lands_outside_bounds() {
    // Ray straight down from (3,5,3) misses the side-2 square footprint:
    // |u| and |v| are 1.5 > 0.5.
    let plane = floor_plane(2);
    let ray = Ray::new(v(3, 5, 3), v(0, -1, 0));
    let hit = hit_test(&ray, &plane).unwrap();
    assert!(!hit.within);
    assert_eq!(hit.point, PointR { num_x: 3, num_y: 0, num_z: 3, den: 1 });
    // |u| == |v| == 3/2
    assert_eq!(2 * hit.u.num.abs(), 3 * hit.u.den);
    assert_eq!(2 * hit.v.num.abs(), 3 * hit.v.den);
}

#[test]
fn edge_hit_is_within_bounds() {
    // A ray landing exactly at u == 0.5 (the plane edge) is classified
    // within bounds: the boundary comparison is inclusive.
    let plane = floor_plane(2);
    let ray = Ray::new(v(1, 5, 0), v(0, -1, 0));
    let hit = hit_test(&ray, &plane).unwrap();
    assert!(hit.within);
    // u == 1/2 exactly, su == 1
    assert_eq!(2 * hit.u.num, hit.u.den);
    assert_eq!(hit.su.num, hit.su.den);
    assert_eq!(hundredths(&hit.su), 100);
    assert_eq!(hundredths(&hit.sv), 50);
}

#[test]
fn parallel_ray_produces_no_hit_and_no_marker() {
    // A ray with zero component along the plane normal yields no
    // intersection and no marker.
    let plane = floor_plane(2);
    let ray = Ray::new(v(0, 5, 0), v(1, 0, 0));
    assert!(hit_test(&ray, &plane).is_none());
    let markers = process_click(&ray, &vec![plane]);
    assert!(markers.is_empty());
}

#[test]
fn zero_direction_counts_as_parallel() {
    let plane = floor_plane(2);
    let ray = Ray::new(v(0, 5, 0), v(0, 0, 0));
    assert!(hit_test(&ray, &plane).is_none());
}

#[test]
fn intersection_behind_ray_origin_is_accepted() {
    // The hit test accepts a negative ray parameter by design: a ray
    // pointing away from the plane still reports the intersection behind it.
    let plane = floor_plane(2);
    let ray = Ray::new(v(0, 5, 0), v(0, 1, 0));
    let hit = hit_test(&ray, &plane).unwrap();
    // t == -5
    assert_eq!(hit.t.num, -5 * hit.t.den);
    assert_eq!(hit.point, PointR { num_x: 0, num_y: 0, num_z: 0, den: 1 });
    assert!(hit.within);
}

#[test]
fn identical_clicks_give_identical_markers() {
    // Repeating the identical click scenario produces markers at identical
    // positions with identical color classification.
    let planes = vec![
        floor_plane(3),
        Plane::new(v(2, 1, -1), v(0, 1, 0), v(1, 0, 0), v(0, 0, 1), 1, 2).unwrap(),
    ];
    let ray = Ray::new(v(1, 7, 1), v(0, -2, 0));
    let first = process_click(&ray, &planes);
    let second = process_click(&ray, &planes);
    assert_eq!(first, second);
    assert_eq!(first.len(), 2);
}

#[test]
fn rotated_plane_round_trip() {
    // A rotated basis, scale 5: x_axis (3,4,0), z_axis (0,0,5), normal
    // (-4,3,0). The point origin + 1*x_axis - 1*z_axis lies on the plane;
    // a ray cast at it from one normal-length above, against the normal,
    // hits exactly that point with u == 5/20 and v == -5/20.
    let plane =
        Plane::new(v(10, 20, 30), v(-4, 3, 0), v(3, 4, 0), v(0, 0, 5), 5, 20).unwrap();
    // pt = (10,20,30) + (3,4,0) - (0,0,5) = (13,24,25)
    let ray = Ray::new(v(13 - 4, 24 + 3, 25), v(4, -3, 0));
    let hit = hit_test(&ray, &plane).unwrap();
    // t == 1: the hit is the cast point.
    assert_eq!(hit.t.num, hit.t.den);
    assert_eq!(hit.point.den, 25);
    assert_eq!(hit.point.num_x, 25 * 13);
    assert_eq!(hit.point.num_y, 25 * 24);
    assert_eq!(hit.point.num_z, 25 * 25);
    // u == 1/4, v == -1/4: within bounds.
    assert_eq!(4 * hit.u.num, hit.u.den);
    assert_eq!(4 * hit.v.num, -hit.v.den);
    assert!(hit.within);
    assert_eq!(hundredths(&hit.su), 75);
    assert_eq!(hundredths(&hit.sv), 25);
}

#[test]
fn click_spawns_one_marker_per_intersected_plane() {
    let planes = vec![floor_plane(2), floor_plane(8)];
    let ray = Ray::new(v(3, 5, 3), v(0, -1, 0));
    let markers = process_click(&ray, &planes);
    assert_eq!(markers.len(), 2);
    // (3,0,3) is outside the side-2 square but inside the side-8 one.
    assert_eq!(markers[0].color, MarkerColor::Red);
    assert_eq!(markers[0].surface, None);
    assert_eq!(markers[1].color, MarkerColor::Green);
    // u == v == 3/8, so su == sv == 7/8 rounds to 0.88.
    assert_eq!(
        markers[1].surface,
        Some(SurfaceCoords { u_hundredths: 88, v_hundredths: 88 })
    );
    let expected = Marker {
        point: PointR { num_x: 3, num_y: 0, num_z: 3, den: 1 },
        color: MarkerColor::Red,
        surface: None,
    };
    assert_eq!(markers[0], expected);
}

#[test]
fn plane_new_rejects_invalid_descriptions() {
    // Axes not orthogonal to each other.
    assert!(Plane::new(v(0, 0, 0), v(0, 1, 0), v(1, 0, 0), v(1, 0, 1), 1, 2).is_none());
    // Axis squared length does not match the scale.
    assert!(Plane::new(v(0, 0, 0), v(0, 1, 0), v(2, 0, 0), v(0, 0, 1), 1, 2).is_none());
    // Axis not orthogonal to the normal.
    assert!(Plane::new(v(0, 0, 0), v(1, 1, 0), v(1, 0, 0), v(0, 0, 1), 1, 2).is_none());
    // Zero normal.
    assert!(Plane::new(v(0, 0, 0), v(0, 0, 0), v(1, 0, 0), v(0, 0, 1), 1, 2).is_none());
    // Non-positive side length.
    assert!(Plane::new(v(0, 0, 0), v(0, 1, 0), v(1, 0, 0), v(0, 0, 1), 1, 0).is_none());
    // A coordinate out of range.
    assert!(
        Plane::new(v(MAX_COORD + 1, 0, 0), v(0, 1, 0), v(1, 0, 0), v(0, 0, 1), 1, 2).is_none()
    );
    // A valid description is accepted unchanged.
    let p = Plane::new(v(1, 2, 3), v(0, 1, 0), v(1, 0, 0), v(0, 0, 1), 1, 2).unwrap();
    assert_eq!(p.origin, v(1, 2, 3));
    assert_eq!(p.size, 2);
}

#[test]
fn click_with_no_planes_spawns_nothing() {
    let ray = Ray::new(v(0, 5, 0), v(0, -1, 0));
    let markers = process_click(&ray, &Vec::new());
    assert!(markers.is_empty());
}

#[test]
fn coordinates_at_the_bound_are_accepted() {
    // The largest allowed coordinate magnitude is usable as-is.
    let plane = Plane::new(
        v(MAX_COORD, 0, MAX_COORD),
        v(0, 1, 0),
        v(1, 0, 0),
        v(0, 0, 1),
        1,
        MAX_COORD,
    )
    .unwrap();
    let ray = Ray::new(v(MAX_COORD, MAX_COORD, MAX_COORD), v(0, -MAX_COORD, 0));
    let hit = hit_test(&ray, &plane).unwrap();
    assert!(hit.within);
    // The hit lands at the plane center: u == v == 0.
    assert_eq!(hit.u.num, 0);
    assert_eq!(hit.v.num, 0);
}

#[test]
fn hundredths_rounds_to_nearest_with_ties_up() {
    assert_eq!(hundredths(&Rat::norm(0, 1)), 0);
    assert_eq!(hundredths(&Rat::norm(1, 1)), 100);
    assert_eq!(hundredths(&Rat::norm(1, 2)), 50);
    // 1/3 -> 33, 2/3 -> 67
    assert_eq!(hundredths(&Rat::norm(1, 3)), 33);
    assert_eq!(hundredths(&Rat::norm(2, 3)), 67);
    // Exact tie 0.005 rounds up.
    assert_eq!(hundredths(&Rat::norm(1, 200)), 1);
    // A negative denominator is normalized away.
    assert_eq!(hundredths(&Rat::norm(-1, -2)), 50);
}
