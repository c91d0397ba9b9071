use wolf3d_rs::fixed::{FP, T_LIMIT, clampf, div_q, div_q2, isqrt};
use wolf3d_rs::geometry::{PrimitiveGeometry, RawPrimitive};
use wolf3d_rs::vec2::{Mat2, Point, Ray, Vec2};
use wolf3d_rs::parser::check_for_duplicate_symbols;

#[test]
fn isqrt_rounds_down() {
    assert_eq!(isqrt(0), 0);
    assert_eq!(isqrt(1), 1);
    assert_eq!(isqrt(3), 1);
    assert_eq!(isqrt(4), 2);
    assert_eq!(isqrt(24), 4);
    assert_eq!(isqrt(25), 5);
    assert_eq!(isqrt(26), 5);
    assert_eq!(isqrt((1u128 << 64) - 1), 0xFFFF_FFFF);
    assert_eq!(isqrt(u128::MAX), 0xFFFF_FFFF_FFFF_FFFF);
}

#[test]
fn division_truncates_toward_zero() {
    assert_eq!(div_q(7, 2), 3);
    assert_eq!(div_q(-7, 2), -3);
    assert_eq!(div_q2(7, -2), -3);
    assert_eq!(div_q2(-7, -2), 3);
    assert_eq!(div_q(0, 5), 0);
}

#[test]
fn clampf_clamps() {
    assert_eq!(clampf(-5, 0, FP), 0);
    assert_eq!(clampf(FP + 1, 0, FP), FP);
    assert_eq!(clampf(1234, 0, FP), 1234);
}

#[test]
fn vector_operations_are_exact() {
    let a = Vec2 { x: 3 * FP, y: 4 * FP };
    let b = Vec2 { x: -FP, y: 2 * FP };
    assert_eq!(a.add(b), Vec2 { x: 2 * FP, y: 6 * FP });
    assert_eq!(a.sub(b), Vec2 { x: 4 * FP, y: 2 * FP });
    assert_eq!(a.dot(b), (3 * FP as i128) * (-FP as i128) + (4 * FP as i128) * (2 * FP as i128));
    assert_eq!(a.cross(b), (3 * FP as i128) * (2 * FP as i128) - (4 * FP as i128) * (-FP as i128));
    assert_eq!(a.orthogonal(true), Vec2 { x: -4 * FP, y: 3 * FP });
    assert_eq!(a.orthogonal(false), Vec2 { x: 4 * FP, y: -3 * FP });
    // a 3-4-5 triangle has an exact length
    assert_eq!(a.length(), 5 * FP);
    let mut n = a;
    n.normalize();
    // 3/5 and 4/5 of a tile
    assert_eq!(n, Vec2 { x: 3 * FP / 5, y: 4 * FP / 5 });
    // normalizing the zero vector leaves it unchanged
    let mut z = Vec2 { x: 0, y: 0 };
    z.normalize();
    assert_eq!(z, Vec2 { x: 0, y: 0 });
}

#[test]
fn matrix_rotation_quarter_turn() {
    // cos = 0, sin = 1 (fixed-point): a quarter turn
    let rot = Mat2::rotation(0, FP);
    let v = rot.apply(Vec2 { x: FP, y: 0 });
    assert_eq!(v, Vec2 { x: 0, y: FP });
    let id = Mat2::new();
    assert_eq!(id.apply(Vec2 { x: 1234, y: -567 }), Vec2 { x: 1234, y: -567 });
}

#[test]
fn plane_construction_clamps_and_derives_normal() {
    // points outside the unit tile are clamped into it and the normal is
    // the normalized segment direction rotated ninety degrees
    let p = PrimitiveGeometry::new(RawPrimitive::Plane {
        p1: Vec2 { x: -FP, y: 2 * FP },
        p2: Vec2 { x: 0, y: 0 },
    });
    match p {
        PrimitiveGeometry::Plane { p1, p2, n } => {
            assert_eq!(p1, Vec2 { x: 0, y: FP });
            assert_eq!(p2, Vec2 { x: 0, y: 0 });
            assert_eq!(n, Vec2 { x: -FP, y: 0 });
        }
        _ => panic!("expected a plane"),
    }
    let c = PrimitiveGeometry::new(RawPrimitive::Cylinder { radius: FP });
    match c {
        PrimitiveGeometry::Cylinder { radius } => assert_eq!(radius, FP / 2),
        _ => panic!("expected a cylinder"),
    }
}

#[test]
fn backfacing_plane_never_hits() {
    // the plane's normal points west; a ray travelling west sees only the
    // back side and reports no hit, wherever it starts
    let p = PrimitiveGeometry::new(RawPrimitive::Plane {
        p1: Vec2 { x: 0, y: FP },
        p2: Vec2 { x: 0, y: 0 },
    });
    let origins = [
        Vec2 { x: 5 * FP, y: FP / 2 },
        Vec2 { x: -3 * FP, y: FP / 4 },
        Vec2 { x: FP / 2, y: FP / 2 },
    ];
    for o in origins.iter() {
        let ray = Ray::new(*o, Vec2 { x: -FP, y: 0 });
        assert_eq!(p.ray_intersection(ray, 0, 0), None);
    }
    // the same plane seen from the front does hit
    let ray = Ray::new(Vec2 { x: -FP, y: FP / 2 }, Vec2 { x: FP, y: 0 });
    assert_eq!(p.ray_intersection(ray, 0, 0), Some(FP));
}

#[test]
fn cylinder_center_ray_distance() {
    // a ray aimed exactly at the center of a cylinder of radius r returns
    // t close to distance_to_center - r
    let radius = FP / 4;
    let c = PrimitiveGeometry::new(RawPrimitive::Cylinder { radius });
    // cylinder on tile (2, 2): center (2.5, 2.5) tiles
    let origin = Vec2 { x: FP / 2, y: 2 * FP + FP / 2 };
    let dir = Vec2 { x: FP, y: 0 };
    let t = c.ray_intersection(Ray::new(origin, dir), 2, 2).unwrap();
    let distance_to_center = 2 * FP;
    let expected = distance_to_center - radius;
    assert!((t - expected).abs() <= 2, "t = {}, expected about {}", t, expected);
    assert!(t >= 0 && t <= T_LIMIT);
}

#[test]
fn ray_inside_cylinder_reports_no_hit() {
    // from inside the circle the nearer quadratic root lies behind the
    // origin, so the visible intersection is discarded
    let c = PrimitiveGeometry::new(RawPrimitive::Cylinder { radius: FP / 2 });
    let origin = Vec2 { x: FP / 2, y: FP / 2 };
    let t = c.ray_intersection(Ray::new(origin, Vec2 { x: FP, y: 0 }), 0, 0);
    assert_eq!(t, None);
}

#[test]
fn first_duplicate_symbol_is_found() {
    assert_eq!(check_for_duplicate_symbols(&vec![]), None);
    assert_eq!(check_for_duplicate_symbols(&vec!['a']), None);
    assert_eq!(check_for_duplicate_symbols(&vec!['a', 'b', 'c']), None);
    assert_eq!(check_for_duplicate_symbols(&vec!['a', 'b', 'a', 'b']), Some('a'));
    assert_eq!(check_for_duplicate_symbols(&vec!['x', 'b', 'b', 'x']), Some('x'));
}

#[test]
fn point_difference_is_a_vector() {
    let a = Point { x: 3 * FP, y: FP };
    let b = Point { x: FP, y: 4 * FP };
    let v = a.sub(b);
    assert_eq!(v, Vec2 { x: 2 * FP, y: -3 * FP });
}
