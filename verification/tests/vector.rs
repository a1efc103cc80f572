//! Vector algebra tests; values are in raw fixed-point units (65536 = 1.0).

use ray_tracer::vec3::{Axis, Vec3};

#[test]
fn vector_creation() {
    let v1 = Vec3::new(196608, 262144, 327680);
    assert_eq!(
        v1,
        Vec3 {
            x: 196608,
            y: 262144,
            z: 327680
        }
    );

    let v2 = Vec3::zero();
    assert_eq!(v2, Vec3 { x: 0, y: 0, z: 0 });

    let v3 = Vec3::one();
    assert_eq!(
        v3,
        Vec3 {
            x: 65536,
            y: 65536,
            z: 65536
        }
    );

    let v3 = Vec3::new(65536, 65536, 65536);
    assert_eq!(
        v3,
        Vec3 {
            x: 65536,
            y: 65536,
            z: 65536
        }
    );
}

#[test]
fn vector_add() {
    let v1 = Vec3::new(196608, 262144, 327680);
    let v2 = Vec3::one();

    assert_eq!(v1.add(v2), Vec3::new(262144, 327680, 393216));
}

#[test]
fn vector_negate() {
    let v1 = Vec3::new(196608, 262144, 327680).neg();
    assert_eq!(v1, Vec3::new(-196608, -262144, -327680));
}

#[test]
fn vector_sub() {
    let v1 = Vec3::new(196608, 262144, 327680);
    let v2 = Vec3::one();

    assert_eq!(v1.sub(v2), Vec3::new(131072, 196608, 262144));
}

#[test]
fn vector_mul() {
    let v1 = Vec3::new(196608, 262144, 327680);
    assert_eq!(v1.scale(262144), Vec3::new(786432, 1048576, 1310720));
}

#[test]
fn vector_div() {
    let v1 = Vec3::new(786432, 1048576, 1310720);
    assert_eq!(v1.div(262144), Vec3::new(196608, 262144, 327680));
}

#[test]
fn vector_index() {
    let v1 = Vec3::new(196608, 262144, 327680);
    assert_eq!(v1.component(Axis::X), 196608);
    assert_eq!(v1.component(Axis::Y), 262144);
    assert_eq!(v1.component(Axis::Z), 327680);

    let mut v1 = Vec3::new(196608, 262144, 327680);
    v1.x = 131072;
    assert_eq!(v1.component(Axis::X), 131072);
    assert_eq!(v1.component(Axis::Y), 262144);
    assert_eq!(v1.component(Axis::Z), 327680);
}

#[test]
fn vector_dot_cross() {
    let a = Vec3::new(65536, 0, 0);
    let b = Vec3::new(0, 65536, 0);
    assert_eq!(a.dot(b), 0);
    assert_eq!(a.cross(b), Vec3::new(0, 0, 65536));
    assert_eq!(b.cross(a), Vec3::new(0, 0, -65536));
    assert_eq!(a.dot(a), 65536);
}

#[test]
fn vector_length_normalize() {
    // A 3-4-5 triangle scaled into fixed point.
    let v = Vec3::new(196608, 262144, 0);
    assert_eq!(v.length_squared(), 25 * 65536);
    assert_eq!(v.length(), 5 * 65536);
    let n = v.normalize();
    assert_eq!(n, Vec3::new(39321, 52428, 0));
}

#[test]
fn vector_reflect() {
    // Reflecting a falling diagonal off the ground plane flips its height.
    let d = Vec3::new(65536, -65536, 0);
    let n = Vec3::new(0, 65536, 0);
    assert_eq!(d.reflect(n), Vec3::new(65536, 65536, 0));
}

#[test]
fn vector_near_zero() {
    assert!(Vec3::zero().near_zero());
    assert!(!Vec3::new(1, 0, 0).near_zero());
}

#[test]
fn random_samplers_in_bounds() {
    for _ in 0..200 {
        let v = Vec3::random(-65536, 65536);
        assert!(-65536 <= v.x && v.x < 65536);
        assert!(-65536 <= v.y && v.y < 65536);
        assert!(-65536 <= v.z && v.z < 65536);

        let s = Vec3::random_in_unit_sphere();
        let ls = s.length_squared();
        assert!(0 < ls && ls < 65536);

        let d = Vec3::random_in_unit_disk();
        assert_eq!(d.z, 0);
        assert!(d.length_squared() < 65536);

        let f = ray_tracer::rng::random_frac();
        assert!(0 <= f && f < 65536);
        assert!(ray_tracer::rng::random_below(3) < 3);
        let r = ray_tracer::rng::random_range(-131072, 131072);
        assert!(-131072 <= r && r < 131072);
    }
}
