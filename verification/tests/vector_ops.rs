use rs_raytracer::fixed::{FX_HALF, FX_ONE};
use rs_raytracer::math::{RandGen, Ray, Vec3};

#[test]
fn component_ops_exact() {
    let a = Vec3::new(FX_ONE, 2 * FX_ONE, -FX_ONE);
    let b = Vec3::new(FX_HALF, FX_ONE, FX_ONE);
    assert_eq!(a.add(b), Vec3::new(3 * FX_HALF, 3 * FX_ONE, 0));
    assert_eq!(a.sub(b), Vec3::new(FX_HALF, FX_ONE, -2 * FX_ONE));
    assert_eq!(a.mul(b), Vec3::new(FX_HALF, 2 * FX_ONE, -FX_ONE));
    assert_eq!(a.scale(2 * FX_ONE), Vec3::new(2 * FX_ONE, 4 * FX_ONE, -2 * FX_ONE));
    assert_eq!(a.div(2 * FX_ONE), Vec3::new(FX_HALF, FX_ONE, -FX_HALF));
    assert_eq!(a.neg(), Vec3::new(-FX_ONE, -2 * FX_ONE, FX_ONE));

    let mut c = a;
    c.add_assign(b);
    assert_eq!(c, a.add(b));
}

#[test]
fn dot_cross_length() {
    let a = Vec3::new(FX_ONE, 2 * FX_ONE, 3 * FX_ONE);
    let b = Vec3::new(4 * FX_ONE, -FX_ONE, FX_ONE);
    // 1*4 - 2*1 + 3*1 == 5
    assert_eq!(a.dot(&b), 5 * FX_ONE);
    assert_eq!(a.sqr_length(), 14 * FX_ONE);

    let x = Vec3::new(FX_ONE, 0, 0);
    let y = Vec3::new(0, FX_ONE, 0);
    assert_eq!(x.cross(&y), Vec3::new(0, 0, FX_ONE));
    assert_eq!(y.cross(&x), Vec3::new(0, 0, -FX_ONE));
}

#[test]
fn normalize_three_four_five() {
    let v = Vec3::new(3 * FX_ONE, 4 * FX_ONE, 0);
    assert_eq!(v.length(), 5 * FX_ONE);
    let n = v.normalized();
    // 0.6 and 0.8, truncated onto the fixed-point grid.
    assert_eq!(n, Vec3::new(39321, 52428, 0));

    let mut w = v;
    w.normalize();
    assert_eq!(w, n);
}

#[test]
fn normalize_zero_vector_stays_zero() {
    let v = Vec3::zero();
    assert_eq!(v.normalized(), Vec3::zero());
}

#[test]
fn reflect_about_axis() {
    // Incoming 45 degrees down onto the y = 0 plane.
    let d = Vec3::new(FX_ONE, -FX_ONE, 0).normalized();
    let n = Vec3::new(0, FX_ONE, 0);
    let r = d.reflect(n);
    assert_eq!(d, Vec3::new(46341, -46341, 0));
    assert_eq!(r, Vec3::new(46341, 46341, 0));
}

#[test]
fn near_zero_only_at_zero() {
    assert!(Vec3::zero().near_zero());
    assert!(!Vec3::new(1, 0, 0).near_zero());
    assert!(!Vec3::new(0, 0, -1).near_zero());
}

#[test]
fn refract_head_on_with_unit_ratio_is_identity() {
    let uv = Vec3::new(0, 0, -FX_ONE);
    let n = Vec3::new(0, 0, FX_ONE);
    assert_eq!(Vec3::refract(uv, n, FX_ONE), uv);
}

#[test]
fn ray_at_walks_the_parameter() {
    let r = Ray::new(Vec3::new(FX_ONE, 2 * FX_ONE, 3 * FX_ONE), Vec3::new(2 * FX_ONE, 0, 0));
    assert_eq!(r.at(FX_HALF), Vec3::new(2 * FX_ONE, 2 * FX_ONE, 3 * FX_ONE));
    assert_eq!(r.at(0), r.origin);
}

#[test]
fn random_draws_stay_in_their_ranges() {
    let mut rng = RandGen::new_seeded(42);
    for _ in 0..200 {
        let u = rng.next01();
        assert!((0..FX_ONE).contains(&u));
        let v = rng.next_range(-FX_HALF, FX_HALF);
        assert!((-FX_HALF..FX_HALF).contains(&v));
    }
    let w = Vec3::random(&mut rng);
    assert!(w.x >= 0 && w.x < FX_ONE && w.y >= 0 && w.y < FX_ONE && w.z >= 0 && w.z < FX_ONE);
    let b = Vec3::random_range(-FX_ONE, FX_ONE, &mut rng);
    assert!(b.x >= -FX_ONE && b.x < FX_ONE);

    let s = Vec3::random_on_sphere(&mut rng);
    assert!(!s.near_zero());
    let n = Vec3::new(0, FX_ONE, 0);
    let _h = Vec3::random_in_hemisphere(&n, &mut rng);
}
