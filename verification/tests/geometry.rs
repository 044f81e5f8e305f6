use rs_raytracer::fixed::{FX_MAX, FX_ONE};
use rs_raytracer::hittable::{HitRecord, Sphere};
use rs_raytracer::math::{Ray, Vec3};
use rs_raytracer::raytracer::RAY_T_MIN;

fn axis_ray() -> Ray {
    Ray::new(Vec3::zero(), Vec3::new(0, 0, -FX_ONE))
}

#[test]
fn head_on_hit_t_is_distance_minus_radius() {
    // Sphere three units away, unit radius: the hit parameter is exactly 2
    // and the normal is exactly anti-parallel to the ray direction.
    let s = Sphere::new(Vec3::new(0, 0, -3 * FX_ONE), FX_ONE, 0);
    let ray = axis_ray();
    let hit = s.hit(&ray, RAY_T_MIN, FX_MAX).expect("must hit");
    assert_eq!(hit.t, 2 * FX_ONE);
    assert_eq!(hit.p, Vec3::new(0, 0, -2 * FX_ONE));
    assert_eq!(hit.n, Vec3::new(0, 0, FX_ONE));
    assert!(hit.front_face);
    assert_eq!(hit.mat_id, 0);
}

#[test]
fn offset_beyond_radius_misses() {
    // Perpendicular offset 2 with radius 1: no intersection.
    let s = Sphere::new(Vec3::new(0, 2 * FX_ONE, -3 * FX_ONE), FX_ONE, 0);
    assert!(s.hit(&axis_ray(), RAY_T_MIN, FX_MAX).is_none());
}

#[test]
fn ray_from_inside_flips_the_normal() {
    // Origin inside a radius-2 sphere around it: the back face is struck
    // and the returned normal points back toward the origin.
    let s = Sphere::new(Vec3::zero(), 2 * FX_ONE, 3);
    let hit = s.hit(&axis_ray(), RAY_T_MIN, FX_MAX).expect("must hit");
    assert_eq!(hit.t, 2 * FX_ONE);
    assert!(!hit.front_face);
    assert_eq!(hit.n, Vec3::new(0, 0, FX_ONE));
    assert_eq!(hit.mat_id, 3);
}

#[test]
fn window_skips_to_the_larger_root() {
    // Roots at 2 and 4; a near bound of 3 selects the larger root.
    let s = Sphere::new(Vec3::new(0, 0, -3 * FX_ONE), FX_ONE, 0);
    let hit = s.hit(&axis_ray(), 3 * FX_ONE, FX_MAX).expect("must hit");
    assert_eq!(hit.t, 4 * FX_ONE);
    assert!(!hit.front_face);
}

#[test]
fn window_excluding_both_roots_misses() {
    let s = Sphere::new(Vec3::new(0, 0, -3 * FX_ONE), FX_ONE, 0);
    assert!(s.hit(&axis_ray(), RAY_T_MIN, FX_ONE).is_none());
    assert!(s.hit(&axis_ray(), 5 * FX_ONE, FX_MAX).is_none());
}

#[test]
fn negative_radius_keeps_the_numeric_roots() {
    // The inside-out sphere: same roots, but the outward normal flips, so
    // the head-on hit reports a back face.
    let s = Sphere::new(Vec3::new(0, 0, -3 * FX_ONE), -FX_ONE, 0);
    let hit = s.hit(&axis_ray(), RAY_T_MIN, FX_MAX).expect("must hit");
    assert_eq!(hit.t, 2 * FX_ONE);
    assert!(!hit.front_face);
    assert_eq!(hit.n, Vec3::new(0, 0, FX_ONE));
}

#[test]
fn set_face_normal_orients_against_the_ray() {
    let ray = axis_ray();
    let mut rec = HitRecord::empty();
    let outward = Vec3::new(0, 0, FX_ONE);
    rec.set_face_normal(&ray, &outward);
    assert!(rec.front_face);
    assert_eq!(rec.n, outward);

    let inward = Vec3::new(0, 0, -FX_ONE);
    rec.set_face_normal(&ray, &inward);
    assert!(!rec.front_face);
    assert_eq!(rec.n, outward);
}

#[test]
fn hit_record_constructors() {
    let r = HitRecord::new(Vec3::new(1, 2, 3), Vec3::new(4, 5, 6), 7, true, 8);
    assert_eq!(r.p, Vec3::new(1, 2, 3));
    assert_eq!(r.n, Vec3::new(4, 5, 6));
    assert_eq!(r.t, 7);
    assert!(r.front_face);
    assert_eq!(r.mat_id, 8);

    let e = HitRecord::empty();
    assert_eq!(e.t, 0);
    assert!(!e.front_face);
    assert_eq!(e.mat_id, 0);
}
