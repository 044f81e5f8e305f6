use rs_raytracer::camera::Camera;
use rs_raytracer::fixed::{FX_HALF, FX_MAX, FX_ONE};
use rs_raytracer::hittable::Sphere;
use rs_raytracer::material::{Lambertian, Material};
use rs_raytracer::math::{Ray, Vec3};
use rs_raytracer::raytracer::{ppm_from_bytes, RSRaytracer, RAY_T_MIN};

fn grey() -> Vec3 {
    Vec3::new(FX_HALF, FX_HALF, FX_HALF)
}

/// The default-orientation camera of the end-to-end scenario: eye at the
/// origin looking down -z, 90-degree vertical field of view, aspect 2.
fn scenario_camera() -> Camera {
    Camera::new(
        Vec3::zero(),
        Vec3::new(0, 0, -FX_ONE),
        Vec3::new(0, FX_ONE, 0),
        FX_ONE,
        2 * FX_ONE,
    )
}

fn scenario_tracer() -> RSRaytracer {
    let mut rt = RSRaytracer::new_with_config(2, 2, 2, 5);
    let mat = rt.add_lambertian_material(Lambertian::new(grey()));
    rt.add_sphere(Sphere::new(Vec3::new(0, 0, -FX_ONE), FX_HALF, mat));
    rt
}

#[test]
fn camera_derives_the_documented_basis() {
    let cam = scenario_camera();
    let center = cam.get_ray(FX_HALF, FX_HALF);
    assert_eq!(center.origin, Vec3::zero());
    assert_eq!(center.direction, Vec3::new(0, 0, -FX_ONE));
    let corner = cam.get_ray(0, 0);
    assert_eq!(corner.direction, Vec3::new(-2 * FX_ONE, -FX_ONE, -FX_ONE));
}

#[test]
fn camera_set_position_recomputes_at_once() {
    let mut cam = Camera::new(
        Vec3::new(0, 0, FX_ONE),
        Vec3::new(0, 0, -FX_ONE),
        Vec3::new(0, FX_ONE, 0),
        FX_ONE,
        2 * FX_ONE,
    );
    cam.set_position(Vec3::zero());
    assert_eq!(cam.get_position(), Vec3::zero());
    // The next ray already reflects the move: it equals the ray of a
    // camera built at the new position.
    assert_eq!(cam.get_ray(FX_HALF, FX_HALF).direction, Vec3::new(0, 0, -FX_ONE));
}

#[test]
fn center_ray_hits_and_corner_ray_sees_the_sky() {
    let mut rt = scenario_tracer();
    let cam = scenario_camera();

    let center = cam.get_ray(FX_HALF, FX_HALF);
    let hit = rt.hit_objects(&center, RAY_T_MIN, FX_MAX).expect("center ray must hit");
    assert_eq!(hit.t, FX_HALF);
    assert!(hit.front_face);

    let corner = cam.get_ray(0, 0);
    assert!(rt.hit_objects(&corner, RAY_T_MIN, FX_MAX).is_none());
    // The grazing ray resolves to the exact sky gradient value.
    let sky = rt.ray_color(&corner, 5);
    assert_eq!(sky, Vec3::new(55841, 59718, FX_ONE));
    // The hitting ray gathers a bounced, attenuated color.
    let lit = rt.ray_color(&center, 5);
    for c in [lit.x, lit.y, lit.z] {
        assert!((0..=FX_ONE).contains(&c));
    }
    assert_ne!(lit, sky);
}

#[test]
fn depth_zero_is_black() {
    let mut rt = scenario_tracer();
    let cam = scenario_camera();
    let center = cam.get_ray(FX_HALF, FX_HALF);
    assert_eq!(rt.ray_color(&center, 0), Vec3::zero());
}

#[test]
fn nearest_hit_wins_regardless_of_insertion_order() {
    let near = Sphere::new(Vec3::new(0, 0, -2 * FX_ONE), FX_ONE, 1);
    let far = Sphere::new(Vec3::new(0, 0, -3 * FX_ONE), FX_ONE, 2);
    let ray = Ray::new(Vec3::zero(), Vec3::new(0, 0, -FX_ONE));

    let mut first = RSRaytracer::new_with_config(2, 2, 1, 3);
    first.add_lambertian_material(Lambertian::new(grey()));
    first.add_lambertian_material(Lambertian::new(grey()));
    first.add_sphere(near);
    first.add_sphere(far);

    let mut second = RSRaytracer::new_with_config(2, 2, 1, 3);
    second.add_lambertian_material(Lambertian::new(grey()));
    second.add_lambertian_material(Lambertian::new(grey()));
    second.add_sphere(far);
    second.add_sphere(near);

    let a = first.hit_objects(&ray, RAY_T_MIN, FX_MAX).expect("hit");
    let b = second.hit_objects(&ray, RAY_T_MIN, FX_MAX).expect("hit");
    assert_eq!(a.t, FX_ONE);
    assert_eq!(b.t, FX_ONE);
    assert_eq!(a.mat_id, 1);
    assert_eq!(b.mat_id, 1);
}

#[test]
fn empty_scene_never_hits() {
    let rt = RSRaytracer::new_with_config(2, 2, 1, 3);
    let ray = Ray::new(Vec3::zero(), Vec3::new(0, 0, -FX_ONE));
    assert!(rt.hit_objects(&ray, RAY_T_MIN, FX_MAX).is_none());
}

#[test]
fn material_builders_hand_out_sequential_handles() {
    let mut rt = RSRaytracer::new_with_config(2, 2, 1, 3);
    let a = rt.add_lambertian_material(Lambertian::new(grey()));
    let b = rt.add_metal_material(rs_raytracer::material::Metal::new(grey(), 0));
    let c = rt.add_dielectric_material(rs_raytracer::material::Dielectric::new(98304));
    assert_eq!((a, b, c), (1, 2, 3));
    assert!(matches!(rt.get_material(0), Material::Lambertian(_)));
    assert!(matches!(rt.get_material(2), Material::Metal(_)));
    assert!(matches!(rt.get_material(3), Material::Dielectric(_)));
    let _ = rt.get_rng().next01();
    rt.set_camera_position(Vec3::new(FX_ONE, 0, 0));
    assert_eq!(rt.get_camera().get_position(), Vec3::new(FX_ONE, 0, 0));
}

#[test]
fn default_renderer_matches_the_documented_configuration() {
    let rt = RSRaytracer::new();
    assert_eq!(rs_raytracer::raytracer::WIDTH, 1280);
    assert_eq!(rs_raytracer::raytracer::HEIGHT, 720);
    assert_eq!(rs_raytracer::raytracer::CHANNELS, 3);
    // Default eye position (-2, 2, 1).
    assert_eq!(
        rt.get_camera().get_position(),
        Vec3::new(-2 * FX_ONE, 2 * FX_ONE, FX_ONE)
    );
    // Reserved default material at handle 0.
    assert!(matches!(rt.get_material(0), Material::Lambertian(_)));
    let bytes = rt.tone_mapped_bytes();
    assert_eq!(bytes.len(), 1280 * 720 * 3);
    // The initial preview gradient: blue is dark everywhere, red grows
    // left to right.
    assert_eq!(bytes[2], 0);
    assert!(bytes[(1280 - 1) * 3] > bytes[0]);
}

#[test]
fn tone_mapping_gamma_of_half_is_181() {
    // Accumulated N * 0.5 over N samples tone-maps to
    // floor(256 * sqrt(0.5)) == 181.
    let rt = RSRaytracer::new_with_config(1, 1, 20, 5);
    let flat = Vec3::new(20 * FX_HALF, 0, 20 * FX_HALF);
    assert_eq!(rt.get_final_rgb(&flat), (181, 0, 181));
}

#[test]
fn tone_mapping_clamps_and_floors() {
    let rt = RSRaytracer::new_with_config(1, 1, 1, 5);
    // Value 4.0 overshoots: sqrt is 2, clamped just below 1, byte 255.
    assert_eq!(rt.get_final_rgb(&Vec3::new(4 * FX_ONE, FX_ONE, -FX_ONE)), (255, 255, 0));
    assert_eq!(rt.get_final_rgb(&Vec3::zero()), (0, 0, 0));
}

#[test]
fn ppm_text_matches_the_format_byte_for_byte() {
    let bytes: Vec<u8> = vec![255, 0, 0, 0, 255, 0];
    let text = ppm_from_bytes(2, 1, &bytes);
    assert_eq!(text, "P3\n2 1\n255\n255 0 0\n0 255 0\n");
}

#[test]
fn render_pass_fills_the_buffer_with_bounded_sums() {
    let mut rt = scenario_tracer();
    rt.run();
    let bytes = rt.tone_mapped_bytes();
    assert_eq!(bytes.len(), 2 * 2 * 3);
    let ppm = rt.ppm_string();
    assert!(ppm.starts_with("P3\n2 2\n255\n"));
    assert_eq!(ppm.lines().count(), 3 + 4);
    // The export path shows exactly the preview bytes.
    let again = ppm_from_bytes(2, 2, &bytes);
    assert_eq!(ppm, again);
    // And the per-pixel fetch agrees with both.
    for y in 0..2u32 {
        for x in 0..2u32 {
            let (r, g, b) = rt.pixel_rgb(x, y);
            let off = ((y * 2 + x) * 3) as usize;
            assert_eq!((r, g, b), (bytes[off], bytes[off + 1], bytes[off + 2]));
        }
    }
}
