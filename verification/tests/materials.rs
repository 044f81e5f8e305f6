use rs_raytracer::fixed::{FX_HALF, FX_ONE};
use rs_raytracer::hittable::HitRecord;
use rs_raytracer::material::{Dielectric, Lambertian, Material, Metal};
use rs_raytracer::math::{RandGen, Ray, Vec3};

fn grey() -> Vec3 {
    Vec3::new(FX_HALF, FX_HALF, FX_HALF)
}

fn surface_rec() -> HitRecord {
    HitRecord::new(Vec3::new(0, 0, -FX_HALF), Vec3::new(0, 0, FX_ONE), FX_HALF, true, 1)
}

#[test]
fn lambertian_always_scatters_with_its_albedo() {
    let mut rng = RandGen::new_seeded(7);
    let l = Lambertian::new(grey());
    let ray = Ray::new(Vec3::zero(), Vec3::new(0, 0, -FX_ONE));
    for _ in 0..20 {
        let (attenuation, scattered) = l.scatter(&ray, &surface_rec(), &mut rng).expect(
            "lambertian never absorbs",
        );
        assert_eq!(attenuation, grey());
        assert_eq!(scattered.origin, surface_rec().p);
        assert!(!scattered.direction.near_zero());
    }
}

#[test]
fn metal_with_zero_fuzz_is_an_exact_mirror() {
    let mut rng = RandGen::new_seeded(7);
    let albedo = Vec3::new(52428, 52428, 52428);
    let m = Metal::new(albedo, 0);
    // Incoming 45 degrees down onto the y = 0 plane.
    let ray = Ray::new(Vec3::new(-FX_ONE, FX_ONE, 0), Vec3::new(FX_ONE, -FX_ONE, 0));
    let rec = HitRecord::new(Vec3::zero(), Vec3::new(0, FX_ONE, 0), FX_ONE, true, 1);
    let (attenuation, scattered) = m.scatter(&ray, &rec, &mut rng).expect("reflects upward");
    assert_eq!(attenuation, albedo);
    assert_eq!(scattered.origin, Vec3::zero());
    assert_eq!(scattered.direction, Vec3::new(46341, 46341, 0));
}

#[test]
fn metal_absorbs_rays_reflected_below_the_horizon() {
    let mut rng = RandGen::new_seeded(7);
    let m = Metal::new(grey(), 0);
    // Incoming from below against a downward-facing record normal: the
    // mirrored direction points into the surface and is absorbed.
    let ray = Ray::new(Vec3::zero(), Vec3::new(FX_ONE, FX_ONE, 0));
    let rec = HitRecord::new(Vec3::zero(), Vec3::new(0, FX_ONE, 0), FX_ONE, true, 1);
    assert!(m.scatter(&ray, &rec, &mut rng).is_none());
}

#[test]
fn dielectric_with_unit_ior_passes_head_on_rays_through() {
    let mut rng = RandGen::new_seeded(7);
    let d = Dielectric::new(FX_ONE);
    let ray = Ray::new(Vec3::zero(), Vec3::new(0, 0, -FX_ONE));
    let rec = surface_rec();
    for _ in 0..20 {
        let (attenuation, scattered) = d.scatter(&ray, &rec, &mut rng).expect(
            "dielectric never absorbs",
        );
        // The medium does not absorb, and at ratio 1 the head-on ray is
        // undeviated.
        assert_eq!(attenuation, Vec3::one());
        assert_eq!(scattered.origin, rec.p);
        assert_eq!(scattered.direction, Vec3::new(0, 0, -FX_ONE));
    }
}

#[test]
fn dielectric_reflects_under_total_internal_reflection() {
    let mut rng = RandGen::new_seeded(7);
    let d = Dielectric::new(98304); // ior 1.5
    // Leaving the medium at 45 degrees: ratio * sin exceeds one, so the
    // ray must mirror, deterministically.
    let ray = Ray::new(Vec3::new(-FX_ONE, FX_ONE, 0), Vec3::new(FX_ONE, -FX_ONE, 0));
    let rec = HitRecord::new(Vec3::zero(), Vec3::new(0, FX_ONE, 0), FX_ONE, false, 1);
    for _ in 0..20 {
        let (attenuation, scattered) = d.scatter(&ray, &rec, &mut rng).expect(
            "dielectric never absorbs",
        );
        assert_eq!(attenuation, Vec3::one());
        assert_eq!(scattered.direction, Vec3::new(46341, 46341, 0));
    }
}

#[test]
fn dielectric_choice_reflects_iff_draw_below_reflectance() {
    let d = Dielectric::new(98304); // ior 1.5
    // Entering at 60 degrees: cosine 0.5, ratio 1/1.5, no total internal
    // reflection, Schlick reflectance exactly 4587.
    let ud = Vec3::new(56755, 0, -32768);
    let ray = Ray::new(Vec3::zero(), ud);
    let rec = HitRecord::new(Vec3::zero(), Vec3::new(0, 0, FX_ONE), FX_ONE, true, 1);
    // On the grid the incidence cosine lands at 32769 and Schlick gives
    // exactly 4586.
    assert_eq!(d.reflectance(32769, 43690), 4586);
    let mirrored = ud.normalized().reflect(rec.n);
    let refracted = Vec3::refract(ud.normalized(), rec.n, 43690);
    // A draw strictly below the reflectance mirrors; at or above, it
    // refracts.
    assert_eq!(d.choose_direction(&ray, &rec, 0), mirrored);
    assert_eq!(d.choose_direction(&ray, &rec, 4585), mirrored);
    assert_eq!(d.choose_direction(&ray, &rec, 4586), refracted);
    assert_eq!(d.choose_direction(&ray, &rec, FX_ONE - 1), refracted);
    assert_eq!(mirrored, Vec3::new(56756, 0, 32769));
    assert_eq!(refracted, Vec3::new(37836, 0, -53511));
    assert_ne!(mirrored, refracted);
}

#[test]
fn schlick_reflectance_values_and_monotonicity() {
    let d = Dielectric::new(98304); // ior 1.5
    let ratio = 43690; // 1 / 1.5 on the fixed-point grid
    // Normal incidence returns exactly r0.
    assert_eq!(d.reflectance(FX_ONE, ratio), 2621);
    // Grazing incidence returns exactly one.
    assert_eq!(d.reflectance(0, ratio), FX_ONE);
    // Reflectance grows as the cosine falls.
    assert_eq!(d.reflectance(FX_HALF, ratio), 4587);
    let mut prev = d.reflectance(FX_ONE, ratio);
    for k in 0..8 {
        let cos = FX_ONE - k * 8192;
        let r = d.reflectance(cos, ratio);
        assert!(r >= prev);
        prev = r;
    }
}

#[test]
fn material_enum_dispatches_by_tag() {
    let mut rng = RandGen::new_seeded(7);
    let ray = Ray::new(Vec3::zero(), Vec3::new(0, 0, -FX_ONE));
    let rec = surface_rec();

    let lam = Material::Lambertian(Lambertian::new(grey()));
    let (a1, _) = lam.scatter(&ray, &rec, &mut rng).expect("lambertian scatters");
    assert_eq!(a1, grey());

    let die = Material::Dielectric(Dielectric::new(FX_ONE));
    let (a2, _) = die.scatter(&ray, &rec, &mut rng).expect("dielectric scatters");
    assert_eq!(a2, Vec3::one());
}

#[test]
fn scatter_attenuation_never_exceeds_unity() {
    let mut rng = RandGen::new_seeded(11);
    let ray = Ray::new(Vec3::zero(), Vec3::new(0, 0, -FX_ONE));
    let rec = surface_rec();
    let mats = [
        Material::Lambertian(Lambertian::new(grey())),
        Material::Metal(Metal::new(Vec3::new(52428, 39321, 13107), 16384)),
        Material::Dielectric(Dielectric::new(98304)),
    ];
    for m in mats.iter() {
        for _ in 0..20 {
            if let Some((attenuation, _)) = m.scatter(&ray, &rec, &mut rng) {
                for c in [attenuation.x, attenuation.y, attenuation.z] {
                    assert!((0..=FX_ONE).contains(&c));
                }
            }
        }
    }
}
