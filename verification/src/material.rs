//! The material model: diffuse, reflective and refractive scattering.
//!
//! Materials form a closed tagged variant with a single `scatter` dispatch.
//! A scatter result of `None` means the ray was absorbed. Where a result
//! depends on a random draw, the contract names the draw with an
//! existential witness; everything that does not depend on the draw (the
//! attenuation, the scattered origin, the deterministic cases) is stated
//! exactly.

use vstd::prelude::*;

verus! {

use crate::fixed::{
    FX_ONE, fx_add, fx_div, fx_min, fx_mul, fx_sqrt, fx_sub, spec_add, spec_div, spec_mul,
    spec_sqrt, spec_sub,
};
use crate::hittable::HitRecord;
use crate::math::{RandGen, Ray, Vec3, s_v3};

/// A diffuse surface: scatters around the normal, attenuates by its albedo.
#[derive(Clone, Copy)]
pub struct Lambertian {
    albedo: Vec3,
}

/// A reflective surface: mirrors the incoming ray, blurred by `fuzz`.
#[derive(Clone, Copy)]
pub struct Metal {
    albedo: Vec3,
    fuzz: i64,
}

/// A refractive surface with the given index of refraction.
#[derive(Clone, Copy)]
pub struct Dielectric {
    ior: i64,
}

impl Lambertian {
    /// The stored albedo.
    pub closed spec fn s_albedo(self) -> Vec3 {
        self.albedo
    }

    /// The albedo is a physical color.
    pub open spec fn s_wf(self) -> bool {
        Vec3::s_in_unit_cube(self.s_albedo())
    }

    /// The scattered direction for unit-sphere draw direction `u`: the
    /// normal plus the draw, with the normal itself as the fallback when
    /// the sum cancels to zero.
    pub open spec fn s_dir(n: Vec3, u: Vec3) -> Vec3 {
        let d: Vec3 = n.s_add(u);
        if d.s_near_zero() {
            n
        } else {
            d
        }
    }

    /// What `scatter` returns: it always succeeds, attenuates by the
    /// albedo, and scatters from the hit point along `s_dir` of some
    /// unit-sphere draw.
    pub open spec fn s_scatter_ok(self, rec: HitRecord, r: Option<(Vec3, Ray)>) -> bool {
        &&& r matches Some(pair) && pair.0 == self.s_albedo() && pair.1.origin == rec.p
        &&& exists|v: Vec3|
            Vec3::s_unit_box(v) && r->Some_0.1.direction == Lambertian::s_dir(
                rec.n,
                #[trigger] Vec3::s_sphere_dir(v),
            )
    }

    pub fn new(albedo: Vec3) -> (r: Lambertian)
        requires
            Vec3::s_in_unit_cube(albedo),
        ensures
            r.s_albedo() == albedo,
            r.s_wf(),
    {
        Lambertian { albedo }
    }

    /// Diffuse scatter: always succeeds.
    pub fn scatter(&self, _ray: &Ray, hit_rec: &HitRecord, rng: &mut RandGen) -> (r: Option<
        (Vec3, Ray),
    >)
        ensures
            self.s_scatter_ok(*hit_rec, r),
    {
        let rand_dir: Vec3 = Vec3::random_on_sphere(rng);
        let mut scatter_dir: Vec3 = hit_rec.n.add(rand_dir);

        // Catch the degenerate direction where the draw cancels the normal.
        if scatter_dir.near_zero() {
            scatter_dir = hit_rec.n;
        }

        let r: Option<(Vec3, Ray)> = Some((self.albedo, Ray::new(hit_rec.p, scatter_dir)));
        proof {
            let v: Vec3 = choose|v: Vec3|
                Vec3::s_unit_box(v) && rand_dir == #[trigger] Vec3::s_sphere_dir(v);
            assert(r->Some_0.1.direction == Lambertian::s_dir(hit_rec.n, Vec3::s_sphere_dir(v)));
        }
        r
    }
}

impl Metal {
    /// The stored albedo.
    pub closed spec fn s_albedo(self) -> Vec3 {
        self.albedo
    }

    /// The stored fuzz radius.
    pub closed spec fn s_fuzz(self) -> i64 {
        self.fuzz
    }

    /// The albedo is a physical color and the fuzz is non-negative.
    pub open spec fn s_wf(self) -> bool {
        Vec3::s_in_unit_cube(self.s_albedo()) && self.s_fuzz() >= 0
    }

    /// The scattered direction for unit-sphere draw direction `u`: the
    /// mirrored incoming direction, perturbed by `fuzz` times the draw.
    pub open spec fn s_dir(ray: Ray, n: Vec3, u: Vec3, fuzz: int) -> Vec3 {
        ray.direction.s_normalized().s_reflect(n).s_add(u.s_scale(fuzz))
    }

    /// What `scatter` returns: for some unit-sphere draw, the perturbed
    /// mirror direction; the ray is absorbed exactly when that direction
    /// points into the surface.
    pub open spec fn s_scatter_ok(self, ray: Ray, rec: HitRecord, r: Option<(Vec3, Ray)>) -> bool {
        exists|v: Vec3|
            #![trigger Vec3::s_sphere_dir(v)]
            {
                let d: Vec3 = Metal::s_dir(ray, rec.n, Vec3::s_sphere_dir(v), self.s_fuzz() as int);
                &&& Vec3::s_unit_box(v)
                &&& if d.s_dot(rec.n) > 0 {
                    r == Some((self.s_albedo(), Ray { origin: rec.p, direction: d }))
                } else {
                    r == Option::<(Vec3, Ray)>::None
                }
            }
    }

    pub fn new(albedo: Vec3, fuzz: i64) -> (r: Metal)
        requires
            Vec3::s_in_unit_cube(albedo),
            fuzz >= 0,
        ensures
            r.s_albedo() == albedo,
            r.s_fuzz() == fuzz,
            r.s_wf(),
    {
        Metal { albedo, fuzz }
    }

    /// Mirror scatter: absorbed when fuzz pushes the ray below the horizon.
    /// With zero fuzz the result is fully deterministic and stated so.
    pub fn scatter(&self, ray: &Ray, hit_rec: &HitRecord, rng: &mut RandGen) -> (r: Option<
        (Vec3, Ray),
    >)
        ensures
            self.s_scatter_ok(*ray, *hit_rec, r),
            self.s_fuzz() == 0 ==> {
                let refl: Vec3 = ray.direction.s_normalized().s_reflect(hit_rec.n);
                if refl.s_dot(hit_rec.n) > 0 {
                    r == Some((self.s_albedo(), Ray { origin: hit_rec.p, direction: refl }))
                } else {
                    r == Option::<(Vec3, Ray)>::None
                }
            },
    {
        let reflected: Vec3 = ray.direction.normalized().reflect(hit_rec.n);
        let rand_dir: Vec3 = Vec3::random_on_sphere(rng);
        let dir: Vec3 = reflected.add(rand_dir.scale(self.fuzz));

        let r: Option<(Vec3, Ray)> = if dir.dot(&hit_rec.n) > 0 {
            Some((self.albedo, Ray::new(hit_rec.p, dir)))
        } else {
            None
        };
        proof {
            let v: Vec3 = choose|v: Vec3|
                Vec3::s_unit_box(v) && rand_dir == #[trigger] Vec3::s_sphere_dir(v);
            assert(dir == Metal::s_dir(*ray, hit_rec.n, Vec3::s_sphere_dir(v), self.fuzz as int));
            if self.fuzz == 0 {
                assert(rand_dir.s_scale(0).s_near_zero());
                assert(dir == reflected);
            }
        }
        r
    }
}

impl Dielectric {
    /// The stored index of refraction.
    pub closed spec fn s_ior(self) -> i64 {
        self.ior
    }

    /// The index of refraction is positive.
    pub open spec fn s_wf(self) -> bool {
        self.s_ior() > 0
    }

    /// Schlick's reflectance approximation
    /// `r0 + (1 - r0) (1 - cos)^5` with `r0 = ((1 - n) / (1 + n))^2`,
    /// the fifth power formed by repeated squaring and one final product.
    pub open spec fn s_reflectance(cosine: int, ref_idx: int) -> int {
        let r0s: int = spec_div(
            spec_sub(FX_ONE as int, ref_idx),
            spec_add(FX_ONE as int, ref_idx),
        );
        let r0: int = spec_mul(r0s, r0s);
        let omc: int = spec_sub(FX_ONE as int, cosine);
        let p2: int = spec_mul(omc, omc);
        let p5: int = spec_mul(spec_mul(p2, p2), omc);
        spec_add(r0, spec_mul(spec_sub(FX_ONE as int, r0), p5))
    }

    /// The refraction ratio for this hit: `1 / ior` entering the medium,
    /// `ior` leaving it.
    pub open spec fn s_ratio(self, rec: HitRecord) -> int {
        if rec.front_face {
            spec_div(FX_ONE as int, self.s_ior() as int)
        } else {
            self.s_ior() as int
        }
    }

    /// The cosine of the incidence angle, clamped to at most one.
    pub open spec fn s_cos(ray: Ray, rec: HitRecord) -> int {
        vstd::math::min(ray.direction.s_normalized().s_neg().s_dot(rec.n), FX_ONE as int)
    }

    /// Whether total internal reflection is unavoidable:
    /// `ratio * sin > 1` with `sin = sqrt(1 - cos^2)`.
    pub open spec fn s_cannot_refract(self, ray: Ray, rec: HitRecord) -> bool {
        let cos: int = Dielectric::s_cos(ray, rec);
        let sin: int = spec_sqrt(spec_sub(FX_ONE as int, spec_mul(cos, cos)));
        spec_mul(self.s_ratio(rec), sin) > FX_ONE
    }

    /// The mirrored direction.
    pub open spec fn s_refl(ray: Ray, rec: HitRecord) -> Vec3 {
        ray.direction.s_normalized().s_reflect(rec.n)
    }

    /// The refracted direction.
    pub open spec fn s_refr(self, ray: Ray, rec: HitRecord) -> Vec3 {
        Vec3::s_refract(ray.direction.s_normalized(), rec.n, self.s_ratio(rec))
    }

    /// The deterministic choice step of the refractive scatter, as a
    /// function of the uniform draw it is compared against: mirror under
    /// total internal reflection or when the draw falls below Schlick's
    /// reflectance, refract otherwise.
    pub open spec fn s_direction_for(self, ray: Ray, rec: HitRecord, draw: int) -> Vec3 {
        if self.s_cannot_refract(ray, rec) || Dielectric::s_reflectance(
            Dielectric::s_cos(ray, rec),
            self.s_ratio(rec),
        ) > draw {
            Dielectric::s_refl(ray, rec)
        } else {
            self.s_refr(ray, rec)
        }
    }

    /// What `scatter` returns: it always succeeds, the medium does not
    /// absorb (attenuation one), and the direction is `s_direction_for`
    /// of some uniform draw — so it is the mirrored or the refracted
    /// one. Under total internal reflection it mirrors; when refraction
    /// is possible and the reflectance is not positive, it refracts,
    /// since the uniform draw it is compared against is non-negative.
    pub open spec fn s_scatter_ok(self, ray: Ray, rec: HitRecord, r: Option<(Vec3, Ray)>) -> bool {
        &&& r matches Some(pair) && pair.0 == s_v3(FX_ONE as int, FX_ONE as int, FX_ONE as int)
            && pair.1.origin == rec.p
        &&& exists|draw: int|
            0 <= draw < FX_ONE && r->Some_0.1.direction == #[trigger] self.s_direction_for(
                ray,
                rec,
                draw,
            )
        &&& (r->Some_0.1.direction == Dielectric::s_refl(ray, rec) || r->Some_0.1.direction
            == self.s_refr(ray, rec))
        &&& self.s_cannot_refract(ray, rec) ==> r->Some_0.1.direction == Dielectric::s_refl(
            ray,
            rec,
        )
        &&& (!self.s_cannot_refract(ray, rec) && Dielectric::s_reflectance(
            Dielectric::s_cos(ray, rec),
            self.s_ratio(rec),
        ) <= 0) ==> r->Some_0.1.direction == self.s_refr(ray, rec)
    }

    pub fn new(ior: i64) -> (r: Dielectric)
        requires
            ior > 0,
        ensures
            r.s_ior() == ior,
            r.s_wf(),
    {
        Dielectric { ior }
    }

    /// Schlick's approximation of the reflectance fraction.
    pub fn reflectance(&self, cosine: i64, ref_idx: i64) -> (r: i64)
        ensures
            r as int == Dielectric::s_reflectance(cosine as int, ref_idx as int),
    {
        let r0s: i64 = fx_div(fx_sub(FX_ONE, ref_idx), fx_add(FX_ONE, ref_idx));
        let r0: i64 = fx_mul(r0s, r0s);
        let omc: i64 = fx_sub(FX_ONE, cosine);
        let p2: i64 = fx_mul(omc, omc);
        let p5: i64 = fx_mul(fx_mul(p2, p2), omc);
        fx_add(r0, fx_mul(fx_sub(FX_ONE, r0), p5))
    }

    /// Schlick's base reflectance `r0 = ((1 - n) / (1 + n))^2` lies in the
    /// unit interval for any positive index of refraction.
    pub proof fn lemma_r0_in_unit(ref_idx: int)
        requires
            1 <= ref_idx <= crate::fixed::FX_MAX,
        ensures
            ({
                let r0s: int = spec_div(
                    spec_sub(FX_ONE as int, ref_idx),
                    spec_add(FX_ONE as int, ref_idx),
                );
                -FX_ONE < r0s < FX_ONE && 0 <= spec_mul(r0s, r0s) <= FX_ONE
            }),
    {
        let num: int = spec_sub(FX_ONE as int, ref_idx);
        let den: int = spec_add(FX_ONE as int, ref_idx);
        assert(num == FX_ONE - ref_idx);
        assert(den >= FX_ONE + 1);
        assert((vstd::math::abs(num) as int) < den);
        crate::fixed::lemma_div_frac_below(vstd::math::abs(num) as int, den);
        crate::fixed::lemma_abs_mul(num, FX_ONE as int);
        vstd::arithmetic::mul::lemma_mul_nonnegative(vstd::math::abs(num) as int, FX_ONE as int);
        let q: int = crate::fixed::div_trunc(num * FX_ONE, den);
        let qa: int = crate::fixed::div_trunc(vstd::math::abs(num) as int * FX_ONE, den);
        assert(q == qa || q == -qa);
        assert(0 <= qa < FX_ONE);
        let r0s: int = spec_div(num, den);
        assert(r0s == q);
        crate::fixed::lemma_square_le_one(r0s);
    }

    /// At normal incidence (`cos = 1`) Schlick's reflectance is exactly
    /// the base reflectance `r0`.
    pub proof fn lemma_schlick_normal_incidence(ref_idx: int)
        requires
            1 <= ref_idx <= crate::fixed::FX_MAX,
        ensures
            ({
                let r0s: int = spec_div(
                    spec_sub(FX_ONE as int, ref_idx),
                    spec_add(FX_ONE as int, ref_idx),
                );
                Dielectric::s_reflectance(FX_ONE as int, ref_idx) == spec_mul(r0s, r0s)
            }),
    {
        Dielectric::lemma_r0_in_unit(ref_idx);
        let r0s: int = spec_div(
            spec_sub(FX_ONE as int, ref_idx),
            spec_add(FX_ONE as int, ref_idx),
        );
        let r0: int = spec_mul(r0s, r0s);
        let omc: int = spec_sub(FX_ONE as int, FX_ONE as int);
        assert(omc == 0);
        vstd::arithmetic::div_mod::lemma_div_of0(FX_ONE as int);
        assert(spec_mul(0, 0) == 0);
        let omr0: int = spec_sub(FX_ONE as int, r0);
        vstd::arithmetic::mul::lemma_mul_basics(omr0);
        assert(spec_mul(omr0, 0) == 0);
        assert(spec_add(r0, 0) == r0);
    }

    /// Schlick's reflectance is monotone in the incidence angle: it
    /// falls as the cosine rises toward normal incidence.
    pub proof fn lemma_schlick_monotone(cos1: int, cos2: int, ref_idx: int)
        requires
            0 <= cos1 <= cos2 <= FX_ONE,
            1 <= ref_idx <= crate::fixed::FX_MAX,
        ensures
            Dielectric::s_reflectance(cos2, ref_idx) <= Dielectric::s_reflectance(cos1, ref_idx),
    {
        Dielectric::lemma_r0_in_unit(ref_idx);
        let r0s: int = spec_div(
            spec_sub(FX_ONE as int, ref_idx),
            spec_add(FX_ONE as int, ref_idx),
        );
        let r0: int = spec_mul(r0s, r0s);
        let omr0: int = spec_sub(FX_ONE as int, r0);
        assert(0 <= omr0 <= FX_ONE);

        let omc1: int = spec_sub(FX_ONE as int, cos1);
        let omc2: int = spec_sub(FX_ONE as int, cos2);
        assert(0 <= omc2 <= omc1 <= FX_ONE);

        crate::fixed::lemma_unit_mul(omc1, omc1);
        crate::fixed::lemma_unit_mul(omc2, omc2);
        let p2_1: int = spec_mul(omc1, omc1);
        let p2_2: int = spec_mul(omc2, omc2);
        crate::fixed::lemma_mul_mono(omc2, omc1, omc2);
        crate::fixed::lemma_mul_mono(omc2, omc1, omc1);
        vstd::arithmetic::mul::lemma_mul_is_commutative(omc1, omc2);
        assert(p2_2 <= p2_1);

        crate::fixed::lemma_unit_mul(p2_1, p2_1);
        crate::fixed::lemma_unit_mul(p2_2, p2_2);
        let p4_1: int = spec_mul(p2_1, p2_1);
        let p4_2: int = spec_mul(p2_2, p2_2);
        crate::fixed::lemma_mul_mono(p2_2, p2_1, p2_2);
        crate::fixed::lemma_mul_mono(p2_2, p2_1, p2_1);
        vstd::arithmetic::mul::lemma_mul_is_commutative(p2_1, p2_2);
        assert(p4_2 <= p4_1);

        crate::fixed::lemma_unit_mul(p4_1, omc1);
        crate::fixed::lemma_unit_mul(p4_2, omc2);
        let p5_1: int = spec_mul(p4_1, omc1);
        let p5_2: int = spec_mul(p4_2, omc2);
        crate::fixed::lemma_mul_mono(p4_2, p4_1, omc2);
        crate::fixed::lemma_mul_mono(omc2, omc1, p4_1);
        vstd::arithmetic::mul::lemma_mul_is_commutative(p4_1, omc2);
        vstd::arithmetic::mul::lemma_mul_is_commutative(p4_1, omc1);
        assert(p5_2 <= p5_1);

        crate::fixed::lemma_mul_mono(p5_2, p5_1, omr0);
        vstd::arithmetic::mul::lemma_mul_is_commutative(omr0, p5_2);
        vstd::arithmetic::mul::lemma_mul_is_commutative(omr0, p5_1);
        assert(spec_mul(omr0, p5_2) <= spec_mul(omr0, p5_1));
        crate::fixed::lemma_unit_mul(omr0, p5_1);
        crate::fixed::lemma_unit_mul(omr0, p5_2);
    }

    /// The deterministic choice step of the refractive scatter, taking
    /// the uniform draw as an argument: mirror under total internal
    /// reflection or when the draw falls below Schlick's reflectance,
    /// refract otherwise.
    pub fn choose_direction(&self, ray: &Ray, hit_rec: &HitRecord, draw: i64) -> (r: Vec3)
        ensures
            r == self.s_direction_for(*ray, *hit_rec, draw as int),
    {
        let refract_ratio: i64 = if hit_rec.front_face {
            fx_div(FX_ONE, self.ior)
        } else {
            self.ior
        };
        let unit_direction: Vec3 = ray.direction.normalized();

        let cos_theta: i64 = fx_min(unit_direction.neg().dot(&hit_rec.n), FX_ONE);
        let sin_theta: i64 = fx_sqrt(fx_sub(FX_ONE, fx_mul(cos_theta, cos_theta)));

        let cannot_refract: bool = fx_mul(refract_ratio, sin_theta) > FX_ONE;

        if cannot_refract {
            unit_direction.reflect(hit_rec.n)
        } else if self.reflectance(cos_theta, refract_ratio) > draw {
            unit_direction.reflect(hit_rec.n)
        } else {
            Vec3::refract(unit_direction, hit_rec.n, refract_ratio)
        }
    }

    /// Refractive scatter: always succeeds with attenuation one; chooses
    /// between mirror reflection and refraction by total internal
    /// reflection and a stochastic Schlick test. The draw is consumed
    /// only when refraction is possible; the deterministic choice is
    /// `choose_direction` of that draw.
    pub fn scatter(&self, ray: &Ray, hit_rec: &HitRecord, rng: &mut RandGen) -> (r: Option<
        (Vec3, Ray),
    >)
        ensures
            self.s_scatter_ok(*ray, *hit_rec, r),
    {
        let refract_ratio: i64 = if hit_rec.front_face {
            fx_div(FX_ONE, self.ior)
        } else {
            self.ior
        };
        let unit_direction: Vec3 = ray.direction.normalized();

        let cos_theta: i64 = fx_min(unit_direction.neg().dot(&hit_rec.n), FX_ONE);
        let sin_theta: i64 = fx_sqrt(fx_sub(FX_ONE, fx_mul(cos_theta, cos_theta)));

        let cannot_refract: bool = fx_mul(refract_ratio, sin_theta) > FX_ONE;

        let direction: Vec3 = if cannot_refract {
            // Total internal reflection mirrors whatever the draw would
            // have been; any value witnesses the choice step.
            self.choose_direction(ray, hit_rec, 0)
        } else {
            let draw: i64 = rng.next01();
            self.choose_direction(ray, hit_rec, draw)
        };

        Some((Vec3::one(), Ray::new(hit_rec.p, direction)))
    }
}

/// The closed set of materials, dispatched by tag.
#[derive(Clone, Copy)]
pub enum Material {
    Lambertian(Lambertian),
    Metal(Metal),
    Dielectric(Dielectric),
}

impl Material {
    /// Each variant's own well-formedness.
    pub open spec fn s_wf(self) -> bool {
        match self {
            Material::Lambertian(m) => m.s_wf(),
            Material::Metal(m) => m.s_wf(),
            Material::Dielectric(m) => m.s_wf(),
        }
    }

    /// What the variant's own scatter rule allows: a possible outcome of
    /// `scatter` for some random draw.
    pub open spec fn s_scatter_ok(self, ray: Ray, rec: HitRecord, r: Option<(Vec3, Ray)>) -> bool {
        match self {
            Material::Lambertian(m) => m.s_scatter_ok(rec, r),
            Material::Metal(m) => m.s_scatter_ok(ray, rec, r),
            Material::Dielectric(m) => m.s_scatter_ok(ray, rec, r),
        }
    }

    /// Scatter through the variant's own rule. Whatever the material and
    /// the random draw, a successful scatter leaves the hit point and
    /// attenuates by a physical color.
    pub fn scatter(&self, ray: &Ray, hit_rec: &HitRecord, rng: &mut RandGen) -> (r: Option<
        (Vec3, Ray),
    >)
        requires
            self.s_wf(),
        ensures
            self.s_scatter_ok(*ray, *hit_rec, r),
            r matches Some(pair) ==> Vec3::s_in_unit_cube(pair.0) && pair.1.origin == hit_rec.p,
    {
        match self {
            Material::Lambertian(m) => m.scatter(ray, hit_rec, rng),
            Material::Metal(m) => m.scatter(ray, hit_rec, rng),
            Material::Dielectric(m) => m.scatter(ray, hit_rec, rng),
        }
    }
}

} // verus!
