//! The sphere primitive and the structured intersection record.
//!
//! `Sphere::hit` solves the ray/sphere quadratic with the half-b
//! simplification and returns the nearest root inside `[t_min, t_max]`,
//! with the surface normal oriented against the incoming ray. Its result
//! equals the spec-level model `s_hit` exactly.

use vstd::prelude::*;

verus! {

use crate::fixed::{
    fx_add, fx_div, fx_mul, fx_neg, fx_sqrt, fx_sub, spec_add, spec_div, spec_mul, spec_neg,
    spec_sqrt, spec_sub,
};
use crate::math::{Ray, Vec3};

/// The outcome of a successful intersection: hit point, oriented normal,
/// ray parameter, which surface side was struck, and the material handle.
#[derive(Clone, Copy, PartialEq, Eq, Structural, Debug)]
pub struct HitRecord {
    pub p: Vec3,
    pub n: Vec3,
    pub t: i64,
    pub front_face: bool,
    pub mat_id: u32,
}

impl HitRecord {
    /// The normal as `set_face_normal` orients it: kept when it already
    /// faces the ray origin, flipped otherwise.
    pub open spec fn s_oriented(ray: Ray, outward_normal: Vec3) -> Vec3 {
        if ray.direction.s_dot(outward_normal) < 0 {
            outward_normal
        } else {
            outward_normal.s_neg()
        }
    }

    pub fn empty() -> (r: HitRecord)
        ensures
            r == (HitRecord {
                p: crate::math::s_v3(0, 0, 0),
                n: crate::math::s_v3(0, 0, 0),
                t: 0i64,
                front_face: false,
                mat_id: 0u32,
            }),
    {
        HitRecord {
            p: Vec3 { x: 0, y: 0, z: 0 },
            n: Vec3 { x: 0, y: 0, z: 0 },
            t: 0,
            front_face: false,
            mat_id: 0,
        }
    }

    pub fn new(p: Vec3, n: Vec3, t: i64, front_face: bool, mat_id: u32) -> (r: HitRecord)
        ensures
            r == (HitRecord { p, n, t, front_face, mat_id }),
    {
        HitRecord { p, n, t, front_face, mat_id }
    }

    /// Orient the stored normal against the incoming ray: the front face
    /// was struck exactly when the ray direction opposes the outward
    /// normal.
    pub fn set_face_normal(&mut self, ray: &Ray, outward_normal: &Vec3)
        ensures
            final(self).front_face == (ray.direction.s_dot(*outward_normal) < 0),
            final(self).n == HitRecord::s_oriented(*ray, *outward_normal),
            final(self).p == old(self).p,
            final(self).t == old(self).t,
            final(self).mat_id == old(self).mat_id,
    {
        self.front_face = ray.direction.dot(outward_normal) < 0;
        self.n = if self.front_face {
            *outward_normal
        } else {
            outward_normal.neg()
        };
    }
}

/// A sphere: center, radius (negative radii are permitted and yield an
/// inside-out sphere), and the handle of its material in the scene.
#[derive(Clone, Copy, PartialEq, Eq, Structural, Debug)]
pub struct Sphere {
    pub center: Vec3,
    pub radius: i64,
    pub mat_id: u32,
}

impl Sphere {
    /// The quadratic coefficient `a = |dir|^2`.
    pub open spec fn s_a(self, ray: Ray) -> int {
        ray.direction.s_sqr_length()
    }

    /// The half coefficient `half_b = (origin - center) . dir`.
    pub open spec fn s_half_b(self, ray: Ray) -> int {
        ray.origin.s_sub(self.center).s_dot(ray.direction)
    }

    /// The constant coefficient `c = |origin - center|^2 - r^2`.
    pub open spec fn s_c(self, ray: Ray) -> int {
        spec_sub(
            ray.origin.s_sub(self.center).s_sqr_length(),
            spec_mul(self.radius as int, self.radius as int),
        )
    }

    /// The discriminant `half_b^2 - a * c` of the intersection quadratic.
    pub open spec fn s_discriminant(self, ray: Ray) -> int {
        spec_sub(
            spec_mul(self.s_half_b(ray), self.s_half_b(ray)),
            spec_mul(self.s_a(ray), self.s_c(ray)),
        )
    }

    /// The smaller quadratic root `(-half_b - sqrt(disc)) / a`.
    pub open spec fn s_root1(self, ray: Ray) -> int {
        spec_div(
            spec_sub(spec_neg(self.s_half_b(ray)), spec_sqrt(self.s_discriminant(ray))),
            self.s_a(ray),
        )
    }

    /// The larger quadratic root `(-half_b + sqrt(disc)) / a`.
    pub open spec fn s_root2(self, ray: Ray) -> int {
        spec_div(
            spec_add(spec_neg(self.s_half_b(ray)), spec_sqrt(self.s_discriminant(ray))),
            self.s_a(ray),
        )
    }

    /// The record reported for a hit at parameter `t`: the hit point, the
    /// outward normal `(p - center) / radius` oriented against the ray,
    /// and the sphere's material handle.
    pub open spec fn s_record(self, ray: Ray, t: int) -> HitRecord {
        let p: Vec3 = ray.s_at(t);
        let outward: Vec3 = p.s_sub(self.center).s_div(self.radius as int);
        HitRecord {
            p,
            n: HitRecord::s_oriented(ray, outward),
            t: t as i64,
            front_face: ray.direction.s_dot(outward) < 0,
            mat_id: self.mat_id,
        }
    }

    /// The full intersection model: no real root means no hit; otherwise
    /// the smaller root wins if it lies in `[t_min, t_max]`, else the
    /// larger root, else there is no hit. (Opaque: the model is large, so
    /// proofs open it only where they need its shape.)
    #[verifier::opaque]
    pub open spec fn s_hit(self, ray: Ray, t_min: int, t_max: int) -> Option<HitRecord> {
        if self.s_discriminant(ray) < 0 {
            None
        } else {
            let r1: int = self.s_root1(ray);
            let r2: int = self.s_root2(ray);
            if t_min <= r1 && r1 <= t_max {
                Some(self.s_record(ray, r1))
            } else if t_min <= r2 && r2 <= t_max {
                Some(self.s_record(ray, r2))
            } else {
                None
            }
        }
    }

    /// Build a sphere. A zero radius is degenerate geometry and is
    /// rejected here, at construction; a negative radius is permitted
    /// and yields the inside-out sphere.
    pub fn new(center: Vec3, radius: i64, mat_id: u32) -> (r: Sphere)
        requires
            radius != 0,
        ensures
            r == (Sphere { center, radius, mat_id }),
    {
        Sphere { center, radius, mat_id }
    }

    /// Intersect the ray with this sphere within `[t_min, t_max]`.
    pub fn hit(&self, ray: &Ray, t_min: i64, t_max: i64) -> (r: Option<HitRecord>)
        ensures
            r == self.s_hit(*ray, t_min as int, t_max as int),
    {
        proof {
            reveal(Sphere::s_hit);
        }
        let oc: Vec3 = ray.origin.sub(self.center);
        let a: i64 = ray.direction.sqr_length();
        let half_b: i64 = oc.dot(&ray.direction);
        let c: i64 = fx_sub(oc.sqr_length(), fx_mul(self.radius, self.radius));

        let discriminant: i64 = fx_sub(fx_mul(half_b, half_b), fx_mul(a, c));
        if discriminant < 0 {
            return None;
        }
        let sqrtd: i64 = fx_sqrt(discriminant);

        let mut root: i64 = fx_div(fx_sub(fx_neg(half_b), sqrtd), a);
        if root < t_min || t_max < root {
            root = fx_div(fx_add(fx_neg(half_b), sqrtd), a);
            if root < t_min || t_max < root {
                return None;
            }
        }

        let p: Vec3 = ray.at(root);
        let outward_normal: Vec3 = p.sub(self.center).div(self.radius);
        let mut hr: HitRecord = HitRecord::new(p, Vec3::zero(), root, false, self.mat_id);
        hr.set_face_normal(ray, &outward_normal);

        Some(hr)
    }
}

/// The two quadratic roots come out in order: the "smaller root first"
/// rule really tries the smaller one first.
pub proof fn lemma_roots_ordered(s: Sphere, ray: Ray)
    ensures
        s.s_root1(ray) <= s.s_root2(ray),
{
    crate::math::lemma_sqr_length_nonneg(ray.direction);
    let hb: int = s.s_half_b(ray);
    let sq: int = spec_sqrt(s.s_discriminant(ray));
    assert(sq >= 0);
    crate::fixed::lemma_spec_div_mono(
        spec_sub(spec_neg(hb), sq),
        spec_add(spec_neg(hb), sq),
        s.s_a(ray),
    );
}

/// A reported hit parameter lies inside the query interval.
pub proof fn lemma_hit_t_in_range(s: Sphere, ray: Ray, t_min: int, t_max: int)
    requires
        crate::fixed::FX_MIN <= t_min,
        t_max <= crate::fixed::FX_MAX,
    ensures
        match s.s_hit(ray, t_min, t_max) {
            Some(h) => t_min <= h.t as int <= t_max,
            None => true,
        },
{
    reveal(Sphere::s_hit);
}

/// A reported hit carries the sphere's own material handle.
pub proof fn lemma_hit_mat_id(s: Sphere, ray: Ray, t_min: int, t_max: int)
    ensures
        match s.s_hit(ray, t_min, t_max) {
            Some(h) => h.mat_id == s.mat_id,
            None => true,
        },
{
    reveal(Sphere::s_hit);
}

/// Shrinking the far bound of the query interval keeps a hit that still
/// lies inside it and discards everything else; it never uncovers a
/// different hit. This is what lets a scene scan keep a shrinking
/// `closest_so_far` bound.
pub proof fn lemma_hit_with_tighter_bound(s: Sphere, ray: Ray, t_min: int, t_max: int, b: int)
    requires
        b <= t_max,
    ensures
        match s.s_hit(ray, t_min, t_max) {
            Some(h) => s.s_hit(ray, t_min, b) == if h.t as int <= b {
                Some(h)
            } else {
                Option::<HitRecord>::None
            },
            None => s.s_hit(ray, t_min, b) == Option::<HitRecord>::None,
        },
{
    reveal(Sphere::s_hit);
    lemma_roots_ordered(s, ray);
}

} // verus!
