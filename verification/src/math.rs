//! Vectors, rays and the random generator.
//!
//! `Vec3` is a 3-component fixed-point vector used interchangeably as a
//! point, a direction and a color. Every executable operation is specified
//! exactly against the scalar model in [`crate::fixed`].

use vstd::prelude::*;
use rand::RngCore;
use rand::SeedableRng;

verus! {

use crate::fixed::{
    FX_HALF, FX_MAX, FX_MIN, FX_ONE, fx_abs, fx_add, fx_div, fx_min, fx_mul, fx_neg, fx_sqrt,
    fx_sub, spec_abs, spec_add, spec_div, spec_mul, spec_neg, spec_sqrt, spec_sub,
};

/// Build a vector from model values; the model only ever produces values in
/// the raw range, so the narrowing casts preserve them.
pub open spec fn s_v3(x: int, y: int, z: int) -> Vec3 {
    Vec3 { x: x as i64, y: y as i64, z: z as i64 }
}

/// Declares rand's `SmallRng` so it can stand in a field; the verifier
/// sees nothing of a value of it.
#[verifier::external_type_specification]
#[verifier::external_body]
pub struct ExSmallRng(rand::rngs::SmallRng);

/// A pseudo-random generator handed explicitly to every sampling routine,
/// so that a render pass is reproducible given a fixed seed.
pub struct RandGen {
    rng: rand::rngs::SmallRng,
}

/// Relies on rand's `SeedableRng::from_rng` for `SmallRng`, fed from
/// `OsRng`: a fresh generator, or `None` when the operating system's
/// entropy source fails. Both paths report the failure as a value;
/// neither panics.
#[verifier::external_body]
fn rng_try_from_os() -> Option<rand::rngs::SmallRng> {
    rand::rngs::SmallRng::from_rng(rand::rngs::OsRng).ok()
}

/// Relies on rand's `SeedableRng::seed_from_u64` for `SmallRng`: a
/// generator whose stream is a function of the seed alone.
#[verifier::external_body]
fn rng_seed_from_u64(seed: u64) -> rand::rngs::SmallRng {
    rand::rngs::SmallRng::seed_from_u64(seed)
}

/// Relies on rand's `RngCore::next_u32` for `SmallRng`: some 32-bit value;
/// nothing is promised of which one.
#[verifier::external_body]
fn rng_next_u32(rng: &mut rand::rngs::SmallRng) -> u32 {
    rng.next_u32()
}

impl RandGen {
    /// A generator seeded from the operating system, with a fixed
    /// fallback seed when the system's entropy source fails, so that
    /// construction never panics.
    pub fn new() -> RandGen {
        match rng_try_from_os() {
            Some(rng) => RandGen { rng },
            None => RandGen { rng: rng_seed_from_u64(0) },
        }
    }

    /// A generator with a fixed seed, for reproducible render passes.
    pub fn new_seeded(seed: u64) -> RandGen {
        RandGen { rng: rng_seed_from_u64(seed) }
    }

    /// A scalar in `[0, 1)`: one of the `FX_ONE` raw values below one.
    pub fn next01(&mut self) -> (r: i64)
        ensures
            0 <= r < FX_ONE,
    {
        let x: u32 = rng_next_u32(&mut self.rng);
        (x % 65536) as i64
    }

    /// A scalar in `[lo, hi)`.
    pub fn next_range(&mut self, lo: i64, hi: i64) -> (r: i64)
        requires
            FX_MIN <= lo < hi,
        ensures
            lo <= r < hi,
    {
        let u: i64 = self.next01();
        let d: i64 = fx_sub(hi, lo);
        let off: i64 = fx_mul(d, u);
        proof {
            crate::fixed::lemma_scaled_product_below(d as int, u as int);
        }
        fx_add(lo, off)
    }
}

/// Three fixed-point components, used as point, direction and color alike.
#[derive(Clone, Copy, PartialEq, Eq, Structural, Debug)]
pub struct Vec3 {
    pub x: i64,
    pub y: i64,
    pub z: i64,
}

impl Vec3 {
    /// Component-wise sum, in the saturating scalar model.
    pub open spec fn s_add(self, o: Vec3) -> Vec3 {
        s_v3(
            spec_add(self.x as int, o.x as int),
            spec_add(self.y as int, o.y as int),
            spec_add(self.z as int, o.z as int),
        )
    }

    /// Component-wise difference.
    pub open spec fn s_sub(self, o: Vec3) -> Vec3 {
        s_v3(
            spec_sub(self.x as int, o.x as int),
            spec_sub(self.y as int, o.y as int),
            spec_sub(self.z as int, o.z as int),
        )
    }

    /// Component-wise product.
    pub open spec fn s_mul(self, o: Vec3) -> Vec3 {
        s_v3(
            spec_mul(self.x as int, o.x as int),
            spec_mul(self.y as int, o.y as int),
            spec_mul(self.z as int, o.z as int),
        )
    }

    /// Product with a scalar.
    pub open spec fn s_scale(self, k: int) -> Vec3 {
        s_v3(
            spec_mul(self.x as int, k),
            spec_mul(self.y as int, k),
            spec_mul(self.z as int, k),
        )
    }

    /// Quotient by a scalar.
    pub open spec fn s_div(self, k: int) -> Vec3 {
        s_v3(
            spec_div(self.x as int, k),
            spec_div(self.y as int, k),
            spec_div(self.z as int, k),
        )
    }

    /// Component-wise negation.
    pub open spec fn s_neg(self) -> Vec3 {
        s_v3(spec_neg(self.x as int), spec_neg(self.y as int), spec_neg(self.z as int))
    }

    /// The dot product, folded left over the components.
    pub open spec fn s_dot(self, o: Vec3) -> int {
        spec_add(
            spec_add(
                spec_mul(self.x as int, o.x as int),
                spec_mul(self.y as int, o.y as int),
            ),
            spec_mul(self.z as int, o.z as int),
        )
    }

    /// The squared length.
    pub open spec fn s_sqr_length(self) -> int {
        self.s_dot(self)
    }

    /// The length: the square root of the squared length.
    pub open spec fn s_length(self) -> int {
        spec_sqrt(self.s_sqr_length())
    }

    /// Each component divided by the length; the all-zero vector maps to
    /// itself, since division by zero yields zero.
    pub open spec fn s_normalized(self) -> Vec3 {
        self.s_div(self.s_length())
    }

    /// The cross product.
    pub open spec fn s_cross(self, o: Vec3) -> Vec3 {
        s_v3(
            spec_sub(
                spec_mul(self.y as int, o.z as int),
                spec_mul(self.z as int, o.y as int),
            ),
            spec_sub(
                spec_mul(self.z as int, o.x as int),
                spec_mul(self.x as int, o.z as int),
            ),
            spec_sub(
                spec_mul(self.x as int, o.y as int),
                spec_mul(self.y as int, o.x as int),
            ),
        )
    }

    /// Mirror reflection about a surface normal: `self - 2 (self . n) n`.
    pub open spec fn s_reflect(self, n: Vec3) -> Vec3 {
        let d: int = self.s_dot(n);
        self.s_sub(n.s_scale(spec_add(d, d)))
    }

    /// All components are exactly zero: below every positive tolerance the
    /// fixed-point grid can express.
    pub open spec fn s_near_zero(self) -> bool {
        self.x == 0 && self.y == 0 && self.z == 0
    }

    /// Vector refraction by the perpendicular/parallel decomposition, with
    /// the cosine clamped to at most one.
    pub open spec fn s_refract(uv: Vec3, n: Vec3, eta_i_over_eta_t: int) -> Vec3 {
        let cos_theta: int = vstd::math::min(uv.s_neg().s_dot(n), FX_ONE as int);
        let r_out_perp: Vec3 = uv.s_add(n.s_scale(cos_theta)).s_scale(eta_i_over_eta_t);
        let k: int = spec_sub(FX_ONE as int, r_out_perp.s_sqr_length());
        let r_out_par: Vec3 = n.s_scale(spec_neg(spec_sqrt(spec_abs(k))));
        r_out_perp.s_add(r_out_par)
    }

    /// The direction a random unit draw stands for: the draw normalized,
    /// or a fixed axis when the draw is too short to normalize.
    pub open spec fn s_sphere_dir(v: Vec3) -> Vec3 {
        if v.s_sqr_length() == 0 {
            s_v3(0, 0, FX_ONE as int)
        } else {
            v.s_normalized()
        }
    }

    /// The components a unit-sphere draw may take.
    pub open spec fn s_unit_box(v: Vec3) -> bool {
        &&& -FX_HALF <= v.x < FX_HALF
        &&& -FX_HALF <= v.y < FX_HALF
        &&& -FX_HALF <= v.z < FX_HALF
    }

    /// Every component lies in the unit interval `[0, 1]`: the shape of a
    /// physical color / albedo.
    pub open spec fn s_in_unit_cube(v: Vec3) -> bool {
        &&& 0 <= v.x <= FX_ONE
        &&& 0 <= v.y <= FX_ONE
        &&& 0 <= v.z <= FX_ONE
    }

    /// A direction flipped, if needed, into the hemisphere of the normal.
    pub open spec fn s_hemi(u: Vec3, n: Vec3) -> Vec3 {
        if u.s_dot(n) > 0 {
            u
        } else {
            u.s_neg()
        }
    }

    pub fn new(x: i64, y: i64, z: i64) -> (r: Vec3)
        ensures
            r == (Vec3 { x, y, z }),
    {
        Vec3 { x, y, z }
    }

    /// The origin / black.
    pub fn zero() -> (r: Vec3)
        ensures
            r == s_v3(0, 0, 0),
    {
        Vec3 { x: 0, y: 0, z: 0 }
    }

    /// The vector of ones / white.
    pub fn one() -> (r: Vec3)
        ensures
            r == s_v3(FX_ONE as int, FX_ONE as int, FX_ONE as int),
    {
        Vec3 { x: FX_ONE, y: FX_ONE, z: FX_ONE }
    }

    /// A vector with every component drawn uniformly from `[0, 1)`.
    pub fn random(rng: &mut RandGen) -> (r: Vec3)
        ensures
            0 <= r.x < FX_ONE,
            0 <= r.y < FX_ONE,
            0 <= r.z < FX_ONE,
    {
        let x: i64 = rng.next01();
        let y: i64 = rng.next01();
        let z: i64 = rng.next01();
        Vec3 { x, y, z }
    }

    /// A vector with every component drawn uniformly from `[lo, hi)`.
    pub fn random_range(lo: i64, hi: i64, rng: &mut RandGen) -> (r: Vec3)
        requires
            FX_MIN <= lo < hi,
        ensures
            lo <= r.x < hi,
            lo <= r.y < hi,
            lo <= r.z < hi,
    {
        let x: i64 = rng.next_range(lo, hi);
        let y: i64 = rng.next_range(lo, hi);
        let z: i64 = rng.next_range(lo, hi);
        Vec3 { x, y, z }
    }

    pub fn length(&self) -> (r: i64)
        ensures
            r as int == self.s_length(),
    {
        fx_sqrt(self.sqr_length())
    }

    pub fn sqr_length(&self) -> (r: i64)
        ensures
            r as int == self.s_sqr_length(),
    {
        self.dot(self)
    }

    pub fn dot(&self, rhs: &Vec3) -> (r: i64)
        ensures
            r as int == self.s_dot(*rhs),
    {
        fx_add(fx_add(fx_mul(self.x, rhs.x), fx_mul(self.y, rhs.y)), fx_mul(self.z, rhs.z))
    }

    pub fn cross(&self, rhs: &Vec3) -> (r: Vec3)
        ensures
            r == self.s_cross(*rhs),
    {
        Vec3 {
            x: fx_sub(fx_mul(self.y, rhs.z), fx_mul(self.z, rhs.y)),
            y: fx_sub(fx_mul(self.z, rhs.x), fx_mul(self.x, rhs.z)),
            z: fx_sub(fx_mul(self.x, rhs.y), fx_mul(self.y, rhs.x)),
        }
    }

    /// Normalize in place.
    pub fn normalize(&mut self)
        ensures
            *final(self) == old(self).s_normalized(),
    {
        let len: i64 = self.length();
        self.x = fx_div(self.x, len);
        self.y = fx_div(self.y, len);
        self.z = fx_div(self.z, len);
    }

    /// The normalized copy.
    pub fn normalized(&self) -> (r: Vec3)
        ensures
            r == self.s_normalized(),
    {
        let len: i64 = self.length();
        Vec3 {
            x: fx_div(self.x, len),
            y: fx_div(self.y, len),
            z: fx_div(self.z, len),
        }
    }

    pub fn reflect(&self, normal: Vec3) -> (r: Vec3)
        ensures
            r == self.s_reflect(normal),
    {
        let d: i64 = self.dot(&normal);
        self.sub(normal.scale(fx_add(d, d)))
    }

    /// Whether every component is exactly zero: the degenerate-direction
    /// guard. The usual tolerance of about `1e-5` lies below one raw unit,
    /// so on the fixed-point grid the only vector under it is zero itself.
    pub fn near_zero(&self) -> (r: bool)
        ensures
            r == self.s_near_zero(),
    {
        self.x == 0 && self.y == 0 && self.z == 0
    }

    /// A direction drawn from the unit sphere: a uniform draw from the
    /// centered unit box, normalized; a zero-length draw falls back to a
    /// fixed axis so the result is never degenerate.
    pub fn random_on_sphere(rng: &mut RandGen) -> (r: Vec3)
        ensures
            exists|v: Vec3| Vec3::s_unit_box(v) && r == #[trigger] Vec3::s_sphere_dir(v),
    {
        let x: i64 = rng.next_range(-FX_HALF, FX_HALF);
        let y: i64 = rng.next_range(-FX_HALF, FX_HALF);
        let z: i64 = rng.next_range(-FX_HALF, FX_HALF);
        let v = Vec3 { x, y, z };
        let r: Vec3 = if v.sqr_length() == 0 {
            Vec3 { x: 0, y: 0, z: FX_ONE }
        } else {
            v.normalized()
        };
        proof {
            assert(Vec3::s_unit_box(v) && r == Vec3::s_sphere_dir(v));
        }
        r
    }

    /// A unit-sphere draw flipped, if needed, into the hemisphere of the
    /// given normal.
    pub fn random_in_hemisphere(normal: &Vec3, rng: &mut RandGen) -> (r: Vec3)
        ensures
            exists|v: Vec3|
                Vec3::s_unit_box(v) && r == Vec3::s_hemi(#[trigger] Vec3::s_sphere_dir(v), *normal),
    {
        let rand_on_sphere: Vec3 = Vec3::random_on_sphere(rng);
        let ghost v: Vec3 = choose|v: Vec3|
            Vec3::s_unit_box(v) && rand_on_sphere == #[trigger] Vec3::s_sphere_dir(v);
        let r: Vec3 = if rand_on_sphere.dot(normal) > 0 {
            rand_on_sphere
        } else {
            rand_on_sphere.neg()
        };
        proof {
            assert(Vec3::s_unit_box(v) && r == Vec3::s_hemi(Vec3::s_sphere_dir(v), *normal));
        }
        r
    }

    /// Vector refraction with relative refraction ratio `eta_i_over_eta_t`.
    pub fn refract(uv: Vec3, n: Vec3, eta_i_over_eta_t: i64) -> (r: Vec3)
        ensures
            r == Vec3::s_refract(uv, n, eta_i_over_eta_t as int),
    {
        let cos_theta: i64 = fx_min(uv.neg().dot(&n), FX_ONE);
        let r_out_perp: Vec3 = uv.add(n.scale(cos_theta)).scale(eta_i_over_eta_t);
        let k: i64 = fx_sub(FX_ONE, r_out_perp.sqr_length());
        let r_out_par: Vec3 = n.scale(fx_neg(fx_sqrt(fx_abs(k))));
        r_out_perp.add(r_out_par)
    }

    /// Component-wise sum.
    pub fn add(self, rhs: Vec3) -> (r: Vec3)
        ensures
            r == self.s_add(rhs),
    {
        Vec3 { x: fx_add(self.x, rhs.x), y: fx_add(self.y, rhs.y), z: fx_add(self.z, rhs.z) }
    }

    /// Component-wise sum, in place.
    pub fn add_assign(&mut self, rhs: Vec3)
        ensures
            *final(self) == old(self).s_add(rhs),
    {
        self.x = fx_add(self.x, rhs.x);
        self.y = fx_add(self.y, rhs.y);
        self.z = fx_add(self.z, rhs.z);
    }

    /// Component-wise difference.
    pub fn sub(self, rhs: Vec3) -> (r: Vec3)
        ensures
            r == self.s_sub(rhs),
    {
        Vec3 { x: fx_sub(self.x, rhs.x), y: fx_sub(self.y, rhs.y), z: fx_sub(self.z, rhs.z) }
    }

    /// Component-wise product.
    pub fn mul(self, rhs: Vec3) -> (r: Vec3)
        ensures
            r == self.s_mul(rhs),
    {
        Vec3 { x: fx_mul(self.x, rhs.x), y: fx_mul(self.y, rhs.y), z: fx_mul(self.z, rhs.z) }
    }

    /// Product with a scalar.
    pub fn scale(self, rhs: i64) -> (r: Vec3)
        ensures
            r == self.s_scale(rhs as int),
    {
        Vec3 { x: fx_mul(self.x, rhs), y: fx_mul(self.y, rhs), z: fx_mul(self.z, rhs) }
    }

    /// Quotient by a scalar.
    pub fn div(self, rhs: i64) -> (r: Vec3)
        ensures
            r == self.s_div(rhs as int),
    {
        Vec3 { x: fx_div(self.x, rhs), y: fx_div(self.y, rhs), z: fx_div(self.z, rhs) }
    }

    /// Component-wise negation.
    pub fn neg(self) -> (r: Vec3)
        ensures
            r == self.s_neg(),
    {
        Vec3 { x: fx_neg(self.x), y: fx_neg(self.y), z: fx_neg(self.z) }
    }
}

/// A squared length is a sum of squares and so never negative.
pub proof fn lemma_sqr_length_nonneg(v: Vec3)
    ensures
        v.s_sqr_length() >= 0,
{
    crate::fixed::lemma_square_nonneg(v.x as int);
    crate::fixed::lemma_square_nonneg(v.y as int);
    crate::fixed::lemma_square_nonneg(v.z as int);
}

/// A parametric ray: origin plus direction, not necessarily normalized.
#[derive(Clone, Copy, PartialEq, Eq, Structural, Debug)]
pub struct Ray {
    pub origin: Vec3,
    pub direction: Vec3,
}

impl Ray {
    /// The point the ray reaches at parameter `t`.
    pub open spec fn s_at(self, t: int) -> Vec3 {
        self.origin.s_add(self.direction.s_scale(t))
    }

    pub fn new(origin: Vec3, direction: Vec3) -> (r: Ray)
        ensures
            r == (Ray { origin, direction }),
    {
        Ray { origin, direction }
    }

    pub fn at(&self, t: i64) -> (r: Vec3)
        ensures
            r == self.s_at(t as int),
    {
        self.origin.add(self.direction.scale(t))
    }
}

} // verus!
