//! The scene and the Monte Carlo integrator.
//!
//! `RSRaytracer` owns the sphere arena, the material arena (handle 0 is a
//! reserved default so uninitialized handles always resolve), the camera
//! and the accumulation buffer: one fixed-point triple per pixel,
//! row-major, top row first, holding un-normalized sample sums. Nearest-hit
//! resolution, the recursive integrator, tone mapping and the PPM text
//! format all live here, each specified against a spec-level model.

use vstd::prelude::*;

verus! {

use vstd::string::StringExecFns;

use crate::camera::Camera;
use crate::fixed::{
    FX_HALF, FX_MAX, FX_MIN, FX_ONE, fx_add, fx_clamp, fx_div, fx_min, fx_mul, fx_sqrt, fx_sub,
    spec_add, spec_clamp, spec_div, spec_mul, spec_sqrt, spec_sub,
};
use crate::hittable::{HitRecord, Sphere};
use crate::material::{Dielectric, Lambertian, Material, Metal};
use crate::math::{RandGen, Ray, Vec3, s_v3};

/// Default image width, in pixels.
pub const WIDTH: u32 = 1280;
/// Default image height, in pixels.
pub const HEIGHT: u32 = 720;
/// Color channels per pixel.
pub const CHANNELS: u32 = 3;
/// Default number of jittered samples accumulated per pixel.
pub const SAMPLES_PER_PIXEL: u32 = 20;
/// Default bounce budget per primary ray.
pub const MAX_DEPTH: u32 = 20;

/// The near bound of every intersection query: about 0.001, the smallest
/// step that avoids self-intersection at a scattered ray's origin.
pub const RAY_T_MIN: i64 = 66;

/// The largest width/height accepted, so every buffer offset fits.
pub const MAX_DIMENSION: u32 = 16384;
/// The largest per-pixel sample count accepted, so sample sums stay exact.
pub const MAX_SAMPLES: u32 = 65536;

/// The tangent of half the default 20-degree vertical field of view
/// (about 0.17633).
pub const DEFAULT_HALF_HEIGHT: i64 = 11556;

/// Green channel of the sky's horizon-to-zenith target color (0.7).
pub const SKY_GREEN: i64 = 45875;

/// The tone-mapping clamp: the largest raw value below 0.999, so that a
/// clamped channel scaled by 256 truncates to at most 255.
pub const TONE_CLAMP: i64 = 65470;

/// The renderer: pixel accumulators, scene arenas, camera and generator.
pub struct RSRaytracer {
    pixels: Vec<i64>,
    width: u32,
    height: u32,
    samples_per_pixel: u32,
    max_depth: u32,
    objects: Vec<Sphere>,
    materials: Vec<Material>,
    cam: Camera,
    rand_gen: RandGen,
}

impl RSRaytracer {
    /// The accumulation buffer, as a sequence of raw channel values.
    pub closed spec fn s_pixels(self) -> Seq<i64> {
        self.pixels@
    }

    /// Image width in pixels.
    pub closed spec fn s_width(self) -> u32 {
        self.width
    }

    /// Image height in pixels.
    pub closed spec fn s_height(self) -> u32 {
        self.height
    }

    /// Samples accumulated per pixel.
    pub closed spec fn s_samples_per_pixel(self) -> u32 {
        self.samples_per_pixel
    }

    /// Bounce budget per primary ray.
    pub closed spec fn s_max_depth(self) -> u32 {
        self.max_depth
    }

    /// The sphere arena.
    pub closed spec fn s_objects(self) -> Seq<Sphere> {
        self.objects@
    }

    /// The material arena.
    pub closed spec fn s_materials(self) -> Seq<Material> {
        self.materials@
    }

    /// The camera.
    pub closed spec fn s_cam(self) -> Camera {
        self.cam
    }

    /// The scene invariant: the buffer covers the image exactly, the
    /// dimensions and sample count are in range, every material is
    /// well-formed, and every sphere's material handle resolves.
    pub open spec fn s_wf(self) -> bool {
        &&& self.s_pixels().len() == self.s_width() * self.s_height() * 3
        &&& 1 <= self.s_width() <= MAX_DIMENSION
        &&& 1 <= self.s_height() <= MAX_DIMENSION
        &&& 1 <= self.s_samples_per_pixel() <= MAX_SAMPLES
        &&& 1 <= self.s_materials().len() <= u32::MAX
        &&& forall|i: int|
            0 <= i < self.s_materials().len() ==> (#[trigger] self.s_materials()[i]).s_wf()
        &&& forall|i: int|
            0 <= i < self.s_objects().len() ==> (#[trigger] self.s_objects()[i]).mat_id
                < self.s_materials().len()
    }

    /// Everything that makes up the observable scene — all state but the
    /// random generator — agrees between two renderer values.
    pub open spec fn s_frame_eq(a: RSRaytracer, b: RSRaytracer) -> bool {
        &&& a.s_pixels() == b.s_pixels()
        &&& a.s_width() == b.s_width()
        &&& a.s_height() == b.s_height()
        &&& a.s_samples_per_pixel() == b.s_samples_per_pixel()
        &&& a.s_max_depth() == b.s_max_depth()
        &&& a.s_objects() == b.s_objects()
        &&& a.s_materials() == b.s_materials()
        &&& a.s_cam() == b.s_cam()
    }

    /// As `s_frame_eq`, but the pixel buffer may differ.
    pub open spec fn s_scene_eq(a: RSRaytracer, b: RSRaytracer) -> bool {
        &&& a.s_width() == b.s_width()
        &&& a.s_height() == b.s_height()
        &&& a.s_samples_per_pixel() == b.s_samples_per_pixel()
        &&& a.s_max_depth() == b.s_max_depth()
        &&& a.s_objects() == b.s_objects()
        &&& a.s_materials() == b.s_materials()
        &&& a.s_cam() == b.s_cam()
    }

    /// The result of scanning the first `n` objects with a shrinking
    /// `closest_so_far` bound: each object is queried up to the best
    /// parameter found so far, and only a strictly closer hit replaces the
    /// current best, so among equally near hits the first one found wins.
    pub open spec fn s_hit_prefix(
        objects: Seq<Sphere>,
        ray: Ray,
        t_min: int,
        t_max: int,
        n: int,
    ) -> Option<HitRecord>
        decreases n,
    {
        if n <= 0 {
            None
        } else {
            let prev = RSRaytracer::s_hit_prefix(objects, ray, t_min, t_max, n - 1);
            let bound: int = match prev {
                Some(h) => h.t as int,
                None => t_max,
            };
            match objects[n - 1].s_hit(ray, t_min, bound) {
                Some(h2) => if prev matches Some(h) && h2.t as int >= h.t as int {
                    prev
                } else {
                    Some(h2)
                },
                None => prev,
            }
        }
    }

    /// The nearest hit across the whole scene.
    pub open spec fn s_hit_objects(self, ray: Ray, t_min: int, t_max: int) -> Option<HitRecord> {
        RSRaytracer::s_hit_prefix(
            self.s_objects(),
            ray,
            t_min,
            t_max,
            self.s_objects().len() as int,
        )
    }

    /// The initial preview gradient: red rises with the column, green
    /// with the row, blue stays zero; each channel is pre-scaled by the
    /// sample count, since tone mapping divides it back out.
    pub open spec fn s_initial_pixel(i: int, width: int, height: int, spp: int) -> int {
        let channel: int = i % 3;
        let q: int = i / 3;
        let x: int = q % width;
        let y: int = q / width;
        if channel == 0 {
            spec_mul(spec_div(x * 65536, width * 65536), spp * 65536)
        } else if channel == 1 {
            spec_mul(spec_div(y * 65536, height * 65536), spp * 65536)
        } else {
            0
        }
    }

    /// A renderer with the given dimensions and sampling parameters: an
    /// empty sphere arena, the reserved default material, the default
    /// camera, and a preview gradient in the buffer.
    pub fn new_with_config(
        width: u32,
        height: u32,
        samples_per_pixel: u32,
        max_depth: u32,
    ) -> (r: RSRaytracer)
        requires
            1 <= width <= MAX_DIMENSION,
            1 <= height <= MAX_DIMENSION,
            1 <= samples_per_pixel <= MAX_SAMPLES,
        ensures
            r.s_wf(),
            r.s_width() == width,
            r.s_height() == height,
            r.s_samples_per_pixel() == samples_per_pixel,
            r.s_max_depth() == max_depth,
            r.s_objects() == Seq::<Sphere>::empty(),
            r.s_materials().len() == 1,
            r.s_materials()[0] matches Material::Lambertian(m) && m.s_albedo() == s_v3(
                FX_ONE as int,
                FX_ONE as int,
                FX_ONE as int,
            ),
            forall|i: int|
                0 <= i < r.s_pixels().len() ==> 0 <= #[trigger] r.s_pixels()[i]
                    <= samples_per_pixel * FX_ONE,
            forall|i: int|
                0 <= i < r.s_pixels().len() ==> #[trigger] r.s_pixels()[i]
                    == RSRaytracer::s_initial_pixel(
                    i,
                    width as int,
                    height as int,
                    samples_per_pixel as int,
                ),
            r.s_cam().s_origin() == s_v3(-2 * FX_ONE as int, 2 * FX_ONE as int, FX_ONE as int),
            r.s_cam().s_look_at() == s_v3(0, 0, -FX_ONE as int),
            r.s_cam().s_up() == s_v3(0, FX_ONE as int, 0),
            r.s_cam().s_half_height() == DEFAULT_HALF_HEIGHT,
            r.s_cam().s_aspect_ratio() as int == spec_div(width * 65536, height * 65536),
            r.s_cam().s_wf(),
    {
        proof {
            assert(width as int * height as int * 3 <= 0xC000_0000) by (nonlinear_arith)
                requires
                    width <= 16384,
                    height <= 16384,
            ;
        }
        let total: u32 = width * height * 3;
        let spp_fx: i64 = (samples_per_pixel as i64) * 65536;

        // Start with a simple gradient so the preview shows something.
        let mut pixels: Vec<i64> = Vec::new();
        let mut idx: u32 = 0;
        while idx < total
            invariant
                pixels@.len() == idx,
                idx <= total,
                total == width * height * 3,
                1 <= width <= MAX_DIMENSION,
                1 <= height <= MAX_DIMENSION,
                1 <= samples_per_pixel <= MAX_SAMPLES,
                spp_fx == samples_per_pixel * FX_ONE,
                forall|i: int|
                    0 <= i < pixels@.len() ==> 0 <= #[trigger] pixels@[i] <= samples_per_pixel
                        * FX_ONE,
                forall|i: int|
                    0 <= i < pixels@.len() ==> #[trigger] pixels@[i]
                        == RSRaytracer::s_initial_pixel(
                        i,
                        width as int,
                        height as int,
                        samples_per_pixel as int,
                    ),
            decreases total - idx,
        {
            let channel: u32 = idx % 3;
            let q: u32 = idx / 3;
            let x: u32 = q % width;
            let y: u32 = q / width;
            proof {
                let w: int = width as int;
                let h: int = height as int;
                vstd::arithmetic::div_mod::lemma_div_is_ordered(idx as int, w * h * 3 - 1, 3);
                vstd::arithmetic::div_mod::lemma_fundamental_div_mod_converse(
                    w * h * 3 - 1,
                    3,
                    w * h - 1,
                    2,
                );
                assert(q <= w * h - 1);
                vstd::arithmetic::div_mod::lemma_mod_bound(q as int, w);
                vstd::arithmetic::div_mod::lemma_div_is_ordered(q as int, w * h - 1, w);
                vstd::arithmetic::mul::lemma_mul_is_distributive_sub_other_way(w, h, 1);
                vstd::arithmetic::div_mod::lemma_fundamental_div_mod_converse(
                    w * h - 1,
                    w,
                    h - 1,
                    w - 1,
                );
                assert(x < w && y <= h - 1);
            }
            let value: i64 = if channel == 0 {
                fx_mul(fx_div((x as i64) * 65536, (width as i64) * 65536), spp_fx)
            } else if channel == 1 {
                fx_mul(fx_div((y as i64) * 65536, (height as i64) * 65536), spp_fx)
            } else {
                0
            };
            proof {
                if channel == 0 {
                    let f: int = spec_div(x as int * 65536, width as int * 65536);
                    crate::fixed::lemma_div_frac_below(x as int * 65536, width as int * 65536);
                    crate::fixed::lemma_scaled_product_below(spp_fx as int, f);
                    vstd::arithmetic::mul::lemma_mul_is_commutative(f, spp_fx as int);
                } else if channel == 1 {
                    let f: int = spec_div(y as int * 65536, height as int * 65536);
                    crate::fixed::lemma_div_frac_below(y as int * 65536, height as int * 65536);
                    crate::fixed::lemma_scaled_product_below(spp_fx as int, f);
                    vstd::arithmetic::mul::lemma_mul_is_commutative(f, spp_fx as int);
                }
                assert(0 <= value <= samples_per_pixel * FX_ONE);
                assert(value == RSRaytracer::s_initial_pixel(
                    idx as int,
                    width as int,
                    height as int,
                    samples_per_pixel as int,
                ));
            }
            let ghost prev_pixels: Seq<i64> = pixels@;
            pixels.push(value);
            proof {
                assert forall|i: int|
                    0 <= i < pixels@.len() implies 0 <= #[trigger] pixels@[i]
                    <= samples_per_pixel * FX_ONE by {
                    if i < prev_pixels.len() {
                        assert(pixels@[i] == prev_pixels[i]);
                    } else {
                        assert(pixels@[i] == value);
                    }
                }
                assert forall|i: int|
                    0 <= i < pixels@.len() implies #[trigger] pixels@[i]
                    == RSRaytracer::s_initial_pixel(
                    i,
                    width as int,
                    height as int,
                    samples_per_pixel as int,
                ) by {
                    if i < prev_pixels.len() {
                        assert(pixels@[i] == prev_pixels[i]);
                    } else {
                        assert(pixels@[i] == value);
                    }
                }
            }
            idx = idx + 1;
        }

        // The reserved default material, so handle 0 always resolves.
        let mut mats: Vec<Material> = Vec::new();
        mats.push(Material::Lambertian(Lambertian::new(Vec3::one())));

        // Default camera framing: eye (-2, 2, 1) looking at (0, 0, -1),
        // y up, a 20-degree vertical field of view (whose half-angle
        // tangent is about 0.17633) and the image aspect ratio.
        let look_from: Vec3 = Vec3::new(-131072, 131072, 65536);
        let look_at: Vec3 = Vec3::new(0, 0, -65536);
        let up: Vec3 = Vec3::new(0, 65536, 0);
        let half_height: i64 = DEFAULT_HALF_HEIGHT;
        let aspect_ratio: i64 = fx_div((width as i64) * 65536, (height as i64) * 65536);

        RSRaytracer {
            pixels,
            width,
            height,
            samples_per_pixel,
            max_depth,
            objects: Vec::new(),
            materials: mats,
            cam: Camera::new(look_from, look_at, up, half_height, aspect_ratio),
            rand_gen: RandGen::new(),
        }
    }

    /// A renderer with the default image size and sampling parameters:
    /// the empty scene, the reserved default material, the preview
    /// gradient in the buffer, and the default camera framing.
    pub fn new() -> (r: RSRaytracer)
        ensures
            r.s_wf(),
            r.s_width() == WIDTH,
            r.s_height() == HEIGHT,
            r.s_samples_per_pixel() == SAMPLES_PER_PIXEL,
            r.s_max_depth() == MAX_DEPTH,
            r.s_objects() == Seq::<Sphere>::empty(),
            r.s_materials().len() == 1,
            r.s_materials()[0] matches Material::Lambertian(m) && m.s_albedo() == s_v3(
                FX_ONE as int,
                FX_ONE as int,
                FX_ONE as int,
            ),
            forall|i: int|
                0 <= i < r.s_pixels().len() ==> #[trigger] r.s_pixels()[i]
                    == RSRaytracer::s_initial_pixel(
                    i,
                    WIDTH as int,
                    HEIGHT as int,
                    SAMPLES_PER_PIXEL as int,
                ),
            r.s_cam().s_origin() == s_v3(-2 * FX_ONE as int, 2 * FX_ONE as int, FX_ONE as int),
            r.s_cam().s_look_at() == s_v3(0, 0, -FX_ONE as int),
            r.s_cam().s_up() == s_v3(0, FX_ONE as int, 0),
            r.s_cam().s_half_height() == DEFAULT_HALF_HEIGHT,
            r.s_cam().s_aspect_ratio() as int == spec_div(WIDTH * 65536, HEIGHT * 65536),
            r.s_cam().s_wf(),
    {
        RSRaytracer::new_with_config(WIDTH, HEIGHT, SAMPLES_PER_PIXEL, MAX_DEPTH)
    }

    /// Register a diffuse material; returns its handle.
    pub fn add_lambertian_material(&mut self, mat: Lambertian) -> (r: u32)
        requires
            old(self).s_wf(),
            mat.s_wf(),
            old(self).s_materials().len() < u32::MAX,
        ensures
            final(self).s_wf(),
            final(self).s_materials() == old(self).s_materials().push(
                Material::Lambertian(mat),
            ),
            r as int == old(self).s_materials().len(),
            final(self).s_pixels() == old(self).s_pixels(),
            RSRaytracer::s_scene_unchanged_but_materials(*old(self), *final(self)),
    {
        self.materials.push(Material::Lambertian(mat));
        proof {
            self.lemma_wf_after_material_push(*old(self), Material::Lambertian(mat));
        }
        (self.materials.len() - 1) as u32
    }

    /// Register a reflective material; returns its handle.
    pub fn add_metal_material(&mut self, mat: Metal) -> (r: u32)
        requires
            old(self).s_wf(),
            mat.s_wf(),
            old(self).s_materials().len() < u32::MAX,
        ensures
            final(self).s_wf(),
            final(self).s_materials() == old(self).s_materials().push(Material::Metal(mat)),
            r as int == old(self).s_materials().len(),
            final(self).s_pixels() == old(self).s_pixels(),
            RSRaytracer::s_scene_unchanged_but_materials(*old(self), *final(self)),
    {
        self.materials.push(Material::Metal(mat));
        proof {
            self.lemma_wf_after_material_push(*old(self), Material::Metal(mat));
        }
        (self.materials.len() - 1) as u32
    }

    /// Register a refractive material; returns its handle.
    pub fn add_dielectric_material(&mut self, mat: Dielectric) -> (r: u32)
        requires
            old(self).s_wf(),
            mat.s_wf(),
            old(self).s_materials().len() < u32::MAX,
        ensures
            final(self).s_wf(),
            final(self).s_materials() == old(self).s_materials().push(
                Material::Dielectric(mat),
            ),
            r as int == old(self).s_materials().len(),
            final(self).s_pixels() == old(self).s_pixels(),
            RSRaytracer::s_scene_unchanged_but_materials(*old(self), *final(self)),
    {
        self.materials.push(Material::Dielectric(mat));
        proof {
            self.lemma_wf_after_material_push(*old(self), Material::Dielectric(mat));
        }
        (self.materials.len() - 1) as u32
    }

    /// Pushing a well-formed material onto a well-formed scene keeps the
    /// scene well-formed.
    proof fn lemma_wf_after_material_push(self, prev: RSRaytracer, m: Material)
        requires
            prev.s_wf(),
            m.s_wf(),
            self.s_materials() == prev.s_materials().push(m),
            self.s_materials().len() <= u32::MAX,
            self.s_objects() == prev.s_objects(),
            self.s_pixels() == prev.s_pixels(),
            self.s_width() == prev.s_width(),
            self.s_height() == prev.s_height(),
            self.s_samples_per_pixel() == prev.s_samples_per_pixel(),
        ensures
            self.s_wf(),
    {
        assert forall|i: int| 0 <= i < self.s_materials().len() implies (#[trigger] self
            .s_materials()[i]).s_wf() by {
            if i < prev.s_materials().len() {
                assert(self.s_materials()[i] == prev.s_materials()[i]);
            } else {
                assert(self.s_materials()[i] == m);
            }
        }
        assert forall|i: int| 0 <= i < self.s_objects().len() implies (#[trigger] self
            .s_objects()[i]).mat_id < self.s_materials().len() by {
            assert(self.s_objects()[i] == prev.s_objects()[i]);
            assert(prev.s_objects()[i].mat_id < prev.s_materials().len());
        }
    }

    /// Everything but the material arena and the random generator agrees.
    pub open spec fn s_scene_unchanged_but_materials(a: RSRaytracer, b: RSRaytracer) -> bool {
        &&& a.s_width() == b.s_width()
        &&& a.s_height() == b.s_height()
        &&& a.s_samples_per_pixel() == b.s_samples_per_pixel()
        &&& a.s_max_depth() == b.s_max_depth()
        &&& a.s_objects() == b.s_objects()
        &&& a.s_cam() == b.s_cam()
    }

    /// Look a material up by handle.
    pub fn get_material(&self, idx: u32) -> (r: &Material)
        requires
            idx < self.s_materials().len(),
        ensures
            *r == self.s_materials()[idx as int],
    {
        &self.materials[idx as usize]
    }

    /// The shared random generator.
    pub fn get_rng(&mut self) -> (r: &mut RandGen)
        ensures
            RSRaytracer::s_frame_eq(*final(self), *old(self)),
    {
        &mut self.rand_gen
    }

    /// The camera.
    pub fn get_camera(&self) -> (r: &Camera)
        ensures
            *r == self.s_cam(),
    {
        &self.cam
    }

    /// Move the camera eye; the derived basis is recomputed at once.
    pub fn set_camera_position(&mut self, pos: Vec3)
        requires
            old(self).s_wf(),
        ensures
            final(self).s_wf(),
            final(self).s_cam().s_origin() == pos,
            final(self).s_cam().s_look_at() == old(self).s_cam().s_look_at(),
            final(self).s_cam().s_up() == old(self).s_cam().s_up(),
            final(self).s_cam().s_half_height() == old(self).s_cam().s_half_height(),
            final(self).s_cam().s_aspect_ratio() == old(self).s_cam().s_aspect_ratio(),
            final(self).s_cam().s_wf(),
            final(self).s_pixels() == old(self).s_pixels(),
            final(self).s_objects() == old(self).s_objects(),
            final(self).s_materials() == old(self).s_materials(),
            final(self).s_width() == old(self).s_width(),
            final(self).s_height() == old(self).s_height(),
            final(self).s_samples_per_pixel() == old(self).s_samples_per_pixel(),
            final(self).s_max_depth() == old(self).s_max_depth(),
    {
        self.cam.set_position(pos);
        proof {
            assert(self.s_materials() == old(self).s_materials());
            assert(self.s_objects() == old(self).s_objects());
            assert(self.s_pixels() == old(self).s_pixels());
        }
    }

    /// Add a sphere to the scene. Its material handle must resolve, as
    /// every handle returned by the material builders does.
    pub fn add_sphere(&mut self, sphere: Sphere)
        requires
            old(self).s_wf(),
            sphere.mat_id < old(self).s_materials().len(),
        ensures
            final(self).s_wf(),
            final(self).s_objects() == old(self).s_objects().push(sphere),
            final(self).s_materials() == old(self).s_materials(),
            final(self).s_pixels() == old(self).s_pixels(),
            final(self).s_width() == old(self).s_width(),
            final(self).s_height() == old(self).s_height(),
            final(self).s_samples_per_pixel() == old(self).s_samples_per_pixel(),
            final(self).s_max_depth() == old(self).s_max_depth(),
            final(self).s_cam() == old(self).s_cam(),
    {
        self.objects.push(sphere);
        proof {
            assert(self.s_materials() == old(self).s_materials());
            assert forall|i: int| 0 <= i < self.s_objects().len() implies (#[trigger] self
                .s_objects()[i]).mat_id < self.s_materials().len() by {
                if i < old(self).s_objects().len() {
                    assert(self.s_objects()[i] == old(self).s_objects()[i]);
                } else {
                    assert(self.s_objects()[i] == sphere);
                }
            }
        }
    }

    /// The closest intersection across all owned objects, by a linear
    /// scan with a shrinking upper bound.
    pub fn hit_objects(&self, ray: &Ray, t_min: i64, t_max: i64) -> (r: Option<HitRecord>)
        ensures
            r == self.s_hit_objects(*ray, t_min as int, t_max as int),
    {
        let mut best_rec: HitRecord = HitRecord::empty();
        let mut hit_anything: bool = false;
        let mut closest_so_far: i64 = t_max;

        let n: usize = self.objects.len();
        let mut i: usize = 0;
        while i < n
            invariant
                n == self.s_objects().len(),
                i <= n,
                hit_anything ==> RSRaytracer::s_hit_prefix(
                    self.s_objects(),
                    *ray,
                    t_min as int,
                    t_max as int,
                    i as int,
                ) == Some(best_rec) && closest_so_far == best_rec.t,
                !hit_anything ==> RSRaytracer::s_hit_prefix(
                    self.s_objects(),
                    *ray,
                    t_min as int,
                    t_max as int,
                    i as int,
                ) is None && closest_so_far == t_max,
            decreases n - i,
        {
            let tmp_rec: Option<HitRecord> = self.objects[i].hit(ray, t_min, closest_so_far);
            match tmp_rec {
                Some(rec) => {
                    if !hit_anything || rec.t < closest_so_far {
                        hit_anything = true;
                        closest_so_far = rec.t;
                        best_rec = rec;
                    }
                },
                None => {},
            }
            i = i + 1;
        }

        if hit_anything {
            Some(best_rec)
        } else {
            None
        }
    }

    /// What the shrinking-bound scan of the first `n` objects amounts to:
    /// a miss means every object misses; a hit is one object's hit over
    /// the full interval, and no object's hit over the full interval is
    /// nearer.
    #[verifier::spinoff_prover]
    #[verifier::rlimit(100)]
    pub proof fn lemma_hit_prefix_sound(
        objects: Seq<Sphere>,
        ray: Ray,
        t_min: int,
        t_max: int,
        n: int,
    )
        requires
            0 <= n <= objects.len(),
            FX_MIN <= t_min,
            t_max <= FX_MAX,
        ensures
            match RSRaytracer::s_hit_prefix(objects, ray, t_min, t_max, n) {
                Some(h) => {
                    &&& exists|i: int|
                        0 <= i < n && #[trigger] objects[i].s_hit(ray, t_min, t_max) == Some(h)
                    &&& forall|i: int|
                        0 <= i < n ==> match #[trigger] objects[i].s_hit(ray, t_min, t_max) {
                            Some(hi) => h.t as int <= hi.t as int,
                            None => true,
                        }
                    &&& t_min <= h.t as int <= t_max
                },
                None => forall|i: int|
                    0 <= i < n ==> #[trigger] objects[i].s_hit(ray, t_min, t_max) is None,
            },
        decreases n,
    {
        if n > 0 {
            RSRaytracer::lemma_hit_prefix_sound(objects, ray, t_min, t_max, n - 1);
            let prev = RSRaytracer::s_hit_prefix(objects, ray, t_min, t_max, n - 1);
            let bound: int = match prev {
                Some(h) => h.t as int,
                None => t_max,
            };
            let obj = objects[n - 1];
            crate::hittable::lemma_hit_with_tighter_bound(obj, ray, t_min, t_max, bound);
            crate::hittable::lemma_hit_t_in_range(obj, ray, t_min, t_max);
            let full = obj.s_hit(ray, t_min, t_max);
            let cur = RSRaytracer::s_hit_prefix(objects, ray, t_min, t_max, n);
            match prev {
                None => {
                    match full {
                        Some(hf) => {
                            assert(cur == Some(hf));
                            assert(objects[n - 1].s_hit(ray, t_min, t_max) == Some(hf));
                        },
                        None => {
                            assert(cur is None);
                        },
                    }
                },
                Some(h) => {
                    match full {
                        Some(hf) => {
                            if hf.t as int > bound {
                                assert(cur == Some(h));
                            } else if hf.t as int == h.t as int {
                                assert(cur == Some(h));
                            } else {
                                assert(cur == Some(hf));
                                assert(objects[n - 1].s_hit(ray, t_min, t_max) == Some(hf));
                                assert forall|i: int| 0 <= i < n implies match #[trigger] objects[i]
                                    .s_hit(ray, t_min, t_max) {
                                    Some(hi) => hf.t as int <= hi.t as int,
                                    None => true,
                                } by {
                                    if i < n - 1 {
                                        assert(match objects[i].s_hit(ray, t_min, t_max) {
                                            Some(hi) => h.t as int <= hi.t as int,
                                            None => true,
                                        });
                                    }
                                }
                            }
                        },
                        None => {
                            assert(cur == Some(h));
                        },
                    }
                },
            }
        }
    }

    /// Nearest-hit resolution, as a law of the whole scene: a returned
    /// hit is one object's hit over the full interval and no object's
    /// hit is nearer; a miss means every object misses.
    pub proof fn lemma_hit_objects_nearest(self, ray: Ray, t_min: int, t_max: int)
        requires
            FX_MIN <= t_min,
            t_max <= FX_MAX,
        ensures
            match self.s_hit_objects(ray, t_min, t_max) {
                Some(h) => {
                    &&& exists|i: int|
                        0 <= i < self.s_objects().len() && #[trigger] self.s_objects()[i].s_hit(
                            ray,
                            t_min,
                            t_max,
                        ) == Some(h)
                    &&& forall|i: int|
                        0 <= i < self.s_objects().len() ==> match #[trigger] self.s_objects()[i]
                            .s_hit(ray, t_min, t_max) {
                            Some(hi) => h.t as int <= hi.t as int,
                            None => true,
                        }
                    &&& t_min <= h.t as int <= t_max
                },
                None => forall|i: int|
                    0 <= i < self.s_objects().len() ==> #[trigger] self.s_objects()[i].s_hit(
                        ray,
                        t_min,
                        t_max,
                    ) is None,
            },
    {
        RSRaytracer::lemma_hit_prefix_sound(
            self.s_objects(),
            ray,
            t_min,
            t_max,
            self.s_objects().len() as int,
        );
    }

    /// Two overlapping spheres along one ray resolve to the same nearest
    /// parameter in either insertion order.
    #[verifier::spinoff_prover]
    #[verifier::rlimit(100)]
    pub proof fn lemma_two_spheres_order_independent(
        a: Sphere,
        b: Sphere,
        ray: Ray,
        t_min: int,
        t_max: int,
    )
        requires
            FX_MIN <= t_min,
            t_max <= FX_MAX,
        ensures
            ({
                let h1 = RSRaytracer::s_hit_prefix(seq![a, b], ray, t_min, t_max, 2);
                let h2 = RSRaytracer::s_hit_prefix(seq![b, a], ray, t_min, t_max, 2);
                match (h1, h2) {
                    (Some(x), Some(y)) => x.t == y.t,
                    (None, None) => true,
                    _ => false,
                }
            }),
    {
        let s1: Seq<Sphere> = seq![a, b];
        let s2: Seq<Sphere> = seq![b, a];
        RSRaytracer::lemma_hit_prefix_sound(s1, ray, t_min, t_max, 2);
        RSRaytracer::lemma_hit_prefix_sound(s2, ray, t_min, t_max, 2);
        let h1 = RSRaytracer::s_hit_prefix(s1, ray, t_min, t_max, 2);
        let h2 = RSRaytracer::s_hit_prefix(s2, ray, t_min, t_max, 2);
        assert(s1[0] == a && s1[1] == b && s2[0] == b && s2[1] == a);
        match h1 {
            Some(x) => {
                let i = choose|i: int| 0 <= i < 2 && #[trigger] s1[i].s_hit(ray, t_min, t_max)
                    == Some(x);
                assert(s2[1 - i].s_hit(ray, t_min, t_max) == Some(x));
                match h2 {
                    Some(y) => {
                        let j = choose|j: int| 0 <= j < 2 && #[trigger] s2[j].s_hit(
                            ray,
                            t_min,
                            t_max,
                        ) == Some(y);
                        assert(s1[1 - j].s_hit(ray, t_min, t_max) == Some(y));
                        assert(x.t as int <= y.t as int);
                        assert(y.t as int <= x.t as int);
                    },
                    None => {
                        assert(s2[1 - i].s_hit(ray, t_min, t_max) is None);
                    },
                }
            },
            None => {
                match h2 {
                    Some(y) => {
                        let j = choose|j: int| 0 <= j < 2 && #[trigger] s2[j].s_hit(
                            ray,
                            t_min,
                            t_max,
                        ) == Some(y);
                        assert(s1[1 - j].s_hit(ray, t_min, t_max) is None);
                    },
                    None => {},
                }
            },
        }
    }

    /// The procedural sky: white blended toward sky blue by the height of
    /// the (normalized) ray direction, the blend factor clamped into
    /// `[0, 1]` so the color stays physical.
    pub open spec fn s_sky(ray: Ray) -> Vec3 {
        let y: int = ray.direction.s_normalized().y as int;
        let t: int = spec_clamp(spec_mul(FX_HALF as int, spec_add(y, FX_ONE as int)), 0, FX_ONE as int);
        s_v3(FX_ONE as int, FX_ONE as int, FX_ONE as int).s_scale(spec_sub(FX_ONE as int, t)).s_add(
            s_v3(FX_HALF as int, SKY_GREEN as int, FX_ONE as int).s_scale(t),
        )
    }

    /// The sky color is a physical color.
    pub proof fn lemma_sky_in_unit(ray: Ray)
        ensures
            Vec3::s_in_unit_cube(RSRaytracer::s_sky(ray)),
    {
        let y: int = ray.direction.s_normalized().y as int;
        let t: int = spec_clamp(spec_mul(FX_HALF as int, spec_add(y, FX_ONE as int)), 0, FX_ONE as int);
        let omt: int = spec_sub(FX_ONE as int, t);
        crate::fixed::lemma_unit_mul(FX_ONE as int, omt);
        crate::fixed::lemma_unit_mul(FX_HALF as int, t);
        crate::fixed::lemma_unit_mul(SKY_GREEN as int, t);
        crate::fixed::lemma_unit_mul(FX_ONE as int, t);
    }

    /// A component-wise product of physical colors is a physical color,
    /// bounded by either factor: no bounce gains energy.
    pub proof fn lemma_attenuate_in_unit(a: Vec3, c: Vec3)
        requires
            Vec3::s_in_unit_cube(a),
            Vec3::s_in_unit_cube(c),
        ensures
            Vec3::s_in_unit_cube(a.s_mul(c)),
            a.s_mul(c).x <= a.x && a.s_mul(c).y <= a.y && a.s_mul(c).z <= a.z,
            a.s_mul(c).x <= c.x && a.s_mul(c).y <= c.y && a.s_mul(c).z <= c.z,
    {
        crate::fixed::lemma_unit_mul(a.x as int, c.x as int);
        crate::fixed::lemma_unit_mul(a.y as int, c.y as int);
        crate::fixed::lemma_unit_mul(a.z as int, c.z as int);
    }

    /// Whether a bounce trace is one this scene's materials allow along
    /// the given ray: entry `k` of the trace is what the material
    /// returned at the `k`-th hit of the path — `None` for absorption,
    /// or the attenuation and the scattered ray that was followed.
    /// Nearest hits are queried with the shadow-acne guard `RAY_T_MIN`
    /// and an unbounded far limit, exactly as `ray_color` queries them.
    pub open spec fn s_trace_ok(
        objects: Seq<Sphere>,
        materials: Seq<Material>,
        ray: Ray,
        depth: int,
        trace: Seq<Option<(Vec3, Ray)>>,
    ) -> bool
        decreases depth,
    {
        if depth <= 0 {
            true
        } else {
            match RSRaytracer::s_hit_prefix(
                objects,
                ray,
                RAY_T_MIN as int,
                FX_MAX as int,
                objects.len() as int,
            ) {
                None => true,
                Some(hr) => {
                    &&& trace.len() >= 1
                    &&& materials[hr.mat_id as int].s_scatter_ok(ray, hr, trace[0])
                    &&& (trace[0] matches Some(pair) ==> RSRaytracer::s_trace_ok(
                        objects,
                        materials,
                        pair.1,
                        depth - 1,
                        trace.drop_first(),
                    ))
                },
            }
        }
    }

    /// The color the integrator computes along a bounce trace: black
    /// once the budget is exhausted; the sky on a miss; black on
    /// absorption; otherwise the attenuation times the color of the
    /// scattered ray along the rest of the trace, one bounce down.
    pub open spec fn s_trace_color(
        objects: Seq<Sphere>,
        materials: Seq<Material>,
        ray: Ray,
        depth: int,
        trace: Seq<Option<(Vec3, Ray)>>,
    ) -> Vec3
        decreases depth,
    {
        if depth <= 0 {
            s_v3(0, 0, 0)
        } else {
            match RSRaytracer::s_hit_prefix(
                objects,
                ray,
                RAY_T_MIN as int,
                FX_MAX as int,
                objects.len() as int,
            ) {
                None => RSRaytracer::s_sky(ray),
                Some(hr) => if trace.len() == 0 {
                    s_v3(0, 0, 0)
                } else {
                    match trace[0] {
                        None => s_v3(0, 0, 0),
                        Some(pair) => pair.0.s_mul(
                            RSRaytracer::s_trace_color(
                                objects,
                                materials,
                                pair.1,
                                depth - 1,
                                trace.drop_first(),
                            ),
                        ),
                    }
                },
            }
        }
    }

    /// A color the integrator can return for this ray at this bounce
    /// budget, for some sequence of random draws: the color along some
    /// bounce trace the scene's materials allow.
    pub open spec fn s_ray_color_possible(
        objects: Seq<Sphere>,
        materials: Seq<Material>,
        ray: Ray,
        depth: int,
        c: Vec3,
    ) -> bool {
        exists|trace: Seq<Option<(Vec3, Ray)>>|
            #![trigger RSRaytracer::s_trace_ok(objects, materials, ray, depth, trace)]
            RSRaytracer::s_trace_ok(objects, materials, ray, depth, trace) && c
                == RSRaytracer::s_trace_color(objects, materials, ray, depth, trace)
    }

    /// With the bounce budget exhausted, black is the possible outcome.
    proof fn lemma_possible_depth_zero(objects: Seq<Sphere>, materials: Seq<Material>, ray: Ray)
        ensures
            RSRaytracer::s_ray_color_possible(objects, materials, ray, 0, s_v3(0, 0, 0)),
    {
        let trace: Seq<Option<(Vec3, Ray)>> = Seq::empty();
        assert(RSRaytracer::s_trace_ok(objects, materials, ray, 0, trace));
        assert(RSRaytracer::s_trace_color(objects, materials, ray, 0, trace) == s_v3(0, 0, 0));
    }

    /// On a miss, the sky is the possible outcome.
    proof fn lemma_possible_miss(
        objects: Seq<Sphere>,
        materials: Seq<Material>,
        ray: Ray,
        depth: int,
    )
        requires
            depth >= 1,
            RSRaytracer::s_hit_prefix(
                objects,
                ray,
                RAY_T_MIN as int,
                FX_MAX as int,
                objects.len() as int,
            ) is None,
        ensures
            RSRaytracer::s_ray_color_possible(
                objects,
                materials,
                ray,
                depth,
                RSRaytracer::s_sky(ray),
            ),
    {
        let trace: Seq<Option<(Vec3, Ray)>> = Seq::empty();
        assert(RSRaytracer::s_trace_ok(objects, materials, ray, depth, trace));
        assert(RSRaytracer::s_trace_color(objects, materials, ray, depth, trace)
            == RSRaytracer::s_sky(ray));
    }

    /// A scatter that the hit material allows, followed by a possible
    /// color of the scattered ray, makes the attenuated product a
    /// possible integrator outcome.
    proof fn lemma_possible_after_scatter(
        objects: Seq<Sphere>,
        materials: Seq<Material>,
        ray: Ray,
        depth: int,
        hr: HitRecord,
        att: Vec3,
        sc: Ray,
        sub: Vec3,
        c: Vec3,
    )
        requires
            depth >= 1,
            RSRaytracer::s_hit_prefix(
                objects,
                ray,
                RAY_T_MIN as int,
                FX_MAX as int,
                objects.len() as int,
            ) == Some(hr),
            materials[hr.mat_id as int].s_scatter_ok(ray, hr, Some((att, sc))),
            RSRaytracer::s_ray_color_possible(objects, materials, sc, depth - 1, sub),
            c == att.s_mul(sub),
        ensures
            RSRaytracer::s_ray_color_possible(objects, materials, ray, depth, c),
    {
        let sub_trace: Seq<Option<(Vec3, Ray)>> = choose|tr: Seq<Option<(Vec3, Ray)>>|
            #![trigger RSRaytracer::s_trace_ok(objects, materials, sc, depth - 1, tr)]
            RSRaytracer::s_trace_ok(objects, materials, sc, depth - 1, tr) && sub
                == RSRaytracer::s_trace_color(objects, materials, sc, depth - 1, tr);
        let step: Option<(Vec3, Ray)> = Some((att, sc));
        let trace: Seq<Option<(Vec3, Ray)>> = seq![step] + sub_trace;
        assert(trace[0] == step);
        assert(trace.drop_first() =~= sub_trace);
        assert(RSRaytracer::s_trace_ok(objects, materials, ray, depth, trace));
        assert(RSRaytracer::s_trace_color(objects, materials, ray, depth, trace) == c);
    }

    /// An absorption that the hit material allows makes black a possible
    /// integrator outcome.
    proof fn lemma_possible_after_absorption(
        objects: Seq<Sphere>,
        materials: Seq<Material>,
        ray: Ray,
        depth: int,
        hr: HitRecord,
    )
        requires
            depth >= 1,
            RSRaytracer::s_hit_prefix(
                objects,
                ray,
                RAY_T_MIN as int,
                FX_MAX as int,
                objects.len() as int,
            ) == Some(hr),
            materials[hr.mat_id as int].s_scatter_ok(ray, hr, Option::<(Vec3, Ray)>::None),
        ensures
            RSRaytracer::s_ray_color_possible(objects, materials, ray, depth, s_v3(0, 0, 0)),
    {
        let trace: Seq<Option<(Vec3, Ray)>> = seq![Option::<(Vec3, Ray)>::None];
        assert(RSRaytracer::s_trace_ok(objects, materials, ray, depth, trace));
        assert(RSRaytracer::s_trace_color(objects, materials, ray, depth, trace) == s_v3(0, 0, 0));
    }

    /// The normalized horizontal image-plane coordinate of a sample of
    /// column `x` jittered by `r0`: `(x + r0) / (width - 1)`.
    pub open spec fn s_sample_u(x: int, r0: int, width: int) -> int {
        spec_div(spec_add(x * 65536, r0), (width - 1) * 65536)
    }

    /// The normalized vertical image-plane coordinate of a sample of row
    /// `y` jittered by `r1`: `(y + r1) / (height - 1)`, before the flip
    /// that puts row 0 at the top of the frame.
    pub open spec fn s_sample_v(y: int, r1: int, height: int) -> int {
        spec_div(spec_add(y * 65536, r1), (height - 1) * 65536)
    }

    /// One sample of pixel `(x, y)`: two jitters in `[0, 1)` and a color
    /// the integrator can return for the camera ray through the jittered
    /// image-plane position, with the vertical axis flipped so that
    /// image row 0 is the top of the frame.
    pub open spec fn s_sample_ok(
        objects: Seq<Sphere>,
        materials: Seq<Material>,
        cam: Camera,
        width: int,
        height: int,
        max_depth: int,
        x: int,
        y: int,
        sample: (i64, i64, Vec3),
    ) -> bool {
        &&& 0 <= sample.0 < FX_ONE
        &&& 0 <= sample.1 < FX_ONE
        &&& RSRaytracer::s_ray_color_possible(
            objects,
            materials,
            cam.s_ray_at(
                RSRaytracer::s_sample_u(x, sample.0 as int, width),
                spec_sub(FX_ONE as int, RSRaytracer::s_sample_v(y, sample.1 as int, height)),
            ),
            max_depth,
            sample.2,
        )
    }

    /// Every sample of the sequence is a possible sample of pixel
    /// `(x, y)`.
    pub open spec fn s_samples_ok(
        objects: Seq<Sphere>,
        materials: Seq<Material>,
        cam: Camera,
        width: int,
        height: int,
        max_depth: int,
        x: int,
        y: int,
        samples: Seq<(i64, i64, Vec3)>,
    ) -> bool {
        forall|k: int|
            0 <= k < samples.len() ==> #[trigger] RSRaytracer::s_sample_ok(
                objects,
                materials,
                cam,
                width,
                height,
                max_depth,
                x,
                y,
                samples[k],
            )
    }

    /// The component-wise sum of the first `n` sample colors.
    pub open spec fn s_sum_colors(samples: Seq<(i64, i64, Vec3)>, n: int) -> Vec3
        decreases n,
    {
        if n <= 0 {
            s_v3(0, 0, 0)
        } else {
            RSRaytracer::s_sum_colors(samples, n - 1).s_add(samples[n - 1].2)
        }
    }

    /// The sample-color sum only reads the first `n` entries.
    proof fn lemma_sum_colors_agree(a: Seq<(i64, i64, Vec3)>, b: Seq<(i64, i64, Vec3)>, n: int)
        requires
            n <= a.len(),
            n <= b.len(),
            forall|k: int| 0 <= k < n ==> a[k] == b[k],
        ensures
            RSRaytracer::s_sum_colors(a, n) == RSRaytracer::s_sum_colors(b, n),
        decreases n,
    {
        if n > 0 {
            RSRaytracer::lemma_sum_colors_agree(a, b, n - 1);
        }
    }

    /// A value the render pass can leave in one pixel slot: the sum of
    /// `n` sample colors, each from an independently jittered camera ray.
    pub open spec fn s_render_pixel(
        objects: Seq<Sphere>,
        materials: Seq<Material>,
        cam: Camera,
        width: int,
        height: int,
        max_depth: int,
        x: int,
        y: int,
        n: int,
        acc: Vec3,
    ) -> bool {
        exists|samples: Seq<(i64, i64, Vec3)>|
            #![trigger RSRaytracer::s_samples_ok(
                objects,
                materials,
                cam,
                width,
                height,
                max_depth,
                x,
                y,
                samples,
            )]
            {
                &&& samples.len() == n
                &&& RSRaytracer::s_samples_ok(
                    objects,
                    materials,
                    cam,
                    width,
                    height,
                    max_depth,
                    x,
                    y,
                    samples,
                )
                &&& acc == RSRaytracer::s_sum_colors(samples, n)
            }
    }

    /// The fixed-point triple stored for pixel `(x, y)`, row-major with
    /// row 0 first.
    pub open spec fn s_pixel_at(pixels: Seq<i64>, width: int, x: int, y: int) -> Vec3 {
        Vec3 {
            x: pixels[(y * width + x) * 3],
            y: pixels[(y * width + x) * 3 + 1],
            z: pixels[(y * width + x) * 3 + 2],
        }
    }

    /// Resolve a ray's color: black once the bounce budget is exhausted;
    /// on a hit, the material's attenuation times the scattered ray's
    /// color (or black on absorption); on a miss, the sky. The result is
    /// always a physical color, a possible integrator outcome for this
    /// scene (`s_ray_color_possible`), and a miss yields exactly the sky
    /// color.
    pub fn ray_color(&mut self, ray: &Ray, depth: u32) -> (r: Vec3)
        requires
            old(self).s_wf(),
        ensures
            final(self).s_wf(),
            RSRaytracer::s_scene_eq(*final(self), *old(self)),
            final(self).s_pixels() == old(self).s_pixels(),
            Vec3::s_in_unit_cube(r),
            RSRaytracer::s_ray_color_possible(
                old(self).s_objects(),
                old(self).s_materials(),
                *ray,
                depth as int,
                r,
            ),
            depth == 0 ==> r == s_v3(0, 0, 0),
            depth > 0 && old(self).s_hit_objects(*ray, RAY_T_MIN as int, FX_MAX as int) is None
                ==> r == RSRaytracer::s_sky(*ray),
        decreases depth,
    {
        // Exceeded the bounce limit: no more light is gathered.
        if depth == 0 {
            proof {
                RSRaytracer::lemma_possible_depth_zero(
                    old(self).s_objects(),
                    old(self).s_materials(),
                    *ray,
                );
            }
            return Vec3::zero();
        }

        let hit_rec: Option<HitRecord> = self.hit_objects(ray, RAY_T_MIN, FX_MAX);
        match hit_rec {
            Some(rec) => {
                proof {
                    self.lemma_hit_objects_nearest(*ray, RAY_T_MIN as int, FX_MAX as int);
                    let i = choose|i: int|
                        0 <= i < self.s_objects().len() && #[trigger] self.s_objects()[i].s_hit(
                            *ray,
                            RAY_T_MIN as int,
                            FX_MAX as int,
                        ) == Some(rec);
                    crate::hittable::lemma_hit_mat_id(
                        self.s_objects()[i],
                        *ray,
                        RAY_T_MIN as int,
                        FX_MAX as int,
                    );
                    assert((self.s_objects()[i]).mat_id < self.s_materials().len());
                    assert((self.s_materials()[rec.mat_id as int]).s_wf());
                }
                let mat: Material = self.materials[rec.mat_id as usize];
                let scatter_res: Option<(Vec3, Ray)> = mat.scatter(ray, &rec, &mut self.rand_gen);
                proof {
                    assert(old(self).s_materials()[rec.mat_id as int].s_scatter_ok(
                        *ray,
                        rec,
                        scatter_res,
                    ));
                }
                match scatter_res {
                    Some((attenuation, scattered)) => {
                        let c: Vec3 = self.ray_color(&scattered, depth - 1);
                        let out: Vec3 = attenuation.mul(c);
                        proof {
                            RSRaytracer::lemma_attenuate_in_unit(attenuation, c);
                            RSRaytracer::lemma_possible_after_scatter(
                                old(self).s_objects(),
                                old(self).s_materials(),
                                *ray,
                                depth as int,
                                rec,
                                attenuation,
                                scattered,
                                c,
                                out,
                            );
                        }
                        out
                    },
                    None => {
                        let out: Vec3 = Vec3::zero();
                        proof {
                            RSRaytracer::lemma_possible_after_absorption(
                                old(self).s_objects(),
                                old(self).s_materials(),
                                *ray,
                                depth as int,
                                rec,
                            );
                        }
                        out
                    },
                }
            },
            None => {
                let direction: Vec3 = ray.direction.normalized();
                let t: i64 = fx_clamp(fx_mul(FX_HALF, fx_add(direction.y, FX_ONE)), 0, FX_ONE);
                let out: Vec3 = Vec3::one().scale(fx_sub(FX_ONE, t)).add(
                    Vec3::new(FX_HALF, SKY_GREEN, FX_ONE).scale(t),
                );
                proof {
                    RSRaytracer::lemma_sky_in_unit(*ray);
                    assert(out == RSRaytracer::s_sky(*ray));
                    RSRaytracer::lemma_possible_miss(
                        old(self).s_objects(),
                        old(self).s_materials(),
                        *ray,
                        depth as int,
                    );
                }
                out
            },
        }
    }

    /// One synchronous render pass: for every pixel, accumulate the
    /// configured number of jittered primary rays (the vertical axis is
    /// flipped so image row 0 is the top of the frame) and overwrite the
    /// pixel's slot with the un-normalized sample sum. Every slot ends up
    /// holding, for some sequence of random draws, the sum of that many
    /// possible integrator outcomes of that pixel's jittered camera rays
    /// (`s_render_pixel`), so each channel lies in
    /// `[0, samples_per_pixel]`.
    pub fn run(&mut self)
        requires
            old(self).s_wf(),
        ensures
            final(self).s_wf(),
            RSRaytracer::s_scene_eq(*final(self), *old(self)),
            final(self).s_pixels().len() == old(self).s_pixels().len(),
            forall|i: int|
                0 <= i < final(self).s_pixels().len() ==> 0 <= #[trigger] final(self).s_pixels()[i]
                    <= old(self).s_samples_per_pixel() * FX_ONE,
            forall|xx: int, yy: int|
                0 <= xx < old(self).s_width() && 0 <= yy < old(self).s_height()
                    ==> RSRaytracer::s_render_pixel(
                    old(self).s_objects(),
                    old(self).s_materials(),
                    old(self).s_cam(),
                    old(self).s_width() as int,
                    old(self).s_height() as int,
                    old(self).s_max_depth() as int,
                    xx,
                    yy,
                    old(self).s_samples_per_pixel() as int,
                    #[trigger] RSRaytracer::s_pixel_at(
                        final(self).s_pixels(),
                        old(self).s_width() as int,
                        xx,
                        yy,
                    ),
                ),
    {
        let width: u32 = self.width;
        let height: u32 = self.height;
        let spp: u32 = self.samples_per_pixel;
        let depth: u32 = self.max_depth;
        let pitch: u32 = width * 3;

        let mut y: u32 = 0;
        while y < height
            invariant
                self.s_wf(),
                RSRaytracer::s_scene_eq(*self, *old(self)),
                width == self.s_width(),
                height == self.s_height(),
                spp == self.s_samples_per_pixel(),
                depth == self.s_max_depth(),
                pitch == width * 3,
                self.s_pixels().len() == old(self).s_pixels().len(),
                y <= height,
                forall|i: int|
                    0 <= i < y * pitch ==> 0 <= #[trigger] self.s_pixels()[i] <= spp * FX_ONE,
                forall|xx: int, yy: int|
                    0 <= xx < width && 0 <= yy < y ==> RSRaytracer::s_render_pixel(
                        old(self).s_objects(),
                        old(self).s_materials(),
                        old(self).s_cam(),
                        width as int,
                        height as int,
                        depth as int,
                        xx,
                        yy,
                        spp as int,
                        #[trigger] RSRaytracer::s_pixel_at(self.s_pixels(), width as int, xx, yy),
                    ),
            decreases height - y,
        {
            let mut x: u32 = 0;
            while x < width
                invariant
                    self.s_wf(),
                    RSRaytracer::s_scene_eq(*self, *old(self)),
                    width == self.s_width(),
                    height == self.s_height(),
                    spp == self.s_samples_per_pixel(),
                    depth == self.s_max_depth(),
                    pitch == width * 3,
                    self.s_pixels().len() == old(self).s_pixels().len(),
                    y < height,
                    x <= width,
                    forall|i: int|
                        0 <= i < y * pitch + x * 3 ==> 0 <= #[trigger] self.s_pixels()[i] <= spp
                            * FX_ONE,
                    forall|xx: int, yy: int|
                        0 <= xx < width && 0 <= yy < y ==> RSRaytracer::s_render_pixel(
                            old(self).s_objects(),
                            old(self).s_materials(),
                            old(self).s_cam(),
                            width as int,
                            height as int,
                            depth as int,
                            xx,
                            yy,
                            spp as int,
                            #[trigger] RSRaytracer::s_pixel_at(
                                self.s_pixels(),
                                width as int,
                                xx,
                                yy,
                            ),
                        ),
                    forall|xx: int|
                        0 <= xx < x ==> RSRaytracer::s_render_pixel(
                            old(self).s_objects(),
                            old(self).s_materials(),
                            old(self).s_cam(),
                            width as int,
                            height as int,
                            depth as int,
                            xx,
                            y as int,
                            spp as int,
                            #[trigger] RSRaytracer::s_pixel_at(
                                self.s_pixels(),
                                width as int,
                                xx,
                                y as int,
                            ),
                        ),
                decreases width - x,
            {
                proof {
                    assert(y * pitch + x * 3 + 3 <= height * pitch) by (nonlinear_arith)
                        requires
                            y < height,
                            x < width,
                            pitch == width * 3,
                    ;
                    assert(height * pitch <= 16384 * 49152) by (nonlinear_arith)
                        requires
                            height <= 16384,
                            pitch <= 49152,
                    ;
                    assert(width as int * height as int * 3 == height as int * pitch as int)
                        by (nonlinear_arith)
                        requires
                            pitch == width * 3,
                    ;
                }
                let offset: u32 = y * pitch + x * 3;

                let mut pixel_color: Vec3 = Vec3::zero();
                let ghost mut samples: Seq<(i64, i64, Vec3)> = Seq::empty();
                let mut s: u32 = 0;
                while s < spp
                    invariant
                        self.s_wf(),
                        RSRaytracer::s_scene_eq(*self, *old(self)),
                        width == self.s_width(),
                        height == self.s_height(),
                        spp == self.s_samples_per_pixel(),
                        depth == self.s_max_depth(),
                        pitch == width * 3,
                        self.s_pixels().len() == old(self).s_pixels().len(),
                        y < height,
                        x < width,
                        offset == y * pitch + x * 3,
                        forall|i: int|
                            0 <= i < y * pitch + x * 3 ==> 0 <= #[trigger] self.s_pixels()[i]
                                <= spp * FX_ONE,
                        forall|xx: int, yy: int|
                            0 <= xx < width && 0 <= yy < y ==> RSRaytracer::s_render_pixel(
                                old(self).s_objects(),
                                old(self).s_materials(),
                                old(self).s_cam(),
                                width as int,
                                height as int,
                                depth as int,
                                xx,
                                yy,
                                spp as int,
                                #[trigger] RSRaytracer::s_pixel_at(
                                    self.s_pixels(),
                                    width as int,
                                    xx,
                                    yy,
                                ),
                            ),
                        forall|xx: int|
                            0 <= xx < x ==> RSRaytracer::s_render_pixel(
                                old(self).s_objects(),
                                old(self).s_materials(),
                                old(self).s_cam(),
                                width as int,
                                height as int,
                                depth as int,
                                xx,
                                y as int,
                                spp as int,
                                #[trigger] RSRaytracer::s_pixel_at(
                                    self.s_pixels(),
                                    width as int,
                                    xx,
                                    y as int,
                                ),
                            ),
                        s <= spp,
                        samples.len() == s,
                        RSRaytracer::s_samples_ok(
                            old(self).s_objects(),
                            old(self).s_materials(),
                            old(self).s_cam(),
                            width as int,
                            height as int,
                            depth as int,
                            x as int,
                            y as int,
                            samples,
                        ),
                        pixel_color == RSRaytracer::s_sum_colors(samples, s as int),
                        0 <= pixel_color.x <= s * FX_ONE,
                        0 <= pixel_color.y <= s * FX_ONE,
                        0 <= pixel_color.z <= s * FX_ONE,
                    decreases spp - s,
                {
                    let r0: i64 = self.rand_gen.next01();
                    let u: i64 = fx_div(
                        fx_add((x as i64) * 65536, r0),
                        ((width as i64) - 1) * 65536,
                    );

                    let r1: i64 = self.rand_gen.next01();
                    let v: i64 = fx_div(
                        fx_add((y as i64) * 65536, r1),
                        ((height as i64) - 1) * 65536,
                    );

                    let v_flip: i64 = fx_sub(FX_ONE, v);
                    let r: Ray = self.cam.get_ray(u, v_flip);
                    let c: Vec3 = self.ray_color(&r, depth);
                    let next_color: Vec3 = pixel_color.add(c);
                    proof {
                        assert(spp * FX_ONE <= 65536 * 65536);
                        assert((s + 1) * FX_ONE == s * FX_ONE + FX_ONE)
                            by (nonlinear_arith)
                        ;
                        assert(s * FX_ONE <= spp * FX_ONE) by (nonlinear_arith)
                            requires
                                s < spp,
                        ;
                        let sample: (i64, i64, Vec3) = (r0, r1, c);
                        assert(u as int == RSRaytracer::s_sample_u(
                            x as int,
                            r0 as int,
                            width as int,
                        ));
                        assert(v_flip as int == spec_sub(
                            FX_ONE as int,
                            RSRaytracer::s_sample_v(y as int, r1 as int, height as int),
                        ));
                        assert(r == old(self).s_cam().s_ray_at(u as int, v_flip as int));
                        assert(RSRaytracer::s_ray_color_possible(
                            old(self).s_objects(),
                            old(self).s_materials(),
                            old(self).s_cam().s_ray_at(
                                RSRaytracer::s_sample_u(x as int, r0 as int, width as int),
                                spec_sub(
                                    FX_ONE as int,
                                    RSRaytracer::s_sample_v(y as int, r1 as int, height as int),
                                ),
                            ),
                            depth as int,
                            c,
                        ));
                        assert(RSRaytracer::s_sample_ok(
                            old(self).s_objects(),
                            old(self).s_materials(),
                            old(self).s_cam(),
                            width as int,
                            height as int,
                            depth as int,
                            x as int,
                            y as int,
                            sample,
                        ));
                        let prev_samples: Seq<(i64, i64, Vec3)> = samples;
                        samples = samples.push(sample);
                        assert forall|k: int|
                            0 <= k < samples.len() implies #[trigger] RSRaytracer::s_sample_ok(
                            old(self).s_objects(),
                            old(self).s_materials(),
                            old(self).s_cam(),
                            width as int,
                            height as int,
                            depth as int,
                            x as int,
                            y as int,
                            samples[k],
                        ) by {
                            if k < prev_samples.len() {
                                assert(samples[k] == prev_samples[k]);
                            } else {
                                assert(samples[k] == sample);
                            }
                        }
                        RSRaytracer::lemma_sum_colors_agree(prev_samples, samples, s as int);
                        assert(samples[s as int] == sample);
                        assert(RSRaytracer::s_sum_colors(samples, s as int + 1)
                            == RSRaytracer::s_sum_colors(samples, s as int).s_add(c));
                    }
                    pixel_color = next_color;
                    s = s + 1;
                }

                proof {
                    assert(RSRaytracer::s_render_pixel(
                        old(self).s_objects(),
                        old(self).s_materials(),
                        old(self).s_cam(),
                        width as int,
                        height as int,
                        depth as int,
                        x as int,
                        y as int,
                        spp as int,
                        pixel_color,
                    ));
                }
                let off: usize = offset as usize;
                let ghost before: Seq<i64> = self.s_pixels();
                self.pixels.set(off, pixel_color.x);
                self.pixels.set(off + 1, pixel_color.y);
                self.pixels.set(off + 2, pixel_color.z);
                proof {
                    assert(self.s_pixels() == before.update(off as int, pixel_color.x).update(
                        off + 1,
                        pixel_color.y,
                    ).update(off + 2, pixel_color.z));
                    assert((x + 1) * 3 == x * 3 + 3) by (nonlinear_arith);
                    assert forall|i: int|
                        0 <= i < y * pitch + (x + 1) * 3 implies 0 <= #[trigger] self.s_pixels()[i]
                        <= spp * FX_ONE by {
                        if i < offset {
                            assert(self.s_pixels()[i] == before[i]);
                        }
                    }
                    assert(offset as int == (y as int * width as int + x as int) * 3)
                        by (nonlinear_arith)
                        requires
                            pitch == width * 3,
                            offset == y * pitch + x * 3,
                    ;
                    assert(RSRaytracer::s_pixel_at(self.s_pixels(), width as int, x as int, y as int)
                        == pixel_color);
                    assert forall|xx: int, yy: int|
                        0 <= xx < width && 0 <= yy < y implies RSRaytracer::s_render_pixel(
                        old(self).s_objects(),
                        old(self).s_materials(),
                        old(self).s_cam(),
                        width as int,
                        height as int,
                        depth as int,
                        xx,
                        yy,
                        spp as int,
                        #[trigger] RSRaytracer::s_pixel_at(self.s_pixels(), width as int, xx, yy),
                    ) by {
                        vstd::arithmetic::mul::lemma_mul_inequality(yy, y as int - 1, width as int);
                        vstd::arithmetic::mul::lemma_mul_is_distributive_sub_other_way(
                            width as int,
                            y as int,
                            1,
                        );
                        assert((yy * width + xx) * 3 + 2 < offset);
                        assert(RSRaytracer::s_pixel_at(self.s_pixels(), width as int, xx, yy)
                            == RSRaytracer::s_pixel_at(before, width as int, xx, yy));
                    }
                    assert forall|xx: int|
                        0 <= xx < x + 1 implies RSRaytracer::s_render_pixel(
                        old(self).s_objects(),
                        old(self).s_materials(),
                        old(self).s_cam(),
                        width as int,
                        height as int,
                        depth as int,
                        xx,
                        y as int,
                        spp as int,
                        #[trigger] RSRaytracer::s_pixel_at(
                            self.s_pixels(),
                            width as int,
                            xx,
                            y as int,
                        ),
                    ) by {
                        if xx < x {
                            assert((y as int * width as int + xx) * 3 + 2 < offset);
                            assert(RSRaytracer::s_pixel_at(
                                self.s_pixels(),
                                width as int,
                                xx,
                                y as int,
                            ) == RSRaytracer::s_pixel_at(before, width as int, xx, y as int));
                        } else {
                            assert(xx == x);
                        }
                    }
                }
                x = x + 1;
            }
            proof {
                assert((y + 1) * pitch == y * pitch + width * 3) by (nonlinear_arith)
                    requires
                        pitch == width * 3,
                ;
                assert forall|xx: int, yy: int|
                    0 <= xx < width && 0 <= yy < y + 1 implies RSRaytracer::s_render_pixel(
                    old(self).s_objects(),
                    old(self).s_materials(),
                    old(self).s_cam(),
                    width as int,
                    height as int,
                    depth as int,
                    xx,
                    yy,
                    spp as int,
                    #[trigger] RSRaytracer::s_pixel_at(self.s_pixels(), width as int, xx, yy),
                ) by {
                    if yy == y {
                        assert(RSRaytracer::s_render_pixel(
                            old(self).s_objects(),
                            old(self).s_materials(),
                            old(self).s_cam(),
                            width as int,
                            height as int,
                            depth as int,
                            xx,
                            y as int,
                            spp as int,
                            RSRaytracer::s_pixel_at(self.s_pixels(), width as int, xx, y as int),
                        ));
                    }
                }
            }
            y = y + 1;
        }
        proof {
            assert(height * pitch == width * height * 3) by (nonlinear_arith)
                requires
                    pitch == width * 3,
            ;
        }
    }

    /// Tone mapping of one channel: divide the accumulated value by the
    /// sample count, gamma-correct for gamma 2 (square root), clamp to
    /// just below one, and truncate to 8 bits. `TONE_CLAMP / FX_ONE` is
    /// the largest representable value below 0.999.
    pub open spec fn s_tone_map(c: int, n: int) -> int {
        let scaled: int = if c < 0 {
            0
        } else {
            c / n
        };
        let g: int = spec_sqrt(scaled);
        let cl: int = if g > TONE_CLAMP {
            TONE_CLAMP as int
        } else {
            g
        };
        cl / 256
    }

    /// A tone-mapped channel is an 8-bit value.
    pub proof fn lemma_tone_map_range(c: int, n: int)
        requires
            n >= 1,
        ensures
            0 <= RSRaytracer::s_tone_map(c, n) <= 255,
    {
        let scaled: int = if c < 0 {
            0
        } else {
            c / n
        };
        if c >= 0 {
            vstd::arithmetic::div_mod::lemma_div_pos_is_pos(c, n);
        }
        let g: int = spec_sqrt(scaled);
        assert(g >= 0);
        let cl: int = if g > TONE_CLAMP {
            TONE_CLAMP as int
        } else {
            g
        };
        vstd::arithmetic::div_mod::lemma_div_pos_is_pos(cl, 256);
        vstd::arithmetic::div_mod::lemma_div_is_ordered(cl, 65470, 256);
        vstd::arithmetic::div_mod::lemma_fundamental_div_mod_converse(65470, 256, 255, 190);
    }

    /// Tone-map one accumulated channel value.
    fn tone_channel(c: i64, n: u32) -> (r: u8)
        requires
            n >= 1,
        ensures
            r as int == RSRaytracer::s_tone_map(c as int, n as int),
    {
        proof {
            RSRaytracer::lemma_tone_map_range(c as int, n as int);
        }
        if c < 0 {
            proof {
                vstd::arithmetic::div_mod::lemma_div_of0(256);
            }
            return 0;
        }
        let scaled_u: u64 = (c as u64) / (n as u64);
        proof {
            vstd::arithmetic::div_mod::lemma_div_nonincreasing(c as int, n as int);
            vstd::arithmetic::div_mod::lemma_div_pos_is_pos(c as int, n as int);
        }
        let g: i64 = fx_sqrt(scaled_u as i64);
        let cl: i64 = fx_min(g, TONE_CLAMP);
        proof {
            assert(cl >= 0);
        }
        ((cl as u64) / 256) as u8
    }

    /// The tone-mapped 8-bit triple for one accumulated pixel color.
    pub fn get_final_rgb(&self, pixel_color: &Vec3) -> (r: (u8, u8, u8))
        requires
            self.s_wf(),
        ensures
            r.0 as int == RSRaytracer::s_tone_map(
                pixel_color.x as int,
                self.s_samples_per_pixel() as int,
            ),
            r.1 as int == RSRaytracer::s_tone_map(
                pixel_color.y as int,
                self.s_samples_per_pixel() as int,
            ),
            r.2 as int == RSRaytracer::s_tone_map(
                pixel_color.z as int,
                self.s_samples_per_pixel() as int,
            ),
    {
        (
            RSRaytracer::tone_channel(pixel_color.x, self.samples_per_pixel),
            RSRaytracer::tone_channel(pixel_color.y, self.samples_per_pixel),
            RSRaytracer::tone_channel(pixel_color.z, self.samples_per_pixel),
        )
    }

    /// Image width in pixels.
    pub fn width(&self) -> (r: u32)
        ensures
            r == self.s_width(),
    {
        self.width
    }

    /// Image height in pixels.
    pub fn height(&self) -> (r: u32)
        ensures
            r == self.s_height(),
    {
        self.height
    }

    /// The tone-mapped 8-bit triple of the pixel at `(x, y)`, row 0 at
    /// the top of the frame: what the preview blits and the export
    /// writes for that pixel.
    pub fn pixel_rgb(&self, x: u32, y: u32) -> (r: (u8, u8, u8))
        requires
            self.s_wf(),
            x < self.s_width(),
            y < self.s_height(),
        ensures
            ({
                let off: int = (y * self.s_width() + x) * 3;
                &&& r.0 as int == RSRaytracer::s_tone_map(
                    self.s_pixels()[off] as int,
                    self.s_samples_per_pixel() as int,
                )
                &&& r.1 as int == RSRaytracer::s_tone_map(
                    self.s_pixels()[off + 1] as int,
                    self.s_samples_per_pixel() as int,
                )
                &&& r.2 as int == RSRaytracer::s_tone_map(
                    self.s_pixels()[off + 2] as int,
                    self.s_samples_per_pixel() as int,
                )
            }),
    {
        proof {
            assert((y * self.s_width() + x) * 3 + 3 <= self.s_width() * self.s_height() * 3)
                by (nonlinear_arith)
                requires
                    x < self.s_width(),
                    y < self.s_height(),
            ;
            assert(self.s_width() * self.s_height() * 3 <= 16384 * 16384 * 3)
                by (nonlinear_arith)
                requires
                    self.s_width() <= 16384,
                    self.s_height() <= 16384,
            ;
        }
        let off: usize = ((y as usize) * (self.width as usize) + (x as usize)) * 3;
        (
            RSRaytracer::tone_channel(self.pixels[off], self.samples_per_pixel),
            RSRaytracer::tone_channel(self.pixels[off + 1], self.samples_per_pixel),
            RSRaytracer::tone_channel(self.pixels[off + 2], self.samples_per_pixel),
        )
    }

    /// The whole buffer tone-mapped, channel by channel.
    pub open spec fn s_tone_bytes(pixels: Seq<i64>, n: int) -> Seq<u8> {
        Seq::new(pixels.len(), |i: int| RSRaytracer::s_tone_map(pixels[i] as int, n) as u8)
    }

    /// The tone-mapped 8-bit bytes of the whole buffer, for the preview
    /// surface and for export alike, so the two outputs are identical.
    pub fn tone_mapped_bytes(&self) -> (r: Vec<u8>)
        requires
            self.s_wf(),
        ensures
            r@ == RSRaytracer::s_tone_bytes(self.s_pixels(), self.s_samples_per_pixel() as int),
    {
        let mut out: Vec<u8> = Vec::new();
        let n: usize = self.pixels.len();
        let mut i: usize = 0;
        while i < n
            invariant
                self.s_wf(),
                n == self.s_pixels().len(),
                i <= n,
                out@.len() == i,
                forall|j: int|
                    0 <= j < i ==> #[trigger] out@[j] as int == RSRaytracer::s_tone_map(
                        self.s_pixels()[j] as int,
                        self.s_samples_per_pixel() as int,
                    ),
            decreases n - i,
        {
            out.push(RSRaytracer::tone_channel(self.pixels[i], self.samples_per_pixel));
            i = i + 1;
        }
        proof {
            assert forall|j: int|
                0 <= j < out@.len() implies #[trigger] out@[j] == RSRaytracer::s_tone_bytes(
                self.s_pixels(),
                self.s_samples_per_pixel() as int,
            )[j] by {
                RSRaytracer::lemma_tone_map_range(
                    self.s_pixels()[j] as int,
                    self.s_samples_per_pixel() as int,
                );
            }
            assert(out@ =~= RSRaytracer::s_tone_bytes(
                self.s_pixels(),
                self.s_samples_per_pixel() as int,
            ));
        }
        out
    }

    /// The image as plain-text PPM (P3): exactly the tone-mapped bytes
    /// that the preview shows, formatted with the standard header.
    pub fn ppm_string(&self) -> (r: String)
        requires
            self.s_wf(),
        ensures
            r@ == s_ppm(
                self.s_width() as int,
                self.s_height() as int,
                RSRaytracer::s_tone_bytes(self.s_pixels(), self.s_samples_per_pixel() as int),
            ),
    {
        let bytes: Vec<u8> = self.tone_mapped_bytes();
        ppm_from_bytes(self.width, self.height, &bytes)
    }
}

/// The decimal digit character for `d` in `0 .. 9`.
pub open spec fn s_digit(d: int) -> char {
    if d == 0 {
        '0'
    } else if d == 1 {
        '1'
    } else if d == 2 {
        '2'
    } else if d == 3 {
        '3'
    } else if d == 4 {
        '4'
    } else if d == 5 {
        '5'
    } else if d == 6 {
        '6'
    } else if d == 7 {
        '7'
    } else if d == 8 {
        '8'
    } else {
        '9'
    }
}

/// The decimal digits of a non-negative number, most significant first.
pub open spec fn s_dec(n: int) -> Seq<char>
    decreases n,
{
    if n < 10 {
        seq![s_digit(n)]
    } else {
        s_dec(n / 10).push(s_digit(n % 10))
    }
}

/// One PPM body line: `"<r> <g> <b>\n"`.
pub open spec fn s_ppm_line(r: int, g: int, b: int) -> Seq<char> {
    s_dec(r) + " "@ + s_dec(g) + " "@ + s_dec(b) + "\n"@
}

/// The PPM body from byte index `i` on: one line per byte triple.
pub open spec fn s_ppm_body(bytes: Seq<u8>, i: int) -> Seq<char>
    decreases bytes.len() - i,
{
    if i < 0 || i + 3 > bytes.len() {
        Seq::empty()
    } else {
        s_ppm_line(bytes[i] as int, bytes[i + 1] as int, bytes[i + 2] as int) + s_ppm_body(
            bytes,
            i + 3,
        )
    }
}

/// The PPM header: `"P3\n<width> <height>\n255\n"`.
pub open spec fn s_ppm_header(w: int, h: int) -> Seq<char> {
    "P3\n"@ + s_dec(w) + " "@ + s_dec(h) + "\n255\n"@
}

/// The whole plain-text PPM image.
pub open spec fn s_ppm(w: int, h: int, bytes: Seq<u8>) -> Seq<char> {
    s_ppm_header(w, h) + s_ppm_body(bytes, 0)
}

/// The one-character string for a decimal digit.
fn digit_str<'a>(d: u32) -> (r: &'a str)
    requires
        d < 10,
    ensures
        r@ == seq![s_digit(d as int)],
{
    if d == 0 {
        proof {
            reveal_strlit("0");
            assert("0"@ =~= seq![s_digit(0)]);
        }
        "0"
    } else if d == 1 {
        proof {
            reveal_strlit("1");
            assert("1"@ =~= seq![s_digit(1)]);
        }
        "1"
    } else if d == 2 {
        proof {
            reveal_strlit("2");
            assert("2"@ =~= seq![s_digit(2)]);
        }
        "2"
    } else if d == 3 {
        proof {
            reveal_strlit("3");
            assert("3"@ =~= seq![s_digit(3)]);
        }
        "3"
    } else if d == 4 {
        proof {
            reveal_strlit("4");
            assert("4"@ =~= seq![s_digit(4)]);
        }
        "4"
    } else if d == 5 {
        proof {
            reveal_strlit("5");
            assert("5"@ =~= seq![s_digit(5)]);
        }
        "5"
    } else if d == 6 {
        proof {
            reveal_strlit("6");
            assert("6"@ =~= seq![s_digit(6)]);
        }
        "6"
    } else if d == 7 {
        proof {
            reveal_strlit("7");
            assert("7"@ =~= seq![s_digit(7)]);
        }
        "7"
    } else if d == 8 {
        proof {
            reveal_strlit("8");
            assert("8"@ =~= seq![s_digit(8)]);
        }
        "8"
    } else {
        proof {
            reveal_strlit("9");
            assert("9"@ =~= seq![s_digit(9)]);
        }
        "9"
    }
}

/// Append the decimal digits of `v` to `out`.
fn push_dec(out: &mut String, v: u32)
    ensures
        final(out)@ == old(out)@ + s_dec(v as int),
    decreases v,
{
    if v < 10 {
        out.append(digit_str(v));
        proof {
            assert(out@ =~= old(out)@ + s_dec(v as int));
        }
    } else {
        push_dec(out, v / 10);
        out.append(digit_str(v % 10));
        proof {
            assert(s_dec(v as int) == s_dec(v as int / 10).push(s_digit(v as int % 10)));
            assert(out@ =~= old(out)@ + s_dec(v as int));
        }
    }
}

/// Render a byte buffer as a plain-text PPM (P3) image: header, then one
/// line per pixel, row-major, top row first.
pub fn ppm_from_bytes(width: u32, height: u32, bytes: &Vec<u8>) -> (r: String)
    requires
        bytes@.len() == width * height * 3,
    ensures
        r@ == s_ppm(width as int, height as int, bytes@),
{
    let mut out: String = String::new();
    out.append("P3\n");
    push_dec(&mut out, width);
    out.append(" ");
    push_dec(&mut out, height);
    out.append("\n255\n");
    proof {
        assert(out@ =~= s_ppm_header(width as int, height as int));
    }

    let n: usize = bytes.len();
    if n < 3 {
        proof {
            assert(s_ppm_body(bytes@, 0) =~= Seq::<char>::empty());
            assert(out@ =~= s_ppm(width as int, height as int, bytes@));
        }
        return out;
    }
    let mut i: usize = 0;
    while i <= n - 3
        invariant
            n == bytes@.len(),
            3 <= n,
            i <= n,
            out@ + s_ppm_body(bytes@, i as int) == s_ppm(width as int, height as int, bytes@),
        decreases n - i,
    {
        let ghost before: Seq<char> = out@;
        push_dec(&mut out, bytes[i] as u32);
        out.append(" ");
        push_dec(&mut out, bytes[i + 1] as u32);
        out.append(" ");
        push_dec(&mut out, bytes[i + 2] as u32);
        out.append("\n");
        proof {
            assert(out@ =~= before + s_ppm_line(
                bytes@[i as int] as int,
                bytes@[i as int + 1] as int,
                bytes@[i as int + 2] as int,
            ));
            assert(out@ + s_ppm_body(bytes@, i as int + 3) =~= before + s_ppm_body(
                bytes@,
                i as int,
            ));
        }
        i = i + 3;
    }
    proof {
        assert(s_ppm_body(bytes@, i as int) =~= Seq::<char>::empty());
        assert(out@ =~= out@ + s_ppm_body(bytes@, i as int));
    }
    out
}

} // verus!
