//! The camera: maps normalized image-plane coordinates to world rays.
//!
//! A camera is built from an eye position, a look-at point, an up vector,
//! the tangent of half the vertical field of view, and the aspect ratio.
//! (The caller supplies the tangent directly: the trigonometry that turns
//! an angle into it is floating-point work that stays outside the
//! verified core.) The derived basis is recomputed eagerly on every
//! viewpoint change, so no ray is ever generated from a stale basis.

use vstd::prelude::*;

verus! {

use crate::fixed::{FX_HALF, spec_add, spec_mul};
use crate::math::{Ray, Vec3};

/// The viewpoint with its derived image-plane basis, plus the framing
/// parameters the basis was derived from.
pub struct Camera {
    origin: Vec3,
    lower_left_corner: Vec3,
    horizontal: Vec3,
    vertical: Vec3,
    look_at: Vec3,
    up: Vec3,
    half_height: i64,
    aspect_ratio: i64,
}

impl Camera {
    /// The basis vector pointing from the scene to the eye.
    pub open spec fn s_basis_w(look_from: Vec3, look_at: Vec3) -> Vec3 {
        look_from.s_sub(look_at).s_normalized()
    }

    /// The basis vector pointing right along the image plane.
    pub open spec fn s_basis_u(up: Vec3, w: Vec3) -> Vec3 {
        up.s_cross(w).s_normalized()
    }

    /// The basis vector pointing up along the image plane.
    pub open spec fn s_basis_v(w: Vec3, u: Vec3) -> Vec3 {
        w.s_cross(u)
    }

    /// The viewport height `2 * half_height`.
    pub open spec fn s_viewport_height(half_height: int) -> int {
        spec_add(half_height, half_height)
    }

    /// The viewport width `aspect * viewport_height`.
    pub open spec fn s_viewport_width(aspect_ratio: int, half_height: int) -> int {
        spec_mul(aspect_ratio, Camera::s_viewport_height(half_height))
    }

    /// The derived horizontal extent of the image plane.
    pub open spec fn s_horizontal_of(
        look_from: Vec3,
        look_at: Vec3,
        up: Vec3,
        half_height: int,
        aspect_ratio: int,
    ) -> Vec3 {
        let w: Vec3 = Camera::s_basis_w(look_from, look_at);
        Camera::s_basis_u(up, w).s_scale(Camera::s_viewport_width(aspect_ratio, half_height))
    }

    /// The derived vertical extent of the image plane.
    pub open spec fn s_vertical_of(
        look_from: Vec3,
        look_at: Vec3,
        up: Vec3,
        half_height: int,
    ) -> Vec3 {
        let w: Vec3 = Camera::s_basis_w(look_from, look_at);
        let u: Vec3 = Camera::s_basis_u(up, w);
        Camera::s_basis_v(w, u).s_scale(Camera::s_viewport_height(half_height))
    }

    /// The derived lower-left corner of the image plane:
    /// `eye - horizontal/2 - vertical/2 - w`.
    pub open spec fn s_lower_left_of(
        look_from: Vec3,
        look_at: Vec3,
        up: Vec3,
        half_height: int,
        aspect_ratio: int,
    ) -> Vec3 {
        let w: Vec3 = Camera::s_basis_w(look_from, look_at);
        let horizontal: Vec3 = Camera::s_horizontal_of(
            look_from,
            look_at,
            up,
            half_height,
            aspect_ratio,
        );
        let vertical: Vec3 = Camera::s_vertical_of(look_from, look_at, up, half_height);
        look_from.s_sub(horizontal.s_scale(FX_HALF as int)).s_sub(
            vertical.s_scale(FX_HALF as int),
        ).s_sub(w)
    }

    /// The eye position.
    pub closed spec fn s_origin(self) -> Vec3 {
        self.origin
    }

    /// The derived lower-left corner.
    pub closed spec fn s_lower_left(self) -> Vec3 {
        self.lower_left_corner
    }

    /// The derived horizontal extent.
    pub closed spec fn s_horizontal(self) -> Vec3 {
        self.horizontal
    }

    /// The derived vertical extent.
    pub closed spec fn s_vertical(self) -> Vec3 {
        self.vertical
    }

    /// The stored look-at point.
    pub closed spec fn s_look_at(self) -> Vec3 {
        self.look_at
    }

    /// The stored up vector.
    pub closed spec fn s_up(self) -> Vec3 {
        self.up
    }

    /// The stored tangent of half the vertical field of view.
    pub closed spec fn s_half_height(self) -> i64 {
        self.half_height
    }

    /// The stored aspect ratio.
    pub closed spec fn s_aspect_ratio(self) -> i64 {
        self.aspect_ratio
    }

    /// The derived basis agrees with the framing parameters: no stale
    /// basis can be observed.
    pub open spec fn s_wf(self) -> bool {
        &&& self.s_horizontal() == Camera::s_horizontal_of(
            self.s_origin(),
            self.s_look_at(),
            self.s_up(),
            self.s_half_height() as int,
            self.s_aspect_ratio() as int,
        )
        &&& self.s_vertical() == Camera::s_vertical_of(
            self.s_origin(),
            self.s_look_at(),
            self.s_up(),
            self.s_half_height() as int,
        )
        &&& self.s_lower_left() == Camera::s_lower_left_of(
            self.s_origin(),
            self.s_look_at(),
            self.s_up(),
            self.s_half_height() as int,
            self.s_aspect_ratio() as int,
        )
    }

    /// The ray for normalized image-plane coordinates `(s, t)`.
    pub open spec fn s_ray_at(self, s: int, t: int) -> Ray {
        Ray {
            origin: self.s_origin(),
            direction: self.s_lower_left().s_add(self.s_horizontal().s_scale(s)).s_add(
                self.s_vertical().s_scale(t),
            ).s_sub(self.s_origin()),
        }
    }

    /// Build a camera and derive its basis.
    pub fn new(
        look_from: Vec3,
        look_at: Vec3,
        up: Vec3,
        half_height: i64,
        aspect_ratio: i64,
    ) -> (r: Camera)
        ensures
            r.s_origin() == look_from,
            r.s_look_at() == look_at,
            r.s_up() == up,
            r.s_half_height() == half_height,
            r.s_aspect_ratio() == aspect_ratio,
            r.s_wf(),
    {
        let viewport_height: i64 = crate::fixed::fx_add(half_height, half_height);
        let viewport_width: i64 = crate::fixed::fx_mul(aspect_ratio, viewport_height);

        let w: Vec3 = look_from.sub(look_at).normalized();
        let u: Vec3 = up.cross(&w).normalized();
        let v: Vec3 = w.cross(&u);

        let horizontal: Vec3 = u.scale(viewport_width);
        let vertical: Vec3 = v.scale(viewport_height);
        let lower_left_corner: Vec3 = look_from.sub(horizontal.scale(FX_HALF)).sub(
            vertical.scale(FX_HALF),
        ).sub(w);

        Camera {
            origin: look_from,
            lower_left_corner,
            horizontal,
            vertical,
            look_at,
            up,
            half_height,
            aspect_ratio,
        }
    }

    /// The ray through image-plane coordinates `(s, t)`, both in `[0, 1]`
    /// as fixed-point scalars.
    pub fn get_ray(&self, s: i64, t: i64) -> (r: Ray)
        ensures
            r == self.s_ray_at(s as int, t as int),
    {
        Ray::new(
            self.origin,
            self.lower_left_corner.add(self.horizontal.scale(s)).add(self.vertical.scale(t)).sub(
                self.origin,
            ),
        )
    }

    /// The current eye position.
    pub fn get_position(&self) -> (r: Vec3)
        ensures
            r == self.s_origin(),
    {
        self.origin
    }

    /// Move the eye; the basis is recomputed at once, so the next ray
    /// already reflects the new viewpoint.
    pub fn set_position(&mut self, pos: Vec3)
        ensures
            final(self).s_origin() == pos,
            final(self).s_look_at() == old(self).s_look_at(),
            final(self).s_up() == old(self).s_up(),
            final(self).s_half_height() == old(self).s_half_height(),
            final(self).s_aspect_ratio() == old(self).s_aspect_ratio(),
            final(self).s_wf(),
    {
        *self = Camera::new(pos, self.look_at, self.up, self.half_height, self.aspect_ratio);
    }
}

} // verus!
