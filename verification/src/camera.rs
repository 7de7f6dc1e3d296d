use vstd::prelude::*;

use crate::fixed::{fp_add, fp_add_spec, fp_mul, fp_mul_spec, FP_HALF};
use crate::ray::Ray;
use crate::vec3::{
    add_spec, cross_spec, length_squared_spec, scale_spec, sub_spec, unit_spec, Point3, Vec3,
};

verus! {

/// The immutable viewing state, computed once: the eye point and the three
/// vectors that span the viewport in world space.
#[derive(Clone, Copy, Debug, PartialEq, Eq, Structural)]
pub struct Camera {
    pub origin: Point3,
    pub lower_left_corner: Point3,
    pub horizontal: Vec3,
    pub vertical: Vec3,
}

/// What `Camera::new` computes: an orthonormal-by-construction basis from
/// the view direction and the up hint, a viewport two tangent-half-heights
/// tall and `aspect_ratio` times as wide, and the viewport's lower-left
/// corner one unit in front of the eye.
pub open spec fn camera_spec(
    lookfrom: Point3,
    lookat: Point3,
    vup: Vec3,
    tan_half_vfov: i64,
    aspect_ratio: i64,
) -> Camera {
    let viewport_height = fp_add_spec(tan_half_vfov, tan_half_vfov);
    let viewport_width = fp_mul_spec(aspect_ratio, viewport_height);
    let w = unit_spec(sub_spec(lookfrom, lookat));
    let u = unit_spec(cross_spec(vup, w));
    let v = cross_spec(w, u);
    let horizontal = scale_spec(viewport_width, u);
    let vertical = scale_spec(viewport_height, v);
    let lower_left_corner = sub_spec(
        sub_spec(sub_spec(lookfrom, scale_spec(FP_HALF, horizontal)), scale_spec(FP_HALF, vertical)),
        w,
    );
    Camera { origin: lookfrom, lower_left_corner, horizontal, vertical }
}

/// What `Camera::get_ray` returns: a ray from the eye through the viewport
/// point at fractions `(u, v)` of its width and height.
pub open spec fn get_ray_spec(c: Camera, u: i64, v: i64) -> Ray {
    Ray {
        origin: c.origin,
        direction: sub_spec(
            add_spec(
                add_spec(c.lower_left_corner, scale_spec(u, c.horizontal)),
                scale_spec(v, c.vertical),
            ),
            c.origin,
        ),
    }
}

impl Camera {
    /// Build the viewing state. The vertical field of view enters as the
    /// tangent of its half-angle on the fixed-point grid, since evaluating
    /// the tangent itself is left to the caller; the view direction and the
    /// up hint's cross with it must be long enough to normalize.
    pub fn new(
        lookfrom: Point3,
        lookat: Point3,
        vup: Vec3,
        tan_half_vfov: i64,
        aspect_ratio: i64,
    ) -> (c: Camera)
        requires
            length_squared_spec(sub_spec(lookfrom, lookat)) >= 1,
            length_squared_spec(cross_spec(vup, unit_spec(sub_spec(lookfrom, lookat)))) >= 1,
        ensures
            c == camera_spec(lookfrom, lookat, vup, tan_half_vfov, aspect_ratio),
    {
        let viewport_height = fp_add(tan_half_vfov, tan_half_vfov);
        let viewport_width = fp_mul(aspect_ratio, viewport_height);
        let w = lookfrom.sub(lookat).unit_vector();
        let u = vup.cross(w).unit_vector();
        let v = w.cross(u);
        let horizontal = u.scale(viewport_width);
        let vertical = v.scale(viewport_height);
        let lower_left_corner = lookfrom
            .sub(horizontal.scale(FP_HALF))
            .sub(vertical.scale(FP_HALF))
            .sub(w);
        Camera { origin: lookfrom, lower_left_corner, horizontal, vertical }
    }

    /// The ray from the eye through the viewport point at fractions
    /// `(u, v)`; `v` grows upward, so callers flip the image row index.
    pub fn get_ray(&self, u: i64, v: i64) -> (r: Ray)
        ensures
            r == get_ray_spec(*self, u, v),
    {
        let dir = self
            .lower_left_corner
            .add(self.horizontal.scale(u))
            .add(self.vertical.scale(v))
            .sub(self.origin);
        Ray::new(self.origin, dir)
    }
}

} // verus!
