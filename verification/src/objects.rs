use vstd::prelude::*;

use crate::fixed::{
    fp_add, fp_add_spec, fp_div, fp_div_spec, fp_mul, fp_mul_spec, fp_neg, fp_neg_spec, fp_sqrt,
    fp_sqrt_spec, fp_sub, fp_sub_spec, lemma_fp_div_spec_monotone, lemma_fp_sqrt_spec_bounds,
};
use crate::hits::{face_normal_spec, HitRecord, Hittable};
use crate::material::Material;
use crate::ray::{at_spec, Ray};
use crate::vec3::{div_scalar_spec, dot_spec, sub_spec, Point3};

verus! {

/// A sphere primitive: center, radius and the material shared by its surface.
#[derive(Clone, Copy, Debug, PartialEq, Eq, Structural)]
pub struct Sphere {
    pub center: Point3,
    pub radius: i64,
    pub material: Material,
}

/// The record a sphere produces for a hit at parameter `t`: the point, the
/// normal oriented against the ray, and the sphere's material.
pub open spec fn sphere_hit_record_spec(s: Sphere, ray: Ray, t: i64) -> HitRecord {
    let p = at_spec(ray, t);
    let outward = div_scalar_spec(sub_spec(p, s.center), s.radius);
    let oriented = face_normal_spec(ray, outward);
    HitRecord {
        p,
        normal: oriented.1,
        material: s.material,
        t,
        front_face: oriented.0,
    }
}

/// What `Sphere::hit` returns: the quadratic in `t` is solved, the nearer
/// root inside `[t_min, t_max]` is preferred, and a degenerate ray direction
/// (squared length rounding to zero) never hits.
pub open spec fn sphere_hit_spec(s: Sphere, ray: Ray, t_min: i64, t_max: i64) -> Option<
    HitRecord,
> {
    let oc = sub_spec(ray.origin, s.center);
    let a = dot_spec(ray.direction, ray.direction);
    if a <= 0 {
        None
    } else {
        let half_b = dot_spec(oc, ray.direction);
        let c = fp_sub_spec(dot_spec(oc, oc), fp_mul_spec(s.radius, s.radius));
        let disc = fp_sub_spec(fp_mul_spec(half_b, half_b), fp_mul_spec(a, c));
        if disc < 0 {
            None
        } else {
            let sqrtd = fp_sqrt_spec(disc);
            let near = fp_div_spec(fp_sub_spec(fp_neg_spec(half_b), sqrtd), a);
            let far = fp_div_spec(fp_add_spec(fp_neg_spec(half_b), sqrtd), a);
            let root = if near < t_min || t_max < near {
                far
            } else {
                near
            };
            if root < t_min || t_max < root {
                None
            } else {
                Some(sphere_hit_record_spec(s, ray, root))
            }
        }
    }
}

impl Sphere {
    /// Build a sphere; a radius of at least one fixed-point step keeps the
    /// intersection math meaningful.
    pub fn new(center: Point3, radius: i64, material: Material) -> (r: Sphere)
        requires
            radius > 0,
        ensures
            r == (Sphere { center, radius, material }),
    {
        Sphere { center, radius, material }
    }
}

impl Hittable for Sphere {
    /// The radius must be positive for the intersection math to stand.
    open spec fn hit_wf(&self) -> bool {
        self.radius > 0
    }

    /// A sphere answers with the solution of its quadratic.
    open spec fn hit_model(&self, ray: Ray, t_min: i64, t_max: i64) -> Option<HitRecord> {
        sphere_hit_spec(*self, ray, t_min, t_max)
    }

    /// The nearest intersection of `ray` with this sphere at a parameter
    /// within `[t_min, t_max]`, if any.
    fn hit(&self, ray: &Ray, t_min: i64, t_max: i64) -> (r: Option<HitRecord>) {
        let oc = ray.origin.sub(self.center);
        let a = ray.direction.dot(ray.direction);
        if a <= 0 {
            return None;
        }
        let half_b = oc.dot(ray.direction);
        let c = fp_sub(oc.dot(oc), fp_mul(self.radius, self.radius));
        let disc = fp_sub(fp_mul(half_b, half_b), fp_mul(a, c));
        if disc < 0 {
            return None;
        }
        let sqrtd = fp_sqrt(disc);
        let mut root = fp_div(fp_sub(fp_neg(half_b), sqrtd), a);
        if root < t_min || t_max < root {
            root = fp_div(fp_add(fp_neg(half_b), sqrtd), a);
            if root < t_min || t_max < root {
                return None;
            }
        }
        let p = ray.at(root);
        let outward = p.sub(self.center).div_scalar(self.radius);
        let mut rec = HitRecord {
            p,
            t: root,
            normal: crate::vec3::Vec3 { x: 0, y: 0, z: 0 },
            material: self.material,
            front_face: false,
        };
        rec.set_face_normal(ray, outward);
        Some(rec)
    }
}

/// A reported hit always lies inside the queried window.
pub proof fn lemma_sphere_hit_in_window(s: Sphere, ray: Ray, t_min: i64, t_max: i64)
    requires
        sphere_hit_spec(s, ray, t_min, t_max).is_some(),
    ensures
        t_min <= sphere_hit_spec(s, ray, t_min, t_max).unwrap().t <= t_max,
{
}

/// Of the two roots of the quadratic, the one tried first never lies beyond
/// the other.
proof fn lemma_sphere_roots_ordered(s: Sphere, ray: Ray)
    requires
        ({
            let oc = sub_spec(ray.origin, s.center);
            let a = dot_spec(ray.direction, ray.direction);
            let half_b = dot_spec(oc, ray.direction);
            let c = fp_sub_spec(dot_spec(oc, oc), fp_mul_spec(s.radius, s.radius));
            let disc = fp_sub_spec(fp_mul_spec(half_b, half_b), fp_mul_spec(a, c));
            a > 0 && disc >= 0
        }),
    ensures
        ({
            let oc = sub_spec(ray.origin, s.center);
            let a = dot_spec(ray.direction, ray.direction);
            let half_b = dot_spec(oc, ray.direction);
            let c = fp_sub_spec(dot_spec(oc, oc), fp_mul_spec(s.radius, s.radius));
            let disc = fp_sub_spec(fp_mul_spec(half_b, half_b), fp_mul_spec(a, c));
            let sqrtd = fp_sqrt_spec(disc);
            fp_div_spec(fp_sub_spec(fp_neg_spec(half_b), sqrtd), a) <= fp_div_spec(
                fp_add_spec(fp_neg_spec(half_b), sqrtd),
                a,
            )
        }),
{
    let oc = sub_spec(ray.origin, s.center);
    let a = dot_spec(ray.direction, ray.direction);
    let half_b = dot_spec(oc, ray.direction);
    let c = fp_sub_spec(dot_spec(oc, oc), fp_mul_spec(s.radius, s.radius));
    let disc = fp_sub_spec(fp_mul_spec(half_b, half_b), fp_mul_spec(a, c));
    lemma_fp_sqrt_spec_bounds(disc);
    let sqrtd = fp_sqrt_spec(disc);
    lemma_fp_div_spec_monotone(
        fp_sub_spec(fp_neg_spec(half_b), sqrtd),
        fp_add_spec(fp_neg_spec(half_b), sqrtd),
        a,
    );
}

/// Growing the far end of the window never changes a reported hit: the same
/// record is reported, because a root rejected for overshooting the smaller
/// window would also have kept the nearer root out of it.
pub proof fn lemma_sphere_hit_grow(s: Sphere, ray: Ray, t_min: i64, t_mid: i64, t_max: i64)
    requires
        sphere_hit_spec(s, ray, t_min, t_mid).is_some(),
        t_mid <= t_max,
    ensures
        sphere_hit_spec(s, ray, t_min, t_max) == sphere_hit_spec(s, ray, t_min, t_mid),
{
    lemma_sphere_roots_ordered(s, ray);
}

/// Shrinking the far end of the window down to (at least) the reported hit
/// does not change the outcome: the same record is reported. The roots of
/// the quadratic do not depend on the window, only their acceptance does.
pub proof fn lemma_sphere_hit_shrink(s: Sphere, ray: Ray, t_min: i64, t_max: i64, t_mid: i64)
    requires
        sphere_hit_spec(s, ray, t_min, t_max).is_some(),
        sphere_hit_spec(s, ray, t_min, t_max).unwrap().t <= t_mid <= t_max,
    ensures
        sphere_hit_spec(s, ray, t_min, t_mid) == sphere_hit_spec(s, ray, t_min, t_max),
{
}

} // verus!
