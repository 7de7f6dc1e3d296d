use vstd::prelude::*;

use crate::hits::HitRecord;
use crate::ray::Ray;
use crate::vec3::{
    add_spec, dot_spec, length_squared_spec, near_zero_spec, reflect_spec, scale_spec, unit_spec,
    Color, Vec3,
};
use crate::fixed::FP_ONE;

verus! {

/// A diffuse surface: scatters into a random direction biased along the
/// normal and never absorbs. That it never absorbs is a deliberate
/// simplification of the physical model and is preserved as such.
#[derive(Clone, Copy, Debug, PartialEq, Eq, Structural)]
pub struct Lambertian {
    pub albedo: Color,
}

/// A specular surface with a roughness (`fuzz`) that perturbs the mirror
/// direction; absorbs rays whose perturbed direction dips below the surface.
#[derive(Clone, Copy, Debug, PartialEq, Eq, Structural)]
pub struct Metal {
    pub albedo: Color,
    pub fuzz: i64,
}

/// The closed set of material capabilities: a tagged union in place of
/// virtual dispatch, with the same `scatter` contract for each variant.
#[derive(Clone, Copy, Debug, PartialEq, Eq, Structural)]
pub enum Material {
    Lambertian(Lambertian),
    Metal(Metal),
}

/// The diffuse scatter direction: the normal plus a random unit vector,
/// falling back to the bare normal when the two cancel to (nearly) zero.
pub open spec fn lambertian_dir_spec(normal: Vec3, rand_unit: Vec3) -> Vec3 {
    let d = add_spec(normal, rand_unit);
    if near_zero_spec(d) {
        normal
    } else {
        d
    }
}

/// What `Lambertian::scatter` returns: always a scattered ray from the hit
/// point, attenuated by the albedo.
pub open spec fn lambertian_scatter_spec(
    m: Lambertian,
    hit: HitRecord,
    rand_unit: Vec3,
) -> Option<(Color, Ray)> {
    Some((m.albedo, Ray { origin: hit.p, direction: lambertian_dir_spec(hit.normal, rand_unit) }))
}

/// What `Metal::scatter` returns: the incoming unit direction mirrored about
/// the normal and fuzzed; absorbed when the result points into the surface.
pub open spec fn metal_scatter_spec(
    m: Metal,
    ray_in: Ray,
    hit: HitRecord,
    rand_in_sphere: Vec3,
) -> Option<(Color, Ray)> {
    let reflected = reflect_spec(unit_spec(ray_in.direction), hit.normal);
    let dir = add_spec(reflected, scale_spec(m.fuzz, rand_in_sphere));
    if dot_spec(dir, hit.normal) > 0 {
        Some((m.albedo, Ray { origin: hit.p, direction: dir }))
    } else {
        None
    }
}

/// What `Material::scatter` returns for each variant; the caller supplies one
/// random sample from the unit ball, which the diffuse case normalizes.
pub open spec fn material_scatter_spec(
    m: Material,
    ray_in: Ray,
    hit: HitRecord,
    rand_in_sphere: Vec3,
) -> Option<(Color, Ray)> {
    match m {
        Material::Lambertian(l) => lambertian_scatter_spec(l, hit, unit_spec(rand_in_sphere)),
        Material::Metal(mm) => metal_scatter_spec(mm, ray_in, hit, rand_in_sphere),
    }
}

impl Lambertian {
    /// Build a diffuse material from its albedo.
    pub fn new(albedo: Color) -> (r: Self)
        ensures
            r == (Lambertian { albedo }),
    {
        Self { albedo }
    }

    /// Scatter an incoming ray at `hit`, given one random unit vector.
    pub fn scatter(&self, hit: &HitRecord, rand_unit: Vec3) -> (r: Option<(Color, Ray)>)
        ensures
            r == lambertian_scatter_spec(*self, *hit, rand_unit),
    {
        let mut scatter_direction = hit.normal.add(rand_unit);
        if scatter_direction.near_zero() {
            scatter_direction = hit.normal;
        }
        Some((self.albedo, Ray::new(hit.p, scatter_direction)))
    }
}

impl Metal {
    /// Build a specular material; roughness is clamped at one from above
    /// (values below zero pass through unchanged, as given).
    pub fn new(albedo: Color, fuzz: i64) -> (r: Self)
        ensures
            r.albedo == albedo,
            r.fuzz == if fuzz < FP_ONE { fuzz } else { FP_ONE },
    {
        Self { albedo, fuzz: if fuzz < FP_ONE { fuzz } else { FP_ONE } }
    }

    /// Scatter an incoming ray at `hit`, given one random point of the unit
    /// ball to fuzz the mirror direction with.
    pub fn scatter(&self, ray_in: &Ray, hit: &HitRecord, rand_in_sphere: Vec3) -> (r: Option<
        (Color, Ray),
    >)
        requires
            length_squared_spec(ray_in.direction) >= 1,
        ensures
            r == metal_scatter_spec(*self, *ray_in, *hit, rand_in_sphere),
    {
        let reflected = ray_in.direction.unit_vector().reflect(hit.normal);
        let dir = reflected.add(rand_in_sphere.scale(self.fuzz));
        if dir.dot(hit.normal) > 0 {
            Some((self.albedo, Ray::new(hit.p, dir)))
        } else {
            None
        }
    }
}

impl Material {
    /// Scatter an incoming ray at `hit`; `rand_in_sphere` is one random
    /// sample of the unit ball, long enough to normalize.
    pub fn scatter(&self, ray_in: &Ray, hit: &HitRecord, rand_in_sphere: Vec3) -> (r: Option<
        (Color, Ray),
    >)
        requires
            length_squared_spec(ray_in.direction) >= 1,
            length_squared_spec(rand_in_sphere) >= 1,
        ensures
            r == material_scatter_spec(*self, *ray_in, *hit, rand_in_sphere),
    {
        match self {
            Material::Lambertian(l) => l.scatter(hit, rand_in_sphere.unit_vector()),
            Material::Metal(m) => m.scatter(ray_in, hit, rand_in_sphere),
        }
    }
}

} // verus!
