use vstd::prelude::*;

use crate::material::Material;
use crate::objects::{sphere_hit_spec, Sphere};
use crate::ray::Ray;
use crate::vec3::{dot_spec, neg_spec, Point3, Vec3};

verus! {

/// Everything known about one ray-surface intersection. The stored normal is
/// always oriented against the incoming ray; `front_face` records whether
/// that orientation coincides with the outward geometric normal.
#[derive(Clone, Copy, Debug, PartialEq, Eq, Structural)]
pub struct HitRecord {
    pub p: Point3,
    pub normal: Vec3,
    pub material: Material,
    pub t: i64,
    pub front_face: bool,
}

/// The orientation rule: `front_face` is true exactly when the ray runs
/// against the outward normal, and the stored normal is flipped otherwise.
pub open spec fn face_normal_spec(ray: Ray, outward_normal: Vec3) -> (bool, Vec3) {
    let ff = dot_spec(ray.direction, outward_normal) < 0;
    (ff, if ff {
        outward_normal
    } else {
        neg_spec(outward_normal)
    })
}

impl HitRecord {
    /// Store the outward normal oriented against the ray, and remember on
    /// which side the ray arrived.
    pub fn set_face_normal(&mut self, ray: &Ray, outward_normal: Vec3)
        ensures
            final(self).front_face == face_normal_spec(*ray, outward_normal).0,
            final(self).normal == face_normal_spec(*ray, outward_normal).1,
            final(self).p == old(self).p,
            final(self).t == old(self).t,
            final(self).material == old(self).material,
    {
        self.front_face = ray.direction.dot(outward_normal) < 0;
        self.normal = if self.front_face {
            outward_normal
        } else {
            outward_normal.neg()
        };
    }
}

/// The capability every piece of geometry offers: intersect a ray over a
/// parameter window. An implementor gives its own well-formedness condition
/// and its own mathematical model of the answer, and its executable `hit`
/// must return exactly that model.
pub trait Hittable {
    /// What the implementor needs of itself before it can intersect.
    spec fn hit_wf(&self) -> bool;

    /// The intersection the implementor promises to report.
    spec fn hit_model(&self, ray: Ray, t_min: i64, t_max: i64) -> Option<HitRecord>;

    /// The nearest intersection of `ray` at a parameter within
    /// `[t_min, t_max]`, if any.
    fn hit(&self, ray: &Ray, t_min: i64, t_max: i64) -> (r: Option<HitRecord>)
        requires
            self.hit_wf(),
        ensures
            r == self.hit_model(*ray, t_min, t_max),
    ;
}

/// The geometry collection: an insertion-ordered sequence of spheres whose
/// `hit` reports the nearest intersection over all members.
pub struct HittableList {
    pub objects: Vec<Sphere>,
}

/// Every member must carry a positive radius for its intersection math to
/// stand.
pub open spec fn list_wf(s: Seq<Sphere>) -> bool {
    forall|k: int| 0 <= k < s.len() ==> #[trigger] s[k].radius > 0
}

/// The fold the collection's `hit` performs from member `i` on: `closest`
/// is the current far end of the window and `best` the record it belongs to.
pub open spec fn list_hit_from(
    s: Seq<Sphere>,
    i: int,
    ray: Ray,
    t_min: i64,
    closest: i64,
    best: Option<HitRecord>,
) -> Option<HitRecord>
    decreases s.len() - i,
{
    if i < 0 || i >= s.len() {
        best
    } else {
        match sphere_hit_spec(s[i], ray, t_min, closest) {
            Some(h) => list_hit_from(s, i + 1, ray, t_min, h.t, Some(h)),
            None => list_hit_from(s, i + 1, ray, t_min, closest, best),
        }
    }
}

/// What `HittableList::hit` returns: the fold over all members, starting
/// with an empty best record and the full window.
pub open spec fn list_hit_spec(s: Seq<Sphere>, ray: Ray, t_min: i64, t_max: i64) -> Option<
    HitRecord,
> {
    list_hit_from(s, 0, ray, t_min, t_max, None)
}

impl HittableList {
    /// An empty collection.
    pub fn new() -> (r: Self)
        ensures
            r.objects@ =~= Seq::<Sphere>::empty(),
    {
        Self { objects: Vec::new() }
    }

    /// Append a sphere. The parameter of the hit that `hit` reports never
    /// depends on insertion order; on an exact tie in the parameter, which
    /// member's record carries it can.
    pub fn add(&mut self, object: Sphere)
        ensures
            final(self).objects@ =~= old(self).objects@.push(object),
    {
        self.objects.push(object);
    }

    /// Remove every member.
    pub fn clear(&mut self)
        ensures
            final(self).objects@ =~= Seq::<Sphere>::empty(),
    {
        self.objects.clear();
    }
}

impl Hittable for HittableList {
    /// Every member must be able to intersect on its own.
    open spec fn hit_wf(&self) -> bool {
        list_wf(self.objects@)
    }

    /// The collection answers with the fold over its members.
    open spec fn hit_model(&self, ray: Ray, t_min: i64, t_max: i64) -> Option<HitRecord> {
        list_hit_spec(self.objects@, ray, t_min, t_max)
    }

    /// The nearest intersection of `ray` over all members at a parameter
    /// within `[t_min, t_max]`, if any.
    fn hit(&self, ray: &Ray, t_min: i64, t_max: i64) -> (r: Option<HitRecord>) {
        let mut closest_so_far = t_max;
        let mut hit_anything: Option<HitRecord> = None;
        let n = self.objects.len();
        let mut k: usize = 0;
        while k < n
            invariant
                k <= n,
                n == self.objects@.len(),
                list_wf(self.objects@),
                match hit_anything {
                    Some(h) => h.t == closest_so_far,
                    None => closest_so_far == t_max,
                },
                list_hit_from(self.objects@, k as int, *ray, t_min, closest_so_far, hit_anything)
                    == list_hit_spec(self.objects@, *ray, t_min, t_max),
            decreases n - k,
        {
            let obj = self.objects[k];
            match obj.hit(ray, t_min, closest_so_far) {
                Some(h) => {
                    closest_so_far = h.t;
                    hit_anything = Some(h);
                },
                None => {},
            }
            k = k + 1;
        }
        hit_anything
    }
}

/// Through the whole fold, the window never grows, a best record is never
/// dropped, and the reported parameter stays inside the window.
proof fn lemma_list_hit_from_window(
    s: Seq<Sphere>,
    i: int,
    ray: Ray,
    t_min: i64,
    closest: i64,
    best: Option<HitRecord>,
)
    requires
        match best {
            Some(b) => b.t == closest,
            None => true,
        },
    ensures
        ({
            let r = list_hit_from(s, i, ray, t_min, closest, best);
            &&& (best.is_some() ==> r.is_some())
            &&& (r.is_some() ==> r.unwrap().t <= closest)
        }),
    decreases s.len() - i,
{
    if 0 <= i < s.len() {
        match sphere_hit_spec(s[i], ray, t_min, closest) {
            Some(h) => {
                crate::objects::lemma_sphere_hit_in_window(s[i], ray, t_min, closest);
                lemma_list_hit_from_window(s, i + 1, ray, t_min, h.t, Some(h));
            },
            None => {
                lemma_list_hit_from_window(s, i + 1, ray, t_min, closest, best);
            },
        }
    }
}

/// From any point of the fold on: if a later member hits within the current
/// window, the fold's answer is a hit no farther than that member's.
proof fn lemma_list_hit_from_nearest(
    s: Seq<Sphere>,
    i: int,
    ray: Ray,
    t_min: i64,
    closest: i64,
    best: Option<HitRecord>,
    k: int,
)
    requires
        0 <= i <= k < s.len(),
        match best {
            Some(b) => b.t == closest,
            None => true,
        },
        sphere_hit_spec(s[k], ray, t_min, closest).is_some(),
    ensures
        ({
            let r = list_hit_from(s, i, ray, t_min, closest, best);
            &&& r.is_some()
            &&& r.unwrap().t <= sphere_hit_spec(s[k], ray, t_min, closest).unwrap().t
        }),
    decreases k - i,
{
    let h = sphere_hit_spec(s[k], ray, t_min, closest).unwrap();
    crate::objects::lemma_sphere_hit_in_window(s[k], ray, t_min, closest);
    if i == k {
        lemma_list_hit_from_window(s, i + 1, ray, t_min, h.t, Some(h));
    } else {
        match sphere_hit_spec(s[i], ray, t_min, closest) {
            Some(g) => {
                crate::objects::lemma_sphere_hit_in_window(s[i], ray, t_min, closest);
                if h.t <= g.t {
                    crate::objects::lemma_sphere_hit_shrink(s[k], ray, t_min, closest, g.t);
                    lemma_list_hit_from_nearest(s, i + 1, ray, t_min, g.t, Some(g), k);
                } else {
                    lemma_list_hit_from_window(s, i + 1, ray, t_min, g.t, Some(g));
                }
            },
            None => {
                lemma_list_hit_from_nearest(s, i + 1, ray, t_min, closest, best, k);
            },
        }
    }
}

/// From any point of the fold on: whatever record comes out, some member
/// already hits within the full window at a parameter no larger than it.
proof fn lemma_list_hit_from_member(
    s: Seq<Sphere>,
    i: int,
    ray: Ray,
    t_min: i64,
    closest: i64,
    best: Option<HitRecord>,
    t_full: i64,
)
    requires
        closest <= t_full,
        match best {
            Some(b) => b.t == closest && exists|k: int|
                0 <= k < s.len() && #[trigger] sphere_hit_spec(s[k], ray, t_min, t_full).is_some()
                    && sphere_hit_spec(s[k], ray, t_min, t_full).unwrap().t <= b.t,
            None => true,
        },
    ensures
        ({
            let r = list_hit_from(s, i, ray, t_min, closest, best);
            r.is_some() ==> exists|k: int|
                0 <= k < s.len() && #[trigger] sphere_hit_spec(s[k], ray, t_min, t_full).is_some()
                    && sphere_hit_spec(s[k], ray, t_min, t_full).unwrap().t <= r.unwrap().t
        }),
    decreases s.len() - i,
{
    if 0 <= i < s.len() {
        match sphere_hit_spec(s[i], ray, t_min, closest) {
            Some(h) => {
                crate::objects::lemma_sphere_hit_in_window(s[i], ray, t_min, closest);
                crate::objects::lemma_sphere_hit_grow(s[i], ray, t_min, closest, t_full);
                assert(sphere_hit_spec(s[i], ray, t_min, t_full).is_some()
                    && sphere_hit_spec(s[i], ray, t_min, t_full).unwrap().t <= h.t);
                lemma_list_hit_from_member(s, i + 1, ray, t_min, h.t, Some(h), t_full);
            },
            None => {
                lemma_list_hit_from_member(s, i + 1, ray, t_min, closest, best, t_full);
            },
        }
    }
}

/// Nearest-hit law: whenever some member sphere hits the ray within the
/// window, the collection reports a hit whose parameter is no larger than
/// that member's — whatever the member's place in the insertion order.
pub proof fn lemma_list_hit_nearest(s: Seq<Sphere>, ray: Ray, t_min: i64, t_max: i64, k: int)
    requires
        0 <= k < s.len(),
        sphere_hit_spec(s[k], ray, t_min, t_max).is_some(),
    ensures
        list_hit_spec(s, ray, t_min, t_max).is_some(),
        list_hit_spec(s, ray, t_min, t_max).unwrap().t <= sphere_hit_spec(
            s[k],
            ray,
            t_min,
            t_max,
        ).unwrap().t,
{
    lemma_list_hit_from_nearest(s, 0, ray, t_min, t_max, None, k);
}

/// Companion to the nearest-hit law: the collection never invents a hit.
/// Whatever record it reports, some member hits the ray within the same
/// window at exactly the reported parameter.
pub proof fn lemma_list_hit_comes_from_a_member(s: Seq<Sphere>, ray: Ray, t_min: i64, t_max: i64)
    requires
        list_hit_spec(s, ray, t_min, t_max).is_some(),
    ensures
        exists|k: int|
            0 <= k < s.len() && #[trigger] sphere_hit_spec(s[k], ray, t_min, t_max).is_some()
                && sphere_hit_spec(s[k], ray, t_min, t_max).unwrap().t == list_hit_spec(
                s,
                ray,
                t_min,
                t_max,
            ).unwrap().t,
{
    lemma_list_hit_from_member(s, 0, ray, t_min, t_max, None, t_max);
    let rf = list_hit_spec(s, ray, t_min, t_max).unwrap();
    let k = choose|k: int|
        0 <= k < s.len() && #[trigger] sphere_hit_spec(s[k], ray, t_min, t_max).is_some()
            && sphere_hit_spec(s[k], ray, t_min, t_max).unwrap().t <= rf.t;
    lemma_list_hit_nearest(s, ray, t_min, t_max, k);
    assert(sphere_hit_spec(s[k], ray, t_min, t_max).unwrap().t == rf.t);
}

} // verus!
