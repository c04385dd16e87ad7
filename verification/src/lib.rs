use vstd::prelude::*;

pub mod camera;
pub mod color;
pub mod fixed;
pub mod hit;
pub mod material;
pub mod object;
pub mod ray;
pub mod render;
pub mod rng;
pub mod vec;

verus! {

use crate::vec::{in_range, within};
use crate::hit::{HitRecord, wf_hit};
use crate::object::Sphere;
use crate::ray::Ray;

/// Number of fixed-point units per whole scene unit: every scalar in this
/// crate is an integer count of 1/65536ths.
pub const SCALE: i64 = 65536;

/// Magnitude bound on the components of a ray direction.
pub const MAX_DIR: i64 = 0x20_0000;

/// Magnitude bound on scene coordinates: sphere centers, radii, and the
/// camera's position.
pub const MAX_POS: i64 = 0x1000_0000;

/// Magnitude bound on a ray origin after any number of allowed bounces.
pub const MAX_ORIG: i64 = 0x10_0000_0000;

/// Largest ray parameter a scene query may use; stands in for infinity.
/// An adjustable horizon, not a machine limit: geometry farther than
/// this many grid units along a ray (256 scene units, with unit-length
/// directions) renders as background.
pub const T_MAX: i64 = 0x100_0000;

/// How far (per component) one bounce can carry a ray origin: the value
/// is `T_MAX / SCALE * MAX_DIR`.
pub const BOUNCE_STEP: i64 = 0x2000_0000;

/// Bound on the recursion budget handed to the shader.
pub const DEPTH_LIMIT: usize = 64;

/// Least ray parameter accepted when shading, so that a scattered ray
/// cannot re-hit its own origin (shadow acne); about 0.001 scene units.
pub const ACNE_EPSILON: i64 = 64;

/// A vector whose components are all below this count of grid units is
/// treated as the zero vector.
pub const NEAR_ZERO_EPS: i64 = 1;

/// Magnitude bound on the components of a surface normal, one power of
/// two above unit length to absorb grid rounding.
pub const NORMAL_BOUND: i64 = SCALE * 2;

/// Magnitude bound on vector components accepted by the general vector
/// operations (dot product, normalization, scaling).
pub const VEC_OP_BOUND: i64 = 0x4000_0000;

/// The scene: an ordered, append-only collection of spheres, scanned
/// for the nearest intersection along a ray.
pub struct World {
    pub objects: Vec<Sphere>,
}

impl World {
    /// Every owned sphere is well formed.
    pub open spec fn wf(&self) -> bool {
        forall|i: int| 0 <= i < self.objects@.len() ==> (#[trigger] self.objects@[i]).wf()
    }

    /// One step at a time down the sphere list, keeping the best hit
    /// found so far and shrinking the accepted interval to its
    /// parameter, so that on an equal parameter the earlier sphere wins.
    pub open spec fn spec_scan(
        objs: Seq<Sphere>,
        ray: Ray,
        t_min: int,
        closest: int,
        best: Option<HitRecord>,
    ) -> Option<HitRecord>
        decreases objs.len(),
    {
        if objs.len() == 0 {
            best
        } else {
            match objs[0].spec_hit(ray, t_min, closest) {
                Some(rec) => World::spec_scan(objs.subrange(1, objs.len() as int), ray, t_min,
                    rec.t as int, Some(rec)),
                None => World::spec_scan(objs.subrange(1, objs.len() as int), ray, t_min,
                    closest, best),
            }
        }
    }

    /// The nearest valid intersection the scan settles on.
    pub open spec fn spec_hit(objs: Seq<Sphere>, ray: Ray, t_min: int, t_max: int) -> Option<
        HitRecord,
    > {
        World::spec_scan(objs, ray, t_min, t_max, None)
    }

    /// A scan that already carries a hit never comes back empty.
    proof fn lemma_scan_keeps_some(
        objs: Seq<Sphere>,
        ray: Ray,
        t_min: int,
        closest: int,
        rec: HitRecord,
    )
        ensures
            World::spec_scan(objs, ray, t_min, closest, Some(rec)) is Some,
        decreases objs.len(),
    {
        if objs.len() > 0 {
            match objs[0].spec_hit(ray, t_min, closest) {
                Some(rec2) => {
                    World::lemma_scan_keeps_some(objs.subrange(1, objs.len() as int), ray,
                        t_min, rec2.t as int, rec2);
                },
                None => {
                    World::lemma_scan_keeps_some(objs.subrange(1, objs.len() as int), ray,
                        t_min, closest, rec);
                },
            }
        }
    }

    /// A scan that comes back empty met no sphere at all: every member
    /// misses the ray on the whole interval.
    pub proof fn lemma_miss_everywhere(objs: Seq<Sphere>, ray: Ray, t_min: int, t_max: int)
        requires
            World::spec_hit(objs, ray, t_min, t_max) is None,
        ensures
            forall|k: int|
                0 <= k < objs.len() ==> (#[trigger] objs[k].spec_hit(ray, t_min, t_max))
                    is None,
        decreases objs.len(),
    {
        if objs.len() > 0 {
            let tail = objs.subrange(1, objs.len() as int);
            match objs[0].spec_hit(ray, t_min, t_max) {
                Some(rec) => {
                    World::lemma_scan_keeps_some(tail, ray, t_min, rec.t as int, rec);
                    assert(false);
                },
                None => {
                    World::lemma_miss_everywhere(tail, ray, t_min, t_max);
                    assert(forall|k: int|
                        1 <= k < objs.len() ==> objs[k] == tail[k - 1]);
                },
            }
        }
    }

    /// Over two overlapping spheres that a ray both meets, the scene
    /// settles on the intersection with the smaller parameter; on an
    /// equal parameter the sphere appended first wins.
    pub proof fn lemma_nearest_of_two(
        first: Sphere,
        second: Sphere,
        ray: Ray,
        t_min: int,
        t_max: int,
        ra: HitRecord,
        rb: HitRecord,
    )
        requires
            -0x8000_0000_0000_0000 <= t_min,
            t_max <= 0x7fff_ffff_ffff_ffff,
            first.spec_hit(ray, t_min, t_max) == Some(ra),
            second.spec_hit(ray, t_min, t_max) == Some(rb),
        ensures
            match World::spec_hit(seq![first, second], ray, t_min, t_max) {
                Some(w) => w.t <= ra.t && w.t <= rb.t,
                None => false,
            },
    {
        let objs = seq![first, second];
        assert(objs[0] == first);
        let tail = objs.subrange(1, 2);
        assert(tail[0] == second);
        assert(tail.subrange(1, 1) =~= Seq::<Sphere>::empty());
        first.lemma_hit_in_interval(ray, t_min, t_max);
        second.lemma_hit_cap_mono(ray, t_min, ra.t as int, t_max);
        second.lemma_hit_in_interval(ray, t_min, ra.t as int);
        assert(tail.subrange(1, tail.len() as int) =~= Seq::<Sphere>::empty());
        match second.spec_hit(ray, t_min, ra.t as int) {
            Some(rb2) => {
                assert(rb2 == rb);
                assert(World::spec_scan(Seq::<Sphere>::empty(), ray, t_min, rb2.t as int, Some(
                    rb2,
                )) == Some(rb2));
                assert(World::spec_scan(tail, ray, t_min, ra.t as int, Some(ra)) == Some(rb2));
            },
            None => {
                assert(rb.t >= ra.t);
                assert(World::spec_scan(Seq::<Sphere>::empty(), ray, t_min, ra.t as int, Some(
                    ra,
                )) == Some(ra));
                assert(World::spec_scan(tail, ray, t_min, ra.t as int, Some(ra)) == Some(ra));
            },
        }
    }

    /// An empty scene.
    pub fn new() -> (w: World)
        ensures
            w.objects@.len() == 0,
            w.wf(),
    {
        World { objects: Vec::new() }
    }

    /// Appends one sphere to the scene.
    pub fn push(&mut self, s: Sphere)
        requires
            s.wf(),
            old(self).wf(),
        ensures
            final(self).objects@ == old(self).objects@.push(s),
            final(self).wf(),
    {
        self.objects.push(s);
    }

    /// The nearest intersection along the ray with a parameter in the
    /// open interval `(t_min, t_max)`, scanning every sphere and keeping
    /// the closest hit found so far; `None` when nothing is struck. On
    /// an equal parameter the earlier sphere wins.
    pub fn hit(&self, ray: &Ray, t_min: i64, t_max: i64) -> (r: Option<HitRecord>)
        requires
            self.wf(),
            in_range(ray.origin, MAX_ORIG as int),
            in_range(ray.direction, MAX_DIR as int),
            0 <= t_min,
            t_max <= T_MAX,
        ensures
            r == World::spec_hit(self.objects@, *ray, t_min as int, t_max as int),
            match r {
                Some(rec) => {
                    &&& t_min < rec.t < t_max
                    &&& within(rec.hit_point, ray.origin, BOUNCE_STEP as int)
                    &&& wf_hit(rec)
                    &&& rec.material.valid()
                },
                None => true,
            },
    {
        let mut best: Option<HitRecord> = None;
        let mut closest: i64 = t_max;
        let mut i: usize = 0;
        proof {
            assert(self.objects@.subrange(0, self.objects@.len() as int) =~= self.objects@);
        }
        while i < self.objects.len()
            invariant
                self.wf(),
                in_range(ray.origin, MAX_ORIG as int),
                in_range(ray.direction, MAX_DIR as int),
                0 <= t_min,
                t_max <= T_MAX,
                closest <= t_max,
                i <= self.objects@.len(),
                World::spec_scan(self.objects@.subrange(i as int, self.objects@.len() as int),
                    *ray, t_min as int, closest as int, best) == World::spec_hit(
                    self.objects@, *ray, t_min as int, t_max as int),
                match best {
                    Some(rec) => {
                        &&& t_min < rec.t < t_max
                        &&& rec.t == closest
                        &&& within(rec.hit_point, ray.origin, BOUNCE_STEP as int)
                        &&& wf_hit(rec)
                        &&& rec.material.valid()
                    },
                    None => closest == t_max,
                },
            decreases self.objects@.len() - i,
        {
            let ghost len = self.objects@.len() as int;
            let ghost rest = self.objects@.subrange(i as int, len);
            let sphere = &self.objects[i];
            proof {
                assert(rest[0] == self.objects@[i as int]);
                assert(rest.subrange(1, rest.len() as int) =~= self.objects@.subrange(
                    i as int + 1, len));
            }
            match sphere.hit(ray, t_min, closest) {
                Some(rec) => {
                    closest = rec.t;
                    best = Some(rec);
                },
                None => (),
            }
            i = i + 1;
        }
        best
    }
}

} // verus!
