use vstd::prelude::*;

verus! {

use crate::{SCALE, MAX_DIR, MAX_POS, MAX_ORIG, T_MAX, BOUNCE_STEP, NORMAL_BOUND};
use crate::fixed::{tdiv, sqrt_floor, lemma_sqrt_floor_bounds, lemma_mul_bound, lemma_tdiv_bound,
    lemma_tdiv_mono, div64, div128, isqrt};
use crate::vec::{Vec3D, Point3D, in_range, within, dot3};
use crate::hit::{HitRecord, wf_hit};
use crate::material::Material;
use crate::ray::Ray;

/// A sphere: the one surface of the scene, owning its material.
#[derive(Clone, Copy, PartialEq, Eq, Structural, Debug)]
pub struct Sphere {
    pub center: Point3D,
    pub radius: i64,
    pub material: Material,
}

impl Sphere {
    /// The sphere's own invariant: a bounded center, a positive bounded
    /// radius, and a well-formed material.
    pub open spec fn wf(self) -> bool {
        &&& in_range(self.center, MAX_POS as int)
        &&& 0 < self.radius <= MAX_POS
        &&& self.material.valid()
    }

    /// A sphere with the given center, radius and material.
    pub fn new(center: Point3D, radius: i64, material: Material) -> (s: Sphere)
        requires
            in_range(center, MAX_POS as int),
            0 < radius <= MAX_POS,
            material.valid(),
        ensures
            s.center == center,
            s.radius == radius,
            s.material == material,
            s.wf(),
    {
        Sphere { center, radius, material }
    }

    /// Discriminant of the quadratic that a ray's parametric form makes
    /// with the sphere's implicit equation, in the half-b form; it is
    /// negative exactly when the ray's line misses the sphere.
    pub open spec fn spec_discriminant(self, ray: Ray) -> int {
        let ocx = ray.origin.x - self.center.x;
        let ocy = ray.origin.y - self.center.y;
        let ocz = ray.origin.z - self.center.z;
        let a = dot3(ray.direction, ray.direction);
        let half_b = ocx * ray.direction.x + ocy * ray.direction.y + ocz * ray.direction.z;
        let c = ocx * ocx + ocy * ocy + ocz * ocz - self.radius * self.radius;
        half_b * half_b - a * c
    }

    /// The rounded ray parameter the quadratic selects: the smaller root
    /// if it lies in the open interval `(t_min, t_max)`, else the larger,
    /// else none. A zero direction or a negative discriminant is a miss.
    pub open spec fn spec_root(self, ray: Ray, t_min: int, t_max: int) -> Option<int> {
        let a = dot3(ray.direction, ray.direction);
        if a == 0 {
            None
        } else {
            let disc = self.spec_discriminant(ray);
            if disc < 0 {
                None
            } else {
                let hb = (ray.origin.x - self.center.x) * ray.direction.x + (ray.origin.y
                    - self.center.y) * ray.direction.y + (ray.origin.z - self.center.z)
                    * ray.direction.z;
                let sd = sqrt_floor(disc as nat) as int;
                let root1 = tdiv((-hb - sd) * SCALE, a);
                if t_min < root1 < t_max {
                    Some(root1)
                } else {
                    let root2 = tdiv((-hb + sd) * SCALE, a);
                    if t_min < root2 < t_max {
                        Some(root2)
                    } else {
                        None
                    }
                }
            }
        }
    }

    /// The record built at parameter `t`: the point on the ray there,
    /// the radial direction scaled by the inverse radius and oriented
    /// against the incoming ray, and which side was struck. A computed
    /// radial direction outside the rounding box is a degenerate miss.
    pub open spec fn spec_record(self, ray: Ray, t: int) -> Option<HitRecord> {
        let hx = ray.origin.x + tdiv(t * ray.direction.x, SCALE as int);
        let hy = ray.origin.y + tdiv(t * ray.direction.y, SCALE as int);
        let hz = ray.origin.z + tdiv(t * ray.direction.z, SCALE as int);
        let nx = tdiv((hx - self.center.x) * SCALE, self.radius as int);
        let ny = tdiv((hy - self.center.y) * SCALE, self.radius as int);
        let nz = tdiv((hz - self.center.z) * SCALE, self.radius as int);
        if -NORMAL_BOUND <= nx <= NORMAL_BOUND && -NORMAL_BOUND <= ny <= NORMAL_BOUND
            && -NORMAL_BOUND <= nz <= NORMAL_BOUND {
            let outward = Vec3D { x: nx as i64, y: ny as i64, z: nz as i64 };
            let front = dot3(ray.direction, outward) < 0;
            let normal = if front {
                outward
            } else {
                Vec3D { x: (-nx) as i64, y: (-ny) as i64, z: (-nz) as i64 }
            };
            Some(
                HitRecord {
                    hit_point: Vec3D { x: hx as i64, y: hy as i64, z: hz as i64 },
                    normal,
                    t: t as i64,
                    front_face: front,
                    material: self.material,
                },
            )
        } else {
            None
        }
    }

    /// The full result of intersecting the ray with this sphere.
    pub open spec fn spec_hit(self, ray: Ray, t_min: int, t_max: int) -> Option<HitRecord> {
        match self.spec_root(ray, t_min, t_max) {
            None => None,
            Some(t) => self.spec_record(ray, t),
        }
    }

    /// A returned intersection's parameter lies strictly inside the
    /// queried interval.
    pub proof fn lemma_hit_in_interval(self, ray: Ray, t_min: int, t_max: int)
        requires
            -0x8000_0000_0000_0000 <= t_min,
            t_max <= 0x7fff_ffff_ffff_ffff,
        ensures
            match self.spec_hit(ray, t_min, t_max) {
                Some(rec) => t_min < rec.t < t_max,
                None => true,
            },
    {
    }

    /// Narrowing the far end of the interval cannot change which
    /// intersection is found, only lose it: a hit that survives the
    /// narrower query is the same record, and a hit lost to it has a
    /// parameter at or beyond the narrower cap.
    pub proof fn lemma_hit_cap_mono(self, ray: Ray, t_min: int, a: int, b: int)
        requires
            a <= b,
            -0x8000_0000_0000_0000 <= t_min,
            b <= 0x7fff_ffff_ffff_ffff,
        ensures
            match (self.spec_hit(ray, t_min, a), self.spec_hit(ray, t_min, b)) {
                (Some(ra), Some(rb)) => ra == rb,
                (None, Some(rb)) => rb.t >= a,
                _ => true,
            },
    {
        let av = dot3(ray.direction, ray.direction);
        let disc = self.spec_discriminant(ray);
        if av != 0 && disc >= 0 {
            assert(ray.direction.x * ray.direction.x >= 0) by (nonlinear_arith);
            assert(ray.direction.y * ray.direction.y >= 0) by (nonlinear_arith);
            assert(ray.direction.z * ray.direction.z >= 0) by (nonlinear_arith);
            assert(av > 0);
            let hb0 = (ray.origin.x - self.center.x) * ray.direction.x + (ray.origin.y
                - self.center.y) * ray.direction.y + (ray.origin.z - self.center.z)
                * ray.direction.z;
            let sd = sqrt_floor(disc as nat) as int;
            assert((-hb0 - sd) * SCALE <= (-hb0 + sd) * SCALE) by (nonlinear_arith)
                requires
                    sd >= 0,
                    0 <= SCALE,
            ;
            lemma_tdiv_mono((-hb0 - sd) * SCALE, (-hb0 + sd) * SCALE, av);
        }
    }

    /// Nearest intersection of the ray with this sphere whose parameter
    /// lies in the open interval `(t_min, t_max)`, the smaller root
    /// tried first. A line that misses the sphere, a root outside the
    /// interval, and a root whose computed normal leaves the unit box by
    /// more than rounding allows, are all misses.
    pub fn hit(&self, ray: &Ray, t_min: i64, t_max: i64) -> (r: Option<HitRecord>)
        requires
            self.wf(),
            in_range(ray.origin, MAX_ORIG as int),
            in_range(ray.direction, MAX_DIR as int),
            0 <= t_min,
            t_max <= T_MAX,
        ensures
            r == self.spec_hit(*ray, t_min as int, t_max as int),
            self.spec_discriminant(*ray) < 0 ==> r is None,
            match r {
                Some(rec) => {
                    &&& t_min < rec.t < t_max
                    &&& within(rec.hit_point, ray.origin, BOUNCE_STEP as int)
                    &&& wf_hit(rec)
                    &&& rec.material == self.material
                },
                None => true,
            },
    {
        let ocx: i128 = (ray.origin.x - self.center.x) as i128;
        let ocy: i128 = (ray.origin.y - self.center.y) as i128;
        let ocz: i128 = (ray.origin.z - self.center.z) as i128;
        let dx: i128 = ray.direction.x as i128;
        let dy: i128 = ray.direction.y as i128;
        let dz: i128 = ray.direction.z as i128;
        proof {
            lemma_mul_bound(dx as int, dx as int, MAX_DIR as int, MAX_DIR as int);
            lemma_mul_bound(dy as int, dy as int, MAX_DIR as int, MAX_DIR as int);
            lemma_mul_bound(dz as int, dz as int, MAX_DIR as int, MAX_DIR as int);
            lemma_mul_bound(ocx as int, dx as int, 0x20_0000_0000, MAX_DIR as int);
            lemma_mul_bound(ocy as int, dy as int, 0x20_0000_0000, MAX_DIR as int);
            lemma_mul_bound(ocz as int, dz as int, 0x20_0000_0000, MAX_DIR as int);
            lemma_mul_bound(ocx as int, ocx as int, 0x20_0000_0000, 0x20_0000_0000);
            lemma_mul_bound(ocy as int, ocy as int, 0x20_0000_0000, 0x20_0000_0000);
            lemma_mul_bound(ocz as int, ocz as int, 0x20_0000_0000, 0x20_0000_0000);
            lemma_mul_bound(self.radius as int, self.radius as int, MAX_POS as int,
                MAX_POS as int);
        }
        proof {
            assert(dx as int * dx as int >= 0) by (nonlinear_arith);
            assert(dy as int * dy as int >= 0) by (nonlinear_arith);
            assert(dz as int * dz as int >= 0) by (nonlinear_arith);
        }
        let a: i128 = dx * dx + dy * dy + dz * dz;
        proof {
            assert(a == dot3(ray.direction, ray.direction));
        }
        if a == 0 {
            // A ray with no direction meets nothing.
            return None;
        }
        let half_b: i128 = ocx * dx + ocy * dy + ocz * dz;
        let c: i128 = ocx * ocx + ocy * ocy + ocz * ocz - (self.radius as i128) * (
        self.radius as i128);
        proof {
            lemma_mul_bound(half_b as int, half_b as int, 0x8000_0000_0000_0000,
                0x8000_0000_0000_0000);
            lemma_mul_bound(a as int, c as int, 0x4000_0000_0000, 0x1000_0000_0000_0000_0000);
        }
        let discriminant: i128 = half_b * half_b - a * c;
        proof {
            assert(discriminant == self.spec_discriminant(*ray));
        }
        if discriminant < 0 {
            return None;
        }
        let sq_u: u128 = isqrt(discriminant as u128);
        proof {
            lemma_sqrt_floor_bounds(discriminant as nat);
            let s = sqrt_floor(discriminant as nat);
            if s > 0x1_0000_0000_0000_0000 {
                assert(s * s > 0x1_0000_0000_0000_0000_0000_0000_0000_0000) by (nonlinear_arith)
                    requires
                        s > 0x1_0000_0000_0000_0000nat,
                ;
            }
            assert(s <= 0x1_0000_0000_0000_0000);
        }
        let sqrtd: i128 = sq_u as i128;
        proof {
            assert(0 <= sqrtd <= 0x1_0000_0000_0000_0000);
            lemma_mul_bound(-half_b as int - sqrtd as int, SCALE as int, 0x2_0000_0000_0000_0000,
                SCALE as int);
            lemma_mul_bound(-half_b as int + sqrtd as int, SCALE as int, 0x2_0000_0000_0000_0000,
                SCALE as int);
        }
        let root1: i128 = div128((-half_b - sqrtd) * (SCALE as i128), a);
        let t: i128 = if (t_min as i128) < root1 && root1 < (t_max as i128) {
            root1
        } else {
            let root2: i128 = div128((-half_b + sqrtd) * (SCALE as i128), a);
            if (t_min as i128) < root2 && root2 < (t_max as i128) {
                root2
            } else {
                proof {
                    assert(self.spec_root(*ray, t_min as int, t_max as int) is None);
                }
                return None;
            }
        };
        proof {
            assert(self.spec_root(*ray, t_min as int, t_max as int) == Some(t as int));
        }
        let t64: i64 = t as i64;
        let hit_point = ray.at(t64);
        let nx = div64((hit_point.x - self.center.x) * SCALE, self.radius);
        let ny = div64((hit_point.y - self.center.y) * SCALE, self.radius);
        let nz = div64((hit_point.z - self.center.z) * SCALE, self.radius);
        proof {
            lemma_mul_bound(hit_point.x - self.center.x, SCALE as int, 0x40_0000_0000,
                SCALE as int);
            lemma_mul_bound(hit_point.y - self.center.y, SCALE as int, 0x40_0000_0000,
                SCALE as int);
            lemma_mul_bound(hit_point.z - self.center.z, SCALE as int, 0x40_0000_0000,
                SCALE as int);
        }
        let in_box = -NORMAL_BOUND <= nx && nx <= NORMAL_BOUND && -NORMAL_BOUND <= ny && ny
            <= NORMAL_BOUND && -NORMAL_BOUND <= nz && nz <= NORMAL_BOUND;
        if !in_box {
            // Rounding pushed the computed normal off the unit box; treat
            // the root as a numerically degenerate miss.
            proof {
                assert(self.spec_record(*ray, t as int) is None);
            }
            return None;
        }
        let outward = Vec3D { x: nx, y: ny, z: nz };
        let alignment = ray.direction.dot(&outward);
        let front_face = alignment < 0;
        let normal = if front_face {
            outward
        } else {
            outward.neg()
        };
        let rec = HitRecord { hit_point, normal, t: t64, front_face, material: self.material };
        proof {
            assert(self.spec_record(*ray, t as int) == Some(rec));
        }
        Some(rec)
    }
}

} // verus!
