use vstd::prelude::*;

verus! {

use crate::{SCALE, MAX_DIR, MAX_ORIG, T_MAX, BOUNCE_STEP, ACNE_EPSILON, DEPTH_LIMIT};
use crate::fixed::{tdiv, lemma_mul_bound, lemma_tdiv_bound, div64};
use crate::vec::{Vec3D, Point3D, in_range, within, spec_normalize};
use crate::color::{Color, valid_color};
use crate::material::scatter_common;
use crate::object::Sphere;
use crate::rng::Lcg;
use crate::World;

/// Red channel of the sky gradient's horizon color.
pub const SKY_R: i64 = 32768;

/// Green channel of the sky gradient's horizon color.
pub const SKY_G: i64 = 45875;

/// Blue channel of the sky gradient's horizon color.
pub const SKY_B: i64 = 65536;

/// The sky gradient a ray that hits nothing takes: white straight up,
/// blending down to the horizon color straight below, keyed by the
/// height of the unit direction.
pub open spec fn spec_background(r: Ray) -> Color {
    let t = (spec_normalize(r.direction).y + SCALE) / 2;
    Vec3D {
        x: tdiv(t * SCALE + (SCALE - t) * SKY_R, SCALE as int) as i64,
        y: tdiv(t * SCALE + (SCALE - t) * SKY_G, SCALE as int) as i64,
        z: tdiv(t * SCALE + (SCALE - t) * SKY_B, SCALE as int) as i64,
    }
}

/// Componentwise product of two colors on the grid.
pub open spec fn spec_attenuate(a: Color, b: Color) -> Color {
    Vec3D {
        x: tdiv(a.x * b.x, SCALE as int) as i64,
        y: tdiv(a.y * b.y, SCALE as int) as i64,
        z: tdiv(a.z * b.z, SCALE as int) as i64,
    }
}

/// The color the recursive shader computes for a ray from generator
/// state `s`, and the state that follows it: black at an exhausted
/// bounce budget, the sky gradient on a miss, and the attenuated
/// recursive color of the scattered ray on a hit — black when the
/// material absorbs.
pub open spec fn spec_ray_color(ray: Ray, objs: Seq<Sphere>, depth: nat, s: u64) -> (Color, u64)
    decreases depth,
{
    if depth == 0 {
        (Vec3D { x: 0, y: 0, z: 0 }, s)
    } else {
        match World::spec_hit(objs, ray, ACNE_EPSILON as int, T_MAX as int) {
            None => (spec_background(ray), s),
            Some(rec) => {
                let out = rec.material.spec_scatter(ray, rec, s).0;
                let s1 = rec.material.spec_scatter(ray, rec, s).1;
                match out {
                    None => (Vec3D { x: 0, y: 0, z: 0 }, s1),
                    Some(pair) => {
                        let sub = spec_ray_color(pair.1, objs, (depth - 1) as nat, s1).0;
                        let s2 = spec_ray_color(pair.1, objs, (depth - 1) as nat, s1).1;
                        (spec_attenuate(pair.0, sub), s2)
                    },
                }
            },
        }
    }
}

/// A half-line from an origin along a direction; the direction need not
/// be unit length.
#[derive(Clone, Copy, PartialEq, Eq, Structural, Debug)]
pub struct Ray {
    pub origin: Point3D,
    pub direction: Vec3D,
}

impl Ray {
    /// The ray with the given origin and direction.
    pub fn new(origin: Point3D, direction: Vec3D) -> (r: Ray)
        ensures
            r.origin == origin,
            r.direction == direction,
    {
        Ray { origin, direction }
    }

    /// The point at parameter `t` along the ray.
    pub fn at(&self, t: i64) -> (p: Point3D)
        requires
            0 <= t <= T_MAX,
            in_range(self.direction, MAX_DIR as int),
            in_range(self.origin, 0x100_0000_0000),
        ensures
            p.x == self.origin.x + tdiv(t * self.direction.x, SCALE as int),
            p.y == self.origin.y + tdiv(t * self.direction.y, SCALE as int),
            p.z == self.origin.z + tdiv(t * self.direction.z, SCALE as int),
            within(p, self.origin, BOUNCE_STEP as int),
    {
        proof {
            lemma_mul_bound(t as int, self.direction.x as int, T_MAX as int, MAX_DIR as int);
            lemma_mul_bound(t as int, self.direction.y as int, T_MAX as int, MAX_DIR as int);
            lemma_mul_bound(t as int, self.direction.z as int, T_MAX as int, MAX_DIR as int);
            lemma_tdiv_bound(t * self.direction.x, SCALE as int, T_MAX as int * MAX_DIR as int);
            lemma_tdiv_bound(t * self.direction.y, SCALE as int, T_MAX as int * MAX_DIR as int);
            lemma_tdiv_bound(t * self.direction.z, SCALE as int, T_MAX as int * MAX_DIR as int);
            assert((T_MAX as int * MAX_DIR as int) / (SCALE as int) == BOUNCE_STEP as int);
        }
        Point3D {
            x: self.origin.x + div64(t * self.direction.x, SCALE),
            y: self.origin.y + div64(t * self.direction.y, SCALE),
            z: self.origin.z + div64(t * self.direction.z, SCALE),
        }
    }

    /// The sky gradient seen by a ray that hits nothing: white straight
    /// up, blending down to the horizon color straight below.
    fn background(&self) -> (c: Color)
        requires
            in_range(self.direction, MAX_DIR as int),
        ensures
            valid_color(c),
            c == spec_background(*self),
    {
        let unit = self.direction.normalize();
        let t = (unit.y + SCALE) / 2;
        proof {
            assert(0 <= t <= SCALE);
        }
        let cx = div64(t * SCALE + (SCALE - t) * SKY_R, SCALE);
        let cy = div64(t * SCALE + (SCALE - t) * SKY_G, SCALE);
        let cz = div64(t * SCALE + (SCALE - t) * SKY_B, SCALE);
        proof {
            lemma_tdiv_bound(t * SCALE + (SCALE - t) * SKY_R, SCALE as int,
                SCALE as int * SCALE as int);
            lemma_tdiv_bound(t * SCALE + (SCALE - t) * SKY_G, SCALE as int,
                SCALE as int * SCALE as int);
            lemma_tdiv_bound(t * SCALE + (SCALE - t) * SKY_B, SCALE as int,
                SCALE as int * SCALE as int);
            assert((SCALE as int * SCALE as int) / (SCALE as int) == SCALE as int);
            assert(cx >= 0);
            assert(cy >= 0);
            assert(cz >= 0);
        }
        Vec3D { x: cx, y: cy, z: cz }
    }

    /// Recursive shading: follow the ray into the scene, bounce off what
    /// it hits as the material decides, and stop at the bounce budget.
    /// A ray with no budget left is black; one that leaves the scene
    /// takes the sky gradient.
    pub fn color(&self, world: &World, depth: usize, rng: &mut Lcg) -> (c: Color)
        requires
            world.wf(),
            depth <= DEPTH_LIMIT,
            in_range(self.direction, MAX_DIR as int),
            in_range(self.origin, MAX_ORIG as int - depth as int * BOUNCE_STEP as int),
        ensures
            valid_color(c),
            depth == 0 ==> c == (Vec3D { x: 0, y: 0, z: 0 }),
            depth > 0 ==> match World::spec_hit(world.objects@, *self, ACNE_EPSILON as int,
                T_MAX as int) {
                None => c == spec_background(*self),
                Some(rec) => exists|outcome: Option<(Color, Ray)>|
                    {
                        &&& #[trigger] rec.material.scatter_post(*self, rec, outcome)
                        &&& scatter_common(rec, outcome)
                        &&& match outcome {
                            None => c == (Vec3D { x: 0, y: 0, z: 0 }),
                            Some(pair) => exists|sub: Color|
                                #[trigger] valid_color(sub) && c == spec_attenuate(pair.0, sub),
                        }
                    },
            },
            c == spec_ray_color(*self, world.objects@, depth as nat, old(rng).state).0,
            final(rng).state == spec_ray_color(*self, world.objects@, depth as nat, old(
                rng,
            ).state).1,
        decreases depth,
    {
        let ghost s0 = rng.state;
        if depth == 0 {
            return Vec3D { x: 0, y: 0, z: 0 };
        }
        match world.hit(self, ACNE_EPSILON, T_MAX) {
            Some(hit_record) => {
                let ghost s_scatter = rng.state;
                match hit_record.material.scatter(self, &hit_record, rng) {
                    Some((attenuation, scattered_ray)) => {
                        let ghost s1 = rng.state;
                        let bounced = scattered_ray.color(world, depth - 1, rng);
                        let shaded = attenuate(&attenuation, &bounced);
                        proof {
                            let outcome = Some((attenuation, scattered_ray));
                            assert(hit_record.material.scatter_post(*self, hit_record, outcome)
                                && scatter_common(hit_record, outcome));
                            assert(valid_color(bounced) && shaded == spec_attenuate(attenuation,
                                bounced));
                            assert(spec_ray_color(*self, world.objects@, depth as nat, s0) == (
                            shaded,
                            rng.state,
                            ));
                        }
                        shaded
                    },
                    None => {
                        proof {
                            let outcome: Option<(Color, Ray)> = None;
                            assert(hit_record.material.scatter_post(*self, hit_record, outcome)
                                && scatter_common(hit_record, outcome));
                            assert(spec_ray_color(*self, world.objects@, depth as nat, s0) == (
                            Vec3D { x: 0, y: 0, z: 0 },
                            rng.state,
                            ));
                        }
                        Vec3D { x: 0, y: 0, z: 0 }
                    },
                }
            },
            None => {
                proof {
                    assert(spec_ray_color(*self, world.objects@, depth as nat, s0) == (
                    spec_background(*self),
                    rng.state,
                    ));
                }
                self.background()
            },
        }
    }
}

/// Componentwise product of two colors, used to attenuate bounced light.
fn attenuate(a: &Color, b: &Color) -> (c: Color)
    requires
        valid_color(*a),
        valid_color(*b),
    ensures
        c == spec_attenuate(*a, *b),
        valid_color(c),
{
    proof {
        lemma_mul_bound(a.x as int, b.x as int, SCALE as int, SCALE as int);
        lemma_mul_bound(a.y as int, b.y as int, SCALE as int, SCALE as int);
        lemma_mul_bound(a.z as int, b.z as int, SCALE as int, SCALE as int);
        lemma_tdiv_bound(a.x * b.x, SCALE as int, SCALE as int * SCALE as int);
        lemma_tdiv_bound(a.y * b.y, SCALE as int, SCALE as int * SCALE as int);
        lemma_tdiv_bound(a.z * b.z, SCALE as int, SCALE as int * SCALE as int);
        assert((SCALE as int * SCALE as int) / (SCALE as int) == SCALE as int);
        assert(a.x * b.x >= 0) by (nonlinear_arith)
            requires
                a.x >= 0,
                b.x >= 0,
        ;
        assert(a.y * b.y >= 0) by (nonlinear_arith)
            requires
                a.y >= 0,
                b.y >= 0,
        ;
        assert(a.z * b.z >= 0) by (nonlinear_arith)
            requires
                a.z >= 0,
                b.z >= 0,
        ;
    }
    Vec3D {
        x: div64(a.x * b.x, SCALE),
        y: div64(a.y * b.y, SCALE),
        z: div64(a.z * b.z, SCALE),
    }
}

} // verus!
