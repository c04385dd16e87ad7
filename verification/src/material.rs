use vstd::prelude::*;

verus! {

use crate::{SCALE, MAX_DIR};
use crate::fixed::{lemma_mul_bound, lemma_tdiv_bound};
use crate::vec::{Vec3D, in_range, dot3, vadd, spec_scale, spec_normalize, spec_reflect,
    spec_near_zero, spec_ball, spec_hemi, SAMPLE_TRIES};
use crate::hit::{HitRecord, wf_hit};
use crate::ray::Ray;
use crate::color::{Color, valid_color};
use crate::rng::Lcg;

/// Facts every material guarantees of a scatter outcome: the scattered
/// ray starts at the hit point with a bounded direction, and the
/// attenuation is a color.
pub open spec fn scatter_common(rec: HitRecord, r: Option<(Color, Ray)>) -> bool {
    match r {
        Some(pair) => valid_color(pair.0) && pair.1.origin == rec.hit_point && in_range(
            pair.1.direction,
            MAX_DIR as int,
        ),
        None => true,
    }
}

/// Capability of a material: decide how an incoming ray reemits at a
/// hit — a new ray and an attenuation — or that it is absorbed.
pub trait Scatter: Sized {
    /// The material's own invariant.
    spec fn wf(&self) -> bool;

    /// What the material promises of every scatter outcome.
    spec fn scatter_post(&self, ray_in: Ray, rec: HitRecord, r: Option<(Color, Ray)>) -> bool;

    /// The exact outcome the material computes from generator state `s`,
    /// and the state that follows it.
    spec fn scatter_spec(&self, ray_in: Ray, rec: HitRecord, s: u64) -> (
        Option<(Color, Ray)>,
        u64,
    );

    /// Decides the scattered ray and attenuation for a hit, or `None`
    /// for an absorbed ray.
    fn scatter(&self, ray_in: &Ray, hit_record: &HitRecord, rng: &mut Lcg) -> (r: Option<
        (Color, Ray),
    >)
        requires
            self.wf(),
            wf_hit(*hit_record),
            in_range(ray_in.direction, MAX_DIR as int),
        ensures
            self.scatter_post(*ray_in, *hit_record, r),
            scatter_common(*hit_record, r),
            r == self.scatter_spec(*ray_in, *hit_record, old(rng).state).0,
            final(rng).state == self.scatter_spec(*ray_in, *hit_record, old(rng).state).1,
    ;
}

/// Diffuse surface: scatters about the normal with a random unit offset.
#[derive(Clone, Copy, PartialEq, Eq, Structural, Debug)]
pub struct Lambertian {
    pub albedo: Color,
}

impl Lambertian {
    /// A diffuse material with the given albedo.
    pub fn new(color: Color) -> (r: Lambertian)
        requires
            valid_color(color),
        ensures
            r.albedo == color,
            r.wf(),
    {
        Lambertian { albedo: color }
    }
}

impl Scatter for Lambertian {
    open spec fn wf(&self) -> bool {
        valid_color(self.albedo)
    }

    /// A diffuse surface never absorbs: the ray reemits from the hit
    /// point, attenuated by the albedo, along the normal offset by some
    /// normalized unit-ball draw — or along the normal itself when the
    /// draw cancels it.
    open spec fn scatter_post(&self, ray_in: Ray, rec: HitRecord, r: Option<(Color, Ray)>)
        -> bool {
        match r {
            Some(pair) => pair.0 == self.albedo && pair.1.origin == rec.hit_point && (exists|
                u: Vec3D|
                {
                    &&& #[trigger] in_range(u, SCALE as int)
                    &&& if spec_near_zero(vadd(rec.normal, u)) {
                        pair.1.direction == rec.normal
                    } else {
                        pair.1.direction == vadd(rec.normal, u)
                    }
                }),
            None => false,
        }
    }

    /// The exact diffuse outcome: a unit-ball draw, normalized and added
    /// to the normal, with the normal itself as the degenerate fallback.
    open spec fn scatter_spec(&self, ray_in: Ray, rec: HitRecord, s: u64) -> (
        Option<(Color, Ray)>,
        u64,
    ) {
        let u = spec_normalize(spec_ball(s, SAMPLE_TRIES as nat).0);
        let sum = vadd(rec.normal, u);
        let dir = if spec_near_zero(sum) {
            rec.normal
        } else {
            sum
        };
        (
            Some((self.albedo, Ray { origin: rec.hit_point, direction: dir })),
            spec_ball(s, SAMPLE_TRIES as nat).1,
        )
    }

    fn scatter(&self, ray_in: &Ray, hit_record: &HitRecord, rng: &mut Lcg) -> (r: Option<
        (Color, Ray),
    >) {
        let u = Vec3D::random_in_unit_sphere(rng).normalize();
        let sum = hit_record.normal.add(&u);
        let scatter_direction = if sum.is_near_zero() {
            // Catch the degenerate direction where the draw cancels the
            // normal exactly.
            hit_record.normal
        } else {
            sum
        };
        let scattered_ray = Ray::new(hit_record.hit_point, scatter_direction);
        proof {
            assert(in_range(u, SCALE as int) && if spec_near_zero(vadd(hit_record.normal, u)) {
                scattered_ray.direction == hit_record.normal
            } else {
                scattered_ray.direction == vadd(hit_record.normal, u)
            });
        }
        Some((self.albedo, scattered_ray))
    }
}

/// Diffuse surface sampling uniformly over the hemisphere on the
/// normal's side.
#[derive(Clone, Copy, PartialEq, Eq, Structural, Debug)]
pub struct Hemisphere {
    pub albedo: Color,
}

impl Hemisphere {
    /// A hemisphere-diffuse material with the given albedo.
    pub fn new(color: Color) -> (r: Hemisphere)
        requires
            valid_color(color),
        ensures
            r.albedo == color,
            r.wf(),
    {
        Hemisphere { albedo: color }
    }
}

impl Scatter for Hemisphere {
    open spec fn wf(&self) -> bool {
        valid_color(self.albedo)
    }

    /// A hemisphere surface never absorbs: the ray reemits from the hit
    /// point along a unit-ball draw on the normal's side of the surface.
    open spec fn scatter_post(&self, ray_in: Ray, rec: HitRecord, r: Option<(Color, Ray)>)
        -> bool {
        match r {
            Some(pair) => pair.0 == self.albedo && pair.1.origin == rec.hit_point && dot3(
                pair.1.direction,
                rec.normal,
            ) >= 0 && dot3(pair.1.direction, pair.1.direction) < SCALE as int * SCALE as int
                && in_range(pair.1.direction, SCALE as int),
            None => false,
        }
    }

    /// The exact hemisphere outcome: the hemisphere draw from the hit
    /// point.
    open spec fn scatter_spec(&self, ray_in: Ray, rec: HitRecord, s: u64) -> (
        Option<(Color, Ray)>,
        u64,
    ) {
        let h = spec_hemi(s, rec.normal).0;
        (
            Some((self.albedo, Ray { origin: rec.hit_point, direction: h })),
            spec_hemi(s, rec.normal).1,
        )
    }

    fn scatter(&self, ray_in: &Ray, hit_record: &HitRecord, rng: &mut Lcg) -> (r: Option<
        (Color, Ray),
    >) {
        let scatter_direction = Vec3D::random_in_hemisphere(&hit_record.normal, rng);
        let scattered_ray = Ray::new(hit_record.hit_point, scatter_direction);
        Some((self.albedo, scattered_ray))
    }
}

/// Glossy surface: reflects the incoming direction and perturbs it by a
/// fuzz factor.
#[derive(Clone, Copy, PartialEq, Eq, Structural, Debug)]
pub struct Metal {
    pub albedo: Color,
    pub fuzz: i64,
}

impl Metal {
    /// A glossy material with the given albedo and fuzz factor. The
    /// mirror direction is one unit long, so the fuzz radius may take
    /// the rest of the direction budget: anything up to
    /// `MAX_DIR - SCALE`.
    pub fn new(color: Color, fuzz: i64) -> (r: Metal)
        requires
            valid_color(color),
            0 <= fuzz <= MAX_DIR - SCALE,
        ensures
            r.albedo == color,
            r.fuzz == fuzz,
            r.wf(),
    {
        Metal { albedo: color, fuzz }
    }
}

impl Scatter for Metal {
    open spec fn wf(&self) -> bool {
        valid_color(self.albedo) && 0 <= self.fuzz <= MAX_DIR - SCALE
    }

    /// The incoming direction is reflected about the normal, normalized,
    /// and perturbed by the fuzz factor times some unit-ball draw. The
    /// ray reemits along that direction exactly when it points off the
    /// surface (a positive component along the normal); a perturbed
    /// reflection that crosses to the far side of the normal is absorbed.
    /// With a fuzz of zero the outcome is the mirror direction itself.
    open spec fn scatter_post(&self, ray_in: Ray, rec: HitRecord, r: Option<(Color, Ray)>)
        -> bool {
        exists|p: Vec3D|
            {
                &&& #[trigger] in_range(p, SCALE as int)
                &&& dot3(p, p) < SCALE as int * SCALE as int
                &&& {
                    let dir = vadd(spec_normalize(spec_reflect(ray_in.direction, rec.normal)),
                        spec_scale(p, self.fuzz as int));
                    if dot3(dir, rec.normal) > 0 {
                        r == Some((self.albedo, Ray { origin: rec.hit_point, direction: dir }))
                    } else {
                        r is None
                    }
                }
            }
    }

    /// The exact glossy outcome: the normalized mirror direction plus
    /// the fuzz-scaled unit-ball draw, absorbed when it crosses the
    /// surface.
    open spec fn scatter_spec(&self, ray_in: Ray, rec: HitRecord, s: u64) -> (
        Option<(Color, Ray)>,
        u64,
    ) {
        let p = spec_ball(s, SAMPLE_TRIES as nat).0;
        let dir = vadd(spec_normalize(spec_reflect(ray_in.direction, rec.normal)), spec_scale(
            p,
            self.fuzz as int,
        ));
        (
            if dot3(dir, rec.normal) > 0 {
                Some((self.albedo, Ray { origin: rec.hit_point, direction: dir }))
            } else {
                None
            },
            spec_ball(s, SAMPLE_TRIES as nat).1,
        )
    }

    fn scatter(&self, ray_in: &Ray, hit_record: &HitRecord, rng: &mut Lcg) -> (r: Option<
        (Color, Ray),
    >) {
        let reflected_vector = ray_in.direction.reflect(&hit_record.normal).normalize();
        let u = Vec3D::random_in_unit_sphere(rng);
        proof {
            lemma_mul_bound(u.x as int, self.fuzz as int, SCALE as int,
                MAX_DIR as int - SCALE as int);
            lemma_mul_bound(u.y as int, self.fuzz as int, SCALE as int,
                MAX_DIR as int - SCALE as int);
            lemma_mul_bound(u.z as int, self.fuzz as int, SCALE as int,
                MAX_DIR as int - SCALE as int);
            lemma_tdiv_bound(u.x * self.fuzz, SCALE as int, SCALE as int * (MAX_DIR as int
                - SCALE as int));
            lemma_tdiv_bound(u.y * self.fuzz, SCALE as int, SCALE as int * (MAX_DIR as int
                - SCALE as int));
            lemma_tdiv_bound(u.z * self.fuzz, SCALE as int, SCALE as int * (MAX_DIR as int
                - SCALE as int));
            assert((SCALE as int * (MAX_DIR as int - SCALE as int)) / (SCALE as int)
                == MAX_DIR as int - SCALE as int);
        }
        let fuzz_vec = u.mul_scalar(self.fuzz);
        let direction = reflected_vector.add(&fuzz_vec);
        let scattered_ray = Ray::new(hit_record.hit_point, direction);
        let alignment = direction.dot(&hit_record.normal);
        proof {
            assert(direction == vadd(spec_normalize(spec_reflect(ray_in.direction,
                hit_record.normal)), spec_scale(u, self.fuzz as int)));
        }
        if alignment > 0 {
            let outcome = Some((self.albedo, scattered_ray));
            proof {
                assert(in_range(u, SCALE as int) && dot3(u, u) < SCALE as int * SCALE as int
                    && dot3(direction, hit_record.normal) > 0 && outcome == Some(
                    (self.albedo, Ray { origin: hit_record.hit_point, direction }),
                ));
            }
            outcome
        } else {
            proof {
                assert(in_range(u, SCALE as int) && dot3(u, u) < SCALE as int * SCALE as int
                    && !(dot3(direction, hit_record.normal) > 0));
            }
            None
        }
    }
}

/// The materials a surface can own, dispatched as a closed sum.
#[derive(Clone, Copy, PartialEq, Eq, Structural, Debug)]
pub enum Material {
    Lambertian(Lambertian),
    Hemisphere(Hemisphere),
    Metal(Metal),
}

impl Material {
    /// The owned material's own invariant.
    pub open spec fn valid(self) -> bool {
        match self {
            Material::Lambertian(m) => m.wf(),
            Material::Hemisphere(m) => m.wf(),
            Material::Metal(m) => m.wf(),
        }
    }

    /// What the owned material promises of every scatter outcome.
    pub open spec fn scatter_post(self, ray_in: Ray, rec: HitRecord, r: Option<(Color, Ray)>)
        -> bool {
        match self {
            Material::Lambertian(m) => m.scatter_post(ray_in, rec, r),
            Material::Hemisphere(m) => m.scatter_post(ray_in, rec, r),
            Material::Metal(m) => m.scatter_post(ray_in, rec, r),
        }
    }

    /// The exact outcome the owned material computes from generator
    /// state `s`, and the state that follows it.
    pub open spec fn spec_scatter(self, ray_in: Ray, rec: HitRecord, s: u64) -> (
        Option<(Color, Ray)>,
        u64,
    ) {
        match self {
            Material::Lambertian(m) => m.scatter_spec(ray_in, rec, s),
            Material::Hemisphere(m) => m.scatter_spec(ray_in, rec, s),
            Material::Metal(m) => m.scatter_spec(ray_in, rec, s),
        }
    }

    /// Dispatches the scatter decision to the owned material.
    pub fn scatter(&self, ray_in: &Ray, hit_record: &HitRecord, rng: &mut Lcg) -> (r: Option<
        (Color, Ray),
    >)
        requires
            self.valid(),
            wf_hit(*hit_record),
            in_range(ray_in.direction, MAX_DIR as int),
        ensures
            scatter_common(*hit_record, r),
            self.scatter_post(*ray_in, *hit_record, r),
            r == self.spec_scatter(*ray_in, *hit_record, old(rng).state).0,
            final(rng).state == self.spec_scatter(*ray_in, *hit_record, old(rng).state).1,
    {
        match self {
            Material::Lambertian(m) => m.scatter(ray_in, hit_record, rng),
            Material::Hemisphere(m) => m.scatter(ray_in, hit_record, rng),
            Material::Metal(m) => m.scatter(ray_in, hit_record, rng),
        }
    }
}

} // verus!
