use vstd::prelude::*;

verus! {

use crate::{SCALE, MAX_DIR, MAX_POS};
use crate::fixed::{tdiv, lemma_mul_bound, lemma_tdiv_bound, div64};
use crate::vec::{Vec3D, Point3D, in_range, within};
use crate::ray::Ray;

/// The ray the camera casts through normalized image coordinates
/// `(u, v)`.
pub open spec fn spec_get_ray(c: Camera, u: int, v: int) -> Ray {
    Ray {
        origin: c.origin,
        direction: Vec3D {
            x: (c.lower_left_corner.x + tdiv(u * c.horizontal.x, SCALE as int) + tdiv(
                v * c.vertical.x,
                SCALE as int,
            ) - c.origin.x) as i64,
            y: (c.lower_left_corner.y + tdiv(u * c.horizontal.y, SCALE as int) + tdiv(
                v * c.vertical.y,
                SCALE as int,
            ) - c.origin.y) as i64,
            z: (c.lower_left_corner.z + tdiv(u * c.horizontal.z, SCALE as int) + tdiv(
                v * c.vertical.z,
                SCALE as int,
            ) - c.origin.z) as i64,
        },
    }
}

/// Converts normalized image-plane coordinates into world-space rays.
/// The viewport basis and its lower-left corner are derived once at
/// construction; nothing mutates afterwards.
#[derive(Clone, Copy, PartialEq, Eq, Structural, Debug)]
pub struct Camera {
    pub origin: Point3D,
    pub lower_left_corner: Point3D,
    pub horizontal: Vec3D,
    pub vertical: Vec3D,
}

impl Camera {
    /// The camera's own invariant: a bounded origin, axis-aligned
    /// viewport basis vectors of bounded size, and a corner within one
    /// viewport of the origin.
    pub open spec fn wf(self) -> bool {
        &&& in_range(self.origin, MAX_POS as int)
        &&& in_range(self.horizontal, 0x4_0000)
        &&& in_range(self.vertical, 0x4_0000)
        &&& within(self.lower_left_corner, self.origin, 0x4_0000)
    }

    /// A camera at `origin` looking down the negative z axis at a
    /// viewport plane `focal_length` away, of the given size. The
    /// four-unit cap on the viewport and focal length keeps every cast
    /// ray's direction inside the direction budget: the corner offset
    /// plus twice each basis vector stays within five times the cap,
    /// under `MAX_DIR`.
    pub fn new(origin: Point3D, focal_length: i64, viewport_width: i64, viewport_height: i64)
        -> (c: Camera)
        requires
            in_range(origin, MAX_POS as int),
            0 < focal_length <= 0x4_0000,
            0 < viewport_width <= 0x4_0000,
            0 < viewport_height <= 0x4_0000,
        ensures
            c.wf(),
            c.origin == origin,
            c.horizontal == (Vec3D { x: viewport_width, y: 0, z: 0 }),
            c.vertical == (Vec3D { x: 0, y: viewport_height, z: 0 }),
            c.lower_left_corner.x == origin.x - viewport_width / 2,
            c.lower_left_corner.y == origin.y - viewport_height / 2,
            c.lower_left_corner.z == origin.z - focal_length,
    {
        let half_w = div64(viewport_width, 2);
        let half_h = div64(viewport_height, 2);
        Camera {
            origin,
            lower_left_corner: Point3D {
                x: origin.x - half_w,
                y: origin.y - half_h,
                z: origin.z - focal_length,
            },
            horizontal: Vec3D { x: viewport_width, y: 0, z: 0 },
            vertical: Vec3D { x: 0, y: viewport_height, z: 0 },
        }
    }

    /// The ray from the camera origin through the viewport point at the
    /// normalized image coordinates `(u, v)`: `u` runs left to right and
    /// `v` bottom to top, each in `[0, 1]` of the grid.
    pub fn get_ray(&self, u: i64, v: i64) -> (r: Ray)
        requires
            self.wf(),
            0 <= u <= 2 * SCALE,
            0 <= v <= 2 * SCALE,
        ensures
            r.origin == self.origin,
            in_range(r.direction, MAX_DIR as int),
            r.direction.x == self.lower_left_corner.x + tdiv(u * self.horizontal.x,
                SCALE as int) + tdiv(v * self.vertical.x, SCALE as int) - self.origin.x,
            r.direction.y == self.lower_left_corner.y + tdiv(u * self.horizontal.y,
                SCALE as int) + tdiv(v * self.vertical.y, SCALE as int) - self.origin.y,
            r.direction.z == self.lower_left_corner.z + tdiv(u * self.horizontal.z,
                SCALE as int) + tdiv(v * self.vertical.z, SCALE as int) - self.origin.z,
            r == spec_get_ray(*self, u as int, v as int),
    {
        proof {
            lemma_mul_bound(u as int, self.horizontal.x as int, 0x2_0000, 0x4_0000);
            lemma_mul_bound(u as int, self.horizontal.y as int, 0x2_0000, 0x4_0000);
            lemma_mul_bound(u as int, self.horizontal.z as int, 0x2_0000, 0x4_0000);
            lemma_mul_bound(v as int, self.vertical.x as int, 0x2_0000, 0x4_0000);
            lemma_mul_bound(v as int, self.vertical.y as int, 0x2_0000, 0x4_0000);
            lemma_mul_bound(v as int, self.vertical.z as int, 0x2_0000, 0x4_0000);
            lemma_tdiv_bound(u * self.horizontal.x, SCALE as int, 0x8_0000_0000);
            lemma_tdiv_bound(u * self.horizontal.y, SCALE as int, 0x8_0000_0000);
            lemma_tdiv_bound(u * self.horizontal.z, SCALE as int, 0x8_0000_0000);
            lemma_tdiv_bound(v * self.vertical.x, SCALE as int, 0x8_0000_0000);
            lemma_tdiv_bound(v * self.vertical.y, SCALE as int, 0x8_0000_0000);
            lemma_tdiv_bound(v * self.vertical.z, SCALE as int, 0x8_0000_0000);
            assert(0x8_0000_0000int / (SCALE as int) == 0x8_0000);
        }
        let dx = self.lower_left_corner.x + div64(u * self.horizontal.x, SCALE) + div64(
            v * self.vertical.x,
            SCALE,
        ) - self.origin.x;
        let dy = self.lower_left_corner.y + div64(u * self.horizontal.y, SCALE) + div64(
            v * self.vertical.y,
            SCALE,
        ) - self.origin.y;
        let dz = self.lower_left_corner.z + div64(u * self.horizontal.z, SCALE) + div64(
            v * self.vertical.z,
            SCALE,
        ) - self.origin.z;
        let r = Ray { origin: self.origin, direction: Vec3D { x: dx, y: dy, z: dz } };
        proof {
            assert(r == spec_get_ray(*self, u as int, v as int));
        }
        r
    }
}

} // verus!
