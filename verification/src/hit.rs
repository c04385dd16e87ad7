use vstd::prelude::*;

verus! {

use crate::NORMAL_BOUND;
use crate::vec::{Vec3D, Point3D, in_range};
use crate::material::Material;

/// One ray-surface intersection: where it happened, the computed radial
/// direction there — near unit length up to grid rounding, oriented
/// against the incoming ray — the ray parameter of the intersection,
/// which side was struck, and the surface's material.
#[derive(Clone, Copy, PartialEq, Eq, Structural, Debug)]
pub struct HitRecord {
    pub hit_point: Point3D,
    pub normal: Vec3D,
    pub t: i64,
    pub front_face: bool,
    pub material: Material,
}

/// Bounds every hit record respects: the oriented normal's components
/// stay within a box one rounding step above unit length, and the
/// parameter is nonnegative. Nothing here asserts a lower bound on the
/// normal's length; exact unit length is not preserved by the grid.
pub open spec fn wf_hit(rec: HitRecord) -> bool {
    &&& in_range(rec.normal, NORMAL_BOUND as int)
    &&& rec.t >= 0
}

} // verus!
