use vstd::prelude::*;

verus! {

use crate::{SCALE, DEPTH_LIMIT};
use crate::fixed::{tdiv, lemma_tdiv_bound, div64};
use crate::vec::{Vec3D, vadd};
use crate::camera::{Camera, spec_get_ray};
use crate::color::spec_format_color;
use crate::object::Sphere;
use crate::ray::spec_ray_color;
use crate::rng::{Lcg, spec_below};
use crate::World;

/// Sum of the colors of the remaining jittered samples for pixel
/// `(x, y)`, threading the generator state, with the state after them.
/// Without anti-aliasing the jitters are zero and draw nothing.
pub open spec fn spec_samples(
    cam: Camera,
    objs: Seq<Sphere>,
    x: int,
    y: int,
    width: int,
    height: int,
    depth: nat,
    anti_alias: bool,
    rem: nat,
    s: u64,
    acc: Vec3D,
) -> (Vec3D, u64)
    decreases rem,
{
    if rem == 0 {
        (acc, s)
    } else {
        let ju = if anti_alias {
            spec_below(s, 65536).0 as int
        } else {
            0
        };
        let sj = if anti_alias {
            spec_below(s, 65536).1
        } else {
            s
        };
        let jv = if anti_alias {
            spec_below(sj, 65536).0 as int
        } else {
            0
        };
        let sj2 = if anti_alias {
            spec_below(sj, 65536).1
        } else {
            sj
        };
        let u = tdiv(x * SCALE + ju, width - 1);
        let v = tdiv(y * SCALE + jv, height - 1);
        let ray = spec_get_ray(cam, u, v);
        let c = spec_ray_color(ray, objs, depth, sj2).0;
        let s2 = spec_ray_color(ray, objs, depth, sj2).1;
        spec_samples(cam, objs, x, y, width, height, depth, anti_alias, (rem - 1) as nat, s2,
            vadd(acc, c))
    }
}

/// One row of pixels, walked left to right over the remaining columns:
/// each pixel is the formatted average of its samples, appended to the
/// accumulated sequence, the generator state threaded throughout.
pub open spec fn spec_row(
    cam: Camera,
    objs: Seq<Sphere>,
    y: int,
    width: int,
    height: int,
    samples: nat,
    depth: nat,
    anti_alias: bool,
    col_rem: nat,
    s: u64,
    acc: Seq<(u8, u8, u8)>,
) -> (Seq<(u8, u8, u8)>, u64)
    decreases col_rem,
{
    if col_rem == 0 {
        (acc, s)
    } else {
        let x = width - col_rem;
        let sum = spec_samples(cam, objs, x, y, width, height, depth, anti_alias, samples, s,
            (Vec3D { x: 0, y: 0, z: 0 })).0;
        let s1 = spec_samples(cam, objs, x, y, width, height, depth, anti_alias, samples, s,
            (Vec3D { x: 0, y: 0, z: 0 })).1;
        let px = spec_format_color(sum, samples as int);
        spec_row(cam, objs, y, width, height, samples, depth, anti_alias, (col_rem - 1) as nat,
            s1, acc.push(px))
    }
}

/// The pixel grid, walked top row first (largest `y` down to zero).
pub open spec fn spec_grid(
    cam: Camera,
    objs: Seq<Sphere>,
    width: int,
    height: int,
    samples: nat,
    depth: nat,
    anti_alias: bool,
    rows_rem: nat,
    s: u64,
    acc: Seq<(u8, u8, u8)>,
) -> (Seq<(u8, u8, u8)>, u64)
    decreases rows_rem,
{
    if rows_rem == 0 {
        (acc, s)
    } else {
        let y = rows_rem - 1;
        let r = spec_row(cam, objs, y as int, width, height, samples, depth, anti_alias,
            width as nat, s, acc);
        spec_grid(cam, objs, width, height, samples, depth, anti_alias, (rows_rem - 1) as nat,
            r.1, r.0)
    }
}

/// The whole rendering as a function of its inputs: the row-major pixel
/// grid, top row first, that the seeded generator stream produces.
pub open spec fn spec_render(
    cam: Camera,
    objs: Seq<Sphere>,
    width: int,
    height: int,
    samples: nat,
    depth: nat,
    anti_alias: bool,
    seed: u64,
) -> Seq<(u8, u8, u8)> {
    spec_grid(cam, objs, width, height, samples, depth, anti_alias, height as nat, seed,
        Seq::empty()).0
}

/// Renders the scene to a row-major pixel grid, top row first: for each
/// pixel, jittered viewport samples are shaded recursively, averaged,
/// gamma-corrected and scaled to bytes. Every random draw comes from the
/// one injected generator, so the output is a function of the arguments
/// alone and a fixed seed reproduces the image exactly. The size caps
/// keep the jitter and accumulation arithmetic inside 64 bits.
pub fn render(
    camera: &Camera,
    world: &World,
    width: usize,
    height: usize,
    samples: u64,
    depth: usize,
    seed: u64,
    anti_alias: bool,
) -> (pixels: Vec<(u8, u8, u8)>)
    requires
        camera.wf(),
        world.wf(),
        2 <= width <= 0x1_0000,
        2 <= height <= 0x1_0000,
        0 < samples <= 0x10_0000,
        depth <= DEPTH_LIMIT,
    ensures
        pixels.len() == width * height,
        pixels@ == spec_render(*camera, world.objects@, width as int, height as int,
            samples as nat, depth as nat, anti_alias, seed),
{
    let mut rng = Lcg::new(seed);
    let mut pixels: Vec<(u8, u8, u8)> = Vec::new();
    let mut row: usize = height;
    while row > 0
        invariant
            camera.wf(),
            world.wf(),
            2 <= width <= 0x1_0000,
            2 <= height <= 0x1_0000,
            0 < samples <= 0x10_0000,
            depth <= DEPTH_LIMIT,
            row <= height,
            pixels.len() == (height - row) * width,
            spec_grid(*camera, world.objects@, width as int, height as int, samples as nat,
                depth as nat, anti_alias, height as nat, seed, Seq::empty()) == spec_grid(
                *camera, world.objects@, width as int, height as int, samples as nat,
                depth as nat, anti_alias, row as nat, rng.state, pixels@),
        decreases row,
    {
        let ghost s_row = rng.state;
        let ghost pix_row = pixels@;
        let y = row - 1;
        proof {
            assert(spec_grid(*camera, world.objects@, width as int, height as int,
                samples as nat, depth as nat, anti_alias, row as nat, s_row, pix_row) == ({
                let r = spec_row(*camera, world.objects@, y as int, width as int, height as int,
                    samples as nat, depth as nat, anti_alias, width as nat, s_row, pix_row);
                spec_grid(*camera, world.objects@, width as int, height as int, samples as nat,
                    depth as nat, anti_alias, (row - 1) as nat, r.1, r.0)
            }));
        }
        let mut x: usize = 0;
        while x < width
            invariant
                camera.wf(),
                world.wf(),
                2 <= width <= 0x1_0000,
                2 <= height <= 0x1_0000,
                0 < samples <= 0x10_0000,
                depth <= DEPTH_LIMIT,
                y < height,
                x <= width,
                pixels.len() == (height - y - 1) * width + x,
                spec_row(*camera, world.objects@, y as int, width as int, height as int,
                    samples as nat, depth as nat, anti_alias, width as nat, s_row, pix_row)
                    == spec_row(*camera, world.objects@, y as int, width as int, height as int,
                    samples as nat, depth as nat, anti_alias, (width - x) as nat, rng.state,
                    pixels@),
            decreases width - x,
        {
            let ghost s_px = rng.state;
            let ghost pix_px = pixels@;
            let mut sum = Vec3D { x: 0, y: 0, z: 0 };
            let mut s: u64 = 0;
            while s < samples
                invariant
                    camera.wf(),
                    world.wf(),
                    2 <= width <= 0x1_0000,
                    2 <= height <= 0x1_0000,
                    0 < samples <= 0x10_0000,
                    depth <= DEPTH_LIMIT,
                    y < height,
                    x < width,
                    s <= samples,
                    0 <= sum.x <= s * SCALE,
                    0 <= sum.y <= s * SCALE,
                    0 <= sum.z <= s * SCALE,
                    spec_samples(*camera, world.objects@, x as int, y as int, width as int,
                        height as int, depth as nat, anti_alias, samples as nat, s_px,
                        (Vec3D { x: 0, y: 0, z: 0 })) == spec_samples(*camera, world.objects@,
                        x as int, y as int, width as int, height as int, depth as nat,
                        anti_alias, (samples - s) as nat, rng.state, sum),
                decreases samples - s,
            {
                let ghost s_it = rng.state;
                let ghost sum_it = sum;
                let ju: i64 = if anti_alias {
                    rng.next_below(65536) as i64
                } else {
                    0
                };
                let jv: i64 = if anti_alias {
                    rng.next_below(65536) as i64
                } else {
                    0
                };
                let u = div64((x as i64) * SCALE + ju, (width - 1) as i64);
                let v = div64((y as i64) * SCALE + jv, (height - 1) as i64);
                proof {
                    lemma_tdiv_bound((x as i64) * SCALE + ju, (width - 1) as int, 2 * ((width
                        - 1) as int) * (SCALE as int));
                    assert((2 * ((width - 1) as int) * (SCALE as int)) / ((width - 1) as int)
                        == 2 * SCALE) by (nonlinear_arith)
                        requires
                            width >= 2,
                            SCALE == 65536i64,
                    ;
                    lemma_tdiv_bound((y as i64) * SCALE + jv, (height - 1) as int, 2 * ((height
                        - 1) as int) * (SCALE as int));
                    assert((2 * ((height - 1) as int) * (SCALE as int)) / ((height - 1) as int)
                        == 2 * SCALE) by (nonlinear_arith)
                        requires
                            height >= 2,
                            SCALE == 65536i64,
                    ;
                    assert((x as i64) * SCALE + ju <= 2 * ((width - 1) as int) * (SCALE as int))
                        by (nonlinear_arith)
                        requires
                            0 <= x as int <= (width - 1) as int,
                            width >= 2,
                            0 <= ju < 65536,
                            SCALE == 65536i64,
                    ;
                    assert((y as i64) * SCALE + jv <= 2 * ((height - 1) as int) * (
                    SCALE as int)) by (nonlinear_arith)
                        requires
                            0 <= y as int <= (height - 1) as int,
                            height >= 2,
                            0 <= jv < 65536,
                            SCALE == 65536i64,
                    ;
                    assert(u >= 0);
                    assert(v >= 0);
                }
                let ray = camera.get_ray(u, v);
                let c = ray.color(world, depth, &mut rng);
                sum = sum.add(&c);
                proof {
                    assert(spec_samples(*camera, world.objects@, x as int, y as int,
                        width as int, height as int, depth as nat, anti_alias, (samples
                        - s) as nat, s_it, sum_it) == spec_samples(*camera, world.objects@,
                        x as int, y as int, width as int, height as int, depth as nat,
                        anti_alias, (samples - s - 1) as nat, rng.state, sum));
                }
                s = s + 1;
            }
            let px = sum.format_color(samples);
            pixels.push(px);
            proof {
                assert(spec_row(*camera, world.objects@, y as int, width as int, height as int,
                    samples as nat, depth as nat, anti_alias, (width - x) as nat, s_px, pix_px)
                    == spec_row(*camera, world.objects@, y as int, width as int, height as int,
                    samples as nat, depth as nat, anti_alias, (width - x - 1) as nat, rng.state,
                    pix_px.push(px)));
                assert(((height - y - 1) as int) * (width as int) + (x as int) + 1 <= (
                height as int) * (width as int)) by (nonlinear_arith)
                    requires
                        y < height,
                        x < width,
                ;
            }
            x = x + 1;
        }
        proof {
            assert(((height - y - 1) as int) * (width as int) + (width as int) == ((height
                - y) as int) * (width as int)) by (nonlinear_arith);
        }
        row = row - 1;
    }
    proof {
        assert((height - 0) as int * (width as int) == (height as int) * (width as int));
        assert((height as int) * (width as int) == (width as int) * (height as int))
            by (nonlinear_arith);
    }
    pixels
}

} // verus!
