use vstd::prelude::*;

verus! {

use crate::SCALE;
use crate::fixed::{sqrt_floor, lemma_sqrt_floor_bounds, lemma_sqrt_unique, isqrt};
use crate::vec::Vec3D;

/// A color is a vector whose components are the red, green and blue
/// channels, each conceptually in `[0, 1]` of the grid before output.
pub type Color = Vec3D;

/// Channel values of a well-formed color lie in `[0, 1]` of the grid.
pub open spec fn valid_color(c: Color) -> bool {
    &&& 0 <= c.x <= SCALE
    &&& 0 <= c.y <= SCALE
    &&& 0 <= c.z <= SCALE
}

/// One output channel: the accumulated value is averaged over the sample
/// count, gamma-corrected by a square root, clamped to `[0, 1]`, and
/// scaled to the byte range.
pub open spec fn spec_format_channel(c: int, samples: int) -> int {
    let avg = c / samples;
    let gamma = sqrt_floor((avg * SCALE) as nat) as int;
    let clamped = if gamma > SCALE { SCALE as int } else { gamma };
    255 * clamped / (SCALE as int)
}

/// The output pixel for an accumulated color: each channel averaged,
/// gamma-corrected, clamped, and scaled to a byte.
pub open spec fn spec_format_color(c: Vec3D, samples: int) -> (u8, u8, u8) {
    (
        spec_format_channel(c.x as int, samples) as u8,
        spec_format_channel(c.y as int, samples) as u8,
        spec_format_channel(c.z as int, samples) as u8,
    )
}

/// Averages one accumulated channel over `samples` draws, applies
/// gamma-2 correction, clamps, and scales to a byte.
fn format_channel(c: i64, samples: u64) -> (r: u8)
    requires
        0 < samples <= 0x100_0000,
        0 <= c <= 0x1_0000_0000_0000,
    ensures
        r == spec_format_channel(c as int, samples as int),
{
    let avg: u64 = (c as u64) / samples;
    proof {
        assert(avg <= c as u64) by (nonlinear_arith)
            requires
                avg == (c as u64) / samples,
                samples >= 1,
        ;
    }
    proof {
        assert(avg <= 0x1_0000_0000_0000u64);
        assert((avg as u128) * (SCALE as u128) <= 0x1_0000_0000_0000_0000_0000u128)
            by (nonlinear_arith)
            requires
                avg as u128 <= 0x1_0000_0000_0000u128,
                SCALE as u128 == 0x1_0000u128,
        ;
    }
    let g128 = isqrt((avg as u128) * (SCALE as u128));
    proof {
        lemma_sqrt_floor_bounds(((avg as u128) * (SCALE as u128)) as nat);
        let s = sqrt_floor(((avg as u128) * (SCALE as u128)) as nat);
        if s > 0x1_0000_0000_0000 {
            assert(s * s > 0x1_0000_0000_0000_0000_0000_0000) by (nonlinear_arith)
                requires
                    s > 0x1_0000_0000_0000nat,
            ;
            assert((avg as u128) * (SCALE as u128) <= 0x1_0000_0000_0000u128 * 0x1_0000u128)
                by (nonlinear_arith)
                requires
                    avg as u128 <= 0x1_0000_0000_0000u128,
                    SCALE as u128 == 0x1_0000u128,
            ;
        }
        assert(s <= 0x1_0000_0000_0000);
    }
    let gamma: u64 = g128 as u64;
    let clamped: u64 = if gamma > 65536 {
        65536
    } else {
        gamma
    };
    let scaled: u64 = 255 * clamped / 65536;
    proof {
        assert(scaled <= 255) by (nonlinear_arith)
            requires
                scaled as int == 255 * (clamped as int) / 65536,
                clamped <= 65536u64,
        ;
    }
    scaled as u8
}

impl Vec3D {
    /// Converts an accumulated color sum to one output pixel: each
    /// channel averaged over the sample count, gamma-corrected by a
    /// square root, clamped, and scaled to `0..=255`.
    pub fn format_color(&self, samples: u64) -> (r: (u8, u8, u8))
        requires
            0 < samples <= 0x100_0000,
            0 <= self.x <= 0x1_0000_0000_0000,
            0 <= self.y <= 0x1_0000_0000_0000,
            0 <= self.z <= 0x1_0000_0000_0000,
        ensures
            r.0 == spec_format_channel(self.x as int, samples as int),
            r.1 == spec_format_channel(self.y as int, samples as int),
            r.2 == spec_format_channel(self.z as int, samples as int),
            r == spec_format_color(*self, samples as int),
    {
        (format_channel(self.x, samples), format_channel(self.y, samples), format_channel(
            self.z,
            samples,
        ))
    }
}

} // verus!
