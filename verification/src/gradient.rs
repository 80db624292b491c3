use vstd::prelude::*;
use crate::raster::{lemma_offset_in_grid, Raster};

verus! {

/// The surface gradient at one sample, before scaling: `dx` and `dy` are the
/// weighted differences of Horn's estimator, so that the true slopes are
/// `dx / (8 * cell_size)` to the east and `dy / (8 * cell_size)` to the south.
#[derive(Clone, Copy, Debug, PartialEq, Eq, Structural)]
pub struct Gradient {
    pub dx: i16,
    pub dy: i16,
}

/// The index in `0..n` that is nearest to `i`.
pub open spec fn clamp_index(i: int, n: nat) -> int {
    if i < 0 {
        0
    } else if i >= n {
        n - 1
    } else {
        i
    }
}

/// The elevation at `(x, y)`, where a position outside the grid stands for
/// the nearest sample on the border.
pub open spec fn clamped(elevation: Raster<u8>, x: int, y: int) -> u8 {
    elevation.at(
        clamp_index(x, elevation.spec_width()),
        clamp_index(y, elevation.spec_height()),
    )
}

/// East column minus west column of the neighbourhood of `(x, y)`, the
/// middle row counted twice.
pub open spec fn horn_dx(elevation: Raster<u8>, x: int, y: int) -> int {
    (clamped(elevation, x + 1, y - 1) + 2 * clamped(elevation, x + 1, y) + clamped(
        elevation,
        x + 1,
        y + 1,
    )) - (clamped(elevation, x - 1, y - 1) + 2 * clamped(elevation, x - 1, y) + clamped(
        elevation,
        x - 1,
        y + 1,
    ))
}

/// South row minus north row of the neighbourhood of `(x, y)`, the middle
/// column counted twice.
pub open spec fn horn_dy(elevation: Raster<u8>, x: int, y: int) -> int {
    (clamped(elevation, x - 1, y + 1) + 2 * clamped(elevation, x, y + 1) + clamped(
        elevation,
        x + 1,
        y + 1,
    )) - (clamped(elevation, x - 1, y - 1) + 2 * clamped(elevation, x, y - 1) + clamped(
        elevation,
        x + 1,
        y - 1,
    ))
}

/// Horn's estimate of the gradient at `(x, y)`.
pub open spec fn horn(elevation: Raster<u8>, x: int, y: int) -> Gradient {
    Gradient { dx: horn_dx(elevation, x, y) as i16, dy: horn_dy(elevation, x, y) as i16 }
}

/// Both differences lie within four full steps of elevation, so they are
/// stored without loss.
pub proof fn lemma_horn_range(elevation: Raster<u8>, x: int, y: int)
    ensures
        -1020 <= horn_dx(elevation, x, y) <= 1020,
        -1020 <= horn_dy(elevation, x, y) <= 1020,
        horn(elevation, x, y).dx == horn_dx(elevation, x, y),
        horn(elevation, x, y).dy == horn_dy(elevation, x, y),
{
}

/// On a raster of one elevation the gradient vanishes at every sample, the
/// border included: a neighbour outside the grid repeats the border, which is
/// at that elevation too.
pub proof fn lemma_flat_gradient(elevation: Raster<u8>, level: u8, x: int, y: int)
    requires
        elevation.rectangular(),
        forall|i: int| 0 <= i < elevation@.len() ==> elevation@[i] == level,
        elevation.contains(x, y),
    ensures
        horn(elevation, x, y) == (Gradient { dx: 0, dy: 0 }),
{
    elevation.lemma_len();
    let w: nat = elevation.spec_width();
    let h: nat = elevation.spec_height();
    assert forall|a: int, b: int| #[trigger] clamped(elevation, a, b) == level by {
        lemma_offset_in_grid(w, h, clamp_index(a, w), clamp_index(b, h));
    }
}

/// The elevation at `(x, y)`, with coordinates outside the grid moved to the
/// nearest border sample. The raster must hold at least one sample.
pub fn sample_clamped(elevation: &Raster<u8>, x: i128, y: i128) -> (z: u8)
    requires
        elevation.spec_width() > 0,
        elevation.spec_height() > 0,
    ensures
        z == clamped(*elevation, x as int, y as int),
{
    let width: usize = elevation.width();
    let height: usize = elevation.height();
    let column: usize = if x < 0 {
        0
    } else if x >= width as i128 {
        width - 1
    } else {
        x as usize
    };
    let row: usize = if y < 0 {
        0
    } else if y >= height as i128 {
        height - 1
    } else {
        y as usize
    };
    *elevation.pixel(column, row)
}

/// Horn's estimate of the gradient at a sample of the raster.
pub fn gradient(elevation: &Raster<u8>, x: usize, y: usize) -> (g: Gradient)
    requires
        elevation.contains(x as int, y as int),
    ensures
        g == horn(*elevation, x as int, y as int),
{
    let cx: i128 = x as i128;
    let cy: i128 = y as i128;
    let z1: i16 = sample_clamped(elevation, cx - 1, cy - 1) as i16;
    let z2: i16 = sample_clamped(elevation, cx, cy - 1) as i16;
    let z3: i16 = sample_clamped(elevation, cx + 1, cy - 1) as i16;
    let z4: i16 = sample_clamped(elevation, cx - 1, cy) as i16;
    let z5: i16 = sample_clamped(elevation, cx + 1, cy) as i16;
    let z6: i16 = sample_clamped(elevation, cx - 1, cy + 1) as i16;
    let z7: i16 = sample_clamped(elevation, cx, cy + 1) as i16;
    let z8: i16 = sample_clamped(elevation, cx + 1, cy + 1) as i16;
    Gradient {
        dx: (z3 + 2 * z5 + z8) - (z1 + 2 * z4 + z6),
        dy: (z6 + 2 * z7 + z8) - (z1 + 2 * z2 + z3),
    }
}

} // verus!
