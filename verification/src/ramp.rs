use vstd::prelude::*;
use crate::raster::{Color, Raster};

verus! {

/// Red channel of the ramp: the elevation itself, so that with `e = v / 255`
/// the channel is `255 * e`.
pub open spec fn ramp_red(v: u8) -> int {
    v as int
}

/// Green channel of the ramp: `255 * (1 - |e - 1/2|)` rounded down, where
/// `e = v / 255`. It peaks halfway up and falls off evenly to both sides.
pub open spec fn ramp_green(v: u8) -> int {
    let distance: int = if 2 * v >= 255 { 2 * v - 255 } else { 255 - 2 * v };
    (510 - distance) / 2
}

/// Blue channel of the ramp: `128 * (1 - e)` rounded down, where
/// `e = v / 255`. It never passes half intensity.
pub open spec fn ramp_blue(v: u8) -> int {
    128 * (255 - v) / 255
}

/// The colour that the ramp gives to elevation `v`: dark green in the
/// lowlands, yellow halfway up, white at the top.
pub open spec fn ramp(v: u8) -> Color {
    Color { red: ramp_red(v) as u8, green: ramp_green(v) as u8, blue: ramp_blue(v) as u8 }
}

/// Every channel of the ramp is an 8-bit value as it stands: nothing is cut
/// off when it is stored. Green stays in the upper half, blue in the lower.
pub proof fn lemma_ramp_channels(v: u8)
    ensures
        0 <= ramp_red(v) <= 255,
        127 <= ramp_green(v) <= 254,
        0 <= ramp_blue(v) <= 128,
        ramp(v).red == ramp_red(v),
        ramp(v).green == ramp_green(v),
        ramp(v).blue == ramp_blue(v),
{
}

/// The red channel never falls as the elevation rises.
pub proof fn lemma_ramp_red_monotone(low: u8, high: u8)
    requires
        low < high,
    ensures
        ramp(low).red <= ramp(high).red,
{
}

/// The colour of one elevation sample.
pub fn ramp_color(v: u8) -> (c: Color)
    ensures
        c == ramp(v),
{
    let twice: u32 = 2 * (v as u32);
    let distance: u32 = if twice >= 255 { twice - 255 } else { 255 - twice };
    let green: u32 = (510 - distance) / 2;
    let blue: u32 = 128 * (255 - v as u32) / 255;
    Color { red: v, green: green as u8, blue: blue as u8 }
}

/// Colours an elevation raster: the result covers the same grid, and each of
/// its samples is the ramp colour of the elevation at the same place.
pub fn colorize(elevation: &Raster<u8>) -> (out: Raster<Color>)
    ensures
        out.spec_width() == elevation.spec_width(),
        out.spec_height() == elevation.spec_height(),
        out@.len() == elevation@.len(),
        forall|i: int| 0 <= i < out@.len() ==> out@[i] == ramp(#[trigger] elevation@[i]),
{
    let count: usize = elevation.len();
    let mut samples: Vec<Color> = Vec::new();
    let mut i: usize = 0;
    while i < count
        invariant
            count == elevation@.len(),
            i <= count,
            samples@.len() == i,
            forall|k: int| 0 <= k < i ==> samples@[k] == ramp(#[trigger] elevation@[k]),
        decreases count - i,
    {
        let c: Color = ramp_color(*elevation.sample(i));
        samples.push(c);
        i = i + 1;
    }
    Raster::from_vec(elevation.width(), elevation.height(), samples).unwrap()
}

} // verus!
