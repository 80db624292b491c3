use vstd::prelude::*;
use crate::error::ShadeError;
use crate::raster::{Color, Raster};

verus! {

/// One channel under illumination `shade`: the channel times `shade / 255`,
/// rounded down.
pub open spec fn dim(channel: u8, shade: u8) -> int {
    channel * shade / 255
}

/// A colour under illumination `shade`, channel by channel.
pub open spec fn modulate(color: Color, shade: u8) -> Color {
    Color {
        red: dim(color.red, shade) as u8,
        green: dim(color.green, shade) as u8,
        blue: dim(color.blue, shade) as u8,
    }
}

/// Illumination only darkens: a dimmed channel never exceeds the channel it
/// came from. Full illumination returns it unchanged and none gives black.
pub proof fn lemma_dim_darkens(channel: u8, shade: u8)
    ensures
        0 <= dim(channel, shade) <= channel,
        shade == 255 ==> dim(channel, shade) == channel,
        shade == 0 ==> dim(channel, shade) == 0,
{
    assert(0 <= channel * shade <= channel * 255) by (nonlinear_arith)
        requires
            0 <= channel,
            0 <= shade <= 255,
    ;
}

/// A modulated colour is no brighter than the colour in any channel, and is
/// the colour itself under full illumination.
pub proof fn lemma_modulate_darkens(color: Color, shade: u8)
    ensures
        modulate(color, shade).red <= color.red,
        modulate(color, shade).green <= color.green,
        modulate(color, shade).blue <= color.blue,
        shade == 255 ==> modulate(color, shade) == color,
{
    lemma_dim_darkens(color.red, shade);
    lemma_dim_darkens(color.green, shade);
    lemma_dim_darkens(color.blue, shade);
}

/// Dims one channel by the illumination `shade`.
pub fn dim_channel(channel: u8, shade: u8) -> (out: u8)
    ensures
        out == dim(channel, shade),
        out <= channel,
{
    proof {
        lemma_dim_darkens(channel, shade);
    }
    let product: u32 = (channel as u32) * (shade as u32);
    (product / 255) as u8
}

/// Dims a colour by the illumination `shade`.
pub fn modulate_color(color: Color, shade: u8) -> (out: Color)
    ensures
        out == modulate(color, shade),
{
    proof {
        lemma_modulate_darkens(color, shade);
    }
    Color {
        red: dim_channel(color.red, shade),
        green: dim_channel(color.green, shade),
        blue: dim_channel(color.blue, shade),
    }
}

/// Whether two rasters cover the same grid.
pub open spec fn same_grid<A, B>(a: Raster<A>, b: Raster<B>) -> bool {
    a.spec_width() == b.spec_width() && a.spec_height() == b.spec_height()
}

/// Multiplies a colour raster by an illumination raster.
///
/// The two must cover the same grid; otherwise nothing is built and
/// `DimensionMismatch` is returned. Each sample of the result is the colour
/// at that place dimmed by the red channel of the illumination there (the
/// illumination is gray, so any channel would do). No channel of the result
/// exceeds the colour's channel.
pub fn blend(color: &Raster<Color>, shade: &Raster<Color>) -> (result: Result<
    Raster<Color>,
    ShadeError,
>)
    ensures
        result.is_ok() <==> same_grid(*color, *shade),
        result matches Err(e) ==> e == ShadeError::DimensionMismatch,
        result matches Ok(out) ==> {
            &&& same_grid(out, *color)
            &&& out@.len() == color@.len()
            &&& out@.len() == shade@.len()
            &&& forall|i: int|
                0 <= i < out@.len() ==> #[trigger] out@[i] == modulate(color@[i], shade@[i].red)
            &&& forall|i: int|
                0 <= i < out@.len() ==> {
                    &&& (#[trigger] out@[i]).red <= color@[i].red
                    &&& out@[i].green <= color@[i].green
                    &&& out@[i].blue <= color@[i].blue
                    &&& shade@[i].red == 255 ==> out@[i] == color@[i]
                }
        },
{
    if color.width() != shade.width() || color.height() != shade.height() {
        return Err(ShadeError::DimensionMismatch);
    }
    let count: usize = color.len();
    let shade_count: usize = shade.len();
    let mut samples: Vec<Color> = Vec::new();
    let mut i: usize = 0;
    while i < count
        invariant
            count == color@.len(),
            count == shade@.len(),
            i <= count,
            samples@.len() == i,
            forall|k: int|
                0 <= k < i ==> #[trigger] samples@[k] == modulate(color@[k], shade@[k].red),
        decreases count - i,
    {
        let c: Color = modulate_color(*color.sample(i), shade.sample(i).red);
        samples.push(c);
        i = i + 1;
    }
    let out: Raster<Color> = Raster::from_vec(color.width(), color.height(), samples).unwrap();
    proof {
        assert forall|i: int| 0 <= i < out@.len() implies {
            &&& (#[trigger] out@[i]).red <= color@[i].red
            &&& out@[i].green <= color@[i].green
            &&& out@[i].blue <= color@[i].blue
            &&& shade@[i].red == 255 ==> out@[i] == color@[i]
        } by {
            lemma_modulate_darkens(color@[i], shade@[i].red);
        }
    }
    Ok(out)
}

} // verus!
