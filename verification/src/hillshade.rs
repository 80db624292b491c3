use vstd::prelude::*;
use crate::gradient::{gradient, horn, lemma_flat_gradient, Gradient};
use crate::light::{CellSize, LightSource};
use crate::raster::{gray, lemma_offset_in_grid, offset, Color, Raster};

verus! {

/// The square of an integer.
pub open spec fn sq(x: int) -> int {
    x * x
}

/// How directly the light strikes the surface, before normalising.
///
/// With slopes `p = dx / (8 c)` to the east and `q = dy / (8 c)` to the
/// south, cell size `c`, light altitude `a` and light direction `t`
/// (anticlockwise from east), the illumination
/// `cos a * cos s + sin a * sin s * cos(t - aspect)` of a surface of slope
/// angle `s = atan(sqrt(p^2 + q^2))` facing `aspect = atan2(q, -p)` equals
/// `(cos a + sin a * (q * sin t - p * cos t)) / sqrt(1 + p^2 + q^2)`.
/// This is the numerator of that quotient times `8 c`, in units of
/// 1/65536 squared. On level ground the second term vanishes, whichever way
/// the ground is said to face.
pub open spec fn incidence(g: Gradient, cell: CellSize, light: LightSource) -> int {
    light.spec_altitude_cos() * (8 * cell.spec_fixed()) + light.spec_altitude_sin() * (g.dy
        * light.north() - g.dx * light.east())
}

/// The square of the denominator of the illumination quotient times `8 c`:
/// `(8 c)^2 + dx^2 + dy^2`, in units of 1/65536 squared.
pub open spec fn steepness(g: Gradient, cell: CellSize) -> int {
    sq(8 * cell.spec_fixed()) + sq(65536) * (sq(g.dx as int) + sq(g.dy as int))
}

/// Whether an illumination of `m / (65536 * sqrt(s))`, scaled to 0..255,
/// rounds to `level` or more: whether `255 * m / (65536 * sqrt(s))` is at
/// least `level - 1/2`. Both sides are compared by their squares.
pub open spec fn reaches(level: int, m: int, s: int) -> bool {
    level <= 0 || (m > 0 && sq((2 * level - 1) * 65536) * s <= sq(510 * m))
}

/// The highest of the levels `0..=top` that is reached.
pub open spec fn highest_reached(top: nat, m: int, s: int) -> int
    decreases top,
{
    if top == 0 {
        0
    } else if reaches(top as int, m, s) {
        top as int
    } else {
        highest_reached((top - 1) as nat, m, s)
    }
}

/// The illumination `m / (65536 * sqrt(s))` scaled to 0..255 and rounded to
/// the nearest level, halves upwards; anything below zero is 0 and anything
/// above full light is 255.
pub open spec fn brightness(m: int, s: int) -> int {
    highest_reached(255, m, s)
}

/// The brightness of the surface with gradient `g`.
pub open spec fn illumination(g: Gradient, cell: CellSize, light: LightSource) -> int {
    brightness(incidence(g, cell, light), steepness(g, cell))
}

/// The brightness of level ground: 255 times the cosine of the light's
/// altitude, rounded to the nearest level, and 0 where that cosine is
/// negative.
pub open spec fn level_brightness(light: LightSource) -> int {
    if light.spec_altitude_cos() <= 0 {
        0
    } else {
        (510 * light.spec_altitude_cos() + 65536) / 131072
    }
}

/// The gray sample that the hillshade holds at `(x, y)`.
pub open spec fn shade_at(
    elevation: Raster<u8>,
    cell: CellSize,
    light: LightSource,
    x: int,
    y: int,
) -> Color {
    gray(illumination(horn(elevation, x, y), cell, light) as u8)
}

proof fn lemma_square_order(a: int, b: int, c: int)
    requires
        0 <= a <= b,
        0 <= c,
    ensures
        sq(a) * c <= sq(b) * c,
{
    assert(a * a <= b * b) by (nonlinear_arith)
        requires
            0 <= a <= b,
    ;
    assert((a * a) * c <= (b * b) * c) by (nonlinear_arith)
        requires
            a * a <= b * b,
            0 <= c,
    ;
}

/// A level that is reached has every lower level reached too.
pub proof fn lemma_reaches_below(low: int, high: int, m: int, s: int)
    requires
        low <= high,
        0 <= s,
        reaches(high, m, s),
    ensures
        reaches(low, m, s),
{
    if low > 0 {
        lemma_square_order((2 * low - 1) * 65536, (2 * high - 1) * 65536, s);
    }
}

proof fn lemma_highest_is(top: nat, m: int, s: int, level: int)
    requires
        0 <= level <= top,
        reaches(level, m, s),
        forall|k: int| level < k <= top ==> !reaches(k, m, s),
    ensures
        highest_reached(top, m, s) == level,
    decreases top,
{
    if top > 0 && level < top {
        lemma_highest_is((top - 1) as nat, m, s, level);
    }
}

/// The brightness is the one level that is reached while the next is not.
pub proof fn lemma_brightness_unique(m: int, s: int, level: int)
    requires
        0 <= s,
        0 <= level <= 255,
        reaches(level, m, s),
        level < 255 ==> !reaches(level + 1, m, s),
    ensures
        brightness(m, s) == level,
{
    assert forall|k: int| level < k <= 255 implies !reaches(k, m, s) by {
        if reaches(k, m, s) {
            lemma_reaches_below(level + 1, k, m, s);
        }
    }
    lemma_highest_is(255, m, s, level);
}

proof fn lemma_highest_range(top: nat, m: int, s: int)
    ensures
        0 <= highest_reached(top, m, s) <= top,
        reaches(highest_reached(top, m, s), m, s),
        forall|k: int| highest_reached(top, m, s) < k <= top ==> !reaches(k, m, s),
    decreases top,
{
    if top > 0 && !reaches(top as int, m, s) {
        lemma_highest_range((top - 1) as nat, m, s);
    }
}

/// The brightness is a level between 0 and 255; that level is reached and
/// no higher one is.
pub proof fn lemma_brightness_range(m: int, s: int)
    ensures
        0 <= brightness(m, s) <= 255,
        reaches(brightness(m, s), m, s),
        forall|k: int| brightness(m, s) < k <= 255 ==> !reaches(k, m, s),
{
    lemma_highest_range(255, m, s);
}

/// A surface that the light does not strike from above is black: an
/// illumination of zero or less gives brightness 0.
pub proof fn lemma_brightness_floor(m: int, s: int)
    requires
        m <= 0,
    ensures
        brightness(m, s) == 0,
{
    lemma_highest_is(255, m, s, 0);
}

/// On level ground the illumination is the cosine of the light's altitude,
/// whatever the cell size and the bearing of the light.
pub proof fn lemma_level_ground(cell: CellSize, light: LightSource)
    requires
        cell.positive(),
        light.in_range(),
    ensures
        illumination(Gradient { dx: 0, dy: 0 }, cell, light) == level_brightness(light),
{
    cell.lemma_range();
    light.lemma_range();
    let g = Gradient { dx: 0, dy: 0 };
    let c: int = 8 * cell.spec_fixed();
    let ca: int = light.spec_altitude_cos();
    let m: int = incidence(g, cell, light);
    let s: int = steepness(g, cell);
    assert(m == ca * c) by (nonlinear_arith)
        requires
            m == ca * c + light.spec_altitude_sin() * (0 * light.north() - 0 * light.east()),
    ;
    assert(s == c * c) by (nonlinear_arith)
        requires
            s == sq(c) + sq(65536) * (sq(0) + sq(0)),
            sq(c) == c * c,
            sq(0) == 0,
    ;
    assert(s >= 0) by (nonlinear_arith)
        requires
            s == c * c,
    ;
    if ca <= 0 {
        assert(m <= 0) by (nonlinear_arith)
            requires
                m == ca * c,
                ca <= 0,
                c > 0,
        ;
        lemma_brightness_floor(m, s);
    } else {
        let level: int = (510 * ca + 65536) / 131072;
        assert(m > 0) by (nonlinear_arith)
            requires
                m == ca * c,
                ca > 0,
                c > 0,
        ;
        if level > 0 {
            let a: int = (2 * level - 1) * 65536;
            let b: int = 510 * ca;
            assert(0 <= a <= b);
            assert(sq(a) * s <= sq(510 * m)) by (nonlinear_arith)
                requires
                    0 <= a <= b,
                    b == 510 * ca,
                    m == ca * c,
                    s == c * c,
                    c > 0,
                    sq(a) == a * a,
                    sq(510 * m) == (510 * m) * (510 * m),
            {
                assert(a * c <= b * c);
                assert((a * c) * (a * c) <= (b * c) * (b * c));
                assert(a * a * (c * c) == (a * c) * (a * c));
                assert(b * c == 510 * m);
            }
        }
        if level < 255 {
            let a: int = (2 * (level + 1) - 1) * 65536;
            let b: int = 510 * ca;
            assert(0 <= b < a);
            assert(sq(a) * s > sq(510 * m)) by (nonlinear_arith)
                requires
                    0 <= b < a,
                    b == 510 * ca,
                    m == ca * c,
                    s == c * c,
                    c > 0,
                    sq(a) == a * a,
                    sq(510 * m) == (510 * m) * (510 * m),
            {
                assert(a * c > b * c);
                assert(b * c >= 0);
                assert((a * c) * (a * c) > (b * c) * (b * c));
                assert(a * a * (c * c) == (a * c) * (a * c));
                assert(b * c == 510 * m);
            }
        }
        lemma_brightness_unique(m, s, level);
    }
}

proof fn lemma_product_bound(a: int, b: int, amax: int, bmax: int)
    requires
        -amax <= a <= amax,
        -bmax <= b <= bmax,
    ensures
        -(amax * bmax) <= a * b <= amax * bmax,
{
    assert(-(amax * bmax) <= a * b <= amax * bmax) by (nonlinear_arith)
        requires
            -amax <= a <= amax,
            -bmax <= b <= bmax,
    ;
}

/// The brightness of the surface with gradient `g` under the given light:
/// the illumination scaled to 0..255 and rounded. A surface turned away from
/// the light is black.
pub fn illuminate(g: Gradient, cell: CellSize, light: &LightSource) -> (level: u8)
    ensures
        level == illumination(g, cell, *light),
        incidence(g, cell, *light) <= 0 ==> level == 0,
{
    let c: i64 = 8 * (cell.fixed() as i64);
    let east: i64 = light.azimuth_sin() as i64;
    let north: i64 = light.azimuth_cos() as i64;
    let sa: i64 = light.altitude_sin() as i64;
    let ca: i64 = light.altitude_cos() as i64;
    let dx: i64 = g.dx as i64;
    let dy: i64 = g.dy as i64;
    proof {
        lemma_product_bound(dy as int, north as int, 32768, 65536);
        lemma_product_bound(dx as int, east as int, 32768, 65536);
        lemma_product_bound(sa as int, dy * north - dx * east, 65536, 4294967296);
        lemma_product_bound(ca as int, c as int, 65536, 34359738360);
    }
    let across: i64 = dy * north - dx * east;
    let m: i64 = ca * c + sa * across;
    let ghost s: int = steepness(g, cell);
    proof {
        assert(m == incidence(g, cell, *light));
        lemma_product_bound(c as int, c as int, 34359738360, 34359738360);
        lemma_product_bound(dx as int, dx as int, 32768, 32768);
        lemma_product_bound(dy as int, dy as int, 32768, 32768);
        assert(dx * dx >= 0 && dy * dy >= 0 && c * c >= 0) by (nonlinear_arith);
    }
    if m <= 0 {
        proof {
            lemma_brightness_floor(m as int, s);
        }
        return 0;
    }
    let wide: u128 = c as u128;
    let flat: u128 = wide * wide;
    let rise: u128 = (dx * dx + dy * dy) as u128;
    let base: u128 = flat + 4294967296 * rise;
    let reach: u128 = 510 * (m as u128);
    proof {
        lemma_product_bound(reach as int, reach as int, 2305843009213693952, 2305843009213693952);
    }
    let light_sq: u128 = reach * reach;
    proof {
        assert(base == s);
        assert(0 <= s <= 1189814992754266079232);
        assert(light_sq == sq(510 * m));
    }
    let mut low: u16 = 0;
    let mut high: u16 = 256;
    while high - low > 1
        invariant
            0 <= low < high <= 256,
            m > 0,
            0 <= s <= 1189814992754266079232,
            base == s,
            light_sq == sq(510 * m),
            reaches(low as int, m as int, s),
            high <= 255 ==> !reaches(high as int, m as int, s),
        decreases high - low,
    {
        let mid: u16 = (low + high) / 2;
        let odd: u128 = ((2 * mid - 1) as u128) * 65536;
        proof {
            lemma_product_bound(odd as int, odd as int, 33488896, 33488896);
            lemma_product_bound(odd * odd, base as int, 1121506155298816, 1189814992754266079232);
            assert(odd * odd >= 0) by (nonlinear_arith);
            assert(odd == (2 * mid - 1) * 65536);
            assert(sq((2 * mid - 1) * 65536) == odd * odd);
        }
        if odd * odd * base <= light_sq {
            low = mid;
        } else {
            high = mid;
        }
    }
    proof {
        lemma_brightness_unique(m as int, s, low as int);
    }
    low as u8
}

/// The hillshade of an elevation raster: a gray raster over the same grid
/// whose sample at each place is the brightness of the surface there, the
/// gradient taken over the eight neighbours with the border repeated outwards.
pub fn shade(elevation: &Raster<u8>, cell: CellSize, light: &LightSource) -> (out: Raster<Color>)
    ensures
        out.spec_width() == elevation.spec_width(),
        out.spec_height() == elevation.spec_height(),
        out@.len() == elevation@.len(),
        forall|x: int, y: int|
            elevation.contains(x, y) ==> out.at(x, y) == #[trigger] shade_at(
                *elevation,
                cell,
                *light,
                x,
                y,
            ),
{
    let width: usize = elevation.width();
    let height: usize = elevation.height();
    let count: usize = elevation.len();
    let mut samples: Vec<Color> = Vec::new();
    let mut i: usize = 0;
    while i < count
        invariant
            width == elevation.spec_width(),
            height == elevation.spec_height(),
            count == width * height,
            i <= count,
            samples@.len() == i,
            forall|k: int|
                0 <= k < i ==> #[trigger] samples@[k] == shade_at(
                    *elevation,
                    cell,
                    *light,
                    k % (width as int),
                    k / (width as int),
                ),
        decreases count - i,
    {
        proof {
            assert(width > 0 && i / width < height && i % width < width) by (nonlinear_arith)
                requires
                    0 <= i < width * height,
                    0 <= width,
                    0 <= height,
            ;
        }
        let x: usize = i % width;
        let y: usize = i / width;
        let level: u8 = illuminate(gradient(elevation, x, y), cell, light);
        samples.push(Color { red: level, green: level, blue: level });
        i = i + 1;
    }
    let out: Raster<Color> = Raster::from_vec(width, height, samples).unwrap();
    proof {
        assert forall|x: int, y: int| elevation.contains(x, y) implies out.at(x, y)
            == #[trigger] shade_at(*elevation, cell, *light, x, y) by {
            lemma_offset_in_grid(width as nat, height as nat, x, y);
            let k: int = offset(width as nat, x, y);
            assert(out@[k] == samples@[k]);
        }
    }
    out
}

/// On a raster of one elevation every sample of the hillshade is the same
/// gray, the brightness of level ground, at the border as in the middle.
pub proof fn lemma_flat_shade(
    elevation: Raster<u8>,
    level: u8,
    cell: CellSize,
    light: LightSource,
    x: int,
    y: int,
)
    requires
        elevation.rectangular(),
        forall|i: int| 0 <= i < elevation@.len() ==> elevation@[i] == level,
        elevation.contains(x, y),
        cell.positive(),
        light.in_range(),
    ensures
        shade_at(elevation, cell, light, x, y) == gray(level_brightness(light) as u8),
{
    lemma_flat_gradient(elevation, level, x, y);
    lemma_level_ground(cell, light);
}

} // verus!
