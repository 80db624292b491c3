use vstd::prelude::*;

verus! {

/// An RGB triple of 8-bit channels.
#[derive(Clone, Copy, Debug, PartialEq, Eq, Structural)]
pub struct Color {
    pub red: u8,
    pub green: u8,
    pub blue: u8,
}

/// The gray colour whose three channels all equal `level`.
pub open spec fn gray(level: u8) -> Color {
    Color { red: level, green: level, blue: level }
}

/// A rectangular grid of samples in row-major order.
///
/// The grid always holds exactly `width * height` samples; a raster is built
/// once and only read afterwards.
pub struct Raster<T> {
    width: usize,
    height: usize,
    samples: Vec<T>,
}

/// Position of the sample in column `x` of row `y` in row-major storage of
/// rows that are `width` samples long.
pub open spec fn offset(width: nat, x: int, y: int) -> int {
    y * width + x
}

/// A position inside a `width` by `height` grid has an offset below
/// `width * height`, and the position can be read back from the offset.
pub proof fn lemma_offset_in_grid(width: nat, height: nat, x: int, y: int)
    requires
        0 <= x < width,
        0 <= y < height,
    ensures
        0 <= offset(width, x, y) < width * height,
        offset(width, x, y) / (width as int) == y,
        offset(width, x, y) % (width as int) == x,
{
    let w: int = width as int;
    assert(y * w >= 0) by (nonlinear_arith)
        requires y >= 0, w > 0;
    assert(y * w + x < width * height) by (nonlinear_arith)
        requires 0 <= x < w, 0 <= y < height, w == width;
    assert((y * w + x) / w == y && (y * w + x) % w == x) by (nonlinear_arith)
        requires 0 <= x < w, 0 <= y;
}

impl<T> Raster<T> {
    /// The grid is full: it holds exactly `width * height` samples. This
    /// holds of every raster that exists.
    #[verifier::type_invariant]
    pub closed spec fn rectangular(self) -> bool {
        self.samples@.len() == self.width * self.height
    }

    /// Number of columns.
    pub closed spec fn spec_width(self) -> nat {
        self.width as nat
    }

    /// Number of rows.
    pub closed spec fn spec_height(self) -> nat {
        self.height as nat
    }

    /// The samples, row after row.
    pub closed spec fn view(self) -> Seq<T> {
        self.samples@
    }

    /// The sample in column `x` of row `y`.
    pub open spec fn at(self, x: int, y: int) -> T {
        self@[offset(self.spec_width(), x, y)]
    }

    /// Whether `(x, y)` names a sample of this raster.
    pub open spec fn contains(self, x: int, y: int) -> bool {
        0 <= x < self.spec_width() && 0 <= y < self.spec_height()
    }

    /// A full grid holds exactly `width * height` samples.
    pub proof fn lemma_len(self)
        requires
            self.rectangular(),
        ensures
            self@.len() == self.spec_width() * self.spec_height(),
    {
    }

    /// Builds a raster from its samples in row-major order. The samples are
    /// accepted exactly when there are `width * height` of them.
    pub fn from_vec(width: usize, height: usize, samples: Vec<T>) -> (result: Option<Self>)
        ensures
            result.is_some() <==> samples@.len() == width * height,
            result matches Some(r) ==> r.spec_width() == width && r.spec_height() == height
                && r@ == samples@,
    {
        let given: usize = samples.len();
        match width.checked_mul(height) {
            Some(count) => {
                if given == count {
                    Some(Raster { width, height, samples })
                } else {
                    None
                }
            },
            None => None,
        }
    }

    /// Number of columns.
    pub fn width(&self) -> (w: usize)
        ensures
            w == self.spec_width(),
    {
        self.width
    }

    /// Number of rows.
    pub fn height(&self) -> (h: usize)
        ensures
            h == self.spec_height(),
    {
        self.height
    }

    /// Number of samples.
    pub fn len(&self) -> (n: usize)
        ensures
            n == self@.len(),
            n == self.spec_width() * self.spec_height(),
            self.rectangular(),
    {
        proof {
            use_type_invariant(self);
        }
        self.samples.len()
    }

    /// The sample at row-major position `index`.
    pub fn sample(&self, index: usize) -> (s: &T)
        requires
            index < self@.len(),
        ensures
            *s == self@[index as int],
    {
        &self.samples[index]
    }

    /// The sample in column `x` of row `y`, for a position inside the grid.
    pub fn pixel(&self, x: usize, y: usize) -> (s: &T)
        requires
            self.contains(x as int, y as int),
        ensures
            *s == self.at(x as int, y as int),
    {
        let count: usize = self.samples.len();
        proof {
            use_type_invariant(self);
            lemma_offset_in_grid(self.spec_width(), self.spec_height(), x as int, y as int);
            assert(offset(self.spec_width(), x as int, y as int) == y * self.width + x);
            assert(0 <= y * self.width) by (nonlinear_arith);
            assert(y * self.width + x < count);
        }
        &self.samples[y * self.width + x]
    }

    /// The sample in column `x` of row `y`, or `None` outside the grid.
    pub fn get(&self, x: usize, y: usize) -> (s: Option<&T>)
        ensures
            s.is_some() <==> self.contains(x as int, y as int),
            s matches Some(v) ==> *v == self.at(x as int, y as int),
    {
        if x < self.width && y < self.height {
            Some(self.pixel(x, y))
        } else {
            None
        }
    }
}

} // verus!
