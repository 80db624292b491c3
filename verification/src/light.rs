use vstd::prelude::*;
use crate::error::ShadeError;

verus! {

/// The number that stands for 1 in fixed-point values: a real number `r` is
/// held as `r * 65536`, rounded to an integer.
pub const FIXED_ONE: i32 = 65536;

/// The horizontal ground distance that one step between samples stands for,
/// as a fixed-point number. It is always strictly positive.
#[derive(Clone, Copy, Debug)]
pub struct CellSize {
    fixed: u32,
}

impl CellSize {
    #[verifier::type_invariant]
    pub closed spec fn positive(self) -> bool {
        self.fixed > 0
    }

    /// The cell size in units of 1/65536.
    pub closed spec fn spec_fixed(self) -> int {
        self.fixed as int
    }

    /// A positive cell size has a positive fixed-point value that fits in 32
    /// bits.
    pub proof fn lemma_range(self)
        requires
            self.positive(),
        ensures
            0 < self.spec_fixed() <= u32::MAX,
    {
    }

    /// Accepts a cell size given in units of 1/65536. Zero is refused: a
    /// slope over no distance is not defined.
    pub fn new(fixed: u32) -> (result: Result<CellSize, ShadeError>)
        ensures
            result.is_ok() <==> fixed > 0,
            result matches Ok(cell) ==> cell.spec_fixed() == fixed && cell.positive(),
            result matches Err(e) ==> e == ShadeError::InvalidConfiguration,
    {
        if fixed > 0 {
            Ok(CellSize { fixed })
        } else {
            Err(ShadeError::InvalidConfiguration)
        }
    }

    /// The cell size in units of 1/65536.
    pub fn fixed(&self) -> (f: u32)
        ensures
            f == self.spec_fixed(),
            f > 0,
            self.positive(),
    {
        proof {
            use_type_invariant(self);
        }
        self.fixed
    }
}

/// Whether `value` is a fixed-point number between -1 and 1.
pub open spec fn is_unit_fraction(value: int) -> bool {
    -65536 <= value <= 65536
}

/// Where the light comes from: the compass bearing of the sun (clockwise
/// from north) and its altitude above the horizon, each given by its sine and
/// cosine as fixed-point numbers between -1 and 1.
#[derive(Clone, Copy, Debug)]
pub struct LightSource {
    azimuth_sin: i32,
    azimuth_cos: i32,
    altitude_sin: i32,
    altitude_cos: i32,
}

impl LightSource {
    #[verifier::type_invariant]
    pub closed spec fn in_range(self) -> bool {
        &&& is_unit_fraction(self.azimuth_sin as int)
        &&& is_unit_fraction(self.azimuth_cos as int)
        &&& is_unit_fraction(self.altitude_sin as int)
        &&& is_unit_fraction(self.altitude_cos as int)
    }

    /// Sine of the compass bearing.
    pub closed spec fn spec_azimuth_sin(self) -> int {
        self.azimuth_sin as int
    }

    /// Cosine of the compass bearing.
    pub closed spec fn spec_azimuth_cos(self) -> int {
        self.azimuth_cos as int
    }

    /// Sine of the altitude.
    pub closed spec fn spec_altitude_sin(self) -> int {
        self.altitude_sin as int
    }

    /// Cosine of the altitude.
    pub closed spec fn spec_altitude_cos(self) -> int {
        self.altitude_cos as int
    }

    /// Cosine of the light's direction as an angle counted anticlockwise
    /// from east, which is the bearing turned by a quarter circle and
    /// mirrored: the cosine of `90 - bearing` degrees.
    pub open spec fn east(self) -> int {
        self.spec_azimuth_sin()
    }

    /// Sine of the light's direction as an angle counted anticlockwise from
    /// east: the sine of `90 - bearing` degrees.
    pub open spec fn north(self) -> int {
        self.spec_azimuth_cos()
    }

    /// A light in range has all four components between -1 and 1.
    pub proof fn lemma_range(self)
        requires
            self.in_range(),
        ensures
            is_unit_fraction(self.spec_azimuth_sin()),
            is_unit_fraction(self.spec_azimuth_cos()),
            is_unit_fraction(self.spec_altitude_sin()),
            is_unit_fraction(self.spec_altitude_cos()),
    {
    }

    /// Accepts a light direction whose four components all lie between -1
    /// and 1 in fixed point, and refuses any other.
    pub fn new(azimuth_sin: i32, azimuth_cos: i32, altitude_sin: i32, altitude_cos: i32) -> (result:
        Result<LightSource, ShadeError>)
        ensures
            result.is_ok() <==> is_unit_fraction(azimuth_sin as int) && is_unit_fraction(
                azimuth_cos as int,
            ) && is_unit_fraction(altitude_sin as int) && is_unit_fraction(altitude_cos as int),
            result matches Ok(light) ==> {
                &&& light.spec_azimuth_sin() == azimuth_sin
                &&& light.spec_azimuth_cos() == azimuth_cos
                &&& light.spec_altitude_sin() == altitude_sin
                &&& light.spec_altitude_cos() == altitude_cos
                &&& light.in_range()
            },
            result matches Err(e) ==> e == ShadeError::InvalidConfiguration,
    {
        if in_unit_range(azimuth_sin) && in_unit_range(azimuth_cos) && in_unit_range(altitude_sin)
            && in_unit_range(altitude_cos) {
            Ok(LightSource { azimuth_sin, azimuth_cos, altitude_sin, altitude_cos })
        } else {
            Err(ShadeError::InvalidConfiguration)
        }
    }

    /// Sine of the compass bearing.
    pub fn azimuth_sin(&self) -> (v: i32)
        ensures
            v == self.spec_azimuth_sin(),
            is_unit_fraction(v as int),
    {
        proof {
            use_type_invariant(self);
        }
        self.azimuth_sin
    }

    /// Cosine of the compass bearing.
    pub fn azimuth_cos(&self) -> (v: i32)
        ensures
            v == self.spec_azimuth_cos(),
            is_unit_fraction(v as int),
    {
        proof {
            use_type_invariant(self);
        }
        self.azimuth_cos
    }

    /// Sine of the altitude.
    pub fn altitude_sin(&self) -> (v: i32)
        ensures
            v == self.spec_altitude_sin(),
            is_unit_fraction(v as int),
    {
        proof {
            use_type_invariant(self);
        }
        self.altitude_sin
    }

    /// Cosine of the altitude.
    pub fn altitude_cos(&self) -> (v: i32)
        ensures
            v == self.spec_altitude_cos(),
            is_unit_fraction(v as int),
    {
        proof {
            use_type_invariant(self);
        }
        self.altitude_cos
    }
}

/// Whether a fixed-point value lies between -1 and 1.
pub fn in_unit_range(value: i32) -> (ok: bool)
    ensures
        ok == is_unit_fraction(value as int),
{
    -FIXED_ONE <= value && value <= FIXED_ONE
}

} // verus!
