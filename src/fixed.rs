//! Protocol fixed-point numbers and the affine transforms that map raw
//! valuator samples to engineering units.
//!
//! Values are kept exact: a transformed sample is a ratio of two integers
//! together with the unit it is expressed in, and conversion to floating
//! point happens outside the library.
use vstd::prelude::*;

verus! {

/// Number of fixed-point units in one whole unit of a 32.32 sample.
pub const FRAC_ONE: i128 = 4294967296;

/// A 32.32 fixed-point valuator sample as the protocol reports it.
///
/// The fractional part adds to a non-negative integral part and extends a
/// negative one away from zero: `{ integral: 0, frac: half }` is 0.5 and
/// `{ integral: -1, frac: half }` is -1.5.
#[derive(Clone, Copy, Debug, PartialEq, Eq, Structural)]
pub struct Fixed {
    pub integral: i32,
    pub frac: u32,
}

/// The value of a sample, in units of 2^-32.
pub open spec fn fixed_units(f: Fixed) -> int {
    if f.integral >= 0 {
        f.integral as int * FRAC_ONE as int + f.frac as int
    } else {
        f.integral as int * FRAC_ONE as int - f.frac as int
    }
}

impl Fixed {
    /// The value of the sample in units of 2^-32.
    pub fn units(self) -> (r: i128)
        ensures
            r as int == fixed_units(self),
    {
        let whole: i128 = self.integral as i128 * FRAC_ONE;
        if self.integral >= 0 {
            whole + self.frac as i128
        } else {
            whole - self.frac as i128
        }
    }

    /// The sample as an exact ratio, in the unit it was reported in.
    pub fn to_scaled(self) -> (r: Scaled)
        ensures
            r.num as int == fixed_units(self),
            r.den == FRAC_ONE,
            r.unit == Unit::One,
    {
        Scaled { num: self.units(), den: FRAC_ONE, unit: Unit::One }
    }
}

/// What a transformed value is measured in.
#[derive(Clone, Copy, Debug, PartialEq, Eq, Structural)]
pub enum Unit {
    /// A plain number (pressure in `[0, 1]`).
    One,
    /// Radians, where the ratio counts degrees: the value is `num / den * pi / 180`.
    Degree,
    /// Radians, where the ratio counts full turns: the value is `num / den * 2 * pi`.
    Turn,
}

/// An exact value `num / den` in the given unit; `den` is never zero.
#[derive(Clone, Copy, Debug, PartialEq, Eq, Structural)]
pub struct Scaled {
    pub num: i128,
    pub den: i128,
    pub unit: Unit,
}

/// Affine map `(value + bias) * scale`, where the scale is `1 / span` in the
/// given unit. `bias` and `span` are in units of 2^-32.
#[derive(Clone, Copy, Debug, PartialEq, Eq, Structural)]
pub struct Transform {
    pub bias: i128,
    pub span: i128,
    pub unit: Unit,
}

/// `(value + bias) / span`, in the transform's unit.
pub open spec fn apply_spec(t: Transform, value: Fixed) -> Scaled {
    Scaled { num: (fixed_units(value) + t.bias) as i128, den: t.span, unit: t.unit }
}

/// Bound on the magnitude of any sample, in units of 2^-32.
pub open spec fn units_bound() -> int {
    0x1_0000_0000_0000_0000
}

pub proof fn lemma_units_bounded(f: Fixed)
    ensures
        -units_bound() <= fixed_units(f) <= units_bound(),
{
    assert(-0x8000_0000int * 0x1_0000_0000int - 0xFFFF_FFFFint >= -units_bound()) by (nonlinear_arith);
    if f.integral >= 0 {
        assert(f.integral as int * FRAC_ONE as int <= 0x7FFF_FFFFint * 0x1_0000_0000int) by (nonlinear_arith)
            requires f.integral as int <= 0x7FFF_FFFF, FRAC_ONE == 0x1_0000_0000int;
    } else {
        assert(f.integral as int * FRAC_ONE as int >= -0x8000_0000int * 0x1_0000_0000int) by (nonlinear_arith)
            requires f.integral as int >= -0x8000_0000, FRAC_ONE == 0x1_0000_0000int;
    }
}

/// The transform that maps `[min, max]` onto one whole `unit`.
pub open spec fn range_transform(min: Fixed, max: Fixed, unit: Unit) -> Transform {
    Transform {
        bias: (-fixed_units(min)) as i128,
        span: (fixed_units(max) - fixed_units(min)) as i128,
        unit,
    }
}

impl Transform {
    pub open spec fn wf(self) -> bool {
        &&& self.span != 0
        &&& -2 * units_bound() <= self.bias <= 2 * units_bound()
        &&& -2 * units_bound() <= self.span <= 2 * units_bound()
    }

    /// Applies the transform to a raw sample.
    pub fn apply(self, value: Fixed) -> (r: Scaled)
        requires
            self.wf(),
        ensures
            r == apply_spec(self, value),
            r.num == fixed_units(value) + self.bias,
            r.den == self.span,
            r.unit == self.unit,
    {
        proof {
            lemma_units_bounded(value);
        }
        Scaled { num: value.units() + self.bias, den: self.span, unit: self.unit }
    }

    /// Maps `[min, max]` onto `[0, 1]`; `None` for a degenerate range.
    pub fn normalized(min: Fixed, max: Fixed) -> (r: Option<Transform>)
        ensures
            r is None <==> fixed_units(min) == fixed_units(max),
            r matches Some(t) ==> t.wf() && t == range_transform(min, max, Unit::One),
    {
        Self::range_to(min, max, Unit::One)
    }

    /// Maps `[min, max]` onto one full turn `[0, 2 pi)`; `None` for a degenerate range.
    pub fn turn(min: Fixed, max: Fixed) -> (r: Option<Transform>)
        ensures
            r is None <==> fixed_units(min) == fixed_units(max),
            r matches Some(t) ==> t.wf() && t == range_transform(min, max, Unit::Turn),
    {
        Self::range_to(min, max, Unit::Turn)
    }

    fn range_to(min: Fixed, max: Fixed, unit: Unit) -> (r: Option<Transform>)
        ensures
            r is None <==> fixed_units(min) == fixed_units(max),
            r matches Some(t) ==> t.wf() && t == range_transform(min, max, unit),
    {
        proof {
            lemma_units_bounded(min);
            lemma_units_bounded(max);
        }
        let lo = min.units();
        let hi = max.units();
        if lo == hi {
            None
        } else {
            Some(Transform { bias: -lo, span: hi - lo, unit })
        }
    }

    /// Degrees to radians: no bias, one degree per whole unit.
    pub fn degrees() -> (r: Transform)
        ensures
            r.wf(),
            r == degree_transform(),
    {
        Transform { bias: 0, span: FRAC_ONE, unit: Unit::Degree }
    }
}

/// Degrees to radians: no bias, one degree per whole unit.
pub open spec fn degree_transform() -> Transform {
    Transform { bias: 0, span: FRAC_ONE, unit: Unit::Degree }
}

/// A sample whose fractional part is zero converts to exactly its integral
/// part: the ratio is `integral / 1`.
pub proof fn lemma_whole_sample_exact(f: Fixed)
    requires
        f.frac == 0,
    ensures
        fixed_units(f) == f.integral as int * FRAC_ONE as int,
{
}

/// A normalizing transform sends the range's minimum to 0 and its maximum to 1.
pub proof fn lemma_normalized_endpoints(min: Fixed, max: Fixed)
    requires
        fixed_units(min) != fixed_units(max),
    ensures
        ({
            let t = range_transform(min, max, Unit::One);
            &&& fixed_units(min) + t.bias == 0
            &&& fixed_units(max) + t.bias == t.span
        }),
{
}

} // verus!
