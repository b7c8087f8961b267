//! The interpolation bases and their tension.

use vstd::prelude::*;
use crate::geometry::UNIT;

verus! {

/// The family of blending functions that interpolates between control
/// points.
#[derive(Copy, Clone, Debug, Hash, PartialEq, Eq, Structural)]
pub enum Basis {
    /// Straight segments from control point to control point.
    Linear,
    /// A cubic through the control points with slack tangents.
    Hermite,
    /// A cubic through the control points with Catmull-Rom tangents.
    CatmullRom,
}

impl Basis {
    /// The tension of a basis in millionths: `0.0`, `0.25` and `0.5`.
    pub open spec fn spec_tension(self) -> int {
        match self {
            Basis::Linear => 0,
            Basis::Hermite => 250_000,
            Basis::CatmullRom => 500_000,
        }
    }

    /// Whether curves of this basis are the control polygon itself.
    pub open spec fn spec_is_linear(self) -> bool {
        self == Basis::Linear
    }

    /// Whether curves of this basis are the control polygon itself, so that
    /// nothing has to be evaluated for them.
    #[verifier::when_used_as_spec(spec_is_linear)]
    pub fn is_linear(self) -> (linear: bool)
        ensures
            linear == self.spec_is_linear(),
    {
        match self {
            Basis::Linear => true,
            Basis::Hermite => false,
            Basis::CatmullRom => false,
        }
    }
}

/// The tension that the interpolation formula of `basis` consumes, in
/// millionths. It is total, and never leaves `0..=UNIT / 2`.
pub fn tension_of(basis: Basis) -> (tension: i32)
    ensures
        tension == basis.spec_tension(),
        0 <= tension <= UNIT / 2,
{
    match basis {
        Basis::Linear => 0,
        Basis::Hermite => 250_000,
        Basis::CatmullRom => 500_000,
    }
}

impl From<Basis> for i32 {
    /// The tension of `basis`, as [`tension_of`] gives it.
    fn from(basis: Basis) -> (tension: i32)
        ensures
            tension == basis.spec_tension(),
    {
        tension_of(basis)
    }
}

impl vstd::std_specs::convert::FromSpecImpl<Basis> for i32 {
    open spec fn obeys_from_spec() -> bool {
        true
    }

    open spec fn from_spec(basis: Basis) -> i32 {
        basis.spec_tension() as i32
    }
}

} // verus!
