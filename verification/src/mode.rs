//! The visibility mode carried by every circuit value.

use vstd::prelude::*;

verus! {

/// Visibility of a circuit value: a constant known to everyone and folded
/// at circuit-construction time, a public input, or a private witness.
#[derive(Clone, Copy, Debug, PartialEq, Eq, Structural)]
pub enum Mode {
    Constant,
    Public,
    Private,
}

impl Mode {
    /// True if the mode is `Constant`.
    pub fn is_constant(&self) -> (r: bool)
        ensures
            r == (*self == Mode::Constant),
    {
        matches!(self, Mode::Constant)
    }

    /// Combines two visibilities: the more private of the two wins
    /// (`Private` dominates `Public` dominates `Constant`).
    pub fn combine(self, other: Mode) -> (r: Mode)
        ensures
            r == spec_combine(self, other),
    {
        match (self, other) {
            (Mode::Private, _) | (_, Mode::Private) => Mode::Private,
            (Mode::Public, _) | (_, Mode::Public) => Mode::Public,
            _ => Mode::Constant,
        }
    }
}

/// The join of two visibilities in the privacy order
/// `Constant < Public < Private`.
pub open spec fn spec_combine(a: Mode, b: Mode) -> Mode {
    if a == Mode::Private || b == Mode::Private {
        Mode::Private
    } else if a == Mode::Public || b == Mode::Public {
        Mode::Public
    } else {
        Mode::Constant
    }
}

} // verus!
