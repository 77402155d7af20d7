//! The cost records: the exact tally a run of the engine reports, and the
//! structured summary the static predictor derives from visibilities
//! alone.  A component whose cost depends on a constant bit's witness is
//! predicted as an interval; every other component is predicted exactly.

use vstd::prelude::*;

verus! {

/// The exact cost one hash or commit call emitted, as measured by the
/// run itself.
#[derive(Clone, Copy, Debug, PartialEq, Eq, Structural)]
pub struct Measured {
    /// Operations folded away at circuit-construction time.
    pub num_constants: u64,
    /// Public variables allocated.
    pub num_public: u64,
    /// Private variables allocated.
    pub num_private: u64,
    /// Constraints emitted.
    pub num_constraints: u64,
}

impl Measured {
    /// A measured record with the given components.
    pub fn new(num_constants: u64, num_public: u64, num_private: u64, num_constraints: u64) -> (r:
        Measured)
        ensures
            r.num_constants == num_constants,
            r.num_public == num_public,
            r.num_private == num_private,
            r.num_constraints == num_constraints,
    {
        Measured { num_constants, num_public, num_private, num_constraints }
    }
}

/// One predicted cost component: pinned exactly, or bounded to an
/// inclusive interval where the measured value depends on witnesses the
/// predictor never reads.
#[derive(Clone, Copy, Debug, PartialEq, Eq, Structural)]
pub enum Measurement {
    Exact(u64),
    Range { min: u64, max: u64 },
}

impl Measurement {
    /// True when the measured value `v` lies within this component.
    pub open spec fn spec_covers(self, v: int) -> bool {
        match self {
            Measurement::Exact(e) => v == e,
            Measurement::Range { min, max } => min <= v <= max,
        }
    }

    /// True when the measured value `v` lies within this component.
    pub fn covers(&self, v: u64) -> (r: bool)
        ensures
            r == self.spec_covers(v as int),
    {
        match self {
            Measurement::Exact(e) => v == *e,
            Measurement::Range { min, max } => *min <= v && v <= *max,
        }
    }
}

/// The inclusive bounds `[lo, hi]` rendered as a component: exact when
/// the bounds coincide, an interval otherwise.
pub open spec fn measurement_of(lo: int, hi: int) -> Measurement {
    if lo == hi {
        Measurement::Exact(lo as u64)
    } else {
        Measurement::Range { min: lo as u64, max: hi as u64 }
    }
}

/// A structured cost summary, as the predictor reports it.
#[derive(Clone, Copy, Debug, PartialEq, Eq, Structural)]
pub struct Count {
    /// Operations folded away at circuit-construction time.
    pub num_constants: Measurement,
    /// Public variables allocated.
    pub num_public: Measurement,
    /// Private variables allocated.
    pub num_private: Measurement,
    /// Constraints emitted.
    pub num_constraints: Measurement,
}

impl Count {
    /// True when the measured record lies within every component.
    pub open spec fn spec_matches(self, m: Measured) -> bool {
        &&& self.num_constants.spec_covers(m.num_constants as int)
        &&& self.num_public.spec_covers(m.num_public as int)
        &&& self.num_private.spec_covers(m.num_private as int)
        &&& self.num_constraints.spec_covers(m.num_constraints as int)
    }

    /// True when the measured record lies within every component.
    pub fn matches(&self, m: &Measured) -> (r: bool)
        ensures
            r == self.spec_matches(*m),
    {
        self.num_constants.covers(m.num_constants) && self.num_public.covers(m.num_public)
            && self.num_private.covers(m.num_private) && self.num_constraints.covers(
            m.num_constraints,
        )
    }
}

/// True when the measured record holds exactly the cost triple `t`
/// (constant operations, private allocations, constraints); the engine
/// never allocates a public variable of its own.
pub open spec fn measured_is(m: Measured, t: (int, int, int)) -> bool {
    &&& m.num_constants == t.0
    &&& m.num_public == 0
    &&& m.num_private == t.1
    &&& m.num_constraints == t.2
}

/// True when the summary `c` renders exactly the bounds `b`: a pair of
/// cost triples, the component-wise minimum and maximum.
pub open spec fn count_of_bounds(c: Count, b: ((int, int, int), (int, int, int))) -> bool {
    &&& c.num_constants == measurement_of(b.0.0, b.1.0)
    &&& c.num_public == measurement_of(0, 0)
    &&& c.num_private == measurement_of(b.0.1, b.1.1)
    &&& c.num_constraints == measurement_of(b.0.2, b.1.2)
}

} // verus!
