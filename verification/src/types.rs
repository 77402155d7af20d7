//! The visibility-tagged values that flow through the engine, and the
//! value-free tags (`CircuitType`) that the static predictor works on.

use vstd::prelude::*;

use crate::error::PedersenError;
use crate::group::Point;
use crate::mode::{spec_combine, Mode};

verus! {

/// The number of bits in the little-endian decomposition of a blinding
/// scalar; the blinding table has one base per bit.
pub const SCALAR_BITS: usize = 256;

/// A circuit bit: a boolean witness value together with its visibility.
#[derive(Clone, Copy, Debug)]
pub struct Boolean {
    pub mode: Mode,
    pub value: bool,
}

impl Boolean {
    /// Lifts a concrete bit into the circuit at the given visibility.
    pub fn new(mode: Mode, value: bool) -> (r: Boolean)
        ensures
            r.mode == mode,
            r.value == value,
    {
        Boolean { mode, value }
    }
}

/// A circuit group element: a point together with its visibility.
pub struct GroupElement {
    pub mode: Mode,
    pub point: Point,
}

impl GroupElement {
    /// A well-formed group element holds a canonical point encoding.
    pub open spec fn wf(&self) -> bool {
        self.point.wf()
    }

    /// The encoding of the point the element stands for.
    pub open spec fn spec_point(&self) -> Seq<u8> {
        self.point@
    }

    /// Wraps a point at the given visibility.
    pub fn new(mode: Mode, point: Point) -> (r: GroupElement)
        ensures
            r.mode == mode,
            r.spec_point() == point@,
            point.wf() ==> r.wf(),
    {
        GroupElement { mode, point }
    }

    /// The canonical encoding of the point (the ejected witness value).
    pub fn to_bytes(&self) -> (r: Vec<u8>)
        ensures
            r@ == self.spec_point(),
    {
        self.point.to_bytes()
    }

    /// The point the element stands for.
    pub fn point(&self) -> (r: &Point)
        ensures
            r@ == self.spec_point(),
    {
        &self.point
    }
}

/// A circuit field element, as produced by compressing a group element:
/// the canonical encoding of the point, with its visibility.
pub struct FieldElement {
    pub mode: Mode,
    pub element: Vec<u8>,
}

impl FieldElement {
    /// The encoding the field element carries.
    pub open spec fn spec_element(&self) -> Seq<u8> {
        self.element@
    }

    /// Wraps an encoding at the given visibility.
    pub fn new(mode: Mode, element: Vec<u8>) -> (r: FieldElement)
        ensures
            r.mode == mode,
            r.spec_element() == element@,
    {
        FieldElement { mode, element }
    }

    /// The carried encoding (the ejected witness value).
    pub fn to_bytes(&self) -> (r: &Vec<u8>)
        ensures
            r@ == self.spec_element(),
    {
        &self.element
    }
}

/// A circuit blinding scalar, held as its little-endian bit decomposition
/// of length exactly `SCALAR_BITS`, with one visibility for all bits.
pub struct Scalar {
    pub mode: Mode,
    pub bits_le: Vec<bool>,
}

impl Scalar {
    /// A well-formed scalar has exactly `SCALAR_BITS` bits.
    pub open spec fn wf(&self) -> bool {
        self.bits_le@.len() == SCALAR_BITS
    }

    /// The little-endian bits of the scalar.
    pub open spec fn spec_bits(&self) -> Seq<bool> {
        self.bits_le@
    }

    /// Lifts a bit-decomposed scalar into the circuit at the given
    /// visibility.  Fails if and only if the decomposition does not have
    /// exactly `SCALAR_BITS` bits.
    pub fn new(mode: Mode, bits_le: Vec<bool>) -> (r: Result<Scalar, PedersenError>)
        ensures
            bits_le@.len() == SCALAR_BITS ==> matches!(r, Ok(_)),
            match r {
                Ok(s) => s.wf() && s.mode == mode && s.spec_bits() == bits_le@,
                Err(e) => e == PedersenError::BitLengthMismatch && bits_le@.len() != SCALAR_BITS,
            },
    {
        if bits_le.len() != SCALAR_BITS {
            Err(PedersenError::BitLengthMismatch)
        } else {
            Ok(Scalar { mode, bits_le })
        }
    }

    /// The bit at the given position.
    pub fn bit(&self, index: usize) -> (r: bool)
        requires
            index < self.spec_bits().len(),
        ensures
            r == self.spec_bits()[index as int],
    {
        self.bits_le[index]
    }
}

/// A value-free tag for the predictor: either a fully known constant value
/// (inspectable), or an opaque placeholder carrying only its visibility.
#[derive(Clone)]
pub enum CircuitType<T> {
    Constant(T),
    Public,
    Private,
}

impl<T> CircuitType<T> {
    /// The visibility the tag carries.
    pub open spec fn spec_mode(&self) -> Mode {
        match self {
            CircuitType::Constant(_) => Mode::Constant,
            CircuitType::Public => Mode::Public,
            CircuitType::Private => Mode::Private,
        }
    }

    /// The visibility the tag carries.
    pub fn mode(&self) -> (r: Mode)
        ensures
            r == self.spec_mode(),
    {
        match self {
            CircuitType::Constant(_) => Mode::Constant,
            CircuitType::Public => Mode::Public,
            CircuitType::Private => Mode::Private,
        }
    }

    /// True if the tag is a known constant.
    pub fn is_constant(&self) -> (r: bool)
        ensures
            r == (self.spec_mode() == Mode::Constant),
    {
        matches!(self, CircuitType::Constant(_))
    }

    /// The constant value under the tag.  Fails if and only if the tag is
    /// not `Constant`: the concrete value of a public or private
    /// placeholder does not exist.
    pub fn circuit(self) -> (r: Result<T, PedersenError>)
        ensures
            match r {
                Ok(t) => self == CircuitType::Constant(t),
                Err(e) => e == PedersenError::IllegalMaterialization && self.spec_mode()
                    != Mode::Constant,
            },
    {
        match self {
            CircuitType::Constant(t) => Ok(t),
            CircuitType::Public => Err(PedersenError::IllegalMaterialization),
            CircuitType::Private => Err(PedersenError::IllegalMaterialization),
        }
    }
}

impl CircuitType<Boolean> {
    /// Tags a circuit bit: a constant bit keeps its value, any other bit
    /// collapses to its bare visibility.
    pub fn of_boolean(b: &Boolean) -> (r: CircuitType<Boolean>)
        ensures
            r.spec_mode() == b.mode,
            b.mode == Mode::Constant ==> r == CircuitType::Constant(*b),
    {
        match b.mode {
            Mode::Constant => CircuitType::Constant(*b),
            Mode::Public => CircuitType::Public,
            Mode::Private => CircuitType::Private,
        }
    }
}

/// The combined visibility of a sequence of modes: the most private wins,
/// starting from `Constant`.
pub open spec fn combined_mode(modes: Seq<Mode>) -> Mode
    decreases modes.len(),
{
    if modes.len() == 0 {
        Mode::Constant
    } else {
        spec_combine(combined_mode(modes.drop_last()), modes.last())
    }
}

} // verus!
