//! The fixed-width integer bit adapter: an integer circuit value as an
//! ordered run of visibility-tagged bits, convertible to a run of
//! value-free tags and back — back only once every bit is a known
//! constant.

use vstd::prelude::*;

use vstd::arithmetic::div_mod::lemma_div_denominator;
use vstd::arithmetic::power2::pow2;

use crate::error::PedersenError;
use crate::mode::{spec_combine, Mode};
use crate::types::{combined_mode, Boolean, CircuitType};

verus! {

/// The visibilities of a run of tagged bits.
pub open spec fn tag_modes(bits: Seq<CircuitType<Boolean>>) -> Seq<Mode> {
    bits.map_values(|t: CircuitType<Boolean>| t.spec_mode())
}

/// The combined visibility of a run is constant exactly when every
/// visibility in it is.
proof fn lemma_combined_mode_constant(modes: Seq<Mode>)
    ensures
        (combined_mode(modes) == Mode::Constant) <==> (forall|i: int|
            0 <= i < modes.len() ==> modes[i] == Mode::Constant),
    decreases modes.len(),
{
    if modes.len() > 0 {
        lemma_combined_mode_constant(modes.drop_last());
        assert forall|i: int|
            0 <= i < modes.len() && combined_mode(modes) == Mode::Constant implies modes[i]
            == Mode::Constant by {
            if i < modes.len() - 1 {
                assert(modes.drop_last()[i] == modes[i]);
            }
        }
    }
}

/// A fixed-width integer circuit value: exactly `N` tagged bits, least
/// significant first.
pub struct Integer<const N: usize> {
    pub bits_le: Vec<Boolean>,
}

impl<const N: usize> Integer<N> {
    /// A well-formed integer holds exactly `N` bits.
    pub open spec fn wf(&self) -> bool {
        self.bits_le@.len() == N
    }

    /// Lifts a concrete value into the circuit at the given visibility,
    /// as its little-endian bit decomposition.
    #[verifier::loop_isolation(false)]
    pub fn new(mode: Mode, value: u128) -> (r: Integer<N>)
        requires
            N <= 128,
        ensures
            r.wf(),
            forall|i: int| 0 <= i < N ==> (#[trigger] r.bits_le@[i]).mode == mode,
            forall|i: int|
                0 <= i < N ==> (#[trigger] r.bits_le@[i]).value == ((value as nat / pow2(i as nat))
                    % 2 == 1),
    {
        proof {
            vstd::arithmetic::power2::lemma2_to64();
        }
        let mut bits_le: Vec<Boolean> = Vec::new();
        let mut cur: u128 = value;
        let mut i: usize = 0;
        while i < N
            invariant
                i <= N,
                bits_le@.len() == i,
                cur == value as nat / pow2(i as nat),
                forall|j: int| 0 <= j < i as int ==> (#[trigger] bits_le@[j]).mode == mode,
                forall|j: int|
                    0 <= j < i as int ==> (#[trigger] bits_le@[j]).value == ((value as nat / pow2(
                        j as nat,
                    )) % 2 == 1),
            decreases N - i,
        {
            bits_le.push(Boolean::new(mode, cur % 2 == 1));
            proof {
                vstd::arithmetic::power2::lemma_pow2_pos(i as nat);
                assert(pow2((i + 1) as nat) == pow2(i as nat) * 2) by {
                    vstd::arithmetic::power2::lemma_pow2_unfold((i + 1) as nat);
                    assert(pow2((i + 1) as nat) == 2 * pow2(i as nat));
                }
                lemma_div_denominator(value as int, pow2(i as nat) as int, 2);
            }
            cur = cur / 2;
            i = i + 1;
        }
        Integer { bits_le }
    }

    /// The tagged bits of the integer, least significant first.
    pub fn to_bits_le(&self) -> (r: Vec<Boolean>)
        ensures
            r@ == self.bits_le@,
    {
        let mut out: Vec<Boolean> = Vec::new();
        let mut i: usize = 0;
        while i < self.bits_le.len()
            invariant
                i <= self.bits_le@.len(),
                out@ == self.bits_le@.take(i as int),
            decreases self.bits_le@.len() - i,
        {
            out.push(self.bits_le[i]);
            i = i + 1;
        }
        proof {
            assert(out@ =~= self.bits_le@);
        }
        out
    }
}

/// A run of value-free tags standing for a fixed-width integer: exactly
/// `N` tagged bits, least significant first.
pub struct IntegerCircuitType<const N: usize> {
    pub bits_le: Vec<CircuitType<Boolean>>,
}

impl<const N: usize> IntegerCircuitType<N> {
    /// A well-formed adapter holds exactly `N` tags.
    pub open spec fn wf(&self) -> bool {
        self.bits_le@.len() == N
    }

    /// Wraps a run of tagged bits.  Fails if and only if the run does not
    /// hold exactly one tag per bit of the integer width.
    pub fn new(bits_le: Vec<CircuitType<Boolean>>) -> (r: Result<
        IntegerCircuitType<N>,
        PedersenError,
    >)
        ensures
            (bits_le@.len() == N) <==> matches!(r, Ok(_)),
            match r {
                Ok(a) => a.wf() && a.bits_le@ == bits_le@,
                Err(e) => e == PedersenError::BitLengthMismatch,
            },
    {
        if bits_le.len() != N {
            Err(PedersenError::BitLengthMismatch)
        } else {
            Ok(IntegerCircuitType { bits_le })
        }
    }

    /// The combined visibility of all bits: the most private wins.
    #[verifier::loop_isolation(false)]
    pub fn mode(&self) -> (r: Mode)
        ensures
            r == combined_mode(tag_modes(self.bits_le@)),
    {
        let ghost modes = tag_modes(self.bits_le@);
        let mut m = Mode::Constant;
        let mut k: usize = 0;
        while k < self.bits_le.len()
            invariant
                k <= self.bits_le@.len(),
                m == combined_mode(modes.take(k as int)),
            decreases self.bits_le@.len() - k,
        {
            proof {
                assert(modes[k as int] == self.bits_le@[k as int].spec_mode());
                assert(modes.take(k as int + 1).drop_last() =~= modes.take(k as int));
                assert(modes.take(k as int + 1).last() == modes[k as int]);
            }
            m = m.combine(self.bits_le[k].mode());
            k = k + 1;
        }
        proof {
            assert(modes.take(modes.len() as int) =~= modes);
        }
        m
    }

    /// The concrete integer under the tags.  Fails if and only if the
    /// combined visibility is not `Constant`: while any bit is a
    /// placeholder, the concrete value does not exist yet.
    #[verifier::loop_isolation(false)]
    pub fn circuit(self) -> (r: Result<Integer<N>, PedersenError>)
        requires
            self.wf(),
        ensures
            (combined_mode(tag_modes(self.bits_le@)) == Mode::Constant) <==> matches!(r, Ok(_)),
            match r {
                Ok(integer) => {
                    &&& integer.wf()
                    &&& forall|i: int|
                        0 <= i < N ==> #[trigger] self.bits_le@[i] == CircuitType::Constant(
                            integer.bits_le@[i],
                        )
                },
                Err(e) => e == PedersenError::IllegalMaterialization,
            },
    {
        proof {
            lemma_combined_mode_constant(tag_modes(self.bits_le@));
        }
        let mut out: Vec<Boolean> = Vec::new();
        let mut k: usize = 0;
        while k < self.bits_le.len()
            invariant
                k <= self.bits_le@.len(),
                out@.len() == k,
                forall|j: int| 0 <= j < k as int ==> #[trigger] self.bits_le@[j]
                    == CircuitType::Constant(out@[j]),
            decreases self.bits_le@.len() - k,
        {
            proof {
                assert(tag_modes(self.bits_le@)[k as int] == self.bits_le@[k as int].spec_mode());
            }
            match &self.bits_le[k] {
                CircuitType::Constant(b) => {
                    out.push(*b);
                },
                _ => {
                    return Err(PedersenError::IllegalMaterialization);
                },
            }
            k = k + 1;
        }
        Ok(Integer { bits_le: out })
    }

    /// The underlying run of tagged bits.
    pub fn bits_le(self) -> (r: Vec<CircuitType<Boolean>>)
        ensures
            r@ == self.bits_le@,
    {
        self.bits_le
    }

    /// Tags an integer circuit value bit by bit: each bit keeps its own
    /// visibility, and a constant bit stays inspectable under its tag.
    #[verifier::loop_isolation(false)]
    pub fn from(integer: Integer<N>) -> (r: IntegerCircuitType<N>)
        requires
            integer.wf(),
        ensures
            r.wf(),
            forall|i: int|
                0 <= i < N ==> (#[trigger] r.bits_le@[i]).spec_mode() == integer.bits_le@[i].mode,
            forall|i: int|
                0 <= i < N && integer.bits_le@[i].mode == Mode::Constant ==> #[trigger] r.bits_le@[i]
                    == CircuitType::Constant(integer.bits_le@[i]),
    {
        let mut bits_le: Vec<CircuitType<Boolean>> = Vec::new();
        let mut k: usize = 0;
        while k < integer.bits_le.len()
            invariant
                k <= integer.bits_le@.len(),
                bits_le@.len() == k,
                forall|j: int|
                    0 <= j < k as int ==> (#[trigger] bits_le@[j]).spec_mode()
                        == integer.bits_le@[j].mode,
                forall|j: int|
                    0 <= j < k as int && integer.bits_le@[j].mode == Mode::Constant ==> #[trigger] bits_le@[j]
                        == CircuitType::Constant(integer.bits_le@[j]),
            decreases integer.bits_le@.len() - k,
        {
            bits_le.push(CircuitType::of_boolean(&integer.bits_le[k]));
            k = k + 1;
        }
        IntegerCircuitType { bits_le }
    }
}

/// Law: materialization reproduces the integer exactly.  If tagging the
/// all-constant bits `before` produced the tags `tags`, and materializing
/// `tags` succeeded with `back`, then `back` holds `before` bit for bit.
pub proof fn lemma_materialize_roundtrip(
    before: Seq<Boolean>,
    tags: Seq<CircuitType<Boolean>>,
    back: Seq<Boolean>,
)
    requires
        tags.len() == before.len(),
        back.len() == before.len(),
        forall|i: int| 0 <= i < before.len() ==> (#[trigger] before[i]).mode == Mode::Constant,
        forall|i: int|
            0 <= i < before.len() && before[i].mode == Mode::Constant ==> #[trigger] tags[i]
                == CircuitType::Constant(before[i]),
        forall|i: int|
            0 <= i < back.len() ==> #[trigger] tags[i] == CircuitType::Constant(back[i]),
    ensures
        back == before,
{
    assert forall|i: int| 0 <= i < before.len() implies #[trigger] back[i] == before[i] by {
        assert(tags[i] == CircuitType::Constant(before[i]));
        assert(tags[i] == CircuitType::Constant(back[i]));
    }
    assert(back =~= before);
}

} // verus!
