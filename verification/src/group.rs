//! The group collaborator: elliptic-curve points held by their canonical
//! 32-byte encoding, with addition and deterministic seed-derived generators
//! supplied by an outside curve library.
//!
//! The engine never looks inside a point; it only adds points, doubles them,
//! and compares encodings.  Everything the proofs use about the group
//! operation is recorded on the trusted items in this module.

use vstd::prelude::*;

use curve25519_dalek::ristretto::RistrettoPoint;
use curve25519_dalek::traits::Identity;
use sha2::{Digest, Sha512};

verus! {

/// The number of bytes in the canonical encoding of a group element.
pub const POINT_BYTES: usize = 32;

/// The sum of the two group elements that the encodings stand for,
/// as a canonical encoding.
pub uninterp spec fn pt_add(a: Seq<u8>, b: Seq<u8>) -> Seq<u8>;

/// True of the byte sequences that are canonical encodings of a group
/// element (what a successful decompression accepts).
pub uninterp spec fn pt_valid(p: Seq<u8>) -> bool;

/// The window generator derived from a seed string and a window index.
pub uninterp spec fn window_generator_of(seed: Seq<char>, index: u64) -> Seq<u8>;

/// The blinding generator derived from a seed string.
pub uninterp spec fn blinding_generator_of(seed: Seq<char>) -> Seq<u8>;

/// The canonical encoding of the group identity element.
pub open spec fn identity_bytes() -> Seq<u8> {
    Seq::new(POINT_BYTES as nat, |_i: int| 0u8)
}

/// A sound encoding: the right length and accepted by decompression.
pub open spec fn pt_ok(p: Seq<u8>) -> bool {
    p.len() == POINT_BYTES && pt_valid(p)
}

/// The group element `g` added to itself `n` times.
pub open spec fn pt_scale(g: Seq<u8>, n: nat) -> Seq<u8>
    decreases n,
{
    if n == 0 {
        identity_bytes()
    } else {
        pt_add(g, pt_scale(g, (n - 1) as nat))
    }
}

/// The order of the group: every element added to itself this many times
/// gives the identity.
pub open spec fn group_order() -> nat {
    7237005577332262213973186563042994240857116359379907606001950938285454250989nat
}

/// The algebraic laws of the group operation, stated of the identity
/// encoding `id`: the group is closed, commutative and associative, and
/// `id` is its neutral element.  These hold of the curve's prime-order
/// group, whose addition the outside library documents as a group law.
pub open spec fn group_laws(id: Seq<u8>) -> bool {
    &&& pt_ok(id)
    &&& forall|a: Seq<u8>| pt_ok(a) ==> #[trigger] pt_add(id, a) == a
    &&& forall|a: Seq<u8>| pt_ok(a) ==> #[trigger] pt_add(a, id) == a
    &&& forall|a: Seq<u8>, b: Seq<u8>| pt_ok(a) && pt_ok(b) ==> pt_ok(#[trigger] pt_add(a, b))
    &&& forall|a: Seq<u8>, b: Seq<u8>| pt_ok(a) && pt_ok(b) ==> #[trigger] pt_add(a, b) == pt_add(
        b,
        a,
    )
    &&& forall|a: Seq<u8>, b: Seq<u8>, c: Seq<u8>|
        pt_ok(a) && pt_ok(b) && pt_ok(c) ==> #[trigger] pt_add(pt_add(a, b), c) == pt_add(
            a,
            pt_add(b, c),
        )
}

/// The curve library's point type, opaque to the verifier: a `Point`
/// carries one of these alongside its canonical encoding, so that
/// repeated additions need not decompress the encoding again.
#[verifier::external_type_specification]
#[verifier::external_body]
pub struct ExRistrettoPoint(RistrettoPoint);

/// A group element: its canonical 32-byte encoding, together with the
/// decompressed point it encodes.  The encoding is the element's identity
/// for every contract; the decompressed point is a cache that only the
/// trusted items below touch.
pub struct Point {
    bytes: Vec<u8>,
    point: RistrettoPoint,
}

impl View for Point {
    type V = Seq<u8>;

    closed spec fn view(&self) -> Seq<u8> {
        self.bytes@
    }
}

impl Point {
    /// A well-formed point: a canonical encoding of the right length.
    pub open spec fn wf(&self) -> bool {
        pt_ok(self@)
    }

    /// The canonical encoding of the point.
    pub fn to_bytes(&self) -> (r: Vec<u8>)
        ensures
            r@ == self@,
    {
        let mut out: Vec<u8> = Vec::new();
        let mut i: usize = 0;
        while i < self.bytes.len()
            invariant
                i <= self.bytes.len(),
                out@ == self@.take(i as int),
            decreases self.bytes.len() - i,
        {
            out.push(self.bytes[i]);
            i = i + 1;
        }
        proof {
            assert(out@ =~= self@);
        }
        out
    }
}

/// Relies on the curve library's identity element and point compression:
/// the identity encodes as 32 zero bytes.  This trusted item also records
/// the group laws (`group_laws`) of the library's point addition, which it
/// documents as the operation of a commutative group of prime order
/// `group_order()`, and that order itself: every element scaled by the
/// order is the identity.
#[verifier::external_body]
pub fn group_identity() -> (p: Point)
    ensures
        p@ == identity_bytes(),
        group_laws(p@),
        forall|a: Seq<u8>| pt_ok(a) ==> #[trigger] pt_scale(a, group_order()) == p@,
{
    let point = RistrettoPoint::identity();
    Point { bytes: point.compress().to_bytes().to_vec(), point }
}

/// Relies on the curve library's point addition: adds the two points and
/// compresses the sum to its canonical encoding.
#[verifier::external_body]
pub fn pt_add_exec(a: &Point, b: &Point) -> (r: Point)
    requires
        a.wf(),
        b.wf(),
    ensures
        r.wf(),
        pt_valid(r@),
        r@ == pt_add(a@, b@),
{
    let point = a.point + b.point;
    Point { bytes: point.compress().to_bytes().to_vec(), point }
}

/// Relies on the hash library and the curve library's hash-to-group map:
/// derives the generator for one window, deterministically from the seed
/// string and the window index.
#[verifier::external_body]
pub fn window_generator(seed: &str, index: u64) -> (p: Point)
    ensures
        p.wf(),
        p@ == window_generator_of(seed@, index),
{
    let digest = Sha512::digest(format!("{seed} at {index}").as_bytes());
    let uniform: [u8; 64] = digest.into();
    let point = RistrettoPoint::from_uniform_bytes(&uniform);
    Point { bytes: point.compress().to_bytes().to_vec(), point }
}

/// Relies on the hash library and the curve library's hash-to-group map:
/// derives the blinding generator, deterministically from the seed string
/// under a distinct domain separator.
#[verifier::external_body]
pub fn blinding_generator(seed: &str) -> (p: Point)
    ensures
        p.wf(),
        p@ == blinding_generator_of(seed@),
{
    let digest = Sha512::digest(format!("{seed} for random base").as_bytes());
    let uniform: [u8; 64] = digest.into();
    let point = RistrettoPoint::from_uniform_bytes(&uniform);
    Point { bytes: point.compress().to_bytes().to_vec(), point }
}

} // verus!
