use curv::elliptic::curves::Point as CurvPoint;
use curv::elliptic::curves::Scalar as CurvScalar;
use curv::elliptic::curves::Secp256k1;
use vstd::prelude::*;

use crate::scalar::{group_order, Scalar};

verus! {

/// The uncompressed encoding (65 bytes, all zero for the point at infinity)
/// of the point `k * G`, where `G` is the generator of secp256k1.
pub uninterp spec fn point_encoding(k: nat) -> Seq<u8>;

/// A point of secp256k1, held as its uncompressed encoding.
///
/// The group is cyclic of prime order, so every point is `k * G` for exactly
/// one `k` in `[0, group_order())`; that `k` is kept as ghost state and is
/// what the contracts speak of.
#[derive(Clone)]
pub struct Point {
    pub(crate) bytes: Vec<u8>,
    pub(crate) log: Ghost<nat>,
}

impl Point {
    /// The discrete logarithm of this point with respect to the generator.
    pub closed spec fn log(self) -> nat {
        self.log@
    }

    /// The bytes are the encoding of the point that `log` names.
    pub closed spec fn wf(self) -> bool {
        &&& self.log@ < group_order()
        &&& self.bytes@ == point_encoding(self.log@)
        &&& self.bytes@.len() == 65
    }

    /// Every encoding of a well-formed point is 65 bytes long.
    pub proof fn lemma_encoding_len(self)
        requires
            self.wf(),
        ensures
            point_encoding(self.log()).len() == 65,
    {
    }

    /// The generator `G` of the group.
    pub fn generator() -> (r: Point)
        ensures
            r.wf(),
            r.log() == 1,
    {
        Point { bytes: generator_bytes(), log: Ghost(1nat) }
    }

    /// The group sum `self + other`.
    pub fn add_point(&self, other: &Point) -> (r: Point)
        requires
            self.wf(),
            other.wf(),
        ensures
            r.wf(),
            r.log() == (self.log() + other.log()) % group_order(),
    {
        let bytes = add_bytes(self, other);
        Point { bytes, log: Ghost(((self.log() + other.log()) % group_order()) as nat) }
    }

    /// The multiple `k * self`.
    pub fn mul_scalar(&self, k: &Scalar) -> (r: Point)
        requires
            self.wf(),
            k.wf(),
        ensures
            r.wf(),
            r.log() == (self.log() * k.value()) % group_order(),
    {
        let bytes = mul_bytes(self, k);
        Point { bytes, log: Ghost(((self.log() * k.value()) % group_order()) as nat) }
    }

    /// Whether the two points are the same group element.
    pub fn equals(&self, other: &Point) -> (r: bool)
        requires
            self.wf(),
            other.wf(),
        ensures
            r == (self.log() == other.log()),
    {
        same_point(self, other)
    }

    /// A copy of this point.
    pub fn duplicate(&self) -> (r: Point)
        ensures
            r.log() == self.log(),
            self.wf() ==> r.wf(),
    {
        Point { bytes: self.bytes.clone(), log: Ghost(self.log@) }
    }

    /// The uncompressed encoding of this point.
    pub fn to_bytes(&self) -> (r: Vec<u8>)
        requires
            self.wf(),
        ensures
            r@ == point_encoding(self.log()),
    {
        self.bytes.clone()
    }
}

/// Relies on curv's `Point::generator` and `Point::to_bytes(false)`: the
/// uncompressed encoding of the curve generator.
#[verifier::external_body]
fn generator_bytes() -> (r: Vec<u8>)
    ensures
        r@ == point_encoding(1),
        r@.len() == 65,
{
    CurvPoint::<Secp256k1>::generator().to_point().to_bytes(false).to_vec()
}

/// Relies on curv's `Point` addition, the group law; `Point::from_bytes`
/// accepts every encoding that `Point::to_bytes` produces.
#[verifier::external_body]
fn add_bytes(a: &Point, b: &Point) -> (r: Vec<u8>)
    requires
        a.wf(),
        b.wf(),
    ensures
        r@ == point_encoding((a.log() + b.log()) % group_order()),
        r@.len() == 65,
{
    let p = CurvPoint::<Secp256k1>::from_bytes(&a.bytes).unwrap();
    let q = CurvPoint::<Secp256k1>::from_bytes(&b.bytes).unwrap();
    (p + q).to_bytes(false).to_vec()
}

/// Relies on curv's multiplication of a `Point` by a `Scalar`.
#[verifier::external_body]
fn mul_bytes(a: &Point, k: &Scalar) -> (r: Vec<u8>)
    requires
        a.wf(),
        k.wf(),
    ensures
        r@ == point_encoding((a.log() * k.value()) % group_order()),
        r@.len() == 65,
{
    let p = CurvPoint::<Secp256k1>::from_bytes(&a.bytes).unwrap();
    let s = CurvScalar::<Secp256k1>::from_bytes(&k.bytes).unwrap();
    (p * s).to_bytes(false).to_vec()
}

/// Relies on curv's `PartialEq` for `Point`, which compares group elements.
#[verifier::external_body]
fn same_point(a: &Point, b: &Point) -> (r: bool)
    requires
        a.wf(),
        b.wf(),
    ensures
        r == (a.log() == b.log()),
{
    let p = CurvPoint::<Secp256k1>::from_bytes(&a.bytes).unwrap();
    let q = CurvPoint::<Secp256k1>::from_bytes(&b.bytes).unwrap();
    p == q
}

} // verus!
