use curv::arithmetic::Converter;
use curv::elliptic::curves::Secp256k1;
use curv::BigInt;
use vstd::prelude::*;

use curv::elliptic::curves::Scalar as CurvScalar;

verus! {

/// The order of the secp256k1 group: every scalar is taken modulo it.
pub open spec fn group_order() -> nat {
    0xFFFFFFFFFFFFFFFFFFFFFFFFFFFFFFFEBAAEDCE6AF48A03BBFD25E8CD0364141nat
}

/// The unsigned integer that a sequence of bytes spells in big-endian order.
pub open spec fn be_value(b: Seq<u8>) -> nat
    decreases b.len(),
{
    if b.len() == 0 {
        0
    } else {
        be_value(b.drop_last()) * 256 + b.last() as nat
    }
}

/// An element of the scalar field of secp256k1, held as its 32-byte
/// big-endian encoding.
#[derive(Clone)]
pub struct Scalar {
    pub(crate) bytes: Vec<u8>,
}

impl Scalar {
    /// The integer in `[0, group_order())` that this scalar stands for.
    pub closed spec fn value(self) -> nat {
        be_value(self.bytes@)
    }

    /// The encoding is 32 bytes long and canonical.
    pub closed spec fn wf(self) -> bool {
        self.bytes@.len() == 32 && be_value(self.bytes@) < group_order()
    }

    /// A well-formed scalar lies in `[0, group_order())`.
    pub proof fn lemma_value_bound(self)
        requires
            self.wf(),
        ensures
            self.value() < group_order(),
    {
    }

    /// A scalar drawn uniformly from the whole field.
    pub fn random() -> (r: Scalar)
        ensures
            r.wf(),
    {
        Scalar { bytes: random_bytes() }
    }

    /// A copy of this scalar.
    pub fn duplicate(&self) -> (r: Scalar)
        ensures
            r.value() == self.value(),
            self.wf() ==> r.wf(),
    {
        Scalar { bytes: self.bytes.clone() }
    }

    /// The 32-byte big-endian encoding of this scalar.
    pub fn to_bytes(&self) -> (r: Vec<u8>)
        ensures
            self.wf() ==> r@.len() == 32,
            be_value(r@) == self.value(),
    {
        self.bytes.clone()
    }

    /// The field sum `self + other`.
    pub fn add(&self, other: &Scalar) -> (r: Scalar)
        requires
            self.wf(),
            other.wf(),
        ensures
            r.wf(),
            r.value() == (self.value() + other.value()) % group_order(),
    {
        Scalar { bytes: add_bytes(self, other) }
    }

    /// The field product `self * other`.
    pub fn mul(&self, other: &Scalar) -> (r: Scalar)
        requires
            self.wf(),
            other.wf(),
        ensures
            r.wf(),
            r.value() == (self.value() * other.value()) % group_order(),
    {
        Scalar { bytes: mul_bytes(self, other) }
    }

    /// Whether this is the additive identity.
    pub fn is_zero(&self) -> (r: bool)
        requires
            self.wf(),
        ensures
            r == (self.value() == 0),
    {
        zero_test(self)
    }

    /// The scalar that a big-endian unsigned integer reduces to.
    pub fn from_be_bytes_reduced(b: &Vec<u8>) -> (r: Scalar)
        ensures
            r.wf(),
            r.value() == be_value(b@) % group_order(),
    {
        Scalar { bytes: reduce_bytes(b) }
    }
}

/// Relies on curv's `Scalar::random` and `Scalar::to_bytes`: a scalar in
/// `[0, group order)`, encoded in 32 big-endian bytes.
#[verifier::external_body]
fn random_bytes() -> (r: Vec<u8>)
    ensures
        r@.len() == 32,
        be_value(r@) < group_order(),
{
    CurvScalar::<Secp256k1>::random().to_bytes().to_vec()
}

/// Relies on curv's `Scalar` addition, which is addition modulo the group
/// order; `Scalar::from_bytes` accepts every canonical 32-byte encoding.
#[verifier::external_body]
fn add_bytes(a: &Scalar, b: &Scalar) -> (r: Vec<u8>)
    requires
        a.wf(),
        b.wf(),
    ensures
        r@.len() == 32,
        be_value(r@) == (a.value() + b.value()) % group_order(),
{
    let x = CurvScalar::<Secp256k1>::from_bytes(&a.bytes).unwrap();
    let y = CurvScalar::<Secp256k1>::from_bytes(&b.bytes).unwrap();
    (x + y).to_bytes().to_vec()
}

/// Relies on curv's `Scalar` multiplication, which is multiplication modulo
/// the group order.
#[verifier::external_body]
fn mul_bytes(a: &Scalar, b: &Scalar) -> (r: Vec<u8>)
    requires
        a.wf(),
        b.wf(),
    ensures
        r@.len() == 32,
        be_value(r@) == (a.value() * b.value()) % group_order(),
{
    let x = CurvScalar::<Secp256k1>::from_bytes(&a.bytes).unwrap();
    let y = CurvScalar::<Secp256k1>::from_bytes(&b.bytes).unwrap();
    (x * y).to_bytes().to_vec()
}

/// Relies on curv's `Scalar::is_zero`: true exactly for the additive identity.
#[verifier::external_body]
fn zero_test(a: &Scalar) -> (r: bool)
    requires
        a.wf(),
    ensures
        r == (a.value() == 0),
{
    CurvScalar::<Secp256k1>::from_bytes(&a.bytes).unwrap().is_zero()
}

/// Relies on curv's `BigInt::from_bytes` (big-endian, unsigned) and
/// `Scalar::from_bigint`, which reduces modulo the group order.
#[verifier::external_body]
fn reduce_bytes(b: &Vec<u8>) -> (r: Vec<u8>)
    ensures
        r@.len() == 32,
        be_value(r@) == be_value(b@) % group_order(),
{
    CurvScalar::<Secp256k1>::from_bigint(&BigInt::from_bytes(b)).to_bytes().to_vec()
}

} // verus!
