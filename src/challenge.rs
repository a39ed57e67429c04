use sha2::Digest;
use vstd::prelude::*;

use crate::point::{point_encoding, Point};
use crate::scalar::{be_value, group_order};

verus! {

/// The SHA-256 digest of a byte string.
pub uninterp spec fn sha256_of(data: Seq<u8>) -> Seq<u8>;

/// Why no challenge could be derived.
#[derive(Debug, Clone, Copy, PartialEq, Eq, Structural)]
pub enum ChallengeError {
    /// The digest reduced to the zero scalar, which would leave the response
    /// unbound to the secret.
    ZeroChallenge,
}

/// The four big-endian bytes of a 32-bit word.
pub open spec fn be_bytes_u32(u: u32) -> Seq<u8> {
    seq![(u >> 24u32) as u8, (u >> 16u32) as u8, (u >> 8u32) as u8, u as u8]
}

/// The encodings of a list of points, one after the other.
pub open spec fn concat_all(parts: Seq<Seq<u8>>) -> Seq<u8>
    decreases parts.len(),
{
    if parts.len() == 0 {
        Seq::empty()
    } else {
        concat_all(parts.drop_last()) + parts.last()
    }
}

/// The byte string that is hashed: the session id, the participant id in
/// big-endian two's complement, then the encoding of each point in order.
pub open spec fn transcript(sid: Seq<u8>, pid: i32, logs: Seq<nat>) -> Seq<u8> {
    sid + be_bytes_u32(pid as u32) + concat_all(logs.map_values(|k: nat| point_encoding(k)))
}

/// The challenge scalar bound to a session, a participant and a list of
/// points, before the check that it is not zero.
pub open spec fn challenge_value(sid: Seq<u8>, pid: i32, logs: Seq<nat>) -> nat {
    be_value(sha256_of(transcript(sid, pid, logs))) % group_order()
}

/// The discrete logarithms of a list of points.
pub open spec fn logs_of(points: Seq<Point>) -> Seq<nat> {
    points.map_values(|p: Point| p.log())
}

/// The big-endian bytes of `pid` as a two's complement 32-bit word.
pub fn pid_bytes(pid: i32) -> (r: Vec<u8>)
    ensures
        r@ == be_bytes_u32(pid as u32),
{
    let u: u32 = pid as u32;
    let r = vec![(u >> 24u32) as u8, (u >> 16u32) as u8, (u >> 8u32) as u8, u as u8];
    assert(r@ =~= be_bytes_u32(pid as u32));
    r
}

/// Relies on sha2's `Sha256::digest`: the SHA-256 digest of the input.
#[verifier::external_body]
pub(crate) fn sha256(data: &Vec<u8>) -> (r: Vec<u8>)
    ensures
        r@ == sha256_of(data@),
{
    sha2::Sha256::digest(data.as_slice()).to_vec()
}

} // verus!
