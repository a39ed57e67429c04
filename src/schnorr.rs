use vstd::arithmetic::div_mod::{
    lemma_add_mod_noop, lemma_mul_mod_noop_left, lemma_mul_mod_noop_right, lemma_small_mod,
};
use vstd::arithmetic::mul::lemma_mul_is_associative;
use vstd::prelude::*;
use vstd::string::StringSliceAdditionalSpecFns;

use crate::challenge::{
    be_bytes_u32, challenge_value, concat_all, logs_of, pid_bytes, sha256, transcript,
    ChallengeError,
};
use crate::point::{point_encoding, Point};
use crate::scalar::{group_order, Scalar};

verus! {

/// A non-interactive proof of knowledge of the discrete logarithm of `y`
/// with respect to a base point: the commitment `t = r * base` for a fresh
/// nonce `r`, and the response `s = r + x * c`, where `c` is the challenge
/// derived from the session id, the participant id and `[base, y, t]`.
///
/// The proof carries no context: the verifier must be given the same
/// session id, participant id, base point and `y` as the prover used.
pub struct DLogProof {
    pub t: Point,
    pub s: Scalar,
}

/// Both parts of the proof are well formed.
pub open spec fn proof_wf(proof: DLogProof) -> bool {
    proof.t.wf() && proof.s.wf()
}

/// The challenge for a proof with a commitment of discrete logarithm
/// `t_log`, about the point of discrete logarithm `y` on the base of
/// discrete logarithm `base`.
pub open spec fn proof_challenge(sid: Seq<u8>, pid: i32, y: nat, base: nat, t_log: nat) -> nat {
    challenge_value(sid, pid, seq![base, y, t_log])
}

/// The challenge that the nonce `k` leads to.
pub open spec fn nonce_challenge(sid: Seq<u8>, pid: i32, y: nat, base: nat, k: nat) -> nat {
    proof_challenge(sid, pid, y, base, (base * k) % group_order())
}

/// What the verifier accepts: the challenge is not zero and
/// `s * base == t + c * y` holds in the group (all points given by their
/// discrete logarithms).
pub open spec fn accepts(proof: DLogProof, sid: Seq<u8>, pid: i32, y: nat, base: nat) -> bool {
    let c = proof_challenge(sid, pid, y, base, proof.t.log());
    c != 0 && (base * proof.s.value()) % group_order() == (proof.t.log() + (y * c)
        % group_order()) % group_order()
}

/// The proof that the prover builds from the nonce `k`: `t = k * base` and
/// `s = k + x * c`, with a challenge `c` that is not zero.
pub open spec fn built_with_nonce(
    proof: DLogProof,
    sid: Seq<u8>,
    pid: i32,
    x: nat,
    y: nat,
    base: nat,
    k: nat,
) -> bool {
    let c = proof_challenge(sid, pid, y, base, proof.t.log());
    &&& c != 0
    &&& proof.t.log() == (base * k) % group_order()
    &&& proof.s.value() == (k + (x * c) % group_order()) % group_order()
}

/// The proof was built honestly from some nonce.
pub open spec fn honest(
    proof: DLogProof,
    sid: Seq<u8>,
    pid: i32,
    x: nat,
    y: nat,
    base: nat,
) -> bool {
    exists|k: nat| k < group_order() && built_with_nonce(proof, sid, pid, x, y, base, k)
}

impl DLogProof {
    /// Derives the challenge for `sid`, `pid` and `points`: SHA-256 of the
    /// transcript, read as a big-endian integer and reduced modulo the group
    /// order. A zero result is refused.
    pub fn hash_points(sid: &str, pid: i32, points: Vec<Point>) -> (r: Result<
        Scalar,
        ChallengeError,
    >)
        requires
            forall|i: int| 0 <= i < points@.len() ==> (#[trigger] points@[i]).wf(),
        ensures
            challenge_value(sid.spec_bytes(), pid, logs_of(points@)) == 0 ==> r == Err::<
                Scalar,
                ChallengeError,
            >(ChallengeError::ZeroChallenge),
            challenge_value(sid.spec_bytes(), pid, logs_of(points@)) != 0 ==> r is Ok,
            r matches Ok(c) ==> c.wf() && c.value() == challenge_value(
                sid.spec_bytes(),
                pid,
                logs_of(points@),
            ),
    {
        let mut data: Vec<u8> = Vec::new();
        data.extend_from_slice(sid.as_bytes());
        let pb = pid_bytes(pid);
        data.extend_from_slice(pb.as_slice());
        let ghost prefix = data@;
        let mut i: usize = 0;
        while i < points.len()
            invariant
                0 <= i <= points@.len(),
                forall|j: int| 0 <= j < points@.len() ==> (#[trigger] points@[j]).wf(),
                data@ == prefix + concat_all(logs_of(points@.take(i as int)).map_values(
                    |k: nat| point_encoding(k),
                )),
            decreases points@.len() - i,
        {
            let enc = points[i].to_bytes();
            data.extend_from_slice(enc.as_slice());
            proof {
                let ps = logs_of(points@.take(i as int + 1)).map_values(|k: nat| point_encoding(k));
                let qs = logs_of(points@.take(i as int)).map_values(|k: nat| point_encoding(k));
                assert(ps.drop_last() =~= qs);
            }
            i = i + 1;
        }
        assert(points@.take(points@.len() as int) =~= points@);
        assert(data@ =~= transcript(sid.spec_bytes(), pid, logs_of(points@)));
        let digest = sha256(&data);
        let c = Scalar::from_be_bytes_reduced(&digest);
        if c.is_zero() {
            Err(ChallengeError::ZeroChallenge)
        } else {
            Ok(c)
        }
    }

    fn new(t: Point, s: Scalar) -> (r: DLogProof)
        ensures
            r.t == t,
            r.s == s,
    {
        DLogProof { t, s }
    }

    /// Builds the proof from the nonce `r`: `t = r * base_point`,
    /// `c` the challenge of `[base_point, y, t]`, `s = r + x * c`. Fails
    /// exactly when that challenge is zero.
    pub fn prove_with_nonce(
        sid: &str,
        pid: i32,
        x: Scalar,
        y: Point,
        base_point: Point,
        r: Scalar,
    ) -> (res: Result<DLogProof, ChallengeError>)
        requires
            x.wf(),
            y.wf(),
            base_point.wf(),
            r.wf(),
        ensures
            nonce_challenge(sid.spec_bytes(), pid, y.log(), base_point.log(), r.value()) == 0
                <==> res is Err,
            res matches Err(e) ==> e == ChallengeError::ZeroChallenge,
            res matches Ok(p) ==> proof_wf(p) && built_with_nonce(
                p,
                sid.spec_bytes(),
                pid,
                x.value(),
                y.log(),
                base_point.log(),
                r.value(),
            ),
    {
        let t = base_point.mul_scalar(&r);
        let points = vec![base_point, y, t.duplicate()];
        let ghost logs = logs_of(points@);
        assert(logs =~= seq![base_point.log(), y.log(), t.log()]);
        let c = match DLogProof::hash_points(sid, pid, points) {
            Ok(c) => c,
            Err(e) => {
                return Err(e);
            },
        };
        let xc = x.mul(&c);
        let s = r.add(&xc);
        Ok(DLogProof::new(t, s))
    }

    /// Proves knowledge of `x` with `y == x * base_point`, bound to the
    /// session `sid` and participant `pid`, with a fresh random nonce.
    /// Whatever nonce is drawn, an `Ok` proof is built honestly from it, and
    /// an error means that its challenge was zero.
    pub fn prove(sid: &str, pid: i32, x: Scalar, y: Point, base_point: Point) -> (res: Result<
        DLogProof,
        ChallengeError,
    >)
        requires
            x.wf(),
            y.wf(),
            base_point.wf(),
        ensures
            res matches Ok(p) ==> proof_wf(p) && honest(
                p,
                sid.spec_bytes(),
                pid,
                x.value(),
                y.log(),
                base_point.log(),
            ),
            res matches Err(e) ==> e == ChallengeError::ZeroChallenge && exists|k: nat|
                k < group_order() && #[trigger] nonce_challenge(
                    sid.spec_bytes(),
                    pid,
                    y.log(),
                    base_point.log(),
                    k,
                ) == 0,
    {
        let r = Scalar::random();
        proof {
            r.lemma_value_bound();
        }
        let res = DLogProof::prove_with_nonce(sid, pid, x, y, base_point, r);
        proof {
            if res is Ok {
                let (sb, g) = (sid.spec_bytes(), base_point.log());
                assert(built_with_nonce(res->Ok_0, sb, pid, x.value(), y.log(), g, r.value()));
            } else {
                let (sb, g) = (sid.spec_bytes(), base_point.log());
                assert(nonce_challenge(sb, pid, y.log(), g, r.value()) == 0);
            }
        }
        res
    }

    /// Checks the proof against `sid`, `pid`, `y` and `base_point`:
    /// recomputes the challenge `c` of `[base_point, y, t]` and tests
    /// `s * base_point == t + c * y`. A zero challenge is never accepted.
    pub fn verify(&self, sid: &str, pid: i32, y: Point, base_point: Point) -> (r: bool)
        requires
            proof_wf(*self),
            y.wf(),
            base_point.wf(),
        ensures
            r == accepts(*self, sid.spec_bytes(), pid, y.log(), base_point.log()),
    {
        let points = vec![base_point.duplicate(), y.duplicate(), self.t.duplicate()];
        let ghost logs = logs_of(points@);
        assert(logs =~= seq![base_point.log(), y.log(), self.t.log()]);
        match DLogProof::hash_points(sid, pid, points) {
            Err(_) => false,
            Ok(c) => {
                let lhs = base_point.mul_scalar(&self.s);
                let cy = y.mul_scalar(&c);
                let rhs = self.t.add_point(&cy);
                lhs.equals(&rhs)
            },
        }
    }
}

/// `s * g == t + c * y` in the exponent, for `t = k * g`, `s = k + x * c`
/// and `y = x * g`.
proof fn lemma_response_equation(g: int, k: int, x: int, c: int, m: int)
    requires
        m > 0,
    ensures
        (g * ((k + (x * c) % m) % m)) % m == ((g * k) % m + (((g * x) % m) * c) % m) % m,
{
    lemma_mul_mod_noop_right(g, k + (x * c) % m, m);
    assert(g * (k + (x * c) % m) == g * k + g * ((x * c) % m)) by (nonlinear_arith);
    lemma_add_mod_noop(g * k, g * ((x * c) % m), m);
    lemma_mul_mod_noop_right(g, x * c, m);
    lemma_add_mod_noop(g * k, g * (x * c), m);
    lemma_mul_mod_noop_left(g * x, c, m);
    lemma_mul_is_associative(g, x, c);
    lemma_add_mod_noop(g * k, (g * x) * c, m);
}

/// Completeness: a proof built honestly for `y == x * base` is accepted by
/// the verifier given the same session id, participant id, `y` and base.
pub proof fn lemma_completeness(
    proof: DLogProof,
    sid: Seq<u8>,
    pid: i32,
    x: Scalar,
    y: Point,
    base: Point,
)
    requires
        proof_wf(proof),
        x.wf(),
        y.wf(),
        base.wf(),
        y.log() == (base.log() * x.value()) % group_order(),
        honest(proof, sid, pid, x.value(), y.log(), base.log()),
    ensures
        accepts(proof, sid, pid, y.log(), base.log()),
{
    let k = choose|k: nat|
        k < group_order() && built_with_nonce(proof, sid, pid, x.value(), y.log(), base.log(), k);
    let c = proof_challenge(sid, pid, y.log(), base.log(), proof.t.log());
    let n = group_order() as int;
    lemma_response_equation(base.log() as int, k as int, x.value() as int, c as int, n);
}

/// With the curve generator as base, a commitment has at most one accepted
/// response: changing `s` in an accepted proof, and keeping `t`, makes the
/// verifier reject it.
pub proof fn lemma_response_unique(
    p: DLogProof,
    q: DLogProof,
    sid: Seq<u8>,
    pid: i32,
    y: Point,
    base: Point,
)
    requires
        proof_wf(p),
        proof_wf(q),
        y.wf(),
        base.wf(),
        base.log() == 1,
        p.t.log() == q.t.log(),
        accepts(p, sid, pid, y.log(), base.log()),
        accepts(q, sid, pid, y.log(), base.log()),
    ensures
        p.s.value() == q.s.value(),
{
    p.s.lemma_value_bound();
    q.s.lemma_value_bound();
    lemma_small_mod(p.s.value(), group_order());
    lemma_small_mod(q.s.value(), group_order());
}

/// The challenge depends on the session id, the participant id and the
/// points alone: equal inputs give equal challenges.
pub proof fn lemma_challenge_deterministic(sid: Seq<u8>, pid: i32, a: Seq<Point>, b: Seq<Point>)
    requires
        logs_of(a) == logs_of(b),
    ensures
        challenge_value(sid, pid, logs_of(a)) == challenge_value(sid, pid, logs_of(b)),
{
}

/// The hashed transcript binds the context: two different pairs of session
/// id and participant id never give the same bytes to hash for the same
/// points.
pub proof fn lemma_context_binding(
    sid1: Seq<u8>,
    pid1: i32,
    sid2: Seq<u8>,
    pid2: i32,
    logs: Seq<nat>,
)
    requires
        sid1 != sid2 || pid1 != pid2,
    ensures
        transcript(sid1, pid1, logs) != transcript(sid2, pid2, logs),
{
    let tail = concat_all(logs.map_values(|k: nat| point_encoding(k)));
    let b1 = be_bytes_u32(pid1 as u32);
    let b2 = be_bytes_u32(pid2 as u32);
    let t1 = transcript(sid1, pid1, logs);
    let t2 = transcript(sid2, pid2, logs);
    if t1 == t2 {
        let h1 = sid1 + b1;
        let h2 = sid2 + b2;
        assert(t1 == h1 + tail);
        assert(t2 == h2 + tail);
        assert(h1 =~= t1.subrange(0, t1.len() - tail.len()));
        assert(h2 =~= t2.subrange(0, t2.len() - tail.len()));
        assert(sid1 =~= h1.subrange(0, sid1.len() as int));
        assert(sid2 =~= h2.subrange(0, sid2.len() as int));
        assert(b1 =~= h1.subrange(sid1.len() as int, h1.len() as int));
        assert(b2 =~= h2.subrange(sid2.len() as int, h2.len() as int));
        lemma_be_bytes_u32_injective(pid1 as u32, pid2 as u32);
        lemma_i32_as_u32_injective(pid1, pid2);
    }
}

/// The order of the points is bound too: swapping two points with different
/// encodings changes the bytes that are hashed.
pub proof fn lemma_order_binding(sid: Seq<u8>, pid: i32, a: Point, b: Point, t: Point)
    requires
        a.wf(),
        b.wf(),
        t.wf(),
        point_encoding(a.log()) != point_encoding(b.log()),
    ensures
        transcript(sid, pid, seq![a.log(), b.log(), t.log()]) != transcript(
            sid,
            pid,
            seq![b.log(), a.log(), t.log()],
        ),
{
    a.lemma_encoding_len();
    b.lemma_encoding_len();
    let ea = point_encoding(a.log());
    let eb = point_encoding(b.log());
    let et = point_encoding(t.log());
    let head = sid + be_bytes_u32(pid as u32);
    lemma_concat_three(ea, eb, et, seq![a.log(), b.log(), t.log()]);
    lemma_concat_three(eb, ea, et, seq![b.log(), a.log(), t.log()]);
    let t1 = transcript(sid, pid, seq![a.log(), b.log(), t.log()]);
    let t2 = transcript(sid, pid, seq![b.log(), a.log(), t.log()]);
    assert(t1 == head + (ea + eb + et));
    assert(t2 == head + (eb + ea + et));
    assert(t1.subrange(head.len() as int, head.len() + 65int) =~= ea);
    assert(t2.subrange(head.len() as int, head.len() + 65int) =~= eb);
}

proof fn lemma_concat_three(e0: Seq<u8>, e1: Seq<u8>, e2: Seq<u8>, logs: Seq<nat>)
    requires
        logs.len() == 3,
        point_encoding(logs[0]) == e0,
        point_encoding(logs[1]) == e1,
        point_encoding(logs[2]) == e2,
    ensures
        concat_all(logs.map_values(|k: nat| point_encoding(k))) == e0 + e1 + e2,
{
    let p3 = logs.map_values(|k: nat| point_encoding(k));
    let p2 = p3.drop_last();
    let p1 = p2.drop_last();
    let p0 = p1.drop_last();
    assert(p3.last() == e2 && p2.last() == e1 && p1.last() == e0);
    assert(concat_all(p0) == Seq::<u8>::empty());
    assert(concat_all(p1) == concat_all(p0) + e0);
    assert(concat_all(p2) == concat_all(p1) + e1);
    assert(concat_all(p3) == concat_all(p2) + e2);
    assert(concat_all(p3) =~= e0 + e1 + e2);
}

proof fn lemma_be_bytes_u32_injective(u: u32, v: u32)
    requires
        be_bytes_u32(u) == be_bytes_u32(v),
    ensures
        u == v,
{
    assert(be_bytes_u32(u)[0] == be_bytes_u32(v)[0]);
    assert(be_bytes_u32(u)[1] == be_bytes_u32(v)[1]);
    assert(be_bytes_u32(u)[2] == be_bytes_u32(v)[2]);
    assert(be_bytes_u32(u)[3] == be_bytes_u32(v)[3]);
    assert(u == v) by (bit_vector)
        requires
            (u >> 24u32) as u8 == (v >> 24u32) as u8,
            (u >> 16u32) as u8 == (v >> 16u32) as u8,
            (u >> 8u32) as u8 == (v >> 8u32) as u8,
            u as u8 == v as u8,
    ;
}

proof fn lemma_i32_as_u32_injective(a: i32, b: i32)
    requires
        a as u32 == b as u32,
    ensures
        a == b,
{
    assert(a == b) by (bit_vector)
        requires
            a as u32 == b as u32,
    ;
}

} // verus!
