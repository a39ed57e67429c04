use dlog_proof::challenge::pid_bytes;
use dlog_proof::{ChallengeError, DLogProof, Point, Scalar};
use sha2::Digest;

fn small_scalar(v: u8) -> Scalar {
    Scalar::from_be_bytes_reduced(&vec![v])
}

fn order_minus(d: u8) -> Scalar {
    let mut b: Vec<u8> = vec![
        0xFF, 0xFF, 0xFF, 0xFF, 0xFF, 0xFF, 0xFF, 0xFF, 0xFF, 0xFF, 0xFF, 0xFF, 0xFF, 0xFF, 0xFF,
        0xFE, 0xBA, 0xAE, 0xDC, 0xE6, 0xAF, 0x48, 0xA0, 0x3B, 0xBF, 0xD2, 0x5E, 0x8C, 0xD0, 0x36,
        0x41, 0x41,
    ];
    b[31] -= d;
    Scalar::from_be_bytes_reduced(&b)
}

#[test]
fn test_dlog_proof() {
    let sid = "sid";
    let pid = 1;

    let base_point = Point::generator();
    let x = Scalar::random();
    let y = base_point.mul_scalar(&x);

    let dlog_proof = DLogProof::prove(sid, pid, x, y.clone(), base_point.clone()).unwrap();
    assert!(dlog_proof.verify(sid, pid, y, base_point));
}

#[test]
fn test_dlog_proof_fail() {
    let sid = "sid";
    let pid = 1;

    let base_point = Point::generator();
    let x = Scalar::random();
    let y = base_point.mul_scalar(&x);

    let dlog_proof = DLogProof::prove(sid, pid, x, y.clone(), base_point.clone()).unwrap();
    assert!(!dlog_proof.verify(sid, pid, y.add_point(&base_point), base_point));
}

#[test]
fn test_dlog_proof_fail2() {
    let sid = "sid";
    let pid = 1;

    let base_point = Point::generator();
    let x = Scalar::random();
    let y = base_point.mul_scalar(&x);

    let dlog_proof = DLogProof::prove(sid, pid, x, y.clone(), base_point.clone()).unwrap();
    let other = base_point.mul_scalar(&Scalar::random());
    assert!(!dlog_proof.verify(sid, pid, y.add_point(&other), base_point));
}

#[test]
fn completeness_over_many_secrets_and_contexts() {
    let base_point = Point::generator();
    let sids = ["sid", "", "session-42"];
    let pids = [1, 0, -7, i32::MAX, i32::MIN];
    for sid in sids.iter() {
        for pid in pids.iter() {
            let x = Scalar::random();
            let y = base_point.mul_scalar(&x);
            let p = DLogProof::prove(sid, *pid, x, y.clone(), base_point.clone()).unwrap();
            assert!(p.verify(sid, *pid, y, base_point.clone()));
        }
    }
}

#[test]
fn completeness_with_other_base_point() {
    let base_point = Point::generator().mul_scalar(&Scalar::random());
    let x = Scalar::random();
    let y = base_point.mul_scalar(&x);
    let p = DLogProof::prove("sid", 3, x, y.clone(), base_point.clone()).unwrap();
    assert!(p.verify("sid", 3, y.clone(), base_point));
    assert!(!p.verify("sid", 3, y, Point::generator()));
}

#[test]
fn wrong_secret_is_rejected() {
    let base_point = Point::generator();
    let x = Scalar::random();
    let y = base_point.mul_scalar(&x);
    let p = DLogProof::prove("sid", 1, Scalar::random(), y.clone(), base_point.clone()).unwrap();
    assert!(!p.verify("sid", 1, y, base_point));
}

#[test]
fn changed_session_or_participant_is_rejected() {
    let base_point = Point::generator();
    let x = Scalar::random();
    let y = base_point.mul_scalar(&x);
    let p = DLogProof::prove("sid", 1, x, y.clone(), base_point.clone()).unwrap();
    assert!(!p.verify("sie", 1, y.clone(), base_point.clone()));
    assert!(!p.verify("sid ", 1, y.clone(), base_point.clone()));
    assert!(!p.verify("sid", 2, y.clone(), base_point.clone()));
    assert!(!p.verify("sid", -1, y.clone(), base_point.clone()));
    assert!(p.verify("sid", 1, y, base_point));
}

#[test]
fn challenge_is_deterministic() {
    let g = Point::generator();
    let y = g.mul_scalar(&small_scalar(7));
    let t = g.mul_scalar(&small_scalar(9));
    let a = DLogProof::hash_points("sid", 1, vec![g.clone(), y.clone(), t.clone()]).unwrap();
    let b = DLogProof::hash_points("sid", 1, vec![g.clone(), y.clone(), t.clone()]).unwrap();
    assert_eq!(a.to_bytes(), b.to_bytes());
    let swapped = DLogProof::hash_points("sid", 1, vec![y, g, t]).unwrap();
    assert_ne!(a.to_bytes(), swapped.to_bytes());
}

#[test]
fn challenge_is_reduced_digest_of_transcript() {
    let g = Point::generator();
    let y = g.mul_scalar(&small_scalar(5));
    let c = DLogProof::hash_points("sid", 1, vec![g.clone(), y.clone()]).unwrap();

    let mut data: Vec<u8> = b"sid".to_vec();
    data.extend_from_slice(&[0, 0, 0, 1]);
    data.extend_from_slice(&g.to_bytes());
    data.extend_from_slice(&y.to_bytes());
    let digest = sha2::Sha256::digest(&data).to_vec();
    let expected = curv::elliptic::curves::Scalar::<curv::elliptic::curves::Secp256k1>::from_bigint(
        &<curv::BigInt as curv::arithmetic::Converter>::from_bytes(&digest),
    );
    assert_eq!(c.to_bytes(), expected.to_bytes().to_vec());
    assert_eq!(c.to_bytes().len(), 32);
}

#[test]
fn challenge_error_is_a_value() {
    let e = ChallengeError::ZeroChallenge;
    assert_eq!(e, ChallengeError::ZeroChallenge);
}

#[test]
fn participant_id_bytes_are_big_endian() {
    assert_eq!(pid_bytes(1), vec![0, 0, 0, 1]);
    assert_eq!(pid_bytes(0x01020304), vec![1, 2, 3, 4]);
    assert_eq!(pid_bytes(-1), vec![0xFF, 0xFF, 0xFF, 0xFF]);
    assert_eq!(pid_bytes(i32::MIN), vec![0x80, 0, 0, 0]);
}

#[test]
fn nonces_are_fresh() {
    let g = Point::generator();
    let x = Scalar::random();
    let y = g.mul_scalar(&x);
    let p1 = DLogProof::prove("sid", 1, x.clone(), y.clone(), g.clone()).unwrap();
    let p2 = DLogProof::prove("sid", 1, x, y, g).unwrap();
    assert_ne!(p1.t.to_bytes(), p2.t.to_bytes());
    assert_ne!(p1.s.to_bytes(), p2.s.to_bytes());
}

#[test]
fn tampered_response_is_rejected() {
    let g = Point::generator();
    let x = Scalar::random();
    let y = g.mul_scalar(&x);
    let p = DLogProof::prove("sid", 1, x, y.clone(), g.clone()).unwrap();
    for bit in [0usize, 1, 7, 100, 200, 255] {
        let mut b = p.s.to_bytes();
        b[31 - bit / 8] ^= 1u8 << (bit % 8);
        let forged = DLogProof { t: p.t.clone(), s: Scalar::from_be_bytes_reduced(&b) };
        assert!(!forged.verify("sid", 1, y.clone(), g.clone()));
    }
}

#[test]
fn tampered_commitment_is_rejected() {
    let g = Point::generator();
    let x = Scalar::random();
    let y = g.mul_scalar(&x);
    let p = DLogProof::prove("sid", 1, x, y.clone(), g.clone()).unwrap();
    let forged = DLogProof { t: p.t.add_point(&g), s: p.s.clone() };
    assert!(!forged.verify("sid", 1, y, g));
}

#[test]
fn proof_from_fixed_nonce_is_exact() {
    let g = Point::generator();
    let x = small_scalar(3);
    let y = g.mul_scalar(&x);
    let r = small_scalar(11);
    let p = DLogProof::prove_with_nonce("sid", 1, x.clone(), y.clone(), g.clone(), r.clone()).unwrap();
    let t = g.mul_scalar(&r);
    assert_eq!(p.t.to_bytes(), t.to_bytes());
    let c = DLogProof::hash_points("sid", 1, vec![g.clone(), y.clone(), t]).unwrap();
    let s = r.add(&x.mul(&c));
    assert_eq!(p.s.to_bytes(), s.to_bytes());
    assert!(p.verify("sid", 1, y, g));
}

#[test]
fn scalar_arithmetic_is_modular() {
    assert_eq!(small_scalar(2).add(&small_scalar(3)).to_bytes(), small_scalar(5).to_bytes());
    assert_eq!(small_scalar(3).mul(&small_scalar(4)).to_bytes(), small_scalar(12).to_bytes());
    assert_eq!(order_minus(1).add(&small_scalar(2)).to_bytes(), small_scalar(1).to_bytes());
    assert_eq!(order_minus(1).mul(&order_minus(1)).to_bytes(), small_scalar(1).to_bytes());
    assert!(order_minus(0).is_zero());
    assert!(small_scalar(0).is_zero());
    assert!(!small_scalar(1).is_zero());
    let all_ones = Scalar::from_be_bytes_reduced(&vec![0xFFu8; 32]);
    let mut reduced = vec![0u8; 15];
    reduced.extend_from_slice(&[
        0x01, 0x45, 0x51, 0x23, 0x19, 0x50, 0xB7, 0x5F, 0xC4, 0x40, 0x2D, 0xA1, 0x73, 0x2F, 0xC9,
        0xBE, 0xBE,
    ]);
    assert_eq!(all_ones.to_bytes(), reduced);
    let mut expected = vec![0u8; 32];
    expected[31] = 12;
    assert_eq!(small_scalar(12).to_bytes(), expected);
}

#[test]
fn point_arithmetic_is_the_group_law() {
    let g = Point::generator();
    let enc = g.to_bytes();
    assert_eq!(enc.len(), 65);
    assert_eq!(enc[0], 0x04);
    let gx: [u8; 32] = [
        0x79, 0xBE, 0x66, 0x7E, 0xF9, 0xDC, 0xBB, 0xAC, 0x55, 0xA0, 0x62, 0x95, 0xCE, 0x87, 0x0B,
        0x07, 0x02, 0x9B, 0xFC, 0xDB, 0x2D, 0xCE, 0x28, 0xD9, 0x59, 0xF2, 0x81, 0x5B, 0x16, 0xF8,
        0x17, 0x98,
    ];
    assert_eq!(&enc[1..33], &gx[..]);
    let two_g = g.mul_scalar(&small_scalar(2));
    assert!(two_g.equals(&g.add_point(&g)));
    assert!(!two_g.equals(&g));
    assert_ne!(two_g.to_bytes(), g.to_bytes());
    let zero = g.mul_scalar(&small_scalar(0));
    assert_eq!(zero.to_bytes(), vec![0u8; 65]);
    assert!(g.add_point(&zero).equals(&g));
    assert!(g.mul_scalar(&order_minus(1)).add_point(&g).equals(&zero));
    assert!(g.duplicate().equals(&g));
}
