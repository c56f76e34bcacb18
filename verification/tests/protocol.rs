use num_bigint::BigUint;
use schnorr_zkp::protocol::{calculate_challenge, generate_secret, prove, prove_with_nonce, setup,
    verify, Proof, PublicParams};

const MODP_HEX: &[u8] = b"FFFFFFFFFFFFFFFFC90FDAA22168C234C4C6628B80DC1CD129024E088A67CC74020BBEA63B139B22514A08798E3404DDEF9519B3CD3A431B302B0A6DF25F14374FE1356D6D51C245E485B576625E7EC6F44C42E9A637ED6B0BFF5CB6F406B7EDEE386BFB5A899FA5AE9F24117C4B1FE649286651ECE45B3DC2007CB8A163BF0598DA48361C55D39A69163FA8FD24CF5F83655D23DCA3AD961C62F356208552BB9ED529077096966D670C354E4ABC9804F1746C08CA237327FFFFFFFFFFFFFFFF";

fn toy_params() -> PublicParams {
    PublicParams { p: BigUint::from(23u32), g: BigUint::from(5u32) }
}

#[test]
fn setup_matches_known_prime() {
    let params = setup();
    let expected = BigUint::parse_bytes(MODP_HEX, 16).unwrap();
    assert_eq!(params.p, expected);
    assert_eq!(params.g, BigUint::from(2u32));
}

#[test]
fn generate_secret_in_range() {
    let params = setup();
    let (secret, public) = generate_secret(&params);
    assert!(secret >= BigUint::from(1u32));
    assert!(secret < params.p);
    assert!(public < params.p);
    assert_eq!(public, params.g.modpow(&secret, &params.p));
}

#[test]
fn challenge_is_deterministic() {
    let params = toy_params();
    let y = BigUint::from(8u32);
    let t = BigUint::from(10u32);
    let c1 = calculate_challenge(&params, &y, &t);
    let c2 = calculate_challenge(&params, &y, &t);
    assert_eq!(c1, c2);
    let params2 = setup();
    let d1 = calculate_challenge(&params2, &y, &t);
    let d2 = calculate_challenge(&params2, &y, &t);
    assert_eq!(d1, d2);
}

#[test]
fn challenge_matches_direct_hash() {
    let params = toy_params();
    let y = BigUint::from(8u32);
    let t = BigUint::from(10u32);
    let c = calculate_challenge(&params, &y, &t);
    let mut data = params.g.to_bytes_be();
    data.extend_from_slice(&y.to_bytes_be());
    data.extend_from_slice(&t.to_bytes_be());
    let digest = blake3::hash(&data);
    let expected = BigUint::from_bytes_be(digest.as_bytes()) % (&params.p - 1u32);
    assert_eq!(c, expected);
    assert!(c < &params.p - 1u32);
}

#[test]
fn challenge_serializes_zero_as_one_byte() {
    let params = toy_params();
    let y = BigUint::from(0u32);
    let t = BigUint::from(10u32);
    let c = calculate_challenge(&params, &y, &t);
    let data: Vec<u8> = vec![5u8, 0u8, 10u8];
    let digest = blake3::hash(&data);
    let expected = BigUint::from_bytes_be(digest.as_bytes()) % (&params.p - 1u32);
    assert_eq!(c, expected);
}

#[test]
fn end_to_end_toy_group() {
    // p = 23, g = 5, secret = 6, public = 5^6 mod 23 = 8, nonce r = 3,
    // commitment t = 5^3 mod 23 = 10, response s = (3 + c*6) mod 22.
    let params = toy_params();
    let x = BigUint::from(6u32);
    let y = BigUint::from(8u32);
    assert_eq!(y, params.g.modpow(&x, &params.p));
    let r = BigUint::from(3u32);
    let pf = prove_with_nonce(&params, &x, &y, &r);
    assert_eq!(pf.t, BigUint::from(10u32));
    let c = calculate_challenge(&params, &y, &pf.t);
    let expected_s = (&r + &c * &x) % (&params.p - 1u32);
    assert_eq!(pf.s, expected_s);
    assert!(verify(&params, &y, &pf));
}

#[test]
fn toy_group_round_trip() {
    let params = toy_params();
    let x = BigUint::from(6u32);
    let y = params.g.modpow(&x, &params.p);
    let pf = prove(&params, &x, &y);
    assert!(verify(&params, &y, &pf));
}

#[test]
fn real_group_round_trip() {
    let params = setup();
    let (secret, public) = generate_secret(&params);
    let pf = prove(&params, &secret, &public);
    assert!(pf.s < &params.p - 1u32);
    assert!(verify(&params, &public, &pf));
}

#[test]
fn mismatched_public_value_fails() {
    let params = setup();
    let (secret, _) = generate_secret(&params);
    let (_, other_public) = generate_secret(&params);
    let pf = prove(&params, &secret, &other_public);
    assert!(!verify(&params, &other_public, &pf));
}

#[test]
fn forged_proofs_fail() {
    let params = setup();
    let (_, public) = generate_secret(&params);
    for i in 0u32..25 {
        let t = BigUint::from(2u32 + i) % &params.p;
        let s = BigUint::from(1000u32 + 7 * i);
        let pf = Proof { t, s };
        assert!(!verify(&params, &public, &pf));
    }
}

#[test]
fn tampered_commitment_fails() {
    let params = setup();
    let (secret, public) = generate_secret(&params);
    let pf = prove(&params, &secret, &public);
    assert!(verify(&params, &public, &pf));
    let bytes = pf.t.to_bytes_be();
    let positions = [0, bytes.len() / 2, bytes.len() - 1];
    for &pos in positions.iter() {
        for mask in [0x01u8, 0x80u8] {
            let mut mutated = bytes.clone();
            mutated[pos] ^= mask;
            let tampered = Proof { t: BigUint::from_bytes_be(&mutated), s: pf.s.clone() };
            assert!(!verify(&params, &public, &tampered));
        }
    }
}

#[test]
fn tampered_response_fails() {
    let params = setup();
    let (secret, public) = generate_secret(&params);
    let pf = prove(&params, &secret, &public);
    assert!(verify(&params, &public, &pf));
    let bytes = pf.s.to_bytes_be();
    let positions = [0, bytes.len() / 2, bytes.len() - 1];
    for &pos in positions.iter() {
        for mask in [0x01u8, 0x80u8] {
            let mut mutated = bytes.clone();
            mutated[pos] ^= mask;
            let tampered = Proof { t: pf.t.clone(), s: BigUint::from_bytes_be(&mutated) };
            assert!(!verify(&params, &public, &tampered));
        }
    }
}

#[test]
fn adversarial_inputs_return_false() {
    let params = setup();
    let (_, public) = generate_secret(&params);
    // Zero response: left side is g^0 = 1; chosen commitment 0 makes the
    // right side 0, whatever the challenge.
    let pf = Proof { t: BigUint::from(0u32), s: BigUint::from(0u32) };
    assert!(!verify(&params, &public, &pf));
    // Zero commitment with an honest-looking response.
    let pf = Proof { t: BigUint::from(0u32), s: BigUint::from(12345u32) };
    assert!(!verify(&params, &public, &pf));
    // Commitment equal to the modulus: out of range, reduces to 0.
    let pf = Proof { t: params.p.clone(), s: BigUint::from(0u32) };
    assert!(!verify(&params, &public, &pf));
    // Public value 0: the right side is 0 or t = 3, never g^1 = 2.
    let y = BigUint::from(0u32);
    let pf = Proof { t: BigUint::from(3u32), s: BigUint::from(1u32) };
    assert!(!verify(&params, &y, &pf));
    // Public value 1: the right side is t = 5, never g^1 = 2.
    let y = BigUint::from(1u32);
    let pf = Proof { t: BigUint::from(5u32), s: BigUint::from(1u32) };
    assert!(!verify(&params, &y, &pf));
}
