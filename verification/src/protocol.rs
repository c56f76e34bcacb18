//! The Schnorr proof of knowledge of a discrete logarithm, made
//! non-interactive by deriving the challenge from a hash of the transcript.
//! A prover who knows `x` with `y == g^x mod p` produces a proof that the
//! verifier checks against `y` alone; the challenge is recomputed by both
//! sides from the same bytes, so a proof is a pure function of the
//! parameters, the nonce and the secret.

use vstd::prelude::*;
use num_bigint::BigUint;
use vstd::arithmetic::power::pow;
use vstd::arithmetic::div_mod::lemma_mod_bound;
use crate::arith::{
    pow_mod, mul_mod, bytes_be_to_nat, be_repr, lemma_schnorr_identity, lemma_pow_mod_nonzero,
};
use crate::bignum::{
    big_value, big_from_u64, big_add, big_mul, big_rem, big_sub_one, big_eq, big_modpow,
    big_to_bytes_be, big_from_bytes_be,
};
use crate::hashing::{blake3_of, blake3_digest};
use crate::randomness::{fresh_rng, gen_biguint_in_range};

verus! {

/// The cyclic group everything happens in: a prime modulus `p` and a
/// generator `g` of its multiplicative group. Primality is assumed of the
/// caller's choice of parameters, never checked at runtime.
pub struct PublicParams {
    pub p: BigUint,
    pub g: BigUint,
}

/// A non-interactive proof: the commitment `t = g^r mod p` for a fresh
/// secret nonce `r`, and the response `s = (r + c*x) mod (p-1)` for the
/// hash-derived challenge `c`.
pub struct Proof {
    pub t: BigUint,
    pub s: BigUint,
}

impl PublicParams {
    /// The modulus as a number.
    pub open spec fn p_val(&self) -> nat {
        big_value(self.p)
    }

    /// The generator as a number.
    pub open spec fn g_val(&self) -> nat {
        big_value(self.g)
    }

    /// The documented invariant of valid parameters: `1 < g < p`.
    pub open spec fn wf(&self) -> bool {
        1 < self.g_val() < self.p_val()
    }

    /// What primality of `p` is used for: the generator's powers cycle
    /// with period dividing `p - 1` (Fermat's little theorem). Completeness
    /// of the protocol holds under this assumption and is stated with it.
    pub open spec fn sound(&self) -> bool {
        self.wf() && pow_mod(self.g_val(), (self.p_val() - 1) as nat, self.p_val()) == 1
    }
}

impl Proof {
    /// The commitment as a number.
    pub open spec fn t_val(&self) -> nat {
        big_value(self.t)
    }

    /// The response as a number.
    pub open spec fn s_val(&self) -> nat {
        big_value(self.s)
    }
}

/// The 1536-bit MODP group modulus of RFC 3526, used with generator 2.
pub open spec fn modp_prime() -> nat {
    0xFFFFFFFFFFFFFFFFC90FDAA22168C234C4C6628B80DC1CD129024E088A67CC74020BBEA63B139B22514A08798E3404DDEF9519B3CD3A431B302B0A6DF25F14374FE1356D6D51C245E485B576625E7EC6F44C42E9A637ED6B0BFF5CB6F406B7EDEE386BFB5A899FA5AE9F24117C4B1FE649286651ECE45B3DC2007CB8A163BF0598DA48361C55D39A69163FA8FD24CF5F83655D23DCA3AD961C62F356208552BB9ED529077096966D670C354E4ABC9804F1746C08CA237327FFFFFFFFFFFFFFFFnat
}

/// The challenge both sides derive: hash the minimal big-endian bytes of
/// the generator, the public value and the commitment, in that order, read
/// the digest as a big-endian number, and reduce it modulo `p - 1`.
pub open spec fn challenge_spec(g: nat, p: nat, y: nat, t: nat) -> nat
    recommends
        p >= 2,
{
    bytes_be_to_nat(blake3_of(be_repr(g) + be_repr(y) + be_repr(t))) % ((p - 1) as nat)
}

/// The verification equation: `g^s mod p == t * y^c mod p` with the
/// challenge `c` recomputed from `(g, y, t)`.
pub open spec fn accepts(g: nat, p: nat, y: nat, t: nat, s: nat) -> bool
    recommends
        p >= 2,
{
    pow_mod(g, s, p) == mul_mod(t, pow_mod(y, challenge_spec(g, p, y, t), p), p)
}

/// The fixed group parameters: the RFC 3526 1536-bit MODP prime and
/// generator 2.
pub fn setup() -> (params: PublicParams)
    ensures
        params.p_val() == modp_prime(),
        params.g_val() == 2,
        params.wf(),
{
    let ra = big_from_u64(0x100000000);
    let rb = big_from_u64(0x100000000);
    let radix = big_mul(&ra, &rb);
    let p0 = big_from_u64(0xFFFFFFFFFFFFFFFF);
    let p1 = big_add(&big_mul(&p0, &radix), &big_from_u64(0xC90FDAA22168C234));
    let p2 = big_add(&big_mul(&p1, &radix), &big_from_u64(0xC4C6628B80DC1CD1));
    let p3 = big_add(&big_mul(&p2, &radix), &big_from_u64(0x29024E088A67CC74));
    let p4 = big_add(&big_mul(&p3, &radix), &big_from_u64(0x020BBEA63B139B22));
    let p5 = big_add(&big_mul(&p4, &radix), &big_from_u64(0x514A08798E3404DD));
    let p6 = big_add(&big_mul(&p5, &radix), &big_from_u64(0xEF9519B3CD3A431B));
    let p7 = big_add(&big_mul(&p6, &radix), &big_from_u64(0x302B0A6DF25F1437));
    let p8 = big_add(&big_mul(&p7, &radix), &big_from_u64(0x4FE1356D6D51C245));
    let p9 = big_add(&big_mul(&p8, &radix), &big_from_u64(0xE485B576625E7EC6));
    let p10 = big_add(&big_mul(&p9, &radix), &big_from_u64(0xF44C42E9A637ED6B));
    let p11 = big_add(&big_mul(&p10, &radix), &big_from_u64(0x0BFF5CB6F406B7ED));
    let p12 = big_add(&big_mul(&p11, &radix), &big_from_u64(0xEE386BFB5A899FA5));
    let p13 = big_add(&big_mul(&p12, &radix), &big_from_u64(0xAE9F24117C4B1FE6));
    let p14 = big_add(&big_mul(&p13, &radix), &big_from_u64(0x49286651ECE45B3D));
    let p15 = big_add(&big_mul(&p14, &radix), &big_from_u64(0xC2007CB8A163BF05));
    let p16 = big_add(&big_mul(&p15, &radix), &big_from_u64(0x98DA48361C55D39A));
    let p17 = big_add(&big_mul(&p16, &radix), &big_from_u64(0x69163FA8FD24CF5F));
    let p18 = big_add(&big_mul(&p17, &radix), &big_from_u64(0x83655D23DCA3AD96));
    let p19 = big_add(&big_mul(&p18, &radix), &big_from_u64(0x1C62F356208552BB));
    let p20 = big_add(&big_mul(&p19, &radix), &big_from_u64(0x9ED529077096966D));
    let p21 = big_add(&big_mul(&p20, &radix), &big_from_u64(0x670C354E4ABC9804));
    let p22 = big_add(&big_mul(&p21, &radix), &big_from_u64(0xF1746C08CA237327));
    let p23 = big_add(&big_mul(&p22, &radix), &big_from_u64(0xFFFFFFFFFFFFFFFF));
    proof {
        assert(big_value(radix) == 0x10000000000000000nat) by (nonlinear_arith)
            requires
                big_value(radix) == big_value(ra) * big_value(rb),
                big_value(ra) == 0x100000000nat,
                big_value(rb) == 0x100000000nat,
        ;
        assert(big_value(p23) == 0xFFFFFFFFFFFFFFFFC90FDAA22168C234C4C6628B80DC1CD129024E088A67CC74020BBEA63B139B22514A08798E3404DDEF9519B3CD3A431B302B0A6DF25F14374FE1356D6D51C245E485B576625E7EC6F44C42E9A637ED6B0BFF5CB6F406B7EDEE386BFB5A899FA5AE9F24117C4B1FE649286651ECE45B3DC2007CB8A163BF0598DA48361C55D39A69163FA8FD24CF5F83655D23DCA3AD961C62F356208552BB9ED529077096966D670C354E4ABC9804F1746C08CA237327FFFFFFFFFFFFFFFFnat) by (nonlinear_arith)
            requires
                big_value(radix) == 0x10000000000000000nat,
                big_value(p0) == 0xFFFFFFFFFFFFFFFFnat,
                big_value(p1) == big_value(p0) * big_value(radix) + 0xC90FDAA22168C234nat,
                big_value(p2) == big_value(p1) * big_value(radix) + 0xC4C6628B80DC1CD1nat,
                big_value(p3) == big_value(p2) * big_value(radix) + 0x29024E088A67CC74nat,
                big_value(p4) == big_value(p3) * big_value(radix) + 0x020BBEA63B139B22nat,
                big_value(p5) == big_value(p4) * big_value(radix) + 0x514A08798E3404DDnat,
                big_value(p6) == big_value(p5) * big_value(radix) + 0xEF9519B3CD3A431Bnat,
                big_value(p7) == big_value(p6) * big_value(radix) + 0x302B0A6DF25F1437nat,
                big_value(p8) == big_value(p7) * big_value(radix) + 0x4FE1356D6D51C245nat,
                big_value(p9) == big_value(p8) * big_value(radix) + 0xE485B576625E7EC6nat,
                big_value(p10) == big_value(p9) * big_value(radix) + 0xF44C42E9A637ED6Bnat,
                big_value(p11) == big_value(p10) * big_value(radix) + 0x0BFF5CB6F406B7EDnat,
                big_value(p12) == big_value(p11) * big_value(radix) + 0xEE386BFB5A899FA5nat,
                big_value(p13) == big_value(p12) * big_value(radix) + 0xAE9F24117C4B1FE6nat,
                big_value(p14) == big_value(p13) * big_value(radix) + 0x49286651ECE45B3Dnat,
                big_value(p15) == big_value(p14) * big_value(radix) + 0xC2007CB8A163BF05nat,
                big_value(p16) == big_value(p15) * big_value(radix) + 0x98DA48361C55D39Anat,
                big_value(p17) == big_value(p16) * big_value(radix) + 0x69163FA8FD24CF5Fnat,
                big_value(p18) == big_value(p17) * big_value(radix) + 0x83655D23DCA3AD96nat,
                big_value(p19) == big_value(p18) * big_value(radix) + 0x1C62F356208552BBnat,
                big_value(p20) == big_value(p19) * big_value(radix) + 0x9ED529077096966Dnat,
                big_value(p21) == big_value(p20) * big_value(radix) + 0x670C354E4ABC9804nat,
                big_value(p22) == big_value(p21) * big_value(radix) + 0xF1746C08CA237327nat,
                big_value(p23) == big_value(p22) * big_value(radix) + 0xFFFFFFFFFFFFFFFFnat,
        ;
    }
    let g = big_from_u64(2);
    PublicParams { p: p23, g }
}

/// Draws a secret uniformly from `[1, p)` and pairs it with its public
/// value `g^secret mod p`. The range of the secret and the equation tying
/// the two hold of every outcome of the draw; under the group-order
/// assumption the public value is never zero.
pub fn generate_secret(params: &PublicParams) -> (keys: (BigUint, BigUint))
    requires
        params.wf(),
    ensures
        1 <= big_value(keys.0) < params.p_val(),
        big_value(keys.1) == pow_mod(params.g_val(), big_value(keys.0), params.p_val()),
        big_value(keys.1) < params.p_val(),
        params.sound() ==> 1 <= big_value(keys.1),
{
    let mut rng = fresh_rng();
    let one = big_from_u64(1);
    let x = gen_biguint_in_range(&mut rng, &one, &params.p);
    let y = big_modpow(&params.g, &x, &params.p);
    proof {
        lemma_mod_bound(pow(params.g_val() as int, big_value(x)), params.p_val() as int);
        if params.sound() {
            lemma_pow_mod_nonzero(
                params.g_val(),
                big_value(x),
                (params.p_val() - 1) as nat,
                params.p_val(),
            );
        }
    }
    (x, y)
}

/// Recomputes the Fiat-Shamir challenge from the generator, the public
/// value and the commitment. Deterministic: the result is a pure function
/// of those three numbers and the modulus.
pub fn calculate_challenge(params: &PublicParams, y: &BigUint, t: &BigUint) -> (c: BigUint)
    requires
        params.p_val() >= 2,
    ensures
        big_value(c) == challenge_spec(params.g_val(), params.p_val(), big_value(*y), big_value(*t)),
        big_value(c) < params.p_val() - 1,
{
    let mut data = big_to_bytes_be(&params.g);
    let mut yb = big_to_bytes_be(y);
    let mut tb = big_to_bytes_be(t);
    data.append(&mut yb);
    data.append(&mut tb);
    let digest = blake3_digest(&data);
    let h = big_from_bytes_be(&digest);
    let m = big_sub_one(&params.p);
    let c = big_rem(&h, &m);
    proof {
        lemma_mod_bound(big_value(h) as int, big_value(m) as int);
    }
    c
}

/// Builds the proof for a given nonce: `t = g^r mod p`, `c` the challenge
/// on `(g, y, t)`, `s = (r + c*x) mod (p-1)`. When the parameters satisfy
/// the group-order assumption and `y` really is `g^x mod p`, the result
/// passes verification.
pub fn prove_with_nonce(params: &PublicParams, x: &BigUint, y: &BigUint, r: &BigUint) -> (pf:
    Proof)
    requires
        params.wf(),
    ensures
        pf.t_val() == pow_mod(params.g_val(), big_value(*r), params.p_val()),
        pf.s_val() == (big_value(*r) + challenge_spec(
            params.g_val(),
            params.p_val(),
            big_value(*y),
            pf.t_val(),
        ) * big_value(*x)) % ((params.p_val() - 1) as nat),
        pf.s_val() < params.p_val() - 1,
        params.sound() && big_value(*y) == pow_mod(params.g_val(), big_value(*x), params.p_val())
            ==> accepts(params.g_val(), params.p_val(), big_value(*y), pf.t_val(), pf.s_val()),
{
    let t = big_modpow(&params.g, r, &params.p);
    let c = calculate_challenge(params, y, &t);
    let cx = big_mul(&c, x);
    let rcx = big_add(r, &cx);
    let m = big_sub_one(&params.p);
    let s = big_rem(&rcx, &m);
    proof {
        lemma_mod_bound(big_value(rcx) as int, big_value(m) as int);
        if params.sound() && big_value(*y) == pow_mod(params.g_val(), big_value(*x), params.p_val()) {
            lemma_schnorr_identity(
                params.g_val(),
                params.p_val(),
                big_value(*x),
                big_value(*r),
                challenge_spec(params.g_val(), params.p_val(), big_value(*y), big_value(t)),
            );
        }
    }
    Proof { t, s }
}

/// Produces a proof of knowledge of `x` with a nonce drawn fresh and
/// uniformly from `[1, p)`. Whatever the draw, the proof has the honest
/// shape stated below, and it passes verification whenever the parameters
/// satisfy the group-order assumption and `y` matches `x`.
pub fn prove(params: &PublicParams, x: &BigUint, y: &BigUint) -> (pf: Proof)
    requires
        params.wf(),
    ensures
        pf.s_val() < params.p_val() - 1,
        params.sound() && big_value(*y) == pow_mod(params.g_val(), big_value(*x), params.p_val())
            ==> accepts(params.g_val(), params.p_val(), big_value(*y), pf.t_val(), pf.s_val()),
        exists|r: nat|
            1 <= r < params.p_val() && pf.t_val() == #[trigger] pow_mod(
                params.g_val(),
                r,
                params.p_val(),
            ) && pf.s_val() == (r + challenge_spec(
                params.g_val(),
                params.p_val(),
                big_value(*y),
                pf.t_val(),
            ) * big_value(*x)) % ((params.p_val() - 1) as nat),
{
    let mut rng = fresh_rng();
    let one = big_from_u64(1);
    let r = gen_biguint_in_range(&mut rng, &one, &params.p);
    let pf = prove_with_nonce(params, x, y, &r);
    proof {
        assert(1 <= big_value(r) < params.p_val() && pf.t_val() == pow_mod(
            params.g_val(),
            big_value(r),
            params.p_val(),
        ) && pf.s_val() == (big_value(r) + challenge_spec(
            params.g_val(),
            params.p_val(),
            big_value(*y),
            pf.t_val(),
        ) * big_value(*x)) % ((params.p_val() - 1) as nat));
    }
    pf
}

/// Checks a proof: recomputes the challenge and tests the verification
/// equation. Returns exactly whether the equation holds; on any proof or
/// public value, in range or not, it returns a boolean and never panics.
pub fn verify(params: &PublicParams, y: &BigUint, pf: &Proof) -> (valid: bool)
    requires
        params.wf(),
    ensures
        valid == accepts(params.g_val(), params.p_val(), big_value(*y), pf.t_val(), pf.s_val()),
{
    let c = calculate_challenge(params, y, &pf.t);
    let lhs = big_modpow(&params.g, &pf.s, &params.p);
    let ypow = big_modpow(y, &c, &params.p);
    let prod = big_mul(&pf.t, &ypow);
    let rhs = big_rem(&prod, &params.p);
    big_eq(&lhs, &rhs)
}

/// Completeness: an honestly generated proof is accepted. For parameters
/// satisfying the group-order assumption, any secret `x`, any nonce `r`,
/// the public value `y = g^x mod p`, the commitment `t = g^r mod p` and
/// the response `s = (r + c*x) mod (p-1)` with `c` the challenge on
/// `(g, y, t)`, the verification equation holds.
pub proof fn lemma_completeness(g: nat, p: nat, x: nat, r: nat)
    requires
        p > 2,
        pow_mod(g, (p - 1) as nat, p) == 1,
    ensures
        accepts(
            g,
            p,
            pow_mod(g, x, p),
            pow_mod(g, r, p),
            (r + challenge_spec(g, p, pow_mod(g, x, p), pow_mod(g, r, p)) * x) % ((p - 1) as nat),
        ),
{
    lemma_schnorr_identity(g, p, x, r, challenge_spec(g, p, pow_mod(g, x, p), pow_mod(g, r, p)));
}

/// Determinism of the challenge: two challenges derived from the same
/// parameters, public value and commitment are the same value.
pub proof fn lemma_challenge_deterministic(g: nat, p: nat, y: nat, t: nat, c1: nat, c2: nat)
    requires
        c1 == challenge_spec(g, p, y, t),
        c2 == challenge_spec(g, p, y, t),
    ensures
        c1 == c2,
{
}

} // verus!
