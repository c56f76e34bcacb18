//! The modular arithmetic that the protocol is stated over, and the
//! algebraic facts behind it: exponents of an element whose power at the
//! group order is the identity can be reduced modulo that order.

use vstd::prelude::*;
use vstd::arithmetic::power::*;
use vstd::arithmetic::div_mod::*;

verus! {

/// `b^e mod m`: the modular exponentiation that keys, commitments and the
/// verification equation are all stated with.
pub open spec fn pow_mod(b: nat, e: nat, m: nat) -> nat
    recommends
        m > 0,
{
    (pow(b as int, e) % (m as int)) as nat
}

/// `(a * b) mod m`: the right-hand side of the verification equation.
pub open spec fn mul_mod(a: nat, b: nat, m: nat) -> nat
    recommends
        m > 0,
{
    (a * b) % m
}

/// The number a big-endian byte string stands for.
pub open spec fn bytes_be_to_nat(s: Seq<u8>) -> nat
    decreases s.len(),
{
    if s.len() == 0 {
        0
    } else {
        bytes_be_to_nat(s.drop_last()) * 256 + (s.last() as nat)
    }
}

/// The big-endian byte string of `n` without leading zero bytes; empty for 0.
pub open spec fn nat_to_be_bytes(n: nat) -> Seq<u8>
    decreases n,
{
    if n == 0 {
        Seq::empty()
    } else {
        nat_to_be_bytes(n / 256).push((n % 256) as u8)
    }
}

/// The byte string the bignum library writes for `n`: a single zero byte
/// for 0, the minimal big-endian form otherwise.
pub open spec fn be_repr(n: nat) -> Seq<u8> {
    if n == 0 {
        seq![0u8]
    } else {
        nat_to_be_bytes(n)
    }
}

/// One raised to any power is one.
proof fn lemma_pow_base_one(e: nat)
    ensures
        pow(1, e) == 1,
    decreases e,
{
    reveal(pow);
    if e > 0 {
        lemma_pow_base_one((e - 1) as nat);
    }
}

/// When `g^m mod p == 1`, exponents of `g` can be reduced modulo `m`:
/// `g^k mod p == g^(k mod m) mod p`.
pub proof fn lemma_pow_mod_cycle(g: nat, k: nat, m: nat, p: nat)
    requires
        p > 1,
        m > 0,
        pow_mod(g, m, p) == 1,
    ensures
        pow_mod(g, k, p) == pow_mod(g, (k % m) as nat, p),
{
    let q = (k / m) as nat;
    let s = (k % m) as nat;
    lemma_fundamental_div_mod(k as int, m as int);
    assert(k == m * q + s);
    lemma_pow_adds(g as int, (m * q) as nat, s);
    assert(pow(g as int, k) == pow(g as int, (m * q) as nat) * pow(g as int, s));
    lemma_pow_multiplies(g as int, m, q);
    assert(pow(g as int, (m * q) as nat) == pow(pow(g as int, m), q));
    lemma_pow_mod_noop(pow(g as int, m), q, p as int);
    assert(pow(pow(g as int, m) % (p as int), q) % (p as int) == pow(pow(g as int, m), q) % (
    p as int));
    assert(pow(g as int, m) % (p as int) == 1);
    lemma_pow_base_one(q);
    assert(pow(pow(g as int, m), q) % (p as int) == 1int % (p as int));
    lemma_small_mod(1, p);
    assert(pow(pow(g as int, m), q) % (p as int) == 1);
    lemma_mul_mod_noop_general(pow(g as int, (m * q) as nat), pow(g as int, s), p as int);
    assert(pow(g as int, k) % (p as int) == ((pow(g as int, (m * q) as nat) % (p as int)) * (pow(
        g as int,
        s,
    ) % (p as int))) % (p as int));
    lemma_mod_bound(pow(g as int, s), p as int);
    lemma_mod_twice(pow(g as int, s), p as int);
    assert(pow(g as int, k) % (p as int) == pow(g as int, s) % (p as int));
}

/// No power of `g` below the group order is divisible by `p` when
/// `g^m mod p == 1`: otherwise `g^m` itself would be divisible by `p`.
pub proof fn lemma_pow_mod_nonzero(g: nat, x: nat, m: nat, p: nat)
    requires
        p > 1,
        x <= m,
        pow_mod(g, m, p) == 1,
    ensures
        pow_mod(g, x, p) != 0,
{
    if pow_mod(g, x, p) == 0 {
        lemma_pow_adds(g as int, x, (m - x) as nat);
        assert(pow(g as int, m) == pow(g as int, x) * pow(g as int, (m - x) as nat));
        lemma_mul_mod_noop_general(pow(g as int, x), pow(g as int, (m - x) as nat), p as int);
        assert(pow(g as int, m) % (p as int) == ((pow(g as int, x) % (p as int)) * (pow(
            g as int,
            (m - x) as nat,
        ) % (p as int))) % (p as int));
        assert(pow(g as int, x) % (p as int) == 0);
        assert(pow(g as int, m) % (p as int) == 0int % (p as int));
        lemma_small_mod(0, p);
        assert(pow_mod(g, m, p) == 0);
    }
}

/// The algebra behind completeness of the protocol: with `y == g^x mod p`
/// and `t == g^r mod p`, the honest response `s == (r + c*x) mod (p-1)`
/// satisfies the verification equation `g^s mod p == t * y^c mod p`,
/// provided `g^(p-1) mod p == 1` (true whenever `p` is prime).
pub proof fn lemma_schnorr_identity(g: nat, p: nat, x: nat, r: nat, c: nat)
    requires
        p > 2,
        pow_mod(g, (p - 1) as nat, p) == 1,
    ensures
        pow_mod(g, (((r + c * x) as nat) % ((p - 1) as nat)) as nat, p) == mul_mod(
            pow_mod(g, r, p),
            pow_mod(pow_mod(g, x, p), c, p),
            p,
        ),
{
    let m = (p - 1) as nat;
    let k = (r + c * x) as nat;
    let s = (k % m) as nat;
    lemma_pow_mod_cycle(g, k, m, p);
    assert(pow_mod(g, k, p) == pow_mod(g, s, p));
    lemma_pow_adds(g as int, r, (c * x) as nat);
    assert(pow(g as int, k) == pow(g as int, r) * pow(g as int, (c * x) as nat));
    lemma_pow_multiplies(g as int, x, c);
    assert(pow(pow(g as int, x), c) == pow(g as int, (x * c) as nat));
    assert((x * c) as nat == (c * x) as nat) by {
        vstd::arithmetic::mul::lemma_mul_is_commutative(x as int, c as int);
    }
    lemma_pow_mod_noop(pow(g as int, x), c, p as int);
    assert(pow(pow(g as int, x) % (p as int), c) % (p as int) == pow(pow(g as int, x), c) % (
    p as int));
    lemma_mul_mod_noop_general(pow(g as int, r), pow(g as int, (c * x) as nat), p as int);
    assert(pow(g as int, k) % (p as int) == ((pow(g as int, r) % (p as int)) * (pow(
        g as int,
        (c * x) as nat,
    ) % (p as int))) % (p as int));
}

} // verus!
