//! Diffie-Hellman key agreement over the fixed 768-bit group of the session
//! handshake.

use crate::radix::{
    bytes_value, lemma_digits_value_bound, lemma_digits_value_prefix,
    lemma_digits_value_push,
};
use num_bigint::BigUint;
use rand::RngCore;
use vstd::arithmetic::div_mod::*;
use vstd::arithmetic::power::*;
use vstd::prelude::*;

verus! {

/// The group's prime modulus, big-endian.
pub open spec fn dh_prime() -> Seq<u8> {
    seq![
        0xff, 0xff, 0xff, 0xff, 0xff, 0xff, 0xff, 0xff, 0xc9, 0x0f, 0xda, 0xa2,
        0x21, 0x68, 0xc2, 0x34, 0xc4, 0xc6, 0x62, 0x8b, 0x80, 0xdc, 0x1c, 0xd1,
        0x29, 0x02, 0x4e, 0x08, 0x8a, 0x67, 0xcc, 0x74, 0x02, 0x0b, 0xbe, 0xa6,
        0x3b, 0x13, 0x9b, 0x22, 0x51, 0x4a, 0x08, 0x79, 0x8e, 0x34, 0x04, 0xdd,
        0xef, 0x95, 0x19, 0xb3, 0xcd, 0x3a, 0x43, 0x1b, 0x30, 0x2b, 0x0a, 0x6d,
        0xf2, 0x5f, 0x14, 0x37, 0x4f, 0xe1, 0x35, 0x6d, 0x6d, 0x51, 0xc2, 0x45,
        0xe4, 0x85, 0xb5, 0x76, 0x62, 0x5e, 0x7e, 0xc6, 0xf4, 0x4c, 0x42, 0xe9,
        0xa6, 0x3a, 0x36, 0x20, 0xff, 0xff, 0xff, 0xff, 0xff, 0xff, 0xff, 0xff
    ]
}

/// The group's generator.
pub open spec fn dh_generator() -> nat {
    2
}

/// The number of random bytes in a private key.
pub const PRIVATE_KEY_LEN: usize = 95;

/// The shortest big-endian bytes of `n`: no leading zero byte, `[0]` for zero.
pub open spec fn min_be_bytes(n: nat) -> Seq<u8>
    decreases n,
{
    if n < 256 {
        seq![n as u8]
    } else {
        min_be_bytes(n / 256).push((n % 256) as u8)
    }
}

/// `base^exp mod modulus` over big-endian byte strings.
pub open spec fn mod_pow(base: Seq<u8>, exp: Seq<u8>, modulus: Seq<u8>) -> nat {
    (pow(bytes_value(base) as int, bytes_value(exp)) % (bytes_value(modulus) as int)) as nat
}

/// The public key that belongs to the private key `private_key`.
pub open spec fn public_of(private_key: Seq<u8>) -> Seq<u8> {
    min_be_bytes((pow(dh_generator() as int, bytes_value(private_key)) % (bytes_value(dh_prime()) as int)) as nat)
}

/// The secret that the private key `private_key` shares with the holder of `remote`.
pub open spec fn shared_of(private_key: Seq<u8>, remote: Seq<u8>) -> Seq<u8> {
    min_be_bytes(mod_pow(remote, private_key, dh_prime()))
}

/// Relies on num-bigint's `BigUint::modpow`, which returns
/// `(self ^ exponent) % modulus` and panics only on a zero modulus;
/// `from_bytes_be` reads the arguments (empty is zero) and `to_bytes_be`
/// writes the result without leading zeros (`[0]` for zero).
#[verifier::external_body]
fn mod_pow_be(base: &[u8], exp: &[u8], modulus: &[u8]) -> (r: Vec<u8>)
    requires
        bytes_value(modulus@) > 1,
    ensures
        r@ == min_be_bytes(mod_pow(base@, exp@, modulus@)),
{
    let b = BigUint::from_bytes_be(base);
    let e = BigUint::from_bytes_be(exp);
    let m = BigUint::from_bytes_be(modulus);
    b.modpow(&e, &m).to_bytes_be()
}

/// Relies on rand's `thread_rng` and `RngCore::fill_bytes`: `n` bytes from
/// the thread-local generator, of which nothing else is known.
#[verifier::external_body]
fn random_bytes(n: usize) -> (r: Vec<u8>)
    ensures
        r@.len() == n,
{
    let mut v = vec![0u8; n];
    rand::thread_rng().fill_bytes(&mut v);
    v
}

fn prime_bytes() -> (r: Vec<u8>)
    ensures
        r@ == dh_prime(),
{
    let v: Vec<u8> = vec![
        0xff, 0xff, 0xff, 0xff, 0xff, 0xff, 0xff, 0xff, 0xc9, 0x0f, 0xda, 0xa2,
        0x21, 0x68, 0xc2, 0x34, 0xc4, 0xc6, 0x62, 0x8b, 0x80, 0xdc, 0x1c, 0xd1,
        0x29, 0x02, 0x4e, 0x08, 0x8a, 0x67, 0xcc, 0x74, 0x02, 0x0b, 0xbe, 0xa6,
        0x3b, 0x13, 0x9b, 0x22, 0x51, 0x4a, 0x08, 0x79, 0x8e, 0x34, 0x04, 0xdd,
        0xef, 0x95, 0x19, 0xb3, 0xcd, 0x3a, 0x43, 0x1b, 0x30, 0x2b, 0x0a, 0x6d,
        0xf2, 0x5f, 0x14, 0x37, 0x4f, 0xe1, 0x35, 0x6d, 0x6d, 0x51, 0xc2, 0x45,
        0xe4, 0x85, 0xb5, 0x76, 0x62, 0x5e, 0x7e, 0xc6, 0xf4, 0x4c, 0x42, 0xe9,
        0xa6, 0x3a, 0x36, 0x20, 0xff, 0xff, 0xff, 0xff, 0xff, 0xff, 0xff, 0xff
    ];
    assert(v@ =~= dh_prime());
    v
}

/// The prime is larger than one.
proof fn lemma_prime_above_one()
    ensures
        bytes_value(dh_prime()) > 1,
{
    let ds = dh_prime().map_values(|x: u8| x as nat);
    lemma_digits_value_prefix(ds, 1, 256);
    assert(ds.take(1) =~= seq![255nat]);
    lemma_digits_value_push(Seq::<nat>::empty(), 255, 256);
    assert(Seq::<nat>::empty().push(255) =~= seq![255nat]);
}


/// The shortest big-endian bytes of `n` read back as `n`.
pub proof fn lemma_min_be_bytes_value(n: nat)
    ensures
        bytes_value(min_be_bytes(n)) == n,
    decreases n,
{
    let f = |x: u8| x as nat;
    if n < 256 {
        assert(min_be_bytes(n).map_values(f) =~= Seq::<nat>::empty().push(n));
        lemma_digits_value_push(Seq::<nat>::empty(), n, 256);
    } else {
        lemma_min_be_bytes_value(n / 256);
        let init = min_be_bytes(n / 256);
        assert(min_be_bytes(n).map_values(f) =~= init.map_values(f).push(n % 256));
        lemma_digits_value_push(init.map_values(f), n % 256, 256);
        lemma_fundamental_div_mod(n as int, 256);
    }
}

/// The shortest form of a number below `256^k` has between one and `k` bytes.
pub proof fn lemma_min_be_bytes_len(n: nat, k: nat)
    requires
        k >= 1,
        n < pow(256, k),
    ensures
        1 <= min_be_bytes(n).len() <= k,
    decreases n,
{
    if n >= 256 {
        assert(pow(256, k) == 256 * pow(256, (k - 1) as nat)) by {
            reveal(pow);
        }
        if k == 1 {
            assert(pow(256, 0) == 1) by {
                reveal(pow);
            }
        }
        lemma_pow_positive(256, (k - 1) as nat);
        let p = pow(256, (k - 1) as nat);
        assert(n / 256 < p) by {
            lemma_div_by_multiple(p, 256);
            lemma_div_is_ordered(n as int, 256 * p - 1, 256);
            assert((256 * p - 1) / 256 < p) by (nonlinear_arith)
                requires
                    p > 0,
            ;
        }
        lemma_min_be_bytes_len(n / 256, (k - 1) as nat);
    }
}

/// An ephemeral key pair: a random private exponent and the generator raised
/// to it modulo the prime.
pub struct DHLocalKeys {
    private_key: Vec<u8>,
    public_key: Vec<u8>,
}

impl DHLocalKeys {
    /// The private exponent, big-endian.
    pub closed spec fn private(&self) -> Seq<u8> {
        self.private_key@
    }

    /// The public key, big-endian.
    pub closed spec fn public(&self) -> Seq<u8> {
        self.public_key@
    }

    /// The public key belongs to the private key.
    pub open spec fn wf(&self) -> bool {
        self.public() == public_of(self.private())
    }

    /// A fresh key pair with a random private exponent of
    /// `PRIVATE_KEY_LEN` bytes.
    pub fn random() -> (r: DHLocalKeys)
        ensures
            r.wf(),
            r.private().len() == PRIVATE_KEY_LEN,
    {
        let private_key = random_bytes(PRIVATE_KEY_LEN);
        let generator: Vec<u8> = vec![2u8];
        let prime = prime_bytes();
        proof {
            lemma_prime_above_one();
            lemma_min_be_bytes_value(2);
            assert(generator@ =~= min_be_bytes(2));
        }
        let public_key = mod_pow_be(generator.as_slice(), private_key.as_slice(), prime.as_slice());
        DHLocalKeys { private_key, public_key }
    }

    /// The public key, big-endian without leading zeros.
    pub fn public_key(&self) -> (r: Vec<u8>)
        ensures
            r@ == self.public(),
    {
        self.public_key.clone()
    }

    /// The secret shared with the holder of the public key `remote_key`: the
    /// remote key raised to the private exponent modulo the prime. An empty
    /// remote key reads as zero.
    pub fn shared_secret(&self, remote_key: &[u8]) -> (r: Vec<u8>)
        ensures
            r@ == shared_of(self.private(), remote_key@),
    {
        let prime = prime_bytes();
        proof {
            lemma_prime_above_one();
        }
        mod_pow_be(remote_key, self.private_key.as_slice(), prime.as_slice())
    }
}

/// Two parties that exchange public keys derive the same shared secret.
pub proof fn lemma_shared_secret_symmetric(a: Seq<u8>, b: Seq<u8>)
    ensures
        shared_of(a, public_of(b)) == shared_of(b, public_of(a)),
{
    let p = bytes_value(dh_prime()) as int;
    let va = bytes_value(a);
    let vb = bytes_value(b);
    lemma_prime_above_one();
    let pa = pow(2, va) % p;
    let pb = pow(2, vb) % p;
    lemma_mod_bound(pow(2, va), p);
    lemma_mod_bound(pow(2, vb), p);
    lemma_min_be_bytes_value(pa as nat);
    lemma_min_be_bytes_value(pb as nat);
    lemma_pow_mod_noop(pow(2, vb), va, p);
    lemma_pow_mod_noop(pow(2, va), vb, p);
    lemma_pow_multiplies(2, vb, va);
    lemma_pow_multiplies(2, va, vb);
    assert(vb * va == va * vb) by (nonlinear_arith);
}

/// A public key is never empty and never longer than the 96-byte prime.
pub proof fn lemma_public_key_len(private_key: Seq<u8>)
    ensures
        1 <= public_of(private_key).len() <= 96,
{
    let p = bytes_value(dh_prime()) as int;
    lemma_prime_above_one();
    let n = pow(2, bytes_value(private_key)) % p;
    lemma_mod_bound(pow(2, bytes_value(private_key)), p);
    let ds = dh_prime().map_values(|x: u8| x as nat);
    assert forall|i: int| 0 <= i < ds.len() implies #[trigger] ds[i] < 256 by {}
    lemma_digits_value_bound(ds, 256);
    lemma_min_be_bytes_len(n as nat, 96);
}

/// A shared secret is never empty.
pub proof fn lemma_shared_secret_nonempty(private_key: Seq<u8>, remote: Seq<u8>)
    ensures
        shared_of(private_key, remote).len() >= 1,
{
    let n = mod_pow(remote, private_key, dh_prime());
    lemma_pow_positive(256, (n + 1) as nat);
    lemma_pow_strictly_increases_helper(n);
    lemma_min_be_bytes_len(n, (n + 1) as nat);
}

proof fn lemma_pow_strictly_increases_helper(n: nat)
    ensures
        n < pow(256, (n + 1) as nat),
    decreases n,
{
    reveal(pow);
    if n > 0 {
        lemma_pow_strictly_increases_helper((n - 1) as nat);
        let q = pow(256, n);
        assert(pow(256, (n + 1) as nat) == 256 * q);
        assert(n < 256 * q) by (nonlinear_arith)
            requires
                n - 1 < q,
                n > 0,
        ;
    } else {
        lemma_pow1(256);
    }
}

} // verus!
