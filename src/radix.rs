//! Positional notation: the value of a digit sequence, and the fixed-width
//! digit sequence of a value.

use vstd::arithmetic::div_mod::*;
use vstd::arithmetic::power::*;
use vstd::prelude::*;

verus! {

/// The number that `ds` writes in base `base`, most significant digit first.
pub open spec fn digits_value(ds: Seq<nat>, base: nat) -> nat
    decreases ds.len(),
{
    if ds.len() == 0 {
        0
    } else {
        digits_value(ds.drop_last(), base) * base + ds.last()
    }
}

/// The `width` digits of `n` in base `base`, most significant first.
pub open spec fn fixed_digits(n: nat, base: nat, width: nat) -> Seq<nat> {
    Seq::new(width, |j: int| ((n / pow(base as int, (width - 1 - j) as nat) as nat) % base) as nat)
}

/// Appending one digit multiplies the value by the base and adds the digit.
pub proof fn lemma_digits_value_push(ds: Seq<nat>, d: nat, base: nat)
    ensures
        digits_value(ds.push(d), base) == digits_value(ds, base) * base + d,
{
    assert(ds.push(d).drop_last() =~= ds);
}

/// A prefix never writes a larger number than the whole sequence.
pub proof fn lemma_digits_value_prefix(ds: Seq<nat>, k: int, base: nat)
    requires
        0 <= k <= ds.len(),
        base >= 1,
    ensures
        digits_value(ds.take(k), base) <= digits_value(ds, base),
    decreases ds.len() - k,
{
    if k < ds.len() {
        lemma_digits_value_prefix(ds, k + 1, base);
        assert(ds.take(k + 1).drop_last() =~= ds.take(k));
        let v = digits_value(ds.take(k), base);
        assert(v * base >= v) by (nonlinear_arith)
            requires base >= 1, v >= 0;
    } else {
        assert(ds.take(k) =~= ds);
    }
}

/// The first `j` fixed-width digits of `n` write `n / base^(width - j)`.
pub proof fn lemma_fixed_digits_prefix(n: nat, base: nat, width: nat, j: nat)
    requires
        base > 1,
        j <= width,
        n < pow(base as int, width),
    ensures
        digits_value(fixed_digits(n, base, width).take(j as int), base)
            == n / (pow(base as int, (width - j) as nat) as nat),
    decreases j,
{
    let ds = fixed_digits(n, base, width);
    lemma_pow_positive(base as int, (width - j) as nat);
    if j == 0 {
        assert(ds.take(0) =~= Seq::<nat>::empty());
        lemma_basic_div(n as int, pow(base as int, width));
    } else {
        lemma_fixed_digits_prefix(n, base, width, (j - 1) as nat);
        let q = pow(base as int, (width - j) as nat);
        lemma_pow_positive(base as int, (width - j) as nat);
        assert(pow(base as int, (width - (j - 1)) as nat) == base * q) by {
            reveal(pow);
        }
        assert(ds.take(j as int).drop_last() =~= ds.take(j - 1));
        let x = n as int / q;
        lemma_div_denominator(n as int, q, base as int);
        assert(n as int / (q * base) == x / base as int);
        assert(ds[j - 1] == x % base as int);
        lemma_fundamental_div_mod(x, base as int);
        assert(digits_value(ds.take(j as int), base) == (x / base as int) * base + x % base as int)
            by (nonlinear_arith)
            requires
                digits_value(ds.take(j as int), base) == digits_value(ds.take(j - 1), base) * base + ds[j - 1],
                digits_value(ds.take(j - 1), base) == x / base as int,
                ds[j - 1] == x % base as int;
    }
}


/// Digits below the base write a number below `base^len`.
pub proof fn lemma_digits_value_bound(ds: Seq<nat>, base: nat)
    requires
        base > 0,
        forall|i: int| 0 <= i < ds.len() ==> #[trigger] ds[i] < base,
    ensures
        digits_value(ds, base) < pow(base as int, ds.len()),
    decreases ds.len(),
{
    reveal(pow);
    if ds.len() > 0 {
        let init = ds.drop_last();
        lemma_digits_value_bound(init, base);
        let v = digits_value(init, base);
        let p = pow(base as int, init.len());
        assert(pow(base as int, ds.len()) == base * p);
        let d = ds.last();
        assert(v * base + d < base * p) by (nonlinear_arith)
            requires
                v < p,
                d < base,
        ;
    }
}

/// The number that the bytes `b` write, most significant first.
pub open spec fn bytes_value(b: Seq<u8>) -> nat {
    digits_value(b.map_values(|x: u8| x as nat), 256)
}

/// The `width` bytes of `n`, most significant first.
pub open spec fn fixed_bytes(n: nat, width: nat) -> Seq<u8> {
    fixed_digits(n, 256, width).map_values(|d: nat| d as u8)
}

/// Reads `data` as a big-endian number.
pub fn decode_be(data: &[u8]) -> (r: u128)
    requires
        data@.len() <= 16,
    ensures
        r as nat == bytes_value(data@),
{
    let ghost ds = data@.map_values(|x: u8| x as nat);
    let mut n: u128 = 0;
    let mut i: usize = 0;
    while i < data.len()
        invariant
            i <= data@.len() <= 16,
            ds == data@.map_values(|x: u8| x as nat),
            n as nat == digits_value(ds.take(i as int), 256),
        decreases data@.len() - i,
    {
        proof {
            assert(ds.take(i + 1) =~= ds.take(i as int).push(data@[i as int] as nat));
            lemma_digits_value_push(ds.take(i as int), data@[i as int] as nat, 256);
            lemma_digits_value_bound(ds.take(i + 1), 256);
            assert(pow(256, (i + 1) as nat) <= pow(256, 16)) by {
                if i + 1 < 16 {
                    lemma_pow_strictly_increases(256, (i + 1) as nat, 16);
                }
            }
            assert(pow(256, 16) == 340282366920938463463374607431768211456) by {
                reveal_with_fuel(pow, 17);
            }
        }
        n = n * 256 + data[i] as u128;
        i = i + 1;
    }
    assert(ds.take(i as int) =~= ds);
    n
}

/// The fixed-width bytes of a number that fits read back as the number.
pub proof fn lemma_fixed_bytes_value(n: nat, width: nat)
    requires
        n < pow(256, width),
    ensures
        bytes_value(fixed_bytes(n, width)) == n,
{
    let fd = fixed_digits(n, 256, width);
    assert(fixed_bytes(n, width).map_values(|x: u8| x as nat) =~= fd);
    lemma_fixed_digits_prefix(n, 256, width, width);
    assert(fd.take(width as int) == fd);
    assert(pow(256, 0) == 1) by {
        reveal(pow);
    }
    assert((width - width) as nat == 0);
    let one = pow(256, 0) as nat;
    assert(one == 1);
    assert(n / 1 == n);
    assert(n / one == n);
}

/// Writes `n` as exactly `width` big-endian bytes; `top` is `256^(width - 1)`.
pub fn encode_be(n: u128, width: usize, top: u128) -> (r: Vec<u8>)
    requires
        width >= 1,
        top == pow(256, (width - 1) as nat),
        n < pow(256, width as nat),
    ensures
        r@ == fixed_bytes(n as nat, width as nat),
        bytes_value(r@) == n,
{
    let ghost w = width as nat;
    let mut out: Vec<u8> = Vec::new();
    let mut p: u128 = top;
    let mut j: usize = 0;
    while j < width
        invariant
            j <= width,
            w == width as nat,
            j < width ==> p == pow(256, (w - 1 - j) as nat),
            out@ == fixed_bytes(n as nat, w).take(j as int),
        decreases width - j,
    {
        proof {
            lemma_pow_positive(256, (w - 1 - j) as nat);
        }
        let d = (n / p) % 256;
        out.push(d as u8);
        assert(out@ =~= fixed_bytes(n as nat, w).take(j + 1));
        if j + 1 < width {
            proof {
                let e = (w - 1 - (j + 1)) as nat;
                assert(pow(256, (e + 1) as nat) == 256 * pow(256, e)) by {
                    reveal(pow);
                }
                lemma_div_multiples_vanish(pow(256, e), 256);
            }
            p = p / 256;
        }
        j = j + 1;
    }
    proof {
        assert(out@ =~= fixed_bytes(n as nat, w));
        lemma_fixed_bytes_value(n as nat, w);
    }
    out
}

} // verus!
