//! Fixed-width big-endian integers.

use vstd::arithmetic::div_mod::*;
use vstd::arithmetic::mul::*;
use vstd::prelude::*;

verus! {

/// `256` raised to `n`: the number of values that `n` bytes can hold.
pub open spec fn pow256(n: nat) -> nat
    decreases n,
{
    if n == 0 {
        1
    } else {
        256 * pow256((n - 1) as nat)
    }
}

/// The `width` low-order bytes of `v`, most significant first.
pub open spec fn be_bytes(v: nat, width: nat) -> Seq<u8>
    decreases width,
{
    if width == 0 {
        seq![]
    } else {
        be_bytes(v / 256, (width - 1) as nat).push((v % 256) as u8)
    }
}

/// The number that `s` spells, most significant byte first.
pub open spec fn be_value(s: Seq<u8>) -> nat
    decreases s.len(),
{
    if s.len() == 0 {
        0
    } else {
        (be_value(s.drop_last()) * 256 + s.last()) as nat
    }
}

pub proof fn lemma_pow256_positive(n: nat)
    ensures
        pow256(n) >= 1,
    decreases n,
{
    if n > 0 {
        lemma_pow256_positive((n - 1) as nat);
    }
}

pub proof fn lemma_be_bytes_len(v: nat, width: nat)
    ensures
        be_bytes(v, width).len() == width,
    decreases width,
{
    if width > 0 {
        lemma_be_bytes_len(v / 256, (width - 1) as nat);
    }
}

/// Reading back `width` bytes written for `v` gives `v`, when `v` fits.
pub proof fn lemma_be_round_trip(v: nat, width: nat)
    requires
        v < pow256(width),
    ensures
        be_value(be_bytes(v, width)) == v,
    decreases width,
{
    if width > 0 {
        let w1 = (width - 1) as nat;
        lemma_fundamental_div_mod(v as int, 256);
        lemma_mod_bound(v as int, 256);
        let q = v / 256;
        assert(q < pow256(w1)) by (nonlinear_arith)
            requires
                v == 256 * q + v % 256,
                v % 256 >= 0,
                v < 256 * pow256(w1),
        ;
        lemma_be_round_trip(q, w1);
        let s = be_bytes(v, width);
        assert(s.drop_last() =~= be_bytes(q, w1));
        assert(((v % 256) as u8) as nat == v % 256);
        assert(be_value(s) == (v / 256) * 256 + v % 256);
    }
}

/// A value spelled by `s` fits in `s.len()` bytes.
pub proof fn lemma_be_value_bound(s: Seq<u8>)
    ensures
        be_value(s) < pow256(s.len()),
    decreases s.len(),
{
    if s.len() > 0 {
        lemma_be_value_bound(s.drop_last());
        let p = pow256((s.len() - 1) as nat);
        assert(be_value(s.drop_last()) * 256 + s.last() < 256 * p) by (nonlinear_arith)
            requires
                be_value(s.drop_last()) < p,
                s.last() < 256,
        ;
    }
}

/// Appends the `width` low-order bytes of `v` to `out`, most significant first.
pub fn push_be(out: &mut Vec<u8>, v: u128, width: usize)
    requires
        width <= 16,
    ensures
        final(out)@ == old(out)@ + be_bytes(v as nat, width as nat),
    decreases width,
{
    if width > 0 {
        push_be(out, v / 256, width - 1);
        out.push((v % 256) as u8);
        assert(final(out)@ =~= old(out)@ + be_bytes(v as nat, width as nat));
    }
}

/// The number spelled by `input[pos..pos + width]`.
pub fn read_be(input: &[u8], pos: usize, width: usize) -> (r: u128)
    requires
        width <= 16,
        pos + width <= input@.len(),
    ensures
        r == be_value(input@.subrange(pos as int, pos + width)),
{
    let n = input.len();
    let mut acc: u128 = 0;
    let mut i: usize = 0;
    while i < width
        invariant
            n == input@.len(),
            i <= width <= 16,
            pos + width <= input@.len(),
            acc == be_value(input@.subrange(pos as int, pos + i)),
        decreases width - i,
    {
        let ghost prefix = input@.subrange(pos as int, pos + i);
        let ghost next = input@.subrange(pos as int, pos + i + 1);
        proof {
            lemma_be_value_bound(prefix);
            assert(next.drop_last() =~= prefix);
            lemma_pow256_sixteen();
            lemma_pow256_monotone((i + 1) as nat, 16);
            assert(acc * 256 + input@[pos + i] < 256 * pow256(i as nat)) by (nonlinear_arith)
                requires
                    acc < pow256(i as nat),
                    input@[pos + i] < 256,
            ;
        }
        acc = acc * 256 + input[pos + i] as u128;
        i = i + 1;
    }
    acc
}

pub proof fn lemma_pow256_eight()
    ensures
        pow256(8) == 0x1_0000_0000_0000_0000,
{
    reveal_with_fuel(pow256, 9);
}

pub proof fn lemma_pow256_sixteen()
    ensures
        pow256(16) == 0x1_0000_0000_0000_0000_0000_0000_0000_0000,
{
    reveal_with_fuel(pow256, 17);
}

pub proof fn lemma_pow256_monotone(a: nat, b: nat)
    requires
        a <= b,
    ensures
        pow256(a) <= pow256(b),
    decreases b,
{
    if a < b {
        lemma_pow256_monotone(a, (b - 1) as nat);
        lemma_pow256_positive((b - 1) as nat);
    }
}

} // verus!
