//! Little- and big-endian integer encodings over byte sequences.

use vstd::prelude::*;

verus! {

/// `256` raised to the power `n`.
pub open spec fn pow256(n: nat) -> nat
    decreases n,
{
    if n == 0 {
        1
    } else {
        256 * pow256((n - 1) as nat)
    }
}

/// The unsigned integer whose little-endian encoding is `s`.
pub open spec fn le_nat(s: Seq<u8>) -> nat
    decreases s.len(),
{
    if s.len() == 0 {
        0
    } else {
        s[0] as nat + 256 * le_nat(s.drop_first())
    }
}

/// The unsigned integer whose big-endian encoding is `s`.
pub open spec fn be_nat(s: Seq<u8>) -> nat
    decreases s.len(),
{
    if s.len() == 0 {
        0
    } else {
        be_nat(s.drop_last()) * 256 + s.last() as nat
    }
}

/// The `n`-byte little-endian encoding of `x` (its low `n` bytes).
pub open spec fn le_bytes(x: nat, n: nat) -> Seq<u8>
    decreases n,
{
    if n == 0 {
        Seq::empty()
    } else {
        seq![(x % 256) as u8] + le_bytes(x / 256, (n - 1) as nat)
    }
}

pub proof fn lemma_pow256_pos(n: nat)
    ensures
        pow256(n) >= 1,
    decreases n,
{
    if n > 0 {
        lemma_pow256_pos((n - 1) as nat);
    }
}

pub proof fn lemma_pow256_values()
    ensures
        pow256(1) == 0x100,
        pow256(2) == 0x1_0000,
        pow256(4) == 0x1_0000_0000,
        pow256(8) == 0x1_0000_0000_0000_0000,
        pow256(16) == 0x1_0000_0000_0000_0000_0000_0000_0000_0000,
{
    reveal_with_fuel(pow256, 17);
}

/// A little-endian value of `n` bytes is below `256^n`.
pub proof fn lemma_le_nat_bound(s: Seq<u8>)
    ensures
        le_nat(s) < pow256(s.len()),
    decreases s.len(),
{
    if s.len() > 0 {
        lemma_le_nat_bound(s.drop_first());
        let r = le_nat(s.drop_first());
        let p = pow256(s.drop_first().len());
        assert(s[0] as nat + 256 * r < 256 * p) by (nonlinear_arith)
            requires
                r < p,
                s[0] < 256,
        ;
    }
}

/// A big-endian value of `n` bytes is below `256^n`.
pub proof fn lemma_be_nat_bound(s: Seq<u8>)
    ensures
        be_nat(s) < pow256(s.len()),
    decreases s.len(),
{
    if s.len() > 0 {
        lemma_be_nat_bound(s.drop_last());
        let r = be_nat(s.drop_last());
        let p = pow256(s.drop_last().len());
        assert(r * 256 + s.last() < 256 * p) by (nonlinear_arith)
            requires
                r < p,
                s.last() < 256,
        ;
    }
}

/// Splitting a little-endian sequence at its first byte.
pub proof fn lemma_le_nat_subrange_step(s: Seq<u8>, lo: int, hi: int)
    requires
        0 <= lo < hi <= s.len(),
    ensures
        le_nat(s.subrange(lo, hi)) == s[lo] as nat + 256 * le_nat(s.subrange(lo + 1, hi)),
{
    assert(s.subrange(lo, hi).drop_first() =~= s.subrange(lo + 1, hi));
}

/// Splitting a big-endian sequence at its last byte.
pub proof fn lemma_be_nat_subrange_step(s: Seq<u8>, lo: int, hi: int)
    requires
        0 <= lo < hi <= s.len(),
    ensures
        be_nat(s.subrange(lo, hi)) == be_nat(s.subrange(lo, hi - 1)) * 256 + s[hi - 1] as nat,
{
    assert(s.subrange(lo, hi).drop_last() =~= s.subrange(lo, hi - 1));
}

/// Reads the unsigned little-endian integer stored in `s[start..start + n]`.
pub fn read_le(s: &[u8], start: usize, n: usize) -> (r: u128)
    requires
        start + n <= s@.len(),
        n <= 16,
    ensures
        r as nat == le_nat(s@.subrange(start as int, start + n)),
        r < pow256(n as nat),
{
    proof {
        lemma_pow256_values();
    }
    let _len = s.len();
    let end = start + n;
    let mut acc: u128 = 0;
    let mut i: usize = n;
    while i > 0
        invariant
            end == start + n,
            end <= s@.len(),
            n <= 16,
            i <= n,
            acc as nat == le_nat(s@.subrange(start + i, end as int)),
            pow256(16) == 0x1_0000_0000_0000_0000_0000_0000_0000_0000,
        decreases i,
    {
        i = i - 1;
        proof {
            lemma_le_nat_subrange_step(s@, start + i, end as int);
            lemma_le_nat_bound(s@.subrange(start + i + 1, end as int));
            lemma_pow_monotone((n - i - 1) as nat, 15);
            let b = s@[start + i];
            let a = acc as nat;
            let p = pow256((n - i - 1) as nat);
            assert(b as nat + 256 * a < pow256(16)) by (nonlinear_arith)
                requires
                    a < p,
                    p <= pow256(15),
                    pow256(16) == 256 * pow256(15),
                    b < 256,
            ;
        }
        acc = acc * 256 + s[start + i] as u128;
    }
    proof {
        lemma_le_nat_bound(s@.subrange(start as int, end as int));
    }
    acc
}

/// Reads the unsigned big-endian integer stored in `s[start..start + n]`.
pub fn read_be(s: &[u8], start: usize, n: usize) -> (r: u128)
    requires
        start + n <= s@.len(),
        n <= 16,
    ensures
        r as nat == be_nat(s@.subrange(start as int, start + n)),
        r < pow256(n as nat),
{
    proof {
        lemma_pow256_values();
    }
    let _len = s.len();
    let mut acc: u128 = 0;
    let mut i: usize = 0;
    while i < n
        invariant
            start + n <= s@.len(),
            _len == s@.len(),
            n <= 16,
            i <= n,
            acc as nat == be_nat(s@.subrange(start as int, start + i)),
            pow256(16) == 0x1_0000_0000_0000_0000_0000_0000_0000_0000,
        decreases n - i,
    {
        proof {
            lemma_be_nat_subrange_step(s@, start as int, start + i + 1);
            assert(s@.subrange(start as int, start + i + 1 - 1) =~= s@.subrange(start as int, start + i));
            lemma_be_nat_bound(s@.subrange(start as int, start + i));
            lemma_pow_monotone(i as nat, 15);
            let b = s@[start + i];
            let a = acc as nat;
            let p = pow256(i as nat);
            assert(a * 256 + b < pow256(16)) by (nonlinear_arith)
                requires
                    a < p,
                    p <= pow256(15),
                    pow256(16) == 256 * pow256(15),
                    b < 256,
            ;
        }
        acc = acc * 256 + s[start + i] as u128;
        i = i + 1;
    }
    proof {
        lemma_be_nat_bound(s@.subrange(start as int, start + n));
    }
    acc
}

/// `256^a <= 256^b` when `a <= b`.
pub proof fn lemma_pow_monotone(a: nat, b: nat)
    requires
        a <= b,
    ensures
        pow256(a) <= pow256(b),
    decreases b,
{
    if a < b {
        lemma_pow_monotone(a, (b - 1) as nat);
        lemma_pow256_pos((b - 1) as nat);
    }
}

/// The 4-byte little-endian encoding of `x`.
pub fn u32_to_le_bytes(x: u32) -> (r: [u8; 4])
    ensures
        r@ == le_bytes(x as nat, 4),
{
    let x1 = x / 256;
    let x2 = x1 / 256;
    let x3 = x2 / 256;
    let r = [(x % 256) as u8, (x1 % 256) as u8, (x2 % 256) as u8, (x3 % 256) as u8];
    proof {
        reveal_with_fuel(le_bytes, 5);
        assert(r@ =~= le_bytes(x as nat, 4));
    }
    r
}

/// The encoding has the requested length.
pub proof fn lemma_le_bytes_len(x: nat, n: nat)
    ensures
        le_bytes(x, n).len() == n,
    decreases n,
{
    if n > 0 {
        lemma_le_bytes_len(x / 256, (n - 1) as nat);
    }
}

/// Encoding the value of a little-endian sequence gives the sequence back.
pub proof fn lemma_le_bytes_le_nat(s: Seq<u8>)
    ensures
        le_bytes(le_nat(s), s.len()) == s,
    decreases s.len(),
{
    if s.len() > 0 {
        let r = le_nat(s.drop_first());
        let x = le_nat(s);
        let a = s[0] as nat;
        assert(x % 256 == a && x / 256 == r) by (nonlinear_arith)
            requires
                x == a + 256 * r,
                a < 256,
        ;
        lemma_le_bytes_le_nat(s.drop_first());
        assert(le_bytes(x, s.len()) =~= s);
    }
}

/// The value of the encoding of `x` in `n` bytes is `x`, when `x` fits.
pub proof fn lemma_le_nat_le_bytes(x: nat, n: nat)
    requires
        x < pow256(n),
    ensures
        le_nat(le_bytes(x, n)) == x,
    decreases n,
{
    if n > 0 {
        let p = pow256((n - 1) as nat);
        assert(x / 256 < p && (x % 256) + 256 * (x / 256) == x) by (nonlinear_arith)
            requires
                x < 256 * p,
        ;
        lemma_le_nat_le_bytes(x / 256, (n - 1) as nat);
        let e = le_bytes(x, n);
        assert(e.drop_first() =~= le_bytes(x / 256, (n - 1) as nat));
    } else {
        assert(x == 0);
    }
}

/// The little-endian value of a concatenation.
pub proof fn lemma_le_nat_concat(a: Seq<u8>, b: Seq<u8>)
    ensures
        le_nat(a + b) == le_nat(a) + pow256(a.len()) * le_nat(b),
    decreases a.len(),
{
    if a.len() > 0 {
        lemma_le_nat_concat(a.drop_first(), b);
        let ab = a + b;
        assert(ab.drop_first() =~= a.drop_first() + b);
        let x = le_nat(a.drop_first());
        let y = le_nat(b);
        let p = pow256(a.drop_first().len());
        assert(ab[0] == a[0]);
        assert(le_nat(ab) == ab[0] as nat + 256 * le_nat(ab.drop_first()));
        assert(le_nat(ab.drop_first()) == x + p * y);
        assert(le_nat(a) == a[0] as nat + 256 * x);
        assert(pow256(a.len()) == 256 * p);
        assert(256 * (x + p * y) == 256 * x + (256 * p) * y) by (nonlinear_arith);
    } else {
        assert(a + b =~= b);
        assert(pow256(0) == 1);
        assert(le_nat(a) == 0);
    }
}

/// Read big-endian, the reverse of a sequence has the value the sequence has read
/// little-endian.
pub proof fn lemma_be_nat_reverse(s: Seq<u8>)
    ensures
        be_nat(s.reverse()) == le_nat(s),
    decreases s.len(),
{
    if s.len() > 0 {
        let r = s.reverse();
        assert(r.drop_last() =~= s.drop_first().reverse());
        assert(r.last() == s[0]);
        lemma_be_nat_reverse(s.drop_first());
    } else {
        assert(s.reverse() =~= s);
    }
}

} // verus!
