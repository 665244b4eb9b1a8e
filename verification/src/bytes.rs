//! Big-endian byte strings and the arithmetic behind them.
use vstd::prelude::*;

verus! {

/// `256` raised to the power `n`.
pub open spec fn pow256(n: nat) -> nat
    decreases n,
{
    if n == 0 {
        1
    } else {
        256 * pow256((n - 1) as nat)
    }
}

/// The `n` low-order bytes of `v`, most significant first.
pub open spec fn be_bytes(v: nat, n: nat) -> Seq<u8>
    decreases n,
{
    if n == 0 {
        Seq::empty()
    } else {
        be_bytes(v / 256, (n - 1) as nat).push((v % 256) as u8)
    }
}

/// The number that a byte string denotes, most significant byte first.
pub open spec fn be_value(s: Seq<u8>) -> nat
    decreases s.len(),
{
    if s.len() == 0 {
        0
    } else {
        be_value(s.drop_last()) * 256 + s.last() as nat
    }
}

/// The two's-complement representative in `[0, 256^n)` of `v`.
pub open spec fn twos(v: int, n: nat) -> nat {
    if v >= 0 {
        v as nat
    } else {
        (v + pow256(n)) as nat
    }
}

/// The signed number that `n` bytes with unsigned value `u` denote in two's complement.
pub open spec fn untwos(u: nat, n: nat) -> int {
    if 2 * u < pow256(n) {
        u as int
    } else {
        u - pow256(n)
    }
}

/// `base` with `bytes` written over it from index `at` on.
pub open spec fn splice(base: Seq<u8>, at: int, bytes: Seq<u8>) -> Seq<u8> {
    base.take(at) + bytes + base.skip(at + bytes.len())
}

pub proof fn lemma_pow256_positive(n: nat)
    ensures
        pow256(n) >= 1,
    decreases n,
{
    if n > 0 {
        lemma_pow256_positive((n - 1) as nat);
    }
}

pub proof fn lemma_pow256_monotone(a: nat, b: nat)
    requires
        a <= b,
    ensures
        pow256(a) <= pow256(b),
    decreases b,
{
    if a < b {
        lemma_pow256_monotone(a, (b - 1) as nat);
        lemma_pow256_positive((b - 1) as nat);
    }
}

/// The powers of 256 that the fixed-width integers use.
pub proof fn lemma_pow256_values()
    ensures
        pow256(0) == 1,
        pow256(1) == 0x100,
        pow256(2) == 0x1_0000,
        pow256(4) == 0x1_0000_0000,
        pow256(8) == 0x1_0000_0000_0000_0000,
        pow256(16) == 0x1_0000_0000_0000_0000_0000_0000_0000_0000,
{
    reveal_with_fuel(pow256, 17);
}

pub proof fn lemma_be_bytes_len(v: nat, n: nat)
    ensures
        be_bytes(v, n).len() == n,
    decreases n,
{
    if n > 0 {
        lemma_be_bytes_len(v / 256, (n - 1) as nat);
    }
}

pub proof fn lemma_be_value_bound(s: Seq<u8>)
    ensures
        be_value(s) < pow256(s.len()),
    decreases s.len(),
{
    if s.len() > 0 {
        lemma_be_value_bound(s.drop_last());
    }
}

/// Reading back the `n` bytes of `v` gives `v`, where `v` fits in them.
pub proof fn lemma_be_value_of_bytes(v: nat, n: nat)
    requires
        v < pow256(n),
    ensures
        be_value(be_bytes(v, n)) == v,
        be_bytes(v, n).len() == n,
    decreases n,
{
    lemma_be_bytes_len(v, n);
    if n > 0 {
        let s = be_bytes(v, n);
        assert(s.drop_last() == be_bytes(v / 256, (n - 1) as nat));
        assert(v / 256 < pow256((n - 1) as nat)) by (nonlinear_arith)
            requires
                v < 256 * pow256((n - 1) as nat),
        ;
        lemma_be_value_of_bytes(v / 256, (n - 1) as nat);
    }
}

/// Writing out the value of a byte string gives the byte string.
pub proof fn lemma_be_bytes_of_value(s: Seq<u8>)
    ensures
        be_bytes(be_value(s), s.len()) == s,
    decreases s.len(),
{
    if s.len() > 0 {
        let v = be_value(s);
        let p = s.drop_last();
        lemma_be_bytes_of_value(p);
        assert(v / 256 == be_value(p));
        assert(v % 256 == s.last() as nat);
        assert(be_bytes(v, s.len()) == be_bytes(be_value(p), p.len()).push(s.last()));
        assert(p.push(s.last()) == s);
    }
}

pub proof fn lemma_twos_roundtrip(v: int, n: nat)
    requires
        n >= 1,
        -pow256(n) <= 2 * v < pow256(n),
    ensures
        twos(v, n) < pow256(n),
        untwos(twos(v, n), n) == v,
{
}

pub proof fn lemma_untwos_roundtrip(u: nat, n: nat)
    requires
        u < pow256(n),
    ensures
        twos(untwos(u, n), n) == u,
        -pow256(n) <= 2 * untwos(u, n) < pow256(n),
{
}

/// A prefix of a byte string is unaffected by what follows it.
pub proof fn lemma_take_append(a: Seq<u8>, b: Seq<u8>)
    ensures
        (a + b).take(a.len() as int) == a,
        (a + b).skip(a.len() as int) == b,
{
    assert((a + b).take(a.len() as int) =~= a);
    assert((a + b).skip(a.len() as int) =~= b);
}

} // verus!
