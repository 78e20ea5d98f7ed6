//! Little-endian fixed-width integer encoding, the building block of the
//! wire format.

use vstd::prelude::*;

verus! {

/// `256` raised to the power `n`.
pub open spec fn pow256(n: nat) -> nat
    decreases n,
{
    if n == 0 {
        1
    } else {
        256 * pow256((n - 1) as nat)
    }
}

/// The `n` least significant bytes of `v`, least significant first.
pub open spec fn le_bytes(v: nat, n: nat) -> Seq<u8>
    decreases n,
{
    if n == 0 {
        seq![]
    } else {
        seq![(v % 256) as u8] + le_bytes(v / 256, (n - 1) as nat)
    }
}

/// The number whose little-endian bytes are `s`.
pub open spec fn le_value(s: Seq<u8>) -> nat
    decreases s.len(),
{
    if s.len() == 0 {
        0
    } else {
        s[0] as nat + 256 * le_value(s.drop_first())
    }
}

pub proof fn lemma_pow256_values()
    ensures
        pow256(1) == 0x100,
        pow256(2) == 0x1_0000,
        pow256(4) == 0x1_0000_0000,
        pow256(7) == 0x100_0000_0000_0000,
        pow256(8) == 0x1_0000_0000_0000_0000,
{
    reveal_with_fuel(pow256, 9);
}

pub proof fn lemma_pow256_monotonic(a: nat, b: nat)
    requires
        a <= b,
    ensures
        pow256(a) <= pow256(b),
    decreases b,
{
    if a < b {
        lemma_pow256_monotonic(a, (b - 1) as nat);
    }
}

pub proof fn lemma_le_bytes_len(v: nat, n: nat)
    ensures
        le_bytes(v, n).len() == n,
    decreases n,
{
    if n > 0 {
        lemma_le_bytes_len(v / 256, (n - 1) as nat);
    }
}

pub proof fn lemma_le_value_bound(s: Seq<u8>)
    ensures
        le_value(s) < pow256(s.len()),
    decreases s.len(),
{
    if s.len() > 0 {
        lemma_le_value_bound(s.drop_first());
    }
}

/// Decoding the `n` low bytes of a value that fits in `n` bytes gives it back.
pub proof fn lemma_le_roundtrip(v: nat, n: nat)
    requires
        v < pow256(n),
    ensures
        le_bytes(v, n).len() == n,
        le_value(le_bytes(v, n)) == v,
    decreases n,
{
    lemma_le_bytes_len(v, n);
    if n > 0 {
        let m = (n - 1) as nat;
        assert(v / 256 < pow256(m));
        lemma_le_roundtrip(v / 256, m);
        let s = le_bytes(v, n);
        assert(s.drop_first() =~= le_bytes(v / 256, m));
    }
}

/// Encoding the value of `n` bytes gives back those bytes.
pub proof fn lemma_le_bytes_of_value(s: Seq<u8>)
    ensures
        le_bytes(le_value(s), s.len()) == s,
    decreases s.len(),
{
    if s.len() > 0 {
        lemma_le_bytes_of_value(s.drop_first());
        let v = le_value(s);
        assert(v % 256 == s[0] as nat);
        assert(v / 256 == le_value(s.drop_first()));
        assert(le_bytes(v, s.len()) =~= s);
    }
}

/// The `n` low bytes of `v`, least significant first.
pub fn le_encode(v: u64, n: usize) -> (out: Vec<u8>)
    requires
        n <= 8,
    ensures
        out@ == le_bytes(v as nat, n as nat),
{
    let mut out: Vec<u8> = Vec::new();
    let mut x: u64 = v;
    let mut i: usize = 0;
    while i < n
        invariant
            i <= n,
            out@ + le_bytes(x as nat, (n - i) as nat) == le_bytes(v as nat, n as nat),
        decreases n - i,
    {
        let ghost rest = le_bytes(x as nat, (n - i) as nat);
        assert(rest == seq![(x as nat % 256) as u8] + le_bytes(x as nat / 256, (n - i - 1) as nat));
        out.push((x % 256) as u8);
        x = x / 256;
        i = i + 1;
        assert(out@ + le_bytes(x as nat, (n - i) as nat) =~= le_bytes(v as nat, n as nat));
    }
    assert(out@ =~= out@ + le_bytes(x as nat, 0));
    out
}

/// The number whose little-endian bytes are `s`.
pub fn le_decode(s: &[u8]) -> (v: u64)
    requires
        s@.len() <= 8,
    ensures
        v as nat == le_value(s@),
{
    let len = s.len();
    let mut x: u64 = 0;
    let mut i: usize = len;
    assert(s@.subrange(len as int, len as int) =~= Seq::<u8>::empty());
    while i > 0
        invariant
            len == s@.len(),
            len <= 8,
            i <= len,
            x as nat == le_value(s@.subrange(i as int, len as int)),
        decreases i,
    {
        i = i - 1;
        let ghost tail = s@.subrange(i as int + 1, len as int);
        proof {
            lemma_le_value_bound(tail);
            lemma_pow256_monotonic(tail.len(), 7);
            lemma_pow256_values();
            assert(s@.subrange(i as int, len as int).drop_first() =~= tail);
        }
        x = x * 256 + s[i] as u64;
    }
    assert(s@.subrange(0, len as int) =~= s@);
    x
}

} // verus!
