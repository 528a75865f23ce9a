//! Little-endian integer encoding over byte sequences.
use vstd::prelude::*;

verus! {

/// `256` raised to `n`.
pub open spec fn pow256(n: nat) -> nat
    decreases n,
{
    if n == 0 {
        1
    } else {
        256 * pow256((n - 1) as nat)
    }
}

/// The unsigned integer whose little-endian bytes are `s`.
pub open spec fn le_value(s: Seq<u8>) -> nat
    decreases s.len(),
{
    if s.len() == 0 {
        0
    } else {
        s[0] as nat + 256 * le_value(s.drop_first())
    }
}

/// The `n` little-endian bytes of `x` (taken modulo `256^n`).
pub open spec fn le_bytes(x: nat, n: nat) -> Seq<u8>
    decreases n,
{
    if n == 0 {
        Seq::empty()
    } else {
        seq![(x % 256) as u8] + le_bytes(x / 256, (n - 1) as nat)
    }
}

pub proof fn lemma_pow256_values()
    ensures
        pow256(1) == 0x100,
        pow256(2) == 0x1_0000,
        pow256(4) == 0x1_0000_0000,
        pow256(8) == 0x1_0000_0000_0000_0000,
        pow256(16) == 0x1_0000_0000_0000_0000_0000_0000_0000_0000,
{
    reveal_with_fuel(pow256, 17);
}

pub proof fn lemma_pow256_positive(n: nat)
    ensures
        pow256(n) >= 1,
    decreases n,
{
    if n > 0 {
        lemma_pow256_positive((n - 1) as nat);
    }
}

pub proof fn lemma_pow256_monotone(a: nat, b: nat)
    requires
        a <= b,
    ensures
        pow256(a) <= pow256(b),
    decreases b,
{
    if a < b {
        lemma_pow256_monotone(a, (b - 1) as nat);
        lemma_pow256_positive((b - 1) as nat);
    }
}

/// The value of `n` bytes is below `256^n`.
pub proof fn lemma_le_value_bound(s: Seq<u8>)
    ensures
        le_value(s) < pow256(s.len()),
    decreases s.len(),
{
    if s.len() > 0 {
        lemma_le_value_bound(s.drop_first());
        assert(le_value(s.drop_first()) + 1 <= pow256((s.len() - 1) as nat));
        assert(256 * (le_value(s.drop_first()) + 1) <= 256 * pow256((s.len() - 1) as nat))
            by (nonlinear_arith)
            requires
                le_value(s.drop_first()) + 1 <= pow256((s.len() - 1) as nat),
        ;
    }
}

/// Appending a byte adds it at the next power of 256.
pub proof fn lemma_le_value_push(s: Seq<u8>, b: u8)
    ensures
        le_value(s.push(b)) == le_value(s) + pow256(s.len()) * b,
    decreases s.len(),
{
    if s.len() == 0 {
        assert(s.push(b).drop_first() =~= Seq::<u8>::empty());
        assert(le_value(Seq::<u8>::empty()) == 0);
        assert(s.push(b)[0] == b);
        assert(pow256(0) == 1);
    } else {
        assert(s.push(b).drop_first() =~= s.drop_first().push(b));
        assert(s.push(b)[0] == s[0]);
        lemma_le_value_push(s.drop_first(), b);
        let t = le_value(s.drop_first());
        let p = pow256((s.len() - 1) as nat);
        assert(pow256(s.len()) == 256 * p);
        assert(le_value(s.push(b)) == s[0] as nat + 256 * (t + p * b));
        assert(256 * (t + p * b) == 256 * t + (256 * p) * b) by (nonlinear_arith);
    }
}

/// `le_bytes` has the requested length.
pub proof fn lemma_le_bytes_len(x: nat, n: nat)
    ensures
        le_bytes(x, n).len() == n,
    decreases n,
{
    if n > 0 {
        lemma_le_bytes_len(x / 256, (n - 1) as nat);
    }
}

/// Decoding the bytes of a value that fits gives the value back.
pub proof fn lemma_le_bytes_roundtrip(x: nat, n: nat)
    requires
        x < pow256(n),
    ensures
        le_value(le_bytes(x, n)) == x,
    decreases n,
{
    if n == 0 {
    } else {
        let rest = le_bytes(x / 256, (n - 1) as nat);
        assert(le_bytes(x, n).drop_first() =~= rest);
        assert(x / 256 < pow256((n - 1) as nat)) by (nonlinear_arith)
            requires
                x < 256 * pow256((n - 1) as nat),
        ;
        lemma_le_bytes_roundtrip(x / 256, (n - 1) as nat);
    }
}

/// Reads the `n`-byte little-endian integer at `off`.
pub fn read_le(data: &[u8], off: usize, n: usize) -> (r: u128)
    requires
        n <= 16,
        off + n <= data@.len(),
    ensures
        r == le_value(data@.subrange(off as int, off + n)),
        r < pow256(n as nat),
{
    let len = data.len();
    let mut acc: u128 = 0;
    let mut i: usize = n;
    proof {
        assert(data@.subrange(off + i, off + n) =~= Seq::<u8>::empty());
        lemma_pow256_values();
    }
    while i > 0
        invariant
            n <= 16,
            off + n <= data@.len(),
            len == data@.len(),
            i <= n,
            acc == le_value(data@.subrange(off + i, off + n)),
            acc < pow256((n - i) as nat),
            pow256(16) == 0x1_0000_0000_0000_0000_0000_0000_0000_0000,
        decreases i,
    {
        i = i - 1;
        let b = data[off + i];
        proof {
            let s = data@.subrange(off + i, off + n);
            assert(s.drop_first() =~= data@.subrange(off + i + 1, off + n));
            assert(s[0] == b);
            lemma_pow256_monotone((n - i - 1) as nat, 15);
            assert(256 * (acc + 1) <= 256 * pow256((n - i - 1) as nat)) by (nonlinear_arith)
                requires
                    acc + 1 <= pow256((n - i - 1) as nat),
            ;
            reveal_with_fuel(pow256, 16);
            assert(pow256(16) == 256 * pow256(15));
        }
        acc = acc * 256 + b as u128;
    }
    acc
}

/// The `n` little-endian bytes of `x`.
pub fn write_le(x: u128, n: usize) -> (r: Vec<u8>)
    requires
        n <= 16,
    ensures
        r@ == le_bytes(x as nat, n as nat),
        r@.len() == n,
{
    let mut out: Vec<u8> = Vec::new();
    let mut v: u128 = x;
    let mut i: usize = 0;
    while i < n
        invariant
            i <= n,
            n <= 16,
            out@ + le_bytes(v as nat, (n - i) as nat) == le_bytes(x as nat, n as nat),
            out@.len() == i,
        decreases n - i,
    {
        let b: u8 = (v % 256) as u8;
        proof {
            assert(le_bytes(v as nat, (n - i) as nat) =~= seq![b] + le_bytes(
                (v / 256) as nat,
                (n - i - 1) as nat,
            ));
            assert(out@.push(b) + le_bytes((v / 256) as nat, (n - i - 1) as nat) =~= out@ + (seq![b]
                + le_bytes((v / 256) as nat, (n - i - 1) as nat)));
        }
        out.push(b);
        v = v / 256;
        i = i + 1;
    }
    proof {
        assert(le_bytes(v as nat, 0) =~= Seq::<u8>::empty());
        assert(out@ =~= out@ + Seq::<u8>::empty());
    }
    out
}

/// Appends all of `src` to `dst`.
pub fn extend_bytes(dst: &mut Vec<u8>, src: &[u8])
    ensures
        final(dst)@ == old(dst)@ + src@,
{
    let mut i: usize = 0;
    while i < src.len()
        invariant
            i <= src@.len(),
            dst@ == old(dst)@ + src@.subrange(0, i as int),
        decreases src@.len() - i,
    {
        proof {
            assert(src@.subrange(0, i + 1) =~= src@.subrange(0, i as int).push(src@[i as int]));
        }
        dst.push(src[i]);
        i = i + 1;
    }
    proof {
        assert(src@.subrange(0, src@.len() as int) =~= src@);
    }
}

/// Whether two byte strings are equal.
pub fn bytes_eq(a: &[u8], b: &[u8]) -> (r: bool)
    ensures
        r == (a@ == b@),
{
    if a.len() != b.len() {
        return false;
    }
    let mut i: usize = 0;
    while i < a.len()
        invariant
            a@.len() == b@.len(),
            i <= a@.len(),
            forall|j: int| 0 <= j < i ==> a@[j] == b@[j],
        decreases a@.len() - i,
    {
        if a[i] != b[i] {
            return false;
        }
        i = i + 1;
    }
    proof {
        assert(a@ =~= b@);
    }
    true
}

} // verus!
