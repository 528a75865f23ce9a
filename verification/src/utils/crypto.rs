//! Hashing and entropy helpers of the lottery.
//!
//! The SHA-256 digests themselves come from the `sha2` and
//! `solana-sha256-hasher` crates; this module builds the exact byte messages
//! that the program hashes and combines the digests into draw entropy.
use vstd::prelude::*;
use crate::address::Address;
use vstd::string::StringSliceAdditionalSpecFns;
use crate::utils::bytes::{le_bytes, le_value, read_le, write_le, extend_bytes, lemma_pow256_values};

verus! {

/// The SHA-256 digest that `sha2::Sha256` computes over `data`.
pub uninterp spec fn sha256_digest(data: Seq<u8>) -> Seq<u8>;

/// Calls `sha2::Sha256::digest` on `data`.  The contract claims only that
/// the 32 bytes returned are the digest of exactly the bytes passed in.
#[verifier::external_body]
pub(crate) fn sha256(data: &[u8]) -> (r: [u8; 32])
    ensures
        r@ == sha256_digest(data@),
{
    <sha2::Sha256 as sha2::Digest>::digest(data).into()
}

/// The digest that `solana_sha256_hasher::hashv` computes over the slices
/// `parts`, taken in order.
pub uninterp spec fn solana_hashv_digest(parts: Seq<Seq<u8>>) -> Seq<u8>;

/// The byte views of a list of byte vectors.
pub open spec fn views_of(parts: Seq<Vec<u8>>) -> Seq<Seq<u8>> {
    parts.map_values(|p: Vec<u8>| p@)
}

/// Calls `solana_sha256_hasher::hashv` on the given slices.  The contract
/// claims only that the result is the crate's digest of exactly these
/// slices, in this order.
#[verifier::external_body]
pub(crate) fn solana_hashv(parts: &Vec<Vec<u8>>) -> (r: [u8; 32])
    ensures
        r@ == solana_hashv_digest(views_of(parts@)),
{
    let slices: Vec<&[u8]> = parts.iter().map(|p| p.as_slice()).collect();
    solana_sha256_hasher::hashv(&slices).to_bytes()
}

/// Calls `solana_sha256_hasher::hash` on `val`.  That crate defines
/// `hash(val)` as `hashv(&[val])`, which is what the contract states.
#[verifier::external_body]
pub(crate) fn solana_hash(val: &[u8]) -> (r: [u8; 32])
    ensures
        r@ == solana_hashv_digest(seq![val@]),
{
    solana_sha256_hasher::hash(val).to_bytes()
}

/// The bytes of a list of 32-byte hashes, one after another.
pub open spec fn concat_hashes(inputs: Seq<[u8; 32]>) -> Seq<u8>
    decreases inputs.len(),
{
    if inputs.len() == 0 {
        Seq::empty()
    } else {
        concat_hashes(inputs.drop_last()) + inputs.last()@
    }
}

/// SHA-256 of all input hashes in sequence; the order of the inputs matters.
pub fn aggregate_hashes(inputs: &[[u8; 32]]) -> (r: [u8; 32])
    ensures
        r@ == sha256_digest(concat_hashes(inputs@)),
{
    let mut data: Vec<u8> = Vec::new();
    let mut i: usize = 0;
    while i < inputs.len()
        invariant
            i <= inputs@.len(),
            data@ == concat_hashes(inputs@.subrange(0, i as int)),
        decreases inputs@.len() - i,
    {
        let h: [u8; 32] = inputs[i];
        proof {
            assert(inputs@.subrange(0, i + 1).drop_last() =~= inputs@.subrange(0, i as int));
        }
        extend_bytes(&mut data, h.as_slice());
        i = i + 1;
    }
    proof {
        assert(inputs@.subrange(0, inputs@.len() as int) =~= inputs@);
    }
    sha256(data.as_slice())
}

/// The domain tag of reveal digests.
pub open spec fn reveal_domain() -> Seq<u8> {
    seq![0x49u8, 0x4b, 0x49, 0x47, 0x41, 0x49, 0x5f, 0x52, 0x50, 0x44, 0x5f, 0x56, 0x32, 0x5f,
        0x52, 0x45, 0x56, 0x45, 0x41, 0x4c]
}

/// The slices hashed into a reveal digest: the domain tag, the wallet, the
/// plaintext length as 4 little-endian bytes (the length modulo 2^32), and
/// the plaintext.
pub open spec fn reveal_digest_parts(wallet: Seq<u8>, plaintext: Seq<u8>) -> Seq<Seq<u8>> {
    seq![reveal_domain(), wallet, le_bytes(plaintext.len(), 4), plaintext]
}

/// The digest of a participant's reveal that enters the settlement entropy.
pub fn compute_reveal_digest(wallet: &Address, plaintext: &[u8]) -> (r: [u8; 32])
    ensures
        r@ == solana_hashv_digest(reveal_digest_parts(wallet.bytes@, plaintext@)),
{
    let domain: [u8; 20] = [
        0x49, 0x4b, 0x49, 0x47, 0x41, 0x49, 0x5f, 0x52, 0x50, 0x44, 0x5f, 0x56, 0x32, 0x5f, 0x52,
        0x45, 0x56, 0x45, 0x41, 0x4c,
    ];
    let mut domain_v: Vec<u8> = Vec::new();
    extend_bytes(&mut domain_v, domain.as_slice());
    let mut wallet_v: Vec<u8> = Vec::new();
    extend_bytes(&mut wallet_v, wallet.bytes.as_slice());
    let len_v = write_le(plaintext.len() as u128, 4);
    let mut text_v: Vec<u8> = Vec::new();
    extend_bytes(&mut text_v, plaintext);
    let mut parts: Vec<Vec<u8>> = Vec::new();
    parts.push(domain_v);
    parts.push(wallet_v);
    parts.push(len_v);
    parts.push(text_v);
    proof {
        assert(domain@ =~= reveal_domain());
        assert(views_of(parts@) =~= reveal_digest_parts(wallet.bytes@, plaintext@));
    }
    solana_hashv(&parts)
}

/// Bytewise XOR of two 32-byte values.
pub open spec fn xor32(a: Seq<u8>, b: Seq<u8>) -> Seq<u8> {
    Seq::new(32, |i: int| a[i] ^ b[i])
}

/// `initial` XORed with every digest of `digests`, in order.
pub open spec fn xor_fold(initial: Seq<u8>, digests: Seq<[u8; 32]>) -> Seq<u8>
    decreases digests.len(),
{
    if digests.len() == 0 {
        initial
    } else {
        xor32(xor_fold(initial, digests.drop_last()), digests.last()@)
    }
}

/// XORs reveal digests into an aggregate hash; the result depends neither on
/// the order of the digests nor on how they are split into batches (see
/// `lemma_xor_permutation` and `lemma_xor_batches`).
pub fn xor_reveal_digests(initial: [u8; 32], digests: &[[u8; 32]]) -> (r: [u8; 32])
    ensures
        r@ == xor_fold(initial@, digests@),
{
    let mut aggregate_hash: [u8; 32] = initial;
    let mut k: usize = 0;
    while k < digests.len()
        invariant
            k <= digests@.len(),
            aggregate_hash@ == xor_fold(initial@, digests@.subrange(0, k as int)),
        decreases digests@.len() - k,
    {
        let digest: [u8; 32] = digests[k];
        let ghost before = aggregate_hash@;
        let mut i: usize = 0;
        while i < 32
            invariant
                i <= 32,
                aggregate_hash@.len() == 32,
                before.len() == 32,
                forall|j: int| 0 <= j < i ==> aggregate_hash@[j] == before[j] ^ digest@[j],
                forall|j: int| i <= j < 32 ==> aggregate_hash@[j] == before[j],
            decreases 32 - i,
        {
            let v: u8 = aggregate_hash[i] ^ digest[i];
            aggregate_hash[i] = v;
            i = i + 1;
        }
        proof {
            assert(digests@.subrange(0, k + 1).drop_last() =~= digests@.subrange(0, k as int));
            assert(digests@.subrange(0, k + 1).last() == digest);
            assert(aggregate_hash@ =~= xor32(before, digest@));
        }
        k = k + 1;
    }
    proof {
        assert(digests@.subrange(0, digests@.len() as int) =~= digests@);
    }
    aggregate_hash
}

/// The XOR of byte `i` of every digest.
pub open spec fn xor_column(digests: Seq<[u8; 32]>, i: int) -> u8
    decreases digests.len(),
{
    if digests.len() == 0 {
        0
    } else {
        xor_column(digests.drop_last(), i) ^ digests.last()@[i]
    }
}

proof fn lemma_xor_u8_facts(a: u8, b: u8, c: u8)
    ensures
        (a ^ b) ^ c == a ^ (b ^ c),
        a ^ b == b ^ a,
        a ^ 0u8 == a,
{
    assert((a ^ b) ^ c == a ^ (b ^ c)) by (bit_vector);
    assert(a ^ b == b ^ a) by (bit_vector);
    assert(a ^ 0u8 == a) by (bit_vector);
}

proof fn lemma_xor_fold_column(initial: Seq<u8>, digests: Seq<[u8; 32]>)
    requires
        initial.len() == 32,
    ensures
        xor_fold(initial, digests).len() == 32,
        forall|i: int| 0 <= i < 32 ==> #[trigger] xor_fold(initial, digests)[i] == initial[i] ^ xor_column(digests, i),
    decreases digests.len(),
{
    if digests.len() == 0 {
        assert forall|i: int| 0 <= i < 32 implies #[trigger] xor_fold(initial, digests)[i] == initial[i] ^ xor_column(digests, i) by {
            lemma_xor_u8_facts(initial[i], 0, 0);
        }
    } else {
        lemma_xor_fold_column(initial, digests.drop_last());
        assert forall|i: int| 0 <= i < 32 implies #[trigger] xor_fold(initial, digests)[i] == initial[i] ^ xor_column(digests, i) by {
            lemma_xor_u8_facts(initial[i], xor_column(digests.drop_last(), i), digests.last()@[i]);
        }
    }
}

proof fn lemma_xor_column_append(a: Seq<[u8; 32]>, b: Seq<[u8; 32]>, i: int)
    ensures
        xor_column(a + b, i) == xor_column(a, i) ^ xor_column(b, i),
    decreases b.len(),
{
    if b.len() == 0 {
        assert(a + b =~= a);
        lemma_xor_u8_facts(xor_column(a, i), 0, 0);
    } else {
        assert((a + b).drop_last() =~= a + b.drop_last());
        assert((a + b).last() == b.last());
        lemma_xor_column_append(a, b.drop_last(), i);
        lemma_xor_u8_facts(xor_column(a, i), xor_column(b.drop_last(), i), b.last()@[i]);
    }
}

/// Folding digests in two batches gives the same aggregate as folding them
/// in one.
pub proof fn lemma_xor_batches(initial: Seq<u8>, first: Seq<[u8; 32]>, second: Seq<[u8; 32]>)
    requires
        initial.len() == 32,
    ensures
        xor_fold(xor_fold(initial, first), second) == xor_fold(initial, first + second),
{
    lemma_xor_fold_column(initial, first);
    lemma_xor_fold_column(xor_fold(initial, first), second);
    lemma_xor_fold_column(initial, first + second);
    assert forall|i: int| 0 <= i < 32 implies #[trigger] xor_fold(xor_fold(initial, first), second)[i]
        == xor_fold(initial, first + second)[i] by {
        lemma_xor_column_append(first, second, i);
        lemma_xor_u8_facts(initial[i], xor_column(first, i), xor_column(second, i));
    }
    assert(xor_fold(xor_fold(initial, first), second) =~= xor_fold(initial, first + second));
}

/// Folding the digests of two batches in either order gives the same
/// aggregate.
pub proof fn lemma_xor_order(initial: Seq<u8>, first: Seq<[u8; 32]>, second: Seq<[u8; 32]>)
    requires
        initial.len() == 32,
    ensures
        xor_fold(initial, first + second) == xor_fold(initial, second + first),
{
    lemma_xor_fold_column(initial, first + second);
    lemma_xor_fold_column(initial, second + first);
    assert forall|i: int| 0 <= i < 32 implies #[trigger] xor_fold(initial, first + second)[i]
        == xor_fold(initial, second + first)[i] by {
        lemma_xor_column_append(first, second, i);
        lemma_xor_column_append(second, first, i);
        lemma_xor_u8_facts(xor_column(first, i), xor_column(second, i), 0);
    }
    assert(xor_fold(initial, first + second) =~= xor_fold(initial, second + first));
}

proof fn lemma_xor_column_permutation(a: Seq<[u8; 32]>, b: Seq<[u8; 32]>, i: int)
    requires
        a.to_multiset() == b.to_multiset(),
    ensures
        xor_column(a, i) == xor_column(b, i),
    decreases a.len(),
{
    broadcast use vstd::seq_lib::group_to_multiset_ensures;
    if a.len() == 0 {
        assert(b.len() == b.to_multiset().len());
        assert(a.to_multiset().len() == 0);
        assert(b.len() == 0);
    } else {
        let x = a.last();
        let a0 = a.drop_last();
        assert(a0.push(x) =~= a);
        assert(a.to_multiset() =~= a0.to_multiset().insert(x));
        assert(b.to_multiset().count(x) > 0);
        assert(b.contains(x));
        let j = choose|j: int| 0 <= j < b.len() && b[j] == x;
        let b0 = b.remove(j);
        assert(b0.to_multiset() == b.to_multiset().remove(x));
        assert(a0.to_multiset() =~= a.to_multiset().remove(x));
        lemma_xor_column_permutation(a0, b0, i);
        let pre = b.subrange(0, j);
        let post = b.subrange(j + 1, b.len() as int);
        assert(b =~= pre + (seq![x] + post));
        assert(b0 =~= pre + post);
        lemma_xor_column_append(pre, seq![x] + post, i);
        lemma_xor_column_append(seq![x], post, i);
        lemma_xor_column_append(pre, post, i);
        assert(seq![x].drop_last() =~= Seq::<[u8; 32]>::empty());
        let p = xor_column(pre, i);
        let q = xor_column(post, i);
        let v = x@[i];
        assert(xor_column(Seq::<[u8; 32]>::empty(), i) == 0u8);
        assert(seq![x].last() == x);
        assert(xor_column(seq![x], i) == 0u8 ^ v);
        assert(xor_column(a, i) == xor_column(a0, i) ^ v);
        assert(xor_column(b, i) == p ^ ((0u8 ^ v) ^ q));
        assert(xor_column(b0, i) == p ^ q);
        assert(p ^ ((0u8 ^ v) ^ q) == (p ^ q) ^ v) by (bit_vector);
    }
}

/// The aggregate does not depend on the order of the digests: any
/// rearrangement of the same digests (the same multiset) folds to the same
/// value.
pub proof fn lemma_xor_permutation(initial: Seq<u8>, digests: Seq<[u8; 32]>, rearranged: Seq<[u8; 32]>)
    requires
        initial.len() == 32,
        digests.to_multiset() == rearranged.to_multiset(),
    ensures
        xor_fold(initial, digests) == xor_fold(initial, rearranged),
{
    lemma_xor_fold_column(initial, digests);
    lemma_xor_fold_column(initial, rearranged);
    assert forall|i: int| 0 <= i < 32 implies #[trigger] xor_fold(initial, digests)[i]
        == xor_fold(initial, rearranged)[i] by {
        lemma_xor_column_permutation(digests, rearranged, i);
    }
    assert(xor_fold(initial, digests) =~= xor_fold(initial, rearranged));
}

/// The winning ticket that `entropy` selects among `total_tickets` tickets:
/// the first 16 bytes of entropy read as a little-endian integer, modulo the
/// ticket count (0 when there are no tickets).
pub open spec fn winning_ticket_of(entropy: Seq<u8>, total_tickets: u64) -> u64 {
    if total_tickets == 0 {
        0
    } else {
        (le_value(entropy.subrange(0, 16)) % (total_tickets as nat)) as u64
    }
}

/// Selects a winning ticket index from draw entropy.
pub fn select_winning_ticket(entropy: [u8; 32], total_tickets: u64) -> (r: u64)
    ensures
        r == winning_ticket_of(entropy@, total_tickets),
        total_tickets > 0 ==> r < total_tickets,
{
    if total_tickets == 0 {
        return 0;
    }
    let num: u128 = read_le(entropy.as_slice(), 0, 16);
    (num % (total_tickets as u128)) as u64
}

/// The bytes of `"account:"`.
pub open spec fn account_prefix() -> Seq<u8> {
    seq![0x61u8, 0x63, 0x63, 0x6f, 0x75, 0x6e, 0x74, 0x3a]
}

/// The 8-byte account discriminator of the type named by `name_bytes`: the
/// first 8 bytes of SHA-256 over `"account:"` followed by the name.
pub open spec fn discriminator_of(name_bytes: Seq<u8>) -> Seq<u8> {
    sha256_digest(account_prefix() + name_bytes).subrange(0, 8)
}

/// The 8-byte discriminator that prefixes an account of type `name`.
pub fn discriminator(name: &str) -> (r: [u8; 8])
    ensures
        r@ == discriminator_of(name.spec_bytes()),
{
    let prefix: [u8; 8] = [0x61, 0x63, 0x63, 0x6f, 0x75, 0x6e, 0x74, 0x3a];
    let mut data: Vec<u8> = Vec::new();
    extend_bytes(&mut data, prefix.as_slice());
    extend_bytes(&mut data, name.as_bytes());
    proof {
        assert(prefix@ =~= account_prefix());
    }
    let digest: [u8; 32] = sha256(data.as_slice());
    let mut out: [u8; 8] = [0u8; 8];
    let mut i: usize = 0;
    while i < 8
        invariant
            i <= 8,
            digest@.len() == 32,
            out@.len() == 8,
            forall|j: int| 0 <= j < i ==> out@[j] == digest@[j],
        decreases 8 - i,
    {
        out[i] = digest[i];
        i = i + 1;
    }
    proof {
        assert(out@ =~= digest@.subrange(0, 8));
    }
    out
}

} // verus!
