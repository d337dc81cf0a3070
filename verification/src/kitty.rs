//! Kitties and their DNA: how a fresh DNA is drawn from the runtime's
//! randomness, and how two parents' DNA is mixed into a child's.
use vstd::prelude::*;

use crate::runtime::AccountId;

verus! {

/// A kitty: nothing but its 16 bytes of DNA.
#[derive(Clone, Copy, PartialEq, Eq, Debug)]
pub struct Kitty(pub [u8; 16]);

/// The 128-bit Blake2 hash of `data`, as `sp_io::hashing::blake2_128` computes it.
pub uninterp spec fn blake2_128_of(data: Seq<u8>) -> Seq<u8>;

/// Calls `sp_io::hashing::blake2_128`. Claimed: the result is a function of
/// the bytes alone, named `blake2_128_of`; its length of 16 is the type's.
#[verifier::external_body]
fn blake2_128(data: &[u8]) -> (r: [u8; 16])
    ensures
        r@ == blake2_128_of(data@),
{
    sp_io::hashing::blake2_128(data)
}

/// The little-endian bytes of a `u64`, as SCALE encodes it.
pub open spec fn u64_le_bytes(x: u64) -> Seq<u8> {
    Seq::new(8, |i: int| ((x >> ((8 * i) as u64)) & 0xff) as u8)
}

/// The SCALE encoding of an `Option<u32>`: a tag byte, then the
/// little-endian value when there is one.
pub open spec fn option_u32_bytes(o: Option<u32>) -> Seq<u8> {
    match o {
        None => seq![0u8],
        Some(v) => seq![1u8].add(
            Seq::new(4, |i: int| ((v >> ((8 * i) as u32)) & 0xff) as u8),
        ),
    }
}

/// The bytes that are hashed to draw a random DNA: the encoded random seed,
/// the sender's account and the index of the extrinsic in its block, encoded
/// one after the other as SCALE encodes the tuple.
pub open spec fn dna_payload(seed: Seq<u8>, sender: AccountId, extrinsic_index: Option<u32>) -> Seq<
    u8,
> {
    seed + u64_le_bytes(sender) + option_u32_bytes(extrinsic_index)
}

/// The hashed payload is the whole seed, then the sender's eight bytes,
/// least significant first, then the extrinsic index: a `0` byte when there
/// is none, else a `1` byte and its four bytes, least significant first.
pub proof fn law_dna_payload_layout(seed: Seq<u8>, sender: AccountId, extrinsic_index: Option<u32>)
    ensures
        dna_payload(seed, sender, extrinsic_index).len() == seed.len() + 8 + if extrinsic_index is None {
            1int
        } else {
            5int
        },
        dna_payload(seed, sender, extrinsic_index).subrange(0, seed.len() as int) == seed,
        forall|i: int|
            0 <= i < 8 ==> #[trigger] dna_payload(seed, sender, extrinsic_index)[seed.len() + i]
                == ((sender >> ((8 * i) as u64)) & 0xff) as u8,
        extrinsic_index is None ==> dna_payload(seed, sender, extrinsic_index)[seed.len() + 8int]
            == 0,
        extrinsic_index is Some ==> dna_payload(seed, sender, extrinsic_index)[seed.len() + 8int]
            == 1,
        forall|i: int|
            0 <= i < 4 && extrinsic_index is Some ==> #[trigger] dna_payload(
                seed,
                sender,
                extrinsic_index,
            )[seed.len() + 9 + i] == ((extrinsic_index.unwrap() >> ((8 * i) as u32)) & 0xff) as u8,
{
    let p = dna_payload(seed, sender, extrinsic_index);
    assert(p.subrange(0, seed.len() as int) =~= seed);
}

/// Builds `dna_payload(seed, sender, extrinsic_index)`.
pub fn encode_dna_payload(seed: &[u8], sender: AccountId, extrinsic_index: Option<u32>) -> (r: Vec<
    u8,
>)
    ensures
        r@ == dna_payload(seed@, sender, extrinsic_index),
        r@.len() == seed@.len() + 8 + if extrinsic_index is None {
            1int
        } else {
            5int
        },
        r@.subrange(0, seed@.len() as int) == seed@,
        forall|i: int|
            0 <= i < 8 ==> #[trigger] r@[seed@.len() + i] == ((sender >> ((8 * i) as u64)) & 0xff) as u8,
        extrinsic_index is None ==> r@[seed@.len() + 8int] == 0,
        extrinsic_index is Some ==> r@[seed@.len() + 8int] == 1,
        forall|i: int|
            0 <= i < 4 && extrinsic_index is Some ==> #[trigger] r@[seed@.len() + 9 + i] == ((
            extrinsic_index.unwrap() >> ((8 * i) as u32)) & 0xff) as u8,
{
    proof {
        law_dna_payload_layout(seed@, sender, extrinsic_index);
    }
    let mut out: Vec<u8> = Vec::new();
    let n = seed.len();
    let mut i: usize = 0;
    while i < n
        invariant
            n == seed@.len(),
            i <= n,
            out@ == seed@.subrange(0, i as int),
        decreases n - i,
    {
        out.push(seed[i]);
        i = i + 1;
    }
    assert(out@ == seed@);
    let mut j: u64 = 0;
    while j < 8
        invariant
            j <= 8,
            out@ == seed@ + u64_le_bytes(sender).subrange(0, j as int),
        decreases 8 - j,
    {
        let b = ((sender >> (8 * j)) & 0xff) as u8;
        out.push(b);
        assert(u64_le_bytes(sender).subrange(0, j + 1) =~= u64_le_bytes(sender).subrange(
            0,
            j as int,
        ).push(b));
        j = j + 1;
    }
    assert(u64_le_bytes(sender).subrange(0, 8) =~= u64_le_bytes(sender));
    match extrinsic_index {
        None => {
            out.push(0u8);
        },
        Some(v) => {
            out.push(1u8);
            let mut k: u32 = 0;
            let ghost tail = Seq::new(4, |i: int| ((v >> ((8 * i) as u32)) & 0xff) as u8);
            while k < 4
                invariant
                    k <= 4,
                    tail == Seq::new(4, |i: int| ((v >> ((8 * i) as u32)) & 0xff) as u8),
                    out@ == seed@ + u64_le_bytes(sender) + seq![1u8] + tail.subrange(0, k as int),
                decreases 4 - k,
            {
                let b = ((v >> (8 * k)) & 0xff) as u8;
                out.push(b);
                assert(tail.subrange(0, k + 1) =~= tail.subrange(0, k as int).push(b));
                k = k + 1;
            }
            assert(tail.subrange(0, 4) =~= tail);
            assert(seq![1u8].add(tail) =~= seq![1u8] + tail);
        },
    }
    assert(out@ =~= dna_payload(seed@, sender, extrinsic_index));
    out
}

/// The DNA drawn for `sender`: the Blake2-128 hash of the payload.
pub open spec fn random_dna(seed: Seq<u8>, sender: AccountId, extrinsic_index: Option<u32>) -> Seq<
    u8,
> {
    blake2_128_of(dna_payload(seed, sender, extrinsic_index))
}

/// Draws 16 random bytes for `sender` from the runtime's random seed (its SCALE
/// encoding) and the index of the current extrinsic.
pub fn random_value(seed: &[u8], sender: AccountId, extrinsic_index: Option<u32>) -> (r: [u8; 16])
    ensures
        r@ == random_dna(seed@, sender, extrinsic_index),
        r@ == blake2_128_of(dna_payload(seed@, sender, extrinsic_index)),
{
    let payload = encode_dna_payload(seed, sender, extrinsic_index);
    blake2_128(payload.as_slice())
}

/// One byte of a child's DNA: the bits of `a` where `s` is set, the bits of
/// `b` elsewhere.
pub open spec fn mix_byte(a: u8, b: u8, s: u8) -> u8 {
    (a & s) | (b & !s)
}

/// The DNA of the child of `k1` and `k2` under `selector`, byte by byte.
pub open spec fn mixed_dna(k1: Seq<u8>, k2: Seq<u8>, selector: Seq<u8>) -> Seq<u8> {
    Seq::new(16, |i: int| mix_byte(k1[i], k2[i], selector[i]))
}

/// The child of `k1` and `k2`: each bit comes from `k1` where the selector's
/// bit is set and from `k2` where it is clear.
pub fn mix_dna(k1: &Kitty, k2: &Kitty, selector: &[u8; 16]) -> (r: Kitty)
    ensures
        r.0@ == mixed_dna(k1.0@, k2.0@, selector@),
{
    let mut data = [0u8; 16];
    let mut i: usize = 0;
    while i < 16
        invariant
            i <= 16,
            data@.len() == 16,
            forall|j: int| 0 <= j < i ==> data@[j] == mix_byte(k1.0@[j], k2.0@[j], selector@[j]),
        decreases 16 - i,
    {
        data[i] = (k1.0[i] & selector[i]) | (k2.0[i] & !selector[i]);
        i = i + 1;
    }
    assert(data@ =~= mixed_dna(k1.0@, k2.0@, selector@));
    Kitty(data)
}

/// Bit `j` of a byte.
pub open spec fn bit(x: u8, j: u8) -> bool {
    (x >> j) & 1 == 1
}

/// Each bit of a mixed byte is the bit of the first parent where the selector's
/// bit is set, and the bit of the second parent where it is clear.
pub proof fn lemma_mix_byte_bits(a: u8, b: u8, s: u8, j: u8)
    requires
        j < 8,
    ensures
        bit(mix_byte(a, b, s), j) == if bit(s, j) {
            bit(a, j)
        } else {
            bit(b, j)
        },
{
    assert(j < 8 ==> (((a & s) | (b & !s)) >> j) & 1 == if (s >> j) & 1 == 1 {
        (a >> j) & 1
    } else {
        (b >> j) & 1
    }) by (bit_vector);
}

/// Breeding a kitty with an identical twin gives the same DNA back, whatever
/// the selector.
pub proof fn lemma_mix_same_parent(k: Seq<u8>, selector: Seq<u8>)
    requires
        k.len() == 16,
    ensures
        mixed_dna(k, k, selector) == k,
{
    assert forall|i: int| 0 <= i < 16 implies #[trigger] mixed_dna(k, k, selector)[i] == k[i] by {
        let a = k[i];
        let s = selector[i];
        assert((a & s) | (a & !s) == a) by (bit_vector);
    }
    assert(mixed_dna(k, k, selector) =~= k);
}

/// A selector whose every byte is `b`.
pub open spec fn uniform_selector(b: u8) -> Seq<u8> {
    Seq::new(16, |i: int| b)
}

/// A selector with every bit set gives the first parent's DNA; one with every
/// bit clear gives the second parent's.
pub proof fn lemma_mix_extreme_selectors(k1: Seq<u8>, k2: Seq<u8>)
    requires
        k1.len() == 16,
        k2.len() == 16,
    ensures
        mixed_dna(k1, k2, uniform_selector(0xff)) == k1,
        mixed_dna(k1, k2, uniform_selector(0)) == k2,
{
    let ones = uniform_selector(0xff);
    let zeros = uniform_selector(0);
    assert forall|i: int| 0 <= i < 16 implies #[trigger] mixed_dna(k1, k2, ones)[i] == k1[i] by {
        let a = k1[i];
        let b = k2[i];
        assert((a & 0xffu8) | (b & !0xffu8) == a) by (bit_vector);
    }
    assert forall|i: int| 0 <= i < 16 implies #[trigger] mixed_dna(k1, k2, zeros)[i] == k2[i] by {
        let a = k1[i];
        let b = k2[i];
        assert((a & 0u8) | (b & !0u8) == b) by (bit_vector);
    }
    assert(mixed_dna(k1, k2, ones) =~= k1);
    assert(mixed_dna(k1, k2, zeros) =~= k2);
}

} // verus!
