use vstd::prelude::*;

verus! {

/// Byte `k` of the little-endian encoding of a 64-bit length.
pub open spec fn length_tag_byte(len: u64, k: u64) -> u8
    recommends
        k < 8,
{
    (len >> ((k * 8) as u64)) as u8
}

/// Byte `i` of the reasoning fingerprint: the text byte (or zero past the
/// end of the text) for the first 24 positions, and the text byte XORed with
/// the matching little-endian length byte for positions 24 to 31.
pub open spec fn fingerprint_byte(reasoning: Seq<u8>, i: int) -> u8
    recommends
        0 <= i < 32,
{
    let prefix: u8 = if i < reasoning.len() {
        reasoning[i]
    } else {
        0u8
    };
    if 24 <= i < 32 {
        prefix ^ length_tag_byte(reasoning.len() as u64, (i - 24) as u64)
    } else {
        prefix
    }
}

/// The 32-byte fingerprint stored in place of a reasoning text: the first 32
/// bytes of the text, zero-padded, with the 8-byte little-endian encoding of
/// the full byte length XORed into offsets 24 to 31.
///
/// The fingerprint is a function of the first 32 bytes and the total length
/// alone; texts agreeing on both collide. That is a documented property of
/// the scheme, which is a cheap integrity tag, not a cryptographic hash.
pub open spec fn fingerprint(reasoning: Seq<u8>) -> Seq<u8> {
    Seq::new(32, |i: int| fingerprint_byte(reasoning, i))
}

/// Computes the fingerprint of a reasoning text.
pub fn reasoning_fingerprint(reasoning: &Vec<u8>) -> (h: Vec<u8>)
    ensures
        h@ == fingerprint(reasoning@),
        h@.len() == 32,
{
    let len64: u64 = reasoning.len() as u64;
    let mut h: Vec<u8> = Vec::new();
    let mut i: usize = 0;
    while i < 32
        invariant
            i <= 32,
            h@.len() == i,
            len64 == reasoning@.len(),
            forall|t: int| 0 <= t < i ==> h@[t] == fingerprint_byte(reasoning@, t),
        decreases 32 - i,
    {
        let mut b: u8 = if i < reasoning.len() {
            reasoning[i]
        } else {
            0u8
        };
        if i >= 24 {
            let k: u64 = (i - 24) as u64;
            let tag: u8 = #[verifier::truncate] ((len64 >> (k * 8)) as u8);
            b = b ^ tag;
        }
        h.push(b);
        i = i + 1;
    }
    assert(h@ =~= fingerprint(reasoning@));
    h
}

/// Law: the fingerprint of a text of at most 24 bytes carries the text
/// verbatim in its leading bytes, zeroes up to offset 24, the byte length at
/// offset 24 and zeroes after it, so it determines such a text exactly.
pub proof fn lemma_fingerprint_roundtrip(reasoning: Seq<u8>)
    requires
        reasoning.len() <= 24,
    ensures
        forall|i: int| 0 <= i < reasoning.len() ==> fingerprint(reasoning)[i] == reasoning[i],
        forall|i: int| reasoning.len() <= i < 24 ==> fingerprint(reasoning)[i] == 0,
        fingerprint(reasoning)[24] == reasoning.len() as u8,
        forall|i: int| 24 < i < 32 ==> fingerprint(reasoning)[i] == 0,
{
    let len64 = reasoning.len() as u64;
    assert(len64 >> ((0u64 * 8) as u64) == len64) by (bit_vector);
    assert(forall|k: u64|
        1 <= k < 8 && len64 <= 24 ==> #[trigger] (len64 >> ((k * 8) as u64)) == 0)
        by (bit_vector);
    assert(forall|t: u8| #[trigger] (0u8 ^ t) == t) by (bit_vector);
    assert(fingerprint(reasoning)[24] == 0u8 ^ length_tag_byte(len64, 0));
    assert(len64 as u8 == reasoning.len() as u8);
}

/// Law: two texts of equal byte length whose first 32 bytes agree have the
/// same fingerprint — the documented collision of the scheme.
pub proof fn lemma_fingerprint_collision(a: Seq<u8>, b: Seq<u8>)
    requires
        a.len() == b.len(),
        forall|i: int| 0 <= i < 32 && i < a.len() ==> a[i] == b[i],
    ensures
        fingerprint(a) == fingerprint(b),
{
    assert forall|i: int| 0 <= i < 32 implies fingerprint(a)[i] == fingerprint(b)[i] by {
        assert(fingerprint_byte(a, i) == fingerprint_byte(b, i));
    }
    assert(fingerprint(a) =~= fingerprint(b));
}

/// Law: within the first 32 bytes and away from offset 24, the fingerprint
/// of a text of at most 32 bytes repeats the text unchanged; offset 24 holds
/// the text byte (or zero) XORed with the byte length.
pub proof fn lemma_fingerprint_prefix(reasoning: Seq<u8>)
    requires
        reasoning.len() <= 32,
    ensures
        forall|i: int|
            0 <= i < reasoning.len() && i != 24 ==> fingerprint(reasoning)[i] == reasoning[i],
        fingerprint(reasoning)[24] == (if reasoning.len() > 24 {
            reasoning[24]
        } else {
            0u8
        }) ^ (reasoning.len() as u64) as u8,
{
    let len64 = reasoning.len() as u64;
    assert(len64 >> ((0u64 * 8) as u64) == len64) by (bit_vector);
    assert(forall|k: u64|
        1 <= k < 8 && len64 <= 32 ==> #[trigger] (len64 >> ((k * 8) as u64)) == 0)
        by (bit_vector);
    assert(forall|t: u8| #[trigger] (t ^ 0u8) == t) by (bit_vector);
}

} // verus!
