//! Bytes and text as bit sequences, most significant bit first.

use vstd::prelude::*;
use vstd::string::StringSliceAdditionalSpecFns;
use crate::error::CouplerError;
use crate::Bit;

verus! {

/// The value of bit `k` of a byte, counted from the most significant one.
pub open spec fn weight(k: int) -> int {
    if k == 0 {
        128
    } else if k == 1 {
        64
    } else if k == 2 {
        32
    } else if k == 3 {
        16
    } else if k == 4 {
        8
    } else if k == 5 {
        4
    } else if k == 6 {
        2
    } else {
        1
    }
}

/// Bit `k` of a byte, counted from the most significant one.
pub open spec fn bit_of(byte: u8, k: int) -> bool {
    (byte as int / weight(k)) % 2 == 1
}

/// What a bit adds to its byte at position `k`.
pub open spec fn share(bit: bool, k: int) -> int {
    if bit {
        weight(k)
    } else {
        0
    }
}

/// The byte that eight bits spell, most significant bit first.
pub open spec fn byte_of(w: Seq<bool>) -> u8 {
    (share(w[0], 0) + share(w[1], 1) + share(w[2], 2) + share(w[3], 3) + share(w[4], 4) + share(
        w[5],
        5,
    ) + share(w[6], 6) + share(w[7], 7)) as u8
}

/// The bits of a byte sequence: eight per byte, bytes in order.
pub open spec fn bits_of_spec(bytes: Seq<u8>) -> Seq<bool> {
    Seq::new(8 * bytes.len(), |i: int| bit_of(bytes[i / 8], i % 8))
}

/// The bytes that a bit sequence spells, eight bits at a time.
pub open spec fn bytes_of_spec(bits: Seq<bool>) -> Seq<u8> {
    Seq::new(bits.len() / 8, |j: int| byte_of(bits.subrange(8 * j, 8 * j + 8)))
}

/// Expands bytes into bits.
pub fn bits_of(bytes: &[u8]) -> (r: Vec<Bit>)
    ensures
        r@ == bits_of_spec(bytes@),
{
    let mut out: Vec<Bit> = Vec::new();
    let mut j: usize = 0;
    while j < bytes.len()
        invariant
            j <= bytes.len(),
            out.len() == 8 * j,
            forall|i: int| 0 <= i < 8 * j ==> out@[i] == bit_of(bytes@[i / 8], i % 8),
        decreases bytes.len() - j,
    {
        let b: u8 = bytes[j];
        out.push((b / 128) % 2 == 1);
        out.push((b / 64) % 2 == 1);
        out.push((b / 32) % 2 == 1);
        out.push((b / 16) % 2 == 1);
        out.push((b / 8) % 2 == 1);
        out.push((b / 4) % 2 == 1);
        out.push((b / 2) % 2 == 1);
        out.push(b % 2 == 1);
        j += 1;
    }
    assert(out@ =~= bits_of_spec(bytes@));
    out
}

/// Expands a text into the bits of its UTF-8 bytes.
pub fn encode_u8(data: &str) -> (r: Vec<Bit>)
    ensures
        r@ == bits_of_spec(data.spec_bytes()),
{
    bits_of(data.as_bytes())
}

/// Packs bits into bytes. A sequence that does not hold a whole number of
/// bytes is refused.
pub fn bytes_of(bits: &Vec<Bit>) -> (r: Result<Vec<u8>, CouplerError>)
    ensures
        bits.len() % 8 == 0 ==> (r matches Ok(v) && v@ == bytes_of_spec(bits@)),
        bits.len() % 8 != 0 ==> r == Err::<Vec<u8>, CouplerError>(CouplerError::Framing),
{
    if bits.len() % 8 != 0 {
        return Err(CouplerError::Framing);
    }
    let n: usize = bits.len() / 8;
    let mut out: Vec<u8> = Vec::new();
    let mut j: usize = 0;
    while j < n
        invariant
            n == bits.len() / 8,
            j <= n,
            out.len() == j,
            forall|i: int| 0 <= i < j ==> out@[i] == byte_of(bits@.subrange(8 * i, 8 * i + 8)),
        decreases n - j,
    {
        let ghost w = bits@.subrange(8 * j, 8 * j + 8);
        let mut v: u8 = 0;
        if bits[8 * j] {
            v += 128;
        }
        if bits[8 * j + 1] {
            v += 64;
        }
        if bits[8 * j + 2] {
            v += 32;
        }
        if bits[8 * j + 3] {
            v += 16;
        }
        if bits[8 * j + 4] {
            v += 8;
        }
        if bits[8 * j + 5] {
            v += 4;
        }
        if bits[8 * j + 6] {
            v += 2;
        }
        if bits[8 * j + 7] {
            v += 1;
        }
        assert(v == byte_of(w));
        out.push(v);
        j += 1;
    }
    assert(out@ =~= bytes_of_spec(bits@));
    Ok(out)
}

/// The eight bits of a byte spell that byte.
pub proof fn lemma_byte_of_its_bits(byte: u8)
    ensures
        byte_of(Seq::new(8, |k: int| bit_of(byte, k))) == byte,
{
    assert(byte == ((byte / 128) % 2) * 128 + ((byte / 64) % 2) * 64 + ((byte / 32) % 2) * 32 + ((byte
        / 16) % 2) * 16 + ((byte / 8) % 2) * 8 + ((byte / 4) % 2) * 4 + ((byte / 2) % 2) * 2 + (byte
        % 2)) by (bit_vector);
    let w = Seq::new(8, |k: int| bit_of(byte, k));
    assert(share(w[0], 0) == ((byte / 128) % 2) * 128);
    assert(share(w[1], 1) == ((byte / 64) % 2) * 64);
    assert(share(w[2], 2) == ((byte / 32) % 2) * 32);
    assert(share(w[3], 3) == ((byte / 16) % 2) * 16);
    assert(share(w[4], 4) == ((byte / 8) % 2) * 8);
    assert(share(w[5], 5) == ((byte / 4) % 2) * 4);
    assert(share(w[6], 6) == ((byte / 2) % 2) * 2);
    assert(share(w[7], 7) == (byte / 1) % 2);
}

/// The byte that eight bits spell has those bits.
pub proof fn lemma_bits_of_their_byte(w: Seq<bool>, k: int)
    requires
        w.len() == 8,
        0 <= k < 8,
    ensures
        bit_of(byte_of(w), k) == w[k],
{
}

/// Packing the bits of a byte sequence gives the bytes back.
pub proof fn lemma_bytes_of_inverts_bits_of(bytes: Seq<u8>)
    ensures
        bits_of_spec(bytes).len() % 8 == 0,
        bytes_of_spec(bits_of_spec(bytes)) == bytes,
{
    let bits = bits_of_spec(bytes);
    assert forall|j: int| 0 <= j < bytes.len() implies bytes_of_spec(bits)[j] == bytes[j] by {
        let w = bits.subrange(8 * j, 8 * j + 8);
        assert forall|k: int| 0 <= k < 8 implies w[k] == bit_of(bytes[j], k) by {
            assert((8 * j + k) / 8 == j && (8 * j + k) % 8 == k);
        }
        assert(w =~= Seq::new(8, |k: int| bit_of(bytes[j], k)));
        lemma_byte_of_its_bits(bytes[j]);
    }
    assert(bytes_of_spec(bits) =~= bytes);
}

/// Expanding the bytes that a bit sequence spells gives the bits back.
pub proof fn lemma_bits_of_inverts_bytes_of(bits: Seq<bool>)
    requires
        bits.len() % 8 == 0,
    ensures
        bits_of_spec(bytes_of_spec(bits)) == bits,
{
    let bytes = bytes_of_spec(bits);
    assert forall|i: int| 0 <= i < bits.len() implies bits_of_spec(bytes)[i] == bits[i] by {
        let j = i / 8;
        let w = bits.subrange(8 * j, 8 * j + 8);
        lemma_bits_of_their_byte(w, i % 8);
        assert(w[i % 8] == bits[8 * j + i % 8]);
    }
    assert(bits_of_spec(bytes) =~= bits);
}

} // verus!
