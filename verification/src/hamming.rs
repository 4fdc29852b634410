//! Forward error correction with an extended Hamming code.
//!
//! Four data bits `d0 d1 d2 d3` become the eight-bit word
//! `d0 d1 d2 d3 p1 p2 p3 p0`, where `p1 = d0^d1^d3`, `p2 = d0^d2^d3`,
//! `p3 = d1^d2^d3`, and `p0` makes the number of ones in the word even. One
//! flipped bit in a word is repaired, two are detected.

use vstd::prelude::*;
use crate::error::CouplerError;
use crate::Bit;

verus! {

/// Exclusive or of two bits.
pub open spec fn xor(a: bool, b: bool) -> bool {
    a != b
}

/// Bit `k` of the code word of the four data bits `d`.
pub open spec fn parity_bit(d: Seq<bool>, k: int) -> bool {
    if 0 <= k < 4 {
        d[k]
    } else if k == 4 {
        xor(xor(d[0], d[1]), d[3])
    } else if k == 5 {
        xor(xor(d[0], d[2]), d[3])
    } else if k == 6 {
        xor(xor(d[1], d[2]), d[3])
    } else {
        xor(
            xor(xor(d[0], d[1]), xor(d[2], d[3])),
            xor(
                xor(xor(xor(d[0], d[1]), d[3]), xor(xor(d[0], d[2]), d[3])),
                xor(xor(d[1], d[2]), d[3]),
            ),
        )
    }
}

/// The code word of the four data bits `d`.
pub open spec fn codeword(d: Seq<bool>) -> Seq<bool> {
    Seq::new(8, |k: int| parity_bit(d, k))
}

/// Data group `g` of a bit sequence.
pub open spec fn nibble(b: Seq<bool>, g: int) -> Seq<bool> {
    b.subrange(4 * g, 4 * g + 4)
}

/// Code word `g` of a coded bit sequence.
pub open spec fn word(c: Seq<bool>, g: int) -> Seq<bool> {
    c.subrange(8 * g, 8 * g + 8)
}

/// The code words of the successive data groups of `b`, in order.
pub open spec fn encode_spec(b: Seq<bool>) -> Seq<bool> {
    Seq::new((b.len() / 4 * 8) as nat, |i: int| parity_bit(nibble(b, i / 8), i % 8))
}

/// The three parity checks of a received word.
pub open spec fn syndrome(w: Seq<bool>) -> (bool, bool, bool) {
    (
        xor(xor(w[0], w[1]), xor(w[3], w[4])),
        xor(xor(w[0], w[2]), xor(w[3], w[5])),
        xor(xor(w[1], w[2]), xor(w[3], w[6])),
    )
}

/// Whether a received word holds an odd number of ones.
pub open spec fn odd_parity(w: Seq<bool>) -> bool {
    xor(xor(xor(w[0], w[1]), xor(w[2], w[3])), xor(xor(w[4], w[5]), xor(w[6], w[7])))
}

/// The position that the parity checks of a word with one flipped bit point to.
pub open spec fn error_position(w: Seq<bool>) -> int {
    let (s1, s2, s3) = syndrome(w);
    if s1 && s2 && !s3 {
        0
    } else if s1 && !s2 && s3 {
        1
    } else if !s1 && s2 && s3 {
        2
    } else if s1 && s2 && s3 {
        3
    } else if s1 && !s2 && !s3 {
        4
    } else if !s1 && s2 && !s3 {
        5
    } else if !s1 && !s2 && s3 {
        6
    } else {
        7
    }
}

/// A word is damaged beyond repair when its parity is even and a check fails.
pub open spec fn is_damaged(w: Seq<bool>) -> bool {
    !odd_parity(w) && syndrome(w) != (false, false, false)
}

/// Bit `k` of a received word after repair.
pub open spec fn repaired_bit(w: Seq<bool>, k: int) -> bool {
    if odd_parity(w) && error_position(w) == k {
        !w[k]
    } else {
        w[k]
    }
}

/// The data bits of a received word after repair.
pub open spec fn repaired_data(w: Seq<bool>) -> Seq<bool> {
    Seq::new(4, |k: int| repaired_bit(w, k))
}

/// The data bits of all words of `c` after repair.
pub open spec fn decoded(c: Seq<bool>) -> Seq<bool> {
    Seq::new((c.len() / 8 * 4) as nat, |i: int| repaired_bit(word(c, i / 4), i % 4))
}

/// The first damaged word among words `g..n` of `c`, or `n` if there is none.
pub open spec fn first_damaged(c: Seq<bool>, g: int, n: int) -> int
    decreases n - g,
{
    if g >= n {
        n
    } else if is_damaged(word(c, g)) {
        g
    } else {
        first_damaged(c, g + 1, n)
    }
}

/// How many of the first `n` words of `c` hold an odd number of ones.
pub open spec fn corrected_count(c: Seq<bool>, n: int) -> nat
    decreases n,
{
    if n <= 0 {
        0
    } else {
        corrected_count(c, n - 1) + if odd_parity(word(c, n - 1)) { 1nat } else { 0nat }
    }
}

/// What decoding `c` yields: the repaired data with the number of repaired
/// words, or the first word that cannot be repaired.
pub open spec fn decode_spec(c: Seq<bool>) -> Result<(Seq<bool>, nat), CouplerError> {
    let n = (c.len() / 8) as int;
    if c.len() % 8 != 0 {
        Err(CouplerError::InvalidLength)
    } else if first_damaged(c, 0, n) < n {
        Err(CouplerError::Uncorrectable { group: first_damaged(c, 0, n) as usize })
    } else {
        Ok((decoded(c), corrected_count(c, n)))
    }
}

/// Whether an executable decoding result is the value `s`.
pub open spec fn decode_agrees(
    r: Result<(Vec<Bit>, usize), CouplerError>,
    s: Result<(Seq<bool>, nat), CouplerError>,
) -> bool {
    match s {
        Ok((bits, n)) => r matches Ok((v, k)) && v@ == bits && k == n,
        Err(e) => r == Err::<(Vec<Bit>, usize), CouplerError>(e),
    }
}

/// A sequence with bit `p` flipped.
pub open spec fn flip(c: Seq<bool>, p: int) -> Seq<bool> {
    c.update(p, !c[p])
}

/// The code word of a group of four data bits.
pub fn calc_parity(group: Vec<Bit>) -> (r: Vec<Bit>)
    requires
        group.len() == 4,
    ensures
        r@ == codeword(group@),
{
    let d0 = group[0];
    let d1 = group[1];
    let d2 = group[2];
    let d3 = group[3];
    let p1 = (d0 != d1) != d3;
    let p2 = (d0 != d2) != d3;
    let p3 = (d1 != d2) != d3;
    let p0 = ((d0 != d1) != (d2 != d3)) != ((p1 != p2) != p3);
    let r = vec![d0, d1, d2, d3, p1, p2, p3, p0];
    assert(r@ =~= codeword(group@));
    r
}

/// Codes a bit sequence group by group, earliest group first. A sequence whose
/// length is no multiple of four is refused.
pub fn encode(bits: &Vec<Bit>) -> (r: Result<Vec<Bit>, CouplerError>)
    ensures
        bits.len() % 4 == 0 ==> (r matches Ok(v) && v@ == encode_spec(bits@)),
        bits.len() % 4 != 0 ==> r == Err::<Vec<Bit>, CouplerError>(CouplerError::InvalidLength),
{
    if bits.len() % 4 != 0 {
        return Err(CouplerError::InvalidLength);
    }
    let n: usize = bits.len() / 4;
    let mut out: Vec<Bit> = Vec::new();
    let mut g: usize = 0;
    while g < n
        invariant
            n == bits.len() / 4,
            g <= n,
            out.len() == 8 * g,
            forall|i: int| 0 <= i < 8 * g ==> out@[i] == parity_bit(nibble(bits@, i / 8), i % 8),
        decreases n - g,
    {
        let group: Vec<Bit> = vec![bits[4 * g], bits[4 * g + 1], bits[4 * g + 2], bits[4 * g + 3]];
        assert(group@ =~= nibble(bits@, g as int));
        let w = calc_parity(group);
        let mut k: usize = 0;
        while k < 8
            invariant
                k <= 8,
                w@ == codeword(nibble(bits@, g as int)),
                out.len() == 8 * g + k,
                forall|i: int|
                    0 <= i < 8 * g + k ==> out@[i] == parity_bit(nibble(bits@, i / 8), i % 8),
            decreases 8 - k,
        {
            out.push(w[k]);
            k += 1;
        }
        g += 1;
    }
    assert(out@ =~= encode_spec(bits@));
    Ok(out)
}

/// Repairs one received word. `None` says that it is damaged beyond repair;
/// otherwise the data bits come back, with whether a bit had to be flipped.
pub fn decode_word(w: &Vec<Bit>) -> (r: Option<(Vec<Bit>, bool)>)
    requires
        w.len() == 8,
    ensures
        is_damaged(w@) <==> r is None,
        r matches Some((d, fixed)) ==> (d@ == repaired_data(w@) && fixed == odd_parity(w@)),
{
    let s1 = (w[0] != w[1]) != (w[3] != w[4]);
    let s2 = (w[0] != w[2]) != (w[3] != w[5]);
    let s3 = (w[1] != w[2]) != (w[3] != w[6]);
    let odd = ((w[0] != w[1]) != (w[2] != w[3])) != ((w[4] != w[5]) != (w[6] != w[7]));
    if !odd && (s1 || s2 || s3) {
        return None;
    }
    let d0 = if odd && s1 && s2 && !s3 { !w[0] } else { w[0] };
    let d1 = if odd && s1 && !s2 && s3 { !w[1] } else { w[1] };
    let d2 = if odd && !s1 && s2 && s3 { !w[2] } else { w[2] };
    let d3 = if odd && s1 && s2 && s3 { !w[3] } else { w[3] };
    let d = vec![d0, d1, d2, d3];
    assert(d@ =~= repaired_data(w@));
    Some((d, odd))
}

/// Decodes a coded bit sequence word by word. One flipped bit per word is
/// repaired and counted; the first word with an error that cannot be repaired
/// ends the decoding with its index. A sequence whose length is no multiple of
/// eight is refused.
pub fn decode(code: &Vec<Bit>) -> (r: Result<(Vec<Bit>, usize), CouplerError>)
    ensures
        decode_agrees(r, decode_spec(code@)),
{
    if code.len() % 8 != 0 {
        return Err(CouplerError::InvalidLength);
    }
    let n: usize = code.len() / 8;
    let mut out: Vec<Bit> = Vec::new();
    let mut fixed: usize = 0;
    let mut g: usize = 0;
    while g < n
        invariant
            n == code.len() / 8,
            code.len() % 8 == 0,
            g <= n,
            first_damaged(code@, 0, n as int) == first_damaged(code@, g as int, n as int),
            fixed == corrected_count(code@, g as int),
            fixed <= g,
            out.len() == 4 * g,
            forall|i: int| 0 <= i < 4 * g ==> out@[i] == repaired_bit(word(code@, i / 4), i % 4),
        decreases n - g,
    {
        let mut w: Vec<Bit> = Vec::new();
        let mut k: usize = 0;
        while k < 8
            invariant
                k <= 8,
                g < n,
                n == code.len() / 8,
                w.len() == k,
                forall|j: int| 0 <= j < k ==> w@[j] == code@[8 * g + j],
            decreases 8 - k,
        {
            w.push(code[8 * g + k]);
            k += 1;
        }
        assert(w@ =~= word(code@, g as int));
        match decode_word(&w) {
            None => {
                return Err(CouplerError::Uncorrectable { group: g });
            },
            Some((d, odd)) => {
                out.push(d[0]);
                out.push(d[1]);
                out.push(d[2]);
                out.push(d[3]);
                if odd {
                    fixed += 1;
                }
            },
        }
        g += 1;
    }
    assert(out@ =~= decoded(code@));
    Ok((out, fixed))
}

/// A code word as it was sent is clean: no check fails, its parity is even,
/// and its data bits are those that were coded.
pub proof fn lemma_codeword_is_clean(d: Seq<bool>)
    requires
        d.len() == 4,
    ensures
        !is_damaged(codeword(d)),
        !odd_parity(codeword(d)),
        repaired_data(codeword(d)) == d,
{
    assert(repaired_data(codeword(d)) =~= d);
}

/// Whichever single bit of a code word is flipped, the word is repaired to
/// the data bits that were coded, and the repair is noticed.
pub proof fn lemma_flipped_word_is_repaired(d: Seq<bool>, k: int)
    requires
        d.len() == 4,
        0 <= k < 8,
    ensures
        !is_damaged(flip(codeword(d), k)),
        odd_parity(flip(codeword(d), k)),
        repaired_data(flip(codeword(d), k)) == d,
{
    let w = flip(codeword(d), k);
    assert(forall|j: int| 0 <= j < 8 ==> w[j] == (if j == k { !codeword(d)[j] } else { codeword(d)[j] }));
    assert(repaired_data(w) =~= d);
}

/// Whichever two bits of a code word are flipped, the word is recognised as
/// damaged beyond repair.
pub proof fn lemma_twice_flipped_word_is_damaged(d: Seq<bool>, k: int, m: int)
    requires
        d.len() == 4,
        0 <= k < 8,
        0 <= m < 8,
        k != m,
    ensures
        is_damaged(flip(flip(codeword(d), k), m)),
{
    let w = flip(flip(codeword(d), k), m);
    assert(forall|j: int| 0 <= j < 8 ==> w[j] == (if j == k || j == m { !codeword(d)[j] } else { codeword(d)[j] }));
}

proof fn lemma_none_damaged(c: Seq<bool>, g: int, n: int)
    requires
        0 <= g <= n,
        forall|j: int| g <= j < n ==> !is_damaged(#[trigger] word(c, j)),
    ensures
        first_damaged(c, g, n) == n,
    decreases n - g,
{
    if g < n {
        lemma_none_damaged(c, g + 1, n);
    }
}

proof fn lemma_first_damaged_is(c: Seq<bool>, g: int, t: int, n: int)
    requires
        0 <= g <= t < n,
        forall|j: int| g <= j < t ==> !is_damaged(#[trigger] word(c, j)),
        is_damaged(word(c, t)),
    ensures
        first_damaged(c, g, n) == t,
    decreases t - g,
{
    if g < t {
        lemma_first_damaged_is(c, g + 1, t, n);
    }
}

proof fn lemma_count_with_one_odd(c: Seq<bool>, n: int, t: int)
    requires
        0 <= n,
        forall|j: int| 0 <= j < n && j != t ==> !odd_parity(#[trigger] word(c, j)),
        0 <= t < n ==> odd_parity(word(c, t)),
    ensures
        corrected_count(c, n) == if 0 <= t < n { 1nat } else { 0nat },
    decreases n,
{
    if n > 0 {
        lemma_count_with_one_odd(c, n - 1, t);
    }
}

/// Word `g` of a coded sequence is the code word of data group `g`.
pub proof fn lemma_word_of_encoded(b: Seq<bool>, g: int)
    requires
        0 <= g < b.len() / 4,
    ensures
        word(encode_spec(b), g) == codeword(nibble(b, g)),
        nibble(b, g).len() == 4,
{
    let c = encode_spec(b);
    assert forall|k: int| 0 <= k < 8 implies word(c, g)[k] == codeword(nibble(b, g))[k] by {
        assert((8 * g + k) / 8 == g && (8 * g + k) % 8 == k);
        assert(word(c, g)[k] == c[8 * g + k]);
    }
    assert(word(c, g) =~= codeword(nibble(b, g)));
}

proof fn lemma_decoded_is(c: Seq<bool>, b: Seq<bool>)
    requires
        b.len() % 4 == 0,
        c.len() == 2 * b.len(),
        forall|j: int| 0 <= j < b.len() / 4 ==> repaired_data(#[trigger] word(c, j)) == nibble(b, j),
    ensures
        decoded(c) == b,
{
    assert forall|i: int| 0 <= i < b.len() implies decoded(c)[i] == b[i] by {
        let j = i / 4;
        assert(repaired_data(word(c, j)) == nibble(b, j));
        assert(repaired_data(word(c, j))[i % 4] == repaired_bit(word(c, j), i % 4));
        assert(nibble(b, j)[i % 4] == b[4 * j + i % 4]);
    }
    assert(decoded(c) =~= b);
}

/// Decoding what was coded gives the data back and reports no repair.
pub proof fn lemma_decode_inverts_encode(b: Seq<bool>)
    requires
        b.len() % 4 == 0,
    ensures
        decode_spec(encode_spec(b)) == Ok::<(Seq<bool>, nat), CouplerError>((b, 0nat)),
{
    let c = encode_spec(b);
    let n = (b.len() / 4) as int;
    assert(c.len() == 2 * b.len());
    assert(c.len() / 8 == n && c.len() % 8 == 0);
    assert forall|j: int| 0 <= j < n implies !is_damaged(#[trigger] word(c, j)) && !odd_parity(
        word(c, j),
    ) && repaired_data(word(c, j)) == nibble(b, j) by {
        lemma_word_of_encoded(b, j);
        lemma_codeword_is_clean(nibble(b, j));
    }
    lemma_none_damaged(c, 0, n);
    lemma_count_with_one_odd(c, n, -1);
    lemma_decoded_is(c, b);
}

/// Whichever single bit of a coded sequence is flipped on the way, decoding
/// gives the data back and reports exactly one repair.
pub proof fn lemma_single_flip_is_repaired(b: Seq<bool>, p: int)
    requires
        b.len() % 4 == 0,
        0 <= p < encode_spec(b).len(),
    ensures
        decode_spec(flip(encode_spec(b), p)) == Ok::<(Seq<bool>, nat), CouplerError>((b, 1nat)),
{
    let e = encode_spec(b);
    let c = flip(e, p);
    let n = (b.len() / 4) as int;
    let t = p / 8;
    assert(c.len() == 2 * b.len());
    assert(c.len() / 8 == n && c.len() % 8 == 0);
    assert forall|j: int| 0 <= j < n implies !is_damaged(#[trigger] word(c, j)) && (odd_parity(
        word(c, j),
    ) <==> j == t) && repaired_data(word(c, j)) == nibble(b, j) by {
        lemma_word_of_encoded(b, j);
        if j == t {
            assert(word(c, j) =~= flip(word(e, j), p % 8));
            lemma_flipped_word_is_repaired(nibble(b, j), p % 8);
        } else {
            assert(word(c, j) =~= word(e, j));
            lemma_codeword_is_clean(nibble(b, j));
        }
    }
    lemma_none_damaged(c, 0, n);
    lemma_count_with_one_odd(c, n, t);
    lemma_decoded_is(c, b);
}

/// Whichever two bits of one word of a coded sequence are flipped on the way,
/// decoding stops at that word and reports it as beyond repair.
pub proof fn lemma_double_flip_is_detected(b: Seq<bool>, p: int, q: int)
    requires
        b.len() % 4 == 0,
        0 <= p < encode_spec(b).len(),
        0 <= q < encode_spec(b).len(),
        p != q,
        p / 8 == q / 8,
    ensures
        decode_spec(flip(flip(encode_spec(b), p), q)) == Err::<(Seq<bool>, nat), CouplerError>(
            CouplerError::Uncorrectable { group: (p / 8) as usize },
        ),
{
    let e = encode_spec(b);
    let c = flip(flip(e, p), q);
    let n = (b.len() / 4) as int;
    let t = p / 8;
    assert(c.len() == 2 * b.len());
    assert(c.len() / 8 == n && c.len() % 8 == 0);
    assert forall|j: int| 0 <= j < t implies !is_damaged(#[trigger] word(c, j)) by {
        lemma_word_of_encoded(b, j);
        assert(word(c, j) =~= word(e, j));
        lemma_codeword_is_clean(nibble(b, j));
    }
    lemma_word_of_encoded(b, t);
    assert(word(c, t) =~= flip(flip(word(e, t), p % 8), q % 8));
    lemma_twice_flipped_word_is_damaged(nibble(b, t), p % 8, q % 8);
    lemma_first_damaged_is(c, 0, t, n);
}

} // verus!
