//! Framing: a coded payload is sent between fixed markers.
//!
//! A frame is two preambles, the start marker, the payload, and the marker
//! once more to close it. The receiver looks for the first preamble and the
//! first marker after it among the leading bits of the stream (the search
//! window), and takes as closing marker the last one that the stream holds, so
//! that a payload which happens to hold the marker pattern is not cut short.

use vstd::prelude::*;
use crate::error::CouplerError;
use crate::{Bit, PREAMBLE, USFD};

verus! {

/// Number of bits that a frame holds before its payload.
pub const FRAME_HEADER_LEN: usize = 24;

/// The eight alternating bits that announce a frame.
pub open spec fn preamble() -> Seq<bool> {
    seq![true, false, true, false, true, false, true, false]
}

/// The eight-bit marker that stands before and after the payload.
pub open spec fn start_flag() -> Seq<bool> {
    seq![false, false, false, true, false, true, true, false]
}

/// The frame around `payload`.
pub open spec fn frame_spec(payload: Seq<bool>) -> Seq<bool> {
    preamble() + preamble() + start_flag() + payload + start_flag()
}

/// Whether `pat` stands in `s` at index `i`.
pub open spec fn matches_at(s: Seq<bool>, pat: Seq<bool>, i: int) -> bool {
    0 <= i && i + pat.len() <= s.len() && s.subrange(i, i + pat.len()) == pat
}

/// The least index from `from` on at which `pat` stands in `s` and ends
/// before `limit`, or -1 if there is none.
pub open spec fn first_match(s: Seq<bool>, pat: Seq<bool>, from: int, limit: int) -> int
    decreases limit - from + 1,
{
    if from + pat.len() > limit {
        -1
    } else if matches_at(s, pat, from) {
        from
    } else {
        first_match(s, pat, from + 1, limit)
    }
}

/// The greatest index from `from` on at which `pat` stands in `s` and ends
/// before `limit`, or -1 if there is none.
pub open spec fn last_match(s: Seq<bool>, pat: Seq<bool>, from: int, limit: int) -> int
    decreases limit - from + 1,
{
    if from + pat.len() > limit {
        -1
    } else if matches_at(s, pat, limit - pat.len()) {
        limit - pat.len()
    } else {
        last_match(s, pat, from, limit - 1)
    }
}

/// How many leading bits of a stream of `len` bits a window of `window` bits
/// covers.
pub open spec fn searched(len: int, window: int) -> int {
    if window < len {
        window
    } else {
        len
    }
}

/// Where the payload of the frame in `s` begins: behind the first start marker
/// that follows the first preamble, both inside the window; -1 if the window
/// holds no such pair.
pub open spec fn payload_start(s: Seq<bool>, window: int) -> int {
    let lim = searched(s.len() as int, window);
    let p = first_match(s, preamble(), 0, lim);
    if p < 0 {
        -1
    } else {
        let f = first_match(s, start_flag(), p + 8, lim);
        if f < 0 {
            -1
        } else {
            f + 8
        }
    }
}

/// What taking the frame in `s` apart yields.
pub open spec fn unframe_spec(s: Seq<bool>, window: int) -> Result<Seq<bool>, CouplerError> {
    let start = payload_start(s, window);
    if start < 0 {
        Err(CouplerError::SyncNotFound)
    } else {
        let end = last_match(s, start_flag(), start, s.len() as int);
        if end < 0 {
            Err(CouplerError::TruncatedFrame)
        } else {
            Ok(s.subrange(start, end))
        }
    }
}

/// The preamble as bits.
pub fn preamble_bits() -> (r: Vec<Bit>)
    ensures
        r@ == preamble(),
{
    let mut r: Vec<Bit> = Vec::new();
    let mut i: usize = 0;
    while i < 8
        invariant
            i <= 8,
            r.len() == i,
            forall|k: int| 0 <= k < i ==> r@[k] == PREAMBLE@[k],
        decreases 8 - i,
    {
        r.push(PREAMBLE[i]);
        i += 1;
    }
    assert(r@ =~= preamble());
    r
}

/// The start marker as bits.
pub fn start_flag_bits() -> (r: Vec<Bit>)
    ensures
        r@ == start_flag(),
{
    let mut r: Vec<Bit> = Vec::new();
    let mut i: usize = 0;
    while i < 8
        invariant
            i <= 8,
            r.len() == i,
            forall|k: int| 0 <= k < i ==> r@[k] == USFD@[k],
        decreases 8 - i,
    {
        r.push(USFD[i]);
        i += 1;
    }
    assert(r@ =~= start_flag());
    r
}

/// Appends the bits of `part` to `out`.
pub fn append_bits(out: &mut Vec<Bit>, part: &Vec<Bit>)
    ensures
        final(out)@ == old(out)@ + part@,
{
    let mut i: usize = 0;
    while i < part.len()
        invariant
            i <= part.len(),
            out@ == old(out)@ + part@.subrange(0, i as int),
        decreases part.len() - i,
    {
        out.push(part[i]);
        assert(out@ =~= old(out)@ + part@.subrange(0, i + 1));
        i += 1;
    }
    assert(part@.subrange(0, part.len() as int) =~= part@);
}

/// Wraps a payload into a frame.
pub fn frame(payload: &Vec<Bit>) -> (r: Vec<Bit>)
    ensures
        r@ == frame_spec(payload@),
{
    let pre = preamble_bits();
    let flag = start_flag_bits();
    let mut out: Vec<Bit> = Vec::new();
    assert(out@ + pre@ =~= pre@);
    append_bits(&mut out, &pre);
    append_bits(&mut out, &pre);
    append_bits(&mut out, &flag);
    append_bits(&mut out, payload);
    append_bits(&mut out, &flag);
    out
}

/// Whether `pat` stands in `s` at index `i`.
pub fn stands_at(s: &Vec<Bit>, pat: &Vec<Bit>, i: usize) -> (r: bool)
    ensures
        r == matches_at(s@, pat@, i as int),
{
    if pat.len() > s.len() || i > s.len() - pat.len() {
        return false;
    }
    let mut k: usize = 0;
    while k < pat.len()
        invariant
            k <= pat.len(),
            i + pat.len() <= s.len(),
            forall|j: int| 0 <= j < k ==> s@[i + j] == pat@[j],
        decreases pat.len() - k,
    {
        if s[i + k] != pat[k] {
            assert(s@.subrange(i as int, i + pat.len())[k as int] != pat@[k as int]);
            return false;
        }
        k += 1;
    }
    assert(s@.subrange(i as int, i + pat.len()) =~= pat@);
    true
}

/// Finds the first place from `from` on at which `pat` stands in `s` and ends
/// before `limit`.
pub fn find_first(s: &Vec<Bit>, pat: &Vec<Bit>, from: usize, limit: usize) -> (r: Option<usize>)
    ensures
        match r {
            Some(i) => i == first_match(s@, pat@, from as int, limit as int),
            None => first_match(s@, pat@, from as int, limit as int) == -1,
        },
{
    let mut i: usize = from;
    while i <= limit && pat.len() <= limit - i
        invariant
            from <= i,
            first_match(s@, pat@, from as int, limit as int) == first_match(
                s@,
                pat@,
                i as int,
                limit as int,
            ),
        decreases limit - i,
    {
        if stands_at(s, pat, i) {
            return Some(i);
        }
        if i == limit {
            assert(first_match(s@, pat@, i + 1, limit as int) == -1);
            return None;
        }
        i += 1;
    }
    None
}

/// Finds the last place from `from` on at which `pat` stands in `s` and ends
/// before `limit`.
pub fn find_last(s: &Vec<Bit>, pat: &Vec<Bit>, from: usize, limit: usize) -> (r: Option<usize>)
    ensures
        match r {
            Some(i) => i == last_match(s@, pat@, from as int, limit as int),
            None => last_match(s@, pat@, from as int, limit as int) == -1,
        },
{
    let mut lim: usize = limit;
    while from <= lim && pat.len() <= lim - from
        invariant
            lim <= limit,
            last_match(s@, pat@, from as int, limit as int) == last_match(
                s@,
                pat@,
                from as int,
                lim as int,
            ),
        decreases lim,
    {
        if stands_at(s, pat, lim - pat.len()) {
            return Some(lim - pat.len());
        }
        if lim == 0 {
            assert(last_match(s@, pat@, from as int, lim - 1) == -1);
            return None;
        }
        lim -= 1;
    }
    None
}

/// Takes a frame apart. The preamble and the start marker are looked for by
/// exact comparison among the first `window` bits of the stream; the payload
/// runs from behind that marker to the last marker in the stream.
pub fn unframe(stream: &Vec<Bit>, window: usize) -> (r: Result<Vec<Bit>, CouplerError>)
    ensures
        match unframe_spec(stream@, window as int) {
            Ok(payload) => r matches Ok(v) && v@ == payload,
            Err(e) => r == Err::<Vec<Bit>, CouplerError>(e),
        },
{
    let lim: usize = if window < stream.len() { window } else { stream.len() };
    let pre = preamble_bits();
    let flag = start_flag_bits();
    let p = match find_first(stream, &pre, 0, lim) {
        Some(p) => p,
        None => { return Err(CouplerError::SyncNotFound); },
    };
    assert(p + 8 <= lim) by {
        lemma_first_match_stands(stream@, pre@, 0, lim as int);
    }
    let f = match find_first(stream, &flag, p + 8, lim) {
        Some(f) => f,
        None => { return Err(CouplerError::SyncNotFound); },
    };
    assert(f + 8 <= lim) by {
        lemma_first_match_stands(stream@, flag@, p + 8, lim as int);
    }
    let start: usize = f + 8;
    let end = match find_last(stream, &flag, start, stream.len()) {
        Some(e) => e,
        None => { return Err(CouplerError::TruncatedFrame); },
    };
    assert(start <= end <= stream.len()) by {
        lemma_last_match_stands(stream@, flag@, start as int, stream.len() as int);
    }
    let mut out: Vec<Bit> = Vec::new();
    let mut i: usize = start;
    while i < end
        invariant
            start <= i <= end <= stream.len(),
            out@ == stream@.subrange(start as int, i as int),
        decreases end - i,
    {
        out.push(stream[i]);
        assert(out@ =~= stream@.subrange(start as int, i + 1));
        i += 1;
    }
    Ok(out)
}

/// What `first_match` finds is the least place in its range at which the
/// pattern stands.
pub proof fn lemma_first_match_stands(s: Seq<bool>, pat: Seq<bool>, from: int, limit: int)
    requires
        0 <= from,
    ensures
        first_match(s, pat, from, limit) == -1 || ({
            let i = first_match(s, pat, from, limit);
            from <= i && i + pat.len() <= limit && matches_at(s, pat, i)
        }),
        forall|j: int|
            from <= j && j + pat.len() <= limit && (j < first_match(s, pat, from, limit)
                || first_match(s, pat, from, limit) == -1) ==> !matches_at(s, pat, j),
    decreases limit - from + 1,
{
    if from + pat.len() <= limit && !matches_at(s, pat, from) {
        lemma_first_match_stands(s, pat, from + 1, limit);
    }
}

/// What `last_match` finds is the greatest place in its range at which the
/// pattern stands.
pub proof fn lemma_last_match_stands(s: Seq<bool>, pat: Seq<bool>, from: int, limit: int)
    requires
        0 <= from,
    ensures
        last_match(s, pat, from, limit) == -1 || ({
            let i = last_match(s, pat, from, limit);
            from <= i && i + pat.len() <= limit && matches_at(s, pat, i)
        }),
        forall|j: int|
            from <= j && j + pat.len() <= limit && (j > last_match(s, pat, from, limit))
                ==> !matches_at(s, pat, j),
    decreases limit - from + 1,
{
    if from + pat.len() <= limit && !matches_at(s, pat, limit - pat.len()) {
        lemma_last_match_stands(s, pat, from, limit - 1);
    }
}

/// In a frame the payload begins behind the header, whatever the payload is.
pub proof fn lemma_frame_payload_start(payload: Seq<bool>, window: int)
    requires
        window >= FRAME_HEADER_LEN,
    ensures
        payload_start(frame_spec(payload), window) == FRAME_HEADER_LEN,
{
    let s = frame_spec(payload);
    let lim = searched(s.len() as int, window);
    assert(s.len() == 32 + payload.len());
    assert(lim >= 24);
    let head = preamble() + preamble() + start_flag();
    assert(head.len() == 24);
    assert forall|j: int| 0 <= j < 24 implies s[j] == head[j] by {}
    assert(s.subrange(0, 8) =~= preamble());
    assert(s.subrange(16, 24) =~= start_flag());
    assert(first_match(s, preamble(), 0, lim) == 0);
    assert forall|i: int| 8 <= i < 15 implies !matches_at(s, start_flag(), i) by {
        let w = s.subrange(i, i + 8);
        assert(w[0] == s[i] && w[1] == s[i + 1]);
        assert(s[i] != s[i + 1]);
    }
    assert(!matches_at(s, start_flag(), 15)) by {
        let w = s.subrange(15, 23);
        assert(w[3] == s[18]);
    }
    reveal_with_fuel(first_match, 10);
    assert(first_match(s, start_flag(), 8, lim) == 16);
}

/// Taking apart the frame around a payload gives the payload back, for every
/// payload and every search window that covers the header.
pub proof fn lemma_unframe_inverts_frame(payload: Seq<bool>, window: int)
    requires
        window >= FRAME_HEADER_LEN,
    ensures
        unframe_spec(frame_spec(payload), window) == Ok::<Seq<bool>, CouplerError>(payload),
{
    let s = frame_spec(payload);
    lemma_frame_payload_start(payload, window);
    let n = s.len() as int;
    assert(n == 32 + payload.len());
    assert(s.subrange(n - 8, n) =~= start_flag());
    assert(last_match(s, start_flag(), 24, n) == n - 8);
    assert(s.subrange(24, n - 8) =~= payload);
}

} // verus!
