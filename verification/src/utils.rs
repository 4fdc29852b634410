//! Helpers on sequences.

use vstd::prelude::*;

verus! {

/// The sequence in which each item of `s` stands `n` times in a row.
pub open spec fn repeat_spec<T>(s: Seq<T>, n: nat) -> Seq<T> {
    Seq::new(s.len() * n, |i: int| s[i / n as int])
}

/// Holds each item for `n` places: the result has `n` copies of the first
/// item, then `n` of the second, and so on.
pub fn repeat<T: Copy>(data: Vec<T>, n: usize) -> (r: Vec<T>)
    ensures
        r@ == repeat_spec(data@, n as nat),
{
    let mut out: Vec<T> = Vec::new();
    let mut i: usize = 0;
    while i < data.len()
        invariant
            i <= data.len(),
            out.len() == i * n,
            forall|t: int| 0 <= t < i * n ==> out@[t] == data@[t / n as int],
        decreases data.len() - i,
    {
        let x: T = data[i];
        let mut j: usize = 0;
        while j < n
            invariant
                i < data.len(),
                j <= n,
                x == data@[i as int],
                out.len() == i * n + j,
                forall|t: int| 0 <= t < i * n + j ==> out@[t] == data@[t / n as int],
            decreases n - j,
        {
            proof {
                vstd::arithmetic::div_mod::lemma_fundamental_div_mod_converse(
                    i * n + j,
                    n as int,
                    i as int,
                    j as int,
                );
            }
            out.push(x);
            j += 1;
        }
        assert((i + 1) * n == i * n + n) by (nonlinear_arith);
        i += 1;
    }
    assert(out@ =~= repeat_spec(data@, n as nat));
    out
}

} // verus!
