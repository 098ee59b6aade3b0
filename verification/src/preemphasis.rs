//! Pre-emphasis: every sample is combined with the sample before it.

use vstd::prelude::*;

verus! {

/// The sample that precedes position `n` of `signal`, with `zero` before
/// the first one.
pub open spec fn preceding<S>(signal: Seq<S>, zero: S, n: int) -> S {
    if n == 0 {
        zero
    } else {
        signal[n - 1]
    }
}

/// Whether `out` is `signal` after pre-emphasis: as long as the signal,
/// with every sample replaced by a result of `emphasise` on the sample and
/// the one before it.
pub open spec fn is_preemphasis<S, K: Fn(S, S) -> S>(
    signal: Seq<S>,
    zero: S,
    emphasise: K,
    out: Seq<S>,
) -> bool {
    &&& out.len() == signal.len()
    &&& forall|n: int|
        0 <= n < signal.len() ==> call_ensures(
            emphasise,
            (signal[n], preceding(signal, zero, n)),
            #[trigger] out[n],
        )
}

/// Signals that pre-emphasis can be applied to.
pub trait PreemphasisExt<S: Copy> {
    /// The samples of the signal.
    spec fn samples(&self) -> Seq<S>;

    /// Applies pre-emphasis to the signal. `emphasise(x, before)` is meant
    /// to be `x - coefficient * before` for the coefficient of the filter.
    fn preemphasis<K: Fn(S, S) -> S>(&self, zero: S, emphasise: &K) -> (out: Vec<S>)
        requires
            forall|x: S, y: S| call_requires(*emphasise, (x, y)),
        ensures
            is_preemphasis(self.samples(), zero, *emphasise, out@),
    ;
}

impl<S: Copy> PreemphasisExt<S> for [S] {
    open spec fn samples(&self) -> Seq<S> {
        self@
    }

    fn preemphasis<K: Fn(S, S) -> S>(&self, zero: S, emphasise: &K) -> (out: Vec<S>) {
        let len = self.len();
        let mut out: Vec<S> = Vec::with_capacity(len);
        let mut before = zero;
        let mut n: usize = 0;
        while n < len
            invariant
                forall|x: S, y: S| call_requires(*emphasise, (x, y)),
                len == self@.len(),
                n <= len,
                out@.len() == n,
                before == preceding(self@, zero, n as int),
                forall|q: int|
                    0 <= q < n ==> call_ensures(
                        *emphasise,
                        (self@[q], preceding(self@, zero, q)),
                        #[trigger] out@[q],
                    ),
            decreases len - n,
        {
            let x = self[n];
            let y = emphasise(x, before);
            out.push(y);
            before = x;
            n = n + 1;
        }
        out
    }
}

} // verus!
