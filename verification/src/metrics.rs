//! Scalar measures of a signal: its mean power and the root of that.

use vstd::prelude::*;

verus! {

/// Whether `total` is a sum of the squares of `samples`, taken from the
/// first sample to the last and starting from `zero`. `add_square(acc, x)`
/// is meant to be `acc` plus the square of `x`.
pub open spec fn is_sum_of_squares<X, S, Q: Fn(S, X) -> S>(
    samples: Seq<X>,
    zero: S,
    add_square: Q,
    total: S,
) -> bool
    decreases samples.len(),
{
    if samples.len() == 0 {
        total == zero
    } else {
        exists|partial: S|
            is_sum_of_squares(samples.drop_last(), zero, add_square, partial)
                && #[trigger] call_ensures(add_square, (partial, samples.last()), total)
    }
}

/// Whether `out` is the power of `samples`: a sum of their squares,
/// averaged over their number by `average`.
pub open spec fn is_power<X, S, Q: Fn(S, X) -> S, D: Fn(S, usize) -> S>(
    samples: Seq<X>,
    zero: S,
    add_square: Q,
    average: D,
    out: S,
) -> bool {
    exists|total: S|
        is_sum_of_squares(samples, zero, add_square, total) && call_ensures(
            average,
            (total, samples.len() as usize),
            out,
        )
}

/// The power of a signal: the mean of the squares of its samples.
pub fn power<X: Copy, S, Q: Fn(S, X) -> S, D: Fn(S, usize) -> S>(
    samples: &[X],
    zero: S,
    add_square: &Q,
    average: &D,
) -> (out: S)
    requires
        forall|acc: S, x: X| call_requires(*add_square, (acc, x)),
        forall|total: S, n: usize| call_requires(*average, (total, n)),
    ensures
        is_power(samples@, zero, *add_square, *average, out),
{
    let len = samples.len();
    let mut total = zero;
    let mut n: usize = 0;
    while n < len
        invariant
            forall|acc: S, x: X| call_requires(*add_square, (acc, x)),
            len == samples@.len(),
            n <= len,
            is_sum_of_squares(samples@.take(n as int), zero, *add_square, total),
        decreases len - n,
    {
        let ghost partial = total;
        total = add_square(total, samples[n]);
        proof {
            let longer = samples@.take(n + 1);
            assert(longer.drop_last() =~= samples@.take(n as int));
            assert(call_ensures(*add_square, (partial, longer.last()), total));
        }
        n = n + 1;
    }
    assert(samples@.take(len as int) =~= samples@);
    average(total, len)
}

/// The root mean square of a signal: the root of its power.
pub fn rms<X: Copy, S, Q: Fn(S, X) -> S, D: Fn(S, usize) -> S, T: Fn(S) -> S>(
    samples: &[X],
    zero: S,
    add_square: &Q,
    average: &D,
    root: &T,
) -> (out: S)
    requires
        forall|acc: S, x: X| call_requires(*add_square, (acc, x)),
        forall|total: S, n: usize| call_requires(*average, (total, n)),
        forall|p: S| call_requires(*root, (p,)),
    ensures
        exists|p: S|
            is_power(samples@, zero, *add_square, *average, p) && call_ensures(*root, (p,), out),
{
    let p = power(samples, zero, add_square, average);
    root(p)
}

} // verus!
