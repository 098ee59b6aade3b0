//! Boundary padding by reflection.
//!
//! A signal of `n >= 2` samples is continued beyond both ends by walking
//! back inward from the boundary sample and turning around whenever the walk
//! reaches the first or the last sample. The boundary samples themselves are
//! never repeated back to back, so the continuation has period `2 * n - 2`.

use vstd::arithmetic::div_mod::{lemma_fundamental_div_mod, lemma_fundamental_div_mod_converse};
use vstd::prelude::*;

verus! {

/// The index of the sample that the continued signal shows at position `t`,
/// where position `0` is the first sample and `t` may lie on either side of
/// the signal. Meant for `n >= 2`.
pub open spec fn reflect_index(t: int, n: int) -> int {
    let period = 2 * n - 2;
    let m = t % period;
    if m < n {
        m
    } else {
        period - m
    }
}

/// The signal `s` continued by `pad` reflected samples on each side.
pub open spec fn spec_reflect_pad<T>(s: Seq<T>, pad: nat) -> Seq<T> {
    Seq::new(s.len() + 2 * pad, |k: int| s[reflect_index(k - pad, s.len() as int)])
}

/// The remainder of `x + 1` follows from that of `x`.
proof fn lemma_mod_succ(x: int, p: int)
    requires
        p > 0,
    ensures
        (x + 1) % p == if x % p == p - 1 {
            0
        } else {
            x % p + 1
        },
{
    let q = x / p;
    let r = x % p;
    lemma_fundamental_div_mod(x, p);
    if r == p - 1 {
        assert(x + 1 == (q + 1) * p + 0) by (nonlinear_arith)
            requires
                x == p * q + r,
                r == p - 1,
        ;
        lemma_fundamental_div_mod_converse(x + 1, p, q + 1, 0);
    } else {
        assert(x + 1 == q * p + (r + 1)) by (nonlinear_arith)
            requires
                x == p * q + r,
        ;
        lemma_fundamental_div_mod_converse(x + 1, p, q, r + 1);
    }
}

/// The remainder of `-x` follows from that of `x`.
proof fn lemma_mod_neg(x: int, p: int)
    requires
        p > 0,
    ensures
        (-x) % p == if x % p == 0 {
            0
        } else {
            p - x % p
        },
{
    let q = x / p;
    let r = x % p;
    lemma_fundamental_div_mod(x, p);
    if r == 0 {
        assert(-x == (-q) * p + 0) by (nonlinear_arith)
            requires
                x == p * q + r,
                r == 0,
        ;
        lemma_fundamental_div_mod_converse(-x, p, -q, 0);
    } else {
        assert(-x == (-q - 1) * p + (p - r)) by (nonlinear_arith)
            requires
                x == p * q + r,
        ;
        lemma_fundamental_div_mod_converse(-x, p, -q - 1, p - r);
    }
}

/// Every position of the continued signal shows a sample of the signal.
pub proof fn lemma_reflect_in_range(t: int, n: int)
    requires
        n >= 2,
    ensures
        0 <= reflect_index(t, n) < n,
{
}

/// Inside the signal nothing changes: position `t` shows sample `t`.
pub proof fn lemma_reflect_inside(t: int, n: int)
    requires
        n >= 2,
        0 <= t < n,
    ensures
        reflect_index(t, n) == t,
{
    lemma_fundamental_div_mod_converse(t, 2 * n - 2, 0, t);
}

/// The continuation repeats with period `2 * n - 2`.
pub proof fn lemma_reflect_periodic(t: int, n: int)
    requires
        n >= 2,
    ensures
        reflect_index(t + (2 * n - 2), n) == reflect_index(t, n),
{
    let p = 2 * n - 2;
    lemma_fundamental_div_mod(t, p);
    assert(t + p == (t / p + 1) * p + t % p) by (nonlinear_arith)
        requires
            t == p * (t / p) + t % p,
    ;
    lemma_fundamental_div_mod_converse(t + p, p, t / p + 1, t % p);
}

/// The continuation is a mirror image about the first sample.
pub proof fn lemma_reflect_mirror_start(t: int, n: int)
    requires
        n >= 2,
    ensures
        reflect_index(-t, n) == reflect_index(t, n),
{
    lemma_mod_neg(t, 2 * n - 2);
}

/// The continuation is a mirror image about the last sample.
pub proof fn lemma_reflect_mirror_end(d: int, n: int)
    requires
        n >= 2,
    ensures
        reflect_index((n - 1) + d, n) == reflect_index((n - 1) - d, n),
{
    // Mirror about the first sample, then shift by one period.
    lemma_reflect_mirror_start((n - 1) + d, n);
    lemma_reflect_periodic(-(n - 1) - d, n);
}

/// The walk moves by exactly one sample per position, upward after the
/// first sample and downward after the last.
pub proof fn lemma_reflect_step(t: int, n: int)
    requires
        n >= 2,
    ensures
        reflect_index(t + 1, n) == if t % (2 * n - 2) < n - 1 {
            reflect_index(t, n) + 1
        } else {
            reflect_index(t, n) - 1
        },
{
    lemma_mod_succ(t, 2 * n - 2);
}

/// Padding keeps the signal: it stands unchanged between the two
/// continuations.
pub proof fn lemma_pad_keeps_signal<T>(s: Seq<T>, pad: nat, k: int)
    requires
        s.len() >= 2,
        0 <= k < s.len(),
    ensures
        spec_reflect_pad(s, pad)[pad + k] == s[k],
{
    lemma_reflect_inside(k, s.len() as int);
}

/// The padded signal reads the same in both directions from the first
/// sample of the signal, and from its last sample, as far as the padding
/// reaches.
pub proof fn lemma_pad_mirrors<T>(s: Seq<T>, pad: nat, d: int)
    requires
        s.len() >= 2,
        0 <= d <= pad,
    ensures
        spec_reflect_pad(s, pad)[pad - d] == spec_reflect_pad(s, pad)[pad + d],
        spec_reflect_pad(s, pad)[pad + s.len() - 1 + d] == spec_reflect_pad(s, pad)[pad + s.len()
            - 1 - d],
{
    lemma_reflect_mirror_start(d, s.len() as int);
    lemma_reflect_mirror_end(d, s.len() as int);
}

/// Continues `arr` by `pad` reflected samples on each side.
pub fn reflect_pad<T: Copy>(arr: &mut Vec<T>, pad: usize)
    requires
        old(arr).len() >= 2,
        old(arr).len() + 2 * pad <= usize::MAX,
    ensures
        final(arr)@ == spec_reflect_pad(old(arr)@, pad as nat),
{
    let n = arr.len();
    let ghost orig = arr@;
    let ghost period = 2 * n - 2;
    // Walk inward from the sample before the last one.
    let mut pos: usize = n - 2;
    let mut rising = false;
    proof {
        lemma_mod_succ(n as int - 1, period);
        lemma_fundamental_div_mod_converse(n as int - 1, period, 0, n as int - 1);
        assert forall|i: int| 0 <= i < n implies arr@[i] == orig[reflect_index(i, n as int)] by {
            lemma_reflect_inside(i, n as int);
        }
    }
    let mut k: usize = 0;
    while k < pad
        invariant
            n >= 2,
            n == orig.len(),
            period == 2 * n - 2,
            n + 2 * pad <= usize::MAX,
            k <= pad,
            arr@.len() == n + k,
            pos < n,
            pos == reflect_index(n + k, n as int),
            rising <==> 1 <= (n + k) % period <= n - 1,
            forall|i: int| 0 <= i < n + k ==> arr@[i] == orig[reflect_index(i, n as int)],
        decreases pad - k,
    {
        let x = arr[pos];
        proof {
            lemma_reflect_inside(pos as int, n as int);
            lemma_mod_succ((n + k) as int, period);
        }
        arr.push(x);
        if pos == 0 {
            rising = true;
        } else if pos == n - 1 {
            rising = false;
        }
        if rising {
            pos = pos + 1;
        } else {
            pos = pos - 1;
        }
        k = k + 1;
    }
    // The left side mirrors what now follows the first sample.
    let total = n + 2 * pad;
    let mut out: Vec<T> = Vec::with_capacity(total);
    let mut j: usize = 0;
    while j < pad
        invariant
            n >= 2,
            n == orig.len(),
            n + 2 * pad <= usize::MAX,
            j <= pad,
            arr@.len() == n + pad,
            out@.len() == j,
            forall|i: int| 0 <= i < n + pad ==> arr@[i] == orig[reflect_index(i, n as int)],
            forall|i: int| 0 <= i < j ==> out@[i] == orig[reflect_index(i - pad, n as int)],
        decreases pad - j,
    {
        proof {
            lemma_reflect_mirror_start((pad - j) as int, n as int);
        }
        out.push(arr[pad - j]);
        j = j + 1;
    }
    let mut i: usize = 0;
    while i < n + pad
        invariant
            n >= 2,
            n == orig.len(),
            n + 2 * pad <= usize::MAX,
            i <= n + pad,
            arr@.len() == n + pad,
            out@.len() == pad + i,
            forall|q: int| 0 <= q < n + pad ==> arr@[q] == orig[reflect_index(q, n as int)],
            forall|q: int| 0 <= q < pad + i ==> out@[q] == orig[reflect_index(q - pad, n as int)],
        decreases n + pad - i,
    {
        out.push(arr[i]);
        i = i + 1;
    }
    *arr = out;
}

} // verus!
