//! Evaluation of the taper.

use crate::config::WindowingAlgorithm;
use crate::numeric::{Complex, Numerics};
use vstd::prelude::*;

verus! {

impl WindowingAlgorithm {
    /// The length that the taper is shaped for.
    pub open spec fn spec_len(self) -> nat {
        match self {
            WindowingAlgorithm::Hann(len) => len as nat,
        }
    }

    /// The period of the raised cosine: the length itself when it is odd,
    /// one more when it is even.
    pub open spec fn spec_period(self) -> nat {
        if self.spec_len() % 2 == 0 {
            self.spec_len() + 1
        } else {
            self.spec_len()
        }
    }

    /// Whether `out` is the taper applied to `n`. A taper of length one
    /// yields the number one. Any longer taper applies the raised cosine to
    /// the real and to the imaginary part, each on its own.
    pub open spec fn windowed<S, P, C, M, F>(
        self,
        n: Complex<S>,
        num: Numerics<S, P, C, M, F>,
        out: Complex<S>,
    ) -> bool where
        P: Fn(usize) -> S,
        C: Fn(usize, S) -> S,
        M: Fn(Complex<S>, Complex<S>) -> Complex<S>,
        F: Fn(Vec<Complex<S>>) -> Vec<Complex<S>>,
     {
        if self.spec_len() == 1 {
            out == (Complex { re: num.one, im: num.zero })
        } else {
            &&& call_ensures(num.taper, (self.spec_period() as usize, n.re), out.re)
            &&& call_ensures(num.taper, (self.spec_period() as usize, n.im), out.im)
        }
    }

    /// The length that the taper is shaped for.
    pub fn len(self) -> (len: usize)
        ensures
            len == self.spec_len(),
    {
        match self {
            WindowingAlgorithm::Hann(len) => len,
        }
    }

    /// The period of the raised cosine.
    pub fn period(self) -> (m: usize)
        ensures
            m == self.spec_period(),
    {
        let len = self.len();
        if len % 2 == 0 {
            len + 1
        } else {
            len
        }
    }

    /// Applies the taper to `n`.
    pub fn run<S: Copy, P, C, M, F>(self, n: Complex<S>, num: &Numerics<S, P, C, M, F>) -> (out:
        Complex<S>) where
        P: Fn(usize) -> S,
        C: Fn(usize, S) -> S,
        M: Fn(Complex<S>, Complex<S>) -> Complex<S>,
        F: Fn(Vec<Complex<S>>) -> Vec<Complex<S>>,

        requires
            self.spec_len() > 0,
            num.tapers(),
        ensures
            self.windowed(n, *num, out),
    {
        let mut out = n;
        self.run_inplace(&mut out, num);
        out
    }

    /// Applies the taper to `n` in place.
    pub fn run_inplace<S: Copy, P, C, M, F>(
        self,
        n: &mut Complex<S>,
        num: &Numerics<S, P, C, M, F>,
    ) where
        P: Fn(usize) -> S,
        C: Fn(usize, S) -> S,
        M: Fn(Complex<S>, Complex<S>) -> Complex<S>,
        F: Fn(Vec<Complex<S>>) -> Vec<Complex<S>>,

        requires
            self.spec_len() > 0,
            num.tapers(),
        ensures
            self.windowed(*old(n), *num, *final(n)),
    {
        let len = self.len();
        if len == 1 {
            n.re = num.one;
            n.im = num.zero;
        } else {
            let m = self.period();
            let taper = &num.taper;
            n.re = taper(m, n.re);
            n.im = taper(m, n.im);
        }
    }
}

} // verus!
