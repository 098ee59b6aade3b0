//! The numeric operations that the transform needs from its caller.
//!
//! Samples are values of a scalar type `S` that the library never inspects.
//! Whatever must be computed on them is handed in as a function, and every
//! contract of the library says which function was applied to which values.

use vstd::prelude::*;

verus! {

/// A complex number given by its real and imaginary part.
#[derive(Debug, PartialEq)]
pub struct Complex<S> {
    pub re: S,
    pub im: S,
}

impl<S: Copy> Copy for Complex<S> {

}

impl<S: Copy> Clone for Complex<S> {
    fn clone(&self) -> (c: Self)
        ensures
            c == *self,
    {
        *self
    }
}

/// The scalar constants and operations used by the transform.
pub struct Numerics<S, P, C, M, F> {
    /// The scalar zero.
    pub zero: S,
    /// The scalar one.
    pub one: S,
    /// Turns a position inside the window into a scalar.
    pub position: P,
    /// `taper(m, x)` is the raised cosine of period `m` at `x`, which is
    /// `1/2 - 1/2 cos(2 pi x / m)`.
    pub taper: C,
    /// The product of a sample and a window coefficient.
    pub scale: M,
    /// The discrete Fourier transform of one frame: as many numbers as the
    /// frame has samples, in order of ascending frequency.
    pub fft: F,
}

impl<S, P, C, M, F> Numerics<S, P, C, M, F> where
    P: Fn(usize) -> S,
    C: Fn(usize, S) -> S,
    M: Fn(Complex<S>, Complex<S>) -> Complex<S>,
    F: Fn(Vec<Complex<S>>) -> Vec<Complex<S>>,
 {
    /// The complex number zero.
    pub open spec fn origin(self) -> Complex<S> {
        Complex { re: self.zero, im: self.zero }
    }

    /// The raised cosine may be evaluated for every positive period.
    pub open spec fn tapers(self) -> bool {
        forall|m: usize, x: S| m > 0 ==> call_requires(self.taper, (m, x))
    }

    /// Every window position has a scalar.
    pub open spec fn positions(self) -> bool {
        forall|k: usize| call_requires(self.position, (k,))
    }

    /// Every pair of numbers has a product.
    pub open spec fn scales(self) -> bool {
        forall|a: Complex<S>, b: Complex<S>| call_requires(self.scale, (a, b))
    }

    /// Every frame of `n_fft` samples has a transform.
    pub open spec fn transforms(self, n_fft: nat) -> bool {
        forall|v: Vec<Complex<S>>| v@.len() == n_fft ==> call_requires(self.fft, (v,))
    }

    /// All that a transform of size `n_fft` asks of the operations.
    pub open spec fn serves(self, n_fft: nat) -> bool {
        &&& self.tapers()
        &&& self.positions()
        &&& self.scales()
        &&& self.transforms(n_fft)
    }
}

} // verus!
