//! Features derived from a transform: the spectrogram, and the case
//! analysis behind the phase of a complex number.

use crate::config::ShortTimeFourierTransform;
use crate::matrix::{is_mapped, Matrix};
use crate::numeric::{Complex, Numerics};
use vstd::prelude::*;

verus! {

/// The exponent of a spectrogram: the given one, or `one` when none is
/// given.
pub open spec fn exponent<S>(power: Option<S>, one: S) -> S {
    match power {
        Some(p) => p,
        None => one,
    }
}

/// Whether `out` has the shape of `m` and every cell of `out` is a result
/// of `raise` on the cell of `m` in the same place and the exponent `p`.
pub open spec fn is_raised<S, R: Fn(S, S) -> S>(
    m: Seq<Seq<S>>,
    raise: R,
    p: S,
    out: Seq<Seq<S>>,
) -> bool {
    &&& out.len() == m.len()
    &&& forall|r: int| 0 <= r < m.len() ==> (#[trigger] out[r]).len() == m[r].len()
    &&& forall|r: int, c: int|
        0 <= r < m.len() && 0 <= c < m[r].len() ==> call_ensures(
            raise,
            (m[r][c], p),
            #[trigger] out[r][c],
        )
}

/// Whether `out` is the spectrogram of the transform `m`: the magnitude of
/// every cell of `m`, raised to the exponent.
pub open spec fn is_spectrum_of<S, A, R>(
    m: Seq<Seq<Complex<S>>>,
    power: Option<S>,
    one: S,
    magnitude: A,
    raise: R,
    out: Seq<Seq<S>>,
) -> bool where A: Fn(Complex<S>) -> S, R: Fn(S, S) -> S {
    exists|mag: Seq<Seq<S>>|
        is_mapped(m, magnitude, mag) && is_raised(mag, raise, exponent(power, one), out)
}

/// Where raising to the exponent changes nothing, the spectrogram is the
/// magnitude: with an exponent `p` such that `raise(x, p)` is `x` for every
/// `x`, every cell of the spectrogram is a magnitude of the cell of the
/// transform in the same place.
pub proof fn lemma_neutral_power_keeps_magnitude<S, A, R>(
    m: Seq<Seq<Complex<S>>>,
    power: Option<S>,
    one: S,
    magnitude: A,
    raise: R,
    out: Seq<Seq<S>>,
) where A: Fn(Complex<S>) -> S, R: Fn(S, S) -> S
    requires
        is_spectrum_of(m, power, one, magnitude, raise, out),
        forall|x: S, y: S| call_ensures(raise, (x, exponent(power, one)), y) ==> y == x,
    ensures
        is_mapped(m, magnitude, out),
{
    let mag = choose|mag: Seq<Seq<S>>|
        is_mapped(m, magnitude, mag) && is_raised(mag, raise, exponent(power, one), out);
    assert forall|r: int, c: int| 0 <= r < m.len() && 0 <= c < m[r].len() implies call_ensures(
        magnitude,
        (m[r][c],),
        #[trigger] out[r][c],
    ) by {
        assert(mag[r].len() == m[r].len());
        assert(call_ensures(raise, (mag[r][c], exponent(power, one)), out[r][c]));
    }
}

/// Raises every cell of `m` to the exponent `p`.
pub fn raised<S: Copy, R: Fn(S, S) -> S>(m: &Matrix<S>, p: S, raise: &R) -> (out: Matrix<S>)
    requires
        forall|x: S, y: S| call_requires(*raise, (x, y)),
    ensures
        out.wf(),
        out.spec_cols() == m.spec_cols(),
        is_raised(m@, *raise, p, out@),
{
    let cell = |x: S| -> (y: S)
        ensures
            call_ensures(*raise, (x, p), y),
        { raise(x, p) };
    m.map(&cell)
}

/// The spectrogram of the transform `m`: the magnitudes of its cells,
/// raised to `power`, or to `one` when no power is given.
pub fn spectrum_of<S: Copy, A, R>(
    m: &Matrix<Complex<S>>,
    power: Option<S>,
    one: S,
    magnitude: &A,
    raise: &R,
) -> (out: Matrix<S>) where A: Fn(Complex<S>) -> S, R: Fn(S, S) -> S
    requires
        forall|x: Complex<S>| call_requires(*magnitude, (x,)),
        forall|x: S, y: S| call_requires(*raise, (x, y)),
    ensures
        out.wf(),
        out.spec_rows() == m.spec_rows(),
        out.spec_cols() == m.spec_cols(),
        is_spectrum_of(m@, power, one, *magnitude, *raise, out@),
{
    let p = match power {
        Some(p) => p,
        None => one,
    };
    let magnitudes = m.mag(magnitude);
    raised(&magnitudes, p, raise)
}

/// Signals that have a spectrogram.
pub trait SpectrumExt<S: Copy> {
    /// The samples of the signal.
    spec fn samples(&self) -> Seq<S>;

    /// The spectrogram of the signal: the spectrogram, as `spectrum_of`
    /// gives it, of its short-time Fourier transform as
    /// `ShortTimeFourierTransform::run` gives it. There is no result exactly
    /// when the transform has none.
    fn spectrum<P, C, M, F, A, R>(
        &self,
        stft: ShortTimeFourierTransform,
        power: Option<S>,
        num: &Numerics<S, P, C, M, F>,
        magnitude: &A,
        raise: &R,
    ) -> (res: Option<Matrix<S>>) where
        P: Fn(usize) -> S,
        C: Fn(usize, S) -> S,
        M: Fn(Complex<S>, Complex<S>) -> Complex<S>,
        F: Fn(Vec<Complex<S>>) -> Vec<Complex<S>>,
        A: Fn(Complex<S>) -> S,
        R: Fn(S, S) -> S,

        requires
            self.samples().len() >= 2 ==> {
                &&& stft@.runnable()
                &&& num.serves(stft@.n_fft)
                &&& self.samples().len() + 2 * stft@.pad_width() <= usize::MAX
            },
            forall|x: Complex<S>| call_requires(*magnitude, (x,)),
            forall|x: S, y: S| call_requires(*raise, (x, y)),
        ensures
            self.samples().len() < 2 ==> res is None,
            res is Some <==> stft@.produces(self.samples().len()),
            res matches Some(sp) ==> {
                &&& sp.wf()
                &&& sp.spec_rows() == stft@.bins()
                &&& sp.spec_cols() == stft@.frame_count(stft@.padded_len(self.samples().len()))
                &&& exists|m: Seq<Seq<Complex<S>>>|
                    stft@.is_stft(self.samples(), *num, m) && is_spectrum_of(
                        m,
                        power,
                        num.one,
                        *magnitude,
                        *raise,
                        sp@,
                    )
            },
    ;
}

impl<S: Copy> SpectrumExt<S> for [S] {
    open spec fn samples(&self) -> Seq<S> {
        self@
    }

    fn spectrum<P, C, M, F, A, R>(
        &self,
        stft: ShortTimeFourierTransform,
        power: Option<S>,
        num: &Numerics<S, P, C, M, F>,
        magnitude: &A,
        raise: &R,
    ) -> (res: Option<Matrix<S>>) where
        P: Fn(usize) -> S,
        C: Fn(usize, S) -> S,
        M: Fn(Complex<S>, Complex<S>) -> Complex<S>,
        F: Fn(Vec<Complex<S>>) -> Vec<Complex<S>>,
        A: Fn(Complex<S>) -> S,
        R: Fn(S, S) -> S,
     {
        match stft.run(self, num) {
            Some(m) => Some(spectrum_of(&m, power, num.one, magnitude, raise)),
            None => None,
        }
    }
}

/// Which formula gives the phase of a complex number.
#[derive(Copy, Clone, Debug, PartialEq, Eq, Structural)]
pub enum PhaseBranch {
    /// Twice the arc tangent of `im / (modulus + re)`.
    HalfAngle,
    /// The straight angle, pi.
    StraightAngle,
    /// No phase: the result is not a number.
    Undefined,
}

/// Four tests on the parts of a complex number, taken before its phase.
#[derive(Copy, Clone, Debug, PartialEq, Eq, Structural)]
pub struct PartTests {
    /// The real part is above zero.
    pub re_positive: bool,
    /// The imaginary part is farther from zero than the tolerance.
    pub im_beyond: bool,
    /// The real part is below zero.
    pub re_negative: bool,
    /// The imaginary part is within the tolerance of zero.
    pub im_within: bool,
}

/// The formula for the phase of a number with the test results `t`.
///
/// The half-angle formula holds off the negative real axis. On that axis
/// the phase is the straight angle. What is left has no phase: the number
/// zero, and numbers for which the tests cannot tell.
pub open spec fn spec_phase_branch(t: PartTests) -> PhaseBranch {
    if t.re_positive || t.im_beyond {
        PhaseBranch::HalfAngle
    } else if t.re_negative && t.im_within {
        PhaseBranch::StraightAngle
    } else {
        PhaseBranch::Undefined
    }
}

/// Whether `out` is a phase of `x`: the value that the formula chosen by
/// the tests on `x` gives.
pub open spec fn is_phase_of<S, K, H>(
    x: Complex<S>,
    tests: K,
    half_angle: H,
    straight: S,
    undefined: S,
    out: S,
) -> bool where K: Fn(Complex<S>) -> PartTests, H: Fn(Complex<S>) -> S {
    exists|t: PartTests|
        call_ensures(tests, (x,), t) && match spec_phase_branch(t) {
            PhaseBranch::HalfAngle => call_ensures(half_angle, (x,), out),
            PhaseBranch::StraightAngle => out == straight,
            PhaseBranch::Undefined => out == undefined,
        }
}

/// Whether `out` has the shape of `m` and every cell of `out` is a phase
/// of the cell of `m` in the same place.
pub open spec fn is_phase<S, K, H>(
    m: Seq<Seq<Complex<S>>>,
    tests: K,
    half_angle: H,
    straight: S,
    undefined: S,
    out: Seq<Seq<S>>,
) -> bool where K: Fn(Complex<S>) -> PartTests, H: Fn(Complex<S>) -> S {
    &&& out.len() == m.len()
    &&& forall|r: int| 0 <= r < m.len() ==> (#[trigger] out[r]).len() == m[r].len()
    &&& forall|r: int, c: int|
        0 <= r < m.len() && 0 <= c < m[r].len() ==> is_phase_of(
            m[r][c],
            tests,
            half_angle,
            straight,
            undefined,
            #[trigger] out[r][c],
        )
}

/// A number that the tests place in no branch has the undefined phase,
/// and no other.
pub proof fn lemma_phase_without_branch<S, K, H>(
    x: Complex<S>,
    tests: K,
    half_angle: H,
    straight: S,
    undefined: S,
    out: S,
) where K: Fn(Complex<S>) -> PartTests, H: Fn(Complex<S>) -> S
    requires
        is_phase_of(x, tests, half_angle, straight, undefined, out),
        forall|t: PartTests|
            call_ensures(tests, (x,), t) ==> spec_phase_branch(t) == PhaseBranch::Undefined,
    ensures
        out == undefined,
{
}

/// Chooses the formula for the phase of a number from the tests on its
/// parts.
pub fn phase_branch(t: PartTests) -> (b: PhaseBranch)
    ensures
        b == spec_phase_branch(t),
{
    if t.re_positive || t.im_beyond {
        PhaseBranch::HalfAngle
    } else if t.re_negative && t.im_within {
        PhaseBranch::StraightAngle
    } else {
        PhaseBranch::Undefined
    }
}

/// The phase of `x`: `half_angle` of it off the negative real axis,
/// `straight` on that axis, and `undefined` where the tests place it in
/// neither.
pub fn phase_of<S: Copy, K, H>(
    x: Complex<S>,
    tests: &K,
    half_angle: &H,
    straight: S,
    undefined: S,
) -> (out: S) where K: Fn(Complex<S>) -> PartTests, H: Fn(Complex<S>) -> S
    requires
        call_requires(*tests, (x,)),
        call_requires(*half_angle, (x,)),
    ensures
        is_phase_of(x, *tests, *half_angle, straight, undefined, out),
{
    let t = tests(x);
    match phase_branch(t) {
        PhaseBranch::HalfAngle => half_angle(x),
        PhaseBranch::StraightAngle => straight,
        PhaseBranch::Undefined => undefined,
    }
}

/// Tables of complex numbers, which have a magnitude and a phase in every
/// cell.
pub trait FrequencyComponents<S: Copy> {
    /// The complex numbers of the table, row by row.
    spec fn components(&self) -> Seq<Seq<Complex<S>>>;

    /// The number of cells in every row of the table.
    spec fn width(&self) -> nat;

    /// The magnitude of every cell.
    fn mag<A: Fn(Complex<S>) -> S>(&self, magnitude: &A) -> (out: Matrix<S>)
        requires
            forall|x: Complex<S>| call_requires(*magnitude, (x,)),
        ensures
            out.wf(),
            out.spec_rows() == self.components().len(),
            out.spec_cols() == self.width(),
            is_mapped(self.components(), *magnitude, out@),
    ;

    /// The phase of every cell.
    fn phase<K, H>(&self, tests: &K, half_angle: &H, straight: S, undefined: S) -> (out: Matrix<
        S,
    >) where K: Fn(Complex<S>) -> PartTests, H: Fn(Complex<S>) -> S
        requires
            forall|x: Complex<S>| call_requires(*tests, (x,)),
            forall|x: Complex<S>| call_requires(*half_angle, (x,)),
        ensures
            out.wf(),
            out.spec_rows() == self.components().len(),
            out.spec_cols() == self.width(),
            is_phase(self.components(), *tests, *half_angle, straight, undefined, out@),
    ;
}

impl<S: Copy> FrequencyComponents<S> for Matrix<Complex<S>> {
    open spec fn components(&self) -> Seq<Seq<Complex<S>>> {
        self@
    }

    open spec fn width(&self) -> nat {
        self.spec_cols()
    }

    fn mag<A: Fn(Complex<S>) -> S>(&self, magnitude: &A) -> (out: Matrix<S>) {
        self.map(magnitude)
    }

    fn phase<K, H>(&self, tests: &K, half_angle: &H, straight: S, undefined: S) -> (out: Matrix<
        S,
    >) where K: Fn(Complex<S>) -> PartTests, H: Fn(Complex<S>) -> S {
        let cell = |x: Complex<S>| -> (y: S)
            ensures
                is_phase_of(x, *tests, *half_angle, straight, undefined, y),
            { phase_of(x, tests, half_angle, straight, undefined) };
        self.map(&cell)
    }
}

} // verus!
