//! The layout of a transform: how far the signal is padded, how many frames
//! it yields, where each frame starts and where the window sits in a frame.

use crate::config::{PadMode, ShortTimeFourierTransform, StftModel};
use crate::padding::{lemma_pad_keeps_signal, spec_reflect_pad};
use vstd::arithmetic::div_mod::{lemma_div_plus_one, lemma_remainder_lower, lemma_remainder_upper};
use vstd::arithmetic::mul::lemma_mul_inequality;
use vstd::prelude::*;

verus! {

/// The least number of steps of size `b` that reach `a`: the quotient
/// `a / b` rounded up. Meant for `b > 0`.
pub open spec fn ceil_div(a: nat, b: nat) -> nat {
    ((a + b - 1) / (b as int)) as nat
}

impl StftModel {
    /// Number of frequency bins kept of every transformed frame: the half
    /// of the spectrum that holds no mirrored values.
    pub open spec fn bins(self) -> nat {
        self.n_fft / 2 + 1
    }

    /// Number of samples added on each side of the signal.
    pub open spec fn pad_width(self) -> nat {
        if self.centred && self.pad_mode == PadMode::Reflect {
            self.n_fft / 2
        } else {
            0
        }
    }

    /// The signal as it is framed: continued by reflection where the
    /// parameters ask for it, unchanged otherwise.
    pub open spec fn padded<T>(self, signal: Seq<T>) -> Seq<T> {
        if self.pad_width() > 0 {
            spec_reflect_pad(signal, self.pad_width())
        } else {
            signal
        }
    }

    /// Length of the padded form of a signal of `len` samples.
    pub open spec fn padded_len(self, len: nat) -> nat {
        len + 2 * self.pad_width()
    }

    /// Number of frames cut from a padded signal of `padded_len` samples:
    /// the number of frame starts `0, hop, 2 hop, ...` from which a whole
    /// frame fits, which is `(padded_len - n_fft + 1) / hop` rounded up.
    pub open spec fn frame_count(self, padded_len: nat) -> nat {
        if self.hop_length > 0 && padded_len >= self.n_fft {
            ceil_div((padded_len - self.n_fft + 1) as nat, self.hop_length)
        } else {
            0
        }
    }

    /// Position in a frame of the first window coefficient. The window sits
    /// in the middle of the frame.
    pub open spec fn window_start(self) -> nat {
        ((self.n_fft - self.win_length) / 2) as nat
    }

    /// Whether the window can be laid out: it fits into a frame, and if it
    /// has coefficients there is a taper of positive length to take them
    /// from.
    pub open spec fn has_window(self) -> bool {
        &&& self.win_length <= self.n_fft
        &&& self.win_length > 0 ==> self.win_alg.spec_len() > 0
    }

    /// Whether a transform can be run with these parameters: the transform
    /// has a size, frames advance, and the window can be laid out.
    pub open spec fn runnable(self) -> bool {
        &&& self.n_fft > 0
        &&& self.hop_length > 0
        &&& self.has_window()
    }

    /// Whether a signal of `len` samples yields a result: it has at least
    /// two samples and, once padded, room for one frame.
    pub open spec fn produces(self, len: nat) -> bool {
        len >= 2 && self.padded_len(len) >= self.n_fft
    }
}

/// The padded signal has the length that `padded_len` gives.
pub proof fn lemma_padded_len<T>(model: StftModel, signal: Seq<T>)
    ensures
        model.padded(signal).len() == model.padded_len(signal.len()),
{
}

/// With centring and reflected padding every signal of two or more samples
/// yields a result.
pub proof fn lemma_centred_signal_produces(model: StftModel, len: nat)
    requires
        model.centred,
        model.pad_mode == PadMode::Reflect,
        len >= 2,
    ensures
        model.produces(len),
{
}

/// With centring and reflected padding every frame is centred on a sample
/// of the signal: the middle tap of frame `j` reads sample `j * hop`.
pub proof fn lemma_frames_are_centred<T>(model: StftModel, signal: Seq<T>, j: int)
    requires
        model.pad_width() > 0,
        signal.len() >= 2,
        0 <= j,
        j * model.hop_length < signal.len(),
    ensures
        model.padded(signal)[model.n_fft / 2 + j * model.hop_length] == signal[j
            * model.hop_length],
{
    assert(0 <= j * model.hop_length) by (nonlinear_arith)
        requires
            0 <= j,
            0 <= model.hop_length,
    ;
    lemma_pad_keeps_signal(signal, model.pad_width(), j * model.hop_length);
}

/// The frame count is one more than the number of whole hops that fit
/// between the first frame and the last possible frame start.
pub proof fn lemma_frame_count_by_hops(model: StftModel, padded_len: nat)
    requires
        model.hop_length > 0,
        padded_len >= model.n_fft,
    ensures
        model.frame_count(padded_len) == (padded_len - model.n_fft) / (model.hop_length as int) + 1,
{
    let m = padded_len - model.n_fft;
    let h = model.hop_length as int;
    lemma_div_plus_one(m, h);
}

/// The frame count is the ceiling of `(padded_len - n_fft + 1) / hop`: that
/// many hops reach the number of possible frame starts, and one hop fewer
/// does not.
pub proof fn lemma_frame_count_is_ceiling(model: StftModel, padded_len: nat)
    requires
        model.hop_length > 0,
        padded_len >= model.n_fft,
    ensures
        (model.frame_count(padded_len) - 1) * model.hop_length < padded_len - model.n_fft + 1,
        padded_len - model.n_fft + 1 <= model.frame_count(padded_len) * model.hop_length,
        model.frame_count(padded_len) >= 1,
{
    let m = padded_len - model.n_fft;
    let h = model.hop_length as int;
    lemma_frame_count_by_hops(model, padded_len);
    lemma_remainder_lower(m, h);
    lemma_remainder_upper(m, h);
    let q = m / h;
    assert((q + 1) * h == q * h + h) by (nonlinear_arith);
    assert(q >= 0) by (nonlinear_arith)
        requires
            m >= 0,
            h > 0,
            q == m / h,
    ;
}

/// Every tap of every frame reads a sample of the padded signal: tap `i` of
/// frame `j` lies at `i + j * hop`, before the end.
pub proof fn lemma_tap_in_range(model: StftModel, padded_len: nat, i: int, j: int)
    requires
        model.hop_length > 0,
        padded_len >= model.n_fft,
        0 <= i < model.n_fft,
        0 <= j < model.frame_count(padded_len),
    ensures
        0 <= j * model.hop_length <= padded_len - model.n_fft,
        0 <= i + j * model.hop_length < padded_len,
{
    let h = model.hop_length as int;
    let c = model.frame_count(padded_len) as int;
    lemma_frame_count_is_ceiling(model, padded_len);
    lemma_mul_inequality(j, c - 1, h);
}

impl ShortTimeFourierTransform {
    /// Number of frequency bins kept of every transformed frame.
    pub fn bins(&self) -> (n: usize)
        ensures
            n == self@.bins(),
    {
        self.n_fft() / 2 + 1
    }

    /// Number of samples added on each side of the signal.
    pub fn pad_width(&self) -> (n: usize)
        ensures
            n == self@.pad_width(),
    {
        if self.centred() {
            match self.pad_mode() {
                PadMode::Reflect => self.n_fft() / 2,
                PadMode::NoPad => 0,
            }
        } else {
            0
        }
    }

    /// Number of frames cut from a padded signal of `padded_len` samples.
    /// It is zero when no frame fits or frames do not advance.
    pub fn frame_count(&self, padded_len: usize) -> (n: usize)
        ensures
            n == self@.frame_count(padded_len as nat),
    {
        let n_fft = self.n_fft();
        let hop = self.hop_length();
        if hop > 0 && padded_len >= n_fft {
            proof {
                lemma_frame_count_by_hops(self@, padded_len as nat);
                let m = (padded_len - n_fft) as int;
                let h = hop as int;
                assert(m / h <= m) by (nonlinear_arith)
                    requires
                        m >= 0,
                        h >= 1,
                ;
            }
            (padded_len - n_fft) / hop + 1
        } else {
            0
        }
    }

    /// Whether a transform can be run with these parameters.
    pub fn is_runnable(&self) -> (ok: bool)
        ensures
            ok == self@.runnable(),
    {
        self.n_fft() > 0 && self.hop_length() > 0 && self.win_length() <= self.n_fft() && (
        self.win_length() == 0 || self.windowing_algorithm().len() > 0)
    }
}

} // verus!
