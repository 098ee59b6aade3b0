//! The transform itself: padding, window layout, framing, and assembly of
//! the half spectrum of every frame.

pub use crate::config::{PadMode, ShortTimeFourierTransform, StftBuilder, WindowingAlgorithm};
use crate::config::StftModel;
use crate::framing::lemma_tap_in_range;
use crate::matrix::{rectangular, rows_view, spec_column, Matrix};
use crate::numeric::{Complex, Numerics};
use crate::padding::reflect_pad;
use vstd::prelude::*;

verus! {

/// Real samples as complex numbers with imaginary part `zero`.
pub open spec fn lifted<S>(samples: Seq<S>, zero: S) -> Seq<Complex<S>> {
    Seq::new(samples.len(), |k: int| Complex { re: samples[k], im: zero })
}

/// The first `bins` entries of `full`, with `fill` wherever `full` has no
/// entry.
pub open spec fn spec_half<T>(full: Seq<T>, bins: nat, fill: T) -> Seq<T> {
    Seq::new(
        bins,
        |r: int|
            if r < full.len() {
                full[r]
            } else {
                fill
            },
    )
}

/// Whether `full` is a result of `fft` on `frame`.
pub open spec fn is_transform_of<T, F: Fn(Vec<T>) -> Vec<T>>(
    fft: F,
    frame: Seq<T>,
    full: Seq<T>,
) -> bool {
    exists|input: Vec<T>, output: Vec<T>|
        input@ == frame && output@ == full && call_ensures(fft, (input,), output)
}

impl StftModel {
    /// Whether `c` may stand at position `i` of the window vector. Inside
    /// the window it is the taper applied to the position counted from the
    /// window's start; outside it is zero.
    pub open spec fn is_coefficient<S, P, C, M, F>(
        self,
        num: Numerics<S, P, C, M, F>,
        i: int,
        c: Complex<S>,
    ) -> bool where
        P: Fn(usize) -> S,
        C: Fn(usize, S) -> S,
        M: Fn(Complex<S>, Complex<S>) -> Complex<S>,
        F: Fn(Vec<Complex<S>>) -> Vec<Complex<S>>,
     {
        if self.window_start() <= i < self.window_start() + self.win_length {
            exists|x: S|
                call_ensures(num.position, ((i - self.window_start()) as usize,), x)
                    && self.win_alg.windowed(Complex { re: x, im: num.zero }, num, c)
        } else {
            c == num.origin()
        }
    }

    /// Whether `w` is a window vector: one coefficient for every tap of a
    /// frame.
    pub open spec fn is_window<S, P, C, M, F>(
        self,
        num: Numerics<S, P, C, M, F>,
        w: Seq<Complex<S>>,
    ) -> bool where
        P: Fn(usize) -> S,
        C: Fn(usize, S) -> S,
        M: Fn(Complex<S>, Complex<S>) -> Complex<S>,
        F: Fn(Vec<Complex<S>>) -> Vec<Complex<S>>,
     {
        &&& w.len() == self.n_fft
        &&& forall|i: int| 0 <= i < w.len() ==> self.is_coefficient(num, i, #[trigger] w[i])
    }

    /// Whether `s` holds the tapered frames of `padded`: row `i` is tap `i`,
    /// column `j` is frame `j`, and the cell is the product of the sample at
    /// `i + j * hop` with coefficient `i` of the window vector `w`.
    pub open spec fn is_tapered<S, P, C, M, F>(
        self,
        padded: Seq<Complex<S>>,
        w: Seq<Complex<S>>,
        num: Numerics<S, P, C, M, F>,
        s: Seq<Seq<Complex<S>>>,
    ) -> bool where
        P: Fn(usize) -> S,
        C: Fn(usize, S) -> S,
        M: Fn(Complex<S>, Complex<S>) -> Complex<S>,
        F: Fn(Vec<Complex<S>>) -> Vec<Complex<S>>,
     {
        &&& s.len() == self.n_fft
        &&& rectangular(s, self.frame_count(padded.len()))
        &&& forall|i: int, j: int|
            0 <= i < self.n_fft && 0 <= j < self.frame_count(padded.len()) ==> call_ensures(
                num.scale,
                (padded[i + j * self.hop_length], w[i]),
                #[trigger] s[i][j],
            )
    }

    /// Whether `s` holds the tapered frames of `samples`: the samples are
    /// lifted to complex numbers and padded, then cut into frames that are
    /// tapered by a window vector.
    pub open spec fn is_framed<S, P, C, M, F>(
        self,
        samples: Seq<S>,
        num: Numerics<S, P, C, M, F>,
        s: Seq<Seq<Complex<S>>>,
    ) -> bool where
        P: Fn(usize) -> S,
        C: Fn(usize, S) -> S,
        M: Fn(Complex<S>, Complex<S>) -> Complex<S>,
        F: Fn(Vec<Complex<S>>) -> Vec<Complex<S>>,
     {
        exists|w: Seq<Complex<S>>|
            self.is_window(num, w) && self.is_tapered(
                self.padded(lifted(samples, num.zero)),
                w,
                num,
                s,
            )
    }

    /// Whether `out` is assembled from `spectra`, the transforms of the
    /// frames in order: row `r` is frequency bin `r`, and column `j` is the
    /// half spectrum of frame `j`.
    pub open spec fn is_assembled<T>(self, spectra: Seq<Seq<T>>, fill: T, out: Seq<Seq<T>>) -> bool {
        &&& out.len() == self.bins()
        &&& rectangular(out, spectra.len())
        &&& forall|j: int|
            0 <= j < spectra.len() ==> #[trigger] spec_column(out, j) == spec_half(
                spectra[j],
                self.bins(),
                fill,
            )
    }

    /// Whether `out` is a short-time Fourier transform of `samples`: the
    /// half spectra of the tapered frames, each frame transformed by the
    /// discrete Fourier transform among the operations.
    pub open spec fn is_stft<S, P, C, M, F>(
        self,
        samples: Seq<S>,
        num: Numerics<S, P, C, M, F>,
        out: Seq<Seq<Complex<S>>>,
    ) -> bool where
        P: Fn(usize) -> S,
        C: Fn(usize, S) -> S,
        M: Fn(Complex<S>, Complex<S>) -> Complex<S>,
        F: Fn(Vec<Complex<S>>) -> Vec<Complex<S>>,
     {
        exists|s: Seq<Seq<Complex<S>>>, spectra: Seq<Seq<Complex<S>>>|
            {
                &&& self.is_framed(samples, num, s)
                &&& spectra.len() == self.frame_count(self.padded_len(samples.len()))
                &&& forall|j: int|
                    0 <= j < spectra.len() ==> is_transform_of(
                        num.fft,
                        spec_column(s, j),
                        #[trigger] spectra[j],
                    )
                &&& self.is_assembled(spectra, num.origin(), out)
            }
    }
}

/// A spectrum that has all its bins is cut, not filled: its half is its
/// first `bins` entries.
pub proof fn lemma_half_of_full_spectrum<T>(full: Seq<T>, bins: nat, fill: T)
    requires
        full.len() >= bins,
    ensures
        spec_half(full, bins, fill) == full.subrange(0, bins as int),
{
    assert(spec_half(full, bins, fill) =~= full.subrange(0, bins as int));
}

/// The bins that are kept of a spectrum never outnumber the entries of a
/// spectrum that is as long as its frame.
pub proof fn lemma_bins_fit(model: StftModel)
    requires
        model.n_fft > 0,
    ensures
        model.bins() <= model.n_fft,
{
}

/// Column `j` of the tapered frames is the slice of the padded signal that
/// starts at `j * hop`, multiplied tap by tap with the window vector.
pub proof fn lemma_frame_is_windowed_slice<S, P, C, M, F>(
    model: StftModel,
    padded: Seq<Complex<S>>,
    w: Seq<Complex<S>>,
    num: Numerics<S, P, C, M, F>,
    s: Seq<Seq<Complex<S>>>,
    j: int,
) where
    P: Fn(usize) -> S,
    C: Fn(usize, S) -> S,
    M: Fn(Complex<S>, Complex<S>) -> Complex<S>,
    F: Fn(Vec<Complex<S>>) -> Vec<Complex<S>>,

    requires
        model.n_fft > 0,
        model.hop_length > 0,
        padded.len() >= model.n_fft,
        w.len() == model.n_fft,
        model.is_tapered(padded, w, num, s),
        0 <= j < model.frame_count(padded.len()),
    ensures
        j * model.hop_length + model.n_fft <= padded.len(),
        spec_column(s, j).len() == model.n_fft,
        forall|i: int|
            0 <= i < model.n_fft ==> call_ensures(
                num.scale,
                (
                    padded.subrange(
                        j * model.hop_length,
                        j * model.hop_length + model.n_fft,
                    )[i],
                    w[i],
                ),
                #[trigger] spec_column(s, j)[i],
            ),
{
    lemma_tap_in_range(model, padded.len(), 0, j);
    assert forall|i: int| 0 <= i < model.n_fft implies call_ensures(
        num.scale,
        (padded.subrange(j * model.hop_length, j * model.hop_length + model.n_fft)[i], w[i]),
        #[trigger] spec_column(s, j)[i],
    ) by {
        assert(call_ensures(num.scale, (padded[i + j * model.hop_length], w[i]), s[i][j]));
    }
}

impl ShortTimeFourierTransform {
    /// Pads `arr` as the parameters ask: by reflection on both sides when
    /// the transform is centred with reflected padding, not at all
    /// otherwise.
    pub fn apply_padding<T: Copy>(&self, arr: &mut Vec<T>)
        requires
            self@.pad_width() > 0 ==> old(arr).len() >= 2 && old(arr).len() + 2
                * self@.pad_width() <= usize::MAX,
        ensures
            final(arr)@ == self@.padded(old(arr)@),
    {
        let pad = self.pad_width();
        if pad > 0 {
            reflect_pad(arr, pad);
        }
    }

    /// The window vector: the taper's coefficients in the middle of a frame
    /// and zero around them.
    pub fn get_window_matrix<S: Copy, P, C, M, F>(&self, num: &Numerics<S, P, C, M, F>) -> (w: Vec<
        Complex<S>,
    >) where
        P: Fn(usize) -> S,
        C: Fn(usize, S) -> S,
        M: Fn(Complex<S>, Complex<S>) -> Complex<S>,
        F: Fn(Vec<Complex<S>>) -> Vec<Complex<S>>,

        requires
            self@.has_window(),
            num.tapers(),
            num.positions(),
        ensures
            self@.is_window(*num, w@),
    {
        let n_fft = self.n_fft();
        let win_length = self.win_length();
        let alg = self.windowing_algorithm();
        let start = (n_fft - win_length) / 2;
        let origin = Complex { re: num.zero, im: num.zero };
        let mut w: Vec<Complex<S>> = Vec::with_capacity(n_fft);
        let mut i: usize = 0;
        while i < n_fft
            invariant
                n_fft == self@.n_fft,
                win_length == self@.win_length,
                alg == self@.win_alg,
                start == self@.window_start(),
                origin == num.origin(),
                self@.has_window(),
                num.tapers(),
                num.positions(),
                i <= n_fft,
                w@.len() == i,
                forall|q: int| 0 <= q < i ==> self@.is_coefficient(*num, q, #[trigger] w@[q]),
            decreases n_fft - i,
        {
            if start <= i && i - start < win_length {
                let position = &num.position;
                let x = position(i - start);
                let c = alg.run(Complex { re: x, im: num.zero }, num);
                w.push(c);
            } else {
                w.push(origin);
            }
            i = i + 1;
        }
        w
    }

    /// The tapered frames of `padded`, one row for every tap and one column
    /// for every frame.
    pub fn tapered_frames<S: Copy, P, C, M, F>(
        &self,
        padded: &Vec<Complex<S>>,
        window: &Vec<Complex<S>>,
        num: &Numerics<S, P, C, M, F>,
    ) -> (m: Matrix<Complex<S>>) where
        P: Fn(usize) -> S,
        C: Fn(usize, S) -> S,
        M: Fn(Complex<S>, Complex<S>) -> Complex<S>,
        F: Fn(Vec<Complex<S>>) -> Vec<Complex<S>>,

        requires
            self@.hop_length > 0,
            padded@.len() >= self@.n_fft,
            window@.len() == self@.n_fft,
            num.scales(),
        ensures
            m.wf(),
            m.spec_cols() == self@.frame_count(padded@.len()),
            self@.is_tapered(padded@, window@, *num, m@),
    {
        let n_fft = self.n_fft();
        let hop = self.hop_length();
        let padded_len = padded.len();
        let frames = self.frame_count(padded_len);
        let mut rows: Vec<Vec<Complex<S>>> = Vec::with_capacity(n_fft);
        let mut i: usize = 0;
        while i < n_fft
            invariant
                n_fft == self@.n_fft,
                hop == self@.hop_length,
                hop > 0,
                frames == self@.frame_count(padded@.len()),
                padded_len == padded@.len(),
                padded@.len() >= n_fft,
                window@.len() == n_fft,
                num.scales(),
                i <= n_fft,
                rows@.len() == i,
                forall|a: int| 0 <= a < i ==> (#[trigger] rows@[a])@.len() == frames,
                forall|a: int, b: int|
                    0 <= a < i && 0 <= b < frames ==> call_ensures(
                        num.scale,
                        (padded@[a + b * hop], window@[a]),
                        #[trigger] rows@[a]@[b],
                    ),
            decreases n_fft - i,
        {
            let coefficient = window[i];
            let mut row: Vec<Complex<S>> = Vec::with_capacity(frames);
            let mut j: usize = 0;
            while j < frames
                invariant
                    n_fft == self@.n_fft,
                    hop == self@.hop_length,
                    hop > 0,
                    frames == self@.frame_count(padded@.len()),
                    padded_len == padded@.len(),
                    padded@.len() >= n_fft,
                    window@.len() == n_fft,
                    num.scales(),
                    i < n_fft,
                    coefficient == window@[i as int],
                    j <= frames,
                    row@.len() == j,
                    forall|b: int|
                        0 <= b < j ==> call_ensures(
                            num.scale,
                            (padded@[i + b * hop], coefficient),
                            #[trigger] row@[b],
                        ),
                decreases frames - j,
            {
                proof {
                    lemma_tap_in_range(self@, padded@.len(), i as int, j as int);
                }
                let sample = padded[i + j * hop];
                let scale = &num.scale;
                let product = scale(sample, coefficient);
                row.push(product);
                j = j + 1;
            }
            rows.push(row);
            i = i + 1;
        }
        Matrix::new(rows, frames)
    }

    /// The tapered frames of `samples`: the samples are lifted to complex
    /// numbers, padded, cut into frames and tapered. There are none for a
    /// signal of fewer than two samples, whatever the parameters, nor for
    /// one that, once padded, is shorter than a frame.
    pub fn frames<S: Copy, P, C, M, F>(&self, samples: &[S], num: &Numerics<S, P, C, M, F>) -> (res:
        Option<Matrix<Complex<S>>>) where
        P: Fn(usize) -> S,
        C: Fn(usize, S) -> S,
        M: Fn(Complex<S>, Complex<S>) -> Complex<S>,
        F: Fn(Vec<Complex<S>>) -> Vec<Complex<S>>,

        requires
            samples@.len() >= 2 ==> {
                &&& self@.runnable()
                &&& num.tapers()
                &&& num.positions()
                &&& num.scales()
                &&& samples@.len() + 2 * self@.pad_width() <= usize::MAX
            },
        ensures
            res is Some <==> self@.produces(samples@.len()),
            res matches Some(s) ==> {
                &&& s.wf()
                &&& s.spec_rows() == self@.n_fft
                &&& s.spec_cols() == self@.frame_count(self@.padded_len(samples@.len()))
                &&& s.spec_cols() >= 1
                &&& self@.is_framed(samples@, *num, s@)
            },
    {
        let len = samples.len();
        if len < 2 {
            return None;
        }
        let mut input: Vec<Complex<S>> = Vec::with_capacity(len);
        let mut k: usize = 0;
        while k < len
            invariant
                len == samples@.len(),
                k <= len,
                input@.len() == k,
                forall|q: int|
                    0 <= q < k ==> #[trigger] input@[q] == (Complex {
                        re: samples@[q],
                        im: num.zero,
                    }),
            decreases len - k,
        {
            input.push(Complex { re: samples[k], im: num.zero });
            k = k + 1;
        }
        assert(input@ =~= lifted(samples@, num.zero));
        self.apply_padding(&mut input);
        if input.len() < self.n_fft() {
            return None;
        }
        let window = self.get_window_matrix(num);
        let s = self.tapered_frames(&input, &window, num);
        proof {
            crate::framing::lemma_frame_count_is_ceiling(self@, input@.len());
        }
        Some(s)
    }

    /// The first `bins()` entries of `full`, filled up with `fill` where
    /// `full` is shorter than that.
    pub fn half_spectrum<T: Copy>(&self, full: &Vec<T>, fill: T) -> (half: Vec<T>)
        ensures
            half@ == spec_half(full@, self@.bins(), fill),
    {
        let bins = self.bins();
        let mut half: Vec<T> = Vec::with_capacity(bins);
        let mut r: usize = 0;
        while r < bins
            invariant
                bins == self@.bins(),
                r <= bins,
                half@.len() == r,
                forall|q: int|
                    0 <= q < r ==> #[trigger] half@[q] == if q < full@.len() {
                        full@[q]
                    } else {
                        fill
                    },
            decreases bins - r,
        {
            if r < full.len() {
                half.push(full[r]);
            } else {
                half.push(fill);
            }
            r = r + 1;
        }
        half
    }

    /// Assembles the result from `spectra`, the transforms of the frames in
    /// order: one row for every frequency bin, one column for every frame.
    /// Of every spectrum the first `bins()` entries are kept; a spectrum
    /// that has fewer is filled up with `fill`.
    pub fn assemble<T: Copy>(&self, spectra: &Vec<Vec<T>>, fill: T) -> (out: Matrix<T>)
        ensures
            out.wf(),
            out.spec_rows() == self@.bins(),
            out.spec_cols() == spectra@.len(),
            self@.is_assembled(rows_view(spectra@), fill, out@),
    {
        let frames = spectra.len();
        let bins = self.bins();
        let mut columns: Vec<Vec<T>> = Vec::with_capacity(frames);
        let mut j: usize = 0;
        while j < frames
            invariant
                frames == spectra@.len(),
                bins == self@.bins(),
                j <= frames,
                columns@.len() == j,
                forall|q: int|
                    0 <= q < j ==> (#[trigger] columns@[q])@ == spec_half(
                        spectra@[q]@,
                        self@.bins(),
                        fill,
                    ),
            decreases frames - j,
        {
            let half = self.half_spectrum(&spectra[j], fill);
            columns.push(half);
            j = j + 1;
        }
        let by_frame = Matrix::new(columns, bins);
        let out = by_frame.transposed();
        assert forall|q: int| 0 <= q < frames implies #[trigger] spec_column(out@, q)
            == spec_half(rows_view(spectra@)[q], self@.bins(), fill) by {
            assert(by_frame@[q] == columns@[q]@);
        }
        out
    }

    /// Transforms `samples`. There is no result for a signal of fewer than
    /// two samples, whatever the parameters, nor for one that, once padded,
    /// is shorter than a frame. Otherwise the result has one row for every
    /// frequency bin and one column for every frame, and holds the half
    /// spectrum of every tapered frame.
    pub fn run<S: Copy, P, C, M, F>(&self, samples: &[S], num: &Numerics<S, P, C, M, F>) -> (res:
        Option<Matrix<Complex<S>>>) where
        P: Fn(usize) -> S,
        C: Fn(usize, S) -> S,
        M: Fn(Complex<S>, Complex<S>) -> Complex<S>,
        F: Fn(Vec<Complex<S>>) -> Vec<Complex<S>>,

        requires
            samples@.len() >= 2 ==> {
                &&& self@.runnable()
                &&& num.serves(self@.n_fft)
                &&& samples@.len() + 2 * self@.pad_width() <= usize::MAX
            },
        ensures
            samples@.len() < 2 ==> res is None,
            res is Some <==> self@.produces(samples@.len()),
            res matches Some(m) ==> {
                &&& m.wf()
                &&& m.spec_rows() == self@.bins()
                &&& m.spec_cols() == self@.frame_count(self@.padded_len(samples@.len()))
                &&& self@.is_stft(samples@, *num, m@)
            },
    {
        let scratch = match self.frames(samples, num) {
            Some(s) => s,
            None => {
                return None;
            },
        };
        let frames = scratch.cols();
        let mut spectra: Vec<Vec<Complex<S>>> = Vec::with_capacity(frames);
        let mut j: usize = 0;
        while j < frames
            invariant
                num.transforms(self@.n_fft),
                scratch.wf(),
                scratch@.len() == self@.n_fft,
                frames == scratch.spec_cols(),
                j <= frames,
                spectra@.len() == j,
                forall|q: int|
                    0 <= q < j ==> is_transform_of(
                        num.fft,
                        spec_column(scratch@, q),
                        #[trigger] spectra@[q]@,
                    ),
            decreases frames - j,
        {
            let frame = scratch.column(j);
            let fft = &num.fft;
            let full = fft(frame);
            spectra.push(full);
            j = j + 1;
        }
        let origin = Complex { re: num.zero, im: num.zero };
        let out = self.assemble(&spectra, origin);
        Some(out)
    }
}

} // verus!
