//! Transform parameters and the builder that completes them.

use vstd::prelude::*;

verus! {

/// How the signal is continued beyond its ends before framing.
#[derive(Copy, Clone, Debug, PartialEq, Eq, Hash, Structural)]
pub enum PadMode {
    /// The signal is left as it is.
    NoPad,
    /// The signal is mirrored about its boundary samples.
    Reflect,
}

/// The taper applied to every frame. The number is the length that the
/// taper is shaped for.
#[derive(Copy, Clone, Debug, PartialEq, Eq, Hash, Structural)]
pub enum WindowingAlgorithm {
    /// The Hann taper, a raised cosine.
    Hann(usize),
}

/// The transform size that stands in for an unset or zero size.
pub const DEFAULT_FFT_SIZE: usize = 2048;

/// What a builder holds: the transform size and what has been set so far.
pub struct BuilderModel {
    pub n_fft: nat,
    pub win_length: Option<nat>,
    pub hop_length: Option<nat>,
    pub win_alg: Option<WindowingAlgorithm>,
    pub centred: Option<bool>,
    pub pad_mode: Option<PadMode>,
}

/// The parameters of a transform.
pub struct StftModel {
    /// Size of the Fourier transform applied to every frame.
    pub n_fft: nat,
    /// Distance in samples between the starts of consecutive frames.
    pub hop_length: nat,
    /// Number of taper coefficients; the rest of a frame is weighted zero.
    pub win_length: nat,
    /// The taper.
    pub win_alg: WindowingAlgorithm,
    /// Whether the signal is padded so that frames are centred on samples.
    pub centred: bool,
    /// How a centred signal is padded.
    pub pad_mode: PadMode,
}

impl BuilderModel {
    /// The parameters that result when every unset value takes its default:
    /// a zero transform size becomes `DEFAULT_FFT_SIZE`, the window spans the
    /// whole transform, the hop is a quarter of the window, the taper is a
    /// Hann taper of the window's length, and the signal is centred with
    /// reflected padding.
    pub open spec fn completed(self) -> StftModel {
        let n_fft = if self.n_fft > 0 {
            self.n_fft
        } else {
            DEFAULT_FFT_SIZE as nat
        };
        let win_length = match self.win_length {
            Some(w) => w,
            None => n_fft,
        };
        StftModel {
            n_fft,
            hop_length: match self.hop_length {
                Some(h) => h,
                None => win_length / 4,
            },
            win_length,
            win_alg: match self.win_alg {
                Some(a) => a,
                None => WindowingAlgorithm::Hann(win_length as usize),
            },
            centred: match self.centred {
                Some(c) => c,
                None => true,
            },
            pad_mode: match self.pad_mode {
                Some(p) => p,
                None => PadMode::Reflect,
            },
        }
    }
}

/// The view of an optional size.
pub open spec fn size_view(o: Option<usize>) -> Option<nat> {
    match o {
        Some(n) => Some(n as nat),
        None => None,
    }
}

/// Collects transform parameters one by one and fills in the rest.
#[derive(Copy, Clone, Debug, PartialEq, Eq, Hash)]
pub struct StftBuilder {
    n_fft: usize,
    win_length: Option<usize>,
    hop_length: Option<usize>,
    win_alg: Option<WindowingAlgorithm>,
    centred: Option<bool>,
    pad_mode: Option<PadMode>,
}

impl View for StftBuilder {
    type V = BuilderModel;

    closed spec fn view(&self) -> BuilderModel {
        BuilderModel {
            n_fft: self.n_fft as nat,
            win_length: size_view(self.win_length),
            hop_length: size_view(self.hop_length),
            win_alg: self.win_alg,
            centred: self.centred,
            pad_mode: self.pad_mode,
        }
    }
}

impl Default for StftBuilder {
    /// A builder with a zero transform size and nothing set.
    fn default() -> (b: Self)
        ensures
            b@ == (BuilderModel {
                n_fft: 0,
                win_length: None,
                hop_length: None,
                win_alg: None,
                centred: None,
                pad_mode: None,
            }),
    {
        StftBuilder {
            n_fft: 0,
            win_length: None,
            hop_length: None,
            win_alg: None,
            centred: None,
            pad_mode: None,
        }
    }
}

impl StftBuilder {
    /// A builder with the default transform size and nothing else set.
    pub fn new() -> (b: Self)
        ensures
            b@ == (BuilderModel {
                n_fft: DEFAULT_FFT_SIZE as nat,
                win_length: None,
                hop_length: None,
                win_alg: None,
                centred: None,
                pad_mode: None,
            }),
    {
        StftBuilder {
            n_fft: DEFAULT_FFT_SIZE,
            win_length: None,
            hop_length: None,
            win_alg: None,
            centred: None,
            pad_mode: None,
        }
    }

    /// Sets the size of the Fourier transform.
    pub fn set_fft_num(self, n: usize) -> (b: Self)
        ensures
            b@ == (BuilderModel { n_fft: n as nat, ..self@ }),
    {
        let mut b = self;
        b.n_fft = n;
        b
    }

    /// Sets the number of taper coefficients.
    pub fn set_window_len(self, n: usize) -> (b: Self)
        ensures
            b@ == (BuilderModel { win_length: Some(n as nat), ..self@ }),
    {
        let mut b = self;
        b.win_length = Some(n);
        b
    }

    /// Sets the distance between the starts of consecutive frames.
    pub fn set_hop_len(self, n: usize) -> (b: Self)
        ensures
            b@ == (BuilderModel { hop_length: Some(n as nat), ..self@ }),
    {
        let mut b = self;
        b.hop_length = Some(n);
        b
    }

    /// Sets the taper.
    pub fn set_windowing_algorithm(self, alg: WindowingAlgorithm) -> (b: Self)
        ensures
            b@ == (BuilderModel { win_alg: Some(alg), ..self@ }),
    {
        let mut b = self;
        b.win_alg = Some(alg);
        b
    }

    /// Sets whether the signal is padded so that frames are centred.
    pub fn set_centred(self, centred: bool) -> (b: Self)
        ensures
            b@ == (BuilderModel { centred: Some(centred), ..self@ }),
    {
        let mut b = self;
        b.centred = Some(centred);
        b
    }

    /// Sets how a centred signal is padded.
    pub fn set_padding_mode(self, padding: PadMode) -> (b: Self)
        ensures
            b@ == (BuilderModel { pad_mode: Some(padding), ..self@ }),
    {
        let mut b = self;
        b.pad_mode = Some(padding);
        b
    }

    /// Completes the parameters with their defaults.
    pub fn build(self) -> (stft: ShortTimeFourierTransform)
        ensures
            stft@ == self@.completed(),
            stft@.n_fft > 0,
    {
        let n_fft = if self.n_fft > 0 {
            self.n_fft
        } else {
            DEFAULT_FFT_SIZE
        };
        let win_length = match self.win_length {
            Some(w) => w,
            None => n_fft,
        };
        let hop_length = match self.hop_length {
            Some(h) => h,
            None => win_length / 4,
        };
        let centred = match self.centred {
            Some(c) => c,
            None => true,
        };
        let pad_mode = match self.pad_mode {
            Some(p) => p,
            None => PadMode::Reflect,
        };
        let win_alg = match self.win_alg {
            Some(a) => a,
            None => WindowingAlgorithm::Hann(win_length),
        };
        ShortTimeFourierTransform { n_fft, hop_length, win_length, win_alg, centred, pad_mode }
    }
}

/// The parameters of a short-time Fourier transform. Values come from
/// `StftBuilder::build` or from `ShortTimeFourierTransform::new` and are not
/// changed afterwards.
#[derive(Copy, Clone, Debug, PartialEq, Eq, Hash)]
pub struct ShortTimeFourierTransform {
    n_fft: usize,
    hop_length: usize,
    win_length: usize,
    win_alg: WindowingAlgorithm,
    centred: bool,
    pad_mode: PadMode,
}

impl View for ShortTimeFourierTransform {
    type V = StftModel;

    closed spec fn view(&self) -> StftModel {
        StftModel {
            n_fft: self.n_fft as nat,
            hop_length: self.hop_length as nat,
            win_length: self.win_length as nat,
            win_alg: self.win_alg,
            centred: self.centred,
            pad_mode: self.pad_mode,
        }
    }
}

/// The sample rate that the fixed parameters of `speech_model` are tuned for.
pub const SPEECH_SAMPLE_RATE: usize = 16000;

/// Parameters for signals sampled at `SPEECH_SAMPLE_RATE`: windows of a
/// twenty-fifth of a second, taken every hundredth of a second.
pub open spec fn speech_model() -> StftModel {
    StftModel {
        n_fft: 1024,
        hop_length: 160,
        win_length: 640,
        win_alg: WindowingAlgorithm::Hann(640),
        centred: true,
        pad_mode: PadMode::Reflect,
    }
}

impl Default for ShortTimeFourierTransform {
    /// The parameters of `speech_model`.
    fn default() -> (stft: Self)
        ensures
            stft@ == speech_model(),
    {
        let win_length = SPEECH_SAMPLE_RATE / 25;
        ShortTimeFourierTransform {
            n_fft: 1024,
            hop_length: SPEECH_SAMPLE_RATE / 100,
            win_length,
            win_alg: WindowingAlgorithm::Hann(win_length),
            centred: true,
            pad_mode: PadMode::Reflect,
        }
    }
}

impl ShortTimeFourierTransform {
    #[verifier::type_invariant]
    closed spec fn positive_size(&self) -> bool {
        self.n_fft > 0
    }

    /// The parameters of `speech_model`.
    pub fn new() -> (stft: Self)
        ensures
            stft@ == speech_model(),
    {
        let win_length = SPEECH_SAMPLE_RATE / 25;
        ShortTimeFourierTransform {
            n_fft: 1024,
            hop_length: SPEECH_SAMPLE_RATE / 100,
            win_length,
            win_alg: WindowingAlgorithm::Hann(win_length),
            centred: true,
            pad_mode: PadMode::Reflect,
        }
    }

    /// Size of the Fourier transform applied to every frame. It is never
    /// zero.
    pub fn n_fft(&self) -> (n: usize)
        ensures
            n == self@.n_fft,
            n > 0,
    {
        proof {
            use_type_invariant(self);
        }
        self.n_fft
    }

    /// Distance in samples between the starts of consecutive frames.
    pub fn hop_length(&self) -> (n: usize)
        ensures
            n == self@.hop_length,
    {
        self.hop_length
    }

    /// Number of taper coefficients.
    pub fn win_length(&self) -> (n: usize)
        ensures
            n == self@.win_length,
    {
        self.win_length
    }

    /// The taper.
    pub fn windowing_algorithm(&self) -> (alg: WindowingAlgorithm)
        ensures
            alg == self@.win_alg,
    {
        self.win_alg
    }

    /// Whether the signal is padded so that frames are centred on samples.
    pub fn centred(&self) -> (c: bool)
        ensures
            c == self@.centred,
    {
        self.centred
    }

    /// How a centred signal is padded.
    pub fn pad_mode(&self) -> (mode: PadMode)
        ensures
            mode == self@.pad_mode,
    {
        self.pad_mode
    }
}

} // verus!
