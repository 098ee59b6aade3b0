use emo_audio::matrix::Matrix;
use emo_audio::numeric::{Complex, Numerics};
use emo_audio::stft::{ShortTimeFourierTransform, StftBuilder, WindowingAlgorithm};
use float_cmp::{ApproxEq, F32Margin};
use rustfft::FFTplanner;
use std::f32::consts::PI;

type Scalars = Numerics<
    f32,
    fn(usize) -> f32,
    fn(usize, f32) -> f32,
    fn(Complex<f32>, Complex<f32>) -> Complex<f32>,
    fn(Vec<Complex<f32>>) -> Vec<Complex<f32>>,
>;

fn position(k: usize) -> f32 {
    k as f32
}

fn raised_cosine(m: usize, x: f32) -> f32 {
    0.5 - 0.5 * (2.0 * PI * x / m as f32).cos()
}

fn product(a: Complex<f32>, b: Complex<f32>) -> Complex<f32> {
    let p = rustfft::num_complex::Complex::new(a.re, a.im)
        * rustfft::num_complex::Complex::new(b.re, b.im);
    Complex { re: p.re, im: p.im }
}

/// The discrete Fourier transform as rustfft computes it.
fn fast_transform(frame: Vec<Complex<f32>>) -> Vec<Complex<f32>> {
    let mut input: Vec<rustfft::num_complex::Complex<f32>> =
        frame.iter().map(|c| rustfft::num_complex::Complex::new(c.re, c.im)).collect();
    let mut output = input.clone();
    FFTplanner::new(false).plan_fft(input.len()).process(&mut input, &mut output);
    output.iter().map(|c| Complex { re: c.re, im: c.im }).collect()
}

fn scalars_with<F: Fn(Vec<Complex<f32>>) -> Vec<Complex<f32>>>(
    fft: F,
) -> Numerics<
    f32,
    fn(usize) -> f32,
    fn(usize, f32) -> f32,
    fn(Complex<f32>, Complex<f32>) -> Complex<f32>,
    F,
> {
    Numerics { zero: 0.0, one: 1.0, position, taper: raised_cosine, scale: product, fft }
}

fn scalars() -> Scalars {
    scalars_with(fast_transform)
}

/// The discrete Fourier transform by its defining sum, in double precision.
fn slow_transform(frame: Vec<Complex<f32>>) -> Vec<Complex<f32>> {
    let n = frame.len();
    let mut out = Vec::with_capacity(n);
    for k in 0..n {
        let mut re = 0.0f64;
        let mut im = 0.0f64;
        for (t, x) in frame.iter().enumerate() {
            let angle = -2.0 * std::f64::consts::PI * ((k * t) % n) as f64 / n as f64;
            re += x.re as f64 * angle.cos() - x.im as f64 * angle.sin();
            im += x.re as f64 * angle.sin() + x.im as f64 * angle.cos();
        }
        out.push(Complex { re: re as f32, im: im as f32 });
    }
    out
}

fn re_only(x: f32) -> Complex<f32> {
    Complex { re: x, im: 0.0 }
}

fn close(a: f32, b: f32) -> bool {
    a.approx_eq(b, F32Margin::default())
}

fn within(a: f32, b: f32, epsilon: f32) -> bool {
    a.approx_eq(b, F32Margin::zero().epsilon(epsilon))
}

#[test]
fn representative_usage() {
    // A very long ramp, transformed in one piece.
    let data = ndarray::Array::range(0.0f64, 1.0, 1e-6);
    let data: Vec<f32> = data.iter().map(|x| *x as f32).collect();

    let stft = StftBuilder::new()
        .set_fft_num(512)
        .set_centred(true)
        .build();

    assert!(stft.run(data.as_slice(), &scalars()).is_some())
}

#[test]
fn signal_padding() {
    let mut data = vec![re_only(1.0), re_only(2.0), re_only(3.0), re_only(4.0), re_only(5.0)];

    let small = StftBuilder::new().set_fft_num(5).set_centred(true).build();

    small.apply_padding(&mut data);

    let expected = vec![
        re_only(3.0),
        re_only(2.0),
        re_only(1.0),
        re_only(2.0),
        re_only(3.0),
        re_only(4.0),
        re_only(5.0),
        re_only(4.0),
        re_only(3.0),
    ];

    assert_eq!(data, expected);
}

#[test]
fn long_signal_padding() {
    let mut data = vec![re_only(1.0), re_only(2.0), re_only(3.0), re_only(4.0), re_only(5.0)];

    let small = StftBuilder::new().set_fft_num(10).set_centred(true).build();

    small.apply_padding(&mut data);

    let expected = vec![
        re_only(4.0),
        re_only(5.0),
        re_only(4.0),
        re_only(3.0),
        re_only(2.0),
        re_only(1.0),
        re_only(2.0),
        re_only(3.0),
        re_only(4.0),
        re_only(5.0),
        re_only(4.0),
        re_only(3.0),
        re_only(2.0),
        re_only(1.0),
        re_only(2.0),
    ];

    assert_eq!(data, expected);
}

#[test]
fn stft_window() {
    let stft = StftBuilder::new()
        .set_fft_num(5)
        .set_hop_len(1)
        .set_centred(true)
        .set_windowing_algorithm(WindowingAlgorithm::Hann(5))
        .build();

    let win = stft.get_window_matrix(&scalars());
    let expected: Vec<f32> = vec![0.0, 0.3454915, 0.9045085, 0.9045085, 0.3454915];

    assert_eq!(win.len(), expected.len());
    for (a, e) in win.iter().zip(expected.iter()) {
        assert!(close(a.re, *e));
        assert!(close(a.im, 0.0));
    }
}

#[test]
fn hann_window() {
    let hann = WindowingAlgorithm::Hann(5);
    let expected: Vec<f32> = vec![0.0, 0.3454915, 0.9045085, 0.9045085, 0.3454915];

    for i in 0..5 {
        let res = hann.run(re_only(i as f32), &scalars());
        assert!(close(res.re, expected[i]));
        assert!(close(res.im, 0.0));
    }
}

#[test]
fn empty_signal() {
    let small = StftBuilder::new()
        .set_fft_num(5)
        .set_hop_len(1)
        .set_centred(true)
        .set_windowing_algorithm(WindowingAlgorithm::Hann(5))
        .build();

    let empty: Vec<f32> = vec![];
    let result = small.run(empty.as_slice(), &scalars());
    assert_eq!(result, None);
}

fn short_sample_expected() -> Matrix<Complex<f32>> {
    let c = |re: f32, im: f32| Complex { re, im };
    let cells = vec![
        c(4.4409828, 0.0),
        c(6.25, 0.0),
        c(8.75, 0.0),
        c(11.25, 0.0),
        c(13.75, 0.0),
        c(16.25, 0.0),
        c(18.75, 0.0),
        c(21.25, 0.0),
        c(23.75, 0.0),
        c(26.25, 0.0),
        c(28.75, 0.0),
        c(31.25, 0.0),
        c(33.75, 0.0),
        c(36.25, 0.0),
        c(38.75, 0.0),
        c(41.25, 0.0),
        c(43.75, 0.0),
        c(45.559017, 0.0),
        c(45.559017, 0.0),
        c(-1.6614756, 0.8602387),
        c(-3.125, 1.5174026),
        c(-4.375, 1.5174026),
        c(-5.625, 1.5174026),
        c(-6.875, 1.5174026),
        c(-8.125, 1.5174026),
        c(-9.375, 1.5174026),
        c(-10.625, 1.5174026),
        c(-11.875, 1.5174026),
        c(-13.125, 1.5174026),
        c(-14.375, 1.5174026),
        c(-15.625, 1.5174026),
        c(-16.875, 1.5174026),
        c(-18.125, 1.5174026),
        c(-19.375, 1.5174026),
        c(-20.625, 1.5174026),
        c(-21.875, 1.5174026),
        c(-23.338526, 0.8602387),
        c(-23.338526, -0.8602387),
        c(-0.559017, -0.6571639),
        c(0.0, -0.25101426),
        c(0.0, -0.25101426),
        c(-4.44089e-16, -0.25101426),
        c(4.4408921e-16, -0.25101426),
        c(0.0, -0.25101426),
        c(0.0, -0.25101426),
        c(0.0, -0.25101426),
        c(0.0, -0.25101426),
        c(0.0, -0.25101426),
        c(-8.8817842e-16, -0.25101426),
        c(-8.8817842e-16, -0.25101426),
        c(0.0, -0.25101426),
        c(0.0, -0.25101426),
        c(0.0, -0.25101426),
        c(-1.7763568e-17, -0.25101426),
        c(-1.7763568e-15, -0.25101426),
        c(5.59017e-1, -0.6571639),
        c(5.59017e-1, 0.6571639),
    ];
    let rows: Vec<Vec<Complex<f32>>> = cells.chunks(19).map(|row| row.to_vec()).collect();
    Matrix::from_rows(rows, 19).unwrap()
}

fn short_sample_signal() -> Vec<f32> {
    (1..20).collect::<Vec<i32>>().iter().map(|x| *x as f32).collect()
}

fn short_sample_stft() -> ShortTimeFourierTransform {
    StftBuilder::new()
        .set_fft_num(5)
        .set_hop_len(1)
        .set_centred(true)
        .set_windowing_algorithm(WindowingAlgorithm::Hann(5))
        .build()
}

#[test]
fn short_sample() {
    let small = short_sample_stft();

    let result = small.run(&short_sample_signal(), &scalars()).unwrap();
    assert_eq!((result.rows(), result.cols()), (3, 19));

    let expected = short_sample_expected();
    assert_eq!((expected.rows(), expected.cols()), (result.rows(), result.cols()));

    for r in 0..3 {
        for c in 0..19 {
            let res = result.get(r, c);
            let exp = expected.get(r, c);
            assert!(within(res.re, exp.re, 0.000005));
            assert!(within(res.im, exp.im, 0.000005));
        }
    }
}

#[test]
fn short_sample_with_given_transform() {
    let small = short_sample_stft();

    let result = small.run(&short_sample_signal(), &scalars_with(slow_transform)).unwrap();
    assert_eq!((result.rows(), result.cols()), (3, 19));

    let expected = short_sample_expected();
    for r in 0..3 {
        for c in 0..19 {
            let res = result.get(r, c);
            let exp = expected.get(r, c);
            assert!(within(res.re, exp.re, 0.000005));
            assert!(within(res.im, exp.im, 0.000005));
        }
    }
}

#[test]
fn both_transforms_agree() {
    let stft = StftBuilder::new().set_fft_num(16).set_window_len(12).set_hop_len(3).build();
    let signal: Vec<f32> = (0..50).map(|k| ((k * k) % 17) as f32 - 8.0).collect();

    let fast = stft.run(&signal, &scalars()).unwrap();
    let slow = stft.run(&signal, &scalars_with(slow_transform)).unwrap();
    assert_eq!((fast.rows(), fast.cols()), (9, 17));
    assert_eq!((slow.rows(), slow.cols()), (9, 17));
    for r in 0..9 {
        for c in 0..17 {
            assert!(within(fast.get(r, c).re, slow.get(r, c).re, 0.0001));
            assert!(within(fast.get(r, c).im, slow.get(r, c).im, 0.0001));
        }
    }
}

#[test]
fn transform_is_applied_to_every_frame() {
    // With the identity in place of the transform the result shows the
    // tapered frames themselves.
    let stft = StftBuilder::new()
        .set_fft_num(4)
        .set_hop_len(2)
        .set_centred(false)
        .build();
    let signal: Vec<f32> = vec![1.0, 2.0, 3.0, 4.0, 5.0, 6.0, 7.0, 8.0];
    let identity = |frame: Vec<Complex<f32>>| frame;

    let result = stft.run(&signal, &scalars_with(identity)).unwrap();
    assert_eq!((result.rows(), result.cols()), (3, 3));
    let window = stft.get_window_matrix(&scalars());
    for r in 0..3 {
        for c in 0..3 {
            let expected = product(re_only(signal[r + 2 * c]), window[r]);
            assert_eq!(result.get(r, c), expected);
        }
    }
}

#[test]
fn short_spectra_are_filled_with_zero() {
    let stft = StftBuilder::new()
        .set_fft_num(4)
        .set_hop_len(2)
        .set_centred(false)
        .build();
    let signal: Vec<f32> = vec![1.0, 2.0, 3.0, 4.0, 5.0, 6.0];
    let first_only = |frame: Vec<Complex<f32>>| vec![frame[1]];

    let result = stft.run(&signal, &scalars_with(first_only)).unwrap();
    assert_eq!((result.rows(), result.cols()), (3, 2));
    let window = stft.get_window_matrix(&scalars());
    for c in 0..2 {
        assert_eq!(result.get(0, c), product(re_only(signal[1 + 2 * c]), window[1]));
        assert_eq!(result.get(1, c), re_only(0.0));
        assert_eq!(result.get(2, c), re_only(0.0));
    }
}

#[test]
fn too_short_signals_have_no_result() {
    let configurations = vec![
        StftBuilder::new().build(),
        ShortTimeFourierTransform::new(),
        StftBuilder::new().set_fft_num(5).set_hop_len(1).build(),
        StftBuilder::new().set_fft_num(8).set_centred(false).build(),
        // Parameters that no transform can be run with.
        StftBuilder::new().set_fft_num(3).build(),
        StftBuilder::new().set_fft_num(4).set_window_len(9).build(),
    ];
    for stft in configurations {
        let none: Vec<f32> = vec![];
        let one: Vec<f32> = vec![0.5];
        assert_eq!(stft.run(&none, &scalars()), None);
        assert_eq!(stft.run(&one, &scalars()), None);
        assert_eq!(stft.run(&none, &scalars_with(slow_transform)), None);
        assert_eq!(stft.run(&one, &scalars_with(slow_transform)), None);
        assert_eq!(stft.frames(&one, &scalars()), None);
    }
}

#[test]
fn unpadded_signal_shorter_than_a_frame_has_no_result() {
    let stft = StftBuilder::new().set_fft_num(8).set_hop_len(2).set_centred(false).build();
    let signal: Vec<f32> = vec![1.0, 2.0, 3.0, 4.0, 5.0, 6.0, 7.0];
    assert_eq!(stft.run(&signal, &scalars()), None);
    let longer: Vec<f32> = vec![1.0, 2.0, 3.0, 4.0, 5.0, 6.0, 7.0, 8.0];
    let result = stft.run(&longer, &scalars()).unwrap();
    assert_eq!((result.rows(), result.cols()), (5, 1));
}

#[test]
fn result_shape_follows_the_parameters() {
    // (n_fft, hop, centred, signal length, rows, columns)
    let cases: Vec<(usize, usize, bool, usize, usize, usize)> = vec![
        (5, 1, true, 19, 3, 19),
        (8, 2, true, 20, 5, 11),
        (8, 3, true, 20, 5, 7),
        (8, 3, false, 20, 5, 5),
        (8, 8, false, 8, 5, 1),
        (1, 1, true, 4, 1, 4),
        (2, 1, true, 2, 2, 3),
        (16, 5, true, 2, 9, 1),
        (7, 10, true, 30, 4, 3),
    ];
    for (n_fft, hop, centred, len, rows, cols) in cases {
        let stft = StftBuilder::new()
            .set_fft_num(n_fft)
            .set_hop_len(hop)
            .set_centred(centred)
            .build();
        let signal: Vec<f32> = (0..len).map(|k| (k % 7) as f32).collect();
        let padded = if centred { len + 2 * (n_fft / 2) } else { len };
        assert_eq!(stft.frame_count(padded), cols);
        let result = stft.run(&signal, &scalars()).unwrap();
        assert_eq!((result.rows(), result.cols()), (rows, cols));
        assert_eq!(result.rows(), n_fft / 2 + 1);
        assert_eq!(stft.bins(), rows);
    }
}

#[test]
fn energy_stays_within_the_bound_of_the_frames() {
    // Every frame holds at most the energy of the padded samples it covers,
    // its spectrum holds n_fft times that, and a padded sample lies in at
    // most ceil(n_fft / hop) frames.
    let n_fft = 16usize;
    let hop = 4usize;
    let stft = StftBuilder::new().set_fft_num(n_fft).set_hop_len(hop).build();
    let signal: Vec<f32> = (0..200).map(|k| (((k * 37) % 101) as f32 - 50.0) / 50.0).collect();

    let mut padded = signal.clone();
    stft.apply_padding(&mut padded);
    let time_energy: f64 = padded.iter().map(|x| (*x as f64) * (*x as f64)).sum();

    let result = stft.run(&signal, &scalars()).unwrap();
    let mut frequency_energy = 0.0f64;
    for r in 0..result.rows() {
        for c in 0..result.cols() {
            let x = result.get(r, c);
            frequency_energy += (x.re as f64) * (x.re as f64) + (x.im as f64) * (x.im as f64);
        }
    }
    let bound = (n_fft as f64) * ((n_fft + hop - 1) / hop) as f64 * time_energy;
    assert!(frequency_energy > 0.0);
    assert!(frequency_energy <= bound * (1.0 + 1e-4));
}
