use periodicsynth::{null, saw, sin, sqr, synth, synth_into, Amplitude, Ratio, TimePos, Waveform};

fn as_float(amp: Amplitude) -> f64 {
    match amp {
        Amplitude::Exact(r) => r.num as f64 / r.den as f64,
        Amplitude::SineOf(r) => (2.0 * std::f64::consts::PI * (r.num as f64 / r.den as f64)).sin(),
    }
}

fn time_of(t: TimePos) -> f64 {
    t.index() as f64 / t.count() as f64
}

fn float_sine(t: TimePos, f: &mut f64) -> f64 {
    (2.0 * std::f64::consts::PI * time_of(t) * *f).sin()
}

fn counting(_t: TimePos, calls: &mut usize) -> usize {
    *calls += 1;
    *calls
}

fn recording(t: TimePos, seen: &mut Vec<(usize, usize)>) -> usize {
    seen.push((t.index(), t.count()));
    seen.len()
}

#[test]
fn length_is_the_number_of_samples_asked_for() {
    for n in [1usize, 2, 3, 7, 8, 100, 8000] {
        assert_eq!(synth(sin, &mut 440u64, n).len(), n);
        assert_eq!(synth(float_sine, &mut 440.0f64, n).len(), n);
        assert_eq!(synth(counting, &mut 0usize, n).len(), n);
    }
}

#[test]
fn no_samples_means_no_calls() {
    let mut calls = 0usize;
    let samples = synth(counting, &mut calls, 0);
    assert!(samples.is_empty());
    assert_eq!(calls, 0);
    let mut seen: Vec<(usize, usize)> = Vec::new();
    assert!(synth(recording, &mut seen, 0).is_empty());
    assert!(seen.is_empty());
}

#[test]
fn one_call_for_each_sample_in_order() {
    let mut calls = 0usize;
    let samples = synth(counting, &mut calls, 5);
    assert_eq!(samples, vec![1, 2, 3, 4, 5]);
    assert_eq!(calls, 5);
}

#[test]
fn time_starts_at_zero_and_steps_evenly() {
    let mut seen: Vec<(usize, usize)> = Vec::new();
    let samples = synth(recording, &mut seen, 6);
    assert_eq!(samples, vec![1, 2, 3, 4, 5, 6]);
    assert_eq!(seen, vec![(0, 6), (1, 6), (2, 6), (3, 6), (4, 6), (5, 6)]);
}

#[test]
fn time_positions_as_numbers() {
    let times = synth(|t: TimePos, _d: &mut ()| time_of(t), &mut (), 4);
    assert_eq!(times, vec![0.0, 0.25, 0.5, 0.75]);
    let coarse = synth(|t: TimePos, _d: &mut ()| time_of(t), &mut (), 1);
    assert_eq!(coarse, vec![0.0]);
}

#[test]
fn silence_for_eight_thousand_samples() {
    let samples = synth(|_t: TimePos, _d: &mut ()| null((), ()), &mut (), 8000);
    assert_eq!(samples.len(), 8000);
    for s in samples {
        assert_eq!(s, Amplitude::Exact(Ratio { num: 0, den: 1 }));
        assert_eq!(as_float(s), 0.0);
    }
    let zeros = synth(|_t: TimePos, _d: &mut f64| 0.0f64, &mut 1.0, 8000);
    assert_eq!(zeros, vec![0.0; 8000]);
}

#[test]
fn sine_at_440_over_eight_samples() {
    let floats = synth(float_sine, &mut 440.0f64, 8);
    assert_eq!(floats.len(), 8);
    let mut f = 440u64;
    let exact = synth(sin, &mut f, 8);
    assert_eq!(exact.len(), 8);
    assert_eq!(f, 440);
    for k in 0..8 {
        let want = (2.0 * std::f64::consts::PI * (k as f64 / 8.0) * 440.0).sin();
        assert!((floats[k] - want).abs() <= 1e-9 * want.abs().max(1.0));
        assert!((as_float(exact[k]) - want).abs() <= 1e-9);
        assert_eq!(exact[k], Amplitude::SineOf(Ratio { num: 0, den: 8 }));
    }
}

#[test]
fn sine_at_three_over_eight_samples() {
    let exact = synth(sin, &mut 3u64, 8);
    let turns: [i128; 8] = [0, 3, 6, 1, 4, 7, 2, 5];
    for k in 0..8 {
        assert_eq!(exact[k], Amplitude::SineOf(Ratio { num: turns[k], den: 8 }));
        let want = (2.0 * std::f64::consts::PI * (k as f64 / 8.0) * 3.0).sin();
        assert!((as_float(exact[k]) - want).abs() <= 1e-9);
    }
}

#[test]
fn one_sample_is_the_sine_of_zero() {
    for f in [0u64, 1, 440, 9999, u64::MAX] {
        let mut freq = f;
        let samples = synth(sin, &mut freq, 1);
        assert_eq!(samples, vec![Amplitude::SineOf(Ratio { num: 0, den: 1 })]);
        assert_eq!(as_float(samples[0]), 0.0);
        assert_eq!(freq, f);
    }
    for f in [0.5f64, 1.0, 440.0, -3.0] {
        assert_eq!(synth(float_sine, &mut f.clone(), 1), vec![0.0]);
    }
}

#[test]
fn data_is_threaded_from_call_to_call() {
    // A sweep: each sample is taken at the frequency that the one before left.
    let sweep = |t: TimePos, f: &mut u64| {
        let amp = sqr(t, f);
        *f += 1;
        amp
    };
    let mut f = 1u64;
    let samples = synth(sweep, &mut f, 4);
    assert_eq!(f, 5);
    let t = |k: usize| TimePos::new(k, 4).unwrap();
    assert_eq!(
        samples,
        vec![sqr(t(0), &mut 1), sqr(t(1), &mut 2), sqr(t(2), &mut 3), sqr(t(3), &mut 4)]
    );
}

#[test]
fn synth_of_a_waveform_function_is_that_function_at_each_position() {
    let samples = synth(saw, &mut 2u64, 10);
    for k in 0..10 {
        assert_eq!(samples[k], saw(TimePos::new(k, 10).unwrap(), &mut 2));
    }
}

#[test]
fn synth_into_overwrites_every_element() {
    let junk = Amplitude::Exact(Ratio { num: 99, den: 7 });
    for kind in [
        Waveform::Sine,
        Waveform::Square,
        Waveform::Triangle,
        Waveform::Sawtooth,
        Waveform::Cosine,
        Waveform::Null,
    ] {
        let mut samples = vec![junk; 12];
        synth_into(&mut samples, kind, 5);
        assert_eq!(samples.len(), 12);
        for k in 0..12 {
            assert_eq!(samples[k], kind.evaluate(TimePos::new(k, 12).unwrap(), 5));
        }
    }
}

#[test]
fn synth_into_square_over_one_cycle() {
    let mut samples = vec![Amplitude::Exact(Ratio { num: 5, den: 1 }); 8];
    synth_into(&mut samples, Waveform::Square, 1);
    let levels: Vec<f64> = samples.into_iter().map(as_float).collect();
    assert_eq!(levels, vec![0.0, 1.0, 1.0, 1.0, 0.0, -1.0, -1.0, -1.0]);
}

#[test]
fn synth_into_triangle_and_sawtooth_values() {
    let mut samples = vec![Amplitude::Exact(Ratio { num: 0, den: 1 }); 4];
    synth_into(&mut samples, Waveform::Triangle, 1);
    let levels: Vec<f64> = samples.iter().map(|a| as_float(*a)).collect();
    assert_eq!(levels, vec![0.0, 1.0, 0.0, -1.0]);
    synth_into(&mut samples, Waveform::Sawtooth, 1);
    let levels: Vec<f64> = samples.iter().map(|a| as_float(*a)).collect();
    assert_eq!(levels, vec![0.0, 0.5, -1.0, -0.5]);
}

#[test]
fn synth_into_leaves_an_empty_sequence_empty() {
    let mut samples: Vec<Amplitude> = Vec::new();
    synth_into(&mut samples, Waveform::Sine, 440);
    assert!(samples.is_empty());
    synth_into(&mut samples, Waveform::Sawtooth, 0);
    assert!(samples.is_empty());
}

#[test]
fn synth_into_a_single_sample_is_taken_at_time_zero() {
    let mut samples = vec![Amplitude::Exact(Ratio { num: 1, den: 1 })];
    synth_into(&mut samples, Waveform::Sine, 440);
    assert_eq!(samples, vec![Amplitude::SineOf(Ratio { num: 0, den: 1 })]);
    synth_into(&mut samples, Waveform::Cosine, 440);
    assert_eq!(samples, vec![Amplitude::SineOf(Ratio { num: 0, den: 2 })]);
}

#[test]
fn synth_into_agrees_with_synth() {
    let mut filled = vec![Amplitude::Exact(Ratio { num: 0, den: 1 }); 16];
    synth_into(&mut filled, Waveform::Sawtooth, 3);
    assert_eq!(filled, synth(saw, &mut 3u64, 16));
}
