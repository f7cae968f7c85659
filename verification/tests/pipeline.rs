// Exercises the structural guarantees of the library inside a real
// floating-point spectrum pipeline: Hann window, forward FFT (rustfft),
// then decibel magnitudes, with lengths and bin slicing taken from the
// verified configuration and binning routines.

use rustfft::num_complex::Complex;
use rustfft::FftPlanner;

use spectrum_core::binned_means;
use spectrum_core::AnalysisConfig;

fn run_spectrum(cfg: &AnalysisConfig, samples: &[f32]) -> Vec<f32> {
    let n = cfg.transform_size();
    let mut planner = FftPlanner::<f32>::new();
    let fft = planner.plan_fft_forward(n);
    let window: Vec<f32> = (0..n)
        .map(|i| 0.5 * (1.0 - (2.0 * std::f32::consts::PI * i as f32 / (n - 1) as f32).cos()))
        .collect();
    let len = cfg.effective_input_len(samples.len());
    let mut buffer: Vec<Complex<f32>> = (0..n)
        .map(|i| {
            if i < len {
                Complex::new(samples[i] * window[i], 0.0)
            } else {
                Complex::new(0.0, 0.0)
            }
        })
        .collect();
    fft.process(&mut buffer);
    let half = cfg.magnitude_len();
    (0..half).map(|i| 20.0 * (buffer[i].norm() / n as f32).max(1e-10).log10()).collect()
}

fn to_milli_db(v: f32) -> i64 {
    ((v as f64) * 1000.0).round() as i64
}

#[test]
fn test_audio_processor() {
    let cfg = AnalysisConfig::new(1024).unwrap();
    let samples: Vec<f32> = (0..1024).map(|i| (i as f32 * 0.1).sin()).collect();
    let result = run_spectrum(&cfg, &samples);
    assert_eq!(result.len(), 512);
}

#[test]
fn test_frequency_bins() {
    let cfg = AnalysisConfig::new(1024).unwrap();
    let samples: Vec<f32> = (0..1024).map(|i| (i as f32 * 0.1).sin()).collect();
    let magnitudes = run_spectrum(&cfg, &samples);
    let scaled: Vec<i64> = magnitudes.iter().map(|&v| to_milli_db(v)).collect();
    let bins = binned_means(&scaled, 32).unwrap();
    assert_eq!(bins.len(), 32);
}

#[test]
fn short_input_is_zero_padded_to_full_length() {
    let cfg = AnalysisConfig::new(16).unwrap();
    let samples: Vec<f32> = vec![0.5, -0.25, 0.125];
    let result = run_spectrum(&cfg, &samples);
    assert_eq!(result.len(), 8);
}

#[test]
fn all_zero_input_hits_the_decibel_floor() {
    let cfg = AnalysisConfig::new(8).unwrap();
    let samples: Vec<f32> = vec![0.0; 8];
    let result = run_spectrum(&cfg, &samples);
    let floor = 20.0f32 * 1e-10f32.log10();
    assert_eq!(result.len(), 4);
    for value in result {
        assert_eq!(value, floor);
    }
}

#[test]
fn overlong_input_matches_truncated_input() {
    let cfg = AnalysisConfig::new(8).unwrap();
    let long: Vec<f32> = (0..20).map(|i| ((i * 37 % 11) as f32 - 5.0) / 5.0).collect();
    let short: Vec<f32> = long[..8].to_vec();
    let from_long = run_spectrum(&cfg, &long);
    let from_short = run_spectrum(&cfg, &short);
    assert_eq!(from_long, from_short);
}

#[test]
fn full_cycle_energy_sits_outside_the_dc_bin() {
    let cfg = AnalysisConfig::new(4).unwrap();
    let samples: Vec<f32> = vec![1.0, 0.0, -1.0, 0.0];
    let result = run_spectrum(&cfg, &samples);
    assert_eq!(result.len(), 2);
    let floor = 20.0f32 * 1e-10f32.log10();
    assert!(result[1] > floor);
    assert!(result[1] >= result[0]);
    for &value in &result {
        assert!(result[1] >= value);
    }
}
