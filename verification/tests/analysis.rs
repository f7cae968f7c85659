use spectrum_core::binned_means;
use spectrum_core::AnalysisConfig;
use spectrum_core::SpectrumError;

#[test]
fn new_rejects_zero_and_one() {
    assert_eq!(AnalysisConfig::new(0).unwrap_err(), SpectrumError::InvalidConfig);
    assert_eq!(AnalysisConfig::new(1).unwrap_err(), SpectrumError::InvalidConfig);
}

#[test]
fn new_accepts_two_and_more() {
    let small = AnalysisConfig::new(2).unwrap();
    assert_eq!(small.transform_size(), 2);
    assert_eq!(small.magnitude_len(), 1);
    let big = AnalysisConfig::new(1024).unwrap();
    assert_eq!(big.transform_size(), 1024);
    assert_eq!(big.magnitude_len(), 512);
}

#[test]
fn magnitude_len_rounds_down() {
    let odd = AnalysisConfig::new(9).unwrap();
    assert_eq!(odd.magnitude_len(), 4);
}

#[test]
fn effective_input_len_pads_and_truncates() {
    let cfg = AnalysisConfig::new(8).unwrap();
    assert_eq!(cfg.effective_input_len(5), 5);
    assert_eq!(cfg.effective_input_len(8), 8);
    assert_eq!(cfg.effective_input_len(20), 8);
    assert_eq!(cfg.effective_input_len(0), 0);
}

#[test]
fn binned_means_averages_slices() {
    let values: Vec<i64> = vec![0, 2, 4, 6];
    let bins = binned_means(&values, 2).unwrap();
    assert_eq!(bins, vec![1, 5]);
}

#[test]
fn binned_means_drops_division_remainder() {
    let values: Vec<i64> = vec![10, 20, 30, 40, 50];
    let bins = binned_means(&values, 2).unwrap();
    assert_eq!(bins, vec![15, 35]);
}

#[test]
fn binned_means_identity_when_one_bin_per_value() {
    let values: Vec<i64> = vec![-3, 7, 12];
    let bins = binned_means(&values, 3).unwrap();
    assert_eq!(bins, values);
}

#[test]
fn binned_means_more_bins_than_values_gives_zeros() {
    let values: Vec<i64> = vec![5, 9];
    let bins = binned_means(&values, 4).unwrap();
    assert_eq!(bins, vec![0, 0, 0, 0]);
}

#[test]
fn binned_means_single_bin_rounds_toward_zero() {
    let values: Vec<i64> = vec![-3, -4];
    let bins = binned_means(&values, 1).unwrap();
    assert_eq!(bins, vec![-3]);
}

#[test]
fn binned_means_rejects_zero_bins() {
    let values: Vec<i64> = vec![1, 2, 3];
    assert_eq!(binned_means(&values, 0).unwrap_err(), SpectrumError::InvalidConfig);
}

#[test]
fn binned_means_empty_spectrum() {
    let values: Vec<i64> = vec![];
    let bins = binned_means(&values, 3).unwrap();
    assert_eq!(bins, vec![0, 0, 0]);
}
