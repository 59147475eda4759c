use os3000::processing::{center_waveform_data, pad_with_last, stride_indices};

#[test]
fn zero_line_centers_to_zero() {
    // scenario: 986 raw bytes all on the 128 zero line come out all zero
    let raw: Vec<u8> = vec![128; 986];
    let centered = center_waveform_data(&raw);
    assert_eq!(centered.len(), 986);
    assert!(centered.iter().all(|&v| v == 0));
    // for any non-zero scaling the voltage is still exactly 0.0
    let voltage_per_division = 1.0f64;
    let scale_factor = 1.0f64;
    let volts: Vec<f64> = centered
        .iter()
        .map(|&v| v as f64 * (voltage_per_division / 25.0) * scale_factor)
        .collect();
    assert_eq!(volts.len(), 986);
    assert!(volts.iter().all(|&v| v == 0.0));
}

#[test]
fn centering_is_antisymmetric() {
    let centered = center_waveform_data(&vec![127, 128, 129, 0, 255]);
    assert_eq!(centered, vec![1, 0, -1, 128, -127]);
    // equal magnitude, opposite sign, also after a non-trivial scaling
    let voltage_per_division = 2.0f64;
    let scale_factor = 3.0f64;
    let scale = |v: i16| v as f64 * (voltage_per_division / 25.0) * scale_factor;
    assert_eq!(scale(centered[0]), -scale(centered[2]));
    assert!(scale(centered[0]) > 0.0);
    assert!(scale(centered[2]) < 0.0);
}

#[test]
fn padding_repeats_last_value() {
    let mut values: Vec<i16> = vec![1, 2, 3];
    pad_with_last(&mut values, 6);
    assert_eq!(values, vec![1, 2, 3, 3, 3, 3]);
}

#[test]
fn padding_leaves_long_vectors_alone() {
    let mut values: Vec<i16> = vec![1, 2, 3];
    pad_with_last(&mut values, 2);
    assert_eq!(values, vec![1, 2, 3]);
    let mut empty: Vec<i16> = Vec::new();
    pad_with_last(&mut empty, 0);
    assert!(empty.is_empty());
}

#[test]
fn stride_walk_hits_every_multiple() {
    assert_eq!(stride_indices(10, 3), vec![0, 3, 6, 9]);
    assert_eq!(stride_indices(9, 3), vec![0, 3, 6]);
    assert_eq!(stride_indices(5, 1), vec![0, 1, 2, 3, 4]);
    assert_eq!(stride_indices(1, 5), vec![0]);
    assert_eq!(stride_indices(0, 2), Vec::<usize>::new());
}

#[test]
fn padding_works_on_float_samples() {
    // the interpolation kernels pad their f64 output through the same step
    let mut values: Vec<f64> = vec![0.25, -1.5];
    pad_with_last(&mut values, 5);
    assert_eq!(values, vec![0.25, -1.5, -1.5, -1.5, -1.5]);
}
