use daq_viewer::histogram::{
    build_histogram, clip_and_redistribute, compute_clahe_lut, compute_histogram_equalization_lut,
};
use daq_viewer::pixels::get_pixel_value_inline;

#[test]
fn test_get_pixel_value_8bit() {
    let data = vec![10u8, 20, 30, 40, 50, 60, 70, 80, 90];
    let width = 3;
    let height = 3;

    // Test valid positions
    assert_eq!(get_pixel_value_inline(&data, 0, 0, width, height, 8), Some(10));
    assert_eq!(get_pixel_value_inline(&data, 1, 0, width, height, 8), Some(20));
    assert_eq!(get_pixel_value_inline(&data, 2, 2, width, height, 8), Some(90));

    // Test out of bounds
    assert_eq!(get_pixel_value_inline(&data, 3, 0, width, height, 8), None);
    assert_eq!(get_pixel_value_inline(&data, 0, 3, width, height, 8), None);
}

#[test]
fn test_get_pixel_value_16bit() {
    // Little-endian 16-bit data: [0x0100, 0x0200, 0x0300, 0x0400]
    let data = vec![0x00, 0x01, 0x00, 0x02, 0x00, 0x03, 0x00, 0x04];
    let width = 2;
    let height = 2;

    assert_eq!(get_pixel_value_inline(&data, 0, 0, width, height, 16), Some(0x0100));
    assert_eq!(get_pixel_value_inline(&data, 1, 0, width, height, 16), Some(0x0200));
    assert_eq!(get_pixel_value_inline(&data, 0, 1, width, height, 16), Some(0x0300));
    assert_eq!(get_pixel_value_inline(&data, 1, 1, width, height, 16), Some(0x0400));

    // Out of bounds
    assert_eq!(get_pixel_value_inline(&data, 2, 0, width, height, 16), None);
}

#[test]
fn test_get_pixel_value_edge_cases() {
    let data = vec![42u8];
    // Single pixel
    assert_eq!(get_pixel_value_inline(&data, 0, 0, 1, 1, 8), Some(42));
    assert_eq!(get_pixel_value_inline(&data, 1, 0, 1, 1, 8), None);

    // Empty data
    let empty: Vec<u8> = vec![];
    assert_eq!(get_pixel_value_inline(&empty, 0, 0, 0, 0, 8), None);

    // Invalid bit depth
    assert_eq!(get_pixel_value_inline(&data, 0, 0, 1, 1, 32), None);
}

#[test]
fn get_pixel_value_12bit_and_short_data() {
    let data = vec![0xff, 0x0f, 0x01];
    assert_eq!(get_pixel_value_inline(&data, 0, 0, 2, 1, 12), Some(4095));
    // second pixel would need bytes 2 and 3; only byte 2 exists
    assert_eq!(get_pixel_value_inline(&data, 1, 0, 2, 1, 12), None);
    assert_eq!(get_pixel_value_inline(&data, 1, 0, 2, 1, 8), Some(0x0f));
}

#[test]
fn test_build_histogram_8bit() {
    // Create data with known distribution
    let data = vec![0u8, 0, 128, 128, 128, 255, 255];
    let hist = build_histogram(&data, 8, 256);

    assert_eq!(hist.len(), 256);
    assert_eq!(hist[0], 2); // Two zeros
    assert_eq!(hist[128], 3); // Three 128s
    assert_eq!(hist[255], 2); // Two 255s
}

#[test]
fn test_build_histogram_16bit() {
    // Create 16-bit data
    let mut data = Vec::new();
    data.extend_from_slice(&0u16.to_le_bytes()); // 0
    data.extend_from_slice(&32768u16.to_le_bytes()); // Mid value
    data.extend_from_slice(&65535u16.to_le_bytes()); // Max value

    let hist = build_histogram(&data, 16, 256);

    assert_eq!(hist.len(), 256);
    assert!(hist[0] > 0); // Should have bin for 0
    assert!(hist[255] > 0); // Should have bin for 65535
    // 32768 * (255/65535) = 127.5, truncates to bin 127
    assert!(hist[127] > 0); // Should have bin for 32768
}

#[test]
fn build_histogram_12bit_scaling_and_unknown_depth() {
    let mut data = Vec::new();
    data.extend_from_slice(&4095u16.to_le_bytes());
    data.extend_from_slice(&2048u16.to_le_bytes());
    data.extend_from_slice(&60000u16.to_le_bytes()); // above the 12-bit range: last bin
    let hist = build_histogram(&data, 12, 256);
    // 2048 * 255 / 4095 = 127.53.. -> 127
    assert_eq!(hist[127], 1);
    assert_eq!(hist[255], 2);
    let none = build_histogram(&data, 32, 4);
    assert_eq!(none, vec![0, 0, 0, 0]);
    // a single bin takes everything
    assert_eq!(build_histogram(&[1u8, 2, 3], 8, 1), vec![3]);
}

#[test]
fn test_histogram_equalization_lut() {
    // Create a simple histogram with uneven distribution
    let histogram = vec![100u32, 0, 0, 0, 200, 0, 0, 0]; // 300 pixels total
    let lut = compute_histogram_equalization_lut(&histogram, 300);

    assert_eq!(lut.numerators.len(), 8);
    // First bin (the first occupied one) maps to 0, below one half
    assert!(2 * lut.numerators[0] < lut.denominator);
    // Fifth bin (200 pixels) should map to near 1.0 (above one half)
    assert!(2 * lut.numerators[4] > lut.denominator);
}

#[test]
fn equalization_lut_exact_values() {
    let histogram = vec![0u32, 5, 0, 15];
    let lut = compute_histogram_equalization_lut(&histogram, 20);
    // cdf = [0, 5, 5, 20], first non-zero cdf value 5, range 20 - 5 = 15
    assert_eq!(lut.denominator, 15);
    assert_eq!(lut.numerators, vec![0, 0, 0, 15]);
    // an all-zero histogram gives zero numerators over the pixel total
    let zeros = compute_histogram_equalization_lut(&[0u32, 0], 7);
    assert_eq!(zeros.numerators, vec![0, 0]);
    assert_eq!(zeros.denominator, 7);
    // the denominator is at least 1
    let tiny = compute_histogram_equalization_lut(&[3u32], 3);
    assert_eq!(tiny.denominator, 1);
}

#[test]
fn test_clahe_lut() {
    let histogram = vec![100u32, 200, 300, 400, 100]; // 1100 pixels
    // clip limit 2.0 over 1100 pixels and 5 bins: (2.0 * 1100 / 5) = 440
    let lut = compute_clahe_lut(&histogram, 1100, 440);

    assert_eq!(lut.numerators.len(), 5);
    // CLAHE should produce monotonically increasing LUT
    for i in 1..lut.numerators.len() {
        assert!(lut.numerators[i] >= lut.numerators[i - 1]);
    }
}

#[test]
fn clahe_clips_and_redistributes() {
    // excess above 3: (10-3) + (5-3) = 9, shared over 3 bins: 3 each
    assert_eq!(clip_and_redistribute(&[10u32, 1, 5], 3), vec![6, 4, 6]);
}

#[test]
fn histogram_bins_add_up_to_the_sample_count() {
    let data: Vec<u8> = (0..=255u8).chain(0..=99u8).collect();
    for bins in [1usize, 2, 7, 256, 1000] {
        let hist = build_histogram(&data, 8, bins);
        assert_eq!(hist.iter().map(|&c| c as usize).sum::<usize>(), data.len());
    }
    let wide: Vec<u8> = (0..300u16).flat_map(|v| (v * 211).to_le_bytes()).chain([7u8]).collect();
    let hist = build_histogram(&wide, 16, 64);
    assert_eq!(hist.iter().map(|&c| c as usize).sum::<usize>(), 300);
}

#[test]
fn equalization_tables_never_decrease() {
    let histogram = vec![0u32, 3, 0, 9, 1, 0, 4];
    let total = 17;
    let t = compute_histogram_equalization_lut(&histogram, total);
    assert!(t.numerators.windows(2).all(|w| w[0] <= w[1]));
    assert!(t.numerators.iter().all(|&n| n <= t.denominator));
    let c = compute_clahe_lut(&histogram, total, 2);
    assert!(c.numerators.windows(2).all(|w| w[0] <= w[1]));
}

#[test]
fn clahe_without_clipping_matches_equalization_and_table_ends() {
    let histogram = vec![0u32, 4, 0, 3, 5];
    let eq = compute_histogram_equalization_lut(&histogram, 12);
    let cl = compute_clahe_lut(&histogram, 12, 5);
    assert_eq!(eq.numerators, cl.numerators);
    assert_eq!(eq.denominator, cl.denominator);
    // First occupied bin maps to 0, the last bin to the full range.
    assert_eq!(eq.numerators[1], 0);
    assert_eq!(eq.numerators[4], eq.denominator);
    assert_eq!(eq.denominator, 8);
}
