use daq_viewer::histogram::{
    auto_contrast_bounds, histogram_rank_value, sample_range, sample_rank_value, sample_summary,
    value_histogram,
};
use daq_viewer::rgba::{fill_checkerboard, frame_pixel_budget, prepare_rgba_buffer, render_frame_into};

fn gray(v: u16) -> (u8, u8, u8) {
    let g = (v >> 8) as u8;
    (g, g, g)
}

fn gray8(v: u16) -> (u8, u8, u8) {
    let g = v as u8;
    (g, g, g)
}

/// Contrast bounds normalised to 0..1 the way the display does, with the
/// full range when there are no distinct bounds.
fn normalised_bounds(data: &[u8], bit_depth: u32, bit_max: f32) -> (f32, f32) {
    match auto_contrast_bounds(data, bit_depth) {
        Some((lo, hi)) => (f32::from(lo) / bit_max, f32::from(hi) / bit_max),
        None => (0.0, 1.0),
    }
}

/// Percentile bounds: index `p/100 * len`, clamped to the last sample.
fn percentile_bounds(data: &[u8], bit_depth: u32, bit_max: f32, low: f32, high: f32) -> (f32, f32) {
    let n = match sample_range(data, bit_depth) {
        None => return (0.0, 1.0),
        Some(_) => daq_viewer::histogram::sample_total(data, bit_depth),
    };
    let idx = |p: f32| ((p / 100.0) * n as f32).clamp(0.0, (n - 1) as f32) as u64;
    let lo = sample_rank_value(data, bit_depth, idx(low));
    let hi = sample_rank_value(data, bit_depth, idx(high));
    (f32::from(lo) / bit_max, f32::from(hi) / bit_max)
}

#[test]
fn test_compute_minmax_8bit() {
    let data = vec![10u8, 50, 100, 200, 255];
    let (min, max) = normalised_bounds(&data, 8, 255.0);

    assert!((min - 10.0 / 255.0).abs() < 0.001);
    assert!((max - 1.0).abs() < 0.001);
}

#[test]
fn test_compute_minmax_16bit() {
    let data = vec![
        100u8, 0, // 100
        0xe8, 0x03, // 1000
        0x10, 0x27, // 10000
        0xff, 0xff, // 65535
    ];

    let (min, max) = normalised_bounds(&data, 16, 65535.0);

    assert!((min - 100.0 / 65535.0).abs() < 0.001);
    assert!((max - 1.0).abs() < 0.001);
}

#[test]
fn test_compute_minmax_single_value() {
    let data = vec![128u8; 10];
    let (min, max) = normalised_bounds(&data, 8, 255.0);

    assert_eq!(min, 0.0);
    assert_eq!(max, 1.0);
}

#[test]
fn test_compute_minmax_empty() {
    let data: Vec<u8> = vec![];
    let (min, max) = normalised_bounds(&data, 8, 255.0);

    assert_eq!(min, 0.0);
    assert_eq!(max, 1.0);
}

#[test]
fn test_compute_percentile_minmax() {
    let mut data: Vec<u8> = (0..100).collect();
    data.push(255);

    let (min, max) = percentile_bounds(&data, 8, 255.0, 1.0, 99.0);

    assert!(min > 0.0 / 255.0);
    assert!(max < 255.0 / 255.0);
    assert!(max > 98.0 / 255.0);
}

#[test]
fn test_compute_percentile_minmax_16bit() {
    let mut data = Vec::new();
    for i in 0..100u16 {
        data.extend_from_slice(&i.to_le_bytes());
    }

    let (min, max) = percentile_bounds(&data, 16, 65535.0, 5.0, 95.0);

    assert!(min > 0.0);
    assert!(max < 1.0);
}

#[test]
fn auto_contrast_bounds_exact_values() {
    assert_eq!(auto_contrast_bounds(&[7, 3, 9, 3], 8), Some((3, 9)));
    assert_eq!(auto_contrast_bounds(&[5, 5, 5], 8), None);
    assert_eq!(auto_contrast_bounds(&[], 8), None);
    assert_eq!(auto_contrast_bounds(&[1, 2, 3, 4], 32), None);
    // 12-bit data read as little-endian pairs; a trailing odd byte is ignored.
    assert_eq!(auto_contrast_bounds(&[0xff, 0x0f, 0x01, 0x00, 0x77], 12), Some((1, 4095)));
}

#[test]
fn rank_values_and_ranges() {
    let data = vec![9u8, 1, 5, 5, 3];
    assert_eq!(sample_rank_value(&data, 8, 0), 1);
    assert_eq!(sample_rank_value(&data, 8, 1), 3);
    assert_eq!(sample_rank_value(&data, 8, 2), 5);
    assert_eq!(sample_rank_value(&data, 8, 3), 5);
    assert_eq!(sample_rank_value(&data, 8, 4), 9);
    assert_eq!(sample_range(&data, 8), Some((1, 9)));
    assert_eq!(sample_range(&[], 16), None);
    assert_eq!(histogram_rank_value(&[0, 2, 0, 3], 0), 1);
    assert_eq!(histogram_rank_value(&[0, 2, 0, 3], 2), 3);
    assert_eq!(histogram_rank_value(&[0, 2, 0, 3], 4), 3);
}

#[test]
fn value_histogram_and_summary() {
    let data = vec![0x10u8, 0x00, 0x20, 0x00, 0x10, 0x00];
    let h = value_histogram(&data, 16);
    assert_eq!(h.len(), 65536);
    assert_eq!(h[0x10], 2);
    assert_eq!(h[0x20], 1);
    let s = sample_summary(&data, 16).unwrap();
    assert_eq!(s.count, 3);
    assert_eq!(s.sum, 0x40);
    assert_eq!(s.min, 0x10);
    assert_eq!(s.max, 0x20);
    assert_eq!(s.histogram[0x10], 2);
    assert!(sample_summary(&[], 8).is_none());
    let s8 = sample_summary(&[4, 6, 200], 8).unwrap();
    assert_eq!(s8.histogram.len(), 256);
    assert_eq!((s8.count, s8.sum, s8.min, s8.max), (3, 210, 4, 200));
}

#[test]
fn test_convert_frame_zero_dimensions() {
    let data: Vec<u8> = vec![];
    let mut buffer = Vec::new();
    let accepted = render_frame_into(&data, 0, 0, 8, &mut buffer, gray8);

    assert!(!accepted);
    assert_eq!(buffer.len(), 0);
}

#[test]
fn test_oversized_frame_protection() {
    let data = vec![0u8; 1000];
    let mut buffer = vec![1u8; 8];
    let accepted = render_frame_into(&data, u32::MAX / 2, u32::MAX / 2, 8, &mut buffer, gray8);

    assert!(!accepted);
    assert_eq!(buffer.len(), 0);
}

#[test]
fn test_single_pixel_frame() {
    let data = vec![200u8];
    let mut buffer = Vec::new();
    assert!(render_frame_into(&data, 1, 1, 8, &mut buffer, gray8));

    assert_eq!(buffer.len(), 4);
    assert_eq!(buffer[3], 255);
    assert_eq!(&buffer[..3], &[200, 200, 200]);
}

#[test]
fn test_invalid_bit_depth() {
    let data = vec![100u8; 16];
    let mut buffer = Vec::new();
    assert!(render_frame_into(&data, 4, 4, 32, &mut buffer, gray8));

    assert_eq!(buffer.len(), 64);
    // Every pixel of a 4x4 frame lies in the first tile.
    for px in buffer.chunks(4) {
        assert_eq!(px, &[255, 0, 255, 255]);
    }
}

#[test]
fn test_convert_frame_buffer_reuse() {
    let data = vec![128u8; 100];
    let mut buffer = Vec::with_capacity(400);
    render_frame_into(&data, 10, 10, 8, &mut buffer, gray8);

    let capacity1 = buffer.capacity();
    assert_eq!(buffer.len(), 400);

    render_frame_into(&data, 10, 10, 8, &mut buffer, gray8);
    assert_eq!(buffer.capacity(), capacity1);
}

#[test]
fn render_sixteen_bit_and_short_data() {
    // Three pixels declared, two samples present: the third keeps its colour
    // bytes; every pixel is opaque.
    let data = vec![0x00, 0x00, 0xff, 0xff];
    let mut buffer = vec![9u8; 12];
    assert!(render_frame_into(&data, 3, 1, 16, &mut buffer, gray));
    assert_eq!(buffer, vec![0, 0, 0, 255, 255, 255, 255, 255, 9, 9, 9, 255]);
}

#[test]
fn frame_limits() {
    assert_eq!(frame_pixel_budget(0, 5, 8), None);
    assert_eq!(frame_pixel_budget(65537, 1, 8), None);
    assert_eq!(frame_pixel_budget(65536, 1, 16), Some(65536));
    // 100 MiB is the largest raw frame: 10240 x 10240 x 1 byte fits, x 2 bytes not.
    assert_eq!(frame_pixel_budget(10240, 10240, 8), Some(104857600));
    assert_eq!(frame_pixel_budget(10240, 10240, 16), None);
    assert_eq!(frame_pixel_budget(10240, 5120, 12), Some(52428800));
}

#[test]
fn buffer_preparation_and_checkerboard() {
    let mut b = vec![1u8, 2, 3];
    prepare_rgba_buffer(&mut b, 2);
    assert_eq!(b, vec![1, 2, 3, 255, 255, 255, 255, 255]);
    prepare_rgba_buffer(&mut b, 1);
    assert_eq!(b, vec![1, 2, 3, 255]);

    // 40 pixels wide, one row: tiles switch every 16 pixels.
    let mut c = vec![255u8; 40 * 4];
    fill_checkerboard(&mut c, 40, 40);
    assert_eq!(&c[0..4], &[255, 0, 255, 255]);
    assert_eq!(&c[16 * 4..16 * 4 + 4], &[128, 0, 128, 255]);
    assert_eq!(&c[32 * 4..32 * 4 + 4], &[255, 0, 255, 255]);
}

#[test]
fn reused_buffer_becomes_opaque() {
    let mut buffer = vec![0u8, 0, 0, 0];
    assert!(render_frame_into(&[77u8], 1, 1, 8, &mut buffer, gray8));
    assert_eq!(buffer, vec![77, 77, 77, 255]);
    let mut pattern = vec![0u8; 8];
    assert!(render_frame_into(&[1u8, 2], 2, 1, 24, &mut pattern, gray8));
    assert_eq!(pattern, vec![255, 0, 255, 255, 255, 0, 255, 255]);
}
