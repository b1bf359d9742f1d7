use rgb2gray::CapsAlternative;
use rgb2gray::CapsSet;
use rgb2gray::Fraction;
use rgb2gray::FractionRange;
use rgb2gray::IntRange;
use rgb2gray::PixelFormat;
use rgb2gray::Rgb2Gray;
use rgb2gray::TransformElement;
use rgb2gray::TransformError;
use rgb2gray::bgrx_to_gray;
use rgb2gray::unit_size;

fn fixed_caps(format: PixelFormat, w: i32, h: i32) -> CapsSet {
    CapsSet {
        alternatives: vec![CapsAlternative {
            formats: vec![format],
            width: IntRange { lo: w, hi: w },
            height: IntRange { lo: h, hi: h },
            framerate: FractionRange {
                lo: Fraction { num: 30, den: 1 },
                hi: Fraction { num: 30, den: 1 },
            },
        }],
    }
}

/// A configured 2x2 packed-color to gray filter and the standard test frame:
/// pixels (B,G,R,X) = (0,0,0,0), (255,255,255,0), (0,0,0,0), (255,255,255,0).
fn configured_2x2_gray() -> (Rgb2Gray, Vec<u8>) {
    let mut filter = Rgb2Gray::new();
    let ok = filter.set_caps(
        &fixed_caps(PixelFormat::Bgrx, 2, 2),
        &fixed_caps(PixelFormat::Gray8, 2, 2),
    );
    assert!(ok);
    let inbuf = vec![
        0, 0, 0, 0, 255, 255, 255, 0, // row 0: black, white
        0, 0, 0, 0, 255, 255, 255, 0, // row 1: black, white
    ];
    (filter, inbuf)
}

/// The four pixel bytes of a 2x2 gray frame with stride 4: offsets 0, 1
/// (row 0) and 4, 5 (row 1).
fn gray_pixels_2x2(outbuf: &[u8]) -> [u8; 4] {
    [outbuf[0], outbuf[1], outbuf[4], outbuf[5]]
}

#[test]
fn pixel_formula_black_and_white() {
    assert_eq!(bgrx_to_gray(0, 0, 0, 0, false), 0);
    assert_eq!(bgrx_to_gray(255, 255, 255, 0, false), 255);
}

#[test]
fn pixel_formula_weights() {
    // (10*7471 + 20*38470 + 30*19595) / 65536 = 1431960 / 65536 = 21.
    assert_eq!(bgrx_to_gray(10, 20, 30, 0, false), 21);
    // Pure red, green, blue: the BT.601 weights, rounded down.
    assert_eq!(bgrx_to_gray(0, 0, 255, 0, false), 76);
    assert_eq!(bgrx_to_gray(0, 255, 0, 0, false), 149);
    assert_eq!(bgrx_to_gray(255, 0, 0, 0, false), 29);
}

#[test]
fn pixel_formula_shift_wraps() {
    assert_eq!(bgrx_to_gray(255, 255, 255, 10, false), 9);
    assert_eq!(bgrx_to_gray(0, 0, 0, 10, false), 10);
    assert_eq!(bgrx_to_gray(255, 255, 255, 1, false), 0);
}

#[test]
fn pixel_formula_invert_applies_after_shift() {
    assert_eq!(bgrx_to_gray(0, 0, 0, 0, true), 255);
    assert_eq!(bgrx_to_gray(255, 255, 255, 0, true), 0);
    assert_eq!(bgrx_to_gray(255, 255, 255, 10, true), 246);
}

#[test]
fn gray_output_black_white_checkerboard() {
    let (filter, inbuf) = configured_2x2_gray();
    let mut outbuf = vec![7u8; 8];
    assert_eq!(filter.transform(&inbuf, &mut outbuf), Ok(()));
    assert_eq!(gray_pixels_2x2(&outbuf), [0, 255, 0, 255]);
    // The stride padding bytes of both rows are untouched.
    assert_eq!(outbuf[2], 7);
    assert_eq!(outbuf[3], 7);
    assert_eq!(outbuf[6], 7);
    assert_eq!(outbuf[7], 7);
}

#[test]
fn gray_output_with_shift_wraps_not_saturates() {
    let (mut filter, inbuf) = configured_2x2_gray();
    filter.set_shift(10);
    let mut outbuf = vec![0u8; 8];
    assert_eq!(filter.transform(&inbuf, &mut outbuf), Ok(()));
    assert_eq!(gray_pixels_2x2(&outbuf), [10, 9, 10, 9]);
}

#[test]
fn gray_output_inverted() {
    let (mut filter, inbuf) = configured_2x2_gray();
    filter.set_invert(true);
    let mut outbuf = vec![0u8; 8];
    assert_eq!(filter.transform(&inbuf, &mut outbuf), Ok(()));
    assert_eq!(gray_pixels_2x2(&outbuf), [255, 0, 255, 0]);
}

#[test]
fn packed_color_output_fills_channels_keeps_x() {
    let mut filter = Rgb2Gray::new();
    let ok = filter.set_caps(
        &fixed_caps(PixelFormat::Bgrx, 1, 1),
        &fixed_caps(PixelFormat::Bgrx, 1, 1),
    );
    assert!(ok);
    let inbuf = vec![10, 20, 30, 99];
    let mut outbuf = vec![1, 2, 3, 4];
    assert_eq!(filter.transform(&inbuf, &mut outbuf), Ok(()));
    // Gray 21 goes to B, G and R; the fourth byte is left as it was.
    assert_eq!(outbuf, vec![21, 21, 21, 4]);
}

#[test]
fn transform_unconfigured_reports_not_configured_and_writes_nothing() {
    let filter = Rgb2Gray::new();
    let inbuf = vec![0u8; 16];
    let mut outbuf = vec![42u8; 8];
    assert_eq!(
        filter.transform(&inbuf, &mut outbuf),
        Err(TransformError::NotConfigured)
    );
    assert_eq!(outbuf, vec![42u8; 8]);
}

#[test]
fn stop_then_transform_like_never_configured() {
    let (mut filter, inbuf) = configured_2x2_gray();
    let mut outbuf = vec![0u8; 8];
    assert_eq!(filter.transform(&inbuf, &mut outbuf), Ok(()));
    filter.stop();
    let mut outbuf_stopped = vec![42u8; 8];
    let fresh = Rgb2Gray::new();
    let mut outbuf_fresh = vec![42u8; 8];
    let stopped_result = filter.transform(&inbuf, &mut outbuf_stopped);
    let fresh_result = fresh.transform(&inbuf, &mut outbuf_fresh);
    assert_eq!(stopped_result, fresh_result);
    assert_eq!(stopped_result, Err(TransformError::NotConfigured));
    assert_eq!(outbuf_stopped, outbuf_fresh);
    assert_eq!(outbuf_stopped, vec![42u8; 8]);
    // stop is idempotent and safe on an unconfigured filter.
    filter.stop();
    let mut unconfigured = Rgb2Gray::new();
    unconfigured.stop();
}

#[test]
fn unit_size_round_trip_with_transform() {
    let incaps = fixed_caps(PixelFormat::Bgrx, 5, 3);
    let outcaps = fixed_caps(PixelFormat::Gray8, 5, 3);
    let in_size = unit_size(&incaps).unwrap();
    let out_size = unit_size(&outcaps).unwrap();
    let mut filter = Rgb2Gray::new();
    assert!(filter.set_caps(&incaps, &outcaps));
    // Buffers of exactly the reported unit sizes are transformed.
    let inbuf = vec![0u8; in_size];
    let mut outbuf = vec![0u8; out_size];
    assert_eq!(filter.transform(&inbuf, &mut outbuf), Ok(()));
    // Any other length is refused as a mapping failure.
    let long_in = vec![0u8; in_size + 1];
    let mut outbuf2 = vec![0u8; out_size];
    assert_eq!(
        filter.transform(&long_in, &mut outbuf2),
        Err(TransformError::BufferMappingFailure)
    );
    let mut short_out = vec![0u8; out_size - 1];
    assert_eq!(
        filter.transform(&inbuf, &mut short_out),
        Err(TransformError::BufferMappingFailure)
    );
}

#[test]
fn mismatched_dimensions_are_a_mapping_failure() {
    let mut filter = Rgb2Gray::new();
    assert!(filter.set_caps(
        &fixed_caps(PixelFormat::Bgrx, 2, 2),
        &fixed_caps(PixelFormat::Gray8, 3, 2),
    ));
    let inbuf = vec![0u8; 16];
    let mut outbuf = vec![9u8; 8];
    assert_eq!(
        filter.transform(&inbuf, &mut outbuf),
        Err(TransformError::BufferMappingFailure)
    );
    assert_eq!(outbuf, vec![9u8; 8]);
}

#[test]
fn gray_output_row_padding_respects_both_strides() {
    // 5 pixels per row: input stride 20, output stride 8 (5 rounded up to 8).
    let mut filter = Rgb2Gray::new();
    assert!(filter.set_caps(
        &fixed_caps(PixelFormat::Bgrx, 5, 2),
        &fixed_caps(PixelFormat::Gray8, 5, 2),
    ));
    let mut inbuf = vec![0u8; 40];
    // Second row, fourth pixel white.
    for k in 0..3 {
        inbuf[20 + 3 * 4 + k] = 255;
    }
    let mut outbuf = vec![1u8; 16];
    assert_eq!(filter.transform(&inbuf, &mut outbuf), Ok(()));
    let mut expected = vec![0u8; 16];
    expected[8 + 3] = 255;
    for row in 0..2 {
        for pad in 5..8 {
            expected[row * 8 + pad] = 1;
        }
    }
    assert_eq!(outbuf, expected);
}

#[test]
fn zero_sized_frame_transforms() {
    let mut filter = Rgb2Gray::new();
    assert!(filter.set_caps(
        &fixed_caps(PixelFormat::Bgrx, 0, 0),
        &fixed_caps(PixelFormat::Gray8, 0, 0),
    ));
    let inbuf: Vec<u8> = vec![];
    let mut outbuf: Vec<u8> = vec![];
    assert_eq!(filter.transform(&inbuf, &mut outbuf), Ok(()));
}

#[test]
fn settings_defaults_and_accessors() {
    let mut filter = Rgb2Gray::new();
    assert_eq!(filter.get_shift(), 0);
    assert!(!filter.get_invert());
    filter.set_shift(200);
    filter.set_invert(true);
    assert_eq!(filter.get_shift(), 200);
    assert!(filter.get_invert());
    let snapshot = filter.get_settings();
    assert_eq!(snapshot.shift, 200);
    assert!(snapshot.invert);
}

#[test]
fn settings_adjust_between_frames() {
    let (mut filter, inbuf) = configured_2x2_gray();
    let mut outbuf = vec![0u8; 8];
    assert_eq!(filter.transform(&inbuf, &mut outbuf), Ok(()));
    assert_eq!(gray_pixels_2x2(&outbuf), [0, 255, 0, 255]);
    filter.set_shift(1);
    assert_eq!(filter.transform(&inbuf, &mut outbuf), Ok(()));
    assert_eq!(gray_pixels_2x2(&outbuf), [1, 0, 1, 0]);
    filter.set_shift(0);
    filter.set_invert(true);
    assert_eq!(filter.transform(&inbuf, &mut outbuf), Ok(()));
    assert_eq!(gray_pixels_2x2(&outbuf), [255, 0, 255, 0]);
}

#[test]
fn reconfiguration_replaces_the_pair_wholesale() {
    let (mut filter, inbuf) = configured_2x2_gray();
    let mut outbuf = vec![0u8; 8];
    assert_eq!(filter.transform(&inbuf, &mut outbuf), Ok(()));
    // Renegotiate to packed color output of the same size.
    assert!(filter.set_caps(
        &fixed_caps(PixelFormat::Bgrx, 2, 2),
        &fixed_caps(PixelFormat::Bgrx, 2, 2),
    ));
    let mut packed_out = vec![9u8; 16];
    assert_eq!(filter.transform(&inbuf, &mut packed_out), Ok(()));
    assert_eq!(
        packed_out,
        vec![0, 0, 0, 9, 255, 255, 255, 9, 0, 0, 0, 9, 255, 255, 255, 9]
    );
}
