use marker_overlay::descriptor::FixedCaps;
use marker_overlay::format::{Fraction, FractionRange, Layout};
use marker_overlay::lifecycle::StreamLifecycle;
use marker_overlay::marker::{Detection, Point, Quad};
use marker_overlay::settings::Settings;
use marker_overlay::transform::{luminance, process, select, ProcessError, Transform};

fn caps(layout: Layout, width: i32, height: i32, stride: i32) -> FixedCaps {
    FixedCaps {
        layout,
        width,
        height,
        stride,
        frame_rate: FractionRange {
            min: Fraction { numer: 30, denom: 1 },
            max: Fraction { numer: 30, denom: 1 },
        },
    }
}

fn configured(input: FixedCaps, output: FixedCaps) -> StreamLifecycle {
    let mut lifecycle = StreamLifecycle::new();
    assert!(lifecycle.configure(&input, &output));
    lifecycle
}

fn nothing_found() -> Detection {
    Detection { quad: None, payload: None }
}

fn found(corners: [(i32, i32); 4]) -> Detection {
    let point = |(x, y): (i32, i32)| Point { x, y };
    Detection {
        quad: Some(Quad {
            corners: [point(corners[0]), point(corners[1]), point(corners[2]), point(corners[3])],
        }),
        payload: Some(String::from("payload")),
    }
}

/// A picture in which every byte differs from its neighbours and none is a
/// sample of the highlight colour.
fn picture(len: usize) -> Vec<u8> {
    (0..len).map(|i| 1 + (i % 200) as u8).collect()
}

#[test]
fn process_before_configure_fails() {
    let lifecycle = StreamLifecycle::new();
    let input = vec![0u8; 12];
    let mut output = vec![5u8; 12];
    let result = process(&lifecycle, &Settings::default(), &input, &mut output, &nothing_found());
    assert_eq!(result, Err(ProcessError::NotConfigured));
    assert_eq!(output, vec![5u8; 12]);
    assert_eq!(select(&lifecycle, 12, 12), Err(ProcessError::NotConfigured));
}

#[test]
fn process_after_stop_fails() {
    let mut lifecycle = configured(
        caps(Layout::ThreeChannelInterleaved, 2, 2, 6),
        caps(Layout::ThreeChannelInterleaved, 2, 2, 6),
    );
    let input = picture(12);
    let mut output = vec![0u8; 12];
    let settings = Settings::default();
    assert_eq!(process(&lifecycle, &settings, &input, &mut output, &nothing_found()), Ok(()));
    lifecycle.stop();
    let mut untouched = vec![5u8; 12];
    let result = process(&lifecycle, &settings, &input, &mut untouched, &nothing_found());
    assert_eq!(result, Err(ProcessError::NotConfigured));
    assert_eq!(untouched, vec![5u8; 12]);
    lifecycle.stop();
    let again = process(&lifecycle, &settings, &input, &mut untouched, &nothing_found());
    assert_eq!(again, Err(ProcessError::NotConfigured));
}

#[test]
fn solid_frame_without_marker_is_copied() {
    let lifecycle = configured(
        caps(Layout::ThreeChannelInterleaved, 64, 64, 192),
        caps(Layout::ThreeChannelInterleaved, 64, 64, 192),
    );
    let mut input = Vec::new();
    for _ in 0..64 * 64 {
        input.extend_from_slice(&[40u8, 120, 200]);
    }
    let mut output = vec![0u8; 64 * 192];
    let result = process(&lifecycle, &Settings::default(), &input, &mut output, &nothing_found());
    assert_eq!(result, Ok(()));
    assert_eq!(output, input);
}

#[test]
fn marker_is_outlined_and_the_rest_unchanged() {
    let (width, height) = (12usize, 10usize);
    let lifecycle = configured(
        caps(Layout::ThreeChannelInterleaved, 12, 10, 36),
        caps(Layout::ThreeChannelInterleaved, 12, 10, 36),
    );
    let input = picture(width * height * 3);
    let mut output = vec![0u8; width * height * 3];
    let detection = found([(2, 1), (9, 1), (9, 8), (2, 8)]);
    let kept = input.clone();
    let result = process(&lifecycle, &Settings::default(), &input, &mut output, &detection);
    assert_eq!(result, Ok(()));
    assert_eq!(input, kept);
    let pixel = |frame: &Vec<u8>, x: usize, y: usize| -> [u8; 3] {
        let at = y * 36 + 3 * x;
        [frame[at], frame[at + 1], frame[at + 2]]
    };
    let red = [255u8, 0, 0];
    // The two corners that the detector gave.
    assert_eq!(pixel(&output, 2, 1), red);
    assert_eq!(pixel(&output, 9, 8), red);
    // The other two corners of the rectangle.
    assert_eq!(pixel(&output, 9, 1), red);
    assert_eq!(pixel(&output, 2, 8), red);
    // The outline is two pixels wide.
    assert_eq!(pixel(&output, 3, 2), red);
    assert_eq!(pixel(&output, 8, 7), red);
    assert_eq!(pixel(&output, 5, 2), red);
    assert_eq!(pixel(&output, 3, 5), red);
    // Inside and outside nothing changed.
    assert_eq!(pixel(&output, 4, 3), pixel(&input, 4, 3));
    assert_eq!(pixel(&output, 7, 6), pixel(&input, 7, 6));
    assert_eq!(pixel(&output, 1, 1), pixel(&input, 1, 1));
    assert_eq!(pixel(&output, 10, 8), pixel(&input, 10, 8));
    assert_eq!(pixel(&output, 2, 0), pixel(&input, 2, 0));
    assert_eq!(pixel(&output, 9, 9), pixel(&input, 9, 9));
    for y in 0..height {
        for x in 0..width {
            let in_rect = (2..=9).contains(&x) && (1..=8).contains(&y);
            let in_core = (4..=7).contains(&x) && (3..=6).contains(&y);
            let expected = if in_rect && !in_core { red } else { pixel(&input, x, y) };
            assert_eq!(pixel(&output, x, y), expected, "pixel {x}, {y}");
        }
    }
}

#[test]
fn outline_takes_first_and_third_corner_in_any_order() {
    let lifecycle = configured(
        caps(Layout::ThreeChannelInterleaved, 12, 10, 36),
        caps(Layout::ThreeChannelInterleaved, 12, 10, 36),
    );
    let input = picture(12 * 10 * 3);
    let settings = Settings::default();
    let mut expected = vec![0u8; 360];
    let forward = found([(2, 1), (9, 1), (9, 8), (2, 8)]);
    assert_eq!(process(&lifecycle, &settings, &input, &mut expected, &forward), Ok(()));
    for corners in [
        [(9, 8), (2, 8), (2, 1), (9, 1)],
        [(9, 1), (0, 0), (2, 8), (0, 0)],
        [(2, 8), (11, 9), (9, 1), (5, 5)],
    ] {
        let mut output = vec![0u8; 360];
        assert_eq!(process(&lifecycle, &settings, &input, &mut output, &found(corners)), Ok(()));
        assert_eq!(output, expected);
    }
}

#[test]
fn small_marker_is_filled() {
    let lifecycle = configured(
        caps(Layout::ThreeChannelInterleaved, 6, 6, 18),
        caps(Layout::ThreeChannelInterleaved, 6, 6, 18),
    );
    let input = picture(108);
    let mut output = vec![0u8; 108];
    let detection = found([(1, 1), (4, 1), (4, 3), (1, 3)]);
    assert_eq!(process(&lifecycle, &Settings::default(), &input, &mut output, &detection), Ok(()));
    for y in 0..6usize {
        for x in 0..6usize {
            let at = y * 18 + 3 * x;
            let inside = (1..=4).contains(&x) && (1..=3).contains(&y);
            if inside {
                assert_eq!(&output[at..at + 3], &[255, 0, 0]);
            } else {
                assert_eq!(&output[at..at + 3], &input[at..at + 3]);
            }
        }
    }
}

#[test]
fn outline_is_cut_at_the_edge_of_the_picture() {
    let lifecycle = configured(
        caps(Layout::ThreeChannelInterleaved, 8, 8, 24),
        caps(Layout::ThreeChannelInterleaved, 8, 8, 24),
    );
    let input = picture(192);
    let mut output = vec![0u8; 192];
    let detection = found([(-3, -2), (0, 0), (5, 20), (0, 0)]);
    assert_eq!(process(&lifecycle, &Settings::default(), &input, &mut output, &detection), Ok(()));
    for y in 0..8usize {
        for x in 0..8usize {
            let at = y * 24 + 3 * x;
            // Of the rectangle -3..=5 by -2..=20 only the right edge crosses
            // the picture.
            if x == 4 || x == 5 {
                assert_eq!(&output[at..at + 3], &[255, 0, 0], "pixel {x}, {y}");
            } else {
                assert_eq!(&output[at..at + 3], &input[at..at + 3], "pixel {x}, {y}");
            }
        }
    }
}

#[test]
fn marker_outside_the_picture_changes_nothing() {
    let lifecycle = configured(
        caps(Layout::ThreeChannelInterleaved, 8, 8, 24),
        caps(Layout::ThreeChannelInterleaved, 8, 8, 24),
    );
    let input = picture(192);
    let mut output = vec![0u8; 192];
    let detection = found([(100, 100), (0, 0), (i32::MAX, i32::MAX), (0, 0)]);
    assert_eq!(process(&lifecycle, &Settings::default(), &input, &mut output, &detection), Ok(()));
    assert_eq!(output, input);
    let detection = found([(i32::MIN, i32::MIN), (0, 0), (-1, -1), (0, 0)]);
    assert_eq!(process(&lifecycle, &Settings::default(), &input, &mut output, &detection), Ok(()));
    assert_eq!(output, input);
    let around = found([(i32::MIN, i32::MIN), (0, 0), (i32::MAX, i32::MAX), (0, 0)]);
    assert_eq!(process(&lifecycle, &Settings::default(), &input, &mut output, &around), Ok(()));
    assert_eq!(output, input);
}

#[test]
fn rows_are_copied_by_each_side_s_stride() {
    let lifecycle = configured(
        caps(Layout::ThreeChannelInterleaved, 2, 3, 8),
        caps(Layout::ThreeChannelInterleaved, 2, 3, 7),
    );
    let input: Vec<u8> = (1..=24).collect();
    let mut output = vec![99u8; 21];
    let result = process(&lifecycle, &Settings::default(), &input, &mut output, &nothing_found());
    assert_eq!(result, Ok(()));
    assert_eq!(
        output,
        vec![1, 2, 3, 4, 5, 6, 99, 9, 10, 11, 12, 13, 14, 99, 17, 18, 19, 20, 21, 22, 99]
    );
}

#[test]
fn outline_respects_the_strides() {
    let lifecycle = configured(
        caps(Layout::ThreeChannelInterleaved, 2, 2, 8),
        caps(Layout::ThreeChannelInterleaved, 2, 2, 7),
    );
    let input: Vec<u8> = (1..=16).collect();
    let mut output = vec![99u8; 14];
    let detection = found([(1, 0), (1, 0), (1, 0), (1, 0)]);
    assert_eq!(process(&lifecycle, &Settings::default(), &input, &mut output, &detection), Ok(()));
    assert_eq!(output, vec![1, 2, 3, 255, 0, 0, 99, 9, 10, 11, 12, 13, 14, 99]);
    assert_eq!(input, (1..=16).collect::<Vec<u8>>());
}

#[test]
fn white_pixel_has_full_luminance() {
    let lifecycle = configured(
        caps(Layout::ThreeChannelInterleaved, 1, 1, 3),
        caps(Layout::SingleChannelLuma, 1, 1, 1),
    );
    let white = [255u8, 255, 255];
    let mut output = [7u8];
    let plain = Settings::new(false, 0);
    assert_eq!(process(&lifecycle, &plain, &white, &mut output, &nothing_found()), Ok(()));
    assert_eq!(output, [255]);
    let inverted = Settings::new(true, 0);
    assert_eq!(process(&lifecycle, &inverted, &white, &mut output, &nothing_found()), Ok(()));
    assert_eq!(output, [0]);
    let shifted = Settings::new(false, 10);
    assert_eq!(process(&lifecycle, &shifted, &white, &mut output, &nothing_found()), Ok(()));
    assert_eq!(output, [9]);
    let both = Settings::new(true, 10);
    assert_eq!(process(&lifecycle, &both, &white, &mut output, &nothing_found()), Ok(()));
    assert_eq!(output, [10]);
}

#[test]
fn luma_output_ignores_the_detection() {
    let lifecycle = configured(
        caps(Layout::ThreeChannelInterleaved, 2, 2, 6),
        caps(Layout::SingleChannelLuma, 2, 2, 2),
    );
    let input = vec![10u8, 200, 30, 0, 0, 0, 255, 0, 0, 0, 0, 255];
    let mut output = vec![0u8; 4];
    let detection = found([(0, 0), (1, 0), (1, 1), (0, 1)]);
    assert_eq!(process(&lifecycle, &Settings::default(), &input, &mut output, &detection), Ok(()));
    assert_eq!(output, vec![123, 0, 76, 29]);
}

#[test]
fn luma_rows_are_written_by_each_side_s_stride() {
    let lifecycle = configured(
        caps(Layout::ThreeChannelInterleaved, 2, 2, 8),
        caps(Layout::SingleChannelLuma, 2, 2, 4),
    );
    let input = vec![
        10u8, 200, 30, 255, 255, 255, 1, 2, 0, 255, 0, 0, 0, 255, 3, 4,
    ];
    let mut output = vec![99u8; 8];
    let settings = Settings::new(true, 200);
    assert_eq!(process(&lifecycle, &settings, &input, &mut output, &nothing_found()), Ok(()));
    // 123 and 255 in the first row, 149 and 29 in the second; each inverted,
    // then 200 added modulo 256.
    assert_eq!(output, vec![76, 200, 99, 99, 50, 170, 99, 99]);
}

#[test]
fn luminance_weights_the_channels() {
    assert_eq!(luminance(0, 0, 0), 0);
    assert_eq!(luminance(255, 255, 255), 255);
    assert_eq!(luminance(255, 0, 0), 76);
    assert_eq!(luminance(0, 255, 0), 149);
    assert_eq!(luminance(0, 0, 255), 29);
    assert_eq!(luminance(10, 200, 30), 123);
    assert_eq!(luminance(128, 128, 128), 128);
    assert_eq!(luminance(1, 1, 1), 1);
}

#[test]
fn small_output_buffer_fails_and_is_not_written() {
    let lifecycle = configured(
        caps(Layout::ThreeChannelInterleaved, 4, 4, 12),
        caps(Layout::ThreeChannelInterleaved, 4, 4, 12),
    );
    let input = picture(48);
    let mut output = vec![7u8; 47];
    let detection = found([(0, 0), (3, 0), (3, 3), (0, 3)]);
    let result = process(&lifecycle, &Settings::default(), &input, &mut output, &detection);
    assert_eq!(result, Err(ProcessError::BufferMapFailure));
    assert_eq!(output, vec![7u8; 47]);
    let mut empty: Vec<u8> = Vec::new();
    let result = process(&lifecycle, &Settings::default(), &input, &mut empty, &detection);
    assert_eq!(result, Err(ProcessError::BufferMapFailure));
    assert_eq!(select(&lifecycle, 48, 47), Err(ProcessError::BufferMapFailure));
}

#[test]
fn large_output_buffer_fails_and_is_not_written() {
    let lifecycle = configured(
        caps(Layout::ThreeChannelInterleaved, 4, 4, 12),
        caps(Layout::SingleChannelLuma, 4, 4, 4),
    );
    let input = picture(48);
    let mut output = vec![7u8; 17];
    let result = process(&lifecycle, &Settings::default(), &input, &mut output, &nothing_found());
    assert_eq!(result, Err(ProcessError::BufferMapFailure));
    assert_eq!(output, vec![7u8; 17]);
}

#[test]
fn wrong_input_buffer_fails_and_nothing_is_written() {
    let lifecycle = configured(
        caps(Layout::ThreeChannelInterleaved, 4, 4, 12),
        caps(Layout::ThreeChannelInterleaved, 4, 4, 12),
    );
    let mut output = vec![7u8; 48];
    for len in [0usize, 47, 49, 96] {
        let input = picture(len);
        let result =
            process(&lifecycle, &Settings::default(), &input, &mut output, &nothing_found());
        assert_eq!(result, Err(ProcessError::BufferMapFailure));
        assert_eq!(output, vec![7u8; 48]);
    }
}

#[test]
fn unsupported_output_layout_fails_and_nothing_is_written() {
    let lifecycle = configured(
        caps(Layout::ThreeChannelInterleaved, 4, 4, 12),
        caps(Layout::Other, 4, 4, 16),
    );
    let input = picture(48);
    let mut output = vec![7u8; 64];
    let result = process(&lifecycle, &Settings::default(), &input, &mut output, &nothing_found());
    assert_eq!(result, Err(ProcessError::UnsupportedFormat));
    assert_eq!(output, vec![7u8; 64]);
    assert_eq!(select(&lifecycle, 48, 64), Err(ProcessError::UnsupportedFormat));
    // The buffers are looked at before the layout.
    assert_eq!(select(&lifecycle, 48, 63), Err(ProcessError::BufferMapFailure));
}

#[test]
fn stream_that_changes_size_fails_and_nothing_is_written() {
    let lifecycle = configured(
        caps(Layout::ThreeChannelInterleaved, 64, 64, 192),
        caps(Layout::ThreeChannelInterleaved, 32, 32, 96),
    );
    let input = picture(64 * 192);
    let mut output = vec![7u8; 32 * 96];
    let detection = found([(0, 0), (3, 0), (3, 3), (0, 3)]);
    let result = process(&lifecycle, &Settings::default(), &input, &mut output, &detection);
    assert_eq!(result, Err(ProcessError::UnsupportedFormat));
    assert_eq!(output, vec![7u8; 32 * 96]);
    assert_eq!(select(&lifecycle, 64 * 192, 32 * 96), Err(ProcessError::UnsupportedFormat));
    // The buffers are looked at before the sizes are compared.
    assert_eq!(select(&lifecycle, 64 * 192, 64 * 192), Err(ProcessError::BufferMapFailure));
    let taller = configured(
        caps(Layout::ThreeChannelInterleaved, 4, 4, 12),
        caps(Layout::SingleChannelLuma, 4, 5, 4),
    );
    let mut output = vec![7u8; 20];
    let result =
        process(&taller, &Settings::default(), &picture(48), &mut output, &nothing_found());
    assert_eq!(result, Err(ProcessError::UnsupportedFormat));
    assert_eq!(output, vec![7u8; 20]);
    // A stream of equal size and another stride is processed.
    let padded = configured(
        caps(Layout::ThreeChannelInterleaved, 4, 4, 12),
        caps(Layout::SingleChannelLuma, 4, 4, 5),
    );
    assert_eq!(select(&padded, 48, 20), Ok(Transform::ReduceToLuma));
}

#[test]
fn select_says_which_transform_a_frame_gets() {
    let overlay = configured(
        caps(Layout::ThreeChannelInterleaved, 4, 4, 12),
        caps(Layout::ThreeChannelInterleaved, 4, 4, 16),
    );
    assert_eq!(select(&overlay, 48, 64), Ok(Transform::OutlineMarker));
    assert_eq!(select(&overlay, 64, 48), Err(ProcessError::BufferMapFailure));
    let luma = configured(
        caps(Layout::ThreeChannelInterleaved, 4, 4, 12),
        caps(Layout::SingleChannelLuma, 4, 4, 4),
    );
    assert_eq!(select(&luma, 48, 16), Ok(Transform::ReduceToLuma));
}

#[test]
fn empty_frame_is_processed() {
    let lifecycle = configured(
        caps(Layout::ThreeChannelInterleaved, 0, 0, 0),
        caps(Layout::ThreeChannelInterleaved, 0, 0, 0),
    );
    let input: Vec<u8> = Vec::new();
    let mut output: Vec<u8> = Vec::new();
    let detection = found([(0, 0), (1, 0), (1, 1), (0, 1)]);
    assert_eq!(process(&lifecycle, &Settings::default(), &input, &mut output, &detection), Ok(()));
    assert!(output.is_empty());
    let rows_of_padding = configured(
        caps(Layout::ThreeChannelInterleaved, 0, 3, 4),
        caps(Layout::SingleChannelLuma, 0, 3, 2),
    );
    let input = vec![1u8; 12];
    let mut output = vec![9u8; 6];
    let result =
        process(&rows_of_padding, &Settings::default(), &input, &mut output, &nothing_found());
    assert_eq!(result, Ok(()));
    assert_eq!(output, vec![9u8; 6]);
}

#[test]
fn frames_are_processed_one_by_one() {
    let lifecycle = configured(
        caps(Layout::ThreeChannelInterleaved, 2, 1, 6),
        caps(Layout::SingleChannelLuma, 2, 1, 2),
    );
    let mut settings = Settings::default();
    let mut output = vec![0u8; 2];
    let first = vec![255u8, 255, 255, 0, 0, 0];
    assert_eq!(process(&lifecycle, &settings, &first, &mut output, &nothing_found()), Ok(()));
    assert_eq!(output, vec![255, 0]);
    settings.set_invert(true);
    settings.set_shift(1);
    let second = vec![0u8, 0, 0, 255, 255, 255];
    assert_eq!(process(&lifecycle, &settings, &second, &mut output, &nothing_found()), Ok(()));
    assert_eq!(output, vec![0, 1]);
}
