use nishack::capture::{
    capture_screenshot, primary_display, try_capture_screenshot, CaptureError, CaptureRetry,
    CaptureStep, CAPTURE_ATTEMPTS, CAPTURE_RETRY_MILLIS,
};
use nishack::codec::{
    compress, drop_alpha, encode, pixel_count, scale_to_fit, target_dimensions, EncodeError,
    Frame, ResampleFilter, MAX_ENCODED_SIDE,
};

/// A frame of one colour.
fn plain(width: u32, height: u32, colour: [u8; 4]) -> Frame {
    let mut pixels = Vec::new();
    for _ in 0..(width as usize * height as usize) {
        pixels.extend_from_slice(&colour);
    }
    Frame::from_raw(width, height, pixels).unwrap()
}

/// A frame with a pattern that no two neighbouring pixels share.
fn patterned(width: u32, height: u32) -> Frame {
    let mut pixels = Vec::new();
    for y in 0..height {
        for x in 0..width {
            pixels.push((x * 7 + y * 3) as u8);
            pixels.push((x * 2 + y * 11) as u8);
            pixels.push((x * y) as u8);
            pixels.push(255);
        }
    }
    Frame::from_raw(width, height, pixels).unwrap()
}

fn decoded_size(jpeg: &[u8]) -> (u32, u32) {
    let image = image::load_from_memory_with_format(jpeg, image::ImageFormat::Jpeg).unwrap();
    (image.width(), image.height())
}

#[test]
fn frame_from_raw_checks_the_buffer() {
    assert!(Frame::from_raw(2, 2, vec![0; 15]).is_none());
    let exact = Frame::from_raw(2, 2, vec![9; 16]).unwrap();
    assert_eq!((exact.width(), exact.height()), (2, 2));
    assert_eq!(exact.pixels().len(), 16);
    let longer = Frame::from_raw(1, 2, vec![1, 2, 3, 4, 5, 6, 7, 8, 9, 10]).unwrap();
    assert_eq!(longer.pixels(), &vec![1, 2, 3, 4, 5, 6, 7, 8]);
    let empty = Frame::from_raw(0, 0, vec![]).unwrap();
    assert_eq!(empty.pixels().len(), 0);
    assert!(Frame::from_raw(u32::MAX, u32::MAX, vec![0; 64]).is_none());
}

#[test]
fn frame_clone_is_equal() {
    let frame = patterned(5, 4);
    assert_eq!(frame.clone(), frame);
}

#[test]
fn pixel_count_is_the_product() {
    assert_eq!(pixel_count(1920, 1080), 2_073_600);
    assert_eq!(pixel_count(u32::MAX, u32::MAX), 18_446_744_065_119_617_025);
    assert_eq!(pixel_count(0, 77), 0);
}

#[test]
fn image_within_bounds_keeps_its_size() {
    assert_eq!(target_dimensions(1920, 1080, 1920), (1920, 1080));
    assert_eq!(target_dimensions(800, 600, 1920), (800, 600));
    assert_eq!(target_dimensions(1, 1, 1), (1, 1));
    assert_eq!(target_dimensions(0, 0, 0), (0, 0));
    assert_eq!(target_dimensions(1280, 1280, 1280), (1280, 1280));
}

#[test]
fn image_beyond_bounds_gets_the_bound_as_longer_side() {
    assert_eq!(target_dimensions(4000, 3000, 1920), (1920, 1440));
    assert_eq!(target_dimensions(3000, 4000, 1920), (1440, 1920));
    assert_eq!(target_dimensions(3840, 2160, 1280), (1280, 720));
    assert_eq!(target_dimensions(2560, 1440, 1920), (1920, 1080));
    assert_eq!(target_dimensions(1921, 1080, 1920), (1920, 1079));
    assert_eq!(target_dimensions(1000, 3000, 1920), (640, 1920));
    assert_eq!(target_dimensions(5000, 5000, 100), (100, 100));
    assert_eq!(target_dimensions(100, 2000, 1920), (96, 1920));
}

#[test]
fn scaled_side_is_rounded_down_but_never_vanishes() {
    // 1366 * 1280 / 2049 = 853.33...
    assert_eq!(target_dimensions(2049, 1366, 1280), (1280, 853));
    assert_eq!(target_dimensions(10000, 1, 100), (100, 1));
    assert_eq!(target_dimensions(1, 10000, 100), (1, 100));
    assert_eq!(target_dimensions(u32::MAX, u32::MAX - 1, 7), (7, 6));
    assert_eq!(target_dimensions(u32::MAX, 1, u32::MAX - 1), (u32::MAX - 1, 1));
}

#[test]
fn bound_of_zero_leaves_no_size() {
    assert_eq!(target_dimensions(3, 2, 0), (0, 0));
    assert_eq!(target_dimensions(0, 5, 0), (0, 0));
}

#[test]
fn aspect_ratio_is_kept_within_one_pixel() {
    let cases = [(4000u32, 3000u32, 1920u32), (1921, 1080, 1920), (777, 3333, 500), (9, 5, 4)];
    for (width, height, bound) in cases {
        let (w, h) = target_dimensions(width, height, bound);
        assert_eq!(w.max(h), bound);
        let (long, short, scaled) =
            if width >= height { (width, height, h) } else { (height, width, w) };
        let exact = short as f64 * bound as f64 / long as f64;
        assert!((scaled as f64 - exact).abs() <= 1.0);
    }
}

#[test]
fn frame_within_bounds_is_not_touched_by_scaling() {
    let frame = patterned(40, 30);
    let scaled = scale_to_fit(frame.clone(), 40, ResampleFilter::Lanczos3).unwrap();
    assert_eq!(scaled, frame);
    let scaled = scale_to_fit(frame.clone(), 1920, ResampleFilter::Triangle).unwrap();
    assert_eq!(scaled, frame);
}

#[test]
fn frame_beyond_bounds_is_resampled_to_the_target_size() {
    let colour = [10, 200, 30, 255];
    for filter in [ResampleFilter::Triangle, ResampleFilter::Lanczos3] {
        let scaled = scale_to_fit(plain(200, 100, colour), 50, filter).unwrap();
        assert_eq!((scaled.width(), scaled.height()), (50, 25));
        assert_eq!(scaled.pixels().len(), 50 * 25 * 4);
        for pixel in scaled.pixels().chunks(4) {
            assert_eq!(pixel, &colour);
        }
    }
    let tall = scale_to_fit(patterned(30, 90), 45, ResampleFilter::Triangle).unwrap();
    assert_eq!((tall.width(), tall.height()), (15, 45));
}

#[test]
fn resampling_changes_the_pixels() {
    let frame = patterned(64, 64);
    let scaled = scale_to_fit(frame.clone(), 16, ResampleFilter::Triangle).unwrap();
    assert_eq!((scaled.width(), scaled.height()), (16, 16));
    assert_ne!(scaled.pixels()[..], frame.pixels()[..16 * 16 * 4]);
}

#[test]
fn scaling_rejects_what_has_no_pixels() {
    let flat = Frame::from_raw(5000, 0, vec![]).unwrap();
    assert_eq!(
        scale_to_fit(flat, 100, ResampleFilter::Triangle),
        Err(EncodeError::InvalidSize { width: 5000, height: 0 })
    );
    assert_eq!(
        scale_to_fit(plain(3, 2, [0; 4]), 0, ResampleFilter::Triangle),
        Err(EncodeError::InvalidSize { width: 0, height: 0 })
    );
}

#[test]
fn drop_alpha_keeps_three_bytes_of_four() {
    assert_eq!(drop_alpha(&vec![1, 2, 3, 4, 5, 6, 7, 8]), vec![1, 2, 3, 5, 6, 7]);
    assert_eq!(drop_alpha(&vec![]), Vec::<u8>::new());
    assert_eq!(drop_alpha(&vec![9, 8, 7, 6, 5]), vec![9, 8, 7]);
}

#[test]
fn compress_writes_a_jpeg_of_the_same_size() {
    let frame = patterned(33, 17);
    let jpeg = compress(&frame, 80).unwrap();
    assert_eq!(&jpeg[..2], &[0xFF, 0xD8]);
    assert_eq!(&jpeg[jpeg.len() - 2..], &[0xFF, 0xD9]);
    assert_eq!(decoded_size(&jpeg), (33, 17));
}

#[test]
fn compress_keeps_the_colours_and_drops_alpha() {
    let opaque = compress(&plain(16, 16, [200, 40, 40, 255]), 95).unwrap();
    let clear = compress(&plain(16, 16, [200, 40, 40, 0]), 95).unwrap();
    assert_eq!(opaque, clear);
    let image = image::load_from_memory_with_format(&opaque, image::ImageFormat::Jpeg)
        .unwrap()
        .to_rgb8();
    let pixel = image.get_pixel(8, 8).0;
    assert!((pixel[0] as i32 - 200).abs() <= 6);
    assert!((pixel[1] as i32 - 40).abs() <= 6);
    assert!((pixel[2] as i32 - 40).abs() <= 6);
}

#[test]
fn lower_quality_gives_fewer_bytes() {
    let frame = patterned(96, 96);
    let worst = compress(&frame, 1).unwrap();
    let low = compress(&frame, 20).unwrap();
    let high = compress(&frame, 95).unwrap();
    let best = compress(&frame, 100).unwrap();
    assert!(worst.len() < low.len());
    assert!(low.len() < high.len());
    assert!(high.len() < best.len());
}

#[test]
fn quality_outside_the_range_is_taken_as_its_nearest_end() {
    let frame = patterned(24, 24);
    assert_eq!(compress(&frame, 0).unwrap(), compress(&frame, 1).unwrap());
    assert_eq!(compress(&frame, 255).unwrap(), compress(&frame, 100).unwrap());
}

#[test]
fn compress_rejects_sizes_that_jpeg_cannot_record() {
    let empty = Frame::from_raw(0, 0, vec![]).unwrap();
    assert_eq!(compress(&empty, 75), Err(EncodeError::InvalidSize { width: 0, height: 0 }));
    let wide = plain(MAX_ENCODED_SIDE + 1, 1, [1, 2, 3, 4]);
    assert_eq!(
        compress(&wide, 75),
        Err(EncodeError::InvalidSize { width: 65536, height: 1 })
    );
    let widest = plain(MAX_ENCODED_SIDE, 1, [1, 2, 3, 4]);
    assert_eq!(decoded_size(&compress(&widest, 75).unwrap()), (65535, 1));
}

#[test]
fn encode_scales_only_what_exceeds_the_bound() {
    let small = encode(patterned(60, 40), 70, 100, ResampleFilter::Triangle).unwrap();
    assert_eq!(decoded_size(&small), (60, 40));
    assert_eq!(small, compress(&patterned(60, 40), 70).unwrap());
    let large = encode(patterned(300, 200), 70, 100, ResampleFilter::Triangle).unwrap();
    assert_eq!(decoded_size(&large), (100, 66));
    let tall = encode(patterned(100, 401), 70, 100, ResampleFilter::Lanczos3).unwrap();
    assert_eq!(decoded_size(&tall), (24, 100));
}

#[test]
fn encode_is_the_compression_of_the_scaled_frame() {
    let frame = patterned(120, 90);
    let scaled = scale_to_fit(frame.clone(), 48, ResampleFilter::Triangle).unwrap();
    assert_eq!(
        encode(frame, 60, 48, ResampleFilter::Triangle).unwrap(),
        compress(&scaled, 60).unwrap()
    );
}

#[test]
fn encoding_twice_gives_the_same_bytes() {
    let first = encode(patterned(150, 100), 60, 64, ResampleFilter::Triangle).unwrap();
    let second = encode(patterned(150, 100), 60, 64, ResampleFilter::Triangle).unwrap();
    assert_eq!(first, second);
}

#[test]
fn encode_reports_why_it_failed() {
    let empty = Frame::from_raw(0, 9, vec![]).unwrap();
    assert_eq!(
        encode(empty, 75, 1920, ResampleFilter::Triangle),
        Err(EncodeError::InvalidSize { width: 0, height: 9 })
    );
    assert_eq!(
        encode(plain(4, 4, [0; 4]), 75, 0, ResampleFilter::Triangle),
        Err(EncodeError::InvalidSize { width: 0, height: 0 })
    );
    let wide = plain(70_000, 1, [0; 4]);
    assert_eq!(
        encode(wide, 75, 70_000, ResampleFilter::Triangle),
        Err(EncodeError::InvalidSize { width: 70_000, height: 1 })
    );
}

#[test]
fn capture_succeeds_on_the_third_try() {
    let frame = patterned(4, 4);
    let retry = CaptureRetry::new();
    let retry = match retry.record(Err(CaptureError::EnumerationFailed)) {
        CaptureStep::RetryAfter { millis, retry } => {
            assert_eq!(millis, 500);
            retry
        }
        other => panic!("expected a retry, got {:?}", other),
    };
    let retry = match retry.record(Err(CaptureError::CaptureFailed)) {
        CaptureStep::RetryAfter { millis, retry } => {
            assert_eq!(millis, CAPTURE_RETRY_MILLIS);
            retry
        }
        other => panic!("expected a retry, got {:?}", other),
    };
    assert_eq!(retry.record(Ok(frame.clone())), CaptureStep::Captured { frame });
}

#[test]
fn capture_that_succeeds_at_once_is_not_retried() {
    let frame = patterned(2, 3);
    assert_eq!(CaptureRetry::new().record(Ok(frame.clone())), CaptureStep::Captured { frame });
}

#[test]
fn capture_gives_up_after_three_failures() {
    assert_eq!(CAPTURE_ATTEMPTS, 3);
    let mut retry = CaptureRetry::new();
    for _ in 0..2 {
        retry = match retry.record(Err(CaptureError::CaptureFailed)) {
            CaptureStep::RetryAfter { retry, .. } => retry,
            other => panic!("expected a retry, got {:?}", other),
        };
    }
    assert_eq!(
        retry.record(Err(CaptureError::EnumerationFailed)),
        CaptureStep::Failed { error: CaptureError::EnumerationFailed }
    );
}

#[test]
fn bad_buffer_ends_the_capture_at_once() {
    assert_eq!(
        CaptureRetry::new().record(Err(CaptureError::BadBuffer)),
        CaptureStep::Failed { error: CaptureError::BadBuffer }
    );
}

#[test]
fn missing_screens_do_not_hide_an_earlier_error() {
    let none = CaptureRetry::new();
    let step = none.record(Err(CaptureError::NoScreens));
    let retry = match step {
        CaptureStep::RetryAfter { retry, .. } => retry,
        other => panic!("expected a retry, got {:?}", other),
    };
    assert_eq!(retry, CaptureRetry { failures: 1, last_error: CaptureError::NoScreens });
    let retry = match retry.record(Err(CaptureError::EnumerationFailed)) {
        CaptureStep::RetryAfter { retry, .. } => retry,
        other => panic!("expected a retry, got {:?}", other),
    };
    assert_eq!(
        retry.record(Err(CaptureError::NoScreens)),
        CaptureStep::Failed { error: CaptureError::EnumerationFailed }
    );

    let exhausted = CaptureRetry { failures: 2, last_error: CaptureError::NoScreens };
    assert_eq!(
        exhausted.record(Err(CaptureError::NoScreens)),
        CaptureStep::Failed { error: CaptureError::NoScreens }
    );
}

#[test]
fn capture_errors_in_words() {
    assert_eq!(CaptureError::NoScreens.message(), "No screens found");
    assert_eq!(CaptureError::EnumerationFailed.message(), "Could not list screens");
    assert_eq!(CaptureError::CaptureFailed.message(), "Could not capture screen");
    assert_eq!(CaptureError::BadBuffer.message(), "Failed to create image from screenshot");
}

#[test]
fn primary_display_is_the_first_primary_or_the_first() {
    assert_eq!(primary_display(&vec![false, true, true]), Some(1));
    assert_eq!(primary_display(&vec![true]), Some(0));
    assert_eq!(primary_display(&vec![false, false]), Some(0));
    assert_eq!(primary_display(&vec![]), None);
}

#[test]
fn snapshot_is_the_encoding_in_base64() {
    let frame = patterned(48, 32);
    let text = capture_screenshot(frame.clone(), 75, 1920).unwrap();
    let bytes = base64::Engine::decode(&base64::engine::general_purpose::STANDARD, &text).unwrap();
    assert_eq!(bytes, encode(frame, 75, 1920, ResampleFilter::Lanczos3).unwrap());
    assert!(text.starts_with("/9j/"));
}

#[test]
fn snapshot_is_scaled_to_the_bound() {
    let text = capture_screenshot(patterned(400, 100), 50, 200).unwrap();
    let bytes = base64::Engine::decode(&base64::engine::general_purpose::STANDARD, &text).unwrap();
    assert_eq!(decoded_size(&bytes), (200, 50));
}

#[test]
fn snapshot_fails_as_the_encoding_does() {
    assert_eq!(
        capture_screenshot(plain(2, 2, [0; 4]), 75, 0),
        Err(EncodeError::InvalidSize { width: 0, height: 0 })
    );
}

#[test]
fn try_capture_gives_nothing_on_any_failure() {
    assert_eq!(try_capture_screenshot(Err(CaptureError::NoScreens), 75, 1920), None);
    assert_eq!(try_capture_screenshot(Ok(plain(2, 2, [0; 4])), 75, 0), None);
    let frame = patterned(8, 8);
    assert_eq!(
        try_capture_screenshot(Ok(frame.clone()), 75, 1920),
        Some(capture_screenshot(frame, 75, 1920).unwrap())
    );
}
