use nostreye::camera::{
    camera_infos, decode_frame, frame_byte_count, i420_single_plane, i420_to_rgb, is_jpeg_magic, nv12_single_plane,
    nv12_to_rgb, rgb888_packed, used_plane_len, yuyv_to_rgb, EncodedFrame, FrameError,
    FOURCC_I420, FOURCC_MJPG, FOURCC_NV12, FOURCC_NV21, FOURCC_RG24, FOURCC_YU12, FOURCC_YUYV,
    FOURCC_YV12,
};
use nostreye::pixel::{clamp_u8, yuv_to_rgb_bt601};

/// Independent BT.601 reference with arithmetic shifts, as the camera code
/// computes it.
fn reference_rgb(y: u8, u: u8, v: u8) -> [u8; 3] {
    let c = y as i32 - 16;
    let d = u as i32 - 128;
    let e = v as i32 - 128;
    let clamp = |x: i32| x.clamp(0, 255) as u8;
    [
        clamp((298 * c + 409 * e + 128) >> 8),
        clamp((298 * c - 100 * d - 208 * e + 128) >> 8),
        clamp((298 * c + 516 * d + 128) >> 8),
    ]
}

#[test]
fn fourcc_codes_are_little_endian_ascii() {
    assert_eq!(FOURCC_NV12, u32::from_le_bytes(*b"NV12"));
    assert_eq!(FOURCC_NV21, u32::from_le_bytes(*b"NV21"));
    assert_eq!(FOURCC_MJPG, u32::from_le_bytes(*b"MJPG"));
    assert_eq!(FOURCC_YUYV, u32::from_le_bytes(*b"YUYV"));
    assert_eq!(FOURCC_RG24, u32::from_le_bytes(*b"RG24"));
    assert_eq!(FOURCC_YU12, u32::from_le_bytes(*b"YU12"));
    assert_eq!(FOURCC_I420, u32::from_le_bytes(*b"I420"));
    assert_eq!(FOURCC_YV12, u32::from_le_bytes(*b"YV12"));
}

#[test]
fn clamp_saturates() {
    assert_eq!(clamp_u8(-5), 0);
    assert_eq!(clamp_u8(0), 0);
    assert_eq!(clamp_u8(128), 128);
    assert_eq!(clamp_u8(255), 255);
    assert_eq!(clamp_u8(300), 255);
}

#[test]
fn bt601_black_white_and_gray() {
    assert_eq!(yuv_to_rgb_bt601(16, 128, 128), [0, 0, 0]);
    assert_eq!(yuv_to_rgb_bt601(235, 128, 128), [255, 255, 255]);
    assert_eq!(yuv_to_rgb_bt601(0, 128, 128), [0, 0, 0]);
    assert_eq!(yuv_to_rgb_bt601(126, 128, 128), [128, 128, 128]);
}

#[test]
fn bt601_matches_reference_everywhere_sampled() {
    for y in (0..=255u16).step_by(7) {
        for u in (0..=255u16).step_by(11) {
            for v in (0..=255u16).step_by(13) {
                let (y, u, v) = (y as u8, u as u8, v as u8);
                assert_eq!(yuv_to_rgb_bt601(y, u, v), reference_rgb(y, u, v));
            }
        }
    }
    // A saturated red and a case with a negative intermediate.
    assert_eq!(yuv_to_rgb_bt601(81, 90, 240), reference_rgb(81, 90, 240));
    assert_eq!(yuv_to_rgb_bt601(16, 0, 0), reference_rgb(16, 0, 0));
}

fn samples(frame: Option<nostreye::rgb_image::RgbFrame>) -> Option<(u32, u32, Vec<u8>)> {
    frame.map(|f| (f.image.width(), f.image.height(), f.image.into_raw()))
}

#[test]
fn nv12_two_planes_decodes_each_pixel() {
    // 2x2 image, Y stride 3 (one padding byte), chroma pair (U=90, V=240).
    let y_plane = [16u8, 235, 0, 81, 145, 0];
    let uv_plane = [90u8, 240];
    let (w, h, data) = samples(nv12_to_rgb(2, 2, 3, &y_plane, &uv_plane, false)).unwrap();
    assert_eq!((w, h), (2, 2));
    let mut expected = Vec::new();
    for luma in [16u8, 235, 81, 145] {
        expected.extend_from_slice(&reference_rgb(luma, 90, 240));
    }
    assert_eq!(data, expected);
}

#[test]
fn nv21_reads_chroma_as_v_then_u() {
    let y_plane = [100u8, 100];
    let uv_plane = [240u8, 90];
    let (_, _, data) = samples(nv12_to_rgb(2, 1, 2, &y_plane, &uv_plane, true)).unwrap();
    let mut expected = Vec::new();
    expected.extend_from_slice(&reference_rgb(100, 90, 240));
    expected.extend_from_slice(&reference_rgb(100, 90, 240));
    assert_eq!(data, expected);
}

#[test]
fn nv12_rejects_bad_geometry_and_short_planes() {
    assert!(nv12_to_rgb(0, 2, 2, &[0; 4], &[0; 2], false).is_none());
    assert!(nv12_to_rgb(2, 0, 2, &[0; 4], &[0; 2], false).is_none());
    assert!(nv12_to_rgb(2, 2, 1, &[0; 4], &[0; 2], false).is_none());
    // Chroma stride 1 < width 2.
    assert!(nv12_to_rgb(2, 2, 2, &[0; 4], &[0; 1], false).is_none());
    // Y plane one byte short.
    assert!(nv12_to_rgb(2, 2, 2, &[0; 3], &[0; 2], false).is_none());
}

#[test]
fn nv12_single_buffer_splits_planes() {
    // 2x2, stride 2: Y = 4 bytes, then UV = 2 bytes.
    let data = [16u8, 235, 81, 145, 90, 240];
    let single = samples(nv12_single_plane(2, 2, 2, &data, false)).unwrap();
    let split = samples(nv12_to_rgb(2, 2, 2, &data[..4], &data[4..], false)).unwrap();
    assert_eq!(single, split);
    assert!(nv12_single_plane(2, 2, 2, &data[..5], false).is_none());
}

#[test]
fn yuyv_odd_width_uses_last_group() {
    // width 3: groups (Y0 U Y1 V)(Y2 U Y3 V); the last group's Y3 is unused.
    let data = [16u8, 90, 235, 240, 81, 128, 200, 128];
    let (w, h, out) = samples(yuyv_to_rgb(3, 1, 8, &data)).unwrap();
    assert_eq!((w, h), (3, 1));
    let mut expected = Vec::new();
    expected.extend_from_slice(&reference_rgb(16, 90, 240));
    expected.extend_from_slice(&reference_rgb(235, 90, 240));
    expected.extend_from_slice(&reference_rgb(81, 128, 128));
    assert_eq!(out, expected);
    // The last group must be complete even though only its first pixel is used.
    assert!(yuyv_to_rgb(3, 1, 8, &data[..7]).is_none());
    // Stride shorter than two bytes per pixel.
    assert!(yuyv_to_rgb(3, 1, 5, &data).is_none());
    assert!(yuyv_to_rgb(3, 0, 8, &data).is_none());
}

#[test]
fn rgb888_drops_row_padding() {
    // 2x2, stride 7 (one padding byte per row).
    let data = [1u8, 2, 3, 4, 5, 6, 99, 7, 8, 9, 10, 11, 12];
    let (_, _, out) = samples(rgb888_packed(2, 2, 7, &data)).unwrap();
    assert_eq!(out, vec![1, 2, 3, 4, 5, 6, 7, 8, 9, 10, 11, 12]);
    assert!(rgb888_packed(2, 2, 5, &data).is_none());
    assert!(rgb888_packed(2, 2, 7, &data[..12]).is_none());
}

#[test]
fn rgb888_zero_width_is_an_empty_image() {
    let (w, h, out) = samples(rgb888_packed(0, 3, 0, &[])).unwrap();
    assert_eq!((w, h), (0, 3));
    assert!(out.is_empty());
}

#[test]
fn i420_three_planes_and_single_buffer() {
    // 2x2: Y stride 2, one U and one V sample.
    let y = [16u8, 235, 81, 145];
    let (_, _, out) = samples(i420_to_rgb(2, 2, 2, &y, &[90], &[240])).unwrap();
    let mut expected = Vec::new();
    for luma in y {
        expected.extend_from_slice(&reference_rgb(luma, 90, 240));
    }
    assert_eq!(out, expected);
    let single = [16u8, 235, 81, 145, 90, 240];
    let (_, _, out_single) = samples(i420_single_plane(2, 2, 2, &single, false)).unwrap();
    assert_eq!(out_single, expected);
    // YV12 order: V before U.
    let yv12 = [16u8, 235, 81, 145, 240, 90];
    let (_, _, out_yv12) = samples(i420_single_plane(2, 2, 2, &yv12, true)).unwrap();
    assert_eq!(out_yv12, expected);
    assert!(i420_single_plane(2, 2, 2, &single[..5], false).is_none());
    assert!(i420_to_rgb(2, 2, 2, &y, &[], &[240]).is_none());
}

#[test]
fn jpeg_magic_needs_both_marker_bytes() {
    assert!(is_jpeg_magic(&[0xff, 0xd8, 0xff]));
    assert!(!is_jpeg_magic(&[0xff]));
    assert!(!is_jpeg_magic(&[0xd8, 0xff]));
    assert!(!is_jpeg_magic(&[]));
}

#[test]
fn decode_frame_passes_jpeg_through() {
    let a: &[u8] = &[0xff, 0xd8, 1];
    let b: &[u8] = &[2, 3];
    match decode_frame(FOURCC_MJPG, 4, 4, 0, &[a, b]) {
        Ok(EncodedFrame::Jpeg(bytes)) => assert_eq!(bytes, vec![0xff, 0xd8, 1, 2, 3]),
        _ => panic!("expected JPEG bytes"),
    }
    // JPEG bytes under a raw fourcc are still passed through.
    match decode_frame(FOURCC_NV12, 4, 4, 0, &[a]) {
        Ok(EncodedFrame::Jpeg(bytes)) => assert_eq!(bytes, vec![0xff, 0xd8, 1]),
        _ => panic!("expected JPEG bytes"),
    }
}

#[test]
fn decode_frame_errors() {
    let not_jpeg: &[u8] = &[1, 2, 3];
    assert!(matches!(decode_frame(FOURCC_MJPG, 1, 1, 0, &[not_jpeg]), Err(FrameError::NotJpeg)));
    assert!(matches!(decode_frame(FOURCC_MJPG, 1, 1, 0, &[]), Err(FrameError::NotJpeg)));
    assert!(matches!(
        decode_frame(0x1234_5678, 1, 1, 0, &[not_jpeg]),
        Err(FrameError::UnsupportedFormat(0x1234_5678))
    ));
    match decode_frame(FOURCC_RG24, 2, 2, 0, &[not_jpeg]) {
        Err(FrameError::ConversionFailed { fourcc, planes, width, height, stride }) => {
            assert_eq!((fourcc, planes, width, height, stride), (FOURCC_RG24, 1, 2, 2, 2));
        }
        _ => panic!("expected a conversion failure"),
    }
}

#[test]
fn decode_frame_raw_formats() {
    let data: &[u8] = &[1, 2, 3, 4, 5, 6];
    match decode_frame(FOURCC_RG24, 2, 1, 6, &[data]) {
        Ok(EncodedFrame::Rgb(frame)) => assert_eq!(frame.image.into_raw(), data.to_vec()),
        _ => panic!("expected pixels"),
    }
    // Without a reported stride the width in pixels is used, too short for RGB.
    assert!(matches!(
        decode_frame(FOURCC_RG24, 2, 1, 0, &[data]),
        Err(FrameError::ConversionFailed { stride: 2, .. })
    ));
    let y: &[u8] = &[16, 235, 81, 145];
    let u: &[u8] = &[90];
    let v: &[u8] = &[240];
    let direct = samples(i420_to_rgb(2, 2, 2, y, u, v)).unwrap().2;
    match decode_frame(FOURCC_YV12, 2, 2, 2, &[y, v, u]) {
        Ok(EncodedFrame::Rgb(frame)) => assert_eq!(frame.image.into_raw(), direct),
        _ => panic!("expected pixels"),
    }
    match decode_frame(FOURCC_I420, 2, 2, 2, &[y, u, v]) {
        Ok(EncodedFrame::Rgb(frame)) => assert_eq!(frame.image.into_raw(), direct),
        _ => panic!("expected pixels"),
    }
}

#[test]
fn plane_length_prefers_reported_bytes() {
    assert_eq!(used_plane_len(100, 40), 40);
    assert_eq!(used_plane_len(100, 0), 100);
    assert_eq!(used_plane_len(100, 101), 100);
    assert_eq!(used_plane_len(100, 100), 100);
}

#[test]
fn cameras_are_numbered_in_order() {
    let infos = camera_infos(vec!["a".to_string(), "b".to_string()]);
    assert_eq!(infos.len(), 2);
    assert_eq!((infos[0].index, infos[0].id.as_str()), (0, "a"));
    assert_eq!((infos[1].index, infos[1].id.as_str()), (1, "b"));
}

#[test]
fn frame_bytes_add_up_planes() {
    let a: &[u8] = &[1, 2, 3];
    let b: &[u8] = &[4];
    assert_eq!(frame_byte_count(&[a, b]), 4);
    assert_eq!(frame_byte_count(&[]), 0);
}

#[test]
fn huge_frames_with_bad_layout_are_refused_before_decoding() {
    let big = u32::MAX;
    assert!(nv12_to_rgb(big, big, 0, &[], &[], false).is_none());
    assert!(nv12_single_plane(big, big, big, &[0; 8], false).is_none());
    assert!(i420_to_rgb(big, big, 0, &[], &[], &[]).is_none());
    assert!(i420_single_plane(big, big, big, &[0; 8], true).is_none());
    assert!(yuyv_to_rgb(big, big, 1, &[]).is_none());
    assert!(rgb888_packed(big, big, 1, &[]).is_none());
    assert!(matches!(
        decode_frame(FOURCC_NV12, big, big, 0, &[&[0u8; 4][..]]),
        Err(FrameError::ConversionFailed { .. })
    ));
    assert!(matches!(
        decode_frame(FOURCC_I420, big, big, 1, &[&[0u8; 4][..], &[][..], &[][..]]),
        Err(FrameError::ConversionFailed { .. })
    ));
}
