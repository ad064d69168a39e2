use camera::backends::avfoundation::{
    convert_pixel_buffer, cross_format_fallback_priority, encoded_pixel_format, find_best_format,
    fourcc_to_format, is_native_nv12, native_packed_format, native_packed_length,
    native_plane_length, nv12_color_range, sample_timestamp_ns, select_device_format,
    AVAuthorizationStatus, DeviceFormatCandidate, FOURCC_2VUY, FOURCC_420F, FOURCC_420V,
    FOURCC_ARGB, FOURCC_BGRA, FOURCC_JPEG, FOURCC_YUVS, frame_duration, session_preset, SessionPreset,
    native_nv12_layout, native_packed_layout,
};
use camera::PlaneLayout;
use camera::{CameraConfig, CameraErrorKind, ColorInfo, ColorMatrix, ColorRange, PixelFormat, VideoFormat};

fn candidate(fourcc: u32, width: u32, height: u32, fps_supported: bool, max_fps_exact: bool) -> DeviceFormatCandidate {
    DeviceFormatCandidate {
        fourcc,
        width,
        height,
        fps_supported,
        max_fps_exact,
        has_rate_ranges: true,
    }
}

#[test]
fn cross_format_fallback_prefers_directly_convertible_nv12() {
    assert!(
        cross_format_fallback_priority(VideoFormat::NV12)
            > cross_format_fallback_priority(VideoFormat::RGB)
    );
    assert!(
        cross_format_fallback_priority(VideoFormat::NV12)
            > cross_format_fallback_priority(VideoFormat::YUYV)
    );
    assert!(
        cross_format_fallback_priority(VideoFormat::NV12)
            > cross_format_fallback_priority(VideoFormat::UYVY)
    );
    assert!(
        cross_format_fallback_priority(VideoFormat::NV12)
            > cross_format_fallback_priority(VideoFormat::MJPEG)
    );
}

#[test]
fn fourcc_codes_map_to_capture_formats() {
    assert_eq!(fourcc_to_format(FOURCC_2VUY), Some(VideoFormat::UYVY));
    assert_eq!(fourcc_to_format(FOURCC_YUVS), Some(VideoFormat::YUYV));
    assert_eq!(fourcc_to_format(FOURCC_420F), Some(VideoFormat::NV12));
    assert_eq!(fourcc_to_format(FOURCC_420V), Some(VideoFormat::NV12));
    assert_eq!(fourcc_to_format(FOURCC_BGRA), Some(VideoFormat::RGB));
    assert_eq!(fourcc_to_format(FOURCC_ARGB), Some(VideoFormat::RGB));
    assert_eq!(fourcc_to_format(0x646D6231), Some(VideoFormat::MJPEG));
    assert_eq!(fourcc_to_format(FOURCC_JPEG), Some(VideoFormat::MJPEG));
    assert_eq!(fourcc_to_format(0x61766331), None);
}

#[test]
fn exact_formats_win_then_closest_then_cross_format() {
    let config = CameraConfig::new(VideoFormat::YUYV, 1280, 720, 30);
    let exact = [
        candidate(FOURCC_YUVS, 1280, 720, true, false),
        candidate(FOURCC_YUVS, 1280, 720, true, true),
        candidate(FOURCC_420V, 1280, 720, true, true),
    ];
    assert_eq!(find_best_format(&exact, &config).unwrap(), 1);
    let same_format = [
        candidate(FOURCC_YUVS, 640, 480, true, true),
        candidate(FOURCC_YUVS, 1920, 1080, true, true),
        candidate(FOURCC_YUVS, 1280, 800, false, true),
        candidate(FOURCC_YUVS, 1024, 768, true, true),
    ];
    assert_eq!(find_best_format(&same_format, &config).unwrap(), 3);
    let cross = [
        candidate(FOURCC_BGRA, 1280, 720, true, true),
        candidate(FOURCC_420F, 640, 480, true, true),
        candidate(0x61766331, 1280, 720, true, true),
    ];
    assert_eq!(find_best_format(&cross, &config).unwrap(), 1);
    assert_eq!(select_device_format(&[], &config), None);
    let none = [candidate(FOURCC_YUVS, 1280, 720, false, false)];
    assert_eq!(
        find_best_format(&none, &config).unwrap_err().kind(),
        CameraErrorKind::UnsupportedFormat
    );
    let bad_rate = CameraConfig { fps: 0, ..config };
    assert_eq!(
        find_best_format(&exact, &bad_rate).unwrap_err().kind(),
        CameraErrorKind::InvalidConfig
    );
}

#[test]
fn ties_keep_the_first_format() {
    let config = CameraConfig::new(VideoFormat::NV12, 1280, 720, 30);
    let tied = [
        candidate(FOURCC_420V, 1280, 720, true, true),
        candidate(FOURCC_420F, 1280, 720, true, true),
    ];
    assert_eq!(select_device_format(&tied, &config), Some(0));
}

#[test]
fn sample_times_become_nanoseconds() {
    assert_eq!(sample_timestamp_ns(true, 3, 2), Some(1_500_000_000));
    assert_eq!(sample_timestamp_ns(true, -3, 2), Some(-1_500_000_000));
    assert_eq!(sample_timestamp_ns(true, 1, 3), Some(333_333_333));
    assert_eq!(sample_timestamp_ns(true, -1, 3), Some(-333_333_333));
    assert_eq!(sample_timestamp_ns(false, 3, 2), None);
    assert_eq!(sample_timestamp_ns(true, 3, 0), None);
    assert_eq!(sample_timestamp_ns(true, i64::MAX, 1), None);
}

#[test]
fn native_pixel_buffers_keep_their_layout() {
    assert_eq!(native_packed_format(FOURCC_BGRA), Some(PixelFormat::Bgra8));
    assert_eq!(native_packed_format(FOURCC_ARGB), Some(PixelFormat::Argb8));
    assert_eq!(native_packed_format(FOURCC_YUVS), Some(PixelFormat::Yuyv));
    assert_eq!(native_packed_format(FOURCC_2VUY), Some(PixelFormat::Uyvy));
    assert_eq!(native_packed_format(FOURCC_420V), None);
    assert_eq!(encoded_pixel_format(FOURCC_JPEG), Some(PixelFormat::Mjpeg));
    assert_eq!(encoded_pixel_format(0x61766331), Some(PixelFormat::H264));
    assert!(is_native_nv12(FOURCC_420F, 2));
    assert!(!is_native_nv12(FOURCC_420F, 1));
    assert_eq!(nv12_color_range(FOURCC_420F), ColorRange::Full);
    assert_eq!(nv12_color_range(FOURCC_420V), ColorRange::Limited);
    assert_eq!(native_plane_length(1280, 720), Some(921_600));
    assert_eq!(native_plane_length(0, 720), None);
    assert_eq!(native_plane_length(usize::MAX, 2), None);
    assert_eq!(native_packed_length(5120, 720), Some(3_686_400));
    assert_eq!(native_packed_length(1 << 20, 129), None);
}

#[test]
fn packed_pixel_buffers_convert_to_rgb() {
    let mut rgb = vec![0; 6];
    convert_pixel_buffer(FOURCC_BGRA, &[3, 2, 1, 9, 6, 5, 4, 9], 2, 1, 8, &mut rgb).unwrap();
    assert_eq!(rgb, [1, 2, 3, 4, 5, 6]);
    convert_pixel_buffer(FOURCC_ARGB, &[9, 1, 2, 3, 9, 4, 5, 6], 2, 1, 8, &mut rgb).unwrap();
    assert_eq!(rgb, [1, 2, 3, 4, 5, 6]);
    convert_pixel_buffer(FOURCC_YUVS, &[16, 128, 235, 128], 2, 1, 4, &mut rgb).unwrap();
    assert_eq!(rgb, [0, 0, 0, 255, 255, 255]);
    convert_pixel_buffer(FOURCC_2VUY, &[128, 16, 128, 235], 2, 1, 4, &mut rgb).unwrap();
    assert_eq!(rgb, [0, 0, 0, 255, 255, 255]);
    let mut two_rows = vec![0; 6];
    convert_pixel_buffer(FOURCC_BGRA, &[3, 2, 1, 0, 7, 7, 6, 5, 4, 0], 1, 2, 6, &mut two_rows).unwrap();
    assert_eq!(two_rows, [1, 2, 3, 4, 5, 6]);
}

#[test]
fn packed_pixel_buffer_errors() {
    let mut rgb = vec![0; 6];
    assert_eq!(
        convert_pixel_buffer(FOURCC_420V, &[0; 8], 2, 1, 8, &mut rgb).unwrap_err().kind(),
        CameraErrorKind::UnsupportedFormat
    );
    assert_eq!(
        convert_pixel_buffer(FOURCC_BGRA, &[0; 8], 2, 1, 7, &mut rgb).unwrap_err().kind(),
        CameraErrorKind::InvalidFormat
    );
    assert_eq!(
        convert_pixel_buffer(FOURCC_BGRA, &[0; 7], 2, 1, 8, &mut rgb).unwrap_err().kind(),
        CameraErrorKind::InvalidFormat
    );
    let mut odd = vec![0; 9];
    assert_eq!(
        convert_pixel_buffer(FOURCC_YUVS, &[0; 8], 3, 1, 8, &mut odd).unwrap_err().kind(),
        CameraErrorKind::InvalidFormat
    );
    assert_eq!(odd, [0; 9]);
}

#[test]
fn authorization_states_are_distinct() {
    assert_ne!(AVAuthorizationStatus::Authorized, AVAuthorizationStatus::Denied);
    assert_ne!(AVAuthorizationStatus::NotDetermined, AVAuthorizationStatus::Restricted);
}

#[test]
fn presets_pin_known_sizes_and_durations_use_the_exact_rate() {
    assert_eq!(session_preset(1280, 720), Some(SessionPreset::Preset1280x720));
    assert_eq!(session_preset(3840, 2160), Some(SessionPreset::Preset3840x2160));
    assert_eq!(session_preset(1280, 721), None);
    let mut config = CameraConfig::new(VideoFormat::NV12, 1920, 1080, 30000);
    config.fps_denominator = 1001;
    assert_eq!(frame_duration(&config).unwrap(), (1001, 30000));
    config.fps = u32::MAX;
    assert_eq!(frame_duration(&config).unwrap_err().kind(), CameraErrorKind::InvalidConfig);
}

#[test]
fn native_pixel_buffers_are_described_plane_by_plane() {
    let nv12 = native_nv12_layout(4, 2, FOURCC_420F, ColorMatrix::Bt709, (8, 2), (8, 1)).unwrap();
    assert_eq!(nv12.format, PixelFormat::Nv12);
    assert_eq!(
        nv12.planes,
        vec![
            PlaneLayout { offset: 0, length: 16, row_stride: 8, pixel_stride: 1 },
            PlaneLayout { offset: 16, length: 8, row_stride: 8, pixel_stride: 2 },
        ]
    );
    assert_eq!(nv12.color, Some(ColorInfo { matrix: ColorMatrix::Bt709, range: ColorRange::Full }));
    let video = native_nv12_layout(4, 2, FOURCC_420V, ColorMatrix::Unknown, (8, 2), (8, 1)).unwrap();
    assert_eq!(video.color, Some(ColorInfo { matrix: ColorMatrix::Unknown, range: ColorRange::Limited }));
    assert!(native_nv12_layout(4, 2, FOURCC_420V, ColorMatrix::Unknown, (8, 0), (8, 1)).is_none());
    assert!(native_nv12_layout(4, 2, FOURCC_420V, ColorMatrix::Unknown, (8, 2), (1 << 27, 2)).is_none());
    let bgra = native_packed_layout(2, 3, FOURCC_BGRA, 12).unwrap();
    assert_eq!(bgra.format, PixelFormat::Bgra8);
    assert_eq!(bgra.color, None);
    assert_eq!(bgra.planes, vec![PlaneLayout { offset: 0, length: 36, row_stride: 12, pixel_stride: 4 }]);
    assert!(native_packed_layout(2, 3, FOURCC_420V, 12).is_none());
    assert!(native_packed_layout(2, u32::MAX, FOURCC_BGRA, 1 << 20).is_none());
}

#[test]
fn zero_rates_fail_only_when_a_range_is_read() {
    let mut config = CameraConfig::new(VideoFormat::NV12, 640, 480, 30);
    config.fps = 0;
    assert_eq!(find_best_format(&[], &config).unwrap_err().kind(), CameraErrorKind::UnsupportedFormat);
    let unknown = [candidate(0x1234_5678, 640, 480, false, false)];
    assert_eq!(find_best_format(&unknown, &config).unwrap_err().kind(), CameraErrorKind::UnsupportedFormat);
    let mut rangeless = candidate(FOURCC_420V, 640, 480, false, false);
    rangeless.has_rate_ranges = false;
    assert_eq!(find_best_format(&[rangeless], &config).unwrap_err().kind(), CameraErrorKind::UnsupportedFormat);
    let known = [candidate(FOURCC_420V, 640, 480, false, false)];
    assert_eq!(find_best_format(&known, &config).unwrap_err().kind(), CameraErrorKind::InvalidConfig);
}
