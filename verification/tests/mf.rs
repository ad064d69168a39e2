use camera::backends::mf::{
    compatible_formats, control_type_to_mf_id, current_format, decode_into, format_to_guid, guid_to_format,
    matching_media_types, media_type_frame_rates, packed_frame_rate, two_dimensional_length, MFControlId, MfGuid,
    MfMediaType, mf_native_layout, sample_time_ns,
};
use camera::{FrameLayout, PixelFormat, PlaneLayout};
use camera::{CameraControlType, FrameRate};
use camera::{CameraConfig, CameraErrorKind, VideoFormat};

#[test]
fn decodes_padded_bottom_up_bgr_without_copying_raw_buffer() {
    let config = CameraConfig::new(VideoFormat::RGB, 1, 2, 30);
    let mut out = [0; 6];
    decode_into(&[3, 2, 1, 0, 6, 5, 4], &config, -4, &mut out).unwrap();
    assert_eq!(out, [4, 5, 6, 1, 2, 3]);
    assert!(decode_into(&[0; 2], &config, -4, &mut out).is_err());
}

#[test]
fn computes_checked_2d_surface_extents() {
    assert_eq!(
        two_dimensional_length(&CameraConfig::new(VideoFormat::RGB, 4, 3, 30), 16).unwrap(),
        44
    );
    assert_eq!(
        two_dimensional_length(&CameraConfig::new(VideoFormat::NV12, 4, 4, 30), 8).unwrap(),
        44
    );
    assert!(two_dimensional_length(&CameraConfig::new(VideoFormat::YUYV, 4, 3, 30), 7).is_err());
}

#[test]
fn subtype_guids_round_trip() {
    for format in [
        VideoFormat::YUYV,
        VideoFormat::MJPEG,
        VideoFormat::NV12,
        VideoFormat::RGB,
        VideoFormat::Gray,
        VideoFormat::UYVY,
    ] {
        let guid = format_to_guid(format).unwrap();
        assert_eq!(guid_to_format(&guid), Some(format));
    }
    assert_eq!(format_to_guid(VideoFormat::H264), None);
    let yuy2 = format_to_guid(VideoFormat::YUYV).unwrap();
    assert_eq!(yuy2.data1, 0x3259_5559);
    assert_eq!(yuy2.data4, [0x80, 0x00, 0x00, 0xAA, 0x00, 0x38, 0x9B, 0x71]);
    let rgb32 = MfGuid {
        data1: 0x16,
        ..yuy2
    };
    assert_eq!(guid_to_format(&rgb32), None);
    let foreign = MfGuid {
        data3: 0x11,
        ..yuy2
    };
    assert_eq!(guid_to_format(&foreign), None);
}

#[test]
fn media_foundation_buffers_decode_by_format() {
    let gray = CameraConfig::new(VideoFormat::Gray, 2, 1, 30);
    let mut out = [0; 6];
    decode_into(&[5, 9], &gray, 2, &mut out).unwrap();
    assert_eq!(out, [5, 5, 5, 9, 9, 9]);
    let yuyv = CameraConfig::new(VideoFormat::YUYV, 2, 1, 30);
    decode_into(&[10, 128, 20, 128], &yuyv, 4, &mut out).unwrap();
    assert_eq!(out, [10, 10, 10, 20, 20, 20]);
    let nv12 = CameraConfig::new(VideoFormat::NV12, 2, 2, 30);
    let mut out = [0; 12];
    decode_into(&[7, 7, 7, 7, 128, 128], &nv12, 2, &mut out).unwrap();
    assert_eq!(out, [7; 12]);
    assert_eq!(
        decode_into(&[7, 7, 7, 7, 128, 128], &nv12, -2, &mut out).unwrap_err().kind(),
        CameraErrorKind::InvalidFormat
    );
    let mjpeg = CameraConfig::new(VideoFormat::MJPEG, 2, 2, 30);
    assert_eq!(
        decode_into(&[0xff, 0xd8], &mjpeg, 0, &mut out).unwrap_err().kind(),
        CameraErrorKind::UnsupportedFormat
    );
    let rgb = CameraConfig::new(VideoFormat::RGB, 2, 1, 30);
    let mut out = [0; 6];
    assert_eq!(
        decode_into(&[0; 6], &rgb, 5, &mut out).unwrap_err().kind(),
        CameraErrorKind::InvalidFormat
    );
}

#[test]
fn controls_map_to_directshow_properties() {
    assert_eq!(control_type_to_mf_id(CameraControlType::Brightness), Some(MFControlId::ProcAmpRange(0)));
    assert_eq!(control_type_to_mf_id(CameraControlType::WhiteBalance), Some(MFControlId::ProcAmpRange(7)));
    assert_eq!(
        control_type_to_mf_id(CameraControlType::BacklightCompensation),
        Some(MFControlId::ProcAmpBoolean(8))
    );
    assert_eq!(control_type_to_mf_id(CameraControlType::Zoom), Some(MFControlId::CameraControlRange(3)));
    assert_eq!(control_type_to_mf_id(CameraControlType::Focus), Some(MFControlId::CameraControlValue(6)));
    assert_eq!(control_type_to_mf_id(CameraControlType::AutoFocus), None);
}

fn packed(high: u32, low: u32) -> u64 {
    (u64::from(high) << 32) | u64::from(low)
}

fn media(format: VideoFormat, width: u32, height: u32, rate: (u32, u32), max: Option<(u32, u32)>) -> MfMediaType {
    MfMediaType {
        subtype: format_to_guid(format),
        frame_size: Some(packed(width, height)),
        frame_rate: Some(packed(rate.0, rate.1)),
        frame_rate_max: max.map(|(n, d)| packed(n, d)),
        frame_rate_min: Some(packed(rate.0 * 2, rate.1 * 2)),
    }
}

#[test]
fn media_types_list_their_rates_once_in_lowest_terms() {
    let mt = media(VideoFormat::YUYV, 640, 480, (30, 1), Some((60, 2)));
    assert_eq!(media_type_frame_rates(&mt), vec![FrameRate::new(30, 1).unwrap()]);
    let ranged = media(VideoFormat::YUYV, 640, 480, (15, 1), Some((30, 1)));
    assert_eq!(
        media_type_frame_rates(&ranged),
        vec![FrameRate::new(15, 1).unwrap(), FrameRate::new(30, 1).unwrap()]
    );
    let zero = MfMediaType { frame_rate: Some(packed(0, 1)), frame_rate_max: None, frame_rate_min: None, ..mt };
    assert!(media_type_frame_rates(&zero).is_empty());
}

#[test]
fn compatible_formats_skip_unknown_subtypes() {
    let mut unknown = media(VideoFormat::NV12, 320, 240, (30, 1), None);
    unknown.subtype = Some(MfGuid { data1: 1, data2: 2, data3: 3, data4: [0; 8] });
    let types = vec![
        media(VideoFormat::MJPEG, 1280, 720, (15, 1), Some((30, 1))),
        unknown,
        media(VideoFormat::NV12, 320, 240, (30000, 1001), None),
    ];
    let configs = compatible_formats(&types);
    assert_eq!(
        configs,
        vec![
            CameraConfig::new(VideoFormat::MJPEG, 1280, 720, 15),
            CameraConfig::new(VideoFormat::MJPEG, 1280, 720, 30),
            CameraConfig { fps_denominator: 1001, ..CameraConfig::new(VideoFormat::NV12, 320, 240, 30000) },
        ]
    );
}

#[test]
fn media_types_are_matched_by_subtype_size_and_rate() {
    let types = vec![
        media(VideoFormat::YUYV, 640, 480, (30, 1), None),
        media(VideoFormat::MJPEG, 640, 480, (30, 1), None),
        media(VideoFormat::MJPEG, 640, 480, (15, 1), Some((60, 2))),
        media(VideoFormat::MJPEG, 1280, 720, (30, 1), None),
    ];
    let config = CameraConfig::new(VideoFormat::MJPEG, 640, 480, 30);
    assert_eq!(matching_media_types(&types, &config).unwrap(), vec![1, 2]);
    let h264 = CameraConfig::new(VideoFormat::H264, 640, 480, 30);
    assert_eq!(matching_media_types(&types, &h264).unwrap_err().kind(), CameraErrorKind::UnsupportedFormat);
    let zero = CameraConfig::new(VideoFormat::MJPEG, 640, 480, 0);
    assert_eq!(matching_media_types(&types, &zero).unwrap_err().kind(), CameraErrorKind::InvalidConfig);
    let absent = CameraConfig::new(VideoFormat::Gray, 640, 480, 0);
    assert!(matching_media_types(&types, &absent).unwrap().is_empty());
    assert_eq!(packed_frame_rate(&config), packed(30, 1));
}

#[test]
fn current_media_type_gives_config_and_signed_stride() {
    let yuy2 = format_to_guid(VideoFormat::YUYV).unwrap();
    let (config, stride) = current_format(&yuy2, packed(640, 480), packed(60, 2), None).unwrap();
    assert_eq!(config, CameraConfig::new(VideoFormat::YUYV, 640, 480, 30));
    assert_eq!(stride, 1280);
    let rgb = format_to_guid(VideoFormat::RGB).unwrap();
    let (_, bottom_up) = current_format(&rgb, packed(2, 2), packed(30, 1), Some((-8i32) as u32)).unwrap();
    assert_eq!(bottom_up, -8);
    assert_eq!(
        current_format(&yuy2, packed(640, 480), packed(30, 0), None).unwrap_err().kind(),
        CameraErrorKind::InvalidConfig
    );
    let unknown = MfGuid { data1: 1, data2: 0, data3: 0x10, data4: [0; 8] };
    assert_eq!(
        current_format(&unknown, packed(640, 480), packed(30, 1), None).unwrap_err().kind(),
        CameraErrorKind::UnsupportedFormat
    );
}

#[test]
fn native_buffers_keep_their_layout() {
    let nv12 = CameraConfig::new(VideoFormat::NV12, 4, 2, 30);
    let layout = mf_native_layout(&nv12, 4, 12).unwrap();
    assert_eq!(layout.format, PixelFormat::Nv12);
    assert_eq!(
        layout.planes,
        vec![
            PlaneLayout { offset: 0, length: 8, row_stride: 4, pixel_stride: 1 },
            PlaneLayout { offset: 8, length: 4, row_stride: 4, pixel_stride: 2 },
        ]
    );
    assert_eq!(mf_native_layout(&nv12, 4, 8).unwrap_err().kind(), CameraErrorKind::InvalidFormat);
    let rgb = CameraConfig::new(VideoFormat::RGB, 2, 2, 30);
    let bottom_up = mf_native_layout(&rgb, -8, 16).unwrap();
    assert!(bottom_up.bottom_up);
    assert_eq!(bottom_up.format, PixelFormat::Bgr8);
    assert_eq!(bottom_up.planes, vec![PlaneLayout { offset: 0, length: 16, row_stride: 8, pixel_stride: 3 }]);
    let h264 = CameraConfig::new(VideoFormat::H264, 2, 2, 30);
    assert_eq!(mf_native_layout(&h264, 4, 16).unwrap_err().kind(), CameraErrorKind::UnsupportedFormat);
    let packed = FrameLayout::packed(2, 2, PixelFormat::Yuyv, 4, 8);
    assert_eq!(packed.planes, vec![PlaneLayout { offset: 0, length: 8, row_stride: 4, pixel_stride: 2 }]);
    assert!(!packed.bottom_up);
}

#[test]
fn sample_times_are_converted_to_nanoseconds() {
    assert_eq!(sample_time_ns(333_333), Some(33_333_300));
    assert_eq!(sample_time_ns(i64::MAX / 10), None);
}
