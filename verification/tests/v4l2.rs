use camera::backends::v4l2::{
    dimensions, from_fourcc, interval_rates, interval_supports, size_supports, to_fourcc, Converter,
    Interval, Plane, Size,
};
use camera::backends::v4l2::{
    config_from_format, native_layout, requested_format, V4l2Format, FOURCC_MJPG, FOURCC_NM12, FOURCC_NV12,
    FOURCC_YUYV,
};
use camera::{
    CameraConfig, CameraErrorKind, ColorInfo, ColorMatrix, ColorRange, FrameRate, PixelFormat, PlaneLayout,
    VideoFormat,
};

fn convert(
    format: VideoFormat,
    width: u32,
    height: u32,
    data: &[u8],
    stride: usize,
) -> camera::CameraResult<Vec<u8>> {
    let mut rgb = vec![0; width as usize * height as usize * 3];
    Converter::new()?.convert(
        &CameraConfig::new(format, width, height, 30),
        &[Plane { data, stride }],
        &mut rgb,
    )?;
    Ok(rgb)
}

fn le(code: &[u8; 4]) -> u32 {
    u32::from_le_bytes(*code)
}

#[test]
fn rgb_and_gray_skip_row_padding_and_accept_unpadded_last_row() {
    assert_eq!(
        convert(VideoFormat::RGB, 1, 2, &[1, 2, 3, 99, 4, 5, 6], 4).unwrap(),
        vec![1, 2, 3, 4, 5, 6]
    );
    assert_eq!(
        convert(VideoFormat::Gray, 2, 2, &[1, 2, 99, 3, 4], 3).unwrap(),
        vec![1, 1, 1, 2, 2, 2, 3, 3, 3, 4, 4, 4]
    );
}

#[test]
fn packed_yuv_honors_stride() {
    for format in [VideoFormat::YUYV, VideoFormat::UYVY] {
        let row = if format == VideoFormat::YUYV {
            [40, 80, 200, 180]
        } else {
            [80, 40, 180, 200]
        };
        let tight = [row.as_slice(), row.as_slice()].concat();
        let padded = [row.as_slice(), &[1, 2], row.as_slice()].concat();
        assert_eq!(
            convert(format, 2, 2, &tight, 4).unwrap(),
            convert(format, 2, 2, &padded, 6).unwrap()
        );
    }
}

#[test]
fn nv12_supports_contiguous_and_separate_padded_planes() {
    let config = CameraConfig::new(VideoFormat::NV12, 2, 2, 30);
    let mut converter = Converter::new().unwrap();
    let mut separate = [0; 12];
    converter
        .convert(
            &config,
            &[
                Plane {
                    data: &[60, 80, 99, 99, 100, 120],
                    stride: 4,
                },
                Plane {
                    data: &[128, 128],
                    stride: 4,
                },
            ],
            &mut separate,
        )
        .unwrap();
    assert_eq!(
        convert(
            VideoFormat::NV12,
            2,
            2,
            &[60, 80, 99, 99, 100, 120, 99, 99, 128, 128],
            4
        )
        .unwrap(),
        separate
    );
}

#[test]
fn invalid_lengths_strides_dimensions_and_jpeg_are_errors() {
    assert!(convert(VideoFormat::RGB, 2, 2, &[0; 11], 6).is_err());
    assert!(convert(VideoFormat::RGB, 2, 2, &[0; 12], 5).is_err());
    assert!(convert(VideoFormat::NV12, 2, 2, &[0; 5], 2).is_err());
    assert!(convert(VideoFormat::YUYV, 3, 2, &[0; 12], 6).is_err());
    assert!(convert(VideoFormat::MJPEG, 2, 2, &[0; 10], 0).is_err());
    assert!(convert(VideoFormat::H264, 2, 2, &[0; 10], 0).is_err());
    assert!(convert(VideoFormat::RGB, 0, 1, &[], 0).is_err());
}

#[test]
fn fourcc_round_trip_and_unsupported_formats() {
    for format in [
        VideoFormat::MJPEG,
        VideoFormat::YUYV,
        VideoFormat::UYVY,
        VideoFormat::NV12,
        VideoFormat::RGB,
        VideoFormat::Gray,
    ] {
        assert_eq!(from_fourcc(to_fourcc(format).unwrap()), Some(format));
    }
    assert_eq!(from_fourcc(le(b"NM12")), Some(VideoFormat::NV12));
    assert_eq!(from_fourcc(le(b"H264")), None);
    assert!(to_fourcc(VideoFormat::H264).is_err());
}

#[test]
fn limited_range_black_white_and_709_matrix_are_respected() {
    let config = CameraConfig::new(VideoFormat::YUYV, 2, 1, 30);
    let mut rgb = [0; 6];
    let mut converter = Converter::new().unwrap();
    converter.set_colorimetry(2, false).unwrap();
    converter
        .convert(
            &config,
            &[Plane {
                data: &[16, 128, 235, 128],
                stride: 4,
            }],
            &mut rgb,
        )
        .unwrap();
    assert_eq!(rgb, [0, 0, 0, 255, 255, 255]);
    converter
        .convert(
            &config,
            &[Plane {
                data: &[81, 90, 81, 240],
                stride: 4,
            }],
            &mut rgb,
        )
        .unwrap();
    assert_eq!(rgb, [255, 24, 0, 255, 24, 0]);
    assert!(converter.set_colorimetry(7, false).is_err());
}

#[test]
fn ranged_resolutions_respect_steps_and_bounds() {
    let size = Size {
        kind: 3,
        min_w: 320,
        max_w: 1920,
        step_w: 16,
        min_h: 240,
        max_h: 1080,
        step_h: 16,
    };
    let dims = dimensions(&size);
    assert!(dims.contains(&(320, 240)));
    assert!(dims.contains(&(640, 480)));
    assert!(!dims.contains(&(1920, 1080)));
    assert!(!dims.contains(&(3840, 2160)));
    assert!(size_supports(&size, 1600, 880));
    assert!(!size_supports(&size, 1600, 900));
    assert!(!size_supports(&size, 1936, 1080));
}

#[test]
fn interval_enumeration_handles_fractional_and_ranged_rates() {
    assert_eq!(
        interval_rates(&Interval {
            kind: 1,
            min_n: 1001,
            min_d: 30000,
            max_n: 1001,
            max_d: 30000,
            ..Default::default()
        }),
        vec![FrameRate::new(30000, 1001).unwrap()]
    );
    assert!(interval_rates(&Interval::default()).is_empty());
    let rates = interval_rates(&Interval {
        kind: 3,
        min_n: 1,
        min_d: 30,
        max_n: 1,
        max_d: 10,
        step_n: 1,
        step_d: 30,
    });
    assert_eq!(
        rates,
        vec![10, 15, 30]
            .into_iter()
            .map(|r| FrameRate::new(r, 1).unwrap())
            .collect::<Vec<_>>()
    );
    let range = Interval {
        kind: 3,
        min_n: 1001,
        min_d: 60000,
        max_n: 1001,
        max_d: 15000,
        step_n: 1001,
        step_d: 60000,
    };
    assert!(interval_supports(&range, FrameRate::new(30000, 1001).unwrap()));
    assert!(!interval_supports(&range, FrameRate::new(24, 1).unwrap()));
    assert!(!interval_supports(&range, FrameRate::new(120, 1).unwrap()));
}

#[test]
fn fourcc_codes_are_little_endian_ascii() {
    assert_eq!(to_fourcc(VideoFormat::MJPEG).unwrap(), le(b"MJPG"));
    assert_eq!(to_fourcc(VideoFormat::RGB).unwrap(), le(b"RGB3"));
    assert_eq!(to_fourcc(VideoFormat::Gray).unwrap(), le(b"GREY"));
}

#[test]
fn full_range_bt601_is_the_default_colorimetry() {
    let mut rgb = [0; 6];
    let mut converter = Converter::new().unwrap();
    converter
        .convert(
            &CameraConfig::new(VideoFormat::YUYV, 2, 1, 30),
            &[Plane {
                data: &[10, 128, 20, 128],
                stride: 4,
            }],
            &mut rgb,
        )
        .unwrap();
    assert_eq!(rgb, [10, 10, 10, 20, 20, 20]);
    assert!(converter.set_colorimetry(1, true).is_ok());
}

#[test]
fn requested_formats_prefer_the_formats_own_code() {
    let nv12 = CameraConfig::new(VideoFormat::NV12, 640, 480, 30);
    let f = requested_format(&nv12, &vec![FOURCC_NM12, FOURCC_NV12, FOURCC_YUYV]).unwrap();
    assert_eq!((f.fourcc, f.width, f.height, f.fps, f.fps_denominator), (FOURCC_NV12, 640, 480, 30, 1));
    assert_eq!(requested_format(&nv12, &vec![FOURCC_YUYV, FOURCC_NM12]).unwrap().fourcc, FOURCC_NM12);
    assert_eq!(
        requested_format(&nv12, &vec![FOURCC_MJPG]).unwrap_err().kind(),
        CameraErrorKind::UnsupportedFormat
    );
    let h264 = CameraConfig::new(VideoFormat::H264, 640, 480, 30);
    assert_eq!(
        requested_format(&h264, &vec![FOURCC_MJPG]).unwrap_err().kind(),
        CameraErrorKind::UnsupportedFormat
    );
}

#[test]
fn negotiated_formats_give_configurations() {
    let base = V4l2Format { fourcc: FOURCC_YUYV, width: 640, height: 480, fps: 60, fps_denominator: 2, planes: 1, ..Default::default() };
    let c = config_from_format(&base).unwrap();
    assert_eq!(c, CameraConfig { format: VideoFormat::YUYV, width: 640, height: 480, fps: 30, fps_denominator: 1 });
    let two = V4l2Format { fourcc: FOURCC_NV12, planes: 2, ..base };
    assert_eq!(config_from_format(&two).unwrap().format, VideoFormat::NV12);
    assert_eq!(config_from_format(&V4l2Format { planes: 2, ..base }).unwrap_err().kind(), CameraErrorKind::UnsupportedFormat);
    assert_eq!(config_from_format(&V4l2Format { fourcc: 7, ..base }).unwrap_err().kind(), CameraErrorKind::UnsupportedFormat);
    assert_eq!(config_from_format(&V4l2Format { fps: 0, ..base }).unwrap_err().kind(), CameraErrorKind::UnsupportedFormat);
    assert_eq!(config_from_format(&V4l2Format { fps_denominator: 0, ..base }).unwrap_err().kind(), CameraErrorKind::InvalidConfig);
    assert_eq!(config_from_format(&V4l2Format { width: 0, ..base }).unwrap_err().kind(), CameraErrorKind::InvalidConfig);
}

#[test]
fn native_layouts_carry_the_negotiated_colorimetry() {
    let native = V4l2Format { ycbcr: 2, full_range: 1, ..Default::default() };
    let yuyv = CameraConfig::new(VideoFormat::YUYV, 2, 2, 30);
    let data = [0u8; 8];
    let layout = native_layout(&yuyv, &native, &[Plane { data: &data, stride: 4 }]).unwrap();
    assert_eq!(layout.format, PixelFormat::Yuyv);
    assert_eq!(layout.planes, vec![PlaneLayout { offset: 0, length: 8, row_stride: 4, pixel_stride: 2 }]);
    assert_eq!(layout.color, Some(ColorInfo { matrix: ColorMatrix::Bt709, range: ColorRange::Full }));
    let nv12 = CameraConfig::new(VideoFormat::NV12, 2, 2, 30);
    let packed = [0u8; 6];
    let single = native_layout(&nv12, &V4l2Format::default(), &[Plane { data: &packed, stride: 2 }]).unwrap();
    assert_eq!(
        single.planes,
        vec![
            PlaneLayout { offset: 0, length: 4, row_stride: 2, pixel_stride: 1 },
            PlaneLayout { offset: 4, length: 2, row_stride: 2, pixel_stride: 2 },
        ]
    );
    assert_eq!(single.color, Some(ColorInfo { matrix: ColorMatrix::Unknown, range: ColorRange::Limited }));
    let luma = [0u8; 4];
    let chroma = [0u8; 2];
    let split = native_layout(&nv12, &V4l2Format::default(), &[Plane { data: &luma, stride: 2 }, Plane { data: &chroma, stride: 2 }]).unwrap();
    assert_eq!(split.planes[1], PlaneLayout { offset: 4, length: 2, row_stride: 2, pixel_stride: 2 });
    assert_eq!(
        native_layout(&nv12, &V4l2Format::default(), &[Plane { data: &luma, stride: 2 }]).unwrap_err().kind(),
        CameraErrorKind::InvalidFormat
    );
    let h264 = CameraConfig::new(VideoFormat::H264, 2, 2, 30);
    assert_eq!(
        native_layout(&h264, &native, &[Plane { data: &data, stride: 4 }]).unwrap_err().kind(),
        CameraErrorKind::UnsupportedFormat
    );
}
