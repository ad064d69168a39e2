use camera::backends::camera2::{
    camera2_frame_to_rgb, convert_camera2_yuv, native_frame_layout, InterleavedChroma, NdkFrameData,
};
use camera::convert::{rgba8888_to_rgb_into, yuv420_to_rgb_into, yuv420sp_to_rgb_into, YuvPlane};
use camera::{CameraErrorKind, PixelFormat, PlaneLayout};

fn yuv_frame(width: i32, height: i32, y: Vec<u8>, u: Vec<u8>, v: Vec<u8>, chroma_stride: i32, step: i32) -> NdkFrameData {
    NdkFrameData {
        rgb_data: Vec::new(),
        row_stride_rgb: 0,
        y_data: y,
        row_stride_y: width,
        uv_data: u,
        row_stride_uv: chroma_stride,
        pixel_stride_uv: step,
        v_data: v,
        row_stride_v: chroma_stride,
        pixel_stride_v: step,
        width,
        height,
        pixel_format: 1,
        timestamp_ns: 0,
    }
}

#[test]
fn planar_yuv_converts_with_full_range_bt601() {
    let y = [100u8; 4];
    let u = [90u8];
    let v = [200u8];
    let mut rgb = vec![0u8; 12];
    yuv420_to_rgb_into(
        YuvPlane { data: &y, row_stride: 2, pixel_stride: 1 },
        YuvPlane { data: &u, row_stride: 1, pixel_stride: 1 },
        YuvPlane { data: &v, row_stride: 1, pixel_stride: 1 },
        2,
        2,
        &mut rgb,
    )
    .unwrap();
    assert_eq!(&rgb[0..3], &[201, 62, 33]);
    assert_eq!(&rgb[9..12], &[201, 62, 33]);
}

#[test]
fn planar_yuv_keeps_bytes_past_the_image_and_rejects_short_planes() {
    let y = [7u8; 4];
    let c = [128u8];
    let mut rgb = vec![9u8; 14];
    yuv420_to_rgb_into(
        YuvPlane { data: &y, row_stride: 2, pixel_stride: 1 },
        YuvPlane { data: &c, row_stride: 1, pixel_stride: 1 },
        YuvPlane { data: &c, row_stride: 1, pixel_stride: 1 },
        2,
        2,
        &mut rgb,
    )
    .unwrap();
    assert_eq!(&rgb[0..12], &[7u8; 12]);
    assert_eq!(&rgb[12..], &[9, 9]);
    let err = yuv420_to_rgb_into(
        YuvPlane { data: &y[..3], row_stride: 2, pixel_stride: 1 },
        YuvPlane { data: &c, row_stride: 1, pixel_stride: 1 },
        YuvPlane { data: &c, row_stride: 1, pixel_stride: 1 },
        2,
        2,
        &mut rgb,
    )
    .unwrap_err();
    assert_eq!(err.kind(), CameraErrorKind::InvalidFormat);
    assert_eq!(&rgb[12..], &[9, 9]);
}

#[test]
fn interleaved_chroma_matches_the_semiplanar_path() {
    let y: Vec<u8> = (0..16).map(|i| (i * 13) as u8).collect();
    let uv: Vec<u8> = vec![60, 170, 90, 200, 120, 30, 250, 10];
    let mut semi = vec![0u8; 48];
    yuv420sp_to_rgb_into(&y, &uv, 4, 4, 4, 4, &mut semi).unwrap();
    let mut planar = vec![0u8; 48];
    yuv420_to_rgb_into(
        YuvPlane { data: &y, row_stride: 4, pixel_stride: 1 },
        YuvPlane { data: &uv, row_stride: 4, pixel_stride: 2 },
        YuvPlane { data: &uv[1..], row_stride: 4, pixel_stride: 2 },
        4,
        4,
        &mut planar,
    )
    .unwrap();
    assert_eq!(semi, planar);
}

#[test]
fn rgba_rows_drop_alpha_and_padding() {
    let data = [1u8, 2, 3, 4, 5, 6, 7, 8, 0, 0, 9, 10, 11, 12, 13, 14, 15, 16, 0, 0];
    let mut rgb = vec![0u8; 12];
    rgba8888_to_rgb_into(&data, 2, 2, 10, &mut rgb).unwrap();
    assert_eq!(rgb, vec![1, 2, 3, 5, 6, 7, 9, 10, 11, 13, 14, 15]);
    assert_eq!(
        rgba8888_to_rgb_into(&data[..17], 2, 2, 10, &mut rgb).unwrap_err().kind(),
        CameraErrorKind::InvalidFormat
    );
    assert_eq!(
        rgba8888_to_rgb_into(&data, 2, 2, 10, &mut [0u8; 11]).unwrap_err().kind(),
        CameraErrorKind::InvalidFormat
    );
}

#[test]
fn camera2_frames_convert_by_their_planes() {
    let frame = yuv_frame(2, 2, vec![100; 4], vec![90], vec![200], 1, 1);
    let mut rgb = vec![0u8; 12];
    camera2_frame_to_rgb(&frame, &mut rgb).unwrap();
    assert_eq!(&rgb[3..6], &[201, 62, 33]);

    let mut direct = vec![0u8; 12];
    convert_camera2_yuv(&frame, 2, 2, &mut direct).unwrap();
    assert_eq!(rgb, direct);

    let mut rgba = yuv_frame(1, 1, Vec::new(), Vec::new(), Vec::new(), 0, 0);
    rgba.pixel_format = 2;
    rgba.rgb_data = vec![10, 20, 30, 255];
    rgba.row_stride_rgb = 4;
    let mut out = vec![0u8; 3];
    camera2_frame_to_rgb(&rgba, &mut out).unwrap();
    assert_eq!(out, vec![10, 20, 30]);

    let broken = yuv_frame(2, 2, vec![100; 4], vec![90], Vec::new(), 1, 1);
    assert_eq!(
        camera2_frame_to_rgb(&broken, &mut rgb).unwrap_err().kind(),
        CameraErrorKind::InvalidFormat
    );
}

#[test]
fn camera2_native_layouts() {
    let frame = yuv_frame(2, 2, vec![1; 4], vec![2; 2], vec![3; 3], 1, 1);
    let planar = native_frame_layout(&frame, None).unwrap();
    assert_eq!(planar.format, PixelFormat::Yuv420p);
    assert_eq!(
        planar.planes,
        vec![
            PlaneLayout { offset: 0, length: 4, row_stride: 2, pixel_stride: 1 },
            PlaneLayout { offset: 4, length: 2, row_stride: 1, pixel_stride: 1 },
            PlaneLayout { offset: 6, length: 3, row_stride: 1, pixel_stride: 1 },
        ]
    );
    let chroma = InterleavedChroma { format: PixelFormat::Nv21, length: 2, row_stride: 2 };
    let nv21 = native_frame_layout(&frame, Some(chroma)).unwrap();
    assert_eq!(nv21.format, PixelFormat::Nv21);
    assert_eq!(nv21.planes[1], PlaneLayout { offset: 4, length: 2, row_stride: 2, pixel_stride: 2 });

    let mut rgba = yuv_frame(2, 1, Vec::new(), Vec::new(), Vec::new(), 0, 0);
    rgba.pixel_format = 2;
    assert_eq!(native_frame_layout(&rgba, None).unwrap_err().kind(), CameraErrorKind::InvalidFormat);
    rgba.rgb_data = vec![0; 8];
    rgba.row_stride_rgb = 8;
    let layout = native_frame_layout(&rgba, None).unwrap();
    assert_eq!(layout.format, PixelFormat::Rgba8);
    assert_eq!(layout.planes, vec![PlaneLayout { offset: 0, length: 8, row_stride: 8, pixel_stride: 4 }]);

    let empty = yuv_frame(0, 2, vec![1; 4], vec![2], vec![3], 1, 1);
    assert_eq!(native_frame_layout(&empty, None).unwrap_err().kind(), CameraErrorKind::InvalidFormat);
}
