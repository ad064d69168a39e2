use camera::backends::camera2::{
    stream_config, CameraFacing, NdkCameraConfig, NdkCameraPixelFormat, NdkCameraStatus,
    AIMAGE_FORMAT_YUV_420_888,
};
use camera::convert::yuv420sp_to_rgb_into;
use camera::{BackendId, CameraConfig, CameraError, CameraErrorKind, VideoFormat};

#[test]
fn test_camera_facing() {
    assert_eq!(CameraFacing::from_ndk(0), CameraFacing::Front);
    assert_eq!(CameraFacing::from_ndk(1), CameraFacing::Back);
    assert_eq!(CameraFacing::from_ndk(2), CameraFacing::External);
    assert_eq!(CameraFacing::from_ndk(99), CameraFacing::External);
}

#[test]
fn test_yuv_to_rgb_basic() {
    // Simple 2x2 black frame (Y=0, U=128, V=128 => black RGB)
    let y_data: [u8; 4] = [0, 0, 0, 0];
    let uv_data: [u8; 4] = [128, 128, 128, 128];

    let mut rgb = vec![0; 2 * 2 * 3];
    yuv420sp_to_rgb_into(&y_data, &uv_data, 2, 2, 2, 4, &mut rgb).expect("YUV420 conversion");

    assert_eq!(rgb.len(), 2 * 2 * 3);
    for &v in &rgb {
        assert!(v < 10, "Expected near-black, got {}", v);
    }
}

#[test]
fn yuv420sp_rejects_short_planes_and_empty_images() {
    let mut rgb = vec![0; 12];
    assert_eq!(
        yuv420sp_to_rgb_into(&[0; 3], &[128; 2], 2, 2, 2, 2, &mut rgb)
            .unwrap_err()
            .kind(),
        CameraErrorKind::InvalidFormat
    );
    assert!(yuv420sp_to_rgb_into(&[0; 4], &[128; 1], 2, 2, 2, 2, &mut rgb).is_err());
    assert!(yuv420sp_to_rgb_into(&[], &[], 0, 2, 2, 2, &mut rgb).is_err());
    let mut small = vec![0; 11];
    assert!(yuv420sp_to_rgb_into(&[0; 4], &[128; 2], 2, 2, 2, 2, &mut small).is_err());
}

#[test]
fn yuv420sp_white_and_red() {
    let mut rgb = vec![0; 3];
    yuv420sp_to_rgb_into(&[255], &[128, 128], 1, 1, 1, 2, &mut rgb).unwrap();
    assert_eq!(rgb, [255, 255, 255]);
    yuv420sp_to_rgb_into(&[76], &[85, 255], 1, 1, 1, 2, &mut rgb).unwrap();
    assert_eq!(rgb, [254, 0, 0]);
}

#[test]
fn stream_config_asks_for_yuv_at_whole_rates() {
    let config = CameraConfig::new(VideoFormat::NV12, 1280, 720, 30);
    assert_eq!(
        stream_config(&config).unwrap(),
        NdkCameraConfig {
            width: 1280,
            height: 720,
            format: AIMAGE_FORMAT_YUV_420_888,
            fps: 30,
        }
    );
    let fractional = CameraConfig {
        fps: 30000,
        fps_denominator: 1001,
        ..config
    };
    assert_eq!(
        stream_config(&fractional).unwrap_err().kind(),
        CameraErrorKind::UnsupportedFormat
    );
    let empty = CameraConfig { width: 0, ..config };
    assert_eq!(
        stream_config(&empty).unwrap_err().kind(),
        CameraErrorKind::InvalidConfig
    );
}

#[test]
fn ndk_status_errors_carry_code_and_text() {
    assert!(NdkCameraStatus::Success.is_ok());
    assert!(!NdkCameraStatus::ErrorPermission.is_ok());
    assert_eq!(NdkCameraStatus::ErrorNotStreaming.code(), -7);
    assert_eq!(NdkCameraStatus::ErrorNotFound.to_error_string(), "Camera not found");
    match NdkCameraStatus::ErrorPermission.error("open".into()) {
        CameraError::Native {
            backend,
            operation,
            code,
            message,
        } => {
            assert_eq!(backend, BackendId::CAMERA2);
            assert_eq!(operation, "open");
            assert_eq!(code, -5);
            assert_eq!(message, "Permission denied");
        }
        other => panic!("unexpected {other:?}"),
    }
    assert_eq!(NdkCameraPixelFormat::Rgba8888.code(), 2);
}
