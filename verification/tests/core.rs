use std::str::FromStr;
use camera::text::{field_range, parse_hex_u16};
use camera::color::{color_coefficients, v4l2_colorimetry, yuv_to_rgb};
use camera::controls::{auto_control, automatic_base};
use camera::{
    BackendAttempt, BackendId, CameraConfig, CameraControlType, CameraError, CameraErrorKind, ColorInfo,
    ColorMatrix, ColorRange, DeviceId, FrameRate, OperationStage, RecoveryHint, TargetOs, VideoFormat,
};

#[test]
fn frame_rates_are_kept_in_lowest_terms() {
    let rate = FrameRate::new(60, 2).unwrap();
    assert_eq!((rate.numerator(), rate.denominator()), (30, 1));
    let ntsc = FrameRate::new(60000, 2002).unwrap();
    assert_eq!((ntsc.numerator(), ntsc.denominator()), (30000, 1001));
    assert!(FrameRate::new(0, 1).is_err());
    assert!(FrameRate::new(1, 0).is_err());
    assert!(ntsc.slower_than(&FrameRate::new(30, 1).unwrap()));
    assert!(rate.same_rate(&FrameRate::new(90, 3).unwrap()));
}

#[test]
fn configurations_validate_and_expose_their_rate() {
    let config = CameraConfig::new(VideoFormat::NV12, 640, 480, 30);
    assert!(config.validate().is_ok());
    assert_eq!(config.frame_rate().unwrap(), FrameRate::new(30, 1).unwrap());
    assert!(CameraConfig { height: 0, ..config }.validate().is_err());
    let fractional = config.with_frame_rate(FrameRate::new(30000, 1001).unwrap());
    assert_eq!((fractional.fps, fractional.fps_denominator), (30000, 1001));
    assert_eq!(CameraConfig::default_yuyv(), CameraConfig::new(VideoFormat::YUYV, 640, 480, 30));
}

#[test]
fn errors_carry_kind_hint_and_backend() {
    let e = CameraError::PermissionDenied("camera".into());
    assert_eq!(e.kind(), CameraErrorKind::PermissionDenied);
    assert_eq!(e.recovery_hint(), RecoveryHint::RequestPermission);
    assert!(!e.is_retryable());
    assert!(CameraError::StreamStopped.is_retryable());
    let e = CameraError::UnsupportedTarget {
        backend: BackendId::V4L2,
        target: TargetOs::Windows,
    };
    assert_eq!(e.backend(), Some(BackendId::V4L2));
    assert_eq!(e.recovery_hint(), RecoveryHint::EnableBackend);
    assert_eq!(
        CameraError::BackendNotCompiled {
            backend: BackendId::UVC
        }
        .to_message(),
        "UVC backend is not available on this platform"
    );
    assert_eq!(CameraError::InvalidFormat("x".into()).recovery_hint(), RecoveryHint::DropFrame);
}

#[test]
fn backend_ids_have_stable_names_in_order() {
    assert_eq!(BackendId::V4L2.as_str(), "v4l2");
    assert_eq!(BackendId::MEDIA_FOUNDATION.display_name(), "Media Foundation");
    for rank in 0..7 {
        assert_eq!(BackendId::at_rank(rank).rank(), rank);
    }
    assert!(BackendId::AV_FOUNDATION < BackendId::UVC);
}

#[test]
fn automatic_controls_pair_with_their_manual_control() {
    assert_eq!(auto_control(CameraControlType::Exposure), Some(CameraControlType::AutoExposure));
    assert_eq!(automatic_base(CameraControlType::AutoFocus), Some(CameraControlType::Focus));
    assert_eq!(auto_control(CameraControlType::Zoom), None);
    for control in [
        CameraControlType::Exposure,
        CameraControlType::Focus,
        CameraControlType::WhiteBalance,
    ] {
        assert_eq!(automatic_base(auto_control(control).unwrap()), Some(control));
    }
}

#[test]
fn colorimetry_factors_follow_the_standards() {
    let c = color_coefficients(ColorInfo {
        matrix: ColorMatrix::Bt709,
        range: ColorRange::Limited,
    });
    assert_eq!((c.y_scale, c.y_offset, c.r_v), (298, 16, 459));
    assert_eq!(yuv_to_rgb(&c, 16, 128, 128), (0, 0, 0));
    assert_eq!(yuv_to_rgb(&c, 235, 128, 128), (255, 255, 255));
    assert!(v4l2_colorimetry(7, true).is_err());
    assert_eq!(v4l2_colorimetry(1, true).unwrap(), color_coefficients(ColorInfo { matrix: ColorMatrix::Bt601, range: ColorRange::Full }));
}

#[test]
fn fields_split_at_every_separator() {
    let s: Vec<char> = "ab::c".chars().collect();
    assert_eq!(field_range(&s, ':', 0), Some((0, 2)));
    assert_eq!(field_range(&s, ':', 1), Some((3, 3)));
    assert_eq!(field_range(&s, ':', 2), Some((4, 5)));
    assert_eq!(field_range(&s, ':', 3), None);
    assert_eq!(field_range(&[], ':', 0), Some((0, 0)));
}

#[test]
fn hex_parsing_follows_from_str_radix() {
    for text in ["0", "ffff", "FfFf", "+1a", "046d", "00000001", "-1", "+", "", "10000", "g", "1 "] {
        let chars: Vec<char> = text.chars().collect();
        assert_eq!(parse_hex_u16(&chars, 0, chars.len()), u16::from_str_radix(text, 16).ok(), "{text}");
    }
}

#[test]
fn error_codes_are_stable_snake_case_and_parse_back() {
    let kinds = [
        camera::CameraErrorKind::InvalidFormat,
        camera::CameraErrorKind::PermissionDenied,
        camera::CameraErrorKind::PermissionManagedExternally,
        camera::CameraErrorKind::Internal,
    ];
    for kind in kinds {
        assert_eq!(camera::CameraErrorKind::from_code(kind.as_str()), Some(kind));
        assert_eq!(camera::CameraErrorKind::from_str(kind.as_str()).unwrap(), kind);
    }
    assert_eq!(camera::CameraErrorKind::PermissionDenied.as_str(), "permission_denied");
    assert_eq!(camera::RecoveryHint::Retry.as_str(), "retry");
    assert_eq!(camera::RecoveryHint::NoAction.as_str(), "none");
    assert_eq!(camera::RecoveryHint::from_code("reenumerate_device"), Some(camera::RecoveryHint::ReenumerateDevice));
    assert_eq!(camera::RecoveryHint::from_code("Retry"), None);
    assert!(camera::CameraErrorKind::from_str("permission-denied").is_err());
}

#[test]
fn busy_and_permission_errors_have_codes_and_advice() {
    let busy = CameraError::DeviceBusy("camera is in use".to_string());
    assert_eq!(busy.kind(), CameraErrorKind::DeviceBusy);
    assert_eq!(busy.kind().as_str(), "device_busy");
    assert!(busy.is_retryable());
    let required = CameraError::PermissionRequired("ask first".to_string());
    assert_eq!(required.recovery_hint(), RecoveryHint::RequestPermission);
    assert_eq!(CameraErrorKind::from_code("permission_required"), Some(CameraErrorKind::PermissionRequired));
    assert_eq!(CameraErrorKind::from_code("backend_attempts_failed"), Some(CameraErrorKind::BackendAttemptsFailed));
    let none = CameraError::BackendAttemptsFailed(Vec::new());
    assert_eq!(none.recovery_hint(), RecoveryHint::NoAction);
    assert!(busy.backend_attempts().is_empty());
}

#[test]
fn core_error_metadata_survives_the_android_adapter() {
    let error = CameraError::PermissionDenied("USB permission denied".into())
        .with_backend(BackendId::UVC)
        .with_stage(OperationStage::Open);
    assert_eq!(error.kind(), CameraErrorKind::PermissionDenied);
    assert_eq!(error.recovery_hint(), RecoveryHint::RequestPermission);
    assert_eq!(error.backend(), Some(BackendId::UVC));
    assert_eq!(error.stage(), Some(OperationStage::Open));
    assert_eq!(error.code(), "permission_denied");
    assert!(!error.is_retryable());
}

#[test]
fn jni_boundary_payload_is_machine_readable() {
    let error = CameraError::DeviceBusy("camera is in use".into()).with_backend(BackendId::CAMERA2);
    assert_eq!(error.code(), "device_busy");
    assert_eq!(error.backend().map(|b| b.as_str()), Some("camera2"));
    assert_eq!(error.recovery_hint().as_str(), "retry");
    assert!(error.to_message().contains("camera is in use"));
}

#[test]
fn errors_carry_their_context() {
    let native = CameraError::Native {
        backend: BackendId::MEDIA_FOUNDATION,
        operation: "ReadSample".into(),
        code: -5,
        message: "read failed".into(),
    };
    assert_eq!(native.operation(), Some("ReadSample"));
    assert_eq!(native.native_code(), Some(-5));
    assert_eq!(native.stage(), None);
    let device = DeviceId { backend: BackendId::UVC, native: "1:2:3".into() };
    let located = native
        .with_stage(OperationStage::Worker)
        .with_backend(BackendId::UVC)
        .with_device(device.clone())
        .with_operation("Open".into())
        .with_native_code(7);
    assert_eq!(located.kind(), CameraErrorKind::BackendFailure);
    assert_eq!(located.code(), "backend_failure");
    assert_eq!(located.backend(), Some(BackendId::UVC));
    assert_eq!(located.device(), Some(&device));
    assert_eq!(located.stage(), Some(OperationStage::Worker));
    assert_eq!(located.operation(), Some("Open"));
    assert_eq!(located.native_code(), Some(7));
    assert_eq!(located.to_message(), "read failed");
    let plain = CameraError::InvalidState("idle".into());
    assert_eq!(plain.backend(), None);
    assert_eq!(plain.device(), None);
    assert_eq!(plain.clone().with_stage(OperationStage::Close).backend(), None);
}

#[test]
fn timeouts_are_retryable_and_staged() {
    let error = CameraError::timeout(OperationStage::Startup);
    assert_eq!(error.kind(), CameraErrorKind::Timeout);
    assert_eq!(error.code(), "timeout");
    assert!(error.is_retryable());
    assert_eq!(error.stage(), Some(OperationStage::Startup));
    assert_eq!(CameraErrorKind::from_str("timeout").unwrap(), CameraErrorKind::Timeout);
}

#[test]
fn operation_stages_parse_their_codes() {
    for stage in [
        OperationStage::Enumeration,
        OperationStage::Open,
        OperationStage::Startup,
        OperationStage::FirstFrame,
        OperationStage::BackendCommand,
        OperationStage::Worker,
        OperationStage::Close,
    ] {
        assert_eq!(OperationStage::from_str(stage.as_str()).unwrap(), stage);
    }
    assert_eq!(OperationStage::FirstFrame.as_str(), "first_frame");
    assert!(OperationStage::from_str("first frame").is_err());
}

#[test]
fn aggregate_failures_list_their_causes() {
    let error = CameraError::BackendAttemptsFailed(vec![
        BackendAttempt { backend: BackendId::V4L2, kind: CameraErrorKind::DeviceBusy, message: "busy".into() },
        BackendAttempt { backend: BackendId::UVC, kind: CameraErrorKind::Timeout, message: "slow".into() },
    ])
    .with_stage(OperationStage::Startup);
    assert_eq!(error.causes(), vec![CameraErrorKind::DeviceBusy, CameraErrorKind::Timeout]);
    assert_eq!(error.backend_attempts().len(), 2);
    assert_eq!(error.recovery_hint(), RecoveryHint::Retry);
    assert!(CameraError::StreamStopped.causes().is_empty());
}
