use camera::session::{
    check_driver_buffers, check_negotiated, check_start_request, recovery_step, validate_recovered_capture,
    NegotiationTarget, RecoveryAction, RecoveryEvent,
};
use camera::{
    BackendType, IdentityStability,
    Adjustment, CameraConfig, CameraErrorKind, CaptureFormat, FrameRate, SessionEvent,
    SessionState, VideoFormat,
};

#[test]
fn recovery_requires_the_original_mode_and_a_matching_frame() {
    let config = CameraConfig::new(VideoFormat::RGB, 8, 8, 30);
    assert!(validate_recovered_capture(&config, &config, 8, 8).is_ok());
    let equivalent = CameraConfig {
        fps: 60,
        fps_denominator: 2,
        ..config
    };
    assert!(validate_recovered_capture(&config, &equivalent, 8, 8).is_ok());
    for changed in [
        CameraConfig { fps: 15, ..config },
        CameraConfig { width: 16, ..config },
        CameraConfig {
            format: VideoFormat::NV12,
            ..config
        },
    ] {
        assert_eq!(
            validate_recovered_capture(&config, &changed, 8, 8)
                .unwrap_err()
                .kind(),
            CameraErrorKind::UnsupportedFormat
        );
    }
    assert_eq!(
        validate_recovered_capture(&config, &config, 8, 16)
            .unwrap_err()
            .kind(),
        CameraErrorKind::InvalidFormat
    );
}

#[test]
fn session_states_and_events() {
    assert!(SessionState::Streaming.is_streaming());
    assert!(!SessionState::Starting.is_streaming());
    assert!(SessionState::Stopped.is_terminal());
    assert!(SessionState::Failed("x".into()).is_terminal());
    assert!(!SessionState::Recovering { attempt: 1 }.is_terminal());
    assert!(SessionEvent::Lifecycle(SessionState::Stopping).is_lifecycle());
    assert!(!SessionEvent::Missed { count: 2 }.is_lifecycle());
    assert!(!SessionEvent::ConfigurationAdjusted(Adjustment::Format(VideoFormat::RGB)).is_lifecycle());
}

fn target(exact: bool) -> NegotiationTarget {
    NegotiationTarget {
        width: 1280,
        height: 720,
        fps: FrameRate::new(30, 1).unwrap(),
        format: Some(VideoFormat::NV12),
        exact,
    }
}

#[test]
fn negotiated_captures_report_changes() {
    let actual = CameraConfig::new(VideoFormat::YUYV, 640, 480, 15);
    let adj = check_negotiated(&target(false), None, &vec![], &actual, 640, 480).unwrap();
    assert_eq!(adj.resolution, Some((640, 480)));
    let (requested, selected) = adj.frame_rate.unwrap();
    assert_eq!(requested, FrameRate::new(30, 1).unwrap());
    assert_eq!(selected, FrameRate::new(15, 1).unwrap());
    assert_eq!(adj.format, Some(VideoFormat::YUYV));
    let same = CameraConfig {
        fps: 60,
        fps_denominator: 2,
        ..CameraConfig::new(VideoFormat::NV12, 1280, 720, 30)
    };
    let adj = check_negotiated(&target(true), None, &vec![], &same, 1280, 720).unwrap();
    assert_eq!(adj.resolution, None);
    assert_eq!(adj.frame_rate, None);
    assert_eq!(adj.format, None);
}

#[test]
fn negotiated_captures_enforce_the_request() {
    let actual = CameraConfig::new(VideoFormat::YUYV, 640, 480, 15);
    let kind = |r: camera::CameraResult<_>| r.unwrap_err().kind();
    assert_eq!(
        kind(check_negotiated(&target(true), None, &vec![], &actual, 640, 480)),
        CameraErrorKind::UnsupportedFormat
    );
    assert_eq!(
        kind(check_negotiated(&target(false), Some(FrameRate::new(24, 1).unwrap()), &vec![], &actual, 640, 480)),
        CameraErrorKind::UnsupportedFormat
    );
    assert_eq!(
        kind(check_negotiated(&target(false), None, &vec![CaptureFormat::Mjpeg], &actual, 640, 480)),
        CameraErrorKind::UnsupportedFormat
    );
    assert_eq!(
        kind(check_negotiated(&target(false), None, &vec![CaptureFormat::Yuyv], &actual, 640, 481)),
        CameraErrorKind::InvalidFormat
    );
    let zero = CameraConfig { fps: 0, ..actual };
    assert_eq!(
        kind(check_negotiated(&target(false), None, &vec![], &zero, 640, 480)),
        CameraErrorKind::InvalidConfig
    );
}

#[test]
fn starts_are_checked_against_the_camera() {
    let h264 = Some(VideoFormat::H264);
    assert_eq!(
        check_start_request(h264, true, false, false, IdentityStability::Native).unwrap_err().kind(),
        CameraErrorKind::UnsupportedFormat
    );
    assert!(check_start_request(h264, false, false, false, IdentityStability::Native).is_ok());
    assert_eq!(
        check_start_request(Some(VideoFormat::YUYV), true, true, false, IdentityStability::Native)
            .unwrap_err()
            .kind(),
        CameraErrorKind::UnsupportedFormat
    );
    assert!(check_start_request(Some(VideoFormat::RGB), true, true, false, IdentityStability::Native).is_ok());
    assert!(check_start_request(None, true, true, false, IdentityStability::Native).is_ok());
    assert_eq!(
        check_start_request(None, true, false, true, IdentityStability::EnumerationOnly).unwrap_err().kind(),
        CameraErrorKind::InvalidConfig
    );
    assert!(check_start_request(None, true, false, false, IdentityStability::EnumerationOnly).is_ok());
}

#[test]
fn driver_queue_depth_is_a_v4l2_setting() {
    assert!(check_driver_buffers(Some(4), Some(BackendType::V4l2)).is_ok());
    assert!(check_driver_buffers(None, Some(BackendType::Uvc)).is_ok());
    assert!(check_driver_buffers(Some(4), None).is_ok());
    assert_eq!(
        check_driver_buffers(Some(4), Some(BackendType::Uvc)).unwrap_err().kind(),
        CameraErrorKind::InvalidConfig
    );
}

#[test]
fn recovery_gives_up_after_the_allowed_attempts() {
    let limit = Some(2);
    let healthy = RecoveryEvent::Checked { stopping: false, stale: false };
    let stale = RecoveryEvent::Checked { stopping: false, stale: true };
    let locked = RecoveryEvent::Locked { stopping: false };
    let failed = RecoveryEvent::Finished { stopping: false, succeeded: false };
    assert_eq!(recovery_step(3, limit, healthy), (0, RecoveryAction::Wait));
    assert_eq!(recovery_step(0, limit, stale), (0, RecoveryAction::Lock));
    assert_eq!(recovery_step(0, limit, locked), (1, RecoveryAction::Recover { attempt: 1 }));
    assert_eq!(recovery_step(1, limit, failed), (1, RecoveryAction::Retry));
    assert_eq!(recovery_step(1, limit, locked), (2, RecoveryAction::Recover { attempt: 2 }));
    assert_eq!(recovery_step(2, limit, failed), (2, RecoveryAction::Fail));
    assert_eq!(recovery_step(2, None, failed), (2, RecoveryAction::Retry));
    assert_eq!(
        recovery_step(2, limit, RecoveryEvent::Finished { stopping: false, succeeded: true }),
        (0, RecoveryAction::Resume)
    );
    assert_eq!(
        recovery_step(1, limit, RecoveryEvent::Finished { stopping: true, succeeded: true }),
        (1, RecoveryAction::StopAndExit)
    );
    assert_eq!(recovery_step(1, limit, RecoveryEvent::Checked { stopping: true, stale: true }), (1, RecoveryAction::Exit));
    assert_eq!(recovery_step(1, limit, RecoveryEvent::Locked { stopping: true }), (1, RecoveryAction::Exit));
}
