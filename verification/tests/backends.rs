use camera::backends::{available_backends, backend_type, resolve_backend, select_factory_backend};
use camera::{BackendId, BackendType, CameraError, CameraErrorKind, Features, Platform, TargetOs};

fn platform(os: TargetOs, features: Features) -> Platform {
    Platform { os, features }
}

fn uvc_only() -> Features {
    Features {
        backend_uvc: true,
        ..Features::none()
    }
}

fn native() -> Features {
    Features {
        native: true,
        ..Features::none()
    }
}

fn all_targets() -> Vec<Platform> {
    let mut out = Vec::new();
    for os in [
        TargetOs::Linux,
        TargetOs::Android,
        TargetOs::MacOs,
        TargetOs::Ios,
        TargetOs::Windows,
        TargetOs::Other,
    ] {
        out.push(platform(os, Features::none()));
        out.push(platform(os, uvc_only()));
        out.push(platform(os, native()));
        out.push(platform(
            os,
            Features {
                backend_v4l2: true,
                ..uvc_only()
            },
        ));
    }
    out
}

#[test]
fn test_backend_type_default() {
    for p in all_targets() {
        let default = BackendType::default_for_platform(&p);
        assert_ne!(default, BackendType::Auto);
        if default.is_available(&p) {
            assert!(available_backends(&p).contains(&default));
        }
    }
}

#[test]
fn test_available_backends() {
    for os in [TargetOs::Linux, TargetOs::MacOs, TargetOs::Android] {
        assert!(!available_backends(&platform(os, uvc_only())).is_empty());
    }
    for os in [
        TargetOs::Linux,
        TargetOs::Android,
        TargetOs::MacOs,
        TargetOs::Ios,
        TargetOs::Windows,
        TargetOs::Other,
    ] {
        assert!(available_backends(&Platform::without_backends(os)).is_empty());
    }
}

#[test]
fn test_backend_display() {
    assert_eq!(BackendType::Uvc.display_name(), "UVC (libuvc)");
    assert_eq!(BackendType::Auto.to_string(), "Auto");
}

#[test]
fn get_supported_configs_reports_missing_apple_default_backend() {
    for os in [TargetOs::MacOs, TargetOs::Ios] {
        let p = platform(os, uvc_only());
        assert!(select_factory_backend(&p, BackendType::AVFoundation).is_err());
    }
}

#[test]
fn get_supported_configs_reports_missing_android_default_backend() {
    let p = platform(TargetOs::Android, uvc_only());
    let err = select_factory_backend(&p, BackendType::Auto)
        .expect_err("missing default backend feature should be reported");
    assert!(err
        .to_message()
        .contains("Camera2 backend is not available on this platform"));
}

#[test]
fn get_supported_configs_reports_missing_windows_default_backend() {
    let p = Platform::without_backends(TargetOs::Windows);
    let err = select_factory_backend(&p, BackendType::Auto)
        .expect_err("missing default backend feature should be reported");
    assert!(err
        .to_message()
        .contains("Media Foundation backend is not available on this platform"));
}

#[test]
fn device_test_list_devices() {
    let linux = platform(TargetOs::Linux, Features { backend_v4l2: true, ..native() });
    assert_eq!(select_factory_backend(&linux, BackendType::MediaFoundation).unwrap(), BackendType::V4l2);
    let bare_linux = platform(TargetOs::Linux, native());
    assert!(select_factory_backend(&bare_linux, BackendType::MediaFoundation).is_err());
    let windows = platform(TargetOs::Windows, native());
    assert_eq!(
        select_factory_backend(&windows, BackendType::Auto).unwrap(),
        BackendType::MediaFoundation
    );
}

#[test]
fn no_backend_build_returns_clear_factory_errors() {
    for p in all_targets()
        .into_iter()
        .filter(|p| available_backends(p).is_empty())
    {
        let error = select_factory_backend(&p, BackendType::Auto).unwrap_err();
        assert!(matches!(
            error.kind(),
            CameraErrorKind::BackendNotCompiled | CameraErrorKind::UnsupportedTarget
        ));
    }
}

#[test]
fn defaults_follow_the_platform() {
    let expect = [
        (TargetOs::Android, BackendType::Camera2),
        (TargetOs::MacOs, BackendType::AVFoundation),
        (TargetOs::Ios, BackendType::AVFoundation),
        (TargetOs::Windows, BackendType::MediaFoundation),
        (TargetOs::Other, BackendType::Uvc),
    ];
    for (os, backend) in expect {
        assert_eq!(
            BackendType::default_for_platform(&Platform::without_backends(os)),
            backend
        );
    }
    let linux_v4l2 = platform(
        TargetOs::Linux,
        Features {
            backend_v4l2: true,
            ..Features::none()
        },
    );
    assert_eq!(
        BackendType::default_for_platform(&linux_v4l2),
        BackendType::V4l2
    );
    assert_eq!(
        BackendType::default_for_platform(&Platform::without_backends(TargetOs::Linux)),
        BackendType::Uvc
    );
}

#[test]
fn available_backends_are_listed_in_fixed_order() {
    let p = platform(
        TargetOs::Linux,
        Features {
            backend_v4l2: true,
            ..uvc_only()
        },
    );
    assert_eq!(
        available_backends(&p),
        vec![BackendType::Uvc, BackendType::V4l2]
    );
}

#[test]
fn resolving_reports_the_missing_piece() {
    let p = platform(TargetOs::Linux, uvc_only());
    assert_eq!(resolve_backend(&p, BackendType::Uvc).unwrap(), BackendType::Uvc);
    match resolve_backend(&p, BackendType::Camera2) {
        Err(CameraError::BackendNotCompiled { backend }) => assert_eq!(backend, BackendId::CAMERA2),
        other => panic!("unexpected {other:?}"),
    }
    let mac = platform(
        TargetOs::MacOs,
        Features {
            backend_v4l2: true,
            ..Features::none()
        },
    );
    match resolve_backend(&mac, BackendType::V4l2) {
        Err(CameraError::UnsupportedTarget { backend, target }) => {
            assert_eq!(backend, BackendId::V4L2);
            assert_eq!(target, TargetOs::MacOs);
        }
        other => panic!("unexpected {other:?}"),
    }
    assert_eq!(backend_type(&BackendId::SYNTHETIC), None);
    assert_eq!(backend_type(&BackendId::UVC), Some(BackendType::Uvc));
}

#[test]
fn unavailable_backends_fall_back_to_the_platform_default() {
    let mac = platform(TargetOs::MacOs, native());
    assert_eq!(select_factory_backend(&mac, BackendType::Camera2).unwrap(), BackendType::AVFoundation);
    assert_eq!(select_factory_backend(&mac, BackendType::AVFoundation).unwrap(), BackendType::AVFoundation);
    let bare = Platform::without_backends(TargetOs::MacOs);
    let err = select_factory_backend(&bare, BackendType::Camera2).unwrap_err();
    assert_eq!(err.backend(), Some(BackendId::Camera2));
}
