use camera::api::{
    merge_device_results, plan_capture, select_device, start_options, synthetic_configuration,
    unidentified_start_configuration, next_candidate_step, next_start_attempt, AvFoundationOptions, CandidateStep,
    CapabilityQuery, StartDecision,
    DeviceSelector, EnumerationStep,
};
use camera::backends::BackendType;
use camera::blocking;
use camera::device::{device_info, device_info_synthetic};
use camera::{
    BackendAvailability, BackendId, BackendOptions, BackendPolicy, Camera2Options, CameraConfig,
    CameraDeviceInfo, CameraError, CameraErrorKind, CameraFacing, CameraSystem, CaptureFormat,
    CaptureProfile, CaptureRequest, DeviceId, Features, FrameRate, NegotiationPriority, Platform,
    TargetOs, V4l2Options, VideoFormat,
};

fn linux() -> Platform {
    Platform {
        os: TargetOs::Linux,
        features: Features {
            backend_uvc: true,
            backend_v4l2: true,
            ..Features::none()
        },
    }
}

#[test]
fn builder_validates_options_and_policy() {
    let ok = CameraSystem::builder(linux())
        .backend_policy(BackendPolicy::Require(BackendId::V4L2))
        .backend_options(BackendOptions::V4l2(V4l2Options::default().mmap_buffers(4)))
        .build()
        .unwrap();
    assert_eq!(ok.backend_policy(), &BackendPolicy::Require(BackendId::V4L2));
    assert_eq!(ok.options().len(), 1);
    let mismatch = CameraSystem::builder(linux())
        .backend_policy(BackendPolicy::Require(BackendId::UVC))
        .backend_options(BackendOptions::Camera2(Camera2Options::default()))
        .build()
        .unwrap_err();
    match mismatch {
        CameraError::BackendOptionMismatch {
            option_backend,
            selected_backend,
        } => {
            assert_eq!(option_backend, BackendId::CAMERA2);
            assert_eq!(selected_backend, BackendId::UVC);
        }
        other => panic!("unexpected {other:?}"),
    }
    let empty = CameraSystem::builder(linux())
        .backend_policy(BackendPolicy::Prefer(vec![]))
        .build()
        .unwrap_err();
    assert_eq!(empty.kind(), CameraErrorKind::InvalidConfig);
    let zero = CameraSystem::builder(linux())
        .backend_options(BackendOptions::V4l2(V4l2Options::default().mmap_buffers(0)))
        .build()
        .unwrap_err();
    assert_eq!(zero.kind(), CameraErrorKind::InvalidConfig);
}

#[test]
fn available_backends_are_sorted_and_unique() {
    let system = CameraSystem::new(linux());
    assert_eq!(system.available_backends(), vec![BackendId::UVC, BackendId::V4L2]);
    let synthetic = CameraSystem::synthetic(linux());
    assert_eq!(
        synthetic.available_backends(),
        vec![BackendId::SYNTHETIC, BackendId::UVC, BackendId::V4L2]
    );
    assert!(CameraSystem::new(Platform::without_backends(TargetOs::Windows))
        .available_backends()
        .is_empty());
}

#[test]
fn availability_distinguishes_missing_and_unsupported() {
    let system = CameraSystem::new(linux());
    assert_eq!(system.backend_availability(&BackendId::V4L2), BackendAvailability::Available);
    assert_eq!(system.backend_availability(&BackendId::CAMERA2), BackendAvailability::NotCompiled);
    assert_eq!(system.backend_availability(&BackendId::SYNTHETIC), BackendAvailability::NotCompiled);
    let mac = Platform {
        os: TargetOs::MacOs,
        features: Features {
            backend_v4l2: true,
            ..Features::none()
        },
    };
    assert_eq!(
        CameraSystem::new(mac).backend_availability(&BackendId::V4L2),
        BackendAvailability::UnsupportedTarget
    );
    assert_eq!(
        CameraSystem::synthetic(mac).backend_availability(&BackendId::SYNTHETIC),
        BackendAvailability::Available
    );
}

#[test]
fn policies_enumerate_their_backends() {
    assert_eq!(CameraSystem::new(linux()).policy_backends(), vec![BackendId::V4L2]);
    let prefer = CameraSystem::builder(linux())
        .backend_policy(BackendPolicy::Prefer(vec![BackendId::UVC, BackendId::V4L2]))
        .build()
        .unwrap();
    assert_eq!(prefer.policy_backends(), vec![BackendId::UVC, BackendId::V4L2]);
    let narrowed = prefer.requiring(BackendId::UVC);
    assert_eq!(narrowed.backend_policy(), &BackendPolicy::Require(BackendId::UVC));
    let with_options = CameraSystem::builder(linux())
        .backend_options(BackendOptions::V4l2(V4l2Options::default()))
        .backend_options(BackendOptions::Camera2(Camera2Options::default()))
        .build()
        .unwrap();
    assert_eq!(with_options.requiring(BackendId::V4L2).options().len(), 1);
}

#[test]
fn enumeration_steps_follow_the_backend() {
    let system = CameraSystem::synthetic(linux());
    assert!(matches!(system.enumeration_step(&BackendId::SYNTHETIC), EnumerationStep::Synthetic));
    assert!(matches!(
        system.enumeration_step(&BackendId::V4L2),
        EnumerationStep::List(BackendType::V4l2)
    ));
    assert!(matches!(
        system.enumeration_step(&BackendId::CAMERA2),
        EnumerationStep::Fail(CameraError::BackendNotCompiled { .. })
    ));
    let plain = CameraSystem::new(linux());
    assert!(matches!(
        plain.enumeration_step(&BackendId::SYNTHETIC),
        EnumerationStep::Fail(CameraError::BackendNotCompiled { .. })
    ));
}

#[test]
fn devices_merge_listings_and_report_the_first_error() {
    let prefer = CameraSystem::builder(linux())
        .backend_policy(BackendPolicy::Prefer(vec![BackendId::CAMERA2, BackendId::UVC]))
        .build()
        .unwrap();
    let listing = vec![CameraDeviceInfo::new(0, "USB cam".into(), "".into())];
    let devices = prefer
        .devices_blocking(vec![Ok(vec![]), Ok(listing)])
        .unwrap();
    assert_eq!(devices.len(), 1);
    assert_eq!(devices[0].id.backend, BackendId::UVC);
    let failed = prefer.devices_blocking(vec![]).unwrap_err_or_empty();
    assert!(failed);
    let err = prefer
        .devices_blocking(vec![Ok(vec![]), Err(CameraError::StreamStopped)])
        .unwrap_err();
    assert_eq!(err.kind(), CameraErrorKind::BackendNotCompiled);
    let synthetic = CameraSystem::synthetic(linux());
    let devices = synthetic.devices_blocking(vec![]).unwrap();
    assert_eq!(devices.len(), 1);
    assert_eq!(devices[0].id.native, "test-pattern");
}

trait EmptyOrError {
    fn unwrap_err_or_empty(self) -> bool;
}

impl EmptyOrError for camera::CameraResult<Vec<camera::DeviceInfo>> {
    fn unwrap_err_or_empty(self) -> bool {
        match self {
            Ok(devices) => devices.is_empty(),
            Err(_) => true,
        }
    }
}

#[test]
fn merging_keeps_devices_over_errors() {
    let merged = merge_device_results(vec![
        Err(CameraError::StreamStopped),
        Ok(vec![device_info_synthetic()]),
    ])
    .unwrap();
    assert_eq!(merged.len(), 1);
    let err = merge_device_results(vec![
        Ok(vec![]),
        Err(CameraError::Disconnected("a".into())),
        Err(CameraError::StreamStopped),
    ])
    .unwrap_err();
    assert_eq!(err.kind(), CameraErrorKind::Disconnected);
    assert!(merge_device_results(vec![]).unwrap().is_empty());
}

fn devices() -> Vec<camera::DeviceInfo> {
    let mut front = CameraDeviceInfo::new(0, "Front camera".into(), "".into());
    front.device_path = Some("p0".into());
    let mut usb = CameraDeviceInfo::new(1, "USB camera".into(), "".into());
    usb.vendor_id = Some(1);
    usb.product_id = Some(2);
    usb.serial_number = Some("S1".into());
    let mut usb2 = CameraDeviceInfo::new(2, "USB camera".into(), "".into());
    usb2.vendor_id = Some(1);
    usb2.product_id = Some(2);
    usb2.serial_number = Some("S2".into());
    vec![
        device_info(BackendType::Uvc, front),
        device_info(BackendType::Uvc, usb),
        device_info(BackendType::Uvc, usb2),
    ]
}

#[test]
fn selectors_pick_one_device_or_report_ambiguity() {
    assert_eq!(select_device(devices(), &DeviceSelector::Default).unwrap().index, 0);
    assert_eq!(
        select_device(devices(), &DeviceSelector::Facing(CameraFacing::Front)).unwrap().index,
        0
    );
    assert_eq!(
        select_device(
            devices(),
            &DeviceSelector::Usb {
                vendor_id: 1,
                product_id: 2,
                serial_number: Some("S2".into())
            }
        )
        .unwrap()
        .index,
        2
    );
    assert_eq!(
        select_device(
            devices(),
            &DeviceSelector::Usb {
                vendor_id: 1,
                product_id: 2,
                serial_number: None
            }
        )
        .unwrap_err()
        .kind(),
        CameraErrorKind::AmbiguousDevice
    );
    assert_eq!(
        select_device(devices(), &DeviceSelector::Name("USB".into()))
            .unwrap_err()
            .kind(),
        CameraErrorKind::AmbiguousDevice
    );
    assert_eq!(
        select_device(devices(), &DeviceSelector::Name("Front".into())).unwrap().index,
        0
    );
    let id = DeviceId {
        backend: BackendId::UVC,
        native: "p0".into(),
    };
    assert_eq!(select_device(devices(), &DeviceSelector::Id(id)).unwrap().index, 0);
    assert_eq!(
        select_device(vec![], &DeviceSelector::Default).unwrap_err().kind(),
        CameraErrorKind::DeviceNotFound
    );
}

#[test]
fn capabilities_come_from_the_device_or_the_synthetic_mode() {
    let system = CameraSystem::new(linux());
    let id = DeviceId {
        backend: BackendId::UVC,
        native: "p0".into(),
    };
    match system.capabilities_blocking(&id, &devices()).unwrap() {
        CapabilityQuery::Native { backend, index } => {
            assert_eq!(backend, BackendType::Uvc);
            assert_eq!(index, 0);
        }
        other => panic!("unexpected {other:?}"),
    }
    let missing = DeviceId {
        backend: BackendId::UVC,
        native: "nope".into(),
    };
    assert_eq!(
        system.capabilities_blocking(&missing, &devices()).unwrap_err().kind(),
        CameraErrorKind::DeviceNotFound
    );
    let mut twice = devices();
    twice.push(devices().remove(0));
    assert_eq!(
        system.capabilities_blocking(&id, &twice).unwrap_err().kind(),
        CameraErrorKind::AmbiguousDevice
    );
    let synthetic = device_info_synthetic();
    match system.capabilities_blocking(&synthetic.id, &vec![synthetic.clone()]).unwrap() {
        CapabilityQuery::Known(c) => assert_eq!(
            c.configurations,
            vec![CameraConfig::new(VideoFormat::RGB, 640, 480, 30)]
        ),
        other => panic!("unexpected {other:?}"),
    }
}

#[test]
fn capture_builders_apply_profiles() {
    let system = CameraSystem::new(linux());
    let builder = system
        .capture(DeviceSelector::Default)
        .profile(CaptureProfile::NativeRelay)
        .resolution(800, 600)
        .frame_rate(FrameRate::new(15, 1).unwrap());
    let request = builder.capture_request();
    assert_eq!((request.width, request.height), (800, 600));
    assert_eq!(request.priority, NegotiationPriority::LowBandwidth);
    assert_eq!(request.preferred_formats, vec![CaptureFormat::Mjpeg, CaptureFormat::H264]);
    assert_eq!(request.preferred_fps, FrameRate::new(15, 1).unwrap());
    let recording = system.capture(DeviceSelector::Default).profile(CaptureProfile::Recording);
    assert_eq!(recording.capture_request().width, 1920);
    assert_eq!(recording.capture_request().priority, NegotiationPriority::Fidelity);
    let replaced = recording.request(CaptureRequest::builder().build().unwrap());
    assert_eq!(replaced.capture_request().width, 640);
}

#[test]
fn plans_rank_the_offered_modes() {
    let request = CaptureRequest::builder()
        .preferred_resolution(1280, 720)
        .build()
        .unwrap();
    let plan = plan_capture(
        &request,
        vec![
            CameraConfig::new(VideoFormat::MJPEG, 1280, 720, 30),
            CameraConfig::new(VideoFormat::YUYV, 640, 480, 30),
            CameraConfig::new(VideoFormat::YUYV, 1280, 720, 30),
        ],
    )
    .unwrap();
    assert_eq!(plan.selected, CameraConfig::new(VideoFormat::YUYV, 1280, 720, 30));
    assert_eq!(plan.alternatives.len(), 2);
    assert_eq!(
        synthetic_configuration(&request),
        CameraConfig::new(VideoFormat::RGB, 1280, 720, 30)
    );
    let facade = blocking::CameraSystem::synthetic(linux());
    let synthetic = device_info_synthetic();
    let plan = facade.plan(&synthetic, &request, vec![]).unwrap();
    assert_eq!(plan.selected.format, VideoFormat::RGB);
    assert!(plan_capture(&request, vec![]).is_err());
}

#[test]
fn blocking_facade_wraps_the_system() {
    let system = blocking::CameraSystem::with_policy(linux(), BackendPolicy::Require(BackendId::UVC)).unwrap();
    assert_eq!(system.system().backend_policy(), &BackendPolicy::Require(BackendId::UVC));
    assert!(blocking::CameraSystem::with_policy(linux(), BackendPolicy::Prefer(vec![])).is_err());
    let synthetic = blocking::CameraSystem::synthetic(linux());
    assert_eq!(synthetic.devices(vec![]).unwrap().len(), 1);
    let wrapped = blocking::CameraSystem::from_async(CameraSystem::new(linux()));
    assert_eq!(wrapped.system().policy_backends(), vec![BackendId::V4L2]);
    assert_eq!(blocking::CameraSystem::new(linux()).system().policy_backends(), vec![BackendId::V4L2]);
}

#[test]
fn start_options_apply_in_order_and_reject_other_backends() {
    let options = vec![
        BackendOptions::V4l2(V4l2Options::default().mmap_buffers(4)),
        BackendOptions::V4l2(V4l2Options::default().mmap_buffers(6)),
    ];
    let applied = start_options(&options, BackendId::V4l2).unwrap();
    assert_eq!(applied.driver_buffers, Some(6));
    assert_eq!(applied.camera2, None);
    let camera2 = vec![BackendOptions::Camera2(Camera2Options { max_images: Some(3) })];
    assert_eq!(
        start_options(&camera2, BackendId::Camera2).unwrap().camera2,
        Some(Camera2Options { max_images: Some(3) })
    );
    let mixed = vec![
        BackendOptions::AvFoundation(AvFoundationOptions { drop_late_frames: true }),
        BackendOptions::V4l2(V4l2Options::default()),
    ];
    match start_options(&mixed, BackendId::AvFoundation) {
        Err(CameraError::BackendOptionMismatch { option_backend, selected_backend }) => {
            assert_eq!(option_backend, BackendId::V4l2);
            assert_eq!(selected_backend, BackendId::AvFoundation);
        }
        other => panic!("unexpected {other:?}"),
    }
    assert_eq!(start_options(&Vec::new(), BackendId::Uvc).unwrap().driver_buffers, None);
}

#[test]
fn unidentified_cameras_start_in_the_first_preferred_format() {
    let request = CaptureRequest::builder()
        .preferred_formats(vec![CaptureFormat::Yuyv, CaptureFormat::Mjpeg])
        .build()
        .unwrap();
    let config = unidentified_start_configuration(&request);
    assert_eq!(config.format, VideoFormat::YUYV);
    assert_eq!((config.width, config.height), (request.width, request.height));
    let plain = CaptureRequest::builder().build().unwrap();
    assert_eq!(unidentified_start_configuration(&plain).format, VideoFormat::MJPEG);
}

#[test]
fn starts_try_each_backend_and_keep_every_failure() {
    let mut attempts = Vec::new();
    let busy = CameraError::DeviceBusy("in use".to_string());
    assert!(matches!(
        next_start_attempt(&mut attempts, BackendId::Uvc, Err(busy), false),
        StartDecision::Continue
    ));
    assert_eq!(attempts.len(), 1);
    assert_eq!(attempts[0].backend, BackendId::Uvc);
    assert_eq!(attempts[0].kind, CameraErrorKind::DeviceBusy);
    assert!(matches!(next_start_attempt(&mut attempts, BackendId::V4l2, Ok(()), false), StartDecision::Done));
    assert_eq!(attempts.len(), 1);
    let denied = CameraError::PermissionDenied("no".to_string());
    match next_start_attempt(&mut attempts, BackendId::V4l2, Err(denied), false) {
        StartDecision::Abort(e) => assert_eq!(e.kind(), CameraErrorKind::PermissionDenied),
        other => panic!("unexpected {other:?}"),
    }
    assert_eq!(attempts.len(), 1);
    let missing = CameraError::DeviceNotFound("none".to_string());
    match next_start_attempt(&mut attempts, BackendId::V4l2, Err(missing), true) {
        StartDecision::Fail(e) => {
            assert_eq!(e.kind(), CameraErrorKind::BackendAttemptsFailed);
            let all = e.backend_attempts();
            assert_eq!(all.len(), 2);
            assert_eq!(all[1].backend, BackendId::V4l2);
            assert_eq!(all[1].kind, CameraErrorKind::DeviceNotFound);
            assert_eq!(e.recovery_hint(), camera::RecoveryHint::Retry);
            assert!(e.is_retryable());
        }
        other => panic!("unexpected {other:?}"),
    }
    assert!(attempts.is_empty());
}

#[test]
fn build_and_with_policy_return_the_first_refusal() {
    let zero = BackendOptions::V4l2(V4l2Options::default().mmap_buffers(0));
    let from_builder = CameraSystem::builder(linux())
        .backend_policy(BackendPolicy::Require(BackendId::UVC))
        .backend_options(zero)
        .build()
        .unwrap_err();
    let from_options = zero.validate().unwrap_err();
    assert_eq!(from_builder.kind(), CameraErrorKind::InvalidConfig);
    assert_eq!(from_builder.to_message(), from_options.to_message());
    assert_eq!(from_builder.to_message(), "V4L2 needs at least one driver buffer");
    let facade = blocking::CameraSystem::with_policy(linux(), BackendPolicy::Prefer(vec![])).unwrap_err();
    let built = CameraSystem::builder(linux())
        .backend_policy(BackendPolicy::Prefer(vec![]))
        .build()
        .unwrap_err();
    assert_eq!(facade.kind(), CameraErrorKind::InvalidConfig);
    assert_eq!(facade.to_message(), built.to_message());
    assert!(blocking::CameraSystem::with_policy(linux(), BackendPolicy::Prefer(vec![BackendId::UVC])).is_ok());
}

#[test]
fn missing_and_ambiguous_devices_name_the_identifier() {
    let system = CameraSystem::new(linux());
    let missing = DeviceId { backend: BackendId::UVC, native: "nope".into() };
    let error = system.capabilities_blocking(&missing, &devices()).unwrap_err();
    assert_eq!(error.kind(), CameraErrorKind::DeviceNotFound);
    assert_eq!(error.device(), Some(&missing));
    let id = DeviceId { backend: BackendId::UVC, native: "p0".into() };
    let mut twice = devices();
    twice.push(devices().remove(0));
    let error = system.capabilities_blocking(&id, &twice).unwrap_err();
    assert_eq!(error.kind(), CameraErrorKind::AmbiguousDevice);
    assert_eq!(error.device(), Some(&id));
}

#[test]
fn candidate_configurations_are_tried_in_order() {
    assert!(matches!(next_candidate_step(2, 0, false, None), CandidateStep::Attempt(0)));
    let busy = CameraError::DeviceBusy("busy".to_string());
    assert!(matches!(next_candidate_step(2, 1, false, Some(Err(busy.clone()))), CandidateStep::Attempt(1)));
    match next_candidate_step(2, 2, false, Some(Err(busy))) {
        CandidateStep::Fail(e) => assert_eq!(e.kind(), CameraErrorKind::DeviceBusy),
        other => panic!("unexpected {other:?}"),
    }
    assert!(matches!(next_candidate_step(2, 2, false, Some(Ok(()))), CandidateStep::Started(1)));
    match next_candidate_step(0, 0, false, None) {
        CandidateStep::Fail(e) => {
            assert_eq!(e.kind(), CameraErrorKind::UnsupportedFormat);
            assert_eq!(e.to_message(), "No usable capture configuration");
        }
        other => panic!("unexpected {other:?}"),
    }
    match next_candidate_step(3, 1, true, Some(Err(CameraError::StreamStopped))) {
        CandidateStep::Fail(e) => assert_eq!(e.kind(), CameraErrorKind::StreamStopped),
        other => panic!("unexpected {other:?}"),
    }
}
