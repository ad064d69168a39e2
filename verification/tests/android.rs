use camera::android::{
    argb_length, backend, capture_format, control_id, delivery_length, kept_frame, next_frame_step, rgb_to_android_argb,
    system_for, PendingFrame,
    valid_frame_timeout, UsbDeviceInfo,
};
use camera::controls::ControlId;
use camera::convert::yuv420sp_to_rgb_into;
use camera::{BackendId, BackendPolicy, CaptureFormat, Platform, TargetOs};

#[test]
fn demo_supports_every_android_backend_and_capture_format() {
    assert_eq!(backend("camera2").unwrap(), Some(BackendId::CAMERA2));
    assert_eq!(backend("uvc").unwrap(), Some(BackendId::UVC));
    assert_eq!(backend("v4l2").unwrap(), Some(BackendId::V4L2));
    assert_eq!(capture_format("Mjpeg").unwrap(), CaptureFormat::Mjpeg);
    assert_eq!(capture_format("Yuyv").unwrap(), CaptureFormat::Yuyv);
    assert_eq!(capture_format("Nv12").unwrap(), CaptureFormat::Nv12);
    assert!(capture_format("not-a-format").is_err());
}

#[test]
fn rgb_to_argb_uses_android_argb8888_native_words() {
    let mut output = [0u8; 8];
    rgb_to_android_argb(&[0x11, 0x22, 0x33, 0xaa, 0xbb, 0xcc], &mut output).unwrap();

    assert_eq!(
        u32::from_ne_bytes(output[0..4].try_into().unwrap()),
        0xff11_2233
    );
    assert_eq!(
        u32::from_ne_bytes(output[4..8].try_into().unwrap()),
        0xffaa_bbcc
    );
}

#[test]
fn default_camera2_java_api_can_deliver_rgb_frames() {
    let y = [16u8, 16, 16, 16];
    let uv = [128u8, 128];
    let mut rgb = vec![1u8; 12];
    yuv420sp_to_rgb_into(&y, &uv, 2, 2, 2, 2, &mut rgb).unwrap();
    assert_eq!(rgb, vec![16; 12]);
    let mut argb = vec![0u8; argb_length(rgb.len()).unwrap()];
    rgb_to_android_argb(&rgb, &mut argb).unwrap();
    assert_eq!(argb, [16, 16, 16, 0xff].repeat(4));
}

#[test]
fn names_are_case_insensitive_and_trimmed() {
    assert_eq!(backend("AUTO").unwrap(), None);
    assert_eq!(backend("Camera2").unwrap(), Some(BackendId::CAMERA2));
    assert!(backend("camera 2").is_err());
    assert_eq!(capture_format("  MJPG\t").unwrap(), CaptureFormat::Mjpeg);
    assert_eq!(capture_format("yuy2").unwrap(), CaptureFormat::Yuyv);
    assert_eq!(capture_format("RGB8").unwrap(), CaptureFormat::Rgb8);
    assert_eq!(capture_format("gray8").unwrap(), CaptureFormat::Gray8);
    assert_eq!(capture_format("H264").unwrap(), CaptureFormat::H264);
    assert_eq!(capture_format("uyvy").unwrap(), CaptureFormat::Uyvy);
}

#[test]
fn control_names_match_their_variants() {
    assert_eq!(control_id("Brightness").unwrap(), ControlId::Brightness);
    assert_eq!(control_id("WhiteBalanceTemperature").unwrap(), ControlId::WhiteBalanceTemperature);
    assert_eq!(control_id("Iris").unwrap(), ControlId::Iris);
    assert!(control_id("brightness").is_err());
    assert!(control_id("").is_err());
}

#[test]
fn argb_rejects_partial_pixels_and_small_outputs() {
    let mut out = [7u8; 8];
    assert!(rgb_to_android_argb(&[1, 2, 3, 4], &mut out).is_err());
    assert_eq!(out, [7; 8]);
    assert!(rgb_to_android_argb(&[1, 2, 3, 4, 5, 6], &mut out[..7]).is_err());
    let mut wide = [7u8; 6];
    rgb_to_android_argb(&[1, 2, 3], &mut wide).unwrap();
    assert_eq!(wide, [3, 2, 1, 0xff, 7, 7]);
    assert_eq!(argb_length(12), Some(16));
    assert_eq!(argb_length(usize::MAX), None);
}

#[test]
fn frame_timeouts_are_bounded() {
    assert!(valid_frame_timeout(0));
    assert!(valid_frame_timeout(60000));
    assert!(!valid_frame_timeout(60001));
    assert!(!valid_frame_timeout(-1));
}

#[test]
fn adapter_systems_require_the_named_backend() {
    let p = Platform::without_backends(TargetOs::Android);
    let system = system_for(p, Some(BackendId::UVC)).unwrap();
    assert_eq!(system.backend_policy(), &BackendPolicy::Require(BackendId::UVC));
    let system = system_for(p, None).unwrap();
    assert_eq!(system.backend_policy(), &BackendPolicy::PlatformDefault);
}

#[test]
fn usb_device_descriptions_carry_their_path() {
    let info = UsbDeviceInfo {
        index: 0,
        name: "Cam".into(),
        description: String::new(),
        vendor_id: Some(1),
        product_id: Some(2),
        serial_number: None,
        device_path: Some("/dev/bus/usb/001/002".into()),
    };
    assert_eq!(info.clone().device_path.as_deref(), Some("/dev/bus/usb/001/002"));
}

#[test]
fn deliveries_fit_the_callers_buffer() {
    assert_eq!(delivery_length(true, false, 100, 0, 100).unwrap(), 100);
    assert_eq!(delivery_length(false, false, 100, 12, 12).unwrap(), 12);
    assert_eq!(delivery_length(false, true, 100, 12, 16).unwrap(), 16);
    assert_eq!(
        delivery_length(false, true, 100, 12, 15).unwrap_err().kind(),
        camera::CameraErrorKind::InvalidState
    );
    assert_eq!(
        delivery_length(true, true, 100, 12, 1000).unwrap_err().kind(),
        camera::CameraErrorKind::InvalidState
    );
    assert!(delivery_length(true, false, 101, 0, 100).is_err());
}

#[test]
fn frames_wait_for_a_large_enough_buffer() {
    let frame = PendingFrame { session: 7, sequence: 3, length: 100 };
    let (slot, outcome) = next_frame_step(None, 7, 50, Some(frame));
    assert_eq!(slot, Some(frame));
    assert_eq!(outcome.unwrap_err().kind(), camera::CameraErrorKind::InvalidState);
    assert_eq!(kept_frame(slot, 7), Some(frame));
    let later = PendingFrame { session: 7, sequence: 4, length: 10 };
    let (slot, outcome) = next_frame_step(slot, 7, 100, Some(later));
    assert_eq!(slot, None);
    assert_eq!(outcome.unwrap(), frame);
    let stale = PendingFrame { session: 6, sequence: 9, length: 1000 };
    assert_eq!(kept_frame(Some(stale), 7), None);
    let (slot, outcome) = next_frame_step(Some(stale), 7, 100, Some(later));
    assert_eq!(slot, None);
    assert_eq!(outcome.unwrap(), later);
    assert!(next_frame_step(Some(stale), 7, 100, None).1.is_err());
}
