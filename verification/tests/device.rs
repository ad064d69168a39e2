use camera::backends::BackendType;
use camera::device::{device_info, device_info_synthetic, infer_facing};
use camera::{BackendId, CameraDeviceInfo, CameraFacing, IdentityStability};

#[test]
fn native_identity_uses_device_path() {
    let mut a = CameraDeviceInfo::new(0, "a".into(), "".into());
    a.device_path = Some("native-a".into());
    let mut b = CameraDeviceInfo::new(0, "b".into(), "".into());
    b.device_path = Some("native-b".into());
    assert_ne!(a.unique_id(), b.unique_id());
}

#[test]
fn unique_ids_fall_back_to_usb_identity_then_index() {
    let mut d = CameraDeviceInfo::new(7, "cam".into(), "".into());
    assert_eq!(d.unique_id(), "index:7");
    d.vendor_id = Some(0x046d);
    d.product_id = Some(0x0825);
    d.serial_number = Some("SN1".into());
    assert_eq!(d.unique_id(), "046d:0825:SN1");
    d.device_path = Some(String::new());
    assert_eq!(d.unique_id(), "046d:0825:SN1");
    d.device_path = Some("/dev/video0".into());
    assert_eq!(d.unique_id(), "/dev/video0");
    let big = CameraDeviceInfo::new(4_294_967_295, "x".into(), "".into());
    assert_eq!(big.unique_id(), "index:4294967295");
}

#[test]
fn facing_is_guessed_from_words() {
    assert_eq!(infer_facing("FaceTime HD Front", ""), CameraFacing::Front);
    assert_eq!(infer_facing("Camera", "user facing"), CameraFacing::Front);
    assert_eq!(infer_facing("REAR camera", ""), CameraFacing::Back);
    assert_eq!(infer_facing("cam", "environment"), CameraFacing::Back);
    assert_eq!(infer_facing("USB Video", ""), CameraFacing::External);
    assert_eq!(infer_facing("Webcam", "External device"), CameraFacing::External);
    assert_eq!(infer_facing("Webcam", "HD"), CameraFacing::Unknown);
    assert_eq!(infer_facing("front", "back"), CameraFacing::Front);
    assert_eq!(infer_facing("fro", "nt"), CameraFacing::Unknown);
}

#[test]
fn device_info_keeps_identity_and_usb_ids() {
    let mut d = CameraDeviceInfo::new(2, "USB cam".into(), "desc".into());
    d.device_path = Some("/dev/video2".into());
    let info = device_info(BackendType::V4l2, d.clone());
    assert_eq!(info.id.backend, BackendId::V4L2);
    assert_eq!(info.id.native, "/dev/video2");
    assert_eq!(info.stability, IdentityStability::EnumerationOnly);
    assert_eq!(info.facing, CameraFacing::External);
    assert_eq!(info.index, 2);
    assert!(info.usb.is_none());
    let uvc = device_info(BackendType::Uvc, d.clone());
    assert_eq!(uvc.stability, IdentityStability::Native);
    let mut with_usb = d;
    with_usb.device_path = None;
    with_usb.vendor_id = Some(1);
    with_usb.product_id = Some(2);
    with_usb.serial_number = Some("S".into());
    let info = device_info(BackendType::V4l2, with_usb);
    assert_eq!(info.stability, IdentityStability::Native);
    let usb = info.usb.unwrap();
    assert_eq!((usb.vendor_id, usb.product_id), (1, 2));
    assert_eq!(usb.serial_number.as_deref(), Some("S"));
}

#[test]
fn synthetic_device_is_fixed() {
    let info = device_info_synthetic();
    assert_eq!(info.id.backend, BackendId::SYNTHETIC);
    assert_eq!(info.id.native, "test-pattern");
    assert_eq!(info.name, "Synthetic RGB camera");
    assert_eq!(info.facing, CameraFacing::Unknown);
    assert_eq!(info.stability, IdentityStability::Native);
}
