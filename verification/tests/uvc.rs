use camera::backends::uvc::{
    descriptor_format, descriptor_frame_rates, exposure_modes_from_mask, format_to_uvc,
    select_ae_mode, uvc_frame_to_rgb, uvc_native_format, uvc_native_stride, LibusbOption,
    StreamCtrl, UvcDevice, UvcFrameFormat, UvcReqCode, UvcStreamCtrl, UVC_ERROR_IO, UVC_SUCCESS,
    find_device_by_unique_id, select_stream_device, uvc_frame_interval, configs_from_descriptors,
    UvcFormatDescriptor, UvcFrameDescriptor,
};
use camera::{CameraConfig, CameraDeviceInfo};
use camera::{CameraErrorKind, ControlMode, FrameRate, PixelFormat, VideoFormat};

#[test]
fn test_error_codes() {
    assert_eq!(UVC_SUCCESS, 0);
    assert_eq!(UVC_ERROR_IO, -1);
}

#[test]
fn test_frame_format() {
    assert_eq!(UvcFrameFormat::Mjpeg as i32, 7);
    assert_eq!(UvcFrameFormat::Yuyv as i32, 3);
}

#[test]
fn frame_format_codes_match_libuvc() {
    assert_eq!(UvcFrameFormat::Mjpeg.code(), 7);
    assert_eq!(UvcFrameFormat::Nv12.code(), 17);
    assert_eq!(UvcReqCode::GetCur.code(), 0x81);
    assert_eq!(UvcReqCode::GetDef.code(), 0x87);
    let _ = LibusbOption::NoDeviceDiscovery.code();
}

#[test]
fn test_format_conversion() {
    assert_eq!(format_to_uvc(VideoFormat::MJPEG), UvcFrameFormat::Mjpeg);
    assert_eq!(format_to_uvc(VideoFormat::Gray), UvcFrameFormat::Gray8);
}

#[test]
fn automatic_never_selects_manual_and_respects_capabilities() {
    assert_eq!(select_ae_mode(0b1111, true).unwrap(), 2);
    assert_eq!(select_ae_mode(0b1001, true).unwrap(), 8);
    assert_eq!(select_ae_mode(0b0101, true).unwrap(), 4);
    assert_eq!(select_ae_mode(0b1111, false).unwrap(), 1);
    assert!(select_ae_mode(1, true).is_err());
    assert!(select_ae_mode(2, false).is_err());
}

#[test]
fn exposure_modes_follow_the_mask() {
    assert_eq!(exposure_modes_from_mask(0), vec![]);
    assert_eq!(exposure_modes_from_mask(1), vec![ControlMode::Manual]);
    assert_eq!(exposure_modes_from_mask(8), vec![ControlMode::Automatic]);
    assert_eq!(
        exposure_modes_from_mask(0b1111),
        vec![ControlMode::Manual, ControlMode::Automatic]
    );
}

#[test]
fn descriptors_use_guid_and_all_discrete_intervals() {
    let mut guid = [0, 0, 0, 0, 0, 0, 16, 0, 128, 0, 0, 170, 0, 56, 155, 113];
    guid[..4].copy_from_slice(b"YUY2");
    assert_eq!(descriptor_format(4, &guid), Some(VideoFormat::YUYV));
    guid[..4].copy_from_slice(b"UYVY");
    assert_eq!(descriptor_format(4, &guid), Some(VideoFormat::UYVY));
    guid[..4].copy_from_slice(b"NV12");
    assert_eq!(descriptor_format(4, &guid), None);
    assert_eq!(descriptor_format(6, &guid), Some(VideoFormat::MJPEG));
    let intervals = [333333, 666666, 1000000];
    assert_eq!(
        descriptor_frame_rates(333333, 3, &intervals, 0, 0, 0),
        [
            FrameRate::new(10, 1).unwrap(),
            FrameRate::new(10_000_000, 666666).unwrap(),
            FrameRate::new(10_000_000, 333333).unwrap()
        ]
    );
}

#[test]
fn continuous_descriptors_list_whole_rates_on_the_step_grid() {
    let rates = descriptor_frame_rates(333333, 0, &[], 333333, 1000000, 0);
    assert!(rates.contains(&FrameRate::new(10, 1).unwrap()));
    assert!(rates.contains(&FrameRate::new(20, 1).unwrap()));
    assert!(rates.contains(&FrameRate::new(25, 1).unwrap()));
    assert!(rates.contains(&FrameRate::new(10_000_000, 333333).unwrap()));
    assert!(!rates.contains(&FrameRate::new(50, 1).unwrap()));
    for pair in rates.windows(2) {
        assert!(
            (pair[0].numerator(), pair[0].denominator())
                < (pair[1].numerator(), pair[1].denominator())
        );
    }
    assert!(descriptor_frame_rates(0, 2, &[0, 0], 0, 0, 0).is_empty());
}

#[test]
fn callback_respects_stride_rejects_short_buffers_and_ignores_old_sessions() {
    let bytes = [10u8, 128, 20, 128, 255, 255, 255, 255, 30, 128, 40, 128];
    let mut rgb = vec![0; 12];
    uvc_frame_to_rgb(UvcFrameFormat::Yuyv, &bytes, 2, 2, 8, &mut rgb).unwrap();
    assert_eq!(rgb, [10, 10, 10, 20, 20, 20, 30, 30, 30, 40, 40, 40]);
    let mut rgb = vec![0; 12];
    let err = uvc_frame_to_rgb(UvcFrameFormat::Yuyv, &bytes[..2], 2, 2, 8, &mut rgb).unwrap_err();
    assert_eq!(err.kind(), CameraErrorKind::InvalidFormat);
}

#[test]
fn uvc_bgr_gray_and_rgb_rows_convert() {
    let mut rgb = vec![0; 6];
    uvc_frame_to_rgb(UvcFrameFormat::Bgr, &[3, 2, 1, 6, 5, 4], 2, 1, 0, &mut rgb).unwrap();
    assert_eq!(rgb, [1, 2, 3, 4, 5, 6]);
    let mut rgb = vec![0; 6];
    uvc_frame_to_rgb(UvcFrameFormat::Gray8, &[7, 9, 0, 8, 10], 1, 2, 3, &mut rgb).unwrap();
    assert_eq!(rgb, [7, 7, 7, 8, 8, 8]);
    let mut rgb = vec![0; 3];
    assert_eq!(
        uvc_frame_to_rgb(UvcFrameFormat::Rgb, &[1, 2], 1, 1, 0, &mut rgb)
            .unwrap_err()
            .kind(),
        CameraErrorKind::InvalidFormat
    );
    assert_eq!(
        uvc_frame_to_rgb(UvcFrameFormat::H264, &[1, 2, 3], 1, 1, 0, &mut rgb)
            .unwrap_err()
            .kind(),
        CameraErrorKind::UnsupportedFormat
    );
    assert_eq!(
        uvc_frame_to_rgb(UvcFrameFormat::Rgb, &[1, 2, 3], 1, 1, 2, &mut rgb)
            .unwrap_err()
            .kind(),
        CameraErrorKind::InvalidFormat
    );
}

#[test]
fn native_layouts_keep_the_step() {
    assert_eq!(uvc_native_format(UvcFrameFormat::Bgr).unwrap(), PixelFormat::Bgr8);
    assert!(uvc_native_format(UvcFrameFormat::Nv12).is_err());
    assert_eq!(uvc_native_stride(PixelFormat::Yuyv, 640, 0), 1280);
    assert_eq!(uvc_native_stride(PixelFormat::Rgb8, 640, 0), 1920);
    assert_eq!(uvc_native_stride(PixelFormat::Mjpeg, 640, 0), 640);
    assert_eq!(uvc_native_stride(PixelFormat::Yuyv, 640, 2048), 2048);
}

#[test]
fn stream_control_keeps_the_frame_interval() {
    let mut ctrl = StreamCtrl {
        ctrl: UvcStreamCtrl::default(),
    };
    ctrl.set_frame_interval(333333);
    assert_eq!(ctrl.frame_interval(), 333333);
}

#[test]
fn usb_descriptors_name_unnamed_devices_by_ids() {
    let device = UvcDevice {
        vendor_id: 0x046d,
        product_id: 0x0825,
        product: None,
        manufacturer: None,
        serial_number: Some("A1".into()),
    };
    let info = device.to_device_info(3);
    assert_eq!(info.name, "UVC Camera 046d:0825");
    assert_eq!(info.description, "USB Video Device");
    assert_eq!(info.index, 3);
    assert_eq!(info.vendor_id, Some(0x046d));
    assert_eq!(info.serial_number.as_deref(), Some("A1"));
    let named = UvcDevice {
        product: Some("C270".into()),
        manufacturer: Some("Logitech".into()),
        ..device
    };
    let info = named.to_device_info(0);
    assert_eq!(info.name, "C270");
    assert_eq!(info.description, "Logitech");
}

fn usb(index: u32, vid: u16, pid: u16, serial: Option<&str>) -> CameraDeviceInfo {
    let mut d = CameraDeviceInfo::new(index, "cam".to_string(), "usb".to_string());
    d.vendor_id = Some(vid);
    d.product_id = Some(pid);
    d.serial_number = serial.map(|s| s.to_string());
    d
}

#[test]
fn unique_ids_find_exact_then_usb_matches() {
    let devices = vec![
        usb(0, 0x046d, 0x0825, Some("A1")),
        usb(1, 0x046d, 0x0826, None),
        usb(2, 0x1234, 0x5678, Some("X")),
        usb(3, 0x1234, 0x5678, Some("Y")),
    ];
    assert_eq!(find_device_by_unique_id(&devices, "046d:0825:A1").unwrap(), 0);
    assert_eq!(find_device_by_unique_id(&devices, "index:1").unwrap(), 1);
    // A single device with the ids wins whatever the rest says.
    assert_eq!(find_device_by_unique_id(&devices, "046D:0826:7").unwrap(), 1);
    assert_eq!(find_device_by_unique_id(&devices, "+46d:826").unwrap(), 1);
    // Several devices with the ids: the serial decides.
    assert_eq!(find_device_by_unique_id(&devices, "1234:5678:Y:extra").unwrap(), 3);
    for missing in ["1234:5678", "1234:5678:Z", "ffff:0000", "zz:0825", "10000:0825", "nothing", ""] {
        assert_eq!(
            find_device_by_unique_id(&devices, missing).unwrap_err().kind(),
            CameraErrorKind::DeviceNotFound,
            "{missing}"
        );
    }
}

#[test]
fn streams_open_the_only_device_with_the_expected_id() {
    let cam = |serial: Option<&str>| UvcDevice {
        vendor_id: 0x046d,
        product_id: 0x0825,
        product: None,
        manufacturer: None,
        serial_number: serial.map(|s| s.to_string()),
    };
    let devices = vec![Some(cam(Some("A"))), None, Some(cam(None)), Some(cam(Some("B")))];
    assert_eq!(select_stream_device(&devices, &Some("046d:0825:B".to_string()), 0).unwrap(), 3);
    assert_eq!(select_stream_device(&devices, &Some("index:2".to_string()), 0).unwrap(), 2);
    assert_eq!(
        select_stream_device(&devices, &Some("index:1".to_string()), 0).unwrap_err().kind(),
        CameraErrorKind::DeviceNotFound
    );
    let twins = vec![Some(cam(Some("A"))), Some(cam(Some("A")))];
    assert_eq!(
        select_stream_device(&twins, &Some("046d:0825:A".to_string()), 0).unwrap_err().kind(),
        CameraErrorKind::AmbiguousDevice
    );
    assert_eq!(select_stream_device(&devices, &None, 1).unwrap(), 1);
    assert_eq!(
        select_stream_device(&devices, &None, 4).unwrap_err().kind(),
        CameraErrorKind::DeviceNotFound
    );
}

#[test]
fn frame_intervals_round_half_up() {
    let config = |fps: u32, den: u32| CameraConfig {
        format: VideoFormat::YUYV,
        width: 640,
        height: 480,
        fps,
        fps_denominator: den,
    };
    assert_eq!(uvc_frame_interval(&config(30, 1)).unwrap(), 333_333);
    assert_eq!(uvc_frame_interval(&config(30000, 1001)).unwrap(), 333_667);
    assert_eq!(uvc_frame_interval(&config(7, 1)).unwrap(), 1_428_571);
    assert_eq!(
        uvc_frame_interval(&config(1, 1000)).unwrap_err().kind(),
        CameraErrorKind::InvalidConfig
    );
    assert_eq!(
        uvc_frame_interval(&config(u32::MAX, 1)).unwrap_err().kind(),
        CameraErrorKind::InvalidConfig
    );
}

fn frame(width: u16, height: u16, intervals: Vec<u32>) -> UvcFrameDescriptor {
    UvcFrameDescriptor {
        width,
        height,
        default_interval: intervals[0],
        interval_type: intervals.len() as u8,
        intervals,
        min_interval: 0,
        max_interval: 0,
        interval_step: 0,
    }
}

#[test]
fn descriptors_offer_each_decodable_mode_once() {
    let mut yuy2 = [0, 0, 0, 0, 0, 0, 16, 0, 128, 0, 0, 170, 0, 56, 155, 113];
    yuy2[..4].copy_from_slice(b"YUY2");
    let formats = vec![
        UvcFormatDescriptor {
            subtype: 6,
            guid: [0; 16],
            frames: vec![
                frame(640, 480, vec![1_000_000, 500_000]),
                frame(0, 480, vec![1_000_000]),
                frame(640, 480, vec![500_000]),
            ],
        },
        UvcFormatDescriptor { subtype: 4, guid: yuy2, frames: vec![frame(320, 240, vec![333_333])] },
        UvcFormatDescriptor { subtype: 5, guid: [0; 16], frames: vec![frame(1280, 720, vec![333_333])] },
    ];
    let configs = configs_from_descriptors(&formats);
    let mode = |format, width, height, fps, fps_denominator| CameraConfig { format, width, height, fps, fps_denominator };
    assert_eq!(
        configs,
        vec![
            mode(VideoFormat::MJPEG, 640, 480, 10, 1),
            mode(VideoFormat::MJPEG, 640, 480, 20, 1),
            mode(VideoFormat::YUYV, 320, 240, 10_000_000, 333_333),
        ]
    );
}
