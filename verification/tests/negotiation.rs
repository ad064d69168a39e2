use camera::negotiation::rank_capture_configurations;
use camera::{
    CameraConfig, CameraErrorKind, CaptureFormat, CaptureRequest, FrameRate, NegotiationPriority,
    VideoFormat,
};

fn modes() -> Vec<CameraConfig> {
    vec![
        CameraConfig::new(VideoFormat::MJPEG, 1920, 1080, 30),
        CameraConfig::new(VideoFormat::YUYV, 640, 480, 30),
        CameraConfig::new(VideoFormat::NV12, 1280, 720, 30),
        CameraConfig::new(VideoFormat::H264, 1280, 720, 30),
        CameraConfig::new(VideoFormat::YUYV, 1280, 720, 15),
        CameraConfig::new(VideoFormat::YUYV, 1280, 720, 0),
    ]
}

#[test]
fn preference_order_comes_first() {
    let request = CaptureRequest::builder()
        .preferred_resolution(1280, 720)
        .preferred_formats(vec![CaptureFormat::Mjpeg, CaptureFormat::Yuyv])
        .build()
        .unwrap();
    let mut ranked = modes();
    rank_capture_configurations(&request, &mut ranked).unwrap();
    assert_eq!(
        ranked,
        vec![
            CameraConfig::new(VideoFormat::MJPEG, 1920, 1080, 30),
            CameraConfig::new(VideoFormat::YUYV, 1280, 720, 15),
            CameraConfig::new(VideoFormat::YUYV, 640, 480, 30),
        ]
    );
}

#[test]
fn priorities_order_formats_by_cost() {
    let request = CaptureRequest::builder()
        .preferred_resolution(1280, 720)
        .priority(NegotiationPriority::LowBandwidth)
        .build()
        .unwrap();
    let mut ranked = modes();
    rank_capture_configurations(&request, &mut ranked).unwrap();
    assert_eq!(ranked[0].format, VideoFormat::H264);
    assert_eq!(ranked[1].format, VideoFormat::MJPEG);
    assert_eq!(ranked[2].format, VideoFormat::NV12);
    assert_eq!(ranked.len(), 5);
}

#[test]
fn frame_rate_distance_breaks_resolution_ties() {
    let request = CaptureRequest::builder()
        .preferred_resolution(1280, 720)
        .preferred_frame_rate(FrameRate::new(30000, 1001).unwrap())
        .build()
        .unwrap();
    let mut ranked = vec![
        CameraConfig::new(VideoFormat::YUYV, 1280, 720, 15),
        CameraConfig::new(VideoFormat::YUYV, 1280, 720, 30),
        CameraConfig::new(VideoFormat::YUYV, 1280, 720, 30),
    ];
    rank_capture_configurations(&request, &mut ranked).unwrap();
    assert_eq!(
        ranked,
        vec![
            CameraConfig::new(VideoFormat::YUYV, 1280, 720, 30),
            CameraConfig::new(VideoFormat::YUYV, 1280, 720, 15),
        ]
    );
}

#[test]
fn hard_constraints_filter_modes() {
    let exact = CaptureRequest::builder()
        .exact_resolution(1280, 720)
        .minimum_frame_rate(FrameRate::new(20, 1).unwrap())
        .build()
        .unwrap();
    let mut ranked = modes();
    rank_capture_configurations(&exact, &mut ranked).unwrap();
    assert!(ranked.iter().all(|c| (c.width, c.height) == (1280, 720) && c.fps >= 20));
    assert_eq!(ranked.len(), 2);
    let square = CaptureRequest::builder().aspect_ratio(1, 1).build().unwrap();
    let mut none = modes();
    assert_eq!(
        rank_capture_configurations(&square, &mut none).unwrap_err().kind(),
        CameraErrorKind::UnsupportedFormat
    );
    assert!(none.is_empty());
    let wide = CaptureRequest::builder().aspect_ratio(16, 9).build().unwrap();
    let mut ranked = modes();
    rank_capture_configurations(&wide, &mut ranked).unwrap();
    assert_eq!(ranked.len(), 4);
}

#[test]
fn invalid_requests_are_rejected() {
    assert_eq!(
        CaptureRequest::builder()
            .preferred_resolution(0, 480)
            .build()
            .unwrap_err()
            .kind(),
        CameraErrorKind::InvalidConfig
    );
    assert!(CaptureRequest::builder().aspect_ratio(0, 9).build().is_err());
}
