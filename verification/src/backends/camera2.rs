//! Android Camera2 NDK bridge: status codes, pixel formats, lens facing, and
//! the layout and RGB conversion of delivered frames.
use vstd::prelude::*;
use crate::error::{CameraError, CameraResult};
use crate::rate::CameraConfig;
use crate::ids::BackendId;
use crate::format::{FrameLayout, PixelFormat, PlaneLayout};
use crate::color::bt601_full_spec;
use crate::convert::{
    rgba8888_to_rgb_into, spec_packed_fits, spec_pick_byte, spec_plane_fits, spec_planar_byte,
    yuv420_to_rgb_into, YuvPlane,
};

verus! {

/// Camera facing direction reported by the NDK.
#[derive(Clone, Copy, Debug, PartialEq, Eq, Structural, Hash)]
pub enum CameraFacing {
    /// Rear-facing camera (ACAMERA_LENS_FACING_BACK = 1)
    Back,
    /// Front-facing camera (ACAMERA_LENS_FACING_FRONT = 0)
    Front,
    /// External camera (ACAMERA_LENS_FACING_EXTERNAL = 2)
    External,
}

impl CameraFacing {
    /// Maps an NDK lens-facing value; unknown values are external cameras.
    pub fn from_ndk(value: i32) -> (f: CameraFacing)
        ensures
            f == (if value == 0 {
                CameraFacing::Front
            } else if value == 1 {
                CameraFacing::Back
            } else {
                CameraFacing::External
            }),
    {
        match value {
            0 => CameraFacing::Front,
            1 => CameraFacing::Back,
            _ => CameraFacing::External,
        }
    }
}

/// Camera configuration passed to the NDK bridge.
#[derive(Clone, Copy, Debug, PartialEq, Eq, Structural)]
pub struct NdkCameraConfig {
    pub width: i32,
    pub height: i32,
    pub format: i32,
    pub fps: i32,
}

/// Pixel layout of a frame delivered by the NDK bridge.
#[derive(Clone, Copy, Debug, PartialEq, Eq, Structural)]
pub enum NdkCameraPixelFormat {
    Unknown,
    Yuv420,
    Rgba8888,
}

impl NdkCameraPixelFormat {
    /// The C enum value.
    pub fn code(&self) -> (c: i32)
        ensures
            c == match *self {
                NdkCameraPixelFormat::Unknown => 0i32,
                NdkCameraPixelFormat::Yuv420 => 1,
                NdkCameraPixelFormat::Rgba8888 => 2,
            },
    {
        match self {
            NdkCameraPixelFormat::Unknown => 0,
            NdkCameraPixelFormat::Yuv420 => 1,
            NdkCameraPixelFormat::Rgba8888 => 2,
        }
    }
}

/// Status codes of the NDK bridge.
#[derive(Clone, Copy, Debug, PartialEq, Eq, Structural)]
pub enum NdkCameraStatus {
    Success,
    ErrorInvalidParam,
    ErrorOpenFailed,
    ErrorSessionFailed,
    ErrorNotFound,
    ErrorPermission,
    ErrorAlreadyStreaming,
    ErrorNotStreaming,
    ErrorInternal,
}

/// The C enum value of a status.
pub open spec fn spec_status_code(s: NdkCameraStatus) -> int {
    match s {
        NdkCameraStatus::Success => 0,
        NdkCameraStatus::ErrorInvalidParam => -1,
        NdkCameraStatus::ErrorOpenFailed => -2,
        NdkCameraStatus::ErrorSessionFailed => -3,
        NdkCameraStatus::ErrorNotFound => -4,
        NdkCameraStatus::ErrorPermission => -5,
        NdkCameraStatus::ErrorAlreadyStreaming => -6,
        NdkCameraStatus::ErrorNotStreaming => -7,
        NdkCameraStatus::ErrorInternal => -8,
    }
}

/// Description of a status.
pub open spec fn spec_status_text(s: NdkCameraStatus) -> Seq<char> {
    match s {
        NdkCameraStatus::Success => "OK"@,
        NdkCameraStatus::ErrorInvalidParam => "Invalid parameter"@,
        NdkCameraStatus::ErrorOpenFailed => "Failed to open camera"@,
        NdkCameraStatus::ErrorSessionFailed => "Failed to create capture session"@,
        NdkCameraStatus::ErrorNotFound => "Camera not found"@,
        NdkCameraStatus::ErrorPermission => "Permission denied"@,
        NdkCameraStatus::ErrorAlreadyStreaming => "Already streaming"@,
        NdkCameraStatus::ErrorNotStreaming => "Not streaming"@,
        NdkCameraStatus::ErrorInternal => "Internal error"@,
    }
}

impl NdkCameraStatus {
    /// The C enum value.
    pub fn code(self) -> (c: i32)
        ensures
            c == spec_status_code(self),
    {
        match self {
            NdkCameraStatus::Success => 0,
            NdkCameraStatus::ErrorInvalidParam => -1,
            NdkCameraStatus::ErrorOpenFailed => -2,
            NdkCameraStatus::ErrorSessionFailed => -3,
            NdkCameraStatus::ErrorNotFound => -4,
            NdkCameraStatus::ErrorPermission => -5,
            NdkCameraStatus::ErrorAlreadyStreaming => -6,
            NdkCameraStatus::ErrorNotStreaming => -7,
            NdkCameraStatus::ErrorInternal => -8,
        }
    }

    /// The native error of a failed bridge operation, carrying the status
    /// code and its description.
    pub fn error(self, operation: String) -> (e: CameraError)
        ensures
            e matches CameraError::Native { backend, operation: op, code, message } && backend
                == BackendId::Camera2 && op == operation && code == spec_status_code(self)
                && message@ == spec_status_text(self),
    {
        CameraError::Native {
            backend: BackendId::Camera2,
            operation,
            code: self.code() as i64,
            message: String::from_str(self.to_error_string()),
        }
    }

    /// Whether the operation succeeded.
    pub fn is_ok(self) -> (r: bool)
        ensures
            r == (self == NdkCameraStatus::Success),
    {
        match self {
            NdkCameraStatus::Success => true,
            _ => false,
        }
    }

    /// Human-readable description.
    pub fn to_error_string(self) -> (text: &'static str)
        ensures
            text@ == spec_status_text(self),
    {
        match self {
            NdkCameraStatus::Success => "OK",
            NdkCameraStatus::ErrorInvalidParam => "Invalid parameter",
            NdkCameraStatus::ErrorOpenFailed => "Failed to open camera",
            NdkCameraStatus::ErrorSessionFailed => "Failed to create capture session",
            NdkCameraStatus::ErrorNotFound => "Camera not found",
            NdkCameraStatus::ErrorPermission => "Permission denied",
            NdkCameraStatus::ErrorAlreadyStreaming => "Already streaming",
            NdkCameraStatus::ErrorNotStreaming => "Not streaming",
            NdkCameraStatus::ErrorInternal => "Internal error",
        }
    }
}

/// `AIMAGE_FORMAT_YUV_420_888`.
pub const AIMAGE_FORMAT_YUV_420_888: i32 = 0x23;

/// The bridge configuration that starts a Camera2 stream: YUV 4:2:0 at the
/// configuration's size and whole frame rate. Camera2 target ranges take
/// whole rates, so a fractional rate is unsupported.
pub fn stream_config(config: &CameraConfig) -> (r: CameraResult<NdkCameraConfig>)
    ensures
        match r {
            Ok(c) => config.spec_valid() && config.fps_denominator == 1 && config.fps <= i32::MAX
                && c == (NdkCameraConfig {
                    width: config.width as i32,
                    height: config.height as i32,
                    format: AIMAGE_FORMAT_YUV_420_888,
                    fps: config.fps as i32,
                }),
            Err(e) => !config.spec_valid() && e is InvalidConfig
                || config.spec_valid() && config.fps_denominator != 1 && e is UnsupportedFormat
                || config.spec_valid() && config.fps_denominator == 1 && config.fps > i32::MAX && e is InvalidConfig,
        },
{
    match config.validate() {
        Ok(_) => {},
        Err(e) => return Err(e),
    }
    if config.fps_denominator != 1 {
        return Err(CameraError::UnsupportedFormat(String::from_str("Camera2 AE target FPS ranges use integer rates")));
    }
    let fps = config.fps / config.fps_denominator;
    if fps > i32::MAX as u32 {
        return Err(CameraError::InvalidConfig(String::from_str("Camera2 FPS overflow")));
    }
    Ok(NdkCameraConfig {
        width: config.width as i32,
        height: config.height as i32,
        format: AIMAGE_FORMAT_YUV_420_888,
        fps: fps as i32,
    })
}

/// A frame delivered by the NDK bridge: either an RGBA8888 plane or the
/// three planes of a YUV 4:2:0 image. An absent plane is empty.
pub struct NdkFrameData {
    pub rgb_data: Vec<u8>,
    pub row_stride_rgb: i32,
    pub y_data: Vec<u8>,
    pub row_stride_y: i32,
    pub uv_data: Vec<u8>,
    pub row_stride_uv: i32,
    pub pixel_stride_uv: i32,
    pub v_data: Vec<u8>,
    pub row_stride_v: i32,
    pub pixel_stride_v: i32,
    pub width: i32,
    pub height: i32,
    pub pixel_format: i32,
    pub timestamp_ns: i64,
}

/// The frame carries a usable RGBA8888 plane.
pub open spec fn spec_rgba_usable(f: &NdkFrameData) -> bool {
    f.pixel_format == 2 && f.rgb_data@.len() > 0 && f.row_stride_rgb > 0
}

/// The frame carries three non-empty YUV planes with positive strides.
pub open spec fn spec_planes_usable(f: &NdkFrameData) -> bool {
    &&& f.y_data@.len() > 0 && f.uv_data@.len() > 0 && f.v_data@.len() > 0
    &&& f.row_stride_y > 0 && f.row_stride_uv > 0 && f.row_stride_v > 0
    &&& f.pixel_stride_uv > 0 && f.pixel_stride_v > 0
}

/// The YUV planes of the frame hold a `w` x `h` image that fits the output.
pub open spec fn spec_camera2_yuv_fits(f: &NdkFrameData, w: int, h: int, rgb_len: int) -> bool {
    &&& w > 0 && h > 0
    &&& w * h * 3 <= rgb_len
    &&& spec_plane_fits(f.y_data@.len() as int, f.row_stride_y as int, 1, w, h)
    &&& spec_plane_fits(f.uv_data@.len() as int, f.row_stride_uv as int, f.pixel_stride_uv as int, (w + 1) / 2, (h + 1) / 2)
    &&& spec_plane_fits(f.v_data@.len() as int, f.row_stride_v as int, f.pixel_stride_v as int, (w + 1) / 2, (h + 1) / 2)
}

/// Output byte `j` of the RGB image converted from the YUV planes of the frame.
pub open spec fn spec_camera2_yuv_byte(f: &NdkFrameData, w: int, j: int) -> u8 {
    spec_planar_byte(
        f.y_data@, f.row_stride_y as int, 1,
        f.uv_data@, f.row_stride_uv as int, f.pixel_stride_uv as int,
        f.v_data@, f.row_stride_v as int, f.pixel_stride_v as int,
        w, bt601_full_spec(), j,
    )
}

/// Converts the YUV 4:2:0 planes of a frame into RGB with full-range
/// BT.601, whatever the chroma sample stride (planar, or interleaved with a
/// stride of two).
pub fn convert_camera2_yuv(frame: &NdkFrameData, width: usize, height: usize, rgb: &mut [u8]) -> (r: CameraResult<()>)
    requires
        spec_planes_usable(frame),
    ensures
        final(rgb)@.len() == old(rgb)@.len(),
        r is Ok <==> spec_camera2_yuv_fits(frame, width as int, height as int, old(rgb)@.len() as int),
        r matches Err(e) ==> e is InvalidFormat && final(rgb)@ == old(rgb)@,
        r is Ok ==> forall|j: int| 0 <= j < width * height * 3 ==> final(rgb)@[j] == spec_camera2_yuv_byte(frame, width as int, j),
        r is Ok ==> forall|j: int| width * height * 3 <= j < old(rgb)@.len() ==> final(rgb)@[j] == old(rgb)@[j],
{
    let y = YuvPlane { data: frame.y_data.as_slice(), row_stride: frame.row_stride_y as usize, pixel_stride: 1 };
    let u = YuvPlane {
        data: frame.uv_data.as_slice(),
        row_stride: frame.row_stride_uv as usize,
        pixel_stride: frame.pixel_stride_uv as usize,
    };
    let v = YuvPlane {
        data: frame.v_data.as_slice(),
        row_stride: frame.row_stride_v as usize,
        pixel_stride: frame.pixel_stride_v as usize,
    };
    yuv420_to_rgb_into(y, u, v, width, height, rgb)
}

/// Converts a positive-sized frame into RGB: a usable RGBA8888 plane drops
/// its alpha channel; otherwise the YUV planes are converted, and a frame
/// without usable planes is `InvalidFormat`.
pub fn camera2_frame_to_rgb(frame: &NdkFrameData, rgb: &mut [u8]) -> (r: CameraResult<()>)
    requires
        frame.width > 0,
        frame.height > 0,
    ensures
        final(rgb)@.len() == old(rgb)@.len(),
        r is Err ==> final(rgb)@ == old(rgb)@,
        spec_rgba_usable(frame) ==> {
            &&& (r is Ok <==> spec_packed_fits(frame.rgb_data@.len() as int, frame.width as int, frame.height as int,
                frame.row_stride_rgb as int, 4, old(rgb)@.len() as int))
            &&& (r matches Err(e) ==> e is InvalidFormat)
            &&& (r is Ok ==> forall|j: int| 0 <= j < frame.width * frame.height * 3 ==> final(rgb)@[j]
                == spec_pick_byte(frame.rgb_data@, frame.row_stride_rgb as int, frame.width as int, 4, (0u8, 1u8, 2u8), j))
        },
        !spec_rgba_usable(frame) && !spec_planes_usable(frame) ==> (r matches Err(e) && e is InvalidFormat),
        !spec_rgba_usable(frame) && spec_planes_usable(frame) ==> {
            &&& (r is Ok <==> spec_camera2_yuv_fits(frame, frame.width as int, frame.height as int, old(rgb)@.len() as int))
            &&& (r matches Err(e) ==> e is InvalidFormat)
            &&& (r is Ok ==> forall|j: int| 0 <= j < frame.width * frame.height * 3 ==> final(rgb)@[j]
                == spec_camera2_yuv_byte(frame, frame.width as int, j))
        },
        r is Ok ==> forall|j: int| frame.width * frame.height * 3 <= j < old(rgb)@.len() ==> final(rgb)@[j] == old(rgb)@[j],
{
    let width = frame.width as usize;
    let height = frame.height as usize;
    if frame.pixel_format == 2 && frame.rgb_data.len() > 0 && frame.row_stride_rgb > 0 {
        return rgba8888_to_rgb_into(frame.rgb_data.as_slice(), width, height, frame.row_stride_rgb as usize, rgb);
    }
    if frame.y_data.len() == 0 || frame.uv_data.len() == 0 || frame.v_data.len() == 0 || frame.row_stride_y <= 0
        || frame.row_stride_uv <= 0 || frame.row_stride_v <= 0 || frame.pixel_stride_uv <= 0 || frame.pixel_stride_v <= 0 {
        return Err(CameraError::InvalidFormat(String::from_str("Invalid Camera2 plane metadata")));
    }
    convert_camera2_yuv(frame, width, height, rgb)
}

/// An interleaved chroma plane formed in memory by the two chroma planes of
/// a frame: `Nv12` when the U samples come first, `Nv21` when the V samples
/// do.
#[derive(Clone, Copy, Debug, PartialEq, Eq, Structural)]
pub struct InterleavedChroma {
    pub format: PixelFormat,
    pub length: usize,
    pub row_stride: usize,
}

/// The frame's YUV geometry is complete: a positive size and three
/// non-empty planes with positive strides.
pub open spec fn spec_yuv_geometry_valid(f: &NdkFrameData) -> bool {
    f.width > 0 && f.height > 0 && spec_planes_usable(f)
}

/// Describes a frame as delivered, without conversion. An RGBA8888 frame is
/// one `Rgba8` plane. A YUV frame whose chroma planes interleave
/// (`interleaved`, found from where the planes lie in memory) is the luma
/// plane followed by that chroma plane; otherwise it is `Yuv420p` with the
/// luma, U and V planes one after another. Frames without usable planes are
/// `InvalidFormat`.
pub fn native_frame_layout(frame: &NdkFrameData, interleaved: Option<InterleavedChroma>) -> (r: CameraResult<FrameLayout>)
    requires
        frame.y_data@.len() + frame.uv_data@.len() <= usize::MAX,
        interleaved matches Some(c) ==> (c.format == PixelFormat::Nv12 || c.format == PixelFormat::Nv21),
    ensures
        frame.pixel_format == 2 ==> match r {
            Ok(layout) => frame.rgb_data@.len() > 0 && frame.row_stride_rgb > 0 && layout.format == PixelFormat::Rgba8
                && layout.width == frame.width as u32 && layout.height == frame.height as u32 && !layout.bottom_up
                && layout.planes@ == seq![PlaneLayout {
                    offset: 0,
                    length: frame.rgb_data@.len() as usize,
                    row_stride: frame.row_stride_rgb as usize,
                    pixel_stride: 4,
                }],
            Err(e) => (frame.rgb_data@.len() == 0 || frame.row_stride_rgb <= 0) && e is InvalidFormat,
        },
        frame.pixel_format != 2 && !spec_yuv_geometry_valid(frame) ==> (r matches Err(e) && e is InvalidFormat),
        frame.pixel_format != 2 && spec_yuv_geometry_valid(frame) ==> (r matches Ok(layout) && {
            &&& layout.width == frame.width as u32 && layout.height == frame.height as u32 && !layout.bottom_up
            &&& match interleaved {
                Some(c) => layout.format == c.format && layout.planes@ == seq![
                    PlaneLayout { offset: 0, length: frame.y_data@.len() as usize, row_stride: frame.row_stride_y as usize, pixel_stride: 1 },
                    PlaneLayout { offset: frame.y_data@.len() as usize, length: c.length, row_stride: c.row_stride, pixel_stride: 2 },
                ],
                None => layout.format == PixelFormat::Yuv420p && layout.planes@ == seq![
                    PlaneLayout { offset: 0, length: frame.y_data@.len() as usize, row_stride: frame.row_stride_y as usize, pixel_stride: 1 },
                    PlaneLayout {
                        offset: frame.y_data@.len() as usize,
                        length: frame.uv_data@.len() as usize,
                        row_stride: frame.row_stride_uv as usize,
                        pixel_stride: frame.pixel_stride_uv as usize,
                    },
                    PlaneLayout {
                        offset: (frame.y_data@.len() + frame.uv_data@.len()) as usize,
                        length: frame.v_data@.len() as usize,
                        row_stride: frame.row_stride_v as usize,
                        pixel_stride: frame.pixel_stride_v as usize,
                    },
                ],
            }
        }),
{
    if frame.pixel_format == 2 {
        if frame.rgb_data.len() == 0 || frame.row_stride_rgb <= 0 {
            return Err(CameraError::InvalidFormat(String::from_str("Invalid Camera2 RGBA frame")));
        }
        let mut planes: Vec<PlaneLayout> = Vec::new();
        planes.push(PlaneLayout {
            offset: 0,
            length: frame.rgb_data.len(),
            row_stride: frame.row_stride_rgb as usize,
            pixel_stride: 4,
        });
        return Ok(FrameLayout {
            width: frame.width as u32,
            height: frame.height as u32,
            format: PixelFormat::Rgba8,
            planes,
            bottom_up: false,
            color: None,
        });
    }
    if frame.width <= 0 || frame.height <= 0 || frame.y_data.len() == 0 || frame.row_stride_y <= 0
        || frame.uv_data.len() == 0 || frame.row_stride_uv <= 0 || frame.pixel_stride_uv <= 0
        || frame.v_data.len() == 0 || frame.row_stride_v <= 0 || frame.pixel_stride_v <= 0 {
        return Err(CameraError::InvalidFormat(String::from_str("Invalid Camera2 YUV plane")));
    }
    let y_len = frame.y_data.len();
    let mut planes: Vec<PlaneLayout> = Vec::new();
    planes.push(PlaneLayout { offset: 0, length: y_len, row_stride: frame.row_stride_y as usize, pixel_stride: 1 });
    let format = match interleaved {
        Some(c) => {
            planes.push(PlaneLayout { offset: y_len, length: c.length, row_stride: c.row_stride, pixel_stride: 2 });
            c.format
        },
        None => {
            let uv_len = frame.uv_data.len();
            planes.push(PlaneLayout {
                offset: y_len,
                length: uv_len,
                row_stride: frame.row_stride_uv as usize,
                pixel_stride: frame.pixel_stride_uv as usize,
            });
            planes.push(PlaneLayout {
                offset: y_len + uv_len,
                length: frame.v_data.len(),
                row_stride: frame.row_stride_v as usize,
                pixel_stride: frame.pixel_stride_v as usize,
            });
            PixelFormat::Yuv420p
        },
    };
    Ok(FrameLayout { width: frame.width as u32, height: frame.height as u32, format, planes, bottom_up: false, color: None })
}

} // verus!
