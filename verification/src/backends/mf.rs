//! Media Foundation: media subtype GUIDs, native media types, control
//! properties, and the layout and decoding of locked sample buffers.
use vstd::prelude::*;
use crate::color::{bt601_full_coefficients, bt601_full_spec};
use crate::convert::{
    spec_rows_fit, spec_semiplanar_byte, spec_yuv420sp_fits, yuv420sp_to_rgb_into,
};
use crate::color::{spec_yuv_channel, yuv_to_rgb};
use crate::convert::{spec_col, spec_row};
use crate::error::{spec_error_kind, CameraError, CameraErrorKind, CameraResult};
use crate::format::{spec_pixel_stride, FrameLayout, PixelFormat, PlaneLayout, VideoFormat};
use crate::rate::{CameraConfig, FrameRate};
use crate::controls::CameraControlType;

verus! {

/// A media subtype GUID.
#[derive(Clone, Copy, Debug, PartialEq, Eq)]
pub struct MfGuid {
    pub data1: u32,
    pub data2: u16,
    pub data3: u16,
    pub data4: [u8; 8],
}

/// Bytes 8 to 15 shared by the FourCC-based media subtypes.
pub open spec fn spec_subtype_tail() -> Seq<u8> {
    seq![0x80u8, 0x00, 0x00, 0xAA, 0x00, 0x38, 0x9B, 0x71]
}

/// The GUID is a FourCC-based media subtype `code`.
pub open spec fn spec_is_subtype(g: MfGuid, code: u32) -> bool {
    g.data1 == code && g.data2 == 0 && g.data3 == 0x0010 && g.data4@ == spec_subtype_tail()
}

pub const SUBTYPE_YUY2: u32 = 0x3259_5559;
pub const SUBTYPE_MJPG: u32 = 0x4750_4A4D;
pub const SUBTYPE_Y800: u32 = 0x3030_3859;
pub const SUBTYPE_NV12: u32 = 0x3231_564E;
pub const SUBTYPE_RGB24: u32 = 0x0000_0014;
pub const SUBTYPE_RGB32: u32 = 0x0000_0016;
pub const SUBTYPE_UYVY: u32 = 0x5956_5559;

pub open spec fn spec_subtype_format(code: u32) -> Option<VideoFormat> {
    if code == SUBTYPE_YUY2 {
        Some(VideoFormat::YUYV)
    } else if code == SUBTYPE_MJPG {
        Some(VideoFormat::MJPEG)
    } else if code == SUBTYPE_NV12 {
        Some(VideoFormat::NV12)
    } else if code == SUBTYPE_RGB24 {
        Some(VideoFormat::RGB)
    } else if code == SUBTYPE_Y800 {
        Some(VideoFormat::Gray)
    } else if code == SUBTYPE_UYVY {
        Some(VideoFormat::UYVY)
    } else {
        None
    }
}

pub open spec fn spec_format_subtype(format: VideoFormat) -> Option<u32> {
    match format {
        VideoFormat::YUYV => Some(SUBTYPE_YUY2),
        VideoFormat::MJPEG => Some(SUBTYPE_MJPG),
        VideoFormat::NV12 => Some(SUBTYPE_NV12),
        VideoFormat::RGB => Some(SUBTYPE_RGB24),
        VideoFormat::Gray => Some(SUBTYPE_Y800),
        VideoFormat::UYVY => Some(SUBTYPE_UYVY),
        VideoFormat::H264 => None,
    }
}

fn subtype_guid(code: u32) -> (g: MfGuid)
    ensures
        spec_is_subtype(g, code),
{
    let g = MfGuid { data1: code, data2: 0, data3: 0x0010, data4: [0x80, 0x00, 0x00, 0xAA, 0x00, 0x38, 0x9B, 0x71] };
    proof {
        assert(g.data4@ =~= spec_subtype_tail());
    }
    g
}

fn has_subtype_tail(g: &MfGuid) -> (r: bool)
    ensures
        r == (g.data2 == 0 && g.data3 == 0x0010 && g.data4@ == spec_subtype_tail()),
{
    let t = &g.data4;
    let r = g.data2 == 0 && g.data3 == 0x0010 && t[0] == 0x80 && t[1] == 0x00 && t[2] == 0x00 && t[3]
        == 0xAA && t[4] == 0x00 && t[5] == 0x38 && t[6] == 0x9B && t[7] == 0x71;
    proof {
        if r {
            assert(g.data4@ =~= spec_subtype_tail());
        } else if g.data2 == 0 && g.data3 == 0x0010 {
            assert(g.data4@ != spec_subtype_tail()) by {
                if g.data4@ == spec_subtype_tail() {
                    assert(t[0] == spec_subtype_tail()[0]);
                    assert(t[1] == spec_subtype_tail()[1]);
                    assert(t[2] == spec_subtype_tail()[2]);
                    assert(t[3] == spec_subtype_tail()[3]);
                    assert(t[4] == spec_subtype_tail()[4]);
                    assert(t[5] == spec_subtype_tail()[5]);
                    assert(t[6] == spec_subtype_tail()[6]);
                    assert(t[7] == spec_subtype_tail()[7]);
                }
            }
        }
    }
    r
}

/// The capture format of a media subtype GUID.
pub fn guid_to_format(guid: &MfGuid) -> (f: Option<VideoFormat>)
    ensures
        f == (if guid.data2 == 0 && guid.data3 == 0x0010 && guid.data4@ == spec_subtype_tail() {
            spec_subtype_format(guid.data1)
        } else {
            None
        }),
{
    if !has_subtype_tail(guid) {
        return None;
    }
    let code = guid.data1;
    if code == SUBTYPE_YUY2 {
        Some(VideoFormat::YUYV)
    } else if code == SUBTYPE_MJPG {
        Some(VideoFormat::MJPEG)
    } else if code == SUBTYPE_NV12 {
        Some(VideoFormat::NV12)
    } else if code == SUBTYPE_RGB24 {
        Some(VideoFormat::RGB)
    } else if code == SUBTYPE_Y800 {
        Some(VideoFormat::Gray)
    } else if code == SUBTYPE_UYVY {
        Some(VideoFormat::UYVY)
    } else {
        None
    }
}

/// The media subtype GUID of a capture format; H.264 has none here.
pub fn format_to_guid(format: VideoFormat) -> (g: Option<MfGuid>)
    ensures
        match spec_format_subtype(format) {
            Some(code) => g matches Some(guid) && spec_is_subtype(guid, code),
            None => g is None,
        },
{
    match format {
        VideoFormat::YUYV => Some(subtype_guid(SUBTYPE_YUY2)),
        VideoFormat::MJPEG => Some(subtype_guid(SUBTYPE_MJPG)),
        VideoFormat::NV12 => Some(subtype_guid(SUBTYPE_NV12)),
        VideoFormat::RGB => Some(subtype_guid(SUBTYPE_RGB24)),
        VideoFormat::Gray => Some(subtype_guid(SUBTYPE_Y800)),
        VideoFormat::UYVY => Some(subtype_guid(SUBTYPE_UYVY)),
        VideoFormat::H264 => None,
    }
}

/// Every format with a media subtype GUID is read back from that GUID.
pub proof fn lemma_guid_round_trip(format: VideoFormat, guid: MfGuid)
    requires
        spec_format_subtype(format) matches Some(code) && spec_is_subtype(guid, code),
    ensures
        spec_subtype_format(guid.data1) == Some(format),
{
}

/// Size of a locked 2D buffer whose rows are `pitch` bytes apart: NV12 has
/// `height + ceil(height / 2)` rows of `width` bytes, packed formats
/// `height` rows of `width` times 2 (4:2:2), 3 (RGB) or 1 (gray) bytes.
pub open spec fn spec_two_dimensional(format: VideoFormat, w: int, h: int) -> Option<(int, int)> {
    match format {
        VideoFormat::NV12 => Some((h + (h + 1) / 2, w)),
        VideoFormat::YUYV | VideoFormat::UYVY => Some((h, 2 * w)),
        VideoFormat::RGB => Some((h, 3 * w)),
        VideoFormat::Gray => Some((h, w)),
        _ => None,
    }
}

/// Byte length of a locked 2D buffer: `(rows - 1) * pitch` plus the last
/// row. Fails for a compressed format, an empty image, a pitch shorter than
/// a row, or a size that overflows.
pub fn two_dimensional_length(config: &CameraConfig, pitch: usize) -> (r: CameraResult<usize>)
    ensures
        match spec_two_dimensional(config.format, config.width as int, config.height as int) {
            None => r matches Err(e) && e is UnsupportedFormat,
            Some((rows, last)) => if rows == 0 || last == 0 || pitch < last || last > usize::MAX {
                r matches Err(e) && e is InvalidFormat
            } else if (rows - 1) * pitch + last > usize::MAX {
                r matches Err(e) && e is InvalidFormat
            } else {
                r == Ok::<usize, CameraError>(((rows - 1) * pitch + last) as usize)
            },
        },
{
    let w = config.width as u64;
    let h = config.height as u64;
    let (rows, last): (u64, u64) = match config.format {
        VideoFormat::NV12 => (h + (h + 1) / 2, w),
        VideoFormat::YUYV | VideoFormat::UYVY => (h, 2 * w),
        VideoFormat::RGB => (h, 3 * w),
        VideoFormat::Gray => (h, w),
        _ => return Err(CameraError::UnsupportedFormat(String::from_str("Unsupported Media Foundation 2D buffer format"))),
    };
    if rows == 0 || last == 0 || (pitch as u64) < last {
        return Err(CameraError::InvalidFormat(String::from_str("Invalid Media Foundation 2D pitch")));
    }
    proof {
        assert((rows - 1) * (pitch as u64) <= 0x1_0000_0000u128 * 2 * 0x1_0000_0000_0000_0000u128) by (nonlinear_arith)
            requires
                rows - 1 < 0x1_0000_0000u128 * 2,
                (pitch as u64) < 0x1_0000_0000_0000_0000u128,
        ;
    }
    let total: u128 = (rows as u128 - 1) * (pitch as u128) + last as u128;
    if total > usize::MAX as u128 {
        return Err(CameraError::InvalidFormat(String::from_str("Media Foundation 2D buffer size overflow")));
    }
    Ok(total as usize)
}

/// Bytes per pixel of a packed format that a locked buffer holds.
pub open spec fn spec_mf_pixel_bytes(format: VideoFormat) -> Option<int> {
    match format {
        VideoFormat::YUYV | VideoFormat::UYVY => Some(2),
        VideoFormat::RGB => Some(3),
        VideoFormat::Gray => Some(1),
        _ => None,
    }
}

pub open spec fn spec_abs_i32(x: i32) -> int {
    if x < 0 { -(x as int) } else { x as int }
}

/// Why a locked buffer cannot be decoded into RGB here: MJPEG and H.264 go
/// to a decoder; an NV12 buffer needs a positive stride, a whole luma plane
/// and a chroma plane that fits; packed rows must be as wide as the image,
/// hold whole 4:2:2 pairs, and fit in the buffer.
pub open spec fn spec_mf_failure(format: VideoFormat, data_len: int, w: int, h: int, stride: i32) -> Option<CameraErrorKind> {
    if format == VideoFormat::NV12 {
        if stride <= 0 || stride * h > data_len || !spec_yuv420sp_fits(stride * h, data_len - stride * h, w, h, stride as int, stride as int, w * h * 3) {
            Some(CameraErrorKind::InvalidFormat)
        } else {
            None
        }
    } else {
        match spec_mf_pixel_bytes(format) {
            None => Some(CameraErrorKind::UnsupportedFormat),
            Some(b) => {
                let pitch = spec_abs_i32(stride);
                if pitch < w * b || (b == 2 && w % 2 == 1) || (h > 0 && (h - 1) * pitch + w * b > data_len) {
                    Some(CameraErrorKind::InvalidFormat)
                } else {
                    None
                }
            },
        }
    }
}

/// Row of the buffer that output row `r` comes from: rows run bottom-up when
/// the stride is negative.
pub open spec fn spec_mf_source_row(r: int, h: int, stride: i32) -> int {
    if stride < 0 { h - 1 - r } else { r }
}

/// Output byte `j` of the RGB image of a packed locked buffer. RGB24 buffers
/// hold blue, green, red; 4:2:2 uses full-range BT.601.
pub open spec fn spec_mf_packed_byte(format: VideoFormat, data: Seq<u8>, w: int, h: int, stride: i32, j: int) -> u8 {
    let c = spec_col(j, w);
    let base = spec_mf_source_row(spec_row(j, w), h, stride) * spec_abs_i32(stride);
    match format {
        VideoFormat::RGB => data[base + 3 * c + (2 - j % 3)],
        VideoFormat::Gray => data[base + c],
        _ => {
            let m = base + (c / 2) * 4;
            let odd = c % 2;
            let uyvy = format == VideoFormat::UYVY;
            let y = if uyvy { data[m + 1 + 2 * odd] } else { data[m + 2 * odd] };
            let u = if uyvy { data[m] } else { data[m + 1] };
            let v = if uyvy { data[m + 2] } else { data[m + 3] };
            spec_yuv_channel(bt601_full_spec(), y, u, v, j % 3)
        },
    }
}

/// Output byte `j` of the RGB image of a locked buffer.
pub open spec fn spec_mf_byte(format: VideoFormat, data: Seq<u8>, w: int, h: int, stride: i32, j: int) -> u8 {
    if format == VideoFormat::NV12 {
        spec_semiplanar_byte(data.subrange(0, stride * h), stride as int, data.subrange(stride * h, data.len() as int), stride as int, w, false, bt601_full_spec(), j)
    } else {
        spec_mf_packed_byte(format, data, w, h, stride, j)
    }
}

proof fn lemma_pixel(p: int, k: int, w: int, h: int)
    requires
        0 <= p < w * h,
        0 <= k < 3,
        w > 0,
    ensures
        spec_row(3 * p + k, w) == p / w,
        spec_col(3 * p + k, w) == p % w,
        (3 * p + k) % 3 == k,
        0 <= p / w < h,
        0 <= p % w < w,
{
    crate::convert::lemma_decode(p, k, w, h);
}

fn mf_packed_rows(
    format: VideoFormat,
    data: &[u8],
    w: usize,
    h: usize,
    stride: i32,
    pitch: usize,
    rgb: &mut [u8],
)
    requires
        w > 0,
        format == VideoFormat::RGB || format == VideoFormat::Gray || format == VideoFormat::YUYV || format == VideoFormat::UYVY,
        (format == VideoFormat::YUYV || format == VideoFormat::UYVY) ==> w % 2 == 0,
        pitch == spec_abs_i32(stride),
        old(rgb)@.len() == w * h * 3,
        h > 0,
        (h - 1) * pitch + w * spec_mf_pixel_bytes(format).unwrap() <= data@.len(),
        pitch >= w * spec_mf_pixel_bytes(format).unwrap(),
    ensures
        final(rgb)@.len() == old(rgb)@.len(),
        forall|j: int| 0 <= j < w * h * 3 ==> final(rgb)@[j] == spec_mf_packed_byte(format, data@, w as int, h as int, stride, j),
{
    let c = bt601_full_coefficients();
    let _out = rgb.len();
    proof {
        assert(w * h <= w * h * 3) by (nonlinear_arith)
            requires
                w > 0,
                h > 0,
        ;
    }
    let total = w * h;
    let bpp: usize = match format {
        VideoFormat::RGB => 3,
        VideoFormat::Gray => 1,
        _ => 2,
    };
    let mut p: usize = 0;
    while p < total
        invariant
            w > 0,
            h > 0,
            total == w * h,
            format == VideoFormat::RGB || format == VideoFormat::Gray || format == VideoFormat::YUYV || format == VideoFormat::UYVY,
            (format == VideoFormat::YUYV || format == VideoFormat::UYVY) ==> w % 2 == 0,
            bpp == spec_mf_pixel_bytes(format).unwrap(),
            pitch == spec_abs_i32(stride),
            pitch >= w * bpp,
            (h - 1) * pitch + w * bpp <= data@.len(),
            c == bt601_full_spec(),
            c.wf(),
            rgb@.len() == w * h * 3,
            w * h * 3 <= usize::MAX,
            p <= total,
            forall|j: int| 0 <= j < 3 * p ==> rgb@[j] == spec_mf_packed_byte(format, data@, w as int, h as int, stride, j),
        decreases total - p,
    {
        let r = p / w;
        let col = p % w;
        let _len = data.len();
        proof {
            lemma_pixel(p as int, 0, w as int, h as int);
            lemma_pixel(p as int, 1, w as int, h as int);
            lemma_pixel(p as int, 2, w as int, h as int);
        }
        let source_row = if stride < 0 { h - 1 - r } else { r };
        proof {
            let last_byte: int = if bpp == 2 { (col as int / 2) * 4 + 3 } else { bpp * col + bpp - 1 };
            assert(0 <= last_byte < bpp * w) by (nonlinear_arith)
                requires
                    col < w,
                    bpp == 1 || bpp == 3 || (bpp == 2 && w % 2 == 0),
                    last_byte == (if bpp == 2 { (col as int / 2) * 4 + 3 } else { bpp * col + bpp - 1 }),
            ;
            crate::convert::lemma_row_offset(source_row as int, h as int, pitch as int, last_byte, (bpp * w) as int, data@.len() as int);
        }
        let base = source_row * pitch;
        let out = 3 * p;
        match format {
            VideoFormat::RGB => {
                rgb[out] = data[base + 3 * col + 2];
                rgb[out + 1] = data[base + 3 * col + 1];
                rgb[out + 2] = data[base + 3 * col];
            },
            VideoFormat::Gray => {
                let g = data[base + col];
                rgb[out] = g;
                rgb[out + 1] = g;
                rgb[out + 2] = g;
            },
            _ => {
                let m = base + (col / 2) * 4;
                let odd = col % 2;
                let (y, u, v) = if format == VideoFormat::UYVY {
                    (data[m + 1 + 2 * odd], data[m], data[m + 2])
                } else {
                    (data[m + 2 * odd], data[m + 1], data[m + 3])
                };
                let (red, green, blue) = yuv_to_rgb(&c, y, u, v);
                rgb[out] = red;
                rgb[out + 1] = green;
                rgb[out + 2] = blue;
            },
        }
        p = p + 1;
    }
}

/// Decodes a locked Media Foundation buffer of a `config`-shaped frame
/// into tightly packed RGB. A negative `stride` means bottom-up rows. MJPEG
/// and H.264 are left to a decoder (`UnsupportedFormat`).
pub fn decode_into(data: &[u8], config: &CameraConfig, stride: i32, rgb: &mut [u8]) -> (r: CameraResult<()>)
    requires
        config.width > 0,
        old(rgb)@.len() == config.width * config.height * 3,
    ensures
        final(rgb)@.len() == old(rgb)@.len(),
        r is Ok <==> spec_mf_failure(config.format, data@.len() as int, config.width as int, config.height as int, stride) is None,
        r matches Err(e) ==> Some(spec_error_kind(e)) == spec_mf_failure(config.format, data@.len() as int, config.width as int, config.height as int, stride)
            && final(rgb)@ == old(rgb)@,
        r is Ok ==> forall|j: int| 0 <= j < config.width * config.height * 3 ==> final(rgb)@[j] == spec_mf_byte(config.format, data@, config.width as int, config.height as int, stride, j),
{
    let w = config.width as usize;
    let h = config.height as usize;
    let rgb_len = rgb.len();
    if config.format == VideoFormat::NV12 {
        if stride <= 0 {
            return Err(CameraError::InvalidFormat(String::from_str("Media Foundation NV12 stride must be positive")));
        }
        let y_length = match (stride as usize).checked_mul(h) {
            Some(n) => n,
            None => {
                let _len = data.len();
                proof {
                    assert((stride as usize) as int == stride as int);
                    assert(stride * h > data@.len());
                }
                return Err(CameraError::InvalidFormat(String::from_str("Truncated Media Foundation NV12 frame")));
            },
        };
        if y_length > data.len() {
            return Err(CameraError::InvalidFormat(String::from_str("Truncated Media Foundation NV12 frame")));
        }
        let y = vstd::slice::slice_subrange(data, 0, y_length);
        let uv = vstd::slice::slice_subrange(data, y_length, data.len());
        return yuv420sp_to_rgb_into(y, uv, w, h, stride as usize, stride as usize, rgb);
    }
    let pixel_bytes: u64 = match config.format {
        VideoFormat::YUYV | VideoFormat::UYVY => 2,
        VideoFormat::RGB => 3,
        VideoFormat::Gray => 1,
        _ => return Err(CameraError::UnsupportedFormat(String::from_str("Media Foundation buffer needs a decoder"))),
    };
    let row_bytes: u64 = config.width as u64 * pixel_bytes;
    let pitch: usize = if stride < 0 {
        proof {
            assert(-(stride as int) <= 0x8000_0000);
        }
        (-(stride as i64)) as usize
    } else {
        stride as usize
    };
    if (pitch as u64) < row_bytes || (pixel_bytes == 2 && config.width % 2 == 1) {
        return Err(CameraError::InvalidFormat(String::from_str("Media Foundation stride shorter than a row")));
    }
    if h == 0 {
        proof {
            assert(config.width * config.height * 3 == 0) by (nonlinear_arith)
                requires
                    config.height == 0,
            ;
        }
        return Ok(());
    }
    let rows_before: u128 = h as u128 - 1;
    proof {
        assert(rows_before * (pitch as u128) <= 0x1_0000_0000u128 * 0x1_0000_0000u128) by (nonlinear_arith)
            requires
                rows_before < 0x1_0000_0000u128,
                (pitch as u128) <= 0x8000_0000u128,
        ;
    }
    let needed: u128 = rows_before * (pitch as u128) + row_bytes as u128;
    if needed > data.len() as u128 {
        return Err(CameraError::InvalidFormat(String::from_str("Truncated Media Foundation row")));
    }
    mf_packed_rows(config.format, data, w, h, stride, pitch, rgb);
    Ok(())
}

/// `VideoProcAmpProperty` values of DirectShow.
pub const VIDEO_PROC_AMP_BRIGHTNESS: i32 = 0;
pub const VIDEO_PROC_AMP_CONTRAST: i32 = 1;
pub const VIDEO_PROC_AMP_HUE: i32 = 2;
pub const VIDEO_PROC_AMP_SATURATION: i32 = 3;
pub const VIDEO_PROC_AMP_SHARPNESS: i32 = 4;
pub const VIDEO_PROC_AMP_GAMMA: i32 = 5;
pub const VIDEO_PROC_AMP_WHITE_BALANCE: i32 = 7;
pub const VIDEO_PROC_AMP_BACKLIGHT_COMPENSATION: i32 = 8;
pub const VIDEO_PROC_AMP_GAIN: i32 = 9;

/// `CameraControlProperty` values of DirectShow.
pub const CAMERA_CONTROL_PAN: i32 = 0;
pub const CAMERA_CONTROL_TILT: i32 = 1;
pub const CAMERA_CONTROL_ZOOM: i32 = 3;
pub const CAMERA_CONTROL_EXPOSURE: i32 = 4;
pub const CAMERA_CONTROL_IRIS: i32 = 5;
pub const CAMERA_CONTROL_FOCUS: i32 = 6;

/// The DirectShow interface and property that carry a control.
#[derive(Clone, Copy, Debug, PartialEq, Eq, Structural)]
pub enum MFControlId {
    /// Boolean `IAMVideoProcAmp` property.
    ProcAmpBoolean(i32),
    /// Ranged `IAMVideoProcAmp` property.
    ProcAmpRange(i32),
    /// Value `IAMCameraControl` property.
    CameraControlValue(i32),
    /// Ranged `IAMCameraControl` property.
    CameraControlRange(i32),
}

pub open spec fn spec_mf_control_id(control: CameraControlType) -> Option<MFControlId> {
    match control {
        CameraControlType::Brightness => Some(MFControlId::ProcAmpRange(VIDEO_PROC_AMP_BRIGHTNESS)),
        CameraControlType::Contrast => Some(MFControlId::ProcAmpRange(VIDEO_PROC_AMP_CONTRAST)),
        CameraControlType::Hue => Some(MFControlId::ProcAmpRange(VIDEO_PROC_AMP_HUE)),
        CameraControlType::Saturation => Some(MFControlId::ProcAmpRange(VIDEO_PROC_AMP_SATURATION)),
        CameraControlType::Sharpness => Some(MFControlId::ProcAmpRange(VIDEO_PROC_AMP_SHARPNESS)),
        CameraControlType::Gamma => Some(MFControlId::ProcAmpRange(VIDEO_PROC_AMP_GAMMA)),
        CameraControlType::WhiteBalance => Some(MFControlId::ProcAmpRange(VIDEO_PROC_AMP_WHITE_BALANCE)),
        CameraControlType::BacklightCompensation => Some(MFControlId::ProcAmpBoolean(VIDEO_PROC_AMP_BACKLIGHT_COMPENSATION)),
        CameraControlType::Gain => Some(MFControlId::ProcAmpRange(VIDEO_PROC_AMP_GAIN)),
        CameraControlType::Pan => Some(MFControlId::CameraControlRange(CAMERA_CONTROL_PAN)),
        CameraControlType::Tilt => Some(MFControlId::CameraControlRange(CAMERA_CONTROL_TILT)),
        CameraControlType::Zoom => Some(MFControlId::CameraControlRange(CAMERA_CONTROL_ZOOM)),
        CameraControlType::Exposure => Some(MFControlId::CameraControlValue(CAMERA_CONTROL_EXPOSURE)),
        CameraControlType::Iris => Some(MFControlId::CameraControlValue(CAMERA_CONTROL_IRIS)),
        CameraControlType::Focus => Some(MFControlId::CameraControlValue(CAMERA_CONTROL_FOCUS)),
        CameraControlType::AutoExposure => None,
        CameraControlType::AutoFocus => None,
        CameraControlType::AutoWhiteBalance => None,
    }
}

/// The DirectShow property of a control; automatic switches have none, they
/// are flags on the property of the control they govern.
pub fn control_type_to_mf_id(control: CameraControlType) -> (r: Option<MFControlId>)
    ensures
        r == spec_mf_control_id(control),
{
    match control {
        CameraControlType::Brightness => Some(MFControlId::ProcAmpRange(VIDEO_PROC_AMP_BRIGHTNESS)),
        CameraControlType::Contrast => Some(MFControlId::ProcAmpRange(VIDEO_PROC_AMP_CONTRAST)),
        CameraControlType::Hue => Some(MFControlId::ProcAmpRange(VIDEO_PROC_AMP_HUE)),
        CameraControlType::Saturation => Some(MFControlId::ProcAmpRange(VIDEO_PROC_AMP_SATURATION)),
        CameraControlType::Sharpness => Some(MFControlId::ProcAmpRange(VIDEO_PROC_AMP_SHARPNESS)),
        CameraControlType::Gamma => Some(MFControlId::ProcAmpRange(VIDEO_PROC_AMP_GAMMA)),
        CameraControlType::WhiteBalance => Some(MFControlId::ProcAmpRange(VIDEO_PROC_AMP_WHITE_BALANCE)),
        CameraControlType::BacklightCompensation => Some(MFControlId::ProcAmpBoolean(VIDEO_PROC_AMP_BACKLIGHT_COMPENSATION)),
        CameraControlType::Gain => Some(MFControlId::ProcAmpRange(VIDEO_PROC_AMP_GAIN)),
        CameraControlType::Pan => Some(MFControlId::CameraControlRange(CAMERA_CONTROL_PAN)),
        CameraControlType::Tilt => Some(MFControlId::CameraControlRange(CAMERA_CONTROL_TILT)),
        CameraControlType::Zoom => Some(MFControlId::CameraControlRange(CAMERA_CONTROL_ZOOM)),
        CameraControlType::Exposure => Some(MFControlId::CameraControlValue(CAMERA_CONTROL_EXPOSURE)),
        CameraControlType::Iris => Some(MFControlId::CameraControlValue(CAMERA_CONTROL_IRIS)),
        CameraControlType::Focus => Some(MFControlId::CameraControlValue(CAMERA_CONTROL_FOCUS)),
        CameraControlType::AutoExposure => None,
        CameraControlType::AutoFocus => None,
        CameraControlType::AutoWhiteBalance => None,
    }
}

/// Every manual control has a DirectShow property, and every automatic switch
/// governs a control that has one.
pub proof fn lemma_mf_controls_addressable(control: CameraControlType)
    ensures
        spec_mf_control_id(control) is Some <==> crate::controls::spec_automatic_base(control) is None,
        crate::controls::spec_automatic_base(control) matches Some(base) ==> spec_mf_control_id(base) is Some,
{
}

/// The capture format a subtype GUID names, as `guid_to_format` reads it.
pub open spec fn spec_guid_format(g: MfGuid) -> Option<VideoFormat> {
    if g.data2 == 0 && g.data3 == 0x0010 && g.data4@ == spec_subtype_tail() {
        spec_subtype_format(g.data1)
    } else {
        None
    }
}

/// The attributes of a native media type that capture reads: subtype,
/// frame size (`width << 32 | height`) and frame rates (`numerator << 32 |
/// denominator`), each where the media type carries it.
#[derive(Clone, Copy, Debug)]
pub struct MfMediaType {
    pub subtype: Option<MfGuid>,
    pub frame_size: Option<u64>,
    pub frame_rate: Option<u64>,
    pub frame_rate_max: Option<u64>,
    pub frame_rate_min: Option<u64>,
}

/// High and low 32-bit halves of a packed attribute.
pub open spec fn spec_high(raw: u64) -> u32 {
    (raw / 0x1_0000_0000) as u32
}

pub open spec fn spec_low(raw: u64) -> u32 {
    (raw % 0x1_0000_0000) as u32
}

fn unpack(raw: u64) -> (r: (u32, u32))
    ensures
        r == (spec_high(raw), spec_low(raw)),
{
    let high = (raw >> 32u64) as u32;
    let low = (raw & 0xffff_ffffu64) as u32;
    proof {
        assert(raw >> 32u64 == raw / 0x1_0000_0000) by (bit_vector);
        assert(raw & 0xffff_ffffu64 == raw % 0x1_0000_0000) by (bit_vector);
    }
    (high, low)
}

/// Adds the rate a packed attribute holds, in lowest terms, unless it is
/// absent, has a zero term or is already listed.
pub open spec fn spec_add_rate(rates: Seq<(nat, nat)>, raw: Option<u64>) -> Seq<(nat, nat)> {
    match raw {
        None => rates,
        Some(r) => if spec_high(r) == 0 || spec_low(r) == 0 {
            rates
        } else {
            let p = FrameRate::spec_reduced(spec_high(r) as nat, spec_low(r) as nat);
            if rates.contains(p) {
                rates
            } else {
                rates.push(p)
            }
        },
    }
}

/// The rates of a media type, as terms in lowest form: its frame rate, then
/// the maximum and the minimum of its range, each once.
pub open spec fn spec_media_rates(mt: MfMediaType) -> Seq<(nat, nat)> {
    spec_add_rate(spec_add_rate(spec_add_rate(Seq::empty(), mt.frame_rate), mt.frame_rate_max), mt.frame_rate_min)
}

pub open spec fn spec_rate_terms(rates: Seq<FrameRate>) -> Seq<(nat, nat)> {
    rates.map_values(|r: FrameRate| (r.num(), r.den()))
}

fn add_rate(rates: &mut Vec<FrameRate>, raw: Option<u64>)
    ensures
        spec_rate_terms(final(rates)@) == spec_add_rate(spec_rate_terms(old(rates)@), raw),
{
    let r = match raw {
        None => return,
        Some(r) => r,
    };
    let (high, low) = unpack(r);
    let rate = match FrameRate::new(high, low) {
        Ok(rate) => rate,
        Err(_) => return,
    };
    let ghost terms = spec_rate_terms(rates@);
    proof {
        assert((rate.num(), rate.den()) == FrameRate::spec_reduced(spec_high(r) as nat, spec_low(r) as nat));
    }
    let mut k: usize = 0;
    while k < rates.len()
        invariant
            k <= rates@.len(),
            rates@ == old(rates)@,
            terms == spec_rate_terms(rates@),
            (rate.num(), rate.den()) == FrameRate::spec_reduced(spec_high(r) as nat, spec_low(r) as nat),
            spec_high(r) != 0 && spec_low(r) != 0,
            raw == Some(r),
            forall|t: int| 0 <= t < k ==> terms[t] != (rate.num(), rate.den()),
        decreases rates@.len() - k,
    {
        if rates[k] == rate {
            proof {
                assert(terms[k as int] == (rate.num(), rate.den()));
                assert(terms.contains((rate.num(), rate.den())));
                assert(spec_rate_terms(old(rates)@) == terms);
            }
            return;
        }
        proof {
            crate::rate::lemma_rate_eq(rates@[k as int], rate);
        }
        k = k + 1;
    }
    rates.push(rate);
    proof {
        assert(!terms.contains((rate.num(), rate.den())));
        assert(spec_rate_terms(rates@) =~= terms.push((rate.num(), rate.den())));
    }
}

/// The frame rates a media type offers: its frame rate, then the maximum
/// and the minimum of its range, each once.
pub fn media_type_frame_rates(mt: &MfMediaType) -> (rates: Vec<FrameRate>)
    ensures
        spec_rate_terms(rates@) == spec_media_rates(*mt),
{
    let mut rates: Vec<FrameRate> = Vec::new();
    proof {
        assert(spec_rate_terms(rates@) =~= Seq::<(nat, nat)>::empty());
    }
    add_rate(&mut rates, mt.frame_rate);
    add_rate(&mut rates, mt.frame_rate_max);
    add_rate(&mut rates, mt.frame_rate_min);
    rates
}

/// The configurations a media type offers: one per rate, when it names a
/// capture format and a frame size.
pub open spec fn spec_media_configs(mt: MfMediaType) -> Seq<CameraConfig> {
    match (mt.subtype, mt.frame_size) {
        (Some(g), Some(size)) => match spec_guid_format(g) {
            Some(format) => spec_media_rates(mt).map_values(|p: (nat, nat)| CameraConfig {
                format,
                width: spec_high(size),
                height: spec_low(size),
                fps: p.0 as u32,
                fps_denominator: p.1 as u32,
            }),
            None => Seq::empty(),
        },
        _ => Seq::empty(),
    }
}

/// The configurations of media types, in order.
pub open spec fn spec_compatible_configs(types: Seq<MfMediaType>) -> Seq<CameraConfig>
    decreases types.len(),
{
    if types.len() == 0 {
        Seq::empty()
    } else {
        spec_compatible_configs(types.drop_last()) + spec_media_configs(types.last())
    }
}

/// The configurations a source's native media types offer, in order.
pub fn compatible_formats(types: &Vec<MfMediaType>) -> (configs: Vec<CameraConfig>)
    ensures
        configs@ == spec_compatible_configs(types@),
{
    let mut configs: Vec<CameraConfig> = Vec::new();
    let mut i: usize = 0;
    while i < types.len()
        invariant
            i <= types@.len(),
            configs@ == spec_compatible_configs(types@.subrange(0, i as int)),
        decreases types@.len() - i,
    {
        let mt = &types[i];
        let ghost start = configs@;
        proof {
            assert(types@.subrange(0, i + 1).drop_last() =~= types@.subrange(0, i as int));
            assert(types@.subrange(0, i + 1).last() == *mt);
        }
        match (mt.subtype, mt.frame_size) {
            (Some(g), Some(size)) => match guid_to_format(&g) {
                Some(format) => {
                    let (width, height) = unpack(size);
                    let rates = media_type_frame_rates(mt);
                    let mut k: usize = 0;
                    while k < rates.len()
                        invariant
                            k <= rates@.len(),
                            spec_rate_terms(rates@) == spec_media_rates(*mt),
                            configs@ == start + spec_media_configs(*mt).subrange(0, k as int),
                            spec_guid_format(g) == Some(format),
                            mt.subtype == Some(g) && mt.frame_size == Some(size),
                            width == spec_high(size) && height == spec_low(size),
                        decreases rates@.len() - k,
                    {
                        let rate = rates[k];
                        configs.push(CameraConfig::new(format, width, height, rate.numerator()).with_frame_rate(rate));
                        proof {
                            assert(spec_rate_terms(rates@)[k as int] == (rate.num(), rate.den()));
                            assert(configs@ =~= start + spec_media_configs(*mt).subrange(0, k + 1));
                        }
                        k = k + 1;
                    }
                    proof {
                        assert(spec_media_configs(*mt).subrange(0, k as int) =~= spec_media_configs(*mt));
                    }
                },
                None => {
                    proof {
                        assert(configs@ =~= start + spec_media_configs(*mt));
                    }
                },
            },
            _ => {
                proof {
                    assert(configs@ =~= start + spec_media_configs(*mt));
                }
            },
        }
        i = i + 1;
    }
    proof {
        assert(types@.subrange(0, i as int) =~= types@);
    }
    configs
}

/// A media type has the subtype `code` and the size `width` x `height`.
pub open spec fn spec_media_type_fits(mt: MfMediaType, code: u32, width: u32, height: u32) -> bool {
    &&& mt.subtype matches Some(g) && spec_is_subtype(g, code)
    &&& mt.frame_size matches Some(size) && spec_high(size) == width && spec_low(size) == height
}

/// A media type can carry a configuration: its subtype and size, and its
/// rates include the configuration's rate in lowest terms.
pub open spec fn spec_media_type_matches(mt: MfMediaType, code: u32, config: CameraConfig) -> bool {
    spec_media_type_fits(mt, code, config.width, config.height)
        && spec_media_rates(mt).contains(FrameRate::spec_reduced(config.fps as nat, config.fps_denominator as nat))
}

fn offers_rate(mt: &MfMediaType, rate: FrameRate) -> (r: bool)
    ensures
        r == spec_media_rates(*mt).contains((rate.num(), rate.den())),
{
    let rates = media_type_frame_rates(mt);
    let ghost terms = spec_rate_terms(rates@);
    let mut k: usize = 0;
    while k < rates.len()
        invariant
            k <= rates@.len(),
            terms == spec_rate_terms(rates@),
            terms == spec_media_rates(*mt),
            forall|t: int| 0 <= t < k ==> terms[t] != (rate.num(), rate.den()),
        decreases rates@.len() - k,
    {
        if rates[k] == rate {
            proof {
                assert(terms[k as int] == (rate.num(), rate.den()));
            }
            return true;
        }
        proof {
            crate::rate::lemma_rate_eq(rates@[k as int], rate);
        }
        k = k + 1;
    }
    false
}

/// One of the media types has the subtype `code` and the size `width` x
/// `height`.
pub open spec fn spec_any_fits(types: Seq<MfMediaType>, code: u32, width: u32, height: u32) -> bool {
    exists|i: int| 0 <= i < types.len() && #[trigger] spec_media_type_fits(types[i], code, width, height)
}

/// The native media types that can carry a configuration, in order; a
/// source tries them until one is accepted. `UnsupportedFormat` for a format
/// without a media subtype, and `InvalidConfig` for a zero rate once a media
/// type of the right subtype and size is found.
pub fn matching_media_types(types: &Vec<MfMediaType>, config: &CameraConfig) -> (r: CameraResult<Vec<usize>>)
    ensures
        match spec_format_subtype(config.format) {
            None => r matches Err(e) && e is UnsupportedFormat,
            Some(code) => if spec_any_fits(types@, code, config.width, config.height)
                && (config.fps == 0 || config.fps_denominator == 0) {
                r matches Err(e) && e is InvalidConfig
            } else {
                r matches Ok(v) && (forall|a: int, b: int| 0 <= a < b < v@.len() ==> v@[a] < v@[b])
                    && (forall|a: int| 0 <= a < v@.len() ==> v@[a] < types@.len())
                    && forall|i: int| 0 <= i < types@.len() ==> (v@.contains(i as usize)
                        <==> #[trigger] spec_media_type_matches(types@[i], code, *config))
            },
        },
{
    let target = match format_to_guid(config.format) {
        Some(g) => g,
        None => return Err(CameraError::UnsupportedFormat(String::from_str("Media Foundation has no subtype for this format"))),
    };
    let code = target.data1;
    let mut found: Vec<usize> = Vec::new();
    let mut i: usize = 0;
    while i < types.len()
        invariant
            i <= types@.len(),
            spec_format_subtype(config.format) == Some(code),
            config.fps == 0 || config.fps_denominator == 0 ==> forall|t: int| 0 <= t < i ==> !#[trigger] spec_media_type_fits(types@[t], code, config.width, config.height),
            forall|a: int, b: int| 0 <= a < b < found@.len() ==> found@[a] < found@[b],
            forall|a: int| 0 <= a < found@.len() ==> found@[a] < i,
            forall|t: int| 0 <= t < i ==> (found@.contains(t as usize) <==> #[trigger] spec_media_type_matches(types@[t], code, *config)),
        decreases types@.len() - i,
    {
        let mt = &types[i];
        let fits = match (mt.subtype, mt.frame_size) {
            (Some(g), Some(size)) => {
                let (width, height) = unpack(size);
                has_subtype_tail(&g) && g.data1 == code && width == config.width && height == config.height
            },
            _ => false,
        };
        proof {
            assert(fits == spec_media_type_fits(types@[i as int], code, config.width, config.height));
        }
        let ghost before = found@;
        let mut pushed = false;
        if fits {
            if config.fps == 0 || config.fps_denominator == 0 {
                proof {
                    assert(spec_media_type_fits(types@[i as int], code, config.width, config.height));
                    assert(spec_any_fits(types@, code, config.width, config.height));
                }
                return Err(CameraError::InvalidConfig(String::from_str("Frame rate must be positive")));
            }
            let wanted = match config.frame_rate() {
                Ok(x) => x,
                Err(e) => return Err(e),
            };
            if offers_rate(mt, wanted) {
                found.push(i);
                pushed = true;
            }
        }
        proof {
            assert(pushed == spec_media_type_matches(types@[i as int], code, *config));
            if pushed {
                assert(found@ == before.push(i));
            } else {
                assert(found@ == before);
            }
            assert forall|t: int| 0 <= t < i + 1 implies (found@.contains(t as usize) <==> #[trigger] spec_media_type_matches(types@[t], code, *config)) by {
                if t < i {
                    assert(before.contains(t as usize) <==> spec_media_type_matches(types@[t], code, *config));
                    if pushed {
                        if found@.contains(t as usize) {
                            let a = choose|a: int| 0 <= a < found@.len() && found@[a] == t as usize;
                            assert(a < before.len());
                            assert(before[a] == t as usize);
                        }
                        if before.contains(t as usize) {
                            let a = choose|a: int| 0 <= a < before.len() && before[a] == t as usize;
                            assert(found@[a] == t as usize);
                        }
                    }
                } else {
                    if pushed {
                        assert(found@[found@.len() - 1] == i);
                    } else if found@.contains(i as usize) {
                        let a = choose|a: int| 0 <= a < found@.len() && found@[a] == i as usize;
                        assert(before[a] < i);
                    }
                }
            }
        }
        i = i + 1;
    }
    Ok(found)
}

/// The packed frame-rate attribute of a configuration:
/// `fps << 32 | denominator`.
pub fn packed_frame_rate(config: &CameraConfig) -> (raw: u64)
    ensures
        spec_high(raw) == config.fps && spec_low(raw) == config.fps_denominator,
{
    let raw = ((config.fps as u64) << 32u64) | config.fps_denominator as u64;
    proof {
        let f = config.fps as u64;
        let d = config.fps_denominator as u64;
        assert(((f << 32u64) | d) / 0x1_0000_0000 == f && ((f << 32u64) | d) % 0x1_0000_0000 == d) by (bit_vector)
            requires
                f < 0x1_0000_0000,
                d < 0x1_0000_0000,
        ;
    }
    raw
}

/// Bytes per pixel of a format's first plane, as a default row stride
/// counts them.
pub open spec fn spec_pixel_bytes(format: VideoFormat) -> u32 {
    match format {
        VideoFormat::YUYV | VideoFormat::UYVY => 2,
        VideoFormat::RGB => 3,
        _ => 1,
    }
}

/// The configuration and signed row stride of a source's current media
/// type, from its subtype, packed size and frame rate, and its default
/// stride where it has one (else `width` times the bytes per pixel; a
/// negative stride means bottom-up rows). `UnsupportedFormat` for an unknown
/// subtype, `InvalidConfig` for a rate with a zero term.
pub fn current_format(subtype: &MfGuid, size: u64, rate: u64, default_stride: Option<u32>) -> (r: CameraResult<(CameraConfig, i32)>)
    requires
        default_stride is None ==> spec_high(size) * spec_pixel_bytes(spec_guid_format(*subtype).unwrap_or(VideoFormat::MJPEG)) <= u32::MAX,
    ensures
        match spec_guid_format(*subtype) {
            None => r matches Err(e) && e is UnsupportedFormat,
            Some(format) => if spec_high(rate) == 0 || spec_low(rate) == 0 {
                r matches Err(e) && e is InvalidConfig
            } else {
                r matches Ok((config, stride)) && config.format == format && config.width == spec_high(size)
                    && config.height == spec_low(size) && (config.fps as nat, config.fps_denominator as nat)
                    == FrameRate::spec_reduced(spec_high(rate) as nat, spec_low(rate) as nat)
                    && stride == (match default_stride {
                        Some(s) => s,
                        None => (spec_high(size) * spec_pixel_bytes(format)) as u32,
                    }) as i32
            },
        },
{
    let format = match guid_to_format(subtype) {
        Some(f) => f,
        None => return Err(CameraError::UnsupportedFormat(String::from_str("MF subtype"))),
    };
    let (width, height) = unpack(size);
    let (numerator, denominator) = unpack(rate);
    let frame_rate = match FrameRate::new(numerator, denominator) {
        Ok(r) => r,
        Err(e) => return Err(e),
    };
    let pixel_bytes: u32 = match format {
        VideoFormat::YUYV | VideoFormat::UYVY => 2,
        VideoFormat::RGB => 3,
        _ => 1,
    };
    let stride = match default_stride {
        Some(s) => s,
        None => width * pixel_bytes,
    };
    let config = CameraConfig {
        format,
        width,
        height,
        fps: frame_rate.numerator(),
        fps_denominator: frame_rate.denominator(),
    };
    Ok((config, stride as i32))
}

/// Sample times of Media Foundation count 100 ns units: the time in
/// nanoseconds, when it fits.
pub fn sample_time_ns(time: i64) -> (r: Option<i64>)
    ensures
        match r {
            Some(ns) => ns == time * 100,
            None => time * 100 > i64::MAX || time * 100 < i64::MIN,
        },
{
    time.checked_mul(100)
}

/// How a buffer of a negotiated format is delivered untouched; Media
/// Foundation's 24-bit RGB is stored blue first.
pub open spec fn spec_mf_native_format(format: VideoFormat) -> Option<PixelFormat> {
    match format {
        VideoFormat::MJPEG => Some(PixelFormat::Mjpeg),
        VideoFormat::YUYV => Some(PixelFormat::Yuyv),
        VideoFormat::UYVY => Some(PixelFormat::Uyvy),
        VideoFormat::NV12 => Some(PixelFormat::Nv12),
        VideoFormat::RGB => Some(PixelFormat::Bgr8),
        VideoFormat::Gray => Some(PixelFormat::Gray8),
        VideoFormat::H264 => None,
    }
}

/// The absolute value of a row stride.
pub open spec fn spec_stride_bytes(stride: i32) -> usize {
    if stride < 0 { (-stride) as usize } else { stride as usize }
}

/// Describes a locked buffer of `data_len` bytes without conversion: one
/// plane at the stride's size, bottom-up for a negative stride; NV12 splits
/// into the luma rows and the interleaved chroma after them. `UnsupportedFormat`
/// for H.264; `InvalidFormat` when the NV12 luma rows leave no chroma.
pub fn mf_native_layout(config: &CameraConfig, stride: i32, data_len: usize) -> (r: CameraResult<FrameLayout>)
    ensures
        match spec_mf_native_format(config.format) {
            None => r matches Err(e) && e is UnsupportedFormat,
            Some(format) => {
                let row = spec_stride_bytes(stride);
                let y_len = row * config.height;
                if format == PixelFormat::Nv12 && y_len >= data_len {
                    r matches Err(e) && e is InvalidFormat
                } else {
                    r matches Ok(layout) && layout.width == config.width && layout.height == config.height
                        && layout.format == format && layout.bottom_up == (stride < 0)
                        && layout.planes@ == (if format == PixelFormat::Nv12 {
                            seq![
                                PlaneLayout { offset: 0, length: y_len as usize, row_stride: row, pixel_stride: 1 },
                                PlaneLayout { offset: y_len as usize, length: (data_len - y_len) as usize, row_stride: row, pixel_stride: 2 },
                            ]
                        } else {
                            seq![PlaneLayout { offset: 0, length: data_len, row_stride: row, pixel_stride: spec_pixel_stride(format) }]
                        })
                }
            },
        },
{
    let format = match config.format {
        VideoFormat::MJPEG => PixelFormat::Mjpeg,
        VideoFormat::YUYV => PixelFormat::Yuyv,
        VideoFormat::UYVY => PixelFormat::Uyvy,
        VideoFormat::NV12 => PixelFormat::Nv12,
        VideoFormat::RGB => PixelFormat::Bgr8,
        VideoFormat::Gray => PixelFormat::Gray8,
        VideoFormat::H264 => return Err(CameraError::UnsupportedFormat(String::from_str("MF native layout"))),
    };
    let row: usize = if stride < 0 { (-(stride as i64)) as usize } else { stride as usize };
    let mut layout = FrameLayout::packed(config.width, config.height, format, row, data_len);
    layout.bottom_up = stride < 0;
    if format == PixelFormat::Nv12 {
        let y_len = match row.checked_mul(config.height as usize) {
            Some(n) => n,
            None => return Err(CameraError::InvalidFormat(String::from_str("Truncated MF NV12"))),
        };
        if y_len >= data_len {
            return Err(CameraError::InvalidFormat(String::from_str("Truncated MF NV12")));
        }
        let mut planes: Vec<PlaneLayout> = Vec::new();
        planes.push(PlaneLayout { offset: 0, length: y_len, row_stride: row, pixel_stride: 1 });
        planes.push(PlaneLayout { offset: y_len, length: data_len - y_len, row_stride: row, pixel_stride: 2 });
        layout.planes = planes;
    }
    Ok(layout)
}

} // verus!
