//! USB Video Class: libuvc codes, descriptors and the modes they offer,
//! exposure-mode masks, frame conversion, and finding a device by its
//! identifier.
use vstd::prelude::*;
use crate::controls::ControlMode;
use crate::device::CameraDeviceInfo;
use crate::text::{
    chars_of, field_range, parse_hex_u16, push_hex4, same_chars, spec_field, spec_hex4, spec_parse_hex_u16,
};
use crate::device::spec_unique_id;
use crate::rate::{CameraConfig, FrameRate};
use crate::color::{bt601_full_coefficients, bt601_full_spec};
use crate::convert::{
    copy_rgb_rows, expand_gray_rows, packed_yuv_rows, pick_rows, spec_gray_byte, spec_packed_byte,
    spec_pick_byte, spec_rgb_byte,
};
use crate::error::{spec_error_kind, CameraError, CameraErrorKind, CameraResult};
use crate::format::{PixelFormat, VideoFormat};

verus! {

pub const UVC_SUCCESS: i32 = 0;
pub const UVC_ERROR_IO: i32 = -1;
pub const UVC_ERROR_INVALID_PARAM: i32 = -2;
pub const UVC_ERROR_ACCESS: i32 = -3;
pub const UVC_ERROR_NO_DEVICE: i32 = -4;
pub const UVC_ERROR_NOT_FOUND: i32 = -5;
pub const UVC_ERROR_BUSY: i32 = -6;
pub const UVC_ERROR_TIMEOUT: i32 = -7;
pub const UVC_ERROR_OVERFLOW: i32 = -8;
pub const UVC_ERROR_PIPE: i32 = -9;
pub const UVC_ERROR_INTERRUPTED: i32 = -10;
pub const UVC_ERROR_NO_MEM: i32 = -11;
pub const UVC_ERROR_NOT_SUPPORTED: i32 = -12;

/// libuvc `enum uvc_frame_format`.
#[derive(Clone, Copy, Debug, PartialEq, Eq, Structural)]
pub enum UvcFrameFormat {
    Unknown,
    Uncompressed,
    Compressed,
    Yuyv,
    Uyvy,
    Rgb,
    Bgr,
    Mjpeg,
    H264,
    Gray8,
    Gray16,
    By8,
    Ba81,
    Sgrbg8,
    Sgbrg8,
    Srggb8,
    Sbggr8,
    Nv12,
    P010,
}

/// The C value of a libuvc frame format.
pub open spec fn spec_uvc_format_code(f: UvcFrameFormat) -> i32 {
    match f {
        UvcFrameFormat::Unknown => 0,
        UvcFrameFormat::Uncompressed => 1,
        UvcFrameFormat::Compressed => 2,
        UvcFrameFormat::Yuyv => 3,
        UvcFrameFormat::Uyvy => 4,
        UvcFrameFormat::Rgb => 5,
        UvcFrameFormat::Bgr => 6,
        UvcFrameFormat::Mjpeg => 7,
        UvcFrameFormat::H264 => 8,
        UvcFrameFormat::Gray8 => 9,
        UvcFrameFormat::Gray16 => 10,
        UvcFrameFormat::By8 => 11,
        UvcFrameFormat::Ba81 => 12,
        UvcFrameFormat::Sgrbg8 => 13,
        UvcFrameFormat::Sgbrg8 => 14,
        UvcFrameFormat::Srggb8 => 15,
        UvcFrameFormat::Sbggr8 => 16,
        UvcFrameFormat::Nv12 => 17,
        UvcFrameFormat::P010 => 18,
    }
}

impl UvcFrameFormat {
    /// The C value, as declared in libuvc's headers.
    pub fn code(self) -> (c: i32)
        ensures
            c == spec_uvc_format_code(self),
    {
        match self {
            UvcFrameFormat::Unknown => 0,
            UvcFrameFormat::Uncompressed => 1,
            UvcFrameFormat::Compressed => 2,
            UvcFrameFormat::Yuyv => 3,
            UvcFrameFormat::Uyvy => 4,
            UvcFrameFormat::Rgb => 5,
            UvcFrameFormat::Bgr => 6,
            UvcFrameFormat::Mjpeg => 7,
            UvcFrameFormat::H264 => 8,
            UvcFrameFormat::Gray8 => 9,
            UvcFrameFormat::Gray16 => 10,
            UvcFrameFormat::By8 => 11,
            UvcFrameFormat::Ba81 => 12,
            UvcFrameFormat::Sgrbg8 => 13,
            UvcFrameFormat::Sgbrg8 => 14,
            UvcFrameFormat::Srggb8 => 15,
            UvcFrameFormat::Sbggr8 => 16,
            UvcFrameFormat::Nv12 => 17,
            UvcFrameFormat::P010 => 18,
        }
    }
}

/// UVC class request codes.
#[derive(Clone, Copy, Debug, PartialEq, Eq, Structural)]
pub enum UvcReqCode {
    Undefined,
    SetCur,
    GetCur,
    GetMin,
    GetMax,
    GetRes,
    GetLen,
    GetInfo,
    GetDef,
}

impl UvcReqCode {
    /// The request byte.
    pub fn code(self) -> (c: u8)
        ensures
            c == match self {
                UvcReqCode::Undefined => 0x00u8,
                UvcReqCode::SetCur => 0x01,
                UvcReqCode::GetCur => 0x81,
                UvcReqCode::GetMin => 0x82,
                UvcReqCode::GetMax => 0x83,
                UvcReqCode::GetRes => 0x84,
                UvcReqCode::GetLen => 0x85,
                UvcReqCode::GetInfo => 0x86,
                UvcReqCode::GetDef => 0x87,
            },
    {
        match self {
            UvcReqCode::Undefined => 0x00,
            UvcReqCode::SetCur => 0x01,
            UvcReqCode::GetCur => 0x81,
            UvcReqCode::GetMin => 0x82,
            UvcReqCode::GetMax => 0x83,
            UvcReqCode::GetRes => 0x84,
            UvcReqCode::GetLen => 0x85,
            UvcReqCode::GetInfo => 0x86,
            UvcReqCode::GetDef => 0x87,
        }
    }
}

/// libusb options used on Android.
#[derive(Clone, Copy, Debug, PartialEq, Eq, Structural)]
pub enum LibusbOption {
    /// Use the UsbDk backend (Windows only).
    UseUsbdk,
    /// Skip device discovery (required on Android).
    NoDeviceDiscovery,
}

impl LibusbOption {
    /// The C value.
    pub fn code(self) -> (c: i32)
        ensures
            c == match self {
                LibusbOption::UseUsbdk => 1i32,
                LibusbOption::NoDeviceDiscovery => 2,
            },
    {
        match self {
            LibusbOption::UseUsbdk => 1,
            LibusbOption::NoDeviceDiscovery => 2,
        }
    }
}

/// Negotiated stream parameters.
#[derive(Clone, Copy, Debug, PartialEq, Eq, Structural)]
pub struct UvcStreamCtrlParams {
    pub bm_hint: u16,
    pub b_format_index: u8,
    pub b_frame_index: u8,
    pub dw_frame_interval: u32,
    pub w_key_frame_rate: u16,
    pub w_p_frame_rate: u16,
    pub w_comp_quality: u16,
    pub w_comp_window_size: u16,
    pub w_delay: u16,
    pub dw_max_video_frame_size: u32,
    pub dw_max_payload_transfer_size: u32,
}

/// The libuvc frame format that requests a capture format.
pub fn format_to_uvc(format: VideoFormat) -> (f: UvcFrameFormat)
    ensures
        f == match format {
            VideoFormat::MJPEG => UvcFrameFormat::Mjpeg,
            VideoFormat::YUYV => UvcFrameFormat::Yuyv,
            VideoFormat::UYVY => UvcFrameFormat::Uyvy,
            VideoFormat::RGB => UvcFrameFormat::Rgb,
            VideoFormat::H264 => UvcFrameFormat::H264,
            VideoFormat::Gray => UvcFrameFormat::Gray8,
            VideoFormat::NV12 => UvcFrameFormat::Nv12,
        },
{
    match format {
        VideoFormat::MJPEG => UvcFrameFormat::Mjpeg,
        VideoFormat::YUYV => UvcFrameFormat::Yuyv,
        VideoFormat::UYVY => UvcFrameFormat::Uyvy,
        VideoFormat::RGB => UvcFrameFormat::Rgb,
        VideoFormat::H264 => UvcFrameFormat::H264,
        VideoFormat::Gray => UvcFrameFormat::Gray8,
        VideoFormat::NV12 => UvcFrameFormat::Nv12,
    }
}

/// The GUID suffix shared by the standard uncompressed media subtypes.
pub open spec fn spec_media_subtype_suffix() -> Seq<u8> {
    seq![0u8, 0, 16, 0, 128, 0, 0, 170, 0, 56, 155, 113]
}

/// Bytes 4 to 15 of a GUID are the standard media subtype suffix.
pub open spec fn spec_standard_suffix(guid: Seq<u8>) -> bool {
    forall|j: int| 0 <= j < 12 ==> guid[j + 4] == #[trigger] spec_media_subtype_suffix()[j]
}

/// The capture format of a UVC format descriptor: subtype 6 is MJPEG;
/// subtype 4 is uncompressed, identified by the FourCC at the start of its
/// GUID (`YUY2`/`YUYV` or `UYVY`).
pub open spec fn spec_descriptor_format(subtype: u8, guid: Seq<u8>) -> Option<VideoFormat> {
    if subtype == 6 {
        Some(VideoFormat::MJPEG)
    } else if subtype != 4 || !spec_standard_suffix(guid) {
        None
    } else if guid[0] == 0x59 && guid[1] == 0x55 && guid[2] == 0x59 && (guid[3] == 0x32 || guid[3] == 0x56) {
        Some(VideoFormat::YUYV)
    } else if guid[0] == 0x55 && guid[1] == 0x59 && guid[2] == 0x56 && guid[3] == 0x59 {
        Some(VideoFormat::UYVY)
    } else {
        None
    }
}

pub fn descriptor_format(subtype: u8, guid: &[u8; 16]) -> (f: Option<VideoFormat>)
    ensures
        f == spec_descriptor_format(subtype, guid@),
{
    if subtype == 0x06 {
        return Some(VideoFormat::MJPEG);
    }
    if subtype != 0x04 {
        return None;
    }
    let suffix: [u8; 12] = [0, 0, 16, 0, 128, 0, 0, 170, 0, 56, 155, 113];
    let mut i: usize = 0;
    while i < 12
        invariant
            i <= 12,
            subtype == 4,
            guid@.len() == 16,
            suffix@ == spec_media_subtype_suffix(),
            forall|j: int| 0 <= j < i ==> guid@[j + 4] == suffix@[j],
        decreases 12 - i,
    {
        let g = guid[i + 4];
        let e = suffix[i];
        if g != e {
            proof {
                assert(g == guid@[i + 4]);
                assert(e == spec_media_subtype_suffix()[i as int]);
                assert(!spec_standard_suffix(guid@));
            }
            return None;
        }
        i = i + 1;
    }
    proof {
        assert(spec_standard_suffix(guid@));
    }
    let (a, b, c, d) = (guid[0], guid[1], guid[2], guid[3]);
    if a == 0x59 && b == 0x55 && c == 0x59 && (d == 0x32 || d == 0x56) {
        Some(VideoFormat::YUYV)
    } else if a == 0x55 && b == 0x59 && c == 0x56 && d == 0x59 {
        Some(VideoFormat::UYVY)
    } else {
        None
    }
}

/// Exposure mode for a UVC auto-exposure mask: automatic picks aperture
/// priority (2), then shutter priority (8), then auto (4); manual needs bit 1.
pub open spec fn spec_select_ae_mode(mask: u8, enabled: bool) -> Option<u8> {
    if enabled {
        if mask & 2 != 0 {
            Some(2u8)
        } else if mask & 8 != 0 {
            Some(8u8)
        } else if mask & 4 != 0 {
            Some(4u8)
        } else {
            None
        }
    } else if mask & 1 != 0 {
        Some(1u8)
    } else {
        None
    }
}

/// Chooses the UVC auto-exposure mode that switches automatic exposure on or
/// off; fails when the device offers none.
pub fn select_ae_mode(mask: u8, enabled: bool) -> (r: CameraResult<u8>)
    ensures
        match spec_select_ae_mode(mask, enabled) {
            Some(m) => r == Ok::<u8, CameraError>(m),
            None => r matches Err(e) && e is ControlNotSupported,
        },
{
    if enabled {
        if mask & 2 != 0 {
            return Ok(2);
        }
        if mask & 8 != 0 {
            return Ok(8);
        }
        if mask & 4 != 0 {
            return Ok(4);
        }
    } else if mask & 1 != 0 {
        return Ok(1);
    }
    Err(CameraError::ControlNotSupported(String::from_str("Requested UVC exposure mode is unavailable")))
}

/// Automatic exposure never resolves to the manual mode, and the mode chosen
/// is one the device offers.
pub proof fn lemma_ae_mode_respects_mask(mask: u8, enabled: bool)
    ensures
        spec_select_ae_mode(mask, enabled) matches Some(m) ==> (mask & m != 0 && (enabled ==> m
            != 1) && (!enabled ==> m == 1)),
{
}

/// Exposure modes offered by a UVC auto-exposure resolution mask: manual for
/// bit 0, automatic for any of bits 1 to 3.
pub fn exposure_modes_from_mask(mask: u8) -> (modes: Vec<ControlMode>)
    ensures
        modes@ == (if mask & 1 != 0 {
            seq![ControlMode::Manual]
        } else {
            Seq::empty()
        }) + (if mask & 14 != 0 {
            seq![ControlMode::Automatic]
        } else {
            Seq::empty()
        }),
{
    let mut modes: Vec<ControlMode> = Vec::new();
    if mask & 1 != 0 {
        modes.push(ControlMode::Manual);
    }
    if mask & 14 != 0 {
        modes.push(ControlMode::Automatic);
    }
    proof {
        assert(modes@ =~= (if mask & 1 != 0 {
            seq![ControlMode::Manual]
        } else {
            Seq::empty()
        }) + (if mask & 14 != 0 {
            seq![ControlMode::Automatic]
        } else {
            Seq::empty()
        }));
    }
    modes
}

/// Bytes per pixel of a libuvc frame format that converts to RGB here.
pub open spec fn spec_uvc_channels(f: UvcFrameFormat) -> Option<int> {
    match f {
        UvcFrameFormat::Yuyv | UvcFrameFormat::Uyvy => Some(2),
        UvcFrameFormat::Rgb | UvcFrameFormat::Bgr => Some(3),
        UvcFrameFormat::Gray8 => Some(1),
        _ => None,
    }
}

/// Row stride of a libuvc frame: its `step`, or packed rows when `step` is 0.
pub open spec fn spec_uvc_stride(packed: int, step: usize) -> int {
    if step == 0 { packed } else { step as int }
}

/// Why a libuvc frame cannot be converted: a format without a converter, or
/// rows that are narrower than the image, odd-width 4:2:2, or truncated.
pub open spec fn spec_uvc_failure(f: UvcFrameFormat, data_len: int, w: int, h: int, step: usize) -> Option<CameraErrorKind> {
    match spec_uvc_channels(f) {
        None => Some(CameraErrorKind::UnsupportedFormat),
        Some(c) => {
            let packed = w * c;
            let stride = spec_uvc_stride(packed, step);
            if packed > usize::MAX || stride < packed || (c == 2 && w % 2 == 1) || (h > 0 && (h - 1) * stride + packed > data_len) {
                Some(CameraErrorKind::InvalidFormat)
            } else {
                None
            }
        },
    }
}

/// Output byte `j` of the RGB image of a libuvc frame; 4:2:2 frames use
/// full-range BT.601.
pub open spec fn spec_uvc_byte(f: UvcFrameFormat, data: Seq<u8>, stride: int, w: int, j: int) -> u8 {
    match f {
        UvcFrameFormat::Yuyv => spec_packed_byte(data, stride, w, false, bt601_full_spec(), j),
        UvcFrameFormat::Uyvy => spec_packed_byte(data, stride, w, true, bt601_full_spec(), j),
        UvcFrameFormat::Rgb => spec_rgb_byte(data, stride, w, j),
        UvcFrameFormat::Bgr => spec_pick_byte(data, stride, w, 3, (2u8, 1u8, 0u8), j),
        _ => spec_gray_byte(data, stride, w, j),
    }
}

/// Converts an uncompressed libuvc frame (YUYV, UYVY, RGB, BGR or 8-bit gray)
/// of `width` x `height` pixels into tightly packed RGB, honouring its row
/// `step`.
pub fn uvc_frame_to_rgb(
    format: UvcFrameFormat,
    data: &[u8],
    width: u32,
    height: u32,
    step: usize,
    rgb: &mut [u8],
) -> (r: CameraResult<()>)
    requires
        width > 0,
        old(rgb)@.len() == width * height * 3,
    ensures
        final(rgb)@.len() == old(rgb)@.len(),
        r is Ok <==> spec_uvc_failure(format, data@.len() as int, width as int, height as int, step) is None,
        r matches Err(e) ==> Some(spec_error_kind(e)) == spec_uvc_failure(format, data@.len() as int, width as int, height as int, step)
            && final(rgb)@ == old(rgb)@,
        r is Ok ==> forall|j: int| 0 <= j < width * height * 3 ==> final(rgb)@[j] == spec_uvc_byte(format, data@,
            spec_uvc_stride(width * spec_uvc_channels(format).unwrap(), step), width as int, j),
{
    let channels: u64 = match format {
        UvcFrameFormat::Yuyv | UvcFrameFormat::Uyvy => 2,
        UvcFrameFormat::Rgb | UvcFrameFormat::Bgr => 3,
        UvcFrameFormat::Gray8 => 1,
        _ => return Err(CameraError::UnsupportedFormat(String::from_str("Unsupported UVC frame format"))),
    };
    let packed_wide: u64 = width as u64 * channels;
    if packed_wide > usize::MAX as u64 {
        return Err(CameraError::InvalidFormat(String::from_str("UVC row size overflow")));
    }
    let packed = packed_wide as usize;
    let stride = if step == 0 { packed } else { step };
    if stride < packed || (channels == 2 && width % 2 == 1) {
        return Err(CameraError::InvalidFormat(String::from_str("UVC row stride is too short")));
    }
    if height == 0 {
        return Ok(());
    }
    let rows_before: u128 = height as u128 - 1;
    proof {
        assert(rows_before * (stride as u128) <= 0x1_0000_0000u128 * 0x1_0000_0000_0000_0000u128) by (nonlinear_arith)
            requires
                rows_before < 0x1_0000_0000u128,
                (stride as u128) < 0x1_0000_0000_0000_0000u128,
        ;
    }
    let needed: u128 = rows_before * (stride as u128) + packed as u128;
    if needed > data.len() as u128 {
        return Err(CameraError::InvalidFormat(String::from_str("Truncated UVC row")));
    }
    let w = width as usize;
    let h = height as usize;
    let coefficients = bt601_full_coefficients();
    match format {
        UvcFrameFormat::Yuyv => packed_yuv_rows(data, stride, w, h, false, &coefficients, rgb),
        UvcFrameFormat::Uyvy => packed_yuv_rows(data, stride, w, h, true, &coefficients, rgb),
        UvcFrameFormat::Rgb => copy_rgb_rows(data, stride, w, h, rgb),
        UvcFrameFormat::Bgr => pick_rows(data, stride, w, h, 3, (2, 1, 0), rgb),
        _ => expand_gray_rows(data, stride, w, h, rgb),
    }
    Ok(())
}

pub open spec fn spec_uvc_native_format(f: UvcFrameFormat) -> Option<PixelFormat> {
    match f {
        UvcFrameFormat::Mjpeg => Some(PixelFormat::Mjpeg),
        UvcFrameFormat::H264 => Some(PixelFormat::H264),
        UvcFrameFormat::Yuyv => Some(PixelFormat::Yuyv),
        UvcFrameFormat::Uyvy => Some(PixelFormat::Uyvy),
        UvcFrameFormat::Rgb => Some(PixelFormat::Rgb8),
        UvcFrameFormat::Bgr => Some(PixelFormat::Bgr8),
        UvcFrameFormat::Gray8 => Some(PixelFormat::Gray8),
        _ => None,
    }
}

/// Frame format of a libuvc frame handed out without conversion.
pub fn uvc_native_format(f: UvcFrameFormat) -> (r: CameraResult<PixelFormat>)
    ensures
        match spec_uvc_native_format(f) {
            Some(p) => r == Ok::<PixelFormat, CameraError>(p),
            None => r matches Err(e) && e is UnsupportedFormat,
        },
{
    match f {
        UvcFrameFormat::Mjpeg => Ok(PixelFormat::Mjpeg),
        UvcFrameFormat::H264 => Ok(PixelFormat::H264),
        UvcFrameFormat::Yuyv => Ok(PixelFormat::Yuyv),
        UvcFrameFormat::Uyvy => Ok(PixelFormat::Uyvy),
        UvcFrameFormat::Rgb => Ok(PixelFormat::Rgb8),
        UvcFrameFormat::Bgr => Ok(PixelFormat::Bgr8),
        UvcFrameFormat::Gray8 => Ok(PixelFormat::Gray8),
        _ => Err(CameraError::UnsupportedFormat(String::from_str("Unsupported UVC native layout"))),
    }
}

/// Row stride of a frame handed out without conversion: its `step`, or
/// `width` times 3 for RGB and BGR, 2 for 4:2:2 and 1 otherwise.
pub fn uvc_native_stride(format: PixelFormat, width: u32, step: usize) -> (s: usize)
    requires
        width * 3 <= usize::MAX,
    ensures
        s == (if step > 0 {
            step as int
        } else {
            width * match format {
                PixelFormat::Rgb8 | PixelFormat::Bgr8 => 3int,
                PixelFormat::Yuyv | PixelFormat::Uyvy => 2int,
                _ => 1int,
            }
        }),
{
    if step > 0 {
        step
    } else {
        let per_pixel: usize = match format {
            PixelFormat::Rgb8 | PixelFormat::Bgr8 => 3,
            PixelFormat::Yuyv | PixelFormat::Uyvy => 2,
            _ => 1,
        };
        width as usize * per_pixel
    }
}

/// libuvc `uvc_stream_ctrl_t`: the negotiated streaming parameters.
#[derive(Clone, Copy, Debug, Default, PartialEq, Eq, Structural)]
pub struct UvcStreamCtrl {
    pub bm_hint: u16,
    pub b_format_index: u8,
    pub b_frame_index: u8,
    pub dw_frame_interval: u32,
    pub w_key_frame_rate: u16,
    pub w_p_frame_rate: u16,
    pub w_comp_quality: u16,
    pub w_comp_window_size: u16,
    pub w_delay: u16,
    pub dw_max_video_frame_size: u32,
    pub dw_max_payload_transfer_size: u32,
    pub dw_clock_frequency: u32,
    pub bm_framing_info: u8,
    pub b_preferred_version: u8,
    pub b_min_version: u8,
    pub b_max_version: u8,
    pub b_interface_number: u8,
}

/// Owned stream control block of an opened device.
#[derive(Clone, Copy, Debug, PartialEq, Eq, Structural)]
pub struct StreamCtrl {
    pub ctrl: UvcStreamCtrl,
}

impl StreamCtrl {
    /// Sets the frame interval, in 100 ns units.
    pub fn set_frame_interval(&mut self, interval: u32)
        ensures
            final(self).ctrl == (UvcStreamCtrl { dw_frame_interval: interval, ..old(self).ctrl }),
    {
        self.ctrl.dw_frame_interval = interval;
    }

    /// The frame interval, in 100 ns units.
    pub fn frame_interval(&self) -> (i: u32)
        ensures
            i == self.ctrl.dw_frame_interval,
    {
        self.ctrl.dw_frame_interval
    }
}

/// A USB device as its descriptor describes it.
#[derive(Clone, Debug)]
pub struct UvcDevice {
    pub vendor_id: u16,
    pub product_id: u16,
    /// Product string, when the device has one.
    pub product: Option<String>,
    /// Manufacturer string, when the device has one.
    pub manufacturer: Option<String>,
    pub serial_number: Option<String>,
}

impl UvcDevice {
    /// The enumerated device at `index`: named by its product string, or
    /// `UVC Camera vvvv:pppp`; described by its manufacturer, or
    /// "USB Video Device"; with its USB ids and serial number.
    pub fn to_device_info(&self, index: u32) -> (d: CameraDeviceInfo)
        ensures
            d.index == index,
            d.name@ == match self.product {
                Some(p) => p@,
                None => seq!['U', 'V', 'C', ' ', 'C', 'a', 'm', 'e', 'r', 'a', ' '] + spec_hex4(self.vendor_id)
                    + seq![':'] + spec_hex4(self.product_id),
            },
            d.description@ == match self.manufacturer {
                Some(m) => m@,
                None => "USB Video Device"@,
            },
            d.vendor_id == Some(self.vendor_id),
            d.product_id == Some(self.product_id),
            d.serial_number == self.serial_number,
            d.device_path is None,
    {
        let name = match &self.product {
            Some(p) => p.clone(),
            None => {
                let mut n = String::from_str("UVC Camera ");
                push_hex4(&mut n, self.vendor_id);
                n.append(":");
                push_hex4(&mut n, self.product_id);
                proof {
                    reveal_strlit("UVC Camera ");
                    reveal_strlit(":");
                    assert(n@ =~= seq!['U', 'V', 'C', ' ', 'C', 'a', 'm', 'e', 'r', 'a', ' '] + spec_hex4(self.vendor_id)
                        + seq![':'] + spec_hex4(self.product_id));
                }
                n
            },
        };
        let description = match &self.manufacturer {
            Some(m) => m.clone(),
            None => String::from_str("USB Video Device"),
        };
        let serial_number = match &self.serial_number {
            Some(s) => Some(s.clone()),
            None => None,
        };
        let mut d = CameraDeviceInfo::new(index, name, description);
        d.vendor_id = Some(self.vendor_id);
        d.product_id = Some(self.product_id);
        d.serial_number = serial_number;
        d
    }
}

/// Whether a continuous descriptor admits an interval: within `[min, max]`
/// and on the step grid from `min`.
pub open spec fn spec_continuous_admits(interval: u32, min: u32, max: u32, step: u32) -> bool {
    min <= interval <= max && (step == 0 || (interval - min) % (step as int) == 0)
}

/// The frame intervals (100 ns units) a frame descriptor lists: its default;
/// then its discrete intervals, or for a continuous descriptor (type 0) its
/// bounds and the intervals of the whole rates 1 to 240 it admits.
pub open spec fn spec_descriptor_intervals(default: u32, interval_type: u8, discrete: Seq<u32>, min: u32, max: u32, step: u32) -> Seq<u32> {
    if interval_type > 0 {
        seq![default] + discrete
    } else {
        seq![default, min, max] + Seq::new(240, |k: int| (10_000_000int / (k + 1)) as u32).filter(
            |i: u32| spec_continuous_admits(i, min, max, step),
        )
    }
}

/// Rate `a` sorts before rate `b` by numerator, then denominator.
pub open spec fn spec_rate_before(a: FrameRate, b: FrameRate) -> bool {
    a.num() < b.num() || (a.num() == b.num() && a.den() < b.den())
}

/// `rate` is `10^7 / i` in lowest terms for a positive interval `i` of the
/// list.
pub open spec fn spec_rate_of_some(intervals: Seq<u32>, rate: FrameRate) -> bool {
    exists|k: int| 0 <= k < intervals.len() && intervals[k] > 0 && (rate.num(), rate.den())
        == FrameRate::spec_reduced(10_000_000, #[trigger] intervals[k] as nat)
}

fn continuous_admits(interval: u32, min: u32, max: u32, step: u32) -> (r: bool)
    ensures
        r == spec_continuous_admits(interval, min, max, step),
{
    interval >= min && interval <= max && (step == 0 || (interval - min) % step == 0)
}

/// Inserts `rate` into a list sorted strictly by (numerator, denominator),
/// unless a rate with the same terms is already there.
fn insert_rate(list: &mut Vec<FrameRate>, rate: FrameRate)
    requires
        forall|i: int, j: int| 0 <= i < j < old(list)@.len() ==> spec_rate_before(old(list)@[i], old(list)@[j]),
    ensures
        forall|i: int, j: int| 0 <= i < j < final(list)@.len() ==> spec_rate_before(final(list)@[i], final(list)@[j]),
        forall|x: FrameRate| final(list)@.contains(x) <==> (old(list)@.contains(x) || x == rate),
{
    let n = rate.numerator();
    let d = rate.denominator();
    let mut j: usize = 0;
    while j < list.len() && (list[j].numerator() < n || (list[j].numerator() == n && list[j].denominator() < d))
        invariant
            j <= list@.len(),
            list@ == old(list)@,
            n == rate.num() && d == rate.den(),
            forall|k: int| 0 <= k < j ==> spec_rate_before(#[trigger] list@[k], rate),
        decreases list@.len() - j,
    {
        j = j + 1;
    }
    if j < list.len() && list[j].numerator() == n && list[j].denominator() == d {
        proof {
            crate::rate::lemma_rate_eq(list@[j as int], rate);
            assert forall|x: FrameRate| list@.contains(x) <==> (old(list)@.contains(x) || x == rate) by {
                if x == rate {
                    assert(list@[j as int] == x);
                }
            }
        }
        return;
    }
    let ghost before = list@;
    list.insert(j, rate);
    proof {
        assert forall|a: int, b: int| 0 <= a < b < list@.len() implies spec_rate_before(list@[a], list@[b]) by {
            if b < j {
            } else if a < j && b == j {
            } else if a < j && b > j {
                assert(list@[b] == before[b - 1]);
                assert(!spec_rate_before(before[j as int], rate));
                if (j as int) < b - 1 {
                    assert(spec_rate_before(before[j as int], before[b - 1]));
                }
            } else if a == j {
                assert(list@[b] == before[b - 1]);
                assert(!spec_rate_before(before[j as int], rate));
                if (j as int) < b - 1 {
                    assert(spec_rate_before(before[j as int], before[b - 1]));
                }
            } else {
                assert(list@[a] == before[a - 1]);
                assert(list@[b] == before[b - 1]);
            }
        }
        assert(list@ == before.insert(j as int, rate));
        assert(before == old(list)@);
        assert forall|x: FrameRate| list@.contains(x) <==> (old(list)@.contains(x) || x == rate) by {
            if x == rate {
                assert(list@[j as int] == x);
                assert(list@.contains(x));
            }
            if before.contains(x) {
                let k = choose|k: int| 0 <= k < before.len() && before[k] == x;
                if k < j {
                    assert(list@[k] == x);
                    assert(list@.contains(x));
                } else {
                    assert(list@[k + 1] == x);
                    assert(list@.contains(x));
                }
            }
            if list@.contains(x) {
                let k = choose|k: int| 0 <= k < list@.len() && list@[k] == x;
                if k < j {
                    assert(before[k] == x);
                    assert(before.contains(x));
                } else if k > j {
                    assert(before[k - 1] == x);
                    assert(before.contains(x));
                }
            }
        }
    }
}

/// The frame rates of a UVC frame descriptor: `10^7 / interval` in lowest
/// terms for every positive interval it lists, each rate once, sorted by
/// numerator and then denominator.
pub fn descriptor_frame_rates(default: u32, interval_type: u8, discrete: &[u32], min: u32, max: u32, step: u32) -> (rates: Vec<FrameRate>)
    ensures
        forall|i: int, j: int| 0 <= i < j < rates@.len() ==> spec_rate_before(rates@[i], rates@[j]),
        forall|x: FrameRate| rates@.contains(x) <==> spec_rate_of_some(
            spec_descriptor_intervals(default, interval_type, discrete@, min, max, step),
            x,
        ),
{
    let mut intervals: Vec<u32> = Vec::new();
    intervals.push(default);
    if interval_type > 0 {
        let mut i: usize = 0;
        while i < discrete.len()
            invariant
                i <= discrete@.len(),
                intervals@ == seq![default] + discrete@.subrange(0, i as int),
            decreases discrete@.len() - i,
        {
            intervals.push(discrete[i]);
            proof {
                assert(seq![default] + discrete@.subrange(0, i as int + 1) =~= (seq![default] + discrete@.subrange(0, i as int)).push(discrete@[i as int]));
            }
            i = i + 1;
        }
        proof {
            assert(discrete@.subrange(0, discrete@.len() as int) =~= discrete@);
        }
    } else {
        intervals.push(min);
        intervals.push(max);
        let ghost cands = Seq::new(240, |k: int| (10_000_000int / (k + 1)) as u32);
        let ghost pred = |i: u32| spec_continuous_admits(i, min, max, step);
        let mut fps: u32 = 1;
        while fps <= 240
            invariant
                1 <= fps <= 241,
                cands == Seq::new(240, |k: int| (10_000_000int / (k + 1)) as u32),
                pred == (|i: u32| spec_continuous_admits(i, min, max, step)),
                intervals@ == seq![default, min, max] + cands.subrange(0, fps as int - 1).filter(pred),
            decreases 241 - fps,
        {
            let interval = 10_000_000 / fps;
            proof {
                assert(cands.subrange(0, fps as int).drop_last() =~= cands.subrange(0, fps as int - 1));
                assert(cands.subrange(0, fps as int).last() == interval);
                reveal_with_fuel(Seq::<_>::filter, 1);
            }
            if continuous_admits(interval, min, max, step) {
                intervals.push(interval);
            }
            fps = fps + 1;
        }
        proof {
            assert(cands.subrange(0, 240) =~= cands);
        }
    }
    let ghost all = intervals@;
    proof {
        assert(all == spec_descriptor_intervals(default, interval_type, discrete@, min, max, step));
    }
    let mut rates: Vec<FrameRate> = Vec::new();
    let mut k: usize = 0;
    while k < intervals.len()
        invariant
            k <= intervals@.len(),
            intervals@ == all,
            forall|i: int, j: int| 0 <= i < j < rates@.len() ==> spec_rate_before(rates@[i], rates@[j]),
            forall|x: FrameRate| rates@.contains(x) <==> spec_rate_of_some(all.subrange(0, k as int), x),
        decreases intervals@.len() - k,
    {
        let i = intervals[k];
        let ghost old_rates = rates@;
        if i > 0 {
            match FrameRate::new(10_000_000, i) {
                Ok(rate) => {
                    insert_rate(&mut rates, rate);
                    proof {
                        assert forall|x: FrameRate| rates@.contains(x) <==> spec_rate_of_some(all.subrange(0, k as int + 1), x) by {
                            crate::rate::lemma_rate_eq(x, rate);
                            if spec_rate_of_some(all.subrange(0, k as int + 1), x) {
                                let q = choose|q: int| 0 <= q < k + 1 && all.subrange(0, k as int + 1)[q] > 0 && (x.num(), x.den())
                                    == FrameRate::spec_reduced(10_000_000, #[trigger] all.subrange(0, k as int + 1)[q] as nat);
                                if q < k {
                                    assert(all.subrange(0, k as int)[q] == all.subrange(0, k as int + 1)[q]);
                                }
                            }
                            if old_rates.contains(x) {
                                let q = choose|q: int| 0 <= q < k && all.subrange(0, k as int)[q] > 0 && (x.num(), x.den())
                                    == FrameRate::spec_reduced(10_000_000, #[trigger] all.subrange(0, k as int)[q] as nat);
                                assert(all.subrange(0, k as int + 1)[q] == all.subrange(0, k as int)[q]);
                            }
                            if x == rate {
                                assert(all.subrange(0, k as int + 1)[k as int] == i);
                            }
                        }
                    }
                },
                Err(_) => {},
            }
        } else {
            proof {
                assert forall|x: FrameRate| rates@.contains(x) <==> spec_rate_of_some(all.subrange(0, k as int + 1), x) by {
                    if spec_rate_of_some(all.subrange(0, k as int + 1), x) {
                        let q = choose|q: int| 0 <= q < k + 1 && all.subrange(0, k as int + 1)[q] > 0 && (x.num(), x.den())
                            == FrameRate::spec_reduced(10_000_000, #[trigger] all.subrange(0, k as int + 1)[q] as nat);
                        assert(all.subrange(0, k as int)[q] == all.subrange(0, k as int + 1)[q]);
                    }
                    if spec_rate_of_some(all.subrange(0, k as int), x) {
                        let q = choose|q: int| 0 <= q < k && all.subrange(0, k as int)[q] > 0 && (x.num(), x.den())
                            == FrameRate::spec_reduced(10_000_000, #[trigger] all.subrange(0, k as int)[q] as nat);
                        assert(all.subrange(0, k as int + 1)[q] == all.subrange(0, k as int)[q]);
                    }
                }
            }
        }
        k = k + 1;
    }
    proof {
        assert(all.subrange(0, all.len() as int) =~= all);
    }
    rates
}

/// `i` is the first position below `n` where `p` holds.
pub open spec fn spec_is_first(n: int, p: spec_fn(int) -> bool, i: int) -> bool {
    &&& 0 <= i < n
    &&& p(i)
    &&& forall|j: int| 0 <= j < i ==> !#[trigger] p(j)
}

/// The first position below `n` where `p` holds, if any.
pub open spec fn spec_first(n: int, p: spec_fn(int) -> bool) -> Option<int> {
    if exists|i: int| spec_is_first(n, p, i) {
        Some(choose|i: int| spec_is_first(n, p, i))
    } else {
        None
    }
}

/// A scan that stops at `i` finds the first position.
proof fn lemma_first(n: int, p: spec_fn(int) -> bool, i: int)
    requires
        0 <= i <= n,
        forall|j: int| 0 <= j < i ==> !#[trigger] p(j),
        i < n ==> p(i),
    ensures
        spec_first(n, p) == (if i < n { Some(i) } else { None::<int> }),
{
    if i < n {
        assert(spec_is_first(n, p, i));
        let c = choose|c: int| spec_is_first(n, p, c);
        assert(spec_is_first(n, p, c));
        if c < i {
            assert(!p(c));
        }
        if i < c {
            assert(!p(i));
        }
    } else {
        if exists|c: int| spec_is_first(n, p, c) {
            let c = choose|c: int| spec_is_first(n, p, c);
            assert(p(c));
            assert(!p(c));
        }
    }
}

/// The device has the given USB vendor and product ids.
pub open spec fn spec_vidpid_match(d: CameraDeviceInfo, vid: u16, pid: u16) -> bool {
    d.vendor_id == Some(vid) && d.product_id == Some(pid)
}

/// The device has the given serial number.
pub open spec fn spec_serial_is(d: CameraDeviceInfo, serial: Seq<char>) -> bool {
    d.serial_number matches Some(s) && s@ == serial
}

/// The position of the device a unique identifier names: the first device
/// whose identifier is exactly `id`; otherwise, when `id` starts with
/// `vvvv:pppp` in hexadecimal, the only device with those USB ids, or, among
/// several, the first whose serial number is the third field of `id`.
pub open spec fn spec_find_device(devs: Seq<CameraDeviceInfo>, id: Seq<char>) -> Option<int> {
    let n = devs.len() as int;
    match spec_first(n, |i: int| spec_unique_id(devs[i]) == id) {
        Some(i) => Some(i),
        None => {
            let f0 = spec_field(id, ':', 0);
            let f1 = spec_field(id, ':', 1);
            if f0 is Some && f1 is Some && spec_parse_hex_u16(f0.unwrap()) is Some && spec_parse_hex_u16(f1.unwrap()) is Some {
                let vid = spec_parse_hex_u16(f0.unwrap()).unwrap();
                let pid = spec_parse_hex_u16(f1.unwrap()).unwrap();
                match spec_first(n, |i: int| spec_vidpid_match(devs[i], vid, pid)) {
                    None => None,
                    Some(f) => if forall|j: int| 0 <= j < n && spec_vidpid_match(#[trigger] devs[j], vid, pid) ==> j == f {
                        Some(f)
                    } else {
                        match spec_field(id, ':', 2) {
                            Some(serial) => spec_first(
                                n,
                                |i: int| spec_vidpid_match(devs[i], vid, pid) && spec_serial_is(devs[i], serial),
                            ),
                            None => None,
                        }
                    },
                }
            } else {
                None
            }
        },
    }
}

fn vidpid_match(d: &CameraDeviceInfo, vid: u16, pid: u16) -> (r: bool)
    ensures
        r == spec_vidpid_match(*d, vid, pid),
{
    d.vendor_id == Some(vid) && d.product_id == Some(pid)
}

fn serial_is(d: &CameraDeviceInfo, serial: &[char]) -> (r: bool)
    ensures
        r == spec_serial_is(*d, serial@),
{
    match &d.serial_number {
        Some(s) => {
            let c = chars_of(s.as_str());
            same_chars(c.as_slice(), serial)
        },
        None => false,
    }
}

fn not_found(unique_id: &str) -> (e: CameraError)
    ensures
        e is DeviceNotFound,
{
    let mut message = String::from_str("No device found with unique_id: ");
    message.append(unique_id);
    CameraError::DeviceNotFound(message)
}

/// The first device whose identifier is `id`.
fn first_with_id(devices: &Vec<CameraDeviceInfo>, id: &[char]) -> (r: Option<usize>)
    ensures
        match r {
            Some(p) => spec_first(devices@.len() as int, |i: int| spec_unique_id(devices@[i]) == id@) == Some(p as int),
            None => spec_first(devices@.len() as int, |i: int| spec_unique_id(devices@[i]) == id@) is None,
        },
{
    let n = devices.len();
    let ghost exact = |i: int| spec_unique_id(devices@[i]) == id@;
    let mut i: usize = 0;
    while i < n
        invariant
            n == devices@.len(),
            exact == (|i: int| spec_unique_id(devices@[i]) == id@),
            i <= n,
            forall|j: int| 0 <= j < i ==> !#[trigger] exact(j),
        decreases n - i,
    {
        let u = devices[i].unique_id();
        let uc = chars_of(u.as_str());
        if same_chars(uc.as_slice(), id) {
            proof {
                lemma_first(n as int, exact, i as int);
            }
            return Some(i);
        }
        i = i + 1;
    }
    proof {
        lemma_first(n as int, exact, n as int);
    }
    None
}

/// The first device with the given USB ids, and whether another one has them.
fn first_with_vidpid(devices: &Vec<CameraDeviceInfo>, vid: u16, pid: u16) -> (r: (Option<usize>, bool))
    ensures
        match r.0 {
            Some(f) => spec_first(devices@.len() as int, |i: int| spec_vidpid_match(devices@[i], vid, pid)) == Some(f as int)
                && (r.1 <==> !forall|j: int| 0 <= j < devices@.len() && spec_vidpid_match(#[trigger] devices@[j], vid, pid) ==> j == f),
            None => spec_first(devices@.len() as int, |i: int| spec_vidpid_match(devices@[i], vid, pid)) is None,
        },
{
    let n = devices.len();
    let ghost m = |i: int| spec_vidpid_match(devices@[i], vid, pid);
    let mut first: Option<usize> = None;
    let mut multiple = false;
    let mut j: usize = 0;
    while j < n
        invariant
            n == devices@.len(),
            m == (|i: int| spec_vidpid_match(devices@[i], vid, pid)),
            j <= n,
            first is None ==> forall|k: int| 0 <= k < j ==> !#[trigger] m(k),
            first matches Some(f) ==> spec_is_first(j as int, m, f as int),
            first is None ==> !multiple,
            first matches Some(f) ==> (multiple <==> exists|k: int| 0 <= k < j && #[trigger] m(k) && k != f),
        decreases n - j,
    {
        if vidpid_match(&devices[j], vid, pid) {
            match first {
                None => {
                    first = Some(j);
                },
                Some(f) => {
                    multiple = true;
                    proof {
                        assert(m(j as int) && j != f);
                    }
                },
            }
        }
        j = j + 1;
    }
    match first {
        None => {
            proof {
                lemma_first(n as int, m, n as int);
            }
            (None, false)
        },
        Some(f) => {
            proof {
                lemma_first(n as int, m, f as int);
                if multiple {
                    let k = choose|k: int| 0 <= k < n && #[trigger] m(k) && k != f;
                    assert(spec_vidpid_match(devices@[k], vid, pid));
                } else {
                    assert forall|k: int| 0 <= k < n && spec_vidpid_match(#[trigger] devices@[k], vid, pid) implies k == f by {
                        assert(m(k));
                    }
                }
            }
            (Some(f), multiple)
        },
    }
}

/// The first device with the given USB ids and serial number.
fn first_with_serial(devices: &Vec<CameraDeviceInfo>, vid: u16, pid: u16, serial: &[char]) -> (r: Option<usize>)
    ensures
        match r {
            Some(p) => spec_first(devices@.len() as int, |i: int| spec_vidpid_match(devices@[i], vid, pid) && spec_serial_is(devices@[i], serial@)) == Some(p as int),
            None => spec_first(devices@.len() as int, |i: int| spec_vidpid_match(devices@[i], vid, pid) && spec_serial_is(devices@[i], serial@)) is None,
        },
{
    let n = devices.len();
    let ghost ms = |i: int| spec_vidpid_match(devices@[i], vid, pid) && spec_serial_is(devices@[i], serial@);
    let mut k: usize = 0;
    while k < n
        invariant
            n == devices@.len(),
            ms == (|i: int| spec_vidpid_match(devices@[i], vid, pid) && spec_serial_is(devices@[i], serial@)),
            k <= n,
            forall|t: int| 0 <= t < k ==> !#[trigger] ms(t),
        decreases n - k,
    {
        if vidpid_match(&devices[k], vid, pid) && serial_is(&devices[k], serial) {
            proof {
                lemma_first(n as int, ms, k as int);
            }
            return Some(k);
        }
        k = k + 1;
    }
    proof {
        lemma_first(n as int, ms, n as int);
    }
    None
}

/// Finds the position in `devices` of the device that `unique_id` names
/// (see `spec_find_device`); `DeviceNotFound` when none is named.
pub fn find_device_by_unique_id(devices: &Vec<CameraDeviceInfo>, unique_id: &str) -> (r: CameraResult<usize>)
    ensures
        match spec_find_device(devices@, unique_id@) {
            Some(i) => r matches Ok(p) && p == i,
            None => r matches Err(e) && e is DeviceNotFound,
        },
{
    let id = chars_of(unique_id);
    match first_with_id(devices, id.as_slice()) {
        Some(p) => return Ok(p),
        None => {},
    }
    let (a0, b0) = match field_range(id.as_slice(), ':', 0) {
        Some(r) => r,
        None => return Err(not_found(unique_id)),
    };
    let (a1, b1) = match field_range(id.as_slice(), ':', 1) {
        Some(r) => r,
        None => return Err(not_found(unique_id)),
    };
    let vid = match parse_hex_u16(id.as_slice(), a0, b0) {
        Some(v) => v,
        None => return Err(not_found(unique_id)),
    };
    let pid = match parse_hex_u16(id.as_slice(), a1, b1) {
        Some(v) => v,
        None => return Err(not_found(unique_id)),
    };
    let (first, multiple) = first_with_vidpid(devices, vid, pid);
    let f = match first {
        None => return Err(not_found(unique_id)),
        Some(f) => f,
    };
    if !multiple {
        return Ok(f);
    }
    let (a2, b2) = match field_range(id.as_slice(), ':', 2) {
        Some(r) => r,
        None => return Err(not_found(unique_id)),
    };
    let serial = vstd::slice::slice_subrange(id.as_slice(), a2, b2);
    match first_with_serial(devices, vid, pid, serial) {
        Some(k) => Ok(k),
        None => Err(not_found(unique_id)),
    }
}

/// Identifier of the UVC device enumerated at `index`: `vvvv:pppp:serial`
/// when it has a serial number, else `index:N`.
pub open spec fn spec_uvc_unique_id(d: UvcDevice, index: u32) -> Seq<char> {
    if crate::device::spec_nonempty(d.serial_number) {
        spec_hex4(d.vendor_id) + seq![':'] + spec_hex4(d.product_id) + seq![':'] + d.serial_number.unwrap()@
    } else {
        seq!['i', 'n', 'd', 'e', 'x', ':'] + crate::text::spec_decimal(index as nat)
    }
}

/// Device `i` of the list could be read and carries identifier `id`.
pub open spec fn spec_stream_match(devices: Seq<Option<UvcDevice>>, id: Seq<char>, i: int) -> bool {
    devices[i] matches Some(d) && spec_uvc_unique_id(d, i as u32) == id
}

/// The first readable device that carries identifier `id`.
pub open spec fn spec_stream_first(devices: Seq<Option<UvcDevice>>, id: Seq<char>) -> Option<int> {
    spec_first(devices.len() as int, |i: int| spec_stream_match(devices, id, i))
}

/// Picks the device a stream opens, from the enumerated devices (`None` for
/// one whose descriptors could not be read). With an expected identifier:
/// the only device that carries it, `DeviceNotFound` when none does and
/// `AmbiguousDevice` when several do. Without: the device at `index`, or
/// `DeviceNotFound`.
pub fn select_stream_device(devices: &Vec<Option<UvcDevice>>, expected: &Option<String>, index: u32) -> (r: CameraResult<usize>)
    requires
        devices@.len() <= u32::MAX,
    ensures
        expected matches Some(e) ==> (spec_stream_first(devices@, e@) is None ==> (r matches Err(err) && err is DeviceNotFound)),
        expected matches Some(e) ==> (spec_stream_first(devices@, e@) matches Some(f) ==> if forall|j: int| 0 <= j < devices@.len()
            && #[trigger] spec_stream_match(devices@, e@, j) ==> j == f {
            r matches Ok(p) && p == f
        } else {
            r matches Err(err) && err is AmbiguousDevice
        }),
        expected is None ==> if index < devices@.len() {
            r matches Ok(p) && p == index
        } else {
            r matches Err(err) && err is DeviceNotFound
        },
{
    let n = devices.len();
    let e = match expected {
        None => {
            if (index as usize) < n {
                return Ok(index as usize);
            }
            return Err(CameraError::DeviceNotFound(String::from_str("Device index does not exist")));
        },
        Some(e) => e,
    };
    let want = chars_of(e.as_str());
    let ghost m = |i: int| spec_stream_match(devices@, e@, i);
    let mut first: Option<usize> = None;
    let mut j: usize = 0;
    while j < n
        invariant
            n == devices@.len(),
            n <= u32::MAX,
            *expected == Some(*e),
            want@ == e@,
            m == (|i: int| spec_stream_match(devices@, e@, i)),
            j <= n,
            first is None ==> forall|k: int| 0 <= k < j ==> !#[trigger] m(k),
            first matches Some(f) ==> spec_is_first(j as int, m, f as int),
            first matches Some(f) ==> forall|k: int| 0 <= k < j && #[trigger] m(k) ==> k == f,
        decreases n - j,
    {
        let hit = match &devices[j] {
            Some(d) => {
                let info = d.to_device_info(j as u32);
                let id = info.unique_id();
                let chars = chars_of(id.as_str());
                same_chars(chars.as_slice(), want.as_slice())
            },
            None => false,
        };
        if hit {
            match first {
                None => {
                    first = Some(j);
                },
                Some(f) => {
                    proof {
                        assert(m(j as int));
                        assert(spec_stream_match(devices@, e@, j as int) && j != f);
                        lemma_first(n as int, m, f as int);
                        assert(m =~= (|i: int| spec_stream_match(devices@, e@, i)));
                    }
                    return Err(CameraError::AmbiguousDevice(e.clone()));
                },
            }
        }
        j = j + 1;
    }
    match first {
        None => {
            proof {
                lemma_first(n as int, m, n as int);
                assert(m =~= (|i: int| spec_stream_match(devices@, e@, i)));
            }
            Err(CameraError::DeviceNotFound(e.clone()))
        },
        Some(f) => {
            proof {
                lemma_first(n as int, m, f as int);
                assert(m =~= (|i: int| spec_stream_match(devices@, e@, i)));
                assert forall|k: int| 0 <= k < n && #[trigger] spec_stream_match(devices@, e@, k) implies k == f by {
                    assert(m(k));
                }
            }
            Ok(f)
        },
    }
}

/// The UVC frame interval, in 100 ns units, of a configuration's rate:
/// `10^7 * denominator / fps`, rounded half up.
pub open spec fn spec_uvc_interval(config: CameraConfig) -> int {
    (10_000_000 * config.fps_denominator + config.fps / 2) / (config.fps as int)
}

/// The frame interval a stream of a valid configuration asks for;
/// `InvalidConfig` when it does not fit in 32 bits or is zero.
pub fn uvc_frame_interval(config: &CameraConfig) -> (r: CameraResult<u32>)
    requires
        config.spec_valid(),
    ensures
        match r {
            Ok(i) => i == spec_uvc_interval(*config) && i != 0,
            Err(e) => (spec_uvc_interval(*config) > u32::MAX || spec_uvc_interval(*config) == 0) && e is InvalidConfig,
        },
{
    let interval = (10_000_000u64 * config.fps_denominator as u64 + config.fps as u64 / 2) / config.fps as u64;
    if interval > u32::MAX as u64 {
        return Err(CameraError::InvalidConfig(String::from_str("UVC frame interval overflow")));
    }
    if interval == 0 {
        return Err(CameraError::InvalidConfig(String::from_str("UVC frame interval is zero")));
    }
    Ok(interval as u32)
}

/// A frame descriptor of a UVC format: its size and frame intervals.
#[derive(Clone, Debug)]
pub struct UvcFrameDescriptor {
    pub width: u16,
    pub height: u16,
    pub default_interval: u32,
    /// Number of discrete intervals; zero for a continuous range.
    pub interval_type: u8,
    pub intervals: Vec<u32>,
    pub min_interval: u32,
    pub max_interval: u32,
    pub interval_step: u32,
}

/// A format descriptor of a UVC device: its subtype, GUID and frames.
#[derive(Clone, Debug)]
pub struct UvcFormatDescriptor {
    pub subtype: u8,
    pub guid: [u8; 16],
    pub frames: Vec<UvcFrameDescriptor>,
}

/// The intervals a frame descriptor lists.
pub open spec fn spec_frame_intervals(f: UvcFrameDescriptor) -> Seq<u32> {
    spec_descriptor_intervals(f.default_interval, f.interval_type, f.intervals@, f.min_interval, f.max_interval, f.interval_step)
}

/// The configuration of a frame of format `format` at `rate`.
pub open spec fn spec_frame_config(format: VideoFormat, f: UvcFrameDescriptor, rate: FrameRate) -> CameraConfig {
    CameraConfig { format, width: f.width as u32, height: f.height as u32, fps: rate.num() as u32, fps_denominator: rate.den() as u32 }
}

/// A non-empty frame of format `format` offers `c` at one of its rates.
pub open spec fn spec_frame_offers(format: VideoFormat, f: UvcFrameDescriptor, c: CameraConfig) -> bool {
    f.width > 0 && f.height > 0 && exists|rate: FrameRate|
        spec_rate_of_some(spec_frame_intervals(f), rate) && c == #[trigger] spec_frame_config(format, f, rate)
}

/// A format the library decodes offers `c` through one of its frames.
pub open spec fn spec_format_offers(d: UvcFormatDescriptor, c: CameraConfig) -> bool {
    spec_descriptor_format(d.subtype, d.guid@) matches Some(format) && exists|j: int|
        0 <= j < d.frames@.len() && spec_frame_offers(format, #[trigger] d.frames@[j], c)
}

/// One of the formats offers `c`.
pub open spec fn spec_formats_offer(formats: Seq<UvcFormatDescriptor>, c: CameraConfig) -> bool {
    exists|i: int| 0 <= i < formats.len() && spec_format_offers(#[trigger] formats[i], c)
}

fn push_unique(configs: &mut Vec<CameraConfig>, c: CameraConfig)
    requires
        forall|i: int, j: int| 0 <= i < j < old(configs)@.len() ==> old(configs)@[i] != old(configs)@[j],
    ensures
        forall|i: int, j: int| 0 <= i < j < final(configs)@.len() ==> final(configs)@[i] != final(configs)@[j],
        forall|x: CameraConfig| final(configs)@.contains(x) <==> (old(configs)@.contains(x) || x == c),
        final(configs)@ == (if old(configs)@.contains(c) { old(configs)@ } else { old(configs)@.push(c) }),
{
    let mut k: usize = 0;
    while k < configs.len()
        invariant
            k <= configs@.len(),
            configs@ == old(configs)@,
            forall|i: int, j: int| 0 <= i < j < old(configs)@.len() ==> old(configs)@[i] != old(configs)@[j],
            forall|t: int| 0 <= t < k ==> configs@[t] != c,
        decreases configs@.len() - k,
    {
        if configs[k] == c {
            proof {
                assert(old(configs)@[k as int] == c);
                assert(old(configs)@.contains(c));
            }
            return;
        }
        k = k + 1;
    }
    proof {
        if old(configs)@.contains(c) {
            let t = choose|t: int| 0 <= t < old(configs)@.len() && old(configs)@[t] == c;
            assert(configs@[t] != c);
        }
    }
    configs.push(c);
    proof {
        assert forall|x: CameraConfig| configs@.contains(x) <==> (old(configs)@.contains(x) || x == c) by {
            if old(configs)@.contains(x) {
                let t = choose|t: int| 0 <= t < old(configs)@.len() && old(configs)@[t] == x;
                assert(configs@[t] == x);
            }
            if x == c {
                assert(configs@[old(configs)@.len() as int] == c);
            }
            if configs@.contains(x) {
                let t = choose|t: int| 0 <= t < configs@.len() && configs@[t] == x;
                if t < old(configs)@.len() {
                    assert(old(configs)@[t] == x);
                }
            }
        }
    }
}

/// One of the first `k` rates gives `c` for a frame of format `format`.
pub open spec fn spec_rates_give(format: VideoFormat, f: UvcFrameDescriptor, rates: Seq<FrameRate>, k: int, c: CameraConfig) -> bool {
    exists|k2: int| 0 <= k2 < k && c == spec_frame_config(format, f, #[trigger] rates[k2])
}

/// One of the first `j` frames of format `format` offers `c`.
pub open spec fn spec_frames_offer(format: VideoFormat, frames: Seq<UvcFrameDescriptor>, j: int, c: CameraConfig) -> bool {
    exists|j2: int| 0 <= j2 < j && spec_frame_offers(format, #[trigger] frames[j2], c)
}

/// One of the first `i` formats offers `c`.
pub open spec fn spec_first_formats_offer(formats: Seq<UvcFormatDescriptor>, i: int, c: CameraConfig) -> bool {
    exists|i2: int| 0 <= i2 < i && spec_format_offers(#[trigger] formats[i2], c)
}

/// The rates of a frame give exactly what the frame offers.
proof fn lemma_rates_give_offers(format: VideoFormat, f: UvcFrameDescriptor, rates: Seq<FrameRate>, c: CameraConfig)
    requires
        f.width > 0 && f.height > 0,
        forall|x: FrameRate| rates.contains(x) <==> spec_rate_of_some(spec_frame_intervals(f), x),
    ensures
        spec_rates_give(format, f, rates, rates.len() as int, c) <==> spec_frame_offers(format, f, c),
{
    if spec_rates_give(format, f, rates, rates.len() as int, c) {
        let k2 = choose|k2: int| 0 <= k2 < rates.len() && c == spec_frame_config(format, f, #[trigger] rates[k2]);
        assert(rates.contains(rates[k2]));
    }
    if spec_frame_offers(format, f, c) {
        let rate = choose|rate: FrameRate| spec_rate_of_some(spec_frame_intervals(f), rate) && c == #[trigger] spec_frame_config(format, f, rate);
        assert(rates.contains(rate));
        let k2 = choose|k2: int| 0 <= k2 < rates.len() && rates[k2] == rate;
        assert(c == spec_frame_config(format, f, rates[k2]));
    }
}

/// Where a descriptor list offers a configuration: the index of the format,
/// the index of the frame within it, and the rate.
pub type OfferPosition = (int, int, FrameRate);

/// The frame at `p` of a format the library decodes is non-empty and offers
/// `c` at the rate of `p`.
pub open spec fn spec_offered_at(formats: Seq<UvcFormatDescriptor>, p: OfferPosition, c: CameraConfig) -> bool {
    &&& 0 <= p.0 < formats.len()
    &&& 0 <= p.1 < formats[p.0].frames@.len()
    &&& spec_descriptor_format(formats[p.0].subtype, formats[p.0].guid@) matches Some(format)
    &&& formats[p.0].frames@[p.1].width > 0 && formats[p.0].frames@[p.1].height > 0
    &&& spec_rate_of_some(spec_frame_intervals(formats[p.0].frames@[p.1]), p.2)
    &&& c == spec_frame_config(format, formats[p.0].frames@[p.1], p.2)
}

/// Descriptor order: by format, then frame, then rate (numerator, then
/// denominator).
pub open spec fn spec_position_before(p: OfferPosition, q: OfferPosition) -> bool {
    p.0 < q.0 || (p.0 == q.0 && (p.1 < q.1 || (p.1 == q.1 && spec_rate_before(p.2, q.2))))
}

/// `p` is the first place in descriptor order that offers `c`.
pub open spec fn spec_first_offer(formats: Seq<UvcFormatDescriptor>, c: CameraConfig, p: OfferPosition) -> bool {
    spec_offered_at(formats, p, c) && forall|q: OfferPosition| #[trigger] spec_offered_at(formats, q, c)
        ==> !spec_position_before(q, p)
}

/// `a` is first offered before `b` is.
pub open spec fn spec_offered_in_order(formats: Seq<UvcFormatDescriptor>, a: CameraConfig, b: CameraConfig) -> bool {
    exists|p: OfferPosition, q: OfferPosition| #[trigger] spec_first_offer(formats, a, p)
        && #[trigger] spec_first_offer(formats, b, q) && spec_position_before(p, q)
}

/// An offer before the `k`-th rate of frame `j` of format `i` lies in an
/// earlier format, an earlier frame, or an earlier rate.
proof fn lemma_earlier_offer(
    formats: Seq<UvcFormatDescriptor>,
    i: int,
    j: int,
    format: VideoFormat,
    rates: Seq<FrameRate>,
    k: int,
    c: CameraConfig,
    q: OfferPosition,
)
    requires
        0 <= i < formats.len(),
        spec_descriptor_format(formats[i].subtype, formats[i].guid@) == Some(format),
        0 <= j < formats[i].frames@.len(),
        0 <= k < rates.len(),
        forall|a: int, b: int| 0 <= a < b < rates.len() ==> spec_rate_before(rates[a], rates[b]),
        forall|x: FrameRate| rates.contains(x) <==> spec_rate_of_some(spec_frame_intervals(formats[i].frames@[j]), x),
        spec_offered_at(formats, q, c),
        spec_position_before(q, (i, j, rates[k])),
    ensures
        spec_first_formats_offer(formats, i, c) || spec_frames_offer(format, formats[i].frames@, j, c)
            || spec_rates_give(format, formats[i].frames@[j], rates, k, c),
{
    let f = formats[q.0].frames@[q.1];
    let fq = spec_descriptor_format(formats[q.0].subtype, formats[q.0].guid@).unwrap();
    assert(c == spec_frame_config(fq, f, q.2));
    assert(spec_frame_offers(fq, f, c));
    if q.0 < i {
        assert(spec_format_offers(formats[q.0], c));
    } else if q.1 < j {
        assert(spec_frame_offers(format, formats[i].frames@[q.1], c));
    } else {
        assert(rates.contains(q.2));
        let k2 = choose|k2: int| 0 <= k2 < rates.len() && rates[k2] == q.2;
        if k2 > k {
            assert(spec_rate_before(rates[k], rates[k2]));
        }
        assert(c == spec_frame_config(format, f, rates[k2]));
    }
}

/// The configurations a device's descriptors offer, each once, in the order
/// they are first offered: every non-empty frame of a format the library
/// decodes, at every rate it lists.
pub fn configs_from_descriptors(formats: &Vec<UvcFormatDescriptor>) -> (configs: Vec<CameraConfig>)
    ensures
        forall|i: int, j: int| 0 <= i < j < configs@.len() ==> configs@[i] != configs@[j],
        forall|c: CameraConfig| configs@.contains(c) <==> spec_formats_offer(formats@, c),
        forall|i: int, j: int| 0 <= i < j < configs@.len() ==> spec_offered_in_order(formats@, configs@[i], configs@[j]),
{
    let mut configs: Vec<CameraConfig> = Vec::new();
    let ghost mut pos: Seq<OfferPosition> = Seq::empty();
    let mut i: usize = 0;
    while i < formats.len()
        invariant
            i <= formats@.len(),
            forall|a: int, b: int| 0 <= a < b < configs@.len() ==> configs@[a] != configs@[b],
            forall|c: CameraConfig| #[trigger] configs@.contains(c) <==> spec_first_formats_offer(formats@, i as int, c),
            pos.len() == configs@.len(),
            forall|a: int| 0 <= a < pos.len() ==> spec_first_offer(formats@, configs@[a], #[trigger] pos[a])
                && pos[a].0 < i,
            forall|a: int, b: int| 0 <= a < b < pos.len() ==> spec_position_before(pos[a], pos[b]),
        decreases formats@.len() - i,
    {
        let d = &formats[i];
        let ghost before = configs@;
        match descriptor_format(d.subtype, &d.guid) {
            None => {},
            Some(format) => {
                let mut j: usize = 0;
                while j < d.frames.len()
                    invariant
                        i < formats@.len(),
                        formats@[i as int] == *d,
                        spec_descriptor_format(d.subtype, d.guid@) == Some(format),
                        j <= d.frames@.len(),
                        forall|c: CameraConfig| before.contains(c) <==> spec_first_formats_offer(formats@, i as int, c),
                        forall|a: int, b: int| 0 <= a < b < configs@.len() ==> configs@[a] != configs@[b],
                        forall|c: CameraConfig| #[trigger] configs@.contains(c) <==> (before.contains(c)
                            || spec_frames_offer(format, d.frames@, j as int, c)),
                        pos.len() == configs@.len(),
                        forall|a: int| 0 <= a < pos.len() ==> spec_first_offer(formats@, configs@[a], #[trigger] pos[a])
                            && (pos[a].0 < i || (pos[a].0 == i && pos[a].1 < j)),
                        forall|a: int, b: int| 0 <= a < b < pos.len() ==> spec_position_before(pos[a], pos[b]),
                    decreases d.frames@.len() - j,
                {
                    let f = &d.frames[j];
                    let ghost mid = configs@;
                    if f.width > 0 && f.height > 0 {
                        let rates = descriptor_frame_rates(
                            f.default_interval,
                            f.interval_type,
                            f.intervals.as_slice(),
                            f.min_interval,
                            f.max_interval,
                            f.interval_step,
                        );
                        let mut k: usize = 0;
                        while k < rates.len()
                            invariant
                                i < formats@.len(),
                                formats@[i as int] == *d,
                                spec_descriptor_format(d.subtype, d.guid@) == Some(format),
                                j < d.frames@.len(),
                                d.frames@[j as int] == *f,
                                f.width > 0 && f.height > 0,
                                forall|a: int, b: int| 0 <= a < b < rates@.len() ==> spec_rate_before(rates@[a], rates@[b]),
                                forall|x: FrameRate| rates@.contains(x) <==> spec_rate_of_some(spec_frame_intervals(*f), x),
                                forall|c: CameraConfig| before.contains(c) <==> spec_first_formats_offer(formats@, i as int, c),
                                forall|c: CameraConfig| mid.contains(c) <==> (before.contains(c)
                                    || spec_frames_offer(format, d.frames@, j as int, c)),
                                k <= rates@.len(),
                                forall|a: int, b: int| 0 <= a < b < configs@.len() ==> configs@[a] != configs@[b],
                                forall|c: CameraConfig| #[trigger] configs@.contains(c) <==> (mid.contains(c)
                                    || spec_rates_give(format, *f, rates@, k as int, c)),
                                pos.len() == configs@.len(),
                                forall|a: int| 0 <= a < pos.len() ==> spec_first_offer(formats@, configs@[a], #[trigger] pos[a])
                                    && (pos[a].0 < i || (pos[a].0 == i && pos[a].1 < j) || (pos[a].0 == i
                                    && pos[a].1 == j && exists|k2: int| 0 <= k2 < k && pos[a].2 == rates@[k2])),
                                forall|a: int, b: int| 0 <= a < b < pos.len() ==> spec_position_before(pos[a], pos[b]),
                            decreases rates@.len() - k,
                        {
                            let rate = rates[k];
                            let candidate = CameraConfig::new(format, f.width as u32, f.height as u32, rate.numerator())
                                .with_frame_rate(rate);
                            let ghost pre = configs@;
                            let ghost here: OfferPosition = (i as int, j as int, rates@[k as int]);
                            proof {
                                assert(candidate == spec_frame_config(format, *f, rates@[k as int]));
                                assert(rates@.contains(rates@[k as int]));
                                assert(spec_offered_at(formats@, here, candidate));
                                if !pre.contains(candidate) {
                                    assert forall|q: OfferPosition| #[trigger] spec_offered_at(formats@, q, candidate)
                                        implies !spec_position_before(q, here) by {
                                        if spec_position_before(q, here) {
                                            lemma_earlier_offer(formats@, i as int, j as int, format, rates@, k as int, candidate, q);
                                        }
                                    }
                                    assert forall|a: int| 0 <= a < pos.len() implies spec_position_before(#[trigger] pos[a], here) by {
                                        if pos[a].0 == i && pos[a].1 == j {
                                            let k2 = choose|k2: int| 0 <= k2 < k && pos[a].2 == rates@[k2];
                                            assert(spec_rate_before(rates@[k2], rates@[k as int]));
                                        }
                                    }
                                }
                            }
                            push_unique(&mut configs, candidate);
                            proof {
                                if !pre.contains(candidate) {
                                    pos = pos.push(here);
                                }
                                assert forall|a: int| 0 <= a < pos.len() implies spec_first_offer(formats@, configs@[a], #[trigger] pos[a])
                                    && (pos[a].0 < i || (pos[a].0 == i && pos[a].1 < j) || (pos[a].0 == i
                                    && pos[a].1 == j && exists|k2: int| 0 <= k2 < k + 1 && pos[a].2 == rates@[k2])) by {
                                    if pos[a].0 == i && pos[a].1 == j && !(a == pos.len() - 1 && !pre.contains(candidate)) {
                                        let k2 = choose|k2: int| 0 <= k2 < k && pos[a].2 == rates@[k2];
                                        assert(0 <= k2 < k + 1 && pos[a].2 == rates@[k2]);
                                    }
                                    if a == pos.len() - 1 && !pre.contains(candidate) {
                                        assert(pos[a].2 == rates@[k as int]);
                                    }
                                }
                                assert forall|c: CameraConfig| #[trigger] configs@.contains(c) <==> (mid.contains(c)
                                    || spec_rates_give(format, *f, rates@, k + 1, c)) by {
                                    assert(pre.contains(c) <==> (mid.contains(c) || spec_rates_give(format, *f, rates@, k as int, c)));
                                    if spec_rates_give(format, *f, rates@, k + 1, c) {
                                        let k2 = choose|k2: int| 0 <= k2 < k + 1 && c == spec_frame_config(format, *f, #[trigger] rates@[k2]);
                                        if k2 == k {
                                            assert(c == candidate);
                                        } else {
                                            assert(spec_rates_give(format, *f, rates@, k as int, c));
                                        }
                                    }
                                    if spec_rates_give(format, *f, rates@, k as int, c) {
                                        let k2 = choose|k2: int| 0 <= k2 < k && c == spec_frame_config(format, *f, #[trigger] rates@[k2]);
                                        assert(0 <= k2 < k + 1);
                                    }
                                    if c == candidate {
                                        assert(0 <= k < k + 1 && c == spec_frame_config(format, *f, rates@[k as int]));
                                    }
                                }
                            }
                            k = k + 1;
                        }
                        proof {
                            assert forall|c: CameraConfig| spec_rates_give(format, *f, rates@, rates@.len() as int, c)
                                <==> spec_frame_offers(format, *f, c) by {
                                lemma_rates_give_offers(format, *f, rates@, c);
                            }
                        }
                    }
                    proof {
                        assert forall|c: CameraConfig| #[trigger] configs@.contains(c) <==> (before.contains(c)
                            || spec_frames_offer(format, d.frames@, j + 1, c)) by {
                            assert(mid.contains(c) <==> (before.contains(c) || spec_frames_offer(format, d.frames@, j as int, c)));
                            assert(d.frames@[j as int] == *f);
                            if spec_frames_offer(format, d.frames@, j + 1, c) {
                                let j2 = choose|j2: int| 0 <= j2 < j + 1 && spec_frame_offers(format, #[trigger] d.frames@[j2], c);
                                if j2 < j {
                                    assert(spec_frames_offer(format, d.frames@, j as int, c));
                                }
                            }
                            if spec_frames_offer(format, d.frames@, j as int, c) {
                                let j2 = choose|j2: int| 0 <= j2 < j && spec_frame_offers(format, #[trigger] d.frames@[j2], c);
                                assert(0 <= j2 < j + 1);
                            }
                            if spec_frame_offers(format, *f, c) {
                                assert(spec_frame_offers(format, d.frames@[j as int], c));
                            }
                        }
                    }
                    j = j + 1;
                }
                proof {
                    assert forall|c: CameraConfig| spec_frames_offer(format, d.frames@, d.frames@.len() as int, c)
                        <==> spec_format_offers(*d, c) by {}
                }
            },
        }
        proof {
            assert forall|c: CameraConfig| #[trigger] configs@.contains(c) <==> spec_first_formats_offer(formats@, i + 1, c) by {
                assert(before.contains(c) <==> spec_first_formats_offer(formats@, i as int, c));
                assert(formats@[i as int] == *d);
                if spec_first_formats_offer(formats@, i + 1, c) {
                    let i2 = choose|i2: int| 0 <= i2 < i + 1 && spec_format_offers(#[trigger] formats@[i2], c);
                    if i2 < i {
                        assert(spec_first_formats_offer(formats@, i as int, c));
                    }
                }
                if spec_first_formats_offer(formats@, i as int, c) {
                    let i2 = choose|i2: int| 0 <= i2 < i && spec_format_offers(#[trigger] formats@[i2], c);
                    assert(0 <= i2 < i + 1);
                }
                if spec_format_offers(*d, c) {
                    assert(spec_format_offers(formats@[i as int], c));
                }
            }
        }
        i = i + 1;
    }
    proof {
        assert forall|c: CameraConfig| #[trigger] configs@.contains(c) <==> spec_formats_offer(formats@, c) by {
            assert(configs@.contains(c) <==> spec_first_formats_offer(formats@, formats@.len() as int, c));
        }
        assert forall|a: int, b: int| 0 <= a < b < configs@.len() implies spec_offered_in_order(formats@, configs@[a], configs@[b]) by {
            assert(spec_first_offer(formats@, configs@[a], pos[a]));
            assert(spec_first_offer(formats@, configs@[b], pos[b]));
            assert(spec_position_before(pos[a], pos[b]));
        }
    }
    configs
}


/// The libuvc conversion reads each format in its own byte order: RGB frames
/// red, green, blue; BGR frames blue, green, red (red is byte 2 of a pixel);
/// gray frames repeat the pixel's byte; UYVY macropixels `U Y0 V Y1` and YUYV
/// macropixels `Y0 U Y1 V`, with full-range BT.601.
pub proof fn lemma_uvc_byte_order(data: Seq<u8>, stride: int, w: int, row: int, col: int, k: int)
    requires
        w > 0,
        row >= 0,
        0 <= col < w,
        0 <= k < 3,
    ensures
        ({
            let j = 3 * (row * w + col) + k;
            let p = row * stride + 3 * col;
            let m = row * stride + (col / 2) * 4;
            &&& spec_uvc_byte(UvcFrameFormat::Rgb, data, stride, w, j) == data[p + k]
            &&& spec_uvc_byte(UvcFrameFormat::Bgr, data, stride, w, j) == data[p + 2 - k]
            &&& spec_uvc_byte(UvcFrameFormat::Gray8, data, stride, w, j) == data[row * stride + col]
            &&& spec_uvc_byte(UvcFrameFormat::Uyvy, data, stride, w, j) == crate::color::spec_yuv_channel(
                bt601_full_spec(), data[m + 1 + 2 * (col % 2)], data[m], data[m + 2], k)
            &&& spec_uvc_byte(UvcFrameFormat::Yuyv, data, stride, w, j) == crate::color::spec_yuv_channel(
                bt601_full_spec(), data[m + 2 * (col % 2)], data[m + 1], data[m + 3], k)
        }),
{
    crate::convert::lemma_pixel_sources(data, stride, w, 3, (2u8, 1u8, 0u8), data, 0, false, bt601_full_spec(), row, col, k);
    crate::convert::lemma_packed_pixel_chroma(data, stride, w, true, bt601_full_spec(), row, col, k);
    crate::convert::lemma_packed_pixel_chroma(data, stride, w, false, bt601_full_spec(), row, col, k);
}

} // verus!
