//! Apple capture: format identification and selection, permission states,
//! sample timing and the packed pixel-buffer conversions.
use vstd::prelude::*;
use crate::color::{ColorCoefficients, ColorInfo, ColorMatrix, ColorRange};
use crate::convert::{packed_yuv_rows, pick_rows, spec_packed_byte, spec_pick_byte};
use crate::error::{spec_error_kind, CameraError, CameraErrorKind, CameraResult};
use crate::format::{spec_pixel_stride, FrameLayout, PixelFormat, PlaneLayout, VideoFormat};
use crate::rate::CameraConfig;

verus! {

/// Camera permission status.
#[derive(Clone, Copy, Debug, PartialEq, Eq, Structural)]
pub enum AVAuthorizationStatus {
    /// The user has not made a choice.
    NotDetermined,
    /// The user cannot change this application's restricted status.
    Restricted,
    /// The user explicitly denied access.
    Denied,
    /// The user granted access.
    Authorized,
}

/// `2vuy`: packed 4:2:2 in `U Y0 V Y1` order.
pub const FOURCC_2VUY: u32 = 0x32767579;
/// `yuvs`: packed 4:2:2 in `Y0 U Y1 V` order.
pub const FOURCC_YUVS: u32 = 0x79757673;
/// `420f`: full-range bi-planar 4:2:0.
pub const FOURCC_420F: u32 = 0x34323066;
/// `420v`: video-range bi-planar 4:2:0.
pub const FOURCC_420V: u32 = 0x34323076;
/// `BGRA`: 32-bit BGRA.
pub const FOURCC_BGRA: u32 = 0x42475241;
/// 32-bit ARGB.
pub const FOURCC_ARGB: u32 = 0x00000020;
/// `jpeg`: JPEG codec.
pub const FOURCC_JPEG: u32 = 0x6A706567;
/// `dmb1`: OpenDML JPEG codec.
pub const FOURCC_DMB1: u32 = 0x646D6231;

pub open spec fn spec_fourcc_to_format(fourcc: u32) -> Option<VideoFormat> {
    if fourcc == FOURCC_2VUY {
        Some(VideoFormat::UYVY)
    } else if fourcc == FOURCC_YUVS {
        Some(VideoFormat::YUYV)
    } else if fourcc == FOURCC_420F || fourcc == FOURCC_420V {
        Some(VideoFormat::NV12)
    } else if fourcc == FOURCC_BGRA || fourcc == FOURCC_ARGB {
        Some(VideoFormat::RGB)
    } else if fourcc == FOURCC_JPEG || fourcc == FOURCC_DMB1 {
        Some(VideoFormat::MJPEG)
    } else {
        None
    }
}

/// The capture format of a Core Video pixel format or Core Media codec code.
pub fn fourcc_to_format(fourcc: u32) -> (f: Option<VideoFormat>)
    ensures
        f == spec_fourcc_to_format(fourcc),
{
    if fourcc == FOURCC_2VUY {
        Some(VideoFormat::UYVY)
    } else if fourcc == FOURCC_YUVS {
        Some(VideoFormat::YUYV)
    } else if fourcc == FOURCC_420F || fourcc == FOURCC_420V {
        Some(VideoFormat::NV12)
    } else if fourcc == FOURCC_BGRA || fourcc == FOURCC_ARGB {
        Some(VideoFormat::RGB)
    } else if fourcc == FOURCC_JPEG || fourcc == FOURCC_DMB1 {
        Some(VideoFormat::MJPEG)
    } else {
        None
    }
}

pub open spec fn spec_fallback_priority(format: VideoFormat) -> int {
    match format {
        VideoFormat::NV12 => 110,
        VideoFormat::RGB => 100,
        VideoFormat::YUYV => 90,
        VideoFormat::UYVY => 80,
        VideoFormat::MJPEG => 70,
        _ => 0,
    }
}

/// How much a format is worth when no format of the requested kind fits:
/// NV12, which converts to RGB most cheaply, ranks first.
pub fn cross_format_fallback_priority(format: VideoFormat) -> (p: i32)
    ensures
        p == spec_fallback_priority(format),
{
    match format {
        VideoFormat::NV12 => 110,
        VideoFormat::RGB => 100,
        VideoFormat::YUYV => 90,
        VideoFormat::UYVY => 80,
        VideoFormat::MJPEG => 70,
        _ => 0,
    }
}

/// One format a capture device offers, as the selection reads it.
#[derive(Clone, Copy, Debug, PartialEq, Eq, Structural)]
pub struct DeviceFormatCandidate {
    /// Core Video pixel format or Core Media codec code.
    pub fourcc: u32,
    pub width: u32,
    pub height: u32,
    /// One of the format's frame-rate ranges admits the requested rate.
    pub fps_supported: bool,
    /// The first admitting range has the requested rate as its maximum.
    pub max_fps_exact: bool,
    /// The format reports at least one frame-rate range.
    pub has_rate_ranges: bool,
}

/// Selection reads the requested rate when it reads a range of a format it
/// knows: some candidate has a known format and a frame-rate range.
pub open spec fn spec_rate_read(cands: Seq<DeviceFormatCandidate>) -> bool {
    exists|i: int| 0 <= i < cands.len() && (#[trigger] spec_fourcc_to_format(cands[i].fourcc)) is Some
        && cands[i].has_rate_ranges
}

pub open spec fn spec_abs_diff(a: u32, b: u32) -> int {
    if a >= b { a - b } else { b - a }
}

/// Distance between a candidate's resolution and the requested one.
pub open spec fn spec_resolution_distance(c: DeviceFormatCandidate, config: CameraConfig) -> int {
    spec_abs_diff(c.width, config.width) + spec_abs_diff(c.height, config.height)
}

/// Score of a candidate in a selection pass, `None` when the pass skips it.
/// Pass 0 takes the requested format and resolution (3100 when the rate is
/// the range maximum, 3050 otherwise); pass 1 the requested format at any
/// resolution (closer is better); pass 2 any known format, ranked by
/// `priority * 1000 - distance`. Every pass needs a supported frame rate.
pub open spec fn spec_pass_score(c: DeviceFormatCandidate, config: CameraConfig, pass: int) -> Option<int> {
    match spec_fourcc_to_format(c.fourcc) {
        None => None,
        Some(format) => if !c.fps_supported {
            None
        } else if pass == 0 {
            if format == config.format && c.width == config.width && c.height == config.height {
                Some(if c.max_fps_exact { 3100int } else { 3050int })
            } else {
                None
            }
        } else if pass == 1 {
            if format == config.format {
                Some(-spec_resolution_distance(c, config))
            } else {
                None
            }
        } else {
            Some(spec_fallback_priority(format) * 1000 - spec_resolution_distance(c, config))
        },
    }
}

/// Some candidate takes part in the pass.
pub open spec fn spec_pass_nonempty(cands: Seq<DeviceFormatCandidate>, config: CameraConfig, pass: int) -> bool {
    exists|i: int| 0 <= i < cands.len() && (#[trigger] spec_pass_score(cands[i], config, pass)) is Some
}

/// Candidate `i` is the first of the highest score in the pass.
pub open spec fn spec_best_in_pass(cands: Seq<DeviceFormatCandidate>, config: CameraConfig, pass: int, i: int) -> bool {
    &&& 0 <= i < cands.len()
    &&& spec_pass_score(cands[i], config, pass) is Some
    &&& forall|j: int| 0 <= j < cands.len() && (#[trigger] spec_pass_score(cands[j], config, pass)) is Some
        ==> spec_pass_score(cands[j], config, pass).unwrap() <= spec_pass_score(cands[i], config, pass).unwrap()
    &&& forall|j: int| 0 <= j < i && (#[trigger] spec_pass_score(cands[j], config, pass)) is Some
        ==> spec_pass_score(cands[j], config, pass).unwrap() < spec_pass_score(cands[i], config, pass).unwrap()
}

/// The first pass that has a candidate, or 3 when none has.
pub open spec fn spec_selection_pass(cands: Seq<DeviceFormatCandidate>, config: CameraConfig) -> int {
    if spec_pass_nonempty(cands, config, 0) {
        0
    } else if spec_pass_nonempty(cands, config, 1) {
        1
    } else if spec_pass_nonempty(cands, config, 2) {
        2
    } else {
        3
    }
}

fn abs_diff(a: u32, b: u32) -> (d: i64)
    ensures
        d == spec_abs_diff(a, b),
{
    if a >= b { (a - b) as i64 } else { (b - a) as i64 }
}

fn pass_score(c: &DeviceFormatCandidate, config: &CameraConfig, pass: u8) -> (s: Option<i64>)
    requires
        pass <= 2,
    ensures
        match spec_pass_score(*c, *config, pass as int) {
            Some(v) => s == Some(v as i64),
            None => s is None,
        },
{
    let format = match fourcc_to_format(c.fourcc) {
        Some(f) => f,
        None => return None,
    };
    if !c.fps_supported {
        return None;
    }
    let distance = abs_diff(c.width, config.width) + abs_diff(c.height, config.height);
    if pass == 0 {
        if format == config.format && c.width == config.width && c.height == config.height {
            Some(if c.max_fps_exact { 3100 } else { 3050 })
        } else {
            None
        }
    } else if pass == 1 {
        if format == config.format {
            Some(-distance)
        } else {
            None
        }
    } else {
        Some(cross_format_fallback_priority(format) as i64 * 1000 - distance)
    }
}

fn best_in_pass(cands: &[DeviceFormatCandidate], config: &CameraConfig, pass: u8) -> (r: Option<usize>)
    requires
        pass <= 2,
    ensures
        match r {
            Some(i) => spec_best_in_pass(cands@, *config, pass as int, i as int),
            None => !spec_pass_nonempty(cands@, *config, pass as int),
        },
{
    let mut best: Option<usize> = None;
    let mut best_score: i64 = 0;
    let mut i: usize = 0;
    while i < cands.len()
        invariant
            pass <= 2,
            i <= cands@.len(),
            match best {
                Some(b) => {
                    &&& b < i
                    &&& spec_pass_score(cands@[b as int], *config, pass as int) == Some(best_score as int)
                    &&& forall|j: int| 0 <= j < i && (#[trigger] spec_pass_score(cands@[j], *config, pass as int)) is Some
                        ==> spec_pass_score(cands@[j], *config, pass as int).unwrap() <= best_score
                    &&& forall|j: int| 0 <= j < b && (#[trigger] spec_pass_score(cands@[j], *config, pass as int)) is Some
                        ==> spec_pass_score(cands@[j], *config, pass as int).unwrap() < best_score
                },
                None => forall|j: int| 0 <= j < i ==> (#[trigger] spec_pass_score(cands@[j], *config, pass as int)) is None,
            },
        decreases cands@.len() - i,
    {
        match pass_score(&cands[i], config, pass) {
            Some(score) => {
                let better = match best {
                    Some(_) => score > best_score,
                    None => true,
                };
                if better {
                    best = Some(i);
                    best_score = score;
                }
            },
            None => {},
        }
        i = i + 1;
    }
    proof {
        match best {
            Some(b) => {},
            None => {
                assert(!spec_pass_nonempty(cands@, *config, pass as int));
            },
        }
    }
    best
}

/// Index of the format that serves `config` best: the requested format and
/// resolution, then the requested format at the closest resolution, then any
/// known format, NV12 first; each at the requested frame rate. Ties go to the
/// earlier format.
pub fn select_device_format(cands: &[DeviceFormatCandidate], config: &CameraConfig) -> (r: Option<usize>)
    ensures
        match r {
            Some(i) => spec_selection_pass(cands@, *config) < 3
                && spec_best_in_pass(cands@, *config, spec_selection_pass(cands@, *config), i as int),
            None => spec_selection_pass(cands@, *config) == 3,
        },
{
    match best_in_pass(cands, config, 0) {
        Some(i) => return Some(i),
        None => {},
    }
    match best_in_pass(cands, config, 1) {
        Some(i) => return Some(i),
        None => {},
    }
    best_in_pass(cands, config, 2)
}

/// The format to configure for `config`. An invalid rate is found when the
/// selection reads a frame-rate range of a known format, and fails with the
/// frame-rate error (`InvalidConfig`); without such a range nothing fits and
/// the selection fails with `UnsupportedFormat`, as it does for a valid rate
/// that no format serves.
pub fn find_best_format(cands: &[DeviceFormatCandidate], config: &CameraConfig) -> (r: CameraResult<usize>)
    ensures
        if config.fps == 0 || config.fps_denominator == 0 {
            if spec_rate_read(cands@) {
                r matches Err(e) && e is InvalidConfig
            } else {
                r matches Err(e) && e is UnsupportedFormat
            }
        } else if spec_selection_pass(cands@, *config) < 3 {
            r matches Ok(i) && spec_best_in_pass(cands@, *config, spec_selection_pass(cands@, *config), i as int)
        } else {
            r matches Err(e) && e is UnsupportedFormat
        },
{
    if config.fps == 0 || config.fps_denominator == 0 {
        let mut i: usize = 0;
        while i < cands.len()
            invariant
                i <= cands@.len(),
                config.fps == 0 || config.fps_denominator == 0,
                forall|j: int| 0 <= j < i ==> !((#[trigger] spec_fourcc_to_format(cands@[j].fourcc)) is Some
                    && cands@[j].has_rate_ranges),
            decreases cands@.len() - i,
        {
            let known = fourcc_to_format(cands[i].fourcc);
            if known.is_some() && cands[i].has_rate_ranges {
                proof {
                    assert(spec_fourcc_to_format(cands@[i as int].fourcc) is Some && cands@[i as int].has_rate_ranges);
                    assert(spec_rate_read(cands@));
                }
                return match config.frame_rate() {
                    Ok(_) => Err(CameraError::InvalidConfig(String::from_str("Frame rate must be positive"))),
                    Err(e) => Err(e),
                };
            }
            i = i + 1;
        }
        return Err(CameraError::UnsupportedFormat(String::from_str("No matching format for the requested configuration")));
    }
    match select_device_format(cands, config) {
        Some(i) => Ok(i),
        None => Err(CameraError::UnsupportedFormat(String::from_str("No matching format for the requested configuration"))),
    }
}

/// `avc1`: H.264 codec.
pub const FOURCC_AVC1: u32 = 0x61766331;

/// Rust's truncating quotient of `n` by a positive `d`.
pub open spec fn spec_trunc_div(n: int, d: int) -> int {
    if n >= 0 { n / d } else { -((-n) / d) }
}

/// Presentation time in nanoseconds of a media time stamp `value / timescale`
/// seconds: `None` for an invalid stamp, a non-positive timescale, or a result
/// outside `i64`.
pub open spec fn spec_timestamp_ns(valid: bool, value: i64, timescale: i32) -> Option<i64> {
    if !valid || timescale <= 0 {
        None
    } else {
        let q = spec_trunc_div(value * 1_000_000_000, timescale as int);
        if i64::MIN <= q <= i64::MAX { Some(q as i64) } else { None }
    }
}

pub fn sample_timestamp_ns(valid: bool, value: i64, timescale: i32) -> (t: Option<i64>)
    ensures
        t == spec_timestamp_ns(valid, value, timescale),
{
    if !valid || timescale <= 0 {
        return None;
    }
    let magnitude: u128 = if value >= 0 { value as u128 } else { (-(value as i128)) as u128 };
    let scaled: u128 = magnitude * 1_000_000_000;
    let q: u128 = scaled / (timescale as u128);
    proof {
        assert(q <= scaled);
    }
    if value >= 0 {
        if q <= i64::MAX as u128 { Some(q as i64) } else { None }
    } else {
        if q <= 0x8000_0000_0000_0000u128 {
            let t: i128 = -(q as i128);
            Some(t as i64)
        } else {
            None
        }
    }
}

pub open spec fn spec_native_packed_format(fourcc: u32) -> Option<PixelFormat> {
    if fourcc == FOURCC_BGRA {
        Some(PixelFormat::Bgra8)
    } else if fourcc == FOURCC_ARGB {
        Some(PixelFormat::Argb8)
    } else if fourcc == FOURCC_YUVS {
        Some(PixelFormat::Yuyv)
    } else if fourcc == FOURCC_2VUY {
        Some(PixelFormat::Uyvy)
    } else {
        None
    }
}

/// Frame format of a single-plane pixel buffer handed out as it is.
pub fn native_packed_format(fourcc: u32) -> (f: Option<PixelFormat>)
    ensures
        f == spec_native_packed_format(fourcc),
{
    if fourcc == FOURCC_BGRA {
        Some(PixelFormat::Bgra8)
    } else if fourcc == FOURCC_ARGB {
        Some(PixelFormat::Argb8)
    } else if fourcc == FOURCC_YUVS {
        Some(PixelFormat::Yuyv)
    } else if fourcc == FOURCC_2VUY {
        Some(PixelFormat::Uyvy)
    } else {
        None
    }
}

/// Frame format of an encoded sample: JPEG or H.264.
pub fn encoded_pixel_format(subtype: u32) -> (f: Option<PixelFormat>)
    ensures
        f == (if subtype == FOURCC_JPEG {
            Some(PixelFormat::Mjpeg)
        } else if subtype == FOURCC_AVC1 {
            Some(PixelFormat::H264)
        } else {
            None
        }),
{
    if subtype == FOURCC_JPEG {
        Some(PixelFormat::Mjpeg)
    } else if subtype == FOURCC_AVC1 {
        Some(PixelFormat::H264)
    } else {
        None
    }
}

/// Bi-planar 4:2:0 buffers are handed out as NV12 when they have two planes
/// and are `420f` or `420v`.
pub fn is_native_nv12(fourcc: u32, plane_count: usize) -> (r: bool)
    ensures
        r == (plane_count == 2 && (fourcc == FOURCC_420V || fourcc == FOURCC_420F)),
{
    plane_count == 2 && (fourcc == FOURCC_420V || fourcc == FOURCC_420F)
}

/// Quantization range of a bi-planar 4:2:0 buffer: `420f` is full range.
pub fn nv12_color_range(fourcc: u32) -> (r: ColorRange)
    ensures
        r == (if fourcc == FOURCC_420F { ColorRange::Full } else { ColorRange::Limited }),
{
    if fourcc == FOURCC_420F { ColorRange::Full } else { ColorRange::Limited }
}

/// Largest plane or packed buffer handed out without copying: 128 MiB.
pub const MAX_NATIVE_BUFFER: usize = 134217728;

/// Byte length of a plane of `rows` rows `stride` bytes apart: `None` when it
/// is empty, overflows or exceeds 128 MiB.
pub fn native_plane_length(stride: usize, rows: usize) -> (r: Option<usize>)
    ensures
        match r {
            Some(n) => n == stride * rows && 0 < n <= MAX_NATIVE_BUFFER,
            None => !(0 < stride * rows <= MAX_NATIVE_BUFFER),
        },
{
    match stride.checked_mul(rows) {
        Some(n) => if n > 0 && n <= MAX_NATIVE_BUFFER { Some(n) } else { None },
        None => None,
    }
}

/// Byte length of a packed buffer of `height` rows `bytes_per_row` apart:
/// `None` when it overflows or exceeds 128 MiB.
pub fn native_packed_length(bytes_per_row: usize, height: u32) -> (r: Option<usize>)
    ensures
        match r {
            Some(n) => n == bytes_per_row * height && n <= MAX_NATIVE_BUFFER,
            None => bytes_per_row * height > MAX_NATIVE_BUFFER,
        },
{
    match bytes_per_row.checked_mul(height as usize) {
        Some(n) => if n <= MAX_NATIVE_BUFFER { Some(n) } else { None },
        None => None,
    }
}

/// Video-range BT.601 factors, used for packed 4:2:2 pixel buffers.
pub open spec fn spec_bt601_limited() -> ColorCoefficients {
    ColorCoefficients { y_scale: 298, y_offset: 16, r_v: 409, g_u: 100, g_v: 208, b_u: 516 }
}

/// Bytes per pixel of a packed pixel buffer format that converts to RGB.
pub open spec fn spec_buffer_bpp(fourcc: u32) -> Option<int> {
    if fourcc == FOURCC_BGRA || fourcc == FOURCC_ARGB {
        Some(4)
    } else if fourcc == FOURCC_YUVS || fourcc == FOURCC_2VUY {
        Some(2)
    } else {
        None
    }
}

/// Why a packed pixel buffer cannot be converted: an unknown format, rows
/// narrower than the image, an odd width for 4:2:2, or data shorter than the
/// rows.
pub open spec fn spec_buffer_failure(fourcc: u32, data_len: int, w: int, h: int, bytes_per_row: int) -> Option<CameraErrorKind> {
    match spec_buffer_bpp(fourcc) {
        None => Some(CameraErrorKind::UnsupportedFormat),
        Some(b) => if bytes_per_row < w * b || (b == 2 && w % 2 == 1) || (w > 0 && h > 0 && (h - 1)
            * bytes_per_row + w * b > data_len) {
            Some(CameraErrorKind::InvalidFormat)
        } else {
            None
        },
    }
}

/// Output byte `j` of the RGB image of a packed pixel buffer.
pub open spec fn spec_buffer_byte(fourcc: u32, data: Seq<u8>, bytes_per_row: int, w: int, j: int) -> u8 {
    if fourcc == FOURCC_BGRA {
        spec_pick_byte(data, bytes_per_row, w, 4, (2u8, 1u8, 0u8), j)
    } else if fourcc == FOURCC_ARGB {
        spec_pick_byte(data, bytes_per_row, w, 4, (1u8, 2u8, 3u8), j)
    } else if fourcc == FOURCC_YUVS {
        spec_packed_byte(data, bytes_per_row, w, false, spec_bt601_limited(), j)
    } else {
        spec_packed_byte(data, bytes_per_row, w, true, spec_bt601_limited(), j)
    }
}

/// Converts a packed pixel buffer (BGRA, ARGB, `yuvs` or `2vuy`) of
/// `width` x `height` pixels, rows `bytes_per_row` apart, into tightly packed
/// RGB.
pub fn convert_pixel_buffer(
    fourcc: u32,
    data: &[u8],
    width: u32,
    height: u32,
    bytes_per_row: usize,
    rgb: &mut [u8],
) -> (r: CameraResult<()>)
    requires
        old(rgb)@.len() == width * height * 3,
        spec_buffer_bpp(fourcc) == Some(4int) ==> height > 0,
    ensures
        final(rgb)@.len() == old(rgb)@.len(),
        r is Ok <==> spec_buffer_failure(fourcc, data@.len() as int, width as int, height as int, bytes_per_row as int) is None,
        r matches Err(e) ==> Some(spec_error_kind(e)) == spec_buffer_failure(fourcc, data@.len() as int, width as int, height as int, bytes_per_row as int)
            && final(rgb)@ == old(rgb)@,
        r is Ok ==> forall|j: int| 0 <= j < width * height * 3 ==> final(rgb)@[j] == spec_buffer_byte(fourcc, data@, bytes_per_row as int, width as int, j),
{
    let bpp: u64 = if fourcc == FOURCC_BGRA || fourcc == FOURCC_ARGB {
        4
    } else if fourcc == FOURCC_YUVS || fourcc == FOURCC_2VUY {
        2
    } else {
        return Err(CameraError::UnsupportedFormat(String::from_str("Unsupported pixel buffer format")));
    };
    let row_bytes: u64 = width as u64 * bpp;
    if (bytes_per_row as u64) < row_bytes || (bpp == 2 && width % 2 == 1) {
        return Err(CameraError::InvalidFormat(String::from_str("Invalid pixel buffer row stride or dimensions")));
    }
    if width == 0 || height == 0 {
        proof {
            assert(width * height * 3 == 0) by (nonlinear_arith)
                requires width == 0 || height == 0;
        }
        return Ok(());
    }
    let rows_before: u128 = height as u128 - 1;
    proof {
        assert(rows_before * (bytes_per_row as u128) <= 0x1_0000_0000u128 * 0x1_0000_0000_0000_0000u128) by (nonlinear_arith)
            requires
                rows_before < 0x1_0000_0000u128,
                (bytes_per_row as u128) < 0x1_0000_0000_0000_0000u128,
        ;
    }
    let needed: u128 = rows_before * (bytes_per_row as u128) + row_bytes as u128;
    if needed > data.len() as u128 {
        return Err(CameraError::InvalidFormat(String::from_str("Pixel buffer is shorter than its rows")));
    }
    let w = width as usize;
    let h = height as usize;
    if fourcc == FOURCC_BGRA {
        pick_rows(data, bytes_per_row, w, h, 4, (2, 1, 0), rgb);
    } else if fourcc == FOURCC_ARGB {
        pick_rows(data, bytes_per_row, w, h, 4, (1, 2, 3), rgb);
    } else {
        let c = ColorCoefficients { y_scale: 298, y_offset: 16, r_v: 409, g_u: 100, g_v: 208, b_u: 516 };
        packed_yuv_rows(data, bytes_per_row, w, h, fourcc == FOURCC_2VUY, &c, rgb);
    }
    Ok(())
}

/// Session presets that pin a capture size.
#[derive(Clone, Copy, Debug, PartialEq, Eq, Structural)]
pub enum SessionPreset {
    Preset640x480,
    Preset1280x720,
    Preset1920x1080,
    Preset3840x2160,
}

/// The preset that keeps a selected format's size, where one exists.
pub fn session_preset(width: i32, height: i32) -> (p: Option<SessionPreset>)
    ensures
        p == (if width == 640 && height == 480 {
            Some(SessionPreset::Preset640x480)
        } else if width == 1280 && height == 720 {
            Some(SessionPreset::Preset1280x720)
        } else if width == 1920 && height == 1080 {
            Some(SessionPreset::Preset1920x1080)
        } else if width == 3840 && height == 2160 {
            Some(SessionPreset::Preset3840x2160)
        } else {
            None
        }),
{
    if width == 640 && height == 480 {
        Some(SessionPreset::Preset640x480)
    } else if width == 1280 && height == 720 {
        Some(SessionPreset::Preset1280x720)
    } else if width == 1920 && height == 1080 {
        Some(SessionPreset::Preset1920x1080)
    } else if width == 3840 && height == 2160 {
        Some(SessionPreset::Preset3840x2160)
    } else {
        None
    }
}

/// The frame duration of a configuration's rate as a `CMTime` value and
/// timescale: `denominator / fps` seconds. `InvalidConfig` when the rate's
/// numerator does not fit a `CMTime` timescale.
pub fn frame_duration(config: &CameraConfig) -> (r: CameraResult<(i64, i32)>)
    ensures
        match r {
            Ok((value, timescale)) => config.fps <= i32::MAX && value == config.fps_denominator && timescale == config.fps,
            Err(e) => config.fps > i32::MAX && e is InvalidConfig,
        },
{
    if config.fps > i32::MAX as u32 {
        return Err(CameraError::InvalidConfig(String::from_str("Frame rate exceeds CMTime range")));
    }
    Ok((config.fps_denominator as i64, config.fps as i32))
}

/// Describes a bi-planar 4:2:0 pixel buffer of pixel format `fourcc`
/// handed out as NV12 from the row stride and row count of its two planes:
/// the luma plane, then the interleaved chroma plane after it. Its colorimetry
/// is `matrix` (as the buffer's YCbCr matrix attachment names it, `Unknown`
/// without one) and the range of the pixel format. `None` (the frame is
/// dropped) when a plane is empty, overflows or exceeds 128 MiB.
pub fn native_nv12_layout(
    width: u32,
    height: u32,
    fourcc: u32,
    matrix: ColorMatrix,
    luma: (usize, usize),
    chroma: (usize, usize),
) -> (r: Option<FrameLayout>)
    ensures
        match r {
            Some(layout) => {
                &&& 0 < luma.0 * luma.1 <= MAX_NATIVE_BUFFER && 0 < chroma.0 * chroma.1 <= MAX_NATIVE_BUFFER
                &&& layout.width == width && layout.height == height && layout.format == PixelFormat::Nv12
                &&& !layout.bottom_up
                &&& layout.color == Some(ColorInfo {
                    matrix,
                    range: if fourcc == FOURCC_420F { ColorRange::Full } else { ColorRange::Limited },
                })
                &&& layout.planes@ == seq![
                    PlaneLayout { offset: 0, length: (luma.0 * luma.1) as usize, row_stride: luma.0, pixel_stride: 1 },
                    PlaneLayout {
                        offset: (luma.0 * luma.1) as usize,
                        length: (chroma.0 * chroma.1) as usize,
                        row_stride: chroma.0,
                        pixel_stride: 2,
                    },
                ]
            },
            None => !(0 < luma.0 * luma.1 <= MAX_NATIVE_BUFFER) || !(0 < chroma.0 * chroma.1 <= MAX_NATIVE_BUFFER),
        },
{
    let y_len = match native_plane_length(luma.0, luma.1) {
        Some(n) => n,
        None => return None,
    };
    let uv_len = match native_plane_length(chroma.0, chroma.1) {
        Some(n) => n,
        None => return None,
    };
    let mut planes: Vec<PlaneLayout> = Vec::new();
    planes.push(PlaneLayout { offset: 0, length: y_len, row_stride: luma.0, pixel_stride: 1 });
    planes.push(PlaneLayout { offset: y_len, length: uv_len, row_stride: chroma.0, pixel_stride: 2 });
    let color = ColorInfo { matrix, range: nv12_color_range(fourcc) };
    Some(FrameLayout { width, height, format: PixelFormat::Nv12, planes, bottom_up: false, color: Some(color) })
}

/// Describes a single-plane pixel buffer handed out as it is. `None` (the
/// frame is dropped) for a format without a packed frame format, or a buffer
/// that overflows or exceeds 128 MiB.
pub fn native_packed_layout(width: u32, height: u32, fourcc: u32, bytes_per_row: usize) -> (r: Option<FrameLayout>)
    ensures
        match r {
            Some(layout) => spec_native_packed_format(fourcc) matches Some(format) && bytes_per_row * height <= MAX_NATIVE_BUFFER
                && layout.width == width && layout.height == height && layout.format == format && !layout.bottom_up
                && layout.planes@ == seq![PlaneLayout {
                    offset: 0,
                    length: (bytes_per_row * height) as usize,
                    row_stride: bytes_per_row,
                    pixel_stride: spec_pixel_stride(format),
                }],
            None => spec_native_packed_format(fourcc) is None || bytes_per_row * height > MAX_NATIVE_BUFFER,
        },
{
    let format = match native_packed_format(fourcc) {
        Some(f) => f,
        None => return None,
    };
    let length = match native_packed_length(bytes_per_row, height) {
        Some(n) => n,
        None => return None,
    };
    Some(FrameLayout::packed(width, height, format, bytes_per_row, length))
}

} // verus!
