//! Linux Video4Linux2: driver format codes, frame-size and frame-interval
//! descriptors, and conversion of mapped driver buffers into RGB.
use vstd::prelude::*;
use crate::color::{
    ColorCoefficients, ColorInfo, ColorMatrix, ColorRange, bt601_full_coefficients, bt601_full_spec, spec_v4l2_matrix,
    v4l2_colorimetry,
};
use crate::convert::{
    check_rows, spec_gray_byte, spec_packed_byte, spec_rgb_byte, spec_rows_fit,
    spec_semiplanar_byte,
};
use crate::error::{CameraError, CameraErrorKind, CameraResult, spec_error_kind};
use crate::format::{spec_pixel_stride, FrameLayout, PixelFormat, PlaneLayout, VideoFormat};
use crate::rate::{CameraConfig, FrameRate, lemma_u32_product};

verus! {

/// Little-endian FourCC code of four ASCII bytes.
pub open spec fn spec_fourcc(a: u8, b: u8, c: u8, d: u8) -> u32 {
    (a + b * 0x100 + c * 0x1_0000 + d * 0x100_0000) as u32
}

pub const FOURCC_MJPG: u32 = 0x4750_4A4D;
pub const FOURCC_YUYV: u32 = 0x5659_5559;
pub const FOURCC_UYVY: u32 = 0x5956_5955;
pub const FOURCC_NV12: u32 = 0x3231_564E;
pub const FOURCC_NM12: u32 = 0x3231_4D4E;
pub const FOURCC_RGB3: u32 = 0x3342_4752;
pub const FOURCC_GREY: u32 = 0x5945_5247;

/// The codes are the FourCCs `MJPG`, `YUYV`, `UYVY`, `NV12`, `NM12`, `RGB3`, `GREY`.
pub proof fn lemma_fourcc_codes()
    ensures
        FOURCC_MJPG == spec_fourcc(0x4D, 0x4A, 0x50, 0x47),
        FOURCC_YUYV == spec_fourcc(0x59, 0x55, 0x59, 0x56),
        FOURCC_UYVY == spec_fourcc(0x55, 0x59, 0x56, 0x59),
        FOURCC_NV12 == spec_fourcc(0x4E, 0x56, 0x31, 0x32),
        FOURCC_NM12 == spec_fourcc(0x4E, 0x4D, 0x31, 0x32),
        FOURCC_RGB3 == spec_fourcc(0x52, 0x47, 0x42, 0x33),
        FOURCC_GREY == spec_fourcc(0x47, 0x52, 0x45, 0x59),
{
}

pub open spec fn spec_from_fourcc(code: u32) -> Option<VideoFormat> {
    if code == FOURCC_MJPG {
        Some(VideoFormat::MJPEG)
    } else if code == FOURCC_YUYV {
        Some(VideoFormat::YUYV)
    } else if code == FOURCC_UYVY {
        Some(VideoFormat::UYVY)
    } else if code == FOURCC_NV12 || code == FOURCC_NM12 {
        Some(VideoFormat::NV12)
    } else if code == FOURCC_RGB3 {
        Some(VideoFormat::RGB)
    } else if code == FOURCC_GREY {
        Some(VideoFormat::Gray)
    } else {
        None
    }
}

pub open spec fn spec_to_fourcc(format: VideoFormat) -> Option<u32> {
    match format {
        VideoFormat::MJPEG => Some(FOURCC_MJPG),
        VideoFormat::YUYV => Some(FOURCC_YUYV),
        VideoFormat::UYVY => Some(FOURCC_UYVY),
        VideoFormat::NV12 => Some(FOURCC_NV12),
        VideoFormat::RGB => Some(FOURCC_RGB3),
        VideoFormat::Gray => Some(FOURCC_GREY),
        VideoFormat::H264 => None,
    }
}

/// The format of a V4L2 pixel format code; `None` for codes this library
/// cannot decode.
pub fn from_fourcc(code: u32) -> (f: Option<VideoFormat>)
    ensures
        f == spec_from_fourcc(code),
{
    if code == FOURCC_MJPG {
        Some(VideoFormat::MJPEG)
    } else if code == FOURCC_YUYV {
        Some(VideoFormat::YUYV)
    } else if code == FOURCC_UYVY {
        Some(VideoFormat::UYVY)
    } else if code == FOURCC_NV12 || code == FOURCC_NM12 {
        Some(VideoFormat::NV12)
    } else if code == FOURCC_RGB3 {
        Some(VideoFormat::RGB)
    } else if code == FOURCC_GREY {
        Some(VideoFormat::Gray)
    } else {
        None
    }
}

/// The V4L2 pixel format code of a format; H.264 is refused.
pub fn to_fourcc(format: VideoFormat) -> (r: CameraResult<u32>)
    ensures
        match spec_to_fourcc(format) {
            Some(code) => r == Ok::<u32, CameraError>(code),
            None => r matches Err(e) && e is UnsupportedFormat,
        },
{
    match format {
        VideoFormat::MJPEG => Ok(FOURCC_MJPG),
        VideoFormat::YUYV => Ok(FOURCC_YUYV),
        VideoFormat::UYVY => Ok(FOURCC_UYVY),
        VideoFormat::NV12 => Ok(FOURCC_NV12),
        VideoFormat::RGB => Ok(FOURCC_RGB3),
        VideoFormat::Gray => Ok(FOURCC_GREY),
        VideoFormat::H264 => Err(CameraError::UnsupportedFormat(String::from_str("V4L2 cannot decode H264"))),
    }
}

/// Every format that has a code reads back from it.
pub proof fn lemma_fourcc_round_trip(format: VideoFormat)
    ensures
        spec_to_fourcc(format) matches Some(code) ==> spec_from_fourcc(code) == Some(format),
        spec_to_fourcc(format) is None <==> format == VideoFormat::H264,
{
}

/// One plane of a mapped driver buffer: its bytes and the distance between rows.
#[derive(Clone, Copy)]
pub struct Plane<'a> {
    pub data: &'a [u8],
    pub stride: usize,
}

/// The chroma plane of an NV12 frame: the second plane, or the bytes after
/// `stride * height` luma bytes of a single contiguous plane.
pub open spec fn spec_nv12_chroma(planes: Seq<Plane>, h: int) -> Option<(Seq<u8>, int)> {
    if planes.len() == 2 {
        Some((planes[1].data@, planes[1].stride as int))
    } else {
        let offset = planes[0].stride * h;
        if offset <= planes[0].data@.len() {
            Some((planes[0].data@.subrange(offset, planes[0].data@.len() as int), planes[0].stride as int))
        } else {
            None
        }
    }
}

/// `None` when a conversion succeeds, otherwise the category of its error.
pub open spec fn spec_convert_failure(config: CameraConfig, planes: Seq<Plane>, rgb_len: int) -> Option<CameraErrorKind> {
    let w = config.width as int;
    let h = config.height as int;
    if !config.spec_valid() {
        Some(CameraErrorKind::InvalidConfig)
    } else if w * h * 3 > usize::MAX || rgb_len < w * h * 3 {
        Some(CameraErrorKind::InvalidFormat)
    } else if planes.len() == 0 {
        Some(CameraErrorKind::InvalidFormat)
    } else if planes.len() != 1 && !(config.format == VideoFormat::NV12 && planes.len() == 2) {
        Some(CameraErrorKind::InvalidFormat)
    } else {
        let first = planes[0];
        match config.format {
            VideoFormat::NV12 => match spec_nv12_chroma(planes, h) {
                Some((uv, uv_stride)) => if spec_rows_fit(first.data@.len() as int, first.stride as int, w, h)
                    && spec_rows_fit(uv.len() as int, uv_stride, (w + 1) / 2 * 2, (h + 1) / 2) {
                    None
                } else {
                    Some(CameraErrorKind::InvalidFormat)
                },
                None => Some(CameraErrorKind::InvalidFormat),
            },
            VideoFormat::YUYV | VideoFormat::UYVY => if w % 2 == 0 && spec_rows_fit(
                first.data@.len() as int,
                first.stride as int,
                2 * w,
                h,
            ) {
                None
            } else {
                Some(CameraErrorKind::InvalidFormat)
            },
            VideoFormat::RGB => if spec_rows_fit(first.data@.len() as int, first.stride as int, 3 * w, h) {
                None
            } else {
                Some(CameraErrorKind::InvalidFormat)
            },
            VideoFormat::Gray => if spec_rows_fit(first.data@.len() as int, first.stride as int, w, h) {
                None
            } else {
                Some(CameraErrorKind::InvalidFormat)
            },
            _ => Some(CameraErrorKind::UnsupportedFormat),
        }
    }
}

/// Output byte `j` of a successful conversion.
pub open spec fn spec_converted_byte(
    config: CameraConfig,
    planes: Seq<Plane>,
    c: ColorCoefficients,
    j: int,
) -> u8 {
    let w = config.width as int;
    let first = planes[0];
    match config.format {
        VideoFormat::RGB => spec_rgb_byte(first.data@, first.stride as int, w, j),
        VideoFormat::Gray => spec_gray_byte(first.data@, first.stride as int, w, j),
        VideoFormat::YUYV => spec_packed_byte(first.data@, first.stride as int, w, false, c, j),
        VideoFormat::UYVY => spec_packed_byte(first.data@, first.stride as int, w, true, c, j),
        _ => {
            let (uv, uv_stride) = spec_nv12_chroma(planes, config.height as int).unwrap();
            spec_semiplanar_byte(first.data@, first.stride as int, uv, uv_stride, w, false, c, j)
        },
    }
}

/// Converts mapped V4L2 buffers into tightly packed RGB with the negotiated
/// colorimetry. Compressed frames are decoded by the JPEG decoder, not here.
pub struct Converter {
    coefficients: ColorCoefficients,
}

impl Converter {
    pub closed spec fn coefficients(self) -> ColorCoefficients {
        self.coefficients
    }

    pub closed spec fn wf(self) -> bool {
        self.coefficients.wf()
    }

    /// A converter for full-range BT.601, the V4L2 default.
    pub fn new() -> (r: CameraResult<Converter>)
        ensures
            r matches Ok(c) && c.wf() && c.coefficients() == bt601_full_spec(),
    {
        Ok(Converter { coefficients: bt601_full_coefficients() })
    }

    /// Adopts the negotiated YCbCr encoding and quantization. Unknown
    /// encodings are refused and leave the converter unchanged.
    pub fn set_colorimetry(&mut self, matrix: u32, full: bool) -> (r: CameraResult<()>)
        requires
            old(self).wf(),
        ensures
            final(self).wf(),
            match r {
                Ok(_) => crate::color::spec_v4l2_matrix(matrix) is Some && final(self).coefficients()
                    == crate::color::spec_color_coefficients(
                    crate::color::ColorInfo {
                        matrix: crate::color::spec_v4l2_matrix(matrix).unwrap(),
                        range: if full {
                            crate::color::ColorRange::Full
                        } else {
                            crate::color::ColorRange::Limited
                        },
                    },
                ),
                Err(e) => crate::color::spec_v4l2_matrix(matrix) is None && e is UnsupportedFormat
                    && *final(self) == *old(self),
            },
    {
        match v4l2_colorimetry(matrix, full) {
            Ok(c) => {
                self.coefficients = c;
                Ok(())
            },
            Err(e) => Err(e),
        }
    }

    /// Converts one frame into `rgb`. Succeeds exactly when
    /// `spec_convert_failure` is `None`; then the first `width * height * 3`
    /// bytes hold the image and the rest of `rgb` is untouched. On failure
    /// `rgb` is untouched.
    pub fn convert(&mut self, config: &CameraConfig, planes: &[Plane], rgb: &mut [u8]) -> (r: CameraResult<()>)
        requires
            old(self).wf(),
        ensures
            *final(self) == *old(self),
            final(rgb)@.len() == old(rgb)@.len(),
            match spec_convert_failure(*config, planes@, old(rgb)@.len() as int) {
                None => r is Ok && (forall|j: int|
                    0 <= j < config.width * config.height * 3 ==> final(rgb)@[j] == spec_converted_byte(
                        *config,
                        planes@,
                        old(self).coefficients(),
                        j,
                    )) && (forall|j: int|
                    config.width * config.height * 3 <= j < old(rgb)@.len() ==> final(rgb)@[j]
                        == old(rgb)@[j]),
                Some(kind) => r matches Err(e) && spec_error_kind(e) == kind && final(rgb)@
                    == old(rgb)@,
            },
    {
        match config.validate() {
            Ok(_) => {},
            Err(e) => return Err(e),
        }
        let w = config.width as usize;
        let h = config.height as usize;
        let length = match w.checked_mul(h) {
            Some(n) => match n.checked_mul(3) {
                Some(m) => m,
                None => return Err(CameraError::InvalidFormat(String::from_str("RGB dimensions overflow"))),
            },
            None => {
                proof {
                    assert(w * h * 3 > usize::MAX) by (nonlinear_arith)
                        requires w * h > usize::MAX;
                }
                return Err(CameraError::InvalidFormat(String::from_str("RGB dimensions overflow")))
            },
        };
        proof {
            assert(w * 3 <= length && (h + 1) / 2 <= h) by (nonlinear_arith)
                requires
                    h >= 1,
                    length == w * h * 3,
            ;
        }
        if rgb.len() < length {
            return Err(CameraError::InvalidFormat(String::from_str("RGB output is too short")));
        }
        if planes.len() == 0 {
            return Err(CameraError::InvalidFormat(String::from_str("frame has no planes")));
        }
        if planes.len() != 1 && !(config.format == VideoFormat::NV12 && planes.len() == 2) {
            return Err(CameraError::InvalidFormat(String::from_str("Unexpected plane count")));
        }
        let first = planes[0];
        match config.format {
            VideoFormat::NV12 => {
                let (uv, uv_stride) = if planes.len() == 2 {
                    (planes[1].data, planes[1].stride)
                } else {
                    let offset = match first.stride.checked_mul(h) {
                        Some(o) => o,
                        None => {
                            let first_len = first.data.len();
                            proof {
                                assert(first.stride * h > first_len);
                            }
                            return Err(CameraError::InvalidFormat(String::from_str("NV12 plane offset overflow")));
                        },
                    };
                    if offset > first.data.len() {
                        return Err(CameraError::InvalidFormat(String::from_str("Truncated NV12 luma plane")));
                    }
                    (vstd::slice::slice_subrange(first.data, offset, first.data.len()), first.stride)
                };
                match check_rows(first.data.len(), first.stride, w, h) {
                    Ok(_) => {},
                    Err(e) => return Err(e),
                }
                let chroma_row = (w / 2 + w % 2) * 2;
                let chroma_rows = h / 2 + h % 2;
                match check_rows(uv.len(), uv_stride, chroma_row, chroma_rows) {
                    Ok(_) => {},
                    Err(e) => return Err(e),
                }
                crate::convert::semiplanar_rows(first.data, first.stride, uv, uv_stride, w, h, false, &self.coefficients, rgb);
            },
            VideoFormat::YUYV | VideoFormat::UYVY => {
                if w % 2 != 0 {
                    return Err(CameraError::InvalidFormat(String::from_str("4:2:2 frames need an even width")));
                }
                match check_rows(first.data.len(), first.stride, 2 * w, h) {
                    Ok(_) => {},
                    Err(e) => return Err(e),
                }
                let uyvy = config.format == VideoFormat::UYVY;
                crate::convert::packed_yuv_rows(first.data, first.stride, w, h, uyvy, &self.coefficients, rgb);
            },
            VideoFormat::RGB => {
                match check_rows(first.data.len(), first.stride, 3 * w, h) {
                    Ok(_) => {},
                    Err(e) => return Err(e),
                }
                crate::convert::copy_rgb_rows(first.data, first.stride, w, h, rgb);
            },
            VideoFormat::Gray => {
                match check_rows(first.data.len(), first.stride, w, h) {
                    Ok(_) => {},
                    Err(e) => return Err(e),
                }
                crate::convert::expand_gray_rows(first.data, first.stride, w, h, rgb);
            },
            _ => {
                return Err(CameraError::UnsupportedFormat(String::from_str("V4L2 conversion needs an uncompressed format")));
            },
        }
        Ok(())
    }
}

/// A frame-size descriptor: kind 1 discrete, 2 continuous, 3 stepwise.
#[derive(Clone, Copy, Debug, Default, PartialEq, Eq, Structural)]
pub struct Size {
    pub kind: u32,
    pub min_w: u32,
    pub max_w: u32,
    pub step_w: u32,
    pub min_h: u32,
    pub max_h: u32,
    pub step_h: u32,
}

/// A frame-interval descriptor in seconds per frame: kind 1 discrete,
/// 2 continuous, 3 stepwise.
#[derive(Clone, Copy, Debug, Default, PartialEq, Eq, Structural)]
pub struct Interval {
    pub kind: u32,
    pub min_n: u32,
    pub min_d: u32,
    pub max_n: u32,
    pub max_d: u32,
    pub step_n: u32,
    pub step_d: u32,
}

pub open spec fn spec_step(step: u32) -> int {
    if step == 0 {
        1
    } else {
        step as int
    }
}

/// `(w, h)` lies inside a ranged descriptor, on its step grid.
pub open spec fn spec_on_grid(size: Size, w: u32, h: u32) -> bool {
    &&& size.min_w <= w <= size.max_w
    &&& size.min_h <= h <= size.max_h
    &&& (w - size.min_w) % spec_step(size.step_w) == 0
    &&& (h - size.min_h) % spec_step(size.step_h) == 0
}

/// Resolutions tried for a ranged descriptor: its end points, then common
/// aligned sizes.
pub open spec fn spec_dimension_candidates(size: Size) -> Seq<(u32, u32)> {
    seq![
        (size.min_w, size.min_h),
        (size.max_w, size.max_h),
        (320u32, 240u32),
        (640u32, 480u32),
        (800u32, 600u32),
        (1024u32, 768u32),
        (1280u32, 720u32),
        (1280u32, 960u32),
        (1920u32, 1080u32),
        (2560u32, 1440u32),
        (3840u32, 2160u32),
    ]
}

fn on_grid(size: &Size, w: u32, h: u32) -> (r: bool)
    ensures
        r == spec_on_grid(*size, w, h),
{
    let sw = if size.step_w == 0 { 1 } else { size.step_w };
    let sh = if size.step_h == 0 { 1 } else { size.step_h };
    w >= size.min_w && w <= size.max_w && h >= size.min_h && h <= size.max_h && (w - size.min_w) % sw == 0
        && (h - size.min_h) % sh == 0
}

/// `result` lists candidates in the order they first occur in `cands`.
pub open spec fn spec_in_first_occurrence_order(cands: Seq<(u32, u32)>, result: Seq<(u32, u32)>) -> bool {
    exists|idx: Seq<int>| {
        &&& idx.len() == result.len()
        &&& forall|t: int| 0 <= t < idx.len() ==> 0 <= #[trigger] idx[t] < cands.len() && result[t] == cands[idx[t]]
            && forall|m: int| 0 <= m < idx[t] ==> cands[m] != result[t]
        &&& forall|a: int, b: int| 0 <= a < b < idx.len() ==> idx[a] < idx[b]
    }
}

/// Ranged drivers can advertise millions of sizes. Returns the end points and
/// the common resolutions that lie on the descriptor's grid, each once, in the
/// order they are tried.
pub fn dimensions(size: &Size) -> (result: Vec<(u32, u32)>)
    ensures
        spec_in_first_occurrence_order(spec_dimension_candidates(*size), result@),
        forall|i: int| 0 <= i < result@.len() ==> spec_on_grid(*size, result@[i].0, result@[i].1)
            && spec_dimension_candidates(*size).contains(#[trigger] result@[i]),
        forall|i: int, j: int| 0 <= i < j < result@.len() ==> result@[i] != result@[j],
        forall|k: int|
            0 <= k < 11 && #[trigger] spec_on_grid(
                *size,
                spec_dimension_candidates(*size)[k].0,
                spec_dimension_candidates(*size)[k].1,
            ) ==> result@.contains(spec_dimension_candidates(*size)[k]),
{
    let candidates: [(u32, u32); 11] = [
        (size.min_w, size.min_h),
        (size.max_w, size.max_h),
        (320, 240),
        (640, 480),
        (800, 600),
        (1024, 768),
        (1280, 720),
        (1280, 960),
        (1920, 1080),
        (2560, 1440),
        (3840, 2160),
    ];
    let ghost cands = spec_dimension_candidates(*size);
    assert(candidates@ =~= cands);
    let mut result: Vec<(u32, u32)> = Vec::new();
    let ghost mut idx: Seq<int> = Seq::empty();
    let mut k: usize = 0;
    while k < 11
        invariant
            k <= 11,
            candidates@ == cands,
            cands.len() == 11,
            idx.len() == result@.len(),
            forall|t: int| 0 <= t < idx.len() ==> 0 <= #[trigger] idx[t] < k && result@[t] == cands[idx[t]]
                && forall|m: int| 0 <= m < idx[t] ==> cands[m] != result@[t],
            forall|a: int, b: int| 0 <= a < b < idx.len() ==> idx[a] < idx[b],
            cands == spec_dimension_candidates(*size),
            forall|i: int| 0 <= i < result@.len() ==> spec_on_grid(*size, result@[i].0, result@[i].1)
                && cands.contains(#[trigger] result@[i]),
            forall|i: int, j: int| 0 <= i < j < result@.len() ==> result@[i] != result@[j],
            forall|m: int|
                0 <= m < k && #[trigger] spec_on_grid(*size, cands[m].0, cands[m].1) ==> result@.contains(cands[m]),
        decreases 11 - k,
    {
        let (w, h) = candidates[k];
        if on_grid(size, w, h) {
            let mut present = false;
            let mut i: usize = 0;
            while i < result.len()
                invariant
                    i <= result@.len(),
                    present <==> exists|t: int| 0 <= t < i && result@[t] == (w, h),
                decreases result@.len() - i,
            {
                if result[i].0 == w && result[i].1 == h {
                    present = true;
                }
                i = i + 1;
            }
            if !present {
                proof {
                    assert(cands[k as int] == (w, h));
                    assert(cands.contains((w, h)));
                }
                let ghost before = result@;
                proof {
                    assert forall|m: int| 0 <= m < k implies cands[m] != (w, h) by {
                        if cands[m] == (w, h) {
                            assert(spec_on_grid(*size, cands[m].0, cands[m].1));
                            assert(before.contains(cands[m]));
                            let t = choose|t: int| 0 <= t < before.len() && before[t] == cands[m];
                        }
                    }
                }
                result.push((w, h));
                proof {
                    idx = idx.push(k as int);
                    assert(result@[result@.len() - 1] == (w, h));
                    assert forall|m: int|
                        0 <= m < k + 1 && #[trigger] spec_on_grid(*size, cands[m].0, cands[m].1) implies result@.contains(cands[m]) by {
                        if m < k {
                            let t = choose|t: int| 0 <= t < before.len() && before[t] == cands[m];
                            assert(result@[t] == cands[m]);
                        } else {
                            assert(result@[result@.len() - 1] == cands[m]);
                        }
                    }
                }
            } else {
                proof {
                    let t = choose|t: int| 0 <= t < result@.len() && result@[t] == (w, h);
                    assert(result@.contains(cands[k as int]));
                }
            }
        }
        k = k + 1;
    }
    proof {
        assert(spec_in_first_occurrence_order(spec_dimension_candidates(*size), result@)) by {
            assert(idx.len() == result@.len());
        }
    }
    result
}

/// A descriptor accepts `(width, height)`: inside its bounds and, unless it
/// is continuous, on its step grid.
pub open spec fn spec_size_supports(size: Size, width: u32, height: u32) -> bool {
    &&& size.min_w <= width <= size.max_w
    &&& size.min_h <= height <= size.max_h
    &&& (size.kind == 2 || ((width - size.min_w) % spec_step(size.step_w) == 0 && (height
        - size.min_h) % spec_step(size.step_h) == 0))
}

pub fn size_supports(size: &Size, width: u32, height: u32) -> (r: bool)
    ensures
        r == spec_size_supports(*size, width, height),
{
    if width < size.min_w || width > size.max_w || height < size.min_h || height > size.max_h {
        return false;
    }
    if size.kind == 2 {
        return true;
    }
    let sw = if size.step_w == 0 { 1 } else { size.step_w };
    let sh = if size.step_h == 0 { 1 } else { size.step_h };
    (width - size.min_w) % sw == 0 && (height - size.min_h) % sh == 0
}

/// An interval descriptor accepts a frame rate: its period
/// `den / num` lies between the minimum and maximum periods and, for discrete
/// descriptors equals the minimum, for stepwise ones lies on the step grid.
pub open spec fn spec_interval_supports(interval: Interval, rate_num: int, rate_den: int) -> bool {
    let tn = rate_den;
    let td = rate_num;
    let min_n = interval.min_n as int;
    let min_d = interval.min_d as int;
    let max_n = interval.max_n as int;
    let max_d = interval.max_d as int;
    if min_n == 0 || min_d == 0 || max_n == 0 || max_d == 0 {
        false
    } else if tn * min_d < min_n * td || tn * max_d > max_n * td {
        false
    } else if interval.kind == 1 {
        tn * min_d == min_n * td
    } else if interval.kind == 2 {
        true
    } else if interval.step_n == 0 || interval.step_d == 0 {
        false
    } else {
        let scaled_delta = (tn * min_d - min_n * td) * interval.step_d;
        let scaled_step = td * min_d * interval.step_n;
        scaled_step != 0 && scaled_delta % scaled_step == 0
    }
}

/// Whether a frame-interval descriptor offers `rate`.
pub fn interval_supports(interval: &Interval, rate: FrameRate) -> (r: bool)
    requires
        rate.wf(),
    ensures
        r == spec_interval_supports(*interval, rate.num() as int, rate.den() as int),
{
    if interval.min_n == 0 || interval.min_d == 0 || interval.max_n == 0 || interval.max_d == 0 {
        return false;
    }
    let rate_den = rate.denominator();
    let rate_num = rate.numerator();
    let target_n = rate_den as i128;
    let target_d = rate_num as i128;
    let min_n = interval.min_n as i128;
    let min_d = interval.min_d as i128;
    let max_n = interval.max_n as i128;
    let max_d = interval.max_d as i128;
    proof {
        lemma_u32_product(rate_den, interval.min_d);
        lemma_u32_product(interval.min_n, rate_num);
        lemma_u32_product(rate_den, interval.max_d);
        lemma_u32_product(interval.max_n, rate_num);
        lemma_u32_product(rate_num, interval.min_d);
    }
    if target_n * min_d < min_n * target_d || target_n * max_d > max_n * target_d {
        return false;
    }
    if interval.kind == 1 {
        return target_n * min_d == min_n * target_d;
    }
    if interval.kind == 2 {
        return true;
    }
    if interval.step_n == 0 || interval.step_d == 0 {
        return false;
    }
    let delta_n = target_n * min_d - min_n * target_d;
    let delta_d = target_d * min_d;
    proof {
        assert(0 <= delta_n * (interval.step_d as i128) <= 0xFFFF_FFFE_0000_0001 * 0xFFFF_FFFF) by (nonlinear_arith)
            requires
                0 <= delta_n <= 0xFFFF_FFFE_0000_0001,
                0 <= interval.step_d <= 0xFFFF_FFFF,
        ;
        assert(0 <= delta_d * (interval.step_n as i128) <= 0xFFFF_FFFE_0000_0001 * 0xFFFF_FFFF) by (nonlinear_arith)
            requires
                0 <= delta_d <= 0xFFFF_FFFE_0000_0001,
                0 <= interval.step_n <= 0xFFFF_FFFF,
        ;
    }
    let scaled_delta = delta_n * (interval.step_d as i128);
    let scaled_step = delta_d * (interval.step_n as i128);
    scaled_step != 0 && scaled_delta % scaled_step == 0
}

/// Whole frame rates tried inside a ranged interval descriptor.
pub open spec fn spec_common_rates() -> Seq<u32> {
    seq![1u32, 5, 10, 15, 24, 25, 30, 50, 60, 90, 120, 240, 480]
}

/// A whole rate `fps` lies inside a ranged descriptor and on its step grid:
/// the period `1 / fps` is between the minimum and maximum periods and differs
/// from the minimum by a whole number of steps.
pub open spec fn spec_rate_in_range(interval: Interval, fps: int) -> bool {
    let min_n = interval.min_n as int;
    let min_d = interval.min_d as int;
    let max_n = interval.max_n as int;
    let max_d = interval.max_d as int;
    &&& min_d >= fps * min_n
    &&& max_d <= fps * max_n
    &&& (interval.kind == 2 || (interval.step_n > 0 && interval.step_d > 0 && ((min_d - fps * min_n)
        * interval.step_d) % (fps * min_d * interval.step_n) == 0))
}

/// A whole rate strictly between the slowest and fastest rate of a ranged
/// descriptor and on its step grid.
pub open spec fn spec_mid_rate(interval: Interval, fps: u32) -> bool {
    &&& spec_rate_in_range(interval, fps as int)
    &&& interval.max_d < fps * interval.max_n
    &&& fps * interval.min_n < interval.min_d
}

/// Whole rates listed between the end points of a ranged descriptor.
pub open spec fn spec_mid_rates(interval: Interval) -> Seq<u32> {
    spec_common_rates().filter(|fps: u32| spec_mid_rate(interval, fps))
}

fn mid_rate(interval: &Interval, fps: u32) -> (r: bool)
    requires
        1 <= fps <= 480,
    ensures
        r == spec_mid_rate(*interval, fps),
{
    let f = fps as u128;
    let min_n = interval.min_n as u128;
    let min_d = interval.min_d as u128;
    let max_n = interval.max_n as u128;
    let max_d = interval.max_d as u128;
    proof {
        assert(f * min_n <= 480 * 0xFFFF_FFFF) by (nonlinear_arith)
            requires f <= 480, min_n <= 0xFFFF_FFFF;
        assert(f * max_n <= 480 * 0xFFFF_FFFF) by (nonlinear_arith)
            requires f <= 480, max_n <= 0xFFFF_FFFF;
        assert(f * min_d <= 480 * 0xFFFF_FFFF) by (nonlinear_arith)
            requires f <= 480, min_d <= 0xFFFF_FFFF;
    }
    if min_d < f * min_n || max_d > f * max_n {
        return false;
    }
    if !(max_d < f * max_n && f * min_n < min_d) {
        return false;
    }
    if interval.kind == 2 {
        return true;
    }
    if interval.step_n == 0 || interval.step_d == 0 {
        return false;
    }
    let delta = min_d - f * min_n;
    proof {
        assert(delta * (interval.step_d as u128) <= 0xFFFF_FFFF * 0xFFFF_FFFF) by (nonlinear_arith)
            requires delta <= 0xFFFF_FFFF, interval.step_d <= 0xFFFF_FFFF;
        assert((f * min_d) * (interval.step_n as u128) <= 480 * 0xFFFF_FFFF * 0xFFFF_FFFF) by (nonlinear_arith)
            requires f * min_d <= 480 * 0xFFFF_FFFF, interval.step_n <= 0xFFFF_FFFF;
        assert((f * min_d) * (interval.step_n as u128) > 0) by (nonlinear_arith)
            requires f >= 1, min_d > f * min_n, interval.step_n > 0;
    }
    let scaled_delta = delta * (interval.step_d as u128);
    let scaled_step = f * min_d * (interval.step_n as u128);
    scaled_delta % scaled_step == 0
}

/// Frame rates offered by one interval descriptor, slowest first. A discrete
/// descriptor offers its single rate; a ranged one offers its slowest rate,
/// the common whole rates strictly inside its range and on its grid, and its
/// fastest rate. A descriptor with a zero term offers nothing.
#[verifier::spinoff_prover]
pub fn interval_rates(interval: &Interval) -> (rates: Vec<FrameRate>)
    ensures
        (interval.min_n == 0 || interval.min_d == 0 || interval.max_n == 0 || interval.max_d == 0)
            ==> rates@.len() == 0,
        !(interval.min_n == 0 || interval.min_d == 0 || interval.max_n == 0 || interval.max_d == 0)
            ==> {
            let fastest = FrameRate::spec_reduced(interval.min_d as nat, interval.min_n as nat);
            let slowest = FrameRate::spec_reduced(interval.max_d as nat, interval.max_n as nat);
            let mids = spec_mid_rates(*interval);
            if interval.kind == 1 {
                rates@.len() == 1 && (rates@[0].num(), rates@[0].den()) == fastest
            } else if interval.min_d * interval.max_n < interval.max_d * interval.min_n {
                rates@.len() == 2 && (rates@[0].num(), rates@[0].den()) == fastest
                    && (rates@[1].num(), rates@[1].den()) == slowest
            } else {
                &&& rates@.len() == mids.len() + 2
                &&& (rates@[0].num(), rates@[0].den()) == slowest
                &&& (rates@[rates@.len() - 1].num(), rates@[rates@.len() - 1].den()) == fastest
                &&& forall|i: int|
                    0 <= i < mids.len() ==> rates@[i + 1].num() == mids[i] && rates@[i + 1].den()
                        == 1
            }
        },
        forall|i: int| 0 <= i < rates@.len() ==> (#[trigger] rates@[i]).wf(),
{
    let fastest = match FrameRate::new(interval.min_d, interval.min_n) {
        Ok(r) => r,
        Err(_) => return Vec::new(),
    };
    let slowest = match FrameRate::new(interval.max_d, interval.max_n) {
        Ok(r) => r,
        Err(_) => return Vec::new(),
    };
    let mut rates: Vec<FrameRate> = Vec::new();
    if interval.kind == 1 {
        rates.push(fastest);
        return rates;
    }
    proof {
        lemma_u32_product(interval.min_d, interval.max_n);
        lemma_u32_product(interval.max_d, interval.min_n);
    }
    if (interval.min_d as u64) * (interval.max_n as u64) < (interval.max_d as u64) * (interval.min_n as u64) {
        rates.push(fastest);
        rates.push(slowest);
        return rates;
    }
    rates.push(slowest);
    let common: [u32; 13] = [1, 5, 10, 15, 24, 25, 30, 50, 60, 90, 120, 240, 480];
    let ghost pred = |fps: u32| spec_mid_rate(*interval, fps);
    assert(common@ =~= spec_common_rates());
    let mut k: usize = 0;
    while k < 13
        invariant
            k <= 13,
            common@ == spec_common_rates(),
            pred == (|fps: u32| spec_mid_rate(*interval, fps)),
            rates@.len() >= 1,
            (rates@[0].num(), rates@[0].den()) == FrameRate::spec_reduced(interval.max_d as nat, interval.max_n as nat),
            rates@[0].wf(),
            forall|i: int| 0 <= i < rates@.len() ==> (#[trigger] rates@[i]).wf(),
            rates@.len() == common@.take(k as int).filter(pred).len() + 1,
            forall|i: int|
                0 <= i < common@.take(k as int).filter(pred).len() ==> rates@[i + 1].num()
                    == common@.take(k as int).filter(pred)[i] && rates@[i + 1].den() == 1 && rates@[i + 1].wf(),
        decreases 13 - k,
    {
        let fps = common[k];
        let ghost prev = common@.take(k as int).filter(pred);
        let ghost before = rates@;
        proof {
            assert(common@.take(k as int + 1).drop_last() =~= common@.take(k as int));
            assert(common@.take(k as int + 1).last() == fps);
            reveal_with_fuel(Seq::<_>::filter, 1);
            assert(common@.take(k as int + 1).filter(pred) == (if pred(fps) {
                prev.push(fps)
            } else {
                prev
            }));
            assert(1 <= fps <= 480);
        }
        if mid_rate(interval, fps) {
            let whole = FrameRate::whole(fps);
            rates.push(whole);
            proof {
                assert(pred(fps));
                let next = common@.take(k as int + 1).filter(pred);
                assert(next == prev.push(fps));
                assert(rates@ == before.push(whole));
                assert forall|i: int| 0 <= i < next.len() implies rates@[i + 1].num() == next[i]
                    && rates@[i + 1].den() == 1 && rates@[i + 1].wf() by {
                    if i < prev.len() {
                        assert(rates@[i + 1] == before[i + 1]);
                        assert(next[i] == prev[i]);
                        assert(before[i + 1].num() == prev[i] && before[i + 1].den() == 1 && before[i + 1].wf());
                    } else {
                        assert(i == prev.len());
                        assert(i + 1 == before.len());
                        assert(rates@[i + 1] == whole);
                        assert(next[i] == fps);
                    }
                }
            }
        } else {
            proof {
                assert(!pred(fps));
                let next = common@.take(k as int + 1).filter(pred);
                assert(next == prev);
                assert forall|i: int| 0 <= i < next.len() implies rates@[i + 1].num() == next[i]
                    && rates@[i + 1].den() == 1 && rates@[i + 1].wf() by {
                    assert(prev[i] == next[i]);
                }
            }
        }
        k = k + 1;
    }
    proof {
        assert(common@.take(13) =~= common@);
    }
    let ghost before = rates@;
    rates.push(fastest);
    proof {
        assert forall|i: int| 0 <= i < rates@.len() implies (#[trigger] rates@[i]).wf() by {
            if i < rates@.len() - 1 {
                assert(rates@[i] == before[i]);
            }
        }
    }
    rates
}

/// A decoded MJPEG frame must have the negotiated size: `InvalidFormat`
/// when the JPEG header gives another one.
pub fn mjpeg_dimensions_match(config: &CameraConfig, header_width: usize, header_height: usize) -> (r: CameraResult<()>)
    ensures
        r is Ok <==> (header_width == config.width && header_height == config.height),
        r matches Err(e) ==> e is InvalidFormat,
{
    if header_width != config.width as usize || header_height != config.height as usize {
        return Err(CameraError::InvalidFormat(String::from_str("MJPEG dimensions differ from negotiated V4L2 format")));
    }
    Ok(())
}

/// A format as the driver negotiates it: pixel format code, size, frame
/// interval as a rate, number of planes, YCbCr encoding code and whether the
/// quantization is full range.
#[derive(Clone, Copy, Debug, Default, PartialEq, Eq, Structural)]
pub struct V4l2Format {
    pub fourcc: u32,
    pub width: u32,
    pub height: u32,
    pub fps: u32,
    pub fps_denominator: u32,
    pub planes: u32,
    pub ycbcr: u32,
    pub full_range: u32,
}

/// `code` is a pixel format code that reads back as `format`.
pub open spec fn spec_code_matches(code: u32, format: VideoFormat) -> bool {
    spec_from_fourcc(code) == Some(format)
}

/// The code to request for `format` among the codes the device advertises,
/// in order: the format's own code when it is advertised, else the last
/// advertised code that reads back as the format.
pub open spec fn spec_requested_code(format: VideoFormat, advertised: Seq<u32>, code: u32) -> bool {
    exists|i: int| 0 <= i < advertised.len() && advertised[i] == code && spec_code_matches(code, format) && (
        Some(code) == spec_to_fourcc(format) || (!advertised.contains(spec_to_fourcc(format).unwrap())
            && forall|j: int| i < j < advertised.len() ==> !spec_code_matches(#[trigger] advertised[j], format)))
}

/// The format to request for `config` from a device advertising the pixel
/// format codes `advertised`, in the order it lists them: the chosen code
/// with the configuration's size and rate. `UnsupportedFormat` when the
/// format has no code (H.264) or no advertised code reads back as it.
pub fn requested_format(config: &CameraConfig, advertised: &Vec<u32>) -> (r: CameraResult<V4l2Format>)
    ensures
        match r {
            Ok(f) => spec_to_fourcc(config.format) is Some && spec_requested_code(config.format, advertised@, f.fourcc)
                && f == (V4l2Format {
                    fourcc: f.fourcc,
                    width: config.width,
                    height: config.height,
                    fps: config.fps,
                    fps_denominator: config.fps_denominator,
                    planes: 0,
                    ycbcr: 0,
                    full_range: 0,
                }),
            Err(e) => e is UnsupportedFormat && (spec_to_fourcc(config.format) is None || forall|i: int|
                0 <= i < advertised@.len() ==> !spec_code_matches(#[trigger] advertised@[i], config.format)),
        },
{
    let preferred = match to_fourcc(config.format) {
        Ok(code) => code,
        Err(e) => return Err(e),
    };
    proof {
        lemma_fourcc_round_trip(config.format);
    }
    let mut selected: Option<u32> = None;
    let ghost mut at: int = -1;
    let mut done = false;
    let mut i: usize = 0;
    while i < advertised.len() && !done
        invariant
            i <= advertised@.len(),
            spec_to_fourcc(config.format) == Some(preferred),
            spec_code_matches(preferred, config.format),
            !done ==> forall|k: int| 0 <= k < i ==> advertised@[k] != preferred,
            done ==> selected == Some(preferred),
            match selected {
                None => at == -1 && forall|k: int| 0 <= k < i ==> !spec_code_matches(#[trigger] advertised@[k], config.format),
                Some(code) => 0 <= at < i && advertised@[at] == code && spec_code_matches(code, config.format)
                    && forall|k: int| at < k < i ==> !spec_code_matches(#[trigger] advertised@[k], config.format),
            },
        decreases advertised@.len() - i,
    {
        let code = advertised[i];
        if from_fourcc(code) == Some(config.format) {
            selected = Some(code);
            proof {
                at = i as int;
            }
            if code == preferred {
                done = true;
            }
        }
        i = i + 1;
    }
    match selected {
        None => {
            proof {
                assert(i == advertised@.len());
            }
            Err(CameraError::UnsupportedFormat(String::from_str("V4L2 device does not advertise the format")))
        },
        Some(code) => {
            proof {
                if code != preferred {
                    assert(i == advertised@.len());
                    assert(!advertised@.contains(preferred));
                }
            }
            Ok(V4l2Format {
                fourcc: code,
                width: config.width,
                height: config.height,
                fps: config.fps,
                fps_denominator: config.fps_denominator,
                planes: 0,
                ycbcr: 0,
                full_range: 0,
            })
        },
    }
}

/// The configuration a negotiated format gives: its format, size and rate
/// in lowest terms. `UnsupportedFormat` for a code this library cannot
/// decode, a plane count other than one (or two for NV12), or a missing
/// frame interval; `InvalidConfig` for a zero rate denominator or an empty
/// image.
pub fn config_from_format(format: &V4l2Format) -> (r: CameraResult<CameraConfig>)
    ensures
        match r {
            Ok(c) => spec_from_fourcc(format.fourcc) == Some(c.format)
                && (format.planes == 1 || (c.format == VideoFormat::NV12 && format.planes == 2))
                && format.fps > 0 && format.fps_denominator > 0 && format.width > 0 && format.height > 0
                && c.width == format.width && c.height == format.height
                && (c.fps as nat, c.fps_denominator as nat) == FrameRate::spec_reduced(format.fps as nat, format.fps_denominator as nat),
            Err(e) => match spec_from_fourcc(format.fourcc) {
                None => e is UnsupportedFormat,
                Some(f) => if format.planes != 1 && !(f == VideoFormat::NV12 && format.planes == 2) {
                    e is UnsupportedFormat
                } else if format.fps == 0 {
                    e is UnsupportedFormat
                } else {
                    (format.fps_denominator == 0 || format.width == 0 || format.height == 0) && e is InvalidConfig
                },
            },
        },
{
    let pixel = match from_fourcc(format.fourcc) {
        Some(f) => f,
        None => return Err(CameraError::UnsupportedFormat(String::from_str("V4L2 negotiated an unknown pixel format"))),
    };
    if format.planes != 1 && !(pixel == VideoFormat::NV12 && format.planes == 2) {
        return Err(CameraError::UnsupportedFormat(String::from_str("Unsupported V4L2 plane layout")));
    }
    if format.fps == 0 {
        return Err(CameraError::UnsupportedFormat(String::from_str("V4L2 driver does not report a frame interval")));
    }
    let rate = match FrameRate::new(format.fps, format.fps_denominator) {
        Ok(rate) => rate,
        Err(e) => return Err(e),
    };
    let config = CameraConfig::new(pixel, format.width, format.height, format.fps).with_frame_rate(rate);
    proof {
        crate::rate::lemma_rate_terms_fit(rate);
    }
    match config.validate() {
        Ok(_) => Ok(config),
        Err(e) => Err(e),
    }
}

/// The frame format a V4L2 format is delivered as, without conversion.
pub open spec fn spec_v4l2_pixel_format(format: VideoFormat) -> Option<PixelFormat> {
    match format {
        VideoFormat::MJPEG => Some(PixelFormat::Mjpeg),
        VideoFormat::YUYV => Some(PixelFormat::Yuyv),
        VideoFormat::UYVY => Some(PixelFormat::Uyvy),
        VideoFormat::NV12 => Some(PixelFormat::Nv12),
        VideoFormat::RGB => Some(PixelFormat::Rgb8),
        VideoFormat::Gray => Some(PixelFormat::Gray8),
        VideoFormat::H264 => None,
    }
}

/// The colorimetry a negotiated format reports: its YCbCr encoding (unknown
/// for codes without a matrix) and its quantization.
pub open spec fn spec_v4l2_color(native: V4l2Format) -> ColorInfo {
    ColorInfo {
        matrix: match spec_v4l2_matrix(native.ycbcr) {
            Some(m) => m,
            None => ColorMatrix::Unknown,
        },
        range: if native.full_range != 0 { ColorRange::Full } else { ColorRange::Limited },
    }
}

/// Describes a mapped driver buffer as delivered, without conversion: the
/// first plane as it is, with the colorimetry the driver negotiated. NV12
/// adds its chroma plane: the second driver plane when there are two;
/// otherwise the bytes after `stride * height` luma bytes of the first,
/// which must leave chroma bytes (`InvalidFormat` when they do not). H.264
/// is `UnsupportedFormat`.
pub fn native_layout(config: &CameraConfig, native: &V4l2Format, planes: &[Plane]) -> (r: CameraResult<FrameLayout>)
    requires
        planes@.len() > 0,
    ensures
        match spec_v4l2_pixel_format(config.format) {
            None => r matches Err(e) && e is UnsupportedFormat,
            Some(format) => {
                let p0 = planes@[0];
                let first = PlaneLayout {
                    offset: 0,
                    length: p0.data@.len() as usize,
                    row_stride: p0.stride,
                    pixel_stride: spec_pixel_stride(format),
                };
                if format != PixelFormat::Nv12 {
                    r matches Ok(l) && l.planes@ == seq![first]
                        && l.width == config.width && l.height == config.height && l.format == format && !l.bottom_up
                        && l.color == Some(spec_v4l2_color(*native))
                } else if planes@.len() == 2 {
                    r matches Ok(l) && l.planes@ == seq![first, PlaneLayout {
                        offset: p0.data@.len() as usize,
                        length: planes@[1].data@.len() as usize,
                        row_stride: planes@[1].stride,
                        pixel_stride: 2,
                    }] && l.width == config.width && l.height == config.height && l.format == format && !l.bottom_up
                        && l.color == Some(spec_v4l2_color(*native))
                } else if p0.stride * config.height < p0.data@.len() {
                    r matches Ok(l) && l.planes@ == seq![
                        PlaneLayout { length: (p0.stride * config.height) as usize, ..first },
                        PlaneLayout {
                            offset: (p0.stride * config.height) as usize,
                            length: (p0.data@.len() - p0.stride * config.height) as usize,
                            row_stride: p0.stride,
                            pixel_stride: 2,
                        },
                    ] && l.width == config.width && l.height == config.height && l.format == format && !l.bottom_up
                        && l.color == Some(spec_v4l2_color(*native))
                } else {
                    r matches Err(e) && e is InvalidFormat
                }
            },
        },
{
    let format = match config.format {
        VideoFormat::MJPEG => PixelFormat::Mjpeg,
        VideoFormat::YUYV => PixelFormat::Yuyv,
        VideoFormat::UYVY => PixelFormat::Uyvy,
        VideoFormat::NV12 => PixelFormat::Nv12,
        VideoFormat::RGB => PixelFormat::Rgb8,
        VideoFormat::Gray => PixelFormat::Gray8,
        VideoFormat::H264 => {
            return Err(CameraError::UnsupportedFormat(String::from_str("V4L2 native layout")));
        },
    };
    let matrix = if native.ycbcr == 1 || native.ycbcr == 3 || native.ycbcr == 5 {
        ColorMatrix::Bt601
    } else if native.ycbcr == 2 || native.ycbcr == 4 {
        ColorMatrix::Bt709
    } else if native.ycbcr == 6 {
        ColorMatrix::Bt2020
    } else if native.ycbcr == 8 {
        ColorMatrix::Smpte240M
    } else {
        ColorMatrix::Unknown
    };
    let color = ColorInfo { matrix, range: if native.full_range != 0 { ColorRange::Full } else { ColorRange::Limited } };
    let first = planes[0];
    let first_len = first.data.len();
    let mut out: Vec<PlaneLayout> = Vec::new();
    if format == PixelFormat::Nv12 {
        if planes.len() == 2 {
            let second = planes[1];
            out.push(PlaneLayout { offset: 0, length: first_len, row_stride: first.stride, pixel_stride: 1 });
            out.push(PlaneLayout { offset: first_len, length: second.data.len(), row_stride: second.stride, pixel_stride: 2 });
        } else {
            let y_len = match first.stride.checked_mul(config.height as usize) {
                Some(n) => n,
                None => {
                    return Err(CameraError::InvalidFormat(String::from_str("Truncated V4L2 NV12")));
                },
            };
            if y_len >= first_len {
                return Err(CameraError::InvalidFormat(String::from_str("Truncated V4L2 NV12")));
            }
            out.push(PlaneLayout { offset: 0, length: y_len, row_stride: first.stride, pixel_stride: 1 });
            out.push(PlaneLayout { offset: y_len, length: first_len - y_len, row_stride: first.stride, pixel_stride: 2 });
        }
    } else {
        out.push(PlaneLayout { offset: 0, length: first_len, row_stride: first.stride, pixel_stride: format.pixel_stride() });
    }
    Ok(FrameLayout { width: config.width, height: config.height, format, planes: out, bottom_up: false, color: Some(color) })
}

} // verus!
