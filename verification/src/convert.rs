//! Conversion of uncompressed native frames into tightly packed RGB.
use vstd::prelude::*;
use vstd::arithmetic::div_mod::{lemma_fundamental_div_mod, lemma_fundamental_div_mod_converse};
use vstd::arithmetic::mul::lemma_mul_inequality;
use crate::color::{bt601_full_coefficients, bt601_full_spec, ColorCoefficients, spec_yuv_channel, yuv_to_rgb};
use crate::error::{CameraError, CameraResult};

verus! {

/// Rows of `row_bytes` bytes, `stride` bytes apart, fit in a buffer: at least
/// one row, rows no wider than the stride, and the last row inside the data.
pub open spec fn spec_rows_fit(data_len: int, stride: int, row_bytes: int, height: int) -> bool {
    &&& row_bytes > 0
    &&& stride >= row_bytes
    &&& height >= 1
    &&& (height - 1) * stride + row_bytes <= data_len
}

/// Checks that `height` rows of `row_bytes` bytes, `stride` bytes apart, fit
/// in `data_len` bytes.
pub fn check_rows(data_len: usize, stride: usize, row_bytes: usize, height: usize) -> (r: CameraResult<()>)
    ensures
        r is Ok <==> spec_rows_fit(data_len as int, stride as int, row_bytes as int, height as int),
        r matches Err(e) ==> e is InvalidFormat,
{
    if row_bytes == 0 || stride < row_bytes || height == 0 {
        return Err(CameraError::InvalidFormat(String::from_str("frame has invalid stride or truncated data")));
    }
    let last = height - 1;
    let fits = match last.checked_mul(stride) {
        Some(offset) => match offset.checked_add(row_bytes) {
            Some(required) => required <= data_len,
            None => false,
        },
        None => {
            proof {
                assert(last * stride > usize::MAX);
            }
            false
        },
    };
    if fits {
        Ok(())
    } else {
        Err(CameraError::InvalidFormat(String::from_str("frame has invalid stride or truncated data")))
    }
}

/// Pixel index of output byte `j`, and its row and column in a `w`-wide image.
pub open spec fn spec_pixel(j: int) -> int {
    j / 3
}

pub open spec fn spec_row(j: int, w: int) -> int {
    (j / 3) / w
}

pub open spec fn spec_col(j: int, w: int) -> int {
    (j / 3) % w
}

/// Output byte `j` of an RGB image copied from rows `stride` bytes apart.
pub open spec fn spec_rgb_byte(data: Seq<u8>, stride: int, w: int, j: int) -> u8 {
    data[spec_row(j, w) * stride + 3 * spec_col(j, w) + j % 3]
}

/// Output byte `j` of an RGB image taken from `bpp`-byte pixels whose red,
/// green and blue bytes sit at `offsets.0`, `offsets.1` and `offsets.2`.
pub open spec fn spec_pick_byte(data: Seq<u8>, stride: int, w: int, bpp: int, offsets: (u8, u8, u8), j: int) -> u8 {
    let k = j % 3;
    let off = if k == 0 { offsets.0 } else if k == 1 { offsets.1 } else { offsets.2 };
    data[spec_row(j, w) * stride + bpp * spec_col(j, w) + off]
}

/// Output byte `j` of an RGB image expanded from 8-bit gray rows.
pub open spec fn spec_gray_byte(data: Seq<u8>, stride: int, w: int, j: int) -> u8 {
    data[spec_row(j, w) * stride + spec_col(j, w)]
}

/// Start of the 4-byte macropixel that holds the pixel of output byte `j` in a
/// packed 4:2:2 image.
pub open spec fn spec_macropixel(stride: int, w: int, j: int) -> int {
    spec_row(j, w) * stride + (spec_col(j, w) / 2) * 4
}

/// Output byte `j` of an RGB image converted from packed 4:2:2 rows. YUYV
/// macropixels are `Y0 U Y1 V`; UYVY macropixels are `U Y0 V Y1`.
pub open spec fn spec_packed_byte(
    data: Seq<u8>,
    stride: int,
    w: int,
    uyvy: bool,
    c: ColorCoefficients,
    j: int,
) -> u8 {
    let base = spec_macropixel(stride, w, j);
    let odd = spec_col(j, w) % 2;
    let y = if uyvy {
        data[base + 1 + 2 * odd]
    } else {
        data[base + 2 * odd]
    };
    let u = if uyvy {
        data[base]
    } else {
        data[base + 1]
    };
    let v = if uyvy {
        data[base + 2]
    } else {
        data[base + 3]
    };
    spec_yuv_channel(c, y, u, v, j % 3)
}

/// Output byte `j` of an RGB image converted from a luma plane and an
/// interleaved 2x2-subsampled chroma plane (`U V` pairs, or `V U` pairs when
/// `vu_order`).
pub open spec fn spec_semiplanar_byte(
    y: Seq<u8>,
    y_stride: int,
    uv: Seq<u8>,
    uv_stride: int,
    w: int,
    vu_order: bool,
    c: ColorCoefficients,
    j: int,
) -> u8 {
    let r = spec_row(j, w);
    let col = spec_col(j, w);
    let chroma = (r / 2) * uv_stride + (col / 2) * 2;
    let first = uv[chroma];
    let second = uv[chroma + 1];
    let (u, v) = if vu_order {
        (second, first)
    } else {
        (first, second)
    };
    spec_yuv_channel(c, y[r * y_stride + col], u, v, j % 3)
}

/// Output byte `3p + k` belongs to pixel `p` and channel `k`; pixel `p` of a
/// `w`-wide image with `h` rows lies in row `p / w` and column `p % w`.
pub(crate) proof fn lemma_decode(p: int, k: int, w: int, h: int)
    requires
        0 <= p < w * h,
        0 <= k < 3,
        w > 0,
    ensures
        (3 * p + k) / 3 == p,
        (3 * p + k) % 3 == k,
        0 <= p / w < h,
        0 <= p % w < w,
        spec_row(3 * p + k, w) == p / w,
        spec_col(3 * p + k, w) == p % w,
{
    lemma_fundamental_div_mod_converse(3 * p + k, 3, p, k);
    lemma_fundamental_div_mod(p, w);
    let q = p / w;
    let r = p % w;
    assert(0 <= r < w);
    assert(q >= 0) by (nonlinear_arith)
        requires
            p == w * q + r,
            r < w,
            p >= 0,
            w > 0,
    ;
    assert(q < h) by (nonlinear_arith)
        requires
            p == w * q + r,
            r >= 0,
            p < w * h,
            w > 0,
    ;
}

/// An offset inside row `r < h` of rows that fit in the data is in bounds.
pub(crate) proof fn lemma_row_offset(r: int, h: int, stride: int, off: int, row_bytes: int, len: int)
    requires
        0 <= r < h,
        0 <= off < row_bytes,
        stride >= 0,
        (h - 1) * stride + row_bytes <= len,
    ensures
        0 <= r * stride,
        r * stride + off < len,
{
    lemma_mul_inequality(r, h - 1, stride);
    lemma_mul_inequality(0, r, stride);
}

/// Copies RGB rows, dropping row padding.
pub(crate) fn copy_rgb_rows(data: &[u8], stride: usize, w: usize, h: usize, rgb: &mut [u8])
    requires
        w > 0,
        w * h * 3 <= old(rgb)@.len(),
        spec_rows_fit(data@.len() as int, stride as int, 3 * w, h as int),
    ensures
        final(rgb)@.len() == old(rgb)@.len(),
        forall|j: int| 0 <= j < w * h * 3 ==> final(rgb)@[j] == spec_rgb_byte(data@, stride as int, w as int, j),
        forall|j: int| w * h * 3 <= j < old(rgb)@.len() ==> final(rgb)@[j] == old(rgb)@[j],
{
    let _out_len = rgb.len();
    proof {
        assert(w * h <= w * h * 3) by (nonlinear_arith)
            requires
                w > 0,
                h >= 0,
        ;
    }
    let total = w * h;
    let mut p: usize = 0;
    while p < total
        invariant
            w > 0,
            total == w * h,
            w * h * 3 <= old(rgb)@.len(),
            old(rgb)@.len() <= usize::MAX,
            rgb@.len() == old(rgb)@.len(),
            p <= total,
            spec_rows_fit(data@.len() as int, stride as int, 3 * w, h as int),
            forall|j: int| 0 <= j < 3 * p ==> rgb@[j] == spec_rgb_byte(data@, stride as int, w as int, j),
            forall|j: int| 3 * p <= j < rgb@.len() ==> rgb@[j] == old(rgb)@[j],
        decreases total - p,
    {
        let r = p / w;
        let c = p % w;
        let _data_len = data.len();
        proof {
            lemma_decode(p as int, 0, w as int, h as int);
            lemma_decode(p as int, 1, w as int, h as int);
            lemma_decode(p as int, 2, w as int, h as int);
            lemma_row_offset(r as int, h as int, stride as int, 3 * c + 2, 3 * w, data@.len() as int);
        }
        let base = r * stride + 3 * c;
        let out = 3 * p;
        rgb[out] = data[base];
        rgb[out + 1] = data[base + 1];
        rgb[out + 2] = data[base + 2];
        p = p + 1;
    }
}

/// Picks the red, green and blue bytes of rows of `bpp`-byte pixels (3 or 4),
/// dropping other channels and row padding.
pub(crate) fn pick_rows(data: &[u8], stride: usize, w: usize, h: usize, bpp: usize, offsets: (u8, u8, u8), rgb: &mut [u8])
    requires
        w > 0,
        bpp == 3 || bpp == 4,
        offsets.0 < bpp && offsets.1 < bpp && offsets.2 < bpp,
        w * h * 3 <= old(rgb)@.len(),
        spec_rows_fit(data@.len() as int, stride as int, bpp * w, h as int),
    ensures
        final(rgb)@.len() == old(rgb)@.len(),
        forall|j: int| 0 <= j < w * h * 3 ==> final(rgb)@[j] == spec_pick_byte(data@, stride as int, w as int, bpp as int, offsets, j),
        forall|j: int| w * h * 3 <= j < old(rgb)@.len() ==> final(rgb)@[j] == old(rgb)@[j],
{
    let _out_len = rgb.len();
    proof {
        assert(w * h <= w * h * 3) by (nonlinear_arith)
            requires
                w > 0,
                h >= 0,
        ;
    }
    let total = w * h;
    let mut p: usize = 0;
    while p < total
        invariant
            w > 0,
            bpp == 3 || bpp == 4,
            offsets.0 < bpp && offsets.1 < bpp && offsets.2 < bpp,
            total == w * h,
            w * h * 3 <= old(rgb)@.len(),
            old(rgb)@.len() <= usize::MAX,
            rgb@.len() == old(rgb)@.len(),
            p <= total,
            spec_rows_fit(data@.len() as int, stride as int, bpp * w, h as int),
            forall|j: int| 0 <= j < 3 * p ==> rgb@[j] == spec_pick_byte(data@, stride as int, w as int, bpp as int, offsets, j),
            forall|j: int| 3 * p <= j < rgb@.len() ==> rgb@[j] == old(rgb)@[j],
        decreases total - p,
    {
        let r = p / w;
        let c = p % w;
        let _data_len = data.len();
        proof {
            lemma_decode(p as int, 0, w as int, h as int);
            lemma_decode(p as int, 1, w as int, h as int);
            lemma_decode(p as int, 2, w as int, h as int);
            assert(bpp * c + bpp - 1 < bpp * w) by (nonlinear_arith)
                requires
                    c < w,
                    bpp >= 3,
            ;
            assert(bpp * c >= 0) by (nonlinear_arith)
                requires
                    c >= 0,
                    bpp >= 3,
            ;
            lemma_row_offset(r as int, h as int, stride as int, bpp * c + bpp - 1, bpp * w, data@.len() as int);
        }
        let base = r * stride + bpp * c;
        let out = 3 * p;
        rgb[out] = data[base + offsets.0 as usize];
        rgb[out + 1] = data[base + offsets.1 as usize];
        rgb[out + 2] = data[base + offsets.2 as usize];
        p = p + 1;
    }
}

/// Expands 8-bit gray rows into RGB, dropping row padding.
pub(crate) fn expand_gray_rows(data: &[u8], stride: usize, w: usize, h: usize, rgb: &mut [u8])
    requires
        w > 0,
        w * h * 3 <= old(rgb)@.len(),
        spec_rows_fit(data@.len() as int, stride as int, w as int, h as int),
    ensures
        final(rgb)@.len() == old(rgb)@.len(),
        forall|j: int| 0 <= j < w * h * 3 ==> final(rgb)@[j] == spec_gray_byte(data@, stride as int, w as int, j),
        forall|j: int| w * h * 3 <= j < old(rgb)@.len() ==> final(rgb)@[j] == old(rgb)@[j],
{
    let _out_len = rgb.len();
    proof {
        assert(w * h <= w * h * 3) by (nonlinear_arith)
            requires
                w > 0,
                h >= 0,
        ;
    }
    let total = w * h;
    let mut p: usize = 0;
    while p < total
        invariant
            w > 0,
            total == w * h,
            w * h * 3 <= old(rgb)@.len(),
            old(rgb)@.len() <= usize::MAX,
            rgb@.len() == old(rgb)@.len(),
            p <= total,
            spec_rows_fit(data@.len() as int, stride as int, w as int, h as int),
            forall|j: int| 0 <= j < 3 * p ==> rgb@[j] == spec_gray_byte(data@, stride as int, w as int, j),
            forall|j: int| 3 * p <= j < rgb@.len() ==> rgb@[j] == old(rgb)@[j],
        decreases total - p,
    {
        let r = p / w;
        let c = p % w;
        let _data_len = data.len();
        proof {
            lemma_decode(p as int, 0, w as int, h as int);
            lemma_decode(p as int, 1, w as int, h as int);
            lemma_decode(p as int, 2, w as int, h as int);
            lemma_row_offset(r as int, h as int, stride as int, c as int, w as int, data@.len() as int);
        }
        let gray = data[r * stride + c];
        let out = 3 * p;
        rgb[out] = gray;
        rgb[out + 1] = gray;
        rgb[out + 2] = gray;
        p = p + 1;
    }
}

/// Converts packed 4:2:2 rows (YUYV, or UYVY when `uyvy`) of an even-width
/// image into RGB, dropping row padding.
pub(crate) fn packed_yuv_rows(
    data: &[u8],
    stride: usize,
    w: usize,
    h: usize,
    uyvy: bool,
    coefficients: &ColorCoefficients,
    rgb: &mut [u8],
)
    requires
        w > 0,
        w % 2 == 0,
        coefficients.wf(),
        w * h * 3 <= old(rgb)@.len(),
        spec_rows_fit(data@.len() as int, stride as int, 2 * w, h as int),
    ensures
        final(rgb)@.len() == old(rgb)@.len(),
        forall|j: int| 0 <= j < w * h * 3 ==> final(rgb)@[j] == spec_packed_byte(data@, stride as int, w as int, uyvy, *coefficients, j),
        forall|j: int| w * h * 3 <= j < old(rgb)@.len() ==> final(rgb)@[j] == old(rgb)@[j],
{
    let _out_len = rgb.len();
    proof {
        assert(w * h <= w * h * 3) by (nonlinear_arith)
            requires
                w > 0,
                h >= 0,
        ;
    }
    let total = w * h;
    let mut p: usize = 0;
    while p < total
        invariant
            w > 0,
            w % 2 == 0,
            coefficients.wf(),
            total == w * h,
            w * h * 3 <= old(rgb)@.len(),
            old(rgb)@.len() <= usize::MAX,
            rgb@.len() == old(rgb)@.len(),
            p <= total,
            spec_rows_fit(data@.len() as int, stride as int, 2 * w, h as int),
            forall|j: int| 0 <= j < 3 * p ==> rgb@[j] == spec_packed_byte(data@, stride as int, w as int, uyvy, *coefficients, j),
            forall|j: int| 3 * p <= j < rgb@.len() ==> rgb@[j] == old(rgb)@[j],
        decreases total - p,
    {
        let r = p / w;
        let c = p % w;
        let _data_len = data.len();
        proof {
            lemma_decode(p as int, 0, w as int, h as int);
            lemma_decode(p as int, 1, w as int, h as int);
            lemma_decode(p as int, 2, w as int, h as int);
            assert((c / 2) * 4 + 3 < 2 * w) by {
                assert(c / 2 <= (w - 2) / 2);
            }
            lemma_row_offset(r as int, h as int, stride as int, (c / 2) * 4 + 3, 2 * w, data@.len() as int);
        }
        let base = r * stride + (c / 2) * 4;
        let odd = c % 2;
        let (y, u, v) = if uyvy {
            (data[base + 1 + 2 * odd], data[base], data[base + 2])
        } else {
            (data[base + 2 * odd], data[base + 1], data[base + 3])
        };
        let (red, green, blue) = yuv_to_rgb(coefficients, y, u, v);
        let out = 3 * p;
        proof {
            assert(spec_macropixel(stride as int, w as int, 3 * p + 0) == base);
            assert(spec_macropixel(stride as int, w as int, 3 * p + 1) == base);
            assert(spec_macropixel(stride as int, w as int, 3 * p + 2) == base);
        }
        rgb[out] = red;
        rgb[out + 1] = green;
        rgb[out + 2] = blue;
        p = p + 1;
    }
}

/// Converts a luma plane and an interleaved 2x2-subsampled chroma plane into
/// RGB. The chroma rows hold `(w + 1) / 2` pairs.
pub(crate) fn semiplanar_rows(
    y: &[u8],
    y_stride: usize,
    uv: &[u8],
    uv_stride: usize,
    w: usize,
    h: usize,
    vu_order: bool,
    coefficients: &ColorCoefficients,
    rgb: &mut [u8],
)
    requires
        w > 0,
        coefficients.wf(),
        w * h * 3 <= old(rgb)@.len(),
        spec_rows_fit(y@.len() as int, y_stride as int, w as int, h as int),
        spec_rows_fit(uv@.len() as int, uv_stride as int, (w as int + 1) / 2 * 2, (h as int + 1) / 2),
    ensures
        final(rgb)@.len() == old(rgb)@.len(),
        forall|j: int| 0 <= j < w * h * 3 ==> final(rgb)@[j] == spec_semiplanar_byte(y@, y_stride as int, uv@, uv_stride as int, w as int, vu_order, *coefficients, j),
        forall|j: int| w * h * 3 <= j < old(rgb)@.len() ==> final(rgb)@[j] == old(rgb)@[j],
{
    let _out_len = rgb.len();
    proof {
        assert(w * h <= w * h * 3) by (nonlinear_arith)
            requires
                w > 0,
                h >= 0,
        ;
    }
    let total = w * h;
    let mut p: usize = 0;
    while p < total
        invariant
            w > 0,
            coefficients.wf(),
            total == w * h,
            w * h * 3 <= old(rgb)@.len(),
            old(rgb)@.len() <= usize::MAX,
            rgb@.len() == old(rgb)@.len(),
            p <= total,
            spec_rows_fit(y@.len() as int, y_stride as int, w as int, h as int),
            spec_rows_fit(uv@.len() as int, uv_stride as int, (w as int + 1) / 2 * 2, (h as int + 1) / 2),
            forall|j: int| 0 <= j < 3 * p ==> rgb@[j] == spec_semiplanar_byte(y@, y_stride as int, uv@, uv_stride as int, w as int, vu_order, *coefficients, j),
            forall|j: int| 3 * p <= j < rgb@.len() ==> rgb@[j] == old(rgb)@[j],
        decreases total - p,
    {
        let r = p / w;
        let c = p % w;
        let _y_len = y.len();
        let _uv_len = uv.len();
        proof {
            lemma_decode(p as int, 0, w as int, h as int);
            lemma_decode(p as int, 1, w as int, h as int);
            lemma_decode(p as int, 2, w as int, h as int);
            lemma_row_offset(r as int, h as int, y_stride as int, c as int, w as int, y@.len() as int);
            assert(r / 2 < (h as int + 1) / 2);
            assert((c / 2) * 2 + 1 < (w as int + 1) / 2 * 2);
            lemma_row_offset((r / 2) as int, (h as int + 1) / 2, uv_stride as int, (c / 2) * 2 + 1, (w as int + 1) / 2 * 2, uv@.len() as int);
        }
        let luma = y[r * y_stride + c];
        let chroma = (r / 2) * uv_stride + (c / 2) * 2;
        let first = uv[chroma];
        let second = uv[chroma + 1];
        let (u, v) = if vu_order {
            (second, first)
        } else {
            (first, second)
        };
        let (red, green, blue) = yuv_to_rgb(coefficients, luma, u, v);
        let out = 3 * p;
        rgb[out] = red;
        rgb[out + 1] = green;
        rgb[out + 2] = blue;
        p = p + 1;
    }
}

/// A `width` x `height` image with an interleaved `U V` chroma plane can be
/// converted: a non-empty image, an output buffer that holds it, luma rows
/// that fit, and `(height + 1) / 2` chroma rows of `(width + 1) / 2` pairs.
pub open spec fn spec_yuv420sp_fits(
    y_len: int,
    uv_len: int,
    w: int,
    h: int,
    y_stride: int,
    uv_stride: int,
    rgb_len: int,
) -> bool {
    &&& w > 0 && h > 0
    &&& w * h * 3 <= rgb_len
    &&& spec_rows_fit(y_len, y_stride, w, h)
    &&& spec_rows_fit(uv_len, uv_stride, (w + 1) / 2 * 2, (h + 1) / 2)
}

/// Converts NV12 (a luma plane and an interleaved `U V` plane at half
/// resolution) into RGB with full-range BT.601. Fails with `InvalidFormat`
/// when the image is empty, a plane is too short for its rows, or the output
/// is too small.
pub fn yuv420sp_to_rgb_into(
    y: &[u8],
    uv: &[u8],
    width: usize,
    height: usize,
    y_stride: usize,
    uv_stride: usize,
    rgb: &mut [u8],
) -> (r: CameraResult<()>)
    ensures
        final(rgb)@.len() == old(rgb)@.len(),
        r is Ok <==> spec_yuv420sp_fits(y@.len() as int, uv@.len() as int, width as int, height as int, y_stride as int, uv_stride as int, old(rgb)@.len() as int),
        r matches Err(e) ==> e is InvalidFormat && final(rgb)@ == old(rgb)@,
        r is Ok ==> forall|j: int| 0 <= j < width * height * 3 ==> final(rgb)@[j] == spec_semiplanar_byte(y@, y_stride as int, uv@, uv_stride as int, width as int, false, bt601_full_spec(), j),
        r is Ok ==> forall|j: int| width * height * 3 <= j < old(rgb)@.len() ==> final(rgb)@[j] == old(rgb)@[j],
{
    if width == 0 || height == 0 {
        return Err(CameraError::InvalidFormat(String::from_str("YUV image is empty")));
    }
    let pixels = match width.checked_mul(height) {
        Some(p) => p,
        None => {
            let _rgb_len = rgb.len();
            proof {
                let n: int = rgb@.len() as int;
                assert(width * height * 3 > n) by (nonlinear_arith)
                    requires
                        width * height > usize::MAX,
                        n <= usize::MAX,
                ;
            }
            return Err(CameraError::InvalidFormat(String::from_str("RGB output buffer is too small")));
        },
    };
    let needed = match pixels.checked_mul(3) {
        Some(n) => n,
        None => {
            let _rgb_len = rgb.len();
            return Err(CameraError::InvalidFormat(String::from_str("RGB output buffer is too small")));
        },
    };
    proof {
        assert(3 * width <= needed) by (nonlinear_arith)
            requires
                needed == width * height * 3,
                height > 0,
        ;
    }
    if rgb.len() < needed {
        return Err(CameraError::InvalidFormat(String::from_str("RGB output buffer is too small")));
    }
    match check_rows(y.len(), y_stride, width, height) {
        Ok(_) => {},
        Err(e) => return Err(e),
    }
    let chroma_row = (width / 2 + width % 2) * 2;
    let chroma_rows = height / 2 + height % 2;
    proof {
        assert(chroma_row == (width as int + 1) / 2 * 2);
        assert(chroma_rows == (height as int + 1) / 2);
    }
    match check_rows(uv.len(), uv_stride, chroma_row, chroma_rows) {
        Ok(_) => {},
        Err(e) => return Err(e),
    }
    let c = bt601_full_coefficients();
    semiplanar_rows(y, y_stride, uv, uv_stride, width, height, false, &c, rgb);
    Ok(())
}

/// A `width` x `height` image of `bpp`-byte pixels can be converted: a
/// non-empty image, an output buffer that holds it, and rows that fit.
pub open spec fn spec_packed_fits(data_len: int, w: int, h: int, stride: int, bpp: int, rgb_len: int) -> bool {
    &&& w > 0 && h > 0
    &&& w * h * 3 <= rgb_len
    &&& spec_rows_fit(data_len, stride, bpp * w, h)
}

/// Checks the output size and the rows of a `width` x `height` image of
/// `bpp`-byte pixels.
fn check_packed(data_len: usize, width: usize, height: usize, stride: usize, bpp: usize, rgb_len: usize) -> (r: CameraResult<()>)
    requires
        bpp == 3 || bpp == 4,
    ensures
        r is Ok <==> spec_packed_fits(data_len as int, width as int, height as int, stride as int, bpp as int, rgb_len as int),
        r matches Err(e) ==> e is InvalidFormat,
{
    if width == 0 || height == 0 {
        return Err(CameraError::InvalidFormat(String::from_str("image is empty")));
    }
    let pixels = match width.checked_mul(height) {
        Some(p) => p,
        None => {
            proof {
                assert(width * height * 3 > rgb_len) by (nonlinear_arith)
                    requires
                        width * height > usize::MAX,
                        rgb_len <= usize::MAX,
                ;
            }
            return Err(CameraError::InvalidFormat(String::from_str("RGB output buffer is too small")));
        },
    };
    let needed = match pixels.checked_mul(3) {
        Some(n) => n,
        None => return Err(CameraError::InvalidFormat(String::from_str("RGB output buffer is too small"))),
    };
    if rgb_len < needed {
        return Err(CameraError::InvalidFormat(String::from_str("RGB output buffer is too small")));
    }
    proof {
        assert(bpp * width <= bpp * width * height) by (nonlinear_arith)
            requires
                height >= 1,
                bpp >= 0,
                width >= 0,
        ;
        assert(bpp * width * height <= 4 * (width * height)) by (nonlinear_arith)
            requires
                bpp <= 4,
                width * height >= 0,
        ;
        assert(4 * (width * height) <= 4 * usize::MAX);
    }
    let row_bytes = match width.checked_mul(bpp) {
        Some(b) => b,
        None => return Err(CameraError::InvalidFormat(String::from_str("frame has invalid stride or truncated data"))),
    };
    proof {
        assert(row_bytes == bpp * width) by (nonlinear_arith)
            requires
                row_bytes == width * bpp,
        ;
    }
    check_rows(data_len, stride, row_bytes, height)
}

/// Converts RGBA8888 rows (`R G B A` pixels) into RGB, dropping alpha and row
/// padding. Fails with `InvalidFormat` when the image is empty, the rows do
/// not fit in the data, or the output is too small.
pub fn rgba8888_to_rgb_into(data: &[u8], width: usize, height: usize, stride: usize, rgb: &mut [u8]) -> (r: CameraResult<()>)
    ensures
        final(rgb)@.len() == old(rgb)@.len(),
        r is Ok <==> spec_packed_fits(data@.len() as int, width as int, height as int, stride as int, 4, old(rgb)@.len() as int),
        r matches Err(e) ==> e is InvalidFormat && final(rgb)@ == old(rgb)@,
        r is Ok ==> forall|j: int| 0 <= j < width * height * 3 ==> final(rgb)@[j] == spec_pick_byte(data@, stride as int, width as int, 4, (0u8, 1u8, 2u8), j),
        r is Ok ==> forall|j: int| width * height * 3 <= j < old(rgb)@.len() ==> final(rgb)@[j] == old(rgb)@[j],
{
    match check_packed(data.len(), width, height, stride, 4, rgb.len()) {
        Ok(_) => {},
        Err(e) => return Err(e),
    }
    pick_rows(data, stride, width, height, 4, (0, 1, 2), rgb);
    Ok(())
}

/// One plane of a planar YUV image: samples `pixel_stride` bytes apart within
/// a row, rows `row_stride` bytes apart.
pub struct YuvPlane<'a> {
    pub data: &'a [u8],
    pub row_stride: usize,
    pub pixel_stride: usize,
}

/// Bytes spanned by a row of `n` samples, `step` bytes apart.
pub open spec fn spec_span(n: int, step: int) -> int {
    (n - 1) * step + 1
}

/// Output byte `j` of an RGB image converted from a full-resolution luma plane
/// and two 2x2-subsampled chroma planes, each with its own row and sample
/// strides.
pub open spec fn spec_planar_byte(
    y: Seq<u8>,
    y_stride: int,
    y_step: int,
    u: Seq<u8>,
    u_stride: int,
    u_step: int,
    v: Seq<u8>,
    v_stride: int,
    v_step: int,
    w: int,
    c: ColorCoefficients,
    j: int,
) -> u8 {
    let r = spec_row(j, w);
    let col = spec_col(j, w);
    spec_yuv_channel(
        c,
        y[r * y_stride + col * y_step],
        u[(r / 2) * u_stride + (col / 2) * u_step],
        v[(r / 2) * v_stride + (col / 2) * v_step],
        j % 3,
    )
}

/// A sample `k < n` of a row lies inside the row's span.
proof fn lemma_sample_in_span(k: int, n: int, step: int)
    requires
        0 <= k < n,
        step >= 0,
    ensures
        0 <= k * step,
        k * step < spec_span(n, step),
{
    lemma_mul_inequality(k, n - 1, step);
    lemma_mul_inequality(0, k, step);
}

/// Converts a planar 4:2:0 image into RGB.
pub(crate) fn planar_rows(
    y: &YuvPlane,
    u: &YuvPlane,
    v: &YuvPlane,
    w: usize,
    h: usize,
    coefficients: &ColorCoefficients,
    rgb: &mut [u8],
)
    requires
        w > 0,
        coefficients.wf(),
        w * h * 3 <= old(rgb)@.len(),
        spec_rows_fit(y.data@.len() as int, y.row_stride as int, spec_span(w as int, y.pixel_stride as int), h as int),
        spec_rows_fit(u.data@.len() as int, u.row_stride as int, spec_span((w as int + 1) / 2, u.pixel_stride as int), (h as int + 1) / 2),
        spec_rows_fit(v.data@.len() as int, v.row_stride as int, spec_span((w as int + 1) / 2, v.pixel_stride as int), (h as int + 1) / 2),
    ensures
        final(rgb)@.len() == old(rgb)@.len(),
        forall|j: int| 0 <= j < w * h * 3 ==> final(rgb)@[j] == spec_planar_byte(
            y.data@, y.row_stride as int, y.pixel_stride as int,
            u.data@, u.row_stride as int, u.pixel_stride as int,
            v.data@, v.row_stride as int, v.pixel_stride as int,
            w as int, *coefficients, j),
        forall|j: int| w * h * 3 <= j < old(rgb)@.len() ==> final(rgb)@[j] == old(rgb)@[j],
{
    let _out_len = rgb.len();
    proof {
        assert(w * h <= w * h * 3) by (nonlinear_arith)
            requires
                w > 0,
                h >= 0,
        ;
    }
    let total = w * h;
    let mut p: usize = 0;
    while p < total
        invariant
            w > 0,
            coefficients.wf(),
            total == w * h,
            w * h * 3 <= old(rgb)@.len(),
            old(rgb)@.len() <= usize::MAX,
            rgb@.len() == old(rgb)@.len(),
            p <= total,
            spec_rows_fit(y.data@.len() as int, y.row_stride as int, spec_span(w as int, y.pixel_stride as int), h as int),
            spec_rows_fit(u.data@.len() as int, u.row_stride as int, spec_span((w as int + 1) / 2, u.pixel_stride as int), (h as int + 1) / 2),
            spec_rows_fit(v.data@.len() as int, v.row_stride as int, spec_span((w as int + 1) / 2, v.pixel_stride as int), (h as int + 1) / 2),
            forall|j: int| 0 <= j < 3 * p ==> rgb@[j] == spec_planar_byte(
                y.data@, y.row_stride as int, y.pixel_stride as int,
                u.data@, u.row_stride as int, u.pixel_stride as int,
                v.data@, v.row_stride as int, v.pixel_stride as int,
                w as int, *coefficients, j),
            forall|j: int| 3 * p <= j < rgb@.len() ==> rgb@[j] == old(rgb)@[j],
        decreases total - p,
    {
        let r = p / w;
        let c = p % w;
        let _y_len = y.data.len();
        let _u_len = u.data.len();
        let _v_len = v.data.len();
        proof {
            lemma_decode(p as int, 0, w as int, h as int);
            lemma_decode(p as int, 1, w as int, h as int);
            lemma_decode(p as int, 2, w as int, h as int);
            lemma_sample_in_span(c as int, w as int, y.pixel_stride as int);
            lemma_row_offset(r as int, h as int, y.row_stride as int, c * y.pixel_stride, spec_span(w as int, y.pixel_stride as int), y.data@.len() as int);
            assert(r / 2 < (h as int + 1) / 2);
            assert(c / 2 < (w as int + 1) / 2);
            lemma_sample_in_span((c / 2) as int, (w as int + 1) / 2, u.pixel_stride as int);
            lemma_sample_in_span((c / 2) as int, (w as int + 1) / 2, v.pixel_stride as int);
            lemma_row_offset((r / 2) as int, (h as int + 1) / 2, u.row_stride as int, (c / 2) * u.pixel_stride, spec_span((w as int + 1) / 2, u.pixel_stride as int), u.data@.len() as int);
            lemma_row_offset((r / 2) as int, (h as int + 1) / 2, v.row_stride as int, (c / 2) * v.pixel_stride, spec_span((w as int + 1) / 2, v.pixel_stride as int), v.data@.len() as int);
        }
        let luma = y.data[r * y.row_stride + c * y.pixel_stride];
        let cu = u.data[(r / 2) * u.row_stride + (c / 2) * u.pixel_stride];
        let cv = v.data[(r / 2) * v.row_stride + (c / 2) * v.pixel_stride];
        let (red, green, blue) = yuv_to_rgb(coefficients, luma, cu, cv);
        let out = 3 * p;
        rgb[out] = red;
        rgb[out + 1] = green;
        rgb[out + 2] = blue;
        p = p + 1;
    }
}

/// Bytes spanned by a row of `n` samples `step` bytes apart, when that fits
/// in `usize`.
fn span(n: usize, step: usize) -> (r: Option<usize>)
    requires
        n > 0,
    ensures
        r matches Some(s) ==> s == spec_span(n as int, step as int),
        r is None ==> spec_span(n as int, step as int) > usize::MAX,
{
    match (n - 1).checked_mul(step) {
        Some(m) => m.checked_add(1),
        None => None,
    }
}

/// Checks that a plane holds `rows` rows of `n` samples.
fn check_plane(plane: &YuvPlane, n: usize, rows: usize) -> (r: CameraResult<()>)
    requires
        n > 0,
    ensures
        r is Ok <==> spec_rows_fit(plane.data@.len() as int, plane.row_stride as int, spec_span(n as int, plane.pixel_stride as int), rows as int),
        r matches Err(e) ==> e is InvalidFormat,
{
    match span(n, plane.pixel_stride) {
        Some(bytes) => check_rows(plane.data.len(), plane.row_stride, bytes, rows),
        None => Err(CameraError::InvalidFormat(String::from_str("frame has invalid stride or truncated data"))),
    }
}

/// A `width` x `height` planar 4:2:0 image can be converted: a non-empty
/// image, an output buffer that holds it, `height` luma rows of `width`
/// samples, and `(height + 1) / 2` rows of `(width + 1) / 2` samples in each
/// chroma plane.
pub open spec fn spec_yuv420_fits(y: &YuvPlane, u: &YuvPlane, v: &YuvPlane, w: int, h: int, rgb_len: int) -> bool {
    &&& w > 0 && h > 0
    &&& w * h * 3 <= rgb_len
    &&& spec_plane_fits(y.data@.len() as int, y.row_stride as int, y.pixel_stride as int, w, h)
    &&& spec_plane_fits(u.data@.len() as int, u.row_stride as int, u.pixel_stride as int, (w + 1) / 2, (h + 1) / 2)
    &&& spec_plane_fits(v.data@.len() as int, v.row_stride as int, v.pixel_stride as int, (w + 1) / 2, (h + 1) / 2)
}

/// A plane of `len` bytes holds `rows` rows of `n` samples, `step` bytes
/// apart within a row and rows `stride` bytes apart.
pub open spec fn spec_plane_fits(len: int, stride: int, step: int, n: int, rows: int) -> bool {
    spec_rows_fit(len, stride, spec_span(n, step), rows)
}

/// Converts a planar 4:2:0 image (a luma plane and two half-resolution chroma
/// planes, each with its own row and sample strides) into RGB with
/// full-range BT.601. Fails with `InvalidFormat` when the image is empty, a
/// plane is too short for its rows, or the output is too small.
pub fn yuv420_to_rgb_into(y: YuvPlane, u: YuvPlane, v: YuvPlane, width: usize, height: usize, rgb: &mut [u8]) -> (r: CameraResult<()>)
    ensures
        final(rgb)@.len() == old(rgb)@.len(),
        r is Ok <==> spec_yuv420_fits(&y, &u, &v, width as int, height as int, old(rgb)@.len() as int),
        r matches Err(e) ==> e is InvalidFormat && final(rgb)@ == old(rgb)@,
        r is Ok ==> forall|j: int| 0 <= j < width * height * 3 ==> final(rgb)@[j] == spec_planar_byte(
            y.data@, y.row_stride as int, y.pixel_stride as int,
            u.data@, u.row_stride as int, u.pixel_stride as int,
            v.data@, v.row_stride as int, v.pixel_stride as int,
            width as int, bt601_full_spec(), j),
        r is Ok ==> forall|j: int| width * height * 3 <= j < old(rgb)@.len() ==> final(rgb)@[j] == old(rgb)@[j],
{
    if width == 0 || height == 0 {
        return Err(CameraError::InvalidFormat(String::from_str("YUV image is empty")));
    }
    let pixels = match width.checked_mul(height) {
        Some(p) => p,
        None => {
            let _rgb_len = rgb.len();
            proof {
                let n: int = rgb@.len() as int;
                assert(width * height * 3 > n) by (nonlinear_arith)
                    requires
                        width * height > usize::MAX,
                        n <= usize::MAX,
                ;
            }
            return Err(CameraError::InvalidFormat(String::from_str("RGB output buffer is too small")));
        },
    };
    let needed = match pixels.checked_mul(3) {
        Some(n) => n,
        None => {
            let _rgb_len = rgb.len();
            return Err(CameraError::InvalidFormat(String::from_str("RGB output buffer is too small")));
        },
    };
    if rgb.len() < needed {
        return Err(CameraError::InvalidFormat(String::from_str("RGB output buffer is too small")));
    }
    match check_plane(&y, width, height) {
        Ok(_) => {},
        Err(e) => return Err(e),
    }
    let chroma_width = width / 2 + width % 2;
    let chroma_rows = height / 2 + height % 2;
    proof {
        assert(chroma_width == (width as int + 1) / 2);
        assert(chroma_rows == (height as int + 1) / 2);
    }
    match check_plane(&u, chroma_width, chroma_rows) {
        Ok(_) => {},
        Err(e) => return Err(e),
    }
    match check_plane(&v, chroma_width, chroma_rows) {
        Ok(_) => {},
        Err(e) => return Err(e),
    }
    let c = bt601_full_coefficients();
    planar_rows(&y, &u, &v, width, height, &c, rgb);
    Ok(())
}

/// An interleaved chroma plane is two chroma planes with a sample stride of
/// two, the second starting one byte later: converting `U V` pairs through
/// the semi-planar path gives what the planar path gives.
pub proof fn lemma_semiplanar_is_planar(
    y: Seq<u8>,
    y_stride: int,
    uv: Seq<u8>,
    uv_stride: int,
    w: int,
    h: int,
    c: ColorCoefficients,
)
    requires
        w > 0,
        h >= 0,
        spec_rows_fit(uv.len() as int, uv_stride, (w + 1) / 2 * 2, (h + 1) / 2),
    ensures
        forall|j: int| 0 <= j < w * h * 3 ==> #[trigger] spec_semiplanar_byte(y, y_stride, uv, uv_stride, w, false, c, j)
            == spec_planar_byte(y, y_stride, 1, uv, uv_stride, 2, uv.subrange(1, uv.len() as int), uv_stride, 2, w, c, j),
{
    assert forall|j: int| 0 <= j < w * h * 3 implies #[trigger] spec_semiplanar_byte(y, y_stride, uv, uv_stride, w, false, c, j)
        == spec_planar_byte(y, y_stride, 1, uv, uv_stride, 2, uv.subrange(1, uv.len() as int), uv_stride, 2, w, c, j) by {
        let p = j / 3;
        let k = j % 3;
        assert(0 <= p < w * h);
        assert(j == 3 * p + k);
        lemma_decode(p, k, w, h);
        let col = spec_col(j, w);
        let r = spec_row(j, w);
        assert(r / 2 < (h + 1) / 2);
        assert((col / 2) * 2 + 1 < (w + 1) / 2 * 2);
        lemma_row_offset(r / 2, (h + 1) / 2, uv_stride, (col / 2) * 2 + 1, (w + 1) / 2 * 2, uv.len() as int);
        let chroma = (r / 2) * uv_stride + (col / 2) * 2;
        assert(uv.subrange(1, uv.len() as int)[chroma] == uv[chroma + 1]);
    }
}

/// Two buffers hold the same `h` rows of `row_bytes` bytes, at strides `s1`
/// and `s2`.
pub open spec fn spec_same_rows(d1: Seq<u8>, s1: int, d2: Seq<u8>, s2: int, row_bytes: int, h: int) -> bool {
    forall|r: int, k: int| 0 <= r < h && 0 <= k < row_bytes ==> #[trigger] d1[r * s1 + k] == #[trigger] d2[r * s2 + k]
}

/// Row padding does not matter: packed 4:2:2 rows with the same contents
/// convert to the same RGB at any stride.
pub proof fn lemma_packed_padding_independent(
    d1: Seq<u8>,
    s1: int,
    d2: Seq<u8>,
    s2: int,
    w: int,
    h: int,
    uyvy: bool,
    c: ColorCoefficients,
)
    requires
        w > 0,
        w % 2 == 0,
        h >= 0,
        spec_same_rows(d1, s1, d2, s2, 2 * w, h),
    ensures
        forall|j: int| 0 <= j < w * h * 3 ==> #[trigger] spec_packed_byte(d1, s1, w, uyvy, c, j) == spec_packed_byte(d2, s2, w, uyvy, c, j),
{
    assert forall|j: int| 0 <= j < w * h * 3 implies #[trigger] spec_packed_byte(d1, s1, w, uyvy, c, j) == spec_packed_byte(d2, s2, w, uyvy, c, j) by {
        let p = j / 3;
        let k = j % 3;
        assert(0 <= p < w * h);
        assert(j == 3 * p + k);
        lemma_decode(p, k, w, h);
        let r = p / w;
        let col = p % w;
        let off = (col / 2) * 4;
        assert(off + 3 < 2 * w);
        assert(d1[r * s1 + off] == d2[r * s2 + off]);
        assert(d1[r * s1 + (off + 1)] == d2[r * s2 + (off + 1)]);
        assert(d1[r * s1 + (off + 2)] == d2[r * s2 + (off + 2)]);
        assert(d1[r * s1 + (off + 3)] == d2[r * s2 + (off + 3)]);
    }
}

/// Row padding does not matter: RGB rows with the same contents copy to the
/// same RGB at any stride.
pub proof fn lemma_rgb_padding_independent(d1: Seq<u8>, s1: int, d2: Seq<u8>, s2: int, w: int, h: int)
    requires
        w > 0,
        h >= 0,
        spec_same_rows(d1, s1, d2, s2, 3 * w, h),
    ensures
        forall|j: int| 0 <= j < w * h * 3 ==> #[trigger] spec_rgb_byte(d1, s1, w, j) == spec_rgb_byte(d2, s2, w, j),
{
    assert forall|j: int| 0 <= j < w * h * 3 implies #[trigger] spec_rgb_byte(d1, s1, w, j) == spec_rgb_byte(d2, s2, w, j) by {
        let p = j / 3;
        let k = j % 3;
        assert(0 <= p < w * h);
        assert(j == 3 * p + k);
        lemma_decode(p, k, w, h);
        let r = p / w;
        let col = p % w;
        assert(d1[r * s1 + (3 * col + k)] == d2[r * s2 + (3 * col + k)]);
    }
}


/// Converting packed 4:2:2 rows gives every pixel the colour of its own
/// luma byte with the chroma of its 4-byte macropixel: in UYVY order
/// (`U Y0 V Y1`) U is byte 0 and V byte 2, the luma of an even column byte 1
/// and of an odd column byte 3; in YUYV order (`Y0 U Y1 V`) U is byte 1 and
/// V byte 3, the luma bytes 0 and 2.
pub proof fn lemma_packed_pixel_chroma(
    data: Seq<u8>,
    stride: int,
    w: int,
    uyvy: bool,
    c: ColorCoefficients,
    row: int,
    col: int,
    k: int,
)
    requires
        w > 0,
        row >= 0,
        0 <= col < w,
        0 <= k < 3,
    ensures
        ({
            let m = row * stride + (col / 2) * 4;
            let j = 3 * (row * w + col) + k;
            spec_packed_byte(data, stride, w, uyvy, c, j) == if uyvy {
                spec_yuv_channel(c, data[m + 1 + 2 * (col % 2)], data[m], data[m + 2], k)
            } else {
                spec_yuv_channel(c, data[m + 2 * (col % 2)], data[m + 1], data[m + 3], k)
            }
        }),
{
    let p = row * w + col;
    let j = 3 * p + k;
    assert(p >= 0) by (nonlinear_arith)
        requires
            row >= 0,
            w > 0,
            col >= 0,
            p == row * w + col,
    ;
    lemma_fundamental_div_mod_converse(j, 3, p, k);
    lemma_fundamental_div_mod_converse(p, w, row, col);
    assert(spec_row(j, w) == row);
    assert(spec_col(j, w) == col);
}


/// Row and column of the pixel that output bytes `3 * (row * w + col)` to
/// `3 * (row * w + col) + 2` describe.
proof fn lemma_output_pixel(w: int, row: int, col: int, k: int)
    requires
        w > 0,
        row >= 0,
        0 <= col < w,
        0 <= k < 3,
    ensures
        spec_row(3 * (row * w + col) + k, w) == row,
        spec_col(3 * (row * w + col) + k, w) == col,
        (3 * (row * w + col) + k) % 3 == k,
{
    let p = row * w + col;
    assert(p >= 0) by (nonlinear_arith)
        requires
            row >= 0,
            w > 0,
            col >= 0,
            p == row * w + col,
    ;
    lemma_fundamental_div_mod_converse(3 * p + k, 3, p, k);
    lemma_fundamental_div_mod_converse(p, w, row, col);
}

/// Each output pixel of the row-wise conversions takes its bytes from its own
/// place: RGB copies bytes `0, 1, 2` of its pixel; picking from `bpp`-byte
/// pixels takes red, green and blue from their offsets; gray repeats its one
/// byte; a luma plane with interleaved chroma uses the pixel's luma byte and
/// the pair of its 2x2 block, U first (V first when `vu_order`); separate
/// chroma planes use the samples of its 2x2 block.
pub proof fn lemma_pixel_sources(
    data: Seq<u8>,
    stride: int,
    w: int,
    bpp: int,
    offsets: (u8, u8, u8),
    uv: Seq<u8>,
    uv_stride: int,
    vu_order: bool,
    c: ColorCoefficients,
    row: int,
    col: int,
    k: int,
)
    requires
        w > 0,
        row >= 0,
        0 <= col < w,
        0 <= k < 3,
    ensures
        ({
            let j = 3 * (row * w + col) + k;
            let chroma = (row / 2) * uv_stride + (col / 2) * 2;
            let luma = data[row * stride + col];
            &&& spec_rgb_byte(data, stride, w, j) == data[row * stride + 3 * col + k]
            &&& spec_pick_byte(data, stride, w, bpp, offsets, j) == data[row * stride + bpp * col + (if k == 0 {
                offsets.0
            } else if k == 1 {
                offsets.1
            } else {
                offsets.2
            })]
            &&& spec_gray_byte(data, stride, w, j) == luma
            &&& spec_semiplanar_byte(data, stride, uv, uv_stride, w, vu_order, c, j) == if vu_order {
                spec_yuv_channel(c, luma, uv[chroma + 1], uv[chroma], k)
            } else {
                spec_yuv_channel(c, luma, uv[chroma], uv[chroma + 1], k)
            }
        }),
{
    lemma_output_pixel(w, row, col, k);
}

/// The three-plane conversion gives every pixel the colour of its own luma
/// sample with the U and V samples of its 2x2 block, each plane addressed by
/// its own row and sample strides.
pub proof fn lemma_planar_pixel_sources(
    y: Seq<u8>,
    y_stride: int,
    y_step: int,
    u: Seq<u8>,
    u_stride: int,
    u_step: int,
    v: Seq<u8>,
    v_stride: int,
    v_step: int,
    w: int,
    c: ColorCoefficients,
    row: int,
    col: int,
    k: int,
)
    requires
        w > 0,
        row >= 0,
        0 <= col < w,
        0 <= k < 3,
    ensures
        spec_planar_byte(y, y_stride, y_step, u, u_stride, u_step, v, v_stride, v_step, w, c, 3 * (row * w + col) + k)
            == spec_yuv_channel(
            c,
            y[row * y_stride + col * y_step],
            u[(row / 2) * u_stride + (col / 2) * u_step],
            v[(row / 2) * v_stride + (col / 2) * v_step],
            k,
        ),
{
    lemma_output_pixel(w, row, col, k);
}

} // verus!
