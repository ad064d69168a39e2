//! YCbCr to RGB arithmetic in 8-bit fixed point.
use vstd::prelude::*;
use crate::error::{CameraError, CameraResult};

verus! {

/// YCbCr matrix of a frame.
#[derive(Clone, Copy, Debug, PartialEq, Eq, Structural, Hash)]
pub enum ColorMatrix {
    Unknown,
    Bt601,
    Bt709,
    Bt2020,
    Smpte240M,
}

/// Quantization range of a frame.
#[derive(Clone, Copy, Debug, PartialEq, Eq, Structural, Hash)]
pub enum ColorRange {
    Full,
    Limited,
}

/// Colorimetry of a frame.
#[derive(Clone, Copy, Debug, PartialEq, Eq, Structural, Hash)]
pub struct ColorInfo {
    pub matrix: ColorMatrix,
    pub range: ColorRange,
}

/// Fixed-point conversion factors, scaled by 256:
/// `R = ys*(Y-yo) + rv*(V-128)`, `G = ys*(Y-yo) - gu*(U-128) - gv*(V-128)`,
/// `B = ys*(Y-yo) + bu*(U-128)`.
#[derive(Clone, Copy, Debug, PartialEq, Eq, Structural, Hash)]
pub struct ColorCoefficients {
    pub y_scale: i32,
    pub y_offset: i32,
    pub r_v: i32,
    pub g_u: i32,
    pub g_v: i32,
    pub b_u: i32,
}

impl ColorCoefficients {
    /// Every factor is small enough for 32-bit arithmetic on 8-bit samples.
    pub open spec fn wf(self) -> bool {
        &&& 0 <= self.y_scale <= 1024
        &&& 0 <= self.y_offset <= 255
        &&& 0 <= self.r_v <= 1024
        &&& 0 <= self.g_u <= 1024
        &&& 0 <= self.g_v <= 1024
        &&& 0 <= self.b_u <= 1024
    }
}

/// Full-range BT.601 factors.
pub open spec fn bt601_full_spec() -> ColorCoefficients {
    spec_color_coefficients(ColorInfo { matrix: ColorMatrix::Bt601, range: ColorRange::Full })
}

/// Full-range BT.601, the default for cameras that do not report colorimetry.
pub fn bt601_full_coefficients() -> (c: ColorCoefficients)
    ensures
        c == bt601_full_spec(),
        c.wf(),
{
    ColorCoefficients { y_scale: 256, y_offset: 0, r_v: 359, g_u: 88, g_v: 183, b_u: 454 }
}

/// Fixed-point factors of a colorimetry. `Unknown` is treated as BT.601.
pub open spec fn spec_color_coefficients(info: ColorInfo) -> ColorCoefficients {
    let full = info.range == ColorRange::Full;
    match info.matrix {
        ColorMatrix::Bt709 => if full {
            ColorCoefficients { y_scale: 256, y_offset: 0, r_v: 403, g_u: 48, g_v: 120, b_u: 475 }
        } else {
            ColorCoefficients { y_scale: 298, y_offset: 16, r_v: 459, g_u: 55, g_v: 136, b_u: 541 }
        },
        ColorMatrix::Bt2020 => if full {
            ColorCoefficients { y_scale: 256, y_offset: 0, r_v: 377, g_u: 42, g_v: 146, b_u: 482 }
        } else {
            ColorCoefficients { y_scale: 298, y_offset: 16, r_v: 430, g_u: 48, g_v: 167, b_u: 548 }
        },
        ColorMatrix::Smpte240M => if full {
            ColorCoefficients { y_scale: 256, y_offset: 0, r_v: 403, g_u: 58, g_v: 122, b_u: 467 }
        } else {
            ColorCoefficients { y_scale: 298, y_offset: 16, r_v: 459, g_u: 66, g_v: 139, b_u: 532 }
        },
        _ => if full {
            ColorCoefficients { y_scale: 256, y_offset: 0, r_v: 359, g_u: 88, g_v: 183, b_u: 454 }
        } else {
            ColorCoefficients { y_scale: 298, y_offset: 16, r_v: 409, g_u: 100, g_v: 208, b_u: 516 }
        },
    }
}

/// Fixed-point factors of a colorimetry.
pub fn color_coefficients(info: ColorInfo) -> (c: ColorCoefficients)
    ensures
        c == spec_color_coefficients(info),
        c.wf(),
{
    let full = match info.range {
        ColorRange::Full => true,
        ColorRange::Limited => false,
    };
    match info.matrix {
        ColorMatrix::Bt709 => if full {
            ColorCoefficients { y_scale: 256, y_offset: 0, r_v: 403, g_u: 48, g_v: 120, b_u: 475 }
        } else {
            ColorCoefficients { y_scale: 298, y_offset: 16, r_v: 459, g_u: 55, g_v: 136, b_u: 541 }
        },
        ColorMatrix::Bt2020 => if full {
            ColorCoefficients { y_scale: 256, y_offset: 0, r_v: 377, g_u: 42, g_v: 146, b_u: 482 }
        } else {
            ColorCoefficients { y_scale: 298, y_offset: 16, r_v: 430, g_u: 48, g_v: 167, b_u: 548 }
        },
        ColorMatrix::Smpte240M => if full {
            ColorCoefficients { y_scale: 256, y_offset: 0, r_v: 403, g_u: 58, g_v: 122, b_u: 467 }
        } else {
            ColorCoefficients { y_scale: 298, y_offset: 16, r_v: 459, g_u: 66, g_v: 139, b_u: 532 }
        },
        _ => if full {
            ColorCoefficients { y_scale: 256, y_offset: 0, r_v: 359, g_u: 88, g_v: 183, b_u: 454 }
        } else {
            ColorCoefficients { y_scale: 298, y_offset: 16, r_v: 409, g_u: 100, g_v: 208, b_u: 516 }
        },
    }
}

/// Rounds a 256-scaled channel value and clamps it to `0..=255`.
pub open spec fn spec_channel(sum: int) -> u8 {
    if sum < 0 {
        0
    } else if (sum + 128) / 256 > 255 {
        255
    } else {
        ((sum + 128) / 256) as u8
    }
}

pub open spec fn spec_red(c: ColorCoefficients, y: u8, u: u8, v: u8) -> u8 {
    spec_channel(c.y_scale * (y - c.y_offset) + c.r_v * (v - 128))
}

pub open spec fn spec_green(c: ColorCoefficients, y: u8, u: u8, v: u8) -> u8 {
    spec_channel(c.y_scale * (y - c.y_offset) - c.g_u * (u - 128) - c.g_v * (v - 128))
}

pub open spec fn spec_blue(c: ColorCoefficients, y: u8, u: u8, v: u8) -> u8 {
    spec_channel(c.y_scale * (y - c.y_offset) + c.b_u * (u - 128))
}

/// Channel `k` (0 red, 1 green, 2 blue) of the RGB value of a YCbCr sample.
pub open spec fn spec_yuv_channel(c: ColorCoefficients, y: u8, u: u8, v: u8, k: int) -> u8 {
    if k == 0 {
        spec_red(c, y, u, v)
    } else if k == 1 {
        spec_green(c, y, u, v)
    } else {
        spec_blue(c, y, u, v)
    }
}

fn channel(sum: i32) -> (out: u8)
    requires
        -2_000_000 <= sum <= 2_000_000,
    ensures
        out == spec_channel(sum as int),
{
    if sum < 0 {
        0
    } else {
        let scaled = (sum + 128) / 256;
        if scaled > 255 {
            255
        } else {
            scaled as u8
        }
    }
}

proof fn lemma_product_bounds(a: int, b: int)
    requires
        0 <= a <= 1024,
        -255 <= b <= 255,
    ensures
        -261_120 <= a * b <= 261_120,
{
    assert(-261_120 <= a * b <= 261_120) by (nonlinear_arith)
        requires
            0 <= a <= 1024,
            -255 <= b <= 255,
    ;
}

/// Converts one YCbCr sample to RGB.
pub fn yuv_to_rgb(c: &ColorCoefficients, y: u8, u: u8, v: u8) -> (rgb: (u8, u8, u8))
    requires
        c.wf(),
    ensures
        rgb.0 == spec_red(*c, y, u, v),
        rgb.1 == spec_green(*c, y, u, v),
        rgb.2 == spec_blue(*c, y, u, v),
{
    let yy = y as i32 - c.y_offset;
    let uu = u as i32 - 128;
    let vv = v as i32 - 128;
    proof {
        lemma_product_bounds(c.y_scale as int, yy as int);
        lemma_product_bounds(c.r_v as int, vv as int);
        lemma_product_bounds(c.g_u as int, uu as int);
        lemma_product_bounds(c.g_v as int, vv as int);
        lemma_product_bounds(c.b_u as int, uu as int);
    }
    let luma = c.y_scale * yy;
    let r = channel(luma + c.r_v * vv);
    let g = channel(luma - c.g_u * uu - c.g_v * vv);
    let b = channel(luma + c.b_u * uu);
    (r, g, b)
}

/// Parses the V4L2 YCbCr encoding code and quantization of a negotiated
/// format into fixed-point factors.
pub fn v4l2_colorimetry(matrix: u32, full: bool) -> (r: CameraResult<ColorCoefficients>)
    ensures
        match r {
            Ok(c) => spec_v4l2_matrix(matrix) is Some && c == spec_color_coefficients(
                ColorInfo {
                    matrix: spec_v4l2_matrix(matrix).unwrap(),
                    range: if full {
                        ColorRange::Full
                    } else {
                        ColorRange::Limited
                    },
                },
            ) && c.wf(),
            Err(e) => spec_v4l2_matrix(matrix) is None && e is UnsupportedFormat,
        },
{
    let m = if matrix == 1 || matrix == 3 || matrix == 5 {
        ColorMatrix::Bt601
    } else if matrix == 2 || matrix == 4 {
        ColorMatrix::Bt709
    } else if matrix == 6 {
        ColorMatrix::Bt2020
    } else if matrix == 8 {
        ColorMatrix::Smpte240M
    } else {
        return Err(CameraError::UnsupportedFormat(String::from_str("V4L2 YCbCr encoding")));
    };
    Ok(color_coefficients(ColorInfo { matrix: m, range: if full { ColorRange::Full } else { ColorRange::Limited } }))
}

/// The color matrix of a V4L2 YCbCr encoding code.
pub open spec fn spec_v4l2_matrix(code: u32) -> Option<ColorMatrix> {
    if code == 1 || code == 3 || code == 5 {
        Some(ColorMatrix::Bt601)
    } else if code == 2 || code == 4 {
        Some(ColorMatrix::Bt709)
    } else if code == 6 {
        Some(ColorMatrix::Bt2020)
    } else if code == 8 {
        Some(ColorMatrix::Smpte240M)
    } else {
        None
    }
}


/// `spec_channel` never decreases as its argument grows.
proof fn lemma_channel_monotone(a: int, b: int)
    requires
        a <= b,
    ensures
        spec_channel(a) <= spec_channel(b),
{
    if a >= 0 {
        vstd::arithmetic::div_mod::lemma_div_is_ordered(a + 128, b + 128, 256);
    }
}

/// How each colour of a converted pixel depends on its samples, for the
/// factors of every colorimetry: red does not depend on U, blue not on V;
/// red grows with V, blue with U, green falls as either grows; with neutral
/// chroma (U = V = 128) the pixel is gray, and in full range its gray is the
/// luma itself.
pub proof fn lemma_yuv_colour_roles(info: ColorInfo, y: u8, u: u8, v: u8, u2: u8, v2: u8)
    ensures
        ({
            let c = spec_color_coefficients(info);
            &&& spec_red(c, y, u, v) == spec_red(c, y, u2, v)
            &&& spec_blue(c, y, u, v) == spec_blue(c, y, u, v2)
            &&& v <= v2 ==> spec_red(c, y, u, v) <= spec_red(c, y, u, v2)
            &&& u <= u2 ==> spec_blue(c, y, u, v) <= spec_blue(c, y, u2, v)
            &&& u <= u2 ==> spec_green(c, y, u2, v) <= spec_green(c, y, u, v)
            &&& v <= v2 ==> spec_green(c, y, u, v2) <= spec_green(c, y, u, v)
            &&& spec_red(c, y, 128, 128) == spec_green(c, y, 128, 128) == spec_blue(c, y, 128, 128)
            &&& info.range == ColorRange::Full ==> spec_red(c, y, 128, 128) == y
        }),
{
    let c = spec_color_coefficients(info);
    let base = c.y_scale * (y - c.y_offset);
    if v <= v2 {
        assert(c.r_v * (v - 128) <= c.r_v * (v2 - 128)) by (nonlinear_arith)
            requires
                c.r_v >= 0,
                v <= v2,
        ;
        assert(c.g_v * (v - 128) <= c.g_v * (v2 - 128)) by (nonlinear_arith)
            requires
                c.g_v >= 0,
                v <= v2,
        ;
        lemma_channel_monotone(base + c.r_v * (v - 128), base + c.r_v * (v2 - 128));
        lemma_channel_monotone(base - c.g_u * (u - 128) - c.g_v * (v2 - 128), base - c.g_u * (u - 128) - c.g_v * (v - 128));
    }
    if u <= u2 {
        assert(c.b_u * (u - 128) <= c.b_u * (u2 - 128)) by (nonlinear_arith)
            requires
                c.b_u >= 0,
                u <= u2,
        ;
        assert(c.g_u * (u - 128) <= c.g_u * (u2 - 128)) by (nonlinear_arith)
            requires
                c.g_u >= 0,
                u <= u2,
        ;
        lemma_channel_monotone(base + c.b_u * (u - 128), base + c.b_u * (u2 - 128));
        lemma_channel_monotone(base - c.g_u * (u2 - 128) - c.g_v * (v - 128), base - c.g_u * (u - 128) - c.g_v * (v - 128));
    }
    if info.range == ColorRange::Full {
        assert(c.y_scale == 256 && c.y_offset == 0);
        assert(c.y_scale * (y - c.y_offset) + 128 == (y as int) * 256 + 128) by (nonlinear_arith)
            requires
                c.y_scale == 256,
                c.y_offset == 0,
        ;
        vstd::arithmetic::div_mod::lemma_fundamental_div_mod_converse((y as int) * 256 + 128, 256, y as int, 128);
    }
}

} // verus!
