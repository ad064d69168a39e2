//! Capture and pixel formats.
use vstd::prelude::*;
use crate::color::ColorInfo;

verus! {

/// Wire format negotiated with a camera driver.
#[derive(Clone, Copy, Debug, PartialEq, Eq, Structural, Hash)]
pub enum VideoFormat {
    MJPEG,
    YUYV,
    UYVY,
    NV12,
    RGB,
    Gray,
    H264,
}

/// Capture format that callers request.
#[derive(Clone, Copy, Debug, PartialEq, Eq, Structural, Hash)]
pub enum CaptureFormat {
    Mjpeg,
    Yuyv,
    Uyvy,
    Nv12,
    Rgb8,
    H264,
    Gray8,
}

pub open spec fn spec_video_format(f: CaptureFormat) -> VideoFormat {
    match f {
        CaptureFormat::Mjpeg => VideoFormat::MJPEG,
        CaptureFormat::Yuyv => VideoFormat::YUYV,
        CaptureFormat::Uyvy => VideoFormat::UYVY,
        CaptureFormat::Nv12 => VideoFormat::NV12,
        CaptureFormat::Rgb8 => VideoFormat::RGB,
        CaptureFormat::H264 => VideoFormat::H264,
        CaptureFormat::Gray8 => VideoFormat::Gray,
    }
}

pub open spec fn spec_capture_format(f: VideoFormat) -> CaptureFormat {
    match f {
        VideoFormat::MJPEG => CaptureFormat::Mjpeg,
        VideoFormat::YUYV => CaptureFormat::Yuyv,
        VideoFormat::UYVY => CaptureFormat::Uyvy,
        VideoFormat::NV12 => CaptureFormat::Nv12,
        VideoFormat::RGB => CaptureFormat::Rgb8,
        VideoFormat::H264 => CaptureFormat::H264,
        VideoFormat::Gray => CaptureFormat::Gray8,
    }
}

/// Bytes per pixel of a packed single-plane format.
pub open spec fn spec_bytes_per_pixel(f: VideoFormat) -> Option<usize> {
    match f {
        VideoFormat::YUYV => Some(2),
        VideoFormat::UYVY => Some(2),
        VideoFormat::RGB => Some(3),
        VideoFormat::Gray => Some(1),
        _ => None,
    }
}

impl VideoFormat {
    /// Bytes per pixel for packed formats; `None` for planar and compressed ones.
    pub fn bytes_per_pixel(&self) -> (n: Option<usize>)
        ensures
            n == spec_bytes_per_pixel(*self),
    {
        match self {
            VideoFormat::YUYV => Some(2),
            VideoFormat::UYVY => Some(2),
            VideoFormat::RGB => Some(3),
            VideoFormat::Gray => Some(1),
            _ => None,
        }
    }

    /// The corresponding capture format.
    pub fn to_capture_format(&self) -> (f: CaptureFormat)
        ensures
            f == spec_capture_format(*self),
            spec_video_format(f) == *self,
    {
        match self {
            VideoFormat::MJPEG => CaptureFormat::Mjpeg,
            VideoFormat::YUYV => CaptureFormat::Yuyv,
            VideoFormat::UYVY => CaptureFormat::Uyvy,
            VideoFormat::NV12 => CaptureFormat::Nv12,
            VideoFormat::RGB => CaptureFormat::Rgb8,
            VideoFormat::H264 => CaptureFormat::H264,
            VideoFormat::Gray => CaptureFormat::Gray8,
        }
    }
}

impl CaptureFormat {
    /// The corresponding driver format.
    pub fn to_video_format(&self) -> (f: VideoFormat)
        ensures
            f == spec_video_format(*self),
            spec_capture_format(f) == *self,
    {
        match self {
            CaptureFormat::Mjpeg => VideoFormat::MJPEG,
            CaptureFormat::Yuyv => VideoFormat::YUYV,
            CaptureFormat::Uyvy => VideoFormat::UYVY,
            CaptureFormat::Nv12 => VideoFormat::NV12,
            CaptureFormat::Rgb8 => VideoFormat::RGB,
            CaptureFormat::H264 => VideoFormat::H264,
            CaptureFormat::Gray8 => VideoFormat::Gray,
        }
    }
}

/// Layout of the bytes of a delivered frame.
#[derive(Clone, Copy, Debug, PartialEq, Eq, Structural, Hash)]
pub enum PixelFormat {
    Mjpeg,
    Yuyv,
    Uyvy,
    Nv12,
    Nv21,
    Yuv420p,
    Rgb8,
    Bgr8,
    Rgba8,
    Bgra8,
    Argb8,
    Gray8,
    H264,
}

/// Placement of one plane inside a frame's bytes.
#[derive(Clone, Copy, Debug, PartialEq, Eq, Structural, Hash)]
pub struct PlaneLayout {
    pub offset: usize,
    pub length: usize,
    pub row_stride: usize,
    pub pixel_stride: usize,
}

/// Geometry and format of a delivered frame.
#[derive(Clone, Debug)]
pub struct FrameLayout {
    pub width: u32,
    pub height: u32,
    pub format: PixelFormat,
    pub planes: Vec<PlaneLayout>,
    pub bottom_up: bool,
    /// Colorimetry the source reported; `None` when it reported none.
    pub color: Option<ColorInfo>,
}

/// Distance in bytes between neighbouring samples of a format's first
/// plane: the bytes per pixel of packed formats, one luma byte for the
/// YUV 4:2:0 formats, and zero for compressed formats.
pub open spec fn spec_pixel_stride(format: PixelFormat) -> usize {
    match format {
        PixelFormat::Mjpeg | PixelFormat::H264 => 0,
        PixelFormat::Yuyv | PixelFormat::Uyvy => 2,
        PixelFormat::Nv12 | PixelFormat::Nv21 | PixelFormat::Yuv420p | PixelFormat::Gray8 => 1,
        PixelFormat::Rgb8 | PixelFormat::Bgr8 => 3,
        PixelFormat::Rgba8 | PixelFormat::Bgra8 | PixelFormat::Argb8 => 4,
    }
}

impl PixelFormat {
    /// Distance in bytes between neighbouring samples of the first plane.
    pub fn pixel_stride(&self) -> (n: usize)
        ensures
            n == spec_pixel_stride(*self),
    {
        match self {
            PixelFormat::Mjpeg | PixelFormat::H264 => 0,
            PixelFormat::Yuyv | PixelFormat::Uyvy => 2,
            PixelFormat::Nv12 | PixelFormat::Nv21 | PixelFormat::Yuv420p | PixelFormat::Gray8 => 1,
            PixelFormat::Rgb8 | PixelFormat::Bgr8 => 3,
            PixelFormat::Rgba8 | PixelFormat::Bgra8 | PixelFormat::Argb8 => 4,
        }
    }
}

impl FrameLayout {
    /// A top-down frame held in one plane of `length` bytes whose rows are
    /// `row_stride` bytes apart.
    pub fn packed(width: u32, height: u32, format: PixelFormat, row_stride: usize, length: usize) -> (l: FrameLayout)
        ensures
            l.width == width && l.height == height && l.format == format && !l.bottom_up && l.color is None,
            l.planes@ == seq![PlaneLayout { offset: 0, length, row_stride, pixel_stride: spec_pixel_stride(format) }],
    {
        let mut planes: Vec<PlaneLayout> = Vec::new();
        planes.push(PlaneLayout { offset: 0, length, row_stride, pixel_stride: format.pixel_stride() });
        FrameLayout { width, height, format, planes, bottom_up: false, color: None }
    }
}

/// The byte range `[offset, offset + width * height * 3)` of a frame whose
/// single plane holds tightly packed, top-down RGB rows.
pub open spec fn spec_contiguous_rgb_range(layout: FrameLayout, byte_len: nat) -> Option<(int, int)> {
    if layout.planes@.len() != 1 || layout.format != PixelFormat::Rgb8 || layout.bottom_up {
        None
    } else {
        let plane = layout.planes@[0];
        let row = layout.width * 3;
        let length = row * layout.height;
        if plane.pixel_stride != 3 || plane.row_stride != row || plane.length < length
            || plane.offset + length > byte_len || length > usize::MAX || plane.offset + length
            > usize::MAX {
            None
        } else {
            Some((plane.offset as int, plane.offset + length))
        }
    }
}

/// Borrows a frame's RGB pixels when its single plane is already tightly
/// packed, top-down RGB; `None` otherwise.
pub fn contiguous_rgb<'a>(layout: &FrameLayout, bytes: &'a [u8]) -> (out: Option<&'a [u8]>)
    ensures
        match spec_contiguous_rgb_range(*layout, bytes@.len()) {
            Some((start, end)) => out matches Some(s) && s@ == bytes@.subrange(start, end),
            None => out is None,
        },
{
    if layout.planes.len() != 1 {
        return None;
    }
    let plane = layout.planes[0];
    let row = match (layout.width as usize).checked_mul(3) {
        Some(r) => r,
        None => return None,
    };
    let length = match row.checked_mul(layout.height as usize) {
        Some(l) => l,
        None => return None,
    };
    if layout.format != PixelFormat::Rgb8 || layout.bottom_up || plane.pixel_stride != 3
        || plane.row_stride != row || plane.length < length {
        return None;
    }
    let end = match plane.offset.checked_add(length) {
        Some(e) => e,
        None => return None,
    };
    if end > bytes.len() {
        return None;
    }
    Some(vstd::slice::slice_subrange(bytes, plane.offset, end))
}

} // verus!
