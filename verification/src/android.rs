//! Android adapter: USB device descriptions, the names callers use for
//! backends, formats and controls, and Bitmap-ready ARGB output.
use vstd::prelude::*;
use crate::api::{BackendPolicy, CameraSystem, SystemBuilder};
use crate::controls::{spec_control_at, spec_control_name, ControlId, CONTROL_ID_COUNT};
use crate::error::{CameraError, CameraResult};
use crate::format::CaptureFormat;
use crate::ids::BackendId;
use crate::platform::Platform;
use crate::text::{chars_of, lower_chars, same_chars, spec_lower_seq, spec_trim, trimmed};

verus! {

/// A USB video device discovered through Android's `UsbManager`.
#[derive(Clone, Debug)]
pub struct UsbDeviceInfo {
    /// Stable index within the current scan result.
    pub index: u32,
    /// User-facing device name.
    pub name: String,
    /// Additional device description supplied by Android.
    pub description: String,
    /// USB vendor identifier, when Android exposes it.
    pub vendor_id: Option<u16>,
    /// USB product identifier, when Android exposes it.
    pub product_id: Option<u16>,
    /// USB serial number, when the application may read it.
    pub serial_number: Option<String>,
    /// Android USB device path used by the permission and open calls.
    pub device_path: Option<String>,
}

/// The backend a name selects, case-insensitively: `camera2`, `uvc`,
/// `v4l2`, or `auto` for the platform default.
pub open spec fn spec_backend_by_name(lower: Seq<char>) -> Option<Option<BackendId>> {
    if lower == seq!['c', 'a', 'm', 'e', 'r', 'a', '2'] {
        Some(Some(BackendId::Camera2))
    } else if lower == seq!['u', 'v', 'c'] {
        Some(Some(BackendId::Uvc))
    } else if lower == seq!['v', '4', 'l', '2'] {
        Some(Some(BackendId::V4l2))
    } else if lower == seq!['a', 'u', 't', 'o'] {
        Some(None)
    } else {
        None
    }
}

/// Parses a backend name; `auto` is the platform default (`None`).
pub fn backend(name: &str) -> (r: CameraResult<Option<BackendId>>)
    ensures
        match spec_backend_by_name(spec_lower_seq(name@)) {
            Some(b) => r == Ok::<Option<BackendId>, CameraError>(b),
            None => r matches Err(e) && e is InvalidState,
        },
{
    let lower = lower_chars(name);
    let camera2: [char; 7] = ['c', 'a', 'm', 'e', 'r', 'a', '2'];
    let uvc: [char; 3] = ['u', 'v', 'c'];
    let v4l2: [char; 4] = ['v', '4', 'l', '2'];
    let auto: [char; 4] = ['a', 'u', 't', 'o'];
    proof {
        assert(camera2@ =~= seq!['c', 'a', 'm', 'e', 'r', 'a', '2']);
        assert(uvc@ =~= seq!['u', 'v', 'c']);
        assert(v4l2@ =~= seq!['v', '4', 'l', '2']);
        assert(auto@ =~= seq!['a', 'u', 't', 'o']);
    }
    if same_chars(lower.as_slice(), &camera2) {
        Ok(Some(BackendId::Camera2))
    } else if same_chars(lower.as_slice(), &uvc) {
        Ok(Some(BackendId::Uvc))
    } else if same_chars(lower.as_slice(), &v4l2) {
        Ok(Some(BackendId::V4l2))
    } else if same_chars(lower.as_slice(), &auto) {
        Ok(None)
    } else {
        Err(CameraError::InvalidState(String::from_str("Backend must be auto, camera2, uvc, or v4l2")))
    }
}

/// The capture format a name selects, ignoring surrounding white space and
/// ASCII case.
pub open spec fn spec_format_by_name(n: Seq<char>) -> Option<CaptureFormat> {
    if n == seq!['m', 'j', 'p', 'e', 'g'] || n == seq!['m', 'j', 'p', 'g'] {
        Some(CaptureFormat::Mjpeg)
    } else if n == seq!['y', 'u', 'y', 'v'] || n == seq!['y', 'u', 'y', '2'] {
        Some(CaptureFormat::Yuyv)
    } else if n == seq!['u', 'y', 'v', 'y'] {
        Some(CaptureFormat::Uyvy)
    } else if n == seq!['n', 'v', '1', '2'] {
        Some(CaptureFormat::Nv12)
    } else if n == seq!['r', 'g', 'b'] || n == seq!['r', 'g', 'b', '8'] {
        Some(CaptureFormat::Rgb8)
    } else if n == seq!['h', '2', '6', '4'] {
        Some(CaptureFormat::H264)
    } else if n == seq!['g', 'r', 'a', 'y'] || n == seq!['g', 'r', 'a', 'y', '8'] {
        Some(CaptureFormat::Gray8)
    } else {
        None
    }
}

/// Parses a capture format name.
pub fn capture_format(name: &str) -> (r: CameraResult<CaptureFormat>)
    ensures
        match spec_format_by_name(spec_lower_seq(spec_trim(name@))) {
            Some(f) => r == Ok::<CaptureFormat, CameraError>(f),
            None => r matches Err(e) && e is InvalidState,
        },
{
    let chars = chars_of(name);
    let t = trimmed(chars.as_slice());
    let mut n: Vec<char> = Vec::new();
    let mut i: usize = 0;
    while i < t.len()
        invariant
            i <= t@.len(),
            n@ == spec_lower_seq(t@.subrange(0, i as int)),
        decreases t@.len() - i,
    {
        let c = crate::text::lower_char(t[i]);
        proof {
            assert(spec_lower_seq(t@.subrange(0, i as int + 1)) =~= spec_lower_seq(t@.subrange(0, i as int)).push(c));
        }
        n.push(c);
        i = i + 1;
    }
    proof {
        assert(t@.subrange(0, t@.len() as int) =~= t@);
    }
    let mjpeg: [char; 5] = ['m', 'j', 'p', 'e', 'g'];
    let mjpg: [char; 4] = ['m', 'j', 'p', 'g'];
    let yuyv: [char; 4] = ['y', 'u', 'y', 'v'];
    let yuy2: [char; 4] = ['y', 'u', 'y', '2'];
    let uyvy: [char; 4] = ['u', 'y', 'v', 'y'];
    let nv12: [char; 4] = ['n', 'v', '1', '2'];
    let rgb: [char; 3] = ['r', 'g', 'b'];
    let rgb8: [char; 4] = ['r', 'g', 'b', '8'];
    let h264: [char; 4] = ['h', '2', '6', '4'];
    let gray: [char; 4] = ['g', 'r', 'a', 'y'];
    let gray8: [char; 5] = ['g', 'r', 'a', 'y', '8'];
    proof {
        assert(mjpeg@ =~= seq!['m', 'j', 'p', 'e', 'g']);
        assert(mjpg@ =~= seq!['m', 'j', 'p', 'g']);
        assert(yuyv@ =~= seq!['y', 'u', 'y', 'v']);
        assert(yuy2@ =~= seq!['y', 'u', 'y', '2']);
        assert(uyvy@ =~= seq!['u', 'y', 'v', 'y']);
        assert(nv12@ =~= seq!['n', 'v', '1', '2']);
        assert(rgb@ =~= seq!['r', 'g', 'b']);
        assert(rgb8@ =~= seq!['r', 'g', 'b', '8']);
        assert(h264@ =~= seq!['h', '2', '6', '4']);
        assert(gray@ =~= seq!['g', 'r', 'a', 'y']);
        assert(gray8@ =~= seq!['g', 'r', 'a', 'y', '8']);
    }
    let s = n.as_slice();
    if same_chars(s, &mjpeg) || same_chars(s, &mjpg) {
        Ok(CaptureFormat::Mjpeg)
    } else if same_chars(s, &yuyv) || same_chars(s, &yuy2) {
        Ok(CaptureFormat::Yuyv)
    } else if same_chars(s, &uyvy) {
        Ok(CaptureFormat::Uyvy)
    } else if same_chars(s, &nv12) {
        Ok(CaptureFormat::Nv12)
    } else if same_chars(s, &rgb) || same_chars(s, &rgb8) {
        Ok(CaptureFormat::Rgb8)
    } else if same_chars(s, &h264) {
        Ok(CaptureFormat::H264)
    } else if same_chars(s, &gray) || same_chars(s, &gray8) {
        Ok(CaptureFormat::Gray8)
    } else {
        Err(CameraError::InvalidState(String::from_str("Unknown capture format")))
    }
}

/// The system an adapter call uses: the named backend required, or the
/// platform default.
pub fn system_for(platform: Platform, backend: Option<BackendId>) -> (r: CameraResult<CameraSystem>)
    ensures
        r matches Ok(s) && s.spec_policy() == match backend {
            Some(b) => BackendPolicy::Require(b),
            None => BackendPolicy::PlatformDefault,
        } && !s.spec_synthetic() && s.spec_options().len() == 0 && s.spec_platform() == platform,
{
    let policy = match backend {
        Some(b) => BackendPolicy::Require(b),
        None => BackendPolicy::PlatformDefault,
    };
    let builder: SystemBuilder = CameraSystem::builder(platform).backend_policy(policy);
    proof {
        crate::api::lemma_empty_options_valid(builder.spec_options(), builder.spec_policy());
    }
    builder.build()
}

/// The control a name selects, written as the control's variant.
pub fn control_id(name: &str) -> (r: CameraResult<ControlId>)
    ensures
        match r {
            Ok(id) => spec_control_name(id) == name@,
            Err(e) => e is InvalidState && forall|id: ControlId| spec_control_name(id) != name@,
        },
{
    let wanted = chars_of(name);
    let mut i: usize = 0;
    while i < CONTROL_ID_COUNT
        invariant
            i <= CONTROL_ID_COUNT,
            wanted@ == name@,
            forall|k: int| 0 <= k < i ==> spec_control_name(#[trigger] spec_control_at(k)) != name@,
        decreases CONTROL_ID_COUNT - i,
    {
        let id = ControlId::at(i);
        let candidate = chars_of(id.name());
        if same_chars(candidate.as_slice(), wanted.as_slice()) {
            return Ok(id);
        }
        i = i + 1;
    }
    proof {
        assert forall|id: ControlId| spec_control_name(id) != name@ by {
            crate::controls::lemma_control_at_covers(id);
            let k = choose|k: int| 0 <= k < CONTROL_ID_COUNT && spec_control_at(k) == id;
            assert(spec_control_name(spec_control_at(k)) != name@);
        }
    }
    Err(CameraError::InvalidState(String::from_str("Unknown control ID")))
}

/// Byte `j` of the ARGB output of RGB bytes: each pixel is the 32-bit word
/// `0xff << 24 | r << 16 | g << 8 | b` in little-endian byte order, the
/// native order of Android's ABIs.
pub open spec fn spec_argb_byte(rgb: Seq<u8>, j: int) -> u8 {
    let p = j / 4;
    let k = j % 4;
    if k == 0 {
        rgb[3 * p + 2]
    } else if k == 1 {
        rgb[3 * p + 1]
    } else if k == 2 {
        rgb[3 * p]
    } else {
        0xff
    }
}

/// Writes RGB pixels as ARGB8888 words for `Bitmap.Config.ARGB_8888`. The
/// RGB length must be a multiple of 3 and the output must hold 4 bytes per
/// pixel.
pub fn rgb_to_android_argb(rgb: &[u8], output: &mut [u8]) -> (r: CameraResult<()>)
    ensures
        final(output)@.len() == old(output)@.len(),
        r is Ok <==> rgb@.len() % 3 == 0 && old(output)@.len() >= rgb@.len() / 3 * 4,
        r matches Err(e) ==> e is InvalidState && final(output)@ == old(output)@,
        r is Ok ==> forall|j: int| 0 <= j < rgb@.len() / 3 * 4 ==> final(output)@[j] == spec_argb_byte(rgb@, j),
        r is Ok ==> forall|j: int| rgb@.len() / 3 * 4 <= j < old(output)@.len() ==> final(output)@[j] == old(output)@[j],
{
    let pixels = rgb.len() / 3;
    let _out_len = output.len();
    if rgb.len() % 3 != 0 || output.len() / 4 < pixels {
        return Err(CameraError::InvalidState(String::from_str("Invalid RGB/ARGB buffer lengths")));
    }
    let mut p: usize = 0;
    while p < pixels
        invariant
            pixels == rgb@.len() / 3,
            rgb@.len() % 3 == 0,
            rgb@.len() <= usize::MAX,
            old(output)@.len() <= usize::MAX,
            pixels * 4 <= old(output)@.len(),
            output@.len() == old(output)@.len(),
            p <= pixels,
            forall|j: int| 0 <= j < 4 * p ==> output@[j] == spec_argb_byte(rgb@, j),
            forall|j: int| 4 * p <= j < output@.len() ==> output@[j] == old(output)@[j],
        decreases pixels - p,
    {
        let src = 3 * p;
        let dst = 4 * p;
        output[dst] = rgb[src + 2];
        output[dst + 1] = rgb[src + 1];
        output[dst + 2] = rgb[src];
        output[dst + 3] = 0xff;
        proof {
            assert forall|j: int| 4 * p <= j < 4 * p + 4 implies output@[j] == spec_argb_byte(rgb@, j) by {
                assert(j / 4 == p);
            }
        }
        p = p + 1;
    }
    Ok(())
}

/// Bytes an ARGB frame needs for an RGB frame of `rgb_length` bytes:
/// 4 per pixel; `None` on overflow.
pub fn argb_length(rgb_length: usize) -> (r: Option<usize>)
    ensures
        match r {
            Some(n) => n == rgb_length / 3 * 4,
            None => rgb_length / 3 * 4 > usize::MAX,
        },
{
    (rgb_length / 3).checked_mul(4)
}

/// A frame wait of `0..=60000` milliseconds is accepted.
pub fn valid_frame_timeout(timeout_ms: i32) -> (r: bool)
    ensures
        r == (0 <= timeout_ms <= 60000),
{
    0 <= timeout_ms && timeout_ms <= 60000
}

/// Bytes a frame delivery writes into the caller's buffer: the frame's own
/// bytes for native output, its RGB bytes, or 4 bytes per pixel for Android
/// ARGB. `InvalidState` when ARGB is asked of a native session, when the ARGB
/// size overflows, or when the buffer's `capacity` is smaller.
pub fn delivery_length(
    native_output: bool,
    android_argb: bool,
    frame_length: usize,
    rgb_length: usize,
    capacity: usize,
) -> (r: CameraResult<usize>)
    ensures
        if android_argb && native_output {
            r matches Err(e) && e is InvalidState
        } else {
            let required = if native_output {
                frame_length as int
            } else if android_argb {
                rgb_length / 3 * 4
            } else {
                rgb_length as int
            };
            if required > usize::MAX || capacity < required {
                r matches Err(e) && e is InvalidState
            } else {
                r matches Ok(n) && n == required
            }
        },
{
    if android_argb && native_output {
        return Err(CameraError::InvalidState(String::from_str("Android ARGB output requires an RGB capture session")));
    }
    let required = if native_output {
        frame_length
    } else if android_argb {
        match argb_length(rgb_length) {
            Some(n) => n,
            None => return Err(CameraError::InvalidState(String::from_str("ARGB frame size overflow"))),
        }
    } else {
        rgb_length
    };
    if capacity < required {
        return Err(CameraError::InvalidState(String::from_str("Direct buffer is too small for the frame")));
    }
    Ok(required)
}

/// A frame taken from a capture session but not yet delivered: its session,
/// its sequence number in that session, and the bytes its delivery needs.
#[derive(Clone, Copy, Debug, PartialEq, Eq, Structural)]
pub struct PendingFrame {
    pub session: u64,
    pub sequence: u64,
    pub length: usize,
}

/// The pending frame, when it belongs to the current session.
pub open spec fn spec_kept_frame(pending: Option<PendingFrame>, current_session: u64) -> Option<PendingFrame> {
    match pending {
        Some(p) => if p.session == current_session { Some(p) } else { None },
        None => None,
    }
}

/// The pending frame that the next delivery hands out, when it belongs to
/// the current session; `None` when a frame must be taken from the session.
pub fn kept_frame(pending: Option<PendingFrame>, current_session: u64) -> (r: Option<PendingFrame>)
    ensures
        r == spec_kept_frame(pending, current_session),
{
    match pending {
        Some(p) => if p.session == current_session { Some(p) } else { None },
        None => None,
    }
}

/// One delivery into a caller's buffer of `capacity` bytes. A pending frame
/// of another session is discarded; the kept frame, else the `fresh` one just
/// taken from the session, is delivered when it fits, and the slot empties;
/// when it does not fit it stays pending, so that the caller can grow its
/// buffer and ask again without losing it. Returns the new slot and the
/// outcome; `InvalidState` for a buffer too small or no frame at all.
pub fn next_frame_step(
    pending: Option<PendingFrame>,
    current_session: u64,
    capacity: usize,
    fresh: Option<PendingFrame>,
) -> (r: (Option<PendingFrame>, CameraResult<PendingFrame>))
    ensures
        ({
            let frame = if spec_kept_frame(pending, current_session) is Some {
                spec_kept_frame(pending, current_session)
            } else {
                fresh
            };
            match frame {
                None => r.0 is None && (r.1 matches Err(e) && e is InvalidState),
                Some(f) => if capacity < f.length {
                    r.0 == Some(f) && (r.1 matches Err(e) && e is InvalidState)
                } else {
                    r.0 is None && (r.1 matches Ok(g) && g == f)
                },
            }
        }),
{
    let frame = match kept_frame(pending, current_session) {
        Some(p) => Some(p),
        None => fresh,
    };
    match frame {
        None => (None, Err(CameraError::InvalidState(String::from_str("No frame is available")))),
        Some(f) => if capacity < f.length {
            (Some(f), Err(CameraError::InvalidState(String::from_str("Direct buffer is too small for the frame"))))
        } else {
            (None, Ok(f))
        },
    }
}


/// Every spelling of a capture format is accepted whatever its ASCII case
/// and surrounding white space: "mjpeg" and "mjpg" name MJPEG, "yuyv" and
/// "yuy2" YUYV, "uyvy" UYVY, "nv12" NV12, "rgb" and "rgb8" RGB, "h264"
/// H.264, "gray" and "gray8" gray; any other name is refused.
pub proof fn lemma_capture_format_spellings(name: Seq<char>)
    ensures
        ({
            let n = spec_lower_seq(spec_trim(name));
            let parsed = spec_format_by_name(n);
            &&& (n == "mjpeg"@ || n == "mjpg"@) ==> parsed == Some(CaptureFormat::Mjpeg)
            &&& (n == "yuyv"@ || n == "yuy2"@) ==> parsed == Some(CaptureFormat::Yuyv)
            &&& n == "uyvy"@ ==> parsed == Some(CaptureFormat::Uyvy)
            &&& n == "nv12"@ ==> parsed == Some(CaptureFormat::Nv12)
            &&& (n == "rgb"@ || n == "rgb8"@) ==> parsed == Some(CaptureFormat::Rgb8)
            &&& n == "h264"@ ==> parsed == Some(CaptureFormat::H264)
            &&& (n == "gray"@ || n == "gray8"@) ==> parsed == Some(CaptureFormat::Gray8)
            &&& !(n == "mjpeg"@ || n == "mjpg"@ || n == "yuyv"@ || n == "yuy2"@ || n == "uyvy"@ || n == "nv12"@
                || n == "rgb"@ || n == "rgb8"@ || n == "h264"@ || n == "gray"@ || n == "gray8"@) ==> parsed is None
        }),
{
    reveal_strlit("mjpeg");
    reveal_strlit("mjpg");
    reveal_strlit("yuyv");
    reveal_strlit("yuy2");
    reveal_strlit("uyvy");
    reveal_strlit("nv12");
    reveal_strlit("rgb");
    reveal_strlit("rgb8");
    reveal_strlit("h264");
    reveal_strlit("gray");
    reveal_strlit("gray8");
    assert("mjpeg"@ =~= seq!['m', 'j', 'p', 'e', 'g']);
    assert("mjpg"@ =~= seq!['m', 'j', 'p', 'g']);
    assert("yuyv"@ =~= seq!['y', 'u', 'y', 'v']);
    assert("yuy2"@ =~= seq!['y', 'u', 'y', '2']);
    assert("uyvy"@ =~= seq!['u', 'y', 'v', 'y']);
    assert("nv12"@ =~= seq!['n', 'v', '1', '2']);
    assert("rgb"@ =~= seq!['r', 'g', 'b']);
    assert("rgb8"@ =~= seq!['r', 'g', 'b', '8']);
    assert("h264"@ =~= seq!['h', '2', '6', '4']);
    assert("gray"@ =~= seq!['g', 'r', 'a', 'y']);
    assert("gray8"@ =~= seq!['g', 'r', 'a', 'y', '8']);
}


/// A backend name is read whatever its ASCII case: "camera2", "uvc" and
/// "v4l2" name those backends, "auto" the platform default; any other name
/// is refused.
pub proof fn lemma_backend_spellings(name: Seq<char>)
    ensures
        ({
            let n = spec_lower_seq(name);
            let parsed = spec_backend_by_name(n);
            &&& n == "camera2"@ ==> parsed == Some(Some(BackendId::Camera2))
            &&& n == "uvc"@ ==> parsed == Some(Some(BackendId::Uvc))
            &&& n == "v4l2"@ ==> parsed == Some(Some(BackendId::V4l2))
            &&& n == "auto"@ ==> parsed == Some(None::<BackendId>)
            &&& !(n == "camera2"@ || n == "uvc"@ || n == "v4l2"@ || n == "auto"@) ==> parsed is None
        }),
{
    reveal_strlit("camera2");
    reveal_strlit("uvc");
    reveal_strlit("v4l2");
    reveal_strlit("auto");
    assert("camera2"@ =~= seq!['c', 'a', 'm', 'e', 'r', 'a', '2']);
    assert("uvc"@ =~= seq!['u', 'v', 'c']);
    assert("v4l2"@ =~= seq!['v', '4', 'l', '2']);
    assert("auto"@ =~= seq!['a', 'u', 't', 'o']);
}

/// Each RGB pixel becomes the little-endian 32-bit word
/// `0xff << 24 | r << 16 | g << 8 | b`: opaque alpha over the pixel's own
/// red, green and blue.
pub proof fn lemma_argb_words(rgb: Seq<u8>, p: int)
    requires
        0 <= p,
        3 * p + 2 < rgb.len(),
    ensures
        spec_argb_byte(rgb, 4 * p) + 256 * spec_argb_byte(rgb, 4 * p + 1) + 65536 * spec_argb_byte(rgb, 4 * p + 2)
            + 16777216 * spec_argb_byte(rgb, 4 * p + 3)
            == 0xff * 16777216 + rgb[3 * p] * 65536 + rgb[3 * p + 1] * 256 + rgb[3 * p + 2],
{
    vstd::arithmetic::div_mod::lemma_fundamental_div_mod_converse(4 * p, 4, p, 0);
    vstd::arithmetic::div_mod::lemma_fundamental_div_mod_converse(4 * p + 1, 4, p, 1);
    vstd::arithmetic::div_mod::lemma_fundamental_div_mod_converse(4 * p + 2, 4, p, 2);
    vstd::arithmetic::div_mod::lemma_fundamental_div_mod_converse(4 * p + 3, 4, p, 3);
}

} // verus!
