//! Capture intent and the ranking of driver configurations against it.
use vstd::prelude::*;
use crate::error::{CameraError, CameraResult};
use crate::format::{spec_video_format, CaptureFormat, VideoFormat};
use crate::rate::{CameraConfig, FrameRate};

verus! {

/// What a capture should optimize when several modes satisfy a request.
#[derive(Clone, Copy, Debug, PartialEq, Eq, Structural, Hash)]
pub enum NegotiationPriority {
    /// Uncompressed formats first.
    LowLatency,
    /// Formats that are cheapest to turn into RGB first.
    LowCpu,
    /// Compressed formats first.
    LowBandwidth,
    /// No format cost: preference, resolution and frame rate decide.
    Fidelity,
}

/// Built-in capture intents.
#[derive(Clone, Copy, Debug, PartialEq, Eq, Structural, Hash)]
pub enum CaptureProfile {
    /// 1280x720, low latency.
    Preview,
    /// 1280x720, low CPU.
    Recognition,
    /// 1920x1080, fidelity.
    Recording,
    /// 1280x720, low bandwidth, MJPEG or H.264.
    NativeRelay,
}

/// Hard constraints and preferences for a capture.
#[derive(Clone, Debug)]
pub struct CaptureRequest {
    pub width: u32,
    pub height: u32,
    pub preferred_fps: FrameRate,
    /// Accepted formats in order of preference; empty accepts every format.
    pub preferred_formats: Vec<CaptureFormat>,
    /// Slowest acceptable frame rate.
    pub minimum_fps: Option<FrameRate>,
    /// Only `width` x `height` is acceptable.
    pub exact_resolution: bool,
    /// Only modes with this width:height ratio are acceptable.
    pub required_aspect_ratio: Option<(u32, u32)>,
    pub priority: NegotiationPriority,
}

/// A request is valid when it asks for a non-empty image and any required
/// aspect ratio has positive terms.
pub open spec fn spec_request_valid(r: CaptureRequest) -> bool {
    &&& r.width > 0 && r.height > 0
    &&& r.required_aspect_ratio matches Some((w, h)) ==> w > 0 && h > 0
}

/// The default request: 640x480 preferred at 30 frames per second, any
/// format, no minimum rate, no exact resolution or aspect ratio, low latency.
pub open spec fn spec_is_default_request(r: CaptureRequest) -> bool {
    &&& r.width == 640 && r.height == 480
    &&& r.preferred_fps.num() == 30 && r.preferred_fps.den() == 1
    &&& r.preferred_formats@.len() == 0
    &&& r.minimum_fps is None
    &&& !r.exact_resolution
    &&& r.required_aspect_ratio is None
    &&& r.priority == NegotiationPriority::LowLatency
}

impl CaptureRequest {
    /// A builder that starts from the default request.
    pub fn builder() -> (b: CaptureRequestBuilder)
        ensures
            spec_is_default_request(b.request),
    {
        CaptureRequestBuilder {
            request: CaptureRequest {
                width: 640,
                height: 480,
                preferred_fps: FrameRate::thirty(),
                preferred_formats: Vec::new(),
                minimum_fps: None,
                exact_resolution: false,
                required_aspect_ratio: None,
                priority: NegotiationPriority::LowLatency,
            },
        }
    }

    /// Rejects an empty image and an aspect ratio with a zero term.
    pub fn validate(&self) -> (r: CameraResult<()>)
        ensures
            r is Ok <==> spec_request_valid(*self),
            r matches Err(e) ==> e is InvalidConfig,
    {
        if self.width == 0 || self.height == 0 {
            return Err(CameraError::InvalidConfig(String::from_str("Requested resolution must be non-zero")));
        }
        match self.required_aspect_ratio {
            Some((w, h)) => if w == 0 || h == 0 {
                return Err(CameraError::InvalidConfig(String::from_str("Aspect ratio terms must be positive")));
            },
            None => {},
        }
        Ok(())
    }
}

/// Builds a capture request.
#[derive(Clone, Debug)]
pub struct CaptureRequestBuilder {
    pub request: CaptureRequest,
}

impl CaptureRequestBuilder {
    /// Prefers `width` x `height`.
    pub fn preferred_resolution(self, width: u32, height: u32) -> (b: CaptureRequestBuilder)
        ensures
            b.request == (CaptureRequest { width, height, exact_resolution: false, ..self.request }),
    {
        let mut request = self.request;
        request.width = width;
        request.height = height;
        request.exact_resolution = false;
        CaptureRequestBuilder { request }
    }

    /// Accepts only `width` x `height`.
    pub fn exact_resolution(self, width: u32, height: u32) -> (b: CaptureRequestBuilder)
        ensures
            b.request == (CaptureRequest { width, height, exact_resolution: true, ..self.request }),
    {
        let mut request = self.request;
        request.width = width;
        request.height = height;
        request.exact_resolution = true;
        CaptureRequestBuilder { request }
    }

    /// Prefers `rate`.
    pub fn preferred_frame_rate(self, rate: FrameRate) -> (b: CaptureRequestBuilder)
        ensures
            b.request == (CaptureRequest { preferred_fps: rate, ..self.request }),
    {
        let mut request = self.request;
        request.preferred_fps = rate;
        CaptureRequestBuilder { request }
    }

    /// Accepts only rates of at least `rate`.
    pub fn minimum_frame_rate(self, rate: FrameRate) -> (b: CaptureRequestBuilder)
        ensures
            b.request == (CaptureRequest { minimum_fps: Some(rate), ..self.request }),
    {
        let mut request = self.request;
        request.minimum_fps = Some(rate);
        CaptureRequestBuilder { request }
    }

    /// Accepts only these formats, the first most preferred.
    pub fn preferred_formats(self, formats: Vec<CaptureFormat>) -> (b: CaptureRequestBuilder)
        ensures
            b.request == (CaptureRequest { preferred_formats: formats, ..self.request }),
    {
        let mut request = self.request;
        request.preferred_formats = formats;
        CaptureRequestBuilder { request }
    }

    /// Accepts only modes with this width:height ratio.
    pub fn aspect_ratio(self, width: u32, height: u32) -> (b: CaptureRequestBuilder)
        ensures
            b.request == (CaptureRequest { required_aspect_ratio: Some((width, height)), ..self.request }),
    {
        let mut request = self.request;
        request.required_aspect_ratio = Some((width, height));
        CaptureRequestBuilder { request }
    }

    /// Optimizes for `priority`.
    pub fn priority(self, priority: NegotiationPriority) -> (b: CaptureRequestBuilder)
        ensures
            b.request == (CaptureRequest { priority, ..self.request }),
    {
        let mut request = self.request;
        request.priority = priority;
        CaptureRequestBuilder { request }
    }

    /// The request, when it is valid.
    pub fn build(self) -> (r: CameraResult<CaptureRequest>)
        ensures
            match r {
                Ok(request) => spec_request_valid(self.request) && request == self.request,
                Err(e) => !spec_request_valid(self.request) && e is InvalidConfig,
            },
    {
        match self.request.validate() {
            Ok(_) => Ok(self.request),
            Err(e) => Err(e),
        }
    }
}

/// Position of `f` in the request's preferences; their count when absent.
pub open spec fn spec_preference_from(prefs: Seq<CaptureFormat>, f: VideoFormat, i: int) -> int
    decreases prefs.len() - i,
{
    if i >= prefs.len() {
        prefs.len() as int
    } else if spec_video_format(prefs[i]) == f {
        i
    } else {
        spec_preference_from(prefs, f, i + 1)
    }
}

pub open spec fn spec_preference(prefs: Seq<CaptureFormat>, f: VideoFormat) -> int {
    spec_preference_from(prefs, f, 0)
}

/// Cost of a format under a priority.
pub open spec fn spec_format_cost(p: NegotiationPriority, f: VideoFormat) -> int {
    match p {
        NegotiationPriority::LowCpu => match f {
            VideoFormat::RGB | VideoFormat::NV12 | VideoFormat::YUYV | VideoFormat::UYVY => 0,
            VideoFormat::Gray => 1,
            VideoFormat::MJPEG => 2,
            VideoFormat::H264 => 3,
        },
        NegotiationPriority::LowBandwidth => match f {
            VideoFormat::H264 => 0,
            VideoFormat::MJPEG => 1,
            VideoFormat::NV12 | VideoFormat::Gray => 2,
            _ => 3,
        },
        NegotiationPriority::LowLatency => match f {
            VideoFormat::NV12 | VideoFormat::YUYV | VideoFormat::UYVY | VideoFormat::RGB => 0,
            VideoFormat::Gray => 1,
            _ => 2,
        },
        NegotiationPriority::Fidelity => 0,
    }
}

pub open spec fn spec_abs(x: int) -> int {
    if x < 0 { -x } else { x }
}

/// Distance between a mode's resolution and the requested one.
pub open spec fn spec_resolution_delta(c: CameraConfig, r: CaptureRequest) -> int {
    spec_abs(c.width - r.width) + spec_abs(c.height - r.height)
}

/// Distance between a mode's frame rate and the preferred one, in millionths
/// of a frame per second, rounded down.
pub open spec fn spec_rate_delta(c: CameraConfig, r: CaptureRequest) -> int {
    spec_abs(c.fps * r.preferred_fps.den() - r.preferred_fps.num() * c.fps_denominator) * 1_000_000
        / (c.fps_denominator * r.preferred_fps.den())
}

/// Sort key of a mode: preference, format cost, resolution distance, frame
/// rate distance.
pub open spec fn spec_rank_key(c: CameraConfig, r: CaptureRequest) -> (int, int, int, int) {
    (
        spec_preference(r.preferred_formats@, c.format),
        spec_format_cost(r.priority, c.format),
        spec_resolution_delta(c, r),
        spec_rate_delta(c, r),
    )
}

pub open spec fn spec_key_le(a: (int, int, int, int), b: (int, int, int, int)) -> bool {
    ||| a.0 < b.0
    ||| a.0 == b.0 && a.1 < b.1
    ||| a.0 == b.0 && a.1 == b.1 && a.2 < b.2
    ||| a.0 == b.0 && a.1 == b.1 && a.2 == b.2 && a.3 <= b.3
}

/// A mode satisfies the request's hard constraints: a valid mode, an
/// accepted format, at least the minimum rate, the exact resolution when
/// required, and the required aspect ratio.
pub open spec fn spec_satisfies(c: CameraConfig, r: CaptureRequest) -> bool {
    &&& c.spec_valid()
    &&& (r.preferred_formats@.len() == 0 || exists|i: int| 0 <= i < r.preferred_formats@.len()
        && spec_video_format(#[trigger] r.preferred_formats@[i]) == c.format)
    &&& (r.minimum_fps matches Some(m) ==> c.fps * m.den() >= m.num() * c.fps_denominator)
    &&& (r.exact_resolution ==> c.width == r.width && c.height == r.height)
    &&& (r.required_aspect_ratio matches Some((aw, ah)) ==> c.width * ah == c.height * aw)
}

/// Stable insertion of `x` into `s`: after every element whose key is not
/// greater.
pub open spec fn spec_insert(s: Seq<CameraConfig>, x: CameraConfig, r: CaptureRequest) -> Seq<CameraConfig>
    decreases s.len(),
{
    if s.len() == 0 {
        seq![x]
    } else if spec_key_le(spec_rank_key(s.last(), r), spec_rank_key(x, r)) {
        s.push(x)
    } else {
        spec_insert(s.drop_last(), x, r).push(s.last())
    }
}

/// Stable sort by rank key.
pub open spec fn spec_sort(s: Seq<CameraConfig>, r: CaptureRequest) -> Seq<CameraConfig>
    decreases s.len(),
{
    if s.len() == 0 {
        s
    } else {
        spec_insert(spec_sort(s.drop_last(), r), s.last(), r)
    }
}

/// `s` without consecutive repeats.
pub open spec fn spec_dedup(s: Seq<CameraConfig>) -> Seq<CameraConfig>
    decreases s.len(),
{
    if s.len() == 0 {
        s
    } else {
        let d = spec_dedup(s.drop_last());
        if d.len() > 0 && d.last() == s.last() {
            d
        } else {
            d.push(s.last())
        }
    }
}

/// The ranked modes: those that satisfy the request, stably sorted by rank
/// key, without consecutive repeats.
pub open spec fn spec_ranked(s: Seq<CameraConfig>, r: CaptureRequest) -> Seq<CameraConfig> {
    spec_dedup(spec_sort(s.filter(|c: CameraConfig| spec_satisfies(c, r)), r))
}

fn preference(prefs: &Vec<CaptureFormat>, f: VideoFormat) -> (p: usize)
    ensures
        p == spec_preference(prefs@, f),
{
    let mut i: usize = 0;
    while i < prefs.len()
        invariant
            i <= prefs@.len(),
            forall|j: int| 0 <= j < i ==> spec_video_format(#[trigger] prefs@[j]) != f,
            spec_preference(prefs@, f) == spec_preference_from(prefs@, f, i as int),
        decreases prefs@.len() - i,
    {
        if prefs[i].to_video_format() == f {
            return i;
        }
        i = i + 1;
    }
    prefs.len()
}

fn format_cost(p: NegotiationPriority, f: VideoFormat) -> (c: u8)
    ensures
        c == spec_format_cost(p, f),
{
    match p {
        NegotiationPriority::LowCpu => match f {
            VideoFormat::RGB | VideoFormat::NV12 | VideoFormat::YUYV | VideoFormat::UYVY => 0,
            VideoFormat::Gray => 1,
            VideoFormat::MJPEG => 2,
            VideoFormat::H264 => 3,
        },
        NegotiationPriority::LowBandwidth => match f {
            VideoFormat::H264 => 0,
            VideoFormat::MJPEG => 1,
            VideoFormat::NV12 | VideoFormat::Gray => 2,
            _ => 3,
        },
        NegotiationPriority::LowLatency => match f {
            VideoFormat::NV12 | VideoFormat::YUYV | VideoFormat::UYVY | VideoFormat::RGB => 0,
            VideoFormat::Gray => 1,
            _ => 2,
        },
        NegotiationPriority::Fidelity => 0,
    }
}

fn abs_diff_u32(a: u32, b: u32) -> (d: u64)
    ensures
        d == spec_abs(a - b),
{
    if a >= b { (a - b) as u64 } else { (b - a) as u64 }
}

/// Rank key of a valid mode against a request whose preferred rate is well
/// formed.
fn rank_key(c: &CameraConfig, r: &CaptureRequest) -> (k: (usize, u8, u64, u128))
    requires
        c.spec_valid(),
        r.preferred_fps.wf(),
    ensures
        (k.0 as int, k.1 as int, k.2 as int, k.3 as int) == spec_rank_key(*c, *r),
{
    let num = r.preferred_fps.numerator();
    let den = r.preferred_fps.denominator();
    proof {
        crate::rate::lemma_u32_product(c.fps, den);
        crate::rate::lemma_u32_product(num, c.fps_denominator);
        crate::rate::lemma_u32_product(c.fps_denominator, den);
    }
    let a: u128 = (c.fps as u64 * den as u64) as u128;
    let b: u128 = (num as u64 * c.fps_denominator as u64) as u128;
    let diff: u128 = if a >= b { a - b } else { b - a };
    let scale: u128 = (c.fps_denominator as u64 * den as u64) as u128;
    proof {
        assert(diff * 1_000_000 <= 0x1_0000_0000_0000_0000u128 * 1_000_000) by (nonlinear_arith)
            requires
                diff < 0x1_0000_0000_0000_0000u128,
        ;
        assert(scale > 0) by (nonlinear_arith)
            requires
                scale == c.fps_denominator * den,
                c.fps_denominator > 0,
                den > 0,
        ;
    }
    let rate_delta = diff * 1_000_000 / scale;
    (
        preference(&r.preferred_formats, c.format),
        format_cost(r.priority, c.format),
        abs_diff_u32(c.width, r.width) + abs_diff_u32(c.height, r.height),
        rate_delta,
    )
}

fn key_le(a: (usize, u8, u64, u128), b: (usize, u8, u64, u128)) -> (r: bool)
    ensures
        r == spec_key_le((a.0 as int, a.1 as int, a.2 as int, a.3 as int), (b.0 as int, b.1 as int, b.2 as int, b.3 as int)),
{
    a.0 < b.0 || (a.0 == b.0 && a.1 < b.1) || (a.0 == b.0 && a.1 == b.1 && a.2 < b.2) || (a.0 == b.0
        && a.1 == b.1 && a.2 == b.2 && a.3 <= b.3)
}

fn satisfies(c: &CameraConfig, r: &CaptureRequest) -> (b: bool)
    ensures
        b == spec_satisfies(*c, *r),
{
    if c.validate().is_err() {
        return false;
    }
    if r.preferred_formats.len() > 0 {
        let mut found = false;
        let mut i: usize = 0;
        while i < r.preferred_formats.len()
            invariant
                i <= r.preferred_formats@.len(),
                found == exists|j: int| 0 <= j < i && spec_video_format(#[trigger] r.preferred_formats@[j]) == c.format,
            decreases r.preferred_formats@.len() - i,
        {
            if r.preferred_formats[i].to_video_format() == c.format {
                found = true;
            }
            i = i + 1;
        }
        if !found {
            return false;
        }
    }
    match &r.minimum_fps {
        Some(m) => {
            let mn = m.numerator();
            let md = m.denominator();
            proof {
                crate::rate::lemma_u32_product(c.fps, md);
                crate::rate::lemma_u32_product(mn, c.fps_denominator);
            }
            if (c.fps as u64) * (md as u64) < (mn as u64) * (c.fps_denominator as u64) {
                return false;
            }
        },
        None => {},
    }
    if r.exact_resolution && (c.width != r.width || c.height != r.height) {
        return false;
    }
    match r.required_aspect_ratio {
        Some((aw, ah)) => {
            proof {
                crate::rate::lemma_u32_product(c.width, ah);
                crate::rate::lemma_u32_product(c.height, aw);
            }
            (c.width as u64) * (ah as u64) == (c.height as u64) * (aw as u64)
        },
        None => true,
    }
}

proof fn lemma_insert_at(s: Seq<CameraConfig>, x: CameraConfig, r: CaptureRequest, j: int)
    requires
        0 <= j <= s.len(),
        j == 0 || spec_key_le(spec_rank_key(s[j - 1], r), spec_rank_key(x, r)),
        forall|i: int| j <= i < s.len() ==> !spec_key_le(spec_rank_key(#[trigger] s[i], r), spec_rank_key(x, r)),
    ensures
        spec_insert(s, x, r) == s.insert(j, x),
    decreases s.len(),
{
    if s.len() == 0 {
        assert(s.insert(0, x) =~= seq![x]);
    } else if j == s.len() {
        assert(s.insert(j, x) =~= s.push(x));
    } else {
        assert(!spec_key_le(spec_rank_key(s[s.len() - 1], r), spec_rank_key(x, r)));
        let t = s.drop_last();
        assert forall|i: int| j <= i < t.len() implies !spec_key_le(spec_rank_key(#[trigger] t[i], r), spec_rank_key(x, r)) by {
            assert(t[i] == s[i]);
        }
        lemma_insert_at(t, x, r, j);
        assert(t.insert(j, x).push(s.last()) =~= s.insert(j, x));
    }
}

/// Keeps the modes that satisfy `request`, stably sorts them by preference,
/// format cost, resolution distance and frame-rate distance, and drops
/// consecutive repeats. Fails with `UnsupportedFormat` when no mode is left.
pub fn rank_capture_configurations(request: &CaptureRequest, configurations: &mut Vec<CameraConfig>) -> (r: CameraResult<()>)
    requires
        request.preferred_fps.wf(),
    ensures
        final(configurations)@ == spec_ranked(old(configurations)@, *request),
        r is Ok <==> final(configurations)@.len() > 0,
        r matches Err(e) ==> e is UnsupportedFormat,
{
    let ghost input = configurations@;
    let ghost keep = |c: CameraConfig| spec_satisfies(c, *request);
    let mut kept: Vec<CameraConfig> = Vec::new();
    let mut i: usize = 0;
    while i < configurations.len()
        invariant
            i <= configurations@.len(),
            configurations@ == input,
            keep == (|c: CameraConfig| spec_satisfies(c, *request)),
            kept@ == input.subrange(0, i as int).filter(keep),
        decreases configurations@.len() - i,
    {
        let c = configurations[i];
        proof {
            assert(input.subrange(0, i as int + 1).drop_last() =~= input.subrange(0, i as int));
            reveal_with_fuel(Seq::<_>::filter, 1);
        }
        if satisfies(&c, request) {
            kept.push(c);
        }
        i = i + 1;
    }
    proof {
        assert(input.subrange(0, input.len() as int) =~= input);
        assert forall|k: int| 0 <= k < kept@.len() implies spec_satisfies(#[trigger] kept@[k], *request) by {
            input.lemma_filter_pred(keep, k);
        }
    }
    let mut sorted: Vec<CameraConfig> = Vec::new();
    let mut n: usize = 0;
    while n < kept.len()
        invariant
            n <= kept@.len(),
            request.preferred_fps.wf(),
            forall|k: int| 0 <= k < kept@.len() ==> spec_satisfies(#[trigger] kept@[k], *request),
            sorted@ == spec_sort(kept@.subrange(0, n as int), *request),
            forall|k: int| 0 <= k < sorted@.len() ==> (#[trigger] sorted@[k]).spec_valid(),
        decreases kept@.len() - n,
    {
        let x = kept[n];
        let kx = rank_key(&x, request);
        let mut j: usize = sorted.len();
        while j > 0 && !key_le(rank_key(&sorted[j - 1], request), kx)
            invariant
                j <= sorted@.len(),
                request.preferred_fps.wf(),
                x.spec_valid(),
                (kx.0 as int, kx.1 as int, kx.2 as int, kx.3 as int) == spec_rank_key(x, *request),
                forall|k: int| 0 <= k < sorted@.len() ==> (#[trigger] sorted@[k]).spec_valid(),
                forall|i: int| j <= i < sorted@.len() ==> !spec_key_le(spec_rank_key(#[trigger] sorted@[i], *request), spec_rank_key(x, *request)),
            decreases j,
        {
            j = j - 1;
        }
        proof {
            lemma_insert_at(sorted@, x, *request, j as int);
            let pre = kept@.subrange(0, n as int + 1);
            assert(pre.drop_last() =~= kept@.subrange(0, n as int));
        }
        let ghost before = sorted@;
        sorted.insert(j, x);
        proof {
            assert forall|k: int| 0 <= k < sorted@.len() implies (#[trigger] sorted@[k]).spec_valid() by {
                if k < j {
                    assert(sorted@[k] == before[k]);
                } else if k > j {
                    assert(sorted@[k] == before[k - 1]);
                }
            }
        }
        n = n + 1;
    }
    proof {
        assert(kept@.subrange(0, kept@.len() as int) =~= kept@);
    }
    let mut out: Vec<CameraConfig> = Vec::new();
    let mut m: usize = 0;
    while m < sorted.len()
        invariant
            m <= sorted@.len(),
            out@ == spec_dedup(sorted@.subrange(0, m as int)),
        decreases sorted@.len() - m,
    {
        let c = sorted[m];
        proof {
            let pre = sorted@.subrange(0, m as int + 1);
            assert(pre.drop_last() =~= sorted@.subrange(0, m as int));
        }
        if out.len() == 0 || out[out.len() - 1] != c {
            out.push(c);
        }
        m = m + 1;
    }
    proof {
        assert(sorted@.subrange(0, sorted@.len() as int) =~= sorted@);
    }
    *configurations = out;
    if configurations.len() == 0 {
        return Err(CameraError::UnsupportedFormat(String::from_str("No capture mode satisfies the required constraints")));
    }
    Ok(())
}

/// Modes ordered by rank key.
pub open spec fn spec_sorted_by_key(s: Seq<CameraConfig>, r: CaptureRequest) -> bool {
    forall|i: int, j: int| 0 <= i < j < s.len() ==> spec_key_le(spec_rank_key(#[trigger] s[i], r), spec_rank_key(#[trigger] s[j], r))
}

proof fn lemma_key_le_order(a: (int, int, int, int), b: (int, int, int, int), c: (int, int, int, int))
    ensures
        spec_key_le(a, b) || spec_key_le(b, a),
        spec_key_le(a, b) && spec_key_le(b, c) ==> spec_key_le(a, c),
{
}

proof fn lemma_insert_sorted(s: Seq<CameraConfig>, x: CameraConfig, r: CaptureRequest)
    requires
        spec_sorted_by_key(s, r),
    ensures
        spec_sorted_by_key(spec_insert(s, x, r), r),
        forall|c: CameraConfig| #![trigger spec_insert(s, x, r).contains(c)] #![trigger s.contains(c)]
            spec_insert(s, x, r).contains(c) <==> (s.contains(c) || c == x),
        spec_insert(s, x, r).len() == s.len() + 1,
    decreases s.len(),
{
    let ins = spec_insert(s, x, r);
    if s.len() == 0 {
        assert forall|c: CameraConfig| ins.contains(c) <==> (s.contains(c) || c == x) by {
            if ins.contains(c) {
                assert(ins[0] == x);
            }
            if c == x {
                assert(ins[0] == c);
            }
        }
    } else if spec_key_le(spec_rank_key(s.last(), r), spec_rank_key(x, r)) {
        assert forall|i: int, j: int| 0 <= i < j < ins.len() implies spec_key_le(spec_rank_key(#[trigger] ins[i], r), spec_rank_key(#[trigger] ins[j], r)) by {
            if j == s.len() {
                if i < s.len() - 1 {
                    assert(spec_key_le(spec_rank_key(s[i], r), spec_rank_key(s[s.len() - 1], r)));
                }
                lemma_key_le_order(spec_rank_key(s[i], r), spec_rank_key(s.last(), r), spec_rank_key(x, r));
            } else {
                assert(ins[i] == s[i] && ins[j] == s[j]);
            }
        }
        assert forall|c: CameraConfig| ins.contains(c) <==> (s.contains(c) || c == x) by {
            if ins.contains(c) {
                let k = choose|k: int| 0 <= k < ins.len() && ins[k] == c;
                if k < s.len() {
                    assert(s[k] == c);
                }
            }
            if s.contains(c) {
                let k = choose|k: int| 0 <= k < s.len() && s[k] == c;
                assert(ins[k] == c);
            }
            if c == x {
                assert(ins[s.len() as int] == c);
            }
        }
    } else {
        let t = s.drop_last();
        assert forall|i: int, j: int| 0 <= i < j < t.len() implies spec_key_le(spec_rank_key(#[trigger] t[i], r), spec_rank_key(#[trigger] t[j], r)) by {
            assert(t[i] == s[i] && t[j] == s[j]);
        }
        lemma_insert_sorted(t, x, r);
        let u = spec_insert(t, x, r);
        let last = s.last();
        lemma_key_le_order(spec_rank_key(last, r), spec_rank_key(x, r), spec_rank_key(x, r));
        assert forall|k: int| 0 <= k < u.len() implies spec_key_le(spec_rank_key(#[trigger] u[k], r), spec_rank_key(last, r)) by {
            assert(u.contains(u[k]));
            if u[k] != x {
                assert(t.contains(u[k]));
                let m = choose|m: int| 0 <= m < t.len() && t[m] == u[k];
                assert(s[m] == u[k]);
                assert(spec_key_le(spec_rank_key(s[m], r), spec_rank_key(s[s.len() - 1], r)));
            }
        }
        assert(ins == u.push(last));
        assert forall|i: int, j: int| 0 <= i < j < ins.len() implies spec_key_le(spec_rank_key(#[trigger] ins[i], r), spec_rank_key(#[trigger] ins[j], r)) by {
            if j == u.len() {
                assert(ins[i] == u[i]);
            } else {
                assert(ins[i] == u[i] && ins[j] == u[j]);
            }
        }
        assert forall|c: CameraConfig| ins.contains(c) <==> (s.contains(c) || c == x) by {
            if ins.contains(c) {
                let k = choose|k: int| 0 <= k < ins.len() && ins[k] == c;
                if k < u.len() {
                    assert(u[k] == c);
                    assert(u.contains(c));
                    if c != x {
                        let m = choose|m: int| 0 <= m < t.len() && t[m] == c;
                        assert(s[m] == c);
                    }
                } else {
                    assert(s[s.len() - 1] == c);
                }
            }
            if s.contains(c) {
                let k = choose|k: int| 0 <= k < s.len() && s[k] == c;
                if k < s.len() - 1 {
                    assert(t[k] == c);
                    assert(t.contains(c));
                    assert(u.contains(c));
                    let m = choose|m: int| 0 <= m < u.len() && u[m] == c;
                    assert(ins[m] == c);
                } else {
                    assert(ins[u.len() as int] == c);
                }
            }
            if c == x {
                assert(u.contains(c));
                let m = choose|m: int| 0 <= m < u.len() && u[m] == c;
                assert(ins[m] == c);
            }
        }
    }
}

proof fn lemma_sort_sorted(s: Seq<CameraConfig>, r: CaptureRequest)
    ensures
        spec_sorted_by_key(spec_sort(s, r), r),
        forall|c: CameraConfig| #![trigger spec_sort(s, r).contains(c)] #![trigger s.contains(c)]
            spec_sort(s, r).contains(c) <==> s.contains(c),
    decreases s.len(),
{
    if s.len() > 0 {
        let t = s.drop_last();
        lemma_sort_sorted(t, r);
        lemma_insert_sorted(spec_sort(t, r), s.last(), r);
        assert forall|c: CameraConfig| spec_sort(s, r).contains(c) <==> s.contains(c) by {
            if s.contains(c) {
                let k = choose|k: int| 0 <= k < s.len() && s[k] == c;
                if k < s.len() - 1 {
                    assert(t[k] == c);
                }
            }
            if t.contains(c) {
                let k = choose|k: int| 0 <= k < t.len() && t[k] == c;
                assert(s[k] == c);
            }
        }
    }
}

proof fn lemma_dedup(s: Seq<CameraConfig>, r: CaptureRequest)
    ensures
        forall|c: CameraConfig| #![trigger spec_dedup(s).contains(c)] #![trigger s.contains(c)]
            spec_dedup(s).contains(c) <==> s.contains(c),
        spec_sorted_by_key(s, r) ==> spec_sorted_by_key(spec_dedup(s), r),
        forall|i: int| 0 <= i < spec_dedup(s).len() - 1 ==> #[trigger] spec_dedup(s)[i] != spec_dedup(s)[i + 1],
        spec_dedup(s).len() > 0 ==> s.len() > 0 && spec_dedup(s).last() == s.last(),
    decreases s.len(),
{
    if s.len() > 0 {
        let t = s.drop_last();
        lemma_dedup(t, r);
        let d = spec_dedup(t);
        let last = s.last();
        if spec_sorted_by_key(s, r) {
            assert forall|i: int, j: int| 0 <= i < j < t.len() implies spec_key_le(spec_rank_key(#[trigger] t[i], r), spec_rank_key(#[trigger] t[j], r)) by {
                assert(t[i] == s[i] && t[j] == s[j]);
            }
        }
        if d.len() > 0 && d.last() == last {
            assert forall|c: CameraConfig| spec_dedup(s).contains(c) <==> s.contains(c) by {
                if s.contains(c) {
                    let k = choose|k: int| 0 <= k < s.len() && s[k] == c;
                    if k < s.len() - 1 {
                        assert(t[k] == c);
                    } else {
                        assert(d[d.len() - 1] == c);
                    }
                }
                if t.contains(c) {
                    let k = choose|k: int| 0 <= k < t.len() && t[k] == c;
                    assert(s[k] == c);
                }
            }
        } else {
            let e = d.push(last);
            assert(spec_dedup(s) == e);
            assert forall|i: int| 0 <= i < e.len() - 1 implies #[trigger] e[i] != e[i + 1] by {
                if i < d.len() - 1 {
                    assert(e[i] == d[i] && e[i + 1] == d[i + 1]);
                } else {
                    assert(e[i] == d.last());
                }
            }
            assert forall|c: CameraConfig| e.contains(c) <==> s.contains(c) by {
                if s.contains(c) {
                    let k = choose|k: int| 0 <= k < s.len() && s[k] == c;
                    if k < s.len() - 1 {
                        assert(t[k] == c);
                        assert(d.contains(c));
                        let m = choose|m: int| 0 <= m < d.len() && d[m] == c;
                        assert(e[m] == c);
                    } else {
                        assert(e[d.len() as int] == c);
                    }
                }
                if e.contains(c) {
                    let k = choose|k: int| 0 <= k < e.len() && e[k] == c;
                    if k < d.len() {
                        assert(d[k] == c);
                        assert(d.contains(c));
                        let m = choose|m: int| 0 <= m < t.len() && t[m] == c;
                        assert(s[m] == c);
                    } else {
                        assert(s[s.len() - 1] == c);
                    }
                }
            }
            if spec_sorted_by_key(s, r) {
                assert forall|i: int, j: int| 0 <= i < j < e.len() implies spec_key_le(spec_rank_key(#[trigger] e[i], r), spec_rank_key(#[trigger] e[j], r)) by {
                    if j < d.len() {
                        assert(e[i] == d[i] && e[j] == d[j]);
                    } else {
                        assert(e[i] == d[i]);
                        assert(d.contains(d[i]));
                        let m = choose|m: int| 0 <= m < t.len() && t[m] == d[i];
                        assert(s[m] == d[i]);
                        assert(spec_key_le(spec_rank_key(s[m], r), spec_rank_key(s[s.len() - 1], r)));
                    }
                }
            }
        }
    }
}

/// The ranked modes are exactly the offered modes that satisfy the request,
/// in rank-key order, with no mode repeated next to itself.
pub proof fn lemma_ranked_modes(s: Seq<CameraConfig>, r: CaptureRequest)
    ensures
        forall|c: CameraConfig| spec_ranked(s, r).contains(c) <==> (s.contains(c) && spec_satisfies(c, r)),
        spec_sorted_by_key(spec_ranked(s, r), r),
        forall|i: int| 0 <= i < spec_ranked(s, r).len() - 1 ==> #[trigger] spec_ranked(s, r)[i] != spec_ranked(s, r)[i + 1],
{
    let keep = |c: CameraConfig| spec_satisfies(c, r);
    let f = s.filter(keep);
    lemma_sort_sorted(f, r);
    lemma_dedup(spec_sort(f, r), r);
    assert forall|c: CameraConfig| f.contains(c) <==> (s.contains(c) && spec_satisfies(c, r)) by {
        if f.contains(c) {
            let k = choose|k: int| 0 <= k < f.len() && f[k] == c;
            s.lemma_filter_pred(keep, k);
            s.lemma_filter_contains_rev(keep, c);
        }
        if s.contains(c) && spec_satisfies(c, r) {
            let k = choose|k: int| 0 <= k < s.len() && s[k] == c;
            s.lemma_filter_contains(keep, k);
        }
    }
}


/// `a` is a cheaper format than `b` under `priority`. Low CPU use:
/// uncompressed formats (RGB, NV12, YUYV, UYVY) before gray, gray before
/// MJPEG, MJPEG before H.264. Low bandwidth: H.264 before MJPEG, MJPEG
/// before NV12 and gray, those before the other uncompressed formats. Low
/// latency: uncompressed formats before gray, gray before the compressed
/// ones. Fidelity: no format is cheaper than another.
pub open spec fn spec_cheaper_under(priority: NegotiationPriority, a: VideoFormat, b: VideoFormat) -> bool {
    let uncompressed = |f: VideoFormat| f == VideoFormat::RGB || f == VideoFormat::NV12 || f == VideoFormat::YUYV
        || f == VideoFormat::UYVY;
    let compressed = |f: VideoFormat| f == VideoFormat::MJPEG || f == VideoFormat::H264;
    match priority {
        NegotiationPriority::LowCpu => {
            ||| uncompressed(a) && !uncompressed(b)
            ||| a == VideoFormat::Gray && compressed(b)
            ||| a == VideoFormat::MJPEG && b == VideoFormat::H264
        },
        NegotiationPriority::LowBandwidth => {
            ||| a == VideoFormat::H264 && b != VideoFormat::H264
            ||| a == VideoFormat::MJPEG && !compressed(b)
            ||| (a == VideoFormat::NV12 || a == VideoFormat::Gray) && (b == VideoFormat::RGB || b == VideoFormat::YUYV
                || b == VideoFormat::UYVY)
        },
        NegotiationPriority::LowLatency => {
            ||| uncompressed(a) && !uncompressed(b)
            ||| a == VideoFormat::Gray && compressed(b)
        },
        NegotiationPriority::Fidelity => false,
    }
}

/// The position of a format in the preferences is that of its first
/// occurrence from `i` on, or their count when it does not occur.
proof fn lemma_preference_first(prefs: Seq<CaptureFormat>, f: VideoFormat, i: int)
    requires
        0 <= i <= prefs.len(),
    ensures
        i <= spec_preference_from(prefs, f, i) <= prefs.len(),
        spec_preference_from(prefs, f, i) < prefs.len() ==> spec_video_format(prefs[spec_preference_from(prefs, f, i)]) == f,
        forall|m: int| i <= m < spec_preference_from(prefs, f, i) ==> spec_video_format(#[trigger] prefs[m]) != f,
    decreases prefs.len() - i,
{
    if i < prefs.len() && spec_video_format(prefs[i]) != f {
        lemma_preference_first(prefs, f, i + 1);
    }
}

/// Of two ranked modes, one whose format the request prefers to the other's
/// (it occurs in the preference list before any occurrence of the other's)
/// ranks first.
pub proof fn lemma_preferred_formats_rank_first(s: Seq<CaptureFormat>, modes: Seq<CameraConfig>, r: CaptureRequest, i: int, j: int, k: int)
    requires
        s == r.preferred_formats@,
        0 <= i < spec_ranked(modes, r).len(),
        0 <= j < spec_ranked(modes, r).len(),
        0 <= k < s.len(),
        spec_video_format(s[k]) == spec_ranked(modes, r)[i].format,
        forall|m: int| 0 <= m <= k ==> spec_video_format(#[trigger] s[m]) != spec_ranked(modes, r)[j].format,
    ensures
        i < j,
{
    lemma_ranked_modes(modes, r);
    let t = spec_ranked(modes, r);
    lemma_preference_first(s, t[i].format, 0);
    lemma_preference_first(s, t[j].format, 0);
    let pa = spec_preference(s, t[i].format);
    let pb = spec_preference(s, t[j].format);
    assert(pa <= k) by {
        if pa > k {
            assert(spec_video_format(s[k]) != t[i].format);
        }
    }
    assert(pb > k) by {
        if pb <= k && pb < s.len() {
            assert(spec_video_format(s[pb]) == t[j].format);
        }
    }
    if j <= i {
        if j < i {
            assert(spec_key_le(spec_rank_key(t[j], r), spec_rank_key(t[i], r)));
        }
    }
}

/// Of two ranked modes that are equally preferred and equally far from the
/// requested resolution and rate, the one whose format is cheaper under the
/// request's priority ranks first.
pub proof fn lemma_cheaper_formats_rank_first(s: Seq<CameraConfig>, r: CaptureRequest, i: int, j: int)
    requires
        0 <= i < spec_ranked(s, r).len(),
        0 <= j < spec_ranked(s, r).len(),
        spec_cheaper_under(r.priority, spec_ranked(s, r)[i].format, spec_ranked(s, r)[j].format),
        spec_preference(r.preferred_formats@, spec_ranked(s, r)[i].format)
            == spec_preference(r.preferred_formats@, spec_ranked(s, r)[j].format),
        spec_resolution_delta(spec_ranked(s, r)[i], r) == spec_resolution_delta(spec_ranked(s, r)[j], r),
        spec_rate_delta(spec_ranked(s, r)[i], r) == spec_rate_delta(spec_ranked(s, r)[j], r),
    ensures
        i < j,
{
    lemma_ranked_modes(s, r);
    let t = spec_ranked(s, r);
    if j < i {
        assert(spec_key_le(spec_rank_key(t[j], r), spec_rank_key(t[i], r)));
    }
    if i == j {
        assert(t[i].format == t[j].format);
    }
}

/// Of two ranked modes of the same format, the one whose width and height
/// are closer in total to the requested ones ranks first.
pub proof fn lemma_closer_resolutions_rank_first(s: Seq<CameraConfig>, r: CaptureRequest, i: int, j: int)
    requires
        0 <= i < spec_ranked(s, r).len(),
        0 <= j < spec_ranked(s, r).len(),
        spec_ranked(s, r)[i].format == spec_ranked(s, r)[j].format,
        ({
            let a = spec_ranked(s, r)[i];
            let b = spec_ranked(s, r)[j];
            let da = (if a.width >= r.width { a.width - r.width } else { r.width - a.width })
                + (if a.height >= r.height { a.height - r.height } else { r.height - a.height });
            let db = (if b.width >= r.width { b.width - r.width } else { r.width - b.width })
                + (if b.height >= r.height { b.height - r.height } else { r.height - b.height });
            da < db
        }),
    ensures
        i < j,
{
    lemma_ranked_modes(s, r);
    let t = spec_ranked(s, r);
    if j < i {
        assert(spec_key_le(spec_rank_key(t[j], r), spec_rank_key(t[i], r)));
    }
}

} // verus!
