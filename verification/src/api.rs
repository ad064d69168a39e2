//! Backend policy, the camera system and its builder.
use vstd::prelude::*;
use crate::backends::{
    backend_type, resolve_backend, spec_backend_id, spec_backend_type, spec_concrete_available,
    spec_concrete_compiled, spec_concrete_supports, spec_default_backend, spec_resolve, BackendType,
};
use crate::device::{
    device_info, device_info_synthetic, spec_is_synthetic_device, spec_presents, CameraDeviceInfo,
    CameraFacing, DeviceId, DeviceInfo,
};
use crate::format::{spec_video_format, CaptureFormat, VideoFormat};
use crate::negotiation::{
    rank_capture_configurations, spec_ranked, spec_request_valid, CaptureProfile, CaptureRequest,
    NegotiationPriority,
};
use crate::rate::{CameraConfig, FrameRate};
use crate::text::{chars_of, contains, spec_contains};
use crate::error::{spec_error_device, spec_error_kind, spec_error_message, BackendAttempt, CameraError, CameraErrorKind, CameraResult};
use crate::ids::{spec_backend_at, spec_backend_rank, BackendId, BACKEND_ID_COUNT};
use crate::platform::Platform;

verus! {

/// Which backends a camera system uses.
#[derive(Clone, Debug, PartialEq, Eq)]
pub enum BackendPolicy {
    /// The platform's native backend.
    PlatformDefault,
    /// Exactly this backend; never another device namespace.
    Require(BackendId),
    /// These backends, in order of preference.
    Prefer(Vec<BackendId>),
}

/// V4L2 tuning.
#[derive(Clone, Copy, Debug, PartialEq, Eq, Structural, Default)]
pub struct V4l2Options {
    /// Number of driver (mmap) buffers to request.
    pub mmap_buffers: Option<usize>,
}

impl V4l2Options {
    /// The same options with `count` driver buffers.
    pub fn mmap_buffers(self, count: usize) -> (o: V4l2Options)
        ensures
            o.mmap_buffers == Some(count),
    {
        V4l2Options { mmap_buffers: Some(count) }
    }
}

/// Camera2 tuning.
#[derive(Clone, Copy, Debug, PartialEq, Eq, Structural, Default)]
pub struct Camera2Options {
    /// Images the reader keeps in flight.
    pub max_images: Option<u32>,
}

/// AVFoundation tuning.
#[derive(Clone, Copy, Debug, PartialEq, Eq, Structural)]
pub struct AvFoundationOptions {
    /// Discard frames that arrive while the previous one is still processed.
    pub drop_late_frames: bool,
}

/// Options addressed to one backend.
#[derive(Clone, Copy, Debug, PartialEq, Eq, Structural)]
pub enum BackendOptions {
    V4l2(V4l2Options),
    Camera2(Camera2Options),
    AvFoundation(AvFoundationOptions),
}

pub open spec fn spec_options_backend(o: BackendOptions) -> BackendId {
    match o {
        BackendOptions::V4l2(_) => BackendId::V4l2,
        BackendOptions::Camera2(_) => BackendId::Camera2,
        BackendOptions::AvFoundation(_) => BackendId::AvFoundation,
    }
}

/// Options are valid when every buffer count they set is positive.
pub open spec fn spec_options_valid(o: BackendOptions) -> bool {
    match o {
        BackendOptions::V4l2(v) => v.mmap_buffers != Some(0usize),
        BackendOptions::Camera2(c) => c.max_images != Some(0u32),
        BackendOptions::AvFoundation(_) => true,
    }
}

/// Why options are invalid.
pub open spec fn spec_invalid_options_message(o: BackendOptions) -> Seq<char> {
    match o {
        BackendOptions::V4l2(_) => "V4L2 needs at least one driver buffer"@,
        BackendOptions::Camera2(_) => "Camera2 needs at least one image in flight"@,
        BackendOptions::AvFoundation(_) => Seq::empty(),
    }
}

/// `e` is the error that validating `o` gives.
pub open spec fn spec_is_validation_error(o: BackendOptions, e: CameraError) -> bool {
    e matches CameraError::InvalidConfig(m) && m@ == spec_invalid_options_message(o)
}

impl BackendOptions {
    /// The backend these options configure.
    pub fn backend(&self) -> (b: BackendId)
        ensures
            b == spec_options_backend(*self),
    {
        match self {
            BackendOptions::V4l2(_) => BackendId::V4l2,
            BackendOptions::Camera2(_) => BackendId::Camera2,
            BackendOptions::AvFoundation(_) => BackendId::AvFoundation,
        }
    }

    /// Rejects a zero buffer count.
    pub fn validate(&self) -> (r: CameraResult<()>)
        ensures
            r is Ok <==> spec_options_valid(*self),
            r matches Err(e) ==> spec_is_validation_error(*self, e),
    {
        match self {
            BackendOptions::V4l2(v) => match v.mmap_buffers {
                Some(0) => Err(CameraError::InvalidConfig(String::from_str("V4L2 needs at least one driver buffer"))),
                _ => Ok(()),
            },
            BackendOptions::Camera2(c) => match c.max_images {
                Some(0) => Err(CameraError::InvalidConfig(String::from_str("Camera2 needs at least one image in flight"))),
                _ => Ok(()),
            },
            BackendOptions::AvFoundation(_) => Ok(()),
        }
    }
}

/// What starting a capture takes from a system's backend options.
#[derive(Clone, Copy, Debug, PartialEq, Eq, Structural)]
pub struct StartOptions {
    /// V4L2 driver queue depth.
    pub driver_buffers: Option<usize>,
    /// Camera2 tuning to apply to the opened camera.
    pub camera2: Option<Camera2Options>,
    /// AVFoundation tuning to apply to the opened camera.
    pub avfoundation: Option<AvFoundationOptions>,
}

/// The options in order, each overriding what came before.
pub open spec fn spec_apply_options(opts: Seq<BackendOptions>) -> StartOptions
    decreases opts.len(),
{
    if opts.len() == 0 {
        StartOptions { driver_buffers: None, camera2: None, avfoundation: None }
    } else {
        let before = spec_apply_options(opts.drop_last());
        match opts.last() {
            BackendOptions::V4l2(v) => StartOptions { driver_buffers: v.mmap_buffers, ..before },
            BackendOptions::Camera2(c) => StartOptions { camera2: Some(c), ..before },
            BackendOptions::AvFoundation(a) => StartOptions { avfoundation: Some(a), ..before },
        }
    }
}

/// The options that starting a capture on a camera of `backend` applies;
/// `BackendOptionMismatch` for the first options addressed to another
/// backend.
pub fn start_options(options: &Vec<BackendOptions>, backend: BackendId) -> (r: CameraResult<StartOptions>)
    ensures
        match spec_first_mismatch(options@, backend) {
            Some(i) => r matches Err(CameraError::BackendOptionMismatch { option_backend, selected_backend })
                && option_backend == spec_options_backend(options@[i]) && selected_backend == backend,
            None => r == Ok::<StartOptions, CameraError>(spec_apply_options(options@)),
        },
{
    let mut applied = StartOptions { driver_buffers: None, camera2: None, avfoundation: None };
    let mut i: usize = 0;
    while i < options.len()
        invariant
            i <= options@.len(),
            forall|j: int| 0 <= j < i ==> spec_options_backend(#[trigger] options@[j]) == backend,
            applied == spec_apply_options(options@.subrange(0, i as int)),
        decreases options@.len() - i,
    {
        let o = options[i];
        let b = o.backend();
        if b != backend {
            proof {
                lemma_first_mismatch_at(options@, backend, i as int);
            }
            return Err(CameraError::BackendOptionMismatch { option_backend: b, selected_backend: backend });
        }
        proof {
            assert(options@.subrange(0, i + 1).drop_last() =~= options@.subrange(0, i as int));
            assert(options@.subrange(0, i + 1).last() == o);
        }
        match o {
            BackendOptions::V4l2(v) => {
                applied = StartOptions { driver_buffers: v.mmap_buffers, ..applied };
            },
            BackendOptions::Camera2(c) => {
                applied = StartOptions { camera2: Some(c), ..applied };
            },
            BackendOptions::AvFoundation(a) => {
                applied = StartOptions { avfoundation: Some(a), ..applied };
            },
        }
        i = i + 1;
    }
    proof {
        lemma_no_mismatch(options@, backend);
        assert(options@.subrange(0, i as int) =~= options@);
    }
    Ok(applied)
}

/// The mode a native camera without a stable identity starts in: the first
/// preferred format, else MJPEG, at the requested size and preferred rate.
pub fn unidentified_start_configuration(request: &CaptureRequest) -> (c: CameraConfig)
    ensures
        c == (CameraConfig {
            format: if request.preferred_formats@.len() > 0 {
                spec_video_format(request.preferred_formats@[0])
            } else {
                VideoFormat::MJPEG
            },
            width: request.width,
            height: request.height,
            fps: request.preferred_fps.num() as u32,
            fps_denominator: request.preferred_fps.den() as u32,
        }),
{
    let format = if request.preferred_formats.len() > 0 {
        request.preferred_formats[0].to_video_format()
    } else {
        VideoFormat::MJPEG
    };
    CameraConfig::new(format, request.width, request.height, request.preferred_fps.numerator())
        .with_frame_rate(request.preferred_fps)
}

/// Whether a backend can be used by a camera system.
#[derive(Clone, Copy, Debug, PartialEq, Eq, Structural, Hash)]
pub enum BackendAvailability {
    Available,
    NotCompiled,
    UnsupportedTarget,
}

/// Index of the first invalid options, if any.
#[verifier::opaque]
pub open spec fn spec_first_invalid(opts: Seq<BackendOptions>) -> Option<int> {
    if exists|i: int| 0 <= i < opts.len() && !spec_options_valid(#[trigger] opts[i]) {
        Some(choose|i: int| 0 <= i < opts.len() && !spec_options_valid(#[trigger] opts[i])
            && forall|j: int| 0 <= j < i ==> spec_options_valid(#[trigger] opts[j]))
    } else {
        None
    }
}

/// Index of the first options that address a backend other than `b`.
#[verifier::opaque]
pub open spec fn spec_first_mismatch(opts: Seq<BackendOptions>, b: BackendId) -> Option<int> {
    if exists|i: int| 0 <= i < opts.len() && spec_options_backend(#[trigger] opts[i]) != b {
        Some(choose|i: int| 0 <= i < opts.len() && spec_options_backend(#[trigger] opts[i]) != b
            && forall|j: int| 0 <= j < i ==> spec_options_backend(#[trigger] opts[j]) == b)
    } else {
        None
    }
}

proof fn lemma_first_invalid_at(opts: Seq<BackendOptions>, i: int)
    requires
        0 <= i < opts.len(),
        !spec_options_valid(opts[i]),
        forall|j: int| 0 <= j < i ==> spec_options_valid(#[trigger] opts[j]),
    ensures
        spec_first_invalid(opts) == Some(i),
{
    reveal(spec_first_invalid);
    let k = choose|k: int| 0 <= k < opts.len() && !spec_options_valid(#[trigger] opts[k])
        && forall|j: int| 0 <= j < k ==> spec_options_valid(#[trigger] opts[j]);
    assert(0 <= k < opts.len() && !spec_options_valid(opts[k]));
    if k < i {
        assert(spec_options_valid(opts[k]));
    } else if k > i {
        assert(spec_options_valid(opts[i]));
    }
}

proof fn lemma_first_mismatch_at(opts: Seq<BackendOptions>, b: BackendId, i: int)
    requires
        0 <= i < opts.len(),
        spec_options_backend(opts[i]) != b,
        forall|j: int| 0 <= j < i ==> spec_options_backend(#[trigger] opts[j]) == b,
    ensures
        spec_first_mismatch(opts, b) == Some(i),
{
    reveal(spec_first_mismatch);
    let k = choose|k: int| 0 <= k < opts.len() && spec_options_backend(#[trigger] opts[k]) != b
        && forall|j: int| 0 <= j < k ==> spec_options_backend(#[trigger] opts[j]) == b;
    assert(0 <= k < opts.len() && spec_options_backend(opts[k]) != b);
    if k < i {
        assert(spec_options_backend(opts[k]) == b);
    } else if k > i {
        assert(spec_options_backend(opts[i]) != b);
    }
}

proof fn lemma_no_invalid(opts: Seq<BackendOptions>)
    requires
        forall|j: int| 0 <= j < opts.len() ==> spec_options_valid(#[trigger] opts[j]),
    ensures
        spec_first_invalid(opts) is None,
{
    reveal(spec_first_invalid);
}

proof fn lemma_no_mismatch(opts: Seq<BackendOptions>, b: BackendId)
    requires
        forall|j: int| 0 <= j < opts.len() ==> spec_options_backend(#[trigger] opts[j]) == b,
    ensures
        spec_first_mismatch(opts, b) is None,
{
    reveal(spec_first_mismatch);
}

/// No options are always valid and never mismatch a required backend.
pub proof fn lemma_empty_options_valid(opts: Seq<BackendOptions>, policy: BackendPolicy)
    requires
        opts.len() == 0,
    ensures
        spec_first_invalid(opts) is None,
        policy matches BackendPolicy::Require(b) ==> spec_first_mismatch(opts, b) is None,
{
    reveal(spec_first_invalid);
    reveal(spec_first_mismatch);
}

/// Building a system from `opts` under `policy` succeeds: every option is
/// valid, a required backend matches every option's backend, and a
/// preference list is not empty.
pub open spec fn spec_build_succeeds(opts: Seq<BackendOptions>, policy: BackendPolicy) -> bool {
    &&& spec_first_invalid(opts) is None
    &&& (policy matches BackendPolicy::Require(b) ==> spec_first_mismatch(opts, b) is None)
    &&& (policy matches BackendPolicy::Prefer(list) ==> list@.len() > 0)
}

/// `e` is the error of building a system from `opts` under `policy`: that of
/// the first invalid option; else the first option addressed to a backend
/// other than a required one; else the refusal of an empty preference list.
pub open spec fn spec_is_build_error(opts: Seq<BackendOptions>, policy: BackendPolicy, e: CameraError) -> bool {
    match spec_first_invalid(opts) {
        Some(i) => spec_is_validation_error(opts[i], e),
        None => match policy {
            BackendPolicy::Require(b) => spec_first_mismatch(opts, b) matches Some(i)
                && e == (CameraError::BackendOptionMismatch {
                    option_backend: spec_options_backend(opts[i]),
                    selected_backend: b,
                }),
            BackendPolicy::Prefer(list) => list@.len() == 0 && (e matches CameraError::InvalidConfig(m)
                && m@ == "Backend preference list cannot be empty"@),
            BackendPolicy::PlatformDefault => false,
        },
    }
}

/// Collects a policy and backend options for a camera system.
#[derive(Debug)]
pub struct SystemBuilder {
    policy: BackendPolicy,
    backend_options: Vec<BackendOptions>,
    platform: Platform,
}

/// Enumerates and opens devices under a backend policy. An explicitly required
/// backend never falls back to another device namespace.
#[derive(Debug)]
pub struct CameraSystem {
    policy: BackendPolicy,
    synthetic: bool,
    backend_options: Vec<BackendOptions>,
    platform: Platform,
}

impl SystemBuilder {
    pub closed spec fn spec_policy(&self) -> BackendPolicy {
        self.policy
    }

    pub closed spec fn spec_options(&self) -> Seq<BackendOptions> {
        self.backend_options@
    }

    pub closed spec fn spec_platform(&self) -> Platform {
        self.platform
    }

    /// The same builder with `policy`.
    pub fn backend_policy(self, policy: BackendPolicy) -> (b: SystemBuilder)
        ensures
            b.spec_policy() == policy,
            b.spec_options() == self.spec_options(),
            b.spec_platform() == self.spec_platform(),
    {
        SystemBuilder { policy, backend_options: self.backend_options, platform: self.platform }
    }

    /// The same builder with `options` added.
    pub fn backend_options(self, options: BackendOptions) -> (b: SystemBuilder)
        ensures
            b.spec_policy() == self.spec_policy(),
            b.spec_options() == self.spec_options().push(options),
            b.spec_platform() == self.spec_platform(),
    {
        let mut backend_options = self.backend_options;
        backend_options.push(options);
        SystemBuilder { policy: self.policy, backend_options, platform: self.platform }
    }

    /// Checks the options and the policy: every option must be valid, a
    /// required backend must match every option's backend, and a preference
    /// list must not be empty.
    pub fn build(self) -> (r: CameraResult<CameraSystem>)
        ensures
            match r {
                Ok(system) => {
                    &&& spec_build_succeeds(self.spec_options(), self.spec_policy())
                    &&& system.spec_policy() == self.spec_policy()
                    &&& !system.spec_synthetic()
                    &&& system.spec_options() == self.spec_options()
                    &&& system.spec_platform() == self.spec_platform()
                },
                Err(e) => spec_is_build_error(self.spec_options(), self.spec_policy(), e),
            },
    {
        let mut i: usize = 0;
        while i < self.backend_options.len()
            invariant
                i <= self.backend_options@.len(),
                forall|j: int| 0 <= j < i ==> spec_options_valid(#[trigger] self.backend_options@[j]),
            decreases self.backend_options@.len() - i,
        {
            match self.backend_options[i].validate() {
                Ok(_) => {},
                Err(e) => {
                    proof {
                        lemma_first_invalid_at(self.backend_options@, i as int);
                    }
                    return Err(e);
                },
            }
            i = i + 1;
        }
        proof {
            lemma_no_invalid(self.backend_options@);
        }
        match &self.policy {
            BackendPolicy::Require(selected) => {
                let mut k: usize = 0;
                while k < self.backend_options.len()
                    invariant
                        k <= self.backend_options@.len(),
                        spec_first_invalid(self.backend_options@) is None,
                        self.policy == BackendPolicy::Require(*selected),
                        forall|j: int| 0 <= j < k ==> spec_options_backend(#[trigger] self.backend_options@[j]) == *selected,
                    decreases self.backend_options@.len() - k,
                {
                    let option_backend = self.backend_options[k].backend();
                    if option_backend != *selected {
                        proof {
                            lemma_first_mismatch_at(self.backend_options@, *selected, k as int);
                        }
                        return Err(CameraError::BackendOptionMismatch { option_backend, selected_backend: *selected });
                    }
                    k = k + 1;
                }
                proof {
                    lemma_no_mismatch(self.backend_options@, *selected);
                }
            },
            BackendPolicy::Prefer(list) => {
                if list.len() == 0 {
                    return Err(CameraError::InvalidConfig(String::from_str("Backend preference list cannot be empty")));
                }
            },
            BackendPolicy::PlatformDefault => {},
        }
        Ok(CameraSystem {
            policy: self.policy,
            synthetic: false,
            backend_options: self.backend_options,
            platform: self.platform,
        })
    }
}

/// A backend identifier the system can enumerate: the synthetic source when
/// the system has one, or a built-in backend available on the platform.
pub open spec fn spec_system_has_backend(synthetic: bool, platform: Platform, id: BackendId) -> bool {
    ||| synthetic && id == BackendId::Synthetic
    ||| spec_backend_type(id) matches Some(b) && spec_concrete_available(b, platform)
}

/// Availability of a backend identifier: the synthetic source when the
/// system has it; otherwise a built-in backend that is compiled and supports
/// the target.
pub open spec fn spec_backend_availability(synthetic: bool, platform: Platform, id: BackendId) -> BackendAvailability {
    if synthetic && id == BackendId::Synthetic {
        BackendAvailability::Available
    } else {
        match spec_backend_type(id) {
            None => BackendAvailability::NotCompiled,
            Some(b) => if !spec_concrete_compiled(b, platform) {
                BackendAvailability::NotCompiled
            } else if !spec_concrete_supports(b, platform) {
                BackendAvailability::UnsupportedTarget
            } else {
                BackendAvailability::Available
            },
        }
    }
}

/// The backends a policy enumerates, in order.
pub open spec fn spec_policy_backends(policy: BackendPolicy, platform: Platform) -> Seq<BackendId> {
    match policy {
        BackendPolicy::PlatformDefault => seq![spec_backend_id(spec_default_backend(platform))],
        BackendPolicy::Require(b) => seq![b],
        BackendPolicy::Prefer(list) => list@,
    }
}

impl CameraSystem {
    pub closed spec fn spec_policy(&self) -> BackendPolicy {
        self.policy
    }

    pub closed spec fn spec_synthetic(&self) -> bool {
        self.synthetic
    }

    pub closed spec fn spec_options(&self) -> Seq<BackendOptions> {
        self.backend_options@
    }

    pub closed spec fn spec_platform(&self) -> Platform {
        self.platform
    }

    /// A builder for `platform` with the platform-default policy and no
    /// options.
    pub fn builder(platform: Platform) -> (b: SystemBuilder)
        ensures
            b.spec_policy() == BackendPolicy::PlatformDefault,
            b.spec_options().len() == 0,
            b.spec_platform() == platform,
    {
        SystemBuilder { policy: BackendPolicy::PlatformDefault, backend_options: Vec::new(), platform }
    }

    /// The system that uses the platform's native backend.
    pub fn new(platform: Platform) -> (s: CameraSystem)
        ensures
            s.spec_policy() == BackendPolicy::PlatformDefault,
            !s.spec_synthetic(),
            s.spec_options().len() == 0,
            s.spec_platform() == platform,
    {
        CameraSystem { policy: BackendPolicy::PlatformDefault, synthetic: false, backend_options: Vec::new(), platform }
    }

    /// A system with only the deterministic synthetic RGB source, for
    /// examples and hardware-free tests.
    pub fn synthetic(platform: Platform) -> (s: CameraSystem)
        ensures
            s.spec_policy() == BackendPolicy::Require(BackendId::Synthetic),
            s.spec_synthetic(),
            s.spec_options().len() == 0,
            s.spec_platform() == platform,
    {
        CameraSystem {
            policy: BackendPolicy::Require(BackendId::Synthetic),
            synthetic: true,
            backend_options: Vec::new(),
            platform,
        }
    }

    /// The backend policy.
    pub fn backend_policy(&self) -> (p: &BackendPolicy)
        ensures
            *p == self.spec_policy(),
    {
        &self.policy
    }

    /// The options the system was built with.
    pub fn options(&self) -> (o: &Vec<BackendOptions>)
        ensures
            o@ == self.spec_options(),
    {
        &self.backend_options
    }

    /// Every backend the system can enumerate, each once, in name order.
    pub fn available_backends(&self) -> (list: Vec<BackendId>)
        ensures
            forall|id: BackendId| list@.contains(id) <==> spec_system_has_backend(self.spec_synthetic(), self.spec_platform(), id),
            forall|i: int, j: int| 0 <= i < j < list@.len() ==> spec_backend_rank(list@[i]) < spec_backend_rank(list@[j]),
    {
        let mut list: Vec<BackendId> = Vec::new();
        let mut r: usize = 0;
        while r < BACKEND_ID_COUNT
            invariant
                r <= BACKEND_ID_COUNT,
                forall|i: int| 0 <= i < list@.len() ==> spec_backend_rank(#[trigger] list@[i]) < r,
                forall|i: int, j: int| 0 <= i < j < list@.len() ==> spec_backend_rank(list@[i]) < spec_backend_rank(list@[j]),
                forall|id: BackendId| spec_backend_rank(id) < r ==> (list@.contains(id) <==> spec_system_has_backend(self.synthetic, self.platform, id)),
                forall|id: BackendId| list@.contains(id) ==> spec_backend_rank(id) < r,
            decreases BACKEND_ID_COUNT - r,
        {
            let id = BackendId::at_rank(r);
            let has = if self.synthetic && id == BackendId::Synthetic {
                true
            } else {
                match backend_type(&id) {
                    Some(b) => b.is_available(&self.platform),
                    None => false,
                }
            };
            let ghost before = list@;
            if has {
                list.push(id);
            }
            proof {
                assert forall|x: BackendId| spec_backend_rank(x) < r + 1 implies (list@.contains(x) <==> spec_system_has_backend(self.synthetic, self.platform, x)) by {
                    if spec_backend_rank(x) == r {
                        crate::ids::lemma_backend_rank_bijection(x, r as int);
                        assert(x == id);
                        if has {
                            assert(list@[list@.len() - 1] == x);
                        } else {
                            assert(!before.contains(x));
                        }
                    } else if has {
                        if before.contains(x) {
                            let k = choose|k: int| 0 <= k < before.len() && before[k] == x;
                            assert(list@[k] == x);
                        }
                        if list@.contains(x) {
                            let k = choose|k: int| 0 <= k < list@.len() && list@[k] == x;
                            if k < before.len() {
                                assert(before[k] == x);
                            }
                        }
                    }
                }
                assert forall|x: BackendId| list@.contains(x) implies spec_backend_rank(x) < r + 1 by {
                    let k = choose|k: int| 0 <= k < list@.len() && list@[k] == x;
                    if k < before.len() {
                        assert(before[k] == x);
                        assert(before.contains(x));
                    }
                }
            }
            r = r + 1;
        }
        proof {
            assert forall|id: BackendId| list@.contains(id) <==> spec_system_has_backend(self.synthetic, self.platform, id) by {
                crate::ids::lemma_backend_rank_bijection(id, 0);
            }
        }
        list
    }

    /// Whether `backend` can be used: the synthetic source of a synthetic
    /// system; otherwise not compiled, unsupported by the target, or
    /// available.
    pub fn backend_availability(&self, backend: &BackendId) -> (a: BackendAvailability)
        ensures
            a == spec_backend_availability(self.spec_synthetic(), self.spec_platform(), *backend),
    {
        if *backend == BackendId::Synthetic && self.synthetic {
            return BackendAvailability::Available;
        }
        match backend_type(backend) {
            None => BackendAvailability::NotCompiled,
            Some(b) => if !b.is_compiled(&self.platform) {
                BackendAvailability::NotCompiled
            } else if !b.supports_target(&self.platform) {
                BackendAvailability::UnsupportedTarget
            } else {
                BackendAvailability::Available
            },
        }
    }

    /// The backends the policy enumerates, in order.
    pub fn policy_backends(&self) -> (list: Vec<BackendId>)
        ensures
            list@ == spec_policy_backends(self.spec_policy(), self.spec_platform()),
    {
        match &self.policy {
            BackendPolicy::PlatformDefault => {
                let mut list = Vec::new();
                list.push(BackendType::default_for_platform(&self.platform).to_backend_id());
                proof {
                    assert(list@ =~= spec_policy_backends(self.policy, self.platform));
                }
                list
            },
            BackendPolicy::Require(b) => {
                let mut list = Vec::new();
                list.push(*b);
                proof {
                    assert(list@ =~= spec_policy_backends(self.policy, self.platform));
                }
                list
            },
            BackendPolicy::Prefer(backends) => {
                let mut list: Vec<BackendId> = Vec::new();
                let mut i: usize = 0;
                while i < backends.len()
                    invariant
                        i <= backends@.len(),
                        list@ == backends@.subrange(0, i as int),
                    decreases backends@.len() - i,
                {
                    list.push(backends[i]);
                    proof {
                        assert(backends@.subrange(0, i as int + 1) =~= backends@.subrange(0, i as int).push(backends@[i as int]));
                    }
                    i = i + 1;
                }
                proof {
                    assert(backends@.subrange(0, backends@.len() as int) =~= backends@);
                }
                list
            },
        }
    }

    /// The same system restricted to `backend`: it requires that backend and
    /// keeps only the options addressed to it.
    pub fn requiring(&self, backend: BackendId) -> (s: CameraSystem)
        ensures
            s.spec_policy() == BackendPolicy::Require(backend),
            s.spec_synthetic() == self.spec_synthetic(),
            s.spec_platform() == self.spec_platform(),
            s.spec_options() == self.spec_options().filter(|o: BackendOptions| spec_options_backend(o) == backend),
    {
        let ghost pred = |o: BackendOptions| spec_options_backend(o) == backend;
        let mut kept: Vec<BackendOptions> = Vec::new();
        let mut i: usize = 0;
        while i < self.backend_options.len()
            invariant
                i <= self.backend_options@.len(),
                pred == (|o: BackendOptions| spec_options_backend(o) == backend),
                kept@ == self.backend_options@.subrange(0, i as int).filter(pred),
            decreases self.backend_options@.len() - i,
        {
            let o = self.backend_options[i];
            proof {
                let sub = self.backend_options@.subrange(0, i as int + 1);
                assert(sub.drop_last() =~= self.backend_options@.subrange(0, i as int));
                reveal_with_fuel(Seq::<_>::filter, 1);
            }
            if o.backend() == backend {
                kept.push(o);
            }
            i = i + 1;
        }
        proof {
            assert(self.backend_options@.subrange(0, self.backend_options@.len() as int) =~= self.backend_options@);
        }
        CameraSystem {
            policy: BackendPolicy::Require(backend),
            synthetic: self.synthetic,
            backend_options: kept,
            platform: self.platform,
        }
    }
}

/// What enumerating one backend of the policy takes.
#[derive(Debug)]
pub enum EnumerationStep {
    /// The synthetic source's single device.
    Synthetic,
    /// Listing the devices of this built-in backend.
    List(BackendType),
    /// Nothing: the backend cannot be enumerated, for this reason.
    Fail(CameraError),
}

pub open spec fn spec_enumeration_step(synthetic: bool, platform: Platform, id: BackendId) -> EnumerationStep {
    if synthetic && id == BackendId::Synthetic {
        EnumerationStep::Synthetic
    } else {
        match spec_backend_type(id) {
            None => EnumerationStep::Fail(CameraError::BackendNotCompiled { backend: id }),
            Some(b) => match spec_resolve(platform, b) {
                Ok(resolved) => EnumerationStep::List(resolved),
                Err(e) => EnumerationStep::Fail(e),
            },
        }
    }
}

/// `r` is what enumerating a backend gives after `step`, where `listing` is
/// the result of listing its devices (`None` when it was not listed, which
/// counts as no devices).
pub open spec fn spec_backend_devices(
    step: EnumerationStep,
    listing: Option<CameraResult<Vec<CameraDeviceInfo>>>,
    r: CameraResult<Vec<DeviceInfo>>,
) -> bool {
    match step {
        EnumerationStep::Synthetic => r matches Ok(v) && v@.len() == 1 && spec_is_synthetic_device(v@[0]),
        EnumerationStep::Fail(e) => r == Err::<Vec<DeviceInfo>, CameraError>(e),
        EnumerationStep::List(b) => match listing {
            None => r matches Ok(v) && v@.len() == 0,
            Some(Err(e)) => r == Err::<Vec<DeviceInfo>, CameraError>(e),
            Some(Ok(ds)) => r matches Ok(v) && v@.len() == ds@.len() && forall|i: int|
                0 <= i < v@.len() ==> spec_presents(b, ds@[i], #[trigger] v@[i]),
        },
    }
}

/// The devices of the successful enumerations, in order.
pub open spec fn spec_ok_devices(results: Seq<CameraResult<Vec<DeviceInfo>>>) -> Seq<DeviceInfo>
    decreases results.len(),
{
    if results.len() == 0 {
        Seq::empty()
    } else {
        spec_ok_devices(results.drop_last()) + match results.last() {
            Ok(v) => v@,
            Err(_) => Seq::empty(),
        }
    }
}

/// The error of the first failed enumeration.
pub open spec fn spec_first_error(results: Seq<CameraResult<Vec<DeviceInfo>>>) -> Option<CameraError>
    decreases results.len(),
{
    if results.len() == 0 {
        None
    } else {
        match spec_first_error(results.drop_last()) {
            Some(e) => Some(e),
            None => match results.last() {
                Err(e) => Some(e),
                Ok(_) => None,
            },
        }
    }
}

/// `r` merges enumeration results: all devices found, or the first error
/// when none was found and some enumeration failed.
pub open spec fn spec_merged(results: Seq<CameraResult<Vec<DeviceInfo>>>, r: CameraResult<Vec<DeviceInfo>>) -> bool {
    if spec_ok_devices(results).len() == 0 && spec_first_error(results) is Some {
        r == Err::<Vec<DeviceInfo>, CameraError>(spec_first_error(results).unwrap())
    } else {
        r matches Ok(v) && v@ == spec_ok_devices(results)
    }
}

/// Merges the enumerations of several backends: every device found, in
/// order; the first error only when no device was found.
pub fn merge_device_results(results: Vec<CameraResult<Vec<DeviceInfo>>>) -> (r: CameraResult<Vec<DeviceInfo>>)
    ensures
        spec_merged(results@, r),
{
    let ghost all = results@;
    let _count = results.len();
    let mut rest = results;
    let mut devices: Vec<DeviceInfo> = Vec::new();
    let mut first: Option<CameraError> = None;
    let mut done: usize = 0;
    while rest.len() > 0
        invariant
            done + rest@.len() == all.len(),
            all.len() <= usize::MAX,
            rest@ == all.subrange(done as int, all.len() as int),
            devices@ == spec_ok_devices(all.subrange(0, done as int)),
            first == spec_first_error(all.subrange(0, done as int)),
        decreases rest@.len(),
    {
        let item = rest.remove(0);
        proof {
            let prefix = all.subrange(0, done as int + 1);
            assert(prefix.drop_last() =~= all.subrange(0, done as int));
            assert(prefix.last() == item);
        }
        match item {
            Ok(mut found) => {
                devices.append(&mut found);
            },
            Err(e) => {
                if first.is_none() {
                    first = Some(e);
                }
            },
        }
        done = done + 1;
        proof {
            assert(rest@ =~= all.subrange(done as int, all.len() as int));
        }
    }
    proof {
        assert(all.subrange(0, done as int) =~= all);
    }
    if devices.len() == 0 {
        match first {
            Some(e) => return Err(e),
            None => {},
        }
    }
    Ok(devices)
}

impl CameraSystem {
    /// What enumerating `backend` takes: the synthetic device, a listing of
    /// a resolved built-in backend, or an error when the identifier has no
    /// built-in backend or it is not usable here.
    pub fn enumeration_step(&self, backend: &BackendId) -> (s: EnumerationStep)
        ensures
            s == spec_enumeration_step(self.spec_synthetic(), self.spec_platform(), *backend),
    {
        if *backend == BackendId::Synthetic && self.synthetic {
            return EnumerationStep::Synthetic;
        }
        match backend_type(backend) {
            None => EnumerationStep::Fail(CameraError::BackendNotCompiled { backend: *backend }),
            Some(b) => match resolve_backend(&self.platform, b) {
                Ok(resolved) => EnumerationStep::List(resolved),
                Err(e) => EnumerationStep::Fail(e),
            },
        }
    }

    /// The devices of one backend, given the result of listing its devices.
    pub fn devices_for_backend(&self, backend: &BackendId, listing: Option<CameraResult<Vec<CameraDeviceInfo>>>) -> (r: CameraResult<Vec<DeviceInfo>>)
        ensures
            spec_backend_devices(spec_enumeration_step(self.spec_synthetic(), self.spec_platform(), *backend), listing, r),
    {
        match self.enumeration_step(backend) {
            EnumerationStep::Synthetic => {
                let mut v = Vec::new();
                v.push(device_info_synthetic());
                Ok(v)
            },
            EnumerationStep::Fail(e) => Err(e),
            EnumerationStep::List(b) => match listing {
                None => Ok(Vec::new()),
                Some(Err(e)) => Err(e),
                Some(Ok(ds)) => {
                    let ghost all = ds@;
                    let mut rest = ds;
                    let mut out: Vec<DeviceInfo> = Vec::new();
                    while rest.len() > 0
                        invariant
                            out@.len() + rest@.len() == all.len(),
                            rest@ == all.subrange(out@.len() as int, all.len() as int),
                            forall|i: int| 0 <= i < out@.len() ==> spec_presents(b, all[i], #[trigger] out@[i]),
                        decreases rest@.len(),
                    {
                        let d = rest.remove(0);
                        let ghost at = out@.len();
                        out.push(device_info(b, d));
                        proof {
                            assert(rest@ =~= all.subrange(out@.len() as int, all.len() as int));
                            assert(all[at as int] == d);
                        }
                    }
                    Ok(out)
                },
            },
        }
    }

    /// Enumerates the policy's backends: `listings[k]` is the result of
    /// listing the devices of the `k`-th backend of the policy (ignored
    /// unless its step lists devices). All devices found are returned in
    /// order; the first error only when no device was found.
    pub fn devices_blocking(&self, listings: Vec<CameraResult<Vec<CameraDeviceInfo>>>) -> (r: CameraResult<Vec<DeviceInfo>>)
        ensures
            exists|outs: Seq<CameraResult<Vec<DeviceInfo>>>| {
                let backends = spec_policy_backends(self.spec_policy(), self.spec_platform());
                &&& outs.len() == backends.len()
                &&& forall|k: int| 0 <= k < outs.len() ==> spec_backend_devices(
                    spec_enumeration_step(self.spec_synthetic(), self.spec_platform(), backends[k]),
                    if k < listings@.len() { Some(listings@[k]) } else { None },
                    #[trigger] outs[k],
                )
                &&& #[trigger] spec_merged(outs, r)
            },
    {
        let backends = self.policy_backends();
        let ghost given = listings@;
        let mut rest = listings;
        let mut results: Vec<CameraResult<Vec<DeviceInfo>>> = Vec::new();
        let mut k: usize = 0;
        while k < backends.len()
            invariant
                k <= backends@.len(),
                backends@ == spec_policy_backends(self.spec_policy(), self.spec_platform()),
                results@.len() == k,
                rest@ == if k <= given.len() { given.subrange(k as int, given.len() as int) } else { Seq::empty() },
                forall|j: int| 0 <= j < k ==> spec_backend_devices(
                    spec_enumeration_step(self.spec_synthetic(), self.spec_platform(), backends@[j]),
                    if j < given.len() { Some(given[j]) } else { None },
                    #[trigger] results@[j],
                ),
            decreases backends@.len() - k,
        {
            let listing = if rest.len() > 0 {
                Some(rest.remove(0))
            } else {
                None
            };
            let out = self.devices_for_backend(&backends[k], listing);
            results.push(out);
            proof {
                if k < given.len() {
                    assert(rest@ =~= given.subrange(k as int + 1, given.len() as int));
                }
            }
            k = k + 1;
        }
        let ghost outs = results@;
        let r = merge_device_results(results);
        proof {
            assert(outs.len() == backends@.len());
            assert(spec_merged(outs, r));
        }
        r
    }
}

/// Which device to open.
#[derive(Clone, Debug)]
pub enum DeviceSelector {
    /// The first device the policy enumerates.
    Default,
    Id(DeviceId),
    Facing(CameraFacing),
    /// A USB device; a given serial number must match too.
    Usb { vendor_id: u16, product_id: u16, serial_number: Option<String> },
    /// A device whose name contains this text.
    Name(String),
}

/// `d` is a device the selector designates.
pub open spec fn spec_selects(selector: DeviceSelector, d: DeviceInfo) -> bool {
    match selector {
        DeviceSelector::Default => true,
        DeviceSelector::Id(id) => d.id.backend == id.backend && d.id.native@ == id.native@,
        DeviceSelector::Facing(f) => d.facing == f,
        DeviceSelector::Usb { vendor_id, product_id, serial_number } => d.usb matches Some(u)
            && u.vendor_id == vendor_id && u.product_id == product_id && (serial_number matches Some(
            s) ==> u.serial_number matches Some(t) && t@ == s@),
        DeviceSelector::Name(n) => spec_contains(d.name@, n@),
    }
}

fn same_device_id(a: &DeviceId, b: &DeviceId) -> (r: bool)
    ensures
        r == (a.backend == b.backend && a.native@ == b.native@),
{
    a.backend == b.backend && a.native == b.native
}

fn selects(selector: &DeviceSelector, d: &DeviceInfo) -> (r: bool)
    ensures
        r == spec_selects(*selector, *d),
{
    match selector {
        DeviceSelector::Default => true,
        DeviceSelector::Id(id) => same_device_id(&d.id, id),
        DeviceSelector::Facing(f) => d.facing == *f,
        DeviceSelector::Usb { vendor_id, product_id, serial_number } => match &d.usb {
            Some(u) => u.vendor_id == *vendor_id && u.product_id == *product_id && match serial_number {
                Some(s) => match &u.serial_number {
                    Some(t) => *t == *s,
                    None => false,
                },
                None => true,
            },
            None => false,
        },
        DeviceSelector::Name(n) => {
            let hay = chars_of(d.name.as_str());
            let needle = chars_of(n.as_str());
            contains(hay.as_slice(), needle.as_slice())
        },
    }
}

/// Picks the device a selector designates among enumerated devices: the
/// first match; a selector other than `Default` that matches twice is
/// ambiguous.
pub fn select_device(devices: Vec<DeviceInfo>, selector: &DeviceSelector) -> (r: CameraResult<DeviceInfo>)
    ensures
        match r {
            Ok(d) => exists|i: int| {
                &&& 0 <= i < devices@.len()
                &&& #[trigger] devices@[i] == d
                &&& spec_selects(*selector, d)
                &&& forall|j: int| 0 <= j < i ==> !spec_selects(*selector, #[trigger] devices@[j])
                &&& !(*selector is Default) ==> forall|j: int| i < j < devices@.len() ==> !spec_selects(*selector, #[trigger] devices@[j])
            },
            Err(e) => {
                ||| e is DeviceNotFound && forall|j: int| 0 <= j < devices@.len() ==> !spec_selects(*selector, #[trigger] devices@[j])
                ||| e is AmbiguousDevice && !(*selector is Default) && exists|i: int, j: int| 0 <= i < j < devices@.len()
                    && spec_selects(*selector, #[trigger] devices@[i]) && spec_selects(*selector, #[trigger] devices@[j])
            },
        },
{
    let mut first: Option<usize> = None;
    let mut second: Option<usize> = None;
    let mut i: usize = 0;
    while i < devices.len()
        invariant
            i <= devices@.len(),
            match first {
                None => forall|j: int| 0 <= j < i ==> !spec_selects(*selector, #[trigger] devices@[j]),
                Some(a) => a < i && spec_selects(*selector, devices@[a as int]) && (forall|j: int|
                    0 <= j < a ==> !spec_selects(*selector, #[trigger] devices@[j])) && match second {
                    None => forall|j: int| a < j < i ==> !spec_selects(*selector, #[trigger] devices@[j]),
                    Some(b) => a < b < i && spec_selects(*selector, devices@[b as int]),
                },
            },
            first is None ==> second is None,
        decreases devices@.len() - i,
    {
        if selects(selector, &devices[i]) {
            if first.is_none() {
                first = Some(i);
            } else if second.is_none() {
                second = Some(i);
            }
        }
        i = i + 1;
    }
    match first {
        None => Err(CameraError::DeviceNotFound(String::from_str("No device matches the selector"))),
        Some(a) => {
            let is_default = match selector {
                DeviceSelector::Default => true,
                _ => false,
            };
            if !is_default && second.is_some() {
                return Err(CameraError::AmbiguousDevice(String::from_str("Several devices match the selector")));
            }
            let ghost all = devices@;
            let mut devices = devices;
            let d = devices.remove(a);
            proof {
                assert(all[a as int] == d);
            }
            Ok(d)
        },
    }
}

/// Capture modes a device offers.
#[derive(Clone, Debug)]
pub struct DeviceCapabilities {
    pub configurations: Vec<CameraConfig>,
}

impl DeviceCapabilities {
    /// A device with exactly one native mode.
    pub fn single_native(format: CaptureFormat, width: u32, height: u32, rate: FrameRate) -> (c: DeviceCapabilities)
        ensures
            c.configurations@.len() == 1,
            c.configurations@[0] == (CameraConfig {
                format: spec_video_format(format),
                width,
                height,
                fps: rate.num() as u32,
                fps_denominator: rate.den() as u32,
            }),
    {
        let mut configurations = Vec::new();
        configurations.push(CameraConfig::new(format.to_video_format(), width, height, rate.numerator()).with_frame_rate(rate));
        DeviceCapabilities { configurations }
    }

    /// A device with these modes.
    pub fn from_configurations(configurations: Vec<CameraConfig>) -> (c: DeviceCapabilities)
        ensures
            c.configurations == configurations,
    {
        DeviceCapabilities { configurations }
    }
}

/// Where a device's capabilities come from.
#[derive(Clone, Debug)]
pub enum CapabilityQuery {
    /// Known without asking the device.
    Known(DeviceCapabilities),
    /// The supported configurations of the device at `index` of a built-in
    /// backend.
    Native { backend: BackendType, index: u32 },
}

/// A negotiated plan: the best mode and the ranked alternatives.
#[derive(Clone, Debug)]
pub struct CapturePlan {
    pub selected: CameraConfig,
    pub alternatives: Vec<CameraConfig>,
}

/// Ranks modes against a request: the first ranked mode is selected, the
/// rest are the alternatives in order.
pub fn plan_capture(request: &CaptureRequest, configurations: Vec<CameraConfig>) -> (r: CameraResult<CapturePlan>)
    requires
        request.preferred_fps.wf(),
    ensures
        match r {
            Ok(plan) => spec_ranked(configurations@, *request).len() > 0
                && plan.selected == spec_ranked(configurations@, *request)[0]
                && plan.alternatives@ == spec_ranked(configurations@, *request).subrange(1, spec_ranked(configurations@, *request).len() as int),
            Err(e) => spec_ranked(configurations@, *request).len() == 0 && e is UnsupportedFormat,
        },
{
    let mut ranked = configurations;
    match rank_capture_configurations(request, &mut ranked) {
        Ok(_) => {},
        Err(e) => return Err(e),
    }
    let ghost all = ranked@;
    let selected = ranked.remove(0);
    proof {
        assert(ranked@ =~= all.subrange(1, all.len() as int));
    }
    Ok(CapturePlan { selected, alternatives: ranked })
}

/// The single mode the synthetic source offers for a request: its first
/// preferred format (RGB when none) at the requested size and rate.
pub open spec fn spec_synthetic_configuration(request: CaptureRequest) -> CameraConfig {
    CameraConfig {
        format: if request.preferred_formats@.len() > 0 {
            spec_video_format(request.preferred_formats@[0])
        } else {
            VideoFormat::RGB
        },
        width: request.width,
        height: request.height,
        fps: request.preferred_fps.num() as u32,
        fps_denominator: request.preferred_fps.den() as u32,
    }
}

pub fn synthetic_configuration(request: &CaptureRequest) -> (c: CameraConfig)
    ensures
        c == spec_synthetic_configuration(*request),
{
    let format = if request.preferred_formats.len() > 0 {
        request.preferred_formats[0].to_video_format()
    } else {
        VideoFormat::RGB
    };
    CameraConfig::new(format, request.width, request.height, request.preferred_fps.numerator()).with_frame_rate(request.preferred_fps)
}

/// A capture about to start: system, device selector and request.
#[derive(Debug)]
pub struct CaptureBuilder {
    system: CameraSystem,
    selector: DeviceSelector,
    request: CaptureRequest,
}

impl CaptureBuilder {
    pub closed spec fn spec_system(&self) -> CameraSystem {
        self.system
    }

    pub closed spec fn spec_selector(&self) -> DeviceSelector {
        self.selector
    }

    pub closed spec fn spec_request(&self) -> CaptureRequest {
        self.request
    }

    /// The request.
    pub fn capture_request(&self) -> (r: &CaptureRequest)
        ensures
            *r == self.spec_request(),
    {
        &self.request
    }

    /// The system.
    pub fn system(&self) -> (s: &CameraSystem)
        ensures
            *s == self.spec_system(),
    {
        &self.system
    }

    /// The device selector.
    pub fn selector(&self) -> (s: &DeviceSelector)
        ensures
            *s == self.spec_selector(),
    {
        &self.selector
    }

    /// Replaces the request by a built-in profile: preview and recognition
    /// at 1280x720 for low latency and low CPU, recording at 1920x1080 for
    /// fidelity, native relay at 1280x720 for low bandwidth in MJPEG or H.264.
    pub fn profile(self, profile: CaptureProfile) -> (b: CaptureBuilder)
        ensures
            b.spec_system() == self.spec_system(),
            b.spec_selector() == self.spec_selector(),
            b.spec_request().width == (if profile is Recording { 1920u32 } else { 1280u32 }),
            b.spec_request().height == (if profile is Recording { 1080u32 } else { 720u32 }),
            b.spec_request().priority == match profile {
                CaptureProfile::Preview => NegotiationPriority::LowLatency,
                CaptureProfile::Recognition => NegotiationPriority::LowCpu,
                CaptureProfile::Recording => NegotiationPriority::Fidelity,
                CaptureProfile::NativeRelay => NegotiationPriority::LowBandwidth,
            },
            b.spec_request().preferred_formats@ == (if profile is NativeRelay {
                seq![CaptureFormat::Mjpeg, CaptureFormat::H264]
            } else {
                Seq::empty()
            }),
            b.spec_request().preferred_fps.num() == 30 && b.spec_request().preferred_fps.den() == 1,
            b.spec_request().minimum_fps is None,
            !b.spec_request().exact_resolution,
            b.spec_request().required_aspect_ratio is None,
    {
        let builder = match profile {
            CaptureProfile::Preview => CaptureRequest::builder().preferred_resolution(1280, 720).priority(NegotiationPriority::LowLatency),
            CaptureProfile::Recognition => CaptureRequest::builder().preferred_resolution(1280, 720).priority(NegotiationPriority::LowCpu),
            CaptureProfile::Recording => CaptureRequest::builder().preferred_resolution(1920, 1080).priority(NegotiationPriority::Fidelity),
            CaptureProfile::NativeRelay => {
                let mut formats = Vec::new();
                formats.push(CaptureFormat::Mjpeg);
                formats.push(CaptureFormat::H264);
                proof {
                    assert(formats@ =~= seq![CaptureFormat::Mjpeg, CaptureFormat::H264]);
                }
                CaptureRequest::builder().preferred_resolution(1280, 720).priority(NegotiationPriority::LowBandwidth).preferred_formats(formats)
            },
        };
        let request = builder.request;
        CaptureBuilder { system: self.system, selector: self.selector, request }
    }

    /// Prefers `width` x `height`.
    pub fn resolution(self, width: u32, height: u32) -> (b: CaptureBuilder)
        ensures
            b.spec_system() == self.spec_system(),
            b.spec_selector() == self.spec_selector(),
            b.spec_request() == (CaptureRequest { width, height, ..self.spec_request() }),
    {
        let mut request = self.request;
        request.width = width;
        request.height = height;
        CaptureBuilder { system: self.system, selector: self.selector, request }
    }

    /// Prefers `rate`.
    pub fn frame_rate(self, rate: FrameRate) -> (b: CaptureBuilder)
        ensures
            b.spec_system() == self.spec_system(),
            b.spec_selector() == self.spec_selector(),
            b.spec_request() == (CaptureRequest { preferred_fps: rate, ..self.spec_request() }),
    {
        let mut request = self.request;
        request.preferred_fps = rate;
        CaptureBuilder { system: self.system, selector: self.selector, request }
    }

    /// Replaces the whole request.
    pub fn request(self, request: CaptureRequest) -> (b: CaptureBuilder)
        ensures
            b.spec_system() == self.spec_system(),
            b.spec_selector() == self.spec_selector(),
            b.spec_request() == request,
    {
        CaptureBuilder { system: self.system, selector: self.selector, request }
    }
}

/// Two policies select the same backends in the same order.
pub open spec fn spec_same_policy(a: BackendPolicy, b: BackendPolicy) -> bool {
    match (a, b) {
        (BackendPolicy::PlatformDefault, BackendPolicy::PlatformDefault) => true,
        (BackendPolicy::Require(x), BackendPolicy::Require(y)) => x == y,
        (BackendPolicy::Prefer(x), BackendPolicy::Prefer(y)) => x@ == y@,
        _ => false,
    }
}

fn copy_policy(policy: &BackendPolicy) -> (p: BackendPolicy)
    ensures
        spec_same_policy(p, *policy),
{
    match policy {
        BackendPolicy::PlatformDefault => BackendPolicy::PlatformDefault,
        BackendPolicy::Require(b) => BackendPolicy::Require(*b),
        BackendPolicy::Prefer(list) => {
            let mut out: Vec<BackendId> = Vec::new();
            let mut i: usize = 0;
            while i < list.len()
                invariant
                    i <= list@.len(),
                    out@ == list@.subrange(0, i as int),
                decreases list@.len() - i,
            {
                out.push(list[i]);
                proof {
                    assert(list@.subrange(0, i as int + 1) =~= list@.subrange(0, i as int).push(list@[i as int]));
                }
                i = i + 1;
            }
            proof {
                assert(list@.subrange(0, list@.len() as int) =~= list@);
                assert(out@ =~= list@);
            }
            BackendPolicy::Prefer(out)
        },
    }
}

impl CameraSystem {
    /// An independent system with the same policy, synthetic source, options
    /// and platform.
    pub fn duplicate(&self) -> (s: CameraSystem)
        ensures
            spec_same_policy(s.spec_policy(), self.spec_policy()),
            s.spec_synthetic() == self.spec_synthetic(),
            s.spec_options() == self.spec_options(),
            s.spec_platform() == self.spec_platform(),
    {
        let mut options: Vec<BackendOptions> = Vec::new();
        let mut i: usize = 0;
        while i < self.backend_options.len()
            invariant
                i <= self.backend_options@.len(),
                options@ == self.backend_options@.subrange(0, i as int),
            decreases self.backend_options@.len() - i,
        {
            options.push(self.backend_options[i]);
            proof {
                assert(self.backend_options@.subrange(0, i as int + 1) =~= self.backend_options@.subrange(0, i as int).push(self.backend_options@[i as int]));
            }
            i = i + 1;
        }
        proof {
            assert(self.backend_options@.subrange(0, self.backend_options@.len() as int) =~= self.backend_options@);
        }
        CameraSystem { policy: copy_policy(&self.policy), synthetic: self.synthetic, backend_options: options, platform: self.platform }
    }

    /// Starts describing a capture from the device `selector` designates,
    /// with the default request.
    pub fn capture(&self, selector: DeviceSelector) -> (b: CaptureBuilder)
        ensures
            spec_same_policy(b.spec_system().spec_policy(), self.spec_policy()),
            b.spec_system().spec_synthetic() == self.spec_synthetic(),
            b.spec_system().spec_options() == self.spec_options(),
            b.spec_system().spec_platform() == self.spec_platform(),
            b.spec_selector() == selector,
            crate::negotiation::spec_is_default_request(b.spec_request()),
    {
        CaptureBuilder { system: self.duplicate(), selector, request: CaptureRequest::builder().request }
    }

    /// Where the capabilities of device `id` come from, given the devices
    /// its backend enumerates: the device must be enumerated exactly once;
    /// the synthetic device offers 640x480 RGB at 30 frames per second; a
    /// device of a built-in backend is asked for its configurations.
    pub fn capabilities_blocking(&self, id: &DeviceId, devices: &Vec<DeviceInfo>) -> (r: CameraResult<CapabilityQuery>)
        ensures
            ({
                let has = |k: int| devices@[k].id.backend == id.backend && devices@[k].id.native@ == id.native@;
                if exists|a: int, b: int| 0 <= a < b < devices@.len() && #[trigger] has(a) && #[trigger] has(b) {
                    r matches Err(e) && spec_error_kind(e) == CameraErrorKind::AmbiguousDevice
                        && spec_error_device(e) == Some(*id)
                } else if forall|k: int| 0 <= k < devices@.len() ==> !#[trigger] has(k) {
                    r matches Err(e) && spec_error_kind(e) == CameraErrorKind::DeviceNotFound
                        && spec_error_device(e) == Some(*id)
                } else if id.backend == BackendId::Synthetic {
                    r matches Ok(CapabilityQuery::Known(c)) && c.configurations@ == seq![
                        CameraConfig { format: VideoFormat::RGB, width: 640, height: 480, fps: 30, fps_denominator: 1 }]
                } else {
                    match spec_backend_type(id.backend) {
                        None => r matches Err(e) && e == (CameraError::BackendNotCompiled { backend: id.backend }),
                        Some(b) => r matches Ok(CapabilityQuery::Native { backend, index }) && backend == b
                            && exists|k: int| 0 <= k < devices@.len() && #[trigger] has(k) && devices@[k].index == index,
                    }
                }
            }),
    {
        let ghost has = |k: int| devices@[k].id.backend == id.backend && devices@[k].id.native@ == id.native@;
        let mut found: Option<usize> = None;
        let mut twice = false;
        let mut i: usize = 0;
        while i < devices.len()
            invariant
                i <= devices@.len(),
                has == (|k: int| devices@[k].id.backend == id.backend && devices@[k].id.native@ == id.native@),
                match found {
                    None => !twice && forall|k: int| 0 <= k < i ==> !#[trigger] has(k),
                    Some(a) => a < i && has(a as int) && (twice ==> exists|b: int| a < b < i && #[trigger] has(b))
                        && (!twice ==> forall|k: int| 0 <= k < i && k != a ==> !#[trigger] has(k)),
                },
            decreases devices@.len() - i,
        {
            let m = same_device_id(&devices[i].id, id);
            proof {
                assert(has(i as int) == m);
            }
            if m {
                if found.is_none() {
                    found = Some(i);
                } else {
                    twice = true;
                }
            }
            i = i + 1;
        }
        let a = match found {
            Some(a) => a,
            None => {
                let device = DeviceId { backend: id.backend, native: id.native.clone() };
                return Err(CameraError::DeviceNotFound(String::from_str("No device has this identifier")).with_device(device));
            },
        };
        if twice {
            proof {
                let b = choose|b: int| a < b < devices@.len() && #[trigger] has(b);
                assert(has(a as int) && has(b));
            }
            let device = DeviceId { backend: id.backend, native: id.native.clone() };
            return Err(CameraError::AmbiguousDevice(String::from_str("Several devices have this identifier")).with_device(device));
        }
        proof {
            assert(!exists|x: int, y: int| 0 <= x < y < devices@.len() && #[trigger] has(x) && #[trigger] has(y));
            assert(has(a as int));
        }
        if id.backend == BackendId::Synthetic {
            let c = DeviceCapabilities::single_native(CaptureFormat::Rgb8, 640, 480, FrameRate::thirty());
            proof {
                assert(c.configurations@ =~= seq![CameraConfig { format: VideoFormat::RGB, width: 640, height: 480, fps: 30, fps_denominator: 1 }]);
            }
            return Ok(CapabilityQuery::Known(c));
        }
        match backend_type(&id.backend) {
            Some(backend) => Ok(CapabilityQuery::Native { backend, index: devices[a].index }),
            None => Err(CameraError::BackendNotCompiled { backend: id.backend }),
        }
    }
}

proof fn lemma_step_devices_backend(
    system: CameraSystem,
    id: BackendId,
    listing: Option<CameraResult<Vec<CameraDeviceInfo>>>,
    out: CameraResult<Vec<DeviceInfo>>,
)
    requires
        spec_backend_devices(spec_enumeration_step(system.spec_synthetic(), system.spec_platform(), id), listing, out),
    ensures
        out matches Ok(w) ==> forall|j: int| 0 <= j < w@.len() ==> (#[trigger] w@[j]).id.backend == id,
{
    match spec_enumeration_step(system.spec_synthetic(), system.spec_platform(), id) {
        EnumerationStep::Synthetic => {},
        EnumerationStep::Fail(_) => {},
        EnumerationStep::List(resolved) => {
            let b = spec_backend_type(id).unwrap();
            assert(spec_resolve(system.spec_platform(), b) == Ok::<BackendType, CameraError>(resolved));
            assert(resolved == b);
            assert(spec_backend_id(b) == id);
        },
    }
}

proof fn lemma_ok_devices_backends(outs: Seq<CameraResult<Vec<DeviceInfo>>>, backends: Seq<BackendId>)
    requires
        outs.len() == backends.len(),
        forall|k: int| 0 <= k < outs.len() ==> ((#[trigger] outs[k]) matches Ok(w) ==> forall|j: int| 0 <= j < w@.len() ==> w@[j].id.backend == backends[k]),
    ensures
        forall|i: int| 0 <= i < spec_ok_devices(outs).len() ==> backends.contains(#[trigger] spec_ok_devices(outs)[i].id.backend),
    decreases outs.len(),
{
    if outs.len() > 0 {
        let t = outs.drop_last();
        let bt = backends.drop_last();
        assert forall|k: int| 0 <= k < t.len() implies ((#[trigger] t[k]) matches Ok(w) ==> forall|j: int| 0 <= j < w@.len() ==> w@[j].id.backend == bt[k]) by {
            assert(t[k] == outs[k]);
        }
        lemma_ok_devices_backends(t, bt);
        let head = spec_ok_devices(t);
        let k = outs.len() - 1;
        assert forall|i: int| 0 <= i < spec_ok_devices(outs).len() implies backends.contains(#[trigger] spec_ok_devices(outs)[i].id.backend) by {
            if i < head.len() {
                assert(spec_ok_devices(outs)[i] == head[i]);
                assert(bt.contains(head[i].id.backend));
                let m = choose|m: int| 0 <= m < bt.len() && bt[m] == head[i].id.backend;
                assert(backends[m] == bt[m]);
            } else {
                match outs[k] {
                    Ok(w) => {
                        assert(spec_ok_devices(outs)[i] == w@[i - head.len()]);
                        assert(backends[k] == spec_ok_devices(outs)[i].id.backend);
                    },
                    Err(_) => {},
                }
            }
        }
    }
}

/// Every device a camera system reports belongs to a backend of its
/// policy: a required backend never falls back to another device namespace.
pub proof fn lemma_devices_stay_in_policy(
    system: CameraSystem,
    listings: Seq<CameraResult<Vec<CameraDeviceInfo>>>,
    outs: Seq<CameraResult<Vec<DeviceInfo>>>,
    r: CameraResult<Vec<DeviceInfo>>,
)
    requires
        outs.len() == spec_policy_backends(system.spec_policy(), system.spec_platform()).len(),
        forall|k: int| 0 <= k < outs.len() ==> spec_backend_devices(
            spec_enumeration_step(system.spec_synthetic(), system.spec_platform(), spec_policy_backends(system.spec_policy(), system.spec_platform())[k]),
            if k < listings.len() { Some(listings[k]) } else { None },
            #[trigger] outs[k],
        ),
        spec_merged(outs, r),
    ensures
        r matches Ok(v) ==> forall|i: int| 0 <= i < v@.len() ==> spec_policy_backends(system.spec_policy(), system.spec_platform()).contains(#[trigger] v@[i].id.backend),
        system.spec_policy() matches BackendPolicy::Require(b) ==> (r matches Ok(v) ==> forall|i: int| 0 <= i < v@.len() ==> (#[trigger] v@[i]).id.backend == b),
{
    let backends = spec_policy_backends(system.spec_policy(), system.spec_platform());
    assert forall|k: int| 0 <= k < outs.len() implies ((#[trigger] outs[k]) matches Ok(w) ==> forall|j: int| 0 <= j < w@.len() ==> w@[j].id.backend == backends[k]) by {
        lemma_step_devices_backend(system, backends[k], if k < listings.len() { Some(listings[k]) } else { None }, outs[k]);
    }
    lemma_ok_devices_backends(outs, backends);
    match system.spec_policy() {
        BackendPolicy::Require(b) => {
            assert(backends =~= seq![b]);
            match r {
                Ok(v) => {
                    assert forall|i: int| 0 <= i < v@.len() implies (#[trigger] v@[i]).id.backend == b by {
                        assert(v@[i] == spec_ok_devices(outs)[i]);
                        assert(backends.contains(v@[i].id.backend));
                    }
                },
                Err(_) => {},
            }
        },
        _ => {},
    }
}

/// What starting a capture does after trying one backend of a preference
/// list.
#[derive(Debug)]
pub enum StartDecision {
    /// The backend started the capture.
    Done,
    /// A permission is missing: stop and report this error as it is.
    Abort(CameraError),
    /// Try the next backend.
    Continue,
    /// Every backend failed: report this aggregate error.
    Fail(CameraError),
}

/// The attempts so far followed by the failure of `backend` with `e`.
pub open spec fn spec_attempt_recorded(before: Seq<BackendAttempt>, after: Seq<BackendAttempt>, backend: BackendId, e: CameraError) -> bool {
    &&& after.len() == before.len() + 1
    &&& after.subrange(0, before.len() as int) == before
    &&& after[before.len() as int].backend == backend
    &&& after[before.len() as int].kind == spec_error_kind(e)
    &&& after[before.len() as int].message@ == spec_error_message(e)
}

/// One step of starting a capture over a preference list of backends: a
/// success ends the search; a missing permission aborts it with its own
/// error and records nothing; any other failure is recorded, and after the
/// last backend every recorded failure is handed over in a
/// `BackendAttemptsFailed` error (leaving `attempts` empty).
pub fn next_start_attempt(
    attempts: &mut Vec<BackendAttempt>,
    backend: BackendId,
    outcome: CameraResult<()>,
    is_last: bool,
) -> (d: StartDecision)
    ensures
        match outcome {
            Ok(_) => d is Done && final(attempts)@ == old(attempts)@,
            Err(e) => if spec_error_kind(e) == CameraErrorKind::PermissionDenied
                || spec_error_kind(e) == CameraErrorKind::PermissionRequired {
                d == StartDecision::Abort(e) && final(attempts)@ == old(attempts)@
            } else if is_last {
                final(attempts)@.len() == 0 && (d matches StartDecision::Fail(CameraError::BackendAttemptsFailed(all))
                    && spec_attempt_recorded(old(attempts)@, all@, backend, e))
            } else {
                d is Continue && spec_attempt_recorded(old(attempts)@, final(attempts)@, backend, e)
            },
        },
{
    let e = match outcome {
        Ok(_) => return StartDecision::Done,
        Err(e) => e,
    };
    let kind = e.kind();
    match kind {
        CameraErrorKind::PermissionDenied | CameraErrorKind::PermissionRequired => return StartDecision::Abort(e),
        _ => {},
    }
    let ghost before = attempts@;
    attempts.push(BackendAttempt { backend, kind, message: e.to_message() });
    proof {
        assert(attempts@.subrange(0, before.len() as int) =~= before);
    }
    if is_last {
        let mut all: Vec<BackendAttempt> = Vec::new();
        std::mem::swap(attempts, &mut all);
        StartDecision::Fail(CameraError::BackendAttemptsFailed(all))
    } else {
        StartDecision::Continue
    }
}


/// What starting a capture does next while it tries the candidate
/// configurations in order.
#[derive(Debug)]
pub enum CandidateStep {
    /// Start the candidate at this index.
    Attempt(usize),
    /// The candidate at this index started: the capture runs with it.
    Started(usize),
    /// No candidate started: report this error.
    Fail(CameraError),
}

/// One step of starting a capture over `count` candidate configurations,
/// after `tried` of them were attempted, `last` being the outcome of the
/// latest attempt (`None` before the first). A success ends the search with
/// that candidate; otherwise the next candidate is attempted, unless the
/// capture is being stopped or none is left, in which case the error of the
/// latest attempt is reported, or, when nothing was attempted, that no
/// configuration is usable.
pub fn next_candidate_step(count: usize, tried: usize, stopping: bool, last: Option<CameraResult<()>>) -> (s: CandidateStep)
    requires
        last is Some ==> tried > 0,
    ensures
        match last {
            Some(Ok(_)) => s == CandidateStep::Started((tried - 1) as usize),
            _ => if stopping || tried >= count {
                s matches CandidateStep::Fail(e) && match last {
                    Some(Err(x)) => e == x,
                    _ => e matches CameraError::UnsupportedFormat(m) && m@ == "No usable capture configuration"@,
                }
            } else {
                s == CandidateStep::Attempt(tried)
            },
        },
{
    match last {
        Some(Ok(_)) => CandidateStep::Started(tried - 1),
        Some(Err(e)) => if stopping || tried >= count {
            CandidateStep::Fail(e)
        } else {
            CandidateStep::Attempt(tried)
        },
        None => if stopping || tried >= count {
            CandidateStep::Fail(CameraError::UnsupportedFormat(String::from_str("No usable capture configuration")))
        } else {
            CandidateStep::Attempt(tried)
        },
    }
}


/// A USB selector designates a device exactly when its USB identity has the
/// selector's vendor and product ids (and, when the selector gives one, its
/// serial number): a device with another product id is never selected, so
/// it never makes a selection ambiguous.
pub proof fn lemma_usb_selector_matches_vendor_and_product(
    vendor_id: u16,
    product_id: u16,
    serial_number: Option<String>,
    d: DeviceInfo,
)
    ensures
        spec_selects(DeviceSelector::Usb { vendor_id, product_id, serial_number }, d) ==> (d.usb matches Some(u)
            && u.vendor_id == vendor_id && u.product_id == product_id),
        (d.usb matches Some(u) && u.vendor_id == vendor_id && u.product_id == product_id && serial_number is None)
            ==> spec_selects(DeviceSelector::Usb { vendor_id, product_id, serial_number }, d),
        (d.usb matches Some(u) && (u.vendor_id != vendor_id || u.product_id != product_id))
            ==> !spec_selects(DeviceSelector::Usb { vendor_id, product_id, serial_number }, d),
{
}


/// What each selector designates: `Default` every device; `Id` the device
/// with that backend and native identifier; `Facing` a device facing that
/// way; `Name` a device whose name contains the text.
pub proof fn lemma_selector_meanings(id: DeviceId, facing: CameraFacing, text: String, d: DeviceInfo)
    ensures
        spec_selects(DeviceSelector::Default, d),
        spec_selects(DeviceSelector::Id(id), d) <==> (d.id.backend == id.backend && d.id.native@ == id.native@),
        spec_selects(DeviceSelector::Facing(facing), d) <==> d.facing == facing,
        spec_selects(DeviceSelector::Name(text), d) <==> exists|i: int| 0 <= i <= d.name@.len() - text@.len()
            && #[trigger] d.name@.subrange(i, i + text@.len()) == text@,
{
}

} // verus!
