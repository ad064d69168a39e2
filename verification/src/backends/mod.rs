//! Backend selection: which capture backends a build provides and which one
//! a request resolves to.
use vstd::prelude::*;
use crate::error::CameraError;
use crate::ids::BackendId;
use crate::platform::{Platform, TargetOs};

pub mod avfoundation;
pub mod camera2;
pub mod mf;
pub mod uvc;
pub mod v4l2;

verus! {

/// Camera backend type.
#[derive(Clone, Copy, Debug, PartialEq, Eq, Structural, Hash)]
pub enum BackendType {
    /// Automatically selects the preferred backend.
    Auto,
    /// UVC (USB Video Class) backend for cross-platform USB cameras.
    Uvc,
    /// Video4Linux2 kernel camera drivers.
    V4l2,
    /// AVFoundation, the native Apple camera API.
    AVFoundation,
    /// Camera2, the native Android camera API.
    Camera2,
    /// Media Foundation, the native Windows media API.
    MediaFoundation,
}

/// The platform's native backend. Android prefers Camera2, Apple targets
/// AVFoundation, Windows Media Foundation, Linux V4L2 when it is built and UVC
/// otherwise.
pub open spec fn spec_default_backend(p: Platform) -> BackendType {
    if p.os == TargetOs::Android {
        BackendType::Camera2
    } else if p.is_apple() {
        BackendType::AVFoundation
    } else if p.os == TargetOs::Windows {
        BackendType::MediaFoundation
    } else if p.v4l2_built() {
        BackendType::V4l2
    } else {
        BackendType::Uvc
    }
}

/// A backend whose feature was compiled in (the native bundle excluded).
pub open spec fn spec_concrete_compiled(b: BackendType, p: Platform) -> bool {
    match b {
        BackendType::Auto => false,
        BackendType::Uvc => p.features.backend_uvc,
        BackendType::V4l2 => p.features.backend_v4l2,
        BackendType::AVFoundation => p.features.backend_avfoundation,
        BackendType::Camera2 => p.features.backend_camera2,
        BackendType::MediaFoundation => p.features.backend_mf,
    }
}

pub open spec fn spec_is_compiled(b: BackendType, p: Platform) -> bool {
    if b == BackendType::Auto {
        spec_concrete_compiled(spec_default_backend(p), p)
    } else {
        spec_concrete_compiled(b, p)
    }
}

/// A backend that can run on the target operating system.
pub open spec fn spec_concrete_supports(b: BackendType, p: Platform) -> bool {
    match b {
        BackendType::Auto => false,
        BackendType::Uvc => p.os == TargetOs::Linux || p.os == TargetOs::MacOs || p.os
            == TargetOs::Android,
        BackendType::V4l2 => p.is_linux_like(),
        BackendType::AVFoundation => p.is_apple(),
        BackendType::Camera2 => p.os == TargetOs::Android,
        BackendType::MediaFoundation => p.os == TargetOs::Windows,
    }
}

pub open spec fn spec_supports_target(b: BackendType, p: Platform) -> bool {
    if b == BackendType::Auto {
        spec_concrete_supports(spec_default_backend(p), p)
    } else {
        spec_concrete_supports(b, p)
    }
}

/// A backend that is built for this target and can be used at run time.
pub open spec fn spec_concrete_available(b: BackendType, p: Platform) -> bool {
    match b {
        BackendType::Auto => false,
        BackendType::Uvc => p.features.backend_uvc && spec_concrete_supports(BackendType::Uvc, p),
        BackendType::V4l2 => p.v4l2_built(),
        BackendType::AVFoundation => (p.features.native || p.features.backend_avfoundation)
            && p.is_apple(),
        BackendType::Camera2 => (p.features.native || p.features.backend_camera2) && p.os
            == TargetOs::Android,
        BackendType::MediaFoundation => (p.features.native || p.features.backend_mf) && p.os
            == TargetOs::Windows,
    }
}

pub open spec fn spec_is_available(b: BackendType, p: Platform) -> bool {
    if b == BackendType::Auto {
        spec_concrete_available(spec_default_backend(p), p)
    } else {
        spec_concrete_available(b, p)
    }
}

/// Persisted identifier of a backend type.
pub open spec fn spec_backend_id(b: BackendType) -> BackendId {
    match b {
        BackendType::Auto => BackendId::PlatformDefault,
        BackendType::Uvc => BackendId::Uvc,
        BackendType::V4l2 => BackendId::V4l2,
        BackendType::AVFoundation => BackendId::AvFoundation,
        BackendType::Camera2 => BackendId::Camera2,
        BackendType::MediaFoundation => BackendId::MediaFoundation,
    }
}

/// Backend type of a persisted identifier, for the built-in backends.
pub open spec fn spec_backend_type(id: BackendId) -> Option<BackendType> {
    match id {
        BackendId::Uvc => Some(BackendType::Uvc),
        BackendId::V4l2 => Some(BackendType::V4l2),
        BackendId::AvFoundation => Some(BackendType::AVFoundation),
        BackendId::Camera2 => Some(BackendType::Camera2),
        BackendId::MediaFoundation => Some(BackendType::MediaFoundation),
        _ => None,
    }
}

/// The concrete backends in the order that `available_backends` lists them.
pub open spec fn spec_backend_order() -> Seq<BackendType> {
    seq![
        BackendType::Uvc,
        BackendType::AVFoundation,
        BackendType::Camera2,
        BackendType::MediaFoundation,
        BackendType::V4l2,
    ]
}

/// The available backends, in listing order.
pub open spec fn spec_available_backends(p: Platform) -> Seq<BackendType> {
    spec_backend_order().filter(|b: BackendType| spec_concrete_available(b, p))
}

impl BackendType {
    fn concrete_compiled(&self, platform: &Platform) -> (r: bool)
        ensures
            r == spec_concrete_compiled(*self, *platform),
    {
        match self {
            BackendType::Auto => false,
            BackendType::Uvc => platform.features.backend_uvc,
            BackendType::V4l2 => platform.features.backend_v4l2,
            BackendType::AVFoundation => platform.features.backend_avfoundation,
            BackendType::Camera2 => platform.features.backend_camera2,
            BackendType::MediaFoundation => platform.features.backend_mf,
        }
    }

    fn concrete_supports(&self, platform: &Platform) -> (r: bool)
        ensures
            r == spec_concrete_supports(*self, *platform),
    {
        let os = platform.os;
        match self {
            BackendType::Auto => false,
            BackendType::Uvc => os == TargetOs::Linux || os == TargetOs::MacOs || os
                == TargetOs::Android,
            BackendType::V4l2 => os == TargetOs::Linux || os == TargetOs::Android,
            BackendType::AVFoundation => os == TargetOs::MacOs || os == TargetOs::Ios,
            BackendType::Camera2 => os == TargetOs::Android,
            BackendType::MediaFoundation => os == TargetOs::Windows,
        }
    }

    fn concrete_available(&self, platform: &Platform) -> (r: bool)
        ensures
            r == spec_concrete_available(*self, *platform),
    {
        let os = platform.os;
        let f = platform.features;
        match self {
            BackendType::Auto => false,
            BackendType::Uvc => f.backend_uvc && (os == TargetOs::Linux || os == TargetOs::MacOs
                || os == TargetOs::Android),
            BackendType::V4l2 => (os == TargetOs::Linux || os == TargetOs::Android) && f.backend_v4l2,
            BackendType::AVFoundation => (f.native || f.backend_avfoundation) && (os
                == TargetOs::MacOs || os == TargetOs::Ios),
            BackendType::Camera2 => (f.native || f.backend_camera2) && os == TargetOs::Android,
            BackendType::MediaFoundation => (f.native || f.backend_mf) && os == TargetOs::Windows,
        }
    }

    /// Whether the backend's feature was compiled into the build.
    pub fn is_compiled(&self, platform: &Platform) -> (r: bool)
        ensures
            r == spec_is_compiled(*self, *platform),
    {
        match self {
            BackendType::Auto => BackendType::default_for_platform(platform).concrete_compiled(
                platform,
            ),
            _ => self.concrete_compiled(platform),
        }
    }

    /// Whether the backend can run on the target operating system.
    pub fn supports_target(&self, platform: &Platform) -> (r: bool)
        ensures
            r == spec_supports_target(*self, *platform),
    {
        match self {
            BackendType::Auto => BackendType::default_for_platform(platform).concrete_supports(
                platform,
            ),
            _ => self.concrete_supports(platform),
        }
    }

    /// Returns the default backend for the platform.
    pub fn default_for_platform(platform: &Platform) -> (b: BackendType)
        ensures
            b == spec_default_backend(*platform),
            b != BackendType::Auto,
    {
        let os = platform.os;
        if os == TargetOs::Android {
            BackendType::Camera2
        } else if os == TargetOs::MacOs || os == TargetOs::Ios {
            BackendType::AVFoundation
        } else if os == TargetOs::Windows {
            BackendType::MediaFoundation
        } else if os == TargetOs::Linux && platform.features.backend_v4l2 {
            BackendType::V4l2
        } else {
            BackendType::Uvc
        }
    }

    /// Checks whether this backend is available on the platform.
    pub fn is_available(&self, platform: &Platform) -> (r: bool)
        ensures
            r == spec_is_available(*self, *platform),
    {
        match self {
            BackendType::Auto => BackendType::default_for_platform(platform).concrete_available(
                platform,
            ),
            _ => self.concrete_available(platform),
        }
    }

    /// Returns the human-readable backend name.
    pub fn display_name(&self) -> (name: &'static str)
        ensures
            name@ == spec_backend_type_name(*self),
    {
        match self {
            BackendType::Auto => "Auto",
            BackendType::Uvc => "UVC (libuvc)",
            BackendType::V4l2 => "Linux V4L2",
            BackendType::AVFoundation => "AVFoundation",
            BackendType::Camera2 => "Android Camera2",
            BackendType::MediaFoundation => "Windows Media Foundation",
        }
    }

    /// Same text as `display_name`, owned.
    pub fn to_string(&self) -> (text: String)
        ensures
            text@ == spec_backend_type_name(*self),
    {
        String::from_str(self.display_name())
    }

    /// Persisted identifier of this backend type.
    pub fn to_backend_id(&self) -> (id: BackendId)
        ensures
            id == spec_backend_id(*self),
    {
        match self {
            BackendType::Auto => BackendId::PlatformDefault,
            BackendType::Uvc => BackendId::Uvc,
            BackendType::V4l2 => BackendId::V4l2,
            BackendType::AVFoundation => BackendId::AvFoundation,
            BackendType::Camera2 => BackendId::Camera2,
            BackendType::MediaFoundation => BackendId::MediaFoundation,
        }
    }
}

/// Human-readable name of a backend type.
pub open spec fn spec_backend_type_name(b: BackendType) -> Seq<char> {
    match b {
        BackendType::Auto => "Auto"@,
        BackendType::Uvc => "UVC (libuvc)"@,
        BackendType::V4l2 => "Linux V4L2"@,
        BackendType::AVFoundation => "AVFoundation"@,
        BackendType::Camera2 => "Android Camera2"@,
        BackendType::MediaFoundation => "Windows Media Foundation"@,
    }
}

/// Backend type of a persisted identifier; `None` for identifiers without a
/// built-in backend.
pub fn backend_type(id: &BackendId) -> (b: Option<BackendType>)
    ensures
        b == spec_backend_type(*id),
{
    match id {
        BackendId::Uvc => Some(BackendType::Uvc),
        BackendId::V4l2 => Some(BackendType::V4l2),
        BackendId::AvFoundation => Some(BackendType::AVFoundation),
        BackendId::Camera2 => Some(BackendType::Camera2),
        BackendId::MediaFoundation => Some(BackendType::MediaFoundation),
        _ => None,
    }
}

/// Returns all backend types available on the platform.
pub fn available_backends(platform: &Platform) -> (list: Vec<BackendType>)
    ensures
        list@ == spec_available_backends(*platform),
{
    let mut list: Vec<BackendType> = Vec::new();
    if BackendType::Uvc.concrete_available(platform) {
        list.push(BackendType::Uvc);
    }
    if BackendType::AVFoundation.concrete_available(platform) {
        list.push(BackendType::AVFoundation);
    }
    if BackendType::Camera2.concrete_available(platform) {
        list.push(BackendType::Camera2);
    }
    if BackendType::MediaFoundation.concrete_available(platform) {
        list.push(BackendType::MediaFoundation);
    }
    if BackendType::V4l2.concrete_available(platform) {
        list.push(BackendType::V4l2);
    }
    proof {
        reveal_with_fuel(Seq::<_>::filter, 6);
        assert(spec_backend_order().drop_last().drop_last().drop_last().drop_last().drop_last()
            =~= Seq::<BackendType>::empty());
        assert(spec_backend_order().drop_last().drop_last().drop_last().drop_last() =~= seq![
            BackendType::Uvc,
        ]);
        assert(spec_backend_order().drop_last().drop_last().drop_last() =~= seq![
            BackendType::Uvc,
            BackendType::AVFoundation,
        ]);
        assert(spec_backend_order().drop_last().drop_last() =~= seq![
            BackendType::Uvc,
            BackendType::AVFoundation,
            BackendType::Camera2,
        ]);
        assert(spec_backend_order().drop_last() =~= seq![
            BackendType::Uvc,
            BackendType::AVFoundation,
            BackendType::Camera2,
            BackendType::MediaFoundation,
        ]);
        assert(list@ =~= spec_available_backends(*platform));
    }
    list
}

/// The error for a backend that this build cannot use: not compiled in when
/// the target supports it, otherwise unsupported by the target.
pub open spec fn spec_backend_unavailable(p: Platform, b: BackendType) -> CameraError {
    if spec_supports_target(b, p) {
        CameraError::BackendNotCompiled { backend: spec_backend_id(b) }
    } else {
        CameraError::UnsupportedTarget { backend: spec_backend_id(b), target: p.os }
    }
}

pub fn backend_unavailable(platform: &Platform, backend: BackendType) -> (e: CameraError)
    ensures
        e == spec_backend_unavailable(*platform, backend),
{
    let id = backend.to_backend_id();
    if backend.supports_target(platform) {
        CameraError::BackendNotCompiled { backend: id }
    } else {
        CameraError::UnsupportedTarget { backend: id, target: platform.os }
    }
}

/// The error reported when no capture backend is compiled in.
pub fn no_camera_backend_enabled(platform: &Platform) -> (e: CameraError)
    ensures
        e == spec_backend_unavailable(*platform, spec_default_backend(*platform)),
{
    backend_unavailable(platform, BackendType::default_for_platform(platform))
}

/// The backend that a factory call uses: `Auto`, and a backend that this
/// platform does not offer, become the platform default.
pub open spec fn spec_effective_backend(p: Platform, b: BackendType) -> BackendType {
    if b == BackendType::Auto || !spec_concrete_available(b, p) {
        spec_default_backend(p)
    } else {
        b
    }
}

/// Chooses the backend that device listing, configuration listing and camera
/// creation use: the requested one when this platform offers it; otherwise,
/// and for `Auto`, the platform default. Fails when that is not offered
/// either, with the error of `backend_unavailable` for the backend asked for
/// (the platform default, for `Auto`).
pub fn select_factory_backend(platform: &Platform, backend: BackendType) -> (r: Result<
    BackendType,
    CameraError,
>)
    ensures
        r == (if spec_concrete_available(spec_effective_backend(*platform, backend), *platform) {
            Ok(spec_effective_backend(*platform, backend))
        } else {
            Err(spec_backend_unavailable(
                *platform,
                if backend == BackendType::Auto { spec_default_backend(*platform) } else { backend },
            ))
        }),
        backend != BackendType::Auto && !spec_concrete_available(backend, *platform)
            && spec_concrete_available(spec_default_backend(*platform), *platform)
            ==> r == Ok::<BackendType, CameraError>(spec_default_backend(*platform)),
{
    let default = BackendType::default_for_platform(platform);
    let requested = if backend == BackendType::Auto {
        default
    } else {
        backend
    };
    let effective = if requested.concrete_available(platform) {
        requested
    } else {
        default
    };
    if effective.concrete_available(platform) {
        Ok(effective)
    } else {
        Err(backend_unavailable(platform, requested))
    }
}

/// `Auto` resolved to the platform default, checked to be compiled and
/// supported by the target.
pub open spec fn spec_resolve(p: Platform, backend: BackendType) -> Result<BackendType, CameraError> {
    let b = if backend == BackendType::Auto { spec_default_backend(p) } else { backend };
    if !spec_concrete_compiled(b, p) {
        Err(CameraError::BackendNotCompiled { backend: spec_backend_id(b) })
    } else if !spec_concrete_supports(b, p) {
        Err(CameraError::UnsupportedTarget { backend: spec_backend_id(b), target: p.os })
    } else {
        Ok(b)
    }
}

/// Resolves `Auto` and checks that the backend is compiled and supported.
pub fn resolve_backend(platform: &Platform, backend: BackendType) -> (r: Result<
    BackendType,
    CameraError,
>)
    ensures
        r == spec_resolve(*platform, backend),
{
    let b = if backend == BackendType::Auto {
        BackendType::default_for_platform(platform)
    } else {
        backend
    };
    if !b.concrete_compiled(platform) {
        Err(CameraError::BackendNotCompiled { backend: b.to_backend_id() })
    } else if !b.concrete_supports(platform) {
        Err(CameraError::UnsupportedTarget { backend: b.to_backend_id(), target: platform.os })
    } else {
        Ok(b)
    }
}

/// Index of a concrete backend in listing order.
pub open spec fn spec_order_index(b: BackendType) -> int {
    match b {
        BackendType::Uvc => 0,
        BackendType::AVFoundation => 1,
        BackendType::Camera2 => 2,
        BackendType::MediaFoundation => 3,
        _ => 4,
    }
}

/// A backend is listed as available exactly when it is a concrete backend that
/// is available on the platform.
pub proof fn lemma_available_backends_exact(platform: Platform, b: BackendType)
    ensures
        spec_available_backends(platform).contains(b) <==> (b != BackendType::Auto
            && spec_is_available(b, platform)),
{
    let pred = |x: BackendType| spec_concrete_available(x, platform);
    let order = spec_backend_order();
    if b != BackendType::Auto && spec_is_available(b, platform) {
        assert(order[spec_order_index(b)] == b);
        order.lemma_filter_contains(pred, spec_order_index(b));
    }
    if spec_available_backends(platform).contains(b) {
        let j = choose|j: int|
            0 <= j < order.filter(pred).len() && order.filter(pred)[j] == b;
        order.lemma_filter_pred(pred, j);
    }
}

/// The platform default is never `Auto`, and when it is available it is one of
/// the listed available backends.
pub proof fn lemma_default_backend_is_listed(platform: Platform)
    ensures
        spec_default_backend(platform) != BackendType::Auto,
        spec_is_available(BackendType::Auto, platform) == spec_is_available(
            spec_default_backend(platform),
            platform,
        ),
        spec_is_available(spec_default_backend(platform), platform) ==> spec_available_backends(
            platform,
        ).contains(spec_default_backend(platform)),
{
    lemma_available_backends_exact(platform, spec_default_backend(platform));
}

} // verus!
