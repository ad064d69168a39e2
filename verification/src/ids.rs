//! Persisted backend identifiers.
use vstd::prelude::*;

verus! {

/// Identifier of a capture backend. The variants are declared in the
/// lexicographic order of their stable names, so the derived order sorts
/// identifiers by name.
#[derive(Clone, Copy, Debug, PartialEq, Eq, Structural, PartialOrd, Ord, Hash)]
pub enum BackendId {
    AvFoundation,
    Camera2,
    MediaFoundation,
    PlatformDefault,
    Synthetic,
    Uvc,
    V4l2,
}

/// Position of an identifier in name order.
pub open spec fn spec_backend_rank(id: BackendId) -> int {
    match id {
        BackendId::AvFoundation => 0,
        BackendId::Camera2 => 1,
        BackendId::MediaFoundation => 2,
        BackendId::PlatformDefault => 3,
        BackendId::Synthetic => 4,
        BackendId::Uvc => 5,
        BackendId::V4l2 => 6,
    }
}

/// The identifier at a position of name order.
pub open spec fn spec_backend_at(rank: int) -> BackendId {
    if rank == 0 {
        BackendId::AvFoundation
    } else if rank == 1 {
        BackendId::Camera2
    } else if rank == 2 {
        BackendId::MediaFoundation
    } else if rank == 3 {
        BackendId::PlatformDefault
    } else if rank == 4 {
        BackendId::Synthetic
    } else if rank == 5 {
        BackendId::Uvc
    } else {
        BackendId::V4l2
    }
}

/// Stable machine-readable name of an identifier.
pub open spec fn spec_backend_name(id: BackendId) -> Seq<char> {
    match id {
        BackendId::AvFoundation => "avfoundation"@,
        BackendId::Camera2 => "camera2"@,
        BackendId::MediaFoundation => "media-foundation"@,
        BackendId::PlatformDefault => "platform-default"@,
        BackendId::Synthetic => "synthetic"@,
        BackendId::Uvc => "uvc"@,
        BackendId::V4l2 => "v4l2"@,
    }
}

/// Human-readable name of an identifier.
pub open spec fn spec_backend_display(id: BackendId) -> Seq<char> {
    match id {
        BackendId::AvFoundation => "AVFoundation"@,
        BackendId::Camera2 => "Camera2"@,
        BackendId::MediaFoundation => "Media Foundation"@,
        BackendId::PlatformDefault => "Platform default"@,
        BackendId::Synthetic => "Synthetic"@,
        BackendId::Uvc => "UVC"@,
        BackendId::V4l2 => "V4L2"@,
    }
}

/// Number of backend identifiers.
pub const BACKEND_ID_COUNT: usize = 7;

impl BackendId {
    pub const UVC: BackendId = BackendId::Uvc;
    pub const V4L2: BackendId = BackendId::V4l2;
    pub const AV_FOUNDATION: BackendId = BackendId::AvFoundation;
    pub const CAMERA2: BackendId = BackendId::Camera2;
    pub const MEDIA_FOUNDATION: BackendId = BackendId::MediaFoundation;
    pub const SYNTHETIC: BackendId = BackendId::Synthetic;

    /// Position of this identifier in name order.
    pub fn rank(&self) -> (r: usize)
        ensures
            r == spec_backend_rank(*self),
            r < BACKEND_ID_COUNT,
    {
        match self {
            BackendId::AvFoundation => 0,
            BackendId::Camera2 => 1,
            BackendId::MediaFoundation => 2,
            BackendId::PlatformDefault => 3,
            BackendId::Synthetic => 4,
            BackendId::Uvc => 5,
            BackendId::V4l2 => 6,
        }
    }

    /// The identifier at a position of name order.
    pub fn at_rank(rank: usize) -> (id: BackendId)
        requires
            rank < BACKEND_ID_COUNT,
        ensures
            id == spec_backend_at(rank as int),
            spec_backend_rank(id) == rank,
    {
        if rank == 0 {
            BackendId::AvFoundation
        } else if rank == 1 {
            BackendId::Camera2
        } else if rank == 2 {
            BackendId::MediaFoundation
        } else if rank == 3 {
            BackendId::PlatformDefault
        } else if rank == 4 {
            BackendId::Synthetic
        } else if rank == 5 {
            BackendId::Uvc
        } else {
            BackendId::V4l2
        }
    }

    /// Stable machine-readable name.
    pub fn as_str(&self) -> (name: &'static str)
        ensures
            name@ == spec_backend_name(*self),
    {
        match self {
            BackendId::AvFoundation => "avfoundation",
            BackendId::Camera2 => "camera2",
            BackendId::MediaFoundation => "media-foundation",
            BackendId::PlatformDefault => "platform-default",
            BackendId::Synthetic => "synthetic",
            BackendId::Uvc => "uvc",
            BackendId::V4l2 => "v4l2",
        }
    }

    /// Human-readable backend name used in diagnostics.
    pub fn display_name(&self) -> (name: &'static str)
        ensures
            name@ == spec_backend_display(*self),
    {
        match self {
            BackendId::AvFoundation => "AVFoundation",
            BackendId::Camera2 => "Camera2",
            BackendId::MediaFoundation => "Media Foundation",
            BackendId::PlatformDefault => "Platform default",
            BackendId::Synthetic => "Synthetic",
            BackendId::Uvc => "UVC",
            BackendId::V4l2 => "V4L2",
        }
    }
}

/// Ranks are a bijection between identifiers and `0..BACKEND_ID_COUNT`.
pub proof fn lemma_backend_rank_bijection(id: BackendId, rank: int)
    requires
        0 <= rank < BACKEND_ID_COUNT,
    ensures
        spec_backend_at(spec_backend_rank(id)) == id,
        spec_backend_rank(spec_backend_at(rank)) == rank,
        0 <= spec_backend_rank(id) < BACKEND_ID_COUNT,
{
}

} // verus!
